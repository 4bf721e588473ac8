//! The container engine: what is asked of it over its REST API, which status
//! each answer must carry, and the containers that build and publish jobs
//! run in.
use crate::text::decimal;
use crate::text::parse_i64;
use crate::text::parsed_i64;
use crate::text::push_decimal;
use crate::text::trim;
use crate::text::trimmed;
use vstd::prelude::*;
use vstd::string::*;

verus! {

/// Where the engine's API begins, whatever socket it listens on.
pub const API: &'static str = "http://p/v6.0.0/libpod/containers/";

/// Where the build container finds the items, one directory per item.
pub const MOD_DIR: &'static str = "/baro/mod/";

/// Where the build container leaves its fragments.
pub const FRAGMENTS_DIR: &'static str = "/baro/fragments/";

/// What is fetched from the build container once it is done.
pub const FRAGMENTS: &'static str = "/baro/fragments/.";

/// Where the build container finds the vanilla content.
pub const VANILLA_DIR: &'static str = "/baro/vanilla/";

/// No more of what a container writes is kept than this many bytes.
pub const OUTPUT_CAP: usize = 16_777_216;

/// Where the publish container expects the fragments.
pub const BUNDLES_DIR: &'static str = "/publish/web/assets/bundles";

/// Where the fragments are uploaded to in the publish container.
pub const BUNDLES: &'static str = "/publish/web/assets/bundles/";

#[derive(Debug, Clone, Copy, PartialEq, Eq, Structural)]
pub enum Method {
    Get,
    Post,
    Put,
    Delete,
}

/// A volume of the engine, mounted into a container.
#[derive(Debug, PartialEq)]
pub struct Volume {
    pub name: String,
    /// the part of the volume that is mounted; empty for all of it
    pub sub_path: String,
    pub dest: String,
}

/// A container as it is asked to be created.
#[derive(Debug, PartialEq)]
pub struct ContainerSpec {
    pub name: String,
    pub image: String,
    pub terminal: bool,
    pub command: Vec<String>,
    pub volumes: Vec<Volume>,
    /// variables of the environment, each a name and a value
    pub env: Vec<(String, String)>,
    /// where memory-backed file systems are mounted
    pub tmpfs: Vec<String>,
    /// whether the volumes that the image declares are memory-backed
    pub image_volumes_tmpfs: bool,
}

/// What the engine answers when a container was created.
#[derive(Debug, PartialEq)]
pub struct CreateResponse {
    pub id: String,
    pub warnings: Vec<String>,
}

/// One request to the engine.
#[derive(Debug, PartialEq)]
pub enum Call {
    Create { spec: ContainerSpec },
    /// unpack the archive `tar` at `path` inside the container
    Upload { container: String, path: String, tar: Vec<u8> },
    /// follow what the container writes
    Attach { container: String },
    Start { container: String },
    /// wait until the container has exited; the answer is its exit code
    Wait { container: String },
    /// pack what lies at `path` inside the container into an archive
    GetFiles { container: String, path: String },
    Delete { container: String },
}

impl Call {
    pub open spec fn spec_method(&self) -> Method {
        match self {
            Call::Upload { .. } => Method::Put,
            Call::GetFiles { .. } => Method::Get,
            Call::Delete { .. } => Method::Delete,
            _ => Method::Post,
        }
    }

    /// The status that shows that the engine did what was asked.
    pub open spec fn spec_expected(&self) -> u16 {
        match self {
            Call::Create { .. } => 201,
            Call::Start { .. } => 204,
            _ => 200,
        }
    }

    /// Where the request goes.
    pub open spec fn spec_url(&self) -> Seq<char> {
        match self {
            Call::Create { .. } => API@ + "create"@,
            Call::Upload { container, path, .. } => API@ + container@ + "/archive?path="@ + path@,
            Call::Attach { container } => API@ + container@ + "/attach?stdout=1&stderr=1"@,
            Call::Start { container } => API@ + container@ + "/start"@,
            Call::Wait { container } => API@ + container@ + "/wait"@,
            Call::GetFiles { container, path } => API@ + container@ + "/archive?path="@ + path@,
            Call::Delete { container } => API@ + container@ + "?force=1"@,
        }
    }

    #[verifier::when_used_as_spec(spec_method)]
    pub fn method(&self) -> (m: Method)
        ensures
            m == self.spec_method(),
    {
        match self {
            Call::Upload { .. } => Method::Put,
            Call::GetFiles { .. } => Method::Get,
            Call::Delete { .. } => Method::Delete,
            _ => Method::Post,
        }
    }

    #[verifier::when_used_as_spec(spec_expected)]
    pub fn expected(&self) -> (s: u16)
        ensures
            s == self.spec_expected(),
    {
        match self {
            Call::Create { .. } => 201,
            Call::Start { .. } => 204,
            _ => 200,
        }
    }

    pub fn url(&self) -> (u: String)
        ensures
            u@ == self.spec_url(),
    {
        let mut u = String::from_str(API);
        match self {
            Call::Create { .. } => {
                u.append("create");
            },
            Call::Upload { container, path, .. } => {
                u.append(container.as_str());
                u.append("/archive?path=");
                u.append(path.as_str());
            },
            Call::Attach { container } => {
                u.append(container.as_str());
                u.append("/attach?stdout=1&stderr=1");
            },
            Call::Start { container } => {
                u.append(container.as_str());
                u.append("/start");
            },
            Call::Wait { container } => {
                u.append(container.as_str());
                u.append("/wait");
            },
            Call::GetFiles { container, path } => {
                u.append(container.as_str());
                u.append("/archive?path=");
                u.append(path.as_str());
            },
            Call::Delete { container } => {
                u.append(container.as_str());
                u.append("?force=1");
            },
        }
        u
    }

    /// The content type of the body that goes with the request, where it
    /// has one that needs naming.
    pub fn content_type(&self) -> (t: Option<&'static str>)
        ensures
            t is Some <==> self is Upload,
            t matches Some(name) ==> name@ == crate::www::APPLICATION_XTAR@,
    {
        match self {
            Call::Upload { .. } => Some(crate::www::APPLICATION_XTAR),
            _ => None,
        }
    }
}

/// The engine answered with a status other than the one expected.
#[derive(Debug, PartialEq)]
pub struct ContainerError {
    pub status: u16,
    pub expected: u16,
    /// what the engine said
    pub body: String,
}

/// Holds the status of an answer against the one expected: the body of an
/// answer with the right status is handed on, any other answer is an error
/// that carries its body.
pub fn expect_status(status: u16, expected: u16, body: String) -> (r: Result<String, ContainerError>)
    ensures
        r == (if status == expected {
            Ok::<String, ContainerError>(body)
        } else {
            Err::<String, ContainerError>(ContainerError { status, expected, body })
        }),
{
    if status != expected {
        return Err(ContainerError { status, expected, body });
    }
    Ok(body)
}

impl ContainerError {
    pub open spec fn message(&self) -> Seq<char> {
        decimal(self.status as int) + " status not expected status "@ + decimal(
            self.expected as int,
        )
    }

    /// What went wrong, without the body.
    pub fn to_string(&self) -> (s: String)
        ensures
            s@ == self.message(),
    {
        let mut s = String::new();
        push_decimal(&mut s, self.status as i64);
        s.append(" status not expected status ");
        push_decimal(&mut s, self.expected as i64);
        assert(s@ =~= self.message());
        s
    }
}

/// The exit code that the answer to a wait names: the number in the text,
/// white space aside, and -1 for a text that is no number.
pub open spec fn exit_code_in(text: Seq<char>) -> i64 {
    match parsed_i64(trimmed(text)) {
        Some(code) => code,
        None => -1i64,
    }
}

/// Reads the exit code out of the answer to a wait.
pub fn exit_code(text: &str) -> (code: i64)
    ensures
        code == exit_code_in(text@),
{
    match parse_i64(trim(text)) {
        Some(code) => code,
        None => -1,
    }
}

/// The name of a key as a string.
fn key_text(pk: i64) -> (s: String)
    ensures
        s@ == decimal(pk as int),
{
    crate::text::decimal_string(pk)
}

/// The texts of a list of strings.
pub open spec fn texts(v: Seq<String>) -> Seq<Seq<char>> {
    v.map_values(|s: String| s@)
}

/// Where the item with the key `pk` lies in the build container.
pub open spec fn mod_path(pk: i64) -> Seq<char> {
    MOD_DIR@ + decimal(pk as int)
}

/// The paths of the items in the build container, in load order.
pub open spec fn mod_paths(items: Seq<i64>) -> Seq<Seq<char>> {
    items.map_values(|pk: i64| mod_path(pk))
}

/// The names under which the items are loaded, in load order.
pub open spec fn package_names(items: Seq<i64>) -> Seq<Seq<char>> {
    items.map_values(|pk: i64| decimal(pk as int))
}

/// The command of the build with the key `pk` over `items`: the fixed
/// options, one path per item, then the load order under the build's name.
pub open spec fn build_command_of(pk: i64, items: Seq<i64>) -> Seq<Seq<char>> {
    seq!["--no-index"@, "--output"@, FRAGMENTS_DIR@, "--content"@, VANILLA_DIR@] + mod_paths(items)
        + seq!["--named-load-order"@, decimal(pk as int)] + package_names(items)
}

pub fn path_for_mod(pk: i64) -> (s: String)
    ensures
        s@ == mod_path(pk),
{
    let mut s = String::from_str(MOD_DIR);
    push_decimal(&mut s, pk);
    s
}

pub fn build_command(pk: i64, items: &Vec<i64>) -> (command: Vec<String>)
    ensures
        texts(command@) == build_command_of(pk, items@),
{
    let mut command: Vec<String> = Vec::new();
    command.push(String::from_str("--no-index"));
    command.push(String::from_str("--output"));
    command.push(String::from_str(FRAGMENTS_DIR));
    command.push(String::from_str("--content"));
    command.push(String::from_str(VANILLA_DIR));
    let ghost fixed = seq!["--no-index"@, "--output"@, FRAGMENTS_DIR@, "--content"@, VANILLA_DIR@];
    assert(texts(command@) =~= fixed);
    let mut i: usize = 0;
    while i < items.len()
        invariant
            i <= items@.len(),
            texts(command@) == fixed + mod_paths(items@.take(i as int)),
        decreases items@.len() - i,
    {
        let ghost before = texts(command@);
        let path = path_for_mod(items[i]);
        command.push(path);
        proof {
            assert(texts(command@) =~= before.push(mod_path(items@[i as int])));
            assert(mod_paths(items@.take(i + 1)) =~= mod_paths(items@.take(i as int)).push(
                mod_path(items@[i as int]),
            ));
        }
        i += 1;
    }
    proof {
        assert(items@.take(i as int) =~= items@);
    }
    let ghost before = texts(command@);
    command.push(String::from_str("--named-load-order"));
    command.push(key_text(pk));
    let ghost head = fixed + mod_paths(items@) + seq!["--named-load-order"@, decimal(pk as int)];
    assert(texts(command@) =~= head);
    let mut j: usize = 0;
    while j < items.len()
        invariant
            j <= items@.len(),
            texts(command@) == head + package_names(items@.take(j as int)),
        decreases items@.len() - j,
    {
        let ghost before = texts(command@);
        command.push(key_text(items[j]));
        proof {
            assert(texts(command@) =~= before.push(decimal(items@[j as int] as int)));
            assert(package_names(items@.take(j + 1)) =~= package_names(items@.take(j as int)).push(
                decimal(items@[j as int] as int),
            ));
        }
        j += 1;
    }
    proof {
        assert(items@.take(j as int) =~= items@);
    }
    command
}

/// The container of the build with the key `pk` over `items`: it runs
/// `image` on a terminal with the build's command, and finds the vanilla
/// content in the volume `vanilla`.
pub fn build_container(pk: i64, items: &Vec<i64>, image: &str, vanilla: &str) -> (spec: ContainerSpec)
    ensures
        spec.name@ == "materialist-build-"@ + decimal(pk as int),
        spec.image@ == image@,
        spec.terminal,
        texts(spec.command@) == build_command_of(pk, items@),
        spec.volumes@.len() == 1,
        spec.volumes@[0].name@ == vanilla@,
        spec.volumes@[0].sub_path@.len() == 0,
        spec.volumes@[0].dest@ == "/baro/vanilla"@,
        spec.env@.len() == 0,
        spec.tmpfs@.len() == 0,
        !spec.image_volumes_tmpfs,
{
    let mut name = String::from_str("materialist-build-");
    push_decimal(&mut name, pk);
    let mut volumes: Vec<Volume> = Vec::new();
    volumes.push(
        Volume {
            name: vanilla.to_owned(),
            sub_path: String::new(),
            dest: String::from_str("/baro/vanilla"),
        },
    );
    ContainerSpec {
        name,
        image: image.to_owned(),
        terminal: true,
        command: build_command(pk, items),
        volumes,
        env: Vec::new(),
        tmpfs: Vec::new(),
        image_volumes_tmpfs: false,
    }
}

/// The container of the publish with the key `pk`: it runs `image` on a
/// terminal without a command of its own, finds the secrets in the volume
/// `secrets`, keeps the fragments in memory, and is told that it runs
/// unattended and which site it deploys.
pub fn publish_container(pk: i64, image: &str, secrets: &str, site: &str) -> (spec: ContainerSpec)
    ensures
        spec.name@ == "materialist-publish-"@ + decimal(pk as int),
        spec.image@ == image@,
        spec.terminal,
        spec.command@.len() == 0,
        spec.volumes@.len() == 1,
        spec.volumes@[0].name@ == secrets@,
        spec.volumes@[0].sub_path@ == "cloudflare"@,
        spec.volumes@[0].dest@ == "/run/secrets/cloudflare"@,
        spec.env@.len() == 2,
        spec.env@[0].0@ == "CI"@ && spec.env@[0].1@ == "1"@,
        spec.env@[1].0@ == "PROJECT_NAME"@ && spec.env@[1].1@ == site@,
        spec.tmpfs@.len() == 1,
        spec.tmpfs@[0]@ == BUNDLES_DIR@,
        spec.image_volumes_tmpfs,
{
    let mut name = String::from_str("materialist-publish-");
    push_decimal(&mut name, pk);
    let mut volumes: Vec<Volume> = Vec::new();
    volumes.push(
        Volume {
            name: secrets.to_owned(),
            sub_path: String::from_str("cloudflare"),
            dest: String::from_str("/run/secrets/cloudflare"),
        },
    );
    let mut env: Vec<(String, String)> = Vec::new();
    env.push((String::from_str("CI"), String::from_str("1")));
    env.push((String::from_str("PROJECT_NAME"), site.to_owned()));
    let mut tmpfs: Vec<String> = Vec::new();
    tmpfs.push(String::from_str(BUNDLES_DIR));
    ContainerSpec {
        name,
        image: image.to_owned(),
        terminal: true,
        command: Vec::new(),
        volumes,
        env,
        tmpfs,
        image_volumes_tmpfs: true,
    }
}

/// Where the site `site` is found once it is deployed.
pub fn public_url(site: &str) -> (url: String)
    ensures
        url@ == "https://"@ + site@ + ".pages.dev/"@,
{
    let mut url = String::from_str("https://");
    url.append(site);
    url.append(".pages.dev/");
    url
}

/// The bytes that `zstd` unpacks out of `packed`; nothing where `packed` is
/// no zstd frame.
pub uninterp spec fn zstd_decoded(packed: Seq<u8>) -> Option<Seq<u8>>;

/// The bytes that `zstd` packs `plain` into at its default level.
pub uninterp spec fn zstd_encoded(plain: Seq<u8>) -> Option<Seq<u8>>;

/// The bytes of an optional list.
pub open spec fn opt_bytes(o: Option<Vec<u8>>) -> Option<Seq<u8>> {
    match o {
        Some(v) => Some(v@),
        None => None,
    }
}

/// `zstd::decode_all` on a slice. The result is the named value
/// [`zstd_decoded`] of the bytes, an error standing for nothing.
#[verifier::external_body]
pub(crate) fn unpack(packed: &[u8]) -> (r: Option<Vec<u8>>)
    ensures
        opt_bytes(r) == zstd_decoded(packed@),
{
    zstd::decode_all(packed).ok()
}

/// `zstd::encode_all` on a slice, at level 0. The result is the named value
/// [`zstd_encoded`] of the bytes, an error standing for nothing.
#[verifier::external_body]
pub(crate) fn pack(plain: &[u8]) -> (r: Option<Vec<u8>>)
    ensures
        opt_bytes(r) == zstd_encoded(plain@),
{
    zstd::encode_all(plain, 0).ok()
}

/// The bytes that a text stands for which holds a zstd frame in base 64.
pub open spec fn b64zstd_decoded(text: Seq<u8>) -> Option<Seq<u8>> {
    match crate::types::base64url_decoded(text) {
        Some(packed) => zstd_decoded(packed),
        None => None,
    }
}

/// Reads bytes that travel as a zstd frame in base 64.
pub fn from_b64zstd(text: &[u8]) -> (r: Option<Vec<u8>>)
    ensures
        opt_bytes(r) == b64zstd_decoded(text@),
{
    match crate::types::decode_base64url(text) {
        Ok(packed) => unpack(packed.as_slice()),
        Err(_) => None,
    }
}

} // verus!
