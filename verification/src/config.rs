//! The configuration: a frozen record, read from a document of nodes.
//!
//! A document is a list of nodes; a node has a name, entries and perhaps
//! children. The configuration is the default one, changed by each node of
//! the document in turn. A node that is not understood changes nothing and
//! is kept as an error with its place in the source; a document with an
//! error is refused as a whole, with all of its errors.
use crate::steamweb::url_serialized;
use crate::text::decimal;
use crate::text::push_decimal;
use vstd::prelude::*;
use vstd::string::*;

verus! {

/// A value of an entry.
#[derive(Debug, Clone, PartialEq)]
pub enum Value {
    Text(String),
    Integer(i128),
    /// a boolean, a number with a fraction, or nothing
    Other,
}

/// An entry of a node: a value, perhaps under a name.
#[derive(Debug, Clone, PartialEq)]
pub struct Entry {
    pub name: Option<String>,
    pub value: Value,
}

/// A place in the source: where it begins and how long it is, in bytes.
#[derive(Debug, Clone, Copy, PartialEq, Eq, Structural)]
pub struct Span {
    pub offset: usize,
    pub len: usize,
}

/// A node of the document.
#[derive(Debug)]
pub struct Node {
    pub name: String,
    pub entries: Vec<Entry>,
    pub children: Option<Vec<Node>>,
    pub at: Span,
}

/// What is wrong with a node.
#[derive(Debug, Clone, Copy, PartialEq, Eq)]
pub enum Error {
    Expected { thing: &'static str, at: Span },
    Unexpected { at: Span },
}

/// Why a configuration was refused.
#[derive(Debug, PartialEq)]
pub enum ConfigError {
    /// the source is no document; with what its reader said
    Parse(String),
    /// the document is not the shape of a configuration
    Shape { src: String, errors: Vec<Error> },
}

pub type Result<T, E = ConfigError> = std::result::Result<T, E>;

#[derive(Debug, Clone, PartialEq)]
pub struct Config {
    pub db: String,
    pub www: WwwConfig,
    pub steamcmd: HttpReqConfig,
    pub steamcommunity: HttpReqConfig,
    pub podman: HttpReqConfig,
    pub publish: PublishConfig,
    pub build: BuildConfig,
}

#[derive(Debug, Clone, PartialEq)]
pub struct WwwConfig {
    /// the address to listen on, as `host-or-ip:port`
    pub listen: String,
    /// value of the Authorization header for the private routes; with an
    /// empty one those routes are never found
    pub debug_auth: String,
    /// in milliseconds
    pub wait_on_publish_poll_interval: u64,
    /// extra headers to add to the end of each response
    pub response_headers: Vec<(String, String)>,
}

#[derive(Debug, Clone, PartialEq)]
pub struct HttpReqConfig {
    pub url: String,
    /// the path of a unix socket to connect through; empty for none
    pub unix: String,
    pub concurrency: u8,
    pub user_agent: String,
    /// in milliseconds; zero for never
    pub read_timeout: u64,
}

#[derive(Debug, Clone, PartialEq)]
pub struct BuildConfig {
    pub image: String,
    pub work_inner: String,
    pub work_outer: String,
    pub vanilla: String,
}

#[derive(Debug, Clone, PartialEq)]
pub struct PublishConfig {
    pub image: String,
    pub work_inner: String,
    pub work_outer: String,
    pub secrets_volume: String,
    pub deploy_site: String,
}

/// The directory of the job `kind` with the key `pk` under `work`.
pub open spec fn work_dir(work: Seq<char>, pk: i64, kind: Seq<char>) -> Seq<char> {
    work + "/"@ + decimal(pk as int) + kind
}

fn work_dir_for(work: &str, pk: i64, kind: &str) -> (s: String)
    ensures
        s@ == work_dir(work@, pk, kind@),
{
    let mut s = work.to_owned();
    s.append("/");
    push_decimal(&mut s, pk);
    s.append(kind);
    s
}

impl Config {
    pub fn inner_work_dir_for_build(&self, pk: i64) -> (s: String)
        ensures
            s@ == work_dir(self.build.work_inner@, pk, "-build"@),
    {
        work_dir_for(self.build.work_inner.as_str(), pk, "-build")
    }

    pub fn outer_work_dir_for_build(&self, pk: i64) -> (s: String)
        ensures
            s@ == work_dir(self.build.work_outer@, pk, "-build"@),
    {
        work_dir_for(self.build.work_outer.as_str(), pk, "-build")
    }

    pub fn inner_work_dir_for_publish(&self, pk: i64) -> (s: String)
        ensures
            s@ == work_dir(self.publish.work_inner@, pk, "-publish"@),
    {
        work_dir_for(self.publish.work_inner.as_str(), pk, "-publish")
    }

    pub fn outer_work_dir_for_publish(&self, pk: i64) -> (s: String)
        ensures
            s@ == work_dir(self.publish.work_outer@, pk, "-publish"@),
    {
        work_dir_for(self.publish.work_outer.as_str(), pk, "-publish")
    }
}

/// Whether `c` is the default configuration.
pub open spec fn is_default(c: Config) -> bool {
    &&& c.db@ == "/tmp/materialist-rs.sqlite"@
    &&& c.www.listen@ == "127.0.0.1:8847"@
    &&& c.www.debug_auth@ == ""@
    &&& c.www.wait_on_publish_poll_interval == 500
    &&& c.www.response_headers@.len() == 2
    &&& c.www.response_headers@[0].0@ == "access-control-allow-origin"@
    &&& c.www.response_headers@[0].1@ == "*"@
    &&& c.www.response_headers@[1].0@ == "access-control-allow-methods"@
    &&& c.www.response_headers@[1].1@ == "POST,GET,OPTIONS"@
    &&& c.steamcmd.url@ == "http://localhost:8888/"@
    &&& c.steamcmd.unix@ == ""@
    &&& c.steamcmd.concurrency == 3
    &&& c.steamcmd.user_agent@ == "europan-materialist/0 (materialist.pages.dev)"@
    &&& c.steamcmd.read_timeout == 0
    &&& c.steamcommunity.url@ == "https://steamcommunity.com/"@
    &&& c.steamcommunity.unix@ == ""@
    &&& c.steamcommunity.concurrency == 4
    &&& c.steamcommunity.user_agent@ == "europan-materialist/0 (materialist.pages.dev)"@
    &&& c.steamcommunity.read_timeout == 30_000
    &&& c.podman.url@ == "http://p/"@
    &&& c.podman.unix@ == "/run/user/1000/podman/podman.sock"@
    &&& c.podman.concurrency == 8
    &&& c.podman.user_agent@ == "europan-materialist/0 (materialist.pages.dev)"@
    &&& c.podman.read_timeout == 0
    &&& c.build.image@ == "splicer-build"@
    &&& c.build.work_inner@ == "/tmp/spl-api-work"@
    &&& c.build.work_outer@ == "/tmp/spl-api-work"@
    &&& c.build.vanilla@ == "barotrauma"@
    &&& c.publish.image@ == "splicer-publish"@
    &&& c.publish.work_inner@ == "/tmp/spl-api-work"@
    &&& c.publish.work_outer@ == "/tmp/spl-api-work"@
    &&& c.publish.secrets_volume@ == "materialist-secrets"@
    &&& c.publish.deploy_site@ == "materialist-next"@
}

impl Default for Config {
    fn default() -> (c: Config)
        ensures
            is_default(c),
    {
        let mut response_headers: Vec<(String, String)> = Vec::new();
        response_headers.push(
            (String::from_str("access-control-allow-origin"), String::from_str("*")),
        );
        response_headers.push(
            (String::from_str("access-control-allow-methods"), String::from_str("POST,GET,OPTIONS")),
        );
        Config {
            db: String::from_str("/tmp/materialist-rs.sqlite"),
            www: WwwConfig {
                listen: String::from_str("127.0.0.1:8847"),
                debug_auth: String::from_str(""),
                wait_on_publish_poll_interval: 500,
                response_headers,
            },
            steamcmd: HttpReqConfig {
                url: String::from_str("http://localhost:8888/"),
                unix: String::from_str(""),
                concurrency: 3,
                user_agent: String::from_str("europan-materialist/0 (materialist.pages.dev)"),
                read_timeout: 0,
            },
            steamcommunity: HttpReqConfig {
                url: String::from_str("https://steamcommunity.com/"),
                unix: String::from_str(""),
                concurrency: 4,
                user_agent: String::from_str("europan-materialist/0 (materialist.pages.dev)"),
                read_timeout: 30_000,
            },
            podman: HttpReqConfig {
                url: String::from_str("http://p/"),
                unix: String::from_str("/run/user/1000/podman/podman.sock"),
                concurrency: 8,
                user_agent: String::from_str("europan-materialist/0 (materialist.pages.dev)"),
                read_timeout: 0,
            },
            build: BuildConfig {
                image: String::from_str("splicer-build"),
                work_inner: String::from_str("/tmp/spl-api-work"),
                work_outer: String::from_str("/tmp/spl-api-work"),
                vanilla: String::from_str("barotrauma"),
            },
            publish: PublishConfig {
                image: String::from_str("splicer-publish"),
                work_inner: String::from_str("/tmp/spl-api-work"),
                work_outer: String::from_str("/tmp/spl-api-work"),
                secrets_volume: String::from_str("materialist-secrets"),
                deploy_site: String::from_str("materialist-next"),
            },
        }
    }
}

/// Whether `http` takes the text as the name of a header.
pub uninterp spec fn http_header_name_ok(s: Seq<char>) -> bool;

/// Whether a character may stand in the value of a header: a tab, or any
/// character from the space on but the delete character.
pub open spec fn header_value_char(c: char) -> bool {
    c == '\t' || (c >= ' ' && c != '\u{7f}')
}

/// Whether the text can be the value of a header, as `http` judges it: each
/// of its characters may stand there.
pub open spec fn header_value_ok(s: Seq<char>) -> bool {
    forall|i: int| 0 <= i < s.len() ==> header_value_char(#[trigger] s[i])
}

/// `http::HeaderName::from_bytes`: whether the text is the name of a header.
/// The result is the named value [`http_header_name_ok`] of the text.
#[verifier::external_body]
fn is_header_name(s: &str) -> (r: bool)
    ensures
        r == http_header_name_ok(s@),
{
    http::header::HeaderName::from_bytes(s.as_bytes()).is_ok()
}

/// Whether the text can be the value of a header.
pub fn is_header_value(s: &str) -> (r: bool)
    ensures
        r == header_value_ok(s@),
{
    let mut good = true;
    for c in it: s.chars()
        invariant
            it.seq() == s@,
            good == header_value_ok(it.seq().take(it.index())),
    {
        let ghost n = it.index();
        proof {
            let before = s@.take(n);
            let after = s@.take(n + 1);
            assert(after[n] == c);
            assert forall|i: int| 0 <= i < n implies before[i] == after[i] by {}
            if header_value_ok(after) {
                assert forall|i: int| 0 <= i < before.len() implies header_value_char(
                    #[trigger] before[i],
                ) by {
                    assert(header_value_char(after[i]));
                }
            }
            if header_value_ok(before) && header_value_char(c) {
                assert forall|i: int| 0 <= i < after.len() implies header_value_char(
                    #[trigger] after[i],
                ) by {
                    if i < n {
                        assert(header_value_char(before[i]));
                    }
                }
            }
        }
        if !(c == '\t' || (c >= ' ' && c != '\u{7f}')) {
            good = false;
        }
    }
    proof {
        assert(s@.take(s@.len() as int) =~= s@);
    }
    good
}

/// The one value of a node that has one entry without a name, and no
/// children.
pub open spec fn single(node: Node) -> Option<Value> {
    if node.entries@.len() == 1 && node.entries@[0].name is None && node.children is None {
        Some(node.entries@[0].value)
    } else {
        None
    }
}

/// The one value of a node, where it is a string.
pub open spec fn single_string(node: Node) -> Option<String> {
    match single(node) {
        Some(Value::Text(s)) => Some(s),
        _ => None,
    }
}

/// The one value of a node, where it is a whole number.
pub open spec fn single_integer(node: Node) -> Option<i128> {
    match single(node) {
        Some(Value::Integer(i)) => Some(i),
        _ => None,
    }
}

fn single_value(node: &Node) -> (r: Option<&Value>)
    ensures
        r is Some <==> single(*node) is Some,
        r matches Some(v) ==> *v == single(*node)->0,
{
    if node.entries.len() == 1 && node.entries[0].name.is_none() && node.children.is_none() {
        Some(&node.entries[0].value)
    } else {
        None
    }
}

fn string_of(node: &Node) -> (r: Option<String>)
    ensures
        r == single_string(*node),
{
    match single_value(node) {
        Some(Value::Text(s)) => Some(s.clone()),
        _ => None,
    }
}

fn integer_of(node: &Node) -> (r: Option<i128>)
    ensures
        r == single_integer(*node),
{
    match single_value(node) {
        Some(Value::Integer(i)) => Some(*i),
        _ => None,
    }
}

/// Whether a node has the name `name`.
fn named(node: &Node, name: &str) -> (r: bool)
    ensures
        r == (node.name@ == name@),
{
    let wanted = name.to_owned();
    node.name == wanted
}

/// The error that `thing` was expected at `node`.
pub open spec fn expected(thing: &'static str, node: Node) -> Error {
    Error::Expected { thing, at: node.at }
}

/// A string setting after a node: the node's one string, or the setting as
/// it was and an error.
pub open spec fn string_after(v: String, fails: Seq<Error>, node: Node, thing: &'static str) -> (
    String,
    Seq<Error>,
) {
    match single_string(node) {
        Some(s) => (s, fails),
        None => (v, fails.push(expected(thing, node))),
    }
}

/// An address setting after a node: the node's one string where it is an
/// absolute address.
pub open spec fn url_after(v: String, fails: Seq<Error>, node: Node) -> (String, Seq<Error>) {
    match single_string(node) {
        Some(s) => if url_serialized(s@) is Some {
            (s, fails)
        } else {
            (v, fails.push(expected("url", node)))
        },
        None => (v, fails.push(expected("url", node))),
    }
}

/// A small number setting after a node: the node's one whole number where it
/// lies between 0 and 255.
pub open spec fn u8_after(v: u8, fails: Seq<Error>, node: Node) -> (u8, Seq<Error>) {
    match single_integer(node) {
        Some(i) => if 0 <= i <= 255 {
            (i as u8, fails)
        } else {
            (v, fails.push(expected("single number in range 0..255", node)))
        },
        None => (v, fails.push(expected("single number in range 0..255", node))),
    }
}

/// A duration setting after a node: the node's one whole number of
/// milliseconds, where it is not negative and fits 64 bits.
pub open spec fn ms_after(v: u64, fails: Seq<Error>, node: Node) -> (u64, Seq<Error>) {
    match single_integer(node) {
        Some(i) => if 0 <= i <= u64::MAX {
            (i as u64, fails)
        } else {
            (v, fails.push(expected("single number in range 0..18,446 quadrillion", node)))
        },
        None => (v, fails.push(expected("single number in range 0..18,446 quadrillion", node))),
    }
}

fn expect_text(v: String, fails: &mut Vec<Error>, node: &Node, thing: &'static str) -> (r: String)
    ensures
        (r, final(fails)@) == string_after(v, old(fails)@, *node, thing),
{
    match string_of(node) {
        Some(s) => s,
        None => {
            fails.push(Error::Expected { thing, at: node.at });
            v
        },
    }
}

fn expect_string(v: String, fails: &mut Vec<Error>, node: &Node) -> (r: String)
    ensures
        (r, final(fails)@) == string_after(v, old(fails)@, *node, "single string"),
{
    expect_text(v, fails, node, "single string")
}

fn expect_sockaddr(v: String, fails: &mut Vec<Error>, node: &Node) -> (r: String)
    ensures
        (r, final(fails)@) == string_after(
            v,
            old(fails)@,
            *node,
            "socket address (hostname-or-ip:port)",
        ),
{
    expect_text(v, fails, node, "socket address (hostname-or-ip:port)")
}

fn expect_url(v: String, fails: &mut Vec<Error>, node: &Node) -> (r: String)
    ensures
        (r, final(fails)@) == url_after(v, old(fails)@, *node),
{
    match string_of(node) {
        Some(s) => {
            if crate::steamweb::serialize_url(s.as_str()).is_some() {
                return s;
            }
        },
        None => {},
    }
    fails.push(Error::Expected { thing: "url", at: node.at });
    v
}

fn expect_u8(v: u8, fails: &mut Vec<Error>, node: &Node) -> (r: u8)
    ensures
        (r, final(fails)@) == u8_after(v, old(fails)@, *node),
{
    match integer_of(node) {
        Some(i) => {
            if 0 <= i && i <= 255 {
                return i as u8;
            }
        },
        None => {},
    }
    fails.push(Error::Expected { thing: "single number in range 0..255", at: node.at });
    v
}

fn expect_duration_ms(v: u64, fails: &mut Vec<Error>, node: &Node) -> (r: u64)
    ensures
        (r, final(fails)@) == ms_after(v, old(fails)@, *node),
{
    match integer_of(node) {
        Some(i) => {
            if 0 <= i && i <= 0xffff_ffff_ffff_ffff {
                return i as u64;
            }
        },
        None => {},
    }
    fails.push(
        Error::Expected { thing: "single number in range 0..18,446 quadrillion", at: node.at },
    );
    v
}

/// The extra headers after one node of their section: the node's name and
/// its one string as a header, where `http` takes them as such.
pub open spec fn header_after(v: Seq<(String, String)>, fails: Seq<Error>, node: Node) -> (
    Seq<(String, String)>,
    Seq<Error>,
) {
    if !http_header_name_ok(node.name@) {
        (v, fails.push(expected("header name", node)))
    } else {
        match single_string(node) {
            Some(s) => if header_value_ok(s@) {
                (v.push((node.name, s)), fails)
            } else {
                (v, fails.push(expected("single string", node)))
            },
            None => (v, fails.push(expected("single string", node))),
        }
    }
}

/// The extra headers after the nodes of their section, one after the other.
pub open spec fn headers_fold(v: Seq<(String, String)>, fails: Seq<Error>, nodes: Seq<Node>) -> (
    Seq<(String, String)>,
    Seq<Error>,
)
    decreases nodes.len(),
{
    if nodes.len() == 0 {
        (v, fails)
    } else {
        let before = headers_fold(v, fails, nodes.drop_last());
        header_after(before.0, before.1, nodes.last())
    }
}

/// The extra headers after their section: the headers that the section
/// names, in place of those that were set before.
pub open spec fn headers_after(v: Seq<(String, String)>, fails: Seq<Error>, node: Node) -> (
    Seq<(String, String)>,
    Seq<Error>,
) {
    match node.children {
        None => (v, fails.push(expected("children", node))),
        Some(children) => headers_fold(Seq::empty(), fails, children@),
    }
}

fn expect_headers(v: Vec<(String, String)>, fails: &mut Vec<Error>, node: &Node) -> (r: Vec<
    (String, String),
>)
    ensures
        (r@, final(fails)@) == headers_after(v@, old(fails)@, *node),
{
    let children = match &node.children {
        Some(children) => children,
        None => {
            fails.push(Error::Expected { thing: "children", at: node.at });
            return v;
        },
    };
    let mut r: Vec<(String, String)> = Vec::new();
    let mut i: usize = 0;
    while i < children.len()
        invariant
            i <= children@.len(),
            (r@, fails@) == headers_fold(Seq::empty(), old(fails)@, children@.take(i as int)),
        decreases children@.len() - i,
    {
        proof {
            assert(children@.take(i + 1).drop_last() =~= children@.take(i as int));
        }
        let child = &children[i];
        if !is_header_name(child.name.as_str()) {
            fails.push(Error::Expected { thing: "header name", at: child.at });
        } else {
            let value = match string_of(child) {
                Some(s) => if is_header_value(s.as_str()) {
                    Some(s)
                } else {
                    None
                },
                None => None,
            };
            match value {
                Some(s) => r.push((child.name.clone(), s)),
                None => fails.push(Error::Expected { thing: "single string", at: child.at }),
            }
        }
        i += 1;
    }
    proof {
        assert(children@.take(i as int) =~= children@);
    }
    r
}

/// The frontend's settings as plain values.
pub struct Www {
    pub listen: String,
    pub debug_auth: String,
    pub wait_on_publish_poll_interval: u64,
    pub response_headers: Seq<(String, String)>,
}

impl View for WwwConfig {
    type V = Www;

    open spec fn view(&self) -> Www {
        Www {
            listen: self.listen,
            debug_auth: self.debug_auth,
            wait_on_publish_poll_interval: self.wait_on_publish_poll_interval,
            response_headers: self.response_headers@,
        }
    }
}

/// The configuration as plain values.
pub struct Settings {
    pub db: String,
    pub www: Www,
    pub steamcmd: HttpReqConfig,
    pub steamcommunity: HttpReqConfig,
    pub podman: HttpReqConfig,
    pub publish: PublishConfig,
    pub build: BuildConfig,
}

impl View for Config {
    type V = Settings;

    open spec fn view(&self) -> Settings {
        Settings {
            db: self.db,
            www: self.www@,
            steamcmd: self.steamcmd,
            steamcommunity: self.steamcommunity,
            podman: self.podman,
            publish: self.publish,
            build: self.build,
        }
    }
}

/// The frontend's settings after one node of their section.
pub open spec fn www_after(v: Www, fails: Seq<Error>, node: Node) -> (Www, Seq<Error>) {
    if node.name@ == "listen"@ {
        let r = string_after(v.listen, fails, node, "socket address (hostname-or-ip:port)");
        (Www { listen: r.0, ..v }, r.1)
    } else if node.name@ == "debug-auth"@ {
        let r = string_after(v.debug_auth, fails, node, "single string");
        (Www { debug_auth: r.0, ..v }, r.1)
    } else if node.name@ == "response-headers"@ {
        let r = headers_after(v.response_headers, fails, node);
        (Www { response_headers: r.0, ..v }, r.1)
    } else if node.name@ == "wait-on-publish-poll-interval-ms"@ {
        let r = ms_after(v.wait_on_publish_poll_interval, fails, node);
        (Www { wait_on_publish_poll_interval: r.0, ..v }, r.1)
    } else {
        (v, fails.push(Error::Unexpected { at: node.at }))
    }
}

/// The settings of an outside service after one node of their section.
pub open spec fn httpreq_after(v: HttpReqConfig, fails: Seq<Error>, node: Node) -> (
    HttpReqConfig,
    Seq<Error>,
) {
    if node.name@ == "url"@ {
        let r = url_after(v.url, fails, node);
        (HttpReqConfig { url: r.0, ..v }, r.1)
    } else if node.name@ == "unix"@ {
        let r = string_after(v.unix, fails, node, "single string");
        (HttpReqConfig { unix: r.0, ..v }, r.1)
    } else if node.name@ == "concurrency"@ {
        let r = u8_after(v.concurrency, fails, node);
        (HttpReqConfig { concurrency: r.0, ..v }, r.1)
    } else if node.name@ == "user-agent"@ {
        let r = string_after(v.user_agent, fails, node, "single string");
        (HttpReqConfig { user_agent: r.0, ..v }, r.1)
    } else if node.name@ == "read-timeout-ms"@ {
        let r = ms_after(v.read_timeout, fails, node);
        (HttpReqConfig { read_timeout: r.0, ..v }, r.1)
    } else {
        (v, fails.push(Error::Unexpected { at: node.at }))
    }
}

/// The settings of the build jobs after one node of their section.
pub open spec fn build_after(v: BuildConfig, fails: Seq<Error>, node: Node) -> (
    BuildConfig,
    Seq<Error>,
) {
    if node.name@ == "image"@ {
        let r = string_after(v.image, fails, node, "single string");
        (BuildConfig { image: r.0, ..v }, r.1)
    } else if node.name@ == "work-inner"@ {
        let r = string_after(v.work_inner, fails, node, "single string");
        (BuildConfig { work_inner: r.0, ..v }, r.1)
    } else if node.name@ == "work-outer"@ {
        let r = string_after(v.work_outer, fails, node, "single string");
        (BuildConfig { work_outer: r.0, ..v }, r.1)
    } else if node.name@ == "vanilla"@ {
        let r = string_after(v.vanilla, fails, node, "single string");
        (BuildConfig { vanilla: r.0, ..v }, r.1)
    } else {
        (v, fails.push(Error::Unexpected { at: node.at }))
    }
}

/// The settings of the publish jobs after one node of their section.
pub open spec fn publish_after(v: PublishConfig, fails: Seq<Error>, node: Node) -> (
    PublishConfig,
    Seq<Error>,
) {
    if node.name@ == "image"@ {
        let r = string_after(v.image, fails, node, "single string");
        (PublishConfig { image: r.0, ..v }, r.1)
    } else if node.name@ == "work-inner"@ {
        let r = string_after(v.work_inner, fails, node, "single string");
        (PublishConfig { work_inner: r.0, ..v }, r.1)
    } else if node.name@ == "work-outer"@ {
        let r = string_after(v.work_outer, fails, node, "single string");
        (PublishConfig { work_outer: r.0, ..v }, r.1)
    } else if node.name@ == "secrets-volume"@ {
        let r = string_after(v.secrets_volume, fails, node, "single string");
        (PublishConfig { secrets_volume: r.0, ..v }, r.1)
    } else if node.name@ == "deploy-site"@ {
        let r = string_after(v.deploy_site, fails, node, "single string");
        (PublishConfig { deploy_site: r.0, ..v }, r.1)
    } else {
        (v, fails.push(Error::Unexpected { at: node.at }))
    }
}

/// A setting after the nodes of a section, one after the other, where
/// `after` says what one node does.
pub open spec fn fold<T>(
    after: spec_fn(T, Seq<Error>, Node) -> (T, Seq<Error>),
    v: T,
    fails: Seq<Error>,
    nodes: Seq<Node>,
) -> (T, Seq<Error>)
    decreases nodes.len(),
{
    if nodes.len() == 0 {
        (v, fails)
    } else {
        let before = fold(after, v, fails, nodes.drop_last());
        after(before.0, before.1, nodes.last())
    }
}

/// A setting after its section: the section must have children, which
/// change the setting one after the other.
pub open spec fn section<T>(
    after: spec_fn(T, Seq<Error>, Node) -> (T, Seq<Error>),
    v: T,
    fails: Seq<Error>,
    node: Node,
) -> (T, Seq<Error>) {
    match node.children {
        None => (v, fails.push(expected("children", node))),
        Some(children) => fold(after, v, fails, children@),
    }
}

/// The configuration after one node of the document.
pub open spec fn top_after(c: Settings, fails: Seq<Error>, node: Node) -> (Settings, Seq<Error>) {
    if node.name@ == "db"@ {
        let r = string_after(c.db, fails, node, "single string");
        (Settings { db: r.0, ..c }, r.1)
    } else if node.name@ == "www"@ {
        let r = section(|v: Www, f: Seq<Error>, n: Node| www_after(v, f, n), c.www, fails, node);
        (Settings { www: r.0, ..c }, r.1)
    } else if node.name@ == "steamcommunity"@ {
        let r = section(
            |v: HttpReqConfig, f: Seq<Error>, n: Node| httpreq_after(v, f, n),
            c.steamcommunity,
            fails,
            node,
        );
        (Settings { steamcommunity: r.0, ..c }, r.1)
    } else if node.name@ == "steamcmd"@ {
        let r = section(
            |v: HttpReqConfig, f: Seq<Error>, n: Node| httpreq_after(v, f, n),
            c.steamcmd,
            fails,
            node,
        );
        (Settings { steamcmd: r.0, ..c }, r.1)
    } else if node.name@ == "podman"@ {
        let r = section(
            |v: HttpReqConfig, f: Seq<Error>, n: Node| httpreq_after(v, f, n),
            c.podman,
            fails,
            node,
        );
        (Settings { podman: r.0, ..c }, r.1)
    } else if node.name@ == "build"@ {
        let r = section(
            |v: BuildConfig, f: Seq<Error>, n: Node| build_after(v, f, n),
            c.build,
            fails,
            node,
        );
        (Settings { build: r.0, ..c }, r.1)
    } else if node.name@ == "publish"@ {
        let r = section(
            |v: PublishConfig, f: Seq<Error>, n: Node| publish_after(v, f, n),
            c.publish,
            fails,
            node,
        );
        (Settings { publish: r.0, ..c }, r.1)
    } else {
        (c, fails.push(Error::Unexpected { at: node.at }))
    }
}

/// What a document makes of the configuration `c`: the configuration after
/// all of its nodes, and everything that is wrong with them, in order.
pub open spec fn document(c: Settings, nodes: Seq<Node>) -> (Settings, Seq<Error>) {
    fold(|v: Settings, f: Seq<Error>, n: Node| top_after(v, f, n), c, Seq::empty(), nodes)
}

fn expect_www(v: WwwConfig, fails: &mut Vec<Error>, node: &Node) -> (r: WwwConfig)
    ensures
        (r@, final(fails)@) == section(
            |v: Www, f: Seq<Error>, n: Node| www_after(v, f, n),
            v@,
            old(fails)@,
            *node,
        ),
{
    let children = match &node.children {
        Some(children) => children,
        None => {
            fails.push(Error::Expected { thing: "children", at: node.at });
            return v;
        },
    };
    let ghost after = |v: Www, f: Seq<Error>, n: Node| www_after(v, f, n);
    let ghost start = v;
    let mut v = v;
    let mut i: usize = 0;
    while i < children.len()
        invariant
            i <= children@.len(),
            after == |v: Www, f: Seq<Error>, n: Node| www_after(v, f, n),
            (v@, fails@) == fold(after, start@, old(fails)@, children@.take(i as int)),
        decreases children@.len() - i,
    {
        proof {
            assert(children@.take(i + 1).drop_last() =~= children@.take(i as int));
        }
        let child = &children[i];
        let WwwConfig { listen, debug_auth, wait_on_publish_poll_interval, response_headers } = v;
        v =
        if named(child, "listen") {
            let listen = expect_sockaddr(listen, fails, child);
            WwwConfig { listen, debug_auth, wait_on_publish_poll_interval, response_headers }
        } else if named(child, "debug-auth") {
            let debug_auth = expect_string(debug_auth, fails, child);
            WwwConfig { listen, debug_auth, wait_on_publish_poll_interval, response_headers }
        } else if named(child, "response-headers") {
            let response_headers = expect_headers(response_headers, fails, child);
            WwwConfig { listen, debug_auth, wait_on_publish_poll_interval, response_headers }
        } else if named(child, "wait-on-publish-poll-interval-ms") {
            let wait_on_publish_poll_interval = expect_duration_ms(
                wait_on_publish_poll_interval,
                fails,
                child,
            );
            WwwConfig { listen, debug_auth, wait_on_publish_poll_interval, response_headers }
        } else {
            fails.push(Error::Unexpected { at: child.at });
            WwwConfig { listen, debug_auth, wait_on_publish_poll_interval, response_headers }
        };
        i += 1;
    }
    proof {
        assert(children@.take(i as int) =~= children@);
    }
    v
}

fn expect_httpreq(v: HttpReqConfig, fails: &mut Vec<Error>, node: &Node) -> (r: HttpReqConfig)
    ensures
        (r, final(fails)@) == section(
            |v: HttpReqConfig, f: Seq<Error>, n: Node| httpreq_after(v, f, n),
            v,
            old(fails)@,
            *node,
        ),
{
    let children = match &node.children {
        Some(children) => children,
        None => {
            fails.push(Error::Expected { thing: "children", at: node.at });
            return v;
        },
    };
    let ghost after = |v: HttpReqConfig, f: Seq<Error>, n: Node| httpreq_after(v, f, n);
    let ghost start = v;
    let mut v = v;
    let mut i: usize = 0;
    while i < children.len()
        invariant
            i <= children@.len(),
            after == |v: HttpReqConfig, f: Seq<Error>, n: Node| httpreq_after(v, f, n),
            (v, fails@) == fold(after, start, old(fails)@, children@.take(i as int)),
        decreases children@.len() - i,
    {
        proof {
            assert(children@.take(i + 1).drop_last() =~= children@.take(i as int));
        }
        let child = &children[i];
        let HttpReqConfig { url, unix, concurrency, user_agent, read_timeout } = v;
        v =
        if named(child, "url") {
            let url = expect_url(url, fails, child);
            HttpReqConfig { url, unix, concurrency, user_agent, read_timeout }
        } else if named(child, "unix") {
            let unix = expect_string(unix, fails, child);
            HttpReqConfig { url, unix, concurrency, user_agent, read_timeout }
        } else if named(child, "concurrency") {
            let concurrency = expect_u8(concurrency, fails, child);
            HttpReqConfig { url, unix, concurrency, user_agent, read_timeout }
        } else if named(child, "user-agent") {
            let user_agent = expect_string(user_agent, fails, child);
            HttpReqConfig { url, unix, concurrency, user_agent, read_timeout }
        } else if named(child, "read-timeout-ms") {
            let read_timeout = expect_duration_ms(read_timeout, fails, child);
            HttpReqConfig { url, unix, concurrency, user_agent, read_timeout }
        } else {
            fails.push(Error::Unexpected { at: child.at });
            HttpReqConfig { url, unix, concurrency, user_agent, read_timeout }
        };
        i += 1;
    }
    proof {
        assert(children@.take(i as int) =~= children@);
    }
    v
}

fn expect_build(v: BuildConfig, fails: &mut Vec<Error>, node: &Node) -> (r: BuildConfig)
    ensures
        (r, final(fails)@) == section(
            |v: BuildConfig, f: Seq<Error>, n: Node| build_after(v, f, n),
            v,
            old(fails)@,
            *node,
        ),
{
    let children = match &node.children {
        Some(children) => children,
        None => {
            fails.push(Error::Expected { thing: "children", at: node.at });
            return v;
        },
    };
    let ghost after = |v: BuildConfig, f: Seq<Error>, n: Node| build_after(v, f, n);
    let ghost start = v;
    let mut v = v;
    let mut i: usize = 0;
    while i < children.len()
        invariant
            i <= children@.len(),
            after == |v: BuildConfig, f: Seq<Error>, n: Node| build_after(v, f, n),
            (v, fails@) == fold(after, start, old(fails)@, children@.take(i as int)),
        decreases children@.len() - i,
    {
        proof {
            assert(children@.take(i + 1).drop_last() =~= children@.take(i as int));
        }
        let child = &children[i];
        let BuildConfig { image, work_inner, work_outer, vanilla } = v;
        v =
        if named(child, "image") {
            let image = expect_string(image, fails, child);
            BuildConfig { image, work_inner, work_outer, vanilla }
        } else if named(child, "work-inner") {
            let work_inner = expect_string(work_inner, fails, child);
            BuildConfig { image, work_inner, work_outer, vanilla }
        } else if named(child, "work-outer") {
            let work_outer = expect_string(work_outer, fails, child);
            BuildConfig { image, work_inner, work_outer, vanilla }
        } else if named(child, "vanilla") {
            let vanilla = expect_string(vanilla, fails, child);
            BuildConfig { image, work_inner, work_outer, vanilla }
        } else {
            fails.push(Error::Unexpected { at: child.at });
            BuildConfig { image, work_inner, work_outer, vanilla }
        };
        i += 1;
    }
    proof {
        assert(children@.take(i as int) =~= children@);
    }
    v
}

fn expect_publish(v: PublishConfig, fails: &mut Vec<Error>, node: &Node) -> (r: PublishConfig)
    ensures
        (r, final(fails)@) == section(
            |v: PublishConfig, f: Seq<Error>, n: Node| publish_after(v, f, n),
            v,
            old(fails)@,
            *node,
        ),
{
    let children = match &node.children {
        Some(children) => children,
        None => {
            fails.push(Error::Expected { thing: "children", at: node.at });
            return v;
        },
    };
    let ghost after = |v: PublishConfig, f: Seq<Error>, n: Node| publish_after(v, f, n);
    let ghost start = v;
    let mut v = v;
    let mut i: usize = 0;
    while i < children.len()
        invariant
            i <= children@.len(),
            after == |v: PublishConfig, f: Seq<Error>, n: Node| publish_after(v, f, n),
            (v, fails@) == fold(after, start, old(fails)@, children@.take(i as int)),
        decreases children@.len() - i,
    {
        proof {
            assert(children@.take(i + 1).drop_last() =~= children@.take(i as int));
        }
        let child = &children[i];
        let PublishConfig { image, work_inner, work_outer, secrets_volume, deploy_site } = v;
        v =
        if named(child, "image") {
            let image = expect_string(image, fails, child);
            PublishConfig { image, work_inner, work_outer, secrets_volume, deploy_site }
        } else if named(child, "work-inner") {
            let work_inner = expect_string(work_inner, fails, child);
            PublishConfig { image, work_inner, work_outer, secrets_volume, deploy_site }
        } else if named(child, "work-outer") {
            let work_outer = expect_string(work_outer, fails, child);
            PublishConfig { image, work_inner, work_outer, secrets_volume, deploy_site }
        } else if named(child, "secrets-volume") {
            let secrets_volume = expect_string(secrets_volume, fails, child);
            PublishConfig { image, work_inner, work_outer, secrets_volume, deploy_site }
        } else if named(child, "deploy-site") {
            let deploy_site = expect_string(deploy_site, fails, child);
            PublishConfig { image, work_inner, work_outer, secrets_volume, deploy_site }
        } else {
            fails.push(Error::Unexpected { at: child.at });
            PublishConfig { image, work_inner, work_outer, secrets_volume, deploy_site }
        };
        i += 1;
    }
    proof {
        assert(children@.take(i as int) =~= children@);
    }
    v
}

/// Reads a configuration out of the nodes of a document, beginning with the
/// configuration `init`: the configuration after all nodes, or every error of
/// the document with its source.
pub fn decode_onto(init: Config, src: &str, nodes: &Vec<Node>) -> (r: Result<Config>)
    ensures
        r is Ok <==> document(init@, nodes@).1.len() == 0,
        r matches Ok(c) ==> c@ == document(init@, nodes@).0,
        r matches Err(e) ==> (e matches ConfigError::Shape { src: kept, errors } && kept@ == src@
            && errors@ == document(init@, nodes@).1),
{
    let ghost after = |v: Settings, f: Seq<Error>, n: Node| top_after(v, f, n);
    let mut fails: Vec<Error> = Vec::new();
    let mut cfg = init;
    let mut i: usize = 0;
    while i < nodes.len()
        invariant
            i <= nodes@.len(),
            after == |v: Settings, f: Seq<Error>, n: Node| top_after(v, f, n),
            (cfg@, fails@) == fold(after, init@, Seq::empty(), nodes@.take(i as int)),
        decreases nodes@.len() - i,
    {
        proof {
            assert(nodes@.take(i + 1).drop_last() =~= nodes@.take(i as int));
        }
        let node = &nodes[i];
        let Config { db, www, steamcmd, steamcommunity, podman, publish, build } = cfg;
        cfg =
        if named(node, "db") {
            let db = expect_string(db, &mut fails, node);
            Config { db, www, steamcmd, steamcommunity, podman, publish, build }
        } else if named(node, "www") {
            let www = expect_www(www, &mut fails, node);
            Config { db, www, steamcmd, steamcommunity, podman, publish, build }
        } else if named(node, "steamcommunity") {
            let steamcommunity = expect_httpreq(steamcommunity, &mut fails, node);
            Config { db, www, steamcmd, steamcommunity, podman, publish, build }
        } else if named(node, "steamcmd") {
            let steamcmd = expect_httpreq(steamcmd, &mut fails, node);
            Config { db, www, steamcmd, steamcommunity, podman, publish, build }
        } else if named(node, "podman") {
            let podman = expect_httpreq(podman, &mut fails, node);
            Config { db, www, steamcmd, steamcommunity, podman, publish, build }
        } else if named(node, "build") {
            let build = expect_build(build, &mut fails, node);
            Config { db, www, steamcmd, steamcommunity, podman, publish, build }
        } else if named(node, "publish") {
            let publish = expect_publish(publish, &mut fails, node);
            Config { db, www, steamcmd, steamcommunity, podman, publish, build }
        } else {
            fails.push(Error::Unexpected { at: node.at });
            Config { db, www, steamcmd, steamcommunity, podman, publish, build }
        };
        i += 1;
    }
    proof {
        assert(nodes@.take(i as int) =~= nodes@);
    }
    if fails.len() > 0 {
        return Err(ConfigError::Shape { src: src.to_owned(), errors: fails });
    }
    Ok(cfg)
}

/// Reads a configuration out of the nodes of a document: the default
/// configuration, changed by each node in turn.
pub fn decode_nodes(src: &str, nodes: &Vec<Node>) -> (r: Result<Config>)
    ensures
        exists|init: Config|
            {
                &&& is_default(init)
                &&& r is Ok <==> (#[trigger] document(init@, nodes@)).1.len() == 0
                &&& r matches Ok(c) ==> c@ == document(init@, nodes@).0
                &&& r matches Err(e) ==> (e matches ConfigError::Shape { src: kept, errors }
                    && kept@ == src@ && errors@ == document(init@, nodes@).1)
            },
{
    decode_onto(Config::default(), src, nodes)
}

/// The default configuration as a document.
pub const DEFAULT_CONFIG: &'static str = r#"
db "/tmp/materialist-rs.sqlite"

// NYI // shutdown after not handling a request after this long
// afk-timer-sec 0

www {
    // listen address, not used when activated by systemd socket activation
    listen "127.0.0.1:8847"

    // value of Authorization header for "private" URLs at /x/...
    // with an empty debug-auth, those routes will always return 404
    debug-auth ""

    wait-on-publish-poll-interval-ms 500

    // extra headers to add to the end of each response
    response-headers {
        access-control-allow-origin *
        access-control-allow-methods POST,GET,OPTIONS
    }

}

// access to public/unlisted workshop pages on steam community
steamcommunity {
    url "https://steamcommunity.com/"
    concurrency 4
    read-timeout-ms 30_000
    user-agent "europan-materialist/0 (materialist.pages.dev)"
}

// access to the steamcmd downloading service in this project
steamcmd {
    url "http://localhost:8888/"
    concurrency 3
    user-agent "europan-materialist/0 (materialist.pages.dev)"
}

podman {
    unix "/run/user/1000/podman/podman.sock"
    concurrency 8
    user-agent "europan-materialist/0 (materialist.pages.dev)"
}

build {
    image splicer-build

    // podman volume name to use as vanilla core package
    vanilla barotrauma

    // path in this container to temporary files to be shared with the build container
    // can be the same value as in the publish section
    work-inner "/tmp/spl-api-work"
    // path on host to work-inner; specified as a bind mount when creating build container
    work-outer "/tmp/spl-api-work"
}

publish {
    image splicer-publish

    // path in this container to temporary files to be shared with the publish container
    // can be the same value as in the build section
    work-inner "/tmp/spl-api-work"
    // path on host to work-inner; specified as a bind mount when creating publish container
    work-outer "/tmp/spl-api-work"

    // A volume containing a file named `cloudflare` that looks like;
    // CLOUDFLARE_ACCOUNT_ID=...
    // CLOUDFLARE_API_TOKEN=...
    secrets-volume materialist-secrets
    // value for PROJECT_NAME environment variable in publish container
    deploy-site materialist-next
}
"#;

} // verus!
