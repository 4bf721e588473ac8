//! What the public surface answers: statuses, redirects and bodies, and how
//! each kind of failure is shown to a client.
use crate::db::Build;
use crate::db::WorkshopItem;
use crate::rate_limit::Options;
use crate::rate_limit::Ticket;
use crate::text::decimal;
use crate::text::push_decimal;
use crate::types::WorkshopId;
use vstd::prelude::*;
use vstd::string::*;

verus! {

pub const APPLICATION_XTAR: &'static str = "application/x-tar";

pub const APPLICATION_JSON: &'static str = "application/json";

/// No request body is read beyond this many bytes.
pub const FOUR_KILOBYTES: usize = 4096;

/// What a download is charged against the rate limit.
pub const COST_DOWNLOAD: Ticket = 1;

/// What a refresh is charged against the rate limit.
pub const COST_WORKSHOP: Ticket = 1;

/// The application whose workshop items are taken.
pub const BARO_APPID: &'static str = "602960";

/// The kinds of failure.
#[derive(Debug, Clone, Copy, PartialEq, Eq, Structural)]
pub enum Kind {
    /// a page of the marketplace could not be read
    ParseError,
    /// the store failed
    DbError,
    /// transport, status or body of an outgoing request failed
    HttpError,
    /// the container engine answered with an unexpected status
    ContainerError,
    RateLimitExceeded,
    BadRequest,
    NotFound,
    Gone,
    /// the store's inbox is full or its owner is gone
    Busy,
    Panic,
}

impl Kind {
    /// The status that a client sees for a failure of this kind.
    pub open spec fn spec_status(self) -> u16 {
        match self {
            Kind::BadRequest => 400,
            Kind::NotFound => 404,
            Kind::Gone => 410,
            Kind::RateLimitExceeded => 429,
            Kind::Busy => 503,
            _ => 500,
        }
    }

    #[verifier::when_used_as_spec(spec_status)]
    pub fn status(self) -> (s: u16)
        ensures
            s == self.spec_status(),
    {
        match self {
            Kind::BadRequest => 400,
            Kind::NotFound => 404,
            Kind::Gone => 410,
            Kind::RateLimitExceeded => 429,
            Kind::Busy => 503,
            _ => 500,
        }
    }
}

/// What goes into the body of an answer.
#[derive(Debug, PartialEq)]
pub enum Body {
    Empty,
    /// plain text
    Text(String),
    /// a document that is already written as JSON
    Json(String),
    /// an archive
    Tar(Vec<u8>),
    Item(WorkshopItem),
    Items(Vec<WorkshopItem>),
    Build(Build),
    Collection(CollectionResponse),
    Published { exit_code: i64, public_url: String },
    Pk(i64),
    RateLimits(Vec<(u128, Ticket)>),
}

/// What a collection of the marketplace is answered with.
#[derive(Debug, PartialEq)]
pub struct CollectionResponse {
    pub workshopid: WorkshopId,
    pub title: String,
    pub authors: Vec<String>,
    pub collection: Vec<WorkshopId>,
}

/// An answer to a client, before the configured extra headers are added.
#[derive(Debug, PartialEq)]
pub struct Response {
    pub status: u16,
    /// where a redirect leads
    pub location: Option<String>,
    pub body: Body,
}

/// The path under which the item with the key `pk` is shown.
pub open spec fn item_path(pk: i64) -> Seq<char> {
    "/workshop-item/"@ + decimal(pk as int) + "/"@
}

/// The path under which the build with the key `pk` is shown.
pub open spec fn build_path(pk: i64) -> Seq<char> {
    "/build/"@ + decimal(pk as int) + "/"@
}

pub fn path_for_workshop_item(pk: i64) -> (s: String)
    ensures
        s@ == item_path(pk),
{
    let mut s = String::from_str("/workshop-item/");
    push_decimal(&mut s, pk);
    s.append("/");
    s
}

pub fn path_for_build(pk: i64) -> (s: String)
    ensures
        s@ == build_path(pk),
{
    let mut s = String::from_str("/build/");
    push_decimal(&mut s, pk);
    s.append("/");
    s
}

/// The text shown for a failure of a kind that has one.
pub open spec fn failure_text(kind: Kind) -> Seq<char> {
    match kind {
        Kind::NotFound => "not found"@,
        Kind::Busy => "this computer too busy (x . x) ~~zzZ"@,
        Kind::RateLimitExceeded => "you are being rate limited (((＞.＜)))"@,
        Kind::Gone => Seq::empty(),
        _ => "something went wrong with the computer and your thing didn't work, sorry =C"@,
    }
}

/// The answer to a request that failed in the way `kind`, for every kind but
/// a bad request, whose answer says what was bad about it: the status of the
/// kind and a text that gives nothing away.
pub fn failure(kind: Kind) -> (r: Response)
    ensures
        r.status == kind.status(),
        r.location is None,
        kind == Kind::Gone ==> r.body == Body::Empty,
        kind != Kind::Gone ==> (r.body matches Body::Text(t) && t@ == failure_text(kind)),
{
    let body = match kind {
        Kind::NotFound => Body::Text(String::from_str("not found")),
        Kind::Busy => Body::Text(String::from_str("this computer too busy (x . x) ~~zzZ")),
        Kind::RateLimitExceeded => Body::Text(
            String::from_str("you are being rate limited (((＞.＜)))"),
        ),
        Kind::Gone => Body::Empty,
        _ => Body::Text(
            String::from_str(
                "something went wrong with the computer and your thing didn't work, sorry =C",
            ),
        ),
    };
    Response { status: kind.status(), location: None, body }
}

pub fn not_found_response() -> (r: Response)
    ensures
        r.status == 404,
        r.location is None,
        r.body matches Body::Text(t) && t@ == "not found"@,
{
    failure(Kind::NotFound)
}

pub fn internal_error_response() -> (r: Response)
    ensures
        r.status == 500,
        r.location is None,
        r.body matches Body::Text(t) && t@ == failure_text(Kind::Panic),
{
    failure(Kind::Panic)
}

pub fn too_busy() -> (r: Response)
    ensures
        r.status == 503,
        r.location is None,
        r.body matches Body::Text(t) && t@ == failure_text(Kind::Busy),
{
    failure(Kind::Busy)
}

pub fn rate_limited() -> (r: Response)
    ensures
        r.status == 429,
        r.location is None,
        r.body matches Body::Text(t) && t@ == failure_text(Kind::RateLimitExceeded),
{
    failure(Kind::RateLimitExceeded)
}

pub fn gone() -> (r: Response)
    ensures
        r.status == 410,
        r.location is None,
        r.body == Body::Empty,
{
    failure(Kind::Gone)
}

/// The answer to a request that could not be understood, with the reason.
pub fn bad_request(reason: String) -> (r: Response)
    ensures
        r == (Response { status: 400, location: None, body: Body::Text(reason) }),
{
    Response { status: 400, location: None, body: Body::Text(reason) }
}

pub fn redirect(s: &str) -> (r: Response)
    ensures
        r.status == 308,
        r.location matches Some(l) && l@ == s@,
        r.body == Body::Empty,
{
    Response { status: 308, location: Some(s.to_owned()), body: Body::Empty }
}

pub fn created(s: &str) -> (r: Response)
    ensures
        r.status == 201,
        r.location matches Some(l) && l@ == s@,
        r.body == Body::Empty,
{
    Response { status: 201, location: Some(s.to_owned()), body: Body::Empty }
}

pub fn see_other(s: &str) -> (r: Response)
    ensures
        r.status == 303,
        r.location matches Some(l) && l@ == s@,
        r.body == Body::Empty,
{
    Response { status: 303, location: Some(s.to_owned()), body: Body::Empty }
}

/// An answer that went well, with `body`.
pub fn ok(body: Body) -> (r: Response)
    ensures
        r == (Response { status: 200, location: None, body }),
{
    Response { status: 200, location: None, body }
}

/// The keys `list` as JSON writes a list of numbers, without the brackets.
pub open spec fn comma_separated(list: Seq<i64>) -> Seq<char>
    decreases list.len(),
{
    if list.len() == 0 {
        Seq::empty()
    } else if list.len() == 1 {
        decimal(list[0] as int)
    } else {
        comma_separated(list.drop_last()) + seq![','] + decimal(list.last() as int)
    }
}

/// The document that names the items missing for a build.
pub open spec fn missing_document(missing: Seq<i64>) -> Seq<char> {
    "{\"missing\":["@ + comma_separated(missing) + "]}"@
}

/// The answer to a build that wants items without a file: a bad request that
/// names them.
pub fn missing_items(missing: &Vec<i64>) -> (r: Response)
    ensures
        r.status == 400,
        r.location is None,
        r.body matches Body::Json(doc) && doc@ == missing_document(missing@),
{
    let mut doc = String::from_str("{\"missing\":[");
    let ghost start = doc@;
    let mut i: usize = 0;
    while i < missing.len()
        invariant
            i <= missing@.len(),
            doc@ == start + comma_separated(missing@.take(i as int)),
        decreases missing@.len() - i,
    {
        proof {
            assert(missing@.take(i + 1).drop_last() =~= missing@.take(i as int));
        }
        if i > 0 {
            doc.push(',');
        }
        push_decimal(&mut doc, missing[i]);
        proof {
            assert(doc@ =~= start + comma_separated(missing@.take(i + 1)));
        }
        i += 1;
    }
    proof {
        assert(missing@.take(i as int) =~= missing@);
    }
    doc.append("]}");
    Response { status: 400, location: None, body: Body::Json(doc) }
}

/// The address that a request came from, read from the headers that a proxy
/// sets: each candidate is a header in the order of trust, absent (`None`),
/// present but no address (`Some(None)`), or an address. The first address
/// wins.
pub fn remote_ip(candidates: &Vec<Option<Option<u128>>>) -> (r: Option<u128>)
    ensures
        r matches Some(ip) ==> exists|i: int|
            0 <= i < candidates@.len() && candidates@[i] == Some(Some(ip)) && forall|j: int|
                0 <= j < i ==> !(#[trigger] candidates@[j] matches Some(Some(_))),
        r is None ==> forall|j: int|
            0 <= j < candidates@.len() ==> !(#[trigger] candidates@[j] matches Some(Some(_))),
{
    let mut i: usize = 0;
    while i < candidates.len()
        invariant
            i <= candidates@.len(),
            forall|j: int| 0 <= j < i ==> !(#[trigger] candidates@[j] matches Some(Some(_))),
        decreases candidates@.len() - i,
    {
        match candidates[i] {
            Some(Some(ip)) => {
                return Some(ip);
            },
            _ => {},
        }
        i += 1;
    }
    None
}

/// What the frontend's rate limiter is built from.
pub fn rate_limit_options() -> (o: Options)
    ensures
        o.capacity == 400,
        o.interval == 30_000_000_000_000,
        o.length == 40,
{
    Options { interval: 30_000_000_000_000, length: 40, capacity: 400 }
}

/// Where the private routes begin.
pub const PRIVATE: &'static str = "/x/";

/// Whether a request for a private route is let through: the configured
/// token must not be empty, and the request must carry exactly it. With an
/// empty token the private routes are never found.
pub fn allows_private(debug_auth: &str, given: Option<&str>) -> (r: bool)
    ensures
        r == (debug_auth@.len() > 0 && (given matches Some(token) && token@ == debug_auth@)),
{
    if debug_auth.unicode_len() == 0 {
        return false;
    }
    match given {
        Some(token) => {
            let wanted = debug_auth.to_owned();
            let carried = token.to_owned();
            wanted == carried
        },
        None => false,
    }
}

/// Whether a path leads to a private route.
pub fn is_private(path: &str) -> (r: bool)
    ensures
        r == PRIVATE@.is_prefix_of(path@),
{
    proof {
        reveal_strlit("/x/");
    }
    let n = path.unicode_len();
    if n < 3 {
        return false;
    }
    let r = path.get_char(0) == '/' && path.get_char(1) == 'x' && path.get_char(2) == '/';
    proof {
        if r {
            assert(path@.subrange(0, 3) =~= PRIVATE@);
        } else if PRIVATE@.is_prefix_of(path@) {
            assert(path@.subrange(0, 3)[0] == '/');
            assert(path@.subrange(0, 3)[1] == 'x');
            assert(path@.subrange(0, 3)[2] == '/');
        }
    }
    r
}

} // verus!
