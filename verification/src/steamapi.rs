//! The marketplace's web API: what is asked of it and what it answers.
use crate::text::digits;
use crate::text::push_digits;
use vstd::prelude::*;
use vstd::string::*;

verus! {

/// The envelope of every answer of the API.
#[derive(Debug)]
pub struct Response<T> {
    pub response: T,
}

#[derive(Debug)]
pub struct PublishedFileDetailsResults {
    pub result: i32,
    pub publishedfiledetails: Vec<PublishedFileDetailsResult>,
}

#[derive(Debug)]
pub struct PublishedFileDetailsResult {
    pub result: i32,
    pub details: Option<PublishedFileDetails>,
}

#[derive(Debug)]
pub struct PublishedFileDetails {
    pub publishedfileid: String,
    pub consumer_app_id: u64,
    /* player steamid */
    pub creator: String,
    pub title: String,
    pub preview_url: String,
    pub time_created: u64,
    pub time_updated: u64,
}

#[derive(Debug)]
pub struct CollectionDetailsResults {
    pub result: i32,
    pub collectiondetails: Vec<CollectionDetails>,
}

#[derive(Debug)]
pub struct CollectionDetails {
    pub result: i32,
    pub publishedfileid: String,
    pub children: Option<Vec<CollectionDetailsChildren>>,
}

#[derive(Debug)]
pub struct CollectionDetailsChildren {
    pub publishedfileid: String,
    pub sortorder: u32,
}

#[derive(Debug)]
pub struct PlayerSummariesResults {
    pub result: i32,
    pub players: Vec<PlayerSummary>,
}

#[derive(Debug)]
pub struct PlayerSummary {
    pub steamid: String,
    pub personaname: String,
    pub profileurl: String,
    pub avatar: String,
    pub avatarmedium: String,
    pub avatarmediumfull: String,
}

/// A form to post: where to, and the fields in order.
#[derive(Debug)]
pub struct Form {
    pub url: &'static str,
    pub params: Vec<(String, String)>,
}

/// Where the details of published files are asked for.
pub const PUBLISHED_FILE_DETAILS: &'static str =
    "https://api.steampowered.com/ISteamRemoteStorage/GetPublishedFileDetails/v1/";

/// Where the details of collections are asked for.
pub const COLLECTION_DETAILS: &'static str =
    "https://api.steampowered.com/ISteamRemoteStorage/GetCollectionDetails/v1/";

/// No more ids than this go into one form.
pub const MOST_IDS: usize = 100;

/// The name of the form field that holds the id at place `i`.
pub open spec fn id_field(i: nat) -> Seq<char> {
    "publishedfileids["@ + digits(i) + seq![']']
}

/// The fields of a form as plain text.
pub open spec fn fields(params: Seq<(String, String)>) -> Seq<(Seq<char>, Seq<char>)> {
    params.map_values(|p: (String, String)| (p.0@, p.1@))
}

fn id_field_name(i: usize) -> (s: String)
    ensures
        s@ == id_field(i as nat),
{
    let mut s = String::from_str("publishedfileids[");
    push_digits(&mut s, i as u64);
    s.push(']');
    s
}

/// The form that asks for the details of one published file.
pub fn request_published_file_details(workshopid: &str) -> (f: Form)
    ensures
        f.url@ == PUBLISHED_FILE_DETAILS@,
        fields(f.params@) == seq![("itemcount"@, "1"@), (id_field(0), workshopid@)],
{
    let mut params: Vec<(String, String)> = Vec::new();
    params.push((String::from_str("itemcount"), String::from_str("1")));
    params.push((id_field_name(0), workshopid.to_owned()));
    assert(fields(params@) =~= seq![("itemcount"@, "1"@), (id_field(0), workshopid@)]);
    Form { url: PUBLISHED_FILE_DETAILS, params }
}

/// The form that asks for the details of one collection.
pub fn request_collection_details(workshopid: &str) -> (f: Form)
    ensures
        f.url@ == COLLECTION_DETAILS@,
        fields(f.params@) == seq![("collectioncount"@, "1"@), (id_field(0), workshopid@)],
{
    let mut params: Vec<(String, String)> = Vec::new();
    params.push((String::from_str("collectioncount"), String::from_str("1")));
    params.push((id_field_name(0), workshopid.to_owned()));
    assert(fields(params@) =~= seq![("collectioncount"@, "1"@), (id_field(0), workshopid@)]);
    Form { url: COLLECTION_DETAILS, params }
}

/// How many of `n` ids go into one form.
pub open spec fn ids_taken(n: nat) -> nat {
    if n < MOST_IDS {
        n
    } else {
        MOST_IDS as nat
    }
}

/// The form that asks for the details of many published files: one field
/// per id, for the first hundred ids, and then their count.
pub fn request_many_published_file_details(workshopids: &Vec<String>) -> (f: Form)
    ensures
        f.url@ == PUBLISHED_FILE_DETAILS@,
        f.params@.len() == ids_taken(workshopids@.len()) + 1,
        forall|i: int|
            0 <= i < ids_taken(workshopids@.len()) ==> #[trigger] fields(f.params@)[i] == (
                id_field(i as nat),
                workshopids@[i]@,
            ),
        fields(f.params@).last() == ("itemcount"@, digits(ids_taken(workshopids@.len()))),
{
    let taken: usize = if workshopids.len() < MOST_IDS {
        workshopids.len()
    } else {
        MOST_IDS
    };
    let mut params: Vec<(String, String)> = Vec::new();
    let mut i: usize = 0;
    while i < taken
        invariant
            i <= taken <= workshopids@.len(),
            params@.len() == i,
            forall|j: int|
                0 <= j < i ==> #[trigger] fields(params@)[j] == (
                    id_field(j as nat),
                    workshopids@[j]@,
                ),
        decreases taken - i,
    {
        let ghost before = fields(params@);
        params.push((id_field_name(i), workshopids[i].clone()));
        assert(fields(params@) =~= before.push((id_field(i as nat), workshopids@[i as int]@)));
        i += 1;
    }
    let ghost before = fields(params@);
    let mut count = String::new();
    push_digits(&mut count, taken as u64);
    assert(count@ =~= digits(taken as nat));
    params.push((String::from_str("itemcount"), count));
    assert(fields(params@) =~= before.push(("itemcount"@, digits(taken as nat))));
    Form { url: PUBLISHED_FILE_DETAILS, params }
}

/// The place of the collection with the id that was asked for among the
/// collections of an answer: the first such, if there is one.
pub fn find_collection(found: &Vec<CollectionDetails>, workshopid: &str) -> (r: Option<usize>)
    ensures
        r matches Some(i) ==> i < found@.len() && found@[i as int].publishedfileid@ == workshopid@
            && forall|j: int| 0 <= j < i ==> found@[j].publishedfileid@ != workshopid@,
        r is None ==> forall|j: int|
            0 <= j < found@.len() ==> found@[j].publishedfileid@ != workshopid@,
{
    let wanted = workshopid.to_owned();
    let mut i: usize = 0;
    while i < found.len()
        invariant
            i <= found@.len(),
            wanted@ == workshopid@,
            forall|j: int| 0 <= j < i ==> found@[j].publishedfileid@ != workshopid@,
        decreases found@.len() - i,
    {
        if found[i].publishedfileid == wanted {
            return Some(i);
        }
        i += 1;
    }
    None
}

/// The characters that a session string is made of: digits and letters
/// without those that are easily mistaken for one another.
pub const SESSION_CHARS: &'static str = "0123456789ABCDEFGHJKMNPQRSTVWXYZabcdefghjkmnpqrstvwxyz";

/// The length of a session string.
pub const SESSION_LEN: usize = 12;

/// A random name for a session.
#[derive(Debug)]
pub struct SessionString(pub String);

/// `fastrand::choice` on the bytes of `alphabet`: one of them, picked at
/// random by the thread's generator, or nothing where there is none to pick.
#[verifier::external_body]
fn random_char(alphabet: &str) -> (r: Option<char>)
    requires
        alphabet.is_ascii(),
    ensures
        alphabet@.len() > 0 ==> r is Some,
        r matches Some(c) ==> alphabet@.contains(c),
{
    fastrand::choice(alphabet.as_bytes()).map(|b| *b as char)
}

/// Twelve characters, each picked at random among the session characters.
pub fn new_session_string() -> (s: SessionString)
    ensures
        s.0@.len() == SESSION_LEN,
        forall|i: int| 0 <= i < s.0@.len() ==> SESSION_CHARS@.contains(#[trigger] s.0@[i]),
{
    proof {
        reveal_strlit("0123456789ABCDEFGHJKMNPQRSTVWXYZabcdefghjkmnpqrstvwxyz");
    }
    let mut out = String::new();
    let mut i: usize = 0;
    while i < SESSION_LEN
        invariant
            i <= SESSION_LEN,
            out@.len() == i,
            SESSION_CHARS.is_ascii(),
            SESSION_CHARS@.len() > 0,
            forall|j: int| 0 <= j < out@.len() ==> SESSION_CHARS@.contains(#[trigger] out@[j]),
        decreases SESSION_LEN - i,
    {
        match random_char(SESSION_CHARS) {
            Some(c) => out.push(c),
            None => {
                assert(false);
            },
        }
        i += 1;
    }
    SessionString(out)
}

} // verus!
