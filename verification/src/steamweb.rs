//! The marketplace's pages: where they are found.
use crate::types::WorkshopId;
use vstd::prelude::*;
use vstd::string::*;

verus! {

/// The address that `url` writes for the text `s` once it has read it as an
/// absolute address; nothing where `s` is none.
pub uninterp spec fn url_serialized(s: Seq<char>) -> Option<Seq<char>>;

/// `url::Url::parse` and `Url::as_str`. The result is the named value
/// [`url_serialized`] of the text, an error standing for nothing.
#[verifier::external_body]
pub(crate) fn serialize_url(s: &str) -> (r: Option<String>)
    ensures
        r is Some <==> url_serialized(s@) is Some,
        r matches Some(url) ==> url@ == url_serialized(s@)->0,
{
    url::Url::parse(s).ok().map(|u| u.as_str().to_string())
}

/// The address under which a service is found, as it is written out.
#[derive(Debug, Clone, PartialEq, Eq)]
pub struct BaseUrl(String);

impl View for BaseUrl {
    type V = Seq<char>;

    closed spec fn view(&self) -> Seq<char> {
        self.0@
    }
}

impl BaseUrl {
    /// Reads an absolute address.
    pub fn parse(s: &str) -> (r: Option<BaseUrl>)
        ensures
            r is Some <==> url_serialized(s@) is Some,
            r matches Some(url) ==> url@ == url_serialized(s@)->0,
    {
        match serialize_url(s) {
            Some(url) => Some(BaseUrl(url)),
            None => None,
        }
    }

    pub fn as_str(&self) -> (s: &str)
        ensures
            s@ == self@,
    {
        self.0.as_str()
    }
}

/// Where the page of the item `id` is found under `base`.
pub open spec fn filedetails_at(base: Seq<char>, id: Seq<char>) -> Seq<char> {
    base + "sharedfiles/filedetails/?id="@ + id
}

/// Where the changelog of the item `id` is found under `base`.
pub open spec fn changelog_at(base: Seq<char>, id: Seq<char>) -> Seq<char> {
    base + "sharedfiles/filedetails/changelog/"@ + id
}

pub fn filedetails_url(steamcommunity: &BaseUrl, id: &WorkshopId) -> (url: String)
    ensures
        url@ == filedetails_at(steamcommunity@, id@),
{
    let mut url = steamcommunity.0.clone();
    url.append("sharedfiles/filedetails/?id=");
    url.append(id.as_str());
    url
}

pub fn changelog_url(steamcommunity: &BaseUrl, id: &WorkshopId) -> (url: String)
    ensures
        url@ == changelog_at(steamcommunity@, id@),
{
    let mut url = steamcommunity.0.clone();
    url.append("sharedfiles/filedetails/changelog/");
    url.append(id.as_str());
    url
}

} // verus!
