//! What is read out of the marketplace's pages.
use crate::types::chars_of;
use crate::types::count_id_chars;
use crate::types::id_prefix_len;
use crate::types::is_id;
use crate::types::lemma_id_prefix;
use crate::types::without_prefix;
use crate::text::parse_i64;
use crate::text::parsed_i64;
use crate::text::trim;
use crate::text::trimmed;
use crate::types::WorkshopId;
use crate::types::WorkshopIdOrUrl;
use vstd::prelude::*;
use vstd::string::*;

verus! {

/// Where the page of an item begins; its id follows.
pub const ITEM_PAGE: &'static str = "https://steamcommunity.com/sharedfiles/filedetails/?id=";

/// Another address under which the page of an item is found.
pub const ALSO_ITEM_PAGE: &'static str = "https://steamcommunity.com/workshop/filedetails/?id=";

/// The id that the address of an item's page names: the digits that follow
/// one of the two beginnings of such an address, up to the first character
/// that is no digit. An address that begins otherwise, or names no digit,
/// holds no id.
pub open spec fn id_in_url(url: Seq<char>) -> Option<Seq<char>> {
    let tail = match without_prefix(url, ITEM_PAGE@) {
        Some(t) => Some(t),
        None => without_prefix(url, ALSO_ITEM_PAGE@),
    };
    match tail {
        Some(t) => if id_prefix_len(t) > 0 {
            Some(t.take(id_prefix_len(t) as int))
        } else {
            None
        },
        None => None,
    }
}

/// Whether `v` begins with `p`, and if so how long `p` is.
fn begins_with(v: &Vec<char>, p: &str) -> (r: Option<usize>)
    ensures
        r is Some <==> p@.is_prefix_of(v@),
        r matches Some(n) ==> n == p@.len(),
{
    let pv = chars_of(p);
    if pv.len() > v.len() {
        return None;
    }
    let mut i: usize = 0;
    while i < pv.len()
        invariant
            i <= pv@.len() <= v@.len(),
            pv@ == p@,
            forall|j: int| 0 <= j < i ==> pv@[j] == v@[j],
        decreases pv@.len() - i,
    {
        if pv[i] != v[i] {
            assert(!p@.is_prefix_of(v@)) by {
                if p@.is_prefix_of(v@) {
                    assert(v@.subrange(0, p@.len() as int)[i as int] == p@[i as int]);
                }
            }
            return None;
        }
        i += 1;
    }
    assert(p@ =~= v@.subrange(0, p@.len() as int));
    Some(pv.len())
}

/// The workshop id named by the address of an item's page.
pub fn workshopid_from_url(url: &str) -> (r: Option<WorkshopId>)
    ensures
        r is Some <==> id_in_url(url@) is Some,
        r matches Some(id) ==> id@ == id_in_url(url@)->0,
{
    let v = chars_of(url);
    let start = match begins_with(&v, ITEM_PAGE) {
        Some(n) => n,
        None => match begins_with(&v, ALSO_ITEM_PAGE) {
            Some(n) => n,
            None => return None,
        },
    };
    let n = count_id_chars(&v, start);
    if n == 0 {
        return None;
    }
    let head = url.substring_char(start, start + n);
    proof {
        let tail = url@.skip(start as int);
        lemma_id_prefix(tail);
        assert(head@ =~= tail.take(n as int));
        assert(is_id(head@));
    }
    match WorkshopId::try_from(head.to_owned()) {
        Ok(id) => Some(id),
        Err(_) => None,
    }
}

/// The text of an optional string.
pub open spec fn opt_text(o: Option<String>) -> Option<Seq<char>> {
    match o {
        Some(s) => Some(s@),
        None => None,
    }
}

/// The value of the attribute `attr` on the first element of the document
/// `html` that the selector `css` matches, as `dom_query` finds it; nothing
/// where the selector is malformed, matches no element, or the element has no
/// such attribute.
pub uninterp spec fn dom_first_attr(html: Seq<char>, css: Seq<char>, attr: Seq<char>) -> Option<
    Seq<char>,
>;

/// Whether the selector `css` is well formed and matches an element of the
/// document `html`, as `dom_query` finds it.
pub uninterp spec fn dom_matches(html: Seq<char>, css: Seq<char>) -> bool;

/// The text that stands directly inside the first element of `html` that
/// `css` matches, as `dom_query` finds it; empty where there is none.
pub uninterp spec fn dom_first_text(html: Seq<char>, css: Seq<char>) -> Seq<char>;

/// The text that stands directly inside each element of `html` that `css`
/// matches, in document order, as `dom_query` finds it.
pub uninterp spec fn dom_each_text(html: Seq<char>, css: Seq<char>) -> Seq<Seq<char>>;

/// For each element of `html` that `outer` matches, in document order: the
/// value of `attr` on the first element inside it that `inner` matches, as
/// `dom_query` finds it.
pub uninterp spec fn dom_each_inner_attr(
    html: Seq<char>,
    outer: Seq<char>,
    inner: Seq<char>,
    attr: Seq<char>,
) -> Seq<Option<Seq<char>>>;

/// `dom_query::Document::from`, `Document::select_matcher`,
/// `Selection::first` and `Selection::attr`: parses `html`, selects with
/// `css` and reads `attr` on the first match. The result is the named value
/// [`dom_first_attr`] of the three texts.
#[verifier::external_body]
fn first_attr(html: &str, css: &str, attr: &str) -> (r: Option<String>)
    ensures
        opt_text(r) == dom_first_attr(html@, css@, attr@),
{
    let matcher = dom_query::Matcher::new(css).ok()?;
    let doc = dom_query::Document::from(html);
    doc.select_matcher(&matcher).first().attr(attr).map(|v| v.to_string())
}

/// `dom_query::Document::select_matcher` and `Selection::is_empty`: whether
/// `css` matches anything in `html`. The result is the named value
/// [`dom_matches`] of the two texts.
#[verifier::external_body]
fn any_match(html: &str, css: &str) -> (r: bool)
    ensures
        r == dom_matches(html@, css@),
{
    match dom_query::Matcher::new(css) {
        Ok(matcher) => !dom_query::Document::from(html).select_matcher(&matcher).is_empty(),
        Err(_) => false,
    }
}

/// `dom_query::Selection::immediate_text` on the first match of `css` in
/// `html`. The result is the named value [`dom_first_text`] of the two texts.
#[verifier::external_body]
fn first_text(html: &str, css: &str) -> (r: String)
    ensures
        r@ == dom_first_text(html@, css@),
{
    match dom_query::Matcher::new(css) {
        Ok(matcher) => dom_query::Document::from(html).select_matcher(
            &matcher,
        ).first().immediate_text().to_string(),
        Err(_) => String::new(),
    }
}

/// `dom_query::Selection::iter` and `Selection::immediate_text` on every
/// match of `css` in `html`. The result is the named value [`dom_each_text`]
/// of the two texts.
#[verifier::external_body]
fn each_text(html: &str, css: &str) -> (r: Vec<String>)
    ensures
        r@.map_values(|s: String| s@) == dom_each_text(html@, css@),
{
    match dom_query::Matcher::new(css) {
        Ok(matcher) => dom_query::Document::from(html).select_matcher(&matcher).iter().map(
            |el| el.immediate_text().to_string(),
        ).collect(),
        Err(_) => Vec::new(),
    }
}

/// `dom_query::Selection::select_matcher`, `Selection::first` and
/// `Selection::attr` inside every match of `outer` in `html`. The result is
/// the named value [`dom_each_inner_attr`] of the four texts.
#[verifier::external_body]
fn each_inner_attr(html: &str, outer: &str, inner: &str, attr: &str) -> (r: Vec<Option<String>>)
    ensures
        r@.map_values(|o: Option<String>| opt_text(o)) == dom_each_inner_attr(
            html@,
            outer@,
            inner@,
            attr@,
        ),
{
    match (dom_query::Matcher::new(outer), dom_query::Matcher::new(inner)) {
        (Ok(outer), Ok(inner)) => dom_query::Document::from(html).select_matcher(
            &outer,
        ).iter().map(
            |el| el.select_matcher(&inner).first().attr(attr).map(|v| v.to_string()),
        ).collect(),
        _ => Vec::new(),
    }
}

/// from <contentpackage>
#[derive(Debug, Clone, PartialEq)]
pub struct ContentPackage {
    pub name: String,
    pub version: String,
}

/// What the page of an item says of it.
#[derive(Debug, PartialEq)]
pub struct WorkshopItemFileDetails {
    pub appid: String,
    pub workshopid: WorkshopId,
    pub title: String,
    pub authors: Vec<String>,
}

/// What the changelog page of an item says of it.
#[derive(Debug)]
pub struct WorkshopItemChangelog {
    pub appid: String,
    pub workshopid: WorkshopId,
    pub latest_timestamp: i64,
}

/// The items that the page of a collection lists.
#[derive(Debug)]
pub struct WorkshopCollectionPage {
    pub items: Vec<WorkshopId>,
}

/// The element that carries a content package's name and version.
pub const CONTENT_PACKAGE: &'static str = "contentpackage";

/// Any element that names the application it belongs to.
pub const DATA_APPID: &'static str = "[data-appid]";

/// The link to the item's own page among the section tabs.
pub const WORKSHOP_URL: &'static str =
    ".sectionTabs a[href^=\"https://steamcommunity.com/sharedfiles/filedetails/?id=\"]";

/// The element that holds the item's title.
pub const ITEM_TITLE: &'static str = ".workshopItemTitle";

/// The elements that hold the names of the item's creators.
pub const CREATORS: &'static str = ".creatorsBlock .friendBlockContent";

/// The paragraphs of the changelog, each under the moment of its change.
pub const ANNOUNCEMENTS: &'static str = ".workshopAnnouncement p[id]";

/// The entries of a collection.
pub const COLLECTION_ITEMS: &'static str = ".collectionItem";

/// The link to an item's page inside an entry of a collection.
pub const ITEM_LINKS: &'static str =
    "a[href^=\"https://steamcommunity.com/sharedfiles/filedetails/?id=\"]";

/// The names of the creators: each without the white space at its ends, and
/// without those of which nothing is left.
pub open spec fn authors_of(creators: Seq<Seq<char>>) -> Seq<Seq<char>>
    decreases creators.len(),
{
    if creators.len() == 0 {
        Seq::empty()
    } else {
        let head = authors_of(creators.drop_last());
        let name = trimmed(creators.last());
        if name.len() == 0 {
            head
        } else {
            head.push(name)
        }
    }
}

/// The ids that a list of links names, in order; a missing link and a link
/// that names no id are passed over.
pub open spec fn ids_of(hrefs: Seq<Option<Seq<char>>>) -> Seq<Seq<char>>
    decreases hrefs.len(),
{
    if hrefs.len() == 0 {
        Seq::empty()
    } else {
        let head = ids_of(hrefs.drop_last());
        match hrefs.last() {
            Some(href) => match id_in_url(href) {
                Some(id) => head.push(id),
                None => head,
            },
            None => head,
        }
    }
}

/// The id that an optional link names.
pub open spec fn id_in_link(href: Option<Seq<char>>) -> Option<Seq<char>> {
    match href {
        Some(h) => id_in_url(h),
        None => None,
    }
}

fn id_from_link(href: &Option<String>) -> (r: Option<WorkshopId>)
    ensures
        r is Some <==> id_in_link(opt_text(*href)) is Some,
        r matches Some(id) ==> id@ == id_in_link(opt_text(*href))->0,
{
    match href {
        Some(h) => workshopid_from_url(h.as_str()),
        None => None,
    }
}

impl ContentPackage {
    /// The content package that a file list declares, from what was found in
    /// it: whether it has the element at all, and the element's name and
    /// version. A missing version is an empty one.
    pub fn from_parts(found: bool, name: Option<String>, version: Option<String>) -> (r: Result<
        ContentPackage,
        &'static str,
    >)
        ensures
            r is Ok <==> found && name is Some,
            r matches Ok(p) ==> p.name@ == name->0@ && p.version@ == (match version {
                Some(v) => v@,
                None => Seq::<char>::empty(),
            }),
            r matches Err(e) ==> e@ == (if !found {
                "no contentpackage element"@
            } else {
                "no name attribute"@
            }),
    {
        if !found {
            return Err("no contentpackage element");
        }
        let name = match name {
            Some(n) => n,
            None => return Err("no name attribute"),
        };
        let version = match version {
            Some(v) => v,
            None => String::new(),
        };
        Ok(ContentPackage { name, version })
    }

    /// Reads a content package out of a file list.
    pub fn parse(s: &str) -> (r: Result<ContentPackage, &'static str>)
        ensures
            r is Ok <==> dom_matches(s@, CONTENT_PACKAGE@) && dom_first_attr(
                s@,
                CONTENT_PACKAGE@,
                "name"@,
            ) is Some,
            r matches Ok(p) ==> p.name@ == dom_first_attr(s@, CONTENT_PACKAGE@, "name"@)->0
                && p.version@ == (match dom_first_attr(s@, CONTENT_PACKAGE@, "modversion"@) {
                Some(v) => v,
                None => Seq::<char>::empty(),
            }),
            r matches Err(e) ==> e@ == (if !dom_matches(s@, CONTENT_PACKAGE@) {
                "no contentpackage element"@
            } else {
                "no name attribute"@
            }),
    {
        let found = any_match(s, CONTENT_PACKAGE);
        let name = first_attr(s, CONTENT_PACKAGE, "name");
        let version = first_attr(s, CONTENT_PACKAGE, "modversion");
        ContentPackage::from_parts(found, name, version)
    }

    /// Reads a content package out of a file list, if it declares one.
    pub fn from_filelist(s: &str) -> (r: Option<ContentPackage>)
        ensures
            r is Some <==> dom_matches(s@, CONTENT_PACKAGE@) && dom_first_attr(
                s@,
                CONTENT_PACKAGE@,
                "name"@,
            ) is Some,
            r matches Some(p) ==> p.name@ == dom_first_attr(s@, CONTENT_PACKAGE@, "name"@)->0
                && p.version@ == (match dom_first_attr(s@, CONTENT_PACKAGE@, "modversion"@) {
                Some(v) => v,
                None => Seq::<char>::empty(),
            }),
    {
        match ContentPackage::parse(s) {
            Ok(p) => Some(p),
            Err(_) => None,
        }
    }
}

impl std::str::FromStr for ContentPackage {
    type Err = &'static str;

    /// Reads a content package out of a file list.
    fn from_str(s: &str) -> (r: Result<ContentPackage, &'static str>)
        ensures
            r is Ok <==> dom_matches(s@, CONTENT_PACKAGE@) && dom_first_attr(
                s@,
                CONTENT_PACKAGE@,
                "name"@,
            ) is Some,
            r matches Ok(p) ==> p.name@ == dom_first_attr(s@, CONTENT_PACKAGE@, "name"@)->0
                && p.version@ == (match dom_first_attr(s@, CONTENT_PACKAGE@, "modversion"@) {
                Some(v) => v,
                None => Seq::<char>::empty(),
            }),
            r matches Err(e) ==> e@ == (if !dom_matches(s@, CONTENT_PACKAGE@) {
                "no contentpackage element"@
            } else {
                "no name attribute"@
            }),
    {
        ContentPackage::parse(s)
    }
}

/// The creators' names as they are kept.
fn authors_from(creators: &Vec<String>) -> (authors: Vec<String>)
    ensures
        authors@.map_values(|s: String| s@) == authors_of(creators@.map_values(|s: String| s@)),
{
    let ghost texts = creators@.map_values(|s: String| s@);
    let mut authors: Vec<String> = Vec::new();
    let mut i: usize = 0;
    while i < creators.len()
        invariant
            i <= creators@.len(),
            texts == creators@.map_values(|s: String| s@),
            authors@.map_values(|s: String| s@) == authors_of(texts.take(i as int)),
        decreases creators@.len() - i,
    {
        proof {
            assert(texts.take(i + 1).drop_last() =~= texts.take(i as int));
            assert(texts.take(i + 1).last() == creators@[i as int]@);
        }
        let name = trim(creators[i].as_str());
        if name.unicode_len() > 0 {
            let ghost before = authors@.map_values(|s: String| s@);
            authors.push(name.to_owned());
            assert(authors@.map_values(|s: String| s@) =~= before.push(name@));
        }
        i += 1;
    }
    assert(texts.take(i as int) =~= texts);
    authors
}

impl WorkshopItemFileDetails {
    /// What the page of an item says of it, from what was found in the page:
    /// the application id, the link to the item's own page, the title and
    /// the creators' names.
    pub fn from_parts(
        appid: Option<String>,
        href: Option<String>,
        title: String,
        creators: Vec<String>,
    ) -> (r: Result<WorkshopItemFileDetails, &'static str>)
        ensures
            r is Ok <==> appid is Some && id_in_link(opt_text(href)) is Some,
            r matches Ok(d) ==> {
                &&& d.appid@ == appid->0@
                &&& d.workshopid@ == id_in_link(opt_text(href))->0
                &&& d.title@ == trimmed(title@)
                &&& d.authors@.map_values(|s: String| s@) == authors_of(
                    creators@.map_values(|s: String| s@),
                )
            },
            r matches Err(e) ==> e@ == (if appid is None {
                "no appid"@
            } else {
                "no workshop url"@
            }),
    {
        let appid = match appid {
            Some(a) => a,
            None => return Err("no appid"),
        };
        let workshopid = match id_from_link(&href) {
            Some(id) => id,
            None => return Err("no workshop url"),
        };
        let title = trim(title.as_str()).to_owned();
        let authors = authors_from(&creators);
        Ok(WorkshopItemFileDetails { appid, workshopid, title, authors })
    }

    /// Reads the page of an item.
    pub fn parse(s: &str) -> (r: Result<WorkshopItemFileDetails, &'static str>)
        ensures
            r is Ok <==> dom_first_attr(s@, DATA_APPID@, "data-appid"@) is Some && id_in_link(
                dom_first_attr(s@, WORKSHOP_URL@, "href"@),
            ) is Some,
            r matches Ok(d) ==> {
                &&& d.appid@ == dom_first_attr(s@, DATA_APPID@, "data-appid"@)->0
                &&& d.workshopid@ == id_in_link(dom_first_attr(s@, WORKSHOP_URL@, "href"@))->0
                &&& d.title@ == trimmed(dom_first_text(s@, ITEM_TITLE@))
                &&& d.authors@.map_values(|s: String| s@) == authors_of(
                    dom_each_text(s@, CREATORS@),
                )
            },
            r matches Err(e) ==> e@ == (if dom_first_attr(s@, DATA_APPID@, "data-appid"@) is None {
                "no appid"@
            } else {
                "no workshop url"@
            }),
    {
        let appid = first_attr(s, DATA_APPID, "data-appid");
        let href = first_attr(s, WORKSHOP_URL, "href");
        let title = first_text(s, ITEM_TITLE);
        let creators = each_text(s, CREATORS);
        WorkshopItemFileDetails::from_parts(appid, href, title, creators)
    }
}

impl std::str::FromStr for WorkshopItemFileDetails {
    type Err = &'static str;

    /// Reads the page of an item.
    fn from_str(s: &str) -> (r: Result<WorkshopItemFileDetails, &'static str>)
        ensures
            r is Ok <==> dom_first_attr(s@, DATA_APPID@, "data-appid"@) is Some && id_in_link(
                dom_first_attr(s@, WORKSHOP_URL@, "href"@),
            ) is Some,
            r matches Ok(d) ==> {
                &&& d.appid@ == dom_first_attr(s@, DATA_APPID@, "data-appid"@)->0
                &&& d.workshopid@ == id_in_link(dom_first_attr(s@, WORKSHOP_URL@, "href"@))->0
                &&& d.title@ == trimmed(dom_first_text(s@, ITEM_TITLE@))
                &&& d.authors@.map_values(|s: String| s@) == authors_of(
                    dom_each_text(s@, CREATORS@),
                )
            },
            r matches Err(e) ==> e@ == (if dom_first_attr(s@, DATA_APPID@, "data-appid"@) is None {
                "no appid"@
            } else {
                "no workshop url"@
            }),
    {
        WorkshopItemFileDetails::parse(s)
    }
}

/// The moment that an optional stamp names.
pub open spec fn stamp_in(stamp: Option<Seq<char>>) -> Option<i64> {
    match stamp {
        Some(s) => parsed_i64(s),
        None => None,
    }
}

impl WorkshopItemChangelog {
    /// What the changelog of an item says of it, from what was found in the
    /// page: the stamp of the latest change, the application id and the link
    /// to the item's own page. The stamp is looked at first.
    pub fn from_parts(stamp: Option<String>, appid: Option<String>, href: Option<String>) -> (r:
        Result<WorkshopItemChangelog, &'static str>)
        ensures
            r is Ok <==> stamp_in(opt_text(stamp)) is Some && appid is Some && id_in_link(
                opt_text(href),
            ) is Some,
            r matches Ok(c) ==> {
                &&& c.latest_timestamp == stamp_in(opt_text(stamp))->0
                &&& c.appid@ == appid->0@
                &&& c.workshopid@ == id_in_link(opt_text(href))->0
            },
            r matches Err(e) ==> e@ == (if stamp is None {
                "no timestamp"@
            } else if stamp_in(opt_text(stamp)) is None {
                "parse i64"@
            } else if appid is None {
                "no appid"@
            } else {
                "no workshop url"@
            }),
    {
        let latest_timestamp = match stamp {
            Some(id) => match parse_i64(id.as_str()) {
                Some(t) => t,
                None => return Err("parse i64"),
            },
            None => return Err("no timestamp"),
        };
        let appid = match appid {
            Some(a) => a,
            None => return Err("no appid"),
        };
        let workshopid = match id_from_link(&href) {
            Some(id) => id,
            None => return Err("no workshop url"),
        };
        Ok(WorkshopItemChangelog { appid, workshopid, latest_timestamp })
    }

    /// Reads the changelog page of an item.
    pub fn parse(s: &str) -> (r: Result<WorkshopItemChangelog, &'static str>)
        ensures
            r is Ok <==> stamp_in(dom_first_attr(s@, ANNOUNCEMENTS@, "id"@)) is Some
                && dom_first_attr(s@, DATA_APPID@, "data-appid"@) is Some && id_in_link(
                dom_first_attr(s@, WORKSHOP_URL@, "href"@),
            ) is Some,
            r matches Ok(c) ==> {
                &&& c.latest_timestamp == stamp_in(dom_first_attr(s@, ANNOUNCEMENTS@, "id"@))->0
                &&& c.appid@ == dom_first_attr(s@, DATA_APPID@, "data-appid"@)->0
                &&& c.workshopid@ == id_in_link(dom_first_attr(s@, WORKSHOP_URL@, "href"@))->0
            },
            r matches Err(e) ==> e@ == (if dom_first_attr(s@, ANNOUNCEMENTS@, "id"@) is None {
                "no timestamp"@
            } else if stamp_in(dom_first_attr(s@, ANNOUNCEMENTS@, "id"@)) is None {
                "parse i64"@
            } else if dom_first_attr(s@, DATA_APPID@, "data-appid"@) is None {
                "no appid"@
            } else {
                "no workshop url"@
            }),
    {
        let stamp = first_attr(s, ANNOUNCEMENTS, "id");
        let appid = first_attr(s, DATA_APPID, "data-appid");
        let href = first_attr(s, WORKSHOP_URL, "href");
        WorkshopItemChangelog::from_parts(stamp, appid, href)
    }
}

impl std::str::FromStr for WorkshopItemChangelog {
    type Err = &'static str;

    /// Reads the changelog page of an item.
    fn from_str(s: &str) -> (r: Result<WorkshopItemChangelog, &'static str>)
        ensures
            r is Ok <==> stamp_in(dom_first_attr(s@, ANNOUNCEMENTS@, "id"@)) is Some
                && dom_first_attr(s@, DATA_APPID@, "data-appid"@) is Some && id_in_link(
                dom_first_attr(s@, WORKSHOP_URL@, "href"@),
            ) is Some,
            r matches Ok(c) ==> {
                &&& c.latest_timestamp == stamp_in(dom_first_attr(s@, ANNOUNCEMENTS@, "id"@))->0
                &&& c.appid@ == dom_first_attr(s@, DATA_APPID@, "data-appid"@)->0
                &&& c.workshopid@ == id_in_link(dom_first_attr(s@, WORKSHOP_URL@, "href"@))->0
            },
            r matches Err(e) ==> e@ == (if dom_first_attr(s@, ANNOUNCEMENTS@, "id"@) is None {
                "no timestamp"@
            } else if stamp_in(dom_first_attr(s@, ANNOUNCEMENTS@, "id"@)) is None {
                "parse i64"@
            } else if dom_first_attr(s@, DATA_APPID@, "data-appid"@) is None {
                "no appid"@
            } else {
                "no workshop url"@
            }),
    {
        WorkshopItemChangelog::parse(s)
    }
}

/// The texts of a list of ids.
pub open spec fn id_texts(ids: Seq<WorkshopId>) -> Seq<Seq<char>> {
    ids.map_values(|w: WorkshopId| w@)
}

impl WorkshopCollectionPage {
    /// The items of a collection, from the links found in its entries. A page
    /// that names no item is no collection.
    pub fn from_parts(hrefs: Vec<Option<String>>) -> (r: Result<
        WorkshopCollectionPage,
        &'static str,
    >)
        ensures
            r is Ok <==> ids_of(hrefs@.map_values(|o: Option<String>| opt_text(o))).len() > 0,
            r matches Ok(p) ==> id_texts(p.items@) == ids_of(
                hrefs@.map_values(|o: Option<String>| opt_text(o)),
            ),
            r matches Err(e) ==> e@ == "no collection items found"@,
    {
        let ghost links = hrefs@.map_values(|o: Option<String>| opt_text(o));
        let mut items: Vec<WorkshopId> = Vec::new();
        let mut i: usize = 0;
        while i < hrefs.len()
            invariant
                i <= hrefs@.len(),
                links == hrefs@.map_values(|o: Option<String>| opt_text(o)),
                id_texts(items@) == ids_of(links.take(i as int)),
            decreases hrefs@.len() - i,
        {
            proof {
                assert(links.take(i + 1).drop_last() =~= links.take(i as int));
                assert(links.take(i + 1).last() == opt_text(hrefs@[i as int]));
            }
            match id_from_link(&hrefs[i]) {
                Some(id) => {
                    let ghost before = id_texts(items@);
                    let ghost text = id@;
                    items.push(id);
                    assert(id_texts(items@) =~= before.push(text));
                },
                None => {},
            }
            i += 1;
        }
        proof {
            assert(links.take(i as int) =~= links);
            assert(id_texts(items@).len() == items@.len());
        }
        if items.len() == 0 {
            return Err("no collection items found");
        }
        Ok(WorkshopCollectionPage { items })
    }

    /// Reads the page of a collection.
    pub fn parse(s: &str) -> (r: Result<WorkshopCollectionPage, &'static str>)
        ensures
            r is Ok <==> ids_of(dom_each_inner_attr(s@, COLLECTION_ITEMS@, ITEM_LINKS@, "href"@)).len()
                > 0,
            r matches Ok(p) ==> id_texts(p.items@) == ids_of(
                dom_each_inner_attr(s@, COLLECTION_ITEMS@, ITEM_LINKS@, "href"@),
            ),
            r matches Err(e) ==> e@ == "no collection items found"@,
    {
        let hrefs = each_inner_attr(s, COLLECTION_ITEMS, ITEM_LINKS, "href");
        WorkshopCollectionPage::from_parts(hrefs)
    }
}

impl std::str::FromStr for WorkshopCollectionPage {
    type Err = &'static str;

    /// Reads the page of a collection.
    fn from_str(s: &str) -> (r: Result<WorkshopCollectionPage, &'static str>)
        ensures
            r is Ok <==> ids_of(dom_each_inner_attr(s@, COLLECTION_ITEMS@, ITEM_LINKS@, "href"@)).len()
                > 0,
            r matches Ok(p) ==> id_texts(p.items@) == ids_of(
                dom_each_inner_attr(s@, COLLECTION_ITEMS@, ITEM_LINKS@, "href"@),
            ),
            r matches Err(e) ==> e@ == "no collection items found"@,
    {
        WorkshopCollectionPage::parse(s)
    }
}

/// The id that a text names, as an id or as the address of an item's page;
/// the address is tried first.
pub open spec fn id_or_url(s: Seq<char>) -> Option<Seq<char>> {
    match id_in_url(s) {
        Some(id) => Some(id),
        None => if is_id(s) {
            Some(s)
        } else {
            None
        },
    }
}

impl WorkshopIdOrUrl {
    /// Reads a workshop id, or the address of an item's page; a text that is
    /// neither is answered with what to tell whoever sent it.
    pub fn parse(s: &str) -> (r: Result<WorkshopIdOrUrl, String>)
        ensures
            r is Ok <==> id_or_url(s@) is Some,
            r matches Ok(w) ==> w.0@ == id_or_url(s@)->0,
            r matches Err(e) ==> e@ == "invalid workshop id or workshop item url: "@ + s@,
    {
        match workshopid_from_url(s) {
            Some(id) => Ok(WorkshopIdOrUrl(id)),
            None => match WorkshopId::parse(s) {
                Ok(id) => Ok(WorkshopIdOrUrl(id)),
                Err(_) => Err(
                    String::from_str("invalid workshop id or workshop item url: ").concat(s),
                ),
            },
        }
    }
}

/// The digits at the start of a text are counted up to the first character
/// that is no digit.
proof fn lemma_id_prefix_of_concat(digits: Seq<char>, rest: Seq<char>)
    requires
        forall|i: int| 0 <= i < digits.len() ==> crate::types::is_id_char(#[trigger] digits[i]),
        rest.len() == 0 || !crate::types::is_id_char(rest[0]),
    ensures
        id_prefix_len(digits + rest) == digits.len(),
    decreases digits.len(),
{
    if digits.len() > 0 {
        assert((digits + rest)[0] == digits[0]);
        assert((digits + rest).skip(1) =~= digits.skip(1) + rest);
        assert forall|i: int| 0 <= i < digits.skip(1).len() implies crate::types::is_id_char(
            #[trigger] digits.skip(1)[i],
        ) by {
            assert(digits.skip(1)[i] == digits[i + 1]);
        }
        lemma_id_prefix_of_concat(digits.skip(1), rest);
    } else {
        assert(digits + rest =~= rest);
    }
}

/// What is taken for a workshop id: never the empty text and never a text
/// with a character that is no digit; and the address of an item's page, in
/// either of its two forms, names the digits that follow its beginning, up
/// to the first character that is no digit, unless there are none.
pub proof fn lemma_id_rules(id: Seq<char>, rest: Seq<char>)
    requires
        rest.len() == 0 || !crate::types::is_id_char(rest[0]),
    ensures
        !is_id(Seq::<char>::empty()),
        is_id(id) <==> id.len() > 0 && forall|i: int|
            0 <= i < id.len() ==> crate::types::is_id_char(#[trigger] id[i]),
        is_id(id) ==> id_in_url(ITEM_PAGE@ + id + rest) == Some(id),
        is_id(id) ==> id_in_url(ALSO_ITEM_PAGE@ + id + rest) == Some(id),
        id_in_url(ITEM_PAGE@ + rest) is None,
        id_in_url(ALSO_ITEM_PAGE@ + rest) is None,
        is_id(id) ==> id_in_url(id) is None,
{
    reveal_strlit("https://steamcommunity.com/sharedfiles/filedetails/?id=");
    reveal_strlit("https://steamcommunity.com/workshop/filedetails/?id=");
    let item = ITEM_PAGE@;
    let also = ALSO_ITEM_PAGE@;
    assert(item[27] == 's' && also[27] == 'w');
    assert forall|tail: Seq<char>| !also.is_prefix_of(item + tail) by {
        if also.is_prefix_of(item + tail) {
            assert((item + tail).subrange(0, also.len() as int)[27] == also[27]);
        }
    }
    assert forall|tail: Seq<char>| #[trigger] without_prefix(item + tail, item) == Some(tail) by {
        assert((item + tail).subrange(0, item.len() as int) =~= item);
        assert((item + tail).skip(item.len() as int) =~= tail);
    }
    assert forall|tail: Seq<char>| #[trigger] without_prefix(also + tail, also) == Some(tail)
        && without_prefix(also + tail, item) is None by {
        assert((also + tail).subrange(0, also.len() as int) =~= also);
        assert((also + tail).skip(also.len() as int) =~= tail);
        if item.is_prefix_of(also + tail) {
            assert((also + tail).subrange(0, item.len() as int)[27] == item[27]);
        }
    }
    lemma_id_prefix_of_concat(Seq::empty(), rest);
    assert(Seq::<char>::empty() + rest =~= rest);
    if is_id(id) {
        lemma_id_prefix_of_concat(id, rest);
        assert(item + id + rest =~= item + (id + rest));
        assert(also + id + rest =~= also + (id + rest));
        assert((id + rest).take(id.len() as int) =~= id);
        assert(!item.is_prefix_of(id)) by {
            if item.is_prefix_of(id) {
                assert(id.subrange(0, item.len() as int)[0] == item[0]);
                assert(id[0] == 'h');
            }
        }
        assert(!also.is_prefix_of(id)) by {
            if also.is_prefix_of(id) {
                assert(id.subrange(0, also.len() as int)[0] == also[0]);
                assert(id[0] == 'h');
            }
        }
    }
}

} // verus!
