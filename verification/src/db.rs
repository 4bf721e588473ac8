//! The store behind the orchestrator, and the single writer that owns it.
//!
//! The store holds workshop items, the files downloaded for them, the
//! content packages read out of those files, builds and publishes. Every
//! row is known by a primary key that a clock issues, and every change is
//! one whole step: it happens entirely or not at all.
use crate::parsing::ContentPackage;
use crate::types::ETag;
use crate::types::WorkshopId;
use std::collections::BTreeMap;
use vstd::prelude::*;
use vstd::std_specs::cmp::OrdSpec;
use vstd::std_specs::iter::IteratorSpec;

verus! {

/// Why the store refused a request.
#[derive(Debug, Clone, Copy, PartialEq, Eq, Structural)]
pub enum Error {
    /// the row that the request speaks of does not exist
    NoRows,
    /// the request refers to a row that does not exist
    ForeignKey,
    /// the row has its result already: a result is recorded once
    Finalized,
    /// the clock cannot issue another key
    KeysExhausted,
    /// a row of this key or of this identity is there already
    Unique,
}

pub type Result<T, E = Error> = std::result::Result<T, E>;

/// A workshop item as the store keeps it.
#[derive(Debug)]
pub struct ItemRow {
    pub workshopid: WorkshopId,
    pub version: i64,
    pub title: String,
    pub authors: Vec<String>,
    /// the key of the file downloaded for the item, once there is one
    pub file: Option<i64>,
}

/// A downloaded archive as the store keeps it.
#[derive(Debug)]
pub struct FileRow {
    pub size: i64,
    pub etag: ETag,
    pub data: Vec<u8>,
}

/// The content package of a file as the store keeps it, under the file's key.
#[derive(Debug)]
pub struct PackageRow {
    pub name: String,
    pub version: String,
}

/// A build as the store keeps it.
#[derive(Debug)]
pub struct BuildRow {
    pub name: String,
    /// the keys of the items, in load order
    pub items: Vec<i64>,
    pub exit_code: Option<i64>,
    pub output: Option<String>,
    /// empty until the build has left a fragment
    pub fragment: Vec<u8>,
}

/// A publish as the store keeps it.
#[derive(Debug)]
pub struct PublishRow {
    /// the keys of the builds that the publish includes
    pub builds: Vec<i64>,
    pub exit_code: Option<i64>,
    pub output: Option<String>,
    pub public_url: String,
}

/// The whole content of the store: the last key issued, and each table as a
/// map from primary key to row.
pub struct State {
    pub clock: i64,
    pub items: Map<i64, ItemRow>,
    pub files: Map<i64, FileRow>,
    pub packages: Map<i64, PackageRow>,
    pub builds: Map<i64, BuildRow>,
    pub publishes: Map<i64, PublishRow>,
}

/// Whether the item under `k` has a file attached.
pub open spec fn has_file(items: Map<i64, ItemRow>, k: i64) -> bool {
    items.contains_key(k) && items[k].file is Some
}

/// Whether a row is the item known by `workshopid` in `version`.
pub open spec fn is_item(row: ItemRow, workshopid: Seq<char>, version: i64) -> bool {
    row.workshopid@ == workshopid && row.version == version
}

/// No row is known by a key that the clock has not issued yet.
pub open spec fn keys_issued(s: State) -> bool {
    &&& forall|k: i64| #[trigger] s.items.contains_key(k) ==> k <= s.clock
    &&& forall|k: i64| #[trigger] s.files.contains_key(k) ==> k <= s.clock
    &&& forall|k: i64| #[trigger] s.builds.contains_key(k) ==> k <= s.clock
    &&& forall|k: i64| #[trigger] s.publishes.contains_key(k) ==> k <= s.clock
}

/// No two items are known by the same id in the same version.
pub open spec fn items_distinct(items: Map<i64, ItemRow>) -> bool {
    forall|a: i64, b: i64|
        #![trigger items.contains_key(a), items.contains_key(b)]
        items.contains_key(a) && items.contains_key(b) && items[a].workshopid@
            == items[b].workshopid@ && items[a].version == items[b].version ==> a == b
}

/// No two files carry the same tag.
pub open spec fn files_distinct(files: Map<i64, FileRow>) -> bool {
    forall|a: i64, b: i64|
        #![trigger files.contains_key(a), files.contains_key(b)]
        files.contains_key(a) && files.contains_key(b) && files[a].etag@ == files[b].etag@ ==> a
            == b
}

/// The file that an item is attached to exists.
pub open spec fn files_attached(s: State) -> bool {
    forall|k: i64| #[trigger] has_file(s.items, k) ==> s.files.contains_key(s.items[k].file->0)
}

/// A content package belongs to a file that exists.
pub open spec fn packages_attached(s: State) -> bool {
    forall|k: i64|
        #![trigger s.packages.contains_key(k)]
        s.packages.contains_key(k) ==> s.files.contains_key(k)
}

/// Every item of every build exists and has a file.
pub open spec fn builds_complete(s: State) -> bool {
    forall|b: i64, i: int|
        #![trigger s.builds[b].items@[i]]
        s.builds.contains_key(b) && 0 <= i < s.builds[b].items@.len() ==> has_file(
            s.items,
            s.builds[b].items@[i],
        )
}

/// Every build of every publish exists.
pub open spec fn publishes_linked(s: State) -> bool {
    forall|p: i64, i: int|
        #![trigger s.publishes[p].builds@[i]]
        s.publishes.contains_key(p) && 0 <= i < s.publishes[p].builds@.len()
            ==> s.builds.contains_key(s.publishes[p].builds@[i])
}

/// What holds of the store between any two requests.
pub open spec fn valid(s: State) -> bool {
    &&& keys_issued(s)
    &&& items_distinct(s.items)
    &&& files_distinct(s.files)
    &&& files_attached(s)
    &&& packages_attached(s)
    &&& builds_complete(s)
    &&& publishes_linked(s)
}

/// The key that the clock issues at `now_ms` milliseconds after it last
/// issued `clock`: the moment moved four bits up, or the key after the last
/// one where the moment is not beyond it. Nothing where that key does not
/// fit 64 bits.
pub open spec fn next_key(clock: i64, now_ms: i64) -> Option<i64> {
    let candidate = if clock + 1 >= now_ms * 16 {
        clock + 1
    } else {
        now_ms * 16
    };
    if candidate <= i64::MAX {
        Some(candidate as i64)
    } else {
        None
    }
}

/// Issues the key for the moment `now_ms`, after `clock`.
pub fn next_pk(clock: i64, now_ms: i64) -> (r: Option<i64>)
    ensures
        r == next_key(clock, now_ms),
        r matches Some(pk) ==> pk > clock,
{
    if clock == i64::MAX {
        return None;
    }
    let after = clock + 1;
    if now_ms > 576_460_752_303_423_487 {
        return None;
    }
    if now_ms < -576_460_752_303_423_488 {
        return Some(after);
    }
    let moment = now_ms * 16;
    if after >= moment {
        Some(after)
    } else {
        Some(moment)
    }
}

/// The keys issued one after another at the moments `times`, beginning
/// after `clock`; the run ends where the clock is exhausted.
pub open spec fn issued(clock: i64, times: Seq<i64>) -> Seq<i64>
    decreases times.len(),
{
    if times.len() == 0 {
        Seq::empty()
    } else {
        match next_key(clock, times[0]) {
            Some(pk) => seq![pk] + issued(pk, times.skip(1)),
            None => Seq::empty(),
        }
    }
}

/// Keys are issued in strictly increasing order, whatever the moments are
/// at which they are asked for, and all lie after the clock they began at.
pub proof fn lemma_keys_increase(clock: i64, times: Seq<i64>)
    ensures
        forall|i: int| 0 <= i < issued(clock, times).len() ==> clock < #[trigger] issued(
            clock,
            times,
        )[i],
        forall|i: int, j: int|
            0 <= i < j < issued(clock, times).len() ==> issued(clock, times)[i] < issued(
                clock,
                times,
            )[j],
    decreases times.len(),
{
    if times.len() > 0 {
        match next_key(clock, times[0]) {
            Some(pk) => {
                lemma_keys_increase(pk, times.skip(1));
                let rest = issued(pk, times.skip(1));
                let all = issued(clock, times);
                assert(all =~= seq![pk] + rest);
                assert forall|i: int| 0 <= i < all.len() implies clock < #[trigger] all[i] by {
                    if i > 0 {
                        assert(all[i] == rest[i - 1]);
                    }
                }
                assert forall|i: int, j: int| 0 <= i < j < all.len() implies all[i] < all[j] by {
                    assert(all[j] == rest[j - 1]);
                    if i > 0 {
                        assert(all[i] == rest[i - 1]);
                    }
                }
            },
            None => {},
        }
    }
}

/// The keys of a table, in increasing order.
pub(crate) fn keys_of<V>(m: &BTreeMap<i64, V>) -> (out: Vec<i64>)
    ensures
        forall|k: i64| out@.contains(k) <==> m@.contains_key(k),
        forall|i: int, j: int| 0 <= i < j < out@.len() ==> out@[i] < out@[j],
{
    let mut out: Vec<i64> = Vec::new();
    for k in it: m.keys()
        invariant
            out@.len() == it.index(),
            forall|i: int| 0 <= i < out@.len() ==> out@[i] == *it.seq()[i],
            it.seq() == m.keys().remaining(),
    {
        out.push(*k);
    }
    proof {
        let ks = m.keys().remaining();
        assert(out@ =~= ks.unref());
        assert forall|k: i64| out@.contains(k) <==> m@.contains_key(k) by {
            assert(ks.unref().to_set().contains(k) <==> m@.dom().contains(k));
        }
        broadcast use vstd::laws_cmp::group_laws_cmp;

        assert(vstd::std_specs::btree::increasing_seq(ks));
        vstd::std_specs::btree::axiom_increasing_seq_meaning::<&i64>(ks);
        assert forall|i: int, j: int| 0 <= i < j < out@.len() implies out@[i] < out@[j] by {
            assert((&ks[i]).cmp_spec(&ks[j]) is Less);
        }
    }
    out
}

/// What the downloader hands over for an item.
#[derive(Debug)]
pub struct DownloadedFile {
    pub size: i64,
    pub etag: ETag,
    pub data: Vec<u8>,
}

/// A workshop item as it is asked to be remembered.
#[derive(Debug)]
pub struct NewWorkshopItem {
    pub workshopid: WorkshopId,
    pub title: String,
    pub authors: Vec<String>,
    pub version: i64,
}

/// The texts of a list of strings.
pub open spec fn texts(v: Seq<String>) -> Seq<Seq<char>> {
    v.map_values(|s: String| s@)
}

/// A copy of a list of strings.
fn copy_strings(v: &Vec<String>) -> (r: Vec<String>)
    ensures
        texts(r@) == texts(v@),
{
    let mut r: Vec<String> = Vec::new();
    let mut i: usize = 0;
    while i < v.len()
        invariant
            i <= v@.len(),
            texts(r@) == texts(v@.take(i as int)),
        decreases v@.len() - i,
    {
        let ghost before = texts(r@);
        let copy = v[i].clone();
        r.push(copy);
        assert(texts(r@) =~= before.push(v@[i as int]@));
        assert(texts(v@.take(i + 1)) =~= texts(v@.take(i as int)).push(v@[i as int]@));
        i += 1;
    }
    assert(v@.take(i as int) =~= v@);
    r
}

/// A copy of the bytes.
fn copy_bytes(v: &Vec<u8>) -> (r: Vec<u8>)
    ensures
        r@ == v@,
{
    let mut r: Vec<u8> = Vec::new();
    let mut i: usize = 0;
    while i < v.len()
        invariant
            i <= v@.len(),
            r@ == v@.take(i as int),
        decreases v@.len() - i,
    {
        r.push(v[i]);
        assert(r@ =~= v@.take(i + 1));
        i += 1;
    }
    assert(v@.take(i as int) =~= v@);
    r
}

/// Whether two lists hold the same bytes.
fn same_bytes(a: &Vec<u8>, b: &Vec<u8>) -> (r: bool)
    ensures
        r == (a@ == b@),
{
    if a.len() != b.len() {
        return false;
    }
    let mut i: usize = 0;
    while i < a.len()
        invariant
            i <= a@.len(),
            a@.len() == b@.len(),
            forall|j: int| 0 <= j < i ==> a@[j] == b@[j],
        decreases a@.len() - i,
    {
        if a[i] != b[i] {
            return false;
        }
        i += 1;
    }
    assert(a@ =~= b@);
    true
}

/// The step that remembers an item: a key is issued in any case; an item
/// known by the same id in the same version keeps its key and takes the
/// new title and authors, any other item is inserted under the new key,
/// without a file. Without a key to issue nothing happens.
pub open spec fn upsert_step(
    pre: State,
    item: NewWorkshopItem,
    now_ms: i64,
    post: State,
    r: Result<(bool, i64)>,
) -> bool {
    match next_key(pre.clock, now_ms) {
        None => r == Err::<(bool, i64), Error>(Error::KeysExhausted) && post == pre,
        Some(key) => match r {
            Err(_) => false,
            Ok((inserted, pk)) => {
                &&& post.clock == key
                &&& post.files == pre.files
                &&& post.packages == pre.packages
                &&& post.builds == pre.builds
                &&& post.publishes == pre.publishes
                &&& if inserted {
                    &&& pk == key
                    &&& forall|k: i64| #[trigger]
                        pre.items.contains_key(k) ==> !is_item(
                            pre.items[k],
                            item.workshopid@,
                            item.version,
                        )
                    &&& post.items == pre.items.insert(
                        pk,
                        ItemRow {
                            workshopid: item.workshopid,
                            version: item.version,
                            title: item.title,
                            authors: item.authors,
                            file: None,
                        },
                    )
                } else {
                    &&& pre.items.contains_key(pk)
                    &&& is_item(pre.items[pk], item.workshopid@, item.version)
                    &&& post.items == pre.items.insert(
                        pk,
                        ItemRow { title: item.title, authors: item.authors, ..pre.items[pk] },
                    )
                }
            },
        },
    }
}

/// The step that attaches a downloaded file to an item: a file with a tag
/// that the store knows already is not stored again, the item is attached
/// to the one that is there. Without the item, or without a key to issue,
/// nothing happens.
pub open spec fn save_file_step(
    pre: State,
    item: i64,
    file: DownloadedFile,
    now_ms: i64,
    post: State,
    r: Result<i64>,
) -> bool {
    match next_key(pre.clock, now_ms) {
        None => r == Err::<i64, Error>(Error::KeysExhausted) && post == pre,
        Some(key) => if !pre.items.contains_key(item) {
            r == Err::<i64, Error>(Error::NoRows) && post == pre
        } else {
            match r {
                Err(_) => false,
                Ok(file_pk) => {
                    &&& post.clock == key
                    &&& post.packages == pre.packages
                    &&& post.builds == pre.builds
                    &&& post.publishes == pre.publishes
                    &&& post.items == pre.items.insert(
                        item,
                        ItemRow { file: Some(file_pk), ..pre.items[item] },
                    )
                    &&& if pre.files.contains_key(file_pk) {
                        &&& pre.files[file_pk].etag@ == file.etag@
                        &&& post.files == pre.files
                    } else {
                        &&& file_pk == key
                        &&& forall|f: i64| #[trigger]
                            pre.files.contains_key(f) ==> pre.files[f].etag@ != file.etag@
                        &&& post.files == pre.files.insert(
                            file_pk,
                            FileRow { size: file.size, etag: file.etag, data: file.data },
                        )
                    }
                },
            }
        },
    }
}

/// The step that remembers the content package of a file: the first one
/// remembered for a file stays. Without the file nothing happens.
pub open spec fn save_package_step(
    pre: State,
    file_pk: i64,
    p: ContentPackage,
    post: State,
    r: Result<i64>,
) -> bool {
    if pre.packages.contains_key(file_pk) {
        r == Ok::<i64, Error>(file_pk) && post == pre
    } else if !pre.files.contains_key(file_pk) {
        r == Err::<i64, Error>(Error::ForeignKey) && post == pre
    } else {
        &&& r == Ok::<i64, Error>(file_pk)
        &&& post == State {
            packages: pre.packages.insert(file_pk, PackageRow { name: p.name, version: p.version }),
            ..pre
        }
    }
}

/// The archive attached to an item: nothing for an item that the store does
/// not know, and nothing for an item that has no file yet.
pub open spec fn item_file(s: State, pk: i64) -> Option<Seq<u8>> {
    if !s.items.contains_key(pk) {
        None
    } else {
        match s.items[pk].file {
            Some(f) => Some(s.files[f].data@),
            None => None,
        }
    }
}

/// Remembering an item keeps the store in order.
pub proof fn lemma_upsert_keeps(
    pre: State,
    item: NewWorkshopItem,
    now_ms: i64,
    post: State,
    r: Result<(bool, i64)>,
)
    requires
        valid(pre),
        upsert_step(pre, item, now_ms, post, r),
    ensures
        valid(post),
        pre.clock <= post.clock,
{
    if let Some(key) = next_key(pre.clock, now_ms) {
        let pk = r->Ok_0.1;
        assert(!pre.items.contains_key(key));
        assert forall|k: i64| has_file(post.items, k) implies has_file(pre.items, k)
            && post.items[k].file == pre.items[k].file by {}
        assert forall|k: i64| has_file(pre.items, k) implies has_file(post.items, k) by {}
        assert(files_attached(post)) by {
            assert forall|k: i64| #[trigger] has_file(post.items, k) implies post.files.contains_key(
                post.items[k].file->0,
            ) by {
                assert(has_file(pre.items, k));
            }
        }
        assert(builds_complete(post)) by {
            assert forall|b: i64, i: int|
                post.builds.contains_key(b) && 0 <= i < post.builds[b].items@.len() implies has_file(
                post.items,
                #[trigger] post.builds[b].items@[i],
            ) by {
                assert(has_file(pre.items, pre.builds[b].items@[i]));
            }
        }
        assert(items_distinct(post.items)) by {
            assert forall|a: i64, b: i64|
                post.items.contains_key(a) && post.items.contains_key(b)
                    && post.items[a].workshopid@ == post.items[b].workshopid@
                    && post.items[a].version == post.items[b].version implies a == b by {
                if a != pk && b != pk {
                    assert(pre.items.contains_key(a) && pre.items.contains_key(b));
                } else if a != b {
                    let other = if a == pk {
                        b
                    } else {
                        a
                    };
                    assert(pre.items.contains_key(other));
                    assert(is_item(pre.items[other], item.workshopid@, item.version));
                    if pre.items.contains_key(pk) {
                        assert(pre.items.contains_key(other) && pre.items.contains_key(pk));
                    }
                }
            }
        }
        assert(keys_issued(post));
        assert(packages_attached(post)) by {
            assert(post.packages == pre.packages);
            assert(post.files == pre.files);
        }
        assert(publishes_linked(post)) by {
            assert(post.publishes == pre.publishes);
            assert(post.builds == pre.builds);
        }
        assert(files_distinct(post.files));
    }
}

/// Attaching a file keeps the store in order.
pub proof fn lemma_save_file_keeps(
    pre: State,
    item: i64,
    file: DownloadedFile,
    now_ms: i64,
    post: State,
    r: Result<i64>,
)
    requires
        valid(pre),
        save_file_step(pre, item, file, now_ms, post, r),
    ensures
        valid(post),
        pre.clock <= post.clock,
{
    if next_key(pre.clock, now_ms) is Some && pre.items.contains_key(item) {
        let key = next_key(pre.clock, now_ms)->0;
        let file_pk = r->Ok_0;
        assert(!pre.files.contains_key(key));
        assert(post.files.contains_key(file_pk));
        assert forall|k: i64| has_file(pre.items, k) implies has_file(post.items, k) by {}
        assert(files_attached(post)) by {
            assert forall|k: i64| #[trigger] has_file(post.items, k) implies post.files.contains_key(
                post.items[k].file->0,
            ) by {
                if k != item {
                    assert(has_file(pre.items, k));
                }
            }
        }
        assert(builds_complete(post)) by {
            assert forall|b: i64, i: int|
                post.builds.contains_key(b) && 0 <= i < post.builds[b].items@.len() implies has_file(
                post.items,
                #[trigger] post.builds[b].items@[i],
            ) by {
                assert(has_file(pre.items, pre.builds[b].items@[i]));
            }
        }
        assert(items_distinct(post.items)) by {
            assert forall|a: i64, b: i64|
                post.items.contains_key(a) && post.items.contains_key(b)
                    && post.items[a].workshopid@ == post.items[b].workshopid@
                    && post.items[a].version == post.items[b].version implies a == b by {
                assert(pre.items.contains_key(a) && pre.items.contains_key(b));
            }
        }
        assert(files_distinct(post.files)) by {
            assert forall|a: i64, b: i64|
                post.files.contains_key(a) && post.files.contains_key(b) && post.files[a].etag@
                    == post.files[b].etag@ implies a == b by {
                if pre.files.contains_key(a) && pre.files.contains_key(b) {
                } else if a != b {
                    let other = if a == file_pk {
                        b
                    } else {
                        a
                    };
                    assert(pre.files.contains_key(other));
                }
            }
        }
        assert(keys_issued(post));
        assert(packages_attached(post)) by {
            assert(post.packages == pre.packages);
            assert forall|k: i64| pre.files.contains_key(k) implies post.files.contains_key(k) by {}
        }
        assert(publishes_linked(post)) by {
            assert(post.publishes == pre.publishes);
            assert(post.builds == pre.builds);
        }
    }
}

/// Remembering a content package keeps the store in order.
pub proof fn lemma_save_package_keeps(
    pre: State,
    file_pk: i64,
    p: ContentPackage,
    post: State,
    r: Result<i64>,
)
    requires
        valid(pre),
        save_package_step(pre, file_pk, p, post, r),
    ensures
        valid(post),
        pre.clock == post.clock,
{
    assert(packages_attached(post)) by {
        assert(post.files == pre.files);
        assert forall|k: i64| post.packages.contains_key(k) implies post.files.contains_key(k) by {
            if k != file_pk {
                assert(pre.packages.contains_key(k));
            }
        }
    }
    assert(publishes_linked(post)) by {
        assert(post.publishes == pre.publishes);
        assert(post.builds == pre.builds);
    }
    assert(builds_complete(post)) by {
        assert(post.items == pre.items);
        assert(post.builds == pre.builds);
    }
    assert(files_attached(post)) by {
        assert(post.items == pre.items);
        assert(post.files == pre.files);
    }
}

/// The file of an item as it is shown.
#[derive(Debug, Clone, PartialEq)]
pub struct ItemFile {
    pub pk: i64,
    pub size: i64,
}

/// from <contentpackage>
#[derive(Debug, Clone, PartialEq)]
pub struct FileContentPackage {
    pub name: String,
    pub version: String,
}

/// A workshop item as it is shown, with what is known of its file.
#[derive(Debug, Clone, PartialEq)]
pub struct WorkshopItem {
    pub pk: i64,
    pub workshopid: WorkshopId,
    pub title: String,
    pub authors: Vec<String>,
    pub version: i64,
    pub file: Option<ItemFile>,
    pub content: Option<FileContentPackage>,
}

/// The size of a build's fragment.
#[derive(Debug, Clone, PartialEq)]
pub struct BuildFragment {
    pub size: i64,
}

/// One item of a build as it is shown.
#[derive(Debug, Clone, PartialEq)]
pub struct BuildItem {
    pub pk: i64,
    pub workshopid: WorkshopId,
}

/// A build as it is shown.
#[derive(Debug, Clone, PartialEq)]
pub struct Build {
    pub pk: i64,
    pub name: String,
    pub items: Vec<BuildItem>,
    pub exit_code: Option<i64>,
    pub output: Option<String>,
    pub fragment: Option<BuildFragment>,
    pub published: Option<i64>,
}

/// A build as it is asked for: a name and the keys of its items in load
/// order.
#[derive(Debug, Clone)]
pub struct SaveBuild {
    pub name: String,
    pub items: Vec<i64>,
}

/// What came of asking for a build.
#[derive(Debug, Clone, PartialEq)]
pub enum SaveBuildResult {
    Inserted { pk: i64 },
    Missing { missing: Vec<i64> },
}

/// What a build job left behind.
#[derive(Debug, Clone)]
pub struct BuildResult {
    pub pk: i64,
    pub exit_code: i64,
    pub output: String,
    pub fragment: Vec<u8>,
}

/// The archives of the items of a build, in load order, each under the key
/// of its item.
#[derive(Debug, Clone, PartialEq)]
pub struct BuildItemFiles {
    pub files: Vec<(i64, Vec<u8>)>,
}

/// A publish that was just begun, with the fragments that go into it.
#[derive(Debug, PartialEq)]
pub struct NewPublish {
    pub pk: i64,
    pub fragments: Vec<NewPublishFragment>,
}

/// The fragment of one build.
#[derive(Debug, PartialEq)]
pub struct NewPublishFragment {
    pub build: i64,
    pub fragment: Vec<u8>,
}

/// What a publish job left behind.
#[derive(Debug)]
pub struct PublishResult {
    pub pk: i64,
    pub public_url: String,
    pub exit_code: i64,
    pub output: String,
}

/// A publish as it is shown.
#[derive(Debug, Clone, PartialEq)]
pub struct Publish {
    pub pk: i64,
    pub public_url: String,
    pub exit_code: Option<i64>,
}

/// The items among `wanted` that cannot go into a build, in order: those
/// that the store does not know and those that have no file.
pub open spec fn missing_of(items: Map<i64, ItemRow>, wanted: Seq<i64>) -> Seq<i64>
    decreases wanted.len(),
{
    if wanted.len() == 0 {
        Seq::empty()
    } else {
        let head = missing_of(items, wanted.drop_last());
        if has_file(items, wanted.last()) {
            head
        } else {
            head.push(wanted.last())
        }
    }
}

/// The missing items are exactly the wanted items without a file; none is
/// missing exactly when every wanted item has one.
pub proof fn lemma_missing(items: Map<i64, ItemRow>, wanted: Seq<i64>)
    ensures
        forall|j: int|
            0 <= j < missing_of(items, wanted).len() ==> wanted.contains(
                #[trigger] missing_of(items, wanted)[j],
            ) && !has_file(items, missing_of(items, wanted)[j]),
        forall|i: int|
            0 <= i < wanted.len() && !has_file(items, #[trigger] wanted[i]) ==> missing_of(
                items,
                wanted,
            ).contains(wanted[i]),
        missing_of(items, wanted).len() == 0 <==> forall|i: int|
            0 <= i < wanted.len() ==> has_file(items, #[trigger] wanted[i]),
    decreases wanted.len(),
{
    if wanted.len() > 0 {
        let head = wanted.drop_last();
        let last = wanted.last();
        lemma_missing(items, head);
        let m = missing_of(items, wanted);
        let mh = missing_of(items, head);
        assert forall|j: int| 0 <= j < m.len() implies wanted.contains(#[trigger] m[j]) && !has_file(
            items,
            m[j],
        ) by {
            if j < mh.len() {
                assert(m[j] == mh[j]);
                let i = choose|i: int| 0 <= i < head.len() && head[i] == mh[j];
                assert(wanted[i] == mh[j]);
            } else {
                assert(wanted[wanted.len() - 1] == last);
            }
        }
        assert forall|i: int| 0 <= i < wanted.len() && !has_file(
            items,
            #[trigger] wanted[i],
        ) implies m.contains(wanted[i]) by {
            if i < head.len() {
                assert(head[i] == wanted[i]);
                let j = choose|j: int| 0 <= j < mh.len() && mh[j] == head[i];
                assert(m[j] == wanted[i]);
            } else {
                assert(m[m.len() - 1] == wanted[i]);
            }
        }
        if m.len() == 0 {
            assert forall|i: int| 0 <= i < wanted.len() implies has_file(
                items,
                #[trigger] wanted[i],
            ) by {
                if i < head.len() {
                    assert(head[i] == wanted[i]);
                }
            }
        }
        if forall|i: int| 0 <= i < wanted.len() ==> has_file(items, #[trigger] wanted[i]) {
            assert forall|i: int| 0 <= i < head.len() implies has_file(items, #[trigger] head[i]) by {
                assert(head[i] == wanted[i]);
            }
            assert(has_file(items, wanted[wanted.len() - 1]));
        }
    }
}

/// The step that creates a build: where an item is missing nothing is
/// created and the missing items are reported; otherwise a key is issued and
/// the build stands under it, with its items in the order given and no
/// result yet.
pub open spec fn save_build_step(
    pre: State,
    build: SaveBuild,
    now_ms: i64,
    post: State,
    r: Result<SaveBuildResult>,
) -> bool {
    if missing_of(pre.items, build.items@).len() > 0 {
        &&& post == pre
        &&& r matches Ok(SaveBuildResult::Missing { missing })
        &&& missing@ == missing_of(pre.items, build.items@)
    } else {
        match next_key(pre.clock, now_ms) {
            None => r == Err::<SaveBuildResult, Error>(Error::KeysExhausted) && post == pre,
            Some(key) => {
                &&& r == Ok::<SaveBuildResult, Error>(SaveBuildResult::Inserted { pk: key })
                &&& post == State {
                    clock: key,
                    builds: pre.builds.insert(key, post.builds[key]),
                    ..pre
                }
                &&& post.builds[key].name == build.name
                &&& post.builds[key].items == build.items
                &&& post.builds[key].exit_code is None
                &&& post.builds[key].output is None
                &&& post.builds[key].fragment@.len() == 0
            },
        }
    }
}

/// The step that records what a build job left behind, once: without the
/// build, and for a build that has its result already, nothing happens.
pub open spec fn save_build_result_step(pre: State, b: BuildResult, post: State, r: Result<()>) -> bool {
    if !pre.builds.contains_key(b.pk) {
        r == Err::<(), Error>(Error::NoRows) && post == pre
    } else if pre.builds[b.pk].exit_code is Some {
        r == Err::<(), Error>(Error::Finalized) && post == pre
    } else {
        &&& r == Ok::<(), Error>(())
        &&& post == State {
            builds: pre.builds.insert(
                b.pk,
                BuildRow {
                    exit_code: Some(b.exit_code),
                    output: Some(b.output),
                    fragment: b.fragment,
                    ..pre.builds[b.pk]
                },
            ),
            ..pre
        }
    }
}

/// Whether the build under `b` has left a fragment.
pub open spec fn ready(builds: Map<i64, BuildRow>, b: i64) -> bool {
    builds.contains_key(b) && builds[b].fragment@.len() > 0
}

/// The keys of the builds that the fragments belong to.
pub open spec fn fragment_builds(fragments: Seq<NewPublishFragment>) -> Seq<i64> {
    fragments.map_values(|f: NewPublishFragment| f.build)
}

/// The step that begins a publish: a key is issued, the publish stands
/// under it without a result, and it includes exactly the builds that have
/// left a fragment, each once, in the order of their keys; their fragments
/// are handed out with it.
pub open spec fn new_publish_step(pre: State, now_ms: i64, post: State, r: Result<NewPublish>) -> bool {
    match next_key(pre.clock, now_ms) {
        None => r == Err::<NewPublish, Error>(Error::KeysExhausted) && post == pre,
        Some(key) => {
            &&& r matches Ok(begun)
            &&& begun.pk == key
            &&& post == State {
                clock: key,
                publishes: pre.publishes.insert(key, post.publishes[key]),
                ..pre
            }
            &&& post.publishes[key].builds@ == fragment_builds(begun.fragments@)
            &&& post.publishes[key].exit_code is None
            &&& post.publishes[key].output is None
            &&& post.publishes[key].public_url@.len() == 0
            &&& forall|i: int, j: int|
                0 <= i < j < begun.fragments@.len() ==> begun.fragments@[i].build
                    < begun.fragments@[j].build
            &&& forall|i: int|
                0 <= i < begun.fragments@.len() ==> ready(
                    pre.builds,
                    (#[trigger] begun.fragments@[i]).build,
                ) && begun.fragments@[i].fragment@ == pre.builds[begun.fragments@[i].build].fragment@
            &&& forall|b: i64| #[trigger]
                ready(pre.builds, b) ==> fragment_builds(begun.fragments@).contains(b)
        },
    }
}

/// The step that records what a publish job left behind, once: without the
/// publish, and for a publish that has its result already, nothing happens.
pub open spec fn save_publish_result_step(
    pre: State,
    p: PublishResult,
    post: State,
    r: Result<()>,
) -> bool {
    if !pre.publishes.contains_key(p.pk) {
        r == Err::<(), Error>(Error::NoRows) && post == pre
    } else if pre.publishes[p.pk].exit_code is Some {
        r == Err::<(), Error>(Error::Finalized) && post == pre
    } else {
        &&& r == Ok::<(), Error>(())
        &&& post == State {
            publishes: pre.publishes.insert(
                p.pk,
                PublishRow {
                    exit_code: Some(p.exit_code),
                    output: Some(p.output),
                    public_url: p.public_url,
                    ..pre.publishes[p.pk]
                },
            ),
            ..pre
        }
    }
}

/// Creating a build keeps the store in order.
pub proof fn lemma_save_build_keeps(
    pre: State,
    build: SaveBuild,
    now_ms: i64,
    post: State,
    r: Result<SaveBuildResult>,
)
    requires
        valid(pre),
        save_build_step(pre, build, now_ms, post, r),
    ensures
        valid(post),
        pre.clock <= post.clock,
{
    if missing_of(pre.items, build.items@).len() == 0 && next_key(pre.clock, now_ms) is Some {
        let key = next_key(pre.clock, now_ms)->0;
        lemma_missing(pre.items, build.items@);
        assert(!pre.builds.contains_key(key));
        assert(builds_complete(post)) by {
            assert(post.items == pre.items);
            assert forall|b: i64, i: int|
                post.builds.contains_key(b) && 0 <= i < post.builds[b].items@.len() implies has_file(
                post.items,
                #[trigger] post.builds[b].items@[i],
            ) by {
                if b != key {
                    assert(has_file(pre.items, pre.builds[b].items@[i]));
                } else {
                    assert(has_file(pre.items, build.items@[i]));
                }
            }
        }
        assert(publishes_linked(post)) by {
            assert(post.publishes == pre.publishes);
            assert forall|p: i64, i: int|
                post.publishes.contains_key(p) && 0 <= i < post.publishes[p].builds@.len()
                    implies post.builds.contains_key(#[trigger] post.publishes[p].builds@[i]) by {
                assert(pre.builds.contains_key(pre.publishes[p].builds@[i]));
            }
        }
        assert(files_attached(post)) by {
            assert(post.items == pre.items);
            assert(post.files == pre.files);
        }
        assert(packages_attached(post)) by {
            assert(post.packages == pre.packages);
            assert(post.files == pre.files);
        }
        assert(keys_issued(post));
    }
}

/// Recording a build's result keeps the store in order.
pub proof fn lemma_save_build_result_keeps(pre: State, b: BuildResult, post: State, r: Result<()>)
    requires
        valid(pre),
        save_build_result_step(pre, b, post, r),
    ensures
        valid(post),
        pre.clock == post.clock,
{
    if pre.builds.contains_key(b.pk) {
        assert(builds_complete(post)) by {
            assert(post.items == pre.items);
            assert forall|k: i64, i: int|
                post.builds.contains_key(k) && 0 <= i < post.builds[k].items@.len() implies has_file(
                post.items,
                #[trigger] post.builds[k].items@[i],
            ) by {
                assert(has_file(pre.items, pre.builds[k].items@[i]));
            }
        }
        assert(publishes_linked(post)) by {
            assert(post.publishes == pre.publishes);
            assert forall|p: i64, i: int|
                post.publishes.contains_key(p) && 0 <= i < post.publishes[p].builds@.len()
                    implies post.builds.contains_key(#[trigger] post.publishes[p].builds@[i]) by {
                assert(pre.builds.contains_key(pre.publishes[p].builds@[i]));
            }
        }
        assert(files_attached(post)) by {
            assert(post.items == pre.items);
            assert(post.files == pre.files);
        }
        assert(packages_attached(post)) by {
            assert(post.packages == pre.packages);
            assert(post.files == pre.files);
        }
        assert(keys_issued(post));
    }
}

/// Beginning a publish keeps the store in order.
pub proof fn lemma_new_publish_keeps(pre: State, now_ms: i64, post: State, r: Result<NewPublish>)
    requires
        valid(pre),
        new_publish_step(pre, now_ms, post, r),
    ensures
        valid(post),
        pre.clock <= post.clock,
{
    if next_key(pre.clock, now_ms) is Some {
        let key = next_key(pre.clock, now_ms)->0;
        let begun = r->Ok_0;
        assert(!pre.publishes.contains_key(key));
        assert(publishes_linked(post)) by {
            assert(post.builds == pre.builds);
            assert forall|p: i64, i: int|
                post.publishes.contains_key(p) && 0 <= i < post.publishes[p].builds@.len()
                    implies post.builds.contains_key(#[trigger] post.publishes[p].builds@[i]) by {
                if p != key {
                    assert(pre.builds.contains_key(pre.publishes[p].builds@[i]));
                } else {
                    assert(post.publishes[p].builds@[i] == begun.fragments@[i].build);
                    assert(ready(pre.builds, begun.fragments@[i].build));
                }
            }
        }
        assert(builds_complete(post)) by {
            assert(post.items == pre.items);
            assert(post.builds == pre.builds);
        }
        assert(files_attached(post)) by {
            assert(post.items == pre.items);
            assert(post.files == pre.files);
        }
        assert(packages_attached(post)) by {
            assert(post.packages == pre.packages);
            assert(post.files == pre.files);
        }
        assert(keys_issued(post));
    }
}

/// Recording a publish's result keeps the store in order.
pub proof fn lemma_save_publish_result_keeps(
    pre: State,
    p: PublishResult,
    post: State,
    r: Result<()>,
)
    requires
        valid(pre),
        save_publish_result_step(pre, p, post, r),
    ensures
        valid(post),
        pre.clock == post.clock,
{
    if pre.publishes.contains_key(p.pk) {
        assert(publishes_linked(post)) by {
            assert(post.builds == pre.builds);
            assert forall|q: i64, i: int|
                post.publishes.contains_key(q) && 0 <= i < post.publishes[q].builds@.len()
                    implies post.builds.contains_key(#[trigger] post.publishes[q].builds@[i]) by {
                assert(pre.builds.contains_key(pre.publishes[q].builds@[i]));
            }
        }
        assert(builds_complete(post)) by {
            assert(post.items == pre.items);
            assert(post.builds == pre.builds);
        }
        assert(files_attached(post)) by {
            assert(post.items == pre.items);
            assert(post.files == pre.files);
        }
        assert(packages_attached(post)) by {
            assert(post.packages == pre.packages);
            assert(post.files == pre.files);
        }
        assert(keys_issued(post));
    }
}

/// The single owner of the store. It holds every row in memory, the bytes of
/// each archive and fragment included, in maps ordered by key.
#[derive(Debug)]
pub struct Daemon {
    clock: i64,
    items: BTreeMap<i64, ItemRow>,
    files: BTreeMap<i64, FileRow>,
    packages: BTreeMap<i64, PackageRow>,
    builds: BTreeMap<i64, BuildRow>,
    publishes: BTreeMap<i64, PublishRow>,
}

impl View for Daemon {
    type V = State;

    closed spec fn view(&self) -> State {
        State {
            clock: self.clock,
            items: self.items@,
            files: self.files@,
            packages: self.packages@,
            builds: self.builds@,
            publishes: self.publishes@,
        }
    }
}

/// No clock reads a moment before this one, in milliseconds since the Unix
/// epoch: the first second of the year -9999.
pub const EARLIEST_MS: i64 = -377_705_116_800_000;

/// No clock reads a moment after this one, in milliseconds since the Unix
/// epoch: the last millisecond of the year 9999.
pub const LATEST_MS: i64 = 253_402_300_799_999;

/// Whether a clock can read the moment `ms`.
pub open spec fn readable(ms: i64) -> bool {
    EARLIEST_MS <= ms <= LATEST_MS
}

/// `jiff::Timestamp::try_from` a `std::time::SystemTime`, and
/// `Timestamp::as_millisecond`: the present moment in milliseconds since the
/// Unix epoch, or nothing where the system's clock stands outside the years
/// that `jiff` knows. Which moment it is is not claimed, only that it lies
/// within those years: `jiff` holds no timestamp before the year -9999 or
/// after the year 9999.
#[verifier::external_body]
fn system_millis() -> (r: Option<i64>)
    ensures
        r matches Some(ms) ==> readable(ms),
{
    jiff::Timestamp::try_from(std::time::SystemTime::now()).map(|t| t.as_millisecond()).ok()
}

/// The present moment in milliseconds since the Unix epoch; a clock that
/// cannot be read counts as the epoch, which the keys survive as they
/// survive any clock that runs back.
fn now_millis() -> (ms: i64)
    ensures
        readable(ms),
{
    millis_or_epoch(system_millis())
}

/// While the clock has not issued the last key there is, any moment that a
/// clock can read has a key: no reading is so late that its key does not fit.
pub proof fn lemma_key_is_left(clock: i64, now_ms: i64)
    requires
        readable(now_ms),
    ensures
        next_key(clock, now_ms) is Some <==> clock < i64::MAX,
{
}

/// The moment that a reading of the clock stands for: the reading itself, and
/// the epoch where the clock could not be read.
pub open spec fn spec_millis_or_epoch(read: Option<i64>) -> i64 {
    match read {
        Some(ms) => ms,
        None => 0,
    }
}

/// The moment that a reading of the clock stands for.
#[verifier::when_used_as_spec(spec_millis_or_epoch)]
pub fn millis_or_epoch(read: Option<i64>) -> (ms: i64)
    ensures
        ms == spec_millis_or_epoch(read),
{
    match read {
        Some(ms) => ms,
        None => 0,
    }
}

impl Daemon {
    /// Whether the store is in order.
    pub open spec fn wf(&self) -> bool {
        valid(self@)
    }

    /// An empty store whose clock last issued `clock`.
    pub fn new(clock: i64) -> (d: Daemon)
        ensures
            d.wf(),
            d@.clock == clock,
            d@.items == Map::<i64, ItemRow>::empty(),
            d@.files == Map::<i64, FileRow>::empty(),
            d@.packages == Map::<i64, PackageRow>::empty(),
            d@.builds == Map::<i64, BuildRow>::empty(),
            d@.publishes == Map::<i64, PublishRow>::empty(),
    {
        Daemon {
            clock,
            items: BTreeMap::new(),
            files: BTreeMap::new(),
            packages: BTreeMap::new(),
            builds: BTreeMap::new(),
            publishes: BTreeMap::new(),
        }
    }

    /// The last key that the clock issued.
    pub fn clock(&self) -> (c: i64)
        ensures
            c == self@.clock,
    {
        self.clock
    }

    /// The key of the item known by `workshopid` in `version`.
    fn find_item(&self, workshopid: &WorkshopId, version: i64) -> (r: Option<i64>)
        ensures
            r matches Some(k) ==> self.items@.contains_key(k) && is_item(
                self.items@[k],
                workshopid@,
                version,
            ),
            r is None ==> forall|k: i64| #[trigger]
                self.items@.contains_key(k) ==> !is_item(self.items@[k], workshopid@, version),
    {
        let keys = keys_of(&self.items);
        let mut i: usize = 0;
        while i < keys.len()
            invariant
                i <= keys@.len(),
                forall|k: i64| keys@.contains(k) <==> self.items@.contains_key(k),
                forall|j: int|
                    0 <= j < i ==> !is_item(self.items@[#[trigger] keys@[j]], workshopid@, version),
            decreases keys@.len() - i,
        {
            let k = keys[i];
            assert(keys@.contains(k));
            match self.items.get(&k) {
                Some(row) => {
                    if row.version == version && row.workshopid == *workshopid {
                        return Some(k);
                    }
                },
                None => {},
            }
            i += 1;
        }
        proof {
            assert forall|k: i64| #[trigger] self.items@.contains_key(k) implies !is_item(
                self.items@[k],
                workshopid@,
                version,
            ) by {
                assert(keys@.contains(k));
                let j = choose|j: int| 0 <= j < keys@.len() && keys@[j] == k;
                assert(!is_item(self.items@[keys@[j]], workshopid@, version));
            }
        }
        None
    }

    /// The key of the file known by the tag `etag`.
    fn find_file(&self, etag: &ETag) -> (r: Option<i64>)
        ensures
            r matches Some(k) ==> self.files@.contains_key(k) && self.files@[k].etag@ == etag@,
            r is None ==> forall|k: i64| #[trigger]
                self.files@.contains_key(k) ==> self.files@[k].etag@ != etag@,
    {
        let keys = keys_of(&self.files);
        let mut i: usize = 0;
        while i < keys.len()
            invariant
                i <= keys@.len(),
                forall|k: i64| keys@.contains(k) <==> self.files@.contains_key(k),
                forall|j: int| 0 <= j < i ==> self.files@[#[trigger] keys@[j]].etag@ != etag@,
            decreases keys@.len() - i,
        {
            let k = keys[i];
            assert(keys@.contains(k));
            match self.files.get(&k) {
                Some(row) => {
                    if same_bytes(&row.etag.0, &etag.0) {
                        return Some(k);
                    }
                },
                None => {},
            }
            i += 1;
        }
        proof {
            assert forall|k: i64| #[trigger] self.files@.contains_key(k) implies self.files@[k].etag@
                != etag@ by {
                assert(keys@.contains(k));
                let j = choose|j: int| 0 <= j < keys@.len() && keys@[j] == k;
                assert(self.files@[keys@[j]].etag@ != etag@);
            }
        }
        None
    }

    /// Remembers an item at the moment `now_ms`, in milliseconds since the
    /// Unix epoch: `(did_insert, pk)`.
    pub fn upsert_workshop_item_at(&mut self, item: NewWorkshopItem, now_ms: i64) -> (r: Result<
        (bool, i64),
    >)
        requires
            old(self).wf(),
        ensures
            final(self).wf(),
            upsert_step(old(self)@, item, now_ms, final(self)@, r),
    {
        let key = match next_pk(self.clock, now_ms) {
            Some(k) => k,
            None => return Err(Error::KeysExhausted),
        };
        match self.find_item(&item.workshopid, item.version) {
            Some(pk) => {
                let ghost before = self.items@;
                match self.items.remove(&pk) {
                    Some(row) => {
                        let changed = ItemRow {
                            workshopid: row.workshopid,
                            version: row.version,
                            title: item.title,
                            authors: item.authors,
                            file: row.file,
                        };
                        self.items.insert(pk, changed);
                        self.clock = key;
                        proof {
                            assert(self.items@ =~= before.insert(pk, changed));
                            lemma_upsert_keeps(old(self)@, item, now_ms, self@, Ok((false, pk)));
                        }
                        Ok((false, pk))
                    },
                    None => {
                        proof {
                            assert(false);
                        }
                        Err(Error::NoRows)
                    },
                }
            },
            None => {
                let row = ItemRow {
                    workshopid: item.workshopid,
                    version: item.version,
                    title: item.title,
                    authors: item.authors,
                    file: None,
                };
                self.items.insert(key, row);
                self.clock = key;
                proof {
                    lemma_upsert_keeps(old(self)@, item, now_ms, self@, Ok((true, key)));
                }
                Ok((true, key))
            },
        }
    }

    /// Remembers an item now.
    pub fn upsert_workshop_item(&mut self, item: NewWorkshopItem) -> (r: Result<(bool, i64)>)
        requires
            old(self).wf(),
        ensures
            final(self).wf(),
            exists|now_ms: i64|
                readable(now_ms) && #[trigger] upsert_step(
                    old(self)@,
                    item,
                    now_ms,
                    final(self)@,
                    r,
                ),
            r is Ok <==> old(self)@.clock < i64::MAX,
    {
        let now_ms = now_millis();
        proof {
            lemma_key_is_left(self@.clock, now_ms);
        }
        self.upsert_workshop_item_at(item, now_ms)
    }

    /// Attaches a downloaded file to the item under `item` at the moment
    /// `now_ms`, and gives the key of the file.
    pub fn save_file_at(&mut self, item: i64, file: DownloadedFile, now_ms: i64) -> (r: Result<i64>)
        requires
            old(self).wf(),
        ensures
            final(self).wf(),
            save_file_step(old(self)@, item, file, now_ms, final(self)@, r),
    {
        let key = match next_pk(self.clock, now_ms) {
            Some(k) => k,
            None => return Err(Error::KeysExhausted),
        };
        let ghost items_before = self.items@;
        let ghost files_before = self.files@;
        let row = match self.items.remove(&item) {
            Some(row) => row,
            None => {
                assert(self.items@ =~= items_before);
                return Err(Error::NoRows);
            },
        };
        let file_pk = match self.find_file(&file.etag) {
            Some(known) => known,
            None => {
                self.files.insert(
                    key,
                    FileRow { size: file.size, etag: file.etag, data: file.data },
                );
                key
            },
        };
        let attached = ItemRow {
            workshopid: row.workshopid,
            version: row.version,
            title: row.title,
            authors: row.authors,
            file: Some(file_pk),
        };
        self.items.insert(item, attached);
        self.clock = key;
        proof {
            assert(self.items@ =~= items_before.insert(item, attached));
            assert(old(self)@.files == files_before);
            assert(!old(self)@.files.contains_key(key));
            lemma_save_file_keeps(old(self)@, item, file, now_ms, self@, Ok(file_pk));
        }
        Ok(file_pk)
    }

    /// Attaches a downloaded file to the item under `item` now.
    pub fn save_file(&mut self, item: i64, file: DownloadedFile) -> (r: Result<i64>)
        requires
            old(self).wf(),
        ensures
            final(self).wf(),
            exists|now_ms: i64|
                readable(now_ms) && #[trigger] save_file_step(
                    old(self)@,
                    item,
                    file,
                    now_ms,
                    final(self)@,
                    r,
                ),
            r is Ok <==> old(self)@.clock < i64::MAX && old(self)@.items.contains_key(item),
    {
        let now_ms = now_millis();
        proof {
            lemma_key_is_left(self@.clock, now_ms);
        }
        self.save_file_at(item, file, now_ms)
    }

    /// Remembers the content package of the file under `file_pk`.
    pub fn save_content_package(&mut self, file_pk: i64, p: ContentPackage) -> (r: Result<i64>)
        requires
            old(self).wf(),
        ensures
            final(self).wf(),
            save_package_step(old(self)@, file_pk, p, final(self)@, r),
    {
        if self.packages.contains_key(&file_pk) {
            return Ok(file_pk);
        }
        if !self.files.contains_key(&file_pk) {
            return Err(Error::ForeignKey);
        }
        self.packages.insert(file_pk, PackageRow { name: p.name, version: p.version });
        proof {
            lemma_save_package_keeps(old(self)@, file_pk, p, self@, Ok(file_pk));
        }
        Ok(file_pk)
    }

    /// The archive attached to the item under `pk`; nothing for an item that
    /// the store does not know or that has no file yet. It never fails.
    pub fn workshop_item_file(&self, pk: i64) -> (r: Result<Option<Vec<u8>>>)
        requires
            self.wf(),
        ensures
            r matches Ok(found) && file_answer(self@, pk, found),
    {
        let item = match self.items.get(&pk) {
            Some(row) => row,
            None => return Ok(None),
        };
        let f = match item.file {
            Some(f) => f,
            None => return Ok(None),
        };
        assert(has_file(self.items@, pk));
        match self.files.get(&f) {
            Some(file) => Ok(Some(copy_bytes(&file.data))),
            None => {
                proof {
                    assert(false);
                }
                Ok(None)
            },
        }
    }
}

/// Whether `w` shows the item under its key as the store holds it: the item
/// itself, the key and size of its file, and the content package of that
/// file.
pub open spec fn shows_item(s: State, w: WorkshopItem) -> bool {
    &&& s.items.contains_key(w.pk)
    &&& w.workshopid@ == s.items[w.pk].workshopid@
    &&& w.title@ == s.items[w.pk].title@
    &&& texts(w.authors@) == texts(s.items[w.pk].authors@)
    &&& w.version == s.items[w.pk].version
    &&& match s.items[w.pk].file {
        None => w.file is None && w.content is None,
        Some(f) => {
            &&& w.file matches Some(shown)
            &&& shown.pk == f
            &&& shown.size == s.files[f].size
            &&& if s.packages.contains_key(f) {
                &&& w.content matches Some(c)
                &&& c.name@ == s.packages[f].name@
                &&& c.version@ == s.packages[f].version@
            } else {
                w.content is None
            }
        },
    }
}

/// Whether the publish under `p` includes the build under `b`.
pub open spec fn includes(publishes: Map<i64, PublishRow>, p: i64, b: i64) -> bool {
    publishes.contains_key(p) && publishes[p].builds@.contains(b)
}

/// The size of a fragment of `len` bytes as it is shown.
pub open spec fn shown_size(len: nat) -> i64 {
    if len <= i64::MAX {
        len as i64
    } else {
        i64::MAX
    }
}

/// Whether `b` shows the build under its key as the store holds it: name and
/// result, the items in load order, the size of a fragment that is not
/// empty, and the latest publish that includes the build.
pub open spec fn shows_build(s: State, b: Build) -> bool {
    &&& s.builds.contains_key(b.pk)
    &&& b.name@ == s.builds[b.pk].name@
    &&& b.exit_code == s.builds[b.pk].exit_code
    &&& match (b.output, s.builds[b.pk].output) {
        (Some(shown), Some(held)) => shown@ == held@,
        (None, None) => true,
        _ => false,
    }
    &&& b.items@.len() == s.builds[b.pk].items@.len()
    &&& forall|i: int|
        0 <= i < b.items@.len() ==> (#[trigger] b.items@[i]).pk == s.builds[b.pk].items@[i]
            && b.items@[i].workshopid@ == s.items[s.builds[b.pk].items@[i]].workshopid@
    &&& b.fragment == (if s.builds[b.pk].fragment@.len() > 0 {
        Some(BuildFragment { size: shown_size(s.builds[b.pk].fragment@.len()) })
    } else {
        None
    })
    &&& match b.published {
        Some(p) => includes(s.publishes, p, b.pk) && forall|q: i64| #[trigger]
            includes(s.publishes, q, b.pk) ==> q <= p,
        None => forall|q: i64| !#[trigger] includes(s.publishes, q, b.pk),
    }
}

/// Whether `r` answers the question for the item under `pk`.
pub open spec fn item_answer(s: State, pk: i64, r: Option<WorkshopItem>) -> bool {
    &&& r is Some <==> s.items.contains_key(pk)
    &&& r matches Some(w) ==> w.pk == pk && shows_item(s, w)
}

/// Whether `r` answers the question for every version of the item known by
/// the id `w`: each version once, the latest key first.
pub open spec fn items_answer(s: State, w: Seq<char>, r: Seq<WorkshopItem>) -> bool {
    &&& forall|i: int|
        0 <= i < r.len() ==> shows_item(s, #[trigger] r[i]) && r[i].workshopid@ == w
    &&& forall|i: int, j: int| 0 <= i < j < r.len() ==> r[i].pk > r[j].pk
    &&& forall|k: i64|
        s.items.contains_key(k) && s.items[k].workshopid@ == w ==> exists|i: int|
            0 <= i < r.len() && (#[trigger] r[i]).pk == k
}

/// Whether `r` answers the question for the archive of the item under `pk`.
pub open spec fn file_answer(s: State, pk: i64, r: Option<Vec<u8>>) -> bool {
    match (r, item_file(s, pk)) {
        (Some(d), Some(bytes)) => d@ == bytes,
        (None, None) => true,
        _ => false,
    }
}

/// Whether `r` answers the question for the fragment of the build under
/// `pk`.
pub open spec fn fragment_answer(s: State, pk: i64, r: Option<Vec<u8>>) -> bool {
    &&& r is Some <==> s.builds.contains_key(pk)
    &&& r matches Some(bytes) ==> bytes@ == s.builds[pk].fragment@
}

/// Whether `r` answers the question for the archives of the items of the
/// build under `pk`: one per item, in load order, each under the key of its
/// item; none for a build that the store does not know.
pub open spec fn item_files_answer(s: State, pk: i64, r: BuildItemFiles) -> bool {
    &&& !s.builds.contains_key(pk) ==> r.files@.len() == 0
    &&& s.builds.contains_key(pk) ==> {
        &&& r.files@.len() == s.builds[pk].items@.len()
        &&& forall|i: int|
            0 <= i < r.files@.len() ==> (#[trigger] r.files@[i]).0 == s.builds[pk].items@[i]
                && has_file(s.items, r.files@[i].0) && r.files@[i].1@
                == s.files[s.items[r.files@[i].0].file->0].data@
    }
}

/// Whether `r` answers the question for the build under `pk`.
pub open spec fn build_answer(s: State, pk: i64, r: Option<Build>) -> bool {
    &&& r is Some <==> s.builds.contains_key(pk)
    &&& r matches Some(b) ==> b.pk == pk && shows_build(s, b)
}

/// Whether `r` answers the question for the publish under `pk`.
pub open spec fn publish_answer(s: State, pk: i64, r: Option<Publish>) -> bool {
    &&& r is Some <==> s.publishes.contains_key(pk)
    &&& r matches Some(p) ==> p.pk == pk && p.exit_code == s.publishes[pk].exit_code
        && p.public_url@ == s.publishes[pk].public_url@
}

/// Whether `list` holds `x`.
fn holds(list: &Vec<i64>, x: i64) -> (r: bool)
    ensures
        r == list@.contains(x),
{
    let mut i: usize = 0;
    while i < list.len()
        invariant
            i <= list@.len(),
            forall|j: int| 0 <= j < i ==> list@[j] != x,
        decreases list@.len() - i,
    {
        if list[i] == x {
            return true;
        }
        i += 1;
    }
    false
}

impl Daemon {
    /// The item under `pk` as it is shown.
    fn show_item(&self, pk: i64) -> (r: Option<WorkshopItem>)
        requires
            self.wf(),
        ensures
            r is Some <==> self@.items.contains_key(pk),
            r matches Some(w) ==> w.pk == pk && shows_item(self@, w),
    {
        let row = match self.items.get(&pk) {
            Some(row) => row,
            None => return None,
        };
        let (file, content) = match row.file {
            None => (None, None),
            Some(f) => {
                assert(has_file(self.items@, pk));
                match self.files.get(&f) {
                    Some(held) => {
                        let content = match self.packages.get(&f) {
                            Some(p) => Some(
                                FileContentPackage {
                                    name: p.name.clone(),
                                    version: p.version.clone(),
                                },
                            ),
                            None => None,
                        };
                        (Some(ItemFile { pk: f, size: held.size }), content)
                    },
                    None => {
                        proof {
                            assert(false);
                        }
                        (None, None)
                    },
                }
            },
        };
        Some(
            WorkshopItem {
                pk,
                workshopid: row.workshopid.clone(),
                title: row.title.clone(),
                authors: copy_strings(&row.authors),
                version: row.version,
                file,
                content,
            },
        )
    }

    /// The item under `pk`, if the store knows it.
    pub fn workshop_item_by_pk(&self, pk: i64) -> (r: Option<WorkshopItem>)
        requires
            self.wf(),
        ensures
            item_answer(self@, pk, r),
    {
        self.show_item(pk)
    }

    /// Every version of the item known by the id `w`, the latest key first.
    pub fn workshop_items(&self, w: &WorkshopId) -> (r: Vec<WorkshopItem>)
        requires
            self.wf(),
        ensures
            items_answer(self@, w@, r@),
    {
        let keys = keys_of(&self.items);
        let mut r: Vec<WorkshopItem> = Vec::new();
        let mut i: usize = keys.len();
        while i > 0
            invariant
                i <= keys@.len(),
                self.wf(),
                forall|k: i64| keys@.contains(k) <==> self.items@.contains_key(k),
                forall|a: int, b: int| 0 <= a < b < keys@.len() ==> keys@[a] < keys@[b],
                forall|j: int|
                    0 <= j < r@.len() ==> shows_item(self@, #[trigger] r@[j]) && r@[j].workshopid@
                        == w@,
                forall|a: int, b: int| 0 <= a < b < r@.len() ==> r@[a].pk > r@[b].pk,
                forall|j: int, a: int|
                    0 <= j < r@.len() && 0 <= a < i ==> #[trigger] keys@[a] < (#[trigger] r@[j]).pk,
                forall|a: int|
                    i <= a < keys@.len() && self.items@[keys@[a]].workshopid@ == w@ ==> exists|
                        j: int,
                    |
                        0 <= j < r@.len() && (#[trigger] r@[j]).pk == keys@[a],
            decreases i,
        {
            i -= 1;
            let k = keys[i];
            assert(keys@.contains(k));
            let ghost before = r@;
            match self.show_item(k) {
                Some(shown) => {
                    if shown.workshopid == *w {
                        r.push(shown);
                        proof {
                            assert(r@[before.len() as int].pk == k);
                            assert forall|j: int| 0 <= j < before.len() implies r@[j] == before[j] by {}
                            assert forall|a: int, b: int| 0 <= a < b < r@.len() implies r@[a].pk
                                > r@[b].pk by {
                                if b == before.len() {
                                    assert(keys@[i as int] < before[a].pk);
                                }
                            }
                        }
                    }
                },
                None => {},
            }
            proof {
                assert forall|a: int|
                    i <= a < keys@.len() && self.items@[keys@[a]].workshopid@ == w@ implies exists|
                    j: int,
                |
                    0 <= j < r@.len() && (#[trigger] r@[j]).pk == keys@[a] by {
                    if a == i {
                        assert(r@[before.len() as int].pk == k);
                    } else {
                        let j = choose|j: int|
                            0 <= j < before.len() && (#[trigger] before[j]).pk == keys@[a];
                        assert(r@[j].pk == keys@[a]);
                    }
                }
            }
        }
        proof {
            assert forall|k: i64|
                self@.items.contains_key(k) && self@.items[k].workshopid@ == w@ implies exists|
                i: int,
            |
                0 <= i < r@.len() && (#[trigger] r@[i]).pk == k by {
                assert(keys@.contains(k));
                let a = choose|a: int| 0 <= a < keys@.len() && keys@[a] == k;
                assert(self.items@[keys@[a]].workshopid@ == w@);
            }
        }
        r
    }

    /// The fragment of the build under `pk`, empty before the build has left
    /// one; nothing for a build that the store does not know.
    pub fn build_fragment(&self, pk: i64) -> (r: Option<Vec<u8>>)
        ensures
            fragment_answer(self@, pk, r),
    {
        match self.builds.get(&pk) {
            Some(row) => Some(copy_bytes(&row.fragment)),
            None => None,
        }
    }

    /// The archives of the items of the build under `pk`, in load order;
    /// none for a build that the store does not know.
    pub fn build_item_files(&self, pk: i64) -> (r: BuildItemFiles)
        requires
            self.wf(),
        ensures
            item_files_answer(self@, pk, r),
    {
        let mut files: Vec<(i64, Vec<u8>)> = Vec::new();
        let row = match self.builds.get(&pk) {
            Some(row) => row,
            None => return BuildItemFiles { files },
        };
        let mut i: usize = 0;
        while i < row.items.len()
            invariant
                i <= row.items@.len(),
                self.wf(),
                self.builds@.contains_key(pk),
                *row == self.builds@[pk],
                files@.len() == i,
                forall|j: int|
                    0 <= j < i ==> (#[trigger] files@[j]).0 == row.items@[j] && has_file(
                        self@.items,
                        files@[j].0,
                    ) && files@[j].1@ == self@.files[self@.items[files@[j].0].file->0].data@,
            decreases row.items@.len() - i,
        {
            let item = row.items[i];
            proof {
                assert(has_file(self@.items, self@.builds[pk].items@[i as int]));
                assert(self@.files.contains_key(self@.items[item].file->0));
            }
            let data = match self.items.get(&item) {
                Some(held) => match held.file {
                    Some(f) => match self.files.get(&f) {
                        Some(file) => copy_bytes(&file.data),
                        None => {
                            proof {
                                assert(false);
                            }
                            Vec::new()
                        },
                    },
                    None => {
                        proof {
                            assert(false);
                        }
                        Vec::new()
                    },
                },
                None => {
                    proof {
                        assert(false);
                    }
                    Vec::new()
                },
            };
            files.push((item, data));
            i += 1;
        }
        BuildItemFiles { files }
    }

    /// The latest publish that includes the build under `pk`.
    fn published(&self, pk: i64) -> (r: Option<i64>)
        ensures
            match r {
                Some(p) => includes(self@.publishes, p, pk) && forall|q: i64| #[trigger]
                    includes(self@.publishes, q, pk) ==> q <= p,
                None => forall|q: i64| !#[trigger] includes(self@.publishes, q, pk),
            },
    {
        let keys = keys_of(&self.publishes);
        let mut latest: Option<i64> = None;
        let mut i: usize = 0;
        while i < keys.len()
            invariant
                i <= keys@.len(),
                forall|k: i64| keys@.contains(k) <==> self.publishes@.contains_key(k),
                forall|a: int, b: int| 0 <= a < b < keys@.len() ==> keys@[a] < keys@[b],
                latest matches Some(p) ==> includes(self.publishes@, p, pk),
                forall|j: int|
                    0 <= j < i && includes(self.publishes@, #[trigger] keys@[j], pk) ==> latest
                        is Some && keys@[j] <= latest->0,
            decreases keys@.len() - i,
        {
            let k = keys[i];
            assert(keys@.contains(k));
            match self.publishes.get(&k) {
                Some(row) => {
                    if holds(&row.builds, pk) {
                        latest = Some(k);
                    }
                },
                None => {},
            }
            i += 1;
        }
        proof {
            assert forall|q: i64| #[trigger] includes(self@.publishes, q, pk) implies latest is Some
                && q <= latest->0 by {
                assert(keys@.contains(q));
                let j = choose|j: int| 0 <= j < keys@.len() && keys@[j] == q;
                assert(includes(self.publishes@, keys@[j], pk));
            }
        }
        latest
    }

    /// The build under `pk` as it is shown, if the store knows it.
    pub fn get_build(&self, pk: i64) -> (r: Option<Build>)
        requires
            self.wf(),
        ensures
            build_answer(self@, pk, r),
    {
        let row = match self.builds.get(&pk) {
            Some(row) => row,
            None => return None,
        };
        let mut items: Vec<BuildItem> = Vec::new();
        let mut i: usize = 0;
        while i < row.items.len()
            invariant
                i <= row.items@.len(),
                self.wf(),
                self.builds@.contains_key(pk),
                *row == self.builds@[pk],
                items@.len() == i,
                forall|j: int|
                    0 <= j < i ==> (#[trigger] items@[j]).pk == row.items@[j]
                        && items@[j].workshopid@ == self@.items[row.items@[j]].workshopid@,
            decreases row.items@.len() - i,
        {
            let item = row.items[i];
            proof {
                assert(has_file(self@.items, self@.builds[pk].items@[i as int]));
            }
            match self.items.get(&item) {
                Some(held) => {
                    items.push(BuildItem { pk: item, workshopid: held.workshopid.clone() });
                },
                None => {
                    proof {
                        assert(false);
                    }
                },
            }
            i += 1;
        }
        let len = row.fragment.len();
        let fragment = if len > 0 {
            let wide: u64 = len as u64;
            let size: i64 = if wide > 0x7fff_ffff_ffff_ffffu64 {
                i64::MAX
            } else {
                wide as i64
            };
            Some(BuildFragment { size })
        } else {
            None
        };
        let output = match &row.output {
            Some(text) => Some(text.clone()),
            None => None,
        };
        Some(
            Build {
                pk,
                name: row.name.clone(),
                items,
                exit_code: row.exit_code,
                output,
                fragment,
                published: self.published(pk),
            },
        )
    }

    /// The items among `wanted` that cannot go into a build.
    fn missing(&self, wanted: &Vec<i64>) -> (r: Vec<i64>)
        ensures
            r@ == missing_of(self@.items, wanted@),
    {
        let mut r: Vec<i64> = Vec::new();
        let mut i: usize = 0;
        while i < wanted.len()
            invariant
                i <= wanted@.len(),
                r@ == missing_of(self@.items, wanted@.take(i as int)),
            decreases wanted@.len() - i,
        {
            proof {
                assert(wanted@.take(i + 1).drop_last() =~= wanted@.take(i as int));
            }
            let present = match self.items.get(&wanted[i]) {
                Some(row) => row.file.is_some(),
                None => false,
            };
            if !present {
                r.push(wanted[i]);
            }
            i += 1;
        }
        assert(wanted@.take(i as int) =~= wanted@);
        r
    }

    /// Creates a build at the moment `now_ms`, or reports the items that are
    /// missing for it.
    pub fn save_build_at(&mut self, build: SaveBuild, now_ms: i64) -> (r: Result<SaveBuildResult>)
        requires
            old(self).wf(),
        ensures
            final(self).wf(),
            save_build_step(old(self)@, build, now_ms, final(self)@, r),
    {
        let missing = self.missing(&build.items);
        if missing.len() > 0 {
            return Ok(SaveBuildResult::Missing { missing });
        }
        let key = match next_pk(self.clock, now_ms) {
            Some(k) => k,
            None => return Err(Error::KeysExhausted),
        };
        let ghost before = self.builds@;
        self.builds.insert(
            key,
            BuildRow {
                name: build.name,
                items: build.items,
                exit_code: None,
                output: None,
                fragment: Vec::new(),
            },
        );
        self.clock = key;
        proof {
            assert(self.builds@ =~= before.insert(key, self.builds@[key]));
            lemma_save_build_keeps(
                old(self)@,
                build,
                now_ms,
                self@,
                Ok(SaveBuildResult::Inserted { pk: key }),
            );
        }
        Ok(SaveBuildResult::Inserted { pk: key })
    }

    /// Creates a build now, or reports the items that are missing for it.
    pub fn save_build(&mut self, build: SaveBuild) -> (r: Result<SaveBuildResult>)
        requires
            old(self).wf(),
        ensures
            final(self).wf(),
            exists|now_ms: i64|
                readable(now_ms) && #[trigger] save_build_step(
                    old(self)@,
                    build,
                    now_ms,
                    final(self)@,
                    r,
                ),
            r is Ok <==> missing_of(old(self)@.items, build.items@).len() > 0 || old(self)@.clock
                < i64::MAX,
            r matches Ok(SaveBuildResult::Missing { .. }) <==> missing_of(
                old(self)@.items,
                build.items@,
            ).len() > 0,
    {
        let now_ms = now_millis();
        proof {
            lemma_key_is_left(self@.clock, now_ms);
        }
        self.save_build_at(build, now_ms)
    }

    /// Records what a build job left behind.
    pub fn save_build_result(&mut self, b: BuildResult) -> (r: Result<()>)
        requires
            old(self).wf(),
        ensures
            final(self).wf(),
            save_build_result_step(old(self)@, b, final(self)@, r),
    {
        let ghost before = self.builds@;
        match self.builds.get(&b.pk) {
            Some(held) => {
                if held.exit_code.is_some() {
                    return Err(Error::Finalized);
                }
            },
            None => return Err(Error::NoRows),
        }
        let row = match self.builds.remove(&b.pk) {
            Some(row) => row,
            None => {
                assert(self.builds@ =~= before);
                return Err(Error::NoRows);
            },
        };
        let done = BuildRow {
            name: row.name,
            items: row.items,
            exit_code: Some(b.exit_code),
            output: Some(b.output),
            fragment: b.fragment,
        };
        self.builds.insert(b.pk, done);
        proof {
            assert(self.builds@ =~= before.insert(b.pk, done));
            lemma_save_build_result_keeps(old(self)@, b, self@, Ok(()));
        }
        Ok(())
    }

    /// Begins a publish at the moment `now_ms`: includes every build that has
    /// left a fragment and hands out those fragments.
    pub fn new_publish_at(&mut self, now_ms: i64) -> (r: Result<NewPublish>)
        requires
            old(self).wf(),
        ensures
            final(self).wf(),
            new_publish_step(old(self)@, now_ms, final(self)@, r),
    {
        let key = match next_pk(self.clock, now_ms) {
            Some(k) => k,
            None => return Err(Error::KeysExhausted),
        };
        let keys = keys_of(&self.builds);
        let mut fragments: Vec<NewPublishFragment> = Vec::new();
        let mut linked: Vec<i64> = Vec::new();
        let mut i: usize = 0;
        while i < keys.len()
            invariant
                i <= keys@.len(),
                forall|k: i64| keys@.contains(k) <==> self.builds@.contains_key(k),
                forall|a: int, b: int| 0 <= a < b < keys@.len() ==> keys@[a] < keys@[b],
                linked@ == fragment_builds(fragments@),
                forall|a: int, b: int|
                    0 <= a < b < fragments@.len() ==> fragments@[a].build < fragments@[b].build,
                forall|j: int|
                    0 <= j < fragments@.len() && i < keys@.len() ==> (#[trigger] fragments@[j]).build
                        < keys@[i as int],
                forall|j: int|
                    0 <= j < fragments@.len() ==> ready(
                        self.builds@,
                        (#[trigger] fragments@[j]).build,
                    ) && fragments@[j].fragment@ == self.builds@[fragments@[j].build].fragment@,
                forall|a: int|
                    0 <= a < i && ready(self.builds@, #[trigger] keys@[a]) ==> linked@.contains(
                        keys@[a],
                    ),
            decreases keys@.len() - i,
        {
            let k = keys[i];
            assert(keys@.contains(k));
            let ghost frags_before = fragments@;
            let ghost linked_before = linked@;
            match self.builds.get(&k) {
                Some(row) => {
                    if row.fragment.len() > 0 {
                        fragments.push(
                            NewPublishFragment { build: k, fragment: copy_bytes(&row.fragment) },
                        );
                        linked.push(k);
                        proof {
                            assert(linked@ =~= fragment_builds(fragments@));
                            assert(linked@[linked_before.len() as int] == k);
                            assert forall|j: int| 0 <= j < frags_before.len() implies fragments@[j]
                                == frags_before[j] by {}
                        }
                    }
                },
                None => {},
            }
            proof {
                assert forall|a: int|
                    0 <= a < i + 1 && ready(self.builds@, #[trigger] keys@[a]) implies linked@.contains(
                    keys@[a],
                ) by {
                    if a < i {
                        let j = choose|j: int|
                            0 <= j < linked_before.len() && linked_before[j] == keys@[a];
                        assert(linked@[j] == keys@[a]);
                    } else {
                        assert(linked@[linked_before.len() as int] == k);
                    }
                }
                assert forall|j: int|
                    0 <= j < fragments@.len() && i + 1 < keys@.len() implies (
                #[trigger] fragments@[j]).build < keys@[i + 1] by {
                    if j < frags_before.len() {
                        assert(frags_before[j].build < keys@[i as int]);
                    }
                }
            }
            i += 1;
        }
        let ghost before = self.publishes@;
        self.publishes.insert(
            key,
            PublishRow { builds: linked, exit_code: None, output: None, public_url: String::new() },
        );
        self.clock = key;
        let begun = NewPublish { pk: key, fragments };
        proof {
            assert(self.publishes@ =~= before.insert(key, self.publishes@[key]));
            assert forall|b: i64| #[trigger] ready(old(self)@.builds, b) implies fragment_builds(
                begun.fragments@,
            ).contains(b) by {
                assert(keys@.contains(b));
                let a = choose|a: int| 0 <= a < keys@.len() && keys@[a] == b;
                assert(ready(self.builds@, keys@[a]));
            }
            lemma_new_publish_keeps(old(self)@, now_ms, self@, Ok(begun));
        }
        Ok(begun)
    }

    /// Begins a publish now.
    pub fn new_publish(&mut self) -> (r: Result<NewPublish>)
        requires
            old(self).wf(),
        ensures
            final(self).wf(),
            exists|now_ms: i64|
                readable(now_ms) && #[trigger] new_publish_step(
                    old(self)@,
                    now_ms,
                    final(self)@,
                    r,
                ),
            r is Ok <==> old(self)@.clock < i64::MAX,
    {
        let now_ms = now_millis();
        proof {
            lemma_key_is_left(self@.clock, now_ms);
        }
        self.new_publish_at(now_ms)
    }

    /// Records what a publish job left behind.
    pub fn save_publish_result(&mut self, p: PublishResult) -> (r: Result<()>)
        requires
            old(self).wf(),
        ensures
            final(self).wf(),
            save_publish_result_step(old(self)@, p, final(self)@, r),
    {
        let ghost before = self.publishes@;
        match self.publishes.get(&p.pk) {
            Some(held) => {
                if held.exit_code.is_some() {
                    return Err(Error::Finalized);
                }
            },
            None => return Err(Error::NoRows),
        }
        let row = match self.publishes.remove(&p.pk) {
            Some(row) => row,
            None => {
                assert(self.publishes@ =~= before);
                return Err(Error::NoRows);
            },
        };
        let done = PublishRow {
            builds: row.builds,
            exit_code: Some(p.exit_code),
            output: Some(p.output),
            public_url: p.public_url,
        };
        self.publishes.insert(p.pk, done);
        proof {
            assert(self.publishes@ =~= before.insert(p.pk, done));
            lemma_save_publish_result_keeps(old(self)@, p, self@, Ok(()));
        }
        Ok(())
    }

    /// The publish under `pk` as it is shown, if the store knows it.
    pub fn get_publish(&self, pk: i64) -> (r: Option<Publish>)
        ensures
            publish_answer(self@, pk, r),
    {
        match self.publishes.get(&pk) {
            Some(row) => Some(
                Publish { pk, public_url: row.public_url.clone(), exit_code: row.exit_code },
            ),
            None => None,
        }
    }
}

/// A build is created whole or not at all: either nothing changes and the
/// items reported missing are wanted items without a file, at least one of
/// them; or every wanted item has a file and the build stands under a key
/// that was not in use.
pub proof fn lemma_save_build_all_or_nothing(
    pre: State,
    build: SaveBuild,
    now_ms: i64,
    post: State,
    r: Result<SaveBuildResult>,
)
    requires
        valid(pre),
        save_build_step(pre, build, now_ms, post, r),
    ensures
        match r {
            Ok(SaveBuildResult::Missing { missing }) => {
                &&& post == pre
                &&& missing@.len() > 0
                &&& forall|j: int|
                    0 <= j < missing@.len() ==> build.items@.contains(#[trigger] missing@[j])
                        && !has_file(pre.items, missing@[j])
                &&& forall|i: int|
                    0 <= i < build.items@.len() && !has_file(pre.items, #[trigger] build.items@[i])
                        ==> missing@.contains(build.items@[i])
            },
            Ok(SaveBuildResult::Inserted { pk }) => {
                &&& forall|i: int|
                    0 <= i < build.items@.len() ==> has_file(pre.items, #[trigger] build.items@[i])
                &&& !pre.builds.contains_key(pk)
                &&& post.builds.contains_key(pk)
                &&& post.builds[pk].items == build.items
                &&& post.builds.remove(pk) == pre.builds
                &&& post.items == pre.items
            },
            Err(_) => post == pre,
        },
{
    lemma_missing(pre.items, build.items@);
    if missing_of(pre.items, build.items@).len() == 0 && next_key(pre.clock, now_ms) is Some {
        let key = next_key(pre.clock, now_ms)->0;
        assert(!pre.builds.contains_key(key));
        assert(post.builds.remove(key) =~= pre.builds);
    }
}

/// A build of no items is accepted while the clock can issue a key, and a
/// build that wants an item without a file is answered with the missing
/// items.
pub proof fn lemma_save_build_boundaries(
    pre: State,
    build: SaveBuild,
    now_ms: i64,
    post: State,
    r: Result<SaveBuildResult>,
)
    requires
        valid(pre),
        save_build_step(pre, build, now_ms, post, r),
    ensures
        build.items@.len() == 0 && next_key(pre.clock, now_ms) is Some ==> r matches Ok(
            SaveBuildResult::Inserted { .. },
        ),
        (exists|i: int| 0 <= i < build.items@.len() && !has_file(pre.items, build.items@[i]))
            ==> r matches Ok(SaveBuildResult::Missing { .. }),
{
    lemma_missing(pre.items, build.items@);
}

/// An item has a file exactly when a file row stands under the key that the
/// item names.
pub proof fn lemma_file_attached(s: State, k: i64)
    requires
        valid(s),
        s.items.contains_key(k),
    ensures
        s.items[k].file is Some <==> exists|f: i64|
            s.files.contains_key(f) && s.items[k].file == Some(f),
{
    if s.items[k].file is Some {
        assert(has_file(s.items, k));
        assert(s.files.contains_key(s.items[k].file->0));
    }
}

/// A tag stands on one file row only, so two items whose files carry the
/// same tag share one file.
pub proof fn lemma_one_file_per_tag(s: State, a: i64, b: i64)
    requires
        valid(s),
        has_file(s.items, a),
        has_file(s.items, b),
        s.files[s.items[a].file->0].etag@ == s.files[s.items[b].file->0].etag@,
    ensures
        s.items[a].file == s.items[b].file,
{
    let fa = s.items[a].file->0;
    let fb = s.items[b].file->0;
    assert(s.files.contains_key(fa) && s.files.contains_key(fb));
}

/// A publish includes exactly the builds that had left a fragment at the
/// moment it began.
pub proof fn lemma_publish_includes_ready(pre: State, now_ms: i64, post: State, r: Result<NewPublish>)
    requires
        valid(pre),
        new_publish_step(pre, now_ms, post, r),
        r is Ok,
    ensures
        post.publishes.contains_key(r->Ok_0.pk),
        forall|b: i64|
            post.publishes[r->Ok_0.pk].builds@.contains(b) <==> #[trigger] ready(pre.builds, b),
        post.publishes[r->Ok_0.pk].builds@.no_duplicates(),
{
    let begun = r->Ok_0;
    let linked = post.publishes[begun.pk].builds@;
    assert forall|b: i64| linked.contains(b) implies #[trigger] ready(pre.builds, b) by {
        let i = choose|i: int| 0 <= i < linked.len() && linked[i] == b;
        assert(begun.fragments@[i].build == b);
    }
    assert forall|i: int, j: int| 0 <= i < linked.len() && 0 <= j < linked.len() && i != j implies linked[i]
        != linked[j] by {
        if i < j {
            assert(begun.fragments@[i].build < begun.fragments@[j].build);
        } else {
            assert(begun.fragments@[j].build < begun.fragments@[i].build);
        }
    }
}

/// After a file was attached to an item, reading the item's file yields the
/// bytes that were attached.
///
/// This is stated for files whose tag is new to the store, or known for the
/// same bytes: a tag that the store knows stays with the bytes it first came
/// with.
pub proof fn lemma_saved_file_is_read(
    pre: State,
    item: i64,
    file: DownloadedFile,
    now_ms: i64,
    post: State,
    r: Result<i64>,
)
    requires
        valid(pre),
        save_file_step(pre, item, file, now_ms, post, r),
        r is Ok,
        forall|f: i64| #[trigger]
            pre.files.contains_key(f) && pre.files[f].etag@ == file.etag@ ==> pre.files[f].data@
                == file.data@,
    ensures
        item_file(post, item) == Some(file.data@),
{
    let file_pk = r->Ok_0;
    assert(post.items.contains_key(item));
    if pre.files.contains_key(file_pk) {
        assert(pre.files[file_pk].data@ == file.data@);
    }
}

/// Remembering the same item twice gives the same key both times, and the
/// second time nothing is inserted: the item takes the title and authors of
/// the second request and keeps its id, its version and its file.
pub proof fn lemma_upsert_twice(
    s0: State,
    first: NewWorkshopItem,
    t1: i64,
    s1: State,
    r1: Result<(bool, i64)>,
    second: NewWorkshopItem,
    t2: i64,
    s2: State,
    r2: Result<(bool, i64)>,
)
    requires
        valid(s0),
        upsert_step(s0, first, t1, s1, r1),
        upsert_step(s1, second, t2, s2, r2),
        r1 is Ok,
        r2 is Ok,
        first.workshopid@ == second.workshopid@,
        first.version == second.version,
    ensures
        r2->Ok_0.1 == r1->Ok_0.1,
        !r2->Ok_0.0,
        s2.items.contains_key(r1->Ok_0.1),
        s2.items[r1->Ok_0.1].title == second.title,
        s2.items[r1->Ok_0.1].authors == second.authors,
        s2.items[r1->Ok_0.1].workshopid@ == first.workshopid@,
        s2.items[r1->Ok_0.1].version == first.version,
        s2.items[r1->Ok_0.1].file == s1.items[r1->Ok_0.1].file,
        s2.items.dom() == s1.items.dom(),
{
    lemma_upsert_keeps(s0, first, t1, s1, r1);
    let pk1 = r1->Ok_0.1;
    let pk2 = r2->Ok_0.1;
    assert(s1.items.contains_key(pk1));
    assert(is_item(s1.items[pk1], second.workshopid@, second.version));
    if r2->Ok_0.0 {
        assert(false);
    }
    assert(s1.items.contains_key(pk2) && s1.items.contains_key(pk1));
    assert(pk2 == pk1);
    assert(s2.items.dom() =~= s1.items.dom());
}

/// What is asked of the owner of the store.
#[derive(Debug)]
#[allow(inconsistent_fields)]
pub enum Query {
    SaveFile { item: i64, file: DownloadedFile },
    SaveContentPackage { file_pk: i64, p: ContentPackage },
    WorkshopItemByPk { pk: i64 },
    WorkshopItems { w: WorkshopId },
    WorkshopItemFile { pk: i64 },
    BuildFragment { pk: i64 },
    UpsertWorkshopItem { item: NewWorkshopItem },
    BuildItemFiles { pk: i64 },
    GetBuild { pk: i64 },
    SaveBuild { build: SaveBuild },
    SaveBuildResult { b: BuildResult },
    NewPublish,
    SavePublishResult { p: PublishResult },
    GetPublish { pk: i64 },
}

/// What the owner of the store answers.
#[derive(Debug)]
pub enum Reply {
    SaveFile(Result<i64>),
    SaveContentPackage(Result<i64>),
    WorkshopItemByPk(Result<Option<WorkshopItem>>),
    WorkshopItems(Result<Vec<WorkshopItem>>),
    WorkshopItemFile(Result<Option<Vec<u8>>>),
    BuildFragment(Result<Option<Vec<u8>>>),
    UpsertWorkshopItem(Result<(bool, i64)>),
    BuildItemFiles(Result<BuildItemFiles>),
    GetBuild(Result<Option<Build>>),
    SaveBuild(Result<SaveBuildResult>),
    SaveBuildResult(Result<()>),
    NewPublish(Result<NewPublish>),
    SavePublishResult(Result<()>),
    GetPublish(Result<Option<Publish>>),
}

/// Whether `reply` answers `q` as a request made of the store `pre` at the
/// moment `now_ms`, leaving the store as `post`: each request is answered in
/// its own kind, a request that changes the store by the step of its name,
/// and a request that only reads leaves the store as it was.
pub open spec fn answers(pre: State, q: Query, now_ms: i64, post: State, reply: Reply) -> bool {
    match q {
        Query::SaveFile { item, file } => {
            &&& reply matches Reply::SaveFile(r)
            &&& save_file_step(pre, item, file, now_ms, post, r)
        },
        Query::SaveContentPackage { file_pk, p } => {
            &&& reply matches Reply::SaveContentPackage(r)
            &&& save_package_step(pre, file_pk, p, post, r)
        },
        Query::UpsertWorkshopItem { item } => {
            &&& reply matches Reply::UpsertWorkshopItem(r)
            &&& upsert_step(pre, item, now_ms, post, r)
        },
        Query::SaveBuild { build } => {
            &&& reply matches Reply::SaveBuild(r)
            &&& save_build_step(pre, build, now_ms, post, r)
        },
        Query::SaveBuildResult { b } => {
            &&& reply matches Reply::SaveBuildResult(r)
            &&& save_build_result_step(pre, b, post, r)
        },
        Query::NewPublish => {
            &&& reply matches Reply::NewPublish(r)
            &&& new_publish_step(pre, now_ms, post, r)
        },
        Query::SavePublishResult { p } => {
            &&& reply matches Reply::SavePublishResult(r)
            &&& save_publish_result_step(pre, p, post, r)
        },
        Query::WorkshopItemByPk { pk } => {
            &&& post == pre
            &&& reply matches Reply::WorkshopItemByPk(Ok(r))
            &&& item_answer(pre, pk, r)
        },
        Query::WorkshopItems { w } => {
            &&& post == pre
            &&& reply matches Reply::WorkshopItems(Ok(r))
            &&& items_answer(pre, w@, r@)
        },
        Query::WorkshopItemFile { pk } => {
            &&& post == pre
            &&& reply matches Reply::WorkshopItemFile(Ok(r))
            &&& file_answer(pre, pk, r)
        },
        Query::BuildFragment { pk } => {
            &&& post == pre
            &&& reply matches Reply::BuildFragment(Ok(r))
            &&& fragment_answer(pre, pk, r)
        },
        Query::BuildItemFiles { pk } => {
            &&& post == pre
            &&& reply matches Reply::BuildItemFiles(Ok(r))
            &&& item_files_answer(pre, pk, r)
        },
        Query::GetBuild { pk } => {
            &&& post == pre
            &&& reply matches Reply::GetBuild(Ok(r))
            &&& build_answer(pre, pk, r)
        },
        Query::GetPublish { pk } => {
            &&& post == pre
            &&& reply matches Reply::GetPublish(Ok(r))
            &&& publish_answer(pre, pk, r)
        },
    }
}

/// The store as the request at place `i` of a run finds it: as the run began
/// for the first request, and as the request before left it for every other.
pub open spec fn state_before(pre: State, states: Seq<State>, i: int) -> State {
    if i == 0 {
        pre
    } else {
        states[i - 1]
    }
}

/// Whether a clock can read each of the moments.
pub open spec fn all_readable(times: Seq<i64>) -> bool {
    forall|i: int| 0 <= i < times.len() ==> readable(#[trigger] times[i])
}

/// The store as a run leaves it.
pub open spec fn last_state(pre: State, states: Seq<State>) -> State {
    state_before(pre, states, states.len() as int)
}

/// Whether `replies` answer the requests `qs` one after the other, the
/// request at place `i` at the moment `times[i]`, leaving the store as
/// `states[i]`, for the next request to find.
pub open spec fn served(
    pre: State,
    qs: Seq<Query>,
    times: Seq<i64>,
    states: Seq<State>,
    replies: Seq<Reply>,
) -> bool {
    &&& times.len() == qs.len()
    &&& states.len() == qs.len()
    &&& replies.len() == qs.len()
    &&& forall|i: int|
        0 <= i < qs.len() ==> answers(
            #[trigger] state_before(pre, states, i),
            qs[i],
            times[i],
            states[i],
            replies[i],
        )
}

/// Every answer leaves the store in order, and the clock never runs back.
pub proof fn lemma_answers_keep(pre: State, q: Query, now_ms: i64, post: State, reply: Reply)
    requires
        valid(pre),
        answers(pre, q, now_ms, post, reply),
    ensures
        valid(post),
        pre.clock <= post.clock,
{
    match q {
        Query::SaveFile { item, file } => {
            lemma_save_file_keeps(pre, item, file, now_ms, post, reply->SaveFile_0);
        },
        Query::SaveContentPackage { file_pk, p } => {
            lemma_save_package_keeps(pre, file_pk, p, post, reply->SaveContentPackage_0);
        },
        Query::UpsertWorkshopItem { item } => {
            lemma_upsert_keeps(pre, item, now_ms, post, reply->UpsertWorkshopItem_0);
        },
        Query::SaveBuild { build } => {
            lemma_save_build_keeps(pre, build, now_ms, post, reply->SaveBuild_0);
        },
        Query::SaveBuildResult { b } => {
            lemma_save_build_result_keeps(pre, b, post, reply->SaveBuildResult_0);
        },
        Query::NewPublish => {
            lemma_new_publish_keeps(pre, now_ms, post, reply->NewPublish_0);
        },
        Query::SavePublishResult { p } => {
            lemma_save_publish_result_keeps(pre, p, post, reply->SavePublishResult_0);
        },
        _ => {},
    }
}

impl Daemon {
    /// Answers one request at the moment `now_ms`.
    pub fn dispatch_at(&mut self, q: Query, now_ms: i64) -> (reply: Reply)
        requires
            old(self).wf(),
        ensures
            final(self).wf(),
            answers(old(self)@, q, now_ms, final(self)@, reply),
    {
        match q {
            Query::SaveFile { item, file } => Reply::SaveFile(self.save_file_at(item, file, now_ms)),
            Query::SaveContentPackage { file_pk, p } => Reply::SaveContentPackage(
                self.save_content_package(file_pk, p),
            ),
            Query::WorkshopItemByPk { pk } => Reply::WorkshopItemByPk(
                Ok(self.workshop_item_by_pk(pk)),
            ),
            Query::WorkshopItems { w } => Reply::WorkshopItems(Ok(self.workshop_items(&w))),
            Query::WorkshopItemFile { pk } => Reply::WorkshopItemFile(self.workshop_item_file(pk)),
            Query::BuildFragment { pk } => Reply::BuildFragment(Ok(self.build_fragment(pk))),
            Query::UpsertWorkshopItem { item } => Reply::UpsertWorkshopItem(
                self.upsert_workshop_item_at(item, now_ms),
            ),
            Query::BuildItemFiles { pk } => Reply::BuildItemFiles(Ok(self.build_item_files(pk))),
            Query::GetBuild { pk } => Reply::GetBuild(Ok(self.get_build(pk))),
            Query::SaveBuild { build } => Reply::SaveBuild(self.save_build_at(build, now_ms)),
            Query::SaveBuildResult { b } => Reply::SaveBuildResult(self.save_build_result(b)),
            Query::NewPublish => Reply::NewPublish(self.new_publish_at(now_ms)),
            Query::SavePublishResult { p } => Reply::SavePublishResult(self.save_publish_result(p)),
            Query::GetPublish { pk } => Reply::GetPublish(Ok(self.get_publish(pk))),
        }
    }

    /// Answers one request now.
    pub fn dispatch(&mut self, q: Query) -> (reply: Reply)
        requires
            old(self).wf(),
        ensures
            final(self).wf(),
            exists|now_ms: i64|
                readable(now_ms) && #[trigger] answers(
                    old(self)@,
                    q,
                    now_ms,
                    final(self)@,
                    reply,
                ),
    {
        let now_ms = now_millis();
        self.dispatch_at(q, now_ms)
    }

    /// Answers the requests of an inbox one after the other, in the order
    /// in which they came, and gives the answers in that order.
    pub fn run(&mut self, inbox: Vec<Query>) -> (replies: Vec<Reply>)
        requires
            old(self).wf(),
        ensures
            final(self).wf(),
            exists|times: Seq<i64>, states: Seq<State>| #[trigger]
                served(old(self)@, inbox@, times, states, replies@) && all_readable(times)
                    && final(self)@ == last_state(old(self)@, states),
    {
        let mut replies: Vec<Reply> = Vec::new();
        let mut inbox = inbox;
        let ghost all = inbox@;
        let ghost mut times: Seq<i64> = Seq::empty();
        let ghost mut states: Seq<State> = Seq::empty();
        while inbox.len() > 0
            invariant
                self.wf(),
                replies@.len() <= all.len(),
                inbox@ == all.skip(replies@.len() as int),
                served(old(self)@, all.take(replies@.len() as int), times, states, replies@),
                all_readable(times),
                self@ == last_state(old(self)@, states),
            decreases inbox@.len(),
        {
            let ghost n = replies@.len() as int;
            let q = inbox.remove(0);
            let now_ms = now_millis();
            let ghost answered = replies@;
            let reply = self.dispatch_at(q, now_ms);
            replies.push(reply);
            proof {
                assert(q == all[n]);
                assert(inbox@ =~= all.skip(n + 1));
                let later_times = times.push(now_ms);
                let later_states = states.push(self@);
                assert forall|i: int| 0 <= i < n + 1 implies answers(
                    #[trigger] state_before(old(self)@, later_states, i),
                    all.take(n + 1)[i],
                    later_times[i],
                    later_states[i],
                    replies@[i],
                ) by {
                    if i < n {
                        assert(state_before(old(self)@, later_states, i) == state_before(
                            old(self)@,
                            states,
                            i,
                        ));
                        assert(all.take(n + 1)[i] == all.take(n)[i]);
                        assert(replies@[i] == answered[i]);
                    }
                }
                times = later_times;
                states = later_states;
            }
        }
        proof {
            assert(all.take(replies@.len() as int) =~= all);
        }
        replies
    }
}

/// The later of the clock and a key.
pub open spec fn later(clock: i64, pk: i64) -> i64 {
    if pk > clock {
        pk
    } else {
        clock
    }
}

/// The step that takes in a file row that was kept elsewhere: the key and the
/// tag must be new. The clock moves on to the key where it is behind it.
pub open spec fn load_file_step(pre: State, pk: i64, row: FileRow, post: State, r: Result<()>) -> bool {
    if pre.files.contains_key(pk) || exists|f: i64|
        pre.files.contains_key(f) && #[trigger] pre.files[f].etag@ == row.etag@ {
        r == Err::<(), Error>(Error::Unique) && post == pre
    } else {
        r == Ok::<(), Error>(()) && post == State {
            clock: later(pre.clock, pk),
            files: pre.files.insert(pk, row),
            ..pre
        }
    }
}

/// The step that takes in an item row that was kept elsewhere: the key and
/// the item's id in its version must be new, and the file that the item names
/// must be there.
pub open spec fn load_item_step(pre: State, pk: i64, row: ItemRow, post: State, r: Result<()>) -> bool {
    if pre.items.contains_key(pk) || exists|k: i64| #[trigger]
        pre.items.contains_key(k) && is_item(pre.items[k], row.workshopid@, row.version) {
        r == Err::<(), Error>(Error::Unique) && post == pre
    } else if row.file is Some && !pre.files.contains_key(row.file->0) {
        r == Err::<(), Error>(Error::ForeignKey) && post == pre
    } else {
        r == Ok::<(), Error>(()) && post == State {
            clock: later(pre.clock, pk),
            items: pre.items.insert(pk, row),
            ..pre
        }
    }
}

/// The step that takes in a content package that was kept elsewhere: its
/// file must be there and have none yet.
pub open spec fn load_package_step(pre: State, pk: i64, row: PackageRow, post: State, r: Result<()>) -> bool {
    if pre.packages.contains_key(pk) {
        r == Err::<(), Error>(Error::Unique) && post == pre
    } else if !pre.files.contains_key(pk) {
        r == Err::<(), Error>(Error::ForeignKey) && post == pre
    } else {
        r == Ok::<(), Error>(()) && post == State {
            packages: pre.packages.insert(pk, row),
            ..pre
        }
    }
}

/// The step that takes in a build row that was kept elsewhere: the key must
/// be new and every item must have a file.
pub open spec fn load_build_step(pre: State, pk: i64, row: BuildRow, post: State, r: Result<()>) -> bool {
    if pre.builds.contains_key(pk) {
        r == Err::<(), Error>(Error::Unique) && post == pre
    } else if missing_of(pre.items, row.items@).len() > 0 {
        r == Err::<(), Error>(Error::ForeignKey) && post == pre
    } else {
        r == Ok::<(), Error>(()) && post == State {
            clock: later(pre.clock, pk),
            builds: pre.builds.insert(pk, row),
            ..pre
        }
    }
}

/// The step that takes in a publish row that was kept elsewhere: the key must
/// be new and every build must be there.
pub open spec fn load_publish_step(pre: State, pk: i64, row: PublishRow, post: State, r: Result<()>) -> bool {
    if pre.publishes.contains_key(pk) {
        r == Err::<(), Error>(Error::Unique) && post == pre
    } else if exists|i: int|
        0 <= i < row.builds@.len() && !pre.builds.contains_key(#[trigger] row.builds@[i]) {
        r == Err::<(), Error>(Error::ForeignKey) && post == pre
    } else {
        r == Ok::<(), Error>(()) && post == State {
            clock: later(pre.clock, pk),
            publishes: pre.publishes.insert(pk, row),
            ..pre
        }
    }
}

/// Taking in rows that were kept elsewhere keeps the store in order.
pub proof fn lemma_load_keeps(pre: State, post: State)
    requires
        valid(pre),
        (exists|pk: i64, row: FileRow, r: Result<()>| load_file_step(pre, pk, row, post, r)) || (
        exists|pk: i64, row: ItemRow, r: Result<()>| load_item_step(pre, pk, row, post, r)) || (
        exists|pk: i64, row: PackageRow, r: Result<()>| load_package_step(pre, pk, row, post, r))
            || (exists|pk: i64, row: BuildRow, r: Result<()>|
            load_build_step(pre, pk, row, post, r)) || (exists|
            pk: i64,
            row: PublishRow,
            r: Result<()>,
        | load_publish_step(pre, pk, row, post, r)),
    ensures
        valid(post),
        pre.clock <= post.clock,
{
    if exists|pk: i64, row: FileRow, r: Result<()>| load_file_step(pre, pk, row, post, r) {
        let (pk, row, r) = choose|pk: i64, row: FileRow, r: Result<()>|
            load_file_step(pre, pk, row, post, r);
        if r is Ok {
            assert(files_attached(post)) by {
                assert forall|k: i64| #[trigger] has_file(post.items, k) implies post.files.contains_key(
                    post.items[k].file->0,
                ) by {
                    assert(has_file(pre.items, k));
                }
            }
            assert(packages_attached(post)) by {
                assert forall|k: i64| post.packages.contains_key(k) implies post.files.contains_key(
                    k,
                ) by {
                    assert(pre.packages.contains_key(k));
                }
            }
            assert(builds_complete(post));
            assert(publishes_linked(post));
            assert(files_distinct(post.files)) by {
                assert forall|a: i64, b: i64|
                    post.files.contains_key(a) && post.files.contains_key(b) && post.files[a].etag@
                        == post.files[b].etag@ implies a == b by {
                    if a != b {
                        if a == pk {
                            assert(pre.files.contains_key(b));
                        } else if b == pk {
                            assert(pre.files.contains_key(a));
                        } else {
                            assert(pre.files.contains_key(a) && pre.files.contains_key(b));
                        }
                    }
                }
            }
        }
    } else if exists|pk: i64, row: ItemRow, r: Result<()>| load_item_step(pre, pk, row, post, r) {
        let (pk, row, r) = choose|pk: i64, row: ItemRow, r: Result<()>|
            load_item_step(pre, pk, row, post, r);
        if r is Ok {
            assert forall|k: i64| has_file(pre.items, k) implies has_file(post.items, k) by {}
            assert(files_attached(post)) by {
                assert forall|k: i64| #[trigger] has_file(post.items, k) implies post.files.contains_key(
                    post.items[k].file->0,
                ) by {
                    if k != pk {
                        assert(has_file(pre.items, k));
                    }
                }
            }
            assert(builds_complete(post)) by {
                assert forall|b: i64, i: int|
                    post.builds.contains_key(b) && 0 <= i < post.builds[b].items@.len()
                        implies has_file(post.items, #[trigger] post.builds[b].items@[i]) by {
                    assert(has_file(pre.items, pre.builds[b].items@[i]));
                }
            }
            assert(items_distinct(post.items)) by {
                assert forall|a: i64, b: i64|
                    post.items.contains_key(a) && post.items.contains_key(b)
                        && post.items[a].workshopid@ == post.items[b].workshopid@
                        && post.items[a].version == post.items[b].version implies a == b by {
                    if a != b {
                        if a == pk {
                            assert(pre.items.contains_key(b));
                        } else if b == pk {
                            assert(pre.items.contains_key(a));
                        } else {
                            assert(pre.items.contains_key(a) && pre.items.contains_key(b));
                        }
                    }
                }
            }
            assert(packages_attached(post)) by {
                assert(post.packages == pre.packages);
                assert(post.files == pre.files);
            }
            assert(publishes_linked(post));
        }
    } else if exists|pk: i64, row: PackageRow, r: Result<()>|
        load_package_step(pre, pk, row, post, r) {
        let (pk, row, r) = choose|pk: i64, row: PackageRow, r: Result<()>|
            load_package_step(pre, pk, row, post, r);
        if r is Ok {
            assert(packages_attached(post)) by {
                assert forall|k: i64| post.packages.contains_key(k) implies post.files.contains_key(
                    k,
                ) by {
                    if k != pk {
                        assert(pre.packages.contains_key(k));
                    }
                }
            }
            assert(files_attached(post));
            assert(builds_complete(post));
            assert(publishes_linked(post));
        }
    } else if exists|pk: i64, row: BuildRow, r: Result<()>| load_build_step(pre, pk, row, post, r) {
        let (pk, row, r) = choose|pk: i64, row: BuildRow, r: Result<()>|
            load_build_step(pre, pk, row, post, r);
        if r is Ok {
            lemma_missing(pre.items, row.items@);
            assert(builds_complete(post)) by {
                assert forall|b: i64, i: int|
                    post.builds.contains_key(b) && 0 <= i < post.builds[b].items@.len()
                        implies has_file(post.items, #[trigger] post.builds[b].items@[i]) by {
                    if b != pk {
                        assert(has_file(pre.items, pre.builds[b].items@[i]));
                    } else {
                        assert(has_file(pre.items, row.items@[i]));
                    }
                }
            }
            assert(publishes_linked(post)) by {
                assert forall|p: i64, i: int|
                    post.publishes.contains_key(p) && 0 <= i < post.publishes[p].builds@.len()
                        implies post.builds.contains_key(#[trigger] post.publishes[p].builds@[i]) by {
                    assert(pre.builds.contains_key(pre.publishes[p].builds@[i]));
                }
            }
            assert(files_attached(post));
            assert(packages_attached(post)) by {
                assert(post.packages == pre.packages);
                assert(post.files == pre.files);
            }
        }
    } else {
        let (pk, row, r) = choose|pk: i64, row: PublishRow, r: Result<()>|
            load_publish_step(pre, pk, row, post, r);
        if r is Ok {
            assert(publishes_linked(post)) by {
                assert forall|p: i64, i: int|
                    post.publishes.contains_key(p) && 0 <= i < post.publishes[p].builds@.len()
                        implies post.builds.contains_key(#[trigger] post.publishes[p].builds@[i]) by {
                    if p != pk {
                        assert(pre.builds.contains_key(pre.publishes[p].builds@[i]));
                    } else {
                        assert(pre.builds.contains_key(row.builds@[i]));
                    }
                }
            }
            assert(builds_complete(post));
            assert(files_attached(post));
            assert(packages_attached(post)) by {
                assert(post.packages == pre.packages);
                assert(post.files == pre.files);
            }
        }
    }
}

impl Daemon {
    fn later_clock(&self, pk: i64) -> (c: i64)
        ensures
            c == later(self.clock, pk),
    {
        if pk > self.clock {
            pk
        } else {
            self.clock
        }
    }

    /// Takes in a file row that was kept elsewhere.
    pub fn load_file(&mut self, pk: i64, row: FileRow) -> (r: Result<()>)
        requires
            old(self).wf(),
        ensures
            final(self).wf(),
            load_file_step(old(self)@, pk, row, final(self)@, r),
    {
        if self.files.contains_key(&pk) {
            return Err(Error::Unique);
        }
        match self.find_file(&row.etag) {
            Some(f) => {
                assert(self.files@.contains_key(f) && self.files@[f].etag@ == row.etag@);
                return Err(Error::Unique);
            },
            None => {},
        }
        self.clock = self.later_clock(pk);
        self.files.insert(pk, row);
        proof {
            assert(load_file_step(old(self)@, pk, row, self@, Ok(())));
            lemma_load_keeps(old(self)@, self@);
        }
        Ok(())
    }

    /// Takes in an item row that was kept elsewhere.
    pub fn load_item(&mut self, pk: i64, row: ItemRow) -> (r: Result<()>)
        requires
            old(self).wf(),
        ensures
            final(self).wf(),
            load_item_step(old(self)@, pk, row, final(self)@, r),
    {
        if self.items.contains_key(&pk) {
            return Err(Error::Unique);
        }
        match self.find_item(&row.workshopid, row.version) {
            Some(k) => {
                assert(self.items@.contains_key(k) && is_item(
                    self.items@[k],
                    row.workshopid@,
                    row.version,
                ));
                return Err(Error::Unique);
            },
            None => {},
        }
        match row.file {
            Some(f) => {
                if !self.files.contains_key(&f) {
                    return Err(Error::ForeignKey);
                }
            },
            None => {},
        }
        self.clock = self.later_clock(pk);
        self.items.insert(pk, row);
        proof {
            assert(load_item_step(old(self)@, pk, row, self@, Ok(())));
            lemma_load_keeps(old(self)@, self@);
        }
        Ok(())
    }

    /// Takes in a content package that was kept elsewhere.
    pub fn load_package(&mut self, pk: i64, row: PackageRow) -> (r: Result<()>)
        requires
            old(self).wf(),
        ensures
            final(self).wf(),
            load_package_step(old(self)@, pk, row, final(self)@, r),
    {
        if self.packages.contains_key(&pk) {
            return Err(Error::Unique);
        }
        if !self.files.contains_key(&pk) {
            return Err(Error::ForeignKey);
        }
        self.packages.insert(pk, row);
        proof {
            assert(load_package_step(old(self)@, pk, row, self@, Ok(())));
            lemma_load_keeps(old(self)@, self@);
        }
        Ok(())
    }

    /// Takes in a build row that was kept elsewhere.
    pub fn load_build(&mut self, pk: i64, row: BuildRow) -> (r: Result<()>)
        requires
            old(self).wf(),
        ensures
            final(self).wf(),
            load_build_step(old(self)@, pk, row, final(self)@, r),
    {
        if self.builds.contains_key(&pk) {
            return Err(Error::Unique);
        }
        if self.missing(&row.items).len() > 0 {
            return Err(Error::ForeignKey);
        }
        self.clock = self.later_clock(pk);
        self.builds.insert(pk, row);
        proof {
            assert(load_build_step(old(self)@, pk, row, self@, Ok(())));
            lemma_load_keeps(old(self)@, self@);
        }
        Ok(())
    }

    /// Takes in a publish row that was kept elsewhere.
    pub fn load_publish(&mut self, pk: i64, row: PublishRow) -> (r: Result<()>)
        requires
            old(self).wf(),
        ensures
            final(self).wf(),
            load_publish_step(old(self)@, pk, row, final(self)@, r),
    {
        if self.publishes.contains_key(&pk) {
            return Err(Error::Unique);
        }
        let mut i: usize = 0;
        while i < row.builds.len()
            invariant
                i <= row.builds@.len(),
                *self == *old(self),
                self.wf(),
                !self.publishes@.contains_key(pk),
                forall|j: int| 0 <= j < i ==> self.builds@.contains_key(#[trigger] row.builds@[j]),
            decreases row.builds@.len() - i,
        {
            if !self.builds.contains_key(&row.builds[i]) {
                assert(!self@.builds.contains_key(row.builds@[i as int]));
                return Err(Error::ForeignKey);
            }
            i += 1;
        }
        self.clock = self.later_clock(pk);
        self.publishes.insert(pk, row);
        proof {
            assert(load_publish_step(old(self)@, pk, row, self@, Ok(())));
            lemma_load_keeps(old(self)@, self@);
        }
        Ok(())
    }

    /// The item row under `pk`, as it is kept.
    pub fn item_row(&self, pk: i64) -> (r: Option<&ItemRow>)
        ensures
            r is Some <==> self@.items.contains_key(pk),
            r matches Some(row) ==> *row == self@.items[pk],
    {
        self.items.get(&pk)
    }

    /// The file row under `pk`, as it is kept.
    pub fn file_row(&self, pk: i64) -> (r: Option<&FileRow>)
        ensures
            r is Some <==> self@.files.contains_key(pk),
            r matches Some(row) ==> *row == self@.files[pk],
    {
        self.files.get(&pk)
    }

    /// The content package under `pk`, as it is kept.
    pub fn package_row(&self, pk: i64) -> (r: Option<&PackageRow>)
        ensures
            r is Some <==> self@.packages.contains_key(pk),
            r matches Some(row) ==> *row == self@.packages[pk],
    {
        self.packages.get(&pk)
    }

    /// The build row under `pk`, as it is kept.
    pub fn build_row(&self, pk: i64) -> (r: Option<&BuildRow>)
        ensures
            r is Some <==> self@.builds.contains_key(pk),
            r matches Some(row) ==> *row == self@.builds[pk],
    {
        self.builds.get(&pk)
    }

    /// The publish row under `pk`, as it is kept.
    pub fn publish_row(&self, pk: i64) -> (r: Option<&PublishRow>)
        ensures
            r is Some <==> self@.publishes.contains_key(pk),
            r matches Some(row) ==> *row == self@.publishes[pk],
    {
        self.publishes.get(&pk)
    }
}

/// A result is recorded once: after the result of a build was recorded, any
/// further result for that build is refused and changes nothing.
pub proof fn lemma_build_result_once(
    s0: State,
    first: BuildResult,
    s1: State,
    second: BuildResult,
    s2: State,
    r: Result<()>,
)
    requires
        save_build_result_step(s0, first, s1, Ok(())),
        save_build_result_step(s1, second, s2, r),
        second.pk == first.pk,
    ensures
        r == Err::<(), Error>(Error::Finalized),
        s2 == s1,
        s1.builds[first.pk].exit_code == Some(first.exit_code),
        s1.builds[first.pk].output == Some(first.output),
        s1.builds[first.pk].fragment == first.fragment,
        s1.builds[first.pk].name == s0.builds[first.pk].name,
        s1.builds[first.pk].items == s0.builds[first.pk].items,
{
}

/// A result is recorded once: after the result of a publish was recorded,
/// any further result for that publish is refused and changes nothing.
pub proof fn lemma_publish_result_once(
    s0: State,
    first: PublishResult,
    s1: State,
    second: PublishResult,
    s2: State,
    r: Result<()>,
)
    requires
        save_publish_result_step(s0, first, s1, Ok(())),
        save_publish_result_step(s1, second, s2, r),
        second.pk == first.pk,
    ensures
        r == Err::<(), Error>(Error::Finalized),
        s2 == s1,
        s1.publishes[first.pk].exit_code == Some(first.exit_code),
        s1.publishes[first.pk].output == Some(first.output),
        s1.publishes[first.pk].public_url == first.public_url,
        s1.publishes[first.pk].builds == s0.publishes[first.pk].builds,
{
}

} // verus!
