//! The downloader: where an item's archive is asked for, and what is taken
//! from the answer.
use crate::db::DownloadedFile;
use crate::steamweb::BaseUrl;
use crate::text::parse_i64;
use crate::text::parsed_i64;
use crate::types::base64url_decoded;
use crate::types::ETag;
use crate::types::WorkshopId;
use crate::www::BARO_APPID;
use vstd::prelude::*;
use vstd::slice::*;
use vstd::string::*;

verus! {

/// The header that asks the downloader to hold the request while it works.
pub const PREFER: (&'static str, &'static str) = ("prefer", "wait=20");

/// What is left out of every archive.
pub const EXCLUDED: &'static str =
    "?exclude=*.ogg&exclude=*.sub&exclude=*.dll&exclude=*.so&exclude=*.pdb";

/// Where the archive of the item `id` is asked for under `base`.
pub open spec fn download_at(base: Seq<char>, id: Seq<char>) -> Seq<char> {
    base + "download/"@ + BARO_APPID@ + "/"@ + id + ".tar.zstd"@ + EXCLUDED@
}

pub fn download_url(base: &BaseUrl, workshopid: &WorkshopId) -> (url: String)
    ensures
        url@ == download_at(base@, workshopid@),
{
    let mut url = base.as_str().to_owned();
    url.append("download/");
    url.append(BARO_APPID);
    url.append("/");
    url.append(workshopid.as_str());
    url.append(".tar.zstd");
    url.append(EXCLUDED);
    url
}

/// `s` without one double quote at its start and one at its end, where
/// there are such.
pub open spec fn unquoted(s: Seq<u8>) -> Seq<u8> {
    let head = if s.len() > 0 && s[0] == 0x22 {
        s.skip(1)
    } else {
        s
    };
    if head.len() > 0 && head.last() == 0x22 {
        head.drop_last()
    } else {
        head
    }
}

pub fn trim_surrounding_quotes(s: &[u8]) -> (r: &[u8])
    ensures
        r@ == unquoted(s@),
{
    let mut from: usize = 0;
    let mut to: usize = s.len();
    if to > 0 && s[0] == 0x22 {
        from = 1;
    }
    if to > from && s[to - 1] == 0x22 {
        to = to - 1;
    }
    let r = slice_subrange(s, from, to);
    proof {
        let head = if s@.len() > 0 && s@[0] == 0x22 {
            s@.skip(1)
        } else {
            s@
        };
        assert(head =~= s@.subrange(from as int, s@.len() as int));
        assert(r@ =~= unquoted(s@));
    }
    r
}

/// Why the answer of the downloader was not taken.
#[derive(Debug, Clone, Copy, PartialEq, Eq, Structural)]
pub enum DownloadError {
    /// the answer names no tag, or one that is not written in base 64
    ETag,
    /// the answer does not say how large the archive is once unpacked
    UncompressedSize,
}

impl DownloadError {
    pub fn to_string(&self) -> (s: String)
        ensures
            s@ == (match *self {
                DownloadError::ETag => "missing or invalid etag header"@,
                DownloadError::UncompressedSize => "missing or invalid uncompressed-size header"@,
            }),
    {
        match self {
            DownloadError::ETag => String::from_str("missing or invalid etag header"),
            DownloadError::UncompressedSize => String::from_str(
                "missing or invalid uncompressed-size header",
            ),
        }
    }
}

/// The tag that an `ETag` header names: what is written in base 64 between
/// its quotes.
pub open spec fn tag_in(header: Option<Seq<u8>>) -> Option<Seq<u8>> {
    match header {
        Some(value) => base64url_decoded(unquoted(value)),
        None => None,
    }
}

/// The size that an `Uncompressed-Size` header names.
pub open spec fn size_in(header: Option<Seq<char>>) -> Option<i64> {
    match header {
        Some(value) => parsed_i64(value),
        None => None,
    }
}

/// The bytes of an optional list.
pub open spec fn header_bytes(o: Option<Vec<u8>>) -> Option<Seq<u8>> {
    match o {
        Some(v) => Some(v@),
        None => None,
    }
}

/// The text of an optional string.
pub open spec fn header_text(o: Option<String>) -> Option<Seq<char>> {
    match o {
        Some(s) => Some(s@),
        None => None,
    }
}

/// Takes the archive out of an answer of the downloader: the answer must
/// name the archive's tag and its unpacked size; the tag is looked at first.
pub fn downloaded(etag: Option<Vec<u8>>, uncompressed_size: Option<String>, data: Vec<u8>) -> (r:
    Result<DownloadedFile, DownloadError>)
    ensures
        r is Ok <==> tag_in(header_bytes(etag)) is Some && size_in(header_text(uncompressed_size))
            is Some,
        r matches Ok(file) ==> file.etag@ == tag_in(header_bytes(etag))->0 && file.size == size_in(
            header_text(uncompressed_size),
        )->0 && file.data == data,
        r matches Err(e) ==> e == (if tag_in(header_bytes(etag)) is None {
            DownloadError::ETag
        } else {
            DownloadError::UncompressedSize
        }),
{
    let tag = match etag {
        Some(value) => match ETag::from_base64(trim_surrounding_quotes(value.as_slice())) {
            Ok(tag) => tag,
            Err(_) => return Err(DownloadError::ETag),
        },
        None => return Err(DownloadError::ETag),
    };
    let size = match uncompressed_size {
        Some(value) => match parse_i64(value.as_str()) {
            Some(size) => size,
            None => return Err(DownloadError::UncompressedSize),
        },
        None => return Err(DownloadError::UncompressedSize),
    };
    Ok(DownloadedFile { size, etag: tag, data })
}

} // verus!
