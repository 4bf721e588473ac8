//! Identifiers of marketplace items.
use vstd::prelude::*;
use vstd::string::*;

verus! {

/// Whether `c` may stand in a workshop id: an ASCII digit.
pub open spec fn is_id_char(c: char) -> bool {
    '0' <= c <= '9'
}

/// Whether `s` is a workshop id: one or more ASCII digits.
pub open spec fn is_id(s: Seq<char>) -> bool {
    s.len() > 0 && forall|i: int| 0 <= i < s.len() ==> is_id_char(#[trigger] s[i])
}

/// The number of id characters that `s` begins with.
pub open spec fn id_prefix_len(s: Seq<char>) -> nat
    decreases s.len(),
{
    if s.len() > 0 && is_id_char(s[0]) {
        1 + id_prefix_len(s.skip(1))
    } else {
        0
    }
}

/// What is left of `s` once the leading `p` is taken away, where `s` begins
/// with `p`.
pub open spec fn without_prefix(s: Seq<char>, p: Seq<char>) -> Option<Seq<char>> {
    if p.is_prefix_of(s) {
        Some(s.skip(p.len() as int))
    } else {
        None
    }
}

pub fn is_workshopid_char(c: char) -> (r: bool)
    ensures
        r == is_id_char(c),
{
    '0' <= c && c <= '9'
}

pub fn is_workshopid_byte(c: u8) -> (r: bool)
    ensures
        r == (0x30 <= c <= 0x39),
{
    0x30 <= c && c <= 0x39
}

/// The numeric id of an item on the marketplace: a non-empty string of ASCII
/// digits.
#[derive(Debug)]
pub struct WorkshopId(String);

/// A string that was refused as a workshop id.
#[derive(Debug)]
pub struct InvalidWorkshopId(pub String);

/// A workshop id that came as an id or inside the address of an item's page.
#[derive(Debug)]
pub struct WorkshopIdOrUrl(pub WorkshopId);

impl View for WorkshopId {
    type V = Seq<char>;

    closed spec fn view(&self) -> Seq<char> {
        self.0@
    }
}

impl PartialEq for WorkshopId {
    fn eq(&self, other: &Self) -> (r: bool) {
        self.0 == other.0
    }
}

impl Clone for WorkshopId {
    fn clone(&self) -> (r: Self)
        ensures
            r@ == self@,
    {
        proof {
            use_type_invariant(self);
        }
        WorkshopId(self.0.clone())
    }
}

impl Eq for WorkshopId {

}

impl vstd::std_specs::cmp::PartialEqSpecImpl for WorkshopId {
    open spec fn obeys_eq_spec() -> bool {
        true
    }

    open spec fn eq_spec(&self, other: &Self) -> bool {
        self@ == other@
    }
}

/// The characters of `s`, one by one.
pub(crate) fn chars_of(s: &str) -> (v: Vec<char>)
    ensures
        v@ == s@,
{
    let mut v: Vec<char> = Vec::new();
    for c in it: s.chars()
        invariant
            v@.len() == it.index(),
            forall|i: int| 0 <= i < v@.len() ==> v@[i] == it.seq()[i],
            it.seq() == s@,
    {
        v.push(c);
    }
    assert(v@ =~= s@);
    v
}

/// The number of id characters that `v` holds from `from` on.
pub(crate) fn count_id_chars(v: &Vec<char>, from: usize) -> (n: usize)
    requires
        from <= v@.len(),
    ensures
        n == id_prefix_len(v@.skip(from as int)),
        from + n <= v@.len() <= usize::MAX,
{
    let len = v.len();
    let mut n: usize = 0;
    while from + n < len && is_workshopid_char(v[from + n])
        invariant
            len == v@.len(),
            from + n <= len,
            id_prefix_len(v@.skip(from as int)) == n + id_prefix_len(v@.skip(from + n)),
        decreases v@.len() - n,
    {
        proof {
            assert(v@.skip(from + n).skip(1) =~= v@.skip(from + n + 1));
        }
        n += 1;
    }
    n
}

/// The id prefix of a string is made of id characters, and is as long as it
/// can be.
pub proof fn lemma_id_prefix(s: Seq<char>)
    ensures
        id_prefix_len(s) <= s.len(),
        forall|i: int| 0 <= i < id_prefix_len(s) ==> is_id_char(#[trigger] s[i]),
        id_prefix_len(s) < s.len() ==> !is_id_char(s[id_prefix_len(s) as int]),
    decreases s.len(),
{
    if s.len() > 0 && is_id_char(s[0]) {
        lemma_id_prefix(s.skip(1));
        assert forall|i: int| 0 <= i < id_prefix_len(s) implies is_id_char(#[trigger] s[i]) by {
            if i > 0 {
                assert(s[i] == s.skip(1)[i - 1]);
            }
        }
        if id_prefix_len(s) < s.len() {
            assert(s[id_prefix_len(s) as int] == s.skip(1)[id_prefix_len(s.skip(1)) as int]);
        }
    }
}

impl WorkshopId {
    #[verifier::type_invariant]
    spec fn digits_only(self) -> bool {
        is_id(self.0@)
    }

    /// Takes `s` as a workshop id where it is one, and hands it back where
    /// it is not.
    pub fn try_from(s: String) -> (r: Result<WorkshopId, InvalidWorkshopId>)
        ensures
            r is Ok <==> is_id(s@),
            r matches Ok(id) ==> id@ == s@,
            r matches Err(e) ==> e.0@ == s@,
    {
        let v = chars_of(s.as_str());
        let n = count_id_chars(&v, 0);
        proof {
            assert(v@.skip(0) =~= v@);
            lemma_id_prefix(v@);
        }
        if n == 0 || n < v.len() {
            return Err(InvalidWorkshopId(s));
        }
        Ok(WorkshopId(s))
    }

    /// Takes `s` as a workshop id where it is one.
    pub fn parse(s: &str) -> (r: Result<WorkshopId, InvalidWorkshopId>)
        ensures
            r is Ok <==> is_id(s@),
            r matches Ok(id) ==> id@ == s@,
            r matches Err(e) ==> e.0@ == s@,
    {
        WorkshopId::try_from(s.to_owned())
    }

    pub fn as_str(&self) -> (s: &str)
        ensures
            s@ == self@,
            is_id(s@),
    {
        proof {
            use_type_invariant(self);
        }
        self.0.as_str()
    }

    /// The id as text.
    pub fn to_string(&self) -> (s: String)
        ensures
            s@ == self@,
            is_id(s@),
    {
        proof {
            use_type_invariant(self);
        }
        self.0.clone()
    }
}

impl std::str::FromStr for WorkshopId {
    type Err = InvalidWorkshopId;

    /// Takes `s` as a workshop id where it is one.
    fn from_str(s: &str) -> (r: Result<WorkshopId, InvalidWorkshopId>)
        ensures
            r is Ok <==> is_id(s@),
            r matches Ok(id) ==> id@ == s@,
            r matches Err(e) ==> e.0@ == s@,
    {
        WorkshopId::parse(s)
    }
}

impl InvalidWorkshopId {
    /// What to tell whoever sent the string.
    pub fn to_string(&self) -> (s: String)
        ensures
            s@ == "invalid workshop id: "@ + self.0@,
    {
        String::from_str("invalid workshop id: ").concat(self.0.as_str())
    }
}

/// The text that `base64` writes for `bytes` with its URL-safe alphabet and
/// without padding.
pub uninterp spec fn base64url(bytes: Seq<u8>) -> Seq<char>;

/// The bytes that `base64` reads out of `text` with its URL-safe alphabet and
/// without padding; nothing where `text` is no such encoding.
pub uninterp spec fn base64url_decoded(text: Seq<u8>) -> Option<Seq<u8>>;

/// Why `base64` refused a text.
#[verifier::external_type_specification]
#[verifier::external_body]
pub struct ExDecodeError(base64::DecodeError);

/// `base64::Engine::encode` of the engine `URL_SAFE_NO_PAD`. The result is
/// the named value [`base64url`] of the bytes.
#[verifier::external_body]
fn encode_base64url(bytes: &[u8]) -> (r: String)
    ensures
        r@ == base64url(bytes@),
{
    base64::Engine::encode(&base64::engine::general_purpose::URL_SAFE_NO_PAD, bytes)
}

/// `base64::Engine::decode` of the engine `URL_SAFE_NO_PAD`. The result is
/// the named value [`base64url_decoded`] of the text, an error standing for
/// nothing.
#[verifier::external_body]
pub(crate) fn decode_base64url(text: &[u8]) -> (r: Result<Vec<u8>, base64::DecodeError>)
    ensures
        r matches Ok(v) ==> base64url_decoded(text@) == Some(v@),
        r is Err ==> base64url_decoded(text@) is None,
{
    base64::Engine::decode(&base64::engine::general_purpose::URL_SAFE_NO_PAD, text)
}

/// The tag under which the downloader knows the content of a file.
#[derive(Debug)]
pub struct ETag(pub Vec<u8>);

/// A text that is no tag in base 64.
#[derive(Debug, PartialEq, Eq)]
pub struct InvalidETag;

impl View for ETag {
    type V = Seq<u8>;

    open spec fn view(&self) -> Seq<u8> {
        self.0@
    }
}

impl ETag {
    /// Reads a tag from its transport form.
    pub fn from_base64(v: &[u8]) -> (r: Result<ETag, InvalidETag>)
        ensures
            r is Ok <==> base64url_decoded(v@) is Some,
            r matches Ok(tag) ==> tag@ == base64url_decoded(v@)->0,
    {
        match decode_base64url(v) {
            Ok(bytes) => Ok(ETag(bytes)),
            Err(_) => Err(InvalidETag),
        }
    }

    /// The tag in its transport form.
    pub fn to_base64(&self) -> (s: String)
        ensures
            s@ == base64url(self@),
    {
        encode_base64url(self.0.as_slice())
    }

    /// The tag as text.
    pub fn to_string(&self) -> (s: String)
        ensures
            s@ == base64url(self@),
    {
        self.to_base64()
    }

    pub fn as_bytes(&self) -> (b: &[u8])
        ensures
            b@ == self@,
    {
        self.0.as_slice()
    }
}

} // verus!
