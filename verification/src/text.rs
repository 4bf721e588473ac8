//! Small text helpers that the rest of the library builds its strings with.
use vstd::prelude::*;
use vstd::string::*;

verus! {

/// `String::push` appends one character to the end of the string.
pub assume_specification[ std::string::String::push ](s: &mut std::string::String, ch: char)
    ensures
        final(s)@ == old(s)@.push(ch),
;

/// The character that stands for a digit.
pub open spec fn digit_char(d: nat) -> char {
    if d == 0 {
        '0'
    } else if d == 1 {
        '1'
    } else if d == 2 {
        '2'
    } else if d == 3 {
        '3'
    } else if d == 4 {
        '4'
    } else if d == 5 {
        '5'
    } else if d == 6 {
        '6'
    } else if d == 7 {
        '7'
    } else if d == 8 {
        '8'
    } else {
        '9'
    }
}

/// A natural number in decimal digits, without leading zeros.
pub open spec fn digits(n: nat) -> Seq<char>
    decreases n,
{
    if n < 10 {
        seq![digit_char(n)]
    } else {
        digits(n / 10).push(digit_char(n % 10))
    }
}

/// An integer in decimal digits, with a minus sign where it is negative.
pub open spec fn decimal(n: int) -> Seq<char> {
    if n < 0 {
        seq!['-'] + digits((-n) as nat)
    } else {
        digits(n as nat)
    }
}

fn digit_of(d: u64) -> (c: char)
    requires
        d < 10,
    ensures
        c == digit_char(d as nat),
{
    if d == 0 {
        '0'
    } else if d == 1 {
        '1'
    } else if d == 2 {
        '2'
    } else if d == 3 {
        '3'
    } else if d == 4 {
        '4'
    } else if d == 5 {
        '5'
    } else if d == 6 {
        '6'
    } else if d == 7 {
        '7'
    } else if d == 8 {
        '8'
    } else {
        '9'
    }
}

/// Appends the decimal digits of `n` to `out`.
pub fn push_digits(out: &mut String, n: u64)
    ensures
        final(out)@ == old(out)@ + digits(n as nat),
{
    let mut low: Vec<char> = Vec::new();
    let mut cur: u64 = n;
    let ghost mut tail: Seq<char> = Seq::empty();
    while cur >= 10
        invariant
            digits(n as nat) == digits(cur as nat) + tail,
            tail.len() == low@.len(),
            forall|i: int| 0 <= i < tail.len() ==> tail[i] == low@[low@.len() - 1 - i],
        decreases cur,
    {
        let d = digit_of(cur % 10);
        proof {
            assert(digits(cur as nat) + tail =~= digits((cur / 10) as nat) + (seq![d] + tail));
            tail = seq![d] + tail;
        }
        low.push(d);
        cur = cur / 10;
    }
    let ghost start = out@;
    out.push(digit_of(cur));
    let mut i: usize = low.len();
    while i > 0
        invariant
            i <= low@.len(),
            tail.len() == low@.len(),
            forall|j: int| 0 <= j < tail.len() ==> tail[j] == low@[low@.len() - 1 - j],
            out@ == start + seq![digit_char(cur as nat)] + tail.subrange(0, low@.len() - i),
        decreases i,
    {
        i -= 1;
        out.push(low[i]);
        proof {
            let k = low@.len() - 1 - i;
            assert(tail.subrange(0, k + 1) =~= tail.subrange(0, k).push(tail[k]));
        }
    }
    proof {
        assert(tail.subrange(0, low@.len() as int) =~= tail);
        assert(out@ =~= start + (digits(cur as nat) + tail));
    }
}

/// Appends `n` in decimal to `out`.
pub fn push_decimal(out: &mut String, n: i64)
    ensures
        final(out)@ == old(out)@ + decimal(n as int),
{
    let ghost start = out@;
    if n < 0 {
        out.push('-');
        let magnitude: u64 = if n == i64::MIN {
            9_223_372_036_854_775_808u64
        } else {
            (-n) as u64
        };
        push_digits(out, magnitude);
        assert(out@ =~= start + decimal(n as int));
    } else {
        push_digits(out, n as u64);
    }
}

/// `n` in decimal.
pub fn decimal_string(n: i64) -> (s: String)
    ensures
        s@ == decimal(n as int),
{
    let mut s = String::new();
    push_decimal(&mut s, n);
    assert(s@ =~= decimal(n as int));
    s
}

/// `n` in decimal.
pub fn digits_string(n: u64) -> (s: String)
    ensures
        s@ == digits(n as nat),
{
    let mut s = String::new();
    push_digits(&mut s, n);
    assert(s@ =~= digits(n as nat));
    s
}

/// Whether `c` is white space: the characters that carry the Unicode
/// property `White_Space`.
pub open spec fn is_space(c: char) -> bool {
    let u = c as u32;
    (0x09 <= u <= 0x0d) || u == 0x20 || u == 0x85 || u == 0xa0 || u == 0x1680 || (0x2000 <= u
        <= 0x200a) || u == 0x2028 || u == 0x2029 || u == 0x202f || u == 0x205f || u == 0x3000
}

/// The number of white-space characters that `s` begins with.
pub open spec fn leading_space(s: Seq<char>) -> nat
    decreases s.len(),
{
    if s.len() > 0 && is_space(s[0]) {
        1 + leading_space(s.skip(1))
    } else {
        0
    }
}

/// The number of white-space characters that `s` ends with.
pub open spec fn trailing_space(s: Seq<char>) -> nat
    decreases s.len(),
{
    if s.len() > 0 && is_space(s.last()) {
        1 + trailing_space(s.drop_last())
    } else {
        0
    }
}

/// `s` without the white space at its ends.
pub open spec fn trimmed(s: Seq<char>) -> Seq<char> {
    let rest = s.skip(leading_space(s) as int);
    rest.take(rest.len() - trailing_space(rest))
}

fn is_space_char(c: char) -> (r: bool)
    ensures
        r == is_space(c),
{
    let u = c as u32;
    (0x09 <= u && u <= 0x0d) || u == 0x20 || u == 0x85 || u == 0xa0 || u == 0x1680 || (0x2000 <= u
        && u <= 0x200a) || u == 0x2028 || u == 0x2029 || u == 0x202f || u == 0x205f || u == 0x3000
}

proof fn lemma_trailing_space_bound(s: Seq<char>)
    ensures
        trailing_space(s) <= s.len(),
    decreases s.len(),
{
    if s.len() > 0 && is_space(s.last()) {
        lemma_trailing_space_bound(s.drop_last());
    }
}

/// `s` without the white space at its ends.
pub fn trim(s: &str) -> (t: &str)
    ensures
        t@ == trimmed(s@),
{
    let v = crate::types::chars_of(s);
    let len = v.len();
    let mut start: usize = 0;
    proof {
        assert(v@.skip(0) =~= v@);
    }
    while start < len && is_space_char(v[start])
        invariant
            len == v@.len(),
            start <= len,
            leading_space(v@) == start + leading_space(v@.skip(start as int)),
        decreases len - start,
    {
        proof {
            assert(v@.skip(start as int).skip(1) =~= v@.skip(start + 1));
        }
        start += 1;
    }
    let ghost rest = v@.skip(start as int);
    let mut end: usize = len;
    proof {
        assert(rest.take(rest.len() as int) =~= rest);
    }
    while end > start && is_space_char(v[end - 1])
        invariant
            len == v@.len(),
            start <= end <= len,
            rest == v@.skip(start as int),
            trailing_space(rest) == (len - end) + trailing_space(rest.take(end - start)),
        decreases end,
    {
        proof {
            assert(rest.take(end - start).drop_last() =~= rest.take(end - 1 - start));
        }
        end -= 1;
    }
    proof {
        if end > start {
            assert(rest.take(end - start).last() == v@[end - 1]);
        }
        assert(trailing_space(rest.take(end - start)) == 0);
        assert(s@.subrange(start as int, end as int) =~= rest.take(rest.len() - trailing_space(rest)));
    }
    s.substring_char(start, end)
}

/// Whether every character of `s` is a decimal digit.
pub open spec fn all_digits(s: Seq<char>) -> bool {
    forall|i: int| 0 <= i < s.len() ==> '0' <= #[trigger] s[i] <= '9'
}

/// The number that a string of decimal digits stands for.
pub open spec fn digits_value(s: Seq<char>) -> nat
    decreases s.len(),
{
    if s.len() == 0 {
        0
    } else {
        digits_value(s.drop_last()) * 10 + ((s.last() as u32) - ('0' as u32)) as nat
    }
}

/// The integer that `s` stands for in decimal: an optional sign, then one or
/// more digits and nothing else. A number outside the 64-bit range is none.
pub open spec fn parsed_i64(s: Seq<char>) -> Option<i64> {
    let signed = s.len() > 0 && (s[0] == '-' || s[0] == '+');
    let body = if signed {
        s.skip(1)
    } else {
        s
    };
    if body.len() == 0 || !all_digits(body) {
        None
    } else {
        let v = if s[0] == '-' {
            -(digits_value(body) as int)
        } else {
            digits_value(body) as int
        };
        if i64::MIN <= v <= i64::MAX {
            Some(v as i64)
        } else {
            None
        }
    }
}

proof fn lemma_digits_value_grows(s: Seq<char>, j: int)
    requires
        0 <= j <= s.len(),
    ensures
        digits_value(s.take(j)) <= digits_value(s),
    decreases s.len() - j,
{
    if j < s.len() {
        lemma_digits_value_grows(s, j + 1);
        assert(s.take(j + 1).drop_last() =~= s.take(j));
    } else {
        assert(s.take(j) =~= s);
    }
}

/// Reads `s` as a decimal integer.
#[verifier::loop_isolation(false)]
pub fn parse_i64(s: &str) -> (r: Option<i64>)
    ensures
        r == parsed_i64(s@),
{
    let v = crate::types::chars_of(s);
    let len = v.len();
    if len == 0 {
        return None;
    }
    let negative = v[0] == '-';
    let start: usize = if v[0] == '-' || v[0] == '+' {
        1
    } else {
        0
    };
    if start == len {
        return None;
    }
    let ghost body = v@.skip(start as int);
    let mut acc: u64 = 0;
    let mut i: usize = start;
    while i < len
        invariant
            len == v@.len(),
            start <= i <= len,
            body == v@.skip(start as int),
            all_digits(body.take(i - start)),
            acc == digits_value(body.take(i - start)),
            acc <= 9_223_372_036_854_775_808u64,
        decreases len - i,
    {
        let c = v[i];
        proof {
            assert(body.take(i + 1 - start).drop_last() =~= body.take(i - start));
            assert(body.take(i + 1 - start).last() == c);
            assert(body[i - start] == c);
        }
        if !('0' <= c && c <= '9') {
            return None;
        }
        let d: u64 = ((c as u32) - ('0' as u32)) as u64;
        if acc > 922_337_203_685_477_580u64 || acc * 10 + d > 9_223_372_036_854_775_808u64 {
            proof {
                lemma_digits_value_grows(body, i + 1 - start);
                assert(digits_value(body.take(i + 1 - start)) == acc * 10 + d);
                assert(digits_value(body) > 9_223_372_036_854_775_808u64);
                assert(s@ == v@);
                assert(body == if s@[0] == '-' || s@[0] == '+' {
                    s@.skip(1)
                } else {
                    s@
                });
            }
            return None;
        }
        acc = acc * 10 + d;
        proof {
            assert forall|k: int| 0 <= k < i + 1 - start implies '0' <= #[trigger] body.take(
                i + 1 - start,
            )[k] <= '9' by {
                if k < i - start {
                    assert(body.take(i - start)[k] == body.take(i + 1 - start)[k]);
                }
            }
        }
        i += 1;
    }
    proof {
        assert(body.take(len - start) =~= body);
        assert(s@ == v@);
        assert(all_digits(body));
        assert(acc == digits_value(body));
        assert(negative == (s@[0] == '-'));
        assert(body == if s@[0] == '-' || s@[0] == '+' {
            s@.skip(1)
        } else {
            s@
        });
    }
    if negative {
        if acc == 9_223_372_036_854_775_808u64 {
            Some(i64::MIN)
        } else {
            Some(-(acc as i64))
        }
    } else {
        if acc > 9_223_372_036_854_775_807u64 {
            None
        } else {
            Some(acc as i64)
        }
    }
}

} // verus!
