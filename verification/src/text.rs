//! Text handling for attribute values: white space, searching, and the
//! decimal payload type.

use vstd::prelude::*;
use vstd::string::StrSliceExecFns;

verus! {

/// The characters with the Unicode property `White_Space`.
pub open spec fn is_space(c: char) -> bool {
    let u = c as u32;
    ||| 0x09 <= u <= 0x0d
    ||| u == 0x20
    ||| u == 0x85
    ||| u == 0xa0
    ||| u == 0x1680
    ||| 0x2000 <= u <= 0x200a
    ||| u == 0x2028
    ||| u == 0x2029
    ||| u == 0x202f
    ||| u == 0x205f
    ||| u == 0x3000
}

/// The index of the first character at or after `from` that is not white
/// space; the length where there is none.
pub open spec fn first_non_space(s: Seq<char>, from: int) -> int
    decreases s.len() - from,
{
    if 0 <= from < s.len() && is_space(s[from]) {
        first_non_space(s, from + 1)
    } else {
        from
    }
}

/// The index just behind the last character before `to` that is not white
/// space; 0 where there is none.
pub open spec fn last_non_space_end(s: Seq<char>, to: int) -> int
    decreases to,
{
    if 0 < to <= s.len() && is_space(s[to - 1]) {
        last_non_space_end(s, to - 1)
    } else {
        to
    }
}

/// `s` without its leading and trailing white space.
pub open spec fn trimmed(s: Seq<char>) -> Seq<char> {
    let start = first_non_space(s, 0);
    let end = last_non_space_end(s, s.len() as int);
    if start < end {
        s.subrange(start, end)
    } else {
        Seq::empty()
    }
}

/// `s` with every run of white space replaced by one space character: a white
/// space character that another one follows is dropped, and the last of a run
/// becomes a space.
pub open spec fn squeezed(s: Seq<char>) -> Seq<char>
    decreases s.len(),
{
    if s.len() == 0 {
        s
    } else if !is_space(s[0]) {
        seq![s[0]] + squeezed(s.skip(1))
    } else if s.len() > 1 && is_space(s[1]) {
        squeezed(s.skip(1))
    } else {
        seq![' '] + squeezed(s.skip(1))
    }
}

/// The index of the first `c` at or after `from`; the length where there is
/// none.
pub open spec fn index_from(s: Seq<char>, c: char, from: int) -> int
    decreases s.len() - from,
{
    if 0 <= from < s.len() && s[from] != c {
        index_from(s, c, from + 1)
    } else {
        from
    }
}

/// The index of the first `c` in `s`; the length where there is none.
pub open spec fn index_of(s: Seq<char>, c: char) -> int {
    index_from(s, c, 0)
}

/// The ASCII decimal digits.
pub open spec fn is_digit(c: char) -> bool {
    0x30 <= c as u32 <= 0x39
}

/// Whether `s` consists of decimal digits only.
pub open spec fn all_digits(s: Seq<char>) -> bool {
    forall|i: int| 0 <= i < s.len() ==> is_digit(#[trigger] s[i])
}

/// The number that a sequence of decimal digits writes.
pub open spec fn decimal(s: Seq<char>) -> nat
    decreases s.len(),
{
    if s.len() == 0 {
        0
    } else {
        decimal(s.drop_last()) * 10 + ((s.last() as u32 - 0x30) as nat)
    }
}

/// The payload type that `s` writes: an optional `+`, then one or more
/// decimal digits whose number is at most 255.
pub open spec fn payload_type_of(s: Seq<char>) -> Option<u8> {
    let digits = if s.len() > 0 && s[0] == '+' {
        s.skip(1)
    } else {
        s
    };
    if digits.len() > 0 && all_digits(digits) && decimal(digits) <= 255 {
        Some(decimal(digits) as u8)
    } else {
        None
    }
}

/// The decimal digit for a number below ten.
pub open spec fn digit_char(d: nat) -> char {
    ((0x30 + d) as u8) as char
}

/// A number written in decimal digits, without leading zeros.
pub open spec fn decimal_text(n: nat) -> Seq<char>
    decreases n,
{
    if n < 10 {
        seq![digit_char(n)]
    } else {
        decimal_text(n / 10).push(digit_char(n % 10))
    }
}

/// The upper-case form of a text, as `str::to_uppercase` gives it.
pub uninterp spec fn uppercase_of(s: Seq<char>) -> Seq<char>;

/// Whether a text consists of ASCII characters only.
pub open spec fn is_ascii_text(s: Seq<char>) -> bool {
    forall|i: int| 0 <= i < s.len() ==> (#[trigger] s[i]) as u32 <= 0x7f
}

/// The upper-case form of an ASCII character: `a` to `z` become `A` to `Z`,
/// and every other character stays.
pub open spec fn ascii_upper_char(c: char) -> char {
    if 0x61 <= c as u32 <= 0x7a {
        ((c as u32 - 0x20) as u8) as char
    } else {
        c
    }
}

/// A text with each character in its ASCII upper-case form.
pub open spec fn ascii_upper(s: Seq<char>) -> Seq<char> {
    s.map_values(|c: char| ascii_upper_char(c))
}

/// The upper-case form of a text: character by character for ASCII text,
/// and what `str::to_uppercase` gives for any other.
pub open spec fn upper_of(s: Seq<char>) -> Seq<char> {
    if is_ascii_text(s) {
        ascii_upper(s)
    } else {
        uppercase_of(s)
    }
}

/// A prefix of a digit sequence writes no larger number than the whole.
proof fn lemma_decimal_prefix(s: Seq<char>, k: int)
    requires
        0 <= k <= s.len(),
    ensures
        decimal(s.subrange(0, k)) <= decimal(s),
    decreases s.len() - k,
{
    if k == s.len() {
        assert(s.subrange(0, k) =~= s);
    } else {
        lemma_decimal_prefix(s.drop_last(), k);
        assert(s.drop_last().subrange(0, k) =~= s.subrange(0, k));
    }
}

/// The end of the trailing white space lies at or before where the search
/// started.
proof fn lemma_last_non_space_end_bound(s: Seq<char>, to: int)
    requires
        0 <= to <= s.len(),
    ensures
        0 <= last_non_space_end(s, to) <= to,
    decreases to,
{
    if 0 < to && is_space(s[to - 1]) {
        lemma_last_non_space_end_bound(s, to - 1);
    }
}

/// Whether `c` is white space.
pub fn is_space_char(c: char) -> (b: bool)
    ensures
        b == is_space(c),
{
    let u: u32 = c as u32;
    (0x09 <= u && u <= 0x0d) || u == 0x20 || u == 0x85 || u == 0xa0 || u == 0x1680 || (0x2000 <= u
        && u <= 0x200a) || u == 0x2028 || u == 0x2029 || u == 0x202f || u == 0x205f || u == 0x3000
}

/// Strips leading and trailing white space.
pub fn trim<'a>(s: &'a str) -> (t: &'a str)
    ensures
        t@ == trimmed(s@),
{
    let n: usize = s.unicode_len();
    let mut start: usize = 0;
    while start < n && is_space_char(s.get_char(start))
        invariant
            start <= n,
            n == s@.len(),
            first_non_space(s@, 0) == first_non_space(s@, start as int),
        decreases n - start,
    {
        start += 1;
    }
    let mut end: usize = n;
    while end > start && is_space_char(s.get_char(end - 1))
        invariant
            start <= end <= n,
            n == s@.len(),
            last_non_space_end(s@, n as int) == last_non_space_end(s@, end as int),
        decreases end,
    {
        end -= 1;
    }
    proof {
        lemma_last_non_space_end_bound(s@, end as int);
    }
    let t = s.substring_char(start, end);
    assert(t@ =~= trimmed(s@));
    t
}

/// Finds the first `c` in `s`; the length of `s` in characters where there is
/// none.
pub fn find_char(s: &str, c: char) -> (i: usize)
    ensures
        i == index_of(s@, c),
        i <= s@.len(),
{
    let n: usize = s.unicode_len();
    let mut i: usize = 0;
    while i < n && s.get_char(i) != c
        invariant
            i <= n,
            n == s@.len(),
            index_of(s@, c) == index_from(s@, c, i as int),
        decreases n - i,
    {
        i += 1;
    }
    i
}

/// Reads a payload type: an optional `+`, then decimal digits, at most 255.
pub fn parse_payload_type(s: &str) -> (pt: Option<u8>)
    ensures
        pt == payload_type_of(s@),
{
    let n: usize = s.unicode_len();
    let mut i: usize = 0;
    if n > 0 && s.get_char(0) == '+' {
        i = 1;
    }
    let first: usize = i;
    let ghost digits = s@.skip(first as int);
    assert(s@.skip(0) =~= s@);
    if i == n {
        return None;
    }
    let mut acc: u16 = 0;
    while i < n
        invariant
            first <= i <= n,
            first < n,
            n == s@.len(),
            first == (if s@.len() > 0 && s@[0] == '+' {
                1int
            } else {
                0int
            }),
            digits == s@.skip(first as int),
            digits == (if s@.len() > 0 && s@[0] == '+' {
                s@.skip(1)
            } else {
                s@
            }),
            all_digits(digits.subrange(0, i - first)),
            acc == decimal(digits.subrange(0, i - first)),
            acc <= 255,
        decreases n - i,
    {
        let u: u32 = s.get_char(i) as u32;
        if u < 0x30 || u > 0x39 {
            assert(!is_digit(digits[i - first]));
            return None;
        }
        let d: u16 = (u - 0x30) as u16;
        acc = acc * 10 + d;
        proof {
            let longer = digits.subrange(0, i + 1 - first);
            assert(longer.drop_last() =~= digits.subrange(0, i - first));
            assert(longer.last() == s@[i as int]);
            assert(acc == decimal(longer));
            assert(all_digits(longer)) by {
                assert forall|k: int| 0 <= k < longer.len() implies is_digit(
                    #[trigger] longer[k],
                ) by {
                    if k < i - first {
                        assert(longer[k] == digits.subrange(0, i - first)[k]);
                    }
                }
            }
        }
        if acc > 255 {
            proof {
                lemma_decimal_prefix(digits, i + 1 - first);
            }
            return None;
        }
        i += 1;
    }
    assert(digits.subrange(0, n - first) =~= digits);
    Some(acc as u8)
}

/// Replaces every run of white space by one space, with the `regex` crate:
/// `Regex::replace_all` for the pattern `\s+`. Trusted: `\s` matches the
/// characters of `is_space`, a match of `\s+` is a whole run, and every run
/// is replaced.
#[verifier::external_body]
pub(crate) fn squeeze_spaces(s: &str) -> (r: String)
    ensures
        r@ == squeezed(s@),
{
    regex::Regex::new(r"\s+").unwrap().replace_all(s, " ").into_owned()
}

/// Upper-cases a text with `str::to_uppercase`. Trusted: the result depends
/// on the text alone, and for ASCII text the Unicode upper-case mapping is
/// the ASCII one, character by character.
#[verifier::external_body]
pub(crate) fn to_upper(s: &str) -> (r: String)
    ensures
        r@ == uppercase_of(s@),
        is_ascii_text(s@) ==> r@ == ascii_upper(s@),
{
    s.to_uppercase()
}

/// The upper-case form of a text.
pub fn upper(s: &str) -> (r: String)
    ensures
        r@ == upper_of(s@),
{
    to_upper(s)
}

} // verus!
