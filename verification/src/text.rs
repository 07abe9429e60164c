//! Comparing octet strings and text.

use vstd::prelude::*;
use vstd::slice::slice_subrange;
use vstd::utf8::{decode_utf8, valid_utf8};

verus! {

/// The octet that ends a line.
pub const NEWLINE: u8 = 10;

/// The octet that parts the words of a line.
pub const BLANK: u8 = 32;

/// Whether two octet strings are the same, octet for octet.
pub fn bytes_eq(a: &[u8], b: &[u8]) -> (same: bool)
    ensures
        same == (a@ == b@),
{
    if a.len() != b.len() {
        return false;
    }
    let mut i: usize = 0;
    while i < a.len()
        invariant
            a@.len() == b@.len(),
            i <= a@.len(),
            a@.subrange(0, i as int) == b@.subrange(0, i as int),
        decreases a@.len() - i,
    {
        if a[i] != b[i] {
            return false;
        }
        assert(a@.subrange(0, i + 1) =~= a@.subrange(0, i as int).push(a@[i as int]));
        assert(b@.subrange(0, i + 1) =~= b@.subrange(0, i as int).push(b@[i as int]));
        i = i + 1;
    }
    assert(a@ =~= a@.subrange(0, i as int));
    assert(b@ =~= b@.subrange(0, i as int));
    true
}

/// Two texts with the same UTF-8 octets are the same text.
pub proof fn lemma_same_octets_same_text(a: Seq<char>, b: Seq<char>)
    requires
        vstd::utf8::encode_utf8(a) == vstd::utf8::encode_utf8(b),
    ensures
        a == b,
{
    vstd::utf8::encode_utf8_decode_utf8(a);
    vstd::utf8::encode_utf8_decode_utf8(b);
}

/// Whether two texts are the same.
pub fn str_eq(a: &str, b: &str) -> (same: bool)
    ensures
        same == (a@ == b@),
{
    let same = bytes_eq(a.as_bytes(), b.as_bytes());
    proof {
        if same {
            lemma_same_octets_same_text(a@, b@);
        }
    }
    same
}

/// Whether an octet is a white-space character of one octet: a blank, or
/// one of the controls from tab to carriage return.
pub open spec fn spec_is_space(b: u8) -> bool {
    b == 32 || 9 <= b <= 13
}

/// Whether two octets are the UTF-8 form of a white-space character:
/// U+0085 or U+00A0.
pub open spec fn spec_is_space2(a: u8, b: u8) -> bool {
    a == 0xC2 && (b == 0x85 || b == 0xA0)
}

/// Whether three octets are the UTF-8 form of a white-space character:
/// U+1680, U+2000 to U+200A, U+2028, U+2029, U+202F, U+205F or U+3000.
pub open spec fn spec_is_space3(a: u8, b: u8, c: u8) -> bool {
    ||| a == 0xE1 && b == 0x9A && c == 0x80
    ||| a == 0xE2 && b == 0x80 && (0x80 <= c <= 0x8A || c == 0xA8 || c == 0xA9 || c == 0xAF)
    ||| a == 0xE2 && b == 0x81 && c == 0x9F
    ||| a == 0xE3 && b == 0x80 && c == 0x80
}

/// The number of octets of the white-space character whose UTF-8 form
/// starts at index `at` of `s`; zero where none starts there. White space
/// is what Unicode calls so.
pub open spec fn space_width(s: Seq<u8>, at: int) -> nat {
    if at < 0 || at >= s.len() {
        0
    } else if spec_is_space(s[at]) {
        1
    } else if at + 1 < s.len() && spec_is_space2(s[at], s[at + 1]) {
        2
    } else if at + 2 < s.len() && spec_is_space3(s[at], s[at + 1], s[at + 2]) {
        3
    } else {
        0
    }
}

/// The number of octets of the white-space character whose UTF-8 form ends
/// right before index `end` of `s`; zero where none ends there.
pub open spec fn space_width_before(s: Seq<u8>, end: int) -> nat {
    if end < 1 || end > s.len() {
        0
    } else if spec_is_space(s[end - 1]) {
        1
    } else if end >= 2 && spec_is_space2(s[end - 2], s[end - 1]) {
        2
    } else if end >= 3 && spec_is_space3(s[end - 3], s[end - 2], s[end - 1]) {
        3
    } else {
        0
    }
}

/// The index of the first octet of `s`, from `from` on, that starts no
/// white-space character; the length of `s` where white space runs to the
/// end.
pub open spec fn skip_space(s: Seq<u8>, from: int) -> int
    decreases s.len() - from,
{
    if space_width(s, from) > 0 {
        skip_space(s, from + space_width(s, from))
    } else {
        from
    }
}

/// The index behind the last octet of `s`, before `end`, that ends no
/// white-space character; zero where white space runs from the start.
pub open spec fn skip_space_back(s: Seq<u8>, end: int) -> int
    decreases end,
{
    if space_width_before(s, end) > 0 {
        skip_space_back(s, end - space_width_before(s, end))
    } else {
        end
    }
}

/// `s` without the white space at its start and, in what is left, at its
/// end.
pub open spec fn trimmed(s: Seq<u8>) -> Seq<u8> {
    let rest = s.subrange(skip_space(s, 0), s.len() as int);
    rest.subrange(0, skip_space_back(rest, rest.len() as int))
}

/// Skipping white space stays within the octets.
pub proof fn lemma_skip_space_bounds(s: Seq<u8>, from: int)
    requires
        0 <= from <= s.len(),
    ensures
        from <= skip_space(s, from) <= s.len(),
        space_width(s, skip_space(s, from)) == 0,
    decreases s.len() - from,
{
    if space_width(s, from) > 0 {
        lemma_skip_space_bounds(s, from + space_width(s, from));
    }
}

/// Skipping white space backwards stays within the octets.
pub proof fn lemma_skip_space_back_bounds(s: Seq<u8>, end: int)
    requires
        0 <= end <= s.len(),
    ensures
        0 <= skip_space_back(s, end) <= end,
        space_width_before(s, skip_space_back(s, end)) == 0,
    decreases end,
{
    if space_width_before(s, end) > 0 {
        lemma_skip_space_back_bounds(s, end - space_width_before(s, end));
    }
}

/// What is left after trimming neither starts nor ends with white space,
/// and is no longer than what was there.
pub proof fn lemma_trimmed_is_trim(s: Seq<u8>)
    ensures
        trimmed(s).len() <= s.len(),
        space_width_before(trimmed(s), trimmed(s).len() as int) == 0,
        trimmed(s).len() > 0 ==> space_width(trimmed(s), 0) == 0,
{
    lemma_skip_space_bounds(s, 0);
    let start = skip_space(s, 0);
    let rest = s.subrange(start, s.len() as int);
    lemma_skip_space_back_bounds(rest, rest.len() as int);
    let end = skip_space_back(rest, rest.len() as int);
    let t = trimmed(s);
    assert(space_width(s, start) == 0);
    if t.len() > 0 {
        assert(t[0] == s[start]);
        if t.len() > 1 {
            assert(t[1] == s[start + 1]);
        }
        if t.len() > 2 {
            assert(t[2] == s[start + 2]);
        }
        if space_width(t, 0) > 0 {
            assert(space_width(s, start) > 0);
        }
        assert(t[t.len() - 1] == rest[end - 1]);
        if t.len() > 1 {
            assert(t[t.len() - 2] == rest[end - 2]);
        }
        if t.len() > 2 {
            assert(t[t.len() - 3] == rest[end - 3]);
        }
    }
}

/// Whether an octet is a white-space character of one octet.
pub fn is_space(b: u8) -> (space: bool)
    ensures
        space == spec_is_space(b),
{
    b == 32 || (9 <= b && b <= 13)
}

fn is_space2(a: u8, b: u8) -> (space: bool)
    ensures
        space == spec_is_space2(a, b),
{
    a == 0xC2 && (b == 0x85 || b == 0xA0)
}

fn is_space3(a: u8, b: u8, c: u8) -> (space: bool)
    ensures
        space == spec_is_space3(a, b, c),
{
    (a == 0xE1 && b == 0x9A && c == 0x80) || (a == 0xE2 && b == 0x80 && ((0x80 <= c && c <= 0x8A)
        || c == 0xA8 || c == 0xA9 || c == 0xAF)) || (a == 0xE2 && b == 0x81 && c == 0x9F) || (a
        == 0xE3 && b == 0x80 && c == 0x80)
}

fn width_at(s: &[u8], at: usize) -> (w: usize)
    ensures
        w == space_width(s@, at as int),
        at + w <= s@.len() || w == 0,
{
    let n = s.len();
    if at >= n {
        0
    } else if is_space(s[at]) {
        1
    } else if n - at > 1 && is_space2(s[at], s[at + 1]) {
        2
    } else if n - at > 2 && is_space3(s[at], s[at + 1], s[at + 2]) {
        3
    } else {
        0
    }
}

fn width_before(s: &[u8], end: usize) -> (w: usize)
    ensures
        w == space_width_before(s@, end as int),
        w <= end,
{
    if end < 1 || end > s.len() {
        0
    } else if is_space(s[end - 1]) {
        1
    } else if end >= 2 && is_space2(s[end - 2], s[end - 1]) {
        2
    } else if end >= 3 && is_space3(s[end - 3], s[end - 2], s[end - 1]) {
        3
    } else {
        0
    }
}

/// `s` without the white space at its start and at its end. White space
/// is what Unicode calls so, in its UTF-8 form: the blank and the controls
/// from tab to carriage return, and the characters of two and three octets
/// from U+0085 to U+3000.
pub fn trim(s: &[u8]) -> (t: &[u8])
    ensures
        t@ == trimmed(s@),
{
    let n = s.len();
    let mut start: usize = 0;
    loop
        invariant
            n == s@.len(),
            start <= s@.len(),
            skip_space(s@, start as int) == skip_space(s@, 0),
        ensures
            start <= s@.len(),
            start == skip_space(s@, 0),
        decreases s@.len() - start,
    {
        let w = width_at(s, start);
        if w == 0 {
            break;
        }
        start = start + w;
    }
    let rest = slice_subrange(s, start, n);
    let mut end: usize = rest.len();
    loop
        invariant
            end <= rest@.len(),
            skip_space_back(rest@, end as int) == skip_space_back(rest@, rest@.len() as int),
        ensures
            end <= rest@.len(),
            end == skip_space_back(rest@, rest@.len() as int),
        decreases end,
    {
        let w = width_before(rest, end);
        if w == 0 {
            break;
        }
        end = end - w;
    }
    slice_subrange(rest, 0, end)
}

/// `String::from_utf8`: the text that `octets` spell in UTF-8, and `None`
/// exactly when they are not valid UTF-8.
#[verifier::external_body]
pub(crate) fn text_of(octets: Vec<u8>) -> (text: Option<String>)
    ensures
        text is Some <==> valid_utf8(octets@),
        text matches Some(t) ==> t@ == decode_utf8(octets@),
{
    String::from_utf8(octets).ok()
}

} // verus!
