//! Text helpers for the device's responses.
use vstd::prelude::*;
use vstd::string::StrSliceExecFns;

verus! {

/// A character with the Unicode White_Space property, as `char::is_whitespace`
/// documents it.
pub open spec fn is_white_space(c: char) -> bool {
    let v = c as u32;
    v == 0x20 || (0x09 <= v && v <= 0x0D) || v == 0x85 || v == 0xA0 || v == 0x1680 || (0x2000
        <= v && v <= 0x200A) || v == 0x2028 || v == 0x2029 || v == 0x202F || v == 0x205F || v
        == 0x3000
}

/// A character that reads as text: an ASCII graphic character or white space.
pub open spec fn is_printable_char(c: char) -> bool {
    (0x21 <= (c as u32) && (c as u32) <= 0x7E) || is_white_space(c)
}

/// Number of printable characters in `t`.
pub open spec fn printable_chars(t: Seq<char>) -> nat
    decreases t.len(),
{
    if t.len() == 0 {
        0
    } else {
        printable_chars(t.drop_last()) + if is_printable_char(t.last()) {
            1nat
        } else {
            0nat
        }
    }
}

/// `needle` stands in `hay` starting at position `i`.
pub open spec fn occurs_at(hay: Seq<u8>, needle: Seq<u8>, i: int) -> bool {
    0 <= i && i + needle.len() <= hay.len() && hay.subrange(i, i + needle.len()) == needle
}

/// `needle` stands somewhere in `hay`.
pub open spec fn occurs_in(hay: Seq<u8>, needle: Seq<u8>) -> bool {
    exists|i: int| occurs_at(hay, needle, i)
}

/// Whether `c` reads as text.
pub fn printable_char(c: char) -> (r: bool)
    ensures
        r == is_printable_char(c),
{
    let v = c as u32;
    (0x21 <= v && v <= 0x7E) || v == 0x20 || (0x09 <= v && v <= 0x0D) || v == 0x85 || v == 0xA0
        || v == 0x1680 || (0x2000 <= v && v <= 0x200A) || v == 0x2028 || v == 0x2029 || v
        == 0x202F || v == 0x205F || v == 0x3000
}

proof fn lemma_printable_chars_bound(t: Seq<char>)
    ensures
        printable_chars(t) <= t.len(),
    decreases t.len(),
{
    if t.len() > 0 {
        lemma_printable_chars_bound(t.drop_last());
    }
}

/// Number of characters of `t` that read as text.
pub fn count_printable_chars(t: &str) -> (r: usize)
    ensures
        r == printable_chars(t@),
{
    let len = t.unicode_len();
    let mut n: usize = 0;
    let mut i: usize = 0;
    while i < len
        invariant
            len == t@.len(),
            i <= len,
            n == printable_chars(t@.take(i as int)),
        decreases len - i,
    {
        proof {
            assert(t@.take(i as int + 1).drop_last() =~= t@.take(i as int));
            lemma_printable_chars_bound(t@.take(i as int));
        }
        if printable_char(t.get_char(i)) {
            n = n + 1;
        }
        i = i + 1;
    }
    assert(t@.take(len as int) =~= t@);
    n
}

/// Whether `needle` stands in `hay` at position `at`.
pub fn matches_at(hay: &[u8], needle: &[u8], at: usize) -> (r: bool)
    ensures
        r == occurs_at(hay@, needle@, at as int),
{
    if needle.len() > hay.len() || at > hay.len() - needle.len() {
        return false;
    }
    let mut j: usize = 0;
    while j < needle.len()
        invariant
            at + needle@.len() <= hay@.len(),
            hay@.len() == hay.len(),
            j <= needle@.len(),
            forall|k: int| 0 <= k < j ==> hay@[at + k] == needle@[k],
        decreases needle@.len() - j,
    {
        assert(at + j < hay@.len());
        if hay[at + j] != needle[j] {
            assert(hay@.subrange(at as int, at + needle@.len())[j as int] != needle@[j as int]);
            return false;
        }
        j = j + 1;
    }
    assert(hay@.subrange(at as int, at + needle@.len()) =~= needle@);
    true
}

/// Whether `needle` stands anywhere in `hay`.
pub fn contains_bytes(hay: &[u8], needle: &[u8]) -> (r: bool)
    ensures
        r == occurs_in(hay@, needle@),
{
    if needle.len() > hay.len() {
        return false;
    }
    let last = hay.len() - needle.len();
    let mut i: usize = 0;
    while i < last
        invariant
            last == hay@.len() - needle@.len(),
            i <= last,
            forall|k: int| 0 <= k < i ==> !occurs_at(hay@, needle@, k),
        decreases last - i,
    {
        if matches_at(hay, needle, i) {
            return true;
        }
        i = i + 1;
    }
    if matches_at(hay, needle, last) {
        return true;
    }
    assert forall|k: int| !occurs_at(hay@, needle@, k) by {
        if 0 <= k && k + needle@.len() <= hay@.len() && k != last {
            assert(k < i);
        }
    }
    false
}

/// The text that lossy UTF-8 decoding gives for `bytes`.
pub uninterp spec fn lossy_text(bytes: Seq<u8>) -> Seq<char>;

/// Relies on `String::from_utf8_lossy`: the text depends on the bytes alone, no
/// bytes give no text, and ASCII bytes decode one character each.
#[verifier::external_body]
pub(crate) fn decode_text(bytes: &[u8]) -> (r: String)
    ensures
        r@ == lossy_text(bytes@),
        bytes@.len() == 0 ==> r@.len() == 0,
        (forall|i: int| 0 <= i < bytes@.len() ==> bytes@[i] < 0x80) ==> r@.len() == bytes@.len()
            && forall|i: int| 0 <= i < bytes@.len() ==> r@[i] == (bytes@[i] as char),
{
    String::from_utf8_lossy(bytes).into_owned()
}

} // verus!
