//! Text helpers: comparing strings, appending characters, and cutting a byte range
//! out of a string.

use vstd::prelude::*;
use vstd::string::StringSliceAdditionalSpecFns;
use vstd::utf8::*;

verus! {

/// `String::push` of the standard library: the character is appended at the end and
/// nothing else changes.
pub assume_specification[ String::push ](s: &mut String, c: char)
    ensures
        final(s)@ == old(s)@.push(c),
;

/// Whether two strings hold the same characters.
pub fn str_eq(a: &str, b: &str) -> (r: bool)
    ensures
        r == (a@ == b@),
{
    let x = a.as_bytes();
    let y = b.as_bytes();
    proof {
        encode_utf8_decode_utf8(a@);
        encode_utf8_decode_utf8(b@);
    }
    if x.len() != y.len() {
        return false;
    }
    let mut i: usize = 0;
    while i < x.len()
        invariant
            x@ == encode_utf8(a@),
            y@ == encode_utf8(b@),
            x@.len() == y@.len(),
            i <= x@.len(),
            forall|j: int| 0 <= j < i ==> x@[j] == y@[j],
        decreases x@.len() - i,
    {
        if x[i] != y[i] {
            return false;
        }
        i += 1;
    }
    assert(x@ =~= y@);
    true
}

/// The characters of `text`, in order.
pub fn chars_of(text: &str) -> (r: Vec<char>)
    ensures
        r@ == text@,
{
    let mut out: Vec<char> = Vec::new();
    for c in it: text.chars()
        invariant
            it.seq() == text@,
            out@ == text@.take(it.index() as int),
    {
        out.push(c);
    }
    out
}

/// The text that holds the characters `chars`, in order.
pub fn text_of_chars(chars: &[char]) -> (r: String)
    ensures
        r@ == chars@,
{
    let mut out = String::new();
    let mut i: usize = 0;
    while i < chars.len()
        invariant
            i <= chars@.len(),
            out@ == chars@.take(i as int),
        decreases chars@.len() - i,
    {
        out.push(chars[i]);
        i += 1;
    }
    out
}

/// Whether the bytes from `lo` up to `hi` of the UTF-8 form of `text` are some
/// characters of `text`, whole.
pub open spec fn span_in_text(text: Seq<char>, lo: int, hi: int) -> bool {
    let bytes = encode_utf8(text);
    &&& 0 <= lo <= hi <= bytes.len()
    &&& is_char_boundary(bytes, hi)
    &&& is_char_boundary(bytes.subrange(0, hi), lo)
}

/// The characters that the bytes from `lo` up to `hi` of the UTF-8 form of `text`
/// stand for.
pub open spec fn text_between(text: Seq<char>, lo: int, hi: int) -> Seq<char> {
    decode_utf8(encode_utf8(text).subrange(lo, hi))
}

/// The part of `text` between the byte offsets `lo` and `hi`, where these cut `text`
/// between characters.
pub fn slice_text(text: &str, lo: usize, hi: usize) -> (r: Option<String>)
    ensures
        r is Some <==> span_in_text(text@, lo as int, hi as int),
        r matches Some(s) ==> s@ == text_between(text@, lo as int, hi as int),
{
    if lo > hi || hi > text.as_bytes().len() {
        return None;
    }
    if !text.is_char_boundary(hi) {
        return None;
    }
    let (head, _) = text.split_at(hi);
    if !head.is_char_boundary(lo) {
        return None;
    }
    let (_, mid) = head.split_at(lo);
    let r = mid.to_owned();
    proof {
        assert(mid.spec_bytes() =~= text.spec_bytes().subrange(lo as int, hi as int));
        encode_utf8_decode_utf8(mid@);
    }
    Some(r)
}

} // verus!
