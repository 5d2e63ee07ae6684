//! Source text: comparing labels and resolving byte ranges to substrings.
//!
//! A syntax node addresses the source by a half-open range of UTF-8 bytes,
//! while strings are viewed as sequences of characters. The functions here
//! connect the two.

use vstd::prelude::*;
use vstd::string::*;
use vstd::utf8::*;

verus! {

/// The range `[start, end)` addresses a whole number of characters of `text`:
/// it lies inside the UTF-8 encoding of `text`, and both of its ends fall on
/// character boundaries.
pub open spec fn resolves(text: Seq<char>, start: int, end: int) -> bool {
    let bytes = encode_utf8(text);
    &&& 0 <= start <= end <= bytes.len()
    &&& is_char_boundary(bytes, start)
    &&& is_char_boundary(bytes, end)
}

/// The characters that the bytes `[start, end)` of the UTF-8 encoding of
/// `text` spell out.
pub open spec fn phrase(text: Seq<char>, start: int, end: int) -> Seq<char> {
    decode_utf8(encode_utf8(text).subrange(start, end))
}

/// A character boundary of a text is also one of every prefix that reaches it.
proof fn lemma_boundary_in_prefix(bytes: Seq<u8>, start: int, end: int)
    requires
        valid_utf8(bytes),
        0 <= start <= end <= bytes.len(),
        is_char_boundary(bytes, start),
        is_char_boundary(bytes, end),
    ensures
        valid_utf8(bytes.subrange(0, end)),
        is_char_boundary(bytes.subrange(0, end), start),
{
    let head = bytes.subrange(0, end);
    valid_utf8_split(bytes, end);
    if start < end {
        is_char_boundary_iff_not_is_continuation_byte(bytes, start);
        is_char_boundary_iff_not_is_continuation_byte(head, start);
    } else {
        is_char_boundary_start_end_of_seq(head);
    }
}

/// Whether two string slices hold the same characters.
pub fn same_text(a: &str, b: &str) -> (r: bool)
    ensures
        r == (a@ == b@),
{
    let x = a.as_bytes();
    let y = b.as_bytes();
    if x.len() != y.len() {
        return false;
    }
    let mut i: usize = 0;
    while i < x.len()
        invariant
            i <= x@.len(),
            x@.len() == y@.len(),
            x@ == encode_utf8(a@),
            y@ == encode_utf8(b@),
            forall|k: int| 0 <= k < i ==> x@[k] == y@[k],
        decreases x@.len() - i,
    {
        if x[i] != y[i] {
            return false;
        }
        i += 1;
    }
    proof {
        assert(x@ =~= y@);
        encode_utf8_decode_utf8(a@);
        encode_utf8_decode_utf8(b@);
    }
    true
}

/// Whether the byte range `[start, end)` can be cut out of `text`.
pub fn can_slice(text: &str, start: usize, end: usize) -> (r: bool)
    ensures
        r == resolves(text@, start as int, end as int),
{
    start <= end && end <= text.as_bytes().len() && text.is_char_boundary(start)
        && text.is_char_boundary(end)
}

/// The substring of `text` that the byte range `[start, end)` spans.
pub fn slice_text<'a>(text: &'a str, start: usize, end: usize) -> (r: &'a str)
    requires
        resolves(text@, start as int, end as int),
    ensures
        r@ == phrase(text@, start as int, end as int),
{
    let ghost bytes = encode_utf8(text@);
    proof {
        encode_utf8_valid_utf8(text@);
        lemma_boundary_in_prefix(bytes, start as int, end as int);
    }
    let (head, _) = text.split_at(end);
    let (_, body) = head.split_at(start);
    proof {
        assert(head.spec_bytes() == bytes.subrange(0, end as int));
        assert(body.spec_bytes() =~= bytes.subrange(start as int, end as int));
        encode_utf8_decode_utf8(body@);
    }
    body
}

} // verus!
