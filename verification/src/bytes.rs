//! Text out of raw bytes.

use vstd::prelude::*;
use vstd::slice::slice_subrange;
use vstd::utf8::{decode_utf8, encode_utf8, valid_utf8};

verus! {

broadcast use vstd::seq::group_seq_axioms;

/// What `String::from_utf8_lossy` makes of bytes that are not valid UTF-8.
pub uninterp spec fn lossy_text(bytes: Seq<u8>) -> Seq<char>;

/// The text that bytes stand for: what they encode where they are valid UTF-8, and a text with
/// replacement characters where they are not.
pub open spec fn text_of(bytes: Seq<u8>) -> Seq<char> {
    if valid_utf8(bytes) {
        decode_utf8(bytes)
    } else {
        lossy_text(bytes)
    }
}

/// `String::from_utf8_lossy`. Valid UTF-8 is decoded; what replaces the invalid parts of other
/// bytes depends on the bytes alone.
#[verifier::external_body]
pub(crate) fn decode(bytes: &[u8]) -> (text: String)
    ensures
        text@ == (if valid_utf8(bytes@) {
            decode_utf8(bytes@)
        } else {
            lossy_text(bytes@)
        }),
{
    String::from_utf8_lossy(bytes).to_string()
}

/// The first position at or after `i` of the byte `wanted`, or the number of bytes.
pub open spec fn find_byte(bytes: Seq<u8>, wanted: u8, i: int) -> int
    decreases bytes.len() - i,
{
    if i >= bytes.len() {
        bytes.len() as int
    } else if bytes[i] == wanted {
        i
    } else {
        find_byte(bytes, wanted, i + 1)
    }
}

/// The first position of the byte `wanted` in `bytes[i..end]`, or `end`.
pub(crate) fn position_in(bytes: &Vec<u8>, wanted: u8, i: usize, end: usize) -> (position: usize)
    requires
        i <= end <= bytes@.len(),
    ensures
        i <= position <= end,
        position - i == find_byte(bytes@.subrange(i as int, end as int), wanted, 0),
        end == bytes@.len() ==> position == find_byte(bytes@, wanted, i as int),
{
    let mut j: usize = i;
    let ghost part = bytes@.subrange(i as int, end as int);
    while j < end && bytes[j] != wanted
        invariant
            i <= j <= end <= bytes@.len(),
            part == bytes@.subrange(i as int, end as int),
            find_byte(part, wanted, 0) == find_byte(part, wanted, j - i),
            find_byte(bytes@, wanted, i as int) == find_byte(bytes@, wanted, j as int),
        decreases end - j,
    {
        j += 1;
    }
    j
}

/// The text that `bytes[from..to]` stands for.
pub(crate) fn decode_part(bytes: &Vec<u8>, from: usize, to: usize) -> (text: String)
    requires
        from <= to <= bytes@.len(),
    ensures
        text@ == text_of(bytes@.subrange(from as int, to as int)),
{
    decode(slice_subrange(bytes.as_slice(), from, to))
}

/// A text reads back from its UTF-8.
pub proof fn law_text_reads_back(text: Seq<char>)
    ensures
        text_of(encode_utf8(text)) == text,
{
    vstd::utf8::encode_utf8_valid_utf8(text);
    vstd::utf8::encode_utf8_decode_utf8(text);
}

}
