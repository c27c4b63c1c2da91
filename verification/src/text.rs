//! UTF-8 decoding of entry names and of text entries.

use vstd::prelude::*;
use vstd::utf8::{
    decode_utf8, encode_utf8, encode_utf8_decode_utf8, is_char_boundary,
    is_char_boundary_iff_is_leading_byte, is_char_boundary_start_end_of_seq,
    is_leading_byte_width_1, valid_utf8,
};

verus! {

/// `bytes` without its trailing zero bytes.
pub open spec fn trim_nul(bytes: Seq<u8>) -> Seq<u8>
    decreases bytes.len(),
{
    if bytes.len() > 0 && bytes.last() == 0 {
        trim_nul(bytes.drop_last())
    } else {
        bytes
    }
}

/// The text that `bytes` hold, when they are valid UTF-8.
pub open spec fn decode_text(bytes: Seq<u8>) -> Option<Seq<char>> {
    if valid_utf8(bytes) {
        Some(decode_utf8(bytes))
    } else {
        None
    }
}

/// `core::str::from_utf8`: the bytes are accepted exactly when they are
/// valid UTF-8, and the string slice that comes back is made of these very
/// bytes. The position of the first offending byte, which the standard
/// library reports on failure, is dropped.
#[verifier::external_body]
pub(crate) fn str_from_utf8(bytes: &[u8]) -> (text: Option<&str>)
    ensures
        text is Some <==> valid_utf8(bytes@),
        text matches Some(s) ==> encode_utf8(s@) == bytes@,
{
    core::str::from_utf8(bytes).ok()
}

/// Cuts the trailing NUL characters off a string slice.
pub fn trim_end_nul(s: &str) -> (trimmed: &str)
    ensures
        encode_utf8(trimmed@) == trim_nul(encode_utf8(s@)),
        trimmed@ == decode_utf8(trim_nul(encode_utf8(s@))),
{
    let bytes = s.as_bytes();
    let mut end: usize = bytes.len();
    assert(bytes@.subrange(0, end as int) =~= bytes@);
    while end > 0 && bytes[end - 1] == 0
        invariant
            end <= bytes@.len(),
            trim_nul(bytes@) == trim_nul(bytes@.subrange(0, end as int)),
            forall|i: int| end <= i < bytes@.len() ==> bytes@[i] == 0,
        decreases end,
    {
        assert(bytes@.subrange(0, end as int).drop_last() =~= bytes@.subrange(0, end - 1));
        end -= 1;
    }
    proof {
        vstd::utf8::encode_utf8_valid_utf8(s@);
        if end < bytes@.len() {
            assert(is_leading_byte_width_1(bytes@[end as int]));
            is_char_boundary_iff_is_leading_byte(bytes@, end as int);
        } else {
            is_char_boundary_start_end_of_seq(bytes@);
        }
        assert(is_char_boundary(bytes@, end as int));
    }
    let (head, _) = s.split_at(end);
    proof {
        encode_utf8_decode_utf8(head@);
    }
    head
}

} // verus!
