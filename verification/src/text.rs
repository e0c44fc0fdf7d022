//! Text in the ledger's byte layout: the number of UTF-8 bytes as a `u32`,
//! then the bytes themselves.

use crate::wire::{
    lemma_le_bytes_len, lemma_radix_pow_values, lemma_read_written, put_u32, u32_at, u32_bytes,
};
use vstd::prelude::*;
use vstd::slice::*;
use vstd::string::*;
use vstd::utf8::*;

verus! {

/// Whether the UTF-8 form of `text` is short enough for its length to be
/// stored in four bytes.
pub open spec fn text_fits(text: Seq<char>) -> bool {
    encode_utf8(text).len() <= u32::MAX
}

/// The bytes that store `text`: the length of its UTF-8 form, then that form.
pub open spec fn text_bytes(text: Seq<char>) -> Seq<u8> {
    u32_bytes(encode_utf8(text).len() as u32) + encode_utf8(text)
}

/// Stored text is read back as it was written, whatever follows it.
pub proof fn lemma_text_round_trip(text: Seq<char>, rest: Seq<u8>)
    requires
        text_fits(text),
    ensures
        text_bytes(text).len() == 4 + encode_utf8(text).len(),
        u32_at(text_bytes(text) + rest, 0) == encode_utf8(text).len(),
        (text_bytes(text) + rest).subrange(4, 4 + encode_utf8(text).len() as int) == encode_utf8(
            text,
        ),
        (text_bytes(text) + rest).skip(4 + encode_utf8(text).len() as int) == rest,
        valid_utf8(encode_utf8(text)),
        decode_utf8(encode_utf8(text)) == text,
{
    let utf8 = encode_utf8(text);
    let n = utf8.len() as u32;
    let all = text_bytes(text) + rest;
    lemma_radix_pow_values();
    lemma_le_bytes_len(n as nat, 4);
    lemma_read_written(n as nat, 4, utf8 + rest);
    assert(all =~= u32_bytes(n) + (utf8 + rest));
    encode_utf8_valid_utf8(text);
    encode_utf8_decode_utf8(text);
}

/// Calls `String::from_utf8` of the standard library. Taken on trust, from
/// its documentation: the call succeeds exactly when `bytes` are valid
/// UTF-8, and the text it then returns has `bytes` as its UTF-8 form.
#[verifier::external_body]
fn string_from_utf8(bytes: Vec<u8>) -> (text: Option<String>)
    ensures
        text is Some <==> valid_utf8(bytes@),
        text matches Some(s) ==> encode_utf8(s@) == bytes@,
{
    String::from_utf8(bytes).ok()
}

/// Appends the stored form of `text` to `out`.
pub fn put_text(out: &mut Vec<u8>, text: &str)
    requires
        text_fits(text@),
    ensures
        final(out)@ == old(out)@ + text_bytes(text@),
{
    let utf8 = text.as_bytes();
    put_u32(out, utf8.len() as u32);
    out.extend_from_slice(utf8);
}

/// Reads the text whose UTF-8 form is `bytes[from..to]`, if those bytes are
/// valid UTF-8.
pub fn get_utf8(bytes: &[u8], from: usize, to: usize) -> (text: Option<String>)
    requires
        from <= to <= bytes.len(),
    ensures
        text is Some <==> valid_utf8(bytes@.subrange(from as int, to as int)),
        text matches Some(s) ==> s@ == decode_utf8(bytes@.subrange(from as int, to as int)),
{
    let copy = slice_to_vec(slice_subrange(bytes, from, to));
    let text = string_from_utf8(copy);
    proof {
        if text is Some {
            encode_utf8_decode_utf8(text->0@);
        }
    }
    text
}

} // verus!
