use vstd::prelude::*;
use vstd::utf8::{
    decode_utf8, encode_utf8, encode_utf8_decode_utf8, encode_utf8_valid_utf8, valid_utf8,
};

use crate::store::bytes_eq;

verus! {

/// The text of an optional string.
pub open spec fn opt_text(o: Option<String>) -> Option<Seq<char>> {
    match o {
        Some(s) => Some(s@),
        None => None,
    }
}

/// Two texts are equal exactly when their UTF-8 encodings are.
pub proof fn lemma_encoding_injective(a: Seq<char>, b: Seq<char>)
    ensures
        (encode_utf8(a) == encode_utf8(b)) == (a == b),
{
    encode_utf8_decode_utf8(a);
    encode_utf8_decode_utf8(b);
}

/// Compares two strings by their contents.
pub fn text_eq(a: &str, b: &str) -> (r: bool)
    ensures
        r == (a@ == b@),
{
    proof {
        lemma_encoding_injective(a@, b@);
    }
    bytes_eq(a.as_bytes(), b.as_bytes())
}

/// The bytes of a string, in UTF-8.
pub fn utf8_bytes(s: &str) -> (r: Vec<u8>)
    ensures
        r@ == encode_utf8(s@),
{
    vstd::slice::slice_to_vec(s.as_bytes())
}

/// Relies on `String::from_utf8`: it succeeds exactly on valid UTF-8 and then
/// holds the characters that the bytes encode.
#[verifier::external_body]
pub(crate) fn text_of(b: Vec<u8>) -> (r: Option<String>)
    ensures
        r is Some <==> valid_utf8(b@),
        r is Some ==> r->0@ == decode_utf8(b@),
{
    match String::from_utf8(b) {
        Ok(s) => Some(s),
        Err(_) => None,
    }
}

/// Decoding the UTF-8 encoding of a text gives the text back.
pub proof fn lemma_utf8_round_trip(s: Seq<char>)
    ensures
        valid_utf8(encode_utf8(s)),
        decode_utf8(encode_utf8(s)) == s,
{
    encode_utf8_valid_utf8(s);
    encode_utf8_decode_utf8(s);
}

} // verus!
