use vstd::prelude::*;

verus! {

/// The unpadded URL-safe base64 text of `b`.
pub uninterp spec fn b64_text(b: Seq<u8>) -> Seq<char>;

/// The bytes that the text `t` decodes to as unpadded URL-safe base64, if it
/// is such a text.
pub uninterp spec fn b64_bytes(t: Seq<char>) -> Option<Seq<u8>>;

/// Relies on `base64::encode_config` with `URL_SAFE_NO_PAD`: the text of the
/// bytes, which that configuration decodes back to the same bytes.
#[verifier::external_body]
fn encode_url_safe(b: &[u8]) -> (r: String)
    ensures
        r@ == b64_text(b@),
        b64_bytes(r@) == Some(b@),
{
    base64::encode_config(b, base64::URL_SAFE_NO_PAD)
}

/// Relies on `base64::decode_config` with `URL_SAFE_NO_PAD`: the decoded bytes,
/// or nothing where the text is not valid in that configuration.
#[verifier::external_body]
fn decode_url_safe(t: &str) -> (r: Option<Vec<u8>>)
    ensures
        match r {
            Some(v) => b64_bytes(t@) == Some(v@),
            None => b64_bytes(t@) is None,
        },
{
    match base64::decode_config(t, base64::URL_SAFE_NO_PAD) {
        Ok(v) => Some(v),
        Err(_) => None,
    }
}

/// Relies on `rand::random`: eight bytes from the thread-local
/// cryptographically secure generator. Nothing is known of their values.
#[verifier::external_body]
pub(crate) fn draw_token() -> (r: [u8; 8]) {
    rand::random::<[u8; 8]>()
}

/// The external form of the raw token `raw`.
pub fn token_text(raw: &[u8]) -> (r: String)
    ensures
        r@ == b64_text(raw@),
        b64_bytes(r@) == Some(raw@),
{
    encode_url_safe(raw)
}

/// The raw token that the external form `t` stands for, if `t` decodes.
pub fn token_bytes(t: &str) -> (r: Option<Vec<u8>>)
    ensures
        match r {
            Some(v) => b64_bytes(t@) == Some(v@),
            None => b64_bytes(t@) is None,
        },
{
    decode_url_safe(t)
}

} // verus!
