use vstd::prelude::*;
use vstd::utf8::encode_utf8;

verus! {

/// First byte of every token record's key.
pub const TOKEN_TAG: u8 = 0x74;

/// First byte of every dedup record's key.
pub const DEDUP_TAG: u8 = 0x66;

/// Number of random bytes in a token.
pub const TOKEN_LEN: usize = 8;

/// Number of bytes in a fingerprint.
pub const FINGERPRINT_LEN: usize = 32;

/// The SHA-256 digest of `b`.
pub uninterp spec fn sha256_of(b: Seq<u8>) -> Seq<u8>;

/// Relies on `sha2::Sha256::digest`: the digest of the bytes, 32 bytes long.
#[verifier::external_body]
fn sha256(b: &[u8]) -> (r: Vec<u8>)
    ensures
        r@ == sha256_of(b@),
        r@.len() == FINGERPRINT_LEN,
{
    <sha2::Sha256 as sha2::Digest>::digest(b).to_vec()
}

/// The key of the token record for the raw token `raw`.
pub open spec fn token_key(raw: Seq<u8>) -> Seq<u8> {
    seq![TOKEN_TAG] + raw
}

/// The key of the dedup record for a link: the fingerprint of its exact bytes.
pub open spec fn dedup_key(url: Seq<char>) -> Seq<u8> {
    seq![DEDUP_TAG] + sha256_of(encode_utf8(url))
}

/// Whether `k` lies in the token records' key space.
pub open spec fn is_token_key(k: Seq<u8>) -> bool {
    k.len() >= 1 && k[0] == TOKEN_TAG
}

/// Whether `k` lies in the dedup records' key space.
pub open spec fn is_dedup_key(k: Seq<u8>) -> bool {
    k.len() >= 1 && k[0] == DEDUP_TAG
}

/// No key lies in both key spaces, and each constructor lands in its own.
pub proof fn lemma_key_spaces_disjoint(raw: Seq<u8>, url: Seq<char>)
    ensures
        is_token_key(token_key(raw)),
        is_dedup_key(dedup_key(url)),
        forall|k: Seq<u8>| !(is_token_key(k) && is_dedup_key(k)),
        token_key(raw) != dedup_key(url),
{
    assert(token_key(raw)[0] == TOKEN_TAG);
    assert(dedup_key(url)[0] == DEDUP_TAG);
}

/// Builds the token record key for `raw`.
pub fn make_token_key(raw: &[u8]) -> (r: Vec<u8>)
    ensures
        r@ == token_key(raw@),
{
    let mut k: Vec<u8> = Vec::new();
    k.push(TOKEN_TAG);
    let mut i: usize = 0;
    while i < raw.len()
        invariant
            i <= raw@.len(),
            k@ == seq![TOKEN_TAG] + raw@.subrange(0, i as int),
        decreases raw@.len() - i,
    {
        k.push(raw[i]);
        i = i + 1;
        assert(raw@.subrange(0, i as int) == raw@.subrange(0, i - 1 as int).push(raw@[i - 1]));
    }
    assert(raw@.subrange(0, raw@.len() as int) == raw@);
    k
}

/// Builds the dedup record key for the link `url`.
pub fn make_dedup_key(url: &str) -> (r: Vec<u8>)
    ensures
        r@ == dedup_key(url@),
        is_dedup_key(r@),
{
    let digest = sha256(url.as_bytes());
    let mut k: Vec<u8> = Vec::new();
    k.push(DEDUP_TAG);
    let mut i: usize = 0;
    while i < digest.len()
        invariant
            i <= digest@.len(),
            k@ == seq![DEDUP_TAG] + digest@.subrange(0, i as int),
        decreases digest@.len() - i,
    {
        k.push(digest[i]);
        i = i + 1;
        assert(digest@.subrange(0, i as int) == digest@.subrange(0, i - 1 as int).push(
            digest@[i - 1],
        ));
    }
    assert(digest@.subrange(0, digest@.len() as int) == digest@);
    k
}

} // verus!
