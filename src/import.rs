use vstd::prelude::*;
use vstd::utf8::{decode_utf8, encode_utf8, valid_utf8};

use crate::keys::{token_key, DEDUP_TAG, FINGERPRINT_LEN, TOKEN_LEN};
use crate::text::{text_of, utf8_bytes};
use crate::token::{b64_bytes, token_bytes};

verus! {

/// Why a record of a dump cannot be loaded.
#[derive(Clone, Copy, Debug, PartialEq, Eq, Structural)]
pub enum ImportError {
    /// A field is not standard base64.
    BadEncoding,
    /// A token is not the external form of a raw token.
    BadToken,
    /// A fingerprint has the wrong length.
    BadFingerprint,
}

/// The bytes that `t` decodes to as standard padded base64, if it is such a
/// text.
pub uninterp spec fn std_b64_bytes(t: Seq<char>) -> Option<Seq<u8>>;

/// Relies on `base64::decode`: the decoded bytes, or nothing where the text
/// is not valid standard base64.
#[verifier::external_body]
fn decode_standard(t: &str) -> (r: Option<Vec<u8>>)
    ensures
        match r {
            Some(v) => std_b64_bytes(t@) == Some(v@),
            None => std_b64_bytes(t@) is None,
        },
{
    match base64::decode(t) {
        Ok(v) => Some(v),
        Err(_) => None,
    }
}

/// The raw token that the token text `t` stands for, where it stands for one.
pub open spec fn raw_token(t: Seq<char>) -> Option<Seq<u8>> {
    match b64_bytes(t) {
        Some(raw) => if raw.len() == TOKEN_LEN {
            Some(raw)
        } else {
            None
        },
        None => None,
    }
}

/// The store record that a dumped token record loads as: the dumped key is
/// the base64 of the token's text, the dumped value the base64 of the link.
pub open spec fn token_import(key: Seq<char>, value: Seq<char>) -> Result<
    (Seq<u8>, Seq<u8>),
    ImportError,
> {
    match (std_b64_bytes(key), std_b64_bytes(value)) {
        (Some(kb), Some(vb)) => if !valid_utf8(kb) {
            Err(ImportError::BadToken)
        } else {
            match raw_token(decode_utf8(kb)) {
                Some(raw) => Ok((token_key(raw), vb)),
                None => Err(ImportError::BadToken),
            }
        },
        _ => Err(ImportError::BadEncoding),
    }
}

/// The store record that a dumped dedup record loads as: the dumped key is
/// the base64 of the fingerprint, the dumped value the token's text.
pub open spec fn dedup_import(key: Seq<char>, token: Seq<char>) -> Result<
    (Seq<u8>, Seq<u8>),
    ImportError,
> {
    match std_b64_bytes(key) {
        None => Err(ImportError::BadEncoding),
        Some(d) => if d.len() != FINGERPRINT_LEN {
            Err(ImportError::BadFingerprint)
        } else if raw_token(token) is None {
            Err(ImportError::BadToken)
        } else {
            Ok((seq![DEDUP_TAG] + d, encode_utf8(token)))
        },
    }
}

/// The store record that a dumped pair of base64 fields loads as: a key of
/// fingerprint length makes a dedup record whose value is the token's text,
/// any other key a token record.
pub open spec fn pair_import(key: Seq<char>, value: Seq<char>) -> Result<
    (Seq<u8>, Seq<u8>),
    ImportError,
> {
    match std_b64_bytes(key) {
        None => Err(ImportError::BadEncoding),
        Some(kb) => if kb.len() != FINGERPRINT_LEN {
            token_import(key, value)
        } else {
            match std_b64_bytes(value) {
                None => Err(ImportError::BadEncoding),
                Some(vb) => if !valid_utf8(vb) {
                    Err(ImportError::BadToken)
                } else {
                    dedup_import(key, decode_utf8(vb))
                },
            }
        },
    }
}

/// A loaded record seen as its key and value bytes.
pub open spec fn record_view(r: Result<(Vec<u8>, Vec<u8>), ImportError>) -> Result<
    (Seq<u8>, Seq<u8>),
    ImportError,
> {
    match r {
        Ok((k, v)) => Ok((k@, v@)),
        Err(e) => Err(e),
    }
}

fn raw_token_of(t: &str) -> (r: Option<Vec<u8>>)
    ensures
        match r {
            Some(v) => raw_token(t@) == Some(v@),
            None => raw_token(t@) is None,
        },
{
    match token_bytes(t) {
        Some(raw) => if raw.len() == TOKEN_LEN {
            Some(raw)
        } else {
            None
        },
        None => None,
    }
}

/// Loads a dumped token record, keyed by the raw token in the token key space.
pub fn import_token_record(key: &str, value: &str) -> (r: Result<(Vec<u8>, Vec<u8>), ImportError>)
    ensures
        record_view(r) == token_import(key@, value@),
{
    let kb = match decode_standard(key) {
        Some(kb) => kb,
        None => return Err(ImportError::BadEncoding),
    };
    let vb = match decode_standard(value) {
        Some(vb) => vb,
        None => return Err(ImportError::BadEncoding),
    };
    let text = match text_of(kb) {
        Some(text) => text,
        None => return Err(ImportError::BadToken),
    };
    match raw_token_of(text.as_str()) {
        Some(raw) => Ok((crate::keys::make_token_key(raw.as_slice()), vb)),
        None => Err(ImportError::BadToken),
    }
}

/// Loads a dumped dedup record, keyed by the fingerprint in the dedup key
/// space.
pub fn import_dedup_record(key: &str, token: &str) -> (r: Result<(Vec<u8>, Vec<u8>), ImportError>)
    ensures
        record_view(r) == dedup_import(key@, token@),
{
    let d = match decode_standard(key) {
        Some(d) => d,
        None => return Err(ImportError::BadEncoding),
    };
    if d.len() != FINGERPRINT_LEN {
        return Err(ImportError::BadFingerprint);
    }
    if raw_token_of(token).is_none() {
        return Err(ImportError::BadToken);
    }
    let mut k: Vec<u8> = Vec::new();
    k.push(DEDUP_TAG);
    let mut i: usize = 0;
    while i < d.len()
        invariant
            i <= d@.len(),
            k@ == seq![DEDUP_TAG] + d@.subrange(0, i as int),
        decreases d@.len() - i,
    {
        k.push(d[i]);
        i = i + 1;
        assert(d@.subrange(0, i as int) == d@.subrange(0, i - 1 as int).push(d@[i - 1]));
    }
    assert(d@.subrange(0, d@.len() as int) == d@);
    Ok((k, utf8_bytes(token)))
}

/// Loads a dumped pair of base64 fields as a dedup record where the key is a
/// fingerprint, else as a token record.
pub fn import_record(key: &str, value: &str) -> (r: Result<(Vec<u8>, Vec<u8>), ImportError>)
    ensures
        record_view(r) == pair_import(key@, value@),
{
    let kb = match decode_standard(key) {
        Some(kb) => kb,
        None => return Err(ImportError::BadEncoding),
    };
    if kb.len() != FINGERPRINT_LEN {
        return import_token_record(key, value);
    }
    let vb = match decode_standard(value) {
        Some(vb) => vb,
        None => return Err(ImportError::BadEncoding),
    };
    match text_of(vb) {
        Some(token) => import_dedup_record(key, token.as_str()),
        None => Err(ImportError::BadToken),
    }
}

} // verus!
