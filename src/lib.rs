//! A URL shortener's core: validation of submitted links, a domain allowlist,
//! token issuance with byte-exact deduplication, and resolution of tokens, all
//! over a key-value store whose two record kinds live in disjoint key spaces.

pub mod allowlist;
pub mod cors;
pub mod import;
pub mod keys;
pub mod laws;
pub mod service;
pub mod store;
pub mod text;
pub mod token;
pub mod validate;

pub use allowlist::Allowlist;
pub use cors::{CorsHeader, CORS, PREFLIGHT_STATUS};
pub use import::{import_dedup_record, import_record, import_token_record, ImportError};
pub use keys::{make_dedup_key, make_token_key, DEDUP_TAG, FINGERPRINT_LEN, TOKEN_LEN, TOKEN_TAG};
pub use service::{resolve, ResolveError, Shortener, SubmitError, MAX_ATTEMPTS};
pub use store::{bytes_eq, MemStore};
pub use token::{token_bytes, token_text};
pub use validate::{validate, ParsedUrl, ValidationError};
