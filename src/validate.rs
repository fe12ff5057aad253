use vstd::prelude::*;
use vstd::utf8::encode_utf8;

use crate::text::opt_text;

verus! {

/// Why a submitted string is not accepted as a link.
#[derive(Clone, Copy, Debug, PartialEq, Eq, Structural)]
pub enum ValidationError {
    /// The string is longer, in bytes, than the configured limit.
    TooLarge,
    /// The string is not an absolute URL with a host that is a domain name.
    Malformed,
}

/// The host of the absolute URL written in `s`, if `s` parses as one that has
/// a host.
pub uninterp spec fn url_host(s: Seq<char>) -> Option<Seq<char>>;

/// Whether `h` parses as a domain name to which the public suffix list
/// assigns a suffix (an unlisted top-level label counts as one), and if so its
/// registrable root domain, where it has one.
pub uninterp spec fn domain_parse(h: Seq<char>) -> Option<Option<Seq<char>>>;

/// Relies on `url::Url::parse` and `Url::host_str`: the host of the parsed URL.
#[verifier::external_body]
fn host_of(raw: &str) -> (r: Option<String>)
    ensures
        opt_text(r) == url_host(raw@),
{
    match url::Url::parse(raw) {
        Ok(u) => match u.host_str() {
            Some(h) => Some(h.to_string()),
            None => None,
        },
        Err(_) => None,
    }
}

/// Relies on `addr::parse_domain_name` and `Name::root`: whether the host is a
/// domain name, and its registrable root.
#[verifier::external_body]
fn root_of(host: &str) -> (r: Option<Option<String>>)
    ensures
        r is Some <==> domain_parse(host@) is Some,
        r is Some ==> opt_text(r->0) == domain_parse(host@)->0,
{
    match addr::parse_domain_name(host) {
        Ok(name) => match name.root() {
            Some(root) => Some(Some(root.to_string())),
            None => Some(None),
        },
        Err(_) => None,
    }
}

/// A submitted link that passed validation: its host, which is a domain
/// name, and that domain's registrable root where it has one.
pub struct ParsedUrl {
    pub domain: String,
    pub root: Option<String>,
}

impl ParsedUrl {
    pub open spec fn view(&self) -> (Seq<char>, Option<Seq<char>>) {
        (self.domain@, opt_text(self.root))
    }
}

/// A validation result with the parsed link seen as its domain and root.
pub open spec fn validation_view(r: Result<ParsedUrl, ValidationError>) -> Result<
    (Seq<char>, Option<Seq<char>>),
    ValidationError,
> {
    match r {
        Ok(p) => Ok(p@),
        Err(e) => Err(e),
    }
}

/// What validation makes of `raw` under a size limit of `limit` bytes.
pub open spec fn validation(raw: Seq<char>, limit: nat) -> Result<
    (Seq<char>, Option<Seq<char>>),
    ValidationError,
> {
    if encode_utf8(raw).len() > limit {
        Err(ValidationError::TooLarge)
    } else {
        match url_host(raw) {
            None => Err(ValidationError::Malformed),
            Some(h) => match domain_parse(h) {
                None => Err(ValidationError::Malformed),
                Some(root) => Ok((h, root)),
            },
        }
    }
}

/// Checks that `raw` is at most `limit` bytes long and is an absolute URL
/// whose host is a domain name, and extracts that domain and its root.
pub fn validate(raw: &str, limit: usize) -> (r: Result<ParsedUrl, ValidationError>)
    ensures
        validation_view(r) == validation(raw@, limit as nat),
{
    if raw.as_bytes().len() > limit {
        return Err(ValidationError::TooLarge);
    }
    match host_of(raw) {
        None => Err(ValidationError::Malformed),
        Some(host) => match root_of(host.as_str()) {
            None => Err(ValidationError::Malformed),
            Some(root) => Ok(ParsedUrl { domain: host, root }),
        },
    }
}

} // verus!
