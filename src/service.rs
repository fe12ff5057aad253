use vstd::prelude::*;
use vstd::utf8::{decode_utf8, encode_utf8, valid_utf8};

use crate::allowlist::{permits, Allowlist};
use crate::laws::{consistent, lemma_submission_guarantees};
use crate::keys::{dedup_key, is_token_key, make_dedup_key, make_token_key, token_key, TOKEN_LEN};
use crate::store::MemStore;
use crate::text::{text_of, utf8_bytes};
use crate::token::{b64_bytes, b64_text, draw_token, token_bytes, token_text};
use crate::validate::{validate, validation, ValidationError};

verus! {

/// How many random candidates a submission draws before it gives up.
pub const MAX_ATTEMPTS: usize = 64;

/// Why a submission issued no token.
#[derive(Clone, Copy, Debug, PartialEq, Eq, Structural)]
pub enum SubmitError {
    /// The link is longer than the configured limit.
    TooLarge,
    /// The link is not an absolute URL whose host is a domain name.
    Malformed,
    /// The link's domain is not on the allowlist: an expected outcome.
    DomainRejected,
    /// A stored dedup record does not hold a token's text.
    Storage,
    /// Every candidate token drawn was already taken.
    ExhaustedRetries,
}

/// Why a token resolved to no link.
#[derive(Clone, Copy, Debug, PartialEq, Eq, Structural)]
pub enum ResolveError {
    /// The token is not the external form of a raw token.
    InvalidToken,
    /// No link was ever bound to the token.
    NotFound,
    /// The stored link is not text.
    Storage,
}

/// A store's contents.
pub type Contents = Map<Seq<u8>, Seq<u8>>;

/// The index of the first candidate, from `i` on, whose token key is free in `m`.
pub open spec fn first_free(m: Contents, draws: Seq<Seq<u8>>, i: int) -> Option<int>
    decreases draws.len() - i,
{
    if i < 0 || i >= draws.len() {
        None
    } else if !m.contains_key(token_key(draws[i])) {
        Some(i)
    } else {
        first_free(m, draws, i + 1)
    }
}

/// What issuing a new token for `url` does to `m`, given the candidates in the
/// order in which they are drawn: the first free one is taken, its token
/// record written, then the dedup record that points to it.
pub open spec fn fresh_issue(m: Contents, url: Seq<char>, draws: Seq<Seq<u8>>) -> (
    Contents,
    Result<Seq<char>, SubmitError>,
) {
    match first_free(m, draws, 0) {
        Some(i) => {
            let t = b64_text(draws[i]);
            (
                m.insert(token_key(draws[i]), encode_utf8(url)).insert(
                    dedup_key(url),
                    encode_utf8(t),
                ),
                Ok(t),
            )
        },
        None => (m, Err(SubmitError::ExhaustedRetries)),
    }
}

/// What submitting `url` does to a store holding `m`, and what it returns.
pub open spec fn submission(
    allow: Seq<Seq<char>>,
    limit: nat,
    m: Contents,
    url: Seq<char>,
    draws: Seq<Seq<u8>>,
) -> (Contents, Result<Seq<char>, SubmitError>) {
    match validation(url, limit) {
        Err(ValidationError::TooLarge) => (m, Err(SubmitError::TooLarge)),
        Err(ValidationError::Malformed) => (m, Err(SubmitError::Malformed)),
        Ok((domain, root)) => if !permits(allow, domain, root) {
            (m, Err(SubmitError::DomainRejected))
        } else if m.contains_key(dedup_key(url)) {
            let v = m[dedup_key(url)];
            if valid_utf8(v) {
                (m, Ok(decode_utf8(v)))
            } else {
                (m, Err(SubmitError::Storage))
            }
        } else {
            fresh_issue(m, url, draws)
        },
    }
}

/// What resolving the token `t` against a store holding `m` returns.
pub open spec fn resolution(m: Contents, t: Seq<char>) -> Result<Seq<char>, ResolveError> {
    match b64_bytes(t) {
        None => Err(ResolveError::InvalidToken),
        Some(raw) => if raw.len() != TOKEN_LEN {
            Err(ResolveError::InvalidToken)
        } else if !m.contains_key(token_key(raw)) {
            Err(ResolveError::NotFound)
        } else if valid_utf8(m[token_key(raw)]) {
            Ok(decode_utf8(m[token_key(raw)]))
        } else {
            Err(ResolveError::Storage)
        },
    }
}

/// A submission's result with the token seen as its text.
pub open spec fn submitted(r: Result<String, SubmitError>) -> Result<Seq<char>, SubmitError> {
    match r {
        Ok(t) => Ok(t@),
        Err(e) => Err(e),
    }
}

/// A resolution's result with the link seen as its text.
pub open spec fn resolved(r: Result<String, ResolveError>) -> Result<Seq<char>, ResolveError> {
    match r {
        Ok(u) => Ok(u@),
        Err(e) => Err(e),
    }
}

/// Whether the external form of each candidate decodes back to it.
pub open spec fn decodable(ds: Seq<Seq<u8>>) -> bool {
    forall|j: int| 0 <= j < ds.len() ==> b64_bytes(#[trigger] b64_text(ds[j])) == Some(ds[j])
}

/// Candidate raw tokens seen as byte sequences.
pub open spec fn candidates(d: Seq<[u8; 8]>) -> Seq<Seq<u8>> {
    d.map_values(|a: [u8; 8]| a@)
}

proof fn lemma_first_free_push(m: Contents, ds: Seq<Seq<u8>>, x: Seq<u8>, i: int)
    requires
        0 <= i <= ds.len(),
        first_free(m, ds, i) is None,
    ensures
        first_free(m, ds.push(x), i) == if m.contains_key(token_key(x)) {
            None::<int>
        } else {
            Some(ds.len() as int)
        },
    decreases ds.len() - i,
{
    if i < ds.len() {
        assert(ds.push(x)[i] == ds[i]);
        lemma_first_free_push(m, ds, x, i + 1);
    } else {
        assert(ds.push(x)[i] == x);
        assert(first_free(m, ds.push(x), i + 1) is None);
    }
}

/// What the checks before issuing found: the token already bound to the
/// link, or the key of the dedup record that a new token will need.
enum Screened {
    Existing(String),
    Fresh(Vec<u8>),
}

/// The link shortener: an allowlist and a size limit, applied to links
/// submitted against a store.
pub struct Shortener {
    allow: Allowlist,
    limit: usize,
}

impl Shortener {
    pub closed spec fn allowed(&self) -> Seq<Seq<char>> {
        self.allow@
    }

    pub closed spec fn limit(&self) -> nat {
        self.limit as nat
    }

    pub fn new(allow: Allowlist, limit: usize) -> (r: Shortener)
        ensures
            r.allowed() == allow@,
            r.limit() == limit,
    {
        Shortener { allow, limit }
    }

    /// Validates and checks `raw` and looks for its dedup record.
    fn screen(&self, store: &MemStore, raw: &str) -> (r: Result<Screened, SubmitError>)
        requires
            store.wf(),
        ensures
            match r {
                Ok(Screened::Fresh(fk)) => fk@ == dedup_key(raw@) && !store@.contains_key(fk@)
                    && forall|ds: Seq<Seq<u8>>|
                    #[trigger] submission(self.allowed(), self.limit(), store@, raw@, ds)
                        == fresh_issue(store@, raw@, ds),
                Ok(Screened::Existing(t)) => forall|ds: Seq<Seq<u8>>|
                    #[trigger] submission(self.allowed(), self.limit(), store@, raw@, ds) == (
                    store@,
                    Ok::<Seq<char>, SubmitError>(t@),
                ),
                Err(e) => e != SubmitError::ExhaustedRetries && forall|ds: Seq<Seq<u8>>|
                    #[trigger] submission(self.allowed(), self.limit(), store@, raw@, ds) == (
                    store@,
                    Err::<Seq<char>, SubmitError>(e),
                ),
            },
    {
        let parsed = match validate(raw, self.limit) {
            Ok(p) => p,
            Err(ValidationError::TooLarge) => return Err(SubmitError::TooLarge),
            Err(ValidationError::Malformed) => return Err(SubmitError::Malformed),
        };
        if !self.allow.is_allowed(&parsed) {
            return Err(SubmitError::DomainRejected);
        }
        let fk = make_dedup_key(raw);
        match store.get(fk.as_slice()) {
            Some(v) => match text_of(v) {
                Some(t) => Ok(Screened::Existing(t)),
                None => Err(SubmitError::Storage),
            },
            None => Ok(Screened::Fresh(fk)),
        }
    }

    /// Tries the candidate `cand`: where its token key is free, writes the
    /// token record and then the dedup record, and returns the token.
    fn try_candidate(
        store: &mut MemStore,
        raw: &str,
        fk: &Vec<u8>,
        cand: &[u8; 8],
        t: String,
    ) -> (r: Option<String>)
        requires
            old(store).wf(),
            t@ == b64_text(cand@),
            fk@ == dedup_key(raw@),
            !old(store)@.contains_key(fk@),
        ensures
            final(store).wf(),
            match r {
                None => old(store)@.contains_key(token_key(cand@)) && final(store)@ == old(
                    store,
                )@,
                Some(t) => !old(store)@.contains_key(token_key(cand@)) && t@ == b64_text(cand@)
                    && final(store)@ == old(store)@.insert(
                    token_key(cand@),
                    encode_utf8(raw@),
                ).insert(fk@, encode_utf8(t@)),
            },
            r is None ==> final(store).spec_len() == old(store).spec_len(),
            r is Some ==> final(store).spec_len() == old(store).spec_len() + 2
                && final(store).key_at(old(store).spec_len() as int) == token_key(cand@)
                && final(store).key_at(old(store).spec_len() + 1int) == fk@,
    {
        let tk = make_token_key(cand);
        if store.contains(tk.as_slice()) {
            return None;
        }
        proof {
            crate::keys::lemma_key_spaces_disjoint(cand@, raw@);
        }
        store.put(tk, utf8_bytes(raw));
        store.put(slice_to_vec_of(fk), utf8_bytes(t.as_str()));
        Some(t)
    }

    /// Submits `raw`, trying the given candidate raw tokens in order where a
    /// new token is needed.
    pub fn submit_with(&self, store: &mut MemStore, raw: &str, draws: &Vec<[u8; 8]>) -> (r: Result<
        String,
        SubmitError,
    >)
        requires
            old(store).wf(),
        ensures
            final(store).wf(),
            (final(store)@, submitted(r)) == submission(
                self.allowed(),
                self.limit(),
                old(store)@,
                raw@,
                candidates(draws@),
            ),
            r is Ok && !old(store)@.contains_key(dedup_key(raw@)) ==> final(store).spec_len()
                == old(store).spec_len() + 2 && is_token_key(
                final(store).key_at(old(store).spec_len() as int),
            ) && final(store).key_at(old(store).spec_len() + 1int) == dedup_key(raw@),
            !(r is Ok && !old(store)@.contains_key(dedup_key(raw@))) ==> final(store).spec_len()
                == old(store).spec_len(),
    {
        let ghost dv = candidates(draws@);
        let ghost m0 = store@;
        let fk = match self.screen(store, raw) {
            Err(e) => {
                assert(submission(self.allowed(), self.limit(), m0, raw@, dv) == (
                    m0,
                    Err::<Seq<char>, SubmitError>(e),
                ));
                return Err(e);
            },
            Ok(Screened::Existing(t)) => {
                assert(submission(self.allowed(), self.limit(), m0, raw@, dv) == (
                    m0,
                    Ok::<Seq<char>, SubmitError>(t@),
                ));
                return Ok(t);
            },
            Ok(Screened::Fresh(fk)) => fk,
        };
        assert(submission(self.allowed(), self.limit(), m0, raw@, dv) == fresh_issue(m0, raw@, dv));
        let mut i: usize = 0;
        while i < draws.len()
            invariant
                store.wf(),
                store@ == m0,
                old(store)@ == m0,
                store.spec_len() == old(store).spec_len(),
                fk@ == dedup_key(raw@),
                !m0.contains_key(fk@),
                dv == candidates(draws@),
                i <= draws@.len(),
                first_free(m0, dv, 0) == first_free(m0, dv, i as int),
                submission(self.allowed(), self.limit(), m0, raw@, dv) == fresh_issue(m0, raw@, dv),
            decreases draws@.len() - i,
        {
            assert(dv[i as int] == draws@[i as int]@);
            let t = token_text(&draws[i]);
            match Self::try_candidate(store, raw, &fk, &draws[i], t) {
                Some(t) => {
                    assert(first_free(m0, dv, i as int) == Some(i as int));
                    assert(fresh_issue(m0, raw@, dv).0 == store@);
                    assert(fresh_issue(m0, raw@, dv).1 == submitted(Ok::<String, SubmitError>(t)));
                    return Ok(t);
                },
                None => {},
            }
            i = i + 1;
        }
        Err(SubmitError::ExhaustedRetries)
    }

    /// Submits `raw`: returns the token already bound to exactly this string,
    /// or binds a new random token to it.
    pub fn submit(&self, store: &mut MemStore, raw: &str) -> (r: Result<String, SubmitError>)
        requires
            old(store).wf(),
        ensures
            final(store).wf(),
            exists|ds: Seq<Seq<u8>>|
                ds.len() <= MAX_ATTEMPTS && decodable(ds) && (forall|j: int|
                    0 <= j < ds.len() ==> (#[trigger] ds[j]).len() == TOKEN_LEN) && (
                final(store)@,
                submitted(r),
            ) == #[trigger] submission(self.allowed(), self.limit(), old(store)@, raw@, ds) && (
                submitted(r) == Err::<Seq<char>, SubmitError>(SubmitError::ExhaustedRetries)
                    ==> ds.len() == MAX_ATTEMPTS),
            (forall|k: Seq<u8>| #[trigger] old(store)@.contains_key(k) ==> !is_token_key(k))
                ==> submitted(r) != Err::<Seq<char>, SubmitError>(SubmitError::ExhaustedRetries),
            consistent(old(store)@) && r is Ok ==> resolution(final(store)@, r->Ok_0@) == Ok::<
                Seq<char>,
                ResolveError,
            >(raw@),
            consistent(old(store)@) && (forall|u: Seq<char>|
                #[trigger] dedup_key(u) == dedup_key(raw@) ==> u == raw@) ==> consistent(
                final(store)@,
            ),
            r is Ok && !old(store)@.contains_key(dedup_key(raw@)) ==> final(store).spec_len()
                == old(store).spec_len() + 2 && is_token_key(
                final(store).key_at(old(store).spec_len() as int),
            ) && final(store).key_at(old(store).spec_len() + 1int) == dedup_key(raw@),
            !(r is Ok && !old(store)@.contains_key(dedup_key(raw@))) ==> final(store).spec_len()
                == old(store).spec_len(),
    {
        let ghost m0 = store@;
        let ghost none = Seq::<Seq<u8>>::empty();
        let fk = match self.screen(store, raw) {
            Err(e) => {
                assert(submission(self.allowed(), self.limit(), m0, raw@, none) == (
                    m0,
                    Err::<Seq<char>, SubmitError>(e),
                ));
                return Err(e);
            },
            Ok(Screened::Existing(t)) => {
                assert(submission(self.allowed(), self.limit(), m0, raw@, none) == (
                    m0,
                    Ok::<Seq<char>, SubmitError>(t@),
                ));
                proof {
                    lemma_submission_guarantees(self.allowed(), self.limit(), m0, raw@, none);
                }
                return Ok(t);
            },
            Ok(Screened::Fresh(fk)) => fk,
        };
        let ghost mut ds = Seq::<Seq<u8>>::empty();
        let mut n: usize = 0;
        while n < MAX_ATTEMPTS
            invariant
                store.wf(),
                store@ == m0,
                old(store)@ == m0,
                store.spec_len() == old(store).spec_len(),
                fk@ == dedup_key(raw@),
                !m0.contains_key(fk@),
                n <= MAX_ATTEMPTS,
                ds.len() == n,
                forall|j: int| 0 <= j < ds.len() ==> (#[trigger] ds[j]).len() == TOKEN_LEN,
                decodable(ds),
                first_free(m0, ds, 0) is None,
                forall|q: Seq<Seq<u8>>|
                    #[trigger] submission(self.allowed(), self.limit(), m0, raw@, q)
                        == fresh_issue(m0, raw@, q),
            decreases MAX_ATTEMPTS - n,
        {
            let cand = draw_token();
            proof {
                lemma_first_free_push(m0, ds, cand@, 0);
            }
            let ghost next = ds.push(cand@);
            let t = token_text(&cand);
            match Self::try_candidate(store, raw, &fk, &cand, t) {
                Some(t) => {
                    assert(next[ds.len() as int] == cand@);
                    assert(first_free(m0, next, 0) == Some(ds.len() as int));
                    assert(fresh_issue(m0, raw@, next).0 == store@);
                    assert(fresh_issue(m0, raw@, next).1 == submitted(
                        Ok::<String, SubmitError>(t),
                    ));
                    assert(forall|j: int|
                        0 <= j < next.len() ==> (#[trigger] next[j]).len() == TOKEN_LEN);
                    assert(decodable(next));
                    assert(submission(self.allowed(), self.limit(), m0, raw@, next)
                        == fresh_issue(m0, raw@, next));
                    proof {
                        lemma_submission_guarantees(self.allowed(), self.limit(), m0, raw@, next);
                    }
                    return Ok(t);
                },
                None => {},
            }
            proof {
                assert(decodable(next));
                ds = next;
            }
            n = n + 1;
        }
        assert(submission(self.allowed(), self.limit(), m0, raw@, ds) == fresh_issue(
            m0,
            raw@,
            ds,
        ));
        proof {
            lemma_submission_guarantees(self.allowed(), self.limit(), m0, raw@, ds);
            assert(m0.contains_key(token_key(ds[0])));
            crate::keys::lemma_key_spaces_disjoint(ds[0], raw@);
        }
        Err(SubmitError::ExhaustedRetries)
    }
}

/// Copies a byte vector.
fn slice_to_vec_of(v: &Vec<u8>) -> (r: Vec<u8>)
    ensures
        r@ == v@,
{
    vstd::slice::slice_to_vec(v.as_slice())
}

/// Resolves the token `t` to the link bound to it.
pub fn resolve(store: &MemStore, t: &str) -> (r: Result<String, ResolveError>)
    requires
        store.wf(),
    ensures
        resolved(r) == resolution(store@, t@),
{
    let raw = match token_bytes(t) {
        Some(raw) => raw,
        None => return Err(ResolveError::InvalidToken),
    };
    if raw.len() != TOKEN_LEN {
        return Err(ResolveError::InvalidToken);
    }
    let tk = make_token_key(raw.as_slice());
    match store.get(tk.as_slice()) {
        None => Err(ResolveError::NotFound),
        Some(v) => match text_of(v) {
            Some(u) => Ok(u),
            None => Err(ResolveError::Storage),
        },
    }
}

} // verus!
