use vstd::prelude::*;
use vstd::utf8::{decode_utf8, encode_utf8, valid_utf8};

use crate::allowlist::permits;
use crate::keys::{dedup_key, lemma_key_spaces_disjoint, token_key, TOKEN_LEN};
use crate::service::{
    decodable, first_free, resolution, submission, Contents, ResolveError, SubmitError,
};
use crate::text::lemma_utf8_round_trip;
use crate::token::{b64_bytes, b64_text};
use crate::validate::validation;

verus! {

/// Every dedup record in `m` names a token that resolves, in `m`, to the very
/// link whose fingerprint keys the record.
pub open spec fn consistent(m: Contents) -> bool {
    forall|u: Seq<char>|
        #[trigger] m.contains_key(dedup_key(u)) ==> valid_utf8(m[dedup_key(u)]) && resolution(
            m,
            decode_utf8(m[dedup_key(u)]),
        ) == Ok::<Seq<char>, ResolveError>(u)
}

/// An empty store is consistent.
pub proof fn lemma_empty_consistent()
    ensures
        consistent(Map::empty()),
{
}

/// Every candidate is a raw token of the right length.
pub open spec fn well_sized(ds: Seq<Seq<u8>>) -> bool {
    forall|j: int| 0 <= j < ds.len() ==> (#[trigger] ds[j]).len() == TOKEN_LEN
}

proof fn lemma_first_free_in_range(m: Contents, ds: Seq<Seq<u8>>, i: int)
    requires
        0 <= i,
    ensures
        first_free(m, ds, i) matches Some(k) ==> i <= k < ds.len() && !m.contains_key(
            token_key(ds[k]),
        ),
    decreases ds.len() - i,
{
    if i < ds.len() && m.contains_key(token_key(ds[i])) {
        lemma_first_free_in_range(m, ds, i + 1);
    }
}

/// Submitting the same link twice in a row returns the same token both times,
/// and the second submission changes nothing in the store, whatever
/// candidates either one draws.
pub proof fn lemma_submit_idempotent(
    allow: Seq<Seq<char>>,
    limit: nat,
    m: Contents,
    url: Seq<char>,
    first: Seq<Seq<u8>>,
    second: Seq<Seq<u8>>,
)
    requires
        submission(allow, limit, m, url, first).1 is Ok,
    ensures
        submission(allow, limit, submission(allow, limit, m, url, first).0, url, second)
            == submission(allow, limit, m, url, first),
{
    let m1 = submission(allow, limit, m, url, first).0;
    if !m.contains_key(dedup_key(url)) {
        lemma_first_free_in_range(m, first, 0);
        let k = first_free(m, first, 0)->0;
        let t = b64_text(first[k]);
        lemma_utf8_round_trip(t);
        assert(m1.contains_key(dedup_key(url)));
        assert(m1[dedup_key(url)] == encode_utf8(t));
    }
}

/// A token returned by a successful submission resolves, in the store as the
/// submission leaves it, to the exact link that was submitted.
pub proof fn lemma_round_trip(
    allow: Seq<Seq<char>>,
    limit: nat,
    m: Contents,
    url: Seq<char>,
    ds: Seq<Seq<u8>>,
)
    requires
        consistent(m),
        well_sized(ds),
        decodable(ds),
        submission(allow, limit, m, url, ds).1 is Ok,
    ensures
        resolution(
            submission(allow, limit, m, url, ds).0,
            submission(allow, limit, m, url, ds).1->Ok_0,
        ) == Ok::<Seq<char>, ResolveError>(url),
{
    if !m.contains_key(dedup_key(url)) {
        lemma_first_free_in_range(m, ds, 0);
        let k = first_free(m, ds, 0)->0;
        let raw = ds[k];
        let t = b64_text(raw);
        let m1 = submission(allow, limit, m, url, ds).0;
        lemma_key_spaces_disjoint(raw, url);
        lemma_utf8_round_trip(url);
        assert(b64_bytes(t) == Some(raw));
        assert(m1.contains_key(token_key(raw)));
        assert(m1[token_key(raw)] == encode_utf8(url));
    } else {
        assert(m.contains_key(dedup_key(url)));
    }
}

/// A submission keeps every dedup record consistent with the token records,
/// where no other link has the submitted link's fingerprint.
pub proof fn lemma_submit_keeps_consistent(
    allow: Seq<Seq<char>>,
    limit: nat,
    m: Contents,
    url: Seq<char>,
    ds: Seq<Seq<u8>>,
)
    requires
        consistent(m),
        well_sized(ds),
        decodable(ds),
        forall|u: Seq<char>| #[trigger] dedup_key(u) == dedup_key(url) ==> u == url,
    ensures
        consistent(submission(allow, limit, m, url, ds).0),
{
    let (m1, r) = submission(allow, limit, m, url, ds);
    if r is Ok && !m.contains_key(dedup_key(url)) {
        lemma_first_free_in_range(m, ds, 0);
        let k = first_free(m, ds, 0)->0;
        let raw = ds[k];
        let t = b64_text(raw);
        let tk = token_key(raw);
        let fk = dedup_key(url);
        lemma_round_trip(allow, limit, m, url, ds);
        lemma_utf8_round_trip(t);
        assert forall|u: Seq<char>| #[trigger] m1.contains_key(dedup_key(u)) implies valid_utf8(
            m1[dedup_key(u)],
        ) && resolution(m1, decode_utf8(m1[dedup_key(u)])) == Ok::<Seq<char>, ResolveError>(u) by {
            if dedup_key(u) == fk {
                assert(u == url);
            } else {
                lemma_key_spaces_disjoint(raw, u);
                assert(m.contains_key(dedup_key(u)));
                let t2 = decode_utf8(m[dedup_key(u)]);
                assert(resolution(m, t2) == Ok::<Seq<char>, ResolveError>(u));
                let raw2 = b64_bytes(t2)->0;
                lemma_key_spaces_disjoint(raw2, url);
                assert(m.contains_key(token_key(raw2)));
                assert(token_key(raw2) != tk);
                assert(m1[token_key(raw2)] == m[token_key(raw2)]);
            }
        }
    }
}

/// For candidates of the right size whose external forms decode back to
/// them: a token that a submission returns resolves to the submitted link,
/// and the store stays consistent where no other link shares the submitted
/// link's fingerprint.
pub proof fn lemma_submission_guarantees(
    allow: Seq<Seq<char>>,
    limit: nat,
    m: Contents,
    url: Seq<char>,
    ds: Seq<Seq<u8>>,
)
    requires
        well_sized(ds),
        decodable(ds),
    ensures
        consistent(m) && submission(allow, limit, m, url, ds).1 is Ok ==> resolution(
            submission(allow, limit, m, url, ds).0,
            submission(allow, limit, m, url, ds).1->Ok_0,
        ) == Ok::<Seq<char>, ResolveError>(url),
        consistent(m) && (forall|u: Seq<char>| #[trigger] dedup_key(u) == dedup_key(url) ==> u == url)
            ==> consistent(submission(allow, limit, m, url, ds).0),
{
    if consistent(m) && submission(allow, limit, m, url, ds).1 is Ok {
        lemma_round_trip(allow, limit, m, url, ds);
    }
    if consistent(m) && (forall|u: Seq<char>| #[trigger] dedup_key(u) == dedup_key(url) ==> u == url) {
        lemma_submit_keeps_consistent(allow, limit, m, url, ds);
    }
}

/// A link whose domain is neither an allowlist entry nor has its registrable
/// root among them is rejected, and nothing is written.
pub proof fn lemma_domain_enforced(
    allow: Seq<Seq<char>>,
    limit: nat,
    m: Contents,
    url: Seq<char>,
    ds: Seq<Seq<u8>>,
)
    requires
        validation(url, limit) is Ok,
        !permits(allow, validation(url, limit)->Ok_0.0, validation(url, limit)->Ok_0.1),
    ensures
        submission(allow, limit, m, url, ds) == (m, Err::<Seq<char>, SubmitError>(
            SubmitError::DomainRejected,
        )),
{
}

/// A link one byte or more over the limit is refused as too large and nothing
/// is written; a link at the limit or under it is never refused as too large.
pub proof fn lemma_size_boundary(
    allow: Seq<Seq<char>>,
    limit: nat,
    m: Contents,
    url: Seq<char>,
    ds: Seq<Seq<u8>>,
)
    ensures
        encode_utf8(url).len() > limit ==> submission(allow, limit, m, url, ds) == (
            m,
            Err::<Seq<char>, SubmitError>(SubmitError::TooLarge),
        ),
        encode_utf8(url).len() <= limit ==> submission(allow, limit, m, url, ds).1 != Err::<
            Seq<char>,
            SubmitError,
        >(SubmitError::TooLarge),
{
}

/// A token that decodes to a raw token never written to the store resolves to
/// nothing.
pub proof fn lemma_unknown_token(m: Contents, t: Seq<char>, raw: Seq<u8>)
    requires
        b64_bytes(t) == Some(raw),
        raw.len() == TOKEN_LEN,
        !m.contains_key(token_key(raw)),
    ensures
        resolution(m, t) == Err::<Seq<char>, ResolveError>(ResolveError::NotFound),
{
}

/// When the first candidate is already taken and the second is free, a new
/// link gets the second one: a different token, with the record under the
/// first left as it was.
pub proof fn lemma_collision_resampled(
    allow: Seq<Seq<char>>,
    limit: nat,
    m: Contents,
    url: Seq<char>,
    ds: Seq<Seq<u8>>,
)
    requires
        validation(url, limit) is Ok,
        permits(allow, validation(url, limit)->Ok_0.0, validation(url, limit)->Ok_0.1),
        !m.contains_key(dedup_key(url)),
        ds.len() >= 2,
        m.contains_key(token_key(ds[0])),
        !m.contains_key(token_key(ds[1])),
    ensures
        ds[0] != ds[1],
        submission(allow, limit, m, url, ds).1 == Ok::<Seq<char>, SubmitError>(b64_text(ds[1])),
        submission(allow, limit, m, url, ds).0.contains_key(token_key(ds[1])),
        submission(allow, limit, m, url, ds).0[token_key(ds[0])] == m[token_key(ds[0])],
{
    assert(first_free(m, ds, 1) == Some(1int));
    assert(first_free(m, ds, 0) == Some(1int));
    lemma_key_spaces_disjoint(ds[0], url);
}

} // verus!
