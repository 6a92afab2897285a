//! The laws of the service, proved over the store model: what creation,
//! redirecting and stats reads promise across calls.

use vstd::prelude::*;
use crate::record::{RecordModel, active_model, counted_model};
use crate::store::{alloc_post, created_post, resolve_spec, stats_spec};
use crate::{LinkError, RECORD_TTL_SECONDS};

verus! {

/// Law: a link just created for a non-empty URL redirects to exactly the
/// submitted URL — on the store the creation left, resolving the new key
/// succeeds, answers that URL, and counts the first click.
pub proof fn lemma_created_link_resolves(
    m0: Map<Seq<char>, RecordModel>,
    m1: Map<Seq<char>, RecordModel>,
    k: Seq<char>,
    u: Seq<char>,
    t: Seq<char>,
)
    requires
        created_post(m0, m1, k, u, t),
        u.len() > 0,
    ensures
        resolve_spec(m1, k).0 == Ok::<Seq<char>, LinkError>(u),
        resolve_spec(m1, k).1 == m1.insert(k, counted_model(active_model(u, t, RECORD_TTL_SECONDS))),
{
}

/// The store after `n` consecutive redirects of `k`.
pub open spec fn after_redirects(
    m: Map<Seq<char>, RecordModel>,
    k: Seq<char>,
    n: nat,
) -> Map<Seq<char>, RecordModel>
    decreases n,
{
    if n == 0 {
        m
    } else {
        after_redirects(resolve_spec(m, k).1, k, (n - 1) as nat)
    }
}

/// Law: the click counter counts exactly the successful redirects, with no
/// lost updates — a key holding a record with a non-empty URL and counter
/// `c` serves `n` further redirects, each one succeeding, and its counter
/// then reads `c + n` while its URL and token are untouched. In particular
/// a counter that starts at zero reads `n` after `n` redirects.
pub proof fn lemma_clicks_count_redirects(m: Map<Seq<char>, RecordModel>, k: Seq<char>, n: nat)
    requires
        m.contains_key(k),
        m[k].url.len() > 0,
        m[k].clicks + n <= u64::MAX,
    ensures
        after_redirects(m, k, n).contains_key(k),
        after_redirects(m, k, n)[k].clicks == m[k].clicks + n,
        after_redirects(m, k, n)[k].url == m[k].url,
        after_redirects(m, k, n)[k].token == m[k].token,
        after_redirects(m, k, n)[k].ttl_seconds == m[k].ttl_seconds,
        n > 0 ==> resolve_spec(m, k).0 == Ok::<Seq<char>, LinkError>(m[k].url),
        forall|t: Seq<char>|
            m[k].token == Some(t) ==> stats_spec(after_redirects(m, k, n), k, Some(t)) == Ok::<
                u64,
                LinkError,
            >((m[k].clicks + n) as u64),
    decreases n,
{
    if n > 0 {
        let m1 = resolve_spec(m, k).1;
        assert(m1 == m.insert(k, counted_model(m[k])));
        lemma_clicks_count_redirects(m1, k, (n - 1) as nat);
    }
}

/// Law: the secret token returned at creation is the sole stats capability —
/// on the store a creation left, reading the new key's stats with exactly
/// that token answers the click counter (still zero), with any other token
/// answers unauthorized, and with no token answers not-found, exactly as it
/// does for a key the store does not hold at all.
pub proof fn lemma_stats_capability(
    m0: Map<Seq<char>, RecordModel>,
    m1: Map<Seq<char>, RecordModel>,
    k: Seq<char>,
    u: Seq<char>,
    t: Seq<char>,
)
    requires
        created_post(m0, m1, k, u, t),
    ensures
        stats_spec(m1, k, Some(t)) == Ok::<u64, LinkError>(0),
        forall|w: Seq<char>|
            w != t ==> stats_spec(m1, k, Some(w)) == Err::<u64, LinkError>(LinkError::Unauthorized),
        stats_spec(m1, k, None) == Err::<u64, LinkError>(LinkError::NotFound),
        forall|q: Seq<char>, w: Option<Seq<char>>|
            !m1.contains_key(q) ==> stats_spec(m1, q, w) == Err::<u64, LinkError>(
                LinkError::NotFound,
            ),
{
}

/// Law: allocation never hands out a key the store already holds, so two
/// consecutive successful allocations return distinct keys — and by
/// induction, any run of successful allocations returns pairwise distinct
/// keys, since every allocated key stays in the store.
pub proof fn lemma_allocations_distinct(
    m0: Map<Seq<char>, RecordModel>,
    m1: Map<Seq<char>, RecordModel>,
    m2: Map<Seq<char>, RecordModel>,
    k1: Seq<char>,
    k2: Seq<char>,
)
    requires
        alloc_post(m0, m1, k1),
        alloc_post(m1, m2, k2),
    ensures
        k1 != k2,
        m2.contains_key(k1) && m2.contains_key(k2),
{
}

/// Law: a key that was reserved but never finalized does not redirect — its
/// URL is still the empty sentinel, so resolving it answers not-found and
/// counts nothing. This is the behavior chosen here for the reserved-key
/// edge.
pub proof fn lemma_reserved_key_does_not_redirect(
    m0: Map<Seq<char>, RecordModel>,
    m1: Map<Seq<char>, RecordModel>,
    k: Seq<char>,
)
    requires
        alloc_post(m0, m1, k),
    ensures
        resolve_spec(m1, k).0 == Err::<Seq<char>, LinkError>(LinkError::NotFound),
        resolve_spec(m1, k).1 == m1,
{
}

} // verus!
