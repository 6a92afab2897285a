//! The verified heart of the service: a key-value store of link records,
//! modeled as a map from short keys to record models, together with the
//! allocation protocol and the record lifecycle operations.
//!
//! The store here is the reference model the contracts and laws are proved
//! against; a deployment backs it with an external key-value service and
//! drives the same transitions through the decision functions of
//! [`crate::service`].

use vstd::prelude::*;
use crate::record::{LinkRecord, RecordModel, reserved_model, active_model, counted_model};
use crate::token_gen::{rand_string, is_alnum_string};
use crate::{LinkError, KEY_LEN, TOKEN_LEN, MAX_ALLOC_ATTEMPTS, RECORD_TTL_SECONDS};
use vstd::pervasive::unreached;

verus! {

/// The store of link records, keyed by short key.
pub struct LinkStore {
    entries: Vec<(String, LinkRecord)>,
}

/// The map a sequence of key/record pairs denotes; later pairs win.
pub open spec fn map_of(s: Seq<(String, LinkRecord)>) -> Map<Seq<char>, RecordModel>
    decreases s.len(),
{
    if s.len() == 0 {
        Map::empty()
    } else {
        map_of(s.drop_last()).insert(s.last().0@, s.last().1@)
    }
}

/// No two pairs carry the same key.
pub open spec fn unique_keys(s: Seq<(String, LinkRecord)>) -> bool {
    forall|i: int, j: int| 0 <= i < j < s.len() ==> (#[trigger] s[i]).0@ != (#[trigger] s[j]).0@
}

/// A key is in the denoted map exactly when some pair carries it.
proof fn lemma_map_of_contains(s: Seq<(String, LinkRecord)>, k: Seq<char>)
    ensures
        map_of(s).contains_key(k) <==> exists|i: int| 0 <= i < s.len() && (#[trigger] s[i]).0@ == k,
    decreases s.len(),
{
    if s.len() > 0 {
        lemma_map_of_contains(s.drop_last(), k);
        if s.last().0@ == k {
            assert(s[s.len() - 1].0@ == k);
        } else if map_of(s).contains_key(k) {
            let i = choose|i: int| 0 <= i < s.drop_last().len() && (#[trigger] s.drop_last()[i]).0@ == k;
            assert(s[i].0@ == k);
        } else {
            assert forall|i: int| 0 <= i < s.len() implies (#[trigger] s[i]).0@ != k by {
                if i < s.len() - 1 {
                    assert(s.drop_last()[i].0@ == s[i].0@);
                }
            }
        }
    }
}

/// Under unique keys, the pair at index `i` is what the denoted map holds.
proof fn lemma_map_of_index(s: Seq<(String, LinkRecord)>, i: int)
    requires
        unique_keys(s),
        0 <= i < s.len(),
    ensures
        map_of(s).contains_key(s[i].0@),
        map_of(s)[s[i].0@] == s[i].1@,
    decreases s.len(),
{
    if i == s.len() - 1 {
    } else {
        assert(unique_keys(s.drop_last()));
        assert(s.drop_last()[i] == s[i]);
        lemma_map_of_index(s.drop_last(), i);
        assert(s[i].0@ != s.last().0@);
    }
}

/// Pushing a pair inserts its key.
proof fn lemma_map_of_push(s: Seq<(String, LinkRecord)>, p: (String, LinkRecord))
    ensures
        map_of(s.push(p)) == map_of(s).insert(p.0@, p.1@),
{
    assert(s.push(p).drop_last() =~= s);
    assert(s.push(p).last() == p);
}

/// Overwriting the pair that carries a key re-inserts that key.
proof fn lemma_map_of_update(s: Seq<(String, LinkRecord)>, i: int, p: (String, LinkRecord))
    requires
        unique_keys(s),
        0 <= i < s.len(),
        p.0@ == s[i].0@,
    ensures
        map_of(s.update(i, p)) == map_of(s).insert(p.0@, p.1@),
        unique_keys(s.update(i, p)),
    decreases s.len(),
{
    let t = s.update(i, p);
    assert forall|x: int, y: int| 0 <= x < y < t.len() implies (#[trigger] t[x]).0@ != (#[trigger] t[y]).0@ by {
        assert(s[x].0@ != s[y].0@);
    }
    if i == s.len() - 1 {
        assert(t.drop_last() =~= s.drop_last());
        assert(t.last() == p);
        assert(map_of(t) == map_of(s.drop_last()).insert(p.0@, p.1@));
        assert(map_of(s).insert(p.0@, p.1@)
            =~= map_of(s.drop_last()).insert(s.last().0@, s.last().1@).insert(p.0@, p.1@));
        assert(map_of(s.drop_last()).insert(s.last().0@, s.last().1@).insert(p.0@, p.1@)
            =~= map_of(s.drop_last()).insert(p.0@, p.1@));
    } else {
        assert(t.drop_last() =~= s.drop_last().update(i, p));
        assert(t.last() == s.last());
        assert(unique_keys(s.drop_last()));
        assert(s.drop_last()[i] == s[i]);
        lemma_map_of_update(s.drop_last(), i, p);
        assert(map_of(t) == map_of(s.drop_last()).insert(p.0@, p.1@).insert(s.last().0@, s.last().1@));
        // The two inserted keys differ, so the inserts commute.
        assert(s[i].0@ != s.last().0@);
        assert(map_of(s.drop_last()).insert(p.0@, p.1@).insert(s.last().0@, s.last().1@)
            =~= map_of(s.drop_last()).insert(s.last().0@, s.last().1@).insert(p.0@, p.1@));
    }
}

/// The view a supplied stats token has, if one was supplied.
pub open spec fn str_opt_view(o: Option<&String>) -> Option<Seq<char>> {
    match o {
        Some(t) => Some(t@),
        None => None,
    }
}

/// The view of a returned redirect target.
pub open spec fn result_view(r: Result<String, LinkError>) -> Result<Seq<char>, LinkError> {
    match r {
        Ok(u) => Ok(u@),
        Err(e) => Err(e),
    }
}

/// What a redirect does to the store `m`, and what it answers: an absent key
/// and a key that is only reserved (empty URL) answer not-found and leave the
/// store alone; a counter the store cannot raise answers store-unavailable;
/// otherwise one click is added and the stored URL is the redirect target.
pub open spec fn resolve_spec(m: Map<Seq<char>, RecordModel>, k: Seq<char>) -> (Result<
    Seq<char>,
    LinkError,
>, Map<Seq<char>, RecordModel>) {
    if !m.contains_key(k) {
        (Err(LinkError::NotFound), m)
    } else if m[k].url.len() == 0 {
        (Err(LinkError::NotFound), m)
    } else if m[k].clicks == u64::MAX {
        (Err(LinkError::StoreUnavailable), m)
    } else {
        (Ok(m[k].url), m.insert(k, counted_model(m[k])))
    }
}

/// What a stats read answers on store `m`: an absent key, a record with no
/// stored token yet, and a request that supplies no token all answer
/// not-found (deliberately alike, so an unauthorized caller cannot learn
/// whether a key exists); a supplied token that differs from the stored one
/// answers unauthorized; the exact stored token reads the click counter.
pub open spec fn stats_spec(
    m: Map<Seq<char>, RecordModel>,
    k: Seq<char>,
    token: Option<Seq<char>>,
) -> Result<u64, LinkError> {
    if !m.contains_key(k) {
        Err(LinkError::NotFound)
    } else {
        match m[k].token {
            None => Err(LinkError::NotFound),
            Some(st) => match token {
                None => Err(LinkError::NotFound),
                Some(t) => if t != st {
                    Err(LinkError::Unauthorized)
                } else {
                    Ok(m[k].clicks)
                },
            },
        }
    }
}

/// What a successful allocation of `k` did to the store: `k` was absent
/// before and is reserved now, and nothing else changed.
pub open spec fn alloc_post(
    m0: Map<Seq<char>, RecordModel>,
    m1: Map<Seq<char>, RecordModel>,
    k: Seq<char>,
) -> bool {
    &&& !m0.contains_key(k)
    &&& m1 == m0.insert(k, reserved_model())
}

/// What a successful creation did to the store: the new key `k` was absent
/// before and now holds an active record with the submitted URL `u`, the
/// secret token `t`, zero clicks and the reservation's full time-to-live;
/// nothing else changed.
pub open spec fn created_post(
    m0: Map<Seq<char>, RecordModel>,
    m1: Map<Seq<char>, RecordModel>,
    k: Seq<char>,
    u: Seq<char>,
    t: Seq<char>,
) -> bool {
    &&& !m0.contains_key(k)
    &&& m1 == m0.insert(k, active_model(u, t, RECORD_TTL_SECONDS))
}

/// No key of the shape the allocator draws (`KEY_LEN` alphanumeric
/// characters) is in the store, so no candidate can collide.
pub open spec fn no_key_shaped_entry(m: Map<Seq<char>, RecordModel>) -> bool {
    forall|q: Seq<char>| #[trigger] m.contains_key(q) ==> !(q.len() == KEY_LEN && is_alnum_string(q))
}

impl View for LinkStore {
    type V = Map<Seq<char>, RecordModel>;

    closed spec fn view(&self) -> Map<Seq<char>, RecordModel> {
        map_of(self.entries@)
    }
}

impl LinkStore {
    /// The store's internal invariant: one pair per key.
    pub closed spec fn wf(&self) -> bool {
        unique_keys(self.entries@)
    }

    /// An empty store.
    pub fn new() -> (s: LinkStore)
        ensures
            s.wf(),
            s@ == Map::<Seq<char>, RecordModel>::empty(),
    {
        LinkStore { entries: Vec::new() }
    }

    /// The index of the pair that carries `key`, if any.
    fn find_index(&self, key: &String) -> (r: Option<usize>)
        ensures
            match r {
                Some(i) => i < self.entries@.len() && self.entries@[i as int].0@ == key@,
                None => forall|i: int|
                    0 <= i < self.entries@.len() ==> (#[trigger] self.entries@[i]).0@ != key@,
            },
    {
        let mut i: usize = 0;
        while i < self.entries.len()
            invariant
                i <= self.entries@.len(),
                forall|j: int| 0 <= j < i ==> (#[trigger] self.entries@[j]).0@ != key@,
            decreases self.entries@.len() - i,
        {
            if self.entries[i].0 == *key {
                return Some(i);
            }
            i = i + 1;
        }
        None
    }

    /// Whether a record exists under `key` (the store's `EXISTS`).
    pub fn key_exists(&self, key: &String) -> (r: bool)
        ensures
            r == self@.contains_key(key@),
    {
        proof {
            lemma_map_of_contains(self.entries@, key@);
        }
        self.find_index(key).is_some()
    }

    /// Reserve `key`: write the sentinel record that claims the key while
    /// carrying no URL yet, granting it the thirty-day time-to-live. The
    /// caller must have seen the key absent.
    pub fn reserve(&mut self, key: String)
        requires
            old(self).wf(),
            !old(self)@.contains_key(key@),
        ensures
            final(self).wf(),
            final(self)@ == old(self)@.insert(key@, reserved_model()),
    {
        let rec = LinkRecord {
            url: String::new(),
            token: None,
            clicks: 0,
            ttl_seconds: RECORD_TTL_SECONDS,
        };
        let ghost s0 = self.entries@;
        let ghost p = (key, rec);
        self.entries.push((key, rec));
        proof {
            lemma_map_of_contains(s0, p.0@);
            lemma_map_of_push(s0, p);
            assert(p.1@.url =~= reserved_model().url);
            assert forall|i: int, j: int|
                0 <= i < j < self.entries@.len() implies
                (#[trigger] self.entries@[i]).0@ != (#[trigger] self.entries@[j]).0@ by {
                if j < s0.len() {
                    assert(s0[i].0@ != s0[j].0@);
                } else {
                    assert(s0[i].0@ != p.0@);
                }
            }
        }
    }

    /// Finalize the reservation under `key`: generate its secret stats token
    /// and write the submitted URL, the token, and a click counter starting
    /// at zero (the store's multi-field write, taken as one atomic batch).
    /// Only a reserved, not-yet-finalized record may be finalized: the
    /// secret token is generated once and never rotated, and the counter
    /// never resets. The reservation's time-to-live is kept, not renewed.
    /// Returns the secret token, the caller's sole way to read stats later.
    pub fn finalize(&mut self, key: &String, url: String) -> (t: String)
        requires
            old(self).wf(),
            old(self)@.contains_key(key@),
            old(self)@[key@].token is None,
        ensures
            final(self).wf(),
            t@.len() == TOKEN_LEN,
            is_alnum_string(t@),
            final(self)@ == old(self)@.insert(
                key@,
                active_model(url@, t@, old(self)@[key@].ttl_seconds),
            ),
    {
        let t = rand_string(TOKEN_LEN);
        match self.find_index(key) {
            Some(i) => {
                proof {
                    lemma_map_of_index(self.entries@, i as int);
                }
                let ttl = self.entries[i].1.ttl_seconds;
                let rec = LinkRecord { url, token: Some(t.clone()), clicks: 0, ttl_seconds: ttl };
                let k2 = self.entries[i].0.clone();
                let ghost s0 = self.entries@;
                let ghost p = (k2, rec);
                self.entries[i] = (k2, rec);
                proof {
                    lemma_map_of_update(s0, i as int, p);
                }
                t
            },
            None => {
                proof {
                    // The key is in the store, so some pair carries it.
                    lemma_map_of_contains(self.entries@, key@);
                }
                unreached()
            },
        }
    }

    /// Serve a redirect: read the URL under `key` and count one click.
    /// An absent key and a reserved, never-finalized key (its URL is still
    /// the empty sentinel) both answer not-found, and nothing is counted.
    pub fn resolve_and_count(&mut self, key: &String) -> (r: Result<String, LinkError>)
        requires
            old(self).wf(),
        ensures
            final(self).wf(),
            result_view(r) == resolve_spec(old(self)@, key@).0,
            final(self)@ == resolve_spec(old(self)@, key@).1,
    {
        match self.find_index(key) {
            None => {
                proof {
                    lemma_map_of_contains(self.entries@, key@);
                }
                Err(LinkError::NotFound)
            },
            Some(i) => {
                proof {
                    lemma_map_of_index(self.entries@, i as int);
                }
                if self.entries[i].1.url.as_str().is_empty() {
                    return Err(LinkError::NotFound);
                }
                let c = self.entries[i].1.clicks;
                if c == u64::MAX {
                    return Err(LinkError::StoreUnavailable);
                }
                let u = self.entries[i].1.url.clone();
                let tok = match &self.entries[i].1.token {
                    Some(s) => Some(s.clone()),
                    None => None,
                };
                let k2 = self.entries[i].0.clone();
                let rec = LinkRecord {
                    url: self.entries[i].1.url.clone(),
                    token: tok,
                    clicks: c + 1,
                    ttl_seconds: self.entries[i].1.ttl_seconds,
                };
                let ghost s0 = self.entries@;
                let ghost p = (k2, rec);
                self.entries[i] = (k2, rec);
                proof {
                    lemma_map_of_update(s0, i as int, p);
                    assert(p.1@ == counted_model(map_of(s0)[key@]));
                }
                Ok(u)
            },
        }
    }

    /// Read the click counter under `key`, guarded by the secret token.
    pub fn get_stats(&self, key: &String, token: Option<&String>) -> (r: Result<u64, LinkError>)
        requires
            self.wf(),
        ensures
            r == stats_spec(self@, key@, str_opt_view(token)),
    {
        match self.find_index(key) {
            None => {
                proof {
                    lemma_map_of_contains(self.entries@, key@);
                }
                Err(LinkError::NotFound)
            },
            Some(i) => {
                proof {
                    lemma_map_of_index(self.entries@, i as int);
                }
                match &self.entries[i].1.token {
                    None => Err(LinkError::NotFound),
                    Some(st) => match token {
                        None => Err(LinkError::NotFound),
                        Some(t) => {
                            if *t == *st {
                                Ok(self.entries[i].1.clicks)
                            } else {
                                Err(LinkError::Unauthorized)
                            }
                        },
                    },
                }
            },
        }
    }

    /// The allocation protocol: draw a fresh candidate key, reserve it if the
    /// store does not hold it, and retry a bounded number of times on a
    /// collision. A returned key was absent before the call and is reserved
    /// by it; the attempt budget spent, the allocator reports exhaustion and
    /// leaves the store alone. Exhaustion can only be declared over real
    /// collisions: on a store holding no key of the drawn shape at all,
    /// success is owed.
    pub fn allocate(&mut self) -> (r: Result<String, LinkError>)
        requires
            old(self).wf(),
        ensures
            final(self).wf(),
            match r {
                Ok(k) => k@.len() == KEY_LEN && is_alnum_string(k@) && alloc_post(
                    old(self)@,
                    final(self)@,
                    k@,
                ),
                Err(e) => e == LinkError::Exhausted && final(self)@ == old(self)@,
            },
            no_key_shaped_entry(old(self)@) ==> r is Ok,
    {
        let mut attempt: usize = 0;
        while attempt < MAX_ALLOC_ATTEMPTS
            invariant
                *self == *old(self),
                self.wf(),
                attempt > 0 ==> exists|q: Seq<char>|
                    #[trigger] old(self)@.contains_key(q) && q.len() == KEY_LEN
                        && is_alnum_string(q),
            decreases MAX_ALLOC_ATTEMPTS - attempt,
        {
            let candidate = rand_string(KEY_LEN);
            if !self.key_exists(&candidate) {
                let k = candidate.clone();
                self.reserve(candidate);
                return Ok(k);
            }
            proof {
                // The drawn candidate collided: a key of the drawn shape is
                // in the store.
                assert(old(self)@.contains_key(candidate@) && candidate@.len() == KEY_LEN
                    && is_alnum_string(candidate@));
            }
            attempt = attempt + 1;
        }
        proof {
            let q = choose|q: Seq<char>|
                #[trigger] old(self)@.contains_key(q) && q.len() == KEY_LEN && is_alnum_string(q);
            assert(old(self)@.contains_key(q));
        }
        Err(LinkError::Exhausted)
    }

    /// Create a link for `url`: allocate a short key and finalize its record.
    /// On success the returned key is new to the store, and the store now
    /// maps it to an active record holding exactly `url`, the returned
    /// secret token, zero clicks and the full time-to-live. Failure can only
    /// arise from allocation collisions: on a store holding no key of the
    /// drawn shape, success is owed.
    pub fn create_link(&mut self, url: String) -> (r: Result<(String, String), LinkError>)
        requires
            old(self).wf(),
        ensures
            final(self).wf(),
            match r {
                Ok(kt) => kt.0@.len() == KEY_LEN && is_alnum_string(kt.0@) && kt.1@.len()
                    == TOKEN_LEN && is_alnum_string(kt.1@) && created_post(
                    old(self)@,
                    final(self)@,
                    kt.0@,
                    url@,
                    kt.1@,
                ),
                Err(e) => e == LinkError::Exhausted && final(self)@ == old(self)@,
            },
            no_key_shaped_entry(old(self)@) ==> r is Ok,
    {
        match self.allocate() {
            Ok(k) => {
                let t = self.finalize(&k, url);
                proof {
                    assert(old(self)@.insert(k@, reserved_model()).insert(
                        k@,
                        active_model(url@, t@, RECORD_TTL_SECONDS),
                    ) =~= old(self)@.insert(k@, active_model(url@, t@, RECORD_TTL_SECONDS)));
                }
                Ok((k, t))
            },
            Err(e) => Err(e),
        }
    }
}

} // verus!
