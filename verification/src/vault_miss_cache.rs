//! Remembers which connections the vault had no password for.
//!
//! A record holds no secret: a connection, the backend that was asked and when. It is the
//! absence of a credential, and every doubt resolves towards asking again.

use crate::clock::{self, whole_seconds, Timestamp};
use crate::secrets::SecretBackendType;
use std::collections::HashMap;
use vstd::prelude::*;

verus! {

broadcast use vstd::std_specs::hash::group_hash_axioms;

/// How long an answer is trusted, in seconds.
pub const TTL_SECONDS: i64 = 300;

/// A remembered "no password here" answer.
#[derive(Clone, Copy, Debug, PartialEq, Eq, Structural)]
pub struct Miss {
    /// The backend that was asked: its answer says nothing of another one.
    pub backend: SecretBackendType,
    /// When the lookup came back empty.
    pub recorded_at: Timestamp,
}

impl Miss {
    /// Whether the answer is too old at `now`: more than the trusted time has passed, in whole
    /// seconds.
    pub open spec fn expired_at(self, now: Timestamp) -> bool {
        whole_seconds(now, self.recorded_at) > TTL_SECONDS
    }

    /// Whether the answer is too old at `now`.
    pub fn is_expired_at(&self, now: Timestamp) -> (r: bool)
        requires
            self.recorded_at.wf(),
            now.wf(),
        ensures
            r == self.expired_at(now),
    {
        clock::elapsed_seconds(now, self.recorded_at) > TTL_SECONDS
    }
}

/// The answers of this process.
pub struct MissCache {
    misses: HashMap<u128, Miss>,
}

impl View for MissCache {
    type V = Map<u128, Miss>;

    closed spec fn view(&self) -> Map<u128, Miss> {
        self.misses@
    }
}

/// Whether `backend` is known at `now` to hold no password for a connection: there is a record of
/// that very backend and it has not expired.
pub open spec fn is_known_missing(
    m: Map<u128, Miss>,
    connection_id: u128,
    backend: SecretBackendType,
    now: Timestamp,
) -> bool {
    &&& m.contains_key(connection_id)
    &&& m[connection_id].backend == backend
    &&& !m[connection_id].expired_at(now)
}

impl MissCache {
    /// Whether every record carries a valid time.
    #[verifier::type_invariant]
    spec fn valid(self) -> bool {
        forall|id: u128| #[trigger] self.misses@.contains_key(id) ==> self.misses@[id].recorded_at.wf()
    }

    /// Starts without any answer.
    pub fn new() -> (r: Self)
        ensures
            r@ == Map::<u128, Miss>::empty(),
    {
        MissCache { misses: HashMap::new() }
    }
}

/// Records at a given time that `backend` held no password for a connection.
pub fn note_missing_at(
    cache: &mut MissCache,
    connection_id: u128,
    backend: SecretBackendType,
    at: Timestamp,
)
    requires
        at.wf(),
    ensures
        final(cache)@ == old(cache)@.insert(connection_id, Miss { backend, recorded_at: at }),
{
    proof {
        use_type_invariant(&*cache);
    }
    let mut misses: HashMap<u128, Miss> = HashMap::new();
    std::mem::swap(&mut misses, &mut cache.misses);
    misses.insert(connection_id, Miss { backend, recorded_at: at });
    cache.misses = misses;
}

/// Records that `backend` held no password for a connection.
pub fn note_missing(cache: &mut MissCache, connection_id: u128, backend: SecretBackendType)
    ensures
        exists|at: Timestamp|
            at.wf() && at.secs >= 0 && final(cache)@ == #[trigger] old(cache)@.insert(
                connection_id,
                Miss { backend, recorded_at: at },
            ),
{
    let at = clock::now();
    note_missing_at(cache, connection_id, backend, at);
}

/// Whether `backend` is known at `now` to hold no password for a connection.
pub fn known_missing_at(
    cache: &MissCache,
    connection_id: u128,
    backend: SecretBackendType,
    now: Timestamp,
) -> (r: bool)
    requires
        now.wf(),
    ensures
        r == is_known_missing(cache@, connection_id, backend, now),
{
    proof {
        use_type_invariant(cache);
    }
    match cache.misses.get(&connection_id) {
        Some(miss) => miss.backend == backend && !miss.is_expired_at(now),
        None => false,
    }
}

/// Whether `backend` is already known to hold no password for a connection.
pub fn known_missing(
    cache: &MissCache,
    connection_id: u128,
    backend: SecretBackendType,
) -> (r: bool)
    ensures
        exists|now: Timestamp|
            now.wf() && now.secs >= 0 && r == #[trigger] is_known_missing(
                cache@,
                connection_id,
                backend,
                now,
            ),
{
    let now = clock::now();
    known_missing_at(cache, connection_id, backend, now)
}

/// Forgets the answer for one connection.
pub fn forget(cache: &mut MissCache, connection_id: u128)
    ensures
        final(cache)@ == old(cache)@.remove(connection_id),
{
    proof {
        use_type_invariant(&*cache);
    }
    let mut misses: HashMap<u128, Miss> = HashMap::new();
    std::mem::swap(&mut misses, &mut cache.misses);
    misses.remove(&connection_id);
    cache.misses = misses;
}

/// Forgets every answer.
pub fn forget_all(cache: &mut MissCache)
    ensures
        final(cache)@ == Map::<u128, Miss>::empty(),
{
    cache.misses = HashMap::new();
}

/// An answer counts from when it is recorded until more than the trusted time has passed, and a
/// clock that went back does not end it.
pub proof fn law_an_answer_is_trusted_for_its_time(
    m: Map<u128, Miss>,
    id: u128,
    backend: SecretBackendType,
    at: Timestamp,
    now: Timestamp,
)
    ensures
        is_known_missing(m.insert(id, Miss { backend, recorded_at: at }), id, backend, now)
            <==> now.total_nanos() - at.total_nanos() < (TTL_SECONDS + 1) * 1_000_000_000,
{
    let d = now.total_nanos() - at.total_nanos();
    if d >= 0 {
        assert(d / 1_000_000_000 <= 300 <==> d < 301 * 1_000_000_000);
    } else {
        assert((-d) / 1_000_000_000 >= 0);
    }
}

/// What one backend answered says nothing of another.
pub proof fn law_another_backend_does_not_reuse_the_answer(
    m: Map<u128, Miss>,
    id: u128,
    backend: SecretBackendType,
    other: SecretBackendType,
    at: Timestamp,
    now: Timestamp,
)
    requires
        backend != other,
    ensures
        !is_known_missing(m.insert(id, Miss { backend, recorded_at: at }), id, other, now),
{
}

/// Forgetting one connection makes it unknown and leaves every other answer as it was.
pub proof fn law_forgetting_concerns_one_connection(
    m: Map<u128, Miss>,
    id: u128,
    other: u128,
    backend: SecretBackendType,
    now: Timestamp,
)
    ensures
        !is_known_missing(m.remove(id), id, backend, now),
        other != id ==> is_known_missing(m.remove(id), other, backend, now) == is_known_missing(
            m,
            other,
            backend,
            now,
        ),
{
}

/// A connection is known to have no password exactly where its backend said so, that very backend, and
/// less than five minutes and a second have passed since, by whatever clock.
pub proof fn law_answer_holds_for_five_minutes(
    cache: &MissCache,
    id: u128,
    backend: SecretBackendType,
    now: Timestamp,
    r: bool,
)
    requires
        now.wf(),
        call_ensures(known_missing_at, (cache, id, backend, now), r),
    ensures
        r <==> cache@.contains_key(id) && cache@[id].backend == backend && now.total_nanos()
            - cache@[id].recorded_at.total_nanos() < 301_000_000_000,
{
    if cache@.contains_key(id) {
        let m = cache@[id];
        law_an_answer_is_trusted_for_its_time(cache@, id, m.backend, m.recorded_at, now);
        assert(cache@.insert(id, Miss { backend: m.backend, recorded_at: m.recorded_at }) =~= cache@);
    }
}

/// An answer is too old exactly where five minutes and a second have passed since it was given.
pub proof fn law_answer_gets_old(miss: &Miss, now: Timestamp, r: bool)
    requires
        miss.recorded_at.wf(),
        now.wf(),
        call_ensures(Miss::is_expired_at, (miss, now), r),
    ensures
        r <==> now.total_nanos() - miss.recorded_at.total_nanos() >= 301_000_000_000,
{
    let d = now.total_nanos() - miss.recorded_at.total_nanos();
    if d >= 0 {
        assert(d / 1_000_000_000 > 300 <==> d >= 301 * 1_000_000_000);
    } else {
        assert((-d) / 1_000_000_000 >= 0);
    }
}

/// A cache starts without any answer, so every backend is asked.
pub proof fn law_nothing_is_known_at_first(
    cache: MissCache,
    id: u128,
    backend: SecretBackendType,
    now: Timestamp,
    r: bool,
)
    requires
        now.wf(),
        call_ensures(MissCache::new, (), cache),
        call_ensures(known_missing_at, (&cache, id, backend, now), r),
    ensures
        !r,
{
}

} // verus!
