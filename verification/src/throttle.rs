//! The login throttle: a failure counter per client, with a lockout.
//!
//! Per client key the throttle is a small state machine. A key without a
//! record is clean. Each failed login sets the record's window to the time
//! of the failure and raises the count. A record whose last failure is more
//! than [`LOCKOUT_SECS`] old counts as absent, whether or not it has been
//! deleted. A key whose count has reached [`MAX_ATTEMPTS`] is locked until
//! its record has aged out. A successful login deletes the record.

use vstd::prelude::*;
use vstd::hash_map::StringHashMap;
use crate::clock::{clock_time, current_time, elapsed, elapsed_since};
use crate::error::AuthError;

verus! {

/// Failed logins after which a client is locked out.
pub const MAX_ATTEMPTS: u32 = 5;

/// How long a lockout lasts, and how long a failure is remembered, in
/// seconds.
pub const LOCKOUT_SECS: u64 = 300;

/// The age, in seconds, beyond which the periodic cleanup deletes a record.
pub const CLEANUP_SECS: u64 = 600;

/// What the throttle remembers of one client.
#[derive(Clone, Copy, Debug, PartialEq, Eq, Structural)]
pub struct ThrottleRecord {
    /// Failed logins counted so far.
    pub failures: u32,
    /// When the most recent failure happened.
    pub window_start: u64,
}

/// The throttle's state: the records by client key.
pub type ThrottleState = Map<Seq<char>, ThrottleRecord>;

/// Whether a record still counts at time `now`.
pub open spec fn live(record: ThrottleRecord, now: u64) -> bool {
    elapsed(record.window_start, now) <= LOCKOUT_SECS
}

/// The failures that count against `key` at time `now`.
pub open spec fn effective_failures(state: ThrottleState, key: Seq<char>, now: u64) -> u32 {
    if state.contains_key(key) && live(state[key], now) {
        state[key].failures
    } else {
        0
    }
}

/// Whether `key` is locked out at time `now`.
pub open spec fn is_locked(state: ThrottleState, key: Seq<char>, now: u64) -> bool {
    effective_failures(state, key, now) >= MAX_ATTEMPTS
}

/// What the throttle answers when asked whether `key` may try to log in.
pub open spec fn check_outcome(state: ThrottleState, key: Seq<char>, now: u64) -> Result<
    (),
    AuthError,
> {
    if is_locked(state, key, now) {
        Err(AuthError::Locked)
    } else {
        Ok(())
    }
}

/// A count raised by one, stopping at the largest count that can be held.
pub open spec fn bumped(count: u32) -> u32 {
    if count < u32::MAX {
        (count + 1) as u32
    } else {
        count
    }
}

/// The state after a failed login from `key` at time `now`.
pub open spec fn after_failure(state: ThrottleState, key: Seq<char>, now: u64) -> ThrottleState {
    state.insert(
        key,
        ThrottleRecord { failures: bumped(effective_failures(state, key, now)), window_start: now },
    )
}

/// The state after the failure count of `key` is reset.
pub open spec fn after_reset(state: ThrottleState, key: Seq<char>) -> ThrottleState {
    state.remove(key)
}

/// Whether the periodic cleanup at time `now` keeps the record of `key`.
pub open spec fn survives_sweep(state: ThrottleState, key: Seq<char>, now: u64) -> bool {
    state.contains_key(key) && elapsed(state[key].window_start, now) <= CLEANUP_SECS
}

/// The state after the periodic cleanup at time `now`.
pub open spec fn after_sweep(state: ThrottleState, now: u64) -> ThrottleState {
    state.restrict(Set::new(|key: Seq<char>| survives_sweep(state, key, now)))
}

/// The state after failed logins from `key` at each of `times`, in order.
pub open spec fn after_failures(state: ThrottleState, key: Seq<char>, times: Seq<u64>) -> ThrottleState
    decreases times.len(),
{
    if times.len() == 0 {
        state
    } else {
        after_failure(after_failures(state, key, times.drop_last()), key, times.last())
    }
}

/// Whether each of `times` lies within the lockout window of the one before
/// it.
pub open spec fn in_one_window(times: Seq<u64>) -> bool {
    forall|i: int| 0 < i < times.len() ==> elapsed(times[i - 1], #[trigger] times[i]) <= LOCKOUT_SECS
}

/// A failed login raises the count of its client by exactly one, and leaves
/// every other client's record as it was.
pub proof fn lemma_failure_counts_once(state: ThrottleState, key: Seq<char>, now: u64)
    requires
        effective_failures(state, key, now) < u32::MAX,
    ensures
        effective_failures(after_failure(state, key, now), key, now) == effective_failures(
            state,
            key,
            now,
        ) + 1,
        forall|other: Seq<char>, t: u64|
            other != key ==> #[trigger] effective_failures(after_failure(state, key, now), other, t)
                == effective_failures(state, other, t),
{
}

/// After a reset the client counts no failures at any time, and its next
/// failure starts a fresh count of one.
pub proof fn lemma_reset_starts_afresh(state: ThrottleState, key: Seq<char>, now: u64)
    ensures
        forall|t: u64| #[trigger] effective_failures(after_reset(state, key), key, t) == 0,
        forall|t: u64| !#[trigger] is_locked(after_reset(state, key), key, t),
        effective_failures(after_failure(after_reset(state, key), key, now), key, now) == 1,
{
}

/// Failures in a row, each within the lockout window of the one before,
/// add up: after `n` of them the client counts at least `n` failures for as
/// long as the last one is within the window.
pub proof fn lemma_failures_add_up(state: ThrottleState, key: Seq<char>, times: Seq<u64>, now: u64)
    requires
        times.len() > 0,
        in_one_window(times),
        elapsed(times.last(), now) <= LOCKOUT_SECS,
    ensures
        effective_failures(after_failures(state, key, times), key, now) >= times.len()
            || effective_failures(after_failures(state, key, times), key, now) == u32::MAX,
    decreases times.len(),
{
    let earlier = times.drop_last();
    let before = after_failures(state, key, earlier);
    if earlier.len() > 0 {
        assert forall|i: int| 0 < i < earlier.len() implies elapsed(
            earlier[i - 1],
            #[trigger] earlier[i],
        ) <= LOCKOUT_SECS by {
            assert(earlier[i] == times[i]);
            assert(earlier[i - 1] == times[i - 1]);
        }
        assert(earlier.last() == times[times.len() - 2]);
        assert(elapsed(times[times.len() - 2], times[times.len() - 1]) <= LOCKOUT_SECS);
        lemma_failures_add_up(state, key, earlier, times.last());
    }
}

/// After [`MAX_ATTEMPTS`] failures in a row, each within the lockout window
/// of the one before, the client is locked for as long as the last failure
/// is within the window.
pub proof fn lemma_max_failures_lock(state: ThrottleState, key: Seq<char>, times: Seq<u64>, now: u64)
    requires
        times.len() >= MAX_ATTEMPTS,
        in_one_window(times),
        elapsed(times.last(), now) <= LOCKOUT_SECS,
    ensures
        is_locked(after_failures(state, key, times), key, now),
        check_outcome(after_failures(state, key, times), key, now) == Err::<(), AuthError>(
            AuthError::Locked,
        ),
{
    lemma_failures_add_up(state, key, times, now);
}

/// A lock ends by itself: once the last failure is older than the lockout
/// window the client is allowed again, without any cleanup having run.
pub proof fn lemma_lock_ages_out(state: ThrottleState, key: Seq<char>, now: u64)
    requires
        state.contains_key(key),
        elapsed(state[key].window_start, now) > LOCKOUT_SECS,
    ensures
        effective_failures(state, key, now) == 0,
        check_outcome(state, key, now) == Ok::<(), AuthError>(()),
{
}

/// The periodic cleanup never changes an answer: what it deletes had aged
/// out already.
pub proof fn lemma_sweep_changes_no_answer(state: ThrottleState, key: Seq<char>, swept_at: u64, now: u64)
    requires
        swept_at <= now,
    ensures
        effective_failures(after_sweep(state, swept_at), key, now) == effective_failures(
            state,
            key,
            now,
        ),
{
}

/// Whether one of the first `upto` keys of `keys` is `key`.
spec fn listed(keys: Seq<String>, upto: int, key: Seq<char>) -> bool {
    exists|j: int| 0 <= j < upto && j < keys.len() && (#[trigger] keys[j])@ == key
}

/// The login throttle.
///
/// The records live in a hash map, so that asking and counting take one
/// lookup. Beside it stands a list of the keys, which the periodic cleanup
/// walks. The list may name a key more than once, and may still name a key
/// whose record has been deleted; the cleanup rebuilds it.
pub struct LoginThrottle {
    records: StringHashMap<ThrottleRecord>,
    keys: Vec<String>,
}

impl View for LoginThrottle {
    type V = ThrottleState;

    closed spec fn view(&self) -> ThrottleState {
        self.records@
    }
}

impl LoginThrottle {
    /// Every key that has a record is in the list of keys.
    pub closed spec fn wf(&self) -> bool {
        forall|key: Seq<char>| #[trigger]
            self.records@.contains_key(key) ==> listed(self.keys@, self.keys@.len() as int, key)
    }

    /// A throttle that remembers nothing.
    pub fn new() -> (throttle: Self)
        ensures
            throttle.wf(),
            throttle@ == Map::<Seq<char>, ThrottleRecord>::empty(),
    {
        LoginThrottle { records: StringHashMap::new(), keys: Vec::new() }
    }

    /// The failures that count against `key` at time `now`.
    pub fn failures(&self, key: &str, now: u64) -> (count: u32)
        ensures
            count == effective_failures(self@, key@, now),
    {
        match self.records.get(key) {
            Some(record) => {
                if elapsed_since(record.window_start, now) <= LOCKOUT_SECS {
                    record.failures
                } else {
                    0
                }
            },
            None => 0,
        }
    }

    /// Whether `key` may try to log in at time `now`.
    pub fn check(&self, key: &str, now: u64) -> (r: Result<(), AuthError>)
        ensures
            r == check_outcome(self@, key@, now),
    {
        if self.failures(key, now) >= MAX_ATTEMPTS {
            Err(AuthError::Locked)
        } else {
            Ok(())
        }
    }

    /// Counts a failed login from `key` at time `now`. A record that has
    /// aged out starts again at one.
    pub fn record_failure(&mut self, key: &str, now: u64)
        requires
            old(self).wf(),
        ensures
            final(self).wf(),
            final(self)@ == after_failure(old(self)@, key@, now),
    {
        let counted = self.failures(key, now);
        let failures = if counted < u32::MAX {
            counted + 1
        } else {
            counted
        };
        let record = ThrottleRecord { failures, window_start: now };
        if !self.records.contains_key(key) {
            self.keys.push(key.to_owned());
        }
        self.records.insert(key.to_owned(), record);
        proof {
            let before = old(self).keys@;
            let after = self.keys@;
            assert forall|k: Seq<char>| #[trigger] self.records@.contains_key(k) implies listed(
                after,
                after.len() as int,
                k,
            ) by {
                if k == key@ && !old(self).records@.contains_key(key@) {
                    assert(after[after.len() - 1]@ == key@);
                } else {
                    assert(old(self).records@.contains_key(k));
                    assert(listed(before, before.len() as int, k));
                    let j = choose|j: int|
                        0 <= j < before.len() && j < before.len() && (#[trigger] before[j])@ == k;
                    assert(after[j]@ == k);
                }
            }
        }
    }

    /// The periodic cleanup at time `now`: deletes every record whose last
    /// failure is more than [`CLEANUP_SECS`] old.
    pub fn sweep(&mut self, now: u64)
        requires
            old(self).wf(),
        ensures
            final(self).wf(),
            final(self)@ == after_sweep(old(self)@, now),
    {
        let n = self.keys.len();
        let mut kept: StringHashMap<ThrottleRecord> = StringHashMap::new();
        let mut kept_keys: Vec<String> = Vec::new();
        let mut i: usize = 0;
        while i < n
            invariant
                i <= n,
                n == self.keys@.len(),
                forall|k: Seq<char>| #[trigger]
                    kept@.contains_key(k) <==> survives_sweep(self.records@, k, now) && listed(
                        self.keys@,
                        i as int,
                        k,
                    ),
                forall|k: Seq<char>| #[trigger]
                    kept@.contains_key(k) ==> kept@[k] == self.records@[k],
                forall|k: Seq<char>| #[trigger]
                    kept@.contains_key(k) ==> listed(kept_keys@, kept_keys@.len() as int, k),
            decreases n - i,
        {
            let ghost keys = self.keys@;
            let ghost kept_before = kept@;
            let ghost list_before = kept_keys@;
            let key = self.keys[i].as_str();
            let surviving = match self.records.get(key) {
                Some(record) => {
                    if elapsed_since(record.window_start, now) <= CLEANUP_SECS {
                        Some(*record)
                    } else {
                        None
                    }
                },
                None => None,
            };
            match surviving {
                Some(record) => {
                    if !kept.contains_key(key) {
                        kept_keys.push(key.to_owned());
                    }
                    kept.insert(key.to_owned(), record);
                },
                None => {},
            }
            proof {
                let list_after = kept_keys@;
                assert forall|k: Seq<char>| listed(keys, i + 1, k) <==> listed(keys, i as int, k)
                    || k == key@ by {
                    if listed(keys, i + 1, k) {
                        let j = choose|j: int|
                            0 <= j < i + 1 && j < keys.len() && (#[trigger] keys[j])@ == k;
                        if j < i {
                            assert(listed(keys, i as int, k));
                        }
                    }
                    if listed(keys, i as int, k) {
                        let j = choose|j: int|
                            0 <= j < i && j < keys.len() && (#[trigger] keys[j])@ == k;
                        assert(keys[j]@ == k);
                    }
                    if k == key@ {
                        assert(keys[i as int]@ == k);
                    }
                }
                assert forall|k: Seq<char>| #[trigger] kept@.contains_key(k) implies listed(
                    list_after,
                    list_after.len() as int,
                    k,
                ) by {
                    if kept_before.contains_key(k) {
                        let j = choose|j: int|
                            0 <= j < list_before.len() && j < list_before.len() && (
                            #[trigger] list_before[j])@ == k;
                        assert(list_after[j]@ == k);
                    } else {
                        assert(list_after[list_after.len() - 1]@ == k);
                    }
                }
            }
            i += 1;
        }
        proof {
            let expected = after_sweep(self.records@, now);
            assert forall|k: Seq<char>| kept@.contains_key(k) <==> expected.contains_key(k) by {
                if survives_sweep(self.records@, k, now) {
                    assert(self.records@.contains_key(k));
                }
            }
            assert(kept@ =~= expected);
        }
        self.records = kept;
        self.keys = kept_keys;
    }
}

/// Asks the throttle, at the current time, whether a client may try to log
/// in. The answer is the one [`LoginThrottle::check`] gives for the time the
/// clock showed.
pub fn check_login_attempts(throttle: &LoginThrottle, ip: &str) -> (r: Result<(), AuthError>)
    ensures
        exists|now: u64| clock_time(now) && r == #[trigger] check_outcome(throttle@, ip@, now),
{
    let now = current_time();
    let r = throttle.check(ip, now);
    assert(r == check_outcome(throttle@, ip@, now));
    r
}

/// Forgets the failures of a client, as after a successful login.
pub fn reset_login_attempts(throttle: &mut LoginThrottle, ip: &str)
    requires
        old(throttle).wf(),
    ensures
        final(throttle).wf(),
        final(throttle)@ == after_reset(old(throttle)@, ip@),
{
    throttle.records.remove(ip);
}

/// Runs the periodic cleanup at the current time. The result is the one
/// [`LoginThrottle::sweep`] gives for the time the clock showed.
pub fn cleanup_login_attempts(throttle: &mut LoginThrottle)
    requires
        old(throttle).wf(),
    ensures
        final(throttle).wf(),
        exists|now: u64|
            clock_time(now) && final(throttle)@ == #[trigger] after_sweep(old(throttle)@, now),
{
    let now = current_time();
    throttle.sweep(now);
    assert(throttle@ == after_sweep(old(throttle)@, now));
}

} // verus!
