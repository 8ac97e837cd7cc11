//! A gate that suppresses repeated invocation of an external side-effecting
//! action within a minimum interval: a repeated action runs at most once per
//! configured backoff duration.

use vstd::prelude::*;

verus! {

/// Holds the time of the last permitted call and the fixed backoff duration.
/// All times are seconds; `last_call` is a timestamp, `backoff_time` a span.
pub struct BackoffHandler {
    pub last_call: u64,
    pub backoff_time: u64,
}

impl BackoffHandler {
    /// A call at `now` is permitted once the backoff duration has fully
    /// elapsed since the previous permitted call.
    pub open spec fn allows(self, now: u64) -> bool {
        self.last_call + self.backoff_time <= now
    }

    /// The handler's state after a permitted call at `now`.
    pub open spec fn after_call(self, now: u64) -> BackoffHandler {
        BackoffHandler { last_call: now, backoff_time: self.backoff_time }
    }

    /// A fresh handler built at time `now` with the given backoff
    /// duration. The last call is backdated by two full intervals, so the
    /// first call is permitted right away (whenever the clock itself is
    /// past the backoff span).
    pub fn new(backoff_seconds: u64, now: u64) -> (r: BackoffHandler)
        ensures
            r.backoff_time == backoff_seconds,
            r.last_call == if now >= backoff_seconds + backoff_seconds {
                now - backoff_seconds - backoff_seconds
            } else {
                0
            },
            now >= backoff_seconds ==> r.allows(now),
    {
        let last_call: u64 = if now > backoff_seconds && now - backoff_seconds > backoff_seconds {
            now - backoff_seconds - backoff_seconds
        } else {
            0
        };
        BackoffHandler { last_call, backoff_time: backoff_seconds }
    }

    /// Decide whether the gated action may run at `now`; when it may, record
    /// `now` as the time of this call. The caller performs the side-effecting
    /// action exactly when `true` comes back, so the action runs at most once
    /// per backoff interval.
    pub fn call(&mut self, now: u64) -> (permitted: bool)
        ensures
            permitted == old(self).allows(now),
            permitted ==> *final(self) == old(self).after_call(now),
            !permitted ==> *final(self) == *old(self),
    {
        if now >= self.backoff_time && now - self.backoff_time >= self.last_call {
            self.last_call = now;
            true
        } else {
            false
        }
    }
}

impl Default for BackoffHandler {
    /// A handler that permits one call per minute; the first call is
    /// permitted as soon as the clock is past the first minute.
    fn default() -> (r: Self)
        ensures
            r.last_call == 0,
            r.backoff_time == 60,
    {
        BackoffHandler { last_call: 0, backoff_time: 60 }
    }
}

/// Law: once a call was permitted at `t1`, the handler that recorded it
/// permits a further call at `t2` exactly when the backoff duration has
/// fully elapsed since `t1` — so two calls within one interval execute the
/// wrapped action exactly once.
pub proof fn lemma_backoff_single_execution(gate: BackoffHandler, t1: u64, t2: u64)
    requires
        gate.allows(t1),
    ensures
        gate.after_call(t1).allows(t2) <==> t1 + gate.backoff_time <= t2,
{
}

} // verus!
