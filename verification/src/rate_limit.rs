//! A sliding-window rate limiter: per key, at most `max_attempts` attempts
//! inside a window; a fresh window starts once the configured duration has
//! elapsed. The entries live in a concurrent map shared by all callers.

use vstd::prelude::*;

verus! {

#[verifier::external_type_specification]
#[verifier::external_body]
#[verifier::reject_recursive_types(K)]
#[verifier::reject_recursive_types(V)]
#[verifier::reject_recursive_types(S)]
pub struct ExDashMap<K, V, S>(dashmap::DashMap<K, V, S>);

/// One key's state: the attempt count and the window start, in seconds.
pub type RateEntry = (u32, u64);

/// What the rate-limiter map holds: per key, the attempt count and the
/// window start, in seconds.
pub uninterp spec fn rate_entries(m: dashmap::DashMap<String, RateEntry>) -> Map<Seq<char>, RateEntry>;

/// Relies on dashmap::DashMap::get: the value stored under the key, if any.
#[verifier::external_body]
fn rate_map_get(m: &dashmap::DashMap<String, RateEntry>, key: &str) -> (r: Option<RateEntry>)
    ensures
        r is Some <==> rate_entries(*m).dom().contains(key@),
        r is Some ==> r->0 == rate_entries(*m)[key@],
{
    m.get(key).map(|entry| *entry)
}

/// Relies on dashmap::DashMap::insert: the key now maps to the value,
/// nothing else changes.
#[verifier::external_body]
fn rate_map_insert(m: &mut dashmap::DashMap<String, RateEntry>, key: &str, value: RateEntry)
    ensures
        rate_entries(*final(m)) == rate_entries(*old(m)).insert(key@, value),
{
    m.insert(key.to_owned(), value);
}

/// Relies on dashmap::DashMap::remove: the key is gone, nothing else
/// changes.
#[verifier::external_body]
fn rate_map_remove(m: &mut dashmap::DashMap<String, RateEntry>, key: &str)
    ensures
        rate_entries(*final(m)) == rate_entries(*old(m)).remove(key@),
{
    m.remove(key);
}

/// The window that started at `window_start` has fully elapsed at `now`.
pub open spec fn window_expired(now: u64, window_start: u64, window_seconds: u64) -> bool {
    now > window_start + window_seconds
}

/// Whether the entry's window has fully elapsed at `now`.
fn entry_window_expired(now: u64, window_start: u64, window_seconds: u64) -> (r: bool)
    ensures
        r == window_expired(now, window_start, window_seconds),
{
    now > window_start && now - window_start > window_seconds
}

/// Relies on dashmap::DashMap::retain: exactly the entries on which the
/// predicate returns true stay; the predicate calls the verified
/// `entry_window_expired` on each entry.
#[verifier::external_body]
fn rate_map_retain_fresh(m: &mut dashmap::DashMap<String, RateEntry>, now: u64, window_seconds: u64)
    ensures
        forall|k: Seq<char>|
            rate_entries(*final(m)).dom().contains(k) <==> (rate_entries(*old(m)).dom().contains(k)
                && !window_expired(now, rate_entries(*old(m))[k].1, window_seconds)),
        forall|k: Seq<char>|
            rate_entries(*final(m)).dom().contains(k) ==> rate_entries(*final(m))[k]
                == rate_entries(*old(m))[k],
{
    m.retain(|_, entry| !entry_window_expired(now, entry.1, window_seconds));
}

/// The rate-limiting bounds: how many attempts a key gets per window.
pub struct RateLimitConfig {
    pub max_attempts: u32,
    pub window_minutes: i64,
}

impl RateLimitConfig {
    /// The window length must be a non-negative number of minutes small
    /// enough to express in seconds.
    pub open spec fn wf(self) -> bool {
        0 <= self.window_minutes <= 0x7fff_ffff
    }

    /// The window length in seconds.
    pub fn window_seconds(&self) -> (r: u64)
        requires
            self.wf(),
        ensures
            r == self.window_minutes * 60,
    {
        (self.window_minutes as u64) * 60
    }
}

impl Default for RateLimitConfig {
    /// Five attempts per quarter hour.
    fn default() -> (r: Self)
        ensures
            r.max_attempts == 5,
            r.window_minutes == 15,
            r.wf(),
    {
        RateLimitConfig { max_attempts: 5, window_minutes: 15 }
    }
}

/// One call of the limiter: the entry the key holds afterwards, or `None`
/// when the map keeps what it had.
pub open spec fn rate_limit_updated_entry(
    entry: Option<RateEntry>,
    max_attempts: u32,
    window_seconds: u64,
    now: u64,
) -> Option<RateEntry> {
    match entry {
        None => Some((1u32, now)),
        Some((attempts, window_start)) => {
            if window_expired(now, window_start, window_seconds) {
                Some((1u32, now))
            } else if attempts >= max_attempts {
                None
            } else {
                Some(((attempts + 1) as u32, window_start))
            }
        },
    }
}

/// Whether the call is rejected: only an unexpired window that already
/// used up its attempts limits the key.
pub open spec fn rate_limit_rejects(
    entry: Option<RateEntry>,
    max_attempts: u32,
    window_seconds: u64,
    now: u64,
) -> bool {
    match entry {
        None => false,
        Some((attempts, window_start)) => !window_expired(now, window_start, window_seconds)
            && attempts >= max_attempts,
    }
}

/// The shared rate-limiter state; its view maps each key to its attempt
/// count and window start.
pub struct RateLimiter {
    map: dashmap::DashMap<String, RateEntry>,
}

impl View for RateLimiter {
    type V = Map<Seq<char>, RateEntry>;

    closed spec fn view(&self) -> Map<Seq<char>, RateEntry> {
        rate_entries(self.map)
    }
}

impl RateLimiter {
    /// A limiter with no entries. Relies on dashmap::DashMap::new: the
    /// fresh map is empty.
    #[verifier::external_body]
    pub fn new() -> (r: RateLimiter)
        ensures
            r@ =~= Map::empty(),
    {
        RateLimiter { map: dashmap::DashMap::new() }
    }

    /// The entry a key currently holds, if any.
    pub fn entry(&self, key: &str) -> (r: Option<RateEntry>)
        ensures
            r == if self@.dom().contains(key@) {
                Some(self@[key@])
            } else {
                Option::<RateEntry>::None
            },
    {
        rate_map_get(&self.map, key)
    }

    /// One attempt for the key at `now`: on first use the key gets a fresh
    /// window with one attempt and passes; in an expired window the entry
    /// resets the same way; within a live window the attempt passes and
    /// counts until `max_attempts` is reached, after which calls are
    /// rejected without mutating anything.
    pub fn is_rate_limited(&mut self, key: &str, config: &RateLimitConfig, now: u64) -> (limited:
        bool)
        requires
            config.wf(),
        ensures
            ({
                let entry = if old(self)@.dom().contains(key@) {
                    Some(old(self)@[key@])
                } else {
                    None
                };
                let window_seconds = (config.window_minutes * 60) as u64;
                &&& limited == rate_limit_rejects(entry, config.max_attempts, window_seconds, now)
                &&& final(self)@ == match rate_limit_updated_entry(
                    entry,
                    config.max_attempts,
                    window_seconds,
                    now,
                ) {
                    Some(e) => old(self)@.insert(key@, e),
                    None => old(self)@,
                }
            }),
    {
        let window_seconds = config.window_seconds();
        match rate_map_get(&self.map, key) {
            None => {
                rate_map_insert(&mut self.map, key, (1, now));
                false
            },
            Some((attempts, window_start)) => {
                if entry_window_expired(now, window_start, window_seconds) {
                    rate_map_insert(&mut self.map, key, (1, now));
                    false
                } else if attempts >= config.max_attempts {
                    true
                } else {
                    rate_map_insert(&mut self.map, key, (attempts + 1, window_start));
                    false
                }
            },
        }
    }

    /// Forget a key outright, forgiving its prior attempts.
    pub fn reset_rate_limit(&mut self, key: &str)
        ensures
            final(self)@ == old(self)@.remove(key@),
    {
        rate_map_remove(&mut self.map, key);
    }

    /// Drop every entry whose window has fully elapsed; live entries stay
    /// untouched. Run periodically to bound memory.
    pub fn cleanup_old_entries(&mut self, config: &RateLimitConfig, now: u64)
        requires
            config.wf(),
        ensures
            forall|k: Seq<char>|
                final(self)@.dom().contains(k) <==> (old(self)@.dom().contains(k)
                    && !window_expired(now, old(self)@[k].1, (config.window_minutes * 60) as u64)),
            forall|k: Seq<char>| final(self)@.dom().contains(k) ==> final(self)@[k] == old(self)@[k],
    {
        let window_seconds = config.window_seconds();
        rate_map_retain_fresh(&mut self.map, now, window_seconds);
    }
}

/// The limiter's entry after a run of calls at the given times, each
/// call stepping the entry as `is_rate_limited` does.
pub open spec fn rate_limit_run(
    entry: Option<RateEntry>,
    max_attempts: u32,
    window_seconds: u64,
    times: Seq<u64>,
) -> Option<RateEntry>
    decreases times.len(),
{
    if times.len() == 0 {
        entry
    } else {
        let stepped = match rate_limit_updated_entry(entry, max_attempts, window_seconds, times[0]) {
            Some(e) => Some(e),
            None => entry,
        };
        rate_limit_run(stepped, max_attempts, window_seconds, times.drop_first())
    }
}

/// Law: inside one live window, consecutive calls are counted one by one
/// for as long as the budget lasts — after a run of calls that stays
/// within the window and within `max_attempts`, the attempt count has
/// grown by exactly the number of calls, and the window start is
/// untouched. Together with `lemma_rate_limiter_rejects`, this is the
/// sliding window in full: a fresh key passes its first `max_attempts`
/// calls and is rejected on the next one.
pub proof fn lemma_rate_limiter_window_counting(
    attempts: u32,
    window_start: u64,
    max_attempts: u32,
    window_seconds: u64,
    times: Seq<u64>,
)
    requires
        forall|i: int| 0 <= i < times.len() ==> #[trigger] times[i] <= window_start
            + window_seconds,
        attempts + times.len() <= max_attempts,
    ensures
        rate_limit_run(Some((attempts, window_start)), max_attempts, window_seconds, times)
            == Some((((attempts + times.len()) as u32), window_start)),
    decreases times.len(),
{
    if times.len() > 0 {
        assert(!window_expired(times[0], window_start, window_seconds));
        let stepped = rate_limit_updated_entry(
            Some((attempts, window_start)),
            max_attempts,
            window_seconds,
            times[0],
        );
        assert(stepped == Some((((attempts + 1) as u32), window_start)));
        assert forall|i: int| 0 <= i < times.drop_first().len() implies #[trigger] times.drop_first()[i]
            <= window_start + window_seconds by {
            assert(times.drop_first()[i] == times[i + 1]);
        }
        lemma_rate_limiter_window_counting(
            (attempts + 1) as u32,
            window_start,
            max_attempts,
            window_seconds,
            times.drop_first(),
        );
    }
}

/// Law: within one window, the first `max_attempts` attempts for a fresh
/// key pass and are counted, and every further attempt inside that window
/// is rejected. The attempt count after `n` passing calls is exactly `n`.
pub proof fn lemma_rate_limiter_counts(
    entry: Option<RateEntry>,
    max_attempts: u32,
    window_seconds: u64,
    now: u64,
)
    requires
        match entry {
            Some((attempts, window_start)) => !window_expired(now, window_start, window_seconds)
                && attempts < max_attempts,
            None => true,
        },
    ensures
        !rate_limit_rejects(entry, max_attempts, window_seconds, now),
        rate_limit_updated_entry(entry, max_attempts, window_seconds, now) matches Some(e)
            && e.0 == match entry {
            Some((attempts, _)) => attempts + 1,
            None => 1int,
        },
        entry matches Some((attempts, start)) ==> rate_limit_updated_entry(
            entry,
            max_attempts,
            window_seconds,
            now,
        ) == Some((((attempts + 1) as u32), start)),
{
}

/// Law: once a live window has used up its attempts, the call is rejected
/// and the entry does not change — the rejected call is not counted.
pub proof fn lemma_rate_limiter_rejects(
    attempts: u32,
    window_start: u64,
    max_attempts: u32,
    window_seconds: u64,
    now: u64,
)
    requires
        !window_expired(now, window_start, window_seconds),
        attempts >= max_attempts,
    ensures
        rate_limit_rejects(Some((attempts, window_start)), max_attempts, window_seconds, now),
        rate_limit_updated_entry(
            Some((attempts, window_start)),
            max_attempts,
            window_seconds,
            now,
        ) is None,
{
}

/// Law: after the window has elapsed, the next attempt passes again and
/// the entry resets to one attempt in a window starting now.
pub proof fn lemma_rate_limiter_window_reset(
    attempts: u32,
    window_start: u64,
    max_attempts: u32,
    window_seconds: u64,
    now: u64,
)
    requires
        window_expired(now, window_start, window_seconds),
    ensures
        !rate_limit_rejects(Some((attempts, window_start)), max_attempts, window_seconds, now),
        rate_limit_updated_entry(
            Some((attempts, window_start)),
            max_attempts,
            window_seconds,
            now,
        ) == Some((1u32, now)),
{
}

} // verus!
