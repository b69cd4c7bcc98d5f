//! Custom limiters: the interface, a registry, and two limiters built on it
//! (a leaky bucket and a token bucket).

use vstd::prelude::*;

use crate::clock::now_unix_nanos;
use crate::error::LimiteronError;
use crate::json::{member_u64, spec_member_u64, JsonValue};

use std::collections::VecDeque;

verus! {

/// Counts of the requests a limiter has seen.
#[derive(Debug, Clone, Copy, PartialEq, Eq)]
pub struct LimiterStats {
    /// Every request.
    pub total_requests: u64,
    /// Requests let through.
    pub allowed_requests: u64,
    /// Requests turned away.
    pub rejected_requests: u64,
}

/// A counter increment that wraps around at the top of the range.
pub open spec fn inc(x: u64) -> u64 {
    if x == u64::MAX {
        0
    } else {
        (x + 1) as u64
    }
}

fn inc_exec(x: u64) -> (r: u64)
    ensures
        r == inc(x),
{
    if x == u64::MAX {
        0
    } else {
        x + 1
    }
}

/// The statistics after one more request, allowed or not.
pub open spec fn spec_record(s: LimiterStats, allowed: bool) -> LimiterStats {
    if allowed {
        LimiterStats {
            total_requests: inc(s.total_requests),
            allowed_requests: inc(s.allowed_requests),
            ..s
        }
    } else {
        LimiterStats {
            total_requests: inc(s.total_requests),
            rejected_requests: inc(s.rejected_requests),
            ..s
        }
    }
}

/// The counters agree: allowed and rejected requests add up to the total
/// (modulo 2^64, where the counters wrap).
pub open spec fn stats_consistent(s: LimiterStats) -> bool {
    (s.allowed_requests + s.rejected_requests) % 0x1_0000_0000_0000_0000 == s.total_requests as int
}

impl LimiterStats {
    /// Statistics with every count zero.
    pub fn new() -> (r: Self)
        ensures
            r.total_requests == 0,
            r.allowed_requests == 0,
            r.rejected_requests == 0,
    {
        LimiterStats { total_requests: 0, allowed_requests: 0, rejected_requests: 0 }
    }

    /// Counts one more request.
    pub fn record(&mut self, allowed: bool)
        ensures
            *final(self) == spec_record(*old(self), allowed),
    {
        self.total_requests = inc_exec(self.total_requests);
        if allowed {
            self.allowed_requests = inc_exec(self.allowed_requests);
        } else {
            self.rejected_requests = inc_exec(self.rejected_requests);
        }
    }
}

impl Default for LimiterStats {
    fn default() -> (r: Self)
        ensures
            r.total_requests == 0,
            r.allowed_requests == 0,
            r.rejected_requests == 0,
    {
        LimiterStats::new()
    }
}

/// Counting a request keeps the counters consistent.
pub proof fn law_record_keeps_stats_consistent(s: LimiterStats, allowed: bool)
    requires
        stats_consistent(s),
    ensures
        stats_consistent(spec_record(s, allowed)),
{
}

/// Interface of a limiter that users can plug in.
pub trait CustomLimiter {
    /// The name the limiter goes by.
    spec fn spec_name(&self) -> Seq<char>;

    /// The counts the limiter reports.
    spec fn spec_stats(&self) -> LimiterStats;

    /// Whether `r` is an answer the limiter, as it stands, may give to a
    /// request of `cost`.
    spec fn may_answer(&self, cost: u64, r: Result<bool, LimiteronError>) -> bool;

    /// Whether `r` is what the limiter, as it stands, answers to loading
    /// `config`.
    spec fn load_answer(&self, config: JsonValue, r: Result<(), LimiteronError>) -> bool;

    /// Unique name of the limiter.
    fn name(&self) -> (r: &str)
        ensures
            r@ == self.spec_name(),
    ;

    /// Whether a request of the given cost may pass.
    fn allow(&mut self, cost: u64) -> (r: Result<bool, LimiteronError>)
        ensures
            old(self).may_answer(cost, r),
    ;

    /// Loads the limiter's settings from a JSON configuration.
    fn load_config(&mut self, config: &JsonValue) -> (r: Result<(), LimiteronError>)
        ensures
            old(self).load_answer(*config, r),
    ;

    /// Counts of the requests seen so far.
    fn stats(&self) -> (r: LimiterStats)
        ensures
            r == self.spec_stats(),
    ;
}

/// What loading a configuration that must name two positive settings
/// answers: success when both are there, else the message of the first
/// problem.
pub open spec fn two_settings_answer(
    config: JsonValue,
    first: Seq<char>,
    second: Seq<char>,
    r: Result<(), LimiteronError>,
) -> bool {
    match spec_two_settings(config, first, second) {
        Ok(_) => r is Ok,
        Err(m) => r matches Err(LimiteronError::ConfigError(x)) && x@ == m,
    }
}

/// Time elapsed from `then` to `now` in nanoseconds, zero when the clock went
/// backwards.
pub open spec fn elapsed(now: u64, then: u64) -> nat {
    if now >= then {
        (now - then) as nat
    } else {
        0
    }
}

/// What a `load_config` with two required positive settings does: the
/// first missing, then the first zero, setting is an error.
pub open spec fn spec_two_settings(
    config: JsonValue,
    first: Seq<char>,
    second: Seq<char>,
) -> Result<(u64, u64), Seq<char>> {
    match spec_member_u64(config, first) {
        None => Err("缺少 "@ + first + " 配置"@),
        Some(a) => match spec_member_u64(config, second) {
            None => Err("缺少 "@ + second + " 配置"@),
            Some(b) => if a == 0 {
                Err(first + " 必须大于 0"@)
            } else if b == 0 {
                Err(second + " 必须大于 0"@)
            } else {
                Ok((a, b))
            },
        },
    }
}

/// Reads two required positive integer settings.
fn read_two_settings(config: &JsonValue, first: &str, second: &str) -> (r: Result<(u64, u64), LimiteronError>)
    ensures
        match spec_two_settings(*config, first@, second@) {
            Ok(p) => r == Ok::<(u64, u64), LimiteronError>(p),
            Err(m) => r matches Err(LimiteronError::ConfigError(x)) && x@ == m,
        },
{
    let a = match member_u64(config, first) {
        Some(a) => a,
        None => {
            let m = crate::text::concat_str("缺少 ", first);
            let m = crate::text::concat_str(m.as_str(), " 配置");
            return Err(LimiteronError::ConfigError(m));
        },
    };
    let b = match member_u64(config, second) {
        Some(b) => b,
        None => {
            let m = crate::text::concat_str("缺少 ", second);
            let m = crate::text::concat_str(m.as_str(), " 配置");
            return Err(LimiteronError::ConfigError(m));
        },
    };
    if a == 0 {
        return Err(LimiteronError::ConfigError(crate::text::concat_str(first, " 必须大于 0")));
    }
    if b == 0 {
        return Err(LimiteronError::ConfigError(crate::text::concat_str(second, " 必须大于 0")));
    }
    Ok((a, b))
}

// ---------------------------------------------------------------------------
// Token bucket
// ---------------------------------------------------------------------------

/// The state of a token bucket. Times are nanoseconds since the Unix epoch.
pub struct TokenBucketState {
    pub capacity: u64,
    pub refill_rate: u64,
    pub tokens: u64,
    pub last_refill: u64,
    pub stats: LimiterStats,
}

/// Tokens earned in `elapsed` nanoseconds at `rate` tokens per second,
/// rounded down and capped at the largest `u64`.
pub open spec fn tokens_earned(elapsed: nat, rate: u64) -> nat {
    let t = (elapsed * rate / 1_000_000_000) as nat;
    if t > u64::MAX {
        u64::MAX as nat
    } else {
        t
    }
}

/// Refilling at time `now`: nothing happens until a millisecond has passed
/// since the last refill, or while less than one token was earned;
/// otherwise the earned tokens are added, capped at the capacity, and the
/// refill time moves to `now`.
pub open spec fn spec_refill(s: TokenBucketState, now: u64) -> TokenBucketState {
    let e = elapsed(now, s.last_refill);
    if e < 1_000_000 {
        s
    } else {
        let add = tokens_earned(e, s.refill_rate);
        if add == 0 {
            s
        } else {
            let sum = if s.tokens + add > u64::MAX {
                u64::MAX as nat
            } else {
                (s.tokens + add) as nat
            };
            TokenBucketState {
                tokens: if sum < s.capacity {
                    sum as u64
                } else {
                    s.capacity
                },
                last_refill: now,
                ..s
            }
        }
    }
}

/// A request of `cost` at time `now`: refill, then take `cost` tokens if
/// there are enough.
pub open spec fn spec_token_allow(s: TokenBucketState, cost: u64, now: u64) -> (TokenBucketState, bool) {
    let s1 = spec_refill(s, now);
    if s1.tokens < cost {
        (TokenBucketState { stats: spec_record(s1.stats, false), ..s1 }, false)
    } else {
        (
            TokenBucketState {
                tokens: (s1.tokens - cost) as u64,
                stats: spec_record(s1.stats, true),
                ..s1
            },
            true,
        )
    }
}

/// A token bucket: tokens refill at a constant rate up to the capacity, and
/// each request spends tokens.
#[derive(Debug)]
pub struct TokenBucketLimiter {
    capacity: u64,
    refill_rate: u64,
    tokens: u64,
    last_refill: u64,
    stats: LimiterStats,
}

impl View for TokenBucketLimiter {
    type V = TokenBucketState;

    closed spec fn view(&self) -> TokenBucketState {
        TokenBucketState {
            capacity: self.capacity,
            refill_rate: self.refill_rate,
            tokens: self.tokens,
            last_refill: self.last_refill,
            stats: self.stats,
        }
    }
}

impl TokenBucketLimiter {
    /// A full bucket created at time `now`.
    pub fn new_at(capacity: u64, refill_rate: u64, now: u64) -> (r: Self)
        ensures
            r@ == (TokenBucketState {
                capacity,
                refill_rate,
                tokens: capacity,
                last_refill: now,
                stats: LimiterStats { total_requests: 0, allowed_requests: 0, rejected_requests: 0 },
            }),
    {
        TokenBucketLimiter {
            capacity,
            refill_rate,
            tokens: capacity,
            last_refill: now,
            stats: LimiterStats::new(),
        }
    }

    /// A full bucket created now.
    pub fn new(capacity: u64, refill_rate: u64) -> (r: Self)
        ensures
            r@.capacity == capacity,
            r@.refill_rate == refill_rate,
            r@.tokens == capacity,
            r@.stats == (LimiterStats { total_requests: 0, allowed_requests: 0, rejected_requests: 0 }),
    {
        let now = now_unix_nanos();
        Self::new_at(capacity, refill_rate, now)
    }

    /// The capacity.
    pub fn capacity(&self) -> (r: u64)
        ensures
            r == self@.capacity,
    {
        self.capacity
    }

    /// The refill rate in tokens per second.
    pub fn refill_rate(&self) -> (r: u64)
        ensures
            r == self@.refill_rate,
    {
        self.refill_rate
    }

    /// The tokens in the bucket.
    pub fn tokens(&self) -> (r: u64)
        ensures
            r == self@.tokens,
    {
        self.tokens
    }

    /// Refills the bucket at time `now`.
    pub fn refill_tokens_at(&mut self, now: u64)
        ensures
            final(self)@ == spec_refill(old(self)@, now),
    {
        let e: u64 = if now >= self.last_refill {
            now - self.last_refill
        } else {
            0
        };
        if e < 1_000_000 {
            return ;
        }
        let rate = self.refill_rate;
        assert((e as u128) * (rate as u128) <= (u64::MAX as u128) * (u64::MAX as u128))
            by (nonlinear_arith);
        let earned: u128 = (e as u128) * (rate as u128) / 1_000_000_000;
        let add: u64 = if earned > (u64::MAX as u128) {
            u64::MAX
        } else {
            earned as u64
        };
        if add == 0 {
            return ;
        }
        let sum: u64 = if self.tokens > u64::MAX - add {
            u64::MAX
        } else {
            self.tokens + add
        };
        self.tokens = if sum < self.capacity {
            sum
        } else {
            self.capacity
        };
        self.last_refill = now;
    }

    /// A request of `cost` at time `now`.
    pub fn allow_at(&mut self, cost: u64, now: u64) -> (r: bool)
        ensures
            (final(self)@, r) == spec_token_allow(old(self)@, cost, now),
    {
        self.refill_tokens_at(now);
        if self.tokens < cost {
            self.stats.record(false);
            false
        } else {
            self.tokens = self.tokens - cost;
            self.stats.record(true);
            true
        }
    }

    /// Reads `capacity` and `refill_rate`, both required and positive; on
    /// success the bucket is refilled to the new capacity.
    pub fn load_config_from(&mut self, config: &JsonValue) -> (r: Result<(), LimiteronError>)
        ensures
            match spec_two_settings(*config, "capacity"@, "refill_rate"@) {
                Ok((c, rate)) => r is Ok && final(self)@ == (TokenBucketState {
                    capacity: c,
                    refill_rate: rate,
                    tokens: c,
                    ..old(self)@
                }),
                Err(m) => r matches Err(LimiteronError::ConfigError(x)) && x@ == m && final(self)@
                    == old(self)@,
            },
    {
        let (c, rate) = read_two_settings(config, "capacity", "refill_rate")?;
        self.capacity = c;
        self.refill_rate = rate;
        self.tokens = c;
        Ok(())
    }
}

impl CustomLimiter for TokenBucketLimiter {
    open spec fn spec_name(&self) -> Seq<char> {
        "token_bucket"@
    }

    open spec fn spec_stats(&self) -> LimiterStats {
        self@.stats
    }

    /// Answers are never errors: the answer of the bucket at some instant.
    open spec fn may_answer(&self, cost: u64, r: Result<bool, LimiteronError>) -> bool {
        exists|now: u64| r == Ok::<bool, LimiteronError>(spec_token_allow(self@, cost, now).1)
    }

    open spec fn load_answer(&self, config: JsonValue, r: Result<(), LimiteronError>) -> bool {
        two_settings_answer(config, "capacity"@, "refill_rate"@, r)
    }

    fn name(&self) -> (r: &str)
        ensures
            r@ == "token_bucket"@,
    {
        "token_bucket"
    }

    fn allow(&mut self, cost: u64) -> (r: Result<bool, LimiteronError>)
        ensures
            exists|now: u64|
                r == Ok::<bool, LimiteronError>(spec_token_allow(old(self)@, cost, now).1)
                    && final(self)@ == spec_token_allow(old(self)@, cost, now).0,
    {
        let now = now_unix_nanos();
        Ok(self.allow_at(cost, now))
    }

    fn load_config(&mut self, config: &JsonValue) -> (r: Result<(), LimiteronError>)
        ensures
            match spec_two_settings(*config, "capacity"@, "refill_rate"@) {
                Ok((c, rate)) => r is Ok && final(self)@ == (TokenBucketState {
                    capacity: c,
                    refill_rate: rate,
                    tokens: c,
                    ..old(self)@
                }),
                Err(m) => r matches Err(LimiteronError::ConfigError(x)) && x@ == m && final(self)@
                    == old(self)@,
            },
    {
        self.load_config_from(config)
    }

    fn stats(&self) -> (r: LimiterStats)
        ensures
            r == self@.stats,
    {
        self.stats
    }
}

/// The bucket never holds more tokens than its capacity: refilling and
/// spending keep that true.
pub proof fn law_tokens_within_capacity(s: TokenBucketState, cost: u64, now: u64)
    requires
        s.tokens <= s.capacity,
    ensures
        spec_refill(s, now).tokens <= s.capacity,
        spec_token_allow(s, cost, now).0.tokens <= s.capacity,
{
}

/// A request passes exactly when the refilled bucket holds at least its
/// cost, and then exactly `cost` tokens are spent; a rejected request spends
/// nothing.
pub proof fn law_token_spend(s: TokenBucketState, cost: u64, now: u64)
    ensures
        spec_token_allow(s, cost, now).1 == (spec_refill(s, now).tokens >= cost),
        spec_token_allow(s, cost, now).1 ==> spec_token_allow(s, cost, now).0.tokens
            + cost == spec_refill(s, now).tokens,
        !spec_token_allow(s, cost, now).1 ==> spec_token_allow(s, cost, now).0.tokens
            == spec_refill(s, now).tokens,
        stats_consistent(s.stats) ==> stats_consistent(spec_token_allow(s, cost, now).0.stats),
{
}

/// Refilling never removes tokens from a bucket within its capacity.
pub proof fn law_refill_monotonic(s: TokenBucketState, now: u64)
    requires
        s.tokens <= s.capacity,
    ensures
        spec_refill(s, now).tokens >= s.tokens,
{
}

/// The bucket after refilling at each of `times`, in order.
pub open spec fn spec_refill_run(s: TokenBucketState, times: Seq<u64>) -> TokenBucketState
    decreases times.len(),
{
    if times.len() == 0 {
        s
    } else {
        spec_refill_run(spec_refill(s, times[0]), times.drop_first())
    }
}

proof fn lemma_floor_superadditive(x: nat, y: nat, d: nat)
    requires
        d > 0,
    ensures
        x / d + y / d <= (x + y) / d,
{
    assert(x / d + y / d <= (x + y) / d) by (nonlinear_arith)
        requires
            d > 0,
    {
        let qx = x / d;
        let qy = y / d;
        assert(qx * d <= x);
        assert(qy * d <= y);
        assert((qx + qy) * d <= x + y);
        assert(((x + y) / d + 1) * d > x + y);
    }
}

proof fn lemma_refill_run_earns_no_more(s: TokenBucketState, times: Seq<u64>)
    requires
        forall|i: int, j: int| 0 <= i <= j < times.len() ==> times[i] <= times[j],
        times.len() > 0 ==> s.last_refill <= times[0],
    ensures
        ({
            let r = spec_refill_run(s, times);
            &&& s.last_refill <= r.last_refill
            &&& times.len() > 0 ==> r.last_refill <= times.last()
            &&& r.tokens <= s.tokens + (r.last_refill - s.last_refill) * s.refill_rate / 1_000_000_000
            &&& r.refill_rate == s.refill_rate
        }),
    decreases times.len(),
{
    if times.len() > 0 {
        let t = times[0];
        let s1 = spec_refill(s, t);
        let rest = times.drop_first();
        assert forall|i: int, j: int| 0 <= i <= j < rest.len() implies rest[i] <= rest[j] by {
            assert(rest[i] == times[i + 1] && rest[j] == times[j + 1]);
        }
        if rest.len() > 0 {
            assert(rest[0] == times[1]);
            assert(s1.last_refill <= t);
        }
        lemma_refill_run_earns_no_more(s1, rest);
        let r = spec_refill_run(s1, rest);
        let rate = s.refill_rate as nat;
        let a = (s1.last_refill - s.last_refill) as nat;
        let b = (r.last_refill - s1.last_refill) as nat;
        assert(s1.tokens <= s.tokens + a * rate / 1_000_000_000) by {
            if s1.last_refill != s.last_refill {
                assert(elapsed(t, s.last_refill) == a);
                assert(s1.tokens <= s.tokens + tokens_earned(a, s.refill_rate));
            }
        }
        assert(a * rate + b * rate == (a + b) * rate) by (nonlinear_arith);
        lemma_floor_superadditive(a * rate, b * rate, 1_000_000_000);
        if rest.len() > 0 {
            assert(rest.last() == times.last());
        }
    }
}

/// One refill earns exactly what the elapsed time earns: before a
/// millisecond has passed since the last refill nothing changes; after it,
/// a bucket within its capacity holds the tokens it had plus the whole
/// tokens earned at the refill rate over the elapsed time, up to its
/// capacity.
pub proof fn law_refill_adds_what_time_earns(s: TokenBucketState, now: u64)
    requires
        s.tokens <= s.capacity,
    ensures
        elapsed(now, s.last_refill) < 1_000_000 ==> spec_refill(s, now) == s,
        elapsed(now, s.last_refill) >= 1_000_000 ==> spec_refill(s, now).tokens == if s.tokens
            + elapsed(now, s.last_refill) * s.refill_rate / 1_000_000_000 >= s.capacity {
            s.capacity as int
        } else {
            s.tokens + elapsed(now, s.last_refill) * s.refill_rate / 1_000_000_000
        },
        spec_refill(s, now).capacity == s.capacity && spec_refill(s, now).refill_rate == s.refill_rate,
{
}

/// Tokens are never counted twice: over any run of refills at times that
/// never go back (from the last refill on), the tokens added altogether are
/// at most what the refill rate earns in the time from the bucket's last
/// refill to the last of those times, rounded down. In particular a refill
/// that adds tokens moves the refill time to its own time, so a refill a
/// moment later adds only what that moment earns.
pub proof fn law_refills_earn_no_more_than_elapsed(s: TokenBucketState, times: Seq<u64>)
    requires
        times.len() > 0,
        s.last_refill <= times[0],
        forall|i: int, j: int| 0 <= i <= j < times.len() ==> times[i] <= times[j],
    ensures
        spec_refill_run(s, times).tokens <= s.tokens + (times.last() - s.last_refill) * s.refill_rate
            / 1_000_000_000,
        spec_refill(s, times[0]).tokens > s.tokens ==> spec_refill(s, times[0]).last_refill == times[0],
{
    lemma_refill_run_earns_no_more(s, times);
    let r = spec_refill_run(s, times);
    let rate = s.refill_rate as nat;
    let x = (r.last_refill - s.last_refill) as nat;
    let y = (times.last() - s.last_refill) as nat;
    assert(x * rate <= y * rate) by (nonlinear_arith)
        requires
            x <= y,
    ;
    assert(x * rate / 1_000_000_000 <= y * rate / 1_000_000_000) by (nonlinear_arith)
        requires
            x * rate <= y * rate,
    ;
}

// ---------------------------------------------------------------------------
// Leaky bucket
// ---------------------------------------------------------------------------

/// The state of a leaky bucket: one timestamp (nanoseconds since the Unix
/// epoch) per unit of cost in the bucket, oldest first.
pub struct LeakyBucketState {
    pub capacity: u64,
    pub leak_rate: u64,
    pub queue: Seq<u64>,
    pub stats: LimiterStats,
}

/// A unit that entered at `t` has leaked out by `now` once a full leak
/// interval (one second divided by the leak rate) has passed. With a leak
/// rate of zero the interval is endless and nothing leaks.
pub open spec fn has_leaked(t: u64, now: u64, leak_rate: u64) -> bool {
    elapsed(now, t) * leak_rate >= 1_000_000_000
}

/// The queue after leaking: units leave from the front for as long as the
/// front unit has leaked.
pub open spec fn spec_leak(q: Seq<u64>, now: u64, leak_rate: u64) -> Seq<u64>
    decreases q.len(),
{
    if q.len() > 0 && has_leaked(q[0], now, leak_rate) {
        spec_leak(q.drop_first(), now, leak_rate)
    } else {
        q
    }
}

/// A request of `cost` at time `now`: leak, then admit the request if the
/// bucket has room for its whole cost, one queued unit per unit of cost.
pub open spec fn spec_leaky_allow(s: LeakyBucketState, cost: u64, now: u64) -> (LeakyBucketState, bool) {
    let q = spec_leak(s.queue, now, s.leak_rate);
    if q.len() + cost > s.capacity {
        (LeakyBucketState { queue: q, stats: spec_record(s.stats, false), ..s }, false)
    } else {
        (
            LeakyBucketState {
                queue: q + Seq::new(cost as nat, |i: int| now),
                stats: spec_record(s.stats, true),
                ..s
            },
            true,
        )
    }
}

proof fn lemma_leak_is_suffix(q: Seq<u64>, now: u64, leak_rate: u64)
    ensures
        spec_leak(q, now, leak_rate).len() <= q.len(),
        spec_leak(q, now, leak_rate) == q.subrange(
            q.len() - spec_leak(q, now, leak_rate).len(),
            q.len() as int,
        ),
    decreases q.len(),
{
    if q.len() > 0 && has_leaked(q[0], now, leak_rate) {
        lemma_leak_is_suffix(q.drop_first(), now, leak_rate);
        assert(q.drop_first().subrange(
            q.drop_first().len() - spec_leak(q, now, leak_rate).len(),
            q.drop_first().len() as int,
        ) =~= q.subrange(q.len() - spec_leak(q, now, leak_rate).len(), q.len() as int));
    } else {
        assert(q.subrange(0, q.len() as int) =~= q);
    }
}

/// A leaky bucket: each admitted unit of cost occupies the bucket until it
/// leaks out at a constant rate; a request that would overflow the bucket
/// is turned away.
#[derive(Debug)]
pub struct LeakyBucketLimiter {
    capacity: u64,
    leak_rate: u64,
    queue: VecDeque<u64>,
    stats: LimiterStats,
}

impl View for LeakyBucketLimiter {
    type V = LeakyBucketState;

    closed spec fn view(&self) -> LeakyBucketState {
        LeakyBucketState {
            capacity: self.capacity,
            leak_rate: self.leak_rate,
            queue: self.queue@,
            stats: self.stats,
        }
    }
}

impl LeakyBucketLimiter {
    /// An empty bucket.
    pub fn new(capacity: u64, leak_rate: u64) -> (r: Self)
        ensures
            r@ == (LeakyBucketState {
                capacity,
                leak_rate,
                queue: Seq::empty(),
                stats: LimiterStats { total_requests: 0, allowed_requests: 0, rejected_requests: 0 },
            }),
    {
        LeakyBucketLimiter {
            capacity,
            leak_rate,
            queue: VecDeque::new(),
            stats: LimiterStats::new(),
        }
    }

    /// The capacity.
    pub fn capacity(&self) -> (r: u64)
        ensures
            r == self@.capacity,
    {
        self.capacity
    }

    /// The leak rate in units per second.
    pub fn leak_rate(&self) -> (r: u64)
        ensures
            r == self@.leak_rate,
    {
        self.leak_rate
    }

    /// The units currently in the bucket.
    pub fn current(&self) -> (r: u64)
        ensures
            r == self@.queue.len(),
    {
        self.queue.len() as u64
    }

    /// Lets out, at time `now`, the units that have leaked.
    pub fn leak_at(&mut self, now: u64)
        ensures
            final(self)@ == (LeakyBucketState {
                queue: spec_leak(old(self)@.queue, now, old(self)@.leak_rate),
                ..old(self)@
            }),
    {
        let rate = self.leak_rate;
        let ghost q0 = self.queue@;
        let mut q: VecDeque<u64> = VecDeque::new();
        std::mem::swap(&mut q, &mut self.queue);
        loop
            invariant
                spec_leak(q0, now, rate) == spec_leak(q@, now, rate),
            ensures
                q@ == spec_leak(q0, now, rate),
            decreases q@.len(),
        {
            if q.len() == 0 {
                break;
            }
            let front: u64 = q[0];
            let e: u64 = if now >= front {
                now - front
            } else {
                0
            };
            assert((e as u128) * (rate as u128) <= (u64::MAX as u128) * (u64::MAX as u128))
                by (nonlinear_arith);
            let leaked: bool = (e as u128) * (rate as u128) >= 1_000_000_000;
            assert(leaked == has_leaked(front, now, rate));
            if !leaked {
                break;
            }
            q.pop_front();
        }
        self.queue = q;
    }

    /// A request of `cost` at time `now`.
    pub fn allow_at(&mut self, cost: u64, now: u64) -> (r: bool)
        ensures
            (final(self)@, r) == spec_leaky_allow(old(self)@, cost, now),
    {
        self.leak_at(now);
        let current: u64 = self.queue.len() as u64;
        if (current as u128) + (cost as u128) > (self.capacity as u128) {
            self.stats.record(false);
            return false;
        }
        let ghost q0 = self.queue@;
        let mut q: VecDeque<u64> = VecDeque::new();
        std::mem::swap(&mut q, &mut self.queue);
        let mut i: u64 = 0;
        while i < cost
            invariant
                i <= cost,
                q@ =~= q0 + Seq::new(i as nat, |k: int| now),
            decreases cost - i,
        {
            q.push_back(now);
            i = i + 1;
        }
        self.queue = q;
        self.stats.record(true);
        true
    }

    /// Reads `capacity` and `leak_rate`, both required and positive.
    pub fn load_config_from(&mut self, config: &JsonValue) -> (r: Result<(), LimiteronError>)
        ensures
            match spec_two_settings(*config, "capacity"@, "leak_rate"@) {
                Ok((c, rate)) => r is Ok && final(self)@ == (LeakyBucketState {
                    capacity: c,
                    leak_rate: rate,
                    ..old(self)@
                }),
                Err(m) => r matches Err(LimiteronError::ConfigError(x)) && x@ == m && final(self)@
                    == old(self)@,
            },
    {
        let (c, rate) = read_two_settings(config, "capacity", "leak_rate")?;
        self.capacity = c;
        self.leak_rate = rate;
        Ok(())
    }
}

impl CustomLimiter for LeakyBucketLimiter {
    open spec fn spec_name(&self) -> Seq<char> {
        "leaky_bucket"@
    }

    open spec fn spec_stats(&self) -> LimiterStats {
        self@.stats
    }

    /// Answers are never errors: the answer of the bucket at some instant.
    open spec fn may_answer(&self, cost: u64, r: Result<bool, LimiteronError>) -> bool {
        exists|now: u64| r == Ok::<bool, LimiteronError>(spec_leaky_allow(self@, cost, now).1)
    }

    open spec fn load_answer(&self, config: JsonValue, r: Result<(), LimiteronError>) -> bool {
        two_settings_answer(config, "capacity"@, "leak_rate"@, r)
    }

    fn name(&self) -> (r: &str)
        ensures
            r@ == "leaky_bucket"@,
    {
        "leaky_bucket"
    }

    fn allow(&mut self, cost: u64) -> (r: Result<bool, LimiteronError>)
        ensures
            exists|now: u64|
                r == Ok::<bool, LimiteronError>(spec_leaky_allow(old(self)@, cost, now).1)
                    && final(self)@ == spec_leaky_allow(old(self)@, cost, now).0,
    {
        let now = now_unix_nanos();
        Ok(self.allow_at(cost, now))
    }

    fn load_config(&mut self, config: &JsonValue) -> (r: Result<(), LimiteronError>)
        ensures
            match spec_two_settings(*config, "capacity"@, "leak_rate"@) {
                Ok((c, rate)) => r is Ok && final(self)@ == (LeakyBucketState {
                    capacity: c,
                    leak_rate: rate,
                    ..old(self)@
                }),
                Err(m) => r matches Err(LimiteronError::ConfigError(x)) && x@ == m && final(self)@
                    == old(self)@,
            },
    {
        self.load_config_from(config)
    }

    fn stats(&self) -> (r: LimiterStats)
        ensures
            r == self@.stats,
    {
        self.stats
    }
}

/// Leaking only lets out the oldest units: what stays is a suffix of the
/// queue, so the bucket never grows by leaking.
pub proof fn law_leak_keeps_newest(q: Seq<u64>, now: u64, leak_rate: u64)
    ensures
        spec_leak(q, now, leak_rate).len() <= q.len(),
        spec_leak(q, now, leak_rate) == q.subrange(
            q.len() - spec_leak(q, now, leak_rate).len(),
            q.len() as int,
        ),
{
    lemma_leak_is_suffix(q, now, leak_rate);
}

/// An admitted request never overflows the bucket, and a rejected one
/// changes nothing but the statistics and the leak.
pub proof fn law_leaky_within_capacity(s: LeakyBucketState, cost: u64, now: u64)
    ensures
        spec_leaky_allow(s, cost, now).1 ==> spec_leaky_allow(s, cost, now).0.queue.len()
            <= s.capacity,
        spec_leaky_allow(s, cost, now).1 ==> spec_leaky_allow(s, cost, now).0.queue.len()
            == spec_leak(s.queue, now, s.leak_rate).len() + cost,
        !spec_leaky_allow(s, cost, now).1 ==> spec_leaky_allow(s, cost, now).0.queue
            == spec_leak(s.queue, now, s.leak_rate),
        stats_consistent(s.stats) ==> stats_consistent(spec_leaky_allow(s, cost, now).0.stats),
{
}

/// A run of requests `(cost, now)` against a leaky bucket, in order: the
/// bucket after them, the total cost admitted, and the total number of
/// units that leaked out on the way.
pub open spec fn spec_leaky_run(s: LeakyBucketState, reqs: Seq<(u64, u64)>) -> (
    LeakyBucketState,
    nat,
    nat,
)
    decreases reqs.len(),
{
    if reqs.len() == 0 {
        (s, 0, 0)
    } else {
        let cost = reqs[0].0;
        let now = reqs[0].1;
        let leaked = (s.queue.len() - spec_leak(s.queue, now, s.leak_rate).len()) as nat;
        let step = spec_leaky_allow(s, cost, now);
        let rest = spec_leaky_run(step.0, reqs.drop_first());
        (rest.0, (if step.1 {
            cost as nat
        } else {
            0nat
        }) + rest.1, leaked + rest.2)
    }
}

/// Over any run of requests, a bucket that starts within its capacity stays
/// within it after every request; what it holds at the end is what it held
/// at the start plus the cost it admitted minus what leaked out; so when
/// nothing leaks during the run, the costs admitted add up to at most the
/// room the bucket had at the start.
pub proof fn law_leaky_run_within_capacity(s: LeakyBucketState, reqs: Seq<(u64, u64)>)
    requires
        s.queue.len() <= s.capacity,
    ensures
        ({
            let r = spec_leaky_run(s, reqs);
            &&& r.0.queue.len() <= s.capacity
            &&& r.0.capacity == s.capacity
            &&& r.0.leak_rate == s.leak_rate
            &&& r.1 + s.queue.len() == r.0.queue.len() + r.2
            &&& r.2 == 0 ==> r.1 <= s.capacity - s.queue.len()
        }),
    decreases reqs.len(),
{
    if reqs.len() > 0 {
        let cost = reqs[0].0;
        let now = reqs[0].1;
        lemma_leak_is_suffix(s.queue, now, s.leak_rate);
        let step = spec_leaky_allow(s, cost, now);
        law_leaky_run_within_capacity(step.0, reqs.drop_first());
    }
}

/// A lookup after a successful registration finds the limiter just
/// registered: whatever the registry held before, the new name stands only
/// for the new limiter.
pub proof fn law_registered_limiter_is_found<L: CustomLimiter>(
    before: &CustomLimiterRegistry<L>,
    after: &CustomLimiterRegistry<L>,
    name: Seq<char>,
    limiter: L,
)
    requires
        !before@.contains(name),
        after@ == before@.push(name),
        after.limiters() == before.limiters().push(limiter),
    ensures
        after@.contains(name),
        forall|i: int| #[trigger] after.registered_at(i, name) ==> after.limiters()[i] == limiter,
{
    before.lemma_limiters_match_names();
    assert(after@[before@.len() as int] == name);
    assert forall|i: int| #[trigger] after.registered_at(i, name) implies after.limiters()[i] == limiter by {
        if i < before@.len() {
            assert(before@[i] == name);
        }
    }
}

impl<L: CustomLimiter> Default for CustomLimiterRegistry<L> {
    fn default() -> (r: Self)
        ensures
            r@ == Seq::<Seq<char>>::empty(),
            r.limiters() == Seq::<L>::empty(),
    {
        CustomLimiterRegistry::new()
    }
}

/// A boxed limiter is a limiter, so that limiters of different kinds can
/// share one registry.
impl CustomLimiter for Box<dyn CustomLimiter> {
    open spec fn spec_name(&self) -> Seq<char> {
        (**self).spec_name()
    }

    open spec fn spec_stats(&self) -> LimiterStats {
        (**self).spec_stats()
    }

    open spec fn may_answer(&self, cost: u64, r: Result<bool, LimiteronError>) -> bool {
        (**self).may_answer(cost, r)
    }

    open spec fn load_answer(&self, config: JsonValue, r: Result<(), LimiteronError>) -> bool {
        (**self).load_answer(config, r)
    }

    fn name(&self) -> &str {
        (**self).name()
    }

    fn allow(&mut self, cost: u64) -> Result<bool, LimiteronError> {
        (**self).allow(cost)
    }

    fn load_config(&mut self, config: &JsonValue) -> Result<(), LimiteronError> {
        (**self).load_config(config)
    }

    fn stats(&self) -> LimiterStats {
        (**self).stats()
    }
}

// ---------------------------------------------------------------------------
// Registry
// ---------------------------------------------------------------------------

/// The message for a name that is already registered.
pub open spec fn spec_already_exists(name: Seq<char>) -> Seq<char> {
    "限流器 '"@ + name + "' 已存在"@
}

/// The message for a name that is not registered.
pub open spec fn spec_not_found(name: Seq<char>) -> Seq<char> {
    "限流器 '"@ + name + "' 不存在"@
}

fn quoted_message(name: &str, tail: &str) -> (r: String)
    ensures
        r@ == "限流器 '"@ + name@ + tail@,
{
    let m = crate::text::concat_str("限流器 '", name);
    crate::text::concat_str(m.as_str(), tail)
}

/// Whether no name occurs twice.
pub open spec fn distinct_names(names: Seq<Seq<char>>) -> bool {
    forall|i: int, j: int| 0 <= i < j < names.len() ==> names[i] != names[j]
}

/// A registry of custom limiters by name.
pub struct CustomLimiterRegistry<L: CustomLimiter = Box<dyn CustomLimiter>> {
    limiters: Vec<(String, L)>,
}

impl<L: CustomLimiter> View for CustomLimiterRegistry<L> {
    type V = Seq<Seq<char>>;

    /// The registered names, in the order they were registered.
    closed spec fn view(&self) -> Seq<Seq<char>> {
        Seq::new(self.limiters@.len(), |i: int| self.limiters@[i].0@)
    }
}

impl<L: CustomLimiter> CustomLimiterRegistry<L> {
    #[verifier::type_invariant]
    closed spec fn wf(self) -> bool {
        distinct_names(self@)
    }

    /// The registered limiters, in the order of their names in the view.
    pub closed spec fn limiters(&self) -> Seq<L> {
        Seq::new(self.limiters@.len(), |i: int| self.limiters@[i].1)
    }

    /// The limiter registered under `name`, where it is the `i`th.
    pub open spec fn registered_at(&self, i: int, name: Seq<char>) -> bool {
        0 <= i < self@.len() && self@[i] == name
    }

    /// An empty registry.
    pub fn new() -> (r: Self)
        ensures
            r@ == Seq::<Seq<char>>::empty(),
            r.limiters() == Seq::<L>::empty(),
    {
        let r = CustomLimiterRegistry { limiters: Vec::new() };
        assert(r@ =~= Seq::<Seq<char>>::empty());
        assert(r.limiters() =~= Seq::<L>::empty());
        r
    }

    /// There is one limiter for each registered name.
    pub proof fn lemma_limiters_match_names(&self)
        ensures
            self.limiters().len() == self@.len(),
    {
    }

    fn find(&self, name: &str) -> (r: Option<usize>)
        ensures
            match r {
                Some(i) => i < self@.len() && self@[i as int] == name@,
                None => !self@.contains(name@),
            },
    {
        let n = self.limiters.len();
        let mut i: usize = 0;
        while i < n
            invariant
                n == self.limiters@.len(),
                n == self@.len(),
                i <= n,
                forall|k: int| 0 <= k < i ==> self@[k] != name@,
            decreases n - i,
        {
            if crate::text::str_eq(self.limiters[i].0.as_str(), name) {
                return Some(i);
            }
            i = i + 1;
        }
        None
    }

    /// Registers a limiter under a name that is not taken yet.
    pub fn register(&mut self, name: String, limiter: L) -> (r: Result<
        (),
        LimiteronError,
    >)
        ensures
            old(self)@.contains(name@) ==> (r matches Err(LimiteronError::ConfigError(m)) && m@
                == spec_already_exists(name@)) && final(self)@ == old(self)@ && final(self).limiters()
                == old(self).limiters(),
            !old(self)@.contains(name@) ==> r is Ok && final(self)@ == old(self)@.push(name@)
                && final(self).limiters() == old(self).limiters().push(limiter),
    {
        proof {
            use_type_invariant(&*self);
        }
        match self.find(name.as_str()) {
            Some(_) => {
                Err(LimiteronError::ConfigError(quoted_message(name.as_str(), "' 已存在")))
            },
            None => {
                let ghost old_view = self@;
                let ghost old_lims = self.limiters@;
                let ghost nm = name@;
                let ghost old_ls = self.limiters();
                let ghost nl = limiter;
                let mut v: Vec<(String, L)> = Vec::new();
                std::mem::swap(&mut v, &mut self.limiters);
                assert(v@ == old_lims);
                v.push((name, limiter));
                assert(Seq::new(v@.len(), |i: int| v@[i].1) =~= old_ls.push(nl));
                assert(v@.len() == old_lims.len() + 1);
                assert(v@[old_lims.len() as int].0@ == nm);
                assert(forall|i: int| 0 <= i < old_lims.len() ==> v@[i] == old_lims[i]);
                let ghost new_view = Seq::new(v@.len(), |i: int| v@[i].0@);
                assert(new_view =~= old_view.push(name@));
                self.limiters = v;
                Ok(())
            },
        }
    }

    /// Whether a limiter is registered under the name.
    pub fn contains(&self, name: &str) -> (r: bool)
        ensures
            r == self@.contains(name@),
    {
        self.find(name).is_some()
    }

    /// The limiter registered under the name, if any.
    pub fn get(&self, name: &str) -> (r: Option<&L>)
        ensures
            r is Some <==> self@.contains(name@),
            r matches Some(l) ==> forall|i: int| #[trigger] self.registered_at(i, name@) ==> *l
                == self.limiters()[i],
    {
        proof {
            use_type_invariant(&*self);
        }
        match self.find(name) {
            None => None,
            Some(i) => {
                assert(self@[i as int] == name@);
                Some(&self.limiters[i].1)
            },
        }
    }

    /// Removes the limiter registered under the name.
    pub fn unregister(&mut self, name: &str) -> (r: Result<(), LimiteronError>)
        ensures
            !old(self)@.contains(name@) ==> (r matches Err(LimiteronError::ConfigError(m)) && m@
                == spec_not_found(name@)) && final(self)@ == old(self)@ && final(self).limiters()
                == old(self).limiters(),
            old(self)@.contains(name@) ==> r is Ok && exists|i: int|
                0 <= i < old(self)@.len() && old(self)@[i] == name@ && final(self)@ == old(
                    self,
                )@.remove(i) && final(self).limiters() == old(self).limiters().remove(i),
            !final(self)@.contains(name@),
    {
        proof {
            use_type_invariant(&*self);
        }
        match self.find(name) {
            None => Err(LimiteronError::ConfigError(quoted_message(name, "' 不存在"))),
            Some(i) => {
                let ghost old_view = self@;
                let ghost old_lims = self.limiters@;
                let ghost old_ls = self.limiters();
                let mut v: Vec<(String, L)> = Vec::new();
                std::mem::swap(&mut v, &mut self.limiters);
                assert(v@ == old_lims);
                v.remove(i);
                assert(Seq::new(v@.len(), |k: int| v@[k].1) =~= old_ls.remove(i as int));
                let ghost new_view = Seq::new(v@.len(), |k: int| v@[k].0@);
                assert(new_view =~= old_view.remove(i as int));
                assert(!new_view.contains(name@)) by {
                    if new_view.contains(name@) {
                        let k = choose|k: int| 0 <= k < new_view.len() && new_view[k] == name@;
                        if k < i {
                            assert(old_view[k] == old_view[i as int]);
                        } else {
                            assert(old_view[k + 1] == old_view[i as int]);
                        }
                    }
                }
                self.limiters = v;
                Ok(())
            },
        }
    }

    /// The registered names.
    pub fn list(&self) -> (r: Vec<String>)
        ensures
            r@.len() == self@.len(),
            forall|i: int| 0 <= i < r@.len() ==> #[trigger] r@[i]@ == self@[i],
    {
        let n = self.limiters.len();
        let mut out: Vec<String> = Vec::new();
        let mut i: usize = 0;
        while i < n
            invariant
                n == self.limiters@.len(),
                n == self@.len(),
                i <= n,
                out@.len() == i,
                forall|k: int| 0 <= k < i ==> #[trigger] out@[k]@ == self@[k],
            decreases n - i,
        {
            out.push(self.limiters[i].0.clone());
            i = i + 1;
        }
        out
    }

    /// How many limiters are registered.
    pub fn count(&self) -> (r: usize)
        ensures
            r == self@.len(),
    {
        self.limiters.len()
    }

    /// Removes every limiter.
    pub fn clear(&mut self)
        ensures
            final(self)@ == Seq::<Seq<char>>::empty(),
            final(self).limiters() == Seq::<L>::empty(),
    {
        self.limiters = Vec::new();
        assert(self@ =~= Seq::<Seq<char>>::empty());
        assert(self.limiters() =~= Seq::<L>::empty());
    }

    /// Asks the limiter registered under the name whether a request of the
    /// given cost may pass: the answer is one that limiter may give, and it
    /// alone changes; an unknown name is an error and changes nothing.
    pub fn allow(&mut self, name: &str, cost: u64) -> (r: Result<bool, LimiteronError>)
        ensures
            !old(self)@.contains(name@) ==> (r matches Err(LimiteronError::ConfigError(m)) && m@
                == spec_not_found(name@)) && final(self).limiters() == old(self).limiters(),
            forall|i: int| #[trigger] old(self).registered_at(i, name@) ==> old(self).limiters()[i].may_answer(cost, r),
            forall|j: int| 0 <= j < old(self)@.len() && old(self)@[j] != name@ ==> #[trigger] final(self).limiters()[j]
                == old(self).limiters()[j],
            final(self).limiters().len() == old(self).limiters().len(),
            final(self)@ == old(self)@,
    {
        proof {
            use_type_invariant(&*self);
        }
        match self.find(name) {
            None => {
                assert(forall|k: int| !(#[trigger] old(self).registered_at(k, name@)));
                Err(LimiteronError::ConfigError(quoted_message(name, "' 不存在")))
            },
            Some(i) => {
                let ghost old_view = self@;
                let ghost old_lims = self.limiters@;
                let mut v: Vec<(String, L)> = Vec::new();
                std::mem::swap(&mut v, &mut self.limiters);
                assert(v@ == old_lims);
                let (nm, mut limiter) = v.remove(i);
                let r = limiter.allow(cost);
                v.insert(i, (nm, limiter));
                let ghost new_view = Seq::new(v@.len(), |k: int| v@[k].0@);
                assert(new_view =~= old_view);
                assert forall|j: int| 0 <= j < old_lims.len() && j != i implies v@[j] == old_lims[j] by {}
                self.limiters = v;
                proof {
                    assert forall|k: int| #[trigger] old(self).registered_at(k, name@) implies k == i by {
                        assert(old_view[i as int] == name@);
                    }
                }
                r
            },
        }
    }

    /// The statistics of the limiter registered under the name.
    pub fn get_stats(&self, name: &str) -> (r: Result<LimiterStats, LimiteronError>)
        ensures
            !self@.contains(name@) <==> (r matches Err(LimiteronError::ConfigError(m)) && m@
                == spec_not_found(name@)),
            self@.contains(name@) <==> r is Ok,
            r matches Ok(st) ==> forall|i: int| #[trigger] self.registered_at(i, name@) ==> st
                == self.limiters()[i].spec_stats(),
    {
        proof {
            use_type_invariant(&*self);
        }
        match self.find(name) {
            None => Err(LimiteronError::ConfigError(quoted_message(name, "' 不存在"))),
            Some(i) => {
                assert(self@[i as int] == name@);
                Ok(self.limiters[i].1.stats())
            },
        }
    }

}

} // verus!
