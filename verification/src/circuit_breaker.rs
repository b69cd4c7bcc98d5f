//! A circuit breaker with three states.
//!
//! Closed: calls pass, and consecutive failures are counted; reaching the
//! failure threshold opens the breaker. Open: calls are rejected until the
//! timeout since the last recorded failure has elapsed, after which the next
//! call moves the breaker to half-open. Half-open: a bounded number of probe
//! calls pass; enough successes close the breaker, any failure opens it.

use vstd::prelude::*;

use crate::clock::now_unix_nanos;
use crate::error::{CircuitState, LimiteronError};
use crate::time::Duration;

verus! {

/// Default failure threshold.
pub const DEFAULT_CIRCUIT_BREAKER_FAILURE_THRESHOLD: u64 = 5;

/// Default number of half-open successes that close the breaker.
pub const DEFAULT_CIRCUIT_BREAKER_SUCCESS_THRESHOLD: u64 = 3;

/// Default time the breaker stays open, in seconds.
pub const DEFAULT_CIRCUIT_BREAKER_TIMEOUT_SECS: u64 = 30;

/// Default number of calls admitted while half-open.
pub const DEFAULT_CIRCUIT_BREAKER_HALF_OPEN_MAX_CALLS: u64 = 3;

/// Configuration of a circuit breaker.
#[derive(Debug, Clone, Copy)]
pub struct CircuitBreakerConfig {
    /// Consecutive failures (while closed) that open the breaker.
    pub failure_threshold: u64,
    /// Successes (while half-open) that close the breaker.
    pub success_threshold: u64,
    /// How long the breaker stays open after the last failure.
    pub timeout: Duration,
    /// Calls admitted while half-open.
    pub half_open_max_calls: u64,
}

impl Default for CircuitBreakerConfig {
    fn default() -> (r: Self)
        ensures
            r.failure_threshold == 5,
            r.success_threshold == 3,
            r.timeout@ == 30 * 1_000_000_000,
            r.half_open_max_calls == 3,
    {
        CircuitBreakerConfig {
            failure_threshold: DEFAULT_CIRCUIT_BREAKER_FAILURE_THRESHOLD,
            success_threshold: DEFAULT_CIRCUIT_BREAKER_SUCCESS_THRESHOLD,
            timeout: Duration::from_secs(DEFAULT_CIRCUIT_BREAKER_TIMEOUT_SECS),
            half_open_max_calls: DEFAULT_CIRCUIT_BREAKER_HALF_OPEN_MAX_CALLS,
        }
    }
}

impl CircuitBreakerConfig {
    /// A configuration with the default half-open call limit.
    pub fn new(failure_threshold: u64, success_threshold: u64, timeout: Duration) -> (r: Self)
        ensures
            r.failure_threshold == failure_threshold,
            r.success_threshold == success_threshold,
            r.timeout == timeout,
            r.half_open_max_calls == DEFAULT_CIRCUIT_BREAKER_HALF_OPEN_MAX_CALLS,
    {
        CircuitBreakerConfig {
            failure_threshold,
            success_threshold,
            timeout,
            half_open_max_calls: DEFAULT_CIRCUIT_BREAKER_HALF_OPEN_MAX_CALLS,
        }
    }

    /// Sets the half-open call limit.
    pub fn half_open_max_calls(self, max_calls: u64) -> (r: Self)
        ensures
            r == (CircuitBreakerConfig { half_open_max_calls: max_calls, ..self }),
    {
        CircuitBreakerConfig { half_open_max_calls: max_calls, ..self }
    }
}

/// Builder of circuit breakers.
#[derive(Debug, Clone, Copy)]
pub struct CircuitBreakerBuilder {
    config: CircuitBreakerConfig,
}

impl CircuitBreakerBuilder {
    /// The configuration the builder holds.
    pub closed spec fn spec_config(self) -> CircuitBreakerConfig {
        self.config
    }

    /// A builder holding the default configuration.
    pub fn new() -> (r: Self)
        ensures
            r.spec_config().failure_threshold == 5,
            r.spec_config().success_threshold == 3,
            r.spec_config().timeout@ == 30 * 1_000_000_000,
            r.spec_config().half_open_max_calls == 3,
    {
        CircuitBreakerBuilder { config: CircuitBreakerConfig::default() }
    }

    /// Sets the failure threshold.
    pub fn failure_threshold(self, failure_threshold: u64) -> (r: Self)
        ensures
            r.spec_config() == (CircuitBreakerConfig { failure_threshold, ..self.spec_config() }),
    {
        CircuitBreakerBuilder { config: CircuitBreakerConfig { failure_threshold, ..self.config } }
    }

    /// Sets the success threshold.
    pub fn success_threshold(self, success_threshold: u64) -> (r: Self)
        ensures
            r.spec_config() == (CircuitBreakerConfig { success_threshold, ..self.spec_config() }),
    {
        CircuitBreakerBuilder { config: CircuitBreakerConfig { success_threshold, ..self.config } }
    }

    /// Sets the open timeout.
    pub fn timeout(self, timeout: Duration) -> (r: Self)
        ensures
            r.spec_config() == (CircuitBreakerConfig { timeout, ..self.spec_config() }),
    {
        CircuitBreakerBuilder { config: CircuitBreakerConfig { timeout, ..self.config } }
    }

    /// Sets the half-open call limit.
    pub fn half_open_max_calls(self, max_calls: u64) -> (r: Self)
        ensures
            r.spec_config() == (CircuitBreakerConfig {
                half_open_max_calls: max_calls,
                ..self.spec_config()
            }),
    {
        CircuitBreakerBuilder {
            config: CircuitBreakerConfig { half_open_max_calls: max_calls, ..self.config },
        }
    }

    /// The configuration the builder holds.
    pub fn config(&self) -> (r: CircuitBreakerConfig)
        ensures
            r == self.spec_config(),
    {
        self.config
    }

    /// Builds a closed circuit breaker with the configuration.
    pub fn build(&self) -> (r: CircuitBreaker)
        ensures
            r.spec_config() == self.spec_config(),
            r@.state == CircuitState::Closed,
            r@.failure_count == 0,
            r@.success_count == 0,
            r@.total_calls == 0,
            r@.last_failure_time is None,
            r@.last_state_change is Some,
            r@.half_open_calls == 0,
    {
        CircuitBreaker::with_dependencies(self.config)
    }
}

/// The observable state of a circuit breaker. Times are nanoseconds since the
/// Unix epoch.
pub struct BreakerState {
    pub state: CircuitState,
    pub failure_count: u64,
    pub success_count: u64,
    pub total_calls: u64,
    pub last_failure_time: Option<u64>,
    pub last_state_change: Option<u64>,
    pub half_open_calls: u64,
}

/// A counter increment that wraps around at the top of the range.
pub open spec fn inc(x: u64) -> u64 {
    if x == u64::MAX {
        0
    } else {
        (x + 1) as u64
    }
}

/// Time elapsed from `then` to `now`, zero when the clock went backwards.
pub open spec fn elapsed(now: u64, then: u64) -> nat {
    if now >= then {
        (now - then) as nat
    } else {
        0
    }
}

/// A freshly created or reset breaker: closed, every counter zero.
pub open spec fn fresh(now: u64) -> BreakerState {
    BreakerState {
        state: CircuitState::Closed,
        failure_count: 0,
        success_count: 0,
        total_calls: 0,
        last_failure_time: None,
        last_state_change: Some(now),
        half_open_calls: 0,
    }
}

/// A state change. Entering open clears the success and half-open counts;
/// entering half-open clears the successes and counts the probe call that
/// triggered it; entering closed clears every count. Changing to the state the
/// breaker is already in changes nothing.
pub open spec fn spec_transition(s: BreakerState, to: CircuitState, now: u64) -> BreakerState {
    if s.state == to {
        s
    } else {
        match to {
            CircuitState::Open => BreakerState {
                state: CircuitState::Open,
                last_state_change: Some(now),
                success_count: 0,
                half_open_calls: 0,
                ..s
            },
            CircuitState::HalfOpen => BreakerState {
                state: CircuitState::HalfOpen,
                last_state_change: Some(now),
                success_count: 0,
                half_open_calls: 1,
                ..s
            },
            CircuitState::Closed => BreakerState {
                state: CircuitState::Closed,
                last_state_change: Some(now),
                failure_count: 0,
                success_count: 0,
                half_open_calls: 0,
                ..s
            },
        }
    }
}

/// Admission of a call: counts it, then decides. Open admits once the
/// timeout since the last failure has elapsed (moving to half-open), and
/// also admits when no failure time is recorded. Half-open admits while
/// fewer than the maximum probe calls were made. Closed always admits.
pub open spec fn spec_admit(s: BreakerState, cfg: CircuitBreakerConfig, now: u64) -> (
    BreakerState,
    bool,
) {
    let s1 = BreakerState { total_calls: inc(s.total_calls), ..s };
    match s.state {
        CircuitState::Open => match s.last_failure_time {
            Some(t) => if elapsed(now, t) >= cfg.timeout@ {
                (spec_transition(s1, CircuitState::HalfOpen, now), true)
            } else {
                (s1, false)
            },
            None => (s1, true),
        },
        CircuitState::HalfOpen => if s.half_open_calls >= cfg.half_open_max_calls {
            (s1, false)
        } else {
            (BreakerState { half_open_calls: (s.half_open_calls + 1) as u64, ..s1 }, true)
        },
        CircuitState::Closed => (s1, true),
    }
}

/// A successful call: closed clears the failure count and counts the
/// success; half-open counts the success and closes at the success threshold.
pub open spec fn spec_on_success(s: BreakerState, cfg: CircuitBreakerConfig, now: u64) -> BreakerState {
    match s.state {
        CircuitState::Closed => BreakerState {
            failure_count: 0,
            success_count: inc(s.success_count),
            ..s
        },
        CircuitState::HalfOpen => {
            let c = inc(s.success_count);
            let s1 = BreakerState { success_count: c, ..s };
            if c >= cfg.success_threshold {
                spec_transition(s1, CircuitState::Closed, now)
            } else {
                s1
            }
        },
        CircuitState::Open => s,
    }
}

/// A failed call: closed counts the failure, records its time and opens at
/// the failure threshold; half-open records the failure's time and opens at
/// once, so that the timeout runs again from the re-opening.
pub open spec fn spec_on_failure(s: BreakerState, cfg: CircuitBreakerConfig, now: u64) -> BreakerState {
    match s.state {
        CircuitState::Closed => {
            let f = inc(s.failure_count);
            let s1 = BreakerState { failure_count: f, last_failure_time: Some(now), ..s };
            if f >= cfg.failure_threshold {
                spec_transition(s1, CircuitState::Open, now)
            } else {
                s1
            }
        },
        CircuitState::HalfOpen => spec_transition(
            BreakerState { last_failure_time: Some(now), ..s },
            CircuitState::Open,
            now,
        ),
        CircuitState::Open => s,
    }
}

/// The message of the error that a rejected call gets.
pub open spec fn rejection_message(state: CircuitState) -> Seq<char> {
    if state == CircuitState::Open {
        "熔断器打开，请求被拒绝"@
    } else {
        "半开状态调用次数已达上限"@
    }
}

/// Statistics of a circuit breaker. Times are nanoseconds since the Unix epoch.
#[derive(Debug, Clone)]
pub struct CircuitBreakerStats {
    pub state: CircuitState,
    pub failure_count: u64,
    pub success_count: u64,
    pub total_calls: u64,
    pub last_failure_time: Option<u64>,
    pub last_state_change: Option<u64>,
}

/// A circuit breaker.
pub struct CircuitBreaker {
    state: CircuitState,
    failure_count: u64,
    success_count: u64,
    total_calls: u64,
    last_failure_time: Option<u64>,
    last_state_change: Option<u64>,
    half_open_calls: u64,
    config: CircuitBreakerConfig,
}

impl View for CircuitBreaker {
    type V = BreakerState;

    closed spec fn view(&self) -> BreakerState {
        BreakerState {
            state: self.state,
            failure_count: self.failure_count,
            success_count: self.success_count,
            total_calls: self.total_calls,
            last_failure_time: self.last_failure_time,
            last_state_change: self.last_state_change,
            half_open_calls: self.half_open_calls,
        }
    }
}

fn inc_exec(x: u64) -> (r: u64)
    ensures
        r == inc(x),
{
    if x == u64::MAX {
        0
    } else {
        x + 1
    }
}

impl CircuitBreaker {
    /// The configuration.
    pub closed spec fn spec_config(&self) -> CircuitBreakerConfig {
        self.config
    }

    /// A closed breaker created at time `now`.
    pub fn with_dependencies_at(config: CircuitBreakerConfig, now: u64) -> (r: Self)
        ensures
            r@ == fresh(now),
            r.spec_config() == config,
    {
        CircuitBreaker {
            state: CircuitState::Closed,
            failure_count: 0,
            success_count: 0,
            total_calls: 0,
            last_failure_time: None,
            last_state_change: Some(now),
            half_open_calls: 0,
            config,
        }
    }

    /// A closed breaker with every counter zero, created now.
    pub fn with_dependencies(config: CircuitBreakerConfig) -> (r: Self)
        ensures
            exists|now: u64| r@ == fresh(now),
            r.spec_config() == config,
    {
        let now = now_unix_nanos();
        Self::with_dependencies_at(config, now)
    }

    /// A builder with the default configuration.
    pub fn builder() -> (r: CircuitBreakerBuilder)
        ensures
            r.spec_config().failure_threshold == 5,
            r.spec_config().success_threshold == 3,
            r.spec_config().timeout@ == 30 * 1_000_000_000,
            r.spec_config().half_open_max_calls == 3,
    {
        CircuitBreakerBuilder::new()
    }

    /// Same as `with_dependencies`.
    pub fn new(config: CircuitBreakerConfig) -> (r: Self)
        ensures
            exists|now: u64| r@ == fresh(now),
            r.spec_config() == config,
    {
        Self::with_dependencies(config)
    }

    /// A breaker with the default configuration.
    pub fn default() -> (r: Self)
        ensures
            exists|now: u64| r@ == fresh(now),
            r.spec_config().failure_threshold == 5,
            r.spec_config().success_threshold == 3,
            r.spec_config().timeout@ == 30 * 1_000_000_000,
            r.spec_config().half_open_max_calls == 3,
    {
        Self::with_dependencies(CircuitBreakerConfig::default())
    }

    fn transition_to(&mut self, new_state: CircuitState, now: u64)
        ensures
            final(self)@ == spec_transition(old(self)@, new_state, now),
            final(self).spec_config() == old(self).spec_config(),
    {
        if self.state == new_state {
            return ;
        }
        self.state = new_state;
        self.last_state_change = Some(now);
        match new_state {
            CircuitState::Open => {
                self.success_count = 0;
                self.half_open_calls = 0;
            },
            CircuitState::HalfOpen => {
                self.success_count = 0;
                self.half_open_calls = 1;
            },
            CircuitState::Closed => {
                self.failure_count = 0;
                self.success_count = 0;
                self.half_open_calls = 0;
            },
        }
    }

    /// Admits or rejects a call at time `now` (nanoseconds since the epoch).
    pub fn try_acquire_at(&mut self, now: u64) -> (r: Result<(), LimiteronError>)
        ensures
            final(self)@ == spec_admit(old(self)@, old(self).spec_config(), now).0,
            final(self).spec_config() == old(self).spec_config(),
            r is Ok == spec_admit(old(self)@, old(self).spec_config(), now).1,
            r matches Err(e) ==> (e matches LimiteronError::LimitError(m) && m@
                == rejection_message(old(self)@.state)),
    {
        self.total_calls = inc_exec(self.total_calls);
        match self.state {
            CircuitState::Open => {
                match self.last_failure_time {
                    Some(t) => {
                        let waited: u64 = if now >= t {
                            now - t
                        } else {
                            0
                        };
                        if (waited as u128) >= self.config.timeout.as_nanos() {
                            self.transition_to(CircuitState::HalfOpen, now);
                        } else {
                            return Err(
                                LimiteronError::LimitError(
                                    String::from_str("熔断器打开，请求被拒绝"),
                                ),
                            );
                        }
                    },
                    None => {},
                }
            },
            CircuitState::HalfOpen => {
                if self.half_open_calls >= self.config.half_open_max_calls {
                    return Err(
                        LimiteronError::LimitError(String::from_str("半开状态调用次数已达上限")),
                    );
                }
                self.half_open_calls = self.half_open_calls + 1;
            },
            CircuitState::Closed => {},
        }
        Ok(())
    }

    /// Records a successful call at time `now`.
    pub fn on_success_at(&mut self, now: u64)
        ensures
            final(self)@ == spec_on_success(old(self)@, old(self).spec_config(), now),
            final(self).spec_config() == old(self).spec_config(),
    {
        match self.state {
            CircuitState::Closed => {
                self.failure_count = 0;
                self.success_count = inc_exec(self.success_count);
            },
            CircuitState::HalfOpen => {
                let c = inc_exec(self.success_count);
                self.success_count = c;
                if c >= self.config.success_threshold {
                    self.transition_to(CircuitState::Closed, now);
                }
            },
            CircuitState::Open => {},
        }
    }

    /// Records a failed call at time `now`.
    pub fn on_failure_at(&mut self, now: u64)
        ensures
            final(self)@ == spec_on_failure(old(self)@, old(self).spec_config(), now),
            final(self).spec_config() == old(self).spec_config(),
    {
        match self.state {
            CircuitState::Closed => {
                let f = inc_exec(self.failure_count);
                self.failure_count = f;
                self.last_failure_time = Some(now);
                if f >= self.config.failure_threshold {
                    self.transition_to(CircuitState::Open, now);
                }
            },
            CircuitState::HalfOpen => {
                self.last_failure_time = Some(now);
                self.transition_to(CircuitState::Open, now);
            },
            CircuitState::Open => {},
        }
    }

    /// Admits or rejects a call now.
    pub fn try_acquire(&mut self) -> (r: Result<(), LimiteronError>)
        ensures
            exists|now: u64|
                final(self)@ == spec_admit(old(self)@, old(self).spec_config(), now).0 && r is Ok
                    == spec_admit(old(self)@, old(self).spec_config(), now).1,
            final(self).spec_config() == old(self).spec_config(),
            r matches Err(e) ==> (e matches LimiteronError::LimitError(m) && m@
                == rejection_message(old(self)@.state)),
    {
        let now = now_unix_nanos();
        self.try_acquire_at(now)
    }

    /// Records a successful call now.
    pub fn on_success(&mut self)
        ensures
            exists|now: u64|
                final(self)@ == spec_on_success(old(self)@, old(self).spec_config(), now),
            final(self).spec_config() == old(self).spec_config(),
    {
        let now = now_unix_nanos();
        self.on_success_at(now)
    }

    /// Records a failed call now.
    pub fn on_failure(&mut self)
        ensures
            exists|now: u64|
                final(self)@ == spec_on_failure(old(self)@, old(self).spec_config(), now),
            final(self).spec_config() == old(self).spec_config(),
    {
        let now = now_unix_nanos();
        self.on_failure_at(now)
    }

    /// Runs an operation under the breaker at time `now`: a rejected call
    /// does not run it; otherwise its outcome is recorded.
    pub fn execute_at<T, F: FnOnce() -> Result<T, LimiteronError>>(&mut self, now: u64, operation: F) -> (r: Result<T, LimiteronError>)
        requires
            operation.requires(()),
        ensures
            final(self).spec_config() == old(self).spec_config(),
            ({
                let (s1, admitted) = spec_admit(old(self)@, old(self).spec_config(), now);
                if !admitted {
                    &&& final(self)@ == s1
                    &&& r matches Err(LimiteronError::LimitError(m))
                    &&& m@ == rejection_message(old(self)@.state)
                } else {
                    operation.ensures((), r) && (r is Ok ==> final(self)@ == spec_on_success(
                        s1,
                        old(self).spec_config(),
                        now,
                    )) && (r is Err ==> final(self)@ == spec_on_failure(
                        s1,
                        old(self).spec_config(),
                        now,
                    ))
                }
            }),
    {
        match self.try_acquire_at(now) {
            Err(e) => Err(e),
            Ok(()) => {
                let result = operation();
                match result {
                    Ok(v) => {
                        self.on_success_at(now);
                        Ok(v)
                    },
                    Err(e) => {
                        self.on_failure_at(now);
                        Err(e)
                    },
                }
            },
        }
    }

    /// Whether the breaker is open.
    pub fn is_open(&self) -> (r: bool)
        ensures
            r == (self@.state == CircuitState::Open),
    {
        self.state == CircuitState::Open
    }

    /// Whether the breaker is half-open.
    pub fn is_half_open(&self) -> (r: bool)
        ensures
            r == (self@.state == CircuitState::HalfOpen),
    {
        self.state == CircuitState::HalfOpen
    }

    /// Whether the breaker is closed.
    pub fn is_closed(&self) -> (r: bool)
        ensures
            r == (self@.state == CircuitState::Closed),
    {
        self.state == CircuitState::Closed
    }

    /// The current state.
    pub fn get_state(&self) -> (r: CircuitState)
        ensures
            r == self@.state,
    {
        self.state
    }

    /// Resets the breaker at time `now`: closed, every counter zero.
    pub fn reset_at(&mut self, now: u64)
        ensures
            final(self)@ == fresh(now),
            final(self).spec_config() == old(self).spec_config(),
    {
        self.state = CircuitState::Closed;
        self.failure_count = 0;
        self.success_count = 0;
        self.total_calls = 0;
        self.last_failure_time = None;
        self.last_state_change = Some(now);
        self.half_open_calls = 0;
    }

    /// Resets the breaker now: closed, every counter zero.
    pub fn reset(&mut self)
        ensures
            exists|now: u64| final(self)@ == fresh(now),
            final(self).spec_config() == old(self).spec_config(),
    {
        let now = now_unix_nanos();
        self.reset_at(now)
    }

    /// Statistics: the state, the counters and the recorded times.
    pub fn get_stats(&self) -> (r: CircuitBreakerStats)
        ensures
            r.state == self@.state,
            r.failure_count == self@.failure_count,
            r.success_count == self@.success_count,
            r.total_calls == self@.total_calls,
            r.last_failure_time == self@.last_failure_time,
            r.last_state_change == self@.last_state_change,
    {
        CircuitBreakerStats {
            state: self.state,
            failure_count: self.failure_count,
            success_count: self.success_count,
            total_calls: self.total_calls,
            last_failure_time: self.last_failure_time,
            last_state_change: self.last_state_change,
        }
    }

    /// The configuration.
    pub fn config(&self) -> (r: &CircuitBreakerConfig)
        ensures
            *r == self.spec_config(),
    {
        &self.config
    }
}


/// The state after `n` consecutive failures recorded at time `now`.
pub open spec fn failures(s: BreakerState, cfg: CircuitBreakerConfig, now: u64, n: nat) -> BreakerState
    decreases n,
{
    if n == 0 {
        s
    } else {
        spec_on_failure(failures(s, cfg, now, (n - 1) as nat), cfg, now)
    }
}

/// The state after `n` consecutive successes recorded at time `now`.
pub open spec fn successes(s: BreakerState, cfg: CircuitBreakerConfig, now: u64, n: nat) -> BreakerState
    decreases n,
{
    if n == 0 {
        s
    } else {
        spec_on_success(successes(s, cfg, now, (n - 1) as nat), cfg, now)
    }
}

/// What every reachable breaker state satisfies: while closed, the failure
/// count stays below a nonzero threshold; while half-open, the probe calls
/// do not exceed the larger of the limit and one.
pub open spec fn breaker_inv(s: BreakerState, cfg: CircuitBreakerConfig) -> bool {
    &&& (s.state == CircuitState::Closed && cfg.failure_threshold > 0) ==> s.failure_count
        < cfg.failure_threshold
    &&& s.state == CircuitState::HalfOpen ==> (s.half_open_calls <= cfg.half_open_max_calls
        || s.half_open_calls == 1)
}

proof fn lemma_failures_closed(cfg: CircuitBreakerConfig, t0: u64, now: u64, k: nat)
    requires
        k < cfg.failure_threshold,
    ensures
        failures(fresh(t0), cfg, now, k).state == CircuitState::Closed,
        failures(fresh(t0), cfg, now, k).failure_count == k,
    decreases k,
{
    if k > 0 {
        lemma_failures_closed(cfg, t0, now, (k - 1) as nat);
    }
}

/// A new breaker stays closed through fewer consecutive failures than the
/// failure threshold, and opens at the threshold.
pub proof fn law_consecutive_failures_open(cfg: CircuitBreakerConfig, t0: u64, now: u64, k: nat)
    requires
        k <= cfg.failure_threshold,
    ensures
        k < cfg.failure_threshold ==> failures(fresh(t0), cfg, now, k).state == CircuitState::Closed,
        k == cfg.failure_threshold && k > 0 ==> failures(fresh(t0), cfg, now, k).state
            == CircuitState::Open,
{
    if k < cfg.failure_threshold {
        lemma_failures_closed(cfg, t0, now, k);
    } else if k > 0 {
        lemma_failures_closed(cfg, t0, now, (k - 1) as nat);
    }
}

proof fn lemma_successes_half_open(s: BreakerState, cfg: CircuitBreakerConfig, now: u64, k: nat)
    requires
        s.state == CircuitState::HalfOpen,
        s.success_count == 0,
        k < cfg.success_threshold,
    ensures
        successes(s, cfg, now, k).state == CircuitState::HalfOpen,
        successes(s, cfg, now, k).success_count == k,
    decreases k,
{
    if k > 0 {
        lemma_successes_half_open(s, cfg, now, (k - 1) as nat);
    }
}

/// A half-open breaker whose success count is zero (as on entering
/// half-open) stays half-open through fewer successes than the success
/// threshold, and closes at the threshold with every counter cleared.
pub proof fn law_half_open_successes_close(s: BreakerState, cfg: CircuitBreakerConfig, now: u64, k: nat)
    requires
        s.state == CircuitState::HalfOpen,
        s.success_count == 0,
        k <= cfg.success_threshold,
    ensures
        k < cfg.success_threshold ==> successes(s, cfg, now, k).state == CircuitState::HalfOpen,
        k == cfg.success_threshold && k > 0 ==> ({
            let e = successes(s, cfg, now, k);
            e.state == CircuitState::Closed && e.failure_count == 0 && e.success_count == 0
                && e.half_open_calls == 0
        }),
{
    if k < cfg.success_threshold {
        lemma_successes_half_open(s, cfg, now, k);
    } else if k > 0 {
        lemma_successes_half_open(s, cfg, now, (k - 1) as nat);
    }
}

/// Any failure while half-open opens the breaker again, and the timeout
/// runs anew from that failure: calls are rejected until it has elapsed.
pub proof fn law_half_open_failure_opens(s: BreakerState, cfg: CircuitBreakerConfig, now: u64, later: u64)
    requires
        s.state == CircuitState::HalfOpen,
    ensures
        spec_on_failure(s, cfg, now).state == CircuitState::Open,
        spec_on_failure(s, cfg, now).last_failure_time == Some(now),
        elapsed(later, now) < cfg.timeout@ ==> !spec_admit(spec_on_failure(s, cfg, now), cfg, later).1,
{
}

/// An open breaker rejects calls until the timeout since the last failure
/// has elapsed, changing nothing but the call count; after it, the next call
/// is admitted as the first half-open probe.
pub proof fn law_open_timeout(s: BreakerState, cfg: CircuitBreakerConfig, now: u64, t: u64)
    requires
        s.state == CircuitState::Open,
        s.last_failure_time == Some(t),
    ensures
        elapsed(now, t) < cfg.timeout@ ==> !spec_admit(s, cfg, now).1 && spec_admit(s, cfg, now).0
            == (BreakerState { total_calls: inc(s.total_calls), ..s }),
        elapsed(now, t) >= cfg.timeout@ ==> spec_admit(s, cfg, now).1 && spec_admit(
            s,
            cfg,
            now,
        ).0.state == CircuitState::HalfOpen && spec_admit(s, cfg, now).0.half_open_calls == 1,
{
}

/// Every admission attempt, admitted or not, counts one call.
pub proof fn law_admission_counts_call(s: BreakerState, cfg: CircuitBreakerConfig, now: u64)
    ensures
        spec_admit(s, cfg, now).0.total_calls == inc(s.total_calls),
{
}

/// The breaker invariant holds of a fresh breaker and is kept by admission,
/// success and failure.
pub proof fn law_breaker_inv_kept(s: BreakerState, cfg: CircuitBreakerConfig, now: u64, t0: u64)
    requires
        breaker_inv(s, cfg),
    ensures
        breaker_inv(fresh(t0), cfg),
        breaker_inv(spec_admit(s, cfg, now).0, cfg),
        breaker_inv(spec_on_success(s, cfg, now), cfg),
        breaker_inv(spec_on_failure(s, cfg, now), cfg),
{
}


/// The state after recording the outcomes `events` in order: each is a
/// success (`true`) or a failure (`false`), with its time.
pub open spec fn spec_outcomes(s: BreakerState, cfg: CircuitBreakerConfig, events: Seq<(bool, u64)>) -> BreakerState
    decreases events.len(),
{
    if events.len() == 0 {
        s
    } else {
        let s1 = spec_outcomes(s, cfg, events.drop_last());
        if events.last().0 {
            spec_on_success(s1, cfg, events.last().1)
        } else {
            spec_on_failure(s1, cfg, events.last().1)
        }
    }
}

/// How many failures end the run of outcomes, after its last success.
pub open spec fn trailing_failures(events: Seq<(bool, u64)>) -> nat
    decreases events.len(),
{
    if events.len() == 0 || events.last().0 {
        0
    } else {
        1 + trailing_failures(events.drop_last())
    }
}

/// The outcomes from the `i`th on are `k` failures in a row.
pub open spec fn failure_streak_at(events: Seq<(bool, u64)>, i: int, k: nat) -> bool {
    0 <= i && i + k <= events.len() && forall|j: int| i <= j < i + k ==> !(#[trigger] events[j]).0
}

/// The outcomes hold `k` failures in a row, with no success between them.
pub open spec fn has_failure_streak(events: Seq<(bool, u64)>, k: nat) -> bool {
    exists|i: int| #[trigger] failure_streak_at(events, i, k)
}

proof fn lemma_trailing_streak(events: Seq<(bool, u64)>, k: nat)
    requires
        k <= trailing_failures(events),
    ensures
        forall|j: int| events.len() - k <= j < events.len() ==> !(#[trigger] events[j]).0,
        k <= events.len(),
    decreases events.len(),
{
    if k > 0 {
        let d = events.drop_last();
        lemma_trailing_streak(d, (k - 1) as nat);
        assert forall|j: int| events.len() - k <= j < events.len() implies !(#[trigger] events[j]).0 by {
            if j < events.len() - 1 {
                assert(events[j] == d[j]);
            }
        }
    }
}

/// A closed breaker opens only after `failure_threshold` failures with no
/// success between them: starting closed with no failure counted, as long
/// as the outcomes hold no such streak the breaker stays closed and counts
/// exactly the failures since the last success, because every success
/// while closed clears the count.
pub proof fn law_only_consecutive_failures_open(
    s: BreakerState,
    cfg: CircuitBreakerConfig,
    events: Seq<(bool, u64)>,
)
    requires
        s.state == CircuitState::Closed,
        s.failure_count == 0,
        !has_failure_streak(events, cfg.failure_threshold as nat),
    ensures
        spec_outcomes(s, cfg, events).state == CircuitState::Closed,
        spec_outcomes(s, cfg, events).failure_count == trailing_failures(events),
    decreases events.len(),
{
    if events.len() > 0 {
        let d = events.drop_last();
        if has_failure_streak(d, cfg.failure_threshold as nat) {
            let i = choose|i: int| #[trigger] failure_streak_at(d, i, cfg.failure_threshold as nat);
            assert forall|j: int| i <= j < i + cfg.failure_threshold implies !(#[trigger] events[j]).0 by {
                assert(events[j] == d[j]);
            }
            assert(failure_streak_at(events, i, cfg.failure_threshold as nat));
            assert(false);
        }
        law_only_consecutive_failures_open(s, cfg, d);
        if !events.last().0 {
            let f = trailing_failures(events);
            if f >= cfg.failure_threshold {
                lemma_trailing_streak(events, cfg.failure_threshold as nat);
                let i = events.len() - cfg.failure_threshold;
                assert forall|j: int| i <= j < i + cfg.failure_threshold implies !(#[trigger] events[j]).0 by {}
                assert(failure_streak_at(events, i, cfg.failure_threshold as nat));
                assert(false);
            }
        }
    } else {
        assert(trailing_failures(events) == 0);
    }
}

} // verus!
