//! Clocks: where the library reads the current time, and a clock that
//! tests can set.

use vstd::prelude::*;

use std::sync::Arc;
use std::time::Instant;

use crate::time::Duration;

verus! {

#[verifier::external_type_specification]
#[verifier::external_body]
pub struct ExInstant(std::time::Instant);

/// Reads the system clock: nanoseconds since the Unix epoch (the low 64
/// bits of `Duration::as_nanos`), or 0 when the clock is set before the
/// epoch. Nothing is promised of the value, which depends on the machine's
/// clock.
#[verifier::external_body]
pub(crate) fn now_unix_nanos() -> (r: u64) {
    std::time::SystemTime::now().duration_since(std::time::UNIX_EPOCH).map(|d| d.as_nanos() as u64).unwrap_or(0)
}

/// Reads the system clock: whole seconds since the Unix epoch, or 0 when
/// the clock is set before the epoch. Nothing is promised of the value.
#[verifier::external_body]
pub(crate) fn now_unix_secs() -> (r: u64) {
    std::time::SystemTime::now().duration_since(std::time::UNIX_EPOCH).map(|d| d.as_secs()).unwrap_or(0)
}

/// Reads the monotonic clock with `Instant::now`. Nothing is promised of
/// the value.
#[verifier::external_body]
fn instant_now() -> (r: Instant) {
    Instant::now()
}

/// Calls `Instant::checked_add` with the duration of `secs` seconds and
/// `nanos` nanoseconds. Whether the sum fits depends on the platform's
/// representation of instants, which is not stated.
#[verifier::external_body]
fn instant_checked_add(i: Instant, secs: u64, nanos: u32) -> (r: Option<Instant>)
    requires
        nanos < 1_000_000_000,
{
    i.checked_add(std::time::Duration::new(secs, nanos))
}

/// The system clock in milliseconds since the Unix epoch.
pub fn now_unix_millis() -> (r: i64)
    ensures
        r >= 0,
{
    let n = now_unix_nanos();
    (n / 1_000_000) as i64
}

/// A source of time.
pub trait Clock {
    /// The current instant.
    fn now(&self) -> Instant;

    /// Whole seconds since the Unix epoch.
    fn unix_timestamp(&self) -> u64;

    /// Nanoseconds since the Unix epoch.
    fn unix_timestamp_nanos(&self) -> u64;
}

/// The machine's clock.
#[derive(Debug, Clone, Copy)]
pub struct SystemClock;

impl Clock for SystemClock {
    fn now(&self) -> Instant {
        instant_now()
    }

    fn unix_timestamp(&self) -> u64 {
        now_unix_secs()
    }

    fn unix_timestamp_nanos(&self) -> u64 {
        now_unix_nanos()
    }
}

/// The machine's clock, shared.
pub fn system_clock() -> Arc<SystemClock> {
    Arc::new(SystemClock)
}

/// A clock that stands still until it is moved: an instant and a Unix time
/// in seconds.
#[derive(Debug, Clone, Copy)]
pub struct MockClock {
    current_time: Instant,
    unix_timestamp: u64,
}

impl MockClock {
    /// The Unix time of the clock, in seconds.
    pub closed spec fn spec_unix(&self) -> u64 {
        self.unix_timestamp
    }

    /// The instant of the clock.
    pub closed spec fn spec_instant(&self) -> Instant {
        self.current_time
    }

    /// A clock set to the machine's time.
    pub fn new() -> (r: Self) {
        MockClock { current_time: instant_now(), unix_timestamp: now_unix_secs() }
    }

    /// A clock set to the given instant and Unix time.
    pub fn with_instant(instant: Instant, unix_ts: u64) -> (r: Self)
        ensures
            r.spec_instant() == instant,
            r.spec_unix() == unix_ts,
    {
        MockClock { current_time: instant, unix_timestamp: unix_ts }
    }

    /// Moves the clock forward: the instant when it can be represented
    /// (else it stays), the Unix time by the whole seconds, saturating.
    pub fn advance(&mut self, duration: Duration)
        ensures
            final(self).spec_unix() == if old(self).spec_unix() + duration.spec_secs() > u64::MAX {
                u64::MAX
            } else {
                (old(self).spec_unix() + duration.spec_secs()) as u64
            },
    {
        let secs = duration.as_secs();
        let nanos = duration.subsec_nanos();
        match instant_checked_add(self.current_time, secs, nanos) {
            Some(t) => self.current_time = t,
            None => {},
        }
        self.unix_timestamp = self.unix_timestamp.saturating_add(secs);
    }

    /// Sets the clock.
    pub fn set_time(&mut self, instant: Instant, unix_ts: u64)
        ensures
            final(self).spec_instant() == instant,
            final(self).spec_unix() == unix_ts,
    {
        self.current_time = instant;
        self.unix_timestamp = unix_ts;
    }

    /// The clock, shared.
    pub fn as_arc(self) -> (r: Arc<MockClock>)
        ensures
            *r == self,
    {
        Arc::new(self)
    }
}

impl Clock for MockClock {
    fn now(&self) -> (r: Instant)
        ensures
            r == self.spec_instant(),
    {
        self.current_time
    }

    fn unix_timestamp(&self) -> (r: u64)
        ensures
            r == self.spec_unix(),
    {
        self.unix_timestamp
    }

    /// The Unix time in nanoseconds, from the seconds (wrapping at the top
    /// of 64 bits).
    fn unix_timestamp_nanos(&self) -> (r: u64)
        ensures
            r == (self.spec_unix() * 1_000_000_000) % 0x1_0000_0000_0000_0000,
    {
        self.unix_timestamp.wrapping_mul(1_000_000_000)
    }
}

impl Default for MockClock {
    fn default() -> (r: Self) {
        MockClock::new()
    }
}

} // verus!
