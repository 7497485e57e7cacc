//! Reading the monotonic clock.
//!
//! The library computes with nanoseconds on a clock that starts when the value
//! that owns it was made. What such a clock shows is up to the machine, so all
//! decisions are made by functions that take the reading as an argument.

use std::time::{Duration, Instant};
use vstd::prelude::*;

verus! {

#[verifier::external_type_specification]
#[verifier::external_body]
pub struct ExInstant(Instant);

/// How many whole nanoseconds a duration lasts.
pub uninterp spec fn duration_nanos(duration: Duration) -> u128;

/// `Instant::now` reads the clock. Nothing is claimed of what it shows.
pub assume_specification[ Instant::now ]() -> Instant;

/// `Instant::elapsed` reads the clock too. Nothing is claimed of what it shows.
pub assume_specification[ Instant::elapsed ](instant: &Instant) -> Duration;

/// `Duration::as_nanos` gives the number of nanoseconds in a duration; the name
/// `duration_nanos` stands for that number.
pub assume_specification[ Duration::as_nanos ](duration: &Duration) -> (nanos: u128)
    ensures
        nanos == duration_nanos(*duration),
;

/// How long ago `stamp` was, on a clock that shows `now`.
pub open spec fn age(now: u64, stamp: u64) -> int {
    if now >= stamp {
        now - stamp
    } else {
        0
    }
}

/// How long ago `stamp` was, on a clock that shows `now`.
pub fn nanos_since(now: u64, stamp: u64) -> (nanos: u64)
    ensures
        nanos == age(now, stamp),
{
    if now >= stamp {
        now - stamp
    } else {
        0
    }
}

/// A number of nanoseconds, no more than fit into 64 bits.
pub open spec fn clamped_nanos(nanos: u128) -> u64 {
    if nanos <= u64::MAX {
        nanos as u64
    } else {
        u64::MAX
    }
}

/// The length of a duration in nanoseconds, as far as it fits into 64 bits.
pub fn nanos_of(duration: Duration) -> (nanos: u64)
    ensures
        nanos == clamped_nanos(duration_nanos(duration)),
{
    let nanos: u128 = duration.as_nanos();
    if nanos <= u64::MAX as u128 {
        nanos as u64
    } else {
        u64::MAX
    }
}

/// A clock that starts at zero.
pub struct Clock {
    start: Instant,
}

impl Clock {
    /// The moment at which the clock shows zero.
    pub closed spec fn started(&self) -> Instant {
        self.start
    }

    /// The number is one that reading the clock gives.
    pub open spec fn shows(&self, nanos: u64) -> bool {
        call_ensures(Clock::now, (self,), nanos)
    }

    /// A clock that starts at what `Instant::now` gives.
    pub fn start() -> (clock: Clock)
        ensures
            call_ensures(Instant::now, (), clock.started()),
    {
        Clock { start: Instant::now() }
    }

    /// The nanoseconds since the start: the length of what `Instant::elapsed` gives, as far
    /// as it fits into 64 bits.
    pub fn now(&self) -> (nanos: u64)
        ensures
            exists|elapsed: Duration|
                {
                    &&& #[trigger] call_ensures(Instant::elapsed, (&self.started(),), elapsed)
                    &&& nanos == clamped_nanos(duration_nanos(elapsed))
                },
    {
        let elapsed = self.start.elapsed();
        assert(call_ensures(Instant::elapsed, (&self.started(),), elapsed));
        nanos_of(elapsed)
    }
}

} // verus!
