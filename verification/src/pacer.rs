//! Spreading the datagrams of a frame over time.
//!
//! A frame that is sent in one burst overruns the buffers on its way. The pacer lets
//! a frame take about a quarter of the time that its bitrate allows for it.

use vstd::prelude::*;

verus! {

/// So many datagrams are sent between two waits.
pub const VIDEO_PACING_BATCH_DATAGRAMS: usize = 16;

/// Datagrams are sent so many times as fast as the bitrate.
pub const VIDEO_PACING_RATE_MULTIPLIER: u64 = 4;

/// A sleep may take so many nanoseconds longer than it was asked for.
pub const VIDEO_PACING_SLEEP_GUARD: u64 = 500_000;

/// Shorter waits than this are spent spinning.
pub const VIDEO_PACING_SPIN: u64 = 25_000;

/// How to spend the time until the next datagrams may be sent.
#[derive(Clone, Copy, Debug, PartialEq, Eq, Structural)]
pub enum PacingWait {
    /// They may be sent.
    Done,
    /// Sleep so many nanoseconds, then ask again.
    Sleep(u64),
    /// Let others run, then ask again.
    Yield,
    /// Spin until the clock shows this time, then send.
    SpinUntil(u64),
}

#[derive(Clone, Copy, Debug, PartialEq, Eq, Structural)]
pub struct DatagramPacer {
    pub bits_per_second: u64,
    /// When the next datagrams may be sent.
    pub next_batch_at: u64,
}

/// The nanoseconds that it takes to send so many bytes.
pub open spec fn transmission_nanos(bytes: nat, bits_per_second: nat) -> nat {
    (bytes * 8 * 1_000_000_000) / bits_per_second
}

impl DatagramPacer {
    /// A pacer for a stream of the given bitrate, when the clock shows `now`.
    pub fn new(bits_per_second: u32, now: u64) -> (pacer: Self)
        ensures
            pacer.bits_per_second == VIDEO_PACING_RATE_MULTIPLIER * if bits_per_second == 0 {
                1
            } else {
                bits_per_second as int
            },
            pacer.next_batch_at == now,
    {
        let rate: u64 = if bits_per_second == 0 {
            1
        } else {
            bits_per_second as u64
        };
        DatagramPacer { bits_per_second: rate * VIDEO_PACING_RATE_MULTIPLIER, next_batch_at: now }
    }

    /// A frame begins. Time in which nothing was sent is not made up for.
    pub fn begin_frame(&mut self, now: u64)
        ensures
            final(self).bits_per_second == old(self).bits_per_second,
            final(self).next_batch_at == if old(self).next_batch_at < now {
                now
            } else {
                old(self).next_batch_at
            },
    {
        if self.next_batch_at < now {
            self.next_batch_at = now;
        }
    }

    /// A datagram of so many bytes was sent.
    pub fn account(&mut self, bytes: usize)
        requires
            old(self).bits_per_second > 0,
        ensures
            final(self).bits_per_second == old(self).bits_per_second,
            ({
                let next = old(self).next_batch_at + transmission_nanos(
                    bytes as nat,
                    old(self).bits_per_second as nat,
                );
                final(self).next_batch_at == if next > u64::MAX {
                    u64::MAX as int
                } else {
                    next
                }
            }),
    {
        let bits: u128 = bytes as u128 * 8 * 1_000_000_000;
        let nanos: u128 = bits / self.bits_per_second as u128;
        assert(nanos <= bits) by (nonlinear_arith)
            requires
                nanos == bits / self.bits_per_second as u128,
                self.bits_per_second as u128 >= 1,
        ;
        let next: u128 = self.next_batch_at as u128 + nanos;
        self.next_batch_at = if next > u64::MAX as u128 {
            u64::MAX
        } else {
            next as u64
        };
    }

    /// How to spend the time until the next datagrams may be sent.
    pub fn wait(&self, now: u64) -> (wait: PacingWait)
        ensures
            wait == if self.next_batch_at < now {
                PacingWait::Done
            } else if self.next_batch_at - now > VIDEO_PACING_SLEEP_GUARD {
                PacingWait::Sleep((self.next_batch_at - now - VIDEO_PACING_SLEEP_GUARD) as u64)
            } else if self.next_batch_at - now > VIDEO_PACING_SPIN {
                PacingWait::Yield
            } else {
                PacingWait::SpinUntil(self.next_batch_at)
            },
    {
        if self.next_batch_at < now {
            return PacingWait::Done;
        }
        let remaining: u64 = self.next_batch_at - now;
        if remaining > VIDEO_PACING_SLEEP_GUARD {
            PacingWait::Sleep(remaining - VIDEO_PACING_SLEEP_GUARD)
        } else if remaining > VIDEO_PACING_SPIN {
            PacingWait::Yield
        } else {
            PacingWait::SpinUntil(self.next_batch_at)
        }
    }
}

/// Before this datagram the sender waits.
pub fn waits_before(fragment_index: usize) -> (waits: bool)
    ensures
        waits == (fragment_index > 0 && fragment_index % VIDEO_PACING_BATCH_DATAGRAMS == 0),
{
    fragment_index > 0 && fragment_index % VIDEO_PACING_BATCH_DATAGRAMS == 0
}

/// Sending a frame in parts takes no longer than sending it at once would.
pub proof fn pacing_in_parts_is_no_slower(first: nat, second: nat, rate: nat)
    requires
        rate > 0,
    ensures
        transmission_nanos(first, rate) + transmission_nanos(second, rate) <= transmission_nanos(
            first + second,
            rate,
        ),
{
    let a = first * 8 * 1_000_000_000;
    let b = second * 8 * 1_000_000_000;
    assert((first + second) * 8 * 1_000_000_000 == a + b) by (nonlinear_arith)
        requires
            a == first * 8 * 1_000_000_000,
            b == second * 8 * 1_000_000_000,
    ;
    assert(a / rate + b / rate <= (a + b) / rate) by (nonlinear_arith)
        requires
            rate > 0,
            a >= 0,
            b >= 0,
    ;
}

/// A frame takes no longer than a quarter of the time that its bitrate allows for it.
pub proof fn pacing_takes_a_quarter_of_the_budget(bytes: nat, bitrate: nat)
    requires
        bitrate > 0,
    ensures
        VIDEO_PACING_RATE_MULTIPLIER * transmission_nanos(
            bytes,
            VIDEO_PACING_RATE_MULTIPLIER as nat * bitrate,
        ) <= transmission_nanos(bytes, bitrate),
{
    let bits = bytes * 8 * 1_000_000_000;
    assert(4 * (bits / (4 * bitrate)) <= bits / bitrate) by (nonlinear_arith)
        requires
            bitrate > 0,
            bits >= 0,
    ;
}

} // verus!
