//! Adaptive bitrate control: additive increase, multiplicative decrease.
use crate::clock::{clock_start, elapsed_ms};
use crate::network::{ControlMessage, NetworkStats};
use std::time::Instant;
use vstd::prelude::*;

verus! {

/// Milliseconds that must pass between two adjustments.
pub const ADJUSTMENT_INTERVAL_MS: u64 = 1000;

/// Additive increase in Mbps.
pub const INCREASE_STEP: u32 = 1;

/// Round-trip time in milliseconds above which the network counts as poor.
pub const RTT_THRESHOLD_MS: u64 = 200;

/// Loss in thousandths of a percent above which the network counts as poor.
pub const LOSS_THRESHOLD_MILLI: u64 = 2000;

/// Quality score, in parts per million, above which the bitrate is raised.
pub const GOOD_QUALITY_PPM: u32 = 800000;

/// A controller as a mathematical value.
pub struct ControllerView {
    pub current: u32,
    pub min: u32,
    pub max: u32,
    pub last_adjustment_ms: u64,
}

/// Whether the current bitrate lies between the two limits.
pub open spec fn in_range(c: ControllerView) -> bool {
    c.min <= c.current <= c.max
}

/// The bitrate that the rule asks for: three quarters of the current one,
/// but at least the minimum, on a poor network; one step more, but at most
/// the maximum, on a good one; the current one otherwise.
pub open spec fn target_bitrate(c: ControllerView, stats: NetworkStats) -> u32 {
    if stats.rtt_ms > RTT_THRESHOLD_MS || stats.packet_loss_milli > LOSS_THRESHOLD_MILLI {
        let cut = (c.current as int * 3 / 4) as u32;
        if cut < c.min {
            c.min
        } else {
            cut
        }
    } else if crate::network::quality_ppm(stats.rtt_ms, stats.packet_loss_milli)
        > GOOD_QUALITY_PPM {
        if c.current as int + INCREASE_STEP > c.max {
            c.max
        } else {
            (c.current + INCREASE_STEP) as u32
        }
    } else {
        c.current
    }
}

/// One call of the rule at time `now`: nothing within the interval since
/// the last adjustment; after it, the target bitrate is adopted and
/// announced if it differs from the current one.
pub open spec fn update_step(c: ControllerView, stats: NetworkStats, now: u64) -> (
    ControllerView,
    Option<u32>,
) {
    if now < c.last_adjustment_ms || now - c.last_adjustment_ms < ADJUSTMENT_INTERVAL_MS {
        (c, None)
    } else {
        let target = target_bitrate(c, stats);
        if target != c.current {
            (ControllerView { current: target, last_adjustment_ms: now, ..c }, Some(target))
        } else {
            (c, None)
        }
    }
}

/// What a call announces: the message for a new bitrate, or nothing.
pub open spec fn announces(msg: Option<ControlMessage>, bitrate: Option<u32>) -> bool {
    match bitrate {
        Some(b) => msg == Some(ControlMessage::SetBitrate(b)),
        None => msg is None,
    }
}

/// `b` moved into the range from `min` to `max`; where the limits cross,
/// the lower limit wins for values below it and the upper one otherwise.
pub open spec fn clamped(b: u32, min: u32, max: u32) -> u32 {
    if b < min {
        min
    } else if b > max {
        max
    } else {
        b
    }
}

/// At most one adjustment per interval: of two calls less than the
/// interval apart, the second announces nothing if the first announced a
/// bitrate.
pub proof fn lemma_one_adjustment_per_interval(
    c: ControllerView,
    first: NetworkStats,
    second: NetworkStats,
    t1: u64,
    t2: u64,
)
    requires
        t1 <= t2,
        t2 - t1 < ADJUSTMENT_INTERVAL_MS,
    ensures
        update_step(c, first, t1).1 is Some ==> update_step(
            update_step(c, first, t1).0,
            second,
            t2,
        ).1 is None,
{
}

/// A bitrate within its limits stays within them, and so is every bitrate
/// that is announced.
pub proof fn lemma_bitrate_stays_in_range(c: ControllerView, stats: NetworkStats, now: u64)
    requires
        in_range(c),
    ensures
        in_range(update_step(c, stats, now).0),
        update_step(c, stats, now).1 is Some ==> c.min <= update_step(c, stats, now).1.unwrap()
            <= c.max,
{
}

/// Adaptive bitrate controller using AIMD (Additive Increase, Multiplicative Decrease)
pub struct BitrateController {
    current_bitrate: u32,
    min_bitrate: u32,
    max_bitrate: u32,
    started: Instant,
    last_adjustment_ms: u64,
}

impl View for BitrateController {
    type V = ControllerView;

    closed spec fn view(&self) -> ControllerView {
        ControllerView {
            current: self.current_bitrate,
            min: self.min_bitrate,
            max: self.max_bitrate,
            last_adjustment_ms: self.last_adjustment_ms,
        }
    }
}

impl BitrateController {
    /// A controller whose clock starts now: times are milliseconds since
    /// this call, and the last adjustment counts as made at time 0.
    pub fn new(initial_bitrate: u32, min_bitrate: u32, max_bitrate: u32) -> (c: Self)
        ensures
            c@ == (ControllerView {
                current: initial_bitrate,
                min: min_bitrate,
                max: max_bitrate,
                last_adjustment_ms: 0,
            }),
    {
        BitrateController {
            current_bitrate: initial_bitrate,
            min_bitrate,
            max_bitrate,
            started: clock_start(),
            last_adjustment_ms: 0,
        }
    }

    /// Update bitrate based on network statistics, at the time that the
    /// controller's clock shows.
    pub fn update(&mut self, stats: &NetworkStats) -> (msg: Option<ControlMessage>)
        ensures
            exists|now: u64|
                final(self)@ == (#[trigger] update_step(old(self)@, *stats, now)).0 && announces(
                    msg,
                    update_step(old(self)@, *stats, now).1,
                ),
    {
        let now = elapsed_ms(&self.started);
        self.update_at(stats, now)
    }

    /// Update bitrate based on network statistics, at time `now_ms` on the
    /// controller's clock.
    pub fn update_at(&mut self, stats: &NetworkStats, now_ms: u64) -> (msg: Option<ControlMessage>)
        ensures
            final(self)@ == update_step(old(self)@, *stats, now_ms).0,
            announces(msg, update_step(old(self)@, *stats, now_ms).1),
            in_range(old(self)@) ==> in_range(final(self)@),
    {
        if now_ms < self.last_adjustment_ms || now_ms - self.last_adjustment_ms
            < ADJUSTMENT_INTERVAL_MS {
            return None;
        }
        let quality = stats.quality_score();
        let should_decrease = stats.rtt_ms > RTT_THRESHOLD_MS || stats.packet_loss_milli
            > LOSS_THRESHOLD_MILLI;
        let new_bitrate: u32 = if should_decrease {
            let cut = ((self.current_bitrate as u64) * 3 / 4) as u32;
            if cut < self.min_bitrate {
                self.min_bitrate
            } else {
                cut
            }
        } else if quality > GOOD_QUALITY_PPM {
            if self.current_bitrate as u64 + INCREASE_STEP as u64 > self.max_bitrate as u64 {
                self.max_bitrate
            } else {
                self.current_bitrate + INCREASE_STEP
            }
        } else {
            self.current_bitrate
        };
        if new_bitrate != self.current_bitrate {
            self.current_bitrate = new_bitrate;
            self.last_adjustment_ms = now_ms;
            Some(ControlMessage::SetBitrate(new_bitrate))
        } else {
            None
        }
    }

    /// Get current bitrate
    pub fn current_bitrate(&self) -> (b: u32)
        ensures
            b == self@.current,
    {
        self.current_bitrate
    }

    /// Manually set bitrate: the value is moved into the limits and
    /// announced if it differs from the current one. The time of the last
    /// adjustment is not touched.
    pub fn set_bitrate(&mut self, bitrate: u32) -> (msg: Option<ControlMessage>)
        ensures
            final(self)@ == (ControllerView {
                current: clamped(bitrate, old(self)@.min, old(self)@.max),
                ..old(self)@
            }),
            announces(
                msg,
                if clamped(bitrate, old(self)@.min, old(self)@.max) != old(self)@.current {
                    Some(clamped(bitrate, old(self)@.min, old(self)@.max))
                } else {
                    None
                },
            ),
    {
        let clamped_to: u32 = if bitrate < self.min_bitrate {
            self.min_bitrate
        } else if bitrate > self.max_bitrate {
            self.max_bitrate
        } else {
            bitrate
        };
        if clamped_to != self.current_bitrate {
            self.current_bitrate = clamped_to;
            Some(ControlMessage::SetBitrate(clamped_to))
        } else {
            None
        }
    }
}

} // verus!
