//! Time from the architectural counter: its resolution, the uptime a
//! counter value stands for, and the counter value that ends a wait.

use vstd::prelude::*;

verus! {

/// Nanoseconds per second.
pub const NANOSEC_PER_SEC: u64 = 1_000_000_000;

/// Converts between counter ticks and time, for a counter running at a
/// given frequency (CNTFRQ_EL0, a 32-bit value).
pub struct TimeManager;

impl TimeManager {
    /// Create an instance.
    pub fn new() -> (r: Self) {
        TimeManager
    }

    /// Duration of one counter tick, in nanoseconds (rounded down).
    pub fn resolution(&self, counter_frequency: u32) -> (r: u64)
        requires
            counter_frequency > 0,
        ensures
            r == NANOSEC_PER_SEC as int / (counter_frequency as int),
    {
        NANOSEC_PER_SEC / (counter_frequency as u64)
    }

    /// The time since power-on that a counter value stands for, as whole
    /// seconds and the nanoseconds past them (rounded down).
    pub fn uptime(&self, counter: u64, counter_frequency: u32) -> (r: (u64, u32))
        requires
            counter_frequency > 0,
        ensures
            r.0 == counter as int / (counter_frequency as int),
            r.1 == (counter as int % (counter_frequency as int)) * NANOSEC_PER_SEC / (
            counter_frequency as int),
            r.1 < NANOSEC_PER_SEC,
    {
        let f = counter_frequency as u64;
        let secs = counter / f;
        let sub = counter % f;
        proof {
            assert(sub * NANOSEC_PER_SEC < f * NANOSEC_PER_SEC) by (nonlinear_arith)
                requires
                    sub < f,
            ;
            assert(f * NANOSEC_PER_SEC <= 0xFFFF_FFFF * NANOSEC_PER_SEC) by (nonlinear_arith)
                requires
                    f <= 0xFFFF_FFFF,
            ;
            assert(sub * NANOSEC_PER_SEC / (f as int) < NANOSEC_PER_SEC) by (nonlinear_arith)
                requires
                    sub * NANOSEC_PER_SEC < f * NANOSEC_PER_SEC,
                    f > 0,
            ;
        }
        let nanos = (sub * NANOSEC_PER_SEC) / f;
        (secs, nanos as u32)
    }

    /// The counter value at which a wait of `duration_ns` nanoseconds that
    /// starts at counter value `now` ends; `None` if that is past the
    /// counter's range. The tick count is rounded up, so the wait lasts at
    /// least `duration_ns`: its ticks, at `counter_frequency` per second,
    /// span no less than the duration, and one tick fewer would fall short.
    pub fn spin_for(&self, now: u64, duration_ns: u64, counter_frequency: u32) -> (r: Option<u64>)
        requires
            counter_frequency > 0,
        ensures
            ({
                let ticks = (duration_ns as int * counter_frequency + NANOSEC_PER_SEC - 1) / (
                NANOSEC_PER_SEC as int);
                &&& r is Some <==> now + ticks <= u64::MAX
                &&& r is Some ==> r->0 == now + ticks
                &&& ticks * NANOSEC_PER_SEC >= duration_ns as int * counter_frequency
                &&& ticks == 0 || (ticks - 1) * NANOSEC_PER_SEC < duration_ns as int
                    * counter_frequency
            }),
    {
        proof {
            assert(duration_ns * counter_frequency <= 0xFFFF_FFFF_FFFF_FFFF * 0xFFFF_FFFF) by (
            nonlinear_arith)
                requires
                    duration_ns <= 0xFFFF_FFFF_FFFF_FFFF,
                    counter_frequency <= 0xFFFF_FFFF,
            ;
        }
        let product: u128 = (duration_ns as u128) * (counter_frequency as u128);
        let ticks: u128 = (product + (NANOSEC_PER_SEC as u128 - 1)) / (NANOSEC_PER_SEC as u128);
        proof {
            let p = product as int;
            let t = ticks as int;
            let n = NANOSEC_PER_SEC as int;
            assert(t * n >= p && (t == 0 || (t - 1) * n < p)) by (nonlinear_arith)
                requires
                    t == (p + n - 1) / n,
                    n == 1_000_000_000,
                    p >= 0,
            ;
        }
        if ticks > (u64::MAX - now) as u128 {
            None
        } else {
            Some(now + ticks as u64)
        }
    }
}

/// The kernel's time manager.
pub fn time_manager() -> (r: TimeManager) {
    TimeManager::new()
}

} // verus!
