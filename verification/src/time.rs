//! The virtual clock: wall-clock time, optionally accelerated around an
//! anchor latched once at startup.

use vstd::prelude::*;

use crate::conf::MAX_SPEED;

verus! {

/// Upper bound on a timestamp, in milliseconds since the epoch.
pub const MAX_TS_MS: u64 = 8_640_000_000_000;

/// Relies on chrono::Utc::now for the current wall-clock time, read as
/// milliseconds since the Unix epoch; nothing is assumed of the value, and
/// the callers clamp it into range. chrono itself aborts on a system clock
/// set before the epoch.
#[verifier::external_body]
fn wall_now_ms() -> (r: i64) {
    chrono::Utc::now().timestamp_millis()
}

/// The virtual clock: anchored once, optionally accelerated.
#[derive(Clone, Copy, Debug)]
pub struct VirtualClock {
    /// Wall-clock time at process start, milliseconds since the epoch.
    pub real_start_ms: u64,
    /// Virtual time reported at process start: the configured start time,
    /// or the process start itself.
    pub anchor_ms: u64,
    /// Acceleration factor, fixed for the run.
    pub speed: u64,
}

/// The virtual time read at wall-clock instant `wall`: real time when the
/// factor is one, otherwise the anchor plus the scaled elapsed time, held
/// inside the representable timestamp range.
pub open spec fn spec_virtual_time(c: VirtualClock, wall: int) -> int {
    if c.speed == 1 {
        wall
    } else {
        let elapsed: int = if wall >= c.real_start_ms {
            wall - c.real_start_ms
        } else {
            0
        };
        let raw: int = c.anchor_ms + elapsed * c.speed;
        if raw <= MAX_TS_MS {
            raw
        } else {
            MAX_TS_MS as int
        }
    }
}

impl VirtualClock {
    /// Bounded settings the arithmetic below relies on.
    pub open spec fn wf(&self) -> bool {
        &&& 1 <= self.speed <= MAX_SPEED
        &&& self.real_start_ms <= MAX_TS_MS
        &&& self.anchor_ms <= MAX_TS_MS
    }

    /// Latches the clock: `real_start_ms` is the wall time now, and the
    /// anchor is the configured start time, or the process start itself.
    pub fn new(real_start_ms: u64, start_time: Option<u64>, speed: u64) -> (r: Self)
        requires
            1 <= speed <= MAX_SPEED,
            real_start_ms <= MAX_TS_MS,
            start_time matches Some(a) ==> a <= MAX_TS_MS,
        ensures
            r.wf(),
            r.real_start_ms == real_start_ms,
            r.speed == speed,
            r.anchor_ms == (if start_time is Some {
                start_time->0
            } else {
                real_start_ms
            }),
    {
        let anchor_ms: u64 = match start_time {
            Some(a) => a,
            None => real_start_ms,
        };
        VirtualClock { real_start_ms, anchor_ms, speed }
    }

    /// The virtual time at the given wall-clock instant.
    pub fn virtual_time(&self, wall_ms: u64) -> (r: u64)
        requires
            self.wf(),
            wall_ms <= MAX_TS_MS,
        ensures
            r == spec_virtual_time(*self, wall_ms as int),
            r <= MAX_TS_MS,
    {
        if self.speed == 1 {
            wall_ms
        } else {
            let elapsed: u64 = if wall_ms >= self.real_start_ms {
                wall_ms - self.real_start_ms
            } else {
                0
            };
            proof {
                assert((elapsed as int) * (self.speed as int) <= 8_640_000_000_000i128
                    * 1_000_000i128) by (nonlinear_arith)
                    requires
                        0 <= elapsed <= MAX_TS_MS,
                        0 <= self.speed <= MAX_SPEED,
                ;
            }
            let raw: u128 = (self.anchor_ms as u128) + (elapsed as u128) * (self.speed as u128);
            if raw <= MAX_TS_MS as u128 {
                raw as u64
            } else {
                MAX_TS_MS
            }
        }
    }

    /// The virtual time now: the wall clock read once, clamped into the
    /// representable range, then scaled.
    pub fn now_ms(&self) -> (r: u64)
        requires
            self.wf(),
        ensures
            r <= MAX_TS_MS,
            exists|w: int| 0 <= w <= MAX_TS_MS && r == spec_virtual_time(*self, w),
    {
        let raw = wall_now_ms();
        let wall: u64 = if raw < 0 {
            0
        } else if raw > MAX_TS_MS as i64 {
            MAX_TS_MS
        } else {
            raw as u64
        };
        let r = self.virtual_time(wall);
        proof {
            assert(r == spec_virtual_time(*self, wall as int));
        }
        r
    }
}

/// The virtual time the station sees now, from an explicit clock.
pub fn get_mock_now(clock: &VirtualClock) -> (r: u64)
    requires
        clock.wf(),
    ensures
        r <= MAX_TS_MS,
        exists|w: int| 0 <= w <= MAX_TS_MS && r == spec_virtual_time(*clock, w),
{
    clock.now_ms()
}

/// The virtual clock is monotonic: a later wall-clock read never yields an
/// earlier virtual time.
pub proof fn lemma_virtual_clock_monotonic(c: VirtualClock, w1: int, w2: int)
    requires
        c.wf(),
        0 <= w1 <= w2,
    ensures
        spec_virtual_time(c, w1) <= spec_virtual_time(c, w2),
{
    if c.speed != 1 {
        let e1: int = if w1 >= c.real_start_ms {
            w1 - c.real_start_ms
        } else {
            0
        };
        let e2: int = if w2 >= c.real_start_ms {
            w2 - c.real_start_ms
        } else {
            0
        };
        assert(e1 * c.speed <= e2 * c.speed) by (nonlinear_arith)
            requires
                0 <= e1 <= e2,
                c.speed >= 1,
        ;
    }
}

} // verus!
