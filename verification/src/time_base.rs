//! Conversion from the kernel's monotonic clock (the time base of every
//! kernel-side timestamp) to wall-clock nanoseconds since the UNIX epoch.
//!
//! The offset between the two clocks is sampled once; every conversion
//! adds it and saturates to the `u64` range.

use vstd::prelude::*;

verus! {

/// `x` clamped into `0 ..= u64::MAX`.
pub open spec fn clamp_u64(x: int) -> int {
    if x < 0 {
        0
    } else if x > u64::MAX {
        u64::MAX as int
    } else {
        x
    }
}

/// A fixed offset from monotonic to wall-clock nanoseconds.
#[derive(Copy, Clone, Debug)]
pub struct TimeBase {
    offset_ns: i128,
}

impl TimeBase {
    /// The offset is a difference of two `u64` readings.
    #[verifier::type_invariant]
    spec fn offset_in_range(self) -> bool {
        -(u64::MAX as int) <= self.offset_ns <= u64::MAX
    }

    /// `wall - monotonic` at the moment the clocks were sampled.
    pub closed spec fn offset(self) -> int {
        self.offset_ns as int
    }

    /// Wall-clock nanoseconds of monotonic time `ktime_ns` under this base.
    pub open spec fn wall_of(self, ktime_ns: u64) -> int {
        clamp_u64(ktime_ns + self.offset())
    }

    /// The time base of two clock readings taken together: `ktime_ns` from
    /// the monotonic clock and `wall_ns` from the wall clock.
    pub fn from_samples(ktime_ns: u64, wall_ns: u64) -> (tb: Self)
        ensures
            tb.offset() == wall_ns - ktime_ns,
    {
        TimeBase { offset_ns: wall_ns as i128 - ktime_ns as i128 }
    }

    /// Convert a monotonic-clock reading into wall-clock nanoseconds,
    /// saturating at 0 and `u64::MAX`.
    pub fn to_wall_ns(&self, ktime_ns: u64) -> (w: u64)
        ensures
            w == self.wall_of(ktime_ns),
    {
        proof {
            use_type_invariant(self);
        }
        let sum = (ktime_ns as i128) + self.offset_ns;
        if sum < 0 {
            0
        } else if sum > u64::MAX as i128 {
            u64::MAX
        } else {
            sum as u64
        }
    }
}

/// Conversion preserves order, and where it does not saturate it preserves
/// differences exactly.
pub proof fn lemma_to_wall_monotonic(tb: TimeBase, k1: u64, k2: u64)
    requires
        k1 <= k2,
    ensures
        tb.wall_of(k1) <= tb.wall_of(k2),
        0 <= k1 + tb.offset() && k2 + tb.offset() <= u64::MAX ==> tb.wall_of(k2) - tb.wall_of(k1)
            == k2 - k1,
{
}

/// Sampling the clocks and converting the monotonic sample back gives the
/// wall-clock sample.
pub proof fn lemma_from_samples_round_trip(tb: TimeBase, ktime_ns: u64, wall_ns: u64)
    requires
        tb.offset() == wall_ns - ktime_ns,
    ensures
        tb.wall_of(ktime_ns) == wall_ns,
{
}

} // verus!
