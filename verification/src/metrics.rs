//! Speedup, efficiency and throughput, in fixed point.
//!
//! All ratios are carried in millionths, so one million stands for a speedup
//! of one or an efficiency of one hundred percent. The sweep protocol runs
//! the single-worker configuration first and keeps its elapsed time as the
//! baseline; where that run was skipped, later ratios are undefined and
//! reported as absent rather than computed against a stale baseline.

use vstd::prelude::*;
use vstd::arithmetic::div_mod::lemma_div_multiples_vanish;

verus! {

/// Fixed-point scale: one million millionths stand for a ratio of one.
pub const METRIC_SCALE: u64 = 1_000_000;

/// Nanoseconds per second, for throughput.
pub const NANOS_PER_SEC: u64 = 1_000_000_000;

/// Speedup of a run against a baseline, in millionths, clamped to u64.
pub open spec fn spec_speedup_ppm(baseline_ns: u64, elapsed_ns: u64) -> u64 {
    let q = (baseline_ns * METRIC_SCALE) / (elapsed_ns as int);
    if q > u64::MAX {
        u64::MAX
    } else {
        q as u64
    }
}

/// Efficiency of a run at `t` workers, in millionths: speedup over `t`.
pub open spec fn spec_efficiency_ppm(speedup: u64, t: usize) -> u64 {
    ((speedup as int) / (t as int)) as u64
}

/// Throughput of a run, in samples per second, clamped to u64.
pub open spec fn spec_throughput(n: usize, elapsed_ns: u64) -> u64 {
    let q = (n * NANOS_PER_SEC) / (elapsed_ns as int);
    if q > u64::MAX {
        u64::MAX
    } else {
        q as u64
    }
}

/// Compute the speedup of a run against a baseline, in millionths.
/// Undefined (None) exactly when the run's elapsed time is zero.
pub fn speedup_ppm(baseline_ns: u64, elapsed_ns: u64) -> (r: Option<u64>)
    ensures
        (r is None) == (elapsed_ns == 0),
        elapsed_ns > 0 ==> r == Some(spec_speedup_ppm(baseline_ns, elapsed_ns)),
{
    if elapsed_ns == 0 {
        Option::None
    } else {
        proof {
            assert((baseline_ns as int) * (METRIC_SCALE as int) <= 0xFFFF_FFFF_FFFF_FFFF
                * 1_000_000) by (nonlinear_arith)
                requires
                    baseline_ns <= 0xFFFF_FFFF_FFFF_FFFFu64,
                    METRIC_SCALE == 1_000_000u64,
            ;
        }
        let q: u128 = (baseline_ns as u128) * (METRIC_SCALE as u128) / (elapsed_ns as u128);
        if q > 0xFFFF_FFFF_FFFF_FFFFu128 {
            Option::Some(u64::MAX)
        } else {
            Option::Some(q as u64)
        }
    }
}

/// Compute the efficiency of a run at `t` workers, in millionths.
pub fn efficiency_ppm(speedup: u64, t: usize) -> (r: u64)
    requires
        1 <= t,
    ensures
        r == spec_efficiency_ppm(speedup, t),
{
    speedup / (t as u64)
}

/// Compute the throughput of a run, in samples per second.
/// Undefined (None) exactly when the run's elapsed time is zero.
pub fn throughput_per_sec(n: usize, elapsed_ns: u64) -> (r: Option<u64>)
    ensures
        (r is None) == (elapsed_ns == 0),
        elapsed_ns > 0 ==> r == Some(spec_throughput(n, elapsed_ns)),
{
    if elapsed_ns == 0 {
        Option::None
    } else {
        proof {
            assert((n as int) * (NANOS_PER_SEC as int) <= 0xFFFF_FFFF_FFFF_FFFF
                * 1_000_000_000) by (nonlinear_arith)
                requires
                    n <= 0xFFFF_FFFF_FFFF_FFFFu64,
                    NANOS_PER_SEC == 1_000_000_000u64,
            ;
        }
        let q: u128 = (n as u128) * (NANOS_PER_SEC as u128) / (elapsed_ns as u128);
        if q > 0xFFFF_FFFF_FFFF_FFFFu128 {
            Option::Some(u64::MAX)
        } else {
            Option::Some(q as u64)
        }
    }
}

/// Baseline identity: a run measured against itself has a speedup of exactly
/// one, and at one worker its efficiency is exactly one hundred percent.
pub proof fn lemma_baseline_identity(elapsed_ns: u64)
    requires
        1 <= elapsed_ns,
    ensures
        spec_speedup_ppm(elapsed_ns, elapsed_ns) == METRIC_SCALE,
        spec_efficiency_ppm(METRIC_SCALE, 1) == METRIC_SCALE,
{
    lemma_div_multiples_vanish(METRIC_SCALE as int, elapsed_ns as int);
    assert(elapsed_ns * METRIC_SCALE == (elapsed_ns as int) * (METRIC_SCALE as int));
}

/// Speedup and efficiency of one run within a sweep, in millionths; absent
/// where the sweep has no single-worker baseline or the run took no
/// measurable time.
pub struct RunMetrics {
    pub speedup_ppm: Option<u64>,
    pub efficiency_ppm: Option<u64>,
}

/// The per-sweep measurement protocol: the single-worker run comes first and
/// its elapsed time becomes the sweep's baseline; later runs are scored
/// against it.
pub struct SweepState {
    pub baseline_ns: Option<u64>,
}

impl SweepState {
    /// A fresh sweep, with no baseline recorded yet.
    pub fn new() -> (s: SweepState)
        ensures
            s.baseline_ns is None,
    {
        SweepState { baseline_ns: Option::None }
    }

    /// Record one run of the sweep.
    ///
    /// A single-worker run becomes the sweep's baseline and scores a speedup
    /// of one and an efficiency of one hundred percent by construction. A
    /// multi-worker run is scored against the recorded baseline; without
    /// one, or without measurable elapsed time, its ratios are undefined.
    pub fn record(&mut self, t: usize, elapsed_ns: u64) -> (m: RunMetrics)
        requires
            1 <= t,
        ensures
            t == 1 ==> final(self).baseline_ns == Some(elapsed_ns) && m.speedup_ppm == Some(
                METRIC_SCALE,
            ) && m.efficiency_ppm == Some(METRIC_SCALE),
            t > 1 ==> final(self).baseline_ns == old(self).baseline_ns,
            t > 1 ==> match old(self).baseline_ns {
                Option::None => m.speedup_ppm is None && m.efficiency_ppm is None,
                Option::Some(b) => {
                    &&& m.speedup_ppm == (if elapsed_ns == 0 {
                        Option::<u64>::None
                    } else {
                        Option::Some(spec_speedup_ppm(b, elapsed_ns))
                    })
                    &&& m.efficiency_ppm == (match m.speedup_ppm {
                        Option::Some(s) => Option::Some(spec_efficiency_ppm(s, t)),
                        Option::None => Option::<u64>::None,
                    })
                },
            },
    {
        if t == 1 {
            self.baseline_ns = Option::Some(elapsed_ns);
            RunMetrics {
                speedup_ppm: Option::Some(METRIC_SCALE),
                efficiency_ppm: Option::Some(METRIC_SCALE),
            }
        } else {
            match self.baseline_ns {
                Option::None => RunMetrics {
                    speedup_ppm: Option::None,
                    efficiency_ppm: Option::None,
                },
                Option::Some(b) => {
                    match speedup_ppm(b, elapsed_ns) {
                        Option::None => RunMetrics {
                            speedup_ppm: Option::None,
                            efficiency_ppm: Option::None,
                        },
                        Option::Some(s) => RunMetrics {
                            speedup_ppm: Option::Some(s),
                            efficiency_ppm: Option::Some(efficiency_ppm(s, t)),
                        },
                    }
                },
            }
        }
    }
}

} // verus!
