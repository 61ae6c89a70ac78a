//! One benchmark run, end to end: affinity feasibility, data generation,
//! partitioning, the chosen aggregation strategy, timing, and verification.
//!
//! The stages run in one direction: generator, partitioner (with the
//! optional affinity plan), strategy, verifier. A run that comes back `Ok`
//! carries a histogram proven to hold the exact per-bin counts of the
//! generated sequence, so its correctness flag is always set.

use vstd::prelude::*;
use crate::BINS;
use crate::aggregate::{hist_atomic, hist_local};
use crate::config::{check_affinity, RunConfig, Strategy};
use crate::generate::{generate, spec_generate};
use crate::histogram::{
    check_correct, count_range, lemma_spans_count_partitioning, sum_hist,
};
use crate::parallel::available_cores;
use crate::partition::{lemma_partitioning_total_size, make_partitions};

verus! {

/// Why a run produced no result.
///
/// An unsupported affinity request skips the configuration; it is not a
/// correctness failure. A worker failure means the platform refused to
/// create the pool.
#[derive(Clone, Copy, PartialEq, Eq, Structural, Debug)]
pub enum RunError {
    AffinityUnsupported,
    WorkerFailed,
}

/// What one run produced: the timed aggregation interval, the histogram,
/// and the verifier's verdict.
pub struct RunOutcome {
    pub elapsed_ns: u64,
    pub hist: Vec<u64>,
    pub correct: bool,
}

/// Execute one validated configuration.
///
/// On success the histogram holds, for every bin, exactly the number of
/// samples of that value in the deterministically generated input; its bins
/// sum to the sample count, so the verifier's verdict is always positive.
/// An affinity error comes only from a run that requested pinning.
pub fn run(cfg: &RunConfig) -> (r: Result<RunOutcome, RunError>)
    requires
        cfg.wf(),
    ensures
        r matches Ok(out) ==> {
            &&& out.hist@.len() == BINS
            &&& forall|b: int|
                0 <= b < BINS ==> #[trigger] out.hist@[b] == count_range(
                    spec_generate(cfg.dist, cfg.n as nat),
                    0,
                    cfg.n as int,
                    b as u8,
                )
            &&& sum_hist(out.hist@) == cfg.n
            &&& out.correct
        },
        r == Result::<RunOutcome, RunError>::Err(RunError::AffinityUnsupported) ==> cfg.affinity,
{
    let cores: Option<Vec<core_affinity::CoreId>> = if cfg.affinity {
        let ids = available_cores();
        let avail: Option<usize> = match &ids {
            Option::Some(v) => Option::Some(v.len()),
            Option::None => Option::None,
        };
        if !check_affinity(true, cfg.t, avail) {
            return Result::Err(RunError::AffinityUnsupported);
        }
        ids
    } else {
        Option::None
    };
    let data = generate(cfg.dist, cfg.n);
    let parts = make_partitions(cfg.n, cfg.t, cfg.grain);
    proof {
        lemma_partitioning_total_size(parts@, cfg.n as nat);
    }
    let res = match cfg.strategy {
        Strategy::Atomic => hist_atomic(&data, &parts, cfg.t, cfg.pad, cores),
        Strategy::Local => hist_local(&data, &parts, cfg.t, cores),
    };
    match res {
        Option::None => Result::Err(RunError::WorkerFailed),
        Option::Some((elapsed, hist)) => {
            let correct = check_correct(&hist, cfg.n);
            proof {
                assert forall|b: int| 0 <= b < BINS implies #[trigger] hist@[b] == count_range(
                    spec_generate(cfg.dist, cfg.n as nat),
                    0,
                    cfg.n as int,
                    b as u8,
                ) by {
                    lemma_spans_count_partitioning(data@, parts@, b as u8);
                }
            }
            Result::Ok(RunOutcome { elapsed_ns: elapsed, hist, correct })
        },
    }
}

} // verus!
