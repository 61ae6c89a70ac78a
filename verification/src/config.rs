//! Run configuration and its validation.
//!
//! A run request is checked before any timed work starts: an unrecognized
//! strategy or distribution, or a zero sample or worker count, is a
//! configuration error handed back to the caller, and no aggregation is
//! attempted. Affinity feasibility is a separate check, made once the
//! platform's core list is known, and its failure is reported distinctly
//! from both configuration errors and correctness failures.

use vstd::prelude::*;
use crate::generate::Dist;

verus! {

/// The concurrency-control strategy to benchmark.
#[derive(Clone, Copy, PartialEq, Eq, Structural, Debug)]
pub enum Strategy {
    Atomic,
    Local,
}

/// Why a run request was rejected before any timed work.
#[derive(Clone, Copy, PartialEq, Eq, Structural, Debug)]
pub enum ConfigError {
    UnknownStrategy,
    UnknownDist,
    ZeroSamples,
    ZeroWorkers,
}

/// One immutable run configuration, consumed read-only by every stage.
#[derive(Clone, Copy, PartialEq, Eq, Structural, Debug)]
pub struct RunConfig {
    pub strategy: Strategy,
    pub dist: Dist,
    pub n: usize,
    pub t: usize,
    pub grain: usize,
    pub pad: bool,
    pub affinity: bool,
}

impl RunConfig {
    /// A configuration that passed validation: it has work and workers.
    pub open spec fn wf(self) -> bool {
        self.n >= 1 && self.t >= 1
    }
}

/// What validation decides for a request: the first failing check names the
/// error, and a request that passes them all becomes a configuration.
pub open spec fn spec_validate(
    strategy: Option<Strategy>,
    dist: Option<Dist>,
    n: usize,
    t: usize,
    grain: usize,
    pad: bool,
    affinity: bool,
) -> Result<RunConfig, ConfigError> {
    match strategy {
        Option::None => Result::Err(ConfigError::UnknownStrategy),
        Option::Some(s) => match dist {
            Option::None => Result::Err(ConfigError::UnknownDist),
            Option::Some(d) => if n == 0 {
                Result::Err(ConfigError::ZeroSamples)
            } else if t == 0 {
                Result::Err(ConfigError::ZeroWorkers)
            } else {
                Result::Ok(
                    RunConfig { strategy: s, dist: d, n, t, grain, pad, affinity },
                )
            },
        },
    }
}

/// Validate a run request before any timed work starts.
///
/// The caller hands the strategy and distribution as options: `None` stands
/// for a name it did not recognize. The result is exactly what
/// `spec_validate` decides, and a configuration that comes back is
/// well-formed.
pub fn validate_config(
    strategy: Option<Strategy>,
    dist: Option<Dist>,
    n: usize,
    t: usize,
    grain: usize,
    pad: bool,
    affinity: bool,
) -> (r: Result<RunConfig, ConfigError>)
    ensures
        r == spec_validate(strategy, dist, n, t, grain, pad, affinity),
        r matches Ok(cfg) ==> cfg.wf(),
{
    match strategy {
        Option::None => Result::Err(ConfigError::UnknownStrategy),
        Option::Some(s) => match dist {
            Option::None => Result::Err(ConfigError::UnknownDist),
            Option::Some(d) => if n == 0 {
                Result::Err(ConfigError::ZeroSamples)
            } else if t == 0 {
                Result::Err(ConfigError::ZeroWorkers)
            } else {
                Result::Ok(
                    RunConfig { strategy: s, dist: d, n, t, grain, pad, affinity },
                )
            },
        },
    }
}

/// The strategy a name denotes, if any.
pub open spec fn spec_parse_strategy(s: Seq<char>) -> Option<Strategy> {
    if s == "atomic"@ {
        Option::Some(Strategy::Atomic)
    } else if s == "local"@ {
        Option::Some(Strategy::Local)
    } else {
        Option::None
    }
}

/// The distribution a name denotes, if any.
pub open spec fn spec_parse_dist(s: Seq<char>) -> Option<Dist> {
    if s == "uniform"@ {
        Option::Some(Dist::Uniform)
    } else if s == "skewed"@ {
        Option::Some(Dist::Skewed)
    } else {
        Option::None
    }
}

/// Recognize a strategy name; any other name is unrecognized.
pub fn parse_strategy(s: &String) -> (r: Option<Strategy>)
    ensures
        r == spec_parse_strategy(s@),
{
    if s.eq(&("atomic".to_owned())) {
        Option::Some(Strategy::Atomic)
    } else if s.eq(&("local".to_owned())) {
        Option::Some(Strategy::Local)
    } else {
        Option::None
    }
}

/// Recognize a distribution name; any other name is unrecognized.
pub fn parse_dist(s: &String) -> (r: Option<Dist>)
    ensures
        r == spec_parse_dist(s@),
{
    if s.eq(&("uniform".to_owned())) {
        Option::Some(Dist::Uniform)
    } else if s.eq(&("skewed".to_owned())) {
        Option::Some(Dist::Skewed)
    } else {
        Option::None
    }
}

/// Whether a run may proceed under its affinity request: pinning needs a
/// known core list with at least one distinct core per worker. Without an
/// affinity request there is nothing to check.
pub open spec fn spec_affinity_supported(requested: bool, t: usize, available: Option<
    usize,
>) -> bool {
    if requested {
        match available {
            Option::Some(c) => t <= c,
            Option::None => false,
        }
    } else {
        true
    }
}

/// Decide affinity feasibility from the worker count and the platform's
/// available-core count (`None` where the platform gave no core list).
pub fn check_affinity(requested: bool, t: usize, available: Option<usize>) -> (r: bool)
    ensures
        r == spec_affinity_supported(requested, t, available),
{
    if requested {
        match available {
            Option::Some(c) => t <= c,
            Option::None => false,
        }
    } else {
        true
    }
}

} // verus!
