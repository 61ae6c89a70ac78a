use parhist::config::{
    check_affinity, parse_dist, parse_strategy, validate_config, ConfigError, Strategy,
};
use parhist::generate::Dist;
use parhist::metrics::{efficiency_ppm, speedup_ppm, throughput_per_sec, SweepState};
use parhist::run::{run, RunError};

#[test]
fn strategy_names() {
    assert_eq!(parse_strategy(&"atomic".to_string()), Some(Strategy::Atomic));
    assert_eq!(parse_strategy(&"local".to_string()), Some(Strategy::Local));
    assert_eq!(parse_strategy(&"both".to_string()), None);
    assert_eq!(parse_strategy(&"".to_string()), None);
    assert_eq!(parse_strategy(&"Atomic".to_string()), None);
}

#[test]
fn dist_names() {
    assert_eq!(parse_dist(&"uniform".to_string()), Some(Dist::Uniform));
    assert_eq!(parse_dist(&"skewed".to_string()), Some(Dist::Skewed));
    assert_eq!(parse_dist(&"normal".to_string()), None);
}

#[test]
fn unknown_strategy_rejected() {
    let r = validate_config(None, Some(Dist::Uniform), 10, 2, 0, false, false);
    assert_eq!(r, Err(ConfigError::UnknownStrategy));
}

#[test]
fn unknown_dist_rejected() {
    let r = validate_config(Some(Strategy::Local), None, 10, 2, 0, false, false);
    assert_eq!(r, Err(ConfigError::UnknownDist));
}

#[test]
fn zero_samples_rejected() {
    // N=0 is a configuration error, reported before any aggregation
    let r = validate_config(Some(Strategy::Atomic), Some(Dist::Uniform), 0, 4, 0, false, false);
    assert_eq!(r, Err(ConfigError::ZeroSamples));
}

#[test]
fn zero_workers_rejected() {
    // T=0 is a configuration error, reported before any aggregation
    let r = validate_config(Some(Strategy::Atomic), Some(Dist::Uniform), 100, 0, 0, false, false);
    assert_eq!(r, Err(ConfigError::ZeroWorkers));
}

#[test]
fn accepted_config_keeps_fields() {
    let cfg = validate_config(Some(Strategy::Local), Some(Dist::Skewed), 77, 3, 5, true, true)
        .expect("config");
    assert_eq!(cfg.strategy, Strategy::Local);
    assert_eq!(cfg.dist, Dist::Skewed);
    assert_eq!(cfg.n, 77);
    assert_eq!(cfg.t, 3);
    assert_eq!(cfg.grain, 5);
    assert!(cfg.pad);
    assert!(cfg.affinity);
}

#[test]
fn affinity_feasibility() {
    // sixteen workers on four cores cannot all be pinned distinctly
    assert!(!check_affinity(true, 16, Some(4)));
    assert!(check_affinity(true, 4, Some(4)));
    assert!(check_affinity(true, 3, Some(4)));
    assert!(!check_affinity(true, 1, None));
    // without an affinity request there is nothing to check
    assert!(check_affinity(false, 16, Some(4)));
    assert!(check_affinity(false, 1, None));
}

#[test]
fn oversubscribed_affinity_is_skipped_not_failed() {
    // far more workers than any machine has cores: the run is skipped with
    // a distinct unsupported report, not a correctness failure
    let cfg = validate_config(
        Some(Strategy::Atomic),
        Some(Dist::Uniform),
        100,
        1000000,
        0,
        false,
        true,
    )
    .expect("config");
    let r = run(&cfg);
    assert_eq!(r.err().expect("skip"), RunError::AffinityUnsupported);
}

#[test]
fn speedup_exact_values() {
    assert_eq!(speedup_ppm(2000, 1000), Some(2_000_000));
    assert_eq!(speedup_ppm(1000, 1000), Some(1_000_000));
    assert_eq!(speedup_ppm(1000, 3000), Some(333_333));
    assert_eq!(speedup_ppm(0, 5), Some(0));
    assert_eq!(speedup_ppm(1000, 0), None);
}

#[test]
fn efficiency_exact_values() {
    assert_eq!(efficiency_ppm(2_000_000, 4), 500_000);
    assert_eq!(efficiency_ppm(1_000_000, 1), 1_000_000);
    assert_eq!(efficiency_ppm(333_333, 2), 166_666);
}

#[test]
fn throughput_exact_values() {
    // 1000 samples in one millisecond is a million samples per second
    assert_eq!(throughput_per_sec(1000, 1_000_000), Some(1_000_000));
    assert_eq!(throughput_per_sec(0, 55), Some(0));
    assert_eq!(throughput_per_sec(1000, 0), None);
}

#[test]
fn baseline_identity() {
    // at T=1, speedup is 1.0 and efficiency 100% by construction
    let mut sweep = SweepState::new();
    let m = sweep.record(1, 5000);
    assert_eq!(m.speedup_ppm, Some(1_000_000));
    assert_eq!(m.efficiency_ppm, Some(1_000_000));
    assert_eq!(sweep.baseline_ns, Some(5000));
}

#[test]
fn sweep_against_baseline() {
    let mut sweep = SweepState::new();
    let _ = sweep.record(1, 5000);
    let m = sweep.record(4, 2500);
    assert_eq!(m.speedup_ppm, Some(2_000_000));
    assert_eq!(m.efficiency_ppm, Some(500_000));
    // the baseline does not move after the single-worker run
    assert_eq!(sweep.baseline_ns, Some(5000));
}

#[test]
fn sweep_without_baseline_is_undefined() {
    // a skipped single-worker run leaves later ratios undefined rather than
    // scored against a stale baseline
    let mut sweep = SweepState::new();
    let m = sweep.record(4, 2500);
    assert_eq!(m.speedup_ppm, None);
    assert_eq!(m.efficiency_ppm, None);
}
