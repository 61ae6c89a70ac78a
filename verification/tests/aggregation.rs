use parhist::aggregate::{hist_atomic, hist_local, reduce_pairwise, reduce_sequential};
use parhist::config::{validate_config, Strategy};
use parhist::generate::{gen_uniform, Dist};
use parhist::histogram::check_correct;
use parhist::partition::make_partitions;
use parhist::run::run;

#[test]
fn atomic_small_known_input() {
    let data: Vec<u8> = vec![0, 1, 1, 2];
    let parts = make_partitions(4, 2, 0);
    let (_, hist) = hist_atomic(&data, &parts, 2, false, None).expect("pool");
    assert_eq!(hist.len(), 256);
    assert_eq!(hist[0], 1);
    assert_eq!(hist[1], 2);
    assert_eq!(hist[2], 1);
    assert_eq!(hist[3], 0);
    assert_eq!(hist.iter().sum::<u64>(), 4);
}

#[test]
fn local_small_known_input() {
    let data: Vec<u8> = vec![255, 255, 0, 7];
    let parts = make_partitions(4, 3, 0);
    let (_, hist) = hist_local(&data, &parts, 3, None).expect("pool");
    assert_eq!(hist[255], 2);
    assert_eq!(hist[0], 1);
    assert_eq!(hist[7], 1);
    assert_eq!(hist.iter().sum::<u64>(), 4);
}

#[test]
fn conservation_atomic() {
    // sum(aggregate_atomic(seq, partitions)) == len(seq) across worker
    // counts and the padding flag
    let data = gen_uniform(5000);
    for &t in &[1usize, 2, 4, 8] {
        for &pad in &[false, true] {
            let parts = make_partitions(data.len(), t, 0);
            let (_, hist) = hist_atomic(&data, &parts, t, pad, None).expect("pool");
            assert_eq!(hist.iter().sum::<u64>(), 5000);
        }
    }
}

#[test]
fn conservation_local() {
    // sum(aggregate_local(seq, partitions)) == len(seq) across worker
    // counts and grains
    let data = gen_uniform(5000);
    for &t in &[1usize, 2, 4, 8] {
        for &g in &[0usize, 7, 512] {
            let parts = make_partitions(data.len(), t, g);
            let (_, hist) = hist_local(&data, &parts, t, None).expect("pool");
            assert_eq!(hist.iter().sum::<u64>(), 5000);
        }
    }
}

#[test]
fn cross_strategy_equivalence() {
    // the two strategies produce the same histogram bin for bin
    let data = gen_uniform(3000);
    let parts = make_partitions(data.len(), 4, 0);
    let (_, ha) = hist_atomic(&data, &parts, 4, false, None).expect("pool");
    let (_, hp) = hist_atomic(&data, &parts, 4, true, None).expect("pool");
    let (_, hl) = hist_local(&data, &parts, 4, None).expect("pool");
    assert_eq!(ha, hl);
    assert_eq!(ha, hp);
}

#[test]
fn empty_partitions_are_noops() {
    let data: Vec<u8> = vec![9, 9];
    let parts = make_partitions(2, 8, 0);
    let (_, hist) = hist_local(&data, &parts, 8, None).expect("pool");
    assert_eq!(hist[9], 2);
    assert_eq!(hist.iter().sum::<u64>(), 2);
}

#[test]
fn reductions_agree() {
    // sequential fold and pairwise tree produce the same histogram, for even
    // and odd worker counts
    for workers in 1..6usize {
        let mut locals: Vec<Vec<u64>> = Vec::new();
        for w in 0..workers {
            let mut h = vec![0u64; 256];
            h[w] = (w as u64) + 1;
            h[255] = 3;
            locals.push(h);
        }
        let seq_r = reduce_sequential(&locals);
        let tree_r = reduce_pairwise(locals);
        assert_eq!(seq_r, tree_r);
        assert_eq!(seq_r[255], 3 * workers as u64);
    }
}

#[test]
fn reduce_of_nothing_is_empty_histogram() {
    let seq_r = reduce_sequential(&Vec::new());
    let tree_r = reduce_pairwise(Vec::new());
    assert_eq!(seq_r, vec![0u64; 256]);
    assert_eq!(seq_r, tree_r);
}

#[test]
fn check_correct_verdicts() {
    let mut hist = vec![0u64; 256];
    hist[3] = 5;
    hist[200] = 7;
    assert!(check_correct(&hist, 12));
    assert!(!check_correct(&hist, 11));
    assert!(!check_correct(&hist, 13));
    assert!(check_correct(&vec![0u64; 256], 0));
}

#[test]
fn uniform_thousand_four_workers_atomic() {
    // dist=uniform, N=1000, T=4, strategy=atomic: correct, sum = 1000
    let cfg = validate_config(
        Some(Strategy::Atomic),
        Some(Dist::Uniform),
        1000,
        4,
        0,
        false,
        false,
    )
    .expect("config");
    let out = run(&cfg).expect("run");
    assert!(out.correct);
    assert_eq!(out.hist.iter().sum::<u64>(), 1000);
}

#[test]
fn run_matches_direct_aggregation() {
    let cfg = validate_config(
        Some(Strategy::Local),
        Some(Dist::Uniform),
        2000,
        3,
        0,
        false,
        false,
    )
    .expect("config");
    let out = run(&cfg).expect("run");
    let data = gen_uniform(2000);
    let parts = make_partitions(2000, 3, 0);
    let (_, hist) = hist_local(&data, &parts, 3, None).expect("pool");
    assert_eq!(out.hist, hist);
    assert!(out.correct);
}

#[test]
fn skewed_run_hot_bins() {
    // dist=skewed, N=100000: bins 0..=50 hold roughly 80% of the count
    let cfg = validate_config(
        Some(Strategy::Local),
        Some(Dist::Skewed),
        100000,
        4,
        0,
        false,
        false,
    )
    .expect("config");
    let out = run(&cfg).expect("run");
    assert!(out.correct);
    let hot: u64 = out.hist[..51].iter().sum();
    assert!(hot >= 78000, "hot share too small: {}", hot);
    assert!(hot <= 82000, "hot share too large: {}", hot);
    assert_eq!(out.hist.iter().sum::<u64>(), 100000);
}

#[test]
fn grain_path_through_run() {
    let cfg = validate_config(
        Some(Strategy::Atomic),
        Some(Dist::Skewed),
        4096,
        2,
        100,
        true,
        false,
    )
    .expect("config");
    let out = run(&cfg).expect("run");
    assert!(out.correct);
    assert_eq!(out.hist.iter().sum::<u64>(), 4096);
}
