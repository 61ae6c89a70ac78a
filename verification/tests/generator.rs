use parhist::generate::{gen_skewed, gen_uniform, generate, Dist};
use parhist::rng::lcg_next;

#[test]
fn lcg_exact_values() {
    assert_eq!(lcg_next(123456789), 920370032);
    assert_eq!(lcg_next(0), 1013904223);
    assert_eq!(lcg_next(4294967295), 1012239698);
}

#[test]
fn uniform_first_samples() {
    let data = gen_uniform(8);
    assert_eq!(data, vec![112, 15, 34, 25, 164, 179, 118, 93]);
}

#[test]
fn skewed_first_samples() {
    let data = gen_skewed(8);
    assert_eq!(data, vec![36, 62, 45, 20, 8, 5, 12, 7]);
}

#[test]
fn generate_lengths() {
    assert_eq!(gen_uniform(0).len(), 0);
    assert_eq!(gen_skewed(0).len(), 0);
    assert_eq!(gen_uniform(1000).len(), 1000);
    assert_eq!(gen_skewed(1000).len(), 1000);
}

#[test]
fn uniform_deterministic() {
    let a = generate(Dist::Uniform, 2048);
    let b = generate(Dist::Uniform, 2048);
    assert_eq!(a, b);
}

#[test]
fn skewed_deterministic() {
    let a = generate(Dist::Skewed, 2048);
    let b = generate(Dist::Skewed, 2048);
    assert_eq!(a, b);
}

#[test]
fn skewed_hot_share() {
    // Roughly four fifths of the samples land in the 51 hot bins.
    let data = gen_skewed(100000);
    let hot = data.iter().filter(|&&v| v <= 50).count();
    assert!(hot >= 78000, "hot share too small: {}", hot);
    assert!(hot <= 82000, "hot share too large: {}", hot);
}

#[test]
fn skewed_reaches_hot_and_cold_ranges() {
    let data = gen_skewed(10000);
    assert!(data.iter().any(|&v| v <= 50));
    assert!(data.iter().any(|&v| v > 50));
}
