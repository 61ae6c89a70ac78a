use parhist::partition::{make_partitions, Partition};

fn assert_covers(parts: &[Partition], n: usize) {
    // contiguous chain from 0 to n, no gaps, no overlaps
    if parts.is_empty() {
        assert_eq!(n, 0);
        return;
    }
    assert_eq!(parts[0].start, 0);
    for w in parts.windows(2) {
        assert_eq!(w[0].end, w[1].start);
    }
    for p in parts {
        assert!(p.start <= p.end);
        assert!(p.end <= n);
    }
    assert_eq!(parts[parts.len() - 1].end, n);
    let total: usize = parts.iter().map(|p| p.end - p.start).sum();
    assert_eq!(total, n);
}

#[test]
fn auto_split_even() {
    let parts = make_partitions(12, 3, 0);
    assert_eq!(parts.len(), 3);
    assert_covers(&parts, 12);
    assert_eq!(parts[0], Partition { start: 0, end: 4 });
    assert_eq!(parts[1], Partition { start: 4, end: 8 });
    assert_eq!(parts[2], Partition { start: 8, end: 12 });
}

#[test]
fn auto_split_remainder() {
    let parts = make_partitions(10, 3, 0);
    assert_eq!(parts.len(), 3);
    assert_covers(&parts, 10);
    // ceil(10/3) = 4, last span clamped
    assert_eq!(parts[0], Partition { start: 0, end: 4 });
    assert_eq!(parts[1], Partition { start: 4, end: 8 });
    assert_eq!(parts[2], Partition { start: 8, end: 10 });
}

#[test]
fn more_workers_than_samples() {
    let parts = make_partitions(2, 5, 0);
    assert_eq!(parts.len(), 5);
    assert_covers(&parts, 2);
    // trailing partitions are empty, not errors
    assert!(parts[2].start == parts[2].end);
    assert!(parts[4].start == parts[4].end);
}

#[test]
fn grain_split() {
    let parts = make_partitions(10, 2, 3);
    assert_covers(&parts, 10);
    assert_eq!(parts.len(), 4);
    for p in &parts[..parts.len() - 1] {
        assert_eq!(p.end - p.start, 3);
    }
    assert_eq!(parts[3], Partition { start: 9, end: 10 });
}

#[test]
fn grain_exact_multiple() {
    let parts = make_partitions(12, 2, 4);
    assert_covers(&parts, 12);
    assert_eq!(parts.len(), 3);
    for p in &parts {
        assert_eq!(p.end - p.start, 4);
    }
}

#[test]
fn grain_larger_than_input() {
    let parts = make_partitions(5, 2, 100);
    assert_covers(&parts, 5);
    assert_eq!(parts.len(), 1);
}

#[test]
fn zero_samples_grain_mode() {
    let parts = make_partitions(0, 4, 16);
    assert_covers(&parts, 0);
    assert_eq!(parts.len(), 0);
}

#[test]
fn zero_samples_auto_mode() {
    let parts = make_partitions(0, 4, 0);
    assert_eq!(parts.len(), 4);
    assert_covers(&parts, 0);
}

#[test]
fn coverage_sweep() {
    // coverage holds across a grid of sizes, workers and grains
    for &n in &[0usize, 1, 7, 64, 1000] {
        for &t in &[1usize, 2, 3, 8, 16] {
            for &g in &[0usize, 1, 7, 50] {
                let parts = make_partitions(n, t, g);
                assert_covers(&parts, n);
            }
        }
    }
}
