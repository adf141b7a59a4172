use stat_sim::histogram::build_histogram;
use stat_sim::order::order_key;

fn key(x: f64) -> i64 {
    order_key(x.to_bits())
}

fn edges(num_bins: usize) -> Vec<i64> {
    let w = 1.0 / num_bins as f64;
    (0..=num_bins).map(|i| key(i as f64 * w)).collect()
}

#[test]
fn counts_add_up_to_number_of_values() {
    let ps = [0.0, 0.01, 0.049, 0.05, 0.2, 0.5, 0.5, 0.77, 0.95, 0.999, 1.0];
    let keys: Vec<i64> = ps.iter().map(|&p| key(p)).collect();
    let bins = build_histogram(&keys, &edges(20), key(0.05));
    assert_eq!(bins.len(), 20);
    assert_eq!(bins.iter().map(|b| b.count).sum::<usize>(), ps.len());
    assert_eq!(bins[0].count, 3);
    assert_eq!(bins[1].count, 1);
    assert_eq!(bins[10].count, 2);
    // 19 * 0.05 rounds to 0.9500000000000001, so 0.95 lies in bin 18
    assert_eq!(bins[18].count, 1);
    assert_eq!(bins[19].count, 2);
}

#[test]
fn one_falls_in_last_bin() {
    let bins = build_histogram(&vec![key(1.0)], &edges(20), key(0.05));
    assert_eq!(bins[19].count, 1);
    assert_eq!(bins.iter().map(|b| b.count).sum::<usize>(), 1);
}

#[test]
fn significant_bins_end_at_or_below_alpha() {
    let bins = build_histogram(&vec![], &edges(20), key(0.05));
    assert!(bins[0].significant);
    assert!(bins[1..].iter().all(|b| !b.significant));
    let bins = build_histogram(&vec![], &edges(4), key(0.5));
    assert_eq!(bins.iter().map(|b| b.significant).collect::<Vec<_>>(), vec![true, true, false, false]);
    assert!(bins.iter().all(|b| b.count == 0));
}

#[test]
fn single_bin_holds_everything() {
    let keys: Vec<i64> = [0.0, 0.3, 1.0].iter().map(|&p| key(p)).collect();
    let bins = build_histogram(&keys, &edges(1), key(0.05));
    assert_eq!(bins.len(), 1);
    assert_eq!(bins[0].count, 3);
    assert!(!bins[0].significant);
}

#[test]
fn no_bins_without_edges() {
    assert!(build_histogram(&vec![key(0.5)], &vec![key(0.0)], key(0.05)).is_empty());
    assert!(build_histogram(&vec![key(0.5)], &vec![], key(0.05)).is_empty());
}
