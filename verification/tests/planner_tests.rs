use egit::planner::plan;

#[test]
fn plan_even_split() {
    let ranges = plan(100, 4);
    assert_eq!(ranges.len(), 4);
    let expected = [(0usize, 0u64, 24u64), (1, 25, 49), (2, 50, 74), (3, 75, 99)];
    for (r, e) in ranges.iter().zip(expected.iter()) {
        assert_eq!(r.index, e.0);
        assert_eq!(r.start, e.1);
        assert_eq!(r.end, e.2);
    }
}

#[test]
fn plan_last_range_absorbs_remainder() {
    let ranges = plan(10, 3);
    assert_eq!(ranges.len(), 3);
    assert_eq!((ranges[0].start, ranges[0].end), (0, 3));
    assert_eq!((ranges[1].start, ranges[1].end), (4, 7));
    assert_eq!((ranges[2].start, ranges[2].end), (8, 9));
}

#[test]
fn plan_covers_without_gaps_or_overlaps() {
    let total: u64 = 103;
    let ranges = plan(total, 4);
    assert_eq!(ranges[0].start, 0);
    assert_eq!(ranges[ranges.len() - 1].end, total - 1);
    let mut sum: u64 = 0;
    for (k, r) in ranges.iter().enumerate() {
        assert_eq!(r.index, k);
        assert!(r.start <= r.end);
        if k > 0 {
            assert_eq!(ranges[k - 1].end + 1, r.start);
        }
        sum += r.end - r.start + 1;
    }
    assert_eq!(sum, total);
}

#[test]
fn plan_single_worker_takes_everything() {
    let ranges = plan(10, 1);
    assert_eq!(ranges.len(), 1);
    assert_eq!(ranges[0].start, 0);
    assert_eq!(ranges[0].end, 9);
}

#[test]
fn plan_zero_size_is_empty() {
    let ranges = plan(0, 3);
    assert!(ranges.is_empty());
}

#[test]
fn plan_oversubscribed_drops_out_of_range_workers() {
    let ranges = plan(10, 100);
    assert_eq!(ranges.len(), 10);
    for (k, r) in ranges.iter().enumerate() {
        assert_eq!(r.start, k as u64);
        assert_eq!(r.end, k as u64);
    }
}
