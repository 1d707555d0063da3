use pimon::chart::{format_chart_labels, prepare_chart_rows, sort_queries_descending,
    MAX_LABEL_TIMESTAMP};

#[test]
fn labels_are_utc_hour_and_minute() {
    let buckets: Vec<(i64, u64)> = vec![(0, 1), (45296, 2), (86399, 3), (86400, 4)];
    let rows = format_chart_labels(&buckets);
    assert_eq!(
        rows,
        vec![
            ("00:00".to_string(), 1),
            ("12:34".to_string(), 2),
            ("23:59".to_string(), 3),
            ("00:00".to_string(), 4),
        ]
    );
}

#[test]
fn sort_descending_orders_by_timestamp() {
    let series: Vec<(i64, u64)> = vec![(3, 30), (1, 10), (5, 50), (2, 20), (4, 40)];
    let sorted = sort_queries_descending(&series);
    assert_eq!(sorted, vec![(5, 50), (4, 40), (3, 30), (2, 20), (1, 10)]);
}

#[test]
fn prepare_sorts_squashes_and_labels() {
    // 01:00, 02:00, 03:00 given out of order; factor 2 groups the two most
    // recent samples and leaves the oldest as a partial bucket.
    let series: Vec<(i64, u64)> = vec![(3600, 2), (10800, 5), (7200, 3)];
    let rows = prepare_chart_rows(&series, 2).unwrap();
    assert_eq!(rows, vec![("03:00".to_string(), 8), ("01:00".to_string(), 2)]);
}

#[test]
fn prepare_with_factor_one_keeps_every_sample() {
    let series: Vec<(i64, u64)> = vec![(60, 1), (120, 2)];
    let rows = prepare_chart_rows(&series, 1).unwrap();
    assert_eq!(rows, vec![("00:02".to_string(), 2), ("00:01".to_string(), 1)]);
}

#[test]
fn prepare_rejects_factor_zero() {
    let series: Vec<(i64, u64)> = vec![(60, 1)];
    assert!(prepare_chart_rows(&series, 0).is_none());
}

#[test]
fn prepare_rejects_unlabelable_timestamps() {
    let before_epoch: Vec<(i64, u64)> = vec![(-1, 1)];
    assert!(prepare_chart_rows(&before_epoch, 1).is_none());
    let beyond_range: Vec<(i64, u64)> = vec![(MAX_LABEL_TIMESTAMP + 1, 1)];
    assert!(prepare_chart_rows(&beyond_range, 1).is_none());
}

#[test]
fn prepare_rejects_total_count_overflow() {
    let series: Vec<(i64, u64)> = vec![(60, u64::MAX), (120, 1)];
    assert!(prepare_chart_rows(&series, 1).is_none());
}

#[test]
fn prepare_empty_series() {
    let series: Vec<(i64, u64)> = Vec::new();
    let rows = prepare_chart_rows(&series, 4).unwrap();
    assert!(rows.is_empty());
}
