use pimon::series::squash_queries_over_time;

#[test]
fn squash_groups_of_two_with_trailing_partial() {
    let series: Vec<(i64, u64)> = vec![(5, 10), (4, 20), (3, 5), (2, 1), (1, 1)];
    let squashed = squash_queries_over_time(&series, 2);
    assert_eq!(squashed, vec![(5, 30), (3, 6), (1, 1)]);
}

#[test]
fn squash_factor_one_is_identity() {
    let series: Vec<(i64, u64)> = vec![(5, 10), (4, 20), (3, 5), (2, 1), (1, 1)];
    let squashed = squash_queries_over_time(&series, 1);
    assert_eq!(squashed, series);
}

#[test]
fn squash_factor_three_keeps_partial_group() {
    let series: Vec<(i64, u64)> = vec![(5, 10), (4, 20), (3, 5), (2, 1), (1, 1)];
    let squashed = squash_queries_over_time(&series, 3);
    assert_eq!(squashed, vec![(5, 35), (2, 2)]);
}

#[test]
fn squash_empty_series() {
    let series: Vec<(i64, u64)> = Vec::new();
    let squashed = squash_queries_over_time(&series, 2);
    assert_eq!(squashed, Vec::<(i64, u64)>::new());
}

#[test]
fn squash_factor_beyond_length_yields_one_bucket() {
    let series: Vec<(i64, u64)> = vec![(5, 10), (4, 20), (3, 5), (2, 1), (1, 1)];
    let squashed = squash_queries_over_time(&series, 10);
    assert_eq!(squashed, vec![(5, 37)]);
}

#[test]
fn squash_exact_multiple_of_factor() {
    let series: Vec<(i64, u64)> = vec![(8, 1), (6, 2), (4, 3), (2, 4)];
    let squashed = squash_queries_over_time(&series, 2);
    assert_eq!(squashed, vec![(8, 3), (4, 7)]);
}
