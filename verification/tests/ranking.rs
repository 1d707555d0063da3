use pimon::ranking::{order_convert_string_num_map, sort_ranking};
use pimon::text::u64_to_string;

fn entries(pairs: &[(&str, u64)]) -> Vec<(String, u64)> {
    pairs.iter().map(|(label, count)| (label.to_string(), *count)).collect()
}

#[test]
fn ranking_sorts_by_count_desc_then_label_asc() {
    let map = entries(&[("c.com", 3), ("b.com", 5), ("a.com", 5)]);
    let rows = order_convert_string_num_map(&map);
    assert_eq!(
        rows,
        vec![
            vec!["a.com".to_string(), "5".to_string()],
            vec!["b.com".to_string(), "5".to_string()],
            vec!["c.com".to_string(), "3".to_string()],
        ]
    );
}

#[test]
fn ranking_empty_map_gives_no_rows() {
    let map: Vec<(String, u64)> = Vec::new();
    let rows = order_convert_string_num_map(&map);
    assert!(rows.is_empty());
}

#[test]
fn sort_ranking_orders_permutation() {
    let map = entries(&[("x", 1), ("a", 9), ("m", 4), ("b", 9), ("z", 9)]);
    let sorted = sort_ranking(&map);
    assert_eq!(sorted, entries(&[("a", 9), ("b", 9), ("z", 9), ("m", 4), ("x", 1)]));
}

#[test]
fn ranking_single_entry() {
    let map = entries(&[("only.example", 42)]);
    let rows = order_convert_string_num_map(&map);
    assert_eq!(rows, vec![vec!["only.example".to_string(), "42".to_string()]]);
}

#[test]
fn ranking_label_prefix_orders_before_longer_label() {
    let map = entries(&[("abc", 7), ("ab", 7)]);
    let rows = order_convert_string_num_map(&map);
    assert_eq!(
        rows,
        vec![
            vec!["ab".to_string(), "7".to_string()],
            vec!["abc".to_string(), "7".to_string()],
        ]
    );
}

#[test]
fn ranking_orders_labels_by_code_point() {
    let map = entries(&[("\u{e9}.com", 2), ("z.com", 2)]);
    let rows = order_convert_string_num_map(&map);
    assert_eq!(rows[0][0], "z.com");
    assert_eq!(rows[1][0], "\u{e9}.com");
}

#[test]
fn ranking_empty_label_sorts_first_among_ties() {
    let map = entries(&[("a", 3), ("", 3)]);
    let rows = order_convert_string_num_map(&map);
    assert_eq!(rows[0][0], "");
    assert_eq!(rows[1][0], "a");
}

#[test]
fn decimal_rendering_matches_std() {
    assert_eq!(u64_to_string(0), "0");
    assert_eq!(u64_to_string(7), "7");
    assert_eq!(u64_to_string(10), "10");
    assert_eq!(u64_to_string(90210), "90210");
    assert_eq!(u64_to_string(u64::MAX), u64::MAX.to_string());
}
