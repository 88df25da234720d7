use page_replacements::{collect_results, table_sizes, validate_table_size, Error, HitRate};

#[test]
fn table_sizes_inclusive_range() {
    assert_eq!(table_sizes(3, Some(6)), Ok(vec![3, 4, 5, 6]));
    assert_eq!(table_sizes(4, None), Ok(vec![4]));
    assert_eq!(table_sizes(4, Some(4)), Ok(vec![4]));
}

#[test]
fn table_sizes_errors() {
    assert_eq!(table_sizes(0, Some(3)), Err(Error::ZeroTableSize));
    assert_eq!(table_sizes(5, Some(4)), Err(Error::InvalidRange));
}

fn rate(hits: u64) -> Option<HitRate> {
    Some(HitRate { hits, requests: 10 })
}

#[test]
fn results_come_out_in_size_order() {
    let finished = vec![(5, rate(5)), (3, rate(3)), (6, rate(6)), (4, rate(4))];
    let ordered = collect_results(3, 6, &finished).unwrap();
    assert_eq!(ordered, vec![(3, rate(3)), (4, rate(4)), (5, rate(5)), (6, rate(6))]);
    let other_order = vec![(6, rate(6)), (4, rate(4)), (3, rate(3)), (5, rate(5))];
    assert_eq!(collect_results(3, 6, &other_order).unwrap(), ordered);
}

#[test]
fn results_missing_a_size() {
    let finished = vec![(5, rate(5)), (3, rate(3)), (6, rate(6))];
    assert_eq!(collect_results(3, 6, &finished), None);
}

#[test]
fn results_keep_undefined_rate() {
    let finished = vec![(2, None), (1, rate(1))];
    assert_eq!(collect_results(1, 2, &finished), Some(vec![(1, rate(1)), (2, None)]));
}

#[test]
fn validate_table_size_messages() {
    assert_eq!(validate_table_size("8".to_string()), Ok(()));
    assert_eq!(
        validate_table_size("0".to_string()),
        Err("Please give a number over 0".to_string())
    );
    assert_eq!(
        validate_table_size("eight".to_string()),
        Err("Please give a number".to_string())
    );
    assert_eq!(
        validate_table_size("-1".to_string()),
        Err("Please give a number".to_string())
    );
}

#[test]
fn table_sizes_at_the_top_of_the_range() {
    assert_eq!(table_sizes(usize::MAX, None), Ok(vec![usize::MAX]));
    assert_eq!(
        table_sizes(usize::MAX - 1, Some(usize::MAX)),
        Ok(vec![usize::MAX - 1, usize::MAX])
    );
}

#[test]
fn results_first_entry_wins_for_a_size() {
    let finished = vec![(1, rate(7)), (1, rate(2))];
    assert_eq!(collect_results(1, 1, &finished), Some(vec![(1, rate(7))]));
}
