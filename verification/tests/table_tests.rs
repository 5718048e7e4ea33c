use turnover::table::{
    column_mask, contains_index, omitted_columns, text_without_columns, values_without_columns,
};

fn row(fields: &[&str]) -> Vec<String> {
    fields.iter().map(|f| f.to_string()).collect()
}

#[test]
fn values_without_columns_keeps_the_rest_in_order() {
    let mask = vec![false, true, false, true, false];
    assert_eq!(values_without_columns(&vec![10, 11, 12, 13, 14], &mask), vec![10, 12, 14]);
    assert_eq!(values_without_columns(&vec![10, 11], &mask), vec![10]);
    assert_eq!(values_without_columns(&vec![10, 11, 12, 13, 14, 15, 16], &mask), vec![10, 12, 14, 15, 16]);
    assert_eq!(values_without_columns(&Vec::<u64>::new(), &mask), Vec::<u64>::new());
}

#[test]
fn text_without_columns_keeps_the_rest_in_order() {
    let mask = vec![true, false, false, true];
    assert_eq!(text_without_columns(&row(&["a", "b", "c", "d", "e"]), &mask), row(&["b", "c", "e"]));
    assert_eq!(text_without_columns(&row(&["a", "b"]), &Vec::new()), row(&["a", "b"]));
}

#[test]
fn column_mask_sets_the_shifted_positions() {
    assert_eq!(
        column_mask(&vec![2, 0], 3, 7),
        vec![false, false, false, true, false, true, false]
    );
    assert_eq!(column_mask(&vec![5], 3, 4), vec![false, false, false, false]);
    assert_eq!(column_mask(&vec![], 3, 2), vec![false, false]);
    assert_eq!(column_mask(&vec![0], 0, 0), Vec::<bool>::new());
}

#[test]
fn contains_index_finds_what_is_listed() {
    assert!(contains_index(&vec![4, 2, 9], 9));
    assert!(!contains_index(&vec![4, 2, 9], 3));
    assert!(!contains_index(&vec![], 0));
}

#[test]
fn omitted_columns_counts_each_position_once() {
    assert_eq!(omitted_columns(&vec![2, 0, 2], 3, 7), 2);
    assert_eq!(omitted_columns(&vec![4, 9], 3, 7), 0);
    assert_eq!(omitted_columns(&vec![0, 1, 2, 3], 3, 7), 4);
    assert_eq!(omitted_columns(&vec![0], 3, 3), 0);
    assert_eq!(omitted_columns(&vec![], 0, 5), 0);
}
