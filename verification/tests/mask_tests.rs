use hayashi::masks::{mask_positions, replace_values};

#[test]
fn filter_keeps_selected_rows_in_order() {
    let mask = vec![true, false, true, true, false];
    assert_eq!(mask_positions(&mask), vec![0, 2, 3]);
    assert_eq!(mask_positions(&vec![false, false]), Vec::<usize>::new());
    assert_eq!(mask_positions(&Vec::new()), Vec::<usize>::new());
}

#[test]
fn replace_takes_new_values_where_selected() {
    let mask = vec![true, false, true];
    let old = vec![1.0_f64, 2.0, 3.0];
    let new = vec![10.0_f64, 20.0, 30.0];
    let (vals, changes) = replace_values(&mask, &old, &new);
    assert_eq!(vals, vec![10.0, 2.0, 30.0]);
    assert_eq!(changes, 2);
}

#[test]
fn replace_stops_at_the_shortest_column() {
    let mask = vec![false, true, true];
    let old = vec![1_i64, 2];
    let new = vec![7_i64, 8, 9];
    let (vals, changes) = replace_values(&mask, &old, &new);
    assert_eq!(vals, vec![1, 8]);
    assert_eq!(changes, 2);
}

#[test]
fn filter_keeps_as_many_rows_as_replace_reports() {
    let mask = vec![true, true, false, true];
    let kept = mask_positions(&mask);
    let (_, changes) = replace_values(&mask, &vec![0_i64; 4], &vec![1_i64; 4]);
    assert_eq!(kept.len(), changes);
}
