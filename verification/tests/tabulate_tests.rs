use hayashi::tabulate::{sorted_labels, tabulate_one, tabulate_two};
use hayashi::value::HayashiError;

fn strings(v: &[&str]) -> Vec<String> {
    v.iter().map(|s| s.to_string()).collect()
}

#[test]
fn one_way_counts_in_sorted_order() {
    let r = tabulate_one(&strings(&["b", "a", "b", "c", "b"]));
    assert_eq!(r, vec![("a".to_string(), 1), ("b".to_string(), 3), ("c".to_string(), 1)]);
    // law: the frequencies add up to the number of observations
    assert_eq!(r.iter().map(|p| p.1).sum::<u64>(), 5);
    assert!(tabulate_one(&vec![]).is_empty());
}

#[test]
fn labels_are_sorted_as_strings() {
    assert_eq!(sorted_labels(&strings(&["b", "B", "a", "b"])), strings(&["B", "a", "b"]));
    assert_eq!(sorted_labels(&strings(&["2", "10", "2", "1"])), strings(&["1", "10", "2"]));
}

#[test]
fn one_way_labels_b_a_b() {
    let r = tabulate_one(&strings(&["b", "a", "b"]));
    assert_eq!(r, vec![("a".to_string(), 1), ("b".to_string(), 2)]);
}

#[test]
fn two_way_cells_and_margins() {
    let t = tabulate_two(&strings(&["m", "f", "m", "m"]), &strings(&["y", "y", "n", "y"]), false).ok().unwrap();
    assert_eq!(t.rows, strings(&["f", "m"]));
    assert_eq!(t.cols, strings(&["n", "y"]));
    assert_eq!(t.cells, vec![vec![0, 1], vec![1, 2]]);
    assert_eq!(t.row_totals, vec![1, 3]);
    assert_eq!(t.col_totals, vec![1, 3]);
    assert_eq!(t.chi2_df, None);
    // law: each margin is the sum of its cells and both add up to n
    for (i, row) in t.cells.iter().enumerate() {
        assert_eq!(row.iter().sum::<u64>(), t.row_totals[i]);
    }
    assert_eq!(t.row_totals.iter().sum::<u64>(), 4);
    assert_eq!(t.col_totals.iter().sum::<u64>(), 4);
}

#[test]
fn two_way_needs_equal_lengths() {
    match tabulate_two(&strings(&["a"]), &strings(&["x", "y"]), true) {
        Err(HayashiError::Runtime(m)) => assert_eq!(m, "columns have different lengths"),
        _ => panic!("expected an error"),
    }
}

#[test]
fn two_way_with_chi_square_degrees_of_freedom() {
    let t = tabulate_two(&strings(&["a", "a", "b"]), &strings(&["x", "y", "y"]), true).ok().unwrap();
    assert_eq!(t.rows, strings(&["a", "b"]));
    assert_eq!(t.cols, strings(&["x", "y"]));
    assert_eq!(t.cells, vec![vec![1, 1], vec![0, 1]]);
    assert_eq!(t.row_totals, vec![2, 1]);
    assert_eq!(t.col_totals, vec![1, 2]);
    assert_eq!(t.chi2_df, Some(1));
}

#[test]
fn two_way_of_empty_columns_with_chi_square() {
    let t = tabulate_two(&vec![], &vec![], true).ok().unwrap();
    assert!(t.rows.is_empty() && t.cols.is_empty() && t.cells.is_empty());
    assert_eq!(t.chi2_df, Some(1));
}
