use hayashi::interp::Interpreter;
use hayashi::value::HayashiError;

fn runtime_message(e: HayashiError) -> String {
    match e {
        HayashiError::Runtime(m) => m,
        _ => panic!("expected a runtime error"),
    }
}

#[test]
fn ranksum_distinct_values() {
    let r = Interpreter::ranksum(&vec![1, 2, 3, 4], &vec![0, 0, 1, 1]).ok().unwrap();
    assert_eq!((r.group0, r.group1, r.n1, r.n2), (0, 1, 2, 2));
    assert_eq!(r.w1_twice, 6);
    assert_eq!(r.w2_twice, 14);
    assert_eq!(r.u1_twice, 0);
    assert_eq!(r.u2_twice, 8);
    assert_eq!(r.u_twice, 0);
}

#[test]
fn ranksum_ties_share_mid_ranks() {
    let r = Interpreter::ranksum(&vec![1, 1, 2, 3], &vec![5, 7, 5, 7]).ok().unwrap();
    assert_eq!((r.group0, r.group1), (5, 7));
    assert_eq!(r.w1_twice, 9);
    assert_eq!(r.w2_twice, 11);
    assert_eq!(r.u1_twice, 3);
    assert_eq!(r.u2_twice, 5);
    assert_eq!(r.u_twice, 3);
    // law: U1 + U2 = n1 * n2, doubled
    assert_eq!(r.u1_twice + r.u2_twice, 2 * (r.n1 as i128) * (r.n2 as i128));
}

#[test]
fn ranksum_groups_in_key_order() {
    let r = Interpreter::ranksum(&vec![7, 8, 9], &vec![3, -2, 3]).ok().unwrap();
    assert_eq!((r.group0, r.group1, r.n1, r.n2), (-2, 3, 1, 2));
    assert_eq!(r.w1_twice, 4);
}

#[test]
fn ranksum_needs_two_groups() {
    let e = Interpreter::ranksum(&vec![1, 2, 3], &vec![1, 2, 3]).err().unwrap();
    assert_eq!(runtime_message(e), "ranksum: by= must have exactly 2 unique groups; found 3");
    let e = Interpreter::ranksum(&vec![1, 2], &vec![4, 4]).err().unwrap();
    assert_eq!(runtime_message(e), "ranksum: by= must have exactly 2 unique groups; found 1");
    let e = Interpreter::ranksum(&vec![], &vec![]).err().unwrap();
    assert_eq!(runtime_message(e), "ranksum: by= must have exactly 2 unique groups; found 0");
}

#[test]
fn signrank_with_ties_and_zeros() {
    let r = Interpreter::signrank(&vec![3, -1, 0, 2, -2]).ok().unwrap();
    assert_eq!(r.n, 4);
    assert_eq!(r.w_plus_twice, 13);
    assert_eq!(r.w_minus_twice, 7);
    assert_eq!(r.w_twice, 7);
    // law: W+ + W- = n (n + 1) / 2, doubled
    assert_eq!(r.w_plus_twice + r.w_minus_twice, (r.n as u128) * (r.n as u128 + 1));
}

#[test]
fn signrank_all_zero_is_refused() {
    let e = Interpreter::signrank(&vec![0, 0]).err().unwrap();
    assert_eq!(runtime_message(e), "signrank: all diffs are zero");
    let e = Interpreter::signrank(&vec![]).err().unwrap();
    assert_eq!(runtime_message(e), "signrank: all diffs are zero");
}

#[test]
fn bitest_counts_signs() {
    let c = Interpreter::bitest(&vec![3, -1, 0, 2, -2]);
    assert_eq!((c.positive, c.negative, c.ties, c.n_eff), (2, 2, 1, 4));
    let c = Interpreter::bitest(&vec![]);
    assert_eq!((c.positive, c.negative, c.ties, c.n_eff), (0, 0, 0, 0));
}

#[test]
fn kruskal_groups_sorted_with_rank_sums() {
    let g = Interpreter::kruskal(&vec![10, 20, 30, 40, 50], &vec![2, 1, 2, 1, 3]).ok().unwrap();
    assert_eq!(g.len(), 3);
    assert_eq!((g[0].key, g[0].n, g[0].rank_sum_twice), (1, 2, 12));
    assert_eq!((g[1].key, g[1].n, g[1].rank_sum_twice), (2, 2, 8));
    assert_eq!((g[2].key, g[2].n, g[2].rank_sum_twice), (3, 1, 10));
    // law: the group rank sums add up to N (N + 1) / 2, doubled
    let total: u128 = g.iter().map(|x| x.rank_sum_twice).sum();
    assert_eq!(total, 30);
}

#[test]
fn kruskal_needs_two_groups() {
    let e = Interpreter::kruskal(&vec![1, 2], &vec![9, 9]).err().unwrap();
    assert_eq!(runtime_message(e), "kruskal: precisa de pelo menos 2 grupos");
}

#[test]
fn spearman_ranks_the_common_prefix() {
    let (rx, ry) = Interpreter::spearman(&vec![1, 2, 3, 4], &vec![4, 3, 2]).ok().unwrap();
    assert_eq!(rx, vec![2, 4, 6]);
    assert_eq!(ry, vec![6, 4, 2]);
    let (rx, _) = Interpreter::spearman(&vec![5, 5, 1], &vec![0, 0, 0]).ok().unwrap();
    assert_eq!(rx, vec![5, 5, 2]);
}

#[test]
fn spearman_needs_three_rows() {
    let e = Interpreter::spearman(&vec![1, 2], &vec![1, 2, 3]).err().unwrap();
    assert_eq!(runtime_message(e), "spearman: n < 3");
}
