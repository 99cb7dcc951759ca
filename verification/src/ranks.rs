//! Mid-ranks with ties and the rank sums of the Wilcoxon and Mann-Whitney
//! tests, in exact integer arithmetic.
//!
//! Observations arrive as integer keys that order them as the data does
//! (equal keys are ties). Every rank is kept doubled, so that mid-ranks of
//! tied groups stay integers: twice the mid-rank of `x` among `s` is
//! `2 * below + equal + 1`, where `below` counts the entries under `x` and
//! `equal` those equal to it.
use crate::options::{distinct_in_order, find_int, lemma_distinct_facts, lemma_pos_in};
use crate::text::{decimal, nat_to_string};
use crate::value::{ErrV, HayashiError};
use vstd::prelude::*;

verus! {

/// Entries of `s` strictly below `x`.
pub open spec fn count_below(s: Seq<int>, x: int) -> nat
    decreases s.len(),
{
    if s.len() == 0 {
        0
    } else {
        count_below(s.drop_last(), x) + if s.last() < x { 1nat } else { 0nat }
    }
}

/// Entries of `s` equal to `x`.
pub open spec fn count_equal(s: Seq<int>, x: int) -> nat
    decreases s.len(),
{
    if s.len() == 0 {
        0
    } else {
        count_equal(s.drop_last(), x) + if s.last() == x { 1nat } else { 0nat }
    }
}

/// Entries of `s` strictly above `x`.
pub open spec fn count_above(s: Seq<int>, x: int) -> nat
    decreases s.len(),
{
    if s.len() == 0 {
        0
    } else {
        count_above(s.drop_last(), x) + if s.last() > x { 1nat } else { 0nat }
    }
}

/// Twice the mid-rank of `x` among `s`: the tied group of `x` takes the
/// positions `below + 1 ..= below + equal`, and shares their mean.
pub open spec fn twice_rank(s: Seq<int>, x: int) -> nat {
    2 * count_below(s, x) + count_equal(s, x) + 1
}

/// The sum, over the entries of `sub`, of their doubled mid-ranks in `all`.
pub open spec fn twice_rank_sum(all: Seq<int>, sub: Seq<int>) -> nat
    decreases sub.len(),
{
    if sub.len() == 0 {
        0
    } else {
        twice_rank_sum(all, sub.drop_last()) + twice_rank(all, sub.last())
    }
}

/// The sum over `sub` of the entries of `all` below each of them.
pub open spec fn below_sum(all: Seq<int>, sub: Seq<int>) -> nat
    decreases sub.len(),
{
    if sub.len() == 0 {
        0
    } else {
        below_sum(all, sub.drop_last()) + count_below(all, sub.last())
    }
}

/// The sum over `sub` of the entries of `all` equal to each of them.
pub open spec fn equal_sum(all: Seq<int>, sub: Seq<int>) -> nat
    decreases sub.len(),
{
    if sub.len() == 0 {
        0
    } else {
        equal_sum(all, sub.drop_last()) + count_equal(all, sub.last())
    }
}

/// Integer keys as mathematical integers.
pub open spec fn wide(s: Seq<i128>) -> Seq<int> {
    s.map_values(|v: i128| v as int)
}

/// The largest number of rows a column can hold.
pub open spec fn max_rows() -> int {
    0x1000_0000_0000_0000
}

proof fn lemma_counts_push(s: Seq<int>, y: int, x: int)
    ensures
        count_below(s.push(y), x) == count_below(s, x) + if y < x { 1nat } else { 0nat },
        count_equal(s.push(y), x) == count_equal(s, x) + if y == x { 1nat } else { 0nat },
        count_above(s.push(y), x) == count_above(s, x) + if y > x { 1nat } else { 0nat },
{
    assert(s.push(y).drop_last() =~= s);
}

proof fn lemma_counts_total(s: Seq<int>, x: int)
    ensures
        count_below(s, x) + count_equal(s, x) + count_above(s, x) == s.len(),
    decreases s.len(),
{
    if s.len() > 0 {
        lemma_counts_total(s.drop_last(), x);
    }
}

proof fn lemma_sums_push_all(all: Seq<int>, y: int, sub: Seq<int>)
    ensures
        below_sum(all.push(y), sub) == below_sum(all, sub) + count_above(sub, y),
        equal_sum(all.push(y), sub) == equal_sum(all, sub) + count_equal(sub, y),
    decreases sub.len(),
{
    if sub.len() > 0 {
        lemma_sums_push_all(all, y, sub.drop_last());
        lemma_counts_push(all, y, sub.last());
    }
}

proof fn lemma_self_sums(s: Seq<int>)
    ensures
        2 * below_sum(s, s) + equal_sum(s, s) == s.len() * s.len(),
    decreases s.len(),
{
    if s.len() > 0 {
        let p = s.drop_last();
        let y = s.last();
        assert(p.push(y) =~= s);
        lemma_self_sums(p);
        lemma_sums_push_all(p, y, p);
        lemma_counts_push(p, y, y);
        lemma_counts_total(p, y);
        let n = p.len() as int;
        assert((n + 1) * (n + 1) == n * n + 2 * n + 1) by (nonlinear_arith);
    }
}

proof fn lemma_rank_sum_parts(all: Seq<int>, sub: Seq<int>)
    ensures
        twice_rank_sum(all, sub) == 2 * below_sum(all, sub) + equal_sum(all, sub) + sub.len(),
    decreases sub.len(),
{
    if sub.len() > 0 {
        lemma_rank_sum_parts(all, sub.drop_last());
    }
}

proof fn lemma_counts_concat(a: Seq<int>, b: Seq<int>, x: int)
    ensures
        count_below(a + b, x) == count_below(a, x) + count_below(b, x),
        count_equal(a + b, x) == count_equal(a, x) + count_equal(b, x),
    decreases b.len(),
{
    if b.len() == 0 {
        assert(a + b =~= a);
    } else {
        assert((a + b).drop_last() =~= a + b.drop_last());
        lemma_counts_concat(a, b.drop_last(), x);
    }
}

proof fn lemma_sums_concat_all(a: Seq<int>, b: Seq<int>, sub: Seq<int>)
    ensures
        below_sum(a + b, sub) == below_sum(a, sub) + below_sum(b, sub),
        equal_sum(a + b, sub) == equal_sum(a, sub) + equal_sum(b, sub),
    decreases sub.len(),
{
    if sub.len() > 0 {
        lemma_sums_concat_all(a, b, sub.drop_last());
        lemma_counts_concat(a, b, sub.last());
    }
}

proof fn lemma_rank_sum_concat_sub(all: Seq<int>, a: Seq<int>, b: Seq<int>)
    ensures
        twice_rank_sum(all, a + b) == twice_rank_sum(all, a) + twice_rank_sum(all, b),
    decreases b.len(),
{
    if b.len() == 0 {
        assert(a + b =~= a);
    } else {
        assert((a + b).drop_last() =~= a + b.drop_last());
        lemma_rank_sum_concat_sub(all, a, b.drop_last());
    }
}

/// The mid-ranks of a sample add up to `1 + 2 + ... + n`: doubled, the
/// rank sum of `s` within itself is `n * (n + 1)`.
pub proof fn lemma_rank_total(s: Seq<int>)
    ensures
        twice_rank_sum(s, s) == s.len() * (s.len() + 1),
{
    lemma_rank_sum_parts(s, s);
    lemma_self_sums(s);
    let n = s.len() as int;
    assert(n * (n + 1) == n * n + n) by (nonlinear_arith);
}

/// In a pooled sample `a + b`, the rank sums of the two parts add up to the
/// rank sum of the whole, and each part ranks at least as high as it would
/// alone: doubled, `n1 * (n1 + 1) <= W1` and `n2 * (n2 + 1) <= W2`.
pub proof fn lemma_rank_sum_bounds(a: Seq<int>, b: Seq<int>)
    ensures
        twice_rank_sum(a + b, a) + twice_rank_sum(a + b, b) == (a.len() + b.len()) * (a.len()
            + b.len() + 1),
        a.len() * (a.len() + 1) <= twice_rank_sum(a + b, a),
        b.len() * (b.len() + 1) <= twice_rank_sum(a + b, b),
{
    lemma_rank_sum_concat_sub(a + b, a, b);
    lemma_rank_total(a + b);
    lemma_rank_sum_parts(a + b, a);
    lemma_rank_sum_parts(a + b, b);
    lemma_sums_concat_all(a, b, a);
    lemma_sums_concat_all(a, b, b);
    lemma_rank_sum_parts(a, a);
    lemma_rank_sum_parts(b, b);
    lemma_rank_total(a);
    lemma_rank_total(b);
}


/// The values `y[i]`, for `i < k`, whose group key `groups[i]` is `g`.
pub open spec fn select(y: Seq<i64>, groups: Seq<i64>, g: i64, k: int) -> Seq<int>
    decreases k,
{
    if k <= 0 {
        Seq::empty()
    } else {
        let p = select(y, groups, g, k - 1);
        if groups[k - 1] == g {
            p.push(y[k - 1] as int)
        } else {
            p
        }
    }
}

/// The values of the group with key `g`.
pub open spec fn group_values(y: Seq<i64>, groups: Seq<i64>, g: i64) -> Seq<int> {
    select(y, groups, g, y.len() as int)
}

/// The smaller of the first two keys of `d`.
pub open spec fn lower_key(d: Seq<i64>) -> i64 {
    if d[0] <= d[1] { d[0] } else { d[1] }
}

/// The larger of the first two keys of `d`.
pub open spec fn upper_key(d: Seq<i64>) -> i64 {
    if d[0] <= d[1] { d[1] } else { d[0] }
}

/// Why a rank-sum comparison of `y` by `groups` is refused, if it is.
pub open spec fn ranksum_refusal(y: Seq<i64>, groups: Seq<i64>) -> Option<ErrV> {
    let d = distinct_in_order(groups);
    if d.len() != 2 {
        Some(
            ErrV::Runtime(
                "ranksum: by= must have exactly 2 unique groups; found "@ + decimal(d.len() as int),
            ),
        )
    } else if group_values(y, groups, lower_key(d)).len() == 0 || group_values(
        y,
        groups,
        upper_key(d),
    ).len() == 0 {
        Some(ErrV::Runtime("ranksum: one of the groups is empty"@))
    } else {
        None
    }
}

/// Doubled Mann-Whitney statistics of a two-group comparison. Group 0 is
/// the group with the smaller key.
pub struct RankSum {
    pub group0: i64,
    pub group1: i64,
    pub n1: u64,
    pub n2: u64,
    /// Twice the rank sum of group 0 in the pooled sample.
    pub w1_twice: u128,
    /// Twice the rank sum of group 1.
    pub w2_twice: u128,
    /// Twice `U1 = W1 - n1 (n1 + 1) / 2`.
    pub u1_twice: i128,
    /// Twice `U2 = n1 n2 - U1`.
    pub u2_twice: i128,
    /// Twice `min(U1, U2)`.
    pub u_twice: i128,
}

/// What a rank-sum comparison that is not refused reports.
pub open spec fn ranksum_holds(y: Seq<i64>, groups: Seq<i64>, s: RankSum) -> bool {
    let d = distinct_in_order(groups);
    let a = group_values(y, groups, lower_key(d));
    let b = group_values(y, groups, upper_key(d));
    let m = a.len() + b.len();
    let w1 = twice_rank_sum(a + b, a);
    let u1 = w1 - a.len() * (a.len() + 1);
    let u2 = 2 * a.len() * b.len() - u1;
    &&& s.group0 == lower_key(d)
    &&& s.group1 == upper_key(d)
    &&& s.n1 == a.len()
    &&& s.n2 == b.len()
    &&& s.w1_twice == w1
    &&& s.w2_twice == m * (m + 1) - w1
    &&& s.u1_twice == u1
    &&& s.u2_twice == u2
    &&& s.u_twice == if u1 <= u2 { u1 } else { u2 }
}

proof fn lemma_select_lens(y: Seq<i64>, groups: Seq<i64>, g: i64, h: i64, k: int)
    requires
        g != h,
        0 <= k,
    ensures
        select(y, groups, g, k).len() + select(y, groups, h, k).len() <= k,
    decreases k,
{
    if k > 0 {
        lemma_select_lens(y, groups, g, h, k - 1);
    }
}

fn counts_in(all: &Vec<i128>, x: i128) -> (r: (u64, u64))
    requires
        all@.len() <= max_rows(),
    ensures
        r.0 == count_below(wide(all@), x as int),
        r.1 == count_equal(wide(all@), x as int),
{
    let ghost w = wide(all@);
    let mut below: u64 = 0;
    let mut equal: u64 = 0;
    let mut i: usize = 0;
    while i < all.len()
        invariant
            i <= all@.len(),
            all@.len() <= max_rows(),
            w == wide(all@),
            below == count_below(w.take(i as int), x as int),
            equal == count_equal(w.take(i as int), x as int),
            below + equal <= i,
        decreases all@.len() - i,
    {
        proof {
            assert(w.take(i + 1).drop_last() =~= w.take(i as int));
            assert(w.take(i + 1).last() == all@[i as int] as int);
        }
        if all[i] < x {
            below = below + 1;
        } else if all[i] == x {
            equal = equal + 1;
        }
        i = i + 1;
    }
    proof {
        assert(w.take(all@.len() as int) =~= w);
    }
    (below, equal)
}

/// Twice the rank sum, within `all`, of the entries of `sub`.
fn rank_sum_in(all: &Vec<i128>, sub: &Vec<i128>) -> (r: u128)
    requires
        all@.len() <= max_rows(),
        sub@.len() <= max_rows(),
    ensures
        r == twice_rank_sum(wide(all@), wide(sub@)),
{
    let ghost w = wide(all@);
    let ghost ws = wide(sub@);
    let mut acc: u128 = 0;
    let mut i: usize = 0;
    while i < sub.len()
        invariant
            i <= sub@.len(),
            sub@.len() <= max_rows(),
            all@.len() <= max_rows(),
            w == wide(all@),
            ws == wide(sub@),
            acc == twice_rank_sum(w, ws.take(i as int)),
            acc <= i * (2 * all@.len() + 1),
        decreases sub@.len() - i,
    {
        let (b, e) = counts_in(all, sub[i]);
        proof {
            lemma_counts_total(w, sub@[i as int] as int);
            assert(ws.take(i + 1).drop_last() =~= ws.take(i as int));
            assert(ws.take(i + 1).last() == sub@[i as int] as int);
            let l = all@.len() as int;
            let j = i as int;
            assert((j + 1) * (2 * l + 1) == j * (2 * l + 1) + 2 * l + 1) by (nonlinear_arith);
            assert((j + 1) * (2 * l + 1) <= max_rows() * (2 * max_rows() + 1)) by (nonlinear_arith)
                requires
                    j + 1 <= max_rows(),
                    0 <= l <= max_rows(),
            ;
        }
        acc = acc + 2 * (b as u128) + (e as u128) + 1;
        i = i + 1;
    }
    proof {
        assert(ws.take(sub@.len() as int) =~= ws);
    }
    acc
}

/// The distinct keys in order of first appearance.
fn distinct_keys(keys: &Vec<i64>) -> (d: Vec<i64>)
    ensures
        d@ == distinct_in_order(keys@),
        d@.len() <= keys@.len(),
{
    let mut seen: Vec<i64> = Vec::new();
    let mut i: usize = 0;
    while i < keys.len()
        invariant
            i <= keys@.len(),
            seen@ == distinct_in_order(keys@.take(i as int)),
            seen@.len() <= i,
        decreases keys@.len() - i,
    {
        let k = keys[i];
        assert(keys@.take(i + 1).drop_last() =~= keys@.take(i as int));
        assert(keys@.take(i + 1).last() == k);
        match find_int(&seen, k) {
            Some(_) => {
                proof {
                    lemma_pos_in(seen@, k);
                }
            },
            None => {
                seen.push(k);
            },
        }
        i = i + 1;
    }
    assert(keys@.take(keys@.len() as int) =~= keys@);
    seen
}

/// The values of the group with key `g`, widened.
fn select_group(y: &Vec<i64>, groups: &Vec<i64>, g: i64) -> (s: Vec<i128>)
    requires
        y@.len() == groups@.len(),
    ensures
        wide(s@) == group_values(y@, groups@, g),
        s@.len() <= y@.len(),
{
    let mut s: Vec<i128> = Vec::new();
    let mut i: usize = 0;
    while i < y.len()
        invariant
            i <= y@.len(),
            y@.len() == groups@.len(),
            wide(s@) == select(y@, groups@, g, i as int),
            s@.len() <= i,
        decreases y@.len() - i,
    {
        if groups[i] == g {
            let ghost before = s@;
            s.push(y[i] as i128);
            proof {
                assert(wide(s@) =~= wide(before).push(y@[i as int] as int));
            }
        }
        i = i + 1;
    }
    s
}

/// `a` followed by `b`.
fn pooled(a: &Vec<i128>, b: &Vec<i128>) -> (p: Vec<i128>)
    ensures
        wide(p@) == wide(a@) + wide(b@),
        p@.len() == a@.len() + b@.len(),
{
    let mut p: Vec<i128> = Vec::new();
    let mut i: usize = 0;
    while i < a.len()
        invariant
            i <= a@.len(),
            p@ == a@.take(i as int),
        decreases a@.len() - i,
    {
        p.push(a[i]);
        i = i + 1;
        assert(p@ =~= a@.take(i as int));
    }
    let mut j: usize = 0;
    assert(a@.take(a@.len() as int) =~= a@);
    while j < b.len()
        invariant
            j <= b@.len(),
            p@ == a@ + b@.take(j as int),
        decreases b@.len() - j,
    {
        p.push(b[j]);
        j = j + 1;
        assert(p@ =~= a@ + b@.take(j as int));
    }
    assert(b@.take(b@.len() as int) =~= b@);
    assert(wide(p@) =~= wide(a@) + wide(b@));
    p
}

impl crate::interp::Interpreter {
    /// Mann-Whitney U / Wilcoxon rank-sum comparison of `y` between the two
    /// groups named by `groups` (one key per observation).
    pub fn ranksum(y: &Vec<i64>, groups: &Vec<i64>) -> (r: Result<RankSum, HayashiError>)
        requires
            y@.len() == groups@.len(),
            y@.len() <= max_rows(),
        ensures
            match r {
                Ok(s) => ranksum_refusal(y@, groups@) is None && ranksum_holds(y@, groups@, s),
                Err(e) => ranksum_refusal(y@, groups@) == Some(e@),
            },
    {
        let d = distinct_keys(groups);
        if d.len() != 2 {
            proof {
                reveal_strlit("ranksum: by= must have exactly 2 unique groups; found ");
            }
            return Err(
                HayashiError::Runtime(
                    String::from_str("ranksum: by= must have exactly 2 unique groups; found ").concat(
                        nat_to_string(d.len() as u64).as_str(),
                    ),
                ),
            );
        }
        let lo = if d[0] <= d[1] { d[0] } else { d[1] };
        let hi = if d[0] <= d[1] { d[1] } else { d[0] };
        let a = select_group(y, groups, lo);
        let b = select_group(y, groups, hi);
        if a.len() < 1 || b.len() < 1 {
            return Err(HayashiError::Runtime(String::from_str("ranksum: one of the groups is empty")));
        }
        proof {
            assert(d@[0] != d@[1]) by {
                lemma_distinct_facts(groups@);
            }
            lemma_select_lens(y@, groups@, lo, hi, y@.len() as int);
        }
        let all = pooled(&a, &b);
        let w1 = rank_sum_in(&all, &a);
        let n1 = a.len() as u64;
        let n2 = b.len() as u64;
        let m = all.len() as u128;
        proof {
            lemma_rank_sum_bounds(wide(a@), wide(b@));
            let mm = m as int;
            assert(mm * (mm + 1) <= max_rows() * (max_rows() + 1)) by (nonlinear_arith)
                requires
                    0 <= mm <= max_rows(),
            ;
            let x = n1 as int;
            let z = n2 as int;
            assert(mm * (mm + 1) == x * (x + 1) + z * (z + 1) + 2 * x * z) by (nonlinear_arith)
                requires
                    mm == x + z,
            ;
            assert(x * (x + 1) <= mm * (mm + 1)) by (nonlinear_arith)
                requires
                    0 <= x <= mm,
            ;
            assert(2 * x * z <= mm * (mm + 1)) by (nonlinear_arith)
                requires
                    0 <= x,
                    0 <= z,
                    mm == x + z,
            ;
        }
        let total: u128 = m * (m + 1);
        let w2 = total - w1;
        let u1: i128 = (w1 as i128) - ((n1 as i128) * ((n1 as i128) + 1));
        let u2: i128 = 2 * (n1 as i128) * (n2 as i128) - u1;
        let u = if u1 <= u2 { u1 } else { u2 };
        Ok(
            RankSum {
                group0: lo,
                group1: hi,
                n1,
                n2,
                w1_twice: w1,
                w2_twice: w2,
                u1_twice: u1,
                u2_twice: u2,
                u_twice: u,
            },
        )
    }
}


/// For every comparison the library reports, `0 <= U1 <= n1 * n2`,
/// `U1 + U2 = n1 * n2`, and `W2` is the rank sum of group 1 (so that
/// `W1 + W2` is the rank sum `m (m + 1) / 2` of the pooled sample).
pub proof fn lemma_ranksum_statistics(y: Seq<i64>, groups: Seq<i64>, s: RankSum)
    requires
        ranksum_refusal(y, groups) is None,
        ranksum_holds(y, groups, s),
    ensures
        0 <= s.u1_twice <= 2 * s.n1 * s.n2,
        0 <= s.u2_twice,
        s.u1_twice + s.u2_twice == 2 * s.n1 * s.n2,
        s.w2_twice == twice_rank_sum(
            group_values(y, groups, s.group0) + group_values(y, groups, s.group1),
            group_values(y, groups, s.group1),
        ),
{
    let d = distinct_in_order(groups);
    let a = group_values(y, groups, lower_key(d));
    let b = group_values(y, groups, upper_key(d));
    lemma_rank_sum_bounds(a, b);
    let x = a.len() as int;
    let z = b.len() as int;
    assert((x + z) * (x + z + 1) == x * (x + 1) + z * (z + 1) + 2 * x * z) by (nonlinear_arith);
}

/// The integer keys as mathematical integers.
pub open spec fn ints(s: Seq<i64>) -> Seq<int> {
    s.map_values(|v: i64| v as int)
}

/// The positive keys of `d`, in order.
pub open spec fn positive_parts(d: Seq<i64>) -> Seq<int>
    decreases d.len(),
{
    if d.len() == 0 {
        Seq::empty()
    } else if d.last() > 0 {
        positive_parts(d.drop_last()).push(d.last() as int)
    } else {
        positive_parts(d.drop_last())
    }
}

/// The magnitudes of the negative keys of `d`, in order.
pub open spec fn negative_parts(d: Seq<i64>) -> Seq<int>
    decreases d.len(),
{
    if d.len() == 0 {
        Seq::empty()
    } else if d.last() < 0 {
        negative_parts(d.drop_last()).push(-(d.last() as int))
    } else {
        negative_parts(d.drop_last())
    }
}

/// Doubled Wilcoxon signed-rank statistics. Zero differences are left out,
/// and the magnitudes of the others are ranked with mid-ranks for ties.
pub struct SignRank {
    /// The number of nonzero differences.
    pub n: u64,
    /// Twice the rank sum of the positive differences.
    pub w_plus_twice: u128,
    /// Twice the rank sum of the negative differences.
    pub w_minus_twice: u128,
    /// Twice `min(W+, W-)`.
    pub w_twice: u128,
}

/// What a signed-rank test of the differences `d` reports.
pub open spec fn signrank_holds(d: Seq<i64>, s: SignRank) -> bool {
    let p = positive_parts(d);
    let q = negative_parts(d);
    let wp = twice_rank_sum(p + q, p);
    let wm = twice_rank_sum(p + q, q);
    &&& s.n == p.len() + q.len()
    &&& s.w_plus_twice == wp
    &&& s.w_minus_twice == wm
    &&& s.w_twice == if wp <= wm { wp } else { wm }
}

/// The rank sums of the positive and of the negative differences add up to
/// `1 + 2 + ... + n`, doubled `n * (n + 1)`.
pub proof fn lemma_signrank_total(d: Seq<i64>, s: SignRank)
    requires
        signrank_holds(d, s),
    ensures
        s.w_plus_twice + s.w_minus_twice == s.n * (s.n + 1),
{
    lemma_rank_sum_bounds(positive_parts(d), negative_parts(d));
}

impl crate::interp::Interpreter {
    /// Wilcoxon signed-rank test on the differences `d` (keys whose sign is
    /// that of the difference and whose magnitude orders its size).
    pub fn signrank(d: &Vec<i64>) -> (r: Result<SignRank, HayashiError>)
        requires
            d@.len() <= max_rows(),
        ensures
            match r {
                Ok(s) => s.n > 0 && signrank_holds(d@, s),
                Err(e) => positive_parts(d@).len() + negative_parts(d@).len() == 0 && e@
                    == ErrV::Runtime("signrank: all diffs are zero"@),
            },
    {
        let mut pos: Vec<i128> = Vec::new();
        let mut neg: Vec<i128> = Vec::new();
        let mut i: usize = 0;
        while i < d.len()
            invariant
                i <= d@.len(),
                wide(pos@) == positive_parts(d@.take(i as int)),
                wide(neg@) == negative_parts(d@.take(i as int)),
                pos@.len() + neg@.len() <= i,
            decreases d@.len() - i,
        {
            let v = d[i];
            proof {
                assert(d@.take(i + 1).drop_last() =~= d@.take(i as int));
                assert(d@.take(i + 1).last() == v);
            }
            if v > 0 {
                let ghost before = pos@;
                pos.push(v as i128);
                assert(wide(pos@) =~= wide(before).push(v as int));
            } else if v < 0 {
                let ghost before = neg@;
                neg.push(-(v as i128));
                assert(wide(neg@) =~= wide(before).push(-(v as int)));
            }
            i = i + 1;
        }
        proof {
            assert(d@.take(d@.len() as int) =~= d@);
        }
        let n = pos.len() + neg.len();
        if n == 0 {
            return Err(HayashiError::Runtime(String::from_str("signrank: all diffs are zero")));
        }
        let all = pooled(&pos, &neg);
        let wp = rank_sum_in(&all, &pos);
        let wm = rank_sum_in(&all, &neg);
        let w = if wp <= wm { wp } else { wm };
        Ok(SignRank { n: n as u64, w_plus_twice: wp, w_minus_twice: wm, w_twice: w })
    }

    /// The sign test's counts: differences above, below and at zero, and
    /// the effective sample size (ties left out).
    pub fn bitest(d: &Vec<i64>) -> (c: SignCounts)
        ensures
            c.positive == count_above(ints(d@), 0),
            c.negative == count_below(ints(d@), 0),
            c.ties == d@.len() - c.positive - c.negative,
            c.ties == count_equal(ints(d@), 0),
            c.n_eff == c.positive + c.negative,
    {
        let ghost w = ints(d@);
        let mut positive: u64 = 0;
        let mut negative: u64 = 0;
        let mut i: usize = 0;
        while i < d.len()
            invariant
                i <= d@.len(),
                w == ints(d@),
                positive == count_above(w.take(i as int), 0),
                negative == count_below(w.take(i as int), 0),
                positive + negative <= i,
            decreases d@.len() - i,
        {
            proof {
                assert(w.take(i + 1).drop_last() =~= w.take(i as int));
                assert(w.take(i + 1).last() == d@[i as int] as int);
            }
            if d[i] > 0 {
                positive = positive + 1;
            } else if d[i] < 0 {
                negative = negative + 1;
            }
            i = i + 1;
        }
        proof {
            assert(w.take(d@.len() as int) =~= w);
            lemma_counts_total(w, 0);
        }
        let ties = (d.len() as u64) - positive - negative;
        SignCounts { positive, negative, ties, n_eff: positive + negative }
    }
}

/// The counts of the sign test.
pub struct SignCounts {
    pub positive: u64,
    pub negative: u64,
    pub ties: u64,
    pub n_eff: u64,
}


/// `s` is strictly increasing (so no key occurs twice).
pub open spec fn strictly_increasing(s: Seq<i64>) -> bool {
    forall|i: int, j: int| 0 <= i < j < s.len() ==> s[i] < s[j]
}

/// The doubled mid-ranks of the entries of `s`, position by position.
pub open spec fn twice_ranks(s: Seq<int>) -> Seq<nat> {
    Seq::new(s.len(), |i: int| twice_rank(s, s[i]))
}

/// The sum of a sequence of naturals.
pub open spec fn nat_sum(s: Seq<nat>) -> nat
    decreases s.len(),
{
    if s.len() == 0 {
        0
    } else {
        nat_sum(s.drop_last()) + s.last()
    }
}

proof fn lemma_rank_list_sum(all: Seq<int>, sub: Seq<int>)
    ensures
        nat_sum(Seq::new(sub.len(), |i: int| twice_rank(all, sub[i]))) == twice_rank_sum(all, sub),
    decreases sub.len(),
{
    if sub.len() > 0 {
        let p = sub.drop_last();
        lemma_rank_list_sum(all, p);
        assert(Seq::new(sub.len(), |i: int| twice_rank(all, sub[i])).drop_last() =~= Seq::new(
            p.len(),
            |i: int| twice_rank(all, p[i]),
        ));
    }
}

/// Whatever the ties, the doubled mid-ranks of a sample add up to
/// `n * (n + 1)`: the ranks add up to `1 + 2 + ... + n`.
pub proof fn lemma_ranks_sum(s: Seq<int>)
    ensures
        nat_sum(twice_ranks(s)) == s.len() * (s.len() + 1),
{
    lemma_rank_list_sum(s, s);
    lemma_rank_total(s);
}

/// The sum over the keys `ks` of the rank sums of their groups among the
/// first `k` observations.
pub open spec fn groups_rank_sum(all: Seq<int>, y: Seq<i64>, groups: Seq<i64>, ks: Seq<i64>, k: int) -> nat
    decreases ks.len(),
{
    if ks.len() == 0 {
        0
    } else {
        groups_rank_sum(all, y, groups, ks.drop_last(), k) + twice_rank_sum(
            all,
            select(y, groups, ks.last(), k),
        )
    }
}

proof fn lemma_groups_rank_sum_step(all: Seq<int>, y: Seq<i64>, groups: Seq<i64>, ks: Seq<i64>, k: int)
    requires
        0 <= k,
        strictly_increasing(ks),
    ensures
        groups_rank_sum(all, y, groups, ks, k + 1) == groups_rank_sum(all, y, groups, ks, k) + if ks.contains(
            groups[k],
        ) {
            twice_rank(all, y[k] as int)
        } else {
            0
        },
    decreases ks.len(),
{
    if ks.len() > 0 {
        let p = ks.drop_last();
        assert(strictly_increasing(p));
        lemma_groups_rank_sum_step(all, y, groups, p, k);
        let g = ks.last();
        if groups[k] == g {
            assert(select(y, groups, g, k + 1) == select(y, groups, g, k).push(y[k] as int));
            assert(select(y, groups, g, k + 1).drop_last() =~= select(y, groups, g, k));
            if p.contains(g) {
                let t = choose|t: int| 0 <= t < p.len() && p[t] == g;
                assert(ks[t] < ks[ks.len() - 1]);
            }
            assert(ks.contains(groups[k])) by {
                assert(ks[ks.len() - 1] == g);
            }
        } else {
            if ks.contains(groups[k]) {
                let t = choose|t: int| 0 <= t < ks.len() && ks[t] == groups[k];
                assert(t != ks.len() - 1);
                assert(p[t] == groups[k]);
            }
            if p.contains(groups[k]) {
                let t = choose|t: int| 0 <= t < p.len() && p[t] == groups[k];
                assert(ks[t] == groups[k]);
            }
        }
    }
}

proof fn lemma_groups_rank_sum(all: Seq<int>, y: Seq<i64>, groups: Seq<i64>, ks: Seq<i64>, k: int)
    requires
        0 <= k <= y.len(),
        y.len() == groups.len(),
        strictly_increasing(ks),
        forall|i: int| 0 <= i < k ==> ks.contains(#[trigger] groups[i]),
    ensures
        groups_rank_sum(all, y, groups, ks, k) == twice_rank_sum(all, ints(y).take(k)),
    decreases k,
{
    if k == 0 {
        lemma_groups_rank_sum_zero(all, y, groups, ks);
        assert(ints(y).take(0) =~= Seq::<int>::empty());
    } else {
        lemma_groups_rank_sum(all, y, groups, ks, k - 1);
        lemma_groups_rank_sum_step(all, y, groups, ks, k - 1);
        assert(ks.contains(groups[k - 1]));
        assert(ints(y).take(k).drop_last() =~= ints(y).take(k - 1));
    }
}

proof fn lemma_groups_rank_sum_zero(all: Seq<int>, y: Seq<i64>, groups: Seq<i64>, ks: Seq<i64>)
    ensures
        groups_rank_sum(all, y, groups, ks, 0) == 0,
    decreases ks.len(),
{
    if ks.len() > 0 {
        lemma_groups_rank_sum_zero(all, y, groups, ks.drop_last());
    }
}

/// When every observation's group key is among the strictly increasing
/// keys `ks`, the groups' rank sums add up to the rank sum of the whole
/// sample: doubled, `N * (N + 1)`.
pub proof fn lemma_kruskal_total(y: Seq<i64>, groups: Seq<i64>, ks: Seq<i64>)
    requires
        y.len() == groups.len(),
        strictly_increasing(ks),
        forall|i: int| 0 <= i < groups.len() ==> ks.contains(#[trigger] groups[i]),
    ensures
        groups_rank_sum(ints(y), y, groups, ks, y.len() as int) == y.len() * (y.len() + 1),
{
    lemma_groups_rank_sum(ints(y), y, groups, ks, y.len() as int);
    assert(ints(y).take(y.len() as int) =~= ints(y));
    lemma_rank_total(ints(y));
}


/// The distinct keys of `keys` in increasing order.
fn sorted_keys(keys: &Vec<i64>) -> (ks: Vec<i64>)
    ensures
        strictly_increasing(ks@),
        forall|x: i64| ks@.contains(x) <==> keys@.contains(x),
        ks@.len() <= keys@.len(),
{
    let mut ks: Vec<i64> = Vec::new();
    let mut i: usize = 0;
    while i < keys.len()
        invariant
            i <= keys@.len(),
            strictly_increasing(ks@),
            forall|x: i64| ks@.contains(x) <==> keys@.take(i as int).contains(x),
            ks@.len() <= i,
        decreases keys@.len() - i,
    {
        let k = keys[i];
        let ghost pre = keys@.take(i as int);
        assert(keys@.take(i + 1) =~= pre.push(k));
        let mut p: usize = 0;
        while p < ks.len() && ks[p] < k
            invariant
                p <= ks@.len(),
                forall|t: int| 0 <= t < p ==> ks@[t] < k,
            decreases ks@.len() - p,
        {
            p = p + 1;
        }
        if p < ks.len() && ks[p] == k {
            assert forall|x: i64| ks@.contains(x) <==> keys@.take(i + 1).contains(x) by {
                if x == k {
                    assert(ks@[p as int] == k);
                }
                if pre.contains(x) {
                    let t = choose|t: int| 0 <= t < pre.len() && pre[t] == x;
                    assert(keys@.take(i + 1)[t] == x);
                }
                if keys@.take(i + 1).contains(x) && x != k {
                    let t = choose|t: int| 0 <= t < i + 1 && #[trigger] keys@.take(i + 1)[t] == x;
                    assert(pre[t] == x);
                }
            }
        } else {
            let ghost old_ks = ks@;
            ks.insert(p, k);
            assert(ks@ == old_ks.insert(p as int, k));
            assert forall|a: int, b: int| 0 <= a < b < ks@.len() implies ks@[a] < ks@[b] by {
                if b < p {
                } else if b == p {
                } else if a < p {
                    assert(ks@[b] == old_ks[b - 1]);
                    if p < old_ks.len() {
                        assert(old_ks[p as int] > k);
                        assert(old_ks[p as int] <= old_ks[b - 1] || b - 1 == p);
                    }
                } else if a == p {
                    assert(ks@[b] == old_ks[b - 1]);
                    assert(old_ks[p as int] > k);
                    assert(old_ks[p as int] <= old_ks[b - 1] || b - 1 == p);
                } else {
                    assert(ks@[a] == old_ks[a - 1]);
                    assert(ks@[b] == old_ks[b - 1]);
                }
            }
            assert forall|x: i64| ks@.contains(x) <==> keys@.take(i + 1).contains(x) by {
                if ks@.contains(x) {
                    let t = choose|t: int| 0 <= t < ks@.len() && ks@[t] == x;
                    if t < p {
                        assert(old_ks[t] == x);
                    } else if t > p {
                        assert(old_ks[t - 1] == x);
                    }
                    if x != k {
                        assert(old_ks.contains(x));
                        assert(pre.contains(x));
                        let u = choose|u: int| 0 <= u < pre.len() && pre[u] == x;
                        assert(keys@.take(i + 1)[u] == x);
                    } else {
                        assert(keys@.take(i + 1)[i as int] == x);
                    }
                }
                if keys@.take(i + 1).contains(x) {
                    if x == k {
                        assert(ks@[p as int] == k);
                    } else {
                        let u = choose|u: int| 0 <= u < i + 1 && #[trigger] keys@.take(i + 1)[u] == x;
                        assert(pre[u] == x);
                        assert(old_ks.contains(x));
                        let t = choose|t: int| 0 <= t < old_ks.len() && old_ks[t] == x;
                        if t < p {
                            assert(ks@[t] == x);
                        } else {
                            assert(ks@[t + 1] == x);
                        }
                    }
                }
            }
            assert(!old_ks.contains(k)) by {
                if old_ks.contains(k) {
                    let t = choose|t: int| 0 <= t < old_ks.len() && old_ks[t] == k;
                    if t >= p {
                        assert(old_ks[p as int] <= old_ks[t]);
                    }
                }
            }
        }
        i = i + 1;
    }
    assert(keys@.take(keys@.len() as int) =~= keys@);
    ks
}


/// The keys, widened.
fn widen(y: &Vec<i64>) -> (w: Vec<i128>)
    ensures
        wide(w@) == ints(y@),
        w@.len() == y@.len(),
{
    let mut w: Vec<i128> = Vec::new();
    let mut i: usize = 0;
    while i < y.len()
        invariant
            i <= y@.len(),
            wide(w@) == ints(y@.take(i as int)),
            w@.len() == i,
        decreases y@.len() - i,
    {
        let ghost before = w@;
        w.push(y[i] as i128);
        proof {
            assert(wide(w@) =~= wide(before).push(y@[i as int] as int));
            assert(ints(y@.take(i + 1)) =~= ints(y@.take(i as int)).push(y@[i as int] as int));
        }
        i = i + 1;
    }
    assert(y@.take(y@.len() as int) =~= y@);
    w
}

/// The doubled mid-ranks of the entries of `v`, position by position.
fn twice_ranks_of(v: &Vec<i128>) -> (r: Vec<u64>)
    requires
        v@.len() <= max_rows(),
    ensures
        r@.len() == v@.len(),
        forall|i: int| 0 <= i < v@.len() ==> r@[i] == twice_ranks(wide(v@))[i],
{
    let ghost w = wide(v@);
    let mut r: Vec<u64> = Vec::new();
    let mut i: usize = 0;
    while i < v.len()
        invariant
            i <= v@.len(),
            v@.len() <= max_rows(),
            w == wide(v@),
            r@.len() == i,
            forall|t: int| 0 <= t < i ==> r@[t] == twice_ranks(w)[t],
        decreases v@.len() - i,
    {
        let (b, e) = counts_in(v, v[i]);
        proof {
            lemma_counts_total(w, v@[i as int] as int);
        }
        r.push(2 * b + e + 1);
        i = i + 1;
    }
    r
}

/// The rank statistics of one group in the Kruskal-Wallis test.
pub struct GroupRank {
    pub key: i64,
    pub n: u64,
    /// Twice the sum of the group's mid-ranks in the whole sample.
    pub rank_sum_twice: u128,
}

/// The group keys of per-group statistics.
pub open spec fn group_keys(r: Seq<GroupRank>) -> Seq<i64> {
    r.map_values(|g: GroupRank| g.key)
}

/// One entry per group, in increasing key order, with the group's size and
/// doubled rank sum among all observations.
pub open spec fn group_ranks_hold(y: Seq<i64>, groups: Seq<i64>, r: Seq<GroupRank>) -> bool {
    &&& strictly_increasing(group_keys(r))
    &&& forall|x: i64| group_keys(r).contains(x) <==> groups.contains(x)
    &&& forall|j: int|
        0 <= j < r.len() ==> {
            &&& (#[trigger] r[j]).n == group_values(y, groups, r[j].key).len()
            &&& r[j].rank_sum_twice == twice_rank_sum(ints(y), group_values(y, groups, r[j].key))
        }
}

/// All keys are the same (or there are none).
pub open spec fn single_group(groups: Seq<i64>) -> bool {
    forall|i: int, j: int| 0 <= i < groups.len() && 0 <= j < groups.len() ==> groups[i] == groups[j]
}

/// What the Spearman correlation ranks: the first `n` entries of both
/// columns, `n` the shorter length.
pub open spec fn spearman_len(x: Seq<i64>, y: Seq<i64>) -> int {
    if x.len() <= y.len() { x.len() as int } else { y.len() as int }
}

impl crate::interp::Interpreter {
    /// Kruskal-Wallis test of `y` across the groups keyed by `groups`: the
    /// size and doubled rank sum of every group.
    pub fn kruskal(y: &Vec<i64>, groups: &Vec<i64>) -> (r: Result<Vec<GroupRank>, HayashiError>)
        requires
            y@.len() == groups@.len(),
            y@.len() <= max_rows(),
        ensures
            match r {
                Ok(v) => !single_group(groups@) && group_ranks_hold(y@, groups@, v@),
                Err(e) => single_group(groups@) && e@ == ErrV::Runtime(
                    "kruskal: precisa de pelo menos 2 grupos"@,
                ),
            },
    {
        let ks = sorted_keys(groups);
        if ks.len() < 2 {
            proof {
                assert forall|i: int, j: int|
                    0 <= i < groups@.len() && 0 <= j < groups@.len() implies groups@[i]
                    == groups@[j] by {
                    assert(ks@.contains(groups@[i]));
                    assert(ks@.contains(groups@[j]));
                }
            }
            return Err(HayashiError::Runtime(String::from_str("kruskal: precisa de pelo menos 2 grupos")));
        }
        proof {
            assert(groups@.contains(ks@[0]));
            assert(groups@.contains(ks@[1]));
            let i = choose|i: int| 0 <= i < groups@.len() && groups@[i] == ks@[0];
            let j = choose|j: int| 0 <= j < groups@.len() && groups@[j] == ks@[1];
            assert(groups@[i] != groups@[j]);
        }
        let w = widen(y);
        let mut out: Vec<GroupRank> = Vec::new();
        let mut j: usize = 0;
        while j < ks.len()
            invariant
                j <= ks@.len(),
                y@.len() == groups@.len(),
                y@.len() <= max_rows(),
                wide(w@) == ints(y@),
                w@.len() == y@.len(),
                out@.len() == j,
                forall|t: int| 0 <= t < j ==> (#[trigger] out@[t]).key == ks@[t],
                forall|t: int|
                    0 <= t < j ==> {
                        &&& (#[trigger] out@[t]).n == group_values(y@, groups@, out@[t].key).len()
                        &&& out@[t].rank_sum_twice == twice_rank_sum(
                            ints(y@),
                            group_values(y@, groups@, out@[t].key),
                        )
                    },
            decreases ks@.len() - j,
        {
            let g = ks[j];
            let a = select_group(y, groups, g);
            let rs = rank_sum_in(&w, &a);
            out.push(GroupRank { key: g, n: a.len() as u64, rank_sum_twice: rs });
            j = j + 1;
        }
        proof {
            assert(group_keys(out@) =~= ks@);
        }
        Ok(out)
    }

    /// Spearman rank correlation of two columns: the doubled mid-ranks of
    /// the first `n` entries of each (`n` the shorter length, at least 3).
    pub fn spearman(x: &Vec<i64>, y: &Vec<i64>) -> (r: Result<(Vec<u64>, Vec<u64>), HayashiError>)
        requires
            x@.len() <= max_rows(),
            y@.len() <= max_rows(),
        ensures
            match r {
                Ok((rx, ry)) => {
                    let n = spearman_len(x@, y@);
                    &&& n >= 3
                    &&& rx@.len() == n
                    &&& ry@.len() == n
                    &&& forall|i: int|
                        0 <= i < n ==> rx@[i] == twice_ranks(ints(x@).take(n))[i] && ry@[i]
                            == twice_ranks(ints(y@).take(n))[i]
                },
                Err(e) => spearman_len(x@, y@) < 3 && e@ == ErrV::Runtime("spearman: n < 3"@),
            },
    {
        let n = if x.len() <= y.len() { x.len() } else { y.len() };
        if n < 3 {
            return Err(HayashiError::Runtime(String::from_str("spearman: n < 3")));
        }
        let wx = widen(x);
        let wy = widen(y);
        let px = prefix(&wx, n);
        let py = prefix(&wy, n);
        proof {
            assert(wide(px@) =~= ints(x@).take(n as int));
            assert(wide(py@) =~= ints(y@).take(n as int));
        }
        let rx = twice_ranks_of(&px);
        let ry = twice_ranks_of(&py);
        Ok((rx, ry))
    }
}

/// The first `n` entries of `v`.
fn prefix(v: &Vec<i128>, n: usize) -> (p: Vec<i128>)
    requires
        n <= v@.len(),
    ensures
        p@ == v@.take(n as int),
{
    let mut p: Vec<i128> = Vec::new();
    let mut i: usize = 0;
    while i < n
        invariant
            i <= n <= v@.len(),
            p@ == v@.take(i as int),
        decreases n - i,
    {
        p.push(v[i]);
        i = i + 1;
        assert(p@ =~= v@.take(i as int));
    }
    p
}

} // verus!
