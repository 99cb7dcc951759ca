//! Frequency tables: how often each value of a column occurs, and the
//! counts of a cross-tabulation of two columns with its margins. Values are
//! listed in lexicographic order; a column whose values are all numbers is
//! listed by numeric value instead, an order that rests on floating point
//! and that the caller makes.
use crate::sorting::{lemma_seq_lt_irreflexive, lemma_seq_lt_total, lemma_seq_lt_transitive, seq_lt, str_lt};
use crate::text::str_eq;
use crate::value::{strings_view, ErrV, HayashiError};
use vstd::prelude::*;

verus! {

/// The number of `i < k` with `a[i] == x`.
pub open spec fn count_upto(a: Seq<Seq<char>>, x: Seq<char>, k: int) -> nat
    decreases k,
{
    if k <= 0 {
        0
    } else {
        count_upto(a, x, k - 1) + if a[k - 1] == x { 1nat } else { 0nat }
    }
}

/// The number of `i < k` with `a[i] == x` and `b[i] == y`.
pub open spec fn pair_count(a: Seq<Seq<char>>, b: Seq<Seq<char>>, x: Seq<char>, y: Seq<char>, k: int) -> nat
    decreases k,
{
    if k <= 0 {
        0
    } else {
        pair_count(a, b, x, y, k - 1) + if a[k - 1] == x && b[k - 1] == y { 1nat } else { 0nat }
    }
}

/// The sum over the values `ys` of the pair counts of `(x, y)`.
pub open spec fn row_sum(a: Seq<Seq<char>>, b: Seq<Seq<char>>, x: Seq<char>, ys: Seq<Seq<char>>, k: int) -> nat
    decreases ys.len(),
{
    if ys.len() == 0 {
        0
    } else {
        row_sum(a, b, x, ys.drop_last(), k) + pair_count(a, b, x, ys.last(), k)
    }
}

/// The sum over the values `xs` of how often each occurs in `a`.
pub open spec fn count_sum(a: Seq<Seq<char>>, xs: Seq<Seq<char>>, k: int) -> nat
    decreases xs.len(),
{
    if xs.len() == 0 {
        0
    } else {
        count_sum(a, xs.drop_last(), k) + count_upto(a, xs.last(), k)
    }
}

/// No value occurs twice in `s`.
pub open spec fn no_repeats(s: Seq<Seq<char>>) -> bool {
    forall|i: int, j: int| 0 <= i < j < s.len() ==> s[i] != s[j]
}

proof fn lemma_row_sum_zero(a: Seq<Seq<char>>, b: Seq<Seq<char>>, x: Seq<char>, ys: Seq<Seq<char>>)
    ensures
        row_sum(a, b, x, ys, 0) == 0,
    decreases ys.len(),
{
    if ys.len() > 0 {
        lemma_row_sum_zero(a, b, x, ys.drop_last());
    }
}

proof fn lemma_row_sum_step(a: Seq<Seq<char>>, b: Seq<Seq<char>>, x: Seq<char>, ys: Seq<Seq<char>>, k: int)
    requires
        0 <= k,
        no_repeats(ys),
    ensures
        row_sum(a, b, x, ys, k + 1) == row_sum(a, b, x, ys, k) + if a[k] == x && ys.contains(b[k]) {
            1nat
        } else {
            0nat
        },
    decreases ys.len(),
{
    if ys.len() > 0 {
        let p = ys.drop_last();
        let y = ys.last();
        assert(no_repeats(p));
        lemma_row_sum_step(a, b, x, p, k);
        if b[k] == y {
            if p.contains(y) {
                let t = choose|t: int| 0 <= t < p.len() && p[t] == y;
                assert(ys[t] == ys[ys.len() - 1]);
            }
            assert(ys[ys.len() - 1] == b[k]);
        } else {
            if ys.contains(b[k]) {
                let t = choose|t: int| 0 <= t < ys.len() && ys[t] == b[k];
                assert(p[t] == b[k]);
            }
            if p.contains(b[k]) {
                let t = choose|t: int| 0 <= t < p.len() && p[t] == b[k];
                assert(ys[t] == b[k]);
            }
        }
    }
}

/// When the values `ys` cover every `b[i]` and none repeats, the counts of
/// the pairs `(x, y)` add up to the count of `x`.
pub proof fn lemma_row_total(a: Seq<Seq<char>>, b: Seq<Seq<char>>, x: Seq<char>, ys: Seq<Seq<char>>, k: int)
    requires
        0 <= k <= a.len(),
        a.len() == b.len(),
        no_repeats(ys),
        forall|i: int| 0 <= i < k ==> ys.contains(#[trigger] b[i]),
    ensures
        row_sum(a, b, x, ys, k) == count_upto(a, x, k),
    decreases k,
{
    if k == 0 {
        lemma_row_sum_zero(a, b, x, ys);
    } else {
        lemma_row_total(a, b, x, ys, k - 1);
        lemma_row_sum_step(a, b, x, ys, k - 1);
        assert(ys.contains(b[k - 1]));
    }
}

proof fn lemma_count_sum_zero(a: Seq<Seq<char>>, xs: Seq<Seq<char>>)
    ensures
        count_sum(a, xs, 0) == 0,
    decreases xs.len(),
{
    if xs.len() > 0 {
        lemma_count_sum_zero(a, xs.drop_last());
    }
}

proof fn lemma_count_sum_step(a: Seq<Seq<char>>, xs: Seq<Seq<char>>, k: int)
    requires
        0 <= k,
        no_repeats(xs),
    ensures
        count_sum(a, xs, k + 1) == count_sum(a, xs, k) + if xs.contains(a[k]) { 1nat } else { 0nat },
    decreases xs.len(),
{
    if xs.len() > 0 {
        let p = xs.drop_last();
        let y = xs.last();
        assert(no_repeats(p));
        lemma_count_sum_step(a, p, k);
        if a[k] == y {
            if p.contains(y) {
                let t = choose|t: int| 0 <= t < p.len() && p[t] == y;
                assert(xs[t] == xs[xs.len() - 1]);
            }
            assert(xs[xs.len() - 1] == a[k]);
        } else {
            if xs.contains(a[k]) {
                let t = choose|t: int| 0 <= t < xs.len() && xs[t] == a[k];
                assert(p[t] == a[k]);
            }
            if p.contains(a[k]) {
                let t = choose|t: int| 0 <= t < p.len() && p[t] == a[k];
                assert(xs[t] == a[k]);
            }
        }
    }
}

/// When the values `xs` cover every `a[i]` and none repeats, their counts
/// add up to the number of observations.
pub proof fn lemma_count_total(a: Seq<Seq<char>>, xs: Seq<Seq<char>>, k: int)
    requires
        0 <= k <= a.len(),
        no_repeats(xs),
        forall|i: int| 0 <= i < k ==> xs.contains(#[trigger] a[i]),
    ensures
        count_sum(a, xs, k) == k,
    decreases k,
{
    if k == 0 {
        lemma_count_sum_zero(a, xs);
    } else {
        lemma_count_total(a, xs, k - 1);
        lemma_count_sum_step(a, xs, k - 1);
        assert(xs.contains(a[k - 1]));
    }
}

/// Every label is before the next one: sorted, and no label twice.
pub open spec fn strictly_sorted(l: Seq<Seq<char>>) -> bool {
    forall|a: int, b: int| 0 <= a < b < l.len() ==> seq_lt(#[trigger] l[a], #[trigger] l[b])
}

/// `l` lists the distinct values of `values` in lexicographic order.
pub open spec fn sorted_labels_of(values: Seq<Seq<char>>, l: Seq<Seq<char>>) -> bool {
    &&& strictly_sorted(l)
    &&& forall|x: Seq<char>| #![trigger l.contains(x)] #![trigger values.contains(x)] l.contains(x) <==> values.contains(x)
}

/// How often each value occurs, values in lexicographic order.
pub open spec fn frequencies_hold(values: Seq<Seq<char>>, r: Seq<(Seq<char>, u64)>) -> bool {
    &&& sorted_labels_of(values, r.map_values(|p: (Seq<char>, u64)| p.0))
    &&& forall|i: int| 0 <= i < r.len() ==> (#[trigger] r[i]).1 == count_upto(values, r[i].0, values.len() as int)
}

/// A strictly sorted sequence holds no label twice.
pub proof fn lemma_strictly_sorted_no_repeats(l: Seq<Seq<char>>)
    requires
        strictly_sorted(l),
    ensures
        no_repeats(l),
{
    assert forall|i: int, j: int| 0 <= i < j < l.len() implies l[i] != l[j] by {
        assert(seq_lt(l[i], l[j]));
        if l[i] == l[j] {
            lemma_seq_lt_irreflexive(l[i]);
        }
    }
}

proof fn lemma_sorted_prefix(values: Seq<Seq<char>>, l1: Seq<Seq<char>>, l2: Seq<Seq<char>>, k: int)
    requires
        sorted_labels_of(values, l1),
        sorted_labels_of(values, l2),
        0 <= k <= l1.len(),
        k <= l2.len(),
    ensures
        forall|i: int| 0 <= i < k ==> l1[i] == l2[i],
    decreases k,
{
    if k > 0 {
        let c = k - 1;
        lemma_sorted_prefix(values, l1, l2, c);
        let x = l1[c];
        let y = l2[c];
        if x != y {
            assert(l2.contains(y));
            assert(values.contains(y));
            assert(l1.contains(y));
            let j = choose|j: int| 0 <= j < l1.len() && l1[j] == y;
            if j < c {
                assert(l2[j] == y);
                assert(seq_lt(l2[j], l2[c]));
                lemma_seq_lt_irreflexive(y);
            }
            assert(j > c);
            assert(seq_lt(x, y));
            assert(l1.contains(x));
            assert(values.contains(x));
            assert(l2.contains(x));
            let j2 = choose|j2: int| 0 <= j2 < l2.len() && l2[j2] == x;
            if j2 < c {
                assert(l1[j2] == x);
                assert(seq_lt(l1[j2], l1[c]));
                lemma_seq_lt_irreflexive(x);
            }
            assert(j2 > c);
            assert(seq_lt(y, x));
            lemma_seq_lt_transitive(x, y, x);
            lemma_seq_lt_irreflexive(x);
        }
    }
}

/// The labels of a column are determined by its values: two sorted label
/// lists of the same values are the same.
pub proof fn lemma_sorted_labels_unique(values: Seq<Seq<char>>, l1: Seq<Seq<char>>, l2: Seq<Seq<char>>)
    requires
        sorted_labels_of(values, l1),
        sorted_labels_of(values, l2),
    ensures
        l1 == l2,
{
    if l1.len() <= l2.len() {
        lemma_sorted_prefix(values, l1, l2, l1.len() as int);
        if l1.len() < l2.len() {
            let y = l2[l1.len() as int];
            assert(l2.contains(y));
            assert(l1.contains(y));
            let j = choose|j: int| 0 <= j < l1.len() && l1[j] == y;
            assert(l2[j] == y);
            assert(seq_lt(l2[j], l2[l1.len() as int]));
            lemma_seq_lt_irreflexive(y);
        }
    } else {
        lemma_sorted_prefix(values, l2, l1, l2.len() as int);
        let y = l1[l2.len() as int];
        assert(l1.contains(y));
        assert(l2.contains(y));
        let j = choose|j: int| 0 <= j < l2.len() && l2[j] == y;
        assert(l1[j] == y);
        assert(seq_lt(l1[j], l1[l2.len() as int]));
        lemma_seq_lt_irreflexive(y);
    }
    assert(l1 =~= l2);
}

/// The distinct values of a column in lexicographic order, as `tabulate`
/// lists them (a column of numbers is listed by value instead; that order
/// rests on floating point and the caller makes it).
pub fn sorted_labels(values: &Vec<String>) -> (l: Vec<String>)
    ensures
        sorted_labels_of(strings_view(values@), strings_view(l@)),
        l@.len() <= values@.len(),
{
    let ghost vv = strings_view(values@);
    let mut l: Vec<String> = Vec::new();
    let mut i: usize = 0;
    assert(strings_view(l@) =~= Seq::<Seq<char>>::empty());
    while i < values.len()
        invariant
            i <= values@.len(),
            vv == strings_view(values@),
            vv.len() == values@.len(),
            sorted_labels_of(vv.take(i as int), strings_view(l@)),
            l@.len() <= i,
        decreases values@.len() - i,
    {
        let ghost lv = strings_view(l@);
        let ghost pre = vv.take(i as int);
        let key = values[i].as_str();
        assert(vv[i as int] == key@);
        assert(lv.len() == l@.len());
        let mut p: usize = 0;
        while p < l.len() && str_lt(l[p].as_str(), key)
            invariant
                p <= l@.len(),
                lv == strings_view(l@),
                lv.len() == l@.len(),
                forall|a: int| 0 <= a < p ==> seq_lt(#[trigger] lv[a], key@),
            decreases l@.len() - p,
        {
            assert(lv[p as int] == l@[p as int]@);
            p = p + 1;
        }
        let found = p < l.len() && str_eq(l[p].as_str(), key);
        proof {
            assert(vv.take(i + 1) =~= pre.push(key@));
            let w = vv.take(i + 1);
            assert forall|x: Seq<char>| w.contains(x) <==> (pre.contains(x) || x == key@) by {
                if w.contains(x) {
                    let t = choose|t: int| 0 <= t < w.len() && w[t] == x;
                    if t < i {
                        assert(pre[t] == x);
                    }
                }
                if pre.contains(x) {
                    let t = choose|t: int| 0 <= t < pre.len() && pre[t] == x;
                    assert(w[t] == x);
                }
                if x == key@ {
                    assert(w[i as int] == x);
                }
            }
            if p < l@.len() {
                assert(lv[p as int] == l@[p as int]@);
            }
        }
        if !found {
            proof {
                if p < l@.len() {
                    assert(!seq_lt(lv[p as int], key@));
                    assert(lv[p as int] != key@);
                    lemma_seq_lt_total(lv[p as int], key@);
                    assert(seq_lt(key@, lv[p as int]));
                }
            }
            l.insert(p, values[i].clone());
            proof {
                let nv = strings_view(l@);
                let pp = p as int;
                assert(nv =~= lv.insert(pp, key@));
                assert forall|a: int, b: int| 0 <= a < b < nv.len() implies seq_lt(#[trigger] nv[a], #[trigger] nv[b]) by {
                    if b < pp {
                        assert(nv[a] == lv[a] && nv[b] == lv[b]);
                    } else if b == pp {
                        assert(nv[a] == lv[a]);
                    } else if a < pp {
                        assert(nv[a] == lv[a] && nv[b] == lv[b - 1]);
                        if a < b - 1 {
                            assert(seq_lt(lv[a], lv[b - 1]));
                        }
                    } else if a == pp {
                        assert(nv[b] == lv[b - 1]);
                        if b - 1 > pp {
                            assert(seq_lt(lv[pp], lv[b - 1]));
                            lemma_seq_lt_transitive(key@, lv[pp], lv[b - 1]);
                        }
                    } else {
                        assert(nv[a] == lv[a - 1] && nv[b] == lv[b - 1]);
                        assert(seq_lt(lv[a - 1], lv[b - 1]));
                    }
                }
                assert forall|x: Seq<char>| nv.contains(x) <==> (lv.contains(x) || x == key@) by {
                    if nv.contains(x) {
                        let t = choose|t: int| 0 <= t < nv.len() && nv[t] == x;
                        if t < pp {
                            assert(lv[t] == x);
                        } else if t > pp {
                            assert(lv[t - 1] == x);
                        }
                    }
                    if lv.contains(x) {
                        let t = choose|t: int| 0 <= t < lv.len() && lv[t] == x;
                        if t < pp {
                            assert(nv[t] == x);
                        } else {
                            assert(nv[t + 1] == x);
                        }
                    }
                    if x == key@ {
                        assert(nv[pp] == x);
                    }
                }
            }
        } else {
            proof {
                assert(lv[p as int] == key@);
                assert(lv.contains(key@));
            }
        }
        i = i + 1;
    }
    assert(vv.take(values@.len() as int) =~= vv);
    l
}

fn count_of(values: &Vec<String>, x: &String) -> (c: u64)
    ensures
        c == count_upto(strings_view(values@), x@, values@.len() as int),
{
    let ghost vv = strings_view(values@);
    let mut c: u64 = 0;
    let mut i: usize = 0;
    while i < values.len()
        invariant
            i <= values@.len(),
            vv == strings_view(values@),
            vv.len() == values@.len(),
            c == count_upto(vv, x@, i as int),
            c <= i,
        decreases values@.len() - i,
    {
        if str_eq(values[i].as_str(), x.as_str()) {
            c = c + 1;
        }
        i = i + 1;
    }
    c
}

/// One-way frequency table: each distinct value, in lexicographic order,
/// and how often it occurs.
pub fn tabulate_one(values: &Vec<String>) -> (r: Vec<(String, u64)>)
    ensures
        frequencies_hold(strings_view(values@), r@.map_values(|p: (String, u64)| (p.0@, p.1))),
{
    let d = sorted_labels(values);
    let ghost dv = strings_view(d@);
    let mut r: Vec<(String, u64)> = Vec::new();
    let mut j: usize = 0;
    while j < d.len()
        invariant
            j <= d@.len(),
            dv == strings_view(d@),
            r@.len() == j,
            forall|t: int|
                0 <= t < j ==> (#[trigger] r@[t]).0@ == dv[t] && r@[t].1 == count_upto(
                    strings_view(values@),
                    dv[t],
                    values@.len() as int,
                ),
        decreases d@.len() - j,
    {
        let c = count_of(values, &d[j]);
        r.push((d[j].clone(), c));
        j = j + 1;
    }
    proof {
        let rv = r@.map_values(|p: (String, u64)| (p.0@, p.1));
        assert(rv.map_values(|p: (Seq<char>, u64)| p.0) =~= dv);
    }
    r
}

/// The frequencies of a one-way table add up to the number of
/// observations.
pub proof fn lemma_frequencies_total(values: Seq<Seq<char>>, labels: Seq<Seq<char>>)
    requires
        sorted_labels_of(values, labels),
    ensures
        count_sum(values, labels, values.len() as int) == values.len(),
{
    lemma_strictly_sorted_no_repeats(labels);
    assert forall|i: int| 0 <= i < values.len() implies labels.contains(#[trigger] values[i]) by {
        assert(values.contains(values[i]));
    }
    lemma_count_total(values, labels, values.len() as int);
}

/// A two-way table of counts with its margins; rows and columns in
/// lexicographic order.
pub struct CrossTab {
    pub rows: Vec<String>,
    pub cols: Vec<String>,
    /// `cells[i][j]` counts the observations in row `i` and column `j`.
    pub cells: Vec<Vec<u64>>,
    pub row_totals: Vec<u64>,
    pub col_totals: Vec<u64>,
    /// The degrees of freedom of the chi-square test, when one is asked
    /// for; its statistic and p-value are floating point and the caller's.
    pub chi2_df: Option<u64>,
}

/// The degrees of freedom of the chi-square test of a table with `r` rows
/// and `c` columns, `(r - 1)(c - 1)` in machine arithmetic, which wraps
/// around (so a table of empty columns gets 1).
pub open spec fn chi2_df_of(r: usize, c: usize) -> u64 {
    vstd::wrapping::usize_specs::wrapping_mul(
        vstd::wrapping::usize_specs::wrapping_sub(r, 1),
        vstd::wrapping::usize_specs::wrapping_sub(c, 1),
    ) as u64
}

/// What a cross-tabulation of the columns `a` (rows) and `b` (columns)
/// holds, with a chi-square test when `do_chi2`.
pub open spec fn crosstab_holds(a: Seq<Seq<char>>, b: Seq<Seq<char>>, do_chi2: bool, t: CrossTab) -> bool {
    let ra = strings_view(t.rows@);
    let cb = strings_view(t.cols@);
    let n = a.len() as int;
    &&& sorted_labels_of(a, ra)
    &&& sorted_labels_of(b, cb)
    &&& t.cells@.len() == ra.len()
    &&& forall|i: int|
        0 <= i < ra.len() ==> (#[trigger] t.cells@[i])@.len() == cb.len() && forall|j: int|
            0 <= j < cb.len() ==> (#[trigger] t.cells@[i]@[j]) == pair_count(a, b, ra[i], cb[j], n)
    &&& t.row_totals@.len() == ra.len()
    &&& forall|i: int| 0 <= i < ra.len() ==> (#[trigger] t.row_totals@[i]) == count_upto(a, ra[i], n)
    &&& t.col_totals@.len() == cb.len()
    &&& forall|j: int| 0 <= j < cb.len() ==> (#[trigger] t.col_totals@[j]) == count_upto(b, cb[j], n)
    &&& t.chi2_df == if do_chi2 {
        Some(chi2_df_of(t.rows@.len() as usize, t.cols@.len() as usize))
    } else {
        None
    }
}

fn pair_count_of(a: &Vec<String>, b: &Vec<String>, x: &String, y: &String) -> (c: u64)
    requires
        a@.len() == b@.len(),
    ensures
        c == pair_count(strings_view(a@), strings_view(b@), x@, y@, a@.len() as int),
{
    let ghost av = strings_view(a@);
    let ghost bv = strings_view(b@);
    let mut c: u64 = 0;
    let mut i: usize = 0;
    while i < a.len()
        invariant
            i <= a@.len(),
            a@.len() == b@.len(),
            av == strings_view(a@),
            bv == strings_view(b@),
            av.len() == a@.len(),
            bv.len() == b@.len(),
            c == pair_count(av, bv, x@, y@, i as int),
            c <= i,
        decreases a@.len() - i,
    {
        if str_eq(a[i].as_str(), x.as_str()) && str_eq(b[i].as_str(), y.as_str()) {
            c = c + 1;
        }
        i = i + 1;
    }
    c
}

/// The sum over the values `xs` of the pair counts of `(x, y)`.
pub open spec fn col_sum(a: Seq<Seq<char>>, b: Seq<Seq<char>>, xs: Seq<Seq<char>>, y: Seq<char>, k: int) -> nat
    decreases xs.len(),
{
    if xs.len() == 0 {
        0
    } else {
        col_sum(a, b, xs.drop_last(), y, k) + pair_count(a, b, xs.last(), y, k)
    }
}

proof fn lemma_pair_count_swap(a: Seq<Seq<char>>, b: Seq<Seq<char>>, x: Seq<char>, y: Seq<char>, k: int)
    ensures
        pair_count(a, b, x, y, k) == pair_count(b, a, y, x, k),
    decreases k,
{
    if k > 0 {
        lemma_pair_count_swap(a, b, x, y, k - 1);
    }
}

proof fn lemma_col_sum_swap(a: Seq<Seq<char>>, b: Seq<Seq<char>>, xs: Seq<Seq<char>>, y: Seq<char>, k: int)
    ensures
        col_sum(a, b, xs, y, k) == row_sum(b, a, y, xs, k),
    decreases xs.len(),
{
    if xs.len() > 0 {
        lemma_col_sum_swap(a, b, xs.drop_last(), y, k);
        lemma_pair_count_swap(a, b, xs.last(), y, k);
    }
}

/// Cross-tabulation of two columns of equal length, with the degrees of
/// freedom of a chi-square test when `do_chi2`.
pub fn tabulate_two(a: &Vec<String>, b: &Vec<String>, do_chi2: bool) -> (r: Result<CrossTab, HayashiError>)
    ensures
        match r {
            Ok(t) => a@.len() == b@.len() && crosstab_holds(strings_view(a@), strings_view(b@), do_chi2, t),
            Err(e) => a@.len() != b@.len() && e@ == ErrV::Runtime("columns have different lengths"@),
        },
{
    if a.len() != b.len() {
        return Err(HayashiError::Runtime(String::from_str("columns have different lengths")));
    }
    let rows = sorted_labels(a);
    let cols = sorted_labels(b);
    let ghost av = strings_view(a@);
    let ghost bv = strings_view(b@);
    let ghost ra = strings_view(rows@);
    let ghost cb = strings_view(cols@);
    let ghost n = a@.len() as int;
    let mut cells: Vec<Vec<u64>> = Vec::new();
    let mut row_totals: Vec<u64> = Vec::new();
    let mut i: usize = 0;
    while i < rows.len()
        invariant
            i <= rows@.len(),
            a@.len() == b@.len(),
            n == a@.len(),
            av == strings_view(a@),
            bv == strings_view(b@),
            ra == strings_view(rows@),
            cb == strings_view(cols@),
            cells@.len() == i,
            row_totals@.len() == i,
            forall|t: int|
                0 <= t < i ==> (#[trigger] cells@[t])@.len() == cb.len() && forall|j: int|
                    0 <= j < cb.len() ==> (#[trigger] cells@[t]@[j]) == pair_count(av, bv, ra[t], cb[j], n),
            forall|t: int| 0 <= t < i ==> (#[trigger] row_totals@[t]) == count_upto(av, ra[t], n),
        decreases rows@.len() - i,
    {
        let mut line: Vec<u64> = Vec::new();
        let mut j: usize = 0;
        while j < cols.len()
            invariant
                i < rows@.len(),
                j <= cols@.len(),
                a@.len() == b@.len(),
                n == a@.len(),
                av == strings_view(a@),
                bv == strings_view(b@),
                ra == strings_view(rows@),
                cb == strings_view(cols@),
                line@.len() == j,
                forall|u: int| 0 <= u < j ==> (#[trigger] line@[u]) == pair_count(av, bv, ra[i as int], cb[u], n),
            decreases cols@.len() - j,
        {
            let c = pair_count_of(a, b, &rows[i], &cols[j]);
            line.push(c);
            j = j + 1;
        }
        let total = count_of(a, &rows[i]);
        cells.push(line);
        row_totals.push(total);
        i = i + 1;
    }
    let mut col_totals: Vec<u64> = Vec::new();
    let mut j: usize = 0;
    while j < cols.len()
        invariant
            j <= cols@.len(),
            n == b@.len(),
            bv == strings_view(b@),
            cb == strings_view(cols@),
            col_totals@.len() == j,
            forall|u: int| 0 <= u < j ==> (#[trigger] col_totals@[u]) == count_upto(bv, cb[u], n),
        decreases cols@.len() - j,
    {
        let total = count_of(b, &cols[j]);
        col_totals.push(total);
        j = j + 1;
    }
    let chi2_df = if do_chi2 {
        let df: usize = rows.len().wrapping_sub(1).wrapping_mul(cols.len().wrapping_sub(1));
        Some(df as u64)
    } else {
        None
    };
    Ok(CrossTab { rows, cols, cells, row_totals, col_totals, chi2_df })
}

/// In a cross-tabulation, each row total is the sum of its row's cells,
/// each column total the sum of its column's cells, and both margins add up
/// to the number of observations.
pub proof fn lemma_crosstab_margins(
    a: Seq<Seq<char>>,
    b: Seq<Seq<char>>,
    ra: Seq<Seq<char>>,
    cb: Seq<Seq<char>>,
    x: Seq<char>,
    y: Seq<char>,
)
    requires
        a.len() == b.len(),
        sorted_labels_of(a, ra),
        sorted_labels_of(b, cb),
    ensures
        row_sum(a, b, x, cb, a.len() as int) == count_upto(a, x, a.len() as int),
        col_sum(a, b, ra, y, a.len() as int) == count_upto(b, y, a.len() as int),
        count_sum(a, ra, a.len() as int) == a.len(),
        count_sum(b, cb, b.len() as int) == b.len(),
{
    lemma_strictly_sorted_no_repeats(ra);
    lemma_strictly_sorted_no_repeats(cb);
    assert forall|i: int| 0 <= i < a.len() implies cb.contains(#[trigger] b[i]) by {
        assert(b.contains(b[i]));
    }
    assert forall|i: int| 0 <= i < a.len() implies ra.contains(#[trigger] a[i]) by {
        assert(a.contains(a[i]));
    }
    lemma_row_total(a, b, x, cb, a.len() as int);
    lemma_row_total(b, a, y, ra, a.len() as int);
    lemma_col_sum_swap(a, b, ra, y, a.len() as int);
    lemma_frequencies_total(a, ra);
    lemma_frequencies_total(b, cb);
}

} // verus!
