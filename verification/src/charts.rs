//! The counting behind the text histograms: how many observations fall in
//! each bin, and how long each bar is drawn. Which bin an observation falls
//! in is computed by the caller from its floating-point value.
use vstd::prelude::*;

verus! {

/// The bin an observation lands in: its computed bin, or the last bin for
/// one at or past the end (the maximum lands there).
pub open spec fn bin_of(idx: usize, bins: usize) -> int {
    if idx < bins - 1 {
        idx as int
    } else {
        bins - 1
    }
}

/// How many of the observations land in bin `b`.
pub open spec fn bin_count(idxs: Seq<usize>, bins: usize, b: int) -> nat
    decreases idxs.len(),
{
    if idxs.len() == 0 {
        0
    } else {
        bin_count(idxs.drop_last(), bins, b) + if bin_of(idxs.last(), bins) == b { 1nat } else { 0nat }
    }
}

proof fn lemma_bin_count_bound(idxs: Seq<usize>, bins: usize, b: int)
    ensures
        bin_count(idxs, bins, b) <= idxs.len(),
    decreases idxs.len(),
{
    if idxs.len() > 0 {
        lemma_bin_count_bound(idxs.drop_last(), bins, b);
    }
}

/// The sum of the counts.
pub open spec fn total(counts: Seq<usize>) -> int
    decreases counts.len(),
{
    if counts.len() == 0 {
        0
    } else {
        total(counts.drop_last()) + counts.last()
    }
}

/// The number of observations in each of `bins` bins.
pub fn histogram_counts(idxs: &Vec<usize>, bins: usize) -> (counts: Vec<usize>)
    requires
        bins > 0,
    ensures
        counts@.len() == bins,
        forall|b: int| 0 <= b < bins ==> #[trigger] counts@[b] == bin_count(idxs@, bins, b),
{
    let mut counts: Vec<usize> = Vec::new();
    let mut k: usize = 0;
    while k < bins
        invariant
            k <= bins,
            counts@.len() == k,
            forall|b: int| 0 <= b < k ==> counts@[b] == 0,
        decreases bins - k,
    {
        counts.push(0);
        k = k + 1;
    }
    let mut i: usize = 0;
    assert(idxs@.take(0) =~= Seq::<usize>::empty());
    while i < idxs.len()
        invariant
            i <= idxs@.len(),
            bins > 0,
            counts@.len() == bins,
            forall|b: int| 0 <= b < bins ==> #[trigger] counts@[b] == bin_count(idxs@.take(i as int), bins, b),
        decreases idxs@.len() - i,
    {
        let x = idxs[i];
        let b: usize = if x < bins - 1 { x } else { bins - 1 };
        proof {
            let t = idxs@.take(i + 1);
            assert(t.drop_last() =~= idxs@.take(i as int));
            assert(t.last() == x);
            lemma_bin_count_bound(idxs@.take(i as int), bins, b as int);
        }
        let c = counts[b];
        counts.set(b, c + 1);
        i = i + 1;
    }
    assert(idxs@.take(idxs@.len() as int) =~= idxs@);
    counts
}

/// Every observation lands in exactly one bin: the counts add up to the
/// number of observations.
pub proof fn lemma_histogram_total(idxs: Seq<usize>, bins: usize)
    requires
        bins > 0,
        idxs.len() <= usize::MAX,
    ensures
        total(Seq::new(bins as nat, |b: int| bin_count(idxs, bins, b) as usize)) == idxs.len(),
    decreases idxs.len(),
{
    let counts = Seq::new(bins as nat, |b: int| bin_count(idxs, bins, b) as usize);
    if idxs.len() == 0 {
        lemma_total_zero(counts);
    } else {
        let front = idxs.drop_last();
        lemma_histogram_total(front, bins);
        let prev = Seq::new(bins as nat, |b: int| bin_count(front, bins, b) as usize);
        let k = bin_of(idxs.last(), bins);
        lemma_bin_count_bound(idxs, bins, k);
        assert forall|b: int| 0 <= b < bins implies bin_count(front, bins, b) <= usize::MAX by {
            lemma_bin_count_bound(front, bins, b);
            lemma_bin_count_bound(idxs, bins, b);
        }
        lemma_total_bump(prev, counts, k);
    }
}

proof fn lemma_total_zero(c: Seq<usize>)
    requires
        forall|b: int| 0 <= b < c.len() ==> c[b] == 0,
    ensures
        total(c) == 0,
    decreases c.len(),
{
    if c.len() > 0 {
        lemma_total_zero(c.drop_last());
    }
}

proof fn lemma_total_bump(a: Seq<usize>, b: Seq<usize>, k: int)
    requires
        a.len() == b.len(),
        0 <= k < a.len(),
        b[k] == a[k] + 1,
        forall|j: int| 0 <= j < a.len() && j != k ==> b[j] == a[j],
    ensures
        total(b) == total(a) + 1,
    decreases a.len(),
{
    if k == a.len() - 1 {
        assert(a.drop_last() =~= b.drop_last());
    } else {
        lemma_total_bump(a.drop_last(), b.drop_last(), k);
    }
}

/// The length of the bar of a bin with `cnt` observations, in a chart at
/// least ten characters wide whose longest bar is the largest count.
pub open spec fn bar_length(cnt: usize, width: usize, max_count: usize) -> int {
    let w = if width < 10 { 10 } else { width };
    if max_count == 0 {
        0
    } else {
        (cnt * w) / max_count as int
    }
}

/// The largest of the counts, or 1 when there are none.
pub open spec fn max_count(counts: Seq<usize>) -> usize
    decreases counts.len(),
{
    if counts.len() == 0 {
        1
    } else if counts.len() == 1 {
        counts[0]
    } else {
        let m = max_count(counts.drop_last());
        if counts.last() > m {
            counts.last()
        } else {
            m
        }
    }
}

/// The bar lengths of a histogram with these counts.
pub fn bar_lengths(counts: &Vec<usize>, width: usize) -> (bars: Vec<usize>)
    requires
        forall|b: int| 0 <= b < counts@.len() ==> counts@[b] * (if width < 10 { 10 } else { width }) <= usize::MAX,
    ensures
        bars@.len() == counts@.len(),
        forall|b: int| 0 <= b < counts@.len() ==> #[trigger] bars@[b] == bar_length(counts@[b], width, max_count(counts@)),
{
    let w: usize = if width < 10 { 10 } else { width };
    let mut m: usize = 1;
    let mut j: usize = 0;
    while j < counts.len()
        invariant
            j <= counts@.len(),
            j > 0 ==> m == max_count(counts@.take(j as int)),
            j == 0 ==> m == 1,
        decreases counts@.len() - j,
    {
        proof {
            let t = counts@.take(j + 1);
            assert(t.drop_last() =~= counts@.take(j as int));
            assert(t.last() == counts@[j as int]);
        }
        if j == 0 || counts[j] > m {
            m = counts[j];
        }
        j = j + 1;
    }
    assert(counts@.take(counts@.len() as int) =~= counts@);
    let mut bars: Vec<usize> = Vec::new();
    let mut i: usize = 0;
    while i < counts.len()
        invariant
            i <= counts@.len(),
            w == (if width < 10 { 10 } else { width }),
            m == max_count(counts@),
            forall|b: int| 0 <= b < counts@.len() ==> counts@[b] * w <= usize::MAX,
            bars@.len() == i,
            forall|b: int| 0 <= b < i ==> #[trigger] bars@[b] == bar_length(counts@[b], width, m),
        decreases counts@.len() - i,
    {
        let prod = counts[i] * w;
        let bar = if m == 0 { 0 } else { prod / m };
        bars.push(bar);
        i = i + 1;
    }
    bars
}

} // verus!
