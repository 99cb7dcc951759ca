//! Row masks on a data frame: the rows that an `if` condition keeps, and
//! the values that `replace var = expr if cond` leaves in a column. The
//! caller turns the condition's column into a mask (a row is selected when
//! its value is not zero); what is kept or replaced is decided here.
use vstd::prelude::*;

verus! {

/// The number of selected rows of a mask.
pub open spec fn count_selected(mask: Seq<bool>) -> nat
    decreases mask.len(),
{
    if mask.len() == 0 {
        0
    } else {
        count_selected(mask.drop_last()) + if mask.last() { 1nat } else { 0nat }
    }
}

/// The positions of the selected rows, in increasing order.
pub open spec fn selected_positions(mask: Seq<bool>) -> Seq<usize>
    decreases mask.len(),
{
    if mask.len() == 0 {
        Seq::empty()
    } else {
        let front = selected_positions(mask.drop_last());
        if mask.last() {
            front.push((mask.len() - 1) as usize)
        } else {
            front
        }
    }
}

/// The number of rows of a column that `replace` rewrites: the three
/// columns are read side by side and the shortest one ends the walk.
pub open spec fn replaced_len(m: nat, o: nat, n: nat) -> nat {
    if m <= o && m <= n {
        m
    } else if o <= n {
        o
    } else {
        n
    }
}

/// The row indices that a filter by `mask` keeps, in the order of the
/// frame.
pub fn mask_positions(mask: &Vec<bool>) -> (r: Vec<usize>)
    ensures
        r@ == selected_positions(mask@),
{
    let mut r: Vec<usize> = Vec::new();
    let mut i: usize = 0;
    while i < mask.len()
        invariant
            i <= mask.len(),
            r@ == selected_positions(mask@.take(i as int)),
        decreases mask.len() - i,
    {
        assert(mask@.take(i as int + 1).drop_last() == mask@.take(i as int));
        if mask[i] {
            r.push(i);
        }
        i = i + 1;
    }
    assert(mask@.take(mask.len() as int) == mask@);
    r
}

/// The column that `replace` writes, with the number of changes it
/// reports: a selected row takes the new value and any other row keeps the
/// old one; every selected row of the mask is counted.
pub fn replace_values<T: Copy>(mask: &Vec<bool>, old: &Vec<T>, new: &Vec<T>) -> (r: (Vec<T>, usize))
    ensures
        r.0.len() == replaced_len(mask.len() as nat, old.len() as nat, new.len() as nat),
        forall|i: int| 0 <= i < r.0.len() ==> #[trigger] r.0@[i] == if mask@[i] { new@[i] } else { old@[i] },
        r.1 == count_selected(mask@),
{
    let len: usize = if mask.len() <= old.len() && mask.len() <= new.len() {
        mask.len()
    } else if old.len() <= new.len() {
        old.len()
    } else {
        new.len()
    };
    let mut out: Vec<T> = Vec::new();
    let mut i: usize = 0;
    while i < len
        invariant
            len == replaced_len(mask.len() as nat, old.len() as nat, new.len() as nat),
            len <= mask.len(),
            len <= old.len(),
            len <= new.len(),
            i <= len,
            out.len() == i,
            forall|k: int| 0 <= k < i ==> #[trigger] out@[k] == if mask@[k] { new@[k] } else { old@[k] },
        decreases len - i,
    {
        if mask[i] {
            out.push(new[i]);
        } else {
            out.push(old[i]);
        }
        i = i + 1;
    }
    let mut count: usize = 0;
    let mut j: usize = 0;
    while j < mask.len()
        invariant
            j <= mask.len(),
            count == count_selected(mask@.take(j as int)),
            count <= j,
        decreases mask.len() - j,
    {
        assert(mask@.take(j as int + 1).drop_last() == mask@.take(j as int));
        if mask[j] {
            count = count + 1;
        }
        j = j + 1;
    }
    assert(mask@.take(mask.len() as int) == mask@);
    (out, count)
}

/// A filter by a mask keeps exactly its selected rows, each once and in
/// the order of the frame, and as many rows as `replace` with the same
/// mask reports changes.
pub proof fn lemma_selected_positions(mask: Seq<bool>)
    requires
        mask.len() <= usize::MAX,
    ensures
        selected_positions(mask).len() == count_selected(mask),
        forall|k: int| 0 <= k < selected_positions(mask).len() ==> {
            let p = #[trigger] selected_positions(mask)[k];
            p < mask.len() && mask[p as int]
        },
        forall|a: int, b: int| 0 <= a < b < selected_positions(mask).len() ==> selected_positions(mask)[a] < selected_positions(mask)[b],
        forall|t: usize| t < mask.len() && mask[t as int] ==> #[trigger] selected_positions(mask).contains(t),
    decreases mask.len(),
{
    if mask.len() > 0 {
        let front = mask.drop_last();
        lemma_selected_positions(front);
        let sp = selected_positions(mask);
        let fp = selected_positions(front);
        let last = (mask.len() - 1) as usize;
        assert forall|k: int| 0 <= k < fp.len() implies (#[trigger] fp[k]) < front.len() && front[fp[k] as int] == mask[fp[k] as int] by {}
        if mask.last() {
            assert(sp == fp.push(last));
            assert forall|k: int| 0 <= k < sp.len() implies {
                let p = #[trigger] sp[k];
                p < mask.len() && mask[p as int]
            } by {
                if k < fp.len() {
                    assert(sp[k] == fp[k]);
                } else {
                    assert(sp[k] == last);
                }
            }
            assert forall|a: int, b: int| 0 <= a < b < sp.len() implies sp[a] < sp[b] by {
                assert(sp[a] == fp[a]);
                if b < fp.len() {
                    assert(sp[b] == fp[b]);
                } else {
                    assert(sp[b] == last);
                }
            }
            assert forall|t: usize| t < mask.len() && mask[t as int] implies #[trigger] sp.contains(t) by {
                if t == last {
                    assert(sp[fp.len() as int] == t);
                } else {
                    assert(front[t as int] == mask[t as int]);
                    assert(fp.contains(t));
                    let k = choose|k: int| 0 <= k < fp.len() && fp[k] == t;
                    assert(sp[k] == t);
                }
            }
        } else {
            assert(sp == fp);
            assert forall|t: usize| t < mask.len() && mask[t as int] implies #[trigger] sp.contains(t) by {
                assert(t != last);
                assert(front[t as int] == mask[t as int]);
                assert(fp.contains(t));
            }
        }
    }
}

} // verus!
