//! The order in which `sort` puts the rows of a frame by a text column:
//! strings in lexicographic order (as Rust orders them: by bytes, which for
//! UTF-8 is the order of code points), rows with equal strings in the order
//! they had. Numeric columns are ordered by their floating-point
//! values, which the caller does.
use crate::value::strings_view;
use vstd::prelude::*;

verus! {

/// Lexicographic order of character sequences by code point.
pub open spec fn seq_lt(a: Seq<char>, b: Seq<char>) -> bool
    decreases a.len(),
{
    if a.len() == 0 {
        b.len() > 0
    } else if b.len() == 0 {
        false
    } else if a[0] != b[0] {
        (a[0] as int) < (b[0] as int)
    } else {
        seq_lt(a.drop_first(), b.drop_first())
    }
}

/// No string is before itself.
pub proof fn lemma_seq_lt_irreflexive(a: Seq<char>)
    ensures
        !seq_lt(a, a),
    decreases a.len(),
{
    if a.len() > 0 {
        lemma_seq_lt_irreflexive(a.drop_first());
    }
}

/// The order is transitive.
pub proof fn lemma_seq_lt_transitive(a: Seq<char>, b: Seq<char>, c: Seq<char>)
    requires
        seq_lt(a, b),
        seq_lt(b, c),
    ensures
        seq_lt(a, c),
    decreases a.len(),
{
    if a.len() > 0 && b.len() > 0 && c.len() > 0 && a[0] == b[0] && b[0] == c[0] {
        lemma_seq_lt_transitive(a.drop_first(), b.drop_first(), c.drop_first());
    }
}

/// Of two different strings, one is before the other.
pub proof fn lemma_seq_lt_total(a: Seq<char>, b: Seq<char>)
    ensures
        a == b || seq_lt(a, b) || seq_lt(b, a),
    decreases a.len(),
{
    if a.len() > 0 && b.len() > 0 && a[0] == b[0] {
        lemma_seq_lt_total(a.drop_first(), b.drop_first());
        if a.drop_first() == b.drop_first() {
            assert(a =~= seq![a[0]] + a.drop_first());
            assert(b =~= seq![b[0]] + b.drop_first());
        }
    } else if a.len() == 0 && b.len() == 0 {
        assert(a =~= b);
    } else if a.len() > 0 && b.len() > 0 {
        assert((a[0] as int) != (b[0] as int));
    }
}

proof fn lemma_seq_lt_skip(a: Seq<char>, b: Seq<char>, i: int)
    requires
        0 <= i <= a.len(),
        i <= b.len(),
        a.take(i) == b.take(i),
    ensures
        seq_lt(a, b) == seq_lt(a.skip(i), b.skip(i)),
    decreases i,
{
    if i > 0 {
        assert(a[0] == a.take(i)[0]);
        assert(b[0] == b.take(i)[0]);
        assert(a.drop_first().take(i - 1) =~= a.take(i).drop_first());
        assert(b.drop_first().take(i - 1) =~= b.take(i).drop_first());
        lemma_seq_lt_skip(a.drop_first(), b.drop_first(), i - 1);
        assert(a.drop_first().skip(i - 1) =~= a.skip(i));
        assert(b.drop_first().skip(i - 1) =~= b.skip(i));
    } else {
        assert(a.skip(0) =~= a);
        assert(b.skip(0) =~= b);
    }
}

/// Whether `a` comes before `b` as Rust orders strings.
pub fn str_lt(a: &str, b: &str) -> (r: bool)
    ensures
        r == seq_lt(a@, b@),
{
    let n = a.unicode_len();
    let m = b.unicode_len();
    let mut i: usize = 0;
    assert(a@.take(0) =~= b@.take(0));
    while i < n && i < m
        invariant
            i <= n,
            i <= m,
            n == a@.len(),
            m == b@.len(),
            a@.take(i as int) == b@.take(i as int),
        decreases n - i,
    {
        let x = a.get_char(i);
        let y = b.get_char(i);
        if x != y {
            proof {
                lemma_seq_lt_skip(a@, b@, i as int);
                assert(a@.skip(i as int)[0] == x);
                assert(b@.skip(i as int)[0] == y);
            }
            return (x as u32) < (y as u32);
        }
        assert(a@.take(i + 1) =~= a@.take(i as int).push(x));
        assert(b@.take(i + 1) =~= b@.take(i as int).push(y));
        i = i + 1;
    }
    proof {
        lemma_seq_lt_skip(a@, b@, i as int);
    }
    i == n && i < m
}

/// Whether row `x` comes before row `y` when rows are sorted by `keys`:
/// a smaller key, or an equal key and an earlier row.
pub open spec fn row_before(keys: Seq<Seq<char>>, x: int, y: int) -> bool {
    seq_lt(keys[x], keys[y]) || (keys[x] == keys[y] && x < y)
}

/// Whether `r` lists the rows of `keys` sorted stably by key: every row
/// once, each one before the next.
pub open spec fn is_stable_order(keys: Seq<Seq<char>>, r: Seq<usize>) -> bool {
    &&& r.len() == keys.len()
    &&& forall|k: int| 0 <= k < r.len() ==> #[trigger] r[k] < keys.len()
    &&& forall|a: int, b: int| 0 <= a < b < r.len() ==> row_before(keys, r[a] as int, r[b] as int)
}

/// Two different positions of a stable order hold different rows.
pub proof fn lemma_stable_order_distinct(keys: Seq<Seq<char>>, r: Seq<usize>)
    requires
        is_stable_order(keys, r),
    ensures
        forall|a: int, b: int| 0 <= a < r.len() && 0 <= b < r.len() && a != b ==> r[a] != r[b],
{
    assert forall|a: int, b: int| 0 <= a < r.len() && 0 <= b < r.len() && a != b implies r[a] != r[b] by {
        let (x, y) = if a < b { (a, b) } else { (b, a) };
        assert(row_before(keys, r[x] as int, r[y] as int));
        if r[a] == r[b] {
            lemma_seq_lt_irreflexive(keys[r[x] as int]);
        }
    }
}

/// Sorting keeps every row: a stable order lists each row exactly once.
pub proof fn lemma_stable_order_is_permutation(keys: Seq<Seq<char>>, r: Seq<usize>)
    requires
        is_stable_order(keys, r),
    ensures
        forall|a: int, b: int| 0 <= a < r.len() && 0 <= b < r.len() && a != b ==> r[a] != r[b],
        forall|row: usize| row < keys.len() ==> #[trigger] r.contains(row),
{
    lemma_stable_order_distinct(keys, r);
    let m = r.map_values(|x: usize| x as int);
    assert(m.no_duplicates()) by {
        assert forall|a: int, b: int| 0 <= a < m.len() && 0 <= b < m.len() && a != b implies m[a] != m[b] by {
            assert(r[a] != r[b]);
        }
    }
    m.unique_seq_to_set();
    let full = vstd::set_lib::set_int_range(0, keys.len() as int);
    vstd::set_lib::lemma_int_range(0, keys.len() as int);
    assert(m.to_set().subset_of(full)) by {
        assert forall|x: int| m.to_set().contains(x) implies full.contains(x) by {
            let k = choose|k: int| 0 <= k < m.len() && m[k] == x;
            assert(r[k] < keys.len());
        }
    }
    vstd::seq_lib::seq_to_set_is_finite(m);
    vstd::set_lib::lemma_subset_equality(m.to_set(), full);
    assert forall|row: usize| row < keys.len() implies #[trigger] r.contains(row) by {
        assert(full.contains(row as int));
        assert(m.to_set().contains(row as int));
        let k = choose|k: int| 0 <= k < m.len() && m[k] == row as int;
        assert(r[k] == row);
    }
}

proof fn lemma_row_before_asymmetric(keys: Seq<Seq<char>>, x: int, y: int)
    ensures
        !(row_before(keys, x, y) && row_before(keys, y, x)),
{
    if seq_lt(keys[x], keys[y]) && seq_lt(keys[y], keys[x]) {
        lemma_seq_lt_transitive(keys[x], keys[y], keys[x]);
        lemma_seq_lt_irreflexive(keys[x]);
    } else if seq_lt(keys[x], keys[y]) && keys[y] == keys[x] {
        lemma_seq_lt_irreflexive(keys[x]);
    } else if seq_lt(keys[y], keys[x]) && keys[x] == keys[y] {
        lemma_seq_lt_irreflexive(keys[x]);
    }
}

proof fn lemma_stable_prefix(keys: Seq<Seq<char>>, r1: Seq<usize>, r2: Seq<usize>, k: int)
    requires
        is_stable_order(keys, r1),
        is_stable_order(keys, r2),
        0 <= k <= r1.len(),
    ensures
        forall|i: int| 0 <= i < k ==> r1[i] == r2[i],
    decreases k,
{
    if k > 0 {
        let c = k - 1;
        lemma_stable_prefix(keys, r1, r2, c);
        lemma_stable_order_is_permutation(keys, r1);
        lemma_stable_order_is_permutation(keys, r2);
        let x = r1[c];
        let y = r2[c];
        if x != y {
            assert(r1.contains(y));
            let j = choose|j: int| 0 <= j < r1.len() && r1[j] == y;
            if j < c {
                assert(r2[j] == y);
            }
            assert(j > c);
            assert(row_before(keys, x as int, y as int));
            assert(r2.contains(x));
            let j2 = choose|j2: int| 0 <= j2 < r2.len() && r2[j2] == x;
            if j2 < c {
                assert(r1[j2] == x);
            }
            assert(j2 > c);
            assert(row_before(keys, y as int, x as int));
            lemma_row_before_asymmetric(keys, x as int, y as int);
        }
    }
}

/// The sorted order is determined by the keys: any two stable orders of the
/// same keys are the same.
pub proof fn lemma_stable_order_unique(keys: Seq<Seq<char>>, r1: Seq<usize>, r2: Seq<usize>)
    requires
        is_stable_order(keys, r1),
        is_stable_order(keys, r2),
    ensures
        r1 == r2,
{
    lemma_stable_prefix(keys, r1, r2, r1.len() as int);
    assert(r1 =~= r2);
}

/// The rows of a frame in the order `sort` puts them by a text column.
pub fn sort_order(keys: &Vec<String>) -> (r: Vec<usize>)
    ensures
        is_stable_order(strings_view(keys@), r@),
{
    let ghost kv = strings_view(keys@);
    let mut idx: Vec<usize> = Vec::new();
    let mut i: usize = 0;
    while i < keys.len()
        invariant
            i <= keys@.len(),
            kv == strings_view(keys@),
            kv.len() == keys@.len(),
            idx@.len() == i,
            forall|k: int| 0 <= k < idx@.len() ==> #[trigger] idx@[k] < i,
            forall|a: int, b: int| 0 <= a < b < idx@.len() ==> row_before(kv, idx@[a] as int, idx@[b] as int),
        decreases keys@.len() - i,
    {
        let key = keys[i].as_str();
        assert(kv[i as int] == key@);
        let mut p: usize = 0;
        while p < idx.len() && !str_lt(key, keys[idx[p]].as_str())
            invariant
                p <= idx@.len(),
                i < keys@.len(),
                kv == strings_view(keys@),
                kv.len() == keys@.len(),
                kv[i as int] == key@,
                forall|k: int| 0 <= k < idx@.len() ==> #[trigger] idx@[k] < i,
                forall|a: int| 0 <= a < p ==> !seq_lt(key@, #[trigger] kv[idx@[a] as int]),
            decreases idx@.len() - p,
        {
            assert(kv[idx@[p as int] as int] == keys@[idx@[p as int] as int]@);
            p = p + 1;
        }
        proof {
            if p < idx@.len() {
                assert(kv[idx@[p as int] as int] == keys@[idx@[p as int] as int]@);
                assert(seq_lt(key@, kv[idx@[p as int] as int]));
            }
        }
        let ghost before = idx@;
        idx.insert(p, i);
        proof {
            let ii = i as int;
            let pp = p as int;
            assert(idx@ == before.insert(pp, i));
            assert forall|k: int| 0 <= k < idx@.len() implies #[trigger] idx@[k] < i + 1 by {
                if k < pp {
                    assert(idx@[k] == before[k]);
                } else if k > pp {
                    assert(idx@[k] == before[k - 1]);
                }
            }
            assert forall|a: int, b: int| 0 <= a < b < idx@.len() implies row_before(kv, idx@[a] as int, idx@[b] as int) by {
                if b < pp {
                    assert(idx@[a] == before[a] && idx@[b] == before[b]);
                } else if b == pp {
                    assert(idx@[a] == before[a]);
                    assert(before[a] < i);
                    assert(!seq_lt(key@, kv[before[a] as int]));
                    lemma_seq_lt_total(kv[before[a] as int], key@);
                } else if a < pp {
                    assert(idx@[a] == before[a] && idx@[b] == before[b - 1]);
                    if a < b - 1 {
                        assert(row_before(kv, before[a] as int, before[b - 1] as int));
                    } else {
                        assert(row_before(kv, before[a] as int, before[b - 1] as int)) by {
                            assert(b - 1 == a);
                            assert(false);
                        }
                    }
                } else if a == pp {
                    assert(idx@[a] == i && idx@[b] == before[b - 1]);
                    let q = before[pp] as int;
                    let t = before[b - 1] as int;
                    assert(seq_lt(key@, kv[q]));
                    if b - 1 > pp {
                        assert(row_before(kv, q, t));
                        if seq_lt(kv[q], kv[t]) {
                            lemma_seq_lt_transitive(key@, kv[q], kv[t]);
                        }
                    }
                } else {
                    assert(idx@[a] == before[a - 1] && idx@[b] == before[b - 1]);
                }
            }
        }
        i = i + 1;
    }
    idx
}

} // verus!
