//! `input name ... end`: inline data typed into a script. The header names
//! the columns and every row must have one value per column; the columns are
//! collected in an insertion-ordered map from name to column position, so a
//! repeated name keeps its first place and takes the last column's data.
use crate::formula::{join, join_strings};
use crate::options::{lemma_pos_in, pos_in};
use crate::text::{decimal, nat_to_string};
use crate::value::{strings_view, ErrV, HayashiError};
use indexmap::IndexMap;
use vstd::prelude::*;

verus! {

#[verifier::external_type_specification]
#[verifier::external_body]
#[verifier::reject_recursive_types(K)]
#[verifier::reject_recursive_types(V)]
#[verifier::reject_recursive_types(S)]
pub struct ExIndexMap<K, V, S>(IndexMap<K, V, S>);

/// The entries of a map from column names to column positions, in the
/// map's order.
pub uninterp spec fn column_entries(m: IndexMap<String, usize>) -> Seq<(Seq<char>, usize)>;

/// The position of the first entry with key `k`, or -1.
pub open spec fn key_position(e: Seq<(Seq<char>, usize)>, k: Seq<char>) -> int
    decreases e.len(),
{
    if e.len() == 0 {
        -1
    } else if key_position(e.drop_last(), k) >= 0 {
        key_position(e.drop_last(), k)
    } else if e.last().0 == k {
        e.len() - 1
    } else {
        -1
    }
}

/// The entries after inserting `(k, v)`: an entry with key `k` keeps its
/// place and takes the value `v`; otherwise the pair goes last.
pub open spec fn entries_insert(e: Seq<(Seq<char>, usize)>, k: Seq<char>, v: usize) -> Seq<(Seq<char>, usize)> {
    let p = key_position(e, k);
    if p >= 0 {
        e.update(p, (k, v))
    } else {
        e.push((k, v))
    }
}

/// The value stored under `k`, if any.
pub open spec fn entry_value(e: Seq<(Seq<char>, usize)>, k: Seq<char>) -> Option<usize> {
    let p = key_position(e, k);
    if p >= 0 {
        Some(e[p].1)
    } else {
        None
    }
}

/// Calls `IndexMap::new`, which makes an empty map.
#[verifier::external_body]
fn new_column_map() -> (m: IndexMap<String, usize>)
    ensures
        column_entries(m) == Seq::<(Seq<char>, usize)>::empty(),
{
    IndexMap::new()
}

/// Calls `IndexMap::insert`. As its documentation states, an entry whose
/// key equals `k` keeps its place in the order and takes the new value (the
/// old one is returned); otherwise the pair is added last and `None` is
/// returned.
#[verifier::external_body]
fn insert_column(m: &mut IndexMap<String, usize>, k: String, v: usize) -> (prev: Option<usize>)
    ensures
        column_entries(*final(m)) == entries_insert(column_entries(*old(m)), k@, v),
        prev == entry_value(column_entries(*old(m)), k@),
{
    m.insert(k, v)
}

/// Calls `IndexMap::iter` and copies each entry out, in the map's order.
#[verifier::external_body]
fn column_list(m: &IndexMap<String, usize>) -> (v: Vec<(String, usize)>)
    ensures
        v@.map_values(|p: (String, usize)| (p.0@, p.1)) == column_entries(*m),
{
    m.iter().map(|(k, j)| (k.clone(), *j)).collect()
}

/// The columns of inline data: each distinct header name, in order of its
/// first appearance, with the position of its last column.
pub open spec fn header_columns(headers: Seq<Seq<char>>) -> Seq<(Seq<char>, usize)>
    decreases headers.len(),
{
    if headers.len() == 0 {
        Seq::empty()
    } else {
        entries_insert(header_columns(headers.drop_last()), headers.last(), (headers.len() - 1) as usize)
    }
}

/// The first row (0-based) whose length is not `k`, if any.
pub open spec fn bad_row(row_lengths: Seq<usize>, k: nat) -> Option<int> {
    if exists|i: int| 0 <= i < row_lengths.len() && row_lengths[i] != k {
        Some(
            choose|i: int|
                0 <= i < row_lengths.len() && row_lengths[i] != k && forall|j: int|
                    0 <= j < i ==> row_lengths[j] == k,
        )
    } else {
        None
    }
}

/// What inline data with these headers and row lengths gives: its columns
/// (name and position) and the line announcing it, or the error.
pub open spec fn spec_input(alias: Seq<char>, headers: Seq<Seq<char>>, row_lengths: Seq<usize>) -> Result<
    (Seq<(Seq<char>, usize)>, Seq<char>),
    ErrV,
> {
    let k = headers.len();
    let names = join(headers, ", "@);
    if k == 0 {
        Err(ErrV::Runtime("input: no variables in header"@))
    } else if row_lengths.len() == 0 {
        Err(ErrV::Runtime("input: no data rows"@))
    } else if bad_row(row_lengths, k) is Some {
        let i = bad_row(row_lengths, k)->Some_0;
        Err(
            ErrV::Runtime(
                "input: row "@ + decimal(i + 1) + " has "@ + decimal(row_lengths[i] as int)
                    + " values, expected "@ + decimal(k as int) + " ("@ + names + ")"@,
            ),
        )
    } else {
        Ok(
            (
                header_columns(headers),
                "input → "@ + alias + " ("@ + decimal(row_lengths.len() as int) + " obs, "@ + decimal(
                    k as int,
                ) + " vars: "@ + names + ")"@,
            ),
        )
    }
}

proof fn lemma_first_bad(row_lengths: Seq<usize>, k: nat, i: int)
    requires
        0 <= i < row_lengths.len(),
        row_lengths[i] != k,
        forall|j: int| 0 <= j < i ==> row_lengths[j] == k,
    ensures
        bad_row(row_lengths, k) == Some(i),
{
    assert(exists|t: int|
        0 <= t < row_lengths.len() && row_lengths[t] != k && forall|j: int| 0 <= j < t ==> row_lengths[j] == k)
        by {
        assert(0 <= i < row_lengths.len() && row_lengths[i] != k && forall|j: int|
            0 <= j < i ==> row_lengths[j] == k);
    }
    assert(exists|t: int| 0 <= t < row_lengths.len() && row_lengths[t] != k);
    let c = choose|t: int|
        0 <= t < row_lengths.len() && row_lengths[t] != k && forall|j: int| 0 <= j < t ==> row_lengths[j] == k;
    if c < i {
        assert(row_lengths[c] == k);
    }
    if i < c {
        assert(row_lengths[i] == k);
    }
}

/// Checks the shape of inline data and collects its columns.
pub fn exec_input(alias: &str, headers: &Vec<String>, row_lengths: &Vec<usize>) -> (r: Result<
    (Vec<(String, usize)>, String),
    HayashiError,
>)
    ensures
        match (r, spec_input(alias@, strings_view(headers@), row_lengths@)) {
            (Ok((cols, line)), Ok((c, l))) => cols@.map_values(|p: (String, usize)| (p.0@, p.1)) == c
                && line@ == l,
            (Err(e), Err(x)) => e@ == x,
            _ => false,
        },
{
    let ghost hv = strings_view(headers@);
    let k = headers.len();
    if k == 0 {
        return Err(HayashiError::Runtime(String::from_str("input: no variables in header")));
    }
    if row_lengths.len() == 0 {
        return Err(HayashiError::Runtime(String::from_str("input: no data rows")));
    }
    let names = join_strings(headers, ", ");
    let mut i: usize = 0;
    while i < row_lengths.len()
        invariant
            i <= row_lengths@.len(),
            k == headers@.len(),
            k > 0,
            row_lengths@.len() > 0,
            hv == strings_view(headers@),
            names@ == join(hv, ", "@),
            forall|j: int| 0 <= j < i ==> row_lengths@[j] == k,
        decreases row_lengths@.len() - i,
    {
        if row_lengths[i] != k {
            proof {
                lemma_first_bad(row_lengths@, k as nat, i as int);
            }
            return Err(
                HayashiError::Runtime(
                    String::from_str("input: row ").concat(nat_to_string((i + 1) as u64).as_str()).concat(
                        " has ",
                    ).concat(nat_to_string(row_lengths[i] as u64).as_str()).concat(" values, expected ").concat(
                        nat_to_string(k as u64).as_str(),
                    ).concat(" (").concat(names.as_str()).concat(")"),
                ),
            );
        }
        i = i + 1;
    }
    assert(bad_row(row_lengths@, k as nat) is None) by {
        if exists|t: int| 0 <= t < row_lengths@.len() && row_lengths@[t] != k {
            let t = choose|t: int| 0 <= t < row_lengths@.len() && row_lengths@[t] != k;
            assert(row_lengths@[t] == k);
        }
    }
    let mut m = new_column_map();
    let mut j: usize = 0;
    while j < k
        invariant
            j <= k,
            k == headers@.len(),
            hv == strings_view(headers@),
            column_entries(m) == header_columns(hv.take(j as int)),
        decreases k - j,
    {
        let _ = insert_column(&mut m, headers[j].clone(), j);
        proof {
            let t = hv.take(j + 1);
            assert(t.drop_last() =~= hv.take(j as int));
            assert(t.last() == headers@[j as int]@);
        }
        j = j + 1;
    }
    assert(hv.take(k as int) =~= hv);
    let cols = column_list(&m);
    let line = String::from_str("input → ").concat(alias).concat(" (").concat(
        nat_to_string(row_lengths.len() as u64).as_str(),
    ).concat(" obs, ").concat(nat_to_string(k as u64).as_str()).concat(" vars: ").concat(names.as_str()).concat(
        ")",
    );
    Ok((cols, line))
}


proof fn lemma_key_position(e: Seq<(Seq<char>, usize)>, x: Seq<char>)
    ensures
        -1 <= key_position(e, x) < e.len(),
        key_position(e, x) >= 0 ==> e[key_position(e, x)].0 == x,
        forall|j: int| 0 <= j < key_position(e, x) ==> e[j].0 != x,
        key_position(e, x) < 0 ==> forall|j: int| 0 <= j < e.len() ==> e[j].0 != x,
    decreases e.len(),
{
    if e.len() > 0 {
        lemma_key_position(e.drop_last(), x);
        assert forall|j: int| 0 <= j < e.len() - 1 implies e[j] == e.drop_last()[j] by {}
    }
}

proof fn lemma_key_position_push(e: Seq<(Seq<char>, usize)>, b: (Seq<char>, usize), x: Seq<char>)
    ensures
        key_position(e.push(b), x) == if key_position(e, x) >= 0 {
            key_position(e, x)
        } else if b.0 == x {
            e.len() as int
        } else {
            -1
        },
{
    assert(e.push(b).drop_last() =~= e);
}

proof fn lemma_key_position_update(e: Seq<(Seq<char>, usize)>, p: int, b: (Seq<char>, usize), x: Seq<char>)
    requires
        0 <= p < e.len(),
        e[p].0 == b.0,
    ensures
        key_position(e.update(p, b), x) == key_position(e, x),
    decreases e.len(),
{
    let u = e.update(p, b);
    if p < e.len() - 1 {
        assert(u.drop_last() =~= e.drop_last().update(p, b));
        lemma_key_position_update(e.drop_last(), p, b, x);
    } else {
        assert(u.drop_last() =~= e.drop_last());
    }
}

/// The columns of inline data: every header name appears exactly once, at
/// the place of its first appearance, with the position of its last column.
pub proof fn lemma_header_columns(headers: Seq<Seq<char>>, x: Seq<char>)
    requires
        headers.len() <= usize::MAX,
    ensures
        key_position(header_columns(headers), x) >= 0 <==> headers.contains(x),
        headers.contains(x) ==> header_columns(headers)[key_position(header_columns(headers), x)].1
            == pos_in(headers, x),
        forall|i: int, j: int|
            0 <= i < j < header_columns(headers).len() ==> header_columns(headers)[i].0 != header_columns(
                headers,
            )[j].0,
    decreases headers.len(),
{
    if headers.len() > 0 {
        let p = headers.drop_last();
        let y = headers.last();
        let e = header_columns(p);
        lemma_header_columns(p, x);
        lemma_header_columns(p, y);
        lemma_key_position(e, x);
        lemma_key_position(e, y);
        lemma_pos_in(headers, x);
        lemma_pos_in(p, x);
        let k = (headers.len() - 1) as usize;
        let q = key_position(e, y);
        assert(headers.drop_last() =~= p);
        if q >= 0 {
            lemma_key_position_update(e, q, (y, k), x);
        } else {
            lemma_key_position_push(e, (y, k), x);
        }
        if headers.contains(x) && x != y {
            let t = choose|t: int| 0 <= t < headers.len() && headers[t] == x;
            assert(p[t] == x);
        }
        if p.contains(x) {
            let t = choose|t: int| 0 <= t < p.len() && p[t] == x;
            assert(headers[t] == x);
        }
        if x == y {
            assert(headers[headers.len() - 1] == x);
        }
        let h = header_columns(headers);
        assert forall|i: int, j: int| 0 <= i < j < h.len() implies h[i].0 != h[j].0 by {
            if q >= 0 {
                assert(h[i].0 == e[i].0 && h[j].0 == e[j].0);
            } else if j == e.len() {
                assert(h[j].0 == y);
                assert(h[i] == e[i]);
                lemma_key_position(e, y);
            } else {
                assert(h[i] == e[i] && h[j] == e[j]);
            }
        }
    }
}

} // verus!
