use crate::ops::find_entry;
use crate::semantics::dict_lookup;
use crate::text::str_eq;
use crate::value::{strings_view, entries_view, lemma_entries_view, ErrV, HayashiError, Val, Value};
use vstd::prelude::*;

verus! {

/// The value of option `name` among named options (`name=value` in a call).
pub open spec fn opt_get(opts: Seq<(String, Value)>, name: Seq<char>) -> Option<Val> {
    dict_lookup(entries_view(opts), name)
}

/// Looks up option `name`.
pub fn get_option(opts: &Vec<(String, Value)>, name: &str) -> (r: Option<Value>)
    ensures
        match r {
            Some(v) => opt_get(opts@, name@) == Some(v@),
            None => opt_get(opts@, name@) is None,
        },
{
    let key = String::from_str(name);
    proof {
        lemma_entries_view(opts@);
    }
    match find_entry(opts, &key) {
        Some(j) => Some(opts[j].1.copy()),
        None => None,
    }
}

/// The covariance estimator of a regression.
pub enum CovSpec {
    NonRobust,
    HC1,
    HC2,
    HC3,
    HC4,
    NeweyWest(usize),
    Clustered(Vec<usize>),
    ClusteredTwoWay(Vec<usize>, Vec<usize>),
}

/// The abstract form of a covariance choice.
pub enum CovV {
    NonRobust,
    HC1,
    HC2,
    HC3,
    HC4,
    NeweyWest(usize),
    Clustered(Seq<usize>),
    ClusteredTwoWay(Seq<usize>, Seq<usize>),
}

impl View for CovSpec {
    type V = CovV;

    open spec fn view(&self) -> CovV {
        match self {
            CovSpec::NonRobust => CovV::NonRobust,
            CovSpec::HC1 => CovV::HC1,
            CovSpec::HC2 => CovV::HC2,
            CovSpec::HC3 => CovV::HC3,
            CovSpec::HC4 => CovV::HC4,
            CovSpec::NeweyWest(l) => CovV::NeweyWest(*l),
            CovSpec::Clustered(ids) => CovV::Clustered(ids@),
            CovSpec::ClusteredTwoWay(a, b) => CovV::ClusteredTwoWay(a@, b@),
        }
    }
}

/// The abstract form of a covariance result.
pub open spec fn cov_result_view(r: Result<CovSpec, HayashiError>) -> Result<CovV, ErrV> {
    match r {
        Ok(c) => Ok(c@),
        Err(e) => Err(e@),
    }
}

/// The covariance named by the `cov=` option.
pub open spec fn spec_resolve_cov(opt: Option<Val>) -> Result<CovV, ErrV> {
    match opt {
        None => Ok(CovV::NonRobust),
        Some(Val::Str(s)) => if s == "nonrobust"@ || s == "ols"@ {
            Ok(CovV::NonRobust)
        } else if s == "robust"@ || s == "HC1"@ {
            Ok(CovV::HC1)
        } else if s == "HC2"@ {
            Ok(CovV::HC2)
        } else if s == "HC3"@ {
            Ok(CovV::HC3)
        } else if s == "HC4"@ {
            Ok(CovV::HC4)
        } else {
            Err(ErrV::Type("unknown covariance type '"@ + s + "'"@))
        },
        Some(_) => Err(ErrV::Type("cov= must be a string"@)),
    }
}

/// The name of a covariance estimator as `cov=` spells it.
pub open spec fn cov_name(c: CovV) -> Seq<char> {
    match c {
        CovV::NonRobust => "nonrobust"@,
        CovV::HC1 => "HC1"@,
        CovV::HC2 => "HC2"@,
        CovV::HC3 => "HC3"@,
        CovV::HC4 => "HC4"@,
        _ => "cluster"@,
    }
}

/// The estimators that `cov=` names.
pub open spec fn is_named_cov(c: CovV) -> bool {
    c is NonRobust || c is HC1 || c is HC2 || c is HC3 || c is HC4
}

/// Each estimator that `cov=` names is the one its name selects, and a name
/// selects only the estimator of that name or one of the two aliases
/// (`robust` for HC1, `ols` for the non-robust one); so distinct names of
/// estimators select distinct estimators.
pub proof fn lemma_cov_names(c: CovV, s: Seq<char>)
    ensures
        is_named_cov(c) ==> spec_resolve_cov(Some(Val::Str(cov_name(c)))) == Ok::<CovV, ErrV>(c),
        spec_resolve_cov(Some(Val::Str(s))) == Ok::<CovV, ErrV>(c) ==> is_named_cov(c) && (s == cov_name(c) || (
        s == "robust"@ && c == CovV::HC1) || (s == "ols"@ && c == CovV::NonRobust)),
{
    reveal_strlit("nonrobust");
    reveal_strlit("ols");
    reveal_strlit("robust");
    reveal_strlit("HC1");
    reveal_strlit("HC2");
    reveal_strlit("HC3");
    reveal_strlit("HC4");
    if is_named_cov(c) {
        let n = cov_name(c);
        assert(n.len() > 0);
        match c {
            CovV::NonRobust => {
                assert(n =~= "nonrobust"@);
            },
            CovV::HC1 => {
                assert(n.len() == 3 && n[0] == 'H');
                assert("ols"@[0] == 'o');
                assert(n != "nonrobust"@ && n != "ols"@ && n != "robust"@);
            },
            CovV::HC2 => {
                assert(n[2] == '2' && n[0] == 'H');
                assert(n != "nonrobust"@ && n != "ols"@ && n != "robust"@ && n != "HC1"@);
            },
            CovV::HC3 => {
                assert(n[2] == '3' && n[0] == 'H');
                assert(n != "nonrobust"@ && n != "ols"@ && n != "robust"@ && n != "HC1"@ && n != "HC2"@);
            },
            CovV::HC4 => {
                assert(n[2] == '4' && n[0] == 'H');
                assert(n != "nonrobust"@ && n != "ols"@ && n != "robust"@ && n != "HC1"@ && n != "HC2"@
                    && n != "HC3"@);
            },
            _ => {},
        }
    }
}

/// Resolves a simple covariance option.
pub fn resolve_cov(opt_val: Option<&Value>) -> (r: Result<CovSpec, HayashiError>)
    ensures
        cov_result_view(r) == spec_resolve_cov(
            match opt_val {
                Some(v) => Some(v@),
                None => None,
            },
        ),
{
    match opt_val {
        None => Ok(CovSpec::NonRobust),
        Some(Value::Str(s)) => {
            let t = s.as_str();
            if str_eq(t, "nonrobust") || str_eq(t, "ols") {
                Ok(CovSpec::NonRobust)
            } else if str_eq(t, "robust") || str_eq(t, "HC1") {
                Ok(CovSpec::HC1)
            } else if str_eq(t, "HC2") {
                Ok(CovSpec::HC2)
            } else if str_eq(t, "HC3") {
                Ok(CovSpec::HC3)
            } else if str_eq(t, "HC4") {
                Ok(CovSpec::HC4)
            } else {
                Err(
                    HayashiError::Type(
                        String::from_str("unknown covariance type '").concat(t).concat("'"),
                    ),
                )
            }
        },
        Some(_) => Err(HayashiError::Type(String::from_str("cov= must be a string"))),
    }
}

/// Index of the last occurrence of `x` in `s`, or -1.
pub open spec fn pos_in<T>(s: Seq<T>, x: T) -> int
    decreases s.len(),
{
    if s.len() == 0 {
        -1
    } else if s.last() == x {
        s.len() - 1
    } else {
        pos_in(s.drop_last(), x)
    }
}

/// The distinct elements of `s` in order of first appearance.
pub open spec fn distinct_in_order<T>(s: Seq<T>) -> Seq<T>
    decreases s.len(),
{
    if s.len() == 0 {
        Seq::empty()
    } else {
        let p = distinct_in_order(s.drop_last());
        if p.contains(s.last()) {
            p
        } else {
            p.push(s.last())
        }
    }
}

/// Compact cluster ids: each key gets the position of its value among the
/// distinct values in order of first appearance.
pub open spec fn compact_ids<T>(keys: Seq<T>) -> Seq<usize>
    decreases keys.len(),
{
    if keys.len() == 0 {
        Seq::empty()
    } else {
        compact_ids(keys.drop_last()).push(pos_in(distinct_in_order(keys), keys.last()) as usize)
    }
}

pub(crate) proof fn lemma_pos_in<T>(s: Seq<T>, x: T)
    ensures
        -1 <= pos_in(s, x) < s.len(),
        pos_in(s, x) >= 0 <==> s.contains(x),
        pos_in(s, x) >= 0 ==> s[pos_in(s, x)] == x,
    decreases s.len(),
{
    if s.len() > 0 {
        lemma_pos_in(s.drop_last(), x);
        if s.last() == x {
            assert(s[s.len() - 1] == x);
        } else {
            if s.contains(x) {
                let k = choose|k: int| 0 <= k < s.len() && s[k] == x;
                assert(s.drop_last()[k] == x);
            }
            if s.drop_last().contains(x) {
                let k = choose|k: int| 0 <= k < s.drop_last().len() && s.drop_last()[k] == x;
                assert(s[k] == x);
            }
        }
    }
}

proof fn lemma_pos_in_push<T>(s: Seq<T>, y: T, x: T)
    ensures
        pos_in(s.push(y), x) == if y == x { s.len() as int } else { pos_in(s, x) },
{
    assert(s.push(y).drop_last() =~= s);
}

pub(crate) proof fn lemma_distinct_facts<T>(s: Seq<T>)
    ensures
        distinct_in_order(s).len() <= s.len(),
        forall|x: T| distinct_in_order(s).contains(x) <==> s.contains(x),
        forall|i: int, j: int|
            0 <= i < j < distinct_in_order(s).len() ==> distinct_in_order(s)[i] != distinct_in_order(
                s,
            )[j],
    decreases s.len(),
{
    if s.len() > 0 {
        let p = s.drop_last();
        let y = s.last();
        lemma_distinct_facts(p);
        let dp = distinct_in_order(p);
        assert forall|x: T| distinct_in_order(s).contains(x) <==> s.contains(x) by {
            if s.contains(x) && x != y {
                let t = choose|t: int| 0 <= t < s.len() && s[t] == x;
                assert(p[t] == x);
            }
            if p.contains(x) {
                let t = choose|t: int| 0 <= t < p.len() && p[t] == x;
                assert(s[t] == x);
            }
            if x == y {
                assert(s[s.len() - 1] == x);
                if !dp.contains(y) {
                    assert(dp.push(y)[dp.len() as int] == y);
                }
            }
            if !dp.contains(y) && distinct_in_order(s).contains(x) && x != y {
                let t = choose|t: int| 0 <= t < dp.len() + 1 && dp.push(y)[t] == x;
                assert(dp[t] == x);
            }
            if dp.contains(x) && !dp.contains(y) {
                let t = choose|t: int| 0 <= t < dp.len() && dp[t] == x;
                assert(dp.push(y)[t] == x);
            }
        }
        if !dp.contains(y) {
            let q = dp.push(y);
            assert forall|i: int, j: int| 0 <= i < j < q.len() implies q[i] != q[j] by {
                if j == dp.len() {
                    if q[i] == q[j] {
                        assert(dp[i] == y);
                    }
                } else {
                    assert(q[i] == dp[i] && q[j] == dp[j]);
                }
            }
        }
    }
}

/// A cluster column: integer or string keys.
pub enum KeyColumn {
    Int(Vec<i64>),
    Str(Vec<String>),
}

pub(crate) fn find_int(seen: &Vec<i64>, k: i64) -> (r: Option<usize>)
    ensures
        match r {
            Some(p) => pos_in(seen@, k) == p && p < seen@.len(),
            None => !seen@.contains(k),
        },
{
    let mut j: usize = seen.len();
    while j > 0
        invariant
            j <= seen@.len(),
            forall|t: int| j <= t < seen@.len() ==> seen@[t] != k,
        decreases j,
    {
        if seen[j - 1] == k {
            proof {
                lemma_pos_unique(seen@, k, j - 1);
            }
            return Some(j - 1);
        }
        j = j - 1;
    }
    assert(!seen@.contains(k)) by {
        if seen@.contains(k) {
            let t = choose|t: int| 0 <= t < seen@.len() && seen@[t] == k;
        }
    }
    None
}

fn find_str(seen: &Vec<String>, k: &String) -> (r: Option<usize>)
    ensures
        match r {
            Some(p) => pos_in(strings_view(seen@), k@) == p && p < seen@.len(),
            None => !strings_view(seen@).contains(k@),
        },
{
    let ghost sv = strings_view(seen@);
    let mut j: usize = seen.len();
    while j > 0
        invariant
            j <= seen@.len(),
            sv == strings_view(seen@),
            sv.len() == seen@.len(),
            forall|t: int| j <= t < sv.len() ==> sv[t] != k@,
        decreases j,
    {
        if seen[j - 1] == *k {
            proof {
                lemma_pos_unique(sv, k@, j - 1);
            }
            return Some(j - 1);
        }
        j = j - 1;
    }
    assert(!sv.contains(k@)) by {
        if sv.contains(k@) {
            let t = choose|t: int| 0 <= t < sv.len() && sv[t] == k@;
        }
    }
    None
}

fn int_cluster_ids(keys: &Vec<i64>) -> (ids: Vec<usize>)
    ensures
        ids@ == compact_ids(keys@),
{
    let mut seen: Vec<i64> = Vec::new();
    let mut ids: Vec<usize> = Vec::new();
    let mut i: usize = 0;
    while i < keys.len()
        invariant
            i <= keys@.len(),
            seen@ == distinct_in_order(keys@.take(i as int)),
            ids@ == compact_ids(keys@.take(i as int)),
            seen@.len() <= i,
        decreases keys@.len() - i,
    {
        let k = keys[i];
        let ghost pre = keys@.take(i as int);
        let ghost cur = keys@.take(i + 1);
        assert(cur.drop_last() =~= pre);
        assert(cur.last() == k);
        match find_int(&seen, k) {
            Some(p) => {
                proof {
                    lemma_pos_in(seen@, k);
                }
                ids.push(p);
            },
            None => {
                let p = seen.len();
                seen.push(k);
                proof {
                    lemma_pos_in_push(distinct_in_order(pre), k, k);
                }
                ids.push(p);
            },
        }
        i = i + 1;
        assert(ids@ =~= compact_ids(keys@.take(i as int)));
    }
    assert(keys@.take(keys@.len() as int) =~= keys@);
    ids
}

fn str_cluster_ids(keys: &Vec<String>) -> (ids: Vec<usize>)
    ensures
        ids@ == compact_ids(strings_view(keys@)),
{
    let ghost kv = strings_view(keys@);
    let mut seen: Vec<String> = Vec::new();
    let mut ids: Vec<usize> = Vec::new();
    let mut i: usize = 0;
    assert(strings_view(seen@) =~= Seq::<Seq<char>>::empty());
    while i < keys.len()
        invariant
            i <= keys@.len(),
            kv == strings_view(keys@),
            kv.len() == keys@.len(),
            strings_view(seen@) == distinct_in_order(kv.take(i as int)),
            ids@ == compact_ids(kv.take(i as int)),
            seen@.len() <= i,
        decreases keys@.len() - i,
    {
        let ghost pre = kv.take(i as int);
        let ghost cur = kv.take(i + 1);
        assert(cur.drop_last() =~= pre);
        assert(cur.last() == keys@[i as int]@);
        match find_str(&seen, &keys[i]) {
            Some(p) => {
                proof {
                    lemma_pos_in(strings_view(seen@), keys@[i as int]@);
                }
                ids.push(p);
            },
            None => {
                let p = seen.len();
                let ghost old_seen = seen@;
                seen.push(keys[i].clone());
                proof {
                    assert(strings_view(seen@) =~= strings_view(old_seen).push(keys@[i as int]@));
                    lemma_pos_in_push(distinct_in_order(pre), keys@[i as int]@, keys@[i as int]@);
                }
                ids.push(p);
            },
        }
        i = i + 1;
        assert(ids@ =~= compact_ids(kv.take(i as int)));
    }
    assert(kv.take(keys@.len() as int) =~= kv);
    ids
}

proof fn lemma_pos_unique<T>(s: Seq<T>, x: T, p: int)
    requires
        0 <= p < s.len(),
        s[p] == x,
        forall|t: int| p < t < s.len() ==> s[t] != x,
    ensures
        pos_in(s, x) == p,
    decreases s.len(),
{
    if s.len() - 1 != p {
        assert(s.last() != x);
        lemma_pos_unique(s.drop_last(), x, p);
    }
}


/// The key columns of a data frame that clustering can use, by name.
pub struct KeyFrame {
    pub columns: Vec<(String, KeyColumn)>,
}

/// The column named `name` (the last one of that name).
pub open spec fn key_column(cols: Seq<(String, KeyColumn)>, name: Seq<char>) -> Option<KeyColumn>
    decreases cols.len(),
{
    if cols.len() == 0 {
        None
    } else if cols.last().0@ == name {
        Some(cols.last().1)
    } else {
        key_column(cols.drop_last(), name)
    }
}

/// The cluster ids of column `col`, or the error when there is no such column.
pub open spec fn spec_cluster_ids(df: KeyFrame, col: Seq<char>) -> Result<Seq<usize>, ErrV> {
    match key_column(df.columns@, col) {
        Some(KeyColumn::Int(v)) => Ok(compact_ids(v@)),
        Some(KeyColumn::Str(v)) => Ok(compact_ids(strings_view(v@))),
        None => Err(ErrV::Runtime("cluster column '"@ + col + "' not found"@)),
    }
}

/// Converts an id column (integer or string) into compact cluster ids.
pub fn col_to_cluster_ids(df: &KeyFrame, col: &str) -> (r: Result<Vec<usize>, HayashiError>)
    ensures
        match (r, spec_cluster_ids(*df, col@)) {
            (Ok(a), Ok(b)) => a@ == b,
            (Err(a), Err(b)) => a@ == b,
            _ => false,
        },
{
    let mut k: usize = df.columns.len();
    assert(df.columns@.take(k as int) =~= df.columns@);
    while k > 0
        invariant
            k <= df.columns@.len(),
            key_column(df.columns@, col@) == key_column(df.columns@.take(k as int), col@),
        decreases k,
    {
        assert(df.columns@.take(k as int).drop_last() =~= df.columns@.take(k - 1));
        if str_eq(df.columns[k - 1].0.as_str(), col) {
            return match &df.columns[k - 1].1 {
                KeyColumn::Int(v) => Ok(int_cluster_ids(v)),
                KeyColumn::Str(v) => Ok(str_cluster_ids(v)),
            };
        }
        k = k - 1;
    }
    Err(
        HayashiError::Runtime(
            String::from_str("cluster column '").concat(col).concat("' not found"),
        ),
    )
}

/// Whether a character is an ASCII decimal digit.
pub open spec fn is_digit(c: char) -> bool {
    '0' <= c <= '9'
}

/// The number written by a string of decimal digits.
pub open spec fn digits_value(d: Seq<char>) -> int
    decreases d.len(),
{
    if d.len() == 0 {
        0
    } else {
        digits_value(d.drop_last()) * 10 + (d.last() as int - '0' as int)
    }
}

/// `str::parse::<usize>`: an optional `+`, then one or more decimal digits
/// whose value fits in `usize`.
pub open spec fn spec_parse_usize(s: Seq<char>) -> Option<usize> {
    let d = unsigned_digits(s);
    if d.len() > 0 && all_digits(d) && digits_value(d) <= usize::MAX {
        Some(digits_value(d) as usize)
    } else {
        None
    }
}

/// The text after an optional leading `+`.
pub open spec fn unsigned_digits(s: Seq<char>) -> Seq<char> {
    if s.len() > 0 && s[0] == '+' {
        s.subrange(1, s.len() as int)
    } else {
        s
    }
}

/// Whether every character is a decimal digit.
pub open spec fn all_digits(d: Seq<char>) -> bool {
    forall|i: int| 0 <= i < d.len() ==> is_digit(#[trigger] d[i])
}

proof fn lemma_digits_monotone(d: Seq<char>, j: int)
    requires
        0 <= j <= d.len(),
        forall|i: int| 0 <= i < d.len() ==> is_digit(#[trigger] d[i]),
    ensures
        digits_value(d.take(j)) <= digits_value(d),
        digits_value(d) >= 0,
    decreases d.len(),
{
    if d.len() > 0 {
        let p = d.drop_last();
        assert forall|i: int| 0 <= i < p.len() implies is_digit(#[trigger] p[i]) by {
            assert(p[i] == d[i]);
        }
        if j < d.len() {
            assert(d.take(j) =~= p.take(j));
            lemma_digits_monotone(p, j);
        } else {
            assert(d.take(j) =~= d);
            lemma_digits_monotone(p, 0);
        }
    } else {
        assert(d.take(j) =~= d);
    }
}

/// Parses a decimal `usize`, as `str::parse::<usize>` does.
pub fn parse_usize(s: &str) -> (r: Option<usize>)
    ensures
        r == spec_parse_usize(s@),
{
    let n = s.unicode_len();
    let start: usize = if n > 0 && s.get_char(0) == '+' { 1 } else { 0 };
    let ghost d = unsigned_digits(s@);
    assert(d =~= s@.subrange(start as int, n as int));
    if start == n {
        return None;
    }
    let mut acc: u128 = 0;
    let mut j: usize = start;
    while j < n
        invariant
            start <= j <= n,
            n == s@.len(),
            d == s@.subrange(start as int, n as int),
            d == unsigned_digits(s@),
            forall|i: int| 0 <= i < j - start ==> is_digit(#[trigger] d[i]),
            acc == digits_value(d.take(j - start)),
            acc <= usize::MAX,
        decreases n - j,
    {
        let c = s.get_char(j);
        assert(d[j - start] == s@[j as int]);
        if !('0' <= c && c <= '9') {
            assert(!is_digit(d[j - start]));
            assert(!all_digits(d));
            return None;
        }
        let digit: u128 = (c as u32 - '0' as u32) as u128;
        assert(d.take(j - start + 1).drop_last() =~= d.take(j - start));
        acc = acc * 10 + digit;
        j = j + 1;
        assert(acc == digits_value(d.take(j - start)));
        if acc > usize::MAX as u128 {
            proof {
                if all_digits(d) {
                    lemma_digits_monotone(d, j - start);
                }
            }
            return None;
        }
    }
    assert(d.take(n - start) =~= d);
    Some(acc as usize)
}

/// The covariance resolved from all options: `cluster=` (and `cluster2=`)
/// name id columns, `nw=` asks for Newey-West lags (a number, or any other
/// string for `default_lags`), otherwise `cov=` decides.
pub open spec fn spec_resolve_cov_full(opts: Seq<(String, Value)>, df: KeyFrame, default_lags: usize) -> Result<CovV, ErrV> {
    match opt_get(opts, "cluster"@) {
        Some(Val::Str(c)) => match spec_cluster_ids(df, c) {
            Ok(ids) => match opt_get(opts, "cluster2"@) {
                Some(Val::Str(c2)) => match spec_cluster_ids(df, c2) {
                    Ok(ids2) => Ok(CovV::ClusteredTwoWay(ids, ids2)),
                    Err(x) => Err(x),
                },
                _ => Ok(CovV::Clustered(ids)),
            },
            Err(x) => Err(x),
        },
        _ => match opt_get(opts, "nw"@) {
            Some(Val::Str(nw)) => Ok(
                CovV::NeweyWest(
                    match spec_parse_usize(nw) {
                        Some(l) => l,
                        None => default_lags,
                    },
                ),
            ),
            Some(Val::Int(nw)) => Ok(CovV::NeweyWest(nw as usize)),
            _ => spec_resolve_cov(opt_get(opts, "cov"@)),
        },
    }
}

/// Resolves the full covariance, including cluster, Newey-West, and robust.
pub fn resolve_cov_full(opt_map: &Vec<(String, Value)>, df: &KeyFrame, default_lags: usize) -> (r: Result<
    CovSpec,
    HayashiError,
>)
    ensures
        cov_result_view(r) == spec_resolve_cov_full(opt_map@, *df, default_lags),
{
    match get_option(opt_map, "cluster") {
        Some(Value::Str(c)) => {
            let ids = col_to_cluster_ids(df, c.as_str())?;
            match get_option(opt_map, "cluster2") {
                Some(Value::Str(c2)) => {
                    let ids2 = col_to_cluster_ids(df, c2.as_str())?;
                    Ok(CovSpec::ClusteredTwoWay(ids, ids2))
                },
                _ => Ok(CovSpec::Clustered(ids)),
            }
        },
        _ => match get_option(opt_map, "nw") {
            Some(Value::Str(nw)) => {
                let lags = match parse_usize(nw.as_str()) {
                    Some(l) => l,
                    None => default_lags,
                };
                Ok(CovSpec::NeweyWest(lags))
            },
            Some(Value::Int(nw)) => Ok(CovSpec::NeweyWest(nw as usize)),
            _ => {
                let cov = get_option(opt_map, "cov");
                match cov {
                    Some(v) => resolve_cov(Some(&v)),
                    None => resolve_cov(None),
                }
            },
        },
    }
}

/// The number of bootstrap replications: option `n=`, else `reps=`, else 1000.
pub open spec fn spec_bootstrap_reps(opts: Seq<(String, Value)>) -> usize {
    match opt_get(opts, "n"@) {
        Some(Val::Int(v)) => v as usize,
        _ => match opt_get(opts, "reps"@) {
            Some(Val::Int(v)) => v as usize,
            _ => 1000,
        },
    }
}


/// How `bootstrap` resamples: re-running a named estimator (three or more
/// arguments) or resampling pairs.
#[derive(PartialEq, Eq, Structural, Clone, Copy, Debug)]
pub enum BootstrapKind {
    Generic,
    Pairs,
}

impl crate::interp::Interpreter {
    /// The number of bootstrap replications: option `n=`, else `reps=`,
    /// else 1000 (a negative count wraps as it is converted).
    pub fn bootstrap_reps(opt_map: &Vec<(String, Value)>) -> (n: usize)
        ensures
            n == spec_bootstrap_reps(opt_map@),
    {
        match get_option(opt_map, "n") {
            Some(Value::Int(v)) => v as usize,
            _ => match get_option(opt_map, "reps") {
                Some(Value::Int(v)) => v as usize,
                _ => 1000,
            },
        }
    }

    /// `bootstrap(...)`: the kind of resampling and the number of
    /// replications.
    pub fn bootstrap(args: &Vec<crate::ast::Expr>, opt_map: &Vec<(String, Value)>) -> (r: (
        BootstrapKind,
        usize,
    ))
        ensures
            r.0 == (if args@.len() >= 3 { BootstrapKind::Generic } else { BootstrapKind::Pairs }),
            r.1 == spec_bootstrap_reps(opt_map@),
    {
        let n = Self::bootstrap_reps(opt_map);
        if args.len() >= 3 {
            (BootstrapKind::Generic, n)
        } else {
            (BootstrapKind::Pairs, n)
        }
    }
}

/// The window and date column of a rolling regression, or its error: the
/// window is option `window=` as an integer (converted as `as usize`
/// converts it), required; the dates are option `date=` as a column name.
pub open spec fn spec_rolling_options(opts: Seq<(String, Value)>) -> Result<(usize, Option<Seq<char>>), ErrV> {
    match opt_get(opts, "window"@) {
        None => Err(ErrV::Runtime("rolling() requires window=N (e.g. window=30)"@)),
        Some(Val::Int(n)) => match opt_get(opts, "date"@) {
            None => Ok((n as usize, None)),
            Some(Val::Str(c)) => Ok((n as usize, Some(c))),
            Some(_) => Err(ErrV::Type("rolling: date= must be string column name"@)),
        },
        Some(_) => Err(ErrV::Type("window= must be integer"@)),
    }
}

impl crate::interp::Interpreter {
    /// The window and date column of `rolling(...)`.
    pub fn eval_rolling(opt_map: &Vec<(String, Value)>) -> (r: Result<(usize, Option<String>), HayashiError>)
        ensures
            match (r, spec_rolling_options(opt_map@)) {
                (Ok((w, d)), Ok((w2, d2))) => w == w2 && match d {
                    Some(c) => d2 == Some(c@),
                    None => d2 is None,
                },
                (Err(e), Err(x)) => e@ == x,
                _ => false,
            },
    {
        let window: usize = match get_option(opt_map, "window") {
            None => {
                return Err(HayashiError::Runtime(String::from_str("rolling() requires window=N (e.g. window=30)")));
            },
            Some(Value::Int(n)) => n as usize,
            Some(_) => {
                return Err(HayashiError::Type(String::from_str("window= must be integer")));
            },
        };
        match get_option(opt_map, "date") {
            None => Ok((window, None)),
            Some(Value::Str(c)) => Ok((window, Some(c))),
            Some(_) => Err(HayashiError::Type(String::from_str("rolling: date= must be string column name"))),
        }
    }
}

} // verus!
