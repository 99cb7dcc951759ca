//! Where the values of a column expression come from: a name in a column
//! expression (`generate`, `replace`) is a row counter, a frame column, or
//! a variable broadcast to every row; and which rows a lag, lead or
//! difference reads. The numbers themselves are converted to floating
//! point by the caller.
use crate::ast::{Expr, TsOp};
use crate::env::env_get;
use crate::interp::Interpreter;
use crate::render::{render, render_value};
use crate::text::{nat_digits, nat_to_string, str_eq};
use crate::value::{items_view, lemma_items_view, strings_view, ErrV, HayashiError, Val, Value};
use vstd::prelude::*;

verus! {

/// The values a name gives in a column expression.
pub enum ColSource {
    /// `_n`: the row numbers 1, 2, ...
    RowNumbers,
    /// `_N`: the number of rows, on every row.
    RowCount,
    /// The frame's column of that name.
    FrameColumn,
    /// Strings, one per row.
    Strings(Vec<String>),
    /// Integers, one per row (booleans as 0 and 1).
    Numbers(Vec<i64>),
}

/// The abstract form of a column source.
pub enum ColSourceV {
    RowNumbers,
    RowCount,
    FrameColumn,
    Strings(Seq<Seq<char>>),
    Numbers(Seq<i64>),
}

/// The number a scalar gives in a numeric column: an integer, or a boolean
/// as 0 or 1.
pub open spec fn numeric_item(v: Val) -> Option<i64> {
    match v {
        Val::Int(i) => Some(i),
        Val::Bool(b) => Some(if b { 1 } else { 0 }),
        _ => None,
    }
}

/// The first item of `items` that is not numeric.
pub open spec fn first_non_numeric(items: Seq<Val>) -> int
    decreases items.len(),
{
    if items.len() == 0 {
        -1
    } else if numeric_item(items[0]) is None {
        0
    } else {
        let r = first_non_numeric(items.drop_first());
        if r < 0 {
            -1
        } else {
            r + 1
        }
    }
}

/// The column a variable gives when it is broadcast over `n` rows, or the
/// error for a value that cannot be one.
pub open spec fn spec_broadcast(name: Seq<char>, v: Option<Val>, n: nat) -> Result<ColSourceV, ErrV> {
    match v {
        Some(Val::Int(i)) => Ok(ColSourceV::Numbers(Seq::new(n, |k: int| i))),
        Some(Val::Bool(b)) => Ok(ColSourceV::Numbers(Seq::new(n, |k: int| if b { 1i64 } else { 0i64 }))),
        Some(Val::Str(s)) => Ok(ColSourceV::Strings(Seq::new(n, |k: int| s))),
        Some(Val::List(items)) => if items.len() != n {
            Err(
                ErrV::Runtime(
                    "list variable '"@ + name + "' has length "@ + nat_digits(items.len()) + ", expected "@
                        + nat_digits(n),
                ),
            )
        } else if forall|k: int| 0 <= k < items.len() ==> (#[trigger] items[k]) is Str {
            Ok(ColSourceV::Strings(items.map_values(|x: Val| x->Str_0)))
        } else if first_non_numeric(items) < 0 {
            Ok(ColSourceV::Numbers(items.map_values(|x: Val| numeric_item(x)->Some_0)))
        } else {
            Err(
                ErrV::Type(
                    "element in list variable '"@ + name + "' is not numeric: "@ + render(
                        items[first_non_numeric(items)],
                    ),
                ),
            )
        },
        _ => Err(ErrV::Runtime("'"@ + name + "' not found as column or scalar variable"@)),
    }
}

/// What `name` gives in a column expression over a frame of `n` rows that
/// has (`is_column`) or lacks a column of that name.
pub open spec fn spec_col_var(name: Seq<char>, env_value: Option<Val>, n: nat, is_column: bool) -> Result<
    ColSourceV,
    ErrV,
> {
    if name == "_n"@ {
        Ok(ColSourceV::RowNumbers)
    } else if name == "_N"@ {
        Ok(ColSourceV::RowCount)
    } else if is_column {
        Ok(ColSourceV::FrameColumn)
    } else {
        spec_broadcast(name, env_value, n)
    }
}

/// The abstract form of a column source or an error.
pub open spec fn source_view(r: Result<ColSource, HayashiError>) -> Result<ColSourceV, ErrV> {
    match r {
        Ok(ColSource::RowNumbers) => Ok(ColSourceV::RowNumbers),
        Ok(ColSource::RowCount) => Ok(ColSourceV::RowCount),
        Ok(ColSource::FrameColumn) => Ok(ColSourceV::FrameColumn),
        Ok(ColSource::Strings(v)) => Ok(ColSourceV::Strings(strings_view(v@))),
        Ok(ColSource::Numbers(v)) => Ok(ColSourceV::Numbers(v@)),
        Err(e) => Err(e@),
    }
}

proof fn lemma_first_non_numeric(items: Seq<Val>, k: int)
    requires
        0 <= k <= items.len(),
        forall|t: int| 0 <= t < k ==> numeric_item(#[trigger] items[t]) is Some,
    ensures
        k < items.len() && numeric_item(items[k]) is None ==> first_non_numeric(items) == k,
        k == items.len() ==> first_non_numeric(items) == -1,
    decreases k,
{
    if items.len() > 0 && k > 0 {
        assert(numeric_item(items[0]) is Some);
        assert forall|t: int| 0 <= t < k - 1 implies numeric_item(#[trigger] items.drop_first()[t]) is Some by {
            assert(items.drop_first()[t] == items[t + 1]);
        }
        lemma_first_non_numeric(items.drop_first(), k - 1);
    }
}

fn repeat_string(s: &String, n: usize) -> (r: Vec<String>)
    ensures
        strings_view(r@) == Seq::new(n as nat, |k: int| s@),
{
    let mut r: Vec<String> = Vec::new();
    let mut i: usize = 0;
    while i < n
        invariant
            i <= n,
            r@.len() == i,
            forall|t: int| 0 <= t < i ==> (#[trigger] r@[t])@ == s@,
        decreases n - i,
    {
        r.push(s.clone());
        i = i + 1;
    }
    assert(strings_view(r@) =~= Seq::new(n as nat, |k: int| s@));
    r
}

fn repeat_int(x: i64, n: usize) -> (r: Vec<i64>)
    ensures
        r@ == Seq::new(n as nat, |k: int| x),
{
    let mut r: Vec<i64> = Vec::new();
    let mut i: usize = 0;
    while i < n
        invariant
            i <= n,
            r@.len() == i,
            forall|t: int| 0 <= t < i ==> r@[t] == x,
        decreases n - i,
    {
        r.push(x);
        i = i + 1;
    }
    assert(r@ =~= Seq::new(n as nat, |k: int| x));
    r
}

/// The column that list variable `name` gives: its strings when every item
/// is a string, else its numbers.
fn list_column(name: &str, items: &Vec<Value>) -> (r: Result<ColSource, HayashiError>)
    ensures
        source_view(r) == (if forall|k: int| 0 <= k < items_view(items@).len() ==> (#[trigger] items_view(
            items@,
        )[k]) is Str {
            Ok(ColSourceV::Strings(items_view(items@).map_values(|x: Val| x->Str_0)))
        } else if first_non_numeric(items_view(items@)) < 0 {
            Ok(ColSourceV::Numbers(items_view(items@).map_values(|x: Val| numeric_item(x)->Some_0)))
        } else {
            Err(
                ErrV::Type(
                    "element in list variable '"@ + name@ + "' is not numeric: "@ + render(
                        items_view(items@)[first_non_numeric(items_view(items@))],
                    ),
                ),
            )
        }),
{
    proof {
        lemma_items_view(items@);
    }
    let ghost iv = items_view(items@);
    let mut all_str = true;
    let mut i: usize = 0;
    while i < items.len()
        invariant
            i <= items@.len(),
            iv == items_view(items@),
            iv.len() == items@.len(),
            forall|t: int| 0 <= t < items@.len() ==> (#[trigger] iv[t]) == items@[t]@,
            all_str ==> forall|t: int| 0 <= t < i ==> (#[trigger] iv[t]) is Str,
            !all_str ==> exists|t: int| 0 <= t < i && !((#[trigger] iv[t]) is Str),
        decreases items@.len() - i,
    {
        assert(iv[i as int] == items@[i as int]@);
        match &items[i] {
            Value::Str(_) => {},
            _ => {
                all_str = false;
            },
        }
        i = i + 1;
    }
    if all_str {
        let mut data: Vec<String> = Vec::new();
        let mut j: usize = 0;
        while j < items.len()
            invariant
                j <= items@.len(),
                iv == items_view(items@),
                iv.len() == items@.len(),
                forall|t: int| 0 <= t < items@.len() ==> (#[trigger] iv[t]) == items@[t]@,
                forall|t: int| 0 <= t < items@.len() ==> (#[trigger] iv[t]) is Str,
                data@.len() == j,
                forall|t: int| 0 <= t < j ==> (#[trigger] data@[t])@ == iv[t]->Str_0,
            decreases items@.len() - j,
        {
            assert(iv[j as int] == items@[j as int]@);
            match &items[j] {
                Value::Str(s) => data.push(s.clone()),
                _ => {
                    assert(false);
                },
            }
            j = j + 1;
        }
        assert(strings_view(data@) =~= iv.map_values(|x: Val| x->Str_0));
        return Ok(ColSource::Strings(data));
    }
    let mut data: Vec<i64> = Vec::new();
    let mut j: usize = 0;
    while j < items.len()
        invariant
            j <= items@.len(),
            iv == items_view(items@),
            iv.len() == items@.len(),
            forall|t: int| 0 <= t < items@.len() ==> (#[trigger] iv[t]) == items@[t]@,
            data@.len() == j,
            forall|t: int| 0 <= t < j ==> numeric_item(#[trigger] iv[t]) == Some(data@[t]),
            exists|t: int| 0 <= t < iv.len() && !((#[trigger] iv[t]) is Str),
        decreases items@.len() - j,
    {
        assert(iv[j as int] == items@[j as int]@);
        match &items[j] {
            Value::Int(x) => data.push(*x),
            Value::Bool(b) => data.push(if *b { 1 } else { 0 }),
            other => {
                proof {
                    assert forall|t: int| 0 <= t < j implies numeric_item(#[trigger] iv[t]) is Some by {}
                    lemma_first_non_numeric(iv, j as int);
                }
                return Err(
                    HayashiError::Type(
                        String::from_str("element in list variable '").concat(name).concat(
                            "' is not numeric: ",
                        ).concat(render_value(other).as_str()),
                    ),
                );
            },
        }
        j = j + 1;
    }
    proof {
        assert forall|t: int| 0 <= t < iv.len() implies numeric_item(#[trigger] iv[t]) is Some by {}
        lemma_first_non_numeric(iv, iv.len() as int);
    }
    assert(data@ =~= iv.map_values(|x: Val| numeric_item(x)->Some_0));
    Ok(ColSource::Numbers(data))
}

impl Interpreter {
    /// What `name` gives in a column expression over a frame of `n_rows`
    /// rows that has (`is_column`) or lacks a column of that name.
    pub fn eval_col_var(&self, name: &String, n_rows: usize, is_column: bool) -> (r: Result<ColSource, HayashiError>)
        ensures
            source_view(r) == spec_col_var(name@, env_get(self@.env, name@), n_rows as nat, is_column),
    {
        if str_eq(name.as_str(), "_n") {
            return Ok(ColSource::RowNumbers);
        }
        if str_eq(name.as_str(), "_N") {
            return Ok(ColSource::RowCount);
        }
        if is_column {
            return Ok(ColSource::FrameColumn);
        }
        match self.env.get(name) {
            Some(Value::Int(i)) => Ok(ColSource::Numbers(repeat_int(i, n_rows))),
            Some(Value::Bool(b)) => Ok(ColSource::Numbers(repeat_int(if b { 1 } else { 0 }, n_rows))),
            Some(Value::Str(s)) => Ok(ColSource::Strings(repeat_string(&s, n_rows))),
            Some(Value::List(items)) => {
                proof {
                    lemma_items_view(items@);
                }
                if items.len() != n_rows {
                    let a = nat_to_string(items.len() as u64);
                    let b = nat_to_string(n_rows as u64);
                    return Err(
                        HayashiError::Runtime(
                            String::from_str("list variable '").concat(name.as_str()).concat(
                                "' has length ",
                            ).concat(a.as_str()).concat(", expected ").concat(b.as_str()),
                        ),
                    );
                }
                list_column(name.as_str(), &*items)
            },
            _ => Err(
                HayashiError::Runtime(
                    String::from_str("'").concat(name.as_str()).concat("' not found as column or scalar variable"),
                ),
            ),
        }
    }
}

/// The other row that row `i` of a lag, lead or difference of order `n`
/// reads (`i - n` for a lag or difference, `i + n` for a lead), or `None`
/// where it falls outside the `len` rows and the value is missing.
pub open spec fn spec_ts_source(op: TsOp, len: nat, n: nat, i: int) -> Option<usize> {
    match op {
        TsOp::Lead => if i + n < len {
            Some((i + n) as usize)
        } else {
            None
        },
        _ => if i >= n {
            Some((i - n) as usize)
        } else {
            None
        },
    }
}

/// For each of `len` rows, the row a lag, lead or difference of order `n`
/// reads.
pub fn eval_col_tsop(op: TsOp, len: usize, n: usize) -> (r: Vec<Option<usize>>)
    requires
        op == TsOp::Lead && len > 0 ==> len - 1 + n <= usize::MAX,
    ensures
        r@ == Seq::new(len as nat, |i: int| spec_ts_source(op, len as nat, n as nat, i)),
{
    let mut r: Vec<Option<usize>> = Vec::new();
    let mut i: usize = 0;
    while i < len
        invariant
            i <= len,
            op == TsOp::Lead && len > 0 ==> len - 1 + n <= usize::MAX,
            r@.len() == i,
            forall|t: int| 0 <= t < i ==> r@[t] == spec_ts_source(op, len as nat, n as nat, t),
        decreases len - i,
    {
        let src = match op {
            TsOp::Lead => if i + n < len {
                Some(i + n)
            } else {
                None
            },
            _ => if i >= n {
                Some(i - n)
            } else {
                None
            },
        };
        r.push(src);
        i = i + 1;
    }
    assert(r@ =~= Seq::new(len as nat, |i: int| spec_ts_source(op, len as nat, n as nat, i)));
    r
}

/// Which rows lags, leads and differences read, for every row `i` of a
/// column of `len` rows and order `n`: a lag reads the row `n` earlier
/// (missing for the first `n` rows), a lead the row `n` later (missing for
/// the last `n` rows), a difference reads the same row as the lag, and a
/// lag and a lead of the same order undo each other.
pub proof fn lemma_ts_sources(len: nat, n: nat, i: int)
    requires
        0 <= i < len,
        len + n <= usize::MAX + 1,
    ensures
        spec_ts_source(TsOp::Diff, len, n, i) == spec_ts_source(TsOp::Lag, len, n, i),
        match spec_ts_source(TsOp::Lag, len, n, i) {
            Some(j) => j + n == i && j < len,
            None => i < n,
        },
        match spec_ts_source(TsOp::Lead, len, n, i) {
            Some(j) => j == i + n && j < len,
            None => i + n >= len,
        },
        spec_ts_source(TsOp::Lag, len, n, i) matches Some(j) ==> spec_ts_source(TsOp::Lead, len, n, j as int)
            == Some(i as usize),
        spec_ts_source(TsOp::Lead, len, n, i) matches Some(j) ==> spec_ts_source(TsOp::Lag, len, n, j as int)
            == Some(i as usize),
{
}

/// The date and time functions of a column expression.
#[derive(PartialEq, Eq, Structural, Clone, Copy, Debug)]
pub enum DateFn {
    /// `group(col)`: a group number for each distinct string.
    Group,
    /// `date(col)`: seconds since 1970-01-01 of a `%Y-%m-%d` date.
    Date,
    Year,
    Month,
    Day,
    Hour,
    Minute,
    Second,
    /// The day of the week, 0 for Monday.
    Dow,
}

/// The date or time function a name stands for.
pub open spec fn spec_date_fn(func: Seq<char>) -> Option<DateFn> {
    if func == "group"@ {
        Some(DateFn::Group)
    } else if func == "date"@ {
        Some(DateFn::Date)
    } else if func == "year"@ {
        Some(DateFn::Year)
    } else if func == "month"@ {
        Some(DateFn::Month)
    } else if func == "day"@ {
        Some(DateFn::Day)
    } else if func == "hour"@ {
        Some(DateFn::Hour)
    } else if func == "minute"@ {
        Some(DateFn::Minute)
    } else if func == "second"@ {
        Some(DateFn::Second)
    } else if func == "dow"@ {
        Some(DateFn::Dow)
    } else {
        None
    }
}

/// The name of a date or time function in a column expression.
pub open spec fn date_fn_name(d: DateFn) -> Seq<char> {
    match d {
        DateFn::Group => "group"@,
        DateFn::Date => "date"@,
        DateFn::Year => "year"@,
        DateFn::Month => "month"@,
        DateFn::Day => "day"@,
        DateFn::Hour => "hour"@,
        DateFn::Minute => "minute"@,
        DateFn::Second => "second"@,
        DateFn::Dow => "dow"@,
    }
}

/// Each date or time function is called by its own name, and no two share one.
pub proof fn lemma_date_fn_names(d: DateFn)
    ensures
        spec_date_fn(date_fn_name(d)) == Some(d),
{
    reveal_strlit("date");
    reveal_strlit("day");
    reveal_strlit("dow");
    reveal_strlit("group");
    reveal_strlit("hour");
    reveal_strlit("minute");
    reveal_strlit("month");
    reveal_strlit("second");
    reveal_strlit("year");
    let n = date_fn_name(d);
    match d {
        DateFn::Group => {
            assert(n.len() == 5);
        },
        DateFn::Date => {
            assert(n.len() == 4);
        },
        DateFn::Year => {
            assert(n.len() == 4);
            assert(n[0] == 'y' && "date"@[0] == 'd');
        },
        DateFn::Month => {
            assert(n.len() == 5);
            assert(n[0] == 'm' && "group"@[0] == 'g');
        },
        DateFn::Day => {
            assert(n.len() == 3);
        },
        DateFn::Hour => {
            assert(n.len() == 4);
            assert(n[0] == 'h' && "date"@[0] == 'd');
            assert(n[0] == 'h' && "year"@[0] == 'y');
        },
        DateFn::Minute => {
            assert(n.len() == 6);
        },
        DateFn::Second => {
            assert(n.len() == 6);
            assert(n[0] == 's' && "minute"@[0] == 'm');
        },
        DateFn::Dow => {
            assert(n.len() == 3);
            assert(n[1] == 'o' && "day"@[1] == 'a');
        },
    }
}

/// A call `func(args)` in a column expression as a date or time function:
/// `None` when it is none (another name, or not exactly one argument),
/// else the function and the column it reads, or the error for an argument
/// that is no column name.
pub open spec fn spec_datetime_call(func: Seq<char>, args: Seq<Expr>) -> Option<Result<(DateFn, Seq<char>), ErrV>> {
    if args.len() != 1 || spec_date_fn(func) is None {
        None
    } else {
        match args[0] {
            Expr::Var(n) => Some(Ok((spec_date_fn(func)->Some_0, n@))),
            _ => Some(Err(ErrV::Runtime(func + "() requires a column name"@))),
        }
    }
}

fn date_fn(func: &str) -> (r: Option<DateFn>)
    ensures
        r == spec_date_fn(func@),
{
    if str_eq(func, "group") {
        Some(DateFn::Group)
    } else if str_eq(func, "date") {
        Some(DateFn::Date)
    } else if str_eq(func, "year") {
        Some(DateFn::Year)
    } else if str_eq(func, "month") {
        Some(DateFn::Month)
    } else if str_eq(func, "day") {
        Some(DateFn::Day)
    } else if str_eq(func, "hour") {
        Some(DateFn::Hour)
    } else if str_eq(func, "minute") {
        Some(DateFn::Minute)
    } else if str_eq(func, "second") {
        Some(DateFn::Second)
    } else if str_eq(func, "dow") {
        Some(DateFn::Dow)
    } else {
        None
    }
}

/// Whether a column-expression call is a date or time function, and the
/// column it reads; the dates and their parts are computed by the caller.
pub fn datetime_call(func: &str, args: &Vec<Expr>) -> (r: Option<Result<(DateFn, String), HayashiError>>)
    ensures
        match r {
            None => spec_datetime_call(func@, args@) is None,
            Some(Ok((d, c))) => spec_datetime_call(func@, args@) == Some(Ok::<(DateFn, Seq<char>), ErrV>((d, c@))),
            Some(Err(e)) => spec_datetime_call(func@, args@) == Some(Err::<(DateFn, Seq<char>), ErrV>(e@)),
        },
{
    if args.len() != 1 {
        return None;
    }
    let d = match date_fn(func) {
        Some(d) => d,
        None => {
            return None;
        },
    };
    match &args[0] {
        Expr::Var(n) => Some(Ok((d, n.clone()))),
        _ => Some(Err(HayashiError::Runtime(String::from_str(func).concat("() requires a column name")))),
    }
}

} // verus!
