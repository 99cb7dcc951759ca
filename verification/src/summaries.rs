//! The arguments of the summary commands `xtsum`, `tabstat`, `summarize_w`,
//! `ic` and `lrtest`: which frame, columns, statistics, grouping, weights
//! and models they name, and their errors. The statistics themselves are floating point and are computed by
//! the caller from the plan returned here.
use crate::ast::Expr;
use crate::interp::Interpreter;
use crate::options::{get_option, opt_get};
use crate::targets::{frame_bound, name_arg, not_a_frame, var_arg};
use crate::text::str_eq;
use crate::semantics::{sem_expr, Flow, IState};
use crate::value::{items_view, lemma_items_view, strings_view, ErrV, HayashiError, ModelKind, Val, Value};
use vstd::prelude::*;

verus! {

/// The names among `args` that are identifiers or string literals, in
/// order; other arguments are passed over.
pub open spec fn arg_names(args: Seq<Expr>) -> Seq<Seq<char>>
    decreases args.len(),
{
    if args.len() == 0 {
        Seq::empty()
    } else {
        let front = arg_names(args.drop_last());
        match name_arg(args.last()) {
            Some(n) => front.push(n),
            None => front,
        }
    }
}

/// The names among `args[from..]` that are identifiers or string literals.
pub fn names_from(args: &Vec<Expr>, from: usize) -> (r: Vec<String>)
    requires
        from <= args@.len(),
    ensures
        strings_view(r@) == arg_names(args@.subrange(from as int, args@.len() as int)),
{
    let mut r: Vec<String> = Vec::new();
    let mut i: usize = from;
    assert(strings_view(r@) =~= arg_names(args@.subrange(from as int, from as int)));
    while i < args.len()
        invariant
            from <= i <= args@.len(),
            strings_view(r@) == arg_names(args@.subrange(from as int, i as int)),
        decreases args@.len() - i,
    {
        let ghost before = r@;
        proof {
            let s = args@.subrange(from as int, i + 1);
            assert(s.drop_last() =~= args@.subrange(from as int, i as int));
            assert(s.last() == args@[i as int]);
        }
        match &args[i] {
            Expr::Var(n) => {
                r.push(n.clone());
                assert(strings_view(r@) =~= strings_view(before).push(n@));
            },
            Expr::Str(n) => {
                r.push(n.clone());
                assert(strings_view(r@) =~= strings_view(before).push(n@));
            },
            _ => {},
        }
        i = i + 1;
    }
    r
}

/// What `xtsum` decomposes: the frame, the entity column and the variables.
pub struct XtsumPlan {
    pub df: String,
    pub id: String,
    pub vars: Vec<String>,
}

/// The frame, entity column and variables of `xtsum(df, v1, ..., id=col)`,
/// or its error, checked in order: argument count, the frame argument, the
/// frame's existence, the `id=` option, at least one variable.
pub open spec fn spec_xtsum(args: Seq<Expr>, opts: Seq<(String, Value)>, frames: Seq<Seq<char>>) -> Result<
    (Seq<char>, Seq<char>, Seq<Seq<char>>),
    ErrV,
> {
    if args.len() < 2 {
        Err(ErrV::Runtime("xtsum(df, var1, var2, ..., id=entity_col)"@))
    } else {
        match var_arg(args[0]) {
            None => Err(ErrV::Type("first argument must be a DataFrame"@)),
            Some(df) => if !frames.contains(df) {
                Err(not_a_frame(df))
            } else {
                match opt_get(opts, "id"@) {
                    Some(Val::Str(id)) => {
                        let vars = arg_names(args.subrange(1, args.len() as int));
                        if vars.len() == 0 {
                            Err(ErrV::Runtime("xtsum: provide at least one variable"@))
                        } else {
                            Ok((df, id, vars))
                        }
                    },
                    _ => Err(ErrV::Runtime("xtsum requer id=coluna_entidade"@)),
                }
            },
        }
    }
}

/// The abstract form of an `xtsum` plan or its error.
pub open spec fn xtsum_view(r: Result<XtsumPlan, HayashiError>) -> Result<
    (Seq<char>, Seq<char>, Seq<Seq<char>>),
    ErrV,
> {
    match r {
        Ok(p) => Ok((p.df@, p.id@, strings_view(p.vars@))),
        Err(e) => Err(e@),
    }
}

fn frame_error(df: &String) -> (e: HayashiError)
    ensures
        e@ == not_a_frame(df@),
{
    HayashiError::Runtime(String::from_str("'").concat(df.as_str()).concat("' is not a DataFrame"))
}

impl Interpreter {
    /// `xtsum(df, v1, ..., id=col)`: the frame, the entity column and the
    /// variables whose overall, between and within spread is reported.
    pub fn xtsum(args: &Vec<Expr>, opt_map: &Vec<(String, Value)>, frames: &Vec<String>) -> (r: Result<
        XtsumPlan,
        HayashiError,
    >)
        ensures
            xtsum_view(r) == spec_xtsum(args@, opt_map@, strings_view(frames@)),
    {
        if args.len() < 2 {
            return Err(HayashiError::Runtime(String::from_str("xtsum(df, var1, var2, ..., id=entity_col)")));
        }
        let df = match &args[0] {
            Expr::Var(n) => n.clone(),
            _ => {
                return Err(HayashiError::Type(String::from_str("first argument must be a DataFrame")));
            },
        };
        if !frame_bound(frames, df.as_str()) {
            return Err(frame_error(&df));
        }
        let id = match get_option(opt_map, "id") {
            Some(Value::Str(s)) => s,
            _ => {
                return Err(HayashiError::Runtime(String::from_str("xtsum requer id=coluna_entidade")));
            },
        };
        let vars = names_from(args, 1);
        if vars.len() == 0 {
            return Err(HayashiError::Runtime(String::from_str("xtsum: provide at least one variable")));
        }
        Ok(XtsumPlan { df, id, vars })
    }
}

/// A statistic of `tabstat`, by the names it accepts.
#[derive(PartialEq, Eq, Structural, Clone, Copy, Debug)]
pub enum StatKind {
    Mean,
    Sd,
    Var,
    N,
    Sum,
    Min,
    Max,
    P10,
    P25,
    P50,
    P75,
    P90,
    Iqr,
    Range,
    Cv,
    /// A name `tabstat` does not know; its value is missing.
    Unknown,
}

/// The statistic a name asks for.
pub open spec fn spec_stat_kind(name: Seq<char>) -> StatKind {
    if name == "mean"@ || name == "avg"@ {
        StatKind::Mean
    } else if name == "sd"@ || name == "std"@ {
        StatKind::Sd
    } else if name == "var"@ {
        StatKind::Var
    } else if name == "n"@ || name == "count"@ {
        StatKind::N
    } else if name == "sum"@ {
        StatKind::Sum
    } else if name == "min"@ {
        StatKind::Min
    } else if name == "max"@ {
        StatKind::Max
    } else if name == "p25"@ || name == "q1"@ {
        StatKind::P25
    } else if name == "p50"@ || name == "median"@ {
        StatKind::P50
    } else if name == "p75"@ || name == "q3"@ {
        StatKind::P75
    } else if name == "p10"@ {
        StatKind::P10
    } else if name == "p90"@ {
        StatKind::P90
    } else if name == "iqr"@ {
        StatKind::Iqr
    } else if name == "range"@ {
        StatKind::Range
    } else if name == "cv"@ {
        StatKind::Cv
    } else {
        StatKind::Unknown
    }
}

/// The name of a statistic as `stats=` spells it.
pub open spec fn stat_kind_name(k: StatKind) -> Seq<char> {
    match k {
        StatKind::Mean => "mean"@,
        StatKind::Sd => "sd"@,
        StatKind::Var => "var"@,
        StatKind::N => "n"@,
        StatKind::Sum => "sum"@,
        StatKind::Min => "min"@,
        StatKind::Max => "max"@,
        StatKind::P25 => "p25"@,
        StatKind::P50 => "p50"@,
        StatKind::P75 => "p75"@,
        StatKind::P10 => "p10"@,
        StatKind::P90 => "p90"@,
        StatKind::Iqr => "iqr"@,
        StatKind::Range => "range"@,
        StatKind::Cv => "cv"@,
        StatKind::Unknown => "unknown"@,
    }
}

/// Each statistic is asked for by its own name, and no two share one.
pub proof fn lemma_stat_names(k: StatKind)
    requires
        k != StatKind::Unknown,
    ensures
        spec_stat_kind(stat_kind_name(k)) == k,
{
    reveal_strlit("avg");
    reveal_strlit("count");
    reveal_strlit("cv");
    reveal_strlit("iqr");
    reveal_strlit("max");
    reveal_strlit("mean");
    reveal_strlit("median");
    reveal_strlit("min");
    reveal_strlit("n");
    reveal_strlit("p10");
    reveal_strlit("p25");
    reveal_strlit("p50");
    reveal_strlit("p75");
    reveal_strlit("p90");
    reveal_strlit("q1");
    reveal_strlit("q3");
    reveal_strlit("range");
    reveal_strlit("sd");
    reveal_strlit("std");
    reveal_strlit("sum");
    reveal_strlit("var");
    let n = stat_kind_name(k);
    match k {
        StatKind::Mean => {
            assert(n.len() == 4);
        },
        StatKind::Sd => {
            assert(n.len() == 2);
        },
        StatKind::Var => {
            assert(n.len() == 3);
            assert(n[0] == 'v' && "avg"@[0] == 'a');
            assert(n[0] == 'v' && "std"@[0] == 's');
        },
        StatKind::N => {
            assert(n.len() == 1);
        },
        StatKind::Sum => {
            assert(n.len() == 3);
            assert(n[0] == 's' && "avg"@[0] == 'a');
            assert(n[1] == 'u' && "std"@[1] == 't');
            assert(n[0] == 's' && "var"@[0] == 'v');
        },
        StatKind::Min => {
            assert(n.len() == 3);
            assert(n[0] == 'm' && "avg"@[0] == 'a');
            assert(n[0] == 'm' && "std"@[0] == 's');
            assert(n[0] == 'm' && "var"@[0] == 'v');
            assert(n[0] == 'm' && "sum"@[0] == 's');
        },
        StatKind::Max => {
            assert(n.len() == 3);
            assert(n[0] == 'm' && "avg"@[0] == 'a');
            assert(n[0] == 'm' && "std"@[0] == 's');
            assert(n[0] == 'm' && "var"@[0] == 'v');
            assert(n[0] == 'm' && "sum"@[0] == 's');
            assert(n[1] == 'a' && "min"@[1] == 'i');
        },
        StatKind::P25 => {
            assert(n.len() == 3);
            assert(n[0] == 'p' && "avg"@[0] == 'a');
            assert(n[0] == 'p' && "std"@[0] == 's');
            assert(n[0] == 'p' && "var"@[0] == 'v');
            assert(n[0] == 'p' && "sum"@[0] == 's');
            assert(n[0] == 'p' && "min"@[0] == 'm');
            assert(n[0] == 'p' && "max"@[0] == 'm');
        },
        StatKind::P50 => {
            assert(n.len() == 3);
            assert(n[0] == 'p' && "avg"@[0] == 'a');
            assert(n[0] == 'p' && "std"@[0] == 's');
            assert(n[0] == 'p' && "var"@[0] == 'v');
            assert(n[0] == 'p' && "sum"@[0] == 's');
            assert(n[0] == 'p' && "min"@[0] == 'm');
            assert(n[0] == 'p' && "max"@[0] == 'm');
            assert(n[1] == '5' && "p25"@[1] == '2');
        },
        StatKind::P75 => {
            assert(n.len() == 3);
            assert(n[0] == 'p' && "avg"@[0] == 'a');
            assert(n[0] == 'p' && "std"@[0] == 's');
            assert(n[0] == 'p' && "var"@[0] == 'v');
            assert(n[0] == 'p' && "sum"@[0] == 's');
            assert(n[0] == 'p' && "min"@[0] == 'm');
            assert(n[0] == 'p' && "max"@[0] == 'm');
            assert(n[1] == '7' && "p25"@[1] == '2');
            assert(n[1] == '7' && "p50"@[1] == '5');
        },
        StatKind::P10 => {
            assert(n.len() == 3);
            assert(n[0] == 'p' && "avg"@[0] == 'a');
            assert(n[0] == 'p' && "std"@[0] == 's');
            assert(n[0] == 'p' && "var"@[0] == 'v');
            assert(n[0] == 'p' && "sum"@[0] == 's');
            assert(n[0] == 'p' && "min"@[0] == 'm');
            assert(n[0] == 'p' && "max"@[0] == 'm');
            assert(n[1] == '1' && "p25"@[1] == '2');
            assert(n[1] == '1' && "p50"@[1] == '5');
            assert(n[1] == '1' && "p75"@[1] == '7');
        },
        StatKind::P90 => {
            assert(n.len() == 3);
            assert(n[0] == 'p' && "avg"@[0] == 'a');
            assert(n[0] == 'p' && "std"@[0] == 's');
            assert(n[0] == 'p' && "var"@[0] == 'v');
            assert(n[0] == 'p' && "sum"@[0] == 's');
            assert(n[0] == 'p' && "min"@[0] == 'm');
            assert(n[0] == 'p' && "max"@[0] == 'm');
            assert(n[1] == '9' && "p25"@[1] == '2');
            assert(n[1] == '9' && "p50"@[1] == '5');
            assert(n[1] == '9' && "p75"@[1] == '7');
            assert(n[1] == '9' && "p10"@[1] == '1');
        },
        StatKind::Iqr => {
            assert(n.len() == 3);
            assert(n[0] == 'i' && "avg"@[0] == 'a');
            assert(n[0] == 'i' && "std"@[0] == 's');
            assert(n[0] == 'i' && "var"@[0] == 'v');
            assert(n[0] == 'i' && "sum"@[0] == 's');
            assert(n[0] == 'i' && "min"@[0] == 'm');
            assert(n[0] == 'i' && "max"@[0] == 'm');
            assert(n[0] == 'i' && "p25"@[0] == 'p');
            assert(n[0] == 'i' && "p50"@[0] == 'p');
            assert(n[0] == 'i' && "p75"@[0] == 'p');
            assert(n[0] == 'i' && "p10"@[0] == 'p');
            assert(n[0] == 'i' && "p90"@[0] == 'p');
        },
        StatKind::Range => {
            assert(n.len() == 5);
            assert(n[0] == 'r' && "count"@[0] == 'c');
        },
        StatKind::Cv => {
            assert(n.len() == 2);
            assert(n[0] == 'c' && "sd"@[0] == 's');
            assert(n[0] == 'c' && "q1"@[0] == 'q');
            assert(n[0] == 'c' && "q3"@[0] == 'q');
        },
        StatKind::Unknown => {},
    }
}

/// The statistic named `name`.
pub fn stat_kind(name: &str) -> (k: StatKind)
    ensures
        k == spec_stat_kind(name@),
{
    if str_eq(name, "mean") || str_eq(name, "avg") {
        StatKind::Mean
    } else if str_eq(name, "sd") || str_eq(name, "std") {
        StatKind::Sd
    } else if str_eq(name, "var") {
        StatKind::Var
    } else if str_eq(name, "n") || str_eq(name, "count") {
        StatKind::N
    } else if str_eq(name, "sum") {
        StatKind::Sum
    } else if str_eq(name, "min") {
        StatKind::Min
    } else if str_eq(name, "max") {
        StatKind::Max
    } else if str_eq(name, "p25") || str_eq(name, "q1") {
        StatKind::P25
    } else if str_eq(name, "p50") || str_eq(name, "median") {
        StatKind::P50
    } else if str_eq(name, "p75") || str_eq(name, "q3") {
        StatKind::P75
    } else if str_eq(name, "p10") {
        StatKind::P10
    } else if str_eq(name, "p90") {
        StatKind::P90
    } else if str_eq(name, "iqr") {
        StatKind::Iqr
    } else if str_eq(name, "range") {
        StatKind::Range
    } else if str_eq(name, "cv") {
        StatKind::Cv
    } else {
        StatKind::Unknown
    }
}

/// The name of a list item of `stats=`: a string as it is, anything else
/// as `mean`.
pub open spec fn stat_name(v: Val) -> Seq<char> {
    match v {
        Val::Str(s) => s,
        _ => "mean"@,
    }
}

/// The statistics `tabstat` shows: the list `stats=`, one name, or mean,
/// sd and n.
pub open spec fn spec_tabstat_stats(opts: Seq<(String, Value)>) -> Seq<Seq<char>> {
    match opt_get(opts, "stats"@) {
        Some(Val::List(items)) => items.map_values(|v: Val| stat_name(v)),
        Some(Val::Str(s)) => seq![s],
        _ => seq!["mean"@, "sd"@, "n"@],
    }
}

/// The grouping column of `tabstat`: option `by=` when it is a string.
pub open spec fn spec_tabstat_by(opts: Seq<(String, Value)>) -> Option<Seq<char>> {
    match opt_get(opts, "by"@) {
        Some(Val::Str(b)) => Some(b),
        _ => None,
    }
}

/// The frame named by `tabstat(df, ...)`, or its error: no arguments, a
/// frame argument that is no identifier, or a name not bound to a frame.
pub open spec fn spec_tabstat_frame(args: Seq<Expr>, frames: Seq<Seq<char>>) -> Result<Seq<char>, ErrV> {
    if args.len() == 0 {
        Err(ErrV::Runtime("tabstat(df, var1, ..., by=group, stats=[mean,sd,n])"@))
    } else {
        match var_arg(args[0]) {
            None => Err(ErrV::Type("first argument must be a DataFrame"@)),
            Some(df) => if !frames.contains(df) {
                Err(not_a_frame(df))
            } else {
                Ok(df)
            },
        }
    }
}

/// The frame of a `tabstat` call.
pub fn tabstat_frame(args: &Vec<Expr>, frames: &Vec<String>) -> (r: Result<String, HayashiError>)
    ensures
        match (r, spec_tabstat_frame(args@, strings_view(frames@))) {
            (Ok(d), Ok(x)) => d@ == x,
            (Err(e), Err(x)) => e@ == x,
            _ => false,
        },
{
    if args.len() == 0 {
        return Err(
            HayashiError::Runtime(String::from_str("tabstat(df, var1, ..., by=group, stats=[mean,sd,n])")),
        );
    }
    let df = match &args[0] {
        Expr::Var(n) => n.clone(),
        _ => {
            return Err(HayashiError::Type(String::from_str("first argument must be a DataFrame")));
        },
    };
    if !frame_bound(frames, df.as_str()) {
        return Err(frame_error(&df));
    }
    Ok(df)
}

/// What `tabstat` reports: the variables, each statistic by its name and
/// kind, and the grouping column.
pub struct TabstatPlan {
    pub vars: Vec<String>,
    pub stats: Vec<(String, StatKind)>,
    pub by: Option<String>,
}

/// The names of a list of statistics.
pub open spec fn stats_names(s: Seq<(String, StatKind)>) -> Seq<Seq<char>> {
    s.map_values(|p: (String, StatKind)| p.0@)
}

fn default_stats() -> (r: Vec<String>)
    ensures
        strings_view(r@) == seq!["mean"@, "sd"@, "n"@],
{
    let mut r: Vec<String> = Vec::new();
    r.push(String::from_str("mean"));
    r.push(String::from_str("sd"));
    r.push(String::from_str("n"));
    assert(strings_view(r@) =~= seq!["mean"@, "sd"@, "n"@]);
    r
}

fn tabstat_stats(opt_map: &Vec<(String, Value)>) -> (r: Vec<String>)
    ensures
        strings_view(r@) == spec_tabstat_stats(opt_map@),
{
    match get_option(opt_map, "stats") {
        Some(Value::List(items)) => {
            proof {
                lemma_items_view(items@);
            }
            let ghost iv = items_view(items@);
            let mut r: Vec<String> = Vec::new();
            let mut i: usize = 0;
            while i < items.len()
                invariant
                    i <= items@.len(),
                    iv == items_view(items@),
                    iv.len() == items@.len(),
                    forall|t: int| 0 <= t < items@.len() ==> (#[trigger] iv[t]) == items@[t]@,
                    r@.len() == i,
                    forall|t: int| 0 <= t < i ==> (#[trigger] r@[t])@ == stat_name(iv[t]),
                decreases items@.len() - i,
            {
                assert(iv[i as int] == items@[i as int]@);
                match &items[i] {
                    Value::Str(s) => r.push(s.clone()),
                    _ => r.push(String::from_str("mean")),
                }
                i = i + 1;
            }
            assert(strings_view(r@) =~= iv.map_values(|v: Val| stat_name(v)));
            r
        },
        Some(Value::Str(s)) => {
            let mut r: Vec<String> = Vec::new();
            r.push(s);
            assert(strings_view(r@) =~= seq![r@[0]@]);
            r
        },
        _ => default_stats(),
    }
}

impl Interpreter {
    /// `tabstat(df, v1, ..., by=group, stats=[...])` once the variables are
    /// resolved in the frame: the statistics with their kinds, and the
    /// grouping column; an error when no variable remains.
    pub fn tabstat(vars: Vec<String>, opt_map: &Vec<(String, Value)>) -> (r: Result<
        TabstatPlan,
        HayashiError,
    >)
        ensures
            vars@.len() == 0 ==> match r {
                Err(e) => e@ == ErrV::Runtime("tabstat: provide at least one variable"@),
                Ok(_) => false,
            },
            vars@.len() > 0 ==> match r {
                Ok(p) => {
                    &&& strings_view(p.vars@) == strings_view(vars@)
                    &&& stats_names(p.stats@) == spec_tabstat_stats(opt_map@)
                    &&& forall|i: int| 0 <= i < p.stats@.len() ==> (#[trigger] p.stats@[i]).1 == spec_stat_kind(p.stats@[i].0@)
                    &&& match p.by {
                        Some(b) => spec_tabstat_by(opt_map@) == Some(b@),
                        None => spec_tabstat_by(opt_map@) is None,
                    }
                },
                Err(_) => false,
            },
    {
        if vars.len() == 0 {
            return Err(HayashiError::Runtime(String::from_str("tabstat: provide at least one variable")));
        }
        let names = tabstat_stats(opt_map);
        let ghost nv = strings_view(names@);
        let mut stats: Vec<(String, StatKind)> = Vec::new();
        let mut i: usize = 0;
        while i < names.len()
            invariant
                i <= names@.len(),
                nv == strings_view(names@),
                stats@.len() == i,
                forall|t: int| 0 <= t < i ==> (#[trigger] stats@[t]).0@ == names@[t]@ && stats@[t].1 == spec_stat_kind(stats@[t].0@),
            decreases names@.len() - i,
        {
            let k = stat_kind(names[i].as_str());
            stats.push((names[i].clone(), k));
            i = i + 1;
        }
        assert(stats_names(stats@) =~= nv);
        let by = match get_option(opt_map, "by") {
            Some(Value::Str(b)) => Some(b),
            _ => None,
        };
        Ok(TabstatPlan { vars, stats, by })
    }
}

/// The commands that evaluate a list of models and compare their
/// log-likelihoods.
#[derive(PartialEq, Eq, Structural, Clone, Copy, Debug)]
pub enum ModelList {
    /// `ic(m1, m2, ...)`: information criteria.
    Ic,
    /// `akaike_weights(m1, m2, ...)`.
    AkaikeWeights,
}

/// The label of a model argument: its variable name, or `model`.
pub open spec fn ic_label(e: Expr) -> Seq<char> {
    match e {
        Expr::Var(n) => n@,
        _ => "model"@,
    }
}

/// The model families whose results carry a log-likelihood.
pub open spec fn has_likelihood(kind: ModelKind) -> bool {
    ||| kind == ModelKind::Ols
    ||| kind == ModelKind::Binary
    ||| kind == ModelKind::Poisson
    ||| kind == ModelKind::NegBin
    ||| kind == ModelKind::Ordered
    ||| kind == ModelKind::Tobit
    ||| kind == ModelKind::Mixed
    ||| kind == ModelKind::ZeroInflated
}

/// The error of command `cmd` for the argument `label` whose value has no
/// log-likelihood (of family `kind` when it is a model).
pub open spec fn no_likelihood(cmd: ModelList, label: Seq<char>, kind: Option<ModelKind>) -> ErrV {
    match cmd {
        ModelList::Ic => if kind == Some(ModelKind::Rolling) || kind == Some(ModelKind::RecursiveLs) {
            ErrV::Runtime("ic(): '"@ + label + "' has no log-likelihood — use print() for diagnostics"@)
        } else {
            ErrV::Runtime("ic(): model '"@ + label + "' has no log-likelihood available for ic() — use print()"@)
        },
        ModelList::AkaikeWeights => ErrV::Runtime("akaike_weights: '"@ + label + "' has no log-likelihood"@),
    }
}

/// The family of one model argument, or the error for a value without a
/// log-likelihood.
pub open spec fn ic_entry(cmd: ModelList, label: Seq<char>, v: Val) -> Result<ModelKind, ErrV> {
    match v {
        Val::Model { kind, .. } => if has_likelihood(kind) {
            Ok(kind)
        } else {
            Err(no_likelihood(cmd, label, Some(kind)))
        },
        _ => Err(no_likelihood(cmd, label, None)),
    }
}

/// The models of `cmd(args[i..])` after `acc`: each argument evaluated in
/// turn and checked before the next.
pub open spec fn sem_ic_from(
    f: nat,
    s: IState,
    cmd: ModelList,
    args: Seq<Expr>,
    i: int,
    acc: Seq<(Seq<char>, ModelKind)>,
) -> Flow<Seq<(Seq<char>, ModelKind)>>
    decreases args.len() - i,
{
    if i < 0 || i >= args.len() {
        Flow::Done(s, Ok(acc))
    } else {
        match sem_expr(f, s, args[i]) {
            Flow::Done(s1, Ok(v)) => match ic_entry(cmd, ic_label(args[i]), v) {
                Ok(k) => sem_ic_from(f, s1, cmd, args, i + 1, acc.push((ic_label(args[i]), k))),
                Err(e) => Flow::Done(s1, Err(e)),
            },
            Flow::Done(s1, Err(e)) => Flow::Done(s1, Err(e)),
            Flow::Fault => Flow::Fault,
        }
    }
}

/// The error of a call without models.
pub open spec fn no_models(cmd: ModelList) -> Seq<char> {
    match cmd {
        ModelList::Ic => "ic() requires at least one model"@,
        ModelList::AkaikeWeights => "akaike_weights(m1, m2, ...) requires at least one model"@,
    }
}

/// `cmd(m1, m2, ...)`: the label and family of each model, in argument
/// order, or the first error.
pub open spec fn sem_ic(f: nat, s: IState, cmd: ModelList, args: Seq<Expr>) -> Flow<Seq<(Seq<char>, ModelKind)>> {
    if args.len() == 0 {
        Flow::Done(s, Err(ErrV::Runtime(no_models(cmd))))
    } else {
        sem_ic_from(f, s, cmd, args, 0, Seq::empty())
    }
}

/// The abstract form of the models of `ic` or its error.
pub open spec fn ic_view(r: Result<Vec<(String, ModelKind)>, HayashiError>) -> Result<
    Seq<(Seq<char>, ModelKind)>,
    ErrV,
> {
    match r {
        Ok(v) => Ok(labels_view(v@)),
        Err(e) => Err(e@),
    }
}

/// Labels and families as character sequences.
pub open spec fn labels_view(v: Seq<(String, ModelKind)>) -> Seq<(Seq<char>, ModelKind)> {
    v.map_values(|p: (String, ModelKind)| (p.0@, p.1))
}

fn ic_error(cmd: ModelList, label: &String, kind: Option<ModelKind>) -> (e: HayashiError)
    ensures
        e@ == no_likelihood(cmd, label@, kind),
{
    match cmd {
        ModelList::Ic => match kind {
            Some(ModelKind::Rolling) | Some(ModelKind::RecursiveLs) => HayashiError::Runtime(
                String::from_str("ic(): '").concat(label.as_str()).concat(
                    "' has no log-likelihood — use print() for diagnostics",
                ),
            ),
            _ => HayashiError::Runtime(
                String::from_str("ic(): model '").concat(label.as_str()).concat(
                    "' has no log-likelihood available for ic() — use print()",
                ),
            ),
        },
        ModelList::AkaikeWeights => HayashiError::Runtime(
            String::from_str("akaike_weights: '").concat(label.as_str()).concat("' has no log-likelihood"),
        ),
    }
}

fn no_models_text(cmd: ModelList) -> (s: String)
    ensures
        s@ == no_models(cmd),
{
    match cmd {
        ModelList::Ic => String::from_str("ic() requires at least one model"),
        ModelList::AkaikeWeights => String::from_str("akaike_weights(m1, m2, ...) requires at least one model"),
    }
}

impl Interpreter {
    /// Evaluates each model argument of `cmd` and returns its label and
    /// family; the criteria themselves are computed by the caller from the
    /// models' log-likelihoods.
    pub fn model_list(&mut self, cmd: ModelList, args: &Vec<Expr>, fuel: u64) -> (r: Result<
        Vec<(String, ModelKind)>,
        HayashiError,
    >)
        requires
            sem_ic(fuel as nat, old(self)@, cmd, args@) is Done,
        ensures
            sem_ic(fuel as nat, old(self)@, cmd, args@) == Flow::Done(final(self)@, ic_view(r)),
    {
        if args.len() == 0 {
            return Err(HayashiError::Runtime(no_models_text(cmd)));
        }
        let ghost s0 = self@;
        let mut rows: Vec<(String, ModelKind)> = Vec::new();
        let mut i: usize = 0;
        assert(labels_view(rows@) =~= Seq::<(Seq<char>, ModelKind)>::empty());
        while i < args.len()
            invariant
                i <= args@.len(),
                s0 == old(self)@,
                sem_ic(fuel as nat, s0, cmd, args@) == sem_ic_from(
                    fuel as nat,
                    self@,
                    cmd,
                    args@,
                    i as int,
                    labels_view(rows@),
                ),
                sem_ic_from(fuel as nat, self@, cmd, args@, i as int, labels_view(rows@)) is Done,
                args@.len() > 0,
            decreases args@.len() - i,
        {
            let label = match &args[i] {
                Expr::Var(n) => n.clone(),
                _ => String::from_str("model"),
            };
            assert(label@ == ic_label(args@[i as int]));
            let v = match self.eval_expr(&args[i], fuel) {
                Ok(v) => v,
                Err(e) => {
                    return Err(e);
                },
            };
            let kind = match &v {
                Value::Model(m) => match m.kind {
                    ModelKind::Ols | ModelKind::Binary | ModelKind::Poisson | ModelKind::NegBin
                    | ModelKind::Ordered | ModelKind::Tobit | ModelKind::Mixed
                    | ModelKind::ZeroInflated => m.kind,
                    k => {
                        return Err(ic_error(cmd, &label, Some(k)));
                    },
                },
                _ => {
                    return Err(ic_error(cmd, &label, None));
                },
            };
            let ghost before = rows@;
            rows.push((label, kind));
            assert(labels_view(rows@) =~= labels_view(before).push((ic_label(args@[i as int]), kind)));
            i = i + 1;
        }
        Ok(rows)
    }

    /// `ic(m1, m2, ...)`: the label and family of each model.
    pub fn ic(&mut self, args: &Vec<Expr>, fuel: u64) -> (r: Result<Vec<(String, ModelKind)>, HayashiError>)
        requires
            sem_ic(fuel as nat, old(self)@, ModelList::Ic, args@) is Done,
        ensures
            sem_ic(fuel as nat, old(self)@, ModelList::Ic, args@) == Flow::Done(final(self)@, ic_view(r)),
    {
        self.model_list(ModelList::Ic, args, fuel)
    }

    /// `akaike_weights(m1, m2, ...)`: the label and family of each model.
    pub fn akaike_weights(&mut self, args: &Vec<Expr>, fuel: u64) -> (r: Result<
        Vec<(String, ModelKind)>,
        HayashiError,
    >)
        requires
            sem_ic(fuel as nat, old(self)@, ModelList::AkaikeWeights, args@) is Done,
        ensures
            sem_ic(fuel as nat, old(self)@, ModelList::AkaikeWeights, args@) == Flow::Done(final(self)@, ic_view(r)),
    {
        self.model_list(ModelList::AkaikeWeights, args, fuel)
    }
}

/// The weight column of `summarize_w`: the first of the options `weight=`,
/// `weights=`, `w=` that is given, when it is a string.
pub open spec fn spec_weight_column(opts: Seq<(String, Value)>) -> Option<Seq<char>> {
    let o = match opt_get(opts, "weight"@) {
        Some(v) => Some(v),
        None => match opt_get(opts, "weights"@) {
            Some(v) => Some(v),
            None => opt_get(opts, "w"@),
        },
    };
    match o {
        Some(Val::Str(w)) => Some(w),
        _ => None,
    }
}

/// The frame, variable and weight column of `summarize_w(df, var, ...)`,
/// or its error, checked in order: argument count, the frame argument, the
/// frame's existence, the variable argument.
pub open spec fn spec_summarize_w(args: Seq<Expr>, opts: Seq<(String, Value)>, frames: Seq<Seq<char>>) -> Result<
    (Seq<char>, Seq<char>, Option<Seq<char>>),
    ErrV,
> {
    if args.len() < 2 {
        Err(ErrV::Runtime("summarize_w(df, var, weight=wvar, mu0=0, alpha=0.05)"@))
    } else {
        match var_arg(args[0]) {
            None => Err(ErrV::Type("first argument must be a DataFrame"@)),
            Some(df) => if !frames.contains(df) {
                Err(not_a_frame(df))
            } else {
                match name_arg(args[1]) {
                    None => Err(ErrV::Type("second argument must be a variable name"@)),
                    Some(v) => Ok((df, v, spec_weight_column(opts))),
                }
            },
        }
    }
}

/// What `summarize_w` describes: the frame, the variable and its weights.
pub struct WeightedPlan {
    pub df: String,
    pub var: String,
    pub weight: Option<String>,
}

/// The abstract form of a `summarize_w` plan or its error.
pub open spec fn weighted_view(r: Result<WeightedPlan, HayashiError>) -> Result<
    (Seq<char>, Seq<char>, Option<Seq<char>>),
    ErrV,
> {
    match r {
        Ok(p) => Ok(
            (
                p.df@,
                p.var@,
                match p.weight {
                    Some(w) => Some(w@),
                    None => None,
                },
            ),
        ),
        Err(e) => Err(e@),
    }
}

impl Interpreter {
    /// `summarize_w(df, var, weight=w)`: the frame, the variable and the
    /// weight column of a weighted description.
    pub fn summarize_w(args: &Vec<Expr>, opt_map: &Vec<(String, Value)>, frames: &Vec<String>) -> (r: Result<
        WeightedPlan,
        HayashiError,
    >)
        ensures
            weighted_view(r) == spec_summarize_w(args@, opt_map@, strings_view(frames@)),
    {
        if args.len() < 2 {
            return Err(
                HayashiError::Runtime(String::from_str("summarize_w(df, var, weight=wvar, mu0=0, alpha=0.05)")),
            );
        }
        let df = match &args[0] {
            Expr::Var(n) => n.clone(),
            _ => {
                return Err(HayashiError::Type(String::from_str("first argument must be a DataFrame")));
            },
        };
        if !frame_bound(frames, df.as_str()) {
            return Err(frame_error(&df));
        }
        let var = match &args[1] {
            Expr::Var(n) => n.clone(),
            Expr::Str(n) => n.clone(),
            _ => {
                return Err(HayashiError::Type(String::from_str("second argument must be a variable name")));
            },
        };
        let o = match get_option(opt_map, "weight") {
            Some(v) => Some(v),
            None => match get_option(opt_map, "weights") {
                Some(v) => Some(v),
                None => get_option(opt_map, "w"),
            },
        };
        let weight = match o {
            Some(Value::Str(w)) => Some(w),
            _ => None,
        };
        Ok(WeightedPlan { df, var, weight })
    }
}

/// The model families that a likelihood-ratio test compares.
pub open spec fn lr_family(kind: ModelKind) -> bool {
    has_likelihood(kind) || kind == ModelKind::Glm || kind == ModelKind::Garch || kind == ModelKind::Arima
}

/// The family of a model that a likelihood-ratio test can use.
pub open spec fn lr_model(v: Val) -> Option<ModelKind> {
    match v {
        Val::Model { kind, .. } => if lr_family(kind) {
            Some(kind)
        } else {
            None
        },
        _ => None,
    }
}

/// `lrtest(restricted, unrestricted)`: both models evaluated, then each
/// checked to carry a log-likelihood.
pub open spec fn sem_lrtest(f: nat, s: IState, args: Seq<Expr>) -> Flow<(ModelKind, ModelKind)> {
    let no_ll = ErrV::Runtime(
        "lrtest: model has no log-likelihood — supports OLS, logit/probit, Poisson, NegBin, Tobit, Ordered, Mixed, ZI, GLM, GARCH, ARIMA"@,
    );
    if args.len() < 2 {
        Flow::Done(s, Err(ErrV::Runtime("lrtest(m_restricted, m_unrestricted) requires two nested models"@)))
    } else {
        match sem_expr(f, s, args[0]) {
            Flow::Done(s1, Ok(vr)) => match sem_expr(f, s1, args[1]) {
                Flow::Done(s2, Ok(vu)) => match (lr_model(vr), lr_model(vu)) {
                    (Some(kr), Some(ku)) => Flow::Done(s2, Ok((kr, ku))),
                    _ => Flow::Done(s2, Err(no_ll)),
                },
                Flow::Done(s2, Err(e)) => Flow::Done(s2, Err(e)),
                Flow::Fault => Flow::Fault,
            },
            Flow::Done(s1, Err(e)) => Flow::Done(s1, Err(e)),
            Flow::Fault => Flow::Fault,
        }
    }
}

/// The abstract form of two families or an error.
pub open spec fn pair_view(r: Result<(ModelKind, ModelKind), HayashiError>) -> Result<(ModelKind, ModelKind), ErrV> {
    match r {
        Ok(p) => Ok(p),
        Err(e) => Err(e@),
    }
}

fn lr_kind(v: &Value) -> (r: Option<ModelKind>)
    ensures
        r == lr_model(v@),
{
    match v {
        Value::Model(m) => match m.kind {
            ModelKind::Ols | ModelKind::Binary | ModelKind::Poisson | ModelKind::NegBin | ModelKind::Ordered
            | ModelKind::Tobit | ModelKind::Mixed | ModelKind::ZeroInflated | ModelKind::Glm | ModelKind::Garch
            | ModelKind::Arima => Some(m.kind),
            _ => None,
        },
        _ => None,
    }
}

impl Interpreter {
    /// `lrtest(restricted, unrestricted)`: the families of the two nested
    /// models; the statistic is computed by the caller from their
    /// log-likelihoods.
    pub fn lrtest(&mut self, args: &Vec<Expr>, fuel: u64) -> (r: Result<(ModelKind, ModelKind), HayashiError>)
        requires
            sem_lrtest(fuel as nat, old(self)@, args@) is Done,
        ensures
            sem_lrtest(fuel as nat, old(self)@, args@) == Flow::Done(final(self)@, pair_view(r)),
    {
        if args.len() < 2 {
            return Err(
                HayashiError::Runtime(String::from_str("lrtest(m_restricted, m_unrestricted) requires two nested models")),
            );
        }
        let vr = self.eval_expr(&args[0], fuel)?;
        let vu = self.eval_expr(&args[1], fuel)?;
        match (lr_kind(&vr), lr_kind(&vu)) {
            (Some(kr), Some(ku)) => Ok((kr, ku)),
            _ => Err(
                HayashiError::Runtime(
                    String::from_str(
                        "lrtest: model has no log-likelihood — supports OLS, logit/probit, Poisson, NegBin, Tobit, Ordered, Mixed, ZI, GLM, GARCH, ARIMA",
                    ),
                ),
            ),
        }
    }
}

} // verus!
