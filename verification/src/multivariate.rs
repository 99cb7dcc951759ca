//! The arguments of the multivariate commands `johansen` (cointegration
//! rank) and `cancorr` (canonical correlations): the frame, the variables
//! of each block, and the integer settings. The estimation itself is
//! floating point and is done by the caller.
use crate::ast::Expr;
use crate::interp::Interpreter;
use crate::options::{get_option, opt_get};
use crate::render::{render, render_value};
use crate::semantics::{sem_expr, Flow, IState};
use crate::targets::{frame_bound, name_arg, not_a_frame, var_arg};
use crate::value::{items_view, lemma_items_view, strings_view, ErrV, HayashiError, Val, Value};
use vstd::prelude::*;

verus! {

/// The strings of a list, or `err` as a type error when an item is not a
/// string.
pub open spec fn spec_string_items(items: Seq<Val>, err: Seq<char>) -> Result<Seq<Seq<char>>, ErrV> {
    if forall|i: int| 0 <= i < items.len() ==> (#[trigger] items[i]) is Str {
        Ok(items.map_values(|v: Val| v->Str_0))
    } else {
        Err(ErrV::Type(err))
    }
}

/// The abstract form of a list of names or an error.
pub open spec fn names_result(r: Result<Vec<String>, HayashiError>) -> Result<Seq<Seq<char>>, ErrV> {
    match r {
        Ok(v) => Ok(strings_view(v@)),
        Err(e) => Err(e@),
    }
}

/// The strings of a list of values.
pub fn string_items(items: &Vec<Value>, err: &str) -> (r: Result<Vec<String>, HayashiError>)
    ensures
        names_result(r) == spec_string_items(items_view(items@), err@),
{
    proof {
        lemma_items_view(items@);
    }
    let ghost iv = items_view(items@);
    let mut r: Vec<String> = Vec::new();
    let mut i: usize = 0;
    while i < items.len()
        invariant
            i <= items@.len(),
            iv == items_view(items@),
            iv.len() == items@.len(),
            forall|t: int| 0 <= t < items@.len() ==> (#[trigger] iv[t]) == items@[t]@,
            forall|t: int| 0 <= t < i ==> (#[trigger] iv[t]) is Str,
            r@.len() == i,
            forall|t: int| 0 <= t < i ==> (#[trigger] r@[t])@ == iv[t]->Str_0,
        decreases items@.len() - i,
    {
        assert(iv[i as int] == items@[i as int]@);
        match &items[i] {
            Value::Str(s) => r.push(s.clone()),
            _ => {
                return Err(HayashiError::Type(String::from_str(err)));
            },
        }
        i = i + 1;
    }
    assert(strings_view(r@) =~= iv.map_values(|v: Val| v->Str_0));
    Ok(r)
}

/// The names given by `args`, each an identifier or a string literal, or
/// `err` as a type error.
pub open spec fn spec_arg_names(args: Seq<Expr>, err: Seq<char>) -> Result<Seq<Seq<char>>, ErrV> {
    if forall|i: int| 0 <= i < args.len() ==> (#[trigger] name_arg(args[i])) is Some {
        Ok(args.map_values(|e: Expr| name_arg(e)->Some_0))
    } else {
        Err(ErrV::Type(err))
    }
}

/// The names given by `args[from..]`.
pub fn arg_names_from(args: &Vec<Expr>, from: usize, err: &str) -> (r: Result<Vec<String>, HayashiError>)
    requires
        from <= args@.len(),
    ensures
        names_result(r) == spec_arg_names(args@.subrange(from as int, args@.len() as int), err@),
{
    let ghost sub = args@.subrange(from as int, args@.len() as int);
    let mut r: Vec<String> = Vec::new();
    let mut i: usize = from;
    while i < args.len()
        invariant
            from <= i <= args@.len(),
            sub == args@.subrange(from as int, args@.len() as int),
            forall|t: int| 0 <= t < i - from ==> (#[trigger] name_arg(sub[t])) is Some,
            r@.len() == i - from,
            forall|t: int| 0 <= t < i - from ==> (#[trigger] r@[t])@ == name_arg(sub[t])->Some_0,
        decreases args@.len() - i,
    {
        assert(sub[i - from] == args@[i as int]);
        match &args[i] {
            Expr::Var(n) => r.push(n.clone()),
            Expr::Str(n) => r.push(n.clone()),
            _ => {
                assert(name_arg(sub[i - from]) is None);
                return Err(HayashiError::Type(String::from_str(err)));
            },
        }
        i = i + 1;
    }
    assert(strings_view(r@) =~= sub.map_values(|e: Expr| name_arg(e)->Some_0));
    Ok(r)
}

/// One block of `cancorr`: option `key=` as a list of strings or one
/// string; without the option, `fallback` (the `xvars` block takes the
/// remaining arguments, the `yvars` block is required).
pub open spec fn spec_block(opt: Option<Val>, list_err: Seq<char>, other_err: ErrV, fallback: Option<
    Result<Seq<Seq<char>>, ErrV>,
>) -> Result<Seq<Seq<char>>, ErrV> {
    match opt {
        Some(Val::List(items)) => spec_string_items(items, list_err),
        Some(Val::Str(s)) => Ok(seq![s]),
        None => match fallback {
            Some(f) => f,
            None => Err(other_err),
        },
        Some(_) => Err(other_err),
    }
}

/// The frame and the two variable blocks of `cancorr(df, ...)`, or its
/// error, checked in order: no arguments, the frame argument, the frame's
/// existence, the `xvars` block, the `yvars` block, an empty block.
pub open spec fn spec_cancorr(args: Seq<Expr>, opts: Seq<(String, Value)>, frames: Seq<Seq<char>>) -> Result<
    (Seq<char>, Seq<Seq<char>>, Seq<Seq<char>>),
    ErrV,
> {
    if args.len() == 0 {
        Err(ErrV::Runtime("cancorr(df, xvars=[\"x1\",\"x2\"], yvars=[\"y1\",\"y2\"])"@))
    } else {
        match var_arg(args[0]) {
            None => Err(ErrV::Type("first argument must be a DataFrame"@)),
            Some(df) => if !frames.contains(df) {
                Err(not_a_frame(df))
            } else {
                match spec_block(
                    opt_get(opts, "xvars"@),
                    "xvars must be a list of strings"@,
                    ErrV::Type("xvars= must be a list de strings"@),
                    Some(spec_arg_names(args.subrange(1, args.len() as int), "args must be variable names"@)),
                ) {
                    Err(e) => Err(e),
                    Ok(xs) => match spec_block(
                        opt_get(opts, "yvars"@),
                        "yvars must be a list of strings"@,
                        ErrV::Runtime("cancorr requer yvars=[\"y1\",\"y2\"]"@),
                        None,
                    ) {
                        Err(e) => Err(e),
                        Ok(ys) => if xs.len() == 0 || ys.len() == 0 {
                            Err(ErrV::Runtime("cancorr: xvars and yvars cannot be empty"@))
                        } else {
                            Ok((df, xs, ys))
                        },
                    },
                }
            },
        }
    }
}

/// The frame and variable blocks of a canonical correlation.
pub struct CancorrPlan {
    pub df: String,
    pub xvars: Vec<String>,
    pub yvars: Vec<String>,
}

/// The abstract form of a `cancorr` plan or its error.
pub open spec fn cancorr_view(r: Result<CancorrPlan, HayashiError>) -> Result<
    (Seq<char>, Seq<Seq<char>>, Seq<Seq<char>>),
    ErrV,
> {
    match r {
        Ok(p) => Ok((p.df@, strings_view(p.xvars@), strings_view(p.yvars@))),
        Err(e) => Err(e@),
    }
}

fn one_name(s: String) -> (r: Vec<String>)
    ensures
        strings_view(r@) == seq![s@],
{
    let mut r: Vec<String> = Vec::new();
    r.push(s);
    assert(strings_view(r@) =~= seq![r@[0]@]);
    r
}

impl Interpreter {
    /// `cancorr(df, xvars=[...], yvars=[...])`: the frame and the two
    /// blocks of variables whose canonical correlations are estimated.
    pub fn cancorr(args: &Vec<Expr>, opt_map: &Vec<(String, Value)>, frames: &Vec<String>) -> (r: Result<
        CancorrPlan,
        HayashiError,
    >)
        ensures
            cancorr_view(r) == spec_cancorr(args@, opt_map@, strings_view(frames@)),
    {
        if args.len() == 0 {
            return Err(
                HayashiError::Runtime(String::from_str("cancorr(df, xvars=[\"x1\",\"x2\"], yvars=[\"y1\",\"y2\"])")),
            );
        }
        let df = match &args[0] {
            Expr::Var(n) => n.clone(),
            _ => {
                return Err(HayashiError::Type(String::from_str("first argument must be a DataFrame")));
            },
        };
        if !frame_bound(frames, df.as_str()) {
            return Err(
                HayashiError::Runtime(String::from_str("'").concat(df.as_str()).concat("' is not a DataFrame")),
            );
        }
        let xvars = match get_option(opt_map, "xvars") {
            Some(Value::List(items)) => string_items(&*items, "xvars must be a list of strings")?,
            Some(Value::Str(s)) => one_name(s),
            None => arg_names_from(args, 1, "args must be variable names")?,
            Some(_) => {
                return Err(HayashiError::Type(String::from_str("xvars= must be a list de strings")));
            },
        };
        let yvars = match get_option(opt_map, "yvars") {
            Some(Value::List(items)) => string_items(&*items, "yvars must be a list of strings")?,
            Some(Value::Str(s)) => one_name(s),
            _ => {
                return Err(HayashiError::Runtime(String::from_str("cancorr requer yvars=[\"y1\",\"y2\"]")));
            },
        };
        if xvars.len() == 0 || yvars.len() == 0 {
            return Err(HayashiError::Runtime(String::from_str("cancorr: xvars and yvars cannot be empty")));
        }
        Ok(CancorrPlan { df, xvars, yvars })
    }
}

/// The lag order of `johansen`: option `lags=` as an integer (converted as
/// `as usize` converts it), else 2.
pub open spec fn johansen_lags(opts: Seq<(String, Value)>) -> usize {
    match opt_get(opts, "lags"@) {
        Some(Val::Int(v)) => v as usize,
        _ => 2,
    }
}

/// The deterministic-term order of `johansen`: option `det=` as an integer
/// (converted as `as i32` converts it), else 0.
pub open spec fn johansen_det(opts: Seq<(String, Value)>) -> i32 {
    match opt_get(opts, "det"@) {
        Some(Val::Int(v)) => v as i32,
        _ => 0,
    }
}

/// `johansen(df, [v1, v2, ...], lags=, det=)`: the frame, the variables (the
/// list items as text), the lag order and the deterministic-term order, or
/// its error.
pub open spec fn sem_johansen(f: nat, s: IState, args: Seq<Expr>, opts: Seq<(String, Value)>, frames: Seq<Seq<char>>) -> Flow<
    (Seq<char>, Seq<Seq<char>>, usize, i32),
> {
    if args.len() < 2 {
        Flow::Done(s, Err(ErrV::Runtime("johansen(df, [var1, var2, ...], lags=N, det=0)"@)))
    } else {
        match var_arg(args[0]) {
            None => Flow::Done(s, Err(ErrV::Type("johansen: first argument must be a DataFrame"@))),
            Some(df) => if !frames.contains(df) {
                Flow::Done(s, Err(not_a_frame(df)))
            } else {
                match sem_expr(f, s, args[1]) {
                    Flow::Done(s1, Ok(Val::List(items))) => Flow::Done(
                        s1,
                        Ok((df, items.map_values(|v: Val| render(v)), johansen_lags(opts), johansen_det(opts))),
                    ),
                    Flow::Done(s1, Ok(_)) => Flow::Done(
                        s1,
                        Err(ErrV::Type("johansen: second argument must be list of variables"@)),
                    ),
                    Flow::Done(s1, Err(e)) => Flow::Done(s1, Err(e)),
                    Flow::Fault => Flow::Fault,
                }
            },
        }
    }
}

/// What `johansen` tests: the frame, the variables, and the two orders.
pub struct JohansenPlan {
    pub df: String,
    pub vars: Vec<String>,
    pub lags: usize,
    pub det: i32,
}

/// The abstract form of a `johansen` plan or its error.
pub open spec fn johansen_view(r: Result<JohansenPlan, HayashiError>) -> Result<
    (Seq<char>, Seq<Seq<char>>, usize, i32),
    ErrV,
> {
    match r {
        Ok(p) => Ok((p.df@, strings_view(p.vars@), p.lags, p.det)),
        Err(e) => Err(e@),
    }
}

/// The items of a list as text.
fn rendered_items(items: &Vec<Value>) -> (r: Vec<String>)
    ensures
        strings_view(r@) == items_view(items@).map_values(|v: Val| render(v)),
{
    proof {
        lemma_items_view(items@);
    }
    let ghost iv = items_view(items@);
    let mut r: Vec<String> = Vec::new();
    let mut i: usize = 0;
    while i < items.len()
        invariant
            i <= items@.len(),
            iv == items_view(items@),
            iv.len() == items@.len(),
            forall|t: int| 0 <= t < items@.len() ==> (#[trigger] iv[t]) == items@[t]@,
            r@.len() == i,
            forall|t: int| 0 <= t < i ==> (#[trigger] r@[t])@ == render(iv[t]),
        decreases items@.len() - i,
    {
        assert(iv[i as int] == items@[i as int]@);
        r.push(render_value(&items[i]));
        i = i + 1;
    }
    assert(strings_view(r@) =~= iv.map_values(|v: Val| render(v)));
    r
}

impl Interpreter {
    /// `johansen(df, [v1, v2, ...], lags=, det=)`: evaluates the list of
    /// variables and reads the orders.
    pub fn johansen(
        &mut self,
        args: &Vec<Expr>,
        opt_map: &Vec<(String, Value)>,
        frames: &Vec<String>,
        fuel: u64,
    ) -> (r: Result<JohansenPlan, HayashiError>)
        requires
            sem_johansen(fuel as nat, old(self)@, args@, opt_map@, strings_view(frames@)) is Done,
        ensures
            sem_johansen(fuel as nat, old(self)@, args@, opt_map@, strings_view(frames@)) == Flow::Done(
                final(self)@,
                johansen_view(r),
            ),
    {
        if args.len() < 2 {
            return Err(HayashiError::Runtime(String::from_str("johansen(df, [var1, var2, ...], lags=N, det=0)")));
        }
        let df = match &args[0] {
            Expr::Var(n) => n.clone(),
            _ => {
                return Err(HayashiError::Type(String::from_str("johansen: first argument must be a DataFrame")));
            },
        };
        if !frame_bound(frames, df.as_str()) {
            return Err(
                HayashiError::Runtime(String::from_str("'").concat(df.as_str()).concat("' is not a DataFrame")),
            );
        }
        let vars = match self.eval_expr(&args[1], fuel)? {
            Value::List(items) => rendered_items(&*items),
            _ => {
                return Err(
                    HayashiError::Type(String::from_str("johansen: second argument must be list of variables")),
                );
            },
        };
        let lags: usize = match get_option(opt_map, "lags") {
            Some(Value::Int(v)) => v as usize,
            _ => 2,
        };
        let det: i32 = match get_option(opt_map, "det") {
            Some(Value::Int(v)) => v as i32,
            _ => 0,
        };
        Ok(JohansenPlan { df, vars, lags, det })
    }
}

} // verus!
