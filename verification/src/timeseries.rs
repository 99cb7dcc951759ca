//! The arguments of the series tests, filters and decompositions (`adf`,
//! `kpss`, `pp`, `za`, `engle_granger`, `granger`, `hpfilter`, `cffilter`,
//! `bkfilter`, `sktest`, `decompose`, `stl`, `mstl`): the frame and the one
//! or two series they work on, and their integer and text options. The tests themselves are floating point and
//! are computed by the caller.
use crate::ast::Expr;
use crate::gam::count_option;
use crate::interp::Interpreter;
use crate::options::{get_option, opt_get};
use crate::targets::{frame_bound, name_arg, not_a_frame, var_arg};
use crate::value::{items_view, lemma_items_view, strings_view, ErrV, HayashiError, Val, Value};
use vstd::prelude::*;

verus! {

/// The frame and the `n_vars` series (one or two) of a call
/// `cmd(df, var[, var2], ...)`, or its error, checked in order: argument
/// count (`usage`), the frame argument, the frame's existence, each series
/// argument. `prefix` starts the messages (the command's name and a colon,
/// or nothing).
pub open spec fn spec_series_target(
    prefix: Seq<char>,
    usage: Seq<char>,
    two: bool,
    args: Seq<Expr>,
    frames: Seq<Seq<char>>,
) -> Result<(Seq<char>, Seq<Seq<char>>), ErrV> {
    if args.len() < (if two { 3int } else { 2int }) {
        Err(ErrV::Runtime(usage))
    } else {
        match var_arg(args[0]) {
            None => Err(ErrV::Type(prefix + "first argument must be a DataFrame"@)),
            Some(df) => if !frames.contains(df) {
                Err(not_a_frame(df))
            } else {
                match name_arg(args[1]) {
                    None => Err(ErrV::Type(prefix + "second argument must be a variable name"@)),
                    Some(v1) => if two {
                        match name_arg(args[2]) {
                            None => Err(ErrV::Type(prefix + "third argument must be variable name"@)),
                            Some(v2) => Ok((df, seq![v1, v2])),
                        }
                    } else {
                        Ok((df, seq![v1]))
                    },
                }
            },
        }
    }
}

/// The frame and series a test works on.
pub struct SeriesTarget {
    pub df: String,
    pub vars: Vec<String>,
}

/// The abstract form of a series target or its error.
pub open spec fn series_view(r: Result<SeriesTarget, HayashiError>) -> Result<(Seq<char>, Seq<Seq<char>>), ErrV> {
    match r {
        Ok(t) => Ok((t.df@, strings_view(t.vars@))),
        Err(e) => Err(e@),
    }
}

fn name_of(e: &Expr) -> (r: Option<String>)
    ensures
        match r {
            Some(n) => name_arg(*e) == Some(n@),
            None => name_arg(*e) is None,
        },
{
    match e {
        Expr::Var(n) => Some(n.clone()),
        Expr::Str(n) => Some(n.clone()),
        _ => None,
    }
}

impl Interpreter {
    /// The frame and the series of a series test.
    pub fn series_target(prefix: &str, usage: &str, two: bool, args: &Vec<Expr>, frames: &Vec<String>) -> (r: Result<
        SeriesTarget,
        HayashiError,
    >)
        ensures
            series_view(r) == spec_series_target(prefix@, usage@, two, args@, strings_view(frames@)),
    {
        let needed: usize = if two { 3 } else { 2 };
        if args.len() < needed {
            return Err(HayashiError::Runtime(String::from_str(usage)));
        }
        let df = match &args[0] {
            Expr::Var(n) => n.clone(),
            _ => {
                return Err(HayashiError::Type(String::from_str(prefix).concat("first argument must be a DataFrame")));
            },
        };
        if !frame_bound(frames, df.as_str()) {
            return Err(
                HayashiError::Runtime(String::from_str("'").concat(df.as_str()).concat("' is not a DataFrame")),
            );
        }
        let v1 = match name_of(&args[1]) {
            Some(n) => n,
            None => {
                return Err(
                    HayashiError::Type(String::from_str(prefix).concat("second argument must be a variable name")),
                );
            },
        };
        let mut vars: Vec<String> = Vec::new();
        vars.push(v1);
        if two {
            let v2 = match name_of(&args[2]) {
                Some(n) => n,
                None => {
                    return Err(
                        HayashiError::Type(String::from_str(prefix).concat("third argument must be variable name")),
                    );
                },
            };
            vars.push(v2);
        }
        assert(strings_view(vars@) =~= (if two { seq![vars@[0]@, vars@[1]@] } else { seq![vars@[0]@] }));
        Ok(SeriesTarget { df, vars })
    }

    /// `adf(df, var, lags=N)`.
    pub fn adf(args: &Vec<Expr>, frames: &Vec<String>) -> (r: Result<SeriesTarget, HayashiError>)
        ensures
            series_view(r) == spec_series_target("adf: "@, "adf(df, var, lags=N)"@, false, args@, strings_view(frames@)),
    {
        Self::series_target("adf: ", "adf(df, var, lags=N)", false, args, frames)
    }

    /// `kpss(df, var, regression=c|ct, lags=N)`.
    pub fn kpss(args: &Vec<Expr>, frames: &Vec<String>) -> (r: Result<SeriesTarget, HayashiError>)
        ensures
            series_view(r) == spec_series_target(
                "kpss: "@,
                "kpss(df, var, regression=c|ct, lags=N)"@,
                false,
                args@,
                strings_view(frames@),
            ),
    {
        Self::series_target("kpss: ", "kpss(df, var, regression=c|ct, lags=N)", false, args, frames)
    }

    /// `pp(df, var, lags=N)`.
    pub fn pp(args: &Vec<Expr>, frames: &Vec<String>) -> (r: Result<SeriesTarget, HayashiError>)
        ensures
            series_view(r) == spec_series_target("pp: "@, "pp(df, var, lags=N)"@, false, args@, strings_view(frames@)),
    {
        Self::series_target("pp: ", "pp(df, var, lags=N)", false, args, frames)
    }

    /// `za(df, var, trim=0.15)`.
    pub fn za(args: &Vec<Expr>, frames: &Vec<String>) -> (r: Result<SeriesTarget, HayashiError>)
        ensures
            series_view(r) == spec_series_target("za: "@, "za(df, var, trim=0.15)"@, false, args@, strings_view(frames@)),
    {
        Self::series_target("za: ", "za(df, var, trim=0.15)", false, args, frames)
    }

    /// `engle_granger(df, y1, y2)`.
    pub fn engle_granger(args: &Vec<Expr>, frames: &Vec<String>) -> (r: Result<SeriesTarget, HayashiError>)
        ensures
            series_view(r) == spec_series_target(
                "engle_granger: "@,
                "engle_granger(df, y1, y2)"@,
                true,
                args@,
                strings_view(frames@),
            ),
    {
        Self::series_target("engle_granger: ", "engle_granger(df, y1, y2)", true, args, frames)
    }

    /// `granger(df, y, x, lags=N)`.
    pub fn granger(args: &Vec<Expr>, frames: &Vec<String>) -> (r: Result<SeriesTarget, HayashiError>)
        ensures
            series_view(r) == spec_series_target(
                "granger: "@,
                "granger(df, y, x, lags=N)"@,
                true,
                args@,
                strings_view(frames@),
            ),
    {
        Self::series_target("granger: ", "granger(df, y, x, lags=N)", true, args, frames)
    }

    /// `hpfilter(df, var, lambda=1600)`.
    pub fn hpfilter(args: &Vec<Expr>, frames: &Vec<String>) -> (r: Result<SeriesTarget, HayashiError>)
        ensures
            series_view(r) == spec_series_target(
                "hpfilter: "@,
                "hpfilter(df, var, lambda=1600)"@,
                false,
                args@,
                strings_view(frames@),
            ),
    {
        Self::series_target("hpfilter: ", "hpfilter(df, var, lambda=1600)", false, args, frames)
    }

    /// `cffilter(df, var, low=6, high=32, drift=false)`.
    pub fn cffilter(args: &Vec<Expr>, frames: &Vec<String>) -> (r: Result<SeriesTarget, HayashiError>)
        ensures
            series_view(r) == spec_series_target(
                "cffilter: "@,
                "cffilter(df, var, low=6, high=32, drift=false)"@,
                false,
                args@,
                strings_view(frames@),
            ),
    {
        Self::series_target("cffilter: ", "cffilter(df, var, low=6, high=32, drift=false)", false, args, frames)
    }

    /// `bkfilter(df, var, low=6, high=32, k=12)`.
    pub fn bkfilter(args: &Vec<Expr>, frames: &Vec<String>) -> (r: Result<SeriesTarget, HayashiError>)
        ensures
            series_view(r) == spec_series_target(
                "bkfilter: "@,
                "bkfilter(df, var, low=6, high=32, k=12)"@,
                false,
                args@,
                strings_view(frames@),
            ),
    {
        Self::series_target("bkfilter: ", "bkfilter(df, var, low=6, high=32, k=12)", false, args, frames)
    }

    /// `sktest(df, var)`.
    pub fn sktest(args: &Vec<Expr>, frames: &Vec<String>) -> (r: Result<SeriesTarget, HayashiError>)
        ensures
            series_view(r) == spec_series_target(""@, "sktest(df, var)"@, false, args@, strings_view(frames@)),
    {
        Self::series_target("", "sktest(df, var)", false, args, frames)
    }
}

/// An integer option (converted as `as usize` converts it), or `default`.
pub fn int_option(opt_map: &Vec<(String, Value)>, key: &str, default: usize) -> (n: usize)
    ensures
        n == count_option(opt_get(opt_map@, key@), default),
{
    match get_option(opt_map, key) {
        Some(Value::Int(v)) => v as usize,
        _ => default,
    }
}

/// The lag order `lags=` of a unit-root test, when it is given as an
/// integer; without it the test chooses the order itself.
pub open spec fn spec_lags(opts: Seq<(String, Value)>) -> Option<usize> {
    match opt_get(opts, "lags"@) {
        Some(Val::Int(v)) => Some(v as usize),
        _ => None,
    }
}

/// The lag order of a unit-root test.
pub fn lags_option(opt_map: &Vec<(String, Value)>) -> (r: Option<usize>)
    ensures
        r == spec_lags(opt_map@),
{
    match get_option(opt_map, "lags") {
        Some(Value::Int(v)) => Some(v as usize),
        _ => None,
    }
}

/// A text option, or `default` when it is not given as a string (the
/// deterministic terms `regression=` of `kpss` default to `c`).
pub fn text_option(opt_map: &Vec<(String, Value)>, key: &str, default: &str) -> (s: String)
    ensures
        s@ == (match opt_get(opt_map@, key@) {
            Some(Val::Str(t)) => t,
            _ => default@,
        }),
{
    match get_option(opt_map, key) {
        Some(Value::Str(t)) => t,
        _ => String::from_str(default),
    }
}

/// Whether a flag option (such as `drift=` of `cffilter`) is given as
/// `true`.
pub fn flag_option(opt_map: &Vec<(String, Value)>, key: &str) -> (b: bool)
    ensures
        b == (opt_get(opt_map@, key@) == Some(Val::Bool(true))),
{
    match get_option(opt_map, key) {
        Some(Value::Bool(true)) => true,
        _ => false,
    }
}

impl Interpreter {
    /// `decompose(df, var, period=12, model=additive)`.
    pub fn decompose(args: &Vec<Expr>, frames: &Vec<String>) -> (r: Result<SeriesTarget, HayashiError>)
        ensures
            series_view(r) == spec_series_target(
                ""@,
                "decompose(df, var, period=12, model=additive)"@,
                false,
                args@,
                strings_view(frames@),
            ),
    {
        Self::series_target("", "decompose(df, var, period=12, model=additive)", false, args, frames)
    }

    /// `stl(df, var, period=12, sw=7, tw=0)`.
    pub fn stl(args: &Vec<Expr>, frames: &Vec<String>) -> (r: Result<SeriesTarget, HayashiError>)
        ensures
            series_view(r) == spec_series_target(
                ""@,
                "stl(df, var, period=12, sw=7, tw=0)"@,
                false,
                args@,
                strings_view(frames@),
            ),
    {
        Self::series_target("", "stl(df, var, period=12, sw=7, tw=0)", false, args, frames)
    }

    /// `mstl(df, var, periods=[7,365])`.
    pub fn mstl(args: &Vec<Expr>, frames: &Vec<String>) -> (r: Result<SeriesTarget, HayashiError>)
        ensures
            series_view(r) == spec_series_target(""@, "mstl(df, var, periods=[7,365])"@, false, args@, strings_view(frames@)),
    {
        Self::series_target("", "mstl(df, var, periods=[7,365])", false, args, frames)
    }
}

/// The seasonal periods of `mstl`: option `periods=` as a list of integers
/// or one integer (each converted as `as usize` converts it), else 7 and
/// 365.
pub open spec fn spec_mstl_periods(opts: Seq<(String, Value)>) -> Result<Seq<usize>, ErrV> {
    match opt_get(opts, "periods"@) {
        Some(Val::List(items)) => if forall|i: int| 0 <= i < items.len() ==> (#[trigger] items[i]) is Int {
            Ok(items.map_values(|v: Val| v->Int_0 as usize))
        } else {
            Err(ErrV::Type("periods= must be a list de inteiros"@))
        },
        Some(Val::Int(i)) => Ok(seq![i as usize]),
        _ => Ok(seq![7usize, 365usize]),
    }
}

/// The seasonal periods of an `mstl` call.
pub fn mstl_periods(opt_map: &Vec<(String, Value)>) -> (r: Result<Vec<usize>, HayashiError>)
    ensures
        match (r, spec_mstl_periods(opt_map@)) {
            (Ok(p), Ok(q)) => p@ == q,
            (Err(e), Err(x)) => e@ == x,
            _ => false,
        },
{
    match get_option(opt_map, "periods") {
        Some(Value::List(items)) => {
            proof {
                lemma_items_view(items@);
            }
            let ghost iv = items_view(items@);
            let mut r: Vec<usize> = Vec::new();
            let mut i: usize = 0;
            while i < items.len()
                invariant
                    i <= items@.len(),
                    iv == items_view(items@),
                    iv.len() == items@.len(),
                    forall|t: int| 0 <= t < items@.len() ==> (#[trigger] iv[t]) == items@[t]@,
                    forall|t: int| 0 <= t < i ==> (#[trigger] iv[t]) is Int,
                    r@.len() == i,
                    forall|t: int| 0 <= t < i ==> r@[t] == iv[t]->Int_0 as usize,
                    opt_get(opt_map@, "periods"@) == Some(Val::List(iv)),
                decreases items@.len() - i,
            {
                assert(iv[i as int] == items@[i as int]@);
                match &items[i] {
                    Value::Int(x) => r.push(*x as usize),
                    _ => {
                        assert(!(iv[i as int] is Int));
                        return Err(HayashiError::Type(String::from_str("periods= must be a list de inteiros")));
                    },
                }
                i = i + 1;
            }
            assert(r@ =~= iv.map_values(|v: Val| v->Int_0 as usize));
            Ok(r)
        },
        Some(Value::Int(x)) => {
            let mut r: Vec<usize> = Vec::new();
            r.push(x as usize);
            assert(r@ =~= seq![x as usize]);
            Ok(r)
        },
        _ => {
            let mut r: Vec<usize> = Vec::new();
            r.push(7);
            r.push(365);
            assert(r@ =~= seq![7usize, 365usize]);
            Ok(r)
        },
    }
}

} // verus!
