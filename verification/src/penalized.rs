//! The arguments of the penalized regressions `ridge`, `lasso` and
//! `elasticnet`: the frame they fit on, the iteration limit of the
//! coordinate descent, and the names of the reported coefficients. The fit
//! itself is floating point and is done by the caller.
use crate::ast::Expr;
use crate::interp::Interpreter;
use crate::options::{get_option, opt_get};
use crate::panels::unit_view;
use crate::targets::{frame_bound, not_a_frame, var_arg};
use crate::value::{strings_view, ErrV, HayashiError, Val, Value};
use vstd::prelude::*;

verus! {

/// The penalized regressions.
#[derive(PartialEq, Eq, Structural, Clone, Copy, Debug)]
pub enum Penalty {
    Ridge,
    Lasso,
    ElasticNet,
}

/// How a call of the regression is written.
pub open spec fn penalty_usage(p: Penalty) -> Seq<char> {
    match p {
        Penalty::Ridge => "ridge(formula, df, alpha=1.0)"@,
        Penalty::Lasso => "lasso(formula, df, alpha=1.0, tol=1e-6, max_iter=10000)"@,
        Penalty::ElasticNet => "elasticnet(formula, df, alpha=1.0, l1_ratio=0.5)"@,
    }
}

/// The error for a frame argument that is no identifier.
pub open spec fn penalty_frame_error(p: Penalty) -> Seq<char> {
    match p {
        Penalty::Ridge => "ridge: second argument must be DataFrame"@,
        Penalty::Lasso => "lasso: second argument must be DataFrame"@,
        Penalty::ElasticNet => "elasticnet: second argument must be DataFrame"@,
    }
}

/// The iteration limit of the coordinate descent: option `max_iter=` as an
/// integer (converted as `as usize` converts it), else 10000.
pub open spec fn spec_max_iter(opts: Seq<(String, Value)>) -> usize {
    match opt_get(opts, "max_iter"@) {
        Some(Val::Int(v)) => v as usize,
        _ => 10000,
    }
}

/// The frame of `p(formula, df, ...)`, or its error, checked in order:
/// argument count, the formula (resolved by the caller, `formula`), the
/// frame argument, the frame's existence.
pub open spec fn spec_penalized_frame(p: Penalty, args: Seq<Expr>, frames: Seq<Seq<char>>, formula: Result<(), ErrV>) -> Result<
    Seq<char>,
    ErrV,
> {
    if args.len() < 2 {
        Err(ErrV::Runtime(penalty_usage(p)))
    } else {
        match formula {
            Err(e) => Err(e),
            Ok(()) => match var_arg(args[1]) {
                None => Err(ErrV::Type(penalty_frame_error(p))),
                Some(df) => if !frames.contains(df) {
                    Err(not_a_frame(df))
                } else {
                    Ok(df)
                },
            },
        }
    }
}

/// What a penalized regression fits: the frame, and the iteration limit of
/// the coordinate descent (for `lasso` and `elasticnet`).
pub struct PenalizedPlan {
    pub df: String,
    pub max_iter: Option<usize>,
}

fn usage(p: Penalty) -> (s: String)
    ensures
        s@ == penalty_usage(p),
{
    match p {
        Penalty::Ridge => String::from_str("ridge(formula, df, alpha=1.0)"),
        Penalty::Lasso => String::from_str("lasso(formula, df, alpha=1.0, tol=1e-6, max_iter=10000)"),
        Penalty::ElasticNet => String::from_str("elasticnet(formula, df, alpha=1.0, l1_ratio=0.5)"),
    }
}

fn frame_arg_error(p: Penalty) -> (s: String)
    ensures
        s@ == penalty_frame_error(p),
{
    match p {
        Penalty::Ridge => String::from_str("ridge: second argument must be DataFrame"),
        Penalty::Lasso => String::from_str("lasso: second argument must be DataFrame"),
        Penalty::ElasticNet => String::from_str("elasticnet: second argument must be DataFrame"),
    }
}

/// Whether `r` is the plan of penalty `p` for these arguments, or its error.
pub open spec fn penalized_result(
    p: Penalty,
    args: Seq<Expr>,
    opts: Seq<(String, Value)>,
    frames: Seq<Seq<char>>,
    formula: Result<(), ErrV>,
    r: Result<PenalizedPlan, HayashiError>,
) -> bool {
    match (r, spec_penalized_frame(p, args, frames, formula)) {
        (Ok(plan), Ok(df)) => plan.df@ == df && plan.max_iter == (if p == Penalty::Ridge {
            None
        } else {
            Some(spec_max_iter(opts))
        }),
        (Err(e), Err(x)) => e@ == x,
        _ => false,
    }
}

impl Interpreter {
    /// The frame and iteration limit of penalty `p`, once the caller has
    /// resolved the formula argument (`formula`).
    pub fn penalized(
        p: Penalty,
        args: &Vec<Expr>,
        opt_map: &Vec<(String, Value)>,
        frames: &Vec<String>,
        formula: Result<(), HayashiError>,
    ) -> (r: Result<PenalizedPlan, HayashiError>)
        ensures
            penalized_result(p, args@, opt_map@, strings_view(frames@), unit_view(formula), r),
    {
        if args.len() < 2 {
            return Err(HayashiError::Runtime(usage(p)));
        }
        match formula {
            Err(e) => {
                return Err(e);
            },
            Ok(()) => {},
        }
        let df = match &args[1] {
            Expr::Var(n) => n.clone(),
            _ => {
                return Err(HayashiError::Type(frame_arg_error(p)));
            },
        };
        if !frame_bound(frames, df.as_str()) {
            return Err(
                HayashiError::Runtime(String::from_str("'").concat(df.as_str()).concat("' is not a DataFrame")),
            );
        }
        let max_iter = match p {
            Penalty::Ridge => None,
            _ => Some(
                match get_option(opt_map, "max_iter") {
                    Some(Value::Int(v)) => v as usize,
                    _ => 10000,
                },
            ),
        };
        Ok(PenalizedPlan { df, max_iter })
    }

    /// `ridge(formula, df, alpha=)`.
    pub fn ridge(args: &Vec<Expr>, opt_map: &Vec<(String, Value)>, frames: &Vec<String>, formula: Result<
        (),
        HayashiError,
    >) -> (r: Result<PenalizedPlan, HayashiError>)
        ensures
            penalized_result(Penalty::Ridge, args@, opt_map@, strings_view(frames@), unit_view(formula), r),
    {
        Self::penalized(Penalty::Ridge, args, opt_map, frames, formula)
    }

    /// `lasso(formula, df, alpha=, tol=, max_iter=)`.
    pub fn lasso(args: &Vec<Expr>, opt_map: &Vec<(String, Value)>, frames: &Vec<String>, formula: Result<
        (),
        HayashiError,
    >) -> (r: Result<PenalizedPlan, HayashiError>)
        ensures
            penalized_result(Penalty::Lasso, args@, opt_map@, strings_view(frames@), unit_view(formula), r),
    {
        Self::penalized(Penalty::Lasso, args, opt_map, frames, formula)
    }

    /// `elasticnet(formula, df, alpha=, l1_ratio=, tol=, max_iter=)`.
    pub fn elasticnet(args: &Vec<Expr>, opt_map: &Vec<(String, Value)>, frames: &Vec<String>, formula: Result<
        (),
        HayashiError,
    >) -> (r: Result<PenalizedPlan, HayashiError>)
        ensures
            penalized_result(Penalty::ElasticNet, args@, opt_map@, strings_view(frames@), unit_view(formula), r),
    {
        Self::penalized(Penalty::ElasticNet, args, opt_map, frames, formula)
    }
}

/// The reported coefficient names: `const` first when the model has an
/// intercept, then the regressors.
pub open spec fn spec_display_names(intercept: bool, regressors: Seq<Seq<char>>) -> Seq<Seq<char>> {
    if intercept {
        seq!["const"@] + regressors
    } else {
        regressors
    }
}

/// The names under which the coefficients of a penalized fit are shown.
pub fn display_names(intercept: bool, regressors: &Vec<String>) -> (r: Vec<String>)
    ensures
        strings_view(r@) == spec_display_names(intercept, strings_view(regressors@)),
{
    let mut r: Vec<String> = Vec::new();
    if intercept {
        r.push(String::from_str("const"));
    }
    let ghost start = strings_view(r@);
    let mut i: usize = 0;
    while i < regressors.len()
        invariant
            i <= regressors@.len(),
            start == (if intercept { seq!["const"@] } else { Seq::<Seq<char>>::empty() }),
            strings_view(r@) == start + strings_view(regressors@).take(i as int),
        decreases regressors@.len() - i,
    {
        let ghost before = r@;
        r.push(regressors[i].clone());
        assert(strings_view(r@) =~= strings_view(before).push(regressors@[i as int]@));
        assert(strings_view(regressors@).take(i + 1) =~= strings_view(regressors@).take(i as int).push(
            regressors@[i as int]@,
        ));
        i = i + 1;
    }
    assert(strings_view(regressors@).take(regressors@.len() as int) =~= strings_view(regressors@));
    r
}

} // verus!
