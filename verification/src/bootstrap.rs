//! The exact parts of the bootstrap: the estimator, frame and options that
//! a generic bootstrap re-runs on each resample, the model that a pairs
//! bootstrap resamples, the check that enough replications converged, and
//! the labels of the coefficients. Resampling and the estimates themselves
//! are floating point and stay with the caller.
use crate::ast::Expr;
use crate::interp::Interpreter;
use crate::semantics::{sem_expr, Flow, IState};
use crate::strcol::column_view;
use crate::targets::{frame_bound, name_arg, not_a_frame, var_arg};
use crate::text::{nat_digits, nat_to_string, str_eq};
use crate::value::{extract_var_names, spec_var_names, strings_view, ErrV, HayashiError, ModelKind, Val, Value};
use vstd::prelude::*;

verus! {

/// The options that control the bootstrap itself and are not passed on to
/// the estimator.
pub open spec fn is_resample_opt(name: Seq<char>) -> bool {
    name == "n"@ || name == "reps"@ || name == "alpha"@
}

/// The positions of the options passed on to the estimator, in order.
pub open spec fn kept_positions(names: Seq<Seq<char>>) -> Seq<usize>
    decreases names.len(),
{
    if names.len() == 0 {
        Seq::empty()
    } else {
        let front = kept_positions(names.drop_last());
        if is_resample_opt(names.last()) {
            front
        } else {
            front.push((names.len() - 1) as usize)
        }
    }
}

/// The options passed on to the estimator are exactly those that do not
/// control the bootstrap, each once and in the order they were given.
pub proof fn lemma_kept_positions(names: Seq<Seq<char>>)
    requires
        names.len() <= usize::MAX,
    ensures
        forall|k: int| 0 <= k < kept_positions(names).len() ==> {
            let p = #[trigger] kept_positions(names)[k];
            p < names.len() && !is_resample_opt(names[p as int])
        },
        forall|a: int, b: int| 0 <= a < b < kept_positions(names).len() ==> kept_positions(names)[a] < kept_positions(names)[b],
        forall|t: usize| t < names.len() && !is_resample_opt(names[t as int]) ==> #[trigger] kept_positions(names).contains(t),
    decreases names.len(),
{
    if names.len() > 0 {
        let front = names.drop_last();
        lemma_kept_positions(front);
        let kp = kept_positions(names);
        let fp = kept_positions(front);
        let last = (names.len() - 1) as usize;
        assert forall|k: int| 0 <= k < fp.len() implies (#[trigger] fp[k]) < front.len() && front[fp[k] as int] == names[fp[k] as int] by {}
        if is_resample_opt(names.last()) {
            assert(kp == fp);
            assert forall|t: usize| t < names.len() && !is_resample_opt(names[t as int]) implies #[trigger] kp.contains(t) by {
                assert(t != last);
                assert(front[t as int] == names[t as int]);
                assert(fp.contains(t));
            }
        } else {
            assert(kp == fp.push(last));
            assert forall|k: int| 0 <= k < kp.len() implies {
                let p = #[trigger] kp[k];
                p < names.len() && !is_resample_opt(names[p as int])
            } by {
                if k < fp.len() {
                    assert(kp[k] == fp[k]);
                } else {
                    assert(kp[k] == last);
                }
            }
            assert forall|a: int, b: int| 0 <= a < b < kp.len() implies kp[a] < kp[b] by {
                assert(kp[a] == fp[a]);
                if b < fp.len() {
                    assert(kp[b] == fp[b]);
                }
            }
            assert forall|t: usize| t < names.len() && !is_resample_opt(names[t as int]) implies #[trigger] kp.contains(t) by {
                if t == last {
                    assert(kp[fp.len() as int] == last);
                } else {
                    assert(front[t as int] == names[t as int]);
                    assert(fp.contains(t));
                    let k = choose|k: int| 0 <= k < fp.len() && fp[k] == t;
                    assert(kp[k] == t);
                }
            }
        }
    }
}

/// The names of named options.
pub open spec fn opt_names(opts: Seq<(String, Expr)>) -> Seq<Seq<char>> {
    opts.map_values(|o: (String, Expr)| o.0@)
}

/// What a generic bootstrap re-runs: the estimator, the frame it resamples,
/// and the positions of the options passed on to the estimator.
pub struct BootstrapTarget {
    pub estimator: String,
    pub df: String,
    pub kept: Vec<usize>,
}

/// The estimator and frame of `bootstrap(estimator, formula, df, ...)`, or
/// its error: an estimator argument that is no name, a frame argument that
/// is no identifier, or a name not bound to a frame.
pub open spec fn spec_bootstrap_target(args: Seq<Expr>, frames: Seq<Seq<char>>) -> Result<
    (Seq<char>, Seq<char>),
    ErrV,
> {
    match name_arg(args[0]) {
        None => Err(ErrV::Type("bootstrap: first argument must be estimator name (ols, logit, ...)"@)),
        Some(est) => match var_arg(args[2]) {
            None => Err(ErrV::Type("bootstrap: third argument must be DataFrame name"@)),
            Some(df) => if !frames.contains(df) {
                Err(not_a_frame(df))
            } else {
                Ok((est, df))
            },
        },
    }
}

impl Interpreter {
    /// The estimator, frame and passed-on options of a generic bootstrap
    /// (one with at least three arguments).
    pub fn bootstrap_generic(args: &Vec<Expr>, opts: &Vec<(String, Expr)>, frames: &Vec<String>) -> (r: Result<
        BootstrapTarget,
        HayashiError,
    >)
        requires
            args@.len() >= 3,
        ensures
            match (r, spec_bootstrap_target(args@, strings_view(frames@))) {
                (Ok(t), Ok((est, df))) => t.estimator@ == est && t.df@ == df && t.kept@ == kept_positions(
                    opt_names(opts@),
                ),
                (Err(e), Err(x)) => e@ == x,
                _ => false,
            },
    {
        let estimator = match &args[0] {
            Expr::Var(n) => n.clone(),
            Expr::Str(n) => n.clone(),
            _ => {
                return Err(
                    HayashiError::Type(
                        String::from_str("bootstrap: first argument must be estimator name (ols, logit, ...)"),
                    ),
                );
            },
        };
        let df = match &args[2] {
            Expr::Var(n) => n.clone(),
            _ => {
                return Err(HayashiError::Type(String::from_str("bootstrap: third argument must be DataFrame name")));
            },
        };
        if !frame_bound(frames, df.as_str()) {
            return Err(
                HayashiError::Runtime(String::from_str("'").concat(df.as_str()).concat("' is not a DataFrame")),
            );
        }
        let ghost names = opt_names(opts@);
        let mut kept: Vec<usize> = Vec::new();
        let mut i: usize = 0;
        assert(names.take(0) =~= Seq::<Seq<char>>::empty());
        while i < opts.len()
            invariant
                i <= opts@.len(),
                names == opt_names(opts@),
                names.len() == opts@.len(),
                kept@ == kept_positions(names.take(i as int)),
            decreases opts@.len() - i,
        {
            let name = opts[i].0.as_str();
            proof {
                assert(names.take(i + 1).drop_last() =~= names.take(i as int));
                assert(names.take(i + 1).last() == opts@[i as int].0@);
            }
            if !(str_eq(name, "n") || str_eq(name, "reps") || str_eq(name, "alpha")) {
                kept.push(i);
            }
            i = i + 1;
        }
        assert(names.take(opts@.len() as int) =~= names);
        Ok(BootstrapTarget { estimator, df, kept })
    }
}

/// The error when fewer than ten replications converged.
pub open spec fn not_converged(n_ok: nat, n_boot: nat) -> ErrV {
    ErrV::Runtime("bootstrap: only "@ + nat_digits(n_ok) + "/"@ + nat_digits(n_boot) + " replications converged"@)
}

/// Whether enough replications converged: at least ten of them.
pub fn bootstrap_converged(n_ok: usize, n_boot: usize) -> (r: Result<(), HayashiError>)
    ensures
        r is Ok <==> n_ok >= 10,
        r matches Err(e) ==> e@ == not_converged(n_ok as nat, n_boot as nat),
{
    if n_ok < 10 {
        let a = nat_to_string(n_ok as u64);
        let b = nat_to_string(n_boot as u64);
        return Err(
            HayashiError::Runtime(
                String::from_str("bootstrap: only ").concat(a.as_str()).concat("/").concat(b.as_str()).concat(
                    " replications converged",
                ),
            ),
        );
    }
    Ok(())
}

/// The label of coefficient `i`: its name, or `x` and its position.
pub open spec fn spec_coef_label(names: Seq<Seq<char>>, i: nat) -> Seq<char> {
    if i < names.len() {
        names[i as int]
    } else {
        "x"@ + nat_digits(i)
    }
}

/// The label of coefficient `i` among `names`.
pub fn coef_label(names: &Vec<String>, i: usize) -> (r: String)
    ensures
        r@ == spec_coef_label(strings_view(names@), i as nat),
{
    if i < names.len() {
        names[i].clone()
    } else {
        let d = nat_to_string(i as u64);
        String::from_str("x").concat(d.as_str())
    }
}

/// `bootse(model)` (a bootstrap with fewer than three arguments): the
/// coefficient names of the OLS model it resamples, or its error.
pub open spec fn sem_bootstrap_pairs(f: nat, s: IState, args: Seq<Expr>) -> Flow<Seq<Seq<char>>> {
    if args.len() == 0 {
        Flow::Done(s, Err(ErrV::Runtime("bootstrap(estimator, formula, df, n=1000) or bootse(model, n=1000)"@)))
    } else {
        match sem_expr(f, s, args[0]) {
            Flow::Done(s1, Ok(v)) => match v {
                Val::Model { kind: ModelKind::Ols, .. } => Flow::Done(s1, Ok(spec_var_names(v))),
                _ => Flow::Done(
                    s1,
                    Err(ErrV::Runtime("bootse(model) supports OLS. For others: bootstrap(estimator, formula, df, n=1000)"@)),
                ),
            },
            Flow::Done(s1, Err(e)) => Flow::Done(s1, Err(e)),
            Flow::Fault => Flow::Fault,
        }
    }
}

impl Interpreter {
    /// The pairs bootstrap of an OLS model: evaluates the model argument and
    /// returns its coefficient names.
    pub fn bootstrap_pairs(&mut self, args: &Vec<Expr>, fuel: u64) -> (r: Result<Vec<String>, HayashiError>)
        requires
            sem_bootstrap_pairs(fuel as nat, old(self)@, args@) is Done,
        ensures
            sem_bootstrap_pairs(fuel as nat, old(self)@, args@) == Flow::Done(final(self)@, column_view(r)),
    {
        if args.len() == 0 {
            return Err(
                HayashiError::Runtime(
                    String::from_str("bootstrap(estimator, formula, df, n=1000) or bootse(model, n=1000)"),
                ),
            );
        }
        let v = self.eval_expr(&args[0], fuel)?;
        match &v {
            Value::Model(m) => match m.kind {
                ModelKind::Ols => Ok(extract_var_names(&v)),
                _ => Err(
                    HayashiError::Runtime(
                        String::from_str(
                            "bootse(model) supports OLS. For others: bootstrap(estimator, formula, df, n=1000)",
                        ),
                    ),
                ),
            },
            _ => Err(
                HayashiError::Runtime(
                    String::from_str("bootse(model) supports OLS. For others: bootstrap(estimator, formula, df, n=1000)"),
                ),
            ),
        }
    }
}

} // verus!
