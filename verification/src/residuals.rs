//! The model argument of the OLS diagnostics (`white`, `reset`, `gqtest`,
//! `vif`, `cooks`, `leverage`, `condnum`, `harveycollier`, `omnibus`,
//! `durbinwatson`, `bgodfrey`): each takes a fitted OLS model first, and the
//! statistics are computed by the caller from it.
use crate::ast::Expr;
use crate::interp::Interpreter;
use crate::options::{get_option, opt_get};
use crate::semantics::{sem_expr, Flow, IState};
use crate::text::str_eq;
use crate::value::{ErrV, HayashiError, ModelKind, Val, Value};
use vstd::prelude::*;

verus! {

/// The OLS diagnostics.
#[derive(PartialEq, Eq, Structural, Clone, Copy, Debug)]
pub enum OlsDiagnostic {
    White,
    Reset,
    Gqtest,
    Vif,
    Cooks,
    Leverage,
    Condnum,
    HarveyCollier,
    Omnibus,
    DurbinWatson,
    Bgodfrey,
}

/// The error for a call without arguments.
pub open spec fn missing_model(d: OlsDiagnostic) -> Seq<char> {
    match d {
        OlsDiagnostic::White => "white() requires an OLS model"@,
        OlsDiagnostic::Reset => "reset() requires an OLS model"@,
        OlsDiagnostic::Gqtest => "gqtest(model, split=0.2)"@,
        OlsDiagnostic::Vif => "vif() requires an OLS model"@,
        OlsDiagnostic::Cooks => "cooks() requires an OLS model"@,
        OlsDiagnostic::Leverage => "leverage() requires an OLS model"@,
        OlsDiagnostic::Condnum => "condnum() requires an OLS model"@,
        OlsDiagnostic::HarveyCollier => "harveycollier(model)"@,
        OlsDiagnostic::Omnibus => "omnibus(model)"@,
        OlsDiagnostic::DurbinWatson => "durbinwatson() requires an OLS model"@,
        OlsDiagnostic::Bgodfrey => "bgodfrey() requires an OLS model"@,
    }
}

/// The error for an argument that is not an OLS model.
pub open spec fn not_ols(d: OlsDiagnostic) -> Seq<char> {
    match d {
        OlsDiagnostic::White => "white() only supports OLS models"@,
        OlsDiagnostic::Reset => "reset() only supports OLS models"@,
        OlsDiagnostic::Gqtest => "gqtest(): only supports OLS models"@,
        OlsDiagnostic::Vif => "vif() only supports OLS models"@,
        OlsDiagnostic::Cooks => "cooks() only supports OLS models"@,
        OlsDiagnostic::Leverage => "leverage() only supports OLS models"@,
        OlsDiagnostic::Condnum => "condnum() only supports OLS models"@,
        OlsDiagnostic::HarveyCollier => "harveycollier() only supports OLS models"@,
        OlsDiagnostic::Omnibus => "omnibus() only supports OLS models"@,
        OlsDiagnostic::DurbinWatson => "durbinwatson() only supports OLS models"@,
        OlsDiagnostic::Bgodfrey => "bgodfrey() only supports OLS models"@,
    }
}

/// The diagnostic a command name asks for.
pub open spec fn spec_ols_diagnostic(name: Seq<char>) -> Option<OlsDiagnostic> {
    if name == "white"@ {
        Some(OlsDiagnostic::White)
    } else if name == "reset"@ {
        Some(OlsDiagnostic::Reset)
    } else if name == "gqtest"@ {
        Some(OlsDiagnostic::Gqtest)
    } else if name == "vif"@ {
        Some(OlsDiagnostic::Vif)
    } else if name == "cooks"@ {
        Some(OlsDiagnostic::Cooks)
    } else if name == "leverage"@ {
        Some(OlsDiagnostic::Leverage)
    } else if name == "condnum"@ {
        Some(OlsDiagnostic::Condnum)
    } else if name == "harveycollier"@ {
        Some(OlsDiagnostic::HarveyCollier)
    } else if name == "omnibus"@ {
        Some(OlsDiagnostic::Omnibus)
    } else if name == "durbinwatson"@ {
        Some(OlsDiagnostic::DurbinWatson)
    } else if name == "bgodfrey"@ {
        Some(OlsDiagnostic::Bgodfrey)
    } else {
        None
    }
}

/// The command that runs a diagnostic.
pub open spec fn ols_diagnostic_name(d: OlsDiagnostic) -> Seq<char> {
    match d {
        OlsDiagnostic::White => "white"@,
        OlsDiagnostic::Reset => "reset"@,
        OlsDiagnostic::Gqtest => "gqtest"@,
        OlsDiagnostic::Vif => "vif"@,
        OlsDiagnostic::Cooks => "cooks"@,
        OlsDiagnostic::Leverage => "leverage"@,
        OlsDiagnostic::Condnum => "condnum"@,
        OlsDiagnostic::HarveyCollier => "harveycollier"@,
        OlsDiagnostic::Omnibus => "omnibus"@,
        OlsDiagnostic::DurbinWatson => "durbinwatson"@,
        OlsDiagnostic::Bgodfrey => "bgodfrey"@,
    }
}

/// Each diagnostic is run by the command of its own name, and no two share one.
pub proof fn lemma_ols_diagnostic_names(d: OlsDiagnostic)
    ensures
        spec_ols_diagnostic(ols_diagnostic_name(d)) == Some(d),
{
    reveal_strlit("bgodfrey");
    reveal_strlit("condnum");
    reveal_strlit("cooks");
    reveal_strlit("durbinwatson");
    reveal_strlit("gqtest");
    reveal_strlit("harveycollier");
    reveal_strlit("leverage");
    reveal_strlit("omnibus");
    reveal_strlit("reset");
    reveal_strlit("vif");
    reveal_strlit("white");
    let n = ols_diagnostic_name(d);
    match d {
        OlsDiagnostic::White => {
            assert(n.len() == 5);
        },
        OlsDiagnostic::Reset => {
            assert(n.len() == 5);
            assert(n[0] == 'r' && "white"@[0] == 'w');
        },
        OlsDiagnostic::Gqtest => {
            assert(n.len() == 6);
        },
        OlsDiagnostic::Vif => {
            assert(n.len() == 3);
        },
        OlsDiagnostic::Cooks => {
            assert(n.len() == 5);
            assert(n[0] == 'c' && "white"@[0] == 'w');
            assert(n[0] == 'c' && "reset"@[0] == 'r');
        },
        OlsDiagnostic::Leverage => {
            assert(n.len() == 8);
        },
        OlsDiagnostic::Condnum => {
            assert(n.len() == 7);
        },
        OlsDiagnostic::HarveyCollier => {
            assert(n.len() == 13);
        },
        OlsDiagnostic::Omnibus => {
            assert(n.len() == 7);
            assert(n[0] == 'o' && "condnum"@[0] == 'c');
        },
        OlsDiagnostic::DurbinWatson => {
            assert(n.len() == 12);
        },
        OlsDiagnostic::Bgodfrey => {
            assert(n.len() == 8);
            assert(n[0] == 'b' && "leverage"@[0] == 'l');
        },
    }
}

/// The OLS diagnostic named `name`.
pub fn ols_diagnostic(name: &str) -> (r: Option<OlsDiagnostic>)
    ensures
        r == spec_ols_diagnostic(name@),
{
    if str_eq(name, "white") {
        Some(OlsDiagnostic::White)
    } else if str_eq(name, "reset") {
        Some(OlsDiagnostic::Reset)
    } else if str_eq(name, "gqtest") {
        Some(OlsDiagnostic::Gqtest)
    } else if str_eq(name, "vif") {
        Some(OlsDiagnostic::Vif)
    } else if str_eq(name, "cooks") {
        Some(OlsDiagnostic::Cooks)
    } else if str_eq(name, "leverage") {
        Some(OlsDiagnostic::Leverage)
    } else if str_eq(name, "condnum") {
        Some(OlsDiagnostic::Condnum)
    } else if str_eq(name, "harveycollier") {
        Some(OlsDiagnostic::HarveyCollier)
    } else if str_eq(name, "omnibus") {
        Some(OlsDiagnostic::Omnibus)
    } else if str_eq(name, "durbinwatson") {
        Some(OlsDiagnostic::DurbinWatson)
    } else if str_eq(name, "bgodfrey") {
        Some(OlsDiagnostic::Bgodfrey)
    } else {
        None
    }
}

/// `d(model, ...)`: the model argument evaluated and checked to be an OLS
/// model, or the error of diagnostic `d`.
pub open spec fn sem_ols_model(f: nat, s: IState, d: OlsDiagnostic, args: Seq<Expr>) -> Flow<()> {
    if args.len() == 0 {
        Flow::Done(s, Err(ErrV::Runtime(missing_model(d))))
    } else {
        match sem_expr(f, s, args[0]) {
            Flow::Done(s1, Ok(Val::Model { kind: ModelKind::Ols, .. })) => Flow::Done(s1, Ok(())),
            Flow::Done(s1, Ok(_)) => Flow::Done(s1, Err(ErrV::Type(not_ols(d)))),
            Flow::Done(s1, Err(e)) => Flow::Done(s1, Err(e)),
            Flow::Fault => Flow::Fault,
        }
    }
}

/// The abstract form of a unit result.
pub open spec fn done_view(r: Result<(), HayashiError>) -> Result<(), ErrV> {
    match r {
        Ok(()) => Ok(()),
        Err(e) => Err(e@),
    }
}

fn missing_model_text(d: OlsDiagnostic) -> (s: String)
    ensures
        s@ == missing_model(d),
{
    match d {
        OlsDiagnostic::White => String::from_str("white() requires an OLS model"),
        OlsDiagnostic::Reset => String::from_str("reset() requires an OLS model"),
        OlsDiagnostic::Gqtest => String::from_str("gqtest(model, split=0.2)"),
        OlsDiagnostic::Vif => String::from_str("vif() requires an OLS model"),
        OlsDiagnostic::Cooks => String::from_str("cooks() requires an OLS model"),
        OlsDiagnostic::Leverage => String::from_str("leverage() requires an OLS model"),
        OlsDiagnostic::Condnum => String::from_str("condnum() requires an OLS model"),
        OlsDiagnostic::HarveyCollier => String::from_str("harveycollier(model)"),
        OlsDiagnostic::Omnibus => String::from_str("omnibus(model)"),
        OlsDiagnostic::DurbinWatson => String::from_str("durbinwatson() requires an OLS model"),
        OlsDiagnostic::Bgodfrey => String::from_str("bgodfrey() requires an OLS model"),
    }
}

fn not_ols_text(d: OlsDiagnostic) -> (s: String)
    ensures
        s@ == not_ols(d),
{
    match d {
        OlsDiagnostic::White => String::from_str("white() only supports OLS models"),
        OlsDiagnostic::Reset => String::from_str("reset() only supports OLS models"),
        OlsDiagnostic::Gqtest => String::from_str("gqtest(): only supports OLS models"),
        OlsDiagnostic::Vif => String::from_str("vif() only supports OLS models"),
        OlsDiagnostic::Cooks => String::from_str("cooks() only supports OLS models"),
        OlsDiagnostic::Leverage => String::from_str("leverage() only supports OLS models"),
        OlsDiagnostic::Condnum => String::from_str("condnum() only supports OLS models"),
        OlsDiagnostic::HarveyCollier => String::from_str("harveycollier() only supports OLS models"),
        OlsDiagnostic::Omnibus => String::from_str("omnibus() only supports OLS models"),
        OlsDiagnostic::DurbinWatson => String::from_str("durbinwatson() only supports OLS models"),
        OlsDiagnostic::Bgodfrey => String::from_str("bgodfrey() only supports OLS models"),
    }
}

impl Interpreter {
    /// Evaluates the model argument of diagnostic `d` and checks that it is
    /// an OLS model.
    pub fn ols_model(&mut self, d: OlsDiagnostic, args: &Vec<Expr>, fuel: u64) -> (r: Result<(), HayashiError>)
        requires
            sem_ols_model(fuel as nat, old(self)@, d, args@) is Done,
        ensures
            sem_ols_model(fuel as nat, old(self)@, d, args@) == Flow::Done(final(self)@, done_view(r)),
    {
        if args.len() == 0 {
            return Err(HayashiError::Runtime(missing_model_text(d)));
        }
        let v = self.eval_expr(&args[0], fuel)?;
        match v {
            Value::Model(m) => match m.kind {
                ModelKind::Ols => Ok(()),
                _ => Err(HayashiError::Type(not_ols_text(d))),
            },
            _ => Err(HayashiError::Type(not_ols_text(d))),
        }
    }
}

/// The highest power of the fitted values that `reset` adds: option
/// `power=` as an integer (converted as `as usize` converts it, at least
/// 2), else 3.
pub open spec fn spec_reset_power(opts: Seq<(String, Value)>) -> usize {
    match opt_get(opts, "power"@) {
        Some(Val::Int(v)) => if (v as usize) < 2 {
            2
        } else {
            v as usize
        },
        _ => 3,
    }
}

/// The highest power of `reset`.
pub fn reset_power(opt_map: &Vec<(String, Value)>) -> (p: usize)
    ensures
        p == spec_reset_power(opt_map@),
{
    match get_option(opt_map, "power") {
        Some(Value::Int(v)) => {
            let p = v as usize;
            if p < 2 {
                2
            } else {
                p
            }
        },
        _ => 3,
    }
}

} // verus!
