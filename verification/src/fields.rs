//! Field access on fitted models (`m.params`, `m.n_obs`, `m.summary`, ...):
//! which fields a model has, which of them the exact core answers itself
//! (the variable names), and which the caller reads from the fitted model.
use crate::ast::Expr;
use crate::interp::Interpreter;
use crate::semantics::{sem_expr, Flow, IState};
use crate::text::str_eq;
use crate::value::{items_view, lemma_items_view_push, strings_view, ErrV, HayashiError, ModelKind, Val, Value};
use std::rc::Rc;
use vstd::prelude::*;

verus! {

/// The fields of an OLS result.
#[derive(PartialEq, Eq, Structural, Clone, Copy, Debug)]
pub enum OlsField {
    Params,
    StdErrors,
    TValues,
    PValues,
    ConfLower,
    ConfUpper,
    Residuals,
    Fitted,
    RSquared,
    AdjRSquared,
    FStatistic,
    ProbF,
    LogLik,
    Aic,
    Bic,
    Sigma,
    NObs,
    DfResid,
    DfModel,
    CovType,
    InferenceType,
    VariableNames,
    Summary,
}

/// The OLS field a name asks for, with its aliases.
pub open spec fn spec_ols_field(f: Seq<char>) -> Option<OlsField> {
    if f == "params"@ || f == "coef"@ || f == "coefficients"@ {
        Some(OlsField::Params)
    } else if f == "std_errors"@ || f == "se"@ {
        Some(OlsField::StdErrors)
    } else if f == "t_values"@ || f == "t"@ {
        Some(OlsField::TValues)
    } else if f == "p_values"@ || f == "p"@ {
        Some(OlsField::PValues)
    } else if f == "conf_lower"@ {
        Some(OlsField::ConfLower)
    } else if f == "conf_upper"@ {
        Some(OlsField::ConfUpper)
    } else if f == "residuals"@ {
        Some(OlsField::Residuals)
    } else if f == "fitted"@ || f == "fitted_values"@ {
        Some(OlsField::Fitted)
    } else if f == "r_squared"@ || f == "r2"@ {
        Some(OlsField::RSquared)
    } else if f == "adj_r_squared"@ || f == "adj_r2"@ {
        Some(OlsField::AdjRSquared)
    } else if f == "f_statistic"@ || f == "f"@ {
        Some(OlsField::FStatistic)
    } else if f == "prob_f"@ {
        Some(OlsField::ProbF)
    } else if f == "log_lik"@ || f == "log_likelihood"@ {
        Some(OlsField::LogLik)
    } else if f == "aic"@ {
        Some(OlsField::Aic)
    } else if f == "bic"@ {
        Some(OlsField::Bic)
    } else if f == "sigma"@ {
        Some(OlsField::Sigma)
    } else if f == "n"@ || f == "n_obs"@ {
        Some(OlsField::NObs)
    } else if f == "df_resid"@ {
        Some(OlsField::DfResid)
    } else if f == "df_model"@ {
        Some(OlsField::DfModel)
    } else if f == "cov_type"@ {
        Some(OlsField::CovType)
    } else if f == "inference_type"@ {
        Some(OlsField::InferenceType)
    } else if f == "variable_names"@ {
        Some(OlsField::VariableNames)
    } else if f == "summary"@ {
        Some(OlsField::Summary)
    } else {
        None
    }
}

/// The name of an OLS result's field, as the fitted result calls it.
pub open spec fn ols_field_name(f: OlsField) -> Seq<char> {
    match f {
        OlsField::Params => "params"@,
        OlsField::StdErrors => "std_errors"@,
        OlsField::TValues => "t_values"@,
        OlsField::PValues => "p_values"@,
        OlsField::ConfLower => "conf_lower"@,
        OlsField::ConfUpper => "conf_upper"@,
        OlsField::Residuals => "residuals"@,
        OlsField::Fitted => "fitted"@,
        OlsField::RSquared => "r_squared"@,
        OlsField::AdjRSquared => "adj_r_squared"@,
        OlsField::FStatistic => "f_statistic"@,
        OlsField::ProbF => "prob_f"@,
        OlsField::LogLik => "log_lik"@,
        OlsField::Aic => "aic"@,
        OlsField::Bic => "bic"@,
        OlsField::Sigma => "sigma"@,
        OlsField::NObs => "n_obs"@,
        OlsField::DfResid => "df_resid"@,
        OlsField::DfModel => "df_model"@,
        OlsField::CovType => "cov_type"@,
        OlsField::InferenceType => "inference_type"@,
        OlsField::VariableNames => "variable_names"@,
        OlsField::Summary => "summary"@,
    }
}

/// Each field is reached by its own name: the name of a field selects that
/// field and no other, so two fields never share a name.
pub proof fn lemma_ols_field_names(f: OlsField)
    ensures
        spec_ols_field(ols_field_name(f)) == Some(f),
{
    reveal_strlit("adj_r2");
    reveal_strlit("adj_r_squared");
    reveal_strlit("aic");
    reveal_strlit("bic");
    reveal_strlit("coef");
    reveal_strlit("coefficients");
    reveal_strlit("conf_lower");
    reveal_strlit("conf_upper");
    reveal_strlit("cov_type");
    reveal_strlit("df_model");
    reveal_strlit("df_resid");
    reveal_strlit("f");
    reveal_strlit("f_statistic");
    reveal_strlit("fitted");
    reveal_strlit("fitted_values");
    reveal_strlit("inference_type");
    reveal_strlit("log_lik");
    reveal_strlit("log_likelihood");
    reveal_strlit("n");
    reveal_strlit("n_obs");
    reveal_strlit("p");
    reveal_strlit("p_values");
    reveal_strlit("params");
    reveal_strlit("prob_f");
    reveal_strlit("r2");
    reveal_strlit("r_squared");
    reveal_strlit("residuals");
    reveal_strlit("se");
    reveal_strlit("sigma");
    reveal_strlit("std_errors");
    reveal_strlit("summary");
    reveal_strlit("t");
    reveal_strlit("t_values");
    reveal_strlit("variable_names");
    let n = ols_field_name(f);
    match f {
        OlsField::Params => {},
        OlsField::StdErrors => {
            assert(n.len() == 10);
        },
        OlsField::TValues => {
            assert(n.len() == 8);
        },
        OlsField::PValues => {
            assert(n.len() == 8);
            assert(n[0] == 'p' && "t_values"@[0] == 't');
        },
        OlsField::ConfLower => {
            assert(n.len() == 10);
            assert(n[0] == 'c' && "std_errors"@[0] == 's');
        },
        OlsField::ConfUpper => {
            assert(n.len() == 10);
            assert(n[0] == 'c' && "std_errors"@[0] == 's');
            assert(n[5] == 'u' && "conf_lower"@[5] == 'l');
        },
        OlsField::Residuals => {
            assert(n.len() == 9);
        },
        OlsField::Fitted => {
            assert(n.len() == 6);
            assert(n[0] == 'f' && "params"@[0] == 'p');
        },
        OlsField::RSquared => {
            assert(n.len() == 9);
            assert(n[1] == '_' && "residuals"@[1] == 'e');
        },
        OlsField::AdjRSquared => {
            assert(n.len() == 13);
            assert(n[0] == 'a' && "fitted_values"@[0] == 'f');
        },
        OlsField::FStatistic => {
            assert(n.len() == 11);
        },
        OlsField::ProbF => {
            assert(n.len() == 6);
            assert(n[1] == 'r' && "params"@[1] == 'a');
            assert(n[0] == 'p' && "fitted"@[0] == 'f');
            assert(n[0] == 'p' && "adj_r2"@[0] == 'a');
        },
        OlsField::LogLik => {
            assert(n.len() == 7);
        },
        OlsField::Aic => {
            assert(n.len() == 3);
        },
        OlsField::Bic => {
            assert(n.len() == 3);
            assert(n[0] == 'b' && "aic"@[0] == 'a');
        },
        OlsField::Sigma => {
            assert(n.len() == 5);
        },
        OlsField::NObs => {
            assert(n.len() == 5);
            assert(n[0] == 'n' && "sigma"@[0] == 's');
        },
        OlsField::DfResid => {
            assert(n.len() == 8);
            assert(n[0] == 'd' && "t_values"@[0] == 't');
            assert(n[0] == 'd' && "p_values"@[0] == 'p');
        },
        OlsField::DfModel => {
            assert(n.len() == 8);
            assert(n[0] == 'd' && "t_values"@[0] == 't');
            assert(n[0] == 'd' && "p_values"@[0] == 'p');
            assert(n[3] == 'm' && "df_resid"@[3] == 'r');
        },
        OlsField::CovType => {
            assert(n.len() == 8);
            assert(n[0] == 'c' && "t_values"@[0] == 't');
            assert(n[0] == 'c' && "p_values"@[0] == 'p');
            assert(n[0] == 'c' && "df_resid"@[0] == 'd');
            assert(n[0] == 'c' && "df_model"@[0] == 'd');
        },
        OlsField::InferenceType => {
            assert(n.len() == 14);
            assert(n[0] == 'i' && "log_likelihood"@[0] == 'l');
        },
        OlsField::VariableNames => {
            assert(n.len() == 14);
            assert(n[0] == 'v' && "log_likelihood"@[0] == 'l');
            assert(n[0] == 'v' && "inference_type"@[0] == 'i');
        },
        OlsField::Summary => {
            assert(n.len() == 7);
            assert(n[0] == 's' && "log_lik"@[0] == 'l');
        },
    }
}

/// The OLS field named `f`, if there is one.
pub fn ols_field(f: &str) -> (r: Option<OlsField>)
    ensures
        r == spec_ols_field(f@),
{
    if str_eq(f, "params") || str_eq(f, "coef") || str_eq(f, "coefficients") {
        Some(OlsField::Params)
    } else if str_eq(f, "std_errors") || str_eq(f, "se") {
        Some(OlsField::StdErrors)
    } else if str_eq(f, "t_values") || str_eq(f, "t") {
        Some(OlsField::TValues)
    } else if str_eq(f, "p_values") || str_eq(f, "p") {
        Some(OlsField::PValues)
    } else if str_eq(f, "conf_lower") {
        Some(OlsField::ConfLower)
    } else if str_eq(f, "conf_upper") {
        Some(OlsField::ConfUpper)
    } else if str_eq(f, "residuals") {
        Some(OlsField::Residuals)
    } else if str_eq(f, "fitted") || str_eq(f, "fitted_values") {
        Some(OlsField::Fitted)
    } else if str_eq(f, "r_squared") || str_eq(f, "r2") {
        Some(OlsField::RSquared)
    } else if str_eq(f, "adj_r_squared") || str_eq(f, "adj_r2") {
        Some(OlsField::AdjRSquared)
    } else if str_eq(f, "f_statistic") || str_eq(f, "f") {
        Some(OlsField::FStatistic)
    } else if str_eq(f, "prob_f") {
        Some(OlsField::ProbF)
    } else if str_eq(f, "log_lik") || str_eq(f, "log_likelihood") {
        Some(OlsField::LogLik)
    } else if str_eq(f, "aic") {
        Some(OlsField::Aic)
    } else if str_eq(f, "bic") {
        Some(OlsField::Bic)
    } else if str_eq(f, "sigma") {
        Some(OlsField::Sigma)
    } else if str_eq(f, "n") || str_eq(f, "n_obs") {
        Some(OlsField::NObs)
    } else if str_eq(f, "df_resid") {
        Some(OlsField::DfResid)
    } else if str_eq(f, "df_model") {
        Some(OlsField::DfModel)
    } else if str_eq(f, "cov_type") {
        Some(OlsField::CovType)
    } else if str_eq(f, "inference_type") {
        Some(OlsField::InferenceType)
    } else if str_eq(f, "variable_names") {
        Some(OlsField::VariableNames)
    } else if str_eq(f, "summary") {
        Some(OlsField::Summary)
    } else {
        None
    }
}

/// The column a coefficient-table field is shown under.
pub open spec fn spec_table_column(f: OlsField) -> Option<Seq<char>> {
    match f {
        OlsField::Params => Some("coef"@),
        OlsField::StdErrors => Some("std_err"@),
        OlsField::TValues => Some("t"@),
        OlsField::PValues => Some("p_value"@),
        OlsField::ConfLower => Some("conf_low"@),
        OlsField::ConfUpper => Some("conf_high"@),
        _ => None,
    }
}

/// The column of a coefficient-table field (next to the `variable` column).
pub fn table_column(f: OlsField) -> (r: Option<String>)
    ensures
        match r {
            Some(s) => spec_table_column(f) == Some(s@),
            None => spec_table_column(f) is None,
        },
{
    match f {
        OlsField::Params => Some(String::from_str("coef")),
        OlsField::StdErrors => Some(String::from_str("std_err")),
        OlsField::TValues => Some(String::from_str("t")),
        OlsField::PValues => Some(String::from_str("p_value")),
        OlsField::ConfLower => Some(String::from_str("conf_low")),
        OlsField::ConfUpper => Some(String::from_str("conf_high")),
        _ => None,
    }
}

/// What a field access gives: a value the exact core computes, a field the
/// caller reads from the fitted OLS model, or the model's printed summary.
pub enum FieldAccess {
    Value(Value),
    Ols(OlsField),
    Summary,
}

/// The abstract form of a field access.
pub enum FieldV {
    Value(Val),
    Ols(OlsField),
    Summary,
}

/// The names of a list of strings as a language list.
pub open spec fn names_list(names: Seq<Seq<char>>) -> Val {
    Val::List(names.map_values(|n: Seq<char>| Val::Str(n)))
}

/// The model families whose results print a summary.
pub open spec fn prints_summary(kind: ModelKind) -> bool {
    kind == ModelKind::Iv || kind == ModelKind::Binary || kind == ModelKind::Panel || kind == ModelKind::Re
}

/// Field `field` of value `v`, or its error.
pub open spec fn field_route(v: Val, field: Seq<char>) -> Result<FieldV, ErrV> {
    match v {
        Val::Model { kind: ModelKind::Ols, variable_names, .. } => match spec_ols_field(field) {
            Some(OlsField::VariableNames) => Ok(
                FieldV::Value(
                    names_list(
                        match variable_names {
                            Some(n) => n,
                            None => Seq::empty(),
                        },
                    ),
                ),
            ),
            Some(OlsField::Summary) => Ok(FieldV::Summary),
            Some(k) => Ok(FieldV::Ols(k)),
            None => Err(ErrV::Runtime("OLS result has no field '"@ + field + "'"@)),
        },
        Val::Model { kind, .. } => if prints_summary(kind) && field == "summary"@ {
            Ok(FieldV::Summary)
        } else {
            Err(ErrV::Runtime("unknown method '"@ + field + "'"@))
        },
        _ => Err(ErrV::Runtime("unknown method '"@ + field + "'"@)),
    }
}

/// `obj.field`: the object evaluated, then its field.
pub open spec fn sem_field(f: nat, s: IState, obj: Expr, field: Seq<char>) -> Flow<FieldV> {
    match sem_expr(f, s, obj) {
        Flow::Done(s1, Ok(v)) => Flow::Done(s1, field_route(v, field)),
        Flow::Done(s1, Err(e)) => Flow::Done(s1, Err(e)),
        Flow::Fault => Flow::Fault,
    }
}

/// The abstract form of a field access or its error.
pub open spec fn field_view(r: Result<FieldAccess, HayashiError>) -> Result<FieldV, ErrV> {
    match r {
        Ok(FieldAccess::Value(v)) => Ok(FieldV::Value(v@)),
        Ok(FieldAccess::Ols(k)) => Ok(FieldV::Ols(k)),
        Ok(FieldAccess::Summary) => Ok(FieldV::Summary),
        Err(e) => Err(e@),
    }
}

/// The names as a language list of strings.
fn names_value(names: &Vec<String>) -> (v: Value)
    ensures
        v@ == names_list(strings_view(names@)),
{
    let ghost target = strings_view(names@).map_values(|n: Seq<char>| Val::Str(n));
    let mut items: Vec<Value> = Vec::new();
    let mut i: usize = 0;
    assert(items_view(items@) =~= target.take(0));
    while i < names.len()
        invariant
            i <= names@.len(),
            target == strings_view(names@).map_values(|n: Seq<char>| Val::Str(n)),
            items_view(items@) == target.take(i as int),
        decreases names@.len() - i,
    {
        let ghost before = items@;
        let item = Value::Str(names[i].clone());
        items.push(item);
        proof {
            lemma_items_view_push(before, item);
            assert(target.take(i + 1) =~= target.take(i as int).push(Val::Str(names@[i as int]@)));
        }
        i = i + 1;
    }
    assert(target.take(names@.len() as int) =~= target);
    Value::List(Rc::new(items))
}

fn no_field(prefix: &str, field: &str) -> (e: HayashiError)
    ensures
        e@ == ErrV::Runtime(prefix@ + field@ + "'"@),
{
    HayashiError::Runtime(String::from_str(prefix).concat(field).concat("'"))
}

impl Interpreter {
    /// `obj.field`: evaluates the object and resolves the field.
    pub fn eval_field(&mut self, obj: &Expr, field: &str, fuel: u64) -> (r: Result<FieldAccess, HayashiError>)
        requires
            sem_field(fuel as nat, old(self)@, *obj, field@) is Done,
        ensures
            sem_field(fuel as nat, old(self)@, *obj, field@) == Flow::Done(final(self)@, field_view(r)),
    {
        let v = self.eval_expr(obj, fuel)?;
        match &v {
            Value::Model(m) => match m.kind {
                ModelKind::Ols => match ols_field(field) {
                    Some(OlsField::VariableNames) => match &m.variable_names {
                        Some(n) => Ok(FieldAccess::Value(names_value(n))),
                        None => {
                            let empty: Vec<String> = Vec::new();
                            assert(strings_view(empty@) =~= Seq::<Seq<char>>::empty());
                            Ok(FieldAccess::Value(names_value(&empty)))
                        },
                    },
                    Some(OlsField::Summary) => Ok(FieldAccess::Summary),
                    Some(k) => Ok(FieldAccess::Ols(k)),
                    None => Err(no_field("OLS result has no field '", field)),
                },
                ModelKind::Iv | ModelKind::Binary | ModelKind::Panel | ModelKind::Re => {
                    if str_eq(field, "summary") {
                        Ok(FieldAccess::Summary)
                    } else {
                        Err(no_field("unknown method '", field))
                    }
                },
                _ => Err(no_field("unknown method '", field)),
            },
            _ => Err(no_field("unknown method '", field)),
        }
    }
}

} // verus!
