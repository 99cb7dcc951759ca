use crate::ast::{BinOp, Expr, Spanned};
use std::rc::Rc;
use vstd::prelude::*;

verus! {

/// Calls `Rc::clone`, which hands out another pointer to the same
/// allocation; the contract claims that the new pointer holds the same
/// value.
#[verifier::external_body]
pub(crate) fn share<T>(r: &Rc<T>) -> (s: Rc<T>)
    ensures
        s == *r,
{
    Rc::clone(r)
}

/// An error value bound by `catch e { ... }`.
pub struct ErrorValue {
    pub kind: String,
    pub msg: String,
    pub line: i64,
}

/// A rendered diagnostic with structured fields.
pub struct DiagResult {
    pub rendered: String,
    pub fields: Vec<(String, Value)>,
}

/// The family of a fitted model result.
#[derive(PartialEq, Eq, Structural, Clone, Copy, Debug)]
pub enum ModelKind {
    Ols,
    Binary,
    Penalized,
    Poisson,
    NegBin,
    Quantile,
    Panel,
    Tobit,
    Garch,
    Arima,
    Var,
    Vecm,
    Iv,
    Re,
    Ordered,
    Heckman,
    Cox,
    Rlm,
    Gee,
    Beta,
    Glsar,
    Mixed,
    ZeroInflated,
    Rolling,
    RecursiveLs,
    Glm,
    Lowess,
    Pca,
    Factor,
    Markov,
    Conditional,
    Varma,
    Uc,
    Gam,
    Mice,
    SVar,
    ThreeSls,
    Dfm,
    Msar,
    Decomp,
    Mstl,
    Ets,
    Threshold,
    Other,
}

/// What the interpreter reads of a fitted model: its family, its
/// coefficient names, and how many parts it has where its family has them
/// (categories of an ordered model, principal components, regimes, latent
/// factors, seasonal periods).
pub struct ModelSummary {
    pub kind: ModelKind,
    pub variable_names: Option<Vec<String>>,
    pub coef_names: Vec<String>,
    pub parts: usize,
}

/// The body of a user function: statements, or the single expression of a
/// closure (which behaves as `return expr` on line 0).
pub enum FnBody {
    Stmts(Rc<Vec<Spanned>>),
    Expr(Rc<Expr>),
}

/// A user-defined function or closure.
pub struct UserFn {
    pub params: Rc<Vec<String>>,
    pub body: FnBody,
}

/// A runtime value of the scripting language (its exact, non-floating part).
pub enum Value {
    Nil,
    Bool(bool),
    Int(i64),
    Str(String),
    List(Rc<Vec<Value>>),
    /// Entries in insertion order; keys are distinct.
    Dict(Rc<Vec<(String, Value)>>),
    Error(Rc<ErrorValue>),
    Diag(Rc<DiagResult>),
    Model(Rc<ModelSummary>),
    UserFn(Rc<UserFn>),
}

/// A floating-point operation `lhs op rhs` on the integers `lhs` and `rhs`
/// (each converted to `f64`), whose result the exact core does not compute.
#[derive(PartialEq, Eq, Structural, Clone, Copy, Debug)]
pub struct FloatOp {
    pub op: BinOp,
    pub lhs: i64,
    pub rhs: i64,
}

/// Errors and non-local control flow of the interpreter.
pub enum HayashiError {
    Runtime(String),
    Type(String),
    Return,
    Break,
    Continue,
    /// The value is a floating-point number; the exact core stops here.
    Inexact(FloatOp),
    /// An integer is to be shown with a floating-point format; the exact core stops here.
    FloatFormat(i64),
    /// The evaluation budget ran out.
    Exhausted,
}

/// The mathematical form of a runtime value: strings as character
/// sequences, containers as sequences of abstract values.
pub enum Val {
    Nil,
    Bool(bool),
    Int(i64),
    Str(Seq<char>),
    List(Seq<Val>),
    Dict(Seq<(Seq<char>, Val)>),
    Error { kind: Seq<char>, msg: Seq<char>, line: i64 },
    Diag { rendered: Seq<char>, fields: Seq<(Seq<char>, Val)> },
    Model { kind: ModelKind, variable_names: Option<Seq<Seq<char>>>, coef_names: Seq<Seq<char>>, parts: usize },
    UserFn { params: Seq<Seq<char>>, body: FnBody },
}

/// The character sequences of a vector of strings.
pub open spec fn strings_view(v: Seq<String>) -> Seq<Seq<char>> {
    v.map_values(|s: String| s@)
}

/// The abstract form of a value.
pub open spec fn value_view(v: Value) -> Val
    decreases v,
{
    match v {
        Value::Nil => Val::Nil,
        Value::Bool(b) => Val::Bool(b),
        Value::Int(i) => Val::Int(i),
        Value::Str(s) => Val::Str(s@),
        Value::List(l) => Val::List(items_view(l@)),
        Value::Dict(d) => Val::Dict(entries_view(d@)),
        Value::Error(e) => Val::Error { kind: e.kind@, msg: e.msg@, line: e.line },
        Value::Diag(d) => Val::Diag { rendered: d.rendered@, fields: entries_view(d.fields@) },
        Value::Model(m) => Val::Model {
            kind: m.kind,
            variable_names: match m.variable_names {
                Some(n) => Some(strings_view(n@)),
                None => None,
            },
            coef_names: strings_view(m.coef_names@),
            parts: m.parts,
        },
        Value::UserFn(f) => Val::UserFn { params: strings_view(f.params@), body: f.body },
    }
}

/// The abstract forms of a sequence of values.
pub open spec fn items_view(s: Seq<Value>) -> Seq<Val>
    decreases s,
{
    if s.len() == 0 {
        Seq::empty()
    } else {
        items_view(s.drop_last()).push(value_view(s.last()))
    }
}

/// The abstract forms of dictionary entries.
pub open spec fn entries_view(s: Seq<(String, Value)>) -> Seq<(Seq<char>, Val)>
    decreases s,
{
    if s.len() == 0 {
        Seq::empty()
    } else {
        entries_view(s.drop_last()).push((s.last().0@, value_view(s.last().1)))
    }
}

impl View for Value {
    type V = Val;

    open spec fn view(&self) -> Val {
        value_view(*self)
    }
}

/// `items_view` maps each value to its abstract form.
pub proof fn lemma_items_view(s: Seq<Value>)
    ensures
        items_view(s).len() == s.len(),
        forall|i: int| 0 <= i < s.len() ==> #[trigger] items_view(s)[i] == value_view(s[i]),
    decreases s.len(),
{
    if s.len() > 0 {
        lemma_items_view(s.drop_last());
        assert forall|i: int| 0 <= i < s.len() implies #[trigger] items_view(s)[i] == value_view(
            s[i],
        ) by {
            if i < s.len() - 1 {
                assert(items_view(s.drop_last())[i] == value_view(s.drop_last()[i]));
            }
        }
    }
}

/// `items_view` of a pushed sequence.
pub proof fn lemma_items_view_push(s: Seq<Value>, x: Value)
    ensures
        items_view(s.push(x)) == items_view(s).push(value_view(x)),
{
    assert(s.push(x).drop_last() =~= s);
}

/// `entries_view` maps each entry to its abstract form.
pub proof fn lemma_entries_view(s: Seq<(String, Value)>)
    ensures
        entries_view(s).len() == s.len(),
        forall|i: int|
            0 <= i < s.len() ==> #[trigger] entries_view(s)[i] == (s[i].0@, value_view(s[i].1)),
    decreases s.len(),
{
    if s.len() > 0 {
        lemma_entries_view(s.drop_last());
        assert forall|i: int| 0 <= i < s.len() implies #[trigger] entries_view(s)[i] == (
            s[i].0@,
            value_view(s[i].1),
        ) by {
            if i < s.len() - 1 {
                assert(entries_view(s.drop_last())[i] == (
                    s.drop_last()[i].0@,
                    value_view(s.drop_last()[i].1),
                ));
            }
        }
    }
}

/// The abstract form of an interpreter error.
pub enum ErrV {
    Runtime(Seq<char>),
    Type(Seq<char>),
    Return,
    Break,
    Continue,
    Inexact(FloatOp),
    FloatFormat(i64),
    Exhausted,
}

impl View for HayashiError {
    type V = ErrV;

    open spec fn view(&self) -> ErrV {
        match self {
            HayashiError::Runtime(m) => ErrV::Runtime(m@),
            HayashiError::Type(m) => ErrV::Type(m@),
            HayashiError::Return => ErrV::Return,
            HayashiError::Break => ErrV::Break,
            HayashiError::Continue => ErrV::Continue,
            HayashiError::Inexact(op) => ErrV::Inexact(*op),
            HayashiError::FloatFormat(i) => ErrV::FloatFormat(*i),
            HayashiError::Exhausted => ErrV::Exhausted,
        }
    }
}

/// The abstract form of a result carrying a value.
pub open spec fn result_view(r: Result<Value, HayashiError>) -> Result<Val, ErrV> {
    match r {
        Ok(v) => Ok(v@),
        Err(e) => Err(e@),
    }
}

/// Truthiness of a value, as used by `if`, `while`, `not`, `and` and `or`.
pub open spec fn truthy(v: Val) -> bool {
    match v {
        Val::Bool(b) => b,
        Val::Int(i) => i != 0,
        Val::Nil => false,
        _ => true,
    }
}

/// Converts a value to a boolean permissively.
pub fn value_as_bool(v: &Value) -> (b: bool)
    ensures
        b == truthy(v@),
{
    match v {
        Value::Bool(b) => *b,
        Value::Int(i) => *i != 0,
        Value::Nil => false,
        _ => true,
    }
}

impl Value {
    /// A copy of the value; containers are shared, not deep-copied.
    pub fn copy(&self) -> (r: Value)
        ensures
            r == *self,
    {
        match self {
            Value::Nil => Value::Nil,
            Value::Bool(b) => Value::Bool(*b),
            Value::Int(i) => Value::Int(*i),
            Value::Str(s) => Value::Str(s.clone()),
            Value::List(l) => Value::List(share(l)),
            Value::Dict(d) => Value::Dict(share(d)),
            Value::Error(e) => Value::Error(share(e)),
            Value::Diag(d) => Value::Diag(share(d)),
            Value::Model(m) => Value::Model(share(m)),
            Value::UserFn(f) => Value::UserFn(share(f)),
        }
    }
}

/// Builds a rendered diagnostic value.
pub fn diag(rendered: String) -> (v: Value)
    ensures
        v@ == (Val::Diag { rendered: rendered@, fields: Seq::empty() }),
{
    let fields: Vec<(String, Value)> = Vec::new();
    assert(entries_view(fields@) =~= Seq::empty());
    Value::Diag(Rc::new(DiagResult { rendered, fields }))
}

/// Builds a rendered diagnostic value with structured fields.
pub fn diag_with(rendered: String, fields: Vec<(String, Value)>) -> (v: Value)
    ensures
        v@ == (Val::Diag { rendered: rendered@, fields: entries_view(fields@) }),
{
    Value::Diag(Rc::new(DiagResult { rendered, fields }))
}

/// The coefficient names that a model result carries, if it is a model of
/// a family that has them.
pub open spec fn spec_var_names(v: Val) -> Seq<Seq<char>> {
    match v {
        Val::Model { kind, variable_names, coef_names, .. } => match kind {
            ModelKind::Binary => coef_names,
            ModelKind::Ols | ModelKind::Penalized | ModelKind::Poisson | ModelKind::NegBin
            | ModelKind::Quantile | ModelKind::Panel | ModelKind::Tobit => match variable_names {
                Some(names) => names,
                None => Seq::empty(),
            },
            _ => Seq::empty(),
        },
        _ => Seq::empty(),
    }
}

/// Copies a vector of strings.
pub fn copy_strings(v: &Vec<String>) -> (r: Vec<String>)
    ensures
        r@ == v@,
{
    let mut r: Vec<String> = Vec::new();
    let mut i: usize = 0;
    while i < v.len()
        invariant
            i <= v.len(),
            r@ == v@.take(i as int),
        decreases v.len() - i,
    {
        r.push(v[i].clone());
        i = i + 1;
        assert(r@ =~= v@.take(i as int));
    }
    assert(v@.take(v.len() as int) =~= v@);
    r
}

/// Extracts the coefficient names from a model result.
pub fn extract_var_names(v: &Value) -> (names: Vec<String>)
    ensures
        strings_view(names@) == spec_var_names(v@),
{
    match v {
        Value::Model(m) => match m.kind {
            ModelKind::Binary => copy_strings(&m.coef_names),
            ModelKind::Ols | ModelKind::Penalized | ModelKind::Poisson | ModelKind::NegBin
            | ModelKind::Quantile | ModelKind::Panel | ModelKind::Tobit => match &m.variable_names {
                Some(names) => copy_strings(names),
                None => {
                    let r: Vec<String> = Vec::new();
                    assert(strings_view(r@) =~= Seq::empty());
                    r
                },
            },
            _ => {
                let r: Vec<String> = Vec::new();
                assert(strings_view(r@) =~= Seq::empty());
                r
            },
        },
        _ => {
            let r: Vec<String> = Vec::new();
            assert(strings_view(r@) =~= Seq::empty());
            r
        },
    }
}

} // verus!
