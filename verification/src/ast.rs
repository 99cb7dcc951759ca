use crate::formula::Formula;
use std::rc::Rc;
use vstd::prelude::*;

verus! {

/// Binary operators of the scripting language.
#[derive(PartialEq, Eq, Structural, Clone, Copy, Debug)]
pub enum BinOp {
    Add,
    Sub,
    Mul,
    Div,
    Mod,
    Pow,
    Eq,
    Ne,
    Gt,
    Lt,
    GtEq,
    LtEq,
    And,
    Or,
    In,
}

/// A piece of an interpolated string `f"..."`.
pub enum FStringPart {
    Lit(String),
    Interp { expr: Box<Expr>, fmt: Option<String> },
}

/// Expressions of the exact (integer, boolean, string and container) fragment
/// of the language.
pub enum Expr {
    Int(i64),
    Bool(bool),
    Str(String),
    Nil,
    FString(Vec<FStringPart>),
    Var(String),
    Closure { params: Rc<Vec<String>>, body: Rc<Expr> },
    Apply { func: Box<Expr>, args: Vec<Expr> },
    Match { expr: Box<Expr>, arms: Vec<(Expr, Expr)> },
    If { cond: Box<Expr>, then_expr: Box<Expr>, else_expr: Box<Expr> },
    BinOp { op: BinOp, lhs: Box<Expr>, rhs: Box<Expr> },
    Neg(Box<Expr>),
    Not(Box<Expr>),
    List(Vec<Expr>),
    Dict(Vec<(Expr, Expr)>),
    Index { obj: Box<Expr>, idx: Box<Expr> },
    Range(Box<Expr>, Box<Expr>),
    RangeInclusive(Box<Expr>, Box<Expr>),
    Block(Vec<Stmt>, Option<Box<Expr>>),
    /// `source |> expr`: the value of `expr`; as a statement it is also
    /// stored in `source` when that is a variable.
    Pipe { source: Box<Expr>, expr: Box<Expr> },
    /// `quietly(expr)`: `expr` evaluated with output suppressed.
    Quietly(Box<Expr>),
    /// `L.var`, `F.var`, `D.var` (with an order): valid only inside `generate`.
    TsOp { op: TsOp, var: String, n: usize },
    /// A model formula, valid only as an estimator argument.
    Formula(Formula),
}

/// The time-series column operators: lag, lead and difference.
#[derive(PartialEq, Eq, Structural, Clone, Copy, Debug)]
pub enum TsOp {
    Lag,
    Lead,
    Diff,
}

/// What a `for` loop iterates over.
pub enum ForIter {
    Range(Expr, Expr),
    RangeInclusive(Expr, Expr),
    Items(Expr),
}

/// A statement together with its source line.
pub struct Spanned {
    pub stmt: Stmt,
    pub line: i64,
}

/// Statements of the control-flow fragment of the language.
pub enum Stmt {
    Let { name: String, value: Expr },
    Const { name: String, value: Expr },
    Assign { name: String, value: Expr },
    If { cond: Expr, then_body: Vec<Spanned>, else_body: Option<Vec<Spanned>> },
    TryCatch {
        try_body: Vec<Spanned>,
        error_var: String,
        catch_body: Vec<Spanned>,
        finally_body: Vec<Spanned>,
    },
    For { var: String, var2: Option<String>, iter: ForIter, body: Vec<Spanned> },
    Fn { name: String, params: Rc<Vec<String>>, body: Rc<Vec<Spanned>> },
    Return(Option<Expr>),
    Break,
    Continue,
    While { cond: Expr, body: Vec<Spanned> },
    Expr(Expr),
    Block(Vec<Spanned>),
    QuietlyOn,
    QuietlyOff,
    /// `print a, b, ..., sep=.., end=..`.
    Print { items: Vec<Expr>, opts: Vec<(String, Expr)> },
    /// `display expr` (the older form of `print`).
    Display(Expr),
}

} // verus!
