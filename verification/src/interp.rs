use crate::ast::{BinOp, Expr, FStringPart, ForIter, Spanned, Stmt};
use crate::binop::{eval_scalar_binop, Scalar};
use crate::env::{Env, EnvV};
use crate::ops::{
    bind_params_in, caught_fields, entry_key, for_range_bound, in_value, index_value,
    insert_entry, not_int_error, not_str_error, range_values, shown_value,
};
use crate::render::{render, render_value};
use crate::semantics::{
    sem_apply, sem_arms, sem_binop, sem_block, sem_body_stmts, sem_call, sem_dict, sem_entries,
    sem_exec, sem_expr, sem_exprs, sem_for, sem_for_dict, sem_for_list, sem_for_range,
    sem_fstring, sem_fstring_value, sem_if, sem_if_stmt, sem_index, sem_int_scalar,
    sem_iteration, sem_list, sem_loop_body, sem_match, sem_plain_stmts, sem_range, sem_stmts,
    sem_str_scalar, sem_try, sem_try_body, sem_while, is_float_format, with_env, Flow, IState, TryEnd,
    sem_named, sem_print_items, text_option, written, dict_lookup, display_items, display_text,
};
use crate::ops::find_entry;
use crate::text::str_eq;
use crate::value::{
    entries_view, items_view, lemma_entries_view, lemma_items_view, lemma_items_view_push,
    result_view, share, strings_view, value_as_bool, ErrV, ErrorValue, FnBody, HayashiError,
    UserFn, Val, Value,
};
use std::rc::Rc;
use vstd::prelude::*;

verus! {

/// The text `display` shows for a value.
fn display_string(v: &Value) -> (s: String)
    ensures
        s@ == display_text(v@),
{
    match v {
        Value::Str(t) => String::from_str("\"").concat(t.as_str()).concat("\"\n"),
        Value::Nil => String::from_str("(nil)\n"),
        Value::List(items) => {
            proof {
                lemma_items_view(items@);
            }
            let ghost iv = items_view(items@);
            let mut acc = String::new();
            let mut i: usize = 0;
            assert(iv.take(0) =~= Seq::<Val>::empty());
            while i < items.len()
                invariant
                    i <= items@.len(),
                    iv == items_view(items@),
                    iv.len() == items@.len(),
                    forall|t: int| 0 <= t < items@.len() ==> (#[trigger] iv[t]) == items@[t]@,
                    acc@ == display_items(iv.take(i as int)),
                decreases items@.len() - i,
            {
                proof {
                    assert(iv.take(i + 1).drop_last() =~= iv.take(i as int));
                    assert(iv.take(i + 1).last() == items@[i as int]@);
                }
                let item = render_value(&items[i]);
                acc = acc.concat("  ").concat(item.as_str());
                i = i + 1;
            }
            assert(iv.take(items@.len() as int) =~= iv);
            acc.concat("\n")
        },
        _ => render_value(v).concat("\n"),
    }
}

/// The interpreter: variables, the pending return value, the current line,
/// the texts written so far, in order, and the panel declarations made by
/// `xtset`.
pub struct Interpreter {
    pub env: Env,
    pub return_value: Option<Value>,
    pub current_line: i64,
    pub output: Vec<String>,
    pub panel_info: Vec<(String, String, String)>,
}

/// The character sequences of the texts written.
pub open spec fn lines_view(v: Seq<String>) -> Seq<Seq<char>> {
    v.map_values(|s: String| s@)
}

/// The character sequences of panel declarations.
pub open spec fn panel_view(v: Seq<(String, String, String)>) -> Seq<(Seq<char>, Seq<char>, Seq<char>)> {
    v.map_values(|t: (String, String, String)| (t.0@, t.1@, t.2@))
}

impl View for Interpreter {
    type V = IState;

    open spec fn view(&self) -> IState {
        IState {
            env: self.env@,
            ret: match self.return_value {
                Some(v) => Some(v@),
                None => None,
            },
            line: self.current_line,
            output: lines_view(self.output@),
            panel: panel_view(self.panel_info@),
        }
    }
}

/// How the `try` part of a `try`/`catch` ended.
pub enum TryEnded {
    Completed,
    ControlFlow,
    Caught(HayashiError),
}

impl View for TryEnded {
    type V = TryEnd;

    open spec fn view(&self) -> TryEnd {
        match self {
            TryEnded::Completed => TryEnd::Completed,
            TryEnded::ControlFlow => TryEnd::ControlFlow,
            TryEnded::Caught(e) => TryEnd::Caught(e@),
        }
    }
}

/// The character sequence of an optional string.
pub open spec fn opt_str_view(o: Option<String>) -> Option<Seq<char>> {
    match o {
        Some(v) => Some(v@),
        None => None,
    }
}

/// The statements of an optional block.
pub open spec fn opt_body_view(o: Option<Vec<Spanned>>) -> Option<Seq<Spanned>> {
    match o {
        Some(b) => Some(b@),
        None => None,
    }
}

/// The abstract form of a result without a value.
pub open spec fn unit_view(r: Result<(), HayashiError>) -> Result<(), ErrV> {
    match r {
        Ok(()) => Ok(()),
        Err(e) => Err(e@),
    }
}

/// The abstract form of an integer result.
pub open spec fn int_result_view(r: Result<i64, HayashiError>) -> Result<i64, ErrV> {
    match r {
        Ok(i) => Ok(i),
        Err(e) => Err(e@),
    }
}

/// The abstract form of a string result.
pub open spec fn str_result_view(r: Result<String, HayashiError>) -> Result<Seq<char>, ErrV> {
    match r {
        Ok(s) => Ok(s@),
        Err(e) => Err(e@),
    }
}

/// The abstract form of a boolean result.
pub open spec fn bool_result_view(r: Result<bool, HayashiError>) -> Result<bool, ErrV> {
    match r {
        Ok(b) => Ok(b),
        Err(e) => Err(e@),
    }
}

fn is_float_format_str(spec: &String) -> (r: bool)
    ensures
        r == is_float_format(spec@),
{
    let n = spec.as_str().unicode_len();
    if n == 0 {
        return false;
    }
    let first = spec.as_str().get_char(0);
    let last = spec.as_str().get_char(n - 1);
    first == '.' && (last == 'f' || last == 'e')
}

fn is_wildcard(e: &Expr) -> (r: bool)
    ensures
        r == (*e matches Expr::Var(n) && n@ == "_"@),
{
    match e {
        Expr::Var(n) => str_eq(n.as_str(), "_"),
        _ => false,
    }
}

impl Interpreter {
    /// A fresh interpreter with an empty global scope.
    pub fn new() -> (i: Interpreter)
        ensures
            i@.env.scopes == seq![Seq::<crate::env::BindingV>::empty()],
            !i@.env.quiet,
            i@.ret is None,
            i@.line == 0,
            i@.output.len() == 0,
            i@.panel.len() == 0,
    {
        Interpreter {
            env: Env::new(),
            return_value: None,
            current_line: 0,
            output: Vec::new(),
            panel_info: Vec::new(),
        }
    }

    fn push_scope(&mut self)
        ensures
            final(self)@ == with_env(old(self)@, crate::env::env_push(old(self)@.env)),
    {
        self.env.push_scope();
    }

    fn pop_scope(&mut self)
        ensures
            final(self)@ == with_env(old(self)@, crate::env::env_pop(old(self)@.env)),
    {
        self.env.pop_scope();
    }

    /// Evaluates an expression with nesting budget `fuel`.
    pub fn eval_expr(&mut self, expr: &Expr, fuel: u64) -> (r: Result<Value, HayashiError>)
        requires
            sem_expr(fuel as nat, old(self)@, *expr) is Done,
        ensures
            sem_expr(fuel as nat, old(self)@, *expr) == Flow::Done(final(self)@, result_view(r)),
        decreases fuel, 0nat, 0nat,
    {
        if fuel == 0 {
            return Err(HayashiError::Exhausted);
        }
        let f1 = fuel - 1;
        match expr {
            Expr::Int(v) => Ok(Value::Int(*v)),
            Expr::Bool(b) => Ok(Value::Bool(*b)),
            Expr::Str(t) => Ok(Value::Str(t.clone())),
            Expr::Nil => Ok(Value::Nil),
            Expr::FString(parts) => self.eval_fstring(parts, f1),
            Expr::Var(name) => match self.env.get(name) {
                Some(v) => Ok(v),
                None => Err(
                    HayashiError::Runtime(
                        String::from_str("undefined variable '").concat(name.as_str()).concat("'"),
                    ),
                ),
            },
            Expr::Closure { params, body } => Ok(
                Value::UserFn(Rc::new(UserFn { params: share(params), body: FnBody::Expr(share(body)) })),
            ),
            Expr::Apply { func, args } => self.eval_apply(func, args, f1),
            Expr::Match { expr, arms } => self.eval_match_expr(expr, arms, f1),
            Expr::If { cond, then_expr, else_expr } => self.eval_if_expr(cond, then_expr, else_expr, f1),
            Expr::BinOp { op, lhs, rhs } => self.eval_binop_expr(op, lhs, rhs, f1),
            Expr::Neg(inner) => {
                let v = self.eval_expr(inner, f1)?;
                match v {
                    Value::Int(i) => Ok(Value::Int(-i)),
                    _ => Err(HayashiError::Type(String::from_str("unary negation requires number"))),
                }
            },
            Expr::Not(inner) => {
                let v = self.eval_expr(inner, f1)?;
                Ok(Value::Bool(!value_as_bool(&v)))
            },
            Expr::List(items) => self.eval_list(items, f1),
            Expr::Dict(pairs) => self.eval_dict(pairs, f1),
            Expr::Index { obj, idx } => self.eval_index(obj, idx, f1),
            Expr::Range(a, b) => self.eval_range(a, b, false, f1),
            Expr::RangeInclusive(a, b) => self.eval_range(a, b, true, f1),
            Expr::Block(stmts, fin) => self.eval_block(stmts, fin, f1),
            Expr::Pipe { source: _, expr } => self.eval_expr(expr, f1),
            Expr::Quietly(inner) => self.eval_quietly(inner, f1),
            Expr::TsOp { .. } => Err(
                HayashiError::Runtime(String::from_str("L./F./D. operators are only valid inside generate")),
            ),
            Expr::Formula(_) => Err(
                HayashiError::Runtime(String::from_str("formula must be used inside an estimator call")),
            ),
        }
    }

    /// `quietly(expr)`: `expr` evaluated with output suppressed, the
    /// previous setting restored afterwards whatever the outcome.
    pub fn eval_quietly(&mut self, inner: &Expr, fuel: u64) -> (r: Result<Value, HayashiError>)
        requires
            sem_expr(fuel as nat, with_env(old(self)@, EnvV { scopes: old(self)@.env.scopes, quiet: true }), *inner) is Done,
        ensures
            match sem_expr(fuel as nat, with_env(old(self)@, EnvV { scopes: old(self)@.env.scopes, quiet: true }), *inner) {
                Flow::Done(s1, r2) => final(self)@ == with_env(s1, EnvV { scopes: s1.env.scopes, quiet: old(self)@.env.quiet })
                    && result_view(r) == r2,
                Flow::Fault => false,
            },
        decreases fuel, 1nat, 0nat,
    {
        let old_quiet = self.env.quiet_mode;
        self.env.set_quiet_mode(true);
        let result = self.eval_expr(inner, fuel);
        self.env.set_quiet_mode(old_quiet);
        result
    }

    /// `if cond { then_expr } else { else_expr }`.
    pub fn eval_if_expr(&mut self, cond: &Expr, then_expr: &Expr, else_expr: &Expr, fuel: u64) -> (r: Result<
        Value,
        HayashiError,
    >)
        requires
            sem_if(fuel as nat, old(self)@, *cond, *then_expr, *else_expr) is Done,
        ensures
            sem_if(fuel as nat, old(self)@, *cond, *then_expr, *else_expr) == Flow::Done(
                final(self)@,
                result_view(r),
            ),
        decreases fuel, 3nat, 0nat,
    {
        let c = self.eval_expr(cond, fuel)?;
        if value_as_bool(&c) {
            self.eval_expr(then_expr, fuel)
        } else {
            self.eval_expr(else_expr, fuel)
        }
    }

    /// A binary operator expression.
    pub fn eval_binop_expr(&mut self, op: &BinOp, lhs: &Expr, rhs: &Expr, fuel: u64) -> (r: Result<
        Value,
        HayashiError,
    >)
        requires
            sem_binop(fuel as nat, old(self)@, *op, *lhs, *rhs) is Done,
        ensures
            sem_binop(fuel as nat, old(self)@, *op, *lhs, *rhs) == Flow::Done(final(self)@, result_view(r)),
        decreases fuel, 3nat, 0nat,
    {
        let op = *op;
        let l = self.eval_expr(lhs, fuel)?;
        if op == BinOp::And && !value_as_bool(&l) {
            return Ok(Value::Bool(false));
        }
        if op == BinOp::Or && value_as_bool(&l) {
            return Ok(Value::Bool(true));
        }
        let r = self.eval_expr(rhs, fuel)?;
        if op == BinOp::And || op == BinOp::Or {
            return Ok(Value::Bool(value_as_bool(&r)));
        }
        if op == BinOp::In {
            return in_value(&l, &r);
        }
        match eval_scalar_binop(&op, l, r)? {
            Scalar::Exact(v) => Ok(v),
            Scalar::Float(fo) => Err(HayashiError::Inexact(fo)),
        }
    }

    fn eval_items(&mut self, items: &Vec<Expr>, fuel: u64) -> (r: Result<Vec<Value>, HayashiError>)
        requires
            sem_exprs(fuel as nat, old(self)@, items@, 0, Seq::empty()) is Done,
        ensures
            sem_exprs(fuel as nat, old(self)@, items@, 0, Seq::empty()) == Flow::Done(
                final(self)@,
                match r {
                    Ok(v) => Ok(items_view(v@)),
                    Err(e) => Err(e@),
                },
            ),
        decreases fuel, 1nat, 0nat,
    {
        let mut acc: Vec<Value> = Vec::new();
        let mut i: usize = 0;
        assert(items_view(acc@) =~= Seq::<Val>::empty());
        while i < items.len()
            invariant
                i <= items@.len(),
                sem_exprs(fuel as nat, old(self)@, items@, 0, Seq::empty()) == sem_exprs(
                    fuel as nat,
                    self@,
                    items@,
                    i as int,
                    items_view(acc@),
                ),
                sem_exprs(fuel as nat, self@, items@, i as int, items_view(acc@)) is Done,
            decreases items@.len() - i,
        {
            let v = self.eval_expr(&items[i], fuel)?;
            let ghost old_acc = acc@;
            acc.push(v);
            proof {
                lemma_items_view_push(old_acc, v);
            }
            i = i + 1;
        }
        Ok(acc)
    }

    /// A list literal.
    pub fn eval_list(&mut self, items: &Vec<Expr>, fuel: u64) -> (r: Result<Value, HayashiError>)
        requires
            sem_list(fuel as nat, old(self)@, items@) is Done,
        ensures
            sem_list(fuel as nat, old(self)@, items@) == Flow::Done(final(self)@, result_view(r)),
        decreases fuel, 3nat, 0nat,
    {
        let vals = self.eval_items(items, fuel)?;
        Ok(Value::List(Rc::new(vals)))
    }

    /// A dictionary literal.
    pub fn eval_dict(&mut self, pairs: &Vec<(Expr, Expr)>, fuel: u64) -> (r: Result<Value, HayashiError>)
        requires
            sem_dict(fuel as nat, old(self)@, pairs@) is Done,
        ensures
            sem_dict(fuel as nat, old(self)@, pairs@) == Flow::Done(final(self)@, result_view(r)),
        decreases fuel, 3nat, 0nat,
    {
        let mut acc: Vec<(String, Value)> = Vec::new();
        let mut i: usize = 0;
        assert(entries_view(acc@) =~= Seq::<(Seq<char>, Val)>::empty());
        while i < pairs.len()
            invariant
                i <= pairs@.len(),
                sem_entries(fuel as nat, old(self)@, pairs@, 0, Seq::empty()) == sem_entries(
                    fuel as nat,
                    self@,
                    pairs@,
                    i as int,
                    entries_view(acc@),
                ),
                sem_entries(fuel as nat, self@, pairs@, i as int, entries_view(acc@)) is Done,
            decreases pairs@.len() - i,
        {
            let kv = self.eval_expr(&pairs[i].0, fuel)?;
            let k = entry_key(&kv)?;
            let v = self.eval_expr(&pairs[i].1, fuel)?;
            insert_entry(&mut acc, k, v);
            i = i + 1;
        }
        Ok(Value::Dict(Rc::new(acc)))
    }

    /// Indexing `obj[idx]`.
    pub fn eval_index(&mut self, obj: &Expr, idx: &Expr, fuel: u64) -> (r: Result<Value, HayashiError>)
        requires
            sem_index(fuel as nat, old(self)@, *obj, *idx) is Done,
        ensures
            sem_index(fuel as nat, old(self)@, *obj, *idx) == Flow::Done(final(self)@, result_view(r)),
        decreases fuel, 3nat, 0nat,
    {
        let o = self.eval_expr(obj, fuel)?;
        let i = self.eval_expr(idx, fuel)?;
        index_value(&o, &i)
    }

    /// An expression that must yield an integer.
    pub fn eval_int_scalar(&mut self, expr: &Expr, ctx: &str, fuel: u64) -> (r: Result<i64, HayashiError>)
        requires
            sem_int_scalar(fuel as nat, old(self)@, *expr, ctx@) is Done,
        ensures
            sem_int_scalar(fuel as nat, old(self)@, *expr, ctx@) == Flow::Done(final(self)@, int_result_view(r)),
        decreases fuel, 3nat, 0nat,
    {
        let v = self.eval_expr(expr, fuel)?;
        match v {
            Value::Int(i) => Ok(i),
            _ => Err(not_int_error(ctx, &v)),
        }
    }

    /// An expression that must yield a string.
    pub fn eval_str_scalar(&mut self, expr: &Expr, ctx: &str, fuel: u64) -> (r: Result<String, HayashiError>)
        requires
            sem_str_scalar(fuel as nat, old(self)@, *expr, ctx@) is Done,
        ensures
            sem_str_scalar(fuel as nat, old(self)@, *expr, ctx@) == Flow::Done(final(self)@, str_result_view(r)),
        decreases fuel, 3nat, 0nat,
    {
        let v = self.eval_expr(expr, fuel)?;
        match v {
            Value::Str(s) => Ok(s),
            _ => Err(not_str_error(ctx, &v)),
        }
    }

    /// `start..end` (or `start..=end` when `inclusive`) as a list of integers.
    pub fn eval_range(&mut self, start: &Expr, end: &Expr, inclusive: bool, fuel: u64) -> (r: Result<
        Value,
        HayashiError,
    >)
        requires
            sem_range(fuel as nat, old(self)@, *start, *end, inclusive) is Done,
        ensures
            sem_range(fuel as nat, old(self)@, *start, *end, inclusive) == Flow::Done(
                final(self)@,
                result_view(r),
            ),
        decreases fuel, 3nat, 0nat,
    {
        let va = self.eval_expr(start, fuel)?;
        let a = match va {
            Value::Int(i) => i,
            _ => {
                return Err(not_int_error("range start", &va));
            },
        };
        let vb = self.eval_expr(end, fuel)?;
        let b = match vb {
            Value::Int(i) => i,
            _ => {
                return Err(not_int_error("range end", &vb));
            },
        };
        Ok(Value::List(Rc::new(range_values(a, b, inclusive))))
    }

    /// `match expr { pattern => result, ... }`.
    pub fn eval_match_expr(&mut self, expr: &Expr, arms: &Vec<(Expr, Expr)>, fuel: u64) -> (r: Result<
        Value,
        HayashiError,
    >)
        requires
            sem_match(fuel as nat, old(self)@, *expr, arms@) is Done,
        ensures
            sem_match(fuel as nat, old(self)@, *expr, arms@) == Flow::Done(final(self)@, result_view(r)),
        decreases fuel, 3nat, 0nat,
    {
        let scrutinee = self.eval_expr(expr, fuel)?;
        let key = render_value(&scrutinee);
        let mut i: usize = 0;
        while i < arms.len()
            invariant
                i <= arms@.len(),
                sem_match(fuel as nat, old(self)@, *expr, arms@) == sem_arms(
                    fuel as nat,
                    self@,
                    key@,
                    arms@,
                    i as int,
                ),
                sem_arms(fuel as nat, self@, key@, arms@, i as int) is Done,
            decreases arms@.len() - i,
        {
            if is_wildcard(&arms[i].0) {
                return self.eval_expr(&arms[i].1, fuel);
            }
            let p = self.eval_expr(&arms[i].0, fuel)?;
            if render_value(&p) == key {
                return self.eval_expr(&arms[i].1, fuel);
            }
            i = i + 1;
        }
        Err(HayashiError::Runtime(String::from_str("match: no arm matched")))
    }

    /// An interpolated string `f"..."`.
    pub fn eval_fstring(&mut self, parts: &Vec<FStringPart>, fuel: u64) -> (r: Result<Value, HayashiError>)
        requires
            sem_fstring_value(fuel as nat, old(self)@, parts@) is Done,
        ensures
            sem_fstring_value(fuel as nat, old(self)@, parts@) == Flow::Done(final(self)@, result_view(r)),
        decreases fuel, 3nat, 0nat,
    {
        let mut acc = String::new();
        let mut i: usize = 0;
        assert(acc@ =~= Seq::<char>::empty());
        while i < parts.len()
            invariant
                i <= parts@.len(),
                sem_fstring(fuel as nat, old(self)@, parts@, 0, Seq::empty()) == sem_fstring(
                    fuel as nat,
                    self@,
                    parts@,
                    i as int,
                    acc@,
                ),
                sem_fstring(fuel as nat, self@, parts@, i as int, acc@) is Done,
            decreases parts@.len() - i,
        {
            match &parts[i] {
                FStringPart::Lit(t) => {
                    acc = acc.concat(t.as_str());
                },
                FStringPart::Interp { expr, fmt } => {
                    let v = self.eval_expr(expr, fuel)?;
                    match fmt {
                        Some(spec) => match v {
                            Value::Int(n) => {
                                if is_float_format_str(spec) {
                                    return Err(HayashiError::FloatFormat(n));
                                }
                                acc = acc.concat(render_value(&v).as_str());
                            },
                            _ => {
                                acc = acc.concat(render_value(&v).as_str());
                            },
                        },
                        None => {
                            acc = acc.concat(render_value(&v).as_str());
                        },
                    }
                },
            }
            i = i + 1;
        }
        Ok(Value::Str(acc))
    }

    /// A block expression `{ stmts; final }`.
    pub fn eval_block(&mut self, stmts: &Vec<Stmt>, fin: &Option<Box<Expr>>, fuel: u64) -> (r: Result<
        Value,
        HayashiError,
    >)
        requires
            sem_block(fuel as nat, old(self)@, stmts@, *fin) is Done,
        ensures
            sem_block(fuel as nat, old(self)@, stmts@, *fin) == Flow::Done(final(self)@, result_view(r)),
        decreases fuel, 3nat, 0nat,
    {
        self.push_scope();
        let mut i: usize = 0;
        while i < stmts.len()
            invariant
                i <= stmts@.len(),
                sem_plain_stmts(fuel as nat, with_env(old(self)@, crate::env::env_push(old(self)@.env)), stmts@, 0)
                    == sem_plain_stmts(fuel as nat, self@, stmts@, i as int),
                sem_plain_stmts(fuel as nat, self@, stmts@, i as int) is Done,
            decreases stmts@.len() - i,
        {
            match self.exec_stmt(&stmts[i], 0, fuel) {
                Ok(()) => {},
                Err(e) => {
                    self.pop_scope();
                    return Err(e);
                },
            }
            i = i + 1;
        }
        let result = match fin {
            Some(e) => self.eval_expr(e, fuel)?,
            None => Value::Nil,
        };
        self.pop_scope();
        Ok(result)
    }

    fn run_fn_body(&mut self, body: &Vec<Spanned>, fuel: u64) -> (r: Result<(), HayashiError>)
        requires
            sem_body_stmts(fuel as nat, old(self)@, body@, 0) is Done,
        ensures
            sem_body_stmts(fuel as nat, old(self)@, body@, 0) == Flow::Done(final(self)@, unit_view(r)),
        decreases fuel, 1nat, 0nat,
    {
        let mut i: usize = 0;
        while i < body.len()
            invariant
                i <= body@.len(),
                sem_body_stmts(fuel as nat, old(self)@, body@, 0) == sem_body_stmts(fuel as nat, self@, body@, i as int),
                sem_body_stmts(fuel as nat, self@, body@, i as int) is Done,
            decreases body@.len() - i,
        {
            match self.exec_stmt(&body[i].stmt, body[i].line, fuel) {
                Ok(()) => {},
                Err(HayashiError::Return) => {
                    return Ok(());
                },
                Err(e) => {
                    return Err(e);
                },
            }
            i = i + 1;
        }
        Ok(())
    }

    fn run_try_body(&mut self, body: &Vec<Spanned>, fuel: u64) -> (r: TryEnded)
        requires
            sem_try_body(fuel as nat, old(self)@, body@, 0) is Done,
        ensures
            sem_try_body(fuel as nat, old(self)@, body@, 0) == Flow::Done(final(self)@, Ok::<TryEnd, ErrV>(r@)),
        decreases fuel, 1nat, 0nat,
    {
        let mut i: usize = 0;
        while i < body.len()
            invariant
                i <= body@.len(),
                sem_try_body(fuel as nat, old(self)@, body@, 0) == sem_try_body(fuel as nat, self@, body@, i as int),
                sem_try_body(fuel as nat, self@, body@, i as int) is Done,
            decreases body@.len() - i,
        {
            match self.exec_stmt(&body[i].stmt, body[i].line, fuel) {
                Ok(()) => {},
                Err(HayashiError::Return) => {
                    return TryEnded::ControlFlow;
                },
                Err(HayashiError::Break) => {
                    return TryEnded::ControlFlow;
                },
                Err(HayashiError::Continue) => {
                    return TryEnded::ControlFlow;
                },
                Err(e) => {
                    return TryEnded::Caught(e);
                },
            }
            i = i + 1;
        }
        TryEnded::Completed
    }

    fn call_user_fn(&mut self, uf: &UserFn, vals: Vec<Value>, fuel: u64) -> (r: Result<Value, HayashiError>)
        requires
            sem_call(fuel as nat, old(self)@, strings_view(uf.params@), uf.body, items_view(vals@)) is Done,
        ensures
            sem_call(fuel as nat, old(self)@, strings_view(uf.params@), uf.body, items_view(vals@))
                == Flow::Done(final(self)@, result_view(r)),
        decreases fuel, 2nat, 0nat,
    {
        self.push_scope();
        bind_params_in(&mut self.env, &uf.params, vals);
        let mut err: Option<HayashiError> = None;
        match &uf.body {
            FnBody::Stmts(b) => {
                match self.run_fn_body(b, fuel) {
                    Ok(()) => {},
                    Err(e) => {
                        err = Some(e);
                    },
                }
            },
            FnBody::Expr(e) => {
                self.current_line = 0;
                match self.eval_expr(e, fuel) {
                    Ok(v) => {
                        self.return_value = Some(v);
                    },
                    Err(x) => {
                        err = Some(x);
                    },
                }
            },
        }
        self.pop_scope();
        match err {
            Some(e) => Err(e),
            None => {
                let ret = self.return_value.take();
                match ret {
                    Some(v) => Ok(v),
                    None => Ok(Value::Nil),
                }
            },
        }
    }

    /// Calls a user function or closure: `apply(func, args...)`.
    pub fn eval_apply(&mut self, func: &Expr, args: &Vec<Expr>, fuel: u64) -> (r: Result<Value, HayashiError>)
        requires
            sem_apply(fuel as nat, old(self)@, *func, args@) is Done,
        ensures
            sem_apply(fuel as nat, old(self)@, *func, args@) == Flow::Done(final(self)@, result_view(r)),
        decreases fuel, 3nat, 0nat,
    {
        let fv = self.eval_expr(func, fuel)?;
        match fv {
            Value::UserFn(uf) => {
                let vals = self.eval_items(args, fuel)?;
                self.call_user_fn(&uf, vals, fuel)
            },
            _ => Err(HayashiError::Runtime(String::from_str("apply: expected function or closure"))),
        }
    }

    fn write(&mut self, text: String)
        ensures
            final(self)@ == written(old(self)@, text@),
    {
        let ghost old_out = self.output@;
        self.output.push(text);
        assert(lines_view(self.output@) =~= lines_view(old_out).push(text@));
    }

    /// Evaluates the named options of a statement.
    fn eval_named(&mut self, opts: &Vec<(String, Expr)>, fuel: u64) -> (r: Result<Vec<(String, Value)>, HayashiError>)
        requires
            sem_named(fuel as nat, old(self)@, opts@, 0, Seq::empty()) is Done,
        ensures
            sem_named(fuel as nat, old(self)@, opts@, 0, Seq::empty()) == Flow::Done(
                final(self)@,
                match r {
                    Ok(v) => Ok(entries_view(v@)),
                    Err(e) => Err(e@),
                },
            ),
        decreases fuel, 1nat, 0nat,
    {
        let mut acc: Vec<(String, Value)> = Vec::new();
        let mut i: usize = 0;
        assert(entries_view(acc@) =~= Seq::<(Seq<char>, Val)>::empty());
        while i < opts.len()
            invariant
                i <= opts@.len(),
                sem_named(fuel as nat, old(self)@, opts@, 0, Seq::empty()) == sem_named(
                    fuel as nat,
                    self@,
                    opts@,
                    i as int,
                    entries_view(acc@),
                ),
                sem_named(fuel as nat, self@, opts@, i as int, entries_view(acc@)) is Done,
            decreases opts@.len() - i,
        {
            let v = self.eval_expr(&opts[i].1, fuel)?;
            insert_entry(&mut acc, opts[i].0.clone(), v);
            i = i + 1;
        }
        Ok(acc)
    }

    /// Prints the items of a `print` statement, separated by `sep`.
    fn print_items(&mut self, items: &Vec<Expr>, sep: &String, fuel: u64) -> (r: Result<(), HayashiError>)
        requires
            sem_print_items(fuel as nat, old(self)@, items@, 0, sep@) is Done,
        ensures
            sem_print_items(fuel as nat, old(self)@, items@, 0, sep@) == Flow::Done(final(self)@, unit_view(r)),
        decreases fuel, 1nat, 0nat,
    {
        let mut i: usize = 0;
        while i < items.len()
            invariant
                i <= items@.len(),
                sem_print_items(fuel as nat, old(self)@, items@, 0, sep@) == sem_print_items(
                    fuel as nat,
                    self@,
                    items@,
                    i as int,
                    sep@,
                ),
                sem_print_items(fuel as nat, self@, items@, i as int, sep@) is Done,
            decreases items@.len() - i,
        {
            if i > 0 {
                self.write(sep.clone());
            }
            let v = self.eval_expr(&items[i], fuel)?;
            self.write(render_value(&v));
            i = i + 1;
        }
        Ok(())
    }

    /// Runs a statement with nesting budget `fuel`.
    pub fn exec(&mut self, spanned: &Spanned, fuel: u64) -> (r: Result<(), HayashiError>)
        requires
            sem_exec(fuel as nat, old(self)@, spanned.stmt, spanned.line) is Done,
        ensures
            sem_exec(fuel as nat, old(self)@, spanned.stmt, spanned.line) == Flow::Done(final(self)@, unit_view(r)),
    {
        self.exec_stmt(&spanned.stmt, spanned.line, fuel)
    }

    /// Runs a statement on line `line`.
    pub fn exec_stmt(&mut self, stmt: &Stmt, line: i64, fuel: u64) -> (r: Result<(), HayashiError>)
        requires
            sem_exec(fuel as nat, old(self)@, *stmt, line) is Done,
        ensures
            sem_exec(fuel as nat, old(self)@, *stmt, line) == Flow::Done(final(self)@, unit_view(r)),
        decreases fuel, 0nat, 0nat,
    {
        if fuel == 0 {
            return Err(HayashiError::Exhausted);
        }
        let f1 = fuel - 1;
        self.current_line = line;
        match stmt {
            Stmt::Let { name, value } => {
                let v = self.eval_expr(value, f1)?;
                self.env.declare(name, v)
            },
            Stmt::Const { name, value } => {
                let v = self.eval_expr(value, f1)?;
                self.env.declare_const(name, v);
                Ok(())
            },
            Stmt::Assign { name, value } => {
                let v = self.eval_expr(value, f1)?;
                self.env.set(name, v)
            },
            Stmt::If { cond, then_body, else_body } => self.exec_if(cond, then_body, else_body, f1),
            Stmt::TryCatch { try_body, error_var, catch_body, finally_body } => self.exec_try_catch(
                try_body,
                error_var,
                catch_body,
                finally_body,
                f1,
            ),
            Stmt::For { var, var2, iter, body } => self.exec_for(var, var2, iter, body, f1),
            Stmt::Fn { name, params, body } => self.env.set(
                name,
                Value::UserFn(Rc::new(UserFn { params: share(params), body: FnBody::Stmts(share(body)) })),
            ),
            Stmt::Return(e) => {
                let v = match e {
                    Some(x) => self.eval_expr(x, f1)?,
                    None => Value::Nil,
                };
                self.return_value = Some(v);
                Err(HayashiError::Return)
            },
            Stmt::Break => Err(HayashiError::Break),
            Stmt::Continue => Err(HayashiError::Continue),
            Stmt::While { cond, body } => self.exec_while(cond, body, f1),
            Stmt::Expr(Expr::Pipe { source, expr }) => {
                let v = self.eval_expr(expr, f1)?;
                match &**source {
                    Expr::Var(name) => self.env.set(name, v),
                    _ => Ok(()),
                }
            },
            Stmt::Display(e) => {
                let v = self.eval_expr(e, f1)?;
                self.write(display_string(&v));
                Ok(())
            },
            Stmt::Expr(e) => {
                let v = self.eval_expr(e, f1)?;
                let is_nil = match v {
                    Value::Nil => true,
                    _ => false,
                };
                if !is_nil && !self.env.quiet_mode {
                    let line_text = shown_value(&v).concat("\n");
                    self.write(line_text);
                }
                Ok(())
            },
            Stmt::Print { items, opts } => {
                let om = self.eval_named(opts, f1)?;
                let sep = text_opt(&om, "sep", " ");
                self.print_items(items, &sep, f1)?;
                let end = text_opt(&om, "end", "\n");
                self.write(end);
                Ok(())
            },
            Stmt::Block(stmts) => {
                self.push_scope();
                let r = self.run_stmts(stmts, f1);
                self.pop_scope();
                r
            },
            Stmt::QuietlyOn => {
                self.env.set_quiet_mode(true);
                Ok(())
            },
            Stmt::QuietlyOff => {
                self.env.set_quiet_mode(false);
                Ok(())
            },
        }
    }

    fn run_stmts(&mut self, stmts: &Vec<Spanned>, fuel: u64) -> (r: Result<(), HayashiError>)
        requires
            sem_stmts(fuel as nat, old(self)@, stmts@, 0) is Done,
        ensures
            sem_stmts(fuel as nat, old(self)@, stmts@, 0) == Flow::Done(final(self)@, unit_view(r)),
        decreases fuel, 1nat, 0nat,
    {
        let mut i: usize = 0;
        while i < stmts.len()
            invariant
                i <= stmts@.len(),
                sem_stmts(fuel as nat, old(self)@, stmts@, 0) == sem_stmts(fuel as nat, self@, stmts@, i as int),
                sem_stmts(fuel as nat, self@, stmts@, i as int) is Done,
            decreases stmts@.len() - i,
        {
            self.exec_stmt(&stmts[i].stmt, stmts[i].line, fuel)?;
            i = i + 1;
        }
        Ok(())
    }

    fn exec_if(&mut self, cond: &Expr, then_body: &Vec<Spanned>, else_body: &Option<Vec<Spanned>>, fuel: u64) -> (r:
        Result<(), HayashiError>)
        requires
            sem_if_stmt(
                fuel as nat,
                old(self)@,
                *cond,
                then_body@,
                opt_body_view(*else_body),
            ) is Done,
        ensures
            sem_if_stmt(
                fuel as nat,
                old(self)@,
                *cond,
                then_body@,
                opt_body_view(*else_body),
            ) == Flow::Done(final(self)@, unit_view(r)),
        decreases fuel, 4nat, 0nat,
    {
        let c = self.eval_expr(cond, fuel)?;
        if value_as_bool(&c) {
            self.push_scope();
            self.run_stmts(then_body, fuel)?;
            self.pop_scope();
            Ok(())
        } else {
            match else_body {
                Some(b) => {
                    self.push_scope();
                    self.run_stmts(b, fuel)?;
                    self.pop_scope();
                    Ok(())
                },
                None => Ok(()),
            }
        }
    }

    fn loop_body(&mut self, body: &Vec<Spanned>, fuel: u64) -> (r: Result<bool, HayashiError>)
        requires
            sem_loop_body(fuel as nat, old(self)@, body@, 0) is Done,
        ensures
            sem_loop_body(fuel as nat, old(self)@, body@, 0) == Flow::Done(final(self)@, bool_result_view(r)),
        decreases fuel, 1nat, 0nat,
    {
        let mut i: usize = 0;
        while i < body.len()
            invariant
                i <= body@.len(),
                sem_loop_body(fuel as nat, old(self)@, body@, 0) == sem_loop_body(fuel as nat, self@, body@, i as int),
                sem_loop_body(fuel as nat, self@, body@, i as int) is Done,
            decreases body@.len() - i,
        {
            match self.exec_stmt(&body[i].stmt, body[i].line, fuel) {
                Ok(()) => {},
                Err(HayashiError::Continue) => {
                    return Ok(false);
                },
                Err(HayashiError::Break) => {
                    return Ok(true);
                },
                Err(e) => {
                    return Err(e);
                },
            }
            i = i + 1;
        }
        Ok(false)
    }

    fn iteration(&mut self, body: &Vec<Spanned>, fuel: u64) -> (r: Result<bool, HayashiError>)
        requires
            sem_iteration(fuel as nat, old(self)@, body@) is Done,
        ensures
            sem_iteration(fuel as nat, old(self)@, body@) == Flow::Done(final(self)@, bool_result_view(r)),
        decreases fuel, 2nat, 0nat,
    {
        self.push_scope();
        let r = self.loop_body(body, fuel);
        self.pop_scope();
        r
    }

    fn exec_while(&mut self, cond: &Expr, body: &Vec<Spanned>, fuel: u64) -> (r: Result<(), HayashiError>)
        requires
            sem_while(fuel as nat, old(self)@, *cond, body@) is Done,
        ensures
            sem_while(fuel as nat, old(self)@, *cond, body@) == Flow::Done(final(self)@, unit_view(r)),
        decreases fuel, 3nat, 0nat,
    {
        let mut budget = fuel;
        loop
            invariant
                budget <= fuel,
                sem_while(fuel as nat, old(self)@, *cond, body@) == sem_while(budget as nat, self@, *cond, body@),
                sem_while(budget as nat, self@, *cond, body@) is Done,
            decreases budget,
        {
            if budget == 0 {
                return Err(HayashiError::Exhausted);
            }
            let c = self.eval_expr(cond, budget)?;
            if !value_as_bool(&c) {
                return Ok(());
            }
            let leave = self.iteration(body, budget)?;
            if leave {
                return Ok(());
            }
            budget = budget - 1;
        }
    }

    fn for_range(
        &mut self,
        var: &String,
        start: i64,
        end: i64,
        ascending: bool,
        inclusive: bool,
        body: &Vec<Spanned>,
        fuel: u64,
    ) -> (r: Result<(), HayashiError>)
        requires
            sem_for_range(fuel as nat, old(self)@, var@, start, end, ascending, inclusive, body@) is Done,
        ensures
            sem_for_range(fuel as nat, old(self)@, var@, start, end, ascending, inclusive, body@) == Flow::Done(
                final(self)@,
                unit_view(r),
            ),
        decreases fuel, 3nat, 0nat,
    {
        let mut budget = fuel;
        let mut cur = start;
        loop
            invariant
                budget <= fuel,
                sem_for_range(fuel as nat, old(self)@, var@, start, end, ascending, inclusive, body@)
                    == sem_for_range(budget as nat, self@, var@, cur, end, ascending, inclusive, body@),
                sem_for_range(budget as nat, self@, var@, cur, end, ascending, inclusive, body@) is Done,
            decreases budget,
        {
            let go = if ascending {
                if inclusive { cur <= end } else { cur < end }
            } else {
                if inclusive { cur >= end } else { cur > end }
            };
            if !go {
                return Ok(());
            }
            if budget == 0 {
                return Err(HayashiError::Exhausted);
            }
            self.env.set(var, Value::Int(cur))?;
            let leave = self.iteration(body, budget)?;
            if leave {
                return Ok(());
            }
            cur = if ascending { cur + 1 } else { cur - 1 };
            budget = budget - 1;
        }
    }

    fn for_list(
        &mut self,
        var: &String,
        var2: &Option<String>,
        items: &Vec<Value>,
        body: &Vec<Spanned>,
        fuel: u64,
    ) -> (r: Result<(), HayashiError>)
        requires
            sem_for_list(
                fuel as nat,
                old(self)@,
                var@,
                opt_str_view(*var2),
                items_view(items@),
                0,
                body@,
            ) is Done,
        ensures
            sem_for_list(
                fuel as nat,
                old(self)@,
                var@,
                opt_str_view(*var2),
                items_view(items@),
                0,
                body@,
            ) == Flow::Done(final(self)@, unit_view(r)),
        decreases fuel, 3nat, 0nat,
    {
        let ghost v2 = opt_str_view(*var2);
        proof {
            lemma_items_view(items@);
        }
        let ghost iv = items_view(items@);
        let mut budget = fuel;
        let mut i: usize = 0;
        loop
            invariant
                budget <= fuel,
                i <= items@.len(),
                iv == items_view(items@),
                iv.len() == items@.len(),
                forall|t: int| 0 <= t < items@.len() ==> #[trigger] iv[t] == items@[t]@,
                v2 == opt_str_view(*var2),
                sem_for_list(fuel as nat, old(self)@, var@, v2, iv, 0, body@) == sem_for_list(
                    budget as nat,
                    self@,
                    var@,
                    v2,
                    iv,
                    i as int,
                    body@,
                ),
                sem_for_list(budget as nat, self@, var@, v2, iv, i as int, body@) is Done,
            decreases budget,
        {
            if i >= items.len() {
                return Ok(());
            }
            if budget == 0 {
                return Err(HayashiError::Exhausted);
            }
            match var2 {
                Some(name2) => {
                    self.env.set(var, Value::Int(i as i64))?;
                    self.env.set(name2, items[i].copy())?;
                },
                None => {
                    self.env.set(var, items[i].copy())?;
                },
            }
            let leave = self.iteration(body, budget)?;
            if leave {
                return Ok(());
            }
            i = i + 1;
            budget = budget - 1;
        }
    }

    fn for_dict(
        &mut self,
        var: &String,
        var2: &String,
        entries: &Vec<(String, Value)>,
        body: &Vec<Spanned>,
        fuel: u64,
    ) -> (r: Result<(), HayashiError>)
        requires
            sem_for_dict(fuel as nat, old(self)@, var@, var2@, entries_view(entries@), 0, body@) is Done,
        ensures
            sem_for_dict(fuel as nat, old(self)@, var@, var2@, entries_view(entries@), 0, body@)
                == Flow::Done(final(self)@, unit_view(r)),
        decreases fuel, 3nat, 0nat,
    {
        proof {
            lemma_entries_view(entries@);
        }
        let ghost ev = entries_view(entries@);
        let mut budget = fuel;
        let mut i: usize = 0;
        loop
            invariant
                budget <= fuel,
                i <= entries@.len(),
                ev == entries_view(entries@),
                ev.len() == entries@.len(),
                forall|t: int| 0 <= t < entries@.len() ==> #[trigger] ev[t] == (entries@[t].0@, entries@[t].1@),
                sem_for_dict(fuel as nat, old(self)@, var@, var2@, ev, 0, body@) == sem_for_dict(
                    budget as nat,
                    self@,
                    var@,
                    var2@,
                    ev,
                    i as int,
                    body@,
                ),
                sem_for_dict(budget as nat, self@, var@, var2@, ev, i as int, body@) is Done,
            decreases budget,
        {
            if i >= entries.len() {
                return Ok(());
            }
            if budget == 0 {
                return Err(HayashiError::Exhausted);
            }
            self.env.set(var, Value::Str(entries[i].0.clone()))?;
            self.env.set(var2, entries[i].1.copy())?;
            let leave = self.iteration(body, budget)?;
            if leave {
                return Ok(());
            }
            i = i + 1;
            budget = budget - 1;
        }
    }

    /// `for var in iter { body }` and `for var, var2 in iter { body }`.
    pub fn exec_for(
        &mut self,
        var: &String,
        var2: &Option<String>,
        iter: &ForIter,
        body: &Vec<Spanned>,
        fuel: u64,
    ) -> (r: Result<(), HayashiError>)
        requires
            sem_for(
                fuel as nat,
                old(self)@,
                var@,
                opt_str_view(*var2),
                *iter,
                body@,
            ) is Done,
        ensures
            sem_for(
                fuel as nat,
                old(self)@,
                var@,
                opt_str_view(*var2),
                *iter,
                body@,
            ) == Flow::Done(final(self)@, unit_view(r)),
        decreases fuel, 4nat, 0nat,
    {
        match iter {
            ForIter::Range(a, b) => {
                let va = self.eval_expr(a, fuel)?;
                let start = for_range_bound(&va, true)?;
                let vb = self.eval_expr(b, fuel)?;
                let end = for_range_bound(&vb, false)?;
                self.for_range(var, start, end, start <= end, false, body, fuel)
            },
            ForIter::RangeInclusive(a, b) => {
                let va = self.eval_expr(a, fuel)?;
                let start = for_range_bound(&va, true)?;
                let vb = self.eval_expr(b, fuel)?;
                let end = for_range_bound(&vb, false)?;
                self.for_range(var, start, end, start <= end, true, body, fuel)
            },
            ForIter::Items(e) => {
                let v = self.eval_expr(e, fuel)?;
                match v {
                    Value::List(items) => self.for_list(var, var2, &items, body, fuel),
                    Value::Dict(entries) => match var2 {
                        Some(v2) => self.for_dict(var, v2, &entries, body, fuel),
                        None => Err(
                            HayashiError::Type(
                                String::from_str(
                                    "for: dict iteration requires two variables (for k, v in dict)",
                                ),
                            ),
                        ),
                    },
                    _ => Err(
                        HayashiError::Type(
                            String::from_str("for: iterator must be a list or dict, not ").concat(
                                render_value(&v).as_str(),
                            ),
                        ),
                    ),
                }
            },
        }
    }

    /// `try { .. } catch error_var { .. } finally { .. }`.
    pub fn exec_try_catch(
        &mut self,
        try_body: &Vec<Spanned>,
        error_var: &String,
        catch_body: &Vec<Spanned>,
        finally_body: &Vec<Spanned>,
        fuel: u64,
    ) -> (r: Result<(), HayashiError>)
        requires
            sem_try(fuel as nat, old(self)@, try_body@, error_var@, catch_body@, finally_body@) is Done,
        ensures
            sem_try(fuel as nat, old(self)@, try_body@, error_var@, catch_body@, finally_body@)
                == Flow::Done(final(self)@, unit_view(r)),
        decreases fuel, 4nat, 0nat,
    {
        self.push_scope();
        let ended = self.run_try_body(try_body, fuel);
        let mut control = false;
        let mut caught: Option<HayashiError> = None;
        match ended {
            TryEnded::Completed => {},
            TryEnded::ControlFlow => {
                control = true;
            },
            TryEnded::Caught(e) => {
                caught = Some(e);
            },
        }
        self.pop_scope();
        let mut try_result: Result<(), HayashiError> = if control {
            Err(HayashiError::Return)
        } else {
            Ok(())
        };
        match caught {
            Some(err) => {
                self.push_scope();
                let (kind, msg) = caught_fields(&err);
                let ev = Value::Error(Rc::new(ErrorValue { kind, msg, line: self.current_line }));
                let catch_result = match self.env.declare(error_var, ev) {
                    Ok(()) => self.run_stmts(catch_body, fuel),
                    Err(x) => Err(x),
                };
                self.pop_scope();
                match catch_result {
                    Err(x) => {
                        try_result = Err(x);
                    },
                    Ok(()) => {},
                }
            },
            None => {},
        }
        if finally_body.len() > 0 {
            self.push_scope();
            let fr = self.run_stmts(finally_body, fuel);
            self.pop_scope();
            match fr {
                Err(x) => {
                    try_result = Err(x);
                },
                Ok(()) => {},
            }
        }
        try_result
    }
}


/// The text of option `name` when it is a string, else `default`.
fn text_opt(om: &Vec<(String, Value)>, name: &str, default: &str) -> (t: String)
    ensures
        t@ == text_option(entries_view(om@), name@, default@),
{
    proof {
        lemma_entries_view(om@);
    }
    let key = String::from_str(name);
    match find_entry(om, &key) {
        Some(j) => match &om[j].1 {
            Value::Str(t) => t.clone(),
            _ => String::from_str(default),
        },
        None => String::from_str(default),
    }
}

} // verus!
