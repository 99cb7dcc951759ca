use crate::ast::{BinOp, Expr, FStringPart, ForIter, Spanned, Stmt};
use crate::binop::{spec_scalar_binop, ScalarV};
use crate::env::{EnvV, env_declare, env_declare_const, env_get, env_pop, env_push, env_set, with_scope};
use crate::render::render;
use crate::text::{contains_seq, decimal};
use crate::value::{strings_view, ErrV, FnBody, Val};
use vstd::prelude::*;

verus! {

/// The abstract state of the interpreter.
pub struct IState {
    pub env: EnvV,
    pub ret: Option<Val>,
    pub line: i64,
    /// The texts written so far, in order.
    pub output: Seq<Seq<char>>,
    pub panel: Seq<(Seq<char>, Seq<char>, Seq<char>)>,
}

/// The outcome of running a piece of program: the state it leaves and its
/// result, or `Fault` where the program panics (integer overflow, remainder
/// by zero).
pub enum Flow<T> {
    Done(IState, Result<T, ErrV>),
    Fault,
}

/// The state with another environment.
pub open spec fn with_env(s: IState, e: EnvV) -> IState {
    IState { env: e, ret: s.ret, line: s.line, output: s.output, panel: s.panel }
}

/// The state with another current line.
pub open spec fn with_line(s: IState, line: i64) -> IState {
    IState { env: s.env, ret: s.ret, line, output: s.output, panel: s.panel }
}

/// The state with another pending return value.
pub open spec fn with_ret(s: IState, ret: Option<Val>) -> IState {
    IState { env: s.env, ret, line: s.line, output: s.output, panel: s.panel }
}

/// Index of the last entry with key `k`, or -1.
pub open spec fn entry_find(d: Seq<(Seq<char>, Val)>, k: Seq<char>) -> int
    decreases d.len(),
{
    if d.len() == 0 {
        -1
    } else if d.last().0 == k {
        d.len() - 1
    } else {
        entry_find(d.drop_last(), k)
    }
}

/// The value stored under `k`.
pub open spec fn dict_lookup(d: Seq<(Seq<char>, Val)>, k: Seq<char>) -> Option<Val> {
    let j = entry_find(d, k);
    if j < 0 {
        None
    } else {
        Some(d[j].1)
    }
}

/// Stores `v` under `k`, replacing an entry with that key.
pub open spec fn dict_insert(d: Seq<(Seq<char>, Val)>, k: Seq<char>, v: Val) -> Seq<(Seq<char>, Val)> {
    let j = entry_find(d, k);
    if j < 0 {
        d.push((k, v))
    } else {
        d.update(j, (k, v))
    }
}

/// The key that a value gives a dictionary entry, or the error it raises.
pub open spec fn dict_key(v: Val) -> Result<Seq<char>, ErrV> {
    match v {
        Val::Str(t) => Ok(t),
        Val::Int(i) => Ok(decimal(i as int)),
        _ => Err(ErrV::Type("dict key must be string, got "@ + render(v))),
    }
}

/// Indexing `o[i]` on evaluated operands.
pub open spec fn index_result(o: Val, i: Val) -> Result<Val, ErrV> {
    match o {
        Val::Dict(d) => match i {
            Val::Str(k) => match dict_lookup(d, k) {
                Some(v) => Ok(v),
                None => Err(ErrV::Runtime("key '"@ + k + "' not found in dict"@)),
            },
            _ => Err(ErrV::Type("dict index must be a string"@)),
        },
        Val::Error { kind, msg, line } => match i {
            Val::Str(k) => if k == "kind"@ {
                Ok(Val::Str(kind))
            } else if k == "msg"@ || k == "message"@ {
                Ok(Val::Str(msg))
            } else if k == "line"@ {
                Ok(Val::Int(line))
            } else {
                Err(ErrV::Runtime("error field '"@ + k + "' not found (available: kind, msg, line)"@))
            },
            _ => Err(ErrV::Type("error index must be a string"@)),
        },
        Val::List(items) => match i {
            Val::Int(n) => {
                let len = items.len() as int;
                let pos = if n < 0 { len + n } else { n as int };
                if pos < 0 || pos >= len {
                    Err(ErrV::Runtime("index out of range (len="@ + decimal(len) + ")"@))
                } else {
                    Ok(items[pos])
                }
            },
            _ => Err(ErrV::Type("list index must be integer"@)),
        },
        _ => Err(ErrV::Type("indexing requires list or dict"@)),
    }
}

/// Whether some item of a list renders as `key`.
pub open spec fn list_has_rendered(items: Seq<Val>, key: Seq<char>) -> bool {
    exists|j: int| 0 <= j < items.len() && render(#[trigger] items[j]) == key
}

/// Membership `l in r` on evaluated operands.
pub open spec fn in_result(l: Val, r: Val) -> Result<Val, ErrV> {
    match r {
        Val::List(items) => Ok(Val::Bool(list_has_rendered(items, render(l)))),
        Val::Dict(d) => {
            let key = match l {
                Val::Str(t) => t,
                _ => render(l),
            };
            Ok(Val::Bool(entry_find(d, key) >= 0))
        },
        Val::Str(t) => {
            let sub = match l {
                Val::Str(u) => u,
                _ => render(l),
            };
            Ok(Val::Bool(contains_seq(t, sub)))
        },
        _ => Err(ErrV::Type("'in' requires list, dict, or string on right side"@)),
    }
}

/// The integers `start, start±1, ...` of a range, stepping towards `end`.
pub open spec fn range_seq(start: i64, end: i64, inclusive: bool) -> Seq<Val> {
    if start <= end {
        let n = (end - start) + if inclusive { 1int } else { 0int };
        Seq::new(n as nat, |k: int| Val::Int((start + k) as i64))
    } else {
        let n = (start - end) + if inclusive { 1int } else { 0int };
        Seq::new(n as nat, |k: int| Val::Int((start - k) as i64))
    }
}

/// Whether a range runs past the end of `i64` (the step after its last
/// element overflows).
pub open spec fn range_overflows(start: i64, end: i64, inclusive: bool) -> bool {
    inclusive && ((start <= end && end == i64::MAX) || (start > end && end == i64::MIN))
}

/// The error value bound by `catch`: its kind and message.
pub open spec fn error_fields(e: ErrV) -> (Seq<char>, Seq<char>) {
    match e {
        ErrV::Runtime(m) => ("RuntimeError"@, m),
        ErrV::Type(m) => ("TypeError"@, m),
        ErrV::Inexact(_) => ("FloatError"@, "result is a floating-point number"@),
        ErrV::FloatFormat(_) => ("FloatError"@, "result is a floating-point number"@),
        ErrV::Exhausted => ("LimitError"@, "evaluation budget exhausted"@),
        _ => ("ControlFlow"@, ""@),
    }
}

/// The text a bare expression statement shows for its value.
pub open spec fn shown(v: Val) -> Seq<char> {
    match v {
        Val::Str(t) => "\""@ + t + "\""@,
        _ => render(v),
    }
}

/// Binds the parameters of a function, in order, as constants.
pub open spec fn bind_params(e: EnvV, params: Seq<Seq<char>>, vals: Seq<Val>, i: int) -> EnvV
    decreases params.len() - i,
{
    if i >= params.len() || i >= vals.len() || i < 0 {
        e
    } else {
        bind_params(env_declare_const(e, params[i], vals[i]), params, vals, i + 1)
    }
}

/// The message for a non-integer where an integer is expected.
pub open spec fn int_expected(ctx: Seq<char>, v: Val) -> ErrV {
    ErrV::Type(ctx + ": expected integer, got "@ + render(v))
}

/// The message for a non-string where a string is expected.
pub open spec fn str_expected(ctx: Seq<char>, v: Val) -> ErrV {
    ErrV::Type(ctx + ": expected string, got "@ + render(v))
}

/// Evaluation of an expression with nesting budget `f`.
pub open spec fn sem_expr(f: nat, s: IState, e: Expr) -> Flow<Val>
    decreases f, 0nat, 0nat,
{
    if f == 0 {
        Flow::Done(s, Err(ErrV::Exhausted))
    } else {
        let f1 = (f - 1) as nat;
        match e {
            Expr::Int(v) => Flow::Done(s, Ok(Val::Int(v))),
            Expr::Bool(b) => Flow::Done(s, Ok(Val::Bool(b))),
            Expr::Str(t) => Flow::Done(s, Ok(Val::Str(t@))),
            Expr::Nil => Flow::Done(s, Ok(Val::Nil)),
            Expr::FString(parts) => sem_fstring_value(f1, s, parts@),
            Expr::Var(name) => match env_get(s.env, name@) {
                Some(v) => Flow::Done(s, Ok(v)),
                None => Flow::Done(s, Err(ErrV::Runtime("undefined variable '"@ + name@ + "'"@))),
            },
            Expr::Closure { params, body } => Flow::Done(
                s,
                Ok(Val::UserFn { params: strings_view(params@), body: FnBody::Expr(body) }),
            ),
            Expr::Apply { func, args } => sem_apply(f1, s, *func, args@),
            Expr::Match { expr, arms } => sem_match(f1, s, *expr, arms@),
            Expr::If { cond, then_expr, else_expr } => sem_if(f1, s, *cond, *then_expr, *else_expr),
            Expr::BinOp { op, lhs, rhs } => sem_binop(f1, s, op, *lhs, *rhs),
            Expr::Neg(inner) => match sem_expr(f1, s, *inner) {
                Flow::Done(s1, Ok(v)) => match v {
                    Val::Int(i) => if i == i64::MIN {
                        Flow::Fault
                    } else {
                        Flow::Done(s1, Ok(Val::Int((-i) as i64)))
                    },
                    _ => Flow::Done(s1, Err(ErrV::Type("unary negation requires number"@))),
                },
                Flow::Done(s1, Err(x)) => Flow::Done(s1, Err(x)),
                Flow::Fault => Flow::Fault,
            },
            Expr::Not(inner) => match sem_expr(f1, s, *inner) {
                Flow::Done(s1, Ok(v)) => Flow::Done(s1, Ok(Val::Bool(!truthy_of(v)))),
                Flow::Done(s1, Err(x)) => Flow::Done(s1, Err(x)),
                Flow::Fault => Flow::Fault,
            },
            Expr::List(items) => sem_list(f1, s, items@),
            Expr::Dict(pairs) => sem_dict(f1, s, pairs@),
            Expr::Index { obj, idx } => sem_index(f1, s, *obj, *idx),
            Expr::Range(a, b) => sem_range(f1, s, *a, *b, false),
            Expr::RangeInclusive(a, b) => sem_range(f1, s, *a, *b, true),
            Expr::Block(stmts, fin) => sem_block(f1, s, stmts@, fin),
            Expr::Pipe { source, expr } => sem_expr(f1, s, *expr),
            Expr::Quietly(inner) => match sem_expr(f1, with_env(s, EnvV { scopes: s.env.scopes, quiet: true }), *inner) {
                Flow::Done(s1, r) => Flow::Done(with_env(s1, EnvV { scopes: s1.env.scopes, quiet: s.env.quiet }), r),
                Flow::Fault => Flow::Fault,
            },
            Expr::TsOp { .. } => Flow::Done(s, Err(ErrV::Runtime("L./F./D. operators are only valid inside generate"@))),
            Expr::Formula(_) => Flow::Done(s, Err(ErrV::Runtime("formula must be used inside an estimator call"@))),
        }
    }
}

/// The text `display` shows for a value: strings in quotes, `nil` as
/// `(nil)`, the items of a list each after two spaces, and any other value
/// as it prints.
pub open spec fn display_text(v: Val) -> Seq<char> {
    match v {
        Val::Str(t) => "\""@ + t + "\"\n"@,
        Val::Nil => "(nil)\n"@,
        Val::List(items) => display_items(items) + "\n"@,
        _ => render(v) + "\n"@,
    }
}

/// The items of a list as `display` shows them.
pub open spec fn display_items(items: Seq<Val>) -> Seq<char>
    decreases items.len(),
{
    if items.len() == 0 {
        Seq::empty()
    } else {
        display_items(items.drop_last()) + "  "@ + render(items.last())
    }
}

/// Truthiness (see `value::truthy`).
pub open spec fn truthy_of(v: Val) -> bool {
    crate::value::truthy(v)
}

/// `if cond { a } else { b }` as an expression.
pub open spec fn sem_if(f: nat, s: IState, cond: Expr, then_e: Expr, else_e: Expr) -> Flow<Val>
    decreases f, 3nat, 0nat,
{
    match sem_expr(f, s, cond) {
        Flow::Done(s1, Ok(c)) => if truthy_of(c) {
            sem_expr(f, s1, then_e)
        } else {
            sem_expr(f, s1, else_e)
        },
        Flow::Done(s1, Err(x)) => Flow::Done(s1, Err(x)),
        Flow::Fault => Flow::Fault,
    }
}

/// A binary operator: `and`/`or` short-circuit, `in` tests membership, the
/// others apply the scalar operator to both operands.
pub open spec fn sem_binop(f: nat, s: IState, op: BinOp, lhs: Expr, rhs: Expr) -> Flow<Val>
    decreases f, 3nat, 0nat,
{
    match sem_expr(f, s, lhs) {
        Flow::Done(s1, Ok(l)) => {
            if op == BinOp::And && !truthy_of(l) {
                Flow::Done(s1, Ok(Val::Bool(false)))
            } else if op == BinOp::Or && truthy_of(l) {
                Flow::Done(s1, Ok(Val::Bool(true)))
            } else {
                match sem_expr(f, s1, rhs) {
                    Flow::Done(s2, Ok(r)) => if op == BinOp::And || op == BinOp::Or {
                        Flow::Done(s2, Ok(Val::Bool(truthy_of(r))))
                    } else if op == BinOp::In {
                        Flow::Done(s2, in_result(l, r))
                    } else {
                        match spec_scalar_binop(op, l, r) {
                            Some(Ok(ScalarV::Exact(v))) => Flow::Done(s2, Ok(v)),
                            Some(Ok(ScalarV::Float(fo))) => Flow::Done(s2, Err(ErrV::Inexact(fo))),
                            Some(Err(x)) => Flow::Done(s2, Err(x)),
                            None => Flow::Fault,
                        }
                    },
                    Flow::Done(s2, Err(x)) => Flow::Done(s2, Err(x)),
                    Flow::Fault => Flow::Fault,
                }
            }
        },
        Flow::Done(s1, Err(x)) => Flow::Done(s1, Err(x)),
        Flow::Fault => Flow::Fault,
    }
}

/// Evaluates `items[i..]` in order, appending their values to `acc`.
pub open spec fn sem_exprs(f: nat, s: IState, items: Seq<Expr>, i: int, acc: Seq<Val>) -> Flow<Seq<Val>>
    decreases f, 1nat, items.len() - i,
{
    if i < 0 || i >= items.len() {
        Flow::Done(s, Ok(acc))
    } else {
        match sem_expr(f, s, items[i]) {
            Flow::Done(s1, Ok(v)) => sem_exprs(f, s1, items, i + 1, acc.push(v)),
            Flow::Done(s1, Err(x)) => Flow::Done(s1, Err(x)),
            Flow::Fault => Flow::Fault,
        }
    }
}

/// A list literal.
pub open spec fn sem_list(f: nat, s: IState, items: Seq<Expr>) -> Flow<Val>
    decreases f, 3nat, 0nat,
{
    match sem_exprs(f, s, items, 0, Seq::empty()) {
        Flow::Done(s1, Ok(vs)) => Flow::Done(s1, Ok(Val::List(vs))),
        Flow::Done(s1, Err(x)) => Flow::Done(s1, Err(x)),
        Flow::Fault => Flow::Fault,
    }
}

/// Evaluates the entries `pairs[i..]` of a dictionary literal into `acc`.
pub open spec fn sem_entries(
    f: nat,
    s: IState,
    pairs: Seq<(Expr, Expr)>,
    i: int,
    acc: Seq<(Seq<char>, Val)>,
) -> Flow<Seq<(Seq<char>, Val)>>
    decreases f, 1nat, pairs.len() - i,
{
    if i < 0 || i >= pairs.len() {
        Flow::Done(s, Ok(acc))
    } else {
        match sem_expr(f, s, pairs[i].0) {
            Flow::Done(s1, Ok(kv)) => match dict_key(kv) {
                Ok(k) => match sem_expr(f, s1, pairs[i].1) {
                    Flow::Done(s2, Ok(v)) => sem_entries(f, s2, pairs, i + 1, dict_insert(acc, k, v)),
                    Flow::Done(s2, Err(x)) => Flow::Done(s2, Err(x)),
                    Flow::Fault => Flow::Fault,
                },
                Err(x) => Flow::Done(s1, Err(x)),
            },
            Flow::Done(s1, Err(x)) => Flow::Done(s1, Err(x)),
            Flow::Fault => Flow::Fault,
        }
    }
}

/// A dictionary literal; a later entry replaces an earlier one with the same key.
pub open spec fn sem_dict(f: nat, s: IState, pairs: Seq<(Expr, Expr)>) -> Flow<Val>
    decreases f, 3nat, 0nat,
{
    match sem_entries(f, s, pairs, 0, Seq::empty()) {
        Flow::Done(s1, Ok(d)) => Flow::Done(s1, Ok(Val::Dict(d))),
        Flow::Done(s1, Err(x)) => Flow::Done(s1, Err(x)),
        Flow::Fault => Flow::Fault,
    }
}

/// Indexing `obj[idx]`.
pub open spec fn sem_index(f: nat, s: IState, obj: Expr, idx: Expr) -> Flow<Val>
    decreases f, 3nat, 0nat,
{
    match sem_expr(f, s, obj) {
        Flow::Done(s1, Ok(o)) => match sem_expr(f, s1, idx) {
            Flow::Done(s2, Ok(i)) => Flow::Done(s2, index_result(o, i)),
            Flow::Done(s2, Err(x)) => Flow::Done(s2, Err(x)),
            Flow::Fault => Flow::Fault,
        },
        Flow::Done(s1, Err(x)) => Flow::Done(s1, Err(x)),
        Flow::Fault => Flow::Fault,
    }
}

/// An expression that must yield an integer (`ctx` names it in the error).
pub open spec fn sem_int_scalar(f: nat, s: IState, e: Expr, ctx: Seq<char>) -> Flow<i64>
    decreases f, 3nat, 0nat,
{
    match sem_expr(f, s, e) {
        Flow::Done(s1, Ok(v)) => match v {
            Val::Int(i) => Flow::Done(s1, Ok(i)),
            _ => Flow::Done(s1, Err(int_expected(ctx, v))),
        },
        Flow::Done(s1, Err(x)) => Flow::Done(s1, Err(x)),
        Flow::Fault => Flow::Fault,
    }
}

/// An expression that must yield a string (`ctx` names it in the error).
pub open spec fn sem_str_scalar(f: nat, s: IState, e: Expr, ctx: Seq<char>) -> Flow<Seq<char>>
    decreases f, 3nat, 0nat,
{
    match sem_expr(f, s, e) {
        Flow::Done(s1, Ok(v)) => match v {
            Val::Str(t) => Flow::Done(s1, Ok(t)),
            _ => Flow::Done(s1, Err(str_expected(ctx, v))),
        },
        Flow::Done(s1, Err(x)) => Flow::Done(s1, Err(x)),
        Flow::Fault => Flow::Fault,
    }
}

/// `start..end` or `start..=end` as a list of integers.
pub open spec fn sem_range(f: nat, s: IState, a: Expr, b: Expr, inclusive: bool) -> Flow<Val>
    decreases f, 3nat, 0nat,
{
    match sem_expr(f, s, a) {
        Flow::Done(s1, Ok(va)) => match va {
            Val::Int(start) => match sem_expr(f, s1, b) {
                Flow::Done(s2, Ok(vb)) => match vb {
                    Val::Int(end) => if range_overflows(start, end, inclusive) {
                        Flow::Fault
                    } else {
                        Flow::Done(s2, Ok(Val::List(range_seq(start, end, inclusive))))
                    },
                    _ => Flow::Done(s2, Err(int_expected("range end"@, vb))),
                },
                Flow::Done(s2, Err(x)) => Flow::Done(s2, Err(x)),
                Flow::Fault => Flow::Fault,
            },
            _ => Flow::Done(s1, Err(int_expected("range start"@, va))),
        },
        Flow::Done(s1, Err(x)) => Flow::Done(s1, Err(x)),
        Flow::Fault => Flow::Fault,
    }
}

/// Tries the arms `arms[i..]` of a `match` against the rendered scrutinee.
pub open spec fn sem_arms(f: nat, s: IState, key: Seq<char>, arms: Seq<(Expr, Expr)>, i: int) -> Flow<Val>
    decreases f, 1nat, arms.len() - i,
{
    if i < 0 || i >= arms.len() {
        Flow::Done(s, Err(ErrV::Runtime("match: no arm matched"@)))
    } else if arms[i].0 matches Expr::Var(n) && n@ == "_"@ {
        sem_expr(f, s, arms[i].1)
    } else {
        match sem_expr(f, s, arms[i].0) {
            Flow::Done(s1, Ok(p)) => if render(p) == key {
                sem_expr(f, s1, arms[i].1)
            } else {
                sem_arms(f, s1, key, arms, i + 1)
            },
            Flow::Done(s1, Err(x)) => Flow::Done(s1, Err(x)),
            Flow::Fault => Flow::Fault,
        }
    }
}

/// `match expr { pattern => result, ... }`: the first arm whose pattern
/// renders as the scrutinee does, or the wildcard `_`.
pub open spec fn sem_match(f: nat, s: IState, e: Expr, arms: Seq<(Expr, Expr)>) -> Flow<Val>
    decreases f, 3nat, 0nat,
{
    match sem_expr(f, s, e) {
        Flow::Done(s1, Ok(v)) => sem_arms(f, s1, render(v), arms, 0),
        Flow::Done(s1, Err(x)) => Flow::Done(s1, Err(x)),
        Flow::Fault => Flow::Fault,
    }
}

/// Whether a format spec asks for fixed or scientific floating-point notation.
pub open spec fn is_float_format(spec: Seq<char>) -> bool {
    spec.len() >= 1 && spec[0] == '.' && (spec.last() == 'f' || spec.last() == 'e')
}

/// Interpolated string pieces `parts[i..]`, appended to `acc`.
pub open spec fn sem_fstring(f: nat, s: IState, parts: Seq<FStringPart>, i: int, acc: Seq<char>) -> Flow<Seq<char>>
    decreases f, 1nat, parts.len() - i,
{
    if i < 0 || i >= parts.len() {
        Flow::Done(s, Ok(acc))
    } else {
        match parts[i] {
            FStringPart::Lit(t) => sem_fstring(f, s, parts, i + 1, acc + t@),
            FStringPart::Interp { expr, fmt } => match sem_expr(f, s, *expr) {
                Flow::Done(s1, Ok(v)) => match fmt {
                    Some(spec) => match v {
                        Val::Int(n) => if is_float_format(spec@) {
                            Flow::Done(s1, Err(ErrV::FloatFormat(n)))
                        } else {
                            sem_fstring(f, s1, parts, i + 1, acc + render(v))
                        },
                        _ => sem_fstring(f, s1, parts, i + 1, acc + render(v)),
                    },
                    None => sem_fstring(f, s1, parts, i + 1, acc + render(v)),
                },
                Flow::Done(s1, Err(x)) => Flow::Done(s1, Err(x)),
                Flow::Fault => Flow::Fault,
            },
        }
    }
}

/// An interpolated string `f"..."`.
pub open spec fn sem_fstring_value(f: nat, s: IState, parts: Seq<FStringPart>) -> Flow<Val>
    decreases f, 3nat, 0nat,
{
    match sem_fstring(f, s, parts, 0, Seq::empty()) {
        Flow::Done(s1, Ok(t)) => Flow::Done(s1, Ok(Val::Str(t))),
        Flow::Done(s1, Err(x)) => Flow::Done(s1, Err(x)),
        Flow::Fault => Flow::Fault,
    }
}

/// Runs the statements `stmts[i..]` of a block expression (each on line 0),
/// stopping at the first error.
pub open spec fn sem_plain_stmts(f: nat, s: IState, stmts: Seq<Stmt>, i: int) -> Flow<()>
    decreases f, 1nat, stmts.len() - i,
{
    if i < 0 || i >= stmts.len() {
        Flow::Done(s, Ok(()))
    } else {
        match sem_exec(f, s, stmts[i], 0) {
            Flow::Done(s1, Ok(())) => sem_plain_stmts(f, s1, stmts, i + 1),
            Flow::Done(s1, Err(x)) => Flow::Done(s1, Err(x)),
            Flow::Fault => Flow::Fault,
        }
    }
}

/// A block expression `{ stmts; final }` in a scope of its own.
pub open spec fn sem_block(f: nat, s: IState, stmts: Seq<Stmt>, fin: Option<Box<Expr>>) -> Flow<Val>
    decreases f, 3nat, 0nat,
{
    let s0 = with_env(s, env_push(s.env));
    match sem_plain_stmts(f, s0, stmts, 0) {
        Flow::Done(s1, Ok(())) => match fin {
            Some(e) => match sem_expr(f, s1, *e) {
                Flow::Done(s2, Ok(v)) => Flow::Done(with_env(s2, env_pop(s2.env)), Ok(v)),
                Flow::Done(s2, Err(x)) => Flow::Done(s2, Err(x)),
                Flow::Fault => Flow::Fault,
            },
            None => Flow::Done(with_env(s1, env_pop(s1.env)), Ok(Val::Nil)),
        },
        Flow::Done(s1, Err(x)) => Flow::Done(with_env(s1, env_pop(s1.env)), Err(x)),
        Flow::Fault => Flow::Fault,
    }
}

/// Runs a function body `body[i..]`: a `return` ends it normally, another
/// error ends it with that error.
pub open spec fn sem_body_stmts(f: nat, s: IState, body: Seq<Spanned>, i: int) -> Flow<()>
    decreases f, 1nat, body.len() - i,
{
    if i < 0 || i >= body.len() {
        Flow::Done(s, Ok(()))
    } else {
        match sem_exec(f, s, body[i].stmt, body[i].line) {
            Flow::Done(s1, Ok(())) => sem_body_stmts(f, s1, body, i + 1),
            Flow::Done(s1, Err(ErrV::Return)) => Flow::Done(s1, Ok(())),
            Flow::Done(s1, Err(x)) => Flow::Done(s1, Err(x)),
            Flow::Fault => Flow::Fault,
        }
    }
}

/// Calls a user function on evaluated arguments: parameters are bound as
/// constants in a new scope, and the value is the pending return value (or nil).
pub open spec fn sem_call(f: nat, s: IState, params: Seq<Seq<char>>, body: FnBody, vals: Seq<Val>) -> Flow<Val>
    decreases f, 2nat, 0nat,
{
    let s0 = with_env(s, bind_params(env_push(s.env), params, vals, 0));
    let run: Flow<()> = match body {
        FnBody::Stmts(b) => sem_body_stmts(f, s0, b@, 0),
        FnBody::Expr(e) => match sem_expr(f, with_line(s0, 0), *e) {
            Flow::Done(s1, Ok(v)) => Flow::Done(with_ret(s1, Some(v)), Ok(())),
            Flow::Done(s1, Err(x)) => Flow::Done(s1, Err(x)),
            Flow::Fault => Flow::Fault,
        },
    };
    match run {
        Flow::Done(s1, Ok(())) => {
            let s2 = with_env(s1, env_pop(s1.env));
            let v = match s2.ret {
                Some(r) => r,
                None => Val::Nil,
            };
            Flow::Done(with_ret(s2, None), Ok(v))
        },
        Flow::Done(s1, Err(x)) => Flow::Done(with_env(s1, env_pop(s1.env)), Err(x)),
        Flow::Fault => Flow::Fault,
    }
}

/// `apply(func, args...)`.
pub open spec fn sem_apply(f: nat, s: IState, func: Expr, args: Seq<Expr>) -> Flow<Val>
    decreases f, 3nat, 0nat,
{
    match sem_expr(f, s, func) {
        Flow::Done(s1, Ok(fv)) => match fv {
            Val::UserFn { params, body } => match sem_exprs(f, s1, args, 0, Seq::empty()) {
                Flow::Done(s2, Ok(vals)) => sem_call(f, s2, params, body, vals),
                Flow::Done(s2, Err(x)) => Flow::Done(s2, Err(x)),
                Flow::Fault => Flow::Fault,
            },
            _ => Flow::Done(s1, Err(ErrV::Runtime("apply: expected function or closure"@))),
        },
        Flow::Done(s1, Err(x)) => Flow::Done(s1, Err(x)),
        Flow::Fault => Flow::Fault,
    }
}

/// Runs `stmts[i..]`, stopping at the first error.
pub open spec fn sem_stmts(f: nat, s: IState, stmts: Seq<Spanned>, i: int) -> Flow<()>
    decreases f, 1nat, stmts.len() - i,
{
    if i < 0 || i >= stmts.len() {
        Flow::Done(s, Ok(()))
    } else {
        match sem_exec(f, s, stmts[i].stmt, stmts[i].line) {
            Flow::Done(s1, Ok(())) => sem_stmts(f, s1, stmts, i + 1),
            Flow::Done(s1, Err(x)) => Flow::Done(s1, Err(x)),
            Flow::Fault => Flow::Fault,
        }
    }
}

/// Runs a loop body `body[i..]`: `continue` ends the body, `break` ends it
/// and asks to leave the loop (the result is whether to leave).
pub open spec fn sem_loop_body(f: nat, s: IState, body: Seq<Spanned>, i: int) -> Flow<bool>
    decreases f, 1nat, body.len() - i,
{
    if i < 0 || i >= body.len() {
        Flow::Done(s, Ok(false))
    } else {
        match sem_exec(f, s, body[i].stmt, body[i].line) {
            Flow::Done(s1, Ok(())) => sem_loop_body(f, s1, body, i + 1),
            Flow::Done(s1, Err(ErrV::Continue)) => Flow::Done(s1, Ok(false)),
            Flow::Done(s1, Err(ErrV::Break)) => Flow::Done(s1, Ok(true)),
            Flow::Done(s1, Err(x)) => Flow::Done(s1, Err(x)),
            Flow::Fault => Flow::Fault,
        }
    }
}

/// One iteration of a loop: the body in a scope of its own.
pub open spec fn sem_iteration(f: nat, s: IState, body: Seq<Spanned>) -> Flow<bool>
    decreases f, 2nat, 0nat,
{
    match sem_loop_body(f, with_env(s, env_push(s.env)), body, 0) {
        Flow::Done(s1, r) => Flow::Done(with_env(s1, env_pop(s1.env)), r),
        Flow::Fault => Flow::Fault,
    }
}

/// `while cond { body }`; each iteration takes one unit of the budget.
pub open spec fn sem_while(f: nat, s: IState, cond: Expr, body: Seq<Spanned>) -> Flow<()>
    decreases f, 3nat, 0nat,
{
    if f == 0 {
        Flow::Done(s, Err(ErrV::Exhausted))
    } else {
        match sem_expr(f, s, cond) {
            Flow::Done(s1, Ok(c)) => if !truthy_of(c) {
                Flow::Done(s1, Ok(()))
            } else {
                match sem_iteration(f, s1, body) {
                    Flow::Done(s2, Ok(true)) => Flow::Done(s2, Ok(())),
                    Flow::Done(s2, Ok(false)) => sem_while((f - 1) as nat, s2, cond, body),
                    Flow::Done(s2, Err(x)) => Flow::Done(s2, Err(x)),
                    Flow::Fault => Flow::Fault,
                }
            },
            Flow::Done(s1, Err(x)) => Flow::Done(s1, Err(x)),
            Flow::Fault => Flow::Fault,
        }
    }
}

/// Assigns a loop variable.
pub open spec fn assign(s: IState, name: Seq<char>, v: Val) -> Flow<()> {
    match env_set(s.env, name, v) {
        Ok(e) => Flow::Done(with_env(s, e), Ok(())),
        Err(x) => Flow::Done(s, Err(x)),
    }
}

/// The integer loop `for var in cur..end` (or `..=`), from `cur` on.
pub open spec fn sem_for_range(
    f: nat,
    s: IState,
    var: Seq<char>,
    cur: i64,
    end: i64,
    ascending: bool,
    inclusive: bool,
    body: Seq<Spanned>,
) -> Flow<()>
    decreases f, 3nat, 0nat,
{
    let go = if ascending {
        if inclusive { cur <= end } else { cur < end }
    } else {
        if inclusive { cur >= end } else { cur > end }
    };
    if !go {
        Flow::Done(s, Ok(()))
    } else if f == 0 {
        Flow::Done(s, Err(ErrV::Exhausted))
    } else {
        match assign(s, var, Val::Int(cur)) {
            Flow::Done(s1, Ok(())) => match sem_iteration(f, s1, body) {
                Flow::Done(s2, Ok(true)) => Flow::Done(s2, Ok(())),
                Flow::Done(s2, Ok(false)) => {
                    let next = if ascending { cur + 1 } else { cur - 1 };
                    if !crate::binop::in_i64(next) {
                        Flow::Fault
                    } else {
                        sem_for_range((f - 1) as nat, s2, var, next as i64, end, ascending, inclusive, body)
                    }
                },
                Flow::Done(s2, Err(x)) => Flow::Done(s2, Err(x)),
                Flow::Fault => Flow::Fault,
            },
            Flow::Done(s1, Err(x)) => Flow::Done(s1, Err(x)),
            Flow::Fault => Flow::Fault,
        }
    }
}

/// `for var in list` or `for i, var2 in list`, from item `i` on.
pub open spec fn sem_for_list(
    f: nat,
    s: IState,
    var: Seq<char>,
    var2: Option<Seq<char>>,
    items: Seq<Val>,
    i: int,
    body: Seq<Spanned>,
) -> Flow<()>
    decreases f, 3nat, 0nat,
{
    if i < 0 || i >= items.len() {
        Flow::Done(s, Ok(()))
    } else if f == 0 {
        Flow::Done(s, Err(ErrV::Exhausted))
    } else {
        let bound = match var2 {
            Some(v2) => match assign(s, var, Val::Int(i as i64)) {
                Flow::Done(s1, Ok(())) => assign(s1, v2, items[i]),
                other => other,
            },
            None => assign(s, var, items[i]),
        };
        match bound {
            Flow::Done(s1, Ok(())) => match sem_iteration(f, s1, body) {
                Flow::Done(s2, Ok(true)) => Flow::Done(s2, Ok(())),
                Flow::Done(s2, Ok(false)) => sem_for_list((f - 1) as nat, s2, var, var2, items, i + 1, body),
                Flow::Done(s2, Err(x)) => Flow::Done(s2, Err(x)),
                Flow::Fault => Flow::Fault,
            },
            Flow::Done(s1, Err(x)) => Flow::Done(s1, Err(x)),
            Flow::Fault => Flow::Fault,
        }
    }
}

/// `for k, v in dict`, from entry `i` on.
pub open spec fn sem_for_dict(
    f: nat,
    s: IState,
    var: Seq<char>,
    var2: Seq<char>,
    entries: Seq<(Seq<char>, Val)>,
    i: int,
    body: Seq<Spanned>,
) -> Flow<()>
    decreases f, 3nat, 0nat,
{
    if i < 0 || i >= entries.len() {
        Flow::Done(s, Ok(()))
    } else if f == 0 {
        Flow::Done(s, Err(ErrV::Exhausted))
    } else {
        match assign(s, var, Val::Str(entries[i].0)) {
            Flow::Done(s1, Ok(())) => match assign(s1, var2, entries[i].1) {
                Flow::Done(s2, Ok(())) => match sem_iteration(f, s2, body) {
                    Flow::Done(s3, Ok(true)) => Flow::Done(s3, Ok(())),
                    Flow::Done(s3, Ok(false)) => sem_for_dict((f - 1) as nat, s3, var, var2, entries, i + 1, body),
                    Flow::Done(s3, Err(x)) => Flow::Done(s3, Err(x)),
                    Flow::Fault => Flow::Fault,
                },
                Flow::Done(s2, Err(x)) => Flow::Done(s2, Err(x)),
                Flow::Fault => Flow::Fault,
            },
            Flow::Done(s1, Err(x)) => Flow::Done(s1, Err(x)),
            Flow::Fault => Flow::Fault,
        }
    }
}

/// A bound of an integer `for` range.
pub open spec fn range_bound(v: Val, which: Seq<char>) -> Result<i64, ErrV> {
    match v {
        Val::Int(i) => Ok(i),
        _ => Err(ErrV::Type("for: range "@ + which + " must be integer, not "@ + render(v))),
    }
}

/// `for var in iter { body }` and `for var, var2 in iter { body }`.
pub open spec fn sem_for(
    f: nat,
    s: IState,
    var: Seq<char>,
    var2: Option<Seq<char>>,
    iter: ForIter,
    body: Seq<Spanned>,
) -> Flow<()>
    decreases f, 4nat, 0nat,
{
    match iter {
        ForIter::Range(a, b) | ForIter::RangeInclusive(a, b) => {
            let inclusive = iter is RangeInclusive;
            match sem_expr(f, s, a) {
                Flow::Done(s1, Ok(va)) => match range_bound(va, "start"@) {
                    Ok(start) => match sem_expr(f, s1, b) {
                        Flow::Done(s2, Ok(vb)) => match range_bound(vb, "end"@) {
                            Ok(end) => sem_for_range(f, s2, var, start, end, start <= end, inclusive, body),
                            Err(x) => Flow::Done(s2, Err(x)),
                        },
                        Flow::Done(s2, Err(x)) => Flow::Done(s2, Err(x)),
                        Flow::Fault => Flow::Fault,
                    },
                    Err(x) => Flow::Done(s1, Err(x)),
                },
                Flow::Done(s1, Err(x)) => Flow::Done(s1, Err(x)),
                Flow::Fault => Flow::Fault,
            }
        },
        ForIter::Items(e) => match sem_expr(f, s, e) {
            Flow::Done(s1, Ok(v)) => match v {
                Val::List(items) => sem_for_list(f, s1, var, var2, items, 0, body),
                Val::Dict(entries) => match var2 {
                    Some(v2) => sem_for_dict(f, s1, var, v2, entries, 0, body),
                    None => Flow::Done(
                        s1,
                        Err(ErrV::Type("for: dict iteration requires two variables (for k, v in dict)"@)),
                    ),
                },
                _ => Flow::Done(s1, Err(ErrV::Type("for: iterator must be a list or dict, not "@ + render(v)))),
            },
            Flow::Done(s1, Err(x)) => Flow::Done(s1, Err(x)),
            Flow::Fault => Flow::Fault,
        },
    }
}

/// How the `try` part of a `try`/`catch` ended.
pub enum TryEnd {
    Completed,
    ControlFlow,
    Caught(ErrV),
}

/// Runs the `try` statements `body[i..]`.
pub open spec fn sem_try_body(f: nat, s: IState, body: Seq<Spanned>, i: int) -> Flow<TryEnd>
    decreases f, 1nat, body.len() - i,
{
    if i < 0 || i >= body.len() {
        Flow::Done(s, Ok(TryEnd::Completed))
    } else {
        match sem_exec(f, s, body[i].stmt, body[i].line) {
            Flow::Done(s1, Ok(())) => sem_try_body(f, s1, body, i + 1),
            Flow::Done(s1, Err(x)) => match x {
                ErrV::Return | ErrV::Break | ErrV::Continue => Flow::Done(s1, Ok(TryEnd::ControlFlow)),
                _ => Flow::Done(s1, Ok(TryEnd::Caught(x))),
            },
            Flow::Fault => Flow::Fault,
        }
    }
}

/// The result that stands after a later part of `try`/`catch`/`finally` ran.
pub open spec fn override_result(prev: Result<(), ErrV>, later: Result<(), ErrV>) -> Result<(), ErrV> {
    if later is Err {
        later
    } else {
        prev
    }
}

/// `try { .. } catch e { .. } finally { .. }`: an error in the `try` part is
/// bound to `e` in the `catch` part; `return`, `break` and `continue` leave
/// the `try` part as a `return`; an error of `catch` or `finally` replaces
/// the result.
pub open spec fn sem_try(
    f: nat,
    s: IState,
    try_body: Seq<Spanned>,
    error_var: Seq<char>,
    catch_body: Seq<Spanned>,
    finally_body: Seq<Spanned>,
) -> Flow<()>
    decreases f, 4nat, 0nat,
{
    match sem_try_body(f, with_env(s, env_push(s.env)), try_body, 0) {
        Flow::Done(s1, Ok(end)) => {
            let s2 = with_env(s1, env_pop(s1.env));
            let r0: Result<(), ErrV> = if end is ControlFlow {
                Err(ErrV::Return)
            } else {
                Ok(())
            };
            let after_catch: Flow<()> = match end {
                TryEnd::Caught(x) => {
                    let s3 = with_env(s2, env_push(s2.env));
                    let (kind, msg) = error_fields(x);
                    let ev = Val::Error { kind, msg, line: s3.line };
                    match env_declare(s3.env, error_var, ev) {
                        Ok(e) => match sem_stmts(f, with_env(s3, e), catch_body, 0) {
                            Flow::Done(s4, r) => Flow::Done(
                                with_env(s4, env_pop(s4.env)),
                                override_result(r0, r),
                            ),
                            Flow::Fault => Flow::Fault,
                        },
                        Err(x2) => {
                            let s4 = with_env(s3, with_scope(s3.env));
                            Flow::Done(with_env(s4, env_pop(s4.env)), override_result(r0, Err(x2)))
                        },
                    }
                },
                _ => Flow::Done(s2, r0),
            };
            match after_catch {
                Flow::Done(s5, r1) => if finally_body.len() > 0 {
                    match sem_stmts(f, with_env(s5, env_push(s5.env)), finally_body, 0) {
                        Flow::Done(s6, r2) => Flow::Done(with_env(s6, env_pop(s6.env)), override_result(r1, r2)),
                        Flow::Fault => Flow::Fault,
                    }
                } else {
                    Flow::Done(s5, r1)
                },
                Flow::Fault => Flow::Fault,
            }
        },
        Flow::Done(s1, Err(x)) => Flow::Done(s1, Err(x)),
        Flow::Fault => Flow::Fault,
    }
}

/// `if cond { .. } else { .. }` as a statement; an error inside a branch
/// leaves its scope open.
pub open spec fn sem_if_stmt(
    f: nat,
    s: IState,
    cond: Expr,
    then_body: Seq<Spanned>,
    else_body: Option<Seq<Spanned>>,
) -> Flow<()>
    decreases f, 4nat, 0nat,
{
    match sem_expr(f, s, cond) {
        Flow::Done(s1, Ok(c)) => {
            let branch = if truthy_of(c) {
                Some(then_body)
            } else {
                else_body
            };
            match branch {
                Some(b) => match sem_stmts(f, with_env(s1, env_push(s1.env)), b, 0) {
                    Flow::Done(s2, Ok(())) => Flow::Done(with_env(s2, env_pop(s2.env)), Ok(())),
                    Flow::Done(s2, Err(x)) => Flow::Done(s2, Err(x)),
                    Flow::Fault => Flow::Fault,
                },
                None => Flow::Done(s1, Ok(())),
            }
        },
        Flow::Done(s1, Err(x)) => Flow::Done(s1, Err(x)),
        Flow::Fault => Flow::Fault,
    }
}

/// The state with `text` written to the output.
pub open spec fn written(s: IState, text: Seq<char>) -> IState {
    IState { env: s.env, ret: s.ret, line: s.line, output: s.output.push(text), panel: s.panel }
}

/// Evaluates the named options `opts[i..]` of a statement in order into
/// `acc`; a later option of the same name replaces an earlier one.
pub open spec fn sem_named(f: nat, s: IState, opts: Seq<(String, Expr)>, i: int, acc: Seq<(Seq<char>, Val)>) -> Flow<
    Seq<(Seq<char>, Val)>,
>
    decreases f, 1nat, opts.len() - i,
{
    if i < 0 || i >= opts.len() {
        Flow::Done(s, Ok(acc))
    } else {
        match sem_expr(f, s, opts[i].1) {
            Flow::Done(s1, Ok(v)) => sem_named(f, s1, opts, i + 1, dict_insert(acc, opts[i].0@, v)),
            Flow::Done(s1, Err(x)) => Flow::Done(s1, Err(x)),
            Flow::Fault => Flow::Fault,
        }
    }
}

/// The text of option `name` when it is a string, else `default`.
pub open spec fn text_option(om: Seq<(Seq<char>, Val)>, name: Seq<char>, default: Seq<char>) -> Seq<char> {
    match dict_lookup(om, name) {
        Some(Val::Str(t)) => t,
        _ => default,
    }
}

/// Prints `items[i..]`: the separator before every item but the first, and
/// each item as it renders, written as soon as it is evaluated.
pub open spec fn sem_print_items(f: nat, s: IState, items: Seq<Expr>, i: int, sep: Seq<char>) -> Flow<()>
    decreases f, 1nat, items.len() - i,
{
    if i < 0 || i >= items.len() {
        Flow::Done(s, Ok(()))
    } else {
        let s1 = if i > 0 { written(s, sep) } else { s };
        match sem_expr(f, s1, items[i]) {
            Flow::Done(s2, Ok(v)) => sem_print_items(f, written(s2, render(v)), items, i + 1, sep),
            Flow::Done(s2, Err(x)) => Flow::Done(s2, Err(x)),
            Flow::Fault => Flow::Fault,
        }
    }
}

/// Execution of a statement on line `line` with nesting budget `f`.
pub open spec fn sem_exec(f: nat, s: IState, stmt: Stmt, line: i64) -> Flow<()>
    decreases f, 0nat, 0nat,
{
    if f == 0 {
        Flow::Done(s, Err(ErrV::Exhausted))
    } else {
        let f1 = (f - 1) as nat;
        let s0 = with_line(s, line);
        match stmt {
            Stmt::Let { name, value } => match sem_expr(f1, s0, value) {
                Flow::Done(s1, Ok(v)) => match env_declare(s1.env, name@, v) {
                    Ok(e) => Flow::Done(with_env(s1, e), Ok(())),
                    Err(x) => Flow::Done(with_env(s1, with_scope(s1.env)), Err(x)),
                },
                Flow::Done(s1, Err(x)) => Flow::Done(s1, Err(x)),
                Flow::Fault => Flow::Fault,
            },
            Stmt::Const { name, value } => match sem_expr(f1, s0, value) {
                Flow::Done(s1, Ok(v)) => Flow::Done(with_env(s1, env_declare_const(s1.env, name@, v)), Ok(())),
                Flow::Done(s1, Err(x)) => Flow::Done(s1, Err(x)),
                Flow::Fault => Flow::Fault,
            },
            Stmt::Assign { name, value } => match sem_expr(f1, s0, value) {
                Flow::Done(s1, Ok(v)) => assign(s1, name@, v),
                Flow::Done(s1, Err(x)) => Flow::Done(s1, Err(x)),
                Flow::Fault => Flow::Fault,
            },
            Stmt::If { cond, then_body, else_body } => sem_if_stmt(
                f1,
                s0,
                cond,
                then_body@,
                match else_body {
                    Some(b) => Some(b@),
                    None => None,
                },
            ),
            Stmt::TryCatch { try_body, error_var, catch_body, finally_body } => sem_try(
                f1,
                s0,
                try_body@,
                error_var@,
                catch_body@,
                finally_body@,
            ),
            Stmt::For { var, var2, iter, body } => sem_for(
                f1,
                s0,
                var@,
                match var2 {
                    Some(v2) => Some(v2@),
                    None => None,
                },
                iter,
                body@,
            ),
            Stmt::Fn { name, params, body } => assign(
                s0,
                name@,
                Val::UserFn { params: strings_view(params@), body: FnBody::Stmts(body) },
            ),
            Stmt::Return(e) => match e {
                Some(x) => match sem_expr(f1, s0, x) {
                    Flow::Done(s1, Ok(v)) => Flow::Done(with_ret(s1, Some(v)), Err(ErrV::Return)),
                    Flow::Done(s1, Err(y)) => Flow::Done(s1, Err(y)),
                    Flow::Fault => Flow::Fault,
                },
                None => Flow::Done(with_ret(s0, Some(Val::Nil)), Err(ErrV::Return)),
            },
            Stmt::Break => Flow::Done(s0, Err(ErrV::Break)),
            Stmt::Continue => Flow::Done(s0, Err(ErrV::Continue)),
            Stmt::While { cond, body } => sem_while(f1, s0, cond, body@),
            Stmt::Expr(Expr::Pipe { source, expr }) => match sem_expr(f1, s0, *expr) {
                Flow::Done(s1, Ok(v)) => match *source {
                    Expr::Var(name) => assign(s1, name@, v),
                    _ => Flow::Done(s1, Ok(())),
                },
                Flow::Done(s1, Err(x)) => Flow::Done(s1, Err(x)),
                Flow::Fault => Flow::Fault,
            },
            Stmt::Display(e) => match sem_expr(f1, s0, e) {
                Flow::Done(s1, Ok(v)) => Flow::Done(written(s1, display_text(v)), Ok(())),
                Flow::Done(s1, Err(x)) => Flow::Done(s1, Err(x)),
                Flow::Fault => Flow::Fault,
            },
            Stmt::Expr(e) => match sem_expr(f1, s0, e) {
                Flow::Done(s1, Ok(v)) => if v is Nil || s1.env.quiet {
                    Flow::Done(s1, Ok(()))
                } else {
                    Flow::Done(
                        written(s1, shown(v) + "\n"@),
                        Ok(()),
                    )
                },
                Flow::Done(s1, Err(x)) => Flow::Done(s1, Err(x)),
                Flow::Fault => Flow::Fault,
            },
            Stmt::Block(stmts) => match sem_stmts(f1, with_env(s0, env_push(s0.env)), stmts@, 0) {
                Flow::Done(s1, r) => Flow::Done(with_env(s1, env_pop(s1.env)), r),
                Flow::Fault => Flow::Fault,
            },
            Stmt::QuietlyOn => Flow::Done(with_env(s0, EnvV { scopes: s0.env.scopes, quiet: true }), Ok(())),
            Stmt::QuietlyOff => Flow::Done(with_env(s0, EnvV { scopes: s0.env.scopes, quiet: false }), Ok(())),
            Stmt::Print { items, opts } => match sem_named(f1, s0, opts@, 0, Seq::empty()) {
                Flow::Done(s1, Ok(om)) => match sem_print_items(f1, s1, items@, 0, text_option(om, "sep"@, " "@)) {
                    Flow::Done(s2, Ok(())) => Flow::Done(written(s2, text_option(om, "end"@, "\n"@)), Ok(())),
                    other => other,
                },
                Flow::Done(s1, Err(x)) => Flow::Done(s1, Err(x)),
                Flow::Fault => Flow::Fault,
            },
        }
    }
}

} // verus!
