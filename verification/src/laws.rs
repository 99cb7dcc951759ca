//! Laws of the interpreter that span several operations: what a read gives
//! back after a write, what constants and scopes protect, what the scalar
//! operators agree on, how statement forms relate, and how cluster ids
//! follow their keys.
use crate::env::{
    bind_innermost, env_declare, env_declare_const, env_find, env_get, env_pop, env_push, env_set,
    lemma_env_find, lemma_env_find_unique, lemma_scope_find, lemma_scope_find_unique, scope_find,
    with_scope, BindingV, EnvV,
};
use crate::ast::{BinOp, Expr, Stmt};
use crate::binop::{spec_scalar_binop, ScalarV};
use crate::ops::{lemma_entry_find, lemma_entry_find_unique};
use crate::options::{compact_ids, distinct_in_order, lemma_distinct_facts, lemma_pos_in};
use crate::semantics::{dict_insert, dict_lookup, entry_find, sem_binop, sem_exec, sem_expr, with_line, Flow, IState};
use crate::value::{truthy, ErrV, Val};
use vstd::prelude::*;

verus! {

proof fn lemma_scope_find_push(s: Seq<BindingV>, b: BindingV, x: Seq<char>)
    ensures
        scope_find(s.push(b), x) == if b.0 == x { s.len() as int } else { scope_find(s, x) },
{
    assert(s.push(b).drop_last() =~= s);
}

proof fn lemma_scope_find_update(s: Seq<BindingV>, j: int, b: BindingV, x: Seq<char>)
    requires
        0 <= j < s.len(),
        b.0 == s[j].0,
    ensures
        scope_find(s.update(j, b), x) == scope_find(s, x),
    decreases s.len(),
{
    if j < s.len() - 1 {
        assert(s.update(j, b).drop_last() =~= s.drop_last().update(j, b));
        lemma_scope_find_update(s.drop_last(), j, b, x);
    } else {
        assert(s.update(j, b).drop_last() =~= s.drop_last());
    }
}

proof fn lemma_env_find_same(a: Seq<Seq<BindingV>>, b: Seq<Seq<BindingV>>, x: Seq<char>)
    requires
        a.len() == b.len(),
        forall|t: int| 0 <= t < a.len() ==> scope_find(#[trigger] a[t], x) == scope_find(b[t], x),
    ensures
        env_find(a, x) == env_find(b, x),
    decreases a.len(),
{
    if a.len() > 0 {
        assert(scope_find(a[a.len() - 1], x) == scope_find(b[b.len() - 1], x));
        lemma_env_find_same(a.drop_last(), b.drop_last(), x);
    }
}

/// Replacing the binding at `(k, j)` by one of the same name changes the
/// lookup of that name (where it is the visible binding) and no other.
proof fn lemma_replace_binding(e: EnvV, k: int, j: int, b: BindingV, x: Seq<char>)
    requires
        0 <= k < e.scopes.len(),
        0 <= j < e.scopes[k].len(),
        b.0 == e.scopes[k][j].0,
    ensures
        ({
            let e2 = EnvV { scopes: e.scopes.update(k, e.scopes[k].update(j, b)), quiet: e.quiet };
            &&& env_find(e2.scopes, x) == env_find(e.scopes, x)
            &&& x != b.0 ==> env_get(e2, x) == env_get(e, x)
            &&& (x == b.0 && env_find(e.scopes, x) == k && scope_find(e.scopes[k], x) == j) ==> env_get(
                e2,
                x,
            ) == Some(b.1)
        }),
{
    let s2 = e.scopes.update(k, e.scopes[k].update(j, b));
    assert forall|t: int| 0 <= t < s2.len() implies scope_find(#[trigger] s2[t], x) == scope_find(
        e.scopes[t],
        x,
    ) by {
        if t == k {
            lemma_scope_find_update(e.scopes[k], j, b, x);
        }
    }
    lemma_env_find_same(s2, e.scopes, x);
    let r = env_find(e.scopes, x);
    if r >= 0 && x != b.0 {
        lemma_env_find(e.scopes, x);
        lemma_scope_find(e.scopes[r], x);
        let i = scope_find(e.scopes[r], x);
        if r == k {
            lemma_scope_find_update(e.scopes[k], j, b, x);
            assert(i != j);
        }
    }
}

/// Binding a name in the innermost scope makes it visible there with the
/// new value, keeps every other name's lookup, and leaves the outer scopes
/// as they were.
proof fn lemma_bind_innermost(e: EnvV, name: Seq<char>, v: Val, c: bool, x: Seq<char>)
    ensures
        ({
            let e2 = bind_innermost(e, name, v, c);
            let n = e2.scopes.len();
            &&& n == with_scope(e).scopes.len()
            &&& n >= 1
            &&& e2.scopes.drop_last() == with_scope(e).scopes.drop_last()
            &&& e2.quiet == e.quiet
            &&& env_find(e2.scopes, name) == n - 1
            &&& scope_find(e2.scopes[n - 1], name) >= 0
            &&& e2.scopes[n - 1][scope_find(e2.scopes[n - 1], name)] == (name, v, c)
            &&& env_get(e2, name) == Some(v)
            &&& x != name ==> env_get(e2, x) == env_get(e, x)
        }),
{
    let e1 = with_scope(e);
    let k = e1.scopes.len() - 1;
    let sc = e1.scopes[k];
    let j = scope_find(sc, name);
    let e2 = bind_innermost(e, name, v, c);
    lemma_scope_find(sc, name);
    assert(e2.scopes.drop_last() =~= e1.scopes.drop_last());
    if e.scopes.len() == 0 {
        assert(env_find(e.scopes, x) == -1);
        assert(scope_find(e1.scopes[0], x) == -1);
        assert(e1.scopes.drop_last() =~= Seq::<Seq<BindingV>>::empty());
        assert(env_find(e1.scopes.drop_last(), x) == -1);
        assert(env_find(e1.scopes, x) == -1);
    }
    assert(env_get(e1, x) == env_get(e, x));
    if j >= 0 {
        lemma_replace_binding(e1, k, j, (name, v, c), x);
        lemma_replace_binding(e1, k, j, (name, v, c), name);
        lemma_scope_find_update(sc, j, (name, v, c), name);
        lemma_env_find_unique(e2.scopes, name, k);
    } else {
        let sc2 = sc.push((name, v, c));
        lemma_scope_find_push(sc, (name, v, c), name);
        lemma_scope_find_push(sc, (name, v, c), x);
        lemma_env_find_unique(e2.scopes, name, k);
        if x != name {
            assert forall|t: int| 0 <= t < e2.scopes.len() implies scope_find(
                #[trigger] e2.scopes[t],
                x,
            ) == scope_find(e1.scopes[t], x) by {}
            lemma_env_find_same(e2.scopes, e1.scopes, x);
            let r = env_find(e1.scopes, x);
            if r >= 0 {
                lemma_env_find(e1.scopes, x);
                lemma_scope_find(e1.scopes[r], x);
            }
        }
    }
}

/// After `let name = v` succeeds, `name` reads back as `v`.
pub proof fn lemma_declare_then_get(e: EnvV, name: Seq<char>, v: Val)
    requires
        env_declare(e, name, v) is Ok,
    ensures
        env_get(env_declare(e, name, v)->Ok_0, name) == Some(v),
{
    lemma_bind_innermost(e, name, v, false, name);
}

/// `let name = v` leaves every other name's value as it was.
pub proof fn lemma_declare_keeps_others(e: EnvV, name: Seq<char>, v: Val, other: Seq<char>)
    requires
        env_declare(e, name, v) is Ok,
        other != name,
    ensures
        env_get(env_declare(e, name, v)->Ok_0, other) == env_get(e, other),
{
    lemma_bind_innermost(e, name, v, false, other);
}

/// After `const name = v`, `name` reads back as `v`, every other name keeps
/// its value, and the constant can be neither assigned nor redeclared in its
/// scope.
pub proof fn lemma_const_is_protected(e: EnvV, name: Seq<char>, v: Val, w: Val, other: Seq<char>)
    ensures
        env_get(env_declare_const(e, name, v), name) == Some(v),
        other != name ==> env_get(env_declare_const(e, name, v), other) == env_get(e, other),
        env_set(env_declare_const(e, name, v), name, w) == Err::<EnvV, ErrV>(
            ErrV::Runtime("cannot assign to constant '"@ + name + "'"@),
        ),
        env_declare(env_declare_const(e, name, v), name, w) == Err::<EnvV, ErrV>(
            ErrV::Runtime("cannot redeclare constant '"@ + name + "'"@),
        ),
{
    lemma_bind_innermost(e, name, v, true, other);
    let e2 = env_declare_const(e, name, v);
    assert(with_scope(e2) == e2);
}

/// After an assignment `name = v` succeeds, `name` reads back as `v` and
/// every other name keeps its value.
pub proof fn lemma_set_then_get(e: EnvV, name: Seq<char>, v: Val, other: Seq<char>)
    requires
        env_set(e, name, v) is Ok,
    ensures
        env_get(env_set(e, name, v)->Ok_0, name) == Some(v),
        other != name ==> env_get(env_set(e, name, v)->Ok_0, other) == env_get(e, other),
{
    let k = env_find(e.scopes, name);
    if k < 0 {
        lemma_bind_innermost(e, name, v, false, other);
    } else {
        lemma_env_find(e.scopes, name);
        let j = scope_find(e.scopes[k], name);
        lemma_scope_find(e.scopes[k], name);
        lemma_replace_binding(e, k, j, (name, v, false), name);
        lemma_replace_binding(e, k, j, (name, v, false), other);
    }
}

/// A scope opened, written into and closed again leaves the environment as
/// it was: bindings made inside a block do not outlive it.
pub proof fn lemma_scope_restores(e: EnvV, name: Seq<char>, v: Val)
    requires
        e.scopes.len() >= 1,
        env_declare(env_push(e), name, v) is Ok,
    ensures
        env_pop(env_declare(env_push(e), name, v)->Ok_0) == e,
{
    lemma_bind_innermost(env_push(e), name, v, false, name);
    assert(env_push(e).scopes.drop_last() =~= e.scopes);
}


/// A dictionary reads back what was last stored under a key, and storing
/// under one key leaves the others as they were.
pub proof fn lemma_dict_insert_lookup(d: Seq<(Seq<char>, Val)>, k: Seq<char>, v: Val, other: Seq<char>)
    ensures
        dict_lookup(dict_insert(d, k, v), k) == Some(v),
        other != k ==> dict_lookup(dict_insert(d, k, v), other) == dict_lookup(d, other),
{
    let j = entry_find(d, k);
    lemma_entry_find(d, k);
    lemma_entry_find(d, other);
    let d2 = dict_insert(d, k, v);
    if j < 0 {
        lemma_entry_find_unique(d2, k, d.len() as int);
        if other != k {
            let r = entry_find(d, other);
            lemma_entry_find_unique(d2, other, r);
        }
    } else {
        lemma_entry_find_unique(d2, k, j);
        if other != k {
            let r = entry_find(d, other);
            assert forall|t: int| r < t < d2.len() implies d2[t].0 != other by {
                if t != j {
                    assert(d2[t] == d[t]);
                }
            }
            lemma_entry_find_unique(d2, other, r);
        }
    }
}

/// `!=` is the negation of `==`: on the same operands it gives the opposite
/// boolean, or the same error.
pub proof fn lemma_ne_negates_eq(l: Val, r: Val)
    ensures
        match (spec_scalar_binop(BinOp::Eq, l, r), spec_scalar_binop(BinOp::Ne, l, r)) {
            (Some(Ok(ScalarV::Exact(Val::Bool(a)))), Some(Ok(ScalarV::Exact(Val::Bool(b))))) => a == !b,
            (Some(Err(x)), Some(Err(y))) => x == y,
            _ => false,
        },
{
}

/// `==` does not depend on the order of its operands.
pub proof fn lemma_eq_symmetric(l: Val, r: Val)
    ensures
        spec_scalar_binop(BinOp::Eq, l, r) == spec_scalar_binop(BinOp::Eq, r, l),
{
}

/// Every integer, boolean, string and `nil` is equal to itself.
pub proof fn lemma_eq_reflexive(l: Val)
    requires
        l is Int || l is Bool || l is Str || l is Nil,
    ensures
        spec_scalar_binop(BinOp::Eq, l, l) == Some(Ok::<ScalarV, ErrV>(ScalarV::Exact(Val::Bool(true)))),
{
}

/// `a > b` is `b < a`, and `a >= b` is `b <= a`.
pub proof fn lemma_order_converse(l: Val, r: Val)
    ensures
        spec_scalar_binop(BinOp::Gt, l, r) == spec_scalar_binop(BinOp::Lt, r, l),
        spec_scalar_binop(BinOp::GtEq, l, r) == spec_scalar_binop(BinOp::LtEq, r, l),
{
}

/// Integer addition and multiplication do not depend on operand order.
pub proof fn lemma_int_ops_commute(a: i64, b: i64)
    ensures
        spec_scalar_binop(BinOp::Add, Val::Int(a), Val::Int(b)) == spec_scalar_binop(
            BinOp::Add,
            Val::Int(b),
            Val::Int(a),
        ),
        spec_scalar_binop(BinOp::Mul, Val::Int(a), Val::Int(b)) == spec_scalar_binop(
            BinOp::Mul,
            Val::Int(b),
            Val::Int(a),
        ),
{
    assert(a * b == b * a) by (nonlinear_arith);
}

/// `and` does not evaluate its right operand when the left one is falsy,
/// and `or` does not when it is truthy: the result is then `false` (or
/// `true`) in the state the left operand left, whatever the right one is.
pub proof fn lemma_short_circuit(f: nat, s: IState, lhs: Expr, rhs: Expr, other: Expr)
    ensures
        match sem_expr(f, s, lhs) {
            Flow::Done(s1, Ok(l)) => {
                &&& !truthy(l) ==> sem_binop(f, s, BinOp::And, lhs, rhs) == Flow::Done(
                    s1,
                    Ok::<Val, ErrV>(Val::Bool(false)),
                ) && sem_binop(f, s, BinOp::And, lhs, other) == sem_binop(f, s, BinOp::And, lhs, rhs)
                &&& truthy(l) ==> sem_binop(f, s, BinOp::Or, lhs, rhs) == Flow::Done(
                    s1,
                    Ok::<Val, ErrV>(Val::Bool(true)),
                ) && sem_binop(f, s, BinOp::Or, lhs, other) == sem_binop(f, s, BinOp::Or, lhs, rhs)
            },
            _ => true,
        },
{
}

/// After `let name = value` runs without error, reading `name` gives the
/// value the expression evaluated to.
pub proof fn lemma_let_then_read(f: nat, g: nat, s: IState, name: String, value: Expr, line: i64)
    requires
        f > 0,
        g > 0,
        sem_exec(f, s, Stmt::Let { name, value }, line) matches Flow::Done(_, Ok(_)),
    ensures
        match (sem_expr((f - 1) as nat, with_line(s, line), value), sem_exec(f, s, Stmt::Let { name, value }, line)) {
            (Flow::Done(_, Ok(v)), Flow::Done(s2, _)) => sem_expr(g, s2, Expr::Var(name)) == Flow::Done(
                s2,
                Ok::<Val, ErrV>(v),
            ),
            _ => false,
        },
{
    match sem_expr((f - 1) as nat, with_line(s, line), value) {
        Flow::Done(s1, Ok(v)) => {
            lemma_declare_then_get(s1.env, name@, v);
        },
        _ => {},
    }
}

/// After an assignment `name = value` runs without error, reading `name`
/// gives the value the expression evaluated to.
pub proof fn lemma_assign_then_read(f: nat, g: nat, s: IState, name: String, value: Expr, line: i64)
    requires
        f > 0,
        g > 0,
        sem_exec(f, s, Stmt::Assign { name, value }, line) matches Flow::Done(_, Ok(_)),
    ensures
        match (sem_expr((f - 1) as nat, with_line(s, line), value), sem_exec(f, s, Stmt::Assign { name, value }, line)) {
            (Flow::Done(_, Ok(v)), Flow::Done(s2, _)) => sem_expr(g, s2, Expr::Var(name)) == Flow::Done(
                s2,
                Ok::<Val, ErrV>(v),
            ),
            _ => false,
        },
{
    match sem_expr((f - 1) as nat, with_line(s, line), value) {
        Flow::Done(s1, Ok(v)) => {
            lemma_set_then_get(s1.env, name@, v, name@);
        },
        _ => {},
    }
}


/// A pipe statement `x |> e` into a variable does what the assignment
/// `x = e` does.
pub proof fn lemma_pipe_is_assignment(f: nat, s: IState, name: String, value: Expr, line: i64)
    ensures
        sem_exec(f, s, Stmt::Expr(Expr::Pipe { source: Box::new(Expr::Var(name)), expr: Box::new(value) }), line)
            == sem_exec(f, s, Stmt::Assign { name, value }, line),
{
}

/// `quietly(e)` leaves the output setting as it found it, whatever `e`
/// does.
pub proof fn lemma_quietly_restores(f: nat, s: IState, e: Expr)
    ensures
        sem_expr(f, s, Expr::Quietly(Box::new(e))) matches Flow::Done(s1, _) ==> s1.env.quiet == s.env.quiet,
{
}

proof fn lemma_compact_ids_index<T>(keys: Seq<T>)
    requires
        keys.len() <= usize::MAX,
    ensures
        compact_ids(keys).len() == keys.len(),
        forall|i: int|
            0 <= i < keys.len() ==> (#[trigger] compact_ids(keys)[i]) < distinct_in_order(keys).len()
                && distinct_in_order(keys)[compact_ids(keys)[i] as int] == keys[i],
    decreases keys.len(),
{
    if keys.len() > 0 {
        let p = keys.drop_last();
        let y = keys.last();
        lemma_compact_ids_index(p);
        lemma_distinct_facts(keys);
        let d = distinct_in_order(keys);
        let dp = distinct_in_order(p);
        assert(keys.contains(y)) by {
            assert(keys[keys.len() - 1] == y);
        }
        lemma_pos_in(d, y);
        assert forall|i: int| 0 <= i < keys.len() implies (#[trigger] compact_ids(keys)[i]) < d.len()
            && d[compact_ids(keys)[i] as int] == keys[i] by {
            if i < p.len() {
                assert(compact_ids(keys)[i] == compact_ids(p)[i]);
                assert(p[i] == keys[i]);
                let c = compact_ids(p)[i] as int;
                assert(d[c] == dp[c]);
            }
        }
    }
}

/// Cluster ids follow their keys: two observations get the same id exactly
/// when their keys are equal, and the ids count the distinct keys from 0.
pub proof fn lemma_cluster_ids_follow_keys<T>(keys: Seq<T>, i: int, j: int)
    requires
        keys.len() <= usize::MAX,
        0 <= i < keys.len(),
        0 <= j < keys.len(),
    ensures
        compact_ids(keys).len() == keys.len(),
        (compact_ids(keys)[i] == compact_ids(keys)[j]) <==> (keys[i] == keys[j]),
        compact_ids(keys)[i] < distinct_in_order(keys).len(),
{
    lemma_compact_ids_index(keys);
    lemma_distinct_facts(keys);
    let d = distinct_in_order(keys);
    let a = compact_ids(keys)[i] as int;
    let b = compact_ids(keys)[j] as int;
    if keys[i] == keys[j] && a != b {
        if a < b {
            assert(d[a] != d[b]);
        } else {
            assert(d[b] != d[a]);
        }
    }
}

} // verus!
