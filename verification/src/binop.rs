use crate::ast::BinOp;
use crate::value::{ErrV, FloatOp, HayashiError, Val, Value};
use vstd::prelude::*;

verus! {

/// 2 to the power `k`.
pub open spec fn p2(k: nat) -> nat
    decreases k,
{
    if k == 0 {
        1
    } else {
        2 * p2((k - 1) as nat)
    }
}

/// 2^53: every integer of smaller magnitude is exactly an `f64`.
pub open spec fn two53() -> nat {
    0x20_0000_0000_0000
}

/// How many low bits of `x` an `f64` (53-bit significand) cannot hold.
pub open spec fn excess_bits(x: nat) -> nat
    decreases x,
{
    if x < two53() {
        0
    } else {
        1 + excess_bits(x / 2)
    }
}

/// `x` rounded to a multiple of `p`, halfway cases to an even multiple.
pub open spec fn round_half_even(x: nat, p: nat) -> nat {
    let q = x / p;
    let r = x % p;
    if 2 * r > p || (2 * r == p && q % 2 == 1) {
        (q + 1) * p
    } else {
        q * p
    }
}

/// The value of `x as f64` for a natural number `x` (round to nearest, ties to even).
pub open spec fn round_nat(x: nat) -> nat {
    round_half_even(x, p2(excess_bits(x)))
}

/// The value of `i as f64` for an integer `i`.
pub open spec fn f64_round(i: int) -> int {
    if i < 0 {
        -(round_nat((-i) as nat))
    } else {
        round_nat(i as nat) as int
    }
}

fn round_magnitude(x: u64) -> (r: u128)
    ensures
        r == round_nat(x as nat),
        r <= 0x2_0000_0000_0000_0000,
{
    let mut y: u64 = x;
    let mut p: u64 = 1;
    let ghost mut k: nat = 0;
    while y >= 0x20_0000_0000_0000
        invariant
            p >= 1,
            p == p2(k),
            y == (x as nat) / (p as nat),
            excess_bits(x as nat) == k + excess_bits(y as nat),
            p <= 0x1000,
        decreases y,
    {
        proof {
            assert(excess_bits(y as nat) == 1 + excess_bits((y / 2) as nat));
            vstd::arithmetic::div_mod::lemma_div_denominator(x as int, p as int, 2);
            vstd::arithmetic::div_mod::lemma_fundamental_div_mod(x as int, p as int);
            assert((x as nat) >= (p as nat) * (y as nat)) by (nonlinear_arith)
                requires
                    (x as int) == (p as int) * ((x as int) / (p as int)) + (x as int) % (p as int),
                    (x as int) % (p as int) >= 0,
                    y == (x as int) / (p as int),
            ;
            assert(p < 0x800) by (nonlinear_arith)
                requires
                    (x as nat) >= (p as nat) * (y as nat),
                    y >= two53(),
                    x < 0x1_0000_0000_0000_0000,
                    p >= 1,
            ;
        }
        y = y / 2;
        p = p * 2;
        proof {
            k = k + 1;
        }
    }
    assert(excess_bits(y as nat) == 0);
    let q: u128 = (x / p) as u128;
    let r: u128 = (x % p) as u128;
    let pp: u128 = p as u128;
    assert(q * pp <= x) by (nonlinear_arith)
        requires
            q == (x as nat) / (p as nat),
            pp == p,
            p >= 1,
    {
        vstd::arithmetic::div_mod::lemma_fundamental_div_mod(x as int, p as int);
    }
    if 2 * r > pp || (2 * r == pp && q % 2 == 1) {
        assert((q + 1) * pp <= 2 * 0x1_0000_0000_0000_0000) by (nonlinear_arith)
            requires
                q * pp <= x,
                pp <= 0x1_0000_0000_0000_0000,
                x < 0x1_0000_0000_0000_0000,
        ;
        (q + 1) * pp
    } else {
        q * pp
    }
}

/// The integer value of `i as f64`.
pub fn f64_value(i: i64) -> (r: i128)
    ensures
        r == f64_round(i as int),
{
    if i < 0 {
        let m: i128 = -(i as i128);
        let v = round_magnitude(m as u64);
        -(v as i128)
    } else {
        let v = round_magnitude(i as u64);
        v as i128
    }
}


/// The result of a scalar operator: an exact value, or a floating-point
/// operation on two integers that the exact core leaves to its caller.
pub enum Scalar {
    Exact(Value),
    Float(FloatOp),
}

/// The abstract form of a scalar result.
pub enum ScalarV {
    Exact(Val),
    Float(FloatOp),
}

impl View for Scalar {
    type V = ScalarV;

    open spec fn view(&self) -> ScalarV {
        match self {
            Scalar::Exact(v) => ScalarV::Exact(v@),
            Scalar::Float(f) => ScalarV::Float(*f),
        }
    }
}

/// The abstract form of a scalar result or error.
pub open spec fn scalar_result_view(r: Result<Scalar, HayashiError>) -> Result<ScalarV, ErrV> {
    match r {
        Ok(s) => Ok(s@),
        Err(e) => Err(e@),
    }
}

/// The number a value stands for in arithmetic: integers as themselves,
/// booleans as 1 and 0.
pub open spec fn num_of(v: Val) -> Option<int> {
    match v {
        Val::Int(i) => Some(i as int),
        Val::Bool(b) => Some(if b { 1int } else { 0int }),
        _ => None,
    }
}

/// Remainder of truncating division, as `%` on `i64` computes it.
pub open spec fn trunc_rem(a: int, b: int) -> int {
    let m = if b < 0 { -b } else { b };
    if a >= 0 {
        a % m
    } else {
        -((-a) % m)
    }
}

/// Whether an integer fits in `i64`.
pub open spec fn in_i64(x: int) -> bool {
    i64::MIN <= x <= i64::MAX
}

/// The error for an operand that is not a number.
pub open spec fn not_numeric() -> ErrV {
    ErrV::Type("expected numeric value"@)
}

/// Whether the operator is a comparison of magnitudes.
pub open spec fn is_order(op: BinOp) -> bool {
    op == BinOp::Gt || op == BinOp::Lt || op == BinOp::GtEq || op == BinOp::LtEq
}

/// The outcome of an order comparison of two numbers.
pub open spec fn order_holds(op: BinOp, a: int, b: int) -> bool {
    match op {
        BinOp::Gt => a > b,
        BinOp::Lt => a < b,
        BinOp::GtEq => a >= b,
        _ => a <= b,
    }
}

/// Whether `==` holds between two operands, or the error it raises.
pub open spec fn spec_equal(l: Val, r: Val) -> Result<bool, ErrV> {
    match (l, r) {
        (Val::Nil, Val::Nil) => Ok(true),
        (Val::Nil, _) => Ok(false),
        (_, Val::Nil) => Ok(false),
        (Val::Str(a), Val::Str(b)) => Ok(a == b),
        (Val::Bool(a), Val::Bool(b)) => Ok(a == b),
        _ => match (num_of(l), num_of(r)) {
            (Some(a), Some(b)) => Ok(f64_round(a) == f64_round(b)),
            _ => Err(not_numeric()),
        },
    }
}

/// Semantics of a scalar binary operator; `None` where the operation panics
/// (integer overflow, remainder by zero, or a logical operator, which never
/// reaches this function).
pub open spec fn spec_scalar_binop(op: BinOp, l: Val, r: Val) -> Option<Result<ScalarV, ErrV>> {
    if op == BinOp::Eq || op == BinOp::Ne {
        Some(
            match spec_equal(l, r) {
                Ok(e) => Ok(ScalarV::Exact(Val::Bool(if op == BinOp::Eq { e } else { !e }))),
                Err(x) => Err(x),
            },
        )
    } else {
        match (l, r) {
            (Val::Int(a), Val::Int(b)) => match op {
                BinOp::Add => if in_i64(a + b) {
                    Some(Ok(ScalarV::Exact(Val::Int((a + b) as i64))))
                } else {
                    None
                },
                BinOp::Sub => if in_i64(a - b) {
                    Some(Ok(ScalarV::Exact(Val::Int((a - b) as i64))))
                } else {
                    None
                },
                BinOp::Mul => if in_i64(a * b) {
                    Some(Ok(ScalarV::Exact(Val::Int((a * b) as i64))))
                } else {
                    None
                },
                BinOp::Mod => if b == 0 || (a == i64::MIN && b == -1) {
                    None
                } else {
                    Some(Ok(ScalarV::Exact(Val::Int(trunc_rem(a as int, b as int) as i64))))
                },
                BinOp::Div | BinOp::Pow => Some(Ok(ScalarV::Float(FloatOp { op, lhs: a, rhs: b }))),
                BinOp::Gt | BinOp::Lt | BinOp::GtEq | BinOp::LtEq => Some(
                    Ok(ScalarV::Exact(Val::Bool(order_holds(op, a as int, b as int)))),
                ),
                _ => None,
            },
            _ => if op == BinOp::Add && l is Str && r is Str {
                Some(Ok(ScalarV::Exact(Val::Str(l->Str_0 + r->Str_0))))
            } else {
                match (num_of(l), num_of(r)) {
                    (Some(a), Some(b)) => if is_order(op) {
                        Some(Ok(ScalarV::Exact(Val::Bool(order_holds(op, f64_round(a), f64_round(b))))))
                    } else if op == BinOp::And || op == BinOp::Or || op == BinOp::In {
                        None
                    } else {
                        Some(Ok(ScalarV::Float(FloatOp { op, lhs: a as i64, rhs: b as i64 })))
                    },
                    _ => Some(Err(not_numeric())),
                }
            },
        }
    }
}

fn num_value(v: &Value) -> (r: Option<i64>)
    ensures
        match num_of(v@) {
            Some(n) => r == Some(n as i64),
            None => r is None,
        },
{
    match v {
        Value::Int(i) => Some(*i),
        Value::Bool(b) => Some(if *b { 1 } else { 0 }),
        _ => None,
    }
}

fn not_numeric_error() -> (e: HayashiError)
    ensures
        e@ == not_numeric(),
{
    HayashiError::Type(String::from_str("expected numeric value"))
}

fn order_value(op: BinOp, a: i128, b: i128) -> (r: bool)
    ensures
        r == order_holds(op, a as int, b as int),
{
    match op {
        BinOp::Gt => a > b,
        BinOp::Lt => a < b,
        BinOp::GtEq => a >= b,
        _ => a <= b,
    }
}

fn equal_values(l: &Value, r: &Value) -> (res: Result<bool, HayashiError>)
    ensures
        match (res, spec_equal(l@, r@)) {
            (Ok(x), Ok(y)) => x == y,
            (Err(x), Err(y)) => x@ == y,
            _ => false,
        },
{
    match (l, r) {
        (Value::Nil, Value::Nil) => Ok(true),
        (Value::Nil, _) => Ok(false),
        (_, Value::Nil) => Ok(false),
        (Value::Str(a), Value::Str(b)) => Ok(*a == *b),
        (Value::Bool(a), Value::Bool(b)) => Ok(*a == *b),
        _ => match (num_value(l), num_value(r)) {
            (Some(a), Some(b)) => Ok(f64_value(a) == f64_value(b)),
            _ => Err(not_numeric_error()),
        },
    }
}

/// Evaluates a scalar binary operator.
pub fn eval_scalar_binop(op: &BinOp, l: Value, r: Value) -> (res: Result<Scalar, HayashiError>)
    requires
        spec_scalar_binop(*op, l@, r@) is Some,
    ensures
        Some(scalar_result_view(res)) == spec_scalar_binop(*op, l@, r@),
{
    let op = *op;
    if op == BinOp::Eq || op == BinOp::Ne {
        return match equal_values(&l, &r) {
            Ok(e) => Ok(Scalar::Exact(Value::Bool(if op == BinOp::Eq { e } else { !e }))),
            Err(x) => Err(x),
        };
    }
    match (&l, &r) {
        (Value::Int(a), Value::Int(b)) => {
            let a = *a;
            let b = *b;
            match op {
                BinOp::Add => Ok(Scalar::Exact(Value::Int(a + b))),
                BinOp::Sub => Ok(Scalar::Exact(Value::Int(a - b))),
                BinOp::Mul => Ok(Scalar::Exact(Value::Int(a * b))),
                BinOp::Mod => {
                    let mb: i128 = if b < 0 { -(b as i128) } else { b as i128 };
                    let m128: i128 = (a as i128) % mb;
                    assert(m128 == trunc_rem(a as int, b as int));
                    assert(-mb < m128 < mb) by (nonlinear_arith)
                        requires
                            mb > 0,
                            m128 == trunc_rem(a as int, b as int),
                            mb == (if b < 0 { -b } else { b as int }),
                    ;
                    let m = m128 as i64;
                    Ok(Scalar::Exact(Value::Int(m)))
                },
                BinOp::Div | BinOp::Pow => Ok(Scalar::Float(FloatOp { op, lhs: a, rhs: b })),
                _ => Ok(Scalar::Exact(Value::Bool(order_value(op, a as i128, b as i128)))),
            }
        },
        _ => {
            if op == BinOp::Add {
                if let (Value::Str(a), Value::Str(b)) = (&l, &r) {
                    let s = a.clone().concat(b.as_str());
                    return Ok(Scalar::Exact(Value::Str(s)));
                }
            }
            match (num_value(&l), num_value(&r)) {
                (Some(a), Some(b)) => {
                    if op == BinOp::Gt || op == BinOp::Lt || op == BinOp::GtEq || op == BinOp::LtEq {
                        Ok(Scalar::Exact(Value::Bool(order_value(op, f64_value(a), f64_value(b)))))
                    } else {
                        Ok(Scalar::Float(FloatOp { op, lhs: a, rhs: b }))
                    }
                },
                _ => Err(not_numeric_error()),
            }
        },
    }
}

/// Integer arithmetic is exact where it fits in `i64`: a difference added
/// back to the subtrahend gives the minuend, and swapping the operands of a
/// difference negates it; a sum less its right operand gives its left one,
/// and sums and products do not depend on the order of their operands.
pub proof fn lemma_int_arithmetic(a: i64, b: i64)
    ensures
        in_i64(a - b) ==> (spec_scalar_binop(BinOp::Sub, Val::Int(a), Val::Int(b)) matches Some(
            Ok(ScalarV::Exact(Val::Int(d))),
        ) && d + b == a),
        in_i64(a - b) && in_i64(b - a) ==> (spec_scalar_binop(BinOp::Sub, Val::Int(a), Val::Int(b)) matches Some(
            Ok(ScalarV::Exact(Val::Int(d))),
        ) && spec_scalar_binop(BinOp::Sub, Val::Int(b), Val::Int(a)) matches Some(
            Ok(ScalarV::Exact(Val::Int(e))),
        ) && e == -d),
        in_i64(a + b) ==> (spec_scalar_binop(BinOp::Add, Val::Int(a), Val::Int(b)) matches Some(
            Ok(ScalarV::Exact(Val::Int(s))),
        ) && s - b == a && spec_scalar_binop(BinOp::Add, Val::Int(b), Val::Int(a)) == Some(
            Ok::<ScalarV, ErrV>(ScalarV::Exact(Val::Int(s))),
        )),
        in_i64(a * b) ==> (spec_scalar_binop(BinOp::Mul, Val::Int(a), Val::Int(b)) matches Some(
            Ok(ScalarV::Exact(Val::Int(m))),
        ) && m == a * b && spec_scalar_binop(BinOp::Mul, Val::Int(b), Val::Int(a)) == Some(
            Ok::<ScalarV, ErrV>(ScalarV::Exact(Val::Int(m))),
        )),
{
    assert(in_i64(a * b) ==> a * b == b * a) by (nonlinear_arith);
}

/// The remainder of a truncating division: smaller in magnitude than the
/// divisor, of the sign of the dividend (or zero), and the dividend less
/// the remainder is a multiple of the divisor.
pub proof fn lemma_int_remainder(a: i64, b: i64)
    requires
        b != 0,
        !(a == i64::MIN && b == -1),
    ensures
        spec_scalar_binop(BinOp::Mod, Val::Int(a), Val::Int(b)) matches Some(Ok(ScalarV::Exact(Val::Int(r)))) && {
            &&& -vstd::math::abs(b as int) < r < vstd::math::abs(b as int)
            &&& (a >= 0 ==> r >= 0)
            &&& (a < 0 ==> r <= 0)
            &&& (a - r) % (vstd::math::abs(b as int) as int) == 0
        },
{
    let m: int = vstd::math::abs(b as int) as int;
    let r = trunc_rem(a as int, b as int);
    let k = a - r;
    let q: int = if a >= 0 {
        vstd::arithmetic::div_mod::lemma_fundamental_div_mod(a as int, m);
        (a as int) / m
    } else {
        vstd::arithmetic::div_mod::lemma_fundamental_div_mod(-(a as int), m);
        -((-(a as int)) / m)
    };
    assert(k == m * q) by (nonlinear_arith)
        requires
            a >= 0 ==> (a as int == m * ((a as int) / m) + (a as int) % m && r == (a as int) % m && q == (a as int) / m),
            a < 0 ==> (-(a as int) == m * ((-(a as int)) / m) + (-(a as int)) % m && r == -((-(a as int)) % m) && q == -((-(a as int)) / m)),
            k == a - r,
    ;
    assert(k == q * m) by (nonlinear_arith)
        requires
            k == m * q,
    ;
    vstd::arithmetic::div_mod::lemma_mod_multiples_basic(q, m);
}

/// Order comparisons of integers say what they compare: `a > b` holds
/// exactly when `b < a`, and `a >= b` exactly when `a > b` or they are
/// equal.
pub proof fn lemma_int_order(a: i64, b: i64)
    ensures
        spec_scalar_binop(BinOp::Gt, Val::Int(a), Val::Int(b)) == Some(Ok::<ScalarV, ErrV>(ScalarV::Exact(Val::Bool(a > b)))),
        spec_scalar_binop(BinOp::Lt, Val::Int(a), Val::Int(b)) == Some(Ok::<ScalarV, ErrV>(ScalarV::Exact(Val::Bool(a < b)))),
        spec_scalar_binop(BinOp::GtEq, Val::Int(a), Val::Int(b)) == Some(Ok::<ScalarV, ErrV>(ScalarV::Exact(Val::Bool(a >= b)))),
        spec_scalar_binop(BinOp::LtEq, Val::Int(a), Val::Int(b)) == Some(Ok::<ScalarV, ErrV>(ScalarV::Exact(Val::Bool(a <= b)))),
        spec_scalar_binop(BinOp::Gt, Val::Int(a), Val::Int(b)) == spec_scalar_binop(BinOp::Lt, Val::Int(b), Val::Int(a)),
{
}

} // verus!
