use hayashi::ast::{BinOp, Expr, ForIter, Spanned, Stmt, TsOp};
use hayashi::formula::Formula;
use hayashi::value::FloatOp;
use hayashi::interp::Interpreter;
use hayashi::render::render_value;
use hayashi::value::{HayashiError, Value};

const FUEL: u64 = 1000;

fn num(i: i64) -> Expr {
    Expr::Int(i)
}

fn s(t: &str) -> Expr {
    Expr::Str(t.to_string())
}

fn var(n: &str) -> Expr {
    Expr::Var(n.to_string())
}

fn bin(op: BinOp, l: Expr, r: Expr) -> Expr {
    Expr::BinOp { op, lhs: Box::new(l), rhs: Box::new(r) }
}

fn at(stmt: Stmt, line: i64) -> Spanned {
    Spanned { stmt, line }
}

fn let_(n: &str, e: Expr) -> Stmt {
    Stmt::Let { name: n.to_string(), value: e }
}

fn eval(i: &mut Interpreter, e: &Expr) -> Result<Value, HayashiError> {
    i.eval_expr(e, FUEL)
}

fn shown(i: &mut Interpreter, e: &Expr) -> String {
    match eval(i, e) {
        Ok(v) => render_value(&v).to_string(),
        Err(HayashiError::Runtime(m)) => format!("Runtime: {m}"),
        Err(HayashiError::Type(m)) => format!("Type: {m}"),
        Err(_) => "other error".to_string(),
    }
}

#[test]
fn arithmetic_follows_the_tree() {
    let mut i = Interpreter::new();
    let e = bin(BinOp::Add, num(2), bin(BinOp::Mul, num(3), num(4)));
    assert_eq!(shown(&mut i, &e), "14");
    let e = bin(BinOp::Mod, num(-7), num(3));
    assert_eq!(shown(&mut i, &e), "-1");
    let e = Expr::Neg(Box::new(num(5)));
    assert_eq!(shown(&mut i, &e), "-5");
}

#[test]
fn division_is_handed_over_as_a_float_operation() {
    let mut i = Interpreter::new();
    match eval(&mut i, &bin(BinOp::Div, num(7), num(2))) {
        Err(HayashiError::Inexact(FloatOp { op, lhs, rhs })) => {
            assert!(op == BinOp::Div);
            assert_eq!((lhs, rhs), (7, 2));
        }
        _ => panic!("expected a float operation"),
    }
}

#[test]
fn comparisons_and_equality() {
    let mut i = Interpreter::new();
    assert_eq!(shown(&mut i, &bin(BinOp::Eq, num(1), num(1))), "true");
    assert_eq!(shown(&mut i, &bin(BinOp::Ne, s("a"), s("b"))), "true");
    assert_eq!(shown(&mut i, &bin(BinOp::Gt, num(3), num(2))), "true");
    assert_eq!(shown(&mut i, &bin(BinOp::Lt, num(2), num(3))), "true");
    assert_eq!(shown(&mut i, &bin(BinOp::Eq, Expr::Nil, num(0))), "false");
    assert_eq!(shown(&mut i, &bin(BinOp::Add, s("ab"), s("cd"))), "abcd");
    assert_eq!(shown(&mut i, &bin(BinOp::Add, s("ab"), num(1))), "Type: expected numeric value");
}

#[test]
fn let_then_read_gives_the_value() {
    let mut i = Interpreter::new();
    assert!(i.exec(&at(let_("x", num(5)), 1), FUEL).is_ok());
    assert_eq!(shown(&mut i, &bin(BinOp::Add, var("x"), num(1))), "6");
    assert_eq!(shown(&mut i, &var("nope")), "Runtime: undefined variable 'nope'");
}

#[test]
fn constants_cannot_be_assigned_or_redeclared() {
    let mut i = Interpreter::new();
    assert!(i.exec(&at(Stmt::Const { name: "c".to_string(), value: num(1) }, 1), FUEL).is_ok());
    match i.exec(&at(Stmt::Assign { name: "c".to_string(), value: num(2) }, 2), FUEL) {
        Err(HayashiError::Runtime(m)) => assert_eq!(m, "cannot assign to constant 'c'"),
        _ => panic!("expected an error"),
    }
    match i.exec(&at(let_("c", num(3)), 3), FUEL) {
        Err(HayashiError::Runtime(m)) => assert_eq!(m, "cannot redeclare constant 'c'"),
        _ => panic!("expected an error"),
    }
    assert_eq!(shown(&mut i, &var("c")), "1");
}

#[test]
fn and_or_short_circuit() {
    let mut i = Interpreter::new();
    assert_eq!(shown(&mut i, &bin(BinOp::And, Expr::Bool(false), var("zz"))), "false");
    assert_eq!(shown(&mut i, &bin(BinOp::Or, Expr::Bool(true), var("zz"))), "true");
    assert_eq!(shown(&mut i, &bin(BinOp::And, Expr::Bool(true), var("zz"))), "Runtime: undefined variable 'zz'");
    assert_eq!(shown(&mut i, &bin(BinOp::Or, num(0), num(2))), "true");
}

#[test]
fn dict_literal_later_key_wins() {
    let mut i = Interpreter::new();
    let d = Expr::Dict(vec![(s("a"), num(1)), (s("b"), num(2)), (s("a"), num(3))]);
    assert_eq!(shown(&mut i, &d), "{a: 3, b: 2}");
    let idx = Expr::Index { obj: Box::new(d), idx: Box::new(s("a")) };
    assert_eq!(shown(&mut i, &idx), "3");
    let missing = Expr::Index { obj: Box::new(Expr::Dict(vec![])), idx: Box::new(s("q")) };
    assert_eq!(shown(&mut i, &missing), "Runtime: key 'q' not found in dict");
}

#[test]
fn list_index_from_the_end_and_range() {
    let mut i = Interpreter::new();
    let l = Expr::List(vec![num(10), num(20), num(30)]);
    let e = Expr::Index { obj: Box::new(l), idx: Box::new(num(-1)) };
    assert_eq!(shown(&mut i, &e), "30");
    let e = Expr::Index { obj: Box::new(Expr::List(vec![num(1)])), idx: Box::new(num(5)) };
    assert_eq!(shown(&mut i, &e), "Runtime: index out of range (len=1)");
    assert_eq!(shown(&mut i, &Expr::Range(Box::new(num(1)), Box::new(num(4)))), "[1, 2, 3]");
    assert_eq!(shown(&mut i, &Expr::RangeInclusive(Box::new(num(3)), Box::new(num(1)))), "[3, 2, 1]");
}

#[test]
fn block_bindings_do_not_outlive_the_block() {
    let mut i = Interpreter::new();
    let block = Stmt::Block(vec![at(let_("inner", num(1)), 2)]);
    assert!(i.exec(&at(block, 1), FUEL).is_ok());
    assert_eq!(shown(&mut i, &var("inner")), "Runtime: undefined variable 'inner'");
}

#[test]
fn while_loop_counts() {
    let mut i = Interpreter::new();
    assert!(i.exec(&at(let_("n", num(0)), 1), FUEL).is_ok());
    let body = vec![at(
        Stmt::Assign { name: "n".to_string(), value: bin(BinOp::Add, var("n"), num(1)) },
        3,
    )];
    let w = Stmt::While { cond: bin(BinOp::Lt, var("n"), num(3)), body };
    assert!(i.exec(&at(w, 2), FUEL).is_ok());
    assert_eq!(shown(&mut i, &var("n")), "3");
}

#[test]
fn for_over_a_list_accumulates() {
    let mut i = Interpreter::new();
    assert!(i.exec(&at(let_("acc", num(0)), 1), FUEL).is_ok());
    let body = vec![at(
        Stmt::Assign { name: "acc".to_string(), value: bin(BinOp::Add, var("acc"), var("v")) },
        3,
    )];
    let f = Stmt::For {
        var: "v".to_string(),
        var2: None,
        iter: ForIter::Items(Expr::List(vec![num(1), num(2), num(3)])),
        body,
    };
    assert!(i.exec(&at(f, 2), FUEL).is_ok());
    assert_eq!(shown(&mut i, &var("acc")), "6");
}

#[test]
fn try_catch_binds_the_error() {
    let mut i = Interpreter::new();
    assert!(i.exec(&at(let_("k", s("")), 1), FUEL).is_ok());
    let t = Stmt::TryCatch {
        try_body: vec![at(let_("y", var("zz")), 3)],
        error_var: "e".to_string(),
        catch_body: vec![at(
            Stmt::Assign {
                name: "k".to_string(),
                value: Expr::Index { obj: Box::new(var("e")), idx: Box::new(s("msg")) },
            },
            5,
        )],
        finally_body: vec![],
    };
    assert!(i.exec(&at(t, 2), FUEL).is_ok());
    assert_eq!(shown(&mut i, &var("k")), "undefined variable 'zz'");
}

#[test]
fn fstring_interpolates_rendered_values() {
    let mut i = Interpreter::new();
    assert!(i.exec(&at(let_("n", num(4)), 1), FUEL).is_ok());
    let parts = vec![
        hayashi::ast::FStringPart::Lit("n=".to_string()),
        hayashi::ast::FStringPart::Interp { expr: Box::new(var("n")), fmt: None },
        hayashi::ast::FStringPart::Lit("!".to_string()),
    ];
    assert_eq!(shown(&mut i, &Expr::FString(parts)), "n=4!");
}

#[test]
fn zero_budget_is_exhausted() {
    let mut i = Interpreter::new();
    match i.eval_expr(&num(1), 0) {
        Err(HayashiError::Exhausted) => {}
        _ => panic!("expected exhaustion"),
    }
}

#[test]
fn print_writes_items_separator_and_end() {
    let mut i = Interpreter::new();
    let p = Stmt::Print {
        items: vec![num(1), s("a"), Expr::List(vec![num(2), num(3)])],
        opts: vec![("sep".to_string(), s(", ")), ("end".to_string(), s("!"))],
    };
    assert!(i.exec(&at(p, 1), FUEL).is_ok());
    assert_eq!(i.output.concat(), "1, a, [2, 3]!");
    let p = Stmt::Print { items: vec![num(4), num(5)], opts: vec![] };
    assert!(i.exec(&at(p, 2), FUEL).is_ok());
    assert_eq!(i.output.concat(), "1, a, [2, 3]!4 5\n");
}

#[test]
fn print_stops_at_a_failing_item_after_writing_the_earlier_ones() {
    let mut i = Interpreter::new();
    let p = Stmt::Print { items: vec![num(1), var("zz"), num(3)], opts: vec![] };
    assert!(i.exec(&at(p, 1), FUEL).is_err());
    assert_eq!(i.output.concat(), "1 ");
}

#[test]
fn expression_statements_show_their_value_unless_quiet() {
    let mut i = Interpreter::new();
    assert!(i.exec(&at(Stmt::Expr(s("hi")), 1), FUEL).is_ok());
    assert!(i.exec(&at(Stmt::Expr(Expr::Nil), 2), FUEL).is_ok());
    assert!(i.exec(&at(Stmt::QuietlyOn, 3), FUEL).is_ok());
    assert!(i.exec(&at(Stmt::Expr(num(7)), 4), FUEL).is_ok());
    assert!(i.exec(&at(Stmt::QuietlyOff, 5), FUEL).is_ok());
    assert!(i.exec(&at(Stmt::Expr(num(8)), 6), FUEL).is_ok());
    assert_eq!(i.output.concat(), "\"hi\"\n8\n");
}

#[test]
fn display_pipe_quietly_and_misplaced_operators() {
    let mut i = Interpreter::new();
    assert!(i.exec(&at(let_("x", num(1)), 1), FUEL).is_ok());
    let list = Expr::List(vec![num(1), s("a")]);
    assert!(i.exec(&at(Stmt::Display(list), 2), FUEL).is_ok());
    assert!(i.exec(&at(Stmt::Display(s("hi")), 3), FUEL).is_ok());
    assert!(i.exec(&at(Stmt::Display(Expr::Nil), 4), FUEL).is_ok());
    assert_eq!(i.output, vec!["  1  a\n".to_string(), "\"hi\"\n".to_string(), "(nil)\n".to_string()]);
    let pipe = Expr::Pipe { source: Box::new(var("x")), expr: Box::new(bin(BinOp::Add, var("x"), num(41))) };
    assert!(i.exec(&at(Stmt::Expr(pipe), 5), FUEL).is_ok());
    assert_eq!(shown(&mut i, &var("x")), "42");
    assert_eq!(i.output.len(), 3);
    let inner = Expr::Block(vec![Stmt::Expr(num(9))], None);
    assert_eq!(shown(&mut i, &Expr::Quietly(Box::new(inner))), "nil");
    assert_eq!(i.output.len(), 3);
    assert!(!i.env.quiet_mode);
    let lag = Expr::TsOp { op: TsOp::Lag, var: "y".to_string(), n: 1 };
    assert_eq!(shown(&mut i, &lag), "Runtime: L./F./D. operators are only valid inside generate");
    let f = Expr::Formula(Formula { lhs: "y".to_string(), rhs: vec![], fe: vec![] });
    assert_eq!(shown(&mut i, &f), "Runtime: formula must be used inside an estimator call");
}
