use hayashi::ast::{BinOp, Expr, TsOp};
use hayashi::columns::eval_col_tsop;
use hayashi::interp::Interpreter;
use hayashi::panels::{common_coefficients, unnamed_coefficients};
use hayashi::parallel::{iter_kind, IterKind};
use hayashi::strcol::{string_comparison, string_mask};
use hayashi::value::{HayashiError, ModelKind, ModelSummary, Value};
use std::rc::Rc;

fn message(e: HayashiError) -> String {
    match e {
        HayashiError::Runtime(m) => format!("R: {m}"),
        HayashiError::Type(m) => format!("T: {m}"),
        _ => "other".to_string(),
    }
}

fn v(n: &str) -> Expr {
    Expr::Var(n.to_string())
}

fn s(n: &str) -> Expr {
    Expr::Str(n.to_string())
}

fn strs(items: &[&str]) -> Vec<String> {
    items.iter().map(|t| t.to_string()).collect()
}

fn model(kind: ModelKind, names: Option<Vec<String>>) -> Value {
    Value::Model(Rc::new(ModelSummary { kind, variable_names: names, coef_names: vec![], parts: 0 }))
}

#[test]
fn hausman_pairs_fixed_and_random_effects() {
    let mut i = Interpreter::new();
    i.env.declare(&"fe".to_string(), model(ModelKind::Panel, Some(strs(&["educ", "exper"])))).ok().unwrap();
    i.env.declare(&"re".to_string(), model(ModelKind::Re, None)).ok().unwrap();
    let (a, b) = i.hausman(&vec![v("fe"), v("re")], 100).ok().unwrap();
    assert_eq!(a, Some(strs(&["educ", "exper"])));
    assert_eq!(b, None);
    assert_eq!(
        message(i.hausman(&vec![v("re"), v("re")], 100).err().unwrap()),
        "T: hausman(): first argument must be an FE model"
    );
    assert_eq!(
        message(i.hausman(&vec![v("fe"), v("fe")], 100).err().unwrap()),
        "T: hausman(): second argument must be an RE model"
    );
    assert_eq!(message(i.hausman(&vec![v("fe")], 100).err().unwrap()), "R: hausman(fe_model, re_model)");
    let pairs = common_coefficients(&strs(&["educ", "const", "tenure", "exper"]), &strs(&["const", "exper", "educ", "exper"]))
        .ok()
        .unwrap();
    assert_eq!(pairs, vec![(0, 2), (3, 1)]);
    assert_eq!(
        message(common_coefficients(&strs(&["const", "a"]), &strs(&["const", "b"])).err().unwrap()),
        "R: hausman: no common variable between FE and RE (check variable_names)"
    );
    assert_eq!(unnamed_coefficients(3), strs(&["x0", "x1", "x2"]));
}

#[test]
fn johansen_reads_variables_and_orders() {
    let mut i = Interpreter::new();
    let frames = strs(&["macro"]);
    let list = Expr::List(vec![s("gdp"), v("k"), Expr::Int(3)]);
    i.env.declare(&"k".to_string(), Value::Str("cons".to_string())).ok().unwrap();
    let opts = vec![("lags".to_string(), Value::Int(4)), ("det".to_string(), Value::Int(-1))];
    let p = i.johansen(&vec![v("macro"), list], &opts, &frames, 100).ok().unwrap();
    assert_eq!(p.df, "macro");
    assert_eq!(p.vars, strs(&["gdp", "cons", "3"]));
    assert_eq!((p.lags, p.det), (4, -1));
    let p = i.johansen(&vec![v("macro"), Expr::List(vec![])], &vec![], &frames, 100).ok().unwrap();
    assert_eq!((p.lags, p.det), (2, 0));
    assert_eq!(
        message(i.johansen(&vec![v("macro"), s("gdp")], &opts, &frames, 100).err().unwrap()),
        "T: johansen: second argument must be list of variables"
    );
    assert_eq!(
        message(i.johansen(&vec![s("macro"), s("gdp")], &opts, &frames, 100).err().unwrap()),
        "T: johansen: first argument must be a DataFrame"
    );
}

#[test]
fn cancorr_blocks_from_options_or_arguments() {
    let frames = strs(&["d"]);
    let list = |items: &[&str]| Value::List(Rc::new(items.iter().map(|t| Value::Str(t.to_string())).collect()));
    let opts = vec![("xvars".to_string(), list(&["a", "b"])), ("yvars".to_string(), Value::Str("c".to_string()))];
    let p = Interpreter::cancorr(&vec![v("d")], &opts, &frames).ok().unwrap();
    assert_eq!((p.xvars.clone(), p.yvars.clone()), (strs(&["a", "b"]), strs(&["c"])));
    let only_y = vec![("yvars".to_string(), list(&["c", "e"]))];
    let p = Interpreter::cancorr(&vec![v("d"), v("a"), s("b")], &only_y, &frames).ok().unwrap();
    assert_eq!(p.xvars, strs(&["a", "b"]));
    assert_eq!(
        message(Interpreter::cancorr(&vec![v("d"), Expr::Int(1)], &only_y, &frames).err().unwrap()),
        "T: args must be variable names"
    );
    assert_eq!(
        message(Interpreter::cancorr(&vec![v("d"), v("a")], &vec![], &frames).err().unwrap()),
        "R: cancorr requer yvars=[\"y1\",\"y2\"]"
    );
    let bad_y = vec![("yvars".to_string(), Value::List(Rc::new(vec![Value::Int(1)])))];
    assert_eq!(
        message(Interpreter::cancorr(&vec![v("d"), v("a")], &bad_y, &frames).err().unwrap()),
        "T: yvars must be a list of strings"
    );
    assert_eq!(
        message(Interpreter::cancorr(&vec![v("d")], &only_y, &frames).err().unwrap()),
        "R: cancorr: xvars and yvars cannot be empty"
    );
    let bad_x = vec![("xvars".to_string(), Value::Int(2))];
    assert_eq!(
        message(Interpreter::cancorr(&vec![v("d")], &bad_x, &frames).err().unwrap()),
        "T: xvars= must be a list de strings"
    );
}

#[test]
fn weighted_summary_picks_the_first_weight_option() {
    let frames = strs(&["d"]);
    let opts = vec![("w".to_string(), Value::Str("pop".to_string())), ("weights".to_string(), Value::Int(1))];
    let p = Interpreter::summarize_w(&vec![v("d"), s("income")], &opts, &frames).ok().unwrap();
    assert_eq!((p.df.as_str(), p.var.as_str()), ("d", "income"));
    assert_eq!(p.weight, None);
    let opts = vec![("w".to_string(), Value::Str("pop".to_string()))];
    assert_eq!(Interpreter::summarize_w(&vec![v("d"), v("income")], &opts, &frames).ok().unwrap().weight, Some("pop".to_string()));
    assert_eq!(
        message(Interpreter::summarize_w(&vec![v("d"), Expr::Int(0)], &opts, &frames).err().unwrap()),
        "T: second argument must be a variable name"
    );
}

#[test]
fn string_columns_compare_with_literals() {
    let (c, t, eq) = string_comparison(BinOp::Ne, &s("male"), &v("sex")).unwrap();
    assert_eq!((c.as_str(), t.as_str(), eq), ("sex", "male", false));
    assert!(string_comparison(BinOp::Gt, &v("sex"), &s("male")).is_none());
    assert!(string_comparison(BinOp::Eq, &v("a"), &v("b")).is_none());
    let col = strs(&["male", "female", "male"]);
    assert_eq!(string_mask(&col, "male", true), vec![true, false, true]);
    assert_eq!(string_mask(&col, "male", false), vec![false, true, false]);
}

#[test]
fn parallel_for_thread_counts() {
    let mut i = Interpreter::new();
    assert_eq!(i.eval_parallel_for_expr(&None, 100).ok().unwrap(), None);
    assert_eq!(i.eval_parallel_for_expr(&Some(Box::new(Expr::Int(4))), 100).ok().unwrap(), Some(4));
    assert_eq!(i.eval_parallel_for_expr(&Some(Box::new(Expr::Int(0))), 100).ok().unwrap(), None);
    assert_eq!(i.eval_parallel_for_expr(&Some(Box::new(s("x"))), 100).ok().unwrap(), None);
    assert_eq!(
        message(i.eval_parallel_for_expr(&Some(Box::new(v("n"))), 100).err().unwrap()),
        "R: undefined variable 'n'"
    );
    let r = Expr::RangeInclusive(Box::new(Expr::Int(1)), Box::new(Expr::Int(3)));
    assert!(iter_kind(&r) == IterKind::RangeInclusive);
    assert!(iter_kind(&v("xs")) == IterKind::Items);
}

#[test]
fn design_columns_mark_the_intercept() {
    let frame = strs(&["wage", "_cons2", "educ"]);
    let cols = hayashi::predict::build_x_from_varnames(&strs(&["const", "educ", "(Intercept)", "_cons2"]), &frame);
    assert_eq!(cols.ok().unwrap(), vec![None, Some(2), None, Some(1)]);
}

#[test]
fn design_columns_name_the_first_missing_column() {
    let frame = strs(&["wage", "educ"]);
    let r = hayashi::predict::build_x_from_varnames(&strs(&["_cons", "exper", "educ", "tenure"]), &frame);
    assert_eq!(message(r.err().unwrap()), "R: predict: column 'exper' not found in DataFrame");
}

#[test]
fn rolling_window_and_dates() {
    let opts = vec![("window".to_string(), Value::Int(30)), ("date".to_string(), Value::Str("day".to_string()))];
    assert_eq!(Interpreter::eval_rolling(&opts).ok().unwrap(), (30, Some("day".to_string())));
    assert_eq!(
        message(Interpreter::eval_rolling(&vec![]).err().unwrap()),
        "R: rolling() requires window=N (e.g. window=30)"
    );
    let bad = vec![("window".to_string(), Value::Str("30".to_string()))];
    assert_eq!(message(Interpreter::eval_rolling(&bad).err().unwrap()), "T: window= must be integer");
    let bad = vec![("window".to_string(), Value::Int(5)), ("date".to_string(), Value::Int(1))];
    assert_eq!(
        message(Interpreter::eval_rolling(&bad).err().unwrap()),
        "T: rolling: date= must be string column name"
    );
}

#[test]
fn text_columns_sort_stably() {
    let keys = strs(&["b", "a", "B", "ab", "a", "é", ""]);
    assert_eq!(hayashi::sorting::sort_order(&keys), vec![6, 2, 1, 4, 3, 0, 5]);
    assert!(hayashi::sorting::str_lt("Zebra", "apple"));
    assert!(hayashi::sorting::str_lt("app", "apple"));
    assert!(!hayashi::sorting::str_lt("apple", "apple"));
    assert!(hayashi::sorting::str_lt("z", "é"));
    assert!(hayashi::sorting::sort_order(&vec![]).is_empty());
}

#[test]
fn column_names_resolve_to_sources() {
    let mut i = Interpreter::new();
    let name = |t: &str| t.to_string();
    i.env.declare(&name("k"), Value::Int(7)).ok().unwrap();
    i.env.declare(&name("flag"), Value::Bool(true)).ok().unwrap();
    i.env.declare(&name("lbl"), Value::Str("x".to_string())).ok().unwrap();
    i.env.declare(&name("names"), Value::List(Rc::new(vec![Value::Str("a".to_string()), Value::Str("b".to_string())]))).ok().unwrap();
    i.env.declare(&name("nums"), Value::List(Rc::new(vec![Value::Int(3), Value::Bool(false)]))).ok().unwrap();
    i.env.declare(&name("mixed"), Value::List(Rc::new(vec![Value::Int(3), Value::Str("z".to_string())]))).ok().unwrap();
    assert!(matches!(i.eval_col_var(&name("_n"), 2, true).ok().unwrap(), hayashi::columns::ColSource::RowNumbers));
    assert!(matches!(i.eval_col_var(&name("_N"), 2, false).ok().unwrap(), hayashi::columns::ColSource::RowCount));
    assert!(matches!(i.eval_col_var(&name("k"), 2, true).ok().unwrap(), hayashi::columns::ColSource::FrameColumn));
    match i.eval_col_var(&name("k"), 3, false).ok().unwrap() {
        hayashi::columns::ColSource::Numbers(v) => assert_eq!(v, vec![7, 7, 7]),
        _ => panic!("expected numbers"),
    }
    match i.eval_col_var(&name("flag"), 2, false).ok().unwrap() {
        hayashi::columns::ColSource::Numbers(v) => assert_eq!(v, vec![1, 1]),
        _ => panic!("expected numbers"),
    }
    match i.eval_col_var(&name("lbl"), 2, false).ok().unwrap() {
        hayashi::columns::ColSource::Strings(v) => assert_eq!(v, strs(&["x", "x"])),
        _ => panic!("expected strings"),
    }
    match i.eval_col_var(&name("names"), 2, false).ok().unwrap() {
        hayashi::columns::ColSource::Strings(v) => assert_eq!(v, strs(&["a", "b"])),
        _ => panic!("expected strings"),
    }
    match i.eval_col_var(&name("nums"), 2, false).ok().unwrap() {
        hayashi::columns::ColSource::Numbers(v) => assert_eq!(v, vec![3, 0]),
        _ => panic!("expected numbers"),
    }
    assert_eq!(
        message(i.eval_col_var(&name("mixed"), 2, false).err().unwrap()),
        "T: element in list variable 'mixed' is not numeric: z"
    );
    assert_eq!(
        message(i.eval_col_var(&name("names"), 3, false).err().unwrap()),
        "R: list variable 'names' has length 2, expected 3"
    );
    assert_eq!(
        message(i.eval_col_var(&name("nope"), 3, false).err().unwrap()),
        "R: 'nope' not found as column or scalar variable"
    );
}

#[test]
fn lags_leads_and_differences_read_other_rows() {
    assert_eq!(eval_col_tsop(TsOp::Lag, 4, 1), vec![None, Some(0), Some(1), Some(2)]);
    assert_eq!(eval_col_tsop(TsOp::Lead, 4, 2), vec![Some(2), Some(3), None, None]);
    assert_eq!(eval_col_tsop(TsOp::Diff, 3, 0), vec![Some(0), Some(1), Some(2)]);
    assert_eq!(eval_col_tsop(TsOp::Lag, 2, 5), vec![None, None]);
}

#[test]
fn histogram_counts_and_bars() {
    let idxs = vec![0, 1, 1, 5, 9, 2];
    let counts = hayashi::charts::histogram_counts(&idxs, 3);
    assert_eq!(counts, vec![1, 2, 3]);
    assert_eq!(hayashi::charts::bar_lengths(&counts, 4), vec![3, 6, 10]);
    assert_eq!(hayashi::charts::bar_lengths(&counts, 30), vec![10, 20, 30]);
    assert_eq!(hayashi::charts::bar_lengths(&vec![0, 0], 12), vec![0, 0]);
}
