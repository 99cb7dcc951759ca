use hayashi::ast::Expr;
use hayashi::interp::Interpreter;
use hayashi::strcol::{replace_str, str_col_check, substr_str};
use hayashi::value::HayashiError;

fn message(e: HayashiError) -> String {
    match e {
        HayashiError::Runtime(m) => format!("R: {m}"),
        HayashiError::Type(m) => format!("T: {m}"),
        _ => "other".to_string(),
    }
}

fn col(items: &[&str]) -> Vec<String> {
    items.iter().map(|s| s.to_string()).collect()
}

fn var() -> Expr {
    Expr::Var("s".to_string())
}

fn st(s: &str) -> Expr {
    Expr::Str(s.to_string())
}

#[test]
fn substr_clamps_and_counts_from_the_end() {
    assert_eq!(substr_str("hello", 1, 3), "ell");
    assert_eq!(substr_str("hello", -3, usize::MAX - 5), "llo");
    assert_eq!(substr_str("hello", -3, usize::MAX), "llo");
    assert_eq!(substr_str("hello", 1, usize::MAX), "ello");
    assert_eq!(substr_str("hello", -10, 2), "he");
    assert_eq!(substr_str("hello", 9, 2), "");
    assert_eq!(substr_str("héllo", 1, 2), "él");
}

#[test]
fn replace_matches_left_to_right() {
    assert_eq!(replace_str("aaa", "aa", "b"), "ba");
    assert_eq!(replace_str("a-b-c", "-", "+"), "a+b+c");
    assert_eq!(replace_str("ab", "", "-"), "-a-b-");
    assert_eq!(replace_str("", "", "x"), "x");
    assert_eq!(replace_str("abc", "z", "y"), "abc");
}

#[test]
fn string_functions_check_their_arity() {
    assert!(matches!(str_col_check("upper", 1), Some(Ok(()))));
    assert!(str_col_check("mean", 1).is_none());
    assert_eq!(
        message(str_col_check("substr", 1).unwrap().err().unwrap()),
        "R: substr(s, start [, length]) requires 2 or 3 arguments"
    );
    assert_eq!(message(str_col_check("trim", 2).unwrap().err().unwrap()), "R: trim(s) requires 1 argument");
    assert_eq!(
        message(str_col_check("regexs", 3).unwrap().err().unwrap()),
        "R: regexs(s, pattern) requires 2 arguments"
    );
    assert_eq!(
        message(str_col_check("str_replace", 2).unwrap().err().unwrap()),
        "R: str_replace(s, from, to) requires 3 arguments"
    );
}

#[test]
fn column_functions_apply_to_every_string() {
    let mut i = Interpreter::new();
    let strs = col(&["  Abc ", "dÉf", ""]);
    assert_eq!(i.eval_str_col_func("upper", &vec![var()], &strs, 100).ok().unwrap().unwrap(), col(&["  ABC ", "DÉF", ""]));
    assert_eq!(i.eval_str_col_func("lower", &vec![var()], &strs, 100).ok().unwrap().unwrap(), col(&["  abc ", "déf", ""]));
    assert_eq!(i.eval_str_col_func("trim", &vec![var()], &strs, 100).ok().unwrap().unwrap(), col(&["Abc", "dÉf", ""]));
    let words = col(&["hello", "hi"]);
    assert_eq!(
        i.eval_str_col_func("substr", &vec![var(), Expr::Int(1), Expr::Int(2)], &words, 100).ok().unwrap().unwrap(),
        col(&["el", "i"])
    );
    assert_eq!(
        i.eval_str_col_func("substr", &vec![var(), Expr::Int(-3)], &words, 100).ok().unwrap().unwrap(),
        col(&["llo", "hi"])
    );
    assert_eq!(
        i.eval_str_col_func("substr", &vec![var(), Expr::Int(1)], &words, 100).ok().unwrap().unwrap(),
        col(&["ello", "i"])
    );
    assert_eq!(
        i.eval_str_col_func("substr", &vec![var(), Expr::Int(-2), Expr::Int(-5)], &words, 100).ok().unwrap().unwrap(),
        col(&["", ""])
    );
    assert_eq!(
        i.eval_str_col_func("str_replace", &vec![var(), st("l"), st("L")], &words, 100).ok().unwrap().unwrap(),
        col(&["heLLo", "hi"])
    );
    assert_eq!(
        message(i.eval_str_col_func("str_replace", &vec![var(), Expr::Int(1), st("L")], &words, 100).err().unwrap()),
        "T: str_replace: from: expected string, got 1"
    );
    assert_eq!(
        message(i.eval_str_col_func("substr", &vec![var(), st("x")], &words, 100).err().unwrap()),
        "T: substr: start: expected integer, got x"
    );
}

#[test]
fn regex_functions_go_through_the_library() {
    let mut i = Interpreter::new();
    let strs = col(&["a1b22", "none"]);
    assert_eq!(
        i.eval_str_col_func("regexr", &vec![var(), st("[0-9]+"), st("#")], &strs, 100).ok().unwrap().unwrap(),
        col(&["a#b22", "none"])
    );
    assert_eq!(
        i.eval_str_col_func("regexra", &vec![var(), st("[0-9]+"), st("#")], &strs, 100).ok().unwrap().unwrap(),
        col(&["a#b#", "none"])
    );
    assert_eq!(
        i.eval_str_col_func("regexs", &vec![var(), st("b([0-9]+)")], &strs, 100).ok().unwrap().unwrap(),
        col(&["22", ""])
    );
    assert_eq!(
        i.eval_str_col_func("regexra", &vec![var(), st("("), st("#")], &strs, 100).ok().unwrap().unwrap(),
        strs
    );
}

#[test]
fn column_calls_outside_the_string_functions() {
    let mut i = Interpreter::new();
    let strs = col(&["a"]);
    assert!(i.eval_str_col_func("mean", &vec![var()], &strs, 100).ok().unwrap().is_none());
    assert_eq!(
        message(i.eval_str_col_func("upper", &vec![var(), var()], &strs, 100).err().unwrap()),
        "R: upper(s) requires 1 argument"
    );
}
