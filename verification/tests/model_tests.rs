use hayashi::formula::{coef_names_from_formula, join_strings, Formula, RhsTerm};
use hayashi::interp::Interpreter;
use hayashi::render::render_value;
use hayashi::value::{diag, diag_with, extract_var_names, value_as_bool, ModelKind, ModelSummary, Value};
use std::rc::Rc;

fn formula() -> Formula {
    Formula {
        lhs: "y".to_string(),
        rhs: vec![
            RhsTerm::Plain { display: "x1".to_string() },
            RhsTerm::Categorical {
                var: Some("g".to_string()),
                display: "C(g)".to_string(),
                levels: vec!["a".to_string(), "b".to_string(), "c".to_string()],
            },
        ],
        fe: vec!["firm".to_string(), "year".to_string()],
    }
}

#[test]
fn formula_text_for_the_estimator() {
    assert_eq!(Interpreter::formula_to_string(&formula()), "y ~ x1 + C(g) | firm + year");
    let f = Formula { lhs: String::new(), rhs: vec![RhsTerm::Plain { display: "x".to_string() }], fe: vec![] };
    assert_eq!(Interpreter::formula_to_string(&f), "~ x");
}

#[test]
fn coefficient_names_cut_or_padded() {
    let f = formula();
    assert_eq!(coef_names_from_formula(&f, 5), vec!["_cons", "x1", "g=b", "g=c", "x5"]);
    assert_eq!(coef_names_from_formula(&f, 2), vec!["_cons", "x1"]);
    let g = Formula {
        lhs: "y".to_string(),
        rhs: vec![RhsTerm::Categorical { var: None, display: "C(a*b)".to_string(), levels: vec![] }],
        fe: vec![],
    };
    assert_eq!(coef_names_from_formula(&g, 3), vec!["_cons", "C(a*b)", "x3"]);
}

#[test]
fn join_puts_separators_between() {
    assert_eq!(join_strings(&vec![], ", "), "");
    assert_eq!(join_strings(&vec!["a".to_string()], ", "), "a");
    assert_eq!(join_strings(&vec!["a".to_string(), "b".to_string()], " + "), "a + b");
}

#[test]
fn variable_names_by_model_family() {
    let m = Value::Model(Rc::new(ModelSummary {
        kind: ModelKind::Binary,
        variable_names: Some(vec!["v".to_string()]),
        coef_names: vec!["c1".to_string(), "c2".to_string()],
        parts: 0,
    }));
    assert_eq!(extract_var_names(&m), vec!["c1", "c2"]);
    let m = Value::Model(Rc::new(ModelSummary {
        kind: ModelKind::Ols,
        variable_names: Some(vec!["v".to_string()]),
        coef_names: vec![],
        parts: 0,
    }));
    assert_eq!(extract_var_names(&m), vec!["v"]);
    assert!(extract_var_names(&Value::Int(3)).is_empty());
}

#[test]
fn truthiness_and_diagnostic_values() {
    assert!(!value_as_bool(&Value::Nil));
    assert!(!value_as_bool(&Value::Int(0)));
    assert!(value_as_bool(&Value::Int(-2)));
    assert!(value_as_bool(&Value::Str(String::new())));
    let d = diag("report".to_string());
    assert_eq!(render_value(&d), "report");
    let d = diag_with("r2".to_string(), vec![("n".to_string(), Value::Int(3))]);
    assert_eq!(render_value(&d), "r2");
}
