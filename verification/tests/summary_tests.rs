use hayashi::ast::Expr;
use hayashi::bootstrap::{bootstrap_converged, coef_label};
use hayashi::corrections::{multipletests_method, Correction};
use hayashi::fields::{table_column, FieldAccess, OlsField};
use hayashi::penalized::display_names;
use hayashi::proportions::{count_test, CountTest};
use hayashi::residuals::{ols_diagnostic, reset_power, OlsDiagnostic};
use hayashi::interp::Interpreter;
use hayashi::summaries::{stat_kind, tabstat_frame, StatKind};
use hayashi::timeseries::{flag_option, int_option, lags_option, mstl_periods, text_option};
use hayashi::value::{HayashiError, ModelKind, ModelSummary, Value};
use std::rc::Rc;

fn message(e: HayashiError) -> String {
    match e {
        HayashiError::Runtime(m) => format!("R: {m}"),
        HayashiError::Type(m) => format!("T: {m}"),
        _ => "other".to_string(),
    }
}

fn v(n: &str) -> Expr {
    Expr::Var(n.to_string())
}

fn s(n: &str) -> Expr {
    Expr::Str(n.to_string())
}

fn model(kind: ModelKind, names: Option<Vec<String>>) -> Value {
    Value::Model(Rc::new(ModelSummary { kind, variable_names: names, coef_names: vec![], parts: 0 }))
}

#[test]
fn xtsum_names_frame_entity_and_variables() {
    let frames = vec!["panel".to_string()];
    let opts = vec![("id".to_string(), Value::Str("firm".to_string()))];
    let p = Interpreter::xtsum(&vec![v("panel"), v("wage"), Expr::Int(3), s("hours")], &opts, &frames).ok().unwrap();
    assert_eq!((p.df.as_str(), p.id.as_str()), ("panel", "firm"));
    assert_eq!(p.vars, vec!["wage".to_string(), "hours".to_string()]);
    assert_eq!(
        message(Interpreter::xtsum(&vec![v("panel")], &opts, &frames).err().unwrap()),
        "R: xtsum(df, var1, var2, ..., id=entity_col)"
    );
    assert_eq!(
        message(Interpreter::xtsum(&vec![v("other"), v("wage")], &opts, &frames).err().unwrap()),
        "R: 'other' is not a DataFrame"
    );
    assert_eq!(
        message(Interpreter::xtsum(&vec![v("panel"), v("wage")], &vec![], &frames).err().unwrap()),
        "R: xtsum requer id=coluna_entidade"
    );
    assert_eq!(
        message(Interpreter::xtsum(&vec![v("panel"), Expr::Int(1)], &opts, &frames).err().unwrap()),
        "R: xtsum: provide at least one variable"
    );
}

#[test]
fn tabstat_statistics_and_groups() {
    let frames = vec!["d".to_string()];
    assert_eq!(tabstat_frame(&vec![v("d")], &frames).ok().unwrap(), "d");
    assert_eq!(
        message(tabstat_frame(&vec![], &frames).err().unwrap()),
        "R: tabstat(df, var1, ..., by=group, stats=[mean,sd,n])"
    );
    assert_eq!(message(tabstat_frame(&vec![s("d")], &frames).err().unwrap()), "T: first argument must be a DataFrame");
    let stats = Value::List(Rc::new(vec![Value::Str("median".to_string()), Value::Int(4), Value::Str("zz".to_string())]));
    let opts = vec![("stats".to_string(), stats), ("by".to_string(), Value::Str("g".to_string()))];
    let p = Interpreter::tabstat(vec!["x".to_string()], &opts).ok().unwrap();
    assert_eq!(p.stats.len(), 3);
    assert!(p.stats[0].0 == "median" && p.stats[0].1 == StatKind::P50);
    assert!(p.stats[1].0 == "mean" && p.stats[1].1 == StatKind::Mean);
    assert!(p.stats[2].0 == "zz" && p.stats[2].1 == StatKind::Unknown);
    assert_eq!(p.by, Some("g".to_string()));
    let d = Interpreter::tabstat(vec!["x".to_string()], &vec![]).ok().unwrap();
    let names: Vec<&str> = d.stats.iter().map(|x| x.0.as_str()).collect();
    assert_eq!(names, vec!["mean", "sd", "n"]);
    assert!(d.by.is_none());
    assert_eq!(
        message(Interpreter::tabstat(vec![], &opts).err().unwrap()),
        "R: tabstat: provide at least one variable"
    );
    assert!(stat_kind("q3") == StatKind::P75 && stat_kind("count") == StatKind::N && stat_kind("cv") == StatKind::Cv);
}

#[test]
fn ic_checks_each_model_in_turn() {
    let mut i = Interpreter::new();
    i.env.declare(&"m1".to_string(), model(ModelKind::Ols, None)).ok().unwrap();
    i.env.declare(&"m2".to_string(), model(ModelKind::Poisson, None)).ok().unwrap();
    i.env.declare(&"r".to_string(), model(ModelKind::Rolling, None)).ok().unwrap();
    i.env.declare(&"g".to_string(), model(ModelKind::Garch, None)).ok().unwrap();
    let rows = i.ic(&vec![v("m1"), v("m2")], 100).ok().unwrap();
    assert_eq!(rows.len(), 2);
    assert!(rows[0].0 == "m1" && rows[0].1 == ModelKind::Ols);
    assert!(rows[1].0 == "m2" && rows[1].1 == ModelKind::Poisson);
    assert_eq!(message(i.ic(&vec![], 100).err().unwrap()), "R: ic() requires at least one model");
    assert_eq!(
        message(i.ic(&vec![v("m1"), v("r")], 100).err().unwrap()),
        "R: ic(): 'r' has no log-likelihood — use print() for diagnostics"
    );
    assert_eq!(
        message(i.ic(&vec![v("g")], 100).err().unwrap()),
        "R: ic(): model 'g' has no log-likelihood available for ic() — use print()"
    );
    assert_eq!(
        message(i.ic(&vec![Expr::Int(2)], 100).err().unwrap()),
        "R: ic(): model 'model' has no log-likelihood available for ic() — use print()"
    );
    assert_eq!(message(i.ic(&vec![v("nope")], 100).err().unwrap()), "R: undefined variable 'nope'");
}

#[test]
fn bootstrap_targets_options_and_labels() {
    let frames = vec!["d".to_string()];
    let args = vec![v("ols"), s("y ~ x"), v("d")];
    let opts = vec![
        ("n".to_string(), Expr::Int(50)),
        ("cov".to_string(), s("HC1")),
        ("alpha".to_string(), Expr::Int(1)),
        ("weights".to_string(), v("w")),
    ];
    let t = Interpreter::bootstrap_generic(&args, &opts, &frames).ok().unwrap();
    assert_eq!((t.estimator.as_str(), t.df.as_str()), ("ols", "d"));
    assert_eq!(t.kept, vec![1, 3]);
    assert_eq!(
        message(Interpreter::bootstrap_generic(&vec![Expr::Int(1), s("f"), v("d")], &opts, &frames).err().unwrap()),
        "T: bootstrap: first argument must be estimator name (ols, logit, ...)"
    );
    assert_eq!(
        message(Interpreter::bootstrap_generic(&vec![s("ols"), s("f"), s("d")], &opts, &frames).err().unwrap()),
        "T: bootstrap: third argument must be DataFrame name"
    );
    assert_eq!(
        message(Interpreter::bootstrap_generic(&vec![s("ols"), s("f"), v("e")], &opts, &frames).err().unwrap()),
        "R: 'e' is not a DataFrame"
    );
    assert!(bootstrap_converged(10, 200).is_ok());
    assert_eq!(
        message(bootstrap_converged(9, 200).err().unwrap()),
        "R: bootstrap: only 9/200 replications converged"
    );
    let names = vec!["const".to_string(), "x".to_string()];
    assert_eq!(coef_label(&names, 1), "x");
    assert_eq!(coef_label(&names, 12), "x12");
}

#[test]
fn pairs_bootstrap_takes_ols_names() {
    let mut i = Interpreter::new();
    let names = vec!["const".to_string(), "educ".to_string()];
    i.env.declare(&"m".to_string(), model(ModelKind::Ols, Some(names.clone()))).ok().unwrap();
    i.env.declare(&"p".to_string(), model(ModelKind::Poisson, Some(names.clone()))).ok().unwrap();
    assert_eq!(i.bootstrap_pairs(&vec![v("m")], 100).ok().unwrap(), names);
    assert_eq!(
        message(i.bootstrap_pairs(&vec![v("p")], 100).err().unwrap()),
        "R: bootse(model) supports OLS. For others: bootstrap(estimator, formula, df, n=1000)"
    );
    assert_eq!(
        message(i.bootstrap_pairs(&vec![], 100).err().unwrap()),
        "R: bootstrap(estimator, formula, df, n=1000) or bootse(model, n=1000)"
    );
}

#[test]
fn panel_tests_read_xtset_declarations() {
    let mut i = Interpreter::new();
    let frames = vec!["d".to_string(), "ts".to_string()];
    i.xtset(&vec![v("d"), v("firm"), v("year")], &frames).ok().unwrap();
    i.xtset(&vec![v("ts"), v("t")], &frames).ok().unwrap();
    let args = vec![v("d"), s("y ~ x")];
    let t = i.wooldridge(&args, &vec![], &frames, Ok(())).ok().unwrap();
    assert_eq!((t.df.as_str(), t.id.as_str()), ("d", "firm"));
    assert_eq!(t.time, Some("year".to_string()));
    let opts = vec![("id".to_string(), Value::Str("worker".to_string()))];
    let t = i.abtest(&args, &opts, &frames, Ok(())).ok().unwrap();
    assert_eq!(t.id, "worker");
    let t = i.eval_mundlak(&args, &vec![], &frames, Ok(())).ok().unwrap();
    assert!(t.time.is_none());
    let ts = vec![v("ts"), s("y ~ x")];
    assert_eq!(
        message(i.abtest(&ts, &vec![], &frames, Ok(())).err().unwrap()),
        "R: abtest requires time= or xtset(ts, id, time)"
    );
    assert_eq!(i.eval_pesaran(&ts, &vec![], &frames, Ok(())).ok().unwrap().id, "t");
    let bad = Err(HayashiError::Runtime("bad formula".to_string()));
    assert_eq!(message(i.wooldridge(&args, &vec![], &frames, bad).err().unwrap()), "R: bad formula");
    assert_eq!(
        message(i.wooldridge(&vec![v("d")], &vec![], &frames, Ok(())).err().unwrap()),
        "R: wooldridge(df, y~x, id=\"entity\", time=\"time\")"
    );
    let fresh = Interpreter::new();
    assert_eq!(
        message(fresh.eval_mundlak(&args, &vec![], &frames, Ok(())).err().unwrap()),
        "R: mundlak requires id= or xtset(d, id, time)"
    );
}

#[test]
fn penalized_regressions_check_frame_and_limits() {
    let frames = vec!["d".to_string()];
    let args = vec![s("y ~ x"), v("d")];
    let opts = vec![("max_iter".to_string(), Value::Int(500))];
    let p = Interpreter::lasso(&args, &opts, &frames, Ok(())).ok().unwrap();
    assert_eq!((p.df.as_str(), p.max_iter), ("d", Some(500)));
    assert_eq!(Interpreter::elasticnet(&args, &vec![], &frames, Ok(())).ok().unwrap().max_iter, Some(10000));
    assert_eq!(Interpreter::ridge(&args, &opts, &frames, Ok(())).ok().unwrap().max_iter, None);
    assert_eq!(
        message(Interpreter::ridge(&vec![s("y ~ x")], &opts, &frames, Ok(())).err().unwrap()),
        "R: ridge(formula, df, alpha=1.0)"
    );
    assert_eq!(
        message(Interpreter::elasticnet(&vec![s("y ~ x"), s("d")], &opts, &frames, Ok(())).err().unwrap()),
        "T: elasticnet: second argument must be DataFrame"
    );
    let bad = Err(HayashiError::Type("formula expected".to_string()));
    assert_eq!(message(Interpreter::lasso(&vec![Expr::Int(1), s("d")], &opts, &frames, bad).err().unwrap()), "T: formula expected");
    assert_eq!(
        message(Interpreter::lasso(&vec![s("y ~ x"), v("q")], &opts, &frames, Ok(())).err().unwrap()),
        "R: 'q' is not a DataFrame"
    );
    let regs = vec!["educ".to_string(), "exper".to_string()];
    assert_eq!(display_names(true, &regs), vec!["const".to_string(), "educ".to_string(), "exper".to_string()]);
    assert_eq!(display_names(false, &regs), regs);
}

#[test]
fn model_fields_route_by_family() {
    let mut i = Interpreter::new();
    let names = vec!["const".to_string(), "x".to_string()];
    i.env.declare(&"m".to_string(), model(ModelKind::Ols, Some(names))).ok().unwrap();
    i.env.declare(&"b".to_string(), model(ModelKind::Binary, None)).ok().unwrap();
    i.env.declare(&"g".to_string(), model(ModelKind::Garch, None)).ok().unwrap();
    match i.eval_field(&v("m"), "variable_names", 100).ok().unwrap() {
        FieldAccess::Value(Value::List(items)) => {
            assert_eq!(items.len(), 2);
            assert!(matches!(&items[1], Value::Str(t) if t == "x"));
        }
        _ => panic!("expected the names"),
    }
    match i.eval_field(&v("m"), "se", 100).ok().unwrap() {
        FieldAccess::Ols(k) => {
            assert!(k == OlsField::StdErrors);
            assert_eq!(table_column(k), Some("std_err".to_string()));
        }
        _ => panic!("expected a model field"),
    }
    assert!(matches!(i.eval_field(&v("m"), "n_obs", 100).ok().unwrap(), FieldAccess::Ols(OlsField::NObs)));
    assert!(matches!(i.eval_field(&v("b"), "summary", 100).ok().unwrap(), FieldAccess::Summary));
    assert_eq!(message(i.eval_field(&v("m"), "beta", 100).err().unwrap()), "R: OLS result has no field 'beta'");
    assert_eq!(message(i.eval_field(&v("b"), "params", 100).err().unwrap()), "R: unknown method 'params'");
    assert_eq!(message(i.eval_field(&v("g"), "summary", 100).err().unwrap()), "R: unknown method 'summary'");
    assert_eq!(message(i.eval_field(&Expr::Int(1), "x", 100).err().unwrap()), "R: unknown method 'x'");
}

#[test]
fn multiple_test_methods_by_name() {
    let m = |t: &str| vec![("method".to_string(), Value::Str(t.to_string()))];
    assert!(multipletests_method(&vec![]).ok().unwrap() == Correction::Bonferroni);
    assert!(multipletests_method(&m("Holm")).ok().unwrap() == Correction::HolmBonferroni);
    assert!(multipletests_method(&m("FDR_BH")).ok().unwrap() == Correction::BenjaminiHochberg);
    assert!(multipletests_method(&m("by")).ok().unwrap() == Correction::BenjaminiYekutieli);
    assert_eq!(
        message(multipletests_method(&m("Tukey")).err().unwrap()),
        "R: unknown method: 'tukey' — use bonferroni, sidak, holm, bh, by"
    );
}

#[test]
fn series_tests_name_frame_and_series() {
    let frames = vec!["ts".to_string()];
    let t = Interpreter::adf(&vec![v("ts"), s("gdp")], &frames).ok().unwrap();
    assert_eq!((t.df.as_str(), t.vars.clone()), ("ts", vec!["gdp".to_string()]));
    let t = Interpreter::granger(&vec![v("ts"), v("y"), s("x")], &frames).ok().unwrap();
    assert_eq!(t.vars, vec!["y".to_string(), "x".to_string()]);
    assert_eq!(message(Interpreter::kpss(&vec![v("ts")], &frames).err().unwrap()), "R: kpss(df, var, regression=c|ct, lags=N)");
    assert_eq!(message(Interpreter::pp(&vec![s("ts"), v("y")], &frames).err().unwrap()), "T: pp: first argument must be a DataFrame");
    assert_eq!(message(Interpreter::za(&vec![v("x"), v("y")], &frames).err().unwrap()), "R: 'x' is not a DataFrame");
    assert_eq!(
        message(Interpreter::hpfilter(&vec![v("ts"), Expr::Int(1)], &frames).err().unwrap()),
        "T: hpfilter: second argument must be a variable name"
    );
    assert_eq!(
        message(Interpreter::engle_granger(&vec![v("ts"), v("y"), Expr::Nil], &frames).err().unwrap()),
        "T: engle_granger: third argument must be variable name"
    );
    assert_eq!(message(Interpreter::granger(&vec![v("ts"), v("y")], &frames).err().unwrap()), "R: granger(df, y, x, lags=N)");
    assert_eq!(
        message(Interpreter::sktest(&vec![Expr::Int(0), v("y")], &frames).err().unwrap()),
        "T: first argument must be a DataFrame"
    );
    assert!(Interpreter::cffilter(&vec![v("ts"), v("y")], &frames).is_ok());
    assert!(Interpreter::bkfilter(&vec![v("ts"), v("y")], &frames).is_ok());
    let opts = vec![
        ("lags".to_string(), Value::Int(3)),
        ("regression".to_string(), Value::Str("ct".to_string())),
        ("drift".to_string(), Value::Bool(true)),
    ];
    assert_eq!(lags_option(&opts), Some(3));
    assert_eq!(lags_option(&vec![]), None);
    assert_eq!(int_option(&opts, "k", 12), 12);
    assert_eq!(int_option(&opts, "lags", 4), 3);
    assert_eq!(text_option(&opts, "regression", "c"), "ct");
    assert_eq!(text_option(&vec![], "regression", "c"), "c");
    assert!(flag_option(&opts, "drift") && !flag_option(&vec![], "drift"));
}

#[test]
fn ols_diagnostics_take_an_ols_model() {
    let mut i = Interpreter::new();
    i.env.declare(&"m".to_string(), model(ModelKind::Ols, None)).ok().unwrap();
    i.env.declare(&"p".to_string(), model(ModelKind::Poisson, None)).ok().unwrap();
    let vif = ols_diagnostic("vif").unwrap();
    assert!(vif == OlsDiagnostic::Vif && ols_diagnostic("ols").is_none());
    assert!(i.ols_model(vif, &vec![v("m")], 100).is_ok());
    assert_eq!(message(i.ols_model(vif, &vec![v("p")], 100).err().unwrap()), "T: vif() only supports OLS models");
    assert_eq!(message(i.ols_model(vif, &vec![], 100).err().unwrap()), "R: vif() requires an OLS model");
    let gq = ols_diagnostic("gqtest").unwrap();
    assert_eq!(message(i.ols_model(gq, &vec![], 100).err().unwrap()), "R: gqtest(model, split=0.2)");
    assert_eq!(message(i.ols_model(gq, &vec![Expr::Int(1)], 100).err().unwrap()), "T: gqtest(): only supports OLS models");
    assert_eq!(reset_power(&vec![("power".to_string(), Value::Int(1))]), 2);
    assert_eq!(reset_power(&vec![("power".to_string(), Value::Int(4))]), 4);
    assert_eq!(reset_power(&vec![]), 3);
}

#[test]
fn proportion_tests_read_integer_counts() {
    let mut i = Interpreter::new();
    i.env.declare(&"n".to_string(), Value::Int(40)).ok().unwrap();
    let t = count_test("proptest").unwrap();
    assert!(t == CountTest::Proptest && count_test("ttest").is_none());
    assert_eq!(i.eval_counts(t, &vec![Expr::Int(12), v("n")], 100).ok().unwrap(), vec![12, 40]);
    assert_eq!(message(i.eval_counts(t, &vec![Expr::Int(12)], 100).err().unwrap()), "R: proptest(count, n, mu=0.5)");
    assert_eq!(message(i.eval_counts(t, &vec![s("a"), v("n")], 100).err().unwrap()), "T: count must be integer");
    assert_eq!(message(i.eval_counts(t, &vec![Expr::Int(1), s("b")], 100).err().unwrap()), "T: n must be integer");
    let chi = count_test("chisq2x2").unwrap();
    let cells = vec![Expr::Int(1), Expr::Int(2), Expr::Int(3), Expr::Int(4)];
    assert_eq!(i.eval_counts(chi, &cells, 100).ok().unwrap(), vec![1, 2, 3, 4]);
    let bad = vec![Expr::Int(1), Expr::Int(2), Expr::Bool(true), v("undefined")];
    assert_eq!(message(i.eval_counts(chi, &bad, 100).err().unwrap()), "T: table cells must be integers");
    let two = count_test("proptest2").unwrap();
    assert_eq!(
        message(i.eval_counts(two, &vec![Expr::Int(1), Expr::Int(2), Expr::Int(3), Expr::Nil], 100).err().unwrap()),
        "T: argumentos de proptest2() devem ser inteiros"
    );
}

#[test]
fn decompositions_and_seasonal_periods() {
    let frames = vec!["ts".to_string()];
    assert!(Interpreter::decompose(&vec![v("ts"), v("sales")], &frames).is_ok());
    assert_eq!(message(Interpreter::stl(&vec![v("ts")], &frames).err().unwrap()), "R: stl(df, var, period=12, sw=7, tw=0)");
    assert_eq!(
        message(Interpreter::mstl(&vec![v("ts"), Expr::Int(2)], &frames).err().unwrap()),
        "T: second argument must be a variable name"
    );
    assert_eq!(mstl_periods(&vec![]).ok().unwrap(), vec![7, 365]);
    assert_eq!(mstl_periods(&vec![("periods".to_string(), Value::Int(24))]).ok().unwrap(), vec![24]);
    let list = Value::List(Rc::new(vec![Value::Int(7), Value::Int(30)]));
    assert_eq!(mstl_periods(&vec![("periods".to_string(), list)]).ok().unwrap(), vec![7, 30]);
    let bad = Value::List(Rc::new(vec![Value::Int(7), Value::Str("m".to_string())]));
    assert_eq!(
        message(mstl_periods(&vec![("periods".to_string(), bad)]).err().unwrap()),
        "T: periods= must be a list de inteiros"
    );
}

#[test]
fn likelihood_ratio_takes_two_likelihood_models() {
    let mut i = Interpreter::new();
    i.env.declare(&"r".to_string(), model(ModelKind::Ols, None)).ok().unwrap();
    i.env.declare(&"u".to_string(), model(ModelKind::Arima, None)).ok().unwrap();
    i.env.declare(&"q".to_string(), model(ModelKind::Quantile, None)).ok().unwrap();
    let (a, b) = i.lrtest(&vec![v("r"), v("u")], 100).ok().unwrap();
    assert!(a == ModelKind::Ols && b == ModelKind::Arima);
    assert_eq!(
        message(i.lrtest(&vec![v("r")], 100).err().unwrap()),
        "R: lrtest(m_restricted, m_unrestricted) requires two nested models"
    );
    assert_eq!(
        message(i.lrtest(&vec![v("r"), v("q")], 100).err().unwrap()),
        "R: lrtest: model has no log-likelihood — supports OLS, logit/probit, Poisson, NegBin, Tobit, Ordered, Mixed, ZI, GLM, GARCH, ARIMA"
    );
    assert_eq!(message(i.lrtest(&vec![v("r"), v("zz")], 100).err().unwrap()), "R: undefined variable 'zz'");
}

#[test]
fn akaike_weights_check_each_model() {
    let mut i = Interpreter::new();
    i.env.declare(&"a".to_string(), model(ModelKind::Tobit, None)).ok().unwrap();
    i.env.declare(&"g".to_string(), model(ModelKind::Garch, None)).ok().unwrap();
    let rows = i.akaike_weights(&vec![v("a"), v("a")], 100).ok().unwrap();
    assert_eq!(rows.len(), 2);
    assert!(rows[1].0 == "a" && rows[1].1 == ModelKind::Tobit);
    assert_eq!(message(i.akaike_weights(&vec![v("a"), v("g")], 100).err().unwrap()), "R: akaike_weights: 'g' has no log-likelihood");
    assert_eq!(
        message(i.akaike_weights(&vec![], 100).err().unwrap()),
        "R: akaike_weights(m1, m2, ...) requires at least one model"
    );
}
