use hayashi::ast::Expr;
use hayashi::dispatch::Route;
use hayashi::export::{ExportPlan, FrameWriter, TableWriter};
use hayashi::hypotheses::{coef_index, trim, TestPlan};
use hayashi::input::exec_input;
use hayashi::interp::Interpreter;
use hayashi::load::{format_of_extension, load_format, LoadFormat};
use hayashi::options::{resolve_cov, resolve_cov_full, BootstrapKind, CovSpec, KeyColumn, KeyFrame};
use hayashi::predict::{predict_plan, PredictQuantity};
use hayashi::targets::{by_column, frame_column, group_test_args, signrank_args, spearman_args, BitestPlan, GroupTest};
use hayashi::dispatch::ols_diagnostics_entries;
use hayashi::columns::{datetime_call, DateFn};
use hayashi::value::{HayashiError, ModelKind, ModelSummary, Value};
use std::rc::Rc;

fn message(e: HayashiError) -> String {
    match e {
        HayashiError::Runtime(m) => format!("R: {m}"),
        HayashiError::Type(m) => format!("T: {m}"),
        _ => "other".to_string(),
    }
}

fn v(n: &str) -> Expr {
    Expr::Var(n.to_string())
}

#[test]
fn routes_name_handlers_and_redirects() {
    match Interpreter::eval_call_estimators_misc("mannwhitney") {
        Some(Route::Handler(h)) => assert_eq!(h, "ranksum"),
        _ => panic!("expected a handler"),
    }
    match Interpreter::eval_call_estimators_panel("bootse") {
        Some(Route::Redirect(t)) => assert_eq!(t, "bootstrap"),
        _ => panic!("expected a redirect"),
    }
    assert!(Interpreter::eval_call_estimators_misc("no_such_command").is_none());
}

#[test]
fn cov_option_names() {
    assert!(matches!(resolve_cov(None), Ok(CovSpec::NonRobust)));
    let robust = Value::Str("robust".to_string());
    assert!(matches!(resolve_cov(Some(&robust)), Ok(CovSpec::HC1)));
    let bad = Value::Str("HC9".to_string());
    assert_eq!(message(resolve_cov(Some(&bad)).err().unwrap()), "T: unknown covariance type 'HC9'");
    assert_eq!(message(resolve_cov(Some(&Value::Int(1))).err().unwrap()), "T: cov= must be a string");
}

#[test]
fn cov_full_clusters_follow_first_appearance() {
    let df = KeyFrame {
        columns: vec![
            ("firm".to_string(), KeyColumn::Str(vec!["b".into(), "a".into(), "b".into(), "c".into()])),
            ("year".to_string(), KeyColumn::Int(vec![2001, 2000, 2000, 2001])),
        ],
    };
    let opts = vec![("cluster".to_string(), Value::Str("firm".to_string()))];
    match resolve_cov_full(&opts, &df, 3) {
        Ok(CovSpec::Clustered(ids)) => assert_eq!(ids, vec![0, 1, 0, 2]),
        _ => panic!("expected clusters"),
    }
    let opts = vec![
        ("cluster".to_string(), Value::Str("firm".to_string())),
        ("cluster2".to_string(), Value::Str("year".to_string())),
    ];
    match resolve_cov_full(&opts, &df, 3) {
        Ok(CovSpec::ClusteredTwoWay(a, b)) => {
            assert_eq!(a, vec![0, 1, 0, 2]);
            assert_eq!(b, vec![0, 1, 1, 0]);
        }
        _ => panic!("expected two-way clusters"),
    }
    let opts = vec![("cluster".to_string(), Value::Str("state".to_string()))];
    assert_eq!(message(resolve_cov_full(&opts, &df, 3).err().unwrap()), "R: cluster column 'state' not found");
    let opts = vec![("nw".to_string(), Value::Str("7".to_string()))];
    assert!(matches!(resolve_cov_full(&opts, &df, 3), Ok(CovSpec::NeweyWest(7))));
    let opts = vec![("nw".to_string(), Value::Str("auto".to_string()))];
    assert!(matches!(resolve_cov_full(&opts, &df, 3), Ok(CovSpec::NeweyWest(3))));
}

#[test]
fn bootstrap_reps_and_kind() {
    let opts = vec![("reps".to_string(), Value::Int(50))];
    assert_eq!(Interpreter::bootstrap_reps(&opts), 50);
    let opts = vec![("reps".to_string(), Value::Int(50)), ("n".to_string(), Value::Int(20))];
    assert_eq!(Interpreter::bootstrap_reps(&opts), 20);
    assert_eq!(Interpreter::bootstrap_reps(&vec![]), 1000);
    let (k, n) = Interpreter::bootstrap(&vec![v("a"), v("b"), v("c")], &vec![]);
    assert!(k == BootstrapKind::Generic && n == 1000);
    let (k, _) = Interpreter::bootstrap(&vec![v("a")], &vec![]);
    assert!(k == BootstrapKind::Pairs);
}

#[test]
fn column_test_arguments_in_order() {
    let frames = vec!["df".to_string()];
    let usage = "ranksum(df, var, by=group_col)";
    assert_eq!(message(frame_column(&vec![v("df")], &frames, usage).err().unwrap()), format!("R: {usage}"));
    assert_eq!(
        message(frame_column(&vec![Expr::Int(1), v("y")], &frames, usage).err().unwrap()),
        "T: first argument must be a DataFrame"
    );
    assert_eq!(
        message(frame_column(&vec![v("other"), Expr::Int(1)], &frames, usage).err().unwrap()),
        "R: 'other' is not a DataFrame"
    );
    assert_eq!(
        message(frame_column(&vec![v("df"), Expr::Int(1)], &frames, usage).err().unwrap()),
        "T: second argument must be a variable name"
    );
    let (df, col) = frame_column(&vec![v("df"), Expr::Str("y".to_string())], &frames, usage).ok().unwrap();
    assert_eq!((df.as_str(), col.as_str()), ("df", "y"));
    let opts = vec![("by".to_string(), Value::Str("g".to_string()))];
    assert_eq!(by_column(&opts, "ranksum requer by=coluna_grupo").ok().unwrap(), "g");
    assert_eq!(message(by_column(&vec![], "ranksum requer by=coluna_grupo").err().unwrap()), "R: ranksum requer by=coluna_grupo");
    assert_eq!(
        message(spearman_args(&vec![v("df"), v("x"), Expr::Int(2)], &frames).err().unwrap()),
        "T: third argument must be a variable name"
    );
}

#[test]
fn xtset_declares_and_replaces() {
    let mut i = Interpreter::new();
    let frames = vec!["df".to_string()];
    let x = i.xtset(&vec![v("df"), v("id"), v("year")], &frames).ok().unwrap();
    assert!(x.is_panel);
    assert_eq!(x.display, "xtset df  id=id  time=year\n");
    assert_eq!(x.summary, "xtset panel: df id=id time=year");
    let x = i.xtset(&vec![v("df"), Expr::Str("t".to_string())], &frames).ok().unwrap();
    assert!(!x.is_panel);
    assert_eq!(x.display, "xtset df  (time series: t=t)\n");
    assert_eq!(i.panel_info.len(), 1);
    assert_eq!(i.panel_info[0], ("df".to_string(), "t".to_string(), "".to_string()));
    assert_eq!(message(i.xtset(&vec![v("zz"), v("id")], &frames).err().unwrap()), "R: 'zz' is not a DataFrame");
}

fn model(kind: ModelKind, parts: usize) -> Value {
    Value::Model(Rc::new(ModelSummary {
        kind,
        variable_names: Some(vec!["x1".to_string(), "x2".to_string()]),
        coef_names: vec![],
        parts,
    }))
}

#[test]
fn predict_indices_are_one_based() {
    assert_eq!(
        message(predict_plan(ModelKind::Dfm, 2, "f0").err().unwrap()),
        "R: predict dfm: kind 'f0' unknown — use: f1, f2, ... (1-based index of latent factor)"
    );
    assert_eq!(
        message(predict_plan(ModelKind::Dfm, 2, "fitted").err().unwrap()),
        "R: predict dfm: kind 'fitted' unknown — use: f1, f2, ... (1-based index of latent factor)"
    );
    assert_eq!(
        message(predict_plan(ModelKind::Dfm, 2, "f3").err().unwrap()),
        "R: predict dfm: factor f3 does not exist — model has 2 factors"
    );
    assert_eq!(
        message(predict_plan(ModelKind::Msar, 2, "regime0").err().unwrap()),
        "R: predict msauto: kind 'regime0' unknown — use: regime, regime1, regime2, ..."
    );
    assert!(predict_plan(ModelKind::Msar, 2, "regime2").ok().unwrap() == PredictQuantity::RegimeProbability(1));
    assert_eq!(
        message(predict_plan(ModelKind::Mstl, 2, "seasonal0").err().unwrap()),
        "R: predict mstl: kind 'seasonal0' unknown — use: trend, resid, seasonal, seasonal1, seasonal2, ..."
    );
}

#[test]
fn predict_kinds_per_family() {
    assert!(predict_plan(ModelKind::Ols, 0, "resid").ok().unwrap() == PredictQuantity::Residuals);
    assert!(predict_plan(ModelKind::Ordered, 4, "pr").ok().unwrap() == PredictQuantity::CategoryProbability(3));
    assert!(predict_plan(ModelKind::Ordered, 4, "pr2").ok().unwrap() == PredictQuantity::CategoryProbability(1));
    assert_eq!(
        message(predict_plan(ModelKind::Ordered, 4, "pr9").err().unwrap()),
        "R: predict Ordered: category 9 out of range 1..4"
    );
    assert!(predict_plan(ModelKind::Pca, 2, "pc2").ok().unwrap() == PredictQuantity::Component(1));
    assert!(predict_plan(ModelKind::Dfm, 2, "f1").ok().unwrap() == PredictQuantity::LatentFactor(0));
    assert!(predict_plan(ModelKind::Dfm, 2, "f2").ok().unwrap() == PredictQuantity::LatentFactor(1));
    assert_eq!(
        message(predict_plan(ModelKind::Dfm, 2, "f5").err().unwrap()),
        "R: predict dfm: factor f5 does not exist — model has 2 factors"
    );
    assert!(predict_plan(ModelKind::Mstl, 2, "seasonal2").ok().unwrap() == PredictQuantity::Seasonal(1));
    assert!(predict_plan(ModelKind::Mstl, 2, "seasonal").ok().unwrap() == PredictQuantity::Seasonal(0));
    assert_eq!(
        message(predict_plan(ModelKind::Iv, 0, "pr").err().unwrap()),
        "R: predict IV: kind 'pr' unknown — use: xb"
    );
    assert_eq!(message(predict_plan(ModelKind::Garch, 0, "xb").err().unwrap()), "T: predict: model type not supported");
}

#[test]
fn exec_predict_checks_frame_and_kind() {
    let mut i = Interpreter::new();
    let m = model(ModelKind::Glm, 0);
    i.env.declare(&"m".to_string(), m).ok().unwrap();
    let frames = vec!["df".to_string()];
    let q = i.exec_predict("df", &v("m"), &Expr::Str("pearson".to_string()), &frames, 100).ok().unwrap();
    assert!(q == PredictQuantity::PearsonResiduals);
    assert_eq!(
        message(i.exec_predict("df", &v("m"), &Expr::Int(1), &frames, 100).err().unwrap()),
        "T: predict kind must be a string, got 1"
    );
    assert_eq!(
        message(i.exec_predict("nodf", &v("m"), &Expr::Int(1), &frames, 100).err().unwrap()),
        "R: 'nodf' is not a DataFrame"
    );
}

#[test]
fn test_command_reads_hypotheses() {
    let mut i = Interpreter::new();
    i.env.declare(&"m".to_string(), model(ModelKind::Ols, 0)).ok().unwrap();
    match i.test(&vec![v("m"), Expr::Str(" x1 = 0.5 ".to_string())], 100) {
        Ok(TestPlan::Restriction { lhs, rhs }) => assert_eq!((lhs.as_str(), rhs.as_str()), ("x1", "0.5")),
        _ => panic!("expected a restriction"),
    }
    match i.test(&vec![v("m"), Expr::Str("x1".to_string()), Expr::Str("x2".to_string())], 100) {
        Ok(TestPlan::Joint { names }) => assert_eq!(names, vec!["x1".to_string(), "x2".to_string()]),
        _ => panic!("expected a joint test"),
    }
    assert!(matches!(i.test(&vec![v("m"), Expr::Str("white".to_string())], 100), Ok(TestPlan::White)));
    assert_eq!(message(i.test(&vec![v("m")], 100).err().unwrap()), "R: test(model, name) requires 2 arguments");
    assert_eq!(
        message(i.test(&vec![v("m"), Expr::Int(3)], 100).err().unwrap()),
        "T: test name must be a string (e.g. \"white\"), got 3"
    );
    i.env.declare(&"g".to_string(), model(ModelKind::Garch, 0)).ok().unwrap();
    assert_eq!(
        message(i.test(&vec![v("g"), Expr::Str("dw".to_string())], 100).err().unwrap()),
        "T: test() currently supports OLS models only"
    );
}

#[test]
fn trim_and_coefficient_lookup() {
    assert_eq!(trim("  a b \t\n"), "a b");
    assert_eq!(trim("\u{3000}x\u{a0}"), "x");
    assert_eq!(trim("   "), "");
    let names = vec!["x1".to_string(), "x2".to_string()];
    assert_eq!(coef_index(&names, 3, " x2 ").ok().unwrap(), 1);
    assert_eq!(coef_index(&names, 3, "_cons").ok().unwrap(), 2);
    assert_eq!(message(coef_index(&names, 3, "z").err().unwrap()), "R: variable 'z' not found in model");
}

#[test]
fn load_picks_reader_by_extension() {
    assert!(format_of_extension("dta", &None).ok().unwrap() == LoadFormat::Stata);
    assert!(format_of_extension("csv", &Some("tab".to_string())).ok().unwrap() == LoadFormat::Delimited(9));
    assert!(format_of_extension("txt", &Some(";".to_string())).ok().unwrap() == LoadFormat::Delimited(b';'));
    assert!(format_of_extension("txt", &None).ok().unwrap() == LoadFormat::Csv);
    assert_eq!(
        message(format_of_extension("csv", &Some("ab".to_string())).err().unwrap()),
        "R: load: sep must be a single character, got 'ab'"
    );
    // the extension is lower-cased before it is read
    assert!(load_format("data/Survey.XLSX", &None).ok().unwrap() == LoadFormat::Excel);
    assert!(load_format("archive.tar.PQ", &None).ok().unwrap() == LoadFormat::Parquet);
    assert!(load_format("noext", &None).ok().unwrap() == LoadFormat::Csv);
}

#[test]
fn exec_load_reads_options() {
    let mut i = Interpreter::new();
    let opts = vec![("sheet".to_string(), Expr::Int(2)), ("sep".to_string(), Expr::Str(";".to_string()))];
    let (r, fmt) = i.exec_load(&Expr::Str("x.xlsx".to_string()), &opts, 100).ok().unwrap();
    assert_eq!(r.path, "x.xlsx");
    assert_eq!(r.sheet, Some("2".to_string()));
    assert_eq!(r.sep, Some(";".to_string()));
    assert!(fmt == LoadFormat::Excel);
    let (_, fmt) = i.exec_load(&Expr::Str("x.txt".to_string()), &opts, 100).ok().unwrap();
    assert!(fmt == LoadFormat::Delimited(b';'));
    let long_sep = vec![("sep".to_string(), Expr::Str(";;".to_string()))];
    assert_eq!(
        message(i.exec_load(&Expr::Str("x.csv".to_string()), &long_sep, 100).err().unwrap()),
        "R: load: sep must be a single character, got ';;'"
    );
    let (_, fmt) = i.exec_load(&Expr::Str("x.TSV".to_string()), &long_sep, 100).ok().unwrap();
    assert!(fmt == LoadFormat::Delimited(9));
    let bad = vec![("color".to_string(), Expr::Int(1))];
    assert_eq!(
        message(i.exec_load(&Expr::Str("x.csv".to_string()), &bad, 100).err().unwrap()),
        "R: load: unknown option 'color' — use: sheet, table, query, sep"
    );
    assert_eq!(
        message(i.exec_load(&Expr::Int(3), &vec![], 100).err().unwrap()),
        "T: load requires a string path"
    );
}

#[test]
fn input_columns_keep_first_place_of_a_name() {
    let h = vec!["a".to_string(), "b".to_string(), "a".to_string()];
    let (cols, line) = exec_input("d", &h, &vec![3, 3]).ok().unwrap();
    assert_eq!(cols, vec![("a".to_string(), 2), ("b".to_string(), 1)]);
    assert_eq!(line, "input → d (2 obs, 3 vars: a, b, a)");
    assert_eq!(
        message(exec_input("d", &h, &vec![3, 2]).err().unwrap()),
        "R: input: row 2 has 2 values, expected 3 (a, b, a)"
    );
    assert_eq!(message(exec_input("d", &vec![], &vec![1]).err().unwrap()), "R: input: no variables in header");
    assert_eq!(message(exec_input("d", &h, &vec![]).err().unwrap()), "R: input: no data rows");
}

#[test]
fn diagnostics_pick_the_model_family() {
    let mut i = Interpreter::new();
    i.env.declare(&"m".to_string(), model(ModelKind::Arima, 0)).ok().unwrap();
    assert!(i.diagnostics(&vec![v("m")], 100).ok().unwrap() == ModelKind::Arima);
    assert_eq!(
        message(i.diagnostics(&vec![], 100).err().unwrap()),
        "R: diagnostics() requires a model (OLS, GARCH, or ARIMA)"
    );
    assert_eq!(
        message(i.diagnostics(&vec![Expr::Int(1)], 100).err().unwrap()),
        "T: diagnostics() suporta OLS, GARCH, ARIMA, VAR, VECM, IV, FE e RE"
    );
}

#[test]
fn export_picks_writer_by_value_and_format() {
    let mut i = Interpreter::new();
    i.env.declare(&"m".to_string(), model(ModelKind::Ols, 0)).ok().unwrap();
    i.env.declare(&"g".to_string(), model(ModelKind::Garch, 0)).ok().unwrap();
    let frames = vec!["df".to_string()];
    let st = |t: &str| Expr::Str(t.to_string());
    match i.exec_export(&v("df"), &st("AUTO"), &st("out/data.Parquet"), &frames, 100) {
        Ok(ExportPlan::Frame(w)) => assert!(w == FrameWriter::Parquet),
        _ => panic!("expected a frame writer"),
    }
    match i.exec_export(&v("m"), &st("TeX"), &st("t.txt"), &frames, 100) {
        Ok(ExportPlan::OlsTable(w)) => assert!(w == TableWriter::Latex),
        _ => panic!("expected a table writer"),
    }
    match i.exec_export(&v("g"), &st("txt"), &st("g.txt"), &frames, 100) {
        Ok(ExportPlan::Text { what }) => assert_eq!(what, "results"),
        _ => panic!("expected text"),
    }
    assert_eq!(
        message(i.exec_export(&v("m"), &st("txt"), &st("m.txt"), &frames, 100).err().unwrap()),
        "R: unsupported export format 'txt' for this value type\nDataFrame → csv, json, tsv, xlsx, sqlite\nOLS       → csv, latex, html\nModels    → txt"
    );
    assert_eq!(
        message(i.exec_export(&v("m"), &Expr::Int(1), &st("m.txt"), &frames, 100).err().unwrap()),
        "T: export format must be a string, got 1"
    );
    assert_eq!(
        message(i.exec_export(&v("df"), &st("csv"), &Expr::Int(1), &frames, 100).err().unwrap()),
        "T: export path must be a string"
    );
}

#[test]
fn gam_options_and_family() {
    let smooth = Value::List(Rc::new(vec![Value::Str("age".to_string()), Value::Str("inc".to_string())]));
    let opts = vec![("smooth".to_string(), smooth), ("degree".to_string(), Value::Int(2))];
    let (names, df, deg) = hayashi::gam::parse_gam_options(&opts, 0).ok().unwrap();
    assert_eq!(names, vec!["age".to_string(), "inc".to_string()]);
    assert_eq!((df, deg), (10, 2));
    let bad = vec![("smooth".to_string(), Value::List(Rc::new(vec![Value::Int(1)])))];
    assert_eq!(
        message(hayashi::gam::parse_gam_options(&bad, 3).err().unwrap()),
        "T: smooth= must be string ou lista de strings"
    );
    assert_eq!(
        message(hayashi::gam::parse_gam_options(&vec![], 0).err().unwrap()),
        "R: gam: specify linear terms (formula) and/or smooth="
    );
    let opts = vec![("family".to_string(), Value::Str("negbin".to_string())), ("link".to_string(), Value::Str("log".to_string()))];
    let (f, l) = Interpreter::parse_gam_family_link(&opts).ok().unwrap();
    assert!(f == hayashi::gam::GamFamily::NegativeBinomial && l == hayashi::gam::GamLink::Log);
    let opts = vec![("link".to_string(), Value::Str("cauchy".to_string()))];
    assert_eq!(
        message(Interpreter::parse_gam_family_link(&opts).err().unwrap()),
        "R: gam: link='cauchy' unknown — use: identity, log, logit, probit, inverse, cloglog"
    );
}

#[test]
fn group_tests_read_frame_column_and_by() {
    let frames = vec!["df".to_string()];
    let by = vec![("by".to_string(), Value::Str("g".to_string()))];
    let (df, y, g) = group_test_args(GroupTest::RankSum, &vec![v("df"), v("y")], &by, &frames).ok().unwrap();
    assert_eq!((df.as_str(), y.as_str(), g.as_str()), ("df", "y", "g"));
    let not_string = vec![("by".to_string(), Value::Int(1))];
    assert_eq!(
        message(group_test_args(GroupTest::RankSum, &vec![v("df"), v("y")], &not_string, &frames).err().unwrap()),
        "R: ranksum requer by=coluna_grupo"
    );
    assert_eq!(
        message(group_test_args(GroupTest::Kruskal, &vec![v("df"), v("y")], &vec![], &frames).err().unwrap()),
        "R: kruskal requer by=coluna_grupo"
    );
    assert_eq!(
        message(group_test_args(GroupTest::Kruskal, &vec![v("df")], &by, &frames).err().unwrap()),
        "R: kruskal(df, var, by=group_col)"
    );
    assert_eq!(
        message(group_test_args(GroupTest::RankSum, &vec![v("other"), v("y")], &by, &frames).err().unwrap()),
        "R: 'other' is not a DataFrame"
    );
}

#[test]
fn signrank_reads_frame_and_column() {
    let frames = vec!["df".to_string()];
    let (df, d) = signrank_args(&vec![v("df"), v("d")], &frames).ok().unwrap();
    assert_eq!((df.as_str(), d.as_str()), ("df", "d"));
    assert_eq!(
        message(signrank_args(&vec![v("df")], &frames).err().unwrap()),
        "R: signrank(df, var, mu0=0)  or  signrank(df, d)  where d = x - y"
    );
}

#[test]
fn bitest_counts_and_frame_forms() {
    let frames = vec!["df".to_string()];
    let mut i = Interpreter::new();
    match i.bitest_plan(&vec![Expr::Int(6), Expr::Int(10)], &frames, 100) {
        Ok(BitestPlan::Counts { successes, trials }) => assert_eq!((successes, trials), (6, 10)),
        _ => panic!("expected the counts form"),
    }
    match i.bitest_plan(&vec![v("df"), v("y")], &frames, 100) {
        Ok(BitestPlan::Frame { df, var }) => assert_eq!((df.as_str(), var.as_str()), ("df", "y")),
        _ => panic!("expected the frame form"),
    }
    assert_eq!(
        message(i.bitest_plan(&vec![Expr::Int(6)], &frames, 100).err().unwrap()),
        "R: bitest(successes, n, mu=0.5)  ou  bitest(df, var, mu=0)"
    );
    assert_eq!(
        message(i.bitest_plan(&vec![Expr::Int(6), Expr::Str("x".to_string())], &frames, 100).err().unwrap()),
        "T: segundo arg: n (inteiro)"
    );
    assert_eq!(
        message(i.bitest_plan(&vec![Expr::Str("a".to_string()), Expr::Int(1)], &frames, 100).err().unwrap()),
        "T: bitest: first argument must be inteiro (count) ou DataFrame"
    );
}

#[test]
fn ols_diagnostics_dictionary_head() {
    let m = ModelSummary {
        kind: ModelKind::Ols,
        variable_names: None,
        coef_names: vec!["const".to_string(), "x".to_string()],
        parts: 0,
    };
    let (head, tests) = ols_diagnostics_entries(50, &m);
    assert_eq!(head.len(), 3);
    assert_eq!(head[0].0, "model");
    assert!(matches!(&head[0].1, Value::Str(s) if s == "OLS"));
    assert_eq!(head[1].0, "n");
    assert!(matches!(head[1].1, Value::Int(50)));
    assert_eq!(head[2].0, "k");
    assert!(matches!(head[2].1, Value::Int(2)));
    assert_eq!(tests, vec!["jarque_bera", "durbin_watson", "breusch_godfrey", "white", "reset"]);
}

#[test]
fn datetime_calls_name_a_column() {
    match datetime_call("year", &vec![v("t")]) {
        Some(Ok((f, c))) => assert!(f == DateFn::Year && c == "t"),
        _ => panic!("expected a date function"),
    }
    match datetime_call("date", &vec![v("d")]) {
        Some(Ok((f, c))) => assert!(f == DateFn::Date && c == "d"),
        _ => panic!("expected a date function"),
    }
    assert!(datetime_call("year", &vec![v("t"), v("u")]).is_none());
    assert!(datetime_call("log", &vec![v("t")]).is_none());
    match datetime_call("dow", &vec![Expr::Int(3)]) {
        Some(Err(e)) => assert_eq!(message(e), "R: dow() requires a column name"),
        _ => panic!("expected an error"),
    }
}
