# hayashi

The verified core of Hayashi, a scripting language for econometrics. Every
function under `src/` carries a contract that Verus proves: the evaluator of
the language's exact fragment (integers, booleans, strings, lists,
dictionaries, closures and control flow), the variable scopes, the option
and argument handling of the estimators, the dispatch of commands to their
handlers, the exact integer parts of the rank-based tests and frequency
tables, and the text and ordering work on data-frame columns.

Floating-point values never enter the library. An operation whose result is
a float (division, powers) is handed back unevaluated as a `FloatOp`; rank
tests return their statistics doubled, so that mid-ranks of ties stay
integers; and data frames stay with the caller, which passes the names bound
to one and the columns as integer keys or strings. Commands whose results
are floating point return a plan (the frame, columns, options and models
they work on) that the caller computes from.

## Layout

- `src/ast.rs`, `src/value.rs`, `src/render.rs`, `src/text.rs`: the syntax
  tree, runtime values with their mathematical views, and their text forms.
- `src/env.rs`: nested scopes with constants.
- `src/semantics.rs`: the meaning of expressions and statements as spec
  functions with an evaluation budget; `src/interp.rs` and `src/ops.rs`
  implement them and prove that they do. `src/fields.rs` resolves fields of
  fitted models, `src/parallel.rs` the settings of `parallel for`.
- `src/binop.rs`: scalar operators, including the exact test for `==` on
  numbers as the language compares them.
- `src/dispatch.rs`, `src/options.rs`, `src/formula.rs`, `src/targets.rs`,
  `src/panels.rs`, `src/predict.rs`, `src/hypotheses.rs`, `src/load.rs`,
  `src/input.rs`, `src/export.rs`, `src/gam.rs`, `src/summaries.rs`,
  `src/bootstrap.rs`, `src/penalized.rs`, `src/multivariate.rs`,
  `src/corrections.rs`, `src/timeseries.rs`, `src/residuals.rs`,
  `src/proportions.rs`: command routing, covariance and bootstrap options,
  formulas and coefficient names, and the arguments of each command family
  (`predict`, `test`, `load`, `input`, `export`, `gam`, `xtsum`, `tabstat`,
  `ic`, `lrtest`, the panel diagnostics and the Hausman test, penalized
  regressions, `johansen`, `cancorr`, `multipletests`, the unit-root and
  cointegration tests, filters and decompositions, the OLS diagnostics, and
  the proportion tests).
- `src/ranks.rs`, `src/tabulate.rs`: mid-ranks with ties, the Mann-Whitney,
  Wilcoxon, Kruskal-Wallis and Spearman rank statistics, and frequency
  tables.
- `src/strcol.rs`, `src/columns.rs`, `src/sorting.rs`, `src/charts.rs`,
  `src/masks.rs`: string functions on columns, the sources of column
  expressions and of lags and leads, the stable order of rows by a text
  column, the counts and bars of text histograms, and the rows that a
  condition keeps or that `replace` rewrites.
- `src/laws.rs` and the `lemma_` functions of the other modules: laws that
  relate several operations (a read gives back the last write, constants and
  scopes protect bindings, `and`/`or` short-circuit, a panel test reads what
  `xtset` declared, sorting keeps every row and is unique, ...).
- `app/`: the unverified layer around the library: conversion to the
  estimation library's types, floating-point statistics and p-values, and
  reading data-frame columns.
- `tests/`: tests of the library on concrete inputs.
