//! Verified core of the Hayashi statistical scripting language: values,
//! scalar operators, the expression and statement evaluator, command
//! routing and argument checks, option resolution, the exact integer parts
//! of the rank-based tests and frequency tables, and the text and ordering
//! work on data-frame columns.

// The language: syntax, values, their text, scopes, meaning, evaluator.
pub mod ast;
pub mod value;
pub mod text;
pub mod render;
pub mod binop;
pub mod env;
pub mod semantics;
pub mod ops;
pub mod interp;
pub mod fields;
pub mod parallel;
pub mod laws;

// Commands: routing, options and the arguments of each family.
pub mod dispatch;
pub mod options;
pub mod formula;
pub mod targets;
pub mod panels;
pub mod predict;
pub mod hypotheses;
pub mod load;
pub mod input;
pub mod export;
pub mod gam;
pub mod summaries;
pub mod bootstrap;
pub mod penalized;
pub mod multivariate;
pub mod corrections;
pub mod timeseries;
pub mod residuals;
pub mod proportions;

// Exact computations on data-frame columns.
pub mod ranks;
pub mod tabulate;
pub mod strcol;
pub mod columns;
pub mod sorting;
pub mod charts;
pub mod masks;
