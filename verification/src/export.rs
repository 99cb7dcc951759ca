//! `export value, format, path`: which writer a value and a format select.
//! The format `auto` takes the path's extension; both are compared
//! lower-cased. Writing the file is the caller's work.
use crate::ast::Expr;
use crate::interp::Interpreter;
use crate::load::{extension, lowercase, path_extension, to_lowercase};
use crate::render::{render, render_value};
use crate::semantics::{sem_expr, Flow, IState};
use crate::targets::frame_bound;
use crate::text::str_eq;
use crate::value::{strings_view, ErrV, HayashiError, ModelKind, Val, Value};
use vstd::prelude::*;

verus! {

/// How a data frame is written.
#[derive(PartialEq, Eq, Structural, Clone, Copy, Debug)]
pub enum FrameWriter {
    Csv,
    Json,
    Tsv,
    Excel,
    Sqlite,
    Parquet,
}

/// How a least-squares table is written.
#[derive(PartialEq, Eq, Structural, Clone, Copy, Debug)]
pub enum TableWriter {
    Csv,
    Latex,
    Html,
}

/// What `export` writes.
pub enum ExportPlan {
    Frame(FrameWriter),
    OlsTable(TableWriter),
    /// The printed form of a result, announced as "Exported {what}".
    Text { what: String },
}

/// The abstract form of an export plan.
pub enum ExportPlanV {
    Frame(FrameWriter),
    OlsTable(TableWriter),
    Text { what: Seq<char> },
}

impl View for ExportPlan {
    type V = ExportPlanV;

    open spec fn view(&self) -> ExportPlanV {
        match self {
            ExportPlan::Frame(w) => ExportPlanV::Frame(*w),
            ExportPlan::OlsTable(w) => ExportPlanV::OlsTable(*w),
            ExportPlan::Text { what } => ExportPlanV::Text { what: what@ },
        }
    }
}

/// The error for a format a value cannot be written in.
pub open spec fn unsupported_export(f: Seq<char>) -> ErrV {
    ErrV::Runtime(
        "unsupported export format '"@ + f
            + "' for this value type\nDataFrame → csv, json, tsv, xlsx, sqlite\nOLS       → csv, latex, html\nModels    → txt"@,
    )
}

/// The model families whose printed summary can be exported as text under
/// the general announcement.
pub open spec fn text_family(kind: ModelKind) -> bool {
    !(kind == ModelKind::Ols || kind == ModelKind::Iv || kind == ModelKind::Binary || kind == ModelKind::Panel
        || kind == ModelKind::Re || kind == ModelKind::Other)
}

/// The writer for a data frame in format `f`.
pub open spec fn frame_plan(f: Seq<char>) -> Result<ExportPlanV, ErrV> {
    if f == "csv"@ || f == "delimited"@ {
        Ok(ExportPlanV::Frame(FrameWriter::Csv))
    } else if f == "json"@ {
        Ok(ExportPlanV::Frame(FrameWriter::Json))
    } else if f == "tsv"@ || f == "tab"@ {
        Ok(ExportPlanV::Frame(FrameWriter::Tsv))
    } else if f == "xlsx"@ || f == "xls"@ {
        Ok(ExportPlanV::Frame(FrameWriter::Excel))
    } else if f == "sqlite"@ || f == "sqlite3"@ || f == "db"@ {
        Ok(ExportPlanV::Frame(FrameWriter::Sqlite))
    } else if f == "parquet"@ || f == "pq"@ {
        Ok(ExportPlanV::Frame(FrameWriter::Parquet))
    } else {
        Err(unsupported_export(f))
    }
}

/// The writer for a value in format `f`.
pub open spec fn value_plan(v: Val, f: Seq<char>) -> Result<ExportPlanV, ErrV> {
    let text = f == "txt"@ || f == "text"@;
    match v {
        Val::Model { kind, .. } => if kind == ModelKind::Ols {
            if f == "csv"@ {
                Ok(ExportPlanV::OlsTable(TableWriter::Csv))
            } else if f == "latex"@ || f == "tex"@ {
                Ok(ExportPlanV::OlsTable(TableWriter::Latex))
            } else if f == "html"@ || f == "htm"@ {
                Ok(ExportPlanV::OlsTable(TableWriter::Html))
            } else {
                Err(unsupported_export(f))
            }
        } else if !text {
            Err(unsupported_export(f))
        } else if kind == ModelKind::Iv {
            Ok(ExportPlanV::Text { what: "IV results"@ })
        } else if kind == ModelKind::Binary {
            Ok(ExportPlanV::Text { what: "logit/probit results"@ })
        } else if kind == ModelKind::Panel {
            Ok(ExportPlanV::Text { what: "FE results"@ })
        } else if kind == ModelKind::Re {
            Ok(ExportPlanV::Text { what: "RE results"@ })
        } else if text_family(kind) {
            Ok(ExportPlanV::Text { what: "results"@ })
        } else {
            Err(unsupported_export(f))
        },
        Val::Diag { .. } => if text {
            Ok(ExportPlanV::Text { what: "results"@ })
        } else {
            Err(unsupported_export(f))
        },
        _ => Err(unsupported_export(f)),
    }
}

/// The format that applies: the given one, or the path's extension for
/// `auto`, lower-cased.
pub open spec fn effective_format(fmt: Seq<char>, path: Seq<char>) -> Seq<char> {
    if lowercase(fmt) == "auto"@ {
        lowercase(extension(path))
    } else {
        lowercase(fmt)
    }
}

/// The format and path of an export once the value is known.
pub open spec fn sem_export_rest(
    f: nat,
    s: IState,
    frame: bool,
    v: Val,
    fmt: Expr,
    path: Expr,
) -> Flow<ExportPlanV> {
    match sem_expr(f, s, fmt) {
        Flow::Done(s1, Ok(Val::Str(fs))) => match sem_expr(f, s1, path) {
            Flow::Done(s2, Ok(Val::Str(p))) => {
                let e = effective_format(fs, p);
                Flow::Done(s2, if frame { frame_plan(e) } else { value_plan(v, e) })
            },
            Flow::Done(s2, Ok(_)) => Flow::Done(s2, Err(ErrV::Type("export path must be a string"@))),
            Flow::Done(s2, Err(x)) => Flow::Done(s2, Err(x)),
            Flow::Fault => Flow::Fault,
        },
        Flow::Done(s1, Ok(other)) => Flow::Done(
            s1,
            Err(ErrV::Type("export format must be a string, got "@ + render(other))),
        ),
        Flow::Done(s1, Err(x)) => Flow::Done(s1, Err(x)),
        Flow::Fault => Flow::Fault,
    }
}

/// `export value, format, path`: a name bound to a data frame exports the
/// frame; any other value is evaluated first.
pub open spec fn sem_export(
    f: nat,
    s: IState,
    value: Expr,
    fmt: Expr,
    path: Expr,
    frames: Seq<Seq<char>>,
) -> Flow<ExportPlanV> {
    match value {
        Expr::Var(n) if frames.contains(n@) => sem_export_rest(f, s, true, Val::Nil, fmt, path),
        _ => match sem_expr(f, s, value) {
            Flow::Done(s1, Ok(v)) => sem_export_rest(f, s1, false, v, fmt, path),
            Flow::Done(s1, Err(x)) => Flow::Done(s1, Err(x)),
            Flow::Fault => Flow::Fault,
        },
    }
}

/// The abstract form of an export plan or an error.
pub open spec fn export_view(r: Result<ExportPlan, HayashiError>) -> Result<ExportPlanV, ErrV> {
    match r {
        Ok(p) => Ok(p@),
        Err(e) => Err(e@),
    }
}

fn unsupported(f: &str) -> (e: HayashiError)
    ensures
        e@ == unsupported_export(f@),
{
    HayashiError::Runtime(
        String::from_str("unsupported export format '").concat(f).concat(
            "' for this value type\nDataFrame → csv, json, tsv, xlsx, sqlite\nOLS       → csv, latex, html\nModels    → txt",
        ),
    )
}

/// The writer for a data frame in the (lower-case) format `f`.
pub fn frame_writer(f: &str) -> (r: Result<ExportPlan, HayashiError>)
    ensures
        export_view(r) == frame_plan(f@),
{
    if str_eq(f, "csv") || str_eq(f, "delimited") {
        Ok(ExportPlan::Frame(FrameWriter::Csv))
    } else if str_eq(f, "json") {
        Ok(ExportPlan::Frame(FrameWriter::Json))
    } else if str_eq(f, "tsv") || str_eq(f, "tab") {
        Ok(ExportPlan::Frame(FrameWriter::Tsv))
    } else if str_eq(f, "xlsx") || str_eq(f, "xls") {
        Ok(ExportPlan::Frame(FrameWriter::Excel))
    } else if str_eq(f, "sqlite") || str_eq(f, "sqlite3") || str_eq(f, "db") {
        Ok(ExportPlan::Frame(FrameWriter::Sqlite))
    } else if str_eq(f, "parquet") || str_eq(f, "pq") {
        Ok(ExportPlan::Frame(FrameWriter::Parquet))
    } else {
        Err(unsupported(f))
    }
}

fn is_text_family(kind: ModelKind) -> (b: bool)
    ensures
        b == text_family(kind),
{
    match kind {
        ModelKind::Ols | ModelKind::Iv | ModelKind::Binary | ModelKind::Panel | ModelKind::Re
        | ModelKind::Other => false,
        _ => true,
    }
}

/// The writer for a value in the (lower-case) format `f`.
pub fn value_writer(v: &Value, f: &str) -> (r: Result<ExportPlan, HayashiError>)
    ensures
        export_view(r) == value_plan(v@, f@),
{
    let text = str_eq(f, "txt") || str_eq(f, "text");
    match v {
        Value::Model(m) => match m.kind {
            ModelKind::Ols => if str_eq(f, "csv") {
                Ok(ExportPlan::OlsTable(TableWriter::Csv))
            } else if str_eq(f, "latex") || str_eq(f, "tex") {
                Ok(ExportPlan::OlsTable(TableWriter::Latex))
            } else if str_eq(f, "html") || str_eq(f, "htm") {
                Ok(ExportPlan::OlsTable(TableWriter::Html))
            } else {
                Err(unsupported(f))
            },
            ModelKind::Iv if text => Ok(ExportPlan::Text { what: String::from_str("IV results") }),
            ModelKind::Binary if text => Ok(ExportPlan::Text { what: String::from_str("logit/probit results") }),
            ModelKind::Panel if text => Ok(ExportPlan::Text { what: String::from_str("FE results") }),
            ModelKind::Re if text => Ok(ExportPlan::Text { what: String::from_str("RE results") }),
            k => if text && is_text_family(k) {
                Ok(ExportPlan::Text { what: String::from_str("results") })
            } else {
                Err(unsupported(f))
            },
        },
        Value::Diag(_) => if text {
            Ok(ExportPlan::Text { what: String::from_str("results") })
        } else {
            Err(unsupported(f))
        },
        _ => Err(unsupported(f)),
    }
}

impl Interpreter {
    fn export_rest(&mut self, frame: bool, v: &Value, fmt: &Expr, path: &Expr, fuel: u64) -> (r: Result<
        ExportPlan,
        HayashiError,
    >)
        requires
            sem_export_rest(fuel as nat, old(self)@, frame, v@, *fmt, *path) is Done,
        ensures
            sem_export_rest(fuel as nat, old(self)@, frame, v@, *fmt, *path) == Flow::Done(
                final(self)@,
                export_view(r),
            ),
    {
        let fv = self.eval_expr(fmt, fuel)?;
        let fs = match fv {
            Value::Str(t) => t,
            other => {
                return Err(
                    HayashiError::Type(
                        String::from_str("export format must be a string, got ").concat(
                            render_value(&other).as_str(),
                        ),
                    ),
                );
            },
        };
        let pv = self.eval_expr(path, fuel)?;
        let p = match pv {
            Value::Str(t) => t,
            _ => {
                return Err(HayashiError::Type(String::from_str("export path must be a string")));
            },
        };
        let lf = to_lowercase(fs.as_str());
        let e = if str_eq(lf.as_str(), "auto") {
            to_lowercase(path_extension(p.as_str()))
        } else {
            lf
        };
        if frame {
            frame_writer(e.as_str())
        } else {
            value_writer(v, e.as_str())
        }
    }

    /// `export value, format, path`: which writer applies.
    pub fn exec_export(&mut self, value: &Expr, fmt: &Expr, path: &Expr, frames: &Vec<String>, fuel: u64) -> (r:
        Result<ExportPlan, HayashiError>)
        requires
            sem_export(fuel as nat, old(self)@, *value, *fmt, *path, strings_view(frames@)) is Done,
        ensures
            sem_export(fuel as nat, old(self)@, *value, *fmt, *path, strings_view(frames@)) == Flow::Done(
                final(self)@,
                export_view(r),
            ),
    {
        match value {
            Expr::Var(n) => {
                if frame_bound(frames, n.as_str()) {
                    return self.export_rest(true, &Value::Nil, fmt, path, fuel);
                }
            },
            _ => {},
        }
        let v = self.eval_expr(value, fuel)?;
        self.export_rest(false, &v, fmt, path, fuel)
    }
}

} // verus!
