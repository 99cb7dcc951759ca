//! `load "path" as name, opts...`: the options a load takes and the reader
//! a file's extension selects. Reading the file is the caller's work.
use crate::ast::Expr;
use crate::interp::Interpreter;
use crate::render::{render, render_value};
use crate::semantics::{sem_expr, Flow, IState};
use crate::text::{decimal, int_to_string, str_eq};
use crate::value::{ErrV, HayashiError, Val, Value};
use vstd::prelude::*;

verus! {

/// What a `load` statement asks for: the path and its options.
pub struct LoadRequest {
    pub path: String,
    pub sheet: Option<String>,
    pub table: Option<String>,
    pub query: Option<String>,
    pub sep: Option<String>,
}

/// The abstract form of a load request.
pub struct LoadRequestV {
    pub path: Seq<char>,
    pub sheet: Option<Seq<char>>,
    pub table: Option<Seq<char>>,
    pub query: Option<Seq<char>>,
    pub sep: Option<Seq<char>>,
}

/// The character sequence of an optional string.
pub open spec fn opt_view(o: Option<String>) -> Option<Seq<char>> {
    match o {
        Some(s) => Some(s@),
        None => None,
    }
}

impl View for LoadRequest {
    type V = LoadRequestV;

    open spec fn view(&self) -> LoadRequestV {
        LoadRequestV {
            path: self.path@,
            sheet: opt_view(self.sheet),
            table: opt_view(self.table),
            query: opt_view(self.query),
            sep: opt_view(self.sep),
        }
    }
}

/// The text an option value gives: a string as it is, an integer in
/// decimal, anything else as it renders.
pub open spec fn option_text(v: Val) -> Seq<char> {
    match v {
        Val::Str(s) => s,
        Val::Int(i) => decimal(i as int),
        _ => render(v),
    }
}

/// The request with option `name` set to `text`, or the error for an
/// unknown option.
pub open spec fn with_option(r: LoadRequestV, name: Seq<char>, text: Seq<char>) -> Result<LoadRequestV, ErrV> {
    if name == "sheet"@ {
        Ok(LoadRequestV { sheet: Some(text), ..r })
    } else if name == "table"@ {
        Ok(LoadRequestV { table: Some(text), ..r })
    } else if name == "query"@ {
        Ok(LoadRequestV { query: Some(text), ..r })
    } else if name == "sep"@ || name == "delimiter"@ {
        Ok(LoadRequestV { sep: Some(text), ..r })
    } else {
        Err(ErrV::Runtime("load: unknown option '"@ + name + "' — use: sheet, table, query, sep"@))
    }
}

/// Evaluates the options `opts[i..]` in order into the request `r`.
pub open spec fn sem_load_options(f: nat, s: IState, opts: Seq<(String, Expr)>, i: int, r: LoadRequestV) -> Flow<
    LoadRequestV,
>
    decreases opts.len() - i,
{
    if i < 0 || i >= opts.len() {
        Flow::Done(s, Ok(r))
    } else {
        match sem_expr(f, s, opts[i].1) {
            Flow::Done(s1, Ok(v)) => match with_option(r, opts[i].0@, option_text(v)) {
                Ok(r2) => sem_load_options(f, s1, opts, i + 1, r2),
                Err(x) => Flow::Done(s1, Err(x)),
            },
            Flow::Done(s1, Err(x)) => Flow::Done(s1, Err(x)),
            Flow::Fault => Flow::Fault,
        }
    }
}

/// The message for a database path, which this build cannot open.
pub open spec fn odbc_refusal() -> Seq<char> {
    "ODBC support not enabled. Rebuild with: cargo build --features odbc\nRequires: unixodbc (pacman -S unixodbc)"@
}

/// `k` begins with `p`.
pub open spec fn begins_with(k: Seq<char>, p: Seq<char>) -> bool {
    p.len() <= k.len() && k.take(p.len() as int) == p
}

/// A `load` up to reading: the path must be a string, the options are
/// evaluated in order, a database path is refused, and the reader is the
/// one the path's lower-cased extension and the separator option select.
pub open spec fn sem_load(f: nat, s: IState, path: Expr, opts: Seq<(String, Expr)>) -> Flow<(LoadRequestV, LoadFormat)> {
    match sem_expr(f, s, path) {
        Flow::Done(s1, Ok(Val::Str(p))) => {
            let empty = LoadRequestV { path: p, sheet: None, table: None, query: None, sep: None };
            match sem_load_options(f, s1, opts, 0, empty) {
                Flow::Done(s2, Ok(r)) => if begins_with(p, "odbc://"@) {
                    Flow::Done(s2, Err(ErrV::Runtime(odbc_refusal())))
                } else {
                    match spec_format_of(lowercase(extension(p)), r.sep) {
                        Ok(fmt) => Flow::Done(s2, Ok((r, fmt))),
                        Err(x) => Flow::Done(s2, Err(x)),
                    }
                },
                Flow::Done(s2, Err(x)) => Flow::Done(s2, Err(x)),
                Flow::Fault => Flow::Fault,
            }
        },
        Flow::Done(s1, Ok(_)) => Flow::Done(s1, Err(ErrV::Type("load requires a string path"@))),
        Flow::Done(s1, Err(x)) => Flow::Done(s1, Err(x)),
        Flow::Fault => Flow::Fault,
    }
}

/// The abstract form of a load request with its reader, or an error.
pub open spec fn request_view(r: Result<(LoadRequest, LoadFormat), HayashiError>) -> Result<(LoadRequestV, LoadFormat), ErrV> {
    match r {
        Ok((q, f)) => Ok((q@, f)),
        Err(e) => Err(e@),
    }
}

fn option_text_of(v: &Value) -> (t: String)
    ensures
        t@ == option_text(v@),
{
    match v {
        Value::Str(s) => s.clone(),
        Value::Int(i) => int_to_string(*i),
        _ => render_value(v),
    }
}

fn prefix_of(k: &str, p: &str) -> (b: bool)
    ensures
        b == begins_with(k@, p@),
{
    let n = k.unicode_len();
    let m = p.unicode_len();
    if m > n {
        return false;
    }
    let mut i: usize = 0;
    while i < m
        invariant
            i <= m <= n,
            n == k@.len(),
            m == p@.len(),
            forall|t: int| 0 <= t < i ==> k@[t] == p@[t],
        decreases m - i,
    {
        if k.get_char(i) != p.get_char(i) {
            assert(k@.take(m as int)[i as int] != p@[i as int]);
            return false;
        }
        i = i + 1;
    }
    assert(k@.take(m as int) =~= p@);
    true
}

impl Interpreter {
    /// `load path, opts...`: evaluates the path and the options and picks
    /// the reader.
    pub fn exec_load(&mut self, path: &Expr, opts: &Vec<(String, Expr)>, fuel: u64) -> (r: Result<
        (LoadRequest, LoadFormat),
        HayashiError,
    >)
        requires
            sem_load(fuel as nat, old(self)@, *path, opts@) is Done,
        ensures
            sem_load(fuel as nat, old(self)@, *path, opts@) == Flow::Done(final(self)@, request_view(r)),
    {
        let pv = self.eval_expr(path, fuel)?;
        let p = match pv {
            Value::Str(s) => s,
            _ => {
                return Err(HayashiError::Type(String::from_str("load requires a string path")));
            },
        };
        let ghost p0 = p@;
        let mut req = LoadRequest { path: p, sheet: None, table: None, query: None, sep: None };
        let ghost s1 = self@;
        let mut i: usize = 0;
        while i < opts.len()
            invariant
                i <= opts@.len(),
                sem_load_options(
                    fuel as nat,
                    s1,
                    opts@,
                    0,
                    LoadRequestV { path: p0, sheet: None, table: None, query: None, sep: None },
                ) == sem_load_options(fuel as nat, self@, opts@, i as int, req@),
                sem_load_options(fuel as nat, self@, opts@, i as int, req@) is Done,
                req.path@ == p0,
                sem_expr(fuel as nat, old(self)@, *path) == Flow::Done(s1, Ok::<Val, ErrV>(Val::Str(p0))),
            decreases opts@.len() - i,
        {
            let v = self.eval_expr(&opts[i].1, fuel)?;
            let text = option_text_of(&v);
            let name = opts[i].0.as_str();
            if str_eq(name, "sheet") {
                req.sheet = Some(text);
            } else if str_eq(name, "table") {
                req.table = Some(text);
            } else if str_eq(name, "query") {
                req.query = Some(text);
            } else if str_eq(name, "sep") || str_eq(name, "delimiter") {
                req.sep = Some(text);
            } else {
                return Err(
                    HayashiError::Runtime(
                        String::from_str("load: unknown option '").concat(name).concat(
                            "' — use: sheet, table, query, sep",
                        ),
                    ),
                );
            }
            i = i + 1;
        }
        if prefix_of(req.path.as_str(), "odbc://") {
            return Err(
                HayashiError::Runtime(
                    String::from_str(
                        "ODBC support not enabled. Rebuild with: cargo build --features odbc\nRequires: unixodbc (pacman -S unixodbc)",
                    ),
                ),
            );
        }
        match load_format(req.path.as_str(), &req.sep) {
            Ok(fmt) => Ok((req, fmt)),
            Err(e) => Err(e),
        }
    }
}


/// The reader a file is loaded with.
#[derive(PartialEq, Eq, Structural, Clone, Copy, Debug)]
pub enum LoadFormat {
    Stata,
    Excel,
    Sqlite,
    Json,
    Parquet,
    /// Comma-separated values.
    Csv,
    /// Values separated by this byte.
    Delimited(u8),
}

/// What `str::to_lowercase` returns for `s`: its Unicode lower-case mapping.
pub uninterp spec fn lowercase(s: Seq<char>) -> Seq<char>;

/// Calls `str::to_lowercase`. The contract only names the result
/// (`lowercase` of the argument); the Unicode case tables it follows are
/// not restated here.
#[verifier::external_body]
pub(crate) fn to_lowercase(s: &str) -> (r: String)
    ensures
        r@ == lowercase(s@),
{
    s.to_lowercase()
}

/// The index of the last '.' in `p`, or -1.
pub open spec fn last_dot(p: Seq<char>) -> int
    decreases p.len(),
{
    if p.len() == 0 {
        -1
    } else if p.last() == '.' {
        p.len() - 1
    } else {
        last_dot(p.drop_last())
    }
}

/// The extension of a path: the text after its last '.', or the whole
/// path when it has none.
pub open spec fn extension(p: Seq<char>) -> Seq<char> {
    p.subrange(last_dot(p) + 1, p.len() as int)
}

/// The reader for a lower-case extension, and for the others the separator
/// option (`\t` or `tab` for tabs, any one ASCII character, comma by
/// default).
pub open spec fn spec_format_of(ext: Seq<char>, sep: Option<Seq<char>>) -> Result<LoadFormat, ErrV> {
    if ext == "dta"@ {
        Ok(LoadFormat::Stata)
    } else if ext == "xlsx"@ || ext == "xls"@ || ext == "ods"@ {
        Ok(LoadFormat::Excel)
    } else if ext == "sqlite"@ || ext == "sqlite3"@ || ext == "db"@ {
        Ok(LoadFormat::Sqlite)
    } else if ext == "json"@ {
        Ok(LoadFormat::Json)
    } else if ext == "tsv"@ || ext == "tab"@ {
        Ok(LoadFormat::Delimited(9))
    } else if ext == "parquet"@ || ext == "pq"@ {
        Ok(LoadFormat::Parquet)
    } else {
        match sep {
            None => Ok(LoadFormat::Csv),
            Some(s) => if s == "\\t"@ || s == "tab"@ {
                Ok(LoadFormat::Delimited(9))
            } else if s.len() == 1 && (s[0] as u32) < 128 {
                if s[0] == ',' {
                    Ok(LoadFormat::Csv)
                } else {
                    Ok(LoadFormat::Delimited(s[0] as u32 as u8))
                }
            } else {
                Err(ErrV::Runtime("load: sep must be a single character, got '"@ + s + "'"@))
            },
        }
    }
}

/// The extension that names a reader of a fixed format.
pub open spec fn reader_extension(f: LoadFormat) -> Seq<char> {
    match f {
        LoadFormat::Stata => "dta"@,
        LoadFormat::Excel => "xlsx"@,
        LoadFormat::Sqlite => "sqlite"@,
        LoadFormat::Json => "json"@,
        LoadFormat::Parquet => "parquet"@,
        _ => "csv"@,
    }
}

/// The readers of a fixed format, which no separator changes.
pub open spec fn is_fixed_reader(f: LoadFormat) -> bool {
    f is Stata || f is Excel || f is Sqlite || f is Json || f is Parquet
}

/// The extensions that select a reader whatever the separator.
pub open spec fn is_reader_extension(e: Seq<char>) -> bool {
    e == "dta"@ || e == "xlsx"@ || e == "xls"@ || e == "ods"@ || e == "sqlite"@ || e == "sqlite3"@ || e == "db"@
        || e == "json"@ || e == "tsv"@ || e == "tab"@ || e == "parquet"@ || e == "pq"@
}

/// The extension of a fixed-format reader selects that reader whatever the
/// separator; a file of any other extension is read as comma-separated
/// values by default or with `sep=","`, and with the single ASCII
/// character given as `sep=` otherwise.
pub proof fn lemma_reader_choice(f: LoadFormat, e: Seq<char>, sep: Option<Seq<char>>, c: char)
    ensures
        is_fixed_reader(f) ==> spec_format_of(reader_extension(f), sep) == Ok::<LoadFormat, ErrV>(f),
        is_reader_extension(e) ==> spec_format_of(e, sep) == spec_format_of(e, None),
        !is_reader_extension(e) ==> spec_format_of(e, None) == Ok::<LoadFormat, ErrV>(LoadFormat::Csv),
        !is_reader_extension(e) && (c as u32) < 128 ==> spec_format_of(e, Some(seq![c])) == Ok::<LoadFormat, ErrV>(
            if c == ',' { LoadFormat::Csv } else { LoadFormat::Delimited(c as u32 as u8) },
        ),
{
    reveal_strlit("dta");
    reveal_strlit("xlsx");
    reveal_strlit("xls");
    reveal_strlit("ods");
    reveal_strlit("sqlite");
    reveal_strlit("sqlite3");
    reveal_strlit("db");
    reveal_strlit("json");
    reveal_strlit("tsv");
    reveal_strlit("tab");
    reveal_strlit("parquet");
    reveal_strlit("pq");
    reveal_strlit("\\t");
    if is_fixed_reader(f) {
        let x = reader_extension(f);
        match f {
            LoadFormat::Stata => {},
            LoadFormat::Excel => {
                assert(x[0] == 'x' && x.len() == 4);
            },
            LoadFormat::Sqlite => {
                assert(x[0] == 's' && x.len() == 6);
            },
            LoadFormat::Json => {
                assert(x[0] == 'j' && x.len() == 4);
            },
            LoadFormat::Parquet => {
                assert(x[0] == 'p' && x.len() == 7);
            },
            _ => {},
        }
    }
    if !is_reader_extension(e) && (c as u32) < 128 {
        let s = seq![c];
        assert(s.len() == 1);
        assert(s != "\\t"@);
        if s == "tab"@ {
            assert(s.len() == 3);
        }
    }
}

/// The abstract form of a reader choice or an error.
pub open spec fn format_view(r: Result<LoadFormat, HayashiError>) -> Result<LoadFormat, ErrV> {
    match r {
        Ok(f) => Ok(f),
        Err(e) => Err(e@),
    }
}

/// The reader for a lower-case extension and a separator option.
pub fn format_of_extension(ext: &str, sep: &Option<String>) -> (r: Result<LoadFormat, HayashiError>)
    ensures
        format_view(r) == spec_format_of(ext@, opt_view(*sep)),
{
    if str_eq(ext, "dta") {
        Ok(LoadFormat::Stata)
    } else if str_eq(ext, "xlsx") || str_eq(ext, "xls") || str_eq(ext, "ods") {
        Ok(LoadFormat::Excel)
    } else if str_eq(ext, "sqlite") || str_eq(ext, "sqlite3") || str_eq(ext, "db") {
        Ok(LoadFormat::Sqlite)
    } else if str_eq(ext, "json") {
        Ok(LoadFormat::Json)
    } else if str_eq(ext, "tsv") || str_eq(ext, "tab") {
        Ok(LoadFormat::Delimited(9))
    } else if str_eq(ext, "parquet") || str_eq(ext, "pq") {
        Ok(LoadFormat::Parquet)
    } else {
        match sep {
            None => Ok(LoadFormat::Csv),
            Some(s) => {
                let t = s.as_str();
                if str_eq(t, "\\t") || str_eq(t, "tab") {
                    Ok(LoadFormat::Delimited(9))
                } else if t.unicode_len() == 1 && (t.get_char(0) as u32) < 128 {
                    let c = t.get_char(0);
                    if c == ',' {
                        Ok(LoadFormat::Csv)
                    } else {
                        Ok(LoadFormat::Delimited(c as u32 as u8))
                    }
                } else {
                    Err(
                        HayashiError::Runtime(
                            String::from_str("load: sep must be a single character, got '").concat(t).concat(
                                "'",
                            ),
                        ),
                    )
                }
            },
        }
    }
}

/// The extension of a path.
pub(crate) fn path_extension(path: &str) -> (e: &str)
    ensures
        e@ == extension(path@),
{
    let n = path.unicode_len();
    let mut j: usize = n;
    assert(path@.take(n as int) =~= path@);
    while j > 0 && path.get_char(j - 1) != '.'
        invariant
            j <= n,
            n == path@.len(),
            last_dot(path@) == last_dot(path@.take(j as int)),
        decreases j,
    {
        assert(path@.take(j as int).drop_last() =~= path@.take(j - 1));
        j = j - 1;
    }
    proof {
        if j > 0 {
            assert(path@.take(j as int).last() == '.');
        } else {
            assert(path@.take(0) =~= Seq::<char>::empty());
        }
        assert(last_dot(path@) + 1 == j);
    }
    path.substring_char(j, n)
}

/// The reader for the file at `path` (its extension, lower-cased, decides).
pub fn load_format(path: &str, sep: &Option<String>) -> (r: Result<LoadFormat, HayashiError>)
    ensures
        format_view(r) == spec_format_of(lowercase(extension(path@)), opt_view(*sep)),
{
    let lower = to_lowercase(path_extension(path));
    format_of_extension(lower.as_str(), sep)
}

} // verus!
