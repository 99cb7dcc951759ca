//! The arguments of the commands that work on a data frame's columns
//! (`ranksum`, `kruskal`, `signrank`, `spearman`, `xtset`): which frame and
//! which columns they name, and the errors for malformed calls.
//!
//! Data frames are held by the caller, outside the interpreter's variables;
//! the caller passes the names that are bound to one.
use crate::ast::Expr;
use crate::interp::{panel_view, Interpreter};
use crate::options::{get_option, opt_get};
use crate::semantics::{sem_expr, Flow, IState};
use crate::text::str_eq;
use crate::value::{strings_view, ErrV, HayashiError, Val, Value};
use vstd::prelude::*;

verus! {

/// The name an argument gives: a bare identifier.
pub open spec fn var_arg(e: Expr) -> Option<Seq<char>> {
    match e {
        Expr::Var(n) => Some(n@),
        _ => None,
    }
}

/// The name an argument gives: an identifier or a string literal.
pub open spec fn name_arg(e: Expr) -> Option<Seq<char>> {
    match e {
        Expr::Var(n) => Some(n@),
        Expr::Str(n) => Some(n@),
        _ => None,
    }
}

/// The error for a name that is not bound to a data frame.
pub open spec fn not_a_frame(name: Seq<char>) -> ErrV {
    ErrV::Runtime("'"@ + name + "' is not a DataFrame"@)
}

/// The frame and column named by `f(df, var, ...)`, or the error the call
/// gives, checked in order: argument count (`usage`), the frame argument,
/// the frame's existence, the column argument.
pub open spec fn spec_frame_column(args: Seq<Expr>, frames: Seq<Seq<char>>, usage: Seq<char>) -> Result<
    (Seq<char>, Seq<char>),
    ErrV,
> {
    if args.len() < 2 {
        Err(ErrV::Runtime(usage))
    } else {
        match var_arg(args[0]) {
            None => Err(ErrV::Type("first argument must be a DataFrame"@)),
            Some(df) => if !frames.contains(df) {
                Err(not_a_frame(df))
            } else {
                match name_arg(args[1]) {
                    None => Err(ErrV::Type("second argument must be a variable name"@)),
                    Some(v) => Ok((df, v)),
                }
            },
        }
    }
}

/// The abstract form of a pair of names or an error.
pub open spec fn names_view(r: Result<(String, String), HayashiError>) -> Result<
    (Seq<char>, Seq<char>),
    ErrV,
> {
    match r {
        Ok((a, b)) => Ok((a@, b@)),
        Err(e) => Err(e@),
    }
}

fn name_of(e: &Expr) -> (r: Option<String>)
    ensures
        match r {
            Some(n) => name_arg(*e) == Some(n@),
            None => name_arg(*e) is None,
        },
{
    match e {
        Expr::Var(n) => Some(n.clone()),
        Expr::Str(n) => Some(n.clone()),
        _ => None,
    }
}

/// Whether `name` is one of `frames`.
pub fn frame_bound(frames: &Vec<String>, name: &str) -> (b: bool)
    ensures
        b == strings_view(frames@).contains(name@),
{
    let ghost fv = strings_view(frames@);
    let mut i: usize = 0;
    while i < frames.len()
        invariant
            i <= frames@.len(),
            fv == strings_view(frames@),
            fv.len() == frames@.len(),
            forall|t: int| 0 <= t < i ==> fv[t] != name@,
        decreases frames@.len() - i,
    {
        if str_eq(frames[i].as_str(), name) {
            assert(fv[i as int] == name@);
            return true;
        }
        i = i + 1;
    }
    assert(!fv.contains(name@)) by {
        if fv.contains(name@) {
            let t = choose|t: int| 0 <= t < fv.len() && fv[t] == name@;
            assert(fv[t] != name@);
        }
    }
    false
}

/// The frame and column named by `f(df, var, ...)`.
pub fn frame_column(args: &Vec<Expr>, frames: &Vec<String>, usage: &str) -> (r: Result<
    (String, String),
    HayashiError,
>)
    ensures
        names_view(r) == spec_frame_column(args@, strings_view(frames@), usage@),
{
    if args.len() < 2 {
        return Err(HayashiError::Runtime(String::from_str(usage)));
    }
    let df = match &args[0] {
        Expr::Var(n) => n.clone(),
        _ => {
            return Err(HayashiError::Type(String::from_str("first argument must be a DataFrame")));
        },
    };
    if !frame_bound(frames, df.as_str()) {
        return Err(
            HayashiError::Runtime(
                String::from_str("'").concat(df.as_str()).concat("' is not a DataFrame"),
            ),
        );
    }
    match name_of(&args[1]) {
        Some(v) => Ok((df, v)),
        None => Err(HayashiError::Type(String::from_str("second argument must be a variable name"))),
    }
}

/// The group column of a two-sample or k-sample test: option `by=` as a
/// string, or `missing` as a runtime error.
pub open spec fn spec_by_column(opts: Seq<(String, Value)>, missing: Seq<char>) -> Result<
    Seq<char>,
    ErrV,
> {
    match opt_get(opts, "by"@) {
        Some(Val::Str(s)) => Ok(s),
        _ => Err(ErrV::Runtime(missing)),
    }
}

/// The group column named by option `by=`.
pub fn by_column(opt_map: &Vec<(String, Value)>, missing: &str) -> (r: Result<String, HayashiError>)
    ensures
        match r {
            Ok(s) => spec_by_column(opt_map@, missing@) == Ok::<Seq<char>, ErrV>(s@),
            Err(e) => spec_by_column(opt_map@, missing@) == Err::<Seq<char>, ErrV>(e@),
        },
{
    match get_option(opt_map, "by") {
        Some(Value::Str(s)) => Ok(s),
        _ => Err(HayashiError::Runtime(String::from_str(missing))),
    }
}

/// The frame and the two columns named by `spearman(df, var1, var2)`.
pub open spec fn spec_spearman_args(args: Seq<Expr>, frames: Seq<Seq<char>>) -> Result<
    (Seq<char>, Seq<char>, Seq<char>),
    ErrV,
> {
    if args.len() < 3 {
        Err(ErrV::Runtime("spearman(df, var1, var2)"@))
    } else {
        match spec_frame_column(args, frames, "spearman(df, var1, var2)"@) {
            Err(e) => Err(e),
            Ok((df, v1)) => match name_arg(args[2]) {
                None => Err(ErrV::Type("third argument must be a variable name"@)),
                Some(v2) => Ok((df, v1, v2)),
            },
        }
    }
}

/// The frame and the two columns of a Spearman correlation.
pub fn spearman_args(args: &Vec<Expr>, frames: &Vec<String>) -> (r: Result<
    (String, String, String),
    HayashiError,
>)
    ensures
        match r {
            Ok((a, b, c)) => spec_spearman_args(args@, strings_view(frames@)) == Ok::<
                (Seq<char>, Seq<char>, Seq<char>),
                ErrV,
            >((a@, b@, c@)),
            Err(e) => spec_spearman_args(args@, strings_view(frames@)) == Err::<
                (Seq<char>, Seq<char>, Seq<char>),
                ErrV,
            >(e@),
        },
{
    if args.len() < 3 {
        return Err(HayashiError::Runtime(String::from_str("spearman(df, var1, var2)")));
    }
    let (df, v1) = match frame_column(args, frames, "spearman(df, var1, var2)") {
        Ok(p) => p,
        Err(e) => {
            return Err(e);
        },
    };
    match name_of(&args[2]) {
        Some(v2) => Ok((df, v1, v2)),
        None => Err(HayashiError::Type(String::from_str("third argument must be a variable name"))),
    }
}

/// The rank tests that compare groups named by option `by=`.
#[derive(PartialEq, Eq, Structural, Clone, Copy, Debug)]
pub enum GroupTest {
    /// The Mann-Whitney / Wilcoxon rank-sum test of two groups.
    RankSum,
    /// The Kruskal-Wallis test of several groups.
    Kruskal,
}

/// The usage message of a group test with too few arguments.
pub open spec fn group_test_usage(t: GroupTest) -> Seq<char> {
    match t {
        GroupTest::RankSum => "ranksum(df, var, by=group_col)"@,
        GroupTest::Kruskal => "kruskal(df, var, by=group_col)"@,
    }
}

/// The error of a group test whose `by=` option is missing or no string.
pub open spec fn group_test_missing_by(t: GroupTest) -> Seq<char> {
    match t {
        GroupTest::RankSum => "ranksum requer by=coluna_grupo"@,
        GroupTest::Kruskal => "kruskal requer by=coluna_grupo"@,
    }
}

/// The frame, the column and the group column of `ranksum(df, var,
/// by=g)` or `kruskal(df, var, by=g)`, or the error the call gives,
/// checked in order: the frame and column arguments, then `by=`.
pub open spec fn spec_group_test_args(
    t: GroupTest,
    args: Seq<Expr>,
    opts: Seq<(String, Value)>,
    frames: Seq<Seq<char>>,
) -> Result<(Seq<char>, Seq<char>, Seq<char>), ErrV> {
    match spec_frame_column(args, frames, group_test_usage(t)) {
        Err(e) => Err(e),
        Ok((df, v)) => match spec_by_column(opts, group_test_missing_by(t)) {
            Err(e) => Err(e),
            Ok(by) => Ok((df, v, by)),
        },
    }
}

/// The frame, column and group column that a group rank test reads.
pub fn group_test_args(t: GroupTest, args: &Vec<Expr>, opt_map: &Vec<(String, Value)>, frames: &Vec<String>) -> (r: Result<
    (String, String, String),
    HayashiError,
>)
    ensures
        match r {
            Ok((a, b, c)) => spec_group_test_args(t, args@, opt_map@, strings_view(frames@)) == Ok::<
                (Seq<char>, Seq<char>, Seq<char>),
                ErrV,
            >((a@, b@, c@)),
            Err(e) => spec_group_test_args(t, args@, opt_map@, strings_view(frames@)) == Err::<
                (Seq<char>, Seq<char>, Seq<char>),
                ErrV,
            >(e@),
        },
{
    let (usage, missing) = match t {
        GroupTest::RankSum => ("ranksum(df, var, by=group_col)", "ranksum requer by=coluna_grupo"),
        GroupTest::Kruskal => ("kruskal(df, var, by=group_col)", "kruskal requer by=coluna_grupo"),
    };
    let (df, v) = match frame_column(args, frames, usage) {
        Ok(p) => p,
        Err(e) => {
            return Err(e);
        },
    };
    match by_column(opt_map, missing) {
        Ok(by) => Ok((df, v, by)),
        Err(e) => Err(e),
    }
}

/// The usage message of `signrank`.
pub open spec fn signrank_usage() -> Seq<char> {
    "signrank(df, var, mu0=0)  or  signrank(df, d)  where d = x - y"@
}

/// The frame and the column of differences that `signrank(df, d)` reads.
pub fn signrank_args(args: &Vec<Expr>, frames: &Vec<String>) -> (r: Result<(String, String), HayashiError>)
    ensures
        names_view(r) == spec_frame_column(args@, strings_view(frames@), signrank_usage()),
{
    frame_column(args, frames, "signrank(df, var, mu0=0)  or  signrank(df, d)  where d = x - y")
}

/// What the binomial test works on: counts given directly, or a column of
/// a frame whose values are compared with a reference value.
pub enum BitestPlan {
    /// `bitest(successes, trials)`.
    Counts { successes: i64, trials: i64 },
    /// `bitest(df, var)`.
    Frame { df: String, var: String },
}

/// The abstract form of a binomial-test plan.
pub enum BitestPlanV {
    Counts { successes: i64, trials: i64 },
    Frame { df: Seq<char>, var: Seq<char> },
}

/// The abstract form of a plan or an error.
pub open spec fn bitest_view(r: Result<BitestPlan, HayashiError>) -> Result<BitestPlanV, ErrV> {
    match r {
        Ok(BitestPlan::Counts { successes, trials }) => Ok(BitestPlanV::Counts { successes, trials }),
        Ok(BitestPlan::Frame { df, var }) => Ok(BitestPlanV::Frame { df: df@, var: var@ }),
        Err(e) => Err(e@),
    }
}

/// The usage message of `bitest`.
pub open spec fn bitest_usage() -> Seq<char> {
    "bitest(successes, n, mu=0.5)  ou  bitest(df, var, mu=0)"@
}

/// The frame form of `bitest`, in state `s`.
pub open spec fn bitest_frame(s: IState, args: Seq<Expr>, frames: Seq<Seq<char>>) -> Flow<BitestPlanV> {
    match spec_frame_column(args, frames, bitest_usage()) {
        Ok((df, v)) => Flow::Done(s, Ok(BitestPlanV::Frame { df, var: v })),
        Err(e) => Flow::Done(s, Err(e)),
    }
}

/// `bitest(a, b)`: with two arguments or more, a first argument naming a
/// frame selects the frame form; otherwise the first argument is
/// evaluated: an integer selects the counts form (the second argument
/// evaluated to the number of trials), `nil` the frame form, anything else
/// is refused.
pub open spec fn sem_bitest(f: nat, s: IState, args: Seq<Expr>, frames: Seq<Seq<char>>) -> Flow<BitestPlanV> {
    if args.len() < 2 {
        Flow::Done(s, Err(ErrV::Runtime(bitest_usage())))
    } else if var_arg(args[0]) is Some && frames.contains(var_arg(args[0])->Some_0) {
        bitest_frame(s, args, frames)
    } else {
        match sem_expr(f, s, args[0]) {
            Flow::Done(s1, Ok(Val::Int(k))) => match sem_expr(f, s1, args[1]) {
                Flow::Done(s2, Ok(Val::Int(n))) => Flow::Done(s2, Ok(BitestPlanV::Counts { successes: k, trials: n })),
                Flow::Done(s2, Ok(_)) => Flow::Done(s2, Err(ErrV::Type("segundo arg: n (inteiro)"@))),
                Flow::Done(s2, Err(e)) => Flow::Done(s2, Err(e)),
                Flow::Fault => Flow::Fault,
            },
            Flow::Done(s1, Ok(Val::Nil)) => bitest_frame(s1, args, frames),
            Flow::Done(s1, Ok(_)) => Flow::Done(
                s1,
                Err(ErrV::Type("bitest: first argument must be inteiro (count) ou DataFrame"@)),
            ),
            Flow::Done(s1, Err(e)) => Flow::Done(s1, Err(e)),
            Flow::Fault => Flow::Fault,
        }
    }
}

fn bitest_frame_exec(args: &Vec<Expr>, frames: &Vec<String>) -> (r: Result<BitestPlan, HayashiError>)
    ensures
        match bitest_view(r) {
            Ok(p) => spec_frame_column(args@, strings_view(frames@), bitest_usage()) matches Ok((df, v)) && p
                == BitestPlanV::Frame { df, var: v },
            Err(e) => spec_frame_column(args@, strings_view(frames@), bitest_usage()) == Err::<
                (Seq<char>, Seq<char>),
                ErrV,
            >(e),
        },
{
    match frame_column(args, frames, "bitest(successes, n, mu=0.5)  ou  bitest(df, var, mu=0)") {
        Ok((df, var)) => Ok(BitestPlan::Frame { df, var }),
        Err(e) => Err(e),
    }
}

impl Interpreter {
    /// Which form of the binomial test a call `bitest(args)` asks for, and
    /// its counts or its frame and column.
    pub fn bitest_plan(&mut self, args: &Vec<Expr>, frames: &Vec<String>, fuel: u64) -> (r: Result<
        BitestPlan,
        HayashiError,
    >)
        requires
            sem_bitest(fuel as nat, old(self)@, args@, strings_view(frames@)) is Done,
        ensures
            sem_bitest(fuel as nat, old(self)@, args@, strings_view(frames@)) == Flow::Done(
                final(self)@,
                bitest_view(r),
            ),
    {
        if args.len() < 2 {
            return Err(HayashiError::Runtime(String::from_str("bitest(successes, n, mu=0.5)  ou  bitest(df, var, mu=0)")));
        }
        if let Expr::Var(n) = &args[0] {
            if frame_bound(frames, n.as_str()) {
                return bitest_frame_exec(args, frames);
            }
        }
        let first = self.eval_expr(&args[0], fuel)?;
        match first {
            Value::Int(k) => {
                let second = self.eval_expr(&args[1], fuel)?;
                match second {
                    Value::Int(n) => Ok(BitestPlan::Counts { successes: k, trials: n }),
                    _ => Err(HayashiError::Type(String::from_str("segundo arg: n (inteiro)"))),
                }
            },
            Value::Nil => bitest_frame_exec(args, frames),
            _ => Err(HayashiError::Type(String::from_str("bitest: first argument must be inteiro (count) ou DataFrame"))),
        }
    }
}

/// A panel or time-series declaration made by `xtset`.
pub struct Xtset {
    pub df: String,
    pub id: String,
    /// Empty for a time series.
    pub time: String,
    pub is_panel: bool,
    pub display: String,
    pub summary: String,
}

/// The declarations with `(df, id, time)` put in place of the one for `df`,
/// or added after the others.
pub open spec fn panel_insert(
    p: Seq<(Seq<char>, Seq<char>, Seq<char>)>,
    df: Seq<char>,
    id: Seq<char>,
    time: Seq<char>,
) -> Seq<(Seq<char>, Seq<char>, Seq<char>)>
    decreases p.len(),
{
    if p.len() == 0 {
        seq![(df, id, time)]
    } else if p[0].0 == df {
        p.update(0, (df, id, time))
    } else {
        seq![p[0]] + panel_insert(p.drop_first(), df, id, time)
    }
}

/// The names `xtset(df, id, time)` or `xtset(df, t)` declares, or its error.
pub open spec fn spec_xtset_names(args: Seq<Expr>, frames: Seq<Seq<char>>) -> Result<
    (Seq<char>, Seq<char>, Seq<char>),
    ErrV,
> {
    if args.len() < 2 {
        Err(
            ErrV::Runtime(
                "xtset(df, id_col, time_col)  or  xtset(df, time_col) for time series"@,
            ),
        )
    } else {
        match var_arg(args[0]) {
            None => Err(ErrV::Type("first argument must be nome do DataFrame"@)),
            Some(df) => if !frames.contains(df) {
                Err(not_a_frame(df))
            } else {
                match name_arg(args[1]) {
                    None => Err(ErrV::Type("id_col deve ser identificador ou string"@)),
                    Some(id) => if args.len() >= 3 {
                        match name_arg(args[2]) {
                            None => Err(ErrV::Type("time_col deve ser identificador ou string"@)),
                            Some(t) => Ok((df, id, t)),
                        }
                    } else {
                        Ok((df, id, Seq::empty()))
                    },
                }
            },
        }
    }
}

/// The text `xtset` shows for a declaration.
pub open spec fn xtset_display(df: Seq<char>, id: Seq<char>, time: Seq<char>) -> Seq<char> {
    if time.len() > 0 {
        "xtset "@ + df + "  id="@ + id + "  time="@ + time + "\n"@
    } else {
        "xtset "@ + df + "  (time series: t="@ + id + ")\n"@
    }
}

/// The one-line summary of a declaration.
pub open spec fn xtset_summary(df: Seq<char>, id: Seq<char>, time: Seq<char>) -> Seq<char> {
    if time.len() > 0 {
        "xtset panel: "@ + df + " id="@ + id + " time="@ + time
    } else {
        "xtset time series: "@ + df + " t="@ + id
    }
}

/// The panel declarations after inserting `(df, id, time)`.
fn insert_panel(p: &mut Vec<(String, String, String)>, df: String, id: String, time: String)
    ensures
        panel_view(final(p)@) == panel_insert(panel_view(old(p)@), df@, id@, time@),
{
    let ghost old_view = panel_view(p@);
    let mut i: usize = 0;
    assert(old_view.take(0) =~= Seq::<(Seq<char>, Seq<char>, Seq<char>)>::empty());
    assert(old_view.skip(0) =~= old_view);
    while i < p.len()
        invariant
            i <= p@.len(),
            p@ == old(p)@,
            old_view == panel_view(p@),
            forall|t: int| 0 <= t < i ==> (#[trigger] p@[t]).0@ != df@,
            panel_insert(old_view, df@, id@, time@) == old_view.take(i as int) + panel_insert(
                old_view.skip(i as int),
                df@,
                id@,
                time@,
            ),
        decreases p@.len() - i,
    {
        if str_eq(p[i].0.as_str(), df.as_str()) {
            let ghost before = p@;
            p.set(i, (df, id, time));
            proof {
                let rest = old_view.skip(i as int);
                assert(rest[0] == old_view[i as int]);
                assert(old_view[i as int].0 == before[i as int].0@);
                assert(rest[0].0 == df@);
                assert(panel_insert(rest, df@, id@, time@) == rest.update(0, (df@, id@, time@)));
                assert(panel_view(p@) =~= old_view.take(i as int) + rest.update(0, (df@, id@, time@)));
            }
            return;
        }
        proof {
            let rest = old_view.skip(i as int);
            assert(rest[0] == old_view[i as int]);
            assert(rest.drop_first() =~= old_view.skip(i + 1));
            assert(old_view.take(i + 1) =~= old_view.take(i as int) + seq![rest[0]]);
        }
        i = i + 1;
    }
    let ghost before = p@;
    p.push((df, id, time));
    proof {
        assert(old_view.skip(i as int) =~= Seq::<(Seq<char>, Seq<char>, Seq<char>)>::empty());
        assert(old_view.take(i as int) =~= old_view);
        assert(panel_view(p@) =~= old_view.push((df@, id@, time@)));
    }
}

impl Interpreter {
    /// Declares a data frame as a panel (`xtset(df, id, time)`) or a time
    /// series (`xtset(df, t)`).
    pub fn xtset(&mut self, args: &Vec<Expr>, frames: &Vec<String>) -> (r: Result<Xtset, HayashiError>)
        ensures
            match (r, spec_xtset_names(args@, strings_view(frames@))) {
                (Ok(x), Ok((df, id, time))) => {
                    &&& x.df@ == df
                    &&& x.id@ == id
                    &&& x.time@ == time
                    &&& x.is_panel == (time.len() > 0)
                    &&& x.display@ == xtset_display(df, id, time)
                    &&& x.summary@ == xtset_summary(df, id, time)
                    &&& final(self)@.panel == panel_insert(old(self)@.panel, df, id, time)
                    &&& final(self)@.env == old(self)@.env
                    &&& final(self)@.output == old(self)@.output
                    &&& final(self)@.ret == old(self)@.ret
                    &&& final(self)@.line == old(self)@.line
                },
                (Err(e), Err(f)) => e@ == f && final(self)@ == old(self)@,
                _ => false,
            },
    {
        if args.len() < 2 {
            return Err(
                HayashiError::Runtime(
                    String::from_str(
                        "xtset(df, id_col, time_col)  or  xtset(df, time_col) for time series",
                    ),
                ),
            );
        }
        let df = match &args[0] {
            Expr::Var(n) => n.clone(),
            _ => {
                return Err(HayashiError::Type(String::from_str("first argument must be nome do DataFrame")));
            },
        };
        if !frame_bound(frames, df.as_str()) {
            return Err(
                HayashiError::Runtime(
                    String::from_str("'").concat(df.as_str()).concat("' is not a DataFrame"),
                ),
            );
        }
        let id = match name_of(&args[1]) {
            Some(n) => n,
            None => {
                return Err(HayashiError::Type(String::from_str("id_col deve ser identificador ou string")));
            },
        };
        let time = if args.len() >= 3 {
            match name_of(&args[2]) {
                Some(n) => n,
                None => {
                    return Err(HayashiError::Type(String::from_str("time_col deve ser identificador ou string")));
                },
            }
        } else {
            String::new()
        };
        insert_panel(&mut self.panel_info, df.clone(), id.clone(), time.clone());
        let is_panel = time.as_str().unicode_len() > 0;
        let display = if is_panel {
            String::from_str("xtset ").concat(df.as_str()).concat("  id=").concat(id.as_str()).concat(
                "  time=",
            ).concat(time.as_str()).concat("\n")
        } else {
            String::from_str("xtset ").concat(df.as_str()).concat("  (time series: t=").concat(
                id.as_str(),
            ).concat(")\n")
        };
        let summary = if is_panel {
            String::from_str("xtset panel: ").concat(df.as_str()).concat(" id=").concat(
                id.as_str(),
            ).concat(" time=").concat(time.as_str())
        } else {
            String::from_str("xtset time series: ").concat(df.as_str()).concat(" t=").concat(
                id.as_str(),
            )
        };
        Ok(Xtset { df, id, time, is_panel, display, summary })
    }
}

} // verus!
