//! The panel structure that the panel diagnostics (`wooldridge`, `abtest`,
//! `pesaran`, `mundlak`) work on: the frame they name, and the entity and
//! time columns, given as options or taken from an earlier `xtset`; and the
//! models and coefficients that the Hausman test compares.
use crate::ast::Expr;
use crate::interp::{panel_view, Interpreter};
use crate::options::{get_option, opt_get};
use crate::targets::{frame_bound, not_a_frame, panel_insert, var_arg};
use crate::semantics::{sem_expr, Flow, IState};
use crate::text::{nat_digits, nat_to_string, str_eq};
use crate::value::{copy_strings, strings_view, ErrV, HayashiError, ModelKind, Val, Value};
use vstd::prelude::*;

verus! {

/// The entity and time columns declared for `df` by `xtset`, if any.
pub open spec fn panel_lookup(p: Seq<(Seq<char>, Seq<char>, Seq<char>)>, df: Seq<char>) -> Option<
    (Seq<char>, Seq<char>),
>
    decreases p.len(),
{
    if p.len() == 0 {
        None
    } else if p[0].0 == df {
        Some((p[0].1, p[0].2))
    } else {
        panel_lookup(p.drop_first(), df)
    }
}

/// After `xtset` declares `df`, a lookup of `df` gives back what it
/// declared, and a lookup of any other frame gives what it gave before.
pub proof fn lemma_panel_lookup_insert(
    p: Seq<(Seq<char>, Seq<char>, Seq<char>)>,
    df: Seq<char>,
    id: Seq<char>,
    time: Seq<char>,
    other: Seq<char>,
)
    ensures
        panel_lookup(panel_insert(p, df, id, time), df) == Some((id, time)),
        other != df ==> panel_lookup(panel_insert(p, df, id, time), other) == panel_lookup(p, other),
    decreases p.len(),
{
    let q = panel_insert(p, df, id, time);
    if p.len() == 0 {
        assert(q.drop_first() =~= Seq::<(Seq<char>, Seq<char>, Seq<char>)>::empty());
        assert(q[0] == (df, id, time));
        if other != df {
            assert(panel_lookup(q, other) == panel_lookup(q.drop_first(), other));
        }
    } else if p[0].0 != df {
        lemma_panel_lookup_insert(p.drop_first(), df, id, time, other);
        assert(q.drop_first() =~= panel_insert(p.drop_first(), df, id, time));
        assert(q[0] == p[0]);
    } else {
        assert(q.drop_first() =~= p.drop_first());
        assert(q[0] == (df, id, time));
        if other != df {
            assert(panel_lookup(q, other) == panel_lookup(q.drop_first(), other));
            assert(panel_lookup(p, other) == panel_lookup(p.drop_first(), other));
        }
    }
}

/// Whether option `key` is given as a string.
pub open spec fn has_str_opt(opts: Seq<(String, Value)>, key: Seq<char>) -> bool {
    opt_get(opts, key) matches Some(Val::Str(_))
}

/// A panel diagnostic run after `xtset(df, id, time)`, without `id=` or
/// `time=` options, uses the columns that `xtset` declared.
pub proof fn lemma_declared_panel_columns(
    opts: Seq<(String, Value)>,
    p: Seq<(Seq<char>, Seq<char>, Seq<char>)>,
    df: Seq<char>,
    id: Seq<char>,
    time: Seq<char>,
    cmd: Seq<char>,
)
    ensures
        !has_str_opt(opts, "id"@) && id.len() > 0 ==> spec_panel_column(opts, panel_insert(p, df, id, time), df, false, cmd) == Ok::<Seq<char>, ErrV>(id),
        !has_str_opt(opts, "time"@) && time.len() > 0 ==> spec_panel_column(opts, panel_insert(p, df, id, time), df, true, cmd) == Ok::<Seq<char>, ErrV>(time),
{
    lemma_panel_lookup_insert(p, df, id, time, df);
}

/// The declaration of `df` among the panel declarations.
fn panel_get(p: &Vec<(String, String, String)>, df: &str) -> (r: Option<(String, String)>)
    ensures
        match r {
            Some((id, t)) => panel_lookup(panel_view(p@), df@) == Some((id@, t@)),
            None => panel_lookup(panel_view(p@), df@) is None,
        },
{
    let ghost pv = panel_view(p@);
    let mut i: usize = 0;
    assert(pv.skip(0) =~= pv);
    while i < p.len()
        invariant
            i <= p@.len(),
            pv == panel_view(p@),
            pv.len() == p@.len(),
            panel_lookup(pv, df@) == panel_lookup(pv.skip(i as int), df@),
        decreases p@.len() - i,
    {
        let ghost rest = pv.skip(i as int);
        assert(rest[0] == pv[i as int]);
        assert(pv[i as int] == (p@[i as int].0@, p@[i as int].1@, p@[i as int].2@));
        if str_eq(p[i].0.as_str(), df) {
            return Some((p[i].1.clone(), p[i].2.clone()));
        }
        assert(rest.drop_first() =~= pv.skip(i + 1));
        i = i + 1;
    }
    None
}

/// The column of one panel axis: option `id=` (or `time=`) as a string,
/// else the non-empty column `xtset` declared for `df`, else the error of
/// command `cmd`.
pub open spec fn spec_panel_column(
    opts: Seq<(String, Value)>,
    panel: Seq<(Seq<char>, Seq<char>, Seq<char>)>,
    df: Seq<char>,
    time: bool,
    cmd: Seq<char>,
) -> Result<Seq<char>, ErrV> {
    let key = if time { "time"@ } else { "id"@ };
    let missing = ErrV::Runtime(cmd + " requires "@ + key + "= or xtset("@ + df + ", id, time)"@);
    match opt_get(opts, key) {
        Some(Val::Str(s)) => Ok(s),
        _ => match panel_lookup(panel, df) {
            Some((i, t)) => {
                let c = if time { t } else { i };
                if c.len() > 0 {
                    Ok(c)
                } else {
                    Err(missing)
                }
            },
            None => Err(missing),
        },
    }
}

/// What a panel diagnostic works on: the frame, the entity column, and the
/// time column where the command uses one.
pub struct PanelTarget {
    pub df: String,
    pub id: String,
    pub time: Option<String>,
}

/// The frame and panel columns of `cmd(df, formula, ...)`, or its error,
/// checked in order: argument count (`usage`), the frame argument, the
/// frame's existence, the formula (resolved by the caller, `formula`), the
/// entity column, and the time column when `need_time`.
pub open spec fn spec_panel_target(
    cmd: Seq<char>,
    usage: Seq<char>,
    need_time: bool,
    args: Seq<Expr>,
    opts: Seq<(String, Value)>,
    frames: Seq<Seq<char>>,
    panel: Seq<(Seq<char>, Seq<char>, Seq<char>)>,
    formula: Result<(), ErrV>,
) -> Result<(Seq<char>, Seq<char>, Option<Seq<char>>), ErrV> {
    if args.len() < 2 {
        Err(ErrV::Runtime(usage))
    } else {
        match var_arg(args[0]) {
            None => Err(ErrV::Type("first argument must be a DataFrame"@)),
            Some(df) => if !frames.contains(df) {
                Err(not_a_frame(df))
            } else {
                match formula {
                    Err(e) => Err(e),
                    Ok(()) => match spec_panel_column(opts, panel, df, false, cmd) {
                        Err(e) => Err(e),
                        Ok(id) => if need_time {
                            match spec_panel_column(opts, panel, df, true, cmd) {
                                Err(e) => Err(e),
                                Ok(t) => Ok((df, id, Some(t))),
                            }
                        } else {
                            Ok((df, id, None))
                        },
                    },
                }
            },
        }
    }
}

/// The abstract form of a unit result.
pub open spec fn unit_view(r: Result<(), HayashiError>) -> Result<(), ErrV> {
    match r {
        Ok(()) => Ok(()),
        Err(e) => Err(e@),
    }
}

/// The abstract form of a panel target or its error.
pub open spec fn target_view(r: Result<PanelTarget, HayashiError>) -> Result<
    (Seq<char>, Seq<char>, Option<Seq<char>>),
    ErrV,
> {
    match r {
        Ok(t) => Ok(
            (
                t.df@,
                t.id@,
                match t.time {
                    Some(s) => Some(s@),
                    None => None,
                },
            ),
        ),
        Err(e) => Err(e@),
    }
}

impl Interpreter {
    /// The column of one panel axis of `df` for command `cmd`.
    pub fn panel_column(&self, opt_map: &Vec<(String, Value)>, df: &str, time: bool, cmd: &str) -> (r: Result<
        String,
        HayashiError,
    >)
        ensures
            match (r, spec_panel_column(opt_map@, self@.panel, df@, time, cmd@)) {
                (Ok(s), Ok(x)) => s@ == x,
                (Err(e), Err(x)) => e@ == x,
                _ => false,
            },
    {
        let key = if time { "time" } else { "id" };
        match get_option(opt_map, key) {
            Some(Value::Str(s)) => {
                return Ok(s);
            },
            _ => {},
        }
        match panel_get(&self.panel_info, df) {
            Some((i, t)) => {
                let c = if time { t } else { i };
                if c.as_str().unicode_len() > 0 {
                    return Ok(c);
                }
            },
            None => {},
        }
        Err(
            HayashiError::Runtime(
                String::from_str(cmd).concat(" requires ").concat(key).concat("= or xtset(").concat(df).concat(
                    ", id, time)",
                ),
            ),
        )
    }

    /// The frame and panel columns of a panel diagnostic `cmd`, once the
    /// caller has resolved its formula argument (`formula`).
    pub fn panel_target(
        &self,
        cmd: &str,
        usage: &str,
        need_time: bool,
        args: &Vec<Expr>,
        opt_map: &Vec<(String, Value)>,
        frames: &Vec<String>,
        formula: Result<(), HayashiError>,
    ) -> (r: Result<PanelTarget, HayashiError>)
        ensures
            target_view(r) == spec_panel_target(
                cmd@,
                usage@,
                need_time,
                args@,
                opt_map@,
                strings_view(frames@),
                self@.panel,
                unit_view(formula),
            ),
    {
        if args.len() < 2 {
            return Err(HayashiError::Runtime(String::from_str(usage)));
        }
        let df = match &args[0] {
            Expr::Var(n) => n.clone(),
            _ => {
                return Err(HayashiError::Type(String::from_str("first argument must be a DataFrame")));
            },
        };
        if !frame_bound(frames, df.as_str()) {
            return Err(
                HayashiError::Runtime(String::from_str("'").concat(df.as_str()).concat("' is not a DataFrame")),
            );
        }
        match formula {
            Err(e) => {
                return Err(e);
            },
            Ok(()) => {},
        }
        let id = self.panel_column(opt_map, df.as_str(), false, cmd)?;
        let time = if need_time {
            Some(self.panel_column(opt_map, df.as_str(), true, cmd)?)
        } else {
            None
        };
        Ok(PanelTarget { df, id, time })
    }

    /// `wooldridge(df, y~x, id=, time=)`: the frame and panel columns of
    /// Wooldridge's test for serial correlation.
    pub fn wooldridge(&self, args: &Vec<Expr>, opt_map: &Vec<(String, Value)>, frames: &Vec<String>, formula: Result<
        (),
        HayashiError,
    >) -> (r: Result<PanelTarget, HayashiError>)
        ensures
            target_view(r) == spec_panel_target(
                "wooldridge"@,
                "wooldridge(df, y~x, id=\"entity\", time=\"time\")"@,
                true,
                args@,
                opt_map@,
                strings_view(frames@),
                self@.panel,
                unit_view(formula),
            ),
    {
        self.panel_target(
            "wooldridge",
            "wooldridge(df, y~x, id=\"entity\", time=\"time\")",
            true,
            args,
            opt_map,
            frames,
            formula,
        )
    }

    /// `abtest(df, y~x, id=, time=)`: the frame and panel columns of the
    /// Arellano-Bond test.
    pub fn abtest(&self, args: &Vec<Expr>, opt_map: &Vec<(String, Value)>, frames: &Vec<String>, formula: Result<
        (),
        HayashiError,
    >) -> (r: Result<PanelTarget, HayashiError>)
        ensures
            target_view(r) == spec_panel_target(
                "abtest"@,
                "abtest(df, y~x, id=\"entity\", time=\"time\")"@,
                true,
                args@,
                opt_map@,
                strings_view(frames@),
                self@.panel,
                unit_view(formula),
            ),
    {
        self.panel_target("abtest", "abtest(df, y~x, id=\"entity\", time=\"time\")", true, args, opt_map, frames, formula)
    }

    /// `pesaran(df, y~x, id=)`: the frame and entity column of Pesaran's
    /// cross-section dependence test.
    pub fn eval_pesaran(&self, args: &Vec<Expr>, opt_map: &Vec<(String, Value)>, frames: &Vec<String>, formula: Result<
        (),
        HayashiError,
    >) -> (r: Result<PanelTarget, HayashiError>)
        ensures
            target_view(r) == spec_panel_target(
                "pesaran"@,
                "pesaran(df, y~x, id=\"entity\", time=\"time\")"@,
                false,
                args@,
                opt_map@,
                strings_view(frames@),
                self@.panel,
                unit_view(formula),
            ),
    {
        self.panel_target("pesaran", "pesaran(df, y~x, id=\"entity\", time=\"time\")", false, args, opt_map, frames, formula)
    }

    /// `mundlak(df, y~x, id=)`: the frame and entity column of the Mundlak
    /// test.
    pub fn eval_mundlak(&self, args: &Vec<Expr>, opt_map: &Vec<(String, Value)>, frames: &Vec<String>, formula: Result<
        (),
        HayashiError,
    >) -> (r: Result<PanelTarget, HayashiError>)
        ensures
            target_view(r) == spec_panel_target(
                "mundlak"@,
                "mundlak(df, y~x, id=\"entity\")"@,
                false,
                args@,
                opt_map@,
                strings_view(frames@),
                self@.panel,
                unit_view(formula),
            ),
    {
        self.panel_target("mundlak", "mundlak(df, y~x, id=\"entity\")", false, args, opt_map, frames, formula)
    }
}

/// `hausman(fe, re)`: the variable names of the fixed-effects and the
/// random-effects model, each argument evaluated and checked in turn.
pub open spec fn sem_hausman(f: nat, s: IState, args: Seq<Expr>) -> Flow<
    (Option<Seq<Seq<char>>>, Option<Seq<Seq<char>>>),
> {
    if args.len() < 2 {
        Flow::Done(s, Err(ErrV::Runtime("hausman(fe_model, re_model)"@)))
    } else {
        match sem_expr(f, s, args[0]) {
            Flow::Done(s1, Ok(Val::Model { kind: ModelKind::Panel, variable_names: fe, .. })) => match sem_expr(
                f,
                s1,
                args[1],
            ) {
                Flow::Done(s2, Ok(Val::Model { kind: ModelKind::Re, variable_names: re, .. })) => Flow::Done(
                    s2,
                    Ok((fe, re)),
                ),
                Flow::Done(s2, Ok(_)) => Flow::Done(
                    s2,
                    Err(ErrV::Type("hausman(): second argument must be an RE model"@)),
                ),
                Flow::Done(s2, Err(e)) => Flow::Done(s2, Err(e)),
                Flow::Fault => Flow::Fault,
            },
            Flow::Done(s1, Ok(_)) => Flow::Done(s1, Err(ErrV::Type("hausman(): first argument must be an FE model"@))),
            Flow::Done(s1, Err(e)) => Flow::Done(s1, Err(e)),
            Flow::Fault => Flow::Fault,
        }
    }
}

/// The abstract form of optional names.
pub open spec fn opt_names_view(n: Option<Vec<String>>) -> Option<Seq<Seq<char>>> {
    match n {
        Some(v) => Some(strings_view(v@)),
        None => None,
    }
}

/// The abstract form of the two models' names or an error.
pub open spec fn hausman_view(r: Result<(Option<Vec<String>>, Option<Vec<String>>), HayashiError>) -> Result<
    (Option<Seq<Seq<char>>>, Option<Seq<Seq<char>>>),
    ErrV,
> {
    match r {
        Ok((a, b)) => Ok((opt_names_view(a), opt_names_view(b))),
        Err(e) => Err(e@),
    }
}

fn copy_names(n: &Option<Vec<String>>) -> (r: Option<Vec<String>>)
    ensures
        opt_names_view(r) == opt_names_view(*n),
{
    match n {
        Some(v) => Some(copy_strings(v)),
        None => None,
    }
}

/// The first position of `x` in `s`, or -1.
pub open spec fn first_pos(s: Seq<Seq<char>>, x: Seq<char>) -> int
    decreases s.len(),
{
    if s.len() == 0 {
        -1
    } else if s[0] == x {
        0
    } else {
        let r = first_pos(s.drop_first(), x);
        if r < 0 {
            -1
        } else {
            r + 1
        }
    }
}

proof fn lemma_first_pos_found(s: Seq<Seq<char>>, x: Seq<char>, k: int)
    requires
        0 <= k < s.len(),
        s[k] == x,
        forall|t: int| 0 <= t < k ==> s[t] != x,
    ensures
        first_pos(s, x) == k,
    decreases k,
{
    if k > 0 {
        assert(s[0] != x);
        lemma_first_pos_found(s.drop_first(), x, k - 1);
    }
}

proof fn lemma_first_pos_absent(s: Seq<Seq<char>>, x: Seq<char>)
    requires
        !s.contains(x),
    ensures
        first_pos(s, x) == -1,
    decreases s.len(),
{
    if s.len() > 0 {
        assert(s[0] != x);
        assert(!s.drop_first().contains(x)) by {
            if s.drop_first().contains(x) {
                let t = choose|t: int| 0 <= t < s.drop_first().len() && s.drop_first()[t] == x;
                assert(s[t + 1] == x);
            }
        }
        lemma_first_pos_absent(s.drop_first(), x);
    }
}

/// The coefficients the Hausman test compares: each fixed-effects name
/// other than `const` that the random-effects model also has, as its
/// position in each model (the first match in the random-effects names).
pub open spec fn hausman_pairs(fe: Seq<Seq<char>>, re: Seq<Seq<char>>) -> Seq<(usize, usize)>
    decreases fe.len(),
{
    if fe.len() == 0 {
        Seq::empty()
    } else {
        let front = hausman_pairs(fe.drop_last(), re);
        let name = fe.last();
        if name == "const"@ || first_pos(re, name) < 0 {
            front
        } else {
            front.push(((fe.len() - 1) as usize, first_pos(re, name) as usize))
        }
    }
}

proof fn lemma_first_pos_facts(s: Seq<Seq<char>>, x: Seq<char>)
    ensures
        first_pos(s, x) >= 0 ==> first_pos(s, x) < s.len() && s[first_pos(s, x)] == x,
    decreases s.len(),
{
    if s.len() > 0 && s[0] != x {
        lemma_first_pos_facts(s.drop_first(), x);
    }
}

/// The Hausman test compares like with like: each compared pair names the
/// same variable in both models, never `const`, and the pairs follow the
/// order of the fixed-effects coefficients.
pub proof fn lemma_hausman_pairs_match(fe: Seq<Seq<char>>, re: Seq<Seq<char>>)
    requires
        fe.len() <= usize::MAX,
        re.len() <= usize::MAX,
    ensures
        forall|k: int|
            0 <= k < hausman_pairs(fe, re).len() ==> {
                let p = #[trigger] hausman_pairs(fe, re)[k];
                &&& p.0 < fe.len()
                &&& p.1 < re.len()
                &&& fe[p.0 as int] == re[p.1 as int]
                &&& fe[p.0 as int] != "const"@
            },
        forall|a: int, b: int|
            0 <= a < b < hausman_pairs(fe, re).len() ==> hausman_pairs(fe, re)[a].0 < hausman_pairs(fe, re)[b].0,
    decreases fe.len(),
{
    if fe.len() > 0 {
        let front = fe.drop_last();
        lemma_hausman_pairs_match(front, re);
        lemma_first_pos_facts(re, fe.last());
        let hp = hausman_pairs(fe, re);
        let fp = hausman_pairs(front, re);
        let name = fe.last();
        let n1 = (fe.len() - 1) as usize;
        assert(fe[fe.len() - 1] == name);
        assert forall|k: int| 0 <= k < fp.len() implies (#[trigger] fp[k]).0 < front.len() && front[fp[k].0 as int] == fe[fp[k].0 as int] by {}
        if name == "const"@ || first_pos(re, name) < 0 {
            assert(hp == fp);
        } else {
            let j = first_pos(re, name) as usize;
            assert(hp == fp.push((n1, j)));
            assert forall|k: int| 0 <= k < hp.len() implies {
                let p = #[trigger] hp[k];
                &&& p.0 < fe.len()
                &&& p.1 < re.len()
                &&& fe[p.0 as int] == re[p.1 as int]
                &&& fe[p.0 as int] != "const"@
            } by {
                if k < fp.len() {
                    assert(hp[k] == fp[k]);
                } else {
                    assert(hp[k] == (n1, j));
                }
            }
            assert forall|a: int, b: int| 0 <= a < b < hp.len() implies hp[a].0 < hp[b].0 by {
                assert(hp[a] == fp[a]);
                if b < fp.len() {
                    assert(hp[b] == fp[b]);
                } else {
                    assert(hp[b] == (n1, j));
                }
            }
        }
    }
}

/// The position of the first `x` in `s`, if any.
pub(crate) fn find_first(s: &Vec<String>, x: &str) -> (r: Option<usize>)
    ensures
        match r {
            Some(j) => first_pos(strings_view(s@), x@) == j,
            None => first_pos(strings_view(s@), x@) == -1,
        },
{
    let ghost sv = strings_view(s@);
    let mut k: usize = 0;
    while k < s.len()
        invariant
            k <= s@.len(),
            sv == strings_view(s@),
            sv.len() == s@.len(),
            forall|t: int| 0 <= t < k ==> sv[t] != x@,
        decreases s@.len() - k,
    {
        assert(sv[k as int] == s@[k as int]@);
        if str_eq(s[k].as_str(), x) {
            proof {
                lemma_first_pos_found(sv, x@, k as int);
            }
            return Some(k);
        }
        k = k + 1;
    }
    proof {
        assert(!sv.contains(x@)) by {
            if sv.contains(x@) {
                let t = choose|t: int| 0 <= t < sv.len() && sv[t] == x@;
                assert(sv[t] != x@);
            }
        }
        lemma_first_pos_absent(sv, x@);
    }
    None
}

/// The coefficients the Hausman test compares, or the error when the two
/// models have none in common.
pub fn common_coefficients(fe: &Vec<String>, re: &Vec<String>) -> (r: Result<Vec<(usize, usize)>, HayashiError>)
    ensures
        match r {
            Ok(p) => p@ == hausman_pairs(strings_view(fe@), strings_view(re@)) && p@.len() > 0,
            Err(e) => hausman_pairs(strings_view(fe@), strings_view(re@)).len() == 0 && e@ == ErrV::Runtime(
                "hausman: no common variable between FE and RE (check variable_names)"@,
            ),
        },
{
    let ghost fv = strings_view(fe@);
    let ghost rv = strings_view(re@);
    let mut pairs: Vec<(usize, usize)> = Vec::new();
    let mut i: usize = 0;
    assert(fv.take(0) =~= Seq::<Seq<char>>::empty());
    while i < fe.len()
        invariant
            i <= fe@.len(),
            fv == strings_view(fe@),
            rv == strings_view(re@),
            fv.len() == fe@.len(),
            pairs@ == hausman_pairs(fv.take(i as int), rv),
        decreases fe@.len() - i,
    {
        proof {
            assert(fv.take(i + 1).drop_last() =~= fv.take(i as int));
            assert(fv.take(i + 1).last() == fe@[i as int]@);
        }
        let name = fe[i].as_str();
        if !str_eq(name, "const") {
            match find_first(re, name) {
                Some(j) => {
                    pairs.push((i, j));
                },
                None => {},
            }
        }
        i = i + 1;
    }
    assert(fv.take(fe@.len() as int) =~= fv);
    if pairs.len() == 0 {
        return Err(
            HayashiError::Runtime(
                String::from_str("hausman: no common variable between FE and RE (check variable_names)"),
            ),
        );
    }
    Ok(pairs)
}

/// The names `x0`, `x1`, ... of `k` coefficients without variable names.
pub open spec fn default_names(k: nat) -> Seq<Seq<char>> {
    Seq::new(k, |i: int| "x"@ + nat_digits(i as nat))
}

/// The names of `k` unnamed coefficients.
pub fn unnamed_coefficients(k: usize) -> (r: Vec<String>)
    ensures
        strings_view(r@) == default_names(k as nat),
{
    let mut r: Vec<String> = Vec::new();
    let mut i: usize = 0;
    while i < k
        invariant
            i <= k,
            r@.len() == i,
            forall|t: int| 0 <= t < i ==> (#[trigger] r@[t])@ == "x"@ + nat_digits(t as nat),
        decreases k - i,
    {
        let d = nat_to_string(i as u64);
        r.push(String::from_str("x").concat(d.as_str()));
        i = i + 1;
    }
    assert(strings_view(r@) =~= default_names(k as nat));
    r
}

impl Interpreter {
    /// `hausman(fe_model, re_model)`: the variable names of the two models
    /// whose coefficients the test compares.
    pub fn hausman(&mut self, args: &Vec<Expr>, fuel: u64) -> (r: Result<
        (Option<Vec<String>>, Option<Vec<String>>),
        HayashiError,
    >)
        requires
            sem_hausman(fuel as nat, old(self)@, args@) is Done,
        ensures
            sem_hausman(fuel as nat, old(self)@, args@) == Flow::Done(final(self)@, hausman_view(r)),
    {
        if args.len() < 2 {
            return Err(HayashiError::Runtime(String::from_str("hausman(fe_model, re_model)")));
        }
        let a = self.eval_expr(&args[0], fuel)?;
        let fe = match &a {
            Value::Model(m) => match m.kind {
                ModelKind::Panel => copy_names(&m.variable_names),
                _ => {
                    return Err(HayashiError::Type(String::from_str("hausman(): first argument must be an FE model")));
                },
            },
            _ => {
                return Err(HayashiError::Type(String::from_str("hausman(): first argument must be an FE model")));
            },
        };
        let b = self.eval_expr(&args[1], fuel)?;
        let re = match &b {
            Value::Model(m) => match m.kind {
                ModelKind::Re => copy_names(&m.variable_names),
                _ => {
                    return Err(HayashiError::Type(String::from_str("hausman(): second argument must be an RE model")));
                },
            },
            _ => {
                return Err(HayashiError::Type(String::from_str("hausman(): second argument must be an RE model")));
            },
        };
        Ok((fe, re))
    }
}

} // verus!
