//! `test(model, name, ...)` on a least-squares model: which test a call
//! asks for, how a hypothesis like `"x1 = x2"` is read, and how coefficient
//! names are found. The statistics are computed by the estimation library.
use crate::ast::Expr;
use crate::interp::Interpreter;
use crate::render::{render, render_value};
use crate::semantics::{sem_expr, Flow, IState};
use crate::text::str_eq;
use crate::value::{strings_view, ErrV, HayashiError, ModelKind, Val, Value};
use vstd::prelude::*;

verus! {

/// Whether `c` has the Unicode `White_Space` property (what `char::is_whitespace` tests).
pub open spec fn is_white(c: char) -> bool {
    ||| '\u{9}' <= c <= '\u{d}'
    ||| c == ' '
    ||| c == '\u{85}'
    ||| c == '\u{a0}'
    ||| c == '\u{1680}'
    ||| '\u{2000}' <= c <= '\u{200a}'
    ||| c == '\u{2028}'
    ||| c == '\u{2029}'
    ||| c == '\u{202f}'
    ||| c == '\u{205f}'
    ||| c == '\u{3000}'
}

/// The number of white-space characters at the start of `s`.
pub open spec fn lead(s: Seq<char>) -> nat
    decreases s.len(),
{
    if s.len() > 0 && is_white(s[0]) {
        1 + lead(s.drop_first())
    } else {
        0
    }
}

/// The number of white-space characters at the end of `s`.
pub open spec fn trail(s: Seq<char>) -> nat
    decreases s.len(),
{
    if s.len() > 0 && is_white(s.last()) {
        1 + trail(s.drop_last())
    } else {
        0
    }
}

/// `s` without leading and trailing white space (`str::trim`).
pub open spec fn trimmed(s: Seq<char>) -> Seq<char> {
    if lead(s) >= s.len() {
        Seq::empty()
    } else {
        s.subrange(lead(s) as int, s.len() - trail(s))
    }
}

proof fn lemma_lead(s: Seq<char>, i: int)
    requires
        0 <= i <= s.len(),
        forall|t: int| 0 <= t < i ==> is_white(#[trigger] s[t]),
        i == s.len() || !is_white(s[i]),
    ensures
        lead(s) == i,
    decreases i,
{
    if i > 0 {
        let r = s.drop_first();
        assert forall|t: int| 0 <= t < i - 1 implies is_white(#[trigger] r[t]) by {
            assert(r[t] == s[t + 1]);
        }
        if i < s.len() {
            assert(r[i - 1] == s[i]);
        }
        lemma_lead(r, i - 1);
    }
}

proof fn lemma_trail(s: Seq<char>, i: int)
    requires
        0 <= i <= s.len(),
        forall|t: int| 0 <= t < i ==> is_white(#[trigger] s[s.len() - 1 - t]),
        i == s.len() || !is_white(s[s.len() - 1 - i]),
    ensures
        trail(s) == i,
    decreases i,
{
    if i > 0 {
        let r = s.drop_last();
        assert forall|t: int| 0 <= t < i - 1 implies is_white(#[trigger] r[r.len() - 1 - t]) by {
            assert(r[r.len() - 1 - t] == s[s.len() - 1 - (t + 1)]);
        }
        if i < s.len() {
            assert(r[r.len() - 1 - (i - 1)] == s[s.len() - 1 - i]);
        }
        lemma_trail(r, i - 1);
    }
}

fn is_white_char(c: char) -> (b: bool)
    ensures
        b == is_white(c),
{
    ('\u{9}' <= c && c <= '\u{d}') || c == ' ' || c == '\u{85}' || c == '\u{a0}' || c == '\u{1680}'
        || ('\u{2000}' <= c && c <= '\u{200a}') || c == '\u{2028}' || c == '\u{2029}' || c
        == '\u{202f}' || c == '\u{205f}' || c == '\u{3000}'
}

/// `s` without leading and trailing white space.
pub fn trim(s: &str) -> (t: String)
    ensures
        t@ == trimmed(s@),
{
    let n = s.unicode_len();
    let mut a: usize = 0;
    while a < n && is_white_char(s.get_char(a))
        invariant
            a <= n,
            n == s@.len(),
            forall|t: int| 0 <= t < a ==> is_white(#[trigger] s@[t]),
        decreases n - a,
    {
        a = a + 1;
    }
    proof {
        lemma_lead(s@, a as int);
    }
    if a == n {
        return String::new();
    }
    let mut b: usize = 0;
    while b < n - a && is_white_char(s.get_char(n - 1 - b))
        invariant
            a < n,
            b <= n - a,
            n == s@.len(),
            forall|t: int| 0 <= t < b ==> is_white(#[trigger] s@[n - 1 - t]),
        decreases n - a - b,
    {
        b = b + 1;
    }
    proof {
        if b == n - a {
            assert(!is_white(s@[a as int]));
            assert(s@[n - 1 - (b - 1)] == s@[a as int]);
            assert(false);
        }
        lemma_trail(s@, b as int);
    }
    String::from_str(s.substring_char(a, n - b))
}

/// The position of the first `c` in `s`, if any.
pub open spec fn first_index(s: Seq<char>, c: char) -> Option<int> {
    if exists|i: int| 0 <= i < s.len() && s[i] == c {
        Some(choose|i: int| 0 <= i < s.len() && s[i] == c && forall|j: int| 0 <= j < i ==> s[j] != c)
    } else {
        None
    }
}

fn find_char(s: &str, c: char) -> (r: Option<usize>)
    ensures
        match r {
            Some(i) => i < s@.len() && s@[i as int] == c && forall|j: int| 0 <= j < i ==> s@[j] != c,
            None => forall|j: int| 0 <= j < s@.len() ==> s@[j] != c,
        },
{
    let n = s.unicode_len();
    let mut i: usize = 0;
    while i < n
        invariant
            i <= n,
            n == s@.len(),
            forall|j: int| 0 <= j < i ==> s@[j] != c,
        decreases n - i,
    {
        if s.get_char(i) == c {
            return Some(i);
        }
        i = i + 1;
    }
    None
}

proof fn lemma_first_index(s: Seq<char>, c: char, i: int)
    requires
        0 <= i < s.len(),
        s[i] == c,
        forall|j: int| 0 <= j < i ==> s[j] != c,
    ensures
        first_index(s, c) == Some(i),
{
    assert(exists|k: int| 0 <= k < s.len() && s[k] == c);
    let k = choose|k: int| 0 <= k < s.len() && s[k] == c && forall|j: int| 0 <= j < k ==> s[j] != c;
    assert(0 <= k < s.len() && s[k] == c && forall|j: int| 0 <= j < k ==> s[j] != c) by {
        assert(0 <= i < s.len() && s[i] == c && forall|j: int| 0 <= j < i ==> s[j] != c);
    }
    if k < i {
        assert(s[k] != c);
    }
    if i < k {
        assert(s[i] != c);
    }
}

proof fn lemma_first_match(s: Seq<Seq<char>>, x: Seq<char>, i: int)
    requires
        0 <= i < s.len(),
        s[i] == x,
        forall|j: int| 0 <= j < i ==> s[j] != x,
    ensures
        (choose|t: int| 0 <= t < s.len() && s[t] == x && forall|j: int| 0 <= j < t ==> s[j] != x) == i,
{
    assert(exists|t: int| 0 <= t < s.len() && s[t] == x && forall|j: int| 0 <= j < t ==> s[j] != x) by {
        assert(0 <= i < s.len() && s[i] == x && forall|j: int| 0 <= j < i ==> s[j] != x);
    }
    let c = choose|t: int| 0 <= t < s.len() && s[t] == x && forall|j: int| 0 <= j < t ==> s[j] != x;
    if c < i {
        assert(s[c] != x);
    }
    if i < c {
        assert(s[i] != x);
    }
}

/// Which test `test(model, name, ...)` runs.
pub enum TestPlan {
    White,
    BreuschPagan,
    DurbinWatson,
    /// `"lhs = rhs"`: a restriction between a coefficient and a number or
    /// another coefficient (both sides trimmed).
    Restriction { lhs: String, rhs: String },
    /// A joint test that the named coefficients are all zero.
    Joint { names: Vec<String> },
}

/// The abstract form of a test plan.
pub enum TestPlanV {
    White,
    BreuschPagan,
    DurbinWatson,
    Restriction { lhs: Seq<char>, rhs: Seq<char> },
    Joint { names: Seq<Seq<char>> },
}

impl View for TestPlan {
    type V = TestPlanV;

    open spec fn view(&self) -> TestPlanV {
        match self {
            TestPlan::White => TestPlanV::White,
            TestPlan::BreuschPagan => TestPlanV::BreuschPagan,
            TestPlan::DurbinWatson => TestPlanV::DurbinWatson,
            TestPlan::Restriction { lhs, rhs } => TestPlanV::Restriction { lhs: lhs@, rhs: rhs@ },
            TestPlan::Joint { names } => TestPlanV::Joint { names: strings_view(names@) },
        }
    }
}

/// The abstract form of a test plan or an error.
pub open spec fn test_plan_view(r: Result<TestPlan, HayashiError>) -> Result<TestPlanV, ErrV> {
    match r {
        Ok(p) => Ok(p@),
        Err(e) => Err(e@),
    }
}

/// Evaluates the extra coefficient names `args[i..]` of a joint test,
/// appending them to `acc`; each must be a string.
pub open spec fn sem_test_names(f: nat, s: IState, args: Seq<Expr>, i: int, acc: Seq<Seq<char>>) -> Flow<
    Seq<Seq<char>>,
>
    decreases args.len() - i,
{
    if i < 0 || i >= args.len() {
        Flow::Done(s, Ok(acc))
    } else {
        match sem_expr(f, s, args[i]) {
            Flow::Done(s1, Ok(Val::Str(n))) => sem_test_names(f, s1, args, i + 1, acc.push(n)),
            Flow::Done(s1, Ok(other)) => Flow::Done(
                s1,
                Err(ErrV::Type("test() variable names must be strings, got "@ + render(other))),
            ),
            Flow::Done(s1, Err(x)) => Flow::Done(s1, Err(x)),
            Flow::Fault => Flow::Fault,
        }
    }
}

/// The plan for a test named `name` on a least-squares model with the
/// given variable names, the extra arguments still to evaluate.
pub open spec fn sem_named_test(
    f: nat,
    s: IState,
    name: Seq<char>,
    variable_names: Option<Seq<Seq<char>>>,
    args: Seq<Expr>,
) -> Flow<TestPlanV> {
    if name == "white"@ {
        Flow::Done(s, Ok(TestPlanV::White))
    } else if name == "bp"@ {
        Flow::Done(s, Ok(TestPlanV::BreuschPagan))
    } else if name == "dw"@ {
        Flow::Done(s, Ok(TestPlanV::DurbinWatson))
    } else if variable_names is None {
        Flow::Done(s, Err(ErrV::Runtime("model has no variable names"@)))
    } else {
        match first_index(name, '=') {
            Some(p) => Flow::Done(
                s,
                Ok(
                    TestPlanV::Restriction {
                        lhs: trimmed(name.take(p)),
                        rhs: trimmed(name.subrange(p + 1, name.len() as int)),
                    },
                ),
            ),
            None => match sem_test_names(f, s, args, 2, seq![name]) {
                Flow::Done(s1, Ok(names)) => Flow::Done(s1, Ok(TestPlanV::Joint { names })),
                Flow::Done(s1, Err(x)) => Flow::Done(s1, Err(x)),
                Flow::Fault => Flow::Fault,
            },
        }
    }
}

/// `test(model, name, ...)`: the model must be a least-squares fit and the
/// name a string.
pub open spec fn sem_test(f: nat, s: IState, args: Seq<Expr>) -> Flow<TestPlanV> {
    if args.len() < 2 {
        Flow::Done(s, Err(ErrV::Runtime("test(model, name) requires 2 arguments"@)))
    } else {
        match sem_expr(f, s, args[0]) {
            Flow::Done(s1, Ok(m)) => match m {
                Val::Model { kind: ModelKind::Ols, variable_names, .. } => match sem_expr(f, s1, args[1]) {
                    Flow::Done(s2, Ok(Val::Str(name))) => sem_named_test(f, s2, name, variable_names, args),
                    Flow::Done(s2, Ok(other)) => Flow::Done(
                        s2,
                        Err(ErrV::Type("test name must be a string (e.g. \"white\"), got "@ + render(other))),
                    ),
                    Flow::Done(s2, Err(x)) => Flow::Done(s2, Err(x)),
                    Flow::Fault => Flow::Fault,
                },
                _ => Flow::Done(s1, Err(ErrV::Type("test() currently supports OLS models only"@))),
            },
            Flow::Done(s1, Err(x)) => Flow::Done(s1, Err(x)),
            Flow::Fault => Flow::Fault,
        }
    }
}

impl Interpreter {
    fn test_names(&mut self, args: &Vec<Expr>, first: String, fuel: u64) -> (r: Result<Vec<String>, HayashiError>)
        requires
            sem_test_names(fuel as nat, old(self)@, args@, 2, seq![first@]) is Done,
        ensures
            sem_test_names(fuel as nat, old(self)@, args@, 2, seq![first@]) == Flow::Done(
                final(self)@,
                match r {
                    Ok(v) => Ok(strings_view(v@)),
                    Err(e) => Err(e@),
                },
            ),
    {
        let mut names: Vec<String> = Vec::new();
        names.push(first);
        assert(strings_view(names@) =~= seq![names@[0]@]);
        let mut i: usize = 2;
        while i < args.len()
            invariant
                2 <= i,
                sem_test_names(fuel as nat, old(self)@, args@, 2, seq![first@]) == sem_test_names(
                    fuel as nat,
                    self@,
                    args@,
                    i as int,
                    strings_view(names@),
                ),
                sem_test_names(fuel as nat, self@, args@, i as int, strings_view(names@)) is Done,
            decreases args@.len() - i,
        {
            let v = self.eval_expr(&args[i], fuel)?;
            match v {
                Value::Str(n) => {
                    let ghost before = names@;
                    names.push(n);
                    assert(strings_view(names@) =~= strings_view(before).push(names@.last()@));
                },
                other => {
                    return Err(
                        HayashiError::Type(
                            String::from_str("test() variable names must be strings, got ").concat(
                                render_value(&other).as_str(),
                            ),
                        ),
                    );
                },
            }
            i = i + 1;
        }
        Ok(names)
    }

    /// `test(model, name, ...)` on a least-squares model: which test runs.
    pub fn test(&mut self, args: &Vec<Expr>, fuel: u64) -> (r: Result<TestPlan, HayashiError>)
        requires
            sem_test(fuel as nat, old(self)@, args@) is Done,
        ensures
            sem_test(fuel as nat, old(self)@, args@) == Flow::Done(final(self)@, test_plan_view(r)),
    {
        if args.len() < 2 {
            return Err(HayashiError::Runtime(String::from_str("test(model, name) requires 2 arguments")));
        }
        let m = self.eval_expr(&args[0], fuel)?;
        let has_names = match &m {
            Value::Model(ms) => match ms.kind {
                ModelKind::Ols => ms.variable_names.is_some(),
                _ => {
                    return Err(HayashiError::Type(String::from_str("test() currently supports OLS models only")));
                },
            },
            _ => {
                return Err(HayashiError::Type(String::from_str("test() currently supports OLS models only")));
            },
        };
        let nv = self.eval_expr(&args[1], fuel)?;
        let name = match nv {
            Value::Str(n) => n,
            other => {
                return Err(
                    HayashiError::Type(
                        String::from_str("test name must be a string (e.g. \"white\"), got ").concat(
                            render_value(&other).as_str(),
                        ),
                    ),
                );
            },
        };
        if str_eq(name.as_str(), "white") {
            return Ok(TestPlan::White);
        }
        if str_eq(name.as_str(), "bp") {
            return Ok(TestPlan::BreuschPagan);
        }
        if str_eq(name.as_str(), "dw") {
            return Ok(TestPlan::DurbinWatson);
        }
        if !has_names {
            return Err(HayashiError::Runtime(String::from_str("model has no variable names")));
        }
        match find_char(name.as_str(), '=') {
            Some(p) => {
                proof {
                    lemma_first_index(name@, '=', p as int);
                }
                let n = name.as_str().unicode_len();
                let lhs = trim(name.as_str().substring_char(0, p));
                let rhs = trim(name.as_str().substring_char(p + 1, n));
                proof {
                    assert(name@.subrange(0, p as int) =~= name@.take(p as int));
                }
                Ok(TestPlan::Restriction { lhs, rhs })
            },
            None => {
                assert(first_index(name@, '=') is None);
                let names = self.test_names(args, name, fuel)?;
                Ok(TestPlan::Joint { names })
            },
        }
    }
}

/// Where a coefficient name points among `names` (its trimmed form), with
/// `_cons` and `const` standing for the last of the `k` coefficients.
pub open spec fn spec_coef_index(names: Seq<Seq<char>>, k: usize, name: Seq<char>) -> Result<usize, ErrV> {
    let n = trimmed(name);
    if exists|i: int| 0 <= i < names.len() && names[i] == n {
        Ok(
            (choose|i: int|
                0 <= i < names.len() && names[i] == n && forall|j: int| 0 <= j < i ==> names[j] != n) as usize,
        )
    } else if n == "_cons"@ || n == "const"@ {
        Ok((k - 1) as usize)
    } else {
        Err(ErrV::Runtime("variable '"@ + n + "' not found in model"@))
    }
}

/// The one input on which the lookup cannot go on: the intercept of a
/// model without coefficients.
pub open spec fn coef_index_undefined(names: Seq<Seq<char>>, k: usize, name: Seq<char>) -> bool {
    let n = trimmed(name);
    k == 0 && !names.contains(n) && (n == "_cons"@ || n == "const"@)
}

/// The position of a coefficient named in a hypothesis.
pub fn coef_index(names: &Vec<String>, k: usize, name: &str) -> (r: Result<usize, HayashiError>)
    requires
        !coef_index_undefined(strings_view(names@), k, name@),
    ensures
        match (r, spec_coef_index(strings_view(names@), k, name@)) {
            (Ok(a), Ok(b)) => a == b,
            (Err(a), Err(b)) => a@ == b,
            _ => false,
        },
{
    let n = trim(name);
    let ghost nv = strings_view(names@);
    let mut i: usize = 0;
    while i < names.len()
        invariant
            i <= names@.len(),
            nv == strings_view(names@),
            nv.len() == names@.len(),
            n@ == trimmed(name@),
            forall|j: int| 0 <= j < i ==> nv[j] != n@,
        decreases names@.len() - i,
    {
        if str_eq(names[i].as_str(), n.as_str()) {
            proof {
                assert(nv[i as int] == n@);
                assert(exists|t: int| 0 <= t < nv.len() && nv[t] == n@);
                lemma_first_match(nv, n@, i as int);
            }
            return Ok(i);
        }
        i = i + 1;
    }
    assert(!nv.contains(n@)) by {
        if nv.contains(n@) {
            let t = choose|t: int| 0 <= t < nv.len() && nv[t] == n@;
            assert(nv[t] != n@);
        }
    }
    if str_eq(n.as_str(), "_cons") || str_eq(n.as_str(), "const") {
        Ok(k - 1)
    } else {
        Err(HayashiError::Runtime(String::from_str("variable '").concat(n.as_str()).concat("' not found in model")))
    }
}

} // verus!
