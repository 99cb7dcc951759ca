//! String functions applied to a column of strings: `substr`, `upper`,
//! `lower`, `trim`, `str_replace`, and the regular-expression functions
//! `regexr`, `regexra`, `regexs` of the estimation library.
use crate::ast::{BinOp, Expr};
use crate::hypotheses::{trim, trimmed};
use crate::interp::Interpreter;
use crate::load::{lowercase, to_lowercase};
use crate::semantics::{sem_int_scalar, sem_str_scalar, Flow, IState};
use crate::text::str_eq;
use crate::value::{strings_view, ErrV, HayashiError};
use greeners::transforms::Transforms;
use vstd::prelude::*;

verus! {

/// Where `substr` starts in a string of `len` characters: a negative start
/// counts from the end, and the start is clamped to the string.
pub open spec fn substr_start(len: int, start: i64) -> int {
    let r = if start < 0 { len + start } else { start as int };
    if r < 0 {
        0
    } else if r > len {
        len
    } else {
        r
    }
}

/// `substr(s, start, count)`: at most `count` characters from the start;
/// without a count, the rest of the string.
pub open spec fn substr_of(s: Seq<char>, start: i64, count: usize) -> Seq<char> {
    let a = substr_start(s.len() as int, start);
    let e = if a + count < s.len() { a + count } else { s.len() as int };
    s.subrange(a, e)
}

/// `s` with every match of a non-empty `from` replaced by `to`, matches
/// taken left to right without overlapping.
pub open spec fn replace_nonempty(s: Seq<char>, from: Seq<char>, to: Seq<char>) -> Seq<char>
    decreases s.len(),
{
    if s.len() == 0 || from.len() == 0 {
        s
    } else if s.len() >= from.len() && s.take(from.len() as int) == from {
        to + replace_nonempty(s.skip(from.len() as int), from, to)
    } else {
        seq![s[0]] + replace_nonempty(s.drop_first(), from, to)
    }
}

/// `to` after each character of `s`.
pub open spec fn interleave(s: Seq<char>, to: Seq<char>) -> Seq<char>
    decreases s.len(),
{
    if s.len() == 0 {
        Seq::empty()
    } else {
        seq![s[0]] + to + interleave(s.drop_first(), to)
    }
}

/// `str::replace`: every match of `from` replaced by `to`; an empty `from`
/// matches before every character and at the end.
pub open spec fn replace_all(s: Seq<char>, from: Seq<char>, to: Seq<char>) -> Seq<char> {
    if from.len() == 0 {
        to + interleave(s, to)
    } else {
        replace_nonempty(s, from, to)
    }
}

/// What `str::to_uppercase` returns for `s`: its Unicode upper-case mapping.
pub uninterp spec fn uppercase(s: Seq<char>) -> Seq<char>;

/// Calls `str::to_uppercase`. The contract only names the result
/// (`uppercase` of the argument); the Unicode case tables it follows are
/// not restated here.
#[verifier::external_body]
fn to_uppercase(s: &str) -> (r: String)
    ensures
        r@ == uppercase(s@),
{
    s.to_uppercase()
}

/// What `Transforms::regexr_vec` returns: each string with the first match
/// of `pattern` replaced by `replacement` (a pattern that does not compile
/// leaves the strings as they are).
pub uninterp spec fn regexr_vec_result(strings: Seq<Seq<char>>, pattern: Seq<char>, replacement: Seq<char>) -> Seq<
    Seq<char>,
>;

/// Calls `Transforms::regexr_vec`, which maps each string to its result, so
/// the result has one string per input string; what each one is, the
/// contract only names.
#[verifier::external_body]
fn regexr_vec(strings: &Vec<String>, pattern: &str, replacement: &str) -> (r: Vec<String>)
    ensures
        strings_view(r@) == regexr_vec_result(strings_view(strings@), pattern@, replacement@),
        r@.len() == strings@.len(),
{
    Transforms::regexr_vec(strings, pattern, replacement)
}

/// What `Transforms::regexra` returns: `s` with every match of `pattern`
/// replaced by `replacement` (unchanged when the pattern does not compile).
pub uninterp spec fn regexra_result(s: Seq<char>, pattern: Seq<char>, replacement: Seq<char>) -> Seq<char>;

/// Calls `Transforms::regexra`; the contract only names the result.
#[verifier::external_body]
fn regexra(s: &str, pattern: &str, replacement: &str) -> (r: String)
    ensures
        r@ == regexra_result(s@, pattern@, replacement@),
{
    Transforms::regexra(s, pattern, replacement)
}

/// What `Transforms::regexs_vec` returns: for each string the first capture
/// group of the first match (the whole match without groups; empty when
/// nothing matches or the pattern does not compile).
pub uninterp spec fn regexs_vec_result(strings: Seq<Seq<char>>, pattern: Seq<char>) -> Seq<Seq<char>>;

/// Calls `Transforms::regexs_vec`, which maps each string to its result, so
/// the result has one string per input string; what each one is, the
/// contract only names.
#[verifier::external_body]
fn regexs_vec(strings: &Vec<String>, pattern: &str) -> (r: Vec<String>)
    ensures
        strings_view(r@) == regexs_vec_result(strings_view(strings@), pattern@),
        r@.len() == strings@.len(),
{
    Transforms::regexs_vec(strings, pattern)
}

fn char_at(s: &str, i: usize) -> (c: &str)
    requires
        i < s@.len() <= usize::MAX,
    ensures
        c@ == seq![s@[i as int]],
{
    let c = s.substring_char(i, i + 1);
    assert(c@ =~= seq![s@[i as int]]);
    c
}

fn matches_at(s: &str, i: usize, from: &str) -> (b: bool)
    requires
        i <= s@.len(),
    ensures
        b == (s@.len() - i >= from@.len() && s@.skip(i as int).take(from@.len() as int) == from@),
{
    let n = s.unicode_len();
    let m = from.unicode_len();
    if n - i < m {
        return false;
    }
    let mut k: usize = 0;
    while k < m
        invariant
            k <= m,
            n == s@.len(),
            m == from@.len(),
            i + m <= n,
            forall|t: int| 0 <= t < k ==> s@[i + t] == from@[t],
        decreases m - k,
    {
        if s.get_char(i + k) != from.get_char(k) {
            assert(s@.skip(i as int).take(m as int)[k as int] != from@[k as int]);
            return false;
        }
        k = k + 1;
    }
    assert(s@.skip(i as int).take(m as int) =~= from@);
    true
}

proof fn lemma_replace_short(s: Seq<char>, from: Seq<char>, to: Seq<char>)
    requires
        s.len() < from.len(),
    ensures
        replace_nonempty(s, from, to) == s,
    decreases s.len(),
{
    if s.len() > 0 {
        lemma_replace_short(s.drop_first(), from, to);
        assert(seq![s[0]] + s.drop_first() =~= s);
    }
}

/// `s` with every match of `from` replaced by `to`, as `str::replace` does.
pub fn replace_str(s: &str, from: &str, to: &str) -> (r: String)
    ensures
        r@ == replace_all(s@, from@, to@),
{
    let n = s.unicode_len();
    let m = from.unicode_len();
    if m == 0 {
        let mut acc = String::from_str(to);
        let mut i: usize = 0;
        assert(s@.skip(0) =~= s@);
        while i < n
            invariant
                i <= n,
                n == s@.len(),
                from@.len() == 0,
                acc@ + interleave(s@.skip(i as int), to@) == to@ + interleave(s@, to@),
            decreases n - i,
        {
            proof {
                let r = s@.skip(i as int);
                assert(r.drop_first() =~= s@.skip(i + 1));
                assert(r[0] == s@[i as int]);
                assert(acc@ + interleave(r, to@) =~= acc@ + seq![s@[i as int]] + to@ + interleave(
                    s@.skip(i + 1),
                    to@,
                ));
            }
            acc = acc.concat(char_at(s, i)).concat(to);
            i = i + 1;
        }
        proof {
            assert(s@.skip(n as int) =~= Seq::<char>::empty());
            assert(acc@ + interleave(s@.skip(n as int), to@) =~= acc@);
        }
        return acc;
    }
    let mut acc = String::new();
    let mut i: usize = 0;
    assert(s@.skip(0) =~= s@);
    while i < n
        invariant
            i <= n,
            n == s@.len(),
            m == from@.len(),
            m > 0,
            acc@ + replace_nonempty(s@.skip(i as int), from@, to@) == replace_nonempty(s@, from@, to@),
        decreases n - i,
    {
        let ghost r = s@.skip(i as int);
        if matches_at(s, i, from) {
            proof {
                assert(r.skip(m as int) =~= s@.skip(i + m));
                assert(acc@ + replace_nonempty(r, from@, to@) =~= acc@ + to@ + replace_nonempty(
                    s@.skip(i + m),
                    from@,
                    to@,
                ));
            }
            acc = acc.concat(to);
            i = i + m;
        } else {
            proof {
                assert(r.drop_first() =~= s@.skip(i + 1));
                assert(r[0] == s@[i as int]);
                assert(acc@ + replace_nonempty(r, from@, to@) =~= acc@ + seq![s@[i as int]]
                    + replace_nonempty(s@.skip(i + 1), from@, to@));
            }
            acc = acc.concat(char_at(s, i));
            i = i + 1;
        }
    }
    proof {
        assert(s@.skip(n as int) =~= Seq::<char>::empty());
        assert(acc@ + replace_nonempty(s@.skip(n as int), from@, to@) =~= acc@);
    }
    acc
}

/// `substr(s, start, count)` on one string.
pub fn substr_str(s: &str, start: i64, count: usize) -> (r: String)
    requires
        s@.len() <= i64::MAX,
    ensures
        r@ == substr_of(s@, start, count),
{
    let len = s.unicode_len();
    let l = len as i64;
    let raw: i64 = if start < 0 { l + start } else { start };
    let a: usize = if raw < 0 { 0 } else if raw > l { len } else { raw as usize };
    let e: usize = if count < len - a { a + count } else { len };
    String::from_str(s.substring_char(a, e))
}

/// Whether `func` is a string-column function, and whether it got the number
/// of arguments it takes.
pub open spec fn str_col_arity(func: Seq<char>, n: nat) -> Option<Result<(), ErrV>> {
    if func == "substr"@ {
        Some(
            if n < 2 || n > 3 {
                Err(ErrV::Runtime("substr(s, start [, length]) requires 2 or 3 arguments"@))
            } else {
                Ok(())
            },
        )
    } else if func == "upper"@ {
        Some(if n != 1 { Err(ErrV::Runtime("upper(s) requires 1 argument"@)) } else { Ok(()) })
    } else if func == "lower"@ {
        Some(if n != 1 { Err(ErrV::Runtime("lower(s) requires 1 argument"@)) } else { Ok(()) })
    } else if func == "trim"@ {
        Some(if n != 1 { Err(ErrV::Runtime("trim(s) requires 1 argument"@)) } else { Ok(()) })
    } else if func == "str_replace"@ {
        Some(
            if n != 3 {
                Err(ErrV::Runtime("str_replace(s, from, to) requires 3 arguments"@))
            } else {
                Ok(())
            },
        )
    } else if func == "regexr"@ {
        Some(
            if n != 3 {
                Err(ErrV::Runtime("regexr(s, pattern, replacement) requires 3 arguments"@))
            } else {
                Ok(())
            },
        )
    } else if func == "regexra"@ {
        Some(
            if n != 3 {
                Err(ErrV::Runtime("regexra(s, pattern, replacement) requires 3 arguments"@))
            } else {
                Ok(())
            },
        )
    } else if func == "regexs"@ {
        Some(if n != 2 { Err(ErrV::Runtime("regexs(s, pattern) requires 2 arguments"@)) } else { Ok(()) })
    } else {
        None
    }
}

fn err(m: &str) -> (e: HayashiError)
    ensures
        e@ == ErrV::Runtime(m@),
{
    HayashiError::Runtime(String::from_str(m))
}

/// Whether `func` is a string-column function, and the error for a wrong
/// number of arguments.
pub fn str_col_check(func: &str, n: usize) -> (r: Option<Result<(), HayashiError>>)
    ensures
        match (r, str_col_arity(func@, n as nat)) {
            (None, None) => true,
            (Some(Ok(())), Some(Ok(()))) => true,
            (Some(Err(e)), Some(Err(x))) => e@ == x,
            _ => false,
        },
{
    if str_eq(func, "substr") {
        Some(if n < 2 || n > 3 { Err(err("substr(s, start [, length]) requires 2 or 3 arguments")) } else { Ok(()) })
    } else if str_eq(func, "upper") {
        Some(if n != 1 { Err(err("upper(s) requires 1 argument")) } else { Ok(()) })
    } else if str_eq(func, "lower") {
        Some(if n != 1 { Err(err("lower(s) requires 1 argument")) } else { Ok(()) })
    } else if str_eq(func, "trim") {
        Some(if n != 1 { Err(err("trim(s) requires 1 argument")) } else { Ok(()) })
    } else if str_eq(func, "str_replace") {
        Some(if n != 3 { Err(err("str_replace(s, from, to) requires 3 arguments")) } else { Ok(()) })
    } else if str_eq(func, "regexr") {
        Some(if n != 3 { Err(err("regexr(s, pattern, replacement) requires 3 arguments")) } else { Ok(()) })
    } else if str_eq(func, "regexra") {
        Some(if n != 3 { Err(err("regexra(s, pattern, replacement) requires 3 arguments")) } else { Ok(()) })
    } else if str_eq(func, "regexs") {
        Some(if n != 2 { Err(err("regexs(s, pattern) requires 2 arguments")) } else { Ok(()) })
    } else {
        None
    }
}


/// The count of `substr`: the given length (negative counts as zero, as
/// `as usize` converts it), or all the rest.
pub open spec fn substr_count(c: Option<i64>) -> usize {
    match c {
        Some(v) => (if v < 0 { 0 } else { v }) as usize,
        None => usize::MAX,
    }
}

/// Every string of the column has a length that fits in `i64`, as the
/// positions of `substr` are signed.
pub open spec fn substr_defined(strs: Seq<Seq<char>>) -> bool {
    forall|i: int| 0 <= i < strs.len() ==> (#[trigger] strs[i]).len() <= i64::MAX
}

/// The strings of `substr` on a column.
pub open spec fn substr_column(strs: Seq<Seq<char>>, start: i64, count: usize) -> Seq<Seq<char>> {
    strs.map_values(|t: Seq<char>| substr_of(t, start, count))
}

/// A string-column function with the right number of arguments, applied
/// to the column `strs` after its other arguments are evaluated; `Fault`
/// where a string is too long for the signed positions of `substr`.
pub open spec fn sem_str_col(f: nat, s: IState, func: Seq<char>, args: Seq<Expr>, strs: Seq<Seq<char>>) -> Flow<
    Seq<Seq<char>>,
> {
    if func == "substr"@ {
        match sem_int_scalar(f, s, args[1], "substr: start"@) {
            Flow::Done(s1, Ok(start)) => {
                let cnt: Flow<Option<i64>> = if args.len() == 3 {
                    match sem_int_scalar(f, s1, args[2], "substr: length"@) {
                        Flow::Done(s2, Ok(c)) => Flow::Done(s2, Ok(Some(c))),
                        Flow::Done(s2, Err(x)) => Flow::Done(s2, Err(x)),
                        Flow::Fault => Flow::Fault,
                    }
                } else {
                    Flow::Done(s1, Ok(None))
                };
                match cnt {
                    Flow::Done(s2, Ok(c)) => if substr_defined(strs) {
                        Flow::Done(s2, Ok(substr_column(strs, start, substr_count(c))))
                    } else {
                        Flow::Fault
                    },
                    Flow::Done(s2, Err(x)) => Flow::Done(s2, Err(x)),
                    Flow::Fault => Flow::Fault,
                }
            },
            Flow::Done(s1, Err(x)) => Flow::Done(s1, Err(x)),
            Flow::Fault => Flow::Fault,
        }
    } else if func == "upper"@ {
        Flow::Done(s, Ok(strs.map_values(|t: Seq<char>| uppercase(t))))
    } else if func == "lower"@ {
        Flow::Done(s, Ok(strs.map_values(|t: Seq<char>| lowercase(t))))
    } else if func == "trim"@ {
        Flow::Done(s, Ok(strs.map_values(|t: Seq<char>| trimmed(t))))
    } else if func == "str_replace"@ {
        match sem_str_scalar(f, s, args[1], "str_replace: from"@) {
            Flow::Done(s1, Ok(from)) => match sem_str_scalar(f, s1, args[2], "str_replace: to"@) {
                Flow::Done(s2, Ok(to)) => Flow::Done(s2, Ok(strs.map_values(|t: Seq<char>| replace_all(t, from, to)))),
                Flow::Done(s2, Err(x)) => Flow::Done(s2, Err(x)),
                Flow::Fault => Flow::Fault,
            },
            Flow::Done(s1, Err(x)) => Flow::Done(s1, Err(x)),
            Flow::Fault => Flow::Fault,
        }
    } else if func == "regexr"@ || func == "regexra"@ {
        let (pctx, rctx) = if func == "regexr"@ {
            ("regexr: pattern"@, "regexr: replacement"@)
        } else {
            ("regexra: pattern"@, "regexra: replacement"@)
        };
        match sem_str_scalar(f, s, args[1], pctx) {
            Flow::Done(s1, Ok(p)) => match sem_str_scalar(f, s1, args[2], rctx) {
                Flow::Done(s2, Ok(r)) => Flow::Done(
                    s2,
                    Ok(
                        if func == "regexr"@ {
                            regexr_vec_result(strs, p, r)
                        } else {
                            strs.map_values(|t: Seq<char>| regexra_result(t, p, r))
                        },
                    ),
                ),
                Flow::Done(s2, Err(x)) => Flow::Done(s2, Err(x)),
                Flow::Fault => Flow::Fault,
            },
            Flow::Done(s1, Err(x)) => Flow::Done(s1, Err(x)),
            Flow::Fault => Flow::Fault,
        }
    } else {
        match sem_str_scalar(f, s, args[1], "regexs: pattern"@) {
            Flow::Done(s1, Ok(p)) => Flow::Done(s1, Ok(regexs_vec_result(strs, p))),
            Flow::Done(s1, Err(x)) => Flow::Done(s1, Err(x)),
            Flow::Fault => Flow::Fault,
        }
    }
}

/// The abstract form of a string column or an error.
pub open spec fn column_view(r: Result<Vec<String>, HayashiError>) -> Result<Seq<Seq<char>>, ErrV> {
    match r {
        Ok(v) => Ok(strings_view(v@)),
        Err(e) => Err(e@),
    }
}

/// Which per-string function a loop applies.
enum EachOp {
    Upper,
    Lower,
    Trim,
    Replace { from: String, to: String },
    RegexAll { pattern: String, replacement: String },
    Substr { start: i64, count: usize },
}

/// The result of one per-string function.
spec fn each_result(op: EachOp, t: Seq<char>) -> Seq<char> {
    match op {
        EachOp::Upper => uppercase(t),
        EachOp::Lower => lowercase(t),
        EachOp::Trim => trimmed(t),
        EachOp::Replace { from, to } => replace_all(t, from@, to@),
        EachOp::RegexAll { pattern, replacement } => regexra_result(t, pattern@, replacement@),
        EachOp::Substr { start, count } => substr_of(t, start, count),
    }
}

/// Whether the per-string function applies to `t`: `substr` needs a
/// length that fits in `i64`.
spec fn each_defined(op: EachOp, t: Seq<char>) -> bool {
    match op {
        EachOp::Substr { start, count } => t.len() <= i64::MAX,
        _ => true,
    }
}

fn apply_each(op: &EachOp, strs: &Vec<String>) -> (r: Vec<String>)
    requires
        forall|i: int| 0 <= i < strs@.len() ==> each_defined(*op, #[trigger] strs@[i]@),
    ensures
        strings_view(r@) == strings_view(strs@).map_values(|t: Seq<char>| each_result(*op, t)),
{
    let ghost sv = strings_view(strs@);
    let mut r: Vec<String> = Vec::new();
    let mut i: usize = 0;
    while i < strs.len()
        invariant
            i <= strs@.len(),
            sv == strings_view(strs@),
            forall|t: int| 0 <= t < strs@.len() ==> each_defined(*op, #[trigger] strs@[t]@),
            r@.len() == i,
            forall|t: int| 0 <= t < i ==> (#[trigger] r@[t])@ == each_result(*op, sv[t]),
        decreases strs@.len() - i,
    {
        let t = strs[i].as_str();
        let out = match op {
            EachOp::Upper => to_uppercase(t),
            EachOp::Lower => to_lowercase(t),
            EachOp::Trim => trim(t),
            EachOp::Replace { from, to } => replace_str(t, from.as_str(), to.as_str()),
            EachOp::RegexAll { pattern, replacement } => regexra(t, pattern.as_str(), replacement.as_str()),
            EachOp::Substr { start, count } => substr_str(t, *start, *count),
        };
        r.push(out);
        i = i + 1;
    }
    assert(strings_view(r@) =~= sv.map_values(|t: Seq<char>| each_result(*op, t)));
    r
}

/// A call `func(args)` in a column expression, with the column of its
/// first argument `strs`: not a string-column function (`None`), the error
/// for a wrong number of arguments, or the function applied.
pub open spec fn sem_str_col_call(f: nat, s: IState, func: Seq<char>, args: Seq<Expr>, strs: Seq<Seq<char>>) -> Flow<
    Option<Seq<Seq<char>>>,
> {
    match str_col_arity(func, args.len()) {
        None => Flow::Done(s, Ok(None)),
        Some(Err(x)) => Flow::Done(s, Err(x)),
        Some(Ok(())) => match sem_str_col(f, s, func, args, strs) {
            Flow::Done(s1, Ok(v)) => Flow::Done(s1, Ok(Some(v))),
            Flow::Done(s1, Err(x)) => Flow::Done(s1, Err(x)),
            Flow::Fault => Flow::Fault,
        },
    }
}

/// The abstract form of an optional string column or an error.
pub open spec fn opt_column_view(r: Result<Option<Vec<String>>, HayashiError>) -> Result<Option<Seq<Seq<char>>>, ErrV> {
    match r {
        Ok(Some(v)) => Ok(Some(strings_view(v@))),
        Ok(None) => Ok(None),
        Err(e) => Err(e@),
    }
}

impl Interpreter {
    /// A string-column function on the column `strs` (the values of its
    /// first argument, which the caller evaluates once `str_col_check` has
    /// accepted the call), its other arguments evaluated first.
    pub fn eval_str_col_func(&mut self, func: &str, args: &Vec<Expr>, strs: &Vec<String>, fuel: u64) -> (r: Result<
        Option<Vec<String>>,
        HayashiError,
    >)
        requires
            sem_str_col_call(fuel as nat, old(self)@, func@, args@, strings_view(strs@)) is Done,
        ensures
            sem_str_col_call(fuel as nat, old(self)@, func@, args@, strings_view(strs@)) == Flow::Done(
                final(self)@,
                opt_column_view(r),
            ),
    {
        match str_col_check(func, args.len()) {
            None => {
                return Ok(None);
            },
            Some(Err(e)) => {
                return Err(e);
            },
            Some(Ok(())) => {},
        }
        match self.apply_str_col(func, args, strs, fuel) {
            Ok(v) => Ok(Some(v)),
            Err(e) => Err(e),
        }
    }

    /// A string-column function with the right number of arguments.
    fn apply_str_col(&mut self, func: &str, args: &Vec<Expr>, strs: &Vec<String>, fuel: u64) -> (r: Result<
        Vec<String>,
        HayashiError,
    >)
        requires
            str_col_arity(func@, args@.len()) == Some(Ok::<(), ErrV>(())),
            sem_str_col(fuel as nat, old(self)@, func@, args@, strings_view(strs@)) is Done,
        ensures
            sem_str_col(fuel as nat, old(self)@, func@, args@, strings_view(strs@)) == Flow::Done(
                final(self)@,
                column_view(r),
            ),
    {
        let ghost sv = strings_view(strs@);
        if str_eq(func, "substr") {
            let start = self.eval_int_scalar(&args[1], "substr: start", fuel)?;
            let count: usize = if args.len() == 3 {
                let c = self.eval_int_scalar(&args[2], "substr: length", fuel)?;
                (if c < 0 { 0 } else { c }) as usize
            } else {
                usize::MAX
            };
            let op = EachOp::Substr { start, count };
            assert forall|i: int| 0 <= i < strs@.len() implies each_defined(op, #[trigger] strs@[i]@) by {
                assert(sv[i] == strs@[i]@);
            }
            let out = apply_each(&op, strs);
            assert(strings_view(out@) =~= substr_column(sv, start, count));
            return Ok(out);
        }
        if str_eq(func, "upper") {
            let out = apply_each(&EachOp::Upper, strs);
            assert(strings_view(out@) =~= sv.map_values(|t: Seq<char>| uppercase(t)));
            return Ok(out);
        }
        if str_eq(func, "lower") {
            let out = apply_each(&EachOp::Lower, strs);
            assert(strings_view(out@) =~= sv.map_values(|t: Seq<char>| lowercase(t)));
            return Ok(out);
        }
        if str_eq(func, "trim") {
            let out = apply_each(&EachOp::Trim, strs);
            assert(strings_view(out@) =~= sv.map_values(|t: Seq<char>| trimmed(t)));
            return Ok(out);
        }
        if str_eq(func, "str_replace") {
            let from = self.eval_str_scalar(&args[1], "str_replace: from", fuel)?;
            let to = self.eval_str_scalar(&args[2], "str_replace: to", fuel)?;
            let ghost fv = from@;
            let ghost tv = to@;
            let out = apply_each(&EachOp::Replace { from, to }, strs);
            assert(strings_view(out@) =~= sv.map_values(|t: Seq<char>| replace_all(t, fv, tv)));
            return Ok(out);
        }
        if str_eq(func, "regexr") {
            let p = self.eval_str_scalar(&args[1], "regexr: pattern", fuel)?;
            let rep = self.eval_str_scalar(&args[2], "regexr: replacement", fuel)?;
            return Ok(regexr_vec(strs, p.as_str(), rep.as_str()));
        }
        if str_eq(func, "regexra") {
            let p = self.eval_str_scalar(&args[1], "regexra: pattern", fuel)?;
            let rep = self.eval_str_scalar(&args[2], "regexra: replacement", fuel)?;
            let ghost pv = p@;
            let ghost rv = rep@;
            let out = apply_each(&EachOp::RegexAll { pattern: p, replacement: rep }, strs);
            assert(strings_view(out@) =~= sv.map_values(|t: Seq<char>| regexra_result(t, pv, rv)));
            return Ok(out);
        }
        let p = self.eval_str_scalar(&args[1], "regexs: pattern", fuel)?;
        Ok(regexs_vec(strs, p.as_str()))
    }
}

/// A comparison of a string column with a string literal, `col == "t"`,
/// `"t" == col` or their `!=` forms: the column, the literal, and whether
/// equality is asked for.
pub open spec fn spec_string_comparison(op: BinOp, lhs: Expr, rhs: Expr) -> Option<(Seq<char>, Seq<char>, bool)> {
    if op == BinOp::Eq || op == BinOp::Ne {
        match (lhs, rhs) {
            (Expr::Var(c), Expr::Str(t)) => Some((c@, t@, op == BinOp::Eq)),
            (Expr::Str(t), Expr::Var(c)) => Some((c@, t@, op == BinOp::Eq)),
            _ => None,
        }
    } else {
        None
    }
}

/// Whether `lhs op rhs` compares a string column with a literal.
pub fn string_comparison(op: BinOp, lhs: &Expr, rhs: &Expr) -> (r: Option<(String, String, bool)>)
    ensures
        match r {
            Some((c, t, e)) => spec_string_comparison(op, *lhs, *rhs) == Some((c@, t@, e)),
            None => spec_string_comparison(op, *lhs, *rhs) is None,
        },
{
    if op != BinOp::Eq && op != BinOp::Ne {
        return None;
    }
    let is_eq = op == BinOp::Eq;
    match (lhs, rhs) {
        (Expr::Var(c), Expr::Str(t)) => Some((c.clone(), t.clone(), is_eq)),
        (Expr::Str(t), Expr::Var(c)) => Some((c.clone(), t.clone(), is_eq)),
        _ => None,
    }
}

/// The comparison of each string with `target`: true where it is equal
/// (for `==`) or different (for `!=`).
pub open spec fn mask_of(strs: Seq<Seq<char>>, target: Seq<char>, is_eq: bool) -> Seq<bool> {
    strs.map_values(|s: Seq<char>| (s == target) == is_eq)
}

/// The comparison of each string of a column with `target`.
pub fn string_mask(strs: &Vec<String>, target: &str, is_eq: bool) -> (m: Vec<bool>)
    ensures
        m@ == mask_of(strings_view(strs@), target@, is_eq),
{
    let ghost sv = strings_view(strs@);
    let mut m: Vec<bool> = Vec::new();
    let mut i: usize = 0;
    while i < strs.len()
        invariant
            i <= strs@.len(),
            sv == strings_view(strs@),
            m@.len() == i,
            forall|t: int| 0 <= t < i ==> m@[t] == ((sv[t] == target@) == is_eq),
        decreases strs@.len() - i,
    {
        assert(sv[i as int] == strs@[i as int]@);
        m.push(str_eq(strs[i].as_str(), target) == is_eq);
        i = i + 1;
    }
    assert(m@ =~= sv.map_values(|s: Seq<char>| (s == target@) == is_eq));
    m
}

/// The rows a comparison with `==` keeps are exactly those that the same
/// comparison with `!=` drops.
pub proof fn lemma_masks_complement(strs: Seq<Seq<char>>, target: Seq<char>)
    ensures
        mask_of(strs, target, true).len() == strs.len(),
        mask_of(strs, target, false).len() == strs.len(),
        forall|i: int| 0 <= i < strs.len() ==> #[trigger] mask_of(strs, target, true)[i] != mask_of(strs, target, false)[i],
{
}

} // verus!
