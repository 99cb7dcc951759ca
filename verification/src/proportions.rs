//! The counts of the proportion tests (`proptest`, `propci`, `proptest2`)
//! and of the 2x2 chi-square test (`chisq2x2`): each argument is evaluated
//! in turn and must be an integer. The test statistics are floating point
//! and are computed by the caller from these counts.
use crate::ast::Expr;
use crate::interp::Interpreter;
use crate::semantics::{sem_expr, Flow, IState};
use crate::text::str_eq;
use crate::value::{ErrV, HayashiError, Val, Value};
use vstd::prelude::*;

verus! {

/// The tests that take counts.
#[derive(PartialEq, Eq, Structural, Clone, Copy, Debug)]
pub enum CountTest {
    Proptest,
    Propci,
    Proptest2,
    Chisq2x2,
}

/// How many counts a test takes.
pub open spec fn arity(t: CountTest) -> nat {
    match t {
        CountTest::Proptest | CountTest::Propci => 2,
        _ => 4,
    }
}

/// How a call of the test is written.
pub open spec fn count_usage(t: CountTest) -> Seq<char> {
    match t {
        CountTest::Proptest => "proptest(count, n, mu=0.5)"@,
        CountTest::Propci => "propci(count, n, alpha=0.05)"@,
        CountTest::Proptest2 => "proptest2(count1, n1, count2, n2)"@,
        CountTest::Chisq2x2 => "chisq2x2(a, b, c, d)"@,
    }
}

/// The error for argument `i` when it is not an integer.
pub open spec fn count_error(t: CountTest, i: int) -> Seq<char> {
    match t {
        CountTest::Proptest | CountTest::Propci => if i == 0 {
            "count must be integer"@
        } else {
            "n must be integer"@
        },
        CountTest::Proptest2 => "argumentos de proptest2() devem ser inteiros"@,
        CountTest::Chisq2x2 => "table cells must be integers"@,
    }
}

/// The counts of arguments `i..` after `acc`, each evaluated in turn and
/// converted as `as usize` converts an integer.
pub open spec fn sem_counts_from(f: nat, s: IState, t: CountTest, args: Seq<Expr>, i: int, acc: Seq<usize>) -> Flow<
    Seq<usize>,
>
    decreases arity(t) - i,
{
    if i < 0 || i >= arity(t) || i >= args.len() {
        Flow::Done(s, Ok(acc))
    } else {
        match sem_expr(f, s, args[i]) {
            Flow::Done(s1, Ok(Val::Int(v))) => sem_counts_from(f, s1, t, args, i + 1, acc.push(v as usize)),
            Flow::Done(s1, Ok(_)) => Flow::Done(s1, Err(ErrV::Type(count_error(t, i)))),
            Flow::Done(s1, Err(e)) => Flow::Done(s1, Err(e)),
            Flow::Fault => Flow::Fault,
        }
    }
}

/// The counts of a call of test `t`, or its error.
pub open spec fn sem_counts(f: nat, s: IState, t: CountTest, args: Seq<Expr>) -> Flow<Seq<usize>> {
    if args.len() < arity(t) {
        Flow::Done(s, Err(ErrV::Runtime(count_usage(t))))
    } else {
        sem_counts_from(f, s, t, args, 0, Seq::empty())
    }
}

/// The abstract form of counts or an error.
pub open spec fn counts_view(r: Result<Vec<usize>, HayashiError>) -> Result<Seq<usize>, ErrV> {
    match r {
        Ok(v) => Ok(v@),
        Err(e) => Err(e@),
    }
}

/// The test a command name asks for.
pub open spec fn spec_count_test(name: Seq<char>) -> Option<CountTest> {
    if name == "proptest"@ {
        Some(CountTest::Proptest)
    } else if name == "propci"@ {
        Some(CountTest::Propci)
    } else if name == "proptest2"@ {
        Some(CountTest::Proptest2)
    } else if name == "chisq2x2"@ {
        Some(CountTest::Chisq2x2)
    } else {
        None
    }
}

/// The command that runs a test on counts.
pub open spec fn count_test_name(t: CountTest) -> Seq<char> {
    match t {
        CountTest::Proptest => "proptest"@,
        CountTest::Propci => "propci"@,
        CountTest::Proptest2 => "proptest2"@,
        CountTest::Chisq2x2 => "chisq2x2"@,
    }
}

/// Each test on counts is run by the command of its own name, and no two share one.
pub proof fn lemma_count_test_names(t: CountTest)
    ensures
        spec_count_test(count_test_name(t)) == Some(t),
{
    reveal_strlit("chisq2x2");
    reveal_strlit("propci");
    reveal_strlit("proptest");
    reveal_strlit("proptest2");
    let n = count_test_name(t);
    match t {
        CountTest::Proptest => {
            assert(n.len() == 8);
        },
        CountTest::Propci => {
            assert(n.len() == 6);
        },
        CountTest::Proptest2 => {
            assert(n.len() == 9);
        },
        CountTest::Chisq2x2 => {
            assert(n.len() == 8);
            assert(n[0] == 'c' && "proptest"@[0] == 'p');
        },
    }
}

/// The count test named `name`.
pub fn count_test(name: &str) -> (r: Option<CountTest>)
    ensures
        r == spec_count_test(name@),
{
    if str_eq(name, "proptest") {
        Some(CountTest::Proptest)
    } else if str_eq(name, "propci") {
        Some(CountTest::Propci)
    } else if str_eq(name, "proptest2") {
        Some(CountTest::Proptest2)
    } else if str_eq(name, "chisq2x2") {
        Some(CountTest::Chisq2x2)
    } else {
        None
    }
}

fn usage_text(t: CountTest) -> (s: String)
    ensures
        s@ == count_usage(t),
{
    match t {
        CountTest::Proptest => String::from_str("proptest(count, n, mu=0.5)"),
        CountTest::Propci => String::from_str("propci(count, n, alpha=0.05)"),
        CountTest::Proptest2 => String::from_str("proptest2(count1, n1, count2, n2)"),
        CountTest::Chisq2x2 => String::from_str("chisq2x2(a, b, c, d)"),
    }
}

fn error_text(t: CountTest, i: usize) -> (s: String)
    ensures
        s@ == count_error(t, i as int),
{
    match t {
        CountTest::Proptest | CountTest::Propci => if i == 0 {
            String::from_str("count must be integer")
        } else {
            String::from_str("n must be integer")
        },
        CountTest::Proptest2 => String::from_str("argumentos de proptest2() devem ser inteiros"),
        CountTest::Chisq2x2 => String::from_str("table cells must be integers"),
    }
}

impl Interpreter {
    /// The counts of a call of test `t`, each argument evaluated in turn.
    pub fn eval_counts(&mut self, t: CountTest, args: &Vec<Expr>, fuel: u64) -> (r: Result<Vec<usize>, HayashiError>)
        requires
            sem_counts(fuel as nat, old(self)@, t, args@) is Done,
        ensures
            sem_counts(fuel as nat, old(self)@, t, args@) == Flow::Done(final(self)@, counts_view(r)),
    {
        let n: usize = match t {
            CountTest::Proptest | CountTest::Propci => 2,
            _ => 4,
        };
        if args.len() < n {
            return Err(HayashiError::Runtime(usage_text(t)));
        }
        let ghost s0 = self@;
        let mut counts: Vec<usize> = Vec::new();
        let mut i: usize = 0;
        while i < n
            invariant
                i <= n,
                n == arity(t),
                n <= args@.len(),
                s0 == old(self)@,
                sem_counts(fuel as nat, s0, t, args@) == sem_counts_from(fuel as nat, self@, t, args@, i as int, counts@),
                sem_counts_from(fuel as nat, self@, t, args@, i as int, counts@) is Done,
            decreases n - i,
        {
            let v = match self.eval_expr(&args[i], fuel) {
                Ok(v) => v,
                Err(e) => {
                    return Err(e);
                },
            };
            match v {
                Value::Int(x) => counts.push(x as usize),
                _ => {
                    return Err(HayashiError::Type(error_text(t, i)));
                },
            }
            i = i + 1;
        }
        Ok(counts)
    }
}

} // verus!
