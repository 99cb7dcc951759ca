//! The settings of a `parallel for` expression: the number of worker
//! threads it asks for, and the kind of sequence it runs over. Running the
//! iterations on threads is left to the caller.
use crate::ast::Expr;
use crate::interp::Interpreter;
use crate::semantics::{sem_expr, Flow, IState};
use crate::value::{ErrV, HayashiError, Val, Value};
use vstd::prelude::*;

verus! {

/// The thread count of `threads=`: a positive integer (converted as
/// `as usize` converts it), else no count (the default pool).
pub open spec fn thread_count(v: Val) -> Option<usize> {
    match v {
        Val::Int(n) => if n > 0 {
            Some(n as usize)
        } else {
            None
        },
        _ => None,
    }
}

/// The thread count of a `parallel for` with an optional `threads=`
/// expression, evaluated when it is given.
pub open spec fn sem_threads(f: nat, s: IState, threads: Option<Box<Expr>>) -> Flow<Option<usize>> {
    match threads {
        None => Flow::Done(s, Ok(None)),
        Some(e) => match sem_expr(f, s, *e) {
            Flow::Done(s1, Ok(v)) => Flow::Done(s1, Ok(thread_count(v))),
            Flow::Done(s1, Err(x)) => Flow::Done(s1, Err(x)),
            Flow::Fault => Flow::Fault,
        },
    }
}

/// The abstract form of a thread count or an error.
pub open spec fn count_view(r: Result<Option<usize>, HayashiError>) -> Result<Option<usize>, ErrV> {
    match r {
        Ok(c) => Ok(c),
        Err(e) => Err(e@),
    }
}

/// The sequences a `parallel for` runs over.
#[derive(PartialEq, Eq, Structural, Clone, Copy, Debug)]
pub enum IterKind {
    Range,
    RangeInclusive,
    Items,
}

/// The kind of sequence an iterator expression gives: a range `a..b`, an
/// inclusive range `a..=b`, or the items of any other value.
pub open spec fn spec_iter_kind(e: Expr) -> IterKind {
    match e {
        Expr::Range(_, _) => IterKind::Range,
        Expr::RangeInclusive(_, _) => IterKind::RangeInclusive,
        _ => IterKind::Items,
    }
}

/// The kind of sequence of an iterator expression.
pub fn iter_kind(e: &Expr) -> (k: IterKind)
    ensures
        k == spec_iter_kind(*e),
{
    match e {
        Expr::Range(_, _) => IterKind::Range,
        Expr::RangeInclusive(_, _) => IterKind::RangeInclusive,
        _ => IterKind::Items,
    }
}

impl Interpreter {
    /// The number of threads a `parallel for` expression asks for.
    pub fn eval_parallel_for_expr(&mut self, threads: &Option<Box<Expr>>, fuel: u64) -> (r: Result<
        Option<usize>,
        HayashiError,
    >)
        requires
            sem_threads(fuel as nat, old(self)@, *threads) is Done,
        ensures
            sem_threads(fuel as nat, old(self)@, *threads) == Flow::Done(final(self)@, count_view(r)),
    {
        match threads {
            None => Ok(None),
            Some(e) => match self.eval_expr(e, fuel)? {
                Value::Int(n) => if n > 0 {
                    Ok(Some(n as usize))
                } else {
                    Ok(None)
                },
                _ => Ok(None),
            },
        }
    }
}

} // verus!
