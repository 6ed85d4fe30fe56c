//! The capabilities that a session is built from.
//!
//! Every capability has one operation and one relation. The relation holds
//! of a result exactly when the operation may give it; an implementation
//! that says nothing keeps the default, under which every result is
//! possible. Contracts elsewhere in the crate never assume more of a
//! capability than its relation.

use vstd::prelude::*;

verus! {

/// A cooperative budget, polled by providers during long searches.
pub trait Timer {
    /// The reasons for an early cutoff (out of time, out of memory, ...).
    type EarlyCutoff: std::fmt::Debug + std::fmt::Display;

    /// Whether a tick of this timer may give `out`.
    open spec fn may_signal(&self, out: Result<(), Self::EarlyCutoff>) -> bool {
        true
    }

    /// One cooperative tick: `Ok` while the budget lasts, the cutoff after.
    fn tick(&self) -> (out: Result<(), Self::EarlyCutoff>)
        ensures
            self.may_signal(out),
    ;
}

/// One transformation of an expression. The type also fixes what an
/// expression is.
pub trait Step {
    /// The expressions that steps of this type transform.
    type Exp: Clone;

    /// Whether applying this step to `e` may give `out`; `None` stands for
    /// a step that does not apply to `e`.
    open spec fn may_yield(&self, e: &Self::Exp, out: Option<Self::Exp>) -> bool {
        true
    }

    /// Applies the step to `e`, which is left as it is.
    fn apply(&self, e: &Self::Exp) -> (out: Option<Self::Exp>)
        ensures
            self.may_yield(e, out),
    ;
}

/// The notion of an acceptable expression.
pub trait ValidityChecker {
    /// The expressions that this checker judges.
    type Exp;

    /// Whether checking `e` may give `ok`.
    open spec fn may_judge(&self, e: &Self::Exp, ok: bool) -> bool {
        true
    }

    /// Whether `e` is valid.
    fn check(&self, e: &Self::Exp) -> (ok: bool)
        ensures
            self.may_judge(e, ok),
    ;
}

/// The answer of a provider as a value of specifications: the list of steps
/// by its view, the cutoff as it is.
pub open spec fn listing<S, C>(out: Result<Vec<S>, C>) -> Result<Seq<S>, C> {
    match out {
        Ok(steps) => Ok(steps@),
        Err(cutoff) => Err(cutoff),
    }
}

/// A source of candidate steps for a working expression. A provider may keep
/// state between queries; what a query leaves behind is its own affair.
pub trait StepProvider<T: Timer, S: Step> {
    /// Whether this provider, as it stands before the query, may answer a
    /// query for `e` under `timer` with `out`.
    open spec fn may_answer(
        &self,
        timer: &T,
        e: &S::Exp,
        out: Result<Seq<S>, T::EarlyCutoff>,
    ) -> bool {
        true
    }

    /// The candidate steps for `e`, in order, or the cutoff that `timer`
    /// signalled during the search.
    fn provide(&mut self, timer: &T, e: &S::Exp) -> (out: Result<Vec<S>, T::EarlyCutoff>)
        ensures
            old(self).may_answer(timer, e, listing(out)),
    ;
}

} // verus!
