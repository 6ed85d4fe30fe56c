//! The session controller: the working expression, the decisions taken on
//! it, and the way back.

use vstd::prelude::*;
use crate::capability::{listing, Step, StepProvider, Timer, ValidityChecker};

verus! {

/// Whether every clone of `e` is equal to `e`, so that a copy kept aside
/// stands for the expression that it was made from.
pub open spec fn copies_exactly<E: Clone>(e: E) -> bool {
    forall|copy: E| cloned(e, copy) ==> copy == e
}

/// A Programming by Navigation session over one step provider and one
/// validity checker.
///
/// The controller owns the working expression. With history enabled it also
/// keeps, oldest first, a copy of the expression that each decision was
/// taken on, which is what `undo` goes back to.
pub struct Controller<T: Timer, S: Step, P: StepProvider<T, S>, C: ValidityChecker<Exp = S::Exp>> {
    timer: T,
    provider: P,
    checker: C,
    state: S::Exp,
    history: Option<Vec<S::Exp>>,
}

impl<
    T: Timer,
    S: Step,
    P: StepProvider<T, S>,
    C: ValidityChecker<Exp = S::Exp>,
> Controller<T, S, P, C> {
    /// The timer that queries run under.
    pub closed spec fn timer(&self) -> T {
        self.timer
    }

    /// The step provider, as the last query left it.
    pub closed spec fn provider(&self) -> P {
        self.provider
    }

    /// The validity checker.
    pub closed spec fn checker(&self) -> C {
        self.checker
    }

    /// The working expression.
    pub closed spec fn expression(&self) -> S::Exp {
        self.state
    }

    /// The expressions that the decisions so far were taken on, oldest
    /// first; `None` where history is disabled.
    pub closed spec fn history(&self) -> Option<Seq<S::Exp>> {
        match self.history {
            Some(past) => Some(past@),
            None => None,
        }
    }

    /// Whether there is a decision to take back.
    pub open spec fn undoable(&self) -> bool {
        self.history() matches Some(past) && past.len() > 0
    }

    /// Whether `next` is this session after a query with the answer `out`:
    /// the provider gave an answer that it may give for the working
    /// expression, and nothing but the provider has changed.
    pub open spec fn asked(self, out: Result<Seq<S>, T::EarlyCutoff>, next: Self) -> bool {
        &&& self.provider().may_answer(&self.timer(), &self.expression(), out)
        &&& next.timer() == self.timer()
        &&& next.checker() == self.checker()
        &&& next.expression() == self.expression()
        &&& next.history() == self.history()
    }

    /// Whether `next` is this session after the decision for `step`: the
    /// working expression is one that `step` may yield on the former one,
    /// and the history, where enabled, has grown by a copy of the former
    /// one.
    pub open spec fn decided(self, step: S, next: Self) -> bool {
        &&& step.may_yield(&self.expression(), Some(next.expression()))
        &&& match self.history() {
            Some(past) => {
                &&& next.history() matches Some(now)
                &&& now.len() == past.len() + 1
                &&& now.drop_last() == past
                &&& cloned(self.expression(), now.last())
            },
            None => next.history() is None,
        }
        &&& next.timer() == self.timer()
        &&& next.provider() == self.provider()
        &&& next.checker() == self.checker()
    }

    /// Whether `next` is this session after the last decision was taken
    /// back: the newest entry of the history has become the working
    /// expression.
    pub open spec fn undone(self, next: Self) -> bool {
        &&& self.history() matches Some(past)
        &&& past.len() > 0
        &&& next.expression() == past.last()
        &&& next.history() == Some(past.drop_last())
        &&& next.timer() == self.timer()
        &&& next.provider() == self.provider()
        &&& next.checker() == self.checker()
    }

    /// Creates a session that starts at `start`. With `save_history` the
    /// session records its decisions, which enables `undo`; without, there
    /// is no history at all.
    pub fn new(timer: T, provider: P, checker: C, start: S::Exp, save_history: bool) -> (r: Self)
        ensures
            r.timer() == timer,
            r.provider() == provider,
            r.checker() == checker,
            r.expression() == start,
            r.history() == if save_history {
                Some(Seq::<S::Exp>::empty())
            } else {
                None
            },
    {
        Self {
            timer,
            provider,
            checker,
            state: start,
            history: if save_history {
                Some(Vec::new())
            } else {
                None
            },
        }
    }

    /// Asks the provider for the possible next steps on the working
    /// expression.
    pub fn provide(&mut self) -> (out: Result<Vec<S>, T::EarlyCutoff>)
        ensures
            old(self).asked(listing(out), *final(self)),
    {
        self.provider.provide(&self.timer, &self.state)
    }

    /// Decides for `step`, which must be one of those that the last query
    /// provided for the working expression: such a step applies to it.
    pub fn decide(&mut self, step: S)
        requires
            !step.may_yield(&old(self).expression(), None),
        ensures
            old(self).decided(step, *final(self)),
    {
        match &mut self.history {
            None => (),
            Some(past) => {
                past.push(self.state.clone());
                assert(past@.drop_last() =~= old(self).history().unwrap());
            },
        };
        self.state = step.apply(&self.state).unwrap();
    }

    /// The working expression.
    pub fn working_expression(&self) -> (e: &S::Exp)
        ensures
            *e == self.expression(),
    {
        &self.state
    }

    /// Whether the working expression is valid.
    pub fn valid(&self) -> (ok: bool)
        ensures
            self.checker().may_judge(&self.expression(), ok),
    {
        self.checker.check(&self.state)
    }

    /// Whether `undo` is applicable: history is enabled and holds a
    /// decision.
    pub fn can_undo(&self) -> (ok: bool)
        ensures
            ok == self.undoable(),
    {
        match &self.history {
            None => false,
            Some(past) => !past.is_empty(),
        }
    }

    /// Takes the last decision back.
    pub fn undo(&mut self)
        requires
            old(self).undoable(),
        ensures
            old(self).undone(*final(self)),
    {
        self.state = self.history.as_mut().unwrap().pop().unwrap();
    }
}

/// A decision applies its step. Where `step` can yield nothing but `e1` on
/// the working expression, the working expression after the decision for
/// `step` is `e1`.
pub proof fn lemma_decision_applies_step<
    T: Timer,
    S: Step,
    P: StepProvider<T, S>,
    C: ValidityChecker<Exp = S::Exp>,
>(c: Controller<T, S, P, C>, step: S, e1: S::Exp, next: Controller<T, S, P, C>)
    requires
        forall|o: Option<S::Exp>| #[trigger] step.may_yield(&c.expression(), o) ==> o == Some(e1),
        c.decided(step, next),
    ensures
        next.expression() == e1,
{
}

/// Without history there is never a decision to take back: a session whose
/// history is disabled stays so through every query and every decision, and
/// `undo` is not applicable in it.
pub proof fn lemma_disabled_history_stays_disabled<
    T: Timer,
    S: Step,
    P: StepProvider<T, S>,
    C: ValidityChecker<Exp = S::Exp>,
>(
    c: Controller<T, S, P, C>,
    out: Result<Seq<S>, T::EarlyCutoff>,
    step: S,
    next: Controller<T, S, P, C>,
)
    requires
        c.history() is None,
        c.asked(out, next) || c.decided(step, next),
    ensures
        !c.undoable(),
        next.history() is None,
        !next.undoable(),
{
}

/// A decision that is taken back leaves no trace. Where every clone of the
/// working expression is equal to it, a session with history that decides
/// for `step` can take the decision back, and is then at the expression and
/// with the history that it had before.
pub proof fn lemma_undo_reverts_decision<
    T: Timer,
    S: Step,
    P: StepProvider<T, S>,
    C: ValidityChecker<Exp = S::Exp>,
>(c0: Controller<T, S, P, C>, step: S, c1: Controller<T, S, P, C>, c2: Controller<T, S, P, C>)
    requires
        copies_exactly(c0.expression()),
        c0.history() is Some,
        c0.decided(step, c1),
        c1.undone(c2),
    ensures
        c1.undoable(),
        c2.expression() == c0.expression(),
        c2.history() == c0.history(),
        c2.timer() == c0.timer(),
        c2.provider() == c0.provider(),
        c2.checker() == c0.checker(),
{
}

/// With history, decisions can be walked back one by one. Let a session
/// with an empty history decide for `s1` and then for `s2`, let every clone
/// of the expression that either decision was taken on be equal to it, and
/// let both decisions then be taken back. The working expression after the two
/// decisions is one that `s2` may yield on one that `s1` may yield on the
/// expression at the start. The first `undo` is applicable and leads to the
/// expression that stood between the two decisions; the second is
/// applicable too and leads to the expression at the start, after which
/// nothing is left to take back.
pub proof fn lemma_undo_retraces_decisions<
    T: Timer,
    S: Step,
    P: StepProvider<T, S>,
    C: ValidityChecker<Exp = S::Exp>,
>(
    c0: Controller<T, S, P, C>,
    s1: S,
    c1: Controller<T, S, P, C>,
    s2: S,
    c2: Controller<T, S, P, C>,
    c3: Controller<T, S, P, C>,
    c4: Controller<T, S, P, C>,
)
    requires
        copies_exactly(c0.expression()),
        copies_exactly(c1.expression()),
        c0.history() == Some(Seq::<S::Exp>::empty()),
        c0.decided(s1, c1),
        c1.decided(s2, c2),
        c2.undone(c3),
        c3.undone(c4),
    ensures
        s1.may_yield(&c0.expression(), Some(c1.expression())),
        s2.may_yield(&c1.expression(), Some(c2.expression())),
        c2.undoable(),
        c3.expression() == c1.expression(),
        c3.undoable(),
        c4.expression() == c0.expression(),
        !c4.undoable(),
{
    lemma_undo_reverts_decision(c1, s2, c2, c3);
    assert(c1.undone(c4));
    lemma_undo_reverts_decision(c0, s1, c1, c4);
}

} // verus!
