//! The concatenation strategy: every child is asked, and the lists are
//! joined in the order of the children.

use vstd::prelude::*;
use crate::capability::{listing, Step, StepProvider, Timer};

verus! {

/// A run of the concatenation strategy over `children`: the children at the
/// front of the list answered with `lists`, one list each and in order, and
/// the query then ended in `out`. It ends in `Ok` when every child has
/// answered, with the lists joined in order; it ends in `Err` when the next
/// child signalled a cutoff, with that cutoff.
pub open spec fn joined_run<T: Timer, S: Step>(
    children: Seq<Box<dyn StepProvider<T, S>>>,
    timer: &T,
    e: &S::Exp,
    lists: Seq<Seq<S>>,
    out: Result<Seq<S>, T::EarlyCutoff>,
) -> bool {
    &&& lists.len() <= children.len()
    &&& forall|i: int|
        0 <= i < lists.len() ==> (#[trigger] children[i]).may_answer(timer, e, Ok(lists[i]))
    &&& match out {
        Ok(steps) => lists.len() == children.len() && steps == lists.flatten(),
        Err(cutoff) => lists.len() < children.len() && children[lists.len() as int].may_answer(
            timer,
            e,
            Err(cutoff),
        ),
    }
}

/// A composition of other step providers: all provided steps are
/// concatenated.
#[verifier::reject_recursive_types(T)]
#[verifier::reject_recursive_types(S)]
pub struct CompoundProvider<T: Timer, S: Step> {
    providers: Vec<Box<dyn StepProvider<T, S>>>,
}

impl<T: Timer, S: Step> CompoundProvider<T, S> {
    /// The composed providers, in the order in which they are asked.
    pub closed spec fn children(&self) -> Seq<Box<dyn StepProvider<T, S>>> {
        self.providers@
    }

    /// Whether `next` is this provider after a query that it answered with
    /// `out`: the query went as some run of the strategy, and the children
    /// behind the last one that was asked are as they were.
    pub open spec fn queried(
        self,
        timer: &T,
        e: &S::Exp,
        out: Result<Seq<S>, T::EarlyCutoff>,
        next: Self,
    ) -> bool {
        &&& next.children().len() == self.children().len()
        &&& exists|lists: Seq<Seq<S>>|
            {
                &&& #[trigger] joined_run(self.children(), timer, e, lists, out)
                &&& forall|j: int|
                    lists.len() < j < self.children().len() ==> next.children()[j]
                        == self.children()[j]
            }
    }

    /// Creates a provider that composes `providers`, in that order.
    pub fn new(providers: Vec<Box<dyn StepProvider<T, S>>>) -> (r: Self)
        ensures
            r.children() == providers@,
    {
        Self { providers }
    }
}

impl<T: Timer, S: Step> StepProvider<T, S> for CompoundProvider<T, S> {
    open spec fn may_answer(
        &self,
        timer: &T,
        e: &S::Exp,
        out: Result<Seq<S>, T::EarlyCutoff>,
    ) -> bool {
        exists|lists: Seq<Seq<S>>| joined_run(self.children(), timer, e, lists, out)
    }

    /// Asks every child in order and joins their lists. The first cutoff
    /// ends the query at once: the lists gathered so far are dropped and the
    /// children behind the one that signalled it are left as they were.
    fn provide(&mut self, timer: &T, e: &S::Exp) -> (out: Result<Vec<S>, T::EarlyCutoff>)
        ensures
            old(self).queried(timer, e, listing(out), *final(self)),
    {
        let ghost before = self.providers@;
        let ghost mut lists: Seq<Seq<S>> = Seq::empty();
        let mut steps: Vec<S> = Vec::new();
        let mut i: usize = 0;
        while i < self.providers.len()
            invariant
                before == old(self).children(),
                i <= before.len(),
                self.providers@.len() == before.len(),
                forall|j: int| i <= j < before.len() ==> self.providers@[j] == before[j],
                lists.len() == i,
                forall|k: int|
                    0 <= k < i ==> (#[trigger] before[k]).may_answer(timer, e, Ok(lists[k])),
                steps@ == lists.flatten(),
            decreases before.len() - i,
        {
            match self.providers[i].provide(timer, e) {
                Ok(mut more) => {
                    proof {
                        lists.lemma_flatten_push(more@);
                        lists = lists.push(more@);
                    }
                    steps.append(&mut more);
                },
                Err(cutoff) => {
                    assert(joined_run(before, timer, e, lists, Err(cutoff)));
                    return Err(cutoff);
                },
            }
            i += 1;
        }
        assert(joined_run(before, timer, e, lists, Ok(steps@)));
        Ok(steps)
    }
}

/// Concatenation. Where every child can answer the query for `e` only with
/// its list in `lists`, a query to the compound provider gives those lists
/// joined in the order of the children, duplicates included.
pub proof fn lemma_compound_joins_every_list<T: Timer, S: Step>(
    p: CompoundProvider<T, S>,
    timer: &T,
    e: &S::Exp,
    lists: Seq<Seq<S>>,
    out: Result<Seq<S>, T::EarlyCutoff>,
    next: CompoundProvider<T, S>,
)
    requires
        lists.len() == p.children().len(),
        forall|i: int, o: Result<Seq<S>, T::EarlyCutoff>|
            0 <= i < lists.len() && (#[trigger] p.children()[i].may_answer(timer, e, o)) ==> o
                == Ok::<Seq<S>, T::EarlyCutoff>(lists[i]),
        p.queried(timer, e, out, next),
    ensures
        out == Ok::<Seq<S>, T::EarlyCutoff>(lists.flatten()),
{
    let got = choose|got: Seq<Seq<S>>| #[trigger] joined_run(p.children(), timer, e, got, out);
    assert forall|i: int| 0 <= i < got.len() implies got[i] == lists[i] by {
        assert(p.children()[i].may_answer(timer, e, Ok(got[i])));
    }
    if got.len() < p.children().len() {
        assert(p.children()[got.len() as int].may_answer(timer, e, out));
    }
    assert(got =~= lists);
}

/// Fail-fast. Where the children before the one at `k` can answer only with
/// a list and the child at `k` only with `cutoff`, a query to the compound
/// provider fails with `cutoff` and leaves every child behind `k` as it
/// was.
pub proof fn lemma_compound_stops_at_cutoff<T: Timer, S: Step>(
    p: CompoundProvider<T, S>,
    timer: &T,
    e: &S::Exp,
    k: int,
    cutoff: T::EarlyCutoff,
    out: Result<Seq<S>, T::EarlyCutoff>,
    next: CompoundProvider<T, S>,
)
    requires
        0 <= k < p.children().len(),
        forall|i: int, o: Result<Seq<S>, T::EarlyCutoff>|
            0 <= i < k && (#[trigger] p.children()[i].may_answer(timer, e, o)) ==> o is Ok,
        forall|o: Result<Seq<S>, T::EarlyCutoff>|
            (#[trigger] p.children()[k].may_answer(timer, e, o)) ==> o == Err::<
                Seq<S>,
                T::EarlyCutoff,
            >(cutoff),
        p.queried(timer, e, out, next),
    ensures
        out == Err::<Seq<S>, T::EarlyCutoff>(cutoff),
        forall|j: int| k < j < p.children().len() ==> next.children()[j] == p.children()[j],
{
    let got = choose|got: Seq<Seq<S>>|
        {
            &&& #[trigger] joined_run(p.children(), timer, e, got, out)
            &&& forall|j: int|
                got.len() < j < p.children().len() ==> next.children()[j] == p.children()[j]
        };
    if got.len() > k {
        assert(p.children()[k].may_answer(timer, e, Ok(got[k])));
    }
    if got.len() < k {
        assert(p.children()[got.len() as int].may_answer(timer, e, out));
    }
}

} // verus!
