//! The fallback strategy: the children are asked in order until one of them
//! has something to offer.

use vstd::prelude::*;
use crate::capability::{listing, Step, StepProvider, Timer};

verus! {

/// A run of the fallback strategy over `children`: the first `skipped`
/// children answered with an empty list, and the query then ended in `out`.
/// Where a child is left, it is the next one that ended it, with a list that
/// is not empty or with a cutoff; where none is left, the query ended with
/// the empty list.
pub open spec fn fallback_run<T: Timer, S: Step>(
    children: Seq<Box<dyn StepProvider<T, S>>>,
    timer: &T,
    e: &S::Exp,
    skipped: int,
    out: Result<Seq<S>, T::EarlyCutoff>,
) -> bool {
    &&& 0 <= skipped <= children.len()
    &&& forall|i: int|
        0 <= i < skipped ==> (#[trigger] children[i]).may_answer(timer, e, Ok(Seq::empty()))
    &&& if skipped < children.len() {
        &&& children[skipped].may_answer(timer, e, out)
        &&& out matches Ok(steps) ==> steps.len() > 0
    } else {
        out == Ok::<Seq<S>, T::EarlyCutoff>(Seq::empty())
    }
}

/// A provider that returns the first provided list of steps that is not
/// empty, or an empty list if there is none.
#[verifier::reject_recursive_types(T)]
#[verifier::reject_recursive_types(S)]
pub struct FallbackProvider<T: Timer, S: Step> {
    providers: Vec<Box<dyn StepProvider<T, S>>>,
}

impl<T: Timer, S: Step> FallbackProvider<T, S> {
    /// The composed providers, in the order in which they are asked.
    pub closed spec fn children(&self) -> Seq<Box<dyn StepProvider<T, S>>> {
        self.providers@
    }

    /// Whether `next` is this provider after a query that it answered with
    /// `out`: the query went as some run of the strategy, and the children
    /// behind the last one that was asked are as they were.
    pub open spec fn queried(
        self,
        timer: &T,
        e: &S::Exp,
        out: Result<Seq<S>, T::EarlyCutoff>,
        next: Self,
    ) -> bool {
        &&& next.children().len() == self.children().len()
        &&& exists|skipped: int|
            {
                &&& #[trigger] fallback_run(self.children(), timer, e, skipped, out)
                &&& forall|j: int|
                    skipped < j < self.children().len() ==> next.children()[j]
                        == self.children()[j]
            }
    }

    /// Creates a provider that falls back through `providers`, in that
    /// order.
    pub fn new(providers: Vec<Box<dyn StepProvider<T, S>>>) -> (r: Self)
        ensures
            r.children() == providers@,
    {
        Self { providers }
    }
}

impl<T: Timer, S: Step> StepProvider<T, S> for FallbackProvider<T, S> {
    open spec fn may_answer(
        &self,
        timer: &T,
        e: &S::Exp,
        out: Result<Seq<S>, T::EarlyCutoff>,
    ) -> bool {
        exists|skipped: int| fallback_run(self.children(), timer, e, skipped, out)
    }

    /// Asks the children in order and returns the first list that is not
    /// empty, or the first cutoff. The children behind the one that ended
    /// the query are left as they were.
    fn provide(&mut self, timer: &T, e: &S::Exp) -> (out: Result<Vec<S>, T::EarlyCutoff>)
        ensures
            old(self).queried(timer, e, listing(out), *final(self)),
    {
        let ghost before = self.providers@;
        let mut i: usize = 0;
        while i < self.providers.len()
            invariant
                before == old(self).children(),
                i <= before.len(),
                self.providers@.len() == before.len(),
                forall|j: int| i <= j < before.len() ==> self.providers@[j] == before[j],
                forall|k: int|
                    0 <= k < i ==> (#[trigger] before[k]).may_answer(
                        timer,
                        e,
                        Ok(Seq::empty()),
                    ),
            decreases before.len() - i,
        {
            let answer = self.providers[i].provide(timer, e);
            match answer {
                Ok(steps) => {
                    if !steps.is_empty() {
                        assert(fallback_run(before, timer, e, i as int, Ok(steps@)));
                        return Ok(steps);
                    }
                    assert(steps@ =~= Seq::empty());
                },
                Err(cutoff) => {
                    assert(fallback_run(before, timer, e, i as int, Err(cutoff)));
                    return Err(cutoff);
                },
            }
            i += 1;
        }
        let none: Vec<S> = Vec::new();
        assert(none@ =~= Seq::empty());
        assert(fallback_run(before, timer, e, i as int, Ok(none@)));
        Ok(none)
    }
}

/// Fallback. Let every child up to the first whose list in `lists` is not
/// empty be able to answer the query for `e` only with its list, and let
/// `k` be the place of that child, or the number of children where every
/// list is empty. Then a query to the fallback provider gives the list at
/// `k`, or the empty list where there is none, and leaves every child behind
/// `k` as it was.
pub proof fn lemma_fallback_gives_first_list<T: Timer, S: Step>(
    p: FallbackProvider<T, S>,
    timer: &T,
    e: &S::Exp,
    lists: Seq<Seq<S>>,
    k: int,
    out: Result<Seq<S>, T::EarlyCutoff>,
    next: FallbackProvider<T, S>,
)
    requires
        lists.len() == p.children().len(),
        0 <= k <= lists.len(),
        forall|i: int| 0 <= i < k ==> lists[i].len() == 0,
        k < lists.len() ==> lists[k].len() > 0,
        forall|i: int, o: Result<Seq<S>, T::EarlyCutoff>|
            0 <= i <= k && i < lists.len() && (#[trigger] p.children()[i].may_answer(
                timer,
                e,
                o,
            )) ==> o == Ok::<Seq<S>, T::EarlyCutoff>(lists[i]),
        p.queried(timer, e, out, next),
    ensures
        out == Ok::<Seq<S>, T::EarlyCutoff>(
            if k < lists.len() {
                lists[k]
            } else {
                Seq::empty()
            },
        ),
        forall|j: int| k < j < p.children().len() ==> next.children()[j] == p.children()[j],
{
    let skipped = choose|skipped: int|
        {
            &&& #[trigger] fallback_run(p.children(), timer, e, skipped, out)
            &&& forall|j: int|
                skipped < j < p.children().len() ==> next.children()[j] == p.children()[j]
        };
    if skipped > k {
        assert(p.children()[k].may_answer(timer, e, Ok(Seq::empty())));
    }
    if skipped < k {
        assert(p.children()[skipped].may_answer(timer, e, out));
    }
}

/// Fail-fast. Where the children before the one at `k` can answer only with
/// the empty list and the child at `k` only with `cutoff`, a query to the
/// fallback provider fails with `cutoff` and leaves every child behind `k`
/// as it was.
pub proof fn lemma_fallback_stops_at_cutoff<T: Timer, S: Step>(
    p: FallbackProvider<T, S>,
    timer: &T,
    e: &S::Exp,
    k: int,
    cutoff: T::EarlyCutoff,
    out: Result<Seq<S>, T::EarlyCutoff>,
    next: FallbackProvider<T, S>,
)
    requires
        0 <= k < p.children().len(),
        forall|i: int, o: Result<Seq<S>, T::EarlyCutoff>|
            0 <= i < k && (#[trigger] p.children()[i].may_answer(timer, e, o)) ==> o == Ok::<
                Seq<S>,
                T::EarlyCutoff,
            >(Seq::empty()),
        forall|o: Result<Seq<S>, T::EarlyCutoff>|
            (#[trigger] p.children()[k].may_answer(timer, e, o)) ==> o == Err::<
                Seq<S>,
                T::EarlyCutoff,
            >(cutoff),
        p.queried(timer, e, out, next),
    ensures
        out == Err::<Seq<S>, T::EarlyCutoff>(cutoff),
        forall|j: int| k < j < p.children().len() ==> next.children()[j] == p.children()[j],
{
    let skipped = choose|skipped: int|
        {
            &&& #[trigger] fallback_run(p.children(), timer, e, skipped, out)
            &&& forall|j: int|
                skipped < j < p.children().len() ==> next.children()[j] == p.children()[j]
        };
    if skipped > k {
        assert(p.children()[k].may_answer(timer, e, Ok(Seq::empty())));
    }
    if skipped < k {
        assert(p.children()[skipped].may_answer(timer, e, out));
    }
}

} // verus!
