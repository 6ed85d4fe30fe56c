use pbn::{CompoundProvider, FallbackProvider, Step, StepProvider, Timer};
use std::cell::Cell;
use std::rc::Rc;

/// A timer that allows a fixed number of ticks.
struct Budget {
    left: Cell<u32>,
}

impl Budget {
    fn of(ticks: u32) -> Self {
        Budget { left: Cell::new(ticks) }
    }
}

impl Timer for Budget {
    type EarlyCutoff = String;

    fn tick(&self) -> Result<(), String> {
        if self.left.get() == 0 {
            return Err(String::from("out of budget"));
        }
        self.left.set(self.left.get() - 1);
        Ok(())
    }
}

#[derive(Clone, Debug, PartialEq)]
struct Add(i64);

impl Step for Add {
    type Exp = i64;

    fn apply(&self, e: &i64) -> Option<i64> {
        e.checked_add(self.0)
    }
}

type Child = Box<dyn StepProvider<Budget, Add>>;

/// Answers every query with the same list and counts the queries.
struct Listed {
    steps: Vec<Add>,
    calls: Rc<Cell<usize>>,
}

impl StepProvider<Budget, Add> for Listed {
    fn provide(&mut self, _timer: &Budget, _e: &i64) -> Result<Vec<Add>, String> {
        self.calls.set(self.calls.get() + 1);
        Ok(self.steps.clone())
    }
}

/// Answers every query with the same cutoff and counts the queries.
struct Failing {
    reason: String,
    calls: Rc<Cell<usize>>,
}

impl StepProvider<Budget, Add> for Failing {
    fn provide(&mut self, _timer: &Budget, _e: &i64) -> Result<Vec<Add>, String> {
        self.calls.set(self.calls.get() + 1);
        Err(self.reason.clone())
    }
}

/// Ticks the timer a number of times before it answers.
struct Polling {
    ticks: u32,
    steps: Vec<Add>,
}

impl StepProvider<Budget, Add> for Polling {
    fn provide(&mut self, timer: &Budget, _e: &i64) -> Result<Vec<Add>, String> {
        for _ in 0..self.ticks {
            timer.tick()?;
        }
        Ok(self.steps.clone())
    }
}

/// Offers one step, which adds the expression that it was asked about.
struct Doubling;

impl StepProvider<Budget, Add> for Doubling {
    fn provide(&mut self, _timer: &Budget, e: &i64) -> Result<Vec<Add>, String> {
        Ok(vec![Add(*e)])
    }
}

/// Offers one step, which adds the number of queries so far.
struct Counting {
    seen: i64,
}

impl StepProvider<Budget, Add> for Counting {
    fn provide(&mut self, _timer: &Budget, _e: &i64) -> Result<Vec<Add>, String> {
        self.seen += 1;
        Ok(vec![Add(self.seen)])
    }
}

fn counter() -> Rc<Cell<usize>> {
    Rc::new(Cell::new(0))
}

fn listed(steps: &[i64], calls: &Rc<Cell<usize>>) -> Child {
    Box::new(Listed { steps: steps.iter().map(|n| Add(*n)).collect(), calls: calls.clone() })
}

fn failing(reason: &str, calls: &Rc<Cell<usize>>) -> Child {
    Box::new(Failing { reason: String::from(reason), calls: calls.clone() })
}

fn adds(steps: &[i64]) -> Vec<Add> {
    steps.iter().map(|n| Add(*n)).collect()
}

#[test]
fn compound_joins_lists_in_order() {
    let calls = counter();
    let mut p = CompoundProvider::new(vec![
        listed(&[1, 2], &calls),
        listed(&[], &calls),
        listed(&[3, 1], &calls),
        listed(&[1], &calls),
    ]);
    assert_eq!(p.provide(&Budget::of(0), &0), Ok(adds(&[1, 2, 3, 1, 1])));
}

#[test]
fn compound_of_one_child_gives_its_list() {
    let calls = counter();
    let mut p = CompoundProvider::new(vec![listed(&[4, 4, 2], &calls)]);
    assert_eq!(p.provide(&Budget::of(0), &0), Ok(adds(&[4, 4, 2])));
}

#[test]
fn compound_of_nothing_is_empty() {
    let mut p: CompoundProvider<Budget, Add> = CompoundProvider::new(vec![]);
    assert_eq!(p.provide(&Budget::of(0), &0), Ok(vec![]));
}

#[test]
fn compound_asks_every_child_once() {
    let (a, b, c) = (counter(), counter(), counter());
    let mut p = CompoundProvider::new(vec![listed(&[1], &a), listed(&[], &b), listed(&[2], &c)]);
    assert!(p.provide(&Budget::of(0), &0).is_ok());
    assert_eq!((a.get(), b.get(), c.get()), (1, 1, 1));
    assert!(p.provide(&Budget::of(0), &0).is_ok());
    assert_eq!((a.get(), b.get(), c.get()), (2, 2, 2));
}

#[test]
fn compound_stops_at_first_cutoff() {
    let (a, b, c, d) = (counter(), counter(), counter(), counter());
    let mut p = CompoundProvider::new(vec![
        listed(&[1, 2], &a),
        failing("first", &b),
        listed(&[3], &c),
        failing("second", &d),
    ]);
    assert_eq!(p.provide(&Budget::of(0), &0), Err(String::from("first")));
    assert_eq!((a.get(), b.get(), c.get(), d.get()), (1, 1, 0, 0));
}

#[test]
fn compound_fails_when_the_only_child_fails() {
    let a = counter();
    let mut p = CompoundProvider::new(vec![failing("alone", &a)]);
    assert_eq!(p.provide(&Budget::of(0), &0), Err(String::from("alone")));
    assert_eq!(a.get(), 1);
}

#[test]
fn compound_fails_when_the_last_child_fails() {
    let (a, b) = (counter(), counter());
    let mut p = CompoundProvider::new(vec![listed(&[1, 2], &a), failing("late", &b)]);
    assert_eq!(p.provide(&Budget::of(0), &0), Err(String::from("late")));
    assert_eq!((a.get(), b.get()), (1, 1));
}

#[test]
fn fallback_returns_first_list_that_is_not_empty() {
    let (a, b, c, d) = (counter(), counter(), counter(), counter());
    let mut p = FallbackProvider::new(vec![
        listed(&[], &a),
        listed(&[], &b),
        listed(&[5, 5], &c),
        listed(&[7], &d),
    ]);
    assert_eq!(p.provide(&Budget::of(0), &0), Ok(adds(&[5, 5])));
    assert_eq!((a.get(), b.get(), c.get(), d.get()), (1, 1, 1, 0));
}

#[test]
fn fallback_prefers_the_first_child() {
    let (a, b) = (counter(), counter());
    let mut p = FallbackProvider::new(vec![listed(&[9], &a), listed(&[8, 8], &b)]);
    assert_eq!(p.provide(&Budget::of(0), &0), Ok(adds(&[9])));
    assert_eq!((a.get(), b.get()), (1, 0));
}

#[test]
fn fallback_of_empty_lists_is_empty() {
    let (a, b, c) = (counter(), counter(), counter());
    let mut p = FallbackProvider::new(vec![listed(&[], &a), listed(&[], &b), listed(&[], &c)]);
    assert_eq!(p.provide(&Budget::of(0), &0), Ok(vec![]));
    assert_eq!((a.get(), b.get(), c.get()), (1, 1, 1));
}

#[test]
fn fallback_of_nothing_is_empty() {
    let mut p: FallbackProvider<Budget, Add> = FallbackProvider::new(vec![]);
    assert_eq!(p.provide(&Budget::of(0), &0), Ok(vec![]));
}

#[test]
fn fallback_stops_at_cutoff() {
    let (a, b, c) = (counter(), counter(), counter());
    let mut p = FallbackProvider::new(vec![listed(&[], &a), failing("spent", &b), listed(&[1], &c)]);
    assert_eq!(p.provide(&Budget::of(0), &0), Err(String::from("spent")));
    assert_eq!((a.get(), b.get(), c.get()), (1, 1, 0));
}

#[test]
fn fallback_answers_before_a_later_cutoff() {
    let (a, b) = (counter(), counter());
    let mut p = FallbackProvider::new(vec![listed(&[1], &a), failing("never", &b)]);
    assert_eq!(p.provide(&Budget::of(0), &0), Ok(adds(&[1])));
    assert_eq!((a.get(), b.get()), (1, 0));
}

#[test]
fn fallback_of_compounds() {
    let (a, b, c, d, e) = (counter(), counter(), counter(), counter(), counter());
    let nothing: Child = Box::new(CompoundProvider::new(vec![listed(&[], &a), listed(&[], &b)]));
    let something: Child = Box::new(CompoundProvider::new(vec![listed(&[1], &c), listed(&[2], &d)]));
    let mut p = FallbackProvider::new(vec![nothing, something, listed(&[3], &e)]);
    assert_eq!(p.provide(&Budget::of(0), &0), Ok(adds(&[1, 2])));
    assert_eq!((a.get(), b.get(), c.get(), d.get(), e.get()), (1, 1, 1, 1, 0));
}

#[test]
fn compound_of_fallbacks() {
    let (a, b, c, d) = (counter(), counter(), counter(), counter());
    let left: Child = Box::new(FallbackProvider::new(vec![listed(&[], &a), listed(&[6], &b)]));
    let right: Child = Box::new(FallbackProvider::new(vec![listed(&[7, 6], &c), listed(&[8], &d)]));
    let mut p = CompoundProvider::new(vec![left, right]);
    assert_eq!(p.provide(&Budget::of(0), &0), Ok(adds(&[6, 7, 6])));
    assert_eq!((a.get(), b.get(), c.get(), d.get()), (1, 1, 1, 0));
}

#[test]
fn cutoff_passes_through_nested_combinators() {
    let (a, b, c) = (counter(), counter(), counter());
    let inner: Child = Box::new(CompoundProvider::new(vec![listed(&[1], &a), failing("deep", &b)]));
    let mut p = FallbackProvider::new(vec![inner, listed(&[2], &c)]);
    assert_eq!(p.provide(&Budget::of(0), &0), Err(String::from("deep")));
    assert_eq!((a.get(), b.get(), c.get()), (1, 1, 0));
}

#[test]
fn children_poll_the_timer_they_are_given() {
    let first: Child = Box::new(Polling { ticks: 2, steps: adds(&[1]) });
    let second: Child = Box::new(Polling { ticks: 2, steps: adds(&[2]) });
    let mut p = CompoundProvider::new(vec![first, second]);
    let timer = Budget::of(4);
    assert_eq!(p.provide(&timer, &0), Ok(adds(&[1, 2])));
    assert_eq!(timer.left.get(), 0);
    assert_eq!(p.provide(&Budget::of(3), &0), Err(String::from("out of budget")));
}

#[test]
fn children_are_asked_about_the_expression() {
    let calls = counter();
    let mut p = CompoundProvider::new(vec![Box::new(Doubling) as Child, listed(&[1], &calls)]);
    assert_eq!(p.provide(&Budget::of(0), &21), Ok(adds(&[21, 1])));
    let mut q = FallbackProvider::new(vec![listed(&[], &calls), Box::new(Doubling) as Child]);
    assert_eq!(q.provide(&Budget::of(0), &-4), Ok(adds(&[-4])));
}

#[test]
fn children_keep_their_state_between_queries() {
    let mut p = CompoundProvider::new(vec![Box::new(Counting { seen: 0 }) as Child]);
    assert_eq!(p.provide(&Budget::of(0), &0), Ok(adds(&[1])));
    assert_eq!(p.provide(&Budget::of(0), &0), Ok(adds(&[2])));
    assert_eq!(p.provide(&Budget::of(0), &0), Ok(adds(&[3])));
}

#[test]
fn timer_signals_cutoff_once_spent() {
    let timer = Budget::of(2);
    assert_eq!(timer.tick(), Ok(()));
    assert_eq!(timer.tick(), Ok(()));
    assert_eq!(timer.tick(), Err(String::from("out of budget")));
}
