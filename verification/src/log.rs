//! Journals: what an execution has called, told and slept, step by step.
//!
//! An execution under a policy calls an operation, tells an observer and
//! asks a sleeper for pauses. A journal stands for the three, and keeps
//! one log of what was asked of them, in the order in which it was asked.
//! Nothing but a call adds to the log. So the contract of an execution can
//! say which calls were made, and in which order: the ones that the log
//! has grown by, no more and no fewer.
use crate::observer::Exclusive;
use crate::run::retries;
use crate::wait::nanos;
use crate::wait::Clock;
use std::time::Duration;
use vstd::pervasive::unreached;
use vstd::prelude::*;

verus! {

/// One step of an execution.
pub enum Step<R, E> {
    /// The operation was called, and returned this result.
    Called(R),
    /// The observer was told of this event.
    Told(E),
    /// The sleeper was asked for this pause.
    Paused(Duration),
}

/// An observer and a sleeper, with the log of the steps of an execution.
pub trait Journal<R, E> {
    /// Whether the journal has an operation that can be called.
    spec fn can_call(&self) -> bool;

    /// Whether the sleeper can be asked for every pause that takes time.
    spec fn can_pause(&self) -> bool;

    /// The steps made so far, in their order.
    spec fn log(&self) -> Seq<Step<R, E>>;

    /// Whether `step` comes back: the operation can return that result,
    /// the observer comes back from that event, the sleeper from that
    /// pause. This is what is known once the step was made.
    spec fn backs(&self, step: Step<R, E>) -> bool;

    /// Tells the observer of `event`, once.
    fn notify(&mut self, event: E)
        ensures
            final(self).log() == old(self).log().push(Step::Told(event)),
            final(self).backs(Step::Told(event)),
            final(self).can_call() == old(self).can_call(),
            final(self).can_pause() == old(self).can_pause(),
            forall|step: Step<R, E>| final(self).backs(step) == old(self).backs(step),
    ;

    /// Asks the sleeper for the pause `wait`, once. A pause that takes no
    /// time is not asked for.
    fn pause(&mut self, wait: Duration)
        requires
            old(self).can_pause(),
            nanos(wait) > 0,
        ensures
            final(self).log() == old(self).log().push(Step::Paused(wait)),
            final(self).backs(Step::Paused(wait)),
            final(self).can_call() == old(self).can_call(),
            final(self).can_pause(),
            forall|step: Step<R, E>| final(self).backs(step) == old(self).backs(step),
    ;
}

/// A journal with the operation of the execution.
pub trait Stage<R, E>: Journal<R, E> {
    /// Calls the operation once.
    fn call(&mut self) -> (result: R)
        requires
            old(self).can_call(),
        ensures
            final(self).log() == old(self).log().push(Step::Called(result)),
            final(self).backs(Step::Called(result)),
            final(self).can_call(),
            final(self).can_pause() == old(self).can_pause(),
            forall|step: Step<R, E>| final(self).backs(step) == old(self).backs(step),
    ;
}

/// Whether an execution has left a journal as it was, but for its log:
/// what could be called can be called, and the steps come back as before.
pub open spec fn same<R, E, J: Journal<R, E>>(before: J, after: J) -> bool {
    &&& after.can_call() == before.can_call()
    &&& after.can_pause() == before.can_pause()
    &&& forall|step: Step<R, E>| #[trigger] after.backs(step) == before.backs(step)
}

/// Whether each step of `steps` comes back in `journal`.
pub open spec fn backed<R, E, J: Journal<R, E>>(journal: J, steps: Seq<Step<R, E>>) -> bool {
    forall|i: int| 0 <= i < steps.len() ==> journal.backs(#[trigger] steps[i])
}

/// The steps of the first `made` retries of an execution that sees the
/// results `attempts`: for each, the call that returned the result, then
/// the notification of `event(i)`, then the pause `wait(i)`, if it takes
/// time.
pub open spec fn steps<R, E>(
    attempts: Seq<R>,
    event: spec_fn(int) -> E,
    wait: spec_fn(int) -> Duration,
    made: nat,
) -> Seq<Step<R, E>>
    decreases made,
{
    if made == 0 {
        Seq::empty()
    } else {
        let i = made - 1;
        let told = steps(attempts, event, wait, i as nat).push(Step::Called(attempts[i])).push(
            Step::Told(event(i)),
        );
        if nanos(wait(i)) > 0 {
            told.push(Step::Paused(wait(i)))
        } else {
            told
        }
    }
}

/// Whether the retry with index `i` is the same in two executions: the
/// result before it, its event and its pause.
pub open spec fn alike<R, E>(
    attempts: Seq<R>,
    event: spec_fn(int) -> E,
    wait: spec_fn(int) -> Duration,
    others: Seq<R>,
    other_event: spec_fn(int) -> E,
    other_wait: spec_fn(int) -> Duration,
    i: int,
) -> bool {
    attempts[i] == others[i] && event(i) == other_event(i) && wait(i) == other_wait(i)
}

/// The steps of retries depend on the results, events and pauses of
/// those retries alone.
pub proof fn steps_agree<R, E>(
    attempts: Seq<R>,
    event: spec_fn(int) -> E,
    wait: spec_fn(int) -> Duration,
    others: Seq<R>,
    other_event: spec_fn(int) -> E,
    other_wait: spec_fn(int) -> Duration,
    made: nat,
)
    requires
        made <= attempts.len(),
        made <= others.len(),
        forall|i: int|
            0 <= i < made ==> #[trigger] alike(
                attempts,
                event,
                wait,
                others,
                other_event,
                other_wait,
                i,
            ),
    ensures
        steps(attempts, event, wait, made) == steps(others, other_event, other_wait, made),
    decreases made,
{
    if made > 0 {
        steps_agree(attempts, event, wait, others, other_event, other_wait, (made - 1) as nat);
        assert(alike(attempts, event, wait, others, other_event, other_wait, made - 1));
    }
}

/// What the observer of a policy with a budget is told in the run
/// `attempts`: each result that is followed by a retry, with the number of
/// that retry, counted from 1.
pub open spec fn events<R>(attempts: Seq<R>) -> Seq<(R, usize)> {
    Seq::new(retries(attempts), |i: int| (attempts[i], (i + 1) as usize))
}

/// The pauses of the retries under `schedule`: the retry with index `i`
/// has the pause at index `i`.
pub open spec fn scheduled(schedule: Seq<Duration>) -> spec_fn(int) -> Duration {
    |i: int| schedule[i]
}

/// The pauses of retries that all have the pause `wait`.
pub open spec fn fixed(wait: Duration) -> spec_fn(int) -> Duration {
    |i: int| wait
}

/// The pauses that are made before the first `made` retries, where
/// `wait(i)` is the pause of the retry with index `i`: those that take
/// time, in their order.
pub open spec fn pauses(wait: spec_fn(int) -> Duration, made: nat) -> Seq<Duration>
    decreases made,
{
    if made == 0 {
        Seq::empty()
    } else {
        let before = pauses(wait, (made - 1) as nat);
        if nanos(wait(made - 1)) > 0 {
            before.push(wait(made - 1))
        } else {
            before
        }
    }
}

/// The results of the calls in `log`, in their order.
pub open spec fn calls_in<R, E>(log: Seq<Step<R, E>>) -> Seq<R>
    decreases log.len(),
{
    if log.len() == 0 {
        Seq::empty()
    } else {
        match log.last() {
            Step::Called(result) => calls_in(log.drop_last()).push(result),
            _ => calls_in(log.drop_last()),
        }
    }
}

/// The events of the notifications in `log`, in their order.
pub open spec fn told_in<R, E>(log: Seq<Step<R, E>>) -> Seq<E>
    decreases log.len(),
{
    if log.len() == 0 {
        Seq::empty()
    } else {
        match log.last() {
            Step::Told(event) => told_in(log.drop_last()).push(event),
            _ => told_in(log.drop_last()),
        }
    }
}

/// The pauses in `log`, in their order.
pub open spec fn paused_in<R, E>(log: Seq<Step<R, E>>) -> Seq<Duration>
    decreases log.len(),
{
    if log.len() == 0 {
        Seq::empty()
    } else {
        match log.last() {
            Step::Paused(wait) => paused_in(log.drop_last()).push(wait),
            _ => paused_in(log.drop_last()),
        }
    }
}

/// A function of the caller, the observer and the sleeper of a policy as a
/// stage: each call of the operation is one call of the function, each
/// notification one notification of the observer, if there is one, and
/// each pause one pause of the sleeper.
#[verifier::reject_recursive_types(R)]
#[verifier::reject_recursive_types(E)]
pub struct Scene<'a, 'l, R, E, O> {
    operation: O,
    observer: Option<&'a Exclusive<'l, E>>,
    clock: Option<&'a Clock<'l>>,
    log: Ghost<Seq<Step<R, E>>>,
}

impl<'a, 'l, R, E, O: FnMut() -> R> Scene<'a, 'l, R, E, O> {
    /// The function that is called.
    pub closed spec fn operation(&self) -> O {
        self.operation
    }

    /// The observer that is told.
    pub closed spec fn observer(&self) -> Option<&'a Exclusive<'l, E>> {
        self.observer
    }

    /// The sleeper that is asked.
    pub closed spec fn clock(&self) -> Option<&'a Clock<'l>> {
        self.clock
    }

    /// The journal of `operation`, `observer` and `clock`, with nothing in
    /// its log.
    pub fn new(
        operation: O,
        observer: Option<&'a Exclusive<'l, E>>,
        clock: Option<&'a Clock<'l>>,
    ) -> (scene: Self)
        ensures
            scene.operation() == operation,
            scene.observer() == observer,
            scene.clock() == clock,
            scene.log() == Seq::<Step<R, E>>::empty(),
    {
        Scene { operation, observer, clock, log: Ghost(Seq::empty()) }
    }
}

impl<'a, 'l, R, E, O: FnMut() -> R> Journal<R, E> for Scene<'a, 'l, R, E, O> {
    open spec fn can_call(&self) -> bool {
        call_requires(self.operation(), ())
    }

    open spec fn can_pause(&self) -> bool {
        self.clock() is Some
    }

    closed spec fn log(&self) -> Seq<Step<R, E>> {
        self.log@
    }

    open spec fn backs(&self, step: Step<R, E>) -> bool {
        match step {
            Step::Called(result) => call_ensures(self.operation(), (), result),
            Step::Told(event) => self.observer() is Some ==> self.observer()->0.told(event),
            Step::Paused(wait) => self.clock() is Some && self.clock()->0.slept(wait),
        }
    }

    fn notify(&mut self, event: E) {
        proof {
            self.log = Ghost(self.log@.push(Step::Told(event)));
        }
        match self.observer {
            Some(observer) => observer.notify(event),
            None => {},
        }
    }

    fn pause(&mut self, wait: Duration) {
        proof {
            self.log = Ghost(self.log@.push(Step::Paused(wait)));
        }
        match self.clock {
            Some(clock) => clock.sleep(wait),
            None => unreached(),
        }
    }
}

impl<'a, 'l, R, E, O: FnMut() -> R> Stage<R, E> for Scene<'a, 'l, R, E, O> {
    fn call(&mut self) -> (result: R) {
        let result = (self.operation)();
        proof {
            self.log = Ghost(self.log@.push(Step::Called(result)));
        }
        result
    }
}

/// The observer and the sleeper of a policy as a journal without an
/// operation.
#[verifier::reject_recursive_types(R)]
#[verifier::reject_recursive_types(E)]
pub struct Wings<'a, 'l, R, E> {
    observer: Option<&'a Exclusive<'l, E>>,
    clock: Option<&'a Clock<'l>>,
    log: Ghost<Seq<Step<R, E>>>,
}

impl<'a, 'l, R, E> Wings<'a, 'l, R, E> {
    /// The observer that is told.
    pub closed spec fn observer(&self) -> Option<&'a Exclusive<'l, E>> {
        self.observer
    }

    /// The sleeper that is asked.
    pub closed spec fn clock(&self) -> Option<&'a Clock<'l>> {
        self.clock
    }

    /// The journal of `observer` and `clock`, with nothing in its log.
    pub fn new(observer: Option<&'a Exclusive<'l, E>>, clock: Option<&'a Clock<'l>>) -> (wings:
        Self)
        ensures
            wings.observer() == observer,
            wings.clock() == clock,
            wings.log() == Seq::<Step<R, E>>::empty(),
    {
        Wings { observer, clock, log: Ghost(Seq::empty()) }
    }
}

impl<'a, 'l, R, E> Journal<R, E> for Wings<'a, 'l, R, E> {
    open spec fn can_call(&self) -> bool {
        false
    }

    open spec fn can_pause(&self) -> bool {
        self.clock() is Some
    }

    closed spec fn log(&self) -> Seq<Step<R, E>> {
        self.log@
    }

    open spec fn backs(&self, step: Step<R, E>) -> bool {
        match step {
            Step::Called(result) => false,
            Step::Told(event) => self.observer() is Some ==> self.observer()->0.told(event),
            Step::Paused(wait) => self.clock() is Some && self.clock()->0.slept(wait),
        }
    }

    fn notify(&mut self, event: E) {
        proof {
            self.log = Ghost(self.log@.push(Step::Told(event)));
        }
        match self.observer {
            Some(observer) => observer.notify(event),
            None => {},
        }
    }

    fn pause(&mut self, wait: Duration) {
        proof {
            self.log = Ghost(self.log@.push(Step::Paused(wait)));
        }
        match self.clock {
            Some(clock) => clock.sleep(wait),
            None => unreached(),
        }
    }
}

} // verus!
