//! Observers: the callbacks that a policy tells of each retry.
use vstd::prelude::*;
use vstd::rwlock::RwLock;

verus! {

/// A callback that is told of each retry.
pub trait Observer<E> {
    /// Whether the observer can be told of every event.
    spec fn ready(&self) -> bool;

    /// Whether the observer comes back from being told of `event`. This is
    /// what is known once the observer has been told of it.
    spec fn told(&self, event: E) -> bool;

    /// Tells the observer of `event`.
    fn notify(&mut self, event: E)
        requires
            old(self).ready(),
        ensures
            final(self).ready(),
            final(self).told(event),
            forall|other: E| final(self).told(other) == old(self).told(other),
    ;
}

/// The observer of a policy with a retry budget: it hands the result that
/// calls for a retry, and the number of that retry, to a function of the
/// caller. The first retry has the number 1.
pub struct CountedAction<F> {
    pub action: F,
}

impl<R, F: FnMut(R, usize)> Observer<(R, usize)> for CountedAction<F> {
    open spec fn ready(&self) -> bool {
        forall|result: R, retry: usize| call_requires(self.action, (result, retry))
    }

    open spec fn told(&self, event: (R, usize)) -> bool {
        call_ensures(self.action, event, ())
    }

    fn notify(&mut self, event: (R, usize)) {
        (self.action)(event.0, event.1)
    }
}

/// The observer of a policy without a retry budget: it hands the result
/// that calls for a retry to a function of the caller.
pub struct Action<F> {
    pub action: F,
}

impl<R, F: FnMut(R)> Observer<R> for Action<F> {
    open spec fn ready(&self) -> bool {
        forall|result: R| call_requires(self.action, (result,))
    }

    open spec fn told(&self, event: R) -> bool {
        call_ensures(self.action, (event,), ())
    }

    fn notify(&mut self, event: R) {
        (self.action)(event)
    }
}

/// An observer, whatever function of the caller it hands its events to.
#[verifier::reject_recursive_types(E)]
struct Slot<'l, E> {
    observer: Box<dyn Observer<E> + 'l>,
}

/// An observer behind a lock, so that one notification is made at a time,
/// however many executions share the policy that owns it.
///
/// The lock keeps the observer for good: the observer is not dropped with
/// the lock. A notification that does not come back keeps the lock taken.
#[verifier::reject_recursive_types(E)]
pub struct Exclusive<'l, E> {
    slot: RwLock<Slot<'l, E>, spec_fn(Slot<'l, E>) -> bool>,
    told: Ghost<spec_fn(E) -> bool>,
}

impl<'l, E> Exclusive<'l, E> {
    /// The lock is around an observer that can be told of every event, and
    /// that comes back from the events that `told` says.
    #[verifier::type_invariant]
    spec fn keeps(&self) -> bool {
        forall|slot: Slot<'l, E>| #[trigger]
            self.slot.inv(slot) == {
                &&& slot.observer.ready()
                &&& forall|event: E| slot.observer.told(event) == (self.told@)(event)
            }
    }

    /// Whether the observer comes back from being told of `event`. This is
    /// what is known once the observer has been told of it.
    pub closed spec fn told(&self, event: E) -> bool {
        (self.told@)(event)
    }

    /// Tells the observer of `event`, once no other notification is under
    /// way. The observer must not itself execute under the policy that
    /// owns it: that notification would wait for this one for ever.
    pub fn notify(&self, event: E)
        ensures
            self.told(event),
    {
        proof {
            use_type_invariant(self);
        }
        let (mut slot, handle) = self.slot.acquire_write();
        slot.observer.notify(event);
        handle.release_write(slot);
    }
}

impl<'l, R> Exclusive<'l, (R, usize)> {
    /// The observer that hands each result that calls for a retry, and the
    /// number of that retry, to `action`.
    pub fn counted<F: FnMut(R, usize) + 'l>(action: F) -> (exclusive: Self)
        requires
            forall|result: R, retry: usize| call_requires(action, (result, retry)),
        ensures
            forall|result: R, retry: usize| #[trigger]
                exclusive.told((result, retry)) == call_ensures(action, (result, retry), ()),
    {
        let slot = Slot { observer: Box::new(CountedAction { action }) };
        let ghost told = |event: (R, usize)| call_ensures(action, event, ());
        let ghost keeps = |slot: Slot<'l, (R, usize)>|
            {
                &&& slot.observer.ready()
                &&& forall|event: (R, usize)| slot.observer.told(event) == told(event)
            };
        let lock = RwLock::new(slot, Ghost(keeps));
        Exclusive { slot: lock, told: Ghost(told) }
    }
}

impl<'l, R> Exclusive<'l, R> {
    /// The observer that hands each result that calls for a retry to
    /// `action`.
    pub fn plain<F: FnMut(R) + 'l>(action: F) -> (exclusive: Self)
        requires
            forall|result: R| call_requires(action, (result,)),
        ensures
            forall|result: R| #[trigger] exclusive.told(result) == call_ensures(
                action,
                (result,),
                (),
            ),
    {
        let slot = Slot { observer: Box::new(Action { action }) };
        let ghost told = |event: R| call_ensures(action, (event,), ());
        let ghost keeps = |slot: Slot<'l, R>|
            {
                &&& slot.observer.ready()
                &&& forall|event: R| slot.observer.told(event) == told(event)
            };
        let lock = RwLock::new(slot, Ghost(keeps));
        Exclusive { slot: lock, told: Ghost(told) }
    }
}

} // verus!
