//! Pauses between attempts: their lengths, and the capability to make one.
use std::time::Duration;
use vstd::prelude::*;

verus! {

/// The length of `wait` in nanoseconds.
pub uninterp spec fn nanos(wait: Duration) -> nat;

/// `Duration::as_nanos` gives the whole length of the duration in
/// nanoseconds.
pub assume_specification[ Duration::as_nanos ](wait: &Duration) -> (length: u128)
    ensures
        length == nanos(*wait),
;

/// `Duration::from_nanos` makes the duration that is `length` nanoseconds
/// long.
pub assume_specification[ Duration::from_nanos ](length: u64) -> (wait: Duration)
    ensures
        nanos(wait) == length,
;

/// The sum of the lengths of the pauses of `schedule`, in nanoseconds.
pub open spec fn total_nanos(schedule: Seq<Duration>) -> nat
    decreases schedule.len(),
{
    if schedule.len() == 0 {
        0
    } else {
        total_nanos(schedule.drop_last()) + nanos(schedule.last())
    }
}

/// Whether the pauses of `one` are as long as those of `other`, each as the
/// one at its place.
pub open spec fn as_long(one: Seq<Duration>, other: Seq<Duration>) -> bool {
    &&& one.len() == other.len()
    &&& forall|i: int| 0 <= i < one.len() ==> nanos(#[trigger] one[i]) == nanos(other[i])
}

/// Whether no pause of `schedule` takes any time.
pub open spec fn all_zero(schedule: Seq<Duration>) -> bool {
    forall|i: int| 0 <= i < schedule.len() ==> nanos(#[trigger] schedule[i]) == 0
}

/// The schedule of `count` pauses that take no time.
pub fn no_waits(count: usize) -> (schedule: Vec<Duration>)
    ensures
        schedule@.len() == count,
        all_zero(schedule@),
{
    let mut schedule: Vec<Duration> = Vec::new();
    let mut filled: usize = 0;
    while filled < count
        invariant
            filled <= count,
            schedule@.len() == filled,
            all_zero(schedule@),
        decreases count - filled,
    {
        schedule.push(Duration::from_nanos(0));
        filled += 1;
    }
    schedule
}

/// The capability to let time pass. A policy never sleeps by itself: it
/// asks the sleeper that it was built with, and asks it only for pauses
/// that take time.
pub trait Sleeper {
    /// Whether the sleeper can be asked for every pause that takes time.
    spec fn ready(&self) -> bool;

    /// Whether the sleeper comes back from the pause `wait`. This is what
    /// is known once the sleeper has made the pause.
    spec fn slept(&self, wait: Duration) -> bool;

    /// Lets `wait` pass. A pause that takes no time is not asked for.
    fn sleep(&self, wait: Duration)
        requires
            self.ready(),
            nanos(wait) > 0,
        ensures
            self.slept(wait),
    ;
}

/// The sleeper that hands each pause to a function of the caller.
pub struct Pause<F> {
    pub sleep: F,
}

impl<F: Fn(Duration)> Sleeper for Pause<F> {
    open spec fn ready(&self) -> bool {
        forall|wait: Duration| nanos(wait) > 0 ==> call_requires(self.sleep, (wait,))
    }

    open spec fn slept(&self, wait: Duration) -> bool {
        call_ensures(self.sleep, (wait,), ())
    }

    fn sleep(&self, wait: Duration) {
        (self.sleep)(wait)
    }
}

/// A sleeper, whatever function of the caller makes its pauses.
pub struct Clock<'l> {
    sleeper: Box<dyn Sleeper + 'l>,
}

impl<'l> Clock<'l> {
    /// The sleeper can be asked for every pause that takes time.
    #[verifier::type_invariant]
    spec fn ready(&self) -> bool {
        self.sleeper.ready()
    }

    /// Whether the clock comes back from the pause `wait`. This is what is
    /// known once the clock has made the pause.
    pub closed spec fn slept(&self, wait: Duration) -> bool {
        self.sleeper.slept(wait)
    }

    /// The clock that has `sleep` make each pause. It is enough that
    /// `sleep` can be handed the pauses that take time: it is handed no
    /// other.
    pub fn with<W: Fn(Duration) + 'l>(sleep: W) -> (clock: Self)
        requires
            forall|wait: Duration| nanos(wait) > 0 ==> call_requires(sleep, (wait,)),
        ensures
            forall|wait: Duration| #[trigger] clock.slept(wait) == call_ensures(sleep, (wait,), ()),
    {
        Clock { sleeper: Box::new(Pause { sleep }) }
    }

    /// Lets `wait` pass. A pause that takes no time is not asked for.
    pub fn sleep(&self, wait: Duration)
        requires
            nanos(wait) > 0,
        ensures
            self.slept(wait),
    {
        proof {
            use_type_invariant(self);
        }
        self.sleeper.sleep(wait)
    }
}

} // verus!
