//! Runs: the sequences of results that an execution under a policy can see.
//!
//! A run lists what the operation returned, attempt by attempt. Every
//! attempt but the last was followed by a retry: the observer was told of
//! its result, and the pause that the schedule gives for it was made. The
//! last result of a run is what the execution hands back.
use crate::matcher::Classifier;
use crate::wait::total_nanos;
use std::time::Duration;
use vstd::prelude::*;

verus! {

/// Whether `operation` can return each of `attempts`.
pub open spec fn returns_each<R, O: FnMut() -> R>(operation: O, attempts: Seq<R>) -> bool {
    forall|i: int| 0 <= i < attempts.len() ==> call_ensures(operation, (), #[trigger] attempts[i])
}

/// Whether `attempts` is a run of a policy that retries as `classifier`
/// says and grants at most `budget` retries: every attempt but the last
/// called for a retry, and the last one either did not, or came when the
/// budget was spent.
pub open spec fn bounded_run<R>(classifier: Classifier<R>, budget: nat, attempts: Seq<R>) -> bool {
    &&& 0 < attempts.len() <= budget + 1
    &&& forall|i: int| 0 <= i < attempts.len() - 1 ==> classifier(#[trigger] attempts[i], true)
    &&& attempts.len() <= budget ==> classifier(attempts.last(), false)
}

/// Whether `attempts` is a run of a policy that retries as `classifier`
/// says, without a budget: every attempt but the last called for a retry,
/// and the last one did not.
pub open spec fn unbounded_run<R>(classifier: Classifier<R>, attempts: Seq<R>) -> bool {
    &&& 0 < attempts.len()
    &&& forall|i: int| 0 <= i < attempts.len() - 1 ==> classifier(#[trigger] attempts[i], true)
    &&& classifier(attempts.last(), false)
}

/// The number of retries in a run.
pub open spec fn retries<R>(attempts: Seq<R>) -> nat {
    (attempts.len() - 1) as nat
}

/// The time, in nanoseconds, that the pauses of a run under `schedule` take.
pub open spec fn waited<R>(schedule: Seq<Duration>, attempts: Seq<R>) -> nat {
    total_nanos(schedule.take(retries(attempts) as int))
}

} // verus!
