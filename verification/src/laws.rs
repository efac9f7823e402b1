//! What holds of every run under a policy.
//!
//! A run is the sequence of results that an execution sees. The logged
//! executions of the policies call the operation once for each result of
//! their run, tell the observer once of each retry, and ask the sleeper
//! once for each pause that takes time: what is proved here of the runs
//! holds of those calls.
use crate::log::backed;
use crate::log::calls_in;
use crate::log::events;
use crate::log::fixed;
use crate::log::paused_in;
use crate::log::pauses;
use crate::log::scheduled;
use crate::log::steps;
use crate::log::told_in;
use crate::log::Journal;
use crate::log::Step;
use crate::retry::RetryForeverPolicy;
use crate::retry::RetryPolicy;
use crate::retry::Verdict;
use crate::run::bounded_run;
use crate::run::retries;
use crate::run::unbounded_run;
use crate::run::waited;
use crate::wait::all_zero;
use crate::wait::as_long;
use crate::wait::nanos;
use crate::wait::total_nanos;
use std::time::Duration;
use vstd::prelude::*;

verus! {

/// Under a policy with a budget whose matchers let no result stand, a run
/// spends the whole budget: it has one result more than the budget counts.
pub proof fn always_matching_spends_the_budget<R>(policy: RetryPolicy<R>, attempts: Seq<R>)
    requires
        forall|result: R| !#[trigger] policy.classifier()(result, false),
        bounded_run(policy.classifier(), policy.budget(), attempts),
    ensures
        attempts.len() == policy.budget() + 1,
{
}

/// Under a policy with a budget whose matchers never call for another
/// attempt, a run has one result: no retry follows it, and it stands.
pub proof fn never_matching_stops_at_once<R>(policy: RetryPolicy<R>, attempts: Seq<R>)
    requires
        forall|result: R| !#[trigger] policy.classifier()(result, true),
        bounded_run(policy.classifier(), policy.budget(), attempts),
    ensures
        attempts.len() == 1,
        retries(attempts) == 0,
        forall|verdict: Verdict<R>| #[trigger]
            policy.decides(0, attempts[0], verdict) ==> verdict == Verdict::Return(attempts[0]),
{
    if attempts.len() > 1 {
        assert(policy.classifier()(attempts[0], true));
    }
}

/// Under a policy with a budget, a run of which the matchers let no result
/// stand has as many retries as the budget counts. The verdict after the
/// attempt with index `i` is the retry with the number `i + 1`, of which
/// the observer is told with the result of that attempt. The verdict after
/// the last attempt is that its result stands: the observer is not told of
/// it.
pub proof fn every_attempt_matching_notifies_each_retry<R>(
    policy: RetryPolicy<R>,
    attempts: Seq<R>,
)
    requires
        bounded_run(policy.classifier(), policy.budget(), attempts),
        forall|i: int|
            0 <= i < attempts.len() ==> !policy.classifier()(#[trigger] attempts[i], false),
    ensures
        attempts.len() == policy.budget() + 1,
        retries(attempts) == policy.budget(),
        forall|i: int, verdict: Verdict<R>|
            0 <= i < policy.budget() && #[trigger] policy.decides(i as nat, attempts[i], verdict)
                ==> verdict is Retry && verdict->result == attempts[i] && verdict->retry == i + 1,
        forall|verdict: Verdict<R>| #[trigger]
            policy.decides(policy.budget(), attempts.last(), verdict) ==> verdict
                == Verdict::Return(attempts.last()),
{
}

/// An execution under a policy with a budget and an observer, in which
/// the matchers let no result stand, has told the observer as many times
/// as the budget counts: of the result of the attempt with index `i` with
/// the retry number `i + 1`.
pub proof fn observer_is_told_of_each_retry<O: FnMut() -> R, R>(
    policy: RetryPolicy<R>,
    operation: O,
    attempts: Seq<R>,
)
    requires
        policy.notifies(),
        policy.runs(operation, attempts),
        forall|i: int|
            0 <= i < attempts.len() ==> !policy.classifier()(#[trigger] attempts[i], false),
    ensures
        attempts.len() == policy.budget() + 1,
        forall|i: int|
            0 <= i < policy.budget() ==> policy.told(#[trigger] attempts[i], (i + 1) as usize),
{
}

/// Under a policy with a budget, a run of which the matchers let no result
/// stand makes every pause of the schedule: the pauses take as long as the
/// schedule does in all.
pub proof fn every_attempt_matching_waits_the_schedule<R>(
    policy: RetryPolicy<R>,
    attempts: Seq<R>,
)
    requires
        bounded_run(policy.classifier(), policy.budget(), attempts),
        forall|i: int|
            0 <= i < attempts.len() ==> !policy.classifier()(#[trigger] attempts[i], false),
    ensures
        waited(policy.schedule(), attempts) == total_nanos(policy.schedule()),
{
    assert(policy.schedule().take(retries(attempts) as int) =~= policy.schedule());
}

/// An execution under a policy with a budget, in which the matchers let no
/// result stand, has had the sleeper make every pause of the schedule that
/// takes any time.
pub proof fn sleeper_makes_each_pause<O: FnMut() -> R, R>(
    policy: RetryPolicy<R>,
    operation: O,
    attempts: Seq<R>,
)
    requires
        policy.runs(operation, attempts),
        forall|i: int|
            0 <= i < attempts.len() ==> !policy.classifier()(#[trigger] attempts[i], false),
    ensures
        forall|i: int|
            0 <= i < policy.budget() && nanos(#[trigger] policy.schedule()[i]) > 0
                ==> policy.slept(policy.schedule()[i]),
{
}

/// Under a policy without a budget, a run ends with the first attempt
/// after which the matchers cannot call for another: where that is the
/// attempt with index `k`, the run has `k + 1` results and `k` retries.
pub proof fn first_standing_result_ends_the_run<R>(
    policy: RetryForeverPolicy<R>,
    attempts: Seq<R>,
    k: int,
)
    requires
        unbounded_run(policy.classifier(), attempts),
        0 <= k < attempts.len(),
        !policy.classifier()(attempts[k], true),
    ensures
        attempts.len() == k + 1,
        retries(attempts) == k,
{
}

/// What a step adds to the calls, the notifications and the pauses of a
/// log.
pub proof fn step_adds<R, E>(log: Seq<Step<R, E>>, step: Step<R, E>)
    ensures
        calls_in(log.push(step)) == match step {
            Step::Called(result) => calls_in(log).push(result),
            _ => calls_in(log),
        },
        told_in(log.push(step)) == match step {
            Step::Told(event) => told_in(log).push(event),
            _ => told_in(log),
        },
        paused_in(log.push(step)) == match step {
            Step::Paused(wait) => paused_in(log).push(wait),
            _ => paused_in(log),
        },
{
    assert(log.push(step).drop_last() =~= log);
}

/// The calls, the notifications and the pauses of one log after another
/// are those of the first and then those of the second.
pub proof fn logs_add<R, E>(log: Seq<Step<R, E>>, more: Seq<Step<R, E>>)
    ensures
        calls_in(log + more) == calls_in(log) + calls_in(more),
        told_in(log + more) == told_in(log) + told_in(more),
        paused_in(log + more) == paused_in(log) + paused_in(more),
    decreases more.len(),
{
    if more.len() == 0 {
        assert(log + more =~= log);
        assert(calls_in(log) + calls_in(more) =~= calls_in(log));
        assert(told_in(log) + told_in(more) =~= told_in(log));
        assert(paused_in(log) + paused_in(more) =~= paused_in(log));
    } else {
        let front = more.drop_last();
        logs_add(log, front);
        assert(log + more =~= (log + front).push(more.last()));
        assert(more =~= front.push(more.last()));
        step_adds(log + front, more.last());
        step_adds(front, more.last());
        assert(calls_in(log + more) =~= calls_in(log) + calls_in(more));
        assert(told_in(log + more) =~= told_in(log) + told_in(more));
        assert(paused_in(log + more) =~= paused_in(log) + paused_in(more));
    }
}

/// The steps of retries hold one call for each result before a retry, one
/// notification for each retry, and one pause for each retry whose pause
/// takes time, each in their order.
pub proof fn steps_count_the_retries<R, E>(
    attempts: Seq<R>,
    event: spec_fn(int) -> E,
    wait: spec_fn(int) -> Duration,
    made: nat,
)
    requires
        made <= attempts.len(),
    ensures
        calls_in(steps(attempts, event, wait, made)) == attempts.take(made as int),
        told_in(steps(attempts, event, wait, made)) == Seq::new(made, |i: int| event(i)),
        paused_in(steps(attempts, event, wait, made)) == pauses(wait, made),
    decreases made,
{
    if made == 0 {
        assert(calls_in(steps(attempts, event, wait, made)) =~= attempts.take(made as int));
        assert(told_in(steps(attempts, event, wait, made)) =~= Seq::new(made, |i: int| event(i)));
    } else {
        let i = made - 1;
        let before = steps(attempts, event, wait, i as nat);
        steps_count_the_retries(attempts, event, wait, i as nat);
        let called = before.push(Step::Called(attempts[i]));
        let told = called.push(Step::Told(event(i)));
        step_adds(before, Step::Called(attempts[i]));
        step_adds(called, Step::Told(event(i)));
        step_adds(told, Step::Paused(wait(i)));
        assert(attempts.take(i).push(attempts[i]) =~= attempts.take(made as int));
        assert(Seq::new(i as nat, |j: int| event(j)).push(event(i)) =~= Seq::new(
            made,
            |j: int| event(j),
        ));
    }
}

/// The steps of a run under a policy with a budget are its calls: one
/// call of the operation for each result of the run, one notification for
/// each retry, of the result before it and of its number, and one pause
/// for each retry whose pause takes time, each in their order.
pub proof fn trace_counts_the_run<R>(policy: RetryPolicy<R>, attempts: Seq<R>)
    requires
        attempts.len() > 0,
    ensures
        calls_in(policy.trace(attempts)) == attempts,
        told_in(policy.trace(attempts)) == events(attempts),
        paused_in(policy.trace(attempts)) == pauses(
            scheduled(policy.schedule()),
            retries(attempts),
        ),
{
    let made = retries(attempts);
    let event = |i: int| (attempts[i], (i + 1) as usize);
    let wait = scheduled(policy.schedule());
    steps_count_the_retries(attempts, event, wait, made);
    step_adds(policy.retried(attempts, made), Step::Called(attempts.last()));
    assert(attempts.take(made as int).push(attempts.last()) =~= attempts);
    assert(Seq::new(made, |i: int| event(i)) =~= events(attempts));
}

/// Where the steps of a run under a policy with a budget come back in a
/// journal, the operation of the journal can return each result of the
/// run.
pub proof fn results_are_backed<R, J: Journal<R, (R, usize)>>(
    policy: RetryPolicy<R>,
    journal: J,
    attempts: Seq<R>,
)
    requires
        attempts.len() > 0,
        backed(journal, policy.trace(attempts)),
    ensures
        forall|i: int|
            0 <= i < attempts.len() ==> journal.backs(Step::Called(#[trigger] attempts[i])),
{
    let made = retries(attempts);
    let trace = policy.trace(attempts);
    assert forall|j: int| 0 <= j < policy.retried(attempts, made).len() implies journal.backs(
        #[trigger] policy.retried(attempts, made)[j],
    ) by {
        assert(trace[j] == policy.retried(attempts, made)[j]);
    }
    policy.backed_trace(journal, attempts, made);
    assert(trace[trace.len() - 1] == Step::<R, (R, usize)>::Called(attempts.last()));
}

/// The steps of the attempts under a policy without a budget are its
/// calls: one call of the operation for each attempt, one notification
/// for each result that is followed by a retry, and one pause for each
/// retry, if the pause takes time.
pub proof fn trace_counts_the_attempts<R>(
    policy: RetryForeverPolicy<R>,
    attempts: Seq<R>,
    stands: Option<R>,
)
    requires
        stands is Some ==> attempts.len() > 0,
    ensures
        calls_in(policy.trace(attempts, stands)) == attempts,
        told_in(policy.trace(attempts, stands)) == if stands is Some {
            attempts.drop_last()
        } else {
            attempts
        },
        paused_in(policy.trace(attempts, stands)).len() == if nanos(policy.wait()) > 0 {
            told_in(policy.trace(attempts, stands)).len()
        } else {
            0
        },
        forall|i: int|
            0 <= i < paused_in(policy.trace(attempts, stands)).len() ==> #[trigger] paused_in(
                policy.trace(attempts, stands),
            )[i] == policy.wait(),
{
    let made = if stands is Some {
        retries(attempts)
    } else {
        attempts.len()
    };
    let event = |i: int| attempts[i];
    let wait = fixed(policy.wait());
    steps_count_the_retries(attempts, event, wait, made);
    same_pause_each_time(policy.wait(), made);
    if stands is Some {
        step_adds(policy.retried(attempts, made), Step::Called(attempts.last()));
        assert(attempts.take(made as int).push(attempts.last()) =~= attempts);
        assert(Seq::new(made, |i: int| event(i)) =~= attempts.drop_last());
    } else {
        assert(attempts.take(made as int) =~= attempts);
        assert(Seq::new(made, |i: int| event(i)) =~= attempts);
    }
}

/// Where every retry has the same pause, as many pauses are made as
/// retries, or none where the pause takes no time.
pub proof fn same_pause_each_time(wait: Duration, made: nat)
    ensures
        pauses(fixed(wait), made).len() == if nanos(wait) > 0 {
            made
        } else {
            0
        },
        forall|i: int|
            0 <= i < pauses(fixed(wait), made).len() ==> #[trigger] pauses(fixed(wait), made)[i]
                == wait,
    decreases made,
{
    if made > 0 {
        same_pause_each_time(wait, (made - 1) as nat);
    }
}

/// Under a schedule of which no pause takes any time, no pause is made.
pub proof fn no_pause_without_time(schedule: Seq<Duration>, made: nat)
    requires
        made <= schedule.len(),
        all_zero(schedule),
    ensures
        pauses(scheduled(schedule), made) == Seq::<Duration>::empty(),
    decreases made,
{
    if made > 0 {
        no_pause_without_time(schedule, (made - 1) as nat);
    }
}

/// The pauses made before `made` retries take as long as the first `made`
/// pauses of the schedule do in all, and there are no more of them than
/// retries.
pub proof fn pauses_take_as_long_as_the_schedule(schedule: Seq<Duration>, made: nat)
    requires
        made <= schedule.len(),
    ensures
        total_nanos(pauses(scheduled(schedule), made)) == total_nanos(
            schedule.take(made as int),
        ),
        pauses(scheduled(schedule), made).len() <= made,
    decreases made,
{
    let wait = scheduled(schedule);
    if made > 0 {
        let before = (made - 1) as nat;
        pauses_take_as_long_as_the_schedule(schedule, before);
        assert(schedule.take(made as int).drop_last() =~= schedule.take(before as int));
        if nanos(schedule[made - 1]) > 0 {
            assert(pauses(wait, made).drop_last() =~= pauses(wait, before));
        }
    }
}

/// Schedules whose pauses are as long, each as the one at its place, take
/// as long in all.
pub proof fn schedules_as_long_take_as_long(one: Seq<Duration>, other: Seq<Duration>)
    requires
        as_long(one, other),
    ensures
        total_nanos(one) == total_nanos(other),
    decreases one.len(),
{
    if one.len() > 0 {
        schedules_as_long_take_as_long(one.drop_last(), other.drop_last());
    }
}

/// Two policies with a budget that were built alike behave alike: with the
/// same classifier, and with schedules whose pauses are as long, they have
/// the same runs, can decide the same after each attempt, and make pauses
/// that take as long.
pub proof fn same_configuration_same_behaviour<R>(
    one: RetryPolicy<R>,
    other: RetryPolicy<R>,
    attempts: Seq<R>,
)
    requires
        one.classifier() == other.classifier(),
        as_long(one.schedule(), other.schedule()),
    ensures
        bounded_run(one.classifier(), one.budget(), attempts) == bounded_run(
            other.classifier(),
            other.budget(),
            attempts,
        ),
        forall|attempt: nat, result: R| #[trigger]
            one.can_retry(attempt, result) == other.can_retry(attempt, result),
        forall|attempt: nat, result: R| #[trigger]
            one.can_return(attempt, result) == other.can_return(attempt, result),
        bounded_run(one.classifier(), one.budget(), attempts) ==> waited(
            one.schedule(),
            attempts,
        ) == waited(other.schedule(), attempts),
{
    if bounded_run(one.classifier(), one.budget(), attempts) {
        let made = retries(attempts) as int;
        schedules_as_long_take_as_long(one.schedule().take(made), other.schedule().take(made));
    }
}

/// Two policies without a budget that were built alike behave alike: with
/// the same classifier they have the same runs.
pub proof fn same_configuration_same_behaviour_forever<R>(
    one: RetryForeverPolicy<R>,
    other: RetryForeverPolicy<R>,
    attempts: Seq<R>,
)
    requires
        one.classifier() == other.classifier(),
    ensures
        unbounded_run(one.classifier(), attempts) == unbounded_run(other.classifier(), attempts),
{
}

/// The runs of a policy with a budget are what its verdicts make: a retry
/// after every attempt but the last, and then the result that stands.
pub proof fn runs_follow_verdicts<R>(policy: RetryPolicy<R>, attempts: Seq<R>)
    requires
        attempts.len() > 0,
    ensures
        bounded_run(policy.classifier(), policy.budget(), attempts) <==> {
            &&& forall|i: int|
                0 <= i < attempts.len() - 1 ==> #[trigger] policy.can_retry(i as nat, attempts[i])
            &&& policy.can_return((attempts.len() - 1) as nat, attempts.last())
        },
{
    let last = attempts.len() - 1;
    if bounded_run(policy.classifier(), policy.budget(), attempts) {
        assert forall|i: int| 0 <= i < last implies #[trigger] policy.can_retry(
            i as nat,
            attempts[i],
        ) by {
            assert(policy.classifier()(attempts[i], true));
        }
    }
    if (forall|i: int| 0 <= i < last ==> #[trigger] policy.can_retry(i as nat, attempts[i]))
        && policy.can_return(last as nat, attempts.last()) {
        if last > 0 {
            assert(policy.can_retry((last - 1) as nat, attempts[last - 1]));
        }
        assert forall|i: int| 0 <= i < last implies policy.classifier()(
            #[trigger] attempts[i],
            true,
        ) by {
            assert(policy.can_retry(i as nat, attempts[i]));
        }
    }
}

} // verus!
