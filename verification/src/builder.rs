//! The builder of policies.
use crate::matcher::always;
use crate::matcher::asking;
use crate::matcher::either;
use crate::matcher::never;
use crate::matcher::on_err;
use crate::matcher::on_ok;
use crate::matcher::Always;
use crate::matcher::Classifier;
use crate::matcher::MatcherSet;
use crate::matcher::Predicate;
use crate::matcher::WhenErr;
use crate::matcher::WhenOk;
use crate::observer::Exclusive;
use crate::retry::RetryForeverPolicy;
use crate::retry::RetryPolicy;
use crate::wait::all_zero;
use crate::wait::nanos;
use crate::wait::no_waits;
use crate::wait::Clock;
use std::time::Duration;
use vstd::prelude::*;

verus! {

/// Collects matchers, and makes policies that retry on them.
///
/// The `handle` functions add a matcher each, and hand the builder on. The
/// `retry` functions make a policy each, and leave the builder as it is:
/// the policies of one builder share its matchers.
///
/// A policy holds the matchers of its builder as they are. A builder
/// without any matcher makes policies that retry on no result: the
/// operation is called once, and what it returns stands.
///
/// A policy does not sleep by itself. The functions that make a policy with
/// pauses take the function that makes them, such as `std::thread::sleep`.
/// That function is handed the pauses that take time, and no other.
#[verifier::reject_recursive_types(R)]
pub struct PolicyBuilder<'l, R> {
    matchers: MatcherSet<'l, R>,
}

impl<'l, R> View for PolicyBuilder<'l, R> {
    type V = Classifier<R>;

    /// What the matchers added so far can answer to the question whether a
    /// result calls for another attempt.
    closed spec fn view(&self) -> Classifier<R> {
        self.matchers@
    }
}

impl<'l, R> PolicyBuilder<'l, R> {
    /// The number of matchers added so far.
    pub closed spec fn count(&self) -> nat {
        self.matchers.count()
    }

    /// The builder without matchers.
    pub fn new() -> (builder: Self)
        ensures
            builder.count() == 0,
            builder@ == never::<R>(),
    {
        PolicyBuilder { matchers: MatcherSet::new() }
    }

    /// Retries on every result.
    pub fn handle_all(self) -> (builder: Self)
        ensures
            builder.count() == self.count() + 1,
            builder@ == either(self@, always::<R>()),
    {
        let matchers = self.matchers.add(Box::new(Always));
        assert(matchers@ =~~= either(self@, always::<R>()));
        PolicyBuilder { matchers }
    }

    /// Retries on the results of which `predicate` says so.
    pub fn handle<F>(self, predicate: F) -> (builder: Self) where F: Fn(&R) -> bool + 'l
        requires
            forall|result: R| call_requires(predicate, (&result,)),
        ensures
            builder.count() == self.count() + 1,
            builder@ == either(self@, asking::<R, F>(predicate)),
    {
        let matchers = self.matchers.add(Box::new(Predicate { predicate }));
        assert(matchers@ =~~= either(self@, asking::<R, F>(predicate)));
        PolicyBuilder { matchers }
    }

    /// The policy that grants `count` retries, without pauses and without
    /// an observer.
    pub fn retry(&self, count: usize) -> (policy: RetryPolicy<'l, R>)
        ensures
            policy.classifier() == self@,
            policy.budget() == count,
            all_zero(policy.schedule()),
            !policy.notifies(),
            !policy.sleeps(),
    {
        RetryPolicy::new(self.matchers.share(), None, no_waits(count), None)
    }

    /// The policy that grants `count` retries without pauses, and tells
    /// `action` of each: of the result that calls for it, and of its
    /// number, counted from 1.
    ///
    /// The policy keeps `action` for good: what `action` owns is not
    /// released when the policy is dropped.
    pub fn retry_with_action<F>(&self, count: usize, action: F) -> (policy: RetryPolicy<
        'l,
        R,
    >) where F: FnMut(R, usize) + 'l
        requires
            forall|result: R, retry: usize| call_requires(action, (result, retry)),
        ensures
            policy.classifier() == self@,
            policy.budget() == count,
            all_zero(policy.schedule()),
            policy.notifies(),
            forall|result: R, retry: usize| #[trigger]
                policy.told(result, retry) == call_ensures(action, (result, retry), ()),
            !policy.sleeps(),
    {
        let observer = Exclusive::counted(action);
        RetryPolicy::new(self.matchers.share(), Some(observer), no_waits(count), None)
    }

    /// The policy that retries without a budget, without pauses and
    /// without an observer.
    pub fn retry_forever(&self) -> (policy: RetryForeverPolicy<'l, R>)
        ensures
            policy.classifier() == self@,
            nanos(policy.wait()) == 0,
            !policy.notifies(),
            !policy.sleeps(),
    {
        RetryForeverPolicy::new(self.matchers.share(), None, Duration::from_nanos(0), None)
    }

    /// The policy that retries without a budget and without pauses, and
    /// tells `action` of each result that calls for a retry.
    ///
    /// The policy keeps `action` for good: what `action` owns is not
    /// released when the policy is dropped.
    pub fn retry_forever_with_action<F>(&self, action: F) -> (policy: RetryForeverPolicy<
        'l,
        R,
    >) where F: FnMut(R) + 'l
        requires
            forall|result: R| call_requires(action, (result,)),
        ensures
            policy.classifier() == self@,
            nanos(policy.wait()) == 0,
            policy.notifies(),
            forall|result: R| #[trigger] policy.told(result) == call_ensures(action, (result,), ()),
            !policy.sleeps(),
    {
        let observer = Exclusive::plain(action);
        RetryForeverPolicy::new(
            self.matchers.share(),
            Some(observer),
            Duration::from_nanos(0),
            None,
        )
    }

    /// The policy that grants one retry for each pause of `durations`, and
    /// has `sleep` make the pause at index `i` before the retry with the
    /// number `i + 1`. A pause that takes no time is not made.
    pub fn wait_and_retry<W>(&self, durations: Vec<Duration>, sleep: W) -> (policy: RetryPolicy<
        'l,
        R,
    >) where W: Fn(Duration) + 'l
        requires
            forall|wait: Duration|
                nanos(wait) > 0 ==> call_requires(sleep, (wait,)),
        ensures
            policy.classifier() == self@,
            policy.schedule() == durations@,
            !policy.notifies(),
            policy.sleeps(),
            forall|wait: Duration| #[trigger]
                policy.slept(wait) == call_ensures(sleep, (wait,), ()),
    {
        RetryPolicy::new(self.matchers.share(), None, durations, Some(Clock::with(sleep)))
    }

    /// The policy that grants one retry for each pause of `durations`,
    /// tells `action` of each retry, of the result that calls for it and
    /// of its number, counted from 1, and then has `sleep` make the pause
    /// before that retry. A pause that takes no time is not made.
    ///
    /// The policy keeps `action` for good: what `action` owns is not
    /// released when the policy is dropped.
    pub fn wait_and_retry_with_action<W, F>(
        &self,
        durations: Vec<Duration>,
        sleep: W,
        action: F,
    ) -> (policy: RetryPolicy<'l, R>) where
        W: Fn(Duration) + 'l,
        F: FnMut(R, usize) + 'l,

        requires
            forall|wait: Duration|
                nanos(wait) > 0 ==> call_requires(sleep, (wait,)),
            forall|result: R, retry: usize| call_requires(action, (result, retry)),
        ensures
            policy.classifier() == self@,
            policy.schedule() == durations@,
            policy.notifies(),
            forall|result: R, retry: usize| #[trigger]
                policy.told(result, retry) == call_ensures(action, (result, retry), ()),
            policy.sleeps(),
            forall|wait: Duration| #[trigger]
                policy.slept(wait) == call_ensures(sleep, (wait,), ()),
    {
        let observer = Exclusive::counted(action);
        RetryPolicy::new(
            self.matchers.share(),
            Some(observer),
            durations,
            Some(Clock::with(sleep)),
        )
    }

    /// The policy that retries without a budget, and has `sleep` make a
    /// pause of `duration` before each retry, unless it takes no time.
    pub fn wait_and_retry_forever<W>(&self, duration: Duration, sleep: W) -> (policy:
        RetryForeverPolicy<'l, R>) where W: Fn(Duration) + 'l
        requires
            forall|wait: Duration|
                nanos(wait) > 0 ==> call_requires(sleep, (wait,)),
        ensures
            policy.classifier() == self@,
            policy.wait() == duration,
            !policy.notifies(),
            policy.sleeps(),
            forall|wait: Duration| #[trigger]
                policy.slept(wait) == call_ensures(sleep, (wait,), ()),
    {
        RetryForeverPolicy::new(
            self.matchers.share(),
            None,
            duration,
            Some(Clock::with(sleep)),
        )
    }

    /// The policy that retries without a budget, tells `action` of each
    /// result that calls for a retry, and then has `sleep` make a pause of
    /// `duration` before that retry, unless it takes no time.
    ///
    /// The policy keeps `action` for good: what `action` owns is not
    /// released when the policy is dropped.
    pub fn wait_and_retry_forever_with_action<W, F>(
        &self,
        duration: Duration,
        sleep: W,
        action: F,
    ) -> (policy: RetryForeverPolicy<'l, R>) where
        W: Fn(Duration) + 'l,
        F: FnMut(R) + 'l,

        requires
            forall|wait: Duration|
                nanos(wait) > 0 ==> call_requires(sleep, (wait,)),
            forall|result: R| call_requires(action, (result,)),
        ensures
            policy.classifier() == self@,
            policy.wait() == duration,
            policy.notifies(),
            forall|result: R| #[trigger] policy.told(result) == call_ensures(action, (result,), ()),
            policy.sleeps(),
            forall|wait: Duration| #[trigger]
                policy.slept(wait) == call_ensures(sleep, (wait,), ()),
    {
        let observer = Exclusive::plain(action);
        RetryForeverPolicy::new(
            self.matchers.share(),
            Some(observer),
            duration,
            Some(Clock::with(sleep)),
        )
    }
}

impl<'l, X, Y> PolicyBuilder<'l, Result<X, Y>> {
    /// Retries on failures.
    pub fn handle_err(self) -> (builder: Self)
        ensures
            builder.count() == self.count() + 1,
            builder@ == either(self@, on_err::<X, Y>()),
    {
        let matchers = self.matchers.add(Box::new(WhenErr));
        assert(matchers@ =~~= either(self@, on_err::<X, Y>()));
        PolicyBuilder { matchers }
    }

    /// Retries on successes.
    pub fn handle_ok(self) -> (builder: Self)
        ensures
            builder.count() == self.count() + 1,
            builder@ == either(self@, on_ok::<X, Y>()),
    {
        let matchers = self.matchers.add(Box::new(WhenOk));
        assert(matchers@ =~~= either(self@, on_ok::<X, Y>()));
        PolicyBuilder { matchers }
    }
}

} // verus!
