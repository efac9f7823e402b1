//! The two retry policies.
use crate::log::backed;
use crate::log::fixed;
use crate::log::same;
use crate::log::scheduled;
use crate::log::steps;
use crate::log::steps_agree;
use crate::log::Journal;
use crate::log::Scene;
use crate::log::Stage;
use crate::log::Step;
use crate::log::Wings;
use crate::matcher::Classifier;
use crate::matcher::MatcherSet;
use crate::observer::Exclusive;
use crate::run::bounded_run;
use crate::run::retries;
use crate::run::returns_each;
use crate::run::unbounded_run;
use crate::traits::Policy;
use crate::wait::all_zero;
use crate::wait::nanos;
use crate::wait::Clock;
use std::time::Duration;
use vstd::prelude::*;

verus! {

/// What a policy with a retry budget decides after an attempt.
pub enum Verdict<R> {
    /// The result stands: the execution hands it back.
    Return(R),
    /// Another attempt is due: the observer is told of `result` and of the
    /// number `retry` of the retry, counted from 1, and `wait` passes before
    /// the operation is called again.
    Retry { result: R, retry: usize, wait: Duration },
}

/// The policy that grants a fixed number of retries.
///
/// An execution calls the operation, and calls it again as long as a
/// matcher asks for it and the budget is not spent. What the operation
/// returns when the budget is spent is handed back as it is, whatever the
/// matchers would say of it: the operation is called at most once more
/// than the budget counts.
///
/// Before each retry the observer, if the policy has one, is told of the
/// result that calls for the retry, and then the pause that the schedule
/// gives for the retry is made, unless it takes no time.
#[verifier::reject_recursive_types(R)]
pub struct RetryPolicy<'l, R> {
    matchers: MatcherSet<'l, R>,
    action: Option<Exclusive<'l, (R, usize)>>,
    durations: Vec<Duration>,
    clock: Option<Clock<'l>>,
}

impl<'l, R> RetryPolicy<'l, R> {
    /// Where a policy has no sleeper, none of its pauses takes any time.
    #[verifier::type_invariant]
    spec fn well_formed(&self) -> bool {
        self.clock is None ==> all_zero(self.durations@)
    }

    /// The policy that retries on `matchers`, tells `action` of each
    /// retry, and has `clock` make the pauses of `durations`.
    pub(crate) fn new(
        matchers: MatcherSet<'l, R>,
        action: Option<Exclusive<'l, (R, usize)>>,
        durations: Vec<Duration>,
        clock: Option<Clock<'l>>,
    ) -> (policy: Self)
        requires
            clock is None ==> all_zero(durations@),
        ensures
            policy.classifier() == matchers@,
            policy.schedule() == durations@,
            policy.notifies() == (action is Some),
            policy.sleeps() == (clock is Some),
            forall|result: R, retry: usize| #[trigger]
                policy.told(result, retry) == (action is Some && action->0.told((result, retry))),
            forall|wait: Duration| #[trigger]
                policy.slept(wait) == (clock is Some && clock->0.slept(wait)),
    {
        RetryPolicy { matchers, action, durations, clock }
    }

    /// What the matchers of the policy can answer to the question whether
    /// a result calls for another attempt.
    pub closed spec fn classifier(&self) -> Classifier<R> {
        self.matchers@
    }

    /// The pauses of the policy: the one at index `i` follows the attempt
    /// with index `i`.
    pub closed spec fn schedule(&self) -> Seq<Duration> {
        self.durations@
    }

    /// The number of retries that the policy grants.
    pub open spec fn budget(&self) -> nat {
        self.schedule().len()
    }

    /// Whether the policy has an observer.
    pub closed spec fn notifies(&self) -> bool {
        self.action is Some
    }

    /// Whether the policy has a sleeper.
    pub closed spec fn sleeps(&self) -> bool {
        self.clock is Some
    }

    /// Whether the policy has an observer that comes back from being told
    /// of `result` and of the retry number `retry`. This is what is known
    /// once the observer has been told of them.
    pub closed spec fn told(&self, result: R, retry: usize) -> bool {
        self.action is Some && self.action->0.told((result, retry))
    }

    /// Whether the policy has a sleeper that comes back from the pause
    /// `wait`. This is what is known once the sleeper has made the pause.
    pub closed spec fn slept(&self, wait: Duration) -> bool {
        self.clock is Some && self.clock->0.slept(wait)
    }

    /// Whether the policy can ask for a retry after the attempt with index
    /// `attempt` has returned `result`: the budget is not spent, and the
    /// matchers can call for the retry.
    pub open spec fn can_retry(&self, attempt: nat, result: R) -> bool {
        attempt < self.budget() && self.classifier()(result, true)
    }

    /// Whether the policy can let `result` stand after the attempt with
    /// index `attempt` has returned it: the budget is spent, or the
    /// matchers can let it stand.
    pub open spec fn can_return(&self, attempt: nat, result: R) -> bool {
        attempt >= self.budget() || self.classifier()(result, false)
    }

    /// Whether the policy can decide `verdict` after the attempt with index
    /// `attempt` has returned `result`.
    pub open spec fn decides(&self, attempt: nat, result: R, verdict: Verdict<R>) -> bool {
        match verdict {
            Verdict::Retry { result: told, retry, wait } => {
                &&& self.can_retry(attempt, result)
                &&& told == result
                &&& retry == attempt + 1
                &&& wait == self.schedule()[attempt as int]
            },
            Verdict::Return(back) => {
                &&& self.can_return(attempt, result)
                &&& back == result
            },
        }
    }

    /// Whether the observer was told of each retry of the run `attempts`:
    /// of the result that was followed by the retry, and of the number of
    /// the retry, counted from 1.
    pub open spec fn told_each(&self, attempts: Seq<R>) -> bool {
        forall|i: int|
            0 <= i < attempts.len() - 1 ==> self.told(#[trigger] attempts[i], (i + 1) as usize)
    }

    /// Whether the sleeper made each pause of the run `attempts` that
    /// takes any time: the pause at index `i` of the schedule, where the
    /// attempt with index `i` was followed by a retry.
    pub open spec fn slept_each(&self, attempts: Seq<R>) -> bool {
        forall|i: int|
            0 <= i < attempts.len() - 1 && i < self.budget() && nanos(#[trigger] self.schedule()[i])
                > 0 ==> self.slept(self.schedule()[i])
    }

    /// Whether `attempts` can be the run of an execution of `operation`
    /// under this policy: the results of the calls of `operation`, in
    /// their order, with what the execution has done after each.
    pub open spec fn runs<O: FnMut() -> R>(&self, operation: O, attempts: Seq<R>) -> bool {
        &&& bounded_run(self.classifier(), self.budget(), attempts)
        &&& returns_each(operation, attempts)
        &&& self.notifies() ==> self.told_each(attempts)
        &&& self.slept_each(attempts)
    }

    /// Decides what follows the attempt with index `attempt`, which
    /// returned `result`. The first attempt has the index 0. The matchers
    /// are not asked once the budget is spent.
    pub fn judge(&self, attempt: usize, result: R) -> (verdict: Verdict<R>)
        ensures
            self.decides(attempt as nat, result, verdict),
    {
        if attempt < self.durations.len() && self.matchers.matches_any(&result) {
            let wait: Duration = self.durations[attempt];
            Verdict::Retry { result, retry: attempt + 1, wait }
        } else {
            Verdict::Return(result)
        }
    }

    /// The steps of an execution under this policy that sees the run
    /// `attempts`, in their order: for each retry the call that returned
    /// the result before it, the notification of that result with the
    /// number of the retry, counted from 1, and the pause of the retry, if
    /// it takes time; and then the call that returned the last result.
    pub open spec fn trace(&self, attempts: Seq<R>) -> Seq<Step<R, (R, usize)>> {
        self.retried(attempts, retries(attempts)).push(Step::Called(attempts.last()))
    }

    /// The steps of the first `made` retries of an execution under this
    /// policy that sees the results `attempts`.
    pub open spec fn retried(&self, attempts: Seq<R>, made: nat) -> Seq<Step<R, (R, usize)>> {
        steps(
            attempts,
            |i: int| (attempts[i], (i + 1) as usize),
            scheduled(self.schedule()),
            made,
        )
    }

    /// The journal of `operation` and of the observer and the sleeper of
    /// this policy, with nothing in its log.
    pub fn scene<'a, O: FnMut() -> R>(&'a self, operation: O) -> (scene: Scene<
        'a,
        'l,
        R,
        (R, usize),
        O,
    >)
        ensures
            scene.log() == Seq::<Step<R, (R, usize)>>::empty(),
            scene.can_call() == call_requires(operation, ()),
            scene.can_pause() == self.sleeps(),
            forall|result: R| #[trigger]
                scene.backs(Step::Called(result)) == call_ensures(operation, (), result),
            forall|result: R, retry: usize| #[trigger]
                scene.backs(Step::Told((result, retry))) == (self.notifies() ==> self.told(
                    result,
                    retry,
                )),
            forall|wait: Duration| #[trigger] scene.backs(Step::Paused(wait)) == self.slept(wait),
    {
        Scene::new(
            operation,
            match &self.action {
                Some(action) => Some(action),
                None => None,
            },
            match &self.clock {
                Some(clock) => Some(clock),
                None => None,
            },
        )
    }

    /// Executes the operation of `journal` under this policy, with its
    /// observer told of each retry and its sleeper asked for each pause
    /// that takes time.
    ///
    /// What comes back is the last result of a run of the policy, and the
    /// steps made are those of that run, in their order, no more and no
    /// fewer: the log of the journal has grown by the trace of the run.
    pub fn execute_logged<J: Stage<R, (R, usize)>>(&self, journal: &mut J) -> (result: R)
        requires
            old(journal).can_call(),
            !all_zero(self.schedule()) ==> old(journal).can_pause(),
        ensures
            exists|attempts: Seq<R>| #[trigger]
                bounded_run(self.classifier(), self.budget(), attempts) && attempts.last()
                    == result && final(journal).log() == old(journal).log() + self.trace(attempts)
                    && backed(*final(journal), self.trace(attempts)),
            same(*old(journal), *final(journal)),
    {
        let ghost mut attempts: Seq<R> = Seq::empty();
        let mut attempt: usize = 0;
        loop
            invariant
                attempt == attempts.len(),
                attempt <= self.durations.len(),
                forall|i: int|
                    0 <= i < attempts.len() ==> self.classifier()(#[trigger] attempts[i], true),
                journal.log() == old(journal).log() + self.retried(attempts, attempts.len()),
                backed(*journal, self.retried(attempts, attempts.len())),
                same(*old(journal), *journal),
                old(journal).can_call(),
                !all_zero(self.schedule()) ==> old(journal).can_pause(),
            decreases self.durations.len() - attempt,
        {
            let ghost before = attempts;
            let result = journal.call();
            proof {
                attempts = attempts.push(result);
                self.retried_agree(before, attempts, before.len());
            }
            match self.judge(attempt, result) {
                Verdict::Return(result) => {
                    proof {
                        assert(journal.log() =~= old(journal).log() + self.trace(attempts));
                        assert(bounded_run(self.classifier(), self.budget(), attempts));
                    }
                    return result;
                },
                Verdict::Retry { result, retry, wait } => {
                    journal.notify((result, retry));
                    if wait.as_nanos() > 0 {
                        journal.pause(wait);
                    }
                    proof {
                        assert(journal.log() =~= old(journal).log() + self.retried(
                            attempts,
                            attempts.len(),
                        ));
                    }
                    attempt += 1;
                },
            }
        }
    }

    /// The steps of retries depend on the results before those retries
    /// alone.
    pub proof fn retried_agree(&self, attempts: Seq<R>, others: Seq<R>, made: nat)
        requires
            made <= attempts.len(),
            made <= others.len(),
            forall|i: int| 0 <= i < made ==> attempts[i] == others[i],
        ensures
            self.retried(attempts, made) == self.retried(others, made),
    {
        steps_agree(
            attempts,
            |i: int| (attempts[i], (i + 1) as usize),
            scheduled(self.schedule()),
            others,
            |i: int| (others[i], (i + 1) as usize),
            scheduled(self.schedule()),
            made,
        );
    }

    /// Where the steps of a run come back, the operation can return each
    /// result of the run, the observer comes back from each retry, and the
    /// sleeper from each pause that takes time.
    pub proof fn backed_trace<J: Journal<R, (R, usize)>>(
        &self,
        journal: J,
        attempts: Seq<R>,
        made: nat,
    )
        requires
            made <= attempts.len(),
            backed(journal, self.retried(attempts, made)),
        ensures
            forall|i: int| 0 <= i < made ==> journal.backs(Step::Called(#[trigger] attempts[i])),
            forall|i: int|
                0 <= i < made ==> journal.backs(
                    Step::Told((#[trigger] attempts[i], (i + 1) as usize)),
                ),
            forall|i: int|
                0 <= i < made && nanos(#[trigger] self.schedule()[i]) > 0 ==> journal.backs(
                    Step::Paused(self.schedule()[i]),
                ),
        decreases made,
    {
        if made > 0 {
            let before = self.retried(attempts, (made - 1) as nat);
            let all = self.retried(attempts, made);
            let i = made - 1;
            let called = before.len() as int;
            assert(all[called] == Step::<R, (R, usize)>::Called(attempts[i]));
            assert(all[called + 1] == Step::<R, (R, usize)>::Told((attempts[i], (i + 1) as usize)));
            if nanos(self.schedule()[i]) > 0 {
                assert(all[called + 2] == Step::<R, (R, usize)>::Paused(self.schedule()[i]));
            }
            assert forall|j: int| 0 <= j < before.len() implies journal.backs(
                #[trigger] before[j],
            ) by {
                assert(all[j] == before[j]);
            }
            self.backed_trace(journal, attempts, (made - 1) as nat);
        }
    }
}

impl<'l, O: FnMut() -> R, R> Policy<O, R> for RetryPolicy<'l, R> {
    /// Executes `operation` under this policy: what comes back is the last
    /// result of a run of the policy, and in that run the operation has
    /// returned each result, the observer has been told of each retry, and
    /// the sleeper has made each pause that takes any time.
    ///
    /// The steps are made by [`RetryPolicy::execute_logged`], whose
    /// contract says that they are those of the run, in their order, no
    /// more and no fewer.
    fn execute(&self, operation: O) -> (result: R)
        ensures
            exists|attempts: Seq<R>| #[trigger]
                self.runs(operation, attempts) && attempts.len() > 0 && attempts.last() == result,
    {
        proof {
            use_type_invariant(self);
        }
        let mut scene = self.scene(operation);
        let result = self.execute_logged(&mut scene);
        proof {
            let attempts = choose|attempts: Seq<R>| #[trigger]
                bounded_run(self.classifier(), self.budget(), attempts) && attempts.last()
                    == result && backed(scene, self.trace(attempts));
            let trace = self.trace(attempts);
            let made = retries(attempts);
            assert forall|j: int| 0 <= j < self.retried(attempts, made).len() implies scene.backs(
                #[trigger] self.retried(attempts, made)[j],
            ) by {
                assert(trace[j] == self.retried(attempts, made)[j]);
            }
            self.backed_trace(scene, attempts, made);
            assert(trace[trace.len() - 1] == Step::<R, (R, usize)>::Called(attempts.last()));
            assert(self.runs(operation, attempts));
        }
        result
    }
}

/// The policy that retries without a budget.
///
/// An execution calls the operation again and again, until no matcher asks
/// for another attempt. Nothing else ends it: with matchers that let no
/// result of the operation stand, it never returns. That it ends is the
/// caller's to see to.
///
/// Before each retry the observer, if the policy has one, is told of the
/// result that calls for the retry, and then the pause of the policy is
/// made, unless it takes no time.
///
/// The policy settles one attempt in [`RetryForeverPolicy::after_attempt`],
/// and makes as many attempts as the caller allows in
/// [`RetryForeverPolicy::execute_within`], on the stage that
/// [`RetryForeverPolicy::scene`] makes of an operation. The loop that
/// nothing bounds is the caller's.
#[verifier::reject_recursive_types(R)]
pub struct RetryForeverPolicy<'l, R> {
    matchers: MatcherSet<'l, R>,
    action: Option<Exclusive<'l, R>>,
    duration: Duration,
    clock: Option<Clock<'l>>,
}

impl<'l, R> RetryForeverPolicy<'l, R> {
    /// Where a policy has no sleeper, its pause takes no time.
    #[verifier::type_invariant]
    spec fn well_formed(&self) -> bool {
        self.clock is None ==> nanos(self.duration) == 0
    }

    /// The policy that retries on `matchers`, tells `action` of each
    /// retry, and has `clock` make a pause of `duration` before it.
    pub(crate) fn new(
        matchers: MatcherSet<'l, R>,
        action: Option<Exclusive<'l, R>>,
        duration: Duration,
        clock: Option<Clock<'l>>,
    ) -> (policy: Self)
        requires
            clock is None ==> nanos(duration) == 0,
        ensures
            policy.classifier() == matchers@,
            policy.wait() == duration,
            policy.notifies() == (action is Some),
            policy.sleeps() == (clock is Some),
            forall|result: R| #[trigger]
                policy.told(result) == (action is Some && action->0.told(result)),
            forall|wait: Duration| #[trigger]
                policy.slept(wait) == (clock is Some && clock->0.slept(wait)),
    {
        RetryForeverPolicy { matchers, action, duration, clock }
    }

    /// What the matchers of the policy can answer to the question whether
    /// a result calls for another attempt.
    pub closed spec fn classifier(&self) -> Classifier<R> {
        self.matchers@
    }

    /// The pause that is made before each retry.
    pub closed spec fn wait(&self) -> Duration {
        self.duration
    }

    /// Whether the policy has an observer.
    pub closed spec fn notifies(&self) -> bool {
        self.action is Some
    }

    /// Whether the policy has a sleeper.
    pub closed spec fn sleeps(&self) -> bool {
        self.clock is Some
    }

    /// Whether the policy has an observer that comes back from being told
    /// of `result`. This is what is known once the observer has been told
    /// of it.
    pub closed spec fn told(&self, result: R) -> bool {
        self.action is Some && self.action->0.told(result)
    }

    /// Whether the policy has a sleeper that comes back from the pause
    /// `wait`. This is what is known once the sleeper has made the pause.
    pub closed spec fn slept(&self, wait: Duration) -> bool {
        self.clock is Some && self.clock->0.slept(wait)
    }

    /// Whether a sequence of attempts was settled as this policy asks, in
    /// an execution that may make `limit` attempts and hands `stands` back.
    ///
    /// Where a result comes back, `attempts` is a run of the policy of at
    /// most `limit` attempts, and the result is its last: every attempt
    /// before it was followed by a retry. Where nothing comes back,
    /// `limit` attempts were made, and each was followed by a retry.
    pub open spec fn within(&self, limit: nat, attempts: Seq<R>, stands: Option<R>) -> bool {
        match stands {
            Some(result) => {
                &&& unbounded_run(self.classifier(), attempts)
                &&& attempts.len() <= limit
                &&& attempts.last() == result
            },
            None => {
                &&& attempts.len() == limit
                &&& forall|i: int|
                    0 <= i < attempts.len() ==> self.classifier()(#[trigger] attempts[i], true)
            },
        }
    }

    /// The steps of the first `made` retries of an execution under this
    /// policy that sees the results `attempts`: for each retry the call
    /// that returned the result before it, the notification of that
    /// result, and the pause of the policy, if it takes time.
    pub open spec fn retried(&self, attempts: Seq<R>, made: nat) -> Seq<Step<R, R>> {
        steps(attempts, |i: int| attempts[i], fixed(self.wait()), made)
    }

    /// The steps of an execution under this policy that sees the results
    /// `attempts` and hands `stands` back, in their order: where a result
    /// comes back, the steps of the retries before it and the call that
    /// returned it; where nothing comes back, the steps of a retry after
    /// each result.
    pub open spec fn trace(&self, attempts: Seq<R>, stands: Option<R>) -> Seq<Step<R, R>> {
        if stands is Some {
            self.retried(attempts, retries(attempts)).push(Step::Called(attempts.last()))
        } else {
            self.retried(attempts, attempts.len())
        }
    }

    /// The steps that follow an attempt whose result `result` calls for a
    /// retry: the notification of the result, and the pause of the
    /// policy, if it takes time.
    pub open spec fn settling(&self, result: R) -> Seq<Step<R, R>> {
        if nanos(self.wait()) > 0 {
            seq![Step::Told(result), Step::Paused(self.wait())]
        } else {
            seq![Step::Told(result)]
        }
    }

    /// The journal of `operation` and of the observer and the sleeper of
    /// this policy, with nothing in its log.
    pub fn scene<'a, O: FnMut() -> R>(&'a self, operation: O) -> (scene: Scene<'a, 'l, R, R, O>)
        ensures
            scene.log() == Seq::<Step<R, R>>::empty(),
            scene.can_call() == call_requires(operation, ()),
            scene.can_pause() == self.sleeps(),
            forall|result: R| #[trigger]
                scene.backs(Step::Called(result)) == call_ensures(operation, (), result),
            forall|result: R| #[trigger]
                scene.backs(Step::Told(result)) == (self.notifies() ==> self.told(result)),
            forall|wait: Duration| #[trigger] scene.backs(Step::Paused(wait)) == self.slept(wait),
    {
        Scene::new(
            operation,
            match &self.action {
                Some(action) => Some(action),
                None => None,
            },
            match &self.clock {
                Some(clock) => Some(clock),
                None => None,
            },
        )
    }

    /// Settles an attempt that returned `result`, with the observer and
    /// the sleeper of `journal`.
    ///
    /// Where the matchers let the result stand, it comes back, and no step
    /// is made. Else the observer is told of the result once, then the
    /// sleeper is asked for the pause once, if it takes time, and nothing
    /// comes back: the operation is to be called again.
    pub fn after_attempt_logged<J: Journal<R, R>>(&self, result: R, journal: &mut J) -> (stands:
        Option<R>)
        requires
            nanos(self.wait()) > 0 ==> old(journal).can_pause(),
        ensures
            match stands {
                Some(back) => {
                    &&& back == result
                    &&& self.classifier()(result, false)
                    &&& final(journal).log() == old(journal).log()
                },
                None => {
                    &&& self.classifier()(result, true)
                    &&& final(journal).log() == old(journal).log() + self.settling(result)
                    &&& backed(*final(journal), self.settling(result))
                },
            },
            same(*old(journal), *final(journal)),
    {
        if self.matchers.matches_any(&result) {
            journal.notify(result);
            if self.duration.as_nanos() > 0 {
                journal.pause(self.duration);
            }
            assert(journal.log() =~= old(journal).log() + self.settling(result));
            None
        } else {
            Some(result)
        }
    }

    /// Settles an attempt that returned `result`. Where no matcher asks for
    /// another attempt, the result stands and comes back. Else the
    /// observer, if there is one, is told of the result, the pause is
    /// made, unless it takes no time, and nothing comes back: the
    /// operation is to be called again.
    ///
    /// The steps are made by [`RetryForeverPolicy::after_attempt_logged`],
    /// whose contract says that they are these, in this order, no more and
    /// no fewer.
    pub fn after_attempt(&self, result: R) -> (stands: Option<R>)
        ensures
            match stands {
                Some(back) => back == result && self.classifier()(result, false),
                None => {
                    &&& self.classifier()(result, true)
                    &&& self.notifies() ==> self.told(result)
                    &&& nanos(self.wait()) > 0 ==> self.slept(self.wait())
                },
            },
    {
        proof {
            use_type_invariant(self);
        }
        let mut scene = Wings::new(
            match &self.action {
                Some(action) => Some(action),
                None => None,
            },
            match &self.clock {
                Some(clock) => Some(clock),
                None => None,
            },
        );
        let stands = self.after_attempt_logged(result, &mut scene);
        proof {
            if stands is None {
                let settling = self.settling(result);
                assert(settling[0] == Step::<R, R>::Told(result));
                if nanos(self.wait()) > 0 {
                    assert(settling[1] == Step::<R, R>::Paused(self.wait()));
                }
            }
        }
        stands
    }

    /// Executes the operation of `journal` under this policy for as long
    /// as it takes at most `limit` calls, with its observer told of each
    /// retry and its sleeper asked for each pause that takes time: the
    /// operation is called until a result stands, which comes back. Where
    /// `limit` calls were made and every result was followed by a retry,
    /// nothing comes back, and the caller may go on with another call of
    /// this function.
    ///
    /// The steps made are those of the attempts, in their order, no more
    /// and no fewer: the log of the journal has grown by their trace.
    pub fn execute_within<J: Stage<R, R>>(&self, journal: &mut J, limit: usize) -> (stands:
        Option<R>)
        requires
            old(journal).can_call(),
            nanos(self.wait()) > 0 ==> old(journal).can_pause(),
        ensures
            exists|attempts: Seq<R>| #[trigger]
                self.within(limit as nat, attempts, stands) && final(journal).log() == old(
                    journal,
                ).log() + self.trace(attempts, stands) && backed(
                    *final(journal),
                    self.trace(attempts, stands),
                ),
            same(*old(journal), *final(journal)),
    {
        let ghost mut attempts: Seq<R> = Seq::empty();
        let mut made: usize = 0;
        while made < limit
            invariant
                made <= limit,
                attempts.len() == made,
                self.within(made as nat, attempts, None),
                journal.log() == old(journal).log() + self.retried(attempts, attempts.len()),
                backed(*journal, self.retried(attempts, attempts.len())),
                same(*old(journal), *journal),
                old(journal).can_call(),
                nanos(self.wait()) > 0 ==> old(journal).can_pause(),
            decreases limit - made,
        {
            let ghost before = attempts;
            let result = journal.call();
            match self.after_attempt_logged(result, journal) {
                Some(result) => {
                    proof {
                        let run = before.push(result);
                        self.retried_agree(before, run, before.len());
                        assert(run.drop_last() =~= before);
                        assert(journal.log() =~= old(journal).log() + self.trace(
                            run,
                            Some(result),
                        ));
                        assert(self.within(limit as nat, run, Some(result)));
                    }
                    return Some(result);
                },
                None => {
                    proof {
                        attempts = before.push(result);
                        self.retried_agree(before, attempts, before.len());
                        assert(self.settling(result)[0] == Step::<R, R>::Told(result));
                        assert(journal.log() =~= old(journal).log() + self.retried(
                            attempts,
                            attempts.len(),
                        ));
                    }
                    made += 1;
                },
            }
        }
        None
    }

    /// The steps of retries depend on the results before those retries
    /// alone.
    pub proof fn retried_agree(&self, attempts: Seq<R>, others: Seq<R>, made: nat)
        requires
            made <= attempts.len(),
            made <= others.len(),
            forall|i: int| 0 <= i < made ==> attempts[i] == others[i],
        ensures
            self.retried(attempts, made) == self.retried(others, made),
    {
        steps_agree(
            attempts,
            |i: int| attempts[i],
            fixed(self.wait()),
            others,
            |i: int| others[i],
            fixed(self.wait()),
            made,
        );
    }
}

} // verus!
