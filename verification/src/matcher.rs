//! Matchers: the classifiers that say whether a result calls for another attempt.
use std::sync::Arc;
use vstd::prelude::*;

verus! {

/// What can be answered to the question whether a result calls for another
/// attempt: `classifier(result, retry)` says that `retry` is a possible
/// answer about `result`. Where one answer is given about each result,
/// exactly one of `classifier(result, true)` and `classifier(result, false)`
/// holds.
pub type Classifier<R> = spec_fn(R, bool) -> bool;

/// The classifier that never asks for another attempt.
pub open spec fn never<R>() -> Classifier<R> {
    |result: R, retry: bool| !retry
}

/// The classifier that asks for another attempt whatever the result.
pub open spec fn always<R>() -> Classifier<R> {
    |result: R, retry: bool| retry
}

/// The classifier that asks for another attempt after a success.
pub open spec fn on_ok<X, Y>() -> Classifier<Result<X, Y>> {
    |result: Result<X, Y>, retry: bool| retry == (result is Ok)
}

/// The classifier that asks for another attempt after a failure.
pub open spec fn on_err<X, Y>() -> Classifier<Result<X, Y>> {
    |result: Result<X, Y>, retry: bool| retry == (result is Err)
}

/// The classifier that answers what `predicate` returns.
pub open spec fn asking<R, F: Fn(&R) -> bool>(predicate: F) -> Classifier<R> {
    |result: R, retry: bool| call_ensures(predicate, (&result,), retry)
}

/// The classifier that asks `first` and, where that one asks for no other
/// attempt, `second`: another attempt is due as soon as one of them asks
/// for it.
pub open spec fn either<R>(first: Classifier<R>, second: Classifier<R>) -> Classifier<R> {
    |result: R, retry: bool|
        if retry {
            first(result, true) || (first(result, false) && second(result, true))
        } else {
            first(result, false) && second(result, false)
        }
}

/// A matcher: it is asked whether a result calls for another attempt.
pub trait Matcher<R> {
    /// Whether the matcher can be asked about every result.
    spec fn ready(&self) -> bool;

    /// Whether the matcher, asked about `result`, can answer `retry`.
    spec fn answers(&self, result: &R, retry: bool) -> bool;

    /// Asks whether `result` calls for another attempt.
    fn test(&self, result: &R) -> (retry: bool)
        requires
            self.ready(),
        ensures
            self.answers(result, retry),
    ;
}

/// The matcher that asks for another attempt whatever the result.
pub struct Always;

impl<R> Matcher<R> for Always {
    open spec fn ready(&self) -> bool {
        true
    }

    open spec fn answers(&self, result: &R, retry: bool) -> bool {
        always::<R>()(*result, retry)
    }

    fn test(&self, result: &R) -> (retry: bool) {
        true
    }
}

/// The matcher that asks for another attempt after a success.
pub struct WhenOk;

impl<X, Y> Matcher<Result<X, Y>> for WhenOk {
    open spec fn ready(&self) -> bool {
        true
    }

    open spec fn answers(&self, result: &Result<X, Y>, retry: bool) -> bool {
        on_ok::<X, Y>()(*result, retry)
    }

    fn test(&self, result: &Result<X, Y>) -> (retry: bool) {
        match result {
            Ok(_) => true,
            Err(_) => false,
        }
    }
}

/// The matcher that asks for another attempt after a failure.
pub struct WhenErr;

impl<X, Y> Matcher<Result<X, Y>> for WhenErr {
    open spec fn ready(&self) -> bool {
        true
    }

    open spec fn answers(&self, result: &Result<X, Y>, retry: bool) -> bool {
        on_err::<X, Y>()(*result, retry)
    }

    fn test(&self, result: &Result<X, Y>) -> (retry: bool) {
        match result {
            Ok(_) => false,
            Err(_) => true,
        }
    }
}

/// The matcher that asks a predicate of the caller.
pub struct Predicate<F> {
    pub predicate: F,
}

impl<R, F: Fn(&R) -> bool> Matcher<R> for Predicate<F> {
    open spec fn ready(&self) -> bool {
        forall|result: R| call_requires(self.predicate, (&result,))
    }

    open spec fn answers(&self, result: &R, retry: bool) -> bool {
        asking::<R, F>(self.predicate)(*result, retry)
    }

    fn test(&self, result: &R) -> (retry: bool) {
        (self.predicate)(result)
    }
}

/// `Arc::clone` gives a second handle to the value that `handle` points at.
#[verifier::external_body]
fn second_handle<T>(handle: &Arc<T>) -> (shared: Arc<T>)
    ensures
        shared == *handle,
{
    Arc::clone(handle)
}

/// An ordered set of matchers. They are asked in the order in which they
/// were added, and a result calls for another attempt as soon as one of
/// them says so. The matchers are shared by the sets that
/// [`MatcherSet::share`] makes.
#[verifier::reject_recursive_types(R)]
pub struct MatcherSet<'l, R> {
    matchers: Vec<Arc<Box<dyn Matcher<R> + 'l>>>,
}

impl<'l, R> View for MatcherSet<'l, R> {
    type V = Classifier<R>;

    /// What the set can answer about a result: that it calls for another
    /// attempt, where a matcher can say so after those before it have said
    /// otherwise, and that it does not, where every matcher can say so.
    closed spec fn view(&self) -> Classifier<R> {
        |result: R, retry: bool|
            if retry {
                exists|i: int|
                    #![trigger self.matchers@[i]]
                    0 <= i < self.matchers@.len() && self.passes(i, result)
                        && self.matchers@[i].answers(&result, true)
            } else {
                self.passes(self.matchers@.len() as int, result)
            }
    }
}

impl<'l, R> MatcherSet<'l, R> {
    /// Every matcher of the set can be asked about every result.
    #[verifier::type_invariant]
    spec fn all_ready(&self) -> bool {
        forall|i: int| 0 <= i < self.matchers@.len() ==> (#[trigger] self.matchers@[i]).ready()
    }

    /// Whether each of the first `n` matchers can say that `result` calls
    /// for no other attempt.
    spec fn passes(&self, n: int, result: R) -> bool {
        forall|j: int| 0 <= j < n ==> (#[trigger] self.matchers@[j]).answers(&result, false)
    }

    /// The number of matchers in the set.
    pub closed spec fn count(&self) -> nat {
        self.matchers@.len()
    }

    /// A set without matchers never asks for another attempt.
    pub proof fn empty_set_never_asks(&self)
        requires
            self.count() == 0,
        ensures
            self@ == never::<R>(),
    {
        assert(self@ =~~= never::<R>());
    }

    /// The set without matchers.
    pub fn new() -> (set: Self)
        ensures
            set.count() == 0,
            set@ == never::<R>(),
    {
        let set = MatcherSet { matchers: Vec::new() };
        proof {
            set.empty_set_never_asks();
        }
        set
    }

    /// The set with `matcher` appended.
    pub fn add(self, matcher: Box<dyn Matcher<R> + 'l>) -> (set: Self)
        requires
            matcher.ready(),
        ensures
            set.count() == self.count() + 1,
            set@ == either(self@, |result: R, retry: bool| matcher.answers(&result, retry)),
    {
        proof {
            use_type_invariant(&self);
        }
        let mut matchers = self.matchers;
        let shared = Arc::new(matcher);
        matchers.push(shared);
        let set = MatcherSet { matchers };
        proof {
            let added = |result: R, retry: bool| matcher.answers(&result, retry);
            let n = self.matchers@.len() as int;
            assert(set.matchers@[n] == shared);
            assert forall|result: R, retry: bool| #[trigger]
                set@(result, retry) == either(self@, added)(result, retry) by {
                assert forall|i: int| 0 <= i <= n implies set.passes(i, result) == self.passes(
                    i,
                    result,
                ) by {
                    assert(forall|j: int| 0 <= j < n ==> set.matchers@[j] == self.matchers@[j]);
                }
                if set.passes(n + 1, result) {
                    assert(set.matchers@[n].answers(&result, false));
                }
                if retry && self@(result, true) {
                    let i = choose|i: int|
                        #![trigger self.matchers@[i]]
                        0 <= i < n && self.passes(i, result) && self.matchers@[i].answers(
                            &result,
                            true,
                        );
                    assert(set.matchers@[i].answers(&result, true));
                }
                if retry && self@(result, false) && added(result, true) {
                    assert(set.matchers@[n].answers(&result, true));
                }
            }
            assert(set@ =~~= either(self@, added));
        }
        set
    }

    /// The number of matchers.
    pub fn len(&self) -> (count: usize)
        ensures
            count == self.count(),
    {
        self.matchers.len()
    }

    /// A set of the same matchers in the same order.
    pub fn share(&self) -> (set: Self)
        ensures
            set.count() == self.count(),
            set@ == self@,
    {
        proof {
            use_type_invariant(self);
        }
        let mut matchers: Vec<Arc<Box<dyn Matcher<R> + 'l>>> = Vec::new();
        let mut i: usize = 0;
        while i < self.matchers.len()
            invariant
                i <= self.matchers.len(),
                matchers@ == self.matchers@.take(i as int),
            decreases self.matchers.len() - i,
        {
            matchers.push(second_handle(&self.matchers[i]));
            i += 1;
        }
        assert(matchers@ == self.matchers@);
        MatcherSet { matchers }
    }

    /// Asks the matchers, in their order, whether `result` calls for
    /// another attempt, up to the first that says so.
    pub fn matches_any(&self, result: &R) -> (retry: bool)
        ensures
            self@(*result, retry),
    {
        proof {
            use_type_invariant(self);
        }
        let mut i: usize = 0;
        while i < self.matchers.len()
            invariant
                i <= self.matchers.len(),
                self.all_ready(),
                self.passes(i as int, *result),
            decreases self.matchers.len() - i,
        {
            if self.matchers[i].test(result) {
                assert(self.matchers@[i as int].answers(result, true));
                return true;
            }
            i += 1;
        }
        false
    }
}

} // verus!
