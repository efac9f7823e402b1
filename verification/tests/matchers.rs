use rolly::matcher::Always;
use rolly::matcher::Matcher;
use rolly::matcher::MatcherSet;
use rolly::matcher::Predicate;
use rolly::matcher::WhenErr;
use rolly::matcher::WhenOk;
use rolly::observer::Action;
use rolly::observer::CountedAction;
use rolly::observer::Exclusive;
use rolly::observer::Observer;
use rolly::PolicyBuilder;
use std::cell::RefCell;
use std::rc::Rc;

#[test]
fn always_matches_every_result() {
    assert!(Always.test(&0));
    assert!(Always.test(&"any"));
    assert!(Always.test(&Err::<i32, i32>(1)));
}

#[test]
fn when_ok_matches_successes_only() {
    assert!(WhenOk.test(&Ok::<i32, i32>(1)));
    assert!(!WhenOk.test(&Err::<i32, i32>(1)));
}

#[test]
fn when_err_matches_failures_only() {
    assert!(WhenErr.test(&Err::<i32, i32>(1)));
    assert!(!WhenErr.test(&Ok::<i32, i32>(1)));
}

#[test]
fn predicate_answers_as_its_function() {
    let even = Predicate {
        predicate: |x: &i32| x % 2 == 0,
    };
    assert!(even.test(&4));
    assert!(!even.test(&5));
}

#[test]
fn empty_set_matches_nothing() {
    let set: MatcherSet<i32> = MatcherSet::new();
    assert_eq!(set.len(), 0);
    assert!(!set.matches_any(&0));
    assert!(!set.matches_any(&42));
}

#[test]
fn set_matches_what_one_of_its_matchers_matches() {
    let set = MatcherSet::new()
        .add(Box::new(Predicate {
            predicate: |x: &Result<i32, i32>| *x == Ok(2),
        }))
        .add(Box::new(WhenErr));
    assert_eq!(set.len(), 2);
    assert!(set.matches_any(&Ok(2)));
    assert!(set.matches_any(&Err(2)));
    assert!(!set.matches_any(&Ok(3)));
}

#[test]
fn set_asks_its_matchers_in_their_order_up_to_the_first_yes() {
    let asked = RefCell::new(Vec::new());
    let set = MatcherSet::new()
        .add(Box::new(Predicate { predicate: |x: &i32| {
            asked.borrow_mut().push(1);
            *x == 1
        } }))
        .add(Box::new(Predicate { predicate: |x: &i32| {
            asked.borrow_mut().push(2);
            *x == 2
        } }))
        .add(Box::new(Predicate { predicate: |x: &i32| {
            asked.borrow_mut().push(3);
            *x == 3
        } }));
    assert!(set.matches_any(&2));
    assert_eq!(*asked.borrow(), vec![1, 2]);
    asked.borrow_mut().clear();
    assert!(!set.matches_any(&4));
    assert_eq!(*asked.borrow(), vec![1, 2, 3]);
}

#[test]
fn shared_set_has_the_same_matchers() {
    let asked = RefCell::new(0);
    let set = MatcherSet::new()
        .add(Box::new(Predicate { predicate: |x: &i32| {
            *asked.borrow_mut() += 1;
            *x > 10
        } }))
        .add(Box::new(Predicate {
            predicate: |x: &i32| *x < -10,
        }));
    let shared = set.share();
    assert_eq!(shared.len(), 2);
    let grown = set.add(Box::new(Predicate {
        predicate: |x: &i32| *x == 0,
    }));
    assert_eq!(grown.len(), 3);
    assert_eq!(shared.len(), 2);
    assert!(shared.matches_any(&11));
    assert!(shared.matches_any(&-11));
    assert!(!shared.matches_any(&0));
    assert!(grown.matches_any(&0));
    assert_eq!(*asked.borrow(), 4);
}

#[test]
fn counted_action_hands_result_and_number_to_its_function() {
    let mut seen = Vec::new();
    let mut observer = CountedAction {
        action: |result: char, retry| seen.push((result, retry)),
    };
    observer.notify(('a', 1));
    observer.notify(('b', 2));
    drop(observer);
    assert_eq!(seen, vec![('a', 1), ('b', 2)]);
}

#[test]
fn action_hands_the_result_to_its_function() {
    let mut seen = Vec::new();
    let mut observer = Action {
        action: |result: i32| seen.push(result),
    };
    observer.notify(4);
    observer.notify(5);
    drop(observer);
    assert_eq!(seen, vec![4, 5]);
}

#[test]
fn exclusive_observer_is_told_through_a_shared_reference() {
    let mut seen = Vec::new();
    let counted = Exclusive::counted(|result: i32, retry| seen.push((result, retry)));
    let first = &counted;
    let second = &counted;
    first.notify((7, 1));
    second.notify((8, 2));
    drop(counted);
    assert_eq!(seen, vec![(7, 1), (8, 2)]);

    let mut seen = Vec::new();
    let plain = Exclusive::plain(|result: i32| seen.push(result));
    plain.notify(1);
    plain.notify(2);
    drop(plain);
    assert_eq!(seen, vec![1, 2]);
}

#[test]
fn matchers_live_as_long_as_a_builder_or_a_policy_holds_them() {
    let held = Rc::new(5);
    let in_predicate = Rc::clone(&held);
    let in_sleep = Rc::clone(&held);
    let builder = PolicyBuilder::new().handle(move |x: &i32| *x == *in_predicate);
    let policy = builder.wait_and_retry(Vec::new(), move |_| drop(Rc::clone(&in_sleep)));
    let second = builder.retry(1);
    assert_eq!(Rc::strong_count(&held), 3);
    drop(builder);
    assert_eq!(Rc::strong_count(&held), 3);
    drop(policy);
    assert_eq!(Rc::strong_count(&held), 2);
    drop(second);
    assert_eq!(Rc::strong_count(&held), 1);
}

#[test]
fn observer_is_kept_when_its_policy_is_dropped() {
    let held = Rc::new(5);
    let in_action = Rc::clone(&held);
    let in_forever = Rc::clone(&held);
    let builder = PolicyBuilder::new().handle(|x: &i32| *x == 0);
    let policy = builder.retry_with_action(1, move |_, _| drop(Rc::clone(&in_action)));
    let forever = builder.retry_forever_with_action(move |_| drop(Rc::clone(&in_forever)));
    assert_eq!(Rc::strong_count(&held), 3);
    drop(policy);
    drop(forever);
    drop(builder);
    assert_eq!(Rc::strong_count(&held), 3);
}
