use rolly::log::Scene;
use rolly::log::Wings;
use rolly::observer::Exclusive;
use rolly::retry::RetryForeverPolicy;
use rolly::wait::Clock;
use rolly::PolicyBuilder;
use std::cell::RefCell;
use std::time::Duration;

fn execute_forever<R, O: FnMut() -> R>(policy: &RetryForeverPolicy<R>, operation: O) -> R {
    let mut scene = policy.scene(operation);
    loop {
        if let Some(result) = policy.execute_within(&mut scene, 7) {
            return result;
        }
    }
}

#[test]
fn forever_ends_with_the_first_result_that_stands() {
    for k in [0, 1, 4, 50] {
        let mut calls = 0;
        let mut told = Vec::new();
        let policy = PolicyBuilder::new()
            .handle(|x: &i32| *x < k)
            .retry_forever_with_action(|result| told.push(result));
        let result = execute_forever(&policy, || {
            calls += 1;
            calls - 1
        });
        drop(policy);
        assert_eq!(result, k);
        assert_eq!(calls, k + 1);
        assert_eq!(told, (0..k).collect::<Vec<i32>>());
    }
}

#[test]
fn after_attempt_hands_back_the_result_that_stands() {
    let mut told = 0;
    let policy = PolicyBuilder::new()
        .handle_err()
        .retry_forever_with_action(|_: Result<i32, i32>| told += 1);
    assert_eq!(policy.after_attempt(Ok(3)), Some(Ok(3)));
    drop(policy);
    assert_eq!(told, 0);
}

#[test]
fn after_attempt_tells_the_observer_of_a_result_that_matches() {
    let mut told = Vec::new();
    let policy = PolicyBuilder::new()
        .handle_err()
        .retry_forever_with_action(|result: Result<i32, i32>| told.push(result));
    assert_eq!(policy.after_attempt(Err(3)), None);
    assert_eq!(policy.after_attempt(Err(4)), None);
    assert_eq!(policy.after_attempt(Ok(5)), Some(Ok(5)));
    drop(policy);
    assert_eq!(told, vec![Err(3), Err(4)]);
}

#[test]
fn forever_without_matchers_returns_after_one_call() {
    let mut calls = 0;
    let mut told = 0;
    let policy = PolicyBuilder::new().retry_forever_with_action(|_: i32| told += 1);
    assert_eq!(policy.after_attempt(1), Some(1));
    let result = execute_forever(&policy, || {
        calls += 1;
        42
    });
    drop(policy);
    assert_eq!(result, 42);
    assert_eq!(calls, 1);
    assert_eq!(told, 0);

    let policy = PolicyBuilder::new().retry_forever();
    assert_eq!(policy.after_attempt(2), Some(2));
}

#[test]
fn forever_makes_the_same_pause_before_each_retry() {
    let slept = RefCell::new(Vec::new());
    let policy = PolicyBuilder::new()
        .handle(|x: &i32| *x < 3)
        .wait_and_retry_forever(Duration::from_millis(25), |wait| {
            slept.borrow_mut().push(wait)
        });
    let mut calls = 0;
    let result = execute_forever(&policy, || {
        calls += 1;
        calls
    });
    assert_eq!(result, 3);
    assert_eq!(*slept.borrow(), vec![Duration::from_millis(25); 2]);
}

#[test]
fn forever_with_a_pause_that_takes_no_time_never_sleeps() {
    let slept = RefCell::new(Vec::new());
    let mut told = Vec::new();
    let policy = PolicyBuilder::new()
        .handle(|x: &i32| *x < 3)
        .wait_and_retry_forever_with_action(
            Duration::from_nanos(0),
            |wait| slept.borrow_mut().push(wait),
            |result| told.push(result),
        );
    let mut calls = 0;
    let result = execute_forever(&policy, || {
        calls += 1;
        calls
    });
    drop(policy);
    assert_eq!(result, 3);
    assert_eq!(told, vec![1, 2]);
    assert!(slept.borrow().is_empty());
}

#[test]
fn forever_tells_the_observer_before_the_pause() {
    let log = RefCell::new(Vec::new());
    let policy = PolicyBuilder::new()
        .handle_all()
        .wait_and_retry_forever_with_action(
            Duration::from_secs(1),
            |wait| log.borrow_mut().push(format!("sleep {}", wait.as_secs())),
            |result: i32| log.borrow_mut().push(format!("told {}", result)),
        );
    assert_eq!(policy.after_attempt(9), None);
    drop(policy);
    assert_eq!(*log.borrow(), vec!["told 9", "sleep 1"]);
}

#[test]
fn execute_within_ends_with_the_first_result_that_stands() {
    let mut calls = 0;
    let mut told = Vec::new();
    let policy = PolicyBuilder::new()
        .handle(|x: &i32| *x < 4)
        .retry_forever_with_action(|result| told.push(result));
    let mut operation = policy.scene(|| {
        calls += 1;
        calls - 1
    });
    assert_eq!(policy.execute_within(&mut operation, 100), Some(4));
    drop(operation);
    drop(policy);
    assert_eq!(calls, 5);
    assert_eq!(told, vec![0, 1, 2, 3]);
}

#[test]
fn execute_within_stops_at_its_limit_and_can_go_on() {
    let mut calls = 0;
    let mut told = Vec::new();
    let policy = PolicyBuilder::new()
        .handle(|x: &i32| *x < 10)
        .retry_forever_with_action(|result| told.push(result));
    let mut operation = policy.scene(|| {
        calls += 1;
        calls
    });
    assert_eq!(policy.execute_within(&mut operation, 3), None);
    assert_eq!(policy.execute_within(&mut operation, 3), None);
    assert_eq!(policy.execute_within(&mut operation, 0), None);
    assert_eq!(policy.execute_within(&mut operation, 3), None);
    assert_eq!(policy.execute_within(&mut operation, 3), Some(10));
    drop(operation);
    drop(policy);
    assert_eq!(calls, 10);
    assert_eq!(told, vec![1, 2, 3, 4, 5, 6, 7, 8, 9]);
}

#[test]
fn execute_within_a_limit_of_zero_calls_nothing() {
    let mut calls = 0;
    let policy = PolicyBuilder::new().handle_all().retry_forever();
    let mut operation = policy.scene(|| calls += 1);
    assert_eq!(policy.execute_within(&mut operation, 0), None);
    drop(operation);
    assert_eq!(calls, 0);
}

#[test]
fn execute_within_hands_back_the_result_of_the_last_call_it_may_make() {
    let mut calls = 0;
    let policy = PolicyBuilder::new()
        .handle(|x: &i32| *x < 3)
        .retry_forever();
    let mut operation = policy.scene(|| {
        calls += 1;
        calls
    });
    assert_eq!(policy.execute_within(&mut operation, 3), Some(3));
    drop(operation);
    assert_eq!(calls, 3);
}

#[test]
fn journal_of_other_observer_and_sleeper_sees_the_steps_of_the_run() {
    let mut calls = 0;
    let mut log = Vec::new();
    let slept = RefCell::new(Vec::new());
    let policy = PolicyBuilder::new().handle(|x: &i32| *x < 3).retry_forever();
    let told = Exclusive::plain(|result| log.push(result));
    let clock = Clock::with(|wait| slept.borrow_mut().push(wait));
    let mut scene = Scene::new(
        || {
            calls += 1;
            calls - 1
        },
        Some(&told),
        Some(&clock),
    );
    let stands = policy.execute_within(&mut scene, 10);
    drop(scene);
    drop(told);
    assert_eq!(stands, Some(3));
    assert_eq!(calls, 4);
    assert_eq!(log, vec![0, 1, 2]);
    assert!(slept.borrow().is_empty());
}

#[test]
fn logged_step_tells_once_and_then_pauses_once() {
    let steps = RefCell::new(Vec::new());
    let policy = PolicyBuilder::new()
        .handle(|x: &i32| *x < 2)
        .wait_and_retry_forever(Duration::from_millis(5), |_| ());
    let told = Exclusive::plain(|result| steps.borrow_mut().push(format!("told {}", result)));
    let clock = Clock::with(|wait| {
        steps
            .borrow_mut()
            .push(format!("slept {}", wait.as_millis()))
    });
    let mut wings = Wings::new(Some(&told), Some(&clock));
    assert_eq!(policy.after_attempt_logged(0, &mut wings), None);
    assert_eq!(policy.after_attempt_logged(1, &mut wings), None);
    assert_eq!(policy.after_attempt_logged(2, &mut wings), Some(2));
    assert_eq!(
        *steps.borrow(),
        vec!["told 0", "slept 5", "told 1", "slept 5"]
    );
}
