use rolly::retry::Verdict;
use rolly::wait::no_waits;
use rolly::wait::Clock;
use rolly::wait::Pause;
use rolly::wait::Sleeper;
use rolly::Policy;
use rolly::PolicyBuilder;
use std::cell::Cell;
use std::cell::RefCell;
use std::time::Duration;

#[test]
fn every_pause_of_the_schedule_is_made_when_every_attempt_matches() {
    let slept = RefCell::new(Vec::new());
    let schedule = vec![
        Duration::from_millis(5),
        Duration::from_nanos(1),
        Duration::from_secs(2),
    ];
    let policy = PolicyBuilder::new()
        .handle_all()
        .wait_and_retry(schedule.clone(), |wait| slept.borrow_mut().push(wait));
    let mut calls = 0;
    policy.execute(|| calls += 1);
    assert_eq!(calls, 4);
    assert_eq!(*slept.borrow(), schedule);
    let total: Duration = slept.borrow().iter().sum();
    assert_eq!(total, Duration::from_nanos(2_005_000_001));
}

#[test]
fn a_pause_that_takes_no_time_is_not_made() {
    let slept = RefCell::new(Vec::new());
    let schedule = vec![
        Duration::from_nanos(0),
        Duration::from_millis(3),
        Duration::ZERO,
        Duration::from_micros(4),
        Duration::from_secs(0),
    ];
    let policy = PolicyBuilder::new()
        .handle_all()
        .wait_and_retry(schedule, |wait| slept.borrow_mut().push(wait));
    let mut calls = 0;
    policy.execute(|| calls += 1);
    assert_eq!(calls, 6);
    assert_eq!(
        *slept.borrow(),
        vec![Duration::from_millis(3), Duration::from_micros(4)]
    );
}

#[test]
fn budget_is_the_length_of_the_schedule() {
    for length in [0usize, 1, 4] {
        let schedule = vec![Duration::from_millis(1); length];
        let policy = PolicyBuilder::new().handle_all().wait_and_retry(schedule, |_| ());
        let mut calls = 0;
        policy.execute(|| calls += 1);
        assert_eq!(calls, length + 1);
    }
}

#[test]
fn empty_schedule_calls_the_operation_once() {
    let slept = Cell::new(0);
    let mut told = 0;
    let mut calls = 0;
    let policy = PolicyBuilder::new().handle_all().wait_and_retry_with_action(
        Vec::new(),
        |_| slept.set(slept.get() + 1),
        |_: i32, _| told += 1,
    );
    let result = policy.execute(|| {
        calls += 1;
        17
    });
    drop(policy);
    assert_eq!(result, 17);
    assert_eq!(calls, 1);
    assert_eq!(told, 0);
    assert_eq!(slept.get(), 0);
}

#[test]
fn no_pause_follows_the_result_that_stands() {
    let slept = RefCell::new(Vec::new());
    let schedule = vec![
        Duration::from_millis(1),
        Duration::from_millis(2),
        Duration::from_millis(3),
    ];
    let policy = PolicyBuilder::new()
        .handle_err()
        .wait_and_retry(schedule, |wait| slept.borrow_mut().push(wait));
    let mut calls = 0;
    let result: Result<i32, i32> = policy.execute(|| {
        calls += 1;
        if calls == 3 {
            Ok(calls)
        } else {
            Err(calls)
        }
    });
    assert_eq!(result, Ok(3));
    assert_eq!(
        *slept.borrow(),
        vec![Duration::from_millis(1), Duration::from_millis(2)]
    );
}

#[test]
fn observer_is_told_before_the_pause_is_made() {
    let log = RefCell::new(Vec::new());
    let policy = PolicyBuilder::new().handle_all().wait_and_retry_with_action(
        vec![Duration::from_millis(10), Duration::from_millis(20)],
        |wait| log.borrow_mut().push(format!("sleep {}", wait.as_millis())),
        |result: i32, retry| log.borrow_mut().push(format!("told {} {}", result, retry)),
    );
    let mut calls = 0;
    let result = policy.execute(|| {
        calls += 1;
        log.borrow_mut().push(format!("call {}", calls));
        calls * 100
    });
    drop(policy);
    assert_eq!(result, 300);
    assert_eq!(
        *log.borrow(),
        vec![
            "call 1",
            "told 100 1",
            "sleep 10",
            "call 2",
            "told 200 2",
            "sleep 20",
            "call 3"
        ]
    );
}

#[test]
fn verdict_carries_the_pause_of_the_attempt() {
    let schedule = vec![Duration::from_millis(10), Duration::from_millis(20)];
    let policy = PolicyBuilder::new().handle_all().wait_and_retry(schedule, |_| ());
    match policy.judge(1, 'x') {
        Verdict::Retry { result, retry, wait } => {
            assert_eq!(result, 'x');
            assert_eq!(retry, 2);
            assert_eq!(wait, Duration::from_millis(20));
        }
        Verdict::Return(_) => panic!("the budget is not spent"),
    }
}

#[test]
fn retry_makes_a_schedule_of_pauses_that_take_no_time() {
    let policy = PolicyBuilder::new().handle_all().retry(3);
    for attempt in 0..3 {
        match policy.judge(attempt, ()) {
            Verdict::Retry { wait, .. } => {
                assert_eq!(wait.as_nanos(), 0);
                assert_eq!(wait, Duration::from_nanos(0));
            }
            Verdict::Return(_) => panic!("the budget is not spent"),
        }
    }
    assert!(matches!(policy.judge(3, ()), Verdict::Return(())));
}

#[test]
fn no_waits_has_the_length_asked_for() {
    assert_eq!(no_waits(0), Vec::<Duration>::new());
    assert_eq!(no_waits(1), vec![Duration::from_nanos(0)]);
    assert_eq!(no_waits(4), vec![Duration::ZERO; 4]);
}

#[test]
fn pause_hands_the_wait_to_its_function() {
    let slept = RefCell::new(Vec::new());
    let sleeper = Pause {
        sleep: |wait| slept.borrow_mut().push(wait),
    };
    sleeper.sleep(Duration::from_millis(8));
    sleeper.sleep(Duration::from_nanos(1));
    assert_eq!(
        *slept.borrow(),
        vec![Duration::from_millis(8), Duration::from_nanos(1)]
    );
}

#[test]
fn clock_hands_the_wait_to_its_function() {
    let slept = RefCell::new(Vec::new());
    let clock = Clock::with(|wait| slept.borrow_mut().push(wait));
    clock.sleep(Duration::from_secs(1));
    clock.sleep(Duration::from_nanos(2));
    assert_eq!(
        *slept.borrow(),
        vec![Duration::from_secs(1), Duration::from_nanos(2)]
    );
}

#[test]
fn schedule_with_a_pause_of_zero_in_the_middle() {
    let slept = RefCell::new(Vec::new());
    let mut log = Vec::new();
    let mut calls = 0;
    let policy = PolicyBuilder::new().handle_all().wait_and_retry_with_action(
        vec![
            Duration::from_millis(2),
            Duration::from_nanos(0),
            Duration::from_millis(3),
        ],
        |wait| slept.borrow_mut().push(wait),
        |x: i32, c| log.push((x, c)),
    );
    let v = policy.execute(|| {
        calls += 1;
        5
    });
    drop(policy);
    assert_eq!(v, 5);
    assert_eq!(calls, 4);
    assert_eq!(log, vec![(5, 1), (5, 2), (5, 3)]);
    assert_eq!(
        *slept.borrow(),
        vec![Duration::from_millis(2), Duration::from_millis(3)]
    );
}

#[test]
fn builder_without_matchers_makes_no_pause() {
    let slept = RefCell::new(Vec::new());
    let mut calls = 0;
    let policy = PolicyBuilder::new().wait_and_retry(
        vec![Duration::from_millis(2), Duration::from_millis(3)],
        |wait| slept.borrow_mut().push(wait),
    );
    let result = policy.execute(|| {
        calls += 1;
        7
    });
    assert_eq!(result, 7);
    assert_eq!(calls, 1);
    assert!(slept.borrow().is_empty());

    let forever = PolicyBuilder::new()
        .wait_and_retry_forever(Duration::from_millis(2), |wait| slept.borrow_mut().push(wait));
    assert_eq!(forever.after_attempt(7), Some(7));
    assert!(slept.borrow().is_empty());
}
