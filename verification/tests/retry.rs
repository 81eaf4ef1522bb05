use apod_wallpaper::retry::{replay, Retry, RetryBudget, RetryRun, RetryStep};

#[test]
fn budget_needs_an_attempt() {
    assert!(RetryBudget::new(0, 1).is_none());
    assert!(RetryBudget::new(0, 0).is_none());
    let one = RetryBudget::new(1, 0).unwrap();
    assert_eq!(one.max_attempts(), 1);
    assert_eq!(one.delay_secs(), 0);
    let many = RetryBudget::new(u32::MAX, u64::MAX).unwrap();
    assert_eq!(many.max_attempts(), u32::MAX);
    assert_eq!(many.delay_secs(), u64::MAX);
}

#[test]
fn standard_budget_is_three_attempts_and_one_second() {
    let budget = RetryBudget::standard();
    assert_eq!(budget.max_attempts(), 3);
    assert_eq!(budget.delay_secs(), 1);
    assert_eq!(Some(budget), RetryBudget::new(3, 1));
}

#[test]
fn a_success_ends_the_retry_at_once() {
    let retry = Retry::start(RetryBudget::standard());
    assert_eq!(retry.remaining(), 3);
    assert_eq!(retry.record(true), RetryStep::Succeed);
}

#[test]
fn a_failure_is_followed_by_a_wait_and_another_attempt() {
    let retry = Retry::start(RetryBudget::new(3, 7).unwrap());
    match retry.record(false) {
        RetryStep::WaitAndRetry { secs, next } => {
            assert_eq!(secs, 7);
            assert_eq!(next.remaining(), 2);
        }
        other => panic!("unexpected step {:?}", other),
    }
}

#[test]
fn the_last_failure_is_followed_by_a_wait_too() {
    let retry = Retry::start(RetryBudget::new(1, 5).unwrap());
    assert_eq!(retry.record(false), RetryStep::WaitAndFail { secs: 5 });
}

#[test]
fn fails_twice_then_succeeds_with_two_sleeps() {
    let budget = RetryBudget::new(3, 1).unwrap();
    let mut retry = Retry::start(budget);
    let mut sleeps = 0;
    let mut attempts = 0;
    let mut succeeded = false;
    let mut script = vec![false, false, true].into_iter();
    loop {
        let outcome = script.next().unwrap();
        attempts += 1;
        match retry.record(outcome) {
            RetryStep::Succeed => {
                succeeded = true;
                break;
            }
            RetryStep::WaitAndRetry { secs, next } => {
                assert_eq!(secs, 1);
                sleeps += 1;
                retry = next;
            }
            RetryStep::WaitAndFail { secs } => {
                assert_eq!(secs, 1);
                sleeps += 1;
                break;
            }
        }
    }
    assert!(succeeded);
    assert_eq!(attempts, 3);
    assert_eq!(sleeps, 2);
    assert!(script.next().is_none());
}

#[test]
fn replay_fails_twice_then_succeeds() {
    let run = replay(RetryBudget::standard(), &vec![false, false, true]);
    assert_eq!(run, Some(RetryRun { succeeded: true, attempts: 3, waits: 2 }));
}

#[test]
fn replay_stops_at_the_first_success() {
    let budget = RetryBudget::standard();
    assert_eq!(
        replay(budget, &vec![true]),
        Some(RetryRun { succeeded: true, attempts: 1, waits: 0 })
    );
    assert_eq!(
        replay(budget, &vec![true, false, false]),
        Some(RetryRun { succeeded: true, attempts: 1, waits: 0 })
    );
    assert_eq!(
        replay(budget, &vec![false, true, true]),
        Some(RetryRun { succeeded: true, attempts: 2, waits: 1 })
    );
}

#[test]
fn replay_gives_up_when_the_budget_is_spent() {
    let budget = RetryBudget::standard();
    assert_eq!(
        replay(budget, &vec![false, false, false]),
        Some(RetryRun { succeeded: false, attempts: 3, waits: 3 })
    );
    assert_eq!(
        replay(budget, &vec![false, false, false, true]),
        Some(RetryRun { succeeded: false, attempts: 3, waits: 3 })
    );
    assert_eq!(
        replay(RetryBudget::new(1, 9).unwrap(), &vec![false, true]),
        Some(RetryRun { succeeded: false, attempts: 1, waits: 1 })
    );
}

#[test]
fn replay_has_no_result_when_the_outcomes_run_out() {
    let budget = RetryBudget::standard();
    assert_eq!(replay(budget, &vec![]), None);
    assert_eq!(replay(budget, &vec![false]), None);
    assert_eq!(replay(budget, &vec![false, false]), None);
}

#[test]
fn replay_with_a_large_budget() {
    let budget = RetryBudget::new(u32::MAX, 0).unwrap();
    let mut outcomes = vec![false; 1000];
    outcomes.push(true);
    assert_eq!(
        replay(budget, &outcomes),
        Some(RetryRun { succeeded: true, attempts: 1001, waits: 1000 })
    );
}
