use wake_runner::backoff::{
    BackoffAction, BackoffWaker, ATTEMPTS_LIMIT, DEFAULT_MAX_ATTEMPTS, INITIAL_DELAY_MS,
};
use wake_runner::locator::{
    LocatorAction, LocatorEvent, LocatorPhase, RemoteWakeLocator, DEFAULT_LOCATE_TIMEOUT_MS,
};
use wake_runner::net::SocketAddress;

#[test]
fn delays_start_at_25_and_double() {
    let mut waker = BackoffWaker::new(DEFAULT_MAX_ATTEMPTS);
    let mut delays = Vec::new();
    loop {
        match waker.exponential_backoff_wakonlan() {
            BackoffAction::WaitThenSend { delay_ms } => delays.push(delay_ms),
            BackoffAction::Stop => break,
        }
    }
    assert_eq!(delays, vec![25, 50, 100, 200, 400, 800, 1600, 3200, 6400, 12800]);
    assert_eq!(waker.exponential_backoff_wakonlan(), BackoffAction::Stop);
    assert_eq!(INITIAL_DELAY_MS, 25);
    assert_eq!(DEFAULT_MAX_ATTEMPTS, 10);
}

#[test]
fn waker_with_no_attempts_stops_at_once() {
    let mut waker = BackoffWaker::new(0);
    assert!(!waker.is_runnable());
    assert_eq!(waker.exponential_backoff_wakonlan(), BackoffAction::Stop);
}

#[test]
fn cancelled_waker_stops() {
    let mut waker = BackoffWaker::new(10);
    assert_eq!(waker.exponential_backoff_wakonlan(), BackoffAction::WaitThenSend { delay_ms: 25 });
    assert!(waker.is_runnable());
    waker.cancel();
    assert!(!waker.is_runnable());
    assert_eq!(waker.exponential_backoff_wakonlan(), BackoffAction::Stop);
    assert_eq!(waker.exponential_backoff_wakonlan(), BackoffAction::Stop);
}

#[test]
fn longest_schedule_does_not_overflow() {
    let mut waker = BackoffWaker::new(ATTEMPTS_LIMIT);
    let mut last = 0;
    let mut attempts = 0;
    while let BackoffAction::WaitThenSend { delay_ms } = waker.exponential_backoff_wakonlan() {
        last = delay_ms;
        attempts += 1;
    }
    assert_eq!(attempts, 60);
    assert_eq!(last, 25u64 << 59);
}

#[test]
fn locator_returns_not_found_at_the_deadline() {
    let mut locator = RemoteWakeLocator::new(1_000, DEFAULT_LOCATE_TIMEOUT_MS, 10);
    assert_eq!(DEFAULT_LOCATE_TIMEOUT_MS, 40_000);
    assert_eq!(
        locator.awake_wake_runner(1_300, LocatorEvent::RoundFinished(None)),
        LocatorAction::StartRound { round_timeout_ms: 300, remaining_ms: 39_700 }
    );
    assert_eq!(
        locator.awake_wake_runner(40_999, LocatorEvent::Tick),
        LocatorAction::Wait { remaining_ms: 1 }
    );
    assert_eq!(locator.phase(), LocatorPhase::Searching);
    assert_eq!(locator.awake_wake_runner(41_000, LocatorEvent::Tick), LocatorAction::Return(None));
    assert_eq!(locator.phase(), LocatorPhase::NotFound);
    assert_eq!(locator.next_wake(), BackoffAction::Stop);
    assert_eq!(
        locator.awake_wake_runner(
            41_001,
            LocatorEvent::RoundFinished(Some(SocketAddress { ip: [1, 2, 3, 4], port: 5 }))
        ),
        LocatorAction::Return(None)
    );
}

#[test]
fn locator_with_rounds_that_never_succeed_ends_not_found() {
    let mut locator = RemoteWakeLocator::new(0, 2_000, 10);
    let mut now = 0;
    let mut rounds = 0;
    let result = loop {
        now += 300;
        match locator.awake_wake_runner(now, LocatorEvent::RoundFinished(None)) {
            LocatorAction::StartRound { .. } => rounds += 1,
            LocatorAction::Wait { .. } => {}
            LocatorAction::Return(result) => break result,
        }
    };
    assert_eq!(result, None);
    assert_eq!(rounds, 6);
    assert_eq!(now, 2_100);
    assert_eq!(locator.next_wake(), BackoffAction::Stop);
}

#[test]
fn locator_returns_the_address_a_round_found() {
    let addr = SocketAddress { ip: [192, 168, 1, 42], port: 5000 };
    let mut locator = RemoteWakeLocator::new(0, 40_000, 10);
    assert_eq!(locator.next_wake(), BackoffAction::WaitThenSend { delay_ms: 25 });
    assert_eq!(
        locator.awake_wake_runner(120, LocatorEvent::RoundFinished(Some(addr))),
        LocatorAction::Return(Some(addr))
    );
    assert_eq!(locator.phase(), LocatorPhase::Found(addr));
    assert_eq!(locator.next_wake(), BackoffAction::Stop);
    assert_eq!(locator.awake_wake_runner(50_000, LocatorEvent::Tick), LocatorAction::Return(Some(addr)));
}

#[test]
fn locator_reports_time_left() {
    let locator = RemoteWakeLocator::new(500, 1_000, 3);
    assert_eq!(locator.remaining(400), 1_000);
    assert_eq!(locator.remaining(500), 1_000);
    assert_eq!(locator.remaining(1_499), 1);
    assert_eq!(locator.remaining(1_500), 0);
    assert_eq!(locator.remaining(u64::MAX), 0);
}
