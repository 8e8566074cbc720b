use wake_runner::supervisor::{
    IdleShutdownSupervisor, Phase, SupervisorAction, SupervisorEvent, DEBOUNCE_WINDOW_MS,
};

#[test]
fn quiet_for_a_full_window_fires_exactly_once() {
    let mut watchdog = IdleShutdownSupervisor::new(2, 1, 0);
    assert_eq!(watchdog.state().phase, Phase::Waiting);
    assert_eq!(
        watchdog.shutdown_condition(1_000, SupervisorEvent::UserSessions(0)),
        SupervisorAction::AwaitChange
    );
    assert_eq!(
        watchdog.shutdown_condition(2_000, SupervisorEvent::WakeProcesses(0)),
        SupervisorAction::AwaitChangeFor { remaining_ms: 60_000 }
    );
    assert_eq!(watchdog.state().phase, Phase::Debouncing { since_ms: 2_000 });
    assert_eq!(
        watchdog.shutdown_condition(61_999, SupervisorEvent::Tick),
        SupervisorAction::AwaitChangeFor { remaining_ms: 1 }
    );
    assert_eq!(watchdog.shutdown_condition(62_000, SupervisorEvent::Tick), SupervisorAction::Shutdown);
    assert_eq!(watchdog.state().phase, Phase::Terminated);
    assert_eq!(watchdog.shutdown_condition(62_001, SupervisorEvent::Tick), SupervisorAction::Finished);
    assert_eq!(
        watchdog.shutdown_condition(200_000, SupervisorEvent::UserSessions(0)),
        SupervisorAction::Finished
    );
    assert_eq!(watchdog.state().phase, Phase::Terminated);
}

#[test]
fn change_at_59_seconds_restarts_the_window() {
    let mut watchdog = IdleShutdownSupervisor::new(1, 0, 0);
    watchdog.shutdown_condition(0, SupervisorEvent::UserSessions(0));
    assert_eq!(watchdog.state().phase, Phase::Debouncing { since_ms: 0 });
    assert_eq!(
        watchdog.shutdown_condition(59_000, SupervisorEvent::WakeProcesses(0)),
        SupervisorAction::AwaitChangeFor { remaining_ms: 60_000 }
    );
    assert_eq!(watchdog.state().phase, Phase::Debouncing { since_ms: 59_000 });
    assert_eq!(
        watchdog.shutdown_condition(60_000, SupervisorEvent::Tick),
        SupervisorAction::AwaitChangeFor { remaining_ms: 59_000 }
    );
    assert_eq!(
        watchdog.shutdown_condition(118_999, SupervisorEvent::Tick),
        SupervisorAction::AwaitChangeFor { remaining_ms: 1 }
    );
    assert_eq!(watchdog.shutdown_condition(119_000, SupervisorEvent::Tick), SupervisorAction::Shutdown);
}

#[test]
fn activity_at_59_seconds_goes_back_to_waiting() {
    let mut watchdog = IdleShutdownSupervisor::new(0, 0, 0);
    assert_eq!(watchdog.pending(0), SupervisorAction::AwaitChangeFor { remaining_ms: 60_000 });
    assert_eq!(
        watchdog.shutdown_condition(59_000, SupervisorEvent::WakeProcesses(1)),
        SupervisorAction::AwaitChange
    );
    assert_eq!(watchdog.state().phase, Phase::Waiting);
    assert_eq!(watchdog.state().active_wake_processes, 1);
    assert_eq!(watchdog.shutdown_condition(500_000, SupervisorEvent::Tick), SupervisorAction::AwaitChange);
    assert_eq!(watchdog.state().phase, Phase::Waiting);
}

#[test]
fn one_count_at_zero_is_not_quiescence() {
    let mut watchdog = IdleShutdownSupervisor::new(3, 0, 0);
    assert_eq!(watchdog.shutdown_condition(10, SupervisorEvent::UserSessions(1)), SupervisorAction::AwaitChange);
    assert_eq!(watchdog.shutdown_condition(20, SupervisorEvent::WakeProcesses(2)), SupervisorAction::AwaitChange);
    assert_eq!(watchdog.shutdown_condition(30, SupervisorEvent::UserSessions(0)), SupervisorAction::AwaitChange);
    assert_eq!(watchdog.state().active_user_sessions, 0);
    assert_eq!(watchdog.state().active_wake_processes, 2);
    assert_eq!(watchdog.state().phase, Phase::Waiting);
}

#[test]
fn clock_going_back_does_not_fire() {
    let mut watchdog = IdleShutdownSupervisor::new(0, 0, 100_000);
    assert_eq!(
        watchdog.shutdown_condition(10, SupervisorEvent::Tick),
        SupervisorAction::AwaitChangeFor { remaining_ms: 60_000 }
    );
    assert_eq!(DEBOUNCE_WINDOW_MS, 60_000);
}
