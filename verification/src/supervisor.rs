//! The runner's idle watchdog: once nobody is logged in and no wake is
//! running, and that has held for a full window, the host is shut down.

use vstd::prelude::*;

verus! {

/// How long both counts must stay at zero, untouched, before the host is shut
/// down, in milliseconds.
pub const DEBOUNCE_WINDOW_MS: u64 = 60_000;

/// Where the watchdog stands.
#[derive(Clone, Copy, Debug, PartialEq, Eq)]
pub enum Phase {
    /// Some count is not zero.
    Waiting,
    /// Both counts are zero and have not been touched since `since_ms`.
    Debouncing { since_ms: u64 },
    /// The shutdown was fired. Nothing follows.
    Terminated,
}

/// What the watchdog is told.
#[derive(Clone, Copy, Debug, PartialEq, Eq)]
pub enum SupervisorEvent {
    /// The count of user sessions was published, with this value.
    UserSessions(usize),
    /// The count of running wakes was published, with this value.
    WakeProcesses(usize),
    /// Time has passed and nothing else happened.
    Tick,
}

/// What the watchdog asks for in return.
#[derive(Clone, Copy, Debug, PartialEq, Eq)]
pub enum SupervisorAction {
    /// Wait for either count to be published again.
    AwaitChange,
    /// Wait for either count to be published again, but no longer than this
    /// many milliseconds.
    AwaitChangeFor { remaining_ms: u64 },
    /// Fire the shutdown signal.
    Shutdown,
    /// The watchdog has fired before: there is nothing left to do.
    Finished,
}

/// The watchdog's state: the two counts as last published, and the phase.
#[derive(Clone, Copy, Debug, PartialEq, Eq)]
pub struct SupervisorState {
    pub active_user_sessions: usize,
    pub active_wake_processes: usize,
    pub phase: Phase,
}

/// Both counts are zero.
pub open spec fn quiescent(users: usize, wakes: usize) -> bool {
    users == 0 && wakes == 0
}

/// The phase that counts published at `now_ms` lead to: a fresh window when
/// both are zero, waiting otherwise.
pub open spec fn phase_for(users: usize, wakes: usize, now_ms: u64) -> Phase {
    if quiescent(users, wakes) {
        Phase::Debouncing { since_ms: now_ms }
    } else {
        Phase::Waiting
    }
}

/// The time from `since_ms` to `now_ms`; none where the clock went back.
pub open spec fn elapsed_ms(since_ms: u64, now_ms: u64) -> int {
    if now_ms >= since_ms {
        now_ms - since_ms
    } else {
        0
    }
}

/// The request that goes with a phase at `now_ms`.
pub open spec fn action_for(phase: Phase, now_ms: u64) -> SupervisorAction {
    match phase {
        Phase::Waiting => SupervisorAction::AwaitChange,
        Phase::Debouncing { since_ms } => SupervisorAction::AwaitChangeFor {
            remaining_ms: if elapsed_ms(since_ms, now_ms) >= 60_000 {
                0
            } else {
                (60_000 - elapsed_ms(since_ms, now_ms)) as u64
            },
        },
        Phase::Terminated => SupervisorAction::Finished,
    }
}

/// The state a watchdog starts in, given the counts at `now_ms`.
pub open spec fn initial_state(users: usize, wakes: usize, now_ms: u64) -> SupervisorState {
    SupervisorState {
        active_user_sessions: users,
        active_wake_processes: wakes,
        phase: phase_for(users, wakes, now_ms),
    }
}

/// The state after `event` at `now_ms`.
///
/// A watchdog that has fired stays as it is. One whose window has run its full
/// length fires, whatever the event. Otherwise a published count is taken
/// down, and ends the window if there was one: a new one starts at `now_ms`
/// if both counts are zero. A tick changes nothing.
pub open spec fn next_state(state: SupervisorState, now_ms: u64, event: SupervisorEvent) -> SupervisorState {
    match state.phase {
        Phase::Terminated => state,
        Phase::Debouncing { since_ms } if elapsed_ms(since_ms, now_ms) >= 60_000 => SupervisorState {
            phase: Phase::Terminated,
            ..state
        },
        _ => match event {
            SupervisorEvent::UserSessions(n) => SupervisorState {
                active_user_sessions: n,
                active_wake_processes: state.active_wake_processes,
                phase: phase_for(n, state.active_wake_processes, now_ms),
            },
            SupervisorEvent::WakeProcesses(n) => SupervisorState {
                active_user_sessions: state.active_user_sessions,
                active_wake_processes: n,
                phase: phase_for(state.active_user_sessions, n, now_ms),
            },
            SupervisorEvent::Tick => state,
        },
    }
}

/// What the watchdog asks for on `event` at `now_ms`: the shutdown exactly when
/// this event takes it from an open window to its end.
pub open spec fn next_action(state: SupervisorState, now_ms: u64, event: SupervisorEvent) -> SupervisorAction {
    let next = next_state(state, now_ms, event);
    if next.phase is Terminated && !(state.phase is Terminated) {
        SupervisorAction::Shutdown
    } else {
        action_for(next.phase, now_ms)
    }
}

/// A state whose phase agrees with its counts.
pub open spec fn consistent(state: SupervisorState) -> bool {
    match state.phase {
        Phase::Waiting => !quiescent(state.active_user_sessions, state.active_wake_processes),
        Phase::Debouncing { .. } => quiescent(
            state.active_user_sessions,
            state.active_wake_processes,
        ),
        Phase::Terminated => true,
    }
}

/// The idle watchdog.
pub struct IdleShutdownSupervisor {
    state: SupervisorState,
}

impl IdleShutdownSupervisor {
    pub closed spec fn view(&self) -> SupervisorState {
        self.state
    }

    /// A watchdog over counts that stand at `users` and `wakes` at `now_ms`.
    pub fn new(users: usize, wakes: usize, now_ms: u64) -> (supervisor: Self)
        ensures
            supervisor@ == initial_state(users, wakes, now_ms),
    {
        let phase = if users == 0 && wakes == 0 {
            Phase::Debouncing { since_ms: now_ms }
        } else {
            Phase::Waiting
        };
        IdleShutdownSupervisor {
            state: SupervisorState {
                active_user_sessions: users,
                active_wake_processes: wakes,
                phase,
            },
        }
    }

    /// The watchdog's state.
    pub fn state(&self) -> (state: SupervisorState)
        ensures
            state == self@,
    {
        self.state
    }

    /// What the watchdog waits for as it stands at `now_ms`.
    pub fn pending(&self, now_ms: u64) -> (action: SupervisorAction)
        ensures
            action == action_for(self@.phase, now_ms),
    {
        match self.state.phase {
            Phase::Waiting => SupervisorAction::AwaitChange,
            Phase::Debouncing { since_ms } => {
                let elapsed: u64 = if now_ms >= since_ms {
                    now_ms - since_ms
                } else {
                    0
                };
                let remaining_ms: u64 = if elapsed >= DEBOUNCE_WINDOW_MS {
                    0
                } else {
                    DEBOUNCE_WINDOW_MS - elapsed
                };
                SupervisorAction::AwaitChangeFor { remaining_ms }
            },
            Phase::Terminated => SupervisorAction::Finished,
        }
    }

    /// Takes one event at `now_ms` and says what to do next.
    pub fn shutdown_condition(&mut self, now_ms: u64, event: SupervisorEvent) -> (action:
        SupervisorAction)
        ensures
            final(self)@ == next_state(old(self)@, now_ms, event),
            action == next_action(old(self)@, now_ms, event),
    {
        match self.state.phase {
            Phase::Terminated => {
                return SupervisorAction::Finished;
            },
            Phase::Debouncing { since_ms } => {
                if now_ms >= since_ms && now_ms - since_ms >= DEBOUNCE_WINDOW_MS {
                    self.state.phase = Phase::Terminated;
                    return SupervisorAction::Shutdown;
                }
            },
            Phase::Waiting => {},
        }
        match event {
            SupervisorEvent::UserSessions(n) => {
                self.state.active_user_sessions = n;
                self.refresh(now_ms);
            },
            SupervisorEvent::WakeProcesses(n) => {
                self.state.active_wake_processes = n;
                self.refresh(now_ms);
            },
            SupervisorEvent::Tick => {},
        }
        self.pending(now_ms)
    }

    fn refresh(&mut self, now_ms: u64)
        requires
            !(old(self)@.phase is Terminated),
        ensures
            final(self)@ == (SupervisorState {
                phase: phase_for(
                    old(self)@.active_user_sessions,
                    old(self)@.active_wake_processes,
                    now_ms,
                ),
                ..old(self)@
            }),
    {
        if self.state.active_user_sessions == 0 && self.state.active_wake_processes == 0 {
            self.state.phase = Phase::Debouncing { since_ms: now_ms };
        } else {
            self.state.phase = Phase::Waiting;
        }
    }
}

/// An event with the time it happened at, in milliseconds.
pub struct Timed {
    pub at_ms: u64,
    pub event: SupervisorEvent,
}

/// The state after all of `trace`, taken in order from `state`.
pub open spec fn run(state: SupervisorState, trace: Seq<Timed>) -> SupervisorState
    decreases trace.len(),
{
    if trace.len() == 0 {
        state
    } else {
        run(next_state(state, trace[0].at_ms, trace[0].event), trace.skip(1))
    }
}

/// How often the shutdown is fired over `trace`, taken in order from `state`.
pub open spec fn shutdowns(state: SupervisorState, trace: Seq<Timed>) -> nat
    decreases trace.len(),
{
    if trace.len() == 0 {
        0
    } else {
        let fired: nat = if next_action(state, trace[0].at_ms, trace[0].event) is Shutdown {
            1
        } else {
            0
        };
        fired + shutdowns(next_state(state, trace[0].at_ms, trace[0].event), trace.skip(1))
    }
}

/// The phase always agrees with the counts.
pub proof fn lemma_step_keeps_consistent(state: SupervisorState, now_ms: u64, event: SupervisorEvent)
    requires
        consistent(state),
    ensures
        consistent(next_state(state, now_ms, event)),
{
}

/// A count published while no full window is open, and that leaves both
/// counts at zero, opens a window at that moment.
pub proof fn lemma_quiescence_opens_window(state: SupervisorState, now_ms: u64, event: SupervisorEvent)
    requires
        !(state.phase is Terminated),
        state.phase matches Phase::Debouncing { since_ms } ==> elapsed_ms(since_ms, now_ms)
            < 60_000,
        match event {
            SupervisorEvent::UserSessions(n) => quiescent(n, state.active_wake_processes),
            SupervisorEvent::WakeProcesses(n) => quiescent(state.active_user_sessions, n),
            SupervisorEvent::Tick => false,
        },
    ensures
        next_state(state, now_ms, event).phase == (Phase::Debouncing { since_ms: now_ms }),
        next_action(state, now_ms, event) == (SupervisorAction::AwaitChangeFor {
            remaining_ms: 60_000,
        }),
{
}

/// A window that has stayed open for its full length ends in the shutdown,
/// whatever is seen next.
pub proof fn lemma_full_window_fires(state: SupervisorState, now_ms: u64, event: SupervisorEvent)
    requires
        state.phase matches Phase::Debouncing { since_ms } && now_ms >= since_ms && now_ms
            - since_ms >= 60_000,
    ensures
        next_action(state, now_ms, event) is Shutdown,
        next_state(state, now_ms, event).phase is Terminated,
{
}

/// A count published before the window has run its length ends that window
/// without a shutdown: either some count is not zero, or a new window starts
/// at that moment, with its full length ahead.
pub proof fn lemma_change_restarts_window(state: SupervisorState, now_ms: u64, event: SupervisorEvent)
    requires
        state.phase matches Phase::Debouncing { since_ms } && elapsed_ms(since_ms, now_ms)
            < 60_000,
        !(event is Tick),
    ensures
        !(next_action(state, now_ms, event) is Shutdown),
        next_state(state, now_ms, event).phase is Waiting || next_state(
            state,
            now_ms,
            event,
        ).phase == (Phase::Debouncing { since_ms: now_ms }),
        next_state(state, now_ms, event).phase is Debouncing ==> next_action(state, now_ms, event)
            == (SupervisorAction::AwaitChangeFor { remaining_ms: 60_000 }),
{
}

/// Nothing but a full window fires the shutdown: while some count is not
/// zero, or the window is younger than its length, no event does.
pub proof fn lemma_no_early_shutdown(state: SupervisorState, now_ms: u64, event: SupervisorEvent)
    requires
        next_action(state, now_ms, event) is Shutdown,
    ensures
        state.phase matches Phase::Debouncing { since_ms } && now_ms - since_ms >= 60_000,
{
}

/// The shutdown is fired at most once, and never again by a watchdog that has
/// fired.
pub proof fn lemma_shutdown_at_most_once(state: SupervisorState, trace: Seq<Timed>)
    ensures
        shutdowns(state, trace) <= 1,
        state.phase is Terminated ==> shutdowns(state, trace) == 0,
        shutdowns(state, trace) == 1 ==> run(state, trace).phase is Terminated,
    decreases trace.len(),
{
    if trace.len() > 0 {
        let next = next_state(state, trace[0].at_ms, trace[0].event);
        lemma_shutdown_at_most_once(next, trace.skip(1));
        if next.phase is Terminated {
            lemma_terminated_stays(next, trace.skip(1));
        }
    }
}

/// An open window over which nothing but time passes fires exactly once, as
/// soon as a tick finds it at its full length.
pub proof fn lemma_quiet_window_fires_once(state: SupervisorState, trace: Seq<Timed>, k: int)
    requires
        state.phase matches Phase::Debouncing { since_ms } && 0 <= k < trace.len() && trace[k].at_ms
            >= since_ms && trace[k].at_ms - since_ms >= 60_000,
        forall|j: int| 0 <= j <= k ==> (#[trigger] trace[j]).event is Tick,
    ensures
        shutdowns(state, trace) == 1,
        run(state, trace).phase is Terminated,
    decreases k,
{
    let next = next_state(state, trace[0].at_ms, trace[0].event);
    let rest = trace.skip(1);
    assert(trace[0].event is Tick);
    if next.phase is Terminated {
        lemma_shutdown_at_most_once(next, rest);
        lemma_terminated_stays(next, rest);
    } else {
        assert(next == state);
        assert(k > 0);
        assert(forall|j: int| 0 <= j <= k - 1 ==> rest[j] == trace[j + 1]);
        lemma_quiet_window_fires_once(state, rest, k - 1);
    }
}

/// A host that falls idle and stays so is shut down exactly once: when a
/// published count leaves both counts at zero at `first.at_ms`, and from then
/// on nothing but time passes until a tick comes a full window later, the
/// shutdown is fired once over the whole trace.
pub proof fn lemma_idle_host_shuts_down_once(
    state: SupervisorState,
    first: Timed,
    ticks: Seq<Timed>,
    k: int,
)
    requires
        !(state.phase is Terminated),
        state.phase matches Phase::Debouncing { since_ms } ==> elapsed_ms(since_ms, first.at_ms)
            < 60_000,
        match first.event {
            SupervisorEvent::UserSessions(n) => quiescent(n, state.active_wake_processes),
            SupervisorEvent::WakeProcesses(n) => quiescent(state.active_user_sessions, n),
            SupervisorEvent::Tick => false,
        },
        0 <= k < ticks.len(),
        ticks[k].at_ms >= first.at_ms,
        ticks[k].at_ms - first.at_ms >= 60_000,
        forall|j: int| 0 <= j <= k ==> (#[trigger] ticks[j]).event is Tick,
    ensures
        shutdowns(state, seq![first] + ticks) == 1,
        run(state, seq![first] + ticks).phase is Terminated,
{
    let trace = seq![first] + ticks;
    assert(trace[0] == first);
    assert(trace.skip(1) =~= ticks);
    lemma_quiescence_opens_window(state, first.at_ms, first.event);
    lemma_quiet_window_fires_once(next_state(state, first.at_ms, first.event), ticks, k);
}

/// A watchdog that has fired stays as it is.
pub proof fn lemma_terminated_stays(state: SupervisorState, trace: Seq<Timed>)
    requires
        state.phase is Terminated,
    ensures
        run(state, trace) == state,
    decreases trace.len(),
{
    if trace.len() > 0 {
        lemma_terminated_stays(state, trace.skip(1));
    }
}

} // verus!
