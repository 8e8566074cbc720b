//! Finding the runner of a machine that is being woken: discovery rounds one
//! after the other, against an overall deadline, while the waker keeps
//! sending the magic packet.

use vstd::prelude::*;
use crate::backoff::{
    backoff_action, backoff_next, runnable, BackoffAction, BackoffState, BackoffWaker,
    ATTEMPTS_LIMIT,
};
use crate::discovery::ROUND_TIMEOUT_MS;
use crate::net::SocketAddress;

verus! {

/// How long a search lasts unless told otherwise, in milliseconds.
pub const DEFAULT_LOCATE_TIMEOUT_MS: u64 = 40_000;

/// Where a search stands.
#[derive(Clone, Copy, Debug, PartialEq, Eq)]
pub enum LocatorPhase {
    /// No round has found the runner yet, and time is left.
    Searching,
    /// A round found the runner's control plane at this address.
    Found(SocketAddress),
    /// The deadline passed first.
    NotFound,
}

/// What a search is told.
#[derive(Clone, Copy, Debug, PartialEq, Eq)]
pub enum LocatorEvent {
    /// A discovery round ended, with this outcome.
    RoundFinished(Option<SocketAddress>),
    /// Time has passed and nothing else happened.
    Tick,
}

/// What a search asks for in return.
#[derive(Clone, Copy, Debug, PartialEq, Eq)]
pub enum LocatorAction {
    /// Start a discovery round of `round_timeout_ms`; the search itself has
    /// `remaining_ms` left.
    StartRound { round_timeout_ms: u64, remaining_ms: u64 },
    /// Keep waiting for the round that is under way; the search has
    /// `remaining_ms` left.
    Wait { remaining_ms: u64 },
    /// The search is over, with this result. The waker is cancelled.
    Return(Option<SocketAddress>),
}

/// A search's state.
pub struct LocatorState {
    pub phase: LocatorPhase,
    pub started_ms: u64,
    pub timeout_ms: u64,
    pub waker: BackoffState,
}

/// The time a search that started at `started_ms` has left at `now_ms`; the
/// whole of it where the clock went back.
pub open spec fn remaining_ms(started_ms: u64, timeout_ms: u64, now_ms: u64) -> u64 {
    if now_ms < started_ms {
        timeout_ms
    } else if now_ms - started_ms >= timeout_ms {
        0
    } else {
        (timeout_ms - (now_ms - started_ms)) as u64
    }
}

/// The state after `event` at `now_ms`.
///
/// A search that is over stays as it is. One whose time has run out finds
/// nothing, whatever the event. Otherwise a round that found the runner ends
/// the search with its address, and every other event leaves it searching.
/// Ending the search cancels the waker.
pub open spec fn locator_next(state: LocatorState, now_ms: u64, event: LocatorEvent) -> LocatorState {
    if !(state.phase is Searching) {
        state
    } else if remaining_ms(state.started_ms, state.timeout_ms, now_ms) == 0 {
        LocatorState {
            phase: LocatorPhase::NotFound,
            waker: BackoffState { cancelled: true, ..state.waker },
            ..state
        }
    } else {
        match event {
            LocatorEvent::RoundFinished(Some(addr)) => LocatorState {
                phase: LocatorPhase::Found(addr),
                waker: BackoffState { cancelled: true, ..state.waker },
                ..state
            },
            _ => state,
        }
    }
}

/// What a search asks for on `event` at `now_ms`.
pub open spec fn locator_action(state: LocatorState, now_ms: u64, event: LocatorEvent) -> LocatorAction {
    let next = locator_next(state, now_ms, event);
    match next.phase {
        LocatorPhase::Found(addr) => LocatorAction::Return(Some(addr)),
        LocatorPhase::NotFound => LocatorAction::Return(None),
        LocatorPhase::Searching => match event {
            LocatorEvent::RoundFinished(_) => LocatorAction::StartRound {
                round_timeout_ms: 300,
                remaining_ms: remaining_ms(state.started_ms, state.timeout_ms, now_ms),
            },
            LocatorEvent::Tick => LocatorAction::Wait {
                remaining_ms: remaining_ms(state.started_ms, state.timeout_ms, now_ms),
            },
        },
    }
}

/// The search for one runner, with the waker that runs beside it.
pub struct RemoteWakeLocator {
    phase: LocatorPhase,
    started_ms: u64,
    timeout_ms: u64,
    waker: BackoffWaker,
}

impl RemoteWakeLocator {
    pub closed spec fn view(&self) -> LocatorState {
        LocatorState {
            phase: self.phase,
            started_ms: self.started_ms,
            timeout_ms: self.timeout_ms,
            waker: self.waker@,
        }
    }

    /// The waker is well formed, and cancelled once the search is over.
    pub closed spec fn wf(&self) -> bool {
        &&& self.waker.wf()
        &&& !(self.phase is Searching) ==> self.waker@.cancelled
    }

    /// A search that starts at `now_ms` and gives up `timeout_ms` later, with
    /// a waker of up to `max_attempts` attempts. The first round is to be
    /// started at once.
    pub fn new(now_ms: u64, timeout_ms: u64, max_attempts: usize) -> (locator: Self)
        requires
            max_attempts <= ATTEMPTS_LIMIT,
        ensures
            locator.wf(),
            locator@ == (LocatorState {
                phase: LocatorPhase::Searching,
                started_ms: now_ms,
                timeout_ms,
                waker: BackoffState {
                    attempts: 0,
                    max_attempts: max_attempts as nat,
                    cancelled: false,
                },
            }),
    {
        RemoteWakeLocator {
            phase: LocatorPhase::Searching,
            started_ms: now_ms,
            timeout_ms,
            waker: BackoffWaker::new(max_attempts),
        }
    }

    /// Where the search stands.
    pub fn phase(&self) -> (phase: LocatorPhase)
        ensures
            phase == self@.phase,
    {
        self.phase
    }

    /// The time the search has left at `now_ms`, in milliseconds.
    pub fn remaining(&self, now_ms: u64) -> (left: u64)
        ensures
            left == remaining_ms(self@.started_ms, self@.timeout_ms, now_ms),
    {
        if now_ms < self.started_ms {
            self.timeout_ms
        } else if now_ms - self.started_ms >= self.timeout_ms {
            0
        } else {
            self.timeout_ms - (now_ms - self.started_ms)
        }
    }

    /// One step of the waker that runs beside the search: `Stop` once the
    /// search is over.
    pub fn next_wake(&mut self) -> (action: BackoffAction)
        requires
            old(self).wf(),
        ensures
            final(self).wf(),
            final(self)@ == (LocatorState { waker: backoff_next(old(self)@.waker), ..old(self)@ }),
            action == backoff_action(old(self)@.waker),
            !(old(self)@.phase is Searching) ==> action is Stop,
    {
        self.waker.exponential_backoff_wakonlan()
    }

    /// Takes one event at `now_ms` and says what to do next.
    pub fn awake_wake_runner(&mut self, now_ms: u64, event: LocatorEvent) -> (action: LocatorAction)
        requires
            old(self).wf(),
        ensures
            final(self).wf(),
            final(self)@ == locator_next(old(self)@, now_ms, event),
            action == locator_action(old(self)@, now_ms, event),
    {
        match self.phase {
            LocatorPhase::Found(addr) => {
                return LocatorAction::Return(Some(addr));
            },
            LocatorPhase::NotFound => {
                return LocatorAction::Return(None);
            },
            LocatorPhase::Searching => {},
        }
        let left = self.remaining(now_ms);
        if left == 0 {
            self.phase = LocatorPhase::NotFound;
            self.waker.cancel();
            return LocatorAction::Return(None);
        }
        match event {
            LocatorEvent::RoundFinished(Some(addr)) => {
                self.phase = LocatorPhase::Found(addr);
                self.waker.cancel();
                LocatorAction::Return(Some(addr))
            },
            LocatorEvent::RoundFinished(None) => LocatorAction::StartRound {
                round_timeout_ms: ROUND_TIMEOUT_MS,
                remaining_ms: left,
            },
            LocatorEvent::Tick => LocatorAction::Wait { remaining_ms: left },
        }
    }
}

/// An event with the time it happened at, in milliseconds.
pub struct TimedLocatorEvent {
    pub at_ms: u64,
    pub event: LocatorEvent,
}

/// The state after all of `trace`, taken in order from `state`.
pub open spec fn locator_run(state: LocatorState, trace: Seq<TimedLocatorEvent>) -> LocatorState
    decreases trace.len(),
{
    if trace.len() == 0 {
        state
    } else {
        locator_run(locator_next(state, trace[0].at_ms, trace[0].event), trace.skip(1))
    }
}

/// A search that is over stays over, with the same result, and its waker
/// stays cancelled.
pub proof fn lemma_finished_stays(state: LocatorState, trace: Seq<TimedLocatorEvent>)
    requires
        !(state.phase is Searching),
    ensures
        locator_run(state, trace) == state,
    decreases trace.len(),
{
    if trace.len() > 0 {
        lemma_finished_stays(state, trace.skip(1));
    }
}

/// Whenever a search is over, its waker is cancelled and has nothing left to
/// do.
pub proof fn lemma_over_means_cancelled(state: LocatorState, now_ms: u64, event: LocatorEvent)
    requires
        state.phase is Searching || state.waker.cancelled,
    ensures
        !(locator_next(state, now_ms, event).phase is Searching) ==> !runnable(
            locator_next(state, now_ms, event).waker,
        ) && backoff_action(locator_next(state, now_ms, event).waker) is Stop,
{
}

/// A search whose rounds never find the runner is over, with nothing found
/// and its waker cancelled, at the first event that comes at or after the
/// deadline, and stays so.
pub proof fn lemma_deadline_ends_search(state: LocatorState, trace: Seq<TimedLocatorEvent>, k: int)
    requires
        state.phase is Searching,
        0 <= k < trace.len(),
        trace[k].at_ms >= state.started_ms,
        trace[k].at_ms - state.started_ms >= state.timeout_ms,
        forall|j: int| 0 <= j < k ==> !((#[trigger] trace[j]).event matches LocatorEvent::RoundFinished(Some(_))),
    ensures
        locator_run(state, trace).phase is NotFound,
        locator_run(state, trace).waker.cancelled,
        !runnable(locator_run(state, trace).waker),
    decreases k,
{
    let next = locator_next(state, trace[0].at_ms, trace[0].event);
    let rest = trace.skip(1);
    if next.phase is Searching {
        assert(k > 0);
        assert(next == state);
        assert(forall|j: int| 0 <= j < k - 1 ==> rest[j] == trace[j + 1]);
        lemma_deadline_ends_search(next, rest, k - 1);
    } else {
        assert(next.phase is NotFound) by {
            if k > 0 {
                assert(!(trace[0].event matches LocatorEvent::RoundFinished(Some(_))));
            }
        }
        lemma_finished_stays(next, rest);
    }
}

/// A round that finds the runner while time is left ends the search with the
/// address it found.
pub proof fn lemma_found_round_ends_search(state: LocatorState, now_ms: u64, addr: SocketAddress)
    requires
        state.phase is Searching,
        remaining_ms(state.started_ms, state.timeout_ms, now_ms) > 0,
    ensures
        locator_next(state, now_ms, LocatorEvent::RoundFinished(Some(addr))).phase
            == LocatorPhase::Found(addr),
        locator_action(state, now_ms, LocatorEvent::RoundFinished(Some(addr)))
            == LocatorAction::Return(Some(addr)),
        locator_next(state, now_ms, LocatorEvent::RoundFinished(Some(addr))).waker.cancelled,
{
}

} // verus!
