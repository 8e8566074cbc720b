//! Sending the magic packet again and again, each time after twice the wait.

use vstd::prelude::*;
use vstd::arithmetic::power2::{lemma2_to64_rest, lemma_pow2_strictly_increases, lemma_pow2_unfold, pow2};

verus! {

/// The wait before the first attempt, in milliseconds.
pub const INITIAL_DELAY_MS: u64 = 25;

/// How many attempts a waker makes unless told otherwise.
pub const DEFAULT_MAX_ATTEMPTS: usize = 10;

/// The most attempts a waker can be asked for: the wait before the last of
/// them is the longest that 64 bits of milliseconds hold.
pub const ATTEMPTS_LIMIT: usize = 60;

/// The wait before attempt number `attempt`, counted from zero, in
/// milliseconds: 25 at first, and twice as long each time.
pub open spec fn backoff_delay_ms(attempt: nat) -> nat {
    25 * pow2(attempt)
}

/// What a waker does next.
#[derive(Clone, Copy, Debug, PartialEq, Eq)]
pub enum BackoffAction {
    /// Wait this long, then broadcast the magic packet, unless cancelled
    /// during the wait.
    WaitThenSend { delay_ms: u64 },
    /// Stop: the waker was cancelled or has made all its attempts.
    Stop,
}

/// A waker's state: the attempts it has started, the most it will make, and
/// whether it was cancelled.
pub struct BackoffState {
    pub attempts: nat,
    pub max_attempts: nat,
    pub cancelled: bool,
}

/// Whether a waker in `state` has anything left to do.
pub open spec fn runnable(state: BackoffState) -> bool {
    !state.cancelled && state.attempts < state.max_attempts
}

/// The state after one step.
pub open spec fn backoff_next(state: BackoffState) -> BackoffState {
    if runnable(state) {
        BackoffState { attempts: state.attempts + 1, ..state }
    } else {
        state
    }
}

/// What one step asks for.
pub open spec fn backoff_action(state: BackoffState) -> BackoffAction {
    if runnable(state) {
        BackoffAction::WaitThenSend { delay_ms: backoff_delay_ms(state.attempts) as u64 }
    } else {
        BackoffAction::Stop
    }
}

/// The state after `steps` steps.
pub open spec fn backoff_run(state: BackoffState, steps: nat) -> BackoffState
    decreases steps,
{
    if steps == 0 {
        state
    } else {
        backoff_run(backoff_next(state), (steps - 1) as nat)
    }
}

/// The waits of all attempts up to the limit fit in 64 bits.
pub proof fn lemma_delay_fits(attempt: nat)
    requires
        attempt < 60,
    ensures
        25 <= backoff_delay_ms(attempt) <= u64::MAX,
        backoff_delay_ms(attempt + 1) == 2 * backoff_delay_ms(attempt),
{
    lemma2_to64_rest();
    lemma_pow2_unfold(attempt + 1);
    if attempt < 59 {
        lemma_pow2_strictly_increases(attempt, 59);
    }
    vstd::arithmetic::power2::lemma_pow2_pos(attempt);
}

/// The retry schedule of one wake.
pub struct BackoffWaker {
    attempts: usize,
    max_attempts: usize,
    delay_ms: u64,
    cancelled: bool,
}

impl BackoffWaker {
    pub closed spec fn view(&self) -> BackoffState {
        BackoffState {
            attempts: self.attempts as nat,
            max_attempts: self.max_attempts as nat,
            cancelled: self.cancelled,
        }
    }

    /// The stored wait is that of the next attempt, and no more attempts were
    /// started than allowed.
    pub closed spec fn wf(&self) -> bool {
        &&& self.attempts <= self.max_attempts <= 60
        &&& self.attempts < 60 ==> self.delay_ms == backoff_delay_ms(self.attempts as nat)
    }

    /// A waker that will make up to `max_attempts` attempts.
    pub fn new(max_attempts: usize) -> (waker: Self)
        requires
            max_attempts <= ATTEMPTS_LIMIT,
        ensures
            waker.wf(),
            waker@ == (BackoffState {
                attempts: 0,
                max_attempts: max_attempts as nat,
                cancelled: false,
            }),
    {
        proof {
            vstd::arithmetic::power2::lemma2_to64();
        }
        BackoffWaker { attempts: 0, max_attempts, delay_ms: INITIAL_DELAY_MS, cancelled: false }
    }

    /// Whether anything is left to do.
    pub fn is_runnable(&self) -> (r: bool)
        ensures
            r == runnable(self@),
    {
        !self.cancelled && self.attempts < self.max_attempts
    }

    /// Cancels the waker: from now on every step says `Stop`.
    pub fn cancel(&mut self)
        requires
            old(self).wf(),
        ensures
            final(self).wf(),
            final(self)@ == (BackoffState { cancelled: true, ..old(self)@ }),
    {
        self.cancelled = true;
    }

    /// One step of the schedule: the wait before the next attempt, or `Stop`
    /// once the waker was cancelled or has made all its attempts.
    pub fn exponential_backoff_wakonlan(&mut self) -> (action: BackoffAction)
        requires
            old(self).wf(),
        ensures
            final(self).wf(),
            final(self)@ == backoff_next(old(self)@),
            action == backoff_action(old(self)@),
            action matches BackoffAction::WaitThenSend { delay_ms } ==> delay_ms
                == backoff_delay_ms(old(self)@.attempts),
    {
        if self.cancelled || self.attempts >= self.max_attempts {
            return BackoffAction::Stop;
        }
        proof {
            lemma_delay_fits(self.attempts as nat);
            if self.attempts + 1 < 60 {
                lemma_delay_fits((self.attempts + 1) as nat);
            }
        }
        let delay_ms: u64 = self.delay_ms;
        self.attempts = self.attempts + 1;
        if self.attempts < ATTEMPTS_LIMIT {
            self.delay_ms = delay_ms * 2;
        }
        BackoffAction::WaitThenSend { delay_ms }
    }
}

/// A cancelled waker is not runnable and stays as it is, however many steps
/// it is asked for.
pub proof fn lemma_cancelled_stops(state: BackoffState, steps: nat)
    requires
        state.cancelled,
    ensures
        backoff_action(state) is Stop,
        backoff_run(state, steps) == state,
    decreases steps,
{
    if steps > 0 {
        lemma_cancelled_stops(state, (steps - 1) as nat);
    }
}

/// A waker left alone starts one attempt per step until it has made all of
/// them, and none after.
pub proof fn lemma_attempts_are_bounded(state: BackoffState, steps: nat)
    requires
        !state.cancelled,
        state.attempts <= state.max_attempts,
    ensures
        backoff_run(state, steps).attempts == if state.attempts + steps <= state.max_attempts {
            state.attempts + steps
        } else {
            state.max_attempts
        },
        backoff_run(state, steps).max_attempts == state.max_attempts,
        !backoff_run(state, steps).cancelled,
    decreases steps,
{
    if steps > 0 {
        lemma_attempts_are_bounded(backoff_next(state), (steps - 1) as nat);
    }
}

} // verus!
