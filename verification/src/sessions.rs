//! How many users are logged in, and when to ask again.

use vstd::prelude::*;

verus! {

/// The characters with the Unicode property `White_Space`.
pub open spec fn is_whitespace(c: char) -> bool {
    let n = c as u32;
    ||| 0x09 <= n <= 0x0D
    ||| n == 0x20
    ||| n == 0x85
    ||| n == 0xA0
    ||| n == 0x1680
    ||| 0x2000 <= n <= 0x200A
    ||| n == 0x2028
    ||| n == 0x2029
    ||| n == 0x202F
    ||| n == 0x205F
    ||| n == 0x3000
}

/// Whether a word starts at position `i` of `text`: the character there is
/// not white space, and it is the first or follows white space.
pub open spec fn starts_word(text: Seq<char>, i: int) -> bool {
    &&& 0 <= i < text.len()
    &&& !is_whitespace(text[i])
    &&& (i == 0 || is_whitespace(text[i - 1]))
}

/// The number of words in `text`, where white space separates words.
pub open spec fn word_count(text: Seq<char>) -> nat
    decreases text.len(),
{
    if text.len() == 0 {
        0
    } else {
        word_count(text.drop_last()) + if starts_word(text, text.len() - 1) {
            1nat
        } else {
            0nat
        }
    }
}

fn whitespace(c: char) -> (r: bool)
    ensures
        r == is_whitespace(c),
{
    let n: u32 = c as u32;
    (0x09 <= n && n <= 0x0D) || n == 0x20 || n == 0x85 || n == 0xA0 || n == 0x1680 || (0x2000 <= n
        && n <= 0x200A) || n == 0x2028 || n == 0x2029 || n == 0x202F || n == 0x205F || n == 0x3000
}

/// The number of user sessions that a listing of logged-in users shows: one
/// per name, where white space separates the names.
pub fn get_active_user_count(listing: &Vec<char>) -> (count: usize)
    ensures
        count == word_count(listing@),
{
    let mut count: usize = 0;
    let mut after_space: bool = true;
    let mut i: usize = 0;
    while i < listing.len()
        invariant
            i <= listing@.len(),
            count <= i,
            count == word_count(listing@.take(i as int)),
            after_space == (i == 0 || is_whitespace(listing@[i - 1])),
        decreases listing@.len() - i,
    {
        let space = whitespace(listing[i]);
        proof {
            let prefix = listing@.take(i + 1);
            assert(prefix.drop_last() =~= listing@.take(i as int));
            assert(prefix[i as int] == listing@[i as int]);
            if i > 0 {
                assert(prefix[i - 1] == listing@[i - 1]);
            }
        }
        if !space && after_space {
            count += 1;
        }
        after_space = space;
        i += 1;
    }
    assert(listing@.take(i as int) =~= listing@);
    count
}

/// What a watcher does next.
#[derive(Clone, Copy, Debug, PartialEq, Eq)]
pub enum WatcherAction {
    /// Ask the system for the sessions again and publish the count.
    Requery,
    /// Sleep until a change is notified or the watcher is stopped.
    Wait,
    /// Leave the loop for good.
    Exit,
}

/// A watcher's state: the count as last published, whether a change was
/// notified since the last query, and whether the watcher was stopped.
#[derive(Clone, Copy, Debug, PartialEq, Eq)]
pub struct WatcherState {
    pub active_user_sessions: usize,
    pub pending: bool,
    pub stopped: bool,
}

/// The state after a change was notified: one query is due, however many
/// notifications came.
pub open spec fn notified(state: WatcherState) -> WatcherState {
    WatcherState { pending: true, ..state }
}

/// The state after `times` notifications.
pub open spec fn notified_times(state: WatcherState, times: nat) -> WatcherState
    decreases times,
{
    if times == 0 {
        state
    } else {
        notified(notified_times(state, (times - 1) as nat))
    }
}

/// What one turn of the loop asks for.
pub open spec fn watcher_action(state: WatcherState) -> WatcherAction {
    if state.stopped {
        WatcherAction::Exit
    } else if state.pending {
        WatcherAction::Requery
    } else {
        WatcherAction::Wait
    }
}

/// The state after one turn of the loop: a due query is taken up.
pub open spec fn watcher_next(state: WatcherState) -> WatcherState {
    if !state.stopped && state.pending {
        WatcherState { pending: false, ..state }
    } else {
        state
    }
}

/// Keeps the count of user sessions up to date.
pub struct UserSessionWatcher {
    state: WatcherState,
}

impl UserSessionWatcher {
    pub closed spec fn view(&self) -> WatcherState {
        self.state
    }

    /// The count as last published.
    pub fn active_user_sessions(&self) -> (count: usize)
        ensures
            count == self@.active_user_sessions,
    {
        self.state.active_user_sessions
    }

    /// Notes that the session file changed.
    pub fn notify(&mut self)
        ensures
            final(self)@ == notified(old(self)@),
    {
        self.state.pending = true;
    }

    /// Stops the watcher: its loop exits at the next turn.
    pub fn stop(&mut self)
        ensures
            final(self)@ == (WatcherState { stopped: true, ..old(self)@ }),
    {
        self.state.stopped = true;
    }

    /// One turn of the loop.
    pub fn user_count_update_loop(&mut self) -> (action: WatcherAction)
        ensures
            action == watcher_action(old(self)@),
            final(self)@ == watcher_next(old(self)@),
    {
        if self.state.stopped {
            WatcherAction::Exit
        } else if self.state.pending {
            self.state.pending = false;
            WatcherAction::Requery
        } else {
            WatcherAction::Wait
        }
    }

    /// Publishes the count read from a fresh `listing`. Where nobody is left
    /// to receive it, the watcher stops.
    pub fn publish(&mut self, listing: &Vec<char>, received: bool) -> (count: usize)
        ensures
            count == word_count(listing@),
            final(self)@ == (WatcherState {
                active_user_sessions: count,
                stopped: old(self)@.stopped || !received,
                ..old(self)@
            }),
    {
        let count = get_active_user_count(listing);
        self.state.active_user_sessions = count;
        if !received {
            self.state.stopped = true;
        }
        count
    }
}

/// A watcher that has just published the count read from `listing`.
pub fn watch_active_user_count(listing: &Vec<char>) -> (watcher: UserSessionWatcher)
    ensures
        watcher@ == (WatcherState {
            active_user_sessions: word_count(listing@) as usize,
            pending: false,
            stopped: false,
        }),
{
    UserSessionWatcher {
        state: WatcherState {
            active_user_sessions: get_active_user_count(listing),
            pending: false,
            stopped: false,
        },
    }
}

/// A burst of notifications leaves one query due, not one for each: the
/// next turn asks for a query, and the turn after that for none.
pub proof fn lemma_burst_is_one_query(state: WatcherState, times: nat)
    requires
        times >= 1,
        !state.stopped,
    ensures
        notified_times(state, times) == notified(state),
        watcher_action(notified_times(state, times)) is Requery,
        watcher_action(watcher_next(notified_times(state, times))) is Wait,
    decreases times,
{
    reveal_with_fuel(notified_times, 2);
    if times > 1 {
        lemma_burst_is_one_query(state, (times - 1) as nat);
    }
}

/// A stopped watcher exits, whatever was notified.
pub proof fn lemma_stopped_exits(state: WatcherState, times: nat)
    requires
        state.stopped,
    ensures
        watcher_action(notified_times(state, times)) is Exit,
    decreases times,
{
    if times > 0 {
        lemma_stopped_exits(state, (times - 1) as nat);
    }
}

} // verus!
