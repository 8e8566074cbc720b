//! The runner's table of running wakes and the count that goes with it.

use vstd::prelude::*;
use crate::config::{Config, Wake};

verus! {

/// A wake that was launched and has not exited yet. `S` is the stream that
/// carries the process's standard output.
#[derive(Debug)]
pub struct WakeProcess<S> {
    pub id: String,
    pub name: String,
    pub std_out: S,
}

/// Why a wake was not launched.
#[derive(Clone, Copy, Debug, PartialEq, Eq)]
pub enum WakeError {
    /// No wake of the configuration has the requested name.
    NotFound,
}

/// A wake that was found and given an id, ready to be spawned.
#[derive(Debug, PartialEq, Eq)]
pub struct WakeLaunch {
    /// The position of the wake in the configuration.
    pub wake: usize,
    /// The id the process will be registered under.
    pub id: String,
}

/// Whether no wake of `wakes` before position `end` is called `name`.
pub open spec fn none_named(wakes: Seq<Wake>, name: Seq<char>, end: int) -> bool {
    forall|k: int| 0 <= k < end && k < wakes.len() ==> (#[trigger] wakes[k]).name@ != name
}

/// The table a list of entries stands for: each entry under its id.
pub open spec fn table<S>(entries: Seq<WakeProcess<S>>) -> Map<Seq<char>, WakeProcess<S>> {
    Map::new(
        |id: Seq<char>| exists|i: int| 0 <= i < entries.len() && entries[i].id@ == id,
        |id: Seq<char>| entries[choose|i: int| 0 <= i < entries.len() && entries[i].id@ == id],
    )
}

/// No two entries share an id.
pub open spec fn distinct_ids<S>(entries: Seq<WakeProcess<S>>) -> bool {
    forall|i: int, j: int| 0 <= i < j < entries.len() ==> entries[i].id@ != entries[j].id@
}

/// With distinct ids, every entry is what the table holds under its id.
pub proof fn lemma_table_entry<S>(entries: Seq<WakeProcess<S>>, i: int)
    requires
        distinct_ids(entries),
        0 <= i < entries.len(),
    ensures
        table(entries).contains_key(entries[i].id@),
        table(entries)[entries[i].id@] == entries[i],
{
    let id = entries[i].id@;
    let j = choose|j: int| 0 <= j < entries.len() && entries[j].id@ == id;
    if j < i {
        assert(entries[j].id@ != entries[i].id@);
    } else if i < j {
        assert(entries[i].id@ != entries[j].id@);
    }
}

/// With distinct ids, the table holds as many processes as there are entries.
pub proof fn lemma_table_size<S>(entries: Seq<WakeProcess<S>>)
    requires
        distinct_ids(entries),
    ensures
        table(entries).dom().finite(),
        table(entries).dom().len() == entries.len(),
    decreases entries.len(),
{
    if entries.len() == 0 {
        assert(table(entries).dom() =~= Set::<Seq<char>>::empty());
    } else {
        let rest = entries.drop_last();
        let last = entries.last();
        lemma_table_size(rest);
        assert forall|id: Seq<char>| table(entries).dom().contains(id) implies table(
            rest,
        ).dom().insert(last.id@).contains(id) by {
            let i = choose|i: int| 0 <= i < entries.len() && entries[i].id@ == id;
            if i < rest.len() {
                assert(rest[i].id@ == id);
            }
        }
        assert forall|id: Seq<char>| table(rest).dom().insert(last.id@).contains(
            id,
        ) implies table(entries).dom().contains(id) by {
            if id == last.id@ {
                assert(entries[entries.len() - 1].id@ == id);
            } else {
                let i = choose|i: int| 0 <= i < rest.len() && rest[i].id@ == id;
                assert(entries[i].id@ == id);
            }
        }
        assert(table(entries).dom() =~= table(rest).dom().insert(last.id@));
        if table(rest).dom().contains(last.id@) {
            let i = choose|i: int| 0 <= i < rest.len() && rest[i].id@ == last.id@;
            assert(entries[i].id@ != entries[entries.len() - 1].id@);
        }
    }
}

/// One up, one down, and never twice: registering a process under a fresh id
/// makes the table one larger, reaping it gives the table back as it was, and
/// reaping it again changes nothing.
pub proof fn lemma_launch_then_reap<S>(
    running: Map<Seq<char>, WakeProcess<S>>,
    id: Seq<char>,
    entry: WakeProcess<S>,
)
    requires
        running.dom().finite(),
        !running.contains_key(id),
    ensures
        running.insert(id, entry).dom().len() == running.dom().len() + 1,
        running.insert(id, entry).remove(id) == running,
        running.insert(id, entry).remove(id).remove(id) == running,
        running.remove(id) == running,
{
    assert(running.insert(id, entry).remove(id) =~= running);
    assert(running.remove(id) =~= running);
}

/// What the runner shares between its request handlers, its reapers and its
/// idle watchdog: the configuration, the running wakes by id, and how many
/// wakes are running.
pub struct ServerState<S> {
    config: Config,
    wake_processes: Vec<WakeProcess<S>>,
    active_wake_process_count: usize,
}

/// A fresh id for a process.
///
/// Calls `uuid::Uuid::new_v4` and formats the result with `to_string`, which
/// for a `Uuid` is the hyphenated form: 32 hexadecimal digits in five groups,
/// 36 characters in all. Which id comes back is left open.
#[verifier::external_body]
fn new_process_id() -> (id: String)
    ensures
        id@.len() == 36,
{
    uuid::Uuid::new_v4().to_string()
}

impl<S> ServerState<S> {
    /// No two entries of the table share an id, and the count is the number
    /// of entries.
    pub closed spec fn wf(&self) -> bool {
        &&& distinct_ids(self.wake_processes@)
        &&& self.wake_processes@.len() == self.active_wake_process_count
    }

    /// The configuration the runner was started with.
    pub closed spec fn spec_config(&self) -> Config {
        self.config
    }

    /// The running wakes, by id.
    pub closed spec fn wake_processes(&self) -> Map<Seq<char>, WakeProcess<S>> {
        table(self.wake_processes@)
    }

    /// How many wakes were launched and have not been reaped.
    pub closed spec fn spec_active_wake_process_count(&self) -> nat {
        self.active_wake_process_count as nat
    }

    /// The count is the number of processes in the table.
    pub proof fn lemma_count_is_table_size(&self)
        requires
            self.wf(),
        ensures
            self.wake_processes().dom().finite(),
            self.wake_processes().dom().len() == self.spec_active_wake_process_count(),
    {
        lemma_table_size(self.wake_processes@);
    }

    /// The state of a runner that has launched nothing yet.
    pub fn new(config: Config) -> (state: Self)
        ensures
            state.wf(),
            state.spec_config() == config,
            state.wake_processes() == Map::<Seq<char>, WakeProcess<S>>::empty(),
            state.spec_active_wake_process_count() == 0,
    {
        let state = ServerState {
            config,
            wake_processes: Vec::new(),
            active_wake_process_count: 0,
        };
        assert(state.wake_processes() =~= Map::<Seq<char>, WakeProcess<S>>::empty());
        state
    }

    /// The configuration the runner was started with.
    pub fn config(&self) -> (config: &Config)
        ensures
            *config == self.spec_config(),
    {
        &self.config
    }

    /// How many wakes are running.
    pub fn active_wake_process_count(&self) -> (count: usize)
        ensures
            count == self.spec_active_wake_process_count(),
    {
        self.active_wake_process_count
    }

    /// Whether a process is registered under `id`.
    pub fn is_running(&self, id: &String) -> (found: bool)
        ensures
            found == self.wake_processes().contains_key(id@),
    {
        self.position(id).is_some()
    }

    fn position(&self, id: &String) -> (at: Option<usize>)
        ensures
            at is None <==> !self.wake_processes().contains_key(id@),
            at matches Some(i) ==> i < self.wake_processes@.len() && self.wake_processes@[i as int].id@
                == id@,
    {
        let mut i: usize = 0;
        while i < self.wake_processes.len()
            invariant
                i <= self.wake_processes@.len(),
                forall|k: int| 0 <= k < i ==> self.wake_processes@[k].id@ != id@,
            decreases self.wake_processes@.len() - i,
        {
            if self.wake_processes[i].id == *id {
                return Some(i);
            }
            i += 1;
        }
        None
    }

    /// Finds the wake called `name` and pairs it with `id`. The state is only
    /// read: nothing is counted or registered before the process exists.
    pub fn plan_wake(&self, name: &String, id: String) -> (planned: Result<WakeLaunch, WakeError>)
        ensures
            planned is Err <==> none_named(
                self.spec_config().wakes@,
                name@,
                self.spec_config().wakes@.len() as int,
            ),
            planned matches Err(e) ==> e == WakeError::NotFound,
            planned matches Ok(launch) ==> launch.wake < self.spec_config().wakes@.len()
                && self.spec_config().wakes@[launch.wake as int].name@ == name@ && none_named(
                self.spec_config().wakes@,
                name@,
                launch.wake as int,
            ) && launch.id == id,
    {
        let mut i: usize = 0;
        while i < self.config.wakes.len()
            invariant
                i <= self.config.wakes@.len(),
                forall|k: int| 0 <= k < i ==> (#[trigger] self.config.wakes@[k]).name@ != name@,
            decreases self.config.wakes@.len() - i,
        {
            if self.config.wakes[i].name == *name {
                return Ok(WakeLaunch { wake: i, id });
            }
            i += 1;
        }
        Err(WakeError::NotFound)
    }

    /// Answers a request to launch the wake called `name`: the first wake of
    /// that name with a fresh id, or `NotFound` when the configuration has no
    /// such wake. The state is only read.
    pub fn wake_run(&self, name: &String) -> (planned: Result<WakeLaunch, WakeError>)
        ensures
            planned is Err <==> none_named(
                self.spec_config().wakes@,
                name@,
                self.spec_config().wakes@.len() as int,
            ),
            planned matches Err(e) ==> e == WakeError::NotFound,
            planned matches Ok(launch) ==> launch.wake < self.spec_config().wakes@.len()
                && self.spec_config().wakes@[launch.wake as int].name@ == name@ && none_named(
                self.spec_config().wakes@,
                name@,
                launch.wake as int,
            ) && launch.id@.len() == 36,
    {
        let id = new_process_id();
        self.plan_wake(name, id)
    }

    /// Registers a process that was spawned under `id` for the wake called
    /// `name`, together with its output stream, and counts it. Ids are meant
    /// to be fresh; should `id` be in the table already, its entry is replaced
    /// and handed back, and the count stays the size of the table.
    pub fn register_wake_process(&mut self, id: String, name: String, std_out: S) -> (replaced:
        Option<WakeProcess<S>>)
        requires
            old(self).wf(),
        ensures
            final(self).wf(),
            final(self).spec_config() == old(self).spec_config(),
            final(self).wake_processes() == old(self).wake_processes().insert(
                id@,
                (WakeProcess { id, name, std_out }),
            ),
            replaced is Some <==> old(self).wake_processes().contains_key(id@),
            replaced matches Some(e) ==> e == old(self).wake_processes()[id@],
            final(self).spec_active_wake_process_count() == old(
                self).spec_active_wake_process_count() + (if replaced is Some {
                0nat
            } else {
                1nat
            }),
    {
        let ghost before = self.wake_processes@;
        let ghost key = id@;
        let found = self.position(&id);
        let entry = WakeProcess { id, name, std_out };
        let replaced = match found {
            Some(at) => {
                proof {
                    lemma_table_entry(before, at as int);
                }
                let previous = self.wake_processes.remove(at);
                self.wake_processes.insert(at, entry);
                Some(previous)
            },
            None => {
                self.wake_processes.push(entry);
                None
            },
        };
        self.active_wake_process_count = self.wake_processes.len();
        proof {
            let after = self.wake_processes@;
            assert(forall|k: int|
                0 <= k < before.len() && before[k].id@ != key ==> after[k] == before[k]);
            assert(forall|k: int| 0 <= k < after.len() ==> (after[k].id@ == key <==> after[k] == entry));
            assert(forall|k: int|
                0 <= k < after.len() && after[k].id@ != key ==> k < before.len() && after[k]
                    == before[k]);
            assert(distinct_ids(after));
            let wanted = table(before).insert(key, entry);
            assert forall|other: Seq<char>| table(after).contains_key(other) implies wanted.contains_key(
                other,
            ) && wanted[other] == table(after)[other] by {
                let k = choose|k: int| 0 <= k < after.len() && after[k].id@ == other;
                lemma_table_entry(after, k);
                if other != key {
                    lemma_table_entry(before, k);
                }
            }
            assert forall|other: Seq<char>| wanted.contains_key(other) implies table(
                after,
            ).contains_key(other) by {
                if other == key {
                    let k = if found is Some {
                        found.unwrap() as int
                    } else {
                        before.len() as int
                    };
                    assert(after[k].id@ == key);
                } else {
                    let k = choose|k: int| 0 <= k < before.len() && before[k].id@ == other;
                    assert(after[k].id@ == other);
                }
            }
            assert(table(after) =~= wanted);
        }
        replaced
    }

    /// Takes the process registered under `id` out of the table, once it has
    /// exited, and counts one running wake less. Where no process is
    /// registered under `id`, as after an earlier call for it, nothing
    /// changes.
    pub fn handle_wake_process(&mut self, id: &String) -> (entry: Option<WakeProcess<S>>)
        requires
            old(self).wf(),
        ensures
            final(self).wf(),
            final(self).spec_config() == old(self).spec_config(),
            final(self).wake_processes() == old(self).wake_processes().remove(id@),
            entry is Some <==> old(self).wake_processes().contains_key(id@),
            entry matches Some(e) ==> e == old(self).wake_processes()[id@],
            final(self).spec_active_wake_process_count() == old(
                self).spec_active_wake_process_count() - (if entry is Some {
                1nat
            } else {
                0nat
            }),
    {
        let ghost before = self.wake_processes@;
        let found = self.position(id);
        let entry = match found {
            Some(at) => {
                proof {
                    lemma_table_entry(before, at as int);
                }
                Some(self.wake_processes.remove(at))
            },
            None => None,
        };
        self.active_wake_process_count = self.wake_processes.len();
        proof {
            let after = self.wake_processes@;
            let wanted = table(before).remove(id@);
            if found is Some {
                let at = found.unwrap() as int;
                assert(forall|k: int| 0 <= k < at ==> after[k] == before[k]);
                assert(forall|k: int| at <= k < after.len() ==> after[k] == before[k + 1]);
                assert(forall|k: int| 0 <= k < before.len() && k != at ==> before[k].id@ != id@);
            }
            assert(distinct_ids(after));
            assert forall|other: Seq<char>| table(after).contains_key(other) implies wanted.contains_key(
                other,
            ) && wanted[other] == table(after)[other] by {
                let k = choose|k: int| 0 <= k < after.len() && after[k].id@ == other;
                lemma_table_entry(after, k);
                if found is Some && k >= found.unwrap() {
                    lemma_table_entry(before, k + 1);
                } else {
                    lemma_table_entry(before, k);
                }
            }
            assert forall|other: Seq<char>| wanted.contains_key(other) implies table(
                after,
            ).contains_key(other) by {
                let k = choose|k: int| 0 <= k < before.len() && before[k].id@ == other;
                if found is Some && k > found.unwrap() {
                    assert(after[k - 1].id@ == other);
                } else {
                    assert(after[k].id@ == other);
                }
            }
            assert(table(after) =~= wanted);
        }
        entry
    }
}

} // verus!
