//! One managed process, as the registry records it.

use vstd::prelude::*;

verus! {

/// Coarse lifecycle label of an entry, as shown to operators.
#[derive(Debug, Clone, Copy, PartialEq, Eq, Structural)]
pub enum Status {
    Running,
    Stopped,
    Crashed,
    Errored,
}

/// Crash bookkeeping of an entry: how many unexpected deaths were counted
/// since the counter was last reset, and whether the entry was given up on.
#[derive(Debug, Clone, Copy, PartialEq, Eq, Structural)]
pub struct Crash {
    pub crashed: bool,
    pub value: u64,
}

/// Hot-reload settings of an entry: whether a path is watched, the path
/// (relative to the entry's working directory), and the fingerprint of its
/// content that was recorded last.
#[derive(Debug, PartialEq, Eq)]
pub struct Watch {
    pub enabled: bool,
    pub path: String,
    pub hash: String,
}

/// Mathematical value of a [`Watch`].
pub struct WatchModel {
    pub enabled: bool,
    pub path: Seq<char>,
    pub hash: Seq<char>,
}

impl View for Watch {
    type V = WatchModel;

    open spec fn view(&self) -> WatchModel {
        WatchModel { enabled: self.enabled, path: self.path@, hash: self.hash@ }
    }
}

impl Clone for Watch {
    fn clone(&self) -> (copy: Watch)
        ensures
            copy@ == self@,
    {
        Watch { enabled: self.enabled, path: self.path.clone(), hash: self.hash.clone() }
    }
}

/// One managed process: what identifies it, how it is started and where,
/// the process it last ran as, and what is recorded of its state.
#[derive(Debug, PartialEq, Eq)]
pub struct ProcessEntry {
    pub id: usize,
    pub name: String,
    pub script: String,
    pub pid: i64,
    pub children: Vec<i64>,
    pub path: String,
    pub running: bool,
    pub status: Status,
    pub crash: Crash,
    pub watch: Watch,
}

/// Mathematical value of a [`ProcessEntry`].
pub struct EntryModel {
    pub id: usize,
    pub name: Seq<char>,
    pub script: Seq<char>,
    pub pid: i64,
    pub children: Seq<i64>,
    pub path: Seq<char>,
    pub running: bool,
    pub status: Status,
    pub crash: Crash,
    pub watch: WatchModel,
}

impl View for ProcessEntry {
    type V = EntryModel;

    open spec fn view(&self) -> EntryModel {
        EntryModel {
            id: self.id,
            name: self.name@,
            script: self.script@,
            pid: self.pid,
            children: self.children@,
            path: self.path@,
            running: self.running,
            status: self.status,
            crash: self.crash,
            watch: self.watch@,
        }
    }
}

/// The recorded children followed by each observed pid that is neither
/// recorded nor observed earlier, in the order of observation.
pub open spec fn merge_children(known: Seq<i64>, observed: Seq<i64>) -> Seq<i64>
    decreases observed.len(),
{
    if observed.len() == 0 {
        known
    } else if known.contains(observed.first()) {
        merge_children(known, observed.drop_first())
    } else {
        merge_children(known.push(observed.first()), observed.drop_first())
    }
}

impl EntryModel {
    /// The entry with another status; the running flag follows the status.
    pub open spec fn with_status(self, status: Status) -> EntryModel {
        EntryModel { status, running: status == Status::Running, ..self }
    }

    /// The entry with its children replaced.
    pub open spec fn with_children(self, children: Seq<i64>) -> EntryModel {
        EntryModel { children, ..self }
    }

    /// The entry marked as given up on.
    pub open spec fn marked_crashed(self) -> EntryModel {
        EntryModel { crash: Crash { crashed: true, value: self.crash.value }, ..self }
    }

    /// The entry after its process was started anew under `pid`: it runs, it
    /// has no known children yet, the crashed mark is gone, and the crash
    /// counter is zero if `force_reset_counter` and unchanged otherwise.
    pub open spec fn restarted(self, pid: i64, force_reset_counter: bool) -> EntryModel {
        EntryModel {
            pid,
            running: true,
            status: Status::Running,
            children: Seq::empty(),
            crash: Crash {
                crashed: false,
                value: if force_reset_counter { 0 } else { self.crash.value },
            },
            ..self
        }
    }

    /// The entry after it was stopped by hand: it does not run, and its
    /// crash bookkeeping and children are cleared.
    pub open spec fn stopped(self) -> EntryModel {
        EntryModel {
            running: false,
            status: Status::Stopped,
            children: Seq::empty(),
            crash: Crash { crashed: false, value: 0 },
            ..self
        }
    }

    /// The entry after it was given up on: stopped, with the crashed mark
    /// set, and with the crash counter left where it stands.
    pub open spec fn given_up(self) -> EntryModel {
        EntryModel {
            crash: Crash { crashed: true, value: self.crash.value },
            ..self.stopped()
        }
    }

    /// The entry with one more crash counted.
    pub open spec fn crash_counted(self) -> EntryModel
        recommends
            self.crash.value < u64::MAX,
    {
        EntryModel {
            crash: Crash { crashed: self.crash.crashed, value: (self.crash.value + 1) as u64 },
            ..self
        }
    }

    /// The entry with another recorded fingerprint.
    pub open spec fn with_hash(self, hash: Seq<char>) -> EntryModel {
        EntryModel {
            watch: WatchModel { enabled: self.watch.enabled, path: self.watch.path, hash },
            ..self
        }
    }

    /// Whether the running flag and the status agree.
    pub open spec fn coherent(self) -> bool {
        self.running <==> self.status == Status::Running
    }
}

/// Whether `pid` occurs in `pids`.
pub fn contains_pid(pids: &Vec<i64>, pid: i64) -> (found: bool)
    ensures
        found == pids@.contains(pid),
{
    let mut i: usize = 0;
    while i < pids.len()
        invariant
            i <= pids.len(),
            forall|k: int| 0 <= k < i ==> pids@[k] != pid,
        decreases pids.len() - i,
    {
        if pids[i] == pid {
            return true;
        }
        i += 1;
    }
    false
}

impl Clone for ProcessEntry {
    fn clone(&self) -> (copy: ProcessEntry)
        ensures
            copy@ == self@,
    {
        ProcessEntry {
            id: self.id,
            name: self.name.clone(),
            script: self.script.clone(),
            pid: self.pid,
            children: self.children.clone(),
            path: self.path.clone(),
            running: self.running,
            status: self.status,
            crash: self.crash,
            watch: self.watch.clone(),
        }
    }
}

impl ProcessEntry {
    /// Sets the status; the running flag follows it.
    pub fn set_status(&mut self, status: Status)
        ensures
            final(self)@ == old(self)@.with_status(status),
    {
        self.running = status == Status::Running;
        self.status = status;
    }

    /// Replaces the recorded children.
    pub fn set_children(&mut self, children: Vec<i64>)
        ensures
            final(self)@ == old(self)@.with_children(children@),
    {
        self.children = children;
    }

    /// Adds each observed child that is not recorded yet, keeping what is
    /// recorded.
    pub fn merge_children(&mut self, observed: &Vec<i64>)
        ensures
            final(self)@ == old(self)@.with_children(
                merge_children(old(self)@.children, observed@),
            ),
    {
        let mut i: usize = 0;
        assert(observed@.skip(0) == observed@);
        while i < observed.len()
            invariant
                i <= observed.len(),
                self@.with_children(old(self)@.children) == old(self)@,
                merge_children(old(self)@.children, observed@) == merge_children(
                    self@.children,
                    observed@.skip(i as int),
                ),
            decreases observed.len() - i,
        {
            let pid = observed[i];
            proof {
                assert(observed@.skip(i as int).first() == pid);
                assert(observed@.skip(i as int).drop_first() == observed@.skip(i + 1));
            }
            if !contains_pid(&self.children, pid) {
                self.children.push(pid);
            }
            i += 1;
        }
    }

    /// Marks the entry as given up on.
    pub fn set_crashed(&mut self)
        ensures
            final(self)@ == old(self)@.marked_crashed(),
    {
        self.crash.crashed = true;
    }

    /// Records that the process was started anew under `pid`.
    pub fn restart(&mut self, pid: i64, force_reset_counter: bool)
        ensures
            final(self)@ == old(self)@.restarted(pid, force_reset_counter),
    {
        self.pid = pid;
        self.running = true;
        self.status = Status::Running;
        self.children = Vec::new();
        self.crash.crashed = false;
        if force_reset_counter {
            self.crash.value = 0;
        }
    }

    /// Records that the entry was given up on: it is stopped and marked as
    /// crashed, and its crash counter stays where it stands.
    pub fn give_up(&mut self)
        ensures
            final(self)@ == old(self)@.given_up(),
    {
        let counted = self.crash.value;
        self.stop();
        self.set_crashed();
        self.crash.value = counted;
    }

    /// Records that the process was stopped.
    pub fn stop(&mut self)
        ensures
            final(self)@ == old(self)@.stopped(),
    {
        self.running = false;
        self.status = Status::Stopped;
        self.children = Vec::new();
        self.crash = Crash { crashed: false, value: 0 };
    }
}

/// Merging keeps what is recorded, in place, and the result holds a pid
/// exactly if it was recorded or observed: as sets, the union of the two.
pub proof fn merge_children_is_union(known: Seq<i64>, observed: Seq<i64>)
    ensures
        known.is_prefix_of(merge_children(known, observed)),
        forall|pid: i64|
            merge_children(known, observed).contains(pid) <==> known.contains(pid)
                || observed.contains(pid),
        merge_children(known, observed).to_set() == known.to_set().union(observed.to_set()),
    decreases observed.len(),
{
    let merged = merge_children(known, observed);
    if observed.len() == 0 {
        assert forall|pid: i64| !observed.contains(pid) by {}
    } else {
        let first = observed.first();
        let rest = observed.drop_first();
        let next = if known.contains(first) {
            known
        } else {
            known.push(first)
        };
        merge_children_is_union(next, rest);
        assert(known.is_prefix_of(next));
        assert forall|pid: i64|
            merged.contains(pid) <==> known.contains(pid) || observed.contains(pid) by {
            assert(next.contains(pid) <==> known.contains(pid) || (pid == first
                && !known.contains(first))) by {
                if !known.contains(first) {
                    assert(next.last() == first);
                    assert(next.drop_last() == known);
                    if next.contains(pid) {
                        let k = choose|k: int| 0 <= k < next.len() && next[k] == pid;
                        if k < known.len() {
                            assert(known[k] == pid);
                        }
                    }
                    if known.contains(pid) {
                        let k = choose|k: int| 0 <= k < known.len() && known[k] == pid;
                        assert(next[k] == pid);
                    }
                }
            }
            assert(observed.contains(pid) <==> pid == first || rest.contains(pid)) by {
                if observed.contains(pid) {
                    let k = choose|k: int| 0 <= k < observed.len() && observed[k] == pid;
                    if k > 0 {
                        assert(rest[k - 1] == pid);
                    }
                }
                if rest.contains(pid) {
                    let k = choose|k: int| 0 <= k < rest.len() && rest[k] == pid;
                    assert(observed[k + 1] == pid);
                }
                assert(observed[0] == first);
            }
        }
    }
    assert(merged.to_set() =~= known.to_set().union(observed.to_set()));
}

/// Merging in pids that are all recorded already changes nothing.
pub proof fn merge_children_absorbs(known: Seq<i64>, observed: Seq<i64>)
    requires
        forall|pid: i64| observed.contains(pid) ==> known.contains(pid),
    ensures
        merge_children(known, observed) == known,
    decreases observed.len(),
{
    if observed.len() > 0 {
        let rest = observed.drop_first();
        assert(observed.contains(observed[0]));
        assert forall|pid: i64| rest.contains(pid) implies known.contains(pid) by {
            let k = choose|k: int| 0 <= k < rest.len() && rest[k] == pid;
            assert(observed[k + 1] == pid);
        }
        merge_children_absorbs(known, rest);
    }
}

/// Merging the same observation a second time changes nothing.
pub proof fn merge_children_twice(known: Seq<i64>, observed: Seq<i64>)
    ensures
        merge_children(merge_children(known, observed), observed) == merge_children(
            known,
            observed,
        ),
{
    merge_children_is_union(known, observed);
    merge_children_absorbs(merge_children(known, observed), observed);
}

/// Merging adds no pid twice: a record without repetitions stays so.
pub proof fn merge_children_keeps_distinct(known: Seq<i64>, observed: Seq<i64>)
    requires
        known.no_duplicates(),
    ensures
        merge_children(known, observed).no_duplicates(),
    decreases observed.len(),
{
    if observed.len() > 0 {
        let first = observed.first();
        if known.contains(first) {
            merge_children_keeps_distinct(known, observed.drop_first());
        } else {
            merge_children_keeps_distinct(known.push(first), observed.drop_first());
        }
    }
}

} // verus!
