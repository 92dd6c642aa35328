//! The registry: the entries by id, and the operations that change one of
//! them at a time.

use vstd::prelude::*;
use crate::policy::{countable, decide, decision, step, Decision, Probe, ProbeModel};
use crate::registry::entry::{EntryModel, ProcessEntry, Status};

verus! {

/// The managed processes, listed by ascending id, and the id that the next
/// new entry will get.
///
/// The fields are private: a registry is made by [`Registry::new`] or
/// [`Registry::from_parts`], which hand out well-formed registries only,
/// and every operation keeps it well formed.
#[derive(Debug, PartialEq, Eq)]
pub struct Registry {
    next_id: usize,
    list: Vec<ProcessEntry>,
}

/// Mathematical value of a [`Registry`].
pub struct RegistryModel {
    pub next_id: usize,
    pub entries: Seq<EntryModel>,
}

impl RegistryModel {
    /// Ids ascend along the listing, so none occurs twice, and each lies
    /// below the id counter, so none is handed out again while its entry
    /// exists.
    pub open spec fn wf(self) -> bool {
        &&& forall|i: int, j: int|
            0 <= i < j < self.entries.len() ==> self.entries[i].id < self.entries[j].id
        &&& forall|i: int| 0 <= i < self.entries.len() ==> self.entries[i].id < self.next_id
    }

    /// Whether an entry with this id exists.
    pub open spec fn contains(self, id: usize) -> bool {
        exists|i: int| 0 <= i < self.entries.len() && self.entries[i].id == id
    }

    /// Where the entry with this id stands in the listing.
    pub open spec fn index_of(self, id: usize) -> int {
        choose|i: int| 0 <= i < self.entries.len() && self.entries[i].id == id
    }

    /// The entry with this id.
    pub open spec fn entry(self, id: usize) -> EntryModel
        recommends
            self.contains(id),
    {
        self.entries[self.index_of(id)]
    }

    /// The largest id present, if there is any entry.
    pub open spec fn largest(self) -> Option<usize> {
        if self.entries.len() == 0 {
            None
        } else {
            Some(self.entries.last().id)
        }
    }

    /// Whether `next` lies above every id present.
    pub open spec fn admits(self, next: usize) -> bool {
        forall|i: int| 0 <= i < self.entries.len() ==> self.entries[i].id < next
    }

    /// The registry with `change` applied to the entry with this id, and
    /// unchanged if there is none.
    pub open spec fn update(self, id: usize, change: spec_fn(EntryModel) -> EntryModel)
        -> RegistryModel {
        RegistryModel {
            next_id: self.next_id,
            entries: self.entries.map_values(
                |e: EntryModel|
                    if e.id == id {
                        change(e)
                    } else {
                        e
                    },
            ),
        }
    }

    /// The registry as a mapping from id to entry.
    pub open spec fn as_map(self) -> Map<usize, EntryModel> {
        Map::new(|id: usize| self.contains(id), |id: usize| self.entry(id))
    }

    /// The registry with the status of the entry with this id set.
    pub open spec fn with_status(self, id: usize, status: Status) -> RegistryModel {
        self.update(id, |e: EntryModel| e.with_status(status))
    }

    /// The registry with the children of the entry with this id replaced.
    pub open spec fn with_children(self, id: usize, children: Seq<i64>) -> RegistryModel {
        self.update(id, |e: EntryModel| e.with_children(children))
    }

    /// The registry with the entry with this id marked as given up on.
    pub open spec fn marked_crashed(self, id: usize) -> RegistryModel {
        self.update(id, |e: EntryModel| e.marked_crashed())
    }

    /// The registry after the process of the entry with this id was started
    /// anew.
    pub open spec fn restarted(self, id: usize, pid: i64, force_reset_counter: bool)
        -> RegistryModel {
        self.update(id, |e: EntryModel| e.restarted(pid, force_reset_counter))
    }

    /// The registry after the entry with this id was stopped.
    pub open spec fn stopped(self, id: usize) -> RegistryModel {
        self.update(id, |e: EntryModel| e.stopped())
    }

    /// What is decided when a tick is recorded for the entry with this id:
    /// nothing if there is no such entry, or if a crash is to be counted and
    /// the counter is at its limit.
    pub open spec fn outcome(self, id: usize, p: ProbeModel, restart_threshold: u64) -> Option<
        Decision,
    > {
        if self.contains(id) && countable(self.entry(id), p, restart_threshold) {
            Some(decision(self.entry(id), p, restart_threshold))
        } else {
            None
        }
    }

    /// The registry after a tick was recorded for the entry with this id;
    /// unchanged where nothing is decided.
    pub open spec fn advanced(
        self,
        id: usize,
        p: ProbeModel,
        restart_threshold: u64,
        spawned: i64,
    ) -> RegistryModel {
        if self.outcome(id, p, restart_threshold) is Some {
            self.update(id, |e: EntryModel| step(e, p, restart_threshold, spawned))
        } else {
            self
        }
    }

    /// The id counter that a reset leaves: one past the largest id present,
    /// or zero for an empty registry.
    pub open spec fn rewound(self) -> int {
        match self.largest() {
            Some(id) => id + 1,
            None => 0,
        }
    }
}

/// The values of a list of entries, in the same order.
pub open spec fn models(list: Seq<ProcessEntry>) -> Seq<EntryModel> {
    Seq::new(list.len(), |i: int| list[i]@)
}

impl View for Registry {
    type V = RegistryModel;

    closed spec fn view(&self) -> RegistryModel {
        RegistryModel { next_id: self.next_id, entries: models(self.list@) }
    }
}

impl Registry {
    /// The invariant of the registry: its value is well formed.
    pub open spec fn wf(&self) -> bool {
        self@.wf()
    }

    /// A registry without entries that counts ids from zero.
    pub fn new() -> (registry: Registry)
        ensures
            registry.wf(),
            registry@.next_id == 0,
            registry@.entries == Seq::<EntryModel>::empty(),
    {
        Registry { next_id: 0, list: Vec::new() }
    }

    /// Where the entry with this id stands, if there is one.
    fn position(&self, id: usize) -> (found: Option<usize>)
        ensures
            match found {
                Some(i) => i < self@.entries.len() && self@.entries[i as int].id == id,
                None => !self@.contains(id),
            },
    {
        let mut i: usize = 0;
        while i < self.list.len()
            invariant
                i <= self.list.len(),
                forall|k: int| 0 <= k < i ==> self@.entries[k].id != id,
            decreases self.list.len() - i,
        {
            if self.list[i].id == id {
                return Some(i);
            }
            i += 1;
        }
        None
    }

    /// The id that the next new entry will get.
    pub fn next_id(&self) -> (next: usize)
        ensures
            next == self@.next_id,
    {
        self.next_id
    }

    /// Builds a registry from an id counter and a listing, as read back
    /// from a snapshot. Fails if the ids do not ascend or one of them does
    /// not lie below the counter.
    pub fn from_parts(next_id: usize, list: Vec<ProcessEntry>) -> (loaded: Option<Registry>)
        ensures
            match loaded {
                Some(registry) => {
                    &&& registry.wf()
                    &&& registry@ == (RegistryModel { next_id, entries: models(list@) })
                },
                None => !(RegistryModel { next_id, entries: models(list@) }).wf(),
            },
    {
        let ghost model = RegistryModel { next_id, entries: models(list@) };
        let mut i: usize = 0;
        while i < list.len()
            invariant
                i <= list.len(),
                model == (RegistryModel { next_id, entries: models(list@) }),
                forall|a: int, b: int| 0 <= a < b < i ==> list@[a].id < list@[b].id,
                forall|a: int| 0 <= a < i ==> list@[a].id < next_id,
            decreases list.len() - i,
        {
            if list[i].id >= next_id {
                assert(!(model.entries[i as int].id < next_id));
                return None;
            }
            if i > 0 && list[i - 1].id >= list[i].id {
                assert(!(model.entries[i - 1].id < model.entries[i as int].id));
                return None;
            }
            i += 1;
        }
        Some(Registry { next_id, list })
    }

    /// Takes the registry apart into its id counter and its listing, as
    /// written to a snapshot. [`Registry::from_parts`] makes the same
    /// registry of them again.
    pub fn into_parts(self) -> (parts: (usize, Vec<ProcessEntry>))
        ensures
            (RegistryModel { next_id: parts.0, entries: models(parts.1@) }) == self@,
    {
        (self.next_id, self.list)
    }

    /// Adds an entry under the next id, whatever id it came with, and
    /// returns that id. When the id counter is exhausted, nothing is added.
    pub fn add(&mut self, entry: ProcessEntry) -> (assigned: Option<usize>)
        requires
            old(self).wf(),
        ensures
            final(self).wf(),
            match assigned {
                Some(id) => {
                    &&& id == old(self)@.next_id
                    &&& !old(self)@.contains(id)
                    &&& final(self)@.next_id == id + 1
                    &&& final(self)@.entries == old(self)@.entries.push(
                        (EntryModel { id, ..entry@ }),
                    )
                },
                None => old(self)@.next_id == usize::MAX && final(self)@ == old(self)@,
            },
    {
        if self.next_id == usize::MAX {
            return None;
        }
        let id = self.next_id;
        let mut entry = entry;
        entry.id = id;
        self.list.push(entry);
        self.next_id = id + 1;
        assert(self@.entries =~= old(self)@.entries.push((EntryModel { id, ..entry@ })));
        Some(id)
    }

    /// Removes the entry with this id and returns it, if there is one.
    pub fn remove(&mut self, id: usize) -> (removed: Option<ProcessEntry>)
        requires
            old(self).wf(),
        ensures
            final(self).wf(),
            final(self)@.next_id == old(self)@.next_id,
            match removed {
                Some(entry) => {
                    &&& old(self)@.contains(id)
                    &&& entry@ == old(self)@.entry(id)
                    &&& final(self)@.entries == old(self)@.entries.remove(
                        old(self)@.index_of(id),
                    )
                },
                None => !old(self)@.contains(id) && final(self)@ == old(self)@,
            },
    {
        match self.position(id) {
            Some(i) => {
                proof {
                    old(self)@.lemma_index_of(id, i as int);
                }
                let entry = self.list.remove(i);
                assert(self@.entries =~= old(self)@.entries.remove(i as int));
                Some(entry)
            },
            None => None,
        }
    }

    /// The entry with this id, if there is one.
    pub fn get(&self, id: usize) -> (found: Option<&ProcessEntry>)
        requires
            self.wf(),
        ensures
            match found {
                Some(entry) => self@.contains(id) && entry@ == self@.entry(id),
                None => !self@.contains(id),
            },
    {
        match self.position(id) {
            Some(i) => {
                proof {
                    self@.lemma_index_of(id, i as int);
                }
                Some(&self.list[i])
            },
            None => None,
        }
    }

    /// A copy of every entry with its id, by ascending id.
    pub fn items(&self) -> (items: Vec<(usize, ProcessEntry)>)
        ensures
            items@.len() == self@.entries.len(),
            forall|i: int|
                0 <= i < items@.len() ==> items@[i].0 == self@.entries[i].id && items@[i].1@
                    == self@.entries[i],
    {
        let mut items: Vec<(usize, ProcessEntry)> = Vec::new();
        let mut i: usize = 0;
        while i < self.list.len()
            invariant
                i <= self.list.len(),
                items@.len() == i,
                forall|k: int|
                    0 <= k < i ==> items@[k].0 == self@.entries[k].id && items@[k].1@
                        == self@.entries[k],
            decreases self.list.len() - i,
        {
            items.push((self.list[i].id, self.list[i].clone()));
            i += 1;
        }
        items
    }

    /// Sets the status of the entry with this id; nothing changes if there
    /// is none.
    pub fn set_status(&mut self, id: usize, status: Status)
        requires
            old(self).wf(),
        ensures
            final(self).wf(),
            final(self)@ == old(self)@.with_status(id, status),
    {
        if let Some(i) = self.position(id) {
            let entry = &mut self.list[i];
            entry.set_status(status);
        }
        assert(self@.entries =~= old(self)@.with_status(id, status).entries);
    }

    /// Replaces the children of the entry with this id; nothing changes if
    /// there is none.
    pub fn set_children(&mut self, id: usize, children: Vec<i64>)
        requires
            old(self).wf(),
        ensures
            final(self).wf(),
            final(self)@ == old(self)@.with_children(id, children@),
    {
        if let Some(i) = self.position(id) {
            let entry = &mut self.list[i];
            entry.set_children(children);
        }
        assert(self@.entries =~= old(self)@.with_children(id, children@).entries);
    }

    /// Marks the entry with this id as given up on; nothing changes if
    /// there is none.
    pub fn set_crashed(&mut self, id: usize)
        requires
            old(self).wf(),
        ensures
            final(self).wf(),
            final(self)@ == old(self)@.marked_crashed(id),
    {
        if let Some(i) = self.position(id) {
            let entry = &mut self.list[i];
            entry.set_crashed();
        }
        assert(self@.entries =~= old(self)@.marked_crashed(id).entries);
    }

    /// Records that the process of the entry with this id was started anew
    /// under `pid`; nothing changes if there is none.
    pub fn restart(&mut self, id: usize, pid: i64, force_reset_counter: bool)
        requires
            old(self).wf(),
        ensures
            final(self).wf(),
            final(self)@ == old(self)@.restarted(id, pid, force_reset_counter),
    {
        if let Some(i) = self.position(id) {
            let entry = &mut self.list[i];
            entry.restart(pid, force_reset_counter);
        }
        assert(self@.entries =~= old(self)@.restarted(id, pid, force_reset_counter).entries);
    }

    /// Records that the entry with this id was stopped; nothing changes if
    /// there is none.
    pub fn stop(&mut self, id: usize)
        requires
            old(self).wf(),
        ensures
            final(self).wf(),
            final(self)@ == old(self)@.stopped(id),
    {
        if let Some(i) = self.position(id) {
            let entry = &mut self.list[i];
            entry.stop();
        }
        assert(self@.entries =~= old(self)@.stopped(id).entries);
    }

    /// What recording a tick for the entry with this id would decide,
    /// without changing anything.
    pub fn preview(&self, id: usize, probe: &Probe, restart_threshold: u64) -> (d: Option<
        Decision,
    >)
        requires
            self.wf(),
        ensures
            d == self@.outcome(id, probe@, restart_threshold),
    {
        match self.position(id) {
            Some(i) => {
                proof {
                    self@.lemma_index_of(id, i as int);
                }
                let planned = decide(&self.list[i], probe, restart_threshold);
                if planned == Decision::CrashRestart && self.list[i].crash.value == u64::MAX {
                    None
                } else {
                    Some(planned)
                }
            },
            None => None,
        }
    }

    /// Records one tick for the entry with this id and returns what was
    /// decided. Where the decision restarts the process, `spawned` is the pid
    /// of the process that the caller started. Nothing changes and nothing
    /// is returned if there is no such entry, or if a crash is to be counted
    /// and the counter is at its limit.
    pub fn advance(&mut self, id: usize, probe: &Probe, restart_threshold: u64, spawned: i64) -> (d:
        Option<Decision>)
        requires
            old(self).wf(),
        ensures
            final(self).wf(),
            d == old(self)@.outcome(id, probe@, restart_threshold),
            final(self)@ == old(self)@.advanced(id, probe@, restart_threshold, spawned),
    {
        match self.position(id) {
            Some(i) => {
                proof {
                    self@.lemma_index_of(id, i as int);
                }
                let planned = decide(&self.list[i], probe, restart_threshold);
                if planned == Decision::CrashRestart && self.list[i].crash.value == u64::MAX {
                    return None;
                }
                let entry = &mut self.list[i];
                let d = entry.advance(probe, restart_threshold, spawned);
                assert(self@.entries =~= old(self)@.advanced(
                    id,
                    probe@,
                    restart_threshold,
                    spawned,
                ).entries);
                Some(d)
            },
            None => None,
        }
    }

    /// How many entries there are.
    pub fn count(&self) -> (n: usize)
        ensures
            n == self@.entries.len(),
    {
        self.list.len()
    }

    /// Whether there is no entry.
    pub fn is_empty(&self) -> (empty: bool)
        ensures
            empty == (self@.entries.len() == 0),
    {
        self.list.len() == 0
    }

    /// The largest id present, or nothing for an empty registry.
    pub fn size(&self) -> (largest: Option<usize>)
        requires
            self.wf(),
        ensures
            largest == self@.largest(),
            largest is None <==> self@.entries.len() == 0,
            largest matches Some(top) ==> self@.contains(top) && forall|i: int|
                0 <= i < self@.entries.len() ==> self@.entries[i].id <= top,
    {
        let n = self.list.len();
        if n == 0 {
            None
        } else {
            assert(self@.entries[n - 1].id == self@.entries.last().id);
            Some(self.list[n - 1].id)
        }
    }

    /// Sets the id counter. It must lie above every id present, so that no
    /// id is handed out while an entry still has it.
    pub fn set_id(&mut self, next: usize)
        requires
            old(self).wf(),
            old(self)@.admits(next),
        ensures
            final(self).wf(),
            final(self)@ == (RegistryModel { next_id: next, entries: old(self)@.entries }),
    {
        self.next_id = next;
    }
}

impl RegistryModel {
    /// A change to one entry that keeps its id touches that entry only: the
    /// registry stays well formed under the same id counter, and as a
    /// mapping it is the old one with the changed entry put in place of the
    /// old entry, or the old one itself if no entry has the id.
    pub proof fn update_is_local(self, id: usize, change: spec_fn(EntryModel) -> EntryModel)
        requires
            self.wf(),
            forall|e: EntryModel| (#[trigger] change(e)).id == e.id,
        ensures
            self.update(id, change).wf(),
            self.update(id, change).next_id == self.next_id,
            self.update(id, change).entries.len() == self.entries.len(),
            self.update(id, change).as_map() == if self.contains(id) {
                self.as_map().insert(id, change(self.entry(id)))
            } else {
                self.as_map()
            },
    {
        let after = self.update(id, change);
        assert forall|i: int| 0 <= i < self.entries.len() implies (#[trigger] after.entries[i]).id
            == self.entries[i].id by {}
        let expected = if self.contains(id) {
            self.as_map().insert(id, change(self.entry(id)))
        } else {
            self.as_map()
        };
        assert forall|k: usize| after.contains(k) <==> self.contains(k) by {
            if after.contains(k) {
                let i = after.index_of(k);
                assert(self.entries[i].id == k);
            }
            if self.contains(k) {
                let i = self.index_of(k);
                assert(after.entries[i].id == k);
            }
        }
        assert forall|k: usize| after.contains(k) implies #[trigger] after.entry(k)
            == expected[k] by {
            let i = self.index_of(k);
            assert(after.entries[i].id == k);
            after.lemma_index_of(k, i);
        }
        assert(after.as_map() =~= expected);
    }

    /// The registry without its last entry.
    pub open spec fn without_last(self) -> RegistryModel
        recommends
            self.entries.len() > 0,
    {
        RegistryModel { next_id: self.next_id, entries: self.entries.drop_last() }
    }

    /// Leaving out the last entry of a well-formed registry leaves a
    /// well-formed registry whose mapping lacks that entry's id and nothing
    /// else.
    proof fn without_last_is_removal(self)
        requires
            self.wf(),
            self.entries.len() > 0,
        ensures
            self.without_last().wf(),
            self.contains(self.entries.last().id),
            self.entry(self.entries.last().id) == self.entries.last(),
            self.without_last().as_map() == self.as_map().remove(self.entries.last().id),
    {
        let shorter = self.without_last();
        let top = self.entries.last().id;
        let n = self.entries.len() - 1;
        self.lemma_index_of(top, n);
        assert forall|k: usize| shorter.contains(k) <==> (self.contains(k) && k != top) by {
            if shorter.contains(k) {
                let i = shorter.index_of(k);
                assert(self.entries[i].id == k);
                assert(self.entries[i].id < self.entries[n].id);
            }
            if self.contains(k) && k != top {
                let i = self.index_of(k);
                assert(shorter.entries[i].id == k);
            }
        }
        assert forall|k: usize| shorter.contains(k) implies #[trigger] shorter.entry(k)
            == self.entry(k) by {
            let i = shorter.index_of(k);
            assert(self.entries[i].id == k);
            self.lemma_index_of(k, i);
        }
        assert(shorter.as_map() =~= self.as_map().remove(top));
    }

    /// A registry is its mapping and its id counter: two well-formed
    /// registries that map the same ids to the same entries and count from
    /// the same id are the same, listing and all.
    pub proof fn mapping_determines_registry(self, other: RegistryModel)
        requires
            self.wf(),
            other.wf(),
            self.next_id == other.next_id,
            self.as_map() == other.as_map(),
        ensures
            self == other,
        decreases self.entries.len(),
    {
        if self.entries.len() == 0 {
            if other.entries.len() > 0 {
                let id = other.entries[0].id;
                assert(other.contains(id));
                assert(other.as_map().dom().contains(id));
                assert(self.as_map().dom().contains(id));
            }
            assert(self.entries =~= other.entries);
        } else {
            let mine = self.entries.last();
            self.without_last_is_removal();
            assert(self.as_map().dom().contains(mine.id));
            assert(other.as_map().dom().contains(mine.id));
            assert(other.contains(mine.id));
            let theirs = other.entries.last();
            other.without_last_is_removal();
            assert(other.as_map().dom().contains(theirs.id));
            assert(self.as_map().dom().contains(theirs.id));
            assert(self.contains(theirs.id));
            let i = self.index_of(theirs.id);
            let j = other.index_of(mine.id);
            assert(self.entries[i].id <= mine.id);
            assert(other.entries[j].id <= theirs.id);
            assert(mine.id == theirs.id);
            assert(self.as_map()[mine.id] == mine);
            assert(other.as_map()[mine.id] == theirs);
            self.without_last().mapping_determines_registry(other.without_last());
            assert(self.entries =~= self.entries.drop_last().push(mine));
            assert(other.entries =~= other.entries.drop_last().push(theirs));
        }
    }

    /// In a well-formed registry an id is found at one place only.
    pub proof fn lemma_index_of(self, id: usize, i: int)
        requires
            self.wf(),
            0 <= i < self.entries.len(),
            self.entries[i].id == id,
        ensures
            self.contains(id),
            self.index_of(id) == i,
    {
        let j = self.index_of(id);
        if j < i {
            assert(self.entries[j].id < self.entries[i].id);
        } else if i < j {
            assert(self.entries[i].id < self.entries[j].id);
        }
    }
}

} // verus!
