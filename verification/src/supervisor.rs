//! One tick of the supervisor: a pass over the registry in two phases.
//!
//! The caller first observes the processes and asks [`plan`] what has to be
//! done about each of them. It then does that, and hands the observations,
//! with the pids of the processes it started, to [`tick`], which records
//! the outcome in the registry.

use vstd::prelude::*;
use crate::policy::{action_for, discovered, step, Action, Decision, Probe, ProbeModel};
use crate::registry::store::{Registry, RegistryModel};

verus! {

/// What was observed for the entry with id `id`, and the pid of the process
/// that the caller started for it where the plan asked for one.
#[derive(Debug, PartialEq, Eq)]
pub struct Observation {
    pub id: usize,
    pub probe: Probe,
    pub spawned: i64,
}

/// Mathematical value of an [`Observation`].
pub struct ObservationModel {
    pub id: usize,
    pub probe: ProbeModel,
    pub spawned: i64,
}

impl View for Observation {
    type V = ObservationModel;

    open spec fn view(&self) -> ObservationModel {
        ObservationModel { id: self.id, probe: self.probe@, spawned: self.spawned }
    }
}

/// The values of a list of observations, in the same order.
pub open spec fn observed(list: Seq<Observation>) -> Seq<ObservationModel> {
    Seq::new(list.len(), |i: int| list[i]@)
}

/// What the caller has to do for one observation: the processes to end, in
/// this order, and then what to do about the process of the entry.
#[derive(Debug, PartialEq, Eq)]
pub struct Task {
    pub end: Vec<i64>,
    pub action: Action,
}

/// Mathematical value of a [`Task`].
pub struct TaskModel {
    pub end: Seq<i64>,
    pub action: Action,
}

impl View for Task {
    type V = TaskModel;

    open spec fn view(&self) -> TaskModel {
        TaskModel { end: self.end@, action: self.action }
    }
}

/// What the caller has to do about the process of the observed entry.
pub open spec fn planned(r: RegistryModel, o: ObservationModel, restart_threshold: u64)
    -> Action {
    match r.outcome(o.id, o.probe, restart_threshold) {
        Some(d) => action_for(d),
        None => Action::Nothing,
    }
}

/// The task for one observation. Where the process is to be started anew or
/// ended for good, its children go first, the recorded ones and those just
/// observed, and the process itself last.
pub open spec fn task_for(r: RegistryModel, o: ObservationModel, restart_threshold: u64)
    -> TaskModel {
    let action = planned(r, o, restart_threshold);
    TaskModel {
        end: if action == Action::Nothing {
            Seq::empty()
        } else {
            discovered(r.entry(o.id), o.probe).children.push(r.entry(o.id).pid)
        },
        action,
    }
}

/// The registry after the observations were recorded one after the other.
pub open spec fn ticked(r: RegistryModel, seen: Seq<ObservationModel>, restart_threshold: u64)
    -> RegistryModel
    decreases seen.len(),
{
    if seen.len() == 0 {
        r
    } else {
        ticked(
            r.advanced(seen[0].id, seen[0].probe, restart_threshold, seen[0].spawned),
            seen.drop_first(),
            restart_threshold,
        )
    }
}

/// What was decided for each observation as it was recorded.
pub open spec fn outcomes(r: RegistryModel, seen: Seq<ObservationModel>, restart_threshold: u64)
    -> Seq<Option<Decision>>
    decreases seen.len(),
{
    if seen.len() == 0 {
        Seq::empty()
    } else {
        seq![r.outcome(seen[0].id, seen[0].probe, restart_threshold)] + outcomes(
            r.advanced(seen[0].id, seen[0].probe, restart_threshold, seen[0].spawned),
            seen.drop_first(),
            restart_threshold,
        )
    }
}

/// The task for one observation.
fn task(registry: &Registry, seen: &Observation, restart_threshold: u64) -> (task: Task)
    requires
        registry.wf(),
    ensures
        task@ == task_for(registry@, seen@, restart_threshold),
{
    let action = match registry.preview(seen.id, &seen.probe, restart_threshold) {
        Some(d) => d.action(),
        None => Action::Nothing,
    };
    let mut end: Vec<i64> = Vec::new();
    if action != Action::Nothing {
        if let Some(entry) = registry.get(seen.id) {
            let mut copy = entry.clone();
            if seen.probe.pid == entry.pid {
                copy.merge_children(&seen.probe.children);
            }
            end = copy.children;
            end.push(entry.pid);
        }
    }
    Task { end, action }
}

/// First phase of a tick: what the caller has to do for each observation.
/// Nothing changes; `spawned` is not looked at.
pub fn plan(registry: &Registry, seen: &Vec<Observation>, restart_threshold: u64) -> (tasks: Vec<
    Task,
>)
    requires
        registry.wf(),
    ensures
        tasks@.len() == seen@.len(),
        forall|i: int|
            0 <= i < seen@.len() ==> tasks@[i]@ == task_for(
                registry@,
                seen@[i]@,
                restart_threshold,
            ),
{
    let mut tasks: Vec<Task> = Vec::new();
    let mut i: usize = 0;
    while i < seen.len()
        invariant
            registry.wf(),
            i <= seen.len(),
            tasks@.len() == i,
            forall|k: int|
                0 <= k < i ==> tasks@[k]@ == task_for(registry@, seen@[k]@, restart_threshold),
        decreases seen.len() - i,
    {
        tasks.push(task(registry, &seen[i], restart_threshold));
        i += 1;
    }
    tasks
}

/// Second phase of a tick: records the observations in the registry, one
/// after the other, and returns what was decided for each. An observation
/// for an id that the registry does not hold changes nothing.
pub fn tick(registry: &mut Registry, seen: &Vec<Observation>, restart_threshold: u64) -> (decided:
    Vec<Option<Decision>>)
    requires
        old(registry).wf(),
    ensures
        final(registry).wf(),
        final(registry)@ == ticked(old(registry)@, observed(seen@), restart_threshold),
        decided@ == outcomes(old(registry)@, observed(seen@), restart_threshold),
{
    let mut decided: Vec<Option<Decision>> = Vec::new();
    let mut i: usize = 0;
    assert(observed(seen@).skip(0) == observed(seen@));
    while i < seen.len()
        invariant
            registry.wf(),
            i <= seen.len(),
            ticked(old(registry)@, observed(seen@), restart_threshold) == ticked(
                registry@,
                observed(seen@).skip(i as int),
                restart_threshold,
            ),
            outcomes(old(registry)@, observed(seen@), restart_threshold) == decided@ + outcomes(
                registry@,
                observed(seen@).skip(i as int),
                restart_threshold,
            ),
        decreases seen.len() - i,
    {
        proof {
            let rest = observed(seen@).skip(i as int);
            assert(rest[0] == seen@[i as int]@);
            assert(rest.drop_first() == observed(seen@).skip(i + 1));
        }
        let d = registry.advance(seen[i].id, &seen[i].probe, restart_threshold, seen[i].spawned);
        decided.push(d);
        i += 1;
    }
    decided
}

/// No two observations are for the same id.
pub open spec fn distinct_ids(seen: Seq<ObservationModel>) -> bool {
    forall|a: int, b: int| 0 <= a < b < seen.len() ==> seen[a].id != seen[b].id
}

/// Whether some observation is for this id.
pub open spec fn observes(seen: Seq<ObservationModel>, id: usize) -> bool {
    exists|k: int| 0 <= k < seen.len() && seen[k].id == id
}

/// Recording one observation keeps the listing in shape: the same ids at
/// the same places under the same id counter. Only the entry with the
/// observed id can change, and it changes by one step of the policy.
pub proof fn advance_keeps_shape(r: RegistryModel, o: ObservationModel, restart_threshold: u64)
    ensures
        ({
            let after = r.advanced(o.id, o.probe, restart_threshold, o.spawned);
            &&& after.next_id == r.next_id
            &&& after.entries.len() == r.entries.len()
            &&& forall|i: int|
                0 <= i < r.entries.len() ==> (#[trigger] after.entries[i]).id == r.entries[i].id
            &&& forall|i: int|
                0 <= i < r.entries.len() && r.entries[i].id != o.id ==> #[trigger] after.entries[i]
                    == r.entries[i]
            &&& forall|i: int|
                0 <= i < r.entries.len() && r.entries[i].id == o.id ==> #[trigger] after.entries[i]
                    == if r.outcome(o.id, o.probe, restart_threshold) is Some {
                    step(r.entries[i], o.probe, restart_threshold, o.spawned)
                } else {
                    r.entries[i]
                }
            &&& r.wf() ==> after.wf()
        }),
{
}

/// A tick keeps the listing in shape: it adds and removes nothing, keeps
/// every id at its place, keeps the id counter, and leaves the entries that
/// were not observed as they were. In particular it leaves an empty
/// registry empty.
pub proof fn tick_keeps_shape(r: RegistryModel, seen: Seq<ObservationModel>, restart_threshold: u64)
    ensures
        ticked(r, seen, restart_threshold).next_id == r.next_id,
        ticked(r, seen, restart_threshold).entries.len() == r.entries.len(),
        forall|i: int|
            0 <= i < r.entries.len() ==> (#[trigger] ticked(
                r,
                seen,
                restart_threshold,
            ).entries[i]).id == r.entries[i].id,
        forall|i: int|
            0 <= i < r.entries.len() && !observes(seen, r.entries[i].id) ==> #[trigger] ticked(
                r,
                seen,
                restart_threshold,
            ).entries[i] == r.entries[i],
        r.wf() ==> ticked(r, seen, restart_threshold).wf(),
    decreases seen.len(),
{
    if seen.len() > 0 {
        let next = r.advanced(seen[0].id, seen[0].probe, restart_threshold, seen[0].spawned);
        let rest = seen.drop_first();
        advance_keeps_shape(r, seen[0], restart_threshold);
        tick_keeps_shape(next, rest, restart_threshold);
        let last = ticked(r, seen, restart_threshold);
        assert forall|i: int|
            0 <= i < r.entries.len() && !observes(seen, r.entries[i].id) implies #[trigger] last.entries[i]
            == r.entries[i] by {
            assert(next.entries[i].id == r.entries[i].id);
            if observes(rest, next.entries[i].id) {
                let k = choose|k: int| 0 <= k < rest.len() && rest[k].id == next.entries[i].id;
                assert(seen[k + 1].id == r.entries[i].id);
            }
            assert(seen[0].id != r.entries[i].id);
        }
        assert forall|i: int| 0 <= i < r.entries.len() implies (#[trigger] last.entries[i]).id
            == r.entries[i].id by {
            assert(next.entries[i].id == r.entries[i].id);
        }
    }
}

/// Where no two observations are for the same id, a tick is one step of the
/// policy for each observed entry, taken on the entry as it was before the
/// tick: what is decided while recording is what the plan was made from.
pub proof fn tick_steps_each_entry(
    r: RegistryModel,
    seen: Seq<ObservationModel>,
    restart_threshold: u64,
)
    requires
        r.wf(),
        distinct_ids(seen),
    ensures
        outcomes(r, seen, restart_threshold).len() == seen.len(),
        forall|k: int|
            0 <= k < seen.len() ==> #[trigger] outcomes(r, seen, restart_threshold)[k]
                == r.outcome(seen[k].id, seen[k].probe, restart_threshold),
        forall|i: int, k: int|
            0 <= i < r.entries.len() && 0 <= k < seen.len() && seen[k].id == r.entries[i].id
                ==> #[trigger] ticked(r, seen, restart_threshold).entries[i] == if r.outcome(
                (#[trigger] seen[k]).id,
                seen[k].probe,
                restart_threshold,
            ) is Some {
                step(r.entries[i], seen[k].probe, restart_threshold, seen[k].spawned)
            } else {
                r.entries[i]
            },
    decreases seen.len(),
{
    if seen.len() > 0 {
        let first = seen[0];
        let next = r.advanced(first.id, first.probe, restart_threshold, first.spawned);
        let rest = seen.drop_first();
        advance_keeps_shape(r, first, restart_threshold);
        assert(distinct_ids(rest)) by {
            assert forall|a: int, b: int| 0 <= a < b < rest.len() implies rest[a].id
                != rest[b].id by {
                assert(seen[a + 1].id != seen[b + 1].id);
            }
        }
        tick_steps_each_entry(next, rest, restart_threshold);
        tick_keeps_shape(next, rest, restart_threshold);
        let last = ticked(r, seen, restart_threshold);
        let all = outcomes(r, seen, restart_threshold);
        assert forall|k: int| 0 <= k < seen.len() implies #[trigger] all[k] == r.outcome(
            seen[k].id,
            seen[k].probe,
            restart_threshold,
        ) by {
            if k > 0 {
                assert(all[k] == outcomes(next, rest, restart_threshold)[k - 1]);
                assert(rest[k - 1] == seen[k]);
                assert(seen[0].id != seen[k].id);
                outcome_elsewhere(r, first, restart_threshold, seen[k].id, seen[k].probe);
            }
        }
        assert forall|i: int, k: int|
            0 <= i < r.entries.len() && 0 <= k < seen.len() && seen[k].id
                == r.entries[i].id implies #[trigger] last.entries[i] == if r.outcome(
            (#[trigger] seen[k]).id,
            seen[k].probe,
            restart_threshold,
        ) is Some {
            step(r.entries[i], seen[k].probe, restart_threshold, seen[k].spawned)
        } else {
            r.entries[i]
        } by {
            if k == 0 {
                assert(!observes(rest, next.entries[i].id)) by {
                    if observes(rest, next.entries[i].id) {
                        let j = choose|j: int| 0 <= j < rest.len() && rest[j].id == next.entries[i].id;
                        assert(seen[j + 1].id == seen[0].id);
                    }
                }
            } else {
                assert(rest[k - 1] == seen[k]);
                assert(seen[0].id != seen[k].id);
                assert(next.entries[i] == r.entries[i]);
                outcome_elsewhere(r, first, restart_threshold, seen[k].id, seen[k].probe);
            }
        }
    }
}

/// Recording an observation for one id does not change what is decided for
/// another.
proof fn outcome_elsewhere(
    r: RegistryModel,
    o: ObservationModel,
    restart_threshold: u64,
    id: usize,
    p: ProbeModel,
)
    requires
        r.wf(),
        id != o.id,
    ensures
        r.advanced(o.id, o.probe, restart_threshold, o.spawned).outcome(id, p, restart_threshold)
            == r.outcome(id, p, restart_threshold),
{
    let after = r.advanced(o.id, o.probe, restart_threshold, o.spawned);
    advance_keeps_shape(r, o, restart_threshold);
    if r.contains(id) {
        let i = r.index_of(id);
        assert(after.entries[i].id == id);
        after.lemma_index_of(id, i);
    } else if after.contains(id) {
        let i = after.index_of(id);
        assert(r.entries[i].id == id);
    }
}

} // verus!
