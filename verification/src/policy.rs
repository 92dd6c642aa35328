//! The restart and crash-loop policy: what to do about one entry, given what
//! was just observed of its process and of the path it watches.

use vstd::prelude::*;
use crate::registry::entry::{
    merge_children, merge_children_absorbs, merge_children_is_union, EntryModel, ProcessEntry,
    Status,
};

verus! {

/// What was observed for one entry at the start of a tick.
///
/// `pid` is the process that was looked at. `alive` is whether that process
/// exists, `children` its descendants, and `fingerprint` the fingerprint of
/// the content of the watched path; `None`, or no children, where the
/// observation could not be made or was not attempted.
#[derive(Debug, PartialEq, Eq)]
pub struct Probe {
    pub pid: i64,
    pub alive: Option<bool>,
    pub children: Vec<i64>,
    pub fingerprint: Option<String>,
}

/// Mathematical value of a [`Probe`].
pub struct ProbeModel {
    pub pid: i64,
    pub alive: Option<bool>,
    pub children: Seq<i64>,
    pub fingerprint: Option<Seq<char>>,
}

impl View for Probe {
    type V = ProbeModel;

    open spec fn view(&self) -> ProbeModel {
        ProbeModel {
            pid: self.pid,
            alive: self.alive,
            children: self.children@,
            fingerprint: match self.fingerprint {
                Some(text) => Some(text@),
                None => None,
            },
        }
    }
}

/// What the policy decides for one entry in one tick.
#[derive(Debug, Clone, Copy, PartialEq, Eq, Structural)]
pub enum Decision {
    /// Nothing to do: the entry is stopped on purpose, or alive as expected,
    /// or its liveness is not known.
    NoOp,
    /// The entry is recorded as not running but its process is alive: mark
    /// it running.
    SelfHeal,
    /// The watched content changed: restart, without counting a crash.
    HotReload,
    /// The process died unexpectedly: count the crash and restart.
    CrashRestart,
    /// The process died once more with the crash counter at the threshold:
    /// stop the entry for good.
    PermanentStop,
}

/// What the caller has to do to the process of an entry before a decision
/// is recorded.
#[derive(Debug, Clone, Copy, PartialEq, Eq, Structural)]
pub enum Action {
    /// Leave the process alone.
    Nothing,
    /// End what is left of the process and start it anew.
    Respawn,
    /// End the process and its children.
    Terminate,
}

impl ProbeModel {
    /// The probe was taken of the process that the entry records, and found
    /// it alive.
    pub open spec fn shows_alive(self, e: EntryModel) -> bool {
        self.pid == e.pid && self.alive == Some(true)
    }

    /// The probe was taken of the process that the entry records, and found
    /// it gone.
    pub open spec fn shows_dead(self, e: EntryModel) -> bool {
        self.pid == e.pid && self.alive == Some(false)
    }

    /// The entry watches a path, and the probe holds a fingerprint that
    /// differs from the recorded one.
    pub open spec fn shows_change(self, e: EntryModel) -> bool {
        e.watch.enabled && self.fingerprint is Some && self.fingerprint->0 != e.watch.hash
    }
}

/// The decision for an entry: the first rule that matches, in this order.
pub open spec fn decision(e: EntryModel, p: ProbeModel, restart_threshold: u64) -> Decision {
    if p.shows_change(e) {
        Decision::HotReload
    } else if !e.running && p.shows_alive(e) {
        Decision::SelfHeal
    } else if !e.running || !p.shows_dead(e) {
        Decision::NoOp
    } else if e.crash.value == restart_threshold {
        Decision::PermanentStop
    } else {
        Decision::CrashRestart
    }
}

/// What the caller does for a decision.
pub open spec fn action_for(d: Decision) -> Action {
    match d {
        Decision::HotReload | Decision::CrashRestart => Action::Respawn,
        Decision::PermanentStop => Action::Terminate,
        Decision::NoOp | Decision::SelfHeal => Action::Nothing,
    }
}

/// The entry with the children that the probe found merged in, if the probe
/// was taken of the process that the entry records.
pub open spec fn discovered(e: EntryModel, p: ProbeModel) -> EntryModel {
    if p.pid == e.pid {
        e.with_children(merge_children(e.children, p.children))
    } else {
        e
    }
}

/// The entry after one tick. Children are merged in first, whatever is
/// decided; the decision is taken on the entry as it was. `spawned` is the
/// pid of the new process and matters only where the decision restarts. An
/// entry that is stopped for good keeps its crash counter at the threshold,
/// so that only a restart by hand, which resets it, lets crashes be answered
/// with restarts again.
pub open spec fn step(e: EntryModel, p: ProbeModel, restart_threshold: u64, spawned: i64)
    -> EntryModel {
    let seen = discovered(e, p);
    match decision(e, p, restart_threshold) {
        Decision::NoOp => seen,
        Decision::SelfHeal => seen.with_status(Status::Running),
        Decision::HotReload => seen.restarted(spawned, false).with_hash(p.fingerprint->0),
        Decision::CrashRestart => seen.crash_counted().restarted(spawned, false),
        Decision::PermanentStop => seen.given_up(),
    }
}

/// Whether the tick can be recorded: where a crash is to be counted, the
/// counter has room for it.
pub open spec fn countable(e: EntryModel, p: ProbeModel, restart_threshold: u64) -> bool {
    decision(e, p, restart_threshold) == Decision::CrashRestart ==> e.crash.value < u64::MAX
}

impl Decision {
    /// What the caller has to do to the process before this decision is
    /// recorded.
    pub fn action(self) -> (action: Action)
        ensures
            action == action_for(self),
    {
        match self {
            Decision::HotReload | Decision::CrashRestart => Action::Respawn,
            Decision::PermanentStop => Action::Terminate,
            Decision::NoOp | Decision::SelfHeal => Action::Nothing,
        }
    }
}

/// Whether the probe holds a fingerprint that differs from the one the
/// entry records, for an entry that watches a path.
fn change_seen(entry: &ProcessEntry, probe: &Probe) -> (changed: bool)
    ensures
        changed == probe@.shows_change(entry@),
{
    if !entry.watch.enabled {
        return false;
    }
    match &probe.fingerprint {
        Some(fingerprint) => !(*fingerprint == entry.watch.hash),
        None => false,
    }
}

/// Decides what to do about an entry, without changing anything.
pub fn decide(entry: &ProcessEntry, probe: &Probe, restart_threshold: u64) -> (d: Decision)
    ensures
        d == decision(entry@, probe@, restart_threshold),
{
    let current = probe.pid == entry.pid;
    let alive = current && probe.alive == Some(true);
    let dead = current && probe.alive == Some(false);
    if change_seen(entry, probe) {
        Decision::HotReload
    } else if !entry.running && alive {
        Decision::SelfHeal
    } else if !entry.running || !dead {
        Decision::NoOp
    } else if entry.crash.value == restart_threshold {
        Decision::PermanentStop
    } else {
        Decision::CrashRestart
    }
}

impl ProcessEntry {
    /// Records one tick in the entry and returns what was decided. Where the
    /// decision restarts the process, `spawned` is the pid of the process
    /// that the caller started; otherwise it is ignored.
    pub fn advance(&mut self, probe: &Probe, restart_threshold: u64, spawned: i64) -> (d:
        Decision)
        requires
            countable(old(self)@, probe@, restart_threshold),
        ensures
            d == decision(old(self)@, probe@, restart_threshold),
            final(self)@ == step(old(self)@, probe@, restart_threshold, spawned),
    {
        let d = decide(self, probe, restart_threshold);
        if probe.pid == self.pid {
            self.merge_children(&probe.children);
        }
        match d {
            Decision::NoOp => {},
            Decision::SelfHeal => {
                self.set_status(Status::Running);
            },
            Decision::HotReload => {
                self.restart(spawned, false);
                match &probe.fingerprint {
                    Some(fingerprint) => {
                        self.watch.hash = fingerprint.clone();
                    },
                    None => {},
                }
            },
            Decision::CrashRestart => {
                self.crash.value = self.crash.value + 1;
                self.restart(spawned, false);
            },
            Decision::PermanentStop => {
                self.give_up();
            },
        }
        d
    }
}

/// What one tick brings for an entry: the probe, and the pid of the process
/// that was started where the tick restarts.
pub struct TickModel {
    pub probe: ProbeModel,
    pub spawned: i64,
}

/// The entry after a run of ticks, the first of them first.
pub open spec fn replay(e: EntryModel, ticks: Seq<TickModel>, restart_threshold: u64)
    -> EntryModel
    decreases ticks.len(),
{
    if ticks.len() == 0 {
        e
    } else {
        replay(
            step(e, ticks[0].probe, restart_threshold, ticks[0].spawned),
            ticks.drop_first(),
            restart_threshold,
        )
    }
}

/// How many ticks of a run restart the process.
pub open spec fn respawns(e: EntryModel, ticks: Seq<TickModel>, restart_threshold: u64) -> nat
    decreases ticks.len(),
{
    if ticks.len() == 0 {
        0
    } else {
        let first: nat = if action_for(decision(e, ticks[0].probe, restart_threshold))
            == Action::Respawn {
            1
        } else {
            0
        };
        first + respawns(
            step(e, ticks[0].probe, restart_threshold, ticks[0].spawned),
            ticks.drop_first(),
            restart_threshold,
        )
    }
}

/// How many ticks of a run reload the entry.
pub open spec fn reloads(e: EntryModel, ticks: Seq<TickModel>, restart_threshold: u64) -> nat
    decreases ticks.len(),
{
    if ticks.len() == 0 {
        0
    } else {
        let first: nat = if decision(e, ticks[0].probe, restart_threshold)
            == Decision::HotReload {
            1
        } else {
            0
        };
        first + reloads(
            step(e, ticks[0].probe, restart_threshold, ticks[0].spawned),
            ticks.drop_first(),
            restart_threshold,
        )
    }
}

/// How often a run of fingerprints changes, counted from `recorded`.
pub open spec fn changes(recorded: Seq<char>, prints: Seq<Seq<char>>) -> nat
    decreases prints.len(),
{
    if prints.len() == 0 {
        0
    } else {
        let first: nat = if prints[0] != recorded {
            1
        } else {
            0
        };
        first + changes(prints[0], prints.drop_first())
    }
}

/// The entry was stopped for good: it does not run, it is labelled stopped,
/// it carries the crashed mark, and its crash counter stands at the
/// threshold.
pub open spec fn stopped_for_good(e: EntryModel, restart_threshold: u64) -> bool {
    !e.running && e.status == Status::Stopped && e.crash.crashed && e.crash.value
        == restart_threshold
}

/// The probe gives no reason to touch a stopped entry: it shows neither a
/// change of the watched content nor a live process.
pub open spec fn quiet(p: ProbeModel, e: EntryModel) -> bool {
    !p.shows_change(e) && !p.shows_alive(e)
}

/// The probe finds a running entry at rest: it was taken of the process
/// that the entry records and found it alive, it shows no change of the
/// watched content, and it brings no child that is not recorded.
pub open spec fn calm(p: ProbeModel, e: EntryModel) -> bool {
    &&& p.shows_alive(e)
    &&& !p.shows_change(e)
    &&& forall|child: i64| p.children.contains(child) ==> e.children.contains(child)
}

/// A tick never touches what identifies an entry, restarts exactly where
/// the decision says so, and leaves a counter that was within the threshold
/// within it.
pub proof fn step_keeps_identity(e: EntryModel, p: ProbeModel, restart_threshold: u64, spawned: i64)
    ensures
        step(e, p, restart_threshold, spawned).id == e.id,
        step(e, p, restart_threshold, spawned).name == e.name,
        step(e, p, restart_threshold, spawned).script == e.script,
        step(e, p, restart_threshold, spawned).path == e.path,
        step(e, p, restart_threshold, spawned).watch.enabled == e.watch.enabled,
        step(e, p, restart_threshold, spawned).watch.path == e.watch.path,
        action_for(decision(e, p, restart_threshold)) == Action::Respawn ==> step(
            e,
            p,
            restart_threshold,
            spawned,
        ).pid == spawned,
        action_for(decision(e, p, restart_threshold)) != Action::Respawn ==> step(
            e,
            p,
            restart_threshold,
            spawned,
        ).pid == e.pid,
        e.crash.value <= restart_threshold ==> step(e, p, restart_threshold, spawned).crash.value
            <= restart_threshold,
        e.coherent() ==> step(e, p, restart_threshold, spawned).coherent(),
{
}

/// The recorded fingerprint changes only where a tick reloads, and then to
/// the fingerprint that the probe holds.
pub proof fn hash_changes_only_on_reload(
    e: EntryModel,
    p: ProbeModel,
    restart_threshold: u64,
    spawned: i64,
)
    ensures
        decision(e, p, restart_threshold) != Decision::HotReload ==> step(
            e,
            p,
            restart_threshold,
            spawned,
        ).watch.hash == e.watch.hash,
        decision(e, p, restart_threshold) == Decision::HotReload ==> p.shows_change(e) && Some(
            step(e, p, restart_threshold, spawned).watch.hash,
        ) == p.fingerprint,
{
}

/// Probing alone never loses a child: where a tick neither restarts nor
/// stops the entry, the children recorded before are still recorded, in
/// place.
pub proof fn children_only_grow(e: EntryModel, p: ProbeModel, restart_threshold: u64, spawned: i64)
    requires
        action_for(decision(e, p, restart_threshold)) == Action::Nothing,
    ensures
        e.children.is_prefix_of(step(e, p, restart_threshold, spawned).children),
{
    merge_children_is_union(e.children, p.children);
}

/// For an entry that watches nothing, the content of the watched path is
/// without effect: whatever fingerprint the probe holds, the decision and
/// the entry after the tick are the same, no reload is decided, and the
/// watch settings stay as they are.
pub proof fn unwatched_ignores_fingerprint(
    e: EntryModel,
    p: ProbeModel,
    other: Option<Seq<char>>,
    restart_threshold: u64,
    spawned: i64,
)
    requires
        !e.watch.enabled,
    ensures
        decision(e, p, restart_threshold) == decision(
            e,
            (ProbeModel { fingerprint: other, ..p }),
            restart_threshold,
        ),
        step(e, p, restart_threshold, spawned) == step(
            e,
            (ProbeModel { fingerprint: other, ..p }),
            restart_threshold,
            spawned,
        ),
        decision(e, p, restart_threshold) != Decision::HotReload,
        step(e, p, restart_threshold, spawned).watch == e.watch,
{
}

/// An unexpected death below the threshold is counted once and answered
/// with a restart: the counter goes up by one, the entry runs under the new
/// pid, and it is not stopped. A status that agreed with the running flag
/// is left as it was.
pub proof fn crash_is_counted_once(
    e: EntryModel,
    p: ProbeModel,
    restart_threshold: u64,
    spawned: i64,
)
    requires
        e.running,
        p.shows_dead(e),
        !p.shows_change(e),
        e.crash.value != restart_threshold,
        e.crash.value < u64::MAX,
    ensures
        decision(e, p, restart_threshold) == Decision::CrashRestart,
        action_for(decision(e, p, restart_threshold)) == Action::Respawn,
        step(e, p, restart_threshold, spawned).crash.value == e.crash.value + 1,
        step(e, p, restart_threshold, spawned).pid == spawned,
        step(e, p, restart_threshold, spawned).running,
        step(e, p, restart_threshold, spawned).status != Status::Stopped,
        e.coherent() ==> step(e, p, restart_threshold, spawned).status == e.status,
{
}

/// An entry that runs after a tick has something to show for it: the probe
/// of its process found it alive, or the tick started it anew and it was
/// not probed since.
pub proof fn running_is_backed(e: EntryModel, p: ProbeModel, restart_threshold: u64, spawned: i64)
    requires
        p.pid == e.pid,
        p.alive is Some,
        step(e, p, restart_threshold, spawned).running,
    ensures
        p.shows_alive(e) || action_for(decision(e, p, restart_threshold)) == Action::Respawn,
{
    assert(p.alive == Some(true) || p.alive == Some(false));
}

/// A probe that was taken of another process than the one the entry
/// records says nothing about the entry's process: unless it shows a change
/// of the watched content, the tick leaves the entry as it is. After a
/// restart, what was observed of the old process counts no further crash.
pub proof fn stale_probe_is_ignored(e: EntryModel, p: ProbeModel, restart_threshold: u64, spawned: i64)
    requires
        p.pid != e.pid,
        !p.shows_change(e),
    ensures
        decision(e, p, restart_threshold) == Decision::NoOp,
        step(e, p, restart_threshold, spawned) == e,
{
}

/// Once the crash counter stands at the threshold, the next unexpected
/// death stops the entry for good instead of restarting it: the process is
/// to be ended, not started, the entry keeps its pid, and the counter stays
/// at the threshold.
pub proof fn exhausted_entry_is_stopped(
    e: EntryModel,
    p: ProbeModel,
    restart_threshold: u64,
    spawned: i64,
)
    requires
        e.running,
        e.crash.value == restart_threshold,
        p.shows_dead(e),
        !p.shows_change(e),
    ensures
        decision(e, p, restart_threshold) == Decision::PermanentStop,
        action_for(decision(e, p, restart_threshold)) == Action::Terminate,
        stopped_for_good(step(e, p, restart_threshold, spawned), restart_threshold),
        step(e, p, restart_threshold, spawned).crash.value == restart_threshold,
        step(e, p, restart_threshold, spawned).pid == e.pid,
{
}

/// Once the crash counter stands at the threshold, no tick restarts the
/// entry on account of a crash, whatever is observed of its process: over
/// any run of ticks that show no change of the watched content, nothing is
/// restarted and the counter stays at the threshold. Only a restart by
/// hand, which resets the counter, ends this.
pub proof fn exhausted_entry_is_never_restarted(
    e: EntryModel,
    ticks: Seq<TickModel>,
    restart_threshold: u64,
)
    requires
        e.crash.value == restart_threshold,
        forall|k: int| 0 <= k < ticks.len() ==> !(#[trigger] ticks[k]).probe.shows_change(e),
    ensures
        respawns(e, ticks, restart_threshold) == 0,
        replay(e, ticks, restart_threshold).crash.value == restart_threshold,
        forall|k: int|
            0 <= k <= ticks.len() ==> (#[trigger] replay(
                e,
                ticks.take(k),
                restart_threshold,
            )).crash.value == restart_threshold,
    decreases ticks.len(),
{
    assert(ticks.take(0).len() == 0);
    if ticks.len() > 0 {
        let first = ticks[0];
        let rest = ticks.drop_first();
        let next = step(e, first.probe, restart_threshold, first.spawned);
        assert(!first.probe.shows_change(e));
        assert forall|k: int| 0 <= k < rest.len() implies !(#[trigger] rest[k]).probe.shows_change(
            next,
        ) by {
            assert(!ticks[k + 1].probe.shows_change(e));
        }
        exhausted_entry_is_never_restarted(next, rest, restart_threshold);
        assert forall|k: int| 0 <= k <= ticks.len() implies (#[trigger] replay(
            e,
            ticks.take(k),
            restart_threshold,
        )).crash.value == restart_threshold by {
            if k > 0 {
                assert(ticks.take(k)[0] == first);
                assert(ticks.take(k).drop_first() == rest.take(k - 1));
                assert(replay(next, rest.take(k - 1), restart_threshold).crash.value
                    == restart_threshold);
            }
        }
    }
}

/// An entry that was stopped for good stays so: over any run of ticks whose
/// probes show neither a change of the watched content nor a live process,
/// nothing is restarted and the entry stays as it is, after every tick of
/// the run.
pub proof fn stopped_for_good_stays(e: EntryModel, ticks: Seq<TickModel>, restart_threshold: u64)
    requires
        stopped_for_good(e, restart_threshold),
        forall|k: int| 0 <= k < ticks.len() ==> quiet(#[trigger] ticks[k].probe, e),
    ensures
        stopped_for_good(replay(e, ticks, restart_threshold), restart_threshold),
        respawns(e, ticks, restart_threshold) == 0,
        forall|k: int|
            0 <= k <= ticks.len() ==> stopped_for_good(
                #[trigger] replay(e, ticks.take(k), restart_threshold),
                restart_threshold,
            ),
    decreases ticks.len(),
{
    assert(ticks.take(0).len() == 0);
    if ticks.len() > 0 {
        let first = ticks[0];
        let rest = ticks.drop_first();
        let next = step(e, first.probe, restart_threshold, first.spawned);
        assert(quiet(first.probe, e));
        assert(decision(e, first.probe, restart_threshold) == Decision::NoOp);
        assert forall|k: int| 0 <= k < rest.len() implies quiet(#[trigger] rest[k].probe, next) by {
            assert(quiet(ticks[k + 1].probe, e));
        }
        stopped_for_good_stays(next, rest, restart_threshold);
        assert forall|k: int| 0 <= k <= ticks.len() implies stopped_for_good(
            #[trigger] replay(e, ticks.take(k), restart_threshold),
            restart_threshold,
        ) by {
            if k > 0 {
                assert(ticks.take(k)[0] == first);
                assert(ticks.take(k).drop_first() == rest.take(k - 1));
                assert(stopped_for_good(
                    replay(next, rest.take(k - 1), restart_threshold),
                    restart_threshold,
                ));
            }
        }
    }
}

/// A running entry at rest stays at rest: any number of ticks whose probes
/// find it calm leave it as it is and restart nothing.
pub proof fn calm_entry_rests(e: EntryModel, ticks: Seq<TickModel>, restart_threshold: u64)
    requires
        e.running,
        forall|k: int| 0 <= k < ticks.len() ==> calm(#[trigger] ticks[k].probe, e),
    ensures
        replay(e, ticks, restart_threshold) == e,
        respawns(e, ticks, restart_threshold) == 0,
    decreases ticks.len(),
{
    if ticks.len() > 0 {
        let p = ticks[0].probe;
        assert(calm(p, e));
        merge_children_absorbs(e.children, p.children);
        let next = step(e, p, restart_threshold, ticks[0].spawned);
        assert(next.children == e.children);
        assert(next == e);
        let rest = ticks.drop_first();
        assert forall|k: int| 0 <= k < rest.len() implies calm(#[trigger] rest[k].probe, e) by {
            assert(calm(ticks[k + 1].probe, e));
        }
        calm_entry_rests(e, rest, restart_threshold);
    }
}

/// Stale bookkeeping heals in one tick and then rests. An entry recorded as
/// not running whose process is alive is running after the tick: marked so
/// where nothing else is due, started anew where the watched content
/// changed. Any number of further ticks that find it calm leave it as the
/// first tick left it and restart nothing. Where the first tick did not
/// reload, the probe of the first tick is such a probe.
pub proof fn self_heal_settles(
    e: EntryModel,
    p: ProbeModel,
    restart_threshold: u64,
    spawned: i64,
    ticks: Seq<TickModel>,
)
    requires
        !e.running,
        p.shows_alive(e),
        forall|k: int|
            0 <= k < ticks.len() ==> calm(
                #[trigger] ticks[k].probe,
                step(e, p, restart_threshold, spawned),
            ),
    ensures
        decision(e, p, restart_threshold) == if p.shows_change(e) {
            Decision::HotReload
        } else {
            Decision::SelfHeal
        },
        step(e, p, restart_threshold, spawned).running,
        step(e, p, restart_threshold, spawned).status == Status::Running,
        step(e, p, restart_threshold, spawned).crash.value == e.crash.value,
        replay(step(e, p, restart_threshold, spawned), ticks, restart_threshold) == step(
            e,
            p,
            restart_threshold,
            spawned,
        ),
        respawns(step(e, p, restart_threshold, spawned), ticks, restart_threshold) == 0,
        !p.shows_change(e) ==> calm(p, step(e, p, restart_threshold, spawned)),
{
    let healed = step(e, p, restart_threshold, spawned);
    calm_entry_rests(healed, ticks, restart_threshold);
    if !p.shows_change(e) {
        merge_children_is_union(e.children, p.children);
    }
}

/// For an entry that watches a path, a tick reloads exactly if the probe's
/// fingerprint differs from the recorded one, and afterwards the recorded
/// one is the probe's.
pub proof fn reload_follows_fingerprint(
    e: EntryModel,
    p: ProbeModel,
    restart_threshold: u64,
    spawned: i64,
)
    requires
        e.watch.enabled,
        p.fingerprint is Some,
    ensures
        decision(e, p, restart_threshold) == Decision::HotReload <==> p.fingerprint->0
            != e.watch.hash,
        step(e, p, restart_threshold, spawned).watch.hash == p.fingerprint->0,
        step(e, p, restart_threshold, spawned).watch.enabled,
{
}

/// Over a run of ticks that each bring a fingerprint, an entry that watches
/// a path is reloaded once for each change of the fingerprint, counted from
/// the recorded one: a fingerprint that repeats reloads nothing.
pub proof fn one_reload_per_change(e: EntryModel, ticks: Seq<TickModel>, restart_threshold: u64)
    requires
        e.watch.enabled,
        forall|k: int| 0 <= k < ticks.len() ==> (#[trigger] ticks[k]).probe.fingerprint is Some,
    ensures
        reloads(e, ticks, restart_threshold) == changes(
            e.watch.hash,
            ticks.map_values(|t: TickModel| t.probe.fingerprint->0),
        ),
    decreases ticks.len(),
{
    let prints = ticks.map_values(|t: TickModel| t.probe.fingerprint->0);
    if ticks.len() > 0 {
        let first = ticks[0];
        let rest = ticks.drop_first();
        let next = step(e, first.probe, restart_threshold, first.spawned);
        reload_follows_fingerprint(e, first.probe, restart_threshold, first.spawned);
        assert forall|k: int| 0 <= k < rest.len() implies (
        #[trigger] rest[k]).probe.fingerprint is Some by {
            assert(ticks[k + 1].probe.fingerprint is Some);
        }
        one_reload_per_change(next, rest, restart_threshold);
        assert(prints.drop_first() == rest.map_values(|t: TickModel| t.probe.fingerprint->0));
        assert(prints[0] == first.probe.fingerprint->0);
    }
}

} // verus!
