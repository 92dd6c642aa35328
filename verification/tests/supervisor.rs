use pmc::policy::{Action, Decision, Probe};
use pmc::registry::entry::{Crash, ProcessEntry, Status, Watch};
use pmc::registry::store::Registry;
use pmc::supervisor::{plan, tick, Observation, Task};

fn entry(pid: i64, running: bool, crashes: u64) -> ProcessEntry {
    ProcessEntry {
        id: 0,
        name: "job".to_string(),
        script: "node server.js".to_string(),
        pid,
        children: vec![],
        path: "/srv/app".to_string(),
        running,
        status: if running { Status::Running } else { Status::Stopped },
        crash: Crash { crashed: false, value: crashes },
        watch: Watch { enabled: true, path: "src".to_string(), hash: "h0".to_string() },
    }
}

fn seen(id: usize, pid: i64, alive: bool, fingerprint: &str, spawned: i64) -> Observation {
    Observation {
        id,
        probe: Probe {
            pid,
            alive: Some(alive),
            children: vec![],
            fingerprint: Some(fingerprint.to_string()),
        },
        spawned,
    }
}

fn four_entries() -> Registry {
    let mut registry = Registry::new();
    registry.add(entry(10, true, 0));
    registry.add(entry(11, true, 3));
    registry.add(entry(12, false, 0));
    registry.add(entry(13, true, 1));
    registry
}

fn actions(tasks: &[Task]) -> Vec<Action> {
    tasks.iter().map(|task| task.action).collect()
}

#[test]
fn plan_says_what_to_do_for_each_observation() {
    let registry = four_entries();
    let observations = vec![
        seen(0, 10, true, "h1", 0),
        seen(1, 11, false, "h0", 0),
        seen(2, 12, true, "h0", 0),
        seen(3, 13, false, "h0", 0),
        seen(9, 10, false, "h1", 0),
    ];
    let before = registry.items();
    assert_eq!(
        plan(&registry, &observations, 3),
        vec![
            Task { end: vec![10], action: Action::Respawn },
            Task { end: vec![11], action: Action::Terminate },
            Task { end: vec![], action: Action::Nothing },
            Task { end: vec![13], action: Action::Respawn },
            Task { end: vec![], action: Action::Nothing },
        ]
    );
    assert_eq!(registry.items(), before);
}

#[test]
fn plan_ends_the_children_before_the_process() {
    let mut registry = Registry::new();
    let mut parent = entry(10, true, 3);
    parent.children = vec![21, 22];
    registry.add(parent);
    let mut observation = seen(0, 10, false, "h0", 0);
    observation.probe.children = vec![22, 23];
    assert_eq!(
        plan(&registry, &vec![observation], 3),
        vec![Task { end: vec![21, 22, 23, 10], action: Action::Terminate }]
    );
    let mut stale = seen(0, 9, false, "h1", 0);
    stale.probe.children = vec![30];
    assert_eq!(
        plan(&registry, &vec![stale], 3),
        vec![Task { end: vec![21, 22, 10], action: Action::Respawn }]
    );
    let mut alive = seen(0, 10, true, "h0", 0);
    alive.probe.children = vec![23];
    assert_eq!(
        plan(&registry, &vec![alive], 3),
        vec![Task { end: vec![], action: Action::Nothing }]
    );
}

#[test]
fn tick_records_one_step_for_each_observed_entry() {
    let mut registry = four_entries();
    let observations = vec![
        seen(0, 10, true, "h1", 100),
        seen(1, 11, false, "h0", 101),
        seen(2, 12, true, "h0", 102),
        seen(3, 13, false, "h0", 103),
    ];
    let decided = tick(&mut registry, &observations, 3);
    assert_eq!(
        decided,
        vec![
            Some(Decision::HotReload),
            Some(Decision::PermanentStop),
            Some(Decision::SelfHeal),
            Some(Decision::CrashRestart)
        ]
    );
    let reloaded = registry.get(0).unwrap();
    assert_eq!((reloaded.pid, reloaded.watch.hash.as_str()), (100, "h1"));
    let stopped = registry.get(1).unwrap();
    assert_eq!((stopped.status, stopped.running, stopped.crash.crashed), (Status::Stopped, false, true));
    assert_eq!(stopped.pid, 11);
    let healed = registry.get(2).unwrap();
    assert_eq!((healed.status, healed.running, healed.pid), (Status::Running, true, 12));
    let restarted = registry.get(3).unwrap();
    assert_eq!((restarted.pid, restarted.crash.value), (103, 2));
    assert_eq!(registry.next_id(), 4);
    assert_eq!(registry.count(), 4);
}

#[test]
fn tick_leaves_unobserved_entries_alone() {
    let mut registry = four_entries();
    let before = registry.items();
    let decided = tick(&mut registry, &vec![seen(3, 13, false, "h0", 103)], 3);
    assert_eq!(decided, vec![Some(Decision::CrashRestart)]);
    let after = registry.items();
    assert_eq!(after[0], before[0]);
    assert_eq!(after[1], before[1]);
    assert_eq!(after[2], before[2]);
    assert_ne!(after[3], before[3]);
    let ids: Vec<usize> = after.iter().map(|item| item.0).collect();
    assert_eq!(ids, vec![0, 1, 2, 3]);
}

#[test]
fn tick_skips_observations_of_unknown_ids() {
    let mut registry = four_entries();
    let before = registry.items();
    let decided = tick(&mut registry, &vec![seen(7, 10, false, "h1", 100)], 3);
    assert_eq!(decided, vec![None]);
    assert_eq!(registry.items(), before);
}

#[test]
fn tick_of_an_empty_registry_changes_nothing() {
    let mut registry = Registry::new();
    assert_eq!(
        plan(&registry, &vec![seen(0, 10, false, "h1", 100)], 3),
        vec![Task { end: vec![], action: Action::Nothing }]
    );
    assert_eq!(tick(&mut registry, &vec![seen(0, 10, false, "h1", 100)], 3), vec![None]);
    assert!(registry.is_empty());
    assert_eq!(registry.next_id(), 0);
    assert!(tick(&mut registry, &vec![], 3).is_empty());
}

#[test]
fn a_second_observation_of_a_restarted_entry_is_stale() {
    let mut registry = Registry::new();
    registry.add(entry(9999, true, 2));
    let observations = vec![seen(0, 9999, false, "h0", 10000), seen(0, 9999, false, "h0", 10001)];
    let decided = tick(&mut registry, &observations, 3);
    assert_eq!(decided, vec![Some(Decision::CrashRestart), Some(Decision::NoOp)]);
    let after = registry.get(0).unwrap();
    assert_eq!((after.pid, after.crash.value, after.status), (10000, 3, Status::Running));
    let decided = tick(&mut registry, &vec![seen(0, 10000, false, "h0", 10002)], 3);
    assert_eq!(decided, vec![Some(Decision::PermanentStop)]);
    let after = registry.get(0).unwrap();
    assert_eq!((after.pid, after.status, after.running), (10000, Status::Stopped, false));
    assert!(after.crash.crashed);
}

#[test]
fn plan_and_tick_agree() {
    let mut registry = four_entries();
    let observations = vec![
        seen(3, 13, false, "h0", 103),
        seen(1, 11, false, "h0", 101),
        seen(0, 10, true, "h0", 100),
    ];
    let planned = actions(&plan(&registry, &observations, 3));
    let decided = tick(&mut registry, &observations, 3);
    let taken: Vec<Action> = decided.iter().map(|d| d.unwrap().action()).collect();
    assert_eq!(planned, taken);
    assert_eq!(planned, vec![Action::Respawn, Action::Terminate, Action::Nothing]);
}
