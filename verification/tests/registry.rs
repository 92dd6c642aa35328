use pmc::daemon::reset;
use pmc::registry::entry::{Crash, ProcessEntry, Status, Watch};
use pmc::registry::store::Registry;
use serde_json::Value;

fn entry(name: &str, pid: i64) -> ProcessEntry {
    ProcessEntry {
        id: 0,
        name: name.to_string(),
        script: "node server.js".to_string(),
        pid,
        children: vec![],
        path: "/srv/app".to_string(),
        running: true,
        status: Status::Running,
        crash: Crash { crashed: false, value: 0 },
        watch: Watch { enabled: false, path: String::new(), hash: String::new() },
    }
}

fn entry_with_id(id: usize) -> ProcessEntry {
    let mut e = entry("job", 100 + id as i64);
    e.id = id;
    e
}

#[test]
fn new_registry_is_empty() {
    let registry = Registry::new();
    assert!(registry.is_empty());
    assert_eq!(registry.count(), 0);
    assert_eq!(registry.size(), None);
    assert_eq!(registry.next_id(), 0);
    assert!(registry.items().is_empty());
}

#[test]
fn add_assigns_ascending_ids() {
    let mut registry = Registry::new();
    let mut stray = entry("a", 10);
    stray.id = 77;
    assert_eq!(registry.add(stray), Some(0));
    assert_eq!(registry.add(entry("b", 11)), Some(1));
    assert_eq!(registry.add(entry("c", 12)), Some(2));
    assert_eq!(registry.next_id(), 3);
    assert_eq!(registry.count(), 3);
    assert!(!registry.is_empty());
    assert_eq!(registry.size(), Some(2));
    let items = registry.items();
    assert_eq!(items.len(), 3);
    assert_eq!(items[0].0, 0);
    assert_eq!(items[0].1.id, 0);
    assert_eq!(items[0].1.name, "a");
    assert_eq!(items[1].0, 1);
    assert_eq!(items[2].0, 2);
    assert_eq!(items[2].1.pid, 12);
}

#[test]
fn add_fails_when_ids_are_exhausted() {
    let mut registry = Registry::from_parts(usize::MAX, vec![entry_with_id(4)]).unwrap();
    assert_eq!(registry.add(entry("late", 1)), None);
    assert_eq!(registry.count(), 1);
    assert_eq!(registry.next_id(), usize::MAX);
}

#[test]
fn an_id_is_not_handed_out_again_while_its_entry_exists() {
    let mut registry = Registry::new();
    registry.add(entry("a", 10));
    registry.add(entry("b", 11));
    assert!(registry.remove(0).is_some());
    assert_eq!(registry.add(entry("c", 12)), Some(2));
    let ids: Vec<usize> = registry.items().iter().map(|item| item.0).collect();
    assert_eq!(ids, vec![1, 2]);
}

#[test]
fn get_finds_an_entry_by_id() {
    let mut registry = Registry::new();
    registry.add(entry("a", 10));
    registry.add(entry("b", 11));
    assert_eq!(registry.get(1).unwrap().name, "b");
    assert_eq!(registry.get(0).unwrap().pid, 10);
    assert!(registry.get(2).is_none());
}

#[test]
fn remove_takes_one_entry_out() {
    let mut registry = Registry::new();
    registry.add(entry("a", 10));
    registry.add(entry("b", 11));
    registry.add(entry("c", 12));
    let removed = registry.remove(1).unwrap();
    assert_eq!(removed.name, "b");
    assert_eq!(registry.count(), 2);
    assert!(registry.get(1).is_none());
    assert_eq!(registry.next_id(), 3);
    assert!(registry.remove(1).is_none());
    assert_eq!(registry.count(), 2);
}

#[test]
fn set_status_sets_status_and_running() {
    let mut registry = Registry::new();
    registry.add(entry("a", 10));
    registry.add(entry("b", 11));
    registry.set_status(0, Status::Errored);
    assert_eq!(registry.get(0).unwrap().status, Status::Errored);
    assert!(!registry.get(0).unwrap().running);
    assert_eq!(registry.get(1).unwrap().status, Status::Running);
    registry.set_status(0, Status::Running);
    assert_eq!(registry.get(0).unwrap().status, Status::Running);
    assert!(registry.get(0).unwrap().running);
}

#[test]
fn set_children_replaces_children() {
    let mut registry = Registry::new();
    registry.add(entry("a", 10));
    registry.set_children(0, vec![5, 6]);
    assert_eq!(registry.get(0).unwrap().children, vec![5, 6]);
    registry.set_children(0, vec![7]);
    assert_eq!(registry.get(0).unwrap().children, vec![7]);
}

#[test]
fn set_crashed_sets_the_mark_only() {
    let mut registry = Registry::new();
    let mut e = entry("a", 10);
    e.crash.value = 2;
    registry.add(e);
    registry.set_crashed(0);
    let after = registry.get(0).unwrap();
    assert!(after.crash.crashed);
    assert_eq!(after.crash.value, 2);
    assert_eq!(after.status, Status::Running);
    assert!(after.running);
}

#[test]
fn restart_records_the_new_process() {
    let mut registry = Registry::new();
    let mut e = entry("a", 10);
    e.running = false;
    e.status = Status::Stopped;
    e.children = vec![3, 4];
    e.crash = Crash { crashed: true, value: 2 };
    e.watch = Watch { enabled: true, path: "src".to_string(), hash: "h0".to_string() };
    registry.add(e);
    registry.restart(0, 55, false);
    let after = registry.get(0).unwrap().clone();
    assert_eq!(after.pid, 55);
    assert!(after.running);
    assert_eq!(after.status, Status::Running);
    assert!(after.children.is_empty());
    assert_eq!(after.crash, Crash { crashed: false, value: 2 });
    assert_eq!(after.watch.hash, "h0");
    registry.restart(0, 56, true);
    let again = registry.get(0).unwrap();
    assert_eq!(again.pid, 56);
    assert_eq!(again.crash, Crash { crashed: false, value: 0 });
}

#[test]
fn stop_clears_the_bookkeeping() {
    let mut registry = Registry::new();
    let mut e = entry("a", 10);
    e.children = vec![3, 4];
    e.crash = Crash { crashed: true, value: 3 };
    registry.add(e);
    registry.stop(0);
    let after = registry.get(0).unwrap();
    assert!(!after.running);
    assert_eq!(after.status, Status::Stopped);
    assert!(after.children.is_empty());
    assert_eq!(after.crash, Crash { crashed: false, value: 0 });
    assert_eq!(after.pid, 10);
}

#[test]
fn mutators_do_nothing_for_an_unknown_id() {
    let mut registry = Registry::new();
    registry.add(entry("a", 10));
    let before = registry.items();
    registry.set_status(9, Status::Stopped);
    registry.set_children(9, vec![1]);
    registry.set_crashed(9);
    registry.restart(9, 1, true);
    registry.stop(9);
    assert_eq!(registry.items(), before);
    assert_eq!(registry.next_id(), 1);
}

#[test]
fn size_is_the_largest_id() {
    let registry = Registry::from_parts(
        9,
        vec![entry_with_id(0), entry_with_id(2), entry_with_id(5)],
    )
    .unwrap();
    assert_eq!(registry.size(), Some(5));
    assert_eq!(registry.count(), 3);
}

#[test]
fn set_id_moves_the_counter() {
    let mut registry = Registry::from_parts(9, vec![entry_with_id(0), entry_with_id(2)]).unwrap();
    registry.set_id(3);
    assert_eq!(registry.next_id(), 3);
    assert_eq!(registry.count(), 2);
    assert_eq!(registry.add(entry("n", 1)), Some(3));
}

#[test]
fn from_parts_accepts_ascending_ids_below_the_counter() {
    let registry = Registry::from_parts(6, vec![entry_with_id(1), entry_with_id(5)]).unwrap();
    assert_eq!(registry.next_id(), 6);
    assert_eq!(registry.get(5).unwrap().pid, 105);
    assert!(Registry::from_parts(0, vec![]).is_some());
}

#[test]
fn from_parts_rejects_a_broken_listing() {
    assert!(Registry::from_parts(9, vec![entry_with_id(2), entry_with_id(1)]).is_none());
    assert!(Registry::from_parts(9, vec![entry_with_id(2), entry_with_id(2)]).is_none());
    assert!(Registry::from_parts(5, vec![entry_with_id(1), entry_with_id(5)]).is_none());
    assert!(Registry::from_parts(0, vec![entry_with_id(0)]).is_none());
}

#[test]
fn parts_give_the_registry_back() {
    let mut registry = Registry::new();
    let mut e = entry("a", 10);
    e.children = vec![1, 2];
    e.watch = Watch { enabled: true, path: "src".to_string(), hash: "h".to_string() };
    registry.add(e);
    registry.add(entry("b", 11));
    registry.remove(0);
    registry.add(entry("c", 12));
    let listed = registry.items();
    let (next_id, list) = registry.into_parts();
    assert_eq!(next_id, 3);
    let back = Registry::from_parts(next_id, list).unwrap();
    assert_eq!(back.next_id(), 3);
    assert_eq!(back.items(), listed);
}

#[test]
fn reset_rewinds_to_one_past_the_largest_id() {
    let mut registry = Registry::from_parts(
        40,
        vec![entry_with_id(0), entry_with_id(2), entry_with_id(5)],
    )
    .unwrap();
    assert_eq!(reset(&mut registry), 6);
    assert_eq!(registry.next_id(), 6);
    assert_eq!(registry.count(), 3);
    assert_eq!(registry.add(entry("n", 1)), Some(6));
}

#[test]
fn reset_of_an_empty_registry_rewinds_to_zero() {
    let mut registry = Registry::from_parts(17, vec![]).unwrap();
    assert_eq!(reset(&mut registry), 0);
    assert_eq!(registry.next_id(), 0);
    assert!(registry.is_empty());
}

#[test]
fn mutators_touch_one_entry_only() {
    let mut registry = Registry::new();
    registry.add(entry("a", 10));
    registry.add(entry("b", 11));
    registry.add(entry("c", 12));
    let before = registry.items();
    registry.set_status(1, Status::Crashed);
    registry.set_children(1, vec![8]);
    registry.set_crashed(1);
    registry.restart(1, 50, true);
    registry.stop(1);
    let after = registry.items();
    assert_eq!(after[0], before[0]);
    assert_eq!(after[2], before[2]);
    assert_ne!(after[1], before[1]);
    assert_eq!(after[1].0, 1);
    assert_eq!(after[1].1.id, 1);
    assert_eq!(after[1].1.name, "b");
    assert_eq!(registry.next_id(), 3);
    assert_eq!(registry.count(), 3);
}

fn status_name(status: Status) -> &'static str {
    match status {
        Status::Running => "Running",
        Status::Stopped => "Stopped",
        Status::Crashed => "Crashed",
        Status::Errored => "Errored",
    }
}

fn status_named(name: &str) -> Status {
    match name {
        "Running" => Status::Running,
        "Stopped" => Status::Stopped,
        "Crashed" => Status::Crashed,
        _ => Status::Errored,
    }
}

fn entry_to_json(e: &ProcessEntry) -> Value {
    let mut crash = serde_json::Map::new();
    crash.insert("crashed".to_string(), Value::from(e.crash.crashed));
    crash.insert("value".to_string(), Value::from(e.crash.value));
    let mut watch = serde_json::Map::new();
    watch.insert("enabled".to_string(), Value::from(e.watch.enabled));
    watch.insert("path".to_string(), Value::from(e.watch.path.clone()));
    watch.insert("hash".to_string(), Value::from(e.watch.hash.clone()));
    let mut object = serde_json::Map::new();
    object.insert("name".to_string(), Value::from(e.name.clone()));
    object.insert("script".to_string(), Value::from(e.script.clone()));
    object.insert("pid".to_string(), Value::from(e.pid));
    object.insert("children".to_string(), Value::from(e.children.clone()));
    object.insert("path".to_string(), Value::from(e.path.clone()));
    object.insert("running".to_string(), Value::from(e.running));
    object.insert("status".to_string(), Value::from(status_name(e.status)));
    object.insert("crash".to_string(), Value::Object(crash));
    object.insert("watch".to_string(), Value::Object(watch));
    Value::Object(object)
}

fn entry_from_json(id: usize, v: &Value) -> ProcessEntry {
    ProcessEntry {
        id,
        name: v["name"].as_str().unwrap().to_string(),
        script: v["script"].as_str().unwrap().to_string(),
        pid: v["pid"].as_i64().unwrap(),
        children: v["children"].as_array().unwrap().iter().map(|c| c.as_i64().unwrap()).collect(),
        path: v["path"].as_str().unwrap().to_string(),
        running: v["running"].as_bool().unwrap(),
        status: status_named(v["status"].as_str().unwrap()),
        crash: Crash {
            crashed: v["crash"]["crashed"].as_bool().unwrap(),
            value: v["crash"]["value"].as_u64().unwrap(),
        },
        watch: Watch {
            enabled: v["watch"]["enabled"].as_bool().unwrap(),
            path: v["watch"]["path"].as_str().unwrap().to_string(),
            hash: v["watch"]["hash"].as_str().unwrap().to_string(),
        },
    }
}

#[test]
fn a_snapshot_survives_being_written_and_read() {
    let mut registry = Registry::new();
    let mut odd = entry("a \"quoted\" name\n", -7);
    odd.children = vec![3, -4, i64::MAX];
    odd.crash = Crash { crashed: true, value: u64::MAX };
    odd.status = Status::Errored;
    odd.running = false;
    odd.watch = Watch { enabled: true, path: "src/\u{e9}".to_string(), hash: "17".to_string() };
    registry.add(odd);
    registry.add(entry("b", 11));
    registry.add(entry("c", 12));
    registry.remove(1);
    let listed = registry.items();
    let (next_id, list) = registry.into_parts();

    let mut entries = serde_json::Map::new();
    for e in &list {
        entries.insert(e.id.to_string(), entry_to_json(e));
    }
    let mut snapshot = serde_json::Map::new();
    snapshot.insert("id".to_string(), Value::from(next_id));
    snapshot.insert("list".to_string(), Value::Object(entries));
    let text = serde_json::to_string(&Value::Object(snapshot)).unwrap();

    let read: Value = serde_json::from_str(&text).unwrap();
    let mut ids: Vec<usize> =
        read["list"].as_object().unwrap().keys().map(|k| k.parse().unwrap()).collect();
    ids.sort();
    let list: Vec<ProcessEntry> =
        ids.iter().map(|id| entry_from_json(*id, &read["list"][id.to_string()])).collect();
    let back = Registry::from_parts(read["id"].as_u64().unwrap() as usize, list).unwrap();
    assert_eq!(back.next_id(), 3);
    assert_eq!(back.items(), listed);
    assert_eq!(back.size(), Some(2));
}
