use calyx::environment::Environment;
use calyx::ids::Id;
use calyx::update::UpdateQueue;
use std::collections::HashMap;

fn id(s: &str) -> Id {
    Id::from_str(s)
}

fn env() -> Environment {
    let mut env = Environment::new();
    env.add_cell(&id("main"), &id("r"), Some(id("std_reg")));
    env.add_cell(&id("main"), &id("q"), Some(id("std_reg")));
    env.add_cell(&id("main"), &id("s"), Some(id("std_sqrt")));
    env.add_cell(&id("main"), &id("k"), None);
    env.put(&id("main"), &id("k"), &id("out"), 9);
    env.put(&id("main"), &id("r"), &id("write_en"), 1);
    env.put(&id("main"), &id("q"), &id("write_en"), 1);
    env
}

#[test]
fn init_is_empty() {
    let q = UpdateQueue::init("main".to_string());
    assert_eq!(q.component, "main");
    assert!(q.updates.is_empty());
}

#[test]
fn init_cells_queues_registers_only() {
    let q = UpdateQueue::init("main".to_string());
    let q = q.init_cells(&id("r"), vec![id("k")], vec![id("in")], env());
    assert_eq!(q.updates.len(), 1);
    assert_eq!(q.updates[0].cell.id, "r");
    assert_eq!(q.updates[0].inputs[0].id, "k");
    assert!(q.updates[0].vars.is_empty());
    let q = q.init_cells(&id("s"), vec![id("k")], vec![id("out")], env());
    assert_eq!(q.updates.len(), 1);
}

#[test]
fn add_and_remove_updates() {
    let mut q = UpdateQueue::init("main".to_string());
    q.add_update(id("r"), vec![], vec![], HashMap::new());
    q.add_update(id("q"), vec![], vec![], HashMap::new());
    q.add_update(id("r"), vec![id("k")], vec![], HashMap::new());
    assert_eq!(q.updates.len(), 3);
    q.remove_update(&id("r"));
    assert_eq!(q.updates.len(), 1);
    assert_eq!(q.updates[0].cell.id, "q");
    q.remove_update(&id("absent"));
    assert_eq!(q.updates.len(), 1);
}

#[test]
fn do_tick_runs_updates_in_order() {
    let q = UpdateQueue::init("main".to_string());
    let q = q.init_cells(&id("r"), vec![id("k")], vec![id("in")], env());
    let q = q.init_cells(&id("q"), vec![id("r")], vec![id("in")], env());
    let e = q.do_tick(env()).unwrap();
    assert_eq!(e.get(&id("main"), &id("r"), &id("out")), 9);
    assert_eq!(e.get(&id("main"), &id("r"), &id("done")), 1);
    assert_eq!(e.get(&id("main"), &id("q"), &id("out")), 9);
    assert_eq!(e.get(&id("main"), &id("q"), &id("done")), 1);
}

#[test]
fn do_tick_on_empty_queue_keeps_environment() {
    let q = UpdateQueue::init("main".to_string());
    let e = q.do_tick(env()).unwrap();
    assert_eq!(e.get(&id("main"), &id("k"), &id("out")), 9);
    assert_eq!(e.lookup(&id("main"), &id("r"), &id("out")), None);
}

#[test]
fn two_ticks_equal_one_tick_of_both_queues() {
    let both = UpdateQueue::init("main".to_string())
        .init_cells(&id("r"), vec![id("k")], vec![id("in")], env())
        .init_cells(&id("q"), vec![id("r")], vec![id("in")], env());
    let first = UpdateQueue::init("main".to_string())
        .init_cells(&id("r"), vec![id("k")], vec![id("in")], env());
    let second = UpdateQueue::init("main".to_string())
        .init_cells(&id("q"), vec![id("r")], vec![id("in")], env());
    let once = both.do_tick(env()).unwrap();
    let twice = second.do_tick(first.do_tick(env()).unwrap()).unwrap();
    for cell in ["r", "q", "k"].iter() {
        for port in ["in", "out", "done", "write_en"].iter() {
            assert_eq!(
                once.lookup(&id("main"), &id(cell), &id(port)),
                twice.lookup(&id("main"), &id(cell), &id(port))
            );
        }
    }
}

#[test]
fn removed_cell_has_no_update_left() {
    let mut q = UpdateQueue::init("main".to_string());
    for c in ["a", "b", "a", "c", "a"].iter() {
        q.add_update(id(c), vec![], vec![], HashMap::new());
    }
    q.remove_update(&id("a"));
    let cells: Vec<String> = q.updates.iter().map(|u| u.cell.id.clone()).collect();
    assert_eq!(cells, vec!["b", "c"]);
}
