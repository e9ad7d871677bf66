use calyx::environment::Environment;
use calyx::ids::Id;

fn id(s: &str) -> Id {
    Id::from_str(s)
}

#[test]
fn put_then_get() {
    let mut env = Environment::new();
    env.add_cell(&id("main"), &id("r"), Some(id("std_reg")));
    env.put(&id("main"), &id("r"), &id("in"), 5);
    env.put(&id("main"), &id("r"), &id("out"), 6);
    env.put(&id("main"), &id("r"), &id("in"), 7);
    assert_eq!(env.get(&id("main"), &id("r"), &id("in")), 7);
    assert_eq!(env.get(&id("main"), &id("r"), &id("out")), 6);
    assert_eq!(env.lookup(&id("main"), &id("r"), &id("done")), None);
    assert_eq!(env.lookup(&id("other"), &id("r"), &id("in")), None);
}

#[test]
fn cells_and_their_types() {
    let mut env = Environment::new();
    env.add_cell(&id("main"), &id("r"), Some(id("std_reg")));
    env.add_cell(&id("main"), &id("c"), None);
    let r = env.get_cell(&id("main"), &id("r")).unwrap();
    assert_eq!(r.name.id, "r");
    assert_eq!(r.prototype_name().unwrap().id, "std_reg");
    assert!(env.get_cell(&id("main"), &id("c")).unwrap().prototype_name().is_none());
    assert!(env.get_cell(&id("main"), &id("x")).is_none());
    env.add_cell(&id("main"), &id("r"), Some(id("std_add")));
    assert_eq!(env.get_cell(&id("main"), &id("r")).unwrap().prototype_name().unwrap().id, "std_add");
}

#[test]
fn clone_is_independent() {
    let mut env = Environment::new();
    env.add_cell(&id("main"), &id("r"), None);
    env.put(&id("main"), &id("r"), &id("in"), 1);
    let copy = env.clone();
    env.put(&id("main"), &id("r"), &id("in"), 2);
    assert_eq!(copy.get(&id("main"), &id("r"), &id("in")), 1);
    assert_eq!(env.get(&id("main"), &id("r"), &id("in")), 2);
}
