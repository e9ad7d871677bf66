use calyx::errors::Error;
use calyx::ids::Id;
use calyx::ir::{set_attribute, Assignment, Attribute, Cell, CellType, Component, Group, PortParent, PortRef};
use calyx::passes::infer_static_timing::{dependency_graph, infer_latency, mem_wrt_dep_graph, InferStaticTiming};
use calyx::passes::synthesis_papercut::{reads_from, writes_to, SynthesisPapercut};
use calyx::passes::visitor::{Action, Named};
use calyx::structure::Context;

fn id(s: &str) -> Id {
    Id::from_str(s)
}

fn cport(cell: &str, port: &str) -> PortRef {
    PortRef { name: id(port), parent: PortParent::Cell(id(cell)) }
}

fn gport(group: &str, port: &str) -> PortRef {
    PortRef { name: id(port), parent: PortParent::Group(id(group)) }
}

fn asgn(dst: PortRef, src: PortRef) -> Assignment {
    Assignment { dst, src, guard: vec![] }
}

fn prim(name: &str, ty: &str, ports: &[&str]) -> Cell {
    Cell {
        name: id(name),
        prototype: CellType::Primitive { name: id(ty), params: vec![32] },
        ports: ports.iter().map(|p| id(p)).collect(),
        attributes: vec![],
    }
}

fn memory(name: &str) -> Cell {
    prim(name, "std_mem_d1", &["addr0", "read_data", "write_data", "write_en", "done"])
}

fn component(cells: Vec<Cell>, groups: Vec<Group>, cont: Vec<Assignment>) -> Component {
    Component { name: id("main"), cells, groups, continuous_assignments: cont }
}

fn ctx() -> Context {
    Context { primitives: vec![] }
}

#[test]
fn papercut_names() {
    assert_eq!(SynthesisPapercut::name(), "synthesis-papercut");
    assert_eq!(
        SynthesisPapercut::description(),
        "Detect common problems when targeting synthesis backends"
    );
}

#[test]
fn papercut_accepts_used_memory() {
    let group = Group {
        name: id("g"),
        assignments: vec![
            asgn(cport("m", "write_data"), cport("r", "out")),
            asgn(cport("r", "in"), cport("m", "read_data")),
            asgn(gport("g", "done"), cport("r", "out")),
        ],
        attributes: vec![],
    };
    let mut comp = component(vec![memory("m"), prim("r", "std_reg", &["in", "out"])], vec![group], vec![]);
    assert!(reads_from(&comp, &id("m"), "read_data"));
    assert!(writes_to(&comp, &id("m"), "write_data"));
    let r = SynthesisPapercut::default().start(&mut comp, &ctx());
    assert!(matches!(r, Ok(Action::Stop)));
}

#[test]
fn papercut_reports_group_without_done() {
    let done = Group {
        name: id("a"),
        assignments: vec![asgn(gport("a", "done"), cport("r", "out"))],
        attributes: vec![],
    };
    // writes another group's hole, not its own
    let other = Group {
        name: id("b"),
        assignments: vec![asgn(gport("a", "done"), cport("r", "out")), asgn(cport("r", "in"), cport("r", "out"))],
        attributes: vec![],
    };
    let third = Group { name: id("c"), assignments: vec![], attributes: vec![] };
    // the unread memory comes second: groups are checked first
    let mut comp = component(
        vec![memory("m"), prim("r", "std_reg", &["in", "out"])],
        vec![done, other, third],
        vec![],
    );
    match SynthesisPapercut::default().start(&mut comp, &ctx()) {
        Err(Error::Papercut(msg, g)) => {
            assert_eq!(g.id, "b");
            assert_eq!(msg, "No writes to the `done' hole of group `b'.");
        },
        _ => panic!("expected a papercut"),
    }
    assert_eq!(comp.groups.len(), 3);
}

#[test]
fn papercut_without_memories_stops() {
    let mut comp = component(vec![prim("r", "std_reg", &["in", "out"])], vec![], vec![]);
    assert!(matches!(SynthesisPapercut::default().start(&mut comp, &ctx()), Ok(Action::Stop)));
}

#[test]
fn papercut_reports_unread_memory() {
    let cont = vec![asgn(cport("m", "write_data"), cport("r", "out"))];
    let mut comp = component(vec![memory("m"), prim("r", "std_reg", &["in", "out"])], vec![], cont);
    match SynthesisPapercut::default().start(&mut comp, &ctx()) {
        Err(Error::Papercut(msg, mem)) => {
            assert_eq!(mem.id, "m");
            assert_eq!(
                msg,
                "Only reads performed on memory `m'. Synthesis tools with remove this memory. Add @external(1) to cell to turn this into an interface memory."
            );
        },
        _ => panic!("expected a papercut"),
    }
}

#[test]
fn papercut_reports_unwritten_memory() {
    let mut read = asgn(cport("r", "in"), cport("r", "out"));
    read.guard.push(cport("m", "read_data"));
    let mut comp = component(vec![memory("m"), prim("r", "std_reg", &["in", "out"])], vec![], vec![read]);
    match SynthesisPapercut::default().start(&mut comp, &ctx()) {
        Err(Error::Papercut(msg, mem)) => {
            assert_eq!(mem.id, "m");
            assert_eq!(
                msg,
                "Only writes performed on memory `m'. Synthesis tools with remove this memory. Add @external(1) to cell to turn this into an interface memory."
            );
        },
        _ => panic!("expected a papercut"),
    }
}

#[test]
fn papercut_skips_external_memory() {
    let mut m = memory("m");
    m.attributes.push(Attribute { name: "external".to_string(), value: 1 });
    let mut comp = component(vec![m], vec![], vec![]);
    assert!(matches!(SynthesisPapercut::default().start(&mut comp, &ctx()), Ok(Action::Stop)));
}

fn timing_component() -> Component {
    let group = Group {
        name: id("g"),
        assignments: vec![
            asgn(cport("r", "write_en"), cport("c", "out")),
            asgn(gport("g", "done"), cport("r", "done")),
            asgn(cport("r", "in"), cport("x", "out")),
        ],
        attributes: vec![],
    };
    let c = Cell {
        name: id("c"),
        prototype: CellType::Constant { val: 1, width: 1 },
        ports: vec![id("out")],
        attributes: vec![],
    };
    let x = Cell {
        name: id("x"),
        prototype: CellType::Component { name: id("sub") },
        ports: vec![id("out")],
        attributes: vec![],
    };
    component(vec![prim("r", "std_reg", &["in", "write_en", "out", "done"]), c, x], vec![group], vec![])
}

#[test]
fn dependency_graph_of_a_register_write() {
    let comp = timing_component();
    let pass = InferStaticTiming::default();
    assert_eq!(InferStaticTiming::name(), "infer-static-timing");
    let lat = vec![calyx::passes::infer_static_timing::LatencyData {
        prim: "std_reg".to_string(),
        go: "write_en".to_string(),
        done: "done".to_string(),
        latency: 1,
    }];
    let g = &comp.groups[0];
    assert!(mem_wrt_dep_graph(&g.assignments[0].src, &g.assignments[0].dst, &comp, &lat));
    assert!(mem_wrt_dep_graph(&g.assignments[1].src, &g.assignments[1].dst, &comp, &lat));
    assert!(!mem_wrt_dep_graph(&g.assignments[2].src, &g.assignments[2].dst, &comp, &lat));
    let edges = dependency_graph(g, &lat, &comp);
    assert_eq!(edges.len(), 3);
    assert_eq!(edges[2].0.name.id, "write_en");
    assert_eq!(edges[2].1.name.id, "done");
    // g[done] = r.done, and r takes one cycle from its write_en
    assert_eq!(infer_latency(g, &lat, &comp), Some(1));
    let _ = pass;
}

fn reg_latency() -> Vec<calyx::passes::infer_static_timing::LatencyData> {
    vec![calyx::passes::infer_static_timing::LatencyData {
        prim: "std_reg".to_string(),
        go: "write_en".to_string(),
        done: "done".to_string(),
        latency: 1,
    }]
}

fn constant(name: &str) -> Cell {
    Cell {
        name: id(name),
        prototype: CellType::Constant { val: 1, width: 1 },
        ports: vec![id("out")],
        attributes: vec![],
    }
}

#[test]
fn infer_static_timing_annotates_group() {
    let mut comp = timing_component();
    let mut pass = InferStaticTiming::default();
    let r = pass.start(&mut comp, &ctx());
    assert!(matches!(r, Ok(Action::Stop)));
    assert_eq!(comp.groups[0].attributes.len(), 1);
    assert_eq!(comp.groups[0].attributes[0].name, "static");
    assert_eq!(comp.groups[0].attributes[0].value, 1);
    assert_eq!(comp.groups[0].assignments.len(), 3);
    assert_eq!(comp.cells.len(), 3);
}

#[test]
fn infer_latency_of_a_chain_of_registers() {
    let reg = |n: &str| prim(n, "std_reg", &["in", "write_en", "out", "done"]);
    let group = Group {
        name: id("g"),
        assignments: vec![
            asgn(cport("r1", "write_en"), cport("c", "out")),
            asgn(cport("r2", "write_en"), cport("r1", "done")),
            asgn(gport("g", "done"), cport("r2", "done")),
        ],
        attributes: vec![],
    };
    let comp = component(vec![reg("r1"), reg("r2"), constant("c")], vec![group], vec![]);
    assert_eq!(infer_latency(&comp.groups[0], &reg_latency(), &comp), Some(2));
}

#[test]
fn infer_latency_ignores_done_of_other_signals() {
    let group = Group {
        name: id("g"),
        assignments: vec![
            asgn(cport("lt", "left"), cport("r", "out")),
            asgn(cport("lt", "right"), cport("c", "out")),
            asgn(gport("g", "done"), cport("lt", "out")),
        ],
        attributes: vec![],
    };
    let comp = component(
        vec![
            prim("r", "std_reg", &["in", "write_en", "out", "done"]),
            prim("lt", "std_lt", &["left", "right", "out"]),
            constant("c"),
        ],
        vec![group],
        vec![],
    );
    assert_eq!(infer_latency(&comp.groups[0], &reg_latency(), &comp), None);
    let mut comp = comp;
    let r = InferStaticTiming::default().start(&mut comp, &ctx());
    assert!(matches!(r, Ok(Action::Stop)));
    assert!(comp.groups[0].attributes.is_empty());
}

#[test]
fn infer_latency_without_done_is_none() {
    let group = Group {
        name: id("g"),
        assignments: vec![asgn(cport("r", "write_en"), cport("c", "out"))],
        attributes: vec![],
    };
    let comp = component(
        vec![prim("r", "std_reg", &["in", "write_en", "out", "done"]), constant("c")],
        vec![group],
        vec![],
    );
    assert_eq!(infer_latency(&comp.groups[0], &reg_latency(), &comp), None);
}

#[test]
fn infer_static_timing_reports_conflicting_annotation() {
    let mut comp = timing_component();
    comp.groups[0].attributes.push(Attribute { name: "static".to_string(), value: 2 });
    match InferStaticTiming::default().start(&mut comp, &ctx()) {
        Err(Error::ImpossibleLatencyAnnotation(g, a, l)) => {
            assert_eq!(g, "g");
            assert_eq!(a, 2);
            assert_eq!(l, 1);
        },
        _ => panic!("expected an impossible latency annotation"),
    }
    assert_eq!(comp.groups[0].attributes.len(), 1);
    assert_eq!(comp.groups[0].attributes[0].value, 2);
}

#[test]
fn infer_static_timing_keeps_matching_annotation() {
    let mut comp = timing_component();
    comp.groups[0].attributes.push(Attribute { name: "static".to_string(), value: 1 });
    let r = InferStaticTiming::default().start(&mut comp, &ctx());
    assert!(matches!(r, Ok(Action::Stop)));
    assert_eq!(comp.groups[0].attributes.len(), 1);
    assert_eq!(comp.groups[0].attributes[0].value, 1);
}

#[test]
fn set_attribute_adds_then_updates() {
    let mut attrs: Vec<Attribute> = vec![];
    set_attribute(&mut attrs, "static", 3);
    assert_eq!(attrs.len(), 1);
    set_attribute(&mut attrs, "static", 4);
    assert_eq!(attrs.len(), 1);
    assert_eq!(attrs[0].value, 4);
}
