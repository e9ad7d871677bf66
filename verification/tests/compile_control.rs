use calyx::ast::{Atom, Control, Empty, Enable, GuardExpr, If, Par, Port, Sequence, While};
use calyx::errors::Error;
use calyx::ids::Id;
use calyx::passes::compile_control::CompileControl;
use calyx::passes::visitor::{Action, Named};
use calyx::structure::{Component, Context, Node, NodeData, PrimSig, StructureGraph};

fn id(s: &str) -> Id {
    Id::from_str(s)
}

fn ids(names: &[&str]) -> Vec<Id> {
    names.iter().map(|n| id(n)).collect()
}

fn ctx() -> Context {
    Context {
        primitives: vec![
            PrimSig { name: id("std_reg"), ports: ids(&["in", "write_en", "clk", "out", "done"]) },
            PrimSig { name: id("std_or"), ports: ids(&["left", "right", "out"]) },
        ],
    }
}

fn component(groups: &[&str]) -> Component {
    let mut st = StructureGraph::new(ids(&["go", "done", "x"]));
    for g in groups {
        assert!(st.insert_group(&id(g)).is_ok());
    }
    st.nodes.push(Node {
        name: id("lt"),
        data: NodeData::Cell { prim: id("std_lt"), params: vec![32] },
        ports: ids(&["left", "right", "out"]),
    });
    Component { name: id("main"), structure: st, control: Control::Empty { data: Empty {} } }
}

fn enable(g: &str) -> Box<Control> {
    Box::new(Control::Enable { data: Enable { comp: id(g) } })
}

fn enabled_group(a: &Action) -> String {
    match a {
        Action::Change(Control::Enable { data }) => data.comp.id.clone(),
        _ => panic!("not an enable"),
    }
}

fn dest_name(p: &Port) -> String {
    match p {
        Port::Comp { component, port } => format!("{}.{}", component.id, port.id),
        Port::This { port } => format!("this.{}", port.id),
        Port::Hole { group, name } => format!("{}[{}]", group.id, name.id),
    }
}

fn if_stmt(port: Port) -> If {
    If { port, cond: id("cond"), tbranch: enable("t"), fbranch: enable("f") }
}

#[test]
fn names_of_the_pass() {
    assert_eq!(CompileControl::name(), "compile-control");
    assert_eq!(
        CompileControl::description(),
        "Compile away all control language constructs into structure"
    );
}

#[test]
fn compile_if_builds_the_group() {
    let mut comp = component(&["cond", "t", "f"]);
    let mut pass = CompileControl::default();
    let cif = if_stmt(Port::Comp { component: id("lt"), port: id("out") });
    let r = pass.finish_if(&cif, &mut comp, &ctx()).unwrap();
    assert_eq!(enabled_group(&r), "if0");
    let st = &comp.structure;
    assert_eq!(st.edges.len(), 10);
    let dests: Vec<String> = st.edges.iter().map(|e| dest_name(&e.dest)).collect();
    assert_eq!(
        dests,
        vec![
            "cond[go]",
            "cond_computed0.in",
            "cond_computed0.write_en",
            "cond_stored0.in",
            "cond_stored0.write_en",
            "t[go]",
            "f[go]",
            "or0.right",
            "or0.left",
            "if0[done]"
        ]
    );
    assert!(st.edges.iter().all(|e| e.group.as_ref().unwrap().id == "if0"));
    assert!(matches!(&st.edges[3].src, Atom::Port(Port::Comp { component, port })
        if component.id == "lt" && port.id == "out"));
    // the condition's value is stored whatever it is
    assert!(matches!(&st.edges[4].src, Atom::Num { val: 1, width: 1 }));
    assert!(matches!(&st.edges[4].guard, Some(GuardExpr::And(_, _))));
    assert!(matches!(&st.edges[0].src, Atom::Num { val: 1, width: 1 }));
    assert!(matches!(&st.edges[0].guard, Some(GuardExpr::Not(_))));
    assert!(matches!(&st.edges[7].src, Atom::Port(Port::Hole { group, name })
        if group.id == "t" && name.id == "done"));
    assert!(matches!(&st.edges[8].src, Atom::Port(Port::Hole { group, name })
        if group.id == "f" && name.id == "done"));
    assert!(matches!(&st.edges[9].src, Atom::Port(Port::Comp { component, port })
        if component.id == "or0" && port.id == "out"));
    assert!(st.edges[7].guard.is_none() && st.edges[8].guard.is_none());
    assert!(st.edges[9].guard.is_none());
    let n = st.nodes.len();
    assert_eq!(st.nodes[n - 3].name.id, "cond_computed0");
    assert_eq!(st.nodes[n - 2].name.id, "cond_stored0");
    assert_eq!(st.nodes[n - 1].name.id, "or0");
    assert!(matches!(&st.nodes[n - 1].data, NodeData::Cell { prim, params }
        if prim.id == "std_or" && params == &vec![1]));
}

#[test]
fn compile_if_twice_gives_fresh_names() {
    let mut comp = component(&["cond", "t", "f"]);
    let mut pass = CompileControl::default();
    let cif = if_stmt(Port::This { port: id("x") });
    let r1 = pass.finish_if(&cif, &mut comp, &ctx()).unwrap();
    let r2 = pass.finish_if(&cif, &mut comp, &ctx()).unwrap();
    assert_eq!(enabled_group(&r1), "if0");
    assert_eq!(enabled_group(&r2), "if1");
    assert_eq!(comp.structure.edges.len(), 20);
    assert!(matches!(&comp.structure.edges[3].src, Atom::Port(Port::This { port }) if port.id == "x"));
}

#[test]
fn compile_if_errors() {
    let mut pass = CompileControl::default();
    let mut comp = component(&["cond", "t", "f"]);
    let hole = if_stmt(Port::Hole { group: id("cond"), name: id("done") });
    match pass.finish_if(&hole, &mut comp, &ctx()) {
        Err(Error::MalformedControl(m)) => assert_eq!(m, "Can't use a hole as a condition."),
        _ => panic!("expected a malformed control"),
    }
    let mut comp = component(&["cond", "t", "f"]);
    let nested = If {
        port: Port::This { port: id("x") },
        cond: id("cond"),
        tbranch: enable("t"),
        fbranch: Box::new(Control::Empty { data: Empty {} }),
    };
    match pass.finish_if(&nested, &mut comp, &ctx()) {
        Err(Error::MalformedControl(m)) => {
            assert_eq!(m, "Both branches of an if must be an enable.")
        },
        _ => panic!("expected a malformed control"),
    }
    let mut comp = component(&["t", "f"]);
    match pass.finish_if(&if_stmt(Port::This { port: id("x") }), &mut comp, &ctx()) {
        Err(Error::Undefined(g)) => assert_eq!(g.id, "cond"),
        _ => panic!("expected an undefined name"),
    }
    let mut comp = component(&["cond", "t"]);
    match pass.finish_if(&if_stmt(Port::This { port: id("x") }), &mut comp, &ctx()) {
        Err(Error::Undefined(g)) => assert_eq!(g.id, "f"),
        _ => panic!("expected an undefined name"),
    }
    let mut comp = component(&["cond", "t", "f"]);
    let empty = Context { primitives: vec![] };
    match pass.finish_if(&if_stmt(Port::This { port: id("x") }), &mut comp, &empty) {
        Err(Error::UndefinedPrimitive(p)) => assert_eq!(p.id, "std_reg"),
        _ => panic!("expected an undefined primitive"),
    }
    let mut comp = component(&["cond", "t", "f"]);
    let regs_only = Context {
        primitives: vec![PrimSig {
            name: id("std_reg"),
            ports: ids(&["in", "write_en", "clk", "out", "done"]),
        }],
    };
    match pass.finish_if(&if_stmt(Port::This { port: id("x") }), &mut comp, &regs_only) {
        Err(Error::UndefinedPrimitive(p)) => assert_eq!(p.id, "std_or"),
        _ => panic!("expected an undefined primitive"),
    }
    let mut comp = component(&["cond", "t", "f"]);
    match pass.finish_if(&if_stmt(Port::This { port: id("y") }), &mut comp, &ctx()) {
        Err(Error::UndefinedPort(n, p)) => {
            assert_eq!(n.id, "this");
            assert_eq!(p.id, "y");
        },
        _ => panic!("expected an undefined port"),
    }
    let mut comp = component(&["cond", "t", "f", "if0"]);
    match pass.finish_if(&if_stmt(Port::This { port: id("x") }), &mut comp, &ctx()) {
        Err(Error::DuplicateGroup(g)) => assert_eq!(g.id, "if0"),
        _ => panic!("expected a duplicate group"),
    }
}

#[test]
fn compile_while_builds_the_group() {
    let mut comp = component(&["cond", "body"]);
    let mut pass = CompileControl::default();
    let w = While {
        port: Port::Comp { component: id("lt"), port: id("out") },
        cond: id("cond"),
        body: enable("body"),
    };
    let r = pass.finish_while(&w, &mut comp, &ctx()).unwrap();
    assert_eq!(enabled_group(&r), "while0");
    let st = &comp.structure;
    assert_eq!(st.edges.len(), 11);
    let dests: Vec<String> = st.edges.iter().map(|e| dest_name(&e.dest)).collect();
    assert_eq!(
        dests,
        vec![
            "cond[go]",
            "cond_computed0.in",
            "cond_computed0.write_en",
            "cond_stored0.in",
            "cond_stored0.write_en",
            "body[go]",
            "cond_computed0.in",
            "cond_computed0.write_en",
            "while0[done]",
            "cond_computed0.in",
            "cond_computed0.write_en"
        ]
    );
    assert!(st.edges.iter().all(|e| e.group.as_ref().unwrap().id == "while0"));
    assert!(matches!(&st.edges[5].guard, Some(GuardExpr::And(a, b))
        if matches!(&**a, GuardExpr::Atom(_)) && matches!(&**b, GuardExpr::Atom(_))));
    assert!(matches!(&st.edges[6].src, Atom::Num { val: 0, width: 1 }));
    assert!(matches!(&st.edges[8].guard, Some(GuardExpr::And(_, b))
        if matches!(&**b, GuardExpr::Not(_))));
    let n = st.nodes.len();
    assert_eq!(st.nodes[n - 2].name.id, "cond_computed0");
    assert_eq!(st.nodes[n - 1].name.id, "cond_stored0");
    assert_eq!(st.nodes[n - 3].name.id, "while0");
}

#[test]
fn compile_while_errors() {
    let mut pass = CompileControl::default();
    let mut comp = component(&["body"]);
    let w = While { port: Port::This { port: id("x") }, cond: id("cond"), body: enable("body") };
    match pass.finish_while(&w, &mut comp, &ctx()) {
        Err(Error::UndefinedGroup(g)) => assert_eq!(g.id, "cond"),
        _ => panic!("expected an undefined group"),
    }
    let mut comp = component(&["cond"]);
    let w = While {
        port: Port::This { port: id("x") },
        cond: id("cond"),
        body: Box::new(Control::Empty { data: Empty {} }),
    };
    match pass.finish_while(&w, &mut comp, &ctx()) {
        Err(Error::MalformedControl(m)) => assert_eq!(m, "The body of a while must be an enable."),
        _ => panic!("expected a malformed control"),
    }
}

#[test]
fn compile_seq_builds_a_state_machine() {
    let mut comp = component(&["a", "b"]);
    let mut pass = CompileControl::default();
    let s = Sequence { stmts: vec![*enable("a"), *enable("b")] };
    let r = pass.finish_seq(&s, &mut comp, &ctx()).unwrap();
    assert_eq!(enabled_group(&r), "seq0");
    let st = &comp.structure;
    assert_eq!(st.edges.len(), 9);
    let dests: Vec<String> = st.edges.iter().map(|e| dest_name(&e.dest)).collect();
    assert_eq!(
        dests,
        vec![
            "a[go]",
            "fsm0.in",
            "fsm0.write_en",
            "b[go]",
            "fsm0.in",
            "fsm0.write_en",
            "seq0[done]",
            "fsm0.in",
            "fsm0.write_en"
        ]
    );
    assert!(matches!(&st.edges[1].src, Atom::Num { val: 1, width: 32 }));
    assert!(matches!(&st.edges[4].src, Atom::Num { val: 2, width: 32 }));
    assert!(matches!(&st.edges[7].src, Atom::Num { val: 0, width: 32 }));
    assert!(st.edges[7].group.is_none());
    let n = st.nodes.len();
    assert_eq!(st.nodes[n - 1].name.id, "fsm0");
    assert!(matches!(&st.nodes[n - 1].data, NodeData::Cell { params, .. } if params == &vec![32]));
}

#[test]
fn compile_empty_seq() {
    let mut comp = component(&[]);
    let mut pass = CompileControl::default();
    let s = Sequence { stmts: vec![] };
    let r = pass.finish_seq(&s, &mut comp, &ctx()).unwrap();
    assert_eq!(enabled_group(&r), "seq0");
    assert_eq!(comp.structure.edges.len(), 0);
}

#[test]
fn compile_seq_errors() {
    let mut pass = CompileControl::default();
    let mut comp = component(&["a"]);
    let s = Sequence { stmts: vec![*enable("a"), Control::Empty { data: Empty {} }] };
    match pass.finish_seq(&s, &mut comp, &ctx()) {
        Err(Error::MalformedControl(m)) => {
            assert_eq!(m, "Cannot compile non-group statement inside sequence")
        },
        _ => panic!("expected a malformed control"),
    }
    let mut comp = component(&["a"]);
    let s = Sequence { stmts: vec![*enable("a"), *enable("missing")] };
    match pass.finish_seq(&s, &mut comp, &ctx()) {
        Err(Error::Undefined(g)) => assert_eq!(g.id, "missing"),
        _ => panic!("expected an undefined name"),
    }
}

#[test]
fn compile_par_waits_for_all() {
    let mut comp = component(&["a", "b"]);
    let mut pass = CompileControl::default();
    let p = Par { stmts: vec![*enable("a"), *enable("b")] };
    let r = pass.finish_par(&p, &mut comp, &ctx()).unwrap();
    assert_eq!(enabled_group(&r), "par0");
    let st = &comp.structure;
    assert_eq!(st.edges.len(), 3);
    assert_eq!(dest_name(&st.edges[0].dest), "a[go]");
    assert_eq!(dest_name(&st.edges[1].dest), "b[go]");
    assert_eq!(dest_name(&st.edges[2].dest), "par0[done]");
    assert!(st.edges[0].guard.is_none());
    assert!(matches!(&st.edges[2].guard, Some(GuardExpr::And(_, _))));
}

#[test]
fn compile_par_errors() {
    let mut pass = CompileControl::default();
    let mut comp = component(&["a"]);
    let p = Par { stmts: vec![Control::Empty { data: Empty {} }] };
    match pass.finish_par(&p, &mut comp, &ctx()) {
        Err(Error::MalformedControl(m)) => {
            assert_eq!(m, "Cannot compile non-group statement inside sequence")
        },
        _ => panic!("expected a malformed control"),
    }
    let empty = Par { stmts: vec![] };
    let mut comp = component(&[]);
    let r = pass.finish_par(&empty, &mut comp, &ctx()).unwrap();
    assert_eq!(enabled_group(&r), "par0");
    assert_eq!(comp.structure.edges.len(), 1);
    assert!(comp.structure.edges[0].guard.is_none());
}
