//! Compiles the control statements `if`, `while`, `seq` and `par` into
//! groups of guarded assignments.

use vstd::prelude::*;
use crate::ast::{
    Atom, AtomModel, Control, GuardExpr, GuardModel, If, Par, Port, PortModel, Sequence, While,
};
use crate::errors::{Error, ErrorModel};
use crate::ids::Id;
use crate::passes::visitor::{Action, Named};
use crate::structure::{
    after_name, find_node, find_prim, group_ports, next_name, opt_guard_view, port_of, Component,
    Context, EdgeModel, GraphModel, NodeKind, NodeModel, PrimSig, StructureGraph,
};

verus! {

/// Compiles away all control statements into structure.
#[derive(Debug, Default)]
pub struct CompileControl {}

impl Named for CompileControl {
    fn name() -> (r: &'static str)
        ensures
            r@ == "compile-control"@,
    {
        "compile-control"
    }

    fn description() -> (r: &'static str)
        ensures
            r@ == "Compile away all control language constructs into structure"@,
    {
        "Compile away all control language constructs into structure"
    }
}

/// The one-bit constant 1.
pub open spec fn one() -> AtomModel {
    AtomModel::Num(1, 1)
}

/// A guard that reads a port.
pub open spec fn patom(p: PortModel) -> GuardModel {
    GuardModel::Atom(AtomModel::Port(p))
}

/// A guard that reads a constant.
pub open spec fn natom(val: u64, width: u64) -> GuardModel {
    GuardModel::Atom(AtomModel::Num(val, width))
}

/// Both guards.
pub open spec fn gand(a: GuardModel, b: GuardModel) -> GuardModel {
    GuardModel::And(Box::new(a), Box::new(b))
}

/// One of the guards.
pub open spec fn gor(a: GuardModel, b: GuardModel) -> GuardModel {
    GuardModel::Or(Box::new(a), Box::new(b))
}

/// The two sides are equal.
pub open spec fn geq(a: GuardModel, b: GuardModel) -> GuardModel {
    GuardModel::Eq(Box::new(a), Box::new(b))
}

/// The guard does not hold.
pub open spec fn gnot(a: GuardModel) -> GuardModel {
    GuardModel::Not(Box::new(a))
}

/// An assignment.
pub open spec fn edge(
    src: AtomModel,
    dest: PortModel,
    group: Option<Seq<char>>,
    guard: Option<GuardModel>,
) -> EdgeModel {
    EdgeModel { src, dest, group, guard }
}

/// A port of a register.
pub open spec fn reg(name: Seq<char>, port: Seq<char>) -> PortModel {
    PortModel::Comp(name, port)
}

/// The name of the group that a statement enables, if it is an enable.
pub open spec fn enable_name(c: Control) -> Option<Seq<char>> {
    match c {
        Control::Enable { data } => Some(data.comp@),
        _ => None,
    }
}

/// The name of the node whose port a condition reads; none for a hole.
pub open spec fn cond_node_name(p: Port) -> Option<Seq<char>> {
    match p {
        Port::Comp { component, port } => Some(component@),
        Port::This { port } => Some("this"@),
        Port::Hole { group, name } => None,
    }
}

/// The name of the port that a condition reads.
pub open spec fn cond_port_name(p: Port) -> Seq<char> {
    match p {
        Port::Comp { component, port } => port@,
        Port::This { port } => port@,
        Port::Hole { group, name } => name@,
    }
}

/// Whether a node has the holes of a group.
pub open spec fn has_go_done(n: NodeModel) -> bool {
    n.ports.contains("go"@) && n.ports.contains("done"@)
}

/// Whether a register's signature has the ports the compiled code uses.
pub open spec fn reg_ports_ok(ports: Seq<Seq<char>>) -> bool {
    ports.contains("in"@) && ports.contains("out"@) && ports.contains("write_en"@)
}

/// The ports of the library's register.
pub open spec fn reg_sig_ports(ctx: Seq<PrimSig>) -> Seq<Seq<char>> {
    crate::ids::ids_view(ctx[find_prim(ctx, "std_reg"@).unwrap()].ports@)
}

/// A one-bit register of the library, named `name`.
pub open spec fn reg_node(ctx: Seq<PrimSig>, name: Seq<char>, width: u64) -> NodeModel {
    NodeModel { name, kind: NodeKind::Cell("std_reg"@, seq![width]), ports: reg_sig_ports(ctx) }
}

/// The ports of the library's logical `or`.
pub open spec fn or_sig_ports(ctx: Seq<PrimSig>) -> Seq<Seq<char>> {
    crate::ids::ids_view(ctx[find_prim(ctx, "std_or"@).unwrap()].ports@)
}

/// Whether a logical `or`'s signature has the ports the compiled code uses.
pub open spec fn or_ports_ok(ports: Seq<Seq<char>>) -> bool {
    ports.contains("left"@) && ports.contains("right"@) && ports.contains("out"@)
}

/// A one-bit logical `or` of the library, named `name`.
pub open spec fn or_node(ctx: Seq<PrimSig>, name: Seq<char>) -> NodeModel {
    NodeModel { name, kind: NodeKind::Cell("std_or"@, seq![1u64]), ports: or_sig_ports(ctx) }
}

/// The nodes with a new group node appended.
pub open spec fn with_group(nodes: Seq<NodeModel>, g: Seq<char>) -> Seq<NodeModel> {
    nodes.push(NodeModel { name: g, kind: NodeKind::Group, ports: group_ports() })
}

/// The node with the given name, among nodes that have it.
pub open spec fn node_named(nodes: Seq<NodeModel>, name: Seq<char>) -> NodeModel {
    nodes[find_node(nodes, name).unwrap()]
}

/// The name of the group that compiles an `if`.
pub open spec fn if_name(st: GraphModel) -> Seq<char> {
    next_name(st.names, "if"@)
}

/// The error that compiling an `if` gives, if any: the checks in the order
/// the pass makes them.
pub open spec fn if_failure(st: GraphModel, ctx: Seq<PrimSig>, cif: If) -> Option<ErrorModel> {
    let g = if_name(st);
    let nodes1 = with_group(st.nodes, g);
    if find_node(st.nodes, g) is Some {
        Some(ErrorModel::DuplicateGroup(g))
    } else if find_node(nodes1, cif.cond@) is None {
        Some(ErrorModel::Undefined(cif.cond@))
    } else if cif.port is Hole {
        Some(ErrorModel::MalformedControl("Can't use a hole as a condition."@))
    } else if find_node(nodes1, cond_node_name(cif.port).unwrap()) is None {
        Some(ErrorModel::Undefined(cond_node_name(cif.port).unwrap()))
    } else if enable_name(*cif.tbranch) is None || enable_name(*cif.fbranch) is None {
        Some(ErrorModel::MalformedControl("Both branches of an if must be an enable."@))
    } else if find_node(nodes1, enable_name(*cif.tbranch).unwrap()) is None {
        Some(ErrorModel::Undefined(enable_name(*cif.tbranch).unwrap()))
    } else if find_node(nodes1, enable_name(*cif.fbranch).unwrap()) is None {
        Some(ErrorModel::Undefined(enable_name(*cif.fbranch).unwrap()))
    } else if find_prim(ctx, "std_reg"@) is None {
        Some(ErrorModel::UndefinedPrimitive("std_reg"@))
    } else if find_prim(ctx, "std_or"@) is None {
        Some(ErrorModel::UndefinedPrimitive("std_or"@))
    } else if !{
        &&& reg_ports_ok(reg_sig_ports(ctx))
        &&& or_ports_ok(or_sig_ports(ctx))
        &&& has_go_done(node_named(nodes1, cif.cond@))
        &&& has_go_done(node_named(nodes1, enable_name(*cif.tbranch).unwrap()))
        &&& has_go_done(node_named(nodes1, enable_name(*cif.fbranch).unwrap()))
        &&& node_named(nodes1, cond_node_name(cif.port).unwrap()).ports.contains(
            cond_port_name(cif.port),
        )
    } {
        Some(ErrorModel::AnyUndefinedPort)
    } else {
        None
    }
}

/// The assignments of the group `g` that compiles an `if` whose condition
/// group is `cn`, whose condition port is `cport`, whose branches are `tn`
/// and `fn_`, with the registers `cc` (whether the condition was computed)
/// and `cs` (the condition's value) and the logical `or` named `orc`.
pub open spec fn if_edges(
    g: Seq<char>,
    cn: NodeModel,
    cport: PortModel,
    tn: NodeModel,
    fn_: NodeModel,
    cc: Seq<char>,
    cs: Seq<char>,
    orc: Seq<char>,
) -> Seq<EdgeModel> {
    let grp = Some(g);
    let cond_done = gand(patom(port_of(cn, "go"@)), patom(port_of(cn, "done"@)));
    seq![
        edge(one(), port_of(cn, "go"@), grp, Some(gnot(patom(reg(cc, "out"@))))),
        edge(one(), reg(cc, "in"@), grp, Some(cond_done)),
        edge(one(), reg(cc, "write_en"@), grp, Some(cond_done)),
        edge(AtomModel::Port(cport), reg(cs, "in"@), grp, Some(cond_done)),
        edge(one(), reg(cs, "write_en"@), grp, Some(cond_done)),
        edge(
            one(),
            port_of(tn, "go"@),
            grp,
            Some(gand(patom(reg(cc, "out"@)), patom(reg(cs, "out"@)))),
        ),
        edge(
            one(),
            port_of(fn_, "go"@),
            grp,
            Some(gand(patom(reg(cc, "out"@)), gnot(patom(reg(cs, "out"@))))),
        ),
        edge(AtomModel::Port(port_of(tn, "done"@)), reg(orc, "right"@), grp, None),
        edge(AtomModel::Port(port_of(fn_, "done"@)), reg(orc, "left"@), grp, None),
        edge(AtomModel::Port(reg(orc, "out"@)), PortModel::Hole(g, "done"@), grp, None),
    ]
}

/// The structure after compiling an `if` that compiles.
pub open spec fn if_state(st: GraphModel, ctx: Seq<PrimSig>, cif: If) -> GraphModel {
    let g = if_name(st);
    let nodes1 = with_group(st.nodes, g);
    let names1 = after_name(st.names, "if"@);
    let cc = next_name(names1, "cond_computed"@);
    let names2 = after_name(names1, "cond_computed"@);
    let cs = next_name(names2, "cond_stored"@);
    let names3 = after_name(names2, "cond_stored"@);
    let orc = next_name(names3, "or"@);
    let names4 = after_name(names3, "or"@);
    let cn = node_named(nodes1, cif.cond@);
    let cport = port_of(
        node_named(nodes1, cond_node_name(cif.port).unwrap()),
        cond_port_name(cif.port),
    );
    let tn = node_named(nodes1, enable_name(*cif.tbranch).unwrap());
    let fn_ = node_named(nodes1, enable_name(*cif.fbranch).unwrap());
    GraphModel {
        nodes: nodes1.push(reg_node(ctx, cc, 1)).push(reg_node(ctx, cs, 1)).push(or_node(ctx, orc)),
        edges: st.edges + if_edges(g, cn, cport, tn, fn_, cc, cs, orc),
        names: names4,
    }
}

/// The name of the group that compiles a `while`.
pub open spec fn while_name(st: GraphModel) -> Seq<char> {
    next_name(st.names, "while"@)
}

/// The error that compiling a `while` gives, if any: the checks in the
/// order the pass makes them.
pub open spec fn while_failure(st: GraphModel, ctx: Seq<PrimSig>, ctrl: While) -> Option<ErrorModel> {
    let g = while_name(st);
    let nodes1 = with_group(st.nodes, g);
    if find_node(st.nodes, g) is Some {
        Some(ErrorModel::DuplicateGroup(g))
    } else if find_node(nodes1, ctrl.cond@) is None {
        Some(ErrorModel::UndefinedGroup(ctrl.cond@))
    } else if ctrl.port is Hole {
        Some(ErrorModel::MalformedControl("Can't use a hole as a condition."@))
    } else if find_node(nodes1, cond_node_name(ctrl.port).unwrap()) is None {
        Some(ErrorModel::Undefined(cond_node_name(ctrl.port).unwrap()))
    } else if enable_name(*ctrl.body) is None {
        Some(ErrorModel::MalformedControl("The body of a while must be an enable."@))
    } else if find_node(nodes1, enable_name(*ctrl.body).unwrap()) is None {
        Some(ErrorModel::Undefined(enable_name(*ctrl.body).unwrap()))
    } else if find_prim(ctx, "std_reg"@) is None {
        Some(ErrorModel::UndefinedPrimitive("std_reg"@))
    } else if !{
        &&& reg_ports_ok(reg_sig_ports(ctx))
        &&& has_go_done(node_named(nodes1, ctrl.cond@))
        &&& has_go_done(node_named(nodes1, enable_name(*ctrl.body).unwrap()))
        &&& node_named(nodes1, cond_node_name(ctrl.port).unwrap()).ports.contains(
            cond_port_name(ctrl.port),
        )
    } {
        Some(ErrorModel::AnyUndefinedPort)
    } else {
        None
    }
}

/// The assignments of the group `g` that compiles a `while` whose
/// condition group is `cn`, whose condition port is `cport`, whose body is
/// `bn`, with the registers `cc` (whether the condition was computed) and
/// `cs` (the condition's value).
pub open spec fn while_edges(
    g: Seq<char>,
    cn: NodeModel,
    cport: PortModel,
    bn: NodeModel,
    cc: Seq<char>,
    cs: Seq<char>,
) -> Seq<EdgeModel> {
    let grp = Some(g);
    let cond_done = gand(patom(port_of(cn, "go"@)), patom(port_of(cn, "done"@)));
    let running = gand(patom(reg(cc, "out"@)), patom(reg(cs, "out"@)));
    let finished = gand(patom(reg(cc, "out"@)), gnot(patom(reg(cs, "out"@))));
    let body_done = gand(running, patom(port_of(bn, "done"@)));
    seq![
        edge(one(), port_of(cn, "go"@), grp, Some(gnot(patom(reg(cc, "out"@))))),
        edge(one(), reg(cc, "in"@), grp, Some(cond_done)),
        edge(one(), reg(cc, "write_en"@), grp, Some(cond_done)),
        edge(AtomModel::Port(cport), reg(cs, "in"@), grp, Some(cond_done)),
        edge(one(), reg(cs, "write_en"@), grp, Some(cond_done)),
        edge(one(), port_of(bn, "go"@), grp, Some(running)),
        edge(AtomModel::Num(0, 1), reg(cc, "in"@), grp, Some(body_done)),
        edge(one(), reg(cc, "write_en"@), grp, Some(body_done)),
        edge(one(), PortModel::Hole(g, "done"@), grp, Some(finished)),
        edge(AtomModel::Num(0, 1), reg(cc, "in"@), grp, Some(finished)),
        edge(one(), reg(cc, "write_en"@), grp, Some(finished)),
    ]
}

/// The structure after compiling a `while` that compiles.
pub open spec fn while_state(st: GraphModel, ctx: Seq<PrimSig>, ctrl: While) -> GraphModel {
    let g = while_name(st);
    let nodes1 = with_group(st.nodes, g);
    let names1 = after_name(st.names, "while"@);
    let cc = next_name(names1, "cond_computed"@);
    let names2 = after_name(names1, "cond_computed"@);
    let cs = next_name(names2, "cond_stored"@);
    let names3 = after_name(names2, "cond_stored"@);
    let cn = node_named(nodes1, ctrl.cond@);
    let cport = port_of(
        node_named(nodes1, cond_node_name(ctrl.port).unwrap()),
        cond_port_name(ctrl.port),
    );
    let bn = node_named(nodes1, enable_name(*ctrl.body).unwrap());
    GraphModel {
        nodes: nodes1.push(reg_node(ctx, cc, 1)).push(reg_node(ctx, cs, 1)),
        edges: st.edges + while_edges(g, cn, cport, bn, cc, cs),
        names: names3,
    }
}

/// Whether a statement of a `seq` or `par` is an enable of a group that
/// exists and has the holes `go` and `done`.
pub open spec fn stmt_ok(nodes: Seq<NodeModel>, c: Control) -> bool {
    &&& enable_name(c) is Some
    &&& find_node(nodes, enable_name(c).unwrap()) is Some
    &&& has_go_done(node_named(nodes, enable_name(c).unwrap()))
}

/// The error of a statement of a `seq` or `par` that cannot be compiled.
pub open spec fn stmt_error(nodes: Seq<NodeModel>, c: Control) -> ErrorModel {
    if enable_name(c) is None {
        ErrorModel::MalformedControl("Cannot compile non-group statement inside sequence"@)
    } else if find_node(nodes, enable_name(c).unwrap()) is None {
        ErrorModel::Undefined(enable_name(c).unwrap())
    } else {
        ErrorModel::AnyUndefinedPort
    }
}

/// The first statement from `i` on that cannot be compiled, with the
/// ports of the registers as `regs_ok` says.
pub open spec fn first_bad(
    nodes: Seq<NodeModel>,
    stmts: Seq<Control>,
    regs_ok: bool,
    i: int,
) -> Option<int>
    decreases stmts.len() - i,
{
    if i < 0 || i >= stmts.len() {
        None
    } else if !(regs_ok && stmt_ok(nodes, stmts[i])) {
        Some(i)
    } else {
        first_bad(nodes, stmts, regs_ok, i + 1)
    }
}

/// The group node that a statement enables.
pub open spec fn stmt_node(nodes: Seq<NodeModel>, c: Control) -> NodeModel {
    node_named(nodes, enable_name(c).unwrap())
}

/// The name of the group that compiles a `seq`.
pub open spec fn seq_name(st: GraphModel) -> Seq<char> {
    next_name(st.names, "seq"@)
}

/// The name of the state register of a `seq`.
pub open spec fn seq_fsm_name(st: GraphModel) -> Seq<char> {
    next_name(after_name(st.names, "seq"@), "fsm"@)
}

/// The nodes once the group and the state register of a `seq` are added.
pub open spec fn seq_nodes(st: GraphModel, ctx: Seq<PrimSig>) -> Seq<NodeModel> {
    with_group(st.nodes, seq_name(st)).push(reg_node(ctx, seq_fsm_name(st), 32))
}

/// The error that compiling a `seq` gives, if any.
pub open spec fn seq_failure(st: GraphModel, ctx: Seq<PrimSig>, stmts: Seq<Control>) -> Option<
    ErrorModel,
> {
    let g = seq_name(st);
    if find_node(st.nodes, g) is Some {
        Some(ErrorModel::DuplicateGroup(g))
    } else if find_prim(ctx, "std_reg"@) is None {
        Some(ErrorModel::UndefinedPrimitive("std_reg"@))
    } else {
        let nodes = seq_nodes(st, ctx);
        match first_bad(nodes, stmts, reg_ports_ok(reg_sig_ports(ctx)), 0) {
            Some(k) => Some(stmt_error(nodes, stmts[k])),
            None => None,
        }
    }
}

/// The assignments of the `c`-th statement, enabling `gn`, of the `seq`
/// group `g` with state register `fsm`; the last statement also finishes
/// the group and resets the register.
pub open spec fn seq_stmt_edges(
    g: Seq<char>,
    fsm: Seq<char>,
    gn: NodeModel,
    c: int,
    last: bool,
) -> Seq<EdgeModel> {
    let grp = Some(g);
    let fsm_out = patom(reg(fsm, "out"@));
    let at = geq(fsm_out, natom(c as u64, 32));
    let done_guard = gand(at, patom(port_of(gn, "done"@)));
    let next = natom((c + 1) as u64, 32);
    seq![
        edge(one(), port_of(gn, "go"@), grp, Some(gand(at, gnot(patom(port_of(gn, "done"@)))))),
        edge(AtomModel::Num((c + 1) as u64, 32), reg(fsm, "in"@), grp, Some(done_guard)),
        edge(one(), reg(fsm, "write_en"@), grp, Some(done_guard)),
    ] + if last {
        seq![
            edge(one(), PortModel::Hole(g, "done"@), grp, Some(geq(fsm_out, next))),
            edge(AtomModel::Num(0, 32), reg(fsm, "in"@), None, Some(geq(fsm_out, next))),
            edge(one(), reg(fsm, "write_en"@), None, Some(geq(fsm_out, next))),
        ]
    } else {
        Seq::empty()
    }
}

/// The assignments of the first `k` statements of a `seq`.
pub open spec fn seq_edges(
    g: Seq<char>,
    fsm: Seq<char>,
    nodes: Seq<NodeModel>,
    stmts: Seq<Control>,
    k: int,
) -> Seq<EdgeModel>
    decreases k,
{
    if k <= 0 {
        Seq::empty()
    } else {
        seq_edges(g, fsm, nodes, stmts, k - 1) + seq_stmt_edges(
            g,
            fsm,
            stmt_node(nodes, stmts[k - 1]),
            k - 1,
            k - 1 == stmts.len() - 1,
        )
    }
}

/// The structure after compiling a `seq` that compiles.
pub open spec fn seq_state(st: GraphModel, ctx: Seq<PrimSig>, stmts: Seq<Control>) -> GraphModel {
    GraphModel {
        nodes: seq_nodes(st, ctx),
        edges: st.edges + seq_edges(
            seq_name(st),
            seq_fsm_name(st),
            seq_nodes(st, ctx),
            stmts,
            stmts.len() as int,
        ),
        names: after_name(after_name(st.names, "seq"@), "fsm"@),
    }
}

/// The name of the group that compiles a `par`.
pub open spec fn par_name(st: GraphModel) -> Seq<char> {
    next_name(st.names, "par"@)
}

/// The error that compiling a `par` gives, if any.
pub open spec fn par_failure(st: GraphModel, stmts: Seq<Control>) -> Option<ErrorModel> {
    let g = par_name(st);
    let nodes = with_group(st.nodes, g);
    if find_node(st.nodes, g) is Some {
        Some(ErrorModel::DuplicateGroup(g))
    } else {
        match first_bad(nodes, stmts, true, 0) {
            Some(k) => Some(stmt_error(nodes, stmts[k])),
            None => None,
        }
    }
}

/// The assignments that start the first `k` statements of a `par` group `g`.
pub open spec fn par_edges(g: Seq<char>, nodes: Seq<NodeModel>, stmts: Seq<Control>, k: int) -> Seq<
    EdgeModel,
>
    decreases k,
{
    if k <= 0 {
        Seq::empty()
    } else {
        par_edges(g, nodes, stmts, k - 1).push(
            edge(one(), port_of(stmt_node(nodes, stmts[k - 1]), "go"@), Some(g), None),
        )
    }
}

/// The conjunction of the `done` holes of the first `k` statements.
pub open spec fn par_done(nodes: Seq<NodeModel>, stmts: Seq<Control>, k: int) -> Option<GuardModel>
    decreases k,
{
    if k <= 0 {
        None
    } else {
        let d = patom(port_of(stmt_node(nodes, stmts[k - 1]), "done"@));
        Some(
            match par_done(nodes, stmts, k - 1) {
                Some(x) => gand(x, d),
                None => d,
            },
        )
    }
}

/// The structure after compiling a `par` that compiles.
pub open spec fn par_state(st: GraphModel, stmts: Seq<Control>) -> GraphModel {
    let g = par_name(st);
    let nodes = with_group(st.nodes, g);
    GraphModel {
        nodes,
        edges: st.edges + par_edges(g, nodes, stmts, stmts.len() as int).push(
            edge(
                one(),
                PortModel::Hole(g, "done"@),
                Some(g),
                par_done(nodes, stmts, stmts.len() as int),
            ),
        ),
        names: after_name(st.names, "par"@),
    }
}

/// Whether the nodes, edges and counters of `a` extend those of `b`.
pub open spec fn extends(a: GraphModel, b: GraphModel) -> bool {
    &&& b.nodes.len() <= a.nodes.len()
    &&& a.nodes.take(b.nodes.len() as int) == b.nodes
    &&& b.edges.len() <= a.edges.len()
    &&& a.edges.take(b.edges.len() as int) == b.edges
}

/// A structure whose nodes begin with those of `b` and whose edges are
/// those of `b` extends `b`.
pub proof fn lemma_extends(a: GraphModel, b: GraphModel)
    requires
        b.nodes.len() <= a.nodes.len(),
        forall|i: int| 0 <= i < b.nodes.len() ==> a.nodes[i] == b.nodes[i],
        a.edges == b.edges,
    ensures
        extends(a, b),
{
    assert(a.nodes.take(b.nodes.len() as int) =~= b.nodes);
    assert(a.edges.take(b.edges.len() as int) =~= b.edges);
}

/// Whether an action replaces the control with an enable of group `g`.
pub open spec fn enables(a: Action, g: Seq<char>) -> bool {
    a matches Action::Change(Control::Enable { data }) && data.comp@ == g
}

/// Returns the error of a failed port lookup, or the port.
fn get_port(st: &StructureGraph, node: usize, port: &str) -> (r: Result<Port, Error>)
    requires
        node < st@.nodes.len(),
    ensures
        r is Ok <==> st@.nodes[node as int].ports.contains(port@),
        r is Ok ==> r->Ok_0@ == port_of(st@.nodes[node as int], port@),
        r is Err ==> r->Err_0 is UndefinedPort,
{
    st.port_ref(node, port)
}

/// A guard that reads a port.
fn pguard(p: &Port) -> (r: GuardExpr)
    ensures
        r@ == patom(p@),
{
    GuardExpr::Atom(Atom::Port(p.copy()))
}

impl CompileControl {
    /// Compiles `if comp.out with cond { true } else { false }` into a group
    /// `if<n>` with two new one-bit registers, `cond_computed` (whether the
    /// condition was computed) and `cond_stored` (its value), and a new
    /// logical `or` of the two branches' `done` holes:
    /// ```text
    /// cond[go] = !cond_computed.out ? 1'b1;
    /// cond_computed.in = cond[go] & cond[done] ? 1'b1;
    /// cond_computed.write_en = cond[go] & cond[done] ? 1'b1;
    /// cond_stored.in = cond[go] & cond[done] ? comp.out;
    /// cond_stored.write_en = cond[go] & cond[done] ? 1'b1;
    /// true[go] = cond_computed.out & cond_stored.out ? 1'b1;
    /// false[go] = cond_computed.out & !cond_stored.out ? 1'b1;
    /// or.right = true[done];
    /// or.left = false[done];
    /// if0[done] = or.out;
    /// ```
    /// The condition is computed once and its value, true or false, is
    /// stored; the group is done when either branch is done. Replaces the
    /// statement with an enable of the new group.
    pub fn finish_if(&mut self, cif: &If, comp: &mut Component, ctx: &Context) -> (r: Result<
        Action,
        Error,
    >)
        requires
            cif.port is This ==> find_node(old(comp).structure@.nodes, "this"@) is Some,
        ensures
            final(comp).name == old(comp).name,
            final(comp).control == old(comp).control,
            r is Ok <==> if_failure(old(comp).structure@, ctx.primitives@, *cif) is None,
            r is Ok ==> {
                &&& enables(r->Ok_0, if_name(old(comp).structure@))
                &&& final(comp).structure@ == if_state(
                    old(comp).structure@,
                    ctx.primitives@,
                    *cif,
                )
            },
            r is Err ==> {
                &&& error_is(r->Err_0, if_failure(old(comp).structure@, ctx.primitives@, *cif))
                &&& extends(final(comp).structure@, old(comp).structure@)
            },
    {
        compile_if(&mut comp.structure, ctx, cif)
    }

    /// Compiles `while comp.out with cond { body }` into a group `while<n>`
    /// with two new one-bit registers, `cond_computed` (whether the
    /// condition was computed) and `cond_stored` (its value):
    /// ```text
    /// cond[go] = !cond_computed.out ? 1'b1;
    /// cond_computed.in = cond[go] & cond[done] ? 1'b1;
    /// cond_computed.write_en = cond[go] & cond[done] ? 1'b1;
    /// cond_stored.in = cond[go] & cond[done] ? comp.out;
    /// cond_stored.write_en = cond[go] & cond[done] ? 1'b1;
    /// body[go] = cond_computed.out & cond_stored.out ? 1'b1;
    /// cond_computed.in = cond_computed.out & cond_stored.out & body[done] ? 1'b0;
    /// cond_computed.write_en = cond_computed.out & cond_stored.out & body[done] ? 1'b1;
    /// while0[done] = cond_computed.out & !cond_stored.out ? 1'b1;
    /// cond_computed.in = cond_computed.out & !cond_stored.out ? 1'b0;
    /// cond_computed.write_en = cond_computed.out & !cond_stored.out ? 1'b1;
    /// ```
    /// The condition is computed again each time the body is done, and the
    /// group is done once it is computed and false. Replaces the statement
    /// with an enable of the new group.
    pub fn finish_while(&mut self, ctrl: &While, comp: &mut Component, ctx: &Context) -> (r: Result<
        Action,
        Error,
    >)
        requires
            ctrl.port is This ==> find_node(old(comp).structure@.nodes, "this"@) is Some,
        ensures
            final(comp).name == old(comp).name,
            final(comp).control == old(comp).control,
            r is Ok <==> while_failure(old(comp).structure@, ctx.primitives@, *ctrl) is None,
            r is Ok ==> {
                &&& enables(r->Ok_0, while_name(old(comp).structure@))
                &&& final(comp).structure@ == while_state(
                    old(comp).structure@,
                    ctx.primitives@,
                    *ctrl,
                )
            },
            r is Err ==> {
                &&& error_is(r->Err_0, while_failure(old(comp).structure@, ctx.primitives@, *ctrl))
                &&& extends(final(comp).structure@, old(comp).structure@)
            },
    {
        compile_while(&mut comp.structure, ctx, ctrl)
    }

    /// Compiles `seq { g0; g1; ... }` into a group `seq<n>` driven by a new
    /// 32-bit state register `fsm`: while `fsm.out` is `i`, group `gi` runs,
    /// and when it is done `fsm` goes to `i + 1`. When `fsm.out` reaches the
    /// number of statements the group is done and, outside the group, `fsm`
    /// is reset to 0. Replaces the statement with an enable of the new group.
    pub fn finish_seq(&mut self, s: &Sequence, comp: &mut Component, ctx: &Context) -> (r: Result<
        Action,
        Error,
    >)
        ensures
            final(comp).name == old(comp).name,
            final(comp).control == old(comp).control,
            r is Ok <==> seq_failure(old(comp).structure@, ctx.primitives@, s.stmts@) is None,
            r is Ok ==> {
                &&& enables(r->Ok_0, seq_name(old(comp).structure@))
                &&& final(comp).structure@ == seq_state(
                    old(comp).structure@,
                    ctx.primitives@,
                    s.stmts@,
                )
            },
            r is Err ==> {
                &&& error_is(
                    r->Err_0,
                    seq_failure(old(comp).structure@, ctx.primitives@, s.stmts@),
                )
                &&& extends(final(comp).structure@, old(comp).structure@)
            },
    {
        compile_seq(&mut comp.structure, ctx, s)
    }

    /// Compiles `par { g0; g1; ... }` into a group `par<n>` that starts every
    /// statement's group at once and is done when all of them are done.
    /// Replaces the statement with an enable of the new group.
    pub fn finish_par(&mut self, s: &Par, comp: &mut Component, _ctx: &Context) -> (r: Result<
        Action,
        Error,
    >)
        ensures
            final(comp).name == old(comp).name,
            final(comp).control == old(comp).control,
            r is Ok <==> par_failure(old(comp).structure@, s.stmts@) is None,
            r is Ok ==> {
                &&& enables(r->Ok_0, par_name(old(comp).structure@))
                &&& final(comp).structure@ == par_state(old(comp).structure@, s.stmts@)
            },
            r is Err ==> {
                &&& error_is(r->Err_0, par_failure(old(comp).structure@, s.stmts@))
                &&& extends(final(comp).structure@, old(comp).structure@)
            },
    {
        compile_par(&mut comp.structure, s)
    }
}

/// Whether an error is the one a spec names.
pub open spec fn error_is(e: Error, m: Option<ErrorModel>) -> bool {
    m is Some && crate::errors::error_matches(e, m.unwrap())
}

#[verifier::rlimit(80)]
fn compile_if(st: &mut StructureGraph, ctx: &Context, cif: &If) -> (r: Result<Action, Error>)
    requires
        cif.port is This ==> find_node(old(st)@.nodes, "this"@) is Some,
    ensures
        r is Ok <==> if_failure(old(st)@, ctx.primitives@, *cif) is None,
        r is Ok ==> {
            &&& enables(r->Ok_0, if_name(old(st)@))
            &&& final(st)@ == if_state(old(st)@, ctx.primitives@, *cif)
        },
        r is Err ==> {
            &&& error_is(r->Err_0, if_failure(old(st)@, ctx.primitives@, *cif))
            &&& extends(final(st)@, old(st)@)
        },
{
    let ghost st0 = st@;
    let ghost g = if_name(st0);
    let ghost nodes1 = with_group(st0.nodes, g);
    proof {
        crate::structure::lemma_find_node_push(
            st0.nodes,
            NodeModel { name: g, kind: NodeKind::Group, ports: group_ports() },
            "this"@,
        );
    }
    // create a new group for the structure of the `if`
    let if_group = Id::from_string(st.namegen.gen_name("if"));
    let if_group_node = match st.insert_group(&if_group) {
        Ok(i) => i,
        Err(e) => {
            proof { lemma_extends(st@, st0); }
            return Err(e);
        },
    };
    assert(st@.nodes == nodes1);
    let cond_group_node = match st.get_node_by_name(&cif.cond) {
        Some(i) => i,
        None => {
            proof { lemma_extends(st@, st0); }
            return Err(Error::Undefined(cif.cond.copy()));
        },
    };
    let (cond_node, cond_port) = match &cif.port {
        Port::Comp { component, port } => match st.get_node_by_name(component) {
            Some(i) => (i, port),
            None => {
                proof { lemma_extends(st@, st0); }
                return Err(Error::Undefined(component.copy()));
            },
        },
        Port::This { port } => match st.get_node_by_name(&Id::from_str("this")) {
            Some(i) => (i, port),
            None => {
                assert(false);
                return Err(Error::Undefined(Id::from_str("this")));
            },
        },
        Port::Hole { .. } => {
            proof { lemma_extends(st@, st0); }
            return Err(Error::MalformedControl(String::from_str("Can't use a hole as a condition.")));
        },
    };
    // extract the group names from the control statement
    let (true_group, false_group) = match &*cif.tbranch {
        Control::Enable { data: t } => match &*cif.fbranch {
            Control::Enable { data: f } => (&t.comp, &f.comp),
            _ => {
                proof { lemma_extends(st@, st0); }
                return Err(
                    Error::MalformedControl(
                        String::from_str("Both branches of an if must be an enable."),
                    ),
                );
            },
        },
        _ => {
            proof { lemma_extends(st@, st0); }
            return Err(
                Error::MalformedControl(
                    String::from_str("Both branches of an if must be an enable."),
                ),
            );
        },
    };
    let true_group_node = match st.get_node_by_name(true_group) {
        Some(i) => i,
        None => {
            proof { lemma_extends(st@, st0); }
            return Err(Error::Undefined(true_group.copy()));
        },
    };
    let false_group_node = match st.get_node_by_name(false_group) {
        Some(i) => i,
        None => {
            proof { lemma_extends(st@, st0); }
            return Err(Error::Undefined(false_group.copy()));
        },
    };
    let width_one: [u64; 1] = [1];
    assert(width_one@ =~= seq![1u64]);
    let cond_computed = match st.new_primitive(ctx, "cond_computed", "std_reg", &width_one) {
        Ok(i) => i,
        Err(e) => {
            proof { lemma_extends(st@, st0); }
            return Err(e);
        },
    };
    let cond_stored = match st.new_primitive(ctx, "cond_stored", "std_reg", &width_one) {
        Ok(i) => i,
        Err(e) => {
            assert(false);
            return Err(e);
        },
    };
    let or_cell = match st.new_primitive(ctx, "or", "std_or", &width_one) {
        Ok(i) => i,
        Err(e) => {
            proof { lemma_extends(st@, st0); }
            return Err(e);
        },
    };
    let ghost nodes3 = st@.nodes;
    assert(nodes3.take(st0.nodes.len() as int) =~= st0.nodes);
    assert(nodes3[cond_group_node as int] == nodes1[cond_group_node as int]);
    assert(nodes3[cond_node as int] == nodes1[cond_node as int]);
    assert(nodes3[true_group_node as int] == nodes1[true_group_node as int]);
    assert(nodes3[false_group_node as int] == nodes1[false_group_node as int]);
    assert(nodes3[if_group_node as int] == nodes1[if_group_node as int]);
    assert(st@.edges =~= st0.edges.take(st0.edges.len() as int));
    let ghost ports_ok = {
        &&& reg_ports_ok(nodes3[cond_computed as int].ports)
        &&& reg_ports_ok(nodes3[cond_stored as int].ports)
        &&& or_ports_ok(nodes3[or_cell as int].ports)
        &&& has_go_done(nodes3[cond_group_node as int])
        &&& has_go_done(nodes3[true_group_node as int])
        &&& has_go_done(nodes3[false_group_node as int])
        &&& nodes3[cond_node as int].ports.contains(cond_port@)
        &&& nodes3[if_group_node as int].ports.contains("done"@)
    };
    assert(node_named(nodes1, cif.cond@) == nodes3[cond_group_node as int]);
    assert(node_named(nodes1, cond_node_name(cif.port).unwrap()) == nodes3[cond_node as int]);
    assert(cond_port_name(cif.port) == cond_port@);
    assert(node_named(nodes1, enable_name(*cif.tbranch).unwrap()) == nodes3[true_group_node as int]);
    assert(node_named(nodes1, enable_name(*cif.fbranch).unwrap()) == nodes3[false_group_node as int]);
    assert(nodes3[cond_computed as int].ports == reg_sig_ports(ctx.primitives@));
    assert(nodes3[cond_stored as int].ports == reg_sig_ports(ctx.primitives@));
    assert(nodes3[or_cell as int].ports == or_sig_ports(ctx.primitives@));
    assert(nodes3[if_group_node as int].ports == group_ports());
    assert(group_ports()[1] == "done"@);
    assert(if_failure(st0, ctx.primitives@, *cif) == if ports_ok {
        None::<ErrorModel>
    } else {
        Some(ErrorModel::AnyUndefinedPort)
    });
    assert(extends(st@, st0));
    // the ports that the new assignments read and write
    let cond_go = match get_port(st, cond_group_node, "go") {
        Ok(p) => p,
        Err(e) => return Err(e),
    };
    let cond_done = match get_port(st, cond_group_node, "done") {
        Ok(p) => p,
        Err(e) => return Err(e),
    };
    let cc_out = match get_port(st, cond_computed, "out") {
        Ok(p) => p,
        Err(e) => return Err(e),
    };
    let cc_in = match get_port(st, cond_computed, "in") {
        Ok(p) => p,
        Err(e) => return Err(e),
    };
    let cc_write_en = match get_port(st, cond_computed, "write_en") {
        Ok(p) => p,
        Err(e) => return Err(e),
    };
    let cs_out = match get_port(st, cond_stored, "out") {
        Ok(p) => p,
        Err(e) => return Err(e),
    };
    let cs_in = match get_port(st, cond_stored, "in") {
        Ok(p) => p,
        Err(e) => return Err(e),
    };
    let cs_write_en = match get_port(st, cond_stored, "write_en") {
        Ok(p) => p,
        Err(e) => return Err(e),
    };
    let or_left = match get_port(st, or_cell, "left") {
        Ok(p) => p,
        Err(e) => return Err(e),
    };
    let or_right = match get_port(st, or_cell, "right") {
        Ok(p) => p,
        Err(e) => return Err(e),
    };
    let or_out = match get_port(st, or_cell, "out") {
        Ok(p) => p,
        Err(e) => return Err(e),
    };
    let cond = match get_port(st, cond_node, cond_port.id.as_str()) {
        Ok(p) => p,
        Err(e) => return Err(e),
    };
    let true_go = match get_port(st, true_group_node, "go") {
        Ok(p) => p,
        Err(e) => return Err(e),
    };
    let true_done = match get_port(st, true_group_node, "done") {
        Ok(p) => p,
        Err(e) => return Err(e),
    };
    let false_go = match get_port(st, false_group_node, "go") {
        Ok(p) => p,
        Err(e) => return Err(e),
    };
    let false_done = match get_port(st, false_group_node, "done") {
        Ok(p) => p,
        Err(e) => return Err(e),
    };
    let if_done = match get_port(st, if_group_node, "done") {
        Ok(p) => p,
        Err(e) => return Err(e),
    };
    // cond[go] = !cond_computed.out ? 1'b1;
    let num = st.new_constant(1, 1);
    st.insert_edge(num, cond_go.copy(), Some(if_group.copy()), Some(pguard(&cc_out).not()));
    // cond_computed.in = cond[go] & cond[done] ? 1'b1;
    // cond_computed.write_en = cond[go] & cond[done] ? 1'b1;
    let num = st.new_constant(1, 1);
    st.insert_edge(
        num,
        cc_in,
        Some(if_group.copy()),
        Some(pguard(&cond_go).and(pguard(&cond_done))),
    );
    let num = st.new_constant(1, 1);
    st.insert_edge(
        num,
        cc_write_en,
        Some(if_group.copy()),
        Some(pguard(&cond_go).and(pguard(&cond_done))),
    );
    // cond_stored.in = cond[go] & cond[done] ? comp.out;
    // cond_stored.write_en = cond[go] & cond[done] ? 1'b1;
    st.insert_edge(
        Atom::Port(cond),
        cs_in,
        Some(if_group.copy()),
        Some(pguard(&cond_go).and(pguard(&cond_done))),
    );
    let num = st.new_constant(1, 1);
    st.insert_edge(
        num,
        cs_write_en,
        Some(if_group.copy()),
        Some(pguard(&cond_go).and(pguard(&cond_done))),
    );
    // true[go] = cond_computed.out & cond_stored.out ? 1'b1;
    let num = st.new_constant(1, 1);
    st.insert_edge(
        num,
        true_go,
        Some(if_group.copy()),
        Some(pguard(&cc_out).and(pguard(&cs_out))),
    );
    // false[go] = cond_computed.out & !cond_stored.out ? 1'b1;
    let num = st.new_constant(1, 1);
    st.insert_edge(
        num,
        false_go,
        Some(if_group.copy()),
        Some(pguard(&cc_out).and(pguard(&cs_out).not())),
    );
    // or.right = true[done]; or.left = false[done]; if[done] = or.out;
    st.insert_edge(Atom::Port(true_done), or_right, Some(if_group.copy()), None);
    st.insert_edge(Atom::Port(false_done), or_left, Some(if_group.copy()), None);
    st.insert_edge(Atom::Port(or_out), if_done, Some(if_group.copy()), None);
    assert(st@.edges =~= if_state(st0, ctx.primitives@, *cif).edges);
    assert(st@.nodes =~= if_state(st0, ctx.primitives@, *cif).nodes);
    assert(st@.names == if_state(st0, ctx.primitives@, *cif).names);
    let r = Control::enable(if_group);
    assert(enables(Action::Change(r), g));
    Ok(Action::Change(r))
}

#[verifier::rlimit(80)]
fn compile_while(st: &mut StructureGraph, ctx: &Context, ctrl: &While) -> (r: Result<Action, Error>)
    requires
        ctrl.port is This ==> find_node(old(st)@.nodes, "this"@) is Some,
    ensures
        r is Ok <==> while_failure(old(st)@, ctx.primitives@, *ctrl) is None,
        r is Ok ==> {
            &&& enables(r->Ok_0, while_name(old(st)@))
            &&& final(st)@ == while_state(old(st)@, ctx.primitives@, *ctrl)
        },
        r is Err ==> {
            &&& error_is(r->Err_0, while_failure(old(st)@, ctx.primitives@, *ctrl))
            &&& extends(final(st)@, old(st)@)
        },
{
    let ghost st0 = st@;
    let ghost g = while_name(st0);
    let ghost nodes1 = with_group(st0.nodes, g);
    proof {
        crate::structure::lemma_find_node_push(
            st0.nodes,
            NodeModel { name: g, kind: NodeKind::Group, ports: group_ports() },
            "this"@,
        );
    }
    // create the group
    let while_group = Id::from_string(st.namegen.gen_name("while"));
    let while_group_node = match st.insert_group(&while_group) {
        Ok(i) => i,
        Err(e) => {
            proof { lemma_extends(st@, st0); }
            return Err(e);
        },
    };
    assert(st@.nodes == nodes1);
    // the group that computes the condition
    let cond_group_node = match st.get_node_by_name(&ctrl.cond) {
        Some(i) => i,
        None => {
            proof { lemma_extends(st@, st0); }
            return Err(Error::UndefinedGroup(ctrl.cond.copy()));
        },
    };
    let (cond_node, cond_port) = match &ctrl.port {
        Port::Comp { component, port } => match st.get_node_by_name(component) {
            Some(i) => (i, port),
            None => {
                proof { lemma_extends(st@, st0); }
                return Err(Error::Undefined(component.copy()));
            },
        },
        Port::This { port } => match st.get_node_by_name(&Id::from_str("this")) {
            Some(i) => (i, port),
            None => {
                assert(false);
                return Err(Error::Undefined(Id::from_str("this")));
            },
        },
        Port::Hole { .. } => {
            proof { lemma_extends(st@, st0); }
            return Err(Error::MalformedControl(String::from_str("Can't use a hole as a condition.")));
        },
    };
    // the group of the body
    let body_group = match &*ctrl.body {
        Control::Enable { data } => &data.comp,
        _ => {
            proof { lemma_extends(st@, st0); }
            return Err(
                Error::MalformedControl(String::from_str("The body of a while must be an enable.")),
            );
        },
    };
    let body_group_node = match st.get_node_by_name(body_group) {
        Some(i) => i,
        None => {
            proof { lemma_extends(st@, st0); }
            return Err(Error::Undefined(body_group.copy()));
        },
    };
    // generate the registers
    let width_one: [u64; 1] = [1];
    assert(width_one@ =~= seq![1u64]);
    let cond_computed = match st.new_primitive(ctx, "cond_computed", "std_reg", &width_one) {
        Ok(i) => i,
        Err(e) => {
            proof { lemma_extends(st@, st0); }
            return Err(e);
        },
    };
    let cond_stored = match st.new_primitive(ctx, "cond_stored", "std_reg", &width_one) {
        Ok(i) => i,
        Err(e) => {
            assert(false);
            return Err(e);
        },
    };
    let ghost nodes4 = st@.nodes;
    assert(nodes4.take(st0.nodes.len() as int) =~= st0.nodes);
    assert(nodes4[cond_group_node as int] == nodes1[cond_group_node as int]);
    assert(nodes4[cond_node as int] == nodes1[cond_node as int]);
    assert(nodes4[body_group_node as int] == nodes1[body_group_node as int]);
    assert(nodes4[while_group_node as int] == nodes1[while_group_node as int]);
    assert(st@.edges =~= st0.edges.take(st0.edges.len() as int));
    let ghost ports_ok = {
        &&& reg_ports_ok(nodes4[cond_computed as int].ports)
        &&& reg_ports_ok(nodes4[cond_stored as int].ports)
        &&& has_go_done(nodes4[cond_group_node as int])
        &&& has_go_done(nodes4[body_group_node as int])
        &&& nodes4[cond_node as int].ports.contains(cond_port@)
        &&& nodes4[while_group_node as int].ports.contains("done"@)
    };
    assert(node_named(nodes1, ctrl.cond@) == nodes4[cond_group_node as int]);
    assert(node_named(nodes1, cond_node_name(ctrl.port).unwrap()) == nodes4[cond_node as int]);
    assert(cond_port_name(ctrl.port) == cond_port@);
    assert(node_named(nodes1, enable_name(*ctrl.body).unwrap()) == nodes4[body_group_node as int]);
    assert(nodes4[cond_computed as int].ports == reg_sig_ports(ctx.primitives@));
    assert(nodes4[cond_stored as int].ports == reg_sig_ports(ctx.primitives@));
    assert(nodes4[while_group_node as int].ports == group_ports());
    assert(group_ports()[1] == "done"@);
    assert(while_failure(st0, ctx.primitives@, *ctrl) == if ports_ok {
        None::<ErrorModel>
    } else {
        Some(ErrorModel::AnyUndefinedPort)
    });
    assert(extends(st@, st0));
    // the ports that the new assignments read and write
    let cond_go = match get_port(st, cond_group_node, "go") {
        Ok(p) => p,
        Err(e) => return Err(e),
    };
    let cond_done = match get_port(st, cond_group_node, "done") {
        Ok(p) => p,
        Err(e) => return Err(e),
    };
    let cc_out = match get_port(st, cond_computed, "out") {
        Ok(p) => p,
        Err(e) => return Err(e),
    };
    let cc_in = match get_port(st, cond_computed, "in") {
        Ok(p) => p,
        Err(e) => return Err(e),
    };
    let cc_write_en = match get_port(st, cond_computed, "write_en") {
        Ok(p) => p,
        Err(e) => return Err(e),
    };
    let cs_out = match get_port(st, cond_stored, "out") {
        Ok(p) => p,
        Err(e) => return Err(e),
    };
    let cs_in = match get_port(st, cond_stored, "in") {
        Ok(p) => p,
        Err(e) => return Err(e),
    };
    let cs_write_en = match get_port(st, cond_stored, "write_en") {
        Ok(p) => p,
        Err(e) => return Err(e),
    };
    let cond = match get_port(st, cond_node, cond_port.id.as_str()) {
        Ok(p) => p,
        Err(e) => return Err(e),
    };
    let body_go = match get_port(st, body_group_node, "go") {
        Ok(p) => p,
        Err(e) => return Err(e),
    };
    let body_done = match get_port(st, body_group_node, "done") {
        Ok(p) => p,
        Err(e) => return Err(e),
    };
    let while_done = match get_port(st, while_group_node, "done") {
        Ok(p) => p,
        Err(e) => return Err(e),
    };
    // cond[go] = !cond_computed.out ? 1'b1;
    let num = st.new_constant(1, 1);
    st.insert_edge(num, cond_go.copy(), Some(while_group.copy()), Some(pguard(&cc_out).not()));
    // cond_computed.in = cond[go] & cond[done] ? 1'b1;
    // cond_computed.write_en = cond[go] & cond[done] ? 1'b1;
    let num = st.new_constant(1, 1);
    st.insert_edge(
        num,
        cc_in.copy(),
        Some(while_group.copy()),
        Some(pguard(&cond_go).and(pguard(&cond_done))),
    );
    let num = st.new_constant(1, 1);
    st.insert_edge(
        num,
        cc_write_en.copy(),
        Some(while_group.copy()),
        Some(pguard(&cond_go).and(pguard(&cond_done))),
    );
    // cond_stored.in = cond[go] & cond[done] ? comp.out;
    // cond_stored.write_en = cond[go] & cond[done] ? 1'b1;
    st.insert_edge(
        Atom::Port(cond),
        cs_in,
        Some(while_group.copy()),
        Some(pguard(&cond_go).and(pguard(&cond_done))),
    );
    let num = st.new_constant(1, 1);
    st.insert_edge(
        num,
        cs_write_en,
        Some(while_group.copy()),
        Some(pguard(&cond_go).and(pguard(&cond_done))),
    );
    // body[go] = cond_computed.out & cond_stored.out ? 1'b1;
    let num = st.new_constant(1, 1);
    st.insert_edge(
        num,
        body_go,
        Some(while_group.copy()),
        Some(pguard(&cc_out).and(pguard(&cs_out))),
    );
    // cond_computed.in = cond_computed.out & cond_stored.out & body[done] ? 1'b0;
    // cond_computed.write_en = cond_computed.out & cond_stored.out & body[done] ? 1'b1;
    let num = st.new_constant(0, 1);
    st.insert_edge(
        num,
        cc_in.copy(),
        Some(while_group.copy()),
        Some(pguard(&cc_out).and(pguard(&cs_out)).and(pguard(&body_done))),
    );
    let num = st.new_constant(1, 1);
    st.insert_edge(
        num,
        cc_write_en.copy(),
        Some(while_group.copy()),
        Some(pguard(&cc_out).and(pguard(&cs_out)).and(pguard(&body_done))),
    );
    // while[done] = cond_computed.out & !cond_stored.out ? 1'b1;
    let num = st.new_constant(1, 1);
    st.insert_edge(
        num,
        while_done,
        Some(while_group.copy()),
        Some(pguard(&cc_out).and(pguard(&cs_out).not())),
    );
    // cond_computed.in = cond_computed.out & !cond_stored.out ? 1'b0;
    // cond_computed.write_en = cond_computed.out & !cond_stored.out ? 1'b1;
    let num = st.new_constant(0, 1);
    st.insert_edge(
        num,
        cc_in,
        Some(while_group.copy()),
        Some(pguard(&cc_out).and(pguard(&cs_out).not())),
    );
    let num = st.new_constant(1, 1);
    st.insert_edge(
        num,
        cc_write_en,
        Some(while_group.copy()),
        Some(pguard(&cc_out).and(pguard(&cs_out).not())),
    );
    assert(st@.edges =~= while_state(st0, ctx.primitives@, *ctrl).edges);
    assert(st@.nodes =~= while_state(st0, ctx.primitives@, *ctrl).nodes);
    assert(st@.names == while_state(st0, ctx.primitives@, *ctrl).names);
    let r = Control::enable(while_group);
    assert(enables(Action::Change(r), g));
    Ok(Action::Change(r))
}

#[verifier::rlimit(60)]
fn compile_seq(st: &mut StructureGraph, ctx: &Context, s: &Sequence) -> (r: Result<Action, Error>)
    ensures
        r is Ok <==> seq_failure(old(st)@, ctx.primitives@, s.stmts@) is None,
        r is Ok ==> {
            &&& enables(r->Ok_0, seq_name(old(st)@))
            &&& final(st)@ == seq_state(old(st)@, ctx.primitives@, s.stmts@)
        },
        r is Err ==> {
            &&& error_is(r->Err_0, seq_failure(old(st)@, ctx.primitives@, s.stmts@))
            &&& extends(final(st)@, old(st)@)
        },
{
    let ghost st0 = st@;
    let ghost g = seq_name(st0);
    let ghost fsm = seq_fsm_name(st0);
    // a new group for the structure of the `seq`
    let seq_group = Id::from_string(st.namegen.gen_name("seq"));
    let seq_group_node = match st.insert_group(&seq_group) {
        Ok(i) => i,
        Err(e) => {
            proof { lemma_extends(st@, st0); }
            return Err(e);
        },
    };
    let width: [u64; 1] = [32];
    assert(width@ =~= seq![32u64]);
    let fsm_reg = match st.new_primitive(ctx, "fsm", "std_reg", &width) {
        Ok(i) => i,
        Err(e) => {
            proof { lemma_extends(st@, st0); }
            return Err(e);
        },
    };
    let ghost nodes2 = st@.nodes;
    let ghost regs_ok = reg_ports_ok(reg_sig_ports(ctx.primitives@));
    assert(nodes2 =~= seq_nodes(st0, ctx.primitives@));
    assert(nodes2.take(st0.nodes.len() as int) =~= st0.nodes);
    assert(st@.edges =~= st0.edges + seq_edges(g, fsm, nodes2, s.stmts@, 0));
    assert(nodes2[seq_group_node as int].ports == group_ports());
    assert(group_ports()[1] == "done"@);
    assert(nodes2[fsm_reg as int].ports == reg_sig_ports(ctx.primitives@));
    let n = s.stmts.len();
    let mut fsm_counter: u64 = 0;
    let mut idx: usize = 0;
    while idx < n
        invariant
            n == s.stmts@.len(),
            idx <= n,
            fsm_counter == idx,
            st0 == old(st)@,
            g == seq_name(st0),
            fsm == seq_fsm_name(st0),
            seq_group@ == g,
            st@.nodes == nodes2,
            st@.names == after_name(after_name(st0.names, "seq"@), "fsm"@),
            nodes2 == seq_nodes(st0, ctx.primitives@),
            nodes2.take(st0.nodes.len() as int) == st0.nodes,
            regs_ok == reg_ports_ok(reg_sig_ports(ctx.primitives@)),
            seq_group_node < nodes2.len(),
            nodes2[seq_group_node as int].ports.contains("done"@),
            port_of(nodes2[seq_group_node as int], "done"@) == PortModel::Hole(g, "done"@),
            fsm_reg < nodes2.len(),
            nodes2[fsm_reg as int].ports == reg_sig_ports(ctx.primitives@),
            port_of(nodes2[fsm_reg as int], "out"@) == reg(fsm, "out"@),
            port_of(nodes2[fsm_reg as int], "in"@) == reg(fsm, "in"@),
            port_of(nodes2[fsm_reg as int], "write_en"@) == reg(fsm, "write_en"@),
            find_node(st0.nodes, g) is None,
            find_prim(ctx.primitives@, "std_reg"@) is Some,
            first_bad(nodes2, s.stmts@, regs_ok, 0) == first_bad(
                nodes2,
                s.stmts@,
                regs_ok,
                idx as int,
            ),
            st@.edges == st0.edges + seq_edges(g, fsm, nodes2, s.stmts@, idx as int),
        decreases n - idx,
    {
        assert(st@.edges.take(st0.edges.len() as int) =~= st0.edges);
        assert(extends(st@, st0));
        let con = &s.stmts[idx];
        match con {
            Control::Enable { data } => {
                let group = match st.get_node_by_name(&data.comp) {
                    Some(i) => i,
                    None => {
                        assert(!stmt_ok(nodes2, s.stmts@[idx as int]));
                        assert(first_bad(nodes2, s.stmts@, regs_ok, idx as int) == Some(idx as int));
                        assert(stmt_error(nodes2, s.stmts@[idx as int]) == ErrorModel::Undefined(
                            data.comp@,
                        ));
                        assert(seq_failure(st0, ctx.primitives@, s.stmts@) == Some(
                            ErrorModel::Undefined(data.comp@),
                        ));
                        return Err(Error::Undefined(data.comp.copy()));
                    },
                };
                assert(stmt_node(nodes2, s.stmts@[idx as int]) == nodes2[group as int]);
                assert(!(regs_ok && stmt_ok(nodes2, s.stmts@[idx as int])) ==> seq_failure(
                    st0,
                    ctx.primitives@,
                    s.stmts@,
                ) == Some(ErrorModel::AnyUndefinedPort));
                let fsm_out = match get_port(st, fsm_reg, "out") {
                    Ok(p) => p,
                    Err(e) => return Err(e),
                };
                let fsm_in = match get_port(st, fsm_reg, "in") {
                    Ok(p) => p,
                    Err(e) => return Err(e),
                };
                let fsm_write_en = match get_port(st, fsm_reg, "write_en") {
                    Ok(p) => p,
                    Err(e) => return Err(e),
                };
                let group_go = match get_port(st, group, "go") {
                    Ok(p) => p,
                    Err(e) => return Err(e),
                };
                let group_done = match get_port(st, group, "done") {
                    Ok(p) => p,
                    Err(e) => return Err(e),
                };
                assert(stmt_ok(nodes2, s.stmts@[idx as int]));
                let seq_done = if idx == n - 1 {
                    match get_port(st, seq_group_node, "done") {
                        Ok(p) => Some(p),
                        Err(e) => return Err(e),
                    }
                } else {
                    None
                };
                /* group[go] = fsm.out == value(fsm_counter) & !group[done] ? 1 */
                let fsm_state = fsm_counter;
                let signal_const = st.new_constant(1, 1);
                st.insert_edge(
                    signal_const,
                    group_go,
                    Some(seq_group.copy()),
                    Some(
                        pguard(&fsm_out).eq(GuardExpr::Atom(st.new_constant(fsm_state, 32))).and(
                            pguard(&group_done).not(),
                        ),
                    ),
                );
                fsm_counter = fsm_counter + 1;
                /* fsm.in = fsm.out == value(fsm_counter) & group[done] ? 1 */
                let fsm_num = st.new_constant(fsm_counter, 32);
                st.insert_edge(
                    fsm_num,
                    fsm_in.copy(),
                    Some(seq_group.copy()),
                    Some(
                        pguard(&fsm_out).eq(GuardExpr::Atom(st.new_constant(fsm_state, 32))).and(
                            pguard(&group_done),
                        ),
                    ),
                );
                let num = st.new_constant(1, 1);
                st.insert_edge(
                    num,
                    fsm_write_en.copy(),
                    Some(seq_group.copy()),
                    Some(pguard(&fsm_out).eq(GuardExpr::Atom(st.new_constant(fsm_state, 32))).and(pguard(&group_done))),
                );
                // the last group finishes the `seq` group and resets the register
                match seq_done {
                    Some(seq_group_done) => {
                        let num = st.new_constant(1, 1);
                        st.insert_edge(
                            num,
                            seq_group_done,
                            Some(seq_group.copy()),
                            Some(
                                pguard(&fsm_out).eq(
                                    GuardExpr::Atom(st.new_constant(fsm_counter, 32)),
                                ),
                            ),
                        );
                        let num = st.new_constant(0, 32);
                        st.insert_edge(
                            num,
                            fsm_in,
                            None,
                            Some(
                                pguard(&fsm_out).eq(
                                    GuardExpr::Atom(st.new_constant(fsm_counter, 32)),
                                ),
                            ),
                        );
                        let num = st.new_constant(1, 1);
                        st.insert_edge(
                            num,
                            fsm_write_en,
                            None,
                            Some(
                                pguard(&fsm_out).eq(
                                    GuardExpr::Atom(st.new_constant(fsm_counter, 32)),
                                ),
                            ),
                        );
                    },
                    None => {},
                }
                assert(st@.edges =~= st0.edges + seq_edges(
                    g,
                    fsm,
                    nodes2,
                    s.stmts@,
                    idx + 1,
                ));
            },
            _ => {
                assert(!stmt_ok(nodes2, s.stmts@[idx as int]));
                assert(first_bad(nodes2, s.stmts@, regs_ok, idx as int) == Some(idx as int));
                assert(seq_failure(st0, ctx.primitives@, s.stmts@) == Some(
                    ErrorModel::MalformedControl(
                        "Cannot compile non-group statement inside sequence"@,
                    ),
                ));
                return Err(
                    Error::MalformedControl(
                        String::from_str("Cannot compile non-group statement inside sequence"),
                    ),
                );
            },
        }
        idx = idx + 1;
    }
    assert(first_bad(nodes2, s.stmts@, regs_ok, n as int) is None);
    assert(st@.edges == seq_state(st0, ctx.primitives@, s.stmts@).edges);
    let r = Control::enable(seq_group);
    assert(enables(Action::Change(r), g));
    Ok(Action::Change(r))
}

fn compile_par(st: &mut StructureGraph, s: &Par) -> (r: Result<Action, Error>)
    ensures
        r is Ok <==> par_failure(old(st)@, s.stmts@) is None,
        r is Ok ==> {
            &&& enables(r->Ok_0, par_name(old(st)@))
            &&& final(st)@ == par_state(old(st)@, s.stmts@)
        },
        r is Err ==> {
            &&& error_is(r->Err_0, par_failure(old(st)@, s.stmts@))
            &&& extends(final(st)@, old(st)@)
        },
{
    let ghost st0 = st@;
    let ghost g = par_name(st0);
    // the name of the parent group
    let par_group = Id::from_string(st.namegen.gen_name("par"));
    let par_group_idx = match st.insert_group(&par_group) {
        Ok(i) => i,
        Err(e) => {
            proof { lemma_extends(st@, st0); }
            return Err(e);
        },
    };
    let ghost nodes1 = st@.nodes;
    assert(nodes1 == with_group(st0.nodes, g));
    assert(nodes1.take(st0.nodes.len() as int) =~= st0.nodes);
    assert(st@.edges =~= st0.edges + par_edges(g, nodes1, s.stmts@, 0));
    assert(nodes1[par_group_idx as int].ports == group_ports());
    assert(group_ports()[1] == "done"@);
    let mut par_group_done: Option<GuardExpr> = None;
    let n = s.stmts.len();
    let mut i: usize = 0;
    while i < n
        invariant
            n == s.stmts@.len(),
            i <= n,
            st0 == old(st)@,
            g == par_name(st0),
            par_group@ == g,
            st@.nodes == nodes1,
            st@.names == after_name(st0.names, "par"@),
            nodes1 == with_group(st0.nodes, g),
            nodes1.take(st0.nodes.len() as int) == st0.nodes,
            par_group_idx < nodes1.len(),
            nodes1[par_group_idx as int].ports.contains("done"@),
            port_of(nodes1[par_group_idx as int], "done"@) == PortModel::Hole(g, "done"@),
            find_node(st0.nodes, g) is None,
            first_bad(nodes1, s.stmts@, true, 0) == first_bad(nodes1, s.stmts@, true, i as int),
            st@.edges == st0.edges + par_edges(g, nodes1, s.stmts@, i as int),
            opt_guard_view(par_group_done) == par_done(nodes1, s.stmts@, i as int),
        decreases n - i,
    {
        assert(st@.edges.take(st0.edges.len() as int) =~= st0.edges);
        assert(extends(st@, st0));
        let con = &s.stmts[i];
        match con {
            Control::Enable { data } => {
                let group_idx = match st.get_node_by_name(&data.comp) {
                    Some(k) => k,
                    None => {
                        assert(!stmt_ok(nodes1, s.stmts@[i as int]));
                        assert(first_bad(nodes1, s.stmts@, true, i as int) == Some(i as int));
                        assert(stmt_error(nodes1, s.stmts@[i as int]) == ErrorModel::Undefined(
                            data.comp@,
                        ));
                        assert(par_failure(st0, s.stmts@) == Some(ErrorModel::Undefined(data.comp@)));
                        return Err(Error::Undefined(data.comp.copy()));
                    },
                };
                assert(stmt_node(nodes1, s.stmts@[i as int]) == nodes1[group_idx as int]);
                assert(!stmt_ok(nodes1, s.stmts@[i as int]) ==> par_failure(st0, s.stmts@) == Some(
                    ErrorModel::AnyUndefinedPort,
                ));
                let group_go_port = match get_port(st, group_idx, "go") {
                    Ok(p) => p,
                    Err(e) => return Err(e),
                };
                let group_done_port = match get_port(st, group_idx, "done") {
                    Ok(p) => p,
                    Err(e) => return Err(e),
                };
                assert(stmt_ok(nodes1, s.stmts@[i as int]));
                // start this group with the parent
                let num = st.new_constant(1, 1);
                st.insert_edge(num, group_go_port, Some(par_group.copy()), None);
                // add this group's done signal to the parent's
                let guard = pguard(&group_done_port);
                par_group_done = Some(
                    match par_group_done {
                        Some(gd) => gd.and(guard),
                        None => guard,
                    },
                );
                assert(st@.edges =~= st0.edges + par_edges(g, nodes1, s.stmts@, i + 1));
            },
            _ => {
                assert(!stmt_ok(nodes1, s.stmts@[i as int]));
                assert(first_bad(nodes1, s.stmts@, true, i as int) == Some(i as int));
                assert(par_failure(st0, s.stmts@) == Some(
                    ErrorModel::MalformedControl(
                        "Cannot compile non-group statement inside sequence"@,
                    ),
                ));
                return Err(
                    Error::MalformedControl(
                        String::from_str("Cannot compile non-group statement inside sequence"),
                    ),
                );
            },
        }
        i = i + 1;
    }
    assert(first_bad(nodes1, s.stmts@, true, n as int) is None);
    // the parent is done when all its children are
    let par_group_done_port = match get_port(st, par_group_idx, "done") {
        Ok(p) => p,
        Err(e) => return Err(e),
    };
    let num = st.new_constant(1, 1);
    st.insert_edge(num, par_group_done_port, Some(par_group.copy()), par_group_done);
    assert(st@.edges =~= par_state(st0, s.stmts@).edges);
    let r = Control::enable(par_group);
    assert(enables(Action::Change(r), g));
    Ok(Action::Change(r))
}

} // verus!
