//! What the groups that `compile_control` builds do, stated on the guards of
//! their assignments.

use vstd::prelude::*;
use crate::ast::{AtomModel, Control, GuardModel, If, PortModel, While};
use crate::passes::compile_control::{
    cond_node_name, cond_port_name, edge, enable_name, gand, geq, gnot, if_failure, if_name, if_state, natom, node_named, one,
    par_done, par_edges, par_failure, par_name, par_state, patom, reg, seq_edges, seq_failure,
    seq_fsm_name, seq_name, seq_nodes, seq_state, seq_stmt_edges, stmt_node, while_failure,
    while_name, while_state, with_group,
};
use crate::structure::{after_name, next_name, port_of, GraphModel, NodeModel, PrimSig};

verus! {

/// Whether a guard holds when each port carries the bit `v` gives it; a
/// constant holds when it is not zero.
pub open spec fn guard_holds(g: GuardModel, v: spec_fn(PortModel) -> bool) -> bool
    decreases g,
{
    match g {
        GuardModel::And(a, b) => guard_holds(*a, v) && guard_holds(*b, v),
        GuardModel::Or(a, b) => guard_holds(*a, v) || guard_holds(*b, v),
        GuardModel::Eq(a, b) => guard_holds(*a, v) == guard_holds(*b, v),
        GuardModel::Not(a) => !guard_holds(*a, v),
        GuardModel::Atom(AtomModel::Port(p)) => v(p),
        GuardModel::Atom(AtomModel::Num(val, _)) => val != 0,
    }
}

/// The `done` hole of the group that the `i`-th statement enables.
pub open spec fn child_done(nodes: Seq<NodeModel>, stmts: Seq<Control>, i: int) -> PortModel {
    port_of(stmt_node(nodes, stmts[i]), "done"@)
}

/// The `go` hole of the group that the `i`-th statement enables.
pub open spec fn child_go(nodes: Seq<NodeModel>, stmts: Seq<Control>, i: int) -> PortModel {
    port_of(stmt_node(nodes, stmts[i]), "go"@)
}

/// In the group that compiles an `if`, the condition group runs until the
/// condition has been computed; once it is done, `cond_computed` is set and
/// the condition port's value is stored in `cond_stored`. The true branch
/// is started exactly when the condition has been computed and its stored
/// value is 1, and the
/// false branch exactly when it has been computed and its stored value is
/// 0. The condition's value is stored, whatever it is, once the condition
/// group is done, and the group is done when the logical `or` of the two
/// branches' `done` holes is.
pub proof fn law_if_branches(st: GraphModel, ctx: Seq<PrimSig>, cif: If)
    requires
        if_failure(st, ctx, cif) is None,
    ensures
        ({
            let g = if_name(st);
            let nodes1 = with_group(st.nodes, g);
            let names1 = after_name(st.names, "if"@);
            let cc = next_name(names1, "cond_computed"@);
            let names2 = after_name(names1, "cond_computed"@);
            let cs = next_name(names2, "cond_stored"@);
            let orc = next_name(after_name(names2, "cond_stored"@), "or"@);
            let cn = node_named(nodes1, cif.cond@);
            let tn = node_named(nodes1, enable_name(*cif.tbranch).unwrap());
            let fn_ = node_named(nodes1, enable_name(*cif.fbranch).unwrap());
            let e = if_state(st, ctx, cif).edges;
            let n = st.edges.len() as int;
            let cond_done = gand(patom(port_of(cn, "go"@)), patom(port_of(cn, "done"@)));
            let cport = port_of(
                node_named(nodes1, cond_node_name(cif.port).unwrap()),
                cond_port_name(cif.port),
            );
            &&& e.len() == n + 10
            &&& e.take(n) == st.edges
            &&& e[n] == edge(one(), port_of(cn, "go"@), Some(g), Some(gnot(patom(reg(cc, "out"@)))))
            &&& e[n + 1] == edge(one(), reg(cc, "in"@), Some(g), Some(cond_done))
            &&& e[n + 2] == edge(one(), reg(cc, "write_en"@), Some(g), Some(cond_done))
            &&& e[n + 3] == edge(AtomModel::Port(cport), reg(cs, "in"@), Some(g), Some(cond_done))
            &&& e[n + 4] == edge(
                one(),
                reg(cs, "write_en"@),
                Some(g),
                Some(gand(patom(port_of(cn, "go"@)), patom(port_of(cn, "done"@)))),
            )
            &&& e[n + 5] == edge(
                one(),
                port_of(tn, "go"@),
                Some(g),
                Some(gand(patom(reg(cc, "out"@)), patom(reg(cs, "out"@)))),
            )
            &&& e[n + 6] == edge(
                one(),
                port_of(fn_, "go"@),
                Some(g),
                Some(gand(patom(reg(cc, "out"@)), gnot(patom(reg(cs, "out"@))))),
            )
            &&& e[n + 7] == edge(
                AtomModel::Port(port_of(tn, "done"@)),
                reg(orc, "right"@),
                Some(g),
                None,
            )
            &&& e[n + 8] == edge(
                AtomModel::Port(port_of(fn_, "done"@)),
                reg(orc, "left"@),
                Some(g),
                None,
            )
            &&& e[n + 9] == edge(
                AtomModel::Port(reg(orc, "out"@)),
                PortModel::Hole(g, "done"@),
                Some(g),
                None,
            )
        }),
{
    let e = if_state(st, ctx, cif).edges;
    let n = st.edges.len() as int;
    assert(e.take(n) =~= st.edges);
}

/// In the group that compiles a `while`, the condition group runs until the
/// condition has been computed, and then its value is stored. The body is
/// started exactly when the condition has been computed and its stored
/// value is 1; when the body is done the condition is computed again. The
/// group is done exactly when the condition has been computed and its
/// stored value is 0, and then `cond_computed` is cleared.
pub proof fn law_while_body_and_done(st: GraphModel, ctx: Seq<PrimSig>, ctrl: While)
    requires
        while_failure(st, ctx, ctrl) is None,
    ensures
        ({
            let g = while_name(st);
            let nodes1 = with_group(st.nodes, g);
            let names1 = after_name(st.names, "while"@);
            let cc = next_name(names1, "cond_computed"@);
            let cs = next_name(after_name(names1, "cond_computed"@), "cond_stored"@);
            let bn = node_named(nodes1, enable_name(*ctrl.body).unwrap());
            let e = while_state(st, ctx, ctrl).edges;
            let n = st.edges.len() as int;
            let cn = node_named(nodes1, ctrl.cond@);
            let cond_done = gand(patom(port_of(cn, "go"@)), patom(port_of(cn, "done"@)));
            let cport = port_of(
                node_named(nodes1, cond_node_name(ctrl.port).unwrap()),
                cond_port_name(ctrl.port),
            );
            let running = gand(patom(reg(cc, "out"@)), patom(reg(cs, "out"@)));
            let finished = gand(patom(reg(cc, "out"@)), gnot(patom(reg(cs, "out"@))));
            let body_done = gand(running, patom(port_of(bn, "done"@)));
            &&& e.len() == n + 11
            &&& e.take(n) == st.edges
            &&& e[n] == edge(one(), port_of(cn, "go"@), Some(g), Some(gnot(patom(reg(cc, "out"@)))))
            &&& e[n + 1] == edge(one(), reg(cc, "in"@), Some(g), Some(cond_done))
            &&& e[n + 2] == edge(one(), reg(cc, "write_en"@), Some(g), Some(cond_done))
            &&& e[n + 3] == edge(AtomModel::Port(cport), reg(cs, "in"@), Some(g), Some(cond_done))
            &&& e[n + 4] == edge(one(), reg(cs, "write_en"@), Some(g), Some(cond_done))
            &&& e[n + 6] == edge(AtomModel::Num(0, 1), reg(cc, "in"@), Some(g), Some(body_done))
            &&& e[n + 7] == edge(one(), reg(cc, "write_en"@), Some(g), Some(body_done))
            &&& e[n + 9] == edge(AtomModel::Num(0, 1), reg(cc, "in"@), Some(g), Some(finished))
            &&& e[n + 10] == edge(one(), reg(cc, "write_en"@), Some(g), Some(finished))
            &&& e[n + 5] == edge(
                one(),
                port_of(bn, "go"@),
                Some(g),
                Some(gand(patom(reg(cc, "out"@)), patom(reg(cs, "out"@)))),
            )
            &&& e[n + 8] == edge(
                one(),
                PortModel::Hole(g, "done"@),
                Some(g),
                Some(gand(patom(reg(cc, "out"@)), gnot(patom(reg(cs, "out"@))))),
            )
        }),
{
    let e = while_state(st, ctx, ctrl).edges;
    let n = st.edges.len() as int;
    assert(e.take(n) =~= st.edges);
}

/// The assignments of the first `k` statements of a `seq`, none of them
/// the last, are three per statement.
proof fn lemma_seq_prefix(
    g: Seq<char>,
    fsm: Seq<char>,
    nodes: Seq<NodeModel>,
    stmts: Seq<Control>,
    k: int,
)
    requires
        0 <= k < stmts.len(),
    ensures
        seq_edges(g, fsm, nodes, stmts, k).len() == 3 * k,
        forall|j: int, i: int|
            0 <= j < k && 0 <= i < 3 ==> #[trigger] seq_edges(g, fsm, nodes, stmts, k)[3 * j + i]
                == seq_stmt_edges(g, fsm, stmt_node(nodes, stmts[j]), j, false)[i],
    decreases k,
{
    if k > 0 {
        lemma_seq_prefix(g, fsm, nodes, stmts, k - 1);
        let prev = seq_edges(g, fsm, nodes, stmts, k - 1);
        let cur = seq_edges(g, fsm, nodes, stmts, k);
        assert(cur == prev + seq_stmt_edges(g, fsm, stmt_node(nodes, stmts[k - 1]), k - 1, false));
        assert forall|j: int, i: int| 0 <= j < k && 0 <= i < 3 implies #[trigger] cur[3 * j + i]
            == seq_stmt_edges(g, fsm, stmt_node(nodes, stmts[j]), j, false)[i] by {
            if j < k - 1 {
                assert(cur[3 * j + i] == prev[3 * j + i]);
            }
        }
    }
}

/// In the group that compiles `seq { s0; ...; s(n-1) }`, the statement `k`
/// is started exactly when the state register holds `k` and it is not
/// done; when it is done the register takes `k + 1`. The group is done
/// exactly when the register holds `n`, the value the last statement's
/// `done` writes, and then the register is reset to 0.
pub proof fn law_seq_steps(st: GraphModel, ctx: Seq<PrimSig>, stmts: Seq<Control>)
    requires
        seq_failure(st, ctx, stmts) is None,
        stmts.len() >= 1,
    ensures
        ({
            let g = seq_name(st);
            let fsm = seq_fsm_name(st);
            let nodes = seq_nodes(st, ctx);
            let fsm_out = patom(reg(fsm, "out"@));
            let len = stmts.len() as int;
            let e = seq_state(st, ctx, stmts).edges;
            let n = st.edges.len() as int;
            &&& e.len() == n + 3 * len + 3
            &&& e.take(n) == st.edges
            &&& forall|k: int|
                0 <= k < len ==> {
                    &&& #[trigger] e[n + 3 * k] == edge(
                        one(),
                        child_go(nodes, stmts, k),
                        Some(g),
                        Some(
                            gand(
                                geq(fsm_out, natom(k as u64, 32)),
                                gnot(patom(child_done(nodes, stmts, k))),
                            ),
                        ),
                    )
                    &&& e[n + 3 * k + 2] == edge(
                        one(),
                        reg(fsm, "write_en"@),
                        Some(g),
                        Some(
                            gand(
                                geq(fsm_out, natom(k as u64, 32)),
                                patom(child_done(nodes, stmts, k)),
                            ),
                        ),
                    )
                    &&& e[n + 3 * k + 1] == edge(
                        AtomModel::Num((k + 1) as u64, 32),
                        reg(fsm, "in"@),
                        Some(g),
                        Some(
                            gand(
                                geq(fsm_out, natom(k as u64, 32)),
                                patom(child_done(nodes, stmts, k)),
                            ),
                        ),
                    )
                }
            &&& e[n + 3 * len] == edge(
                one(),
                PortModel::Hole(g, "done"@),
                Some(g),
                Some(geq(fsm_out, natom(len as u64, 32))),
            )
            &&& e[n + 3 * len + 1] == edge(
                AtomModel::Num(0, 32),
                reg(fsm, "in"@),
                None,
                Some(geq(fsm_out, natom(len as u64, 32))),
            )
            &&& e[n + 3 * len + 2] == edge(
                one(),
                reg(fsm, "write_en"@),
                None,
                Some(geq(fsm_out, natom(len as u64, 32))),
            )
        }),
{
    let g = seq_name(st);
    let fsm = seq_fsm_name(st);
    let nodes = seq_nodes(st, ctx);
    let len = stmts.len() as int;
    let n = st.edges.len() as int;
    let e = seq_state(st, ctx, stmts).edges;
    lemma_seq_prefix(g, fsm, nodes, stmts, len - 1);
    let prev = seq_edges(g, fsm, nodes, stmts, len - 1);
    let last = seq_stmt_edges(g, fsm, stmt_node(nodes, stmts[len - 1]), len - 1, true);
    let all = seq_edges(g, fsm, nodes, stmts, len);
    assert(all == prev + last);
    assert(e == st.edges + all);
    assert(e.take(n) =~= st.edges);
    assert forall|k: int| 0 <= k < len implies {
        &&& #[trigger] e[n + 3 * k] == seq_stmt_edges(g, fsm, stmt_node(nodes, stmts[k]), k, false)[0]
        &&& e[n + 3 * k + 1] == seq_stmt_edges(g, fsm, stmt_node(nodes, stmts[k]), k, false)[1]
        &&& e[n + 3 * k + 2] == seq_stmt_edges(g, fsm, stmt_node(nodes, stmts[k]), k, false)[2]
    } by {
        if k < len - 1 {
            assert(all[3 * k + 0] == prev[3 * k + 0]);
            assert(all[3 * k + 1] == prev[3 * k + 1]);
            assert(all[3 * k + 2] == prev[3 * k + 2]);
        } else {
            assert(all[3 * k] == last[0]);
            assert(all[3 * k + 1] == last[1]);
            assert(all[3 * k + 2] == last[2]);
        }
    }
    assert(all[3 * len] == last[3]);
    assert(all[3 * len + 1] == last[4]);
    assert(all[3 * len + 2] == last[5]);
}

/// The guard of the first `k` statements' `done` holes holds exactly when
/// every one of them holds.
proof fn lemma_par_done(nodes: Seq<NodeModel>, stmts: Seq<Control>, k: int, v: spec_fn(PortModel) -> bool)
    requires
        1 <= k <= stmts.len(),
    ensures
        par_done(nodes, stmts, k) is Some,
        guard_holds(par_done(nodes, stmts, k).unwrap(), v) == forall|i: int|
            0 <= i < k ==> v(#[trigger] child_done(nodes, stmts, i)),
    decreases k,
{
    let d = patom(child_done(nodes, stmts, k - 1));
    if k > 1 {
        lemma_par_done(nodes, stmts, k - 1, v);
        let x = par_done(nodes, stmts, k - 1).unwrap();
        assert(par_done(nodes, stmts, k) == Some(gand(x, d)));
        assert(guard_holds(d, v) == v(child_done(nodes, stmts, k - 1)));
        assert(guard_holds(gand(x, d), v) == (guard_holds(x, v) && guard_holds(d, v)));
        if forall|i: int| 0 <= i < k ==> v(#[trigger] child_done(nodes, stmts, i)) {
            assert(v(child_done(nodes, stmts, k - 1)));
            assert(forall|i: int| 0 <= i < k - 1 ==> v(#[trigger] child_done(nodes, stmts, i)));
            assert(guard_holds(gand(x, d), v));
        }
        if guard_holds(gand(x, d), v) {
            assert forall|i: int| 0 <= i < k implies v(#[trigger] child_done(nodes, stmts, i)) by {
                if i < k - 1 {
                    assert(guard_holds(x, v));
                }
            }
        }
    } else {
        assert(par_done(nodes, stmts, 1) == Some(d));
        assert(guard_holds(d, v) == v(child_done(nodes, stmts, 0)));
        if v(child_done(nodes, stmts, 0)) {
            assert forall|i: int| 0 <= i < k implies v(#[trigger] child_done(nodes, stmts, i)) by {
                assert(i == 0);
            }
        }
    }
}

/// The group that compiles `par { s0; ...; s(n-1) }` starts every
/// statement's group unconditionally, and it is done exactly when the
/// `done` hole of every statement's group holds.
pub proof fn law_par_done(st: GraphModel, stmts: Seq<Control>)
    requires
        par_failure(st, stmts) is None,
        stmts.len() >= 1,
    ensures
        ({
            let g = par_name(st);
            let nodes = with_group(st.nodes, g);
            let len = stmts.len() as int;
            let e = par_state(st, stmts).edges;
            let n = st.edges.len() as int;
            &&& e.len() == n + len + 1
            &&& e.take(n) == st.edges
            &&& forall|i: int|
                0 <= i < len ==> #[trigger] e[n + i] == edge(one(), child_go(nodes, stmts, i), Some(g), None)
            &&& e[n + len].src == one()
            &&& e[n + len].dest == PortModel::Hole(g, "done"@)
            &&& e[n + len].group == Some(g)
            &&& e[n + len].guard is Some
            &&& forall|v: spec_fn(PortModel) -> bool|
                #[trigger] guard_holds(e[n + len].guard.unwrap(), v) == forall|i: int|
                    0 <= i < len ==> v(#[trigger] child_done(nodes, stmts, i))
        }),
{
    let g = par_name(st);
    let nodes = with_group(st.nodes, g);
    let len = stmts.len() as int;
    let n = st.edges.len() as int;
    let e = par_state(st, stmts).edges;
    lemma_par_edges(g, nodes, stmts, len);
    assert(e.take(n) =~= st.edges);
    assert forall|i: int| 0 <= i < len implies #[trigger] e[n + i] == edge(
        one(),
        child_go(nodes, stmts, i),
        Some(g),
        None,
    ) by {
        assert(e[n + i] == par_edges(g, nodes, stmts, len)[i]);
    }
    assert forall|v: spec_fn(PortModel) -> bool|
        #[trigger] guard_holds(e[n + len].guard.unwrap(), v) == forall|i: int|
            0 <= i < len ==> v(#[trigger] child_done(nodes, stmts, i)) by {
        lemma_par_done(nodes, stmts, len, v);
    }
    lemma_par_done(nodes, stmts, len, |p: PortModel| true);
}

/// The first `k` start assignments of a `par`, one per statement.
proof fn lemma_par_edges(g: Seq<char>, nodes: Seq<NodeModel>, stmts: Seq<Control>, k: int)
    requires
        0 <= k <= stmts.len(),
    ensures
        par_edges(g, nodes, stmts, k).len() == k,
        forall|i: int|
            0 <= i < k ==> #[trigger] par_edges(g, nodes, stmts, k)[i] == edge(
                one(),
                child_go(nodes, stmts, i),
                Some(g),
                None,
            ),
    decreases k,
{
    if k > 0 {
        lemma_par_edges(g, nodes, stmts, k - 1);
    }
}

} // verus!
