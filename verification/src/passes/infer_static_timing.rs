//! Infers the number of cycles of groups whose `done` signal depends only
//! on other `done` signals, and annotates the groups with it in a `static`
//! attribute. A group that already has a `static` annotation that differs
//! from the inferred value is an error. A group whose `done` signal depends
//! on other signals is left as it is.

use vstd::prelude::*;
use crate::errors::Error;
use crate::ids::{ids_view, Id};
use crate::ir::{
    attr_lookup, attrs_view, port_key, set_attribute, with_attr, Assignment, Cell, CellType,
    Component, Group, PortParent, PortRef,
};
use crate::passes::visitor::{Action, Named};
use crate::structure::Context;

verus! {

/// A port by its owner (a cell, or else a group), the owner's name, and its name.
pub type PortKey = (bool, Seq<char>, Seq<char>);

/// An edge of the dependency graph: from a port to a port.
pub type EdgeKey = (PortKey, PortKey);

/// The signals and latency of a primitive: its name, its `go` port, its
/// `done` port, and its number of cycles.
#[derive(Debug)]
pub struct LatencyData {
    pub prim: String,
    pub go: String,
    pub done: String,
    pub latency: u64,
}

/// Infers and annotates static timing for groups when possible.
#[derive(Debug)]
pub struct InferStaticTiming {
    /// The signals and latency of each primitive.
    prim_latency_data: Vec<LatencyData>,
}

impl InferStaticTiming {
    /// The signals and latency of each primitive.
    pub closed spec fn latency_data(&self) -> Seq<LatencyData> {
        self.prim_latency_data@
    }
}

impl Default for InferStaticTiming {
    fn default() -> (r: Self)
        ensures
            r.latency_data().len() == 1,
            r.latency_data()[0].prim@ == "std_reg"@,
            r.latency_data()[0].go@ == "write_en"@,
            r.latency_data()[0].done@ == "done"@,
            r.latency_data()[0].latency == 1,
    {
        let mut prim_latency_data: Vec<LatencyData> = Vec::new();
        prim_latency_data.push(
            LatencyData {
                prim: String::from_str("std_reg"),
                go: String::from_str("write_en"),
                done: String::from_str("done"),
                latency: 1,
            },
        );
        InferStaticTiming { prim_latency_data }
    }
}

impl Named for InferStaticTiming {
    fn name() -> (r: &'static str)
        ensures
            r@ == "infer-static-timing"@,
    {
        "infer-static-timing"
    }

    fn description() -> (r: &'static str)
        ensures
            r@ == "infers and annotates static timing for groups when possible"@,
    {
        "infers and annotates static timing for groups when possible"
    }
}

/// The index of the first latency entry of a primitive.
pub open spec fn lat_index(s: Seq<LatencyData>, prim: Seq<char>) -> Option<int>
    decreases s.len(),
{
    if s.len() == 0 {
        None
    } else if s[0].prim@ == prim {
        Some(0)
    } else {
        match lat_index(s.drop_first(), prim) {
            Some(i) => Some(i + 1),
            None => None,
        }
    }
}

/// `lat_index` finds the first entry of the primitive.
pub proof fn lemma_lat_index(s: Seq<LatencyData>, prim: Seq<char>, i: int)
    requires
        0 <= i <= s.len(),
        forall|j: int| 0 <= j < i ==> #[trigger] s[j].prim@ != prim,
    ensures
        i < s.len() && s[i].prim@ == prim ==> lat_index(s, prim) == Some(i),
        i == s.len() ==> lat_index(s, prim) is None,
    decreases i,
{
    if i > 0 {
        let t = s.drop_first();
        assert forall|j: int| 0 <= j < i - 1 implies #[trigger] t[j].prim@ != prim by {
            assert(t[j] == s[j + 1]);
        }
        lemma_lat_index(t, prim, i - 1);
    }
}

/// The index of the first cell with the given name.
pub open spec fn cell_index(cells: Seq<Cell>, name: Seq<char>) -> Option<int>
    decreases cells.len(),
{
    if cells.len() == 0 {
        None
    } else if cells[0].name@ == name {
        Some(0)
    } else {
        match cell_index(cells.drop_first(), name) {
            Some(i) => Some(i + 1),
            None => None,
        }
    }
}

/// `cell_index` finds the first cell with the name.
pub proof fn lemma_cell_index(cells: Seq<Cell>, name: Seq<char>, i: int)
    requires
        0 <= i <= cells.len(),
        forall|j: int| 0 <= j < i ==> #[trigger] cells[j].name@ != name,
    ensures
        i < cells.len() && cells[i].name@ == name ==> cell_index(cells, name) == Some(i),
        i == cells.len() ==> cell_index(cells, name) is None,
    decreases i,
{
    if i > 0 {
        let t = cells.drop_first();
        assert forall|j: int| 0 <= j < i - 1 implies #[trigger] t[j].name@ != name by {
            assert(t[j] == cells[j + 1]);
        }
        lemma_cell_index(t, name, i - 1);
    }
}

/// The primitive that the named cell instantiates, if it is a primitive.
pub open spec fn prim_name(cells: Seq<Cell>, name: Seq<char>) -> Option<Seq<char>> {
    match cell_index(cells, name) {
        Some(i) => match cells[i].prototype {
            CellType::Primitive { name, .. } => Some(name@),
            _ => None,
        },
        None => None,
    }
}

/// Whether the named cell is a constant.
pub open spec fn is_constant_cell(cells: Seq<Cell>, name: Seq<char>) -> bool {
    match cell_index(cells, name) {
        Some(i) => cells[i].prototype is Constant,
        None => false,
    }
}

/// Whether an assignment from `src` to `dst` belongs in the dependency graph:
/// the `done` of a primitive drives the `go` of a primitive, a constant
/// drives the `go` of a primitive, or anything drives the `done` of a group.
pub open spec fn dep_edge(cells: Seq<Cell>, lat: Seq<LatencyData>, src: PortKey, dst: PortKey) -> bool {
    if src.0 && dst.0 {
        let pd = prim_name(cells, dst.1);
        let ps = prim_name(cells, src.1);
        ||| {
            &&& pd is Some
            &&& ps is Some
            &&& lat_index(lat, pd.unwrap()) is Some
            &&& lat_index(lat, ps.unwrap()) is Some
            &&& dst.2 == lat[lat_index(lat, pd.unwrap()).unwrap()].go@
            &&& src.2 == lat[lat_index(lat, ps.unwrap()).unwrap()].done@
        }
        ||| {
            &&& pd is Some
            &&& is_constant_cell(cells, src.1)
            &&& lat_index(lat, pd.unwrap()) is Some
            &&& dst.2 == lat[lat_index(lat, pd.unwrap()).unwrap()].go@
        }
    } else if !dst.0 {
        dst.2 == "done"@
    } else {
        false
    }
}

fn find_cell(cells: &Vec<Cell>, name: &Id) -> (r: Option<usize>)
    ensures
        match r {
            Some(i) => i < cells@.len() && cell_index(cells@, name@) == Some(i as int),
            None => cell_index(cells@, name@) is None,
        },
{
    let mut i: usize = 0;
    while i < cells.len()
        invariant
            i <= cells@.len(),
            forall|j: int| 0 <= j < i ==> #[trigger] cells@[j].name@ != name@,
        decreases cells@.len() - i,
    {
        if cells[i].name.same(name) {
            proof {
                lemma_cell_index(cells@, name@, i as int);
            }
            return Some(i);
        }
        i = i + 1;
    }
    proof {
        lemma_cell_index(cells@, name@, i as int);
    }
    None
}

fn find_latency(lat: &Vec<LatencyData>, prim: &Id) -> (r: Option<usize>)
    ensures
        match r {
            Some(i) => i < lat@.len() && lat_index(lat@, prim@) == Some(i as int),
            None => lat_index(lat@, prim@) is None,
        },
{
    let mut i: usize = 0;
    while i < lat.len()
        invariant
            i <= lat@.len(),
            forall|j: int| 0 <= j < i ==> #[trigger] lat@[j].prim@ != prim@,
        decreases lat@.len() - i,
    {
        if lat[i].prim == prim.id {
            proof {
                lemma_lat_index(lat@, prim@, i as int);
            }
            return Some(i);
        }
        i = i + 1;
    }
    proof {
        lemma_lat_index(lat@, prim@, i as int);
    }
    None
}

/// The primitive that the named cell instantiates, if it is one.
fn cell_prim(cells: &Vec<Cell>, name: &Id) -> (r: Option<Id>)
    ensures
        match r {
            Some(p) => prim_name(cells@, name@) == Some(p@),
            None => prim_name(cells@, name@) is None,
        },
{
    match find_cell(cells, name) {
        Some(i) => match &cells[i].prototype {
            CellType::Primitive { name, .. } => Some(name.copy()),
            _ => None,
        },
        None => None,
    }
}

/// Whether an assignment from `src` to `dst` belongs in the dependency
/// graph of a group (see `dep_edge`).
pub fn mem_wrt_dep_graph(
    src: &PortRef,
    dst: &PortRef,
    comp: &Component,
    latency_data: &Vec<LatencyData>,
) -> (r: bool)
    ensures
        r == dep_edge(comp.cells@, latency_data@, port_key(*src), port_key(*dst)),
{
    match (&src.parent, &dst.parent) {
        (PortParent::Cell(src_cell), PortParent::Cell(dst_cell)) => {
            let dst_prim = cell_prim(&comp.cells, dst_cell);
            let src_prim = cell_prim(&comp.cells, src_cell);
            match (&dst_prim, &src_prim) {
                (Some(pd), Some(ps)) => {
                    match (find_latency(latency_data, pd), find_latency(latency_data, ps)) {
                        (Some(kd), Some(ks)) => {
                            if dst.name.id == latency_data[kd].go && src.name.id
                                == latency_data[ks].done {
                                return true;
                            }
                        },
                        _ => {},
                    }
                },
                _ => {},
            }
            // a constant that drives a primitive's `go`
            match &dst_prim {
                Some(pd) => {
                    let src_const = match find_cell(&comp.cells, src_cell) {
                        Some(i) => match &comp.cells[i].prototype {
                            CellType::Constant { .. } => true,
                            _ => false,
                        },
                        None => false,
                    };
                    if src_const {
                        match find_latency(latency_data, pd) {
                            Some(kd) => {
                                if dst.name.id == latency_data[kd].go {
                                    return true;
                                }
                            },
                            None => {},
                        }
                    }
                },
                None => {},
            }
            false
        },
        // something that drives a group: only its `done` hole counts
        (_, PortParent::Group(_)) => dst.name.is("done"),
        _ => false,
    }
}

/// An edge as a pair of ports.
pub open spec fn edge_key(a: PortRef, b: PortRef) -> EdgeKey {
    (port_key(a), port_key(b))
}

/// The edge, if it belongs in the dependency graph.
pub open spec fn kept(cells: Seq<Cell>, lat: Seq<LatencyData>, e: EdgeKey) -> Seq<EdgeKey> {
    if dep_edge(cells, lat, e.0, e.1) {
        seq![e]
    } else {
        Seq::empty()
    }
}

/// The kept edges from the first `m` ports that the guard of `a` reads to
/// its destination.
pub open spec fn guard_edges(cells: Seq<Cell>, lat: Seq<LatencyData>, a: Assignment, m: int) -> Seq<
    EdgeKey,
>
    decreases m,
{
    if m <= 0 {
        Seq::empty()
    } else {
        guard_edges(cells, lat, a, m - 1) + kept(cells, lat, edge_key(a.guard@[m - 1], a.dst))
    }
}

/// The kept edges of an assignment: from its source, then from each port
/// its guard reads, to its destination.
pub open spec fn asgn_edges(cells: Seq<Cell>, lat: Seq<LatencyData>, a: Assignment) -> Seq<EdgeKey> {
    kept(cells, lat, edge_key(a.src, a.dst)) + guard_edges(cells, lat, a, a.guard@.len() as int)
}

/// The kept edges of the first `k` assignments.
pub open spec fn assignments_edges(
    cells: Seq<Cell>,
    lat: Seq<LatencyData>,
    asgns: Seq<Assignment>,
    k: int,
) -> Seq<EdgeKey>
    decreases k,
{
    if k <= 0 {
        Seq::empty()
    } else {
        assignments_edges(cells, lat, asgns, k - 1) + asgn_edges(cells, lat, asgns[k - 1])
    }
}

/// Whether an assignment reads or writes a port of the named cell.
pub open spec fn asgn_uses(a: Assignment, cell: Seq<char>) -> bool {
    ||| port_key(a.src).0 && port_key(a.src).1 == cell
    ||| port_key(a.dst).0 && port_key(a.dst).1 == cell
    ||| exists|k: int|
        0 <= k < a.guard@.len() && port_key(#[trigger] a.guard@[k]).0 && port_key(
            a.guard@[k],
        ).1 == cell
}

/// Whether some assignment reads or writes a port of the named cell.
pub open spec fn uses_cell(asgns: Seq<Assignment>, cell: Seq<char>) -> bool {
    exists|j: int| 0 <= j < asgns.len() && asgn_uses(#[trigger] asgns[j], cell)
}

/// The primitive a cell instantiates, if it is one.
pub open spec fn cell_prim_name(c: Cell) -> Option<Seq<char>> {
    match c.prototype {
        CellType::Primitive { name, .. } => Some(name@),
        _ => None,
    }
}

/// The edge from the `go` to the `done` port of a primitive cell that the
/// assignments use, when the cell has both ports.
pub open spec fn go_done_of(lat: Seq<LatencyData>, asgns: Seq<Assignment>, c: Cell) -> Seq<EdgeKey> {
    if uses_cell(asgns, c.name@) && cell_prim_name(c) is Some && lat_index(
        lat,
        cell_prim_name(c).unwrap(),
    ) is Some {
        let d = lat[lat_index(lat, cell_prim_name(c).unwrap()).unwrap()];
        if ids_view(c.ports@).contains(d.go@) && ids_view(c.ports@).contains(d.done@) {
            seq![((true, c.name@, d.go@), (true, c.name@, d.done@))]
        } else {
            Seq::empty()
        }
    } else {
        Seq::empty()
    }
}

/// The `go`-to-`done` edges of the first `i` cells.
pub open spec fn go_done_edges(
    cells: Seq<Cell>,
    lat: Seq<LatencyData>,
    asgns: Seq<Assignment>,
    i: int,
) -> Seq<EdgeKey>
    decreases i,
{
    if i <= 0 {
        Seq::empty()
    } else {
        go_done_edges(cells, lat, asgns, i - 1) + go_done_of(lat, asgns, cells[i - 1])
    }
}

/// The edges of the dependency graph of a group: its assignments that
/// belong in the graph, and the `go`-to-`done` edge of each primitive cell
/// it uses.
pub open spec fn dependency_edges(group: Group, lat: Seq<LatencyData>, comp: Component) -> Seq<
    EdgeKey,
> {
    dep_edges(group.assignments@, comp.cells@, lat)
}

/// The edges of the dependency graph of the assignments over the cells.
pub open spec fn dep_edges(asgns: Seq<Assignment>, cells: Seq<Cell>, lat: Seq<LatencyData>) -> Seq<
    EdgeKey,
> {
    assignments_edges(cells, lat, asgns, asgns.len() as int) + go_done_edges(
        cells,
        lat,
        asgns,
        cells.len() as int,
    )
}

/// The edges as pairs of ports.
pub open spec fn edges_view(s: Seq<(PortRef, PortRef)>) -> Seq<EdgeKey> {
    s.map_values(|e: (PortRef, PortRef)| edge_key(e.0, e.1))
}

fn assignment_uses(a: &Assignment, cell: &Id) -> (r: bool)
    ensures
        r == asgn_uses(*a, cell@),
{
    if a.src.of_cell(cell) || a.dst.of_cell(cell) {
        return true;
    }
    let mut k: usize = 0;
    while k < a.guard.len()
        invariant
            k <= a.guard@.len(),
            forall|m: int|
                0 <= m < k ==> !(port_key(#[trigger] a.guard@[m]).0 && port_key(a.guard@[m]).1
                    == cell@),
        decreases a.guard@.len() - k,
    {
        if a.guard[k].of_cell(cell) {
            return true;
        }
        k = k + 1;
    }
    false
}

fn group_uses(asgns: &Vec<Assignment>, cell: &Id) -> (r: bool)
    ensures
        r == uses_cell(asgns@, cell@),
{
    let mut j: usize = 0;
    while j < asgns.len()
        invariant
            j <= asgns@.len(),
            forall|m: int| 0 <= m < j ==> !asgn_uses(#[trigger] asgns@[m], cell@),
        decreases asgns@.len() - j,
    {
        if assignment_uses(&asgns[j], cell) {
            return true;
        }
        j = j + 1;
    }
    false
}

fn push_if_kept(
    out: &mut Vec<(PortRef, PortRef)>,
    src: &PortRef,
    dst: &PortRef,
    comp: &Component,
    lat: &Vec<LatencyData>,
)
    ensures
        edges_view(final(out)@) == edges_view(old(out)@) + kept(
            comp.cells@,
            lat@,
            edge_key(*src, *dst),
        ),
{
    if mem_wrt_dep_graph(src, dst, comp, lat) {
        let e = (src.copy(), dst.copy());
        out.push(e);
        assert(edges_view(out@) =~= edges_view(old(out)@).push(edge_key(*src, *dst)));
    } else {
        assert(edges_view(out@) =~= edges_view(old(out)@) + Seq::<EdgeKey>::empty());
    }
}

/// The edges of the dependency graph of a group.
pub fn dependency_graph(group: &Group, latency_data: &Vec<LatencyData>, comp: &Component) -> (r: Vec<
    (PortRef, PortRef),
>)
    ensures
        edges_view(r@) == dependency_edges(*group, latency_data@, *comp),
{
    let ghost cells = comp.cells@;
    let ghost lat = latency_data@;
    let ghost asgns = group.assignments@;
    let mut out: Vec<(PortRef, PortRef)> = Vec::new();
    assert(edges_view(out@) =~= Seq::<EdgeKey>::empty());
    let mut j: usize = 0;
    while j < group.assignments.len()
        invariant
            j <= asgns.len(),
            asgns == group.assignments@,
            cells == comp.cells@,
            lat == latency_data@,
            edges_view(out@) == assignments_edges(cells, lat, asgns, j as int),
        decreases asgns.len() - j,
    {
        let a = &group.assignments[j];
        push_if_kept(&mut out, &a.src, &a.dst, comp, latency_data);
        let mut k: usize = 0;
        while k < a.guard.len()
            invariant
                k <= a.guard@.len(),
                j < asgns.len(),
                *a == asgns[j as int],
                asgns == group.assignments@,
                cells == comp.cells@,
                lat == latency_data@,
                edges_view(out@) == assignments_edges(cells, lat, asgns, j as int) + kept(
                    cells,
                    lat,
                    edge_key(a.src, a.dst),
                ) + guard_edges(cells, lat, *a, k as int),
            decreases a.guard@.len() - k,
        {
            let ghost before = edges_view(out@);
            push_if_kept(&mut out, &a.guard[k], &a.dst, comp, latency_data);
            assert(edges_view(out@) =~= assignments_edges(cells, lat, asgns, j as int) + kept(
                cells,
                lat,
                edge_key(a.src, a.dst),
            ) + guard_edges(cells, lat, *a, k + 1));
            k = k + 1;
        }
        assert(edges_view(out@) =~= assignments_edges(cells, lat, asgns, j + 1));
        j = j + 1;
    }
    let ghost asgn_part = edges_view(out@);
    assert(asgn_part + go_done_edges(cells, lat, asgns, 0) =~= asgn_part);
    let mut i: usize = 0;
    while i < comp.cells.len()
        invariant
            i <= cells.len(),
            asgns == group.assignments@,
            cells == comp.cells@,
            lat == latency_data@,
            asgn_part == assignments_edges(cells, lat, asgns, asgns.len() as int),
            edges_view(out@) == asgn_part + go_done_edges(cells, lat, asgns, i as int),
        decreases cells.len() - i,
    {
        let c = &comp.cells[i];
        let ghost before = edges_view(out@);
        if group_uses(&group.assignments, &c.name) {
            match &c.prototype {
                CellType::Primitive { name, .. } => match find_latency(latency_data, name) {
                    Some(k) => {
                    let d = &latency_data[k];
                    if c.has_port(d.go.as_str()) && c.has_port(d.done.as_str()) {
                        let go = PortRef {
                            name: Id::from_string(d.go.clone()),
                            parent: PortParent::Cell(c.name.copy()),
                        };
                        let done = PortRef {
                            name: Id::from_string(d.done.clone()),
                            parent: PortParent::Cell(c.name.copy()),
                        };
                        out.push((go, done));
                        assert(edges_view(out@) =~= before + go_done_of(lat, asgns, cells[i as int]));
                    } else {
                        assert(edges_view(out@) =~= before + go_done_of(lat, asgns, cells[i as int]));
                    }
                    },
                    None => {
                        assert(edges_view(out@) =~= before + go_done_of(lat, asgns, cells[i as int]));
                    },
                },
                _ => {
                    assert(edges_view(out@) =~= before + go_done_of(lat, asgns, cells[i as int]));
                },
            }
        } else {
            assert(edges_view(out@) =~= before + go_done_of(lat, asgns, cells[i as int]));
        }
        assert(edges_view(out@) =~= asgn_part + go_done_edges(cells, lat, asgns, i + 1));
        i = i + 1;
    }
    out
}

/// The number of edges that enter the port.
pub open spec fn in_count(es: Seq<EdgeKey>, v: PortKey) -> nat
    decreases es.len(),
{
    if es.len() == 0 {
        0
    } else {
        in_count(es.drop_last(), v) + if es.last().1 == v {
            1nat
        } else {
            0nat
        }
    }
}

/// The index of the first edge that enters the port.
pub open spec fn first_in(es: Seq<EdgeKey>, v: PortKey) -> Option<int>
    decreases es.len(),
{
    if es.len() == 0 {
        None
    } else {
        match first_in(es.drop_last(), v) {
            Some(i) => Some(i),
            None => if es.last().1 == v {
                Some(es.len() - 1)
            } else {
                None
            },
        }
    }
}

/// A port enters some edge exactly when there is a first such edge.
pub proof fn lemma_first_in(es: Seq<EdgeKey>, v: PortKey)
    ensures
        (in_count(es, v) > 0) == (first_in(es, v) is Some),
        first_in(es, v) matches Some(i) ==> 0 <= i < es.len() && es[i].1 == v,
    decreases es.len(),
{
    if es.len() > 0 {
        lemma_first_in(es.drop_last(), v);
    }
}

/// The number of cycles an edge takes: the latency of a primitive for the
/// edge from its `go` to its `done`, and none for any other edge.
pub open spec fn edge_weight(cells: Seq<Cell>, lat: Seq<LatencyData>, e: EdgeKey) -> nat {
    let p = prim_name(cells, e.0.1);
    if e.0.0 && e.1.0 && e.0.1 == e.1.1 && p is Some && lat_index(lat, p.unwrap()) is Some {
        let d = lat[lat_index(lat, p.unwrap()).unwrap()];
        if e.0.2 == d.go@ && e.1.2 == d.done@ {
            d.latency as nat
        } else {
            0
        }
    } else {
        0
    }
}

/// Whether the port is the `done` port of a primitive with latency data.
pub open spec fn is_done_port(cells: Seq<Cell>, lat: Seq<LatencyData>, p: PortKey) -> bool {
    let q = prim_name(cells, p.1);
    &&& p.0
    &&& q is Some
    &&& lat_index(lat, q.unwrap()) is Some
    &&& p.2 == lat[lat_index(lat, q.unwrap()).unwrap()].done@
}

/// The number of cycles along the chain of edges that ends in port `v`,
/// following back the one edge that enters each port until a port that no
/// edge enters; none where a port is entered by more than one edge, or
/// after `fuel` edges.
pub open spec fn walk(
    cells: Seq<Cell>,
    lat: Seq<LatencyData>,
    es: Seq<EdgeKey>,
    v: PortKey,
    fuel: nat,
) -> Option<nat>
    decreases fuel,
{
    if in_count(es, v) == 0 {
        Some(0)
    } else if in_count(es, v) > 1 || fuel == 0 {
        None
    } else {
        let e = es[first_in(es, v).unwrap()];
        match walk(cells, lat, es, e.0, (fuel - 1) as nat) {
            Some(l) => Some(l + edge_weight(cells, lat, e)),
            None => None,
        }
    }
}

/// The latency of a group with the given name and assignments: its `done`
/// hole is driven by exactly one edge of the dependency graph, from the
/// `done` of a primitive, and the chain of edges that ends there, no longer
/// than the graph, takes a number of cycles that fits in `u64`.
pub open spec fn latency_of(
    name: Seq<char>,
    asgns: Seq<Assignment>,
    cells: Seq<Cell>,
    lat: Seq<LatencyData>,
) -> Option<u64> {
    let es = dep_edges(asgns, cells, lat);
    let d: PortKey = (false, name, "done"@);
    if in_count(es, d) == 1 && is_done_port(cells, lat, es[first_in(es, d).unwrap()].0) {
        match walk(cells, lat, es, d, es.len()) {
            Some(l) => if l <= u64::MAX {
                Some(l as u64)
            } else {
                None
            },
            None => None,
        }
    } else {
        None
    }
}

/// The latency of a group of the component, if it can be inferred.
pub open spec fn group_latency(group: Group, lat: Seq<LatencyData>, comp: Component) -> Option<u64> {
    latency_of(group.name@, group.assignments@, comp.cells@, lat)
}

/// Adds a number to a result, if there is one.
pub open spec fn plus(o: Option<nat>, a: nat) -> Option<nat> {
    match o {
        Some(l) => Some(l + a),
        None => None,
    }
}

/// Whether the two ports are the same.
fn same_port(a: &PortRef, b: &PortRef) -> (r: bool)
    ensures
        r == (port_key(*a) == port_key(*b)),
{
    let same_parent = match (&a.parent, &b.parent) {
        (PortParent::Cell(x), PortParent::Cell(y)) => x.same(y),
        (PortParent::Group(x), PortParent::Group(y)) => x.same(y),
        _ => false,
    };
    same_parent && a.name.same(&b.name)
}

/// The number of edges that enter the port, and the index of the first.
fn incoming(es: &Vec<(PortRef, PortRef)>, v: &PortRef) -> (r: (usize, Option<usize>))
    ensures
        r.0 == in_count(edges_view(es@), port_key(*v)),
        match r.1 {
            Some(k) => first_in(edges_view(es@), port_key(*v)) == Some(k as int),
            None => first_in(edges_view(es@), port_key(*v)) is None,
        },
{
    let ghost ev = edges_view(es@);
    let ghost key = port_key(*v);
    let mut count: usize = 0;
    let mut first: Option<usize> = None;
    let mut i: usize = 0;
    assert(ev.take(0) =~= Seq::<EdgeKey>::empty());
    while i < es.len()
        invariant
            i <= es@.len(),
            ev == edges_view(es@),
            key == port_key(*v),
            count <= i,
            count == in_count(ev.take(i as int), key),
            match first {
                Some(k) => first_in(ev.take(i as int), key) == Some(k as int),
                None => first_in(ev.take(i as int), key) is None,
            },
        decreases es@.len() - i,
    {
        assert(ev.take(i + 1).drop_last() =~= ev.take(i as int));
        assert(ev.take(i + 1).last() == edge_key(es@[i as int].0, es@[i as int].1));
        if same_port(&es[i].1, v) {
            count = count + 1;
            if first.is_none() {
                first = Some(i);
            }
        }
        i = i + 1;
    }
    assert(ev.take(i as int) =~= ev);
    (count, first)
}

/// The number of cycles the edge from `a` to `b` takes (see `edge_weight`).
fn weight(a: &PortRef, b: &PortRef, comp: &Component, lat: &Vec<LatencyData>) -> (r: u64)
    ensures
        r as nat == edge_weight(comp.cells@, lat@, edge_key(*a, *b)),
{
    match (&a.parent, &b.parent) {
        (PortParent::Cell(ca), PortParent::Cell(cb)) => {
            if !ca.same(cb) {
                return 0;
            }
            match cell_prim(&comp.cells, ca) {
                Some(p) => match find_latency(lat, &p) {
                    Some(k) => {
                        if a.name.id == lat[k].go && b.name.id == lat[k].done {
                            lat[k].latency
                        } else {
                            0
                        }
                    },
                    None => 0,
                },
                None => 0,
            }
        },
        _ => 0,
    }
}

/// Whether the port is the `done` port of a primitive with latency data.
fn done_port(p: &PortRef, comp: &Component, lat: &Vec<LatencyData>) -> (r: bool)
    ensures
        r == is_done_port(comp.cells@, lat@, port_key(*p)),
{
    match &p.parent {
        PortParent::Cell(c) => match cell_prim(&comp.cells, c) {
            Some(q) => match find_latency(lat, &q) {
                Some(k) => p.name.id == lat[k].done,
                None => false,
            },
            None => false,
        },
        PortParent::Group(_) => false,
    }
}

/// The number of cycles of a group, starting when its `go` is high, if it
/// can be inferred: when the group's `done` relies only on `done` signals
/// of primitives with latency data, it is the sum of the latencies along
/// the chain of the dependency graph that ends in the group's `done`.
/// Otherwise the group is ignored and the result is `None`.
pub fn infer_latency(group: &Group, latency_data: &Vec<LatencyData>, comp: &Component) -> (r: Option<
    u64,
>)
    ensures
        r == group_latency(*group, latency_data@, *comp),
{
    let es = dependency_graph(group, latency_data, comp);
    let ghost ev = edges_view(es@);
    let ghost cells = comp.cells@;
    let ghost lat = latency_data@;
    let done = PortRef { name: Id::from_str("done"), parent: PortParent::Group(group.name.copy()) };
    let ghost d: PortKey = (false, group.name@, "done"@);
    assert(port_key(done) == d);
    let (count, first) = incoming(&es, &done);
    proof {
        lemma_first_in(ev, d);
    }
    if count != 1 {
        return None;
    }
    let k = match first {
        Some(k) => k,
        None => return None,
    };
    if !done_port(&es[k].0, comp, latency_data) {
        return None;
    }
    let ghost total = walk(cells, lat, ev, d, ev.len());
    let ghost result = match total {
        Some(l) => if l <= u64::MAX {
            Some(l as u64)
        } else {
            None
        },
        None => None,
    };
    assert(ev == dep_edges(group.assignments@, cells, lat));
    assert(group_latency(*group, lat, *comp) == result);
    let mut v = done;
    let mut fuel: usize = es.len();
    let mut acc: u64 = 0;
    loop
        invariant
            ev == edges_view(es@),
            cells == comp.cells@,
            lat == latency_data@,
            fuel <= ev.len(),
            total == walk(cells, lat, ev, d, ev.len()),
            group_latency(*group, lat, *comp) == result,
            result == match total {
                Some(l) => if l <= u64::MAX {
                    Some(l as u64)
                } else {
                    None
                },
                None => None,
            },
            total == plus(walk(cells, lat, ev, port_key(v), fuel as nat), acc as nat),
        decreases fuel,
    {
        let (count, first) = incoming(&es, &v);
        proof {
            lemma_first_in(ev, port_key(v));
        }
        if count == 0 {
            return Some(acc);
        }
        if count > 1 || fuel == 0 {
            return None;
        }
        let k = match first {
            Some(k) => k,
            None => return None,
        };
        let w = weight(&es[k].0, &es[k].1, comp, latency_data);
        acc = match acc.checked_add(w) {
            Some(x) => x,
            None => return None,
        };
        v = es[k].0.copy();
        fuel = fuel - 1;
    }
}

/// A group's `done` hole driven by the `done` of one primitive, whose `go`
/// is driven by a cell's port that nothing drives, takes the latency of that
/// primitive: walking back from the hole adds the latency on the edge from
/// the primitive's `go` to its `done` and nothing on the others.
pub proof fn law_walk_one_primitive(
    cells: Seq<Cell>,
    lat: Seq<LatencyData>,
    src: PortKey,
    cell: Seq<char>,
    hole: PortKey,
)
    requires
        prim_name(cells, cell) is Some,
        lat_index(lat, prim_name(cells, cell).unwrap()) is Some,
        !hole.0,
        src.0,
        src != (true, cell, lat[lat_index(lat, prim_name(cells, cell).unwrap()).unwrap()].go@),
        src != (true, cell, lat[lat_index(lat, prim_name(cells, cell).unwrap()).unwrap()].done@),
        lat[lat_index(lat, prim_name(cells, cell).unwrap()).unwrap()].go@
            != lat[lat_index(lat, prim_name(cells, cell).unwrap()).unwrap()].done@,
    ensures
        ({
            let d = lat[lat_index(lat, prim_name(cells, cell).unwrap()).unwrap()];
            let go: PortKey = (true, cell, d.go@);
            let done: PortKey = (true, cell, d.done@);
            let es = seq![(src, go), (done, hole), (go, done)];
            walk(cells, lat, es, hole, 3) == Some(d.latency as nat)
        }),
{
    let d = lat[lat_index(lat, prim_name(cells, cell).unwrap()).unwrap()];
    let go: PortKey = (true, cell, d.go@);
    let done: PortKey = (true, cell, d.done@);
    let es = seq![(src, go), (done, hole), (go, done)];
    assert(es.drop_last() =~= seq![(src, go), (done, hole)]);
    assert(es.drop_last().drop_last() =~= seq![(src, go)]);
    assert(es.drop_last().drop_last().drop_last() =~= Seq::<EdgeKey>::empty());
    reveal_with_fuel(in_count, 4);
    reveal_with_fuel(first_in, 4);
    assert(in_count(es, src) == 0);
    assert(in_count(es, go) == 1);
    assert(first_in(es, go) == Some(0int));
    assert(in_count(es, done) == 1);
    assert(first_in(es, done) == Some(2int));
    assert(in_count(es, hole) == 1);
    assert(first_in(es, hole) == Some(1int));
    assert(edge_weight(cells, lat, (src, go)) == 0);
    assert(edge_weight(cells, lat, (go, done)) == d.latency as nat);
    assert(edge_weight(cells, lat, (done, hole)) == 0);
    reveal_with_fuel(walk, 4);
}

/// Whether the group has a `static` annotation that differs from its
/// inferred latency.
pub open spec fn conflicts(group: Group, lat: Seq<LatencyData>, comp: Component) -> bool {
    let l = group_latency(group, lat, comp);
    let a = attr_lookup(attrs_view(group.attributes@), "static"@);
    l is Some && a is Some && a.unwrap() != l.unwrap()
}

/// The first group, from index `i` on, whose annotation conflicts.
pub open spec fn first_conflict(comp: Component, lat: Seq<LatencyData>, i: int) -> Option<int>
    decreases comp.groups@.len() - i,
{
    if i < 0 || i >= comp.groups@.len() {
        None
    } else if conflicts(comp.groups@[i], lat, comp) {
        Some(i)
    } else {
        first_conflict(comp, lat, i + 1)
    }
}

/// The attributes of the group once annotated with its inferred latency,
/// if there is one.
pub open spec fn annotated(group: Group, lat: Seq<LatencyData>, comp: Component) -> Seq<
    (Seq<char>, u64),
> {
    match group_latency(group, lat, comp) {
        Some(l) => with_attr(attrs_view(group.attributes@), "static"@, l),
        None => attrs_view(group.attributes@),
    }
}

impl InferStaticTiming {
    /// Infers the latency of each group in order and annotates the group
    /// with it in a `static` attribute. The first group whose existing
    /// `static` annotation differs from its inferred latency is reported,
    /// with the annotation left as it is; the groups before it are
    /// annotated and those after it are not. Groups whose latency cannot be
    /// inferred are left as they are. The cells, the names and assignments
    /// of the groups and the continuous assignments do not change.
    #[verifier::spinoff_prover]
    pub fn start(&mut self, comp: &mut Component, _c: &Context) -> (r: Result<Action, Error>)
        ensures
            final(self).latency_data() == old(self).latency_data(),
            final(comp).name == old(comp).name,
            final(comp).cells == old(comp).cells,
            final(comp).continuous_assignments == old(comp).continuous_assignments,
            final(comp).groups@.len() == old(comp).groups@.len(),
            forall|h: int|
                0 <= h < old(comp).groups@.len() ==> {
                    &&& #[trigger] final(comp).groups@[h].name == old(comp).groups@[h].name
                    &&& final(comp).groups@[h].assignments == old(comp).groups@[h].assignments
                },
            first_conflict(*old(comp), old(self).latency_data(), 0) is None ==> {
                &&& r matches Ok(Action::Stop)
                &&& forall|h: int|
                    0 <= h < old(comp).groups@.len() ==> attrs_view(
                        #[trigger] final(comp).groups@[h].attributes@,
                    ) == annotated(old(comp).groups@[h], old(self).latency_data(), *old(comp))
            },
            first_conflict(*old(comp), old(self).latency_data(), 0) matches Some(k) ==> {
                &&& r matches Err(Error::ImpossibleLatencyAnnotation(n, a, l))
                &&& n@ == old(comp).groups@[k].name@
                &&& Some(a) == attr_lookup(attrs_view(old(comp).groups@[k].attributes@), "static"@)
                &&& Some(l) == group_latency(
                    old(comp).groups@[k],
                    old(self).latency_data(),
                    *old(comp),
                )
                &&& forall|h: int|
                    0 <= h < k ==> attrs_view(#[trigger] final(comp).groups@[h].attributes@)
                        == annotated(old(comp).groups@[h], old(self).latency_data(), *old(comp))
                &&& forall|h: int|
                    k <= h < old(comp).groups@.len() ==> #[trigger] final(comp).groups@[h].attributes
                        == old(comp).groups@[h].attributes
            },
    {
        let ghost c0 = *comp;
        let ghost lat = self.latency_data();
        let mut g: usize = 0;
        while g < comp.groups.len()
            invariant
                g <= comp.groups@.len(),
                self.latency_data() == lat,
                lat == old(self).latency_data(),
                c0 == *old(comp),
                comp.name == c0.name,
                comp.cells == c0.cells,
                comp.continuous_assignments == c0.continuous_assignments,
                comp.groups@.len() == c0.groups@.len(),
                forall|h: int|
                    0 <= h < c0.groups@.len() ==> {
                        &&& #[trigger] comp.groups@[h].name == c0.groups@[h].name
                        &&& comp.groups@[h].assignments == c0.groups@[h].assignments
                    },
                forall|h: int|
                    0 <= h < g ==> attrs_view(#[trigger] comp.groups@[h].attributes@) == annotated(
                        c0.groups@[h],
                        lat,
                        c0,
                    ),
                forall|h: int|
                    g <= h < c0.groups@.len() ==> #[trigger] comp.groups@[h].attributes
                        == c0.groups@[h].attributes,
                first_conflict(c0, lat, 0) == first_conflict(c0, lat, g as int),
            decreases comp.groups@.len() - g,
        {
            let latency_result = infer_latency(&comp.groups[g], &self.prim_latency_data, comp);
            assert(latency_result == group_latency(c0.groups@[g as int], lat, c0));
            match latency_result {
                Some(latency) => {
                    match crate::ir::get_attribute(&comp.groups[g].attributes, "static") {
                        Some(curr_lat) => {
                            if curr_lat != latency {
                                assert(conflicts(c0.groups@[g as int], lat, c0));
                                return Err(
                                    Error::ImpossibleLatencyAnnotation(
                                        comp.groups[g].name.to_string(),
                                        curr_lat,
                                        latency,
                                    ),
                                );
                            }
                        },
                        None => {},
                    }
                    let ghost before = comp.groups@;
                    let mut grp = comp.groups.remove(g);
                    set_attribute(&mut grp.attributes, "static", latency);
                    comp.groups.insert(g, grp);
                    assert(comp.groups@ =~= before.update(g as int, grp));
                },
                None => {},
            }
            assert(!conflicts(c0.groups@[g as int], lat, c0));
            g = g + 1;
        }
        Ok(Action::stop_default())
    }
}

} // verus!
