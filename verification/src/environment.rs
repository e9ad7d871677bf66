//! The interpreter's environment: the cells of each component, and the
//! number on each port of a cell.

use vstd::prelude::*;
use crate::assoc::{assoc, lemma_assoc_absent, lemma_assoc_last, lemma_assoc_push, lemma_assoc_update};
use crate::ids::Id;

verus! {

/// A port of a cell in a component: (component, cell, port).
pub type PortKey = (Seq<char>, Seq<char>, Seq<char>);

/// A cell in a component: (component, cell).
pub type CellKey = (Seq<char>, Seq<char>);

/// What an environment holds: the type of each cell (`None` for a cell
/// without a type name, such as a constant) and the number on each port.
pub struct EnvModel {
    pub cells: Map<CellKey, Option<Seq<char>>>,
    pub ports: Map<PortKey, u64>,
}

impl EnvModel {
    /// Whether the port holds a number.
    pub open spec fn has(self, comp: Seq<char>, cell: Seq<char>, port: Seq<char>) -> bool {
        self.ports.dom().contains((comp, cell, port))
    }

    /// The number on the port.
    pub open spec fn get(self, comp: Seq<char>, cell: Seq<char>, port: Seq<char>) -> u64 {
        self.ports[(comp, cell, port)]
    }

    /// Whether the cell is known.
    pub open spec fn has_cell(self, comp: Seq<char>, cell: Seq<char>) -> bool {
        self.cells.dom().contains((comp, cell))
    }

    /// The environment with `v` on the port.
    pub open spec fn put(self, comp: Seq<char>, cell: Seq<char>, port: Seq<char>, v: u64) -> EnvModel {
        EnvModel { cells: self.cells, ports: self.ports.insert((comp, cell, port), v) }
    }
}

/// A read after a write: the port written holds the number written, and
/// every other port holds what it held.
pub proof fn law_put_get(
    m: EnvModel,
    comp: Seq<char>,
    cell: Seq<char>,
    port: Seq<char>,
    v: u64,
    comp2: Seq<char>,
    cell2: Seq<char>,
    port2: Seq<char>,
)
    ensures
        m.put(comp, cell, port, v).has(comp, cell, port),
        m.put(comp, cell, port, v).get(comp, cell, port) == v,
        (comp2, cell2, port2) != (comp, cell, port) ==> {
            &&& m.put(comp, cell, port, v).has(comp2, cell2, port2) == m.has(comp2, cell2, port2)
            &&& m.put(comp, cell, port, v).get(comp2, cell2, port2) == m.get(comp2, cell2, port2)
        },
        m.put(comp, cell, port, v).cells == m.cells,
{
}

/// A cell as the environment knows it.
#[derive(Debug)]
pub struct Cell {
    pub name: Id,
    /// The primitive or component that the cell instantiates.
    pub prototype: Option<Id>,
}

impl Cell {
    /// The name of the primitive or component that the cell instantiates.
    pub fn prototype_name(&self) -> (r: Option<Id>)
        ensures
            r.is_some() == self.prototype.is_some(),
            r.is_some() ==> r.unwrap()@ == self.prototype.unwrap()@,
    {
        match &self.prototype {
            Some(t) => Some(t.copy()),
            None => None,
        }
    }
}

/// The number on a port of a cell.
#[derive(Debug)]
pub struct PortEntry {
    pub component: Id,
    pub cell: Id,
    pub port: Id,
    pub value: u64,
}

/// A cell of a component.
#[derive(Debug)]
pub struct CellEntry {
    pub component: Id,
    pub cell: Id,
    pub prototype: Option<Id>,
}

/// The key and number of a port entry.
pub open spec fn port_pair(e: PortEntry) -> (PortKey, u64) {
    ((e.component@, e.cell@, e.port@), e.value)
}

/// The type name of a cell, by its view.
pub open spec fn opt_view(t: Option<Id>) -> Option<Seq<char>> {
    match t {
        Some(i) => Some(i@),
        None => None,
    }
}

/// The key and type of a cell entry.
pub open spec fn cell_pair(e: CellEntry) -> (CellKey, Option<Seq<char>>) {
    ((e.component@, e.cell@), opt_view(e.prototype))
}

/// The key-value pairs of a list of port entries.
pub open spec fn port_pairs(s: Seq<PortEntry>) -> Seq<(PortKey, u64)> {
    s.map_values(|e: PortEntry| port_pair(e))
}

/// The key-value pairs of a list of cell entries.
pub open spec fn cell_pairs(s: Seq<CellEntry>) -> Seq<(CellKey, Option<Seq<char>>)> {
    s.map_values(|e: CellEntry| cell_pair(e))
}

fn copy_opt(t: &Option<Id>) -> (r: Option<Id>)
    ensures
        opt_view(r) == opt_view(*t),
{
    match t {
        Some(i) => Some(i.copy()),
        None => None,
    }
}

/// The cells of the components and the numbers on their ports.
#[derive(Debug)]
pub struct Environment {
    cells: Vec<CellEntry>,
    ports: Vec<PortEntry>,
}

impl View for Environment {
    type V = EnvModel;

    closed spec fn view(&self) -> EnvModel {
        EnvModel { cells: assoc(cell_pairs(self.cells@)), ports: assoc(port_pairs(self.ports@)) }
    }
}

impl Clone for Environment {
    fn clone(&self) -> (r: Self)
        ensures
            r@ == self@,
    {
        let mut cells: Vec<CellEntry> = Vec::new();
        let mut i: usize = 0;
        while i < self.cells.len()
            invariant
                i <= self.cells@.len(),
                cell_pairs(cells@) == cell_pairs(self.cells@.take(i as int)),
            decreases self.cells@.len() - i,
        {
            let e = &self.cells[i];
            let ghost before = cells@;
            cells.push(
                CellEntry {
                    component: e.component.copy(),
                    cell: e.cell.copy(),
                    prototype: copy_opt(&e.prototype),
                },
            );
            assert(cell_pairs(cells@) =~= cell_pairs(before).push(cell_pair(self.cells@[i as int])));
            assert(self.cells@.take(i + 1) =~= self.cells@.take(i as int).push(
                self.cells@[i as int],
            ));
            assert(cell_pairs(self.cells@.take(i + 1)) =~= cell_pairs(
                self.cells@.take(i as int),
            ).push(cell_pair(self.cells@[i as int])));
            i = i + 1;
        }
        assert(self.cells@.take(self.cells@.len() as int) =~= self.cells@);
        let mut ports: Vec<PortEntry> = Vec::new();
        let mut i: usize = 0;
        while i < self.ports.len()
            invariant
                i <= self.ports@.len(),
                port_pairs(ports@) == port_pairs(self.ports@.take(i as int)),
            decreases self.ports@.len() - i,
        {
            let e = &self.ports[i];
            let ghost before = ports@;
            ports.push(
                PortEntry {
                    component: e.component.copy(),
                    cell: e.cell.copy(),
                    port: e.port.copy(),
                    value: e.value,
                },
            );
            assert(port_pairs(ports@) =~= port_pairs(before).push(port_pair(self.ports@[i as int])));
            assert(self.ports@.take(i + 1) =~= self.ports@.take(i as int).push(
                self.ports@[i as int],
            ));
            assert(port_pairs(self.ports@.take(i + 1)) =~= port_pairs(
                self.ports@.take(i as int),
            ).push(port_pair(self.ports@[i as int])));
            i = i + 1;
        }
        assert(self.ports@.take(self.ports@.len() as int) =~= self.ports@);
        Environment { cells, ports }
    }
}

impl Environment {
    /// An environment without cells.
    pub fn new() -> (r: Environment)
        ensures
            r@.cells == Map::<CellKey, Option<Seq<char>>>::empty(),
            r@.ports == Map::<PortKey, u64>::empty(),
    {
        let r = Environment { cells: Vec::new(), ports: Vec::new() };
        assert(cell_pairs(r.cells@) =~= Seq::empty());
        assert(port_pairs(r.ports@) =~= Seq::empty());
        r
    }

    /// The index of the last entry for a port, if any.
    fn find_port(&self, comp: &Id, cell: &Id, port: &Id) -> (r: Option<usize>)
        ensures
            match r {
                Some(i) => {
                    &&& i < self.ports@.len()
                    &&& port_pairs(self.ports@)[i as int].0 == (comp@, cell@, port@)
                    &&& forall|j: int|
                        i < j < self.ports@.len() ==> #[trigger] port_pairs(self.ports@)[j].0 != (
                            comp@,
                            cell@,
                            port@,
                        )
                },
                None => forall|j: int|
                    0 <= j < self.ports@.len() ==> #[trigger] port_pairs(self.ports@)[j].0 != (
                        comp@,
                        cell@,
                        port@,
                    ),
            },
    {
        let mut i: usize = self.ports.len();
        while i > 0
            invariant
                i <= self.ports@.len(),
                forall|j: int|
                    i <= j < self.ports@.len() ==> #[trigger] port_pairs(self.ports@)[j].0 != (
                        comp@,
                        cell@,
                        port@,
                    ),
            decreases i,
        {
            i = i - 1;
            let e = &self.ports[i];
            if e.component.same(comp) && e.cell.same(cell) && e.port.same(port) {
                return Some(i);
            }
        }
        None
    }

    /// The index of the last entry for a cell, if any.
    fn find_cell(&self, comp: &Id, cell: &Id) -> (r: Option<usize>)
        ensures
            match r {
                Some(i) => {
                    &&& i < self.cells@.len()
                    &&& cell_pairs(self.cells@)[i as int].0 == (comp@, cell@)
                    &&& forall|j: int|
                        i < j < self.cells@.len() ==> #[trigger] cell_pairs(self.cells@)[j].0 != (
                            comp@,
                            cell@,
                        )
                },
                None => forall|j: int|
                    0 <= j < self.cells@.len() ==> #[trigger] cell_pairs(self.cells@)[j].0 != (
                        comp@,
                        cell@,
                    ),
            },
    {
        let mut i: usize = self.cells.len();
        while i > 0
            invariant
                i <= self.cells@.len(),
                forall|j: int|
                    i <= j < self.cells@.len() ==> #[trigger] cell_pairs(self.cells@)[j].0 != (
                        comp@,
                        cell@,
                    ),
            decreases i,
        {
            i = i - 1;
            let e = &self.cells[i];
            if e.component.same(comp) && e.cell.same(cell) {
                return Some(i);
            }
        }
        None
    }

    /// Adds a cell of the given type to a component; the ports of a cell
    /// already known keep their numbers.
    pub fn add_cell(&mut self, comp: &Id, cell: &Id, prototype: Option<Id>)
        ensures
            final(self)@.cells == old(self)@.cells.insert((comp@, cell@), opt_view(prototype)),
            final(self)@.ports == old(self)@.ports,
    {
        let e = CellEntry { component: comp.copy(), cell: cell.copy(), prototype };
        let ghost p = cell_pair(e);
        self.cells.push(e);
        proof {
            assert(cell_pairs(self.cells@) =~= cell_pairs(old(self).cells@).push(p));
            lemma_assoc_push(cell_pairs(old(self).cells@), p);
        }
    }

    /// The cell of a component, if the environment knows it.
    pub fn get_cell(&self, comp: &Id, cell: &Id) -> (r: Option<Cell>)
        ensures
            r.is_some() == self@.has_cell(comp@, cell@),
            r.is_some() ==> r.unwrap().name@ == cell@ && opt_view(r.unwrap().prototype)
                == self@.cells[(comp@, cell@)],
    {
        match self.find_cell(comp, cell) {
            Some(i) => {
                proof {
                    lemma_assoc_last(cell_pairs(self.cells@), i as int);
                }
                Some(Cell { name: cell.copy(), prototype: copy_opt(&self.cells[i].prototype) })
            },
            None => {
                proof {
                    lemma_assoc_absent(cell_pairs(self.cells@), (comp@, cell@));
                }
                None
            },
        }
    }

    /// The number on a port, if it holds one.
    pub fn lookup(&self, comp: &Id, cell: &Id, port: &Id) -> (r: Option<u64>)
        ensures
            r.is_some() == self@.has(comp@, cell@, port@),
            r.is_some() ==> r.unwrap() == self@.get(comp@, cell@, port@),
    {
        match self.find_port(comp, cell, port) {
            Some(i) => {
                proof {
                    lemma_assoc_last(port_pairs(self.ports@), i as int);
                }
                Some(self.ports[i].value)
            },
            None => {
                proof {
                    lemma_assoc_absent(port_pairs(self.ports@), (comp@, cell@, port@));
                }
                None
            },
        }
    }

    /// The number on a port that holds one.
    pub fn get(&self, comp: &Id, cell: &Id, port: &Id) -> (r: u64)
        requires
            self@.has(comp@, cell@, port@),
        ensures
            r == self@.get(comp@, cell@, port@),
    {
        match self.lookup(comp, cell, port) {
            Some(v) => v,
            None => 0,
        }
    }

    /// Puts `val` on a port of a known cell.
    pub fn put(&mut self, comp: &Id, cell: &Id, port: &Id, val: u64)
        requires
            old(self)@.has_cell(comp@, cell@),
        ensures
            final(self)@ == old(self)@.put(comp@, cell@, port@, val),
    {
        match self.find_port(comp, cell, port) {
            Some(i) => {
                let e = PortEntry {
                    component: comp.copy(),
                    cell: cell.copy(),
                    port: port.copy(),
                    value: val,
                };
                let ghost p = port_pair(e);
                self.ports.set(i, e);
                proof {
                    let s = port_pairs(old(self).ports@);
                    assert(port_pairs(self.ports@) =~= s.update(i as int, (s[i as int].0, val)));
                    lemma_assoc_update(s, i as int, val);
                }
            },
            None => {
                let e = PortEntry {
                    component: comp.copy(),
                    cell: cell.copy(),
                    port: port.copy(),
                    value: val,
                };
                let ghost p = port_pair(e);
                self.ports.push(e);
                proof {
                    assert(port_pairs(self.ports@) =~= port_pairs(old(self).ports@).push(p));
                    lemma_assoc_push(port_pairs(old(self).ports@), p);
                }
            },
        }
    }
}

} // verus!
