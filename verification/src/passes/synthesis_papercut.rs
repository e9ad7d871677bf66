//! Checks for common mistakes that synthesis tools would not report: a
//! group that never assigns its `done` hole, and a memory that is only read
//! or only written.

use vstd::prelude::*;
use crate::errors::Error;
use crate::ids::{ids_view, Id};
use crate::ir::{
    attr_lookup, attrs_view, cell_type_name, port_key, Assignment, Cell, Component, Group,
};
use crate::passes::visitor::{Action, Named};
use crate::structure::Context;

verus! {

/// Reports groups that never assign their `done` hole, and memories that
/// synthesis tools would remove.
#[derive(Debug)]
pub struct SynthesisPapercut {
    /// Names of the memory primitives.
    memories: Vec<Id>,
}

impl SynthesisPapercut {
    /// The names of the memory primitives.
    pub closed spec fn memory_names(&self) -> Seq<Seq<char>> {
        ids_view(self.memories@)
    }
}

impl Default for SynthesisPapercut {
    fn default() -> (r: Self)
        ensures
            r.memory_names() == seq!["std_mem_d1"@, "std_mem_d2"@, "std_mem_d3"@, "std_mem_d4"@],
    {
        let mut memories: Vec<Id> = Vec::new();
        memories.push(Id::from_str("std_mem_d1"));
        memories.push(Id::from_str("std_mem_d2"));
        memories.push(Id::from_str("std_mem_d3"));
        memories.push(Id::from_str("std_mem_d4"));
        let r = SynthesisPapercut { memories };
        assert(r.memory_names() =~= seq![
            "std_mem_d1"@,
            "std_mem_d2"@,
            "std_mem_d3"@,
            "std_mem_d4"@,
        ]);
        r
    }
}

impl Named for SynthesisPapercut {
    fn name() -> (r: &'static str)
        ensures
            r@ == "synthesis-papercut"@,
    {
        "synthesis-papercut"
    }

    fn description() -> (r: &'static str)
        ensures
            r@ == "Detect common problems when targeting synthesis backends"@,
    {
        "Detect common problems when targeting synthesis backends"
    }
}

/// Whether some assignment of the group writes its own `done` hole.
pub open spec fn writes_done(g: Group) -> bool {
    exists|j: int|
        0 <= j < g.assignments@.len() && port_key(#[trigger] g.assignments@[j].dst) == (
            false,
            g.name@,
            "done"@,
        )
}

/// The first group, from index `i` on, that never writes its `done` hole.
pub open spec fn first_doneless(comp: Component, i: int) -> Option<int>
    decreases comp.groups@.len() - i,
{
    if i < 0 || i >= comp.groups@.len() {
        None
    } else if !writes_done(comp.groups@[i]) {
        Some(i)
    } else {
        first_doneless(comp, i + 1)
    }
}

/// The report on a group that never writes its `done` hole.
pub open spec fn no_done_message(group: Seq<char>) -> Seq<char> {
    "No writes to the `done' hole of group `"@ + group + "'."@
}

/// Whether a cell is a memory, of one of the given primitives, that is not
/// marked `external`.
pub open spec fn is_memory_cell(memories: Seq<Seq<char>>, c: Cell) -> bool {
    &&& cell_type_name(c) is Some
    &&& memories.contains(cell_type_name(c).unwrap())
    &&& attr_lookup(attrs_view(c.attributes@), "external"@) is None
}

/// Whether the assignment reads the port of the cell, as its source or in
/// its guard.
pub open spec fn asgn_reads(a: Assignment, cell: Seq<char>, port: Seq<char>) -> bool {
    ||| port_key(a.src) == (true, cell, port)
    ||| exists|k: int| 0 <= k < a.guard@.len() && port_key(#[trigger] a.guard@[k]) == (true, cell, port)
}

/// Whether the assignment writes the port of the cell.
pub open spec fn asgn_writes(a: Assignment, cell: Seq<char>, port: Seq<char>) -> bool {
    port_key(a.dst) == (true, cell, port)
}

/// Whether some assignment of the component, in a group or continuous,
/// reads the port of the cell.
pub open spec fn comp_reads(comp: Component, cell: Seq<char>, port: Seq<char>) -> bool {
    ||| exists|g: int, j: int|
        0 <= g < comp.groups@.len() && 0 <= j < comp.groups@[g].assignments@.len() && asgn_reads(
            #[trigger] comp.groups@[g].assignments@[j],
            cell,
            port,
        )
    ||| exists|j: int|
        0 <= j < comp.continuous_assignments@.len() && asgn_reads(
            #[trigger] comp.continuous_assignments@[j],
            cell,
            port,
        )
}

/// Whether some assignment of the component, in a group or continuous,
/// writes the port of the cell.
pub open spec fn comp_writes(comp: Component, cell: Seq<char>, port: Seq<char>) -> bool {
    ||| exists|g: int, j: int|
        0 <= g < comp.groups@.len() && 0 <= j < comp.groups@[g].assignments@.len() && asgn_writes(
            #[trigger] comp.groups@[g].assignments@[j],
            cell,
            port,
        )
    ||| exists|j: int|
        0 <= j < comp.continuous_assignments@.len() && asgn_writes(
            #[trigger] comp.continuous_assignments@[j],
            cell,
            port,
        )
}

/// The report on a memory whose read port nothing reads.
pub open spec fn only_reads_message(mem: Seq<char>) -> Seq<char> {
    "Only reads performed on memory `"@ + mem
        + "'. Synthesis tools with remove this memory. Add @external(1) to cell to turn this into an interface memory."@
}

/// The report on a memory whose write port nothing writes.
pub open spec fn only_writes_message(mem: Seq<char>) -> Seq<char> {
    "Only writes performed on memory `"@ + mem
        + "'. Synthesis tools with remove this memory. Add @external(1) to cell to turn this into an interface memory."@
}

/// The report on a memory cell, if it has a fault.
pub open spec fn memory_fault(comp: Component, c: Cell) -> Option<Seq<char>> {
    if !comp_reads(comp, c.name@, "read_data"@) {
        Some(only_reads_message(c.name@))
    } else if !comp_writes(comp, c.name@, "write_data"@) {
        Some(only_writes_message(c.name@))
    } else {
        None
    }
}

/// Whether the cell is a faulty memory.
pub open spec fn faulty(memories: Seq<Seq<char>>, comp: Component, c: Cell) -> bool {
    is_memory_cell(memories, c) && memory_fault(comp, c) is Some
}

/// The first faulty memory cell from index `i` on.
pub open spec fn first_faulty(memories: Seq<Seq<char>>, comp: Component, i: int) -> Option<int>
    decreases comp.cells@.len() - i,
{
    if i < 0 || i >= comp.cells@.len() {
        None
    } else if faulty(memories, comp, comp.cells@[i]) {
        Some(i)
    } else {
        first_faulty(memories, comp, i + 1)
    }
}

/// Whether every memory cell has the ports `read_data` and `write_data`.
pub open spec fn memories_have_ports(memories: Seq<Seq<char>>, comp: Component) -> bool {
    forall|i: int|
        0 <= i < comp.cells@.len() && is_memory_cell(memories, #[trigger] comp.cells@[i])
            ==> ids_view(comp.cells@[i].ports@).contains("read_data"@) && ids_view(
            comp.cells@[i].ports@,
        ).contains("write_data"@)
}

fn assignment_reads(a: &Assignment, cell: &Id, port: &str) -> (r: bool)
    ensures
        r == asgn_reads(*a, cell@, port@),
{
    if a.src.is_cell_port(cell, port) {
        return true;
    }
    let mut k: usize = 0;
    while k < a.guard.len()
        invariant
            k <= a.guard@.len(),
            forall|m: int| 0 <= m < k ==> port_key(#[trigger] a.guard@[m]) != (true, cell@, port@),
        decreases a.guard@.len() - k,
    {
        if a.guard[k].is_cell_port(cell, port) {
            return true;
        }
        k = k + 1;
    }
    false
}

/// Whether some assignment of the component reads the port of the cell.
pub fn reads_from(comp: &Component, cell: &Id, port: &str) -> (r: bool)
    ensures
        r == comp_reads(*comp, cell@, port@),
{
    let mut g: usize = 0;
    while g < comp.groups.len()
        invariant
            g <= comp.groups@.len(),
            forall|h: int, j: int|
                0 <= h < g && 0 <= j < comp.groups@[h].assignments@.len() ==> !asgn_reads(
                    #[trigger] comp.groups@[h].assignments@[j],
                    cell@,
                    port@,
                ),
        decreases comp.groups@.len() - g,
    {
        let grp = &comp.groups[g];
        let mut j: usize = 0;
        while j < grp.assignments.len()
            invariant
                j <= grp.assignments@.len(),
                g < comp.groups@.len(),
                *grp == comp.groups@[g as int],
                forall|m: int| 0 <= m < j ==> !asgn_reads(#[trigger] grp.assignments@[m], cell@, port@),
            decreases grp.assignments@.len() - j,
        {
            if assignment_reads(&grp.assignments[j], cell, port) {
                assert(asgn_reads(comp.groups@[g as int].assignments@[j as int], cell@, port@));
                return true;
            }
            j = j + 1;
        }
        g = g + 1;
    }
    let mut j: usize = 0;
    while j < comp.continuous_assignments.len()
        invariant
            j <= comp.continuous_assignments@.len(),
            forall|h: int, m: int|
                0 <= h < comp.groups@.len() && 0 <= m < comp.groups@[h].assignments@.len() ==> !asgn_reads(
                    #[trigger] comp.groups@[h].assignments@[m],
                    cell@,
                    port@,
                ),
            forall|m: int|
                0 <= m < j ==> !asgn_reads(#[trigger] comp.continuous_assignments@[m], cell@, port@),
        decreases comp.continuous_assignments@.len() - j,
    {
        if assignment_reads(&comp.continuous_assignments[j], cell, port) {
            return true;
        }
        j = j + 1;
    }
    false
}

/// Whether some assignment of the component writes the port of the cell.
pub fn writes_to(comp: &Component, cell: &Id, port: &str) -> (r: bool)
    ensures
        r == comp_writes(*comp, cell@, port@),
{
    let mut g: usize = 0;
    while g < comp.groups.len()
        invariant
            g <= comp.groups@.len(),
            forall|h: int, j: int|
                0 <= h < g && 0 <= j < comp.groups@[h].assignments@.len() ==> !asgn_writes(
                    #[trigger] comp.groups@[h].assignments@[j],
                    cell@,
                    port@,
                ),
        decreases comp.groups@.len() - g,
    {
        let grp = &comp.groups[g];
        let mut j: usize = 0;
        while j < grp.assignments.len()
            invariant
                j <= grp.assignments@.len(),
                g < comp.groups@.len(),
                *grp == comp.groups@[g as int],
                forall|m: int| 0 <= m < j ==> !asgn_writes(#[trigger] grp.assignments@[m], cell@, port@),
            decreases grp.assignments@.len() - j,
        {
            if grp.assignments[j].dst.is_cell_port(cell, port) {
                assert(asgn_writes(comp.groups@[g as int].assignments@[j as int], cell@, port@));
                return true;
            }
            j = j + 1;
        }
        g = g + 1;
    }
    let mut j: usize = 0;
    while j < comp.continuous_assignments.len()
        invariant
            j <= comp.continuous_assignments@.len(),
            forall|h: int, m: int|
                0 <= h < comp.groups@.len() && 0 <= m < comp.groups@[h].assignments@.len() ==> !asgn_writes(
                    #[trigger] comp.groups@[h].assignments@[m],
                    cell@,
                    port@,
                ),
            forall|m: int|
                0 <= m < j ==> !asgn_writes(#[trigger] comp.continuous_assignments@[m], cell@, port@),
        decreases comp.continuous_assignments@.len() - j,
    {
        if comp.continuous_assignments[j].dst.is_cell_port(cell, port) {
            return true;
        }
        j = j + 1;
    }
    false
}

/// Whether some assignment of the group writes its own `done` hole.
pub fn group_writes_done(g: &Group) -> (r: bool)
    ensures
        r == writes_done(*g),
{
    let mut j: usize = 0;
    while j < g.assignments.len()
        invariant
            j <= g.assignments@.len(),
            forall|m: int|
                0 <= m < j ==> port_key(#[trigger] g.assignments@[m].dst) != (
                    false,
                    g.name@,
                    "done"@,
                ),
        decreases g.assignments@.len() - j,
    {
        if g.assignments[j].dst.is_hole(&g.name, "done") {
            return true;
        }
        j = j + 1;
    }
    false
}

impl SynthesisPapercut {
    fn is_memory(&self, c: &Cell) -> (r: bool)
        ensures
            r == is_memory_cell(self.memory_names(), *c),
    {
        let t = match c.prototype_name() {
            Some(t) => t,
            None => return false,
        };
        let mut found = false;
        let mut i: usize = 0;
        while i < self.memories.len()
            invariant
                i <= self.memories@.len(),
                found == exists|k: int| 0 <= k < i && #[trigger] self.memories@[k]@ == t@,
            decreases self.memories@.len() - i,
        {
            if self.memories[i].same(&t) {
                found = true;
            }
            i = i + 1;
        }
        proof {
            if found {
                let k = choose|k: int| 0 <= k < i && #[trigger] self.memories@[k]@ == t@;
                assert(self.memory_names()[k] == t@);
            }
            if self.memory_names().contains(t@) {
                let k = choose|k: int|
                    0 <= k < self.memory_names().len() && self.memory_names()[k] == t@;
                assert(self.memories@[k]@ == t@);
            }
        }
        found && c.get_attribute("external").is_none()
    }

    /// First checks that every group assigns its `done` hole, and reports
    /// the first group, in order, that does not. Then checks every memory
    /// cell that is not marked `external`: something must read its
    /// `read_data` port and something must write its `write_data` port.
    /// Reports the first memory, in the order of the cells, for which either
    /// fails, with the first failure; otherwise stops the traversal.
    pub fn start(&mut self, comp: &mut Component, _ctx: &Context) -> (r: Result<Action, Error>)
        ensures
            *final(comp) == *old(comp),
            final(self).memory_names() == old(self).memory_names(),
            first_doneless(*old(comp), 0) matches Some(k) ==> r matches Err(
                Error::Papercut(msg, group),
            ) && group@ == old(comp).groups@[k].name@ && msg@ == no_done_message(
                old(comp).groups@[k].name@,
            ),
            first_doneless(*old(comp), 0) is None && first_faulty(
                old(self).memory_names(),
                *old(comp),
                0,
            ) is None ==> r matches Ok(Action::Stop),
            first_doneless(*old(comp), 0) is None ==> (first_faulty(
                old(self).memory_names(),
                *old(comp),
                0,
            ) matches Some(i) ==> r matches Err(Error::Papercut(msg, mem)) && mem@ == old(
                comp,
            ).cells@[i].name@ && Some(msg@) == memory_fault(*old(comp), old(comp).cells@[i])),
    {
        let mut k: usize = 0;
        while k < comp.groups.len()
            invariant
                k <= comp.groups@.len(),
                first_doneless(*comp, 0) == first_doneless(*comp, k as int),
            decreases comp.groups@.len() - k,
        {
            let grp = &comp.groups[k];
            if !group_writes_done(grp) {
                let mut msg = String::from_str("No writes to the `done' hole of group `");
                msg.append(grp.name.id.as_str());
                msg.append("'.");
                return Err(Error::Papercut(msg, grp.name.copy()));
            }
            k = k + 1;
        }
        assert(first_doneless(*comp, 0) is None);
        let ghost mems = self.memory_names();
        let mut i: usize = 0;
        while i < comp.cells.len()
            invariant
                i <= comp.cells@.len(),
                *comp == *old(comp),
                mems == self.memory_names(),
                mems == old(self).memory_names(),
                first_faulty(mems, *comp, 0) == first_faulty(mems, *comp, i as int),
                first_doneless(*comp, 0) is None,
            decreases comp.cells@.len() - i,
        {
            let cell = &comp.cells[i];
            if self.is_memory(cell) {
                if !reads_from(comp, &cell.name, "read_data") {
                    let mut msg = String::from_str("Only reads performed on memory `");
                    msg.append(cell.name.id.as_str());
                    msg.append(
                        "'. Synthesis tools with remove this memory. Add @external(1) to cell to turn this into an interface memory.",
                    );
                    return Err(Error::Papercut(msg, cell.name.copy()));
                }
                if !writes_to(comp, &cell.name, "write_data") {
                    let mut msg = String::from_str("Only writes performed on memory `");
                    msg.append(cell.name.id.as_str());
                    msg.append(
                        "'. Synthesis tools with remove this memory. Add @external(1) to cell to turn this into an interface memory.",
                    );
                    return Err(Error::Papercut(msg, cell.name.copy()));
                }
            }
            i = i + 1;
        }
        Ok(Action::Stop)
    }
}

} // verus!
