//! Duplicates every data wire of a component with a one-bit read wire.

use vstd::prelude::*;
use crate::ast::{Component, Port, PortModel, Portdef, Structure, StructureModel, Wire};
use crate::passes::visitor::{portdefs_view, structures_view, Changes};

verus! {

/// Adds read ports and read wires to a component.
#[derive(Debug)]
pub struct ReadWire {}

/// The port with `_` and a suffix added to its name.
pub open spec fn suffixed(p: PortModel, suffix: Seq<char>) -> PortModel {
    match p {
        PortModel::Comp(c, q) => PortModel::Comp(c, q + "_"@ + suffix),
        PortModel::This(q) => PortModel::This(q + "_"@ + suffix),
        PortModel::Hole(g, n) => PortModel::Hole(g, n),
    }
}

/// One-bit ports named after the given ports, with a suffix.
pub open spec fn read_ports(ports: Seq<Portdef>, suffix: Seq<char>) -> Seq<(Seq<char>, u64)> {
    ports.map_values(|p: Portdef| (p.name@ + suffix, 1u64))
}

/// The read wire of each data wire, in order.
pub open spec fn read_wires(s: Seq<Structure>) -> Seq<StructureModel>
    decreases s.len(),
{
    if s.len() == 0 {
        Seq::empty()
    } else {
        let rest = read_wires(s.drop_last());
        match s.last() {
            Structure::Wire { data } => rest.push(
                StructureModel::Wire(
                    suffixed(data.src@, "read_out"@),
                    suffixed(data.dest@, "read_in"@),
                ),
            ),
            _ => rest,
        }
    }
}

/// The port with `_` and a suffix added to its name; a hole is kept as it is.
fn update_port(port: &Port, port_suffix: &str) -> (r: Port)
    ensures
        r@ == suffixed(port@, port_suffix@),
{
    match port {
        Port::Comp { component, port } => {
            let mut name = port.to_string();
            name.append("_");
            name.append(port_suffix);
            Port::Comp { component: component.copy(), port: crate::ids::Id::from_string(name) }
        },
        Port::This { port } => {
            let mut name = port.to_string();
            name.append("_");
            name.append(port_suffix);
            Port::This { port: crate::ids::Id::from_string(name) }
        },
        Port::Hole { group, name } => Port::Hole { group: group.copy(), name: name.copy() },
    }
}

/// A one-bit port named after `port` with a suffix.
fn read_port(port: &Portdef, suffix: &str) -> (r: Portdef)
    ensures
        r@ == (port.name@ + suffix@, 1u64),
{
    let mut name = port.name.clone();
    name.append(suffix);
    Portdef { name, width: 1 }
}

impl ReadWire {
    /// The pass.
    pub fn new() -> (r: Self) {
        ReadWire {}
    }

    /// What the pass does.
    pub fn name(&self) -> (r: String)
        ensures
            r@ == "Duplicate every data wire to implement Futil semantics"@,
    {
        String::from_str("Duplicate every data wire to implement Futil semantics")
    }

    /// Adds a one-bit `<name>_read_in` input port for each input and output
    /// port of the component (`_read_in` for inputs, `_read_out` for
    /// outputs), and for each wire a wire from the source's `_read_out` port
    /// to the destination's `_read_in` port. Returns an error so that the
    /// traversal does not visit the control.
    pub fn start(&mut self, comp: &mut Component, changes: &mut Changes) -> (r: Result<(), ()>)
        ensures
            r is Err,
            *final(comp) == *old(comp),
            portdefs_view(final(changes).input_ports@) == portdefs_view(old(changes).input_ports@)
                + read_ports(old(comp).inputs@, "_read_in"@) + read_ports(
                old(comp).outputs@,
                "_read_out"@,
            ),
            structures_view(final(changes).structure@) == structures_view(
                old(changes).structure@,
            ) + read_wires(old(comp).structure@),
    {
        let ghost ports0 = portdefs_view(changes.input_ports@);
        let ghost structure0 = structures_view(changes.structure@);
        let mut i: usize = 0;
        while i < comp.inputs.len()
            invariant
                i <= comp.inputs@.len(),
                *comp == *old(comp),
                structures_view(changes.structure@) == structure0,
                portdefs_view(changes.input_ports@) == ports0 + read_ports(
                    comp.inputs@.take(i as int),
                    "_read_in"@,
                ),
            decreases comp.inputs@.len() - i,
        {
            let read_for_port = read_port(&comp.inputs[i], "_read_in");
            let ghost before = changes.input_ports@;
            changes.add_input_port(read_for_port);
            assert(comp.inputs@.take(i + 1) =~= comp.inputs@.take(i as int).push(comp.inputs@[i as int]));
            assert(portdefs_view(changes.input_ports@) =~= portdefs_view(before).push(read_for_port@));
            assert(portdefs_view(changes.input_ports@) =~= ports0 + read_ports(
                comp.inputs@.take(i + 1),
                "_read_in"@,
            ));
            assert(structures_view(changes.structure@) =~= structure0);
            i = i + 1;
        }
        assert(comp.inputs@.take(comp.inputs@.len() as int) =~= comp.inputs@);
        let ghost ports1 = portdefs_view(changes.input_ports@);
        let mut i: usize = 0;
        while i < comp.outputs.len()
            invariant
                i <= comp.outputs@.len(),
                *comp == *old(comp),
                structures_view(changes.structure@) == structure0,
                portdefs_view(changes.input_ports@) == ports1 + read_ports(
                    comp.outputs@.take(i as int),
                    "_read_out"@,
                ),
            decreases comp.outputs@.len() - i,
        {
            let read_for_port = read_port(&comp.outputs[i], "_read_out");
            let ghost before = changes.input_ports@;
            changes.add_input_port(read_for_port);
            assert(comp.outputs@.take(i + 1) =~= comp.outputs@.take(i as int).push(comp.outputs@[i as int]));
            assert(portdefs_view(changes.input_ports@) =~= portdefs_view(before).push(read_for_port@));
            assert(portdefs_view(changes.input_ports@) =~= ports1 + read_ports(
                comp.outputs@.take(i + 1),
                "_read_out"@,
            ));
            assert(structures_view(changes.structure@) =~= structure0);
            i = i + 1;
        }
        assert(comp.outputs@.take(comp.outputs@.len() as int) =~= comp.outputs@);
        let ghost ports2 = portdefs_view(changes.input_ports@);
        let mut i: usize = 0;
        while i < comp.structure.len()
            invariant
                i <= comp.structure@.len(),
                *comp == *old(comp),
                portdefs_view(changes.input_ports@) == ports2,
                structures_view(changes.structure@) == structure0 + read_wires(
                    comp.structure@.take(i as int),
                ),
            decreases comp.structure@.len() - i,
        {
            let ghost before = changes.structure@;
            let ghost prefix = comp.structure@.take(i + 1);
            assert(prefix.drop_last() =~= comp.structure@.take(i as int));
            assert(prefix.last() == comp.structure@[i as int]);
            match &comp.structure[i] {
                Structure::Wire { data } => {
                    let read_wire = Wire {
                        src: update_port(&data.src, "read_out"),
                        dest: update_port(&data.dest, "read_in"),
                    };
                    let s = Structure::Wire { data: read_wire };
                    changes.add_structure(s);
                    assert(structures_view(changes.structure@) =~= structures_view(before).push(
                        s@,
                    ));
                },
                _ => {},
            }
            assert(structures_view(changes.structure@) =~= structure0 + read_wires(prefix));
            assert(portdefs_view(changes.input_ports@) =~= ports2);
            i = i + 1;
        }
        assert(comp.structure@.take(comp.structure@.len() as int) =~= comp.structure@);
        Err(())
    }
}

} // verus!
