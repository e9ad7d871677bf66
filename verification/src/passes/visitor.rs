//! What a pass asks to change in a component, and what it tells the
//! traversal to do next.

use vstd::prelude::*;
use crate::ast::{Control, Portdef, Structure, StructureModel};

verus! {

/// The signatures of a list of port definitions.
pub open spec fn portdefs_view(s: Seq<Portdef>) -> Seq<(Seq<char>, u64)> {
    s.map_values(|p: Portdef| p@)
}

/// What a list of structure items says.
pub open spec fn structures_view(s: Seq<Structure>) -> Seq<StructureModel> {
    s.map_values(|x: Structure| x@)
}

/// Ports and structure that a pass adds to a component.
#[derive(Debug)]
pub struct Changes {
    pub input_ports: Vec<Portdef>,
    pub structure: Vec<Structure>,
}

impl Changes {
    /// No changes.
    pub fn new() -> (r: Changes)
        ensures
            r.input_ports@.len() == 0,
            r.structure@.len() == 0,
    {
        Changes { input_ports: Vec::new(), structure: Vec::new() }
    }

    /// Adds an input port to the component's signature.
    pub fn add_input_port(&mut self, port: Portdef)
        ensures
            final(self).input_ports@ == old(self).input_ports@.push(port),
            final(self).structure@ == old(self).structure@,
    {
        self.input_ports.push(port);
    }

    /// Adds an item to the component's structure.
    pub fn add_structure(&mut self, s: Structure)
        ensures
            final(self).structure@ == old(self).structure@.push(s),
            final(self).input_ports@ == old(self).input_ports@,
    {
        self.structure.push(s);
    }
}

/// A pass with a name and a description.
pub trait Named {
    /// The name of the pass.
    fn name() -> &'static str;

    /// What the pass does.
    fn description() -> &'static str;
}

/// What a pass tells the traversal after visiting a node.
#[derive(Debug)]
pub enum Action {
    /// Go on to the children.
    Continue,
    /// Visit no more nodes.
    Stop,
    /// Replace the node with this control statement.
    Change(Control),
}

impl Action {
    /// The action that ends a traversal with nothing more to do.
    pub fn stop_default() -> (r: Action)
        ensures
            r is Stop,
    {
        Action::Stop
    }
}

} // verus!
