//! The abstract syntax of Calyx programs: ports, wires, guards and control.

use vstd::prelude::*;
use crate::ids::Id;

verus! {

/// A port: of a cell of the component, of the component itself, or a hole
/// of a group (its `go` or `done`).
#[derive(Clone, Debug)]
pub enum Port {
    Comp { component: Id, port: Id },
    This { port: Id },
    Hole { group: Id, name: Id },
}

/// What a port names.
pub enum PortModel {
    Comp(Seq<char>, Seq<char>),
    This(Seq<char>),
    Hole(Seq<char>, Seq<char>),
}

impl View for Port {
    type V = PortModel;

    open spec fn view(&self) -> PortModel {
        match self {
            Port::Comp { component, port } => PortModel::Comp(component@, port@),
            Port::This { port } => PortModel::This(port@),
            Port::Hole { group, name } => PortModel::Hole(group@, name@),
        }
    }
}

impl Port {
    /// A copy of this port.
    pub fn copy(&self) -> (r: Port)
        ensures
            r@ == self@,
    {
        match self {
            Port::Comp { component, port } => Port::Comp {
                component: component.copy(),
                port: port.copy(),
            },
            Port::This { port } => Port::This { port: port.copy() },
            Port::Hole { group, name } => Port::Hole { group: group.copy(), name: name.copy() },
        }
    }
}

/// A port in a component's signature.
#[derive(Clone, Debug)]
pub struct Portdef {
    pub name: String,
    pub width: u64,
}

impl View for Portdef {
    type V = (Seq<char>, u64);

    open spec fn view(&self) -> (Seq<char>, u64) {
        (self.name@, self.width)
    }
}

/// A wire from one port to another.
#[derive(Clone, Debug)]
pub struct Wire {
    pub src: Port,
    pub dest: Port,
}

/// An instance of a subcomponent.
#[derive(Clone, Debug)]
pub struct Decl {
    pub name: Id,
    pub component: Id,
}

/// An instance of a primitive with its parameters.
#[derive(Clone, Debug)]
pub struct Compinst {
    pub name: Id,
    pub params: Vec<u64>,
}

/// A named instance of a primitive.
#[derive(Clone, Debug)]
pub struct Std {
    pub name: Id,
    pub instance: Compinst,
}

/// An item of a component's structure.
#[derive(Clone, Debug)]
pub enum Structure {
    Decl { data: Decl },
    Std { data: Std },
    Wire { data: Wire },
}

/// What an item of a component's structure says.
pub enum StructureModel {
    Decl(Seq<char>, Seq<char>),
    Std(Seq<char>, Seq<char>, Seq<u64>),
    Wire(PortModel, PortModel),
}

impl View for Structure {
    type V = StructureModel;

    open spec fn view(&self) -> StructureModel {
        match self {
            Structure::Decl { data } => StructureModel::Decl(data.name@, data.component@),
            Structure::Std { data } => StructureModel::Std(
                data.name@,
                data.instance.name@,
                data.instance.params@,
            ),
            Structure::Wire { data } => StructureModel::Wire(data.src@, data.dest@),
        }
    }
}

/// Enables a group.
#[derive(Clone, Debug)]
pub struct Enable {
    pub comp: Id,
}

/// Runs one of two branches, after computing a condition with a group.
#[derive(Debug)]
pub struct If {
    pub port: Port,
    pub cond: Id,
    pub tbranch: Box<Control>,
    pub fbranch: Box<Control>,
}

/// Runs a body while a condition, computed with a group, holds.
#[derive(Debug)]
pub struct While {
    pub port: Port,
    pub cond: Id,
    pub body: Box<Control>,
}

/// Runs statements one after another.
#[derive(Debug)]
pub struct Sequence {
    pub stmts: Vec<Control>,
}

/// Runs statements side by side.
#[derive(Debug)]
pub struct Par {
    pub stmts: Vec<Control>,
}

/// A statement that does nothing.
#[derive(Clone, Debug)]
pub struct Empty {}

/// A control statement.
#[derive(Debug)]
pub enum Control {
    Sequence { data: Sequence },
    Par { data: Par },
    If { data: If },
    While { data: While },
    Enable { data: Enable },
    Empty { data: Empty },
}

impl Control {
    /// A statement that enables the named group.
    pub fn enable(comp: Id) -> (r: Control)
        ensures
            r matches Control::Enable { data } && data.comp@ == comp@,
    {
        Control::Enable { data: Enable { comp } }
    }
}

/// A component of a program: its signature, structure and control.
#[derive(Debug)]
pub struct Component {
    pub name: Id,
    pub inputs: Vec<Portdef>,
    pub outputs: Vec<Portdef>,
    pub structure: Vec<Structure>,
    pub control: Control,
}

/// A value that a guard reads: a port or a constant.
#[derive(Clone, Debug)]
pub enum Atom {
    Port(Port),
    Num { val: u64, width: u64 },
}

/// What an atom denotes.
pub enum AtomModel {
    Port(PortModel),
    Num(u64, u64),
}

impl View for Atom {
    type V = AtomModel;

    open spec fn view(&self) -> AtomModel {
        match self {
            Atom::Port(p) => AtomModel::Port(p@),
            Atom::Num { val, width } => AtomModel::Num(*val, *width),
        }
    }
}

/// A guard of an assignment.
#[derive(Debug)]
pub enum GuardExpr {
    And(Box<GuardExpr>, Box<GuardExpr>),
    Or(Box<GuardExpr>, Box<GuardExpr>),
    Eq(Box<GuardExpr>, Box<GuardExpr>),
    Not(Box<GuardExpr>),
    Atom(Atom),
}

/// What a guard says.
pub enum GuardModel {
    And(Box<GuardModel>, Box<GuardModel>),
    Or(Box<GuardModel>, Box<GuardModel>),
    Eq(Box<GuardModel>, Box<GuardModel>),
    Not(Box<GuardModel>),
    Atom(AtomModel),
}

/// What a guard says.
pub open spec fn guard_view(g: GuardExpr) -> GuardModel
    decreases g,
{
    match g {
        GuardExpr::And(a, b) => GuardModel::And(Box::new(guard_view(*a)), Box::new(guard_view(*b))),
        GuardExpr::Or(a, b) => GuardModel::Or(Box::new(guard_view(*a)), Box::new(guard_view(*b))),
        GuardExpr::Eq(a, b) => GuardModel::Eq(Box::new(guard_view(*a)), Box::new(guard_view(*b))),
        GuardExpr::Not(a) => GuardModel::Not(Box::new(guard_view(*a))),
        GuardExpr::Atom(a) => GuardModel::Atom(a@),
    }
}

impl View for GuardExpr {
    type V = GuardModel;

    open spec fn view(&self) -> GuardModel {
        guard_view(*self)
    }
}

impl GuardExpr {
    /// Both guards hold.
    pub fn and(self, other: GuardExpr) -> (r: GuardExpr)
        ensures
            r@ == GuardModel::And(Box::new(self@), Box::new(other@)),
    {
        GuardExpr::And(Box::new(self), Box::new(other))
    }

    /// One of the guards holds.
    pub fn or(self, other: GuardExpr) -> (r: GuardExpr)
        ensures
            r@ == GuardModel::Or(Box::new(self@), Box::new(other@)),
    {
        GuardExpr::Or(Box::new(self), Box::new(other))
    }

    /// The two sides are equal.
    pub fn eq(self, other: GuardExpr) -> (r: GuardExpr)
        ensures
            r@ == GuardModel::Eq(Box::new(self@), Box::new(other@)),
    {
        GuardExpr::Eq(Box::new(self), Box::new(other))
    }

    /// The guard does not hold.
    pub fn not(self) -> (r: GuardExpr)
        ensures
            r@ == GuardModel::Not(Box::new(self@)),
    {
        GuardExpr::Not(Box::new(self))
    }
}

} // verus!
