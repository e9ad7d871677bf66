//! The intermediate representation that the analysis passes read: cells,
//! groups of assignments, and components.

use vstd::prelude::*;
use crate::ids::{ids_view, Id};

verus! {

/// What a cell instantiates.
#[derive(Debug)]
pub enum CellType {
    /// A primitive of the library with its parameters.
    Primitive { name: Id, params: Vec<u64> },
    /// A component of the program.
    Component { name: Id },
    /// The component being defined.
    ThisComponent,
    /// A constant.
    Constant { val: u64, width: u64 },
}

/// A named attribute with a number.
#[derive(Debug)]
pub struct Attribute {
    pub name: String,
    pub value: u64,
}

/// The names and numbers of a list of attributes.
pub open spec fn attrs_view(s: Seq<Attribute>) -> Seq<(Seq<char>, u64)> {
    s.map_values(|a: Attribute| (a.name@, a.value))
}

/// The value of the first attribute with the given name.
pub open spec fn attr_lookup(s: Seq<(Seq<char>, u64)>, name: Seq<char>) -> Option<u64>
    decreases s.len(),
{
    if s.len() == 0 {
        None
    } else if s[0].0 == name {
        Some(s[0].1)
    } else {
        attr_lookup(s.drop_first(), name)
    }
}

/// `attr_lookup` finds the first attribute with the name.
pub proof fn lemma_attr_lookup(s: Seq<(Seq<char>, u64)>, name: Seq<char>, i: int)
    requires
        0 <= i <= s.len(),
        forall|j: int| 0 <= j < i ==> #[trigger] s[j].0 != name,
    ensures
        i < s.len() && s[i].0 == name ==> attr_lookup(s, name) == Some(s[i].1),
        i == s.len() ==> attr_lookup(s, name) is None,
    decreases i,
{
    if i > 0 {
        let t = s.drop_first();
        assert forall|j: int| 0 <= j < i - 1 implies #[trigger] t[j].0 != name by {
            assert(t[j] == s[j + 1]);
        }
        lemma_attr_lookup(t, name, i - 1);
    }
}

/// The value of the first attribute with the given name, if any.
pub fn get_attribute(attrs: &Vec<Attribute>, name: &str) -> (r: Option<u64>)
    ensures
        r == attr_lookup(attrs_view(attrs@), name@),
{
    let mut i: usize = 0;
    let n: String = name.to_owned();
    while i < attrs.len()
        invariant
            i <= attrs@.len(),
            n@ == name@,
            forall|j: int| 0 <= j < i ==> #[trigger] attrs_view(attrs@)[j].0 != name@,
        decreases attrs@.len() - i,
    {
        if attrs[i].name == n {
            proof {
                lemma_attr_lookup(attrs_view(attrs@), name@, i as int);
            }
            return Some(attrs[i].value);
        }
        i = i + 1;
    }
    proof {
        lemma_attr_lookup(attrs_view(attrs@), name@, i as int);
    }
    None
}

/// A cell of a component: its name, what it instantiates, the names of its
/// ports, and its attributes.
#[derive(Debug)]
pub struct Cell {
    pub name: Id,
    pub prototype: CellType,
    pub ports: Vec<Id>,
    pub attributes: Vec<Attribute>,
}

/// The name of the primitive or component a cell instantiates; none for the
/// component itself and for constants.
pub open spec fn cell_type_name(c: Cell) -> Option<Seq<char>> {
    match c.prototype {
        CellType::Primitive { name, .. } => Some(name@),
        CellType::Component { name } => Some(name@),
        _ => None,
    }
}

impl Cell {
    /// The name of the primitive or component the cell instantiates.
    pub fn prototype_name(&self) -> (r: Option<Id>)
        ensures
            match r {
                Some(t) => cell_type_name(*self) == Some(t@),
                None => cell_type_name(*self) is None,
            },
    {
        match &self.prototype {
            CellType::Primitive { name, .. } => Some(name.copy()),
            CellType::Component { name } => Some(name.copy()),
            _ => None,
        }
    }

    /// The value of the cell's attribute with the given name, if any.
    pub fn get_attribute(&self, name: &str) -> (r: Option<u64>)
        ensures
            r == attr_lookup(attrs_view(self.attributes@), name@),
    {
        get_attribute(&self.attributes, name)
    }

    /// Whether the cell has a port with the given name.
    pub fn has_port(&self, port: &str) -> (r: bool)
        ensures
            r == ids_view(self.ports@).contains(port@),
    {
        let mut i: usize = 0;
        while i < self.ports.len()
            invariant
                i <= self.ports@.len(),
                forall|j: int| 0 <= j < i ==> #[trigger] self.ports@[j]@ != port@,
            decreases self.ports@.len() - i,
        {
            if self.ports[i].is(port) {
                assert(ids_view(self.ports@)[i as int] == port@);
                return true;
            }
            i = i + 1;
        }
        assert(!ids_view(self.ports@).contains(port@)) by {
            if ids_view(self.ports@).contains(port@) {
                let k = choose|k: int|
                    0 <= k < ids_view(self.ports@).len() && ids_view(self.ports@)[k] == port@;
                assert(self.ports@[k]@ == port@);
            }
        }
        false
    }
}

/// What owns a port: a cell or a group.
#[derive(Debug)]
pub enum PortParent {
    Cell(Id),
    Group(Id),
}

/// A port of a cell, or a hole of a group.
#[derive(Debug)]
pub struct PortRef {
    pub name: Id,
    pub parent: PortParent,
}

/// What a port names: whether its owner is a cell, the owner's name, and
/// the port's name.
pub open spec fn port_key(p: PortRef) -> (bool, Seq<char>, Seq<char>) {
    match p.parent {
        PortParent::Cell(c) => (true, c@, p.name@),
        PortParent::Group(g) => (false, g@, p.name@),
    }
}

impl PortRef {
    /// A copy of this port.
    pub fn copy(&self) -> (r: PortRef)
        ensures
            port_key(r) == port_key(*self),
    {
        PortRef {
            name: self.name.copy(),
            parent: match &self.parent {
                PortParent::Cell(c) => PortParent::Cell(c.copy()),
                PortParent::Group(g) => PortParent::Group(g.copy()),
            },
        }
    }

    /// Whether the port belongs to the named cell.
    pub fn of_cell(&self, cell: &Id) -> (r: bool)
        ensures
            r == (port_key(*self).0 && port_key(*self).1 == cell@),
    {
        match &self.parent {
            PortParent::Cell(c) => c.same(cell),
            PortParent::Group(_) => false,
        }
    }

    /// Whether the port is the given port of the given cell.
    pub fn is_cell_port(&self, cell: &Id, port: &str) -> (r: bool)
        ensures
            r == (port_key(*self) == (true, cell@, port@)),
    {
        match &self.parent {
            PortParent::Cell(c) => c.same(cell) && self.name.is(port),
            PortParent::Group(_) => false,
        }
    }

    /// Whether the port is the given hole of the given group.
    pub fn is_hole(&self, group: &Id, hole: &str) -> (r: bool)
        ensures
            r == (port_key(*self) == (false, group@, hole@)),
    {
        match &self.parent {
            PortParent::Cell(_) => false,
            PortParent::Group(g) => g.same(group) && self.name.is(hole),
        }
    }
}

/// An assignment of the value of a port to another, under a guard that
/// reads the listed ports.
#[derive(Debug)]
pub struct Assignment {
    pub dst: PortRef,
    pub src: PortRef,
    pub guard: Vec<PortRef>,
}

/// A group of assignments with attributes.
#[derive(Debug)]
pub struct Group {
    pub name: Id,
    pub assignments: Vec<Assignment>,
    pub attributes: Vec<Attribute>,
}

/// A component: its cells, its groups and its continuous assignments.
#[derive(Debug)]
pub struct Component {
    pub name: Id,
    pub cells: Vec<Cell>,
    pub groups: Vec<Group>,
    pub continuous_assignments: Vec<Assignment>,
}

/// The attributes with the first one of the given name set to `value`, or
/// with a new one at the end if there is none.
pub open spec fn with_attr(s: Seq<(Seq<char>, u64)>, name: Seq<char>, value: u64) -> Seq<
    (Seq<char>, u64),
> {
    match attr_index(s, name) {
        Some(k) => s.update(k, (name, value)),
        None => s.push((name, value)),
    }
}

/// Sets the attribute with the given name to `value`: the first attribute
/// of that name changes, or a new one is added at the end.
pub fn set_attribute(attrs: &mut Vec<Attribute>, name: &str, value: u64)
    ensures
        attr_lookup(attrs_view(final(attrs)@), name@) == Some(value),
        attrs_view(final(attrs)@) == with_attr(attrs_view(old(attrs)@), name@, value),
{
    let mut i: usize = 0;
    let n: String = name.to_owned();
    while i < attrs.len()
        invariant
            i <= attrs@.len(),
            n@ == name@,
            attrs@ == old(attrs)@,
            forall|j: int| 0 <= j < i ==> #[trigger] attrs_view(attrs@)[j].0 != name@,
        decreases attrs@.len() - i,
    {
        if attrs[i].name == n {
            proof {
                lemma_attr_index(attrs_view(attrs@), name@, i as int);
            }
            attrs.set(i, Attribute { name: n, value });
            proof {
                let s2 = attrs_view(attrs@);
                assert(s2 =~= attrs_view(old(attrs)@).update(i as int, (name@, value)));
                assert forall|j: int| 0 <= j < i implies #[trigger] s2[j].0 != name@ by {
                    assert(s2[j] == attrs_view(old(attrs)@)[j]);
                }
                lemma_attr_lookup(s2, name@, i as int);
            }
            return;
        }
        i = i + 1;
    }
    proof {
        lemma_attr_index(attrs_view(attrs@), name@, i as int);
    }
    attrs.push(Attribute { name: n, value });
    proof {
        let s2 = attrs_view(attrs@);
        assert(s2 =~= attrs_view(old(attrs)@).push((name@, value)));
        assert forall|j: int| 0 <= j < i implies #[trigger] s2[j].0 != name@ by {
            assert(s2[j] == attrs_view(old(attrs)@)[j]);
        }
        lemma_attr_lookup(s2, name@, i as int);
    }
}

/// The index of the first attribute with the given name.
pub open spec fn attr_index(s: Seq<(Seq<char>, u64)>, name: Seq<char>) -> Option<int>
    decreases s.len(),
{
    if s.len() == 0 {
        None
    } else if s[0].0 == name {
        Some(0)
    } else {
        match attr_index(s.drop_first(), name) {
            Some(i) => Some(i + 1),
            None => None,
        }
    }
}

/// `attr_index` finds the first attribute with the name.
pub proof fn lemma_attr_index(s: Seq<(Seq<char>, u64)>, name: Seq<char>, i: int)
    requires
        0 <= i <= s.len(),
        forall|j: int| 0 <= j < i ==> #[trigger] s[j].0 != name,
    ensures
        i < s.len() && s[i].0 == name ==> attr_index(s, name) == Some(i),
        i == s.len() ==> attr_index(s, name) is None,
    decreases i,
{
    if i > 0 {
        let t = s.drop_first();
        assert forall|j: int| 0 <= j < i - 1 implies #[trigger] t[j].0 != name by {
            assert(t[j] == s[j + 1]);
        }
        lemma_attr_index(t, name, i - 1);
    }
}

} // verus!
