//! Identifiers of components, cells, groups and ports.

use vstd::prelude::*;

verus! {

/// A name in a Calyx program: a component, a cell, a group or a port.
#[derive(Clone, Debug)]
pub struct Id {
    pub id: String,
}

impl View for Id {
    type V = Seq<char>;

    open spec fn view(&self) -> Seq<char> {
        self.id@
    }
}

impl Id {
    /// Builds an identifier from a string slice.
    pub fn from_str(s: &str) -> (r: Id)
        ensures
            r@ == s@,
    {
        Id { id: s.to_owned() }
    }

    /// Builds an identifier that owns the given string.
    pub fn from_string(s: String) -> (r: Id)
        ensures
            r@ == s@,
    {
        Id { id: s }
    }

    /// A copy of this identifier.
    pub fn copy(&self) -> (r: Id)
        ensures
            r@ == self@,
    {
        Id { id: self.id.clone() }
    }

    /// Whether two identifiers spell the same name.
    pub fn same(&self, other: &Id) -> (r: bool)
        ensures
            r == (self@ == other@),
    {
        self.id == other.id
    }

    /// Whether this identifier spells the given string.
    pub fn is(&self, s: &str) -> (r: bool)
        ensures
            r == (self@ == s@),
    {
        let t: String = s.to_owned();
        self.id == t
    }

    /// The string of this identifier.
    pub fn to_string(&self) -> (r: String)
        ensures
            r@ == self@,
    {
        self.id.clone()
    }
}

/// The names of a sequence of identifiers.
pub open spec fn ids_view(s: Seq<Id>) -> Seq<Seq<char>> {
    s.map_values(|i: Id| i@)
}

/// Copies a slice of identifiers.
pub fn copy_ids(s: &[Id]) -> (r: Vec<Id>)
    ensures
        ids_view(r@) == ids_view(s@),
{
    let mut r: Vec<Id> = Vec::new();
    let mut i: usize = 0;
    while i < s.len()
        invariant
            i <= s@.len(),
            ids_view(r@) == ids_view(s@.take(i as int)),
        decreases s@.len() - i,
    {
        let ghost old_r = r@;
        r.push(s[i].copy());
        assert(s@.take(i + 1) =~= s@.take(i as int).push(s@[i as int]));
        assert(ids_view(r@) =~= ids_view(old_r).push(s@[i as int]@));
        assert(ids_view(s@.take(i + 1)) =~= ids_view(s@.take(i as int)).push(s@[i as int]@));
        i = i + 1;
    }
    assert(s@.take(s@.len() as int) == s@);
    r
}

} // verus!
