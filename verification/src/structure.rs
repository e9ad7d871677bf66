//! The structure of a component as a graph: its cells, groups and the
//! component itself as nodes, and its guarded assignments as edges.

use vstd::prelude::*;
use crate::assoc::{assoc, lemma_assoc_absent, lemma_assoc_last, lemma_assoc_push, lemma_assoc_update};
use crate::ast::{Atom, AtomModel, Control, GuardExpr, GuardModel, Port, PortModel};
use crate::errors::Error;
use crate::ids::{ids_view, Id};

verus! {

/// The character of a decimal digit.
pub open spec fn digit_char(d: nat) -> char {
    (48 + d) as char
}

/// The decimal numeral of a number.
pub open spec fn decimal(n: nat) -> Seq<char>
    decreases n,
{
    if n < 10 {
        seq![digit_char(n)]
    } else {
        decimal(n / 10).push(digit_char(n % 10))
    }
}

/// The decimal numeral of `n`, as std's `ToString` writes an unsigned
/// integer: the digits from the most significant, no sign, no leading zero.
/// The contract claims that `u64::to_string` writes exactly that.
#[verifier::external_body]
fn decimal_string(n: u64) -> (r: String)
    ensures
        r@ == decimal(n as nat),
{
    n.to_string()
}

/// A decimal numeral has a digit.
pub proof fn lemma_decimal_len(n: nat)
    ensures
        decimal(n).len() >= 1,
        n >= 10 ==> decimal(n).len() >= 2,
    decreases n,
{
    if n >= 10 {
        lemma_decimal_len(n / 10);
    }
}

/// Distinct numbers have distinct decimal numerals.
pub proof fn lemma_decimal_injective(a: nat, b: nat)
    requires
        decimal(a) == decimal(b),
    ensures
        a == b,
    decreases a,
{
    lemma_decimal_len(a);
    lemma_decimal_len(b);
    if a < 10 && b < 10 {
        assert(decimal(a)[0] == digit_char(a));
        assert(decimal(b)[0] == digit_char(b));
    } else if a >= 10 && b >= 10 {
        assert(decimal(a).last() == digit_char(a % 10));
        assert(decimal(b).last() == digit_char(b % 10));
        assert(decimal(a).drop_last() =~= decimal(a / 10));
        assert(decimal(b).drop_last() =~= decimal(b / 10));
        lemma_decimal_injective(a / 10, b / 10);
    }
}

/// A name generator gives a new name each time for a prefix, until its
/// counter for that prefix reaches the largest `u64`.
pub proof fn law_gen_name_fresh(m: Map<Seq<char>, u64>, prefix: Seq<char>)
    requires
        name_count(m, prefix) < u64::MAX,
    ensures
        next_name(after_name(m, prefix), prefix) != next_name(m, prefix),
{
    let n = name_count(m, prefix);
    let m1 = after_name(m, prefix);
    assert(name_count(m1, prefix) == n + 1);
    if next_name(m1, prefix) == next_name(m, prefix) {
        assert((prefix + decimal((n + 1) as nat)).skip(prefix.len() as int) =~= decimal(
            (n + 1) as nat,
        ));
        assert((prefix + decimal(n as nat)).skip(prefix.len() as int) =~= decimal(n as nat));
        lemma_decimal_injective((n + 1) as nat, n as nat);
    }
}

/// The counter of a prefix in a name generator's counters.
pub open spec fn name_count(m: Map<Seq<char>, u64>, prefix: Seq<char>) -> u64 {
    if m.dom().contains(prefix) {
        m[prefix]
    } else {
        0
    }
}

/// The next name that a generator with these counters gives for a prefix.
pub open spec fn next_name(m: Map<Seq<char>, u64>, prefix: Seq<char>) -> Seq<char> {
    prefix + decimal(name_count(m, prefix) as nat)
}

/// The counters after a name was given for a prefix.
pub open spec fn after_name(m: Map<Seq<char>, u64>, prefix: Seq<char>) -> Map<Seq<char>, u64> {
    let n = name_count(m, prefix);
    m.insert(prefix, if n < u64::MAX { (n + 1) as u64 } else { n })
}

/// Gives names made of a prefix and a counter of that prefix.
#[derive(Debug)]
pub struct NameGenerator {
    counts: Vec<(String, u64)>,
}

/// The key-value pairs of the counters.
pub open spec fn count_pairs(s: Seq<(String, u64)>) -> Seq<(Seq<char>, u64)> {
    s.map_values(|e: (String, u64)| (e.0@, e.1))
}

impl View for NameGenerator {
    type V = Map<Seq<char>, u64>;

    closed spec fn view(&self) -> Map<Seq<char>, u64> {
        assoc(count_pairs(self.counts@))
    }
}

impl NameGenerator {
    /// A generator whose counters are all zero.
    pub fn new() -> (r: NameGenerator)
        ensures
            r@ == Map::<Seq<char>, u64>::empty(),
    {
        let r = NameGenerator { counts: Vec::new() };
        assert(count_pairs(r.counts@) =~= Seq::empty());
        r
    }

    /// The index of the last counter of a prefix, if any.
    fn find(&self, p: &String) -> (r: Option<usize>)
        ensures
            match r {
                Some(k) => {
                    &&& k < self.counts@.len()
                    &&& count_pairs(self.counts@)[k as int].0 == p@
                    &&& forall|j: int|
                        k < j < self.counts@.len() ==> #[trigger] count_pairs(self.counts@)[j].0
                            != p@
                },
                None => forall|j: int|
                    0 <= j < self.counts@.len() ==> #[trigger] count_pairs(self.counts@)[j].0
                        != p@,
            },
    {
        let mut i: usize = self.counts.len();
        while i > 0
            invariant
                i <= self.counts@.len(),
                forall|j: int|
                    i <= j < self.counts@.len() ==> #[trigger] count_pairs(self.counts@)[j].0
                        != p@,
            decreases i,
        {
            i = i - 1;
            if self.counts[i].0 == *p {
                return Some(i);
            }
        }
        None
    }

    /// The prefix followed by the decimal numeral of its counter, which then
    /// goes up by one (it stays at the largest `u64`).
    pub fn gen_name(&mut self, prefix: &str) -> (r: String)
        ensures
            r@ == next_name(old(self)@, prefix@),
            final(self)@ == after_name(old(self)@, prefix@),
    {
        let ghost s = count_pairs(self.counts@);
        let p: String = prefix.to_owned();
        let found = self.find(&p);
        match found {
            Some(k) => {
                let n = self.counts[k].1;
                proof {
                    assert(forall|j: int| k < j < s.len() ==> #[trigger] s[j].0 != s[k as int].0);
                    lemma_assoc_last(s, k as int);
                }
                let next = if n < u64::MAX {
                    n + 1
                } else {
                    n
                };
                self.counts.set(k, (p.clone(), next));
                proof {
                    assert(count_pairs(self.counts@) =~= s.update(k as int, (s[k as int].0, next)));
                    lemma_assoc_update(s, k as int, next);
                }
                let mut name = p;
                let digits = decimal_string(n);
                name.append(digits.as_str());
                name
            },
            None => {
                proof {
                    lemma_assoc_absent(s, prefix@);
                }
                self.counts.push((p.clone(), 1));
                proof {
                    assert(count_pairs(self.counts@) =~= s.push((prefix@, 1u64)));
                    lemma_assoc_push(s, (prefix@, 1u64));
                }
                let mut name = p;
                let digits = decimal_string(0);
                name.append(digits.as_str());
                name
            },
        }
    }
}

/// The signature of a primitive: its name and its ports.
#[derive(Debug)]
pub struct PrimSig {
    pub name: Id,
    pub ports: Vec<Id>,
}

/// The library of primitives that a program may instantiate.
#[derive(Debug)]
pub struct Context {
    pub primitives: Vec<PrimSig>,
}

/// The first primitive of the library with the given name.
pub open spec fn find_prim(s: Seq<PrimSig>, name: Seq<char>) -> Option<int>
    decreases s.len(),
{
    if s.len() == 0 {
        None
    } else if s[0].name@ == name {
        Some(0)
    } else {
        match find_prim(s.drop_first(), name) {
            Some(i) => Some(i + 1),
            None => None,
        }
    }
}

/// `find_prim` gives the first index with the name.
pub proof fn lemma_find_prim(s: Seq<PrimSig>, name: Seq<char>, i: int)
    requires
        0 <= i <= s.len(),
        forall|j: int| 0 <= j < i ==> #[trigger] s[j].name@ != name,
    ensures
        i < s.len() && s[i].name@ == name ==> find_prim(s, name) == Some(i),
        i == s.len() ==> find_prim(s, name) is None,
    decreases i,
{
    if i > 0 {
        let t = s.drop_first();
        assert forall|j: int| 0 <= j < i - 1 implies #[trigger] t[j].name@ != name by {
            assert(t[j] == s[j + 1]);
        }
        lemma_find_prim(t, name, i - 1);
    }
}

impl Context {
    /// The index of the first primitive with the given name.
    pub fn find_primitive(&self, name: &str) -> (r: Option<usize>)
        ensures
            match r {
                Some(i) => i < self.primitives@.len() && find_prim(self.primitives@, name@) == Some(
                    i as int,
                ),
                None => find_prim(self.primitives@, name@) is None,
            },
    {
        let mut i: usize = 0;
        while i < self.primitives.len()
            invariant
                i <= self.primitives@.len(),
                forall|j: int| 0 <= j < i ==> #[trigger] self.primitives@[j].name@ != name@,
            decreases self.primitives@.len() - i,
        {
            if self.primitives[i].name.is(name) {
                proof {
                    lemma_find_prim(self.primitives@, name@, i as int);
                }
                return Some(i);
            }
            i = i + 1;
        }
        proof {
            lemma_find_prim(self.primitives@, name@, i as int);
        }
        None
    }
}

/// What a node of the structure graph is.
#[derive(Debug)]
pub enum NodeData {
    /// An instance of a primitive with its parameters.
    Cell { prim: Id, params: Vec<u64> },
    /// A group of assignments.
    Group,
    /// The component itself.
    This,
}

/// A node of the structure graph: a name, what it is, and its ports.
#[derive(Debug)]
pub struct Node {
    pub name: Id,
    pub data: NodeData,
    pub ports: Vec<Id>,
}

/// What a node is.
pub enum NodeKind {
    Cell(Seq<char>, Seq<u64>),
    Group,
    This,
}

/// What a node of the structure graph says.
pub struct NodeModel {
    pub name: Seq<char>,
    pub kind: NodeKind,
    pub ports: Seq<Seq<char>>,
}

impl View for Node {
    type V = NodeModel;

    open spec fn view(&self) -> NodeModel {
        NodeModel {
            name: self.name@,
            kind: match self.data {
                NodeData::Cell { prim, params } => NodeKind::Cell(prim@, params@),
                NodeData::Group => NodeKind::Group,
                NodeData::This => NodeKind::This,
            },
            ports: ids_view(self.ports@),
        }
    }
}

/// An assignment of a value to a port, in a group or not, under a guard
/// or not.
#[derive(Debug)]
pub struct Edge {
    pub src: Atom,
    pub dest: Port,
    pub group: Option<Id>,
    pub guard: Option<GuardExpr>,
}

/// What an assignment says.
pub struct EdgeModel {
    pub src: AtomModel,
    pub dest: PortModel,
    pub group: Option<Seq<char>>,
    pub guard: Option<GuardModel>,
}

/// The name of a group, if any.
pub open spec fn opt_id_view(g: Option<Id>) -> Option<Seq<char>> {
    match g {
        Some(i) => Some(i@),
        None => None,
    }
}

/// What a guard says, if any.
pub open spec fn opt_guard_view(g: Option<GuardExpr>) -> Option<GuardModel> {
    match g {
        Some(x) => Some(x@),
        None => None,
    }
}

impl View for Edge {
    type V = EdgeModel;

    open spec fn view(&self) -> EdgeModel {
        EdgeModel {
            src: self.src@,
            dest: self.dest@,
            group: opt_id_view(self.group),
            guard: opt_guard_view(self.guard),
        }
    }
}

/// What the nodes say.
pub open spec fn nodes_view(s: Seq<Node>) -> Seq<NodeModel> {
    s.map_values(|n: Node| n@)
}

/// What the edges say.
pub open spec fn edges_view(s: Seq<Edge>) -> Seq<EdgeModel> {
    s.map_values(|e: Edge| e@)
}

/// The index of the first node with the given name.
pub open spec fn find_node(s: Seq<NodeModel>, name: Seq<char>) -> Option<int>
    decreases s.len(),
{
    if s.len() == 0 {
        None
    } else if s[0].name == name {
        Some(0)
    } else {
        match find_node(s.drop_first(), name) {
            Some(i) => Some(i + 1),
            None => None,
        }
    }
}

/// `find_node` gives the first index with the name.
pub proof fn lemma_find_node(s: Seq<NodeModel>, name: Seq<char>, i: int)
    requires
        0 <= i <= s.len(),
        forall|j: int| 0 <= j < i ==> #[trigger] s[j].name != name,
    ensures
        i < s.len() && s[i].name == name ==> find_node(s, name) == Some(i),
        i == s.len() ==> find_node(s, name) is None,
    decreases i,
{
    if i > 0 {
        let t = s.drop_first();
        assert forall|j: int| 0 <= j < i - 1 implies #[trigger] t[j].name != name by {
            assert(t[j] == s[j + 1]);
        }
        lemma_find_node(t, name, i - 1);
    }
}

/// What `find_node` gives is a node with the name, and no earlier node has it.
pub proof fn lemma_find_node_found(s: Seq<NodeModel>, name: Seq<char>)
    ensures
        match find_node(s, name) {
            Some(i) => 0 <= i < s.len() && s[i].name == name && forall|j: int|
                0 <= j < i ==> #[trigger] s[j].name != name,
            None => forall|j: int| 0 <= j < s.len() ==> #[trigger] s[j].name != name,
        },
    decreases s.len(),
{
    if s.len() > 0 {
        let t = s.drop_first();
        lemma_find_node_found(t, name);
        if s[0].name != name {
            match find_node(t, name) {
                Some(i) => {
                    assert forall|j: int| 0 <= j < i + 1 implies #[trigger] s[j].name != name by {
                        if j > 0 {
                            assert(s[j] == t[j - 1]);
                        }
                    }
                },
                None => {
                    assert forall|j: int| 0 <= j < s.len() implies #[trigger] s[j].name != name by {
                        if j > 0 {
                            assert(s[j] == t[j - 1]);
                        }
                    }
                },
            }
        }
    }
}

/// Appending a node leaves the names found before as they were.
pub proof fn lemma_find_node_push(s: Seq<NodeModel>, n: NodeModel, name: Seq<char>)
    ensures
        find_node(s.push(n), name) == match find_node(s, name) {
            Some(i) => Some(i),
            None => if n.name == name {
                Some(s.len() as int)
            } else {
                None
            },
        },
{
    lemma_find_node_found(s, name);
    let t = s.push(n);
    match find_node(s, name) {
        Some(i) => {
            assert forall|j: int| 0 <= j < i implies #[trigger] t[j].name != name by {
                assert(t[j] == s[j]);
            }
            assert(t[i] == s[i]);
            lemma_find_node(t, name, i);
        },
        None => {
            assert forall|j: int| 0 <= j < s.len() implies #[trigger] t[j].name != name by {
                assert(t[j] == s[j]);
            }
            lemma_find_node(t, name, s.len() as int);
            if n.name != name {
                lemma_find_node(t, name, t.len() as int);
            }
        },
    }
}

/// The port of a node with the given name: a hole of a group, a port of
/// the component, or a port of a cell.
pub open spec fn port_of(n: NodeModel, port: Seq<char>) -> PortModel {
    match n.kind {
        NodeKind::Group => PortModel::Hole(n.name, port),
        NodeKind::This => PortModel::This(port),
        NodeKind::Cell(_, _) => PortModel::Comp(n.name, port),
    }
}

/// The ports of a group.
pub open spec fn group_ports() -> Seq<Seq<char>> {
    seq!["go"@, "done"@]
}

/// What a structure graph says: its nodes, its edges, and the counters of
/// its name generator.
pub struct GraphModel {
    pub nodes: Seq<NodeModel>,
    pub edges: Seq<EdgeModel>,
    pub names: Map<Seq<char>, u64>,
}

/// The cells, groups and assignments of a component.
#[derive(Debug)]
pub struct StructureGraph {
    pub nodes: Vec<Node>,
    pub edges: Vec<Edge>,
    pub namegen: NameGenerator,
}

impl View for StructureGraph {
    type V = GraphModel;

    open spec fn view(&self) -> GraphModel {
        GraphModel { nodes: nodes_view(self.nodes@), edges: edges_view(self.edges@), names: self.namegen@ }
    }
}

fn copy_port_names(s: &Vec<Id>) -> (r: Vec<Id>)
    ensures
        ids_view(r@) == ids_view(s@),
{
    crate::ids::copy_ids(s.as_slice())
}

impl StructureGraph {
    /// A graph with the component node `this`, whose ports are the given
    /// ones, and nothing else.
    pub fn new(this_ports: Vec<Id>) -> (r: StructureGraph)
        ensures
            r@.nodes == seq![
                NodeModel { name: "this"@, kind: NodeKind::This, ports: ids_view(this_ports@) },
            ],
            r@.edges.len() == 0,
            r@.names == Map::<Seq<char>, u64>::empty(),
    {
        let mut nodes: Vec<Node> = Vec::new();
        nodes.push(Node { name: Id::from_str("this"), data: NodeData::This, ports: this_ports });
        let r = StructureGraph { nodes, edges: Vec::new(), namegen: NameGenerator::new() };
        assert(r@.nodes =~= seq![
            NodeModel { name: "this"@, kind: NodeKind::This, ports: ids_view(this_ports@) },
        ]);
        assert(r@.edges =~= Seq::empty());
        r
    }

    /// The index of the first node with the given name, if any.
    pub fn get_node_by_name(&self, name: &Id) -> (r: Option<usize>)
        ensures
            match r {
                Some(i) => {
                    &&& find_node(self@.nodes, name@) == Some(i as int)
                    &&& i < self@.nodes.len()
                    &&& self@.nodes[i as int].name == name@
                },
                None => find_node(self@.nodes, name@) is None,
            },
    {
        let mut i: usize = 0;
        while i < self.nodes.len()
            invariant
                i <= self.nodes@.len(),
                forall|j: int| 0 <= j < i ==> #[trigger] nodes_view(self.nodes@)[j].name != name@,
            decreases self.nodes@.len() - i,
        {
            if self.nodes[i].name.same(name) {
                proof {
                    lemma_find_node(nodes_view(self.nodes@), name@, i as int);
                }
                return Some(i);
            }
            i = i + 1;
        }
        proof {
            lemma_find_node(nodes_view(self.nodes@), name@, i as int);
        }
        None
    }

    /// The given port of a node, if the node has it.
    pub fn port_ref(&self, node: usize, port: &str) -> (r: Result<Port, Error>)
        requires
            node < self@.nodes.len(),
        ensures
            r is Ok <==> self@.nodes[node as int].ports.contains(port@),
            r is Ok ==> r->Ok_0@ == port_of(self@.nodes[node as int], port@),
            r is Err ==> r->Err_0 is UndefinedPort,
    {
        let n = &self.nodes[node];
        let ghost nm = nodes_view(self.nodes@)[node as int];
        assert(nm == n@);
        let mut i: usize = 0;
        while i < n.ports.len()
            invariant
                i <= n.ports@.len(),
                nm == n@,
                node < self@.nodes.len(),
                nm == self@.nodes[node as int],
                forall|j: int| 0 <= j < i ==> #[trigger] n.ports@[j]@ != port@,
            decreases n.ports@.len() - i,
        {
            if n.ports[i].is(port) {
                assert(nm.ports[i as int] == port@);
                assert(nm.ports.contains(port@));
                let p = Id::from_str(port);
                let r = match &n.data {
                    NodeData::Group => Port::Hole { group: n.name.copy(), name: p },
                    NodeData::This => Port::This { port: p },
                    NodeData::Cell { .. } => Port::Comp { component: n.name.copy(), port: p },
                };
                return Ok(r);
            }
            i = i + 1;
        }
        assert(!nm.ports.contains(port@)) by {
            if nm.ports.contains(port@) {
                let k = choose|k: int| 0 <= k < nm.ports.len() && nm.ports[k] == port@;
                assert(n.ports@[k]@ == port@);
            }
        }
        Err(Error::UndefinedPort(n.name.copy(), Id::from_str(port)))
    }

    /// A constant of the given width.
    pub fn new_constant(&self, val: u64, width: u64) -> (r: Atom)
        ensures
            r@ == AtomModel::Num(val, width),
    {
        Atom::Num { val, width }
    }

    /// Adds an assignment.
    pub fn insert_edge(
        &mut self,
        src: Atom,
        dest: Port,
        group: Option<Id>,
        guard: Option<GuardExpr>,
    )
        ensures
            final(self)@.nodes == old(self)@.nodes,
            final(self)@.names == old(self)@.names,
            final(self)@.edges == old(self)@.edges.push(
                (EdgeModel {
                    src: src@,
                    dest: dest@,
                    group: opt_id_view(group),
                    guard: opt_guard_view(guard),
                }),
            ),
    {
        let e = Edge { src, dest, group, guard };
        let ghost em = e@;
        self.edges.push(e);
        assert(edges_view(self.edges@) =~= edges_view(old(self).edges@).push(em));
    }

    /// Adds a group node with the holes `go` and `done`, unless a node of
    /// that name exists.
    pub fn insert_group(&mut self, name: &Id) -> (r: Result<usize, Error>)
        ensures
            find_node(old(self)@.nodes, name@) is Some ==> {
                &&& r matches Err(Error::DuplicateGroup(g)) && g@ == name@
                &&& final(self)@ == old(self)@
            },
            find_node(old(self)@.nodes, name@) is None ==> {
                &&& r is Ok && r->Ok_0 == old(self)@.nodes.len()
                &&& final(self)@.nodes == old(self)@.nodes.push(
                    NodeModel { name: name@, kind: NodeKind::Group, ports: group_ports() },
                )
                &&& final(self)@.edges == old(self)@.edges
                &&& final(self)@.names == old(self)@.names
            },
    {
        match self.get_node_by_name(name) {
            Some(_) => Err(Error::DuplicateGroup(name.copy())),
            None => {
                let mut ports: Vec<Id> = Vec::new();
                ports.push(Id::from_str("go"));
                ports.push(Id::from_str("done"));
                let n = Node { name: name.copy(), data: NodeData::Group, ports };
                assert(n@.ports =~= group_ports());
                let ghost nm = n@;
                let idx = self.nodes.len();
                self.nodes.push(n);
                assert(nodes_view(self.nodes@) =~= nodes_view(old(self).nodes@).push(nm));
                Ok(idx)
            },
        }
    }

    /// Adds a cell that instantiates a primitive of the library, named by
    /// the name generator after the given prefix.
    pub fn new_primitive(
        &mut self,
        ctx: &Context,
        name: &str,
        prim: &str,
        params: &[u64],
    ) -> (r: Result<usize, Error>)
        ensures
            find_prim(ctx.primitives@, prim@) is None ==> {
                &&& r matches Err(Error::UndefinedPrimitive(p)) && p@ == prim@
                &&& final(self)@ == old(self)@
            },
            find_prim(ctx.primitives@, prim@) is Some ==> {
                let k = find_prim(ctx.primitives@, prim@).unwrap();
                &&& r is Ok && r->Ok_0 == old(self)@.nodes.len()
                &&& final(self)@.nodes == old(self)@.nodes.push(
                    NodeModel {
                        name: next_name(old(self)@.names, name@),
                        kind: NodeKind::Cell(prim@, params@),
                        ports: ids_view(ctx.primitives@[k].ports@),
                    },
                )
                &&& final(self)@.edges == old(self)@.edges
                &&& final(self)@.names == after_name(old(self)@.names, name@)
            },
    {
        match ctx.find_primitive(prim) {
            None => Err(Error::UndefinedPrimitive(Id::from_str(prim))),
            Some(k) => {
                let cell_name = self.namegen.gen_name(name);
                let mut ps: Vec<u64> = Vec::new();
                let mut i: usize = 0;
                while i < params.len()
                    invariant
                        i <= params@.len(),
                        ps@ == params@.take(i as int),
                    decreases params@.len() - i,
                {
                    ps.push(params[i]);
                    assert(params@.take(i + 1) =~= params@.take(i as int).push(params@[i as int]));
                    i = i + 1;
                }
                assert(params@.take(params@.len() as int) =~= params@);
                let n = Node {
                    name: Id::from_string(cell_name),
                    data: NodeData::Cell { prim: Id::from_str(prim), params: ps },
                    ports: copy_port_names(&ctx.primitives[k].ports),
                };
                let ghost nm = n@;
                let idx = self.nodes.len();
                self.nodes.push(n);
                assert(nodes_view(self.nodes@) =~= nodes_view(old(self).nodes@).push(nm));
                Ok(idx)
            },
        }
    }
}

/// A component during compilation: its name, structure and control.
#[derive(Debug)]
pub struct Component {
    pub name: Id,
    pub structure: StructureGraph,
    pub control: Control,
}

} // verus!
