//! Node-name resolution and the layout of the nodal system's unknowns.

use vstd::prelude::*;
use crate::types::{BranchId, NodeId};

verus! {

/// Whether a node name denotes ground.
pub open spec fn is_ground_name(s: Seq<char>) -> bool {
    s == "0"@ || s == "GND"@
}

/// Index of the first name equal to `s` among `names[from..]`, if any.
pub open spec fn find_name(names: Seq<Seq<char>>, s: Seq<char>, from: int) -> Option<nat>
    decreases names.len() - from,
{
    if from < 0 || from >= names.len() {
        None
    } else if names[from] == s {
        Some(from as nat)
    } else {
        find_name(names, s, from + 1)
    }
}

/// The node a name denotes in a table of names.
pub open spec fn resolve_name(names: Seq<Seq<char>>, s: Seq<char>) -> Option<nat> {
    if is_ground_name(s) {
        Some(0)
    } else {
        find_name(names, s, 0)
    }
}

/// Where `find_name` finds a name, and that no earlier position holds it.
pub proof fn lemma_find_name(names: Seq<Seq<char>>, s: Seq<char>, from: int)
    requires
        0 <= from <= names.len(),
    ensures
        match find_name(names, s, from) {
            Some(i) => from <= i < names.len() && names[i as int] == s && forall|j: int|
                from <= j < i ==> names[j] != s,
            None => forall|j: int| from <= j < names.len() ==> names[j] != s,
        },
    decreases names.len() - from,
{
    if from < names.len() {
        lemma_find_name(names, s, from + 1);
    }
}

/// A name pushed onto a table where it did not resolve resolves to the new
/// last position.
pub proof fn lemma_resolve_pushed(names: Seq<Seq<char>>, s: Seq<char>)
    requires
        resolve_name(names, s) is None,
    ensures
        resolve_name(names.push(s), s) == Some(names.len()),
{
    if !is_ground_name(s) {
        lemma_find_name(names, s, 0);
        lemma_find_pushed(names, s, 0);
    }
}

proof fn lemma_find_pushed(names: Seq<Seq<char>>, s: Seq<char>, from: int)
    requires
        0 <= from <= names.len(),
        forall|j: int| from <= j < names.len() ==> names[j] != s,
    ensures
        find_name(names.push(s), s, from) == Some(names.len()),
    decreases names.len() - from,
{
    if from < names.len() {
        lemma_find_pushed(names, s, from + 1);
    }
}

/// Exact comparison of two strings, character by character.
pub(crate) fn same_text(a: &str, b: &str) -> (r: bool)
    ensures
        r == (a@ == b@),
{
    let n = a.unicode_len();
    if n != b.unicode_len() {
        return false;
    }
    let mut i: usize = 0;
    while i < n
        invariant
            i <= n,
            n == a@.len(),
            n == b@.len(),
            forall|j: int| 0 <= j < i ==> #[trigger] a@[j] == b@[j],
        decreases n - i,
    {
        if a.get_char(i) != b.get_char(i) {
            return false;
        }
        i = i + 1;
    }
    assert(a@ =~= b@);
    true
}

/// The names of a circuit's nodes, indexed by node id. Node 0 is ground,
/// named "0" and also reachable as "GND"; every other name appears once.
#[derive(Debug)]
pub struct NodeTable {
    names: Vec<String>,
}

impl NodeTable {
    /// The names, by node id.
    pub closed spec fn names(&self) -> Seq<Seq<char>> {
        self.names@.map_values(|s: String| s@)
    }

    /// Ground first, below `usize::MAX` names, no ground name after it, and
    /// no name twice.
    pub open spec fn wf(&self) -> bool {
        let n = self.names();
        &&& n.len() >= 1
        &&& n.len() < usize::MAX
        &&& n[0] == "0"@
        &&& forall|i: int| 1 <= i < n.len() ==> !is_ground_name(#[trigger] n[i])
        &&& forall|i: int, j: int| 0 <= i < j < n.len() ==> #[trigger] n[i] != #[trigger] n[j]
    }

    /// A table that holds ground alone.
    pub fn new() -> (r: NodeTable)
        ensures
            r.wf(),
            r.names() == seq!["0"@],
    {
        let mut names: Vec<String> = Vec::new();
        names.push(String::from_str("0"));
        let r = NodeTable { names };
        assert(r.names() =~= seq!["0"@]);
        r
    }

    /// Number of nodes, ground included.
    pub fn num_nodes(&self) -> (r: usize)
        ensures
            r == self.names().len(),
    {
        self.names.len()
    }

    /// The node that `name` denotes, if any.
    pub fn find_node(&self, name: &str) -> (r: Option<NodeId>)
        requires
            self.wf(),
        ensures
            match resolve_name(self.names(), name@) {
                Some(i) => r == Some(NodeId(i as usize)),
                None => r is None,
            },
    {
        if same_text(name, "0") || same_text(name, "GND") {
            return Some(NodeId(0));
        }
        let mut i: usize = 0;
        while i < self.names.len()
            invariant
                i <= self.names.len(),
                self.names.len() == self.names().len(),
                find_name(self.names(), name@, 0) == find_name(self.names(), name@, i as int),
                !is_ground_name(name@),
            decreases self.names.len() - i,
        {
            assert(self.names()[i as int] == self.names@[i as int]@);
            if same_text(self.names[i].as_str(), name) {
                return Some(NodeId(i));
            }
            i = i + 1;
        }
        None
    }

    /// The node that `name` denotes, added as a new node if there is none.
    pub fn intern(&mut self, name: &str) -> (r: NodeId)
        requires
            old(self).wf(),
            old(self).names().len() + 1 < usize::MAX,
        ensures
            final(self).wf(),
            match resolve_name(old(self).names(), name@) {
                Some(i) => r == NodeId(i as usize) && final(self).names() == old(self).names(),
                None => r == NodeId(old(self).names().len() as usize) && final(self).names()
                    == old(self).names().push(name@),
            },
    {
        match self.find_node(name) {
            Some(id) => id,
            None => {
                let ghost before = self.names();
                proof {
                    lemma_find_name(before, name@, 0);
                }
                let id = NodeId(self.names.len());
                self.names.push(String::from_str(name));
                assert(self.names() =~= before.push(name@));
                id
            },
        }
    }

    /// The name of a node.
    pub fn node_name(&self, node: NodeId) -> (r: &str)
        requires
            node.0 < self.names().len(),
        ensures
            r@ == self.names()[node.0 as int],
    {
        self.names[node.0].as_str()
    }

    /// Row of a node's voltage in the nodal system; ground has none.
    pub fn node_index(&self, node: NodeId) -> (r: Option<usize>)
        ensures
            node.0 == 0 ==> r is None,
            node.0 > 0 ==> r == Some((node.0 - 1) as usize),
    {
        if node.is_ground() {
            None
        } else {
            Some(node.0 - 1)
        }
    }

    /// Row of a branch current: after all non-ground node voltages.
    pub fn branch_index(&self, branch: BranchId) -> (r: usize)
        requires
            self.wf(),
            self.names().len() - 1 + branch.0 <= usize::MAX,
        ensures
            r == self.names().len() - 1 + branch.0,
    {
        (self.names.len() - 1) + branch.0
    }

    /// Size of the nodal system with `num_branches` branch currents.
    pub fn matrix_size(&self, num_branches: usize) -> (r: usize)
        requires
            self.wf(),
            self.names().len() - 1 + num_branches <= usize::MAX,
        ensures
            r == self.names().len() - 1 + num_branches,
    {
        (self.names.len() - 1) + num_branches
    }
}

} // verus!
