//! Identifiers of nodes, components and branches, and the layout of the
//! solution vector of the nodal system.

use vstd::prelude::*;

verus! {

/// A node of the circuit; node 0 is ground.
#[derive(Debug, Clone, Copy, PartialEq, Eq, Structural, Hash)]
pub struct NodeId(pub usize);

impl NodeId {
    /// The ground node.
    pub fn ground() -> (r: NodeId)
        ensures
            r.0 == 0,
    {
        NodeId(0)
    }

    /// Whether this is the ground node.
    pub fn is_ground(&self) -> (r: bool)
        ensures
            r == (self.0 == 0),
    {
        self.0 == 0
    }
}

/// A component of the circuit.
#[derive(Debug, Clone, Copy, PartialEq, Eq, Structural, Hash)]
pub struct ComponentId(pub usize);

/// An auxiliary current unknown (voltage source, inductor, digital driver).
#[derive(Debug, Clone, Copy, PartialEq, Eq, Structural, Hash)]
pub struct BranchId(pub usize);

/// An unknown of the nodal system: a node voltage or a branch current.
#[derive(Debug, Clone, Copy, PartialEq, Eq, Structural, Hash)]
pub enum VarIndex {
    Voltage(NodeId),
    Current(BranchId),
}

/// Position of an unknown in the solution vector: the non-ground node
/// voltages in node order, then the branch currents in branch order.
pub open spec fn var_position(v: VarIndex, num_nodes: nat) -> int {
    match v {
        VarIndex::Voltage(n) => n.0 - 1,
        VarIndex::Current(b) => (num_nodes - 1) + b.0,
    }
}

/// Number of unknowns of a circuit with `num_nodes` nodes (ground included)
/// and `num_branches` branches.
pub open spec fn system_size(num_nodes: nat, num_branches: nat) -> int {
    (num_nodes - 1) + num_branches
}

impl VarIndex {
    /// Whether the unknown has a row in the system (ground has none).
    pub open spec fn is_indexed(&self) -> bool {
        match self {
            VarIndex::Voltage(n) => n.0 > 0,
            VarIndex::Current(_) => true,
        }
    }

    /// Index of this unknown in the solution vector of a circuit with
    /// `num_nodes` nodes, ground included.
    pub fn to_index(&self, num_nodes: usize) -> (r: usize)
        requires
            self.is_indexed(),
            num_nodes >= 1,
            var_position(*self, num_nodes as nat) <= usize::MAX,
        ensures
            r == var_position(*self, num_nodes as nat),
    {
        match self {
            VarIndex::Voltage(n) => n.0 - 1,
            VarIndex::Current(b) => (num_nodes - 1) + b.0,
        }
    }
}

/// Distinct unknowns of one circuit occupy distinct positions, all inside the
/// solution vector.
pub proof fn lemma_layout_injective(
    a: VarIndex,
    b: VarIndex,
    num_nodes: nat,
    num_branches: nat,
)
    requires
        num_nodes >= 1,
        a.is_indexed(),
        b.is_indexed(),
        a is Voltage ==> a->Voltage_0.0 < num_nodes,
        b is Voltage ==> b->Voltage_0.0 < num_nodes,
        a is Current ==> a->Current_0.0 < num_branches,
        b is Current ==> b->Current_0.0 < num_branches,
    ensures
        0 <= var_position(a, num_nodes) < system_size(num_nodes, num_branches),
        a != b ==> var_position(a, num_nodes) != var_position(b, num_nodes),
{
}

} // verus!
