//! The switch: a two-terminal control that is either closed or open.

use vstd::prelude::*;
use crate::types::{ComponentId, NodeId};

verus! {

/// A switch between two nodes. Closed it conducts as a very small
/// resistance, open as a very large one.
#[derive(Debug, Clone)]
pub struct Switch {
    pub id: ComponentId,
    pub name: String,
    pub nodes: [NodeId; 2],
    pub closed: bool,
}

impl Switch {
    /// A switch in the given state.
    pub fn new(id: ComponentId, name: String, nodes: [NodeId; 2], closed: bool) -> (r: Switch)
        ensures
            r.id == id,
            r.name == name,
            r.nodes == nodes,
            r.closed == closed,
    {
        Switch { id, name, nodes, closed }
    }

    /// Closes (`true`) or opens (`false`) the switch.
    pub fn set_state(&mut self, closed: bool)
        ensures
            final(self).closed == closed,
            final(self).id == old(self).id,
            final(self).name == old(self).name,
            final(self).nodes == old(self).nodes,
    {
        self.closed = closed;
    }

    /// Flips the switch.
    pub fn toggle(&mut self)
        ensures
            final(self).closed == !old(self).closed,
            final(self).id == old(self).id,
            final(self).name == old(self).name,
            final(self).nodes == old(self).nodes,
    {
        self.closed = !self.closed;
    }
}

} // verus!
