//! Nodes and their liveness.

use crate::time::Timestamp;
use vstd::prelude::*;

verus! {

/// Whether a node counts as live. Only an explicit call changes it.
#[derive(Clone, Copy, Debug, PartialEq, Eq, Structural)]
pub enum NodeStatus {
    Active,
    Inactive,
}

/// A peer as it last reported itself.
#[derive(Debug, PartialEq, Eq)]
pub struct Node {
    /// The identifier under which the registry keeps the node.
    pub node_id: String,
    /// When the node last reported.
    pub last_active: Timestamp,
    /// The liveness that was last recorded.
    pub status: NodeStatus,
}

impl Clone for Node {
    fn clone(&self) -> (copy: Node)
        ensures
            copy == *self,
    {
        Node { node_id: self.node_id.clone(), last_active: self.last_active, status: self.status }
    }
}

impl Node {
    /// This node with its status set to inactive and nothing else changed.
    pub open spec fn deactivated(self) -> Node {
        Node { status: NodeStatus::Inactive, ..self }
    }
}

} // verus!
