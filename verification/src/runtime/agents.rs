//! The agents of the interaction net, as kinds of rewrite participants.
use vstd::prelude::*;

use crate::runtime::net::NodeId;

verus! {

/// The duplicator agent δ.
#[derive(Debug, Clone, Copy)]
pub struct DeltaAgent;

/// The eraser agent ε.
#[derive(Debug, Clone, Copy)]
pub struct EpsilonAgent;

/// The abstraction agent λ.
#[derive(Debug, Clone, Copy)]
pub struct LambdaAgent;

/// The nodes an interaction created and removed.
#[derive(Debug)]
pub struct InteractionResult {
    pub new_nodes: Vec<NodeId>,
    pub removed_nodes: Vec<NodeId>,
}

} // verus!
