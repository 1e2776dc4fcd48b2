//! A participant node of the swarm, by identity.

use vstd::prelude::*;

use crate::types::NodeId;

verus! {

/// Represents a participant node in the swarm.
#[derive(Debug, Clone)]
pub struct Agent {
    pub id: NodeId,
}

impl Agent {
    /// The participant with id `id`.
    pub fn new(id: &str) -> (a: Self)
        ensures
            a.id@ == id@,
    {
        Agent { id: id.to_owned() }
    }
}

} // verus!
