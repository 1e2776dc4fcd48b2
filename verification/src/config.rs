//! Node configuration: identity, network and agent properties.
//!
//! Reading the configuration from a TOML file is done outside this library;
//! here the configuration is plain data.

use vstd::prelude::*;

use crate::types::{AgentKind, GeoBits};

verus! {

/// A remote peer as listed in the config file.
#[derive(Debug, Clone)]
pub struct PeerConfig {
    /// Human-readable label, e.g. "node2".
    pub id: String,
    /// Network address: "ip:port".
    pub address: String,
    /// Base58-encoded public key of this peer.
    pub public_key: String,
}

/// Full node configuration.  The initial position `x`, `y` is held as the
/// bit patterns of its `f64` coordinates.
#[derive(Debug, Clone)]
pub struct AppConfig {
    /// Human-readable node label, e.g. "node1".
    pub node_id: String,
    /// Base58-encoded secret key for this node.
    pub secret_key: String,
    /// Local address this node binds to, e.g. "127.0.0.1:8001".
    pub bind: String,
    /// Known peers.
    pub peers: Vec<PeerConfig>,
    /// Delivery agent type.
    pub agent_kind: AgentKind,
    /// Operator or fleet owner name.
    pub vendor: String,
    /// Initial x coordinate (`f64` bits).
    pub x: u64,
    /// Initial y coordinate (`f64` bits).
    pub y: u64,
    /// Initial battery level 0–100.
    pub battery: u8,
    /// Max simultaneous orders this agent can carry.
    pub capacity: u8,
}

impl AppConfig {
    /// The configured initial position.
    pub open spec fn position(&self) -> GeoBits {
        GeoBits { x_bits: self.x, y_bits: self.y }
    }

    /// The configured initial position.
    pub fn position_bits(&self) -> (p: GeoBits)
        ensures
            p == self.position(),
    {
        GeoBits { x_bits: self.x, y_bits: self.y }
    }
}

} // verus!
