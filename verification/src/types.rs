//! The data model shared by the domain modules and the swarm messages.
//!
//! Coordinates and other floating-point quantities travel through this
//! library as the IEEE-754 bit patterns of their values (`f64::to_bits`,
//! `f32::to_bits`): the logic here carries them and never does arithmetic on
//! them.

use vstd::prelude::*;

verus! {

/// Node identifier derived from its public key (Base58 string).
pub type NodeId = String;

/// Seconds since the Unix epoch.
pub type Timestamp = u64;

/// Raw transaction bytes as produced / consumed by the consensus layer.
pub type RawTransaction = Vec<u8>;

/// Logical round / consensus height counter.
pub type Round = u64;

/// Identifier of a swarm agent.
pub type AgentId = String;

/// Numeric order identifier used by swarm messages.
pub type OrderId = u64;

/// Identifier of an escrow.
pub type EscrowId = u64;

/// Identifier of a handoff.
pub type HandoffId = u64;

/// Identifier of a safety alert.
pub type AlertId = u64;

/// An escrow locked for an order.
#[derive(Debug)]
pub struct EscrowInfo {
    pub escrow_id: EscrowId,
    pub order_id: OrderId,
    pub amount: u64,
    pub client_signature: Vec<u8>,
    pub holder_agent: AgentId,
    pub locked_at: u64,
    pub released: bool,
}

/// A planar position held as the bit patterns of its two `f64` coordinates.
#[derive(Debug, Clone, Copy, PartialEq, Eq, Structural)]
pub struct GeoBits {
    pub x_bits: u64,
    pub y_bits: u64,
}

/// Kind of delivery agent.
#[derive(Debug, Clone, Copy, PartialEq, Eq, Structural)]
pub enum AgentKind {
    Drone,
    Robot,
    Ebike,
}

/// Availability of an agent.
#[derive(Debug, Clone, Copy, PartialEq, Eq, Structural)]
pub enum AgentStatus {
    Idle,
    Busy,
    Offline,
}

/// Stage of an order's lifecycle.
#[derive(Debug, Clone, Copy, PartialEq, Eq, Structural)]
pub enum OrderStatus {
    Created,
    Bidding,
    Assigned,
    Pickup,
    InTransit,
    HandoffPending,
    HandedOff,
    Delivered,
    Cancelled,
}

/// A delivery order.
#[derive(Debug, Clone)]
pub struct Order {
    pub order_id: String,
    pub status: OrderStatus,
    pub origin: NodeId,
    pub assigned_to: Option<NodeId>,
    pub pickup: GeoBits,
    pub dropoff: GeoBits,
    pub created_at: Timestamp,
    pub updated_at: Timestamp,
}

/// An agent's bid in an order's auction.
#[derive(Debug, Clone)]
pub struct AuctionBid {
    pub order_id: String,
    pub bidder: NodeId,
    pub eta_s: u32,
    pub battery_pct: u8,
    pub submitted_at: Timestamp,
}

/// State an agent broadcasts about itself.
#[derive(Debug, Clone)]
pub struct AgentState {
    pub node_id: NodeId,
    pub kind: AgentKind,
    pub status: AgentStatus,
    pub location: GeoBits,
    pub battery_pct: u8,
    pub updated_at: Timestamp,
}

/// A declared safety zone; `radius_m` is the bit pattern of an `f32`.
#[derive(Debug, Clone)]
pub struct SafetyZone {
    pub zone_id: String,
    pub center: GeoBits,
    pub radius_m: u32,
    pub active: bool,
    pub declared_at: Timestamp,
}

/// The envelope of every message exchanged through consensus.
#[derive(Debug, Clone)]
pub enum NexusMessage {
    AgentState(AgentState),
    OrderCreated(Order),
    AuctionBid(AuctionBid),
    AuctionWinner { order_id: String, winner: NodeId },
    HandoffRequest { order_id: String, from: NodeId, to: NodeId },
    HandoffComplete { order_id: String, new_holder: NodeId },
    AgentFailure { node_id: NodeId, reason: String },
    SafetyAlert(SafetyZone),
    SafetyClear { zone_id: String },
    OrderDelivered { order_id: String, delivered_by: NodeId, at: Timestamp },
}

/// A copy of an optional node id.
pub fn copy_node_opt(v: &Option<NodeId>) -> (r: Option<NodeId>)
    ensures
        r == *v,
{
    match v {
        Some(s) => Some(s.clone()),
        None => None,
    }
}

impl Order {
    /// A field-by-field copy of the order.
    pub fn duplicate(&self) -> (r: Order)
        ensures
            r == *self,
    {
        Order {
            order_id: self.order_id.clone(),
            status: self.status,
            origin: self.origin.clone(),
            assigned_to: copy_node_opt(&self.assigned_to),
            pickup: self.pickup,
            dropoff: self.dropoff,
            created_at: self.created_at,
            updated_at: self.updated_at,
        }
    }
}

impl AuctionBid {
    /// A field-by-field copy of the bid.
    pub fn duplicate(&self) -> (r: AuctionBid)
        ensures
            r == *self,
    {
        AuctionBid {
            order_id: self.order_id.clone(),
            bidder: self.bidder.clone(),
            eta_s: self.eta_s,
            battery_pct: self.battery_pct,
            submitted_at: self.submitted_at,
        }
    }
}

impl AgentState {
    /// A field-by-field copy of the state.
    pub fn duplicate(&self) -> (r: AgentState)
        ensures
            r == *self,
    {
        AgentState {
            node_id: self.node_id.clone(),
            kind: self.kind,
            status: self.status,
            location: self.location,
            battery_pct: self.battery_pct,
            updated_at: self.updated_at,
        }
    }
}

/// A point in the plane (as `f64` bit patterns) in the swarm protocol.
pub type Point = GeoBits;

/// Kind of swarm agent.
#[derive(Debug, Clone, Copy, PartialEq, Eq, Structural)]
pub enum AgentType {
    Drone,
    GroundRobot,
    Ebike,
}

/// A swarm agent's own state.  `battery` and `capacity` are `f64` bit
/// patterns.
#[derive(Debug)]
pub struct NexusAgent {
    pub id: AgentId,
    pub agent_type: AgentType,
    pub vendor: String,
    pub position: Point,
    pub battery: u64,
    pub capacity: u64,
    pub status: AgentStatus,
    pub balance: u64,
    pub total_assignments: u64,
    pub successful_deliveries: u64,
}

impl NexusAgent {
    /// A fresh, idle agent with no history.
    pub fn new(
        id: &str,
        agent_type: AgentType,
        vendor: &str,
        x: u64,
        y: u64,
        battery: u64,
        capacity: u64,
        balance: u64,
    ) -> (a: Self)
        ensures
            a.id@ == id@,
            a.agent_type == agent_type,
            a.vendor@ == vendor@,
            a.position == (GeoBits { x_bits: x, y_bits: y }),
            a.battery == battery,
            a.capacity == capacity,
            a.status == AgentStatus::Idle,
            a.balance == balance,
            a.total_assignments == 0,
            a.successful_deliveries == 0,
    {
        NexusAgent {
            id: id.to_owned(),
            agent_type,
            vendor: vendor.to_owned(),
            position: GeoBits { x_bits: x, y_bits: y },
            battery,
            capacity,
            status: AgentStatus::Idle,
            balance,
            total_assignments: 0,
            successful_deliveries: 0,
        }
    }
}

/// The messages of the swarm protocol.  Floating-point quantities
/// (`weight`, `score`, `battery`, coordinates, `radius`, `capacity`) are
/// `f64` bit patterns.
#[derive(Debug, Clone)]
pub enum SwarmMessage {
    AgentState {
        agent_id: AgentId,
        agent_type: AgentType,
        vendor: String,
        x: u64,
        y: u64,
        battery: u64,
        capacity: u64,
        status: AgentStatus,
    },
    OrderCreated { order_id: OrderId, pickup: Point, delivery: Point, weight: u64, escrow_amount: u64 },
    AuctionBid { order_id: OrderId, agent_id: AgentId, score: u64 },
    AuctionWinner { order_id: OrderId, winner_id: AgentId },
    HandoffRequest { order_id: OrderId, from_agent: AgentId, to_agent: AgentId, point: Point },
    HandoffComplete { order_id: OrderId, from_agent: AgentId, to_agent: AgentId },
    OrderDelivered { order_id: OrderId, agent_id: AgentId },
    AgentFailure { agent_id: AgentId, reason: String },
    AgentRecovery { agent_id: AgentId, battery: u64 },
    SafetyAlert { alert_id: AlertId, x: u64, y: u64, radius: u64 },
    SafetyClear { alert_id: AlertId },
    PaymentEscrow {
        order_id: OrderId,
        from_agent: AgentId,
        amount: u64,
        client_signature: Vec<u8>,
        escrow_id: EscrowId,
    },
    PaymentClaim { order_id: OrderId, agent_id: AgentId, proof_hash: Vec<u8>, timestamp: u64 },
    PaymentRelease {
        escrow_id: EscrowId,
        to_agent: AgentId,
        amount: u64,
        validator_signatures: Vec<Vec<u8>>,
    },
    HandoffPayment {
        handoff_id: HandoffId,
        from_agent: AgentId,
        to_agent: AgentId,
        amount: u64,
        signature: Vec<u8>,
    },
    BalanceQuery { agent_id: AgentId, request_id: u64 },
    BalanceResponse { agent_id: AgentId, balance: u64, request_id: u64 },
}

} // verus!
