//! Delivery-swarm coordination logic: order lifecycle, auctions, handoffs,
//! failure detection, escrow ledgers and the message-level decisions of a
//! swarm node, with their contracts proved by Verus.

pub mod text;
pub mod clock;
pub mod table;
pub mod sums;
pub mod types;
pub mod config;
pub mod domain;
pub mod crypto;
pub mod payments;
pub mod healing;
pub mod app;
pub mod sim;
pub mod node;
pub mod safety;
pub mod handoff;
pub mod auction;
pub mod agent;
pub mod codec;
