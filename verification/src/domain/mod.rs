//! Pure delivery-domain logic: order lifecycle, auctions, handoffs, failure
//! detection, safety zones and the escrow ledger.

pub mod agent;
pub mod order;
pub mod auction;
pub mod handoff;
pub mod healing;
pub mod ledger;
pub mod safety;
