//! Local, synchronous simulations of the delivery swarm: the end-to-end MVP
//! flow, a tick-driven replay of it, and a long-running world.
//!
//! Positions are floating-point coordinates held as bit patterns; the
//! distance-based quantities (an agent's ETA to a point, a step towards a
//! point, whether a point lies inside a zone, where a generated order or
//! zone lies) and the bids' scores are computed by closures the caller
//! supplies.

pub mod runner;
pub mod live;
pub mod world;
pub mod log;


