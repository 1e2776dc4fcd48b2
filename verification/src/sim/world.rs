//! A long-running multi-agent world: every tick it drains batteries,
//! generates and auctions orders, declares and clears safety zones,
//! advances deliveries (with at most one handoff per order), settles
//! payments and detects silent agents.
//!
//! Where a generated order or zone lies, and each agent's ETA to a pickup
//! point, come from closures the caller supplies; the deterministic
//! pseudo-random offsets they are given come from a linear congruential
//! generator held in the world.

use vstd::prelude::*;

use crate::domain::auction::{self, is_winner_at, scored};
use crate::domain::healing::{failed_in, ids_of, HeartbeatTracker};
use crate::domain::ledger::{balance_in, fee_paid, finally_paid, lemma_parts_within_total, EscrowState, Ledger};
use crate::domain::order as order_fsm;
use crate::domain::safety::SafetyMonitor;
use crate::sim::log::{bids_line, bids_text, tick_line, tick_prefix};
use crate::text::{decimal, decimal_text};
use crate::types::{AgentStatus, AuctionBid, GeoBits, NodeId, Order, OrderStatus, SafetyZone, Timestamp};

verus! {

/// The world's clock starts here.
pub const WORLD_BASE_T: Timestamp = 1_700_000_000;

/// Escrow reserved for each generated order.
pub const WORLD_ESCROW: u64 = 300;

/// Fee paid to the outgoing agent of a handoff.
pub const WORLD_HANDOFF_FEE: u64 = 100;

/// Balance each agent starts with.
pub const STARTING_BALANCE: u64 = 10_000;

/// An order is generated every this many ticks.
pub const ORDER_EVERY_TICKS: u64 = 8;

/// Seconds of silence after which an agent counts as failed.
pub const WORLD_HEARTBEAT_TIMEOUT: u64 = 20;

/// Battery percent drained per tick.
pub const BATTERY_DRAIN_PER_TICK: u8 = 1;

/// Ticks an agent stays offline before it is back, recharged.
pub const OFFLINE_RECOVERY_TICKS: u32 = 15;

/// Battery percent of an agent back from recharging.
pub const RECHARGED_BATTERY: u8 = 80;

/// Ticks an order spends in each delivery phase.
pub const PHASE_ADVANCE_TICKS: u32 = 3;

/// A safety zone is declared every this many ticks.
pub const SAFETY_ZONE_EVERY_TICKS: u64 = 30;

/// Ticks a safety zone stays declared.
pub const SAFETY_ZONE_DURATION_TICKS: u64 = 10;

/// An idle agent is taken offline every this many ticks.
pub const FAILURE_EVERY_TICKS: u64 = 25;

/// Radius 0.005 of the generated zones, as `f32` bits.
pub const WORLD_ZONE_RADIUS_BITS: u32 = 0x3ba3d70a;

/// Multiplier of the linear congruential generator.
pub const LCG_MUL: u64 = 6_364_136_223_846_793_005;

/// Increment of the linear congruential generator.
pub const LCG_INC: u64 = 1_442_695_040_888_963_407;

/// The generator's next state.
pub open spec fn lcg_step(s: u64) -> u64 {
    s.wrapping_mul(LCG_MUL).wrapping_add(LCG_INC)
}

/// Advance the generator and return the top 31 bits of its new state.
pub fn lcg_next(state: &mut u64) -> (r: u64)
    ensures
        *final(state) == lcg_step(*old(state)),
        r == lcg_step(*old(state)) >> 33u64,
{
    *state = state.wrapping_mul(LCG_MUL).wrapping_add(LCG_INC);
    *state >> 33u64
}

/// One agent of the world.
#[derive(Debug, Clone)]
pub struct WorldAgent {
    pub id: NodeId,
    pub location: GeoBits,
    pub battery_pct: u8,
    pub status: AgentStatus,
    /// Ticks until the agent comes back online (0 = not offline).
    pub offline_countdown: u32,
}

/// One order of the world and its delivery progress.
#[derive(Debug)]
pub struct WorldOrder {
    pub order: Order,
    /// Ticks spent in the current phase.
    pub phase_ticks: u32,
    /// Agent currently holding delivery responsibility.
    pub holder: Option<NodeId>,
    /// Whether the order was already handed off.
    pub handoff_done: bool,
    /// Whether escrow was reserved for the order.
    pub escrow_reserved: bool,
}

/// What happened during a tick.
#[derive(Debug)]
pub enum WorldEvent {
    BackOnline { tick: u64, id: NodeId, battery: u8 },
    BatteryDepleted { tick: u64, id: NodeId },
    OrderCreated { tick: u64, order_id: String, pickup: GeoBits },
    BidsReceived { tick: u64, bids: Vec<AuctionBid> },
    WinnerChosen { tick: u64, order_id: String, winner: NodeId },
    ZoneActivated { tick: u64, zone_id: String, center: GeoBits },
    ZoneCleared { tick: u64, zone_id: String },
    PickupCompleted { tick: u64, order_id: String, holder: NodeId },
    InTransit { tick: u64, order_id: String, holder: NodeId },
    HandoffCompleted { tick: u64, order_id: String, from: NodeId, to: NodeId, fee: u64 },
    Delivered { tick: u64, order_id: String, by: NodeId, balance: u64 },
    AgentOffline { tick: u64, id: NodeId },
    OrderFlagged { tick: u64, order_id: String, failed_agent: NodeId },
}

/// The log line of `ev`; `None` for a created order and an activated
/// zone, whose lines show floating-point coordinates.
pub open spec fn event_text(ev: WorldEvent) -> Option<Seq<char>> {
    match ev {
        WorldEvent::BackOnline { tick, id, battery } => Some(tick_prefix(tick as nat) + "agent back online  id="@
            + id@ + "  bat="@ + decimal(battery as nat) + "%"@),
        WorldEvent::BatteryDepleted { tick, id } => Some(tick_prefix(tick as nat)
            + "agent battery depleted  id="@ + id@ + " — going offline"@),
        WorldEvent::OrderCreated { .. } => None,
        WorldEvent::BidsReceived { tick, bids } => Some(tick_prefix(tick as nat) + "bids received  ["@ + bids_text(
            bids@,
        ) + "]"@),
        WorldEvent::WinnerChosen { tick, order_id, winner } => Some(tick_prefix(tick as nat)
            + "winner chosen  id="@ + order_id@ + "  winner="@ + winner@),
        WorldEvent::ZoneActivated { .. } => None,
        WorldEvent::ZoneCleared { tick, zone_id } => Some(tick_prefix(tick as nat) + "safety zone cleared  id="@
            + zone_id@),
        WorldEvent::PickupCompleted { tick, order_id, holder } => Some(tick_prefix(tick as nat)
            + "pickup completed  id="@ + order_id@ + "  holder="@ + holder@),
        WorldEvent::InTransit { tick, order_id, holder } => Some(tick_prefix(tick as nat) + "in transit  id="@
            + order_id@ + "  holder="@ + holder@),
        WorldEvent::HandoffCompleted { tick, order_id, from, to, fee } => Some(tick_prefix(tick as nat)
            + "handoff completed  id="@ + order_id@ + "  from="@ + from@ + "  to="@ + to@ + "  fee="@ + decimal(
            fee as nat,
        )),
        WorldEvent::Delivered { tick, order_id, by, balance } => Some(tick_prefix(tick as nat) + "delivered  id="@
            + order_id@ + "  by="@ + by@ + "  balance="@ + decimal(balance as nat)),
        WorldEvent::AgentOffline { tick, id } => Some(tick_prefix(tick as nat)
            + "agent offline (simulated failure)  id="@ + id@),
        WorldEvent::OrderFlagged { tick, order_id, failed_agent } => Some(tick_prefix(tick as nat)
            + "order flagged for reauction  id="@ + order_id@ + "  failed_agent="@ + failed_agent@),
    }
}

impl WorldEvent {
    /// The log line of this event; `None` for a created order and an
    /// activated zone, whose lines show floating-point coordinates.
    pub fn line(&self) -> (r: Option<String>)
        ensures
            (r is Some) == (event_text(*self) is Some),
            r is Some ==> r.unwrap()@ == event_text(*self).unwrap(),
    {
        match self {
            WorldEvent::BackOnline { tick, id, battery } => {
                let mut s = tick_line(*tick);
                s.append("agent back online  id=");
                s.append(id.as_str());
                s.append("  bat=");
                s.append(decimal_text(*battery as u64).as_str());
                s.append("%");
                Some(s)
            },
            WorldEvent::BatteryDepleted { tick, id } => {
                let mut s = tick_line(*tick);
                s.append("agent battery depleted  id=");
                s.append(id.as_str());
                s.append(" — going offline");
                Some(s)
            },
            WorldEvent::OrderCreated { .. } => None,
            WorldEvent::BidsReceived { tick, bids } => {
                let mut s = tick_line(*tick);
                s.append("bids received  [");
                s.append(bids_line(bids).as_str());
                s.append("]");
                Some(s)
            },
            WorldEvent::WinnerChosen { tick, order_id, winner } => {
                let mut s = tick_line(*tick);
                s.append("winner chosen  id=");
                s.append(order_id.as_str());
                s.append("  winner=");
                s.append(winner.as_str());
                Some(s)
            },
            WorldEvent::ZoneActivated { .. } => None,
            WorldEvent::ZoneCleared { tick, zone_id } => {
                let mut s = tick_line(*tick);
                s.append("safety zone cleared  id=");
                s.append(zone_id.as_str());
                Some(s)
            },
            WorldEvent::PickupCompleted { tick, order_id, holder } => {
                let mut s = tick_line(*tick);
                s.append("pickup completed  id=");
                s.append(order_id.as_str());
                s.append("  holder=");
                s.append(holder.as_str());
                Some(s)
            },
            WorldEvent::InTransit { tick, order_id, holder } => {
                let mut s = tick_line(*tick);
                s.append("in transit  id=");
                s.append(order_id.as_str());
                s.append("  holder=");
                s.append(holder.as_str());
                Some(s)
            },
            WorldEvent::HandoffCompleted { tick, order_id, from, to, fee } => {
                let mut s = tick_line(*tick);
                s.append("handoff completed  id=");
                s.append(order_id.as_str());
                s.append("  from=");
                s.append(from.as_str());
                s.append("  to=");
                s.append(to.as_str());
                s.append("  fee=");
                s.append(decimal_text(*fee).as_str());
                Some(s)
            },
            WorldEvent::Delivered { tick, order_id, by, balance } => {
                let mut s = tick_line(*tick);
                s.append("delivered  id=");
                s.append(order_id.as_str());
                s.append("  by=");
                s.append(by.as_str());
                s.append("  balance=");
                s.append(decimal_text(*balance).as_str());
                Some(s)
            },
            WorldEvent::AgentOffline { tick, id } => {
                let mut s = tick_line(*tick);
                s.append("agent offline (simulated failure)  id=");
                s.append(id.as_str());
                Some(s)
            },
            WorldEvent::OrderFlagged { tick, order_id, failed_agent } => {
                let mut s = tick_line(*tick);
                s.append("order flagged for reauction  id=");
                s.append(order_id.as_str());
                s.append("  failed_agent=");
                s.append(failed_agent.as_str());
                Some(s)
            },
        }
    }
}

/// The long-running world.
pub struct WorldSim {
    pub agents: Vec<WorldAgent>,
    pub orders: Vec<WorldOrder>,
    pub ledger: Ledger,
    pub tracker: HeartbeatTracker,
    pub safety: SafetyMonitor,
    pub tick: u64,
    pub order_counter: u64,
    pub rng: u64,
}

/// The ids of the world's agents.
pub open spec fn world_ids(agents: Seq<WorldAgent>) -> Seq<Seq<char>> {
    agents.map_values(|a: WorldAgent| a.id@)
}

/// How many entries of `ids` are `k`.
pub open spec fn id_count(ids: Seq<Seq<char>>, k: Seq<char>) -> nat
    decreases ids.len(),
{
    if ids.len() == 0 {
        0
    } else {
        id_count(ids.drop_last(), k) + (if ids.last() == k { 1nat } else { 0nat })
    }
}

/// `a` after one tick of battery and recharge bookkeeping.
pub open spec fn updated_agent(a: WorldAgent) -> WorldAgent {
    if a.offline_countdown > 0 {
        if a.offline_countdown == 1 {
            WorldAgent {
                offline_countdown: 0,
                status: AgentStatus::Idle,
                battery_pct: RECHARGED_BATTERY,
                ..a
            }
        } else {
            WorldAgent { offline_countdown: (a.offline_countdown - 1) as u32, ..a }
        }
    } else {
        let b = if a.battery_pct >= BATTERY_DRAIN_PER_TICK {
            (a.battery_pct - BATTERY_DRAIN_PER_TICK) as u8
        } else {
            0u8
        };
        if b == 0 && a.status != AgentStatus::Offline {
            WorldAgent {
                battery_pct: b,
                status: AgentStatus::Offline,
                offline_countdown: OFFLINE_RECOVERY_TICKS,
                ..a
            }
        } else {
            WorldAgent { battery_pct: b, ..a }
        }
    }
}

/// `a` reports a heartbeat this tick: it is neither recharging nor offline.
pub open spec fn reports_heartbeat(a: WorldAgent) -> bool {
    a.offline_countdown == 0 && a.status != AgentStatus::Offline
}

/// The heartbeats on record after every reporting agent of `agents`
/// reported at `now`.
pub open spec fn heartbeats_after(
    seen: Map<Seq<char>, Timestamp>,
    agents: Seq<WorldAgent>,
    now: Timestamp,
) -> Map<Seq<char>, Timestamp> {
    Map::new(
        |k: Seq<char>|
            seen.contains_key(k) || exists|i: int|
                0 <= i < agents.len() && reports_heartbeat(agents[i]) && #[trigger] agents[i].id@ == k,
        |k: Seq<char>|
            if exists|i: int|
                0 <= i < agents.len() && reports_heartbeat(agents[i]) && #[trigger] agents[i].id@ == k {
                now
            } else {
                seen[k]
            },
    )
}

/// Whether updating `a` is worth a log event, and which.
pub open spec fn update_event_matches(a: WorldAgent, tick: u64, e: WorldEvent) -> bool {
    if a.offline_countdown == 1 {
        e matches WorldEvent::BackOnline { tick: t, id, battery } && t == tick && id == a.id
            && battery == RECHARGED_BATTERY
    } else {
        e matches WorldEvent::BatteryDepleted { tick: t, id } && t == tick && id == a.id
    }
}

/// Updating `a` produces a log event: it comes back online or its
/// battery runs out.
pub open spec fn update_logs(a: WorldAgent) -> bool {
    a.offline_countdown == 1 || (a.offline_countdown == 0 && a.battery_pct <= BATTERY_DRAIN_PER_TICK
        && a.status != AgentStatus::Offline)
}

/// The positions of the agents whose update is logged, in order.
pub open spec fn logged_updates(agents: Seq<WorldAgent>) -> Seq<int>
    decreases agents.len(),
{
    if agents.len() == 0 {
        seq![]
    } else {
        let rest = logged_updates(agents.drop_last());
        if update_logs(agents.last()) {
            rest.push(agents.len() - 1)
        } else {
            rest
        }
    }
}

/// `evs` are the log events of updating `agents` at tick `tick`, in order.
pub open spec fn update_events_are(agents: Seq<WorldAgent>, tick: u64, evs: Seq<WorldEvent>) -> bool {
    let pos = logged_updates(agents);
    &&& evs.len() == pos.len()
    &&& forall|j: int| 0 <= j < evs.len() ==> update_event_matches(agents[pos[j]], tick, #[trigger] evs[j])
}

/// All the funds the ledger holds fit in a `u64`, so that one balance plus
/// one escrow can be computed without overflow.
pub open spec fn funds_fit(w: &WorldSim) -> bool {
    &&& w.ledger.total_funds() <= u64::MAX
    &&& w.ledger.balances().dom().finite()
    &&& w.ledger.escrows().dom().finite()
}

/// `f` is the first position of an agent with id `id`.
pub open spec fn first_world_agent(agents: Seq<WorldAgent>, id: Seq<char>, f: int) -> bool {
    &&& 0 <= f < agents.len()
    &&& agents[f].id@ == id
    &&& forall|j: int| 0 <= j < f ==> agents[j].id@ != id
}

/// `b` is `a` with the first agent carrying `id` (if any) set to `st`.
pub open spec fn first_set_to(a: Seq<WorldAgent>, id: Seq<char>, st: AgentStatus, b: Seq<WorldAgent>) -> bool {
    if exists|f: int| first_world_agent(a, id, f) {
        exists|f: int| first_world_agent(a, id, f) && b == a.update(f, WorldAgent { status: st, ..a[f] })
    } else {
        b == a
    }
}

/// The positions of the idle agents, in order.
pub open spec fn idle_positions(agents: Seq<WorldAgent>) -> Seq<int>
    decreases agents.len(),
{
    if agents.len() == 0 {
        seq![]
    } else {
        let rest = idle_positions(agents.drop_last());
        if agents.last().status == AgentStatus::Idle {
            rest.push(agents.len() - 1)
        } else {
            rest
        }
    }
}

/// `bids` are the idle agents' bids for `order_id` with pickup at
/// `pickup`, in agent order, each with the ETA `eta_to` answered.
pub open spec fn idle_bids_are<E: Fn(GeoBits, GeoBits) -> u32>(
    agents: Seq<WorldAgent>,
    order_id: Seq<char>,
    pickup: GeoBits,
    now: Timestamp,
    eta_to: E,
    bids: Seq<AuctionBid>,
) -> bool {
    let pos = idle_positions(agents);
    &&& bids.len() == pos.len()
    &&& forall|j: int|
        0 <= j < bids.len() ==> {
            let a = agents[pos[j]];
            &&& (#[trigger] bids[j]).order_id@ == order_id
            &&& bids[j].bidder == a.id
            &&& bids[j].battery_pct == a.battery_pct
            &&& bids[j].submitted_at == now
            &&& eta_to.ensures((a.location, pickup), bids[j].eta_s)
        }
}

/// An order is generated at this tick: the tick is a multiple of the
/// generation period and some agent is idle.
pub open spec fn generation_due(w: WorldSim) -> bool {
    w.tick % ORDER_EVERY_TICKS == 0 && exists|i: int|
        0 <= i < w.agents@.len() && (#[trigger] w.agents@[i]).status == AgentStatus::Idle
}

/// The id of the `n`-th generated order.
pub open spec fn world_order_id(n: u64) -> Seq<char> {
    "order-"@ + decimal(n as nat)
}

/// The pseudo-random offsets of the next generated order's position.
pub open spec fn order_offsets(rng: u64) -> (u64, u64) {
    ((lcg_step(rng) >> 33u64) % 100, (lcg_step(lcg_step(rng)) >> 33u64) % 100)
}

/// `b` and `evs` are what generating an order does to `a` at `now`:
/// nothing unless it is due; otherwise the counter and the generator
/// advance, the order is placed where `place` answers for its offsets, the
/// idle agents bid with the ETAs `eta_to` answers, and when the first
/// agent can pay the escrow it is reserved, the order is assigned to the
/// best bid, the winner's first agent becomes busy and the order joins the
/// world.
#[verifier::opaque]
pub open spec fn order_generated<P: Fn(u64, u64) -> (GeoBits, GeoBits), E: Fn(GeoBits, GeoBits) -> u32, S: Fn(&AuctionBid) -> u64>(
    a: WorldSim,
    b: WorldSim,
    now: Timestamp,
    place: P,
    eta_to: E,
    score: S,
    evs: Seq<WorldEvent>,
) -> bool {
    &&& b.tracker == a.tracker
    &&& b.safety == a.safety
    &&& b.tick == a.tick
    &&& if !generation_due(a) {
        &&& b.agents@ == a.agents@
        &&& b.orders@ == a.orders@
        &&& b.ledger.balances() == a.ledger.balances()
        &&& b.ledger.escrows() == a.ledger.escrows()
        &&& b.order_counter == a.order_counter
        &&& b.rng == a.rng
        &&& evs.len() == 0
    } else {
        let oid = world_order_id(a.order_counter);
        let payer = a.agents@[0].id;
        let have = balance_in(a.ledger.balances(), payer@);
        &&& b.order_counter == a.order_counter + 1
        &&& b.rng == lcg_step(lcg_step(a.rng))
        &&& exists|pickup: GeoBits, dropoff: GeoBits, bids: Seq<AuctionBid>, sc: Seq<u64>, w: int| {
            &&& place.ensures(order_offsets(a.rng), (pickup, dropoff))
            &&& evs.len() >= 2
            &&& (evs[0] matches WorldEvent::OrderCreated { tick, order_id, pickup: p } && tick == a.tick
                && order_id@ == oid && p == pickup)
            &&& (evs[1] matches WorldEvent::BidsReceived { tick, bids: bv } && tick == a.tick && bv@ == bids)
            &&& idle_bids_are(a.agents@, oid, pickup, now, eta_to, bids)
            &&& scored(bids, score, sc)
            &&& is_winner_at(bids, sc, w)
            &&& if have >= WORLD_ESCROW && !a.ledger.escrows().contains_key(oid) {
                let winner = bids[w].bidder;
                &&& evs.len() == 3
                &&& (evs[2] matches WorldEvent::WinnerChosen { tick, order_id, winner: wn } && tick == a.tick
                    && order_id@ == oid && wn == winner)
                &&& b.ledger.balances() == a.ledger.balances().insert(payer@, (have - WORLD_ESCROW) as u64)
                &&& b.ledger.escrows().dom() == a.ledger.escrows().dom().insert(oid)
                &&& crate::domain::ledger::entry_is(
                    b.ledger.escrows()[oid],
                    payer@,
                    Seq::empty(),
                    WORLD_ESCROW,
                    crate::domain::ledger::EscrowState::Reserved,
                )
                &&& forall|k: Seq<char>| k != oid ==> #[trigger] b.ledger.escrows()[k] == a.ledger.escrows()[k]
                &&& first_set_to(a.agents@, winner@, AgentStatus::Busy, b.agents@)
                &&& b.orders@.len() == a.orders@.len() + 1
                &&& b.orders@.drop_last() == a.orders@
                &&& ({
                    let wo = b.orders@.last();
                    &&& wo.order.order_id@ == oid
                    &&& wo.order.status == OrderStatus::Assigned
                    &&& wo.order.origin == payer
                    &&& wo.order.assigned_to == Some(winner)
                    &&& wo.order.pickup == pickup
                    &&& wo.order.dropoff == dropoff
                    &&& wo.order.created_at == now
                    &&& wo.order.updated_at == now
                    &&& wo.phase_ticks == 0
                    &&& wo.holder == Some(winner)
                    &&& !wo.handoff_done
                    &&& wo.escrow_reserved
                })
            } else {
                &&& evs.len() == 2
                &&& b.agents@ == a.agents@
                &&& b.orders@ == a.orders@
                &&& b.ledger.balances() == a.ledger.balances()
                &&& b.ledger.escrows() == a.ledger.escrows()
            }
        }
    }
}

/// The pseudo-random offsets of the next declared zone's center.
pub open spec fn zone_offsets(rng: u64) -> (u64, u64) {
    ((lcg_step(rng) >> 33u64) % 50, (lcg_step(lcg_step(rng)) >> 33u64) % 50)
}

/// The id of the zone declared at tick `t`.
pub open spec fn world_zone_id(t: u64) -> Seq<char> {
    "zone-"@ + decimal(t as nat)
}

/// A zone is declared at this tick.
pub open spec fn zone_declared_at(tick: u64) -> bool {
    tick % SAFETY_ZONE_EVERY_TICKS == 0 && tick > 0
}

/// The zone declared `SAFETY_ZONE_DURATION_TICKS` ago is cleared at this
/// tick.
pub open spec fn zone_cleared_at(tick: u64) -> bool {
    tick > SAFETY_ZONE_DURATION_TICKS && tick % SAFETY_ZONE_EVERY_TICKS == SAFETY_ZONE_DURATION_TICKS
        % SAFETY_ZONE_EVERY_TICKS
}

/// `b` and `evs` are what managing the safety zones does to `a` at
/// `now`: a zone is declared every period, centered where `zone_at`
/// answers for the generator's offsets, and cleared a fixed number of
/// ticks later.
#[verifier::opaque]
pub open spec fn zones_managed<Z: Fn(u64, u64) -> GeoBits>(
    a: WorldSim,
    b: WorldSim,
    now: Timestamp,
    zone_at: Z,
    evs: Seq<WorldEvent>,
) -> bool {
    &&& b.agents == a.agents
    &&& b.orders == a.orders
    &&& b.ledger == a.ledger
    &&& b.tracker == a.tracker
    &&& b.tick == a.tick
    &&& b.order_counter == a.order_counter
    &&& if zone_declared_at(a.tick) {
        let zid = world_zone_id(a.tick);
        &&& b.rng == lcg_step(lcg_step(a.rng))
        &&& exists|center: GeoBits| {
            &&& zone_at.ensures(zone_offsets(a.rng), center)
            &&& b.safety.zones().dom() == a.safety.zones().dom().insert(zid)
            &&& forall|k: Seq<char>| k != zid ==> #[trigger] b.safety.zones()[k] == a.safety.zones()[k]
            &&& b.safety.zones()[zid].zone_id@ == zid
            &&& b.safety.zones()[zid].center == center
            &&& b.safety.zones()[zid].radius_m == WORLD_ZONE_RADIUS_BITS
            &&& b.safety.zones()[zid].active
            &&& b.safety.zones()[zid].declared_at == now
            &&& evs.len() == 1
            &&& (evs[0] matches WorldEvent::ZoneActivated { tick, zone_id, center: c } && tick == a.tick
                && zone_id@ == zid && c == center)
        }
    } else if zone_cleared_at(a.tick) {
        let zid = world_zone_id((a.tick - SAFETY_ZONE_DURATION_TICKS) as u64);
        &&& b.rng == a.rng
        &&& b.safety.zones() == a.safety.zones().remove(zid)
        &&& evs.len() == 1
        &&& (evs[0] matches WorldEvent::ZoneCleared { tick, zone_id } && tick == a.tick && zone_id@ == zid)
    } else {
        &&& b.rng == a.rng
        &&& b.safety.zones() == a.safety.zones()
        &&& evs.len() == 0
    }
}

/// The agents with the first one carrying `id` (if any) set to `st`.
pub open spec fn set_first(a: Seq<WorldAgent>, id: Seq<char>, st: AgentStatus) -> Seq<WorldAgent> {
    if exists|f: int| first_world_agent(a, id, f) {
        let f = choose|f: int| first_world_agent(a, id, f);
        a.update(f, WorldAgent { status: st, ..a[f] })
    } else {
        a
    }
}

/// The id of the agent holding `o` (empty when none does).
pub open spec fn holder_id(o: WorldOrder) -> Seq<char> {
    match o.holder {
        Some(h) => h@,
        None => Seq::empty(),
    }
}

/// `f` is the first idle agent whose id is not `h`.
pub open spec fn first_idle_other(ag: Seq<WorldAgent>, h: Seq<char>, f: int) -> bool {
    &&& 0 <= f < ag.len()
    &&& ag[f].id@ != h
    &&& ag[f].status == AgentStatus::Idle
    &&& forall|j: int| 0 <= j < f ==> !(ag[j].id@ != h && ag[j].status == AgentStatus::Idle)
}

/// The ledger as plain values: the balances and the escrow views.
pub open spec fn ledger_v(l: &Ledger) -> (Map<Seq<char>, u64>, Map<Seq<char>, (Seq<char>, Seq<char>, u64, EscrowState)>) {
    (l.balances(), l.escrow_views())
}

/// A log line of delivery progress, as plain values.
pub enum ProgressNote {
    PickupCompleted { order_id: Seq<char>, holder: Seq<char> },
    InTransit { order_id: Seq<char>, holder: Seq<char> },
    HandoffCompleted { order_id: Seq<char>, from: Seq<char>, to: Seq<char> },
    Delivered { order_id: Seq<char>, by: Seq<char>, balance: u64 },
}

/// `ev` is the log event of `n` at `tick`.
pub open spec fn note_logged(tick: u64, n: ProgressNote, ev: WorldEvent) -> bool {
    match n {
        ProgressNote::PickupCompleted { order_id, holder } => ev matches WorldEvent::PickupCompleted {
            tick: t,
            order_id: o,
            holder: h,
        } && t == tick && o@ == order_id && h@ == holder,
        ProgressNote::InTransit { order_id, holder } => ev matches WorldEvent::InTransit {
            tick: t,
            order_id: o,
            holder: h,
        } && t == tick && o@ == order_id && h@ == holder,
        ProgressNote::HandoffCompleted { order_id, from, to } => ev matches WorldEvent::HandoffCompleted {
            tick: t,
            order_id: o,
            from: f,
            to: d,
            fee,
        } && t == tick && o@ == order_id && f@ == from && d@ == to && fee == WORLD_HANDOFF_FEE,
        ProgressNote::Delivered { order_id, by, balance } => ev matches WorldEvent::Delivered {
            tick: t,
            order_id: o,
            by: b,
            balance: v,
        } && t == tick && o@ == order_id && b@ == by && v == balance,
    }
}

/// `evs` are the log events of `notes` at `tick`, in order.
pub open spec fn notes_logged(tick: u64, notes: Seq<ProgressNote>, evs: Seq<WorldEvent>) -> bool {
    &&& evs.len() == notes.len()
    &&& forall|j: int| 0 <= j < evs.len() ==> note_logged(tick, notes[j], #[trigger] evs[j])
}

/// The delivery of `o` by its holder: the order, the agents, the ledger
/// and the log note afterwards.
pub open spec fn delivered_by_holder(
    o: WorldOrder,
    ag: Seq<WorldAgent>,
    lv: (Map<Seq<char>, u64>, Map<Seq<char>, (Seq<char>, Seq<char>, u64, EscrowState)>),
    now: Timestamp,
) -> (Seq<WorldOrder>, Seq<WorldAgent>, (Map<Seq<char>, u64>, Map<Seq<char>, (Seq<char>, Seq<char>, u64, EscrowState)>), Seq<ProgressNote>) {
    let h = holder_id(o);
    let id = o.order.order_id@;
    let paid = finally_paid(lv.0, lv.1, id, h);
    (
        seq![WorldOrder { order: Order { status: OrderStatus::Delivered, updated_at: now, ..o.order }, phase_ticks: 0, ..o }],
        set_first(ag, h, AgentStatus::Idle),
        paid,
        seq![ProgressNote::Delivered { order_id: id, by: h, balance: balance_in(paid.0, h) as u64 }],
    )
}

/// One order after one tick of delivery progress, given the agents and
/// the ledger as they are at that point: the orders it leaves, the agents
/// and the ledger afterwards, and what is logged.  The order waits until
/// it has spent its ticks in the phase, then moves on: an assigned order
/// is picked up, a picked-up order goes in transit, an order in transit is
/// handed to the first idle other agent (once, the holder earning the
/// handoff fee out of the escrow) or delivered, a handed-off order is
/// delivered (the escrow paid out to the holder), and a delivered order
/// leaves the world.
pub open spec fn advance_one(
    o: WorldOrder,
    ag: Seq<WorldAgent>,
    lv: (Map<Seq<char>, u64>, Map<Seq<char>, (Seq<char>, Seq<char>, u64, EscrowState)>),
    now: Timestamp,
) -> (Seq<WorldOrder>, Seq<WorldAgent>, (Map<Seq<char>, u64>, Map<Seq<char>, (Seq<char>, Seq<char>, u64, EscrowState)>), Seq<ProgressNote>) {
    if o.phase_ticks + 1 < PHASE_ADVANCE_TICKS {
        (seq![WorldOrder { phase_ticks: (o.phase_ticks + 1) as u32, ..o }], ag, lv, seq![])
    } else {
        let due = WorldOrder { phase_ticks: 0, ..o };
        let h = holder_id(o);
        let id = o.order.order_id@;
        match o.order.status {
            OrderStatus::Assigned => (
                seq![WorldOrder { order: Order { status: OrderStatus::Pickup, updated_at: now, ..o.order }, ..due }],
                ag,
                lv,
                seq![ProgressNote::PickupCompleted { order_id: id, holder: h }],
            ),
            OrderStatus::Pickup => (
                seq![WorldOrder { order: Order { status: OrderStatus::InTransit, updated_at: now, ..o.order }, ..due }],
                ag,
                lv,
                seq![ProgressNote::InTransit { order_id: id, holder: h }],
            ),
            OrderStatus::InTransit => if !o.handoff_done && exists|f: int| first_idle_other(ag, h, f) {
                let f = choose|f: int| first_idle_other(ag, h, f);
                let d = ag[f].id@;
                (
                    seq![WorldOrder { holder: Some(ag[f].id), handoff_done: true, ..due }],
                    set_first(set_first(ag, h, AgentStatus::Idle), d, AgentStatus::Busy),
                    fee_paid(lv.0, lv.1, id, h, d, WORLD_HANDOFF_FEE),
                    seq![ProgressNote::HandoffCompleted { order_id: id, from: h, to: d }],
                )
            } else {
                delivered_by_holder(o, ag, lv, now)
            },
            OrderStatus::HandedOff => delivered_by_holder(o, ag, lv, now),
            OrderStatus::Delivered => (seq![], ag, lv, seq![]),
            _ => (seq![due], ag, lv, seq![]),
        }
    }
}

/// A handoff pays the outgoing holder: when an order in transit that was
/// not handed off yet is due to move on and another agent is idle, it
/// passes to an agent `d` other than its holder `h`; `h` is credited the
/// handoff fee, `d`'s balance is unchanged, and the escrow keeps the rest
/// of its amount for `d`.
pub proof fn lemma_handoff_pays_outgoing_holder(
    o: WorldOrder,
    ag: Seq<WorldAgent>,
    lv: (Map<Seq<char>, u64>, Map<Seq<char>, (Seq<char>, Seq<char>, u64, EscrowState)>),
    now: Timestamp,
)
    requires
        o.phase_ticks + 1 >= PHASE_ADVANCE_TICKS,
        o.order.status == OrderStatus::InTransit,
        !o.handoff_done,
        exists|f: int| first_idle_other(ag, holder_id(o), f),
        lv.1.contains_key(o.order.order_id@),
        lv.1[o.order.order_id@].3 == EscrowState::Reserved || lv.1[o.order.order_id@].3
            == EscrowState::Transferred,
        WORLD_HANDOFF_FEE <= lv.1[o.order.order_id@].2,
        balance_in(lv.0, holder_id(o)) + WORLD_HANDOFF_FEE <= u64::MAX,
    ensures
        ({
            let r = advance_one(o, ag, lv, now);
            let h = holder_id(o);
            let id = o.order.order_id@;
            &&& r.0.len() == 1
            &&& r.0[0].holder is Some
            &&& r.0[0].handoff_done
            &&& r.0[0].holder.unwrap()@ != h
            &&& balance_in(r.2.0, h) == balance_in(lv.0, h) + WORLD_HANDOFF_FEE
            &&& balance_in(r.2.0, r.0[0].holder.unwrap()@) == balance_in(lv.0, r.0[0].holder.unwrap()@)
            &&& r.2.1.contains_key(id)
            &&& r.2.1[id].1 == r.0[0].holder.unwrap()@
            &&& r.2.1[id].2 == lv.1[id].2 - WORLD_HANDOFF_FEE
            &&& r.2.1[id].3 == EscrowState::Transferred
        }),
{
    let h = holder_id(o);
    let f = choose|f: int| first_idle_other(ag, h, f);
    assert(first_idle_other(ag, h, f));
}

/// The orders after one tick of delivery progress, processed in order,
/// and the agents, the ledger and the log notes afterwards.
pub open spec fn advance_all(
    orders: Seq<WorldOrder>,
    ag: Seq<WorldAgent>,
    lv: (Map<Seq<char>, u64>, Map<Seq<char>, (Seq<char>, Seq<char>, u64, EscrowState)>),
    now: Timestamp,
) -> (Seq<WorldOrder>, Seq<WorldAgent>, (Map<Seq<char>, u64>, Map<Seq<char>, (Seq<char>, Seq<char>, u64, EscrowState)>), Seq<ProgressNote>)
    decreases orders.len(),
{
    if orders.len() == 0 {
        (seq![], ag, lv, seq![])
    } else {
        let prev = advance_all(orders.drop_last(), ag, lv, now);
        let step = advance_one(orders.last(), prev.1, prev.2, now);
        (prev.0 + step.0, step.1, step.2, prev.3 + step.3)
    }
}

/// Every order has spent fewer ticks in its phase than it takes to move on.
pub open spec fn phases_in_range(orders: Seq<WorldOrder>) -> bool {
    forall|k: int| 0 <= k < orders.len() ==> (#[trigger] orders[k]).phase_ticks < PHASE_ADVANCE_TICKS
}

/// An order in this status is not finished yet.
pub open spec fn unfinished(s: OrderStatus) -> bool {
    s != OrderStatus::Delivered && s != OrderStatus::Cancelled
}

/// `o` is unfinished and held by an agent that is failed at `now`.
pub open spec fn held_by_failed(o: WorldOrder, seen: Map<Seq<char>, Timestamp>, now: Timestamp) -> bool {
    &&& o.holder is Some
    &&& failed_in(seen, holder_id(o), now, WORLD_HEARTBEAT_TIMEOUT)
    &&& unfinished(o.order.status)
}

/// An idle agent is taken offline at this tick.
pub open spec fn failure_due(tick: u64) -> bool {
    tick > 0 && tick % FAILURE_EVERY_TICKS == 0
}

/// `f` is the first idle agent.
pub open spec fn first_idle(ag: Seq<WorldAgent>, f: int) -> bool {
    &&& 0 <= f < ag.len()
    &&& ag[f].status == AgentStatus::Idle
    &&& forall|j: int| 0 <= j < f ==> ag[j].status != AgentStatus::Idle
}

/// The agents after the simulated failure of the first idle one, when one
/// is due.
pub open spec fn after_simulated_failure(ag: Seq<WorldAgent>, tick: u64) -> Seq<WorldAgent> {
    if failure_due(tick) && exists|f: int| first_idle(ag, f) {
        let f = choose|f: int| first_idle(ag, f);
        ag.update(
            f,
            WorldAgent { status: AgentStatus::Offline, offline_countdown: OFFLINE_RECOVERY_TICKS, ..ag[f] },
        )
    } else {
        ag
    }
}

/// No agent before position `k` carries the id of the agent at `k`.
pub open spec fn first_of_its_id(ag: Seq<WorldAgent>, k: int) -> bool {
    forall|j: int| 0 <= j < k ==> ag[j].id@ != ag[k].id@
}

/// Some unfinished order is held by `id`, which is failed at `now`.
pub open spec fn flagged_id(orders: Seq<WorldOrder>, seen: Map<Seq<char>, Timestamp>, now: Timestamp, id: Seq<char>) -> bool {
    exists|i: int| 0 <= i < orders.len() && held_by_failed(orders[i], seen, now) && #[trigger] holder_id(orders[i]) == id
}

/// The ids of the unfinished orders in `orders` that `id` holds, in order.
pub open spec fn held_ids(orders: Seq<WorldOrder>, id: Seq<char>) -> Seq<Seq<char>>
    decreases orders.len(),
{
    if orders.len() == 0 {
        seq![]
    } else {
        let o = orders.last();
        held_ids(orders.drop_last(), id) + (if o.holder is Some && holder_id(o) == id && unfinished(o.order.status) {
            seq![o.order.order_id@]
        } else {
            seq![]
        })
    }
}

/// For each id of `fids` in turn, the unfinished orders it holds, as pairs
/// of order id and holder id.
pub open spec fn flagged_pairs(orders: Seq<WorldOrder>, fids: Seq<Seq<char>>) -> Seq<(Seq<char>, Seq<char>)>
    decreases fids.len(),
{
    if fids.len() == 0 {
        seq![]
    } else {
        let id = fids.last();
        flagged_pairs(orders, fids.drop_last()) + held_ids(orders, id).map_values(|oid: Seq<char>| (oid, id))
    }
}

/// `evs` flag, in order, the orders of `pairs` at `tick`.
pub open spec fn flags_logged(tick: u64, pairs: Seq<(Seq<char>, Seq<char>)>, evs: Seq<WorldEvent>) -> bool {
    &&& evs.len() == pairs.len()
    &&& forall|j: int|
        0 <= j < evs.len() ==> (#[trigger] evs[j] matches WorldEvent::OrderFlagged { tick: t, order_id, failed_agent }
            && t == tick && order_id@ == pairs[j].0 && failed_agent@ == pairs[j].1)
}

/// Whether an idle agent is taken offline at `a`'s tick.
pub open spec fn takes_one_offline(a: WorldSim) -> bool {
    failure_due(a.tick) && exists|f: int| first_idle(a.agents@, f)
}

/// `b` and `evs` are what detecting failures does to `a` at `now`: the
/// first idle agent goes offline when a failure is due (logged first);
/// every unfinished order held by a failed agent loses its holder, and the
/// first agent with such a failed holder's id is marked offline.  The
/// flagged orders are logged failed agent by failed agent, in the order
/// the tracker first recorded them, each agent's orders in world order.
#[verifier::opaque]
pub open spec fn failures_detected(a: WorldSim, b: WorldSim, now: Timestamp, evs: Seq<WorldEvent>) -> bool {
    let ag1 = after_simulated_failure(a.agents@, a.tick);
    let off: int = if takes_one_offline(a) { 1 } else { 0 };
    &&& evs.len() >= off
    &&& takes_one_offline(a) ==> (evs[0] matches WorldEvent::AgentOffline { tick, id } && tick == a.tick
        && id@ == a.agents@[choose|f: int| first_idle(a.agents@, f)].id@)
    &&& flags_logged(
        a.tick,
        flagged_pairs(a.orders@, a.tracker.failed_ids(now, WORLD_HEARTBEAT_TIMEOUT)),
        evs.subrange(off, evs.len() as int),
    )
    &&& b.orders@.len() == a.orders@.len()
    &&& forall|k: int|
        0 <= k < a.orders@.len() ==> #[trigger] b.orders@[k] == (if held_by_failed(a.orders@[k], a.tracker@, now) {
            WorldOrder { holder: None, ..a.orders@[k] }
        } else {
            a.orders@[k]
        })
    &&& b.agents@.len() == ag1.len()
    &&& forall|k: int|
        0 <= k < ag1.len() ==> #[trigger] b.agents@[k] == (if first_of_its_id(ag1, k) && flagged_id(
            a.orders@,
            a.tracker@,
            now,
            ag1[k].id@,
        ) {
            WorldAgent { status: AgentStatus::Offline, ..ag1[k] }
        } else {
            ag1[k]
        })
    &&& b.ledger == a.ledger
    &&& b.tracker == a.tracker
    &&& b.safety == a.safety
    &&& b.tick == a.tick
    &&& b.order_counter == a.order_counter
    &&& b.rng == a.rng
}

/// `b` and `evs` are what updating the agents does to `a` at `now`.
#[verifier::opaque]
pub open spec fn agents_updated(a: WorldSim, b: WorldSim, now: Timestamp, evs: Seq<WorldEvent>) -> bool {
    &&& b.agents@ == a.agents@.map_values(|x: WorldAgent| updated_agent(x))
    &&& b.tracker@ == heartbeats_after(a.tracker@, a.agents@, now)
    &&& update_events_are(a.agents@, a.tick, evs)
    &&& b.orders == a.orders
    &&& b.ledger == a.ledger
    &&& b.safety == a.safety
    &&& b.tick == a.tick
    &&& b.order_counter == a.order_counter
    &&& b.rng == a.rng
}

/// `b` and `evs` are what one tick of delivery progress does to `a` at
/// `now`.
#[verifier::opaque]
pub open spec fn orders_advanced(a: WorldSim, b: WorldSim, now: Timestamp, evs: Seq<WorldEvent>) -> bool {
    let r = advance_all(a.orders@, a.agents@, ledger_v(&a.ledger), now);
    &&& b.orders@ == r.0
    &&& b.agents@ == r.1
    &&& ledger_v(&b.ledger) == r.2
    &&& notes_logged(a.tick, r.3, evs)
    &&& b.ledger.escrows().dom() == a.ledger.escrows().dom()
    &&& b.ledger.total_funds() == a.ledger.total_funds()
    &&& b.tracker == a.tracker
    &&& b.safety == a.safety
    &&& b.tick == a.tick
    &&& b.order_counter == a.order_counter
    &&& b.rng == a.rng
}

/// A tick cannot overflow: the funds fit and every order's phase counter
/// can count one more tick.
pub open spec fn world_wf(w: &WorldSim) -> bool {
    funds_fit(w) && phases_below_max(w.orders@)
}

/// No order's phase counter is at its maximum, so it can count one more
/// tick.
pub open spec fn phases_below_max(orders: Seq<WorldOrder>) -> bool {
    forall|k: int| 0 <= k < orders.len() ==> (#[trigger] orders[k]).phase_ticks < u32::MAX
}

/// `a` goes through the stages of its tick, at the tick's time, by way of
/// `s1` to `s4`, to `b` (whose tick count has then moved on by one), and the
/// stages log `e1` to `e5`.
pub open spec fn tick_stages<P: Fn(u64, u64) -> (GeoBits, GeoBits), Z: Fn(u64, u64) -> GeoBits, E: Fn(GeoBits, GeoBits) -> u32, S: Fn(&AuctionBid) -> u64>(
    a: WorldSim,
    s1: WorldSim,
    s2: WorldSim,
    s3: WorldSim,
    s4: WorldSim,
    b: WorldSim,
    place: P,
    zone_at: Z,
    eta_to: E,
    score: S,
    e1: Seq<WorldEvent>,
    e2: Seq<WorldEvent>,
    e3: Seq<WorldEvent>,
    e4: Seq<WorldEvent>,
    e5: Seq<WorldEvent>,
) -> bool {
    let now = (WORLD_BASE_T + a.tick) as u64;
    &&& agents_updated(a, s1, now, e1)
    &&& order_generated(s1, s2, now, place, eta_to, score, e2)
    &&& zones_managed(s2, s3, now, zone_at, e3)
    &&& orders_advanced(s3, s4, now, e4)
    &&& failures_detected(s4, WorldSim { tick: a.tick, ..b }, now, e5)
}

impl WorldSim {
    /// A world with the given agents, each credited the starting balance;
    /// `seed` starts the pseudo-random generator.
    pub fn new(agents: Vec<WorldAgent>, seed: u64) -> (w: Self)
        requires
            agents@.len() * STARTING_BALANCE <= u64::MAX,
        ensures
            funds_fit(&w),
            w.ledger.total_funds() == agents@.len() * STARTING_BALANCE,
            w.agents@ == agents@,
            w.orders@.len() == 0,
            w.tick == 0,
            w.order_counter == 0,
            w.rng == seed,
            w.tracker@ == Map::<Seq<char>, Timestamp>::empty(),
            w.safety.zones() == Map::<Seq<char>, SafetyZone>::empty(),
            w.ledger.escrows().dom() == Set::<Seq<char>>::empty(),
            forall|k: Seq<char>|
                #[trigger] w.ledger.balances().contains_key(k) <==> world_ids(agents@).contains(k),
            forall|k: Seq<char>|
                #[trigger] w.ledger.balances().contains_key(k) ==> w.ledger.balances()[k]
                    == id_count(world_ids(agents@), k) * STARTING_BALANCE,
    {
        let mut ledger = Ledger::new();
        let n = agents.len();
        let ghost ids = world_ids(agents@);
        let mut i: usize = 0;
        while i < n
            invariant
                n == agents@.len(),
                ids == world_ids(agents@),
                i <= n,
                n * STARTING_BALANCE <= u64::MAX,
                ledger.total_funds() == i * STARTING_BALANCE,
                ledger.balances().dom().finite(),
                ledger.escrows().dom().finite(),
                ledger.escrows().dom() == Set::<Seq<char>>::empty(),
                forall|k: Seq<char>|
                    #[trigger] ledger.balances().contains_key(k) <==> ids.take(i as int).contains(k),
                forall|k: Seq<char>|
                    #[trigger] ledger.balances().contains_key(k) ==> ledger.balances()[k] == id_count(
                        ids.take(i as int),
                        k,
                    ) * STARTING_BALANCE,
            decreases n - i,
        {
            let id = agents[i].id.as_str();
            proof {
                lemma_parts_within_total(&ledger, id@, Seq::empty());
                assert(i * STARTING_BALANCE + STARTING_BALANCE <= n * STARTING_BALANCE) by (nonlinear_arith)
                    requires i < n;
            }
            ledger.credit(id, STARTING_BALANCE);
            proof {
                let t = ids.take(i + 1);
                assert(ids[i as int] == agents@[i as int].id@);
                assert(t.drop_last() =~= ids.take(i as int));
                assert(t.last() == id@);
                assert forall|k: Seq<char>|
                    #[trigger] ledger.balances().contains_key(k) <==> t.contains(k) by {
                    if t.contains(k) && k != id@ {
                        let j = choose|j: int| 0 <= j < t.len() && t[j] == k;
                        assert(ids.take(i as int)[j] == k);
                    }
                    if ids.take(i as int).contains(k) {
                        let j = choose|j: int| 0 <= j < i && ids.take(i as int)[j] == k;
                        assert(t[j] == k);
                    }
                    if k == id@ {
                        assert(t[i as int] == k);
                    }
                }
                assert forall|k: Seq<char>| #[trigger] ledger.balances().contains_key(k) implies ledger.balances()[k]
                    == id_count(t, k) * STARTING_BALANCE by {
                    if k != id@ {
                        assert(ids.take(i as int).contains(k));
                    } else {
                        if !ids.take(i as int).contains(k) {
                            lemma_id_count_absent(ids.take(i as int), k);
                        }
                    }
                }
            }
            i = i + 1;
        }
        proof {
            assert(ids.take(n as int) =~= ids);
        }
        WorldSim {
            agents,
            orders: Vec::new(),
            ledger,
            tracker: HeartbeatTracker::new(),
            safety: SafetyMonitor::new(),
            tick: 0,
            order_counter: 0,
            rng: seed,
        }
    }

    /// Ticks performed so far.
    pub fn current_tick(&self) -> (t: u64)
        ensures
            t == self.tick,
    {
        self.tick
    }

    /// Drain batteries, count down recharges and record the heartbeats of
    /// the agents that are online; returns the log events in agent order.
    pub fn update_agents(&mut self, now: Timestamp) -> (evs: Vec<WorldEvent>)
        ensures
            agents_updated(*old(self), *final(self), now, evs@),
            final(self).ledger.total_funds() == old(self).ledger.total_funds(),
            world_wf(old(self)) ==> world_wf(final(self)),
            final(self).tick == old(self).tick,
            final(self).order_counter == old(self).order_counter,
            final(self).agents@.len() == old(self).agents@.len(),
    {
        let mut evs: Vec<WorldEvent> = Vec::new();
        let ghost before = self.agents@;
        let ghost seen0 = self.tracker@;
        let n = self.agents.len();
        let mut i: usize = 0;
        while i < n
            invariant
                n == before.len(),
                self.agents@.len() == n,
                i <= n,
                forall|k: int| 0 <= k < i ==> self.agents@[k] == updated_agent(before[k]),
                forall|k: int| i <= k < n ==> self.agents@[k] == before[k],
                self.tracker@ == heartbeats_after(seen0, before.take(i as int), now),
                update_events_are(before.take(i as int), self.tick, evs@),
                self.orders == old(self).orders,
                self.ledger == old(self).ledger,
                self.safety == old(self).safety,
                self.tick == old(self).tick,
                self.order_counter == old(self).order_counter,
                self.rng == old(self).rng,
            decreases n - i,
        {
            let ghost evs0 = evs@;
            let ghost a = before[i as int];
            let mut agent = self.agents.remove(i);
            if agent.offline_countdown > 0 {
                agent.offline_countdown = agent.offline_countdown - 1;
                if agent.offline_countdown == 0 {
                    agent.status = AgentStatus::Idle;
                    agent.battery_pct = RECHARGED_BATTERY;
                    evs.push(
                        WorldEvent::BackOnline {
                            tick: self.tick,
                            id: agent.id.clone(),
                            battery: agent.battery_pct,
                        },
                    );
                }
            } else {
                agent.battery_pct = if agent.battery_pct >= BATTERY_DRAIN_PER_TICK {
                    agent.battery_pct - BATTERY_DRAIN_PER_TICK
                } else {
                    0
                };
                if agent.status != AgentStatus::Offline {
                    self.tracker.record_heartbeat(agent.id.as_str(), now);
                }
                if agent.battery_pct == 0 && agent.status != AgentStatus::Offline {
                    agent.status = AgentStatus::Offline;
                    agent.offline_countdown = OFFLINE_RECOVERY_TICKS;
                    evs.push(WorldEvent::BatteryDepleted { tick: self.tick, id: agent.id.clone() });
                }
            }
            self.agents.insert(i, agent);
            proof {
                let t = before.take(i + 1);
                assert(t.drop_last() =~= before.take(i as int));
                assert(t.last() == a);
                lemma_heartbeats_step(seen0, before, i as int, now);
                let pos0 = logged_updates(before.take(i as int));
                let pos = logged_updates(t);
                assert forall|q: int| 0 <= q < pos0.len() implies 0 <= #[trigger] pos0[q] < i by {
                    lemma_logged_updates_in_range(before.take(i as int), q);
                }
                if update_logs(a) {
                    assert(pos == pos0.push(i as int));
                    assert forall|j: int| 0 <= j < evs@.len() implies update_event_matches(
                        t[pos[j]],
                        self.tick,
                        #[trigger] evs@[j],
                    ) by {
                        if j < evs0.len() {
                            assert(evs@[j] == evs0[j]);
                            assert(t[pos[j]] == before.take(i as int)[pos0[j]]);
                        }
                    }
                } else {
                    assert(pos == pos0);
                    assert forall|j: int| 0 <= j < evs@.len() implies update_event_matches(
                        t[pos[j]],
                        self.tick,
                        #[trigger] evs@[j],
                    ) by {
                        assert(t[pos[j]] == before.take(i as int)[pos0[j]]);
                    }
                }
            }
            i = i + 1;
        }
        proof {
            assert(before.take(n as int) =~= before);
            assert(self.agents@ =~= before.map_values(|a: WorldAgent| updated_agent(a)));
            reveal(agents_updated);
        }
        evs
    }
    /// Generate, auction and assign a new order when one is due; see
    /// [`order_generated`].
    #[verifier::rlimit(40)]
    pub fn generate_order_if_needed<P: Fn(u64, u64) -> (GeoBits, GeoBits), E: Fn(GeoBits, GeoBits) -> u32, S: Fn(&AuctionBid) -> u64>(
        &mut self,
        now: Timestamp,
        place: &P,
        eta_to: &E,
        score: &S,
    ) -> (evs: Vec<WorldEvent>)
        requires
            forall|x: u64, y: u64| #[trigger] place.requires((x, y)),
            forall|x: GeoBits, y: GeoBits| #[trigger] eta_to.requires((x, y)),
            forall|b: &AuctionBid| #[trigger] score.requires((b,)),
            old(self).order_counter < u64::MAX,
        ensures
            order_generated(*old(self), *final(self), now, *place, *eta_to, *score, evs@),
            final(self).ledger.total_funds() == old(self).ledger.total_funds(),
            final(self).agents@.len() == old(self).agents@.len(),
            world_wf(old(self)) ==> world_wf(final(self)),
            final(self).tick == old(self).tick,
    {
        let mut evs: Vec<WorldEvent> = Vec::new();
        if self.tick % ORDER_EVERY_TICKS != 0 {
            proof {
                reveal(order_generated);
            }
            return evs;
        }
        let idle_exists = any_idle(&self.agents);
        if !idle_exists {
            proof {
                reveal(order_generated);
            }
            return evs;
        }
        let ghost a0 = *self;
        let origin = self.agents[0].id.clone();
        let mut order_id = String::from_str("order-");
        let digits = decimal_text(self.order_counter);
        order_id.append(digits.as_str());
        self.order_counter = self.order_counter + 1;
        let lat_off = lcg_next(&mut self.rng) % 100;
        let lon_off = lcg_next(&mut self.rng) % 100;
        let (pickup, dropoff) = place(lat_off, lon_off);
        let (order, _) = order_fsm::create_order(order_id.as_str(), origin, pickup, dropoff, now);
        let order = match order_fsm::mark_bidding(order, now) {
            Ok(o) => o,
            Err(_) => unreached(),
        };
        evs.push(WorldEvent::OrderCreated { tick: self.tick, order_id: order_id.clone(), pickup });
        let bids = idle_bids(&self.agents, order_id.as_str(), pickup, now, eta_to);
        let winner = auction::choose_winner_id(bids.as_slice(), score);
        let ghost spec_bids = bids@;
        evs.push(WorldEvent::BidsReceived { tick: self.tick, bids });
        let winner_id = match winner {
            Some(w) => w,
            None => {
                proof {
                    lemma_idle_positions_nonempty(a0.agents@);
                }
                unreached()
            },
        };
        let ghost (sci, wi) = choose|sc: Seq<u64>, w: int|
            scored(spec_bids, *score, sc) && is_winner_at(spec_bids, sc, w) && winner_id == spec_bids[w].bidder;
        let ghost mid = *self;
        let ghost oid = order_id@;
        let ghost evs2 = evs@;
        let ghost the_order = order;
        let placed = self.place_order(order, winner_id.clone(), now);
        if placed {
            evs.push(WorldEvent::WinnerChosen { tick: self.tick, order_id, winner: winner_id });
        }
        proof {
            reveal(order_generated);
            assert(oid == world_order_id(a0.order_counter));
            assert(order_offsets(a0.rng) == (lat_off, lon_off));
            assert(evs@[0] == evs2[0]);
            assert(evs@[1] == evs2[1]);
            assert(mid.agents@ == a0.agents@);
            assert(mid.ledger == a0.ledger);
            assert(the_order.order_id@ == oid);
            let witnessed = {
                &&& place.ensures(order_offsets(a0.rng), (pickup, dropoff))
                &&& evs@.len() >= 2
                &&& (evs@[0] matches WorldEvent::OrderCreated { tick, order_id, pickup: p } && tick == a0.tick
                    && order_id@ == oid && p == pickup)
                &&& (evs@[1] matches WorldEvent::BidsReceived { tick, bids: bv } && tick == a0.tick && bv@ == spec_bids)
                &&& idle_bids_are(a0.agents@, oid, pickup, now, *eta_to, spec_bids)
                &&& scored(spec_bids, *score, sci)
                &&& is_winner_at(spec_bids, sci, wi)
            };
            assert(witnessed);
            if placed {
                assert(self.orders@.drop_last() =~= a0.orders@);
            }
        }
        evs
    }

    /// Declare a safety zone every period and clear it a fixed number of
    /// ticks later; see [`zones_managed`].
    pub fn manage_safety_zones<Z: Fn(u64, u64) -> GeoBits>(&mut self, now: Timestamp, zone_at: &Z) -> (evs:
        Vec<WorldEvent>)
        requires
            forall|x: u64, y: u64| #[trigger] zone_at.requires((x, y)),
        ensures
            zones_managed(*old(self), *final(self), now, *zone_at, evs@),
            final(self).ledger.total_funds() == old(self).ledger.total_funds(),
            world_wf(old(self)) ==> world_wf(final(self)),
            final(self).tick == old(self).tick,
            final(self).agents@.len() == old(self).agents@.len(),
    {
        let mut evs: Vec<WorldEvent> = Vec::new();
        if self.tick % SAFETY_ZONE_EVERY_TICKS == 0 && self.tick > 0 {
            let mut zone_id = String::from_str("zone-");
            let digits = decimal_text(self.tick);
            zone_id.append(digits.as_str());
            let lat_off = lcg_next(&mut self.rng) % 50;
            let lon_off = lcg_next(&mut self.rng) % 50;
            let center = zone_at(lat_off, lon_off);
            let zone = SafetyZone {
                zone_id: zone_id.clone(),
                center,
                radius_m: WORLD_ZONE_RADIUS_BITS,
                active: true,
                declared_at: now,
            };
            self.safety.add_alert(zone);
            evs.push(WorldEvent::ZoneActivated { tick: self.tick, zone_id, center });
            proof {
                assert(zone_offsets(old(self).rng) == (lat_off, lon_off));
            }
        }
        if self.tick > SAFETY_ZONE_DURATION_TICKS && self.tick % SAFETY_ZONE_EVERY_TICKS
            == SAFETY_ZONE_DURATION_TICKS % SAFETY_ZONE_EVERY_TICKS {
            let mut zone_id = String::from_str("zone-");
            let digits = decimal_text(self.tick - SAFETY_ZONE_DURATION_TICKS);
            zone_id.append(digits.as_str());
            self.safety.clear_alert(zone_id.as_str());
            evs.push(WorldEvent::ZoneCleared { tick: self.tick, zone_id });
        }
        proof {
            reveal(zones_managed);
        }
        evs
    }

    /// Advance every order through its delivery lifecycle; see
    /// [`advance_all`].  Handoff fees and final payments go through the
    /// ledger, which keeps its total.
    #[verifier::rlimit(60)]
    pub fn process_active_orders(&mut self, now: Timestamp) -> (evs: Vec<WorldEvent>)
        requires
            funds_fit(old(self)),
            phases_below_max(old(self).orders@),
        ensures
            funds_fit(final(self)),
            phases_in_range(final(self).orders@),
            final(self).ledger.total_funds() == old(self).ledger.total_funds(),
            orders_advanced(*old(self), *final(self), now, evs@),
            final(self).tick == old(self).tick,
            final(self).agents@.len() == old(self).agents@.len(),
    {
        let mut evs: Vec<WorldEvent> = Vec::new();
        let ghost orders0 = self.orders@;
        let ghost agents0 = self.agents@;
        let ghost n0 = orders0.len();
        let ghost lv0 = ledger_v(&self.ledger);
        let mut i: usize = 0;
        let ghost mut j: int = 0;
        while i < self.orders.len()
            invariant
                0 <= j <= n0,
                n0 == orders0.len(),
                funds_fit(self),
                self.ledger.total_funds() == old(self).ledger.total_funds(),
                self.agents@.len() == agents0.len(),
                self.ledger.escrows().dom() == old(self).ledger.escrows().dom(),
                phases_below_max(orders0),
                phases_in_range(advance_all(orders0.take(j), agents0, lv0, now).0),
                i == advance_all(orders0.take(j), agents0, lv0, now).0.len(),
                self.orders@ == advance_all(orders0.take(j), agents0, lv0, now).0 + orders0.subrange(j, n0 as int),
                self.agents@ == advance_all(orders0.take(j), agents0, lv0, now).1,
                ledger_v(&self.ledger) == advance_all(orders0.take(j), agents0, lv0, now).2,
                notes_logged(old(self).tick, advance_all(orders0.take(j), agents0, lv0, now).3, evs@),
                self.tracker == old(self).tracker,
                self.safety == old(self).safety,
                self.tick == old(self).tick,
                self.order_counter == old(self).order_counter,
                self.rng == old(self).rng,
            decreases n0 - j,
        {
            let ghost prev = advance_all(orders0.take(j), agents0, lv0, now);
            proof {
                assert(self.orders@[i as int] == orders0[j]);
            }
            let mut wo = self.orders.remove(i);
            let ghost o = wo;
            let ghost ag = self.agents@;
            let ghost evs0 = evs@;
            wo.phase_ticks = wo.phase_ticks + 1;
            let mut keep = true;
            if wo.phase_ticks >= PHASE_ADVANCE_TICKS {
                wo.phase_ticks = 0;
                match wo.order.status {
                    OrderStatus::Assigned => {
                        wo.order = match order_fsm::mark_pickup(wo.order, now) {
                            Ok(o) => o,
                            Err(_) => unreached(),
                        };
                        let holder = holder_text(&wo.holder);
                        evs.push(WorldEvent::PickupCompleted { tick: self.tick, order_id: wo.order.order_id.clone(), holder });
                    },
                    OrderStatus::Pickup => {
                        wo.order = match order_fsm::mark_in_transit(wo.order, now) {
                            Ok(o) => o,
                            Err(_) => unreached(),
                        };
                        let holder = holder_text(&wo.holder);
                        evs.push(WorldEvent::InTransit { tick: self.tick, order_id: wo.order.order_id.clone(), holder });
                    },
                    OrderStatus::InTransit => {
                        let holder = holder_text(&wo.holder);
                        let order_id = wo.order.order_id.clone();
                        let idle_other = if !wo.handoff_done {
                            first_idle_other_agent(&self.agents, holder.as_str())
                        } else {
                            None
                        };
                        match idle_other {
                            Some(f) => {
                                let dest = self.agents[f].id.clone();
                                proof {
                                    lemma_parts_within_total(&self.ledger, holder@, order_id@);
                                }
                                let _ = self.ledger.transfer_for_handoff(
                                    order_id.as_str(),
                                    holder.as_str(),
                                    dest.as_str(),
                                    WORLD_HANDOFF_FEE,
                                );
                                set_first_status(&mut self.agents, holder.as_str(), AgentStatus::Idle);
                                let ghost mid = self.agents@;
                                set_first_status(&mut self.agents, dest.as_str(), AgentStatus::Busy);
                                proof {
                                    lemma_set_first_is(ag, holder@, AgentStatus::Idle);
                                    lemma_set_first_is(mid, dest@, AgentStatus::Busy);
                                    let fc = choose|g: int| first_idle_other(ag, holder@, g);
                                    if fc < f {
                                        assert(!(ag[fc].id@ != holder@ && ag[fc].status == AgentStatus::Idle));
                                    } else if f < fc {
                                        assert(!(ag[f as int].id@ != holder@ && ag[f as int].status == AgentStatus::Idle));
                                    }
                                    assert(fc == f);
                                }
                                wo.holder = Some(dest.clone());
                                wo.handoff_done = true;
                                evs.push(WorldEvent::HandoffCompleted {
                                    tick: self.tick,
                                    order_id,
                                    from: holder,
                                    to: dest,
                                    fee: WORLD_HANDOFF_FEE,
                                });
                            },
                            None => {
                                let bal = self.deliver(&mut wo, holder.as_str(), now);
                                evs.push(WorldEvent::Delivered { tick: self.tick, order_id, by: holder, balance: bal });
                            },
                        }
                    },
                    OrderStatus::HandedOff => {
                        let holder = holder_text(&wo.holder);
                        let order_id = wo.order.order_id.clone();
                        let bal = self.deliver(&mut wo, holder.as_str(), now);
                        evs.push(WorldEvent::Delivered { tick: self.tick, order_id, by: holder, balance: bal });
                    },
                    OrderStatus::Delivered => {
                        keep = false;
                    },
                    _ => {},
                }
            }
            if keep {
                self.orders.insert(i, wo);
                i = i + 1;
            }
            proof {
                let t = orders0.take(j + 1);
                assert(t.drop_last() =~= orders0.take(j));
                assert(t.last() == o);
                let step = advance_one(o, prev.1, prev.2, now);
                assert(self.agents@ == step.1);
                assert(ledger_v(&self.ledger) == step.2);
                assert(evs@.len() == evs0.len() + step.3.len());
                assert forall|k: int| 0 <= k < evs@.len() implies note_logged(
                    self.tick,
                    (prev.3 + step.3)[k],
                    #[trigger] evs@[k],
                ) by {
                    if k < evs0.len() {
                        assert(evs@[k] == evs0[k]);
                    }
                }
                if keep {
                    assert(step.0 == seq![wo]);
                } else {
                    assert(step.0 =~= Seq::<WorldOrder>::empty());
                }
                assert(self.orders@ =~= advance_all(t, agents0, lv0, now).0 + orders0.subrange(j + 1, n0 as int));
                j = j + 1;
            }
        }
        proof {
            assert(j == n0) by {
                if j < n0 {
                    assert(self.orders@.len() > i);
                }
            }
            assert(orders0.take(n0 as int) =~= orders0);
            assert(orders0.subrange(n0 as int, n0 as int) =~= Seq::<WorldOrder>::empty());
            assert(self.orders@ =~= advance_all(orders0, agents0, lv0, now).0);
            reveal(orders_advanced);
        }
        evs
    }

    /// Deliver `wo` by `holder`: the order becomes delivered, the holder's
    /// first agent idle, and the escrow is paid out to the holder.  Returns
    /// the holder's balance afterwards.
    fn deliver(&mut self, wo: &mut WorldOrder, holder: &str, now: Timestamp) -> (bal: u64)
        requires
            funds_fit(old(self)),
            old(wo).order.status == OrderStatus::InTransit || old(wo).order.status == OrderStatus::HandedOff,
        ensures
            funds_fit(final(self)),
            final(self).ledger.total_funds() == old(self).ledger.total_funds(),
            *final(wo) == (WorldOrder {
                order: Order { status: OrderStatus::Delivered, updated_at: now, ..old(wo).order },
                ..*old(wo)
            }),
            final(self).agents@ == set_first(old(self).agents@, holder@, AgentStatus::Idle),
            final(self).ledger.escrows().dom() == old(self).ledger.escrows().dom(),
            final(self).orders == old(self).orders,
            final(self).tracker == old(self).tracker,
            final(self).safety == old(self).safety,
            final(self).tick == old(self).tick,
            final(self).order_counter == old(self).order_counter,
            final(self).rng == old(self).rng,
            bal == balance_in(final(self).ledger.balances(), holder@),
            ledger_v(&final(self).ledger) == finally_paid(
                old(self).ledger.balances(),
                old(self).ledger.escrow_views(),
                old(wo).order.order_id@,
                holder@,
            ),
    {
        let mut order = wo.order.duplicate();
        order = match order_fsm::mark_delivered(order, holder.to_owned(), now) {
            Ok((o, _)) => o,
            Err(_) => unreached(),
        };
        wo.order = order;
        set_first_status(&mut self.agents, holder, AgentStatus::Idle);
        proof {
            lemma_set_first_is(old(self).agents@, holder@, AgentStatus::Idle);
            lemma_parts_within_total(&self.ledger, holder@, wo.order.order_id@);
        }
        let _ = self.ledger.release_final_payment(wo.order.order_id.as_str(), holder);
        self.ledger.balance_of(holder)
    }

    /// Occasionally take an idle agent offline, then find the unfinished
    /// orders of the agents that fell silent; see [`failures_detected`].
    #[verifier::rlimit(60)]
    pub fn detect_failures(&mut self, now: Timestamp) -> (evs: Vec<WorldEvent>)
        ensures
            failures_detected(*old(self), *final(self), now, evs@),
            final(self).ledger.total_funds() == old(self).ledger.total_funds(),
            world_wf(old(self)) ==> world_wf(final(self)),
            final(self).tick == old(self).tick,
    {
        let mut evs: Vec<WorldEvent> = Vec::new();
        if self.tick > 0 && self.tick % FAILURE_EVERY_TICKS == 0 {
            match first_idle_agent(&self.agents) {
                Some(idx) => {
                    let mut a = self.agents.remove(idx);
                    a.status = AgentStatus::Offline;
                    a.offline_countdown = OFFLINE_RECOVERY_TICKS;
                    evs.push(WorldEvent::AgentOffline { tick: self.tick, id: a.id.clone() });
                    self.agents.insert(idx, a);
                    proof {
                        let fc = choose|f: int| first_idle(old(self).agents@, f);
                        if fc < idx {
                            assert(old(self).agents@[fc].status != AgentStatus::Idle);
                        } else if idx < fc {
                            assert(old(self).agents@[idx as int].status != AgentStatus::Idle);
                        }
                        assert(self.agents@ =~= after_simulated_failure(old(self).agents@, old(self).tick));
                        assert(fc == idx);
                    }
                },
                None => {},
            }
        }
        let ghost off: int = if takes_one_offline(*old(self)) { 1 } else { 0 };
        let ghost evs_off = evs@;
        proof {
            assert(evs@.len() == off);
            if takes_one_offline(*old(self)) {
                let fc = choose|f: int| first_idle(old(self).agents@, f);
                assert(evs@[0] matches WorldEvent::AgentOffline { tick, id } && tick == old(self).tick && id@
                    == old(self).agents@[fc].id@);
            }
        }
        let ghost ag1 = self.agents@;
        let ghost orders0 = self.orders@;
        let ghost seen = self.tracker@;
        proof {
            assert(ag1 == after_simulated_failure(old(self).agents@, old(self).tick));
        }
        let failed = self.tracker.detect_failed_agents(now, WORLD_HEARTBEAT_TIMEOUT);
        let nf = failed.len();
        let no = self.orders.len();
        let mut p: usize = 0;
        while p < nf
            invariant
                nf == failed@.len(),
                no == orders0.len(),
                p <= nf,
                ids_of(failed@).no_duplicates(),
                forall|id: Seq<char>| ids_of(failed@).contains(id) <==> failed_in(seen, id, now, WORLD_HEARTBEAT_TIMEOUT),
                self.orders@.len() == no,
                forall|k: int|
                    0 <= k < no ==> #[trigger] self.orders@[k] == (if held_by_failed(orders0[k], seen, now)
                        && ids_of(failed@).take(p as int).contains(holder_id(orders0[k])) {
                        WorldOrder { holder: None, ..orders0[k] }
                    } else {
                        orders0[k]
                    }),
                self.agents@.len() == ag1.len(),
                forall|k: int|
                    0 <= k < ag1.len() ==> #[trigger] self.agents@[k] == (if first_of_its_id(ag1, k)
                        && flagged_by(orders0, seen, now, ids_of(failed@).take(p as int), ag1[k].id@) {
                        WorldAgent { status: AgentStatus::Offline, ..ag1[k] }
                    } else {
                        ag1[k]
                    }),
                self.ledger == old(self).ledger,
                evs@.len() >= off,
                off == 0 || off == 1,
                evs@.subrange(0, off) == evs_off,
                flags_logged(
                    old(self).tick,
                    flagged_pairs(orders0, ids_of(failed@).take(p as int)),
                    evs@.subrange(off, evs@.len() as int),
                ),
                self.tracker@ == seen,
                self.tracker == old(self).tracker,
                self.safety == old(self).safety,
                self.tick == old(self).tick,
                self.order_counter == old(self).order_counter,
                self.rng == old(self).rng,
            decreases nf - p,
        {
            let fid = failed[p].clone();
            let ghost fids = ids_of(failed@);
            let ghost done = fids.take(p as int);
            let ghost next = fids.take(p + 1);
            proof {
                assert(fids[p as int] == fid@);
                assert(next =~= done.push(fid@));
                assert(!done.contains(fid@)) by {
                    if done.contains(fid@) {
                        let j = choose|j: int| 0 <= j < done.len() && done[j] == fid@;
                        assert(fids[j] == fids[p as int]);
                    }
                }
                assert(fids.contains(fid@));
            }
            let ghost orders_p = self.orders@;
            let ghost agents_p = self.agents@;
            let mut q: usize = 0;
            while q < no
                invariant
                    no == orders0.len(),
                    q <= no,
                    failed_in(seen, fid@, now, WORLD_HEARTBEAT_TIMEOUT),
                    !done.contains(fid@),
                    next == done.push(fid@),
                    self.orders@.len() == no,
                    forall|k: int|
                        0 <= k < no ==> #[trigger] orders_p[k] == (if held_by_failed(orders0[k], seen, now)
                            && done.contains(holder_id(orders0[k])) {
                            WorldOrder { holder: None, ..orders0[k] }
                        } else {
                            orders0[k]
                        }),
                    forall|k: int| 0 <= k < q ==> #[trigger] self.orders@[k] == (if held_by_failed(orders0[k], seen, now)
                        && next.contains(holder_id(orders0[k])) {
                        WorldOrder { holder: None, ..orders0[k] }
                    } else {
                        orders0[k]
                    }),
                    forall|k: int| q <= k < no ==> #[trigger] self.orders@[k] == orders_p[k],
                    self.agents@.len() == ag1.len(),
                    forall|k: int|
                        0 <= k < ag1.len() ==> #[trigger] agents_p[k] == (if first_of_its_id(ag1, k)
                            && flagged_by(orders0, seen, now, done, ag1[k].id@) {
                            WorldAgent { status: AgentStatus::Offline, ..ag1[k] }
                        } else {
                            ag1[k]
                        }),
                    forall|k: int|
                        0 <= k < ag1.len() ==> #[trigger] self.agents@[k] == (if first_of_its_id(ag1, k)
                            && (flagged_by(orders0, seen, now, done, ag1[k].id@) || (ag1[k].id@ == fid@
                            && flagged_before(orders0, seen, now, fid@, q as int))) {
                            WorldAgent { status: AgentStatus::Offline, ..ag1[k] }
                        } else {
                            ag1[k]
                        }),
                    self.ledger == old(self).ledger,
                    evs@.len() >= off,
                    off == 0 || off == 1,
                    evs@.subrange(0, off) == evs_off,
                    flags_logged(
                        old(self).tick,
                        flagged_pairs(orders0, done) + held_ids(orders0.take(q as int), fid@).map_values(
                            |oid: Seq<char>| (oid, fid@),
                        ),
                        evs@.subrange(off, evs@.len() as int),
                    ),
                    self.tracker == old(self).tracker,
                    self.safety == old(self).safety,
                    self.tick == old(self).tick,
                    self.order_counter == old(self).order_counter,
                    self.rng == old(self).rng,
                decreases no - q,
            {
                let ghost evs_q = evs@;
                let ghost pairs_q = flagged_pairs(orders0, done) + held_ids(orders0.take(q as int), fid@).map_values(
                    |oid: Seq<char>| (oid, fid@),
                );
                let mut wo = self.orders.remove(q);
                let ghost w0 = wo;
                let matches = match &wo.holder {
                    Some(h) => crate::text::str_eq(h.as_str(), fid.as_str()),
                    None => false,
                };
                let ghost cur = self.agents@;
                if matches && wo.order.status != OrderStatus::Delivered && wo.order.status != OrderStatus::Cancelled {
                    evs.push(
                        WorldEvent::OrderFlagged {
                            tick: self.tick,
                            order_id: wo.order.order_id.clone(),
                            failed_agent: fid.clone(),
                        },
                    );
                    wo.holder = None;
                    set_first_status(&mut self.agents, fid.as_str(), AgentStatus::Offline);
                    proof {
                        lemma_set_first_is(cur, fid@, AgentStatus::Offline);
                        lemma_mark_first_offline(ag1, cur, fid@);
                    }
                }
                self.orders.insert(q, wo);
                proof {
                    let o0 = orders0[q as int];
                    assert(w0 == orders_p[q as int]);
                    assert(matches == (w0.holder is Some && holder_id(w0) == fid@));
                    let h0 = holder_id(o0);
                    assert(next.contains(h0) == (done.contains(h0) || h0 == fid@)) by {
                        if next.contains(h0) && h0 != fid@ {
                            let j = choose|j: int| 0 <= j < next.len() && next[j] == h0;
                            assert(done[j] == h0);
                        }
                        if done.contains(h0) {
                            let j = choose|j: int| 0 <= j < done.len() && done[j] == h0;
                            assert(next[j] == h0);
                        }
                        if h0 == fid@ {
                            assert(next[done.len() as int] == h0);
                        }
                    }
                    assert(self.orders@[q as int] == wo);
                    if matches && unfinished(o0.order.status) {
                        assert(held_by_failed(orders0[q as int], seen, now));
                        assert(flagged_before(orders0, seen, now, fid@, q + 1));
                    }
                    let t = orders0.take(q + 1);
                    assert(t.drop_last() =~= orders0.take(q as int));
                    assert(t.last() == o0);
                    let hit = o0.holder is Some && h0 == fid@ && unfinished(o0.order.status);
                    assert(hit == (matches && unfinished(w0.order.status)));
                    let grown = held_ids(orders0.take(q as int), fid@) + (if hit { seq![o0.order.order_id@] } else { seq![] });
                    assert(held_ids(t, fid@) == grown);
                    lemma_pairs_grow(flagged_pairs(orders0, done), held_ids(orders0.take(q as int), fid@), fid@, hit, o0.order.order_id@);
                    if hit {
                        lemma_flag_pushed(old(self).tick, pairs_q, evs_q, off, evs@.last(), (o0.order.order_id@, fid@));
                        assert(evs@ =~= evs_q.push(evs@.last()));
                    } else {
                        assert(evs@ == evs_q);
                    }
                    assert forall|k: int| 0 <= k < ag1.len() implies #[trigger] self.agents@[k] == (if first_of_its_id(ag1, k)
                        && (flagged_by(orders0, seen, now, done, ag1[k].id@) || (ag1[k].id@ == fid@
                        && flagged_before(orders0, seen, now, fid@, q + 1))) {
                        WorldAgent { status: AgentStatus::Offline, ..ag1[k] }
                    } else {
                        ag1[k]
                    }) by {
                        lemma_flagged_before_step(orders0, seen, now, fid@, q as int);
                    }
                }
                q = q + 1;
            }
            proof {
                assert(orders0.take(no as int) =~= orders0);
                assert(next.drop_last() =~= done);
                assert(flagged_pairs(orders0, next) == flagged_pairs(orders0, done) + held_ids(orders0, fid@).map_values(
                    |oid: Seq<char>| (oid, fid@),
                ));
                assert forall|k: int|
                    0 <= k < ag1.len() implies #[trigger] self.agents@[k] == (if first_of_its_id(ag1, k)
                        && flagged_by(orders0, seen, now, next, ag1[k].id@) {
                        WorldAgent { status: AgentStatus::Offline, ..ag1[k] }
                    } else {
                        ag1[k]
                    }) by {
                    lemma_flagged_by_push(orders0, seen, now, done, fid@, ag1[k].id@);
                }
            }
            p = p + 1;
        }
        proof {
            let fids = ids_of(failed@);
            assert(fids.take(nf as int) =~= fids);
            assert forall|k: int| 0 <= k < no implies #[trigger] self.orders@[k] == (if held_by_failed(orders0[k], seen, now) {
                WorldOrder { holder: None, ..orders0[k] }
            } else {
                orders0[k]
            }) by {
                if held_by_failed(orders0[k], seen, now) {
                    assert(fids.contains(holder_id(orders0[k])));
                }
            }
            assert forall|k: int| 0 <= k < ag1.len() implies #[trigger] self.agents@[k] == (if first_of_its_id(ag1, k) && flagged_id(
                orders0,
                seen,
                now,
                ag1[k].id@,
            ) {
                WorldAgent { status: AgentStatus::Offline, ..ag1[k] }
            } else {
                ag1[k]
            }) by {
                lemma_flagged_by_all(orders0, seen, now, fids, ag1[k].id@);
            }
            assert(flagged_pairs(orders0, fids) == flagged_pairs(orders0, fids.take(nf as int)));
            if off == 1 {
                assert(evs@.subrange(0, off)[0] == evs@[0]);
                assert(evs@[0] == evs_off[0]);
            }
            assert(fids == old(self).tracker.failed_ids(now, WORLD_HEARTBEAT_TIMEOUT));
            reveal(failures_detected);
            if world_wf(old(self)) {
                assert forall|k: int| 0 <= k < self.orders@.len() implies (#[trigger] self.orders@[k]).phase_ticks
                    < u32::MAX by {
                    assert(old(self).orders@[k].phase_ticks < u32::MAX);
                }
            }
        }
        evs
    }

    /// Advance the world by one second: update the agents, generate an
    /// order when due, manage the safety zones, advance the deliveries and
    /// detect failures, in that order, at the tick's time; `score` gives
    /// each bid's `f64` score as bits.  Returns the log events of the
    /// tick, stage by stage.
    pub fn tick<P: Fn(u64, u64) -> (GeoBits, GeoBits), Z: Fn(u64, u64) -> GeoBits, E: Fn(GeoBits, GeoBits) -> u32, S: Fn(&AuctionBid) -> u64>(
        &mut self,
        place: &P,
        zone_at: &Z,
        eta_to: &E,
        score: &S,
    ) -> (evs: Vec<WorldEvent>)
        requires
            forall|x: u64, y: u64| #[trigger] place.requires((x, y)),
            forall|x: u64, y: u64| #[trigger] zone_at.requires((x, y)),
            forall|x: GeoBits, y: GeoBits| #[trigger] eta_to.requires((x, y)),
            forall|b: &AuctionBid| #[trigger] score.requires((b,)),
            world_wf(old(self)),
            old(self).order_counter < u64::MAX,
            old(self).tick + WORLD_BASE_T < u64::MAX,
        ensures
            world_wf(final(self)),
            final(self).ledger.total_funds() == old(self).ledger.total_funds(),
            final(self).tick == old(self).tick + 1,
            exists|s1: WorldSim, s2: WorldSim, s3: WorldSim, s4: WorldSim, e1: Seq<WorldEvent>, e2: Seq<WorldEvent>, e3: Seq<WorldEvent>, e4: Seq<WorldEvent>, e5: Seq<WorldEvent>|
                #[trigger] tick_stages(
                    *old(self),
                    s1,
                    s2,
                    s3,
                    s4,
                    *final(self),
                    *place,
                    *zone_at,
                    *eta_to,
                    *score,
                    e1,
                    e2,
                    e3,
                    e4,
                    e5,
                ) && evs@ == e1 + e2 + e3 + e4 + e5,
    {
        let now = WORLD_BASE_T + self.tick;
        let mut evs = self.update_agents(now);
        let ghost s1 = *self;
        let ghost e1 = evs@;
        let mut more = self.generate_order_if_needed(now, place, eta_to, score);
        let ghost s2 = *self;
        let ghost e2 = more@;
        evs.append(&mut more);
        let mut more = self.manage_safety_zones(now, zone_at);
        let ghost s3 = *self;
        let ghost e3 = more@;
        evs.append(&mut more);
        let mut more = self.process_active_orders(now);
        let ghost s4 = *self;
        let ghost e4 = more@;
        evs.append(&mut more);
        let mut more = self.detect_failures(now);
        let ghost e5 = more@;
        evs.append(&mut more);
        self.tick = self.tick + 1;
        proof {
            assert(evs@ =~= e1 + e2 + e3 + e4 + e5);
            assert(tick_stages(
                *old(self),
                s1,
                s2,
                s3,
                s4,
                *self,
                *place,
                *zone_at,
                *eta_to,
                *score,
                e1,
                e2,
                e3,
                e4,
                e5,
            ));
        }
        evs
    }

    /// Reserve the escrow of `order` from the first agent and, when that
    /// succeeds, assign the order to `winner`, mark the winner's first agent
    /// busy and add the order to the world.  Returns whether it did.
    fn place_order(&mut self, order: Order, winner: NodeId, now: Timestamp) -> (placed: bool)
        requires
            old(self).agents@.len() > 0,
            order.status == OrderStatus::Bidding,
        ensures
            final(self).tracker == old(self).tracker,
            final(self).safety == old(self).safety,
            final(self).tick == old(self).tick,
            final(self).order_counter == old(self).order_counter,
            final(self).rng == old(self).rng,
            final(self).agents@.len() == old(self).agents@.len(),
            final(self).ledger.total_funds() == old(self).ledger.total_funds(),
            old(self).ledger.balances().dom().finite() ==> final(self).ledger.balances().dom().finite(),
            old(self).ledger.escrows().dom().finite() ==> final(self).ledger.escrows().dom().finite(),
            ({
                let payer = old(self).agents@[0].id;
                let have = balance_in(old(self).ledger.balances(), payer@);
                let oid = order.order_id@;
                if have >= WORLD_ESCROW && !old(self).ledger.escrows().contains_key(oid) {
                    &&& placed
                    &&& final(self).ledger.balances() == old(self).ledger.balances().insert(payer@, (have - WORLD_ESCROW) as u64)
                    &&& final(self).ledger.escrows().dom() == old(self).ledger.escrows().dom().insert(oid)
                    &&& crate::domain::ledger::entry_is(
                        final(self).ledger.escrows()[oid],
                        payer@,
                        Seq::empty(),
                        WORLD_ESCROW,
                        crate::domain::ledger::EscrowState::Reserved,
                    )
                    &&& forall|k: Seq<char>| k != oid ==> #[trigger] final(self).ledger.escrows()[k] == old(self).ledger.escrows()[k]
                    &&& first_set_to(old(self).agents@, winner@, AgentStatus::Busy, final(self).agents@)
                    &&& final(self).orders@ == old(self).orders@.push(
                        WorldOrder {
                            order: Order {
                                status: OrderStatus::Assigned,
                                assigned_to: Some(winner),
                                updated_at: now,
                                ..order
                            },
                            phase_ticks: 0,
                            holder: Some(winner),
                            handoff_done: false,
                            escrow_reserved: true,
                        },
                    )
                } else {
                    &&& !placed
                    &&& final(self).agents@ == old(self).agents@
                    &&& final(self).orders@ == old(self).orders@
                    &&& final(self).ledger.balances() == old(self).ledger.balances()
                    &&& final(self).ledger.escrows() == old(self).ledger.escrows()
                }
            }),
    {
        let payer = self.agents[0].id.as_str();
        let have = self.ledger.balance_of(payer);
        if have < WORLD_ESCROW {
            return false;
        }
        match self.ledger.reserve_escrow(order.order_id.as_str(), payer, WORLD_ESCROW) {
            Ok(()) => {},
            Err(_) => {
                return false;
            },
        }
        let order = match order_fsm::assign_order(order, winner.clone(), now) {
            Ok((o, _)) => o,
            Err(_) => unreached(),
        };
        set_first_status(&mut self.agents, winner.as_str(), AgentStatus::Busy);
        self.orders.push(
            WorldOrder {
                order,
                phase_ticks: 0,
                holder: Some(winner),
                handoff_done: false,
                escrow_reserved: true,
            },
        );
        true
    }
}

/// The holder's id as text (empty when no agent holds the order).
fn holder_text(h: &Option<NodeId>) -> (r: String)
    ensures
        r@ == (match *h {
            Some(x) => x@,
            None => Seq::<char>::empty(),
        }),
{
    match h {
        Some(x) => x.clone(),
        None => String::new(),
    }
}

/// The first idle agent whose id is not `h`, if any.
fn first_idle_other_agent(agents: &Vec<WorldAgent>, h: &str) -> (r: Option<usize>)
    ensures
        match r {
            Some(f) => first_idle_other(agents@, h@, f as int),
            None => forall|f: int| !first_idle_other(agents@, h@, f),
        },
{
    let n = agents.len();
    let mut i: usize = 0;
    while i < n
        invariant
            n == agents@.len(),
            i <= n,
            forall|j: int| 0 <= j < i ==> !(agents@[j].id@ != h@ && agents@[j].status == AgentStatus::Idle),
        decreases n - i,
    {
        if !crate::text::str_eq(agents[i].id.as_str(), h) && agents[i].status == AgentStatus::Idle {
            return Some(i);
        }
        i = i + 1;
    }
    proof {
        assert forall|f: int| !first_idle_other(agents@, h@, f) by {
            if 0 <= f < n {
                assert(!(agents@[f].id@ != h@ && agents@[f].status == AgentStatus::Idle));
            }
        }
    }
    None
}

/// The relation [`first_set_to`] names the function [`set_first`].
proof fn lemma_set_first_is(a: Seq<WorldAgent>, id: Seq<char>, st: AgentStatus)
    ensures
        forall|b: Seq<WorldAgent>| first_set_to(a, id, st, b) ==> b == set_first(a, id, st),
{
    assert forall|b: Seq<WorldAgent>| first_set_to(a, id, st, b) implies b == set_first(a, id, st) by {
        if exists|f: int| first_world_agent(a, id, f) {
            let f1 = choose|f: int| first_world_agent(a, id, f) && b == a.update(f, WorldAgent { status: st, ..a[f] });
            let f2 = choose|f: int| first_world_agent(a, id, f);
            if f1 < f2 {
                assert(a[f1].id@ != id);
            } else if f2 < f1 {
                assert(a[f2].id@ != id);
            }
        }
    }
}

/// Some unfinished order is held by a failed agent whose id is `id` and
/// among `ids`.
pub open spec fn flagged_by(
    orders: Seq<WorldOrder>,
    seen: Map<Seq<char>, Timestamp>,
    now: Timestamp,
    ids: Seq<Seq<char>>,
    id: Seq<char>,
) -> bool {
    ids.contains(id) && flagged_id(orders, seen, now, id)
}

/// Among the first `q` orders, some unfinished one is held by the failed
/// agent `id`.
pub open spec fn flagged_before(
    orders: Seq<WorldOrder>,
    seen: Map<Seq<char>, Timestamp>,
    now: Timestamp,
    id: Seq<char>,
    q: int,
) -> bool {
    exists|i: int| 0 <= i < q && held_by_failed(orders[i], seen, now) && #[trigger] holder_id(orders[i]) == id
}

/// Looking at one more order extends what was flagged before it.
proof fn lemma_flagged_before_step(
    orders: Seq<WorldOrder>,
    seen: Map<Seq<char>, Timestamp>,
    now: Timestamp,
    id: Seq<char>,
    q: int,
)
    requires
        0 <= q < orders.len(),
    ensures
        flagged_before(orders, seen, now, id, q + 1) == (flagged_before(orders, seen, now, id, q) || (
        held_by_failed(orders[q], seen, now) && holder_id(orders[q]) == id)),
{
    if flagged_before(orders, seen, now, id, q + 1) {
        let i = choose|i: int| 0 <= i < q + 1 && held_by_failed(orders[i], seen, now) && #[trigger] holder_id(orders[i]) == id;
        if i < q {
            assert(flagged_before(orders, seen, now, id, q));
        }
    }
    if held_by_failed(orders[q], seen, now) && holder_id(orders[q]) == id {
        assert(flagged_before(orders, seen, now, id, q + 1));
    }
}

/// Flagging by one more failed id.
proof fn lemma_flagged_by_push(
    orders: Seq<WorldOrder>,
    seen: Map<Seq<char>, Timestamp>,
    now: Timestamp,
    done: Seq<Seq<char>>,
    fid: Seq<char>,
    id: Seq<char>,
)
    ensures
        flagged_by(orders, seen, now, done.push(fid), id) == (flagged_by(orders, seen, now, done, id) || (id
            == fid && flagged_before(orders, seen, now, fid, orders.len() as int))),
{
    if done.push(fid).contains(id) && id != fid {
        let j = choose|j: int| 0 <= j < done.push(fid).len() && done.push(fid)[j] == id;
        assert(done[j] == id);
    }
    if done.contains(id) {
        let j = choose|j: int| 0 <= j < done.len() && done[j] == id;
        assert(done.push(fid)[j] == id);
    }
    if id == fid {
        assert(done.push(fid)[done.len() as int] == id);
    }
    if flagged_id(orders, seen, now, id) {
        let i = choose|i: int| 0 <= i < orders.len() && held_by_failed(orders[i], seen, now) && #[trigger] holder_id(orders[i]) == id;
        assert(flagged_before(orders, seen, now, id, orders.len() as int));
    }
    if flagged_before(orders, seen, now, fid, orders.len() as int) {
        let i = choose|i: int| 0 <= i < orders.len() as int && held_by_failed(orders[i], seen, now) && #[trigger] holder_id(orders[i]) == fid;
        assert(flagged_id(orders, seen, now, fid));
    }
}

/// Once every failed id is considered, flagging is by failure alone.
proof fn lemma_flagged_by_all(
    orders: Seq<WorldOrder>,
    seen: Map<Seq<char>, Timestamp>,
    now: Timestamp,
    fids: Seq<Seq<char>>,
    id: Seq<char>,
)
    requires
        forall|x: Seq<char>| fids.contains(x) <==> failed_in(seen, x, now, WORLD_HEARTBEAT_TIMEOUT),
    ensures
        flagged_by(orders, seen, now, fids, id) == flagged_id(orders, seen, now, id),
{
    if flagged_id(orders, seen, now, id) {
        let i = choose|i: int| 0 <= i < orders.len() && held_by_failed(orders[i], seen, now) && #[trigger] holder_id(orders[i]) == id;
        assert(failed_in(seen, id, now, WORLD_HEARTBEAT_TIMEOUT));
    }
}

/// Marking the first agent with `fid` offline on agents whose ids are
/// those of `ag1`: it is the first agent of `ag1` with that id.
proof fn lemma_mark_first_offline(ag1: Seq<WorldAgent>, cur: Seq<WorldAgent>, fid: Seq<char>)
    requires
        cur.len() == ag1.len(),
        forall|k: int| 0 <= k < ag1.len() ==> (#[trigger] cur[k]).id == ag1[k].id,
        forall|k: int|
            0 <= k < ag1.len() ==> ((#[trigger] cur[k]) == ag1[k] || cur[k] == (WorldAgent {
                status: AgentStatus::Offline,
                ..ag1[k]
            })),
    ensures
        forall|k: int|
            0 <= k < ag1.len() ==> #[trigger] set_first(cur, fid, AgentStatus::Offline)[k] == (if first_of_its_id(ag1, k)
                && ag1[k].id@ == fid {
                (WorldAgent { status: AgentStatus::Offline, ..ag1[k] })
            } else {
                cur[k]
            }),
{
    let r = set_first(cur, fid, AgentStatus::Offline);
    assert forall|k: int| 0 <= k < ag1.len() implies #[trigger] r[k] == (if first_of_its_id(ag1, k) && ag1[k].id@ == fid {
        WorldAgent { status: AgentStatus::Offline, ..ag1[k] }
    } else {
        cur[k]
    }) by {
        if exists|f: int| first_world_agent(cur, fid, f) {
            let f = choose|f: int| first_world_agent(cur, fid, f);
            assert(cur[f].id == ag1[f].id);
            if k == f {
                assert forall|j: int| 0 <= j < k implies ag1[j].id@ != ag1[k].id@ by {
                    assert(cur[j].id == ag1[j].id);
                }
            } else if k < f {
                assert(cur[k].id == ag1[k].id);
            } else {
                assert(cur[k].id == ag1[k].id);
                if ag1[k].id@ == fid {
                    assert(ag1[f].id@ == ag1[k].id@);
                }
            }
        } else {
            if first_of_its_id(ag1, k) && ag1[k].id@ == fid {
                assert(cur[k].id == ag1[k].id);
                assert forall|j: int| 0 <= j < k implies cur[j].id@ != fid by {
                    assert(cur[j].id == ag1[j].id);
                }
                assert(first_world_agent(cur, fid, k));
            }
        }
    }
}

/// The first idle agent, if any.
fn first_idle_agent(agents: &Vec<WorldAgent>) -> (r: Option<usize>)
    ensures
        match r {
            Some(f) => first_idle(agents@, f as int),
            None => forall|f: int| !first_idle(agents@, f),
        },
{
    let n = agents.len();
    let mut i: usize = 0;
    while i < n
        invariant
            n == agents@.len(),
            i <= n,
            forall|j: int| 0 <= j < i ==> agents@[j].status != AgentStatus::Idle,
        decreases n - i,
    {
        if agents[i].status == AgentStatus::Idle {
            return Some(i);
        }
        i = i + 1;
    }
    None
}

/// Whether some agent is idle.
fn any_idle(agents: &Vec<WorldAgent>) -> (r: bool)
    ensures
        r == exists|i: int| 0 <= i < agents@.len() && (#[trigger] agents@[i]).status == AgentStatus::Idle,
{
    let n = agents.len();
    let mut i: usize = 0;
    while i < n
        invariant
            n == agents@.len(),
            i <= n,
            forall|j: int| 0 <= j < i ==> agents@[j].status != AgentStatus::Idle,
        decreases n - i,
    {
        if agents[i].status == AgentStatus::Idle {
            return true;
        }
        i = i + 1;
    }
    false
}

/// The idle agents' bids for `order_id`, in agent order.
fn idle_bids<E: Fn(GeoBits, GeoBits) -> u32>(
    agents: &Vec<WorldAgent>,
    order_id: &str,
    pickup: GeoBits,
    now: Timestamp,
    eta_to: &E,
) -> (bids: Vec<AuctionBid>)
    requires
        forall|x: GeoBits, y: GeoBits| #[trigger] eta_to.requires((x, y)),
    ensures
        idle_bids_are(agents@, order_id@, pickup, now, *eta_to, bids@),
{
    let mut bids: Vec<AuctionBid> = Vec::new();
    let n = agents.len();
    let mut i: usize = 0;
    while i < n
        invariant
            n == agents@.len(),
            i <= n,
            forall|x: GeoBits, y: GeoBits| #[trigger] eta_to.requires((x, y)),
            idle_bids_are(agents@.take(i as int), order_id@, pickup, now, *eta_to, bids@),
        decreases n - i,
    {
        let ghost b0 = bids@;
        let a = &agents[i];
        if a.status == AgentStatus::Idle {
            let eta = eta_to(a.location, pickup);
            bids.push(
                AuctionBid {
                    order_id: order_id.to_owned(),
                    bidder: a.id.clone(),
                    eta_s: eta,
                    battery_pct: a.battery_pct,
                    submitted_at: now,
                },
            );
        }
        proof {
            let t = agents@.take(i + 1);
            let t0 = agents@.take(i as int);
            assert(t.drop_last() =~= t0);
            let pos0 = idle_positions(t0);
            let pos = idle_positions(t);
            assert forall|q: int| 0 <= q < pos0.len() implies 0 <= #[trigger] pos0[q] < i by {
                lemma_idle_positions_in_range(t0, q);
            }
            assert forall|j: int| 0 <= j < bids@.len() implies {
                let ag = t[pos[j]];
                &&& (#[trigger] bids@[j]).order_id@ == order_id@
                &&& bids@[j].bidder == ag.id
                &&& bids@[j].battery_pct == ag.battery_pct
                &&& bids@[j].submitted_at == now
                &&& eta_to.ensures((ag.location, pickup), bids@[j].eta_s)
            } by {
                if j < b0.len() {
                    assert(bids@[j] == b0[j]);
                    assert(t[pos[j]] == t0[pos0[j]]);
                }
            }
        }
        i = i + 1;
    }
    proof {
        assert(agents@.take(n as int) =~= agents@);
    }
    bids
}

/// Set the first agent carrying `id`, if any, to `st`.
fn set_first_status(agents: &mut Vec<WorldAgent>, id: &str, st: AgentStatus)
    ensures
        first_set_to(old(agents)@, id@, st, final(agents)@),
{
    let n = agents.len();
    let mut i: usize = 0;
    while i < n
        invariant
            n == agents@.len(),
            agents@ == old(agents)@,
            i <= n,
            forall|j: int| 0 <= j < i ==> agents@[j].id@ != id@,
        decreases n - i,
    {
        if crate::text::str_eq(agents[i].id.as_str(), id) {
            let mut a = agents.remove(i);
            a.status = st;
            agents.insert(i, a);
            proof {
                assert(first_world_agent(old(agents)@, id@, i as int));
                assert(agents@ =~= old(agents)@.update(
                    i as int,
                    WorldAgent { status: st, ..old(agents)@[i as int] },
                ));
            }
            return;
        }
        i = i + 1;
    }
    proof {
        assert forall|f: int| !first_world_agent(old(agents)@, id@, f) by {}
    }
}

/// Idle positions lie within the list.
proof fn lemma_idle_positions_in_range(agents: Seq<WorldAgent>, q: int)
    requires
        0 <= q < idle_positions(agents).len(),
    ensures
        0 <= idle_positions(agents)[q] < agents.len(),
    decreases agents.len(),
{
    let rest = idle_positions(agents.drop_last());
    if q < rest.len() {
        lemma_idle_positions_in_range(agents.drop_last(), q);
    }
}

/// Some idle agent means some idle position.
proof fn lemma_idle_positions_nonempty(agents: Seq<WorldAgent>)
    requires
        exists|i: int| 0 <= i < agents.len() && (#[trigger] agents[i]).status == AgentStatus::Idle,
    ensures
        idle_positions(agents).len() > 0,
    decreases agents.len(),
{
    if agents.last().status != AgentStatus::Idle {
        let i = choose|i: int| 0 <= i < agents.len() && (#[trigger] agents[i]).status == AgentStatus::Idle;
        assert(agents.drop_last()[i] == agents[i]);
        lemma_idle_positions_nonempty(agents.drop_last());
    }
}

/// An id that does not occur is counted zero times.
proof fn lemma_id_count_absent(ids: Seq<Seq<char>>, k: Seq<char>)
    requires
        !ids.contains(k),
    ensures
        id_count(ids, k) == 0,
    decreases ids.len(),
{
    if ids.len() > 0 {
        assert(!ids.drop_last().contains(k)) by {
            if ids.drop_last().contains(k) {
                let j = choose|j: int| 0 <= j < ids.drop_last().len() && ids.drop_last()[j] == k;
                assert(ids[j] == k);
            }
        }
        lemma_id_count_absent(ids.drop_last(), k);
        assert(ids[ids.len() - 1] != k);
    }
}

/// Logged update positions lie within the list.
proof fn lemma_logged_updates_in_range(agents: Seq<WorldAgent>, q: int)
    requires
        0 <= q < logged_updates(agents).len(),
    ensures
        0 <= logged_updates(agents)[q] < agents.len(),
    decreases agents.len(),
{
    let rest = logged_updates(agents.drop_last());
    if q < rest.len() {
        lemma_logged_updates_in_range(agents.drop_last(), q);
    }
}

/// Reporting one more agent's heartbeat extends the record accordingly.
proof fn lemma_heartbeats_step(seen: Map<Seq<char>, Timestamp>, agents: Seq<WorldAgent>, i: int, now: Timestamp)
    requires
        0 <= i < agents.len(),
    ensures
        heartbeats_after(seen, agents.take(i + 1), now) == (if reports_heartbeat(agents[i]) {
            heartbeats_after(seen, agents.take(i), now).insert(agents[i].id@, now)
        } else {
            heartbeats_after(seen, agents.take(i), now)
        }),
{
    let a = agents.take(i);
    let b = agents.take(i + 1);
    let lhs = heartbeats_after(seen, b, now);
    let prev = heartbeats_after(seen, a, now);
    let rhs = if reports_heartbeat(agents[i]) { prev.insert(agents[i].id@, now) } else { prev };
    assert forall|k: Seq<char>| lhs.contains_key(k) <==> rhs.contains_key(k) by {
        if exists|j: int| 0 <= j < b.len() && reports_heartbeat(b[j]) && #[trigger] b[j].id@ == k {
            let j = choose|j: int| 0 <= j < b.len() && reports_heartbeat(b[j]) && #[trigger] b[j].id@ == k;
            if j < i {
                assert(a[j] == b[j]);
            }
        }
        if exists|j: int| 0 <= j < a.len() && reports_heartbeat(a[j]) && #[trigger] a[j].id@ == k {
            let j = choose|j: int| 0 <= j < a.len() && reports_heartbeat(a[j]) && #[trigger] a[j].id@ == k;
            assert(b[j] == a[j]);
        }
        if reports_heartbeat(agents[i]) && k == agents[i].id@ {
            assert(b[i] == agents[i]);
        }
    }
    assert forall|k: Seq<char>| lhs.contains_key(k) implies lhs[k] == rhs[k] by {
        if exists|j: int| 0 <= j < b.len() && reports_heartbeat(b[j]) && #[trigger] b[j].id@ == k {
            let j = choose|j: int| 0 <= j < b.len() && reports_heartbeat(b[j]) && #[trigger] b[j].id@ == k;
            if j < i {
                assert(a[j] == b[j]);
            }
        }
        if exists|j: int| 0 <= j < a.len() && reports_heartbeat(a[j]) && #[trigger] a[j].id@ == k {
            let j = choose|j: int| 0 <= j < a.len() && reports_heartbeat(a[j]) && #[trigger] a[j].id@ == k;
            assert(b[j] == a[j]);
        }
        if reports_heartbeat(agents[i]) && k == agents[i].id@ {
            assert(b[i] == agents[i]);
        }
    }
    assert(lhs =~= rhs);
}


/// Pushing one flag event for one more pair keeps the flags logged.
proof fn lemma_flag_pushed(
    tick: u64,
    pairs: Seq<(Seq<char>, Seq<char>)>,
    evs: Seq<WorldEvent>,
    off: int,
    ev: WorldEvent,
    pair: (Seq<char>, Seq<char>),
)
    requires
        0 <= off <= evs.len(),
        flags_logged(tick, pairs, evs.subrange(off, evs.len() as int)),
        ev matches WorldEvent::OrderFlagged { tick: t, order_id, failed_agent } && t == tick && order_id@
            == pair.0 && failed_agent@ == pair.1,
    ensures
        flags_logged(tick, pairs.push(pair), evs.push(ev).subrange(off, evs.len() + 1int)),
        evs.push(ev).subrange(0, off) == evs.subrange(0, off),
{
    let a = evs.subrange(off, evs.len() as int);
    assert(evs.push(ev).subrange(off, evs.len() + 1int) =~= a.push(ev));
    assert(evs.push(ev).subrange(0, off) =~= evs.subrange(0, off));
}

/// The pairs of a holder grow with its held orders.
proof fn lemma_pairs_grow(
    before: Seq<(Seq<char>, Seq<char>)>,
    held: Seq<Seq<char>>,
    id: Seq<char>,
    hit: bool,
    oid: Seq<char>,
)
    ensures
        before + (held + (if hit { seq![oid] } else { seq![] })).map_values(|o: Seq<char>| (o, id)) == (if hit {
            (before + held.map_values(|o: Seq<char>| (o, id))).push((oid, id))
        } else {
            before + held.map_values(|o: Seq<char>| (o, id))
        }),
{
    if hit {
        assert(before + (held + seq![oid]).map_values(|o: Seq<char>| (o, id)) =~= (before + held.map_values(
            |o: Seq<char>| (o, id),
        )).push((oid, id)));
    } else {
        assert(held + seq![] =~= held);
    }
}

} // verus!
