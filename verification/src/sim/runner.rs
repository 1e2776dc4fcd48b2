//! The end-to-end MVP flow and the simple scenario runner.
//!
//! The flow creates an order, collects one bid per agent, picks the winner,
//! reserves escrow, moves the order through pickup and transit, hands it
//! off when there are three or more agents, delivers it, settles the
//! ledger, lets the first agent fall silent to find the orders that need a
//! new auction, and declares a safety zone at the pickup point.

use vstd::prelude::*;

use crate::config::AppConfig;
use crate::domain::auction::{self, is_winner_at, scored};
use crate::domain::handoff as handoff_domain;
use crate::domain::healing::{ids_of, HeartbeatTracker};
use crate::domain::ledger::{balance_in, Ledger};
use crate::domain::order as order_fsm;
use crate::domain::safety::SafetyMonitor;
use crate::types::{AgentState, AgentStatus, AuctionBid, GeoBits, NodeId, OrderStatus, SafetyZone, Timestamp};

verus! {

/// The time at which the MVP flow runs.
pub const MVP_BASE_T: Timestamp = 1_700_000_000;

/// Escrow the order's originator reserves for the delivery.
pub const ESCROW_AMOUNT: u64 = 300;

/// Fee paid to the outgoing agent of a handoff.
pub const HANDOFF_FEE: u64 = 100;

/// Seconds of silence after which an agent counts as failed.
pub const HEARTBEAT_TIMEOUT: u64 = 30;

/// Pickup point (40.7128, -74.0060), as `f64` bit patterns.
pub const PICKUP_X_BITS: u64 = 0x40445b3d07c84b5e;
pub const PICKUP_Y_BITS: u64 = 0xc05280624dd2f1aa;

/// Dropoff point (40.7580, -73.9855), as `f64` bit patterns.
pub const DROPOFF_X_BITS: u64 = 0x4044610624dd2f1b;
pub const DROPOFF_Y_BITS: u64 = 0xc0527f126e978d50;

/// Radius 0.01 of the zone declared at the pickup point, as `f32` bits.
pub const PICKUP_ZONE_RADIUS_BITS: u32 = 0x3c23d70a;

/// The pickup point of the simulated orders.
pub open spec fn pickup_point() -> GeoBits {
    GeoBits { x_bits: PICKUP_X_BITS, y_bits: PICKUP_Y_BITS }
}

/// The dropoff point of the simulated orders.
pub open spec fn dropoff_point() -> GeoBits {
    GeoBits { x_bits: DROPOFF_X_BITS, y_bits: DROPOFF_Y_BITS }
}

/// The pickup point of the simulated orders.
pub fn pickup() -> (p: GeoBits)
    ensures
        p == pickup_point(),
{
    GeoBits { x_bits: PICKUP_X_BITS, y_bits: PICKUP_Y_BITS }
}

/// The dropoff point of the simulated orders.
pub fn dropoff() -> (p: GeoBits)
    ensures
        p == dropoff_point(),
{
    GeoBits { x_bits: DROPOFF_X_BITS, y_bits: DROPOFF_Y_BITS }
}

/// Why a simulated scenario could not run.
#[derive(Debug, Clone, Copy, PartialEq, Eq, Structural)]
pub enum FlowError {
    /// The MVP flow needs at least two agents.
    TooFewAgents,
    /// The scenario runner needs at least one agent.
    NoAgents,
}

impl FlowError {
    /// The error's text.
    pub fn message(&self) -> (r: String)
        ensures
            r@ == (match *self {
                FlowError::TooFewAgents => "run_mvp_flow requires at least 2 agent configs"@,
                FlowError::NoAgents => "Runner requires at least one agent"@,
            }),
    {
        match self {
            FlowError::TooFewAgents => String::from_str("run_mvp_flow requires at least 2 agent configs"),
            FlowError::NoAgents => String::from_str("Runner requires at least one agent"),
        }
    }
}

/// What the MVP flow reports.
#[derive(Debug)]
pub struct MvpFlowResult {
    pub order_id: String,
    pub winner_id: NodeId,
    pub final_order_status: OrderStatus,
    pub delivering_agent_balance: u64,
    pub reauction_candidates: Vec<String>,
    pub safety_paused: bool,
}

/// A simulated agent: its configuration and its current state.
pub struct SimAgent {
    pub config: AppConfig,
    pub state: AgentState,
}

/// The state a simulated agent starts in: idle at its configured position
/// with its configured battery.
pub open spec fn initial_state(config: AppConfig) -> AgentState {
    AgentState {
        node_id: config.node_id,
        kind: config.agent_kind,
        status: AgentStatus::Idle,
        location: config.position(),
        battery_pct: config.battery,
        updated_at: 0,
    }
}

/// `b` is `a`'s bid for `order_id` with pickup at `pickup`: its ETA is what
/// `eta_to` answered for the agent's location and the pickup point.
pub open spec fn is_sim_bid<E: Fn(GeoBits, GeoBits) -> u32>(
    b: AuctionBid,
    a: SimAgent,
    order_id: Seq<char>,
    pickup: GeoBits,
    eta_to: E,
) -> bool {
    &&& b.order_id@ == order_id
    &&& b.bidder == a.config.node_id
    &&& b.battery_pct == a.state.battery_pct
    &&& b.submitted_at == 0
    &&& eta_to.ensures((a.state.location, pickup), b.eta_s)
}

/// The node ids of a list of agents.
pub open spec fn agent_ids(agents: Seq<SimAgent>) -> Seq<Seq<char>> {
    agents.map_values(|a: SimAgent| a.config.node_id@)
}

/// Some agent after the first has the first agent's id.
pub open spec fn first_id_repeated(ids: Seq<Seq<char>>) -> bool {
    exists|j: int| 1 <= j < ids.len() && #[trigger] ids[j] == ids[0]
}

/// The list holds two different ids.
pub open spec fn has_two_ids(ids: Seq<Seq<char>>) -> bool {
    exists|i: int, j: int| 0 <= i < ids.len() && 0 <= j < ids.len() && ids[i] != ids[j]
}

/// The orders that need a new auction after the first agent falls silent:
/// the probe order `probe` unless another agent shares the first agent's id.
pub open spec fn silent_first_candidates(ids: Seq<Seq<char>>, probe: Seq<char>) -> Seq<Seq<char>> {
    if first_id_repeated(ids) {
        seq![]
    } else {
        seq![probe]
    }
}

/// `z` is the zone the flow declares at the pickup point at time `t`.
pub open spec fn is_pickup_zone(z: SafetyZone, t: Timestamp) -> bool {
    &&& z.zone_id@ == "zone-alpha"@
    &&& z.center == pickup_point()
    &&& z.radius_m == PICKUP_ZONE_RADIUS_BITS
    &&& z.active
    &&& z.declared_at == t
}

impl SimAgent {
    /// An agent in its initial state for `config`.
    pub fn new(config: AppConfig) -> (a: Self)
        ensures
            a.config == config,
            a.state == initial_state(config),
    {
        let state = AgentState {
            node_id: config.node_id.clone(),
            kind: config.agent_kind,
            status: AgentStatus::Idle,
            location: config.position_bits(),
            battery_pct: config.battery,
            updated_at: 0,
        };
        SimAgent { config, state }
    }

    /// This agent's bid for `order_id` with pickup at `pickup`, its ETA
    /// given by `eta_to`.
    pub fn build_bid<E: Fn(GeoBits, GeoBits) -> u32>(&self, order_id: &str, pickup: GeoBits, eta_to: &E) -> (b:
        AuctionBid)
        requires
            forall|x: GeoBits, y: GeoBits| #[trigger] eta_to.requires((x, y)),
        ensures
            is_sim_bid(b, *self, order_id@, pickup, *eta_to),
    {
        let eta_s = eta_to(self.state.location, pickup);
        AuctionBid {
            order_id: order_id.to_owned(),
            bidder: self.config.node_id.clone(),
            eta_s,
            battery_pct: self.state.battery_pct,
            submitted_at: 0,
        }
    }
}

/// One agent per configuration, each in its initial state.
pub fn make_agents(configs: Vec<AppConfig>) -> (agents: Vec<SimAgent>)
    ensures
        agents@.len() == configs@.len(),
        forall|i: int|
            0 <= i < configs@.len() ==> (#[trigger] agents@[i]).config == configs@[i]
                && agents@[i].state == initial_state(configs@[i]),
{
    let ghost all = configs@;
    let mut rest = configs;
    let mut agents: Vec<SimAgent> = Vec::new();
    while rest.len() > 0
        invariant
            agents@.len() + rest@.len() == all.len(),
            rest@ == all.subrange(agents@.len() as int, all.len() as int),
            forall|k: int|
                0 <= k < agents@.len() ==> (#[trigger] agents@[k]).config == all[k] && agents@[k].state
                    == initial_state(all[k]),
        decreases rest@.len(),
    {
        let c = rest.remove(0);
        proof {
            assert(c == all[agents@.len() as int]);
        }
        agents.push(SimAgent::new(c));
        proof {
            assert(rest@ =~= all.subrange(agents@.len() as int, all.len() as int));
        }
    }
    agents
}

/// Every agent's bid for `order_id`, in agent order.
pub fn collect_bids<E: Fn(GeoBits, GeoBits) -> u32>(
    agents: &Vec<SimAgent>,
    order_id: &str,
    pickup: GeoBits,
    eta_to: &E,
) -> (bids: Vec<AuctionBid>)
    requires
        forall|x: GeoBits, y: GeoBits| #[trigger] eta_to.requires((x, y)),
    ensures
        bids@.len() == agents@.len(),
        forall|i: int|
            0 <= i < agents@.len() ==> is_sim_bid(
                #[trigger] bids@[i],
                agents@[i],
                order_id@,
                pickup,
                *eta_to,
            ),
{
    let mut bids: Vec<AuctionBid> = Vec::new();
    let n = agents.len();
    let mut i: usize = 0;
    while i < n
        invariant
            n == agents@.len(),
            i <= n,
            bids@.len() == i,
            forall|x: GeoBits, y: GeoBits| #[trigger] eta_to.requires((x, y)),
            forall|k: int|
                0 <= k < i ==> is_sim_bid(#[trigger] bids@[k], agents@[k], order_id@, pickup, *eta_to),
        decreases n - i,
    {
        bids.push(agents[i].build_bid(order_id, pickup, eta_to));
        i = i + 1;
    }
    bids
}

/// The first agent whose id differs from `winner`.
pub fn first_other_agent(agents: &Vec<SimAgent>, winner: &str) -> (r: usize)
    requires
        exists|i: int| 0 <= i < agents@.len() && agents@[i].config.node_id@ != winner@,
    ensures
        r < agents@.len(),
        agents@[r as int].config.node_id@ != winner@,
        forall|j: int| 0 <= j < r ==> agents@[j].config.node_id@ == winner@,
{
    let n = agents.len();
    let mut i: usize = 0;
    while i < n
        invariant
            n == agents@.len(),
            i <= n,
            forall|j: int| 0 <= j < i ==> agents@[j].config.node_id@ == winner@,
        decreases n - i,
    {
        if !crate::text::str_eq(agents[i].config.node_id.as_str(), winner) {
            return i;
        }
        i = i + 1;
    }
    proof {
        let k = choose|k: int| 0 <= k < agents@.len() && agents@[k].config.node_id@ != winner@;
        assert(agents@[k].config.node_id@ == winner@);
    }
    0
}

/// The orders that need a new auction once the first agent falls silent:
/// every agent reports at `t`, all but the first report again 30 seconds
/// later, and a probe order named `probe` assigned to the first agent is
/// checked one second after that.
pub fn silent_first_agent_probe(agents: &Vec<SimAgent>, probe: &str, t: Timestamp) -> (r: Vec<String>)
    requires
        agents@.len() > 0,
        t + HEARTBEAT_TIMEOUT + 1 <= u64::MAX,
    ensures
        ids_of(r@) == silent_first_candidates(agent_ids(agents@), probe@),
{
    let n = agents.len();
    let ghost ids = agent_ids(agents@);
    let mut tracker = HeartbeatTracker::new();
    let mut i: usize = 0;
    while i < n
        invariant
            n == agents@.len(),
            ids == agent_ids(agents@),
            i <= n,
            forall|k: Seq<char>|
                #[trigger] tracker@.contains_key(k) <==> exists|j: int| 0 <= j < i && ids[j] == k,
            forall|k: Seq<char>| #[trigger] tracker@.contains_key(k) ==> tracker@[k] == t,
        decreases n - i,
    {
        tracker.record_heartbeat(agents[i].config.node_id.as_str(), t);
        proof {
            assert(ids[i as int] == agents@[i as int].config.node_id@);
            assert forall|k: Seq<char>|
                #[trigger] tracker@.contains_key(k) <==> exists|j: int| 0 <= j < i + 1 && ids[j] == k by {
                if tracker@.contains_key(k) && k != ids[i as int] {
                    let j = choose|j: int| 0 <= j < i && ids[j] == k;
                }
                if exists|j: int| 0 <= j < i + 1 && ids[j] == k {
                    let j = choose|j: int| 0 <= j < i + 1 && ids[j] == k;
                    if j < i {
                        assert(exists|j2: int| 0 <= j2 < i && ids[j2] == k);
                    }
                }
            }
        }
        i = i + 1;
    }
    let fail_time = t + HEARTBEAT_TIMEOUT + 1;
    let mut i: usize = 1;
    while i < n
        invariant
            n == agents@.len(),
            n > 0,
            ids == agent_ids(agents@),
            1 <= i <= n,
            fail_time == t + HEARTBEAT_TIMEOUT + 1,
            forall|k: Seq<char>|
                #[trigger] tracker@.contains_key(k) <==> exists|j: int| 0 <= j < n && ids[j] == k,
            forall|k: Seq<char>|
                #[trigger] tracker@.contains_key(k) ==> tracker@[k] == (if exists|j: int|
                    1 <= j < i && ids[j] == k {
                    (fail_time - 1) as u64
                } else {
                    t
                }),
        decreases n - i,
    {
        tracker.record_heartbeat(agents[i].config.node_id.as_str(), fail_time - 1);
        proof {
            assert(ids[i as int] == agents@[i as int].config.node_id@);
            assert forall|k: Seq<char>|
                #[trigger] tracker@.contains_key(k) <==> exists|j: int| 0 <= j < n && ids[j] == k by {
                if k == ids[i as int] {
                    assert(0 <= i < n && ids[i as int] == k);
                }
            }
            assert forall|k: Seq<char>| #[trigger] tracker@.contains_key(k) implies tracker@[k] == (if exists|
                j: int,
            | 1 <= j < i + 1 && ids[j] == k {
                (fail_time - 1) as u64
            } else {
                t
            }) by {
                if k == ids[i as int] {
                    assert(1 <= i < i + 1 && ids[i as int] == k);
                } else {
                    if exists|j: int| 1 <= j < i + 1 && ids[j] == k {
                        let j = choose|j: int| 1 <= j < i + 1 && ids[j] == k;
                        assert(1 <= j < i && ids[j] == k);
                    }
                }
            }
        }
        i = i + 1;
    }
    let failed_id = agents[0].config.node_id.clone();
    let (probe_order, _) = order_fsm::create_order(probe, failed_id.clone(), pickup(), dropoff(), t);
    let probe_order = match order_fsm::mark_bidding(probe_order, t) {
        Ok(o) => o,
        Err(_) => unreached(),
    };
    let probe_order = match order_fsm::assign_order(probe_order, failed_id, t) {
        Ok((o, _)) => o,
        Err(_) => unreached(),
    };
    let orders = vec![probe_order];
    let r = tracker.orders_to_reauction(orders.as_slice(), fail_time, HEARTBEAT_TIMEOUT);
    proof {
        assert(ids[0] == agents@[0].config.node_id@);
        assert(tracker@.contains_key(ids[0])) by {
            assert(0 <= 0 < n && ids[0] == ids[0]);
        }
        reveal_with_fuel(crate::domain::healing::reauction_ids, 2);
        assert(orders@.drop_last() =~= Seq::<crate::types::Order>::empty());
        if first_id_repeated(ids) {
            let j = choose|j: int| 1 <= j < ids.len() && #[trigger] ids[j] == ids[0];
            assert(1 <= j < n && ids[j] == ids[0]);
            assert(tracker@[ids[0]] == fail_time - 1);
        } else {
            assert(!(exists|j: int| 1 <= j < n && #[trigger] ids[j] == ids[0]));
            assert(tracker@[ids[0]] == t);
        }
    }
    r
}

/// Run the full MVP scenario for the agents configured in `configs`: each
/// agent bids with the ETA `eta_to` gives from its position to the pickup
/// point, `score` gives each bid's `f64` score as bits, and `inside` tells
/// whether a point lies inside a zone.
///
/// Fails only when there are fewer than two agents.  Otherwise the order
/// `mvp-order-1` goes to the best bid, is handed from the winner to the
/// first agent with another id when there are at least three agents, and
/// is delivered; the delivering agent ends with 200 units (the escrow less
/// the handoff fee) after a handoff and 300 without one; the probe order
/// `mvp-reauction-1` of the silent first agent needs a new auction unless
/// another agent shares the first agent's id; and the pickup point's pause
/// is the answer of `inside` for the zone declared there.
pub fn run_mvp_flow<E: Fn(GeoBits, GeoBits) -> u32, S: Fn(&AuctionBid) -> u64, Z: Fn(&SafetyZone, GeoBits) -> bool>(
    configs: Vec<AppConfig>,
    eta_to: &E,
    score: &S,
    inside: &Z,
) -> (r: Result<MvpFlowResult, FlowError>)
    requires
        forall|x: GeoBits, y: GeoBits| #[trigger] eta_to.requires((x, y)),
        forall|b: &AuctionBid| #[trigger] score.requires((b,)),
        forall|z: &SafetyZone, p: GeoBits| #[trigger] inside.requires((z, p)),
        configs@.len() >= 3 ==> has_two_ids(configs@.map_values(|c: AppConfig| c.node_id@)),
    ensures
        match r {
            Err(e) => configs@.len() < 2 && e == FlowError::TooFewAgents,
            Ok(res) => {
                let agents = configs@.map_values(|c: AppConfig| SimAgent { config: c, state: initial_state(c) });
                &&& configs@.len() >= 2
                &&& res.order_id@ == "mvp-order-1"@
                &&& exists|bids: Seq<AuctionBid>, sc: Seq<u64>, w: int|
                    bids.len() == configs@.len() && (forall|i: int|
                        0 <= i < bids.len() ==> is_sim_bid(
                            #[trigger] bids[i],
                            agents[i],
                            "mvp-order-1"@,
                            pickup_point(),
                            *eta_to,
                        )) && scored(bids, *score, sc) && is_winner_at(bids, sc, w) && res.winner_id == bids[w].bidder
                &&& res.final_order_status == OrderStatus::Delivered
                &&& res.delivering_agent_balance == (if configs@.len() >= 3 { 200u64 } else { 300u64 })
                &&& ids_of(res.reauction_candidates@) == silent_first_candidates(
                    agent_ids(agents),
                    "mvp-reauction-1"@,
                )
                &&& exists|z: SafetyZone|
                    is_pickup_zone(z, MVP_BASE_T) && inside.ensures((&z, pickup_point()), res.safety_paused)
            },
        },
{
    if configs.len() < 2 {
        return Err(FlowError::TooFewAgents);
    }
    let t = MVP_BASE_T;
    let n = configs.len();
    let ghost cs = configs@;
    let agents = make_agents(configs);
    let ghost spec_agents = cs.map_values(|c: AppConfig| SimAgent { config: c, state: initial_state(c) });
    proof {
        assert forall|i: int| 0 <= i < agents@.len() implies #[trigger] agents@[i] == spec_agents[i] by {
        }
        assert(agents@ =~= spec_agents);
    }

    // Steps 1-2: create the order and open bidding.
    let (order, _) = order_fsm::create_order("mvp-order-1", agents[0].config.node_id.clone(), pickup(), dropoff(), t);
    let order = match order_fsm::mark_bidding(order, t) {
        Ok(o) => o,
        Err(_) => unreached(),
    };

    // Step 3: collect bids.
    let bids = collect_bids(&agents, order.order_id.as_str(), pickup(), eta_to);

    // Step 4: choose the winner and reserve escrow.
    let winner_id = match auction::choose_winner_id(bids.as_slice(), score) {
        Some(w) => w,
        None => unreached(),
    };
    let mut ledger = Ledger::new();
    ledger.credit(agents[0].config.node_id.as_str(), ESCROW_AMOUNT);
    match ledger.reserve_escrow(order.order_id.as_str(), agents[0].config.node_id.as_str(), ESCROW_AMOUNT) {
        Ok(()) => {},
        Err(_) => unreached(),
    }
    let order = match order_fsm::assign_order(order, winner_id.clone(), t) {
        Ok((o, _)) => o,
        Err(_) => unreached(),
    };

    // Step 5: pickup and transit.
    let order = match order_fsm::mark_pickup(order, t) {
        Ok(o) => o,
        Err(_) => unreached(),
    };
    let order = match order_fsm::mark_in_transit(order, t) {
        Ok(o) => o,
        Err(_) => unreached(),
    };

    // Step 6: hand off when there are at least three agents.
    let delivering_agent: NodeId;
    let order = if n >= 3 {
        proof {
            let ids = cs.map_values(|c: AppConfig| c.node_id@);
            let (i, j) = choose|i: int, j: int| 0 <= i < ids.len() && 0 <= j < ids.len() && ids[i] != ids[j];
            assert(agents@[i].config.node_id@ == ids[i]);
            assert(agents@[j].config.node_id@ == ids[j]);
            if agents@[i].config.node_id@ == winner_id@ {
                assert(agents@[j].config.node_id@ != winner_id@);
            } else {
                assert(agents@[i].config.node_id@ != winner_id@);
            }
        }
        let dest = first_other_agent(&agents, winner_id.as_str());
        let dest_id = agents[dest].config.node_id.clone();
        let order = match handoff_domain::create_handoff_request(
            order,
            winner_id.as_str(),
            dest_id.clone(),
            &AgentStatus::Idle,
            t,
        ) {
            Ok((o, _)) => o,
            Err(_) => unreached(),
        };
        match ledger.transfer_for_handoff(order.order_id.as_str(), winner_id.as_str(), dest_id.as_str(), HANDOFF_FEE) {
            Ok(()) => {},
            Err(_) => unreached(),
        }
        let order = match handoff_domain::complete_handoff(order, dest_id.clone(), &AgentStatus::Idle, t) {
            Ok((o, _)) => o,
            Err(_) => unreached(),
        };
        delivering_agent = dest_id;
        order
    } else {
        delivering_agent = winner_id.clone();
        order
    };

    // Step 7: deliver.
    let order = match order_fsm::mark_delivered(order, delivering_agent.clone(), t) {
        Ok((o, _)) => o,
        Err(_) => unreached(),
    };

    // Step 8: settle the ledger.
    match ledger.release_final_payment(order.order_id.as_str(), delivering_agent.as_str()) {
        Ok(()) => {},
        Err(_) => unreached(),
    }
    let delivering_agent_balance = ledger.balance_of(delivering_agent.as_str());

    // Step 9: the first agent falls silent.
    let reauction_candidates = silent_first_agent_probe(&agents, "mvp-reauction-1", t);

    // Step 10: a safety zone at the pickup point.
    let mut safety = SafetyMonitor::new();
    let zone = SafetyZone {
        zone_id: String::from_str("zone-alpha"),
        center: pickup(),
        radius_m: PICKUP_ZONE_RADIUS_BITS,
        active: true,
        declared_at: t,
    };
    let ghost spec_zone = zone;
    safety.add_alert(zone);
    let safety_paused = safety.is_paused_by_safety(pickup(), inside);
    proof {
        let key = spec_zone.zone_id@;
        assert(safety.zones().dom() =~= set![key]);
        assert(safety.zones().contains_key(key));
        assert(safety.zones()[key] == spec_zone);
        if safety_paused {
            let k = choose|k: Seq<char>|
                #[trigger] safety.zones().contains_key(k) && safety.zones()[k].active && inside.ensures(
                    (&safety.zones()[k], pickup_point()),
                    true,
                );
            assert(k == key);
        }
        assert(is_pickup_zone(spec_zone, MVP_BASE_T));
    }

    Ok(MvpFlowResult {
        order_id: order.order_id,
        winner_id,
        final_order_status: order.status,
        delivering_agent_balance,
        reauction_candidates,
        safety_paused,
    })
}

/// The simple scenario runner: one order, bid on by every agent, delivered
/// by the winner without a handoff.
pub struct Runner {
    pub agents: Vec<SimAgent>,
}

impl Runner {
    /// A runner over one agent per configuration.
    pub fn new(configs: Vec<AppConfig>) -> (r: Self)
        ensures
            r.agents@.len() == configs@.len(),
            forall|i: int|
                0 <= i < configs@.len() ==> (#[trigger] r.agents@[i]).config == configs@[i]
                    && r.agents@[i].state == initial_state(configs@[i]),
    {
        Runner { agents: make_agents(configs) }
    }

    /// Run the scenario: the order `sim-order-1` from the first agent goes
    /// to the best bid (ETA from `eta_to`, score from `score`) and is
    /// delivered by the winner.
    /// Returns the winner and the delivered order's status; fails only
    /// when there is no agent.
    pub fn run_scenario<E: Fn(GeoBits, GeoBits) -> u32, S: Fn(&AuctionBid) -> u64>(&mut self, eta_to: &E, score: &S) -> (r: Result<
        (NodeId, OrderStatus),
        FlowError,
    >)
        requires
            forall|x: GeoBits, y: GeoBits| #[trigger] eta_to.requires((x, y)),
            forall|b: &AuctionBid| #[trigger] score.requires((b,)),
        ensures
            final(self).agents@ == old(self).agents@,
            match r {
                Err(e) => old(self).agents@.len() == 0 && e == FlowError::NoAgents,
                Ok((winner, status)) => old(self).agents@.len() > 0 && status == OrderStatus::Delivered
                    && exists|bids: Seq<AuctionBid>, sc: Seq<u64>, w: int|
                    bids.len() == old(self).agents@.len() && (forall|i: int|
                        0 <= i < bids.len() ==> is_sim_bid(
                            #[trigger] bids[i],
                            old(self).agents@[i],
                            "sim-order-1"@,
                            pickup_point(),
                            *eta_to,
                        )) && scored(bids, *score, sc) && is_winner_at(bids, sc, w) && winner == bids[w].bidder,
            },
    {
        if self.agents.len() == 0 {
            return Err(FlowError::NoAgents);
        }
        let (order, _) = order_fsm::create_order(
            "sim-order-1",
            self.agents[0].config.node_id.clone(),
            pickup(),
            dropoff(),
            0,
        );
        let order = match order_fsm::mark_bidding(order, 0) {
            Ok(o) => o,
            Err(_) => unreached(),
        };
        let bids = collect_bids(&self.agents, order.order_id.as_str(), pickup(), eta_to);
        let winner_id = match auction::choose_winner_id(bids.as_slice(), score) {
            Some(w) => w,
            None => unreached(),
        };
        let order = match order_fsm::assign_order(order, winner_id.clone(), 0) {
            Ok((o, _)) => o,
            Err(_) => unreached(),
        };
        let order = match order_fsm::mark_pickup(order, 0) {
            Ok(o) => o,
            Err(_) => unreached(),
        };
        let order = match order_fsm::mark_in_transit(order, 0) {
            Ok(o) => o,
            Err(_) => unreached(),
        };
        let delivered_by = crate::types::copy_node_opt(&order.assigned_to);
        let delivered_by = match delivered_by {
            Some(d) => d,
            None => String::new(),
        };
        let order = match order_fsm::mark_delivered(order, delivered_by, 0) {
            Ok((o, _)) => o,
            Err(_) => unreached(),
        };
        Ok((winner_id, order.status))
    }
}

} // verus!
