//! The MVP flow replayed one phase per tick, as a state machine.
//!
//! Each call of [`LiveSim::step`] performs one phase and reports what it
//! did as a [`SimStep`]; the caller turns that into a log line.  Every
//! phase but the last two drains one battery percent from the agents.

use vstd::prelude::*;

use crate::config::AppConfig;
use crate::domain::auction::{self, is_winner_at, scored};
use crate::domain::healing::ids_of;
use crate::domain::ledger::{balance_in, entry_is, EscrowEntry, EscrowState, Ledger};
use crate::domain::order as order_fsm;
use crate::domain::safety::SafetyMonitor;
use crate::sim::runner::{
    agent_ids, collect_bids, dropoff, first_other_agent, initial_state, is_pickup_zone, is_sim_bid,
    make_agents, pickup, pickup_point, silent_first_agent_probe, silent_first_candidates,
    SimAgent, ESCROW_AMOUNT, HANDOFF_FEE, MVP_BASE_T, PICKUP_ZONE_RADIUS_BITS,
};
use crate::sim::log::{bids_line, bids_text, id_list_line, id_list_text, tick_line, tick_prefix};
use crate::text::{decimal, decimal_text};
use crate::types::{AgentState, AuctionBid, GeoBits, NodeId, SafetyZone, Timestamp};

verus! {

/// The simulation's phases, one per tick.
#[derive(Debug, Clone, Copy, PartialEq, Eq, Structural)]
pub enum SimPhase {
    Init,
    OrderCreated,
    BidsReceived,
    WinnerChosen,
    MovingToPickup,
    PickupCompleted,
    InTransit,
    HandoffRequested,
    HandoffCompleted,
    Delivered,
    LedgerSettled,
    Done,
}

/// What one tick did.
#[derive(Debug)]
pub enum SimStep {
    /// The simulation started with this many agents.
    Started { tick: u32, agents: usize },
    /// The order was created.
    OrderCreated { tick: u32, order_id: String },
    /// The agents' bids.
    BidsReceived { tick: u32, bids: Vec<AuctionBid> },
    /// The auction's winner.
    WinnerChosen { tick: u32, winner: NodeId },
    /// The winner moved towards the pickup point; its new position, when an
    /// agent carries the winner's id.
    MovingToPickup { tick: u32, winner: NodeId, location: Option<GeoBits> },
    /// The winner picked the order up.
    PickupCompleted { tick: u32, holder: NodeId },
    /// The order is in transit.
    InTransit { tick: u32, holder: NodeId },
    /// A handoff from the winner to another agent was requested.
    HandoffRequested { tick: u32, from: NodeId, to: NodeId },
    /// Fewer than three agents: the winner keeps the order.
    NoHandoff { tick: u32, holder: NodeId },
    /// The handoff happened and its fee was paid.
    HandoffCompleted { tick: u32, from: NodeId, to: NodeId, fee: u64 },
    /// The order was delivered.
    Delivered { tick: u32, by: NodeId },
    /// The ledger settled; the failure probe and the safety check ran.
    LedgerSettled {
        tick: u32,
        agent: NodeId,
        balance: u64,
        reauction: Vec<String>,
        safety_paused: bool,
    },
    /// Nothing is left to do.
    AlreadyComplete { tick: u32 },
}

/// The log line of `ev`; `None` for the move towards the pickup point,
/// whose line shows floating-point coordinates.
pub open spec fn step_text(ev: SimStep) -> Option<Seq<char>> {
    match ev {
        SimStep::Started { tick, agents } => Some(tick_prefix(tick as nat) + "simulation started — "@ + decimal(
            agents as nat,
        ) + " agent(s) online"@),
        SimStep::OrderCreated { tick, order_id } => Some(tick_prefix(tick as nat) + "order created  id="@
            + order_id@),
        SimStep::BidsReceived { tick, bids } => Some(tick_prefix(tick as nat) + "bids received  ["@ + bids_text(
            bids@,
        ) + "]"@),
        SimStep::WinnerChosen { tick, winner } => Some(tick_prefix(tick as nat) + "winner chosen  winner="@
            + winner@),
        SimStep::MovingToPickup { .. } => None,
        SimStep::PickupCompleted { tick, holder } => Some(tick_prefix(tick as nat) + "pickup completed  holder="@
            + holder@),
        SimStep::InTransit { tick, holder } => Some(tick_prefix(tick as nat) + "in transit  holder="@ + holder@),
        SimStep::HandoffRequested { tick, from, to } => Some(tick_prefix(tick as nat) + "handoff requested  from="@
            + from@ + " to="@ + to@),
        SimStep::NoHandoff { tick, holder } => Some(tick_prefix(tick as nat)
            + "no handoff (fewer than 3 agents)  holder="@ + holder@),
        SimStep::HandoffCompleted { tick, from, to, fee } => Some(tick_prefix(tick as nat)
            + "handoff completed  from="@ + from@ + " to="@ + to@ + "  fee="@ + decimal(fee as nat)),
        SimStep::Delivered { tick, by } => Some(tick_prefix(tick as nat) + "delivered  by="@ + by@),
        SimStep::LedgerSettled { tick, agent, balance, reauction, safety_paused } => Some(tick_prefix(tick as nat)
            + "ledger settled  "@ + agent@ + " balance="@ + decimal(balance as nat) + "  reauction="@
            + id_list_text(reauction@.map_values(|x: String| x@)) + "  safety_paused="@ + (if safety_paused {
            "true"@
        } else {
            "false"@
        })),
        SimStep::AlreadyComplete { tick } => Some(tick_prefix(tick as nat) + "simulation already complete"@),
    }
}

impl SimStep {
    /// The log line of this step; `None` for the move towards the pickup
    /// point, whose line shows floating-point coordinates.
    pub fn line(&self) -> (r: Option<String>)
        ensures
            (r is Some) == (step_text(*self) is Some),
            r is Some ==> r.unwrap()@ == step_text(*self).unwrap(),
    {
        match self {
            SimStep::Started { tick, agents } => {
                let mut s = tick_line(*tick as u64);
                s.append("simulation started — ");
                s.append(decimal_text(*agents as u64).as_str());
                s.append(" agent(s) online");
                Some(s)
            },
            SimStep::OrderCreated { tick, order_id } => {
                let mut s = tick_line(*tick as u64);
                s.append("order created  id=");
                s.append(order_id.as_str());
                Some(s)
            },
            SimStep::BidsReceived { tick, bids } => {
                let mut s = tick_line(*tick as u64);
                s.append("bids received  [");
                s.append(bids_line(bids).as_str());
                s.append("]");
                Some(s)
            },
            SimStep::WinnerChosen { tick, winner } => {
                let mut s = tick_line(*tick as u64);
                s.append("winner chosen  winner=");
                s.append(winner.as_str());
                Some(s)
            },
            SimStep::MovingToPickup { .. } => None,
            SimStep::PickupCompleted { tick, holder } => {
                let mut s = tick_line(*tick as u64);
                s.append("pickup completed  holder=");
                s.append(holder.as_str());
                Some(s)
            },
            SimStep::InTransit { tick, holder } => {
                let mut s = tick_line(*tick as u64);
                s.append("in transit  holder=");
                s.append(holder.as_str());
                Some(s)
            },
            SimStep::HandoffRequested { tick, from, to } => {
                let mut s = tick_line(*tick as u64);
                s.append("handoff requested  from=");
                s.append(from.as_str());
                s.append(" to=");
                s.append(to.as_str());
                Some(s)
            },
            SimStep::NoHandoff { tick, holder } => {
                let mut s = tick_line(*tick as u64);
                s.append("no handoff (fewer than 3 agents)  holder=");
                s.append(holder.as_str());
                Some(s)
            },
            SimStep::HandoffCompleted { tick, from, to, fee } => {
                let mut s = tick_line(*tick as u64);
                s.append("handoff completed  from=");
                s.append(from.as_str());
                s.append(" to=");
                s.append(to.as_str());
                s.append("  fee=");
                s.append(decimal_text(*fee).as_str());
                Some(s)
            },
            SimStep::Delivered { tick, by } => {
                let mut s = tick_line(*tick as u64);
                s.append("delivered  by=");
                s.append(by.as_str());
                Some(s)
            },
            SimStep::LedgerSettled { tick, agent, balance, reauction, safety_paused } => {
                let mut s = tick_line(*tick as u64);
                s.append("ledger settled  ");
                s.append(agent.as_str());
                s.append(" balance=");
                s.append(decimal_text(*balance).as_str());
                s.append("  reauction=");
                s.append(id_list_line(reauction).as_str());
                s.append("  safety_paused=");
                s.append(if *safety_paused { "true" } else { "false" });
                Some(s)
            },
            SimStep::AlreadyComplete { tick } => {
                let mut s = tick_line(*tick as u64);
                s.append("simulation already complete");
                Some(s)
            },
        }
    }
}

/// The phase after `p`; the handoff is skipped with fewer than three
/// agents.
pub open spec fn next_phase(p: SimPhase, agent_count: nat) -> SimPhase {
    match p {
        SimPhase::Init => SimPhase::OrderCreated,
        SimPhase::OrderCreated => SimPhase::BidsReceived,
        SimPhase::BidsReceived => SimPhase::WinnerChosen,
        SimPhase::WinnerChosen => SimPhase::MovingToPickup,
        SimPhase::MovingToPickup => SimPhase::PickupCompleted,
        SimPhase::PickupCompleted => SimPhase::InTransit,
        SimPhase::InTransit => SimPhase::HandoffRequested,
        SimPhase::HandoffRequested => if agent_count >= 3 {
            SimPhase::HandoffCompleted
        } else {
            SimPhase::Delivered
        },
        SimPhase::HandoffCompleted => SimPhase::Delivered,
        SimPhase::Delivered => SimPhase::LedgerSettled,
        SimPhase::LedgerSettled => SimPhase::Done,
        SimPhase::Done => SimPhase::Done,
    }
}

/// The phase after `k` steps from `p`.
pub open spec fn phase_after(p: SimPhase, agent_count: nat, k: nat) -> SimPhase
    decreases k,
{
    if k == 0 {
        p
    } else {
        phase_after(next_phase(p, agent_count), agent_count, (k - 1) as nat)
    }
}

/// The number of steps a run takes from the start to the end: one more
/// when there are enough agents for a handoff.
pub open spec fn steps_to_done(agent_count: nat) -> nat {
    if agent_count >= 3 {
        11
    } else {
        10
    }
}

/// A run from the start reaches `Done` after exactly `steps_to_done`
/// steps, not before, and stays there.
pub proof fn lemma_run_completes(agent_count: nat, k: nat)
    ensures
        phase_after(SimPhase::Init, agent_count, steps_to_done(agent_count)) == SimPhase::Done,
        k < steps_to_done(agent_count) ==> phase_after(SimPhase::Init, agent_count, k) != SimPhase::Done,
        next_phase(SimPhase::Done, agent_count) == SimPhase::Done,
{
    reveal_with_fuel(phase_after, 12);
    if k < steps_to_done(agent_count) {
        assert(k <= 10);
        if k == 0 {} else if k == 1 {} else if k == 2 {} else if k == 3 {} else if k == 4 {}
        else if k == 5 {} else if k == 6 {} else if k == 7 {} else if k == 8 {} else if k == 9 {}
        else {}
    }
}

/// `a` with one battery percent less (none below zero).
pub open spec fn drain(a: SimAgent) -> SimAgent {
    SimAgent {
        state: AgentState {
            battery_pct: if a.state.battery_pct > 0 { (a.state.battery_pct - 1) as u8 } else { 0 },
            ..a.state
        },
        ..a
    }
}

/// Every agent drained by one percent.
pub open spec fn drained(agents: Seq<SimAgent>) -> Seq<SimAgent> {
    agents.map_values(|a: SimAgent| drain(a))
}

/// `f` is the first position whose agent carries `id`.
pub open spec fn first_with_id(agents: Seq<SimAgent>, id: Seq<char>, f: int) -> bool {
    &&& 0 <= f < agents.len()
    &&& agents[f].config.node_id@ == id
    &&& forall|j: int| 0 <= j < f ==> agents[j].config.node_id@ != id
}

/// The escrow the order's originator reserved for it.
pub open spec fn reserved_for(e: EscrowEntry, payer: Seq<char>) -> bool {
    entry_is(e, payer, Seq::empty(), ESCROW_AMOUNT, EscrowState::Reserved)
}

/// Where the winner's first agent ends up after one step towards the
/// pickup point: `b` is `a` with that agent moved to a position
/// `step_toward` answered and drained by one percent, or `a` itself when no
/// agent carries the winner's id.
pub open spec fn moved_toward_pickup<M: Fn(GeoBits, GeoBits) -> GeoBits>(
    a: Seq<SimAgent>,
    winner: Seq<char>,
    b: Seq<SimAgent>,
    step_toward: M,
) -> bool {
    if exists|f: int| first_with_id(a, winner, f) {
        exists|f: int, to: GeoBits|
            first_with_id(a, winner, f) && step_toward.ensures((a[f].state.location, pickup_point()), to)
                && b == a.update(
                f,
                SimAgent {
                    state: AgentState { location: to, ..drain(a[f]).state },
                    ..a[f]
                },
            )
    } else {
        b == a
    }
}

/// State of the tick-driven simulation.
pub struct LiveSim {
    agents: Vec<SimAgent>,
    tick: u32,
    phase: SimPhase,
    order_id: String,
    winner_id: NodeId,
    delivering_agent: NodeId,
    ledger: Ledger,
    reauction_candidates: Vec<String>,
    safety_paused: bool,
}

impl LiveSim {
    /// The ledger matches the phase: empty before the winner is chosen,
    /// the reserved escrow alone until the handoff is paid, and a live
    /// escrow of at most the reserved amount until it is settled.
    #[verifier::type_invariant]
    closed spec fn ledger_matches_phase(self) -> bool {
        let payer = self.agents@[0].config.node_id@;
        match self.phase {
            SimPhase::Init | SimPhase::OrderCreated => self.ledger.balances() == Map::<
                Seq<char>,
                u64,
            >::empty() && self.ledger.escrows() == Map::<Seq<char>, EscrowEntry>::empty(),
            SimPhase::BidsReceived | SimPhase::WinnerChosen => self.agents@.len() > 0
                && self.ledger.balances() == Map::<Seq<char>, u64>::empty() && self.ledger.escrows()
                == Map::<Seq<char>, EscrowEntry>::empty(),
            SimPhase::MovingToPickup | SimPhase::PickupCompleted | SimPhase::InTransit
            | SimPhase::HandoffRequested | SimPhase::HandoffCompleted => {
                &&& self.agents@.len() > 0
                &&& exists|i: int| 0 <= i < self.agents@.len() && self.agents@[i].config.node_id@ == self.winner_id@
                &&& self.ledger.balances() == Map::<Seq<char>, u64>::empty().insert(payer, 0)
                &&& self.ledger.escrows().dom() == Set::<Seq<char>>::empty().insert(self.order_id@)
                &&& reserved_for(self.ledger.escrows()[self.order_id@], payer)
            },
            SimPhase::Delivered | SimPhase::LedgerSettled => {
                &&& self.agents@.len() > 0
                &&& self.ledger.escrows().contains_key(self.order_id@)
                &&& (self.ledger.escrows()[self.order_id@].state == EscrowState::Reserved
                    || self.ledger.escrows()[self.order_id@].state == EscrowState::Transferred)
                &&& self.ledger.escrows()[self.order_id@].amount <= ESCROW_AMOUNT
                &&& forall|k: Seq<char>|
                    #[trigger] self.ledger.balances().contains_key(k) ==> self.ledger.balances()[k]
                        <= ESCROW_AMOUNT
            },
            SimPhase::Done => true,
        }
    }

    /// The simulated agents.
    pub closed spec fn agents(&self) -> Seq<SimAgent> {
        self.agents@
    }

    /// Ticks performed so far.
    pub closed spec fn tick_count(&self) -> u32 {
        self.tick
    }

    /// The phase the next tick performs.
    pub closed spec fn phase(&self) -> SimPhase {
        self.phase
    }

    /// The order's id (empty before it is named).
    pub closed spec fn order_id(&self) -> Seq<char> {
        self.order_id@
    }

    /// The auction's winner (empty before it is chosen).
    pub closed spec fn winner_id(&self) -> Seq<char> {
        self.winner_id@
    }

    /// The agent that delivers the order (empty before it is known).
    pub closed spec fn delivering_agent(&self) -> Seq<char> {
        self.delivering_agent@
    }

    /// The ledger's balances.
    pub closed spec fn balances(&self) -> Map<Seq<char>, u64> {
        self.ledger.balances()
    }

    /// The ledger's escrows.
    pub closed spec fn escrows(&self) -> Map<Seq<char>, EscrowEntry> {
        self.ledger.escrows()
    }

    /// The orders the failure probe flagged for a new auction.
    pub closed spec fn reauction(&self) -> Seq<Seq<char>> {
        ids_of(self.reauction_candidates@)
    }

    /// Whether the safety check paused the pickup point.
    pub closed spec fn paused(&self) -> bool {
        self.safety_paused
    }

    /// A simulation at its first phase, with one agent per configuration.
    pub fn new(configs: Vec<AppConfig>) -> (s: Self)
        ensures
            s.agents().len() == configs@.len(),
            forall|i: int|
                0 <= i < configs@.len() ==> (#[trigger] s.agents()[i]).config == configs@[i]
                    && s.agents()[i].state == initial_state(configs@[i]),
            s.tick_count() == 0,
            s.phase() == SimPhase::Init,
            s.order_id() == Seq::<char>::empty(),
            s.winner_id() == Seq::<char>::empty(),
            s.delivering_agent() == Seq::<char>::empty(),
            s.balances() == Map::<Seq<char>, u64>::empty(),
            s.escrows() == Map::<Seq<char>, EscrowEntry>::empty(),
            s.reauction() == Seq::<Seq<char>>::empty(),
            !s.paused(),
    {
        let agents = make_agents(configs);
        let s = LiveSim {
            agents,
            tick: 0,
            phase: SimPhase::Init,
            order_id: String::new(),
            winner_id: String::new(),
            delivering_agent: String::new(),
            ledger: Ledger::new(),
            reauction_candidates: Vec::new(),
            safety_paused: false,
        };
        proof {
            assert(ids_of(s.reauction_candidates@) =~= Seq::<Seq<char>>::empty());
        }
        s
    }

    /// Ticks performed so far.
    pub fn current_tick(&self) -> (t: u32)
        ensures
            t == self.tick_count(),
    {
        self.tick
    }

    /// Whether every phase has run.
    pub fn is_complete(&self) -> (b: bool)
        ensures
            b == (self.phase() == SimPhase::Done),
    {
        self.phase == SimPhase::Done
    }

    /// Perform the current phase, taking the time of the tick to be the
    /// base time plus the ticks performed so far.  Agents bid with the ETA
    /// `eta_to` gives to the pickup point and `score` gives each bid's
    /// `f64` score as bits; the winner moves to the position `step_toward`
    /// gives; `inside` tells whether a point lies inside a zone.
    pub fn step<E: Fn(GeoBits, GeoBits) -> u32, S: Fn(&AuctionBid) -> u64, M: Fn(GeoBits, GeoBits) -> GeoBits, Z: Fn(&SafetyZone, GeoBits) -> bool>(
        &mut self,
        eta_to: &E,
        score: &S,
        step_toward: &M,
        inside: &Z,
    ) -> (ev: SimStep)
        requires
            forall|x: GeoBits, y: GeoBits| #[trigger] eta_to.requires((x, y)),
            forall|b: &AuctionBid| #[trigger] score.requires((b,)),
            forall|x: GeoBits, y: GeoBits| #[trigger] step_toward.requires((x, y)),
            forall|z: &SafetyZone, p: GeoBits| #[trigger] inside.requires((z, p)),
            old(self).tick_count() < u32::MAX,
            old(self).phase() == SimPhase::OrderCreated ==> old(self).agents().len() > 0,
            old(self).phase() == SimPhase::HandoffRequested && old(self).agents().len() >= 3
                ==> crate::sim::runner::has_two_ids(agent_ids(old(self).agents())),
        ensures
            final(self).tick_count() == old(self).tick_count() + 1,
            final(self).phase() == next_phase(old(self).phase(), old(self).agents().len()),
            ({
                let a = old(self).agents();
                match old(self).phase() {
                    SimPhase::MovingToPickup => moved_toward_pickup(a, old(self).winner_id(), final(self).agents(), *step_toward),
                    SimPhase::LedgerSettled | SimPhase::Done => final(self).agents() == a,
                    _ => final(self).agents() == drained(a),
                }
            }),
            final(self).order_id() == (if old(self).phase() == SimPhase::Init {
                "order-"@ + decimal(old(self).tick_count() as nat)
            } else {
                old(self).order_id()
            }),
            old(self).phase() != SimPhase::WinnerChosen ==> final(self).winner_id() == old(self).winner_id(),
            old(self).phase() == SimPhase::WinnerChosen ==> exists|bids: Seq<AuctionBid>, sc: Seq<u64>, w: int|
                bids.len() == old(self).agents().len() && (forall|i: int|
                    0 <= i < bids.len() ==> is_sim_bid(
                        #[trigger] bids[i],
                        old(self).agents()[i],
                        old(self).order_id(),
                        pickup_point(),
                        *eta_to,
                    )) && scored(bids, *score, sc) && is_winner_at(bids, sc, w) && final(self).winner_id() == bids[w].bidder@,
            old(self).phase() != SimPhase::HandoffRequested ==> final(self).delivering_agent() == old(self).delivering_agent(),
            old(self).phase() == SimPhase::HandoffRequested && old(self).agents().len() < 3 ==> final(self).delivering_agent() == old(self).winner_id(),
            old(self).phase() == SimPhase::HandoffRequested && old(self).agents().len() >= 3 ==> exists|d: int|
                0 <= d < old(self).agents().len() && old(self).agents()[d].config.node_id@ != old(self).winner_id()
                    && (forall|j: int| 0 <= j < d ==> old(self).agents()[j].config.node_id@ == old(self).winner_id())
                    && final(self).delivering_agent() == old(self).agents()[d].config.node_id@,
            ({
                let payer = old(self).agents()[0].config.node_id@;
                let id = old(self).order_id();
                match old(self).phase() {
                    SimPhase::WinnerChosen => final(self).balances() == Map::<Seq<char>, u64>::empty().insert(payer, 0)
                        && final(self).escrows().dom() == Set::<Seq<char>>::empty().insert(id)
                        && reserved_for(final(self).escrows()[id], payer),
                    SimPhase::HandoffCompleted => final(self).balances() == old(self).balances().insert(
                        old(self).winner_id(),
                        (balance_in(old(self).balances(), old(self).winner_id()) + HANDOFF_FEE) as u64,
                    ) && final(self).escrows().dom() == old(self).escrows().dom() && entry_is(
                        final(self).escrows()[id],
                        payer,
                        old(self).delivering_agent(),
                        (ESCROW_AMOUNT - HANDOFF_FEE) as u64,
                        EscrowState::Transferred,
                    ),
                    SimPhase::LedgerSettled => final(self).balances() == old(self).balances().insert(
                        old(self).delivering_agent(),
                        (balance_in(old(self).balances(), old(self).delivering_agent()) + old(self).escrows()[id].amount) as u64,
                    ) && final(self).escrows().dom() == old(self).escrows().dom() && entry_is(
                        final(self).escrows()[id],
                        old(self).escrows()[id].originator@,
                        old(self).escrows()[id].current_holder@,
                        0,
                        EscrowState::Released,
                    ),
                    _ => final(self).balances() == old(self).balances() && final(self).escrows() == old(self).escrows(),
                }
            }),
            old(self).phase() == SimPhase::LedgerSettled ==> final(self).reauction() == silent_first_candidates(
                agent_ids(old(self).agents()),
                "sim-reauction-1"@,
            ) && exists|z: SafetyZone|
                is_pickup_zone(z, (MVP_BASE_T + old(self).tick_count()) as u64) && inside.ensures(
                    (&z, pickup_point()),
                    final(self).paused(),
                ),
            old(self).phase() != SimPhase::LedgerSettled ==> final(self).reauction() == old(self).reauction()
                && final(self).paused() == old(self).paused(),
            ({
                let t = old(self).tick_count();
                let a = old(self).agents();
                match old(self).phase() {
                    SimPhase::Init => ev matches SimStep::Started { tick, agents } && tick == t && agents == a.len(),
                    SimPhase::OrderCreated => ev matches SimStep::OrderCreated { tick, order_id } && tick == t
                        && order_id@ == old(self).order_id(),
                    SimPhase::BidsReceived => ev matches SimStep::BidsReceived { tick, bids } && tick == t
                        && bids@.len() == a.len() && forall|i: int|
                        0 <= i < a.len() ==> is_sim_bid(
                            #[trigger] bids@[i],
                            a[i],
                            old(self).order_id(),
                            pickup_point(),
                            *eta_to,
                        ),
                    SimPhase::WinnerChosen => ev matches SimStep::WinnerChosen { tick, winner } && tick == t
                        && winner@ == final(self).winner_id(),
                    SimPhase::MovingToPickup => ev matches SimStep::MovingToPickup { tick, winner, location }
                        && tick == t && winner@ == old(self).winner_id() && (location is Some <==> exists|f: int|
                        first_with_id(a, old(self).winner_id(), f)) && forall|f: int|
                        first_with_id(a, old(self).winner_id(), f) ==> location == Some(
                            final(self).agents()[f].state.location,
                        ),
                    SimPhase::PickupCompleted => ev matches SimStep::PickupCompleted { tick, holder } && tick
                        == t && holder@ == old(self).winner_id(),
                    SimPhase::InTransit => ev matches SimStep::InTransit { tick, holder } && tick == t
                        && holder@ == old(self).winner_id(),
                    SimPhase::HandoffRequested => if a.len() >= 3 {
                        ev matches SimStep::HandoffRequested { tick, from, to } && tick == t && from@
                            == old(self).winner_id() && to@ == final(self).delivering_agent()
                    } else {
                        ev matches SimStep::NoHandoff { tick, holder } && tick == t && holder@
                            == old(self).winner_id()
                    },
                    SimPhase::HandoffCompleted => ev matches SimStep::HandoffCompleted { tick, from, to, fee }
                        && tick == t && from@ == old(self).winner_id() && to@ == old(self).delivering_agent()
                        && fee == HANDOFF_FEE,
                    SimPhase::Delivered => ev matches SimStep::Delivered { tick, by } && tick == t && by@
                        == old(self).delivering_agent(),
                    SimPhase::LedgerSettled => ev matches SimStep::LedgerSettled {
                        tick,
                        agent,
                        balance,
                        reauction,
                        safety_paused,
                    } && tick == t && agent@ == old(self).delivering_agent() && balance == balance_in(
                        final(self).balances(),
                        old(self).delivering_agent(),
                    ) && ids_of(reauction@) == final(self).reauction() && safety_paused == final(self).paused(),
                    SimPhase::Done => ev matches SimStep::AlreadyComplete { tick } && tick == t,
                }
            }),
    {
        proof { use_type_invariant(&*self); }
        let mut taken = LiveSim::new(Vec::new());
        std::mem::swap(&mut taken, self);
        proof { use_type_invariant(&taken); }
        let LiveSim {
            mut agents,
            tick,
            mut phase,
            mut order_id,
            mut winner_id,
            mut delivering_agent,
            mut ledger,
            mut reauction_candidates,
            mut safety_paused,
        } = taken;
        let ghost a0 = agents@;
        let ghost b0 = ledger.balances();
        let ghost e0 = ledger.escrows();
        let ghost mut zone_seen: SafetyZone = arbitrary();
        let n = agents.len();
        let t: Timestamp = MVP_BASE_T + tick as u64;
        let ev = match phase {
            SimPhase::Init => {
                let mut id = String::from_str("order-");
                let digits = decimal_text(tick as u64);
                id.append(digits.as_str());
                order_id = id;
                drain_agents(&mut agents);
                phase = SimPhase::OrderCreated;
                SimStep::Started { tick, agents: n }
            },
            SimPhase::OrderCreated => {
                let origin = agents[0].config.node_id.clone();
                let (order, _) = order_fsm::create_order(order_id.as_str(), origin, pickup(), dropoff(), t);
                let _ = order_fsm::mark_bidding(order, t);
                phase = SimPhase::BidsReceived;
                drain_agents(&mut agents);
                SimStep::OrderCreated { tick, order_id: order_id.clone() }
            },
            SimPhase::BidsReceived => {
                let bids = collect_bids(&agents, order_id.as_str(), pickup(), eta_to);
                drain_agents(&mut agents);
                phase = SimPhase::WinnerChosen;
                SimStep::BidsReceived { tick, bids }
            },
            SimPhase::WinnerChosen => {
                let bids = collect_bids(&agents, order_id.as_str(), pickup(), eta_to);
                winner_id = match auction::choose_winner_id(bids.as_slice(), score) {
                    Some(w) => w,
                    None => unreached(),
                };
                proof {
                    let (sc, w) = choose|sc: Seq<u64>, w: int|
                        scored(bids@, *score, sc) && is_winner_at(bids@, sc, w) && winner_id == bids@[w].bidder;
                    assert(bids@[w].bidder == agents@[w].config.node_id);
                    assert(0 <= w < a0.len() && a0[w].config.node_id@ == winner_id@);
                }
                let payer = agents[0].config.node_id.clone();
                ledger.credit(payer.as_str(), ESCROW_AMOUNT);
                match ledger.reserve_escrow(order_id.as_str(), payer.as_str(), ESCROW_AMOUNT) {
                    Ok(()) => {},
                    Err(_) => unreached(),
                }
                drain_agents(&mut agents);
                phase = SimPhase::MovingToPickup;
                SimStep::WinnerChosen { tick, winner: winner_id.clone() }
            },
            SimPhase::MovingToPickup => {
                let location = match find_agent(&agents, winner_id.as_str()) {
                    Some(f) => {
                        let mut a = agents.remove(f);
                        let to = step_toward(a.state.location, pickup());
                        let b = a.state.battery_pct;
                        a.state.location = to;
                        a.state.battery_pct = if b > 0 { b - 1 } else { 0 };
                        agents.insert(f, a);
                        proof {
                            assert(agents@ =~= a0.update(
                                f as int,
                                SimAgent {
                                    state: AgentState { location: to, ..drain(a0[f as int]).state },
                                    ..a0[f as int]
                                },
                            ));
                        }
                        Some(to)
                    },
                    None => None,
                };
                phase = SimPhase::PickupCompleted;
                SimStep::MovingToPickup { tick, winner: winner_id.clone(), location }
            },
            SimPhase::PickupCompleted => {
                drain_agents(&mut agents);
                phase = SimPhase::InTransit;
                SimStep::PickupCompleted { tick, holder: winner_id.clone() }
            },
            SimPhase::InTransit => {
                drain_agents(&mut agents);
                phase = SimPhase::HandoffRequested;
                SimStep::InTransit { tick, holder: winner_id.clone() }
            },
            SimPhase::HandoffRequested => {
                drain_agents(&mut agents);
                if n >= 3 {
                    proof {
                        let ids = agent_ids(a0);
                        let (i, j) = choose|i: int, j: int| 0 <= i < ids.len() && 0 <= j < ids.len() && ids[i] != ids[j];
                        assert(agents@[i].config == a0[i].config);
                        assert(agents@[j].config == a0[j].config);
                        assert(ids[i] == a0[i].config.node_id@);
                        assert(ids[j] == a0[j].config.node_id@);
                        if agents@[i].config.node_id@ == winner_id@ {
                            assert(agents@[j].config.node_id@ != winner_id@);
                        } else {
                            assert(agents@[i].config.node_id@ != winner_id@);
                        }
                    }
                    let d = first_other_agent(&agents, winner_id.as_str());
                    proof {
                        assert forall|j: int| 0 <= j < d implies a0[j].config.node_id@ == winner_id@ by {
                            assert(agents@[j].config == a0[j].config);
                        }
                        assert(agents@[d as int].config == a0[d as int].config);
                    }
                    delivering_agent = agents[d].config.node_id.clone();
                    phase = SimPhase::HandoffCompleted;
                    SimStep::HandoffRequested { tick, from: winner_id.clone(), to: delivering_agent.clone() }
                } else {
                    delivering_agent = winner_id.clone();
                    phase = SimPhase::Delivered;
                    SimStep::NoHandoff { tick, holder: winner_id.clone() }
                }
            },
            SimPhase::HandoffCompleted => {
                match ledger.transfer_for_handoff(
                    order_id.as_str(),
                    winner_id.as_str(),
                    delivering_agent.as_str(),
                    HANDOFF_FEE,
                ) {
                    Ok(()) => {},
                    Err(_) => unreached(),
                }
                drain_agents(&mut agents);
                phase = SimPhase::Delivered;
                SimStep::HandoffCompleted {
                    tick,
                    from: winner_id.clone(),
                    to: delivering_agent.clone(),
                    fee: HANDOFF_FEE,
                }
            },
            SimPhase::Delivered => {
                drain_agents(&mut agents);
                phase = SimPhase::LedgerSettled;
                SimStep::Delivered { tick, by: delivering_agent.clone() }
            },
            SimPhase::LedgerSettled => {
                match ledger.release_final_payment(order_id.as_str(), delivering_agent.as_str()) {
                    Ok(()) => {},
                    Err(_) => unreached(),
                }
                reauction_candidates = silent_first_agent_probe(&agents, "sim-reauction-1", t);
                let mut safety = SafetyMonitor::new();
                let zone = SafetyZone {
                    zone_id: String::from_str("zone-alpha"),
                    center: pickup(),
                    radius_m: PICKUP_ZONE_RADIUS_BITS,
                    active: true,
                    declared_at: t,
                };
                let ghost spec_zone = zone;
                safety.add_alert(zone);
                safety_paused = safety.is_paused_by_safety(pickup(), inside);
                proof {
                    let key = spec_zone.zone_id@;
                    assert(safety.zones().dom() =~= set![key]);
                    assert(safety.zones().contains_key(key));
                    assert(safety.zones()[key] == spec_zone);
                    if safety_paused {
                        let k = choose|k: Seq<char>|
                            #[trigger] safety.zones().contains_key(k) && safety.zones()[k].active
                                && inside.ensures((&safety.zones()[k], pickup_point()), true);
                        assert(k == key);
                    }
                    assert(is_pickup_zone(spec_zone, t));
                    assert(exists|z: SafetyZone|
                        is_pickup_zone(z, t) && inside.ensures((&z, pickup_point()), safety_paused));
                    assert(t == (MVP_BASE_T + tick) as u64);
                    zone_seen = spec_zone;
                    assert(ids_of(reauction_candidates@) == silent_first_candidates(
                        agent_ids(a0),
                        "sim-reauction-1"@,
                    ));
                }
                let balance = ledger.balance_of(delivering_agent.as_str());
                phase = SimPhase::Done;
                let mut copies: Vec<String> = Vec::new();
                let m = reauction_candidates.len();
                let mut k: usize = 0;
                while k < m
                    invariant
                        m == reauction_candidates@.len(),
                        k <= m,
                        copies@ == reauction_candidates@.take(k as int),
                    decreases m - k,
                {
                    copies.push(reauction_candidates[k].clone());
                    proof {
                        assert(reauction_candidates@.take(k + 1) =~= reauction_candidates@.take(k as int).push(reauction_candidates@[k as int]));
                    }
                    k = k + 1;
                }
                proof {
                    assert(reauction_candidates@.take(m as int) =~= reauction_candidates@);
                }
                SimStep::LedgerSettled {
                    tick,
                    agent: delivering_agent.clone(),
                    balance,
                    reauction: copies,
                    safety_paused,
                }
            },
            SimPhase::Done => SimStep::AlreadyComplete { tick },
        };
        proof {
            assert(agents@.len() == a0.len());
            assert forall|i: int| 0 <= i < a0.len() implies #[trigger] agents@[i].config == a0[i].config by {
            }
            if phase == SimPhase::MovingToPickup || phase == SimPhase::PickupCompleted || phase
                == SimPhase::InTransit || phase == SimPhase::HandoffRequested || phase
                == SimPhase::HandoffCompleted {
                let i = choose|i: int| 0 <= i < a0.len() && a0[i].config.node_id@ == winner_id@;
                assert(agents@[i].config == a0[i].config);
                assert(agents@[0].config == a0[0].config);
                assert(ledger.balances() =~= Map::<Seq<char>, u64>::empty().insert(agents@[0].config.node_id@, 0));
            }
            assert(agent_ids(agents@) == agent_ids(a0)) by {
                assert(agent_ids(agents@) =~= agent_ids(a0));
            }
        }
        *self = LiveSim {
            agents,
            tick: tick + 1,
            phase,
            order_id,
            winner_id,
            delivering_agent,
            ledger,
            reauction_candidates,
            safety_paused,
        };
        proof {
            if old(self).phase() == SimPhase::LedgerSettled {
                assert(is_pickup_zone(zone_seen, (MVP_BASE_T + old(self).tick_count()) as u64));
                assert(inside.ensures((&zone_seen, pickup_point()), self.paused()));
            }
        }
        ev
    }
}

/// Drain one battery percent from every agent.
fn drain_agents(agents: &mut Vec<SimAgent>)
    ensures
        final(agents)@ == drained(old(agents)@),
{
    let ghost before = agents@;
    let n = agents.len();
    let mut i: usize = 0;
    while i < n
        invariant
            n == before.len(),
            agents@.len() == n,
            i <= n,
            forall|k: int| 0 <= k < i ==> agents@[k] == drain(before[k]),
            forall|k: int| i <= k < n ==> agents@[k] == before[k],
        decreases n - i,
    {
        let mut a = agents.remove(i);
        let b = a.state.battery_pct;
        a.state.battery_pct = if b > 0 { b - 1 } else { 0 };
        agents.insert(i, a);
        i = i + 1;
    }
    proof {
        assert(agents@ =~= drained(before));
    }
}

/// The first position whose agent carries `id`, if any does.
fn find_agent(agents: &Vec<SimAgent>, id: &str) -> (r: Option<usize>)
    ensures
        match r {
            Some(f) => first_with_id(agents@, id@, f as int),
            None => forall|j: int| 0 <= j < agents@.len() ==> agents@[j].config.node_id@ != id@,
        },
{
    let n = agents.len();
    let mut i: usize = 0;
    while i < n
        invariant
            n == agents@.len(),
            i <= n,
            forall|j: int| 0 <= j < i ==> agents@[j].config.node_id@ != id@,
        decreases n - i,
    {
        if crate::text::str_eq(agents[i].config.node_id.as_str(), id) {
            return Some(i);
        }
        i = i + 1;
    }
    None
}

} // verus!
