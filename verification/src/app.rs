//! Central in-memory state of one delivery node and the dispatcher that
//! applies consensus-ordered messages to it.
//!
//! Every message handler that depends on the time has an `_at` form that
//! takes the time as an argument; the plain form reads the clock.

use vstd::prelude::*;

use crate::config::AppConfig;
use crate::domain::auction;
use crate::domain::order::{self as order_fsm, advanced, step_target, Step};
use crate::table::NameTable;
use crate::types::{
    copy_node_opt, AgentState, AgentStatus, AuctionBid, GeoBits, NexusMessage, NodeId, Order,
    OrderStatus, Timestamp,
};

verus! {

/// Whole seconds since the Unix epoch by the machine's clock (0 for a clock
/// set before the epoch).
pub fn now() -> Timestamp {
    let t = crate::clock::clock_now();
    match crate::clock::since_unix_epoch(&t) {
        Ok(d) => crate::clock::whole_secs(&d),
        Err(_) => 0,
    }
}

/// `o` after the auction named `winner`, if it was bidding.
pub open spec fn after_winner(o: Order, winner: NodeId, now: Timestamp) -> Order {
    if o.status == OrderStatus::Bidding {
        Order { assigned_to: Some(winner), ..advanced(o, step_target(Step::Assign), now) }
    } else {
        o
    }
}

/// `o` after `new_holder` took it over, if a handoff was pending.
pub open spec fn after_handoff(o: Order, new_holder: NodeId, now: Timestamp) -> Order {
    if o.status == OrderStatus::HandoffPending {
        Order {
            assigned_to: Some(new_holder),
            ..advanced(o, step_target(Step::CompleteHandoff), now)
        }
    } else {
        o
    }
}

/// `o` after it was reported delivered, if it could be.
pub open spec fn after_delivery(o: Order, now: Timestamp) -> Order {
    if o.status == OrderStatus::InTransit || o.status == OrderStatus::HandedOff {
        advanced(o, step_target(Step::Deliver), now)
    } else {
        o
    }
}

/// `m` with the order under `id` replaced by `f` of it, when there is one.
pub open spec fn update_order(
    m: Map<Seq<char>, Order>,
    id: Seq<char>,
    f: spec_fn(Order) -> Order,
) -> Map<Seq<char>, Order> {
    if m.contains_key(id) {
        m.insert(id, f(m[id]))
    } else {
        m
    }
}

/// The bids recorded per order, each list in arrival order.
pub open spec fn bid_lists(t: NameTable<Vec<AuctionBid>>) -> Map<Seq<char>, Seq<AuctionBid>> {
    Map::new(|k: Seq<char>| t@.contains_key(k), |k: Seq<char>| t@[k]@)
}

/// The bids recorded for `id` (none if nothing was recorded).
pub open spec fn bids_for(bids: Map<Seq<char>, Seq<AuctionBid>>, id: Seq<char>) -> Seq<AuctionBid> {
    if bids.contains_key(id) {
        bids[id]
    } else {
        Seq::empty()
    }
}

/// Central application state for one delivery node.
pub struct App {
    pub config: AppConfig,
    /// Local agent state broadcast to peers.
    pub local_agent: AgentState,
    /// All orders seen on the network, keyed by order id.
    pub orders: NameTable<Order>,
    /// Latest known state of each peer node.
    pub peer_states: NameTable<AgentState>,
    /// Bids collected per order, keyed by order id.
    pub bids: NameTable<Vec<AuctionBid>>,
}

impl App {
    /// The bids recorded per order.
    pub open spec fn bid_view(&self) -> Map<Seq<char>, Seq<AuctionBid>> {
        bid_lists(self.bids)
    }

    /// `a` is a fresh node state for `config`: local agent `Idle` at the
    /// configured position, stamped with time `t`, and nothing seen yet.
    pub open spec fn is_fresh(a: App, config: AppConfig, t: Timestamp) -> bool {
        &&& a.config == config
        &&& a.local_agent == (AgentState {
            node_id: a.local_agent.node_id,
            kind: config.agent_kind,
            status: AgentStatus::Idle,
            location: config.position(),
            battery_pct: config.battery,
            updated_at: t,
        })
        &&& a.local_agent.node_id@ == config.node_id@
        &&& a.orders@ == Map::<Seq<char>, Order>::empty()
        &&& a.peer_states@ == Map::<Seq<char>, AgentState>::empty()
        &&& a.bid_view() == Map::<Seq<char>, Seq<AuctionBid>>::empty()
    }

    /// Initialise from a configuration, stamping the local agent with the
    /// time `now`.
    pub fn new_at(config: AppConfig, now: Timestamp) -> (r: App)
        ensures
            Self::is_fresh(r, config, now),
    {
        let local_agent = AgentState {
            node_id: config.node_id.clone(),
            kind: config.agent_kind,
            status: AgentStatus::Idle,
            location: GeoBits { x_bits: config.x, y_bits: config.y },
            battery_pct: config.battery,
            updated_at: now,
        };
        let app = App {
            config,
            local_agent,
            orders: NameTable::new(),
            peer_states: NameTable::new(),
            bids: NameTable::new(),
        };
        proof {
            assert(app.bid_view() =~= Map::<Seq<char>, Seq<AuctionBid>>::empty());
        }
        app
    }

    /// Initialise from a configuration, stamping the local agent with the
    /// current time.  This cannot fail.
    pub fn new(config: AppConfig) -> (r: App)
        ensures
            exists|t: Timestamp| Self::is_fresh(r, config, t),
    {
        let t = now();
        Self::new_at(config, t)
    }

    /// Alias for [`App::new`].
    pub fn from_config(config: AppConfig) -> (r: App)
        ensures
            exists|t: Timestamp| Self::is_fresh(r, config, t),
    {
        Self::new(config)
    }

    /// The `AgentState` heartbeat message for this node.
    pub fn heartbeat(&self) -> (m: NexusMessage)
        ensures
            m == NexusMessage::AgentState(self.local_agent),
    {
        NexusMessage::AgentState(self.local_agent.duplicate())
    }

    /// Append `bid` to the bids recorded for `order_id`.
    fn push_bid(&mut self, order_id: &str, bid: AuctionBid)
        ensures
            final(self).bid_view() == old(self).bid_view().insert(
                order_id@,
                bids_for(old(self).bid_view(), order_id@).push(bid),
            ),
            final(self).config == old(self).config,
            final(self).local_agent == old(self).local_agent,
            final(self).orders@ == old(self).orders@,
            final(self).peer_states@ == old(self).peer_states@,
    {
        let mut list = match self.bids.remove(order_id) {
            Some(l) => l,
            None => Vec::new(),
        };
        list.push(bid);
        self.bids.insert(order_id.to_owned(), list);
        proof {
            assert(self.bid_view() =~= old(self).bid_view().insert(
                order_id@,
                bids_for(old(self).bid_view(), order_id@).push(bid),
            ));
        }
    }

    /// Record the latest state of a peer.
    fn on_agent_state(&mut self, state: AgentState)
        ensures
            final(self).peer_states@ == old(self).peer_states@.insert(state.node_id@, state),
            final(self).config == old(self).config,
            final(self).local_agent == old(self).local_agent,
            final(self).orders@ == old(self).orders@,
            final(self).bid_view() == old(self).bid_view(),
    {
        let key = state.node_id.clone();
        self.peer_states.insert(key, state);
    }

    /// Remember an order the first time it is seen.
    fn on_order_created(&mut self, order: Order)
        ensures
            final(self).orders@ == (if old(self).orders@.contains_key(order.order_id@) {
                old(self).orders@
            } else {
                old(self).orders@.insert(order.order_id@, order)
            }),
            final(self).config == old(self).config,
            final(self).local_agent == old(self).local_agent,
            final(self).peer_states@ == old(self).peer_states@,
            final(self).bid_view() == old(self).bid_view(),
    {
        if !self.orders.contains_key(order.order_id.as_str()) {
            let key = order.order_id.clone();
            self.orders.insert(key, order);
        }
    }

    /// Apply an order transition computed from the stored order, if the
    /// order is known and the transition is permitted.
    fn on_auction_winner(&mut self, order_id: String, winner: NodeId, now: Timestamp)
        ensures
            final(self).orders@ == update_order(
                old(self).orders@,
                order_id@,
                |o: Order| after_winner(o, winner, now),
            ),
            final(self).config == old(self).config,
            final(self).local_agent == old(self).local_agent,
            final(self).peer_states@ == old(self).peer_states@,
            final(self).bid_view() == old(self).bid_view(),
    {
        let current = match self.orders.get(order_id.as_str()) {
            Some(o) => o.duplicate(),
            None => {
                return;
            },
        };
        match order_fsm::assign_order(current, winner, now) {
            Ok((updated, _)) => {
                self.orders.insert(order_id, updated);
            },
            Err(_) => {
                proof {
                    assert(self.orders@.insert(order_id@, self.orders@[order_id@]) =~= self.orders@);
                }
            },
        }
    }

    /// Record that `new_holder` took over an order with a pending handoff.
    fn on_handoff_complete(&mut self, order_id: String, new_holder: NodeId, now: Timestamp)
        ensures
            final(self).orders@ == update_order(
                old(self).orders@,
                order_id@,
                |o: Order| after_handoff(o, new_holder, now),
            ),
            final(self).config == old(self).config,
            final(self).local_agent == old(self).local_agent,
            final(self).peer_states@ == old(self).peer_states@,
            final(self).bid_view() == old(self).bid_view(),
    {
        let current = match self.orders.get(order_id.as_str()) {
            Some(o) => o.duplicate(),
            None => {
                return;
            },
        };
        match order_fsm::complete_handoff(current, new_holder, now) {
            Ok((updated, _)) => {
                self.orders.insert(order_id, updated);
            },
            Err(_) => {
                proof {
                    assert(self.orders@.insert(order_id@, self.orders@[order_id@]) =~= self.orders@);
                }
            },
        }
    }

    /// Record a delivery reported for an order in transit or handed off.
    fn on_order_delivered(&mut self, order_id: String, delivered_by: NodeId, now: Timestamp)
        ensures
            final(self).orders@ == update_order(
                old(self).orders@,
                order_id@,
                |o: Order| after_delivery(o, now),
            ),
            final(self).config == old(self).config,
            final(self).local_agent == old(self).local_agent,
            final(self).peer_states@ == old(self).peer_states@,
            final(self).bid_view() == old(self).bid_view(),
    {
        let current = match self.orders.get(order_id.as_str()) {
            Some(o) => o.duplicate(),
            None => {
                return;
            },
        };
        match order_fsm::mark_delivered(current, delivered_by, now) {
            Ok((updated, _)) => {
                self.orders.insert(order_id, updated);
            },
            Err(_) => {
                proof {
                    assert(self.orders@.insert(order_id@, self.orders@[order_id@]) =~= self.orders@);
                }
            },
        }
    }

    /// Mark a peer reported as failed `Offline`, if it is known.
    fn on_agent_failure(&mut self, node_id: NodeId)
        ensures
            final(self).peer_states@ == (if old(self).peer_states@.contains_key(node_id@) {
                old(self).peer_states@.insert(
                    node_id@,
                    AgentState { status: AgentStatus::Offline, ..old(self).peer_states@[node_id@] },
                )
            } else {
                old(self).peer_states@
            }),
            final(self).config == old(self).config,
            final(self).local_agent == old(self).local_agent,
            final(self).orders@ == old(self).orders@,
            final(self).bid_view() == old(self).bid_view(),
    {
        let mut state = match self.peer_states.get(node_id.as_str()) {
            Some(s) => s.duplicate(),
            None => {
                return;
            },
        };
        state.status = AgentStatus::Offline;
        self.peer_states.insert(node_id, state);
    }

    /// Process one message received from a consensus event, taking `now`
    /// as the time of any order transition it causes.
    pub fn handle_message_at(&mut self, msg: NexusMessage, now: Timestamp)
        ensures
            Self::message_applied(*old(self), *final(self), msg, now),
    {
        match msg {
            NexusMessage::AgentState(state) => self.on_agent_state(state),
            NexusMessage::OrderCreated(order) => self.on_order_created(order),
            NexusMessage::AuctionBid(bid) => {
                let key = bid.order_id.clone();
                self.push_bid(key.as_str(), bid);
            },
            NexusMessage::AuctionWinner { order_id, winner } => {
                self.on_auction_winner(order_id, winner, now)
            },
            NexusMessage::HandoffRequest { .. } => {},
            NexusMessage::HandoffComplete { order_id, new_holder } => {
                self.on_handoff_complete(order_id, new_holder, now)
            },
            NexusMessage::AgentFailure { node_id, .. } => self.on_agent_failure(node_id),
            NexusMessage::SafetyAlert(_) => {},
            NexusMessage::SafetyClear { .. } => {},
            NexusMessage::OrderDelivered { order_id, delivered_by, .. } => {
                self.on_order_delivered(order_id, delivered_by, now)
            },
        }
    }

    /// Process one message received from a consensus event, taking the
    /// current time as the time of any order transition it causes.
    pub fn handle_message(&mut self, msg: NexusMessage)
        ensures
            exists|t: Timestamp| Self::message_applied(*old(self), *final(self), msg, t),
    {
        let t = now();
        self.handle_message_at(msg, t);
    }

    /// `b` is `a` after applying `msg` at time `now`: a peer's state is
    /// recorded, a new order remembered, a bid appended to its order's list,
    /// an auction winner, completed handoff or delivery advances the order
    /// when its status permits, a failed peer is marked `Offline`; handoff
    /// requests and safety messages change nothing here.
    pub open spec fn message_applied(a: App, b: App, msg: NexusMessage, now: Timestamp) -> bool {
        &&& b.config == a.config
        &&& b.local_agent == a.local_agent
        &&& match msg {
            NexusMessage::AgentState(s) => b.peer_states@ == a.peer_states@.insert(s.node_id@, s)
                && b.orders@ == a.orders@ && b.bid_view() == a.bid_view(),
            NexusMessage::OrderCreated(o) => b.orders@ == (if a.orders@.contains_key(
                o.order_id@,
            ) {
                a.orders@
            } else {
                a.orders@.insert(o.order_id@, o)
            }) && b.peer_states@ == a.peer_states@ && b.bid_view() == a.bid_view(),
            NexusMessage::AuctionBid(bid) => b.bid_view() == a.bid_view().insert(
                bid.order_id@,
                bids_for(a.bid_view(), bid.order_id@).push(bid),
            ) && b.orders@ == a.orders@ && b.peer_states@ == a.peer_states@,
            NexusMessage::AuctionWinner { order_id, winner } => b.orders@ == update_order(
                a.orders@,
                order_id@,
                |o: Order| after_winner(o, winner, now),
            ) && b.peer_states@ == a.peer_states@ && b.bid_view() == a.bid_view(),
            NexusMessage::HandoffComplete { order_id, new_holder } => b.orders@ == update_order(
                a.orders@,
                order_id@,
                |o: Order| after_handoff(o, new_holder, now),
            ) && b.peer_states@ == a.peer_states@ && b.bid_view() == a.bid_view(),
            NexusMessage::AgentFailure { node_id, .. } => b.peer_states@ == (if a.peer_states@.contains_key(
                node_id@,
            ) {
                a.peer_states@.insert(
                    node_id@,
                    AgentState { status: AgentStatus::Offline, ..a.peer_states@[node_id@] },
                )
            } else {
                a.peer_states@
            }) && b.orders@ == a.orders@ && b.bid_view() == a.bid_view(),
            NexusMessage::OrderDelivered { order_id, .. } => b.orders@ == update_order(
                a.orders@,
                order_id@,
                |o: Order| after_delivery(o, now),
            ) && b.peer_states@ == a.peer_states@ && b.bid_view() == a.bid_view(),
            _ => b.orders@ == a.orders@ && b.peer_states@ == a.peer_states@ && b.bid_view()
                == a.bid_view(),
        }
    }

    /// Create a new order originating here, stamped with `now`; it is
    /// recorded (replacing any order with that id) and the `OrderCreated`
    /// message to broadcast is returned.
    pub fn submit_order_at(&mut self, order_id: &str, pickup: GeoBits, dropoff: GeoBits, now: Timestamp) -> (m:
        NexusMessage)
        ensures
            final(self).config == old(self).config,
            final(self).local_agent == old(self).local_agent,
            final(self).peer_states@ == old(self).peer_states@,
            final(self).bid_view() == old(self).bid_view(),
            final(self).orders@.dom() == old(self).orders@.dom().insert(order_id@),
            forall|k: Seq<char>|
                k != order_id@ ==> #[trigger] final(self).orders@[k] == old(self).orders@[k],
            ({
                let o = final(self).orders@[order_id@];
                &&& o.order_id@ == order_id@
                &&& o.status == OrderStatus::Created
                &&& o.origin@ == old(self).config.node_id@
                &&& o.assigned_to is None
                &&& o.pickup == pickup
                &&& o.dropoff == dropoff
                &&& o.created_at == now
                &&& o.updated_at == now
                &&& m == NexusMessage::OrderCreated(o)
            }),
    {
        let origin = self.config.node_id.clone();
        let (order, msg) = order_fsm::create_order(order_id, origin, pickup, dropoff, now);
        self.orders.insert(order_id.to_owned(), order);
        proof {
            assert(self.orders@.dom() =~= old(self).orders@.dom().insert(order_id@));
        }
        msg
    }

    /// Create a new order originating here, stamped with the current time;
    /// see [`App::submit_order_at`].
    pub fn submit_order(&mut self, order_id: &str, pickup: GeoBits, dropoff: GeoBits) -> (m:
        NexusMessage)
        ensures
            final(self).config == old(self).config,
            final(self).local_agent == old(self).local_agent,
            final(self).peer_states@ == old(self).peer_states@,
            final(self).bid_view() == old(self).bid_view(),
            final(self).orders@.dom() == old(self).orders@.dom().insert(order_id@),
            forall|k: Seq<char>|
                k != order_id@ ==> #[trigger] final(self).orders@[k] == old(self).orders@[k],
            ({
                let o = final(self).orders@[order_id@];
                &&& o.order_id@ == order_id@
                &&& o.status == OrderStatus::Created
                &&& o.origin@ == old(self).config.node_id@
                &&& o.assigned_to is None
                &&& o.pickup == pickup
                &&& o.dropoff == dropoff
                &&& o.created_at == o.updated_at
                &&& m == NexusMessage::OrderCreated(o)
            }),
    {
        let t = now();
        self.submit_order_at(order_id, pickup, dropoff, t)
    }

    /// Record a bid of this node for `order_id`, stamped with `now`, and
    /// return the `AuctionBid` message to broadcast.
    pub fn submit_bid_at(&mut self, order_id: &str, eta_s: u32, now: Timestamp) -> (m: NexusMessage)
        ensures
            final(self).config == old(self).config,
            final(self).local_agent == old(self).local_agent,
            final(self).peer_states@ == old(self).peer_states@,
            final(self).orders@ == old(self).orders@,
            match m {
                NexusMessage::AuctionBid(b) => b.order_id@ == order_id@ && b.bidder@ == old(self).config.node_id@
                    && b.eta_s == eta_s && b.battery_pct == old(self).local_agent.battery_pct
                    && b.submitted_at == now && final(self).bid_view() == old(self).bid_view().insert(
                    order_id@,
                    bids_for(old(self).bid_view(), order_id@).push(b),
                ),
                _ => false,
            },
    {
        let bid = AuctionBid {
            order_id: order_id.to_owned(),
            bidder: self.config.node_id.clone(),
            eta_s,
            battery_pct: self.local_agent.battery_pct,
            submitted_at: now,
        };
        let copy = bid.duplicate();
        self.push_bid(order_id, bid);
        NexusMessage::AuctionBid(copy)
    }

    /// Record a bid of this node for `order_id`, stamped with the current
    /// time; see [`App::submit_bid_at`].
    pub fn submit_bid(&mut self, order_id: &str, eta_s: u32) -> (m: NexusMessage)
        ensures
            final(self).config == old(self).config,
            final(self).local_agent == old(self).local_agent,
            final(self).peer_states@ == old(self).peer_states@,
            final(self).orders@ == old(self).orders@,
            match m {
                NexusMessage::AuctionBid(b) => b.order_id@ == order_id@ && b.bidder@ == old(self).config.node_id@
                    && b.eta_s == eta_s && b.battery_pct == old(self).local_agent.battery_pct
                    && final(self).bid_view() == old(self).bid_view().insert(
                    order_id@,
                    bids_for(old(self).bid_view(), order_id@).push(b),
                ),
                _ => false,
            },
    {
        let t = now();
        self.submit_bid_at(order_id, eta_s, t)
    }

    /// The winner of the bids recorded for `order_id`, if any were, where
    /// `score` gives each bid's `f64` score as bits.
    pub fn evaluate_auction<S: Fn(&AuctionBid) -> u64>(&self, order_id: &str, score: &S) -> (r: Option<NodeId>)
        requires
            forall|b: &AuctionBid| #[trigger] score.requires((b,)),
        ensures
            match r {
                Some(w) => exists|s: Seq<u64>, i: int|
                    auction::scored(bids_for(self.bid_view(), order_id@), *score, s) && auction::is_winner_at(
                        bids_for(self.bid_view(), order_id@),
                        s,
                        i,
                    ) && w == bids_for(self.bid_view(), order_id@)[i].bidder,
                None => bids_for(self.bid_view(), order_id@).len() == 0,
            },
    {
        match self.bids.get(order_id) {
            Some(list) => {
                proof {
                    assert(self.bid_view().contains_key(order_id@));
                    assert(bids_for(self.bid_view(), order_id@) == list@);
                }
                auction::choose_winner_id(list.as_slice(), score)
            },
            None => {
                proof {
                    assert(!self.bid_view().contains_key(order_id@));
                }
                None
            },
        }
    }
}

} // verus!
