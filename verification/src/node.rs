//! The decisions of a live delivery node: which follow-up messages it
//! sends in reaction to a consensus-ordered message.
//!
//! The node bids on new orders while it is idle, resolves the auctions of
//! the orders it created, and confirms the deliveries of the orders it won.
//! The follow-ups are decided on the state before the message is applied.

use vstd::prelude::*;

use crate::app::{bids_for, App};
use crate::domain::auction::{self, is_winner_at, scored};
use crate::table::NameTable;
use crate::text::{decimal, decimal_text};
use crate::types::{AgentStatus, AuctionBid, GeoBits, NexusMessage, Order, OrderStatus, Timestamp};

verus! {

/// `o` is assigned to `node_id` and not yet finished.
pub open spec fn active_for(o: Order, node_id: Seq<char>) -> bool {
    &&& o.assigned_to matches Some(a) && a@ == node_id
    &&& o.status != OrderStatus::Delivered
    &&& o.status != OrderStatus::Cancelled
}

/// Some known order is assigned to `node_id` and not yet finished.
pub open spec fn busy_in(orders: Map<Seq<char>, Order>, node_id: Seq<char>) -> bool {
    exists|k: Seq<char>| #[trigger] orders.contains_key(k) && active_for(orders[k], node_id)
}

/// Whether this node has at least one active (non-terminal) order.
pub fn is_busy(app: &App, node_id: &str) -> (r: bool)
    ensures
        r == busy_in(app.orders@, node_id@),
{
    let n = app.orders.len();
    let mut i: usize = 0;
    while i < n
        invariant
            n == app.orders.size(),
            i <= n,
            forall|a: int|
                #![trigger app.orders.key_at(a)]
                0 <= a < n ==> app.orders@.contains_key(app.orders.key_at(a))
                    && app.orders@[app.orders.key_at(a)] == app.orders.value_at(a),
            forall|j: int| 0 <= j < i ==> !active_for(#[trigger] app.orders.value_at(j), node_id@),
        decreases n - i,
    {
        let o = app.orders.value(i);
        let mine = match &o.assigned_to {
            Some(a) => crate::text::str_eq(a.as_str(), node_id),
            None => false,
        };
        if mine && o.status != OrderStatus::Delivered && o.status != OrderStatus::Cancelled {
            proof {
                assert(app.orders@.contains_key(app.orders.key_at(i as int)));
            }
            return true;
        }
        i = i + 1;
    }
    proof {
        assert forall|k: Seq<char>| #[trigger] app.orders@.contains_key(k) implies !active_for(
            app.orders@[k],
            node_id@,
        ) by {
            let a = choose|a: int|
                #![trigger app.orders.key_at(a)]
                0 <= a < app.orders.size() && app.orders.key_at(a) == k;
            assert(app.orders.value_at(a) == app.orders@[k]);
        }
    }
    false
}

/// Short human-readable label for a message variant.
pub fn label(msg: &NexusMessage) -> (r: &'static str)
    ensures
        r@ == (match *msg {
            NexusMessage::AgentState(_) => "AgentState"@,
            NexusMessage::OrderCreated(_) => "OrderCreated"@,
            NexusMessage::AuctionBid(_) => "AuctionBid"@,
            NexusMessage::AuctionWinner { .. } => "AuctionWinner"@,
            NexusMessage::HandoffRequest { .. } => "HandoffRequest"@,
            NexusMessage::HandoffComplete { .. } => "HandoffComplete"@,
            NexusMessage::AgentFailure { .. } => "AgentFailure"@,
            NexusMessage::SafetyAlert(_) => "SafetyAlert"@,
            NexusMessage::SafetyClear { .. } => "SafetyClear"@,
            NexusMessage::OrderDelivered { .. } => "OrderDelivered"@,
        }),
{
    match msg {
        NexusMessage::AgentState(_) => "AgentState",
        NexusMessage::OrderCreated(_) => "OrderCreated",
        NexusMessage::AuctionBid(_) => "AuctionBid",
        NexusMessage::AuctionWinner { .. } => "AuctionWinner",
        NexusMessage::HandoffRequest { .. } => "HandoffRequest",
        NexusMessage::HandoffComplete { .. } => "HandoffComplete",
        NexusMessage::AgentFailure { .. } => "AgentFailure",
        NexusMessage::SafetyAlert(_) => "SafetyAlert",
        NexusMessage::SafetyClear { .. } => "SafetyClear",
        NexusMessage::OrderDelivered { .. } => "OrderDelivered",
    }
}

/// The follow-up messages this node sends in reaction to `msg`, decided on
/// `app` before `msg` is applied to it, at time `now`:
///
/// - a new order gets a bid from this node while it is idle and carries no
///   unfinished order, its ETA being what `eta_to` gives from the node's
///   position to the pickup point;
/// - a bid on an order this node created that is still open settles the
///   auction over the bids recorded so far and this one, once per order
///   (`resolved` remembers the settled ones), each bid scored by `score`
///   (an `f64` as bits);
/// - winning an auction confirms the delivery, once per order
///   (`delivering` remembers the orders being delivered);
/// - a delivery ends the order's stay in `delivering`.
#[verifier::spinoff_prover]
pub fn decide_follow_ups<E: Fn(GeoBits, GeoBits) -> u32, S: Fn(&AuctionBid) -> u64>(
    app: &App,
    msg: &NexusMessage,
    node_id: &str,
    resolved: &mut NameTable<()>,
    delivering: &mut NameTable<()>,
    eta_to: &E,
    score: &S,
    now: Timestamp,
) -> (out: Vec<NexusMessage>)
    requires
        forall|x: GeoBits, y: GeoBits| #[trigger] eta_to.requires((x, y)),
        forall|b: &AuctionBid| #[trigger] score.requires((b,)),
    ensures
        match *msg {
            NexusMessage::OrderCreated(order) => final(resolved)@ == old(resolved)@ && final(delivering)@
                == old(delivering)@ && if app.local_agent.status == AgentStatus::Idle && !busy_in(
                app.orders@,
                node_id@,
            ) {
                out@.len() == 1 && (out@[0] matches NexusMessage::AuctionBid(b) && b.order_id == order.order_id
                    && b.bidder@ == node_id@ && b.battery_pct == app.local_agent.battery_pct
                    && b.submitted_at == now && eta_to.ensures(
                    (app.local_agent.location, order.pickup),
                    b.eta_s,
                ))
            } else {
                out@.len() == 0
            },
            NexusMessage::AuctionBid(bid) => final(delivering)@ == old(delivering)@ && {
                let id = bid.order_id@;
                let open = !old(resolved)@.contains_key(id) && app.orders@.contains_key(id)
                    && app.orders@[id].origin@ == node_id@ && (app.orders@[id].status
                    == OrderStatus::Created || app.orders@[id].status == OrderStatus::Bidding);
                if open {
                    let all = bids_for(app.bid_view(), id).push(bid);
                    final(resolved)@ == old(resolved)@.insert(id, ()) && out@.len() == 1
                        && (out@[0] matches NexusMessage::AuctionWinner { order_id, winner }
                        && order_id == bid.order_id && exists|sc: Seq<u64>, w: int|
                        scored(all, *score, sc) && is_winner_at(all, sc, w) && winner == all[w].bidder)
                } else {
                    final(resolved)@ == old(resolved)@ && out@.len() == 0
                }
            },
            NexusMessage::AuctionWinner { order_id, winner } => final(resolved)@ == old(resolved)@ && if winner@
                == node_id@ && !old(delivering)@.contains_key(order_id@) {
                final(delivering)@ == old(delivering)@.insert(order_id@, ()) && out@.len() == 1
                    && (out@[0] matches NexusMessage::OrderDelivered { order_id: o, delivered_by, at }
                    && o == order_id && delivered_by@ == node_id@ && at == now)
            } else {
                final(delivering)@ == old(delivering)@ && out@.len() == 0
            },
            NexusMessage::OrderDelivered { order_id, .. } => final(resolved)@ == old(resolved)@
                && final(delivering)@ == old(delivering)@.remove(order_id@) && out@.len() == 0,
            _ => final(resolved)@ == old(resolved)@ && final(delivering)@ == old(delivering)@
                && out@.len() == 0,
        },
{
    let mut out: Vec<NexusMessage> = Vec::new();
    match msg {
        NexusMessage::OrderCreated(order) => {
            if app.local_agent.status == AgentStatus::Idle && !is_busy(app, node_id) {
                let eta = eta_to(app.local_agent.location, order.pickup);
                out.push(
                    NexusMessage::AuctionBid(
                        AuctionBid {
                            order_id: order.order_id.clone(),
                            bidder: node_id.to_owned(),
                            eta_s: eta,
                            battery_pct: app.local_agent.battery_pct,
                            submitted_at: now,
                        },
                    ),
                );
            }
        },
        NexusMessage::AuctionBid(bid) => {
            if resolved.contains_key(bid.order_id.as_str()) {
                return out;
            }
            if let Some(order) = app.orders.get(bid.order_id.as_str()) {
                let we_created = crate::text::str_eq(order.origin.as_str(), node_id);
                let still_open = order.status == OrderStatus::Created || order.status
                    == OrderStatus::Bidding;
                if we_created && still_open {
                    let mut all_bids: Vec<AuctionBid> = Vec::new();
                    match app.bids.get(bid.order_id.as_str()) {
                        Some(list) => {
                            let m = list.len();
                            let mut k: usize = 0;
                            while k < m
                                invariant
                                    m == list@.len(),
                                    k <= m,
                                    all_bids@ == list@.take(k as int),
                                decreases m - k,
                            {
                                all_bids.push(list[k].duplicate());
                                proof {
                                    assert(list@.take(k + 1) =~= list@.take(k as int).push(list@[k as int]));
                                }
                                k = k + 1;
                            }
                            proof {
                                assert(list@.take(m as int) =~= list@);
                                assert(app.bid_view().contains_key(bid.order_id@));
                                assert(all_bids@ == bids_for(app.bid_view(), bid.order_id@));
                            }
                        },
                        None => {
                            proof {
                                assert(!app.bid_view().contains_key(bid.order_id@));
                                assert(all_bids@ =~= bids_for(app.bid_view(), bid.order_id@));
                            }
                        },
                    }
                    all_bids.push(bid.duplicate());
                    proof {
                        assert(all_bids@ == bids_for(app.bid_view(), bid.order_id@).push(*bid));
                    }
                    match auction::choose_winner_id(all_bids.as_slice(), score) {
                        Some(winner) => {
                            resolved.insert(bid.order_id.clone(), ());
                            out.push(
                                NexusMessage::AuctionWinner { order_id: bid.order_id.clone(), winner },
                            );
                        },
                        None => {},
                    }
                }
            }
        },
        NexusMessage::AuctionWinner { order_id, winner } => {
            if crate::text::str_eq(winner.as_str(), node_id) && !delivering.contains_key(
                order_id.as_str(),
            ) {
                delivering.insert(order_id.clone(), ());
                out.push(
                    NexusMessage::OrderDelivered {
                        order_id: order_id.clone(),
                        delivered_by: node_id.to_owned(),
                        at: now,
                    },
                );
            }
        },
        NexusMessage::OrderDelivered { order_id, .. } => {
            let _ = delivering.remove(order_id.as_str());
        },
        _ => {},
    }
    out
}

/// Ticks in one window of order creation.
pub const ORDER_WINDOW_TICKS: u64 = 20;

/// The wrapping sum of `bytes`.
pub open spec fn byte_sum(bytes: Seq<u8>) -> u64
    decreases bytes.len(),
{
    if bytes.len() == 0 {
        0
    } else {
        byte_sum(bytes.drop_last()).wrapping_add(bytes.last() as u64)
    }
}

/// The tick, within each window, at which the node `node_id` creates its
/// orders: the wrapping sum of its id's bytes, modulo the window, so that
/// nodes with different ids tend to take turns.
pub fn order_emit_tick(node_id: &str) -> (r: u64)
    ensures
        r == byte_sum(vstd::utf8::encode_utf8(node_id@)) % ORDER_WINDOW_TICKS,
{
    let b = node_id.as_bytes();
    let n = b.len();
    let mut sum: u64 = 0;
    let mut i: usize = 0;
    while i < n
        invariant
            n == b@.len(),
            b@ == vstd::utf8::encode_utf8(node_id@),
            i <= n,
            sum == byte_sum(b@.take(i as int)),
        decreases n - i,
    {
        proof {
            assert(b@.take(i + 1).drop_last() =~= b@.take(i as int));
        }
        sum = sum.wrapping_add(b[i] as u64);
        i = i + 1;
    }
    proof {
        assert(b@.take(n as int) =~= b@);
    }
    sum % ORDER_WINDOW_TICKS
}

/// Whether the node creates an order at `tick`: on its tick of the window,
/// when it carries no unfinished order and has nothing waiting to be sent.
pub fn order_due(app: &App, node_id: &str, tick: u64, emit_tick: u64, queued: bool) -> (r: bool)
    ensures
        r == (tick % ORDER_WINDOW_TICKS == emit_tick && !busy_in(app.orders@, node_id@) && !queued),
{
    tick % ORDER_WINDOW_TICKS == emit_tick && !queued && !is_busy(app, node_id)
}

/// Count one more order of node `node_id` and return its id,
/// `"<node>-order-<count>"`.
pub fn next_order_id(node_id: &str, seq: &mut u64) -> (r: String)
    requires
        *old(seq) < u64::MAX,
    ensures
        *final(seq) == *old(seq) + 1,
        r@ == node_id@ + "-order-"@ + decimal(*final(seq) as nat),
{
    *seq = *seq + 1;
    let mut id = String::from_str(node_id);
    id.append("-order-");
    id.append(decimal_text(*seq).as_str());
    id
}

} // verus!
