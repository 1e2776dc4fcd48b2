//! The auction book of a swarm node: the open auctions, their bids, and
//! the winner of each.
//!
//! Scores are `f64` bit patterns; callers compare them with a closure.

use vstd::prelude::*;

use std::collections::HashMap;

use crate::table::NameTable;
use crate::types::{AgentId, OrderId, Point, SwarmMessage};

verus! {

broadcast use vstd::std_specs::hash::group_hash_axioms;

/// All bids received for a single order.
pub struct AuctionState {
    pub order_id: OrderId,
    pub pickup: Point,
    pub delivery: Point,
    /// `f64` bits.
    pub weight: u64,
    pub escrow_amount: u64,
    /// Score (`f64` bits) of each bidding agent.
    pub bids: NameTable<u64>,
    pub winner: Option<AgentId>,
}

/// The scores of a bid table, in table order.
pub open spec fn scores_of(bids: NameTable<u64>) -> Seq<u64> {
    Seq::new(bids.size(), |k: int| bids.value_at(k))
}

/// A left-to-right scan of the first `i` scores can end with position `b`
/// as the best: the scan starts with the first score and moves on to a
/// later score whenever `above` says the best so far is not above it.
pub open spec fn scan_reaches<F: Fn(u64, u64) -> bool>(scores: Seq<u64>, above: F, i: nat, b: int) -> bool
    decreases i,
{
    if i <= 1 {
        i == 1 && b == 0
    } else {
        let j = i - 1;
        ||| scan_reaches(scores, above, (i - 1) as nat, b) && above.ensures((scores[b], scores[j]), true)
        ||| b == j && exists|b0: int|
            scan_reaches(scores, above, (i - 1) as nat, b0) && #[trigger] above.ensures((scores[b0], scores[j]), false)
    }
}

/// Tracks active auctions and determines their winners.
pub struct AuctionBook {
    pub auctions: HashMap<OrderId, AuctionState>,
}

impl AuctionBook {
    /// An empty book.
    pub fn new() -> (b: Self)
        ensures
            b.auctions@ == Map::<OrderId, AuctionState>::empty(),
    {
        AuctionBook { auctions: HashMap::new() }
    }

    /// Register a new order (an `OrderCreated` message), replacing any
    /// auction of that order; other messages change nothing.
    pub fn open_auction(&mut self, msg: &SwarmMessage)
        ensures
            match *msg {
                SwarmMessage::OrderCreated { order_id, pickup, delivery, weight, escrow_amount } => {
                    &&& final(self).auctions@.dom() == old(self).auctions@.dom().insert(order_id)
                    &&& forall|k: OrderId| k != order_id ==> #[trigger] final(self).auctions@[k] == old(self).auctions@[k]
                    &&& ({
                        let a = final(self).auctions@[order_id];
                        &&& a.order_id == order_id
                        &&& a.pickup == pickup
                        &&& a.delivery == delivery
                        &&& a.weight == weight
                        &&& a.escrow_amount == escrow_amount
                        &&& a.bids@ == Map::<Seq<char>, u64>::empty()
                        &&& a.winner is None
                    })
                },
                _ => final(self).auctions@ == old(self).auctions@,
            },
    {
        match msg {
            SwarmMessage::OrderCreated { order_id, pickup, delivery, weight, escrow_amount } => {
                self.auctions.insert(
                    *order_id,
                    AuctionState {
                        order_id: *order_id,
                        pickup: *pickup,
                        delivery: *delivery,
                        weight: *weight,
                        escrow_amount: *escrow_amount,
                        bids: NameTable::new(),
                        winner: None,
                    },
                );
            },
            _ => {},
        }
    }

    /// Record (or replace) `agent_id`'s bid on an open auction; bids on
    /// unknown orders are dropped.
    pub fn record_bid(&mut self, order_id: OrderId, agent_id: AgentId, score: u64)
        ensures
            final(self).auctions@.dom() == old(self).auctions@.dom(),
            forall|k: OrderId| k != order_id ==> #[trigger] final(self).auctions@[k] == old(self).auctions@[k],
            old(self).auctions@.contains_key(order_id) ==> {
                let a = old(self).auctions@[order_id];
                let b = final(self).auctions@[order_id];
                &&& b.bids@ == a.bids@.insert(agent_id@, score)
                &&& b.order_id == a.order_id
                &&& b.pickup == a.pickup
                &&& b.delivery == a.delivery
                &&& b.weight == a.weight
                &&& b.escrow_amount == a.escrow_amount
                &&& b.winner == a.winner
            },
    {
        match self.auctions.remove(&order_id) {
            Some(mut a) => {
                a.bids.insert(agent_id, score);
                self.auctions.insert(order_id, a);
                proof {
                    assert(self.auctions@.dom() =~= old(self).auctions@.dom());
                }
            },
            None => {},
        }
    }

    /// The winner of `order_id`'s auction: the one already settled, or
    /// else the best bid as a left-to-right scan finds it, where `above`
    /// tells whether a score is above another (so the last of equal best
    /// bids wins); it is then settled.
    /// `None` for an unknown order or one without bids.
    pub fn determine_winner<F: Fn(u64, u64) -> bool>(&mut self, order_id: OrderId, above: &F) -> (r: Option<AgentId>)
        requires
            forall|a: u64, b: u64| #[trigger] above.requires((a, b)),
        ensures
            final(self).auctions@.dom() == old(self).auctions@.dom(),
            forall|k: OrderId| k != order_id ==> #[trigger] final(self).auctions@[k] == old(self).auctions@[k],
            !old(self).auctions@.contains_key(order_id) ==> r is None,
            old(self).auctions@.contains_key(order_id) ==> {
                let a = old(self).auctions@[order_id];
                let b = final(self).auctions@[order_id];
                &&& b.bids == a.bids
                &&& b.order_id == a.order_id
                &&& b.pickup == a.pickup
                &&& b.delivery == a.delivery
                &&& b.weight == a.weight
                &&& b.escrow_amount == a.escrow_amount
                &&& b.winner == r
                &&& match a.winner {
                    Some(w) => r == Some(w),
                    None => match r {
                        None => a.bids.size() == 0,
                        Some(w) => exists|p: int|
                            0 <= p < a.bids.size() && a.bids.key_at(p) == w@ && scan_reaches(
                                scores_of(a.bids),
                                *above,
                                a.bids.size(),
                                p,
                            ) && forall|q: int|
                                p < q < a.bids.size() ==> above.ensures(
                                    (a.bids.value_at(p), #[trigger] a.bids.value_at(q)),
                                    true,
                                ),
                    },
                }
            },
    {
        let mut a = match self.auctions.remove(&order_id) {
            Some(a) => a,
            None => {
                return None;
            },
        };
        let ghost a0 = a;
        let r = match &a.winner {
            Some(w) => Some(w.clone()),
            None => {
                let n = a.bids.len();
                if n == 0 {
                    None
                } else {
                    let mut best: usize = 0;
                    let mut i: usize = 1;
                    while i < n
                        invariant
                            n == a.bids.size(),
                            1 <= i <= n,
                            best < i,
                            scan_reaches(scores_of(a.bids), *above, i as nat, best as int),
                            forall|x: u64, y: u64| #[trigger] above.requires((x, y)),
                            forall|q: int|
                                best < q < i ==> above.ensures(
                                    (a.bids.value_at(best as int), #[trigger] a.bids.value_at(q)),
                                    true,
                                ),
                        decreases n - i,
                    {
                        let ghost b0 = best as int;
                        let keep = above(*a.bids.value(best), *a.bids.value(i));
                        proof {
                            assert(scores_of(a.bids)[b0] == a.bids.value_at(b0));
                            assert(scores_of(a.bids)[i as int] == a.bids.value_at(i as int));
                        }
                        if !keep {
                            best = i;
                        }
                        i = i + 1;
                    }
                    Some(a.bids.key(best).clone())
                }
            },
        };
        a.winner = match &r {
            Some(w) => Some(w.clone()),
            None => None,
        };
        self.auctions.insert(order_id, a);
        proof {
            assert(self.auctions@.dom() =~= old(self).auctions@.dom());
        }
        r
    }
}

} // verus!
