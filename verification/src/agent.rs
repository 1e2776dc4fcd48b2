//! The runtime of one swarm agent: its reaction to every protocol message.
//!
//! The floating-point parts of the protocol are supplied by the caller as
//! closures: whether a position lies in a safety zone, the score of the
//! agent's bid on an order, and a fraction of an amount.

use vstd::prelude::*;

use std::collections::HashMap;

use crate::auction::AuctionBook;
use crate::crypto::{
    client_escrow_signature, derive_key, escrow_signature_of, le_bytes, proof_hash, push_le_u64,
    sign_message, signature_of, validator_signature, verify_signature,
};
use crate::handoff::{HandoffManager, HANDOFF_PAYMENT_PCT_BITS};
use crate::healing::FailureDetector;
use crate::payments::{
    has_escrow, lemma_pending_after_release, lemma_pending_covers, now_ms, pending_for, position_of,
    released_copy, returns_fit, timeouts_fit, EscrowLedger,
};
use crate::safety::{SafetyMesh, SafetyZone};
use crate::types::{
    AgentId, AgentStatus, EscrowId, EscrowInfo, GeoBits, HandoffId, NexusAgent, OrderId, Point,
    SwarmMessage,
};

verus! {

broadcast use vstd::std_specs::hash::group_hash_axioms;

/// Fraction 0.70 of the escrow released on delivery, as `f64` bits.
pub const RELEASE_PCT_BITS: u64 = 0x3fe6666666666666;

/// Weight 1.0 of a re-auctioned order, as `f64` bits.
pub const REAUCTION_WEIGHT_BITS: u64 = 0x3ff0000000000000;

/// Full NexusFly agent runtime.
pub struct AgentRuntime {
    pub state: NexusAgent,
    pub auction_book: AuctionBook,
    pub handoffs: HandoffManager,
    pub detector: FailureDetector,
    pub ledger: EscrowLedger,
    pub safety: SafetyMesh,
    /// Current holder of each order.
    pub order_holders: HashMap<OrderId, AgentId>,
    /// Escrow total of each order.
    pub escrow_amounts: HashMap<OrderId, u64>,
    pub escrow_ids: HashMap<OrderId, EscrowId>,
    pub next_escrow_id: EscrowId,
    pub next_handoff_id: HandoffId,
    /// Messages queued to be sent.
    pub outbox: Vec<SwarmMessage>,
}

/// The amount `m` records for `k`, 0 when it records none.
pub open spec fn amount_or_zero(m: Map<OrderId, u64>, k: OrderId) -> u64 {
    if m.contains_key(k) {
        m[k]
    } else {
        0
    }
}

/// `frozen` is a possible answer to whether `position` lies in an active
/// zone of `mesh`, given the zone test `inside`.
pub open spec fn frozen_answer<I: Fn(&SafetyZone, Point) -> bool>(
    mesh: SafetyMesh,
    position: Point,
    inside: I,
    frozen: bool,
) -> bool {
    &&& frozen ==> exists|k: u64|
        #[trigger] mesh.zones().contains_key(k) && mesh.zones()[k].active && inside.ensures(
            (&mesh.zones()[k], position),
            true,
        )
    &&& !frozen ==> forall|k: u64|
        #[trigger] mesh.zones().contains_key(k) && mesh.zones()[k].active ==> inside.ensures(
            (&mesh.zones()[k], position),
            false,
        )
}

/// `l1` is `l0` after locking escrow `eid` of `amount` for `order_id`,
/// held by `holder`, authorised by `sig`: it is added when the signature is
/// the client's and the id is new, and nothing changes otherwise.
pub open spec fn locked(
    l0: EscrowLedger,
    l1: EscrowLedger,
    eid: EscrowId,
    order_id: OrderId,
    amount: u64,
    holder: Seq<char>,
    sig: Seq<u8>,
) -> bool {
    &&& l1.wf()
    &&& forall|a: Seq<char>| #[trigger] l1.balance_of(a) == l0.balance_of(a)
    &&& if sig == escrow_signature_of(order_id, amount) && !has_escrow(l0.escrows(), eid) {
        &&& l1.escrows().len() == l0.escrows().len() + 1
        &&& l1.escrows().drop_last() == l0.escrows()
        &&& ({
            let e = l1.escrows().last();
            &&& e.escrow_id == eid
            &&& e.order_id == order_id
            &&& e.amount == amount
            &&& e.client_signature@ == sig
            &&& e.holder_agent@ == holder
            &&& !e.released
        })
    } else {
        l1.escrows() == l0.escrows()
    }
}

/// `l1` is `l0` after returning escrow `eid` to its holder: an unreleased
/// escrow is marked released and its amount credited; nothing changes
/// otherwise.
pub open spec fn returned(l0: EscrowLedger, l1: EscrowLedger, eid: EscrowId) -> bool {
    let p = position_of(l0.escrows(), eid);
    let e = l0.escrows()[p];
    &&& l1.wf()
    &&& if has_escrow(l0.escrows(), eid) && !e.released {
        &&& l1.escrows().len() == l0.escrows().len()
        &&& (forall|i: int| 0 <= i < l0.escrows().len() && i != p ==> #[trigger] l1.escrows()[i] == l0.escrows()[i])
        &&& released_copy(e, l1.escrows()[p])
        &&& forall|a: Seq<char>|
            #[trigger] l1.balance_of(a) == l0.balance_of(a) + if a == e.holder_agent@ {
                e.amount as int
            } else {
                0
            }
    } else {
        &&& l1.escrows() == l0.escrows()
        &&& forall|a: Seq<char>| #[trigger] l1.balance_of(a) == l0.balance_of(a)
    }
}

/// `l1` is `l0` after releasing `amount` of escrow `eid` to `to`: it
/// happens when the escrow exists, is unreleased and holds at least
/// `amount`; nothing changes otherwise.
pub open spec fn released_to(l0: EscrowLedger, l1: EscrowLedger, eid: EscrowId, to: Seq<char>, amount: u64) -> bool {
    let p = position_of(l0.escrows(), eid);
    let e = l0.escrows()[p];
    &&& l1.wf()
    &&& if has_escrow(l0.escrows(), eid) && !e.released && amount <= e.amount {
        &&& l1.escrows().len() == l0.escrows().len()
        &&& (forall|i: int| 0 <= i < l0.escrows().len() && i != p ==> #[trigger] l1.escrows()[i] == l0.escrows()[i])
        &&& released_copy(e, l1.escrows()[p])
        &&& forall|a: Seq<char>|
            #[trigger] l1.balance_of(a) == l0.balance_of(a) + if a == to {
                amount as int
            } else {
                0
            }
    } else {
        &&& l1.escrows() == l0.escrows()
        &&& forall|a: Seq<char>| #[trigger] l1.balance_of(a) == l0.balance_of(a)
    }
}

/// `l1` is `l0` after moving `amount` from `from` to `to` when `from` has
/// that much; nothing changes otherwise.
pub open spec fn transferred(l0: EscrowLedger, l1: EscrowLedger, from: Seq<char>, to: Seq<char>, amount: u64) -> bool {
    &&& l1.wf()
    &&& l1.escrows() == l0.escrows()
    &&& if l0.balance_of(from) >= amount {
        forall|a: Seq<char>|
            #[trigger] l1.balance_of(a) == l0.balance_of(a) - (if a == from {
                amount as int
            } else {
                0
            }) + (if a == to {
                amount as int
            } else {
                0
            })
    } else {
        forall|a: Seq<char>| #[trigger] l1.balance_of(a) == l0.balance_of(a)
    }
}

/// The bytes a handoff payment signs: handoff id and amount.
pub open spec fn handoff_payment_bytes(handoff_id: HandoffId, amount: u64) -> Seq<u8> {
    le_bytes(handoff_id) + le_bytes(amount)
}

/// The `OrderCreated` messages that put back up for auction the orders of
/// `orders` with a known escrow total, in order.
pub open spec fn reauction_messages(orders: Seq<OrderId>, amounts: Map<OrderId, u64>) -> Seq<SwarmMessage>
    decreases orders.len(),
{
    if orders.len() == 0 {
        seq![]
    } else {
        let rest = reauction_messages(orders.drop_last(), amounts);
        let o = orders.last();
        if amounts.contains_key(o) {
            rest.push(
                SwarmMessage::OrderCreated {
                    order_id: o,
                    pickup: GeoBits { x_bits: 0, y_bits: 0 },
                    delivery: GeoBits { x_bits: 0, y_bits: 0 },
                    weight: REAUCTION_WEIGHT_BITS,
                    escrow_amount: amounts[o],
                },
            )
        } else {
            rest
        }
    }
}

/// `l1` is `l0` after returning every escrow that has timed out at `now`
/// to its holder.
pub open spec fn recovered_at(l0: EscrowLedger, l1: EscrowLedger, now: u64) -> bool {
    &&& l1.escrows().len() == l0.escrows().len()
    &&& forall|i: int|
        #![trigger l1.escrows()[i]]
        0 <= i < l0.escrows().len() ==> if crate::payments::timed_out(l0.escrows()[i], now) {
            released_copy(l0.escrows()[i], l1.escrows()[i])
        } else {
            l1.escrows()[i] == l0.escrows()[i]
        }
    &&& forall|a: Seq<char>|
        #[trigger] l1.balance_of(a) == l0.balance_of(a) + crate::payments::recovered_for(l0.escrows(), now, a)
}

/// `b1` is `b0` with the auction of `order_id` opened afresh.
pub open spec fn auction_opened(
    b0: AuctionBook,
    b1: AuctionBook,
    order_id: OrderId,
    pickup: Point,
    delivery: Point,
    weight: u64,
    escrow_amount: u64,
) -> bool {
    &&& b1.auctions@.dom() == b0.auctions@.dom().insert(order_id)
    &&& forall|k: OrderId| k != order_id ==> #[trigger] b1.auctions@[k] == b0.auctions@[k]
    &&& ({
        let a = b1.auctions@[order_id];
        &&& a.order_id == order_id
        &&& a.pickup == pickup
        &&& a.delivery == delivery
        &&& a.weight == weight
        &&& a.escrow_amount == escrow_amount
        &&& a.bids@ == Map::<Seq<char>, u64>::empty()
        &&& a.winner is None
    })
}

/// `b1` is `b0` with `agent`'s bid of `score` recorded on the auction of
/// `order_id`, if that auction is open.
pub open spec fn bid_recorded(b0: AuctionBook, b1: AuctionBook, order_id: OrderId, agent: Seq<char>, score: u64) -> bool {
    &&& b1.auctions@.dom() == b0.auctions@.dom()
    &&& forall|k: OrderId| k != order_id ==> #[trigger] b1.auctions@[k] == b0.auctions@[k]
    &&& b0.auctions@.contains_key(order_id) ==> {
        let a = b0.auctions@[order_id];
        let b = b1.auctions@[order_id];
        &&& b.bids@ == a.bids@.insert(agent, score)
        &&& b.order_id == a.order_id
        &&& b.pickup == a.pickup
        &&& b.delivery == a.delivery
        &&& b.weight == a.weight
        &&& b.escrow_amount == a.escrow_amount
        &&& b.winner == a.winner
    }
}

/// What an `OrderCreated` message does to `a`: nothing while the agent is
/// frozen by a safety zone; otherwise the auction opens, the escrow total
/// is recorded, and an idle agent bids when `bid_score` gives it a score.
pub open spec fn order_created_effect<I: Fn(&SafetyZone, Point) -> bool, S: Fn(&NexusAgent, Point, u64) -> Option<u64>>(
    a: AgentRuntime,
    b: AgentRuntime,
    order_id: OrderId,
    pickup: Point,
    delivery: Point,
    weight: u64,
    escrow_amount: u64,
    inside: I,
    bid_score: S,
) -> bool {
    exists|frozen: bool|
        #[trigger] frozen_answer(a.safety, a.state.position, inside, frozen) && if frozen {
            b == a
        } else {
            &&& b == (AgentRuntime {
                auction_book: b.auction_book,
                escrow_amounts: b.escrow_amounts,
                outbox: b.outbox,
                ..a
            })
            &&& auction_opened(a.auction_book, b.auction_book, order_id, pickup, delivery, weight, escrow_amount)
            &&& b.escrow_amounts@ == a.escrow_amounts@.insert(order_id, escrow_amount)
            &&& if a.state.status == AgentStatus::Idle {
                exists|r: Option<u64>|
                    #[trigger] bid_score.ensures((&a.state, pickup, weight), r) && b.outbox@ == match r {
                        Some(score) => a.outbox@.push(
                            SwarmMessage::AuctionBid { order_id, agent_id: a.state.id, score },
                        ),
                        None => a.outbox@,
                    }
            } else {
                b.outbox@ == a.outbox@
            }
        }
}

/// What an `AuctionWinner` message does to `a`: the winner holds the
/// order; when this agent won, it becomes busy, takes one more
/// assignment, and locks the order's escrow under a fresh id, announcing it
/// in a `PaymentEscrow` message.
pub open spec fn auction_winner_effect(a: AgentRuntime, b: AgentRuntime, order_id: OrderId, winner_id: AgentId) -> bool {
    &&& b.order_holders@ == a.order_holders@.insert(order_id, winner_id)
    &&& if winner_id@ == a.state.id@ {
        let amount = amount_or_zero(a.escrow_amounts@, order_id);
        let eid = a.next_escrow_id;
        &&& b == (AgentRuntime {
            state: b.state,
            detector: b.detector,
            ledger: b.ledger,
            order_holders: b.order_holders,
            escrow_ids: b.escrow_ids,
            next_escrow_id: b.next_escrow_id,
            outbox: b.outbox,
            ..a
        })
        &&& b.state == (NexusAgent {
            status: AgentStatus::Busy,
            total_assignments: (a.state.total_assignments + 1) as u64,
            ..a.state
        })
        &&& b.next_escrow_id == eid + 1
        &&& b.escrow_ids@ == a.escrow_ids@.insert(order_id, eid)
        &&& b.detector.failed() == a.detector.failed()
        &&& b.detector.pending() == a.detector.pending()
        &&& b.detector.escrows_held() == a.detector.escrows_held().insert(
            a.state.id@,
            (if a.detector.escrows_held().contains_key(a.state.id@) {
                a.detector.escrows_held()[a.state.id@]
            } else {
                Seq::empty()
            }).push(eid),
        )
        &&& locked(a.ledger, b.ledger, eid, order_id, amount, a.state.id@, escrow_signature_of(order_id, amount))
        &&& b.outbox@.len() == a.outbox@.len() + 1
        &&& b.outbox@.drop_last() == a.outbox@
        &&& (b.outbox@.last() matches SwarmMessage::PaymentEscrow { order_id: o, from_agent, amount: m, client_signature, escrow_id }
            && o == order_id && from_agent == a.state.id && m == amount && client_signature@
            == escrow_signature_of(order_id, amount) && escrow_id == eid)
    } else {
        b == (AgentRuntime { order_holders: b.order_holders, ..a })
    }
}

/// What a `HandoffRequest` message does to `a`: when this agent is the
/// destination, the handoff is recorded under the manager's next id, this
/// agent holds the order, and it announces the completed handoff and the
/// payment the sender owes it: the standard share (as `share` computes it)
/// of the order's escrow, signed with the sender's key, under this agent's
/// own next handoff id.
pub open spec fn handoff_request_effect<H: Fn(u64, u64) -> u64>(
    a: AgentRuntime,
    b: AgentRuntime,
    order_id: OrderId,
    from_agent: AgentId,
    to_agent: AgentId,
    point: Point,
    share: H,
) -> bool {
    if to_agent@ == a.state.id@ {
        let hid = a.next_handoff_id;
        &&& b == (AgentRuntime {
            handoffs: b.handoffs,
            order_holders: b.order_holders,
            next_handoff_id: b.next_handoff_id,
            outbox: b.outbox,
            ..a
        })
        &&& b.next_handoff_id == hid + 1
        &&& b.handoffs.next_handoff_id() == a.handoffs.next_handoff_id() + 1
        &&& b.handoffs.handoff_map() == a.handoffs.handoff_map().insert(
            a.handoffs.next_handoff_id(),
            crate::handoff::HandoffState {
                handoff_id: a.handoffs.next_handoff_id(),
                order_id,
                from_agent,
                to_agent,
                point,
                phase: crate::handoff::HandoffPhase::Requested,
                payment_pct: HANDOFF_PAYMENT_PCT_BITS,
            },
        )
        &&& b.order_holders@ == a.order_holders@.insert(order_id, a.state.id)
        &&& b.outbox@.len() == a.outbox@.len() + 2
        &&& b.outbox@.take(a.outbox@.len() as int) == a.outbox@
        &&& b.outbox@[a.outbox@.len() as int] == (SwarmMessage::HandoffComplete { order_id, from_agent, to_agent })
        &&& exists|pay: u64|
            #[trigger] share.ensures((amount_or_zero(a.escrow_amounts@, order_id), HANDOFF_PAYMENT_PCT_BITS), pay)
                && (b.outbox@.last() matches SwarmMessage::HandoffPayment { handoff_id, from_agent: f, to_agent: t, amount, signature }
                && handoff_id == hid && f == from_agent && t == a.state.id && amount == pay
                && signature@ == signature_of(
                crate::crypto::sha256_digest(vstd::utf8::encode_utf8(from_agent@)),
                handoff_payment_bytes(hid, pay),
            ))
    } else {
        b == a
    }
}

/// What an `OrderDelivered` message does to `a`: when this agent
/// delivered, it counts a successful delivery, becomes idle and claims
/// payment with a proof hash over its position, the time of the claim and
/// the order.
pub open spec fn order_delivered_effect(a: AgentRuntime, b: AgentRuntime, order_id: OrderId, agent_id: AgentId) -> bool {
    if agent_id@ == a.state.id@ {
        &&& b == (AgentRuntime { state: b.state, outbox: b.outbox, ..a })
        &&& b.state == (NexusAgent {
            successful_deliveries: (a.state.successful_deliveries + 1) as u64,
            status: AgentStatus::Idle,
            ..a.state
        })
        &&& b.outbox@.len() == a.outbox@.len() + 1
        &&& b.outbox@.drop_last() == a.outbox@
        &&& (b.outbox@.last() matches SwarmMessage::PaymentClaim { order_id: o, agent_id: g, proof_hash, timestamp }
            && o == order_id && g == a.state.id && proof_hash@ == crate::crypto::sha256_digest(
            crate::crypto::proof_hash_input(a.state.position.x_bits, a.state.position.y_bits, timestamp, order_id),
        ))
    } else {
        b == a
    }
}

/// The escrows `d` records for `agent`, in order (none if it records none).
pub open spec fn held_escrows(d: FailureDetector, agent: Seq<char>) -> Seq<EscrowId> {
    if d.escrows_held().contains_key(agent) {
        d.escrows_held()[agent]
    } else {
        Seq::empty()
    }
}

/// `ls` is a chain of ledgers, each the one before with the next escrow of
/// `eids` returned.
pub open spec fn return_chain(ls: Seq<EscrowLedger>, eids: Seq<EscrowId>) -> bool {
    &&& ls.len() == eids.len() + 1
    &&& forall|j: int| 0 <= j < eids.len() ==> returned(ls[j], #[trigger] ls[j + 1], eids[j])
}

/// What an `AgentFailure` message does to `a`: the failed agent is
/// recorded, its orders (each once, in no particular order) await a new
/// auction, the escrows it held are returned one by one, and each of its
/// orders with a known escrow total is put up for auction again.
pub open spec fn agent_failure_effect(a: AgentRuntime, b: AgentRuntime, agent_id: AgentId) -> bool {
    let eids = held_escrows(a.detector, agent_id@);
    &&& b == (AgentRuntime { detector: b.detector, ledger: b.ledger, outbox: b.outbox, ..a })
    &&& b.detector.failed() == a.detector.failed().insert(agent_id@)
    &&& b.detector.escrows_held() == a.detector.escrows_held().remove(agent_id@)
    &&& exists|orders: Seq<OrderId>, ls: Seq<EscrowLedger>| {
        &&& orders.no_duplicates()
        &&& orders.to_set() == crate::healing::orders_of(a.order_holders@, agent_id@)
        &&& b.detector.pending() == a.detector.pending() + orders
        &&& #[trigger] return_chain(ls, eids)
        &&& ls[0] == a.ledger
        &&& ls.last() == b.ledger
        &&& b.outbox@ == a.outbox@ + #[trigger] reauction_messages(orders, a.escrow_amounts@)
    }
}

/// What an `AgentRecovery` message does to `a`: the agent is no longer
/// failed, and when it is this agent, its battery is the reported one and
/// it is idle.
pub open spec fn agent_recovery_effect(a: AgentRuntime, b: AgentRuntime, agent_id: AgentId, battery: u64) -> bool {
    &&& b.detector.failed() == a.detector.failed().remove(agent_id@)
    &&& b.detector.pending() == a.detector.pending()
    &&& b.detector.escrows_held() == a.detector.escrows_held()
    &&& if agent_id@ == a.state.id@ {
        &&& b == (AgentRuntime { state: b.state, detector: b.detector, ..a })
        &&& b.state == (NexusAgent { battery, status: AgentStatus::Idle, ..a.state })
    } else {
        b == (AgentRuntime { detector: b.detector, ..a })
    }
}

/// What a `PaymentEscrow` message does to `a`: the escrow is locked as
/// announced and its id recorded for the order.
pub open spec fn payment_escrow_effect(
    a: AgentRuntime,
    b: AgentRuntime,
    order_id: OrderId,
    from_agent: AgentId,
    amount: u64,
    client_signature: Seq<u8>,
    escrow_id: EscrowId,
) -> bool {
    &&& b == (AgentRuntime { ledger: b.ledger, escrow_ids: b.escrow_ids, ..a })
    &&& locked(a.ledger, b.ledger, escrow_id, order_id, amount, from_agent@, client_signature)
    &&& b.escrow_ids@ == a.escrow_ids@.insert(order_id, escrow_id)
}

/// What a `PaymentClaim` message does to `a`: when the order's escrow is
/// known, the release of the remaining share of the escrow total (as
/// `share` computes it) to the claimant is announced, signed by the
/// validator.
pub open spec fn payment_claim_effect<H: Fn(u64, u64) -> u64>(
    a: AgentRuntime,
    b: AgentRuntime,
    order_id: OrderId,
    agent_id: AgentId,
    share: H,
) -> bool {
    if a.escrow_ids@.contains_key(order_id) {
        let eid = a.escrow_ids@[order_id];
        &&& b == (AgentRuntime { outbox: b.outbox, ..a })
        &&& b.outbox@.len() == a.outbox@.len() + 1
        &&& b.outbox@.drop_last() == a.outbox@
        &&& exists|pay: u64|
            #[trigger] share.ensures((amount_or_zero(a.escrow_amounts@, order_id), RELEASE_PCT_BITS), pay)
                && (b.outbox@.last() matches SwarmMessage::PaymentRelease { escrow_id, to_agent, amount, validator_signatures }
                && escrow_id == eid && to_agent == agent_id && amount == pay && validator_signatures@.len() == 1
                && validator_signatures@[0]@ == crate::crypto::sha256_digest(
                crate::crypto::validator_input(
                    crate::crypto::sha256_digest(vstd::utf8::encode_utf8("validator-1"@)),
                    eid,
                    agent_id@,
                    pay,
                ),
            ))
    } else {
        b == a
    }
}

/// What a `PaymentRelease` message does to `a`: when it pays this agent,
/// the escrow is released to it and its balance follows the ledger.
pub open spec fn payment_release_effect(a: AgentRuntime, b: AgentRuntime, escrow_id: EscrowId, to_agent: AgentId, amount: u64) -> bool {
    if to_agent@ == a.state.id@ {
        &&& b == (AgentRuntime { state: b.state, ledger: b.ledger, ..a })
        &&& released_to(a.ledger, b.ledger, escrow_id, to_agent@, amount)
        &&& b.state == (NexusAgent { balance: b.ledger.balance_of(a.state.id@) as u64, ..a.state })
    } else {
        b == a
    }
}

/// What a `HandoffPayment` message does to `a`: when it pays this agent
/// and carries the sender's signature over the handoff id and amount, the
/// amount is transferred and this agent's balance follows the ledger.
pub open spec fn handoff_payment_effect(
    a: AgentRuntime,
    b: AgentRuntime,
    handoff_id: HandoffId,
    from_agent: AgentId,
    to_agent: AgentId,
    amount: u64,
    signature: Seq<u8>,
) -> bool {
    let key = crate::crypto::sha256_digest(vstd::utf8::encode_utf8(from_agent@));
    if to_agent@ == a.state.id@ && signature_of(key, handoff_payment_bytes(handoff_id, amount)) == signature {
        &&& b == (AgentRuntime { state: b.state, ledger: b.ledger, ..a })
        &&& transferred(a.ledger, b.ledger, from_agent@, to_agent@, amount)
        &&& b.state == (NexusAgent { balance: b.ledger.balance_of(a.state.id@) as u64, ..a.state })
    } else {
        b == a
    }
}

/// What a `BalanceQuery` message does to `a`: a query about this agent is
/// answered with its ledger balance.
pub open spec fn balance_query_effect(a: AgentRuntime, b: AgentRuntime, agent_id: AgentId, request_id: u64) -> bool {
    if agent_id@ == a.state.id@ {
        &&& b == (AgentRuntime { outbox: b.outbox, ..a })
        &&& b.outbox@ == a.outbox@.push(
            SwarmMessage::BalanceResponse {
                agent_id: a.state.id,
                balance: a.ledger.balance_of(a.state.id@) as u64,
                request_id,
            },
        )
    } else {
        b == a
    }
}

/// No counter or balance overflows while `a` handles `msg`.
pub open spec fn handle_fits(a: AgentRuntime, msg: SwarmMessage) -> bool {
    match msg {
        SwarmMessage::AuctionWinner { winner_id, .. } => winner_id@ == a.state.id@ ==> a.state.total_assignments
            < u64::MAX && a.next_escrow_id < u64::MAX,
        SwarmMessage::HandoffRequest { to_agent, .. } => to_agent@ == a.state.id@ ==> a.next_handoff_id
            < u64::MAX && a.handoffs.next_handoff_id() < u64::MAX,
        SwarmMessage::OrderDelivered { agent_id, .. } => agent_id@ == a.state.id@
            ==> a.state.successful_deliveries < u64::MAX,
        SwarmMessage::AgentFailure { .. } => returns_fit(&a.ledger),
        SwarmMessage::PaymentRelease { escrow_id, to_agent, amount, .. } => to_agent@ == a.state.id@
            && has_escrow(a.ledger.escrows(), escrow_id) && !a.ledger.escrows()[position_of(
            a.ledger.escrows(),
            escrow_id,
        )].released && amount <= a.ledger.escrows()[position_of(a.ledger.escrows(), escrow_id)].amount
            ==> a.ledger.balance_of(to_agent@) + amount <= u64::MAX,
        SwarmMessage::HandoffPayment { from_agent, to_agent, amount, .. } => to_agent@ == a.state.id@
            && from_agent@ != to_agent@ && a.ledger.balance_of(from_agent@) >= amount
            ==> a.ledger.balance_of(to_agent@) + amount <= u64::MAX,
        _ => true,
    }
}

/// What handling `msg` does to `a`.
pub open spec fn handled<I: Fn(&SafetyZone, Point) -> bool, S: Fn(&NexusAgent, Point, u64) -> Option<u64>, H: Fn(u64, u64) -> u64>(
    a: AgentRuntime,
    b: AgentRuntime,
    msg: SwarmMessage,
    inside: I,
    bid_score: S,
    share: H,
) -> bool {
    match msg {
        SwarmMessage::OrderCreated { order_id, pickup, delivery, weight, escrow_amount } => order_created_effect(
            a,
            b,
            order_id,
            pickup,
            delivery,
            weight,
            escrow_amount,
            inside,
            bid_score,
        ),
        SwarmMessage::AuctionBid { order_id, agent_id, score } => b == (AgentRuntime {
            auction_book: b.auction_book,
            ..a
        }) && bid_recorded(a.auction_book, b.auction_book, order_id, agent_id@, score),
        SwarmMessage::AuctionWinner { order_id, winner_id } => auction_winner_effect(a, b, order_id, winner_id),
        SwarmMessage::HandoffRequest { order_id, from_agent, to_agent, point } => handoff_request_effect(
            a,
            b,
            order_id,
            from_agent,
            to_agent,
            point,
            share,
        ),
        SwarmMessage::HandoffComplete { order_id, to_agent, .. } => b == (AgentRuntime {
            order_holders: b.order_holders,
            ..a
        }) && b.order_holders@ == a.order_holders@.insert(order_id, to_agent),
        SwarmMessage::OrderDelivered { order_id, agent_id } => order_delivered_effect(a, b, order_id, agent_id),
        SwarmMessage::AgentFailure { agent_id, .. } => agent_failure_effect(a, b, agent_id),
        SwarmMessage::AgentRecovery { agent_id, battery } => agent_recovery_effect(a, b, agent_id, battery),
        SwarmMessage::SafetyAlert { alert_id, x, y, radius } => b == (AgentRuntime { safety: b.safety, ..a })
            && b.safety.zones() == a.safety.zones().insert(
            alert_id,
            SafetyZone { alert_id, center: GeoBits { x_bits: x, y_bits: y }, radius, active: true },
        ),
        SwarmMessage::SafetyClear { alert_id } => b == (AgentRuntime { safety: b.safety, ..a })
            && b.safety.zones() == (if a.safety.zones().contains_key(alert_id) {
            a.safety.zones().insert(alert_id, SafetyZone { active: false, ..a.safety.zones()[alert_id] })
        } else {
            a.safety.zones()
        }),
        SwarmMessage::PaymentEscrow { order_id, from_agent, amount, client_signature, escrow_id } => payment_escrow_effect(
            a,
            b,
            order_id,
            from_agent,
            amount,
            client_signature@,
            escrow_id,
        ),
        SwarmMessage::PaymentClaim { order_id, agent_id, .. } => payment_claim_effect(a, b, order_id, agent_id, share),
        SwarmMessage::PaymentRelease { escrow_id, to_agent, amount, .. } => payment_release_effect(
            a,
            b,
            escrow_id,
            to_agent,
            amount,
        ),
        SwarmMessage::HandoffPayment { handoff_id, from_agent, to_agent, amount, signature } => handoff_payment_effect(
            a,
            b,
            handoff_id,
            from_agent,
            to_agent,
            amount,
            signature@,
        ),
        SwarmMessage::BalanceQuery { agent_id, request_id } => balance_query_effect(a, b, agent_id, request_id),
        SwarmMessage::BalanceResponse { .. } | SwarmMessage::AgentState { .. } => b == a,
    }
}

impl AgentRuntime {
    /// The runtime's ledger has no duplicate escrow.
    pub open spec fn wf(&self) -> bool {
        self.ledger.wf()
    }

    /// A runtime for `agent`, whose ledger starts with the agent's balance;
    /// escrow and handoff ids start at 1.
    pub fn new(agent: NexusAgent) -> (rt: Self)
        ensures
            rt.wf(),
            rt.state == agent,
            rt.ledger.escrows() == Seq::<EscrowInfo>::empty(),
            forall|a: Seq<char>| #[trigger] rt.ledger.balance_of(a) == (if a == agent.id@ {
                agent.balance as int
            } else {
                0
            }),
            rt.auction_book.auctions@ == Map::<OrderId, crate::auction::AuctionState>::empty(),
            rt.handoffs.handoff_map() == Map::<HandoffId, crate::handoff::HandoffState>::empty(),
            rt.handoffs.next_handoff_id() == 0,
            rt.detector.failed() == Set::<Seq<char>>::empty(),
            rt.detector.pending() == Seq::<OrderId>::empty(),
            rt.detector.escrows_held() == Map::<Seq<char>, Seq<EscrowId>>::empty(),
            rt.safety.zones() == Map::<u64, SafetyZone>::empty(),
            rt.order_holders@ == Map::<OrderId, AgentId>::empty(),
            rt.escrow_amounts@ == Map::<OrderId, u64>::empty(),
            rt.escrow_ids@ == Map::<OrderId, EscrowId>::empty(),
            rt.next_escrow_id == 1,
            rt.next_handoff_id == 1,
            rt.outbox@ == Seq::<SwarmMessage>::empty(),
    {
        let mut ledger = EscrowLedger::new();
        ledger.set_balance(agent.id.as_str(), agent.balance);
        AgentRuntime {
            state: agent,
            auction_book: AuctionBook::new(),
            handoffs: HandoffManager::new(),
            detector: FailureDetector::new(),
            ledger,
            safety: SafetyMesh::new(),
            order_holders: HashMap::new(),
            escrow_amounts: HashMap::new(),
            escrow_ids: HashMap::new(),
            next_escrow_id: 1,
            next_handoff_id: 1,
            outbox: Vec::new(),
        }
    }

    /// The `AgentState` message describing this agent.
    pub fn broadcast_state(&self) -> (m: SwarmMessage)
        ensures
            m matches SwarmMessage::AgentState { agent_id, agent_type, vendor, x, y, battery, capacity, status }
                && agent_id == self.state.id && agent_type == self.state.agent_type && vendor
                == self.state.vendor && x == self.state.position.x_bits && y == self.state.position.y_bits
                && battery == self.state.battery && capacity == self.state.capacity && status
                == self.state.status,
    {
        SwarmMessage::AgentState {
            agent_id: self.state.id.clone(),
            agent_type: self.state.agent_type,
            vendor: self.state.vendor.clone(),
            x: self.state.position.x_bits,
            y: self.state.position.y_bits,
            battery: self.state.battery,
            capacity: self.state.capacity,
            status: self.state.status,
        }
    }

    /// Hand out the queued messages, leaving the queue empty.
    pub fn drain_outbox(&mut self) -> (r: Vec<SwarmMessage>)
        ensures
            r@ == old(self).outbox@,
            *final(self) == (AgentRuntime { outbox: final(self).outbox, ..*old(self) }),
            final(self).outbox@ == Seq::<SwarmMessage>::empty(),
    {
        let mut out: Vec<SwarmMessage> = Vec::new();
        std::mem::swap(&mut out, &mut self.outbox);
        out
    }

    /// React to one protocol message; see [`handled`].  `inside` tells
    /// whether a position lies within a safety zone, `bid_score` gives this
    /// agent's score for an order (when it can carry the weight and the
    /// score is positive), and `share` applies a fraction (as `f64` bits)
    /// to an amount.
    pub fn handle<I: Fn(&SafetyZone, Point) -> bool, S: Fn(&NexusAgent, Point, u64) -> Option<u64>, H: Fn(u64, u64) -> u64>(
        &mut self,
        msg: SwarmMessage,
        inside: &I,
        bid_score: &S,
        share: &H,
    )
        requires
            old(self).wf(),
            handle_fits(*old(self), msg),
            forall|z: &SafetyZone, p: Point| #[trigger] inside.requires((z, p)),
            forall|g: &NexusAgent, p: Point, w: u64| #[trigger] bid_score.requires((g, p, w)),
            forall|x: u64, y: u64| #[trigger] share.requires((x, y)),
        ensures
            final(self).wf(),
            handled(*old(self), *final(self), msg, *inside, *bid_score, *share),
    {
        match msg {
            SwarmMessage::OrderCreated { order_id, pickup, delivery, weight, escrow_amount } => {
                self.on_order_created(order_id, pickup, delivery, weight, escrow_amount, inside, bid_score)
            },
            SwarmMessage::AuctionBid { order_id, agent_id, score } => {
                self.auction_book.record_bid(order_id, agent_id, score)
            },
            SwarmMessage::AuctionWinner { order_id, winner_id } => self.on_auction_winner(order_id, winner_id),
            SwarmMessage::HandoffRequest { order_id, from_agent, to_agent, point } => {
                self.on_handoff_request(order_id, from_agent, to_agent, point, share)
            },
            SwarmMessage::HandoffComplete { order_id, to_agent, .. } => {
                self.order_holders.insert(order_id, to_agent);
            },
            SwarmMessage::OrderDelivered { order_id, agent_id } => self.on_order_delivered(order_id, agent_id),
            SwarmMessage::AgentFailure { agent_id, .. } => self.on_agent_failure(agent_id),
            SwarmMessage::AgentRecovery { agent_id, battery } => self.on_agent_recovery(agent_id, battery),
            SwarmMessage::SafetyAlert { alert_id, x, y, radius } => {
                self.safety.activate(alert_id, GeoBits { x_bits: x, y_bits: y }, radius)
            },
            SwarmMessage::SafetyClear { alert_id } => self.safety.clear(alert_id),
            SwarmMessage::PaymentEscrow { order_id, from_agent, amount, client_signature, escrow_id } => {
                self.on_payment_escrow(order_id, from_agent, amount, client_signature, escrow_id)
            },
            SwarmMessage::PaymentClaim { order_id, agent_id, .. } => self.on_payment_claim(order_id, agent_id, share),
            SwarmMessage::PaymentRelease { escrow_id, to_agent, amount, validator_signatures } => {
                self.on_payment_release(escrow_id, to_agent, amount, validator_signatures)
            },
            SwarmMessage::HandoffPayment { handoff_id, from_agent, to_agent, amount, signature } => {
                self.on_handoff_payment(handoff_id, from_agent, to_agent, amount, signature)
            },
            SwarmMessage::BalanceQuery { agent_id, request_id } => self.on_balance_query(agent_id, request_id),
            SwarmMessage::BalanceResponse { .. } | SwarmMessage::AgentState { .. } => {},
        }
    }

    fn on_order_created<I: Fn(&SafetyZone, Point) -> bool, S: Fn(&NexusAgent, Point, u64) -> Option<u64>>(
        &mut self,
        order_id: OrderId,
        pickup: Point,
        delivery: Point,
        weight: u64,
        escrow_amount: u64,
        inside: &I,
        bid_score: &S,
    )
        requires
            forall|z: &SafetyZone, p: Point| #[trigger] inside.requires((z, p)),
            forall|g: &NexusAgent, p: Point, w: u64| #[trigger] bid_score.requires((g, p, w)),
        ensures
            order_created_effect(*old(self), *final(self), order_id, pickup, delivery, weight, escrow_amount, *inside, *bid_score),
    {
        let frozen = self.safety.is_frozen(&self.state.position, inside);
        proof {
            assert(frozen_answer(self.safety, self.state.position, *inside, frozen));
        }
        if frozen {
            return;
        }
        let msg = SwarmMessage::OrderCreated { order_id, pickup, delivery, weight, escrow_amount };
        self.auction_book.open_auction(&msg);
        self.escrow_amounts.insert(order_id, escrow_amount);
        if self.state.status == AgentStatus::Idle {
            let r = bid_score(&self.state, pickup, weight);
            match r {
                Some(score) => {
                    self.outbox.push(
                        SwarmMessage::AuctionBid { order_id, agent_id: self.state.id.clone(), score },
                    );
                },
                None => {},
            }
            proof {
                assert(bid_score.ensures((&old(self).state, pickup, weight), r));
            }
        }
    }

    fn on_auction_winner(&mut self, order_id: OrderId, winner_id: AgentId)
        requires
            old(self).wf(),
            winner_id@ == old(self).state.id@ ==> old(self).state.total_assignments < u64::MAX
                && old(self).next_escrow_id < u64::MAX,
        ensures
            final(self).wf(),
            auction_winner_effect(*old(self), *final(self), order_id, winner_id),
    {
        self.order_holders.insert(order_id, winner_id.clone());
        if crate::text::str_eq(winner_id.as_str(), self.state.id.as_str()) {
            self.state.status = AgentStatus::Busy;
            self.state.total_assignments = self.state.total_assignments + 1;
            let amount = match self.escrow_amounts.get(&order_id) {
                Some(a) => *a,
                None => 0,
            };
            let escrow_id = self.next_escrow_id;
            self.next_escrow_id = self.next_escrow_id + 1;
            let sig = client_escrow_signature(order_id, amount);
            self.escrow_ids.insert(order_id, escrow_id);
            self.detector.track_escrow(self.state.id.as_str(), escrow_id);
            let ghost l0 = self.ledger;
            let _ = self.ledger.lock_escrow(escrow_id, order_id, amount, self.state.id.as_str(), sig.as_slice());
            proof {
                assert(locked(l0, self.ledger, escrow_id, order_id, amount, self.state.id@, escrow_signature_of(order_id, amount)));
            }
            self.outbox.push(
                SwarmMessage::PaymentEscrow {
                    order_id,
                    from_agent: self.state.id.clone(),
                    amount,
                    client_signature: sig,
                    escrow_id,
                },
            );
            proof {
                assert(self.outbox@.drop_last() =~= old(self).outbox@);
            }
        }
    }

    fn on_handoff_request<H: Fn(u64, u64) -> u64>(
        &mut self,
        order_id: OrderId,
        from_agent: AgentId,
        to_agent: AgentId,
        point: Point,
        share: &H,
    )
        requires
            forall|x: u64, y: u64| #[trigger] share.requires((x, y)),
            to_agent@ == old(self).state.id@ ==> old(self).next_handoff_id < u64::MAX
                && old(self).handoffs.next_handoff_id() < u64::MAX,
        ensures
            handoff_request_effect(*old(self), *final(self), order_id, from_agent, to_agent, point, *share),
    {
        if crate::text::str_eq(to_agent.as_str(), self.state.id.as_str()) {
            let handoff_id = self.next_handoff_id;
            self.next_handoff_id = self.next_handoff_id + 1;
            let _ = self.handoffs.initiate(order_id, from_agent.clone(), to_agent.clone(), point);
            self.order_holders.insert(order_id, self.state.id.clone());
            self.outbox.push(
                SwarmMessage::HandoffComplete {
                    order_id,
                    from_agent: from_agent.clone(),
                    to_agent: to_agent.clone(),
                },
            );
            let escrow_total = match self.escrow_amounts.get(&order_id) {
                Some(a) => *a,
                None => 0,
            };
            let pay_amount = share(escrow_total, HANDOFF_PAYMENT_PCT_BITS);
            let key = derive_key(from_agent.as_str());
            let mut msg_bytes: Vec<u8> = Vec::new();
            push_le_u64(&mut msg_bytes, handoff_id);
            push_le_u64(&mut msg_bytes, pay_amount);
            let signature = sign_message(key.as_slice(), msg_bytes.as_slice());
            let ghost n0 = old(self).outbox@.len();
            self.outbox.push(
                SwarmMessage::HandoffPayment {
                    handoff_id,
                    from_agent,
                    to_agent: self.state.id.clone(),
                    amount: pay_amount,
                    signature,
                },
            );
            proof {
                assert(msg_bytes@ =~= handoff_payment_bytes(handoff_id, pay_amount));
                assert(self.outbox@.take(n0 as int) =~= old(self).outbox@);
            }
        }
    }

    fn on_order_delivered(&mut self, order_id: OrderId, agent_id: AgentId)
        requires
            agent_id@ == old(self).state.id@ ==> old(self).state.successful_deliveries < u64::MAX,
        ensures
            order_delivered_effect(*old(self), *final(self), order_id, agent_id),
            agent_id@ == old(self).state.id@ ==> final(self).state.status == AgentStatus::Idle
                && final(self).state.successful_deliveries == old(self).state.successful_deliveries + 1,
    {
        if crate::text::str_eq(agent_id.as_str(), self.state.id.as_str()) {
            self.state.successful_deliveries = self.state.successful_deliveries + 1;
            self.state.status = AgentStatus::Idle;
            let ts = now_ms();
            let ph = proof_hash(self.state.position.x_bits, self.state.position.y_bits, ts, order_id);
            self.outbox.push(
                SwarmMessage::PaymentClaim {
                    order_id,
                    agent_id: self.state.id.clone(),
                    proof_hash: ph,
                    timestamp: ts,
                },
            );
            proof {
                assert(self.outbox@.drop_last() =~= old(self).outbox@);
            }
        }
    }

    fn on_agent_failure(&mut self, agent_id: AgentId)
        requires
            old(self).wf(),
            returns_fit(&old(self).ledger),
        ensures
            final(self).wf(),
            returns_fit(&final(self).ledger),
            agent_failure_effect(*old(self), *final(self), agent_id),
    {
        let (orders, escrows) = self.detector.handle_failure(agent_id.as_str(), &self.order_holders);
        let chain = return_escrows(&mut self.ledger, &escrows);
        let ghost o0 = self.outbox@;
        let ghost pre = *self;
        let n = orders.len();
        let mut i: usize = 0;
        while i < n
            invariant
                n == orders@.len(),
                i <= n,
                *self == (AgentRuntime { outbox: self.outbox, ..pre }),
                self.outbox@ == o0 + reauction_messages(orders@.take(i as int), self.escrow_amounts@),
            decreases n - i,
        {
            let order_id = orders[i];
            let found = match self.escrow_amounts.get(&order_id) {
                Some(a) => Some(*a),
                None => None,
            };
            match found {
                Some(amount) => {
                    self.outbox.push(
                        SwarmMessage::OrderCreated {
                            order_id,
                            pickup: GeoBits { x_bits: 0, y_bits: 0 },
                            delivery: GeoBits { x_bits: 0, y_bits: 0 },
                            weight: REAUCTION_WEIGHT_BITS,
                            escrow_amount: amount,
                        },
                    );
                },
                None => {},
            }
            proof {
                let t = orders@.take(i + 1);
                assert(t.drop_last() =~= orders@.take(i as int));
                assert(t.last() == order_id);
                assert(self.outbox@ =~= o0 + reauction_messages(t, self.escrow_amounts@));
            }
            i = i + 1;
        }
        proof {
            assert(orders@.take(n as int) =~= orders@);
            let eids = held_escrows(old(self).detector, agent_id@);
            assert(escrows@ == eids);
            assert(return_chain(chain@, eids));
            assert(self.outbox@ == old(self).outbox@ + reauction_messages(orders@, old(self).escrow_amounts@));
            assert(*self == (AgentRuntime { detector: self.detector, ledger: self.ledger, outbox: self.outbox, ..*old(self) }));
        }
    }

    fn on_agent_recovery(&mut self, agent_id: AgentId, battery: u64)
        ensures
            agent_recovery_effect(*old(self), *final(self), agent_id, battery),
    {
        self.detector.handle_recovery(agent_id.as_str());
        if crate::text::str_eq(agent_id.as_str(), self.state.id.as_str()) {
            self.state.battery = battery;
            self.state.status = AgentStatus::Idle;
        }
    }

    fn on_payment_escrow(
        &mut self,
        order_id: OrderId,
        from_agent: AgentId,
        amount: u64,
        client_signature: Vec<u8>,
        escrow_id: EscrowId,
    )
        requires
            old(self).wf(),
        ensures
            final(self).wf(),
            payment_escrow_effect(*old(self), *final(self), order_id, from_agent, amount, client_signature@, escrow_id),
    {
        let ghost l0 = self.ledger;
        let _ = self.ledger.lock_escrow(escrow_id, order_id, amount, from_agent.as_str(), client_signature.as_slice());
        proof {
            assert(locked(l0, self.ledger, escrow_id, order_id, amount, from_agent@, client_signature@));
        }
        self.escrow_ids.insert(order_id, escrow_id);
    }

    fn on_payment_claim<H: Fn(u64, u64) -> u64>(&mut self, order_id: OrderId, agent_id: AgentId, share: &H)
        requires
            forall|x: u64, y: u64| #[trigger] share.requires((x, y)),
        ensures
            payment_claim_effect(*old(self), *final(self), order_id, agent_id, *share),
    {
        let found = match self.escrow_ids.get(&order_id) {
            Some(e) => Some(*e),
            None => None,
        };
        match found {
            Some(escrow_id) => {
                let remaining = match self.escrow_amounts.get(&order_id) {
                    Some(a) => *a,
                    None => 0,
                };
                let pay_remaining = share(remaining, RELEASE_PCT_BITS);
                let vkey = derive_key("validator-1");
                let vsig = validator_signature(vkey.as_slice(), escrow_id, agent_id.as_str(), pay_remaining);
                let mut sigs: Vec<Vec<u8>> = Vec::new();
                sigs.push(vsig);
                self.outbox.push(
                    SwarmMessage::PaymentRelease {
                        escrow_id,
                        to_agent: agent_id,
                        amount: pay_remaining,
                        validator_signatures: sigs,
                    },
                );
                proof {
                    assert(self.outbox@.drop_last() =~= old(self).outbox@);
                }
            },
            None => {},
        }
    }

    fn on_payment_release(&mut self, escrow_id: EscrowId, to_agent: AgentId, amount: u64, validator_signatures: Vec<Vec<u8>>)
        requires
            old(self).wf(),
            to_agent@ == old(self).state.id@ && has_escrow(old(self).ledger.escrows(), escrow_id)
                && !old(self).ledger.escrows()[position_of(old(self).ledger.escrows(), escrow_id)].released
                && amount <= old(self).ledger.escrows()[position_of(old(self).ledger.escrows(), escrow_id)].amount
                ==> old(self).ledger.balance_of(to_agent@) + amount <= u64::MAX,
        ensures
            final(self).wf(),
            payment_release_effect(*old(self), *final(self), escrow_id, to_agent, amount),
    {
        if crate::text::str_eq(to_agent.as_str(), self.state.id.as_str()) {
            let ghost l0 = self.ledger;
            let _ = self.ledger.release_escrow(escrow_id, to_agent.as_str(), amount, validator_signatures.as_slice());
            proof {
                assert(released_to(l0, self.ledger, escrow_id, to_agent@, amount));
            }
            self.state.balance = self.ledger.balance(self.state.id.as_str());
        }
    }

    fn on_handoff_payment(
        &mut self,
        handoff_id: HandoffId,
        from_agent: AgentId,
        to_agent: AgentId,
        amount: u64,
        signature: Vec<u8>,
    )
        requires
            old(self).wf(),
            to_agent@ == old(self).state.id@ && from_agent@ != to_agent@ && old(self).ledger.balance_of(from_agent@)
                >= amount ==> old(self).ledger.balance_of(to_agent@) + amount <= u64::MAX,
        ensures
            final(self).wf(),
            handoff_payment_effect(*old(self), *final(self), handoff_id, from_agent, to_agent, amount, signature@),
    {
        if crate::text::str_eq(to_agent.as_str(), self.state.id.as_str()) {
            let key = derive_key(from_agent.as_str());
            let mut msg_bytes: Vec<u8> = Vec::new();
            push_le_u64(&mut msg_bytes, handoff_id);
            push_le_u64(&mut msg_bytes, amount);
            proof {
                assert(msg_bytes@ =~= handoff_payment_bytes(handoff_id, amount));
            }
            if verify_signature(key.as_slice(), msg_bytes.as_slice(), signature.as_slice()) {
                let ghost l0 = self.ledger;
                let _ = self.ledger.transfer(from_agent.as_str(), to_agent.as_str(), amount);
                proof {
                    if from_agent@ == to_agent@ {
                        assert(transferred(l0, self.ledger, from_agent@, to_agent@, amount));
                    }
                    assert(transferred(l0, self.ledger, from_agent@, to_agent@, amount));
                }
                self.state.balance = self.ledger.balance(self.state.id.as_str());
            }
        }
    }

    fn on_balance_query(&mut self, agent_id: AgentId, request_id: u64)
        ensures
            balance_query_effect(*old(self), *final(self), agent_id, request_id),
    {
        if crate::text::str_eq(agent_id.as_str(), self.state.id.as_str()) {
            let balance = self.ledger.balance(self.state.id.as_str());
            self.outbox.push(
                SwarmMessage::BalanceResponse { agent_id: self.state.id.clone(), balance, request_id },
            );
        }
    }

    /// Recover the escrows that have timed out.
    pub fn tick(&mut self)
        requires
            old(self).wf(),
            timeouts_fit(&old(self).ledger),
        ensures
            final(self).wf(),
            *final(self) == (AgentRuntime { ledger: final(self).ledger, ..*old(self) }),
            exists|now: u64| #[trigger] recovered_at(old(self).ledger, final(self).ledger, now),
    {
        let now = now_ms();
        let _recovered = self.ledger.recover_timed_out_at(now);
        proof {
            assert(recovered_at(old(self).ledger, self.ledger, now));
        }
    }
}

/// Return each escrow of `eids` to its holder, in order; returns the chain
/// of ledgers passed through.
fn return_escrows(ledger: &mut EscrowLedger, eids: &Vec<EscrowId>) -> (chain: Ghost<Seq<EscrowLedger>>)
    requires
        old(ledger).wf(),
        returns_fit(&*old(ledger)),
    ensures
        final(ledger).wf(),
        returns_fit(&*final(ledger)),
        return_chain(chain@, eids@),
        chain@[0] == *old(ledger),
        chain@.last() == *final(ledger),
{
    let ghost mut ls: Seq<EscrowLedger> = seq![*ledger];
    let n = eids.len();
    let mut i: usize = 0;
    while i < n
        invariant
            n == eids@.len(),
            i <= n,
            ledger.wf(),
            returns_fit(&*ledger),
            ls.len() == i + 1,
            ls[0] == *old(ledger),
            ls[i as int] == *ledger,
            forall|j: int| 0 <= j < i ==> returned(ls[j], #[trigger] ls[j + 1], eids@[j]),
        decreases n - i,
    {
        let eid = eids[i];
        let ghost l0 = *ledger;
        let ghost s0 = l0.escrows();
        let ghost p = position_of(s0, eid);
        proof {
            if has_escrow(s0, eid) && !s0[p].released {
                lemma_pending_covers(s0, p);
                assert(l0.balance_of(s0[p].holder_agent@) + pending_for(s0, s0[p].holder_agent@) <= u64::MAX);
            }
        }
        let _ = ledger.return_escrow(eid);
        proof {
            let s1 = ledger.escrows();
            if has_escrow(s0, eid) && !s0[p].released {
                assert(s1 =~= s0.update(p, s1[p]));
                assert forall|a: Seq<char>| ledger.balance_of(a) + pending_for(ledger.escrows(), a) <= u64::MAX by {
                    lemma_pending_after_release(s0, p, s1[p], a);
                }
            }
            assert(returned(l0, *ledger, eid));
            ls = ls.push(*ledger);
            assert forall|j: int| 0 <= j < i + 1 implies returned(ls[j], #[trigger] ls[j + 1], eids@[j]) by {
                if j < i {
                    assert(ls[j] == ls.drop_last()[j]);
                }
            }
        }
        i = i + 1;
    }
    Ghost(ls)
}

/// The first four bytes of `bytes` (fewer if it is shorter) as lowercase
/// hexadecimal.
pub fn hex_prefix(bytes: &[u8]) -> (r: String)
    ensures
        r@ == crate::text::hex_of(bytes@.take(if bytes@.len() < 4 { bytes@.len() as int } else { 4 })),
{
    let k: usize = if bytes.len() < 4 { bytes.len() } else { 4 };
    let mut head: Vec<u8> = Vec::new();
    let mut i: usize = 0;
    while i < k
        invariant
            k <= bytes@.len(),
            i <= k,
            head@ == bytes@.take(i as int),
        decreases k - i,
    {
        head.push(bytes[i]);
        proof {
            assert(bytes@.take(i + 1) =~= bytes@.take(i as int).push(bytes@[i as int]));
        }
        i = i + 1;
    }
    crate::text::hex_text(head.as_slice())
}

/// A delivery frees the agent that made it: after handling an
/// `OrderDelivered` that names this agent, whatever its status was before,
/// it is `Idle` (so it bids on new orders again), it counts one more
/// successful delivery, and its last queued message is its `PaymentClaim`
/// for that order.  A delivery naming another agent changes nothing.
pub proof fn lemma_delivery_frees_the_agent<
    I: Fn(&SafetyZone, Point) -> bool,
    S: Fn(&NexusAgent, Point, u64) -> Option<u64>,
    H: Fn(u64, u64) -> u64,
>(
    a: AgentRuntime,
    b: AgentRuntime,
    order_id: OrderId,
    agent_id: AgentId,
    inside: I,
    bid_score: S,
    share: H,
)
    requires
        handled(a, b, SwarmMessage::OrderDelivered { order_id, agent_id }, inside, bid_score, share),
    ensures
        agent_id@ == a.state.id@ ==> {
            &&& b.state.status == AgentStatus::Idle
            &&& b.state.successful_deliveries == (a.state.successful_deliveries + 1) as u64
            &&& b.state.id == a.state.id
            &&& b.outbox@.len() == a.outbox@.len() + 1
            &&& b.outbox@.last() matches SwarmMessage::PaymentClaim { order_id: o, agent_id: g, .. }
                && o == order_id && g == a.state.id
        },
        agent_id@ != a.state.id@ ==> b == a,
{
}

} // verus!
