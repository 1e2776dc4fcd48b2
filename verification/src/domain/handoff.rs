//! Business rules for controlled order handoffs between agents.
//!
//! A handoff may be requested only for an order that is `InTransit`, only
//! by the agent that carries it, and only towards an `Idle` agent; it can be
//! completed only while pending and while the destination is still `Idle`.

use vstd::prelude::*;

use crate::domain::order::{self as order_fsm, advanced, carrier, step_target, Step};
use crate::text::str_eq;
use crate::types::{AgentStatus, NexusMessage, NodeId, Order, OrderStatus, Timestamp};

verus! {

/// The name by which an agent status is printed.
pub open spec fn agent_status_text(s: AgentStatus) -> Seq<char> {
    match s {
        AgentStatus::Idle => "Idle"@,
        AgentStatus::Busy => "Busy"@,
        AgentStatus::Offline => "Offline"@,
    }
}

/// The name by which an agent status is printed.
pub fn agent_status_name(s: AgentStatus) -> (r: &'static str)
    ensures
        r@ == agent_status_text(s),
{
    match s {
        AgentStatus::Idle => "Idle",
        AgentStatus::Busy => "Busy",
        AgentStatus::Offline => "Offline",
    }
}

/// Why a handoff was refused.
#[derive(Debug, Clone, PartialEq, Eq)]
pub enum HandoffError {
    /// The order is not `InTransit` (this also catches a repeated request).
    NotInTransit { order_id: String, found: OrderStatus },
    /// The requester is not the agent carrying the order.
    NotOwner { order_id: String, requester: String, owner: String },
    /// The destination agent is not `Idle`.
    DestinationUnavailable { order_id: String, status: AgentStatus },
    /// Completion was asked of an order that is not `HandoffPending`.
    NotPending { order_id: String, found: OrderStatus },
    /// The destination agent stopped being `Idle` before completion.
    DestinationNoLongerAvailable { order_id: String, status: AgentStatus },
}

/// The text of a [`HandoffError`].
pub open spec fn handoff_error_text(e: HandoffError) -> Seq<char> {
    match e {
        HandoffError::NotInTransit { order_id, found } => "Order '"@ + order_id@
            + "': handoff requires InTransit status, found "@ + order_fsm::status_text(found),
        HandoffError::NotOwner { order_id, requester, owner } => "Order '"@ + order_id@
            + "': requester '"@ + requester@ + "' does not own the order (owner: '"@ + owner@
            + "')"@,
        HandoffError::DestinationUnavailable { order_id, status } => "Order '"@ + order_id@
            + "': destination agent is not available ("@ + agent_status_text(status) + ")"@,
        HandoffError::NotPending { order_id, found } => "Order '"@ + order_id@
            + "': complete_handoff requires HandoffPending status, found "@
            + order_fsm::status_text(found),
        HandoffError::DestinationNoLongerAvailable { order_id, status } => "Order '"@
            + order_id@ + "': destination agent is no longer available ("@ + agent_status_text(
            status,
        ) + ")"@,
    }
}

impl HandoffError {
    /// Human-readable description of the error.
    pub fn message(&self) -> (r: String)
        ensures
            r@ == handoff_error_text(*self),
    {
        let mut m = String::from_str("Order '");
        match self {
            HandoffError::NotInTransit { order_id, found } => {
                m.append(order_id.as_str());
                m.append("': handoff requires InTransit status, found ");
                m.append(order_fsm::status_name(*found));
            },
            HandoffError::NotOwner { order_id, requester, owner } => {
                m.append(order_id.as_str());
                m.append("': requester '");
                m.append(requester.as_str());
                m.append("' does not own the order (owner: '");
                m.append(owner.as_str());
                m.append("')");
            },
            HandoffError::DestinationUnavailable { order_id, status } => {
                m.append(order_id.as_str());
                m.append("': destination agent is not available (");
                m.append(agent_status_name(*status));
                m.append(")");
            },
            HandoffError::NotPending { order_id, found } => {
                m.append(order_id.as_str());
                m.append("': complete_handoff requires HandoffPending status, found ");
                m.append(order_fsm::status_name(*found));
            },
            HandoffError::DestinationNoLongerAvailable { order_id, status } => {
                m.append(order_id.as_str());
                m.append("': destination agent is no longer available (");
                m.append(agent_status_name(*status));
                m.append(")");
            },
        }
        m
    }
}

/// Which handoff rule a request meets first.
#[derive(Debug, Clone, Copy, PartialEq, Eq, Structural)]
pub enum HandoffRule {
    /// All rules are met.
    Permitted,
    /// The order is not `InTransit`.
    NotInTransit,
    /// The requester does not carry the order.
    NotOwner,
    /// The destination is not `Idle`.
    DestinationUnavailable,
}

/// The first handoff rule that a request by `requester` towards an agent in
/// `destination_status` breaks, checked in the order the rules are listed.
pub open spec fn handoff_rule(
    order: Order,
    requester: Seq<char>,
    destination_status: AgentStatus,
) -> HandoffRule {
    if order.status != OrderStatus::InTransit {
        HandoffRule::NotInTransit
    } else if carrier(order)@ != requester {
        HandoffRule::NotOwner
    } else if destination_status != AgentStatus::Idle {
        HandoffRule::DestinationUnavailable
    } else {
        HandoffRule::Permitted
    }
}

/// `e` is the error that reports the broken rule `rule` for this request.
pub open spec fn reports(
    e: HandoffError,
    rule: HandoffRule,
    order: Order,
    requester: Seq<char>,
    destination_status: AgentStatus,
) -> bool {
    match rule {
        HandoffRule::NotInTransit => e == (HandoffError::NotInTransit {
            order_id: order.order_id,
            found: order.status,
        }),
        HandoffRule::NotOwner => match e {
            HandoffError::NotOwner { order_id, requester: r, owner } => order_id == order.order_id
                && r@ == requester && owner == carrier(order),
            _ => false,
        },
        HandoffRule::DestinationUnavailable => e == (HandoffError::DestinationUnavailable {
            order_id: order.order_id,
            status: destination_status,
        }),
        HandoffRule::Permitted => false,
    }
}

/// A handoff by `requester` towards an agent in `destination_status` is
/// allowed: the order is `InTransit`, the requester is the agent it is
/// assigned to (or, only while it is unassigned, its origin), and the
/// destination is `Idle`.
pub open spec fn handoff_permitted(order: Order, requester: Seq<char>, destination_status: AgentStatus) -> bool {
    &&& order.status == OrderStatus::InTransit
    &&& match order.assigned_to {
        Some(a) => a@ == requester,
        None => order.origin@ == requester,
    }
    &&& destination_status == AgentStatus::Idle
}

/// Only the carrier may hand an order off: a request succeeds exactly when
/// the order is in transit, the requester is its assigned agent (its origin
/// only while it has none) and the destination is idle.  In particular an
/// origin that does not carry an assigned order is refused.
pub proof fn lemma_only_the_carrier_hands_off(order: Order, requester: Seq<char>, destination_status: AgentStatus)
    ensures
        (handoff_rule(order, requester, destination_status) == HandoffRule::Permitted)
            == handoff_permitted(order, requester, destination_status),
        order.assigned_to matches Some(a) && a@ != requester ==> handoff_rule(
            order,
            requester,
            destination_status,
        ) != HandoffRule::Permitted,
{
}

/// Check that a handoff request is permissible, without changing anything.
pub fn validate_handoff(order: &Order, requester: &str, destination_status: &AgentStatus) -> (r:
    Result<(), HandoffError>)
    ensures
        r is Ok == handoff_permitted(*order, requester@, *destination_status),
        match r {
            Ok(()) => handoff_rule(*order, requester@, *destination_status)
                == HandoffRule::Permitted,
            Err(e) => reports(
                e,
                handoff_rule(*order, requester@, *destination_status),
                *order,
                requester@,
                *destination_status,
            ),
        },
{
    if order.status != OrderStatus::InTransit {
        return Err(
            HandoffError::NotInTransit { order_id: order.order_id.clone(), found: order.status },
        );
    }
    let owner: &String = match &order.assigned_to {
        Some(a) => a,
        None => &order.origin,
    };
    if !str_eq(owner.as_str(), requester) {
        return Err(
            HandoffError::NotOwner {
                order_id: order.order_id.clone(),
                requester: requester.to_owned(),
                owner: owner.clone(),
            },
        );
    }
    if *destination_status != AgentStatus::Idle {
        return Err(
            HandoffError::DestinationUnavailable {
                order_id: order.order_id.clone(),
                status: *destination_status,
            },
        );
    }
    Ok(())
}

/// Validate and start a handoff, `InTransit` → `HandoffPending`; returns the
/// advanced order and the `HandoffRequest` message to broadcast.
pub fn create_handoff_request(
    order: Order,
    requester: &str,
    destination: NodeId,
    destination_status: &AgentStatus,
    now: Timestamp,
) -> (r: Result<(Order, NexusMessage), HandoffError>)
    ensures
        r is Ok == handoff_permitted(order, requester@, *destination_status),
        match r {
            Ok((o, m)) => handoff_rule(order, requester@, *destination_status)
                == HandoffRule::Permitted && o
                == advanced(order, step_target(Step::RequestHandoff), now) && m == (
            NexusMessage::HandoffRequest {
                order_id: order.order_id,
                from: carrier(order),
                to: destination,
            }),
            Err(e) => reports(
                e,
                handoff_rule(order, requester@, *destination_status),
                order,
                requester@,
                *destination_status,
            ),
        },
{
    validate_handoff(&order, requester, destination_status)?;
    match order_fsm::request_handoff(order, destination, now) {
        Ok(res) => Ok(res),
        Err(_) => unreached(),
    }
}

/// Complete an accepted handoff, `HandoffPending` → `HandedOff`; the
/// destination must still be `Idle`.  Returns the advanced order and the
/// `HandoffComplete` message to broadcast.
pub fn complete_handoff(
    order: Order,
    new_holder: NodeId,
    destination_status: &AgentStatus,
    now: Timestamp,
) -> (r: Result<(Order, NexusMessage), HandoffError>)
    ensures
        match r {
            Ok((o, m)) => order.status == OrderStatus::HandoffPending && *destination_status
                == AgentStatus::Idle && o == (Order {
                assigned_to: Some(new_holder),
                ..advanced(order, step_target(Step::CompleteHandoff), now)
            }) && m == (NexusMessage::HandoffComplete { order_id: order.order_id, new_holder }),
            Err(e) => if order.status != OrderStatus::HandoffPending {
                e == (HandoffError::NotPending { order_id: order.order_id, found: order.status })
            } else {
                *destination_status != AgentStatus::Idle && e == (
                HandoffError::DestinationNoLongerAvailable {
                    order_id: order.order_id,
                    status: *destination_status,
                })
            },
        },
{
    if order.status != OrderStatus::HandoffPending {
        return Err(
            HandoffError::NotPending { order_id: order.order_id.clone(), found: order.status },
        );
    }
    if *destination_status != AgentStatus::Idle {
        return Err(
            HandoffError::DestinationNoLongerAvailable {
                order_id: order.order_id.clone(),
                status: *destination_status,
            },
        );
    }
    match order_fsm::complete_handoff(order, new_holder, now) {
        Ok(res) => Ok(res),
        Err(_) => unreached(),
    }
}

} // verus!
