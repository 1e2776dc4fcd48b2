//! The order lifecycle state machine.
//!
//! ```text
//! Created → Bidding → Assigned → Pickup → InTransit → Delivered
//!                                                  ↘ HandoffPending → HandedOff → Delivered
//! ```
//!
//! Every transition takes the order by value and hands it back advanced, or
//! reports why the order is not in a state the transition starts from.

use vstd::prelude::*;

use crate::types::{GeoBits, NexusMessage, NodeId, Order, OrderStatus, Timestamp};

verus! {

/// A lifecycle step that an order can take.
#[derive(Debug, Clone, Copy, PartialEq, Eq, Structural)]
pub enum Step {
    StartBidding,
    Assign,
    Pickup,
    Depart,
    RequestHandoff,
    CompleteHandoff,
    Deliver,
}

/// Whether `step` may be taken from status `from`.
pub open spec fn step_allowed(step: Step, from: OrderStatus) -> bool {
    match step {
        Step::StartBidding => from == OrderStatus::Created,
        Step::Assign => from == OrderStatus::Bidding,
        Step::Pickup => from == OrderStatus::Assigned,
        Step::Depart => from == OrderStatus::Pickup,
        Step::RequestHandoff => from == OrderStatus::InTransit,
        Step::CompleteHandoff => from == OrderStatus::HandoffPending,
        Step::Deliver => from == OrderStatus::InTransit || from == OrderStatus::HandedOff,
    }
}

/// The status an order has after `step`.
pub open spec fn step_target(step: Step) -> OrderStatus {
    match step {
        Step::StartBidding => OrderStatus::Bidding,
        Step::Assign => OrderStatus::Assigned,
        Step::Pickup => OrderStatus::Pickup,
        Step::Depart => OrderStatus::InTransit,
        Step::RequestHandoff => OrderStatus::HandoffPending,
        Step::CompleteHandoff => OrderStatus::HandedOff,
        Step::Deliver => OrderStatus::Delivered,
    }
}

/// Position of a status along the lifecycle.
pub open spec fn status_rank(s: OrderStatus) -> int {
    match s {
        OrderStatus::Created => 0,
        OrderStatus::Bidding => 1,
        OrderStatus::Assigned => 2,
        OrderStatus::Pickup => 3,
        OrderStatus::InTransit => 4,
        OrderStatus::HandoffPending => 5,
        OrderStatus::HandedOff => 6,
        OrderStatus::Delivered => 7,
        OrderStatus::Cancelled => 8,
    }
}

/// Every permitted step moves an order forward along the lifecycle, so no
/// sequence of steps ever brings an order back to an earlier status.
pub proof fn lemma_steps_move_forward(step: Step, from: OrderStatus)
    requires
        step_allowed(step, from),
    ensures
        status_rank(step_target(step)) > status_rank(from),
{
}

/// The lifecycle, step by step: each step starts from exactly the status
/// listed and ends in the next one (`Created` → `Bidding` → `Assigned` →
/// `Pickup` → `InTransit`, then either `Delivered` or `HandoffPending` →
/// `HandedOff` → `Delivered`); in particular an order goes in transit only
/// from `Pickup`, so the pickup step is never skipped.
pub proof fn lemma_lifecycle_steps(from: OrderStatus)
    ensures
        step_allowed(Step::StartBidding, from) == (from == OrderStatus::Created),
        step_target(Step::StartBidding) == OrderStatus::Bidding,
        step_allowed(Step::Assign, from) == (from == OrderStatus::Bidding),
        step_target(Step::Assign) == OrderStatus::Assigned,
        step_allowed(Step::Pickup, from) == (from == OrderStatus::Assigned),
        step_target(Step::Pickup) == OrderStatus::Pickup,
        step_allowed(Step::Depart, from) == (from == OrderStatus::Pickup),
        step_target(Step::Depart) == OrderStatus::InTransit,
        step_allowed(Step::RequestHandoff, from) == (from == OrderStatus::InTransit),
        step_target(Step::RequestHandoff) == OrderStatus::HandoffPending,
        step_allowed(Step::CompleteHandoff, from) == (from == OrderStatus::HandoffPending),
        step_target(Step::CompleteHandoff) == OrderStatus::HandedOff,
        step_allowed(Step::Deliver, from) == (from == OrderStatus::InTransit || from
            == OrderStatus::HandedOff),
        step_target(Step::Deliver) == OrderStatus::Delivered,
        forall|step: Step| #[trigger] step_allowed(step, from) && step_target(step) == OrderStatus::InTransit
            ==> from == OrderStatus::Pickup,
{
}

/// `Delivered` and `Cancelled` are final: no step starts from them.
pub proof fn lemma_final_statuses(step: Step)
    ensures
        !step_allowed(step, OrderStatus::Delivered),
        !step_allowed(step, OrderStatus::Cancelled),
{
}

/// The name by which a status is printed.
pub open spec fn status_text(s: OrderStatus) -> Seq<char> {
    match s {
        OrderStatus::Created => "Created"@,
        OrderStatus::Bidding => "Bidding"@,
        OrderStatus::Assigned => "Assigned"@,
        OrderStatus::Pickup => "Pickup"@,
        OrderStatus::InTransit => "InTransit"@,
        OrderStatus::HandoffPending => "HandoffPending"@,
        OrderStatus::HandedOff => "HandedOff"@,
        OrderStatus::Delivered => "Delivered"@,
        OrderStatus::Cancelled => "Cancelled"@,
    }
}

/// The name by which a status is printed.
pub fn status_name(s: OrderStatus) -> (r: &'static str)
    ensures
        r@ == status_text(s),
{
    match s {
        OrderStatus::Created => "Created",
        OrderStatus::Bidding => "Bidding",
        OrderStatus::Assigned => "Assigned",
        OrderStatus::Pickup => "Pickup",
        OrderStatus::InTransit => "InTransit",
        OrderStatus::HandoffPending => "HandoffPending",
        OrderStatus::HandedOff => "HandedOff",
        OrderStatus::Delivered => "Delivered",
        OrderStatus::Cancelled => "Cancelled",
    }
}

/// Why a lifecycle transition was refused.
#[derive(Debug, Clone, PartialEq, Eq)]
pub enum OrderError {
    /// The order was not in the one status the transition starts from.
    WrongStatus { order_id: String, expected: OrderStatus, found: OrderStatus },
    /// Delivery was asked of an order that is neither `InTransit` nor `HandedOff`.
    NotDeliverable { order_id: String, found: OrderStatus },
}

/// The text of an [`OrderError`].
pub open spec fn order_error_text(e: OrderError) -> Seq<char> {
    match e {
        OrderError::WrongStatus { order_id, expected, found } => "Order '"@ + order_id@
            + "': expected status "@ + status_text(expected) + ", found "@ + status_text(found),
        OrderError::NotDeliverable { order_id, found } => "Order '"@ + order_id@
            + "': cannot mark Delivered from "@ + status_text(found),
    }
}

impl OrderError {
    /// Human-readable description of the error.
    pub fn message(&self) -> (r: String)
        ensures
            r@ == order_error_text(*self),
    {
        match self {
            OrderError::WrongStatus { order_id, expected, found } => {
                let mut m = String::from_str("Order '");
                m.append(order_id.as_str());
                m.append("': expected status ");
                m.append(status_name(*expected));
                m.append(", found ");
                m.append(status_name(*found));
                m
            },
            OrderError::NotDeliverable { order_id, found } => {
                let mut m = String::from_str("Order '");
                m.append(order_id.as_str());
                m.append("': cannot mark Delivered from ");
                m.append(status_name(*found));
                m
            },
        }
    }
}

/// `o` moved to status `s` at time `now`, all else unchanged.
pub open spec fn advanced(o: Order, s: OrderStatus, now: Timestamp) -> Order {
    Order { status: s, updated_at: now, ..o }
}

/// The error reported when `o` is not in status `expected`.
pub open spec fn wrong_status(o: Order, expected: OrderStatus) -> OrderError {
    OrderError::WrongStatus { order_id: o.order_id, expected, found: o.status }
}

/// Enforce that `order` is currently in `expected` status.
fn require_status(order: &Order, expected: OrderStatus) -> (r: Result<(), OrderError>)
    ensures
        match r {
            Ok(()) => order.status == expected,
            Err(e) => order.status != expected && e == wrong_status(*order, expected),
        },
{
    if order.status != expected {
        return Err(
            OrderError::WrongStatus {
                order_id: order.order_id.clone(),
                expected,
                found: order.status,
            },
        );
    }
    Ok(())
}

/// Create a brand-new order in `Created` status, together with the
/// `OrderCreated` message to broadcast.
pub fn create_order(
    order_id: &str,
    origin: NodeId,
    pickup: GeoBits,
    dropoff: GeoBits,
    now: Timestamp,
) -> (r: (Order, NexusMessage))
    ensures
        r.0 == (Order {
            order_id: r.0.order_id,
            status: OrderStatus::Created,
            origin,
            assigned_to: None,
            pickup,
            dropoff,
            created_at: now,
            updated_at: now,
        }),
        r.0.order_id@ == order_id@,
        r.1 == NexusMessage::OrderCreated(r.0),
{
    let order = Order {
        order_id: order_id.to_owned(),
        status: OrderStatus::Created,
        origin,
        assigned_to: None,
        pickup,
        dropoff,
        created_at: now,
        updated_at: now,
    };
    let msg = NexusMessage::OrderCreated(order.duplicate());
    (order, msg)
}

/// Transition `Created` → `Bidding`: the auction phase begins.
pub fn mark_bidding(order: Order, now: Timestamp) -> (r: Result<Order, OrderError>)
    ensures
        r is Ok == (order.status == OrderStatus::Created),
        r matches Ok(o) ==> o.status == OrderStatus::Bidding,
        match r {
            Ok(o) => step_allowed(Step::StartBidding, order.status) && o == advanced(
                order,
                step_target(Step::StartBidding),
                now,
            ),
            Err(e) => !step_allowed(Step::StartBidding, order.status) && e == wrong_status(
                order,
                OrderStatus::Created,
            ),
        },
{
    let mut order = order;
    require_status(&order, OrderStatus::Created)?;
    order.status = OrderStatus::Bidding;
    order.updated_at = now;
    Ok(order)
}

/// Transition `Bidding` → `Assigned`: records the winning agent and returns
/// the `AuctionWinner` message to broadcast.
pub fn assign_order(order: Order, winner: NodeId, now: Timestamp) -> (r: Result<
    (Order, NexusMessage),
    OrderError,
>)
    ensures
        r is Ok == (order.status == OrderStatus::Bidding),
        r matches Ok((o, _)) ==> o.status == OrderStatus::Assigned && o.assigned_to == Some(winner),
        match r {
            Ok((o, m)) => step_allowed(Step::Assign, order.status) && o == (Order {
                assigned_to: Some(winner),
                ..advanced(order, step_target(Step::Assign), now)
            }) && m == (NexusMessage::AuctionWinner { order_id: order.order_id, winner }),
            Err(e) => !step_allowed(Step::Assign, order.status) && e == wrong_status(
                order,
                OrderStatus::Bidding,
            ),
        },
{
    let mut order = order;
    require_status(&order, OrderStatus::Bidding)?;
    order.assigned_to = Some(winner.clone());
    order.status = OrderStatus::Assigned;
    order.updated_at = now;
    let msg = NexusMessage::AuctionWinner { order_id: order.order_id.clone(), winner };
    Ok((order, msg))
}

/// Transition `Assigned` → `Pickup`: the agent has reached the pickup point.
pub fn mark_pickup(order: Order, now: Timestamp) -> (r: Result<Order, OrderError>)
    ensures
        r is Ok == (order.status == OrderStatus::Assigned),
        r matches Ok(o) ==> o.status == OrderStatus::Pickup,
        match r {
            Ok(o) => step_allowed(Step::Pickup, order.status) && o == advanced(
                order,
                step_target(Step::Pickup),
                now,
            ),
            Err(e) => !step_allowed(Step::Pickup, order.status) && e == wrong_status(
                order,
                OrderStatus::Assigned,
            ),
        },
{
    let mut order = order;
    require_status(&order, OrderStatus::Assigned)?;
    order.status = OrderStatus::Pickup;
    order.updated_at = now;
    Ok(order)
}

/// Transition `Pickup` → `InTransit`: the package is on its way.
pub fn mark_in_transit(order: Order, now: Timestamp) -> (r: Result<Order, OrderError>)
    ensures
        r is Ok == (order.status == OrderStatus::Pickup),
        r matches Ok(o) ==> o.status == OrderStatus::InTransit,
        match r {
            Ok(o) => step_allowed(Step::Depart, order.status) && o == advanced(
                order,
                step_target(Step::Depart),
                now,
            ),
            Err(e) => !step_allowed(Step::Depart, order.status) && e == wrong_status(
                order,
                OrderStatus::Pickup,
            ),
        },
{
    let mut order = order;
    require_status(&order, OrderStatus::Pickup)?;
    order.status = OrderStatus::InTransit;
    order.updated_at = now;
    Ok(order)
}

/// The agent that currently carries `o`: the assignee, or else the origin.
pub open spec fn carrier(o: Order) -> NodeId {
    match o.assigned_to {
        Some(a) => a,
        None => o.origin,
    }
}

/// Transition `InTransit` → `HandoffPending`: the carrier asks `to` to take
/// over; returns the `HandoffRequest` message to broadcast.
pub fn request_handoff(order: Order, to: NodeId, now: Timestamp) -> (r: Result<
    (Order, NexusMessage),
    OrderError,
>)
    ensures
        r is Ok == (order.status == OrderStatus::InTransit),
        r matches Ok((o, _)) ==> o.status == OrderStatus::HandoffPending,
        match r {
            Ok((o, m)) => step_allowed(Step::RequestHandoff, order.status) && o == advanced(
                order,
                step_target(Step::RequestHandoff),
                now,
            ) && m == (NexusMessage::HandoffRequest {
                order_id: order.order_id,
                from: carrier(order),
                to,
            }),
            Err(e) => !step_allowed(Step::RequestHandoff, order.status) && e == wrong_status(
                order,
                OrderStatus::InTransit,
            ),
        },
{
    let mut order = order;
    require_status(&order, OrderStatus::InTransit)?;
    let from = match &order.assigned_to {
        Some(a) => a.clone(),
        None => order.origin.clone(),
    };
    order.status = OrderStatus::HandoffPending;
    order.updated_at = now;
    let msg = NexusMessage::HandoffRequest { order_id: order.order_id.clone(), from, to };
    Ok((order, msg))
}

/// Transition `HandoffPending` → `HandedOff`: the receiving agent has the
/// package; returns the `HandoffComplete` message to broadcast.
pub fn complete_handoff(order: Order, new_holder: NodeId, now: Timestamp) -> (r: Result<
    (Order, NexusMessage),
    OrderError,
>)
    ensures
        r is Ok == (order.status == OrderStatus::HandoffPending),
        r matches Ok((o, _)) ==> o.status == OrderStatus::HandedOff && o.assigned_to == Some(new_holder),
        match r {
            Ok((o, m)) => step_allowed(Step::CompleteHandoff, order.status) && o == (Order {
                assigned_to: Some(new_holder),
                ..advanced(order, step_target(Step::CompleteHandoff), now)
            }) && m == (NexusMessage::HandoffComplete { order_id: order.order_id, new_holder }),
            Err(e) => !step_allowed(Step::CompleteHandoff, order.status) && e == wrong_status(
                order,
                OrderStatus::HandoffPending,
            ),
        },
{
    let mut order = order;
    require_status(&order, OrderStatus::HandoffPending)?;
    order.assigned_to = Some(new_holder.clone());
    order.status = OrderStatus::HandedOff;
    order.updated_at = now;
    let msg = NexusMessage::HandoffComplete { order_id: order.order_id.clone(), new_holder };
    Ok((order, msg))
}

/// Transition `InTransit` | `HandedOff` → `Delivered`; returns the
/// `OrderDelivered` message to broadcast.
pub fn mark_delivered(order: Order, delivered_by: NodeId, now: Timestamp) -> (r: Result<
    (Order, NexusMessage),
    OrderError,
>)
    ensures
        r is Ok == (order.status == OrderStatus::InTransit || order.status == OrderStatus::HandedOff),
        r matches Ok((o, _)) ==> o.status == OrderStatus::Delivered,
        match r {
            Ok((o, m)) => step_allowed(Step::Deliver, order.status) && o == advanced(
                order,
                step_target(Step::Deliver),
                now,
            ) && m == (NexusMessage::OrderDelivered {
                order_id: order.order_id,
                delivered_by,
                at: now,
            }),
            Err(e) => !step_allowed(Step::Deliver, order.status) && e == (
            OrderError::NotDeliverable { order_id: order.order_id, found: order.status }),
        },
{
    let mut order = order;
    if order.status != OrderStatus::InTransit && order.status != OrderStatus::HandedOff {
        return Err(
            OrderError::NotDeliverable { order_id: order.order_id.clone(), found: order.status },
        );
    }
    order.status = OrderStatus::Delivered;
    order.updated_at = now;
    let msg = NexusMessage::OrderDelivered {
        order_id: order.order_id.clone(),
        delivered_by,
        at: now,
    };
    Ok((order, msg))
}

} // verus!
