use vertex_swarm_demo::domain::order::{
    assign_order, complete_handoff, create_order, mark_bidding, mark_delivered, mark_in_transit,
    mark_pickup, request_handoff, OrderError,
};
use vertex_swarm_demo::types::{GeoBits, NexusMessage, Order, OrderStatus, Timestamp};

const T: Timestamp = 1_700_000_000;

fn pickup() -> GeoBits {
    GeoBits { x_bits: 40.7128f64.to_bits(), y_bits: (-74.0060f64).to_bits() }
}

fn dropoff() -> GeoBits {
    GeoBits { x_bits: 40.7580f64.to_bits(), y_bits: (-73.9855f64).to_bits() }
}

fn new_order() -> Order {
    let (order, _) = create_order("order-1", "node-a".into(), pickup(), dropoff(), T);
    order
}

#[test]
fn create_sets_created_status() {
    let order = new_order();
    assert_eq!(order.status, OrderStatus::Created);
    assert_eq!(order.order_id, "order-1");
    assert!(order.assigned_to.is_none());
}

#[test]
fn create_emits_order_created_message() {
    let (_, msg) = create_order("order-1", "node-a".into(), pickup(), dropoff(), T);
    assert!(matches!(msg, NexusMessage::OrderCreated(_)));
}

#[test]
fn happy_path_direct_delivery() {
    let order = new_order();

    let order = mark_bidding(order, T + 1).unwrap();
    assert_eq!(order.status, OrderStatus::Bidding);

    let (order, msg) = assign_order(order, "node-b".into(), T + 2).unwrap();
    assert_eq!(order.status, OrderStatus::Assigned);
    assert!(matches!(msg, NexusMessage::AuctionWinner { .. }));
    assert_eq!(order.assigned_to.as_deref(), Some("node-b"));

    let order = mark_pickup(order, T + 3).unwrap();
    assert_eq!(order.status, OrderStatus::Pickup);

    let order = mark_in_transit(order, T + 4).unwrap();
    assert_eq!(order.status, OrderStatus::InTransit);

    let (order, msg) = mark_delivered(order, "node-b".into(), T + 5).unwrap();
    assert_eq!(order.status, OrderStatus::Delivered);
    assert!(matches!(msg, NexusMessage::OrderDelivered { .. }));
}

#[test]
fn happy_path_with_handoff() {
    let order = new_order();
    let order = mark_bidding(order, T + 1).unwrap();
    let (order, _) = assign_order(order, "node-b".into(), T + 2).unwrap();
    let order = mark_pickup(order, T + 3).unwrap();
    let order = mark_in_transit(order, T + 4).unwrap();

    let (order, msg) = request_handoff(order, "node-c".into(), T + 5).unwrap();
    assert_eq!(order.status, OrderStatus::HandoffPending);
    assert!(matches!(msg, NexusMessage::HandoffRequest { .. }));

    let (order, msg) = complete_handoff(order, "node-c".into(), T + 6).unwrap();
    assert_eq!(order.status, OrderStatus::HandedOff);
    assert_eq!(order.assigned_to.as_deref(), Some("node-c"));
    assert!(matches!(msg, NexusMessage::HandoffComplete { .. }));

    let (order, _) = mark_delivered(order, "node-c".into(), T + 7).unwrap();
    assert_eq!(order.status, OrderStatus::Delivered);
}

#[test]
fn invalid_transition_returns_error() {
    let order = new_order();
    assert!(assign_order(order, "node-b".into(), T).is_err());
}

#[test]
fn cannot_deliver_from_created() {
    let order = new_order();
    assert!(mark_delivered(order, "node-b".into(), T).is_err());
}

#[test]
fn cannot_handoff_before_in_transit() {
    let order = new_order();
    let order = mark_bidding(order, T).unwrap();
    let (order, _) = assign_order(order, "node-b".into(), T).unwrap();
    assert!(request_handoff(order, "node-c".into(), T).is_err());
}

#[test]
fn transitions_keep_identity_and_stamp_time() {
    let order = new_order();
    let order = mark_bidding(order, T + 9).unwrap();
    assert_eq!(order.order_id, "order-1");
    assert_eq!(order.origin, "node-a");
    assert_eq!(order.created_at, T);
    assert_eq!(order.updated_at, T + 9);
    assert_eq!(order.pickup, pickup());
    assert_eq!(order.dropoff, dropoff());
}

#[test]
fn wrong_status_error_names_both_statuses() {
    let order = new_order();
    let err = mark_pickup(order, T).unwrap_err();
    assert_eq!(
        err,
        OrderError::WrongStatus {
            order_id: "order-1".into(),
            expected: OrderStatus::Assigned,
            found: OrderStatus::Created,
        }
    );
    assert_eq!(err.message(), "Order 'order-1': expected status Assigned, found Created");
}

#[test]
fn deliver_error_message() {
    let order = new_order();
    let err = mark_delivered(order, "x".into(), T).unwrap_err();
    assert_eq!(err.message(), "Order 'order-1': cannot mark Delivered from Created");
}

#[test]
fn handoff_request_names_carrier_as_sender() {
    let order = new_order();
    let order = mark_bidding(order, T).unwrap();
    let (order, _) = assign_order(order, "node-b".into(), T).unwrap();
    let order = mark_pickup(order, T).unwrap();
    let order = mark_in_transit(order, T).unwrap();
    let (_, msg) = request_handoff(order, "node-c".into(), T).unwrap();
    match msg {
        NexusMessage::HandoffRequest { order_id, from, to } => {
            assert_eq!(order_id, "order-1");
            assert_eq!(from, "node-b");
            assert_eq!(to, "node-c");
        }
        _ => panic!("expected a HandoffRequest"),
    }
}

#[test]
fn delivered_order_accepts_no_further_step() {
    let order = new_order();
    let order = mark_bidding(order, T).unwrap();
    let (order, _) = assign_order(order, "node-b".into(), T).unwrap();
    let order = mark_pickup(order, T).unwrap();
    let order = mark_in_transit(order, T).unwrap();
    let (order, _) = mark_delivered(order, "node-b".into(), T).unwrap();
    assert!(mark_bidding(order.clone(), T).is_err());
    assert!(mark_delivered(order.clone(), "node-b".into(), T).is_err());
    assert!(request_handoff(order, "node-c".into(), T).is_err());
}
