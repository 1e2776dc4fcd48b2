use vertex_swarm_demo::domain::handoff::{complete_handoff, create_handoff_request, validate_handoff};
use vertex_swarm_demo::domain::order as fsm;
use vertex_swarm_demo::types::{AgentStatus, GeoBits, NexusMessage, Order, OrderStatus, Timestamp};

const T: Timestamp = 1_700_000_000;

fn pickup() -> GeoBits {
    GeoBits { x_bits: 40.7128f64.to_bits(), y_bits: (-74.0060f64).to_bits() }
}

fn dropoff() -> GeoBits {
    GeoBits { x_bits: 40.7580f64.to_bits(), y_bits: (-73.9855f64).to_bits() }
}

fn in_transit_order() -> Order {
    let (o, _) = fsm::create_order("ord-1", "carrier-1".to_string(), pickup(), dropoff(), T);
    let o = fsm::mark_bidding(o, T).unwrap();
    let (o, _) = fsm::assign_order(o, "carrier-1".into(), T).unwrap();
    let o = fsm::mark_pickup(o, T).unwrap();
    fsm::mark_in_transit(o, T).unwrap()
}

#[test]
fn valid_handoff_request_advances_state() {
    let order = in_transit_order();
    let (updated, msg) =
        create_handoff_request(order, "carrier-1", "carrier-2".into(), &AgentStatus::Idle, T)
            .unwrap();
    assert_eq!(updated.status, OrderStatus::HandoffPending);
    assert!(matches!(msg, NexusMessage::HandoffRequest { .. }));
}

#[test]
fn valid_complete_handoff_advances_state() {
    let order = in_transit_order();
    let (pending, _) =
        create_handoff_request(order, "carrier-1", "carrier-2".into(), &AgentStatus::Idle, T)
            .unwrap();
    let (done, msg) =
        complete_handoff(pending, "carrier-2".into(), &AgentStatus::Idle, T).unwrap();
    assert_eq!(done.status, OrderStatus::HandedOff);
    assert_eq!(done.assigned_to.as_deref(), Some("carrier-2"));
    assert!(matches!(msg, NexusMessage::HandoffComplete { .. }));
}

#[test]
fn invalid_owner_is_rejected() {
    let order = in_transit_order();
    let err =
        create_handoff_request(order, "impostor", "carrier-2".into(), &AgentStatus::Idle, T)
            .unwrap_err();
    assert!(err.message().contains("does not own"));
}

#[test]
fn unavailable_destination_is_rejected() {
    let order = in_transit_order();
    let err =
        create_handoff_request(order, "carrier-1", "carrier-2".into(), &AgentStatus::Busy, T)
            .unwrap_err();
    assert!(err.message().contains("not available"));
}

#[test]
fn duplicate_handoff_request_is_rejected() {
    let order = in_transit_order();
    let (pending, _) =
        create_handoff_request(order, "carrier-1", "carrier-2".into(), &AgentStatus::Idle, T)
            .unwrap();
    let err =
        create_handoff_request(pending, "carrier-1", "carrier-2".into(), &AgentStatus::Idle, T)
            .unwrap_err();
    assert!(err.message().contains("InTransit"));
}

#[test]
fn complete_handoff_fails_if_destination_became_busy() {
    let order = in_transit_order();
    let (pending, _) =
        create_handoff_request(order, "carrier-1", "carrier-2".into(), &AgentStatus::Idle, T)
            .unwrap();
    let err = complete_handoff(pending, "carrier-2".into(), &AgentStatus::Busy, T).unwrap_err();
    assert!(err.message().contains("no longer available"));
}

#[test]
fn owner_message_names_requester_and_owner() {
    let order = in_transit_order();
    let err = validate_handoff(&order, "impostor", &AgentStatus::Idle).unwrap_err();
    assert_eq!(
        err.message(),
        "Order 'ord-1': requester 'impostor' does not own the order (owner: 'carrier-1')"
    );
}

#[test]
fn unassigned_order_is_owned_by_origin() {
    let (o, _) = fsm::create_order("ord-2", "origin-x".to_string(), pickup(), dropoff(), T);
    let mut o = o;
    o.status = OrderStatus::InTransit;
    assert!(validate_handoff(&o, "origin-x", &AgentStatus::Idle).is_ok());
    assert!(validate_handoff(&o, "someone", &AgentStatus::Idle).is_err());
}

#[test]
fn complete_requires_pending_status() {
    let order = in_transit_order();
    let err = complete_handoff(order, "carrier-2".into(), &AgentStatus::Idle, T).unwrap_err();
    assert_eq!(
        err.message(),
        "Order 'ord-1': complete_handoff requires HandoffPending status, found InTransit"
    );
}

#[test]
fn offline_destination_message() {
    let order = in_transit_order();
    let err = validate_handoff(&order, "carrier-1", &AgentStatus::Offline).unwrap_err();
    assert_eq!(err.message(), "Order 'ord-1': destination agent is not available (Offline)");
}
