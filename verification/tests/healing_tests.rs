use vertex_swarm_demo::domain::healing::HeartbeatTracker;
use vertex_swarm_demo::domain::order as fsm;
use vertex_swarm_demo::types::{GeoBits, Order, Timestamp};

const BASE: Timestamp = 1_700_000_000;
const TIMEOUT: u64 = 30;

fn pickup() -> GeoBits {
    GeoBits { x_bits: 40.71f64.to_bits(), y_bits: (-74.00f64).to_bits() }
}

fn dropoff() -> GeoBits {
    GeoBits { x_bits: 40.75f64.to_bits(), y_bits: (-73.98f64).to_bits() }
}

fn assigned_order(order_id: &str, agent: &str) -> Order {
    let (o, _) = fsm::create_order(order_id, agent.to_string(), pickup(), dropoff(), BASE);
    let o = fsm::mark_bidding(o, BASE).unwrap();
    let (o, _) = fsm::assign_order(o, agent.to_string(), BASE).unwrap();
    o
}

#[test]
fn heartbeat_recording_updates_last_seen() {
    let mut tracker = HeartbeatTracker::new();
    tracker.record_heartbeat("node-1", BASE);
    let failed = tracker.detect_failed_agents(BASE + TIMEOUT / 2, TIMEOUT);
    assert!(failed.is_empty());
}

#[test]
fn no_false_positive_before_timeout() {
    let mut tracker = HeartbeatTracker::new();
    tracker.record_heartbeat("node-1", BASE);
    let failed = tracker.detect_failed_agents(BASE + TIMEOUT, TIMEOUT);
    assert!(!failed.contains(&"node-1".to_string()));
}

#[test]
fn failure_detected_after_timeout() {
    let mut tracker = HeartbeatTracker::new();
    tracker.record_heartbeat("node-1", BASE);
    let failed = tracker.detect_failed_agents(BASE + TIMEOUT + 1, TIMEOUT);
    assert!(failed.contains(&"node-1".to_string()));
}

#[test]
fn refreshed_heartbeat_clears_failure() {
    let mut tracker = HeartbeatTracker::new();
    tracker.record_heartbeat("node-1", BASE);
    tracker.record_heartbeat("node-1", BASE + 20);
    let failed = tracker.detect_failed_agents(BASE + TIMEOUT + 1, TIMEOUT);
    assert!(!failed.contains(&"node-1".to_string()));
}

#[test]
fn orders_to_reauction_returns_affected_orders() {
    let mut tracker = HeartbeatTracker::new();
    tracker.record_heartbeat("agent-a", BASE);
    tracker.record_heartbeat("agent-b", BASE);

    let order_a = assigned_order("ord-a", "agent-a");
    let order_b = assigned_order("ord-b", "agent-b");

    let now = BASE + TIMEOUT + 1;
    tracker.record_heartbeat("agent-b", now - 1);

    let to_reauction = tracker.orders_to_reauction(&[order_a, order_b], now, TIMEOUT);

    assert_eq!(to_reauction, vec!["ord-a"]);
}

#[test]
fn delivered_orders_are_not_reauctioned() {
    let mut tracker = HeartbeatTracker::new();
    tracker.record_heartbeat("agent-a", BASE);

    let order = assigned_order("ord-delivered", "agent-a");
    let o = fsm::mark_pickup(order, BASE).unwrap();
    let o = fsm::mark_in_transit(o, BASE).unwrap();
    let (order, _) = fsm::mark_delivered(o, "agent-a".to_string(), BASE).unwrap();

    let now = BASE + TIMEOUT + 1;
    let to_reauction = tracker.orders_to_reauction(std::slice::from_ref(&order), now, TIMEOUT);

    assert!(to_reauction.is_empty());
}

#[test]
fn unknown_agents_are_not_reported() {
    let tracker = HeartbeatTracker::new();
    assert!(tracker.detect_failed_agents(BASE + 1000, TIMEOUT).is_empty());
}

#[test]
fn clock_behind_last_heartbeat_is_not_failure() {
    let mut tracker = HeartbeatTracker::new();
    tracker.record_heartbeat("node-1", BASE + 100);
    assert!(tracker.detect_failed_agents(BASE, TIMEOUT).is_empty());
}

#[test]
fn each_failed_agent_reported_once() {
    let mut tracker = HeartbeatTracker::new();
    tracker.record_heartbeat("a", BASE);
    tracker.record_heartbeat("b", BASE);
    tracker.record_heartbeat("a", BASE + 1);
    let mut failed = tracker.detect_failed_agents(BASE + 100, TIMEOUT);
    failed.sort();
    assert_eq!(failed, vec!["a".to_string(), "b".to_string()]);
}

#[test]
fn order_of_agent_without_heartbeat_is_reauctioned() {
    let tracker = HeartbeatTracker::new();
    let order = assigned_order("o-ghost", "ghost");
    for (now, timeout) in [(0u64, 0u64), (BASE, TIMEOUT), (u64::MAX, u64::MAX)] {
        let r = tracker.orders_to_reauction(std::slice::from_ref(&order), now, timeout);
        assert_eq!(r, vec!["o-ghost".to_string()]);
    }
}
