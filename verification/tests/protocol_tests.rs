use std::collections::HashMap;

use vertex_swarm_demo::healing::FailureDetector;

#[test]
fn test_failure_detection_triggers_re_auction() {
    let mut detector = FailureDetector::new();
    let mut holders: HashMap<u64, String> = HashMap::new();
    holders.insert(1, "failed-agent".to_string());
    let (orders, _escrows) = detector.handle_failure("failed-agent", &holders);
    assert!(orders.contains(&1));
}

#[test]
fn test_agent_recovery_clears_failed_state() {
    let mut detector = FailureDetector::new();
    let holders = HashMap::new();
    detector.handle_failure("a1", &holders);
    assert!(detector.is_failed("a1"));
    detector.handle_recovery("a1");
    assert!(!detector.is_failed("a1"));
}

#[test]
fn test_failure_escrow_recovery() {
    let mut detector = FailureDetector::new();
    detector.track_escrow("agent-fail", 99);
    let holders = {
        let mut m = HashMap::new();
        m.insert(1u64, "agent-fail".to_string());
        m
    };
    let (_, escrows) = detector.handle_failure("agent-fail", &holders);
    assert!(escrows.contains(&99));
}

#[test]
fn failure_flags_only_the_failed_agents_orders() {
    let mut detector = FailureDetector::new();
    let mut holders: HashMap<u64, String> = HashMap::new();
    holders.insert(1, "x".to_string());
    holders.insert(2, "y".to_string());
    holders.insert(3, "x".to_string());
    let (mut orders, escrows) = detector.handle_failure("x", &holders);
    orders.sort();
    assert_eq!(orders, vec![1, 3]);
    assert!(escrows.is_empty());
    let mut pending = detector.drain_pending_re_auction();
    pending.sort();
    assert_eq!(pending, vec![1, 3]);
    assert!(detector.drain_pending_re_auction().is_empty());
}

#[test]
fn escrows_are_handed_back_once() {
    let mut detector = FailureDetector::new();
    detector.track_escrow("a", 1);
    detector.track_escrow("a", 2);
    detector.track_escrow("b", 3);
    let holders = HashMap::new();
    let (_, first) = detector.handle_failure("a", &holders);
    assert_eq!(first, vec![1, 2]);
    let (_, second) = detector.handle_failure("a", &holders);
    assert!(second.is_empty());
    assert!(!detector.is_failed("b"));
}
