use vertex_swarm_demo::agent::{hex_prefix, AgentRuntime};
use vertex_swarm_demo::auction::AuctionBook;
use vertex_swarm_demo::handoff::HandoffManager;
use vertex_swarm_demo::safety::{SafetyMesh, SafetyZone};
use vertex_swarm_demo::types::{AgentStatus, AgentType, GeoBits, NexusAgent, Point, SwarmMessage};

fn pt(x: f64, y: f64) -> Point {
    GeoBits { x_bits: x.to_bits(), y_bits: y.to_bits() }
}

fn distance(a: Point, b: Point) -> f64 {
    let dx = f64::from_bits(a.x_bits) - f64::from_bits(b.x_bits);
    let dy = f64::from_bits(a.y_bits) - f64::from_bits(b.y_bits);
    (dx * dx + dy * dy).sqrt()
}

fn inside(z: &SafetyZone, p: Point) -> bool {
    distance(p, z.center) <= f64::from_bits(z.radius)
}

fn reputation(a: &NexusAgent) -> f64 {
    if a.total_assignments == 0 {
        1.0
    } else {
        a.successful_deliveries as f64 / a.total_assignments as f64
    }
}

fn bid_score(a: &NexusAgent, pickup: Point, weight: u64) -> Option<u64> {
    let capacity = f64::from_bits(a.capacity);
    let weight = f64::from_bits(weight);
    if capacity < weight {
        return None;
    }
    let d = distance(a.position, pickup).max(0.001);
    let score = (1.0 / d) * (f64::from_bits(a.battery) / 100.0) * (1.0 + 0.1 * reputation(a));
    if score > 0.0 {
        Some(score.to_bits())
    } else {
        None
    }
}

fn share(amount: u64, pct: u64) -> u64 {
    (amount as f64 * f64::from_bits(pct)) as u64
}

fn above(a: u64, b: u64) -> bool {
    f64::from_bits(a) > f64::from_bits(b)
}

fn make_agent(id: &str, atype: AgentType, x: f64, y: f64, battery: f64, balance: u64) -> AgentRuntime {
    AgentRuntime::new(NexusAgent::new(
        id,
        atype,
        "TestVendor",
        x.to_bits(),
        y.to_bits(),
        battery.to_bits(),
        10.0f64.to_bits(),
        balance,
    ))
}

fn broadcast(agents: &mut Vec<AgentRuntime>, msg: SwarmMessage) -> Vec<SwarmMessage> {
    let mut out = Vec::new();
    for a in agents.iter_mut() {
        a.handle(msg.clone(), &inside, &bid_score, &share);
        out.extend(a.drain_outbox());
    }
    out
}

fn order_created(order_id: u64, px: f64, py: f64, dx: f64, dy: f64, weight: f64, escrow_amount: u64) -> SwarmMessage {
    SwarmMessage::OrderCreated {
        order_id,
        pickup: pt(px, py),
        delivery: pt(dx, dy),
        weight: weight.to_bits(),
        escrow_amount,
    }
}

fn is_bid(m: &SwarmMessage) -> bool {
    matches!(m, SwarmMessage::AuctionBid { .. })
}

#[test]
fn test_agent_state_broadcast() {
    let agent = NexusAgent::new("a1", AgentType::Drone, "v", 1.0f64.to_bits(), 2.0f64.to_bits(), 80.0f64.to_bits(), 5.0f64.to_bits(), 100);
    let rt = AgentRuntime::new(agent);
    let msg = rt.broadcast_state();
    assert!(matches!(msg, SwarmMessage::AgentState { .. }));
    if let SwarmMessage::AgentState { agent_id, x, battery, status, .. } = msg {
        assert_eq!(agent_id, "a1");
        assert_eq!(f64::from_bits(x), 1.0);
        assert_eq!(f64::from_bits(battery), 80.0);
        assert_eq!(status, AgentStatus::Idle);
    }
}

#[test]
fn test_agent_state_received() {
    let mut rt = make_agent("a1", AgentType::Drone, 0.0, 0.0, 100.0, 100);
    let msg = SwarmMessage::AgentState {
        agent_id: "a2".to_string(),
        agent_type: AgentType::GroundRobot,
        vendor: "v".to_string(),
        x: 1.0f64.to_bits(),
        y: 1.0f64.to_bits(),
        battery: 90.0f64.to_bits(),
        capacity: 5.0f64.to_bits(),
        status: AgentStatus::Idle,
    };
    rt.handle(msg, &inside, &bid_score, &share);
    assert!(rt.drain_outbox().is_empty());
}

#[test]
fn test_auction_book_records_bids() {
    let mut book = AuctionBook::new();
    book.open_auction(&order_created(1, 0.0, 0.0, 1.0, 1.0, 1.0, 100));
    book.record_bid(1, "a1".to_string(), 0.9f64.to_bits());
    book.record_bid(1, "a2".to_string(), 0.5f64.to_bits());
    let winner = book.determine_winner(1, &above);
    assert_eq!(winner, Some("a1".to_string()));
}

#[test]
fn test_auction_winner_highest_score() {
    let mut book = AuctionBook::new();
    book.open_auction(&order_created(2, 0.0, 0.0, 1.0, 1.0, 1.0, 100));
    book.record_bid(2, "low".to_string(), 0.1f64.to_bits());
    book.record_bid(2, "high".to_string(), 0.99f64.to_bits());
    book.record_bid(2, "mid".to_string(), 0.5f64.to_bits());
    assert_eq!(book.determine_winner(2, &above), Some("high".to_string()));
}

#[test]
fn test_auction_no_bids_returns_none() {
    let mut book = AuctionBook::new();
    book.open_auction(&order_created(99, 0.0, 0.0, 1.0, 1.0, 1.0, 0));
    assert_eq!(book.determine_winner(99, &above), None);
}

#[test]
fn settled_winner_is_kept() {
    let mut book = AuctionBook::new();
    book.open_auction(&order_created(3, 0.0, 0.0, 1.0, 1.0, 1.0, 10));
    book.record_bid(3, "first".to_string(), 0.4f64.to_bits());
    assert_eq!(book.determine_winner(3, &above), Some("first".to_string()));
    book.record_bid(3, "later".to_string(), 0.9f64.to_bits());
    assert_eq!(book.determine_winner(3, &above), Some("first".to_string()));
    assert_eq!(book.determine_winner(4, &above), None);
}

#[test]
fn test_agent_bids_on_order() {
    let mut agents = vec![make_agent("drone-001", AgentType::Drone, 0.0, 0.0, 100.0, 100)];
    let out = broadcast(&mut agents, order_created(1, 1.0, 1.0, 5.0, 5.0, 2.0, 100));
    assert!(out.iter().any(is_bid));
}

#[test]
fn overweight_order_gets_no_bid() {
    let mut agents = vec![make_agent("drone-001", AgentType::Drone, 0.0, 0.0, 100.0, 100)];
    let out = broadcast(&mut agents, order_created(1, 1.0, 1.0, 5.0, 5.0, 50.0, 100));
    assert!(out.is_empty());
}

#[test]
fn test_agent_status_becomes_busy_when_wins() {
    let mut agents = vec![make_agent("a1", AgentType::Drone, 0.0, 0.0, 100.0, 100)];
    broadcast(&mut agents, order_created(5, 1.0, 1.0, 2.0, 2.0, 1.0, 50));
    let out = broadcast(&mut agents, SwarmMessage::AuctionWinner { order_id: 5, winner_id: "a1".to_string() });
    assert_eq!(agents[0].state.status, AgentStatus::Busy);
    assert_eq!(agents[0].state.total_assignments, 1);
    assert!(out.iter().any(|m| matches!(m, SwarmMessage::PaymentEscrow { order_id: 5, amount: 50, escrow_id: 1, .. })));
    assert_eq!(agents[0].ledger.balance("a1"), 100);
    assert_eq!(agents[0].escrow_ids.get(&5), Some(&1));
}

#[test]
fn test_handoff_manager_initiates() {
    let mut mgr = HandoffManager::new();
    let id = mgr.initiate(1, "a".to_string(), "b".to_string(), pt(1.0, 1.0));
    assert_eq!(id, 0);
    assert!(mgr.handoffs.contains_key(&0));
    let second = mgr.initiate(2, "b".to_string(), "c".to_string(), pt(2.0, 2.0));
    assert_eq!(second, 1);
}

#[test]
fn test_handoff_complete_emitted() {
    let mut agents = vec![
        make_agent("drone-001", AgentType::Drone, 0.0, 0.0, 100.0, 100),
        make_agent("robot-002", AgentType::GroundRobot, 5.0, 5.0, 90.0, 50),
    ];
    broadcast(&mut agents, order_created(1, 1.0, 1.0, 5.0, 5.0, 1.0, 100));
    broadcast(&mut agents, SwarmMessage::AuctionWinner { order_id: 1, winner_id: "drone-001".to_string() });
    let handoff = SwarmMessage::HandoffRequest {
        order_id: 1,
        from_agent: "drone-001".to_string(),
        to_agent: "robot-002".to_string(),
        point: pt(3.0, 3.0),
    };
    let out = broadcast(&mut agents, handoff);
    assert!(out.iter().any(|m| matches!(m, SwarmMessage::HandoffComplete { .. })));
}

#[test]
fn test_multihop_drone_to_robot_to_ebike() {
    let mut agents = vec![
        make_agent("drone", AgentType::Drone, 0.0, 0.0, 100.0, 100),
        make_agent("robot", AgentType::GroundRobot, 5.0, 5.0, 90.0, 50),
        make_agent("ebike", AgentType::Ebike, 10.0, 10.0, 80.0, 30),
    ];
    let h1 = SwarmMessage::HandoffRequest {
        order_id: 10,
        from_agent: "drone".to_string(),
        to_agent: "robot".to_string(),
        point: pt(5.0, 5.0),
    };
    let out1 = broadcast(&mut agents, h1);
    assert!(out1.iter().any(|m| matches!(m, SwarmMessage::HandoffComplete { .. })));
    let h2 = SwarmMessage::HandoffRequest {
        order_id: 10,
        from_agent: "robot".to_string(),
        to_agent: "ebike".to_string(),
        point: pt(8.0, 8.0),
    };
    let out2 = broadcast(&mut agents, h2);
    assert!(out2.iter().any(|m| matches!(m, SwarmMessage::HandoffComplete { .. })));
    assert_eq!(agents[2].order_holders.get(&10), Some(&"ebike".to_string()));
}

#[test]
fn test_failure_message_handled() {
    let mut agents = vec![make_agent("a1", AgentType::Drone, 0.0, 0.0, 100.0, 100)];
    let fail_msg = SwarmMessage::AgentFailure { agent_id: "a2".to_string(), reason: "battery".to_string() };
    let out = broadcast(&mut agents, fail_msg);
    assert!(out.is_empty());
    assert!(agents[0].detector.is_failed("a2"));
}

#[test]
fn failure_of_holder_reauctions_its_order() {
    let mut agents = vec![
        make_agent("a1", AgentType::Drone, 0.0, 0.0, 100.0, 100),
        make_agent("a2", AgentType::Drone, 9.0, 9.0, 100.0, 100),
    ];
    broadcast(&mut agents, order_created(7, 1.0, 1.0, 2.0, 2.0, 1.0, 40));
    broadcast(&mut agents, SwarmMessage::AuctionWinner { order_id: 7, winner_id: "a2".to_string() });
    let mut observer = vec![make_agent("obs", AgentType::Ebike, 50.0, 50.0, 100.0, 0)];
    observer[0].handle(order_created(7, 1.0, 1.0, 2.0, 2.0, 1.0, 40), &inside, &bid_score, &share);
    observer[0].drain_outbox();
    observer[0].handle(SwarmMessage::AuctionWinner { order_id: 7, winner_id: "a2".to_string() }, &inside, &bid_score, &share);
    let out = broadcast(&mut observer, SwarmMessage::AgentFailure { agent_id: "a2".to_string(), reason: "crash".to_string() });
    assert!(out.iter().any(|m| matches!(m, SwarmMessage::OrderCreated { order_id: 7, escrow_amount: 40, .. })));
}

#[test]
fn test_recovery_message_handled() {
    let mut agents = vec![make_agent("a1", AgentType::Drone, 0.0, 0.0, 100.0, 100)];
    broadcast(&mut agents, SwarmMessage::AgentFailure { agent_id: "a1".to_string(), reason: "crash".to_string() });
    broadcast(&mut agents, SwarmMessage::AgentRecovery { agent_id: "a1".to_string(), battery: 85.0f64.to_bits() });
    assert_eq!(agents[0].state.status, AgentStatus::Idle);
    assert_eq!(f64::from_bits(agents[0].state.battery), 85.0);
    assert!(!agents[0].detector.is_failed("a1"));
}

#[test]
fn test_safety_alert_freezes_agent_inside_radius() {
    let mut mesh = SafetyMesh::new();
    mesh.activate(1, pt(0.0, 0.0), 10.0f64.to_bits());
    assert!(mesh.is_frozen(&pt(5.0, 0.0), &inside));
    assert!(!mesh.is_frozen(&pt(20.0, 20.0), &inside));
}

#[test]
fn test_safety_clear_unfreezes() {
    let mut mesh = SafetyMesh::new();
    mesh.activate(1, pt(0.0, 0.0), 10.0f64.to_bits());
    mesh.clear(1);
    assert!(!mesh.is_frozen(&pt(5.0, 0.0), &inside));
    assert!(mesh.active_zones().is_empty());
}

#[test]
fn test_safety_alert_prevents_bidding() {
    let mut agents = vec![make_agent("a1", AgentType::Drone, 1.0, 1.0, 100.0, 100)];
    broadcast(&mut agents, SwarmMessage::SafetyAlert { alert_id: 1, x: 0.0f64.to_bits(), y: 0.0f64.to_bits(), radius: 50.0f64.to_bits() });
    let bids = broadcast(&mut agents, order_created(1, 2.0, 2.0, 5.0, 5.0, 1.0, 100));
    assert!(!bids.iter().any(is_bid));
}

#[test]
fn test_safety_clear_allows_bidding_again() {
    let mut agents = vec![make_agent("a1", AgentType::Drone, 1.0, 1.0, 100.0, 100)];
    broadcast(&mut agents, SwarmMessage::SafetyAlert { alert_id: 1, x: 0.0f64.to_bits(), y: 0.0f64.to_bits(), radius: 50.0f64.to_bits() });
    broadcast(&mut agents, SwarmMessage::SafetyClear { alert_id: 1 });
    let bids = broadcast(&mut agents, order_created(2, 2.0, 2.0, 5.0, 5.0, 1.0, 100));
    assert!(bids.iter().any(is_bid));
}

#[test]
fn test_multiple_safety_zones() {
    let mut mesh = SafetyMesh::new();
    mesh.activate(1, pt(0.0, 0.0), 5.0f64.to_bits());
    mesh.activate(2, pt(20.0, 20.0), 5.0f64.to_bits());
    assert!(mesh.is_frozen(&pt(3.0, 0.0), &inside));
    assert!(mesh.is_frozen(&pt(22.0, 20.0), &inside));
    assert!(!mesh.is_frozen(&pt(10.0, 10.0), &inside));
    assert_eq!(mesh.active_zones().len(), 2);
}

#[test]
fn test_agent_ignores_handoff_not_for_it() {
    let mut agents = vec![make_agent("x", AgentType::Drone, 0.0, 0.0, 100.0, 100)];
    let msg = SwarmMessage::HandoffRequest {
        order_id: 1,
        from_agent: "a".to_string(),
        to_agent: "b".to_string(),
        point: pt(0.0, 0.0),
    };
    let out = broadcast(&mut agents, msg);
    assert!(out.is_empty());
}

#[test]
fn test_multiple_orders_independent() {
    let mut agents = vec![make_agent("drone", AgentType::Drone, 0.0, 0.0, 100.0, 100)];
    for order_id in [1u64, 2, 3] {
        let out = broadcast(&mut agents, order_created(order_id, 1.0, 1.0, 2.0, 2.0, 1.0, 50));
        assert!(out.iter().any(|m| matches!(m, SwarmMessage::AuctionBid { order_id: o, .. } if *o == order_id)));
    }
    assert_eq!(agents[0].auction_book.auctions.len(), 3);
}

#[test]
fn test_handoff_payment_30_pct_of_escrow() {
    let mut agents = vec![
        make_agent("drone-001", AgentType::Drone, 0.0, 0.0, 100.0, 100),
        make_agent("robot-002", AgentType::GroundRobot, 5.0, 5.0, 100.0, 50),
    ];
    let escrow_amount = 500u64;
    broadcast(&mut agents, order_created(1, 1.0, 1.0, 5.0, 5.0, 1.0, escrow_amount));
    let escrow_msgs = broadcast(&mut agents, SwarmMessage::AuctionWinner { order_id: 1, winner_id: "drone-001".to_string() });
    for m in &escrow_msgs {
        broadcast(&mut agents, m.clone());
    }
    let handoff = SwarmMessage::HandoffRequest {
        order_id: 1,
        from_agent: "drone-001".to_string(),
        to_agent: "robot-002".to_string(),
        point: pt(3.0, 3.0),
    };
    let out = broadcast(&mut agents, handoff);
    let pay_msg = out.iter().find(|m| matches!(m, SwarmMessage::HandoffPayment { .. }));
    assert!(pay_msg.is_some(), "HandoffPayment should be emitted");
    if let Some(SwarmMessage::HandoffPayment { amount, .. }) = pay_msg {
        let expected = (escrow_amount as f64 * 0.30) as u64;
        assert_eq!(*amount, expected, "Handoff payment should be 30% of escrow");
    }
}

#[test]
fn test_full_payment_flow() {
    let mut agents = vec![
        make_agent("drone-001", AgentType::Drone, 0.0, 0.0, 100.0, 100),
        make_agent("robot-002", AgentType::GroundRobot, 5.0, 5.0, 100.0, 50),
    ];
    let order_id = 10u64;
    let escrow_amount = 300u64;
    broadcast(&mut agents, order_created(order_id, 1.0, 1.0, 5.0, 5.0, 1.0, escrow_amount));
    let escrow_msgs = broadcast(&mut agents, SwarmMessage::AuctionWinner { order_id, winner_id: "drone-001".to_string() });
    for m in &escrow_msgs {
        broadcast(&mut agents, m.clone());
    }
    let handoff = SwarmMessage::HandoffRequest {
        order_id,
        from_agent: "drone-001".to_string(),
        to_agent: "robot-002".to_string(),
        point: pt(3.0, 3.0),
    };
    let h_out = broadcast(&mut agents, handoff);
    for m in &h_out {
        broadcast(&mut agents, m.clone());
    }
    let claim_out = broadcast(&mut agents, SwarmMessage::OrderDelivered { order_id, agent_id: "robot-002".to_string() });
    for msg in &claim_out {
        if matches!(msg, SwarmMessage::PaymentClaim { .. }) {
            let rel_out = broadcast(&mut agents, msg.clone());
            for r in &rel_out {
                if matches!(r, SwarmMessage::PaymentRelease { .. }) {
                    broadcast(&mut agents, r.clone());
                }
            }
        }
    }
    let robot_bal = agents
        .iter()
        .find(|a| a.state.id == "robot-002")
        .map(|a| a.ledger.balance("robot-002"))
        .unwrap_or(0);
    assert!(robot_bal > 50, "Robot should have earned payment tokens");
}

#[test]
fn test_balance_query_response() {
    let mut agents = vec![make_agent("a1", AgentType::Drone, 0.0, 0.0, 100.0, 250)];
    let out = broadcast(&mut agents, SwarmMessage::BalanceQuery { agent_id: "a1".to_string(), request_id: 42 });
    assert!(out.iter().any(|m| matches!(m, SwarmMessage::BalanceResponse { balance: 250, request_id: 42, .. })));
}

#[test]
fn test_balance_query_ignored_for_other_agent() {
    let mut agents = vec![make_agent("a1", AgentType::Drone, 0.0, 0.0, 100.0, 250)];
    let out = broadcast(&mut agents, SwarmMessage::BalanceQuery { agent_id: "a2".to_string(), request_id: 1 });
    assert!(out.is_empty());
}

#[test]
fn tick_keeps_fresh_escrows() {
    let mut rt = make_agent("a1", AgentType::Drone, 0.0, 0.0, 100.0, 100);
    rt.tick();
    assert!(rt.drain_outbox().is_empty());
}

#[test]
fn hex_prefix_gives_first_four_bytes() {
    let bytes: Vec<u8> = (0u8..12).collect();
    assert_eq!(hex_prefix(&bytes), "00010203");
    assert_eq!(hex_prefix(&[0xab, 0xcd]), "abcd");
}
