use vertex_swarm_demo::app::App;
use vertex_swarm_demo::config::AppConfig;
use vertex_swarm_demo::node::{decide_follow_ups, is_busy, label, order_due, order_emit_tick};
use vertex_swarm_demo::table::NameTable;
use vertex_swarm_demo::types::{AgentKind, AgentState, AgentStatus, AuctionBid, GeoBits, NexusMessage, OrderStatus};

const T: u64 = 1_700_000_000;

fn geo(x: f64, y: f64) -> GeoBits {
    GeoBits { x_bits: x.to_bits(), y_bits: y.to_bits() }
}

fn config(node_id: &str) -> AppConfig {
    AppConfig {
        node_id: node_id.to_string(),
        secret_key: "SECRET-REDACTED".to_string(),
        bind: "127.0.0.1:8001".to_string(),
        peers: Vec::new(),
        agent_kind: AgentKind::Drone,
        vendor: "acme".to_string(),
        x: 1.0f64.to_bits(),
        y: 2.0f64.to_bits(),
        battery: 90,
        capacity: 2,
    }
}

fn bid(order_id: &str, bidder: &str, eta_s: u32, battery_pct: u8) -> AuctionBid {
    AuctionBid { order_id: order_id.to_string(), bidder: bidder.to_string(), eta_s, battery_pct, submitted_at: T }
}

fn score(bid: &AuctionBid) -> u64 {
    let distance_score = 1.0 - (bid.eta_s as f64 / 600.0).clamp(0.0, 1.0);
    (distance_score + bid.battery_pct as f64 / 100.0 + 0.25).to_bits()
}

fn eta_to(from: GeoBits, to: GeoBits) -> u32 {
    let dx = f64::from_bits(from.x_bits) - f64::from_bits(to.x_bits);
    let dy = f64::from_bits(from.y_bits) - f64::from_bits(to.y_bits);
    ((dx * dx + dy * dy).sqrt() * 100.0).round().clamp(1.0, 599.0) as u32
}

#[test]
fn new_app_starts_idle_and_empty() {
    let app = App::new_at(config("node1"), T);
    assert_eq!(app.local_agent.node_id, "node1");
    assert_eq!(app.local_agent.status, AgentStatus::Idle);
    assert_eq!(app.local_agent.battery_pct, 90);
    assert_eq!(app.local_agent.updated_at, T);
    assert_eq!(app.orders.len(), 0);
    assert!(matches!(app.heartbeat(), NexusMessage::AgentState(s) if s.node_id == "node1"));
}

#[test]
fn submitted_order_is_recorded_as_created() {
    let mut app = App::new_at(config("node1"), T);
    let msg = app.submit_order_at("o-1", geo(0.0, 0.0), geo(1.0, 1.0), T);
    assert!(matches!(&msg, NexusMessage::OrderCreated(o) if o.order_id == "o-1" && o.origin == "node1"));
    let o = app.orders.get("o-1").unwrap();
    assert_eq!(o.status, OrderStatus::Created);
    assert_eq!(o.created_at, T);
}

#[test]
fn auction_evaluation_picks_best_bid() {
    let mut app = App::new_at(config("node1"), T);
    assert_eq!(app.evaluate_auction("o-1", &score), None);
    app.handle_message_at(NexusMessage::AuctionBid(bid("o-1", "slow", 500, 90)), T);
    app.handle_message_at(NexusMessage::AuctionBid(bid("o-1", "fast", 10, 90)), T);
    assert_eq!(app.evaluate_auction("o-1", &score), Some("fast".to_string()));
    let own = app.submit_bid_at("o-1", 1, T);
    assert!(matches!(own, NexusMessage::AuctionBid(b) if b.bidder == "node1" && b.battery_pct == 90));
    assert_eq!(app.evaluate_auction("o-1", &score), Some("node1".to_string()));
}

#[test]
fn order_lifecycle_through_messages() {
    let mut app = App::new_at(config("node1"), T);
    let msg = app.submit_order_at("o-1", geo(0.0, 0.0), geo(1.0, 1.0), T);
    // A winner for an order that is not bidding leaves it unchanged.
    app.handle_message_at(NexusMessage::AuctionWinner { order_id: "o-1".to_string(), winner: "n2".to_string() }, T + 1);
    assert_eq!(app.orders.get("o-1").unwrap().status, OrderStatus::Created);
    // Receiving the same order again keeps the first copy.
    app.handle_message_at(msg, T + 2);
    assert_eq!(app.orders.get("o-1").unwrap().updated_at, T);
    // Delivering from Created is refused.
    app.handle_message_at(
        NexusMessage::OrderDelivered { order_id: "o-1".to_string(), delivered_by: "n2".to_string(), at: T },
        T + 3,
    );
    assert_eq!(app.orders.get("o-1").unwrap().status, OrderStatus::Created);
    // Unknown orders are ignored.
    app.handle_message_at(NexusMessage::HandoffComplete { order_id: "zz".to_string(), new_holder: "n3".to_string() }, T);
    assert!(app.orders.get("zz").is_none());
}

#[test]
fn failed_peer_is_marked_offline() {
    let mut app = App::new_at(config("node1"), T);
    let peer = AgentState {
        node_id: "n2".to_string(),
        kind: AgentKind::Robot,
        status: AgentStatus::Idle,
        location: geo(0.0, 0.0),
        battery_pct: 50,
        updated_at: T,
    };
    app.handle_message_at(NexusMessage::AgentState(peer), T);
    app.handle_message_at(NexusMessage::AgentFailure { node_id: "n2".to_string(), reason: "crash".to_string() }, T);
    assert_eq!(app.peer_states.get("n2").unwrap().status, AgentStatus::Offline);
    app.handle_message_at(NexusMessage::AgentFailure { node_id: "n9".to_string(), reason: "crash".to_string() }, T);
    assert!(app.peer_states.get("n9").is_none());
}

#[test]
fn labels_name_the_variant() {
    assert_eq!(label(&NexusMessage::SafetyClear { zone_id: "z".to_string() }), "SafetyClear");
    assert_eq!(label(&NexusMessage::AuctionBid(bid("o", "b", 1, 1))), "AuctionBid");
}

#[test]
fn idle_node_bids_on_new_order() {
    let app = App::new_at(config("node1"), T);
    let mut resolved = NameTable::new();
    let mut delivering = NameTable::new();
    let mut other = App::new_at(config("node2"), T);
    let order_msg = other.submit_order_at("o-7", geo(1.0, 2.5), geo(3.0, 3.0), T);
    let out = decide_follow_ups(&app, &order_msg, "node1", &mut resolved, &mut delivering, &eta_to, &score, T + 5);
    assert_eq!(out.len(), 1);
    assert!(matches!(&out[0], NexusMessage::AuctionBid(b) if b.order_id == "o-7" && b.eta_s == 50 && b.submitted_at == T + 5));
    assert!(!is_busy(&app, "node1"));
}

#[test]
fn creator_resolves_auction_once_and_winner_delivers() {
    let mut app = App::new_at(config("node1"), T);
    let order_msg = app.submit_order_at("o-1", geo(0.0, 0.0), geo(1.0, 1.0), T);
    let mut resolved = NameTable::new();
    let mut delivering = NameTable::new();
    let _ = decide_follow_ups(&app, &order_msg, "node1", &mut resolved, &mut delivering, &eta_to, &score, T);
    let b = NexusMessage::AuctionBid(bid("o-1", "node2", 5, 80));
    let out = decide_follow_ups(&app, &b, "node1", &mut resolved, &mut delivering, &eta_to, &score, T);
    let again = decide_follow_ups(&app, &b, "node1", &mut resolved, &mut delivering, &eta_to, &score, T);
    assert!(matches!(&out[..], [NexusMessage::AuctionWinner { order_id, winner }] if order_id == "o-1" && winner == "node2"));
    assert!(again.is_empty());
    let win = NexusMessage::AuctionWinner { order_id: "o-9".to_string(), winner: "node1".to_string() };
    let d1 = decide_follow_ups(&app, &win, "node1", &mut resolved, &mut delivering, &eta_to, &score, T);
    let d2 = decide_follow_ups(&app, &win, "node1", &mut resolved, &mut delivering, &eta_to, &score, T);
    assert!(matches!(&d1[..], [NexusMessage::OrderDelivered { order_id, delivered_by, .. }] if order_id == "o-9" && delivered_by == "node1"));
    assert!(d2.is_empty());
}

#[test]
fn nodes_take_turns_creating_orders() {
    assert_eq!(order_emit_tick("node1"), 11);
    assert_eq!(order_emit_tick("node2"), 12);
    assert_eq!(order_emit_tick("node3"), 13);
    assert_eq!(order_emit_tick(""), 0);
    let app = App::new_at(config("node1"), T);
    assert!(order_due(&app, "node1", 31, 11, false));
    assert!(!order_due(&app, "node1", 31, 11, true));
    assert!(!order_due(&app, "node1", 32, 11, false));
}

#[test]
fn local_order_ids_count_up() {
    let mut seq = 0u64;
    assert_eq!(vertex_swarm_demo::node::next_order_id("node1", &mut seq), "node1-order-1");
    assert_eq!(vertex_swarm_demo::node::next_order_id("node1", &mut seq), "node1-order-2");
    assert_eq!(seq, 2);
}
