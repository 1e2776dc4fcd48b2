use vertex_swarm_demo::sim::world::{lcg_next, WorldAgent, WorldEvent, WorldSim, STARTING_BALANCE, WORLD_ESCROW};
use vertex_swarm_demo::types::{AgentStatus, AuctionBid, GeoBits, OrderStatus};

fn geo(lat: f64, lon: f64) -> GeoBits {
    GeoBits { x_bits: lat.to_bits(), y_bits: lon.to_bits() }
}

fn place(lat_off: u64, lon_off: u64) -> (GeoBits, GeoBits) {
    let dlat = lat_off as f64 * 0.001;
    let dlon = lon_off as f64 * 0.001;
    (geo(40.7128 + dlat, -74.0060 + dlon), geo(40.7580 + dlat, -73.9855 + dlon))
}

fn zone_at(lat_off: u64, lon_off: u64) -> GeoBits {
    geo(40.71 + lat_off as f64 * 0.001, -74.01 + lon_off as f64 * 0.001)
}

fn score(bid: &AuctionBid) -> u64 {
    let distance_score = 1.0 - (bid.eta_s as f64 / 600.0).clamp(0.0, 1.0);
    (distance_score + bid.battery_pct as f64 / 100.0 + 0.25).to_bits()
}

fn eta_to(from: GeoBits, to: GeoBits) -> u32 {
    let dx = f64::from_bits(from.x_bits) - f64::from_bits(to.x_bits);
    let dy = f64::from_bits(from.y_bits) - f64::from_bits(to.y_bits);
    ((dx * dx + dy * dy).sqrt() * 100.0).round().clamp(1.0, 599.0) as u32
}

fn agent(id: &str, lat: f64, lon: f64, battery: u8) -> WorldAgent {
    WorldAgent {
        id: id.to_owned(),
        location: geo(lat, lon),
        battery_pct: battery,
        status: AgentStatus::Idle,
        offline_countdown: 0,
    }
}

fn fleet() -> Vec<WorldAgent> {
    vec![
        agent("drone-1", 40.7100, -74.0100, 90),
        agent("robot-2", 40.7500, -73.9900, 70),
        agent("ebike-3", 40.7300, -74.0000, 80),
        agent("drone-4", 40.7200, -74.0050, 60),
    ]
}

#[test]
fn lcg_sequence_from_seed_42() {
    let mut s = 42u64;
    let a = lcg_next(&mut s);
    assert_eq!(a, 1220265334);
    assert_eq!(s, 10481999410520546993);
    let b = lcg_next(&mut s);
    assert_eq!(b, 484179026);
    assert_eq!(a % 100, 34);
    assert_eq!(b % 100, 26);
}

#[test]
fn new_world_credits_every_agent() {
    let sim = WorldSim::new(fleet(), 42);
    assert_eq!(sim.current_tick(), 0);
    for id in ["drone-1", "robot-2", "ebike-3", "drone-4"] {
        assert_eq!(sim.ledger.balance_of(id), STARTING_BALANCE);
    }
    assert!(sim.orders.is_empty());
    assert_eq!(sim.rng, 42);
}

#[test]
fn first_tick_creates_and_assigns_an_order() {
    let mut sim = WorldSim::new(fleet(), 42);
    let evs = sim.tick(&place, &zone_at, &eta_to, &score);
    assert_eq!(sim.current_tick(), 1);
    assert!(evs.iter().any(|e| matches!(e, WorldEvent::OrderCreated { tick: 0, order_id, .. } if order_id == "order-0")));
    let winner = evs.iter().find_map(|e| match e {
        WorldEvent::WinnerChosen { winner, .. } => Some(winner.clone()),
        _ => None,
    });
    assert_eq!(winner, Some("drone-1".to_string()), "{:?}", evs);
    assert_eq!(sim.orders.len(), 1);
    assert_eq!(sim.orders[0].order.status, OrderStatus::Assigned);
    assert_eq!(sim.ledger.balance_of("drone-1"), STARTING_BALANCE - WORLD_ESCROW);
    assert_eq!(sim.agents[0].battery_pct, 89);
    assert_eq!(sim.agents[0].status, AgentStatus::Busy);
}

#[test]
fn quiet_ticks_log_nothing() {
    let mut sim = WorldSim::new(fleet(), 42);
    sim.tick(&place, &zone_at, &eta_to, &score);
    let evs = sim.tick(&place, &zone_at, &eta_to, &score);
    assert!(evs.is_empty(), "{:?}", evs);
}

#[test]
fn orders_are_delivered_and_funds_are_kept() {
    let mut sim = WorldSim::new(fleet(), 42);
    let mut delivered = 0;
    for _ in 0..60 {
        let evs = sim.tick(&place, &zone_at, &eta_to, &score);
        delivered += evs.iter().filter(|e| matches!(e, WorldEvent::Delivered { .. })).count();
    }
    assert!(delivered > 0);
    let total: u64 = ["drone-1", "robot-2", "ebike-3", "drone-4"].iter().map(|id| sim.ledger.balance_of(id)).sum();
    assert!(total <= 4 * STARTING_BALANCE);
    assert_eq!(sim.current_tick(), 60);
}

#[test]
fn safety_zone_comes_and_goes() {
    let mut sim = WorldSim::new(fleet(), 7);
    let mut activated = None;
    let mut cleared = None;
    for _ in 0..45 {
        for e in sim.tick(&place, &zone_at, &eta_to, &score) {
            match e {
                WorldEvent::ZoneActivated { tick, zone_id, .. } => activated = Some((tick, zone_id)),
                WorldEvent::ZoneCleared { tick, zone_id } => cleared = Some((tick, zone_id)),
                _ => {}
            }
        }
    }
    assert_eq!(activated, Some((30, "zone-30".to_string())));
    assert_eq!(cleared, Some((40, "zone-30".to_string())));
}

#[test]
fn drained_agent_goes_offline_and_comes_back() {
    let mut sim = WorldSim::new(vec![agent("solo", 0.0, 0.0, 1)], 3);
    let evs = sim.update_agents(1_700_000_000);
    assert!(matches!(&evs[0], WorldEvent::BatteryDepleted { id, .. } if id == "solo"));
    assert_eq!(sim.agents[0].status, AgentStatus::Offline);
    let mut back = false;
    for _ in 0..15 {
        for e in sim.update_agents(1_700_000_001) {
            if matches!(e, WorldEvent::BackOnline { battery: 80, .. }) {
                back = true;
            }
        }
    }
    assert!(back);
    assert_eq!(sim.agents[0].status, AgentStatus::Idle);
}

#[test]
fn an_idle_agent_fails_every_25_ticks() {
    let mut sim = WorldSim::new(fleet(), 42);
    let mut offline = Vec::new();
    for _ in 0..26 {
        for e in sim.tick(&place, &zone_at, &eta_to, &score) {
            if let WorldEvent::AgentOffline { tick, id } = e {
                offline.push((tick, id));
            }
        }
    }
    assert_eq!(offline.len(), 1);
    assert_eq!(offline[0].0, 25);
}

#[test]
fn delivery_progress_is_logged_in_phase_order() {
    let mut sim = WorldSim::new(fleet(), 42);
    let mut kinds = Vec::new();
    for _ in 0..12 {
        for e in sim.tick(&place, &zone_at, &eta_to, &score) {
            match e {
                WorldEvent::PickupCompleted { order_id, .. } if order_id == "order-0" => kinds.push("pickup"),
                WorldEvent::InTransit { order_id, .. } if order_id == "order-0" => kinds.push("transit"),
                WorldEvent::HandoffCompleted { order_id, fee, .. } if order_id == "order-0" => {
                    assert_eq!(fee, 100);
                    kinds.push("handoff")
                }
                WorldEvent::Delivered { order_id, .. } if order_id == "order-0" => kinds.push("delivered"),
                _ => {}
            }
        }
    }
    assert_eq!(kinds, vec!["pickup", "transit", "handoff", "delivered"]);
}

#[test]
fn world_lines_match_their_events() {
    let mut sim = WorldSim::new(fleet(), 42);
    let mut delivered = None;
    for _ in 0..12 {
        for e in sim.tick(&place, &zone_at, &eta_to, &score) {
            match &e {
                WorldEvent::Delivered { tick, order_id, by, balance } => {
                    let expected = format!("[t={tick}] delivered  id={order_id}  by={by}  balance={balance}");
                    assert_eq!(e.line(), Some(expected.clone()));
                    delivered = Some(expected);
                }
                WorldEvent::OrderCreated { .. } => assert_eq!(e.line(), None),
                _ => assert!(e.line().is_some()),
            }
        }
    }
    assert!(delivered.is_some());
    let flagged = WorldEvent::OrderFlagged { tick: 7, order_id: "order-3".to_string(), failed_agent: "drone-1".to_string() };
    assert_eq!(flagged.line().as_deref(), Some("[t=7] order flagged for reauction  id=order-3  failed_agent=drone-1"));
    let drained = WorldEvent::BatteryDepleted { tick: 2, id: "robot-2".to_string() };
    assert_eq!(drained.line().as_deref(), Some("[t=2] agent battery depleted  id=robot-2 — going offline"));
}
