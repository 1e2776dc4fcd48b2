use vertex_swarm_demo::config::{AppConfig, PeerConfig};
use vertex_swarm_demo::sim::live::{LiveSim, SimPhase, SimStep};
use vertex_swarm_demo::sim::runner::{run_mvp_flow, FlowError, Runner};
use vertex_swarm_demo::types::{AgentKind, AuctionBid, GeoBits, OrderStatus, SafetyZone};

fn make_config(node_id: &str, kind: AgentKind, x: f64, y: f64, battery: u8) -> AppConfig {
    AppConfig {
        node_id: node_id.to_owned(),
        secret_key: format!("sim-secret-{}", node_id),
        bind: "127.0.0.1:0".to_owned(),
        peers: Vec::<PeerConfig>::new(),
        agent_kind: kind,
        vendor: "sim".to_owned(),
        x: x.to_bits(),
        y: y.to_bits(),
        battery,
        capacity: 1,
    }
}

fn three_agents() -> Vec<AppConfig> {
    vec![
        make_config("drone-1", AgentKind::Drone, 40.71, -74.01, 90),
        make_config("robot-2", AgentKind::Robot, 40.75, -73.99, 60),
        make_config("ebike-3", AgentKind::Ebike, 40.73, -74.00, 80),
    ]
}

fn score(bid: &AuctionBid) -> u64 {
    let distance_score = 1.0 - (bid.eta_s as f64 / 600.0).clamp(0.0, 1.0);
    (distance_score + bid.battery_pct as f64 / 100.0 + 0.25).to_bits()
}

fn eta_to(from: GeoBits, to: GeoBits) -> u32 {
    let dx = f64::from_bits(from.x_bits) - f64::from_bits(to.x_bits);
    let dy = f64::from_bits(from.y_bits) - f64::from_bits(to.y_bits);
    let dist = (dx * dx + dy * dy).sqrt();
    (dist * 100.0).round().clamp(1.0, 599.0) as u32
}

fn inside(z: &SafetyZone, p: GeoBits) -> bool {
    let dx = f64::from_bits(z.center.x_bits) - f64::from_bits(p.x_bits);
    let dy = f64::from_bits(z.center.y_bits) - f64::from_bits(p.y_bits);
    let dist = (dx * dx + dy * dy).sqrt();
    dist <= f32::from_bits(z.radius_m) as f64
}

fn step_toward(from: GeoBits, to: GeoBits) -> GeoBits {
    let (fx, fy) = (f64::from_bits(from.x_bits), f64::from_bits(from.y_bits));
    let dx = f64::from_bits(to.x_bits) - fx;
    let dy = f64::from_bits(to.y_bits) - fy;
    let step = 0.1_f64.min((dx * dx + dy * dy).sqrt());
    let norm = ((dx * dx + dy * dy).sqrt()).max(f64::EPSILON);
    GeoBits { x_bits: (fx + dx / norm * step).to_bits(), y_bits: (fy + dy / norm * step).to_bits() }
}

#[test]
fn scenario_completes_without_error() {
    let mut runner = Runner::new(three_agents());
    runner.run_scenario(&eta_to, &score).expect("scenario should succeed");
}

#[test]
fn winner_is_deterministic() {
    let mut r1 = Runner::new(three_agents());
    let mut r2 = Runner::new(three_agents());
    let a = r1.run_scenario(&eta_to, &score).unwrap();
    let b = r2.run_scenario(&eta_to, &score).unwrap();
    assert_eq!(a.0, b.0);
}

#[test]
fn empty_runner_errors() {
    let mut runner = Runner::new(vec![]);
    assert!(runner.run_scenario(&eta_to, &score).is_err());
}

#[test]
fn scenario_delivers_to_the_closest_agent() {
    let mut runner = Runner::new(three_agents());
    let (winner, status) = runner.run_scenario(&eta_to, &score).unwrap();
    assert_eq!(status, OrderStatus::Delivered);
    assert_eq!(winner, "drone-1");
}

#[test]
fn mvp_flow_requires_at_least_two_agents() {
    let one = vec![make_config("solo", AgentKind::Drone, 0.0, 0.0, 80)];
    let r = run_mvp_flow(one, &eta_to, &score, &inside);
    assert!(r.is_err());
    assert_eq!(r.unwrap_err().message(), "run_mvp_flow requires at least 2 agent configs");
}

#[test]
fn mvp_flow_winner_is_selected() {
    let result = run_mvp_flow(three_agents(), &eta_to, &score, &inside).unwrap();
    assert!(!result.winner_id.is_empty());
}

#[test]
fn mvp_flow_order_reaches_delivered() {
    let result = run_mvp_flow(three_agents(), &eta_to, &score, &inside).unwrap();
    assert_eq!(result.final_order_status, OrderStatus::Delivered);
}

#[test]
fn mvp_flow_handoff_occurs_with_three_agents() {
    let result = run_mvp_flow(three_agents(), &eta_to, &score, &inside).unwrap();
    assert!(result.delivering_agent_balance > 0);
}

#[test]
fn mvp_flow_ledger_settled() {
    let result = run_mvp_flow(three_agents(), &eta_to, &score, &inside).unwrap();
    assert!(result.delivering_agent_balance > 0);
}

#[test]
fn mvp_flow_reauction_detects_failed_agent() {
    let result = run_mvp_flow(three_agents(), &eta_to, &score, &inside).unwrap();
    assert_eq!(result.reauction_candidates, vec!["mvp-reauction-1"]);
}

#[test]
fn mvp_flow_safety_zone_pauses_at_pickup() {
    let result = run_mvp_flow(three_agents(), &eta_to, &score, &inside).unwrap();
    assert!(result.safety_paused);
}

#[test]
fn mvp_flow_two_agents_no_handoff() {
    let two = vec![
        make_config("a", AgentKind::Drone, 40.71, -74.01, 90),
        make_config("b", AgentKind::Robot, 40.75, -73.99, 60),
    ];
    let result = run_mvp_flow(two, &eta_to, &score, &inside).unwrap();
    assert_eq!(result.final_order_status, OrderStatus::Delivered);
    assert!(result.delivering_agent_balance > 0);
}

#[test]
fn mvp_flow_exact_settlement_amounts() {
    let three = run_mvp_flow(three_agents(), &eta_to, &score, &inside).unwrap();
    assert_eq!(three.order_id, "mvp-order-1");
    assert_eq!(three.winner_id, "drone-1");
    assert_eq!(three.delivering_agent_balance, 200);
    let two = vec![
        make_config("a", AgentKind::Drone, 40.71, -74.01, 90),
        make_config("b", AgentKind::Robot, 40.75, -73.99, 60),
    ];
    let result = run_mvp_flow(two, &eta_to, &score, &inside).unwrap();
    assert_eq!(result.delivering_agent_balance, 300);
}

#[test]
fn mvp_flow_no_reauction_when_first_id_repeats() {
    let configs = vec![
        make_config("same", AgentKind::Drone, 40.71, -74.01, 90),
        make_config("same", AgentKind::Robot, 40.75, -73.99, 60),
        make_config("other", AgentKind::Ebike, 40.73, -74.00, 80),
    ];
    let result = run_mvp_flow(configs, &eta_to, &score, &inside).unwrap();
    assert!(result.reauction_candidates.is_empty());
}

#[test]
fn mvp_flow_pause_follows_the_zone_test() {
    let never = |_z: &SafetyZone, _p: GeoBits| false;
    let result = run_mvp_flow(three_agents(), &eta_to, &score, &never).unwrap();
    assert!(!result.safety_paused);
}

#[test]
fn flow_error_messages() {
    assert_eq!(FlowError::NoAgents.message(), "Runner requires at least one agent");
}

#[test]
fn live_sim_runs_every_phase_once() {
    let mut sim = LiveSim::new(three_agents());
    let mut steps = Vec::new();
    while !sim.is_complete() {
        steps.push(sim.step(&eta_to, &score, &step_toward, &inside));
    }
    assert_eq!(sim.current_tick(), 11);
    assert!(matches!(steps[0], SimStep::Started { tick: 0, agents: 3 }));
    match &steps[1] {
        SimStep::OrderCreated { order_id, .. } => assert_eq!(order_id, "order-0"),
        other => panic!("unexpected {:?}", other),
    }
    match &steps[3] {
        SimStep::WinnerChosen { winner, .. } => assert_eq!(winner, "drone-1"),
        other => panic!("unexpected {:?}", other),
    }
    match &steps[7] {
        SimStep::HandoffRequested { from, to, .. } => {
            assert_eq!(from, "drone-1");
            assert_eq!(to, "robot-2");
        }
        other => panic!("unexpected {:?}", other),
    }
    match &steps[10] {
        SimStep::LedgerSettled { agent, balance, reauction, safety_paused, .. } => {
            assert_eq!(agent, "robot-2");
            assert_eq!(*balance, 200);
            assert_eq!(reauction, &vec!["sim-reauction-1".to_string()]);
            assert!(*safety_paused);
        }
        other => panic!("unexpected {:?}", other),
    }
    assert!(matches!(sim.step(&eta_to, &score, &step_toward, &inside), SimStep::AlreadyComplete { tick: 11 }));
}

#[test]
fn live_sim_skips_handoff_with_two_agents() {
    let two = vec![
        make_config("a", AgentKind::Drone, 40.71, -74.01, 90),
        make_config("b", AgentKind::Robot, 40.75, -73.99, 60),
    ];
    let mut sim = LiveSim::new(two);
    let mut last = None;
    while !sim.is_complete() {
        last = Some(sim.step(&eta_to, &score, &step_toward, &inside));
    }
    assert_eq!(sim.current_tick(), 10);
    match last.unwrap() {
        SimStep::LedgerSettled { agent, balance, .. } => {
            assert_eq!(agent, "a");
            assert_eq!(balance, 300);
        }
        other => panic!("unexpected {:?}", other),
    }
    let _ = SimPhase::Done;
}

fn run_lines(configs: Vec<AppConfig>) -> (Vec<Option<String>>, LiveSim) {
    let mut sim = LiveSim::new(configs);
    let mut lines = Vec::new();
    while !sim.is_complete() {
        lines.push(sim.step(&eta_to, &score, &step_toward, &inside).line());
    }
    (lines, sim)
}

#[test]
fn live_sim_lines_with_two_agents() {
    let (lines, sim) = run_lines(vec![
        make_config("a", AgentKind::Drone, 40.71, -74.01, 90),
        make_config("b", AgentKind::Robot, 40.75, -73.99, 60),
    ]);
    assert_eq!(lines.len(), 10);
    assert_eq!(lines[0].as_deref(), Some("[t=0] simulation started — 2 agent(s) online"));
    assert_eq!(lines[1].as_deref(), Some("[t=1] order created  id=order-0"));
    assert_eq!(lines[4], None);
    assert_eq!(lines[7].as_deref(), Some("[t=7] no handoff (fewer than 3 agents)  holder=a"));
    assert_eq!(
        lines[9].as_deref(),
        Some("[t=9] ledger settled  a balance=300  reauction=[\"sim-reauction-1\"]  safety_paused=true")
    );
    assert!(sim.is_complete());
    assert_eq!(sim.current_tick(), 10);
}

#[test]
fn live_sim_lines_with_three_agents() {
    let (lines, sim) = run_lines(three_agents());
    assert_eq!(lines.len(), 11);
    assert_eq!(lines[8].as_deref(), Some("[t=8] handoff completed  from=drone-1 to=robot-2  fee=100"));
    assert_eq!(
        lines[10].as_deref(),
        Some("[t=10] ledger settled  robot-2 balance=200  reauction=[\"sim-reauction-1\"]  safety_paused=true")
    );
    assert_eq!(sim.current_tick(), 11);
}

#[test]
fn ledger_settled_line_escapes_ids() {
    let ev = SimStep::LedgerSettled {
        tick: 3,
        agent: "x".to_string(),
        balance: 0,
        reauction: vec!["a\"b".to_string(), "c\\d".to_string()],
        safety_paused: false,
    };
    let expected = format!(
        "[t=3] ledger settled  x balance=0  reauction={:?}  safety_paused=false",
        vec!["a\"b".to_string(), "c\\d".to_string()]
    );
    assert_eq!(ev.line(), Some(expected));
    let none = SimStep::LedgerSettled { tick: 0, agent: String::new(), balance: 1, reauction: vec![], safety_paused: true };
    assert_eq!(none.line().as_deref(), Some("[t=0] ledger settled   balance=1  reauction=[]  safety_paused=true"));
}

#[test]
fn ledger_settled_line_escapes_control_characters() {
    let ids = vec!["a\u{1}b".to_string(), "\u{1b}[0m\u{7f}".to_string(), "\u{85}\u{9f}\t\0".to_string()];
    let ev = SimStep::LedgerSettled { tick: 12, agent: "y".to_string(), balance: 5, reauction: ids.clone(), safety_paused: true };
    let expected = format!("[t=12] ledger settled  y balance=5  reauction={:?}  safety_paused=true", ids);
    assert_eq!(ev.line(), Some(expected));
    assert!(ev.line().unwrap().contains(r#"["a\u{1}b", "\u{1b}[0m\u{7f}", "\u{85}\u{9f}\t\0"]"#));
}
