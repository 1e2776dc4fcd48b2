use vertex_swarm_demo::domain::safety::SafetyMonitor;
use vertex_swarm_demo::types::{GeoBits, SafetyZone};

fn zone(zone_id: &str, cx: f64, cy: f64, radius_m: f32, active: bool) -> SafetyZone {
    SafetyZone {
        zone_id: zone_id.to_owned(),
        center: GeoBits { x_bits: cx.to_bits(), y_bits: cy.to_bits() },
        radius_m: radius_m.to_bits(),
        active,
        declared_at: 0u64,
    }
}

fn inside(z: &SafetyZone, p: GeoBits) -> bool {
    let dx = f64::from_bits(z.center.x_bits) - f64::from_bits(p.x_bits);
    let dy = f64::from_bits(z.center.y_bits) - f64::from_bits(p.y_bits);
    (dx * dx + dy * dy).sqrt() <= f32::from_bits(z.radius_m) as f64
}

fn paused(monitor: &SafetyMonitor, x: f64, y: f64) -> bool {
    monitor.is_paused_by_safety(GeoBits { x_bits: x.to_bits(), y_bits: y.to_bits() }, &inside)
}

#[test]
fn agent_inside_radius_is_paused() {
    let mut monitor = SafetyMonitor::new();
    monitor.add_alert(zone("z1", 0.0, 0.0, 10.0, true));
    assert!(paused(&monitor, 3.0, 4.0));
}

#[test]
fn agent_outside_radius_is_not_paused() {
    let mut monitor = SafetyMonitor::new();
    monitor.add_alert(zone("z1", 0.0, 0.0, 10.0, true));
    assert!(!paused(&monitor, 8.0, 8.0));
}

#[test]
fn agent_exactly_on_boundary_is_paused() {
    let mut monitor = SafetyMonitor::new();
    monitor.add_alert(zone("z1", 0.0, 0.0, 5.0, true));
    assert!(paused(&monitor, 3.0, 4.0));
}

#[test]
fn clearing_alert_removes_restriction() {
    let mut monitor = SafetyMonitor::new();
    monitor.add_alert(zone("z1", 0.0, 0.0, 10.0, true));
    assert!(paused(&monitor, 3.0, 4.0));
    monitor.clear_alert("z1");
    assert!(!paused(&monitor, 3.0, 4.0));
}

#[test]
fn multiple_zones_any_match_pauses() {
    let mut monitor = SafetyMonitor::new();
    monitor.add_alert(zone("z1", 100.0, 100.0, 5.0, true));
    monitor.add_alert(zone("z2", 0.0, 0.0, 10.0, true));
    assert!(paused(&monitor, 3.0, 4.0));
    assert!(!paused(&monitor, 50.0, 50.0));
}

#[test]
fn inactive_zone_does_not_pause() {
    let mut monitor = SafetyMonitor::new();
    monitor.add_alert(zone("z1", 0.0, 0.0, 10.0, false));
    assert!(!paused(&monitor, 3.0, 4.0));
}

#[test]
fn active_zone_ids_lists_only_active_zones() {
    let mut monitor = SafetyMonitor::new();
    monitor.add_alert(zone("on", 0.0, 0.0, 1.0, true));
    monitor.add_alert(zone("off", 0.0, 0.0, 1.0, false));
    assert_eq!(monitor.active_zone_ids(), vec!["on".to_string()]);
    monitor.add_alert(zone("on", 0.0, 0.0, 1.0, false));
    assert!(monitor.active_zone_ids().is_empty());
}
