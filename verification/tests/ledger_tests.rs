use vertex_swarm_demo::domain::ledger::{Ledger, LedgerError};

fn funded_ledger() -> Ledger {
    let mut l = Ledger::new();
    l.credit("customer", 1000);
    l
}

fn balance(l: &Ledger, agent: &str) -> u64 {
    *l.balances.get(agent).unwrap()
}

#[test]
fn reserve_deducts_balance_and_creates_escrow() {
    let mut l = funded_ledger();
    l.reserve_escrow("ord-1", "customer", 200).unwrap();
    assert_eq!(balance(&l, "customer"), 800);
    assert_eq!(l.escrow_balance("ord-1"), 200);
}

#[test]
fn reserve_fails_on_insufficient_funds() {
    let mut l = funded_ledger();
    assert!(l.reserve_escrow("ord-1", "customer", 9999).is_err());
}

#[test]
fn reserve_fails_on_duplicate_escrow() {
    let mut l = funded_ledger();
    l.reserve_escrow("ord-1", "customer", 100).unwrap();
    assert!(l.reserve_escrow("ord-1", "customer", 100).is_err());
}

#[test]
fn handoff_transfer_pays_outgoing_agent() {
    let mut l = funded_ledger();
    l.reserve_escrow("ord-1", "customer", 300).unwrap();
    l.transfer_for_handoff("ord-1", "agent-a", "agent-b", 100).unwrap();
    assert_eq!(l.balances.get("agent-a").copied().unwrap_or(0), 100);
    assert_eq!(l.escrow_balance("ord-1"), 200);
}

#[test]
fn handoff_transfer_fails_if_fee_exceeds_escrow() {
    let mut l = funded_ledger();
    l.reserve_escrow("ord-1", "customer", 50).unwrap();
    assert!(l.transfer_for_handoff("ord-1", "agent-a", "agent-b", 100).is_err());
}

#[test]
fn final_release_pays_delivering_agent() {
    let mut l = funded_ledger();
    l.reserve_escrow("ord-1", "customer", 300).unwrap();
    l.release_final_payment("ord-1", "agent-a").unwrap();
    assert_eq!(balance(&l, "agent-a"), 300);
    assert_eq!(l.escrow_balance("ord-1"), 0);
}

#[test]
fn double_release_is_rejected() {
    let mut l = funded_ledger();
    l.reserve_escrow("ord-1", "customer", 100).unwrap();
    l.release_final_payment("ord-1", "agent-a").unwrap();
    assert!(l.release_final_payment("ord-1", "agent-a").is_err());
}

#[test]
fn refund_returns_escrow_to_originator() {
    let mut l = funded_ledger();
    l.reserve_escrow("ord-1", "customer", 400).unwrap();
    assert_eq!(balance(&l, "customer"), 600);
    l.refund_previous_agent("ord-1").unwrap();
    assert_eq!(balance(&l, "customer"), 1000);
    assert_eq!(l.escrow_balance("ord-1"), 0);
}

#[test]
fn refund_after_release_is_rejected() {
    let mut l = funded_ledger();
    l.reserve_escrow("ord-1", "customer", 100).unwrap();
    l.release_final_payment("ord-1", "agent-a").unwrap();
    assert!(l.refund_previous_agent("ord-1").is_err());
}

#[test]
fn funds_are_conserved_through_a_settlement() {
    let mut l = funded_ledger();
    l.reserve_escrow("ord-1", "customer", 300).unwrap();
    l.transfer_for_handoff("ord-1", "agent-a", "agent-b", 100).unwrap();
    l.release_final_payment("ord-1", "agent-b").unwrap();
    let total = balance(&l, "customer") + balance(&l, "agent-a") + balance(&l, "agent-b")
        + l.escrow_balance("ord-1");
    assert_eq!(total, 1000);
    assert_eq!(balance(&l, "agent-b"), 200);
}

#[test]
fn insufficient_funds_registers_originator_with_zero() {
    let mut l = Ledger::new();
    let err = l.reserve_escrow("ord-1", "nobody", 5).unwrap_err();
    assert_eq!(
        err,
        LedgerError::InsufficientFunds { order_id: "ord-1".into(), have: 0, need: 5 }
    );
    assert_eq!(err.message(), "Order 'ord-1': insufficient funds (have 0, need 5)");
    assert_eq!(l.balances.get("nobody").copied(), Some(0));
}

#[test]
fn ledger_error_messages() {
    let mut l = funded_ledger();
    assert_eq!(
        l.release_final_payment("none", "a").unwrap_err().message(),
        "Order 'none': no escrow found"
    );
    l.reserve_escrow("ord-1", "customer", 50).unwrap();
    assert_eq!(
        l.transfer_for_handoff("ord-1", "a", "b", 60).unwrap_err().message(),
        "Order 'ord-1': handoff fee 60 exceeds escrow 50"
    );
    l.refund_previous_agent("ord-1").unwrap();
    assert_eq!(
        l.transfer_for_handoff("ord-1", "a", "b", 1).unwrap_err().message(),
        "Order 'ord-1': cannot transfer from state Refunded"
    );
    assert_eq!(
        l.refund_previous_agent("ord-1").unwrap_err().message(),
        "Order 'ord-1': already refunded"
    );
}

#[test]
fn escrow_balance_of_unknown_order_is_zero() {
    let l = funded_ledger();
    assert_eq!(l.escrow_balance("missing"), 0);
}
