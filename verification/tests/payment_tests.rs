use vertex_swarm_demo::crypto::{
    client_escrow_signature, derive_key, proof_hash, sign_message, validator_signature,
    verify_signature,
};
use vertex_swarm_demo::payments::{EscrowLedger, PaymentError};

#[test]
fn test_escrow_lock_and_release() {
    let mut ledger = EscrowLedger::new();
    ledger.set_balance("client", 1000);
    let sig = client_escrow_signature(1, 500);
    ledger.lock_escrow(1, 1, 500, "agent-a", &sig).unwrap();
    ledger.release_escrow(1, "agent-a", 500, &[]).unwrap();
    assert_eq!(ledger.balance("agent-a"), 500);
}

#[test]
fn test_double_spend_prevented_by_duplicate_escrow() {
    let mut ledger = EscrowLedger::new();
    let sig = client_escrow_signature(1, 100);
    ledger.lock_escrow(1, 1, 100, "a", &sig).unwrap();
    let result = ledger.lock_escrow(1, 1, 100, "a", &sig);
    assert!(result.is_err(), "Duplicate escrow should be rejected");
}

#[test]
fn test_invalid_client_signature_rejected() {
    let mut ledger = EscrowLedger::new();
    let bad_sig = vec![0u8; 32];
    let result = ledger.lock_escrow(1, 1, 100, "a", &bad_sig);
    assert!(result.is_err());
}

#[test]
fn test_release_already_released_escrow() {
    let mut ledger = EscrowLedger::new();
    let sig = client_escrow_signature(1, 200);
    ledger.lock_escrow(1, 1, 200, "a", &sig).unwrap();
    ledger.release_escrow(1, "a", 200, &[]).unwrap();
    let result = ledger.release_escrow(1, "a", 200, &[]);
    assert!(result.is_err());
}

#[test]
fn test_escrow_return_on_failure() {
    let mut ledger = EscrowLedger::new();
    ledger.set_balance("holder", 0);
    let sig = client_escrow_signature(5, 300);
    ledger.lock_escrow(5, 5, 300, "holder", &sig).unwrap();
    ledger.return_escrow(5).unwrap();
    assert_eq!(ledger.balance("holder"), 300);
}

#[test]
fn test_transfer_between_agents() {
    let mut ledger = EscrowLedger::new();
    ledger.set_balance("from", 200);
    ledger.set_balance("to", 50);
    ledger.transfer("from", "to", 60).unwrap();
    assert_eq!(ledger.balance("from"), 140);
    assert_eq!(ledger.balance("to"), 110);
}

#[test]
fn test_transfer_insufficient_balance_fails() {
    let mut ledger = EscrowLedger::new();
    ledger.set_balance("broke", 10);
    let result = ledger.transfer("broke", "rich", 100);
    assert!(result.is_err());
}

#[test]
fn test_sign_and_verify() {
    let key = derive_key("test-agent");
    let msg = b"hello nexusfly";
    let sig = sign_message(&key, msg);
    assert!(verify_signature(&key, msg, &sig));
}

#[test]
fn test_wrong_key_fails_verification() {
    let key1 = derive_key("agent-1");
    let key2 = derive_key("agent-2");
    let msg = b"payment";
    let sig = sign_message(&key1, msg);
    assert!(!verify_signature(&key2, msg, &sig));
}

#[test]
fn test_tampered_message_fails_verification() {
    let key = derive_key("agent");
    let sig = sign_message(&key, b"original");
    assert!(!verify_signature(&key, b"tampered", &sig));
}

#[test]
fn test_proof_hash_is_deterministic() {
    let h1 = proof_hash(42.3f64.to_bits(), (-71.1f64).to_bits(), 1000, 123);
    let h2 = proof_hash(42.3f64.to_bits(), (-71.1f64).to_bits(), 1000, 123);
    assert_eq!(h1, h2);
}

#[test]
fn test_proof_hash_differs_for_different_inputs() {
    let h1 = proof_hash(42.3f64.to_bits(), (-71.1f64).to_bits(), 1000, 123);
    let h2 = proof_hash(42.3f64.to_bits(), (-71.1f64).to_bits(), 1001, 123);
    assert_ne!(h1, h2);
}

#[test]
fn test_client_escrow_signature_is_deterministic() {
    let s1 = client_escrow_signature(1, 500);
    let s2 = client_escrow_signature(1, 500);
    assert_eq!(s1, s2);
}

#[test]
fn test_validator_signature() {
    let vkey = derive_key("validator");
    let sig = validator_signature(&vkey, 1, "robot-002", 350);
    assert_eq!(sig.len(), 32);
}

#[test]
fn test_escrow_timeout_recovery() {
    let mut ledger = EscrowLedger::new();
    ledger.set_balance("agent", 0);
    let sig = client_escrow_signature(1, 100);
    ledger.lock_escrow(1, 1, 100, "agent", &sig).unwrap();
    let recovered = ledger.recover_timed_out();
    assert!(recovered.is_empty());
}

#[test]
fn derive_key_is_sha256_of_seed() {
    // SHA-256("abc")
    let expected: Vec<u8> = vec![
        0xba, 0x78, 0x16, 0xbf, 0x8f, 0x01, 0xcf, 0xea, 0x41, 0x41, 0x40, 0xde, 0x5d, 0xae, 0x22,
        0x23, 0xb0, 0x03, 0x61, 0xa3, 0x96, 0x17, 0x7a, 0x9c, 0xb4, 0x10, 0xff, 0x61, 0xf2, 0x00,
        0x15, 0xad,
    ];
    assert_eq!(derive_key("abc"), expected);
}

#[test]
fn sign_message_hashes_key_then_message() {
    // SHA-256("abc") again, split as key "a" and message "bc".
    assert_eq!(sign_message(b"a", b"bc"), derive_key("abc"));
}

#[test]
fn recovery_returns_expired_escrows_to_holder() {
    let mut ledger = EscrowLedger::new();
    let sig = client_escrow_signature(7, 40);
    ledger.lock_escrow_at(3, 7, 40, "holder", &sig, 1_000).unwrap();
    assert!(ledger.recover_timed_out_at(6_000).is_empty());
    assert_eq!(ledger.recover_timed_out_at(6_001), vec![3]);
    assert_eq!(ledger.balance("holder"), 40);
    assert!(ledger.recover_timed_out_at(100_000).is_empty());
    assert_eq!(ledger.balance("holder"), 40);
}

#[test]
fn release_more_than_escrowed_is_refused() {
    let mut ledger = EscrowLedger::new();
    let sig = client_escrow_signature(1, 10);
    ledger.lock_escrow(1, 1, 10, "a", &sig).unwrap();
    let err = ledger.release_escrow(1, "a", 11, &[]).unwrap_err();
    assert_eq!(err, PaymentError::AmountExceedsEscrow { amount: 11, escrowed: 10 });
    assert_eq!(err.message(), "Release amount 11 > escrowed 10");
}

#[test]
fn payment_error_messages() {
    let mut ledger = EscrowLedger::new();
    assert_eq!(ledger.return_escrow(9).unwrap_err().message(), "Escrow 9 not found");
    assert_eq!(
        ledger.lock_escrow(2, 1, 5, "a", &[1, 2, 3]).unwrap_err().message(),
        "Invalid client signature for escrow 2"
    );
    assert_eq!(
        ledger.transfer("poor", "rich", 7).unwrap_err().message(),
        "Insufficient balance: poor has 0 < 7"
    );
}

#[test]
fn return_of_released_escrow_changes_nothing() {
    let mut ledger = EscrowLedger::new();
    let sig = client_escrow_signature(1, 10);
    ledger.lock_escrow(1, 1, 10, "h", &sig).unwrap();
    ledger.release_escrow(1, "x", 10, &[]).unwrap();
    ledger.return_escrow(1).unwrap();
    assert_eq!(ledger.balance("h"), 0);
    assert_eq!(ledger.balance("x"), 10);
}

#[test]
fn returns_fit_now_sees_an_overflowing_return() {
    let mut ledger = EscrowLedger::new();
    assert!(ledger.returns_fit_now());
    let sig = client_escrow_signature(1, 5);
    ledger.lock_escrow(1, 1, 5, "agent-a", &sig).unwrap();
    ledger.set_balance("agent-a", u64::MAX - 5);
    assert!(ledger.returns_fit_now());
    ledger.set_balance("agent-a", u64::MAX - 4);
    assert!(!ledger.returns_fit_now());
    ledger.release_escrow(1, "agent-b", 5, &[]).unwrap();
    assert!(ledger.returns_fit_now());
}
