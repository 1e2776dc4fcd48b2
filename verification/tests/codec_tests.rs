use vertex_swarm_demo::codec::{nul_terminated, payload_of};

#[test]
fn framed_text_comes_back_unframed() {
    let framed = nul_terminated("{\"a\":1}");
    assert_eq!(framed.last(), Some(&0u8));
    assert_eq!(payload_of(&framed), b"{\"a\":1}".to_vec());
}

#[test]
fn payload_without_nul_is_kept() {
    assert_eq!(payload_of(b"abc"), b"abc".to_vec());
    assert_eq!(payload_of(b""), Vec::<u8>::new());
}

#[test]
fn only_one_trailing_nul_is_removed() {
    assert_eq!(payload_of(b"ab\0\0"), b"ab\0".to_vec());
    assert_eq!(payload_of(b"\0"), Vec::<u8>::new());
}

#[test]
fn decode_null_terminated_payload() {
    let json = br#"{"AgentState":{"node_id":"node-abc","kind":"Drone","status":"Idle","location":[40.7128,-74.006],"battery_pct":87,"updated_at":1700000000}}"#;
    let mut encoded = json.to_vec();
    encoded.push(0);
    assert_eq!(payload_of(&encoded), json.to_vec());
}
