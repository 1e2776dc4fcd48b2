use vertex_swarm_demo::domain::auction::{choose_winner, choose_winner_id, score_above};
use vertex_swarm_demo::types::AuctionBid;

const T: u64 = 1_700_000_000;

fn calculate_bid_score(bid: &AuctionBid, reputation: Option<f64>) -> f64 {
    let distance_score = 1.0 - (bid.eta_s as f64 / 600.0).clamp(0.0, 1.0);
    let battery_score = bid.battery_pct as f64 / 100.0;
    let rep_score = reputation.unwrap_or(0.5).clamp(0.0, 1.0);
    distance_score + battery_score + 0.5 * rep_score
}

fn score(bid: &AuctionBid) -> u64 {
    calculate_bid_score(bid, None).to_bits()
}

fn bid(bidder: &str, eta_s: u32, battery_pct: u8) -> AuctionBid {
    AuctionBid {
        order_id: "order-1".into(),
        bidder: bidder.into(),
        eta_s,
        battery_pct,
        submitted_at: T,
    }
}

#[test]
fn empty_bids_returns_none() {
    assert!(choose_winner(&[], &score).is_none());
}

#[test]
fn higher_score_wins() {
    let bids = [bid("node-a", 60, 90), bid("node-b", 300, 30)];
    assert_eq!(choose_winner(&bids, &score).unwrap().bidder, "node-a");
}

#[test]
fn tie_break_lexicographically_smaller_wins() {
    let bids = [bid("node-b", 60, 80), bid("node-a", 60, 80)];
    assert_eq!(choose_winner(&bids, &score).unwrap().bidder, "node-a");
}

#[test]
fn single_bid_always_wins() {
    let bids = [bid("only-node", 120, 50)];
    assert_eq!(choose_winner(&bids, &score).unwrap().bidder, "only-node");
}

#[test]
fn winner_does_not_depend_on_bid_order() {
    let a = [bid("node-c", 100, 70), bid("node-a", 60, 80), bid("node-b", 60, 80)];
    let b = [bid("node-b", 60, 80), bid("node-c", 100, 70), bid("node-a", 60, 80)];
    assert_eq!(choose_winner_id(&a, &score), Some("node-a".to_string()));
    assert_eq!(choose_winner_id(&b, &score), Some("node-a".to_string()));
}

#[test]
fn tie_break_uses_byte_order() {
    let bids = [bid("b", 10, 10), bid("B", 10, 10), bid("ab", 10, 10)];
    assert_eq!(choose_winner_id(&bids, &score), Some("B".to_string()));
}

#[test]
fn choose_winner_id_none_when_empty() {
    assert_eq!(choose_winner_id(&[], &score), None);
}

#[test]
fn near_tie_follows_floating_point_order() {
    // 1.45 and 1.4500000000000002 as f64: the second is higher.
    let bids = [bid("node-a", 0, 20), bid("node-b", 120, 40)];
    assert!(calculate_bid_score(&bids[1], None) > calculate_bid_score(&bids[0], None));
    assert_eq!(choose_winner_id(&bids, &score), Some("node-b".to_string()));
}

#[test]
fn scores_are_ordered_as_total_cmp_orders_them() {
    let vals = [f64::NEG_INFINITY, -2.5, -0.0, 0.0, 1e-300, 1.0, f64::INFINITY, f64::NAN];
    for x in vals {
        for y in vals {
            let expected = x.total_cmp(&y) == std::cmp::Ordering::Greater;
            assert_eq!(score_above(x.to_bits(), y.to_bits()), expected, "{x} {y}");
        }
    }
}
