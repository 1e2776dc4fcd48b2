//! Deterministic winner selection.
//!
//! A bid's score is a floating-point number that the caller computes (from
//! the bid's ETA and battery) and hands over as the bit pattern of an
//! `f64`.  Scores are ordered the way `f64::total_cmp` orders them, which
//! is an order on the bit patterns alone: that order is computed here.

use vstd::prelude::*;

use crate::text::{str_less, text_lt};
use crate::types::{AuctionBid, NodeId};

verus! {

/// The sign bit of an `f64`'s bit pattern.
pub const SIGN_BIT: u64 = 0x8000_0000_0000_0000;

/// The position of the `f64` with bits `b` in the total order of
/// `f64::total_cmp`: non-negative values (sign bit clear) in the order of
/// their bits, above all negative ones, which come in reverse order of
/// their bits.
pub open spec fn total_key(b: u64) -> int {
    if b < SIGN_BIT {
        b as int
    } else {
        0x7fff_ffff_ffff_ffff - b as int
    }
}

/// Whether the `f64` with bits `a` comes after the one with bits `b` in
/// the order of `f64::total_cmp`.
pub fn score_above(a: u64, b: u64) -> (r: bool)
    ensures
        r == (total_key(a) > total_key(b)),
{
    let a_pos = a < SIGN_BIT;
    let b_pos = b < SIGN_BIT;
    if a_pos && b_pos {
        a > b
    } else if a_pos {
        true
    } else if b_pos {
        false
    } else {
        a < b
    }
}

/// `s` holds, position by position, the scores `score` gave the bids.
pub open spec fn scored<S: Fn(&AuctionBid) -> u64>(bids: Seq<AuctionBid>, score: S, s: Seq<u64>) -> bool {
    &&& s.len() == bids.len()
    &&& forall|i: int| 0 <= i < bids.len() ==> score.ensures((&bids[i],), #[trigger] s[i])
}

/// A bid scoring `sa` ranks above one scoring `sb`: a higher score in the
/// order of `f64::total_cmp`, or an equal score and a bidder id that
/// orders first.
pub open spec fn beats(a: AuctionBid, sa: u64, b: AuctionBid, sb: u64) -> bool {
    total_key(sa) > total_key(sb) || (sa == sb && text_lt(a.bidder@, b.bidder@))
}

/// `w` is the position that selection picks in `bids`, scored `s`: no bid
/// ranks above it, and it ranks above every later bid (of bids that rank
/// equal, the last one is picked).
pub open spec fn is_winner_at(bids: Seq<AuctionBid>, s: Seq<u64>, w: int) -> bool {
    &&& 0 <= w < bids.len()
    &&& s.len() == bids.len()
    &&& forall|j: int| 0 <= j < bids.len() ==> !beats(#[trigger] bids[j], s[j], bids[w], s[w])
    &&& forall|j: int| w < j < bids.len() ==> beats(bids[w], s[w], #[trigger] bids[j], s[j])
}

/// Ranking is a strict weak order: "does not rank above" is transitive.
pub proof fn lemma_not_beats_transitive(a: AuctionBid, sa: u64, b: AuctionBid, sb: u64, c: AuctionBid, sc: u64)
    requires
        !beats(a, sa, b, sb),
        !beats(b, sb, c, sc),
    ensures
        !beats(a, sa, c, sc),
{
    crate::text::lemma_text_lt_order(a.bidder@, b.bidder@, c.bidder@);
    crate::text::lemma_text_lt_order(b.bidder@, c.bidder@, a.bidder@);
    crate::text::lemma_text_lt_order(c.bidder@, b.bidder@, a.bidder@);
    crate::text::lemma_text_lt_order(a.bidder@, c.bidder@, b.bidder@);
}

/// Ranking is asymmetric.
pub proof fn lemma_beats_asymmetric(a: AuctionBid, sa: u64, b: AuctionBid, sb: u64)
    ensures
        beats(a, sa, b, sb) ==> !beats(b, sb, a, sa),
{
    crate::text::lemma_text_lt_order(a.bidder@, b.bidder@, a.bidder@);
}

/// Position of the winning bid under the scores `s`, if there is any bid.
fn winner_index(bids: &[AuctionBid], s: &Vec<u64>) -> (r: Option<usize>)
    requires
        s@.len() == bids@.len(),
    ensures
        match r {
            Some(w) => is_winner_at(bids@, s@, w as int),
            None => bids@.len() == 0,
        },
{
    let n = bids.len();
    if n == 0 {
        return None;
    }
    let mut best: usize = 0;
    let mut j: usize = 1;
    proof {
        crate::text::lemma_text_lt_order(bids@[0].bidder@, bids@[0].bidder@, bids@[0].bidder@);
    }
    while j < n
        invariant
            n == bids@.len(),
            s@.len() == n,
            1 <= j <= n,
            best < j,
            forall|k: int| 0 <= k < j ==> !beats(#[trigger] bids@[k], s@[k], bids@[best as int], s@[best as int]),
            forall|k: int| best < k < j ==> beats(bids@[best as int], s@[best as int], #[trigger] bids@[k], s@[k]),
        decreases n - j,
    {
        let keep = score_above(s[best], s[j]) || (s[best] == s[j] && str_less(
            bids[best].bidder.as_str(),
            bids[j].bidder.as_str(),
        ));
        if !keep {
            proof {
                let x = bids@[j as int];
                let b = bids@[best as int];
                assert(!beats(b, s@[best as int], x, s@[j as int]));
                assert forall|k: int| 0 <= k < j + 1 implies !beats(#[trigger] bids@[k], s@[k], x, s@[j as int]) by {
                    if k < j {
                        lemma_not_beats_transitive(bids@[k], s@[k], b, s@[best as int], x, s@[j as int]);
                    } else {
                        crate::text::lemma_text_lt_order(x.bidder@, x.bidder@, x.bidder@);
                    }
                }
            }
            best = j;
        } else {
            proof {
                lemma_beats_asymmetric(bids@[best as int], s@[best as int], bids@[j as int], s@[j as int]);
            }
        }
        j = j + 1;
    }
    Some(best)
}

/// The score `score` gives each bid, in order.
fn scores_of<S: Fn(&AuctionBid) -> u64>(bids: &[AuctionBid], score: &S) -> (s: Vec<u64>)
    requires
        forall|b: &AuctionBid| #[trigger] score.requires((b,)),
    ensures
        scored(bids@, *score, s@),
{
    let n = bids.len();
    let mut s: Vec<u64> = Vec::new();
    let mut i: usize = 0;
    while i < n
        invariant
            n == bids@.len(),
            i <= n,
            s@.len() == i,
            forall|b: &AuctionBid| #[trigger] score.requires((b,)),
            forall|k: int| 0 <= k < i ==> score.ensures((&bids@[k],), #[trigger] s@[k]),
        decreases n - i,
    {
        let v = score(&bids[i]);
        s.push(v);
        i = i + 1;
    }
    s
}

/// Select the winning bid: the highest score (`score` gives each bid's
/// `f64` score as bits, ordered as `f64::total_cmp` orders them) wins, a
/// tie goes to the lexicographically smaller bidder id, and of fully equal
/// bids the last one.  `None` when there are no bids.
pub fn choose_winner<S: Fn(&AuctionBid) -> u64>(bids: &[AuctionBid], score: &S) -> (r: Option<AuctionBid>)
    requires
        forall|b: &AuctionBid| #[trigger] score.requires((b,)),
    ensures
        match r {
            Some(b) => exists|s: Seq<u64>, w: int|
                scored(bids@, *score, s) && is_winner_at(bids@, s, w) && b == bids@[w],
            None => bids@.len() == 0,
        },
{
    let s = scores_of(bids, score);
    match winner_index(bids, &s) {
        Some(w) => Some(bids[w].duplicate()),
        None => None,
    }
}

/// The winning bidder's id, if there is any bid; see [`choose_winner`].
pub fn choose_winner_id<S: Fn(&AuctionBid) -> u64>(bids: &[AuctionBid], score: &S) -> (r: Option<NodeId>)
    requires
        forall|b: &AuctionBid| #[trigger] score.requires((b,)),
    ensures
        match r {
            Some(id) => exists|s: Seq<u64>, w: int|
                scored(bids@, *score, s) && is_winner_at(bids@, s, w) && id == bids@[w].bidder,
            None => bids@.len() == 0,
        },
{
    match choose_winner(bids, score) {
        Some(b) => Some(b.bidder),
        None => None,
    }
}

/// Selection depends on the bids alone and not on where the winner stands:
/// any two positions that both satisfy the winning condition hold the same
/// position, so the winner is unique.
pub proof fn lemma_winner_unique(bids: Seq<AuctionBid>, s: Seq<u64>, w1: int, w2: int)
    requires
        is_winner_at(bids, s, w1),
        is_winner_at(bids, s, w2),
    ensures
        w1 == w2,
{
    if w1 < w2 {
        assert(beats(bids[w1], s[w1], bids[w2], s[w2]));
        assert(!beats(bids[w1], s[w1], bids[w2], s[w2]));
    } else if w2 < w1 {
        assert(beats(bids[w2], s[w2], bids[w1], s[w1]));
        assert(!beats(bids[w2], s[w2], bids[w1], s[w1]));
    }
}

/// Selection is order-independent: two lists that hold the same bids, in
/// any order and with any repeats, each bid scored by the same function
/// `f`, pick a winner with the same bidder id and the same score.
pub proof fn lemma_winner_order_independent(
    bids1: Seq<AuctionBid>,
    s1: Seq<u64>,
    bids2: Seq<AuctionBid>,
    s2: Seq<u64>,
    f: spec_fn(AuctionBid) -> u64,
    w1: int,
    w2: int,
)
    requires
        forall|b: AuctionBid| bids1.contains(b) <==> bids2.contains(b),
        forall|i: int| 0 <= i < bids1.len() ==> #[trigger] s1[i] == f(bids1[i]),
        forall|i: int| 0 <= i < bids2.len() ==> #[trigger] s2[i] == f(bids2[i]),
        is_winner_at(bids1, s1, w1),
        is_winner_at(bids2, s2, w2),
    ensures
        bids1[w1].bidder@ == bids2[w2].bidder@,
        s1[w1] == s2[w2],
{
    let a = bids1[w1];
    let b = bids2[w2];
    assert(s1[w1] == f(a));
    assert(s2[w2] == f(b));
    assert(bids1.contains(a));
    assert(bids2.contains(b));
    let i = choose|i: int| 0 <= i < bids1.len() && bids1[i] == b;
    let j = choose|j: int| 0 <= j < bids2.len() && bids2[j] == a;
    assert(s1[i] == f(b));
    assert(s2[j] == f(a));
    assert(!beats(bids1[i], s1[i], a, s1[w1]));
    assert(!beats(bids2[j], s2[j], b, s2[w2]));
    crate::text::lemma_text_lt_order(a.bidder@, b.bidder@, a.bidder@);
}

} // verus!
