//! In-flight handoffs of a swarm node and the share of the escrow they
//! pay.

use vstd::prelude::*;

use std::collections::HashMap;
use vstd::std_specs::iter::IteratorSpec;

use crate::types::{AgentId, HandoffId, OrderId, Point};

verus! {

broadcast use vstd::std_specs::hash::group_hash_axioms;

/// Fraction 0.30 of the escrow paid on a handoff, as `f64` bits.
pub const HANDOFF_PAYMENT_PCT_BITS: u64 = 0x3fd3333333333333;

/// Progress of one handoff.
#[derive(Debug, Clone, Copy, PartialEq, Eq, Structural)]
pub enum HandoffPhase {
    Requested,
    PaymentSent,
    Complete,
    Failed,
}

/// One handoff; `payment_pct` is the fraction of the escrow it pays, as
/// `f64` bits.
#[derive(Debug)]
pub struct HandoffState {
    pub handoff_id: HandoffId,
    pub order_id: OrderId,
    pub from_agent: AgentId,
    pub to_agent: AgentId,
    pub point: Point,
    pub phase: HandoffPhase,
    pub payment_pct: u64,
}

/// A handoff is still in progress.
pub open spec fn in_progress(p: HandoffPhase) -> bool {
    p != HandoffPhase::Complete && p != HandoffPhase::Failed
}

/// Manages in-flight handoffs.
pub struct HandoffManager {
    pub handoffs: HashMap<HandoffId, HandoffState>,
    next_id: HandoffId,
}

impl HandoffManager {
    /// The handoffs by id.
    pub closed spec fn handoff_map(&self) -> Map<HandoffId, HandoffState> {
        self.handoffs@
    }

    /// The id the next handoff gets.
    pub closed spec fn next_handoff_id(&self) -> HandoffId {
        self.next_id
    }

    /// A manager with no handoff; ids start at 0.
    pub fn new() -> (m: Self)
        ensures
            m.handoff_map() == Map::<HandoffId, HandoffState>::empty(),
            m.next_handoff_id() == 0,
    {
        HandoffManager { handoffs: HashMap::new(), next_id: 0 }
    }

    /// Record a new handoff request, paying the standard share, and
    /// return its id.
    pub fn initiate(&mut self, order_id: OrderId, from_agent: AgentId, to_agent: AgentId, point: Point) -> (id:
        HandoffId)
        requires
            old(self).next_handoff_id() < u64::MAX,
        ensures
            id == old(self).next_handoff_id(),
            final(self).next_handoff_id() == id + 1,
            final(self).handoff_map() == old(self).handoff_map().insert(
                id,
                HandoffState {
                    handoff_id: id,
                    order_id,
                    from_agent,
                    to_agent,
                    point,
                    phase: HandoffPhase::Requested,
                    payment_pct: HANDOFF_PAYMENT_PCT_BITS,
                },
            ),
    {
        let id = self.next_id;
        self.next_id = self.next_id + 1;
        self.handoffs.insert(
            id,
            HandoffState {
                handoff_id: id,
                order_id,
                from_agent,
                to_agent,
                point,
                phase: HandoffPhase::Requested,
                payment_pct: HANDOFF_PAYMENT_PCT_BITS,
            },
        );
        id
    }

    /// Set the phase of handoff `handoff_id`, if it is known.
    fn set_phase(&mut self, handoff_id: HandoffId, phase: HandoffPhase)
        ensures
            final(self).next_handoff_id() == old(self).next_handoff_id(),
            final(self).handoff_map() == (if old(self).handoff_map().contains_key(handoff_id) {
                old(self).handoff_map().insert(
                    handoff_id,
                    HandoffState { phase, ..old(self).handoff_map()[handoff_id] },
                )
            } else {
                old(self).handoff_map()
            }),
    {
        match self.handoffs.remove(&handoff_id) {
            Some(h) => {
                self.handoffs.insert(handoff_id, HandoffState { phase, ..h });
                proof {
                    assert(self.handoff_map() =~= old(self).handoff_map().insert(
                        handoff_id,
                        HandoffState { phase, ..old(self).handoff_map()[handoff_id] },
                    ));
                }
            },
            None => {},
        }
    }

    /// Mark payment sent.
    pub fn mark_payment_sent(&mut self, handoff_id: HandoffId)
        ensures
            final(self).next_handoff_id() == old(self).next_handoff_id(),
            final(self).handoff_map() == (if old(self).handoff_map().contains_key(handoff_id) {
                old(self).handoff_map().insert(
                    handoff_id,
                    HandoffState { phase: HandoffPhase::PaymentSent, ..old(self).handoff_map()[handoff_id] },
                )
            } else {
                old(self).handoff_map()
            }),
    {
        self.set_phase(handoff_id, HandoffPhase::PaymentSent);
    }

    /// Mark handoff complete.
    pub fn mark_complete(&mut self, handoff_id: HandoffId)
        ensures
            final(self).next_handoff_id() == old(self).next_handoff_id(),
            final(self).handoff_map() == (if old(self).handoff_map().contains_key(handoff_id) {
                old(self).handoff_map().insert(
                    handoff_id,
                    HandoffState { phase: HandoffPhase::Complete, ..old(self).handoff_map()[handoff_id] },
                )
            } else {
                old(self).handoff_map()
            }),
    {
        self.set_phase(handoff_id, HandoffPhase::Complete);
    }

    /// Mark handoff failed (voids payment).
    pub fn mark_failed(&mut self, handoff_id: HandoffId)
        ensures
            final(self).next_handoff_id() == old(self).next_handoff_id(),
            final(self).handoff_map() == (if old(self).handoff_map().contains_key(handoff_id) {
                old(self).handoff_map().insert(
                    handoff_id,
                    HandoffState { phase: HandoffPhase::Failed, ..old(self).handoff_map()[handoff_id] },
                )
            } else {
                old(self).handoff_map()
            }),
    {
        self.set_phase(handoff_id, HandoffPhase::Failed);
    }

    /// The handoffs in progress that involve `agent_id` at either end,
    /// each once, in no particular order.
    pub fn handoffs_for_agent(&self, agent_id: &str) -> (r: Vec<HandoffId>)
        ensures
            r@.no_duplicates(),
            forall|id: HandoffId|
                r@.contains(id) <==> self.handoff_map().contains_key(id) && (self.handoff_map()[id].from_agent@
                    == agent_id@ || self.handoff_map()[id].to_agent@ == agent_id@) && in_progress(
                    self.handoff_map()[id].phase,
                ),
    {
        let ghost m = self.handoffs@;
        let ghost all = vstd::std_specs::hash::spec_hash_map_iter(&self.handoffs).remaining();
        let mut out: Vec<HandoffId> = Vec::new();
        for entry in it: self.handoffs.iter()
            invariant
                all == it.seq(),
                it.seq().no_duplicates(),
                forall|k: int|
                    #![trigger it.seq()[k]]
                    0 <= k < it.seq().len() ==> m.contains_key(*it.seq()[k].0) && m[*it.seq()[k].0]
                        == *it.seq()[k].1,
                forall|o: HandoffId| #[trigger] m.contains_key(o) ==> it.seq().contains((&o, &m[o])),
                out@.no_duplicates(),
                forall|x: HandoffId|
                    out@.contains(x) <==> exists|k: int|
                        #![trigger it.seq()[k]]
                        0 <= k < it.index() && *it.seq()[k].0 == x && wanted(*it.seq()[k].1, agent_id@),
        {
            let (id, h) = entry;
            let ghost i = it.index();
            assert(it.seq()[i] == entry);
            let ghost before = out@;
            let hit = (crate::text::str_eq(h.from_agent.as_str(), agent_id) || crate::text::str_eq(
                h.to_agent.as_str(),
                agent_id,
            )) && h.phase != HandoffPhase::Complete && h.phase != HandoffPhase::Failed;
            if hit {
                proof {
                    if before.contains(*id) {
                        let k = choose|k: int|
                            #![trigger it.seq()[k]]
                            0 <= k < i && *it.seq()[k].0 == *id && wanted(*it.seq()[k].1, agent_id@);
                        assert(m[*it.seq()[k].0] == *it.seq()[k].1);
                        assert(it.seq()[k] == it.seq()[i]);
                    }
                }
                out.push(*id);
            }
            proof {
                assert forall|x: HandoffId|
                    out@.contains(x) <==> exists|k: int|
                        #![trigger it.seq()[k]]
                        0 <= k < i + 1 && *it.seq()[k].0 == x && wanted(*it.seq()[k].1, agent_id@) by {
                    if before.contains(x) {
                        let k = choose|k: int|
                            #![trigger it.seq()[k]]
                            0 <= k < i && *it.seq()[k].0 == x && wanted(*it.seq()[k].1, agent_id@);
                        assert(0 <= k < i + 1 && *it.seq()[k].0 == x && wanted(*it.seq()[k].1, agent_id@));
                        if hit {
                            assert(out@[before.index_of(x)] == x);
                        }
                    } else if hit && x == *id {
                        assert(*it.seq()[i].0 == x && wanted(*it.seq()[i].1, agent_id@));
                        assert(out@.last() == x);
                    } else {
                        if hit {
                            assert forall|j: int| 0 <= j < out@.len() implies out@[j] != x by {
                                if j < before.len() {
                                    assert(before[j] == out@[j]);
                                }
                            }
                        }
                        assert(!out@.contains(x));
                        if exists|k: int|
                            #![trigger it.seq()[k]]
                            0 <= k < i + 1 && *it.seq()[k].0 == x && wanted(*it.seq()[k].1, agent_id@) {
                            let k = choose|k: int|
                                #![trigger it.seq()[k]]
                                0 <= k < i + 1 && *it.seq()[k].0 == x && wanted(*it.seq()[k].1, agent_id@);
                            assert(k == i);
                        }
                    }
                }
            }
        }
        proof {
            assert forall|x: HandoffId|
                out@.contains(x) <==> m.contains_key(x) && wanted(m[x], agent_id@) by {
                if m.contains_key(x) && wanted(m[x], agent_id@) {
                    assert(all.contains((&x, &m[x])));
                    let k = choose|k: int| 0 <= k < all.len() && all[k] == (&x, &m[x]);
                    assert(*all[k].0 == x);
                }
                if out@.contains(x) {
                    let k = choose|k: int|
                        #![trigger all[k]]
                        0 <= k < all.len() && *all[k].0 == x && wanted(*all[k].1, agent_id@);
                    assert(m[*all[k].0] == *all[k].1);
                }
            }
        }
        out
    }

    /// The amount handoff `handoff_id` pays out of an escrow of
    /// `total_escrow`: `share` applies the handoff's fraction (as `f64`
    /// bits) to the total; 0 for an unknown handoff.
    pub fn handoff_payment_amount<F: Fn(u64, u64) -> u64>(&self, handoff_id: HandoffId, total_escrow: u64, share: &F) -> (r:
        u64)
        requires
            forall|a: u64, p: u64| #[trigger] share.requires((a, p)),
        ensures
            self.handoff_map().contains_key(handoff_id) ==> share.ensures(
                (total_escrow, self.handoff_map()[handoff_id].payment_pct),
                r,
            ),
            !self.handoff_map().contains_key(handoff_id) ==> r == 0,
    {
        match self.handoffs.get(&handoff_id) {
            Some(h) => share(total_escrow, h.payment_pct),
            None => 0,
        }
    }
}

/// `h` is in progress and involves `agent` at either end.
pub open spec fn wanted(h: HandoffState, agent: Seq<char>) -> bool {
    (h.from_agent@ == agent || h.to_agent@ == agent) && in_progress(h.phase)
}

} // verus!
