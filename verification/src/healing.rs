//! Failure bookkeeping of one swarm node: which agents are known to have
//! failed, which orders await a new auction, and which escrows each agent
//! holds so that they can be returned when the agent fails.

use vstd::prelude::*;

use std::collections::HashMap;
use vstd::std_specs::iter::IteratorSpec;

use crate::table::NameTable;
use crate::types::{AgentId, EscrowId, OrderId};

verus! {

broadcast use vstd::std_specs::hash::group_hash_axioms;

/// The orders that `holders` assigns to agent `agent`.
pub open spec fn orders_of(holders: Map<OrderId, AgentId>, agent: Seq<char>) -> Set<OrderId> {
    Set::new(|o: OrderId| holders.contains_key(o) && holders[o]@ == agent)
}

/// Tracks known-failed agents and orders that need re-auctioning.
pub struct FailureDetector {
    failed_agents: NameTable<()>,
    pending_re_auction: Vec<OrderId>,
    agent_escrows: NameTable<Vec<EscrowId>>,
}

impl FailureDetector {
    /// The agents known to have failed.
    pub closed spec fn failed(&self) -> Set<Seq<char>> {
        self.failed_agents@.dom()
    }

    /// Orders awaiting a new auction, in the order they were flagged.
    pub closed spec fn pending(&self) -> Seq<OrderId> {
        self.pending_re_auction@
    }

    /// The escrows each agent holds, in the order they were registered.
    pub closed spec fn escrows_held(&self) -> Map<Seq<char>, Seq<EscrowId>> {
        Map::new(
            |a: Seq<char>| self.agent_escrows@.contains_key(a),
            |a: Seq<char>| self.agent_escrows@[a]@,
        )
    }

    /// A detector that knows of no failure, pending order or escrow.
    pub fn new() -> (d: Self)
        ensures
            d.failed() == Set::<Seq<char>>::empty(),
            d.pending() == Seq::<OrderId>::empty(),
            d.escrows_held() == Map::<Seq<char>, Seq<EscrowId>>::empty(),
    {
        let d = FailureDetector {
            failed_agents: NameTable::new(),
            pending_re_auction: Vec::new(),
            agent_escrows: NameTable::new(),
        };
        proof {
            assert(d.failed() =~= Set::<Seq<char>>::empty());
            assert(d.escrows_held() =~= Map::<Seq<char>, Seq<EscrowId>>::empty());
        }
        d
    }

    /// Register an escrow held by an agent.
    pub fn track_escrow(&mut self, agent_id: &str, escrow_id: EscrowId)
        ensures
            final(self).failed() == old(self).failed(),
            final(self).pending() == old(self).pending(),
            final(self).escrows_held() == old(self).escrows_held().insert(
                agent_id@,
                (if old(self).escrows_held().contains_key(agent_id@) {
                    old(self).escrows_held()[agent_id@]
                } else {
                    Seq::empty()
                }).push(escrow_id),
            ),
    {
        let mut list = match self.agent_escrows.remove(agent_id) {
            Some(l) => l,
            None => Vec::new(),
        };
        list.push(escrow_id);
        self.agent_escrows.insert(agent_id.to_owned(), list);
        proof {
            assert(self.escrows_held() =~= old(self).escrows_held().insert(
                agent_id@,
                (if old(self).escrows_held().contains_key(agent_id@) {
                    old(self).escrows_held()[agent_id@]
                } else {
                    Seq::empty()
                }).push(escrow_id),
            ));
        }
    }

    /// Whether `agent_id` is known to have failed.
    pub fn is_failed(&self, agent_id: &str) -> (r: bool)
        ensures
            r == self.failed().contains(agent_id@),
    {
        self.failed_agents.contains_key(agent_id)
    }

    /// Remove an agent from the failed set when it recovers.
    pub fn handle_recovery(&mut self, agent_id: &str)
        ensures
            final(self).failed() == old(self).failed().remove(agent_id@),
            final(self).pending() == old(self).pending(),
            final(self).escrows_held() == old(self).escrows_held(),
    {
        self.failed_agents.remove(agent_id);
        proof {
            assert(self.failed() =~= old(self).failed().remove(agent_id@));
        }
    }

    /// Hand out the orders awaiting a new auction, leaving none pending.
    pub fn drain_pending_re_auction(&mut self) -> (r: Vec<OrderId>)
        ensures
            r@ == old(self).pending(),
            final(self).pending() == Seq::<OrderId>::empty(),
            final(self).failed() == old(self).failed(),
            final(self).escrows_held() == old(self).escrows_held(),
    {
        let mut out: Vec<OrderId> = Vec::new();
        std::mem::swap(&mut out, &mut self.pending_re_auction);
        out
    }

    /// Process an agent failure: mark the agent failed, flag every order
    /// `orders_by_agent` assigns to it for a new auction, and hand back
    /// those orders (each once, in no particular order) together with the
    /// escrows the agent held, which are forgotten here.
    pub fn handle_failure(&mut self, agent_id: &str, orders_by_agent: &HashMap<OrderId, AgentId>) -> (r: (
        Vec<OrderId>,
        Vec<EscrowId>,
    ))
        ensures
            final(self).failed() == old(self).failed().insert(agent_id@),
            r.0@.no_duplicates(),
            r.0@.to_set() == orders_of(orders_by_agent@, agent_id@),
            final(self).pending() == old(self).pending() + r.0@,
            r.1@ == (if old(self).escrows_held().contains_key(agent_id@) {
                old(self).escrows_held()[agent_id@]
            } else {
                Seq::empty()
            }),
            final(self).escrows_held() == old(self).escrows_held().remove(agent_id@),
    {
        self.failed_agents.insert(agent_id.to_owned(), ());
        proof {
            assert(self.failed() =~= old(self).failed().insert(agent_id@));
        }
        let ghost m = orders_by_agent@;
        let ghost all = vstd::std_specs::hash::spec_hash_map_iter(orders_by_agent).remaining();
        let ghost mut count: int = 0;
        let mut affected: Vec<OrderId> = Vec::new();
        for entry in it: orders_by_agent.iter()
            invariant
                all == it.seq(),
                count == it.index(),
                it.seq().no_duplicates(),
                forall|k: int|
                    #![trigger it.seq()[k]]
                    0 <= k < it.seq().len() ==> m.contains_key(*it.seq()[k].0) && m[*it.seq()[k].0]
                        == *it.seq()[k].1,
                forall|o: OrderId| #[trigger]
                    m.contains_key(o) ==> it.seq().contains((&o, &m[o])),
                affected@.no_duplicates(),
                forall|o: OrderId|
                    affected@.contains(o) <==> exists|k: int|
                        #![trigger it.seq()[k]]
                        0 <= k < it.index() && *it.seq()[k].0 == o && it.seq()[k].1@ == agent_id@,
        {
            let (o, a) = entry;
            let ghost i = it.index();
            assert(0 <= i < it.seq().len());
            assert(it.seq()[i] == entry);
            let ghost before = affected@;
            let hit = crate::text::str_eq(a.as_str(), agent_id);
            if hit {
                proof {
                    if before.contains(*o) {
                        let k = choose|k: int|
                            #![trigger it.seq()[k]]
                            0 <= k < i && *it.seq()[k].0 == *o && it.seq()[k].1@ == agent_id@;
                        assert(it.seq()[k] == it.seq()[i]);
                    }
                }
                affected.push(*o);
            }
            proof {
                assert forall|x: OrderId|
                    affected@.contains(x) <==> exists|k: int|
                        #![trigger it.seq()[k]]
                        0 <= k < i + 1 && *it.seq()[k].0 == x && it.seq()[k].1@ == agent_id@ by {
                    if before.contains(x) {
                        let k = choose|k: int|
                            #![trigger it.seq()[k]]
                            0 <= k < i && *it.seq()[k].0 == x && it.seq()[k].1@ == agent_id@;
                        assert(0 <= k < i + 1 && *it.seq()[k].0 == x && it.seq()[k].1@ == agent_id@);
                        if hit {
                            assert(affected@[before.index_of(x)] == x);
                        }
                    } else if hit && x == *o {
                        assert(*it.seq()[i].0 == x && it.seq()[i].1@ == agent_id@);
                        assert(affected@.last() == x);
                    } else {
                        if hit {
                            assert forall|j: int| 0 <= j < affected@.len() implies affected@[j] != x by {
                                if j < before.len() {
                                    assert(before[j] == affected@[j]);
                                }
                            }
                        }
                        assert(!affected@.contains(x));
                        if exists|k: int|
                            #![trigger it.seq()[k]]
                            0 <= k < i + 1 && *it.seq()[k].0 == x && it.seq()[k].1@ == agent_id@ {
                            let k = choose|k: int|
                                #![trigger it.seq()[k]]
                                0 <= k < i + 1 && *it.seq()[k].0 == x && it.seq()[k].1@ == agent_id@;
                            assert(k == i);
                        }
                    }
                }
                count = count + 1;
            }
        }
        proof {
            assert forall|o: OrderId| #[trigger]
                affected@.to_set().contains(o) <==> orders_of(m, agent_id@).contains(o) by {
                if orders_of(m, agent_id@).contains(o) {
                    assert(m.contains_key(o));
                    assert(all.contains((&o, &m[o])));
                    let k = choose|k: int| 0 <= k < all.len() && all[k] == (&o, &m[o]);
                    assert(*all[k].0 == o);
                }
            }
            assert(affected@.to_set() =~= orders_of(m, agent_id@));
        }
        let escrows = match self.agent_escrows.remove(agent_id) {
            Some(l) => l,
            None => Vec::new(),
        };
        proof {
            assert(self.escrows_held() =~= old(self).escrows_held().remove(agent_id@));
        }
        let ghost failed_now = self.failed();
        let ghost held_now = self.escrows_held();
        let mut i: usize = 0;
        let n = affected.len();
        while i < n
            invariant
                n == affected@.len(),
                i <= n,
                self.pending_re_auction@ == old(self).pending_re_auction@ + affected@.take(i as int),
                self.failed() == failed_now,
                self.escrows_held() == held_now,
            decreases n - i,
        {
            self.pending_re_auction.push(affected[i]);
            i = i + 1;
            proof {
                assert(affected@.take(i as int) =~= affected@.take(i - 1).push(affected@[i - 1]));
            }
        }
        proof {
            assert(affected@.take(n as int) =~= affected@);
        }
        (affected, escrows)
    }
}

} // verus!
