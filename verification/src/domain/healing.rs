//! Heartbeat-based failure detection.
//!
//! Timestamps are passed in explicitly, so detection is a function of the
//! recorded heartbeats and the time the caller names.

use vstd::prelude::*;

use crate::table::NameTable;
use crate::types::{NodeId, Order, OrderStatus, Timestamp};

verus! {

/// An agent last seen at `last` counts as failed at `now` when more than
/// `timeout_s` seconds have passed (a clock that went backwards counts as
/// no time passed).
pub open spec fn silent_too_long(last: Timestamp, now: Timestamp, timeout_s: u64) -> bool {
    now > last && now - last > timeout_s
}

/// `id` has a heartbeat on record in `seen` and is failed at `now`.
pub open spec fn failed_in(
    seen: Map<Seq<char>, Timestamp>,
    id: Seq<char>,
    now: Timestamp,
    timeout_s: u64,
) -> bool {
    seen.contains_key(id) && silent_too_long(seen[id], now, timeout_s)
}

/// The ids held by a list of strings.
pub open spec fn ids_of(v: Seq<String>) -> Seq<Seq<char>> {
    v.map_values(|s: String| s@)
}

/// Orders in these statuses have an agent responsible for them.
pub open spec fn in_flight(s: OrderStatus) -> bool {
    s == OrderStatus::Assigned || s == OrderStatus::Pickup || s == OrderStatus::InTransit || s
        == OrderStatus::HandoffPending
}

/// `o` is in flight and assigned to an agent that counts as failed at
/// `now`: one whose last heartbeat is too old, or one with no heartbeat on
/// record at all.
pub open spec fn needs_reauction(
    o: Order,
    seen: Map<Seq<char>, Timestamp>,
    now: Timestamp,
    timeout_s: u64,
) -> bool {
    in_flight(o.status) && match o.assigned_to {
        Some(a) => !seen.contains_key(a@) || silent_too_long(seen[a@], now, timeout_s),
        None => false,
    }
}

/// The ids, in list order, of the orders that need re-auctioning.
pub open spec fn reauction_ids(
    orders: Seq<Order>,
    seen: Map<Seq<char>, Timestamp>,
    now: Timestamp,
    timeout_s: u64,
) -> Seq<Seq<char>>
    decreases orders.len(),
{
    if orders.len() == 0 {
        seq![]
    } else {
        let rest = reauction_ids(orders.drop_last(), seen, now, timeout_s);
        if needs_reauction(orders.last(), seen, now, timeout_s) {
            rest.push(orders.last().order_id@)
        } else {
            rest
        }
    }
}

/// The ids among the first `i` entries of `seen` whose heartbeat is too
/// old at `now`, in table order.
pub open spec fn silent_prefix(seen: NameTable<Timestamp>, now: Timestamp, timeout_s: u64, i: nat) -> Seq<Seq<char>>
    decreases i,
{
    if i == 0 {
        seq![]
    } else {
        let k = (i - 1) as int;
        silent_prefix(seen, now, timeout_s, (i - 1) as nat) + (if silent_too_long(seen.value_at(k), now, timeout_s) {
            seq![seen.key_at(k)]
        } else {
            seq![]
        })
    }
}

/// Tracks the last heartbeat timestamp received from each agent.
pub struct HeartbeatTracker {
    last_seen: NameTable<Timestamp>,
}

impl HeartbeatTracker {
    /// Last heartbeat time of each agent on record.
    pub closed spec fn view(&self) -> Map<Seq<char>, Timestamp> {
        self.last_seen@
    }

    /// The ids on record that are failed at `now`, in the order they were
    /// first recorded.
    pub closed spec fn failed_ids(&self, now: Timestamp, timeout_s: u64) -> Seq<Seq<char>> {
        silent_prefix(self.last_seen, now, timeout_s, self.last_seen.size())
    }

    /// A tracker with no heartbeat on record.
    pub fn new() -> (t: Self)
        ensures
            t@ == Map::<Seq<char>, Timestamp>::empty(),
    {
        HeartbeatTracker { last_seen: NameTable::new() }
    }

    /// Record (or refresh) a heartbeat for `node_id` at time `now`.
    pub fn record_heartbeat(&mut self, node_id: &str, now: Timestamp)
        ensures
            final(self)@ == old(self)@.insert(node_id@, now),
    {
        self.last_seen.insert(node_id.to_owned(), now);
    }

    /// The ids of every agent on record whose last heartbeat was received
    /// more than `timeout_s` seconds before `now`, each once, in the order
    /// they were first recorded.  Agents with no heartbeat on record also
    /// count as failed (see [`HeartbeatTracker::orders_to_reauction`]);
    /// having no id of theirs, this list cannot name them.
    pub fn detect_failed_agents(&self, now: Timestamp, timeout_s: u64) -> (r: Vec<NodeId>)
        ensures
            ids_of(r@) == self.failed_ids(now, timeout_s),
            ids_of(r@).no_duplicates(),
            forall|id: Seq<char>| ids_of(r@).contains(id) <==> failed_in(self@, id, now, timeout_s),
    {
        let n = self.last_seen.len();
        let mut out: Vec<NodeId> = Vec::new();
        let mut i: usize = 0;
        while i < n
            invariant
                n == self.last_seen.size(),
                i <= n,
                forall|k: int|
                    #![trigger self.last_seen.key_at(k)]
                    0 <= k < n ==> self@.contains_key(self.last_seen.key_at(k))
                        && self@[self.last_seen.key_at(k)] == self.last_seen.value_at(k),
                forall|a: int, b: int|
                    #![trigger self.last_seen.key_at(a), self.last_seen.key_at(b)]
                    0 <= a < n && 0 <= b < n && a != b ==> self.last_seen.key_at(a)
                        != self.last_seen.key_at(b),
                ids_of(out@) == silent_prefix(self.last_seen, now, timeout_s, i as nat),
                ids_of(out@).no_duplicates(),
                forall|id: Seq<char>|
                    ids_of(out@).contains(id) <==> exists|k: int|
                        #![trigger self.last_seen.key_at(k)]
                        0 <= k < i && self.last_seen.key_at(k) == id && silent_too_long(
                            self.last_seen.value_at(k),
                            now,
                            timeout_s,
                        ),
            decreases n - i,
        {
            let last = *self.last_seen.value(i);
            let ghost old_out = out@;
            if now > last && now - last > timeout_s {
                let id = self.last_seen.key(i).clone();
                out.push(id);
                proof {
                    assert(ids_of(out@) =~= ids_of(old_out).push(self.last_seen.key_at(i as int)));
                    assert forall|p: int, q: int|
                        0 <= p < ids_of(out@).len() && 0 <= q < ids_of(out@).len() && p != q implies ids_of(out@)[p]
                        != ids_of(out@)[q] by {
                        let last = old_out.len() as int;
                        if p == last || q == last {
                            let other = if p == last { q } else { p };
                            assert(ids_of(old_out)[other] == ids_of(out@)[other]);
                            assert(ids_of(old_out).contains(ids_of(out@)[other]));
                            let k = choose|k: int|
                                #![trigger self.last_seen.key_at(k)]
                                0 <= k < i && self.last_seen.key_at(k) == ids_of(out@)[other]
                                    && silent_too_long(self.last_seen.value_at(k), now, timeout_s);
                            assert(self.last_seen.key_at(k) != self.last_seen.key_at(i as int));
                        } else {
                            assert(ids_of(old_out)[p] != ids_of(old_out)[q]);
                        }
                    }
                    assert forall|id: Seq<char>|
                        ids_of(out@).contains(id) <==> exists|k: int|
                            #![trigger self.last_seen.key_at(k)]
                            0 <= k < i + 1 && self.last_seen.key_at(k) == id && silent_too_long(
                                self.last_seen.value_at(k),
                                now,
                                timeout_s,
                            ) by {
                        if ids_of(out@).contains(id) {
                            let p = choose|p: int| 0 <= p < ids_of(out@).len() && ids_of(out@)[p] == id;
                            if p < old_out.len() {
                                assert(ids_of(old_out)[p] == id);
                                assert(ids_of(old_out).contains(id));
                            } else {
                                assert(self.last_seen.key_at(i as int) == id);
                            }
                        }
                        if exists|k: int|
                            #![trigger self.last_seen.key_at(k)]
                            0 <= k < i + 1 && self.last_seen.key_at(k) == id && silent_too_long(
                                self.last_seen.value_at(k),
                                now,
                                timeout_s,
                            ) {
                            let k = choose|k: int|
                                #![trigger self.last_seen.key_at(k)]
                                0 <= k < i + 1 && self.last_seen.key_at(k) == id && silent_too_long(
                                    self.last_seen.value_at(k),
                                    now,
                                    timeout_s,
                                );
                            if k < i {
                                assert(ids_of(old_out).contains(id));
                                let p = choose|p: int|
                                    0 <= p < ids_of(old_out).len() && ids_of(old_out)[p] == id;
                                assert(ids_of(out@)[p] == id);
                            } else {
                                assert(ids_of(out@)[old_out.len() as int] == id);
                            }
                        }
                    }
                }
            } else {
                proof {
                    assert forall|id: Seq<char>|
                        ids_of(out@).contains(id) <==> exists|k: int|
                            #![trigger self.last_seen.key_at(k)]
                            0 <= k < i + 1 && self.last_seen.key_at(k) == id && silent_too_long(
                                self.last_seen.value_at(k),
                                now,
                                timeout_s,
                            ) by {
                        if exists|k: int|
                            #![trigger self.last_seen.key_at(k)]
                            0 <= k < i + 1 && self.last_seen.key_at(k) == id && silent_too_long(
                                self.last_seen.value_at(k),
                                now,
                                timeout_s,
                            ) {
                            let k = choose|k: int|
                                #![trigger self.last_seen.key_at(k)]
                                0 <= k < i + 1 && self.last_seen.key_at(k) == id && silent_too_long(
                                    self.last_seen.value_at(k),
                                    now,
                                    timeout_s,
                                );
                            assert(k < i);
                        }
                    }
                }
            }
            i = i + 1;
        }
        proof {
            assert forall|id: Seq<char>|
                ids_of(out@).contains(id) <==> failed_in(self@, id, now, timeout_s) by {
                if failed_in(self@, id, now, timeout_s) {
                    assert(self@.contains_key(id));
                    let k = choose|k: int|
                        #![trigger self.last_seen.key_at(k)]
                        0 <= k < self.last_seen.size() && self.last_seen.key_at(k) == id;
                    assert(self.last_seen.key_at(k) == id);
                }
            }
        }
        out
    }

    /// The ids, in the order given, of the orders that are in flight
    /// (`Assigned`, `Pickup`, `InTransit` or `HandoffPending`) and assigned to
    /// an agent that counts as failed at `now` (its last heartbeat is too
    /// old, or it has none on record): these need a new auction.
    pub fn orders_to_reauction(&self, orders: &[Order], now: Timestamp, timeout_s: u64) -> (r: Vec<
        String,
    >)
        ensures
            ids_of(r@) == reauction_ids(orders@, self@, now, timeout_s),
            forall|i: int| 0 <= i < orders@.len() && #[trigger] held_by_failed_agent(orders@[i], self@, now, timeout_s)
                ==> ids_of(r@).contains(orders@[i].order_id@),
    {
        let n = orders.len();
        let mut out: Vec<String> = Vec::new();
        let mut i: usize = 0;
        while i < n
            invariant
                n == orders@.len(),
                i <= n,
                ids_of(out@) == reauction_ids(orders@.take(i as int), self@, now, timeout_s),
            decreases n - i,
        {
            let o = &orders[i];
            let flight = match o.status {
                OrderStatus::Assigned | OrderStatus::Pickup | OrderStatus::InTransit
                | OrderStatus::HandoffPending => true,
                _ => false,
            };
            let mut wanted = false;
            if flight {
                if let Some(a) = &o.assigned_to {
                    wanted = match self.last_seen.get(a.as_str()) {
                        Some(last) => now > *last && now - *last > timeout_s,
                        None => true,
                    };
                }
            }
            let ghost old_out = out@;
            if wanted {
                out.push(o.order_id.clone());
            }
            proof {
                assert(orders@.take(i + 1).drop_last() =~= orders@.take(i as int));
                assert(orders@.take(i + 1).last() == orders@[i as int]);
                assert(wanted == needs_reauction(orders@[i as int], self@, now, timeout_s));
                if wanted {
                    assert(ids_of(out@) =~= ids_of(old_out).push(orders@[i as int].order_id@));
                } else {
                    assert(ids_of(out@) =~= ids_of(old_out));
                }
            }
            i = i + 1;
        }
        proof {
            assert(orders@.take(n as int) =~= orders@);
            lemma_reauction_exactly_failed_in_flight(orders@, self@, now, timeout_s);
        }
        out
    }
}

/// A fresh heartbeat clears a failure: right after `id` is recorded at `t`,
/// `id` is not failed at any time up to `t + timeout_s`.
pub proof fn lemma_fresh_heartbeat_not_failed(
    seen: Map<Seq<char>, Timestamp>,
    id: Seq<char>,
    t: Timestamp,
    now: Timestamp,
    timeout_s: u64,
)
    requires
        now <= t + timeout_s,
    ensures
        !failed_in(seen.insert(id, t), id, now, timeout_s),
{
}

/// An order that needs re-auctioning is in flight and assigned to an agent
/// that counts as failed; delivered, cancelled or unassigned orders never
/// do.
pub proof fn lemma_reauction_only_in_flight(
    orders: Seq<Order>,
    seen: Map<Seq<char>, Timestamp>,
    now: Timestamp,
    timeout_s: u64,
    k: int,
)
    requires
        0 <= k < reauction_ids(orders, seen, now, timeout_s).len(),
    ensures
        exists|i: int|
            0 <= i < orders.len() && #[trigger] orders[i].order_id@ == reauction_ids(
                orders,
                seen,
                now,
                timeout_s,
            )[k] && needs_reauction(orders[i], seen, now, timeout_s),
    decreases orders.len(),
{
    let rest = reauction_ids(orders.drop_last(), seen, now, timeout_s);
    if k < rest.len() {
        lemma_reauction_only_in_flight(orders.drop_last(), seen, now, timeout_s, k);
        let i = choose|i: int|
            0 <= i < orders.drop_last().len() && #[trigger] orders.drop_last()[i].order_id@
                == rest[k] && needs_reauction(orders.drop_last()[i], seen, now, timeout_s);
        assert(orders[i] == orders.drop_last()[i]);
    } else {
        assert(orders[orders.len() - 1].order_id@ == reauction_ids(orders, seen, now, timeout_s)[k]);
    }
}

/// `o` is `Assigned`, `Pickup`, `InTransit` or `HandoffPending` and its
/// assigned agent counts as failed at `now`: silent for more than
/// `timeout_s` seconds, or never heard from.
pub open spec fn held_by_failed_agent(
    o: Order,
    seen: Map<Seq<char>, Timestamp>,
    now: Timestamp,
    timeout_s: u64,
) -> bool {
    &&& (o.status == OrderStatus::Assigned || o.status == OrderStatus::Pickup || o.status
        == OrderStatus::InTransit || o.status == OrderStatus::HandoffPending)
    &&& match o.assigned_to {
        Some(a) => !seen.contains_key(a@) || (now > seen[a@] && now - seen[a@] > timeout_s),
        None => false,
    }
}

/// The orders to re-auction are exactly those held by a failed agent:
/// every order held by a failed agent is among them, and each of them is
/// the id of such an order.
pub proof fn lemma_reauction_exactly_failed_in_flight(
    orders: Seq<Order>,
    seen: Map<Seq<char>, Timestamp>,
    now: Timestamp,
    timeout_s: u64,
)
    ensures
        forall|i: int| 0 <= i < orders.len() && #[trigger] held_by_failed_agent(orders[i], seen, now, timeout_s)
            ==> reauction_ids(orders, seen, now, timeout_s).contains(orders[i].order_id@),
        forall|id: Seq<char>| #[trigger] reauction_ids(orders, seen, now, timeout_s).contains(id) ==> exists|j: int|
            0 <= j < orders.len() && #[trigger] orders[j].order_id@ == id
                && held_by_failed_agent(orders[j], seen, now, timeout_s),
    decreases orders.len(),
{
    if orders.len() > 0 {
        let rest = reauction_ids(orders.drop_last(), seen, now, timeout_s);
        let all = reauction_ids(orders, seen, now, timeout_s);
        lemma_reauction_exactly_failed_in_flight(orders.drop_last(), seen, now, timeout_s);
        assert forall|i: int| 0 <= i < orders.len() && #[trigger] held_by_failed_agent(orders[i], seen, now, timeout_s)
            implies all.contains(orders[i].order_id@) by {
            let id = orders[i].order_id@;
            if i < orders.len() - 1 {
                assert(orders.drop_last()[i] == orders[i]);
                assert(held_by_failed_agent(orders.drop_last()[i], seen, now, timeout_s));
                assert(rest.contains(id));
                let k = choose|k: int| 0 <= k < rest.len() && rest[k] == id;
                assert(all[k] == id);
            } else {
                assert(orders.last() == orders[i]);
                assert(needs_reauction(orders.last(), seen, now, timeout_s));
                assert(all[rest.len() as int] == id);
            }
        }
        assert forall|id: Seq<char>| #[trigger] all.contains(id) implies exists|j: int|
            0 <= j < orders.len() && #[trigger] orders[j].order_id@ == id
                && held_by_failed_agent(orders[j], seen, now, timeout_s) by {
            let k = choose|k: int| 0 <= k < all.len() && all[k] == id;
            lemma_reauction_only_in_flight(orders, seen, now, timeout_s, k);
            let j = choose|j: int|
                0 <= j < orders.len() && #[trigger] orders[j].order_id@ == all[k] && needs_reauction(
                    orders[j],
                    seen,
                    now,
                    timeout_s,
                );
            assert(held_by_failed_agent(orders[j], seen, now, timeout_s));
        }
    }
}

} // verus!
