//! The safety mesh of a swarm node: alerts that freeze the agents inside a
//! zone until the zone is cleared.
//!
//! Whether a position lies within a zone's radius is floating-point
//! geometry; callers supply that test as a closure.

use vstd::prelude::*;

use std::collections::HashMap;
use vstd::std_specs::iter::IteratorSpec;

use crate::types::{AlertId, Point};

verus! {

broadcast use vstd::std_specs::hash::group_hash_axioms;

/// A declared safety zone; `radius` is an `f64` bit pattern.
#[derive(Debug, Clone, Copy)]
pub struct SafetyZone {
    pub alert_id: AlertId,
    pub center: Point,
    pub radius: u64,
    pub active: bool,
}

/// Propagates alerts and freezes the agents inside active zones.
pub struct SafetyMesh {
    zones: HashMap<AlertId, SafetyZone>,
}

impl SafetyMesh {
    /// Every zone is stored under its own alert id.
    #[verifier::type_invariant]
    closed spec fn keyed_by_alert(self) -> bool {
        forall|k: AlertId| #[trigger] self.zones@.contains_key(k) ==> self.zones@[k].alert_id == k
    }

    /// The zones by alert id.
    pub closed spec fn zones(&self) -> Map<AlertId, SafetyZone> {
        self.zones@
    }

    /// A mesh with no zone.
    pub fn new() -> (m: Self)
        ensures
            m.zones() == Map::<AlertId, SafetyZone>::empty(),
    {
        SafetyMesh { zones: HashMap::new() }
    }

    /// Activate a zone (a `SafetyAlert`), replacing any zone with that id.
    pub fn activate(&mut self, alert_id: AlertId, center: Point, radius: u64)
        ensures
            final(self).zones() == old(self).zones().insert(
                alert_id,
                SafetyZone { alert_id, center, radius, active: true },
            ),
    {
        proof {
            use_type_invariant(&*self);
        }
        let mut taken = SafetyMesh::new();
        std::mem::swap(&mut taken, self);
        let SafetyMesh { mut zones } = taken;
        zones.insert(alert_id, SafetyZone { alert_id, center, radius, active: true });
        *self = SafetyMesh { zones };
    }

    /// Deactivate a zone (a `SafetyClear`); an unknown id changes nothing.
    pub fn clear(&mut self, alert_id: AlertId)
        ensures
            final(self).zones() == (if old(self).zones().contains_key(alert_id) {
                old(self).zones().insert(
                    alert_id,
                    SafetyZone { active: false, ..old(self).zones()[alert_id] },
                )
            } else {
                old(self).zones()
            }),
    {
        proof {
            use_type_invariant(&*self);
        }
        let found = match self.zones.get(&alert_id) {
            Some(z) => Some(*z),
            None => None,
        };
        match found {
            Some(z) => {
                let mut taken = SafetyMesh::new();
                std::mem::swap(&mut taken, self);
                let SafetyMesh { mut zones } = taken;
                zones.insert(alert_id, SafetyZone { active: false, ..z });
                *self = SafetyMesh { zones };
            },
            None => {},
        }
    }

    /// Whether `position` lies inside an active zone, where `inside` tells
    /// whether a position lies within one zone's radius.  `true` names an
    /// active zone whose test answered `true`; `false` means every active
    /// zone's test answered `false`.
    pub fn is_frozen<F: Fn(&SafetyZone, Point) -> bool>(&self, position: &Point, inside: &F) -> (r: bool)
        requires
            forall|z: &SafetyZone, p: Point| #[trigger] inside.requires((z, p)),
        ensures
            r ==> exists|k: AlertId|
                #[trigger] self.zones().contains_key(k) && self.zones()[k].active && inside.ensures(
                    (&self.zones()[k], *position),
                    true,
                ),
            !r ==> forall|k: AlertId|
                #[trigger] self.zones().contains_key(k) && self.zones()[k].active ==> inside.ensures(
                    (&self.zones()[k], *position),
                    false,
                ),
    {
        let ghost m = self.zones@;
        let ghost all = vstd::std_specs::hash::spec_hash_map_iter(&self.zones).remaining();
        for entry in it: self.zones.iter()
            invariant
                all == it.seq(),
                forall|z: &SafetyZone, p: Point| #[trigger] inside.requires((z, p)),
                forall|k: int|
                    #![trigger it.seq()[k]]
                    0 <= k < it.seq().len() ==> m.contains_key(*it.seq()[k].0) && m[*it.seq()[k].0]
                        == *it.seq()[k].1,
                forall|o: AlertId| #[trigger] m.contains_key(o) ==> it.seq().contains((&o, &m[o])),
                forall|k: int|
                    #![trigger it.seq()[k]]
                    0 <= k < it.index() && it.seq()[k].1.active ==> inside.ensures(
                        (it.seq()[k].1, *position),
                        false,
                    ),
        {
            let (id, z) = entry;
            let ghost i = it.index();
            assert(it.seq()[i] == entry);
            if z.active {
                let hit = inside(z, *position);
                if hit {
                    proof {
                        assert(m.contains_key(*id));
                        assert(m[*id] == *z);
                        assert(self.zones().contains_key(*id) && self.zones()[*id].active && inside.ensures(
                            (&self.zones()[*id], *position),
                            true,
                        ));
                    }
                    return true;
                }
            }
        }
        proof {
            assert forall|k: AlertId|
                #[trigger] m.contains_key(k) && m[k].active implies inside.ensures((&m[k], *position), false) by {
                assert(all.contains((&k, &m[k])));
                let j = choose|j: int| 0 <= j < all.len() && all[j] == (&k, &m[k]);
                assert(all[j].1 == &m[k]);
            }
        }
        false
    }

    /// All active zones, each once, in no particular order.
    pub fn active_zones(&self) -> (r: Vec<SafetyZone>)
        ensures
            forall|i: int, j: int|
                0 <= i < r@.len() && 0 <= j < r@.len() && i != j ==> (#[trigger] r@[i]).alert_id
                    != (#[trigger] r@[j]).alert_id,
            forall|i: int|
                0 <= i < r@.len() ==> self.zones().contains_key((#[trigger] r@[i]).alert_id)
                    && self.zones()[r@[i].alert_id] == r@[i] && r@[i].active,
            forall|k: AlertId|
                #[trigger] self.zones().contains_key(k) && self.zones()[k].active ==> exists|i: int|
                    0 <= i < r@.len() && (#[trigger] r@[i]).alert_id == k,
    {
        proof {
            use_type_invariant(self);
        }
        let ghost m = self.zones@;
        let ghost all = vstd::std_specs::hash::spec_hash_map_iter(&self.zones).remaining();
        let mut out: Vec<SafetyZone> = Vec::new();
        let ghost mut pos: Seq<int> = Seq::empty();
        for entry in it: self.zones.iter()
            invariant
                all == it.seq(),
                it.seq().no_duplicates(),
                forall|k: int|
                    #![trigger it.seq()[k]]
                    0 <= k < it.seq().len() ==> m.contains_key(*it.seq()[k].0) && m[*it.seq()[k].0]
                        == *it.seq()[k].1,
                forall|o: AlertId| #[trigger] m.contains_key(o) ==> it.seq().contains((&o, &m[o])),
                pos.len() == out@.len(),
                forall|t: int|
                    #![trigger pos[t]]
                    0 <= t < pos.len() ==> 0 <= pos[t] < it.index() && out@[t] == *it.seq()[pos[t]].1
                        && out@[t].active,
                forall|s: int, t: int| #![trigger pos[s], pos[t]] 0 <= s < t < pos.len() ==> pos[s] < pos[t],
                forall|k: int|
                    #![trigger it.seq()[k]]
                    0 <= k < it.index() && it.seq()[k].1.active ==> exists|t: int|
                        #![trigger pos[t]]
                        0 <= t < pos.len() && pos[t] == k,
        {
            let (id, z) = entry;
            let ghost i = it.index();
            assert(it.seq()[i] == entry);
            let ghost old_pos = pos;
            if z.active {
                out.push(*z);
                proof {
                    pos = pos.push(i);
                    assert forall|k: int|
                        #![trigger it.seq()[k]]
                        0 <= k < i + 1 && it.seq()[k].1.active implies exists|t: int|
                            #![trigger pos[t]]
                            0 <= t < pos.len() && pos[t] == k by {
                        if k == i {
                            assert(pos[pos.len() - 1] == k);
                        } else {
                            let t = choose|t: int| #![trigger old_pos[t]] 0 <= t < old_pos.len() && old_pos[t] == k;
                            assert(pos[t] == old_pos[t]);
                        }
                    }
                }
            }
        }
        proof {
            assert forall|s: int, t: int|
                0 <= s < out@.len() && 0 <= t < out@.len() && s != t implies (#[trigger] out@[s]).alert_id
                    != (#[trigger] out@[t]).alert_id by {
                assert(pos[s] != pos[t]);
                let es = all[pos[s]];
                let et = all[pos[t]];
                assert(m[*es.0] == *es.1);
                assert(m[*et.0] == *et.1);
                if *es.0 == *et.0 {
                    assert(es == et);
                }
                assert(es.1.alert_id == *es.0);
                assert(et.1.alert_id == *et.0);
            }
            assert forall|t: int| 0 <= t < out@.len() implies self.zones().contains_key((#[trigger] out@[t]).alert_id)
                && self.zones()[out@[t].alert_id] == out@[t] && out@[t].active by {
                let e = all[pos[t]];
                assert(m.contains_key(*e.0) && m[*e.0] == *e.1);
                assert(e.1.alert_id == *e.0);
            }
            assert forall|k: AlertId| #[trigger] self.zones().contains_key(k) && self.zones()[k].active implies exists|t: int|
                0 <= t < out@.len() && (#[trigger] out@[t]).alert_id == k by {
                assert(all.contains((&k, &m[k])));
                let j = choose|j: int| 0 <= j < all.len() && all[j] == (&k, &m[k]);
                let t = choose|t: int| #![trigger pos[t]] 0 <= t < pos.len() && pos[t] == j;
                assert(out@[t] == m[k]);
                assert(m[k].alert_id == k);
            }
        }
        out
    }
}

} // verus!
