//! Safety zones: which restricted areas are active, and whether a position
//! falls inside one of them.
//!
//! Whether a point lies inside one zone is plane geometry on floating-point
//! coordinates; callers supply that test as a closure, and this module
//! decides over all the active zones.

use vstd::prelude::*;

use crate::table::NameTable;
use crate::types::{GeoBits, SafetyZone};

verus! {

/// Tracks the declared safety zones, keyed by `zone_id`.
pub struct SafetyMonitor {
    zones: NameTable<SafetyZone>,
}

impl SafetyMonitor {
    /// The tracked zones by id.
    pub closed spec fn zones(&self) -> Map<Seq<char>, SafetyZone> {
        self.zones@
    }

    /// A monitor that tracks no zone.
    pub fn new() -> (m: Self)
        ensures
            m.zones() == Map::<Seq<char>, SafetyZone>::empty(),
    {
        SafetyMonitor { zones: NameTable::new() }
    }

    /// Register or update a safety zone under its id.
    pub fn add_alert(&mut self, zone: SafetyZone)
        ensures
            final(self).zones() == old(self).zones().insert(zone.zone_id@, zone),
    {
        let key = zone.zone_id.clone();
        self.zones.insert(key, zone);
    }

    /// Remove a safety zone by id; nothing changes if it is not tracked.
    pub fn clear_alert(&mut self, zone_id: &str)
        ensures
            final(self).zones() == old(self).zones().remove(zone_id@),
    {
        let _ = self.zones.remove(zone_id);
    }

    /// Whether `pos` falls inside any active zone, where `inside` tells
    /// whether a point lies within one zone's radius.  `true` names an
    /// active zone whose test answered `true`; `false` means every active
    /// zone's test answered `false`.
    pub fn is_paused_by_safety<F: Fn(&SafetyZone, GeoBits) -> bool>(&self, pos: GeoBits, inside: &F) -> (r:
        bool)
        requires
            forall|z: &SafetyZone, p: GeoBits| #[trigger] inside.requires((z, p)),
        ensures
            r ==> exists|k: Seq<char>|
                #[trigger] self.zones().contains_key(k) && self.zones()[k].active && inside.ensures(
                    (&self.zones()[k], pos),
                    true,
                ),
            !r ==> forall|k: Seq<char>|
                #[trigger] self.zones().contains_key(k) && self.zones()[k].active ==> inside.ensures(
                    (&self.zones()[k], pos),
                    false,
                ),
    {
        let n = self.zones.len();
        let mut i: usize = 0;
        while i < n
            invariant
                n == self.zones.size(),
                i <= n,
                forall|z: &SafetyZone, p: GeoBits| #[trigger] inside.requires((z, p)),
                forall|a: int| #![trigger self.zones.key_at(a)] 0 <= a < n ==> self.zones@.contains_key(self.zones.key_at(a))
                    && self.zones@[self.zones.key_at(a)] == self.zones.value_at(a),
                forall|j: int|
                    0 <= j < i && (#[trigger] self.zones.value_at(j)).active ==> inside.ensures(
                        (&self.zones.value_at(j), pos),
                        false,
                    ),
            decreases n - i,
        {
            let z = self.zones.value(i);
            if z.active {
                let hit = inside(z, pos);
                if hit {
                    proof {
                        assert(self.zones@.contains_key(self.zones.key_at(i as int)));
                    }
                    return true;
                }
            }
            i = i + 1;
        }
        proof {
            assert forall|k: Seq<char>|
                #[trigger] self.zones().contains_key(k) && self.zones()[k].active implies inside.ensures(
                    (&self.zones()[k], pos),
                    false,
                ) by {
                let j = choose|j: int|
                    #![trigger self.zones.key_at(j)]
                    0 <= j < self.zones.size() && self.zones.key_at(j) == k;
                assert(self.zones@[self.zones.key_at(j)] == self.zones.value_at(j));
            }
        }
        false
    }

    /// The ids of all active zones, each once.
    pub fn active_zone_ids(&self) -> (r: Vec<String>)
        ensures
            forall|i: int, j: int|
                0 <= i < r@.len() && 0 <= j < r@.len() && i != j ==> (#[trigger] r@[i])@ != (
                #[trigger] r@[j])@,
            forall|i: int|
                0 <= i < r@.len() ==> self.zones().contains_key((#[trigger] r@[i])@)
                    && self.zones()[r@[i]@].active,
            forall|k: Seq<char>|
                #[trigger] self.zones().contains_key(k) && self.zones()[k].active ==> exists|i: int|
                    0 <= i < r@.len() && (#[trigger] r@[i])@ == k,
    {
        let n = self.zones.len();
        let mut out: Vec<String> = Vec::new();
        let mut i: usize = 0;
        let ghost mut pos: Seq<int> = Seq::empty();
        while i < n
            invariant
                n == self.zones.size(),
                i <= n,
                forall|a: int| #![trigger self.zones.key_at(a)] 0 <= a < n ==> self.zones@.contains_key(self.zones.key_at(a))
                    && self.zones@[self.zones.key_at(a)] == self.zones.value_at(a),
                forall|a: int, b: int|
                    #![trigger self.zones.key_at(a), self.zones.key_at(b)]
                    0 <= a < n && 0 <= b < n && a != b ==> self.zones.key_at(a)
                        != self.zones.key_at(b),
                pos.len() == out@.len(),
                forall|t: int|
                    #![trigger pos[t]]
                    0 <= t < pos.len() ==> 0 <= pos[t] < i && out@[t]@ == self.zones.key_at(pos[t])
                        && self.zones.value_at(pos[t]).active,
                forall|s: int, t: int|
                    #![trigger pos[s], pos[t]]
                    0 <= s < t < pos.len() ==> pos[s] < pos[t],
                forall|a: int|
                    #![trigger self.zones.value_at(a)]
                    0 <= a < i && self.zones.value_at(a).active ==> exists|t: int|
                        #![trigger pos[t]]
                        0 <= t < pos.len() && pos[t] == a,
            decreases n - i,
        {
            let ghost old_pos = pos;
            if self.zones.value(i).active {
                let k = self.zones.key(i).clone();
                out.push(k);
                proof {
                    pos = pos.push(i as int);
                    assert(pos[pos.len() - 1] == i as int);
                    assert forall|a: int|
                        #![trigger self.zones.value_at(a)]
                        0 <= a < i + 1 && self.zones.value_at(a).active implies exists|t: int|
                            #![trigger pos[t]]
                            0 <= t < pos.len() && pos[t] == a by {
                        if a == i as int {
                            assert(pos[pos.len() - 1] == a);
                        } else {
                            let t = choose|t: int| #![trigger old_pos[t]] 0 <= t < old_pos.len() && old_pos[t] == a;
                            assert(pos[t] == old_pos[t]);
                        }
                    }
                }
            }
            i = i + 1;
        }
        proof {
            assert forall|s: int, t: int|
                0 <= s < out@.len() && 0 <= t < out@.len() && s != t implies (#[trigger] out@[s])@
                    != (#[trigger] out@[t])@ by {
                assert(pos[s] != pos[t]);
                assert(self.zones.key_at(pos[s]) != self.zones.key_at(pos[t]));
            }
            assert forall|t: int| 0 <= t < out@.len() implies self.zones().contains_key(
                (#[trigger] out@[t])@,
            ) && self.zones()[out@[t]@].active by {
                assert(self.zones.key_at(pos[t]) == out@[t]@);
            }
            assert forall|k: Seq<char>|
                #[trigger] self.zones().contains_key(k) && self.zones()[k].active implies exists|
                t: int,
            | 0 <= t < out@.len() && (#[trigger] out@[t])@ == k by {
                let a = choose|a: int|
                    #![trigger self.zones.key_at(a)]
                    0 <= a < self.zones.size() && self.zones.key_at(a) == k;
                assert(self.zones.value_at(a).active);
                let t = choose|t: int| #![trigger pos[t]] 0 <= t < pos.len() && pos[t] == a;
                assert(out@[t]@ == k);
            }
        }
        out
    }
}

} // verus!
