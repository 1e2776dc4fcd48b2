//! Totals of the values held in a finite map.

use vstd::prelude::*;
use vstd::set::fold::is_fun_commutative;

verus! {

/// The sum of `f` over the values of `m`.
pub open spec fn sum_by<K, V>(m: Map<K, V>, f: spec_fn(V) -> int) -> int {
    m.dom().fold(0int, |acc: int, k: K| acc + f(m[k]))
}

proof fn lemma_fold_agree<K, V>(s: Set<K>, m1: Map<K, V>, m2: Map<K, V>, f: spec_fn(V) -> int)
    requires
        s.finite(),
        forall|k: K| s.contains(k) ==> f(m1[k]) == f(m2[k]),
    ensures
        s.fold(0int, |acc: int, k: K| acc + f(m1[k])) == s.fold(0int, |acc: int, k: K| acc + f(m2[k])),
    decreases s.len(),
{
    let g1 = |acc: int, k: K| acc + f(m1[k]);
    let g2 = |acc: int, k: K| acc + f(m2[k]);
    assert(is_fun_commutative(g1));
    assert(is_fun_commutative(g2));
    if s.len() == 0 {
        assert(s =~= Set::empty());
        vstd::set::fold::lemma_fold_empty(0int, g1);
        vstd::set::fold::lemma_fold_empty(0int, g2);
    } else {
        let a = s.choose();
        let r = s.remove(a);
        lemma_fold_agree(r, m1, m2, f);
        assert(r.insert(a) =~= s);
        vstd::set::fold::lemma_fold_insert(r, 0int, g1, a);
        vstd::set::fold::lemma_fold_insert(r, 0int, g2, a);
    }
}

/// Setting key `k` to `v` changes the sum by the difference of the values.
pub proof fn lemma_sum_by_insert<K, V>(m: Map<K, V>, k: K, v: V, f: spec_fn(V) -> int)
    requires
        m.dom().finite(),
    ensures
        sum_by(m.insert(k, v), f) == sum_by(m, f) - (if m.contains_key(k) {
            f(m[k])
        } else {
            0
        }) + f(v),
{
    let m2 = m.insert(k, v);
    let g1 = |acc: int, j: K| acc + f(m[j]);
    let g2 = |acc: int, j: K| acc + f(m2[j]);
    assert(is_fun_commutative(g1));
    assert(is_fun_commutative(g2));
    let s = m.dom().remove(k);
    lemma_fold_agree(s, m, m2, f);
    assert(m2.dom() =~= s.insert(k));
    vstd::set::fold::lemma_fold_insert(s, 0int, g2, k);
    if m.contains_key(k) {
        assert(m.dom() =~= s.insert(k));
        vstd::set::fold::lemma_fold_insert(s, 0int, g1, k);
    } else {
        assert(m.dom() =~= s);
    }
}

/// A sum of non-negative values is non-negative.
pub proof fn lemma_sum_by_nonneg<K, V>(m: Map<K, V>, f: spec_fn(V) -> int)
    requires
        m.dom().finite(),
        forall|v: V| #[trigger] f(v) >= 0,
    ensures
        sum_by(m, f) >= 0,
    decreases m.dom().len(),
{
    if m.dom().len() == 0 {
        assert(m.dom() =~= Set::empty());
        vstd::set::fold::lemma_fold_empty(0int, |acc: int, k: K| acc + f(m[k]));
    } else {
        let k = m.dom().choose();
        let r = m.remove(k);
        lemma_sum_by_nonneg(r, f);
        lemma_sum_by_insert(r, k, m[k], f);
        assert(r.insert(k, m[k]) =~= m);
    }
}

/// Each value counts towards the sum of non-negative values.
pub proof fn lemma_sum_by_ge_each<K, V>(m: Map<K, V>, f: spec_fn(V) -> int, k: K)
    requires
        m.dom().finite(),
        forall|v: V| #[trigger] f(v) >= 0,
        m.contains_key(k),
    ensures
        f(m[k]) <= sum_by(m, f),
{
    let r = m.remove(k);
    lemma_sum_by_nonneg(r, f);
    lemma_sum_by_insert(r, k, m[k], f);
    assert(r.insert(k, m[k]) =~= m);
}

/// The sum over an empty map is zero.
pub proof fn lemma_sum_by_empty<K, V>(m: Map<K, V>, f: spec_fn(V) -> int)
    requires
        m.dom() =~= Set::<K>::empty(),
    ensures
        sum_by(m, f) == 0,
{
    assert(m.dom() == Set::<K>::empty());
    vstd::set::fold::lemma_fold_empty(0int, |acc: int, k: K| acc + f(m[k]));
}

} // verus!
