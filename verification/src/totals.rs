//! Sums over finite sets of tablets.

use crate::types::TabletId;
use vstd::prelude::*;

verus! {

/// The sum of `f` over the finite set `keys`.
pub open spec fn sum_over(keys: Set<TabletId>, f: spec_fn(TabletId) -> nat) -> nat
    decreases keys.len(),
    when keys.finite()
{
    if keys.len() == 0 {
        0
    } else {
        let k = keys.choose();
        f(k) + sum_over(keys.remove(k), f)
    }
}

/// Any one element can be taken out of the sum.
pub proof fn lemma_sum_take_out(keys: Set<TabletId>, f: spec_fn(TabletId) -> nat, k: TabletId)
    requires
        keys.finite(),
        keys.contains(k),
    ensures
        sum_over(keys, f) == f(k) + sum_over(keys.remove(k), f),
    decreases keys.len(),
{
    let c = keys.choose();
    if c != k {
        lemma_sum_take_out(keys.remove(c), f, k);
        lemma_sum_take_out(keys.remove(k), f, c);
        assert(keys.remove(c).remove(k) =~= keys.remove(k).remove(c));
    }
}

/// A new element adds its value to the sum.
pub proof fn lemma_sum_insert(keys: Set<TabletId>, f: spec_fn(TabletId) -> nat, k: TabletId)
    requires
        keys.finite(),
        !keys.contains(k),
    ensures
        sum_over(keys.insert(k), f) == f(k) + sum_over(keys, f),
{
    lemma_sum_take_out(keys.insert(k), f, k);
    assert(keys.insert(k).remove(k) =~= keys);
}

/// The sum depends on the values at the elements alone.
pub proof fn lemma_sum_same_values(
    keys: Set<TabletId>,
    f: spec_fn(TabletId) -> nat,
    g: spec_fn(TabletId) -> nat,
)
    requires
        keys.finite(),
        forall|k: TabletId| #[trigger] keys.contains(k) ==> f(k) == g(k),
    ensures
        sum_over(keys, f) == sum_over(keys, g),
    decreases keys.len(),
{
    if keys.len() != 0 {
        let c = keys.choose();
        assert(keys.contains(c));
        lemma_sum_same_values(keys.remove(c), f, g);
    }
}

/// A part of the elements sums to no more than all of them.
pub proof fn lemma_sum_subset(
    part: Set<TabletId>,
    keys: Set<TabletId>,
    f: spec_fn(TabletId) -> nat,
)
    requires
        keys.finite(),
        part.subset_of(keys),
    ensures
        part.finite(),
        sum_over(part, f) <= sum_over(keys, f),
    decreases keys.len(),
{
    vstd::set_lib::lemma_set_subset_finite(keys, part);
    if keys.len() != 0 {
        let c = keys.choose();
        assert(keys.contains(c));
        if part.contains(c) {
            lemma_sum_take_out(part, f, c);
            lemma_sum_subset(part.remove(c), keys.remove(c), f);
        } else {
            lemma_sum_subset(part, keys.remove(c), f);
        }
    }
}

} // verus!
