//! Laws relating update batches to the contents a query sees. They are
//! stated over [`spec_apply`], the ghost meaning of a batch, which both
//! [`crate::side::SideStore::apply`] and the write handle's update methods
//! promise in their contracts.

use crate::is_zero_qty;
use crate::side::spec_apply;
use crate::side::spec_update;
use vstd::prelude::*;

verus! {

/// After an update with a zero quantity for a price, no later update in the
/// batch re-inserting it, the price is absent from the contents — so no
/// best-level query of the result can ever return it.
pub proof fn lemma_zero_removes(m: Map<u64, u64>, us: Seq<(u64, u64)>, i: int, k: u64)
    requires
        0 <= i < us.len(),
        us[i].0 == k,
        is_zero_qty(us[i].1),
        forall|j: int| i < j < us.len() && #[trigger] us[j].0 == k ==> is_zero_qty(us[j].1),
    ensures
        !spec_apply(m, us).dom().contains(k),
    decreases us.len(),
{
    if i == us.len() - 1 {
    } else {
        assert(us.drop_last()[i] == us[i]);
        assert(forall|j: int|
            i < j < us.drop_last().len() && #[trigger] us.drop_last()[j].0 == k ==> is_zero_qty(
                us.drop_last()[j].1,
            ));
        lemma_zero_removes(m, us.drop_last(), i, k);
        let last = us.last();
        if last.0 == k {
            assert(us[us.len() - 1].0 == k);
            assert(is_zero_qty(last.1));
        }
    }
}

/// Last write wins: after a batch whose last update to a price carries a
/// nonzero quantity, the contents hold that price with exactly that
/// quantity; if it carries zero, the price is absent.
pub proof fn lemma_last_write_wins(m: Map<u64, u64>, us: Seq<(u64, u64)>, i: int)
    requires
        0 <= i < us.len(),
        forall|j: int| i < j < us.len() ==> #[trigger] us[j].0 != us[i].0,
    ensures
        is_zero_qty(us[i].1) ==> !spec_apply(m, us).dom().contains(us[i].0),
        !is_zero_qty(us[i].1) ==> spec_apply(m, us).dom().contains(us[i].0) && spec_apply(m, us)[us[i].0]
            == us[i].1,
    decreases us.len(),
{
    if i == us.len() - 1 {
    } else {
        assert(us.drop_last()[i] == us[i]);
        lemma_last_write_wins(m, us.drop_last(), i);
        assert(us.last() == us[us.len() - 1]);
        assert(us.last().0 != us[i].0);
    }
}

/// A price no update in the batch touches keeps its standing: it is in the
/// contents afterward exactly when it was before, with the same quantity.
pub proof fn lemma_untouched_key(m: Map<u64, u64>, us: Seq<(u64, u64)>, k: u64)
    requires
        forall|j: int| 0 <= j < us.len() ==> #[trigger] us[j].0 != k,
    ensures
        spec_apply(m, us).dom().contains(k) == m.dom().contains(k),
        m.dom().contains(k) ==> spec_apply(m, us)[k] == m[k],
    decreases us.len(),
{
    if us.len() > 0 {
        lemma_untouched_key(m, us.drop_last(), k);
        assert(us.last() == us[us.len() - 1]);
    }
}

/// On an initially empty side, every price present after a batch was put
/// there by some update of the batch, so a query never invents a level.
pub proof fn lemma_only_updates_present(us: Seq<(u64, u64)>, k: u64)
    requires
        spec_apply(Map::<u64, u64>::empty(), us).dom().contains(k),
    ensures
        exists|j: int| 0 <= j < us.len() && #[trigger] us[j].0 == k,
{
    if forall|j: int| 0 <= j < us.len() ==> #[trigger] us[j].0 != k {
        lemma_untouched_key(Map::<u64, u64>::empty(), us, k);
    }
}

/// Every quantity present after a batch is either one the contents already
/// held or the exact quantity of some update in the batch: a query can
/// only ever surface a whole stored pattern, never a mixture of two.
pub proof fn lemma_values_come_from_updates(m: Map<u64, u64>, us: Seq<(u64, u64)>, k: u64)
    requires
        spec_apply(m, us).dom().contains(k),
    ensures
        (m.dom().contains(k) && spec_apply(m, us)[k] == m[k]) || exists|j: int|
            0 <= j < us.len() && #[trigger] us[j] == (k, spec_apply(m, us)[k]),
    decreases us.len(),
{
    if us.len() > 0 {
        let last = us.last();
        if last.0 == k {
            assert(!is_zero_qty(last.1));
            assert(us[us.len() - 1] == (k, spec_apply(m, us)[k]));
        } else {
            lemma_values_come_from_updates(m, us.drop_last(), k);
            if exists|j: int|
                0 <= j < us.drop_last().len() && #[trigger] us.drop_last()[j] == (
                k,
                spec_apply(m, us.drop_last())[k],
            ) {
                let j = choose|j: int|
                    0 <= j < us.drop_last().len() && #[trigger] us.drop_last()[j] == (
                    k,
                    spec_apply(m, us.drop_last())[k],
                );
                assert(us[j] == (k, spec_apply(m, us)[k]));
            }
        }
    }
}

/// Batches compose: applying one batch and then another is applying their
/// concatenation, so the write handle may split a feed anywhere.
pub proof fn lemma_apply_append(m: Map<u64, u64>, us1: Seq<(u64, u64)>, us2: Seq<(u64, u64)>)
    ensures
        spec_apply(spec_apply(m, us1), us2) == spec_apply(m, us1 + us2),
    decreases us2.len(),
{
    if us2.len() == 0 {
        assert(us1 + us2 =~= us1);
    } else {
        lemma_apply_append(m, us1, us2.drop_last());
        assert((us1 + us2).drop_last() =~= us1 + us2.drop_last());
        assert((us1 + us2).last() == us2.last());
    }
}

/// A single update means exactly one step of [`spec_update`].
pub proof fn lemma_apply_one(m: Map<u64, u64>, price: u64, qty: u64)
    ensures
        spec_apply(m, seq![(price, qty)]) == spec_update(m, price, qty),
{
    assert(seq![(price, qty)].drop_last() =~= Seq::<(u64, u64)>::empty());
    assert(spec_apply(m, Seq::<(u64, u64)>::empty()) == m);
    assert(seq![(price, qty)].last() == (price, qty));
}

} // verus!
