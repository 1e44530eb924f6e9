//! One side of the book: a store of price levels, keyed by price, holding
//! the 64-bit quantity pattern of each level. Its ghost contents are a
//! `Map<u64, u64>` from price to quantity bits; an update with a zero
//! quantity removes the level, any other update inserts or overwrites it,
//! and the best level is the extreme key currently present.

use crate::is_zero_qty;
use crate::qty_is_zero;
use vstd::prelude::*;

verus! {

/// The ghost contents of a sequence of `(price, quantity)` entries:
/// the map that sends each price that occurs to the quantity beside it
/// (the last occurrence winning, though a well-formed store never holds
/// a price twice).
pub open spec fn map_of(s: Seq<(u64, u64)>) -> Map<u64, u64>
    decreases s.len(),
{
    if s.len() == 0 {
        Map::empty()
    } else {
        map_of(s.drop_last()).insert(s.last().0, s.last().1)
    }
}

/// What a single `(price, qty)` update does to a side's contents: a zero
/// quantity deletes the price level, any other quantity sets it.
pub open spec fn spec_update(m: Map<u64, u64>, price: u64, qty: u64) -> Map<u64, u64> {
    if is_zero_qty(qty) {
        m.remove(price)
    } else {
        m.insert(price, qty)
    }
}

/// What a batch of updates, applied in order, does to a side's contents.
pub open spec fn spec_apply(m: Map<u64, u64>, us: Seq<(u64, u64)>) -> Map<u64, u64>
    decreases us.len(),
{
    if us.len() == 0 {
        m
    } else {
        spec_update(spec_apply(m, us.drop_last()), us.last().0, us.last().1)
    }
}

/// No price occurs twice among the entries.
pub open spec fn uniq_keys(s: Seq<(u64, u64)>) -> bool {
    forall|i: int, j: int| 0 <= i < j < s.len() ==> s[i].0 != s[j].0
}

/// No entry carries a zero quantity pattern.
pub open spec fn nonzero_vals(s: Seq<(u64, u64)>) -> bool {
    forall|i: int| 0 <= i < s.len() ==> !is_zero_qty(#[trigger] s[i].1)
}

/// A price is in the ghost contents exactly when some entry carries it.
proof fn lemma_map_of_dom(s: Seq<(u64, u64)>, k: u64)
    ensures
        map_of(s).dom().contains(k) <==> exists|i: int| 0 <= i < s.len() && #[trigger] s[i].0 == k,
    decreases s.len(),
{
    if s.len() > 0 {
        lemma_map_of_dom(s.drop_last(), k);
        if s.last().0 == k {
            assert(s[s.len() - 1].0 == k);
        } else if map_of(s).dom().contains(k) {
            let i = choose|i: int| 0 <= i < s.drop_last().len() && #[trigger] s.drop_last()[i].0 == k;
            assert(s[i].0 == k);
        } else if exists|i: int| 0 <= i < s.len() && #[trigger] s[i].0 == k {
            let i = choose|i: int| 0 <= i < s.len() && #[trigger] s[i].0 == k;
            assert(s.drop_last()[i].0 == k);
        }
    }
}

/// In a store without repeated prices, the ghost contents map each entry's
/// price to that entry's quantity.
proof fn lemma_map_of_at(s: Seq<(u64, u64)>, i: int)
    requires
        uniq_keys(s),
        0 <= i < s.len(),
    ensures
        map_of(s).dom().contains(s[i].0),
        map_of(s)[s[i].0] == s[i].1,
    decreases s.len(),
{
    if i == s.len() - 1 {
    } else {
        lemma_map_of_at(s.drop_last(), i);
        assert(s.drop_last()[i] == s[i]);
        assert(s[i].0 != s.last().0);
    }
}

/// Removing the one entry that carries a price removes exactly that price
/// from the ghost contents.
proof fn lemma_map_of_remove(s: Seq<(u64, u64)>, i: int)
    requires
        uniq_keys(s),
        0 <= i < s.len(),
    ensures
        map_of(s.remove(i)) == map_of(s).remove(s[i].0),
    decreases s.len(),
{
    let k = s[i].0;
    if i == s.len() - 1 {
        assert(s.remove(i) =~= s.drop_last());
        lemma_map_of_dom(s.drop_last(), k);
        assert(forall|j: int|
            0 <= j < s.drop_last().len() ==> #[trigger] s.drop_last()[j].0 != k);
        assert(!map_of(s.drop_last()).dom().contains(k));
        assert(map_of(s).remove(k) =~= map_of(s.drop_last()));
    } else {
        assert(s.remove(i).drop_last() =~= s.drop_last().remove(i));
        assert(s.remove(i).last() == s.last());
        assert(uniq_keys(s.drop_last()));
        lemma_map_of_remove(s.drop_last(), i);
        assert(s.drop_last()[i] == s[i]);
        assert(map_of(s.remove(i)) == map_of(s.drop_last()).remove(k).insert(s.last().0, s.last().1));
        assert(s.last().0 != k);
        assert(map_of(s.drop_last()).remove(k).insert(s.last().0, s.last().1) =~= map_of(
            s,
        ).remove(k));
    }
}

/// One side of the book: price levels with their quantity bit patterns,
/// each price held at most once.
pub struct SideStore {
    entries: Vec<(u64, u64)>,
}

impl View for SideStore {
    type V = Map<u64, u64>;

    /// The side as a map from price to quantity bits.
    closed spec fn view(&self) -> Map<u64, u64> {
        map_of(self.entries@)
    }
}

impl SideStore {
    /// Prices are unique and every stored quantity pattern is nonzero:
    /// a zero quantity is a deletion signal and is never stored.
    pub closed spec fn wf(self) -> bool {
        uniq_keys(self.entries@) && nonzero_vals(self.entries@)
    }

    /// An empty side.
    pub fn new() -> (r: SideStore)
        ensures
            r.wf(),
            r@ == Map::<u64, u64>::empty(),
    {
        SideStore { entries: Vec::new() }
    }

    /// The index of the entry holding `price`, if any.
    fn find(&self, price: u64) -> (r: Option<usize>)
        ensures
            match r {
                Some(i) => i < self.entries@.len() && self.entries@[i as int].0 == price,
                None => forall|j: int| 0 <= j < self.entries@.len() ==> #[trigger] self.entries@[j].0 != price,
            },
    {
        let mut i: usize = 0;
        while i < self.entries.len()
            invariant
                i <= self.entries@.len(),
                forall|j: int| 0 <= j < i ==> #[trigger] self.entries@[j].0 != price,
            decreases self.entries@.len() - i,
        {
            if self.entries[i].0 == price {
                return Some(i);
            }
            i = i + 1;
        }
        None
    }

    /// Every stored value of a well-formed side is a nonzero pattern.
    pub proof fn lemma_wf_values(self)
        requires
            self.wf(),
        ensures
            forall|k: u64| self@.dom().contains(k) ==> !is_zero_qty(#[trigger] self@[k]),
    {
        assert forall|k: u64| self@.dom().contains(k) implies !is_zero_qty(#[trigger] self@[k]) by {
            lemma_map_of_dom(self.entries@, k);
            let i = choose|i: int| 0 <= i < self.entries@.len() && #[trigger] self.entries@[i].0 == k;
            lemma_map_of_at(self.entries@, i);
        }
    }

    /// Apply one `(price, qty)` update: a zero quantity removes the level
    /// (a no-op if absent), any other quantity inserts or overwrites it.
    pub fn update(&mut self, price: u64, qty: u64)
        requires
            old(self).wf(),
        ensures
            final(self).wf(),
            final(self)@ == spec_update(old(self)@, price, qty),
    {
        let found = self.find(price);
        if qty_is_zero(qty) {
            match found {
                Some(i) => {
                    proof {
                        lemma_map_of_remove(self.entries@, i as int);
                    }
                    self.entries.remove(i);
                },
                None => {
                    proof {
                        lemma_map_of_dom(self.entries@, price);
                        assert(self@ =~= self@.remove(price));
                    }
                },
            }
        } else {
            match found {
                Some(i) => {
                    let ghost s0 = self.entries@;
                    proof {
                        lemma_map_of_remove(s0, i as int);
                    }
                    self.entries.remove(i);
                    self.entries.push((price, qty));
                    proof {
                        assert(self.entries@.drop_last() =~= s0.remove(i as int));
                        assert(map_of(self.entries@) =~= map_of(s0).insert(price, qty));
                        assert forall|a: int, b: int|
                            0 <= a < b < self.entries@.len() implies self.entries@[a].0
                            != self.entries@[b].0 by {
                            if b == self.entries@.len() - 1 {
                                if a < i {
                                    assert(s0[a].0 != s0[i as int].0);
                                } else {
                                    assert(s0[a + 1].0 != s0[i as int].0);
                                }
                            }
                        }
                    }
                },
                None => {
                    self.entries.push((price, qty));
                    proof {
                        assert(self.entries@.drop_last() =~= old(self).entries@);
                    }
                },
            }
        }
    }

    /// Apply a batch of updates in order.
    pub fn apply(&mut self, updates: &[(u64, u64)])
        requires
            old(self).wf(),
        ensures
            final(self).wf(),
            final(self)@ == spec_apply(old(self)@, updates@),
    {
        let ghost m0 = self@;
        let mut i: usize = 0;
        while i < updates.len()
            invariant
                i <= updates@.len(),
                self.wf(),
                self@ == spec_apply(m0, updates@.take(i as int)),
            decreases updates@.len() - i,
        {
            let (price, qty) = updates[i];
            self.update(price, qty);
            proof {
                assert(updates@.take(i + 1).drop_last() =~= updates@.take(i as int));
                assert(updates@.take(i + 1).last() == updates@[i as int]);
            }
            i = i + 1;
        }
        proof {
            assert(updates@.take(updates@.len() as int) =~= updates@);
        }
    }

    /// The level with the greatest price, or `None` exactly when the side
    /// is empty.
    pub fn best_max(&self) -> (r: Option<(u64, u64)>)
        requires
            self.wf(),
        ensures
            match r {
                None => self@ == Map::<u64, u64>::empty(),
                Some(pq) => self@.dom().contains(pq.0) && self@[pq.0] == pq.1 && !is_zero_qty(pq.1)
                    && forall|k: u64| self@.dom().contains(k) ==> k <= pq.0,
            },
    {
        if self.entries.len() == 0 {
            proof {
                assert(self@ =~= Map::<u64, u64>::empty());
            }
            return None;
        }
        let mut best: usize = 0;
        let mut i: usize = 1;
        while i < self.entries.len()
            invariant
                1 <= i <= self.entries@.len(),
                best < i,
                forall|j: int| 0 <= j < i ==> #[trigger] self.entries@[j].0 <= self.entries@[best as int].0,
            decreases self.entries@.len() - i,
        {
            if self.entries[i].0 > self.entries[best].0 {
                best = i;
            }
            i = i + 1;
        }
        let pq = self.entries[best];
        proof {
            lemma_map_of_at(self.entries@, best as int);
            assert forall|k: u64| self@.dom().contains(k) implies k <= pq.0 by {
                lemma_map_of_dom(self.entries@, k);
                let j = choose|j: int|
                    0 <= j < self.entries@.len() && #[trigger] self.entries@[j].0 == k;
                assert(self.entries@[j].0 <= self.entries@[best as int].0);
            }
        }
        Some(pq)
    }

    /// The level with the least price, or `None` exactly when the side
    /// is empty.
    pub fn best_min(&self) -> (r: Option<(u64, u64)>)
        requires
            self.wf(),
        ensures
            match r {
                None => self@ == Map::<u64, u64>::empty(),
                Some(pq) => self@.dom().contains(pq.0) && self@[pq.0] == pq.1 && !is_zero_qty(pq.1)
                    && forall|k: u64| self@.dom().contains(k) ==> k >= pq.0,
            },
    {
        if self.entries.len() == 0 {
            proof {
                assert(self@ =~= Map::<u64, u64>::empty());
            }
            return None;
        }
        let mut best: usize = 0;
        let mut i: usize = 1;
        while i < self.entries.len()
            invariant
                1 <= i <= self.entries@.len(),
                best < i,
                forall|j: int| 0 <= j < i ==> #[trigger] self.entries@[j].0 >= self.entries@[best as int].0,
            decreases self.entries@.len() - i,
        {
            if self.entries[i].0 < self.entries[best].0 {
                best = i;
            }
            i = i + 1;
        }
        let pq = self.entries[best];
        proof {
            lemma_map_of_at(self.entries@, best as int);
            assert forall|k: u64| self@.dom().contains(k) implies k >= pq.0 by {
                lemma_map_of_dom(self.entries@, k);
                let j = choose|j: int|
                    0 <= j < self.entries@.len() && #[trigger] self.entries@[j].0 == k;
                assert(self.entries@[j].0 >= self.entries@[best as int].0);
            }
        }
        Some(pq)
    }
}

} // verus!
