//! The handle pair over a book. The storage shared by the handles holds one
//! verified reader-writer lock per side; each lock guards that side's store
//! together with the liveness flag. The write handle is the single mutation
//! capability and is not duplicable; releasing it lowers the liveness flags
//! under both exclusive locks, so a reader either finishes its query first
//! or observes the lowered flag and fails with [`Deallocated`]. The storage
//! itself is reference-counted and is freed only when the last handle is
//! gone, so no query can ever touch freed memory.

use crate::is_zero_qty;
use crate::side::spec_apply;
use crate::side::SideStore;
use std::sync::Arc;
use vstd::prelude::*;
use vstd::rwlock::RwLock;
use vstd::rwlock::RwLockPredicate;

verus! {

/// The error a query returns once the write handle has been released. It
/// signals a normal end of life, not a defect: the caller is expected to
/// stop querying this handle and its clones.
#[derive(Debug, Clone, Copy, PartialEq, Eq, Structural)]
pub struct Deallocated;

/// What one side's lock guards: the store and the liveness flag. The flag
/// is true until the write handle's release lowers it.
pub struct SideState {
    pub alive: bool,
    pub store: SideStore,
}

/// The invariant of a side's lock: every value ever stored in the lock
/// holds a well-formed store (unique prices, no zero quantity kept).
pub struct SidePred;

impl RwLockPredicate<SideState> for SidePred {
    open spec fn inv(self, v: SideState) -> bool {
        v.store.wf()
    }
}

/// The storage shared by all handles of one book: a locked side each for
/// bids and asks. The two sides are independent; no query relates them.
pub struct BookShared {
    pub bids: RwLock<SideState, SidePred>,
    pub asks: RwLock<SideState, SidePred>,
}

/// The single, non-duplicable capability to mutate a book. Releasing it is
/// the book's teardown.
pub struct OrderBookWrite {
    shared: Arc<BookShared>,
}

/// A duplicable capability to query a book. It holds a counted reference to
/// the same storage as the write handle and observes the liveness flags.
pub struct OrderBookRead {
    shared: Arc<BookShared>,
}

/// Relies on std's Arc::clone: the returned reference counts the same
/// allocation and so carries the same value.
#[verifier::external_body]
fn arc_clone<T>(a: &Arc<T>) -> (r: Arc<T>)
    ensures
        r == *a,
{
    Arc::clone(a)
}

/// Make a book: empty on both sides, alive, with its write handle and a
/// first read handle sharing the same storage.
pub fn orderbook() -> (r: (OrderBookWrite, OrderBookRead))
    ensures
        r.0.book() == r.1.book(),
{
    let bids = RwLock::new(
        SideState { alive: true, store: SideStore::new() },
        Ghost(SidePred),
    );
    let asks = RwLock::new(
        SideState { alive: true, store: SideStore::new() },
        Ghost(SidePred),
    );
    let shared = Arc::new(BookShared { bids, asks });
    let reader = OrderBookRead { shared: arc_clone(&shared) };
    (OrderBookWrite { shared }, reader)
}

impl OrderBookWrite {
    /// The storage this handle mutates.
    pub closed spec fn book(self) -> Arc<BookShared> {
        self.shared
    }

    /// Apply bid updates in order under the bid side's exclusive lock.
    /// The ghost pair returned holds the bid map observed when the lock
    /// was taken and the map stored back: the new contents are exactly
    /// the batch applied to the old (zero quantities remove their price,
    /// the rest insert or overwrite, the last update to a price winning).
    pub fn update_bids(&mut self, updates: &[(u64, u64)]) -> (r: Ghost<
        (Map<u64, u64>, Map<u64, u64>),
    >)
        ensures
            r@.1 == spec_apply(r@.0, updates@),
            final(self).book() == old(self).book(),
    {
        let (mut state, handle) = self.shared.bids.acquire_write();
        let ghost m0 = state.store@;
        state.store.apply(updates);
        let ghost m1 = state.store@;
        handle.release_write(state);
        Ghost((m0, m1))
    }

    /// Apply ask updates in order under the ask side's exclusive lock;
    /// the contract mirrors [`Self::update_bids`].
    pub fn update_asks(&mut self, updates: &[(u64, u64)]) -> (r: Ghost<
        (Map<u64, u64>, Map<u64, u64>),
    >)
        ensures
            r@.1 == spec_apply(r@.0, updates@),
            final(self).book() == old(self).book(),
    {
        let (mut state, handle) = self.shared.asks.acquire_write();
        let ghost m0 = state.store@;
        state.store.apply(updates);
        let ghost m1 = state.store@;
        handle.release_write(state);
        Ghost((m0, m1))
    }

    /// Tear the book down. Both side locks are taken exclusively, which
    /// drains any reader still inside its shared-lock critical section,
    /// and the liveness flags are lowered before the locks are released;
    /// a later query observes a lowered flag and returns [`Deallocated`].
    /// The storage is freed by the reference count once the last handle
    /// is gone, never under a live reader.
    pub fn release(self) {
        let (mut bid_state, bid_handle) = self.shared.bids.acquire_write();
        let (mut ask_state, ask_handle) = self.shared.asks.acquire_write();
        bid_state.alive = false;
        ask_state.alive = false;
        bid_handle.release_write(bid_state);
        ask_handle.release_write(ask_state);
    }
}

impl OrderBookRead {
    /// The storage this handle queries.
    pub closed spec fn book(self) -> Arc<BookShared> {
        self.shared
    }

    /// The greatest bid level. The ghost value holds the bid map observed
    /// while the shared lock was held, or `None` when the liveness flag was
    /// found lowered: the query returns exactly the maximum price of that
    /// observed map with its quantity bits, `Ok(None)` exactly when the map
    /// was empty, and `Err(Deallocated)` exactly when the book was found
    /// torn down. The quantity may be stale by the time the caller sees it,
    /// but it is a whole value some update stored, never a torn pattern.
    pub fn best_bid(&self) -> (r: (
        Result<Option<(u64, u64)>, Deallocated>,
        Ghost<Option<Map<u64, u64>>>,
    ))
        ensures
            match r.1@ {
                None => r.0 is Err,
                Some(m) => match r.0 {
                    Ok(None) => m == Map::<u64, u64>::empty(),
                    Ok(Some(pq)) => m.dom().contains(pq.0) && m[pq.0] == pq.1 && !is_zero_qty(
                        pq.1,
                    ) && (forall|k: u64| m.dom().contains(k) ==> k <= pq.0),
                    Err(_) => false,
                },
            },
    {
        let handle = self.shared.bids.acquire_read();
        let state = handle.borrow();
        if !state.alive {
            handle.release_read();
            return (Err(Deallocated), Ghost(None));
        }
        let best = state.store.best_max();
        let ghost m = state.store@;
        handle.release_read();
        (Ok(best), Ghost(Some(m)))
    }

    /// The least ask level; the contract mirrors [`Self::best_bid`] with
    /// the minimum price in place of the maximum.
    pub fn best_ask(&self) -> (r: (
        Result<Option<(u64, u64)>, Deallocated>,
        Ghost<Option<Map<u64, u64>>>,
    ))
        ensures
            match r.1@ {
                None => r.0 is Err,
                Some(m) => match r.0 {
                    Ok(None) => m == Map::<u64, u64>::empty(),
                    Ok(Some(pq)) => m.dom().contains(pq.0) && m[pq.0] == pq.1 && !is_zero_qty(
                        pq.1,
                    ) && (forall|k: u64| m.dom().contains(k) ==> k >= pq.0),
                    Err(_) => false,
                },
            },
    {
        let handle = self.shared.asks.acquire_read();
        let state = handle.borrow();
        if !state.alive {
            handle.release_read();
            return (Err(Deallocated), Ghost(None));
        }
        let best = state.store.best_min();
        let ghost m = state.store@;
        handle.release_read();
        (Ok(best), Ghost(Some(m)))
    }
}

impl Clone for OrderBookRead {
    /// Duplicate the read handle. The clone counts one more reference to
    /// the same storage: it queries the same book, and dropping any number
    /// of clones never lowers the liveness flags — only the write handle's
    /// release does.
    fn clone(&self) -> (r: Self)
        ensures
            r.book() == self.book(),
    {
        OrderBookRead { shared: arc_clone(&self.shared) }
    }
}

} // verus!
