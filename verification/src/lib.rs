//! A concurrent price-level book: one writer applies `(price, quantity)`
//! updates to the bid and ask sides while any number of readers query the
//! best level of each side. Quantities are carried as the 64-bit pattern of
//! a floating-point magnitude, so a reader can never observe a torn value.
//!
//! The per-side stores and the update/query logic live in [`side`];
//! the handle pair, the per-side locks and the teardown protocol live in
//! [`book`]; the laws that relate updates to queries are proved in [`laws`].

pub mod book;
pub mod laws;
pub mod side;

pub use book::orderbook;
pub use book::Deallocated;
pub use book::OrderBookRead;
pub use book::OrderBookWrite;

use vstd::prelude::*;

verus! {

/// The bit patterns that a floating-point quantity of zero may carry
/// (positive and negative zero). An update carrying either one is a
/// deletion signal; neither is ever stored.
pub open spec fn is_zero_qty(q: u64) -> bool {
    q == 0u64 || q == 0x8000_0000_0000_0000u64
}

/// Executable form of [`is_zero_qty`].
pub fn qty_is_zero(q: u64) -> (r: bool)
    ensures
        r == is_zero_qty(q),
{
    q == 0u64 || q == 0x8000_0000_0000_0000u64
}

} // verus!
