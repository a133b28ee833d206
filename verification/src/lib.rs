//! Growable sequences with structural invariants enforced by construction.
//!
//! The containers in this crate carry their invariant in the type: a
//! [`vec::NonEmptyVec`] or [`slice::NonEmptySlice`] always holds at least one
//! element, and a [`sorted::vec::SortedVec`] or [`sorted::slice::SortedSlice`]
//! is always in strict ascending order with no duplicates. Every public
//! operation states in its contract how it preserves the invariant, so call
//! sites never need a defensive emptiness or order check.

mod algo;
pub mod non_empty;
pub mod order;
pub mod positive;
pub mod slice;
pub mod sorted;
pub mod vec;
