//! A length that is known, by construction, to be at least one.
//!
//! [`crate::vec::NonEmptyVec::truncate`] takes its new length as a
//! [`PositiveUsize`], so asking a non-empty container to shrink to zero
//! elements cannot even be expressed, rather than being rejected at runtime.

use vstd::prelude::*;

verus! {

/// A `usize` that is always at least one.
#[derive(Clone, Copy, PartialEq, Eq, Debug)]
pub struct PositiveUsize {
    value: usize,
}

impl View for PositiveUsize {
    type V = int;

    closed spec fn view(&self) -> int {
        self.value as int
    }
}

impl PositiveUsize {
    #[verifier::type_invariant]
    spec fn positive(self) -> bool {
        self.value >= 1
    }

    /// Wraps `n`, refusing zero: returns `None` exactly when `n` is zero.
    pub fn new(n: usize) -> (r: Option<PositiveUsize>)
        ensures
            n == 0 <==> r is None,
            r matches Some(p) ==> p@ == n,
    {
        if n == 0 {
            None
        } else {
            Some(PositiveUsize { value: n })
        }
    }

    /// The wrapped value, which is always at least one.
    pub fn get(&self) -> (n: usize)
        ensures
            n == self@,
            n >= 1,
    {
        proof {
            use_type_invariant(self);
        }
        self.value
    }
}

} // verus!
