//! An owned view over a sequence in strict ascending order.

use vstd::prelude::*;
use vstd::slice::slice_to_vec;

use crate::order::TotalOrder;
use crate::order::strictly_sorted;
use crate::sorted::vec::SortedVec;

verus! {

/// An owned view over a strictly ascending run of elements; the contents
/// never change after construction.
#[derive(Debug, Clone, PartialEq, Eq)]
pub struct SortedSlice<T> {
    inner: Vec<T>,
}

impl<T> View for SortedSlice<T> {
    type V = Seq<T>;

    closed spec fn view(&self) -> Seq<T> {
        self.inner@
    }
}

impl<T: TotalOrder> SortedSlice<T> {
    /// The structural invariant: strict ascending order between neighbours.
    pub open spec fn wf(&self) -> bool {
        strictly_sorted(self@)
    }

    /// Copies a slice already known to be strictly sorted; the precondition
    /// is discharged by the verifier rather than checked at runtime.
    pub(crate) fn new_unchecked(slice: &[T]) -> (r: SortedSlice<T>) where T: Copy
        requires
            strictly_sorted(slice@),
        ensures
            r.wf(),
            r@ == slice@,
    {
        SortedSlice { inner: slice_to_vec(slice) }
    }

    /// Takes ownership of a vector already known to be strictly sorted; the
    /// precondition is discharged by the verifier rather than checked at
    /// runtime.
    pub(crate) fn unchecked_boxed(vec: Vec<T>) -> (r: SortedSlice<T>)
        requires
            strictly_sorted(vec@),
        ensures
            r.wf(),
            r@ == vec@,
    {
        SortedSlice { inner: vec }
    }

    /// The number of elements.
    pub fn len(&self) -> (n: usize)
        ensures
            n == self@.len(),
    {
        self.inner.len()
    }

    /// The plain, invariant-free view of the contents.
    pub fn as_slice(&self) -> (r: &[T])
        ensures
            r@ == self@,
    {
        self.inner.as_slice()
    }

    /// Copies the contents into an owning sorted vector; the copy preserves
    /// order exactly and never re-sorts.
    pub fn to_vec(&self) -> (r: SortedVec<T>) where T: Copy
        requires
            self.wf(),
        ensures
            r.wf(),
            r@ == self@,
    {
        SortedVec::from_sorted_vec(slice_to_vec(self.inner.as_slice()))
    }
}

} // verus!
