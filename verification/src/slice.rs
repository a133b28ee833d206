//! An owned view over a run of at least one element.
//!
//! [`NonEmptySlice`] is the view counterpart of [`crate::vec::NonEmptyVec`]:
//! it owns its backing storage, never changes its length, and exposes the
//! same total accessors. It is reached only by a validating conversion from a
//! plain slice or from a non-empty vector.

pub mod iter;

use vstd::prelude::*;
use vstd::pervasive::cloned;
use vstd::slice::slice_subrange;

use crate::algo;
use crate::positive::PositiveUsize;
use crate::vec::NonEmptyVec;

verus! {

/// Error returned by the fallible constructor when the input holds no
/// elements.
#[derive(Debug, PartialEq, Eq)]
pub struct Empty;

impl Empty {
    /// A human-readable description of the error.
    pub fn message(&self) -> (m: &'static str)
        ensures
            m@ == "empty slice"@,
    {
        "empty slice"
    }
}

/// An owned view over at least one element; the length never changes after
/// construction.
#[derive(Debug, Clone, PartialEq, Eq)]
pub struct NonEmptySlice<T> {
    inner: Vec<T>,
}

impl<T> View for NonEmptySlice<T> {
    type V = Seq<T>;

    closed spec fn view(&self) -> Seq<T> {
        self.inner@
    }
}

impl<T> NonEmptySlice<T> {
    /// The structural invariant: at least one element.
    pub open spec fn wf(&self) -> bool {
        self@.len() >= 1
    }

    /// Fallible conversion from a plain slice: fails with [`Empty`] exactly
    /// when the input has zero length, and otherwise copies it into an owned
    /// view of the same length and contents.
    pub fn try_from_slice(slice: &[T]) -> (r: Result<NonEmptySlice<T>, Empty>) where T: Clone
        ensures
            slice@.len() == 0 <==> r is Err,
            r matches Ok(s) ==> s.wf() && s@.len() == slice@.len() && (forall|i: int|
                0 <= i < slice@.len() ==> cloned::<T>(slice@[i], #[trigger] s@[i])),
    {
        if slice.len() == 0 {
            Err(Empty)
        } else {
            Ok(Self::new_unchecked(slice))
        }
    }

    /// Wraps a slice already known to be non-empty; the precondition is
    /// discharged by the verifier rather than checked at runtime.
    pub(crate) fn new_unchecked(slice: &[T]) -> (r: NonEmptySlice<T>) where T: Clone
        requires
            slice@.len() >= 1,
        ensures
            r.wf(),
            r@.len() == slice@.len(),
            forall|i: int| 0 <= i < slice@.len() ==> cloned::<T>(slice@[i], #[trigger] r@[i]),
    {
        NonEmptySlice { inner: algo::clone_to_vec(slice) }
    }

    /// Takes ownership of a vector already known to be non-empty; the
    /// precondition is discharged by the verifier rather than checked at
    /// runtime.
    pub(crate) fn unchecked_boxed(vec: Vec<T>) -> (r: NonEmptySlice<T>)
        requires
            vec@.len() >= 1,
        ensures
            r.wf(),
            r@ == vec@,
    {
        NonEmptySlice { inner: vec }
    }

    /// The number of elements.
    pub fn len(&self) -> (n: usize)
        ensures
            n == self@.len(),
    {
        self.inner.len()
    }

    /// The length as a value that is positive by construction.
    pub fn non_zero_len(&self) -> (n: PositiveUsize)
        requires
            self.wf(),
        ensures
            n@ == self@.len(),
    {
        PositiveUsize::new(self.inner.len()).unwrap()
    }

    /// The first element; total, because the view is never empty.
    pub fn first(&self) -> (r: &T)
        requires
            self.wf(),
        ensures
            *r == self@[0],
    {
        &self.inner[0]
    }

    /// Everything after the first element; may be an empty plain slice.
    pub fn tail(&self) -> (r: &[T])
        requires
            self.wf(),
        ensures
            r@ == self@.subrange(1, self@.len() as int),
    {
        let s = self.inner.as_slice();
        slice_subrange(s, 1, s.len())
    }

    /// The last element; total, because the view is never empty.
    pub fn last(&self) -> (r: &T)
        requires
            self.wf(),
        ensures
            *r == self@[self@.len() - 1],
    {
        &self.inner[self.inner.len() - 1]
    }

    /// Everything before the last element; may be an empty plain slice.
    pub fn init(&self) -> (r: &[T])
        requires
            self.wf(),
        ensures
            r@ == self@.subrange(0, self@.len() - 1),
    {
        let s = self.inner.as_slice();
        slice_subrange(s, 0, s.len() - 1)
    }

    /// The first element together with the rest.
    pub fn split_first(&self) -> (r: (&T, &[T]))
        requires
            self.wf(),
        ensures
            *r.0 == self@[0],
            r.1@ == self@.subrange(1, self@.len() as int),
    {
        (self.first(), self.tail())
    }

    /// Everything before the last element together with the last element.
    pub fn split_last(&self) -> (r: (&[T], &T))
        requires
            self.wf(),
        ensures
            r.0@ == self@.subrange(0, self@.len() - 1),
            *r.1 == self@[self@.len() - 1],
    {
        (self.init(), self.last())
    }

    /// The plain, invariant-free view of the contents.
    pub fn as_slice(&self) -> (r: &[T])
        ensures
            r@ == self@,
    {
        self.inner.as_slice()
    }

    /// Replaces the element at position `i` in place. This is the only
    /// mutation the view offers besides reversal: an element can change, the
    /// length cannot.
    pub fn replace_at(&mut self, i: usize, value: T)
        requires
            old(self).wf(),
            i < old(self)@.len(),
        ensures
            final(self).wf(),
            final(self)@ == old(self)@.update(i as int, value),
    {
        self.inner[i] = value;
    }

    /// Reverses the elements in place; the length is unchanged.
    pub fn reverse(&mut self)
        requires
            old(self).wf(),
        ensures
            final(self).wf(),
            final(self)@ == old(self)@.reverse(),
    {
        algo::reverse_in_place(&mut self.inner);
    }

    /// Copies the contents into an owning non-empty vector.
    pub fn to_non_empty_vec(&self) -> (r: NonEmptyVec<T>) where T: Clone
        requires
            self.wf(),
        ensures
            r.wf(),
            r@.len() == self@.len(),
            forall|i: int| 0 <= i < self@.len() ==> cloned::<T>(self@[i], #[trigger] r@[i]),
    {
        NonEmptyVec::from_vec_unchecked(algo::clone_to_vec(self.inner.as_slice()))
    }
}

} // verus!
