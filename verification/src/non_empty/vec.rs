//! The reduced owning, growable sequence that always holds at least one
//! element.

use vstd::prelude::*;
use vstd::pervasive::cloned;
use vstd::slice::slice_subrange;

use crate::algo;
use crate::non_empty::slice::NonEmptySlice;

verus! {

/// Error returned by the fallible constructor when the input holds no
/// elements.
#[derive(Debug, PartialEq, Eq)]
pub struct Empty;

/// An owning, growable sequence with at least one element at every
/// observable point.
#[derive(Debug, Clone, PartialEq, Eq)]
pub struct NonEmptyVec<T> {
    inner: Vec<T>,
}

impl<T> View for NonEmptyVec<T> {
    type V = Seq<T>;

    closed spec fn view(&self) -> Seq<T> {
        self.inner@
    }
}

impl<T> NonEmptyVec<T> {
    /// The structural invariant: at least one element.
    pub open spec fn wf(&self) -> bool {
        self@.len() >= 1
    }

    /// Builds a vector holding exactly the one given element.
    pub fn one(first: T) -> (r: NonEmptyVec<T>)
        ensures
            r.wf(),
            r@ == seq![first],
    {
        let mut inner: Vec<T> = Vec::new();
        inner.push(first);
        proof {
            assert(inner@ =~= seq![first]);
        }
        NonEmptyVec { inner }
    }

    /// Builds a vector holding exactly the one given element, reserving room
    /// for at least `capacity` elements. The reservation is a performance
    /// hint only; the contents are the same as those of [`Self::one`].
    pub fn with_capacity(first: T, capacity: usize) -> (r: NonEmptyVec<T>)
        ensures
            r.wf(),
            r@ == seq![first],
    {
        let mut inner: Vec<T> = Vec::with_capacity(capacity);
        inner.push(first);
        proof {
            assert(inner@ =~= seq![first]);
        }
        NonEmptyVec { inner }
    }

    /// Fallible conversion from a plain vector: fails with [`Empty`] exactly
    /// when the input holds no elements, and otherwise wraps it unchanged.
    pub fn try_from_vec(vec: Vec<T>) -> (r: Result<NonEmptyVec<T>, Empty>)
        ensures
            vec@.len() == 0 <==> r is Err,
            r matches Ok(v) ==> v.wf() && v@ == vec@,
    {
        if vec.len() == 0 {
            Err(Empty)
        } else {
            Ok(NonEmptyVec { inner: vec })
        }
    }

    /// Wraps a vector already known to be non-empty; the precondition is
    /// discharged by the verifier rather than checked at runtime.
    pub(crate) fn from_vec_unchecked(vec: Vec<T>) -> (r: NonEmptyVec<T>)
        requires
            vec@.len() >= 1,
        ensures
            r.wf(),
            r@ == vec@,
    {
        NonEmptyVec { inner: vec }
    }

    /// The number of elements.
    pub fn len(&self) -> (n: usize)
        ensures
            n == self@.len(),
    {
        self.inner.len()
    }

    /// The first element; total, because the vector is never empty.
    pub fn first(&self) -> (r: &T)
        requires
            self.wf(),
        ensures
            *r == self@[0],
    {
        &self.inner[0]
    }

    /// Everything after the first element; may be an empty plain slice.
    pub fn tail(&self) -> (r: &[T])
        requires
            self.wf(),
        ensures
            r@ == self@.subrange(1, self@.len() as int),
    {
        let s = self.inner.as_slice();
        slice_subrange(s, 1, s.len())
    }

    /// The last element; total, because the vector is never empty.
    pub fn last(&self) -> (r: &T)
        requires
            self.wf(),
        ensures
            *r == self@[self@.len() - 1],
    {
        &self.inner[self.inner.len() - 1]
    }

    /// Everything before the last element; may be an empty plain slice.
    pub fn init(&self) -> (r: &[T])
        requires
            self.wf(),
        ensures
            r@ == self@.subrange(0, self@.len() - 1),
    {
        let s = self.inner.as_slice();
        slice_subrange(s, 0, s.len() - 1)
    }

    /// Appends an element; growing can never break non-emptiness.
    pub fn push(&mut self, value: T)
        requires
            old(self).wf(),
        ensures
            final(self).wf(),
            final(self)@ == old(self)@.push(value),
    {
        self.inner.push(value);
    }

    /// Reverses the elements in place.
    pub fn reverse(&mut self)
        requires
            old(self).wf(),
        ensures
            final(self).wf(),
            final(self)@ == old(self)@.reverse(),
    {
        algo::reverse_in_place(&mut self.inner);
    }

    /// The first element together with the rest.
    pub fn split_first(&self) -> (r: (&T, &[T]))
        requires
            self.wf(),
        ensures
            *r.0 == self@[0],
            r.1@ == self@.subrange(1, self@.len() as int),
    {
        (self.first(), self.tail())
    }

    /// Everything before the last element together with the last element.
    pub fn split_last(&self) -> (r: (&[T], &T))
        requires
            self.wf(),
        ensures
            r.0@ == self@.subrange(0, self@.len() - 1),
            *r.1 == self@[self@.len() - 1],
    {
        (self.init(), self.last())
    }

    /// Copies the contents into an owned non-empty view.
    pub fn as_non_empty_slice(&self) -> (r: NonEmptySlice<T>) where T: Clone
        requires
            self.wf(),
        ensures
            r.wf(),
            r@.len() == self@.len(),
            forall|i: int| 0 <= i < self@.len() ==> cloned::<T>(self@[i], #[trigger] r@[i]),
    {
        NonEmptySlice::unchecked_boxed(algo::clone_to_vec(self.inner.as_slice()))
    }

    /// The plain, invariant-free view of the contents.
    pub fn as_slice(&self) -> (r: &[T])
        ensures
            r@ == self@,
    {
        self.inner.as_slice()
    }

    /// The backing plain vector, borrowed.
    pub fn as_vec(&self) -> (r: &Vec<T>)
        ensures
            r@ == self@,
    {
        &self.inner
    }

    /// Gives up the invariant and hands back the backing plain vector.
    pub fn into_vec(self) -> (r: Vec<T>)
        ensures
            r@ == self@,
    {
        self.inner
    }

    /// Converts into the owned non-empty view, moving the backing storage.
    pub fn into_boxed_slice(self) -> (r: NonEmptySlice<T>)
        requires
            self.wf(),
        ensures
            r.wf(),
            r@ == self@,
    {
        NonEmptySlice::unchecked_boxed(self.inner)
    }

    /// Builds a vector as `init` followed by `last`; total, because the
    /// explicit final element is always present.
    pub fn from_init_last(init: &[T], last: T) -> (r: NonEmptyVec<T>) where T: Clone
        ensures
            r.wf(),
            r@.len() == init@.len() + 1,
            forall|i: int| 0 <= i < init@.len() ==> cloned::<T>(init@[i], #[trigger] r@[i]),
            r@[init@.len() as int] == last,
    {
        let mut inner = algo::clone_to_vec(init);
        inner.push(last);
        NonEmptyVec { inner }
    }

    /// Builds a vector as `first` followed by `tail`; total, because the
    /// explicit first element is always present.
    pub fn from_first_tail(first: T, tail: &[T]) -> (r: NonEmptyVec<T>) where T: Clone
        ensures
            r.wf(),
            r@.len() == tail@.len() + 1,
            r@[0] == first,
            forall|i: int| 0 <= i < tail@.len() ==> cloned::<T>(tail@[i], #[trigger] r@[i + 1]),
    {
        let mut inner: Vec<T> = Vec::new();
        inner.push(first);
        inner.extend_from_slice(tail);
        NonEmptyVec { inner }
    }

    /// Appends every element of `other`, cloned, in order.
    pub fn extend_from_slice(&mut self, other: &[T]) where T: Clone
        requires
            old(self).wf(),
        ensures
            final(self).wf(),
            final(self)@.len() == old(self)@.len() + other@.len(),
            forall|i: int| 0 <= i < old(self)@.len() ==> final(self)@[i] == old(self)@[i],
            forall|i: int|
                old(self)@.len() <= i < final(self)@.len() ==> cloned::<T>(
                    other@[i - old(self)@.len()],
                    #[trigger] final(self)@[i],
                ),
    {
        self.inner.extend_from_slice(other);
    }
}

} // verus!
