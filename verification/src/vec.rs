//! An owning, growable sequence that always holds at least one element.

use vstd::prelude::*;
use vstd::pervasive::cloned;
use vstd::slice::slice_subrange;
use vstd::std_specs::cmp::PartialEqSpec;

use crate::algo;
use crate::positive::PositiveUsize;
use crate::slice::NonEmptySlice;
use crate::slice::iter::NonEmptyIter;

verus! {

/// Error returned by the fallible constructor when the input holds no
/// elements.
#[derive(Debug, PartialEq, Eq)]
pub struct Empty;

impl Empty {
    /// A human-readable description of the error.
    pub fn message(&self) -> (m: &'static str)
        ensures
            m@ == "empty vec"@,
    {
        "empty vec"
    }
}

/// An owning, growable sequence with at least one element at every
/// observable point.
#[derive(Debug, Clone, PartialEq, Eq)]
pub struct NonEmptyVec<T> {
    inner: Vec<T>,
}

impl<T> View for NonEmptyVec<T> {
    type V = Seq<T>;

    closed spec fn view(&self) -> Seq<T> {
        self.inner@
    }
}

/// The contents after removing immediately-adjacent duplicate runs: an
/// element is dropped exactly when it equals (under `eq_spec`) the last
/// element retained before it.
pub open spec fn dedup_seq<T: PartialEq>(s: Seq<T>) -> Seq<T>
    decreases s.len(),
{
    if s.len() <= 1 {
        s
    } else {
        let prefix = dedup_seq(s.drop_last());
        if s.last().eq_spec(&prefix.last()) {
            prefix
        } else {
            prefix.push(s.last())
        }
    }
}

impl<T> NonEmptyVec<T> {
    /// The structural invariant: at least one element.
    pub open spec fn wf(&self) -> bool {
        self@.len() >= 1
    }

    /// Builds a vector holding exactly the one given element.
    pub fn one(first: T) -> (r: NonEmptyVec<T>)
        ensures
            r.wf(),
            r@ == seq![first],
    {
        let mut inner: Vec<T> = Vec::new();
        inner.push(first);
        proof {
            assert(inner@ =~= seq![first]);
        }
        NonEmptyVec { inner }
    }

    /// Builds a vector holding exactly the one given element, reserving room
    /// for at least `capacity` elements. The reservation is a performance
    /// hint only; the contents are the same as those of [`Self::one`].
    pub fn with_capacity(first: T, capacity: usize) -> (r: NonEmptyVec<T>)
        ensures
            r.wf(),
            r@ == seq![first],
    {
        let mut inner: Vec<T> = Vec::with_capacity(capacity);
        inner.push(first);
        proof {
            assert(inner@ =~= seq![first]);
        }
        NonEmptyVec { inner }
    }

    /// Fallible conversion from a plain vector: fails with [`Empty`] exactly
    /// when the input holds no elements, and otherwise wraps it unchanged.
    pub fn try_from_vec(vec: Vec<T>) -> (r: Result<NonEmptyVec<T>, Empty>)
        ensures
            vec@.len() == 0 <==> r is Err,
            r matches Ok(v) ==> v.wf() && v@ == vec@,
    {
        if vec.len() == 0 {
            Err(Empty)
        } else {
            Ok(NonEmptyVec { inner: vec })
        }
    }

    /// Wraps a vector already known to be non-empty; the precondition is
    /// discharged by the verifier rather than checked at runtime.
    pub(crate) fn from_vec_unchecked(vec: Vec<T>) -> (r: NonEmptyVec<T>)
        requires
            vec@.len() >= 1,
        ensures
            r.wf(),
            r@ == vec@,
    {
        NonEmptyVec { inner: vec }
    }

    /// The number of elements.
    pub fn len(&self) -> (n: usize)
        ensures
            n == self@.len(),
    {
        self.inner.len()
    }

    /// The first element; total, because the vector is never empty.
    pub fn first(&self) -> (r: &T)
        requires
            self.wf(),
        ensures
            *r == self@[0],
    {
        &self.inner[0]
    }

    /// Everything after the first element; may be an empty plain slice.
    pub fn tail(&self) -> (r: &[T])
        requires
            self.wf(),
        ensures
            r@ == self@.subrange(1, self@.len() as int),
    {
        let s = self.inner.as_slice();
        slice_subrange(s, 1, s.len())
    }

    /// The last element; total, because the vector is never empty.
    pub fn last(&self) -> (r: &T)
        requires
            self.wf(),
        ensures
            *r == self@[self@.len() - 1],
    {
        &self.inner[self.inner.len() - 1]
    }

    /// Everything before the last element; may be an empty plain slice.
    pub fn init(&self) -> (r: &[T])
        requires
            self.wf(),
        ensures
            r@ == self@.subrange(0, self@.len() - 1),
    {
        let s = self.inner.as_slice();
        slice_subrange(s, 0, s.len() - 1)
    }

    /// Appends an element; growing can never break non-emptiness.
    pub fn push(&mut self, value: T)
        requires
            old(self).wf(),
        ensures
            final(self).wf(),
            final(self)@ == old(self)@.push(value),
    {
        self.inner.push(value);
    }

    /// Reverses the elements in place.
    pub fn reverse(&mut self)
        requires
            old(self).wf(),
        ensures
            final(self).wf(),
            final(self)@ == old(self)@.reverse(),
    {
        algo::reverse_in_place(&mut self.inner);
    }

    /// The first element together with the rest.
    pub fn split_first(&self) -> (r: (&T, &[T]))
        requires
            self.wf(),
        ensures
            *r.0 == self@[0],
            r.1@ == self@.subrange(1, self@.len() as int),
    {
        (self.first(), self.tail())
    }

    /// Everything before the last element together with the last element.
    pub fn split_last(&self) -> (r: (&[T], &T))
        requires
            self.wf(),
        ensures
            r.0@ == self@.subrange(0, self@.len() - 1),
            *r.1 == self@[self@.len() - 1],
    {
        (self.init(), self.last())
    }

    /// Copies the contents into an owned non-empty view.
    pub fn as_non_empty_slice(&self) -> (r: NonEmptySlice<T>) where T: Clone
        requires
            self.wf(),
        ensures
            r.wf(),
            r@.len() == self@.len(),
            forall|i: int| 0 <= i < self@.len() ==> cloned::<T>(self@[i], #[trigger] r@[i]),
    {
        let copy = algo::clone_to_vec(self.inner.as_slice());
        NonEmptySlice::unchecked_boxed(copy)
    }

    /// The plain, invariant-free view of the contents.
    pub fn as_slice(&self) -> (r: &[T])
        ensures
            r@ == self@,
    {
        self.inner.as_slice()
    }

    /// The backing plain vector, borrowed.
    pub fn as_vec(&self) -> (r: &Vec<T>)
        ensures
            r@ == self@,
    {
        &self.inner
    }

    /// Gives up the invariant and hands back the backing plain vector.
    pub fn into_vec(self) -> (r: Vec<T>)
        ensures
            r@ == self@,
    {
        self.inner
    }

    /// Converts into the owned non-empty view, moving the backing storage.
    pub fn into_boxed_slice(self) -> (r: NonEmptySlice<T>)
        requires
            self.wf(),
        ensures
            r.wf(),
            r@ == self@,
    {
        NonEmptySlice::unchecked_boxed(self.inner)
    }

    /// Shortens the vector to `len` elements. The new length is a
    /// [`PositiveUsize`], so a request to shrink to zero elements cannot be
    /// expressed. A length beyond the current one leaves the vector
    /// unchanged.
    pub fn truncate(&mut self, len: PositiveUsize)
        requires
            old(self).wf(),
        ensures
            final(self).wf(),
            len@ <= old(self)@.len() ==> final(self)@ == old(self)@.subrange(0, len@),
            len@ > old(self)@.len() ==> final(self)@ == old(self)@,
    {
        let n = len.get();
        self.inner.truncate(n);
    }

    /// Removes immediately-adjacent duplicate runs, keeping the first
    /// element of each run; elements that merely repeat somewhere later in
    /// the vector are kept. At least the first element always survives.
    pub fn dedup(&mut self) where T: PartialEq
        requires
            old(self).wf(),
        ensures
            final(self).wf(),
            final(self)@[0] == old(self)@[0],
            final(self)@.len() <= old(self)@.len(),
            forall|i: int|
                0 <= i < final(self)@.len() ==> old(self)@.contains(#[trigger] final(self)@[i]),
            T::obeys_eq_spec() ==> final(self)@ == dedup_seq(old(self)@),
    {
        let ghost orig: Seq<T> = self@;
        let mut out: Vec<T> = Vec::new();
        let first = self.inner.remove(0);
        out.push(first);
        let ghost mut k: int = 1;
        proof {
            assert(self.inner@ =~= orig.subrange(1, orig.len() as int));
            assert(orig.subrange(0, 1) =~= seq![orig[0]]);
            assert(out@ =~= seq![orig[0]]);
            assert(orig.contains(out@[0])) by {
                assert(orig[0] == out@[0]);
            }
        }
        while self.inner.len() > 0
            invariant
                1 <= k <= orig.len(),
                self.inner@ == orig.subrange(k, orig.len() as int),
                out@.len() >= 1,
                out@[0] == orig[0],
                out@.len() <= k,
                forall|i: int| 0 <= i < out@.len() ==> orig.contains(#[trigger] out@[i]),
                T::obeys_eq_spec() ==> out@ == dedup_seq(orig.subrange(0, k)),
            decreases self.inner@.len(),
        {
            let ghost out_before = out@;
            let x = self.inner.remove(0);
            proof {
                assert(x == orig[k]);
                assert(self.inner@ =~= orig.subrange(k + 1, orig.len() as int));
            }
            let last_idx = out.len() - 1;
            let prev: &T = &out[last_idx];
            let dup = x == *prev;
            if !dup {
                out.push(x);
            }
            proof {
                k = k + 1;
                assert(orig.contains(orig[k - 1]));
                if T::obeys_eq_spec() {
                    let t = orig.subrange(0, k);
                    assert(t.drop_last() =~= orig.subrange(0, k - 1));
                    assert(t.last() == x);
                    assert(t.len() >= 2);
                    assert(dup == x.eq_spec(&out_before.last()));
                    assert(out@ == dedup_seq(t));
                }
            }
        }
        proof {
            assert(k == orig.len());
            assert(orig.subrange(0, orig.len() as int) =~= orig);
        }
        self.inner = out;
    }

    /// Builds a vector as `init` followed by `last`; total, because the
    /// explicit final element is always present.
    pub fn from_init_last(init: &[T], last: T) -> (r: NonEmptyVec<T>) where T: Clone
        ensures
            r.wf(),
            r@.len() == init@.len() + 1,
            forall|i: int| 0 <= i < init@.len() ==> cloned::<T>(init@[i], #[trigger] r@[i]),
            r@[init@.len() as int] == last,
    {
        let mut inner = algo::clone_to_vec(init);
        inner.push(last);
        NonEmptyVec { inner }
    }

    /// Builds a vector as `first` followed by `tail`; total, because the
    /// explicit first element is always present.
    pub fn from_first_tail(first: T, tail: &[T]) -> (r: NonEmptyVec<T>) where T: Clone
        ensures
            r.wf(),
            r@.len() == tail@.len() + 1,
            r@[0] == first,
            forall|i: int| 0 <= i < tail@.len() ==> cloned::<T>(tail@[i], #[trigger] r@[i + 1]),
    {
        let mut inner: Vec<T> = Vec::new();
        inner.push(first);
        inner.extend_from_slice(tail);
        NonEmptyVec { inner }
    }

    /// Borrows the contents as an iterator that is guaranteed to yield at
    /// least one item.
    pub fn iter<'a>(&'a self) -> (it: NonEmptyIter<'a, T>)
        requires
            self.wf(),
        ensures
            it.wf(),
            it@ == self@,
    {
        NonEmptyIter::new_unchecked(self.inner.as_slice())
    }

    /// Appends every element of `other`, cloned, in order.
    pub fn extend_from_slice(&mut self, other: &[T]) where T: Clone
        requires
            old(self).wf(),
        ensures
            final(self).wf(),
            final(self)@.len() == old(self)@.len() + other@.len(),
            forall|i: int| 0 <= i < old(self)@.len() ==> final(self)@[i] == old(self)@[i],
            forall|i: int|
                old(self)@.len() <= i < final(self)@.len() ==> cloned::<T>(
                    other@[i - old(self)@.len()],
                    #[trigger] final(self)@[i],
                ),
    {
        self.inner.extend_from_slice(other);
    }
}

/// Law: appending an element and then reading the last position gives back
/// exactly the appended element, and the length grows by exactly one. With
/// the contracts of [`NonEmptyVec::push`] and [`NonEmptyVec::last`], this is
/// the statement that `push` followed by `last` returns the just-pushed
/// value.
pub proof fn lemma_push_then_last<T>(s: Seq<T>, x: T)
    ensures
        s.push(x).last() == x,
        s.push(x).len() == s.len() + 1,
{
}

/// Law: reversal is an involution; reversing twice restores the original
/// sequence. With the contract of [`NonEmptyVec::reverse`], two successive
/// calls leave the contents unchanged.
pub proof fn lemma_reverse_involution<T>(s: Seq<T>)
    ensures
        s.reverse().reverse() == s,
{
    assert(s.reverse().reverse() =~= s);
}

/// Law: the round trip through the plain representation always succeeds.
/// The sequence drawn from a non-empty container (via [`NonEmptyVec::into_vec`]
/// or [`NonEmptyVec::as_vec`]) is never empty, so by the contract of
/// [`NonEmptyVec::try_from_vec`] the fallible constructor accepts it and
/// returns a container holding exactly the same elements in the same order.
pub proof fn lemma_round_trip<T>(v: NonEmptyVec<T>)
    requires
        v.wf(),
    ensures
        v@.len() != 0,
{
}

} // verus!
