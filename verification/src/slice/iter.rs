//! An iterator that is guaranteed to yield at least one item.
//!
//! A [`NonEmptyIter`] is created only by borrowing a non-empty container, so
//! its guarantee of at least one item is established at construction and
//! never re-checked. Its [`NonEmptyIter::map`] threads that guarantee through
//! a transformation: collecting the mapped items gives a
//! [`NonEmptyVec`] back directly, with no fallible conversion.

use vstd::prelude::*;

use crate::vec::NonEmptyVec;

verus! {

/// A forward, single-pass, finite iterator over a borrowed run of at least
/// one element.
pub struct NonEmptyIter<'a, T> {
    elems: &'a [T],
    pos: usize,
}

impl<'a, T> View for NonEmptyIter<'a, T> {
    type V = Seq<T>;

    /// The items still to be yielded.
    closed spec fn view(&self) -> Seq<T> {
        self.elems@.subrange(self.pos as int, self.elems@.len() as int)
    }
}

impl<'a, T> NonEmptyIter<'a, T> {
    /// The borrowed run is non-empty and the cursor is within bounds.
    pub closed spec fn wf(&self) -> bool {
        self.elems@.len() >= 1 && self.pos <= self.elems@.len()
    }

    /// Wraps a borrowed run already known to be non-empty; the precondition
    /// is discharged by the verifier rather than checked at runtime.
    pub(crate) fn new_unchecked(elems: &'a [T]) -> (it: NonEmptyIter<'a, T>)
        requires
            elems@.len() >= 1,
        ensures
            it.wf(),
            it@ == elems@,
    {
        let it = NonEmptyIter { elems, pos: 0 };
        proof {
            assert(it@ =~= elems@);
        }
        it
    }

    /// The number of items still to be yielded.
    pub fn len(&self) -> (n: usize)
        requires
            self.wf(),
        ensures
            n == self@.len(),
    {
        self.elems.len() - self.pos
    }

    /// Yields the next item, exactly as iterating the underlying plain run
    /// would.
    pub fn next(&mut self) -> (r: Option<&'a T>)
        requires
            old(self).wf(),
        ensures
            final(self).wf(),
            old(self)@.len() == 0 ==> r is None && final(self)@ == old(self)@,
            old(self)@.len() > 0 ==> (r matches Some(x) && *x == old(self)@[0] && final(self)@
                == old(self)@.subrange(1, old(self)@.len() as int)),
    {
        if self.pos < self.elems.len() {
            let x = &self.elems[self.pos];
            self.pos = self.pos + 1;
            proof {
                assert(self@ =~= old(self)@.subrange(1, old(self)@.len() as int));
            }
            Some(x)
        } else {
            proof {
                assert(self@ =~= old(self)@);
            }
            None
        }
    }

    /// Pairs the iterator with a transformation, producing a lazy mapped
    /// sequence whose collection is total.
    pub fn map<B, F: Fn(&T) -> B>(self, f: F) -> (r: NonEmptyMap<NonEmptyIter<'a, T>, F>)
        ensures
            r.src() == self@,
            r.func() == f,
            self.wf() ==> r.wf(),
    {
        NonEmptyMap::new(self, f)
    }
}

/// A lazy, elementwise-transformed sequence over an underlying iterator.
pub struct NonEmptyMap<I, F> {
    iter: I,
    f: F,
}

impl<I, F> NonEmptyMap<I, F> {
    fn new(iter: I, f: F) -> (r: NonEmptyMap<I, F>)
        ensures
            r == (NonEmptyMap { iter, f }),
    {
        NonEmptyMap { iter, f }
    }
}

impl<'a, A, B, F: Fn(&A) -> B> NonEmptyMap<NonEmptyIter<'a, A>, F> {
    /// The items the transformation will be applied to.
    pub closed spec fn src(self) -> Seq<A> {
        self.iter@
    }

    /// The transformation itself.
    pub closed spec fn func(self) -> F {
        self.f
    }

    /// The underlying iterator is well formed.
    pub closed spec fn wf(self) -> bool {
        self.iter.wf()
    }

    /// Applies the transformation to every remaining item and gathers the
    /// results; total, because the source is a non-empty iterator. The result
    /// has the same length as the source and holds, position by position, an
    /// output of the transformation on the corresponding source item.
    pub fn collect(self) -> (r: NonEmptyVec<B>)
        requires
            self.wf(),
            self.src().len() >= 1,
            forall|i: int| 0 <= i < self.src().len() ==> call_requires(
                self.func(),
                (&self.src()[i],),
            ),
        ensures
            r.wf(),
            r@.len() == self.src().len(),
            forall|i: int| 0 <= i < self.src().len() ==> call_ensures(
                self.func(),
                (&self.src()[i],),
                #[trigger] r@[i],
            ),
    {
        let ghost src = self.src();
        let NonEmptyMap { iter, f } = self;
        let elems = iter.elems;
        let pos0 = iter.pos;
        proof {
            assert(src[0] == elems@[pos0 as int]);
        }
        let x0 = f(&elems[pos0]);
        let mut out = NonEmptyVec::one(x0);
        let mut j = pos0 + 1;
        while j < elems.len()
            invariant
                pos0 < elems@.len(),
                pos0 < j <= elems@.len(),
                src == elems@.subrange(pos0 as int, elems@.len() as int),
                forall|i: int| 0 <= i < src.len() ==> call_requires(f, (&src[i],)),
                out.wf(),
                out@.len() == j - pos0,
                forall|i: int| 0 <= i < out@.len() ==> call_ensures(
                    f,
                    (&src[i],),
                    #[trigger] out@[i],
                ),
            decreases elems@.len() - j,
        {
            proof {
                assert(src[j - pos0] == elems@[j as int]);
            }
            let x = f(&elems[j]);
            out.push(x);
            j = j + 1;
        }
        out
    }
}

} // verus!
