//! An owning sequence kept in strict ascending order with no duplicates.

use vstd::prelude::*;

use crate::order::Comparison;
use crate::order::TotalOrder;
use crate::order::strictly_sorted;
use crate::sorted::slice::SortedSlice;

verus! {

/// An owning sequence in strict ascending order: every element comes before
/// the next, so no two elements are equal. Unlike the non-empty family, zero
/// length is a valid state.
#[derive(Debug, Clone, PartialEq, Eq)]
pub struct SortedVec<T> {
    inner: Vec<T>,
}

impl<T> View for SortedVec<T> {
    type V = Seq<T>;

    closed spec fn view(&self) -> Seq<T> {
        self.inner@
    }
}

/// Appending one element to a sequence adds exactly that element to what the
/// sequence contains.
proof fn lemma_push_contains<T>(s: Seq<T>, v: T, y: T)
    ensures
        s.push(v).contains(y) <==> (s.contains(y) || y == v),
{
    if s.push(v).contains(y) {
        let i = choose|i: int| 0 <= i < s.push(v).len() && s.push(v)[i] == y;
        if i < s.len() {
            assert(s[i] == y);
        }
    }
    if s.contains(y) {
        let i = choose|i: int| 0 <= i < s.len() && s[i] == y;
        assert(s.push(v)[i] == y);
    }
    if y == v {
        assert(s.push(v)[s.len() as int] == y);
    }
}

/// Inserting one element into a sequence adds exactly that element to what
/// the sequence contains.
proof fn lemma_insert_contains<T>(s: Seq<T>, pos: int, v: T, y: T)
    requires
        0 <= pos <= s.len(),
    ensures
        s.insert(pos, v).contains(y) <==> (s.contains(y) || y == v),
{
    s.insert_ensures(pos, v);
    let t = s.insert(pos, v);
    if t.contains(y) {
        let i = choose|i: int| 0 <= i < t.len() && t[i] == y;
        if i < pos {
            assert(s[i] == y);
        } else if i > pos {
            assert(s[i - 1] == y);
        }
    }
    if s.contains(y) {
        let i = choose|i: int| 0 <= i < s.len() && s[i] == y;
        if i < pos {
            assert(t[i] == y);
        } else {
            assert(t[i + 1] == y);
        }
    }
    if y == v {
        assert(t[pos] == y);
    }
}

impl<T: TotalOrder> SortedVec<T> {
    /// The structural invariant: strict ascending order between neighbours.
    pub open spec fn wf(&self) -> bool {
        strictly_sorted(self@)
    }

    /// The canonical zero-length sorted sequence.
    pub fn empty() -> (r: SortedVec<T>)
        ensures
            r.wf(),
            r@ == Seq::<T>::empty(),
    {
        SortedVec { inner: Vec::new() }
    }

    /// Copies the contents into an owned sorted view; the copy preserves
    /// order exactly and never re-sorts.
    pub fn as_sorted_slice(&self) -> (r: SortedSlice<T>) where T: Copy
        requires
            self.wf(),
        ensures
            r.wf(),
            r@ == self@,
    {
        SortedSlice::new_unchecked(self.inner.as_slice())
    }

    /// The plain, invariant-free view of the contents.
    pub fn as_slice(&self) -> (r: &[T])
        ensures
            r@ == self@,
    {
        self.inner.as_slice()
    }

    /// Gives up the invariant and hands back the backing plain vector.
    pub fn into_vec(self) -> (r: Vec<T>)
        ensures
            r@ == self@,
    {
        self.inner
    }

    /// Converts into the owned sorted view, moving the backing storage.
    pub fn into_boxed_slice(self) -> (r: SortedSlice<T>)
        requires
            self.wf(),
        ensures
            r.wf(),
            r@ == self@,
    {
        SortedSlice::unchecked_boxed(self.inner)
    }

    /// Wraps a vector already known to be strictly sorted; the precondition
    /// is discharged by the verifier rather than checked at runtime.
    pub(crate) fn from_sorted_vec(vec: Vec<T>) -> (r: SortedVec<T>)
        requires
            strictly_sorted(vec@),
        ensures
            r.wf(),
            r@ == vec@,
    {
        SortedVec { inner: vec }
    }

    /// Sorts an arbitrary vector into strict ascending order, removing
    /// duplicates: the result is strictly sorted and holds exactly the
    /// elements of the input, each once. Those two facts determine the
    /// result uniquely.
    pub fn sort_vec(vec: Vec<T>) -> (r: SortedVec<T>)
        ensures
            r.wf(),
            r@.len() <= vec@.len(),
            forall|y: T|
                #![trigger r@.contains(y)]
                #![trigger vec@.contains(y)]
                r@.contains(y) <==> vec@.contains(y),
    {
        let ghost orig = vec@;
        let mut input = vec;
        let mut out: Vec<T> = Vec::new();
        let ghost mut k: int = 0;
        proof {
            assert(input@ =~= orig.subrange(0, orig.len() as int));
        }
        while input.len() > 0
            invariant
                0 <= k <= orig.len(),
                input@ == orig.subrange(k, orig.len() as int),
                strictly_sorted(out@),
                out@.len() <= k,
                forall|y: T| #[trigger]
                    out@.contains(y) <==> orig.subrange(0, k).contains(y),
            decreases input@.len(),
        {
            let x = input.remove(0);
            proof {
                assert(x == orig[k]);
                assert(input@ =~= orig.subrange(k + 1, orig.len() as int));
            }
            let ghost before = out@;
            let mut j: usize = 0;
            let mut dup = false;
            let mut stop = false;
            while j < out.len() && !stop
                invariant
                    j <= out@.len(),
                    out@ == before,
                    forall|i: int| 0 <= i < j ==> #[trigger] out@[i].lt_spec(x),
                    stop ==> j < out@.len(),
                    stop && dup ==> out@[j as int] == x,
                    stop && !dup ==> x.lt_spec(out@[j as int]),
                    !stop ==> !dup,
                decreases out@.len() - j + (if stop {
                    0int
                } else {
                    1int
                }),
            {
                match x.compare(&out[j]) {
                    Comparison::Greater => {
                        j = j + 1;
                    },
                    Comparison::Equivalent => {
                        dup = true;
                        stop = true;
                    },
                    Comparison::Lesser => {
                        stop = true;
                    },
                }
            }
            if dup {
                proof {
                    assert forall|y: T| #[trigger]
                        out@.contains(y) <==> (before.contains(y) || y == x) by {
                        if y == x {
                            assert(out@[j as int] == y);
                            assert(out@.contains(y));
                        }
                    }
                }
            } else if j == out.len() {
                out.push(x);
                proof {
                    assert forall|i: int| 0 <= i && i + 1 < out@.len() implies #[trigger] out@[i].lt_spec(
                        out@[i + 1],
                    ) by {
                        if i + 1 < before.len() {
                            assert(before[i].lt_spec(before[i + 1]));
                        } else {
                            assert(out@[i] == before[i]);
                            assert(out@[i + 1] == x);
                        }
                    }
                    assert forall|y: T| #[trigger]
                        out@.contains(y) <==> (before.contains(y) || y == x) by {
                        lemma_push_contains(before, x, y);
                    }
                }
            } else {
                out.insert(j, x);
                proof {
                    before.insert_ensures(j as int, x);
                    assert forall|i: int| 0 <= i && i + 1 < out@.len() implies #[trigger] out@[i].lt_spec(
                        out@[i + 1],
                    ) by {
                        if i + 1 < j {
                            assert(out@[i] == before[i]);
                            assert(out@[i + 1] == before[i + 1]);
                        } else if i + 1 == j {
                            assert(out@[i] == before[i]);
                            assert(out@[i + 1] == x);
                        } else if i == j {
                            assert(out@[i] == x);
                            assert(out@[i + 1] == before[i]);
                            assert(x.lt_spec(before[j as int]));
                        } else {
                            assert(out@[i] == before[i - 1]);
                            assert(out@[i + 1] == before[i]);
                            assert(before[i - 1].lt_spec(before[i]));
                        }
                    }
                    assert forall|y: T| #[trigger]
                        out@.contains(y) <==> (before.contains(y) || y == x) by {
                        lemma_insert_contains(before, j as int, x, y);
                    }
                }
            }
            proof {
                k = k + 1;
                assert(orig.subrange(0, k) =~= orig.subrange(0, k - 1).push(orig[k - 1]));
                assert forall|y: T| #[trigger]
                    out@.contains(y) <==> orig.subrange(0, k).contains(y) by {
                    lemma_push_contains(orig.subrange(0, k - 1), orig[k - 1], y);
                }
            }
        }
        proof {
            assert(orig.subrange(0, orig.len() as int) =~= orig);
        }
        SortedVec { inner: out }
    }
}

} // verus!
