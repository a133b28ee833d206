//! A strict total order that the sorted containers are built on.
//!
//! The sorted containers need a three-way comparison whose meaning is known to
//! the verifier, together with the laws of a strict total order. The
//! [`TotalOrder`] trait packages both; this crate implements it for the common
//! integer types, and users may implement it for their own element types.

use vstd::prelude::*;

verus! {

/// Outcome of a three-way comparison.
pub enum Comparison {
    Lesser,
    Equivalent,
    Greater,
}

/// A strict total order on a type, with an executable comparison that agrees
/// with it.
///
/// `lt_spec` is the order itself; the three proof obligations are the laws of
/// a strict total order, and `compare` is the runtime comparison that the
/// sorted containers call.
pub trait TotalOrder: Sized {
    /// The strict "comes before" relation.
    spec fn lt_spec(self, other: Self) -> bool;

    /// No element comes before itself.
    proof fn lemma_irreflexive(a: Self)
        ensures
            !a.lt_spec(a),
    ;

    /// The order composes.
    proof fn lemma_transitive(a: Self, b: Self, c: Self)
        requires
            a.lt_spec(b),
            b.lt_spec(c),
        ensures
            a.lt_spec(c),
    ;

    /// Any two elements are ordered one way or the other, or are equal.
    proof fn lemma_total(a: Self, b: Self)
        ensures
            a.lt_spec(b) || b.lt_spec(a) || a == b,
    ;

    /// Three-way comparison agreeing with `lt_spec`.
    fn compare(&self, other: &Self) -> (c: Comparison)
        ensures
            match c {
                Comparison::Lesser => self.lt_spec(*other),
                Comparison::Equivalent => *self == *other,
                Comparison::Greater => other.lt_spec(*self),
            },
    ;
}

impl TotalOrder for i32 {
    open spec fn lt_spec(self, other: Self) -> bool {
        self < other
    }

    proof fn lemma_irreflexive(a: Self) {
    }

    proof fn lemma_transitive(a: Self, b: Self, c: Self) {
    }

    proof fn lemma_total(a: Self, b: Self) {
    }

    fn compare(&self, other: &Self) -> (c: Comparison) {
        if *self < *other {
            Comparison::Lesser
        } else if *self == *other {
            Comparison::Equivalent
        } else {
            Comparison::Greater
        }
    }
}

impl TotalOrder for i64 {
    open spec fn lt_spec(self, other: Self) -> bool {
        self < other
    }

    proof fn lemma_irreflexive(a: Self) {
    }

    proof fn lemma_transitive(a: Self, b: Self, c: Self) {
    }

    proof fn lemma_total(a: Self, b: Self) {
    }

    fn compare(&self, other: &Self) -> (c: Comparison) {
        if *self < *other {
            Comparison::Lesser
        } else if *self == *other {
            Comparison::Equivalent
        } else {
            Comparison::Greater
        }
    }
}

impl TotalOrder for u32 {
    open spec fn lt_spec(self, other: Self) -> bool {
        self < other
    }

    proof fn lemma_irreflexive(a: Self) {
    }

    proof fn lemma_transitive(a: Self, b: Self, c: Self) {
    }

    proof fn lemma_total(a: Self, b: Self) {
    }

    fn compare(&self, other: &Self) -> (c: Comparison) {
        if *self < *other {
            Comparison::Lesser
        } else if *self == *other {
            Comparison::Equivalent
        } else {
            Comparison::Greater
        }
    }
}

impl TotalOrder for u64 {
    open spec fn lt_spec(self, other: Self) -> bool {
        self < other
    }

    proof fn lemma_irreflexive(a: Self) {
    }

    proof fn lemma_transitive(a: Self, b: Self, c: Self) {
    }

    proof fn lemma_total(a: Self, b: Self) {
    }

    fn compare(&self, other: &Self) -> (c: Comparison) {
        if *self < *other {
            Comparison::Lesser
        } else if *self == *other {
            Comparison::Equivalent
        } else {
            Comparison::Greater
        }
    }
}

impl TotalOrder for usize {
    open spec fn lt_spec(self, other: Self) -> bool {
        self < other
    }

    proof fn lemma_irreflexive(a: Self) {
    }

    proof fn lemma_transitive(a: Self, b: Self, c: Self) {
    }

    proof fn lemma_total(a: Self, b: Self) {
    }

    fn compare(&self, other: &Self) -> (c: Comparison) {
        if *self < *other {
            Comparison::Lesser
        } else if *self == *other {
            Comparison::Equivalent
        } else {
            Comparison::Greater
        }
    }
}

/// Every neighbouring pair is strictly ordered; this is the invariant the
/// sorted containers maintain. It also rules out duplicates, since the order
/// is irreflexive.
pub open spec fn strictly_sorted<T: TotalOrder>(s: Seq<T>) -> bool {
    forall|i: int| 0 <= i && i + 1 < s.len() ==> #[trigger] s[i].lt_spec(s[i + 1])
}

/// In a strictly sorted sequence, every earlier element comes before every
/// later one, not only its neighbour.
pub proof fn lemma_sorted_pairwise<T: TotalOrder>(s: Seq<T>, i: int, j: int)
    requires
        strictly_sorted(s),
        0 <= i < j < s.len(),
    ensures
        s[i].lt_spec(s[j]),
    decreases j - i,
{
    if i + 1 == j {
    } else {
        lemma_sorted_pairwise(s, i, j - 1);
        assert(s[j - 1].lt_spec(s[j - 1 + 1]));
        T::lemma_transitive(s[i], s[j - 1], s[j]);
    }
}

/// In a strictly sorted sequence, the elements after the first are exactly
/// the elements other than the first: the head occurs nowhere else.
proof fn lemma_sorted_tail_contains<T: TotalOrder>(s: Seq<T>, y: T)
    requires
        strictly_sorted(s),
        s.len() >= 1,
    ensures
        s.subrange(1, s.len() as int).contains(y) <==> (s.contains(y) && y != s[0]),
{
    let t = s.subrange(1, s.len() as int);
    if t.contains(y) {
        let i = choose|i: int| 0 <= i < t.len() && t[i] == y;
        assert(s[i + 1] == y);
        assert(s.contains(y));
        lemma_sorted_pairwise(s, 0, i + 1);
        T::lemma_irreflexive(s[0]);
    }
    if s.contains(y) && y != s[0] {
        let i = choose|i: int| 0 <= i < s.len() && s[i] == y;
        assert(i >= 1);
        assert(t[i - 1] == y);
        assert(t.contains(y));
    }
}

/// A strictly sorted sequence is determined by the set of its elements: two
/// strictly sorted sequences that contain the same elements are equal. With
/// the contract of [`crate::sorted::vec::SortedVec::sort_vec`], this pins the
/// sorted result of any input down uniquely.
pub proof fn lemma_sorted_unique<T: TotalOrder>(a: Seq<T>, b: Seq<T>)
    requires
        strictly_sorted(a),
        strictly_sorted(b),
        forall|y: T| #![trigger a.contains(y)] #![trigger b.contains(y)]
            a.contains(y) <==> b.contains(y),
    ensures
        a == b,
    decreases a.len(),
{
    if a.len() == 0 {
        if b.len() > 0 {
            assert(b.contains(b[0]));
            assert(a.contains(b[0]));
            assert(false);
        }
        assert(a =~= b);
    } else {
        assert(a.contains(a[0]));
        assert(b.contains(a[0]));
        let k = choose|k: int| 0 <= k < b.len() && b[k] == a[0];
        assert(b.contains(b[0]));
        assert(a.contains(b[0]));
        let j = choose|j: int| 0 <= j < a.len() && a[j] == b[0];
        if j >= 1 {
            lemma_sorted_pairwise(a, 0, j);
            T::lemma_irreflexive(a[0]);
            if k >= 1 {
                lemma_sorted_pairwise(b, 0, k);
                T::lemma_transitive(a[0], b[0], a[0]);
            }
            assert(false);
        }
        assert(a[0] == b[0]);
        let at = a.subrange(1, a.len() as int);
        let bt = b.subrange(1, b.len() as int);
        assert forall|i: int| 0 <= i && i + 1 < at.len() implies #[trigger] at[i].lt_spec(
            at[i + 1],
        ) by {
            assert(at[i] == a[i + 1]);
            assert(at[i + 1] == a[i + 2]);
            assert(a[i + 1].lt_spec(a[i + 1 + 1]));
        }
        assert forall|i: int| 0 <= i && i + 1 < bt.len() implies #[trigger] bt[i].lt_spec(
            bt[i + 1],
        ) by {
            assert(bt[i] == b[i + 1]);
            assert(bt[i + 1] == b[i + 2]);
            assert(b[i + 1].lt_spec(b[i + 1 + 1]));
        }
        assert forall|y: T| #![trigger at.contains(y)] #![trigger bt.contains(y)]
            at.contains(y) <==> bt.contains(y) by {
            lemma_sorted_tail_contains(a, y);
            lemma_sorted_tail_contains(b, y);
        }
        lemma_sorted_unique(at, bt);
        assert forall|i: int| 0 <= i < a.len() implies a[i] == b[i] by {
            if i >= 1 {
                assert(a[i] == at[i - 1]);
                assert(b[i] == bt[i - 1]);
            }
        }
        assert(a =~= b);
    }
}

} // verus!
