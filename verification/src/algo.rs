//! Small verified building blocks shared by the container types.

use vstd::prelude::*;
use vstd::pervasive::cloned;

verus! {

/// Replaces the contents of `v` with the same elements in reverse order.
pub(crate) fn reverse_in_place<T>(v: &mut Vec<T>)
    ensures
        final(v)@ == old(v)@.reverse(),
{
    let mut out: Vec<T> = Vec::new();
    while v.len() > 0
        invariant
            out@.len() + v@.len() == old(v)@.len(),
            v@ == old(v)@.subrange(0, v@.len() as int),
            out@ == old(v)@.subrange(v@.len() as int, old(v)@.len() as int).reverse(),
        decreases v@.len(),
    {
        let ghost prev_out = out@;
        let x = v.pop().unwrap();
        out.push(x);
        proof {
            let l = v@.len() as int;
            let n = old(v)@.len() as int;
            assert(v@ =~= old(v)@.subrange(0, l));
            assert(x == old(v)@[l]);
            let rhs = old(v)@.subrange(l, n).reverse();
            assert forall|i: int| 0 <= i < n - l implies out@[i] == rhs[i] by {
                assert(rhs[i] == old(v)@.subrange(l, n)[n - l - 1 - i]);
                assert(rhs[i] == old(v)@[n - 1 - i]);
                if i < prev_out.len() {
                    assert(out@[i] == prev_out[i]);
                    assert(prev_out[i] == old(v)@.subrange(l + 1, n).reverse()[i]);
                    assert(prev_out[i] == old(v)@.subrange(l + 1, n)[n - l - 2 - i]);
                } else {
                    assert(out@[i] == x);
                    assert(i == n - l - 1);
                }
            }
            assert(out@ =~= rhs);
        }
    }
    proof {
        assert(out@ =~= old(v)@.reverse());
    }
    *v = out;
}

/// Copies a borrowed run of elements into a fresh vector, element by element,
/// through `T::clone`.
pub(crate) fn clone_to_vec<T: Clone>(s: &[T]) -> (out: Vec<T>)
    ensures
        out@.len() == s@.len(),
        forall|i: int| 0 <= i < s@.len() ==> cloned::<T>(s@[i], #[trigger] out@[i]),
{
    let mut out: Vec<T> = Vec::new();
    let mut j: usize = 0;
    while j < s.len()
        invariant
            j <= s@.len(),
            out@.len() == j,
            forall|i: int| 0 <= i < j ==> cloned::<T>(s@[i], #[trigger] out@[i]),
        decreases s@.len() - j,
    {
        let x = &s[j];
        out.push(x.clone());
        j = j + 1;
    }
    out
}

} // verus!
