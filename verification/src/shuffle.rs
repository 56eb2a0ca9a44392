//! Whole-key shuffle. The assembled intermediate sequence is class-grouped;
//! an in-place Fisher–Yates pass interleaves the classes. The shuffle is a
//! pure permutation — it introduces, drops and duplicates nothing — which is
//! stated as multiset equality and proved for every execution, whatever the
//! random draws were.

use vstd::prelude::*;

use crate::assemble::rand_index;
use vstd::seq_lib::{to_multiset_len, to_multiset_update};

verus! {

/// Swaps two positions of a character vector; the multiset of characters
/// is unchanged.
fn swap_chars(v: &mut Vec<char>, i: usize, j: usize)
    requires
        i < old(v)@.len(),
        j < old(v)@.len(),
    ensures
        final(v)@.len() == old(v)@.len(),
        final(v)@.to_multiset() == old(v)@.to_multiset(),
        final(v)@ == old(v)@.update(i as int, old(v)@[j as int]).update(
            j as int,
            old(v)@[i as int],
        ),
{
    let ghost s0 = v@;
    let a = v[i];
    let b = v[j];
    v.set(i, b);
    let ghost s1 = v@;
    v.set(j, a);
    proof {
        broadcast use vstd::multiset::group_multiset_axioms;

        if i == j {
            assert(v@ =~= s0);
            assert(v@.to_multiset() =~= s0.to_multiset());
        } else {
            to_multiset_update(s0, i as int, s0[j as int]);
            to_multiset_update(s1, j as int, s0[i as int]);
            assert(s0.to_multiset().contains(s0[i as int])) by {
                broadcast use vstd::seq_lib::to_multiset_contains;

                assert(s0.contains(s0[i as int]));
            }
            assert(v@.to_multiset() =~= s0.to_multiset());
        }
    }
}

/// Unbiased in-place shuffle (Fisher–Yates): walking from the back, each
/// position is swapped with a uniform random partner at or before it. The
/// result is a permutation of the input: the multiset of characters in the
/// shuffled vector equals the multiset in the original.
pub fn shuffle_chars(v: &mut Vec<char>)
    ensures
        final(v)@.len() == old(v)@.len(),
        final(v)@.to_multiset() == old(v)@.to_multiset(),
{
    proof {
        broadcast use to_multiset_len;

    }
    let mut i: usize = v.len();
    while i > 1
        invariant
            i <= v@.len(),
            v@.len() == old(v)@.len(),
            v@.to_multiset() == old(v)@.to_multiset(),
        decreases i,
    {
        let j = rand_index(i);
        swap_chars(v, i - 1, j);
        i = i - 1;
    }
}

} // verus!
