//! Randomness for the simulator: the world RNG sits behind a minimal
//! trusted surface (a fresh generator and one bounded draw), and everything
//! built on it — including the coordinate shuffle — is verified.

use vstd::prelude::*;
use vstd::multiset::{group_multiset_axioms, group_multiset_properties};
use vstd::seq_lib::{to_multiset_contains, to_multiset_len, to_multiset_update};
use vstd::pervasive::VecAdditionalExecFns;

verus! {

#[verifier::external_type_specification]
#[verifier::external_body]
pub struct ExSmallRng(rand::rngs::SmallRng);

/// Relies on rand's SeedableRng::from_entropy: a fresh small generator
/// seeded from the operating system. Nothing is promised of its state.
/// The call aborts if the OS entropy source fails, an environmental
/// condition (like allocation failure) that no precondition can exclude.
#[verifier::external_body]
pub(crate) fn rng_from_entropy() -> rand::rngs::SmallRng {
    <rand::rngs::SmallRng as rand::SeedableRng>::from_entropy()
}

/// Relies on rand's Rng::gen_range over `0..n`: the draw lies below `n`.
/// gen_range panics only on an empty range, which the precondition rules
/// out.
#[verifier::external_body]
pub(crate) fn rng_below(rng: &mut rand::rngs::SmallRng, n: u64) -> (r: u64)
    requires
        1 <= n,
    ensures
        r < n,
{
    rand::Rng::gen_range(rng, 0..n)
}

/// Swapping two positions of a sequence keeps its multiset of elements.
proof fn lemma_swap_to_multiset<A>(s: Seq<A>, i: int, j: int)
    requires
        0 <= i < s.len(),
        0 <= j < s.len(),
    ensures
        s.update(i, s[j]).update(j, s[i]).to_multiset() == s.to_multiset(),
{
    broadcast use to_multiset_update, to_multiset_contains, group_multiset_axioms, group_multiset_properties;

    if i == j {
        assert(s.update(i, s[j]).update(j, s[i]) =~= s);
    } else {
        let s2 = s.update(i, s[j]);
        assert(s.contains(s[i]));
        assert(s.contains(s[j]));
        assert(s2.to_multiset() == s.to_multiset().insert(s[j]).remove(s[i]));
        assert(s2[j] == s[j]);
        assert(s2.update(j, s[i]).to_multiset() == s2.to_multiset().insert(s[i]).remove(s2[j]));
        assert(s.to_multiset().insert(s[j]).remove(s[i]).insert(s[i]).remove(s[j])
            =~= s.to_multiset());
    }
}

/// Shuffle a list of grid coordinates in place (Fisher-Yates): the result
/// holds exactly the same coordinates, each exactly as often as before, in
/// an order drawn from the RNG.
pub(crate) fn shuffle_coords(v: &mut Vec<(usize, usize)>, rng: &mut rand::rngs::SmallRng)
    ensures
        final(v)@.to_multiset() == old(v)@.to_multiset(),
        final(v)@.len() == old(v)@.len(),
        forall|x: (usize, usize)| final(v)@.contains(x) ==> old(v)@.contains(x),
        forall|x: (usize, usize)| old(v)@.contains(x) ==> final(v)@.contains(x),
        forall|j: int| 0 <= j < final(v)@.len() ==> old(v)@.contains(#[trigger] final(v)@[j]),
{
    let n = v.len();
    if n > 1 {
        let mut i: usize = n - 1;
        while i >= 1
            invariant
                i <= n - 1,
                n == v@.len(),
                v@.to_multiset() == old(v)@.to_multiset(),
            decreases i,
        {
            let j = rng_below(rng, (i + 1) as u64) as usize;
            let ghost before = v@;
            let a = v[i];
            let b = v[j];
            v.set(i, b);
            v.set(j, a);
            proof {
                lemma_swap_to_multiset(before, i as int, j as int);
                broadcast use to_multiset_len;

            }
            i = i - 1;
        }
    }
    proof {
        broadcast use to_multiset_len, to_multiset_contains;

        assert forall|x: (usize, usize)| v@.contains(x) implies old(v)@.contains(x) by {
            assert(v@.to_multiset().count(x) > 0);
            assert(old(v)@.to_multiset().count(x) > 0);
        }
        assert forall|x: (usize, usize)| old(v)@.contains(x) implies v@.contains(x) by {
            assert(old(v)@.to_multiset().count(x) > 0);
            assert(v@.to_multiset().count(x) > 0);
        }
        assert forall|j: int| 0 <= j < v@.len() implies old(v)@.contains(#[trigger] v@[j]) by {
            assert(v@.contains(v@[j]));
        }
    }
}

} // verus!
