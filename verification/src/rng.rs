//! Trusted wrappers around the `rand` crate. These are the only places where
//! the engines touch randomness; each contract states no more than what the
//! crate's source guarantees of every outcome.

use vstd::prelude::*;

use rand::rngs::StdRng;
use rand::seq::SliceRandom;
use rand::Rng;
use rand::SeedableRng;

verus! {

#[verifier::external_type_specification]
#[verifier::external_body]
pub struct ExStdRng(StdRng);

/// Relies on `rand::SeedableRng::seed_from_u64`: builds a deterministic
/// generator from a seed. Nothing is assumed of the values it will produce.
#[verifier::external_body]
pub(crate) fn rng_from_seed(seed: u64) -> StdRng {
    StdRng::seed_from_u64(seed)
}

/// Relies on `rand::thread_rng` and `rand::Rng::gen_range` over an
/// inclusive range: the draw lies within the bounds. `gen_range` panics on
/// an empty range, which the precondition excludes.
#[verifier::external_body]
pub(crate) fn random_in_range(lo: u64, hi: u64) -> (r: u64)
    requires
        lo <= hi,
    ensures
        lo <= r <= hi,
{
    rand::thread_rng().gen_range(lo..=hi)
}

/// Relies on `rand::seq::SliceRandom::choose`: returns some element of the
/// slice exactly when it is non-empty.
#[verifier::external_body]
pub(crate) fn choose_char(rng: &mut StdRng, pool: &Vec<char>) -> (r: Option<char>)
    ensures
        r is Some <==> pool@.len() > 0,
        r is Some ==> pool@.contains(r->0),
{
    pool.as_slice().choose(rng).copied()
}

/// Relies on `rand::seq::SliceRandom::shuffle`: permutes the slice in place
/// by swaps, so the multiset of elements is unchanged.
#[verifier::external_body]
pub(crate) fn shuffle_usizes(rng: &mut StdRng, v: &mut Vec<usize>)
    ensures
        final(v)@.to_multiset() == old(v)@.to_multiset(),
        final(v)@.len() == old(v)@.len(),
{
    v.as_mut_slice().shuffle(rng)
}

} // verus!
