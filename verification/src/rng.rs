//! The random-number generator the decision logic draws from, and the calls
//! into `rand` that it makes.
use rand::seq::SliceRandom;
use rand::Rng;
use rand::SeedableRng;
use rand_chacha::ChaCha8Rng;
use vstd::prelude::*;

verus! {

#[verifier::external_type_specification]
#[verifier::external_body]
pub struct ExChaCha8Rng(ChaCha8Rng);

/// The generator `ChaCha8Rng::seed_from_u64` makes from `seed`. Seeding
/// expands the seed with a fixed PCG32 sequence, so the generator is a
/// function of the seed alone; its state is opaque here.
pub uninterp spec fn seeded_state(seed: u64) -> ChaCha8Rng;

/// `ChaCha8Rng::seed_from_u64`: the claim is that the generator it returns is
/// the one named `seeded_state(seed)`, the same for the same seed.
#[verifier::external_body]
pub(crate) fn seeded_rng(seed: u64) -> (r: ChaCha8Rng)
    ensures
        r == seeded_state(seed),
{
    ChaCha8Rng::seed_from_u64(seed)
}

/// `SliceRandom::shuffle` on the vector's items: the claim is only that the
/// items come back in some order, the same items as many times each.
#[verifier::external_body]
pub(crate) fn shuffle_vec<T>(rng: &mut ChaCha8Rng, items: &mut Vec<T>)
    ensures
        final(items)@.len() == old(items)@.len(),
        final(items)@.to_multiset() == old(items)@.to_multiset(),
{
    items.shuffle(rng)
}

/// `SliceRandom::choose`, its result copied: the claim is that it is `None`
/// exactly for an empty slice, and otherwise one of the slice's items.
#[verifier::external_body]
pub(crate) fn choose_copied<T: Copy>(rng: &mut ChaCha8Rng, items: &[T]) -> (r: Option<T>)
    ensures
        r is None <==> items@.len() == 0,
        r matches Some(x) ==> items@.contains(x),
{
    items.choose(rng).copied()
}

/// `Rng::gen_ratio`: `true` with probability `numerator / denominator`. The
/// claim is only what the documentation guarantees of every outcome: always
/// `true` when the two are equal, always `false` when the numerator is 0.
#[verifier::external_body]
pub(crate) fn gen_ratio(rng: &mut ChaCha8Rng, numerator: u32, denominator: u32) -> (r: bool)
    requires
        0 < denominator,
        numerator <= denominator,
    ensures
        numerator == denominator ==> r,
        numerator == 0 ==> !r,
{
    rng.gen_ratio(numerator, denominator)
}

/// `Rng::gen_range` over `low..high`: the claim is that the result lies in that range.
#[verifier::external_body]
pub(crate) fn gen_range_i32(rng: &mut ChaCha8Rng, low: i32, high: i32) -> (r: i32)
    requires
        low < high,
    ensures
        low <= r < high,
{
    rng.gen_range(low..high)
}

} // verus!
