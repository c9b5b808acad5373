use vstd::prelude::*;

use rand::distributions::Distribution;
use rand::SeedableRng;

verus! {

/// The indices that `rand::seq::index::sample` picks, in the order it returns
/// them, for an `rand::rngs::StdRng` seeded with `seed`.
pub uninterp spec fn sampled_indices(seed: u64, length: usize, amount: usize) -> Seq<usize>;

/// `rand::seq::index::sample` with a generator seeded by `seed`: `amount`
/// distinct indices below `length`, in the order the sample produced them.
/// The same arguments always give the same indices (the generator is seeded).
/// This is how `SliceRandom::choose_multiple` picks the items of a slice.
#[verifier::external_body]
pub(crate) fn sample_indices(seed: u64, length: usize, amount: usize) -> (indices: Vec<usize>)
    requires
        amount <= length,
        length <= u32::MAX,
    ensures
        indices@ == sampled_indices(seed, length, amount),
        indices@.len() == amount,
        forall|i: int| 0 <= i < amount ==> indices@[i] < length,
        forall|i: int, j: int| 0 <= i < j < amount ==> indices@[i] != indices@[j],
{
    let mut rng = rand::rngs::StdRng::seed_from_u64(seed);
    rand::seq::index::sample(&mut rng, length, amount).into_vec()
}

/// The indices that `n` successive draws from a `rand::distributions::WeightedIndex`
/// over `weights` give, for an `rand::rngs::StdRng` seeded with `seed`. The
/// weights are `usize`, so each draw takes 64 bits from the generator on a
/// 64-bit target and 32 on a 32-bit one: the draws depend on the target's
/// pointer width as well as on the arguments, and are fixed within one build.
pub uninterp spec fn weighted_draws(weights: Seq<usize>, seed: u64, n: usize) -> Seq<usize>;

/// `n` successive draws from `rand::distributions::WeightedIndex::new(weights)`
/// with a generator seeded by `seed`: each is the index of a weight, drawn with
/// probability proportional to it. The same arguments always give the same draws.
#[verifier::external_body]
pub(crate) fn draw_weighted(weights: &Vec<usize>, seed: u64, n: usize) -> (draws: Vec<usize>)
    requires
        weights@.len() > 0,
        exists|i: int| 0 <= i < weights@.len() && weights@[i] > 0,
        weights@.fold_left(0int, |acc: int, w: usize| acc + w) <= usize::MAX,
    ensures
        draws@ == weighted_draws(weights@, seed, n),
        draws@.len() == n,
        forall|i: int| 0 <= i < n ==> draws@[i] < weights@.len(),
{
    let dist = rand::distributions::WeightedIndex::new(weights).unwrap();
    let mut rng = rand::rngs::StdRng::seed_from_u64(seed);
    (0..n).map(|_| dist.sample(&mut rng)).collect()
}

/// The numbers that `n` successive `Rng::gen::<u32>` calls give for an
/// `rand::rngs::StdRng` seeded with `seed`.
pub uninterp spec fn seeded_u32s(seed: u64, n: usize) -> Seq<u32>;

/// `n` successive `Rng::gen::<u32>` draws from a generator seeded by `seed`.
/// The same arguments always give the same numbers.
#[verifier::external_body]
pub(crate) fn random_u32s(seed: u64, n: usize) -> (draws: Vec<u32>)
    ensures
        draws@ == seeded_u32s(seed, n),
        draws@.len() == n,
{
    let mut rng = rand::rngs::StdRng::seed_from_u64(seed);
    (0..n).map(|_| rand::Rng::gen::<u32>(&mut rng)).collect()
}

/// `n` letters drawn uniformly from `A` to `Z` (bytes 65 to 90) with the thread's random
/// generator. Nothing is known of which letters come out, only their range.
#[verifier::external_body]
pub(crate) fn random_uppercase_letters(n: usize) -> (letters: Vec<u8>)
    ensures
        letters@.len() == n,
        forall|i: int| 0 <= i < n ==> 65 <= #[trigger] letters@[i] <= 90,
{
    rand::distributions::Uniform::from(b'A'..=b'Z').sample_iter(&mut rand::thread_rng()).take(n).collect()
}

} // verus!
