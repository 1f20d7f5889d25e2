//! The deterministic seeded generator behind grid (re)initialisation.

use rand::RngCore;
use rand::SeedableRng;
use vstd::prelude::*;

verus! {

/// The word stream that `rand`'s standard generator produces from a seed:
/// `n` consecutive 64-bit draws.  For a fixed seed the stream is a pure
/// function of `(seed, n)`, which is what makes reseeded grids reproducible.
pub uninterp spec fn std_rng_stream(seed: u64, n: nat) -> Seq<u64>;

/// Relies on `rand::rngs::StdRng`: `SeedableRng::seed_from_u64` builds the
/// generator from the seed alone, and `RngCore::next_u64` then yields a
/// deterministic word sequence (ChaCha12 keyed by the expanded seed), so the
/// draws are a function of `(seed, n)` on every machine.
#[verifier::external_body]
pub(crate) fn std_rng_words(seed: u64, n: usize) -> (r: Vec<u64>)
    ensures
        r@ == std_rng_stream(seed, n as nat),
        r@.len() == n,
{
    let mut rng = rand::rngs::StdRng::seed_from_u64(seed);
    let mut words = Vec::with_capacity(n);
    for _ in 0..n {
        words.push(rng.next_u64());
    }
    words
}

} // verus!
