use rand::seq::SliceRandom;
use rand::SeedableRng;
use rand_xoshiro::SplitMix64;
use vstd::prelude::*;


use crate::error::Error;
use crate::perm::is_permutation;
use crate::sns::SnsImpl;

verus! {

#[verifier::external_type_specification]
#[verifier::external_body]
pub struct ExSplitMix64(SplitMix64);

/// Relies on `SplitMix64::from_seed` (rand_xoshiro): a generator whose
/// state is the seed read as a little-endian integer.
#[verifier::external_body]
fn splitmix_from_seed(seed: [u8; 8]) -> SplitMix64 {
    SplitMix64::from_seed(seed)
}

/// Relies on `getrandom::getrandom`: eight bytes from the operating
/// system's entropy source, or `None` where it reports an error.
#[verifier::external_body]
fn entropy_seed() -> Option<[u8; 8]> {
    let mut buf = [0u8; 8];
    match getrandom::getrandom(&mut buf) {
        Ok(()) => Some(buf),
        Err(_) => None,
    }
}

/// Relies on `SliceRandom::shuffle` (rand): it reorders the elements by
/// swaps, keeping each of them.
#[verifier::external_body]
fn shuffle_in_place(v: &mut Vec<usize>, rng: &mut SplitMix64)
    ensures
        final(v)@.to_multiset() == old(v)@.to_multiset(),
{
    v.shuffle(rng)
}

/// A pseudo-random generator for tile shuffles, owned by its caller.
pub struct TileRng {
    rng: SplitMix64,
}

impl TileRng {
    /// A generator with a fixed seed, which draws the same shuffles each time.
    pub fn from_seed(seed: [u8; 8]) -> (r: TileRng) {
        TileRng { rng: splitmix_from_seed(seed) }
    }

    /// A generator seeded from the operating system's entropy source.
    pub fn from_entropy() -> (r: Result<TileRng, Error>)
        ensures
            r.is_err() ==> r == Err::<TileRng, Error>(Error::EntropyUnavailable),
    {
        match entropy_seed() {
            Some(seed) => Ok(TileRng::from_seed(seed)),
            None => Err(Error::EntropyUnavailable),
        }
    }
}

/// The sequence `0, 1, ..., size - 1`.
fn identity_indices(size: usize) -> (r: Vec<usize>)
    ensures
        r@.len() == size,
        forall|i: int| 0 <= i < size ==> r@[i] == i,
{
    let mut seq: Vec<usize> = Vec::with_capacity(size);
    let mut i: usize = 0;
    while i < size
        invariant
            i <= size,
            seq@.len() == i,
            forall|j: int| 0 <= j < i ==> seq@[j] == j,
        decreases size - i,
    {
        seq.push(i);
        i = i + 1;
    }
    seq
}

/// A random ordering of `0..size`: each index appears exactly once.
pub fn get_shuffled_indices(size: usize, rng: &mut TileRng) -> (r: Vec<usize>)
    ensures
        is_permutation(r@, size as nat),
{
    let mut seq = identity_indices(size);
    let ghost before = seq@;
    shuffle_in_place(&mut seq, &mut rng.rng);
    proof {
        broadcast use vstd::seq_lib::group_to_multiset_ensures;

        assert(before.no_duplicates());
        before.lemma_multiset_has_no_duplicates();
        assert forall|i: int| 0 <= i < seq@.len() implies seq@[i] < size by {
            assert(seq@.contains(seq@[i]));
            assert(before.to_multiset().count(seq@[i]) > 0);
        }
        seq@.lemma_multiset_has_no_duplicates_conv();
        assert(seq@.len() == seq@.to_multiset().len());
        assert(before.len() == before.to_multiset().len());
    }
    seq
}

impl SnsImpl {
    /// A random ordering of this grid's tile indices.
    pub fn get_shuffled_indices(&self, rng: &mut TileRng) -> (r: Vec<usize>)
        ensures
            is_permutation(r@, self.total_splits as nat),
    {
        get_shuffled_indices(self.total_splits, rng)
    }
}

} // verus!
