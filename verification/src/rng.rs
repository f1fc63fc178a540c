//! Random words.
//!
//! A generator is a supply of words that never ends. Which words a seed gives
//! depends on the width of a pointer as well: `rand` picks the algorithm of its
//! small generator by it.

use rand::rngs::SmallRng;
use rand::Rng;
use rand::SeedableRng;
use vstd::prelude::*;

verus! {

/// The small generator of `rand`.
#[verifier::external_type_specification]
#[verifier::external_body]
pub struct ExSmallRng(SmallRng);

/// The words that a generator holds: those that it will give, by their number.
pub uninterp spec fn upcoming(rng: SmallRng) -> Map<nat, u64>;

/// The words that `SmallRng::seed_from_u64` gives for a seed where a pointer has
/// `pointer_bits` bits.
pub uninterp spec fn small_rng_words(pointer_bits: nat, seed: u64) -> Map<nat, u64>;

/// The words of this program's generators under a seed.
pub open spec fn seed_words(seed: u64) -> Map<nat, u64> {
    small_rng_words(usize::BITS as nat, seed)
}

/// The first `count` words of a supply.
pub open spec fn first_words(supply: Map<nat, u64>, count: nat) -> Seq<u64> {
    Seq::new(count, |i: int| supply[i as nat])
}

/// `count` words of a supply, from the number `skip` on.
pub open spec fn words_from(supply: Map<nat, u64>, skip: nat, count: nat) -> Seq<u64> {
    Seq::new(count, |i: int| supply[i as nat + skip])
}

/// True if `later` is `earlier` after `count` of its words were taken.
pub open spec fn follows(later: Map<nat, u64>, earlier: Map<nat, u64>, count: nat) -> bool {
    forall|i: nat| #[trigger] later[i] == earlier[i + count]
}

/// The words that follow on a supply are those further on in it.
pub proof fn words_follow(later: Map<nat, u64>, earlier: Map<nat, u64>, skip: nat, count: nat)
    requires
        follows(later, earlier, skip),
    ensures
        first_words(later, count) == words_from(earlier, skip, count),
{
    assert(first_words(later, count) =~= words_from(earlier, skip, count));
}

/// A generator seeded by `SmallRng::seed_from_u64`. The words that it will give are
/// a function of the seed and of the width of a pointer.
#[verifier::external_body]
pub(crate) fn seeded(seed: u64) -> (rng: SmallRng)
    ensures
        upcoming(rng) == small_rng_words(usize::BITS as nat, seed),
{
    SmallRng::seed_from_u64(seed)
}

/// The next 64 bits of a generator, from `next_u64` of `rand`: the first word that
/// it holds, which it then holds no more.
#[verifier::external_body]
pub(crate) fn next_word(rng: &mut SmallRng) -> (word: u64)
    ensures
        word == upcoming(*old(rng))[0],
        follows(upcoming(*final(rng)), upcoming(*old(rng)), 1),
{
    rng.next_u64()
}

/// The next `count` words of a generator.
pub(crate) fn next_words(rng: &mut SmallRng, count: usize) -> (words: Vec<u64>)
    ensures
        words@ == first_words(upcoming(*old(rng)), count as nat),
        follows(upcoming(*final(rng)), upcoming(*old(rng)), count as nat),
{
    let mut words: Vec<u64> = Vec::new();
    let ghost supply = upcoming(*rng);
    while words.len() < count
        invariant
            words@.len() <= count,
            words@ =~= first_words(supply, words@.len()),
            follows(upcoming(*rng), supply, words@.len()),
        decreases count - words@.len(),
    {
        let ghost before = upcoming(*rng);
        words.push(next_word(rng));
        proof {
            let n = (words@.len() - 1) as nat;
            assert(before[0] == supply[0 + n]);
            assert forall|i: nat| #[trigger] upcoming(*rng)[i] == supply[i + (n + 1)] by {
                assert(before[i + 1] == supply[(i + 1) + n]);
            }
        }
    }
    words
}

} // verus!
