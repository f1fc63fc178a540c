//! Byzantine faults: lies, partial responses and slow but correct answers.
//!
//! All of them work on byte payloads.

use crate::fault::{
    injected_at, record_injected, report_preview, would_inject, ContextView, Fault, FaultContext,
};
use crate::message::{Message, Part, PartView, Sample};
use crate::rng;
use crate::rng::{first_words, follows, seed_words, upcoming, words_follow, words_from};
use crate::scalar::{draw_below, draw_is_below, Scalar, ONE_BITS};
use crate::text;
use crate::types::{BifurcationProfile, DryRunReport, DryRunView, FaultResult, ResultView};
use rand::rngs::SmallRng;
use vstd::prelude::*;

verus! {

/// How a [`LyingNode`] corrupts its payload.
#[derive(Debug)]
pub enum CorruptionStrategy {
    /// Flip this many distinct bits at random positions.
    BitFlip {
        /// Number of bits to flip.
        num_bits: usize,
    },
    /// Overwrite bytes from `offset` on; what lies outside the payload is cut off.
    FieldSubstitution {
        /// First byte that is overwritten.
        offset: usize,
        /// Replacement bytes.
        replacement: Vec<u8>,
    },
    /// Overwrite the whole payload with one byte.
    StructuralCorruption {
        /// The byte to fill with.
        fill_byte: u8,
    },
}

/// Model of a [`CorruptionStrategy`].
pub enum StrategyView {
    BitFlip { num_bits: usize },
    FieldSubstitution { offset: usize, replacement: Seq<u8> },
    StructuralCorruption { fill_byte: u8 },
}

impl View for CorruptionStrategy {
    type V = StrategyView;

    open spec fn view(&self) -> StrategyView {
        match *self {
            CorruptionStrategy::BitFlip { num_bits } => StrategyView::BitFlip { num_bits },
            CorruptionStrategy::FieldSubstitution { offset, replacement } => {
                StrategyView::FieldSubstitution { offset, replacement: replacement@ }
            },
            CorruptionStrategy::StructuralCorruption { fill_byte } => {
                StrategyView::StructuralCorruption { fill_byte }
            },
        }
    }
}

impl Clone for CorruptionStrategy {
    fn clone(&self) -> (r: Self)
        ensures
            r@ == self@,
    {
        match self {
            CorruptionStrategy::BitFlip { num_bits } => CorruptionStrategy::BitFlip {
                num_bits: *num_bits,
            },
            CorruptionStrategy::FieldSubstitution { offset, replacement } => {
                CorruptionStrategy::FieldSubstitution {
                    offset: *offset,
                    replacement: replacement.clone(),
                }
            },
            CorruptionStrategy::StructuralCorruption { fill_byte } => {
                CorruptionStrategy::StructuralCorruption { fill_byte: *fill_byte }
            },
        }
    }
}

/// True if bit `k` of `data` is set. Bits are numbered from the lowest bit of the
/// first byte.
pub open spec fn bit_at(data: Seq<u8>, k: int) -> bool {
    (data[k / 8] >> ((k % 8) as u8)) & 1u8 == 1u8
}

/// The numbers below `total`, with the first `n` positions filled by a shuffle:
/// the number at position `i` changes places with the one that `words[i]` picks
/// among those not yet chosen. Words have 64 bits on every target, so that a seed picks
/// the same numbers on all of them.
pub open spec fn shuffled(total: nat, words: Seq<u64>, n: nat) -> Seq<int>
    decreases n,
{
    if n == 0 {
        Seq::new(total, |i: int| i)
    } else {
        let p = shuffled(total, words, (n - 1) as nat);
        let i = n - 1;
        let j = i + words[i] as int % (total - i);
        p.update(i, p[j]).update(j, p[i])
    }
}

/// True if `after` is `before` with the bits at `positions` inverted and all
/// others kept.
pub open spec fn bits_inverted(before: Seq<u8>, after: Seq<u8>, positions: Seq<int>) -> bool {
    &&& after.len() == before.len()
    &&& forall|k: int|
        0 <= k < 8 * before.len() ==> ((#[trigger] bit_at(after, k) != bit_at(before, k))
            <==> positions.contains(k))
}

/// `data` with the bytes from `offset` on replaced, as far as both reach.
pub open spec fn substituted(data: Seq<u8>, offset: int, replacement: Seq<u8>) -> Seq<u8> {
    Seq::new(
        data.len(),
        |i: int|
            if offset <= i < offset + replacement.len() {
                replacement[i - offset]
            } else {
                data[i]
            },
    )
}

/// Number of bits that a flip of `num_bits` inverts in a payload of `len` bytes.
pub open spec fn flip_count(num_bits: usize, len: nat) -> nat {
    if num_bits <= 8 * len {
        num_bits as nat
    } else {
        8 * len
    }
}

/// True if `after` is what `strategy` makes of `before` with the random words
/// `words`.
pub open spec fn corrupted(
    strategy: StrategyView,
    before: Seq<u8>,
    words: Seq<u64>,
    after: Seq<u8>,
) -> bool {
    match strategy {
        StrategyView::BitFlip { num_bits } => {
            let n = flip_count(num_bits, before.len());
            bits_inverted(before, after, shuffled(8 * before.len(), words, n).take(n as int))
        },
        StrategyView::FieldSubstitution { offset, replacement } => after == substituted(
            before,
            offset as int,
            replacement,
        ),
        StrategyView::StructuralCorruption { fill_byte } => after == Seq::new(
            before.len(),
            |i: int| fill_byte,
        ),
    }
}

/// Number of random words that `strategy` takes for a payload of `len` bytes.
pub open spec fn words_needed(strategy: StrategyView, len: nat) -> nat {
    match strategy {
        StrategyView::BitFlip { num_bits } => flip_count(num_bits, len),
        _ => 0,
    }
}

/// A shuffle loses no number and repeats none.
pub proof fn shuffled_is_permutation(total: nat, words: Seq<u64>, n: nat)
    requires
        n <= total,
        n <= words.len(),
    ensures
        shuffled(total, words, n).len() == total,
        shuffled(total, words, n).no_duplicates(),
        forall|i: int|
            0 <= i < total ==> 0 <= #[trigger] shuffled(total, words, n)[i] < total,
    decreases n,
{
    if n > 0 {
        shuffled_is_permutation(total, words, (n - 1) as nat);
        let p = shuffled(total, words, (n - 1) as nat);
        let i = n - 1;
        let j = i + words[i] as int % (total - i);
        assert(i <= j < total);
        let q = shuffled(total, words, n);
        assert(q == p.update(i, p[j]).update(j, p[i]));
    }
}

/// A later step of the shuffle does not touch the positions filled before.
proof fn shuffled_keeps_prefix(total: nat, words: Seq<u64>, n: nat)
    requires
        0 < n <= total,
        n <= words.len(),
    ensures
        shuffled(total, words, n).take(n - 1) == shuffled(total, words, (n - 1) as nat).take(n - 1),
{
    shuffled_is_permutation(total, words, (n - 1) as nat);
    assert(shuffled(total, words, n).take(n - 1) =~= shuffled(total, words, (n - 1) as nat).take(
        n - 1,
    ));
}

/// A bit flip inverts exactly as many bits as it was asked to, or all bits of a
/// payload that has fewer.
pub proof fn bit_flip_is_exact(before: Seq<u8>, after: Seq<u8>, num_bits: usize, words: Seq<u64>)
    requires
        corrupted(StrategyView::BitFlip { num_bits }, before, words, after),
        words.len() >= flip_count(num_bits, before.len()),
    ensures
        after.len() == before.len(),
        Set::new(
            |k: int| 0 <= k < 8 * before.len() && bit_at(after, k) != bit_at(before, k),
        ).finite(),
        Set::new(
            |k: int| 0 <= k < 8 * before.len() && bit_at(after, k) != bit_at(before, k),
        ).len() == flip_count(num_bits, before.len()),
{
    let n = flip_count(num_bits, before.len());
    let total = 8 * before.len();
    shuffled_is_permutation(total, words, n);
    let chosen = shuffled(total, words, n).take(n as int);
    let inverted = Set::new(
        |k: int| 0 <= k < 8 * before.len() && bit_at(after, k) != bit_at(before, k),
    );
    assert(chosen.no_duplicates());
    chosen.unique_seq_to_set();
    assert forall|k: int| chosen.to_set().contains(k) implies inverted.contains(k) by {
        let i = choose|i: int| 0 <= i < chosen.len() && chosen[i] == k;
        assert(0 <= shuffled(total, words, n)[i] < total);
    }
    assert(inverted =~= chosen.to_set());
}

proof fn equal_bits_make_equal_bytes(a: u8, b: u8)
    requires
        forall|k: u8| k < 8 ==> ((#[trigger] (a >> k)) & 1u8 == 1u8) == ((b >> k) & 1u8 == 1u8),
    ensures
        a == b,
{
    assert(((a >> 0u8) & 1u8 == 1u8) == ((b >> 0u8) & 1u8 == 1u8));
    assert(((a >> 1u8) & 1u8 == 1u8) == ((b >> 1u8) & 1u8 == 1u8));
    assert(((a >> 2u8) & 1u8 == 1u8) == ((b >> 2u8) & 1u8 == 1u8));
    assert(((a >> 3u8) & 1u8 == 1u8) == ((b >> 3u8) & 1u8 == 1u8));
    assert(((a >> 4u8) & 1u8 == 1u8) == ((b >> 4u8) & 1u8 == 1u8));
    assert(((a >> 5u8) & 1u8 == 1u8) == ((b >> 5u8) & 1u8 == 1u8));
    assert(((a >> 6u8) & 1u8 == 1u8) == ((b >> 6u8) & 1u8 == 1u8));
    assert(((a >> 7u8) & 1u8 == 1u8) == ((b >> 7u8) & 1u8 == 1u8));
    assert(a == b) by (bit_vector)
        requires
            ((a >> 0u8) & 1u8 == 1u8) == ((b >> 0u8) & 1u8 == 1u8),
            ((a >> 1u8) & 1u8 == 1u8) == ((b >> 1u8) & 1u8 == 1u8),
            ((a >> 2u8) & 1u8 == 1u8) == ((b >> 2u8) & 1u8 == 1u8),
            ((a >> 3u8) & 1u8 == 1u8) == ((b >> 3u8) & 1u8 == 1u8),
            ((a >> 4u8) & 1u8 == 1u8) == ((b >> 4u8) & 1u8 == 1u8),
            ((a >> 5u8) & 1u8 == 1u8) == ((b >> 5u8) & 1u8 == 1u8),
            ((a >> 6u8) & 1u8 == 1u8) == ((b >> 6u8) & 1u8 == 1u8),
            ((a >> 7u8) & 1u8 == 1u8) == ((b >> 7u8) & 1u8 == 1u8),
    ;
}

/// A strategy and its random words decide the corruption of a payload.
pub proof fn words_decide_the_corruption(
    strategy: StrategyView,
    before: Seq<u8>,
    words: Seq<u64>,
    a: Seq<u8>,
    b: Seq<u8>,
)
    requires
        corrupted(strategy, before, words, a),
        corrupted(strategy, before, words, b),
    ensures
        a == b,
{
    if let StrategyView::BitFlip { num_bits } = strategy {
        assert forall|i: int| 0 <= i < before.len() implies a[i] == b[i] by {
            assert forall|k: u8| k < 8 implies ((#[trigger] (a[i] >> k)) & 1u8 == 1u8) == ((b[i]
                >> k) & 1u8 == 1u8) by {
                let bit = 8 * i + k;
                assert(bit / 8 == i && bit % 8 == k);
                assert((bit_at(a, bit) != bit_at(before, bit)) <==> (bit_at(b, bit) != bit_at(
                    before,
                    bit,
                )));
            }
            equal_bits_make_equal_bytes(a[i], b[i]);
        }
        assert(a =~= b);
    }
}

/// The seed of a node decides its answer: two answers to one response are equal.
pub proof fn seed_decides_the_answer(node: LyingNode, response: Seq<u8>, a: Seq<u8>, b: Seq<u8>)
    requires
        node.answers(response, a),
        node.answers(response, b),
    ensures
        a == b,
{
    let supply = seed_words(node.seed);
    if node.profile().decision(supply[0]) {
        words_decide_the_corruption(
            node.strategy@,
            response,
            words_from(
                supply,
                node.profile().words_taken(),
                words_needed(node.strategy@, response.len()),
            ),
            a,
            b,
        );
    }
}

proof fn inverted_bit(byte: u8, offset: u8, other: u8)
    requires
        offset < 8,
        other < 8,
    ensures
        ((((byte ^ (1u8 << offset)) >> other) & 1u8 == 1u8) != ((byte >> other) & 1u8 == 1u8))
            <==> offset == other,
{
    assert(((((byte ^ (1u8 << offset)) >> other) & 1u8 == 1u8) != ((byte >> other) & 1u8 == 1u8))
        <==> offset == other) by (bit_vector)
        requires
            offset < 8,
            other < 8,
    ;
}

fn flip_bit(data: &mut Vec<u8>, bit: usize)
    requires
        bit < 8 * old(data)@.len(),
    ensures
        final(data)@.len() == old(data)@.len(),
        forall|k: int|
            0 <= k < 8 * old(data)@.len() ==> ((#[trigger] bit_at(final(data)@, k) != bit_at(
                old(data)@,
                k,
            )) <==> k == bit),
{
    let index: usize = bit / 8;
    let offset: u8 = (bit % 8) as u8;
    let ghost before = data@;
    let byte: u8 = data[index];
    data.set(index, byte ^ (1u8 << offset));
    proof {
        assert forall|k: int| 0 <= k < 8 * before.len() implies ((#[trigger] bit_at(data@, k)
            != bit_at(before, k)) <==> k == bit) by {
            if k / 8 == index {
                inverted_bit(byte, offset, (k % 8) as u8);
            } else {
                assert(data@[k / 8] == before[k / 8]);
            }
        }
    }
}

/// Inverts `count` distinct bits of `data`, chosen by a shuffle that `words` steer.
fn flip_bits(data: Vec<u8>, count: usize, words: &Vec<u64>) -> (out: Vec<u8>)
    requires
        8 * data@.len() <= usize::MAX,
        count <= 8 * data@.len(),
        count <= words@.len(),
    ensures
        bits_inverted(
            data@,
            out@,
            shuffled(8 * data@.len(), words@, count as nat).take(count as int),
        ),
{
    let total: usize = data.len() * 8;
    let ghost before = data@;
    let mut out: Vec<u8> = data;
    let mut positions: Vec<usize> = Vec::new();
    while positions.len() < total
        invariant
            positions@.len() <= total,
            forall|i: int| 0 <= i < positions@.len() ==> #[trigger] positions@[i] == i,
        decreases total - positions@.len(),
    {
        let next: usize = positions.len();
        positions.push(next);
    }
    let mut i: usize = 0;
    while i < count
        invariant
            i <= count <= total,
            count <= words@.len(),
            total == 8 * before.len(),
            out@.len() == before.len(),
            positions@.len() == total,
            shuffled(total as nat, words@, i as nat).len() == total,
            forall|a: int|
                0 <= a < total ==> #[trigger] positions@[a] == shuffled(
                    total as nat,
                    words@,
                    i as nat,
                )[a],
            bits_inverted(
                before,
                out@,
                shuffled(total as nat, words@, i as nat).take(i as int),
            ),
        decreases count - i,
    {
        let left: u64 = (total - i) as u64;
        let j: usize = i + (words[i] % left) as usize;
        let ghost p = shuffled(total as nat, words@, i as nat);
        let ghost q = shuffled(total as nat, words@, (i + 1) as nat);
        let chosen: usize = positions[j];
        let parked: usize = positions[i];
        positions.set(i, chosen);
        positions.set(j, parked);
        proof {
            shuffled_is_permutation(total as nat, words@, i as nat);
            shuffled_is_permutation(total as nat, words@, (i + 1) as nat);
            shuffled_keeps_prefix(total as nat, words@, (i + 1) as nat);
            assert(q == p.update(i as int, p[j as int]).update(j as int, p[i as int]));
            assert(q[i as int] == chosen);
            assert(0 <= q[i as int] < total);
        }
        let ghost now = out@;
        flip_bit(&mut out, chosen);
        proof {
            let old_front = p.take(i as int);
            let new_front = q.take(i + 1);
            assert(new_front =~= old_front.push(chosen as int));
            assert(!old_front.contains(chosen as int)) by {
                if old_front.contains(chosen as int) {
                    let a = choose|a: int| 0 <= a < i && old_front[a] == chosen;
                    assert(q[a] == p[a]);
                    assert(q[a] == q[i as int]);
                }
            }
            assert forall|k: int| 0 <= k < 8 * before.len() implies ((#[trigger] bit_at(out@, k)
                != bit_at(before, k)) <==> new_front.contains(k)) by {
                assert((bit_at(out@, k) != bit_at(now, k)) <==> k == chosen);
                assert((bit_at(now, k) != bit_at(before, k)) <==> old_front.contains(k));
                if old_front.contains(k) {
                    let a = choose|a: int| 0 <= a < i && old_front[a] == k;
                    assert(new_front[a] == k);
                }
                if k == chosen {
                    assert(new_front[i as int] == k);
                }
                if new_front.contains(k) && k != chosen {
                    let a = choose|a: int| 0 <= a < i + 1 && new_front[a] == k;
                    assert(old_front[a] == k);
                }
            }
        }
        i += 1;
    }
    out
}

/// Fraction of a node's responses that are Byzantine.
#[derive(Clone, Copy, Debug, PartialEq, Eq, Structural)]
pub struct ByzantineProfile {
    /// Probability that a response is Byzantine.
    pub probability: Scalar,
}

impl ByzantineProfile {
    /// True if no response is Byzantine.
    pub open spec fn is_never(self) -> bool {
        !self.probability.is_nan() && self.probability.rank() <= 0
    }

    /// True if every response is Byzantine.
    pub open spec fn is_always(self) -> bool {
        !self.probability.is_nan() && self.probability.rank() >= ONE_BITS
    }

    /// The decision for a given random word.
    pub open spec fn decision(self, word: u64) -> bool {
        if self.is_never() {
            false
        } else if self.is_always() {
            true
        } else {
            draw_is_below(word, self.probability)
        }
    }

    fn is_fixed(&self) -> (r: Option<bool>)
        ensures
            r == if self.is_never() {
                Some(false)
            } else if self.is_always() {
                Some(true)
            } else {
                None::<bool>
            },
    {
        let p: Scalar = self.probability;
        let number: bool = p.less(Scalar::one()) || Scalar::zero().less(p);
        if number && !Scalar::zero().less(p) {
            Some(false)
        } else if number && !p.less(Scalar::one()) {
            Some(true)
        } else {
            None
        }
    }

    /// Decides for the given random word.
    pub fn decide(&self, word: u64) -> (r: bool)
        ensures
            r == self.decision(word),
    {
        match self.is_fixed() {
            Some(fixed) => fixed,
            None => draw_below(word, self.probability),
        }
    }

    /// Number of random words that a decision takes: none where the probability
    /// leaves nothing open.
    pub open spec fn words_taken(self) -> nat {
        if self.is_never() || self.is_always() {
            0
        } else {
            1
        }
    }

    /// Decides by the next random word of `rng`, which is taken only where the
    /// probability leaves the answer open.
    pub fn is_byzantine(&self, rng: &mut SmallRng) -> (r: bool)
        ensures
            r == self.decision(upcoming(*old(rng))[0]),
            follows(upcoming(*final(rng)), upcoming(*old(rng)), self.words_taken()),
    {
        match self.is_fixed() {
            Some(fixed) => fixed,
            None => {
                let word: u64 = rng::next_word(rng);
                self.decide(word)
            },
        }
    }
}

/// Corrupts a byte payload with some probability.
#[derive(Debug)]
pub struct LyingNode {
    /// Seed of the random draws.
    pub seed: u64,
    /// Payload that an injection works on.
    pub payload: Vec<u8>,
    /// How the payload is corrupted.
    pub strategy: CorruptionStrategy,
    /// Probability that a response is corrupted.
    pub byzantine_probability: Scalar,
}

impl LyingNode {
    /// What `strategy` makes of `data` with the given random words.
    pub fn corrupt_with(&self, data: Vec<u8>, words: &Vec<u64>) -> (out: Vec<u8>)
        requires
            8 * data@.len() <= usize::MAX,
            words@.len() >= words_needed(self.strategy@, data@.len()),
        ensures
            corrupted(self.strategy@, data@, words@, out@),
    {
        match &self.strategy {
            CorruptionStrategy::BitFlip { num_bits } => {
                let total: usize = data.len() * 8;
                let count: usize = if *num_bits <= total {
                    *num_bits
                } else {
                    total
                };
                flip_bits(data, count, words)
            },
            CorruptionStrategy::FieldSubstitution { offset, replacement } => {
                let ghost before = data@;
                let mut out: Vec<u8> = data;
                let mut i: usize = 0;
                while i < replacement.len() && *offset < out.len() && i < out.len() - *offset
                    invariant
                        i <= replacement@.len(),
                        out@.len() == before.len(),
                        forall|k: int|
                            0 <= k < before.len() ==> #[trigger] out@[k] == if *offset <= k
                                < *offset + i {
                                replacement@[k - *offset]
                            } else {
                                before[k]
                            },
                    decreases replacement@.len() - i,
                {
                    let byte: u8 = replacement[i];
                    out.set(*offset + i, byte);
                    i += 1;
                }
                assert(out@ =~= substituted(before, *offset as int, replacement@));
                out
            },
            CorruptionStrategy::StructuralCorruption { fill_byte } => {
                let ghost before = data@;
                let mut out: Vec<u8> = data;
                let mut i: usize = 0;
                while i < out.len()
                    invariant
                        i <= out@.len(),
                        out@.len() == before.len(),
                        forall|k: int| 0 <= k < i ==> #[trigger] out@[k] == *fill_byte,
                    decreases out@.len() - i,
                {
                    out.set(i, *fill_byte);
                    i += 1;
                }
                assert(out@ =~= Seq::new(before.len(), |i: int| *fill_byte));
                out
            },
        }
    }

    fn words_for(&self, len: usize) -> (n: usize)
        requires
            8 * len <= usize::MAX,
        ensures
            n == words_needed(self.strategy@, len as nat),
    {
        match &self.strategy {
            CorruptionStrategy::BitFlip { num_bits } => {
                let total: usize = len * 8;
                if *num_bits <= total {
                    *num_bits
                } else {
                    total
                }
            },
            _ => 0,
        }
    }

    /// Corrupts `data` with the next random words of `rng`.
    pub fn corrupt(&self, data: Vec<u8>, rng: &mut SmallRng) -> (out: Vec<u8>)
        requires
            8 * data@.len() <= usize::MAX,
        ensures
            corrupted(
                self.strategy@,
                data@,
                first_words(upcoming(*old(rng)), words_needed(self.strategy@, data@.len())),
                out@,
            ),
            follows(
                upcoming(*final(rng)),
                upcoming(*old(rng)),
                words_needed(self.strategy@, data@.len()),
            ),
    {
        let words: Vec<u64> = rng::next_words(rng, self.words_for(data.len()));
        self.corrupt_with(data, &words)
    }

    /// The profile that decides whether a response is corrupted.
    pub open spec fn profile(self) -> ByzantineProfile {
        ByzantineProfile { probability: self.byzantine_probability }
    }

    /// True if `out` is what this node answers in place of `response`: the response
    /// itself or a corruption of it, as the probability and the words under this
    /// fault's seed decide.
    pub open spec fn answers(self, response: Seq<u8>, out: Seq<u8>) -> bool {
        let supply = seed_words(self.seed);
        if self.profile().decision(supply[0]) {
            corrupted(
                self.strategy@,
                response,
                words_from(
                    supply,
                    self.profile().words_taken(),
                    words_needed(self.strategy@, response.len()),
                ),
                out,
            )
        } else {
            out == response
        }
    }

    /// What this node answers in place of `response`.
    pub fn respond(&self, response: Vec<u8>) -> (out: Vec<u8>)
        requires
            8 * response@.len() <= usize::MAX,
        ensures
            self.answers(response@, out@),
    {
        let mut rng: SmallRng = rng::seeded(self.seed);
        let profile = ByzantineProfile { probability: self.byzantine_probability };
        if profile.is_byzantine(&mut rng) {
            proof {
                words_follow(
                    upcoming(rng),
                    seed_words(self.seed),
                    profile.words_taken(),
                    words_needed(self.strategy@, response@.len()),
                );
            }
            self.corrupt(response, &mut rng)
        } else {
            response
        }
    }
}

/// The decimal representations of a list of bytes.
pub open spec fn byte_texts(bytes: Seq<u8>) -> Seq<Seq<char>> {
    Seq::new(bytes.len(), |i: int| text::decimal(bytes[i] as nat))
}

/// How a strategy is shown.
pub open spec fn strategy_text(strategy: StrategyView) -> Seq<char> {
    match strategy {
        StrategyView::BitFlip { num_bits } => "BitFlip { num_bits: "@ + text::decimal(
            num_bits as nat,
        ) + " }"@,
        StrategyView::FieldSubstitution { offset, replacement } => {
            "FieldSubstitution { offset: "@ + text::decimal(offset as nat) + ", replacement: ["@
                + text::joined(byte_texts(replacement), ", "@) + "] }"@
        },
        StrategyView::StructuralCorruption { fill_byte } => {
            "StructuralCorruption { fill_byte: "@ + text::decimal(fill_byte as nat) + " }"@
        },
    }
}

fn show_strategy(strategy: &CorruptionStrategy) -> (out: String)
    ensures
        out@ == strategy_text(strategy@),
{
    match strategy {
        CorruptionStrategy::BitFlip { num_bits } => {
            let n: String = text::decimal_of(*num_bits as u64);
            text::concat3("BitFlip { num_bits: ", n.as_str(), " }")
        },
        CorruptionStrategy::FieldSubstitution { offset, replacement } => {
            let n: String = text::decimal_of(*offset as u64);
            let mut out: String = text::concat3(
                "FieldSubstitution { offset: ",
                n.as_str(),
                ", replacement: [",
            );
            let mut parts: Vec<String> = Vec::new();
            while parts.len() < replacement.len()
                invariant
                    parts@.len() <= replacement@.len(),
                    forall|i: int|
                        0 <= i < parts@.len() ==> #[trigger] parts@[i]@ == text::decimal(
                            replacement@[i] as nat,
                        ),
                decreases replacement@.len() - parts@.len(),
            {
                let byte: u8 = replacement[parts.len()];
                parts.push(text::decimal_of(byte as u64));
            }
            assert(text::views(parts@) =~= byte_texts(replacement@));
            let list: String = text::join(&parts, ", ");
            out.append(list.as_str());
            out.append("] }");
            out
        },
        CorruptionStrategy::StructuralCorruption { fill_byte } => {
            let n: String = text::decimal_of(*fill_byte as u64);
            text::concat3("StructuralCorruption { fill_byte: ", n.as_str(), " }")
        },
    }
}

impl Clone for LyingNode {
    fn clone(&self) -> (r: Self)
        ensures
            r.seed == self.seed,
            r.payload@ == self.payload@,
            r.strategy@ == self.strategy@,
            r.byzantine_probability == self.byzantine_probability,
    {
        LyingNode {
            seed: self.seed,
            payload: self.payload.clone(),
            strategy: self.strategy.clone(),
            byzantine_probability: self.byzantine_probability,
        }
    }
}

impl LyingNode {
    /// How a dry run explains this fault.
    pub open spec fn reason(self, node_id: Seq<char>) -> Seq<PartView> {
        seq![
            PartView::Text(
                "would corrupt "@ + text::decimal(self.payload@.len())
                    + "-byte payload for node "@ + node_id + " (strategy: "@
                    + strategy_text(self.strategy@) + ", p="@,
            ),
            PartView::Fixed { value: self.byzantine_probability, decimals: 2 },
            PartView::Text(")"@),
        ]
    }
}

impl Fault for LyingNode {
    open spec fn injects(&self, ctx: ContextView, result: ResultView) -> bool {
        result == injected_at(
            "lying_node"@,
            ctx.node_id,
            self.seed,
            self.byzantine_probability,
            ctx.timestamp_ms,
        )
    }

    open spec fn previews(&self, ctx: ContextView, report: DryRunView) -> bool {
        report == would_inject("lying_node"@, ctx.node_id, self.reason(ctx.node_id))
    }

    open spec fn is_kind(&self, kind: Seq<char>) -> bool {
        kind == "lying_node"@
    }

    fn inject(&self, ctx: &FaultContext) -> (r: FaultResult) {
        record_injected(
            "lying_node",
            ctx,
            self.seed,
            self.byzantine_probability,
            ctx.timestamp_ms,
        )
    }

    fn dry_run(&self, ctx: &FaultContext) -> (r: DryRunReport) {
        let size: String = text::decimal_of(self.payload.len() as u64);
        let strategy: String = show_strategy(&self.strategy);
        let mut words: String = text::concat3(
            "would corrupt ",
            size.as_str(),
            "-byte payload for node ",
        );
        words.append(ctx.node_id.as_str());
        words.append(" (strategy: ");
        words.append(strategy.as_str());
        words.append(", p=");
        let mut reason = Message::text(words.as_str());
        reason.push(Part::Fixed { value: self.byzantine_probability, decimals: 2 });
        reason.push_text(")");
        assert(reason@ =~= self.reason(ctx@.node_id));
        report_preview("lying_node", ctx, reason)
    }

    fn fault_type(&self) -> (r: &'static str) {
        "lying_node"
    }
}

/// Builder for [`LyingNode`].
///
/// Unset fields: seed zero, an empty payload, one flipped bit, probability one half.
#[derive(Debug, Default)]
pub struct LyingNodeBuilder {
    /// Seed of the random draws.
    pub seed: Option<u64>,
    /// Payload that an injection works on.
    pub payload: Option<Vec<u8>>,
    /// How the payload is corrupted.
    pub strategy: Option<CorruptionStrategy>,
    /// Probability that a response is corrupted.
    pub byzantine_probability: Option<Scalar>,
}

impl LyingNodeBuilder {
    /// Sets: seed of the random draws.
    pub fn seed(self, seed: u64) -> (r: Self)
        ensures
            r == (LyingNodeBuilder { seed: Some(seed), ..self }),
    {
        LyingNodeBuilder { seed: Some(seed), ..self }
    }

    /// Sets: payload that an injection works on.
    pub fn payload(self, payload: Vec<u8>) -> (r: Self)
        ensures
            r == (LyingNodeBuilder { payload: Some(payload), ..self }),
    {
        LyingNodeBuilder { payload: Some(payload), ..self }
    }

    /// Sets: how the payload is corrupted.
    pub fn strategy(self, strategy: CorruptionStrategy) -> (r: Self)
        ensures
            r == (LyingNodeBuilder { strategy: Some(strategy), ..self }),
    {
        LyingNodeBuilder { strategy: Some(strategy), ..self }
    }

    /// Sets: probability that a response is corrupted.
    pub fn byzantine_probability(self, byzantine_probability: Scalar) -> (r: Self)
        ensures
            r == (LyingNodeBuilder { byzantine_probability: Some(byzantine_probability), ..self }),
    {
        LyingNodeBuilder { byzantine_probability: Some(byzantine_probability), ..self }
    }

    /// Builds the fault.
    pub fn build(self) -> (r: LyingNode)
        ensures
            r.seed == match self.seed {
                Some(v) => v,
                None => 0u64,
            },
            r.payload@ == match self.payload {
                Some(v) => v@,
                None => Seq::<u8>::empty(),
            },
            r.strategy@ == match self.strategy {
                Some(v) => v@,
                None => (StrategyView::BitFlip { num_bits: 1 }),
            },
            r.byzantine_probability == match self.byzantine_probability {
                Some(v) => v,
                None => (Scalar { bits: 0x3FE0_0000_0000_0000 }),
            },
    {
        LyingNode {
            seed: match self.seed {
                Some(v) => v,
                None => 0,
            },
            payload: match self.payload {
                Some(v) => v,
                None => Vec::new(),
            },
            strategy: match self.strategy {
                Some(v) => v,
                None => CorruptionStrategy::BitFlip { num_bits: 1 },
            },
            byzantine_probability: match self.byzantine_probability {
                Some(v) => v,
                None => Scalar { bits: 0x3FE0_0000_0000_0000 },
            },
        }
    }
}

impl LyingNode {
    /// Starts building a fault.
    pub fn builder() -> (r: LyingNodeBuilder)
        ensures
            r == (LyingNodeBuilder { seed: None, payload: None, strategy: None, byzantine_probability: None }),
    {
        LyingNodeBuilder { seed: None, payload: None, strategy: None, byzantine_probability: None }
    }
}

/// Cuts a byte payload short.
#[derive(Debug)]
pub struct PartialResponse {
    /// Seed of the random draws.
    pub seed: u64,
    /// Payload that an injection works on.
    pub payload: Vec<u8>,
    /// Shape of the Pareto distribution of the number of bytes lost.
    pub alpha: Scalar,
    /// Scale of that distribution.
    pub x_min: Scalar,
}

impl Clone for PartialResponse {
    fn clone(&self) -> (r: Self)
        ensures
            r.seed == self.seed,
            r.payload@ == self.payload@,
            r.alpha == self.alpha,
            r.x_min == self.x_min,
    {
        PartialResponse {
            seed: self.seed,
            payload: self.payload.clone(),
            alpha: self.alpha,
            x_min: self.x_min,
        }
    }
}

/// `data` without its last `lost` bytes, or nothing if it has fewer.
pub open spec fn cut_short(data: Seq<u8>, lost: u64) -> Seq<u8> {
    if lost <= data.len() {
        data.take(data.len() - lost)
    } else {
        Seq::empty()
    }
}

impl PartialResponse {
    /// The random number of bytes that a response loses; its whole part counts.
    pub fn loss(&self) -> (r: Sample)
        ensures
            r == (Sample::Pareto { alpha: self.alpha, x_min: self.x_min, seed: self.seed }),
    {
        Sample::Pareto { alpha: self.alpha, x_min: self.x_min, seed: self.seed }
    }

    /// `data` without its last `lost` bytes.
    pub fn truncate(&self, data: Vec<u8>, lost: u64) -> (out: Vec<u8>)
        ensures
            out@ == cut_short(data@, lost),
    {
        let mut out: Vec<u8> = data;
        let keep: usize = if lost <= out.len() as u64 {
            out.len() - lost as usize
        } else {
            0
        };
        out.truncate(keep);
        assert(out@ =~= cut_short(data@, lost));
        out
    }
}

impl PartialResponse {
    /// How a dry run explains this fault.
    pub open spec fn reason(self, node_id: Seq<char>) -> Seq<PartView> {
        seq![
            PartView::Text(
                "would truncate "@ + text::decimal(self.payload@.len())
                    + "-byte payload for node "@ + node_id + " using Pareto(alpha="@,
            ),
            PartView::Fixed { value: self.alpha, decimals: 2 },
            PartView::Text(", x_min="@),
            PartView::Fixed { value: self.x_min, decimals: 2 },
            PartView::Text(")"@),
        ]
    }
}

impl Fault for PartialResponse {
    open spec fn injects(&self, ctx: ContextView, result: ResultView) -> bool {
        result == injected_at(
            "partial_response"@,
            ctx.node_id,
            self.seed,
            Scalar { bits: ONE_BITS },
            ctx.timestamp_ms,
        )
    }

    open spec fn previews(&self, ctx: ContextView, report: DryRunView) -> bool {
        report == would_inject("partial_response"@, ctx.node_id, self.reason(ctx.node_id))
    }

    open spec fn is_kind(&self, kind: Seq<char>) -> bool {
        kind == "partial_response"@
    }

    fn inject(&self, ctx: &FaultContext) -> (r: FaultResult) {
        record_injected("partial_response", ctx, self.seed, Scalar::one(), ctx.timestamp_ms)
    }

    fn dry_run(&self, ctx: &FaultContext) -> (r: DryRunReport) {
        let size: String = text::decimal_of(self.payload.len() as u64);
        let mut words: String = text::concat3(
            "would truncate ",
            size.as_str(),
            "-byte payload for node ",
        );
        words.append(ctx.node_id.as_str());
        words.append(" using Pareto(alpha=");
        let mut reason = Message::text(words.as_str());
        reason.push(Part::Fixed { value: self.alpha, decimals: 2 });
        reason.push_text(", x_min=");
        reason.push(Part::Fixed { value: self.x_min, decimals: 2 });
        reason.push_text(")");
        assert(reason@ =~= self.reason(ctx@.node_id));
        report_preview("partial_response", ctx, reason)
    }

    fn fault_type(&self) -> (r: &'static str) {
        "partial_response"
    }
}

/// Builder for [`PartialResponse`].
///
/// Unset fields: seed zero, an empty payload, shape two, scale one.
#[derive(Debug, Default)]
pub struct PartialResponseBuilder {
    /// Seed of the random draws.
    pub seed: Option<u64>,
    /// Payload that an injection works on.
    pub payload: Option<Vec<u8>>,
    /// Shape of the Pareto distribution.
    pub alpha: Option<Scalar>,
    /// Scale of the Pareto distribution.
    pub x_min: Option<Scalar>,
}

impl PartialResponseBuilder {
    /// Sets: seed of the random draws.
    pub fn seed(self, seed: u64) -> (r: Self)
        ensures
            r == (PartialResponseBuilder { seed: Some(seed), ..self }),
    {
        PartialResponseBuilder { seed: Some(seed), ..self }
    }

    /// Sets: payload that an injection works on.
    pub fn payload(self, payload: Vec<u8>) -> (r: Self)
        ensures
            r == (PartialResponseBuilder { payload: Some(payload), ..self }),
    {
        PartialResponseBuilder { payload: Some(payload), ..self }
    }

    /// Sets: shape of the Pareto distribution.
    pub fn alpha(self, alpha: Scalar) -> (r: Self)
        ensures
            r == (PartialResponseBuilder { alpha: Some(alpha), ..self }),
    {
        PartialResponseBuilder { alpha: Some(alpha), ..self }
    }

    /// Sets: scale of the Pareto distribution.
    pub fn x_min(self, x_min: Scalar) -> (r: Self)
        ensures
            r == (PartialResponseBuilder { x_min: Some(x_min), ..self }),
    {
        PartialResponseBuilder { x_min: Some(x_min), ..self }
    }

    /// Builds the fault.
    pub fn build(self) -> (r: PartialResponse)
        ensures
            r.seed == match self.seed {
                Some(v) => v,
                None => 0u64,
            },
            r.payload@ == match self.payload {
                Some(v) => v@,
                None => Seq::<u8>::empty(),
            },
            r.alpha == match self.alpha {
                Some(v) => v,
                None => (Scalar { bits: 0x4000_0000_0000_0000 }),
            },
            r.x_min == match self.x_min {
                Some(v) => v,
                None => (Scalar { bits: ONE_BITS }),
            },
    {
        PartialResponse {
            seed: match self.seed {
                Some(v) => v,
                None => 0,
            },
            payload: match self.payload {
                Some(v) => v,
                None => Vec::new(),
            },
            alpha: match self.alpha {
                Some(v) => v,
                None => Scalar { bits: 0x4000_0000_0000_0000 },
            },
            x_min: match self.x_min {
                Some(v) => v,
                None => Scalar { bits: ONE_BITS },
            },
        }
    }
}

impl PartialResponse {
    /// Starts building a fault.
    pub fn builder() -> (r: PartialResponseBuilder)
        ensures
            r == (PartialResponseBuilder { seed: None, payload: None, alpha: None, x_min: None }),
    {
        PartialResponseBuilder { seed: None, payload: None, alpha: None, x_min: None }
    }
}

/// Answers correctly, but late.
#[derive(Debug)]
pub struct SlowCorrect {
    /// Seed of the random draws.
    pub seed: u64,
    /// Payload that an injection works on.
    pub payload: Vec<u8>,
    /// Log-space mean of the delay.
    pub mu: Scalar,
    /// Log-space standard deviation of the delay.
    pub sigma: Scalar,
}

impl Clone for SlowCorrect {
    fn clone(&self) -> (r: Self)
        ensures
            r.seed == self.seed,
            r.payload@ == self.payload@,
            r.mu == self.mu,
            r.sigma == self.sigma,
    {
        SlowCorrect {
            seed: self.seed,
            payload: self.payload.clone(),
            mu: self.mu,
            sigma: self.sigma,
        }
    }
}

impl SlowCorrect {
    /// The random delay in milliseconds that an answer is held back for.
    pub fn delay(&self) -> (r: Sample)
        ensures
            r == (Sample::LogNormal { mu: self.mu, sigma: self.sigma, seed: self.seed }),
    {
        Sample::LogNormal { mu: self.mu, sigma: self.sigma, seed: self.seed }
    }

    /// How long the answer is held back, and the answer itself, unchanged.
    pub fn respond(&self, response: Vec<u8>) -> (r: (Sample, Vec<u8>))
        ensures
            r.0 == (Sample::LogNormal { mu: self.mu, sigma: self.sigma, seed: self.seed }),
            r.1@ == response@,
    {
        (self.delay(), response)
    }
}

impl SlowCorrect {
    /// How a dry run explains this fault.
    pub open spec fn reason(self, node_id: Seq<char>) -> Seq<PartView> {
        seq![
            PartView::Text("would delay response to node "@ + node_id + " by ~"@),
            PartView::Sampled {
                sample: Sample::LogNormal { mu: self.mu, sigma: self.sigma, seed: self.seed },
                decimals: 2,
            },
            PartView::Text("ms (LogNormal mu="@),
            PartView::Fixed { value: self.mu, decimals: 2 },
            PartView::Text(", sigma="@),
            PartView::Fixed { value: self.sigma, decimals: 2 },
            PartView::Text(")"@),
        ]
    }
}

impl Fault for SlowCorrect {
    open spec fn injects(&self, ctx: ContextView, result: ResultView) -> bool {
        result == injected_at(
            "slow_correct"@,
            ctx.node_id,
            self.seed,
            Scalar { bits: ONE_BITS },
            ctx.timestamp_ms,
        )
    }

    open spec fn previews(&self, ctx: ContextView, report: DryRunView) -> bool {
        report == would_inject("slow_correct"@, ctx.node_id, self.reason(ctx.node_id))
    }

    open spec fn is_kind(&self, kind: Seq<char>) -> bool {
        kind == "slow_correct"@
    }

    fn inject(&self, ctx: &FaultContext) -> (r: FaultResult) {
        record_injected("slow_correct", ctx, self.seed, Scalar::one(), ctx.timestamp_ms)
    }

    fn dry_run(&self, ctx: &FaultContext) -> (r: DryRunReport) {
        let words: String = text::concat3(
            "would delay response to node ",
            ctx.node_id.as_str(),
            " by ~",
        );
        let mut reason = Message::text(words.as_str());
        reason.push(Part::Sampled { sample: self.delay(), decimals: 2 });
        reason.push_text("ms (LogNormal mu=");
        reason.push(Part::Fixed { value: self.mu, decimals: 2 });
        reason.push_text(", sigma=");
        reason.push(Part::Fixed { value: self.sigma, decimals: 2 });
        reason.push_text(")");
        assert(reason@ =~= self.reason(ctx@.node_id));
        report_preview("slow_correct", ctx, reason)
    }

    fn fault_type(&self) -> (r: &'static str) {
        "slow_correct"
    }
}

/// Builder for [`SlowCorrect`].
///
/// Unset fields: seed zero, an empty payload, mean two, deviation one half.
#[derive(Debug, Default)]
pub struct SlowCorrectBuilder {
    /// Seed of the random draws.
    pub seed: Option<u64>,
    /// Payload that an injection works on.
    pub payload: Option<Vec<u8>>,
    /// Log-space mean of the delay.
    pub mu: Option<Scalar>,
    /// Log-space standard deviation of the delay.
    pub sigma: Option<Scalar>,
}

impl SlowCorrectBuilder {
    /// Sets: seed of the random draws.
    pub fn seed(self, seed: u64) -> (r: Self)
        ensures
            r == (SlowCorrectBuilder { seed: Some(seed), ..self }),
    {
        SlowCorrectBuilder { seed: Some(seed), ..self }
    }

    /// Sets: payload that an injection works on.
    pub fn payload(self, payload: Vec<u8>) -> (r: Self)
        ensures
            r == (SlowCorrectBuilder { payload: Some(payload), ..self }),
    {
        SlowCorrectBuilder { payload: Some(payload), ..self }
    }

    /// Sets: log-space mean of the delay.
    pub fn mu(self, mu: Scalar) -> (r: Self)
        ensures
            r == (SlowCorrectBuilder { mu: Some(mu), ..self }),
    {
        SlowCorrectBuilder { mu: Some(mu), ..self }
    }

    /// Sets: log-space standard deviation of the delay.
    pub fn sigma(self, sigma: Scalar) -> (r: Self)
        ensures
            r == (SlowCorrectBuilder { sigma: Some(sigma), ..self }),
    {
        SlowCorrectBuilder { sigma: Some(sigma), ..self }
    }

    /// Builds the fault.
    pub fn build(self) -> (r: SlowCorrect)
        ensures
            r.seed == match self.seed {
                Some(v) => v,
                None => 0u64,
            },
            r.payload@ == match self.payload {
                Some(v) => v@,
                None => Seq::<u8>::empty(),
            },
            r.mu == match self.mu {
                Some(v) => v,
                None => (Scalar { bits: 0x4000_0000_0000_0000 }),
            },
            r.sigma == match self.sigma {
                Some(v) => v,
                None => (Scalar { bits: 0x3FE0_0000_0000_0000 }),
            },
    {
        SlowCorrect {
            seed: match self.seed {
                Some(v) => v,
                None => 0,
            },
            payload: match self.payload {
                Some(v) => v,
                None => Vec::new(),
            },
            mu: match self.mu {
                Some(v) => v,
                None => Scalar { bits: 0x4000_0000_0000_0000 },
            },
            sigma: match self.sigma {
                Some(v) => v,
                None => Scalar { bits: 0x3FE0_0000_0000_0000 },
            },
        }
    }
}

impl SlowCorrect {
    /// Starts building a fault.
    pub fn builder() -> (r: SlowCorrectBuilder)
        ensures
            r == (SlowCorrectBuilder { seed: None, payload: None, mu: None, sigma: None }),
    {
        SlowCorrectBuilder { seed: None, payload: None, mu: None, sigma: None }
    }
}

/// The three Byzantine faults under one name.
#[derive(Debug)]
pub struct ByzantineSuite {
    name: String,
    profile: BifurcationProfile,
    lying_node: LyingNode,
    partial_response: PartialResponse,
    slow_correct: SlowCorrect,
}

/// Builder for [`ByzantineSuite`].
///
/// Unset fields: the name `default`, the profile of Byzantine nodes, and the
/// faults that their own builders give.
#[derive(Debug, Default)]
pub struct ByzantineSuiteBuilder {
    /// Name of the suite.
    pub name: Option<String>,
    /// Stability profile.
    pub profile: Option<BifurcationProfile>,
    /// The lying node.
    pub lying_node: Option<LyingNode>,
    /// The partial response.
    pub partial_response: Option<PartialResponse>,
    /// The slow correct answer.
    pub slow_correct: Option<SlowCorrect>,
}

impl ByzantineSuite {
    /// The name.
    pub closed spec fn title(self) -> Seq<char> {
        self.name@
    }

    /// The profile.
    pub closed spec fn stability(self) -> BifurcationProfile {
        self.profile
    }

    /// The lying node.
    pub closed spec fn liar(self) -> LyingNode {
        self.lying_node
    }

    /// The partial response.
    pub closed spec fn partial(self) -> PartialResponse {
        self.partial_response
    }

    /// The slow correct answer.
    pub closed spec fn slow(self) -> SlowCorrect {
        self.slow_correct
    }

    /// Starts building a suite.
    pub fn builder() -> (r: ByzantineSuiteBuilder)
        ensures
            r == (ByzantineSuiteBuilder {
                name: None,
                profile: None,
                lying_node: None,
                partial_response: None,
                slow_correct: None,
            }),
    {
        ByzantineSuiteBuilder {
            name: None,
            profile: None,
            lying_node: None,
            partial_response: None,
            slow_correct: None,
        }
    }

    /// The name.
    pub fn name(&self) -> (r: &str)
        ensures
            r@ == self.title(),
    {
        self.name.as_str()
    }

    /// The profile.
    pub fn profile(&self) -> (r: &BifurcationProfile)
        ensures
            *r == self.stability(),
    {
        &self.profile
    }

    /// Number of faults.
    pub fn len(&self) -> (n: usize)
        ensures
            n == 3,
    {
        3
    }

    /// A suite is never empty.
    pub fn is_empty(&self) -> (r: bool)
        ensures
            !r,
    {
        false
    }

    /// Injects the three faults in order.
    pub fn inject_all(&self, ctx: &FaultContext) -> (out: Vec<FaultResult>)
        ensures
            out@.len() == 3,
            self.liar().injects(ctx@, out@[0]@),
            self.partial().injects(ctx@, out@[1]@),
            self.slow().injects(ctx@, out@[2]@),
    {
        let mut out: Vec<FaultResult> = Vec::new();
        out.push(self.lying_node.inject(ctx));
        out.push(self.partial_response.inject(ctx));
        out.push(self.slow_correct.inject(ctx));
        out
    }
}

impl ByzantineSuiteBuilder {
    /// Sets the name.
    pub fn name(self, name: &str) -> (r: Self)
        ensures
            r.name matches Some(s) && s@ == name@,
            r == (ByzantineSuiteBuilder { name: r.name, ..self }),
    {
        ByzantineSuiteBuilder { name: Some(name.to_owned()), ..self }
    }

    /// Sets the profile.
    pub fn profile(self, profile: BifurcationProfile) -> (r: Self)
        ensures
            r == (ByzantineSuiteBuilder { profile: Some(profile), ..self }),
    {
        ByzantineSuiteBuilder { profile: Some(profile), ..self }
    }

    /// Sets the lying node.
    pub fn lying_node(self, fault: LyingNode) -> (r: Self)
        ensures
            r == (ByzantineSuiteBuilder { lying_node: Some(fault), ..self }),
    {
        ByzantineSuiteBuilder { lying_node: Some(fault), ..self }
    }

    /// Sets the partial response.
    pub fn partial_response(self, fault: PartialResponse) -> (r: Self)
        ensures
            r == (ByzantineSuiteBuilder { partial_response: Some(fault), ..self }),
    {
        ByzantineSuiteBuilder { partial_response: Some(fault), ..self }
    }

    /// Sets the slow correct answer.
    pub fn slow_correct(self, fault: SlowCorrect) -> (r: Self)
        ensures
            r == (ByzantineSuiteBuilder { slow_correct: Some(fault), ..self }),
    {
        ByzantineSuiteBuilder { slow_correct: Some(fault), ..self }
    }

    /// Builds the suite.
    pub fn build(self) -> (r: ByzantineSuite)
        ensures
            r.title() == match self.name {
                Some(name) => name@,
                None => "default"@,
            },
            match self.profile {
                Some(profile) => r.stability() == profile,
                None => r.stability().label@ == "byzantine_node"@,
            },
            self.lying_node matches Some(fault) ==> r.liar() == fault,
            self.lying_node is None ==> r.liar().seed == 0 && r.liar().payload@.len() == 0
                && r.liar().strategy@ == (StrategyView::BitFlip { num_bits: 1 })
                && r.liar().byzantine_probability == (Scalar { bits: 0x3FE0_0000_0000_0000 }),
            self.partial_response matches Some(fault) ==> r.partial() == fault,
            self.partial_response is None ==> r.partial().seed == 0
                && r.partial().payload@.len() == 0 && r.partial().alpha == (Scalar {
                bits: 0x4000_0000_0000_0000,
            }) && r.partial().x_min == (Scalar { bits: ONE_BITS }),
            self.slow_correct matches Some(fault) ==> r.slow() == fault,
            self.slow_correct is None ==> r.slow().seed == 0 && r.slow().payload@.len() == 0
                && r.slow().mu == (Scalar { bits: 0x4000_0000_0000_0000 }) && r.slow().sigma
                == (Scalar { bits: 0x3FE0_0000_0000_0000 }),
    {
        ByzantineSuite {
            name: match self.name {
                Some(name) => name,
                None => "default".to_owned(),
            },
            profile: match self.profile {
                Some(profile) => profile,
                None => BifurcationProfile::byzantine_node(),
            },
            lying_node: match self.lying_node {
                Some(fault) => fault,
                None => LyingNode::builder().build(),
            },
            partial_response: match self.partial_response {
                Some(fault) => fault,
                None => PartialResponse::builder().build(),
            },
            slow_correct: match self.slow_correct {
                Some(fault) => fault,
                None => SlowCorrect::builder().build(),
            },
        }
    }
}

} // verus!
