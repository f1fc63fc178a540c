//! Laws of corrupted payloads: which bits a flip can reach, and what stays of a payload.

use crate::faults::byzantine::{corrupted, cut_short, shuffled, substituted, StrategyView};
use crate::faults::byzantine::{ByzantineProfile, LyingNode};
use crate::rng::{seed_words, words_from};
use crate::scalar::{draw_is_below, Scalar};
use vstd::arithmetic::power2::pow2;
use vstd::prelude::*;

verus! {

proof fn shuffle_reads_its_words_alone(total: nat, a: Seq<u64>, b: Seq<u64>, n: nat)
    requires
        n <= total,
        n <= a.len(),
        n <= b.len(),
        forall|i: int|
            0 <= i < n ==> #[trigger] a[i] as int % (total - i) == b[i] as int % (total - i),
    ensures
        shuffled(total, a, n) == shuffled(total, b, n),
    decreases n,
{
    if n > 0 {
        shuffle_reads_its_words_alone(total, a, b, (n - 1) as nat);
        assert(a[n - 1] as int % (total - (n - 1)) == b[n - 1] as int % (total - (n - 1)));
    }
}

/// A flip can reach every choice of bits: for any places, none named twice, there are words that
/// choose exactly these, in their order.
pub proof fn every_choice_of_bits_can_be_drawn(total: nat, places: Seq<int>) -> (words: Seq<u64>)
    requires
        total <= u64::MAX,
        places.no_duplicates(),
        places.len() <= total,
        forall|i: int| 0 <= i < places.len() ==> 0 <= #[trigger] places[i] < total,
    ensures
        words.len() == places.len(),
        forall|i: int| 0 <= i < words.len() ==> #[trigger] words[i] < total - i,
        shuffled(total, words, places.len()).take(places.len() as int) == places,
    decreases places.len(),
{
    if places.len() == 0 {
        let words = Seq::<u64>::empty();
        assert(shuffled(total, words, 0).take(0) =~= places);
        words
    } else {
        let n = places.len();
        let front = places.drop_last();
        let t = places.last();
        assert(front.no_duplicates()) by {
            assert forall|i: int, j: int|
                0 <= i < front.len() && 0 <= j < front.len() && i != j implies front[i]
                != front[j] by {
                assert(places[i] != places[j]);
            }
        }
        assert forall|i: int| 0 <= i < front.len() implies 0 <= #[trigger] front[i] < total by {
            assert(places[i] == front[i]);
        }
        let w = every_choice_of_bits_can_be_drawn(total, front);
        let p = shuffled(total, w, (n - 1) as nat);
        crate::faults::byzantine::shuffled_is_permutation(total, w, (n - 1) as nat);
        let j = place_of(p, total, t);
        assert(j >= n - 1) by {
            if j < n - 1 {
                assert(p.take(n - 1)[j] == front[j]);
                assert(places[j] == places[n - 1]);
            }
        }
        let word = (j - (n - 1)) as u64;
        let words = w.push(word);
        assert forall|i: int| 0 <= i < n - 1 implies #[trigger] words[i] as int % (total - i)
            == w[i] as int % (total - i) by {
            assert(words[i] == w[i]);
        }
        shuffle_reads_its_words_alone(total, words, w, (n - 1) as nat);
        assert(words[n - 1] == word);
        vstd::arithmetic::div_mod::lemma_small_mod(
            word as nat,
            (total - (n - 1)) as nat,
        );
        let q = shuffled(total, words, n);
        assert(q == p.update(n - 1, p[j]).update(j, p[n - 1]));
        assert(q.take(n as int) =~= places) by {
            assert forall|i: int| 0 <= i < n implies q[i] == places[i] by {
                if i < n - 1 {
                    assert(q[i] == p[i]);
                    assert(p.take(n - 1)[i] == front[i]);
                }
            }
        }
        words
    }
}

/// In a permutation every number has a place.
proof fn place_of(p: Seq<int>, total: nat, t: int) -> (j: int)
    requires
        p.len() == total,
        p.no_duplicates(),
        forall|i: int| 0 <= i < total ==> 0 <= #[trigger] p[i] < total,
        0 <= t < total,
    ensures
        0 <= j < total,
        p[j] == t,
{
    p.unique_seq_to_set();
    let all = vstd::set_lib::set_int_range(0, total as int);
    vstd::set_lib::lemma_int_range(0, total as int);
    assert(p.to_set().subset_of(all)) by {
        assert forall|x: int| p.to_set().contains(x) implies all.contains(x) by {
            let i = choose|i: int| 0 <= i < p.len() && p[i] == x;
        }
    }
    vstd::set_lib::lemma_subset_equality(p.to_set(), all);
    assert(p.to_set().contains(t));
    choose|j: int| 0 <= j < p.len() && p[j] == t
}

/// Different draws choose different bits: if two lists of words choose the same places, their
/// words agree step by step, each taken modulo the number of places that are still free.
pub proof fn different_words_choose_different_bits(total: nat, a: Seq<u64>, b: Seq<u64>, n: nat)
    requires
        n <= total,
        n <= a.len(),
        n <= b.len(),
        shuffled(total, a, n).take(n as int) == shuffled(total, b, n).take(n as int),
    ensures
        forall|i: int|
            0 <= i < n ==> #[trigger] a[i] as int % (total - i) == b[i] as int % (total - i),
    decreases n,
{
    if n > 0 {
        let m = (n - 1) as nat;
        crate::faults::byzantine::shuffled_is_permutation(total, a, m);
        crate::faults::byzantine::shuffled_is_permutation(total, b, m);
        let p = shuffled(total, a, m);
        let q = shuffled(total, b, m);
        let x = shuffled(total, a, n);
        let y = shuffled(total, b, n);
        let free = total - m;
        vstd::arithmetic::div_mod::lemma_mod_bound(a[m as int] as int, free);
        vstd::arithmetic::div_mod::lemma_mod_bound(b[m as int] as int, free);
        let j = m + a[m as int] as int % free;
        let k = m + b[m as int] as int % free;
        assert(p.take(m as int) =~= q.take(m as int)) by {
            assert forall|i: int| 0 <= i < m implies p[i] == q[i] by {
                assert(x[i] == p[i] && y[i] == q[i]);
                assert(x.take(n as int)[i] == y.take(n as int)[i]);
            }
        }
        different_words_choose_different_bits(total, a, b, m);
        shuffle_reads_its_words_alone(total, a, b, m);
        assert(x.take(n as int)[m as int] == y.take(n as int)[m as int]);
        assert(x[m as int] == p[j]);
        assert(y[m as int] == q[k]);
        assert(j == k);
    }
}

/// The bits of a payload are those of its bytes, the lowest first.
pub proof fn bits_make_up_the_bytes(data: Seq<u8>, i: int)
    requires
        0 <= i < data.len(),
    ensures
        data[i] == weight(data, i, 0, 1) + weight(data, i, 1, 2) + weight(data, i, 2, 4) + weight(
            data,
            i,
            3,
            8,
        ) + weight(data, i, 4, 16) + weight(data, i, 5, 32) + weight(data, i, 6, 64) + weight(
            data,
            i,
            7,
            128,
        ),
{
    let b = data[i];
    assert forall|k: int| 0 <= k < 8 implies (#[trigger] (8 * i + k)) / 8 == i && (8 * i + k) % 8
        == k by {}
    assert((8 * i + 0) / 8 == i && (8 * i + 0) % 8 == 0);
    assert((8 * i + 1) / 8 == i && (8 * i + 1) % 8 == 1);
    assert((8 * i + 2) / 8 == i && (8 * i + 2) % 8 == 2);
    assert((8 * i + 3) / 8 == i && (8 * i + 3) % 8 == 3);
    assert((8 * i + 4) / 8 == i && (8 * i + 4) % 8 == 4);
    assert((8 * i + 5) / 8 == i && (8 * i + 5) % 8 == 5);
    assert((8 * i + 6) / 8 == i && (8 * i + 6) % 8 == 6);
    assert((8 * i + 7) / 8 == i && (8 * i + 7) % 8 == 7);
    assert(b == ((b >> 0u8) & 1u8) + 2 * ((b >> 1u8) & 1u8) + 4 * ((b >> 2u8) & 1u8) + 8 * ((b
        >> 3u8) & 1u8) + 16 * ((b >> 4u8) & 1u8) + 32 * ((b >> 5u8) & 1u8) + 64 * ((b >> 6u8)
        & 1u8) + 128 * ((b >> 7u8) & 1u8)) by (bit_vector);
    assert((b >> 0u8) & 1u8 <= 1 && (b >> 1u8) & 1u8 <= 1 && (b >> 2u8) & 1u8 <= 1 && (b >> 3u8)
        & 1u8 <= 1 && (b >> 4u8) & 1u8 <= 1 && (b >> 5u8) & 1u8 <= 1 && (b >> 6u8) & 1u8 <= 1 && (b
        >> 7u8) & 1u8 <= 1) by (bit_vector);
}

/// What bit `k` of the byte at `i` counts.
pub open spec fn weight(data: Seq<u8>, i: int, k: int, counts: int) -> int {
    if crate::faults::byzantine::bit_at(data, 8 * i + k) {
        counts
    } else {
        0
    }
}

/// A substitution puts the replacement in place from the offset on, as far as the payload
/// reaches, and keeps what comes before and after.
pub proof fn substitutions_keep_the_rest(data: Seq<u8>, offset: int, replacement: Seq<u8>)
    requires
        0 <= offset,
    ensures
        substituted(data, offset, replacement).len() == data.len(),
        offset >= data.len() ==> substituted(data, offset, replacement) == data,
        offset + replacement.len() <= data.len() ==> substituted(data, offset, replacement)
            == data.take(offset) + replacement + data.skip(offset + replacement.len()),
        offset < data.len() < offset + replacement.len() ==> substituted(data, offset, replacement)
            == data.take(offset) + replacement.take(data.len() - offset),
{
    let out = substituted(data, offset, replacement);
    if offset >= data.len() {
        assert(out =~= data);
    } else if offset + replacement.len() <= data.len() {
        assert(out =~= data.take(offset) + replacement + data.skip(offset + replacement.len()));
    } else {
        assert(out =~= data.take(offset) + replacement.take(data.len() - offset));
    }
}

/// Each strategy keeps the length of a payload; a structural corruption leaves only fill bytes,
/// and a substitution leaves what it does not reach.
pub proof fn corruption_keeps_the_length(
    strategy: StrategyView,
    before: Seq<u8>,
    words: Seq<u64>,
    after: Seq<u8>,
)
    requires
        corrupted(strategy, before, words, after),
    ensures
        after.len() == before.len(),
        strategy matches StrategyView::StructuralCorruption { fill_byte } ==> forall|i: int|
            0 <= i < after.len() ==> #[trigger] after[i] == fill_byte,
        strategy matches StrategyView::FieldSubstitution { offset, replacement } ==> forall|i: int|
            0 <= i < after.len() ==> #[trigger] after[i] == if offset <= i < offset
                + replacement.len() {
                replacement[i - offset]
            } else {
                before[i]
            },
{
}

/// A truncated payload is the start of the payload, shorter by what was lost, or nothing if more
/// was lost than there was.
pub proof fn truncation_keeps_the_start(data: Seq<u8>, lost: u64)
    ensures
        cut_short(data, lost).is_prefix_of(data),
        lost <= data.len() ==> cut_short(data, lost).len() + lost == data.len(),
        lost > data.len() ==> cut_short(data, lost).len() == 0,
{
}

/// Whether a response is corrupted: never at a probability of zero or less, always at one or
/// more, and by the draw in between.
pub proof fn probability_decides_about_lies(profile: ByzantineProfile, word: u64)
    requires
        profile.probability.is_finite(),
    ensures
        profile.probability.scaled() <= 0 ==> !profile.decision(word),
        profile.probability.scaled() >= pow2(1075) ==> profile.decision(word),
        0 < profile.probability.scaled() < pow2(1075) ==> (profile.decision(word) <==> draw_is_below(
            word,
            profile.probability,
        )),
{
    let p = profile.probability;
    let one = crate::scalar::Scalar { bits: 0x3FF0_0000_0000_0000 };
    let zero = crate::scalar::Scalar { bits: 0 };
    crate::laws::points::one_is_one();
    crate::scalar::below_is_numeric(zero, p);
    crate::scalar::below_is_numeric(p, one);
}

/// A node that always lies answers with a corruption under the first words of its seed; one that
/// never lies answers with the response itself; and one that is undecided spends the first word
/// on the decision and corrupts with those after it.
pub proof fn lies_follow_the_seed(node: LyingNode, response: Seq<u8>, out: Seq<u8>)
    ensures
        node.profile().is_never() ==> (node.answers(response, out) <==> out == response),
        node.profile().is_always() ==> (node.answers(response, out) <==> corrupted(
            node.strategy@,
            response,
            words_from(seed_words(node.seed), 0, flips(node.strategy@, response.len())),
            out,
        )),
        !node.profile().is_never() && !node.profile().is_always() ==> (node.answers(response, out)
            <==> if draw_is_below(seed_words(node.seed)[0], node.byzantine_probability) {
            corrupted(
                node.strategy@,
                response,
                words_from(seed_words(node.seed), 1, flips(node.strategy@, response.len())),
                out,
            )
        } else {
            out == response
        }),
{
}

/// A decision takes a random word exactly where the probability leaves it open.
pub proof fn words_are_spent_on_open_questions(profile: ByzantineProfile)
    ensures
        profile.words_taken() == if profile.probability.is_nan() || ((Scalar { bits: 0 }).below(
            profile.probability,
        ) && profile.probability.below(Scalar { bits: 0x3FF0_0000_0000_0000 })) {
            1nat
        } else {
            0nat
        },
{
}

/// How many bits a strategy inverts in a payload of `len` bytes: those that were asked for, but
/// no more than there are.
pub open spec fn flips(strategy: StrategyView, len: nat) -> nat {
    match strategy {
        StrategyView::BitFlip { num_bits } => vstd::math::min(num_bits as int, 8 * len as int) as nat,
        _ => 0,
    }
}

} // verus!
