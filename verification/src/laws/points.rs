//! Laws of real-valued parameters: bounding, rounding, random draws, and the points of a search.

use crate::scalar::nearest::is_integer;
use crate::scalar::whole::{nearest_whole, rounded, snapped};
use crate::scalar::{draw_is_below, nearest_count, Scalar};
use crate::search::Dimension;
use vstd::arithmetic::power2::*;
use vstd::prelude::*;

verus! {

/// The patterns of one and zero stand for one and zero.
pub proof fn one_is_one()
    ensures
        (Scalar { bits: 0x3FF0_0000_0000_0000 }).is_finite(),
        (Scalar { bits: 0x3FF0_0000_0000_0000 }).scaled() == pow2(1075),
        (Scalar { bits: 0 }).is_finite(),
        (Scalar { bits: 0 }).scaled() == 0,
{
    let one = Scalar { bits: 0x3FF0_0000_0000_0000 };
    assert(one.significand() == 0x10_0000_0000_0000);
    assert(one.exponent() == 1023);
    lemma2_to64();
    lemma2_to64_rest();
    lemma_pow2_adds(52, 1023);
    crate::scalar::scaled_of_zero(Scalar { bits: 0 });
}

/// Bounding to the numbers from zero to one gives zero for what is negative, one for what is
/// above one, and leaves every other number as it is.
pub proof fn bounding_moves_no_further_than_it_must(a: Scalar)
    ensures
        a.is_finite() && a.scaled() < 0 ==> a.unit_clamped() == (Scalar { bits: 0 }),
        a.is_finite() && a.scaled() > pow2(1075) ==> a.unit_clamped() == (Scalar {
            bits: 0x3FF0_0000_0000_0000,
        }),
        a.is_finite() && 0 <= a.scaled() <= pow2(1075) ==> a.unit_clamped() == a,
        a.bits == 0x7FF0_0000_0000_0000 ==> a.unit_clamped() == (Scalar {
            bits: 0x3FF0_0000_0000_0000,
        }),
        a.bits == 0xFFF0_0000_0000_0000 ==> a.unit_clamped() == (Scalar { bits: 0 }),
{
    one_is_one();
    if a.is_finite() {
        crate::scalar::below_is_numeric(a, Scalar { bits: 0 });
        crate::scalar::below_is_numeric(Scalar { bits: 0x3FF0_0000_0000_0000 }, a);
    }
}

/// A draw is uniform: of the words in order, exactly the first share falls below a probability.
/// Below `m` parts of two to the power 53 fall the words whose high 53 bits are below `m`.
pub proof fn the_share_of_words_is_the_probability(word: u64, p: Scalar, m: int)
    requires
        p.is_finite(),
        p.scaled() == m * pow2(1022),
    ensures
        draw_is_below(word, p) <==> word / 2048 < m,
{
    lemma_pow2_pos(1022);
    let k = (word / 2048) as int;
    let q = pow2(1022) as int;
    if k < m {
        assert(k * q < m * q) by (nonlinear_arith)
            requires
                k < m,
                q > 0,
        ;
    } else {
        assert(k * q >= m * q) by (nonlinear_arith)
            requires
                k >= m,
                q > 0,
        ;
    }
}

/// A draw that falls below a probability falls below every larger one, and so does every
/// smaller word.
pub proof fn draws_are_monotone(word: u64, other: u64, p: Scalar, q: Scalar)
    requires
        draw_is_below(word, p),
        other <= word,
        p.is_finite(),
        q.is_finite(),
        !q.below(p),
    ensures
        draw_is_below(other, q),
{
    crate::scalar::below_is_numeric(q, p);
    let a = (word / 2048) as int;
    let b = (other / 2048) as int;
    let u = pow2(1022) as int;
    assert(b * u <= a * u) by (nonlinear_arith)
        requires
            b <= a,
            u >= 0,
    ;
}

/// A count is the whole number nearest to a number, halves rounded up; nothing negative counts.
pub proof fn counts_are_nearest(a: Scalar)
    requires
        a.is_finite(),
    ensures
        a.is_negative() ==> nearest_count(a) == 0,
        !a.is_negative() && nearest_count(a) < u64::MAX ==> 2 * nearest_count(a) * pow2(1075)
            - pow2(1075) <= 2 * a.scaled() < 2 * nearest_count(a) * pow2(1075) + pow2(1075),
{
    let p = pow2(1075) as int;
    lemma_pow2_pos(1075);
    let s = a.scaled();
    let n = (2 * s + p) / (2 * p);
    vstd::arithmetic::div_mod::lemma_fundamental_div_mod(2 * s + p, 2 * p);
    vstd::arithmetic::div_mod::lemma_mod_bound(2 * s + p, 2 * p);
    if !a.is_negative() {
        assert(s >= 0) by {
            lemma_pow2_pos(a.exponent());
            assert(a.significand() * pow2(a.exponent()) >= 0) by (nonlinear_arith);
        }
        assert((2 * p) * n == 2 * n * p) by (nonlinear_arith);
        vstd::arithmetic::div_mod::lemma_div_pos_is_pos(2 * s + p, 2 * p);
        if nearest_count(a) < u64::MAX {
            assert(nearest_count(a) == n);
        }
    }
}

/// Turning the sign of a real number turns the sign of what it stands for.
pub proof fn turned_numbers_are_opposite(a: Scalar)
    requires
        a.is_finite(),
    ensures
        a.negated().is_finite(),
        a.negated().scaled() == -a.scaled(),
{
    assert(a.negated().magnitude() == a.magnitude());
}

/// A value of a continuous dimension stays as it is between the bounds, and becomes the bound
/// that it lies beyond.
pub proof fn continuous_values_are_bounded(lo: Scalar, hi: Scalar, name: String, raw: Scalar)
    ensures
        ({
            let value = (Dimension::Continuous { lo, hi, name }).decoded(raw);
            &&& raw.below(lo) ==> value == lo
            &&& !raw.below(lo) && hi.below(raw) ==> value == hi
            &&& !raw.below(lo) && !hi.below(raw) ==> value == raw
        }),
{
}

proof fn small_integers_are_exact(n: int)
    requires
        -0x20_0000_0000_0000 < n < 0x20_0000_0000_0000,
    ensures
        nearest_whole(n) == n,
{
    let m = (if n < 0 {
        -n
    } else {
        n
    }) as nat;
    vstd::arithmetic::div_mod::lemma_div_basics(m as int);
    assert(m % 1 == 0);
    assert(crate::scalar::whole::nearest_even(m, 1) == m);
}

/// The distance of a number from an integer, in units of two to the power -1075.
pub open spec fn distance(a: Scalar, m: int) -> int {
    let d = a.scaled() - m * pow2(1075);
    if d < 0 {
        -d
    } else {
        d
    }
}

/// A value of an integer dimension is the integer between the bounds that is nearest to the raw
/// value.
pub proof fn integer_values_are_nearest(raw: Scalar, lo: i64, hi: i64, m: int) -> (n: int)
    requires
        raw.is_finite(),
        -0x20_0000_0000_0000 < lo <= hi < 0x20_0000_0000_0000,
        lo <= m <= hi,
    ensures
        is_integer(snapped(raw, lo, hi), n),
        lo <= n <= hi,
        distance(raw, n) <= distance(raw, m),
{
    let p = pow2(1075) as int;
    lemma_pow2_pos(1075);
    small_integers_are_exact(lo as int);
    small_integers_are_exact(hi as int);
    let r = rounded(raw);
    let n = crate::scalar::whole::rounded_within(raw, lo as int, hi as int);
    small_integers_are_exact(n);
    crate::scalar::nearest::rounded_integer_is_number(n);
    assert(is_integer(snapped(raw, lo, hi), n));
    let s = raw.scaled();
    let t = if raw.is_negative() {
        -s
    } else {
        s
    };
    let q = (2 * t + p) / (2 * p);
    vstd::arithmetic::div_mod::lemma_fundamental_div_mod(2 * t + p, 2 * p);
    vstd::arithmetic::div_mod::lemma_mod_bound(2 * t + p, 2 * p);
    assert(r == if raw.is_negative() {
        -q
    } else {
        q
    });
    assert((2 * p) * q == 2 * (q * p)) by (nonlinear_arith);
    assert(r * p == if raw.is_negative() {
        -(q * p)
    } else {
        q * p
    }) by (nonlinear_arith)
        requires
            r == if raw.is_negative() {
                -q
            } else {
                q
            },
    ;
    let d = s - r * p;
    assert(-p <= 2 * d <= p);
    nearest_of_two(s, r, n, m, p);
    n
}

proof fn nearest_of_two(s: int, r: int, n: int, m: int, p: int)
    requires
        p > 0,
        -p <= 2 * (s - r * p) <= p,
        n == r || (n < r && m <= n) || (n > r && m >= n),
    ensures
        ({
            let a = s - n * p;
            let b = s - m * p;
            (if a < 0 {
                -a
            } else {
                a
            }) <= (if b < 0 {
                -b
            } else {
                b
            })
        }),
{
    if n == r {
        if m < r {
            assert(m * p <= r * p - p) by (nonlinear_arith)
                requires
                    m <= r - 1,
                    p > 0,
            ;
        } else if m > r {
            assert(m * p >= r * p + p) by (nonlinear_arith)
                requires
                    m >= r + 1,
                    p > 0,
            ;
        }
    } else if n < r {
        assert(m * p <= n * p && n * p <= r * p - p) by (nonlinear_arith)
            requires
                m <= n,
                n <= r - 1,
                p > 0,
        ;
    } else {
        assert(m * p >= n * p && n * p >= r * p + p) by (nonlinear_arith)
            requires
                m >= n,
                n >= r + 1,
                p > 0,
        ;
    }
}

} // verus!
