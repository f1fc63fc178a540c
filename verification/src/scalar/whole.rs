//! Conversion between binary64 numbers and integers.

use crate::scalar::{
    equal_values_have_equal_bits, nearest_count, round_to_count, scaled_of_zero, Scalar,
    EXPONENT_WEIGHT, SIGN_WEIGHT,
};
use vstd::arithmetic::div_mod::*;
use vstd::arithmetic::power2::*;
use vstd::prelude::*;

verus! {

/// Distance of the binary64 numbers around the integer `m`, if it is above one.
pub open spec fn unit_of(m: nat) -> nat
    decreases m,
{
    if m < 0x20_0000_0000_0000 {
        1
    } else {
        2 * unit_of(m / 2)
    }
}

/// The multiple of `unit` that is nearest to `m`; of two, the even one.
pub open spec fn nearest_even(m: nat, unit: nat) -> nat {
    let q = m / unit;
    let rest = m % unit;
    if 2 * rest > unit || (2 * rest == unit && q % 2 == 1) {
        (q + 1) * unit
    } else {
        q * unit
    }
}

/// The integer nearest to `n` that is a binary64 number.
pub open spec fn nearest_whole(n: int) -> int {
    if n < 0 {
        -(nearest_even((-n) as nat, unit_of((-n) as nat)) as int)
    } else {
        nearest_even(n as nat, unit_of(n as nat)) as int
    }
}

/// The number equal to the integer `n`, without a sign if it is zero.
pub open spec fn number_equal_to(n: int) -> Scalar {
    choose|r: Scalar|
        {
            &&& r.is_finite()
            &&& r.is_negative() <==> n < 0
            &&& #[trigger] r.scaled() == n * pow2(1075)
        }
}

proof fn number_is_unique(r: Scalar, n: int)
    requires
        r.is_finite(),
        r.is_negative() <==> n < 0,
        r.scaled() == n * pow2(1075),
    ensures
        r == number_equal_to(n),
{
    let s = number_equal_to(n);
    assert(s.is_finite() && (s.is_negative() <==> n < 0) && s.scaled() == n * pow2(1075));
    if n >= 0 {
        equal_values_have_equal_bits(r, s);
    } else {
        let a = Scalar { bits: (r.bits - SIGN_WEIGHT) as u64 };
        let b = Scalar { bits: (s.bits - SIGN_WEIGHT) as u64 };
        assert(a.magnitude() == r.magnitude());
        assert(b.magnitude() == s.magnitude());
        equal_values_have_equal_bits(a, b);
    }
}

/// Puts a number together from its sign, a significand and an exponent.
fn assemble(sig: u64, e: u64, negative: bool) -> (r: Scalar)
    requires
        EXPONENT_WEIGHT <= sig <= 2 * EXPONENT_WEIGHT,
        1 <= e <= 1100,
    ensures
        r.is_finite(),
        r.is_negative() == negative,
        r.scaled() == if negative {
            -(sig * pow2(e as nat))
        } else {
            sig * pow2(e as nat)
        },
{
    let bits: u64 = e * EXPONENT_WEIGHT + (sig - EXPONENT_WEIGHT);
    let r = Scalar {
        bits: if negative {
            bits + SIGN_WEIGHT
        } else {
            bits
        },
    };
    proof {
        assert(r.magnitude() == bits);
        if sig < 2 * EXPONENT_WEIGHT {
            assert(r.exponent() == e);
            assert(r.significand() == sig);
        } else {
            assert(bits == (e + 1) * EXPONENT_WEIGHT);
            assert(r.exponent() == e + 1);
            assert(r.significand() == EXPONENT_WEIGHT);
            lemma_pow2_unfold((e + 1) as nat);
            assert(EXPONENT_WEIGHT * (2 * pow2(e as nat)) == (2 * EXPONENT_WEIGHT) * pow2(
                e as nat,
            )) by (nonlinear_arith);
        }
    }
    r
}

/// A positive integer below two to the power 53.
fn small_to_scalar(m: u64, negative: bool) -> (r: Scalar)
    requires
        0 < m < 2 * EXPONENT_WEIGHT,
    ensures
        r.is_finite(),
        r.is_negative() == negative,
        r.scaled() == if negative {
            -(m * pow2(1075))
        } else {
            m * pow2(1075)
        },
{
    let mut sig: u64 = m;
    let mut j: u64 = 0;
    proof {
        lemma2_to64();
        lemma2_to64_rest();
        assert(m * pow2(0) == m) by {
            assert(m * 1 == m);
        }
    }
    while sig < EXPONENT_WEIGHT
        invariant
            0 < m,
            sig < 2 * EXPONENT_WEIGHT,
            sig == m * pow2(j as nat),
            j <= 52,
            pow2(52) == EXPONENT_WEIGHT,
        decreases 2 * EXPONENT_WEIGHT - sig,
    {
        proof {
            lemma_pow2_unfold((j + 1) as nat);
            lemma_pow2_pos(j as nat);
            if j == 52 {
                assert(m * pow2(52) >= pow2(52)) by (nonlinear_arith)
                    requires
                        m > 0,
                        pow2(52) > 0,
                ;
            }
            assert(m * (2 * pow2(j as nat)) == 2 * (m * pow2(j as nat))) by (nonlinear_arith);
            assert(m * pow2(j as nat) > 0) by (nonlinear_arith)
                requires
                    m > 0,
                    pow2(j as nat) > 0,
            ;
        }
        sig = sig * 2;
        j = j + 1;
    }
    let e: u64 = 1075 - j;
    proof {
        lemma_pow2_adds(j as nat, e as nat);
        assert((m * pow2(j as nat)) * pow2(e as nat) == m * (pow2(j as nat) * pow2(e as nat)))
            by (nonlinear_arith);
    }
    assemble(sig, e, negative)
}

/// The magnitude of an integer, rounded to what is a binary64 number: significand
/// and power of two.
fn round_magnitude(m: u64) -> (r: (u64, u64))
    requires
        m >= 2 * EXPONENT_WEIGHT,
    ensures
        EXPONENT_WEIGHT <= r.0 <= 2 * EXPONENT_WEIGHT,
        r.1 <= 11,
        r.0 * pow2(r.1 as nat) == nearest_even(m as nat, unit_of(m as nat)),
{
    let mut q: u64 = m;
    let mut unit: u64 = 1;
    let mut s: u64 = 0;
    proof {
        lemma2_to64();
        lemma2_to64_rest();
        assert(1 * unit_of(m as nat) == unit_of(m as nat));
        lemma_div_basics(m as int);
    }
    while q >= 2 * EXPONENT_WEIGHT
        invariant
            EXPONENT_WEIGHT <= q,
            s <= 11,
            unit == pow2(s as nat),
            pow2(11) == 2048,
            q == m / unit,
            unit > 0,
            unit_of(m as nat) == unit * unit_of(q as nat),
        decreases q,
    {
        proof {
            lemma_pow2_unfold((s + 1) as nat);
            assert(unit_of(q as nat) == 2 * unit_of((q / 2) as nat));
            assert(unit * (2 * unit_of((q / 2) as nat)) == (unit * 2) * unit_of((q / 2) as nat))
                by (nonlinear_arith);
            lemma_div_denominator(m as int, unit as int, 2);
            if s == 11 {
                lemma_div_is_ordered_by_denominator(m as int, 2048, unit as int);
                assert(m / 2048 < 2 * EXPONENT_WEIGHT);
            } else {
                lemma_pow2_strictly_increases(s as nat, 11);
            }
        }
        q = q / 2;
        unit = unit * 2;
        s = s + 1;
    }
    proof {
        assert(unit_of(q as nat) == 1);
        assert(unit * 1 == unit);
        lemma_fundamental_div_mod(m as int, unit as int);
        assert(q * unit == unit * q) by (nonlinear_arith);
        assert(0 <= m % unit < unit) by {
            lemma_mod_bound(m as int, unit as int);
        }
    }
    let rest: u64 = m % unit;
    if rest > unit - rest || (rest == unit - rest && q % 2 == 1) {
        (q + 1, s)
    } else {
        (q, s)
    }
}

fn magnitude_of(n: i64) -> (m: u64)
    ensures
        m == if n < 0 {
            -(n as int)
        } else {
            n as int
        },
{
    if n >= 0 {
        n as u64
    } else if n == i64::MIN {
        0x8000_0000_0000_0000
    } else {
        (-n) as u64
    }
}

/// The number nearest to an integer.
pub fn from_i64(n: i64) -> (r: Scalar)
    ensures
        r == number_equal_to(nearest_whole(n as int)),
        r.is_finite(),
        r.scaled() == nearest_whole(n as int) * pow2(1075),
{
    let m: u64 = magnitude_of(n);
    let negative: bool = n < 0;
    let ghost want = nearest_whole(n as int);
    if m == 0 {
        proof {
            assert(nearest_even(0, 1) == 0);
            let zero = Scalar { bits: 0 };
            scaled_of_zero(zero);
            assert(0 * pow2(1075) == 0) by (nonlinear_arith);
            number_is_unique(zero, 0);
        }
        return Scalar::zero();
    }
    if m < 2 * EXPONENT_WEIGHT {
        let r = small_to_scalar(m, negative);
        proof {
            lemma_div_basics(m as int);
            assert(m as nat % 1 == 0);
            assert(nearest_even(m as nat, 1) == m);
            assert((-(m as int)) * pow2(1075) == -(m * pow2(1075))) by (nonlinear_arith);
            number_is_unique(r, want);
        }
        return r;
    }
    let (sig, s) = round_magnitude(m);
    let r = assemble(sig, 1075 + s, negative);
    proof {
        lemma_pow2_adds(s as nat, 1075);
        let v = (sig * pow2(s as nat)) as int;
        assert(sig * (pow2(s as nat) * pow2(1075)) == v * pow2(1075)) by (nonlinear_arith)
            requires
                v == sig * pow2(s as nat),
        ;
        assert((-v) * pow2(1075) == -(v * pow2(1075))) by (nonlinear_arith);
        lemma_pow2_pos(s as nat);
        assert(v > 0) by (nonlinear_arith)
            requires
                v == sig * pow2(s as nat),
                sig > 0,
                pow2(s as nat) > 0,
        ;
        number_is_unique(r, want);
    }
    r
}

/// The value of [`from_i64`] as an integer.
pub fn whole_of_i64(n: i64) -> (r: i128)
    ensures
        r == nearest_whole(n as int),
        -0x8000_0000_0000_0000 <= r <= 0x8000_0000_0000_0000,
{
    let m: u64 = magnitude_of(n);
    if m < 2 * EXPONENT_WEIGHT {
        proof {
            lemma_div_basics(m as int);
            assert(m as nat % 1 == 0);
            assert(nearest_even(m as nat, 1) == m);
        }
        return n as i128;
    }
    let (sig, s) = round_magnitude(m);
    let mut v: i128 = sig as i128;
    let mut i: u64 = 0;
    proof {
        lemma2_to64();
        assert(sig * pow2(0) == sig) by {
            assert(sig * 1 == sig);
        }
    }
    while i < s
        invariant
            i <= s <= 11,
            sig <= 2 * EXPONENT_WEIGHT,
            v == sig * pow2(i as nat),
            pow2(11) == 2048,
        decreases s - i,
    {
        proof {
            lemma_pow2_unfold((i + 1) as nat);
            lemma_pow2_strictly_increases(i as nat, 11);
            assert(sig * pow2(i as nat) <= 2 * EXPONENT_WEIGHT * 2048) by (nonlinear_arith)
                requires
                    sig <= 2 * EXPONENT_WEIGHT,
                    pow2(i as nat) <= 2048,
            ;
            assert(sig * (2 * pow2(i as nat)) == 2 * (sig * pow2(i as nat))) by (nonlinear_arith);
        }
        v = v * 2;
        i = i + 1;
    }
    proof {
        crate::scalar::nearest::rounding_is_exact(n as int);
    }
    if n < 0 {
        -v
    } else {
        v
    }
}

/// The whole number nearest to a finite number, with halves rounded away from zero.
pub open spec fn rounded(a: Scalar) -> int {
    if a.is_negative() {
        -((2 * -a.scaled() + pow2(1075)) / (2 * pow2(1075)) as int)
    } else {
        (2 * a.scaled() + pow2(1075)) / (2 * pow2(1075)) as int
    }
}

/// The whole number nearest to `a` that lies between `lo` and `hi`.
pub open spec fn rounded_within(a: Scalar, lo: int, hi: int) -> int {
    if a.is_finite() {
        if rounded(a) < lo {
            lo
        } else if rounded(a) > hi {
            hi
        } else {
            rounded(a)
        }
    } else if a.is_negative() {
        lo
    } else {
        hi
    }
}

/// The number nearest to `a` on the whole numbers from `lo` to `hi`, computed in 64
/// bits. What is no number becomes zero.
pub open spec fn snapped(a: Scalar, lo: i64, hi: i64) -> Scalar {
    if a.is_nan() {
        Scalar { bits: 0 }
    } else {
        let whole = rounded_within(a, nearest_whole(lo as int), nearest_whole(hi as int));
        number_equal_to(
            nearest_whole(
                if whole > i64::MAX {
                    i64::MAX as int
                } else {
                    whole
                },
            ),
        )
    }
}

/// The number nearest to `a` on the whole numbers from `lo` to `hi`.
pub fn snap(a: Scalar, lo: i64, hi: i64) -> (r: Scalar)
    requires
        nearest_whole(lo as int) <= nearest_whole(hi as int),
    ensures
        r == snapped(a, lo, hi),
{
    let m: u64 = a.bits % SIGN_WEIGHT;
    if m > crate::scalar::INFINITY_BITS {
        return Scalar::zero();
    }
    let low: i128 = whole_of_i64(lo);
    let high: i128 = whole_of_i64(hi);
    let negative: bool = a.bits >= SIGN_WEIGHT;
    let bare = Scalar { bits: m };
    let count: u64 = round_to_count(bare);
    let value: i128 = if negative {
        -(count as i128)
    } else {
        count as i128
    };
    proof {
        assert(bare.magnitude() == a.magnitude());
        assert(bare.is_finite() == a.is_finite());
        if a.is_finite() {
            assert(bare.scaled() == if negative {
                -a.scaled()
            } else {
                a.scaled()
            });
            assert(rounded(a) == if negative {
                -rounded(bare)
            } else {
                rounded(bare)
            });
            lemma_pow2_pos(1075);
            lemma_pow2_pos(bare.exponent());
            assert(bare.significand() * pow2(bare.exponent()) >= 0) by (nonlinear_arith);
            lemma_div_pos_is_pos(2 * bare.scaled() + pow2(1075), (2 * pow2(1075)) as int);
            assert(count == if rounded(bare) > u64::MAX {
                u64::MAX as int
            } else {
                rounded(bare)
            });
        }
    }
    let whole: i128 = if value < low {
        low
    } else if value > high {
        high
    } else {
        value
    };
    proof {
        assert(whole == rounded_within(a, nearest_whole(lo as int), nearest_whole(hi as int)));
    }
    let held: i64 = if whole > i64::MAX as i128 {
        i64::MAX
    } else {
        whole as i64
    };
    from_i64(held)
}

} // verus!
