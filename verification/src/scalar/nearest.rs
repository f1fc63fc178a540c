//! Order and exactness of the rounding of integers to binary64 numbers.

use crate::scalar::whole::{nearest_even, nearest_whole, number_equal_to, snapped, unit_of};
use crate::scalar::{Scalar, EXPONENT_WEIGHT, SIGN_WEIGHT};
use vstd::arithmetic::div_mod::*;
use vstd::arithmetic::power2::*;
use vstd::prelude::*;

verus! {

/// True if the number `a` is the integer `n`.
pub open spec fn is_integer(a: Scalar, n: int) -> bool {
    a.is_finite() && a.scaled() == n * pow2(1075)
}

/// The number with the given sign, significand and exponent.
spec fn pattern(sig: nat, e: nat, negative: bool) -> Scalar {
    let bits = e * EXPONENT_WEIGHT + sig - EXPONENT_WEIGHT;
    Scalar {
        bits: if negative {
            (bits + SIGN_WEIGHT) as u64
        } else {
            bits as u64
        },
    }
}

proof fn pattern_value(sig: nat, e: nat, negative: bool)
    requires
        EXPONENT_WEIGHT <= sig <= 2 * EXPONENT_WEIGHT,
        1 <= e <= 1100,
    ensures
        pattern(sig, e, negative).is_finite(),
        pattern(sig, e, negative).is_negative() == negative,
        pattern(sig, e, negative).scaled() == if negative {
            -(sig * pow2(e))
        } else {
            (sig * pow2(e)) as int
        },
{
    let r = pattern(sig, e, negative);
    let bits = e * EXPONENT_WEIGHT + sig - EXPONENT_WEIGHT;
    assert(r.magnitude() == bits);
    if sig < 2 * EXPONENT_WEIGHT {
        assert(r.exponent() == e);
        assert(r.significand() == sig);
    } else {
        assert(bits == (e + 1) * EXPONENT_WEIGHT);
        assert(r.exponent() == e + 1);
        assert(r.significand() == EXPONENT_WEIGHT);
        lemma_pow2_unfold(e + 1);
        assert(EXPONENT_WEIGHT * (2 * pow2(e)) == (2 * EXPONENT_WEIGHT) * pow2(e))
            by (nonlinear_arith);
    }
}

/// The power of two that brings `m` into the range of a significand.
proof fn shift_of(m: nat) -> (j: nat)
    requires
        0 < m < 2 * EXPONENT_WEIGHT,
    ensures
        j <= 52,
        EXPONENT_WEIGHT <= m * pow2(j) < 2 * EXPONENT_WEIGHT,
    decreases 2 * EXPONENT_WEIGHT - m,
{
    lemma2_to64();
    lemma2_to64_rest();
    if m >= EXPONENT_WEIGHT {
        assert(m * pow2(0) == m) by {
            assert(m * 1 == m);
        }
        0
    } else {
        let i = shift_of(2 * m);
        lemma_pow2_unfold(i + 1);
        assert((2 * m) * pow2(i) == m * (2 * pow2(i))) by (nonlinear_arith);
        if i + 1 > 52 {
            assert(pow2(53) == 2 * EXPONENT_WEIGHT);
            assert(m * pow2(i + 1) >= pow2(i + 1)) by (nonlinear_arith)
                requires
                    m > 0,
            ;
        }
        i + 1
    }
}

/// The unit of `m` is a power of two, and counts `m` in a significand.
proof fn unit_is_power(m: nat) -> (s: nat)
    requires
        m <= 0x8000_0000_0000_0000,
    ensures
        unit_of(m) == pow2(s),
        s <= 11,
        m / unit_of(m) < 2 * EXPONENT_WEIGHT,
        m >= EXPONENT_WEIGHT ==> m / unit_of(m) >= EXPONENT_WEIGHT,
    decreases m,
{
    lemma2_to64();
    lemma2_to64_rest();
    if m < 2 * EXPONENT_WEIGHT {
        lemma_div_basics(m as int);
        0
    } else {
        let t = unit_is_power(m / 2);
        let u = unit_of(m / 2);
        lemma_pow2_unfold(t + 1);
        lemma_pow2_pos(t);
        lemma_div_denominator(m as int, 2, u as int);
        assert(unit_of(m) == 2 * u);
        if t + 1 > 11 {
            let q = (m / 2) as int / u as int;
            lemma_fundamental_div_mod((m / 2) as int, u as int);
            lemma_mod_bound((m / 2) as int, u as int);
            assert(u == 2048);
            assert(u * q >= 2048 * EXPONENT_WEIGHT) by (nonlinear_arith)
                requires
                    u == 2048,
                    q >= EXPONENT_WEIGHT,
            ;
        }
        t + 1
    }
}

/// A rounded magnitude is a count of units that fits in a significand.
proof fn nearest_even_counts(m: nat) -> (sig: nat)
    requires
        m <= 0x8000_0000_0000_0000,
    ensures
        unit_of(m) > 0,
        nearest_even(m, unit_of(m)) == sig * unit_of(m),
        sig == m / unit_of(m) + if 2 * (m % unit_of(m)) > unit_of(m) || (2 * (m % unit_of(m))
            == unit_of(m) && (m / unit_of(m)) % 2 == 1) {
            1nat
        } else {
            0nat
        },
        sig <= 2 * EXPONENT_WEIGHT,
        m >= EXPONENT_WEIGHT ==> sig >= EXPONENT_WEIGHT,
        m < 2 * EXPONENT_WEIGHT ==> sig == m && unit_of(m) == 1,
{
    let s = unit_is_power(m);
    lemma_pow2_pos(s);
    let u = unit_of(m);
    let q = m / u;
    let rest = m % u;
    lemma_div_basics(m as int);
    if m < 2 * EXPONENT_WEIGHT {
        assert(m % 1 == 0);
    }
    if 2 * rest > u || (2 * rest == u && q % 2 == 1) {
        q + 1
    } else {
        q
    }
}

/// A rounded integer is a binary64 number.
pub proof fn rounded_integer_is_number(n: int)
    requires
        -0x8000_0000_0000_0000 <= n <= 0x8000_0000_0000_0000,
    ensures
        is_integer(number_equal_to(nearest_whole(n)), nearest_whole(n)),
{
    let want = nearest_whole(n);
    let m = (if n < 0 {
        -n
    } else {
        n
    }) as nat;
    let negative = n < 0;
    let sig = nearest_even_counts(m);
    let u = unit_of(m);
    if m == 0 {
        let zero = Scalar { bits: 0 };
        crate::scalar::scaled_of_zero(zero);
        assert(0 * pow2(1075) == 0) by (nonlinear_arith);
        assert(0 * u == 0) by (nonlinear_arith);
        assert(zero.scaled() == want * pow2(1075));
    } else if m < 2 * EXPONENT_WEIGHT {
        let j = shift_of(m);
        let e = (1075 - j) as nat;
        let r = pattern(m * pow2(j), e, negative);
        pattern_value(m * pow2(j), e, negative);
        lemma_pow2_adds(j, e);
        assert((m * pow2(j)) * pow2(e) == m * (pow2(j) * pow2(e))) by (nonlinear_arith);
        assert(m * 1 == m);
        assert((-(m as int)) * pow2(1075) == -(m * pow2(1075))) by (nonlinear_arith);
        assert(r.scaled() == want * pow2(1075));
    } else {
        let s = unit_is_power(m);
        let r = pattern(sig, 1075 + s, negative);
        pattern_value(sig, 1075 + s, negative);
        lemma_pow2_adds(s, 1075);
        lemma_pow2_pos(s);
        let v = (sig * u) as int;
        assert(sig * (pow2(s) * pow2(1075)) == v * pow2(1075)) by (nonlinear_arith)
            requires
                v == sig * u,
                u == pow2(s),
        ;
        assert((-v) * pow2(1075) == -(v * pow2(1075))) by (nonlinear_arith);
        assert(v > 0) by (nonlinear_arith)
            requires
                v == sig * u,
                sig > 0,
                u > 0,
        ;
        assert(r.scaled() == want * pow2(1075));
    }
}

proof fn units_grow(a: nat, b: nat)
    requires
        a <= b,
    ensures
        unit_of(a) == unit_of(b) || 2 * unit_of(a) <= unit_of(b),
        unit_of(a) >= 1,
        unit_of(a) == 1 || a >= 2 * EXPONENT_WEIGHT,
    decreases b,
{
    if b >= 2 * EXPONENT_WEIGHT {
        units_grow(a / 2, b / 2);
        units_grow(b / 2, b / 2);
    }
}

proof fn nearest_even_is_monotone(a: nat, b: nat)
    requires
        a <= b <= 0x8000_0000_0000_0000,
    ensures
        nearest_even(a, unit_of(a)) <= nearest_even(b, unit_of(b)),
{
    let sa = nearest_even_counts(a);
    let sb = nearest_even_counts(b);
    let ua = unit_of(a) as int;
    let ub = unit_of(b) as int;
    units_grow(a, b);
    if ua == ub {
        lemma_div_is_ordered(a as int, b as int, ua);
        lemma_fundamental_div_mod(a as int, ua);
        lemma_fundamental_div_mod(b as int, ua);
        assert(sa <= sb);
    } else {
        units_grow(b, b);
    }
    assert(sa * ua <= sb * ub) by (nonlinear_arith)
        requires
            ua == ub && sa <= sb || 2 * ua <= ub && sa <= 2 * EXPONENT_WEIGHT && sb
                >= EXPONENT_WEIGHT,
            ua >= 1,
            ub >= 1,
    ;
}

proof fn unit_of_count(sig: nat, s: nat)
    requires
        EXPONENT_WEIGHT <= sig < 2 * EXPONENT_WEIGHT,
    ensures
        unit_of(sig * pow2(s)) == pow2(s),
    decreases s,
{
    lemma2_to64();
    if s == 0 {
        assert(sig * 1 == sig);
    } else {
        unit_of_count(sig, (s - 1) as nat);
        lemma_pow2_unfold(s);
        let half = sig * pow2((s - 1) as nat);
        lemma_pow2_pos((s - 1) as nat);
        assert(sig * (2 * pow2((s - 1) as nat)) == 2 * half) by (nonlinear_arith)
            requires
                half == sig * pow2((s - 1) as nat),
        ;
        assert(half >= EXPONENT_WEIGHT) by (nonlinear_arith)
            requires
                half == sig * pow2((s - 1) as nat),
                sig >= EXPONENT_WEIGHT,
                pow2((s - 1) as nat) >= 1,
        ;
        assert((sig * pow2(s)) / 2 == half);
    }
}

proof fn nearest_even_is_exact(m: nat)
    requires
        m <= 0x8000_0000_0000_0000,
    ensures
        ({
            let n = nearest_even(m, unit_of(m));
            n <= 0x8000_0000_0000_0000 && nearest_even(n, unit_of(n)) == n
        }),
{
    let top = 0x8000_0000_0000_0000nat;
    let sig = nearest_even_counts(m);
    let s = unit_is_power(m);
    let u = unit_of(m);
    let n = nearest_even(m, u);
    lemma2_to64();
    lemma2_to64_rest();
    lemma_pow2_pos(s);
    if m < 2 * EXPONENT_WEIGHT {
        assert(sig * 1 == sig);
        let again = nearest_even_counts(n);
        assert(again * 1 == again);
    } else {
        if sig < 2 * EXPONENT_WEIGHT {
            unit_of_count(sig, s);
        } else {
            lemma_pow2_unfold(s + 1);
            assert(sig * pow2(s) == EXPONENT_WEIGHT * (2 * pow2(s))) by (nonlinear_arith)
                requires
                    sig == 2 * EXPONENT_WEIGHT,
            ;
            unit_of_count(EXPONENT_WEIGHT as nat, s + 1);
        }
        let v = unit_of(n);
        let q = if sig < 2 * EXPONENT_WEIGHT {
            sig
        } else {
            EXPONENT_WEIGHT as nat
        };
        assert(n == q * v);
        lemma_fundamental_div_mod_converse(n as int, v as int, q as int, 0);
        assert(nearest_even(n, v) == n);
        // The largest magnitude counts exactly, so that none below it rounds past it.
        unit_of_count(EXPONENT_WEIGHT as nat, 11);
        assert(unit_of(top) == 2048);
        assert(nearest_even(top, 2048) == top);
        nearest_even_is_monotone(m, top);
    }
}

/// Rounding keeps the order of integers.
pub proof fn rounding_is_monotone(a: int, b: int)
    requires
        -0x8000_0000_0000_0000 <= a <= b <= 0x8000_0000_0000_0000,
    ensures
        nearest_whole(a) <= nearest_whole(b),
{
    if b < 0 {
        nearest_even_is_monotone((-b) as nat, (-a) as nat);
    } else if a >= 0 {
        nearest_even_is_monotone(a as nat, b as nat);
    }
}

/// A rounded integer stays as it is when it is rounded again, and lies in the range of
/// the integers that are rounded.
pub proof fn rounding_is_exact(n: int)
    requires
        -0x8000_0000_0000_0000 <= n <= 0x8000_0000_0000_0000,
    ensures
        nearest_whole(nearest_whole(n)) == nearest_whole(n),
        -0x8000_0000_0000_0000 <= nearest_whole(n) <= 0x8000_0000_0000_0000,
{
    let m = (if n < 0 {
        -n
    } else {
        n
    }) as nat;
    nearest_even_is_exact(m);
    if n < 0 && nearest_even(m, unit_of(m)) == 0 {
        nearest_even_is_exact(0);
    }
}

/// A number that was snapped to the integers from `lo` to `hi` is one of them, unless it
/// was no number. The bounds are taken as the numbers nearest to them.
pub proof fn snapped_is_within(a: Scalar, lo: i64, hi: i64)
    requires
        !a.is_nan(),
        nearest_whole(lo as int) <= nearest_whole(hi as int),
    ensures
        exists|n: int| #[trigger]
            is_integer(snapped(a, lo, hi), n) && nearest_whole(lo as int) <= n <= nearest_whole(
                hi as int,
            ),
{
    let low = nearest_whole(lo as int);
    let high = nearest_whole(hi as int);
    let whole = crate::scalar::whole::rounded_within(a, low, high);
    let held = if whole > i64::MAX {
        i64::MAX as int
    } else {
        whole
    };
    rounding_is_exact(lo as int);
    rounding_is_exact(hi as int);
    rounding_is_monotone(held, high);
    if whole > i64::MAX {
        rounding_is_monotone(lo as int, held);
    } else {
        rounding_is_monotone(low, held);
    }
    rounded_integer_is_number(held);
    assert(is_integer(snapped(a, lo, hi), nearest_whole(held)));
}

} // verus!
