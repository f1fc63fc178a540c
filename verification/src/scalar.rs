//! Real-valued parameters, carried by their IEEE 754 binary64 bit pattern.
//!
//! The library stores, compares and bounds such parameters, and tells whether a
//! uniform draw falls below one. It does no floating-point arithmetic: a caller
//! that has a number at hand converts it with its bit pattern, and back.

use vstd::arithmetic::div_mod::*;
use vstd::arithmetic::power2::*;
use vstd::prelude::*;

pub mod nearest;
pub mod whole;

verus! {

/// Weight of the sign bit.
pub const SIGN_WEIGHT: u64 = 0x8000_0000_0000_0000;

/// Weight of the lowest exponent bit: two to the power 52.
pub const EXPONENT_WEIGHT: u64 = 0x0010_0000_0000_0000;

/// Bit pattern of positive infinity, the largest magnitude that is a number.
pub const INFINITY_BITS: u64 = 0x7FF0_0000_0000_0000;

/// Bit pattern of one.
pub const ONE_BITS: u64 = 0x3FF0_0000_0000_0000;

/// A binary64 number, held by its bit pattern.
///
/// `==` compares bit patterns, so that it tells the two zeros apart and finds a
/// not-a-number pattern equal to itself.
#[derive(Clone, Copy, Debug, PartialEq, Eq, Structural)]
pub struct Scalar {
    pub bits: u64,
}

impl Scalar {
    /// True if the sign bit is set.
    pub open spec fn is_negative(self) -> bool {
        self.bits >= SIGN_WEIGHT
    }

    /// The bit pattern without its sign.
    pub open spec fn magnitude(self) -> nat {
        (self.bits % SIGN_WEIGHT) as nat
    }

    /// True for the patterns that stand for no number.
    pub open spec fn is_nan(self) -> bool {
        self.magnitude() > INFINITY_BITS
    }

    /// True for the patterns that stand for a real number.
    pub open spec fn is_finite(self) -> bool {
        self.magnitude() < INFINITY_BITS
    }

    /// Position in the order of the numbers; the two zeros share one position.
    pub open spec fn rank(self) -> int {
        if self.is_negative() {
            -(self.magnitude() as int)
        } else {
            self.magnitude() as int
        }
    }

    /// Position in the total order over all bit patterns: negative before
    /// positive, and within one sign by distance from zero.
    pub open spec fn total_rank(self) -> int {
        if self.is_negative() {
            -1 - self.magnitude() as int
        } else {
            self.magnitude() as int
        }
    }

    /// Integer significand of a finite number.
    pub open spec fn significand(self) -> nat {
        if self.magnitude() < EXPONENT_WEIGHT {
            self.magnitude()
        } else {
            EXPONENT_WEIGHT as nat + self.magnitude() % (EXPONENT_WEIGHT as nat)
        }
    }

    /// Biased exponent of a finite number, with that of the subnormal numbers
    /// taken as one.
    pub open spec fn exponent(self) -> nat {
        if self.magnitude() < EXPONENT_WEIGHT {
            1
        } else {
            self.magnitude() / (EXPONENT_WEIGHT as nat)
        }
    }

    /// A finite number times two to the power 1075, which is an integer.
    pub open spec fn scaled(self) -> int {
        if self.is_negative() {
            -(self.significand() * pow2(self.exponent()))
        } else {
            (self.significand() * pow2(self.exponent())) as int
        }
    }

    /// Numeric `<`; false whenever one side is no number.
    pub open spec fn below(self, other: Scalar) -> bool {
        !self.is_nan() && !other.is_nan() && self.rank() < other.rank()
    }

    /// The number nearest to `self` between zero and one. What is no number
    /// stays as it is.
    pub open spec fn unit_clamped(self) -> Scalar {
        if self.below(Scalar { bits: 0 }) {
            Scalar { bits: 0 }
        } else if (Scalar { bits: ONE_BITS }).below(self) {
            Scalar { bits: ONE_BITS }
        } else {
            self
        }
    }

    /// The number with its sign turned.
    pub open spec fn negated(self) -> Scalar {
        if self.is_negative() {
            Scalar { bits: (self.bits - SIGN_WEIGHT) as u64 }
        } else {
            Scalar { bits: (self.bits + SIGN_WEIGHT) as u64 }
        }
    }

    /// The number with its sign turned.
    pub fn negate(self) -> (r: Scalar)
        ensures
            r == self.negated(),
    {
        if self.bits >= SIGN_WEIGHT {
            Scalar { bits: self.bits - SIGN_WEIGHT }
        } else {
            Scalar { bits: self.bits + SIGN_WEIGHT }
        }
    }

    /// The number zero.
    pub fn zero() -> (r: Scalar)
        ensures
            r == (Scalar { bits: 0 }),
    {
        Scalar { bits: 0 }
    }

    /// The number one.
    pub fn one() -> (r: Scalar)
        ensures
            r == (Scalar { bits: ONE_BITS }),
    {
        Scalar { bits: ONE_BITS }
    }

    /// The number with the given bit pattern.
    pub fn from_bits(bits: u64) -> (r: Scalar)
        ensures
            r == (Scalar { bits }),
    {
        Scalar { bits }
    }

    /// The bit pattern.
    pub fn to_bits(self) -> (r: u64)
        ensures
            r == self.bits,
    {
        self.bits
    }

    fn not_a_number(self) -> (r: bool)
        ensures
            r == self.is_nan(),
    {
        self.bits % SIGN_WEIGHT > INFINITY_BITS
    }

    /// Numeric `<`.
    pub fn less(self, other: Scalar) -> (r: bool)
        ensures
            r == self.below(other),
    {
        let a: u64 = self.bits % SIGN_WEIGHT;
        let b: u64 = other.bits % SIGN_WEIGHT;
        if self.not_a_number() || other.not_a_number() {
            false
        } else if self.bits >= SIGN_WEIGHT {
            if other.bits >= SIGN_WEIGHT {
                b < a
            } else {
                a > 0 || b > 0
            }
        } else {
            other.bits < SIGN_WEIGHT && a < b
        }
    }

    /// Order over all bit patterns, strict.
    pub fn total_less(self, other: Scalar) -> (r: bool)
        ensures
            r == (self.total_rank() < other.total_rank()),
    {
        let a: u64 = self.bits % SIGN_WEIGHT;
        let b: u64 = other.bits % SIGN_WEIGHT;
        if self.bits >= SIGN_WEIGHT {
            other.bits < SIGN_WEIGHT || b < a
        } else {
            other.bits < SIGN_WEIGHT && a < b
        }
    }

    /// The number nearest to `self` between zero and one.
    pub fn clamp_unit(self) -> (r: Scalar)
        ensures
            r == self.unit_clamped(),
    {
        if self.less(Scalar::zero()) {
            Scalar::zero()
        } else if Scalar::one().less(self) {
            Scalar::one()
        } else {
            self
        }
    }

    /// The number equal to `n`: the one bit pattern without a sign whose value is
    /// `n`.
    pub open spec fn of_count(n: u32) -> Scalar {
        choose|r: Scalar|
            r.is_finite() && !r.is_negative() && #[trigger] r.scaled() == n * pow2(1075)
    }

    /// The number equal to `n`.
    pub fn from_u32(n: u32) -> (r: Scalar)
        ensures
            r.is_finite(),
            !r.is_negative(),
            r.scaled() == n * pow2(1075),
            r == Scalar::of_count(n),
    {
        if n == 0 {
            proof {
                lemma_pow2_pos(1);
                assert(0 * pow2(1) == 0) by (nonlinear_arith);
                assert(0 * pow2(1075) == 0) by (nonlinear_arith);
                let zero = Scalar { bits: 0 };
                assert(zero.scaled() == n * pow2(1075));
                equal_values_have_equal_bits(zero, Scalar::of_count(n));
            }
            return Scalar::zero();
        }
        let mut top: u64 = 1;
        let mut unit: u64 = EXPONENT_WEIGHT;
        let mut k: u64 = 0;
        proof {
            lemma2_to64();
            lemma2_to64_rest();
        }
        while top * 2 <= n as u64
            invariant
                1 <= top,
                top <= n,
                k <= 31,
                top == pow2(k as nat),
                unit == pow2((52 - k) as nat),
                pow2(32) == 0x1_0000_0000,
            decreases n - top,
        {
            proof {
                lemma_pow2_unfold((k + 1) as nat);
                lemma_pow2_unfold((52 - k) as nat);
                if k == 31 {
                    assert(pow2(32) == 2 * top);
                }
            }
            top = top * 2;
            unit = unit / 2;
            k = k + 1;
        }
        let rest: u64 = n as u64 - top;
        proof {
            lemma_pow2_adds(k as nat, (52 - k) as nat);
            assert(pow2(52) == EXPONENT_WEIGHT);
            assert(top * unit == EXPONENT_WEIGHT);
            assert(0 <= rest * unit < top * unit) by (nonlinear_arith)
                requires
                    rest < top,
                    unit > 0,
            ;
        }
        let fraction: u64 = rest * unit;
        let bits: u64 = (k + 1023) * EXPONENT_WEIGHT + fraction;
        let r = Scalar { bits };
        proof {
            assert(bits % SIGN_WEIGHT == bits);
            assert(r.exponent() == k + 1023);
            assert(r.significand() == EXPONENT_WEIGHT + fraction);
            assert(EXPONENT_WEIGHT + fraction == n * unit) by (nonlinear_arith)
                requires
                    fraction == rest * unit,
                    EXPONENT_WEIGHT == top * unit,
                    rest == n - top,
            ;
            lemma_pow2_adds((52 - k) as nat, (k + 1023) as nat);
            assert((n * unit) * pow2((k + 1023) as nat) == n * (unit * pow2((k + 1023) as nat)))
                by (nonlinear_arith);
            assert(r.scaled() == n * pow2(1075));
            equal_values_have_equal_bits(r, Scalar::of_count(n));
        }
        r
    }
}

proof fn magnitudes_are_ordered(a: Scalar, b: Scalar)
    requires
        a.is_finite(),
        b.is_finite(),
        a.magnitude() < b.magnitude(),
    ensures
        a.significand() * pow2(a.exponent()) < b.significand() * pow2(b.exponent()),
{
    let w = EXPONENT_WEIGHT as nat;
    lemma_pow2_pos(a.exponent());
    if a.exponent() == b.exponent() {
        assert(a.significand() < b.significand());
        assert(a.significand() * pow2(a.exponent()) < b.significand() * pow2(a.exponent()))
            by (nonlinear_arith)
            requires
                a.significand() < b.significand(),
                pow2(a.exponent()) > 0,
        ;
    } else {
        assert(a.exponent() < b.exponent());
        lemma_pow2_unfold((a.exponent() + 1) as nat);
        if a.exponent() + 1 < b.exponent() {
            lemma_pow2_strictly_increases((a.exponent() + 1) as nat, b.exponent());
        }
        assert(a.significand() < 2 * w);
        assert(b.significand() >= w);
        assert(a.significand() * pow2(a.exponent()) < b.significand() * pow2(b.exponent()))
            by (nonlinear_arith)
            requires
                a.significand() < 2 * w,
                b.significand() >= w,
                pow2(a.exponent()) > 0,
                pow2(b.exponent()) >= 2 * pow2(a.exponent()),
        ;
    }
}

proof fn equal_values_have_equal_bits(a: Scalar, b: Scalar)
    requires
        a.is_finite(),
        b.is_finite(),
        !a.is_negative(),
        !b.is_negative(),
        a.scaled() == b.scaled(),
    ensures
        a == b,
{
    if a.magnitude() < b.magnitude() {
        magnitudes_are_ordered(a, b);
    } else if b.magnitude() < a.magnitude() {
        magnitudes_are_ordered(b, a);
    }
}

proof fn whole_part(n: int)
    requires
        n >= 0,
    ensures
        (2 * (n * pow2(1075)) + pow2(1075)) / (2 * pow2(1075)) as int == n,
{
    lemma_pow2_pos(1075);
    let d = 2 * pow2(1075) as int;
    assert(2 * (n * pow2(1075)) + pow2(1075) == n * d + pow2(1075)) by (nonlinear_arith)
        requires
            d == 2 * pow2(1075),
    ;
    lemma_fundamental_div_mod_converse(n * d + pow2(1075), d, n, pow2(1075) as int);
}

proof fn scaled_down(s: int, gap: nat, e: nat)
    requires
        s >= 0,
        gap + e == 1075,
    ensures
        (2 * (s * pow2(e)) + pow2(1075)) / (2 * pow2(1075)) as int == (2 * s + pow2(gap)) / (2
            * pow2(gap)) as int,
{
    lemma_pow2_adds(gap, e);
    lemma_pow2_pos(gap);
    lemma_pow2_pos(e);
    let x = 2 * s + pow2(gap) as int;
    let d = 2 * pow2(gap) as int;
    assert(2 * (s * pow2(e)) + pow2(gap) * pow2(e) == pow2(e) * x) by (nonlinear_arith)
        requires
            x == 2 * s + pow2(gap),
    ;
    assert(2 * (pow2(gap) * pow2(e)) == pow2(e) * d) by (nonlinear_arith)
        requires
            d == 2 * pow2(gap),
    ;
    lemma_div_multiples_vanish_quotient(pow2(e) as int, x, d);
}

proof fn scaled_is_positive(a: Scalar)
    requires
        a.magnitude() > 0,
    ensures
        a.significand() * pow2(a.exponent()) > 0,
{
    lemma_pow2_pos(a.exponent());
    assert(a.significand() * pow2(a.exponent()) > 0) by (nonlinear_arith)
        requires
            a.significand() > 0,
            pow2(a.exponent()) > 0,
    ;
}

/// Both zeros stand for the number zero.
pub proof fn scaled_of_zero(a: Scalar)
    requires
        a.magnitude() == 0,
    ensures
        a.scaled() == 0,
{
    assert(0 * pow2(a.exponent()) == 0) by (nonlinear_arith);
}

/// On real numbers the comparison of bit patterns is the comparison of the
/// numbers that they stand for.
pub proof fn below_is_numeric(a: Scalar, b: Scalar)
    requires
        a.is_finite(),
        b.is_finite(),
    ensures
        a.below(b) <==> a.scaled() < b.scaled(),
{
    if a.magnitude() < b.magnitude() {
        magnitudes_are_ordered(a, b);
    } else if b.magnitude() < a.magnitude() {
        magnitudes_are_ordered(b, a);
    }
    if a.magnitude() > 0 {
        scaled_is_positive(a);
    } else {
        scaled_of_zero(a);
    }
    if b.magnitude() > 0 {
        scaled_is_positive(b);
    } else {
        scaled_of_zero(b);
    }
}

/// The total order tells any two bit patterns apart.
pub proof fn total_rank_is_injective(a: Scalar, b: Scalar)
    ensures
        a.total_rank() == b.total_rank() <==> a == b,
{
}

/// What was bounded lies between zero and one if it is a number, and bounding it
/// again changes nothing.
pub proof fn unit_clamped_is_bounded(a: Scalar)
    ensures
        !a.unit_clamped().below(Scalar { bits: 0 }),
        !(Scalar { bits: ONE_BITS }).below(a.unit_clamped()),
        a.unit_clamped().is_nan() <==> a.is_nan(),
        a.unit_clamped().unit_clamped() == a.unit_clamped(),
{
}

/// The whole number nearest to `a`, with halves rounded up: zero for what is
/// negative or no number, and at most what fits in 64 bits.
pub open spec fn nearest_count(a: Scalar) -> u64 {
    if a.is_nan() || a.is_negative() {
        0
    } else if !a.is_finite() {
        u64::MAX
    } else {
        let whole = (2 * a.scaled() + pow2(1075)) / (2 * pow2(1075)) as int;
        if whole > u64::MAX {
            u64::MAX
        } else {
            whole as u64
        }
    }
}

/// The whole number nearest to `a`.
pub fn round_to_count(a: Scalar) -> (r: u64)
    ensures
        r == nearest_count(a),
{
    let m: u64 = a.bits % SIGN_WEIGHT;
    if m > INFINITY_BITS || a.bits >= SIGN_WEIGHT {
        return 0;
    }
    if m == INFINITY_BITS {
        return u64::MAX;
    }
    let e: u64 = if m < EXPONENT_WEIGHT {
        1
    } else {
        m / EXPONENT_WEIGHT
    };
    let s: u64 = if m < EXPONENT_WEIGHT {
        m
    } else {
        EXPONENT_WEIGHT + m % EXPONENT_WEIGHT
    };
    proof {
        assert(e == a.exponent() && s == a.significand());
        lemma_pow2_pos(1075);
        lemma2_to64();
        lemma2_to64_rest();
    }
    if e >= 1075 {
        let gap: u64 = e - 1075;
        proof {
            lemma_pow2_adds(gap as nat, 1075);
            assert(s * (pow2(gap as nat) * pow2(1075)) == (s * pow2(gap as nat)) * pow2(1075))
                by (nonlinear_arith);
            whole_part(s * pow2(gap as nat));
        }
        if gap >= 12 {
            proof {
                if gap > 12 {
                    lemma_pow2_strictly_increases(12, gap as nat);
                }
                assert(s * pow2(gap as nat) >= EXPONENT_WEIGHT * 4096) by (nonlinear_arith)
                    requires
                        s >= EXPONENT_WEIGHT,
                        pow2(gap as nat) >= 4096,
                ;
            }
            return u64::MAX;
        }
        let mut whole: u64 = s;
        let mut i: u64 = 0;
        assert(s * pow2(0) == s) by {
            assert(s * 1 == s);
        }
        while i < gap
            invariant
                i <= gap <= 11,
                s < 2 * EXPONENT_WEIGHT,
                whole == s * pow2(i as nat),
                pow2(10) == 1024,
            decreases gap - i,
        {
            proof {
                lemma_pow2_unfold((i + 1) as nat);
                if i < 10 {
                    lemma_pow2_strictly_increases(i as nat, 10);
                }
                lemma_pow2_pos(i as nat);
                assert(s * pow2(i as nat) < 2 * EXPONENT_WEIGHT * 1024) by (nonlinear_arith)
                    requires
                        s < 2 * EXPONENT_WEIGHT,
                        0 < pow2(i as nat) <= 1024,
                ;
                assert(s * (2 * pow2(i as nat)) == 2 * (s * pow2(i as nat))) by (nonlinear_arith);
            }
            whole = whole * 2;
            i = i + 1;
        }
        return whole;
    }
    let gap: u64 = 1075 - e;
    proof {
        lemma_pow2_adds(gap as nat, e as nat);
        lemma_pow2_pos(gap as nat);
        lemma_pow2_pos(e as nat);
        scaled_down(s as int, gap as nat, e as nat);
    }
    if gap > 53 {
        proof {
            if gap > 54 {
                lemma_pow2_strictly_increases(54, gap as nat);
            }
            lemma_pow2_unfold(54);
            let d = 2 * pow2(gap as nat);
            assert(2 * s + pow2(gap as nat) < d);
            lemma_basic_div(2 * s + pow2(gap as nat), d as int);
        }
        return 0;
    }
    let mut unit: u64 = 1;
    let mut i: u64 = 0;
    while i < gap
        invariant
            i <= gap <= 53,
            unit == pow2(i as nat),
            pow2(53) == 0x20_0000_0000_0000,
        decreases gap - i,
    {
        proof {
            lemma_pow2_unfold((i + 1) as nat);
            if i + 1 < 53 {
                lemma_pow2_strictly_increases((i + 1) as nat, 53);
            }
        }
        unit = unit * 2;
        i = i + 1;
    }
    (2 * s + unit) / (2 * unit)
}

/// Turning the sign turns the order around, and turning it twice gives the number
/// back.
pub proof fn negation_turns_the_order(a: Scalar, b: Scalar)
    ensures
        a.negated().negated() == a,
        a.below(b) <==> b.negated().below(a.negated()),
{
}

/// True if the uniform number in `[0, 1)` made of the 53 high bits of `word`,
/// divided by two to the power 53, is less than `p`.
pub open spec fn draw_is_below(word: u64, p: Scalar) -> bool {
    if p.is_finite() {
        (word / 2048) * pow2(1022) < p.scaled()
    } else {
        p.bits == INFINITY_BITS
    }
}

/// Every draw is below one.
pub proof fn every_draw_is_below_one(word: u64)
    ensures
        draw_is_below(word, Scalar { bits: ONE_BITS }),
{
    let one = Scalar { bits: ONE_BITS };
    let unit = pow2(1022);
    assert(one.significand() == 0x10_0000_0000_0000);
    assert(one.exponent() == 1023);
    vstd::arithmetic::power2::lemma_pow2_pos(1022);
    vstd::arithmetic::power2::lemma_pow2_unfold(1023);
    assert(0x10_0000_0000_0000 * (2 * unit) == 0x20_0000_0000_0000 * unit) by (nonlinear_arith);
    assert((word / 2048) < 0x20_0000_0000_0000);
    assert((word / 2048) * unit < 0x20_0000_0000_0000 * unit) by (nonlinear_arith)
        requires
            (word / 2048) < 0x20_0000_0000_0000,
            unit > 0,
    ;
}

/// Tells whether the uniform number made of the 53 high bits of `word` is less
/// than `p`.
pub fn draw_below(word: u64, p: Scalar) -> (r: bool)
    ensures
        r == draw_is_below(word, p),
{
    let k: u64 = word / 2048;
    let m: u64 = p.bits % SIGN_WEIGHT;
    proof {
        lemma_pow2_pos(1022);
        lemma2_to64();
        lemma2_to64_rest();
        assert(0 <= k * pow2(1022)) by (nonlinear_arith);
    }
    if m >= INFINITY_BITS {
        return p.bits == INFINITY_BITS;
    }
    if p.bits >= SIGN_WEIGHT || m == 0 {
        proof {
            if m > 0 {
                scaled_is_positive(p);
            } else {
                scaled_of_zero(p);
            }
        }
        return false;
    }
    if m >= ONE_BITS {
        proof {
            let one = Scalar { bits: ONE_BITS };
            assert(one.significand() == EXPONENT_WEIGHT && one.exponent() == 1023);
            lemma_pow2_adds(52, 1023);
            lemma_pow2_adds(53, 1022);
            if one.magnitude() < p.magnitude() {
                magnitudes_are_ordered(one, p);
            }
            assert(k * pow2(1022) < pow2(53) * pow2(1022)) by (nonlinear_arith)
                requires
                    k < pow2(53),
                    pow2(1022) > 0,
            ;
        }
        return true;
    }
    let e: u64 = if m < EXPONENT_WEIGHT {
        1
    } else {
        m / EXPONENT_WEIGHT
    };
    let s: u64 = if m < EXPONENT_WEIGHT {
        m
    } else {
        EXPONENT_WEIGHT + m % EXPONENT_WEIGHT
    };
    let gap: u64 = 1022 - e;
    proof {
        assert(e == p.exponent() && s == p.significand());
        lemma_pow2_adds(gap as nat, e as nat);
        lemma_pow2_pos(e as nat);
        assert(k * pow2(1022) == (k * pow2(gap as nat)) * pow2(e as nat)) by (nonlinear_arith)
            requires
                pow2(1022) == pow2(gap as nat) * pow2(e as nat),
        ;
        assert((k * pow2(gap as nat)) * pow2(e as nat) < s * pow2(e as nat) <==> k * pow2(
            gap as nat,
        ) < s) by (nonlinear_arith)
            requires
                pow2(e as nat) > 0,
        ;
    }
    if k == 0 {
        assert(0 * pow2(gap as nat) == 0) by (nonlinear_arith);
        return true;
    }
    if gap >= 53 {
        proof {
            if gap > 53 {
                lemma_pow2_strictly_increases(53, gap as nat);
            }
            assert(k * pow2(gap as nat) >= pow2(53)) by (nonlinear_arith)
                requires
                    k >= 1,
                    pow2(gap as nat) >= pow2(53),
            ;
        }
        return false;
    }
    let mut left: u128 = k as u128;
    let mut i: u64 = 0;
    assert(k * pow2(0) == k) by {
        assert(k * 1 == k);
    }
    while i < gap
        invariant
            i <= gap <= 52,
            k < 0x20_0000_0000_0000,
            left == k * pow2(i as nat),
            pow2(52) == EXPONENT_WEIGHT,
        decreases gap - i,
    {
        proof {
            lemma_pow2_unfold((i + 1) as nat);
            if i < 52 {
                lemma_pow2_strictly_increases(i as nat, 52);
            }
            assert(k * pow2(i as nat) <= 0x20_0000_0000_0000 * 0x10_0000_0000_0000)
                by (nonlinear_arith)
                requires
                    k < 0x20_0000_0000_0000,
                    pow2(i as nat) <= 0x10_0000_0000_0000,
            ;
            assert(k * (2 * pow2(i as nat)) == 2 * (k * pow2(i as nat))) by (nonlinear_arith);
        }
        left = left * 2;
        i = i + 1;
    }
    left < s as u128
}

} // verus!
