//! IEEE 754 single-precision numbers by their bit patterns.
//!
//! The order of two numbers, their sign and their class (finite, infinite, not
//! a number) can all be read off the bits with integer comparisons alone.
use vstd::arithmetic::power2::{lemma_pow2_pos, lemma_pow2_strictly_increases, lemma_pow2_unfold, pow2};
use vstd::prelude::*;

verus! {

/// The bit that holds the sign.
pub const SIGN_BIT: u32 = 0x8000_0000;

/// The pattern of positive infinity: every magnitude below it is finite, every
/// magnitude above it is not a number.
pub const INFINITY_BITS: u32 = 0x7f80_0000;

/// The pattern of the quiet not-a-number that stands for "no value".
pub const NAN_BITS: u32 = 0x7fc0_0000;

/// The pattern of `1.0`.
pub const ONE_BITS: u32 = 0x3f80_0000;

/// The first pattern with a non-zero exponent field, `2^23`: the fraction
/// field is what lies below it.
pub const HIDDEN_BIT: u32 = 0x0080_0000;

/// A single-precision number, held as its 32 bits.
#[derive(Clone, Copy, Debug)]
pub struct Scalar {
    pub bits: u32,
}

impl Scalar {
    /// The bits without the sign.
    pub open spec fn magnitude(self) -> int {
        if self.bits >= SIGN_BIT {
            self.bits - SIGN_BIT
        } else {
            self.bits as int
        }
    }

    /// Is the sign bit set? True of `-0.0` too.
    pub open spec fn sign_negative(self) -> bool {
        self.bits >= SIGN_BIT
    }

    /// Is this not a number?
    pub open spec fn spec_is_nan(self) -> bool {
        self.magnitude() > INFINITY_BITS
    }

    /// Is this neither infinite nor not a number?
    pub open spec fn spec_is_finite(self) -> bool {
        self.magnitude() < INFINITY_BITS
    }

    /// The place of a number on the number line: for numbers that are not
    /// NaN, `a` is below `b` exactly when `a.rank() < b.rank()`. Both zeros
    /// have rank 0.
    pub open spec fn rank(self) -> int {
        if self.sign_negative() {
            -self.magnitude()
        } else {
            self.magnitude()
        }
    }

    /// What a magnitude is worth in units of `2^-149`, the smallest step of
    /// single precision. With the exponent field `e` and the fraction field
    /// `f`, a magnitude stands for `f * 2^-149` where `e` is zero and for
    /// `(2^23 + f) * 2^(e - 150)` elsewhere.
    pub open spec fn steps(magnitude: int) -> int {
        let e = magnitude / (HIDDEN_BIT as int);
        let f = magnitude % (HIDDEN_BIT as int);
        if e == 0 {
            f
        } else {
            (HIDDEN_BIT + f) * pow2((e - 1) as nat)
        }
    }

    /// The finite number that the bits stand for, in units of `2^-149`: an
    /// integer.
    pub open spec fn scaled(self) -> int {
        if self.sign_negative() {
            -Scalar::steps(self.magnitude())
        } else {
            Scalar::steps(self.magnitude())
        }
    }

    /// `self < other` as IEEE 754 has it: false when either is NaN.
    pub open spec fn spec_lt(self, other: Scalar) -> bool {
        !self.spec_is_nan() && !other.spec_is_nan() && self.rank() < other.rank()
    }

    /// `self <= other` as IEEE 754 has it: false when either is NaN.
    pub open spec fn spec_le(self, other: Scalar) -> bool {
        !self.spec_is_nan() && !other.spec_is_nan() && self.rank() <= other.rank()
    }

    /// `self > other` as IEEE 754 has it: false when either is NaN.
    pub open spec fn spec_gt(self, other: Scalar) -> bool {
        other.spec_lt(self)
    }

    /// `self >= other` as IEEE 754 has it: false when either is NaN.
    pub open spec fn spec_ge(self, other: Scalar) -> bool {
        other.spec_le(self)
    }

    /// `self == other` as IEEE 754 has it: the zeros are equal, NaN equals
    /// nothing.
    pub open spec fn spec_same(self, other: Scalar) -> bool {
        !self.spec_is_nan() && !other.spec_is_nan() && self.rank() == other.rank()
    }

    /// The number with the sign bit cleared.
    pub open spec fn spec_abs(self) -> Scalar {
        Scalar { bits: self.magnitude() as u32 }
    }

    /// The number with the sign bit flipped.
    pub open spec fn spec_neg(self) -> Scalar {
        if self.bits >= SIGN_BIT {
            Scalar { bits: (self.bits - SIGN_BIT) as u32 }
        } else {
            Scalar { bits: (self.bits + SIGN_BIT) as u32 }
        }
    }

    /// Positive zero.
    pub open spec fn spec_zero() -> Scalar {
        Scalar { bits: 0 }
    }

    /// One.
    pub open spec fn spec_one() -> Scalar {
        Scalar { bits: ONE_BITS }
    }

    /// Positive infinity.
    pub open spec fn spec_infinity() -> Scalar {
        Scalar { bits: INFINITY_BITS }
    }

    /// The quiet NaN that stands for "no value".
    pub open spec fn spec_nan() -> Scalar {
        Scalar { bits: NAN_BITS }
    }

    /// Is this a time that lies ahead: finite and above zero?
    pub open spec fn spec_is_ahead(self) -> bool {
        self.spec_is_finite() && self.spec_gt(Scalar::spec_zero())
    }

    /// The number with these bits.
    pub fn from_bits(bits: u32) -> (r: Scalar)
        ensures
            r.bits == bits,
    {
        Scalar { bits }
    }

    /// The bits of this number.
    pub fn to_bits(self) -> (r: u32)
        ensures
            r == self.bits,
    {
        self.bits
    }

    #[verifier::when_used_as_spec(spec_zero)]
    pub fn zero() -> (r: Scalar)
        ensures
            r == Scalar::spec_zero(),
    {
        Scalar { bits: 0 }
    }

    #[verifier::when_used_as_spec(spec_one)]
    pub fn one() -> (r: Scalar)
        ensures
            r == Scalar::spec_one(),
    {
        Scalar { bits: ONE_BITS }
    }

    #[verifier::when_used_as_spec(spec_nan)]
    pub fn nan() -> (r: Scalar)
        ensures
            r == Scalar::spec_nan(),
    {
        Scalar { bits: NAN_BITS }
    }

    fn magnitude_bits(self) -> (r: u32)
        ensures
            r == self.magnitude(),
    {
        if self.bits >= SIGN_BIT {
            self.bits - SIGN_BIT
        } else {
            self.bits
        }
    }

    fn rank_value(self) -> (r: i64)
        ensures
            r == self.rank(),
    {
        let m: i64 = self.magnitude_bits() as i64;
        if self.bits >= SIGN_BIT {
            -m
        } else {
            m
        }
    }

    #[verifier::when_used_as_spec(spec_is_nan)]
    pub fn is_nan(self) -> (r: bool)
        ensures
            r == self.spec_is_nan(),
    {
        self.magnitude_bits() > INFINITY_BITS
    }

    #[verifier::when_used_as_spec(spec_is_finite)]
    pub fn is_finite(self) -> (r: bool)
        ensures
            r == self.spec_is_finite(),
    {
        self.magnitude_bits() < INFINITY_BITS
    }

    #[verifier::when_used_as_spec(spec_lt)]
    pub fn lt(self, other: Scalar) -> (r: bool)
        ensures
            r == self.spec_lt(other),
    {
        !self.is_nan() && !other.is_nan() && self.rank_value() < other.rank_value()
    }

    #[verifier::when_used_as_spec(spec_le)]
    pub fn le(self, other: Scalar) -> (r: bool)
        ensures
            r == self.spec_le(other),
    {
        !self.is_nan() && !other.is_nan() && self.rank_value() <= other.rank_value()
    }

    #[verifier::when_used_as_spec(spec_gt)]
    pub fn gt(self, other: Scalar) -> (r: bool)
        ensures
            r == self.spec_gt(other),
    {
        other.lt(self)
    }

    #[verifier::when_used_as_spec(spec_ge)]
    pub fn ge(self, other: Scalar) -> (r: bool)
        ensures
            r == self.spec_ge(other),
    {
        other.le(self)
    }

    #[verifier::when_used_as_spec(spec_same)]
    pub fn same(self, other: Scalar) -> (r: bool)
        ensures
            r == self.spec_same(other),
    {
        !self.is_nan() && !other.is_nan() && self.rank_value() == other.rank_value()
    }

    #[verifier::when_used_as_spec(spec_abs)]
    pub fn abs(self) -> (r: Scalar)
        ensures
            r == self.spec_abs(),
    {
        Scalar { bits: self.magnitude_bits() }
    }

    #[verifier::when_used_as_spec(spec_neg)]
    pub fn neg(self) -> (r: Scalar)
        ensures
            r == self.spec_neg(),
    {
        if self.bits >= SIGN_BIT {
            Scalar { bits: self.bits - SIGN_BIT }
        } else {
            Scalar { bits: self.bits + SIGN_BIT }
        }
    }

    #[verifier::when_used_as_spec(spec_is_ahead)]
    pub fn is_ahead(self) -> (r: bool)
        ensures
            r == self.spec_is_ahead(),
    {
        self.is_finite() && self.gt(Scalar::zero())
    }
}

/// A number is never below itself.
pub proof fn lemma_lt_irreflexive(a: Scalar)
    ensures
        !a.spec_lt(a),
{
}

/// Below is transitive, and so is at-most.
pub proof fn lemma_order_transitive(a: Scalar, b: Scalar, c: Scalar)
    ensures
        a.spec_lt(b) && b.spec_lt(c) ==> a.spec_lt(c),
        a.spec_le(b) && b.spec_le(c) ==> a.spec_le(c),
        a.spec_lt(b) && b.spec_le(c) ==> a.spec_lt(c),
        a.spec_le(b) && b.spec_lt(c) ==> a.spec_lt(c),
{
}

/// Of two numbers neither of which is NaN, exactly one of below, same and
/// above holds.
pub proof fn lemma_trichotomy(a: Scalar, b: Scalar)
    requires
        !a.spec_is_nan(),
        !b.spec_is_nan(),
    ensures
        a.spec_lt(b) || a.spec_same(b) || a.spec_gt(b),
        !(a.spec_lt(b) && a.spec_same(b)),
        !(a.spec_lt(b) && a.spec_gt(b)),
        !(a.spec_same(b) && a.spec_gt(b)),
        a.spec_le(b) <==> a.spec_lt(b) || a.spec_same(b),
{
}

/// NaN is in no order with anything, itself included.
pub proof fn lemma_nan_unordered(a: Scalar, b: Scalar)
    requires
        a.spec_is_nan() || b.spec_is_nan(),
    ensures
        !a.spec_lt(b),
        !a.spec_le(b),
        !a.spec_gt(b),
        !a.spec_ge(b),
        !a.spec_same(b),
{
}

/// The two zeros are the same number, and neither is below the other.
pub proof fn lemma_zeros_same()
    ensures
        Scalar::spec_zero().spec_same(Scalar::spec_zero().spec_neg()),
        !Scalar::spec_zero().spec_neg().spec_lt(Scalar::spec_zero()),
        Scalar::spec_zero().spec_neg().bits == SIGN_BIT,
{
}

/// Negation mirrors the number line and is its own inverse; it keeps the
/// class of a number.
pub proof fn lemma_neg_mirrors(a: Scalar, b: Scalar)
    ensures
        a.spec_neg().spec_neg() == a,
        a.spec_neg().rank() == -a.rank(),
        a.spec_neg().spec_is_nan() == a.spec_is_nan(),
        a.spec_neg().spec_is_finite() == a.spec_is_finite(),
        a.spec_lt(b) <==> b.spec_neg().spec_lt(a.spec_neg()),
{
}

/// The absolute value is never below zero, has the rank of the number or of
/// its negation, and keeps the class of a number.
pub proof fn lemma_abs_magnitude(a: Scalar)
    ensures
        a.spec_abs().rank() == a.magnitude(),
        a.spec_abs().rank() == if a.rank() < 0 { -a.rank() } else { a.rank() },
        a.spec_abs().spec_is_nan() == a.spec_is_nan(),
        a.spec_abs().spec_is_finite() == a.spec_is_finite(),
        !a.spec_abs().spec_lt(Scalar::spec_zero()),
{
}

/// A number is exactly one of finite, infinite and NaN, and the NaN that
/// stands for "no value" is a NaN.
pub proof fn lemma_classes(a: Scalar)
    ensures
        a.spec_is_finite() ==> !a.spec_is_nan(),
        !a.spec_is_finite() && !a.spec_is_nan() <==> a.magnitude() == INFINITY_BITS,
        Scalar::spec_nan().spec_is_nan(),
        !Scalar::spec_nan().spec_is_finite(),
        !Scalar::spec_nan().spec_is_ahead(),
        Scalar::spec_zero().spec_is_finite(),
        !Scalar::spec_zero().spec_is_ahead(),
{
}

/// Among finite magnitudes, the greater pattern is worth more.
proof fn lemma_steps_increase(lesser: int, greater: int)
    requires
        0 <= lesser < greater < INFINITY_BITS,
    ensures
        0 <= Scalar::steps(lesser) < Scalar::steps(greater),
{
    let h = HIDDEN_BIT as int;
    let (e1, f1) = (lesser / h, lesser % h);
    let (e2, f2) = (greater / h, greater % h);
    assert(lesser == e1 * h + f1 && greater == e2 * h + f2 && e1 <= e2) by (nonlinear_arith)
        requires
            0 <= lesser < greater,
            h == 0x0080_0000,
            e1 == lesser / h,
            f1 == lesser % h,
            e2 == greater / h,
            f2 == greater % h,
    ;
    if e1 == e2 {
        if e1 > 0 {
            let p = pow2((e1 - 1) as nat) as int;
            lemma_pow2_pos((e1 - 1) as nat);
            assert(0 <= (h + f1) * p < (h + f2) * p) by (nonlinear_arith)
                requires
                    0 <= f1 < f2,
                    h > 0,
                    p > 0,
            ;
        }
    } else {
        let upper = pow2((e2 - 1) as nat) as int;
        lemma_pow2_pos((e2 - 1) as nat);
        assert(h <= (h + f2) * upper) by (nonlinear_arith)
            requires
                0 <= f2,
                h > 0,
                upper >= 1,
        ;
        if e1 > 0 {
            let lower = pow2((e1 - 1) as nat) as int;
            lemma_pow2_pos((e1 - 1) as nat);
            lemma_pow2_unfold(e1 as nat);
            if e1 < e2 - 1 {
                lemma_pow2_strictly_increases(e1 as nat, (e2 - 1) as nat);
            }
            assert(2 * lower <= upper);
            assert(0 <= (h + f1) * lower < (h + f2) * upper) by (nonlinear_arith)
                requires
                    0 <= f1 < h,
                    0 <= f2,
                    lower > 0,
                    2 * lower <= upper,
            ;
        }
    }
}

/// The order of the bits is the order of the numbers: of two finite numbers
/// one is below the other exactly when it stands for less, and they are the
/// same exactly when they stand for as much.
pub proof fn lemma_order_is_that_of_the_values(a: Scalar, b: Scalar)
    requires
        a.spec_is_finite(),
        b.spec_is_finite(),
    ensures
        a.spec_lt(b) <==> a.scaled() < b.scaled(),
        a.spec_le(b) <==> a.scaled() <= b.scaled(),
        a.spec_same(b) <==> a.scaled() == b.scaled(),
{
    let (m, n) = (a.magnitude(), b.magnitude());
    if m < n {
        lemma_steps_increase(m, n);
    } else if n < m {
        lemma_steps_increase(n, m);
    }
    if 0 < m {
        lemma_steps_increase(0, m);
    }
    if 0 < n {
        lemma_steps_increase(0, n);
    }
    assert(Scalar::steps(0) == 0);
}

/// The infinities stand at the two ends: every finite number is above the
/// negative one and below the positive one.
pub proof fn lemma_infinities_are_outermost(a: Scalar)
    requires
        a.spec_is_finite(),
    ensures
        a.spec_lt(Scalar::spec_infinity()),
        a.spec_gt(Scalar::spec_infinity().spec_neg()),
{
}

/// One is worth `2^149` steps, and the smallest pattern above zero one step.
pub proof fn lemma_steps_of_one()
    ensures
        Scalar::spec_one().scaled() == pow2(149),
        (Scalar { bits: 1 }).scaled() == 1,
{
    let h = HIDDEN_BIT as int;
    assert(ONE_BITS as int / h == 127 && ONE_BITS as int % h == 0);
    vstd::arithmetic::power2::lemma_pow2_adds(23, 126);
    vstd::arithmetic::power2::lemma2_to64();
}

} // verus!
