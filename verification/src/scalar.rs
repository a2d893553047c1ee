//! Numbers of the search, held by their IEEE 754 binary64 bit pattern.

use vstd::arithmetic::power2::{
    lemma2_to64_rest, lemma_pow2_adds, lemma_pow2_pos, lemma_pow2_strictly_increases,
    lemma_pow2_unfold, pow2,
};
use vstd::prelude::*;

verus! {

/// The bit that holds the sign.
pub const SIGN_BIT: u64 = 0x8000_0000_0000_0000;

/// The pattern of positive infinity: every magnitude above it is not a number.
pub const INFINITY_BITS: u64 = 0x7FF0_0000_0000_0000;

/// The unit of the exponent field: below it lie the 52 bits of the fraction.
pub const FRACTION_UNIT: u64 = 0x10_0000_0000_0000;

/// The pattern of the number one.
pub const ONE_BITS: u64 = 0x3FF0_0000_0000_0000;

/// A binary64 number, held as its 64 bits: one sign bit, then the magnitude
/// (exponent and fraction), whose order as an integer is the order of the
/// absolute values.
#[derive(Clone, Copy, Debug, PartialEq, Eq, Structural)]
pub struct Scalar {
    pub bits: u64,
}

impl Scalar {
    /// The pattern without its sign bit.
    pub open spec fn magnitude(self) -> int {
        if self.bits >= SIGN_BIT {
            self.bits - SIGN_BIT
        } else {
            self.bits as int
        }
    }

    /// Whether the sign bit is set.
    pub open spec fn negative(self) -> bool {
        self.bits >= SIGN_BIT
    }

    /// Whether the pattern is not a number.
    pub open spec fn spec_is_nan(self) -> bool {
        self.magnitude() > INFINITY_BITS
    }

    /// Whether the pattern is a number other than an infinity.
    pub open spec fn spec_is_finite(self) -> bool {
        self.magnitude() < INFINITY_BITS
    }

    /// The exponent field of the pattern.
    pub open spec fn exponent(self) -> int {
        self.magnitude() / (FRACTION_UNIT as int)
    }

    /// The fraction field of the pattern.
    pub open spec fn fraction(self) -> int {
        self.magnitude() % (FRACTION_UNIT as int)
    }

    /// The absolute value of a finite number, counted in units of 2^-1074:
    /// the fraction alone where the exponent field is 0, else the fraction
    /// with a leading one before it, doubled once for each step of the
    /// exponent above 1.
    pub open spec fn scaled(self) -> nat {
        if self.exponent() == 0 {
            self.fraction() as nat
        } else {
            ((FRACTION_UNIT + self.fraction()) * pow2((self.exponent() - 1) as nat)) as nat
        }
    }

    /// The value of a finite number, counted in units of 2^-1074.
    pub open spec fn value(self) -> int {
        if self.negative() {
            -(self.scaled() as int)
        } else {
            self.scaled() as int
        }
    }

    /// Whether the number is exactly the integer `k`.
    pub open spec fn spec_is_integer(self, k: nat) -> bool {
        self.spec_is_finite() && !self.negative() && self.scaled() == k * pow2(1074)
    }

    /// The place of a number in the order of all numbers: two numbers compare
    /// as their ranks do, and both zeros have rank 0.
    pub open spec fn rank(self) -> int {
        if self.negative() {
            -self.magnitude()
        } else {
            self.magnitude()
        }
    }

    /// `self < other` as numbers: false as soon as either is not a number.
    pub open spec fn spec_lt(self, other: Scalar) -> bool {
        !self.spec_is_nan() && !other.spec_is_nan() && self.rank() < other.rank()
    }

    /// `self <= other` as numbers: false as soon as either is not a number.
    pub open spec fn spec_le(self, other: Scalar) -> bool {
        !self.spec_is_nan() && !other.spec_is_nan() && self.rank() <= other.rank()
    }

    /// `self > other` as numbers.
    pub open spec fn spec_gt(self, other: Scalar) -> bool {
        other.spec_lt(self)
    }

    /// The number with the given bit pattern.
    pub fn from_bits(bits: u64) -> (r: Scalar)
        ensures
            r.bits == bits,
    {
        Scalar { bits }
    }

    /// The bit pattern of the number.
    pub fn to_bits(self) -> (r: u64)
        ensures
            r == self.bits,
    {
        self.bits
    }

    /// Positive zero.
    pub fn zero() -> (r: Scalar)
        ensures
            r.bits == 0,
            r.spec_is_integer(0),
    {
        let r = Scalar { bits: 0 };
        proof {
            assert(r.scaled() == 0);
            assert(0 * pow2(1074) == 0);
        }
        r
    }

    /// The number one.
    pub fn one() -> (r: Scalar)
        ensures
            r.bits == ONE_BITS,
            r.spec_is_integer(1),
    {
        let r = Scalar { bits: ONE_BITS };
        proof {
            lemma2_to64_rest();
            lemma_pow2_adds(52, 1022);
            assert(r.exponent() == 1023 && r.fraction() == 0);
            assert(r.scaled() == FRACTION_UNIT * pow2(1022));
        }
        r
    }

    /// The sign and the magnitude of the pattern.
    fn split(self) -> (r: (bool, u64))
        ensures
            r.0 == self.negative(),
            r.1 == self.magnitude(),
    {
        if self.bits >= SIGN_BIT {
            (true, self.bits - SIGN_BIT)
        } else {
            (false, self.bits)
        }
    }

    /// Whether the pattern is not a number.
    pub fn is_nan(self) -> (r: bool)
        ensures
            r == self.spec_is_nan(),
    {
        self.split().1 > INFINITY_BITS
    }

    /// Whether the pattern is a number other than an infinity.
    pub fn is_finite(self) -> (r: bool)
        ensures
            r == self.spec_is_finite(),
    {
        self.split().1 < INFINITY_BITS
    }

    /// `self < other` as numbers.
    pub fn lt(self, other: Scalar) -> (r: bool)
        ensures
            r == self.spec_lt(other),
    {
        let (a_neg, a) = self.split();
        let (b_neg, b) = other.split();
        if a > INFINITY_BITS || b > INFINITY_BITS {
            false
        } else if a_neg {
            if b_neg {
                b < a
            } else {
                a > 0 || b > 0
            }
        } else {
            !b_neg && a < b
        }
    }

    /// `self <= other` as numbers.
    pub fn le(self, other: Scalar) -> (r: bool)
        ensures
            r == self.spec_le(other),
    {
        let (a_neg, a) = self.split();
        let (b_neg, b) = other.split();
        if a > INFINITY_BITS || b > INFINITY_BITS {
            false
        } else if a_neg {
            b_neg && b <= a || !b_neg
        } else if b_neg {
            a == 0 && b == 0
        } else {
            a <= b
        }
    }

    /// `self > other` as numbers.
    pub fn gt(self, other: Scalar) -> (r: bool)
        ensures
            r == self.spec_gt(other),
    {
        other.lt(self)
    }
}

/// The order of numbers is transitive.
pub proof fn lemma_lt_transitive(a: Scalar, b: Scalar, c: Scalar)
    requires
        a.spec_lt(b),
        b.spec_lt(c),
    ensures
        a.spec_lt(c),
{
}

/// No number is below itself, and of two numbers at most one is below the
/// other.
pub proof fn lemma_lt_asymmetric(a: Scalar, b: Scalar)
    ensures
        !a.spec_lt(a),
        !(a.spec_lt(b) && b.spec_lt(a)),
        a.spec_le(b) <==> (a.spec_lt(b) || (!a.spec_is_nan() && !b.spec_is_nan() && a.rank()
            == b.rank())),
{
}

/// A finite number with exponent field `e` lies, in units of 2^-1074, from
/// 2^52 * 2^(e - 1) up to, and without, 2^52 * 2^e; with `e == 0`, below 2^52.
proof fn lemma_scaled_bounds(s: Scalar)
    requires
        s.spec_is_finite(),
    ensures
        s.scaled() < FRACTION_UNIT * pow2(s.exponent() as nat),
        s.exponent() >= 1 ==> FRACTION_UNIT * pow2((s.exponent() - 1) as nat) <= s.scaled(),
{
    let e = s.exponent();
    let m = s.fraction();
    if e == 0 {
        lemma_pow2_pos(0);
        assert(m < FRACTION_UNIT * pow2(0)) by (nonlinear_arith)
            requires
                m < FRACTION_UNIT,
                pow2(0) > 0,
        ;
    } else {
        let p = pow2((e - 1) as nat);
        lemma_pow2_pos((e - 1) as nat);
        lemma_pow2_unfold(e as nat);
        assert((FRACTION_UNIT + m) * p < FRACTION_UNIT * (2 * p) && FRACTION_UNIT * p <= (
        FRACTION_UNIT + m) * p) by (nonlinear_arith)
            requires
                0 <= m < FRACTION_UNIT,
                p > 0,
        ;
    }
}

/// Of two finite numbers, the one of the larger magnitude has the larger
/// absolute value.
proof fn lemma_scaled_increases(a: Scalar, b: Scalar)
    requires
        a.spec_is_finite(),
        b.spec_is_finite(),
        a.magnitude() < b.magnitude(),
    ensures
        a.scaled() < b.scaled(),
{
    lemma_scaled_bounds(a);
    lemma_scaled_bounds(b);
    let ea = a.exponent();
    let eb = b.exponent();
    if ea < eb {
        if ea < eb - 1 {
            lemma_pow2_strictly_increases(ea as nat, (eb - 1) as nat);
        }
        assert(FRACTION_UNIT * pow2(ea as nat) <= FRACTION_UNIT * pow2((eb - 1) as nat))
            by (nonlinear_arith)
            requires
                pow2(ea as nat) <= pow2((eb - 1) as nat),
        ;
    } else {
        assert(ea == eb);
        if ea >= 1 {
            let p = pow2((ea - 1) as nat);
            lemma_pow2_pos((ea - 1) as nat);
            assert((FRACTION_UNIT + a.fraction()) * p < (FRACTION_UNIT + b.fraction()) * p)
                by (nonlinear_arith)
                requires
                    a.fraction() < b.fraction(),
                    p > 0,
            ;
        }
    }
}

/// The order of finite numbers is the order of their values.
pub proof fn lemma_order_is_by_value(a: Scalar, b: Scalar)
    requires
        a.spec_is_finite(),
        b.spec_is_finite(),
    ensures
        a.spec_lt(b) <==> a.value() < b.value(),
        a.spec_le(b) <==> a.value() <= b.value(),
{
    let zero = Scalar { bits: 0 };
    assert(zero.scaled() == 0);
    if a.magnitude() > 0 {
        lemma_scaled_increases(zero, a);
    } else {
        assert(a.scaled() == 0);
    }
    if b.magnitude() > 0 {
        lemma_scaled_increases(zero, b);
    } else {
        assert(b.scaled() == 0);
    }
    if a.magnitude() < b.magnitude() {
        lemma_scaled_increases(a, b);
    } else if b.magnitude() < a.magnitude() {
        lemma_scaled_increases(b, a);
    } else {
        assert(a.exponent() == b.exponent() && a.fraction() == b.fraction());
    }
}

/// At most one number is exactly the integer `k`.
pub proof fn lemma_integer_is_unique(a: Scalar, b: Scalar, k: nat)
    requires
        a.spec_is_integer(k),
        b.spec_is_integer(k),
    ensures
        a == b,
{
    lemma_scaled_bounds(a);
    lemma_scaled_bounds(b);
    let ea = a.exponent();
    let eb = b.exponent();
    if ea < eb {
        if ea < eb - 1 {
            lemma_pow2_strictly_increases(ea as nat, (eb - 1) as nat);
        }
        assert(FRACTION_UNIT * pow2(ea as nat) <= FRACTION_UNIT * pow2((eb - 1) as nat))
            by (nonlinear_arith)
            requires
                pow2(ea as nat) <= pow2((eb - 1) as nat),
        ;
        assert(false);
    }
    if eb < ea {
        if eb < ea - 1 {
            lemma_pow2_strictly_increases(eb as nat, (ea - 1) as nat);
        }
        assert(FRACTION_UNIT * pow2(eb as nat) <= FRACTION_UNIT * pow2((ea - 1) as nat))
            by (nonlinear_arith)
            requires
                pow2(eb as nat) <= pow2((ea - 1) as nat),
        ;
        assert(false);
    }
    if ea >= 1 {
        let p = pow2((ea - 1) as nat);
        lemma_pow2_pos((ea - 1) as nat);
        assert(a.fraction() == b.fraction()) by (nonlinear_arith)
            requires
                (FRACTION_UNIT + a.fraction()) * p == (FRACTION_UNIT + b.fraction()) * p,
                p > 0,
        ;
    }
    assert(a.bits == b.bits);
}

} // verus!
