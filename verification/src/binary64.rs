use vstd::prelude::*;
use vstd::arithmetic::power2::{
    lemma_pow2_pos,
    lemma_pow2_strictly_increases,
    lemma_pow2_unfold,
    pow2,
};

verus! {

/// Two to the power 52: the weight of the exponent field within an encoding.
pub const FRACTION_SPAN: u64 = 0x0010_0000_0000_0000;

/// The sign bit of a binary64 encoding.
pub const SIGN_BIT: u64 = 0x8000_0000_0000_0000;

/// The encoding of positive infinity; every larger magnitude encodes a NaN.
pub const INFINITY_BITS: u64 = 0x7FF0_0000_0000_0000;

/// The encoding of `1.0`.
pub const ONE_BITS: u64 = 0x3FF0_0000_0000_0000;

/// A double-precision number, held as its IEEE-754 binary64 encoding.
///
/// The library never computes with such a number. It only reads the sign and
/// the order, both of which the encoding shows directly: a larger magnitude
/// field means a larger absolute value, so the signed magnitude
/// ([`Binary64::key`]) orders encodings exactly as the numbers they stand for
/// ([`Binary64::number`]) are ordered, with the two zeros equal. This is
/// [`lemma_key_orders_numbers`].
///
/// The derived `==` compares encodings; [`Binary64::same_value`] compares
/// numbers.
#[derive(Clone, Copy, Debug, PartialEq, Eq, Structural)]
pub struct Binary64 {
    pub bits: u64,
}

impl Binary64 {
    /// The encoding without its sign bit.
    pub open spec fn magnitude(self) -> int {
        if self.bits >= SIGN_BIT {
            self.bits - SIGN_BIT
        } else {
            self.bits as int
        }
    }

    /// Whether the sign bit is set.
    pub open spec fn negative(self) -> bool {
        self.bits >= SIGN_BIT
    }

    /// Whether the encoding is one of a NaN.
    pub open spec fn nan(self) -> bool {
        self.magnitude() > INFINITY_BITS
    }

    /// The exponent field: the upper eleven bits of the magnitude.
    pub open spec fn exponent(self) -> int {
        self.magnitude() / (FRACTION_SPAN as int)
    }

    /// The fraction field: the lower 52 bits of the magnitude.
    pub open spec fn fraction(self) -> int {
        self.magnitude() % (FRACTION_SPAN as int)
    }

    /// The absolute value that the encoding stands for, counted in units of
    /// the least positive double, two to the power -1074. A subnormal
    /// encoding stands for its fraction, a normal one for its fraction behind
    /// a leading one, doubled once for each step of the exponent above one.
    /// The same rule gives infinity a value beyond every finite one.
    pub open spec fn scale(self) -> int {
        if self.exponent() == 0 {
            self.fraction()
        } else {
            (FRACTION_SPAN + self.fraction()) * pow2((self.exponent() - 1) as nat)
        }
    }

    /// The number that the encoding stands for, in units of two to the
    /// power -1074.
    pub open spec fn number(self) -> int {
        if self.negative() {
            -self.scale()
        } else {
            self.scale()
        }
    }

    /// The signed magnitude. For encodings that are not NaN it is strictly
    /// monotone in the number encoded, and zero for both zeros.
    pub open spec fn key(self) -> int {
        if self.negative() {
            -self.magnitude()
        } else {
            self.magnitude()
        }
    }

    /// `self < other` as numbers: false whenever either is NaN.
    pub open spec fn less(self, other: Binary64) -> bool {
        !self.nan() && !other.nan() && self.key() < other.key()
    }

    /// `self <= other` as numbers: false whenever either is NaN.
    pub open spec fn less_eq(self, other: Binary64) -> bool {
        !self.nan() && !other.nan() && self.key() <= other.key()
    }

    /// `self == other` as numbers: the zeros are equal, a NaN equals nothing.
    pub open spec fn same_value(self, other: Binary64) -> bool {
        !self.nan() && !other.nan() && self.key() == other.key()
    }

    /// Positive zero.
    pub open spec fn zero_spec() -> Binary64 {
        Binary64 { bits: 0 }
    }

    /// The rectifier: the number itself where it is greater than zero, and
    /// positive zero everywhere else, NaN included.
    pub open spec fn rectified(self) -> Binary64 {
        if Self::zero_spec().less(self) {
            self
        } else {
            Self::zero_spec()
        }
    }

    /// Positive zero.
    pub fn zero() -> (z: Binary64)
        ensures
            z == Self::zero_spec(),
    {
        Binary64 { bits: 0 }
    }

    /// The encoding of `1.0`.
    pub fn one() -> (r: Binary64)
        ensures
            r.bits == ONE_BITS,
    {
        Binary64 { bits: ONE_BITS }
    }

    /// Whether the encoding is one of a NaN.
    pub fn is_nan(&self) -> (r: bool)
        ensures
            r == self.nan(),
    {
        let magnitude: u64 = if self.bits >= SIGN_BIT {
            self.bits - SIGN_BIT
        } else {
            self.bits
        };
        magnitude > INFINITY_BITS
    }

    /// The signed magnitude as a machine integer.
    pub fn order_key(&self) -> (k: i64)
        ensures
            k == self.key(),
    {
        if self.bits >= SIGN_BIT {
            let magnitude: u64 = self.bits - SIGN_BIT;
            -(magnitude as i64)
        } else {
            self.bits as i64
        }
    }

    /// `self < other` as numbers.
    pub fn lt(&self, other: &Binary64) -> (r: bool)
        ensures
            r == self.less(*other),
    {
        !self.is_nan() && !other.is_nan() && self.order_key() < other.order_key()
    }

    /// `self <= other` as numbers.
    pub fn le(&self, other: &Binary64) -> (r: bool)
        ensures
            r == self.less_eq(*other),
    {
        !self.is_nan() && !other.is_nan() && self.order_key() <= other.order_key()
    }

    /// `self == other` as numbers.
    pub fn eq_value(&self, other: &Binary64) -> (r: bool)
        ensures
            r == self.same_value(*other),
    {
        !self.is_nan() && !other.is_nan() && self.order_key() == other.order_key()
    }

    /// The rectifier applied to one number.
    pub fn relu(&self) -> (r: Binary64)
        ensures
            r == self.rectified(),
    {
        let zero = Binary64::zero();
        if zero.lt(self) {
            *self
        } else {
            zero
        }
    }
}

/// A larger magnitude stands for a larger absolute value.
pub proof fn lemma_scale_grows(a: Binary64, b: Binary64)
    requires
        a.magnitude() < b.magnitude(),
    ensures
        0 <= a.scale() < b.scale(),
{
    let span = FRACTION_SPAN as int;
    let (ea, fa) = (a.exponent(), a.fraction());
    let (eb, fb) = (b.exponent(), b.fraction());
    vstd::arithmetic::div_mod::lemma_fundamental_div_mod(a.magnitude(), span);
    vstd::arithmetic::div_mod::lemma_fundamental_div_mod(b.magnitude(), span);
    vstd::arithmetic::div_mod::lemma_mod_bound(a.magnitude(), span);
    vstd::arithmetic::div_mod::lemma_mod_bound(b.magnitude(), span);
    vstd::arithmetic::div_mod::lemma_div_pos_is_pos(a.magnitude(), span);
    vstd::arithmetic::div_mod::lemma_div_is_ordered(a.magnitude(), b.magnitude(), span);
    if ea > 0 {
        lemma_pow2_pos((ea - 1) as nat);
        assert(0 <= (span + fa) * pow2((ea - 1) as nat)) by (nonlinear_arith)
            requires
                0 <= span + fa,
                0 < pow2((ea - 1) as nat),
        ;
    }
    if ea == eb {
        // the same exponent: the fractions decide
        if ea > 0 {
            let p = pow2((ea - 1) as nat);
            assert((span + fa) * p < (span + fb) * p) by (nonlinear_arith)
                requires
                    fa < fb,
                    0 < p,
            ;
        }
    } else {
        // a smaller exponent: even the greatest fraction stays below the
        // least number of the next exponent
        let q = pow2((eb - 1) as nat);
        lemma_pow2_pos((eb - 1) as nat);
        assert(span * q <= (span + fb) * q) by (nonlinear_arith)
            requires
                0 <= fb,
                0 < q,
        ;
        if ea == 0 {
            assert(span <= span * q) by (nonlinear_arith)
                requires
                    1 <= q,
                    0 < span,
            ;
        } else {
            let p = pow2((ea - 1) as nat);
            lemma_pow2_unfold(ea as nat);
            if ea < eb - 1 {
                lemma_pow2_strictly_increases(ea as nat, (eb - 1) as nat);
            }
            assert((span + fa) * p < span * (2 * p)) by (nonlinear_arith)
                requires
                    fa < span,
                    0 < p,
            ;
            assert(span * (2 * p) <= span * q) by (nonlinear_arith)
                requires
                    2 * p <= q,
                    0 < span,
            ;
        }
    }
}

/// The signed magnitude orders encodings exactly as the numbers they stand
/// for are ordered, and is the same exactly for encodings of the same number.
pub proof fn lemma_key_orders_numbers(a: Binary64, b: Binary64)
    ensures
        a.key() < b.key() <==> a.number() < b.number(),
        a.key() == b.key() <==> a.number() == b.number(),
{
    // zero stands for nothing, every other magnitude for more
    let zero = Binary64 { bits: 0 };
    if a.magnitude() > 0 {
        lemma_scale_grows(zero, a);
    }
    if b.magnitude() > 0 {
        lemma_scale_grows(zero, b);
    }
    if a.magnitude() < b.magnitude() {
        lemma_scale_grows(a, b);
    } else if b.magnitude() < a.magnitude() {
        lemma_scale_grows(b, a);
    }
}

/// The rectifier is the greater of a number and zero: what it returns stands
/// for the number itself where that is above zero, and for zero otherwise.
pub proof fn lemma_rectifier_is_max_with_zero(value: Binary64)
    requires
        !value.nan(),
    ensures
        !value.rectified().nan(),
        value.rectified().number() == if value.number() > 0 {
            value.number()
        } else {
            0
        },
{
    let zero = Binary64 { bits: 0 };
    lemma_key_orders_numbers(zero, value);
}

} // verus!
