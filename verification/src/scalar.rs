//! Single-precision numbers, carried by their bit patterns.
//!
//! The viewer stores such numbers (sizes in points, opacities, colour channels), hands them on
//! and compares them. It never computes with them, so their bits are all it needs.

use vstd::arithmetic::power2::lemma_pow2_adds;
use vstd::arithmetic::power2::lemma_pow2_pos;
use vstd::arithmetic::power2::lemma_pow2_strictly_increases;
use vstd::arithmetic::power2::pow2;
use vstd::prelude::*;

verus! {

/// A binary32 number: one sign bit, eight exponent bits, 23 fraction bits.
#[derive(Clone, Copy, Debug, PartialEq, Eq, Structural)]
pub struct Scalar {
    pub bits: u32,
}

/// The bits of the number 0.
pub const ZERO_BITS: u32 = 0;

/// The bits of the number 1.
pub const ONE_BITS: u32 = 0x3f80_0000;

/// The bit that makes a number negative.
pub const SIGN_BIT: u32 = 0x8000_0000;

/// The bits of positive infinity. A larger magnitude is not a number.
pub const INFINITY_BITS: u32 = 0x7f80_0000;

/// The lowest exponent bit, which is also the leading bit that the fraction leaves out.
pub const EXPONENT_STEP: u32 = 0x0080_0000;

/// The magnitude whose bits (sign aside) are `magnitude`, in units of 2^-149, the smallest
/// positive number. Infinity counts as the next magnitude after the largest finite one.
pub open spec fn magnitude_units(magnitude: nat) -> nat {
    let exponent = magnitude / EXPONENT_STEP as nat;
    let fraction = magnitude % EXPONENT_STEP as nat;
    if exponent == 0 {
        fraction
    } else {
        (fraction + EXPONENT_STEP as nat) * pow2((exponent - 1) as nat)
    }
}

impl Scalar {
    /// Whether the sign bit is set.
    pub open spec fn is_negative(self) -> bool {
        self.bits >= SIGN_BIT
    }

    /// The bits below the sign.
    pub open spec fn magnitude(self) -> nat {
        if self.is_negative() {
            (self.bits - SIGN_BIT) as nat
        } else {
            self.bits as nat
        }
    }

    /// Whether the bits stand for no number at all.
    pub open spec fn is_nan(self) -> bool {
        self.magnitude() > INFINITY_BITS
    }

    /// Whether the bits stand for a number that is not infinite.
    pub open spec fn is_finite(self) -> bool {
        self.magnitude() < INFINITY_BITS
    }

    /// The number itself, in units of 2^-149. Every finite number is a whole number of them.
    pub open spec fn units(self) -> int {
        if self.is_negative() {
            -(magnitude_units(self.magnitude()) as int)
        } else {
            magnitude_units(self.magnitude()) as int
        }
    }

    /// The order of numbers: what is not a number is neither below nor above anything.
    pub open spec fn below(self, other: Scalar) -> bool {
        !self.is_nan() && !other.is_nan() && self.units() < other.units()
    }

    /// Whether this number is less than `other`.
    pub fn less_than(self, other: Scalar) -> (less: bool)
        ensures
            less == self.below(other),
    {
        let self_negative: bool = self.bits >= SIGN_BIT;
        let other_negative: bool = other.bits >= SIGN_BIT;
        let a: u32 = if self_negative { self.bits - SIGN_BIT } else { self.bits };
        let b: u32 = if other_negative { other.bits - SIGN_BIT } else { other.bits };
        if a > INFINITY_BITS || b > INFINITY_BITS {
            return false;
        }
        proof {
            lemma_magnitude_order(a as nat, b as nat);
            lemma_magnitude_order(b as nat, a as nat);
            lemma_magnitude_order(0, a as nat);
            lemma_magnitude_order(0, b as nat);
            assert(magnitude_units(0) == 0);
        }
        if self_negative {
            if other_negative {
                b < a
            } else {
                a > 0 || b > 0
            }
        } else {
            !other_negative && a < b
        }
    }
}

/// Magnitudes are ordered as their bits are.
pub proof fn lemma_magnitude_order(a: nat, b: nat)
    ensures
        a < b <==> magnitude_units(a) < magnitude_units(b),
{
    if a < b {
        lemma_magnitude_increases(a, b);
    } else if b < a {
        lemma_magnitude_increases(b, a);
    }
}

proof fn lemma_magnitude_increases(a: nat, b: nat)
    requires
        a < b,
    ensures
        magnitude_units(a) < magnitude_units(b),
{
    let step = EXPONENT_STEP as nat;
    let ea = a / step;
    let eb = b / step;
    let fa = a % step;
    let fb = b % step;
    assert(a == ea * step + fa && fa < step);
    assert(b == eb * step + fb && fb < step);
    if ea == eb {
        if ea > 0 {
            lemma_pow2_pos((ea - 1) as nat);
            let p = pow2((ea - 1) as nat);
            assert((fa + step) * p < (fb + step) * p) by (nonlinear_arith)
                requires
                    fa < fb,
                    p > 0,
            ;
        }
    } else {
        assert(ea < eb);
        lemma_pow2_pos((eb - 1) as nat);
        let q = pow2((eb - 1) as nat);
        assert((fb + step) * q >= step * q) by (nonlinear_arith)
            requires
                q > 0,
                fb >= 0,
        ;
        if ea == 0 {
            assert(step * q >= step) by (nonlinear_arith)
                requires
                    q > 0,
                    step > 0,
            ;
        } else {
            lemma_pow2_pos((ea - 1) as nat);
            let p = pow2((ea - 1) as nat);
            lemma_pow2_adds((ea - 1) as nat, 1);
            assert(pow2(1) == 2) by {
                vstd::arithmetic::power2::lemma2_to64();
            }
            if ea < eb - 1 {
                lemma_pow2_strictly_increases(ea, (eb - 1) as nat);
            }
            assert(2 * p <= q);
            assert((fa + step) * p < step * q) by (nonlinear_arith)
                requires
                    fa < step,
                    p > 0,
                    2 * p <= q,
            ;
        }
    }
}

/// What the bits of a finite number stand for: with `f` for the fraction, `f` units where the
/// exponent is zero, and else 2^23 + `f` units, doubled once for each exponent above one.
pub proof fn law_value_of_bits(negative: bool, exponent: nat, fraction: nat)
    requires
        exponent < 255,
        fraction < 0x0080_0000,
    ensures
        ({
            let bits = if negative {
                0x8000_0000 + exponent * 0x0080_0000 + fraction
            } else {
                exponent * 0x0080_0000 + fraction
            };
            let size = if exponent == 0 {
                fraction as int
            } else {
                ((fraction + 0x0080_0000) * pow2((exponent - 1) as nat)) as int
            };
            let number = Scalar { bits: bits as u32 };
            &&& number.is_finite()
            &&& !number.is_nan()
            &&& number.units() == if negative {
                -size
            } else {
                size
            }
        }),
{
    let magnitude = exponent * 0x0080_0000 + fraction;
    assert(magnitude < 0x7f80_0000);
    assert(magnitude / 0x0080_0000 == exponent && magnitude % 0x0080_0000 == fraction);
}

/// Which bits stand for no number: those beyond infinity, of either sign.
pub proof fn law_what_is_no_number(value: Scalar)
    ensures
        value.is_nan() <==> 0x7f80_0000 < value.bits < 0x8000_0000 || 0xff80_0000 < value.bits,
        value.is_finite() <==> value.bits < 0x7f80_0000 || 0x8000_0000 <= value.bits < 0xff80_0000,
{
}

/// The order is that of the values: strict, transitive, and total but for what is no number.
/// Changing both signs turns it around.
pub proof fn law_order_is_that_of_values(a: Scalar, b: Scalar, c: Scalar)
    ensures
        !a.is_nan() && !b.is_nan() ==> (a.below(b) <==> a.units() < b.units()),
        a.is_nan() || b.is_nan() ==> !a.below(b),
        a.below(b) ==> !b.below(a),
        a.below(b) && b.below(c) ==> a.below(c),
        a.bits < SIGN_BIT && b.bits < SIGN_BIT ==> (a.below(b) <==> (Scalar {
            bits: (b.bits + SIGN_BIT) as u32,
        }).below(Scalar { bits: (a.bits + SIGN_BIT) as u32 })),
{
}

/// Infinity lies beyond every finite number, on either side.
pub proof fn law_infinity_is_beyond(value: Scalar)
    requires
        value.is_finite(),
    ensures
        value.below(Scalar { bits: 0x7f80_0000 }),
        (Scalar { bits: 0xff80_0000 }).below(value),
{
    lemma_magnitude_order(value.magnitude(), 0x7f80_0000);
    lemma_magnitude_order(0, 0x7f80_0000);
    lemma_magnitude_order(0, value.magnitude());
}

/// The bits of 0 and of 1 stand for these numbers: nothing, and as many of the smallest units as
/// make one whole.
pub proof fn law_zero_and_one()
    ensures
        (Scalar { bits: ZERO_BITS }).units() == 0,
        (Scalar { bits: ONE_BITS }).units() == pow2(149),
        !(Scalar { bits: ZERO_BITS }).is_negative(),
        !(Scalar { bits: ONE_BITS }).is_negative(),
        (Scalar { bits: ZERO_BITS }).is_finite(),
        (Scalar { bits: ONE_BITS }).is_finite(),
{
    assert(0x3f80_0000nat / 0x0080_0000nat == 127);
    assert(0x3f80_0000nat % 0x0080_0000nat == 0);
    lemma_pow2_adds(23, 126);
    assert(pow2(23) == 0x0080_0000) by {
        vstd::arithmetic::power2::lemma2_to64();
    }
}

} // verus!
