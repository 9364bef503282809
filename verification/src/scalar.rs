//! Single-precision numbers as bit patterns.
//!
//! The simulation's arithmetic is carried out by the host. What the core has
//! to do with a number is to store it, hand it back, and decide whether it
//! exceeds a threshold. All three work on the 32-bit pattern alone, so the
//! core holds numbers in that form and gives the order on patterns a meaning
//! in terms of the numbers they denote.

use vstd::prelude::*;
use vstd::arithmetic::power2::{
    lemma_pow2_adds, lemma_pow2_pos, lemma_pow2_strictly_increases, lemma_pow2_unfold, pow2,
};

verus! {

/// Pattern of the sign bit.
pub const SIGN_BIT: u32 = 0x8000_0000;

/// One past the largest fraction field; also the weight of the hidden bit.
pub const HIDDEN_BIT: u32 = 0x80_0000;

/// Magnitude pattern of infinity. Larger magnitude patterns are not numbers.
pub const INFINITY_BITS: u32 = 0x7F80_0000;

/// A binary32 number, held as its bit pattern: one sign bit, eight exponent
/// bits, twenty-three fraction bits.
///
/// `==` on `Scalar` compares patterns. It therefore tells `+0` from `-0` and
/// finds a not-a-number equal to itself; the order of numbers is `gt`.
#[derive(Clone, Copy, Debug, PartialEq, Eq, Structural)]
pub struct Scalar {
    pub bits: u32,
}

impl Scalar {
    /// The sign bit is set.
    pub open spec fn sign(self) -> bool {
        self.bits >= SIGN_BIT
    }

    /// The pattern without its sign bit.
    pub open spec fn magnitude_bits(self) -> nat {
        (self.bits % SIGN_BIT) as nat
    }

    /// The biased exponent, `0..=255`.
    pub open spec fn exponent(self) -> nat {
        ((self.bits / HIDDEN_BIT) % 0x100) as nat
    }

    /// The fraction field, below `2^23`.
    pub open spec fn fraction(self) -> nat {
        (self.bits % HIDDEN_BIT) as nat
    }

    /// The pattern denotes no number.
    pub open spec fn is_nan(self) -> bool {
        self.exponent() == 0xFF && self.fraction() != 0
    }

    /// The pattern denotes `+0` or `-0`.
    pub open spec fn is_zero(self) -> bool {
        self.exponent() == 0 && self.fraction() == 0
    }

    /// The absolute value denoted, in units of `2^-149`.
    ///
    /// Every finite binary32 number is a whole multiple of `2^-149`, so this
    /// is exact. For an infinity it yields `2^277`, which lies above every
    /// finite magnitude and so keeps the order.
    pub open spec fn magnitude(self) -> nat {
        if self.exponent() == 0 {
            self.fraction()
        } else {
            ((HIDDEN_BIT + self.fraction()) * pow2((self.exponent() - 1) as nat)) as nat
        }
    }

    /// The value denoted, in units of `2^-149`.
    pub open spec fn value(self) -> int {
        if self.sign() {
            -(self.magnitude() as int)
        } else {
            self.magnitude() as int
        }
    }

    /// The pattern read as a whole number with a sign: the magnitude
    /// pattern, negated where the sign bit is set. Keys are ordered as the
    /// values are (`lemma_key_orders_values`), and unlike a value a key can
    /// be read off the pattern.
    pub open spec fn key(self) -> int {
        if self.sign() {
            -(self.magnitude_bits() as int)
        } else {
            self.magnitude_bits() as int
        }
    }

    /// `self > other` as IEEE-754 defines it: both are numbers and the first
    /// denotes the larger one. Any comparison with a not-a-number is false,
    /// and the two zeros are equal.
    pub open spec fn gt(self, other: Scalar) -> bool {
        !self.is_nan() && !other.is_nan() && self.key() > other.key()
    }

    /// `self > 0`.
    pub open spec fn is_positive(self) -> bool {
        !self.is_nan() && self.key() > 0
    }

    /// The pattern denotes `numerator / denominator` exactly.
    pub open spec fn denotes(self, numerator: int, denominator: int) -> bool {
        !self.is_nan() && self.value() * denominator == numerator * pow2(149)
    }

    /// How far the number denoted lies from `numerator / denominator`, in
    /// units of `2^-149 / denominator`.
    pub open spec fn distance(self, numerator: int, denominator: int) -> int {
        let apart = self.value() * denominator - numerator * pow2(149);
        if apart < 0 {
            -apart
        } else {
            apart
        }
    }

    /// The pattern is what `numerator / denominator` rounds to: it denotes a
    /// number, and no binary32 number lies nearer to the quotient.
    pub open spec fn rounds(self, numerator: int, denominator: int) -> bool {
        &&& !self.is_nan()
        &&& forall|other: Scalar|
            !other.is_nan() ==> self.distance(numerator, denominator) <= #[trigger] other.distance(
                numerator,
                denominator,
            )
    }

    /// Wraps a bit pattern, as obtained from a host number.
    pub fn from_bits(bits: u32) -> (s: Scalar)
        ensures
            s.bits == bits,
    {
        Scalar { bits }
    }

    /// The bit pattern, for the host to turn back into a number.
    pub fn to_bits(self) -> (bits: u32)
        ensures
            bits == self.bits,
    {
        self.bits
    }

    /// Decides `self > other` on the two patterns.
    pub fn exceeds(self, other: Scalar) -> (r: bool)
        ensures
            r == self.gt(other),
    {
        let a: u32 = self.bits % SIGN_BIT;
        let b: u32 = other.bits % SIGN_BIT;
        proof {
            lemma_nan_patterns(self);
            lemma_nan_patterns(other);
        }
        if a > INFINITY_BITS || b > INFINITY_BITS {
            false
        } else if self.bits >= SIGN_BIT {
            other.bits >= SIGN_BIT && a < b
        } else if other.bits >= SIGN_BIT {
            a > 0 || b > 0
        } else {
            a > b
        }
    }

    /// Decides `self > 0` on the pattern.
    pub fn exceeds_zero(self) -> (r: bool)
        ensures
            r == self.is_positive(),
    {
        proof {
            lemma_nan_patterns(self);
        }
        0 < self.bits && self.bits <= INFINITY_BITS
    }
}

/// The magnitude pattern splits into exponent and fraction, and the patterns
/// that denote no number are those above infinity's.
pub proof fn lemma_nan_patterns(s: Scalar)
    ensures
        s.magnitude_bits() == s.exponent() * HIDDEN_BIT + s.fraction(),
        s.exponent() <= 0xFF,
        s.fraction() < HIDDEN_BIT,
        s.is_nan() <==> s.magnitude_bits() > INFINITY_BITS,
        s.is_zero() <==> s.magnitude_bits() == 0,
{
}

/// Between two patterns of one exponent, the larger fraction denotes the
/// larger magnitude; between two exponents, the larger exponent does.
pub proof fn lemma_magnitude_increases(a: Scalar, b: Scalar)
    requires
        a.magnitude_bits() < b.magnitude_bits(),
    ensures
        a.magnitude() < b.magnitude(),
{
    lemma_nan_patterns(a);
    lemma_nan_patterns(b);
    let ea = a.exponent();
    let eb = b.exponent();
    let fa = a.fraction();
    let fb = b.fraction();
    if ea == eb {
        if ea > 0 {
            let p = pow2((ea - 1) as nat);
            lemma_pow2_pos((ea - 1) as nat);
            assert((HIDDEN_BIT + fa) * p < (HIDDEN_BIT + fb) * p) by (nonlinear_arith)
                requires
                    fa < fb,
                    p > 0,
            ;
        }
    } else {
        assert(ea < eb) by (nonlinear_arith)
            requires
                ea * HIDDEN_BIT + fa < eb * HIDDEN_BIT + fb,
                fa < HIDDEN_BIT,
                fb < HIDDEN_BIT,
                ea != eb,
        ;
        let q = pow2((eb - 1) as nat);
        lemma_pow2_pos((eb - 1) as nat);
        assert(b.magnitude() >= HIDDEN_BIT * q) by (nonlinear_arith)
            requires
                b.magnitude() == (HIDDEN_BIT + fb) * q,
                q > 0,
        ;
        if ea == 0 {
            assert(HIDDEN_BIT * q >= HIDDEN_BIT) by (nonlinear_arith)
                requires
                    q > 0,
            ;
        } else {
            let p = pow2((ea - 1) as nat);
            lemma_pow2_pos((ea - 1) as nat);
            lemma_pow2_unfold(ea);
            if ea < eb - 1 {
                lemma_pow2_strictly_increases(ea, (eb - 1) as nat);
            }
            assert((HIDDEN_BIT + fa) * p < HIDDEN_BIT * q) by (nonlinear_arith)
                requires
                    fa < HIDDEN_BIT,
                    p > 0,
                    2 * p <= q,
            ;
        }
    }
}

/// The order of two magnitude patterns is the order of the magnitudes they
/// denote.
pub proof fn lemma_magnitude_order(a: Scalar, b: Scalar)
    ensures
        a.magnitude_bits() < b.magnitude_bits() <==> a.magnitude() < b.magnitude(),
        a.magnitude_bits() == b.magnitude_bits() <==> a.magnitude() == b.magnitude(),
{
    lemma_nan_patterns(a);
    lemma_nan_patterns(b);
    if a.magnitude_bits() < b.magnitude_bits() {
        lemma_magnitude_increases(a, b);
    } else if b.magnitude_bits() < a.magnitude_bits() {
        lemma_magnitude_increases(b, a);
    } else {
        assert(a.exponent() == b.exponent() && a.fraction() == b.fraction()) by (nonlinear_arith)
            requires
                a.exponent() * HIDDEN_BIT + a.fraction() == b.exponent() * HIDDEN_BIT + b.fraction(),
                a.fraction() < HIDDEN_BIT,
                b.fraction() < HIDDEN_BIT,
        ;
    }
}

/// Keys are ordered as the numbers that the patterns denote. So `gt` is
/// the order of those numbers, and `is_positive` says that the number is
/// greater than zero.
pub proof fn lemma_key_orders_values(a: Scalar, b: Scalar)
    ensures
        a.key() > b.key() <==> a.value() > b.value(),
        a.key() == b.key() <==> a.value() == b.value(),
        a.gt(b) <==> !a.is_nan() && !b.is_nan() && a.value() > b.value(),
        a.is_positive() <==> !a.is_nan() && a.value() > 0,
{
    let zero = Scalar { bits: 0 };
    lemma_nan_patterns(a);
    lemma_nan_patterns(b);
    lemma_magnitude_order(a, b);
    lemma_magnitude_order(b, a);
    lemma_magnitude_order(zero, a);
    lemma_magnitude_order(zero, b);
}

/// A positive number rounds a quotient if the quotient lies between the two
/// numbers next to it and no nearer to either of them.
pub proof fn lemma_rounds_between_neighbours(s: Scalar, numerator: int, denominator: int)
    requires
        denominator > 0,
        0 < s.bits < INFINITY_BITS,
        ({
            let below = Scalar { bits: (s.bits - 1) as u32 };
            let above = Scalar { bits: (s.bits + 1) as u32 };
            &&& below.value() * denominator <= numerator * pow2(149) <= above.value() * denominator
            &&& s.distance(numerator, denominator) <= below.distance(numerator, denominator)
            &&& s.distance(numerator, denominator) <= above.distance(numerator, denominator)
        }),
    ensures
        s.rounds(numerator, denominator),
{
    let below = Scalar { bits: (s.bits - 1) as u32 };
    let above = Scalar { bits: (s.bits + 1) as u32 };
    lemma_nan_patterns(s);
    lemma_nan_patterns(below);
    lemma_nan_patterns(above);
    assert forall|other: Scalar| !other.is_nan() implies s.distance(numerator, denominator)
        <= #[trigger] other.distance(numerator, denominator) by {
        lemma_nan_patterns(other);
        lemma_magnitude_order(other, s);
        lemma_magnitude_order(other, below);
        lemma_magnitude_order(other, above);
        let v = other.value();
        if other.sign() || other.magnitude_bits() < s.magnitude_bits() {
            assert(v <= below.value());
            assert(v * denominator <= below.value() * denominator) by (nonlinear_arith)
                requires
                    v <= below.value(),
                    denominator > 0,
            ;
        } else if other.magnitude_bits() > s.magnitude_bits() {
            assert(v >= above.value());
            assert(v * denominator >= above.value() * denominator) by (nonlinear_arith)
                requires
                    v >= above.value(),
                    denominator > 0,
            ;
        }
    }
}

/// The value of a positive normal number, from its fields: with `k` the
/// power of two that the exponent leaves up to `2^149`, the value times
/// `2^k` is the significand times `2^149`.
pub proof fn lemma_value_of_normal(s: Scalar, k: nat)
    requires
        !s.sign(),
        0 < s.exponent() < 0xFF,
        s.exponent() - 1 + k == 149,
    ensures
        s.value() * pow2(k) == (HIDDEN_BIT + s.fraction()) * pow2(149),
        s.value() > 0,
{
    let e = (s.exponent() - 1) as nat;
    lemma_pow2_adds(e, k);
    lemma_pow2_pos(e);
    assert((HIDDEN_BIT + s.fraction()) * pow2(e) * pow2(k) == (HIDDEN_BIT + s.fraction()) * (pow2(e)
        * pow2(k))) by (nonlinear_arith);
    assert((HIDDEN_BIT + s.fraction()) * pow2(e) > 0) by (nonlinear_arith)
        requires
            pow2(e) > 0,
    ;
}

/// A positive normal number rounds `numerator / denominator` if, counted in
/// units of the last place, the quotient is nearer to its significand than
/// to the one below and the one above. `k` is as in `lemma_value_of_normal`.
pub proof fn lemma_rounds_by_significand(s: Scalar, numerator: int, denominator: int, k: nat)
    requires
        denominator > 0,
        !s.sign(),
        0 < s.exponent() < 0xFF,
        0 < s.fraction() < HIDDEN_BIT - 1,
        s.exponent() - 1 + k == 149,
        ({
            let m = HIDDEN_BIT + s.fraction();
            let t = numerator * pow2(k);
            &&& (m - 1) * denominator <= t <= (m + 1) * denominator
            &&& 2 * (m * denominator - t) <= denominator
            &&& 2 * (t - m * denominator) <= denominator
        }),
    ensures
        s.rounds(numerator, denominator),
{
    let below = Scalar { bits: (s.bits - 1) as u32 };
    let above = Scalar { bits: (s.bits + 1) as u32 };
    lemma_nan_patterns(s);
    lemma_nan_patterns(below);
    lemma_nan_patterns(above);
    assert(below.exponent() == s.exponent() && below.fraction() == s.fraction() - 1);
    assert(above.exponent() == s.exponent() && above.fraction() == s.fraction() + 1);
    lemma_value_of_normal(s, k);
    lemma_value_of_normal(below, k);
    lemma_value_of_normal(above, k);
    let e = (s.exponent() - 1) as nat;
    let unit = pow2(e) as int;
    let m = (HIDDEN_BIT + s.fraction()) as int;
    let t = numerator * pow2(k);
    lemma_pow2_pos(e);
    lemma_pow2_adds(e, k);
    assert(numerator * pow2(149) == t * unit) by (nonlinear_arith)
        requires
            pow2(149) == unit * pow2(k),
            t == numerator * pow2(k),
    ;
    assert(s.value() * denominator - t * unit == (m * denominator - t) * unit
        && below.value() * denominator - t * unit == ((m - 1) * denominator - t) * unit
        && above.value() * denominator - t * unit == ((m + 1) * denominator - t) * unit)
        by (nonlinear_arith)
        requires
            s.value() == m * unit,
            below.value() == (m - 1) * unit,
            above.value() == (m + 1) * unit,
    ;
    let d = m * denominator - t;
    assert(((m - 1) * denominator - t) * unit <= 0 <= ((m + 1) * denominator - t) * unit
        && d * unit <= (t - (m - 1) * denominator) * unit && -(d * unit) <= (t - (m - 1)
        * denominator) * unit && d * unit <= ((m + 1) * denominator - t) * unit && -(d * unit) <= ((m
        + 1) * denominator - t) * unit) by (nonlinear_arith)
        requires
            unit > 0,
            d == m * denominator - t,
            (m - 1) * denominator <= t <= (m + 1) * denominator,
            2 * d <= denominator,
            -2 * d <= denominator,
    ;
    assert((t - (m - 1) * denominator) * unit == -(((m - 1) * denominator - t) * unit))
        by (nonlinear_arith);
    lemma_rounds_between_neighbours(s, numerator, denominator);
}

/// A positive normal number denotes `numerator / denominator` if its
/// significand does, counted in units of the last place. `k` is as in
/// `lemma_value_of_normal`.
pub proof fn lemma_denotes_by_significand(s: Scalar, numerator: int, denominator: int, k: nat)
    requires
        !s.sign(),
        0 < s.exponent() < 0xFF,
        s.exponent() - 1 + k == 149,
        (HIDDEN_BIT + s.fraction()) * denominator == numerator * pow2(k),
    ensures
        s.denotes(numerator, denominator),
{
    lemma_value_of_normal(s, k);
    lemma_pow2_pos(k);
    let m = (HIDDEN_BIT + s.fraction()) as int;
    assert(s.value() * denominator == numerator * pow2(149)) by (nonlinear_arith)
        requires
            s.value() * pow2(k) == m * pow2(149),
            m * denominator == numerator * pow2(k),
            pow2(k) > 0,
    ;
}

} // verus!
