//! IEEE 754 double-precision numbers, held by their bit pattern.
//!
//! Thresholds and utilisations arrive as doubles. The controller compares them
//! and passes them on; both need only the bit pattern, so the comparisons here
//! are exact and are stated over the numbers that the patterns stand for.
use vstd::arithmetic::power2::{
    lemma_pow2_pos, lemma_pow2_strictly_increases, lemma_pow2_unfold, pow2,
};
use vstd::prelude::*;

verus! {

/// Weight of the sign bit.
pub const SIGN: u64 = 0x8000_0000_0000_0000;

/// Weight of the lowest exponent bit: two to the power of the fraction's width.
pub const HIDDEN: u64 = 0x0010_0000_0000_0000;

/// Exponent of infinities and of values that are not numbers.
pub const TOP_EXPONENT: u64 = 2047;

/// A double-precision number.
#[derive(Debug, Clone, Copy, Default, PartialEq, Eq, Structural)]
pub struct Double {
    pub bits: u64,
}

/// The number that a pattern without its sign bit stands for, as a multiple of
/// the smallest positive double. Infinity continues the same progression, above
/// every finite number.
pub open spec fn magnitude(pattern: nat) -> nat {
    let exponent = pattern / (HIDDEN as nat);
    let fraction = pattern % (HIDDEN as nat);
    if exponent == 0 {
        fraction
    } else {
        (HIDDEN as nat + fraction) * pow2((exponent - 1) as nat)
    }
}

impl Double {
    pub open spec fn negative(self) -> bool {
        self.bits >= SIGN
    }

    /// The pattern without its sign bit.
    pub open spec fn pattern(self) -> nat {
        (self.bits % SIGN) as nat
    }

    pub open spec fn nan(self) -> bool {
        self.pattern() > (TOP_EXPONENT as nat) * (HIDDEN as nat)
    }

    pub open spec fn finite(self) -> bool {
        self.pattern() < (TOP_EXPONENT as nat) * (HIDDEN as nat)
    }

    /// The number itself, in units of the smallest positive double.
    pub open spec fn value(self) -> int {
        if self.negative() {
            -(magnitude(self.pattern()) as int)
        } else {
            magnitude(self.pattern()) as int
        }
    }

    /// The double with the given bit pattern.
    pub fn from_bits(bits: u64) -> (x: Double)
        ensures
            x.bits == bits,
    {
        Double { bits }
    }

    /// The bit pattern.
    pub fn to_bits(self) -> (bits: u64)
        ensures
            bits == self.bits,
    {
        self.bits
    }

    /// Zero.
    pub fn zero() -> (x: Double)
        ensures
            x.bits == 0,
            x.value() == 0,
            x.finite(),
    {
        Double { bits: 0 }
    }

    /// One.
    pub fn one() -> (x: Double)
        ensures
            x == one_double(),
    {
        Double { bits: 0x3FF0_0000_0000_0000 }
    }

    /// Whether this is neither an infinity nor "not a number".
    pub fn is_finite(self) -> (r: bool)
        ensures
            r == self.finite(),
    {
        self.bits % SIGN < TOP_EXPONENT * HIDDEN
    }

    /// Whether this is "not a number".
    pub fn is_nan(self) -> (r: bool)
        ensures
            r == self.nan(),
    {
        self.bits % SIGN > TOP_EXPONENT * HIDDEN
    }

    spec fn key_spec(self) -> int {
        if self.negative() {
            -(self.pattern() as int)
        } else {
            self.pattern() as int
        }
    }

    fn key(self) -> (k: i64)
        ensures
            k == self.key_spec(),
    {
        let pattern: u64 = self.bits % SIGN;
        if self.bits >= SIGN {
            -(pattern as i64)
        } else {
            pattern as i64
        }
    }

    /// `self < other`; never true of "not a number".
    pub fn lt(self, other: Double) -> (r: bool)
        ensures
            r == self.below(other),
    {
        proof {
            lemma_key_orders(self, other);
        }
        !self.is_nan() && !other.is_nan() && self.key() < other.key()
    }

    /// `self <= other`; never true of "not a number".
    pub fn le(self, other: Double) -> (r: bool)
        ensures
            r == self.at_most(other),
    {
        proof {
            lemma_key_orders(other, self);
        }
        !self.is_nan() && !other.is_nan() && self.key() <= other.key()
    }

    /// `self < other` as numbers.
    pub open spec fn below(self, other: Double) -> bool {
        !self.nan() && !other.nan() && self.value() < other.value()
    }

    /// `self <= other` as numbers.
    pub open spec fn at_most(self, other: Double) -> bool {
        !self.nan() && !other.nan() && self.value() <= other.value()
    }

    /// Whether the number lies in the closed unit interval.
    pub open spec fn in_unit(self) -> bool {
        zero_double().at_most(self) && self.at_most(one_double())
    }

    /// The number moved into the closed unit interval; "not a number" stays.
    pub open spec fn clamped(self) -> Double {
        if self.below(zero_double()) {
            zero_double()
        } else if one_double().below(self) {
            one_double()
        } else {
            self
        }
    }

    /// Move the number into the closed unit interval; "not a number" stays.
    pub fn clamp_unit(self) -> (r: Double)
        ensures
            r == self.clamped(),
    {
        if self.lt(Double::zero()) {
            Double::zero()
        } else if Double::one().lt(self) {
            Double::one()
        } else {
            self
        }
    }
}

/// The double zero.
pub open spec fn zero_double() -> Double {
    Double { bits: 0 }
}

/// The double one.
pub open spec fn one_double() -> Double {
    Double { bits: 0x3FF0_0000_0000_0000 }
}

proof fn lemma_magnitude_step(low: nat, high: nat)
    requires
        low < high,
    ensures
        magnitude(low) < magnitude(high),
{
    let h = HIDDEN as nat;
    let e1 = low / h;
    let e2 = high / h;
    let f1 = low % h;
    let f2 = high % h;
    assert(low == e1 * h + f1) by (nonlinear_arith)
        requires
            e1 == low / h,
            f1 == low % h,
            h > 0,
    ;
    assert(high == e2 * h + f2) by (nonlinear_arith)
        requires
            e2 == high / h,
            f2 == high % h,
            h > 0,
    ;
    assert(e1 <= e2 && (e1 == e2 ==> f1 < f2)) by (nonlinear_arith)
        requires
            low == e1 * h + f1,
            high == e2 * h + f2,
            low < high,
            f1 < h,
            f2 < h,
            h > 0,
    ;
    if e1 == 0 {
        if e2 > 0 {
            lemma_pow2_pos((e2 - 1) as nat);
            let p = pow2((e2 - 1) as nat);
            assert((h + f2) * p >= h) by (nonlinear_arith)
                requires
                    p >= 1,
                    h > 0,
                    f2 >= 0,
            ;
        }
    } else {
        let p1 = pow2((e1 - 1) as nat);
        let p2 = pow2((e2 - 1) as nat);
        lemma_pow2_pos((e1 - 1) as nat);
        if e1 == e2 {
            assert((h + f1) * p1 < (h + f2) * p1) by (nonlinear_arith)
                requires
                    f1 < f2,
                    p1 > 0,
            ;
        } else {
            lemma_pow2_unfold(e1);
            if e1 < e2 - 1 {
                lemma_pow2_strictly_increases(e1, (e2 - 1) as nat);
            }
            assert(p2 >= 2 * p1);
            assert((h + f1) * p1 < (h + f2) * p2) by (nonlinear_arith)
                requires
                    f1 < h,
                    f2 >= 0,
                    p1 > 0,
                    p2 >= 2 * p1,
            ;
        }
    }
}

proof fn lemma_key_orders(x: Double, y: Double)
    ensures
        x.key_spec() < y.key_spec() <==> x.value() < y.value(),
{
    let a = x.pattern();
    let b = y.pattern();
    if a < b {
        lemma_magnitude_step(a, b);
    } else if b < a {
        lemma_magnitude_step(b, a);
    }
    if a > 0 {
        lemma_magnitude_step(0, a);
    }
    if b > 0 {
        lemma_magnitude_step(0, b);
    }
    assert(magnitude(0) == 0);
}

/// Numbers without a sign are ordered as their bit patterns are.
pub proof fn lemma_unsigned_order(x: Double, y: Double)
    requires
        !x.negative(),
        !y.negative(),
    ensures
        x.bits < y.bits <==> x.value() < y.value(),
        x.bits <= y.bits <==> x.value() <= y.value(),
{
    lemma_key_orders(x, y);
    lemma_key_orders(y, x);
}

/// A number in the unit interval is finite.
pub proof fn lemma_in_unit_is_finite(x: Double)
    ensures
        x.in_unit() ==> x.finite(),
{
    if x.in_unit() {
        if x.negative() {
            if x.pattern() > 0 {
                lemma_magnitude_step(0, x.pattern());
            }
        } else {
            lemma_unsigned_order(x, one_double());
        }
    }
}

/// Moving a number into the unit interval twice is moving it once; what lies at or
/// below zero becomes zero, and what lies at or above one becomes one.
pub proof fn lemma_clamped(x: Double)
    ensures
        x.clamped().clamped() == x.clamped(),
        x.at_most(zero_double()) ==> x.clamped().value() == 0,
        one_double().at_most(x) ==> x.clamped() == one_double(),
        !x.nan() ==> x.clamped().in_unit(),
{
    lemma_unsigned_order(zero_double(), one_double());
    if one_double().at_most(x) && !one_double().below(x) {
        lemma_unsigned_order(x, one_double());
    }
}

/// Which patterns are numbers, and how numbers are ordered: without a sign as their
/// patterns are, with a sign the other way round, with a sign before without, and the
/// two zeros alike. What is not a number stands in no order to anything.
pub proof fn law_order_of_doubles(x: Double, y: Double)
    ensures
        ({
            let top = 0x7FF0_0000_0000_0000int;
            let sign = 0x8000_0000_0000_0000int;
            let a = x.bits as int;
            let b = y.bits as int;
            let x_number = a <= top || sign <= a <= sign + top;
            let y_number = b <= top || sign <= b <= sign + top;
            &&& x.nan() <==> !x_number
            &&& x.finite() <==> a < top || sign <= a < sign + top
            &&& x.below(y) <==> x_number && y_number && (if a < sign && b < sign {
                a < b
            } else if a >= sign && b >= sign {
                b < a
            } else {
                a >= sign && !(a == sign && b == 0)
            })
            &&& x.at_most(y) <==> x_number && y_number && !y.below(x)
        }),
{
    lemma_key_orders(x, y);
    lemma_key_orders(y, x);
}

/// Moving into the unit interval leaves what lies in it, and brings what lies outside
/// to the nearer end.
pub proof fn law_clamping_goes_to_the_nearer_end(x: Double)
    ensures
        x.in_unit() ==> x.clamped() == x,
        x.below(zero_double()) ==> x.clamped() == zero_double(),
        one_double().below(x) ==> x.clamped() == one_double(),
        x.nan() ==> x.clamped() == x,
        x.in_unit() <==> !x.nan() && !x.below(zero_double()) && !one_double().below(x),
{
    lemma_unsigned_order(zero_double(), one_double());
}

} // verus!
