//! Fixed-point decimal numbers.
//!
//! A [`Decimal`] holds the two integers that make up a `rust_decimal` number,
//! its mantissa and its scale. Ordering and arithmetic are done by
//! `rust_decimal` itself, behind the small trusted functions at the end of
//! this file.

use vstd::arithmetic::power::{lemma_pow_positive, pow};
use vstd::prelude::*;

verus! {

/// The largest magnitude a mantissa can have: 2^96 - 1.
pub const MAX_MANTISSA: i128 = 79_228_162_514_264_337_593_543_950_335;

/// The largest scale: the number has at most 28 digits after the point.
pub const MAX_SCALE: u32 = 28;

/// The number `mantissa / 10^scale`.
#[derive(Clone, Copy, Debug)]
pub struct Decimal {
    mantissa: i128,
    scale: u32,
}

/// Whether a mantissa and a scale are in the range that a decimal can hold.
pub open spec fn in_range(mantissa: int, scale: int) -> bool {
    -MAX_MANTISSA <= mantissa <= MAX_MANTISSA && 0 <= scale <= MAX_SCALE
}

impl Decimal {
    /// Every decimal has a mantissa of at most 96 bits and a scale of at most 28.
    #[verifier::type_invariant]
    pub closed spec fn wf(self) -> bool {
        in_range(self.mantissa as int, self.scale as int)
    }

    /// The mantissa: the digits of the number as an integer.
    pub closed spec fn spec_mantissa(&self) -> i128 {
        self.mantissa
    }

    /// The scale: how many of the digits stand after the point.
    pub closed spec fn spec_scale(&self) -> u32 {
        self.scale
    }

    /// The number in units of 10^-28, the finest step a decimal can express.
    /// Two decimals denote the same number exactly when their values agree,
    /// whatever their scales.
    pub open spec fn value(self) -> int {
        self.spec_mantissa() * pow(10, (MAX_SCALE - self.spec_scale()) as nat)
    }

    /// Whether the number is zero.
    pub open spec fn is_zero_spec(&self) -> bool {
        self.spec_mantissa() == 0
    }

    /// Whether the number is above zero.
    pub open spec fn is_positive_spec(&self) -> bool {
        self.spec_mantissa() > 0
    }

    /// Zero has mantissa 0 and scale 0.
    pub proof fn lemma_zero()
        ensures
            Decimal::zero_spec().spec_mantissa() == 0,
            Decimal::zero_spec().spec_scale() == 0,
            Decimal::zero_spec().value() == 0,
    {
        Decimal::zero_spec().lemma_value_sign();
    }

    /// The sign of the value is the sign of the mantissa.
    pub proof fn lemma_value_sign(self)
        ensures
            self.value() == 0 <==> self.spec_mantissa() == 0,
            self.value() > 0 <==> self.spec_mantissa() > 0,
            self.value() < 0 <==> self.spec_mantissa() < 0,
    {
        let p = pow(10, (MAX_SCALE - self.spec_scale()) as nat);
        lemma_pow_positive(10, (MAX_SCALE - self.spec_scale()) as nat);
        let m = self.spec_mantissa();
        assert(m > 0 ==> m * p > 0) by (nonlinear_arith)
            requires
                p > 0,
        ;
        assert(m < 0 ==> m * p < 0) by (nonlinear_arith)
            requires
                p > 0,
        ;
        assert(m == 0 ==> m * p == 0) by (nonlinear_arith);
    }

    /// The decimal `mantissa / 10^scale`, or `None` where the mantissa needs
    /// more than 96 bits or the scale is above 28.
    pub fn new(mantissa: i128, scale: u32) -> (r: Option<Decimal>)
        ensures
            r is Some <==> in_range(mantissa as int, scale as int),
            r matches Some(d) ==> d.spec_mantissa() == mantissa && d.spec_scale() == scale,
    {
        if -MAX_MANTISSA <= mantissa && mantissa <= MAX_MANTISSA && scale <= MAX_SCALE {
            Some(Decimal { mantissa, scale })
        } else {
            None
        }
    }

    /// Zero, with scale 0.
    pub closed spec fn zero_spec() -> Decimal {
        Decimal { mantissa: 0, scale: 0 }
    }

    /// Zero, with scale 0.
    #[verifier::when_used_as_spec(zero_spec)]
    pub fn zero() -> (r: Decimal)
        ensures
            r == Decimal::zero_spec(),
            r.spec_mantissa() == 0,
            r.spec_scale() == 0,
    {
        Decimal { mantissa: 0, scale: 0 }
    }

    /// The mantissa: the digits of the number as an integer.
    #[verifier::when_used_as_spec(spec_mantissa)]
    pub fn mantissa(&self) -> (m: i128)
        ensures
            m == self.spec_mantissa(),
    {
        self.mantissa
    }

    /// The scale: how many of the digits stand after the point.
    #[verifier::when_used_as_spec(spec_scale)]
    pub fn scale(&self) -> (s: u32)
        ensures
            s == self.spec_scale(),
    {
        self.scale
    }

    /// Whether the number is zero.
    #[verifier::when_used_as_spec(is_zero_spec)]
    pub fn is_zero(&self) -> (r: bool)
        ensures
            r == self.is_zero_spec(),
    {
        self.mantissa == 0
    }

    /// Whether the number is above zero.
    #[verifier::when_used_as_spec(is_positive_spec)]
    pub fn is_positive(&self) -> (r: bool)
        ensures
            r == self.is_positive_spec(),
    {
        self.mantissa > 0
    }

    /// Whether `self` is the smaller number.
    pub fn less_than(&self, other: &Decimal) -> (r: bool)
        ensures
            r == (self.value() < other.value()),
    {
        proof {
            use_type_invariant(self);
            use_type_invariant(other);
        }
        lt(self, other)
    }

    /// The smaller of two numbers, and `self` where they are equal in value.
    pub fn min(&self, other: &Decimal) -> (r: Decimal)
        ensures
            r == smaller(*self, *other),
    {
        if other.less_than(self) {
            *other
        } else {
            *self
        }
    }

    /// `self + other`, or `None` on overflow.
    pub fn checked_add(&self, other: &Decimal) -> (r: Option<Decimal>)
        ensures
            r == sum(*self, *other),
    {
        proof {
            use_type_invariant(self);
            use_type_invariant(other);
        }
        add_decimals(self, other)
    }

    /// `self - other`, or `None` on overflow.
    pub fn checked_sub(&self, other: &Decimal) -> (r: Option<Decimal>)
        ensures
            r == difference(*self, *other),
    {
        proof {
            use_type_invariant(self);
            use_type_invariant(other);
        }
        sub_decimals(self, other)
    }

    /// `self * other`, or `None` on overflow.
    pub fn checked_mul(&self, other: &Decimal) -> (r: Option<Decimal>)
        ensures
            r == product(*self, *other),
    {
        proof {
            use_type_invariant(self);
            use_type_invariant(other);
        }
        mul_decimals(self, other)
    }

    /// `self / other`, or `None` where `other` is zero or on overflow.
    pub fn checked_div(&self, other: &Decimal) -> (r: Option<Decimal>)
        ensures
            r == quotient(*self, *other),
    {
        proof {
            use_type_invariant(self);
            use_type_invariant(other);
        }
        div_decimals(self, other)
    }
}

/// The smaller of two numbers; the first where they are equal in value.
pub open spec fn smaller(a: Decimal, b: Decimal) -> Decimal {
    if b.value() < a.value() {
        b
    } else {
        a
    }
}

/// One, in the units of `Decimal::value`: 10^28.
pub open spec fn unit() -> int {
    pow(10, MAX_SCALE as nat)
}

/// The sum that `rust_decimal` returns is the sum of the two numbers, not a
/// rounding of it.
pub open spec fn sum_is_exact(a: Decimal, b: Decimal) -> bool {
    sum(a, b) matches Some(c) && c.value() == a.value() + b.value()
}

/// The difference that `rust_decimal` returns is not rounded.
pub open spec fn difference_is_exact(a: Decimal, b: Decimal) -> bool {
    difference(a, b) matches Some(c) && c.value() == a.value() - b.value()
}

/// The product that `rust_decimal` returns is not rounded.
pub open spec fn product_is_exact(a: Decimal, b: Decimal) -> bool {
    product(a, b) matches Some(c) && c.value() * unit() == a.value() * b.value()
}

/// The quotient that `rust_decimal` returns is not rounded.
pub open spec fn quotient_is_exact(a: Decimal, b: Decimal) -> bool {
    quotient(a, b) matches Some(c) && c.value() * b.value() == a.value() * unit()
}

/// What `rust_decimal` returns for `a + b`: the sum, rounded where it cannot be
/// held exactly, or `None` on overflow.
pub uninterp spec fn sum(a: Decimal, b: Decimal) -> Option<Decimal>;

/// What `rust_decimal` returns for `a - b`.
pub uninterp spec fn difference(a: Decimal, b: Decimal) -> Option<Decimal>;

/// What `rust_decimal` returns for `a * b`.
pub uninterp spec fn product(a: Decimal, b: Decimal) -> Option<Decimal>;

/// What `rust_decimal` returns for `a / b`; `None` also where `b` is zero.
pub uninterp spec fn quotient(a: Decimal, b: Decimal) -> Option<Decimal>;

/// Trusted: the `<` of `rust_decimal::Decimal`, which compares the two numbers
/// exactly, whatever their scales.
#[verifier::external_body]
fn lt(a: &Decimal, b: &Decimal) -> (r: bool)
    requires
        a.wf(),
        b.wf(),
    ensures
        r == (a.value() < b.value()),
{
    let x = rust_decimal::Decimal::from_i128_with_scale(a.mantissa, a.scale);
    let y = rust_decimal::Decimal::from_i128_with_scale(b.mantissa, b.scale);
    x < y
}

/// Trusted: `rust_decimal::Decimal::checked_add`. Its result depends on the two
/// operands alone and is again a decimal in range.
#[verifier::external_body]
fn add_decimals(a: &Decimal, b: &Decimal) -> (r: Option<Decimal>)
    requires
        a.wf(),
        b.wf(),
    ensures
        r == sum(*a, *b),
        r matches Some(d) ==> d.wf(),
{
    let x = rust_decimal::Decimal::from_i128_with_scale(a.mantissa, a.scale);
    let y = rust_decimal::Decimal::from_i128_with_scale(b.mantissa, b.scale);
    match x.checked_add(y) {
        Some(d) => Some(Decimal { mantissa: d.mantissa(), scale: d.scale() }),
        None => None,
    }
}

/// Trusted: `rust_decimal::Decimal::checked_sub`. Its result depends on the two
/// operands alone and is again a decimal in range.
#[verifier::external_body]
fn sub_decimals(a: &Decimal, b: &Decimal) -> (r: Option<Decimal>)
    requires
        a.wf(),
        b.wf(),
    ensures
        r == difference(*a, *b),
        r matches Some(d) ==> d.wf(),
{
    let x = rust_decimal::Decimal::from_i128_with_scale(a.mantissa, a.scale);
    let y = rust_decimal::Decimal::from_i128_with_scale(b.mantissa, b.scale);
    match x.checked_sub(y) {
        Some(d) => Some(Decimal { mantissa: d.mantissa(), scale: d.scale() }),
        None => None,
    }
}

/// Trusted: `rust_decimal::Decimal::checked_mul`. Its result depends on the two
/// operands alone and is again a decimal in range.
#[verifier::external_body]
fn mul_decimals(a: &Decimal, b: &Decimal) -> (r: Option<Decimal>)
    requires
        a.wf(),
        b.wf(),
    ensures
        r == product(*a, *b),
        r matches Some(d) ==> d.wf(),
{
    let x = rust_decimal::Decimal::from_i128_with_scale(a.mantissa, a.scale);
    let y = rust_decimal::Decimal::from_i128_with_scale(b.mantissa, b.scale);
    match x.checked_mul(y) {
        Some(d) => Some(Decimal { mantissa: d.mantissa(), scale: d.scale() }),
        None => None,
    }
}

/// Trusted: `rust_decimal::Decimal::checked_div`. Its result depends on the two
/// operands alone and is again a decimal in range.
#[verifier::external_body]
fn div_decimals(a: &Decimal, b: &Decimal) -> (r: Option<Decimal>)
    requires
        a.wf(),
        b.wf(),
    ensures
        r == quotient(*a, *b),
        r matches Some(d) ==> d.wf(),
{
    let x = rust_decimal::Decimal::from_i128_with_scale(a.mantissa, a.scale);
    let y = rust_decimal::Decimal::from_i128_with_scale(b.mantissa, b.scale);
    match x.checked_div(y) {
        Some(d) => Some(Decimal { mantissa: d.mantissa(), scale: d.scale() }),
        None => None,
    }
}

} // verus!
