//! The decimal numbers that prices and totals are made of, and the calls into
//! `rust_decimal` that compute with them.
//!
//! A number is held as the pair that `rust_decimal::Decimal` holds: a signed
//! mantissa below 2^96 in magnitude and a scale of at most 28, standing for
//! `mantissa / 10^scale`. The functions at the end of this file hand such
//! pairs to `rust_decimal` and take pairs back; their contracts are believed,
//! not proved.

use rust_decimal::Decimal;
use vstd::arithmetic::power::pow;
use vstd::prelude::*;

verus! {

/// The largest scale a decimal can have.
pub const MAX_SCALE: u32 = 28;

/// 2^96: every mantissa lies strictly between this bound and its negation.
pub const MANTISSA_LIMIT: i128 = 79_228_162_514_264_337_593_543_950_336;

/// The number `mantissa / 10^scale`.
pub struct DecimalValue {
    pub mantissa: int,
    pub scale: nat,
}

impl DecimalValue {
    /// The number zero, at scale 0.
    pub open spec fn zero() -> DecimalValue {
        DecimalValue { mantissa: 0, scale: 0 }
    }

    /// Whether a `Decimal` can hold this pair.
    pub open spec fn in_range(self) -> bool {
        -MANTISSA_LIMIT < self.mantissa < MANTISSA_LIMIT && self.scale <= MAX_SCALE
    }

    /// The number, counted in units of 10^-28. Every in-range decimal is a
    /// whole number of such units, and two decimals stand for the same number
    /// exactly when their units agree.
    pub open spec fn units(self) -> int {
        self.mantissa * pow(10, (MAX_SCALE - self.scale) as nat)
    }
}

/// `a + b` with both mantissas brought to the larger of the two scales.
pub open spec fn aligned_sum(a: DecimalValue, b: DecimalValue) -> DecimalValue {
    let scale = if a.scale >= b.scale { a.scale } else { b.scale };
    DecimalValue {
        mantissa: a.mantissa * pow(10, (scale - a.scale) as nat)
            + b.mantissa * pow(10, (scale - b.scale) as nat),
        scale,
    }
}

/// `a + b` without loss: a zero operand gives the other operand back as it
/// is, and otherwise the sum is formed at the larger scale.
pub open spec fn exact_sum(a: DecimalValue, b: DecimalValue) -> DecimalValue {
    if a.mantissa == 0 {
        b
    } else if b.mantissa == 0 {
        a
    } else {
        aligned_sum(a, b)
    }
}

/// `p * n` without loss: zero at scale 0 if either factor is zero, and
/// otherwise the mantissa times `n` at the scale of `p`.
pub open spec fn exact_product(p: DecimalValue, n: nat) -> DecimalValue {
    if p.mantissa == 0 || n == 0 {
        DecimalValue::zero()
    } else {
        DecimalValue { mantissa: p.mantissa * n, scale: p.scale }
    }
}

/// What `Decimal::checked_add` returns for two decimals whose exact sum is
/// out of range: a sum rounded to a smaller scale, or `None`.
pub uninterp spec fn rounded_sum(a_mantissa: int, a_scale: nat, b_mantissa: int, b_scale: nat)
    -> Option<(int, nat)>;

/// What `Decimal::checked_mul` returns for a decimal and a whole number whose
/// exact product is out of range: a product rounded to a smaller scale, or
/// `None`.
pub uninterp spec fn rounded_product(mantissa: int, scale: nat, n: nat) -> Option<(int, nat)>;

/// A pair, or none, as a decimal.
pub open spec fn as_value(parts: Option<(int, nat)>) -> Option<DecimalValue> {
    match parts {
        Some((mantissa, scale)) => Some(DecimalValue { mantissa, scale }),
        None => None,
    }
}

/// The sum of two decimals as `rust_decimal` forms it: exact where the exact
/// sum is in range, rounded or missing where it is not.
pub open spec fn decimal_sum(a: DecimalValue, b: DecimalValue) -> Option<DecimalValue> {
    if exact_sum(a, b).in_range() {
        Some(exact_sum(a, b))
    } else {
        as_value(rounded_sum(a.mantissa, a.scale, b.mantissa, b.scale))
    }
}

/// The product of a decimal and a whole number as `rust_decimal` forms it:
/// exact where the exact product is in range, rounded or missing where it is
/// not.
pub open spec fn decimal_product(p: DecimalValue, n: nat) -> Option<DecimalValue> {
    if exact_product(p, n).in_range() {
        Some(exact_product(p, n))
    } else {
        as_value(rounded_product(p.mantissa, p.scale, n))
    }
}

/// The pair of machine integers as a decimal.
pub open spec fn value_of(mantissa: i128, scale: u32) -> DecimalValue {
    DecimalValue { mantissa: mantissa as int, scale: scale as nat }
}

/// A pair of machine integers, or none, as a decimal.
pub open spec fn value_of_parts(parts: Option<(i128, u32)>) -> Option<DecimalValue> {
    match parts {
        Some((mantissa, scale)) => Some(value_of(mantissa, scale)),
        None => None,
    }
}

/// `Decimal::checked_add` on two decimals given by their parts.
///
/// Believed of it: what comes back is in range; where the exact sum is in
/// range it is that sum, at the larger of the two scales, or the other
/// operand unchanged where one operand is zero; elsewhere it is whatever
/// `checked_add` makes of the two operands, which depends on them alone.
#[verifier::external_body]
pub(crate) fn checked_add_parts(a_mantissa: i128, a_scale: u32, b_mantissa: i128, b_scale: u32) -> (r:
    Option<(i128, u32)>)
    requires
        value_of(a_mantissa, a_scale).in_range(),
        value_of(b_mantissa, b_scale).in_range(),
    ensures
        r matches Some(parts) ==> value_of(parts.0, parts.1).in_range(),
        exact_sum(value_of(a_mantissa, a_scale), value_of(b_mantissa, b_scale)).in_range()
            ==> value_of_parts(r) == Some(
            exact_sum(value_of(a_mantissa, a_scale), value_of(b_mantissa, b_scale)),
        ),
        !exact_sum(value_of(a_mantissa, a_scale), value_of(b_mantissa, b_scale)).in_range()
            ==> value_of_parts(r) == as_value(
            rounded_sum(a_mantissa as int, a_scale as nat, b_mantissa as int, b_scale as nat),
        ),
{
    let a = Decimal::from_i128_with_scale(a_mantissa, a_scale);
    let b = Decimal::from_i128_with_scale(b_mantissa, b_scale);
    match a.checked_add(b) {
        Some(d) => Some((d.mantissa(), d.scale())),
        None => None,
    }
}

/// `Decimal::checked_mul` on a decimal given by its parts and a whole number.
///
/// Believed of it: what comes back is in range; where the exact product is
/// in range it is that product, at the scale of the decimal, or zero at
/// scale 0 where a factor is zero; elsewhere it is whatever `checked_mul`
/// makes of the two factors, which depends on them alone.
#[verifier::external_body]
pub(crate) fn checked_mul_parts(mantissa: i128, scale: u32, n: u64) -> (r: Option<(i128, u32)>)
    requires
        value_of(mantissa, scale).in_range(),
    ensures
        r matches Some(parts) ==> value_of(parts.0, parts.1).in_range(),
        exact_product(value_of(mantissa, scale), n as nat).in_range() ==> value_of_parts(r)
            == Some(exact_product(value_of(mantissa, scale), n as nat)),
        !exact_product(value_of(mantissa, scale), n as nat).in_range() ==> value_of_parts(r)
            == as_value(rounded_product(mantissa as int, scale as nat, n as nat)),
{
    let p = Decimal::from_i128_with_scale(mantissa, scale);
    match p.checked_mul(Decimal::from(n)) {
        Some(d) => Some((d.mantissa(), d.scale())),
        None => None,
    }
}

/// `<` of `Decimal` on two decimals given by their parts.
///
/// Believed of it: it orders decimals by the numbers they stand for, whatever
/// their scales.
#[verifier::external_body]
pub(crate) fn less_parts(a_mantissa: i128, a_scale: u32, b_mantissa: i128, b_scale: u32) -> (r:
    bool)
    requires
        value_of(a_mantissa, a_scale).in_range(),
        value_of(b_mantissa, b_scale).in_range(),
    ensures
        r == (value_of(a_mantissa, a_scale).units() < value_of(b_mantissa, b_scale).units()),
{
    Decimal::from_i128_with_scale(a_mantissa, a_scale) < Decimal::from_i128_with_scale(
        b_mantissa,
        b_scale,
    )
}

} // verus!
