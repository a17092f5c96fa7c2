//! Money amounts: exact decimal numbers that can be added up, multiplied by a
//! count and told apart by size.

use crate::decimal::{
    checked_add_parts, checked_mul_parts, decimal_product, decimal_sum, less_parts, value_of,
    DecimalValue, MANTISSA_LIMIT, MAX_SCALE,
};
use vstd::prelude::*;
use vstd::std_specs::cmp::PartialEqSpecImpl;

verus! {

/// An amount of money, `mantissa / 10^scale`, with the mantissa below 2^96 in
/// magnitude and the scale at most 28.
///
/// Two amounts are equal (`==`) when they stand for the same number: 6 and
/// 6.00 are equal, though their scales differ.
#[derive(Clone, Copy, Debug)]
pub struct Amount {
    mantissa: i128,
    scale: u32,
}

impl View for Amount {
    type V = DecimalValue;

    closed spec fn view(&self) -> DecimalValue {
        value_of(self.mantissa, self.scale)
    }
}

impl Amount {
    #[verifier::type_invariant]
    spec fn well_formed(self) -> bool {
        self@.in_range()
    }

    /// The amount `mantissa / 10^scale`, or `None` if the mantissa reaches
    /// 2^96 in magnitude or the scale exceeds 28.
    pub fn new(mantissa: i128, scale: u32) -> (r: Option<Amount>)
        ensures
            r is Some <==> value_of(mantissa, scale).in_range(),
            r matches Some(a) ==> a@ == value_of(mantissa, scale),
    {
        if -MANTISSA_LIMIT < mantissa && mantissa < MANTISSA_LIMIT && scale <= MAX_SCALE {
            Some(Amount { mantissa, scale })
        } else {
            None
        }
    }

    /// Zero, at scale 0.
    pub fn zero() -> (r: Amount)
        ensures
            r@ == DecimalValue::zero(),
    {
        Amount { mantissa: 0, scale: 0 }
    }

    /// The mantissa. Every amount is in range, which this function also
    /// makes known to its caller.
    pub fn mantissa(&self) -> (m: i128)
        ensures
            m == self@.mantissa,
            self@.in_range(),
    {
        proof {
            use_type_invariant(self);
        }
        self.mantissa
    }

    /// The scale: the number of digits after the decimal point.
    pub fn scale(&self) -> (s: u32)
        ensures
            s == self@.scale,
    {
        self.scale
    }

    /// `self + other`, or `None` where the sum overflows.
    pub fn checked_add(&self, other: &Amount) -> (r: Option<Amount>)
        ensures
            match r {
                Some(sum) => decimal_sum(self@, other@) == Some(sum@),
                None => decimal_sum(self@, other@) is None,
            },
    {
        proof {
            use_type_invariant(self);
            use_type_invariant(other);
        }
        match checked_add_parts(self.mantissa, self.scale, other.mantissa, other.scale) {
            Some((mantissa, scale)) => Some(Amount { mantissa, scale }),
            None => None,
        }
    }

    /// `self * n`, or `None` where the product overflows.
    pub fn checked_times(&self, n: u64) -> (r: Option<Amount>)
        ensures
            match r {
                Some(product) => decimal_product(self@, n as nat) == Some(product@),
                None => decimal_product(self@, n as nat) is None,
            },
    {
        proof {
            use_type_invariant(self);
        }
        match checked_mul_parts(self.mantissa, self.scale, n) {
            Some((mantissa, scale)) => Some(Amount { mantissa, scale }),
            None => None,
        }
    }

    /// Whether `self` stands for a smaller number than `other`.
    pub fn is_less_than(&self, other: &Amount) -> (r: bool)
        ensures
            r == (self@.units() < other@.units()),
    {
        proof {
            use_type_invariant(self);
            use_type_invariant(other);
        }
        less_parts(self.mantissa, self.scale, other.mantissa, other.scale)
    }
}

impl PartialEq for Amount {
    fn eq(&self, other: &Amount) -> (r: bool) {
        !self.is_less_than(other) && !other.is_less_than(self)
    }
}

impl PartialEqSpecImpl for Amount {
    open spec fn obeys_eq_spec() -> bool {
        true
    }

    open spec fn eq_spec(&self, other: &Amount) -> bool {
        self@.units() == other@.units()
    }
}

} // verus!
