//! Fixed-point monetary values, counted in an integral number of base
//! units (the smallest indivisible unit of the backing currency).

use vstd::prelude::*;

verus! {

/// A non-negative fixed-point monetary value, as a count of base units.
#[derive(Clone, Copy, PartialEq, Eq, Structural, Debug)]
pub struct Amount {
    pub units: u64,
}

impl Amount {
    /// The zero amount.
    pub fn zero() -> (r: Amount)
        ensures
            r.units == 0,
    {
        Amount { units: 0 }
    }

    /// Builds an amount from a count of base units.
    pub fn from_units(units: u64) -> (r: Amount)
        ensures
            r.units == units,
    {
        Amount { units }
    }

    /// The value as a count of base units.
    pub fn as_units(&self) -> (r: u64)
        ensures
            r == self.units,
    {
        self.units
    }

    /// Exact addition; `None` when the sum does not fit.
    pub fn checked_add(&self, other: Amount) -> (r: Option<Amount>)
        ensures
            self.units + other.units <= u64::MAX ==> r == Some(Amount {
                units: (self.units + other.units) as u64,
            }),
            self.units + other.units > u64::MAX ==> r is None,
    {
        if self.units <= u64::MAX - other.units {
            Some(Amount { units: self.units + other.units })
        } else {
            None
        }
    }

    /// Exact subtraction; `None` when it would go negative.
    pub fn checked_sub(&self, other: Amount) -> (r: Option<Amount>)
        ensures
            self.units >= other.units ==> r == Some(Amount {
                units: (self.units - other.units) as u64,
            }),
            self.units < other.units ==> r is None,
    {
        if self.units >= other.units {
            Some(Amount { units: self.units - other.units })
        } else {
            None
        }
    }

    /// Even division by a recipient count, rounding down to whole base
    /// units; `None` when the count is zero.
    pub fn checked_div(&self, n: u64) -> (r: Option<Amount>)
        ensures
            n > 0 ==> r == Some(Amount { units: (self.units as int / n as int) as u64 }),
            n == 0 ==> r is None,
    {
        if n > 0 {
            Some(Amount { units: self.units / n })
        } else {
            None
        }
    }

    /// Exact multiplication by a count; `None` when it does not fit.
    pub fn checked_mul(&self, n: u64) -> (r: Option<Amount>)
        ensures
            self.units * n <= u64::MAX ==> r == Some(Amount {
                units: (self.units * n) as u64,
            }),
            self.units * n > u64::MAX ==> r is None,
    {
        if self.units == 0 || n == 0 {
            proof {
                vstd::arithmetic::mul::lemma_mul_basics(self.units as int);
            }
            Some(Amount { units: 0 })
        } else if self.units <= u64::MAX / n {
            proof {
                let q = (u64::MAX / n) as int;
                vstd::arithmetic::div_mod::lemma_fundamental_div_mod(u64::MAX as int, n as int);
                vstd::arithmetic::mul::lemma_mul_inequality(
                    self.units as int,
                    q,
                    n as int,
                );
            }
            Some(Amount { units: self.units * n })
        } else {
            proof {
                let q = (u64::MAX / n) as int;
                vstd::arithmetic::div_mod::lemma_fundamental_div_mod(u64::MAX as int, n as int);
                vstd::arithmetic::mul::lemma_mul_inequality(
                    q + 1,
                    self.units as int,
                    n as int,
                );
                vstd::arithmetic::mul::lemma_mul_is_distributive_add_other_way(
                    n as int,
                    q,
                    1,
                );
            }
            None
        }
    }

    /// Whether this is the zero amount.
    pub fn is_zero(&self) -> (r: bool)
        ensures
            r == (self.units == 0),
    {
        self.units == 0
    }
}

} // verus!
