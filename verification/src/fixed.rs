//! Fixed-point arithmetic with 18 decimal places, the scale used by
//! `cosmwasm_std::Decimal`.
//!
//! A [`Ratio`] stores a non-negative fixed-point number as its atomic units:
//! the represented value is `atomics / 10^18`. Addition, subtraction and the
//! integer conversions are implemented and verified here; the two operations
//! that need a 256-bit intermediate (multiplication and division) are
//! delegated to `cosmwasm_std::Decimal` behind trusted wrappers with exact
//! contracts.

use vstd::prelude::*;

verus! {

/// Number of atomic units in 1.0 of the fixed-point scale: 10^18.
pub const FRAC: u128 = 1_000_000_000_000_000_000u128;

/// A non-negative fixed-point number with 18 decimal places; the value is
/// `atomics / 10^18`.
#[derive(Clone, Copy, PartialEq, Eq, Structural, Debug)]
pub struct Ratio {
    pub atomics: u128,
}

/// Floor of the product of two fixed-point numbers given in atomic units,
/// itself in atomic units: floor(a * b / 10^18).
pub open spec fn mul_atomics(a: u128, b: u128) -> int {
    (a * b) / (FRAC as int)
}

/// Floor of the quotient of two fixed-point numbers given in atomic units,
/// itself in atomic units: floor(a * 10^18 / b). Meaningful only for b != 0.
pub open spec fn div_atomics(a: u128, b: u128) -> int {
    (a * FRAC) / (b as int)
}

/// Relies on `cosmwasm_std::Decimal::checked_mul`: for decimals given by
/// their atomic units it returns floor(a * b / 10^18) computed with a 256-bit
/// intermediate, or an overflow error exactly when that quotient exceeds
/// `u128::MAX`.
#[verifier::external_body]
fn dec_checked_mul(a: u128, b: u128) -> (r: Option<u128>)
    ensures
        mul_atomics(a, b) <= u128::MAX ==> r == Some(mul_atomics(a, b) as u128),
        mul_atomics(a, b) > u128::MAX ==> r is None,
{
    cosmwasm_std::Decimal::raw(a)
        .checked_mul(cosmwasm_std::Decimal::raw(b))
        .ok()
        .map(|d| d.atomics().u128())
}

/// Relies on `cosmwasm_std::Decimal::checked_div`: for decimals given by
/// their atomic units it returns floor(a * 10^18 / b) computed with a 256-bit
/// intermediate, a divide-by-zero error when b == 0, and an overflow error
/// exactly when the quotient exceeds `u128::MAX`.
#[verifier::external_body]
fn dec_checked_div(a: u128, b: u128) -> (r: Option<u128>)
    ensures
        b == 0 ==> r is None,
        b != 0 && div_atomics(a, b) <= u128::MAX ==> r == Some(div_atomics(a, b) as u128),
        b != 0 && div_atomics(a, b) > u128::MAX ==> r is None,
{
    cosmwasm_std::Decimal::raw(a)
        .checked_div(cosmwasm_std::Decimal::raw(b))
        .ok()
        .map(|d| d.atomics().u128())
}

impl Ratio {
    /// The fixed-point number 0.
    pub fn zero() -> (r: Ratio)
        ensures
            r.atomics == 0,
    {
        Ratio { atomics: 0 }
    }

    /// The fixed-point number 1.
    pub fn one() -> (r: Ratio)
        ensures
            r.atomics == FRAC,
    {
        Ratio { atomics: FRAC }
    }

    /// The whole number `x` as a fixed-point number, if `x * 10^18` fits.
    pub fn from_uint(x: u128) -> (r: Option<Ratio>)
        ensures
            x * FRAC <= u128::MAX ==> r == Some(Ratio { atomics: (x * FRAC) as u128 }),
            x * FRAC > u128::MAX ==> r is None,
    {
        if x <= u128::MAX / FRAC {
            proof {
                assert(x * FRAC <= (u128::MAX / FRAC) * FRAC <= u128::MAX) by (nonlinear_arith)
                    requires
                        x <= u128::MAX / FRAC,
                        FRAC > 0,
                ;
            }
            Some(Ratio { atomics: x * FRAC })
        } else {
            proof {
                assert(x * FRAC > u128::MAX) by (nonlinear_arith)
                    requires
                        x > u128::MAX / FRAC,
                        FRAC > 0,
                ;
            }
            None
        }
    }

    /// The integer part of the fixed-point number (truncation toward zero).
    pub fn to_uint_floor(self) -> (r: u128)
        ensures
            r == self.atomics / FRAC,
    {
        self.atomics / FRAC
    }

    /// Checked fixed-point addition.
    pub fn checked_add(self, other: Ratio) -> (r: Option<Ratio>)
        ensures
            self.atomics + other.atomics <= u128::MAX ==> r == Some(
                Ratio { atomics: (self.atomics + other.atomics) as u128 },
            ),
            self.atomics + other.atomics > u128::MAX ==> r is None,
    {
        if self.atomics <= u128::MAX - other.atomics {
            Some(Ratio { atomics: self.atomics + other.atomics })
        } else {
            None
        }
    }

    /// Checked fixed-point subtraction.
    pub fn checked_sub(self, other: Ratio) -> (r: Option<Ratio>)
        ensures
            other.atomics <= self.atomics ==> r == Some(
                Ratio { atomics: (self.atomics - other.atomics) as u128 },
            ),
            other.atomics > self.atomics ==> r is None,
    {
        if other.atomics <= self.atomics {
            Some(Ratio { atomics: self.atomics - other.atomics })
        } else {
            None
        }
    }

    /// Checked fixed-point multiplication: floor(self * other) at the
    /// fixed-point scale, `None` on overflow.
    pub fn checked_mul(self, other: Ratio) -> (r: Option<Ratio>)
        ensures
            mul_atomics(self.atomics, other.atomics) <= u128::MAX ==> r == Some(
                Ratio { atomics: mul_atomics(self.atomics, other.atomics) as u128 },
            ),
            mul_atomics(self.atomics, other.atomics) > u128::MAX ==> r is None,
    {
        match dec_checked_mul(self.atomics, other.atomics) {
            Some(x) => Some(Ratio { atomics: x }),
            None => None,
        }
    }

    /// Checked fixed-point division: floor(self / other) at the fixed-point
    /// scale, `None` on division by zero or overflow.
    pub fn checked_div(self, other: Ratio) -> (r: Option<Ratio>)
        ensures
            other.atomics == 0 ==> r is None,
            other.atomics != 0 && div_atomics(self.atomics, other.atomics) <= u128::MAX ==> r
                == Some(Ratio { atomics: div_atomics(self.atomics, other.atomics) as u128 }),
            other.atomics != 0 && div_atomics(self.atomics, other.atomics) > u128::MAX ==> r
                is None,
    {
        match dec_checked_div(self.atomics, other.atomics) {
            Some(x) => Some(Ratio { atomics: x }),
            None => None,
        }
    }
}

} // verus!
