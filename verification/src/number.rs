//! Fixed-point decimals, points in time and 256-bit integers.
//!
//! Amounts are plain `u128`. The arithmetic that needs more than 128 bits on the
//! way goes through `cosmwasm_std`; the functions marked `external_body` below are
//! the only places that call it.

use vstd::prelude::*;

use crate::text::{digits, trim_zeros, zero_padded};

verus! {

/// The atomics of the decimal 1: decimals have 18 fractional digits.
pub const ONE: u128 = 1_000_000_000_000_000_000;

/// A non-negative decimal number with 18 fractional digits.
#[derive(Clone, Copy, Debug, PartialEq, Eq, PartialOrd, Ord, Structural)]
pub struct Decimal {
    pub atomics: u128,
}

/// A point in time, in nanoseconds since the epoch.
#[derive(Clone, Copy, Debug, PartialEq, Eq, PartialOrd, Ord, Structural)]
pub struct Timestamp {
    pub nanos: u64,
}

/// A 256-bit integer, `hi * 2^128 + lo`.
#[derive(Clone, Copy, Debug, PartialEq, Eq, Structural)]
pub struct Wide {
    pub hi: u128,
    pub lo: u128,
}

/// 2^128.
pub open spec fn limb() -> int {
    0x1_0000_0000_0000_0000_0000_0000_0000_0000int
}

/// 2^256.
pub open spec fn wide_end() -> int {
    limb() * limb()
}

pub open spec fn min(a: int, b: int) -> int {
    if a <= b {
        a
    } else {
        b
    }
}

/// `a - b`, or zero where `b` is larger.
pub open spec fn minus_or_zero(a: int, b: int) -> int {
    if a >= b {
        a - b
    } else {
        0
    }
}

pub fn min_u128(a: u128, b: u128) -> (r: u128)
    ensures
        r == min(a as int, b as int),
{
    if a <= b {
        a
    } else {
        b
    }
}

impl Decimal {
    pub fn zero() -> (r: Decimal)
        ensures
            r.atomics == 0,
    {
        Decimal { atomics: 0 }
    }

    pub fn one() -> (r: Decimal)
        ensures
            r.atomics == ONE,
    {
        Decimal { atomics: ONE }
    }

    /// `x` hundredths.
    pub fn percent(x: u64) -> (r: Decimal)
        ensures
            r.atomics == x * 10_000_000_000_000_000,
    {
        Decimal { atomics: x as u128 * 10_000_000_000_000_000u128 }
    }

    /// `x` thousandths.
    pub fn permille(x: u64) -> (r: Decimal)
        ensures
            r.atomics == x * 1_000_000_000_000_000,
    {
        Decimal { atomics: x as u128 * 1_000_000_000_000_000u128 }
    }

    pub fn checked_add(self, other: Decimal) -> (r: Option<Decimal>)
        ensures
            r == (if self.atomics + other.atomics <= u128::MAX {
                Some(Decimal { atomics: (self.atomics + other.atomics) as u128 })
            } else {
                None
            }),
    {
        match self.atomics.checked_add(other.atomics) {
            Some(atomics) => Some(Decimal { atomics }),
            None => None,
        }
    }

    pub fn checked_sub(self, other: Decimal) -> (r: Option<Decimal>)
        ensures
            r == (if self.atomics >= other.atomics {
                Some(Decimal { atomics: (self.atomics - other.atomics) as u128 })
            } else {
                None
            }),
    {
        match self.atomics.checked_sub(other.atomics) {
            Some(atomics) => Some(Decimal { atomics }),
            None => None,
        }
    }
}

impl Timestamp {
    pub open spec fn spec_seconds(self) -> u64 {
        self.nanos / 1_000_000_000
    }

    /// Whole seconds since the epoch.
    #[verifier::when_used_as_spec(spec_seconds)]
    pub fn seconds(self) -> (r: u64)
        ensures
            r == self.spec_seconds(),
    {
        self.nanos / 1_000_000_000
    }

    pub fn from_seconds(seconds: u64) -> (r: Timestamp)
        requires
            seconds * 1_000_000_000 <= u64::MAX,
        ensures
            r.nanos == seconds * 1_000_000_000,
    {
        Timestamp { nanos: seconds * 1_000_000_000 }
    }

    /// Whether the point in time `seconds` after this one can be represented.
    pub open spec fn can_add(self, seconds: int) -> bool {
        self.nanos + seconds * 1_000_000_000 <= u64::MAX
    }

    pub fn plus_seconds(self, seconds: u64) -> (r: Timestamp)
        requires
            self.can_add(seconds as int),
        ensures
            r.nanos == self.nanos + seconds * 1_000_000_000,
    {
        Timestamp { nanos: self.nanos + seconds * 1_000_000_000 }
    }
}

impl Wide {
    pub open spec fn val(self) -> int {
        self.hi * limb() + self.lo
    }

    pub fn from_u128(n: u128) -> (r: Wide)
        ensures
            r.val() == n,
    {
        Wide { hi: 0, lo: n }
    }

    /// `a + b`, which always fits.
    pub fn sum(a: u128, b: u128) -> (r: Wide)
        ensures
            r.val() == a + b,
    {
        match a.checked_add(b) {
            Some(lo) => Wide { hi: 0, lo },
            None => Wide { hi: 1, lo: a - (u128::MAX - b) - 1 },
        }
    }

    /// The same number in 128 bits, where it fits.
    pub fn to_u128(self) -> (r: Option<u128>)
        ensures
            r == (if self.val() <= u128::MAX {
                Some(self.val() as u128)
            } else {
                None
            }),
    {
        if self.hi == 0 {
            Some(self.lo)
        } else {
            None
        }
    }

    pub fn less(self, other: Wide) -> (r: bool)
        ensures
            r == (self.val() < other.val()),
    {
        self.hi < other.hi || (self.hi == other.hi && self.lo < other.lo)
    }

    pub fn checked_sub(self, other: Wide) -> (r: Option<Wide>)
        ensures
            self.val() < other.val() <==> r is None,
            r matches Some(d) ==> d.val() == self.val() - other.val(),
    {
        if self.less(other) {
            None
        } else if self.lo >= other.lo {
            Some(Wide { hi: self.hi - other.hi, lo: self.lo - other.lo })
        } else {
            Some(Wide { hi: self.hi - other.hi - 1, lo: u128::MAX - (other.lo - self.lo) + 1 })
        }
    }
}

/// `cosmwasm_std::Uint256::checked_mul`: the product, or nothing where it needs more
/// than 256 bits.
#[verifier::external_body]
pub(crate) fn wide_checked_mul(a: Wide, b: Wide) -> (r: Option<Wide>)
    ensures
        r is Some <==> a.val() * b.val() < wide_end(),
        r matches Some(p) ==> p.val() == a.val() * b.val(),
{
    let x = cosmwasm_std::Uint256::from_be_bytes(
        [a.hi.to_be_bytes(), a.lo.to_be_bytes()].concat().try_into().unwrap(),
    );
    let y = cosmwasm_std::Uint256::from_be_bytes(
        [b.hi.to_be_bytes(), b.lo.to_be_bytes()].concat().try_into().unwrap(),
    );
    let out = x.checked_mul(y).ok()?.to_be_bytes();
    Some(Wide {
        hi: u128::from_be_bytes(out[..16].try_into().unwrap()),
        lo: u128::from_be_bytes(out[16..].try_into().unwrap()),
    })
}

/// `cosmwasm_std::Uint256::checked_div`: the quotient rounded down, or nothing where
/// the divisor is zero.
#[verifier::external_body]
pub(crate) fn wide_checked_div(a: Wide, b: Wide) -> (r: Option<Wide>)
    ensures
        r is Some <==> b.val() != 0,
        r matches Some(q) ==> q.val() == a.val() / b.val(),
{
    let x = cosmwasm_std::Uint256::from_be_bytes(
        [a.hi.to_be_bytes(), a.lo.to_be_bytes()].concat().try_into().unwrap(),
    );
    let y = cosmwasm_std::Uint256::from_be_bytes(
        [b.hi.to_be_bytes(), b.lo.to_be_bytes()].concat().try_into().unwrap(),
    );
    let out = x.checked_div(y).ok()?.to_be_bytes();
    Some(Wide {
        hi: u128::from_be_bytes(out[..16].try_into().unwrap()),
        lo: u128::from_be_bytes(out[16..].try_into().unwrap()),
    })
}

/// `cosmwasm_std::Decimal256::from_ratio`: the atomics of `n / d`, rounded down. It
/// panics on a zero `d` and where the atomics need more than 256 bits.
#[verifier::external_body]
pub(crate) fn decimal256_from_ratio(n: Wide, d: Wide) -> (r: Wide)
    requires
        d.val() > 0,
        n.val() * ONE / d.val() < wide_end(),
    ensures
        r.val() == n.val() * ONE / d.val(),
{
    let x = cosmwasm_std::Uint256::from_be_bytes(
        [n.hi.to_be_bytes(), n.lo.to_be_bytes()].concat().try_into().unwrap(),
    );
    let y = cosmwasm_std::Uint256::from_be_bytes(
        [d.hi.to_be_bytes(), d.lo.to_be_bytes()].concat().try_into().unwrap(),
    );
    let out = cosmwasm_std::Decimal256::from_ratio(x, y).atomics().to_be_bytes();
    Wide {
        hi: u128::from_be_bytes(out[..16].try_into().unwrap()),
        lo: u128::from_be_bytes(out[16..].try_into().unwrap()),
    }
}

/// Division of `cosmwasm_std::Decimal256` values, given and returned by their atomics:
/// `a / b`, rounded down. It panics on a zero `b` and where the atomics need more than
/// 256 bits.
#[verifier::external_body]
pub(crate) fn decimal256_div(a: Wide, b: Wide) -> (r: Wide)
    requires
        b.val() > 0,
        a.val() * ONE / b.val() < wide_end(),
    ensures
        r.val() == a.val() * ONE / b.val(),
{
    let x = cosmwasm_std::Decimal256::new(cosmwasm_std::Uint256::from_be_bytes(
        [a.hi.to_be_bytes(), a.lo.to_be_bytes()].concat().try_into().unwrap(),
    ));
    let y = cosmwasm_std::Decimal256::new(cosmwasm_std::Uint256::from_be_bytes(
        [b.hi.to_be_bytes(), b.lo.to_be_bytes()].concat().try_into().unwrap(),
    ));
    let out = (x / y).atomics().to_be_bytes();
    Wide {
        hi: u128::from_be_bytes(out[..16].try_into().unwrap()),
        lo: u128::from_be_bytes(out[16..].try_into().unwrap()),
    }
}

/// `cosmwasm_std::Uint128::multiply_ratio`: `a * n / d` rounded down, with the product
/// held exactly. It panics on a zero `d` and where the result needs more than 128 bits.
#[verifier::external_body]
pub(crate) fn multiply_ratio(a: u128, n: u128, d: u128) -> (r: u128)
    requires
        d > 0,
        a * n / (d as int) <= u128::MAX,
    ensures
        r == a * n / (d as int),
{
    cosmwasm_std::Uint128::new(a).multiply_ratio(n, d).u128()
}

/// `cosmwasm_std::Uint128::checked_mul_floor` with a decimal: `a * f` rounded down, or
/// nothing where the result needs more than 128 bits.
#[verifier::external_body]
pub(crate) fn checked_mul_floor(a: u128, f: Decimal) -> (r: Option<u128>)
    ensures
        r == (if a * f.atomics / (ONE as int) <= u128::MAX {
            Some((a * f.atomics / (ONE as int)) as u128)
        } else {
            None
        }),
{
    let f = cosmwasm_std::Decimal::raw(f.atomics);
    cosmwasm_std::Uint128::new(a).checked_mul_floor(f).ok().map(|n| n.u128())
}

/// `cosmwasm_std::Decimal::from_ratio`: `n / d`, rounded down to 18 digits. It panics on
/// a zero `d` and where the decimal is out of range.
#[verifier::external_body]
pub(crate) fn decimal_from_ratio(n: u128, d: u128) -> (r: Decimal)
    requires
        ratio_defined(n as int, d as int),
    ensures
        r.atomics == ratio(n as int, d as int),
{
    Decimal { atomics: cosmwasm_std::Decimal::from_ratio(n, d).atomics().u128() }
}

/// `cosmwasm_std::Decimal::checked_mul`: the product rounded down to 18 digits, or
/// nothing where it is out of range.
#[verifier::external_body]
pub(crate) fn decimal_checked_mul(a: Decimal, b: Decimal) -> (r: Option<Decimal>)
    ensures
        r == (if a.atomics * b.atomics / (ONE as int) <= u128::MAX {
            Some(Decimal { atomics: (a.atomics * b.atomics / (ONE as int)) as u128 })
        } else {
            None
        }),
{
    let x = cosmwasm_std::Decimal::raw(a.atomics);
    let y = cosmwasm_std::Decimal::raw(b.atomics);
    x.checked_mul(y).ok().map(|p| Decimal { atomics: p.atomics().u128() })
}

/// Division of `cosmwasm_std::Decimal` values: `a / b`, rounded down to 18 digits. It
/// panics on a zero `b` and where the quotient is out of range.
#[verifier::external_body]
pub(crate) fn decimal_div(a: Decimal, b: Decimal) -> (r: Decimal)
    requires
        ratio_defined(a.atomics as int, b.atomics as int),
    ensures
        r.atomics == ratio(a.atomics as int, b.atomics as int),
{
    let x = cosmwasm_std::Decimal::raw(a.atomics);
    let y = cosmwasm_std::Decimal::raw(b.atomics);
    Decimal { atomics: (x / y).atomics().u128() }
}

/// `cosmwasm_std::Fraction::inv` of a decimal: `1 / d` rounded down to 18 digits, or
/// nothing for zero.
#[verifier::external_body]
pub(crate) fn decimal_inv(d: Decimal) -> (r: Option<Decimal>)
    ensures
        r == (if d.atomics == 0 {
            None
        } else {
            Some(Decimal { atomics: inverse(d.atomics as int) as u128 })
        }),
{
    let inv = cosmwasm_std::Fraction::inv(&cosmwasm_std::Decimal::raw(d.atomics));
    inv.map(|i| Decimal { atomics: i.atomics().u128() })
}

/// The atomics of `n / d`.
pub open spec fn ratio(n: int, d: int) -> int {
    n * ONE / d
}

/// Whether `n / d` is a decimal in range.
pub open spec fn ratio_defined(n: int, d: int) -> bool {
    d > 0 && ratio(n, d) <= u128::MAX
}

/// The atomics of the inverse of the decimal with atomics `a`.
pub open spec fn inverse(a: int) -> int {
    ONE * ONE / a
}

/// What a decimal looks like: no trailing zeros, and no dot without a fraction.
pub open spec fn decimal_text(d: Decimal) -> Seq<char> {
    let whole = d.atomics / ONE;
    let fraction = d.atomics % ONE;
    if fraction == 0 {
        digits(whole as nat)
    } else {
        digits(whole as nat) + seq!['.'] + trim_zeros(zero_padded(fraction as nat, 18))
    }
}

/// `cosmwasm_std::Decimal::to_string`.
#[verifier::external_body]
pub(crate) fn decimal_to_text(d: Decimal) -> (r: String)
    ensures
        r@ == decimal_text(d),
{
    cosmwasm_std::Decimal::raw(d.atomics).to_string()
}

/// What a point in time looks like: seconds, a dot and nine digits of nanoseconds.
pub open spec fn timestamp_text(t: Timestamp) -> Seq<char> {
    digits((t.nanos / 1_000_000_000) as nat) + seq!['.'] + zero_padded(
        (t.nanos % 1_000_000_000) as nat,
        9,
    )
}

/// `cosmwasm_std::Timestamp::to_string`.
#[verifier::external_body]
pub(crate) fn timestamp_to_text(t: Timestamp) -> (r: String)
    ensures
        r@ == timestamp_text(t),
{
    cosmwasm_std::Timestamp::from_nanos(t.nanos).to_string()
}

} // verus!
