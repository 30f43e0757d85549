//! Fixed-point decimals, timestamps and their decimal text.
//!
//! Decimal arithmetic is carried out by `cosmwasm_std::Decimal`; the wrappers
//! below state what each operation computes on the atomic units.

use vstd::prelude::*;

verus! {

/// Atomic units in one whole decimal: decimals carry 18 fractional digits.
pub const DECIMAL_FRACTIONAL: u128 = 1_000_000_000_000_000_000u128;

/// Nanoseconds in one second.
pub const NANOS_PER_SECOND: u64 = 1_000_000_000u64;

/// A non-negative fixed-point number with 18 fractional digits, held as its
/// count of atomic units (`atomics / 10^18` is its value).
#[derive(Debug, PartialEq, Eq, Structural, Clone, Copy)]
pub struct Decimal {
    pub atomics: u128,
}

/// A point in time, in nanoseconds since the epoch.
#[derive(Debug, PartialEq, Eq, Structural, Clone, Copy)]
pub struct Timestamp {
    pub nanos: u64,
}

// ---------------------------------------------------------------------------
// What the decimal operations compute
// ---------------------------------------------------------------------------

/// The decimal whose value is the integer `x`, if its atomics fit in 128 bits.
pub open spec fn spec_decimal_from_integer(x: int) -> Option<Decimal> {
    let a = x * DECIMAL_FRACTIONAL;
    if 0 <= a <= u128::MAX {
        Some(Decimal { atomics: a as u128 })
    } else {
        None
    }
}

/// The product of two decimals, rounded down to an atomic unit; `None` when it
/// does not fit.
pub open spec fn spec_decimal_mul(a: Decimal, b: Decimal) -> Option<Decimal> {
    let r = (a.atomics as int) * (b.atomics as int) / (DECIMAL_FRACTIONAL as int);
    if r <= u128::MAX {
        Some(Decimal { atomics: r as u128 })
    } else {
        None
    }
}

/// The quotient of two decimals, rounded down to an atomic unit; `None` when
/// the divisor is zero or the quotient does not fit.
pub open spec fn spec_decimal_div(a: Decimal, b: Decimal) -> Option<Decimal> {
    if b.atomics == 0 {
        None
    } else {
        let r = (a.atomics as int) * (DECIMAL_FRACTIONAL as int) / (b.atomics as int);
        if r <= u128::MAX {
            Some(Decimal { atomics: r as u128 })
        } else {
            None
        }
    }
}

/// The sum of two decimals; `None` when it does not fit.
pub open spec fn spec_decimal_add(a: Decimal, b: Decimal) -> Option<Decimal> {
    let r = a.atomics + b.atomics;
    if r <= u128::MAX {
        Some(Decimal { atomics: r as u128 })
    } else {
        None
    }
}

/// The whole part of a decimal: its atomics divided by 10^18, rounded down.
pub open spec fn spec_decimal_floor(d: Decimal) -> u128 {
    d.atomics / DECIMAL_FRACTIONAL
}

// ---------------------------------------------------------------------------
// Decimal text
// ---------------------------------------------------------------------------

/// The character of a decimal digit.
pub open spec fn digit_char(d: int) -> char {
    (d + 48) as char
}

/// The decimal digits of `n`, most significant first, without leading zeros.
pub open spec fn decimal_digits(n: nat) -> Seq<char>
    decreases n,
{
    if n < 10 {
        seq![digit_char(n as int)]
    } else {
        decimal_digits(n / 10).push(digit_char((n % 10) as int))
    }
}

/// `s` padded on the left with zeros to at least `width` characters.
pub open spec fn zero_padded(s: Seq<char>, width: nat) -> Seq<char> {
    if s.len() >= width {
        s
    } else {
        Seq::new((width - s.len()) as nat, |i: int| '0') + s
    }
}

/// `s` without its trailing zeros.
pub open spec fn trim_trailing_zeros(s: Seq<char>) -> Seq<char>
    decreases s.len(),
{
    if s.len() > 0 && s.last() == '0' {
        trim_trailing_zeros(s.drop_last())
    } else {
        s
    }
}

/// The text of a decimal: its whole part, then, when the fractional part is
/// not zero, a dot and the 18 fractional digits without trailing zeros.
pub open spec fn decimal_text(d: Decimal) -> Seq<char> {
    let whole = (d.atomics / DECIMAL_FRACTIONAL) as nat;
    let frac = (d.atomics % DECIMAL_FRACTIONAL) as nat;
    if frac == 0 {
        decimal_digits(whole)
    } else {
        decimal_digits(whole) + seq!['.'] + trim_trailing_zeros(zero_padded(decimal_digits(frac), 18))
    }
}

/// The text of a timestamp: whole seconds, a dot, and the nanoseconds past the
/// second as nine digits.
pub open spec fn timestamp_text(t: Timestamp) -> Seq<char> {
    decimal_digits((t.nanos / NANOS_PER_SECOND) as nat) + seq!['.'] + zero_padded(
        decimal_digits((t.nanos % NANOS_PER_SECOND) as nat),
        9,
    )
}

// ---------------------------------------------------------------------------
// Calls into cosmwasm_std
// ---------------------------------------------------------------------------

/// `cosmwasm_std::Decimal::from_atomics(x, 0)`: the decimal of the integer `x`;
/// the crate reports an error exactly when `x * 10^18` exceeds 128 bits.
#[verifier::external_body]
pub(crate) fn decimal_from_integer(x: u128) -> (r: Option<Decimal>)
    ensures
        r == spec_decimal_from_integer(x as int),
{
    match cosmwasm_std::Decimal::from_atomics(x, 0) {
        Ok(d) => Some(Decimal { atomics: d.atomics().u128() }),
        Err(_) => None,
    }
}

/// `cosmwasm_std::Decimal::checked_mul`: the product of the atomics over 10^18,
/// rounded down (computed in 256 bits), or an error when it exceeds 128 bits.
#[verifier::external_body]
pub(crate) fn decimal_checked_mul(a: Decimal, b: Decimal) -> (r: Option<Decimal>)
    ensures
        r == spec_decimal_mul(a, b),
{
    match cosmwasm_std::Decimal::raw(a.atomics).checked_mul(cosmwasm_std::Decimal::raw(b.atomics)) {
        Ok(d) => Some(Decimal { atomics: d.atomics().u128() }),
        Err(_) => None,
    }
}

/// `cosmwasm_std::Decimal::checked_div`: `a * 10^18 / b` on the atomics,
/// rounded down (computed in 256 bits), or an error when `b` is zero or the
/// quotient exceeds 128 bits.
#[verifier::external_body]
pub(crate) fn decimal_checked_div(a: Decimal, b: Decimal) -> (r: Option<Decimal>)
    ensures
        r == spec_decimal_div(a, b),
{
    match cosmwasm_std::Decimal::raw(a.atomics).checked_div(cosmwasm_std::Decimal::raw(b.atomics)) {
        Ok(d) => Some(Decimal { atomics: d.atomics().u128() }),
        Err(_) => None,
    }
}

/// `cosmwasm_std::Decimal::checked_add`: the sum of the atomics, or an error
/// when it exceeds 128 bits.
#[verifier::external_body]
pub(crate) fn decimal_checked_add(a: Decimal, b: Decimal) -> (r: Option<Decimal>)
    ensures
        r == spec_decimal_add(a, b),
{
    match cosmwasm_std::Decimal::raw(a.atomics).checked_add(cosmwasm_std::Decimal::raw(b.atomics)) {
        Ok(d) => Some(Decimal { atomics: d.atomics().u128() }),
        Err(_) => None,
    }
}

/// `Display` of `cosmwasm_std::Decimal`: the whole part in decimal digits and,
/// when the fractional part is not zero, a dot and the fractional part padded
/// to 18 digits with its trailing zeros removed.
#[verifier::external_body]
pub(crate) fn decimal_to_string(d: Decimal) -> (s: String)
    ensures
        s@ == decimal_text(d),
{
    cosmwasm_std::Decimal::raw(d.atomics).to_string()
}

/// `String::from(cosmwasm_std::Uint128)`: the decimal digits of the amount.
#[verifier::external_body]
pub(crate) fn uint128_to_string(x: u128) -> (s: String)
    ensures
        s@ == decimal_digits(x as nat),
{
    String::from(cosmwasm_std::Uint128::new(x))
}

// ---------------------------------------------------------------------------
// Decimal and timestamp helpers
// ---------------------------------------------------------------------------

impl Decimal {
    /// The decimal zero.
    pub fn zero() -> (d: Decimal)
        ensures
            d.atomics == 0,
    {
        Decimal { atomics: 0 }
    }

    /// Whether the decimal is zero.
    pub fn is_zero(&self) -> (b: bool)
        ensures
            b == (self.atomics == 0),
    {
        self.atomics == 0
    }

    /// The smaller of two decimals.
    pub fn min(self, other: Decimal) -> (d: Decimal)
        ensures
            d.atomics == if self.atomics <= other.atomics { self.atomics } else { other.atomics },
    {
        if self.atomics <= other.atomics {
            self
        } else {
            other
        }
    }

    /// The text of the decimal (`cosmwasm_std::Decimal`'s `Display`).
    pub fn to_text(&self) -> (s: String)
        ensures
            s@ == decimal_text(*self),
    {
        decimal_to_string(*self)
    }
}

impl Timestamp {
    /// The timestamp `nanos` nanoseconds after the epoch.
    pub fn from_nanos(nanos: u64) -> (t: Timestamp)
        ensures
            t.nanos == nanos,
    {
        Timestamp { nanos }
    }

    /// Whole seconds since the epoch (the nanoseconds are truncated).
    pub fn seconds(&self) -> (s: u64)
        ensures
            s == self.nanos / NANOS_PER_SECOND,
    {
        self.nanos / NANOS_PER_SECOND
    }

    /// The timestamp `seconds` whole seconds after the epoch; `None` when the
    /// nanoseconds overflow 64 bits.
    pub fn checked_from_seconds(seconds: u64) -> (t: Option<Timestamp>)
        ensures
            t == (if seconds * NANOS_PER_SECOND <= u64::MAX {
                Some(Timestamp { nanos: (seconds * NANOS_PER_SECOND) as u64 })
            } else {
                None::<Timestamp>
            }),
    {
        match seconds.checked_mul(NANOS_PER_SECOND) {
            Some(n) => Some(Timestamp { nanos: n }),
            None => None,
        }
    }

    /// The timestamp `addition` seconds later; `None` when the arithmetic
    /// overflows 64 bits.
    pub fn checked_plus_seconds(&self, addition: u64) -> (t: Option<Timestamp>)
        ensures
            t == (if addition * NANOS_PER_SECOND + self.nanos <= u64::MAX {
                Some(Timestamp { nanos: (self.nanos + addition * NANOS_PER_SECOND) as u64 })
            } else {
                None::<Timestamp>
            }),
    {
        match addition.checked_mul(NANOS_PER_SECOND) {
            Some(n) => match self.nanos.checked_add(n) {
                Some(sum) => Some(Timestamp { nanos: sum }),
                None => None,
            },
            None => None,
        }
    }

    /// The text of the timestamp (`cosmwasm_std::Timestamp`'s `Display`).
    pub fn to_text(&self) -> (s: String)
        ensures
            s@ == timestamp_text(*self),
    {
        let secs = uint128_to_string((self.nanos / NANOS_PER_SECOND) as u128);
        let frac = uint128_to_string((self.nanos % NANOS_PER_SECOND) as u128);
        let mut s = secs;
        s.append(".");
        let ghost frac_digits = frac@;
        proof {
            reveal_strlit(".");
        }
        let mut pad: usize = frac.unicode_len();
        // pad the nanoseconds to nine digits
        while pad < 9
            invariant
                s@ == decimal_digits((self.nanos / NANOS_PER_SECOND) as nat) + seq!['.'] + Seq::new(
                    (if frac@.len() >= 9 { 0 } else { pad - frac@.len() }) as nat,
                    |i: int| '0',
                ),
                frac@.len() <= pad <= 9 || (pad == frac@.len() && pad >= 9),
            decreases 9 - pad,
        {
            s.append("0");
            proof {
                reveal_strlit("0");
            }
            pad = pad + 1;
        }
        s.append(frac.as_str());
        s
    }
}

} // verus!
