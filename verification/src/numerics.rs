//! Double-precision arithmetic for `Number` values, held as IEEE-754 bit
//! patterns and computed by the software float library, plus the few other
//! outside calls the interpreter needs.
use vstd::prelude::*;

use rand::RngExt;
use rustc_apfloat::Float;
use rustc_apfloat::ieee::Double;

verus! {

/// The bit pattern of the IEEE-754 double sum of two doubles given as bit
/// patterns, rounding to nearest, ties to even.
pub uninterp spec fn add_bits(a: u64, b: u64) -> u64;

/// The bit pattern of the IEEE-754 double difference.
pub uninterp spec fn sub_bits(a: u64, b: u64) -> u64;

/// The bit pattern of the IEEE-754 double product.
pub uninterp spec fn mul_bits(a: u64, b: u64) -> u64;

/// The bit pattern of the IEEE-754 double quotient; a zero divisor gives
/// an infinity or a NaN, never an error.
pub uninterp spec fn div_bits(a: u64, b: u64) -> u64;

/// The bit pattern of the IEEE-754 double remainder with the sign of the
/// dividend, as the `%` operator of the host language computes it.
pub uninterp spec fn rem_bits(a: u64, b: u64) -> u64;

/// The IEEE-754 comparison of two doubles given as bit patterns:
/// `Some(-1)`, `Some(0)`, `Some(1)` for less, equal, greater, and `None`
/// when a NaN makes them unordered.
pub uninterp spec fn cmp_bits(a: u64, b: u64) -> Option<i8>;

/// What the float library's decimal parser returns for a piece of text:
/// the bit pattern of the parsed double, or nothing when the text is not
/// numeric.
pub uninterp spec fn parse_bits(s: Seq<char>) -> Option<u64>;

/// The bit pattern of the double nearest to an unsigned integer.
pub uninterp spec fn bits_of_int(n: u64) -> u64;

/// A double truncated toward zero and saturated into the unsigned 64-bit
/// range, as an `as` cast of the host language does it: NaN gives zero,
/// negative values give zero, values beyond the range give the maximum.
pub uninterp spec fn trunc_bits(b: u64) -> u64;

/// The decimal rendering of a double given as a bit pattern.
pub uninterp spec fn decimal_of(b: u64) -> Seq<char>;

/// Relies on `rustc_apfloat::ieee::Double`'s addition operator, IEEE-754
/// double addition.
#[verifier::external_body]
pub(crate) fn f64_add(a: u64, b: u64) -> (r: u64)
    ensures
        r == add_bits(a, b),
{
    (Double::from_bits(a as u128) + Double::from_bits(b as u128)).value.to_bits() as u64
}

/// Relies on `rustc_apfloat::ieee::Double`'s subtraction operator.
#[verifier::external_body]
pub(crate) fn f64_sub(a: u64, b: u64) -> (r: u64)
    ensures
        r == sub_bits(a, b),
{
    (Double::from_bits(a as u128) - Double::from_bits(b as u128)).value.to_bits() as u64
}

/// Relies on `rustc_apfloat::ieee::Double`'s multiplication operator.
#[verifier::external_body]
pub(crate) fn f64_mul(a: u64, b: u64) -> (r: u64)
    ensures
        r == mul_bits(a, b),
{
    (Double::from_bits(a as u128) * Double::from_bits(b as u128)).value.to_bits() as u64
}

/// Relies on `rustc_apfloat::ieee::Double`'s division operator; division
/// by zero yields an infinity or NaN value, not a panic.
#[verifier::external_body]
pub(crate) fn f64_div(a: u64, b: u64) -> (r: u64)
    ensures
        r == div_bits(a, b),
{
    (Double::from_bits(a as u128) / Double::from_bits(b as u128)).value.to_bits() as u64
}

/// Relies on `rustc_apfloat::ieee::Double`'s remainder operator, which
/// computes the C `fmod`, the same operation as the host language's `%`
/// on doubles.
#[verifier::external_body]
pub(crate) fn f64_rem(a: u64, b: u64) -> (r: u64)
    ensures
        r == rem_bits(a, b),
{
    (Double::from_bits(a as u128) % Double::from_bits(b as u128)).value.to_bits() as u64
}

/// Relies on `rustc_apfloat::ieee::Double`'s `partial_cmp`, the IEEE-754
/// ordering in which a NaN is unordered against everything.
#[verifier::external_body]
pub(crate) fn f64_cmp(a: u64, b: u64) -> (r: Option<i8>)
    ensures
        r == cmp_bits(a, b),
{
    match Double::from_bits(a as u128).partial_cmp(&Double::from_bits(b as u128)) {
        Some(core::cmp::Ordering::Less) => Some(-1),
        Some(core::cmp::Ordering::Equal) => Some(0),
        Some(core::cmp::Ordering::Greater) => Some(1),
        None => None,
    }
}

/// Relies on `rustc_apfloat::ieee::Double::from_str`: parses decimal text
/// into a double, or reports that the text is not numeric; it never
/// panics, an empty string included.
#[verifier::external_body]
pub(crate) fn f64_parse(s: &String) -> (r: Option<u64>)
    ensures
        r == parse_bits(s.view()),
{
    match s.as_str().parse::<Double>() {
        Ok(v) => Some(v.to_bits() as u64),
        Err(_) => None,
    }
}

/// Relies on `rustc_apfloat::ieee::Double::from_u128`: the double nearest
/// to an unsigned integer, ties to even.
#[verifier::external_body]
pub(crate) fn f64_from_u64(n: u64) -> (r: u64)
    ensures
        r == bits_of_int(n),
{
    Double::from_u128(n as u128).value.to_bits() as u64
}

/// Relies on `rustc_apfloat::ieee::Double::to_u128`, which truncates
/// toward zero and returns deterministic saturated values for NaN and
/// out-of-range doubles, as the host language's saturating cast does.
#[verifier::external_body]
pub(crate) fn f64_to_u64(b: u64) -> (r: u64)
    ensures
        r == trunc_bits(b),
{
    Double::from_bits(b as u128).to_u128(64).value as u64
}

/// Relies on `rustc_apfloat::ieee::Double`'s `Display`, a decimal
/// rendering that depends on the bit pattern alone.
#[verifier::external_body]
pub(crate) fn f64_display(b: u64) -> (r: String)
    ensures
        r.view() == decimal_of(b),
{
    format!("{}", Double::from_bits(b as u128))
}

/// Relies on `rand::rng` and `Rng::random_range` over `0..n`: a uniformly
/// chosen integer below the bound. Nothing more is assumed of the drawn
/// value; the range is non-empty, so the call cannot panic.
#[verifier::external_body]
pub(crate) fn random_below(n: u64) -> (r: u64)
    requires
        n > 0,
    ensures
        r < n,
{
    rand::rng().random_range(0..n)
}

} // verus!
