//! IEEE-754 double precision numbers, held as their 64-bit patterns.
//!
//! The library never computes on hardware floats. A float is the `u64` of its
//! bits; ordering and zero tests are integer logic proved here, and rounding
//! arithmetic is done in software by `const_soft_float` and `rustc_apfloat`.
//! What those crates return is not stated here bit by bit: each result has a
//! name, and the contracts of the library speak of that name.

use const_soft_float::soft_f64::SoftF64;
use rustc_apfloat::ieee::Double;
use rustc_apfloat::Float;
use vstd::prelude::*;
use vstd::string::StringSliceAdditionalSpecFns;

verus! {

/// All bits but the sign.
pub const MAGNITUDE_MASK: u64 = 0x7fff_ffff_ffff_ffff;

/// The bits of positive infinity; a larger magnitude is a NaN.
pub const INFINITY_BITS: u64 = 0x7ff0_0000_0000_0000;

/// The bits of the quiet NaN that stands for "not a number".
pub const NAN_BITS: u64 = 0x7ff8_0000_0000_0000;

/// The bits of `1.0`.
pub const ONE_BITS: u64 = 0x3ff0_0000_0000_0000;

/// The sum of two doubles, rounded to nearest, as `const_soft_float` computes it.
pub uninterp spec fn ieee_add(a: u64, b: u64) -> u64;

/// The difference of two doubles, rounded to nearest.
pub uninterp spec fn ieee_sub(a: u64, b: u64) -> u64;

/// The product of two doubles, rounded to nearest.
pub uninterp spec fn ieee_mul(a: u64, b: u64) -> u64;

/// The quotient of two doubles, rounded to nearest.
pub uninterp spec fn ieee_div(a: u64, b: u64) -> u64;

/// The square root of a double, rounded to nearest.
pub uninterp spec fn ieee_sqrt(a: u64) -> u64;

/// The double nearest to an integer, ties to even.
pub uninterp spec fn ieee_from_int(i: i64) -> u64;

/// The double that a decimal numeral denotes, or `None` where the text is no numeral.
pub uninterp spec fn ieee_from_text(text: Seq<char>) -> Option<u64>;

/// The decimal text that the standard library prints for a double.
pub uninterp spec fn ieee_text(bits: u64) -> Seq<char>;

/// Calls `SoftF64::add` of `const_soft_float` on the two bit patterns. The
/// contract only names the result: the same two patterns give the same sum.
#[verifier::external_body]
pub(crate) fn float_add(a: u64, b: u64) -> (r: u64)
    ensures
        r == ieee_add(a, b),
{
    SoftF64::from_bits(a).add(SoftF64::from_bits(b)).to_bits()
}

/// Calls `SoftF64::sub` of `const_soft_float`; the contract names the result.
#[verifier::external_body]
pub(crate) fn float_sub(a: u64, b: u64) -> (r: u64)
    ensures
        r == ieee_sub(a, b),
{
    SoftF64::from_bits(a).sub(SoftF64::from_bits(b)).to_bits()
}

/// Calls `SoftF64::mul` of `const_soft_float`; the contract names the result.
#[verifier::external_body]
pub(crate) fn float_mul(a: u64, b: u64) -> (r: u64)
    ensures
        r == ieee_mul(a, b),
{
    SoftF64::from_bits(a).mul(SoftF64::from_bits(b)).to_bits()
}

/// Calls `SoftF64::div` of `const_soft_float`; the contract names the result.
/// Division by zero is no error there: it gives an infinity or a NaN.
#[verifier::external_body]
pub(crate) fn float_div(a: u64, b: u64) -> (r: u64)
    ensures
        r == ieee_div(a, b),
{
    SoftF64::from_bits(a).div(SoftF64::from_bits(b)).to_bits()
}

/// Calls `SoftF64::sqrt` of `const_soft_float`; the contract names the result.
#[verifier::external_body]
pub(crate) fn float_sqrt(a: u64) -> (r: u64)
    ensures
        r == ieee_sqrt(a),
{
    SoftF64::from_bits(a).sqrt().to_bits()
}

/// Calls `Float::from_i128` of `rustc_apfloat` at double precision, which
/// rounds to nearest, ties to even; the contract names the result.
#[verifier::external_body]
pub(crate) fn float_from_int(i: i64) -> (r: u64)
    ensures
        r == ieee_from_int(i),
{
    Double::from_i128(i as i128).value.to_bits() as u64
}

/// Whether a text is made of decimal digits, `-` and `.` alone.
pub open spec fn is_numeral_text(bytes: Seq<u8>) -> bool {
    forall|i: int|
        0 <= i < bytes.len() ==> 48 <= #[trigger] bytes[i] <= 57 || bytes[i] == 45 || bytes[i]
            == 46
}

/// Calls the `FromStr` of `rustc_apfloat`'s `Double` on `text`, which is
/// asked to read decimal numerals only. The contract says that the outcome
/// is a function of the text, and promises no success.
#[verifier::external_body]
pub(crate) fn float_from_text(text: &str) -> (r: Option<u64>)
    requires
        is_numeral_text(text.spec_bytes()),
    ensures
        r == ieee_from_text(text@),
{
    match text.parse::<Double>() {
        Ok(d) => Some(d.to_bits() as u64),
        Err(_) => None,
    }
}

/// Reads the bits as a double with `SoftF64::from_bits` and formats it with
/// the standard library's `Display`; the contract names the text.
#[verifier::external_body]
pub(crate) fn float_text(bits: u64) -> (r: String)
    ensures
        r@ == ieee_text(bits),
{
    format!("{}", SoftF64::from_bits(bits).to_f64())
}

/// How two doubles compare.
#[derive(Clone, Copy, Debug, PartialEq, Eq, Structural)]
pub enum FloatOrder {
    Less,
    Equal,
    Greater,
    /// At least one of the two is a NaN.
    Unordered,
}

/// Whether the bits are those of a NaN.
pub open spec fn is_nan(bits: u64) -> bool {
    (bits & MAGNITUDE_MASK) > INFINITY_BITS
}

/// Whether the bits are those of `+0.0` or `-0.0`.
pub open spec fn is_zero(bits: u64) -> bool {
    (bits & MAGNITUDE_MASK) == 0
}

/// The place of a double that is no NaN on the number line: its magnitude
/// bits, negated where the sign bit is set. Both zeros have place 0.
pub open spec fn place(bits: u64) -> int {
    if bits & MAGNITUDE_MASK == bits {
        (bits & MAGNITUDE_MASK) as int
    } else {
        -((bits & MAGNITUDE_MASK) as int)
    }
}

/// How `a` compares with `b`: unordered where one is a NaN, and by their
/// places on the number line otherwise.
pub open spec fn order_of(a: u64, b: u64) -> FloatOrder {
    if is_nan(a) || is_nan(b) {
        FloatOrder::Unordered
    } else if place(a) < place(b) {
        FloatOrder::Less
    } else if place(a) == place(b) {
        FloatOrder::Equal
    } else {
        FloatOrder::Greater
    }
}

/// Compares two doubles by their bit patterns.
pub fn float_order(a: u64, b: u64) -> (r: FloatOrder)
    ensures
        r == order_of(a, b),
{
    let ma: u64 = a & MAGNITUDE_MASK;
    let mb: u64 = b & MAGNITUDE_MASK;
    if ma > INFINITY_BITS || mb > INFINITY_BITS {
        return FloatOrder::Unordered;
    }
    let a_negative: bool = ma != a;
    let b_negative: bool = mb != b;
    if a_negative && b_negative {
        if ma > mb {
            FloatOrder::Less
        } else if ma == mb {
            FloatOrder::Equal
        } else {
            FloatOrder::Greater
        }
    } else if a_negative {
        if ma == 0 && mb == 0 {
            FloatOrder::Equal
        } else {
            FloatOrder::Less
        }
    } else if b_negative {
        if ma == 0 && mb == 0 {
            FloatOrder::Equal
        } else {
            FloatOrder::Greater
        }
    } else if ma < mb {
        FloatOrder::Less
    } else if ma == mb {
        FloatOrder::Equal
    } else {
        FloatOrder::Greater
    }
}

/// Whether a double is neither zero: what counts as true.
pub fn float_is_nonzero(bits: u64) -> (r: bool)
    ensures
        r == !is_zero(bits),
{
    (bits & MAGNITUDE_MASK) != 0
}

} // verus!
