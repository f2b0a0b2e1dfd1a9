use vstd::prelude::*;

use rustc_apfloat::Float;
use rustc_apfloat::ieee::Double;

verus! {

/// The bit pattern of an IEEE 754 binary64 value.
///
/// Verified code never computes with the encoded number itself: it carries
/// the 64 raw bits and reads only what the IEEE 754 encoding fixes by
/// definition — whether the pattern encodes a zero or an infinity, and the
/// sign bit, whose reversal is the encoding's negation. Arithmetic on the
/// encoded values is done by outside code behind the trusted items below.
#[derive(Debug, Clone, Copy, PartialEq, Eq, Structural)]
pub struct Num {
    pub bits: u64,
}

/// The sign bit of a binary64 pattern.
pub const SIGN_MASK: u64 = 0x8000_0000_0000_0000;

/// The pattern of positive infinity.
pub const POS_INFINITY_BITS: u64 = 0x7ff0_0000_0000_0000;

/// The pattern of negative infinity.
pub const NEG_INFINITY_BITS: u64 = 0xfff0_0000_0000_0000;

impl Num {
    /// The two zero patterns, positive and negative zero, are exactly the
    /// encoded values that compare equal to zero.
    pub open spec fn spec_is_zero(self) -> bool {
        self.bits == 0 || self.bits == SIGN_MASK
    }

    pub fn is_zero(self) -> (r: bool)
        ensures
            r == self.spec_is_zero(),
    {
        self.bits == 0 || self.bits == SIGN_MASK
    }

    /// Negation of a binary64 value reverses the sign bit and changes
    /// nothing else.
    pub open spec fn spec_negated(self) -> Num {
        Num { bits: self.bits ^ SIGN_MASK }
    }

    pub fn negated(self) -> (r: Num)
        ensures
            r == self.spec_negated(),
    {
        Num { bits: self.bits ^ SIGN_MASK }
    }
}

/// The bit pattern of the sum of the values encoded by `a` and `b`.
pub uninterp spec fn add_bits(a: u64, b: u64) -> u64;

/// The bit pattern of the difference of the values encoded by `a` and `b`.
pub uninterp spec fn sub_bits(a: u64, b: u64) -> u64;

/// The bit pattern of the product of the values encoded by `a` and `b`.
pub uninterp spec fn mul_bits(a: u64, b: u64) -> u64;

/// The bit pattern of the quotient of the values encoded by `a` and `b`.
pub uninterp spec fn div_bits(a: u64, b: u64) -> u64;

/// The bit pattern of the value encoded by `a` raised to the value encoded
/// by `b`.
pub uninterp spec fn pow_bits(a: u64, b: u64) -> u64;

/// The bit pattern of the binary64 value that a numeric literal denotes.
pub uninterp spec fn literal_bits(s: Seq<char>) -> u64;

/// The decimal text that a binary64 bit pattern prints as.
pub uninterp spec fn rendered_bits(b: u64) -> Seq<char>;

/// Relies on rustc_apfloat's `Double` addition (IEEE 754 binary64, rounded
/// to nearest, ties to even): the sum's bit pattern is a function of the
/// operands' bit patterns alone.
#[verifier::external_body]
pub(crate) fn num_add(a: Num, b: Num) -> (r: Num)
    ensures
        r.bits == add_bits(a.bits, b.bits),
{
    let v = (Double::from_bits(a.bits as u128) + Double::from_bits(b.bits as u128)).value;
    Num { bits: v.to_bits() as u64 }
}

/// Relies on rustc_apfloat's `Double` subtraction (IEEE 754 binary64,
/// rounded to nearest, ties to even): the difference's bit pattern is a
/// function of the operands' bit patterns alone.
#[verifier::external_body]
pub(crate) fn num_sub(a: Num, b: Num) -> (r: Num)
    ensures
        r.bits == sub_bits(a.bits, b.bits),
{
    let v = (Double::from_bits(a.bits as u128) - Double::from_bits(b.bits as u128)).value;
    Num { bits: v.to_bits() as u64 }
}

/// Relies on rustc_apfloat's `Double` multiplication (IEEE 754 binary64,
/// rounded to nearest, ties to even): the product's bit pattern is a
/// function of the operands' bit patterns alone.
#[verifier::external_body]
pub(crate) fn num_mul(a: Num, b: Num) -> (r: Num)
    ensures
        r.bits == mul_bits(a.bits, b.bits),
{
    let v = (Double::from_bits(a.bits as u128) * Double::from_bits(b.bits as u128)).value;
    Num { bits: v.to_bits() as u64 }
}

/// Relies on rustc_apfloat's `Double` division (IEEE 754 binary64, rounded
/// to nearest, ties to even; a zero divisor yields an infinity or NaN, never
/// a panic): the quotient's bit pattern is a function of the operands' bit
/// patterns alone.
#[verifier::external_body]
pub(crate) fn num_div(a: Num, b: Num) -> (r: Num)
    ensures
        r.bits == div_bits(a.bits, b.bits),
{
    let v = (Double::from_bits(a.bits as u128) / Double::from_bits(b.bits as u128)).value;
    Num { bits: v.to_bits() as u64 }
}

/// Relies on libm's `pow` (real-valued exponentiation of binary64 values,
/// reached through bytemuck's size-checked bit casts): the result's bit
/// pattern is a function of the operands' bit patterns alone.
#[verifier::external_body]
pub(crate) fn num_pow(a: Num, b: Num) -> (r: Num)
    ensures
        r.bits == pow_bits(a.bits, b.bits),
{
    Num { bits: bytemuck::cast(libm::pow(bytemuck::cast(a.bits), bytemuck::cast(b.bits))) }
}

/// A decimal digit.
pub open spec fn is_digit_char(c: char) -> bool {
    48 <= c as u32 && c as u32 <= 57
}

pub open spec fn all_digits(s: Seq<char>) -> bool {
    forall|i: int| 0 <= i < s.len() ==> is_digit_char(#[trigger] s[i])
}

/// One or more digits, optionally followed by a point and one or more
/// digits: the shape of the numeric literals the scanner produces.
pub open spec fn is_number_literal(s: Seq<char>) -> bool {
    ||| (s.len() > 0 && all_digits(s))
    ||| (exists|k: int|
        1 <= k && k < s.len() - 1 && #[trigger] s[k] == '.' && all_digits(s.take(k)) && all_digits(
            s.skip(k + 1),
        ))
}

/// Relies on rustc_apfloat's `Double` string parsing (rounded to nearest,
/// ties to even): a literal of digits, optionally a point and digits,
/// parses successfully, and the value's bit pattern is a function of the
/// text alone.
#[verifier::external_body]
pub(crate) fn parse_number_literal(s: &str) -> (r: Option<Num>)
    ensures
        r matches Some(n) ==> n.bits == literal_bits(s@),
        is_number_literal(s@) ==> r is Some,
{
    match s.parse::<Double>() {
        Ok(d) => Some(Num { bits: d.to_bits() as u64 }),
        Err(_) => None,
    }
}

/// Relies on rustc_apfloat's `Double` display: the printed text is a
/// function of the bit pattern alone.
#[verifier::external_body]
pub(crate) fn num_to_text(n: Num) -> (r: String)
    ensures
        r@ == rendered_bits(n.bits),
{
    format!("{}", Double::from_bits(n.bits as u128))
}

} // verus!
