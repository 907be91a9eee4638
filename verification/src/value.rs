use vstd::prelude::*;

use crate::scanner::{is_digit_byte, spec_digits_end};

verus! {

/// The result of evaluating an expression: one IEEE-754 double-precision
/// scalar, carried as its raw 64-bit pattern. All arithmetic on it is done
/// by `rustc_apfloat`'s bit-exact binary64 implementation, so the bits are a
/// function of the operand bits alone.
#[derive(Debug, Clone, Copy, PartialEq, Eq, Structural)]
pub struct Value {
    pub bits: u64,
}

impl Value {
    pub fn new(bits: u64) -> (v: Value)
        ensures
            v == (Value { bits }),
    {
        Value { bits }
    }

    /// The raw IEEE-754 double-precision bit pattern of this value.
    pub fn to_bits(&self) -> (r: u64)
        ensures
            r == self.bits,
    {
        self.bits
    }
}

/// The shape of a `Number` lexeme: a run of digits, optionally followed by
/// one dot and a further non-empty run of digits.
pub open spec fn is_number_lexeme(s: Seq<u8>) -> bool {
    &&& s.len() > 0
    &&& is_digit_byte(s[0])
    &&& ((forall|i: int| 0 <= i < s.len() ==> is_digit_byte(s[i])) || (exists|j: int|
        {
            &&& 0 < j < s.len() - 1
            &&& s[j] == 46
            &&& (forall|i: int| 0 <= i < s.len() && i != j ==> is_digit_byte(s[i]))
        }))
}

/// Whatever the scanner labels `Number` has the shape `is_number_lexeme`
/// describes, so handing its lexeme to the number parser is always safe.
pub proof fn lemma_scan_number_lexeme(src: Seq<u8>, pos: int, start: int, end: int)
    requires
        0 <= pos <= src.len(),
        crate::scanner::spec_scan(src, pos) == (crate::scanner::SpecScan::Tok {
            ty: crate::token::TokenType::Number,
            start,
            end,
        }),
    ensures
        is_number_lexeme(src.subrange(start, end)),
{
    crate::scanner::lemma_skip_ws_bounds(src, pos);
    let s = crate::scanner::spec_skip_ws(src, pos);
    crate::scanner::lemma_digits_end_bounds(src, s);
    let d = crate::scanner::spec_digits_end(src, s);
    assert(spec_digits_end(src, s) == spec_digits_end(src, s + 1));
    let sub = src.subrange(start, end);
    if d + 1 < src.len() && src[d] == 46 && is_digit_byte(src[d + 1]) {
        crate::scanner::lemma_digits_end_bounds(src, d + 2);
        let j = d - start;
        assert(sub[j] == 46);
        assert(forall|i: int| 0 <= i < sub.len() && i != j ==> is_digit_byte(sub[i]));
    } else {
        assert(forall|i: int| 0 <= i < sub.len() ==> is_digit_byte(sub[i]));
    }
}

/// Name for the IEEE-754 double nearest to the decimal number a lexeme
/// spells, as its bit pattern.
pub uninterp spec fn float_of(s: Seq<u8>) -> u64;

/// Name for the IEEE-754 double-precision negation of a value, on raw bits.
pub uninterp spec fn float_neg(a: u64) -> u64;

/// Name for the IEEE-754 double-precision sum of two values, on raw bits.
pub uninterp spec fn float_add(a: u64, b: u64) -> u64;

/// Name for the IEEE-754 double-precision difference of two values, on raw
/// bits.
pub uninterp spec fn float_sub(a: u64, b: u64) -> u64;

/// Name for the IEEE-754 double-precision product of two values, on raw
/// bits.
pub uninterp spec fn float_mul(a: u64, b: u64) -> u64;

/// Name for the IEEE-754 double-precision quotient of two values, on raw
/// bits; division by zero follows the IEEE-754 rules (infinity or NaN), it
/// is not an error.
pub uninterp spec fn float_div(a: u64, b: u64) -> u64;

/// Relies on `FromStr` for `rustc_apfloat::ieee::Double`: correctly rounded
/// (nearest, ties to even) conversion of a decimal string to a binary64
/// value, a function of the digits alone; it accepts every lexeme the
/// scanner labels `Number`.
#[verifier::external_body]
pub(crate) fn parse_number_bits(lexeme: &[u8]) -> (r: u64)
    requires
        is_number_lexeme(lexeme@),
    ensures
        r == float_of(lexeme@),
{
    let s = core::str::from_utf8(lexeme).unwrap();
    let d: rustc_apfloat::ieee::Double = s.parse().unwrap();
    rustc_apfloat::Float::to_bits(d) as u64
}

/// Relies on `Neg` for `rustc_apfloat::ieee::Double`: IEEE-754 binary64
/// negation (a sign flip), a function of the operand bits alone.
#[verifier::external_body]
pub(crate) fn neg_bits(a: u64) -> (r: u64)
    ensures
        r == float_neg(a),
{
    let x: rustc_apfloat::ieee::Double = rustc_apfloat::Float::from_bits(a as u128);
    let y: rustc_apfloat::ieee::Double = -x;
    rustc_apfloat::Float::to_bits(y) as u64
}

/// Relies on `Add` for `rustc_apfloat::ieee::Double`: IEEE-754 binary64
/// addition, rounding to nearest with ties to even, a function of the
/// operand bits alone.
#[verifier::external_body]
pub(crate) fn add_bits(a: u64, b: u64) -> (r: u64)
    ensures
        r == float_add(a, b),
{
    let x: rustc_apfloat::ieee::Double = rustc_apfloat::Float::from_bits(a as u128);
    let y: rustc_apfloat::ieee::Double = rustc_apfloat::Float::from_bits(b as u128);
    rustc_apfloat::Float::to_bits((x + y).value) as u64
}

/// Relies on `Sub` for `rustc_apfloat::ieee::Double`: IEEE-754 binary64
/// subtraction, rounding to nearest with ties to even, a function of the
/// operand bits alone.
#[verifier::external_body]
pub(crate) fn sub_bits(a: u64, b: u64) -> (r: u64)
    ensures
        r == float_sub(a, b),
{
    let x: rustc_apfloat::ieee::Double = rustc_apfloat::Float::from_bits(a as u128);
    let y: rustc_apfloat::ieee::Double = rustc_apfloat::Float::from_bits(b as u128);
    rustc_apfloat::Float::to_bits((x - y).value) as u64
}

/// Relies on `Mul` for `rustc_apfloat::ieee::Double`: IEEE-754 binary64
/// multiplication, rounding to nearest with ties to even, a function of the
/// operand bits alone.
#[verifier::external_body]
pub(crate) fn mul_bits(a: u64, b: u64) -> (r: u64)
    ensures
        r == float_mul(a, b),
{
    let x: rustc_apfloat::ieee::Double = rustc_apfloat::Float::from_bits(a as u128);
    let y: rustc_apfloat::ieee::Double = rustc_apfloat::Float::from_bits(b as u128);
    rustc_apfloat::Float::to_bits((x * y).value) as u64
}

/// Relies on `Div` for `rustc_apfloat::ieee::Double`: IEEE-754 binary64
/// division, rounding to nearest with ties to even, a function of the
/// operand bits alone; a zero divisor yields infinity or NaN per the
/// IEEE-754 rules, never a panic.
#[verifier::external_body]
pub(crate) fn div_bits(a: u64, b: u64) -> (r: u64)
    ensures
        r == float_div(a, b),
{
    let x: rustc_apfloat::ieee::Double = rustc_apfloat::Float::from_bits(a as u128);
    let y: rustc_apfloat::ieee::Double = rustc_apfloat::Float::from_bits(b as u128);
    rustc_apfloat::Float::to_bits((x / y).value) as u64
}

} // verus!
