//! Operands: integers, `#` and a decimal value, or registers.
use vstd::prelude::*;
use vstd::string::{is_ascii, StringSliceAdditionalSpecFns};

use crate::assembler::{
    ascii_bytes, parsed_as, rest_after, text_parsed_as, ParseError, Token,
};
use crate::assembler::register_parsers::{register_at, register_spec, sigil_number, sigil_number_at};

verus! {

/// `#` and a decimal value that fits a signed 32-bit integer.
pub open spec fn int_operand_spec(s: Seq<u8>, i: int) -> Option<(int, Token)> {
    match sigil_number(s, i, '#' as u8, 2147483647) {
        Some((e, n)) => Some((e, Token::IntegerOperand { value: n as i32 })),
        None => None,
    }
}

/// An integer operand, or else a register operand.
pub open spec fn operand_spec(s: Seq<u8>, i: int) -> Option<(int, Token)> {
    match int_operand_spec(s, i) {
        Some(r) => Some(r),
        None => register_spec(s, i),
    }
}

/// Parses an integer operand at `i`.
pub fn int_operand_at(s: &[u8], i: usize) -> (r: Option<(usize, Token)>)
    requires
        i <= s@.len(),
    ensures
        parsed_as(r, int_operand_spec(s@, i as int)),
        r is Some ==> i < r->Some_0.0 <= s@.len(),
{
    match sigil_number_at(s, i, '#' as u8, 2147483647) {
        Some((e, v)) => Some((e, Token::IntegerOperand { value: v as i32 })),
        None => None,
    }
}

/// Parses an operand at `i`.
pub fn operand_at(s: &[u8], i: usize) -> (r: Option<(usize, Token)>)
    requires
        i <= s@.len(),
    ensures
        parsed_as(r, operand_spec(s@, i as int)),
        r is Some ==> i < r->Some_0.0 <= s@.len(),
{
    match int_operand_at(s, i) {
        Some(r) => Some(r),
        None => register_at(s, i),
    }
}

/// An integer operand at the start of `input`, and the text after it.
pub fn int_operand(input: &str) -> (r: Result<(&str, Token), ParseError>)
    ensures
        text_parsed_as(input, r, int_operand_spec(input.spec_bytes(), 0)),
{
    if !input.is_ascii() {
        return Err(ParseError::NotAscii);
    }
    let s = ascii_bytes(input);
    match int_operand_at(s, 0) {
        Some((e, t)) => Ok((rest_after(input, e), t)),
        None => Err(ParseError::Unexpected),
    }
}

/// An operand at the start of `input`, and the text after it.
pub fn operand(input: &str) -> (r: Result<(&str, Token), ParseError>)
    ensures
        text_parsed_as(input, r, operand_spec(input.spec_bytes(), 0)),
{
    if !input.is_ascii() {
        return Err(ParseError::NotAscii);
    }
    let s = ascii_bytes(input);
    match operand_at(s, 0) {
        Some((e, t)) => Ok((rest_after(input, e), t)),
        None => Err(ParseError::Unexpected),
    }
}

} // verus!
