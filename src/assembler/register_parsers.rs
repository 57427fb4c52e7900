//! Register operands: `$` and a decimal register index.
use vstd::prelude::*;
use vstd::string::{is_ascii, StringSliceAdditionalSpecFns};

use crate::assembler::{
    ascii_bytes, decimal, lemma_span_bounds, parse_decimal, parsed_as, rest_after, span, span_end,
    text_parsed_as, CharClass, ParseError, Token,
};

verus! {

/// A sigil, then decimal digits whose value is at most `limit`, with
/// whitespace skipped before and after: the end and the value.
pub open spec fn sigil_number(s: Seq<u8>, i: int, sigil: u8, limit: nat) -> Option<(int, nat)> {
    let a = span(s, i, CharClass::Space);
    let e = span(s, a + 1, CharClass::Digit);
    if a < s.len() && s[a] == sigil && e > a + 1 && decimal(s.subrange(a + 1, e)) <= limit {
        Some((span(s, e, CharClass::Space), decimal(s.subrange(a + 1, e))))
    } else {
        None
    }
}

/// `$` and the index of a register, at most 255.
pub open spec fn register_spec(s: Seq<u8>, i: int) -> Option<(int, Token)> {
    match sigil_number(s, i, '$' as u8, 255) {
        Some((e, n)) => Some((e, Token::Register { reg_num: n as u8 })),
        None => None,
    }
}

/// Parses a sigil and a number at `i`.
pub fn sigil_number_at(s: &[u8], i: usize, sigil: u8, limit: u32) -> (r: Option<(usize, u32)>)
    requires
        i <= s@.len(),
    ensures
        match (r, sigil_number(s@, i as int, sigil, limit as nat)) {
            (None, None) => true,
            (Some((e, v)), Some((f, w))) => e as int == f && v as nat == w,
            _ => false,
        },
        r is Some ==> i < r->Some_0.0 <= s@.len(),
{
    let a = span_end(s, i, CharClass::Space);
    proof {
        lemma_span_bounds(s@, i as int, CharClass::Space);
    }
    if a >= s.len() || s[a] != sigil {
        return None;
    }
    let e = span_end(s, a + 1, CharClass::Digit);
    proof {
        lemma_span_bounds(s@, a + 1, CharClass::Digit);
    }
    if e == a + 1 {
        return None;
    }
    match parse_decimal(s, a + 1, e, limit) {
        Some(v) => {
            let end = span_end(s, e, CharClass::Space);
            proof {
                lemma_span_bounds(s@, e as int, CharClass::Space);
            }
            Some((end, v))
        },
        None => None,
    }
}

/// Parses a register operand at `i`.
pub fn register_at(s: &[u8], i: usize) -> (r: Option<(usize, Token)>)
    requires
        i <= s@.len(),
    ensures
        parsed_as(r, register_spec(s@, i as int)),
        r is Some ==> i < r->Some_0.0 <= s@.len(),
{
    match sigil_number_at(s, i, '$' as u8, 255) {
        Some((e, v)) => Some((e, Token::Register { reg_num: v as u8 })),
        None => None,
    }
}

/// A register operand at the start of `input`, and the text after it.
pub fn register(input: &str) -> (r: Result<(&str, Token), ParseError>)
    ensures
        text_parsed_as(input, r, register_spec(input.spec_bytes(), 0)),
{
    if !input.is_ascii() {
        return Err(ParseError::NotAscii);
    }
    let s = ascii_bytes(input);
    match register_at(s, 0) {
        Some((e, t)) => Ok((rest_after(input, e), t)),
        None => Err(ParseError::Unexpected),
    }
}

} // verus!
