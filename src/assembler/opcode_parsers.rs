//! Opcodes: a word of letters, looked up as a mnemonic.
use vstd::prelude::*;
use vstd::string::{is_ascii, StringSliceAdditionalSpecFns};

use crate::assembler::{
    ascii_bytes, lemma_span_bounds, parsed_as, rest_after, span, span_end, text_parsed_as, CharClass,
    ParseError, Token,
};
use crate::instruction::{opcode_of_mnemonic, OpCode};

verus! {

/// One or more letters: the opcode they name, `IGL` for an unknown word.
pub open spec fn opcode_spec(s: Seq<u8>, i: int) -> Option<(int, Token)> {
    let e = span(s, i, CharClass::Alpha);
    if e > i {
        Some((e, Token::Op { code: opcode_of_mnemonic(s.subrange(i, e)) }))
    } else {
        None
    }
}

/// Parses an opcode at `i`.
pub fn opcode_at(s: &[u8], i: usize) -> (r: Option<(usize, Token)>)
    requires
        i <= s@.len(),
    ensures
        parsed_as(r, opcode_spec(s@, i as int)),
        r is Some ==> i < r->Some_0.0 <= s@.len(),
{
    let e = span_end(s, i, CharClass::Alpha);
    proof {
        lemma_span_bounds(s@, i as int, CharClass::Alpha);
    }
    if e == i {
        return None;
    }
    Some((e, Token::Op { code: OpCode::from_mnemonic_bytes(s, i, e) }))
}

/// An opcode at the start of `input`, and the text after it.
pub fn opcode(input: &str) -> (r: Result<(&str, Token), ParseError>)
    ensures
        text_parsed_as(input, r, opcode_spec(input.spec_bytes(), 0)),
{
    if !input.is_ascii() {
        return Err(ParseError::NotAscii);
    }
    let s = ascii_bytes(input);
    match opcode_at(s, 0) {
        Some((e, t)) => Ok((rest_after(input, e), t)),
        None => Err(ParseError::Unexpected),
    }
}

} // verus!
