//! Directives: `.` and a name, then up to three operands.
use vstd::prelude::*;
use vstd::string::{is_ascii, StrSliceExecFns};

use crate::assembler::instruction_parsers::{
    operands_at, operands_spec, AssemblerInstruction, Head, Shape,
};
use crate::assembler::{lemma_span_bounds, span, span_end, CharClass, Token};

verus! {

/// `.`, a name of one or more letters, and up to three operands.
pub open spec fn directive_spec(s: Seq<u8>, i: int) -> Option<(int, Shape)> {
    let e = span(s, i + 1, CharClass::Alpha);
    if 0 <= i < s.len() && s[i] == '.' as u8 && e > i + 1 {
        let (f, o1, o2, o3) = operands_spec(s, e);
        Some((f, Shape { head: Head::Directive(i + 1, e), operand1: o1, operand2: o2, operand3: o3 }))
    } else {
        None
    }
}

/// Parses a directive at `i` of ASCII text whose bytes are `s`.
pub fn directive_at(input: &str, s: &[u8], i: usize) -> (r: Option<(usize, AssemblerInstruction)>)
    requires
        is_ascii(input),
        s@.len() == input@.len(),
        i <= s@.len(),
    ensures
        match (r, directive_spec(s@, i as int)) {
            (None, None) => true,
            (Some((e, ai)), Some((f, sh))) => e as int == f && {
                &&& ai.label is None
                &&& ai.opcode is None
                &&& ai.operand1 == sh.operand1
                &&& ai.operand2 == sh.operand2
                &&& ai.operand3 == sh.operand3
                &&& match (ai.directive, sh.head) {
                    (Some(Token::Directive { name }), Head::Directive(a, b)) => name@
                        == input@.subrange(a, b),
                    _ => false,
                }
            },
            _ => false,
        },
        r is Some ==> i < r->Some_0.0 <= s@.len(),
{
    if i >= s.len() || s[i] != '.' as u8 {
        return None;
    }
    let e = span_end(s, i + 1, CharClass::Alpha);
    proof {
        lemma_span_bounds(s@, i + 1, CharClass::Alpha);
    }
    if e == i + 1 {
        return None;
    }
    let name = input.substring_ascii(i + 1, e).to_owned();
    let (f, o1, o2, o3) = operands_at(s, e);
    Some(
        (
            f,
            AssemblerInstruction {
                opcode: None,
                label: None,
                directive: Some(Token::Directive { name }),
                operand1: o1,
                operand2: o2,
                operand3: o3,
            },
        ),
    )
}

} // verus!
