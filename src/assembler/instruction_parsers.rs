//! Assembly instructions and their four-byte encoding.
use vstd::prelude::*;

use crate::assembler::{
    bytes_result, low_word, operand_bytes, pad4, slot_bytes, word_of, EncodeError, Token,
};
use crate::instruction::{code_of, OpCode};
use crate::vm::{is_terminal, step, Machine, Status};
use crate::assembler::directive_parsers::{directive_at, directive_spec};
use crate::assembler::opcode_parsers::{opcode_at, opcode_spec};
use crate::assembler::operand_parsers::{operand_at, operand_spec};
use crate::assembler::{ascii_bytes, rest_after, ParseError};
use vstd::string::{is_ascii, StringSliceAdditionalSpecFns};

verus! {

/// One line of assembly: an optional label, an opcode or a directive, and up
/// to three operands.
#[derive(Debug, PartialEq)]
pub struct AssemblerInstruction {
    pub opcode: Option<Token>,
    pub label: Option<Token>,
    pub directive: Option<Token>,
    pub operand1: Option<Token>,
    pub operand2: Option<Token>,
    pub operand3: Option<Token>,
}

/// The encoding of an instruction: its opcode's code, the bytes of each
/// present operand in order, and zeros up to four bytes. It fails without an
/// opcode, on an operand that has no bytes, and past four bytes.
pub open spec fn encoding(i: AssemblerInstruction) -> Result<Seq<u8>, EncodeError> {
    match i.opcode {
        Some(Token::Op { code }) => match (
            slot_bytes(i.operand1),
            slot_bytes(i.operand2),
            slot_bytes(i.operand3),
        ) {
            (Some(a), Some(b), Some(c)) => {
                let body = seq![code_of(code)] + a + b + c;
                if body.len() > 4 {
                    Err(EncodeError::TooLong)
                } else {
                    Ok(pad4(body))
                }
            },
            _ => Err(EncodeError::UnsupportedOperand),
        },
        _ => Err(EncodeError::MissingOpcode),
    }
}

/// What leads an instruction: an opcode, or a directive whose name spans
/// the characters from the first position to the second.
pub enum Head {
    Op(OpCode),
    Directive(int, int),
}

/// What a parsed instruction holds, with names as positions in the text.
pub struct Shape {
    pub head: Head,
    pub operand1: Option<Token>,
    pub operand2: Option<Token>,
    pub operand3: Option<Token>,
}

/// Up to three operands from `i`: where they end, and the operand slots,
/// filled in order.
pub open spec fn operands_spec(s: Seq<u8>, i: int) -> (int, Option<Token>, Option<Token>, Option<Token>) {
    match operand_spec(s, i) {
        None => (i, None, None, None),
        Some((e1, t1)) => match operand_spec(s, e1) {
            None => (e1, Some(t1), None, None),
            Some((e2, t2)) => match operand_spec(s, e2) {
                None => (e2, Some(t1), Some(t2), None),
                Some((e3, t3)) => (e3, Some(t1), Some(t2), Some(t3)),
            },
        },
    }
}

/// An opcode and up to three operands, or else a directive.
pub open spec fn instruction_spec(s: Seq<u8>, i: int) -> Option<(int, Shape)> {
    match opcode_spec(s, i) {
        Some((e, Token::Op { code })) => {
            let (f, o1, o2, o3) = operands_spec(s, e);
            Some((f, Shape { head: Head::Op(code), operand1: o1, operand2: o2, operand3: o3 }))
        },
        _ => directive_spec(s, i),
    }
}

/// An instruction holds what its shape says, names taken from `text`.
pub open spec fn instruction_shaped(ai: AssemblerInstruction, text: Seq<char>, sh: Shape) -> bool {
    &&& ai.label is None
    &&& ai.operand1 == sh.operand1
    &&& ai.operand2 == sh.operand2
    &&& ai.operand3 == sh.operand3
    &&& match sh.head {
        Head::Op(code) => ai.opcode == Some(Token::Op { code }) && ai.directive is None,
        Head::Directive(a, e) => ai.opcode is None && match ai.directive {
            Some(Token::Directive { name }) => name@ == text.subrange(a, e),
            _ => false,
        },
    }
}

/// Parses up to three operands at `i`.
pub fn operands_at(s: &[u8], i: usize) -> (r: (usize, Option<Token>, Option<Token>, Option<Token>))
    requires
        i <= s@.len(),
    ensures
        r.0 as int == operands_spec(s@, i as int).0,
        r.1 == operands_spec(s@, i as int).1,
        r.2 == operands_spec(s@, i as int).2,
        r.3 == operands_spec(s@, i as int).3,
        i <= r.0 <= s@.len(),
{
    match operand_at(s, i) {
        None => (i, None, None, None),
        Some((e1, t1)) => match operand_at(s, e1) {
            None => (e1, Some(t1), None, None),
            Some((e2, t2)) => match operand_at(s, e2) {
                None => (e2, Some(t1), Some(t2), None),
                Some((e3, t3)) => (e3, Some(t1), Some(t2), Some(t3)),
            },
        },
    }
}

/// Parses an instruction at `i` of ASCII text whose bytes are `s`.
pub fn instruction_at(input: &str, s: &[u8], i: usize) -> (r: Option<(usize, AssemblerInstruction)>)
    requires
        is_ascii(input),
        s@.len() == input@.len(),
        i <= s@.len(),
    ensures
        match (r, instruction_spec(s@, i as int)) {
            (None, None) => true,
            (Some((e, ai)), Some((f, sh))) => e as int == f && instruction_shaped(ai, input@, sh),
            _ => false,
        },
        r is Some ==> i < r->Some_0.0 <= s@.len(),
{
    match opcode_at(s, i) {
        Some((e, code)) => {
            let (f, o1, o2, o3) = operands_at(s, e);
            Some(
                (
                    f,
                    AssemblerInstruction {
                        opcode: Some(code),
                        label: None,
                        directive: None,
                        operand1: o1,
                        operand2: o2,
                        operand3: o3,
                    },
                ),
            )
        },
        None => directive_at(input, s, i),
    }
}

/// An instruction at the start of `input`, and the text after it.
pub fn instruction(input: &str) -> (r: Result<(&str, AssemblerInstruction), ParseError>)
    ensures
        match r {
            Ok((rest, ai)) => {
                let p = instruction_spec(input.spec_bytes(), 0);
                &&& is_ascii(input)
                &&& p is Some
                &&& rest@ == input@.subrange(p->Some_0.0, input@.len() as int)
                &&& instruction_shaped(ai, input@, p->Some_0.1)
            },
            Err(e) => if is_ascii(input) {
                e == ParseError::Unexpected && instruction_spec(input.spec_bytes(), 0) is None
            } else {
                e == ParseError::NotAscii
            },
        },
{
    if !input.is_ascii() {
        return Err(ParseError::NotAscii);
    }
    let s = ascii_bytes(input);
    match instruction_at(input, s, 0) {
        Some((e, ai)) => Ok((rest_after(input, e), ai)),
        None => Err(ParseError::Unexpected),
    }
}

impl AssemblerInstruction {
    /// The four bytes of this instruction.
    pub fn to_bytes(&self) -> (r: Result<Vec<u8>, EncodeError>)
        ensures
            bytes_result(r) == encoding(*self),
            r is Ok ==> r->Ok_0@.len() == 4,
    {
        let mut result: Vec<u8> = Vec::new();
        match &self.opcode {
            Some(Token::Op { code }) => result.push(code.code()),
            _ => {
                return Err(EncodeError::MissingOpcode);
            },
        }
        let ghost head = result@;
        if !AssemblerInstruction::push_slot(&self.operand1, &mut result) {
            return Err(EncodeError::UnsupportedOperand);
        }
        let ghost after1 = result@;
        if !AssemblerInstruction::push_slot(&self.operand2, &mut result) {
            return Err(EncodeError::UnsupportedOperand);
        }
        let ghost after2 = result@;
        if !AssemblerInstruction::push_slot(&self.operand3, &mut result) {
            return Err(EncodeError::UnsupportedOperand);
        }
        if result.len() > 4 {
            return Err(EncodeError::TooLong);
        }
        let ghost body = result@;
        while result.len() < 4
            invariant
                body.len() <= result.len() <= 4,
                result@ == body + Seq::new((result.len() - body.len()) as nat, |k: int| 0u8),
            decreases 4 - result.len(),
        {
            result.push(0);
            assert(result@ =~= body + Seq::new((result.len() - body.len()) as nat, |k: int| 0u8));
        }
        Ok(result)
    }

    /// Appends the bytes of an operand slot; false, with nothing appended,
    /// where the operand has none.
    fn push_slot(slot: &Option<Token>, results: &mut Vec<u8>) -> (r: bool)
        ensures
            r == slot_bytes(*slot) is Some,
            r ==> final(results)@ == old(results)@ + slot_bytes(*slot)->Some_0,
            !r ==> final(results)@ == old(results)@,
    {
        match slot {
            None => {
                assert(old(results)@ + Seq::<u8>::empty() =~= old(results)@);
                true
            },
            Some(t) => AssemblerInstruction::extract_operand(t, results),
        }
    }

    /// Appends the bytes of an operand; false, with nothing appended, where it
    /// has none.
    fn extract_operand(token: &Token, results: &mut Vec<u8>) -> (r: bool)
        ensures
            r == operand_bytes(*token) is Some,
            r ==> final(results)@ == old(results)@ + operand_bytes(*token)->Some_0,
            !r ==> final(results)@ == old(results)@,
    {
        match token {
            Token::Register { reg_num } => {
                results.push(*reg_num);
                assert(results@ =~= old(results)@ + seq![*reg_num]);
                true
            },
            Token::IntegerOperand { value } => {
                let word = word_of(*value);
                let high = (word / 256) as u8;
                let low = (word % 256) as u8;
                results.push(high);
                results.push(low);
                assert(results@ =~= old(results)@ + seq![high, low]);
                true
            },
            _ => false,
        }
    }
}

/// Every instruction that encodes takes exactly four bytes, whether it has
/// none, one, two or three operands.
pub proof fn lemma_encoding_width(i: AssemblerInstruction)
    requires
        encoding(i) is Ok,
    ensures
        encoding(i)->Ok_0.len() == 4,
{
}

/// Round trip: `LOAD r, v` encodes, and the engine, executing those bytes,
/// decodes from them exactly the register `r` and the value `v`: register `r`
/// then holds `v`, and the counter moves past the four bytes.
pub proof fn lemma_load_round_trip(i: AssemblerInstruction, r: u8, v: u16, m: Machine)
    requires
        r < 32,
        i.opcode == Some(Token::Op { code: OpCode::LOAD }),
        i.operand1 == Some(Token::Register { reg_num: r }),
        i.operand2 == Some(Token::IntegerOperand { value: v as i32 }),
        i.operand3 is None,
        m.registers.len() == 32,
        !is_terminal(m.status),
        m.pc + 4 <= m.program.len(),
        m.program.subrange(m.pc as int, m.pc + 4) == encoding(i)->Ok_0,
    ensures
        encoding(i) is Ok,
        step(m) == (Machine {
            registers: m.registers.update(r as int, v as i32),
            pc: (m.pc + 4) as usize,
            status: Status::Running,
            ..m
        }),
        step(m).registers[r as int] == v,
{
    let hi = (v / 256) as u8;
    let lo = (v % 256) as u8;
    assert(low_word(v as i32) == v);
    assert(hi * 256 + lo == v) by (nonlinear_arith)
        requires
            hi == v / 256,
            lo == v % 256,
    ;
    assert(encoding(i)->Ok_0 =~= seq![0u8, r, hi, lo]);
    assert(m.program[m.pc as int] == m.program.subrange(m.pc as int, m.pc + 4)[0]);
    assert(m.program[m.pc + 1] == m.program.subrange(m.pc as int, m.pc + 4)[1]);
    assert(m.program[m.pc + 2] == m.program.subrange(m.pc as int, m.pc + 4)[2]);
    assert(m.program[m.pc + 3] == m.program.subrange(m.pc as int, m.pc + 4)[3]);
}

} // verus!
