//! Whole programs: sequences of assembly instructions.
use vstd::prelude::*;

use vstd::string::{is_ascii, StringSliceAdditionalSpecFns};

use crate::assembler::instruction_parsers::{
    encoding, instruction_at, instruction_shaped, instruction_spec, AssemblerInstruction, Shape,
};
use crate::assembler::{ascii_bytes, bytes_result, rest_after, EncodeError, ParseError};

verus! {

/// A parsed program, instructions in execution order.
#[derive(Debug, PartialEq)]
pub struct Program {
    pub instructions: Vec<AssemblerInstruction>,
}

/// The encoding of a program: the encodings of its instructions, one after
/// another, or the first instruction's error.
pub open spec fn program_encoding(instrs: Seq<AssemblerInstruction>) -> Result<Seq<u8>, EncodeError>
    decreases instrs.len(),
{
    if instrs.len() == 0 {
        Ok(Seq::empty())
    } else {
        match program_encoding(instrs.drop_last()) {
            Err(e) => Err(e),
            Ok(prefix) => match encoding(instrs.last()) {
                Err(e) => Err(e),
                Ok(b) => Ok(prefix + b),
            },
        }
    }
}

/// An error in the encoding of a prefix is the error of the whole program.
proof fn lemma_error_persists(s: Seq<AssemblerInstruction>, k: int)
    requires
        0 <= k <= s.len(),
        program_encoding(s.take(k)) is Err,
    ensures
        program_encoding(s) == program_encoding(s.take(k)),
    decreases s.len(),
{
    if k == s.len() {
        assert(s.take(k) =~= s);
    } else {
        assert(s.drop_last().take(k) =~= s.take(k));
        lemma_error_persists(s.drop_last(), k);
    }
}

/// Instructions, one after another from `i`, as long as they parse: where
/// they end, and their shapes.
pub open spec fn instructions_spec(s: Seq<u8>, i: int) -> (int, Seq<Shape>)
    decreases s.len() - i,
{
    match instruction_spec(s, i) {
        Some((e, sh)) => if i < e <= s.len() {
            let (f, rest) = instructions_spec(s, e);
            (f, seq![sh] + rest)
        } else {
            (i, Seq::empty())
        },
        None => (i, Seq::empty()),
    }
}

/// One or more instructions.
pub open spec fn program_spec(s: Seq<u8>, i: int) -> Option<(int, Seq<Shape>)> {
    if instructions_spec(s, i).1.len() > 0 {
        Some(instructions_spec(s, i))
    } else {
        None
    }
}

/// A program holds instructions of the given shapes, names taken from `text`.
pub open spec fn program_shaped(p: Program, text: Seq<char>, shapes: Seq<Shape>) -> bool {
    &&& p.instructions@.len() == shapes.len()
    &&& forall|k: int|
        0 <= k < shapes.len() ==> instruction_shaped(#[trigger] p.instructions@[k], text, shapes[k])
}

/// Parses instructions at `i` of ASCII text whose bytes are `s`, as long as
/// they parse; at least one.
pub fn program_at(input: &str, s: &[u8], i: usize) -> (r: Option<(usize, Program)>)
    requires
        is_ascii(input),
        s@.len() == input@.len(),
        i <= s@.len(),
    ensures
        match (r, program_spec(s@, i as int)) {
            (None, None) => true,
            (Some((e, p)), Some((f, shapes))) => e as int == f && program_shaped(p, input@, shapes),
            _ => false,
        },
        r is Some ==> r->Some_0.0 <= s@.len(),
{
    let mut instructions: Vec<AssemblerInstruction> = Vec::new();
    let mut pos = i;
    let ghost done: Seq<Shape> = Seq::empty();
    loop
        invariant
            i <= pos <= s@.len(),
            s@.len() == input@.len(),
            is_ascii(input),
            instructions_spec(s@, i as int).0 == instructions_spec(s@, pos as int).0,
            instructions_spec(s@, i as int).1 == done + instructions_spec(s@, pos as int).1,
            instructions@.len() == done.len(),
            forall|k: int|
                0 <= k < done.len() ==> instruction_shaped(#[trigger] instructions@[k], input@, done[k]),
        ensures
            i <= pos <= s@.len(),
            instructions_spec(s@, i as int) == (pos as int, done),
            instructions@.len() == done.len(),
            forall|k: int|
                0 <= k < done.len() ==> instruction_shaped(#[trigger] instructions@[k], input@, done[k]),
        decreases s@.len() - pos,
    {
        match instruction_at(input, s, pos) {
            Some((e, ai)) => {
                let ghost sh = instruction_spec(s@, pos as int)->Some_0.1;
                assert(done.push(sh) + instructions_spec(s@, e as int).1 =~= done + (seq![sh]
                    + instructions_spec(s@, e as int).1));
                instructions.push(ai);
                proof {
                    done = done.push(sh);
                }
                pos = e;
            },
            None => {
                assert(done + instructions_spec(s@, pos as int).1 =~= done);
                break;
            },
        }
    }
    if instructions.len() == 0 {
        return None;
    }
    Some((pos, Program { instructions }))
}

/// A program at the start of `input`, and the text after it.
pub fn program(input: &str) -> (r: Result<(&str, Program), ParseError>)
    ensures
        match r {
            Ok((rest, p)) => {
                let q = program_spec(input.spec_bytes(), 0);
                &&& is_ascii(input)
                &&& q is Some
                &&& rest@ == input@.subrange(q->Some_0.0, input@.len() as int)
                &&& program_shaped(p, input@, q->Some_0.1)
            },
            Err(e) => if is_ascii(input) {
                e == ParseError::Unexpected && program_spec(input.spec_bytes(), 0) is None
            } else {
                e == ParseError::NotAscii
            },
        },
{
    if !input.is_ascii() {
        return Err(ParseError::NotAscii);
    }
    let s = ascii_bytes(input);
    match program_at(input, s, 0) {
        Some((e, p)) => Ok((rest_after(input, e), p)),
        None => Err(ParseError::Unexpected),
    }
}

impl Program {
    /// The bytes of the whole program.
    pub fn to_bytes(&self) -> (r: Result<Vec<u8>, EncodeError>)
        ensures
            bytes_result(r) == program_encoding(self.instructions@),
    {
        let mut program: Vec<u8> = Vec::new();
        let mut i: usize = 0;
        while i < self.instructions.len()
            invariant
                i <= self.instructions.len(),
                program_encoding(self.instructions@.take(i as int)) == Ok::<Seq<u8>, EncodeError>(program@),
            decreases self.instructions.len() - i,
        {
            assert(self.instructions@.take(i + 1).drop_last() =~= self.instructions@.take(i as int));
            match self.instructions[i].to_bytes() {
                Ok(mut bytes) => {
                    program.append(&mut bytes);
                },
                Err(e) => {
                    proof {
                        lemma_error_persists(self.instructions@, i + 1);
                    }
                    return Err(e);
                },
            }
            i = i + 1;
        }
        assert(self.instructions@.take(i as int) =~= self.instructions@);
        Ok(program)
    }
}

/// A program that encodes takes exactly four bytes per instruction.
pub proof fn lemma_program_width(instrs: Seq<AssemblerInstruction>)
    requires
        program_encoding(instrs) is Ok,
    ensures
        program_encoding(instrs)->Ok_0.len() == 4 * instrs.len(),
    decreases instrs.len(),
{
    if instrs.len() > 0 {
        lemma_program_width(instrs.drop_last());
    }
}

} // verus!
