//! The interactive shell's state and decisions: what a line of input does to
//! the history and to the machine. Reading and printing stay with the caller.
use vstd::prelude::*;
use vstd::string::{is_ascii, StringSliceAdditionalSpecFns};

use crate::assembler::program_parsers::{
    program, program_encoding, program_shaped, program_spec, Program,
};
use crate::assembler::{lemma_span_bounds, span, span_end, CharClass, EncodeError};
use crate::instruction::same_bytes;
use crate::vm::{step, Machine, Status, VM};

verus! {

/// Why hexadecimal text could not be read as bytes.
#[derive(Debug, PartialEq, Eq, Structural, Clone, Copy)]
pub enum HexError {
    /// A space-separated field does not read as a byte: it is empty, holds a
    /// character that is no hex digit, or is over 255.
    InvalidByte,
}

/// The value of a hexadecimal digit, or -1 for any other byte.
pub open spec fn hex_digit_value(b: u8) -> int {
    if 48 <= b <= 57 {
        b - 48
    } else if 97 <= b <= 102 {
        b - 87
    } else if 65 <= b <= 70 {
        b - 55
    } else {
        -1
    }
}

/// The value of a string of hexadecimal digits.
pub open spec fn hex_value(d: Seq<u8>) -> nat
    decreases d.len(),
{
    if d.len() == 0 {
        0
    } else {
        hex_value(d.drop_last()) * 16 + hex_digit_value(d.last()) as nat
    }
}

/// A field without its leading `+`, if it has one.
pub open spec fn unsigned_digits(field: Seq<u8>) -> Seq<u8> {
    if field.len() > 0 && field[0] == '+' as u8 {
        field.drop_first()
    } else {
        field
    }
}

/// A field read as a byte: an optional `+`, then one or more hexadecimal
/// digits, of value at most 255.
pub open spec fn hex_byte(field: Seq<u8>) -> Option<u8> {
    let d = unsigned_digits(field);
    if d.len() > 0 && (forall|k: int| 0 <= k < d.len() ==> hex_digit_value(#[trigger] d[k]) >= 0)
        && hex_value(d) <= 255 {
        Some(hex_value(d) as u8)
    } else {
        None
    }
}

/// The bytes of the space-separated fields from `i` on, where every field
/// reads as a byte.
pub open spec fn hex_fields(s: Seq<u8>, i: int) -> Option<Seq<u8>>
    decreases s.len() - i,
{
    let e = span(s, i, CharClass::Field);
    match hex_byte(s.subrange(i, e)) {
        None => None,
        Some(b) => if e >= s.len() || i < 0 || e < i {
            Some(seq![b])
        } else {
            match hex_fields(s, e + 1) {
                None => None,
                Some(rest) => Some(seq![b] + rest),
            }
        },
    }
}

/// The value of a hex digit string never falls as it grows.
proof fn lemma_hex_grows(s: Seq<u8>, a: int, j: int, e: int)
    requires
        0 <= a <= j <= e <= s.len(),
        forall|k: int| a <= k < e ==> hex_digit_value(#[trigger] s[k]) >= 0,
    ensures
        hex_value(s.subrange(a, j)) <= hex_value(s.subrange(a, e)),
    decreases e - j,
{
    if j < e {
        lemma_hex_grows(s, a, j, e - 1);
        assert(s.subrange(a, e).drop_last() =~= s.subrange(a, e - 1));
    }
}

/// The value of a hexadecimal digit.
fn hex_digit(b: u8) -> (r: Option<u8>)
    ensures
        hex_digit_value(b) >= 0 ==> r == Some(hex_digit_value(b) as u8),
        hex_digit_value(b) < 0 ==> r is None,
{
    if 48 <= b && b <= 57 {
        Some(b - 48)
    } else if 97 <= b && b <= 102 {
        Some(b - 87)
    } else if 65 <= b && b <= 70 {
        Some(b - 55)
    } else {
        None
    }
}

/// The field `s[i..e]` read as a byte.
fn hex_field(s: &[u8], i: usize, e: usize) -> (r: Option<u8>)
    requires
        i <= e <= s@.len(),
    ensures
        r == hex_byte(s@.subrange(i as int, e as int)),
{
    let ghost field = s@.subrange(i as int, e as int);
    let mut a = i;
    if a < e && s[a] == '+' as u8 {
        a = a + 1;
    }
    assert(s@.subrange(a as int, e as int) =~= unsigned_digits(field));
    if a == e {
        return None;
    }
    let mut value: u32 = 0;
    let mut j = a;
    assert(s@.subrange(a as int, a as int) =~= Seq::<u8>::empty());
    while j < e
        invariant
            a <= j <= e <= s@.len(),
            field == s@.subrange(i as int, e as int),
            s@.subrange(a as int, e as int) == unsigned_digits(field),
            forall|k: int| a <= k < j ==> hex_digit_value(#[trigger] s@[k]) >= 0,
            value == hex_value(s@.subrange(a as int, j as int)),
            value <= 255,
        decreases e - j,
    {
        let digit = match hex_digit(s[j]) {
            Some(d) => d,
            None => {
                assert(hex_digit_value(s@.subrange(a as int, e as int)[j - a]) < 0);
                return None;
            },
        };
        assert(s@.subrange(a as int, j + 1).drop_last() =~= s@.subrange(a as int, j as int));
        let next = value * 16 + digit as u32;
        if next > 255 {
            proof {
                let d = s@.subrange(a as int, e as int);
                if forall|k: int| 0 <= k < d.len() ==> hex_digit_value(#[trigger] d[k]) >= 0 {
                    assert forall|k: int| a <= k < e implies hex_digit_value(#[trigger] s@[k]) >= 0 by {
                        assert(s@[k] == d[k - a]);
                    }
                    lemma_hex_grows(s@, a as int, j + 1, e as int);
                }
            }
            return None;
        }
        value = next;
        j = j + 1;
    }
    let ghost d = s@.subrange(a as int, e as int);
    assert(forall|k: int| 0 <= k < d.len() ==> hex_digit_value(#[trigger] d[k]) >= 0) by {
        assert forall|k: int| 0 <= k < d.len() implies hex_digit_value(#[trigger] d[k]) >= 0 by {
            assert(d[k] == s@[a + k]);
        }
    }
    Some(value as u8)
}

/// Reads space-separated hexadecimal fields, one byte each, from the bytes
/// of a text.
pub fn hex_bytes(s: &[u8]) -> (r: Result<Vec<u8>, HexError>)
    ensures
        match hex_fields(s@, 0) {
            Some(b) => r is Ok && r->Ok_0@ == b,
            None => r == Err::<Vec<u8>, HexError>(HexError::InvalidByte),
        },
{
    let mut results: Vec<u8> = Vec::new();
    let mut i: usize = 0;
    loop
        invariant
            i <= s@.len(),
            hex_fields(s@, 0) == (match hex_fields(s@, i as int) {
                Some(rest) => Some(results@ + rest),
                None => None::<Seq<u8>>,
            }),
        decreases s@.len() - i,
    {
        let e = span_end(s, i, CharClass::Field);
        proof {
            lemma_span_bounds(s@, i as int, CharClass::Field);
        }
        match hex_field(s, i, e) {
            None => {
                return Err(HexError::InvalidByte);
            },
            Some(b) => {
                if e >= s.len() {
                    results.push(b);
                    return Ok(results);
                }
                proof {
                    match hex_fields(s@, e + 1) {
                        Some(rest) => {
                            assert(results@.push(b) + rest =~= results@ + (seq![b] + rest));
                        },
                        None => {},
                    }
                }
                results.push(b);
                i = e + 1;
            },
        }
    }
}

/// What a line of input did.
#[derive(Debug, PartialEq, Eq, Structural, Clone, Copy)]
pub enum Outcome {
    /// `.quit`: the session should end.
    Quit,
    /// `.history`: the commands entered so far should be shown.
    ShowHistory,
    /// `.registers`: the register contents should be shown.
    ShowRegisters,
    /// The line is no assembly program.
    NotAProgram,
    /// The program does not encode.
    NotEncodable(EncodeError),
    /// The program's bytes were appended and the machine took one step,
    /// ending in this status.
    Stepped(Status),
}

pub open spec fn quit_command() -> Seq<u8> {
    seq!['.' as u8, 'q' as u8, 'u' as u8, 'i' as u8, 't' as u8]
}

pub open spec fn history_command() -> Seq<u8> {
    seq!['.' as u8, 'h' as u8, 'i' as u8, 's' as u8, 't' as u8, 'o' as u8, 'r' as u8, 'y' as u8]
}

pub open spec fn registers_command() -> Seq<u8> {
    seq![
        '.' as u8,
        'r' as u8,
        'e' as u8,
        'g' as u8,
        'i' as u8,
        's' as u8,
        't' as u8,
        'e' as u8,
        'r' as u8,
        's' as u8,
    ]
}

pub open spec fn is_meta_command(b: Seq<u8>) -> bool {
    b == quit_command() || b == history_command() || b == registers_command()
}

/// The machine after a program's bytes are appended and one step is taken.
pub open spec fn append_and_step(m: Machine, bytes: Seq<u8>) -> Machine {
    step(Machine { program: m.program + bytes, ..m })
}

/// The interactive shell: the commands entered so far and the machine they
/// drive.
#[derive(Debug)]
pub struct REPL {
    pub command_buffer: Vec<String>,
    pub vm: VM,
}

impl REPL {
    /// A shell with no history and a fresh machine.
    pub fn new() -> (r: REPL)
        ensures
            r.command_buffer@.len() == 0,
            r.vm@ == VM::new_state(),
    {
        REPL { command_buffer: Vec::new(), vm: VM::new() }
    }

    /// Reads text of space-separated hexadecimal bytes (`00 01 03 E8`), each
    /// field an optional `+` and one or more hex digits, without `0x`.
    pub fn parse_hex(&mut self, i: &str) -> (r: Result<Vec<u8>, HexError>)
        ensures
            *final(self) == *old(self),
            match hex_fields(i.spec_bytes(), 0) {
                Some(b) => r is Ok && r->Ok_0@ == b,
                None => r == Err::<Vec<u8>, HexError>(HexError::InvalidByte),
            },
    {
        hex_bytes(i.as_bytes())
    }

    /// Handles one line of input, without surrounding whitespace: records it
    /// in the history, then runs a meta-command, or else assembles the line,
    /// appends its bytes to the program and takes one step.
    pub fn eval(&mut self, line: &str) -> (r: Outcome)
        ensures
            final(self).command_buffer@.len() == old(self).command_buffer@.len() + 1,
            forall|k: int|
                0 <= k < old(self).command_buffer@.len() ==> final(self).command_buffer@[k]
                    == old(self).command_buffer@[k],
            final(self).command_buffer@.last()@ == line@,
            line.spec_bytes() == quit_command() ==> r == Outcome::Quit,
            line.spec_bytes() == history_command() ==> r == Outcome::ShowHistory,
            line.spec_bytes() == registers_command() ==> r == Outcome::ShowRegisters,
            !is_meta_command(line.spec_bytes()) ==> !(r is Quit || r is ShowHistory
                || r is ShowRegisters),
            !is_meta_command(line.spec_bytes()) ==> (r is NotAProgram <==> !(is_ascii(line)
                && program_spec(line.spec_bytes(), 0) is Some)),
            !(r is Stepped) ==> final(self).vm@ == old(self).vm@,
            r is NotEncodable || r is Stepped ==> is_ascii(line) && exists|p: Program|
                #![trigger program_encoding(p.instructions@)]
                program_shaped(p, line@, program_spec(line.spec_bytes(), 0)->Some_0.1) && match program_encoding(
                    p.instructions@,
                ) {
                    Err(e) => r == Outcome::NotEncodable(e),
                    Ok(bytes) => final(self).vm@ == append_and_step(old(self).vm@, bytes) && r
                        == Outcome::Stepped(final(self).vm@.status),
                },
    {
        self.command_buffer.push(line.to_owned());
        let s = line.as_bytes();
        let quit = vec!['.' as u8, 'q' as u8, 'u' as u8, 'i' as u8, 't' as u8];
        let history = vec!['.' as u8, 'h' as u8, 'i' as u8, 's' as u8, 't' as u8, 'o' as u8, 'r' as u8, 'y' as u8];
        let registers = vec![
            '.' as u8,
            'r' as u8,
            'e' as u8,
            'g' as u8,
            'i' as u8,
            's' as u8,
            't' as u8,
            'e' as u8,
            'r' as u8,
            's' as u8,
        ];
        assert(s@.subrange(0, s@.len() as int) =~= s@);
        if same_bytes(s, 0, s.len(), &quit) {
            return Outcome::Quit;
        }
        if same_bytes(s, 0, s.len(), &history) {
            return Outcome::ShowHistory;
        }
        if same_bytes(s, 0, s.len(), &registers) {
            return Outcome::ShowRegisters;
        }
        match program(line) {
            Err(_) => Outcome::NotAProgram,
            Ok((_, p)) => self.load_and_step(&p),
        }
    }

    /// Appends the bytes of a program to the machine's and takes one step.
    fn load_and_step(&mut self, p: &Program) -> (r: Outcome)
        ensures
            final(self).command_buffer == old(self).command_buffer,
            match program_encoding(p.instructions@) {
                Err(e) => r == Outcome::NotEncodable(e) && final(self).vm@ == old(self).vm@,
                Ok(bytes) => final(self).vm@ == append_and_step(old(self).vm@, bytes) && r
                    == Outcome::Stepped(final(self).vm@.status),
            },
    {
        match p.to_bytes() {
            Err(e) => Outcome::NotEncodable(e),
            Ok(mut bytes) => {
                self.vm.program.append(&mut bytes);
                Outcome::Stepped(self.vm.run_once())
            },
        }
    }
}

} // verus!
