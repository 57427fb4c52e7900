//! The instruction set: opcodes, their one-byte wire codes and mnemonics.
use vstd::prelude::*;
use vstd::string::StringSliceAdditionalSpecFns;

verus! {

/// The closed set of operations. Each has a fixed numeric code, its wire
/// representation; `IGL` stands for every code that names no operation.
#[derive(Debug, PartialEq, Eq, Structural, Clone, Copy)]
pub enum OpCode {
    LOAD,
    ADD,
    SUB,
    MUL,
    DIV,
    HLT,
    JMP,
    JMPF,
    JMPB,
    EQ,
    NEQ,
    GT,
    LT,
    GTE,
    LTE,
    JEQ,
    JNEQ,
    ALOC,
    INC,
    DEC,
    IGL,
}

/// The opcode that a wire code decodes to.
pub open spec fn opcode_of(code: u8) -> OpCode {
    match code {
        0 => OpCode::LOAD,
        1 => OpCode::ADD,
        2 => OpCode::SUB,
        3 => OpCode::MUL,
        4 => OpCode::DIV,
        5 => OpCode::HLT,
        6 => OpCode::JMP,
        7 => OpCode::JMPF,
        8 => OpCode::JMPB,
        9 => OpCode::EQ,
        10 => OpCode::NEQ,
        11 => OpCode::GT,
        12 => OpCode::LT,
        13 => OpCode::GTE,
        14 => OpCode::LTE,
        15 => OpCode::JEQ,
        16 => OpCode::JNEQ,
        17 => OpCode::ALOC,
        18 => OpCode::INC,
        19 => OpCode::DEC,
        _ => OpCode::IGL,
    }
}

/// The wire code of an opcode: its position in the canonical order. `IGL`
/// takes the first code past the defined ones.
pub open spec fn code_of(op: OpCode) -> u8 {
    match op {
        OpCode::LOAD => 0,
        OpCode::ADD => 1,
        OpCode::SUB => 2,
        OpCode::MUL => 3,
        OpCode::DIV => 4,
        OpCode::HLT => 5,
        OpCode::JMP => 6,
        OpCode::JMPF => 7,
        OpCode::JMPB => 8,
        OpCode::EQ => 9,
        OpCode::NEQ => 10,
        OpCode::GT => 11,
        OpCode::LT => 12,
        OpCode::GTE => 13,
        OpCode::LTE => 14,
        OpCode::JEQ => 15,
        OpCode::JNEQ => 16,
        OpCode::ALOC => 17,
        OpCode::INC => 18,
        OpCode::DEC => 19,
        OpCode::IGL => 20,
    }
}

/// The lower-case mnemonic of an opcode, as the assembler spells it.
pub open spec fn mnemonic_of(op: OpCode) -> Seq<u8> {
    match op {
        OpCode::LOAD => seq!['l' as u8, 'o' as u8, 'a' as u8, 'd' as u8],
        OpCode::ADD => seq!['a' as u8, 'd' as u8, 'd' as u8],
        OpCode::SUB => seq!['s' as u8, 'u' as u8, 'b' as u8],
        OpCode::MUL => seq!['m' as u8, 'u' as u8, 'l' as u8],
        OpCode::DIV => seq!['d' as u8, 'i' as u8, 'v' as u8],
        OpCode::HLT => seq!['h' as u8, 'l' as u8, 't' as u8],
        OpCode::JMP => seq!['j' as u8, 'm' as u8, 'p' as u8],
        OpCode::JMPF => seq!['j' as u8, 'm' as u8, 'p' as u8, 'f' as u8],
        OpCode::JMPB => seq!['j' as u8, 'm' as u8, 'p' as u8, 'b' as u8],
        OpCode::EQ => seq!['e' as u8, 'q' as u8],
        OpCode::NEQ => seq!['n' as u8, 'e' as u8, 'q' as u8],
        OpCode::GT => seq!['g' as u8, 't' as u8],
        OpCode::LT => seq!['l' as u8, 't' as u8],
        OpCode::GTE => seq!['g' as u8, 't' as u8, 'e' as u8],
        OpCode::LTE => seq!['l' as u8, 't' as u8, 'e' as u8],
        OpCode::JEQ => seq!['j' as u8, 'e' as u8, 'q' as u8],
        OpCode::JNEQ => seq!['j' as u8, 'n' as u8, 'e' as u8, 'q' as u8],
        OpCode::ALOC => seq!['a' as u8, 'l' as u8, 'o' as u8, 'c' as u8],
        OpCode::INC => seq!['i' as u8, 'n' as u8, 'c' as u8],
        OpCode::DEC => seq!['d' as u8, 'e' as u8, 'c' as u8],
        OpCode::IGL => seq!['i' as u8, 'g' as u8, 'l' as u8],
    }
}

/// The first opcode, from code `code` on in code order, whose mnemonic is
/// `word`; `IGL` where there is none.
pub open spec fn mnemonic_lookup(word: Seq<u8>, code: nat) -> OpCode
    decreases 20 - code,
{
    if code >= 20 {
        OpCode::IGL
    } else if mnemonic_of(opcode_of(code as u8)) == word {
        opcode_of(code as u8)
    } else {
        mnemonic_lookup(word, code + 1)
    }
}

/// The opcode that a word names: the one whose lower-case mnemonic it is
/// exactly, or `IGL`. Matching is case sensitive.
pub open spec fn opcode_of_mnemonic(word: Seq<u8>) -> OpCode {
    mnemonic_lookup(word, 0)
}

impl OpCode {
    /// The lower-case mnemonic of this opcode.
    pub fn mnemonic(self) -> (r: Vec<u8>)
        ensures
            r@ == mnemonic_of(self),
    {
        match self {
            OpCode::LOAD => vec!['l' as u8, 'o' as u8, 'a' as u8, 'd' as u8],
            OpCode::ADD => vec!['a' as u8, 'd' as u8, 'd' as u8],
            OpCode::SUB => vec!['s' as u8, 'u' as u8, 'b' as u8],
            OpCode::MUL => vec!['m' as u8, 'u' as u8, 'l' as u8],
            OpCode::DIV => vec!['d' as u8, 'i' as u8, 'v' as u8],
            OpCode::HLT => vec!['h' as u8, 'l' as u8, 't' as u8],
            OpCode::JMP => vec!['j' as u8, 'm' as u8, 'p' as u8],
            OpCode::JMPF => vec!['j' as u8, 'm' as u8, 'p' as u8, 'f' as u8],
            OpCode::JMPB => vec!['j' as u8, 'm' as u8, 'p' as u8, 'b' as u8],
            OpCode::EQ => vec!['e' as u8, 'q' as u8],
            OpCode::NEQ => vec!['n' as u8, 'e' as u8, 'q' as u8],
            OpCode::GT => vec!['g' as u8, 't' as u8],
            OpCode::LT => vec!['l' as u8, 't' as u8],
            OpCode::GTE => vec!['g' as u8, 't' as u8, 'e' as u8],
            OpCode::LTE => vec!['l' as u8, 't' as u8, 'e' as u8],
            OpCode::JEQ => vec!['j' as u8, 'e' as u8, 'q' as u8],
            OpCode::JNEQ => vec!['j' as u8, 'n' as u8, 'e' as u8, 'q' as u8],
            OpCode::ALOC => vec!['a' as u8, 'l' as u8, 'o' as u8, 'c' as u8],
            OpCode::INC => vec!['i' as u8, 'n' as u8, 'c' as u8],
            OpCode::DEC => vec!['d' as u8, 'e' as u8, 'c' as u8],
            OpCode::IGL => vec!['i' as u8, 'g' as u8, 'l' as u8],
        }
    }

    /// The opcode that the word `s[i..e]` names, or `IGL`.
    pub fn from_mnemonic_bytes(s: &[u8], i: usize, e: usize) -> (r: OpCode)
        requires
            i <= e <= s@.len(),
        ensures
            r == opcode_of_mnemonic(s@.subrange(i as int, e as int)),
    {
        let ghost word = s@.subrange(i as int, e as int);
        let mut code: u8 = 0;
        while code < 20
            invariant
                code <= 20,
                i <= e <= s@.len(),
                word == s@.subrange(i as int, e as int),
                mnemonic_lookup(word, code as nat) == opcode_of_mnemonic(word),
            decreases 20 - code,
        {
            let op = OpCode::from(code);
            let m = op.mnemonic();
            if same_bytes(s, i, e, &m) {
                return op;
            }
            code = code + 1;
        }
        OpCode::IGL
    }

    /// The wire code of this opcode.
    pub fn code(self) -> (r: u8)
        ensures
            r == code_of(self),
    {
        match self {
            OpCode::LOAD => 0,
            OpCode::ADD => 1,
            OpCode::SUB => 2,
            OpCode::MUL => 3,
            OpCode::DIV => 4,
            OpCode::HLT => 5,
            OpCode::JMP => 6,
            OpCode::JMPF => 7,
            OpCode::JMPB => 8,
            OpCode::EQ => 9,
            OpCode::NEQ => 10,
            OpCode::GT => 11,
            OpCode::LT => 12,
            OpCode::GTE => 13,
            OpCode::LTE => 14,
            OpCode::JEQ => 15,
            OpCode::JNEQ => 16,
            OpCode::ALOC => 17,
            OpCode::INC => 18,
            OpCode::DEC => 19,
            OpCode::IGL => 20,
        }
    }
}

impl From<u8> for OpCode {
    fn from(code: u8) -> (r: OpCode) {
        match code {
            0 => OpCode::LOAD,
            1 => OpCode::ADD,
            2 => OpCode::SUB,
            3 => OpCode::MUL,
            4 => OpCode::DIV,
            5 => OpCode::HLT,
            6 => OpCode::JMP,
            7 => OpCode::JMPF,
            8 => OpCode::JMPB,
            9 => OpCode::EQ,
            10 => OpCode::NEQ,
            11 => OpCode::GT,
            12 => OpCode::LT,
            13 => OpCode::GTE,
            14 => OpCode::LTE,
            15 => OpCode::JEQ,
            16 => OpCode::JNEQ,
            17 => OpCode::ALOC,
            18 => OpCode::INC,
            19 => OpCode::DEC,
            _ => OpCode::IGL,
        }
    }
}

impl vstd::std_specs::convert::FromSpecImpl<u8> for OpCode {
    open spec fn obeys_from_spec() -> bool {
        true
    }

    open spec fn from_spec(code: u8) -> OpCode {
        opcode_of(code)
    }
}

impl<'a> From<&'a str> for OpCode {
    fn from(word: &'a str) -> (r: OpCode) {
        let bytes = word.as_bytes();
        OpCode::from_mnemonic_bytes(bytes, 0, bytes.len())
    }
}

impl<'a> vstd::std_specs::convert::FromSpecImpl<&'a str> for OpCode {
    open spec fn obeys_from_spec() -> bool {
        true
    }

    open spec fn from_spec(word: &'a str) -> OpCode {
        opcode_of_mnemonic(word.spec_bytes().subrange(0, word.spec_bytes().len() as int))
    }
}

/// Whether the bytes `s[i..e]` are those of `b`.
pub fn same_bytes(s: &[u8], i: usize, e: usize, b: &Vec<u8>) -> (r: bool)
    requires
        i <= e <= s@.len(),
    ensures
        r == (s@.subrange(i as int, e as int) == b@),
{
    if e - i != b.len() {
        return false;
    }
    let mut k: usize = 0;
    while k < b.len()
        invariant
            e - i == b@.len(),
            i <= e <= s@.len(),
            k <= b@.len(),
            forall|j: int| 0 <= j < k ==> s@[i + j] == b@[j],
        decreases b@.len() - k,
    {
        if s[i + k] != b[k] {
            return false;
        }
        k = k + 1;
    }
    assert(s@.subrange(i as int, e as int) =~= b@);
    true
}

/// Every defined opcode survives the trip through its one-byte code, and
/// every code past the defined ones decodes to `IGL`.
pub proof fn lemma_code_round_trip(op: OpCode, code: u8)
    ensures
        op != OpCode::IGL ==> opcode_of(code_of(op)) == op,
        code_of(op) < 20 <==> op != OpCode::IGL,
        code >= 20 ==> opcode_of(code) == OpCode::IGL,
        code < 20 ==> code_of(opcode_of(code)) == code,
{
}

/// One decoded instruction: its operation.
#[derive(Debug)]
pub struct Instruction {
    pub opcode: OpCode,
}

impl Instruction {
    pub fn new(opcode: OpCode) -> (r: Instruction)
        ensures
            r.opcode == opcode,
    {
        Instruction { opcode }
    }
}

} // verus!
