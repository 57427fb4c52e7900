//! The assembler front end: tokens, instructions and their byte encoding.
use vstd::prelude::*;
use vstd::string::{is_ascii, StrSliceExecFns, StringSliceAdditionalSpecFns};

use crate::instruction::OpCode;

pub mod directive_parsers;
pub mod instruction_parsers;
pub mod opcode_parsers;
pub mod operand_parsers;
pub mod program_parsers;
pub mod register_parsers;

verus! {

/// One lexical element of assembly text.
#[derive(Debug, PartialEq, Eq)]
pub enum Token {
    Op { code: OpCode },
    Register { reg_num: u8 },
    IntegerOperand { value: i32 },
    LabelDeclaration { name: String },
    LabelUsage { name: String },
    Directive { name: String },
}

/// Why an instruction could not be encoded.
#[derive(Debug, PartialEq, Eq, Structural, Clone, Copy)]
pub enum EncodeError {
    /// The instruction has no opcode.
    MissingOpcode,
    /// An operand is neither a register nor an integer (an unresolved label,
    /// say).
    UnsupportedOperand,
    /// The operands need more bytes than the four that an instruction has.
    TooLong,
}

/// The low 16 bits of an integer operand, as an unsigned word.
pub open spec fn low_word(value: i32) -> u16 {
    ((value as int) % 65536) as u16
}

/// The low 16 bits of `value`.
pub fn word_of(value: i32) -> (r: u16)
    ensures
        r == low_word(value),
{
    // 2^31 is a multiple of 2^16, so the offset leaves the low word as it is.
    let shifted = (value as i64 + 2147483648) as u32;
    proof {
        vstd::arithmetic::div_mod::lemma_mod_multiples_vanish(32768, value as int, 65536);
    }
    (shifted % 65536) as u16
}

/// The bytes of an operand: a register index verbatim, an integer as the
/// big-endian bytes of its low word. Other tokens have none.
pub open spec fn operand_bytes(t: Token) -> Option<Seq<u8>> {
    match t {
        Token::Register { reg_num } => Some(seq![reg_num]),
        Token::IntegerOperand { value } => Some(
            seq![(low_word(value) / 256) as u8, (low_word(value) % 256) as u8],
        ),
        _ => None,
    }
}

/// The bytes of an operand slot: nothing for an empty one.
pub open spec fn slot_bytes(o: Option<Token>) -> Option<Seq<u8>> {
    match o {
        None => Some(Seq::empty()),
        Some(t) => operand_bytes(t),
    }
}

/// A byte sequence followed by zeros up to four bytes.
pub open spec fn pad4(b: Seq<u8>) -> Seq<u8> {
    b + Seq::new((4 - b.len()) as nat, |k: int| 0u8)
}

/// A result over `Vec<u8>` as one over byte sequences.
pub open spec fn bytes_result(r: Result<Vec<u8>, EncodeError>) -> Result<Seq<u8>, EncodeError> {
    match r {
        Ok(v) => Ok(v@),
        Err(e) => Err(e),
    }
}

/// Why assembly text could not be parsed.
#[derive(Debug, PartialEq, Eq, Structural, Clone, Copy)]
pub enum ParseError {
    /// The text holds a character outside ASCII.
    NotAscii,
    /// The text does not start with what the parser expects.
    Unexpected,
}

/// A class of ASCII bytes.
#[derive(Debug, PartialEq, Eq, Structural, Clone, Copy)]
pub enum CharClass {
    /// Space, tab, carriage return and line feed.
    Space,
    /// `A` to `Z` and `a` to `z`.
    Alpha,
    /// `0` to `9`.
    Digit,
    /// Every byte but a space.
    Field,
}

pub open spec fn in_class(c: CharClass, b: u8) -> bool {
    match c {
        CharClass::Space => b == 32 || b == 9 || b == 13 || b == 10,
        CharClass::Alpha => (65 <= b <= 90) || (97 <= b <= 122),
        CharClass::Digit => 48 <= b <= 57,
        CharClass::Field => b != 32,
    }
}

/// The end of the run of bytes of class `c` that starts at `i`.
pub open spec fn span(s: Seq<u8>, i: int, c: CharClass) -> int
    decreases s.len() - i,
{
    if 0 <= i < s.len() && in_class(c, s[i]) {
        span(s, i + 1, c)
    } else {
        i
    }
}

/// The value of a string of decimal digits.
pub open spec fn decimal(d: Seq<u8>) -> nat
    decreases d.len(),
{
    if d.len() == 0 {
        0
    } else {
        decimal(d.drop_last()) * 10 + (d.last() - 48) as nat
    }
}

/// A run lies within the text and holds only bytes of its class.
pub proof fn lemma_span_bounds(s: Seq<u8>, i: int, c: CharClass)
    requires
        0 <= i <= s.len(),
    ensures
        i <= span(s, i, c) <= s.len(),
        forall|k: int| i <= k < span(s, i, c) ==> in_class(c, #[trigger] s[k]),
        span(s, i, c) < s.len() ==> !in_class(c, s[span(s, i, c)]),
    decreases s.len() - i,
{
    if i < s.len() && in_class(c, s[i]) {
        lemma_span_bounds(s, i + 1, c);
    }
}

/// The value of a digit string never falls as it grows.
pub proof fn lemma_decimal_grows(s: Seq<u8>, a: int, j: int, e: int)
    requires
        0 <= a <= j <= e <= s.len(),
        forall|k: int| a <= k < e ==> in_class(CharClass::Digit, #[trigger] s[k]),
    ensures
        decimal(s.subrange(a, j)) <= decimal(s.subrange(a, e)),
    decreases e - j,
{
    if j < e {
        lemma_decimal_grows(s, a, j, e - 1);
        assert(s.subrange(a, e).drop_last() =~= s.subrange(a, e - 1));
    }
}

/// The end of the run of bytes of class `c` that starts at `i`.
pub fn span_end(s: &[u8], i: usize, c: CharClass) -> (r: usize)
    requires
        i <= s@.len(),
    ensures
        r == span(s@, i as int, c),
{
    let mut j = i;
    while j < s.len() && class_has(c, s[j])
        invariant
            i <= j <= s@.len(),
            span(s@, j as int, c) == span(s@, i as int, c),
        decreases s@.len() - j,
    {
        j = j + 1;
    }
    j
}

/// Whether byte `b` is of class `c`.
pub fn class_has(c: CharClass, b: u8) -> (r: bool)
    ensures
        r == in_class(c, b),
{
    match c {
        CharClass::Space => b == 32 || b == 9 || b == 13 || b == 10,
        CharClass::Alpha => (65 <= b && b <= 90) || (97 <= b && b <= 122),
        CharClass::Digit => 48 <= b && b <= 57,
        CharClass::Field => b != 32,
    }
}

/// The value of the digits in `s[a..e]`, where it is at most `limit`.
pub fn parse_decimal(s: &[u8], a: usize, e: usize, limit: u32) -> (r: Option<u32>)
    requires
        a <= e <= s@.len(),
        forall|k: int| a <= k < e ==> in_class(CharClass::Digit, #[trigger] s@[k]),
    ensures
        decimal(s@.subrange(a as int, e as int)) <= limit ==> r == Some(
            decimal(s@.subrange(a as int, e as int)) as u32,
        ),
        decimal(s@.subrange(a as int, e as int)) > limit ==> r is None,
{
    let mut value: u32 = 0;
    let mut j = a;
    assert(s@.subrange(a as int, a as int) =~= Seq::<u8>::empty());
    while j < e
        invariant
            a <= j <= e <= s@.len(),
            forall|k: int| a <= k < e ==> in_class(CharClass::Digit, #[trigger] s@[k]),
            value == decimal(s@.subrange(a as int, j as int)),
            value <= limit,
        decreases e - j,
    {
        let digit = (s[j] - 48) as u64;
        assert(s@.subrange(a as int, j + 1).drop_last() =~= s@.subrange(a as int, j as int));
        let next = value as u64 * 10 + digit;
        if next > limit as u64 {
            proof {
                lemma_decimal_grows(s@, a as int, j + 1, e as int);
            }
            return None;
        }
        value = next as u32;
        j = j + 1;
    }
    Some(value)
}

/// A parser's result on bytes agrees with its specification: the same
/// end and value, or failure on both sides.
pub open spec fn parsed_as<T>(r: Option<(usize, T)>, p: Option<(int, T)>) -> bool {
    match (r, p) {
        (None, None) => true,
        (Some((e, v)), Some((f, w))) => e as int == f && v == w,
        _ => false,
    }
}

/// A parser's result on text agrees with its specification on the text's
/// bytes: on success the rest of the text and the value, on failure the
/// reason.
pub open spec fn text_parsed_as<T>(input: &str, r: Result<(&str, T), ParseError>, p: Option<(int, T)>) -> bool {
    match r {
        Ok((rest, v)) => is_ascii(input) && p is Some && rest@ == input@.subrange(
            p->Some_0.0,
            input@.len() as int,
        ) && v == p->Some_0.1,
        Err(e) => if is_ascii(input) {
            e == ParseError::Unexpected && p is None
        } else {
            e == ParseError::NotAscii
        },
    }
}

/// The bytes of ASCII text: one per character, each its character's code.
pub fn ascii_bytes(input: &str) -> (r: &[u8])
    requires
        is_ascii(input),
    ensures
        r@ == input.spec_bytes(),
        r@.len() == input@.len(),
        forall|k: int| 0 <= k < r@.len() ==> r@[k] == input@[k] as u8,
{
    broadcast use vstd::string::is_ascii_spec_bytes;
    input.as_bytes()
}

/// The text from character `e` on.
pub fn rest_after(input: &str, e: usize) -> (r: &str)
    requires
        is_ascii(input),
        e <= input@.len(),
    ensures
        r@ == input@.subrange(e as int, input@.len() as int),
{
    let n = ascii_bytes(input).len();
    input.substring_ascii(e, n)
}

} // verus!
