use iridium::assembler::instruction_parsers::{instruction, AssemblerInstruction};
use iridium::assembler::opcode_parsers::opcode;
use iridium::assembler::operand_parsers::{int_operand, operand};
use iridium::assembler::program_parsers::{program, Program};
use iridium::assembler::register_parsers::register;
use iridium::assembler::{word_of, EncodeError, ParseError, Token};
use iridium::instruction::OpCode;
use iridium::vm::{Status, VM};

#[test]
fn instruction_parser_test_parse_instruction_ok() {
    let result = instruction("load $1 #200");
    assert!(result.is_ok());
    let (_, instruction) = result.unwrap();
    assert_eq!(Some(Token::Op { code: OpCode::LOAD }), instruction.opcode);
    assert_eq!(Some(Token::Register { reg_num: 1 }), instruction.operand1);
    assert_eq!(Some(Token::IntegerOperand { value: 200 }), instruction.operand2);
    assert_eq!(None, instruction.operand3);
}

#[test]
fn instruction_parser_test_to_bytes() {
    let result = instruction("load $1 #500");
    assert!(result.is_ok());
    let (_, instr) = result.unwrap();
    let bytes = instr.to_bytes().unwrap();
    assert_eq!(4, bytes.len());
    assert_eq!(0, bytes[0]);
    assert_eq!(1, bytes[1]);
    // 500 is 1 * 256 + 244
    assert_eq!(1, bytes[2]);
    assert_eq!(244, bytes[3]);
}

#[test]
fn instruction_parser_test_parse_instruction_form_one() {
    let result = instruction("load $0 #100\n");
    assert_eq!(
        result,
        Ok((
            "",
            AssemblerInstruction {
                opcode: Some(Token::Op { code: OpCode::LOAD }),
                label: None,
                directive: None,
                operand1: Some(Token::Register { reg_num: 0 }),
                operand2: Some(Token::IntegerOperand { value: 100 }),
                operand3: None
            }
        ))
    );
}

#[test]
fn instruction_parsers_test_parse_instruction_ok() {
    let result = instruction("load $1 #200");
    assert!(result.is_ok());
    let (_, instruction) = result.unwrap();
    assert_eq!(Token::Op { code: OpCode::LOAD }, instruction.opcode.unwrap());
    assert_eq!(Some(Token::Register { reg_num: 1 }), instruction.operand1);
    assert_eq!(Some(Token::IntegerOperand { value: 200 }), instruction.operand2);
    assert_eq!(None, instruction.operand3);
}

#[test]
fn instruction_parsers_test_to_bytes() {
    let result = instruction("load $1 #500");
    assert!(result.is_ok());
    let (_, instr) = result.unwrap();
    let bytes = instr.to_bytes().unwrap();
    assert_eq!(4, bytes.len());
    assert_eq!(0, bytes[0]);
    assert_eq!(1, bytes[1]);
    assert_eq!(1, bytes[2]);
    assert_eq!(244, bytes[3]);
}

#[test]
fn instruction_parsers_test_parse_instruction_form_one() {
    let result = instruction("load $0 #100\n");
    assert_eq!(
        result,
        Ok((
            "",
            AssemblerInstruction {
                label: None,
                directive: None,
                opcode: Some(Token::Op { code: OpCode::LOAD }),
                operand1: Some(Token::Register { reg_num: 0 }),
                operand2: Some(Token::IntegerOperand { value: 100 }),
                operand3: None
            }
        ))
    );
}

#[test]
fn test_parse_add() {
    let result = instruction("add $0 $1 $2");
    assert_eq!(
        Ok((
            "",
            AssemblerInstruction {
                label: None,
                directive: None,
                opcode: Some(Token::Op { code: OpCode::ADD }),
                operand1: Some(Token::Register { reg_num: 0 }),
                operand2: Some(Token::Register { reg_num: 1 }),
                operand3: Some(Token::Register { reg_num: 2 })
            }
        )),
        result
    );
}

#[test]
fn test_parse_hlt() {
    let result = instruction("hlt    \n");
    assert!(result.is_ok());
    let (_, ins) = result.unwrap();
    assert_eq!(
        AssemblerInstruction {
            label: None,
            directive: None,
            opcode: Some(Token::Op { code: OpCode::HLT }),
            operand1: None,
            operand2: None,
            operand3: None
        },
        ins
    );
}

#[test]
fn test_op_load_nok() {
    let result = opcode("1load1");
    assert!(!result.is_ok());
}

#[test]
fn test_op_load_ok() {
    let result = opcode("load");
    assert_eq!(result.is_ok(), true);
    let (rest, token) = result.unwrap();
    assert_eq!("", rest);
    assert_eq!(Token::Op { code: OpCode::LOAD }, token);

    // mnemonics are case sensitive
    let result = opcode("LOAD");
    assert!(result.is_ok());
    let (_, token) = result.unwrap();
    assert_eq!(Token::Op { code: OpCode::IGL }, token);
}

#[test]
fn test_op_illegal() {
    let result = opcode("lol");
    assert!(result.is_ok());
    let (_, token) = result.unwrap();
    assert_eq!(Token::Op { code: OpCode::IGL }, token);
}

#[test]
fn test_parse_int_operand_nok() {
    let result = int_operand("100");
    assert!(!result.is_ok());

    let result = int_operand("#abc");
    assert!(!result.is_ok());
}

#[test]
fn test_parse_int_operand_ok() {
    let result = int_operand("#200");
    assert!(result.is_ok());
    let (rest, token) = result.unwrap();
    assert_eq!("", rest);
    assert_eq!(Token::IntegerOperand { value: 200 }, token);
}

#[test]
fn test_parse_program_ok() {
    let result = program("load $1 #200 load $5 #1");
    assert!(result.is_ok());
    let (_, prog) = result.unwrap();
    assert_eq!(2, prog.instructions.len());
}

#[test]
fn test_program_to_bytes() {
    let result = program("load $1 #500");
    assert!(result.is_ok());
    let (_, prog) = result.unwrap();
    let bytes = prog.to_bytes().unwrap();
    assert_eq!(4, bytes.len());
    assert_eq!(0, bytes[0]);
    assert_eq!(1, bytes[1]);
    assert_eq!(1, bytes[2]);
    assert_eq!(244, bytes[3]);
}

#[test]
fn test_register_nok() {
    let result = register("20");
    assert!(!result.is_ok());
    let result = register("$a");
    assert!(!result.is_ok());
}

#[test]
fn test_register_ok() {
    let result = register("$20");
    assert!(result.is_ok());
    let (rest, token) = result.unwrap();
    assert_eq!("", rest);
    assert_eq!(Token::Register { reg_num: 20 }, token);
}

#[test]
fn fn_test_from() {
    let result = OpCode::from("load");
    assert_eq!(OpCode::LOAD, result);
}

fn bare(opcode: Option<Token>, o1: Option<Token>, o2: Option<Token>, o3: Option<Token>) -> AssemblerInstruction {
    AssemblerInstruction { opcode, label: None, directive: None, operand1: o1, operand2: o2, operand3: o3 }
}

#[test]
fn every_mnemonic_names_its_opcode() {
    let words = [
        "load", "add", "sub", "mul", "div", "hlt", "jmp", "jmpf", "jmpb", "eq", "neq", "gt", "lt",
        "gte", "lte", "jeq", "jneq", "aloc", "inc", "dec",
    ];
    for (code, word) in words.iter().enumerate() {
        assert_eq!(OpCode::from(code as u8), OpCode::from(*word));
    }
    assert_eq!(OpCode::IGL, OpCode::from("igl"));
    assert_eq!(OpCode::IGL, OpCode::from(""));
}

#[test]
fn opcode_stops_at_non_letters() {
    assert_eq!(Ok((" $1", Token::Op { code: OpCode::JMP })), opcode("jmp $1"));
}

#[test]
fn register_above_255_is_rejected() {
    assert_eq!(Err(ParseError::Unexpected), register("$256"));
    assert_eq!(Ok(("", Token::Register { reg_num: 255 })), register("$255"));
}

#[test]
fn register_skips_surrounding_whitespace() {
    assert_eq!(Ok(("x", Token::Register { reg_num: 7 })), register(" \t$7\n x"));
}

#[test]
fn int_operand_bounds() {
    assert_eq!(
        Ok(("", Token::IntegerOperand { value: 2147483647 })),
        int_operand("#2147483647")
    );
    assert_eq!(Err(ParseError::Unexpected), int_operand("#2147483648"));
}

#[test]
fn operand_takes_integer_or_register() {
    assert_eq!(Ok(("", Token::IntegerOperand { value: 9 })), operand("#9"));
    assert_eq!(Ok(("", Token::Register { reg_num: 9 })), operand("$9"));
    assert_eq!(Err(ParseError::Unexpected), operand("9"));
}

#[test]
fn non_ascii_text_is_rejected() {
    assert_eq!(Err(ParseError::NotAscii), opcode("lööp"));
    assert_eq!(Err(ParseError::NotAscii), program("load $1 #2 é").map(|_| ()));
}

#[test]
fn directive_parses_name_and_operands() {
    let (rest, ins) = instruction(".asciiz #3 $4").unwrap();
    assert_eq!("", rest);
    assert_eq!(None, ins.opcode);
    assert_eq!(Some(Token::Directive { name: "asciiz".to_string() }), ins.directive);
    assert_eq!(Some(Token::IntegerOperand { value: 3 }), ins.operand1);
    assert_eq!(Some(Token::Register { reg_num: 4 }), ins.operand2);
    assert_eq!(None, ins.operand3);
}

#[test]
fn program_stops_where_instructions_stop() {
    let (rest, prog) = program("hlt load $1 #2").unwrap();
    assert_eq!(1, prog.instructions.len());
    assert_eq!(" load $1 #2", rest);
    assert!(program("$1").is_err());
}

#[test]
fn program_bytes_are_four_per_instruction() {
    let (_, prog) = program("load $1 #500 add $1 $2 $3 hlt").unwrap();
    assert_eq!(
        vec![0, 1, 1, 244, 1, 1, 2, 3, 5, 0, 0, 0],
        prog.to_bytes().unwrap()
    );
}

#[test]
fn encoding_without_opcode_fails() {
    let (_, ins) = instruction(".data").unwrap();
    assert_eq!(Err(EncodeError::MissingOpcode), ins.to_bytes());
    let prog = Program { instructions: vec![ins] };
    assert_eq!(Err(EncodeError::MissingOpcode), prog.to_bytes());
}

#[test]
fn encoding_unresolved_label_fails() {
    let ins = bare(
        Some(Token::Op { code: OpCode::JMP }),
        Some(Token::LabelUsage { name: "start".to_string() }),
        None,
        None,
    );
    assert_eq!(Err(EncodeError::UnsupportedOperand), ins.to_bytes());
}

#[test]
fn encoding_past_four_bytes_fails() {
    let (_, ins) = instruction("load $1 #500 #600").unwrap();
    assert_eq!(Err(EncodeError::TooLong), ins.to_bytes());
}

#[test]
fn encoding_pads_to_four_bytes() {
    let none = bare(Some(Token::Op { code: OpCode::HLT }), None, None, None);
    assert_eq!(vec![5, 0, 0, 0], none.to_bytes().unwrap());
    let one = bare(Some(Token::Op { code: OpCode::INC }), Some(Token::Register { reg_num: 3 }), None, None);
    assert_eq!(vec![18, 3, 0, 0], one.to_bytes().unwrap());
    let three = bare(
        Some(Token::Op { code: OpCode::EQ }),
        Some(Token::Register { reg_num: 1 }),
        Some(Token::Register { reg_num: 2 }),
        Some(Token::Register { reg_num: 3 }),
    );
    assert_eq!(vec![9, 1, 2, 3], three.to_bytes().unwrap());
}

#[test]
fn integer_operand_keeps_low_word() {
    assert_eq!(0xffff, word_of(-1));
    assert_eq!(0x1234, word_of(0x5_1234));
    let ins = bare(
        Some(Token::Op { code: OpCode::LOAD }),
        Some(Token::Register { reg_num: 2 }),
        Some(Token::IntegerOperand { value: -2 }),
        None,
    );
    assert_eq!(vec![0, 2, 0xff, 0xfe], ins.to_bytes().unwrap());
}

#[test]
fn load_round_trips_through_the_engine() {
    for (reg, value) in [(0u8, 0u16), (5, 1000), (31, 65535), (17, 256)] {
        let ins = bare(
            Some(Token::Op { code: OpCode::LOAD }),
            Some(Token::Register { reg_num: reg }),
            Some(Token::IntegerOperand { value: value as i32 }),
            None,
        );
        let mut vm = VM::new();
        vm.program = ins.to_bytes().unwrap();
        assert_eq!(Status::Running, vm.run_once());
        assert_eq!(value as i32, vm.registers[reg as usize]);
        assert_eq!(4, vm.pc);
    }
}
