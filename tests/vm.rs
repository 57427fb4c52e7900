use iridium::instruction::OpCode;
use iridium::vm::{Fault, FaultKind, Halt, Status, VM};

fn get_vm() -> VM {
    VM::new()
}

#[test]
fn create_vm() {
    let test_vm = get_vm();
    assert_eq!(0, test_vm.registers[0]);
    assert_eq!(0, test_vm.pc);
}

#[test]
fn test_opcode_hlt() {
    let mut test_vm = get_vm();
    let test_code = vec![OpCode::HLT as u8, 0, 0, 0];
    test_vm.program = test_code;
    test_vm.run_once();
    assert_eq!(1, test_vm.pc);
}

#[test]
fn test_opcode_ilg() {
    let mut test_vm = get_vm();
    let test_code = vec![254, 0, 0, 0];
    test_vm.program = test_code;
    test_vm.run_once();
    assert_eq!(1, test_vm.pc);
}

#[test]
fn test_load_opcode() {
    let mut test_vm = get_vm();
    // 1000 is 3 * 256 + 232
    let test_code = vec![OpCode::LOAD as u8, 0, 3, 232];
    test_vm.program = test_code;
    test_vm.run_once();
    assert_eq!(1000, test_vm.registers[0]);
}

#[test]
fn test_add_opcode() {
    let mut test_vm = get_vm();
    let test_code = vec![OpCode::ADD as u8, 10, 15, 0];
    test_vm.program = test_code;
    test_vm.run_once();
    assert_eq!(25, test_vm.registers[0]);
}

#[test]
fn test_sub_opcode() {
    let mut test_vm = get_vm();
    let test_code = vec![OpCode::SUB as u8, 10, 15, 0];
    test_vm.program = test_code;
    test_vm.run_once();
    assert_eq!(-5, test_vm.registers[0]);
}

#[test]
fn test_mul_opcode() {
    let mut test_vm = get_vm();
    let test_code = vec![OpCode::MUL as u8, 10, 15, 0];
    test_vm.program = test_code;
    test_vm.run_once();
    assert_eq!(150, test_vm.registers[0]);
}

#[test]
fn test_div_opcode() {
    let mut test_vm = get_vm();
    let test_code = vec![OpCode::DIV as u8, 17, 4, 0];
    test_vm.program = test_code;
    test_vm.run_once();
    assert_eq!(4, test_vm.registers[0]);
    assert_eq!(1, test_vm.remainder);
}

#[test]
fn test_jmp_opcode() {
    let mut test_vm = get_vm();
    test_vm.registers[0] = 10;
    let test_code = vec![OpCode::JMP as u8, 0, 0, 0];
    test_vm.program = test_code;
    test_vm.run_once();
    assert_eq!(10, test_vm.pc);
}

#[test]
fn test_jmpf_opcode() {
    let mut test_vm = get_vm();
    test_vm.registers[0] = 2;
    let test_code = vec![OpCode::JMPF as u8, 0, 0, 0, OpCode::HLT as u8, 0, 0, 0];
    test_vm.program = test_code;
    test_vm.run_once();
    assert_eq!(4, test_vm.pc);
}

#[test]
fn test_jmpb_opcode() {
    let mut test_vm = get_vm();
    test_vm.registers[0] = 2;
    let test_code = vec![OpCode::JMPB as u8, 0, 0, 0];
    test_vm.program = test_code;
    test_vm.run_once();
    assert_eq!(0, test_vm.pc);
}

#[test]
fn test_eq_opcode() {
    let mut test_vm = get_vm();
    test_vm.registers[0] = 2;
    test_vm.registers[1] = 2;
    test_vm.registers[2] = 2;
    test_vm.registers[3] = 3;
    let test_code = vec![OpCode::EQ as u8, 0, 1, 0, OpCode::EQ as u8, 2, 3, 0];
    test_vm.program = test_code;
    test_vm.run_once();
    assert!(test_vm.equal_flag);
    test_vm.run_once();
    assert!(!test_vm.equal_flag);
}

#[test]
fn test_neq_opcode() {
    let mut test_vm = get_vm();
    test_vm.registers[0] = 0;
    test_vm.registers[1] = 3;
    test_vm.registers[2] = 0;
    test_vm.registers[3] = 0;
    let test_code = vec![OpCode::NEQ as u8, 0, 1, 0, OpCode::NEQ as u8, 2, 3, 0];
    test_vm.program = test_code;
    test_vm.run_once();
    assert!(test_vm.equal_flag);
    test_vm.run_once();
    assert!(!test_vm.equal_flag);
}

#[test]
fn test_gt_opcode() {
    let code = OpCode::GT as u8;
    let mut test_vm = get_vm();
    test_vm.registers[0] = 3;
    test_vm.registers[1] = 0;
    test_vm.registers[2] = 0;
    test_vm.registers[3] = 2;
    let test_code = vec![code, 0, 1, 0, code, 2, 3, 0];
    test_vm.program = test_code;
    test_vm.run_once();
    assert!(test_vm.equal_flag);
    test_vm.run_once();
    assert!(!test_vm.equal_flag);
}

#[test]
fn test_lt_opcode() {
    let code = OpCode::LT as u8;
    let mut test_vm = get_vm();
    test_vm.registers[0] = 0;
    test_vm.registers[1] = 3;
    test_vm.registers[2] = 2;
    test_vm.registers[3] = 0;
    let test_code = vec![code, 0, 1, 0, code, 2, 3, 0];
    test_vm.program = test_code;
    test_vm.run_once();
    assert!(test_vm.equal_flag);
    test_vm.run_once();
    assert!(!test_vm.equal_flag);
}

#[test]
fn test_gte_opcode() {
    let code = OpCode::GTE as u8;
    let mut test_vm = get_vm();
    test_vm.registers[0] = 3;
    test_vm.registers[1] = 0;
    test_vm.registers[2] = 0;
    test_vm.registers[3] = 3;
    let test_code = vec![code, 0, 1, 0, code, 0, 1, 0, code, 2, 3, 0];
    test_vm.program = test_code;
    test_vm.run_once();
    assert!(test_vm.equal_flag);
    test_vm.registers[1] = 3;
    test_vm.run_once();
    assert!(test_vm.equal_flag);
    test_vm.run_once();
    assert!(!test_vm.equal_flag);
}

#[test]
fn test_lte_opcode() {
    let code = OpCode::LTE as u8;
    let mut test_vm = get_vm();
    test_vm.registers[0] = 0;
    test_vm.registers[1] = 3;
    test_vm.registers[2] = 3;
    test_vm.registers[3] = 0;
    let test_code = vec![code, 0, 1, 0, code, 0, 1, 0, code, 2, 3, 0];
    test_vm.program = test_code;
    test_vm.run_once();
    assert!(test_vm.equal_flag);
    test_vm.registers[0] = 3;
    test_vm.run_once();
    assert!(test_vm.equal_flag);
    test_vm.run_once();
    assert!(!test_vm.equal_flag);
}

#[test]
fn test_jeq_opcode() {
    let mut test_vm = get_vm();
    test_vm.registers[0] = 10;
    test_vm.equal_flag = true;
    let test_code = vec![OpCode::JEQ as u8, 0, 0, 0];
    test_vm.program = test_code;
    test_vm.run_once();
    assert_eq!(10, test_vm.pc);
}

#[test]
fn test_jneq_opcode() {
    let mut test_vm = get_vm();
    test_vm.registers[0] = 10;
    test_vm.equal_flag = false;
    let test_code = vec![OpCode::JNEQ as u8, 0, 0, 0];
    test_vm.program = test_code;
    test_vm.run_once();
    assert_eq!(10, test_vm.pc);
}

#[test]
fn test_aloc_opcode() {
    let mut test_vm = get_vm();
    test_vm.heap.resize(512, 0);
    test_vm.registers[0] = 512;
    let test_code = vec![OpCode::ALOC as u8, 0, 0, 0];
    test_vm.program = test_code;
    test_vm.run_once();
    assert_eq!(1024, test_vm.heap.len());
}

#[test]
fn test_inc_opcode() {
    let mut test_vm = get_vm();
    test_vm.registers[0] = 10;
    let test_code = vec![OpCode::INC as u8, 0, 0, 0];
    test_vm.program = test_code;
    test_vm.run_once();
    assert_eq!(11, test_vm.registers[0]);
}

#[test]
fn test_dec_opcode() {
    let mut test_vm = get_vm();
    test_vm.registers[0] = 10;
    let test_code = vec![OpCode::DEC as u8, 0, 0, 0];
    test_vm.program = test_code;
    test_vm.run_once();
    assert_eq!(9, test_vm.registers[0]);
}

fn fault_of(status: Status) -> FaultKind {
    match status {
        Status::Faulted(f) => f.kind,
        other => panic!("expected a fault, got {:?}", other),
    }
}

#[test]
fn new_vm_is_ready_and_empty() {
    let vm = VM::new();
    assert_eq!(Status::Ready, vm.status);
    assert_eq!([0i32; 32], vm.registers);
    assert!(vm.program.is_empty());
    assert!(vm.heap.is_empty());
    assert_eq!(0, vm.remainder);
    assert!(!vm.equal_flag);
}

#[test]
fn add_ignores_register_contents() {
    let mut vm = get_vm();
    vm.registers[10] = 1000;
    vm.registers[15] = -7;
    vm.program = vec![OpCode::ADD as u8, 10, 15, 0];
    assert_eq!(Status::Running, vm.run_once());
    assert_eq!(25, vm.registers[0]);
    assert_eq!(4, vm.pc);
}

#[test]
fn mul_of_largest_bytes() {
    let mut vm = get_vm();
    vm.program = vec![OpCode::MUL as u8, 255, 255, 31];
    vm.run_once();
    assert_eq!(65025, vm.registers[31]);
}

#[test]
fn div_sets_quotient_and_remainder() {
    let mut vm = get_vm();
    vm.program = vec![OpCode::DIV as u8, 17, 4, 5];
    vm.run_once();
    assert_eq!(4, vm.registers[5]);
    assert_eq!(1, vm.remainder);
}

#[test]
fn div_by_zero_faults() {
    let mut vm = get_vm();
    vm.program = vec![OpCode::DIV as u8, 17, 0, 0];
    let status = vm.run_once();
    assert_eq!(
        Status::Faulted(Fault { kind: FaultKind::DivideByZero, opcode: OpCode::DIV, pc: 0 }),
        status
    );
    assert_eq!([0i32; 32], vm.registers);
    assert_eq!(0, vm.remainder);
}

#[test]
fn eq_reads_register_contents() {
    let mut vm = get_vm();
    vm.registers[0] = 2;
    vm.registers[1] = 2;
    vm.registers[2] = 2;
    vm.registers[3] = 3;
    vm.program = vec![OpCode::EQ as u8, 0, 1, 0, OpCode::EQ as u8, 2, 3, 0];
    vm.run_once();
    assert!(vm.equal_flag);
    assert_eq!(4, vm.pc);
    vm.run_once();
    assert!(!vm.equal_flag);
    assert_eq!(8, vm.pc);
}

#[test]
fn load_widest_word() {
    let mut vm = get_vm();
    vm.program = vec![OpCode::LOAD as u8, 31, 255, 255];
    vm.run_once();
    assert_eq!(65535, vm.registers[31]);
}

#[test]
fn bad_register_faults() {
    let mut vm = get_vm();
    vm.program = vec![OpCode::LOAD as u8, 32, 0, 1];
    let status = vm.run_once();
    assert_eq!(
        Status::Faulted(Fault { kind: FaultKind::BadRegister(32), opcode: OpCode::LOAD, pc: 0 }),
        status
    );
    assert_eq!([0i32; 32], vm.registers);
}

#[test]
fn bad_destination_register_faults() {
    let mut vm = get_vm();
    vm.program = vec![OpCode::ADD as u8, 1, 2, 200];
    assert_eq!(FaultKind::BadRegister(200), fault_of(vm.run_once()));
}

#[test]
fn jmpb_underflow_faults() {
    let mut vm = get_vm();
    vm.registers[0] = 3;
    vm.program = vec![OpCode::JMPB as u8, 0, 0, 0];
    assert_eq!(FaultKind::PcUnderflow, fault_of(vm.run_once()));
    assert_eq!(2, vm.pc);
}

#[test]
fn jump_to_negative_target_faults() {
    let mut vm = get_vm();
    vm.registers[0] = -1;
    vm.program = vec![OpCode::JMP as u8, 0, 0, 0];
    assert_eq!(FaultKind::BadJumpTarget, fault_of(vm.run_once()));
}

#[test]
fn jeq_without_flag_falls_through() {
    let mut vm = get_vm();
    vm.registers[0] = 10;
    vm.program = vec![OpCode::JEQ as u8, 0, 0, 0];
    assert_eq!(Status::Running, vm.run_once());
    assert_eq!(2, vm.pc);
}

#[test]
fn jneq_with_flag_falls_through() {
    let mut vm = get_vm();
    vm.registers[0] = 10;
    vm.equal_flag = true;
    vm.program = vec![OpCode::JNEQ as u8, 0, 0, 0];
    vm.run_once();
    assert_eq!(2, vm.pc);
}

#[test]
fn aloc_zero_fills_new_heap() {
    let mut vm = get_vm();
    vm.heap = vec![7; 512];
    vm.registers[0] = 512;
    vm.program = vec![OpCode::ALOC as u8, 0, 0, 0];
    vm.run_once();
    assert_eq!(1024, vm.heap.len());
    assert!(vm.heap[..512].iter().all(|b| *b == 7));
    assert!(vm.heap[512..].iter().all(|b| *b == 0));
}

#[test]
fn aloc_negative_size_faults() {
    let mut vm = get_vm();
    vm.heap = vec![0; 16];
    vm.registers[0] = -4;
    vm.program = vec![OpCode::ALOC as u8, 0, 0, 0];
    assert_eq!(FaultKind::BadAllocation, fault_of(vm.run_once()));
    assert_eq!(16, vm.heap.len());
}

#[test]
fn inc_overflow_faults() {
    let mut vm = get_vm();
    vm.registers[0] = i32::MAX;
    vm.program = vec![OpCode::INC as u8, 0, 0, 0];
    assert_eq!(FaultKind::Overflow, fault_of(vm.run_once()));
    assert_eq!(i32::MAX, vm.registers[0]);
}

#[test]
fn dec_overflow_faults() {
    let mut vm = get_vm();
    vm.registers[0] = i32::MIN;
    vm.program = vec![OpCode::DEC as u8, 0, 0, 0];
    assert_eq!(FaultKind::Overflow, fault_of(vm.run_once()));
}

#[test]
fn truncated_instruction_faults() {
    let mut vm = get_vm();
    vm.program = vec![OpCode::LOAD as u8, 0, 1];
    let status = vm.run_once();
    assert_eq!(
        Status::Faulted(Fault { kind: FaultKind::Truncated, opcode: OpCode::LOAD, pc: 0 }),
        status
    );
    assert_eq!(1, vm.pc);
}

#[test]
fn illegal_opcode_faults_without_touching_registers() {
    let mut vm = get_vm();
    vm.registers[3] = 42;
    vm.program = vec![200];
    let status = vm.run();
    assert_eq!(
        Status::Faulted(Fault { kind: FaultKind::IllegalOpcode, opcode: OpCode::IGL, pc: 0 }),
        status
    );
    let mut expected = [0i32; 32];
    expected[3] = 42;
    assert_eq!(expected, vm.registers);
}

#[test]
fn run_stops_at_hlt() {
    let mut vm = get_vm();
    vm.program = vec![
        OpCode::LOAD as u8, 0, 0, 7,
        OpCode::HLT as u8, 0, 0, 0,
        OpCode::LOAD as u8, 0, 0, 9,
    ];
    assert_eq!(Status::Halted(Halt::Instruction), vm.run());
    assert_eq!(7, vm.registers[0]);
    assert_eq!(5, vm.pc);
}

#[test]
fn run_without_hlt_ends_normally() {
    let mut vm = get_vm();
    vm.program = vec![
        OpCode::LOAD as u8, 0, 0, 7,
        OpCode::ADD as u8, 1, 2, 1,
        OpCode::EQ as u8, 0, 1, 0,
    ];
    assert_eq!(Status::Halted(Halt::EndOfProgram), vm.run());
    assert_eq!(7, vm.registers[0]);
    assert_eq!(3, vm.registers[1]);
    assert!(!vm.equal_flag);
    assert_eq!(12, vm.pc);
}

#[test]
fn narrow_instruction_reads_its_padding_as_code() {
    // INC fetches two bytes, so the zero padding after it is read as LOAD.
    let mut vm = get_vm();
    vm.program = vec![OpCode::INC as u8, 0, 0, 0, OpCode::INC as u8, 0, 0, 0];
    assert_eq!(FaultKind::Truncated, fault_of(vm.run()));
    assert_eq!(18 * 256, vm.registers[0]);
}

#[test]
fn halted_machine_stays_halted() {
    let mut vm = get_vm();
    vm.program = vec![OpCode::HLT as u8, 0, 0, 0];
    vm.run_once();
    vm.add_byte(OpCode::INC as u8);
    vm.add_byte(0);
    assert_eq!(Status::Halted(Halt::Instruction), vm.run_once());
    assert_eq!(1, vm.pc);
    assert_eq!(0, vm.registers[0]);
}

#[test]
fn program_grows_between_steps() {
    let mut vm = get_vm();
    for b in [OpCode::LOAD as u8, 2, 0, 5] {
        vm.add_byte(b);
    }
    vm.run_once();
    for b in [OpCode::INC as u8, 2, 0, 0] {
        vm.add_byte(b);
    }
    vm.run_once();
    assert_eq!(6, vm.registers[2]);
    assert_eq!(Status::Running, vm.status);
}
