//! The execution engine: machine state and the fetch-decode-execute cycle.
use vstd::prelude::*;

use crate::instruction::{code_of, opcode_of, OpCode};

verus! {

/// The most steps that `VM::run` takes before it returns.
pub const STEP_BUDGET: u64 = 0xffff_ffff_ffff_ffff;

/// Why the machine stopped normally.
#[derive(Debug, PartialEq, Eq, Structural, Clone, Copy)]
pub enum Halt {
    /// A `HLT` instruction was executed.
    Instruction,
    /// The program counter reached the end of the program.
    EndOfProgram,
}

/// What went wrong in a faulting instruction.
#[derive(Debug, PartialEq, Eq, Structural, Clone, Copy)]
pub enum FaultKind {
    /// The opcode byte names no operation.
    IllegalOpcode,
    /// The program ends before the instruction's operands do.
    Truncated,
    /// A register index past the register file.
    BadRegister(u8),
    /// A division by a zero magnitude.
    DivideByZero,
    /// A backward jump past the start of the program.
    PcUnderflow,
    /// A jump to a negative address, or forward past the addressable range.
    BadJumpTarget,
    /// An increment or decrement past the range of a register.
    Overflow,
    /// A heap allocation of a negative size, or past the addressable range.
    BadAllocation,
}

/// A fatal condition, with the opcode that raised it and the address of
/// that instruction.
#[derive(Debug, PartialEq, Eq, Structural, Clone, Copy)]
pub struct Fault {
    pub kind: FaultKind,
    pub opcode: OpCode,
    pub pc: usize,
}

/// Where the machine stands in its life cycle. `Halted` and `Faulted` are
/// terminal.
#[derive(Debug, PartialEq, Eq, Structural, Clone, Copy)]
pub enum Status {
    Ready,
    Running,
    Halted(Halt),
    Faulted(Fault),
}

pub open spec fn is_terminal(s: Status) -> bool {
    s is Halted || s is Faulted
}

/// The machine state as mathematical values.
pub struct Machine {
    pub registers: Seq<i32>,
    pub pc: usize,
    pub program: Seq<u8>,
    pub heap: Seq<u8>,
    pub remainder: u32,
    pub equal_flag: bool,
    pub status: Status,
}

/// How many bytes an instruction with this opcode occupies when it runs:
/// the opcode byte and the operand bytes its semantics fetch.
pub open spec fn width_of(op: OpCode) -> nat {
    match op {
        OpCode::HLT | OpCode::IGL => 1,
        OpCode::JMP | OpCode::JMPF | OpCode::JMPB | OpCode::JEQ | OpCode::JNEQ
        | OpCode::ALOC | OpCode::INC | OpCode::DEC => 2,
        _ => 4,
    }
}

pub open spec fn is_comparison(op: OpCode) -> bool {
    op == OpCode::EQ || op == OpCode::NEQ || op == OpCode::GT || op == OpCode::LT
        || op == OpCode::GTE || op == OpCode::LTE
}

/// The value of the comparison `op` on two register contents.
pub open spec fn compare(op: OpCode, a: i32, b: i32) -> bool {
    match op {
        OpCode::EQ => a == b,
        OpCode::NEQ => a != b,
        OpCode::GT => a > b,
        OpCode::LT => a < b,
        OpCode::GTE => a >= b,
        _ => a <= b,
    }
}

/// The value that `ADD`, `SUB` or `MUL` computes from two raw operand bytes.
pub open spec fn arith(op: OpCode, a: u8, b: u8) -> int {
    match op {
        OpCode::ADD => a + b,
        OpCode::SUB => a - b,
        _ => a * b,
    }
}

/// The state after a fault raised by opcode `op` at address `start`, with
/// the program counter left at `pc`. Nothing else changes.
pub open spec fn faulted(m: Machine, kind: FaultKind, op: OpCode, start: usize, pc: int) -> Machine {
    Machine {
        pc: pc as usize,
        status: Status::Faulted(Fault { kind, opcode: op, pc: start }),
        ..m
    }
}

/// The state after an instruction that completed, with the program counter
/// at `pc`.
pub open spec fn running(m: Machine, pc: int) -> Machine {
    Machine { pc: pc as usize, status: Status::Running, ..m }
}

/// Execution of the instruction whose operands are fully present, starting at
/// `m.pc`. Raw operand bytes are `b1`, `b2` and `b3`; `next` is the address
/// just past the instruction.
pub open spec fn execute(m: Machine, op: OpCode) -> Machine {
    let start = m.pc;
    let b1 = m.program[start + 1];
    let b2 = m.program[start + 2];
    let b3 = m.program[start + 3];
    let next = start + width_of(op);
    let bad_reg = |r: u8| faulted(m, FaultKind::BadRegister(r), op, start, next);
    match op {
        OpCode::LOAD => if b1 >= 32 {
            bad_reg(b1)
        } else {
            Machine {
                registers: m.registers.update(b1 as int, (b2 * 256 + b3) as i32),
                ..running(m, next)
            }
        },
        OpCode::ADD | OpCode::SUB | OpCode::MUL => if b3 >= 32 {
            bad_reg(b3)
        } else {
            Machine {
                registers: m.registers.update(b3 as int, arith(op, b1, b2) as i32),
                ..running(m, next)
            }
        },
        OpCode::DIV => if b2 == 0 {
            faulted(m, FaultKind::DivideByZero, op, start, next)
        } else if b3 >= 32 {
            bad_reg(b3)
        } else {
            Machine {
                registers: m.registers.update(b3 as int, (b1 / b2) as i32),
                remainder: (b1 % b2) as u32,
                ..running(m, next)
            }
        },
        OpCode::HLT => Machine {
            pc: next as usize,
            status: Status::Halted(Halt::Instruction),
            ..m
        },
        OpCode::JMP | OpCode::JMPF | OpCode::JMPB | OpCode::JEQ | OpCode::JNEQ => if b1 >= 32 {
            bad_reg(b1)
        } else {
            let target = m.registers[b1 as int];
            let jumps = match op {
                OpCode::JEQ => m.equal_flag,
                OpCode::JNEQ => !m.equal_flag,
                _ => true,
            };
            let dest = match op {
                OpCode::JMPF => next + target,
                OpCode::JMPB => next - target,
                _ => target as int,
            };
            if !jumps {
                running(m, next)
            } else if target < 0 || dest > usize::MAX {
                faulted(m, FaultKind::BadJumpTarget, op, start, next)
            } else if dest < 0 {
                faulted(m, FaultKind::PcUnderflow, op, start, next)
            } else {
                running(m, dest)
            }
        },
        OpCode::ALOC => if b1 >= 32 {
            bad_reg(b1)
        } else {
            let size = m.registers[b1 as int];
            if size < 0 || m.heap.len() + size > usize::MAX {
                faulted(m, FaultKind::BadAllocation, op, start, next)
            } else {
                Machine {
                    heap: m.heap + Seq::new(size as nat, |i: int| 0u8),
                    ..running(m, next)
                }
            }
        },
        OpCode::INC | OpCode::DEC => if b1 >= 32 {
            bad_reg(b1)
        } else {
            let v = m.registers[b1 as int] + if op == OpCode::INC { 1int } else { -1int };
            if v < i32::MIN || v > i32::MAX {
                faulted(m, FaultKind::Overflow, op, start, next)
            } else {
                Machine { registers: m.registers.update(b1 as int, v as i32), ..running(m, next) }
            }
        },
        _ => if b1 >= 32 {
            bad_reg(b1)
        } else if b2 >= 32 {
            bad_reg(b2)
        } else {
            Machine {
                equal_flag: compare(op, m.registers[b1 as int], m.registers[b2 as int]),
                ..running(m, next)
            }
        },
    }
}

/// One fetch-decode-execute cycle. A terminal machine stays as it is; one
/// whose counter is at or past the end of the program halts normally.
pub open spec fn step(m: Machine) -> Machine {
    if is_terminal(m.status) {
        m
    } else if m.pc >= m.program.len() {
        Machine { status: Status::Halted(Halt::EndOfProgram), ..m }
    } else {
        let op = opcode_of(m.program[m.pc as int]);
        if op == OpCode::IGL {
            faulted(m, FaultKind::IllegalOpcode, op, m.pc, m.pc + 1)
        } else if m.pc + width_of(op) > m.program.len() {
            faulted(m, FaultKind::Truncated, op, m.pc, m.pc + 1)
        } else {
            execute(m, op)
        }
    }
}

/// The state after at most `fuel` cycles, stopping at the first terminal one.
pub open spec fn run_steps(m: Machine, fuel: nat) -> Machine
    decreases fuel,
{
    if fuel == 0 || is_terminal(m.status) {
        m
    } else {
        run_steps(step(m), (fuel - 1) as nat)
    }
}

/// A register machine with its program, heap and flags.
#[derive(Debug)]
pub struct VM {
    pub registers: [i32; 32],
    pub pc: usize,
    pub program: Vec<u8>,
    pub heap: Vec<u8>,
    pub remainder: u32,
    pub equal_flag: bool,
    pub status: Status,
}

impl View for VM {
    type V = Machine;

    open spec fn view(&self) -> Machine {
        Machine {
            registers: self.registers@,
            pc: self.pc,
            program: self.program@,
            heap: self.heap@,
            remainder: self.remainder,
            equal_flag: self.equal_flag,
            status: self.status,
        }
    }
}

/// How many bytes an instruction with this opcode occupies when it runs.
fn width(op: OpCode) -> (r: usize)
    ensures
        r == width_of(op),
{
    match op {
        OpCode::HLT | OpCode::IGL => 1,
        OpCode::JMP | OpCode::JMPF | OpCode::JMPB | OpCode::JEQ | OpCode::JNEQ
        | OpCode::ALOC | OpCode::INC | OpCode::DEC => 2,
        _ => 4,
    }
}

impl VM {
    /// The state of a new machine: zeroed registers, counter and remainder,
    /// no program, an empty heap, the flag down.
    pub open spec fn new_state() -> Machine {
        Machine {
            registers: Seq::new(32, |i: int| 0i32),
            pc: 0,
            program: Seq::empty(),
            heap: Seq::empty(),
            remainder: 0,
            equal_flag: false,
            status: Status::Ready,
        }
    }

    /// A machine with zeroed registers, an empty program and an empty heap.
    pub fn new() -> (r: VM)
        ensures
            r@ == VM::new_state(),
    {
        let r = VM {
            registers: [0i32; 32],
            pc: 0,
            program: Vec::new(),
            heap: Vec::new(),
            remainder: 0,
            equal_flag: false,
            status: Status::Ready,
        };
        assert(r@.registers =~= Seq::new(32, |i: int| 0i32));
        assert(r@.program =~= Seq::<u8>::empty());
        assert(r@.heap =~= Seq::<u8>::empty());
        r
    }

    /// Performs one cycle and reports the status after it. A halted or
    /// faulted machine is left as it is.
    pub fn run_once(&mut self) -> (r: Status)
        ensures
            final(self)@ == step(old(self)@),
            r == final(self)@.status,
    {
        self.execute_instruction()
    }

    /// Runs cycles until the machine halts or faults, and reports how it
    /// stopped. It gives up after `STEP_BUDGET` cycles, a bound that no
    /// real execution reaches; the status then is still `Running`.
    pub fn run(&mut self) -> (r: Status)
        ensures
            final(self)@ == run_steps(old(self)@, STEP_BUDGET as nat),
            r == final(self)@.status,
    {
        let mut fuel: u64 = STEP_BUDGET;
        loop
            invariant
                run_steps(self@, fuel as nat) == run_steps(old(self)@, STEP_BUDGET as nat),
            decreases fuel,
        {
            let done = match self.status {
                Status::Halted(_) | Status::Faulted(_) => true,
                _ => false,
            };
            if fuel == 0 || done {
                return self.status;
            }
            self.execute_instruction();
            fuel = fuel - 1;
        }
    }

    /// Appends one byte to the program.
    pub fn add_byte(&mut self, byte: u8)
        ensures
            final(self)@ == (Machine { program: old(self)@.program.push(byte), ..old(self)@ }),
    {
        self.program.push(byte);
    }

    /// Reads the opcode at the program counter and moves past it.
    fn decode_opcode(&mut self) -> (r: OpCode)
        requires
            old(self).pc < old(self).program.len(),
        ensures
            r == opcode_of(old(self).program@[old(self).pc as int]),
            final(self)@ == (Machine { pc: (old(self).pc + 1) as usize, ..old(self)@ }),
    {
        let opcode = OpCode::from(self.program[self.pc]);
        self.pc += 1;
        opcode
    }

    /// Reads the byte at the program counter and moves past it.
    fn next_8_bits(&mut self) -> (r: u8)
        requires
            old(self).pc < old(self).program.len(),
        ensures
            r == old(self).program@[old(self).pc as int],
            final(self)@ == (Machine { pc: (old(self).pc + 1) as usize, ..old(self)@ }),
    {
        let result = self.program[self.pc];
        self.pc += 1;
        result
    }

    /// Reads the two bytes at the program counter as a big-endian word and
    /// moves past them.
    fn next_16_bits(&mut self) -> (r: u16)
        requires
            old(self).pc + 1 < old(self).program.len(),
        ensures
            r == old(self).program@[old(self).pc as int] * 256 + old(self).program@[old(self).pc + 1],
            final(self)@ == (Machine { pc: (old(self).pc + 2) as usize, ..old(self)@ }),
    {
        let hi = self.program[self.pc] as u16;
        let lo = self.program[self.pc + 1] as u16;
        let result = hi * 256 + lo;
        self.pc += 2;
        result
    }

    /// Grows the heap by `size` zero bytes.
    fn grow_heap(&mut self, size: usize)
        requires
            old(self).heap.len() + size <= usize::MAX,
        ensures
            final(self)@ == (Machine {
                heap: old(self)@.heap + Seq::new(size as nat, |i: int| 0u8),
                ..old(self)@
            }),
    {
        let new_len = self.heap.len() + size;
        self.heap.resize(new_len, 0u8);
        assert(self.heap@ =~= old(self)@.heap + Seq::new(size as nat, |i: int| 0u8));
    }

    /// `LOAD reg, imm16`: the register takes the word's value.
    fn execute_load(&mut self, op: OpCode, start: usize) -> (r: Status)
        requires
            old(self).pc == start + 1,
            start + width_of(op) <= old(self).program.len(),
            !is_terminal(old(self).status),
            op == OpCode::LOAD,
        ensures
            final(self)@ == execute(Machine { pc: start, ..old(self)@ }, op),
            r == final(self).status,
    {
        let register = self.next_8_bits();
        let number = self.next_16_bits();
        if register >= 32 {
            return self.fault(FaultKind::BadRegister(register), op, start);
        }
        self.registers[register as usize] = number as i32;
        self.status = Status::Running;
        self.status
    }

    /// `ADD`, `SUB`, `MUL` and `DIV` on the two raw operand bytes.
    fn execute_arith(&mut self, op: OpCode, start: usize) -> (r: Status)
        requires
            old(self).pc == start + 1,
            start + width_of(op) <= old(self).program.len(),
            !is_terminal(old(self).status),
            op == OpCode::ADD || op == OpCode::SUB || op == OpCode::MUL || op == OpCode::DIV,
        ensures
            final(self)@ == execute(Machine { pc: start, ..old(self)@ }, op),
            r == final(self).status,
    {
        let a = self.next_8_bits();
        let b = self.next_8_bits();
        let dest = self.next_8_bits();
        if op == OpCode::DIV && b == 0 {
            return self.fault(FaultKind::DivideByZero, op, start);
        }
        if dest >= 32 {
            return self.fault(FaultKind::BadRegister(dest), op, start);
        }
        if op == OpCode::DIV {
            self.registers[dest as usize] = (a / b) as i32;
            self.remainder = (a % b) as u32;
        } else {
            assert(0 <= (a as int) * (b as int) <= 255 * 255) by (nonlinear_arith)
                requires
                    a <= 255,
                    b <= 255,
            ;
            let value: i32 = match op {
                OpCode::ADD => a as i32 + b as i32,
                OpCode::SUB => a as i32 - b as i32,
                _ => a as i32 * b as i32,
            };
            self.registers[dest as usize] = value;
        }
        self.status = Status::Running;
        self.status
    }

    /// The absolute, relative and conditional jumps through a register.
    fn execute_jump(&mut self, op: OpCode, start: usize) -> (r: Status)
        requires
            old(self).pc == start + 1,
            start + width_of(op) <= old(self).program.len(),
            !is_terminal(old(self).status),
            op == OpCode::JMP || op == OpCode::JMPF || op == OpCode::JMPB || op == OpCode::JEQ || op == OpCode::JNEQ,
        ensures
            final(self)@ == execute(Machine { pc: start, ..old(self)@ }, op),
            r == final(self).status,
    {
        let register = self.next_8_bits();
        if register >= 32 {
            return self.fault(FaultKind::BadRegister(register), op, start);
        }
        let target = self.registers[register as usize];
        let jumps = match op {
            OpCode::JEQ => self.equal_flag,
            OpCode::JNEQ => !self.equal_flag,
            _ => true,
        };
        if jumps {
            if target < 0 {
                return self.fault(FaultKind::BadJumpTarget, op, start);
            }
            let offset = target as usize;
            match op {
                OpCode::JMPF => {
                    if self.pc > usize::MAX - offset {
                        return self.fault(FaultKind::BadJumpTarget, op, start);
                    }
                    self.pc = self.pc + offset;
                },
                OpCode::JMPB => {
                    if offset > self.pc {
                        return self.fault(FaultKind::PcUnderflow, op, start);
                    }
                    self.pc = self.pc - offset;
                },
                _ => {
                    self.pc = offset;
                },
            }
        }
        self.status = Status::Running;
        self.status
    }

    /// `ALOC reg`: the heap grows by the register's value in zero bytes.
    fn execute_aloc(&mut self, op: OpCode, start: usize) -> (r: Status)
        requires
            old(self).pc == start + 1,
            start + width_of(op) <= old(self).program.len(),
            !is_terminal(old(self).status),
            op == OpCode::ALOC,
        ensures
            final(self)@ == execute(Machine { pc: start, ..old(self)@ }, op),
            r == final(self).status,
    {
        let register = self.next_8_bits();
        if register >= 32 {
            return self.fault(FaultKind::BadRegister(register), op, start);
        }
        let size = self.registers[register as usize];
        if size < 0 || self.heap.len() > usize::MAX - size as usize {
            return self.fault(FaultKind::BadAllocation, op, start);
        }
        self.grow_heap(size as usize);
        self.status = Status::Running;
        self.status
    }

    /// `INC reg` and `DEC reg`.
    fn execute_inc_dec(&mut self, op: OpCode, start: usize) -> (r: Status)
        requires
            old(self).pc == start + 1,
            start + width_of(op) <= old(self).program.len(),
            !is_terminal(old(self).status),
            op == OpCode::INC || op == OpCode::DEC,
        ensures
            final(self)@ == execute(Machine { pc: start, ..old(self)@ }, op),
            r == final(self).status,
    {
        let register = self.next_8_bits();
        if register >= 32 {
            return self.fault(FaultKind::BadRegister(register), op, start);
        }
        let value = self.registers[register as usize];
        if op == OpCode::INC {
            if value == i32::MAX {
                return self.fault(FaultKind::Overflow, op, start);
            }
            self.registers[register as usize] = value + 1;
        } else {
            if value == i32::MIN {
                return self.fault(FaultKind::Overflow, op, start);
            }
            self.registers[register as usize] = value - 1;
        }
        self.status = Status::Running;
        self.status
    }

    /// The comparisons: the flag takes the comparison of two registers' contents.
    fn execute_compare(&mut self, op: OpCode, start: usize) -> (r: Status)
        requires
            old(self).pc == start + 1,
            start + width_of(op) <= old(self).program.len(),
            !is_terminal(old(self).status),
            is_comparison(op),
        ensures
            final(self)@ == execute(Machine { pc: start, ..old(self)@ }, op),
            r == final(self).status,
    {
        let first = self.next_8_bits();
        let second = self.next_8_bits();
        self.next_8_bits();
        if first >= 32 {
            return self.fault(FaultKind::BadRegister(first), op, start);
        }
        if second >= 32 {
            return self.fault(FaultKind::BadRegister(second), op, start);
        }
        let a = self.registers[first as usize];
        let b = self.registers[second as usize];
        self.equal_flag = match op {
            OpCode::EQ => a == b,
            OpCode::NEQ => a != b,
            OpCode::GT => a > b,
            OpCode::LT => a < b,
            OpCode::GTE => a >= b,
            _ => a <= b,
        };
        self.status = Status::Running;
        self.status
    }

    /// Performs one fetch-decode-execute cycle and reports the status after it.
    fn execute_instruction(&mut self) -> (r: Status)
        ensures
            final(self)@ == step(old(self)@),
            r == final(self).status,
    {
        match self.status {
            Status::Halted(_) | Status::Faulted(_) => {
                return self.status;
            },
            _ => {},
        }
        if self.pc >= self.program.len() {
            self.status = Status::Halted(Halt::EndOfProgram);
            return self.status;
        }
        let start = self.pc;
        let op = self.decode_opcode();
        if op == OpCode::IGL {
            return self.fault(FaultKind::IllegalOpcode, op, start);
        }
        if self.program.len() - start < width(op) {
            return self.fault(FaultKind::Truncated, op, start);
        }
        match op {
            OpCode::LOAD => self.execute_load(op, start),
            OpCode::ADD | OpCode::SUB | OpCode::MUL | OpCode::DIV => self.execute_arith(op, start),
            OpCode::HLT => {
                self.status = Status::Halted(Halt::Instruction);
                self.status
            },
            OpCode::JMP | OpCode::JMPF | OpCode::JMPB | OpCode::JEQ | OpCode::JNEQ => {
                self.execute_jump(op, start)
            },
            OpCode::ALOC => self.execute_aloc(op, start),
            OpCode::INC | OpCode::DEC => self.execute_inc_dec(op, start),
            _ => self.execute_compare(op, start),
        }
    }

    /// Records a fault raised by `op` at address `start`.
    fn fault(&mut self, kind: FaultKind, op: OpCode, start: usize) -> (r: Status)
        ensures
            final(self)@ == (Machine {
                status: Status::Faulted(Fault { kind, opcode: op, pc: start }),
                ..old(self)@
            }),
            r == final(self).status,
    {
        self.status = Status::Faulted(Fault { kind, opcode: op, pc: start });
        self.status
    }
}

/// The bytes at the program counter are exactly `bytes`.
pub open spec fn fetches(m: Machine, bytes: Seq<u8>) -> bool {
    m.pc + bytes.len() <= m.program.len() && m.program.subrange(m.pc as int, m.pc + bytes.len())
        == bytes
}

/// `ADD`, `SUB` and `MUL` compute on their two raw operand bytes, not on the
/// registers those bytes would name: the destination gets `a op b` whatever
/// the registers hold, and nothing else changes but the counter.
pub proof fn lemma_arith_uses_raw_bytes(m: Machine, op: OpCode, a: u8, b: u8, dest: u8)
    requires
        op == OpCode::ADD || op == OpCode::SUB || op == OpCode::MUL,
        !is_terminal(m.status),
        fetches(m, seq![code_of(op), a, b, dest]),
        dest < 32,
    ensures
        step(m) == (Machine {
            registers: m.registers.update(dest as int, arith(op, a, b) as i32),
            pc: (m.pc + 4) as usize,
            status: Status::Running,
            ..m
        }),
{
    assert(m.program[m.pc as int] == m.program.subrange(m.pc as int, m.pc + 4)[0]);
    assert(m.program[m.pc + 1] == m.program.subrange(m.pc as int, m.pc + 4)[1]);
    assert(m.program[m.pc + 2] == m.program.subrange(m.pc as int, m.pc + 4)[2]);
    assert(m.program[m.pc + 3] == m.program.subrange(m.pc as int, m.pc + 4)[3]);
}

/// `DIV` divides its two raw operand bytes: the destination gets the
/// quotient and the remainder register the remainder.
pub proof fn lemma_div_uses_raw_bytes(m: Machine, a: u8, b: u8, dest: u8)
    requires
        !is_terminal(m.status),
        fetches(m, seq![code_of(OpCode::DIV), a, b, dest]),
        b != 0,
        dest < 32,
    ensures
        step(m) == (Machine {
            registers: m.registers.update(dest as int, (a / b) as i32),
            remainder: (a % b) as u32,
            pc: (m.pc + 4) as usize,
            status: Status::Running,
            ..m
        }),
{
    assert(m.program[m.pc as int] == m.program.subrange(m.pc as int, m.pc + 4)[0]);
    assert(m.program[m.pc + 1] == m.program.subrange(m.pc as int, m.pc + 4)[1]);
    assert(m.program[m.pc + 2] == m.program.subrange(m.pc as int, m.pc + 4)[2]);
    assert(m.program[m.pc + 3] == m.program.subrange(m.pc as int, m.pc + 4)[3]);
}

/// The comparisons read the contents of the registers their operands name,
/// and set the flag to the comparison of those contents.
pub proof fn lemma_compare_reads_registers(m: Machine, op: OpCode, x: u8, y: u8, unused: u8)
    requires
        is_comparison(op),
        !is_terminal(m.status),
        fetches(m, seq![code_of(op), x, y, unused]),
        x < 32,
        y < 32,
    ensures
        step(m) == (Machine {
            equal_flag: compare(op, m.registers[x as int], m.registers[y as int]),
            pc: (m.pc + 4) as usize,
            status: Status::Running,
            ..m
        }),
{
    assert(m.program[m.pc as int] == m.program.subrange(m.pc as int, m.pc + 4)[0]);
    assert(m.program[m.pc + 1] == m.program.subrange(m.pc as int, m.pc + 4)[1]);
    assert(m.program[m.pc + 2] == m.program.subrange(m.pc as int, m.pc + 4)[2]);
}

/// `JMPF reg` moves the counter forward by the register's contents, counted
/// from just past its two fetched bytes.
pub proof fn lemma_jmpf_relative(m: Machine, reg: u8)
    requires
        !is_terminal(m.status),
        fetches(m, seq![code_of(OpCode::JMPF), reg]),
        reg < 32,
        m.registers[reg as int] >= 0,
        m.pc + 2 + m.registers[reg as int] <= usize::MAX,
    ensures
        step(m) == (Machine {
            pc: (m.pc + 2 + m.registers[reg as int]) as usize,
            status: Status::Running,
            ..m
        }),
{
    assert(m.program[m.pc as int] == m.program.subrange(m.pc as int, m.pc + 2)[0]);
    assert(m.program[m.pc + 1] == m.program.subrange(m.pc as int, m.pc + 2)[1]);
}

/// `ALOC reg` grows the heap by exactly the register's contents, in zero
/// bytes, and keeps what it held.
pub proof fn lemma_aloc_grows_heap(m: Machine, reg: u8)
    requires
        !is_terminal(m.status),
        fetches(m, seq![code_of(OpCode::ALOC), reg]),
        reg < 32,
        m.registers[reg as int] >= 0,
        m.heap.len() + m.registers[reg as int] <= usize::MAX,
    ensures
        step(m).heap.len() == m.heap.len() + m.registers[reg as int],
        step(m).heap.subrange(0, m.heap.len() as int) == m.heap,
        forall|k: int| m.heap.len() <= k < step(m).heap.len() ==> step(m).heap[k] == 0,
        step(m).registers == m.registers,
        step(m).status == Status::Running,
{
    assert(m.program[m.pc as int] == m.program.subrange(m.pc as int, m.pc + 2)[0]);
    assert(m.program[m.pc + 1] == m.program.subrange(m.pc as int, m.pc + 2)[1]);
    let n = m.registers[reg as int];
    assert(step(m).heap =~= m.heap + Seq::new(n as nat, |i: int| 0u8));
    assert(step(m).heap.subrange(0, m.heap.len() as int) =~= m.heap);
}

/// An opcode byte that names no operation faults the machine: it stops, at
/// once and for good, with the registers, heap, flag and remainder as they
/// were.
pub proof fn lemma_illegal_opcode_faults(m: Machine, fuel: nat)
    requires
        !is_terminal(m.status),
        m.pc < m.program.len(),
        m.program[m.pc as int] >= 20,
        fuel >= 1,
    ensures
        step(m).status == Status::Faulted(
            Fault { kind: FaultKind::IllegalOpcode, opcode: OpCode::IGL, pc: m.pc },
        ),
        step(m).registers == m.registers,
        step(m).heap == m.heap,
        step(m).equal_flag == m.equal_flag,
        step(m).remainder == m.remainder,
        run_steps(m, fuel) == step(m),
{
    assert(run_steps(m, fuel) == run_steps(step(m), (fuel - 1) as nat));
    if fuel > 1 {
        assert(run_steps(step(m), (fuel - 1) as nat) == step(m));
    }
}

/// A `HLT` at the counter ends the run normally.
pub proof fn lemma_hlt_halts(m: Machine, fuel: nat)
    requires
        !is_terminal(m.status),
        m.pc < m.program.len(),
        m.program[m.pc as int] == code_of(OpCode::HLT),
        fuel >= 1,
    ensures
        step(m).status == Status::Halted(Halt::Instruction),
        run_steps(m, fuel) == step(m),
{
    assert(run_steps(m, fuel) == run_steps(step(m), (fuel - 1) as nat));
    if fuel > 1 {
        assert(run_steps(step(m), (fuel - 1) as nat) == step(m));
    }
}

/// A counter at or past the end of the program ends the run normally, not
/// with a fault, and changes nothing else.
pub proof fn lemma_end_of_program_halts(m: Machine, fuel: nat)
    requires
        !is_terminal(m.status),
        m.pc >= m.program.len(),
        fuel >= 1,
    ensures
        step(m) == (Machine { status: Status::Halted(Halt::EndOfProgram), ..m }),
        run_steps(m, fuel) == step(m),
{
    assert(run_steps(m, fuel) == run_steps(step(m), (fuel - 1) as nat));
    if fuel > 1 {
        assert(run_steps(step(m), (fuel - 1) as nat) == step(m));
    }
}

/// A halted or faulted machine stays exactly as it is.
pub proof fn lemma_terminal_is_final(m: Machine, fuel: nat)
    requires
        is_terminal(m.status),
    ensures
        step(m) == m,
        run_steps(m, fuel) == m,
{
}

/// Four bytes that, run as one instruction, complete and move the counter
/// just past themselves: a load, arithmetic operation or comparison whose
/// registers exist, a division by a nonzero magnitude.
pub open spec fn is_straight_block(b0: u8, b1: u8, b2: u8, b3: u8) -> bool {
    let op = opcode_of(b0);
    if op == OpCode::LOAD {
        b1 < 32
    } else if op == OpCode::ADD || op == OpCode::SUB || op == OpCode::MUL {
        b3 < 32
    } else if op == OpCode::DIV {
        b2 != 0 && b3 < 32
    } else if is_comparison(op) {
        b1 < 32 && b2 < 32
    } else {
        false
    }
}

/// Block `k`, bytes `4k` to `4k + 3`, of a program is straight.
pub open spec fn block_is_straight(p: Seq<u8>, k: int) -> bool {
    is_straight_block(p[4 * k], p[4 * k + 1], p[4 * k + 2], p[4 * k + 3])
}

/// The first `n` four-byte blocks of a program are all straight.
pub open spec fn straight_blocks(p: Seq<u8>, n: int) -> bool {
    &&& 0 <= 4 * n <= p.len()
    &&& forall|k: int| 0 <= k < n ==> #[trigger] block_is_straight(p, k)
}

/// A straight block at the counter completes and moves the counter past it.
proof fn lemma_straight_step(m: Machine)
    requires
        !is_terminal(m.status),
        m.pc % 4 == 0,
        m.pc + 4 <= m.program.len(),
        m.program.len() <= usize::MAX,
        block_is_straight(m.program, m.pc as int / 4),
    ensures
        step(m).status == Status::Running,
        step(m).pc == m.pc + 4,
        step(m).program == m.program,
{
    assert(4 * (m.pc as int / 4) == m.pc);
}

/// A program made only of straight blocks, run from a block boundary, ends
/// normally when the counter reaches its end, not with a fault.
pub proof fn lemma_straight_program_ends_normally(m: Machine, fuel: nat)
    requires
        !is_terminal(m.status),
        m.program.len() % 4 == 0,
        m.program.len() <= usize::MAX,
        straight_blocks(m.program, m.program.len() as int / 4),
        m.pc % 4 == 0,
        m.pc <= m.program.len(),
        fuel > (m.program.len() - m.pc) / 4,
    ensures
        run_steps(m, fuel).status == Status::Halted(Halt::EndOfProgram),
        run_steps(m, fuel).pc == m.program.len(),
    decreases m.program.len() - m.pc,
{
    if m.pc == m.program.len() {
        lemma_end_of_program_halts(m, fuel);
    } else {
        assert(block_is_straight(m.program, m.pc as int / 4));
        lemma_straight_step(m);
        lemma_straight_program_ends_normally(step(m), (fuel - 1) as nat);
    }
}

/// A program of straight blocks followed by a block that starts with `HLT`,
/// run from a block boundary, ends normally at that `HLT`.
pub proof fn lemma_program_ending_in_hlt_halts(m: Machine, fuel: nat)
    requires
        !is_terminal(m.status),
        m.program.len() % 4 == 0,
        m.program.len() <= usize::MAX,
        m.program.len() >= 4,
        straight_blocks(m.program, m.program.len() as int / 4 - 1),
        m.program[m.program.len() - 4] == code_of(OpCode::HLT),
        m.pc % 4 == 0,
        m.pc <= m.program.len() - 4,
        fuel > (m.program.len() - 4 - m.pc) / 4,
    ensures
        run_steps(m, fuel).status == Status::Halted(Halt::Instruction),
        run_steps(m, fuel).pc == m.program.len() - 3,
    decreases m.program.len() - m.pc,
{
    if m.pc == m.program.len() - 4 {
        lemma_hlt_halts(m, fuel);
    } else {
        assert(block_is_straight(m.program, m.pc as int / 4));
        lemma_straight_step(m);
        lemma_program_ending_in_hlt_halts(step(m), (fuel - 1) as nat);
    }
}

} // verus!
