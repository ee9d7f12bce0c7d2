//! The processor as a mathematical state, and one step as a function on it.

use crate::instruction::Instruction;
use crate::numeric::{as_signed, fits, flipped, le_value, quotient, wrap};
use crate::signal::Signal;
use vstd::prelude::*;

verus! {

/// The number of registers.
pub const REGISTER_COUNT: u8 = 16;

/// The state of a processor: what its fields hold, as sequences and a map.
#[verifier::ext_equal]
pub ghost struct Machine<H> {
    /// Program and data bytes; the program counter indexes them.
    pub memory: Seq<u8>,
    /// The offset of the next byte to fetch.
    pub pc: u64,
    /// Whether the host should go on stepping.
    pub running: bool,
    /// The sixteen registers.
    pub registers: Seq<i64>,
    /// The return addresses of the calls in progress, the latest last.
    pub stack: Seq<u64>,
    /// The handler of each interrupt number that has one.
    pub handlers: Map<u8, H>,
}

/// How a step ends: with a report to the host, or with the one thing that
/// is left to do, the call of the handler of an interrupt.
pub ghost enum Action {
    Report(Signal),
    Invoke(u8),
}

impl<H> Machine<H> {
    /// What holds of the state of every processor: there are sixteen
    /// registers, and a program counter can tell the end of memory.
    pub open spec fn valid(self) -> bool {
        self.registers.len() == REGISTER_COUNT && self.memory.len() <= u64::MAX
    }

    /// This state, halted.
    pub open spec fn halted(self) -> Self {
        Machine { running: false, ..self }
    }

    /// This state with the program counter at `pc`.
    pub open spec fn at(self, pc: u64) -> Self {
        Machine { pc, ..self }
    }

    /// This state with `value` in register `reg`.
    pub open spec fn with_register(self, reg: u8, value: i64) -> Self {
        Machine { registers: self.registers.update(reg as int, value), ..self }
    }

    /// The state and the report of a step that stops the program.
    pub open spec fn stop(self, signal: Signal) -> (Self, Action) {
        (self.halted(), Action::Report(signal))
    }

    /// A LOAD: `immediate`, read least significant byte first and
    /// zero-extended to a word, goes to register `reg` with the bits it has.
    pub open spec fn load(self, reg: u8, immediate: Seq<u8>) -> (Self, Action) {
        if reg >= REGISTER_COUNT {
            self.stop(Signal::RegisterFault)
        } else {
            (
                self.with_register(reg, as_signed(le_value(immediate) as u64)),
                Action::Report(Signal::Normal),
            )
        }
    }

    /// The exact result of the arithmetic instruction `inst` on two values.
    pub open spec fn exact(inst: Instruction, left: i64, right: i64) -> int {
        match inst {
            Instruction::ADD => left + right,
            Instruction::SUB => left - right,
            Instruction::MUL => left * right,
            _ => quotient(left as int, right as int),
        }
    }

    /// ADD, SUB, MUL or DIV of registers `left` and `right` into register
    /// `target`. A result that does not fit is wrapped and reported.
    pub open spec fn arithmetic(self, inst: Instruction, left: u8, right: u8, target: u8) -> (
        Self,
        Action,
    ) {
        if left >= REGISTER_COUNT || right >= REGISTER_COUNT || target >= REGISTER_COUNT {
            self.stop(Signal::RegisterFault)
        } else if inst == Instruction::DIV && self.registers[right as int] == 0 {
            self.stop(Signal::DivisionFault)
        } else {
            let exact = Self::exact(inst, self.registers[left as int], self.registers[right as int]);
            (
                self.with_register(target, wrap(exact)),
                Action::Report(
                    if fits(exact) {
                        Signal::Normal
                    } else {
                        Signal::Overflowed
                    },
                ),
            )
        }
    }

    /// NOT: every bit of register `reg` is flipped.
    pub open spec fn complement(self, reg: u8) -> (Self, Action) {
        if reg >= REGISTER_COUNT {
            self.stop(Signal::RegisterFault)
        } else {
            (
                self.with_register(reg, flipped(self.registers[reg as int])),
                Action::Report(Signal::Normal),
            )
        }
    }

    /// AND, OR or XOR of register `target` with register `right`, into
    /// `target`.
    pub open spec fn bitwise(self, inst: Instruction, target: u8, right: u8) -> (Self, Action) {
        if target >= REGISTER_COUNT || right >= REGISTER_COUNT {
            self.stop(Signal::RegisterFault)
        } else {
            let a = self.registers[target as int];
            let b = self.registers[right as int];
            let value = match inst {
                Instruction::AND => a & b,
                Instruction::OR => a | b,
                _ => a ^ b,
            };
            (self.with_register(target, value), Action::Report(Signal::Normal))
        }
    }

    /// CALL: the program counter, which stands behind the operand, is
    /// pushed, and the next fetch reads the byte at `address`.
    pub open spec fn call(self, address: u64) -> (Self, Action) {
        (
            Machine { pc: address, stack: self.stack.push(self.pc), ..self },
            Action::Report(Signal::Normal),
        )
    }

    /// RET: the latest return address is popped, and the next fetch reads
    /// the byte there.
    pub open spec fn ret(self) -> (Self, Action) {
        if self.stack.len() == 0 {
            self.stop(Signal::CallStackUnderflow)
        } else {
            (
                Machine { pc: self.stack.last(), stack: self.stack.drop_last(), ..self },
                Action::Report(Signal::Normal),
            )
        }
    }

    /// INT: the handler of `number` is to be called on this state; without
    /// one the program stops.
    pub open spec fn interrupt(self, number: u8) -> (Self, Action) {
        if self.handlers.contains_key(number) {
            (self, Action::Invoke(number))
        } else {
            self.stop(Signal::UnhandledInterrupt)
        }
    }

    /// The effect of `inst` with the operand bytes `operands`, on a state
    /// whose program counter already stands behind them.
    pub open spec fn execute(self, inst: Instruction, operands: Seq<u8>) -> (Self, Action) {
        match inst {
            Instruction::NOP => (self, Action::Report(Signal::Normal)),
            Instruction::LOAD1B
            | Instruction::LOAD2B
            | Instruction::LOAD3B
            | Instruction::LOAD4B
            | Instruction::LOAD5B
            | Instruction::LOAD6B
            | Instruction::LOAD7B
            | Instruction::LOAD8B => self.load(operands[0], operands.skip(1)),
            Instruction::ADD | Instruction::SUB | Instruction::MUL | Instruction::DIV => {
                self.arithmetic(inst, operands[0], operands[1], operands[2])
            },
            Instruction::NOT => self.complement(operands[0]),
            Instruction::AND | Instruction::OR | Instruction::XOR => {
                self.bitwise(inst, operands[0], operands[1])
            },
            Instruction::CALL => self.call(le_value(operands) as u64),
            Instruction::RET => self.ret(),
            Instruction::END => self.stop(Signal::Terminated),
            Instruction::CPUID => (self, Action::Report(Signal::BadOpcode)),
            Instruction::INT => self.interrupt(operands[0]),
        }
    }

    /// One step: fetch the opcode at the program counter, fetch the
    /// operands that it asks for, execute.
    ///
    /// At the end of memory there is nothing to fetch and the program is
    /// exhausted; so it is where the operands run past the end, and the
    /// program counter then stands at the end. A byte that names no
    /// instruction is skipped alone.
    pub open spec fn step(self) -> (Self, Action) {
        if self.pc >= self.memory.len() {
            self.stop(Signal::ProgramExhausted)
        } else {
            match Instruction::spec_decode(self.memory[self.pc as int]) {
                None => (self.at((self.pc + 1) as u64), Action::Report(Signal::BadOpcode)),
                Some(inst) => {
                    let end = self.pc + 1 + inst.spec_operand_len();
                    if end > self.memory.len() {
                        self.at(self.memory.len() as u64).stop(Signal::ProgramExhausted)
                    } else {
                        self.at(end as u64).execute(inst, self.memory.subrange(self.pc + 1, end))
                    }
                },
            }
        }
    }
}

impl<H> Machine<H> {
    /// The state after `count` steps, none of which calls a handler.
    pub open spec fn run(self, count: nat) -> Self
        decreases count,
    {
        if count == 0 {
            self
        } else {
            self.step().0.run((count - 1) as nat)
        }
    }

    /// Whether each of the next `count` steps reports `Signal::Normal`.
    pub open spec fn quiet(self, count: nat) -> bool
        decreases count,
    {
        count == 0 || (self.step().1 == Action::Report(Signal::Normal) && self.step().0.quiet(
            (count - 1) as nat,
        ))
    }
}

} // verus!
