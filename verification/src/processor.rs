//! The processor: its state, how a host loads and inspects it, and the
//! fetch-decode-execute step.

use crate::instruction::Instruction;
use crate::machine::{Action, Machine, REGISTER_COUNT};
use crate::numeric::{
    flip, le_value, read_le, to_signed, wrapping_difference, wrapping_product, wrapping_quotient,
    wrapping_sum,
};
use crate::signal::Signal;
use std::collections::HashMap;
use vstd::prelude::*;

verus! {

broadcast use vstd::std_specs::hash::group_hash_axioms;

/// A callback for a software interrupt. The INT instruction calls the
/// handler registered for its number, once, in line with the step, and
/// lends it the whole processor: it may change registers, stack, program
/// counter, status, memory and the handlers themselves.
pub trait InterruptHandler: Sized {
    /// Whether one call for interrupt `number` may take the processor from
    /// `before` to `after`. A handler that says nothing of itself may do
    /// anything.
    open spec fn services(&self, before: Machine<Self>, number: u8, after: Machine<Self>) -> bool {
        true
    }

    /// Services interrupt `number` on `cpu`.
    fn handle(&self, cpu: &mut Processor<Self>, number: u8)
        ensures
            self.services(old(cpu)@, number, final(cpu)@),
    ;
}

/// A handler that acknowledges every interrupt and changes nothing.
#[derive(Debug, Clone, Copy, PartialEq, Eq)]
pub struct Ignore;

impl InterruptHandler for Ignore {
    open spec fn services(&self, before: Machine<Self>, number: u8, after: Machine<Self>) -> bool {
        after == before
    }

    fn handle(&self, cpu: &mut Processor<Self>, number: u8) {
    }
}

/// A virtual CPU with handlers of type `H` for its software interrupts.
pub struct Processor<H> {
    /// Program and data bytes; the program counter indexes them.
    pub m_memory: Vec<u8>,
    /// The offset of the next byte to fetch.
    pub m_program_counter: u64,
    /// Whether the host should go on stepping. A new processor is halted.
    pub m_status: bool,
    /// The registers. Handlers use the last one for input and output.
    pub m_registers: [i64; 16],
    /// The return addresses of the calls in progress, the latest last.
    pub m_stack: Vec<u64>,
    /// The handler of each interrupt number that has one.
    pub m_intlisteners: HashMap<u8, H>,
}

/// A copy of the readable state of a processor.
#[derive(Debug, PartialEq, Eq)]
pub struct Snapshot {
    pub registers: [i64; 16],
    pub stack: Vec<u64>,
    pub pc: u64,
    pub memory: Vec<u8>,
    pub running: bool,
}

/// The registers of `registers` that do not hold zero, each with its
/// index, in ascending order of index.
pub open spec fn register_dump(registers: Seq<i64>) -> Seq<(u8, i64)> {
    Seq::new(16, |i: int| (i as u8, registers[i])).filter(|entry: (u8, i64)| entry.1 != 0)
}

impl<H> View for Processor<H> {
    type V = Machine<H>;

    open spec fn view(&self) -> Machine<H> {
        Machine {
            memory: self.m_memory@,
            pc: self.m_program_counter,
            running: self.m_status,
            registers: self.m_registers@,
            stack: self.m_stack@,
            handlers: self.m_intlisteners@,
        }
    }
}

impl<H> Processor<H> {
    /// A halted processor with empty memory, zeroed registers, an empty
    /// call stack and no handlers.
    pub fn new() -> (cpu: Processor<H>)
        ensures
            cpu@.memory == Seq::<u8>::empty(),
            cpu@.pc == 0,
            !cpu@.running,
            cpu@.registers == Seq::new(16, |i: int| 0i64),
            cpu@.stack == Seq::<u64>::empty(),
            cpu@.handlers == Map::<u8, H>::empty(),
    {
        Processor {
            m_memory: Vec::new(),
            m_program_counter: 0,
            m_status: false,
            m_registers: [0; 16],
            m_stack: Vec::new(),
            m_intlisteners: HashMap::new(),
        }
    }

    /// Appends one byte to memory.
    pub fn push_byte(&mut self, byte: u8)
        ensures
            final(self)@ == (Machine { memory: old(self)@.memory.push(byte), ..old(self)@ }),
    {
        self.m_memory.push(byte);
    }

    /// Appends `bytes` to memory, in order. Nothing is asked of them: what
    /// they encode shows when they are executed.
    pub fn load(&mut self, bytes: &[u8])
        ensures
            final(self)@ == (Machine { memory: old(self)@.memory + bytes@, ..old(self)@ }),
    {
        let ghost before = self@;
        let mut done: usize = 0;
        while done < bytes.len()
            invariant
                done <= bytes.len(),
                self@ == (Machine { memory: before.memory + bytes@.take(done as int), ..before }),
            decreases bytes.len() - done,
        {
            self.m_memory.push(bytes[done]);
            done += 1;
            assert(bytes@.take(done as int) =~= bytes@.take(done - 1).push(bytes@[done - 1]));
        }
        assert(bytes@.take(done as int) =~= bytes@);
    }

    /// Registers `func` for interrupt `number`, in place of any handler
    /// that the number had.
    pub fn attach_int_handler(&mut self, number: u8, func: H)
        ensures
            final(self)@ == (Machine {
                handlers: old(self)@.handlers.insert(number, func),
                ..old(self)@
            }),
    {
        self.m_intlisteners.insert(number, func);
    }

    /// Fetches the byte at the program counter and moves the counter past
    /// it.
    pub fn get_byte(&mut self) -> (byte: u8)
        requires
            old(self)@.pc < old(self)@.memory.len(),
        ensures
            byte == old(self)@.memory[old(self)@.pc as int],
            final(self)@ == old(self)@.at((old(self)@.pc + 1) as u64),
    {
        let len = self.m_memory.len();
        assert(self.m_program_counter < len);
        let byte = self.m_memory[self.m_program_counter as usize];
        self.m_program_counter += 1;
        byte
    }

    /// Fetches `count` bytes at the program counter as one unsigned
    /// number, least significant byte first, and moves the counter past
    /// them.
    pub fn get_bytes(&mut self, count: usize) -> (value: u64)
        requires
            count <= 8,
            old(self)@.pc + count <= old(self)@.memory.len(),
        ensures
            value == le_value(
                old(self)@.memory.subrange(old(self)@.pc as int, old(self)@.pc + count),
            ),
            final(self)@ == old(self)@.at((old(self)@.pc + count) as u64),
    {
        let len = self.m_memory.len();
        assert(self.m_program_counter + count <= len);
        let value = read_le(&self.m_memory, self.m_program_counter as usize, count);
        self.m_program_counter += count as u64;
        value
    }

    /// The offset of the next byte to fetch.
    pub fn getpc(&self) -> (pc: u64)
        ensures
            pc == self@.pc,
    {
        self.m_program_counter
    }

    /// Whether the host should go on stepping.
    pub fn is_running(&self) -> (running: bool)
        ensures
            running == self@.running,
    {
        self.m_status
    }

    /// Stops the program from outside. Nothing else changes.
    pub fn halt(&mut self)
        ensures
            final(self)@ == old(self)@.halted(),
    {
        self.m_status = false;
    }

    /// A copy of what a host or a display may read: registers, call stack,
    /// program counter, memory and status.
    pub fn snapshot(&self) -> (copy: Snapshot)
        ensures
            copy.registers@ == self@.registers,
            copy.stack@ == self@.stack,
            copy.pc == self@.pc,
            copy.memory@ == self@.memory,
            copy.running == self@.running,
    {
        let memory = self.m_memory.clone();
        let stack = self.m_stack.clone();
        assert(memory@ =~= self.m_memory@);
        assert(stack@ =~= self.m_stack@);
        Snapshot {
            registers: self.m_registers,
            stack,
            pc: self.m_program_counter,
            memory,
            running: self.m_status,
        }
    }

    /// The registers that do not hold zero, each with its index, in
    /// ascending order of index.
    pub fn dump_registers(&self) -> (lines: Vec<(u8, i64)>)
        ensures
            lines@ == register_dump(self@.registers),
    {
        let ghost indexed = Seq::new(16, |i: int| (i as u8, self@.registers[i]));
        let ghost shown = |entry: (u8, i64)| entry.1 != 0;
        let mut lines: Vec<(u8, i64)> = Vec::new();
        let mut reg: u8 = 0;
        proof {
            reveal(Seq::filter);
            assert(indexed.take(0).filter(shown) =~= Seq::<(u8, i64)>::empty());
        }
        while reg < REGISTER_COUNT
            invariant
                reg <= REGISTER_COUNT,
                indexed == Seq::new(16, |i: int| (i as u8, self@.registers[i])),
                shown == (|entry: (u8, i64)| entry.1 != 0),
                lines@ == indexed.take(reg as int).filter(shown),
            decreases REGISTER_COUNT - reg,
        {
            let value = self.m_registers[reg as usize];
            proof {
                assert(indexed.take(reg + 1) =~= indexed.take(reg as int).push((reg, value)));
                indexed.take(reg as int).lemma_filter_push((reg, value), shown);
            }
            if value != 0 {
                lines.push((reg, value));
            }
            reg += 1;
        }
        assert(indexed.take(16) =~= indexed);
        lines
    }

    /// The call stack from the top down: the latest return address first.
    pub fn dump_stack(&self) -> (lines: Vec<u64>)
        ensures
            lines@ == self@.stack.reverse(),
    {
        let mut lines: Vec<u64> = Vec::new();
        let mut left: usize = self.m_stack.len();
        while left > 0
            invariant
                left <= self.m_stack.len(),
                lines@.len() == self.m_stack.len() - left,
                forall|i: int|
                    0 <= i < lines@.len() ==> lines@[i] == self.m_stack@[self.m_stack.len() - 1
                        - i],
            decreases left,
        {
            left -= 1;
            lines.push(self.m_stack[left]);
        }
        assert(lines@ =~= self@.stack.reverse());
        lines
    }

    /// What a diagnostics sink is handed for signal `s`: the program
    /// counter at which it is raised, and the signal.
    pub fn emit_signal(&self, s: Signal) -> (record: (u64, Signal))
        ensures
            record == (self@.pc, s),
    {
        (self.m_program_counter, s)
    }

    /// The state of a processor is a valid state.
    pub proof fn lemma_view_valid(&self)
        ensures
            self@.valid(),
    {
        assert(self.m_memory.len() == self@.memory.len());
    }
}

impl<H: InterruptHandler + Copy> Processor<H> {
    /// Executes one instruction: fetches the opcode at the program counter
    /// and the operands it asks for, and carries it out as
    /// [`Machine::step`] says. For an INT with a registered number the
    /// handler is called once, on the processor as it stands behind the
    /// operand, and what the handler leaves is what the step leaves.
    ///
    /// The running status is not consulted: the host decides when to step.
    pub fn process(&mut self) -> (signal: Signal)
        ensures
            match old(self)@.step().1 {
                Action::Report(report) => signal == report && final(self)@ == old(self)@.step().0,
                Action::Invoke(number) => signal == Signal::Normal && old(
                    self,
                )@.handlers[number].services(old(self)@.step().0, number, final(self)@),
            },
    {
        let ghost before = self@;
        let len = self.m_memory.len();
        if self.m_program_counter >= len as u64 {
            self.m_status = false;
            return Signal::ProgramExhausted;
        }
        let byte = self.get_byte();
        let inst = match Instruction::decode(byte) {
            Some(inst) => inst,
            None => {
                return Signal::BadOpcode;
            },
        };
        let need = inst.operand_len();
        if need as u64 > len as u64 - self.m_program_counter {
            self.m_program_counter = len as u64;
            self.m_status = false;
            return Signal::ProgramExhausted;
        }
        proof {
            let end = before.pc + 1 + need;
            let operands = before.memory.subrange(before.pc + 1, end);
            if need >= 1 {
                assert(operands.skip(1) =~= before.memory.subrange(before.pc + 2, end));
            }
            assert(self@ =~= before.at((before.pc + 1) as u64));
        }
        match inst {
            Instruction::NOP => Signal::Normal,
            Instruction::LOAD1B => self.execute_load(1),
            Instruction::LOAD2B => self.execute_load(2),
            Instruction::LOAD3B => self.execute_load(3),
            Instruction::LOAD4B => self.execute_load(4),
            Instruction::LOAD5B => self.execute_load(5),
            Instruction::LOAD6B => self.execute_load(6),
            Instruction::LOAD7B => self.execute_load(7),
            Instruction::LOAD8B => self.execute_load(8),
            Instruction::ADD | Instruction::SUB | Instruction::MUL | Instruction::DIV => {
                self.execute_arithmetic(inst)
            },
            Instruction::NOT => self.execute_complement(),
            Instruction::AND | Instruction::OR | Instruction::XOR => self.execute_bitwise(inst),
            Instruction::CALL => self.execute_call(),
            Instruction::RET => self.execute_ret(),
            Instruction::END => {
                self.m_status = false;
                Signal::Terminated
            },
            Instruction::CPUID => Signal::BadOpcode,
            Instruction::INT => self.execute_interrupt(),
        }
    }

    /// INT, from the operand on: calls the handler of the number that the
    /// operand names, or stops the program where it has none.
    fn execute_interrupt(&mut self) -> (signal: Signal)
        requires
            old(self)@.pc + 1 <= old(self)@.memory.len(),
        ensures
            ({
                let number = old(self)@.memory[old(self)@.pc as int];
                let ready = old(self)@.at((old(self)@.pc + 1) as u64);
                match ready.interrupt(number).1 {
                    Action::Report(report) => signal == report && final(self)@
                        == ready.interrupt(number).0,
                    Action::Invoke(n) => n == number && signal == Signal::Normal
                        && ready.handlers[number].services(ready, number, final(self)@),
                }
            }),
    {
        proof {
            self.lemma_view_valid();
        }
        let number = self.get_byte();
        let found: Option<H> = match self.m_intlisteners.get(&number) {
            Some(handler) => Some(*handler),
            None => None,
        };
        match found {
            Some(handler) => {
                handler.handle(self, number);
                Signal::Normal
            },
            None => {
                self.m_status = false;
                Signal::UnhandledInterrupt
            },
        }
    }
}

impl<H> Processor<H> {
    /// A LOAD of `width` bytes, from the operands on.
    fn execute_load(&mut self, width: usize) -> (signal: Signal)
        requires
            1 <= width <= 8,
            old(self)@.pc + 1 + width <= old(self)@.memory.len(),
        ensures
            ({
                let first = old(self)@.pc as int;
                let outcome = old(self)@.at((first + 1 + width) as u64).load(
                    old(self)@.memory[first],
                    old(self)@.memory.subrange(first + 1, first + 1 + width),
                );
                final(self)@ == outcome.0 && Action::Report(signal) == outcome.1
            }),
    {
        proof {
            self.lemma_view_valid();
        }
        let reg = self.get_byte();
        let value = self.get_bytes(width);
        if reg >= REGISTER_COUNT {
            self.m_status = false;
            return Signal::RegisterFault;
        }
        self.m_registers[reg as usize] = to_signed(value);
        Signal::Normal
    }

    /// ADD, SUB, MUL or DIV, from the operands on.
    fn execute_arithmetic(&mut self, inst: Instruction) -> (signal: Signal)
        requires
            inst == Instruction::ADD || inst == Instruction::SUB || inst == Instruction::MUL
                || inst == Instruction::DIV,
            old(self)@.pc + 3 <= old(self)@.memory.len(),
        ensures
            ({
                let first = old(self)@.pc as int;
                let outcome = old(self)@.at((first + 3) as u64).arithmetic(
                    inst,
                    old(self)@.memory[first],
                    old(self)@.memory[first + 1],
                    old(self)@.memory[first + 2],
                );
                final(self)@ == outcome.0 && Action::Report(signal) == outcome.1
            }),
    {
        proof {
            self.lemma_view_valid();
        }
        let left = self.get_byte();
        let right = self.get_byte();
        let target = self.get_byte();
        if left >= REGISTER_COUNT || right >= REGISTER_COUNT || target >= REGISTER_COUNT {
            self.m_status = false;
            return Signal::RegisterFault;
        }
        let a = self.m_registers[left as usize];
        let b = self.m_registers[right as usize];
        let outcome = match inst {
            Instruction::ADD => Some(wrapping_sum(a, b)),
            Instruction::SUB => Some(wrapping_difference(a, b)),
            Instruction::MUL => Some(wrapping_product(a, b)),
            _ => wrapping_quotient(a, b),
        };
        match outcome {
            None => {
                self.m_status = false;
                Signal::DivisionFault
            },
            Some((value, overflowed)) => {
                self.m_registers[target as usize] = value;
                if overflowed {
                    Signal::Overflowed
                } else {
                    Signal::Normal
                }
            },
        }
    }

    /// NOT, from the operand on.
    fn execute_complement(&mut self) -> (signal: Signal)
        requires
            old(self)@.pc + 1 <= old(self)@.memory.len(),
        ensures
            ({
                let first = old(self)@.pc as int;
                let outcome = old(self)@.at((first + 1) as u64).complement(
                    old(self)@.memory[first],
                );
                final(self)@ == outcome.0 && Action::Report(signal) == outcome.1
            }),
    {
        proof {
            self.lemma_view_valid();
        }
        let reg = self.get_byte();
        if reg >= REGISTER_COUNT {
            self.m_status = false;
            return Signal::RegisterFault;
        }
        self.m_registers[reg as usize] = flip(self.m_registers[reg as usize]);
        Signal::Normal
    }

    /// AND, OR or XOR, from the operands on.
    fn execute_bitwise(&mut self, inst: Instruction) -> (signal: Signal)
        requires
            inst == Instruction::AND || inst == Instruction::OR || inst == Instruction::XOR,
            old(self)@.pc + 2 <= old(self)@.memory.len(),
        ensures
            ({
                let first = old(self)@.pc as int;
                let outcome = old(self)@.at((first + 2) as u64).bitwise(
                    inst,
                    old(self)@.memory[first],
                    old(self)@.memory[first + 1],
                );
                final(self)@ == outcome.0 && Action::Report(signal) == outcome.1
            }),
    {
        proof {
            self.lemma_view_valid();
        }
        let target = self.get_byte();
        let right = self.get_byte();
        if target >= REGISTER_COUNT || right >= REGISTER_COUNT {
            self.m_status = false;
            return Signal::RegisterFault;
        }
        let a = self.m_registers[target as usize];
        let b = self.m_registers[right as usize];
        let value = match inst {
            Instruction::AND => a & b,
            Instruction::OR => a | b,
            _ => a ^ b,
        };
        self.m_registers[target as usize] = value;
        Signal::Normal
    }

    /// CALL, from the operand on.
    fn execute_call(&mut self) -> (signal: Signal)
        requires
            old(self)@.pc + 8 <= old(self)@.memory.len(),
        ensures
            ({
                let first = old(self)@.pc as int;
                let outcome = old(self)@.at((first + 8) as u64).call(
                    le_value(old(self)@.memory.subrange(first, first + 8)) as u64,
                );
                final(self)@ == outcome.0 && Action::Report(signal) == outcome.1
            }),
    {
        proof {
            self.lemma_view_valid();
        }
        let address = self.get_bytes(8);
        self.m_stack.push(self.m_program_counter);
        self.m_program_counter = address;
        Signal::Normal
    }

    /// RET.
    fn execute_ret(&mut self) -> (signal: Signal)
        ensures
            final(self)@ == old(self)@.ret().0,
            Action::Report(signal) == old(self)@.ret().1,
    {
        match self.m_stack.pop() {
            Some(address) => {
                self.m_program_counter = address;
                Signal::Normal
            },
            None => {
                self.m_status = false;
                Signal::CallStackUnderflow
            },
        }
    }
}

} // verus!
