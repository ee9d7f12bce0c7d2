//! What holds of every step, stated over the mathematical state.

use crate::instruction::{Instruction, OPCODE_COUNT};
use crate::machine::{Action, Machine, REGISTER_COUNT};
use crate::numeric::{
    as_signed, byte_range, le_value, lemma_byte_range_values, lemma_le_value_bound,
};
use crate::signal::Signal;
use vstd::prelude::*;

verus! {

/// Whether `memory` holds at `at` a CALL to `target`, operand included.
pub open spec fn call_site(memory: Seq<u8>, at: int, target: u64) -> bool {
    &&& 0 <= at
    &&& at + 9 <= memory.len()
    &&& memory[at] == Instruction::CALL.spec_opcode()
    &&& le_value(memory.subrange(at + 1, at + 9)) == target
}

/// Whether `memory` holds a RET at `at`.
pub open spec fn ret_site(memory: Seq<u8>, at: int) -> bool {
    &&& 0 <= at < memory.len()
    &&& memory[at] == Instruction::RET.spec_opcode()
}

/// Whether the code at `start` is a chain of nested calls through
/// `targets`: a CALL to the first of them with a RET behind it, there a
/// CALL to the second with a RET behind it, and so on, and at the last of
/// them a RET. With no targets, the code at `start` is a RET.
pub open spec fn nest(memory: Seq<u8>, start: u64, targets: Seq<u64>) -> bool
    decreases targets.len(),
{
    if targets.len() == 0 {
        ret_site(memory, start as int)
    } else {
        &&& call_site(memory, start as int, targets[0])
        &&& ret_site(memory, start + 9)
        &&& nest(memory, targets[0], targets.skip(1))
    }
}

/// A step keeps a valid state valid, and changes neither memory nor the
/// handlers.
pub proof fn lemma_step_preserves<H>(m: Machine<H>)
    requires
        m.valid(),
    ensures
        m.step().0.valid(),
        m.step().0.memory == m.memory,
        m.step().0.handlers == m.handlers,
{
    if m.pc < m.memory.len() {
        match Instruction::spec_decode(m.memory[m.pc as int]) {
            None => {},
            Some(inst) => {
                let end = m.pc + 1 + inst.spec_operand_len();
                if end <= m.memory.len() {
                    let ready = m.at(end as u64);
                    let operands = m.memory.subrange(m.pc + 1, end);
                    assert(ready.execute(inst, operands).0.valid());
                }
            },
        }
    }
}

/// The signal of a step decides the status: a signal that halts leaves the
/// processor halted, any other leaves the status as it was.
pub proof fn lemma_status_follows_signal<H>(m: Machine<H>, signal: Signal)
    requires
        m.valid(),
        m.step().1 == Action::Report(signal),
    ensures
        m.step().0.running == (m.running && !signal.spec_halts()),
{
}

/// At or past the end of memory nothing is fetched: the step reports the
/// program exhausted and halts, and nothing else changes.
pub proof fn lemma_exhausted<H>(m: Machine<H>)
    requires
        m.pc >= m.memory.len(),
    ensures
        m.step() == (m.halted(), Action::Report(Signal::ProgramExhausted)),
{
}

/// An instruction whose operands run past the end of memory is not
/// executed: the step reports the program exhausted and halts with the
/// program counter at the end, and nothing else changes.
pub proof fn lemma_cut_short<H>(m: Machine<H>, inst: Instruction)
    requires
        m.valid(),
        m.pc < m.memory.len(),
        Instruction::spec_decode(m.memory[m.pc as int]) == Some(inst),
        m.pc + 1 + inst.spec_operand_len() > m.memory.len(),
    ensures
        m.step() == (
            m.at(m.memory.len() as u64).halted(),
            Action::Report(Signal::ProgramExhausted),
        ),
{
}

/// A byte that names no instruction is skipped alone, and so is the
/// unassigned CPUID: the step reports a bad opcode, and only the program
/// counter changes.
pub proof fn lemma_bad_opcode<H>(m: Machine<H>)
    requires
        m.valid(),
        m.pc < m.memory.len(),
        m.memory[m.pc as int] >= OPCODE_COUNT || m.memory[m.pc as int]
            == Instruction::CPUID.spec_opcode(),
    ensures
        m.step() == (m.at((m.pc + 1) as u64), Action::Report(Signal::BadOpcode)),
{
}

/// An END halts the processor behind it and reports the program
/// terminated; nothing else changes.
pub proof fn lemma_end<H>(m: Machine<H>)
    requires
        m.valid(),
        m.pc < m.memory.len(),
        m.memory[m.pc as int] == Instruction::END.spec_opcode(),
    ensures
        m.step() == (m.at((m.pc + 1) as u64).halted(), Action::Report(Signal::Terminated)),
{
}

/// A LOAD of `width` bytes into a valid register puts there the value that
/// the immediate bytes spell, least significant first, whatever any
/// register held before; no other register changes, and the program
/// counter stands behind the immediate. With fewer than eight bytes the
/// register holds that value as it is, which is never negative; with eight
/// it holds the signed number with the same bits. The opcode of a LOAD is
/// the number of its immediate bytes.
pub proof fn lemma_load<H>(m: Machine<H>, width: nat, reg: u8, earlier: Seq<i64>)
    requires
        m.valid(),
        1 <= width <= 8,
        reg < REGISTER_COUNT,
        m.pc + 2 + width <= m.memory.len(),
        m.memory[m.pc as int] == width,
        m.memory[m.pc + 1] == reg,
        earlier.len() == REGISTER_COUNT,
    ensures
        ({
            let immediate = m.memory.subrange(m.pc + 2, m.pc + 2 + width);
            let after = m.step().0;
            &&& m.step().1 == Action::Report(Signal::Normal)
            &&& after.registers[reg as int] == as_signed(le_value(immediate) as u64)
            &&& width < 8 ==> after.registers[reg as int] == le_value(immediate)
            &&& (Machine { registers: earlier, ..m }).step().0.registers[reg as int]
                == after.registers[reg as int]
            &&& forall|other: int|
                0 <= other < REGISTER_COUNT && other != reg ==> after.registers[other]
                    == m.registers[other]
            &&& after.pc == m.pc + 2 + width
            &&& after.running == m.running
            &&& after.stack == m.stack
        }),
{
    let immediate = m.memory.subrange(m.pc + 2, m.pc + 2 + width);
    let inst = Instruction::spec_decode(m.memory[m.pc as int])->0;
    let end = m.pc + 1 + inst.spec_operand_len();
    assert(end == m.pc + 2 + width);
    let operands = m.memory.subrange(m.pc + 1, end);
    assert(operands.skip(1) =~= immediate);
    assert(operands[0] == reg);
    lemma_le_value_bound(immediate);
    lemma_byte_range_values();
    if width < 8 {
        assert(byte_range(width) <= byte_range(7)) by {
            reveal_with_fuel(byte_range, 9);
        }
    }
}

/// Whether `m` stands before an ADD, SUB, MUL or DIV of registers `left`
/// and `right` into `target`, all three valid.
pub open spec fn before_arithmetic<H>(
    m: Machine<H>,
    inst: Instruction,
    left: u8,
    right: u8,
    target: u8,
) -> bool {
    &&& m.valid()
    &&& inst == Instruction::ADD || inst == Instruction::SUB || inst == Instruction::MUL || inst
        == Instruction::DIV
    &&& m.pc + 4 <= m.memory.len()
    &&& m.memory[m.pc as int] == inst.spec_opcode()
    &&& m.memory[m.pc + 1] == left
    &&& m.memory[m.pc + 2] == right
    &&& m.memory[m.pc + 3] == target
    &&& left < REGISTER_COUNT
    &&& right < REGISTER_COUNT
    &&& target < REGISTER_COUNT
}

/// The operands of an arithmetic instruction are the three bytes behind
/// its opcode, and the step is `Machine::arithmetic` on them.
proof fn lemma_arithmetic_step<H>(m: Machine<H>, inst: Instruction, left: u8, right: u8, target: u8)
    requires
        before_arithmetic(m, inst, left, right, target),
    ensures
        m.step() == m.at((m.pc + 4) as u64).arithmetic(inst, left, right, target),
{
    assert(Instruction::spec_decode(m.memory[m.pc as int]) == Some(inst));
    let operands = m.memory.subrange(m.pc + 1, m.pc + 4);
    assert(operands[0] == left && operands[1] == right && operands[2] == target);
}

/// An arithmetic instruction is a function of its two source registers:
/// two states that agree on them, whatever else they hold, report the same
/// signal and, unless that is a division fault, leave the same value in
/// the target register.
pub proof fn lemma_arithmetic_is_function_of_sources<H>(
    m: Machine<H>,
    n: Machine<H>,
    inst: Instruction,
    left: u8,
    right: u8,
    target: u8,
)
    requires
        before_arithmetic(m, inst, left, right, target),
        before_arithmetic(n, inst, left, right, target),
        m.registers[left as int] == n.registers[left as int],
        m.registers[right as int] == n.registers[right as int],
    ensures
        m.step().1 == n.step().1,
        m.step().1 != Action::Report(Signal::DivisionFault) ==> m.step().0.registers[target as int]
            == n.step().0.registers[target as int],
{
    lemma_arithmetic_step(m, inst, left, right, target);
    lemma_arithmetic_step(n, inst, left, right, target);
}

/// An arithmetic instruction changes no register but its target, and
/// leaves memory, call stack and handlers alone.
pub proof fn lemma_arithmetic_touches_only_target<H>(
    m: Machine<H>,
    inst: Instruction,
    left: u8,
    right: u8,
    target: u8,
)
    requires
        before_arithmetic(m, inst, left, right, target),
    ensures
        forall|other: int|
            0 <= other < REGISTER_COUNT && other != target ==> m.step().0.registers[other]
                == m.registers[other],
        m.step().0.memory == m.memory,
        m.step().0.stack == m.stack,
        m.step().0.handlers == m.handlers,
        m.step().0.pc == m.pc + 4,
{
    lemma_arithmetic_step(m, inst, left, right, target);
}

/// A DIV whose divisor register holds zero reports a division fault and
/// halts the processor behind the instruction. No register changes.
pub proof fn lemma_division_by_zero<H>(m: Machine<H>, left: u8, right: u8, target: u8)
    requires
        before_arithmetic(m, Instruction::DIV, left, right, target),
        m.registers[right as int] == 0,
    ensures
        m.step() == (
            m.at((m.pc + 4) as u64).halted(),
            Action::Report(Signal::DivisionFault),
        ),
{
    lemma_arithmetic_step(m, Instruction::DIV, left, right, target);
}

/// A RET on an empty call stack reports an underflow and halts the
/// processor behind the instruction.
pub proof fn lemma_return_on_empty_stack<H>(m: Machine<H>)
    requires
        m.valid(),
        ret_site(m.memory, m.pc as int),
        m.stack.len() == 0,
    ensures
        m.step() == (
            m.at((m.pc + 1) as u64).halted(),
            Action::Report(Signal::CallStackUnderflow),
        ),
{
    assert(Instruction::spec_decode(m.memory[m.pc as int]) == Some(Instruction::RET));
}

/// A CALL pushes the offset behind its operand and continues at its
/// target.
pub proof fn lemma_call<H>(m: Machine<H>, target: u64)
    requires
        m.valid(),
        call_site(m.memory, m.pc as int, target),
    ensures
        m.step() == (
            Machine { pc: target, stack: m.stack.push((m.pc + 9) as u64), ..m },
            Action::Report(Signal::Normal),
        ),
{
    assert(Instruction::spec_decode(m.memory[m.pc as int]) == Some(Instruction::CALL));
}

/// A RET with a call in progress pops the latest return address and
/// continues there.
pub proof fn lemma_return<H>(m: Machine<H>)
    requires
        m.valid(),
        ret_site(m.memory, m.pc as int),
        m.stack.len() > 0,
    ensures
        m.step() == (
            Machine { pc: m.stack.last(), stack: m.stack.drop_last(), ..m },
            Action::Report(Signal::Normal),
        ),
{
    assert(Instruction::spec_decode(m.memory[m.pc as int]) == Some(Instruction::RET));
}

/// A RET comes back behind the CALL that it answers, whatever ran in
/// between: where the call stack is again as that CALL left it, the RET
/// continues at the offset behind the operand of the CALL and leaves the
/// call stack as it was before the CALL.
pub proof fn lemma_return_answers_call<H>(m: Machine<H>, target: u64, later: Machine<H>)
    requires
        m.valid(),
        call_site(m.memory, m.pc as int, target),
        later.valid(),
        ret_site(later.memory, later.pc as int),
        later.stack == m.step().0.stack,
    ensures
        later.step().1 == Action::Report(Signal::Normal),
        later.step().0.pc == m.pc + 9,
        later.step().0.stack == m.stack,
{
    lemma_call(m, target);
    lemma_return(later);
    assert(m.stack.push((m.pc + 9) as u64).drop_last() =~= m.stack);
}

/// Running `first` steps and then `second` more is running them all.
pub proof fn lemma_run_split<H>(m: Machine<H>, first: nat, second: nat)
    ensures
        m.run(first + second) == m.run(first).run(second),
        m.quiet(first + second) == (m.quiet(first) && m.run(first).quiet(second)),
    decreases first,
{
    if first > 0 {
        lemma_run_split(m.step().0, (first - 1) as nat, second);
        assert(first + second - 1 == (first - 1) + second);
    }
}

/// A subroutine that is a chain of nested calls returns: from its first
/// byte, with a call in progress, twice as many steps as it has nested
/// calls and one more pop the latest return address and continue there,
/// all of them reporting `Signal::Normal`, the rest of the state as
/// before.
pub proof fn lemma_nest_returns<H>(m: Machine<H>, targets: Seq<u64>)
    requires
        m.valid(),
        nest(m.memory, m.pc, targets),
        m.stack.len() > 0,
    ensures
        m.run(2 * targets.len() + 1) == (Machine {
            pc: m.stack.last(),
            stack: m.stack.drop_last(),
            ..m
        }),
        m.quiet(2 * targets.len() + 1),
    decreases targets.len(),
{
    if targets.len() == 0 {
        lemma_return(m);
        reveal_with_fuel(Machine::run, 2);
        reveal_with_fuel(Machine::quiet, 2);
    } else {
        let inner = targets.skip(1);
        lemma_call(m, targets[0]);
        let entered = m.step().0;
        assert(nest(entered.memory, entered.pc, inner));
        lemma_nest_returns(entered, inner);
        let count = 2 * inner.len() + 1;
        let back = entered.run(count);
        assert(back.stack =~= m.stack);
        assert(ret_site(back.memory, back.pc as int));
        lemma_return(back);
        assert(back.step().0 == (Machine { pc: m.stack.last(), stack: m.stack.drop_last(), ..m }));
        lemma_run_split(entered, count, 1);
        reveal_with_fuel(Machine::run, 2);
        reveal_with_fuel(Machine::quiet, 2);
        assert(entered.run(count + 1) == back.step().0);
        assert(m.run(2 * targets.len() + 1) == entered.run(count + 1));
        assert(m.quiet(2 * targets.len() + 1) == entered.quiet(count + 1));
    }
}

/// CALL and RET pair up, however deep the calls nest: a CALL to a chain of
/// `targets.len()` further nested calls is back behind its own operand
/// after as many RETs as there were CALLs, with the call stack as it was
/// before (empty, if it was empty) and nothing else changed.
pub proof fn lemma_call_then_return<H>(m: Machine<H>, target: u64, targets: Seq<u64>)
    requires
        m.valid(),
        call_site(m.memory, m.pc as int, target),
        nest(m.memory, target, targets),
    ensures
        m.run(2 * (targets.len() + 1)) == m.at((m.pc + 9) as u64),
        m.quiet(2 * (targets.len() + 1)),
        m.run(targets.len() + 1).stack.len() == m.stack.len() + targets.len() + 1,
{
    lemma_call(m, target);
    let entered = m.step().0;
    assert(nest(entered.memory, entered.pc, targets));
    lemma_nest_returns(entered, targets);
    assert(entered.stack.drop_last() =~= m.stack);
    lemma_run_split(m, 1, 2 * targets.len() + 1);
    reveal_with_fuel(Machine::run, 2);
    reveal_with_fuel(Machine::quiet, 2);
    lemma_nest_depth(entered, targets);
    lemma_run_split(m, 1, targets.len());
}

/// Going down a chain of nested calls pushes one return address a call.
pub proof fn lemma_nest_depth<H>(m: Machine<H>, targets: Seq<u64>)
    requires
        m.valid(),
        nest(m.memory, m.pc, targets),
    ensures
        m.run(targets.len()).stack.len() == m.stack.len() + targets.len(),
    decreases targets.len(),
{
    if targets.len() > 0 {
        lemma_call(m, targets[0]);
        lemma_nest_depth(m.step().0, targets.skip(1));
    }
}

/// An INT whose number has no handler reports an unhandled interrupt and
/// halts the processor behind the instruction.
pub proof fn lemma_unhandled_interrupt<H>(m: Machine<H>, number: u8)
    requires
        m.valid(),
        m.pc + 2 <= m.memory.len(),
        m.memory[m.pc as int] == Instruction::INT.spec_opcode(),
        m.memory[m.pc + 1] == number,
        !m.handlers.contains_key(number),
    ensures
        m.step() == (
            m.at((m.pc + 2) as u64).halted(),
            Action::Report(Signal::UnhandledInterrupt),
        ),
{
    assert(Instruction::spec_decode(m.memory[m.pc as int]) == Some(Instruction::INT));
    assert(m.memory.subrange(m.pc + 1, m.pc + 2)[0] == number);
}

/// An INT whose number has a handler ends in the call of that handler, on
/// the state behind the instruction and otherwise unchanged.
pub proof fn lemma_handled_interrupt<H>(m: Machine<H>, number: u8)
    requires
        m.valid(),
        m.pc + 2 <= m.memory.len(),
        m.memory[m.pc as int] == Instruction::INT.spec_opcode(),
        m.memory[m.pc + 1] == number,
        m.handlers.contains_key(number),
    ensures
        m.step() == (m.at((m.pc + 2) as u64), Action::Invoke(number)),
{
    assert(Instruction::spec_decode(m.memory[m.pc as int]) == Some(Instruction::INT));
    assert(m.memory.subrange(m.pc + 1, m.pc + 2)[0] == number);
}

} // verus!
