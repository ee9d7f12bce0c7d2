//! What one step of the processor reports to its host.

use vstd::prelude::*;

verus! {

/// The report of one step. Nothing here aborts the host: a fault stops
/// only the program that the processor runs.
#[derive(Debug, Clone, Copy, PartialEq, Eq, Structural)]
pub enum Signal {
    /// The instruction completed and there is nothing to report.
    Normal,
    /// An END instruction stopped the program: the intended way out.
    Terminated,
    /// The program counter reached the end of memory, before an opcode or
    /// in the middle of an instruction's operands.
    ProgramExhausted,
    /// The opcode byte names no instruction. It is skipped, without
    /// operands, and the program goes on.
    BadOpcode,
    /// A register operand is not below sixteen.
    RegisterFault,
    /// The divisor register of a DIV holds zero.
    DivisionFault,
    /// A RET found the call stack empty.
    CallStackUnderflow,
    /// An INT names a number that has no handler.
    UnhandledInterrupt,
    /// The exact result of an arithmetic instruction did not fit a
    /// register and was wrapped around. The program goes on.
    Overflowed,
}

impl Signal {
    /// Whether a step that reports this signal leaves the processor halted.
    pub open spec fn spec_halts(self) -> bool {
        match self {
            Signal::Normal | Signal::BadOpcode | Signal::Overflowed => false,
            _ => true,
        }
    }

    /// Whether this signal reports an abnormal condition.
    pub open spec fn spec_is_fault(self) -> bool {
        match self {
            Signal::BadOpcode
            | Signal::RegisterFault
            | Signal::DivisionFault
            | Signal::CallStackUnderflow
            | Signal::UnhandledInterrupt => true,
            _ => false,
        }
    }

    /// Whether a step that reports this signal leaves the processor halted.
    #[verifier::when_used_as_spec(spec_halts)]
    pub fn halts(self) -> (halting: bool)
        ensures
            halting == self.spec_halts(),
            halting <==> !(self == Signal::Normal || self == Signal::BadOpcode || self
                == Signal::Overflowed),
    {
        match self {
            Signal::Normal | Signal::BadOpcode | Signal::Overflowed => false,
            _ => true,
        }
    }

    /// Whether this signal reports an abnormal condition: a bad opcode or
    /// one of the four faults that stop the program.
    #[verifier::when_used_as_spec(spec_is_fault)]
    pub fn is_fault(self) -> (fault: bool)
        ensures
            fault == self.spec_is_fault(),
            fault <==> (self == Signal::BadOpcode || (self.spec_halts() && self
                != Signal::Terminated && self != Signal::ProgramExhausted)),
    {
        match self {
            Signal::BadOpcode
            | Signal::RegisterFault
            | Signal::DivisionFault
            | Signal::CallStackUnderflow
            | Signal::UnhandledInterrupt => true,
            _ => false,
        }
    }
}

} // verus!
