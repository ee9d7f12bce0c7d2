//! A small virtual CPU: byte-addressable program memory, sixteen signed
//! 64-bit registers, a call stack of return addresses and software
//! interrupts, driven one instruction at a time.
//!
//! A host builds a [`processor::Processor`], appends a program to its
//! memory, attaches interrupt handlers, sets the status to running and
//! calls [`processor::Processor::process`] until the status clears. Each
//! step returns a [`signal::Signal`]; no program, however malformed, makes
//! a step panic.
//!
//! What a step does is defined once, as a function on the mathematical
//! state of the processor, in [`machine`]; the executable step is proved
//! to compute it. The conventions it follows:
//!
//! - The program counter is the offset of the next byte to fetch. CALL
//!   continues at its target, RET at the popped return address, which is
//!   the offset behind the operand of the CALL.
//! - An opcode byte that names no instruction is skipped, alone, and the
//!   program goes on.
//! - ADD, SUB, MUL and DIV wrap around in two's complement and report the
//!   overflow; the program goes on.
//! - An instruction is fetched whole before any of it takes effect:
//!   operands that run past the end of memory exhaust the program.

pub mod instruction;
pub mod laws;
pub mod machine;
pub mod numeric;
pub mod processor;
pub mod screen;
pub mod signal;
