//! A 4-bit CPU of twelve instructions (two registers, a program counter, a carry
//! flag, sixteen bytes of instruction memory and a 4-bit port) and the assembler back
//! end that packs instruction tokens into its machine code.
use vstd::prelude::*;

pub mod compiler;
pub mod emulator;
pub mod error;
pub mod halting;
pub mod op;
pub mod port;
pub mod register;
pub mod rom;
pub mod token;

verus! {

} // verus!
