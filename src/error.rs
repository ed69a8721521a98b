use vstd::prelude::*;

verus! {

/// Everything that can abort assembling or running a program.
#[derive(Debug, PartialEq, Eq)]
pub enum EmulatorErr {
    /// A program of more bytes than the 4-bit address space can hold.
    OversizedProgram,
    /// An instruction byte whose high nibble (carried here) names no operation.
    UnknownOpcode(u8),
    /// An immediate operand (carried here) that is not a binary literal of at most eight digits' value.
    ImmediateParseError(String),
    /// A run that reached the step bound without halting.
    StepLimitExceeded,
}

} // verus!
