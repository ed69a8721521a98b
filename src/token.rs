use vstd::prelude::*;

verus! {

/// Selects one of the two general registers.
#[derive(Clone, Copy, Debug, PartialEq, Eq, Structural)]
pub enum Register {
    A,
    B,
}

/// One assembly instruction, as the tokenizer hands it over; immediates are still text.
#[derive(Debug)]
pub enum Token {
    Mov(Register, String),
    MovAB,
    MovBA,
    Add(Register, String),
    Jmp(String),
    Jnc(String),
    In(Register),
    OutB,
    OutIm(String),
}

} // verus!
