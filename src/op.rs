use vstd::prelude::*;

verus! {

/// The twelve operations of the instruction set.
#[derive(Clone, Copy, Debug, PartialEq, Eq, Structural)]
pub enum Opcode {
    AddA,
    MovA2B,
    InA,
    MovA,
    MovB2A,
    AddB,
    InB,
    MovB,
    OutB,
    OutIm,
    Jnc,
    Jmp,
}

/// The operation that a 4-bit operation code selects, if any.
pub open spec fn opcode_of(code: u8) -> Option<Opcode> {
    if code == 0 {
        Some(Opcode::AddA)
    } else if code == 1 {
        Some(Opcode::MovA2B)
    } else if code == 2 {
        Some(Opcode::InA)
    } else if code == 3 {
        Some(Opcode::MovA)
    } else if code == 4 {
        Some(Opcode::MovB2A)
    } else if code == 5 {
        Some(Opcode::AddB)
    } else if code == 6 {
        Some(Opcode::InB)
    } else if code == 7 {
        Some(Opcode::MovB)
    } else if code == 9 {
        Some(Opcode::OutB)
    } else if code == 11 {
        Some(Opcode::OutIm)
    } else if code == 14 {
        Some(Opcode::Jnc)
    } else if code == 15 {
        Some(Opcode::Jmp)
    } else {
        None
    }
}

impl Opcode {
    /// The 4-bit operation code of this operation.
    pub open spec fn spec_code(self) -> u8 {
        match self {
            Opcode::AddA => 0,
            Opcode::MovA2B => 1,
            Opcode::InA => 2,
            Opcode::MovA => 3,
            Opcode::MovB2A => 4,
            Opcode::AddB => 5,
            Opcode::InB => 6,
            Opcode::MovB => 7,
            Opcode::OutB => 9,
            Opcode::OutIm => 11,
            Opcode::Jnc => 14,
            Opcode::Jmp => 15,
        }
    }

    /// Whether the low nibble of the instruction byte is this operation's operand;
    /// for the other operations it is read as zero.
    pub open spec fn has_operand(self) -> bool {
        !(self is MovA2B || self is MovB2A || self is InA || self is InB || self is OutB)
    }

    /// Whether the operation sets the program counter itself instead of advancing it.
    pub open spec fn is_jump(self) -> bool {
        self is Jmp || self is Jnc
    }

    pub fn code(&self) -> (r: u8)
        ensures
            r == self.spec_code(),
            r < 16,
    {
        match self {
            Opcode::AddA => 0,
            Opcode::MovA2B => 1,
            Opcode::InA => 2,
            Opcode::MovA => 3,
            Opcode::MovB2A => 4,
            Opcode::AddB => 5,
            Opcode::InB => 6,
            Opcode::MovB => 7,
            Opcode::OutB => 9,
            Opcode::OutIm => 11,
            Opcode::Jnc => 14,
            Opcode::Jmp => 15,
        }
    }

    pub fn from_code(code: u8) -> (r: Option<Opcode>)
        ensures
            r == opcode_of(code),
    {
        match code {
            0 => Some(Opcode::AddA),
            1 => Some(Opcode::MovA2B),
            2 => Some(Opcode::InA),
            3 => Some(Opcode::MovA),
            4 => Some(Opcode::MovB2A),
            5 => Some(Opcode::AddB),
            6 => Some(Opcode::InB),
            7 => Some(Opcode::MovB),
            9 => Some(Opcode::OutB),
            11 => Some(Opcode::OutIm),
            14 => Some(Opcode::Jnc),
            15 => Some(Opcode::Jmp),
            _ => None,
        }
    }
}

/// Every operation is found again from its own code, and every code that names an
/// operation is that operation's code: the table is a bijection onto its image.
pub proof fn lemma_code_round_trip(op: Opcode, code: u8)
    ensures
        opcode_of(op.spec_code()) == Some(op),
        opcode_of(code) is Some ==> opcode_of(code)->Some_0.spec_code() == code,
        opcode_of(code) is Some ==> code < 16,
{
}

} // verus!
