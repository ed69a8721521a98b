use vstd::prelude::*;

verus! {

/// What the register file holds, as numbers.
pub struct RegisterState {
    pub a: nat,
    pub b: nat,
    pub pc: nat,
    pub carry: nat,
}

/// The register file: registers A and B and the program counter of four bits each,
/// and the carry flag of one bit. Every write is masked to the field's width.
pub struct Register {
    a: u8,
    b: u8,
    pc: u8,
    carry: u8,
}

impl View for Register {
    type V = RegisterState;

    closed spec fn view(&self) -> RegisterState {
        RegisterState { a: self.a as nat, b: self.b as nat, pc: self.pc as nat, carry: self.carry as nat }
    }
}

impl Register {
    #[verifier::type_invariant]
    pub(crate) open spec fn in_range(self) -> bool {
        self@.a < 16 && self@.b < 16 && self@.pc < 16 && self@.carry < 2
    }

    /// A register file with every field zero.
    pub fn new() -> (r: Register)
        ensures
            r@ == (RegisterState { a: 0, b: 0, pc: 0, carry: 0 }),
    {
        Register { a: 0, b: 0, pc: 0, carry: 0 }
    }

    pub fn register_a(&self) -> (r: u8)
        ensures
            r == self@.a,
            r < 16,
    {
        proof {
            use_type_invariant(self);
        }
        self.a
    }

    pub fn register_b(&self) -> (r: u8)
        ensures
            r == self@.b,
            r < 16,
    {
        proof {
            use_type_invariant(self);
        }
        self.b
    }

    pub fn pc(&self) -> (r: u8)
        ensures
            r == self@.pc,
            r < 16,
    {
        proof {
            use_type_invariant(self);
        }
        self.pc
    }

    pub fn carry_flag(&self) -> (r: u8)
        ensures
            r == self@.carry,
            r < 2,
    {
        proof {
            use_type_invariant(self);
        }
        self.carry
    }

    pub fn set_register_a(&mut self, value: u8)
        ensures
            final(self)@ == (RegisterState { a: value as nat % 16, ..old(self)@ }),
    {
        proof {
            use_type_invariant(&*self);
        }
        self.a = value % 16;
    }

    pub fn set_register_b(&mut self, value: u8)
        ensures
            final(self)@ == (RegisterState { b: value as nat % 16, ..old(self)@ }),
    {
        proof {
            use_type_invariant(&*self);
        }
        self.b = value % 16;
    }

    pub fn set_pc(&mut self, value: u8)
        ensures
            final(self)@ == (RegisterState { pc: value as nat % 16, ..old(self)@ }),
    {
        proof {
            use_type_invariant(&*self);
        }
        self.pc = value % 16;
    }

    /// Advances the program counter by one, wrapping within four bits.
    pub fn incr_pc(&mut self)
        ensures
            final(self)@ == (RegisterState { pc: (old(self)@.pc + 1) % 16, ..old(self)@ }),
    {
        proof {
            use_type_invariant(&*self);
        }
        self.pc = (self.pc + 1) % 16;
    }

    pub fn set_carry_flag(&mut self, value: u8)
        ensures
            final(self)@ == (RegisterState { carry: value as nat % 2, ..old(self)@ }),
    {
        proof {
            use_type_invariant(&*self);
        }
        self.carry = value % 2;
    }
}

} // verus!
