use vstd::prelude::*;
use crate::error::EmulatorErr;

verus! {

/// The largest program the 4-bit address space can hold.
pub const ROM_CAPACITY: usize = 16;

/// The instruction memory: the program's bytes, read-only once built.
pub struct Rom {
    program: Vec<u8>,
}

impl View for Rom {
    type V = Seq<u8>;

    closed spec fn view(&self) -> Seq<u8> {
        self.program@
    }
}

impl Rom {
    #[verifier::type_invariant]
    spec fn fits(self) -> bool {
        self.program@.len() <= ROM_CAPACITY
    }

    /// Holds `program`, or refuses it when it is longer than the address space.
    pub fn new(program: Vec<u8>) -> (r: Result<Rom, EmulatorErr>)
        ensures
            program@.len() <= ROM_CAPACITY <==> r is Ok,
            r is Ok ==> r->Ok_0@ == program@,
            r is Err ==> r == Err::<Rom, EmulatorErr>(EmulatorErr::OversizedProgram),
    {
        if program.len() > ROM_CAPACITY {
            Err(EmulatorErr::OversizedProgram)
        } else {
            Ok(Rom { program })
        }
    }

    pub fn size(&self) -> (r: usize)
        ensures
            r == self@.len(),
            r <= ROM_CAPACITY,
    {
        proof {
            use_type_invariant(self);
        }
        self.program.len()
    }

    pub fn read(&self, address: u8) -> (r: u8)
        requires
            address < self@.len(),
        ensures
            r == self@[address as int],
    {
        self.program[address as usize]
    }
}

} // verus!
