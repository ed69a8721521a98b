use vstd::prelude::*;

verus! {

/// What the port holds, as numbers.
pub struct PortState {
    pub input: nat,
    pub output: nat,
}

/// The input latch, fixed for a run, and the output latch that the program writes;
/// four bits each.
pub struct Port {
    input: u8,
    output: u8,
}

impl View for Port {
    type V = PortState;

    closed spec fn view(&self) -> PortState {
        PortState { input: self.input as nat, output: self.output as nat }
    }
}

impl Port {
    #[verifier::type_invariant]
    pub(crate) open spec fn in_range(self) -> bool {
        self@.input < 16 && self@.output < 16
    }

    /// A port with the given latch values, each masked to four bits.
    pub fn new(input: u8, output: u8) -> (r: Port)
        ensures
            r@ == (PortState { input: input as nat % 16, output: output as nat % 16 }),
    {
        Port { input: input % 16, output: output % 16 }
    }

    pub fn input(&self) -> (r: u8)
        ensures
            r == self@.input,
            r < 16,
    {
        proof {
            use_type_invariant(self);
        }
        self.input
    }

    pub fn output(&self) -> (r: u8)
        ensures
            r == self@.output,
            r < 16,
    {
        proof {
            use_type_invariant(self);
        }
        self.output
    }

    pub fn set_output(&mut self, value: u8)
        ensures
            final(self)@ == (PortState { output: value as nat % 16, ..old(self)@ }),
    {
        proof {
            use_type_invariant(&*self);
        }
        self.output = value % 16;
    }
}

} // verus!
