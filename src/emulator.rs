use vstd::prelude::*;
use crate::error::EmulatorErr;
use crate::halting::{is_machine_state, lemma_step_limit_is_final};
use crate::op::{opcode_of, Opcode};
use crate::port::Port;
use crate::register::Register;
use crate::rom::Rom;

verus! {

/// The bound on instruction dispatches in one run: the number of distinct contents of
/// the register file (16 * 16 * 16 * 2).
pub const MAX_STEPS: usize = 8192;

/// The machine's state outside the ROM, as numbers.
pub struct CpuState {
    pub a: nat,
    pub b: nat,
    pub pc: nat,
    pub carry: nat,
    pub input: nat,
    pub output: nat,
}

/// The byte at `pc`, or 0 past the end of the program.
pub open spec fn fetch_byte(rom: Seq<u8>, pc: nat) -> u8 {
    if pc < rom.len() {
        rom[pc as int]
    } else {
        0
    }
}

/// The operation of an instruction byte and its operand; the operand of an
/// operation without one is 0.
pub open spec fn decode_byte(byte: u8) -> Option<(Opcode, u8)> {
    match opcode_of(byte / 16) {
        Some(op) => Some((op, if op.has_operand() { byte % 16 } else { 0 })),
        None => None,
    }
}

/// The effect of one operation, before the program counter advances. Every
/// operation but the additions clears the carry; an addition sets it on overflow and
/// leaves it as it was otherwise.
pub open spec fn dispatch(op: Opcode, im: u8, s: CpuState) -> CpuState {
    match op {
        Opcode::MovA => CpuState { a: im as nat % 16, carry: 0, ..s },
        Opcode::MovB => CpuState { b: im as nat % 16, carry: 0, ..s },
        Opcode::MovA2B => CpuState { a: s.b, carry: 0, ..s },
        Opcode::MovB2A => CpuState { b: s.a, carry: 0, ..s },
        Opcode::AddA => CpuState {
            a: ((s.a + im) % 16) as nat,
            carry: if s.a + im > 15 { 1 } else { s.carry },
            ..s
        },
        Opcode::AddB => CpuState {
            b: ((s.b + im) % 16) as nat,
            carry: if s.b + im > 15 { 1 } else { s.carry },
            ..s
        },
        Opcode::InA => CpuState { a: s.input, carry: 0, ..s },
        Opcode::InB => CpuState { b: s.input, carry: 0, ..s },
        Opcode::OutB => CpuState { output: s.b, carry: 0, ..s },
        Opcode::OutIm => CpuState { output: im as nat % 16, carry: 0, ..s },
        Opcode::Jmp => CpuState { pc: im as nat % 16, carry: 0, ..s },
        Opcode::Jnc => CpuState {
            pc: if s.carry == 0 { im as nat % 16 } else { s.pc },
            carry: 0,
            ..s
        },
    }
}

/// One operation in full: its effect, then the program counter advances by one
/// (within four bits) unless the operation is a jump.
pub open spec fn execute(op: Opcode, im: u8, s: CpuState) -> CpuState {
    let t = dispatch(op, im, s);
    if op.is_jump() {
        t
    } else {
        CpuState { pc: (t.pc + 1) % 16, ..t }
    }
}

/// Fetch, decode and execute one instruction.
pub open spec fn step(rom: Seq<u8>, s: CpuState) -> Result<CpuState, EmulatorErr> {
    let byte = fetch_byte(rom, s.pc);
    match decode_byte(byte) {
        Some((op, im)) => Ok(execute(op, im, s)),
        None => Err(EmulatorErr::UnknownOpcode(byte / 16)),
    }
}

/// The program counter has reached the last address of the program (or beyond).
pub open spec fn halts(rom: Seq<u8>, s: CpuState) -> bool {
    s.pc + 1 >= rom.len()
}

/// A run of at most `fuel` instructions: each instruction is executed, then the
/// halting test is made on the state it left.
pub open spec fn run(rom: Seq<u8>, s: CpuState, fuel: nat) -> Result<CpuState, EmulatorErr>
    decreases fuel,
{
    if fuel == 0 {
        Err(EmulatorErr::StepLimitExceeded)
    } else {
        match step(rom, s) {
            Ok(t) => if halts(rom, t) {
                Ok(t)
            } else {
                run(rom, t, (fuel - 1) as nat)
            },
            Err(e) => Err(e),
        }
    }
}

/// The machine: register file, instruction memory and port, owned together.
pub struct CpuEmulator {
    register: Register,
    rom: Rom,
    port: Port,
}

impl CpuEmulator {
    /// The state outside the ROM.
    pub closed spec fn state(&self) -> CpuState {
        CpuState {
            a: self.register@.a,
            b: self.register@.b,
            pc: self.register@.pc,
            carry: self.register@.carry,
            input: self.port@.input,
            output: self.port@.output,
        }
    }

    pub closed spec fn program(&self) -> Seq<u8> {
        self.rom@
    }

    pub fn with(register: Register, port: Port, rom: Rom) -> (r: CpuEmulator)
        ensures
            r.state() == (CpuState {
                a: register@.a,
                b: register@.b,
                pc: register@.pc,
                carry: register@.carry,
                input: port@.input,
                output: port@.output,
            }),
            r.program() == rom@,
    {
        CpuEmulator { register, rom, port }
    }

    /// The register file, to be read after a run.
    pub fn register(&self) -> (r: &Register)
        ensures
            r@.a == self.state().a,
            r@.b == self.state().b,
            r@.pc == self.state().pc,
            r@.carry == self.state().carry,
    {
        &self.register
    }

    /// The port, to be read after a run.
    pub fn port(&self) -> (r: &Port)
        ensures
            r@.input == self.state().input,
            r@.output == self.state().output,
    {
        &self.port
    }

    /// The instruction at the program counter, or 0 past the end of the program.
    fn fetch(&self) -> (r: u8)
        ensures
            r == fetch_byte(self.program(), self.state().pc),
    {
        let pc = self.register.pc();
        if self.rom.size() <= pc as usize {
            return 0;
        }
        self.rom.read(pc)
    }

    /// Splits an instruction byte into its operation and operand.
    fn decode(&self, data: u8) -> (r: Result<(Opcode, u8), EmulatorErr>)
        ensures
            match decode_byte(data) {
                Some(d) => r == Ok::<(Opcode, u8), EmulatorErr>(d),
                None => r == Err::<(Opcode, u8), EmulatorErr>(EmulatorErr::UnknownOpcode(data / 16)),
            },
    {
        let op = data / 16;
        let im = data % 16;
        match Opcode::from_code(op) {
            Some(opcode) => match opcode {
                Opcode::AddA
                | Opcode::AddB
                | Opcode::MovA
                | Opcode::MovB
                | Opcode::Jmp
                | Opcode::Jnc
                | Opcode::OutIm => Ok((opcode, im)),
                Opcode::MovA2B | Opcode::MovB2A | Opcode::InA | Opcode::InB | Opcode::OutB => Ok(
                    (opcode, 0),
                ),
            },
            None => Err(EmulatorErr::UnknownOpcode(op)),
        }
    }

    /// Runs the program from the current state until the program counter reaches the
    /// last address of the program, each instruction being executed before the test
    /// is made. The run fails on an instruction byte that names no operation, and
    /// after `MAX_STEPS` instructions without halting: the register file has no more
    /// contents than that, so such a program has entered a cycle and would never halt.
    pub fn exec(&mut self) -> (r: Result<(), EmulatorErr>)
        ensures
            final(self).program() == old(self).program(),
            match run(old(self).program(), old(self).state(), MAX_STEPS as nat) {
                Ok(t) => r is Ok && final(self).state() == t,
                Err(e) => r == Err::<(), EmulatorErr>(e),
            },
            r == Err::<(), EmulatorErr>(EmulatorErr::StepLimitExceeded) ==> forall|fuel: nat|
                #[trigger] run(old(self).program(), old(self).state(), fuel) == Err::<
                    CpuState,
                    EmulatorErr,
                >(EmulatorErr::StepLimitExceeded),
    {
        proof {
            use_type_invariant(&self.register);
            use_type_invariant(&self.port);
        }
        let mut fuel: usize = MAX_STEPS;
        loop
            invariant
                1 <= fuel <= MAX_STEPS,
                is_machine_state(old(self).state()),
                self.program() == old(self).program(),
                run(self.program(), self.state(), fuel as nat) == run(
                    old(self).program(),
                    old(self).state(),
                    MAX_STEPS as nat,
                ),
            decreases fuel,
        {
            let data = self.fetch();
            let (opcode, im) = match self.decode(data) {
                Ok(d) => d,
                Err(e) => return Err(e),
            };
            match opcode {
                Opcode::MovA => self.mov_a(im),
                Opcode::MovB => self.mov_b(im),
                Opcode::AddA => self.add_a(im),
                Opcode::AddB => self.add_b(im),
                Opcode::MovA2B => self.mov_a2b(),
                Opcode::MovB2A => self.mov_b2a(),
                Opcode::Jmp => self.jmp(im),
                Opcode::Jnc => self.jnc(im),
                Opcode::InA => self.in_a(),
                Opcode::InB => self.in_b(),
                Opcode::OutB => self.out_b(),
                Opcode::OutIm => self.out_im(im),
            }
            if opcode != Opcode::Jmp && opcode != Opcode::Jnc {
                self.register.incr_pc();
            }
            if self.does_halt() {
                return Ok(());
            }
            if fuel == 1 {
                assert(run(self.program(), self.state(), 0) == Err::<CpuState, EmulatorErr>(
                    EmulatorErr::StepLimitExceeded,
                ));
                proof {
                    assert forall|any: nat| #[trigger]
                        run(old(self).program(), old(self).state(), any) == Err::<
                            CpuState,
                            EmulatorErr,
                        >(EmulatorErr::StepLimitExceeded) by {
                        lemma_step_limit_is_final(old(self).program(), old(self).state(), any);
                    }
                }
                return Err(EmulatorErr::StepLimitExceeded);
            }
            fuel = fuel - 1;
        }
    }

    /// Whether the program counter has reached the last address of the program.
    fn does_halt(&self) -> (r: bool)
        ensures
            r == halts(self.program(), self.state()),
    {
        self.register.pc() as usize + 1 >= self.rom.size()
    }

    fn mov_a(&mut self, im: u8)
        ensures
            final(self).program() == old(self).program(),
            final(self).state() == dispatch(Opcode::MovA, im, old(self).state()),
    {
        self.register.set_register_a(im);
        self.register.set_carry_flag(0);
    }

    fn mov_b(&mut self, im: u8)
        ensures
            final(self).program() == old(self).program(),
            final(self).state() == dispatch(Opcode::MovB, im, old(self).state()),
    {
        self.register.set_register_b(im);
        self.register.set_carry_flag(0);
    }

    fn mov_a2b(&mut self)
        ensures
            final(self).program() == old(self).program(),
            final(self).state() == dispatch(Opcode::MovA2B, 0, old(self).state()),
    {
        let register_b = self.register.register_b();
        self.register.set_register_a(register_b);
        self.register.set_carry_flag(0);
    }

    fn mov_b2a(&mut self)
        ensures
            final(self).program() == old(self).program(),
            final(self).state() == dispatch(Opcode::MovB2A, 0, old(self).state()),
    {
        let register_a = self.register.register_a();
        self.register.set_register_b(register_a);
        self.register.set_carry_flag(0);
    }

    fn add_a(&mut self, im: u8)
        requires
            im < 16,
        ensures
            final(self).program() == old(self).program(),
            final(self).state() == dispatch(Opcode::AddA, im, old(self).state()),
    {
        let existence = self.register.register_a();
        let new_value = existence + im;
        if new_value > 15 {
            self.register.set_carry_flag(1);
        }
        self.register.set_register_a(new_value % 16);
    }

    fn add_b(&mut self, im: u8)
        requires
            im < 16,
        ensures
            final(self).program() == old(self).program(),
            final(self).state() == dispatch(Opcode::AddB, im, old(self).state()),
    {
        let existence = self.register.register_b();
        let new_value = existence + im;
        if new_value > 15 {
            self.register.set_carry_flag(1);
        }
        self.register.set_register_b(new_value % 16);
    }

    fn in_a(&mut self)
        ensures
            final(self).program() == old(self).program(),
            final(self).state() == dispatch(Opcode::InA, 0, old(self).state()),
    {
        let input_port = self.port.input();
        self.register.set_register_a(input_port);
        self.register.set_carry_flag(0);
    }

    fn in_b(&mut self)
        ensures
            final(self).program() == old(self).program(),
            final(self).state() == dispatch(Opcode::InB, 0, old(self).state()),
    {
        let input_port = self.port.input();
        self.register.set_register_b(input_port);
        self.register.set_carry_flag(0);
    }

    fn out_im(&mut self, im: u8)
        ensures
            final(self).program() == old(self).program(),
            final(self).state() == dispatch(Opcode::OutIm, im, old(self).state()),
    {
        self.port.set_output(im);
        self.register.set_carry_flag(0);
    }

    fn out_b(&mut self)
        ensures
            final(self).program() == old(self).program(),
            final(self).state() == dispatch(Opcode::OutB, 0, old(self).state()),
    {
        let register_b = self.register.register_b();
        self.port.set_output(register_b);
        self.register.set_carry_flag(0);
    }

    fn jmp(&mut self, im: u8)
        ensures
            final(self).program() == old(self).program(),
            final(self).state() == dispatch(Opcode::Jmp, im, old(self).state()),
    {
        self.register.set_pc(im);
        self.register.set_carry_flag(0);
    }

    fn jnc(&mut self, im: u8)
        ensures
            final(self).program() == old(self).program(),
            final(self).state() == dispatch(Opcode::Jnc, im, old(self).state()),
    {
        if self.register.carry_flag() == 0 {
            self.register.set_pc(im);
        }
        self.register.set_carry_flag(0);
    }
}

/// A jump sets the program counter and does not advance it; every other operation
/// leaves it to advance by one, within four bits.
pub proof fn lemma_pc_update(op: Opcode, im: u8, s: CpuState)
    ensures
        op is Jmp ==> execute(op, im, s).pc == im as nat % 16,
        op is Jnc ==> execute(op, im, s).pc == if s.carry == 0 {
            im as nat % 16
        } else {
            s.pc
        },
        !op.is_jump() ==> execute(op, im, s).pc == (s.pc + 1) % 16,
{
}

/// `MOV A, x` then `ADD A, y` leaves `(x + y) % 16` in A and raises the carry exactly
/// on overflow; run from address 0 of a three-byte program starting with those two
/// instructions, the machine halts in that state.
pub proof fn lemma_mov_then_add(x: u8, y: u8, last: u8, s: CpuState)
    requires
        x < 16,
        y < 16,
    ensures
        decode_byte((0x30 + x) as u8) == Some((Opcode::MovA, x)),
        decode_byte(y) == Some((Opcode::AddA, y)),
        execute(Opcode::AddA, y, execute(Opcode::MovA, x, s)).a == (x + y) % 16,
        execute(Opcode::AddA, y, execute(Opcode::MovA, x, s)).carry == if x + y > 15 {
            1nat
        } else {
            0nat
        },
        s.pc == 0 ==> run(seq![(0x30 + x) as u8, y, last], s, MAX_STEPS as nat) == Ok::<
            CpuState,
            EmulatorErr,
        >(execute(Opcode::AddA, y, execute(Opcode::MovA, x, s))),
{
    let rom = seq![(0x30 + x) as u8, y, last];
    if s.pc == 0 {
        let t1 = execute(Opcode::MovA, x, s);
        let t2 = execute(Opcode::AddA, y, t1);
        assert(step(rom, s) == Ok::<CpuState, EmulatorErr>(t1));
        assert(step(rom, t1) == Ok::<CpuState, EmulatorErr>(t2));
        assert(run(rom, t1, (MAX_STEPS - 1) as nat) == Ok::<CpuState, EmulatorErr>(t2));
    }
}

/// Every byte names an operation and none is a jump.
pub open spec fn is_straight_line(rom: Seq<u8>) -> bool {
    forall|i: int|
        0 <= i < rom.len() ==> #[trigger] decode_byte(rom[i]) is Some && !decode_byte(
            rom[i],
        )->Some_0.0.is_jump()
}

/// A run that halts within some number of instructions halts the same way with more.
pub proof fn lemma_run_more_fuel(rom: Seq<u8>, s: CpuState, fuel: nat, more: nat)
    requires
        fuel <= more,
        run(rom, s, fuel) is Ok,
    ensures
        run(rom, s, more) == run(rom, s, fuel),
    decreases fuel,
{
    if let Ok(t) = step(rom, s) {
        if !halts(rom, t) {
            lemma_run_more_fuel(rom, t, (fuel - 1) as nat, (more - 1) as nat);
        }
    }
}

proof fn lemma_straight_line_from(rom: Seq<u8>, s: CpuState, fuel: nat)
    requires
        rom.len() <= 16,
        is_straight_line(rom),
        s.pc + 1 < rom.len(),
        fuel + 1 + s.pc >= rom.len(),
    ensures
        run(rom, s, fuel) is Ok,
        run(rom, s, fuel)->Ok_0.pc == rom.len() - 1,
    decreases rom.len() - s.pc,
{
    assert(decode_byte(rom[s.pc as int]) is Some);
    let t = step(rom, s)->Ok_0;
    if !halts(rom, t) {
        lemma_straight_line_from(rom, t, (fuel - 1) as nat);
    }
}

/// A program of `n` bytes without jumps, run from address 0, halts within `n`
/// instructions with the program counter at its last address (at 1 for a one-byte
/// program, whose single instruction still executes).
pub proof fn lemma_straight_line_halts(rom: Seq<u8>, s: CpuState)
    requires
        1 <= rom.len() <= 16,
        is_straight_line(rom),
        s.pc == 0,
    ensures
        run(rom, s, rom.len()) is Ok,
        run(rom, s, rom.len())->Ok_0.pc == if rom.len() == 1 {
            1
        } else {
            rom.len() - 1
        },
        run(rom, s, MAX_STEPS as nat) == run(rom, s, rom.len()),
{
    if rom.len() == 1 {
        assert(decode_byte(rom[0]) is Some);
    } else {
        lemma_straight_line_from(rom, s, rom.len());
    }
    lemma_run_more_fuel(rom, s, rom.len(), MAX_STEPS as nat);
}

} // verus!
