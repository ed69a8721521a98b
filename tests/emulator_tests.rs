use td4emu::emulator::CpuEmulator;
use td4emu::port::Port;
use td4emu::register::Register;
use td4emu::rom::Rom;

#[test]
fn test_mov_a() {
    let rom = Rom::new(vec![0b00110001]).unwrap();
    let register = Register::new();
    let port = Port::new(0b0000, 0b0000);
    let mut emu = CpuEmulator::with(register, port, rom);
    let proceeded = emu.exec();

    assert!(proceeded.is_ok());
    assert_eq!(emu.register().register_a(), 1);
    assert_eq!(emu.register().register_b(), 0);
    assert_eq!(emu.register().pc(), 1);
    assert_eq!(emu.register().carry_flag(), 0);
}

#[test]
fn test_mov_b() {
    let rom = Rom::new(vec![0b01110001]).unwrap();
    let register = Register::new();
    let port = Port::new(0b0000, 0b0000);
    let mut emu = CpuEmulator::with(register, port, rom);
    let proceeded = emu.exec();

    assert!(proceeded.is_ok());
    assert_eq!(emu.register().register_a(), 0);
    assert_eq!(emu.register().register_b(), 1);
    assert_eq!(emu.register().pc(), 1);
    assert_eq!(emu.register().carry_flag(), 0);
}

#[test]
fn test_mov_a2b() {
    let rom = Rom::new(vec![0b00010000]).unwrap();
    let mut register = Register::new();
    register.set_register_b(2);
    let port = Port::new(0b0000, 0b0000);
    let mut emu = CpuEmulator::with(register, port, rom);

    assert_eq!(emu.register().register_a(), 0);

    let proceeded = emu.exec();

    assert!(proceeded.is_ok());
    assert_eq!(emu.register().register_a(), 2);
    assert_eq!(emu.register().register_b(), 2);
    assert_eq!(emu.register().pc(), 1);
    assert_eq!(emu.register().carry_flag(), 0);
}

#[test]
fn test_mov_b2a() {
    let rom = Rom::new(vec![0b01000000]).unwrap();
    let mut register = Register::new();
    register.set_register_a(2);
    let port = Port::new(0b0000, 0b0000);
    let mut emu = CpuEmulator::with(register, port, rom);

    assert_eq!(emu.register().register_b(), 0);

    let proceeded = emu.exec();

    assert!(proceeded.is_ok());
    assert_eq!(emu.register().register_a(), 2);
    assert_eq!(emu.register().register_b(), 2);
    assert_eq!(emu.register().pc(), 1);
    assert_eq!(emu.register().carry_flag(), 0);
}

#[test]
fn test_add_a_without_carrying() {
    let rom = Rom::new(vec![0b00000001]).unwrap();
    let mut register = Register::new();
    register.set_register_a(1);
    let port = Port::new(0b0000, 0b0000);
    let mut emu = CpuEmulator::with(register, port, rom);
    let proceeded = emu.exec();

    assert!(proceeded.is_ok());
    assert_eq!(emu.register().register_a(), 2);
    assert_eq!(emu.register().register_b(), 0);
    assert_eq!(emu.register().pc(), 1);
    assert_eq!(emu.register().carry_flag(), 0);
}

#[test]
fn test_add_b_without_carrying() {
    let rom = Rom::new(vec![0b01010001]).unwrap();
    let mut register = Register::new();
    register.set_register_b(1);
    let port = Port::new(0b0000, 0b0000);
    let mut emu = CpuEmulator::with(register, port, rom);
    let proceeded = emu.exec();

    assert!(proceeded.is_ok());
    assert_eq!(emu.register().register_a(), 0);
    assert_eq!(emu.register().register_b(), 2);
    assert_eq!(emu.register().pc(), 1);
    assert_eq!(emu.register().carry_flag(), 0);
}

#[test]
fn test_jmp() {
    let rom = Rom::new(vec![0b11110000]).unwrap();
    let register = Register::new();
    let port = Port::new(0b0000, 0b0000);
    let mut emu = CpuEmulator::with(register, port, rom);
    let proceeded= emu.exec();

    assert!(proceeded.is_ok());
    assert_eq!(emu.register().pc(), 0);
}

#[test]
fn test_port_in_a() {
    let rom = Rom::new(vec![0b00100000]).unwrap();
    let register = Register::new();
    let port = Port::new(0b0001, 0b0000);
    let mut emu = CpuEmulator::with(register, port, rom);
    let proceeded = emu.exec();

    assert!(proceeded.is_ok());
    assert_eq!(emu.register().register_a(), 1);
    assert_eq!(emu.register().carry_flag(), 0);
}

#[test]
fn test_port_in_b() {
    let rom = Rom::new(vec![0b01100000]).unwrap();
    let register = Register::new();
    let port = Port::new(0b0011, 0b0000);
    let mut emu = CpuEmulator::with(register, port, rom);
    let proceeded = emu.exec();

    assert!(proceeded.is_ok());
    assert_eq!(emu.register().register_b(), 3);
    assert_eq!(emu.register().carry_flag(), 0);
}

#[test]
fn test_port_out_b() {
    let rom = Rom::new(vec![0b10010000]).unwrap();
    let mut register = Register::new();
    register.set_register_b(0b0011);
    let port = Port::new(0b0000, 0b0000);
    let mut emu = CpuEmulator::with(register, port, rom);
    let proceeded = emu.exec();

    assert!(proceeded.is_ok());
    assert_eq!(emu.port().output(), 0b0011);
    assert_eq!(emu.register().carry_flag(), 0);
}

#[test]
fn test_port_out_im() {
    let rom = Rom::new(vec![0b10110011]).unwrap();
    let register = Register::new();
    let port = Port::new(0b0000, 0b0000);
    let mut emu = CpuEmulator::with(register, port, rom);
    let proceeded = emu.exec();

    assert!(proceeded.is_ok());
    assert_eq!(emu.port().output(), 0b0011);
    assert_eq!(emu.register().carry_flag(), 0);
}
