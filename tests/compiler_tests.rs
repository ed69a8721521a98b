use td4emu::compiler::Compiler;
use td4emu::error::EmulatorErr;
use td4emu::token::Register;
use td4emu::token::Token::{Add, In, Jmp, Jnc, Mov, MovAB, MovBA, OutB, OutIm};

#[test]
fn test_compile_mov_a() {
    let compiler = Compiler::new();
    let program = compiler.compile(vec![Mov(Register::A, "0001".to_string())]);
    assert_eq!(program.unwrap(), vec![0b00110001]);
}

#[test]
fn test_compile_mov_b() {
    let compiler = Compiler::new();
    let program = compiler.compile(vec![Mov(Register::B, "0001".to_string())]);
    assert_eq!(program.unwrap(), vec![0b01110001]);
}

#[test]
fn test_compile_mov_ab() {
    let compiler = Compiler::new();
    let program = compiler.compile(vec![MovAB]);
    assert_eq!(program.unwrap(), vec![0b00010000]);
}

#[test]
fn test_conpile_mov_ba() {
    let compiler = Compiler::new();
    let program = compiler.compile(vec![MovBA]);
    assert_eq!(program.unwrap(), vec![0b01000000]);
}

#[test]
fn test_compile_add_a() {
    let compiler = Compiler::new();
    let program = compiler.compile(vec![Add(Register::A, "0001".to_string())]);
    assert_eq!(program.unwrap(), vec![0b00000001]);
}

#[test]
fn test_compile_add_b() {
    let compiler = Compiler::new();
    let program = compiler.compile(vec![Add(Register::B, "0001".to_string())]);
    assert_eq!(program.unwrap(), vec![0b01010001]);
}

#[test]
fn test_compile_jmp() {
    let compiler = Compiler::new();
    let program = compiler.compile(vec![Jmp("0001".to_string())]);
    assert_eq!(program.unwrap(), vec![0b11110001]);
}

#[test]
fn test_compile_jnc() {
    let compiler = Compiler::new();
    let program = compiler.compile(vec![Jnc("0001".to_string())]);
    assert_eq!(program.unwrap(), vec![0b11100001]);
}
#[test]
fn test_compile_in_a() {
    let compiler = Compiler::new();
    let program = compiler.compile(vec![In(Register::A)]);
    assert_eq!(program.unwrap(), vec![0b00100000]);
}
#[test]
fn test_compile_in_b() {
    let compiler = Compiler::new();
    let program = compiler.compile(vec![In(Register::B)]);
    assert_eq!(program.unwrap(), vec![0b01100000]);
}

#[test]
fn test_compile_out_im() {
    let compiler = Compiler::new();
    let program = compiler.compile(vec![OutIm("0001".to_string())]);
    assert_eq!(program.unwrap(), vec![0b10110001]);
}

#[test]
fn test_compile_out_b() {
    let compiler = Compiler::new();
    let program = compiler.compile(vec![OutB]);
    assert_eq!(program.unwrap(), vec![0b10010000]);
}

#[test]
fn compile_keeps_token_order() {
    let compiler = Compiler::new();
    let program = compiler.compile(vec![
        Mov(Register::A, "0001".to_string()),
        Add(Register::A, "0001".to_string()),
        MovBA,
        OutB,
        Jmp("0100".to_string()),
    ]);
    assert_eq!(program.unwrap(), vec![0b00110001, 0b00000001, 0b01000000, 0b10010000, 0b11110100]);
}

#[test]
fn compile_empty_program() {
    let compiler = Compiler::new();
    assert_eq!(compiler.compile(vec![]).unwrap(), Vec::<u8>::new());
}

#[test]
fn compile_masks_immediate_to_low_nibble() {
    let compiler = Compiler::new();
    let program = compiler.compile(vec![OutIm("10011".to_string()), Jnc("11111111".to_string())]);
    assert_eq!(program.unwrap(), vec![0b10110011, 0b11101111]);
}

#[test]
fn compile_rejects_non_binary_digit() {
    let compiler = Compiler::new();
    let program = compiler.compile(vec![Mov(Register::A, "0021".to_string())]);
    assert_eq!(program, Err(EmulatorErr::ImmediateParseError("0021".to_string())));
}

#[test]
fn compile_rejects_empty_immediate() {
    let compiler = Compiler::new();
    let program = compiler.compile(vec![Jmp("".to_string())]);
    assert_eq!(program, Err(EmulatorErr::ImmediateParseError("".to_string())));
}

#[test]
fn compile_rejects_value_wider_than_a_byte() {
    let compiler = Compiler::new();
    let program = compiler.compile(vec![OutIm("100000000".to_string())]);
    assert_eq!(program, Err(EmulatorErr::ImmediateParseError("100000000".to_string())));
}

#[test]
fn compile_rejects_sign() {
    let compiler = Compiler::new();
    let program = compiler.compile(vec![Add(Register::B, "+1".to_string())]);
    assert_eq!(program, Err(EmulatorErr::ImmediateParseError("+1".to_string())));
}

#[test]
fn compile_reports_first_bad_immediate() {
    let compiler = Compiler::new();
    let program = compiler.compile(vec![
        Mov(Register::A, "0001".to_string()),
        Add(Register::A, "2".to_string()),
        Jmp("x".to_string()),
    ]);
    assert_eq!(program, Err(EmulatorErr::ImmediateParseError("2".to_string())));
}
