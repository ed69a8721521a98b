use vstd::prelude::*;
use vstd::string::StrSliceExecFns;
use crate::error::EmulatorErr;
use crate::emulator::decode_byte;
use crate::op::{lemma_code_round_trip, Opcode};
use crate::token::{Register, Token};

verus! {

/// The value of a string of binary digits, the last one least significant; a
/// character other than '1' counts as a zero digit.
pub open spec fn binary_value(s: Seq<char>) -> nat
    decreases s.len(),
{
    if s.len() == 0 {
        0
    } else {
        2 * binary_value(s.drop_last()) + if s.last() == '1' {
            1nat
        } else {
            0nat
        }
    }
}

/// A nonempty string of the characters '0' and '1'.
pub open spec fn is_binary_literal(s: Seq<char>) -> bool {
    s.len() > 0 && forall|i: int| 0 <= i < s.len() ==> s[i] == '0' || s[i] == '1'
}

/// The operand nibble that an immediate's text stands for: a binary literal whose
/// value fits in a byte, masked to its low four bits.
pub open spec fn immediate_of(text: Seq<char>) -> Option<u8> {
    if is_binary_literal(text) && binary_value(text) < 256 {
        Some((binary_value(text) % 16) as u8)
    } else {
        None
    }
}

/// The operation a token assembles to; the register selects between the A and B forms.
pub open spec fn token_opcode(t: Token) -> Opcode {
    match t {
        Token::Mov(Register::A, _) => Opcode::MovA,
        Token::Mov(Register::B, _) => Opcode::MovB,
        Token::MovAB => Opcode::MovA2B,
        Token::MovBA => Opcode::MovB2A,
        Token::Add(Register::A, _) => Opcode::AddA,
        Token::Add(Register::B, _) => Opcode::AddB,
        Token::Jmp(_) => Opcode::Jmp,
        Token::Jnc(_) => Opcode::Jnc,
        Token::In(Register::A) => Opcode::InA,
        Token::In(Register::B) => Opcode::InB,
        Token::OutB => Opcode::OutB,
        Token::OutIm(_) => Opcode::OutIm,
    }
}

/// The text of a token's immediate operand, for the forms that have one.
pub open spec fn token_immediate(t: Token) -> Option<Seq<char>> {
    match t {
        Token::Mov(_, im) => Some(im@),
        Token::Add(_, im) => Some(im@),
        Token::Jmp(im) => Some(im@),
        Token::Jnc(im) => Some(im@),
        Token::OutIm(im) => Some(im@),
        _ => None,
    }
}

/// The instruction byte of a token: operation code in the high nibble, operand (or
/// zero) in the low one; none when the immediate does not parse.
pub open spec fn encode(t: Token) -> Option<u8> {
    let high = token_opcode(t).spec_code() as nat * 16;
    match token_immediate(t) {
        Some(text) => match immediate_of(text) {
            Some(v) => Some((high + v) as u8),
            None => None,
        },
        None => Some(high as u8),
    }
}

/// The error that a token whose immediate does not parse gives: the immediate's text.
pub open spec fn is_parse_error_for(e: EmulatorErr, t: Token) -> bool {
    match e {
        EmulatorErr::ImmediateParseError(s) => token_immediate(t) == Some(s@),
        _ => false,
    }
}

proof fn lemma_prefix_value(s: Seq<char>, i: int, j: int)
    requires
        0 <= i <= j <= s.len(),
    ensures
        binary_value(s.take(i)) <= binary_value(s.take(j)),
    decreases j - i,
{
    if i < j {
        lemma_prefix_value(s, i, j - 1);
        assert(s.take(j).drop_last() =~= s.take(j - 1));
    }
}

/// Reads a binary literal: `Some` of its value exactly when `text` is a nonempty
/// string of '0' and '1' whose value fits in a byte.
pub fn parse_binary(text: &str) -> (r: Option<u8>)
    ensures
        r == (if is_binary_literal(text@) && binary_value(text@) < 256 {
            Some(binary_value(text@) as u8)
        } else {
            None
        }),
{
    let n = text.unicode_len();
    if n == 0 {
        return None;
    }
    let mut value: u16 = 0;
    let mut i: usize = 0;
    while i < n
        invariant
            n == text@.len(),
            i <= n,
            value == binary_value(text@.take(i as int)),
            value < 256,
            forall|j: int| 0 <= j < i ==> text@[j] == '0' || text@[j] == '1',
        decreases n - i,
    {
        let c = text.get_char(i);
        let digit: u16 = if c == '0' {
            0
        } else if c == '1' {
            1
        } else {
            return None;
        };
        assert(text@.take(i + 1).drop_last() =~= text@.take(i as int));
        value = 2 * value + digit;
        if value > 255 {
            proof {
                lemma_prefix_value(text@, i + 1, n as int);
                assert(text@.take(n as int) =~= text@);
            }
            return None;
        }
        i = i + 1;
    }
    assert(text@.take(n as int) =~= text@);
    Some(value as u8)
}

/// Decoding the byte that a token assembles to gives back the token's operation and
/// its operand: assembled programs run as their source reads.
pub proof fn lemma_decode_encode(t: Token)
    requires
        encode(t) is Some,
    ensures
        decode_byte(encode(t)->Some_0) == Some(
            (
                token_opcode(t),
                match token_immediate(t) {
                    Some(text) => immediate_of(text)->Some_0,
                    None => 0u8,
                },
            ),
        ),
{
    lemma_code_round_trip(token_opcode(t), 0);
}

/// The assembler back end: turns tokens into instruction bytes.
pub struct Compiler;

impl Compiler {
    pub fn new() -> (r: Compiler) {
        Compiler
    }

    /// One byte per token, in order; fails on the first token whose immediate does
    /// not parse, with that immediate's text.
    pub fn compile(&self, tokens: Vec<Token>) -> (r: Result<Vec<u8>, EmulatorErr>)
        ensures
            r is Ok <==> forall|i: int| 0 <= i < tokens@.len() ==> encode(#[trigger] tokens@[i]) is Some,
            r is Ok ==> r->Ok_0@.len() == tokens@.len() && forall|i: int|
                0 <= i < tokens@.len() ==> r->Ok_0@[i] == encode(#[trigger] tokens@[i])->Some_0,
            r is Err ==> exists|i: int|
                0 <= i < tokens@.len() && encode(#[trigger] tokens@[i]) is None
                    && is_parse_error_for(r->Err_0, tokens@[i])
                    && forall|j: int| 0 <= j < i ==> encode(#[trigger] tokens@[j]) is Some,
    {
        let mut result: Vec<u8> = Vec::new();
        let mut i: usize = 0;
        while i < tokens.len()
            invariant
                i <= tokens@.len(),
                result@.len() == i,
                forall|j: int| 0 <= j < i ==> encode(#[trigger] tokens@[j]) is Some,
                forall|j: int| 0 <= j < i ==> result@[j] == encode(#[trigger] tokens@[j])->Some_0,
            decreases tokens@.len() - i,
        {
            let program = match &tokens[i] {
                Token::Mov(Register::A, im) => self.gen_bin_code(0b0011, im),
                Token::Mov(Register::B, im) => self.gen_bin_code(0b0111, im),
                Token::MovAB => Ok(self.gen_bin_code_with_zero_padding(0b0001)),
                Token::MovBA => Ok(self.gen_bin_code_with_zero_padding(0b0100)),
                Token::Add(Register::A, im) => self.gen_bin_code(0b0000, im),
                Token::Add(Register::B, im) => self.gen_bin_code(0b0101, im),
                Token::Jmp(im) => self.gen_bin_code(0b1111, im),
                Token::Jnc(im) => self.gen_bin_code(0b1110, im),
                Token::In(Register::A) => Ok(self.gen_bin_code_with_zero_padding(0b0010)),
                Token::In(Register::B) => Ok(self.gen_bin_code_with_zero_padding(0b0110)),
                Token::OutB => Ok(self.gen_bin_code_with_zero_padding(0b1001)),
                Token::OutIm(im) => self.gen_bin_code(0b1011, im),
            };
            match program {
                Ok(byte) => result.push(byte),
                Err(e) => {
                    assert(encode(tokens@[i as int]) is None);
                    return Err(e);
                },
            }
            i = i + 1;
        }
        Ok(result)
    }

    /// The byte of an operation code and an immediate operand given as text.
    fn gen_bin_code(&self, op: u8, im: &String) -> (r: Result<u8, EmulatorErr>)
        requires
            op < 16,
        ensures
            match immediate_of(im@) {
                Some(v) => r == Ok::<u8, EmulatorErr>((op * 16 + v) as u8),
                None => r is Err && (match r->Err_0 {
                    EmulatorErr::ImmediateParseError(s) => s@ == im@,
                    _ => false,
                }),
            },
    {
        let shift_op = op * 16;
        match parse_binary(im.as_str()) {
            Some(value) => Ok(shift_op + value % 16),
            None => Err(EmulatorErr::ImmediateParseError(im.clone())),
        }
    }

    /// The byte of an operation code whose operand nibble is zero.
    fn gen_bin_code_with_zero_padding(&self, op: u8) -> (r: u8)
        requires
            op < 16,
        ensures
            r == op * 16,
    {
        op * 16
    }
}

} // verus!
