use vstd::prelude::*;
use crate::helper::{spec_endian, spec_page_crossed};
use crate::emu::{
    NesModel, FLAG_B, FLAG_C, FLAG_D, FLAG_I, FLAG_N, FLAG_V, FLAG_Z, add16, add8, flag, spec_fetch,
    spec_fetch_abs, spec_nz, spec_pop, spec_push, spec_read, spec_write, with_flag, spec_nmi,
};

verus! {

/// How an instruction finds its operand.
#[derive(Clone, Copy, Debug, PartialEq, Eq, Structural)]
pub enum Mode {
    Implied,
    Accumulator,
    Immediate,
    ZeroPage,
    ZeroPageX,
    ZeroPageY,
    Absolute,
    AbsoluteX,
    AbsoluteY,
    IndirectX,
    IndirectY,
    Relative,
    Indirect,
}

/// The operations of the 6502 that this emulator carries out.
#[derive(Clone, Copy, Debug, PartialEq, Eq, Structural)]
pub enum Mnemonic {
    Adc, And, Asl, Bcc, Bcs, Beq, Bit, Bmi, Bne, Bpl, Brk, Bvc, Bvs, Clc, Cld, Cli, Clv, Cmp, Cpx,
    Cpy, Dec, Dex, Dey, Eor, Inc, Inx, Iny, Jmp, Jsr, Lda, Ldx, Ldy, Lsr, Nop, Ora, Pha, Php,
    Pla, Plp, Rol, Ror, Rti, Rts, Sbc, Sec, Sed, Sei, Sta, Stx, Sty, Tax, Tay, Tsx, Txa, Txs,
    Tya,
}

/// A decoded opcode: its operation, its addressing mode, its base cycle count, and whether a
/// page crossed by the operand address costs one cycle more.
#[derive(Clone, Copy, Debug, PartialEq, Eq, Structural)]
pub struct Instr {
    pub mnemonic: Mnemonic,
    pub mode: Mode,
    pub cycles: u8,
    pub page_penalty: bool,
}

/// An instruction with a fixed cycle count.
pub open spec fn ins(mnemonic: Mnemonic, mode: Mode, cycles: u8) -> Option<Instr> {
    Some(Instr { mnemonic, mode, cycles, page_penalty: false })
}

/// An instruction that takes one cycle more when its operand address crosses a page.
pub open spec fn ins_p(mnemonic: Mnemonic, mode: Mode, cycles: u8) -> Option<Instr> {
    Some(Instr { mnemonic, mode, cycles, page_penalty: true })
}

/// The opcode table: the instruction of each opcode that the emulator knows, `None` for the
/// others. Besides the official opcodes it knows the unofficial NOPs.
pub open spec fn decode(op: u8) -> Option<Instr> {
    match op {
        0x69 => ins(Mnemonic::Adc, Mode::Immediate, 2),
        0x65 => ins(Mnemonic::Adc, Mode::ZeroPage, 3),
        0x75 => ins(Mnemonic::Adc, Mode::ZeroPageX, 4),
        0x6D => ins(Mnemonic::Adc, Mode::Absolute, 4),
        0x7D => ins_p(Mnemonic::Adc, Mode::AbsoluteX, 4),
        0x79 => ins_p(Mnemonic::Adc, Mode::AbsoluteY, 4),
        0x61 => ins(Mnemonic::Adc, Mode::IndirectX, 6),
        0x71 => ins_p(Mnemonic::Adc, Mode::IndirectY, 5),
        0x29 => ins(Mnemonic::And, Mode::Immediate, 2),
        0x25 => ins(Mnemonic::And, Mode::ZeroPage, 3),
        0x35 => ins(Mnemonic::And, Mode::ZeroPageX, 4),
        0x2D => ins(Mnemonic::And, Mode::Absolute, 4),
        0x3D => ins_p(Mnemonic::And, Mode::AbsoluteX, 4),
        0x39 => ins_p(Mnemonic::And, Mode::AbsoluteY, 4),
        0x21 => ins(Mnemonic::And, Mode::IndirectX, 6),
        0x31 => ins_p(Mnemonic::And, Mode::IndirectY, 5),
        0x0A => ins(Mnemonic::Asl, Mode::Accumulator, 2),
        0x06 => ins(Mnemonic::Asl, Mode::ZeroPage, 5),
        0x16 => ins(Mnemonic::Asl, Mode::ZeroPageX, 6),
        0x0E => ins(Mnemonic::Asl, Mode::Absolute, 6),
        0x1E => ins(Mnemonic::Asl, Mode::AbsoluteX, 7),
        0x90 => ins(Mnemonic::Bcc, Mode::Relative, 2),
        0xB0 => ins(Mnemonic::Bcs, Mode::Relative, 2),
        0xF0 => ins(Mnemonic::Beq, Mode::Relative, 2),
        0x24 => ins(Mnemonic::Bit, Mode::ZeroPage, 3),
        0x2C => ins(Mnemonic::Bit, Mode::Absolute, 4),
        0x30 => ins(Mnemonic::Bmi, Mode::Relative, 2),
        0xD0 => ins(Mnemonic::Bne, Mode::Relative, 2),
        0x10 => ins(Mnemonic::Bpl, Mode::Relative, 2),
        0x00 => ins(Mnemonic::Brk, Mode::Implied, 7),
        0x50 => ins(Mnemonic::Bvc, Mode::Relative, 2),
        0x70 => ins(Mnemonic::Bvs, Mode::Relative, 2),
        0x18 => ins(Mnemonic::Clc, Mode::Implied, 2),
        0xD8 => ins(Mnemonic::Cld, Mode::Implied, 2),
        0x58 => ins(Mnemonic::Cli, Mode::Implied, 2),
        0xB8 => ins(Mnemonic::Clv, Mode::Implied, 2),
        0xC9 => ins(Mnemonic::Cmp, Mode::Immediate, 2),
        0xC5 => ins(Mnemonic::Cmp, Mode::ZeroPage, 3),
        0xD5 => ins(Mnemonic::Cmp, Mode::ZeroPageX, 4),
        0xCD => ins(Mnemonic::Cmp, Mode::Absolute, 4),
        0xDD => ins_p(Mnemonic::Cmp, Mode::AbsoluteX, 4),
        0xD9 => ins_p(Mnemonic::Cmp, Mode::AbsoluteY, 4),
        0xC1 => ins(Mnemonic::Cmp, Mode::IndirectX, 6),
        0xD1 => ins_p(Mnemonic::Cmp, Mode::IndirectY, 5),
        0xE0 => ins(Mnemonic::Cpx, Mode::Immediate, 2),
        0xE4 => ins(Mnemonic::Cpx, Mode::ZeroPage, 3),
        0xEC => ins(Mnemonic::Cpx, Mode::Absolute, 4),
        0xC0 => ins(Mnemonic::Cpy, Mode::Immediate, 2),
        0xC4 => ins(Mnemonic::Cpy, Mode::ZeroPage, 3),
        0xCC => ins(Mnemonic::Cpy, Mode::Absolute, 4),
        0xC6 => ins(Mnemonic::Dec, Mode::ZeroPage, 5),
        0xD6 => ins(Mnemonic::Dec, Mode::ZeroPageX, 6),
        0xCE => ins(Mnemonic::Dec, Mode::Absolute, 6),
        0xDE => ins(Mnemonic::Dec, Mode::AbsoluteX, 7),
        0xCA => ins(Mnemonic::Dex, Mode::Implied, 2),
        0x88 => ins(Mnemonic::Dey, Mode::Implied, 2),
        0x49 => ins(Mnemonic::Eor, Mode::Immediate, 2),
        0x45 => ins(Mnemonic::Eor, Mode::ZeroPage, 3),
        0x55 => ins(Mnemonic::Eor, Mode::ZeroPageX, 4),
        0x4D => ins(Mnemonic::Eor, Mode::Absolute, 4),
        0x5D => ins_p(Mnemonic::Eor, Mode::AbsoluteX, 4),
        0x59 => ins_p(Mnemonic::Eor, Mode::AbsoluteY, 4),
        0x41 => ins(Mnemonic::Eor, Mode::IndirectX, 6),
        0x51 => ins_p(Mnemonic::Eor, Mode::IndirectY, 5),
        0xE6 => ins(Mnemonic::Inc, Mode::ZeroPage, 5),
        0xF6 => ins(Mnemonic::Inc, Mode::ZeroPageX, 6),
        0xEE => ins(Mnemonic::Inc, Mode::Absolute, 6),
        0xFE => ins(Mnemonic::Inc, Mode::AbsoluteX, 7),
        0xE8 => ins(Mnemonic::Inx, Mode::Implied, 2),
        0xC8 => ins(Mnemonic::Iny, Mode::Implied, 2),
        0x4C => ins(Mnemonic::Jmp, Mode::Absolute, 3),
        0x6C => ins(Mnemonic::Jmp, Mode::Indirect, 5),
        0x20 => ins(Mnemonic::Jsr, Mode::Absolute, 6),
        0xA9 => ins(Mnemonic::Lda, Mode::Immediate, 2),
        0xA5 => ins(Mnemonic::Lda, Mode::ZeroPage, 3),
        0xB5 => ins(Mnemonic::Lda, Mode::ZeroPageX, 4),
        0xAD => ins(Mnemonic::Lda, Mode::Absolute, 4),
        0xBD => ins_p(Mnemonic::Lda, Mode::AbsoluteX, 4),
        0xB9 => ins_p(Mnemonic::Lda, Mode::AbsoluteY, 4),
        0xA1 => ins(Mnemonic::Lda, Mode::IndirectX, 6),
        0xB1 => ins_p(Mnemonic::Lda, Mode::IndirectY, 5),
        0xA2 => ins(Mnemonic::Ldx, Mode::Immediate, 2),
        0xA6 => ins(Mnemonic::Ldx, Mode::ZeroPage, 3),
        0xB6 => ins(Mnemonic::Ldx, Mode::ZeroPageY, 4),
        0xAE => ins(Mnemonic::Ldx, Mode::Absolute, 4),
        0xBE => ins_p(Mnemonic::Ldx, Mode::AbsoluteY, 4),
        0xA0 => ins(Mnemonic::Ldy, Mode::Immediate, 2),
        0xA4 => ins(Mnemonic::Ldy, Mode::ZeroPage, 3),
        0xB4 => ins(Mnemonic::Ldy, Mode::ZeroPageX, 4),
        0xAC => ins(Mnemonic::Ldy, Mode::Absolute, 4),
        0xBC => ins_p(Mnemonic::Ldy, Mode::AbsoluteX, 4),
        0x4A => ins(Mnemonic::Lsr, Mode::Accumulator, 2),
        0x46 => ins(Mnemonic::Lsr, Mode::ZeroPage, 5),
        0x56 => ins(Mnemonic::Lsr, Mode::ZeroPageX, 6),
        0x4E => ins(Mnemonic::Lsr, Mode::Absolute, 6),
        0x5E => ins(Mnemonic::Lsr, Mode::AbsoluteX, 7),
        0xEA => ins(Mnemonic::Nop, Mode::Implied, 2),
        0x1A => ins(Mnemonic::Nop, Mode::Implied, 2),
        0x3A => ins(Mnemonic::Nop, Mode::Implied, 2),
        0x5A => ins(Mnemonic::Nop, Mode::Implied, 2),
        0x7A => ins(Mnemonic::Nop, Mode::Implied, 2),
        0xDA => ins(Mnemonic::Nop, Mode::Implied, 2),
        0xFA => ins(Mnemonic::Nop, Mode::Implied, 2),
        0x09 => ins(Mnemonic::Ora, Mode::Immediate, 2),
        0x05 => ins(Mnemonic::Ora, Mode::ZeroPage, 3),
        0x15 => ins(Mnemonic::Ora, Mode::ZeroPageX, 4),
        0x0D => ins(Mnemonic::Ora, Mode::Absolute, 4),
        0x1D => ins_p(Mnemonic::Ora, Mode::AbsoluteX, 4),
        0x19 => ins_p(Mnemonic::Ora, Mode::AbsoluteY, 4),
        0x01 => ins(Mnemonic::Ora, Mode::IndirectX, 6),
        0x11 => ins_p(Mnemonic::Ora, Mode::IndirectY, 5),
        0x48 => ins(Mnemonic::Pha, Mode::Implied, 3),
        0x08 => ins(Mnemonic::Php, Mode::Implied, 3),
        0x68 => ins(Mnemonic::Pla, Mode::Implied, 4),
        0x28 => ins(Mnemonic::Plp, Mode::Implied, 4),
        0x2A => ins(Mnemonic::Rol, Mode::Accumulator, 2),
        0x26 => ins(Mnemonic::Rol, Mode::ZeroPage, 5),
        0x36 => ins(Mnemonic::Rol, Mode::ZeroPageX, 6),
        0x2E => ins(Mnemonic::Rol, Mode::Absolute, 6),
        0x3E => ins(Mnemonic::Rol, Mode::AbsoluteX, 7),
        0x6A => ins(Mnemonic::Ror, Mode::Accumulator, 2),
        0x66 => ins(Mnemonic::Ror, Mode::ZeroPage, 5),
        0x76 => ins(Mnemonic::Ror, Mode::ZeroPageX, 6),
        0x6E => ins(Mnemonic::Ror, Mode::Absolute, 6),
        0x7E => ins(Mnemonic::Ror, Mode::AbsoluteX, 7),
        0x40 => ins(Mnemonic::Rti, Mode::Implied, 6),
        0x60 => ins(Mnemonic::Rts, Mode::Implied, 6),
        0xE9 => ins(Mnemonic::Sbc, Mode::Immediate, 2),
        0xE5 => ins(Mnemonic::Sbc, Mode::ZeroPage, 3),
        0xF5 => ins(Mnemonic::Sbc, Mode::ZeroPageX, 4),
        0xED => ins(Mnemonic::Sbc, Mode::Absolute, 4),
        0xFD => ins_p(Mnemonic::Sbc, Mode::AbsoluteX, 4),
        0xF9 => ins_p(Mnemonic::Sbc, Mode::AbsoluteY, 4),
        0xE1 => ins(Mnemonic::Sbc, Mode::IndirectX, 6),
        0xF1 => ins_p(Mnemonic::Sbc, Mode::IndirectY, 5),
        0x38 => ins(Mnemonic::Sec, Mode::Implied, 2),
        0xF8 => ins(Mnemonic::Sed, Mode::Implied, 2),
        0x78 => ins(Mnemonic::Sei, Mode::Implied, 2),
        0x85 => ins(Mnemonic::Sta, Mode::ZeroPage, 3),
        0x95 => ins(Mnemonic::Sta, Mode::ZeroPageX, 4),
        0x8D => ins(Mnemonic::Sta, Mode::Absolute, 4),
        0x9D => ins(Mnemonic::Sta, Mode::AbsoluteX, 5),
        0x99 => ins(Mnemonic::Sta, Mode::AbsoluteY, 5),
        0x81 => ins(Mnemonic::Sta, Mode::IndirectX, 6),
        0x91 => ins(Mnemonic::Sta, Mode::IndirectY, 6),
        0x86 => ins(Mnemonic::Stx, Mode::ZeroPage, 3),
        0x96 => ins(Mnemonic::Stx, Mode::ZeroPageY, 4),
        0x8E => ins(Mnemonic::Stx, Mode::Absolute, 4),
        0x84 => ins(Mnemonic::Sty, Mode::ZeroPage, 3),
        0x94 => ins(Mnemonic::Sty, Mode::ZeroPageX, 4),
        0x8C => ins(Mnemonic::Sty, Mode::Absolute, 4),
        0xAA => ins(Mnemonic::Tax, Mode::Implied, 2),
        0xA8 => ins(Mnemonic::Tay, Mode::Implied, 2),
        0xBA => ins(Mnemonic::Tsx, Mode::Implied, 2),
        0x8A => ins(Mnemonic::Txa, Mode::Implied, 2),
        0x9A => ins(Mnemonic::Txs, Mode::Implied, 2),
        0x98 => ins(Mnemonic::Tya, Mode::Implied, 2),
        0x04 => ins(Mnemonic::Nop, Mode::ZeroPage, 3),
        0x44 => ins(Mnemonic::Nop, Mode::ZeroPage, 3),
        0x64 => ins(Mnemonic::Nop, Mode::ZeroPage, 3),
        0x0C => ins(Mnemonic::Nop, Mode::Absolute, 4),
        0x14 => ins(Mnemonic::Nop, Mode::ZeroPageX, 4),
        0x34 => ins(Mnemonic::Nop, Mode::ZeroPageX, 4),
        0x54 => ins(Mnemonic::Nop, Mode::ZeroPageX, 4),
        0x74 => ins(Mnemonic::Nop, Mode::ZeroPageX, 4),
        0xD4 => ins(Mnemonic::Nop, Mode::ZeroPageX, 4),
        0xF4 => ins(Mnemonic::Nop, Mode::ZeroPageX, 4),
        0x80 => ins(Mnemonic::Nop, Mode::Immediate, 2),
        0x82 => ins(Mnemonic::Nop, Mode::Immediate, 2),
        0x89 => ins(Mnemonic::Nop, Mode::Immediate, 2),
        0xC2 => ins(Mnemonic::Nop, Mode::Immediate, 2),
        0xE2 => ins(Mnemonic::Nop, Mode::Immediate, 2),
        0x1C => ins(Mnemonic::Nop, Mode::AbsoluteX, 5),
        0x3C => ins(Mnemonic::Nop, Mode::AbsoluteX, 5),
        0x5C => ins(Mnemonic::Nop, Mode::AbsoluteX, 5),
        0x7C => ins(Mnemonic::Nop, Mode::AbsoluteX, 5),
        0xDC => ins(Mnemonic::Nop, Mode::AbsoluteX, 5),
        0xFC => ins(Mnemonic::Nop, Mode::AbsoluteX, 5),
        _ => None,
    }
}

/// Looks an opcode up in the opcode table (see `decode`).
pub fn decode_op(op: u8) -> (r: Option<Instr>)
    ensures
        r == decode(op),
{
    match op {
        0x69 => Some(Instr { mnemonic: Mnemonic::Adc, mode: Mode::Immediate, cycles: 2, page_penalty: false }),
        0x65 => Some(Instr { mnemonic: Mnemonic::Adc, mode: Mode::ZeroPage, cycles: 3, page_penalty: false }),
        0x75 => Some(Instr { mnemonic: Mnemonic::Adc, mode: Mode::ZeroPageX, cycles: 4, page_penalty: false }),
        0x6D => Some(Instr { mnemonic: Mnemonic::Adc, mode: Mode::Absolute, cycles: 4, page_penalty: false }),
        0x7D => Some(Instr { mnemonic: Mnemonic::Adc, mode: Mode::AbsoluteX, cycles: 4, page_penalty: true }),
        0x79 => Some(Instr { mnemonic: Mnemonic::Adc, mode: Mode::AbsoluteY, cycles: 4, page_penalty: true }),
        0x61 => Some(Instr { mnemonic: Mnemonic::Adc, mode: Mode::IndirectX, cycles: 6, page_penalty: false }),
        0x71 => Some(Instr { mnemonic: Mnemonic::Adc, mode: Mode::IndirectY, cycles: 5, page_penalty: true }),
        0x29 => Some(Instr { mnemonic: Mnemonic::And, mode: Mode::Immediate, cycles: 2, page_penalty: false }),
        0x25 => Some(Instr { mnemonic: Mnemonic::And, mode: Mode::ZeroPage, cycles: 3, page_penalty: false }),
        0x35 => Some(Instr { mnemonic: Mnemonic::And, mode: Mode::ZeroPageX, cycles: 4, page_penalty: false }),
        0x2D => Some(Instr { mnemonic: Mnemonic::And, mode: Mode::Absolute, cycles: 4, page_penalty: false }),
        0x3D => Some(Instr { mnemonic: Mnemonic::And, mode: Mode::AbsoluteX, cycles: 4, page_penalty: true }),
        0x39 => Some(Instr { mnemonic: Mnemonic::And, mode: Mode::AbsoluteY, cycles: 4, page_penalty: true }),
        0x21 => Some(Instr { mnemonic: Mnemonic::And, mode: Mode::IndirectX, cycles: 6, page_penalty: false }),
        0x31 => Some(Instr { mnemonic: Mnemonic::And, mode: Mode::IndirectY, cycles: 5, page_penalty: true }),
        0x0A => Some(Instr { mnemonic: Mnemonic::Asl, mode: Mode::Accumulator, cycles: 2, page_penalty: false }),
        0x06 => Some(Instr { mnemonic: Mnemonic::Asl, mode: Mode::ZeroPage, cycles: 5, page_penalty: false }),
        0x16 => Some(Instr { mnemonic: Mnemonic::Asl, mode: Mode::ZeroPageX, cycles: 6, page_penalty: false }),
        0x0E => Some(Instr { mnemonic: Mnemonic::Asl, mode: Mode::Absolute, cycles: 6, page_penalty: false }),
        0x1E => Some(Instr { mnemonic: Mnemonic::Asl, mode: Mode::AbsoluteX, cycles: 7, page_penalty: false }),
        0x90 => Some(Instr { mnemonic: Mnemonic::Bcc, mode: Mode::Relative, cycles: 2, page_penalty: false }),
        0xB0 => Some(Instr { mnemonic: Mnemonic::Bcs, mode: Mode::Relative, cycles: 2, page_penalty: false }),
        0xF0 => Some(Instr { mnemonic: Mnemonic::Beq, mode: Mode::Relative, cycles: 2, page_penalty: false }),
        0x24 => Some(Instr { mnemonic: Mnemonic::Bit, mode: Mode::ZeroPage, cycles: 3, page_penalty: false }),
        0x2C => Some(Instr { mnemonic: Mnemonic::Bit, mode: Mode::Absolute, cycles: 4, page_penalty: false }),
        0x30 => Some(Instr { mnemonic: Mnemonic::Bmi, mode: Mode::Relative, cycles: 2, page_penalty: false }),
        0xD0 => Some(Instr { mnemonic: Mnemonic::Bne, mode: Mode::Relative, cycles: 2, page_penalty: false }),
        0x10 => Some(Instr { mnemonic: Mnemonic::Bpl, mode: Mode::Relative, cycles: 2, page_penalty: false }),
        0x00 => Some(Instr { mnemonic: Mnemonic::Brk, mode: Mode::Implied, cycles: 7, page_penalty: false }),
        0x50 => Some(Instr { mnemonic: Mnemonic::Bvc, mode: Mode::Relative, cycles: 2, page_penalty: false }),
        0x70 => Some(Instr { mnemonic: Mnemonic::Bvs, mode: Mode::Relative, cycles: 2, page_penalty: false }),
        0x18 => Some(Instr { mnemonic: Mnemonic::Clc, mode: Mode::Implied, cycles: 2, page_penalty: false }),
        0xD8 => Some(Instr { mnemonic: Mnemonic::Cld, mode: Mode::Implied, cycles: 2, page_penalty: false }),
        0x58 => Some(Instr { mnemonic: Mnemonic::Cli, mode: Mode::Implied, cycles: 2, page_penalty: false }),
        0xB8 => Some(Instr { mnemonic: Mnemonic::Clv, mode: Mode::Implied, cycles: 2, page_penalty: false }),
        0xC9 => Some(Instr { mnemonic: Mnemonic::Cmp, mode: Mode::Immediate, cycles: 2, page_penalty: false }),
        0xC5 => Some(Instr { mnemonic: Mnemonic::Cmp, mode: Mode::ZeroPage, cycles: 3, page_penalty: false }),
        0xD5 => Some(Instr { mnemonic: Mnemonic::Cmp, mode: Mode::ZeroPageX, cycles: 4, page_penalty: false }),
        0xCD => Some(Instr { mnemonic: Mnemonic::Cmp, mode: Mode::Absolute, cycles: 4, page_penalty: false }),
        0xDD => Some(Instr { mnemonic: Mnemonic::Cmp, mode: Mode::AbsoluteX, cycles: 4, page_penalty: true }),
        0xD9 => Some(Instr { mnemonic: Mnemonic::Cmp, mode: Mode::AbsoluteY, cycles: 4, page_penalty: true }),
        0xC1 => Some(Instr { mnemonic: Mnemonic::Cmp, mode: Mode::IndirectX, cycles: 6, page_penalty: false }),
        0xD1 => Some(Instr { mnemonic: Mnemonic::Cmp, mode: Mode::IndirectY, cycles: 5, page_penalty: true }),
        0xE0 => Some(Instr { mnemonic: Mnemonic::Cpx, mode: Mode::Immediate, cycles: 2, page_penalty: false }),
        0xE4 => Some(Instr { mnemonic: Mnemonic::Cpx, mode: Mode::ZeroPage, cycles: 3, page_penalty: false }),
        0xEC => Some(Instr { mnemonic: Mnemonic::Cpx, mode: Mode::Absolute, cycles: 4, page_penalty: false }),
        0xC0 => Some(Instr { mnemonic: Mnemonic::Cpy, mode: Mode::Immediate, cycles: 2, page_penalty: false }),
        0xC4 => Some(Instr { mnemonic: Mnemonic::Cpy, mode: Mode::ZeroPage, cycles: 3, page_penalty: false }),
        0xCC => Some(Instr { mnemonic: Mnemonic::Cpy, mode: Mode::Absolute, cycles: 4, page_penalty: false }),
        0xC6 => Some(Instr { mnemonic: Mnemonic::Dec, mode: Mode::ZeroPage, cycles: 5, page_penalty: false }),
        0xD6 => Some(Instr { mnemonic: Mnemonic::Dec, mode: Mode::ZeroPageX, cycles: 6, page_penalty: false }),
        0xCE => Some(Instr { mnemonic: Mnemonic::Dec, mode: Mode::Absolute, cycles: 6, page_penalty: false }),
        0xDE => Some(Instr { mnemonic: Mnemonic::Dec, mode: Mode::AbsoluteX, cycles: 7, page_penalty: false }),
        0xCA => Some(Instr { mnemonic: Mnemonic::Dex, mode: Mode::Implied, cycles: 2, page_penalty: false }),
        0x88 => Some(Instr { mnemonic: Mnemonic::Dey, mode: Mode::Implied, cycles: 2, page_penalty: false }),
        0x49 => Some(Instr { mnemonic: Mnemonic::Eor, mode: Mode::Immediate, cycles: 2, page_penalty: false }),
        0x45 => Some(Instr { mnemonic: Mnemonic::Eor, mode: Mode::ZeroPage, cycles: 3, page_penalty: false }),
        0x55 => Some(Instr { mnemonic: Mnemonic::Eor, mode: Mode::ZeroPageX, cycles: 4, page_penalty: false }),
        0x4D => Some(Instr { mnemonic: Mnemonic::Eor, mode: Mode::Absolute, cycles: 4, page_penalty: false }),
        0x5D => Some(Instr { mnemonic: Mnemonic::Eor, mode: Mode::AbsoluteX, cycles: 4, page_penalty: true }),
        0x59 => Some(Instr { mnemonic: Mnemonic::Eor, mode: Mode::AbsoluteY, cycles: 4, page_penalty: true }),
        0x41 => Some(Instr { mnemonic: Mnemonic::Eor, mode: Mode::IndirectX, cycles: 6, page_penalty: false }),
        0x51 => Some(Instr { mnemonic: Mnemonic::Eor, mode: Mode::IndirectY, cycles: 5, page_penalty: true }),
        0xE6 => Some(Instr { mnemonic: Mnemonic::Inc, mode: Mode::ZeroPage, cycles: 5, page_penalty: false }),
        0xF6 => Some(Instr { mnemonic: Mnemonic::Inc, mode: Mode::ZeroPageX, cycles: 6, page_penalty: false }),
        0xEE => Some(Instr { mnemonic: Mnemonic::Inc, mode: Mode::Absolute, cycles: 6, page_penalty: false }),
        0xFE => Some(Instr { mnemonic: Mnemonic::Inc, mode: Mode::AbsoluteX, cycles: 7, page_penalty: false }),
        0xE8 => Some(Instr { mnemonic: Mnemonic::Inx, mode: Mode::Implied, cycles: 2, page_penalty: false }),
        0xC8 => Some(Instr { mnemonic: Mnemonic::Iny, mode: Mode::Implied, cycles: 2, page_penalty: false }),
        0x4C => Some(Instr { mnemonic: Mnemonic::Jmp, mode: Mode::Absolute, cycles: 3, page_penalty: false }),
        0x6C => Some(Instr { mnemonic: Mnemonic::Jmp, mode: Mode::Indirect, cycles: 5, page_penalty: false }),
        0x20 => Some(Instr { mnemonic: Mnemonic::Jsr, mode: Mode::Absolute, cycles: 6, page_penalty: false }),
        0xA9 => Some(Instr { mnemonic: Mnemonic::Lda, mode: Mode::Immediate, cycles: 2, page_penalty: false }),
        0xA5 => Some(Instr { mnemonic: Mnemonic::Lda, mode: Mode::ZeroPage, cycles: 3, page_penalty: false }),
        0xB5 => Some(Instr { mnemonic: Mnemonic::Lda, mode: Mode::ZeroPageX, cycles: 4, page_penalty: false }),
        0xAD => Some(Instr { mnemonic: Mnemonic::Lda, mode: Mode::Absolute, cycles: 4, page_penalty: false }),
        0xBD => Some(Instr { mnemonic: Mnemonic::Lda, mode: Mode::AbsoluteX, cycles: 4, page_penalty: true }),
        0xB9 => Some(Instr { mnemonic: Mnemonic::Lda, mode: Mode::AbsoluteY, cycles: 4, page_penalty: true }),
        0xA1 => Some(Instr { mnemonic: Mnemonic::Lda, mode: Mode::IndirectX, cycles: 6, page_penalty: false }),
        0xB1 => Some(Instr { mnemonic: Mnemonic::Lda, mode: Mode::IndirectY, cycles: 5, page_penalty: true }),
        0xA2 => Some(Instr { mnemonic: Mnemonic::Ldx, mode: Mode::Immediate, cycles: 2, page_penalty: false }),
        0xA6 => Some(Instr { mnemonic: Mnemonic::Ldx, mode: Mode::ZeroPage, cycles: 3, page_penalty: false }),
        0xB6 => Some(Instr { mnemonic: Mnemonic::Ldx, mode: Mode::ZeroPageY, cycles: 4, page_penalty: false }),
        0xAE => Some(Instr { mnemonic: Mnemonic::Ldx, mode: Mode::Absolute, cycles: 4, page_penalty: false }),
        0xBE => Some(Instr { mnemonic: Mnemonic::Ldx, mode: Mode::AbsoluteY, cycles: 4, page_penalty: true }),
        0xA0 => Some(Instr { mnemonic: Mnemonic::Ldy, mode: Mode::Immediate, cycles: 2, page_penalty: false }),
        0xA4 => Some(Instr { mnemonic: Mnemonic::Ldy, mode: Mode::ZeroPage, cycles: 3, page_penalty: false }),
        0xB4 => Some(Instr { mnemonic: Mnemonic::Ldy, mode: Mode::ZeroPageX, cycles: 4, page_penalty: false }),
        0xAC => Some(Instr { mnemonic: Mnemonic::Ldy, mode: Mode::Absolute, cycles: 4, page_penalty: false }),
        0xBC => Some(Instr { mnemonic: Mnemonic::Ldy, mode: Mode::AbsoluteX, cycles: 4, page_penalty: true }),
        0x4A => Some(Instr { mnemonic: Mnemonic::Lsr, mode: Mode::Accumulator, cycles: 2, page_penalty: false }),
        0x46 => Some(Instr { mnemonic: Mnemonic::Lsr, mode: Mode::ZeroPage, cycles: 5, page_penalty: false }),
        0x56 => Some(Instr { mnemonic: Mnemonic::Lsr, mode: Mode::ZeroPageX, cycles: 6, page_penalty: false }),
        0x4E => Some(Instr { mnemonic: Mnemonic::Lsr, mode: Mode::Absolute, cycles: 6, page_penalty: false }),
        0x5E => Some(Instr { mnemonic: Mnemonic::Lsr, mode: Mode::AbsoluteX, cycles: 7, page_penalty: false }),
        0xEA => Some(Instr { mnemonic: Mnemonic::Nop, mode: Mode::Implied, cycles: 2, page_penalty: false }),
        0x1A => Some(Instr { mnemonic: Mnemonic::Nop, mode: Mode::Implied, cycles: 2, page_penalty: false }),
        0x3A => Some(Instr { mnemonic: Mnemonic::Nop, mode: Mode::Implied, cycles: 2, page_penalty: false }),
        0x5A => Some(Instr { mnemonic: Mnemonic::Nop, mode: Mode::Implied, cycles: 2, page_penalty: false }),
        0x7A => Some(Instr { mnemonic: Mnemonic::Nop, mode: Mode::Implied, cycles: 2, page_penalty: false }),
        0xDA => Some(Instr { mnemonic: Mnemonic::Nop, mode: Mode::Implied, cycles: 2, page_penalty: false }),
        0xFA => Some(Instr { mnemonic: Mnemonic::Nop, mode: Mode::Implied, cycles: 2, page_penalty: false }),
        0x09 => Some(Instr { mnemonic: Mnemonic::Ora, mode: Mode::Immediate, cycles: 2, page_penalty: false }),
        0x05 => Some(Instr { mnemonic: Mnemonic::Ora, mode: Mode::ZeroPage, cycles: 3, page_penalty: false }),
        0x15 => Some(Instr { mnemonic: Mnemonic::Ora, mode: Mode::ZeroPageX, cycles: 4, page_penalty: false }),
        0x0D => Some(Instr { mnemonic: Mnemonic::Ora, mode: Mode::Absolute, cycles: 4, page_penalty: false }),
        0x1D => Some(Instr { mnemonic: Mnemonic::Ora, mode: Mode::AbsoluteX, cycles: 4, page_penalty: true }),
        0x19 => Some(Instr { mnemonic: Mnemonic::Ora, mode: Mode::AbsoluteY, cycles: 4, page_penalty: true }),
        0x01 => Some(Instr { mnemonic: Mnemonic::Ora, mode: Mode::IndirectX, cycles: 6, page_penalty: false }),
        0x11 => Some(Instr { mnemonic: Mnemonic::Ora, mode: Mode::IndirectY, cycles: 5, page_penalty: true }),
        0x48 => Some(Instr { mnemonic: Mnemonic::Pha, mode: Mode::Implied, cycles: 3, page_penalty: false }),
        0x08 => Some(Instr { mnemonic: Mnemonic::Php, mode: Mode::Implied, cycles: 3, page_penalty: false }),
        0x68 => Some(Instr { mnemonic: Mnemonic::Pla, mode: Mode::Implied, cycles: 4, page_penalty: false }),
        0x28 => Some(Instr { mnemonic: Mnemonic::Plp, mode: Mode::Implied, cycles: 4, page_penalty: false }),
        0x2A => Some(Instr { mnemonic: Mnemonic::Rol, mode: Mode::Accumulator, cycles: 2, page_penalty: false }),
        0x26 => Some(Instr { mnemonic: Mnemonic::Rol, mode: Mode::ZeroPage, cycles: 5, page_penalty: false }),
        0x36 => Some(Instr { mnemonic: Mnemonic::Rol, mode: Mode::ZeroPageX, cycles: 6, page_penalty: false }),
        0x2E => Some(Instr { mnemonic: Mnemonic::Rol, mode: Mode::Absolute, cycles: 6, page_penalty: false }),
        0x3E => Some(Instr { mnemonic: Mnemonic::Rol, mode: Mode::AbsoluteX, cycles: 7, page_penalty: false }),
        0x6A => Some(Instr { mnemonic: Mnemonic::Ror, mode: Mode::Accumulator, cycles: 2, page_penalty: false }),
        0x66 => Some(Instr { mnemonic: Mnemonic::Ror, mode: Mode::ZeroPage, cycles: 5, page_penalty: false }),
        0x76 => Some(Instr { mnemonic: Mnemonic::Ror, mode: Mode::ZeroPageX, cycles: 6, page_penalty: false }),
        0x6E => Some(Instr { mnemonic: Mnemonic::Ror, mode: Mode::Absolute, cycles: 6, page_penalty: false }),
        0x7E => Some(Instr { mnemonic: Mnemonic::Ror, mode: Mode::AbsoluteX, cycles: 7, page_penalty: false }),
        0x40 => Some(Instr { mnemonic: Mnemonic::Rti, mode: Mode::Implied, cycles: 6, page_penalty: false }),
        0x60 => Some(Instr { mnemonic: Mnemonic::Rts, mode: Mode::Implied, cycles: 6, page_penalty: false }),
        0xE9 => Some(Instr { mnemonic: Mnemonic::Sbc, mode: Mode::Immediate, cycles: 2, page_penalty: false }),
        0xE5 => Some(Instr { mnemonic: Mnemonic::Sbc, mode: Mode::ZeroPage, cycles: 3, page_penalty: false }),
        0xF5 => Some(Instr { mnemonic: Mnemonic::Sbc, mode: Mode::ZeroPageX, cycles: 4, page_penalty: false }),
        0xED => Some(Instr { mnemonic: Mnemonic::Sbc, mode: Mode::Absolute, cycles: 4, page_penalty: false }),
        0xFD => Some(Instr { mnemonic: Mnemonic::Sbc, mode: Mode::AbsoluteX, cycles: 4, page_penalty: true }),
        0xF9 => Some(Instr { mnemonic: Mnemonic::Sbc, mode: Mode::AbsoluteY, cycles: 4, page_penalty: true }),
        0xE1 => Some(Instr { mnemonic: Mnemonic::Sbc, mode: Mode::IndirectX, cycles: 6, page_penalty: false }),
        0xF1 => Some(Instr { mnemonic: Mnemonic::Sbc, mode: Mode::IndirectY, cycles: 5, page_penalty: true }),
        0x38 => Some(Instr { mnemonic: Mnemonic::Sec, mode: Mode::Implied, cycles: 2, page_penalty: false }),
        0xF8 => Some(Instr { mnemonic: Mnemonic::Sed, mode: Mode::Implied, cycles: 2, page_penalty: false }),
        0x78 => Some(Instr { mnemonic: Mnemonic::Sei, mode: Mode::Implied, cycles: 2, page_penalty: false }),
        0x85 => Some(Instr { mnemonic: Mnemonic::Sta, mode: Mode::ZeroPage, cycles: 3, page_penalty: false }),
        0x95 => Some(Instr { mnemonic: Mnemonic::Sta, mode: Mode::ZeroPageX, cycles: 4, page_penalty: false }),
        0x8D => Some(Instr { mnemonic: Mnemonic::Sta, mode: Mode::Absolute, cycles: 4, page_penalty: false }),
        0x9D => Some(Instr { mnemonic: Mnemonic::Sta, mode: Mode::AbsoluteX, cycles: 5, page_penalty: false }),
        0x99 => Some(Instr { mnemonic: Mnemonic::Sta, mode: Mode::AbsoluteY, cycles: 5, page_penalty: false }),
        0x81 => Some(Instr { mnemonic: Mnemonic::Sta, mode: Mode::IndirectX, cycles: 6, page_penalty: false }),
        0x91 => Some(Instr { mnemonic: Mnemonic::Sta, mode: Mode::IndirectY, cycles: 6, page_penalty: false }),
        0x86 => Some(Instr { mnemonic: Mnemonic::Stx, mode: Mode::ZeroPage, cycles: 3, page_penalty: false }),
        0x96 => Some(Instr { mnemonic: Mnemonic::Stx, mode: Mode::ZeroPageY, cycles: 4, page_penalty: false }),
        0x8E => Some(Instr { mnemonic: Mnemonic::Stx, mode: Mode::Absolute, cycles: 4, page_penalty: false }),
        0x84 => Some(Instr { mnemonic: Mnemonic::Sty, mode: Mode::ZeroPage, cycles: 3, page_penalty: false }),
        0x94 => Some(Instr { mnemonic: Mnemonic::Sty, mode: Mode::ZeroPageX, cycles: 4, page_penalty: false }),
        0x8C => Some(Instr { mnemonic: Mnemonic::Sty, mode: Mode::Absolute, cycles: 4, page_penalty: false }),
        0xAA => Some(Instr { mnemonic: Mnemonic::Tax, mode: Mode::Implied, cycles: 2, page_penalty: false }),
        0xA8 => Some(Instr { mnemonic: Mnemonic::Tay, mode: Mode::Implied, cycles: 2, page_penalty: false }),
        0xBA => Some(Instr { mnemonic: Mnemonic::Tsx, mode: Mode::Implied, cycles: 2, page_penalty: false }),
        0x8A => Some(Instr { mnemonic: Mnemonic::Txa, mode: Mode::Implied, cycles: 2, page_penalty: false }),
        0x9A => Some(Instr { mnemonic: Mnemonic::Txs, mode: Mode::Implied, cycles: 2, page_penalty: false }),
        0x98 => Some(Instr { mnemonic: Mnemonic::Tya, mode: Mode::Implied, cycles: 2, page_penalty: false }),
        0x04 => Some(Instr { mnemonic: Mnemonic::Nop, mode: Mode::ZeroPage, cycles: 3, page_penalty: false }),
        0x44 => Some(Instr { mnemonic: Mnemonic::Nop, mode: Mode::ZeroPage, cycles: 3, page_penalty: false }),
        0x64 => Some(Instr { mnemonic: Mnemonic::Nop, mode: Mode::ZeroPage, cycles: 3, page_penalty: false }),
        0x0C => Some(Instr { mnemonic: Mnemonic::Nop, mode: Mode::Absolute, cycles: 4, page_penalty: false }),
        0x14 => Some(Instr { mnemonic: Mnemonic::Nop, mode: Mode::ZeroPageX, cycles: 4, page_penalty: false }),
        0x34 => Some(Instr { mnemonic: Mnemonic::Nop, mode: Mode::ZeroPageX, cycles: 4, page_penalty: false }),
        0x54 => Some(Instr { mnemonic: Mnemonic::Nop, mode: Mode::ZeroPageX, cycles: 4, page_penalty: false }),
        0x74 => Some(Instr { mnemonic: Mnemonic::Nop, mode: Mode::ZeroPageX, cycles: 4, page_penalty: false }),
        0xD4 => Some(Instr { mnemonic: Mnemonic::Nop, mode: Mode::ZeroPageX, cycles: 4, page_penalty: false }),
        0xF4 => Some(Instr { mnemonic: Mnemonic::Nop, mode: Mode::ZeroPageX, cycles: 4, page_penalty: false }),
        0x80 => Some(Instr { mnemonic: Mnemonic::Nop, mode: Mode::Immediate, cycles: 2, page_penalty: false }),
        0x82 => Some(Instr { mnemonic: Mnemonic::Nop, mode: Mode::Immediate, cycles: 2, page_penalty: false }),
        0x89 => Some(Instr { mnemonic: Mnemonic::Nop, mode: Mode::Immediate, cycles: 2, page_penalty: false }),
        0xC2 => Some(Instr { mnemonic: Mnemonic::Nop, mode: Mode::Immediate, cycles: 2, page_penalty: false }),
        0xE2 => Some(Instr { mnemonic: Mnemonic::Nop, mode: Mode::Immediate, cycles: 2, page_penalty: false }),
        0x1C => Some(Instr { mnemonic: Mnemonic::Nop, mode: Mode::AbsoluteX, cycles: 5, page_penalty: false }),
        0x3C => Some(Instr { mnemonic: Mnemonic::Nop, mode: Mode::AbsoluteX, cycles: 5, page_penalty: false }),
        0x5C => Some(Instr { mnemonic: Mnemonic::Nop, mode: Mode::AbsoluteX, cycles: 5, page_penalty: false }),
        0x7C => Some(Instr { mnemonic: Mnemonic::Nop, mode: Mode::AbsoluteX, cycles: 5, page_penalty: false }),
        0xDC => Some(Instr { mnemonic: Mnemonic::Nop, mode: Mode::AbsoluteX, cycles: 5, page_penalty: false }),
        0xFC => Some(Instr { mnemonic: Mnemonic::Nop, mode: Mode::AbsoluteX, cycles: 5, page_penalty: false }),
        _ => None,
    }
}

/// The number of operand bytes that follow the opcode in a mode.
pub open spec fn operand_len(mode: Mode) -> int {
    match mode {
        Mode::Implied | Mode::Accumulator => 0,
        Mode::Absolute | Mode::AbsoluteX | Mode::AbsoluteY | Mode::Indirect => 2,
        _ => 1,
    }
}

/// 1 when the carry flag is set, else 0.
pub open spec fn carry_in(p: u8) -> int {
    if flag(p, FLAG_C) { 1 } else { 0 }
}

/// A byte sign-extended to 16 bits.
pub open spec fn sign_extend(b: u8) -> u16 {
    if b < 128 { b as u16 } else { (b as int + 0xFF00) as u16 }
}

/// A two-byte read of a pointer in the zero page at `z` (its high byte at `z + 1`, wrapping
/// within the zero page).
pub open spec fn spec_read_zp_pointer(s: NesModel, z: u8) -> Option<(NesModel, u16)> {
    match spec_read(s, z as u16) {
        Some((s1, lo)) => match spec_read(s1, add8(z, 1) as u16) {
            Some((s2, hi)) => Some((s2, spec_endian(lo, hi))),
            None => None,
        },
        None => None,
    }
}

/// The page-cross indicator (1 or 0) of adding `added` to `address`.
pub open spec fn cross_bit(address: u16, added: u8) -> u8 {
    if spec_page_crossed(address, added) { 1 } else { 0 }
}

/// Zero-page mode: the operand byte is the address.
pub open spec fn spec_zero_page(s: NesModel) -> (NesModel, u16) {
    let (s1, a) = spec_fetch(s);
    (s1, a as u16)
}

/// Zero-page mode indexed by a register: the operand byte plus the index, wrapping within the
/// zero page.
pub open spec fn spec_zero_page_indexed(s: NesModel, index: u8) -> (NesModel, u16) {
    let (s1, a) = spec_fetch(s);
    (s1, add8(a, index as int) as u16)
}

/// Absolute mode indexed by a register: the operand word plus the index (wrapping), recording
/// in `page_cross` whether the index crossed a page.
pub open spec fn spec_absolute_indexed(s: NesModel, index: u8) -> (NesModel, u16) {
    let (s1, a) = spec_fetch_abs(s);
    (NesModel { page_cross: cross_bit(a, index), ..s1 }, add16(a, index as int))
}

/// Indexed indirect mode: the pointer at the operand byte plus X (in the zero page).
pub open spec fn spec_indirect_x(s: NesModel) -> Option<(NesModel, u16)> {
    let (s1, b) = spec_fetch(s);
    spec_read_zp_pointer(s1, add8(b, s.x as int))
}

/// Indirect indexed mode: the pointer at the operand byte (in the zero page) plus Y, recording
/// in `page_cross` whether Y crossed a page.
pub open spec fn spec_indirect_y(s: NesModel) -> Option<(NesModel, u16)> {
    let (s1, z) = spec_fetch(s);
    match spec_read_zp_pointer(s1, z) {
        Some((s2, a)) => Some((NesModel { page_cross: cross_bit(a, s.y), ..s2 }, add16(a, s.y as int))),
        None => None,
    }
}

/// Indirect mode (JMP): the word at the operand address, whose high byte is read from the start
/// of the same page when the operand address ends a page.
pub open spec fn spec_indirect(s: NesModel) -> Option<(NesModel, u16)> {
    let (s1, a) = spec_fetch_abs(s);
    match spec_read(s1, a) {
        Some((s2, lo)) => {
            let off: int = if spec_page_crossed(a, 1) { 0x100 } else { 0 };
            match spec_read(s2, add16(a, 1 - off)) {
                Some((s3, hi)) => Some((s3, spec_endian(lo, hi))),
                None => None,
            }
        },
        None => None,
    }
}

/// The effective address of an operand and the state after finding it (`None` for modes
/// without one, and where a read on the way has no meaning).
pub open spec fn spec_operand_address(s: NesModel, mode: Mode) -> Option<(NesModel, u16)> {
    match mode {
        Mode::ZeroPage => Some(spec_zero_page(s)),
        Mode::ZeroPageX => Some(spec_zero_page_indexed(s, s.x)),
        Mode::ZeroPageY => Some(spec_zero_page_indexed(s, s.y)),
        Mode::Absolute => Some(spec_fetch_abs(s)),
        Mode::AbsoluteX => Some(spec_absolute_indexed(s, s.x)),
        Mode::AbsoluteY => Some(spec_absolute_indexed(s, s.y)),
        Mode::IndirectX => spec_indirect_x(s),
        Mode::IndirectY => spec_indirect_y(s),
        Mode::Indirect => spec_indirect(s),
        _ => None,
    }
}

/// The operand value: the byte after the opcode in immediate mode, else the byte read at the
/// effective address.
pub open spec fn spec_operand(s: NesModel, mode: Mode) -> Option<(NesModel, u8)> {
    if mode == Mode::Immediate {
        Some(spec_fetch(s))
    } else {
        match spec_operand_address(s, mode) {
            Some((s1, a)) => spec_read(s1, a),
            None => None,
        }
    }
}

/// Add with carry. The carry flag is set when the 8-bit result is below the accumulator; the
/// overflow flag when two operands of one sign give a result of the other.
pub open spec fn spec_adc(s: NesModel, b: u8) -> NesModel {
    let a = s.acc;
    let r = add8(a, b as int + carry_in(s.p));
    let v = if r >= 128 { a < 128 && b < 128 } else { a >= 128 && b >= 128 };
    NesModel {
        acc: r,
        p: with_flag(with_flag(with_flag(with_flag(s.p, FLAG_C, r < a), FLAG_Z, r == 0), FLAG_V, v), FLAG_N, r >= 128),
        ..s
    }
}

/// Subtract with borrow (the carry flag clear means a borrow). The carry flag is set when no
/// borrow out occurs; the zero flag is set when the result is zero and otherwise left as it was;
/// the overflow flag when operands of opposite signs give a result of the subtrahend's sign.
pub open spec fn spec_sbc(s: NesModel, b: u8) -> NesModel {
    let a = s.acc;
    let d = a as int - b as int - (1 - carry_in(s.p));
    let r = add8(a, -(b as int) - (1 - carry_in(s.p)));
    let v = (b >= 128 && a < 128 && r >= 128) || (b < 128 && a >= 128 && r < 128);
    NesModel {
        acc: r,
        p: with_flag(with_flag(with_flag(with_flag(s.p, FLAG_C, d >= 0), FLAG_Z, flag(s.p, FLAG_Z) || r == 0), FLAG_V, v), FLAG_N, r >= 128),
        ..s
    }
}

/// The flags of a comparison of register value `a` with `b`: carry when `a >= b`, zero and
/// negative from `a - b` modulo 256.
pub open spec fn spec_compare(p: u8, a: u8, b: u8) -> u8 {
    with_flag(spec_nz(p, add8(a, -(b as int))), FLAG_C, a >= b)
}

/// The BIT test: negative and overflow flags from bits 7 and 6 of the operand, zero flag when
/// the operand and the accumulator share no bit.
pub open spec fn spec_bit(s: NesModel, v: u8) -> NesModel {
    NesModel {
        p: with_flag(with_flag(with_flag(s.p, FLAG_N, v & 0x80 != 0), FLAG_V, v & 0x40 != 0), FLAG_Z, v & s.acc == 0),
        ..s
    }
}

/// Whether an operation reads one operand value and updates registers and flags from it.
pub open spec fn is_read_op(m: Mnemonic) -> bool {
    m == Mnemonic::Adc || m == Mnemonic::And || m == Mnemonic::Bit || m == Mnemonic::Cmp
        || m == Mnemonic::Cpx || m == Mnemonic::Cpy || m == Mnemonic::Eor || m == Mnemonic::Lda
        || m == Mnemonic::Ldx || m == Mnemonic::Ldy || m == Mnemonic::Ora || m == Mnemonic::Sbc
}

/// The effect of a read operation with operand `v`.
pub open spec fn spec_read_op(m: Mnemonic, s: NesModel, v: u8) -> NesModel {
    match m {
        Mnemonic::Adc => spec_adc(s, v),
        Mnemonic::And => NesModel { acc: v & s.acc, p: spec_nz(s.p, v & s.acc), ..s },
        Mnemonic::Bit => spec_bit(s, v),
        Mnemonic::Cmp => NesModel { p: spec_compare(s.p, s.acc, v), ..s },
        Mnemonic::Cpx => NesModel { p: spec_compare(s.p, s.x, v), ..s },
        Mnemonic::Cpy => NesModel { p: spec_compare(s.p, s.y, v), ..s },
        Mnemonic::Eor => NesModel { acc: s.acc ^ v, p: spec_nz(s.p, s.acc ^ v), ..s },
        Mnemonic::Lda => NesModel { acc: v, p: spec_nz(s.p, v), ..s },
        Mnemonic::Ldx => NesModel { x: v, p: spec_nz(s.p, v), ..s },
        Mnemonic::Ldy => NesModel { y: v, p: spec_nz(s.p, v), ..s },
        Mnemonic::Ora => NesModel { acc: s.acc | v, p: spec_nz(s.p, s.acc | v), ..s },
        _ => spec_sbc(s, v),
    }
}

/// Whether an operation transforms one byte (the accumulator or a byte of memory).
pub open spec fn is_modify_op(m: Mnemonic) -> bool {
    m == Mnemonic::Asl || m == Mnemonic::Lsr || m == Mnemonic::Rol || m == Mnemonic::Ror
        || m == Mnemonic::Inc || m == Mnemonic::Dec
}

/// The result of a modify operation on `v`, and the flags after it: shifts and rotations move
/// the bit shifted out into the carry; all set zero and negative from the result.
pub open spec fn spec_modify(m: Mnemonic, p: u8, v: u8) -> (u8, u8) {
    match m {
        Mnemonic::Asl => {
            let r = add8(0, v as int * 2);
            (r, with_flag(spec_nz(p, r), FLAG_C, v >= 128))
        },
        Mnemonic::Lsr => {
            let r = v / 2;
            (r, with_flag(spec_nz(p, r), FLAG_C, v % 2 == 1))
        },
        Mnemonic::Rol => {
            let r = add8(0, v as int * 2 + carry_in(p));
            (r, with_flag(spec_nz(p, r), FLAG_C, v >= 128))
        },
        Mnemonic::Ror => {
            let r = (v / 2 + carry_in(p) * 128) as u8;
            (r, with_flag(spec_nz(p, r), FLAG_C, v % 2 == 1))
        },
        Mnemonic::Inc => {
            let r = add8(v, 1);
            (r, spec_nz(p, r))
        },
        _ => {
            let r = add8(v, -1);
            (r, spec_nz(p, r))
        },
    }
}

/// A modify operation on the byte of memory at `a`: the byte is read, transformed (the flags
/// updated), and written back.
pub open spec fn spec_modify_at(m: Mnemonic, s: NesModel, a: u16) -> Option<NesModel> {
    match spec_read(s, a) {
        Some((s1, v)) => {
            let (r, p) = spec_modify(m, s1.p, v);
            spec_write(NesModel { p, ..s1 }, a, r)
        },
        None => None,
    }
}

/// The register that a store operation writes.
pub open spec fn store_value(m: Mnemonic, s: NesModel) -> u8 {
    match m {
        Mnemonic::Sta => s.acc,
        Mnemonic::Stx => s.x,
        _ => s.y,
    }
}

/// Whether an operation is a conditional branch.
pub open spec fn is_branch(m: Mnemonic) -> bool {
    m == Mnemonic::Bcc || m == Mnemonic::Bcs || m == Mnemonic::Beq || m == Mnemonic::Bmi
        || m == Mnemonic::Bne || m == Mnemonic::Bpl || m == Mnemonic::Bvc || m == Mnemonic::Bvs
}

/// Whether a branch is taken with flags `p`.
pub open spec fn branch_taken(m: Mnemonic, p: u8) -> bool {
    match m {
        Mnemonic::Bcc => !flag(p, FLAG_C),
        Mnemonic::Bcs => flag(p, FLAG_C),
        Mnemonic::Beq => flag(p, FLAG_Z),
        Mnemonic::Bne => !flag(p, FLAG_Z),
        Mnemonic::Bmi => flag(p, FLAG_N),
        Mnemonic::Bpl => !flag(p, FLAG_N),
        Mnemonic::Bvs => flag(p, FLAG_V),
        _ => !flag(p, FLAG_V),
    }
}

/// A branch: the offset byte is fetched; a taken branch adds it, sign-extended, to PC and
/// takes 3 cycles, or 5 when PC plus the offset byte (unsigned) lands on another page; a
/// branch not taken takes 2.
pub open spec fn spec_branch(m: Mnemonic, s: NesModel) -> (NesModel, u8) {
    let (s1, b) = spec_fetch(s);
    if branch_taken(m, s.p) {
        (NesModel { pc: add16(s1.pc, sign_extend(b) as int), ..s1 }, if spec_page_crossed(s1.pc, b) { 5 } else { 3 })
    } else {
        (s1, 2)
    }
}

/// The flags as pulled from the stack: the break bit cleared and bit 5 set.
pub open spec fn pulled_flags(b: u8) -> u8 {
    (b & 0xEF) | 0b00100000
}

/// The flag operations: CLC, CLD, CLI, CLV clear and SEC, SED, SEI set one flag.
pub open spec fn is_flag_op(m: Mnemonic) -> bool {
    m == Mnemonic::Clc || m == Mnemonic::Cld || m == Mnemonic::Cli || m == Mnemonic::Clv
        || m == Mnemonic::Sec || m == Mnemonic::Sed || m == Mnemonic::Sei
}

/// The effect of a flag operation.
pub open spec fn spec_flag_op(m: Mnemonic, s: NesModel) -> NesModel {
    match m {
        Mnemonic::Clc => NesModel { p: s.p & !FLAG_C, ..s },
        Mnemonic::Cld => NesModel { p: s.p & !FLAG_D, ..s },
        Mnemonic::Cli => NesModel { p: s.p & !FLAG_I, ..s },
        Mnemonic::Clv => NesModel { p: s.p & !FLAG_V, ..s },
        Mnemonic::Sec => NesModel { p: s.p | FLAG_C, ..s },
        Mnemonic::Sed => NesModel { p: s.p | FLAG_D, ..s },
        _ => NesModel { p: s.p | FLAG_I, ..s },
    }
}

/// The register operations: increments, decrements and transfers between registers.
pub open spec fn is_register_op(m: Mnemonic) -> bool {
    m == Mnemonic::Dex || m == Mnemonic::Dey || m == Mnemonic::Inx || m == Mnemonic::Iny
        || m == Mnemonic::Tax || m == Mnemonic::Tay || m == Mnemonic::Tsx || m == Mnemonic::Txa
        || m == Mnemonic::Txs || m == Mnemonic::Tya
}

/// The effect of a register operation; all but TXS set zero and negative from the result.
#[verifier::opaque]
pub open spec fn spec_register_op(m: Mnemonic, s: NesModel) -> NesModel {
    match m {
        Mnemonic::Dex => NesModel { x: add8(s.x, -1), p: spec_nz(s.p, add8(s.x, -1)), ..s },
        Mnemonic::Dey => NesModel { y: add8(s.y, -1), p: spec_nz(s.p, add8(s.y, -1)), ..s },
        Mnemonic::Inx => NesModel { x: add8(s.x, 1), p: spec_nz(s.p, add8(s.x, 1)), ..s },
        Mnemonic::Iny => NesModel { y: add8(s.y, 1), p: spec_nz(s.p, add8(s.y, 1)), ..s },
        Mnemonic::Tax => NesModel { x: s.acc, p: spec_nz(s.p, s.acc), ..s },
        Mnemonic::Tay => NesModel { y: s.acc, p: spec_nz(s.p, s.acc), ..s },
        Mnemonic::Tsx => NesModel { x: s.sp, p: spec_nz(s.p, s.sp), ..s },
        Mnemonic::Txa => NesModel { acc: s.x, p: spec_nz(s.p, s.x), ..s },
        Mnemonic::Txs => NesModel { sp: s.x, ..s },
        _ => NesModel { acc: s.y, p: spec_nz(s.p, s.y), ..s },
    }
}

/// The stack operations: PHA and PHP push A and P; PLA pulls A (setting zero and negative);
/// PLP pulls P.
pub open spec fn is_stack_op(m: Mnemonic) -> bool {
    m == Mnemonic::Pha || m == Mnemonic::Php || m == Mnemonic::Pla || m == Mnemonic::Plp
}

/// The effect of a stack operation.
#[verifier::opaque]
pub open spec fn spec_stack_op(m: Mnemonic, s: NesModel) -> NesModel {
    match m {
        Mnemonic::Pha => spec_push(s, s.acc),
        Mnemonic::Php => spec_push(s, s.p),
        Mnemonic::Pla => {
            let (s1, v) = spec_pop(s);
            NesModel { acc: v, p: spec_nz(s1.p, v), ..s1 }
        },
        _ => {
            let (s1, v) = spec_pop(s);
            NesModel { p: pulled_flags(v), ..s1 }
        },
    }
}

/// The control-flow operations: BRK, JMP, JSR, RTI and RTS.
#[verifier::opaque]
pub open spec fn spec_control_op(m: Mnemonic, mode: Mode, s: NesModel) -> Option<NesModel> {
    match m {
        Mnemonic::Brk => {
            let s1 = spec_push(spec_push(spec_push(s, (s.pc / 256) as u8), (s.pc % 256) as u8), s.p);
            Some(NesModel { pc: spec_endian(s1.memory[0xFFFE], s1.memory[0xFFFF]), p: s1.p | FLAG_B, ..s1 })
        },
        Mnemonic::Jmp => match spec_operand_address(s, mode) {
            Some((s1, a)) => Some(NesModel { pc: a, ..s1 }),
            None => None,
        },
        Mnemonic::Jsr => {
            let (s1, a) = spec_fetch_abs(s);
            let ret = add16(s1.pc, -1);
            let s2 = spec_push(spec_push(s1, (ret / 256) as u8), (ret % 256) as u8);
            Some(NesModel { pc: a, ..s2 })
        },
        Mnemonic::Rti => {
            let (s1, f) = spec_pop(s);
            let (s2, lo) = spec_pop(NesModel { p: pulled_flags(f), ..s1 });
            let (s3, hi) = spec_pop(s2);
            Some(NesModel { pc: spec_endian(lo, hi), ..s3 })
        },
        _ => {
            let (s1, lo) = spec_pop(s);
            let (s2, hi) = spec_pop(s1);
            Some(NesModel { pc: add16(spec_endian(lo, hi), 1), ..s2 })
        },
    }
}

/// NOP: the operand bytes of its mode are skipped, nothing else happens.
#[verifier::opaque]
pub open spec fn spec_nop(mode: Mode, s: NesModel) -> NesModel {
    NesModel { pc: add16(s.pc, operand_len(mode)), ..s }
}

/// The operations that act on registers, the stack and PC only (besides operand fetches).
pub open spec fn spec_other(m: Mnemonic, mode: Mode, s: NesModel) -> Option<NesModel> {
    if is_flag_op(m) {
        Some(spec_flag_op(m, s))
    } else if is_register_op(m) {
        Some(spec_register_op(m, s))
    } else if is_stack_op(m) {
        Some(spec_stack_op(m, s))
    } else if m == Mnemonic::Nop {
        Some(spec_nop(mode, s))
    } else {
        spec_control_op(m, mode, s)
    }
}

/// The cycles an instruction took, given the state after it.
pub open spec fn spec_cycles(i: Instr, s: NesModel) -> u8 {
    if i.page_penalty { (i.cycles + s.page_cross) as u8 } else { i.cycles }
}

/// A read operation: its operand value is fetched or read, then applied.
#[verifier::opaque]
pub open spec fn spec_execute_read(s: NesModel, i: Instr) -> Option<(NesModel, u8)> {
    match spec_operand(s, i.mode) {
        Some((s1, v)) => {
            let s2 = spec_read_op(i.mnemonic, s1, v);
            Some((s2, spec_cycles(i, s2)))
        },
        None => None,
    }
}

/// A modify operation, on the accumulator or on the byte at its effective address.
#[verifier::opaque]
pub open spec fn spec_execute_modify(s: NesModel, i: Instr) -> Option<(NesModel, u8)> {
    if i.mode == Mode::Accumulator {
        let (r, p) = spec_modify(i.mnemonic, s.p, s.acc);
        Some((NesModel { acc: r, p, ..s }, i.cycles))
    } else {
        match spec_operand_address(s, i.mode) {
            Some((s1, a)) => match spec_modify_at(i.mnemonic, s1, a) {
                Some(s2) => Some((s2, i.cycles)),
                None => None,
            },
            None => None,
        }
    }
}

/// A store operation: its register is written at its effective address.
#[verifier::opaque]
pub open spec fn spec_execute_store(s: NesModel, i: Instr) -> Option<(NesModel, u8)> {
    match spec_operand_address(s, i.mode) {
        Some((s1, a)) => match spec_write(s1, a, store_value(i.mnemonic, s1)) {
            Some(s2) => Some((s2, i.cycles)),
            None => None,
        },
        None => None,
    }
}

/// One instruction, its operand bytes following PC: the state after it and the cycles it took,
/// or `None` where it has no meaning (a memory access that has none).
pub open spec fn spec_execute(s: NesModel, i: Instr) -> Option<(NesModel, u8)> {
    let m = i.mnemonic;
    if is_read_op(m) {
        spec_execute_read(s, i)
    } else if is_modify_op(m) {
        spec_execute_modify(s, i)
    } else if m == Mnemonic::Sta || m == Mnemonic::Stx || m == Mnemonic::Sty {
        spec_execute_store(s, i)
    } else if is_branch(m) {
        Some(spec_branch(m, s))
    } else {
        match spec_other(m, i.mode, s) {
            Some(s1) => Some((s1, i.cycles)),
            None => None,
        }
    }
}

/// The execution of opcode `op`, its operand bytes following PC: `None` for an opcode the
/// emulator does not know, or where the instruction has no meaning.
pub open spec fn spec_exec(s: NesModel, op: u8) -> Option<(NesModel, u8)> {
    match decode(op) {
        Some(i) => spec_execute(s, i),
        None => None,
    }
}

/// One step: the opcode at PC is fetched and executed.
pub open spec fn spec_step(s: NesModel) -> Option<(NesModel, u8)> {
    let (s1, op) = spec_fetch(s);
    spec_exec(s1, op)
}

} // verus!

verus! {

/// JSR followed by RTS returns to the instruction after the JSR, with the stack pointer back
/// where it was. (`s` is the state after the JSR opcode was fetched.)
pub proof fn law_jsr_rts(s: NesModel)
    requires
        s.wf(),
    ensures
        spec_exec(s, 0x20) is Some,
        spec_exec(spec_exec(s, 0x20).unwrap().0, 0x60) is Some,
        ({
            let s2 = spec_exec(spec_exec(s, 0x20).unwrap().0, 0x60).unwrap().0;
            &&& s2.pc == add16(s.pc, 2)
            &&& s2.sp == s.sp
        }),
{
    assert(decode(0x20) == ins(Mnemonic::Jsr, Mode::Absolute, 6));
    assert(decode(0x60) == ins(Mnemonic::Rts, Mode::Implied, 6));
    let (s1, a) = spec_fetch_abs(s);
    let ret = add16(s1.pc, -1);
    let hi = (ret / 256) as u8;
    let lo = (ret % 256) as u8;
    let t1 = spec_push(s1, hi);
    let t2 = spec_push(t1, lo);
    let t3 = NesModel { pc: a, ..t2 };
    assert(spec_control_op(Mnemonic::Jsr, Mode::Absolute, s) == Some(t3)) by {
        reveal(spec_control_op);
    }
    assert(spec_exec(s, 0x20) == Some((t3, 6u8)));
    let (u1, lo2) = spec_pop(t3);
    let (u2, hi2) = spec_pop(u1);
    assert(lo2 == lo);
    assert(hi2 == hi);
    assert(spec_endian(lo, hi) == ret);
    let u3 = NesModel { pc: add16(spec_endian(lo2, hi2), 1), ..u2 };
    assert(spec_control_op(Mnemonic::Rts, Mode::Implied, t3) == Some(u3)) by {
        reveal(spec_control_op);
    }
    assert(spec_exec(t3, 0x60) == Some((u3, 6u8)));
    assert(s1.pc == add16(s.pc, 2));
}

/// BRK followed by RTI returns to the byte after the BRK opcode, with the stack pointer back
/// where it was and the flags as they were before the BRK, bit 4 clear and bit 5 set.
/// (`s` is the state after the BRK opcode was fetched.)
pub proof fn law_brk_rti(s: NesModel)
    requires
        s.wf(),
    ensures
        spec_exec(s, 0x00) is Some,
        spec_exec(spec_exec(s, 0x00).unwrap().0, 0x40) is Some,
        ({
            let s2 = spec_exec(spec_exec(s, 0x00).unwrap().0, 0x40).unwrap().0;
            &&& s2.pc == s.pc
            &&& s2.sp == s.sp
            &&& s2.p == pulled_flags(s.p)
        }),
{
    assert(decode(0x00) == ins(Mnemonic::Brk, Mode::Implied, 7));
    assert(decode(0x40) == ins(Mnemonic::Rti, Mode::Implied, 6));
    let t1 = spec_push(spec_push(spec_push(s, (s.pc / 256) as u8), (s.pc % 256) as u8), s.p);
    let t2 = NesModel { pc: spec_endian(t1.memory[0xFFFE], t1.memory[0xFFFF]), p: t1.p | FLAG_B, ..t1 };
    assert(spec_control_op(Mnemonic::Brk, Mode::Implied, s) == Some(t2)) by {
        reveal(spec_control_op);
    }
    assert(spec_exec(s, 0x00) == Some((t2, 7u8)));
    let (u1, f) = spec_pop(t2);
    assert(f == s.p);
    let (u2, lo) = spec_pop(NesModel { p: pulled_flags(f), ..u1 });
    let (u3, hi) = spec_pop(u2);
    assert(lo == (s.pc % 256) as u8);
    assert(hi == (s.pc / 256) as u8);
    assert(spec_endian(lo, hi) == s.pc);
    let u4 = NesModel { pc: spec_endian(lo, hi), ..u3 };
    assert(spec_control_op(Mnemonic::Rti, Mode::Implied, t2) == Some(u4)) by {
        reveal(spec_control_op);
    }
    assert(spec_exec(t2, 0x40) == Some((u4, 6u8)));
}

/// The non-maskable interrupt followed by RTI returns to where the program was, with the stack
/// pointer back where it was and the flags as they were, bit 4 clear and bit 5 set.
pub proof fn law_nmi_rti(s: NesModel)
    requires
        s.wf(),
    ensures
        spec_exec(spec_nmi(s), 0x40) is Some,
        ({
            let s2 = spec_exec(spec_nmi(s), 0x40).unwrap().0;
            &&& s2.pc == s.pc
            &&& s2.sp == s.sp
            &&& s2.p == pulled_flags(s.p)
        }),
{
    assert(decode(0x40) == ins(Mnemonic::Rti, Mode::Implied, 6));
    let t2 = spec_nmi(s);
    let (u1, f) = spec_pop(t2);
    assert(f == s.p);
    let (u2, lo) = spec_pop(NesModel { p: pulled_flags(f), ..u1 });
    let (u3, hi) = spec_pop(u2);
    assert(lo == (s.pc % 256) as u8);
    assert(hi == (s.pc / 256) as u8);
    assert(spec_endian(lo, hi) == s.pc);
    let u4 = NesModel { pc: spec_endian(lo, hi), ..u3 };
    assert(spec_control_op(Mnemonic::Rti, Mode::Implied, t2) == Some(u4)) by {
        reveal(spec_control_op);
    }
    assert(spec_exec(t2, 0x40) == Some((u4, 6u8)));
}

/// PHA followed by PLA gives the accumulator back, with the stack pointer where it was.
pub proof fn law_pha_pla(s: NesModel)
    requires
        s.wf(),
    ensures
        spec_exec(s, 0x48) is Some,
        spec_exec(spec_exec(s, 0x48).unwrap().0, 0x68) is Some,
        ({
            let s2 = spec_exec(spec_exec(s, 0x48).unwrap().0, 0x68).unwrap().0;
            &&& s2.acc == s.acc
            &&& s2.sp == s.sp
            &&& s2.pc == s.pc
        }),
{
    reveal(spec_stack_op);
    assert(decode(0x48) == ins(Mnemonic::Pha, Mode::Implied, 3));
    assert(decode(0x68) == ins(Mnemonic::Pla, Mode::Implied, 4));
}

/// PHP followed by PLP gives the flags back with bit 4 clear and bit 5 set.
pub proof fn law_php_plp(s: NesModel)
    requires
        s.wf(),
    ensures
        spec_exec(s, 0x08) is Some,
        spec_exec(spec_exec(s, 0x08).unwrap().0, 0x28) is Some,
        ({
            let s2 = spec_exec(spec_exec(s, 0x08).unwrap().0, 0x28).unwrap().0;
            &&& s2.p == pulled_flags(s.p)
            &&& s2.sp == s.sp
        }),
{
    reveal(spec_stack_op);
    assert(decode(0x08) == ins(Mnemonic::Php, Mode::Implied, 3));
    assert(decode(0x28) == ins(Mnemonic::Plp, Mode::Implied, 4));
}

/// A comparison sets the carry flag exactly when the register is at least the operand, and the
/// zero flag exactly when they are equal; it leaves the other flags but the negative one.
pub proof fn law_compare_flags(p: u8, a: u8, b: u8)
    ensures
        flag(spec_compare(p, a, b), FLAG_C) == (a >= b),
        flag(spec_compare(p, a, b), FLAG_Z) == (a == b),
        spec_compare(p, a, b) & 0b01111100 == p & 0b01111100,
{
    let r = add8(a, -(b as int));
    assert((r == 0) == (a == b));
    let z = r == 0;
    let n = r >= 128;
    let c = a >= b;
    assert({
        &&& flag(with_flag(with_flag(with_flag(p, 2u8, z), 0x80u8, n), 1u8, c), 1u8) == c
        &&& flag(with_flag(with_flag(with_flag(p, 2u8, z), 0x80u8, n), 1u8, c), 2u8) == z
        &&& with_flag(with_flag(with_flag(p, 2u8, z), 0x80u8, n), 1u8, c) & 0b01111100u8 == p & 0b01111100u8
    }) by (bit_vector);
}

/// Subtraction with borrow equals addition with carry of the operand's complement, except where
/// the emulator departs from the 6502: when the zero flag is already set (SBC leaves it set) and
/// when the operand is 0 with the carry set (ADC then misses its carry).
pub proof fn law_sbc_is_adc_of_complement(s: NesModel, b: u8)
    requires
        !flag(s.p, FLAG_Z),
        !(b == 0 && flag(s.p, FLAG_C)),
    ensures
        spec_sbc(s, b) == spec_adc(s, (255 - b) as u8),
{
    let a = s.acc;
    let cin = carry_in(s.p);
    let r = add8(a, -(b as int) - (1 - cin));
    assert(add8(a, (255 - b) as u8 as int + cin) == r);
    let d = a as int - b as int - (1 - cin);
    assert((r < a) == (d >= 0));
    let z0 = flag(s.p, FLAG_Z);
    let p = s.p;
    let c = d >= 0;
    let z = r == 0;
    let v = (b >= 128 && a < 128 && r >= 128) || (b < 128 && a >= 128 && r < 128);
    let n = r >= 128;
    assert(z0 == false);
    assert(with_flag(p, 2u8, z0 || z) == with_flag(p, 2u8, z));
}

/// The base cycle counts of the opcode table.
proof fn lemma_decode_cycles(op: u8)
    requires
        decode(op) is Some,
    ensures
        2 <= decode(op).unwrap().cycles <= 7,
        decode(op).unwrap().page_penalty ==> decode(op).unwrap().cycles <= 5,
        decode(op).unwrap().page_penalty ==> (decode(op).unwrap().mode == Mode::AbsoluteX
            || decode(op).unwrap().mode == Mode::AbsoluteY || decode(op).unwrap().mode == Mode::IndirectY),
        is_branch(decode(op).unwrap().mnemonic) ==> decode(op).unwrap().mode == Mode::Relative,
{
}

/// The indexed modes that may cross a page leave a page-cross indicator of 0 or 1.
proof fn lemma_operand_page_cross(s: NesModel, mode: Mode)
    requires
        mode == Mode::AbsoluteX || mode == Mode::AbsoluteY || mode == Mode::IndirectY,
        spec_operand(s, mode) is Some,
    ensures
        spec_operand(s, mode).unwrap().0.page_cross <= 1,
{
    reveal(spec_read);
}

/// A read operation keeps the page-cross indicator.
proof fn lemma_read_op_page_cross(m: Mnemonic, s: NesModel, v: u8)
    ensures
        spec_read_op(m, s, v).page_cross == s.page_cross,
{
}

/// Every instruction takes between 2 and 7 cycles.
#[verifier::rlimit(30)]
pub proof fn law_cycles_bounded(s: NesModel, op: u8)
    requires
        spec_exec(s, op) is Some,
    ensures
        2 <= spec_exec(s, op).unwrap().1 <= 7,
{
    let i = decode(op).unwrap();
    lemma_decode_cycles(op);
    if is_read_op(i.mnemonic) {
        reveal(spec_execute_read);
        let (s1, v) = spec_operand(s, i.mode).unwrap();
        lemma_read_op_page_cross(i.mnemonic, s1, v);
        if i.page_penalty {
            lemma_operand_page_cross(s, i.mode);
        }
    } else if is_modify_op(i.mnemonic) {
        reveal(spec_execute_modify);
    } else if i.mnemonic == Mnemonic::Sta || i.mnemonic == Mnemonic::Stx || i.mnemonic == Mnemonic::Sty {
        reveal(spec_execute_store);
    }
}

/// The outcome of a conditional branch at `s.pc` (opcode, then offset byte): when taken, PC
/// becomes the address after the instruction plus the offset read as a signed byte, and it takes
/// 3 cycles, or 5 when adding the offset byte read unsigned to that address lands on another
/// page; when not taken, PC moves past the instruction and it takes 2 cycles. Nothing else
/// changes.
pub open spec fn branch_outcome(s: NesModel, taken: bool) -> Option<(NesModel, u8)> {
    let b = s.memory[(s.pc as int + 1) % 0x10000];
    let next = (s.pc as int + 2) % 0x10000;
    let offset: int = if b < 128 { b as int } else { b as int - 256 };
    if taken {
        let crossed = ((next + b as int) % 0x10000) / 256 != next / 256;
        Some((NesModel { pc: ((next + offset) % 0x10000) as u16, ..s }, if crossed { 5u8 } else { 3u8 }))
    } else {
        Some((NesModel { pc: next as u16, ..s }, 2u8))
    }
}

/// The eight conditional branches: BPL and BMI branch on the negative flag (bit 7 of P) clear
/// and set, BVC and BVS on the overflow flag (bit 6), BCC and BCS on the carry flag (bit 0), BNE
/// and BEQ on the zero flag (bit 1).
#[verifier::rlimit(40)]
#[verifier::spinoff_prover]
pub proof fn law_branches(s: NesModel)
    requires
        s.wf(),
    ensures
        s.memory[s.pc as int] == 0x10 ==> spec_step(s) == branch_outcome(s, s.p & 0x80 == 0),
        s.memory[s.pc as int] == 0x30 ==> spec_step(s) == branch_outcome(s, s.p & 0x80 != 0),
        s.memory[s.pc as int] == 0x50 ==> spec_step(s) == branch_outcome(s, s.p & 0x40 == 0),
        s.memory[s.pc as int] == 0x70 ==> spec_step(s) == branch_outcome(s, s.p & 0x40 != 0),
        s.memory[s.pc as int] == 0x90 ==> spec_step(s) == branch_outcome(s, s.p & 0x01 == 0),
        s.memory[s.pc as int] == 0xB0 ==> spec_step(s) == branch_outcome(s, s.p & 0x01 != 0),
        s.memory[s.pc as int] == 0xD0 ==> spec_step(s) == branch_outcome(s, s.p & 0x02 == 0),
        s.memory[s.pc as int] == 0xF0 ==> spec_step(s) == branch_outcome(s, s.p & 0x02 != 0),
{
    let op = s.memory[s.pc as int];
    if is_branch_opcode(op) {
        let (s1, _) = spec_fetch(s);
        let (s2, b) = spec_fetch(s1);
        let next = (s.pc as int + 2) % 0x10000;
        assert(s2.pc == next);
        assert(s1.pc as int == (s.pc as int + 1) % 0x10000);
        let offset: int = if b < 128 { b as int } else { b as int - 256 };
        assert(add16(s2.pc, sign_extend(b) as int) == ((next + offset) % 0x10000) as u16) by {
            if b >= 128 {
                assert((s2.pc as int + (b as int + 0xFF00)) % 0x10000 == (next + offset) % 0x10000) by {
                    vstd::arithmetic::div_mod::lemma_mod_add_multiples_vanish(next + offset, 0x10000);
                }
            }
        }
    }
}

spec fn is_branch_opcode(op: u8) -> bool {
    op == 0x10 || op == 0x30 || op == 0x50 || op == 0x70 || op == 0x90 || op == 0xB0 || op == 0xD0 || op == 0xF0
}

proof fn lemma_with_flag(p: u8, m: u8, on: bool)
    by (bit_vector)
    requires
        m == 1u8 || m == 2u8 || m == 0x40u8 || m == 0x80u8,
    ensures
        (with_flag(p, m, on) & m != 0u8) == on,
        m != 1u8 ==> with_flag(p, m, on) & 1u8 == p & 1u8,
        m != 2u8 ==> with_flag(p, m, on) & 2u8 == p & 2u8,
        m != 0x40u8 ==> with_flag(p, m, on) & 0x40u8 == p & 0x40u8,
        m != 0x80u8 ==> with_flag(p, m, on) & 0x80u8 == p & 0x80u8,
        with_flag(p, m, on) & 0x3Cu8 == p & 0x3Cu8,
        m != 0x40u8 ==> with_flag(p, m, on) & 0x7Cu8 == p & 0x7Cu8,
        (m == 2u8 || m == 0x80u8) ==> with_flag(p, m, on) & 0x7Du8 == p & 0x7Du8,
{
}

/// Zero and negative set from `r`; the other flags kept.
pub open spec fn sets_nz(old_p: u8, new_p: u8, r: u8) -> bool {
    &&& (new_p & 0x02 != 0) == (r == 0)
    &&& (new_p & 0x80 != 0) == (r >= 128)
    &&& new_p & 0x7D == old_p & 0x7D
}

proof fn lemma_nz(p: u8, r: u8)
    ensures
        sets_nz(p, spec_nz(p, r), r),
{
    let w = with_flag(p, FLAG_Z, r == 0);
    lemma_with_flag(p, 2, r == 0);
    lemma_with_flag(w, 0x80, r >= 128);
}

proof fn lemma_flags_nzc(p: u8, r: u8, c: bool)
    ensures
        ({
            let q = with_flag(spec_nz(p, r), FLAG_C, c);
            &&& (q & 0x01 != 0) == c
            &&& (q & 0x02 != 0) == (r == 0)
            &&& (q & 0x80 != 0) == (r >= 128)
            &&& q & 0x7C == p & 0x7C
        }),
{
    let w = spec_nz(p, r);
    lemma_nz(p, r);
    lemma_with_flag(w, 1, c);
    assert(w & 0x7C == p & 0x7C) by {
        lemma_with_flag(with_flag(p, FLAG_Z, r == 0), 0x80, r >= 128);
        lemma_with_flag(p, 2, r == 0);
    }
}

proof fn lemma_flags_czvn(p: u8, c: bool, z: bool, v: bool, n: bool)
    ensures
        ({
            let q = with_flag(with_flag(with_flag(with_flag(p, FLAG_C, c), FLAG_Z, z), FLAG_V, v), FLAG_N, n);
            &&& (q & 0x01 != 0) == c
            &&& (q & 0x02 != 0) == z
            &&& (q & 0x40 != 0) == v
            &&& (q & 0x80 != 0) == n
            &&& q & 0x3C == p & 0x3C
        }),
{
    let w1 = with_flag(p, FLAG_C, c);
    let w2 = with_flag(w1, FLAG_Z, z);
    let w3 = with_flag(w2, FLAG_V, v);
    lemma_with_flag(p, 1, c);
    lemma_with_flag(w1, 2, z);
    lemma_with_flag(w2, 0x40, v);
    lemma_with_flag(w3, 0x80, n);
}

/// The byte after the opcode at PC.
pub open spec fn operand_byte(s: NesModel) -> u8 {
    s.memory[(s.pc as int + 1) % 0x10000]
}

/// The state after a two-cycle instruction of `len` bytes that sets A, X, Y, SP and P to the
/// given values and changes nothing else.
pub open spec fn after_registers(s: NesModel, len: int, acc: u8, x: u8, y: u8, sp: u8, p: u8) -> Option<(NesModel, u8)> {
    Some((NesModel { pc: ((s.pc as int + len) % 0x10000) as u16, acc, x, y, sp, p, ..s }, 2u8))
}

/// A read operation with an immediate operand: the byte after the opcode, applied to the state
/// with PC past both bytes.
proof fn lemma_step_immediate(s: NesModel, m: Mnemonic)
    requires
        decode(s.memory[s.pc as int]) == Some(Instr { mnemonic: m, mode: Mode::Immediate, cycles: 2, page_penalty: false }),
        is_read_op(m),
    ensures
        spec_step(s) == Some((spec_read_op(m, NesModel { pc: ((s.pc as int + 2) % 0x10000) as u16, ..s }, operand_byte(s)), 2u8)),
{
    reveal(spec_execute_read);
    lemma_read_op_page_cross(m, NesModel { pc: ((s.pc as int + 2) % 0x10000) as u16, ..s }, operand_byte(s));
}

/// The loads and logical operations with an immediate operand v (the byte after the opcode):
/// LDA, LDX, LDY put v in A, X, Y; AND, ORA, EOR combine A with v bit by bit. Each sets the zero
/// and negative flags from its result, keeps the other flags, takes 2 cycles and moves PC past
/// its two bytes.
#[verifier::rlimit(40)]
#[verifier::spinoff_prover]
pub proof fn law_load_and_logic_immediate(s: NesModel)
    requires
        s.wf(),
    ensures
        ({
            let v = operand_byte(s);
            let op = s.memory[s.pc as int];
            let t = spec_step(s).unwrap().0;
            &&& op == 0xA9 ==> spec_step(s) == after_registers(s, 2, v, s.x, s.y, s.sp, t.p) && sets_nz(s.p, t.p, v)
            &&& op == 0xA2 ==> spec_step(s) == after_registers(s, 2, s.acc, v, s.y, s.sp, t.p) && sets_nz(s.p, t.p, v)
            &&& op == 0xA0 ==> spec_step(s) == after_registers(s, 2, s.acc, s.x, v, s.sp, t.p) && sets_nz(s.p, t.p, v)
            &&& op == 0x29 ==> spec_step(s) == after_registers(s, 2, v & s.acc, s.x, s.y, s.sp, t.p) && sets_nz(s.p, t.p, v & s.acc)
            &&& op == 0x09 ==> spec_step(s) == after_registers(s, 2, s.acc | v, s.x, s.y, s.sp, t.p) && sets_nz(s.p, t.p, s.acc | v)
            &&& op == 0x49 ==> spec_step(s) == after_registers(s, 2, s.acc ^ v, s.x, s.y, s.sp, t.p) && sets_nz(s.p, t.p, s.acc ^ v)
        }),
{
    let v = operand_byte(s);
    let op = s.memory[s.pc as int];
    if op == 0xA9 || op == 0xA2 || op == 0xA0 {
        lemma_nz(s.p, v);
        reveal(spec_execute_read);
    } else if op == 0x29 {
        lemma_nz(s.p, v & s.acc);
        reveal(spec_execute_read);
    } else if op == 0x09 {
        lemma_nz(s.p, s.acc | v);
        reveal(spec_execute_read);
    } else if op == 0x49 {
        lemma_nz(s.p, s.acc ^ v);
        reveal(spec_execute_read);
    }
}

/// The register increments, decrements and transfers: INX, INY, DEX, DEY add or subtract one
/// (modulo 256); TAX, TAY, TXA, TYA, TSX copy one register into another; all of these set the
/// zero and negative flags from the result and keep the other flags. TXS copies X into SP and
/// keeps the flags. Each takes 2 cycles and one byte.
#[verifier::rlimit(40)]
#[verifier::spinoff_prover]
pub proof fn law_register_ops(s: NesModel)
    requires
        s.wf(),
    ensures
        ({
            let op = s.memory[s.pc as int];
            let t = spec_step(s).unwrap().0;
            let inc_x = ((s.x as int + 1) % 256) as u8;
            let inc_y = ((s.y as int + 1) % 256) as u8;
            let dec_x = ((s.x as int + 255) % 256) as u8;
            let dec_y = ((s.y as int + 255) % 256) as u8;
            &&& op == 0xE8 ==> spec_step(s) == after_registers(s, 1, s.acc, inc_x, s.y, s.sp, t.p) && sets_nz(s.p, t.p, inc_x)
            &&& op == 0xC8 ==> spec_step(s) == after_registers(s, 1, s.acc, s.x, inc_y, s.sp, t.p) && sets_nz(s.p, t.p, inc_y)
            &&& op == 0xCA ==> spec_step(s) == after_registers(s, 1, s.acc, dec_x, s.y, s.sp, t.p) && sets_nz(s.p, t.p, dec_x)
            &&& op == 0x88 ==> spec_step(s) == after_registers(s, 1, s.acc, s.x, dec_y, s.sp, t.p) && sets_nz(s.p, t.p, dec_y)
            &&& op == 0xAA ==> spec_step(s) == after_registers(s, 1, s.acc, s.acc, s.y, s.sp, t.p) && sets_nz(s.p, t.p, s.acc)
            &&& op == 0xA8 ==> spec_step(s) == after_registers(s, 1, s.acc, s.x, s.acc, s.sp, t.p) && sets_nz(s.p, t.p, s.acc)
            &&& op == 0x8A ==> spec_step(s) == after_registers(s, 1, s.x, s.x, s.y, s.sp, t.p) && sets_nz(s.p, t.p, s.x)
            &&& op == 0x98 ==> spec_step(s) == after_registers(s, 1, s.y, s.x, s.y, s.sp, t.p) && sets_nz(s.p, t.p, s.y)
            &&& op == 0xBA ==> spec_step(s) == after_registers(s, 1, s.acc, s.sp, s.y, s.sp, t.p) && sets_nz(s.p, t.p, s.sp)
            &&& op == 0x9A ==> spec_step(s) == after_registers(s, 1, s.acc, s.x, s.y, s.x, s.p)
        }),
{
    reveal(spec_register_op);
    lemma_nz(s.p, ((s.x as int + 1) % 256) as u8);
    lemma_nz(s.p, ((s.y as int + 1) % 256) as u8);
    lemma_nz(s.p, ((s.x as int + 255) % 256) as u8);
    lemma_nz(s.p, ((s.y as int + 255) % 256) as u8);
    lemma_nz(s.p, s.acc);
    lemma_nz(s.p, s.x);
    lemma_nz(s.p, s.y);
    lemma_nz(s.p, s.sp);
    assert(add8(s.x, -1) == ((s.x as int + 255) % 256) as u8);
    assert(add8(s.y, -1) == ((s.y as int + 255) % 256) as u8);
}

/// The shifts and rotations of the accumulator: ASL doubles A (modulo 256), LSR halves it,
/// ROL doubles it and adds the old carry, ROR halves it and adds 128 times the old carry. The
/// bit shifted out (bit 7 for ASL and ROL, bit 0 for LSR and ROR) becomes the carry; zero and
/// negative come from the result; the other flags are kept. Each takes 2 cycles and one byte.
#[verifier::rlimit(40)]
#[verifier::spinoff_prover]
pub proof fn law_shift_accumulator(s: NesModel)
    requires
        s.wf(),
    ensures
        ({
            let op = s.memory[s.pc as int];
            let t = spec_step(s).unwrap().0;
            let a = s.acc as int;
            let cin: int = if s.p & 0x01 != 0 { 1 } else { 0 };
            let r = if op == 0x0A {
                ((a * 2) % 256) as u8
            } else if op == 0x4A {
                (a / 2) as u8
            } else if op == 0x2A {
                ((a * 2 + cin) % 256) as u8
            } else {
                (a / 2 + cin * 128) as u8
            };
            let c = if op == 0x0A || op == 0x2A { a >= 128 } else { a % 2 == 1 };
            (op == 0x0A || op == 0x4A || op == 0x2A || op == 0x6A) ==> {
                &&& spec_step(s) == after_registers(s, 1, r, s.x, s.y, s.sp, t.p)
                &&& (t.p & 0x01 != 0) == c
                &&& (t.p & 0x02 != 0) == (r == 0)
                &&& (t.p & 0x80 != 0) == (r >= 128)
                &&& t.p & 0x7C == s.p & 0x7C
            }
        }),
{
    reveal(spec_execute_modify);
    let op = s.memory[s.pc as int];
    let a = s.acc as int;
    let cin: int = if s.p & 0x01 != 0 { 1 } else { 0 };
    if op == 0x0A || op == 0x4A || op == 0x2A || op == 0x6A {
        let m = if op == 0x0A {
            Mnemonic::Asl
        } else if op == 0x4A {
            Mnemonic::Lsr
        } else if op == 0x2A {
            Mnemonic::Rol
        } else {
            Mnemonic::Ror
        };
        let (r, q) = spec_modify(m, s.p, s.acc);
        let c = if op == 0x0A || op == 0x2A { a >= 128 } else { a % 2 == 1 };
        lemma_flags_nzc(s.p, r, c);
    }
}

/// ADC and SBC with an immediate operand v. ADC puts (A + v + C) modulo 256 in A and sets the
/// carry flag when that result is below the old A (so A + 0xFF + 1 gives no carry). SBC puts
/// (A - v - (1 - C)) modulo 256 in A, sets the carry flag when A - v - (1 - C) is not negative,
/// and sets the zero flag when the result is zero or the flag was already set. Both set the
/// overflow flag when A and the operand (v for ADC; for SBC, the operand's complement) have one
/// sign and the result the other, and the negative flag from bit 7 of the result, keep the other
/// flags, take 2 cycles and move PC past their two bytes.
#[verifier::rlimit(40)]
#[verifier::spinoff_prover]
pub proof fn law_add_subtract_immediate(s: NesModel)
    requires
        s.wf(),
    ensures
        ({
            let op = s.memory[s.pc as int];
            let v = operand_byte(s);
            let t = spec_step(s).unwrap().0;
            let a = s.acc as int;
            let cin: int = if s.p & 0x01 != 0 { 1 } else { 0 };
            let sum = (a + v + cin) % 256;
            let d = a - v - (1 - cin);
            let diff = d % 256;
            &&& op == 0x69 ==> {
                &&& spec_step(s) == after_registers(s, 2, sum as u8, s.x, s.y, s.sp, t.p)
                &&& (t.p & 0x01 != 0) == (sum < a)
                &&& (t.p & 0x02 != 0) == (sum == 0)
                &&& (t.p & 0x40 != 0) == ((a < 128) == (v < 128) && (sum < 128) != (a < 128))
                &&& (t.p & 0x80 != 0) == (sum >= 128)
                &&& t.p & 0x3C == s.p & 0x3C
            }
            &&& op == 0xE9 ==> {
                &&& spec_step(s) == after_registers(s, 2, diff as u8, s.x, s.y, s.sp, t.p)
                &&& (t.p & 0x01 != 0) == (d >= 0)
                &&& (t.p & 0x02 != 0) == (s.p & 0x02 != 0 || diff == 0)
                &&& (t.p & 0x40 != 0) == ((a < 128) != (v < 128) && (diff < 128) != (a < 128))
                &&& (t.p & 0x80 != 0) == (diff >= 128)
                &&& t.p & 0x3C == s.p & 0x3C
            }
        }),
{
    let op = s.memory[s.pc as int];
    let v = operand_byte(s);
    if op == 0x69 {
        lemma_step_immediate(s, Mnemonic::Adc);
        let r = add8(s.acc, v as int + carry_in(s.p));
        let ov = if r >= 128 { s.acc < 128 && v < 128 } else { s.acc >= 128 && v >= 128 };
        lemma_flags_czvn(s.p, r < s.acc, r == 0, ov, r >= 128);
    } else if op == 0xE9 {
        lemma_step_immediate(s, Mnemonic::Sbc);
        let d = s.acc as int - v as int - (1 - carry_in(s.p));
        let r = add8(s.acc, -(v as int) - (1 - carry_in(s.p)));
        let ov = (v >= 128 && s.acc < 128 && r >= 128) || (v < 128 && s.acc >= 128 && r < 128);
        lemma_flags_czvn(s.p, d >= 0, flag(s.p, FLAG_Z) || r == 0, ov, r >= 128);
    }
}

/// The zero-page modes: the operand byte b (at PC) is the address, plus X or Y modulo 256 in
/// the indexed modes; PC moves past b; nothing else changes.
#[verifier::spinoff_prover]
pub proof fn law_zero_page_modes(s: NesModel)
    requires
        s.wf(),
    ensures
        ({
            let b = s.memory[s.pc as int] as int;
            let t = NesModel { pc: ((s.pc as int + 1) % 0x10000) as u16, ..s };
            &&& spec_operand_address(s, Mode::ZeroPage) == Some((t, b as u16))
            &&& spec_operand_address(s, Mode::ZeroPageX) == Some((t, ((b + s.x) % 256) as u16))
            &&& spec_operand_address(s, Mode::ZeroPageY) == Some((t, ((b + s.y) % 256) as u16))
        }),
{
}

/// The absolute modes: the operand word w (low byte at PC, high byte after it) is the address,
/// plus X or Y modulo 0x10000 in the indexed modes, which record in the page-cross indicator
/// (1 or 0) whether the sum lies on another 256-byte page than w; PC moves past the word.
#[verifier::rlimit(40)]
#[verifier::spinoff_prover]
pub proof fn law_absolute_modes(s: NesModel)
    requires
        s.wf(),
    ensures
        ({
            let w = s.memory[s.pc as int] as int + 256 * s.memory[(s.pc as int + 1) % 0x10000] as int;
            let t = NesModel { pc: ((s.pc as int + 2) % 0x10000) as u16, ..s };
            let ax = (w + s.x) % 0x10000;
            let ay = (w + s.y) % 0x10000;
            &&& spec_operand_address(s, Mode::Absolute) == Some((t, w as u16))
            &&& spec_operand_address(s, Mode::AbsoluteX) == Some(
                (NesModel { page_cross: if ax / 256 != w / 256 { 1u8 } else { 0u8 }, ..t }, ax as u16),
            )
            &&& spec_operand_address(s, Mode::AbsoluteY) == Some(
                (NesModel { page_cross: if ay / 256 != w / 256 { 1u8 } else { 0u8 }, ..t }, ay as u16),
            )
        }),
{
    lemma_fetch_word(s);
}

proof fn lemma_fetch_word(s: NesModel)
    ensures
        spec_fetch_abs(s) == (
            NesModel { pc: ((s.pc as int + 2) % 0x10000) as u16, ..s },
            (s.memory[s.pc as int] as int + 256 * s.memory[(s.pc as int + 1) % 0x10000] as int) as u16,
        ),
{
}


/// The indirect modes through the zero page: (zp, X) reads a pointer from the zero page at the
/// operand byte plus X (its high byte from the next zero-page byte, wrapping within the page);
/// (zp), Y reads the pointer at the operand byte and adds Y modulo 0x10000, recording in the
/// page-cross indicator whether the sum lies on another page than the pointer. PC moves past
/// the operand byte.
#[verifier::rlimit(40)]
#[verifier::spinoff_prover]
pub proof fn law_indirect_zero_page_modes(s: NesModel)
    requires
        s.wf(),
    ensures
        ({
            let b = s.memory[s.pc as int] as int;
            let t = NesModel { pc: ((s.pc as int + 1) % 0x10000) as u16, ..s };
            let zx = (b + s.x) % 256;
            let px = s.memory[zx] as int + 256 * s.memory[(zx + 1) % 256] as int;
            let py = s.memory[b] as int + 256 * s.memory[(b + 1) % 256] as int;
            let ay = (py + s.y) % 0x10000;
            &&& spec_operand_address(s, Mode::IndirectX) == Some((t, px as u16))
            &&& spec_operand_address(s, Mode::IndirectY) == Some(
                (NesModel { page_cross: if ay / 256 != py / 256 { 1u8 } else { 0u8 }, ..t }, ay as u16),
            )
        }),
{
    let (s1, z) = spec_fetch(s);
    lemma_zero_page_pointer(s1, add8(z, s.x as int));
    lemma_zero_page_pointer(s1, z);
}

proof fn lemma_zero_page_pointer(s: NesModel, z: u8)
    ensures
        spec_read_zp_pointer(s, z) == Some((s, spec_endian(s.memory[z as int], s.memory[(z as int + 1) % 256]))),
{
    reveal(spec_read);
}

/// The indirect mode of JMP: the pointer w is the operand word; the target's low byte is at w
/// and its high byte at the next address of the same 256-byte page (so a pointer at the end of a
/// page takes its high byte from the page's start). Stated for pointers in internal RAM below
/// 0x800 and from 0x4100 on, where reads are plain memory reads.
#[verifier::rlimit(40)]
#[verifier::spinoff_prover]
pub proof fn law_indirect_mode(s: NesModel)
    requires
        s.wf(),
        ({
            let w = s.memory[s.pc as int] as int + 256 * s.memory[(s.pc as int + 1) % 0x10000] as int;
            w < 0x800 || w >= 0x4100
        }),
    ensures
        ({
            let w = s.memory[s.pc as int] as int + 256 * s.memory[(s.pc as int + 1) % 0x10000] as int;
            let t = NesModel { pc: ((s.pc as int + 2) % 0x10000) as u16, ..s };
            let hi = s.memory[(w / 256) * 256 + (w + 1) % 256];
            spec_operand_address(s, Mode::Indirect) == Some((t, (s.memory[w] as int + 256 * hi as int) as u16))
        }),
{
    let (s1, a) = spec_fetch_abs(s);
    let off: int = if spec_page_crossed(a, 1) { 0x100 } else { 0 };
    let a2 = add16(a, 1 - off);
    if a % 256 == 255 {
        assert(spec_page_crossed(a, 1));
    } else {
        assert(!spec_page_crossed(a, 1));
    }
    assert(a2 == (a / 256) * 256 + (a + 1) % 256);
    reveal(spec_read);
}

/// CMP, CPX and CPY with an immediate operand v compare A, X or Y with v: the carry flag is set
/// when the register is at least v, the zero flag when they are equal, the negative flag from
/// bit 7 of (register - v) modulo 256; the other flags and all registers are kept; 2 cycles.
#[verifier::rlimit(40)]
#[verifier::spinoff_prover]
pub proof fn law_compare_immediate(s: NesModel)
    requires
        s.wf(),
    ensures
        ({
            let op = s.memory[s.pc as int];
            let v = operand_byte(s);
            let t = spec_step(s).unwrap().0;
            let reg = if op == 0xC9 { s.acc } else if op == 0xE0 { s.x } else { s.y };
            (op == 0xC9 || op == 0xE0 || op == 0xC0) ==> {
                &&& spec_step(s) == after_registers(s, 2, s.acc, s.x, s.y, s.sp, t.p)
                &&& (t.p & 0x01 != 0) == (reg >= v)
                &&& (t.p & 0x02 != 0) == (reg == v)
                &&& (t.p & 0x80 != 0) == ((reg as int - v as int + 256) % 256 >= 128)
                &&& t.p & 0x7C == s.p & 0x7C
            }
        }),
{
    let op = s.memory[s.pc as int];
    let v = operand_byte(s);
    if op == 0xC9 || op == 0xE0 || op == 0xC0 {
        let m = if op == 0xC9 { Mnemonic::Cmp } else if op == 0xE0 { Mnemonic::Cpx } else { Mnemonic::Cpy };
        lemma_step_immediate(s, m);
        let reg = if op == 0xC9 { s.acc } else if op == 0xE0 { s.x } else { s.y };
        let r = add8(reg, -(v as int));
        assert((r == 0) == (reg == v));
        lemma_flags_nzc(s.p, r, reg >= v);
    }
}

/// STA, STX and STY on the zero page store A, X or Y in RAM at the operand byte and change
/// nothing else; 3 cycles. INC and DEC on the zero page add or subtract one (modulo 256) to the
/// byte there, set zero and negative from the result and keep the other flags; 5 cycles.
#[verifier::rlimit(40)]
#[verifier::spinoff_prover]
pub proof fn law_zero_page_store_and_modify(s: NesModel)
    requires
        s.wf(),
    ensures
        ({
            let op = s.memory[s.pc as int];
            let b = operand_byte(s) as int;
            let pc2 = ((s.pc as int + 2) % 0x10000) as u16;
            let t = spec_step(s).unwrap().0;
            let inc = ((s.memory[b] as int + 1) % 256) as u8;
            let dec = ((s.memory[b] as int + 255) % 256) as u8;
            &&& op == 0x85 ==> spec_step(s) == Some((NesModel { pc: pc2, memory: s.memory.update(b, s.acc), ..s }, 3u8))
            &&& op == 0x86 ==> spec_step(s) == Some((NesModel { pc: pc2, memory: s.memory.update(b, s.x), ..s }, 3u8))
            &&& op == 0x84 ==> spec_step(s) == Some((NesModel { pc: pc2, memory: s.memory.update(b, s.y), ..s }, 3u8))
            &&& op == 0xE6 ==> spec_step(s) == Some((NesModel { pc: pc2, memory: s.memory.update(b, inc), p: t.p, ..s }, 5u8))
                && sets_nz(s.p, t.p, inc)
            &&& op == 0xC6 ==> spec_step(s) == Some((NesModel { pc: pc2, memory: s.memory.update(b, dec), p: t.p, ..s }, 5u8))
                && sets_nz(s.p, t.p, dec)
        }),
{
    let op = s.memory[s.pc as int];
    let b = operand_byte(s) as int;
    if op == 0x85 || op == 0x86 || op == 0x84 {
        reveal(spec_execute_store);
        reveal(spec_write);
    } else if op == 0xE6 || op == 0xC6 {
        let inc = ((s.memory[b] as int + 1) % 256) as u8;
        let dec = ((s.memory[b] as int + 255) % 256) as u8;
        assert(add8(s.memory[b], -1) == dec);
        lemma_nz(s.p, inc);
        lemma_nz(s.p, dec);
        reveal(spec_execute_modify);
        reveal(spec_read);
        reveal(spec_write);
    }
}

} // verus!
