use nesemu::emu::Nes;
use nesemu::opcodes::run_op_code;

const C: u8 = 0b1;
const Z: u8 = 0b10;
const V: u8 = 0b0100_0000;
const N: u8 = 0b1000_0000;

fn with_program(program: &[u8]) -> Nes {
    let mut nes = Nes::start();
    for (i, b) in program.iter().enumerate() {
        nes.memory[0x8000 + i] = *b;
    }
    nes
}

#[test]
fn lda_immediate_sets_flags() {
    let mut nes = with_program(&[0xA9, 0x00, 0xA9, 0x80, 0xA9, 0x05]);
    assert_eq!(nes.step(), 2);
    assert_eq!(nes.acc, 0);
    assert_eq!(nes.p & (Z | N), Z);
    nes.step();
    assert_eq!(nes.acc, 0x80);
    assert_eq!(nes.p & (Z | N), N);
    nes.step();
    assert_eq!(nes.p & (Z | N), 0);
    assert_eq!(nes.pc, 0x8006);
}

#[test]
fn adc_carry_and_overflow() {
    // 0x50 + 0x50 = 0xA0: overflow, negative, no carry
    let mut nes = with_program(&[0x69, 0x50]);
    nes.acc = 0x50;
    nes.step();
    assert_eq!(nes.acc, 0xA0);
    assert_eq!(nes.p & (C | Z | V | N), V | N);
    // 0xFF + 0x01 = 0x00: carry and zero
    let mut nes = with_program(&[0x69, 0x01]);
    nes.acc = 0xFF;
    nes.step();
    assert_eq!(nes.acc, 0);
    assert_eq!(nes.p & (C | Z | V | N), C | Z);
    // 0x10 + 0x20 + carry = 0x31
    let mut nes = with_program(&[0x69, 0x20]);
    nes.acc = 0x10;
    nes.p |= C;
    nes.step();
    assert_eq!(nes.acc, 0x31);
    assert_eq!(nes.p & C, 0);
}

#[test]
fn adc_misses_carry_when_result_equals_accumulator() {
    // 0x10 + 0xFF + carry = 0x110: the result byte equals A, and this emulator's carry test
    // (result below A) does not see the carry
    let mut nes = with_program(&[0x69, 0xFF]);
    nes.acc = 0x10;
    nes.p |= C;
    nes.step();
    assert_eq!(nes.acc, 0x10);
    assert_eq!(nes.p & C, 0);
}

#[test]
fn sbc_borrow_and_overflow() {
    let mut nes = with_program(&[0xE9, 0x01]);
    nes.acc = 0x05;
    nes.p |= C;
    nes.step();
    assert_eq!(nes.acc, 0x04);
    assert_eq!(nes.p & (C | Z | V | N), C);
    let mut nes = with_program(&[0xE9, 0x01]);
    nes.acc = 0x00;
    nes.p |= C;
    nes.step();
    assert_eq!(nes.acc, 0xFF);
    assert_eq!(nes.p & (C | N), N);
    // 0x80 - 0x01 = 0x7F: overflow
    let mut nes = with_program(&[0xE9, 0x01]);
    nes.acc = 0x80;
    nes.p |= C;
    nes.step();
    assert_eq!(nes.acc, 0x7F);
    assert_eq!(nes.p & (C | V | N), C | V);
    // without carry one more is taken
    let mut nes = with_program(&[0xE9, 0x01]);
    nes.acc = 0x05;
    nes.step();
    assert_eq!(nes.acc, 0x03);
}

#[test]
fn sbc_leaves_zero_flag_set() {
    let mut nes = with_program(&[0xE9, 0x01]);
    nes.acc = 0x05;
    nes.p |= C | Z;
    nes.step();
    assert_eq!(nes.acc, 0x04);
    assert_eq!(nes.p & Z, Z);
}

#[test]
fn sbc_matches_adc_of_complement() {
    for (a, b, c) in [(0x05u8, 0x01u8, true), (0x00, 0x01, true), (0x80, 0x7F, false), (0x40, 0xC0, true), (0x12, 0x34, false)] {
        let mut s = with_program(&[0xE9, b]);
        s.acc = a;
        if c { s.p |= C; }
        s.step();
        let mut t = with_program(&[0x69, 255 - b]);
        t.acc = a;
        if c { t.p |= C; }
        t.step();
        assert_eq!(s.acc, t.acc);
        assert_eq!(s.p, t.p);
    }
}

#[test]
fn logic_ops() {
    let mut nes = with_program(&[0x29, 0x0F, 0x09, 0x80, 0x49, 0xFF]);
    nes.acc = 0x3C;
    nes.step();
    assert_eq!(nes.acc, 0x0C);
    nes.step();
    assert_eq!(nes.acc, 0x8C);
    assert_eq!(nes.p & N, N);
    nes.step();
    assert_eq!(nes.acc, 0x73);
    assert_eq!(nes.p & (N | Z), 0);
}

#[test]
fn shifts_and_rotations() {
    let mut nes = with_program(&[0x0A, 0x0A, 0x4A, 0x2A, 0x6A, 0x6A]);
    nes.acc = 0xC1;
    nes.step(); // ASL: 0x82, C
    assert_eq!(nes.acc, 0x82);
    assert_eq!(nes.p & (C | N), C | N);
    nes.step(); // ASL: 0x04, C
    assert_eq!(nes.acc, 0x04);
    assert_eq!(nes.p & (C | N), C);
    nes.step(); // LSR: 0x02, no C
    assert_eq!(nes.acc, 0x02);
    assert_eq!(nes.p & C, 0);
    nes.p |= C;
    nes.step(); // ROL with carry in: 0x05
    assert_eq!(nes.acc, 0x05);
    assert_eq!(nes.p & C, 0);
    nes.step(); // ROR: 0x02, C out
    assert_eq!(nes.acc, 0x02);
    assert_eq!(nes.p & C, C);
    nes.step(); // ROR with carry in: 0x81
    assert_eq!(nes.acc, 0x81);
    assert_eq!(nes.p & (C | N), N);
}

#[test]
fn memory_modify_instructions() {
    // INC $10 ; DEC $10 ; DEC $10 ; ASL $0010
    let mut nes = with_program(&[0xE6, 0x10, 0xC6, 0x10, 0xC6, 0x10, 0x0E, 0x10, 0x00]);
    nes.memory[0x10] = 0xFF;
    assert_eq!(nes.step(), 5);
    assert_eq!(nes.memory[0x10], 0);
    assert_eq!(nes.p & Z, Z);
    nes.step();
    assert_eq!(nes.memory[0x10], 0xFF);
    assert_eq!(nes.p & (Z | N), N);
    nes.step();
    assert_eq!(nes.memory[0x10], 0xFE);
    assert_eq!(nes.step(), 6);
    assert_eq!(nes.memory[0x10], 0xFC);
    assert_eq!(nes.p & C, C);
}

#[test]
fn register_increments_and_transfers() {
    let mut nes = with_program(&[0xE8, 0xCA, 0xCA, 0xC8, 0x88, 0xAA, 0xA8, 0x8A, 0x98, 0xBA, 0x9A]);
    nes.step();
    assert_eq!(nes.x, 1);
    nes.step();
    nes.step();
    assert_eq!(nes.x, 0xFF);
    assert_eq!(nes.p & N, N);
    nes.step();
    nes.step();
    assert_eq!(nes.y, 0);
    assert_eq!(nes.p & Z, Z);
    nes.acc = 0x42;
    nes.step(); // TAX
    assert_eq!(nes.x, 0x42);
    nes.step(); // TAY
    assert_eq!(nes.y, 0x42);
    nes.x = 7;
    nes.step(); // TXA
    assert_eq!(nes.acc, 7);
    nes.step(); // TYA
    assert_eq!(nes.acc, 0x42);
    nes.step(); // TSX
    assert_eq!(nes.x, 0xFD);
    nes.x = 0x80;
    let p = nes.p;
    nes.step(); // TXS leaves the flags
    assert_eq!(nes.sp, 0x80);
    assert_eq!(nes.p, p);
}

#[test]
fn compare_flags() {
    let mut nes = with_program(&[0xC9, 0x10, 0xC9, 0x20, 0xC9, 0x30, 0xE0, 0x05, 0xC0, 0x06]);
    nes.acc = 0x20;
    nes.step();
    assert_eq!(nes.p & (C | Z | N), C);
    nes.step();
    assert_eq!(nes.p & (C | Z | N), C | Z);
    nes.step();
    assert_eq!(nes.p & (C | Z | N), N);
    nes.x = 5;
    nes.step();
    assert_eq!(nes.p & (C | Z), C | Z);
    nes.y = 5;
    nes.step();
    assert_eq!(nes.p & (C | Z | N), N);
}

#[test]
fn bit_test() {
    let mut nes = with_program(&[0x24, 0x10]);
    nes.memory[0x10] = 0xC0;
    nes.acc = 0x01;
    assert_eq!(nes.step(), 3);
    assert_eq!(nes.p & (Z | V | N), Z | V | N);
}

#[test]
fn branches_and_their_cycles() {
    // BNE +2 not taken (Z set), then BEQ +2 taken
    let mut nes = with_program(&[0xD0, 0x02, 0xF0, 0x02, 0xEA, 0xEA, 0xEA]);
    nes.p |= Z;
    assert_eq!(nes.step(), 2);
    assert_eq!(nes.pc, 0x8002);
    assert_eq!(nes.step(), 3);
    assert_eq!(nes.pc, 0x8006);
    // a backward branch
    let mut nes = with_program(&[0xEA, 0xEA, 0x90, 0xFC]);
    nes.pc = 0x8002;
    assert_eq!(nes.step(), 5);
    assert_eq!(nes.pc, 0x8000);
    // a branch that crosses a page
    let mut nes = Nes::start();
    nes.pc = 0x80F0;
    nes.memory[0x80F0] = 0x10; // BPL
    nes.memory[0x80F1] = 0x20;
    assert_eq!(nes.step(), 5);
    assert_eq!(nes.pc, 0x8112);
}

#[test]
fn jsr_rts_roundtrip() {
    let mut nes = with_program(&[0x20, 0x00, 0x90]);
    nes.memory[0x9000] = 0x60;
    assert_eq!(nes.step(), 6);
    assert_eq!(nes.pc, 0x9000);
    assert_eq!(nes.memory[0x1FD], 0x80);
    assert_eq!(nes.memory[0x1FC], 0x02);
    assert_eq!(nes.step(), 6);
    assert_eq!(nes.pc, 0x8003);
    assert_eq!(nes.sp, 0xFD);
}

#[test]
fn brk_rti_roundtrip() {
    let mut nes = with_program(&[0x00, 0xEA]);
    nes.memory[0xFFFE] = 0x00;
    nes.memory[0xFFFF] = 0x90;
    nes.memory[0x9000] = 0x40;
    nes.p = 0b1010_0001;
    assert_eq!(nes.step(), 7);
    assert_eq!(nes.pc, 0x9000);
    assert_eq!(nes.p & 0b1_0000, 0b1_0000);
    assert_eq!(nes.step(), 6);
    assert_eq!(nes.pc, 0x8001);
    assert_eq!(nes.sp, 0xFD);
    assert_eq!(nes.p, 0b1010_0001);
}

#[test]
fn nmi_rti_roundtrip() {
    let mut nes = with_program(&[0xEA]);
    nes.memory[0xFFFA] = 0x00;
    nes.memory[0xFFFB] = 0x90;
    nes.memory[0x9000] = 0x40;
    nes.p = 0b0011_0011;
    nes.nmi_interrput();
    assert_eq!(nes.pc, 0x9000);
    nes.step();
    assert_eq!(nes.pc, 0x8000);
    assert_eq!(nes.sp, 0xFD);
    assert_eq!(nes.p, 0b0010_0011);
}

#[test]
fn stack_instructions() {
    let mut nes = with_program(&[0x48, 0xA9, 0x00, 0x68, 0x08, 0x28]);
    nes.acc = 0x9C;
    assert_eq!(nes.step(), 3);
    nes.step();
    assert_eq!(nes.acc, 0);
    assert_eq!(nes.step(), 4);
    assert_eq!(nes.acc, 0x9C);
    assert_eq!(nes.p & N, N);
    nes.p = 0b1101_0011;
    nes.step();
    nes.p = 0;
    nes.step();
    assert_eq!(nes.p, 0b1110_0011);
    assert_eq!(nes.sp, 0xFD);
}

#[test]
fn flag_instructions() {
    let mut nes = with_program(&[0x38, 0xF8, 0x78, 0x18, 0xD8, 0x58, 0xB8]);
    nes.p = 0b0100_0000;
    nes.step();
    nes.step();
    nes.step();
    assert_eq!(nes.p, 0b0100_1101);
    nes.step();
    nes.step();
    nes.step();
    nes.step();
    assert_eq!(nes.p, 0);
}

#[test]
fn addressing_modes() {
    // LDA $10,X (zero page wraps) ; LDA $12FF,X (page cross) ; LDA ($20,X) ; LDA ($30),Y
    let mut nes = with_program(&[0xB5, 0xF0, 0xBD, 0xFF, 0x02, 0xA1, 0x20, 0xB1, 0x30]);
    nes.x = 0x20;
    nes.memory[0x10] = 0x11;
    nes.memory[0x031F] = 0x22;
    nes.memory[0x40] = 0x00;
    nes.memory[0x41] = 0x06;
    nes.memory[0x0600] = 0x33;
    nes.memory[0x30] = 0xF0;
    nes.memory[0x31] = 0x06;
    nes.y = 0x20;
    nes.memory[0x0710] = 0x44;
    assert_eq!(nes.step(), 4);
    assert_eq!(nes.acc, 0x11);
    assert_eq!(nes.step(), 5);
    assert_eq!(nes.acc, 0x22);
    assert_eq!(nes.step(), 6);
    assert_eq!(nes.acc, 0x33);
    assert_eq!(nes.step(), 6);
    assert_eq!(nes.acc, 0x44);
}

#[test]
fn absolute_y_without_page_cross_and_zero_page_y() {
    let mut nes = with_program(&[0xB9, 0x00, 0x02, 0xB6, 0xFF]);
    nes.y = 1;
    nes.memory[0x0201] = 5;
    nes.memory[0x00] = 6;
    assert_eq!(nes.step(), 4);
    assert_eq!(nes.acc, 5);
    assert_eq!(nes.step(), 4);
    assert_eq!(nes.x, 6);
}

#[test]
fn stores() {
    let mut nes = with_program(&[0x85, 0x10, 0x86, 0x11, 0x84, 0x12, 0x9D, 0x00, 0x02, 0x91, 0x20]);
    nes.acc = 1;
    nes.x = 2;
    nes.y = 3;
    nes.memory[0x20] = 0x00;
    nes.memory[0x21] = 0x03;
    assert_eq!(nes.step(), 3);
    nes.step();
    nes.step();
    assert_eq!(&nes.memory[0x10..0x13], &[1, 2, 3]);
    assert_eq!(nes.step(), 5);
    assert_eq!(nes.memory[0x202], 1);
    assert_eq!(nes.step(), 6);
    assert_eq!(nes.memory[0x303], 1);
}

#[test]
fn jumps() {
    let mut nes = with_program(&[0x4C, 0x34, 0x12]);
    assert_eq!(nes.step(), 3);
    assert_eq!(nes.pc, 0x1234);
    // JMP ($02FF) reads its high byte from $0200
    let mut nes = with_program(&[0x6C, 0xFF, 0x02]);
    nes.memory[0x02FF] = 0x34;
    nes.memory[0x0200] = 0x12;
    nes.memory[0x0300] = 0x56;
    assert_eq!(nes.step(), 5);
    assert_eq!(nes.pc, 0x1234);
}

#[test]
fn nops_skip_operands() {
    let mut nes = with_program(&[0xEA, 0x1A, 0x04, 0x00, 0x0C, 0x00, 0x00, 0x14, 0x00, 0x80, 0x00, 0x1C, 0x00, 0x00]);
    let before = nes.acc;
    assert_eq!(nes.step(), 2);
    assert_eq!(nes.step(), 2);
    assert_eq!(nes.step(), 3);
    assert_eq!(nes.pc, 0x8004);
    assert_eq!(nes.step(), 4);
    assert_eq!(nes.pc, 0x8007);
    assert_eq!(nes.step(), 4);
    assert_eq!(nes.step(), 2);
    assert_eq!(nes.step(), 5);
    assert_eq!(nes.pc, 0x800E);
    assert_eq!(nes.acc, before);
}

#[test]
fn run_op_code_executes_after_fetch() {
    let mut nes = with_program(&[0x05]);
    nes.acc = 0x0A;
    // the opcode was fetched already; PC points at its operand
    assert_eq!(run_op_code(&mut nes, 0x09), 2);
    assert_eq!(nes.acc, 0x0F);
    assert_eq!(nes.pc, 0x8001);
}

#[test]
fn every_instruction_takes_two_to_seven_cycles() {
    let known: Vec<u8> = vec![
        0x69, 0x65, 0x75, 0x6D, 0x7D, 0x79, 0x61, 0x71, 0x29, 0x25, 0x35, 0x2D, 0x3D, 0x39, 0x21, 0x31,
        0x0A, 0x06, 0x16, 0x0E, 0x1E, 0x24, 0x2C, 0x18, 0xD8, 0x58, 0xB8, 0xC9, 0xC5, 0xD5, 0xCD, 0xDD,
        0xD9, 0xC1, 0xD1, 0xE0, 0xE4, 0xEC, 0xC0, 0xC4, 0xCC, 0xC6, 0xD6, 0xCE, 0xDE, 0xCA, 0x88, 0x49,
        0x45, 0x55, 0x4D, 0x5D, 0x59, 0x41, 0x51, 0xE6, 0xF6, 0xEE, 0xFE, 0xE8, 0xC8, 0xA9, 0xA5, 0xB5,
        0xAD, 0xBD, 0xB9, 0xA1, 0xB1, 0xA2, 0xA6, 0xB6, 0xAE, 0xBE, 0xA0, 0xA4, 0xB4, 0xAC, 0xBC, 0x4A,
        0x46, 0x56, 0x4E, 0x5E, 0xEA, 0x09, 0x05, 0x15, 0x0D, 0x1D, 0x19, 0x01, 0x11, 0x48, 0x08, 0x68,
        0x28, 0x2A, 0x26, 0x36, 0x2E, 0x3E, 0x6A, 0x66, 0x76, 0x6E, 0x7E, 0xE9, 0xE5, 0xF5, 0xED, 0xFD,
        0xF9, 0xE1, 0xF1, 0x38, 0xF8, 0x78, 0x85, 0x95, 0x8D, 0x9D, 0x99, 0x81, 0x91, 0x86, 0x96, 0x8E,
        0x84, 0x94, 0x8C, 0xAA, 0xA8, 0xBA, 0x8A, 0x9A, 0x98, 0x04, 0x14, 0x80, 0x0C, 0x1C,
    ];
    for op in known {
        // operands that point into RAM
        let mut nes = with_program(&[op, 0x10, 0x00]);
        nes.memory[0x10] = 0x20;
        nes.memory[0x11] = 0x00;
        let c = nes.step();
        assert!((2..=7).contains(&c), "opcode {:#x} took {} cycles", op, c);
    }
}
