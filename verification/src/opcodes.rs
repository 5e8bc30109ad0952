use vstd::prelude::*;
use crate::helper::{endian, get_bit, is_negative, page_crossed, unendian, spec_endian, spec_page_crossed};
use crate::emu::{
    Nes, NesModel, FLAG_C, FLAG_N, FLAG_V, FLAG_Z, add16, add8, flag, spec_fetch, spec_fetch_abs,
    spec_nz, spec_read, spec_write, with_flag, lemma_read_ignores_p, lemma_read_keeps_wf,
};
use crate::isa::{
    Instr, decode, spec_execute_read, spec_execute_modify, spec_execute_store, spec_register_op,
    spec_stack_op, spec_control_op, spec_nop,
    Mnemonic, Mode, carry_in, cross_bit, sign_extend, spec_adc, spec_bit, spec_compare, spec_exec,
    spec_modify, spec_modify_at, spec_operand_address, spec_zero_page, spec_zero_page_indexed,
    spec_absolute_indexed, spec_indirect_x, spec_indirect_y, spec_indirect, spec_read_op, spec_read_zp_pointer, spec_sbc,
};

verus! {

// ---------------------------------------------------------------- flag bookkeeping

/// Clearing the zero and negative flags and then setting each when its condition holds gives
/// `spec_nz`.
proof fn lemma_nz_steps(p0: u8, z: bool, n: bool)
    ensures
        ({
            let p1 = p0 & !0b10000010u8;
            let p2 = if z { p1 | 0b10u8 } else { p1 };
            if n { p2 | 0b10000000u8 } else { p2 }
        }) == with_flag(with_flag(p0, FLAG_Z, z), FLAG_N, n),
{
    assert(({
        let p1 = p0 & !0b10000010u8;
        let p2 = if z { p1 | 0b10u8 } else { p1 };
        if n { p2 | 0b10000000u8 } else { p2 }
    }) == with_flag(with_flag(p0, 0b10u8, z), 0b10000000u8, n)) by (bit_vector);
}

// ---------------------------------------------------------------- addressing modes

fn immediate(nes: &mut Nes) -> (r: u8)
    requires
        old(nes)@.wf(),
    ensures
        (final(nes)@, r) == spec_fetch(old(nes)@),
        final(nes)@.wf(),
{
    nes.nextOp()
}

fn zero_page(nes: &mut Nes) -> (r: u8)
    requires
        old(nes)@.wf(),
    ensures
        (final(nes)@, r as u16) == spec_zero_page(old(nes)@),
        final(nes)@.wf(),
{
    nes.nextOp()
}

fn zero_page_x(nes: &mut Nes) -> (r: u8)
    requires
        old(nes)@.wf(),
    ensures
        (final(nes)@, r as u16) == spec_zero_page_indexed(old(nes)@, old(nes).x),
        final(nes)@.wf(),
{
    nes.nextOp().wrapping_add(nes.x)
}

fn zero_page_y(nes: &mut Nes) -> (r: u8)
    requires
        old(nes)@.wf(),
    ensures
        (final(nes)@, r as u16) == spec_zero_page_indexed(old(nes)@, old(nes).y),
        final(nes)@.wf(),
{
    nes.nextOp().wrapping_add(nes.y)
}

fn absolute(nes: &mut Nes) -> (r: u16)
    requires
        old(nes)@.wf(),
    ensures
        (final(nes)@, r) == spec_fetch_abs(old(nes)@),
        final(nes)@.wf(),
{
    nes.nextabs()
}

fn absolute_x(nes: &mut Nes) -> (r: u16)
    requires
        old(nes)@.wf(),
    ensures
        (final(nes)@, r) == spec_absolute_indexed(old(nes)@, old(nes).x),
        final(nes)@.wf(),
{
    let address = nes.nextabs();
    if page_crossed(address, nes.x) {
        nes.page_cross = 1;
    } else {
        nes.page_cross = 0;
    }
    address.wrapping_add(nes.x as u16)
}

fn absolute_y(nes: &mut Nes) -> (r: u16)
    requires
        old(nes)@.wf(),
    ensures
        (final(nes)@, r) == spec_absolute_indexed(old(nes)@, old(nes).y),
        final(nes)@.wf(),
{
    let address = nes.nextabs();
    if page_crossed(address, nes.y) {
        nes.page_cross = 1;
    } else {
        nes.page_cross = 0;
    }
    address.wrapping_add(nes.y as u16)
}

fn indexed_indirect_x(nes: &mut Nes) -> (r: u16)
    requires
        old(nes)@.wf(),
        spec_indirect_x(old(nes)@) is Some,
    ensures
        Some((final(nes)@, r)) == spec_indirect_x(old(nes)@),
        final(nes)@.wf(),
{
    let add = nes.nextOp().wrapping_add(nes.x);
    let bit1 = nes.read_memory(add as u16);
    let bit2 = nes.read_memory(add.wrapping_add(1) as u16);
    endian(bit1, bit2)
}

fn indirect_indexed_y(nes: &mut Nes) -> (r: u16)
    requires
        old(nes)@.wf(),
        spec_indirect_y(old(nes)@) is Some,
    ensures
        Some((final(nes)@, r)) == spec_indirect_y(old(nes)@),
        final(nes)@.wf(),
{
    let add = nes.nextOp();
    let bit1 = nes.read_memory(add as u16);
    let bit2 = nes.read_memory(add.wrapping_add(1) as u16);
    let address = endian(bit1, bit2);
    if page_crossed(address, nes.y) {
        nes.page_cross = 1;
    } else {
        nes.page_cross = 0;
    }
    endian(bit1, bit2).wrapping_add(nes.y as u16)
}

fn relative(nes: &mut Nes) -> (r: u16)
    requires
        old(nes)@.wf(),
    ensures
        final(nes)@ == spec_fetch(old(nes)@).0,
        r == sign_extend(spec_fetch(old(nes)@).1),
        r % 256 == spec_fetch(old(nes)@).1,
        final(nes)@.wf(),
{
    let b = nes.nextOp();
    let r = ((b as i8) as i16) as u16;
    assert(r == if b < 128 { b as u16 } else { (b as u16 + 0xFF00u16) as u16 }) by (bit_vector)
        requires
            r == ((b as i8) as i16) as u16,
    ;
    r
}

fn indirect(nes: &mut Nes) -> (r: u16)
    requires
        old(nes)@.wf(),
        spec_indirect(old(nes)@) is Some,
    ensures
        Some((final(nes)@, r)) == spec_indirect(old(nes)@),
        final(nes)@.wf(),
{
    let address = nes.nextabs();
    let bit1 = nes.read_memory(address);
    let mut offset: u16 = 0;
    if page_crossed(address as u16, 1) {
        offset = 0x100;
    }
    let bit2 = nes.read_memory(address.wrapping_add(1).wrapping_sub(offset));
    let ind = endian(bit1, bit2);
    ind
}

// ---------------------------------------------------------------- add with carry

fn add_with_carry(nes: &mut Nes, b: u8)
    ensures
        final(nes)@ == spec_adc(old(nes)@, b),
{
    let carry = get_bit(nes.p, 0);
    let a = nes.acc;
    let ghost p0 = nes.p;
    nes.reset_flags(0b11000011);
    let ghost p1 = nes.p;
    let c = a.wrapping_add(b).wrapping_add(carry);
    if c < a {
        nes.set_flags(1);
    }
    let ghost p2 = nes.p;
    if c == 0 {
        nes.set_flags(0b10);
    }
    let ghost p3 = nes.p;
    if is_negative(c) {
        nes.set_flags(0b10000000);
        if !is_negative(a) && !is_negative(b) {
            nes.set_flags(0b1000000);
        }
    } else if is_negative(a) && is_negative(b) {
        nes.set_flags(0b1000000);
    }
    let ghost p4 = nes.p;
    nes.acc = c;
    proof {
        lemma_flag_bits(p0);
        let cc = c < a;
        let zz = c == 0;
        let nn = c >= 128;
        let vv = if nn { a < 128 && b < 128 } else { a >= 128 && b >= 128 };
        assert(p4 == with_flag(with_flag(with_flag(with_flag(p0, 1u8, cc), 2u8, zz), 0x40u8, vv), 0x80u8, nn)) by (bit_vector)
            requires
                p1 == p0 & !0b11000011u8,
                p2 == if cc { p1 | 1u8 } else { p1 },
                p3 == if zz { p2 | 2u8 } else { p2 },
                p4 == if nn { if vv { (p3 | 0x80u8) | 0x40u8 } else { p3 | 0x80u8 } } else { if vv { p3 | 0x40u8 } else { p3 } },
        ;
    }
}


// ---------------------------------------------------------------- logical operations

fn logical_and(nes: &mut Nes, a: u8)
    ensures
        final(nes)@ == spec_read_op(Mnemonic::And, old(nes)@, a),
{
    let acc = nes.acc;
    let c = a & acc;
    let ghost p0 = nes.p;
    nes.reset_flags(0b10000010);
    if c == 0 {
        nes.set_flags(0b10)
    }
    proof {
        lemma_flag_bits(c);
    }
    if get_bit(c, 7) == 1 {
        nes.set_flags(0b10000000);
    }
    nes.acc = c;
    proof {
        lemma_nz_steps(p0, c == 0, c >= 128);
    }
}

fn eor(nes: &mut Nes, a: u8)
    ensures
        final(nes)@ == spec_read_op(Mnemonic::Eor, old(nes)@, a),
{
    let ghost p0 = nes.p;
    nes.reset_flags(0b10000010);
    let c = nes.acc ^ a;
    if c == 0 {
        nes.set_flags(0b10);
    }
    if is_negative(c) {
        nes.set_flags(0b10000000);
    }
    nes.acc = c;
    proof {
        lemma_nz_steps(p0, c == 0, c >= 128);
    }
}

fn logical_or(nes: &mut Nes, a: u8)
    ensures
        final(nes)@ == spec_read_op(Mnemonic::Ora, old(nes)@, a),
{
    let c = nes.acc | a;
    let ghost p0 = nes.p;
    nes.reset_flags(0b10000010);
    if c == 0 {
        nes.set_flags(0b10);
    }
    if is_negative(c) {
        nes.set_flags(0b10000000);
    }
    nes.acc = c;
    proof {
        lemma_nz_steps(p0, c == 0, c >= 128);
    }
}

fn bit_test(nes: &mut Nes, a: u8)
    ensures
        final(nes)@ == spec_bit(old(nes)@, a),
{
    let ghost p0 = nes.p;
    nes.reset_flags(0b11000010);
    nes.set_flags(a & 0b11000000);
    let ghost p2 = nes.p;
    let acc = nes.acc;
    if a & nes.acc == 0 {
        nes.set_flags(0b10);
    }
    let ghost p3 = nes.p;
    proof {
        let zz = a & acc == 0;
        assert(p3 == with_flag(with_flag(with_flag(p0, 0x80u8, a & 0x80 != 0), 0x40u8, a & 0x40 != 0), 2u8, zz)) by (bit_vector)
            requires
                p2 == (p0 & !0b11000010u8) | (a & 0b11000000u8),
                p3 == if zz { p2 | 2u8 } else { p2 },
        ;
    }
}

// ---------------------------------------------------------------- arithmetic

fn subtract_with_carry(nes: &mut Nes, a: u8)
    ensures
        final(nes)@ == spec_sbc(old(nes)@, a),
{
    let carry = get_bit(nes.p, 0);
    let acc = nes.acc;
    let c = acc.wrapping_sub(a).wrapping_sub(1 - carry);
    let ghost p0 = nes.p;
    nes.reset_flags(0b11000000);
    nes.set_flags(0b1);
    let ghost p2 = nes.p;
    if c == 0 {
        nes.set_flags(0b10);
    }
    let ghost p3 = nes.p;
    if is_negative(c) {
        nes.set_flags(0b10000000);
    }
    let ghost p4 = nes.p;
    if is_negative(a) && !is_negative(nes.acc) && is_negative(c) {
        nes.set_flags(0b1000000);
    }
    let ghost p5 = nes.p;
    if !is_negative(a) && is_negative(nes.acc) && !is_negative(c) {
        nes.set_flags(0b1000000);
    }
    let ghost p6 = nes.p;
    let acc1 = nes.acc as u16;
    let a1 = a as u16;
    let c1 = acc1.wrapping_sub(a1).wrapping_sub(1 - carry as u16);
    if c1 > 255 {
        nes.reset_flags(0b1);
    }
    let ghost p7 = nes.p;
    nes.acc = c;
    proof {
        lemma_flag_bits(p0);
        let d = acc as int - a as int - (1 - carry_in(p0));
        let cc = d >= 0;
        assert(c1 > 255 <==> !cc);
        let zz = c == 0;
        let nn = c >= 128;
        let v1 = a >= 128 && acc < 128 && c >= 128;
        let v2 = a < 128 && acc >= 128 && c < 128;
        let z0 = flag(p0, FLAG_Z);
        assert(p7 == with_flag(with_flag(with_flag(with_flag(p0, 1u8, cc), 2u8, z0 || zz), 0x40u8, v1 || v2), 0x80u8, nn)) by (bit_vector)
            requires
                p2 == (p0 & !0b11000000u8) | 1u8,
                p3 == if zz { p2 | 2u8 } else { p2 },
                p4 == if nn { p3 | 0x80u8 } else { p3 },
                p5 == if v1 { p4 | 0x40u8 } else { p4 },
                p6 == if v2 { p5 | 0x40u8 } else { p5 },
                p7 == if !cc { p6 & !1u8 } else { p6 },
                z0 == (p0 & 2u8 != 0),
        ;
    }
}

fn compare(nes: &mut Nes, a: u8, b: u8)
    ensures
        final(nes)@ == (NesModel { p: spec_compare(old(nes).p, a, b), ..old(nes)@ }),
{
    let ghost p0 = nes.p;
    nes.reset_flags(0b10000011);
    let c = a.wrapping_sub(b);
    let ghost p1 = nes.p;
    if a >= b {
        nes.set_flags(1);
    }
    let ghost p2 = nes.p;
    if c == 0 {
        nes.set_flags(0b10);
    }
    let ghost p3 = nes.p;
    if is_negative(c) {
        nes.set_flags(0b10000000);
    }
    let ghost p4 = nes.p;
    proof {
        let cc = a >= b;
        let zz = c == 0;
        let nn = c >= 128;
        assert(p4 == with_flag(with_flag(with_flag(p0, 2u8, zz), 0x80u8, nn), 1u8, cc)) by (bit_vector)
            requires
                p1 == p0 & !0b10000011u8,
                p2 == if cc { p1 | 1u8 } else { p1 },
                p3 == if zz { p2 | 2u8 } else { p2 },
                p4 == if nn { p3 | 0x80u8 } else { p3 },
        ;
    }
}

fn compare_acc(nes: &mut Nes, a: u8)
    ensures
        final(nes)@ == spec_read_op(Mnemonic::Cmp, old(nes)@, a),
{
    compare(nes, nes.acc, a);
}

fn compare_x(nes: &mut Nes, a: u8)
    ensures
        final(nes)@ == spec_read_op(Mnemonic::Cpx, old(nes)@, a),
{
    compare(nes, nes.x, a);
}

fn compare_y(nes: &mut Nes, a: u8)
    ensures
        final(nes)@ == spec_read_op(Mnemonic::Cpy, old(nes)@, a),
{
    compare(nes, nes.y, a);
}

// ---------------------------------------------------------------- loads, stores, transfers

fn load_acc(nes: &mut Nes, a: u8)
    ensures
        final(nes)@ == spec_read_op(Mnemonic::Lda, old(nes)@, a),
{
    nes.acc = a;
    let ghost p0 = nes.p;
    nes.reset_flags(0b10000010);
    if a == 0 {
        nes.set_flags(0b10);
    }
    if is_negative(a) {
        nes.set_flags(0b10000000);
    }
    proof {
        lemma_nz_steps(p0, a == 0, a >= 128);
    }
}

fn load_x(nes: &mut Nes, a: u8)
    ensures
        final(nes)@ == spec_read_op(Mnemonic::Ldx, old(nes)@, a),
{
    nes.x = a;
    let ghost p0 = nes.p;
    nes.reset_flags(0b10000010);
    if a == 0 {
        nes.set_flags(0b10);
    }
    if is_negative(a) {
        nes.set_flags(0b10000000);
    }
    proof {
        lemma_nz_steps(p0, a == 0, a >= 128);
    }
}

fn load_y(nes: &mut Nes, a: u8)
    ensures
        final(nes)@ == spec_read_op(Mnemonic::Ldy, old(nes)@, a),
{
    nes.y = a;
    let ghost p0 = nes.p;
    nes.reset_flags(0b10000010);
    if a == 0 {
        nes.set_flags(0b10);
    }
    if is_negative(a) {
        nes.set_flags(0b10000000);
    }
    proof {
        lemma_nz_steps(p0, a == 0, a >= 128);
    }
}

fn store_acc(nes: &mut Nes, address: u16)
    requires
        old(nes)@.wf(),
        spec_write(old(nes)@, address, old(nes).acc) is Some,
    ensures
        Some(final(nes)@) == spec_write(old(nes)@, address, old(nes).acc),
        final(nes)@.wf(),
{
    nes.write_memory(address, nes.acc);
}

fn store_x(nes: &mut Nes, address: u16)
    requires
        old(nes)@.wf(),
        spec_write(old(nes)@, address, old(nes).x) is Some,
    ensures
        Some(final(nes)@) == spec_write(old(nes)@, address, old(nes).x),
        final(nes)@.wf(),
{
    nes.write_memory(address, nes.x);
}

fn store_y(nes: &mut Nes, address: u16)
    requires
        old(nes)@.wf(),
        spec_write(old(nes)@, address, old(nes).y) is Some,
    ensures
        Some(final(nes)@) == spec_write(old(nes)@, address, old(nes).y),
        final(nes)@.wf(),
{
    nes.write_memory(address, nes.y);
}

fn transfer_flags(nes: &mut Nes, a: u8)
    ensures
        final(nes)@ == (NesModel { p: spec_nz(old(nes).p, a), ..old(nes)@ }),
{
    let ghost p0 = nes.p;
    nes.reset_flags(0b10000010);
    if a == 0 {
        nes.set_flags(0b10);
    }
    if is_negative(a) {
        nes.set_flags(0b10000000);
    }
    proof {
        lemma_nz_steps(p0, a == 0, a >= 128);
    }
}

// ---------------------------------------------------------------- shifts and rotations

fn arithmatic_shift_left(nes: &mut Nes, a: u8) -> (r: u8)
    ensures
        (r, final(nes).p) == spec_modify(Mnemonic::Asl, old(nes).p, a),
        final(nes)@ == (NesModel { p: final(nes).p, ..old(nes)@ }),
{
    let c = a << 1;
    let ghost p0 = nes.p;
    nes.reset_flags(0b10000011);
    let ghost p1 = nes.p;
    let old_bit_7 = get_bit(a, 7);
    let new_bit_7 = get_bit(c, 7);
    if c == 0 {
        nes.set_flags(0b10);
    }
    let ghost p2 = nes.p;
    proof {
        lemma_flag_bits(p0);
    }
    if new_bit_7 == 1 {
        nes.set_flags(1 << 7);
    }
    let ghost p3 = nes.p;
    nes.set_flags(old_bit_7);
    let ghost p4 = nes.p;
    proof {
        let zz = c == 0;
        let nn = c >= 128;
        let cc = a >= 128;
        assert(c == ((a as int * 2) % 256) as u8 && p4 == with_flag(with_flag(with_flag(p0, 2u8, zz), 0x80u8, nn), 1u8, cc)) by (bit_vector)
            requires
                c == a << 1u8,
                p1 == p0 & !0b10000011u8,
                p2 == if zz { p1 | 2u8 } else { p1 },
                p3 == if new_bit_7 == 1 { p2 | 0x80u8 } else { p2 },
                p4 == p3 | old_bit_7,
                new_bit_7 == (c >> 7u8) & 1,
                old_bit_7 == (a >> 7u8) & 1,
                zz == (c == 0),
                nn == (c >= 128),
                cc == (a >= 128),
        ;
    }
    c
}

fn logical_shift_right(nes: &mut Nes, a: u8) -> (r: u8)
    ensures
        (r, final(nes).p) == spec_modify(Mnemonic::Lsr, old(nes).p, a),
        final(nes)@ == (NesModel { p: final(nes).p, ..old(nes)@ }),
{
    let ghost p0 = nes.p;
    nes.reset_flags(0b10000011);
    let ghost p1 = nes.p;
    let old_bit = a & 1;
    let c = a >> 1;
    nes.set_flags(old_bit);
    let ghost p2 = nes.p;
    if c == 0 {
        nes.set_flags(0b10);
    }
    let ghost p3 = nes.p;
    if is_negative(c) {
        nes.set_flags(0b10000000);
    }
    let ghost p4 = nes.p;
    proof {
        let zz = c == 0;
        let nn = c >= 128;
        let cc = a % 2 == 1;
        assert(c == a / 2 && p4 == with_flag(with_flag(with_flag(p0, 2u8, zz), 0x80u8, nn), 1u8, cc)) by (bit_vector)
            requires
                c == a >> 1u8,
                p1 == p0 & !0b10000011u8,
                p2 == p1 | old_bit,
                old_bit == a & 1,
                cc == (a % 2 == 1),
                p3 == if zz { p2 | 2u8 } else { p2 },
                p4 == if nn { p3 | 0x80u8 } else { p3 },
        ;
    }
    c
}

fn rotate_left(nes: &mut Nes, a: u8) -> (r: u8)
    ensures
        (r, final(nes).p) == spec_modify(Mnemonic::Rol, old(nes).p, a),
        final(nes)@ == (NesModel { p: final(nes).p, ..old(nes)@ }),
{
    let ghost p0 = nes.p;
    let old_carry = get_bit(nes.p, 0);
    let new_carry = get_bit(a, 7);
    nes.reset_flags(0b10000011);
    let ghost p1 = nes.p;
    let mut c = a << 1;
    c = c | (old_carry);
    nes.set_flags(new_carry);
    let ghost p2 = nes.p;
    if is_negative(c) {
        nes.set_flags(0b10000000);
    }
    let ghost p3 = nes.p;
    if c == 0 {
        nes.set_flags(0b10);
    }
    let ghost p4 = nes.p;
    proof {
        lemma_flag_bits(p0);
        assert(old_carry as int == carry_in(p0));
        let zz = c == 0;
        let nn = c >= 128;
        let cc = a >= 128;
        assert(c == ((a as int * 2 + old_carry as int) % 256) as u8 && p4 == with_flag(with_flag(with_flag(p0, 2u8, zz), 0x80u8, nn), 1u8, cc)) by (bit_vector)
            requires
                c == (a << 1u8) | old_carry,
                old_carry <= 1,
                p1 == p0 & !0b10000011u8,
                p2 == p1 | new_carry,
                new_carry == (a >> 7u8) & 1,
                cc == (a >= 128),
                p3 == if nn { p2 | 0x80u8 } else { p2 },
                p4 == if zz { p3 | 2u8 } else { p3 },
        ;
    }
    c
}

fn rotate_right(nes: &mut Nes, a: u8) -> (r: u8)
    ensures
        (r, final(nes).p) == spec_modify(Mnemonic::Ror, old(nes).p, a),
        final(nes)@ == (NesModel { p: final(nes).p, ..old(nes)@ }),
{
    let ghost p0 = nes.p;
    let old_carry = get_bit(nes.p, 0);
    let new_carry = get_bit(a, 0);
    nes.reset_flags(0b10000011);
    let ghost p1 = nes.p;
    let mut c = a >> 1;
    c = c | (old_carry << 7);
    nes.set_flags(new_carry);
    let ghost p2 = nes.p;
    if is_negative(c) {
        nes.set_flags(0b10000000);
    }
    let ghost p3 = nes.p;
    if c == 0 {
        nes.set_flags(0b10);
    }
    let ghost p4 = nes.p;
    proof {
        lemma_flag_bits(p0);
        assert(old_carry as int == carry_in(p0));
        let zz = c == 0;
        let nn = c >= 128;
        let cc = a % 2 == 1;
        assert(c == (a / 2 + old_carry as int * 128) as u8 && p4 == with_flag(with_flag(with_flag(p0, 2u8, zz), 0x80u8, nn), 1u8, cc)) by (bit_vector)
            requires
                c == (a >> 1u8) | (old_carry << 7u8),
                old_carry <= 1,
                p1 == p0 & !0b10000011u8,
                p2 == p1 | new_carry,
                new_carry == (a >> 0u8) & 1,
                cc == (a % 2 == 1),
                p3 == if nn { p2 | 0x80u8 } else { p2 },
                p4 == if zz { p3 | 2u8 } else { p3 },
        ;
    }
    c
}

// ---------------------------------------------------------------- memory increments

fn decrement_mem(nes: &mut Nes, address: u16)
    requires
        old(nes)@.wf(),
        spec_modify_at(Mnemonic::Dec, old(nes)@, address) is Some,
    ensures
        Some(final(nes)@) == spec_modify_at(Mnemonic::Dec, old(nes)@, address),
        final(nes)@.wf(),
{
    let c = nes.read_memory(address as u16).wrapping_sub(1);
    let ghost p0 = nes.p;
    nes.reset_flags(0b10000010);
    let ghost p1 = nes.p;
    if is_negative(c) {
        nes.set_flags(0b10000000);
    }
    let ghost p2 = nes.p;
    if c == 0 {
        nes.set_flags(0b10);
    }
    let ghost p3 = nes.p;
    proof {
        let zz = c == 0;
        let nn = c >= 128;
        assert(p3 == with_flag(with_flag(p0, 2u8, zz), 0x80u8, nn)) by (bit_vector)
            requires
                p1 == p0 & !0b10000010u8,
                p2 == if nn { p1 | 0x80u8 } else { p1 },
                p3 == if zz { p2 | 2u8 } else { p2 },
        ;
    }
    nes.write_memory(address as u16, c);
}

fn increment_mem(nes: &mut Nes, address: u16)
    requires
        old(nes)@.wf(),
        spec_modify_at(Mnemonic::Inc, old(nes)@, address) is Some,
    ensures
        Some(final(nes)@) == spec_modify_at(Mnemonic::Inc, old(nes)@, address),
        final(nes)@.wf(),
{
    let ghost p0 = nes.p;
    nes.reset_flags(0b10000010);
    proof {
        lemma_read_ignores_p(old(nes)@, address, nes.p);
        lemma_read_keeps_wf(old(nes)@, address);
    }
    let c = nes.read_memory(address as u16).wrapping_add(1);
    let ghost p1 = nes.p;
    if c == 0 {
        nes.set_flags(0b10);
    }
    if is_negative(c) {
        nes.set_flags(0b10000000);
    }
    proof {
        lemma_nz_steps(p0, c == 0, c >= 128);
    }
    nes.write_memory(address as u16, c);
}

// ---------------------------------------------------------------- branches

fn branch(nes: &mut Nes, jump: u16) -> (r: u8)
    ensures
        final(nes)@ == (NesModel { pc: add16(old(nes).pc, jump as int), ..old(nes)@ }),
        r == if spec_page_crossed(old(nes).pc, (jump % 256) as u8) { 5u8 } else { 3u8 },
{
    let a = nes.pc;
    nes.pc = nes.pc.wrapping_add(jump);
    assert(jump as u8 == (jump % 256) as u8) by (bit_vector);
    if page_crossed(a, jump as u8) {
        return 5;
    }
    3
}

// ---------------------------------------------------------------- the opcodes

/// The flag tests made through `get_bit`.
proof fn lemma_flag_bits(p: u8)
    ensures
        ((p >> 0u8) & 1 == 1) == flag(p, FLAG_C),
        ((p >> 0u8) & 1 == 0) == !flag(p, FLAG_C),
        ((p >> 1u8) & 1 == 1) == flag(p, FLAG_Z),
        ((p >> 1u8) & 1 == 0) == !flag(p, FLAG_Z),
        ((p >> 6u8) & 1 == 1) == flag(p, FLAG_V),
        ((p >> 6u8) & 1 == 0) == !flag(p, FLAG_V),
        ((p >> 7u8) & 1 == 1) == flag(p, FLAG_N),
        ((p >> 7u8) & 1 == 0) == !flag(p, FLAG_N),
        ((p >> 7u8) & 1 == 1) == (p >= 128),
        1u8 << 7u8 == 0x80u8,
{
    assert({
        &&& ((p >> 0u8) & 1 == 1) == (p & 1u8 != 0)
        &&& ((p >> 0u8) & 1 == 0) == !(p & 1u8 != 0)
        &&& ((p >> 1u8) & 1 == 1) == (p & 2u8 != 0)
        &&& ((p >> 1u8) & 1 == 0) == !(p & 2u8 != 0)
        &&& ((p >> 6u8) & 1 == 1) == (p & 0x40u8 != 0)
        &&& ((p >> 6u8) & 1 == 0) == !(p & 0x40u8 != 0)
        &&& ((p >> 7u8) & 1 == 1) == (p & 0x80u8 != 0)
        &&& ((p >> 7u8) & 1 == 0) == !(p & 0x80u8 != 0)
        &&& ((p >> 7u8) & 1 == 1) == (p >= 128)
        &&& 1u8 << 7u8 == 0x80u8
    }) by (bit_vector);
}

/// ADC, immediate.
#[allow(non_snake_case)]
fn op69(nes: &mut Nes) -> (r: u8)
    requires
        old(nes)@.wf(),
        spec_exec(old(nes)@, 0x69) is Some,
    ensures
        Some((final(nes)@, r)) == spec_exec(old(nes)@, 0x69),
        final(nes)@.wf(),
{
    proof {
        assert(decode(0x69) == Some(Instr { mnemonic: Mnemonic::Adc, mode: Mode::Immediate, cycles: 2, page_penalty: false }));
        reveal(spec_execute_read);
    }
    let immediate = immediate(nes);
    add_with_carry(nes, immediate);
    2
}

/// ADC, zero page.
#[allow(non_snake_case)]
fn op65(nes: &mut Nes) -> (r: u8)
    requires
        old(nes)@.wf(),
        spec_exec(old(nes)@, 0x65) is Some,
    ensures
        Some((final(nes)@, r)) == spec_exec(old(nes)@, 0x65),
        final(nes)@.wf(),
{
    proof {
        assert(decode(0x65) == Some(Instr { mnemonic: Mnemonic::Adc, mode: Mode::ZeroPage, cycles: 3, page_penalty: false }));
        reveal(spec_execute_read);
    }
    let address = zero_page(nes);
    let mem_value = nes.read_memory(address as u16);
    add_with_carry(nes,mem_value);
    3
}

/// ADC, zero page,X.
#[allow(non_snake_case)]
fn op75(nes: &mut Nes) -> (r: u8)
    requires
        old(nes)@.wf(),
        spec_exec(old(nes)@, 0x75) is Some,
    ensures
        Some((final(nes)@, r)) == spec_exec(old(nes)@, 0x75),
        final(nes)@.wf(),
{
    proof {
        assert(decode(0x75) == Some(Instr { mnemonic: Mnemonic::Adc, mode: Mode::ZeroPageX, cycles: 4, page_penalty: false }));
        reveal(spec_execute_read);
    }
    let address = zero_page_x(nes);
    let mem_value = nes.read_memory(address as u16);
    add_with_carry(nes,mem_value);
    4
}

/// ADC, absolute.
#[allow(non_snake_case)]
fn op6D(nes: &mut Nes) -> (r: u8)
    requires
        old(nes)@.wf(),
        spec_exec(old(nes)@, 0x6D) is Some,
    ensures
        Some((final(nes)@, r)) == spec_exec(old(nes)@, 0x6D),
        final(nes)@.wf(),
{
    proof {
        assert(decode(0x6D) == Some(Instr { mnemonic: Mnemonic::Adc, mode: Mode::Absolute, cycles: 4, page_penalty: false }));
        reveal(spec_execute_read);
    }
    let address = absolute(nes);
    let mem_value = nes.read_memory(address as u16);
    add_with_carry(nes,mem_value);
    4
}

/// ADC, absolute,X.
#[allow(non_snake_case)]
fn op7D(nes: &mut Nes) -> (r: u8)
    requires
        old(nes)@.wf(),
        spec_exec(old(nes)@, 0x7D) is Some,
    ensures
        Some((final(nes)@, r)) == spec_exec(old(nes)@, 0x7D),
        final(nes)@.wf(),
{
    proof {
        assert(decode(0x7D) == Some(Instr { mnemonic: Mnemonic::Adc, mode: Mode::AbsoluteX, cycles: 4, page_penalty: true }));
        reveal(spec_execute_read);
    }
    let address = absolute_x(nes);
    let b = nes.read_memory(address as u16);
    add_with_carry(nes, b);
    4 + nes.page_cross
}

/// ADC, absolute,Y.
#[allow(non_snake_case)]
fn op79(nes: &mut Nes) -> (r: u8)
    requires
        old(nes)@.wf(),
        spec_exec(old(nes)@, 0x79) is Some,
    ensures
        Some((final(nes)@, r)) == spec_exec(old(nes)@, 0x79),
        final(nes)@.wf(),
{
    proof {
        assert(decode(0x79) == Some(Instr { mnemonic: Mnemonic::Adc, mode: Mode::AbsoluteY, cycles: 4, page_penalty: true }));
        reveal(spec_execute_read);
    }
    let address = absolute_y(nes);
    let b = nes.read_memory(address as u16);
    add_with_carry(nes, b);
    4 + nes.page_cross
}

/// ADC, (indirect,X).
#[allow(non_snake_case)]
fn op61(nes: &mut Nes) -> (r: u8)
    requires
        old(nes)@.wf(),
        spec_exec(old(nes)@, 0x61) is Some,
    ensures
        Some((final(nes)@, r)) == spec_exec(old(nes)@, 0x61),
        final(nes)@.wf(),
{
    proof {
        assert(decode(0x61) == Some(Instr { mnemonic: Mnemonic::Adc, mode: Mode::IndirectX, cycles: 6, page_penalty: false }));
        reveal(spec_execute_read);
    }
    let address = indexed_indirect_x(nes);
    let a = nes.read_memory(address as u16);
    add_with_carry(nes, a);
    6
}

/// ADC, (indirect),Y.
#[allow(non_snake_case)]
fn op71(nes: &mut Nes) -> (r: u8)
    requires
        old(nes)@.wf(),
        spec_exec(old(nes)@, 0x71) is Some,
    ensures
        Some((final(nes)@, r)) == spec_exec(old(nes)@, 0x71),
        final(nes)@.wf(),
{
    proof {
        assert(decode(0x71) == Some(Instr { mnemonic: Mnemonic::Adc, mode: Mode::IndirectY, cycles: 5, page_penalty: true }));
        reveal(spec_execute_read);
    }
    let address = indirect_indexed_y(nes);
    let a = nes.read_memory(address as u16);
    add_with_carry(nes, a);
    5+ nes.page_cross
}

/// AND, immediate.
#[allow(non_snake_case)]
fn op29(nes: &mut Nes) -> (r: u8)
    requires
        old(nes)@.wf(),
        spec_exec(old(nes)@, 0x29) is Some,
    ensures
        Some((final(nes)@, r)) == spec_exec(old(nes)@, 0x29),
        final(nes)@.wf(),
{
    proof {
        assert(decode(0x29) == Some(Instr { mnemonic: Mnemonic::And, mode: Mode::Immediate, cycles: 2, page_penalty: false }));
        reveal(spec_execute_read);
    }
    let immediate = immediate(nes);
    logical_and(nes, immediate);
    2
}

/// AND, zero page.
#[allow(non_snake_case)]
fn op25(nes: &mut Nes) -> (r: u8)
    requires
        old(nes)@.wf(),
        spec_exec(old(nes)@, 0x25) is Some,
    ensures
        Some((final(nes)@, r)) == spec_exec(old(nes)@, 0x25),
        final(nes)@.wf(),
{
    proof {
        assert(decode(0x25) == Some(Instr { mnemonic: Mnemonic::And, mode: Mode::ZeroPage, cycles: 3, page_penalty: false }));
        reveal(spec_execute_read);
    }
    let address = zero_page(nes);
    let a = nes.read_memory(address as u16);
    logical_and(nes, a);
    3
}

/// AND, zero page,X.
#[allow(non_snake_case)]
fn op35(nes: &mut Nes) -> (r: u8)
    requires
        old(nes)@.wf(),
        spec_exec(old(nes)@, 0x35) is Some,
    ensures
        Some((final(nes)@, r)) == spec_exec(old(nes)@, 0x35),
        final(nes)@.wf(),
{
    proof {
        assert(decode(0x35) == Some(Instr { mnemonic: Mnemonic::And, mode: Mode::ZeroPageX, cycles: 4, page_penalty: false }));
        reveal(spec_execute_read);
    }
    let address = zero_page_x(nes);
    let a = nes.read_memory(address as u16);
    logical_and(nes, a);
    4
}

/// AND, absolute.
#[allow(non_snake_case)]
fn op2D(nes: &mut Nes) -> (r: u8)
    requires
        old(nes)@.wf(),
        spec_exec(old(nes)@, 0x2D) is Some,
    ensures
        Some((final(nes)@, r)) == spec_exec(old(nes)@, 0x2D),
        final(nes)@.wf(),
{
    proof {
        assert(decode(0x2D) == Some(Instr { mnemonic: Mnemonic::And, mode: Mode::Absolute, cycles: 4, page_penalty: false }));
        reveal(spec_execute_read);
    }
    let address = absolute(nes);
    let a = nes.read_memory(address as u16);
    logical_and(nes, a);
    4
}

/// AND, absolute,X.
#[allow(non_snake_case)]
fn op3D(nes: &mut Nes) -> (r: u8)
    requires
        old(nes)@.wf(),
        spec_exec(old(nes)@, 0x3D) is Some,
    ensures
        Some((final(nes)@, r)) == spec_exec(old(nes)@, 0x3D),
        final(nes)@.wf(),
{
    proof {
        assert(decode(0x3D) == Some(Instr { mnemonic: Mnemonic::And, mode: Mode::AbsoluteX, cycles: 4, page_penalty: true }));
        reveal(spec_execute_read);
    }
    let address = absolute_x(nes);
    let a = nes.read_memory(address as u16);
    logical_and(nes, a);
    4 + nes.page_cross
}

/// AND, absolute,Y.
#[allow(non_snake_case)]
fn op39(nes: &mut Nes) -> (r: u8)
    requires
        old(nes)@.wf(),
        spec_exec(old(nes)@, 0x39) is Some,
    ensures
        Some((final(nes)@, r)) == spec_exec(old(nes)@, 0x39),
        final(nes)@.wf(),
{
    proof {
        assert(decode(0x39) == Some(Instr { mnemonic: Mnemonic::And, mode: Mode::AbsoluteY, cycles: 4, page_penalty: true }));
        reveal(spec_execute_read);
    }
    let address = absolute_y(nes);
    let a = nes.read_memory(address as u16);
    logical_and(nes, a);
    4 + nes.page_cross
}

/// AND, (indirect,X).
#[allow(non_snake_case)]
fn op21(nes: &mut Nes) -> (r: u8)
    requires
        old(nes)@.wf(),
        spec_exec(old(nes)@, 0x21) is Some,
    ensures
        Some((final(nes)@, r)) == spec_exec(old(nes)@, 0x21),
        final(nes)@.wf(),
{
    proof {
        assert(decode(0x21) == Some(Instr { mnemonic: Mnemonic::And, mode: Mode::IndirectX, cycles: 6, page_penalty: false }));
        reveal(spec_execute_read);
    }
    let address = indexed_indirect_x(nes);
    let a = nes.read_memory(address as u16);
    logical_and(nes, a);
    6
}

/// AND, (indirect),Y.
#[allow(non_snake_case)]
fn op31(nes: &mut Nes) -> (r: u8)
    requires
        old(nes)@.wf(),
        spec_exec(old(nes)@, 0x31) is Some,
    ensures
        Some((final(nes)@, r)) == spec_exec(old(nes)@, 0x31),
        final(nes)@.wf(),
{
    proof {
        assert(decode(0x31) == Some(Instr { mnemonic: Mnemonic::And, mode: Mode::IndirectY, cycles: 5, page_penalty: true }));
        reveal(spec_execute_read);
    }
    let address = indirect_indexed_y(nes);
    let a = nes.read_memory(address as u16);
    logical_and(nes, a);
    5 + nes.page_cross
}

/// ASL, accumulator.
#[allow(non_snake_case)]
fn op0A(nes: &mut Nes) -> (r: u8)
    requires
        old(nes)@.wf(),
        spec_exec(old(nes)@, 0x0A) is Some,
    ensures
        Some((final(nes)@, r)) == spec_exec(old(nes)@, 0x0A),
        final(nes)@.wf(),
{
    proof {
        assert(decode(0x0A) == Some(Instr { mnemonic: Mnemonic::Asl, mode: Mode::Accumulator, cycles: 2, page_penalty: false }));
        reveal(spec_execute_modify);
    }
    nes.acc = arithmatic_shift_left(nes, nes.acc);
    2
}

/// ASL, zero page.
#[allow(non_snake_case)]
fn op06(nes: &mut Nes) -> (r: u8)
    requires
        old(nes)@.wf(),
        spec_exec(old(nes)@, 0x06) is Some,
    ensures
        Some((final(nes)@, r)) == spec_exec(old(nes)@, 0x06),
        final(nes)@.wf(),
{
    proof {
        assert(decode(0x06) == Some(Instr { mnemonic: Mnemonic::Asl, mode: Mode::ZeroPage, cycles: 5, page_penalty: false }));
        reveal(spec_execute_modify);
    }
    let address = zero_page(nes);
    let mem_value = nes.read_memory(address as u16);
    let value = arithmatic_shift_left(nes, mem_value);
    nes.write_memory(address as u16 ,value);
    5
}

/// ASL, zero page,X.
#[allow(non_snake_case)]
fn op16(nes: &mut Nes) -> (r: u8)
    requires
        old(nes)@.wf(),
        spec_exec(old(nes)@, 0x16) is Some,
    ensures
        Some((final(nes)@, r)) == spec_exec(old(nes)@, 0x16),
        final(nes)@.wf(),
{
    proof {
        assert(decode(0x16) == Some(Instr { mnemonic: Mnemonic::Asl, mode: Mode::ZeroPageX, cycles: 6, page_penalty: false }));
        reveal(spec_execute_modify);
    }
    let address = zero_page_x(nes);
    let mem_value = nes.read_memory(address as u16);
    let value = arithmatic_shift_left(nes, mem_value);
    nes.write_memory(address as u16 ,value);
    6
}

/// ASL, absolute.
#[allow(non_snake_case)]
fn op0E(nes: &mut Nes) -> (r: u8)
    requires
        old(nes)@.wf(),
        spec_exec(old(nes)@, 0x0E) is Some,
    ensures
        Some((final(nes)@, r)) == spec_exec(old(nes)@, 0x0E),
        final(nes)@.wf(),
{
    proof {
        assert(decode(0x0E) == Some(Instr { mnemonic: Mnemonic::Asl, mode: Mode::Absolute, cycles: 6, page_penalty: false }));
        reveal(spec_execute_modify);
    }
    let address = absolute(nes);
    let mem_value = nes.read_memory(address as u16);
    let value = arithmatic_shift_left(nes, mem_value);
    nes.write_memory(address as u16 ,value);
    6
}

/// ASL, absolute,X.
#[allow(non_snake_case)]
fn op1E(nes: &mut Nes) -> (r: u8)
    requires
        old(nes)@.wf(),
        spec_exec(old(nes)@, 0x1E) is Some,
    ensures
        Some((final(nes)@, r)) == spec_exec(old(nes)@, 0x1E),
        final(nes)@.wf(),
{
    proof {
        assert(decode(0x1E) == Some(Instr { mnemonic: Mnemonic::Asl, mode: Mode::AbsoluteX, cycles: 7, page_penalty: false }));
        reveal(spec_execute_modify);
    }
    let address = absolute_x(nes);
    let mem_value = nes.read_memory(address as u16);
    let value = arithmatic_shift_left(nes, mem_value);
    nes.write_memory(address as u16 ,value);
    7
}

/// BCC, relative.
#[allow(non_snake_case)]
fn op90(nes: &mut Nes) -> (r: u8)
    requires
        old(nes)@.wf(),
        spec_exec(old(nes)@, 0x90) is Some,
    ensures
        Some((final(nes)@, r)) == spec_exec(old(nes)@, 0x90),
        final(nes)@.wf(),
{
    proof {
        assert(decode(0x90) == Some(Instr { mnemonic: Mnemonic::Bcc, mode: Mode::Relative, cycles: 2, page_penalty: false }));
    }
    proof {
        lemma_flag_bits(nes.p);
    }
    let jump = relative(nes);
    let carry = get_bit(nes.p, 0);
    if carry == 0 {
        return branch(nes, jump);
    }
    2
}

/// BCS, relative.
#[allow(non_snake_case)]
fn opB0(nes: &mut Nes) -> (r: u8)
    requires
        old(nes)@.wf(),
        spec_exec(old(nes)@, 0xB0) is Some,
    ensures
        Some((final(nes)@, r)) == spec_exec(old(nes)@, 0xB0),
        final(nes)@.wf(),
{
    proof {
        assert(decode(0xB0) == Some(Instr { mnemonic: Mnemonic::Bcs, mode: Mode::Relative, cycles: 2, page_penalty: false }));
    }
    proof {
        lemma_flag_bits(nes.p);
    }
    let carry = get_bit(nes.p, 0);
    let jump = relative(nes);
    if carry == 1{
        return branch(nes, jump);
    }
    2
}

/// BEQ, relative.
#[allow(non_snake_case)]
fn opF0(nes: &mut Nes) -> (r: u8)
    requires
        old(nes)@.wf(),
        spec_exec(old(nes)@, 0xF0) is Some,
    ensures
        Some((final(nes)@, r)) == spec_exec(old(nes)@, 0xF0),
        final(nes)@.wf(),
{
    proof {
        assert(decode(0xF0) == Some(Instr { mnemonic: Mnemonic::Beq, mode: Mode::Relative, cycles: 2, page_penalty: false }));
    }
    proof {
        lemma_flag_bits(nes.p);
    }
    let zero = get_bit(nes.p, 1);
    let jump = relative(nes);
    if zero == 1 {
        return branch(nes, jump);
    }
    2
}

/// BIT, zero page.
#[allow(non_snake_case)]
fn op24(nes: &mut Nes) -> (r: u8)
    requires
        old(nes)@.wf(),
        spec_exec(old(nes)@, 0x24) is Some,
    ensures
        Some((final(nes)@, r)) == spec_exec(old(nes)@, 0x24),
        final(nes)@.wf(),
{
    proof {
        assert(decode(0x24) == Some(Instr { mnemonic: Mnemonic::Bit, mode: Mode::ZeroPage, cycles: 3, page_penalty: false }));
        reveal(spec_execute_read);
    }
    let address = zero_page(nes);
    let a = nes.read_memory(address as u16);
    bit_test(nes, a);
    3
}

/// BIT, absolute.
#[allow(non_snake_case)]
fn op2C(nes: &mut Nes) -> (r: u8)
    requires
        old(nes)@.wf(),
        spec_exec(old(nes)@, 0x2C) is Some,
    ensures
        Some((final(nes)@, r)) == spec_exec(old(nes)@, 0x2C),
        final(nes)@.wf(),
{
    proof {
        assert(decode(0x2C) == Some(Instr { mnemonic: Mnemonic::Bit, mode: Mode::Absolute, cycles: 4, page_penalty: false }));
        reveal(spec_execute_read);
    }
    let address = absolute(nes);
    let a = nes.read_memory(address);
    bit_test(nes, a);
    4
}

/// BMI, relative.
#[allow(non_snake_case)]
fn op30(nes: &mut Nes) -> (r: u8)
    requires
        old(nes)@.wf(),
        spec_exec(old(nes)@, 0x30) is Some,
    ensures
        Some((final(nes)@, r)) == spec_exec(old(nes)@, 0x30),
        final(nes)@.wf(),
{
    proof {
        assert(decode(0x30) == Some(Instr { mnemonic: Mnemonic::Bmi, mode: Mode::Relative, cycles: 2, page_penalty: false }));
    }
    proof {
        lemma_flag_bits(nes.p);
    }
    let negative = get_bit(nes.p, 7);
    let jump = relative(nes);
    if negative == 1 {
        return branch(nes, jump);
    }
    2
}

/// BNE, relative.
#[allow(non_snake_case)]
fn opD0(nes: &mut Nes) -> (r: u8)
    requires
        old(nes)@.wf(),
        spec_exec(old(nes)@, 0xD0) is Some,
    ensures
        Some((final(nes)@, r)) == spec_exec(old(nes)@, 0xD0),
        final(nes)@.wf(),
{
    proof {
        assert(decode(0xD0) == Some(Instr { mnemonic: Mnemonic::Bne, mode: Mode::Relative, cycles: 2, page_penalty: false }));
    }
    proof {
        lemma_flag_bits(nes.p);
    }
    let zero = get_bit(nes.p, 1);
    let jump = relative(nes);
    if zero == 0 {
        return branch(nes, jump);
    }
    2
}

/// BPL, relative.
#[allow(non_snake_case)]
fn op10(nes: &mut Nes) -> (r: u8)
    requires
        old(nes)@.wf(),
        spec_exec(old(nes)@, 0x10) is Some,
    ensures
        Some((final(nes)@, r)) == spec_exec(old(nes)@, 0x10),
        final(nes)@.wf(),
{
    proof {
        assert(decode(0x10) == Some(Instr { mnemonic: Mnemonic::Bpl, mode: Mode::Relative, cycles: 2, page_penalty: false }));
    }
    proof {
        lemma_flag_bits(nes.p);
    }
    let negative = get_bit(nes.p, 7);
    let jump = relative(nes);
    if negative == 0 {
        return branch(nes, jump);
    }
    2
}

/// BRK, implied.
#[allow(non_snake_case)]
#[verifier::spinoff_prover]
fn op00(nes: &mut Nes) -> (r: u8)
    requires
        old(nes)@.wf(),
        spec_exec(old(nes)@, 0x00) is Some,
    ensures
        Some((final(nes)@, r)) == spec_exec(old(nes)@, 0x00),
        final(nes)@.wf(),
{
    proof {
        assert(decode(0x00) == Some(Instr { mnemonic: Mnemonic::Brk, mode: Mode::Implied, cycles: 7, page_penalty: false }));
        reveal(spec_control_op);
    }
    proof {
        reveal(spec_read);
    }
    let bytes = unendian(nes.pc);
    nes.push_to_stack(bytes[1]);
    nes.push_to_stack(bytes[0]);
    nes.push_to_stack(nes.p);
    let byte1 = nes.read_memory(0xFFFE);
    let byte2 = nes.read_memory(0xFFFF);
    nes.pc = endian(byte1, byte2);
    nes.set_flags(0b10000);
    7
}

/// BVC, relative.
#[allow(non_snake_case)]
fn op50(nes: &mut Nes) -> (r: u8)
    requires
        old(nes)@.wf(),
        spec_exec(old(nes)@, 0x50) is Some,
    ensures
        Some((final(nes)@, r)) == spec_exec(old(nes)@, 0x50),
        final(nes)@.wf(),
{
    proof {
        assert(decode(0x50) == Some(Instr { mnemonic: Mnemonic::Bvc, mode: Mode::Relative, cycles: 2, page_penalty: false }));
    }
    proof {
        lemma_flag_bits(nes.p);
    }
    let overflow = get_bit(nes.p, 6);
    let jump = relative(nes);
    if overflow == 0{
        return branch(nes, jump);
    }
    2
}

/// BVS, relative.
#[allow(non_snake_case)]
fn op70(nes: &mut Nes) -> (r: u8)
    requires
        old(nes)@.wf(),
        spec_exec(old(nes)@, 0x70) is Some,
    ensures
        Some((final(nes)@, r)) == spec_exec(old(nes)@, 0x70),
        final(nes)@.wf(),
{
    proof {
        assert(decode(0x70) == Some(Instr { mnemonic: Mnemonic::Bvs, mode: Mode::Relative, cycles: 2, page_penalty: false }));
    }
    proof {
        lemma_flag_bits(nes.p);
    }
    let overflow = get_bit(nes.p, 6);
    let jump = relative(nes);
    if overflow == 1{
        return branch(nes, jump);
    }
    2
}

/// CLC, implied.
#[allow(non_snake_case)]
fn op18(nes: &mut Nes) -> (r: u8)
    requires
        old(nes)@.wf(),
        spec_exec(old(nes)@, 0x18) is Some,
    ensures
        Some((final(nes)@, r)) == spec_exec(old(nes)@, 0x18),
        final(nes)@.wf(),
{
    proof {
        assert(decode(0x18) == Some(Instr { mnemonic: Mnemonic::Clc, mode: Mode::Implied, cycles: 2, page_penalty: false }));
    }
    nes.reset_flags(0b1);
    2
}

/// CLD, implied.
#[allow(non_snake_case)]
fn opD8(nes: &mut Nes) -> (r: u8)
    requires
        old(nes)@.wf(),
        spec_exec(old(nes)@, 0xD8) is Some,
    ensures
        Some((final(nes)@, r)) == spec_exec(old(nes)@, 0xD8),
        final(nes)@.wf(),
{
    proof {
        assert(decode(0xD8) == Some(Instr { mnemonic: Mnemonic::Cld, mode: Mode::Implied, cycles: 2, page_penalty: false }));
    }
    nes.reset_flags(0b1000);
    2
}

/// CLI, implied.
#[allow(non_snake_case)]
fn op58(nes: &mut Nes) -> (r: u8)
    requires
        old(nes)@.wf(),
        spec_exec(old(nes)@, 0x58) is Some,
    ensures
        Some((final(nes)@, r)) == spec_exec(old(nes)@, 0x58),
        final(nes)@.wf(),
{
    proof {
        assert(decode(0x58) == Some(Instr { mnemonic: Mnemonic::Cli, mode: Mode::Implied, cycles: 2, page_penalty: false }));
    }
    nes.reset_flags(0b100);
    2
}

/// CLV, implied.
#[allow(non_snake_case)]
fn opB8(nes: &mut Nes) -> (r: u8)
    requires
        old(nes)@.wf(),
        spec_exec(old(nes)@, 0xB8) is Some,
    ensures
        Some((final(nes)@, r)) == spec_exec(old(nes)@, 0xB8),
        final(nes)@.wf(),
{
    proof {
        assert(decode(0xB8) == Some(Instr { mnemonic: Mnemonic::Clv, mode: Mode::Implied, cycles: 2, page_penalty: false }));
    }
    nes.reset_flags(0b1000000);
    2
}

/// CMP, immediate.
#[allow(non_snake_case)]
fn opC9(nes: &mut Nes) -> (r: u8)
    requires
        old(nes)@.wf(),
        spec_exec(old(nes)@, 0xC9) is Some,
    ensures
        Some((final(nes)@, r)) == spec_exec(old(nes)@, 0xC9),
        final(nes)@.wf(),
{
    proof {
        assert(decode(0xC9) == Some(Instr { mnemonic: Mnemonic::Cmp, mode: Mode::Immediate, cycles: 2, page_penalty: false }));
        reveal(spec_execute_read);
    }
    let immediate = immediate(nes);
    compare_acc(nes, immediate);
    2
}

/// CMP, zero page.
#[allow(non_snake_case)]
fn opC5(nes: &mut Nes) -> (r: u8)
    requires
        old(nes)@.wf(),
        spec_exec(old(nes)@, 0xC5) is Some,
    ensures
        Some((final(nes)@, r)) == spec_exec(old(nes)@, 0xC5),
        final(nes)@.wf(),
{
    proof {
        assert(decode(0xC5) == Some(Instr { mnemonic: Mnemonic::Cmp, mode: Mode::ZeroPage, cycles: 3, page_penalty: false }));
        reveal(spec_execute_read);
    }
    let address = zero_page(nes);
    let a = nes.read_memory(address as u16);
    compare_acc(nes, a);
    3
}

/// CMP, zero page,X.
#[allow(non_snake_case)]
fn opD5(nes: &mut Nes) -> (r: u8)
    requires
        old(nes)@.wf(),
        spec_exec(old(nes)@, 0xD5) is Some,
    ensures
        Some((final(nes)@, r)) == spec_exec(old(nes)@, 0xD5),
        final(nes)@.wf(),
{
    proof {
        assert(decode(0xD5) == Some(Instr { mnemonic: Mnemonic::Cmp, mode: Mode::ZeroPageX, cycles: 4, page_penalty: false }));
        reveal(spec_execute_read);
    }
    let address = zero_page_x(nes);
    let a = nes.read_memory(address as u16);
    compare_acc(nes, a);
    4
}

/// CMP, absolute.
#[allow(non_snake_case)]
fn opCD(nes: &mut Nes) -> (r: u8)
    requires
        old(nes)@.wf(),
        spec_exec(old(nes)@, 0xCD) is Some,
    ensures
        Some((final(nes)@, r)) == spec_exec(old(nes)@, 0xCD),
        final(nes)@.wf(),
{
    proof {
        assert(decode(0xCD) == Some(Instr { mnemonic: Mnemonic::Cmp, mode: Mode::Absolute, cycles: 4, page_penalty: false }));
        reveal(spec_execute_read);
    }
    let address = absolute(nes);
    let a = nes.read_memory(address);
    compare_acc(nes, a);
    4
}

/// CMP, absolute,X.
#[allow(non_snake_case)]
fn opDD(nes: &mut Nes) -> (r: u8)
    requires
        old(nes)@.wf(),
        spec_exec(old(nes)@, 0xDD) is Some,
    ensures
        Some((final(nes)@, r)) == spec_exec(old(nes)@, 0xDD),
        final(nes)@.wf(),
{
    proof {
        assert(decode(0xDD) == Some(Instr { mnemonic: Mnemonic::Cmp, mode: Mode::AbsoluteX, cycles: 4, page_penalty: true }));
        reveal(spec_execute_read);
    }
    let address = absolute_x(nes);
    let a = nes.read_memory(address);
    compare_acc(nes, a);
    4+nes.page_cross
}

/// CMP, absolute,Y.
#[allow(non_snake_case)]
fn opD9(nes: &mut Nes) -> (r: u8)
    requires
        old(nes)@.wf(),
        spec_exec(old(nes)@, 0xD9) is Some,
    ensures
        Some((final(nes)@, r)) == spec_exec(old(nes)@, 0xD9),
        final(nes)@.wf(),
{
    proof {
        assert(decode(0xD9) == Some(Instr { mnemonic: Mnemonic::Cmp, mode: Mode::AbsoluteY, cycles: 4, page_penalty: true }));
        reveal(spec_execute_read);
    }
    let address = absolute_y(nes);
    let a = nes.read_memory(address);
    compare_acc(nes, a);
    4+nes.page_cross
}

/// CMP, (indirect,X).
#[allow(non_snake_case)]
fn opC1(nes: &mut Nes) -> (r: u8)
    requires
        old(nes)@.wf(),
        spec_exec(old(nes)@, 0xC1) is Some,
    ensures
        Some((final(nes)@, r)) == spec_exec(old(nes)@, 0xC1),
        final(nes)@.wf(),
{
    proof {
        assert(decode(0xC1) == Some(Instr { mnemonic: Mnemonic::Cmp, mode: Mode::IndirectX, cycles: 6, page_penalty: false }));
        reveal(spec_execute_read);
    }
    let address = indexed_indirect_x(nes);
    let a = nes.read_memory(address);
    compare_acc(nes, a);
    6
}

/// CMP, (indirect),Y.
#[allow(non_snake_case)]
fn opD1(nes: &mut Nes) -> (r: u8)
    requires
        old(nes)@.wf(),
        spec_exec(old(nes)@, 0xD1) is Some,
    ensures
        Some((final(nes)@, r)) == spec_exec(old(nes)@, 0xD1),
        final(nes)@.wf(),
{
    proof {
        assert(decode(0xD1) == Some(Instr { mnemonic: Mnemonic::Cmp, mode: Mode::IndirectY, cycles: 5, page_penalty: true }));
        reveal(spec_execute_read);
    }
    let address = indirect_indexed_y(nes);
    let a = nes.read_memory(address);
    compare_acc(nes, a);
    5+nes.page_cross
}

/// CPX, immediate.
#[allow(non_snake_case)]
fn opE0(nes: &mut Nes) -> (r: u8)
    requires
        old(nes)@.wf(),
        spec_exec(old(nes)@, 0xE0) is Some,
    ensures
        Some((final(nes)@, r)) == spec_exec(old(nes)@, 0xE0),
        final(nes)@.wf(),
{
    proof {
        assert(decode(0xE0) == Some(Instr { mnemonic: Mnemonic::Cpx, mode: Mode::Immediate, cycles: 2, page_penalty: false }));
        reveal(spec_execute_read);
    }
    let a = immediate(nes);
    compare_x(nes, a);
    2
}

/// CPX, zero page.
#[allow(non_snake_case)]
fn opE4(nes: &mut Nes) -> (r: u8)
    requires
        old(nes)@.wf(),
        spec_exec(old(nes)@, 0xE4) is Some,
    ensures
        Some((final(nes)@, r)) == spec_exec(old(nes)@, 0xE4),
        final(nes)@.wf(),
{
    proof {
        assert(decode(0xE4) == Some(Instr { mnemonic: Mnemonic::Cpx, mode: Mode::ZeroPage, cycles: 3, page_penalty: false }));
        reveal(spec_execute_read);
    }
    let address = zero_page(nes);
    let a = nes.read_memory(address as u16);
    compare_x(nes, a);
    3
}

/// CPX, absolute.
#[allow(non_snake_case)]
fn opEC(nes: &mut Nes) -> (r: u8)
    requires
        old(nes)@.wf(),
        spec_exec(old(nes)@, 0xEC) is Some,
    ensures
        Some((final(nes)@, r)) == spec_exec(old(nes)@, 0xEC),
        final(nes)@.wf(),
{
    proof {
        assert(decode(0xEC) == Some(Instr { mnemonic: Mnemonic::Cpx, mode: Mode::Absolute, cycles: 4, page_penalty: false }));
        reveal(spec_execute_read);
    }
    let address = absolute(nes);
    let a = nes.read_memory(address);
    compare_x(nes, a);
    4
}

/// CPY, immediate.
#[allow(non_snake_case)]
fn opC0(nes: &mut Nes) -> (r: u8)
    requires
        old(nes)@.wf(),
        spec_exec(old(nes)@, 0xC0) is Some,
    ensures
        Some((final(nes)@, r)) == spec_exec(old(nes)@, 0xC0),
        final(nes)@.wf(),
{
    proof {
        assert(decode(0xC0) == Some(Instr { mnemonic: Mnemonic::Cpy, mode: Mode::Immediate, cycles: 2, page_penalty: false }));
        reveal(spec_execute_read);
    }
    let a = immediate(nes);
    compare_y(nes, a);
    2
}

/// CPY, zero page.
#[allow(non_snake_case)]
fn opC4(nes: &mut Nes) -> (r: u8)
    requires
        old(nes)@.wf(),
        spec_exec(old(nes)@, 0xC4) is Some,
    ensures
        Some((final(nes)@, r)) == spec_exec(old(nes)@, 0xC4),
        final(nes)@.wf(),
{
    proof {
        assert(decode(0xC4) == Some(Instr { mnemonic: Mnemonic::Cpy, mode: Mode::ZeroPage, cycles: 3, page_penalty: false }));
        reveal(spec_execute_read);
    }
    let address = zero_page(nes);
    let a = nes.read_memory(address as u16);
    compare_y(nes, a);
    3
}

/// CPY, absolute.
#[allow(non_snake_case)]
fn opCC(nes: &mut Nes) -> (r: u8)
    requires
        old(nes)@.wf(),
        spec_exec(old(nes)@, 0xCC) is Some,
    ensures
        Some((final(nes)@, r)) == spec_exec(old(nes)@, 0xCC),
        final(nes)@.wf(),
{
    proof {
        assert(decode(0xCC) == Some(Instr { mnemonic: Mnemonic::Cpy, mode: Mode::Absolute, cycles: 4, page_penalty: false }));
        reveal(spec_execute_read);
    }
    let address = absolute(nes);
    let a = nes.read_memory(address);
    compare_y(nes, a);
    4
}

/// DEC, zero page.
#[allow(non_snake_case)]
fn opC6(nes: &mut Nes) -> (r: u8)
    requires
        old(nes)@.wf(),
        spec_exec(old(nes)@, 0xC6) is Some,
    ensures
        Some((final(nes)@, r)) == spec_exec(old(nes)@, 0xC6),
        final(nes)@.wf(),
{
    proof {
        assert(decode(0xC6) == Some(Instr { mnemonic: Mnemonic::Dec, mode: Mode::ZeroPage, cycles: 5, page_penalty: false }));
        reveal(spec_execute_modify);
    }
    let address = zero_page(nes);
    decrement_mem(nes, address as u16);
    5
}

/// DEC, zero page,X.
#[allow(non_snake_case)]
fn opD6(nes: &mut Nes) -> (r: u8)
    requires
        old(nes)@.wf(),
        spec_exec(old(nes)@, 0xD6) is Some,
    ensures
        Some((final(nes)@, r)) == spec_exec(old(nes)@, 0xD6),
        final(nes)@.wf(),
{
    proof {
        assert(decode(0xD6) == Some(Instr { mnemonic: Mnemonic::Dec, mode: Mode::ZeroPageX, cycles: 6, page_penalty: false }));
        reveal(spec_execute_modify);
    }
    let address = zero_page_x(nes);
    decrement_mem(nes, address as u16);
    6
}

/// DEC, absolute.
#[allow(non_snake_case)]
fn opCE(nes: &mut Nes) -> (r: u8)
    requires
        old(nes)@.wf(),
        spec_exec(old(nes)@, 0xCE) is Some,
    ensures
        Some((final(nes)@, r)) == spec_exec(old(nes)@, 0xCE),
        final(nes)@.wf(),
{
    proof {
        assert(decode(0xCE) == Some(Instr { mnemonic: Mnemonic::Dec, mode: Mode::Absolute, cycles: 6, page_penalty: false }));
        reveal(spec_execute_modify);
    }
    let address = absolute(nes);
    decrement_mem(nes, address);
    6
}

/// DEC, absolute,X.
#[allow(non_snake_case)]
fn opDE(nes: &mut Nes) -> (r: u8)
    requires
        old(nes)@.wf(),
        spec_exec(old(nes)@, 0xDE) is Some,
    ensures
        Some((final(nes)@, r)) == spec_exec(old(nes)@, 0xDE),
        final(nes)@.wf(),
{
    proof {
        assert(decode(0xDE) == Some(Instr { mnemonic: Mnemonic::Dec, mode: Mode::AbsoluteX, cycles: 7, page_penalty: false }));
        reveal(spec_execute_modify);
    }
    let address = absolute_x(nes);
    decrement_mem(nes, address);
    7
}

/// DEX, implied.
#[allow(non_snake_case)]
fn opCA(nes: &mut Nes) -> (r: u8)
    requires
        old(nes)@.wf(),
        spec_exec(old(nes)@, 0xCA) is Some,
    ensures
        Some((final(nes)@, r)) == spec_exec(old(nes)@, 0xCA),
        final(nes)@.wf(),
{
    proof {
        assert(decode(0xCA) == Some(Instr { mnemonic: Mnemonic::Dex, mode: Mode::Implied, cycles: 2, page_penalty: false }));
        reveal(spec_register_op);
    }
    let ghost p0 = nes.p;
    nes.reset_flags(0b10000010);
    let c = nes.x.wrapping_sub(1);
    if c == 0 {
        nes.set_flags(0b10);
    }
    if is_negative(c){
        nes.set_flags(0b10000000);
    }
    nes.x = c;
    proof {
        lemma_nz_steps(p0, c == 0, c >= 128);
        assert(c == add8(old(nes).x, -1));
        assert(nes@ == NesModel { x: add8(old(nes).x, -1), p: spec_nz(old(nes).p, add8(old(nes).x, -1)), ..old(nes)@ });
    }
    2
}

/// DEY, implied.
#[allow(non_snake_case)]
fn op88(nes: &mut Nes) -> (r: u8)
    requires
        old(nes)@.wf(),
        spec_exec(old(nes)@, 0x88) is Some,
    ensures
        Some((final(nes)@, r)) == spec_exec(old(nes)@, 0x88),
        final(nes)@.wf(),
{
    proof {
        assert(decode(0x88) == Some(Instr { mnemonic: Mnemonic::Dey, mode: Mode::Implied, cycles: 2, page_penalty: false }));
        reveal(spec_register_op);
    }
    let ghost p0 = nes.p;
    nes.reset_flags(0b10000010);
    let c = nes.y.wrapping_sub(1);
    if c == 0 {
        nes.set_flags(0b10);
    }
    if is_negative(c){
        nes.set_flags(0b10000000);
    }
    nes.y = c;
    proof {
        lemma_nz_steps(p0, c == 0, c >= 128);
        assert(c == add8(old(nes).y, -1));
        assert(nes@ == NesModel { y: add8(old(nes).y, -1), p: spec_nz(old(nes).p, add8(old(nes).y, -1)), ..old(nes)@ });
    }
    2
}

/// EOR, immediate.
#[allow(non_snake_case)]
fn op49(nes: &mut Nes) -> (r: u8)
    requires
        old(nes)@.wf(),
        spec_exec(old(nes)@, 0x49) is Some,
    ensures
        Some((final(nes)@, r)) == spec_exec(old(nes)@, 0x49),
        final(nes)@.wf(),
{
    proof {
        assert(decode(0x49) == Some(Instr { mnemonic: Mnemonic::Eor, mode: Mode::Immediate, cycles: 2, page_penalty: false }));
        reveal(spec_execute_read);
    }
    let a = immediate(nes);
    eor(nes, a);
    2
}

/// EOR, zero page.
#[allow(non_snake_case)]
fn op45(nes: &mut Nes) -> (r: u8)
    requires
        old(nes)@.wf(),
        spec_exec(old(nes)@, 0x45) is Some,
    ensures
        Some((final(nes)@, r)) == spec_exec(old(nes)@, 0x45),
        final(nes)@.wf(),
{
    proof {
        assert(decode(0x45) == Some(Instr { mnemonic: Mnemonic::Eor, mode: Mode::ZeroPage, cycles: 3, page_penalty: false }));
        reveal(spec_execute_read);
    }
    let address = zero_page(nes);
    let a = nes.read_memory(address as u16);
    eor(nes, a);
    3
}

/// EOR, zero page,X.
#[allow(non_snake_case)]
fn op55(nes: &mut Nes) -> (r: u8)
    requires
        old(nes)@.wf(),
        spec_exec(old(nes)@, 0x55) is Some,
    ensures
        Some((final(nes)@, r)) == spec_exec(old(nes)@, 0x55),
        final(nes)@.wf(),
{
    proof {
        assert(decode(0x55) == Some(Instr { mnemonic: Mnemonic::Eor, mode: Mode::ZeroPageX, cycles: 4, page_penalty: false }));
        reveal(spec_execute_read);
    }
    let address = zero_page_x(nes);
    let a = nes.read_memory(address as u16);
    eor(nes, a);
    4
}

/// EOR, absolute.
#[allow(non_snake_case)]
fn op4D(nes: &mut Nes) -> (r: u8)
    requires
        old(nes)@.wf(),
        spec_exec(old(nes)@, 0x4D) is Some,
    ensures
        Some((final(nes)@, r)) == spec_exec(old(nes)@, 0x4D),
        final(nes)@.wf(),
{
    proof {
        assert(decode(0x4D) == Some(Instr { mnemonic: Mnemonic::Eor, mode: Mode::Absolute, cycles: 4, page_penalty: false }));
        reveal(spec_execute_read);
    }
    let address = absolute(nes);
    let a = nes.read_memory(address);
    eor(nes,a);
    4
}

/// EOR, absolute,X.
#[allow(non_snake_case)]
fn op5D(nes: &mut Nes) -> (r: u8)
    requires
        old(nes)@.wf(),
        spec_exec(old(nes)@, 0x5D) is Some,
    ensures
        Some((final(nes)@, r)) == spec_exec(old(nes)@, 0x5D),
        final(nes)@.wf(),
{
    proof {
        assert(decode(0x5D) == Some(Instr { mnemonic: Mnemonic::Eor, mode: Mode::AbsoluteX, cycles: 4, page_penalty: true }));
        reveal(spec_execute_read);
    }
    let address = absolute_x(nes);
    let a = nes.read_memory(address);
    eor(nes,a);
    4 + nes.page_cross
}

/// EOR, absolute,Y.
#[allow(non_snake_case)]
fn op59(nes: &mut Nes) -> (r: u8)
    requires
        old(nes)@.wf(),
        spec_exec(old(nes)@, 0x59) is Some,
    ensures
        Some((final(nes)@, r)) == spec_exec(old(nes)@, 0x59),
        final(nes)@.wf(),
{
    proof {
        assert(decode(0x59) == Some(Instr { mnemonic: Mnemonic::Eor, mode: Mode::AbsoluteY, cycles: 4, page_penalty: true }));
        reveal(spec_execute_read);
    }
    let address = absolute_y(nes);
    let a = nes.read_memory(address);
    eor(nes,a);
    4 + nes.page_cross
}

/// EOR, (indirect,X).
#[allow(non_snake_case)]
fn op41(nes: &mut Nes) -> (r: u8)
    requires
        old(nes)@.wf(),
        spec_exec(old(nes)@, 0x41) is Some,
    ensures
        Some((final(nes)@, r)) == spec_exec(old(nes)@, 0x41),
        final(nes)@.wf(),
{
    proof {
        assert(decode(0x41) == Some(Instr { mnemonic: Mnemonic::Eor, mode: Mode::IndirectX, cycles: 6, page_penalty: false }));
        reveal(spec_execute_read);
    }
    let address = indexed_indirect_x(nes);
    let a = nes.read_memory(address);
    eor(nes, a);
    6
}

/// EOR, (indirect),Y.
#[allow(non_snake_case)]
fn op51(nes: &mut Nes) -> (r: u8)
    requires
        old(nes)@.wf(),
        spec_exec(old(nes)@, 0x51) is Some,
    ensures
        Some((final(nes)@, r)) == spec_exec(old(nes)@, 0x51),
        final(nes)@.wf(),
{
    proof {
        assert(decode(0x51) == Some(Instr { mnemonic: Mnemonic::Eor, mode: Mode::IndirectY, cycles: 5, page_penalty: true }));
        reveal(spec_execute_read);
    }
    let address = indirect_indexed_y(nes);
    let a = nes.read_memory(address);
    eor(nes,a);
    5 + nes.page_cross
}

/// INC, zero page.
#[allow(non_snake_case)]
fn opE6(nes: &mut Nes) -> (r: u8)
    requires
        old(nes)@.wf(),
        spec_exec(old(nes)@, 0xE6) is Some,
    ensures
        Some((final(nes)@, r)) == spec_exec(old(nes)@, 0xE6),
        final(nes)@.wf(),
{
    proof {
        assert(decode(0xE6) == Some(Instr { mnemonic: Mnemonic::Inc, mode: Mode::ZeroPage, cycles: 5, page_penalty: false }));
        reveal(spec_execute_modify);
    }
    let address = zero_page(nes);
    increment_mem(nes, address as u16);
    5
}

/// INC, zero page,X.
#[allow(non_snake_case)]
fn opF6(nes: &mut Nes) -> (r: u8)
    requires
        old(nes)@.wf(),
        spec_exec(old(nes)@, 0xF6) is Some,
    ensures
        Some((final(nes)@, r)) == spec_exec(old(nes)@, 0xF6),
        final(nes)@.wf(),
{
    proof {
        assert(decode(0xF6) == Some(Instr { mnemonic: Mnemonic::Inc, mode: Mode::ZeroPageX, cycles: 6, page_penalty: false }));
        reveal(spec_execute_modify);
    }
    let address = zero_page_x(nes);
    increment_mem(nes, address as u16);
    6
}

/// INC, absolute.
#[allow(non_snake_case)]
fn opEE(nes: &mut Nes) -> (r: u8)
    requires
        old(nes)@.wf(),
        spec_exec(old(nes)@, 0xEE) is Some,
    ensures
        Some((final(nes)@, r)) == spec_exec(old(nes)@, 0xEE),
        final(nes)@.wf(),
{
    proof {
        assert(decode(0xEE) == Some(Instr { mnemonic: Mnemonic::Inc, mode: Mode::Absolute, cycles: 6, page_penalty: false }));
        reveal(spec_execute_modify);
    }
    let address = absolute(nes);
    increment_mem(nes, address);
    6
}

/// INC, absolute,X.
#[allow(non_snake_case)]
fn opFE(nes: &mut Nes) -> (r: u8)
    requires
        old(nes)@.wf(),
        spec_exec(old(nes)@, 0xFE) is Some,
    ensures
        Some((final(nes)@, r)) == spec_exec(old(nes)@, 0xFE),
        final(nes)@.wf(),
{
    proof {
        assert(decode(0xFE) == Some(Instr { mnemonic: Mnemonic::Inc, mode: Mode::AbsoluteX, cycles: 7, page_penalty: false }));
        reveal(spec_execute_modify);
    }
    let address = absolute_x(nes);
    increment_mem(nes, address);
    7
}

/// INX, implied.
#[allow(non_snake_case)]
fn opE8(nes: &mut Nes) -> (r: u8)
    requires
        old(nes)@.wf(),
        spec_exec(old(nes)@, 0xE8) is Some,
    ensures
        Some((final(nes)@, r)) == spec_exec(old(nes)@, 0xE8),
        final(nes)@.wf(),
{
    proof {
        assert(decode(0xE8) == Some(Instr { mnemonic: Mnemonic::Inx, mode: Mode::Implied, cycles: 2, page_penalty: false }));
        reveal(spec_register_op);
    }
    let ghost p0 = nes.p;
    nes.reset_flags(0b10000010);
    let c = nes.x.wrapping_add(1);
    if c == 0 {
        nes.set_flags(0b10);
    }
    if is_negative(c) {
        nes.set_flags(0b10000000);

    }
    nes.x = c;
    proof {
        lemma_nz_steps(p0, c == 0, c >= 128);
        assert(c == add8(old(nes).x, 1));
        assert(nes@ == NesModel { x: add8(old(nes).x, 1), p: spec_nz(old(nes).p, add8(old(nes).x, 1)), ..old(nes)@ });
    }
    2
}

/// INY, implied.
#[allow(non_snake_case)]
fn opC8(nes: &mut Nes) -> (r: u8)
    requires
        old(nes)@.wf(),
        spec_exec(old(nes)@, 0xC8) is Some,
    ensures
        Some((final(nes)@, r)) == spec_exec(old(nes)@, 0xC8),
        final(nes)@.wf(),
{
    proof {
        assert(decode(0xC8) == Some(Instr { mnemonic: Mnemonic::Iny, mode: Mode::Implied, cycles: 2, page_penalty: false }));
        reveal(spec_register_op);
    }
    let ghost p0 = nes.p;
    nes.reset_flags(0b10000010);
    let c = nes.y.wrapping_add(1);
    if c == 0 {
        nes.set_flags(0b10);
    }
    if is_negative(c) {
        nes.set_flags(0b10000000);

    }
    nes.y = c;
    proof {
        lemma_nz_steps(p0, c == 0, c >= 128);
        assert(c == add8(old(nes).y, 1));
        assert(nes@ == NesModel { y: add8(old(nes).y, 1), p: spec_nz(old(nes).p, add8(old(nes).y, 1)), ..old(nes)@ });
    }
    2
}

/// JMP, absolute.
#[allow(non_snake_case)]
#[verifier::spinoff_prover]
fn op4C(nes: &mut Nes) -> (r: u8)
    requires
        old(nes)@.wf(),
        spec_exec(old(nes)@, 0x4C) is Some,
    ensures
        Some((final(nes)@, r)) == spec_exec(old(nes)@, 0x4C),
        final(nes)@.wf(),
{
    proof {
        assert(decode(0x4C) == Some(Instr { mnemonic: Mnemonic::Jmp, mode: Mode::Absolute, cycles: 3, page_penalty: false }));
        reveal(spec_control_op);
    }
    let address = absolute(nes);
    nes.pc = address as u16;
    3
}

/// JMP, indirect.
#[allow(non_snake_case)]
#[verifier::spinoff_prover]
fn op6C(nes: &mut Nes) -> (r: u8)
    requires
        old(nes)@.wf(),
        spec_exec(old(nes)@, 0x6C) is Some,
    ensures
        Some((final(nes)@, r)) == spec_exec(old(nes)@, 0x6C),
        final(nes)@.wf(),
{
    proof {
        assert(decode(0x6C) == Some(Instr { mnemonic: Mnemonic::Jmp, mode: Mode::Indirect, cycles: 5, page_penalty: false }));
        reveal(spec_control_op);
    }
    nes.pc = indirect(nes);
    5
}

/// JSR, absolute.
#[allow(non_snake_case)]
#[verifier::spinoff_prover]
fn op20(nes: &mut Nes) -> (r: u8)
    requires
        old(nes)@.wf(),
        spec_exec(old(nes)@, 0x20) is Some,
    ensures
        Some((final(nes)@, r)) == spec_exec(old(nes)@, 0x20),
        final(nes)@.wf(),
{
    proof {
        assert(decode(0x20) == Some(Instr { mnemonic: Mnemonic::Jsr, mode: Mode::Absolute, cycles: 6, page_penalty: false }));
        reveal(spec_control_op);
    }
    let address = absolute(nes) as u16;
    assert(nes.pc.wrapping_sub(1) == add16(nes.pc, -1));
    let bytes = unendian(nes.pc.wrapping_sub(1));
    nes.push_to_stack(bytes[1]);
    nes.push_to_stack(bytes[0]);
    nes.pc = address;
    6
}

/// LDA, immediate.
#[allow(non_snake_case)]
fn opA9(nes: &mut Nes) -> (r: u8)
    requires
        old(nes)@.wf(),
        spec_exec(old(nes)@, 0xA9) is Some,
    ensures
        Some((final(nes)@, r)) == spec_exec(old(nes)@, 0xA9),
        final(nes)@.wf(),
{
    proof {
        assert(decode(0xA9) == Some(Instr { mnemonic: Mnemonic::Lda, mode: Mode::Immediate, cycles: 2, page_penalty: false }));
        reveal(spec_execute_read);
    }
    let a = immediate(nes);
    load_acc(nes, a);
    2
}

/// LDA, zero page.
#[allow(non_snake_case)]
fn opA5(nes: &mut Nes) -> (r: u8)
    requires
        old(nes)@.wf(),
        spec_exec(old(nes)@, 0xA5) is Some,
    ensures
        Some((final(nes)@, r)) == spec_exec(old(nes)@, 0xA5),
        final(nes)@.wf(),
{
    proof {
        assert(decode(0xA5) == Some(Instr { mnemonic: Mnemonic::Lda, mode: Mode::ZeroPage, cycles: 3, page_penalty: false }));
        reveal(spec_execute_read);
    }
    let address = zero_page(nes);
    let a = nes.read_memory(address as u16);
    load_acc(nes, a);
    3
}

/// LDA, zero page,X.
#[allow(non_snake_case)]
fn opB5(nes: &mut Nes) -> (r: u8)
    requires
        old(nes)@.wf(),
        spec_exec(old(nes)@, 0xB5) is Some,
    ensures
        Some((final(nes)@, r)) == spec_exec(old(nes)@, 0xB5),
        final(nes)@.wf(),
{
    proof {
        assert(decode(0xB5) == Some(Instr { mnemonic: Mnemonic::Lda, mode: Mode::ZeroPageX, cycles: 4, page_penalty: false }));
        reveal(spec_execute_read);
    }
    let address = zero_page_x(nes);
    let a = nes.read_memory(address as u16);
    load_acc(nes, a);
    4
}

/// LDA, absolute.
#[allow(non_snake_case)]
fn opAD(nes: &mut Nes) -> (r: u8)
    requires
        old(nes)@.wf(),
        spec_exec(old(nes)@, 0xAD) is Some,
    ensures
        Some((final(nes)@, r)) == spec_exec(old(nes)@, 0xAD),
        final(nes)@.wf(),
{
    proof {
        assert(decode(0xAD) == Some(Instr { mnemonic: Mnemonic::Lda, mode: Mode::Absolute, cycles: 4, page_penalty: false }));
        reveal(spec_execute_read);
    }
    let address = absolute(nes);
    let a = nes.read_memory(address);
    load_acc(nes,a);
    4
}

/// LDA, absolute,X.
#[allow(non_snake_case)]
fn opBD(nes: &mut Nes) -> (r: u8)
    requires
        old(nes)@.wf(),
        spec_exec(old(nes)@, 0xBD) is Some,
    ensures
        Some((final(nes)@, r)) == spec_exec(old(nes)@, 0xBD),
        final(nes)@.wf(),
{
    proof {
        assert(decode(0xBD) == Some(Instr { mnemonic: Mnemonic::Lda, mode: Mode::AbsoluteX, cycles: 4, page_penalty: true }));
        reveal(spec_execute_read);
    }
    let address = absolute_x(nes);
    let a = nes.read_memory(address);
    load_acc(nes, a);
    4+nes.page_cross
}

/// LDA, absolute,Y.
#[allow(non_snake_case)]
fn opB9(nes: &mut Nes) -> (r: u8)
    requires
        old(nes)@.wf(),
        spec_exec(old(nes)@, 0xB9) is Some,
    ensures
        Some((final(nes)@, r)) == spec_exec(old(nes)@, 0xB9),
        final(nes)@.wf(),
{
    proof {
        assert(decode(0xB9) == Some(Instr { mnemonic: Mnemonic::Lda, mode: Mode::AbsoluteY, cycles: 4, page_penalty: true }));
        reveal(spec_execute_read);
    }
    let address = absolute_y(nes);
    let a = nes.read_memory(address);
    load_acc(nes, a);
    4 + nes.page_cross
}

/// LDA, (indirect,X).
#[allow(non_snake_case)]
fn opA1(nes: &mut Nes) -> (r: u8)
    requires
        old(nes)@.wf(),
        spec_exec(old(nes)@, 0xA1) is Some,
    ensures
        Some((final(nes)@, r)) == spec_exec(old(nes)@, 0xA1),
        final(nes)@.wf(),
{
    proof {
        assert(decode(0xA1) == Some(Instr { mnemonic: Mnemonic::Lda, mode: Mode::IndirectX, cycles: 6, page_penalty: false }));
        reveal(spec_execute_read);
    }
    let address = indexed_indirect_x(nes);
    let a = nes.read_memory(address);
    load_acc(nes, a);
    6
}

/// LDA, (indirect),Y.
#[allow(non_snake_case)]
fn opB1(nes: &mut Nes) -> (r: u8)
    requires
        old(nes)@.wf(),
        spec_exec(old(nes)@, 0xB1) is Some,
    ensures
        Some((final(nes)@, r)) == spec_exec(old(nes)@, 0xB1),
        final(nes)@.wf(),
{
    proof {
        assert(decode(0xB1) == Some(Instr { mnemonic: Mnemonic::Lda, mode: Mode::IndirectY, cycles: 5, page_penalty: true }));
        reveal(spec_execute_read);
    }
    let address = indirect_indexed_y(nes);
    let a = nes.read_memory(address);
    load_acc(nes, a);
    5 + nes.page_cross
}

/// LDX, immediate.
#[allow(non_snake_case)]
fn opA2(nes: &mut Nes) -> (r: u8)
    requires
        old(nes)@.wf(),
        spec_exec(old(nes)@, 0xA2) is Some,
    ensures
        Some((final(nes)@, r)) == spec_exec(old(nes)@, 0xA2),
        final(nes)@.wf(),
{
    proof {
        assert(decode(0xA2) == Some(Instr { mnemonic: Mnemonic::Ldx, mode: Mode::Immediate, cycles: 2, page_penalty: false }));
        reveal(spec_execute_read);
    }
    let a = immediate(nes);
    load_x(nes, a);
    2
}

/// LDX, zero page.
#[allow(non_snake_case)]
fn opA6(nes: &mut Nes) -> (r: u8)
    requires
        old(nes)@.wf(),
        spec_exec(old(nes)@, 0xA6) is Some,
    ensures
        Some((final(nes)@, r)) == spec_exec(old(nes)@, 0xA6),
        final(nes)@.wf(),
{
    proof {
        assert(decode(0xA6) == Some(Instr { mnemonic: Mnemonic::Ldx, mode: Mode::ZeroPage, cycles: 3, page_penalty: false }));
        reveal(spec_execute_read);
    }
    let address = zero_page(nes);
    let a = nes.read_memory(address as u16);
    load_x(nes, a);
    3
}

/// LDX, zero page,Y.
#[allow(non_snake_case)]
fn opB6(nes: &mut Nes) -> (r: u8)
    requires
        old(nes)@.wf(),
        spec_exec(old(nes)@, 0xB6) is Some,
    ensures
        Some((final(nes)@, r)) == spec_exec(old(nes)@, 0xB6),
        final(nes)@.wf(),
{
    proof {
        assert(decode(0xB6) == Some(Instr { mnemonic: Mnemonic::Ldx, mode: Mode::ZeroPageY, cycles: 4, page_penalty: false }));
        reveal(spec_execute_read);
    }
    let address = zero_page_y(nes);
    let a = nes.read_memory(address as u16);
    load_x(nes, a);
    4
}

/// LDX, absolute.
#[allow(non_snake_case)]
fn opAE(nes: &mut Nes) -> (r: u8)
    requires
        old(nes)@.wf(),
        spec_exec(old(nes)@, 0xAE) is Some,
    ensures
        Some((final(nes)@, r)) == spec_exec(old(nes)@, 0xAE),
        final(nes)@.wf(),
{
    proof {
        assert(decode(0xAE) == Some(Instr { mnemonic: Mnemonic::Ldx, mode: Mode::Absolute, cycles: 4, page_penalty: false }));
        reveal(spec_execute_read);
    }
    let address = absolute(nes);
    let a = nes.read_memory(address);
    load_x(nes, a);
    4
}

/// LDX, absolute,Y.
#[allow(non_snake_case)]
fn opBE(nes: &mut Nes) -> (r: u8)
    requires
        old(nes)@.wf(),
        spec_exec(old(nes)@, 0xBE) is Some,
    ensures
        Some((final(nes)@, r)) == spec_exec(old(nes)@, 0xBE),
        final(nes)@.wf(),
{
    proof {
        assert(decode(0xBE) == Some(Instr { mnemonic: Mnemonic::Ldx, mode: Mode::AbsoluteY, cycles: 4, page_penalty: true }));
        reveal(spec_execute_read);
    }
    let address = absolute_y(nes);
    let a = nes.read_memory(address);
    load_x(nes, a);
    4 + nes.page_cross
}

/// LDY, immediate.
#[allow(non_snake_case)]
fn opA0(nes: &mut Nes) -> (r: u8)
    requires
        old(nes)@.wf(),
        spec_exec(old(nes)@, 0xA0) is Some,
    ensures
        Some((final(nes)@, r)) == spec_exec(old(nes)@, 0xA0),
        final(nes)@.wf(),
{
    proof {
        assert(decode(0xA0) == Some(Instr { mnemonic: Mnemonic::Ldy, mode: Mode::Immediate, cycles: 2, page_penalty: false }));
        reveal(spec_execute_read);
    }
    let a = immediate(nes);
    load_y(nes, a);
    2
}

/// LDY, zero page.
#[allow(non_snake_case)]
fn opA4(nes: &mut Nes) -> (r: u8)
    requires
        old(nes)@.wf(),
        spec_exec(old(nes)@, 0xA4) is Some,
    ensures
        Some((final(nes)@, r)) == spec_exec(old(nes)@, 0xA4),
        final(nes)@.wf(),
{
    proof {
        assert(decode(0xA4) == Some(Instr { mnemonic: Mnemonic::Ldy, mode: Mode::ZeroPage, cycles: 3, page_penalty: false }));
        reveal(spec_execute_read);
    }
    let address = zero_page(nes);
    let a = nes.read_memory(address as u16);
    load_y(nes, a);
    3
}

/// LDY, zero page,X.
#[allow(non_snake_case)]
fn opB4(nes: &mut Nes) -> (r: u8)
    requires
        old(nes)@.wf(),
        spec_exec(old(nes)@, 0xB4) is Some,
    ensures
        Some((final(nes)@, r)) == spec_exec(old(nes)@, 0xB4),
        final(nes)@.wf(),
{
    proof {
        assert(decode(0xB4) == Some(Instr { mnemonic: Mnemonic::Ldy, mode: Mode::ZeroPageX, cycles: 4, page_penalty: false }));
        reveal(spec_execute_read);
    }
    let address = zero_page_x(nes);
    let a = nes.read_memory(address as u16);
    load_y(nes, a);
    4
}

/// LDY, absolute.
#[allow(non_snake_case)]
fn opAC(nes: &mut Nes) -> (r: u8)
    requires
        old(nes)@.wf(),
        spec_exec(old(nes)@, 0xAC) is Some,
    ensures
        Some((final(nes)@, r)) == spec_exec(old(nes)@, 0xAC),
        final(nes)@.wf(),
{
    proof {
        assert(decode(0xAC) == Some(Instr { mnemonic: Mnemonic::Ldy, mode: Mode::Absolute, cycles: 4, page_penalty: false }));
        reveal(spec_execute_read);
    }
    let address = absolute(nes);
    let a = nes.read_memory(address);
    load_y(nes, a);
    4
}

/// LDY, absolute,X.
#[allow(non_snake_case)]
fn opBC(nes: &mut Nes) -> (r: u8)
    requires
        old(nes)@.wf(),
        spec_exec(old(nes)@, 0xBC) is Some,
    ensures
        Some((final(nes)@, r)) == spec_exec(old(nes)@, 0xBC),
        final(nes)@.wf(),
{
    proof {
        assert(decode(0xBC) == Some(Instr { mnemonic: Mnemonic::Ldy, mode: Mode::AbsoluteX, cycles: 4, page_penalty: true }));
        reveal(spec_execute_read);
    }
    let address = absolute_x(nes);
    let a = nes.read_memory(address);
    load_y(nes, a);
    4 + nes.page_cross
}

/// LSR, accumulator.
#[allow(non_snake_case)]
fn op4A(nes: &mut Nes) -> (r: u8)
    requires
        old(nes)@.wf(),
        spec_exec(old(nes)@, 0x4A) is Some,
    ensures
        Some((final(nes)@, r)) == spec_exec(old(nes)@, 0x4A),
        final(nes)@.wf(),
{
    proof {
        assert(decode(0x4A) == Some(Instr { mnemonic: Mnemonic::Lsr, mode: Mode::Accumulator, cycles: 2, page_penalty: false }));
        reveal(spec_execute_modify);
    }
    nes.acc = logical_shift_right(nes, nes.acc);
    2
}

/// LSR, zero page.
#[allow(non_snake_case)]
fn op46(nes: &mut Nes) -> (r: u8)
    requires
        old(nes)@.wf(),
        spec_exec(old(nes)@, 0x46) is Some,
    ensures
        Some((final(nes)@, r)) == spec_exec(old(nes)@, 0x46),
        final(nes)@.wf(),
{
    proof {
        assert(decode(0x46) == Some(Instr { mnemonic: Mnemonic::Lsr, mode: Mode::ZeroPage, cycles: 5, page_penalty: false }));
        reveal(spec_execute_modify);
    }
    let address = zero_page(nes);
    let mem_value = nes.read_memory(address as u16);
    let value = logical_shift_right(nes, mem_value);
    nes.write_memory(address as u16,value);
    5
}

/// LSR, zero page,X.
#[allow(non_snake_case)]
fn op56(nes: &mut Nes) -> (r: u8)
    requires
        old(nes)@.wf(),
        spec_exec(old(nes)@, 0x56) is Some,
    ensures
        Some((final(nes)@, r)) == spec_exec(old(nes)@, 0x56),
        final(nes)@.wf(),
{
    proof {
        assert(decode(0x56) == Some(Instr { mnemonic: Mnemonic::Lsr, mode: Mode::ZeroPageX, cycles: 6, page_penalty: false }));
        reveal(spec_execute_modify);
    }
    let address = zero_page_x(nes);
    let mem_value = nes.read_memory(address as u16);
    let value = logical_shift_right(nes, mem_value);
    nes.write_memory(address as u16,value);
    6
}

/// LSR, absolute.
#[allow(non_snake_case)]
fn op4E(nes: &mut Nes) -> (r: u8)
    requires
        old(nes)@.wf(),
        spec_exec(old(nes)@, 0x4E) is Some,
    ensures
        Some((final(nes)@, r)) == spec_exec(old(nes)@, 0x4E),
        final(nes)@.wf(),
{
    proof {
        assert(decode(0x4E) == Some(Instr { mnemonic: Mnemonic::Lsr, mode: Mode::Absolute, cycles: 6, page_penalty: false }));
        reveal(spec_execute_modify);
    }
    let address = absolute(nes);
    let mem_value = nes.read_memory(address as u16);
    let value = logical_shift_right(nes, mem_value);
    nes.write_memory(address as u16,value);
    6
}

/// LSR, absolute,X.
#[allow(non_snake_case)]
fn op5E(nes: &mut Nes) -> (r: u8)
    requires
        old(nes)@.wf(),
        spec_exec(old(nes)@, 0x5E) is Some,
    ensures
        Some((final(nes)@, r)) == spec_exec(old(nes)@, 0x5E),
        final(nes)@.wf(),
{
    proof {
        assert(decode(0x5E) == Some(Instr { mnemonic: Mnemonic::Lsr, mode: Mode::AbsoluteX, cycles: 7, page_penalty: false }));
        reveal(spec_execute_modify);
    }
    let address = absolute_x(nes);
    let mem_value = nes.read_memory(address as u16);
    let value = logical_shift_right(nes, mem_value);
    nes.write_memory(address as u16,value);
    7
}

/// NOP, implied.
#[allow(non_snake_case)]
fn opEA(nes: &mut Nes) -> (r: u8)
    requires
        old(nes)@.wf(),
        spec_exec(old(nes)@, 0xEA) is Some,
    ensures
        Some((final(nes)@, r)) == spec_exec(old(nes)@, 0xEA),
        final(nes)@.wf(),
{
    proof {
        assert(decode(0xEA) == Some(Instr { mnemonic: Mnemonic::Nop, mode: Mode::Implied, cycles: 2, page_penalty: false }));
        reveal(spec_nop);
    }
    2
}

/// ORA, immediate.
#[allow(non_snake_case)]
fn op09(nes: &mut Nes) -> (r: u8)
    requires
        old(nes)@.wf(),
        spec_exec(old(nes)@, 0x09) is Some,
    ensures
        Some((final(nes)@, r)) == spec_exec(old(nes)@, 0x09),
        final(nes)@.wf(),
{
    proof {
        assert(decode(0x09) == Some(Instr { mnemonic: Mnemonic::Ora, mode: Mode::Immediate, cycles: 2, page_penalty: false }));
        reveal(spec_execute_read);
    }
    let a = immediate(nes);
    logical_or(nes, a);
    2
}

/// ORA, zero page.
#[allow(non_snake_case)]
fn op05(nes: &mut Nes) -> (r: u8)
    requires
        old(nes)@.wf(),
        spec_exec(old(nes)@, 0x05) is Some,
    ensures
        Some((final(nes)@, r)) == spec_exec(old(nes)@, 0x05),
        final(nes)@.wf(),
{
    proof {
        assert(decode(0x05) == Some(Instr { mnemonic: Mnemonic::Ora, mode: Mode::ZeroPage, cycles: 3, page_penalty: false }));
        reveal(spec_execute_read);
    }
    let address = zero_page(nes);
    let a = nes.read_memory(address as u16);
    logical_or(nes, a);
    3
}

/// ORA, zero page,X.
#[allow(non_snake_case)]
fn op15(nes: &mut Nes) -> (r: u8)
    requires
        old(nes)@.wf(),
        spec_exec(old(nes)@, 0x15) is Some,
    ensures
        Some((final(nes)@, r)) == spec_exec(old(nes)@, 0x15),
        final(nes)@.wf(),
{
    proof {
        assert(decode(0x15) == Some(Instr { mnemonic: Mnemonic::Ora, mode: Mode::ZeroPageX, cycles: 4, page_penalty: false }));
        reveal(spec_execute_read);
    }
    let address = zero_page_x(nes);
    let a = nes.read_memory(address as u16);
    logical_or(nes, a);
    4
}

/// ORA, absolute.
#[allow(non_snake_case)]
fn op0D(nes: &mut Nes) -> (r: u8)
    requires
        old(nes)@.wf(),
        spec_exec(old(nes)@, 0x0D) is Some,
    ensures
        Some((final(nes)@, r)) == spec_exec(old(nes)@, 0x0D),
        final(nes)@.wf(),
{
    proof {
        assert(decode(0x0D) == Some(Instr { mnemonic: Mnemonic::Ora, mode: Mode::Absolute, cycles: 4, page_penalty: false }));
        reveal(spec_execute_read);
    }
    let address = absolute(nes);
    let a = nes.read_memory(address);
    logical_or(nes, a);
    4
}

/// ORA, absolute,X.
#[allow(non_snake_case)]
fn op1D(nes: &mut Nes) -> (r: u8)
    requires
        old(nes)@.wf(),
        spec_exec(old(nes)@, 0x1D) is Some,
    ensures
        Some((final(nes)@, r)) == spec_exec(old(nes)@, 0x1D),
        final(nes)@.wf(),
{
    proof {
        assert(decode(0x1D) == Some(Instr { mnemonic: Mnemonic::Ora, mode: Mode::AbsoluteX, cycles: 4, page_penalty: true }));
        reveal(spec_execute_read);
    }
    let address = absolute_x(nes);
    let a = nes.read_memory(address);
    logical_or(nes, a);
    4 + nes.page_cross
}

/// ORA, absolute,Y.
#[allow(non_snake_case)]
fn op19(nes: &mut Nes) -> (r: u8)
    requires
        old(nes)@.wf(),
        spec_exec(old(nes)@, 0x19) is Some,
    ensures
        Some((final(nes)@, r)) == spec_exec(old(nes)@, 0x19),
        final(nes)@.wf(),
{
    proof {
        assert(decode(0x19) == Some(Instr { mnemonic: Mnemonic::Ora, mode: Mode::AbsoluteY, cycles: 4, page_penalty: true }));
        reveal(spec_execute_read);
    }
    let address = absolute_y(nes);
    let a = nes.read_memory(address);
    logical_or(nes, a);
    4 + nes.page_cross
}

/// ORA, (indirect,X).
#[allow(non_snake_case)]
fn op01(nes: &mut Nes) -> (r: u8)
    requires
        old(nes)@.wf(),
        spec_exec(old(nes)@, 0x01) is Some,
    ensures
        Some((final(nes)@, r)) == spec_exec(old(nes)@, 0x01),
        final(nes)@.wf(),
{
    proof {
        assert(decode(0x01) == Some(Instr { mnemonic: Mnemonic::Ora, mode: Mode::IndirectX, cycles: 6, page_penalty: false }));
        reveal(spec_execute_read);
    }
    let address = indexed_indirect_x(nes);
    let a = nes.read_memory(address);
    logical_or(nes, a);
    6
}

/// ORA, (indirect),Y.
#[allow(non_snake_case)]
fn op11(nes: &mut Nes) -> (r: u8)
    requires
        old(nes)@.wf(),
        spec_exec(old(nes)@, 0x11) is Some,
    ensures
        Some((final(nes)@, r)) == spec_exec(old(nes)@, 0x11),
        final(nes)@.wf(),
{
    proof {
        assert(decode(0x11) == Some(Instr { mnemonic: Mnemonic::Ora, mode: Mode::IndirectY, cycles: 5, page_penalty: true }));
        reveal(spec_execute_read);
    }
    let address = indirect_indexed_y(nes);
    let a = nes.read_memory(address);
    logical_or(nes, a);
    5 + nes.page_cross
}

/// PHA, implied.
#[allow(non_snake_case)]
fn op48(nes: &mut Nes) -> (r: u8)
    requires
        old(nes)@.wf(),
        spec_exec(old(nes)@, 0x48) is Some,
    ensures
        Some((final(nes)@, r)) == spec_exec(old(nes)@, 0x48),
        final(nes)@.wf(),
{
    proof {
        assert(decode(0x48) == Some(Instr { mnemonic: Mnemonic::Pha, mode: Mode::Implied, cycles: 3, page_penalty: false }));
        reveal(spec_stack_op);
    }
    nes.push_to_stack(nes.acc);
    3
}

/// PHP, implied.
#[allow(non_snake_case)]
fn op08(nes: &mut Nes) -> (r: u8)
    requires
        old(nes)@.wf(),
        spec_exec(old(nes)@, 0x08) is Some,
    ensures
        Some((final(nes)@, r)) == spec_exec(old(nes)@, 0x08),
        final(nes)@.wf(),
{
    proof {
        assert(decode(0x08) == Some(Instr { mnemonic: Mnemonic::Php, mode: Mode::Implied, cycles: 3, page_penalty: false }));
        reveal(spec_stack_op);
    }
    nes.push_to_stack(nes.p);
    3
}

/// PLA, implied.
#[allow(non_snake_case)]
fn op68(nes: &mut Nes) -> (r: u8)
    requires
        old(nes)@.wf(),
        spec_exec(old(nes)@, 0x68) is Some,
    ensures
        Some((final(nes)@, r)) == spec_exec(old(nes)@, 0x68),
        final(nes)@.wf(),
{
    proof {
        assert(decode(0x68) == Some(Instr { mnemonic: Mnemonic::Pla, mode: Mode::Implied, cycles: 4, page_penalty: false }));
        reveal(spec_stack_op);
    }
    nes.acc = nes.pop_from_stack();
    let ghost p0 = nes.p;
    nes.reset_flags(0b10000010);
    if nes.acc == 0 {
        nes.set_flags(0b10);
    }
    if is_negative(nes.acc) {
        nes.set_flags(0b10000000);
    }
    proof {
        lemma_nz_steps(p0, nes.acc == 0, nes.acc >= 128);
    }
    4
}

/// PLP, implied.
#[allow(non_snake_case)]
fn op28(nes: &mut Nes) -> (r: u8)
    requires
        old(nes)@.wf(),
        spec_exec(old(nes)@, 0x28) is Some,
    ensures
        Some((final(nes)@, r)) == spec_exec(old(nes)@, 0x28),
        final(nes)@.wf(),
{
    proof {
        assert(decode(0x28) == Some(Instr { mnemonic: Mnemonic::Plp, mode: Mode::Implied, cycles: 4, page_penalty: false }));
        reveal(spec_stack_op);
    }
    nes.p = (nes.pop_from_stack() & 0xEF) | 0b00100000;
    4
}

/// ROL, accumulator.
#[allow(non_snake_case)]
fn op2A(nes: &mut Nes) -> (r: u8)
    requires
        old(nes)@.wf(),
        spec_exec(old(nes)@, 0x2A) is Some,
    ensures
        Some((final(nes)@, r)) == spec_exec(old(nes)@, 0x2A),
        final(nes)@.wf(),
{
    proof {
        assert(decode(0x2A) == Some(Instr { mnemonic: Mnemonic::Rol, mode: Mode::Accumulator, cycles: 2, page_penalty: false }));
        reveal(spec_execute_modify);
    }
    nes.acc = rotate_left(nes, nes.acc);
    2
}

/// ROL, zero page.
#[allow(non_snake_case)]
fn op26(nes: &mut Nes) -> (r: u8)
    requires
        old(nes)@.wf(),
        spec_exec(old(nes)@, 0x26) is Some,
    ensures
        Some((final(nes)@, r)) == spec_exec(old(nes)@, 0x26),
        final(nes)@.wf(),
{
    proof {
        assert(decode(0x26) == Some(Instr { mnemonic: Mnemonic::Rol, mode: Mode::ZeroPage, cycles: 5, page_penalty: false }));
        reveal(spec_execute_modify);
    }
    let address = zero_page(nes);
    let mem_value = nes.read_memory(address as u16);
    let value = rotate_left(nes, mem_value);
    nes.write_memory(address as u16, value);
    5
}

/// ROL, zero page,X.
#[allow(non_snake_case)]
fn op36(nes: &mut Nes) -> (r: u8)
    requires
        old(nes)@.wf(),
        spec_exec(old(nes)@, 0x36) is Some,
    ensures
        Some((final(nes)@, r)) == spec_exec(old(nes)@, 0x36),
        final(nes)@.wf(),
{
    proof {
        assert(decode(0x36) == Some(Instr { mnemonic: Mnemonic::Rol, mode: Mode::ZeroPageX, cycles: 6, page_penalty: false }));
        reveal(spec_execute_modify);
    }
    let address = zero_page_x(nes);
    let mem_value = nes.read_memory(address as u16);
    let value = rotate_left(nes, mem_value);
    nes.write_memory(address as u16, value);
    6
}

/// ROL, absolute.
#[allow(non_snake_case)]
fn op2E(nes: &mut Nes) -> (r: u8)
    requires
        old(nes)@.wf(),
        spec_exec(old(nes)@, 0x2E) is Some,
    ensures
        Some((final(nes)@, r)) == spec_exec(old(nes)@, 0x2E),
        final(nes)@.wf(),
{
    proof {
        assert(decode(0x2E) == Some(Instr { mnemonic: Mnemonic::Rol, mode: Mode::Absolute, cycles: 6, page_penalty: false }));
        reveal(spec_execute_modify);
    }
    let address = absolute(nes);
    let mem_value = nes.read_memory(address as u16);
    let value = rotate_left(nes, mem_value);
    nes.write_memory(address as u16, value);
    6
}

/// ROL, absolute,X.
#[allow(non_snake_case)]
fn op3E(nes: &mut Nes) -> (r: u8)
    requires
        old(nes)@.wf(),
        spec_exec(old(nes)@, 0x3E) is Some,
    ensures
        Some((final(nes)@, r)) == spec_exec(old(nes)@, 0x3E),
        final(nes)@.wf(),
{
    proof {
        assert(decode(0x3E) == Some(Instr { mnemonic: Mnemonic::Rol, mode: Mode::AbsoluteX, cycles: 7, page_penalty: false }));
        reveal(spec_execute_modify);
    }
    let address = absolute_x(nes);
    let mem_value = nes.read_memory(address as u16);
    let value = rotate_left(nes, mem_value);
    nes.write_memory(address as u16, value);
    7
}

/// ROR, accumulator.
#[allow(non_snake_case)]
fn op6A(nes: &mut Nes) -> (r: u8)
    requires
        old(nes)@.wf(),
        spec_exec(old(nes)@, 0x6A) is Some,
    ensures
        Some((final(nes)@, r)) == spec_exec(old(nes)@, 0x6A),
        final(nes)@.wf(),
{
    proof {
        assert(decode(0x6A) == Some(Instr { mnemonic: Mnemonic::Ror, mode: Mode::Accumulator, cycles: 2, page_penalty: false }));
        reveal(spec_execute_modify);
    }
    nes.acc = rotate_right(nes, nes.acc);
    2
}

/// ROR, zero page.
#[allow(non_snake_case)]
fn op66(nes: &mut Nes) -> (r: u8)
    requires
        old(nes)@.wf(),
        spec_exec(old(nes)@, 0x66) is Some,
    ensures
        Some((final(nes)@, r)) == spec_exec(old(nes)@, 0x66),
        final(nes)@.wf(),
{
    proof {
        assert(decode(0x66) == Some(Instr { mnemonic: Mnemonic::Ror, mode: Mode::ZeroPage, cycles: 5, page_penalty: false }));
        reveal(spec_execute_modify);
    }
    let address = zero_page(nes);
    let mem_value = nes.read_memory(address as u16);
    let value = rotate_right(nes, mem_value);
    nes.write_memory(address as u16, value);
    5
}

/// ROR, zero page,X.
#[allow(non_snake_case)]
fn op76(nes: &mut Nes) -> (r: u8)
    requires
        old(nes)@.wf(),
        spec_exec(old(nes)@, 0x76) is Some,
    ensures
        Some((final(nes)@, r)) == spec_exec(old(nes)@, 0x76),
        final(nes)@.wf(),
{
    proof {
        assert(decode(0x76) == Some(Instr { mnemonic: Mnemonic::Ror, mode: Mode::ZeroPageX, cycles: 6, page_penalty: false }));
        reveal(spec_execute_modify);
    }
    let address = zero_page_x(nes);
    let mem_value = nes.read_memory(address as u16);
    let value = rotate_right(nes, mem_value);
    nes.write_memory(address as u16, value);
    6
}

/// ROR, absolute.
#[allow(non_snake_case)]
fn op6E(nes: &mut Nes) -> (r: u8)
    requires
        old(nes)@.wf(),
        spec_exec(old(nes)@, 0x6E) is Some,
    ensures
        Some((final(nes)@, r)) == spec_exec(old(nes)@, 0x6E),
        final(nes)@.wf(),
{
    proof {
        assert(decode(0x6E) == Some(Instr { mnemonic: Mnemonic::Ror, mode: Mode::Absolute, cycles: 6, page_penalty: false }));
        reveal(spec_execute_modify);
    }
    let address = absolute(nes);
    let mem_value = nes.read_memory(address as u16);
    let value = rotate_right(nes, mem_value);
    nes.write_memory(address as u16, value);
    6
}

/// ROR, absolute,X.
#[allow(non_snake_case)]
fn op7E(nes: &mut Nes) -> (r: u8)
    requires
        old(nes)@.wf(),
        spec_exec(old(nes)@, 0x7E) is Some,
    ensures
        Some((final(nes)@, r)) == spec_exec(old(nes)@, 0x7E),
        final(nes)@.wf(),
{
    proof {
        assert(decode(0x7E) == Some(Instr { mnemonic: Mnemonic::Ror, mode: Mode::AbsoluteX, cycles: 7, page_penalty: false }));
        reveal(spec_execute_modify);
    }
    let address = absolute_x(nes);
    let mem_value = nes.read_memory(address as u16);
    let value = rotate_right(nes, mem_value);
    nes.write_memory(address as u16, value);
    7
}

/// RTI, implied.
#[allow(non_snake_case)]
#[verifier::spinoff_prover]
fn op40(nes: &mut Nes) -> (r: u8)
    requires
        old(nes)@.wf(),
        spec_exec(old(nes)@, 0x40) is Some,
    ensures
        Some((final(nes)@, r)) == spec_exec(old(nes)@, 0x40),
        final(nes)@.wf(),
{
    proof {
        assert(decode(0x40) == Some(Instr { mnemonic: Mnemonic::Rti, mode: Mode::Implied, cycles: 6, page_penalty: false }));
        reveal(spec_control_op);
    }
    nes.p = (nes.pop_from_stack() & 0xEF) | 0b00100000;
    let byte1 = nes.pop_from_stack();
    let byte2 = nes.pop_from_stack();
    nes.pc = endian(byte1, byte2);
    6
}

/// RTS, implied.
#[allow(non_snake_case)]
#[verifier::spinoff_prover]
fn op60(nes: &mut Nes) -> (r: u8)
    requires
        old(nes)@.wf(),
        spec_exec(old(nes)@, 0x60) is Some,
    ensures
        Some((final(nes)@, r)) == spec_exec(old(nes)@, 0x60),
        final(nes)@.wf(),
{
    proof {
        assert(decode(0x60) == Some(Instr { mnemonic: Mnemonic::Rts, mode: Mode::Implied, cycles: 6, page_penalty: false }));
        reveal(spec_control_op);
    }
    let ghost s0 = nes@;
    let byte1 = nes.pop_from_stack();
    let ghost s1 = nes@;
    let byte2 = nes.pop_from_stack();
    let ghost s2 = nes@;
    nes.pc = endian(byte1, byte2).wrapping_add(1);
    proof {
        assert(nes.pc == add16(spec_endian(byte1, byte2), 1));
        assert(nes@ == NesModel { pc: add16(spec_endian(byte1, byte2), 1), ..s2 });
        assert(spec_control_op(Mnemonic::Rts, Mode::Implied, s0) == Some(nes@));
    }
    6
}

/// SBC, immediate.
#[allow(non_snake_case)]
fn opE9(nes: &mut Nes) -> (r: u8)
    requires
        old(nes)@.wf(),
        spec_exec(old(nes)@, 0xE9) is Some,
    ensures
        Some((final(nes)@, r)) == spec_exec(old(nes)@, 0xE9),
        final(nes)@.wf(),
{
    proof {
        assert(decode(0xE9) == Some(Instr { mnemonic: Mnemonic::Sbc, mode: Mode::Immediate, cycles: 2, page_penalty: false }));
        reveal(spec_execute_read);
    }
    let a = immediate(nes);
    subtract_with_carry(nes, a);
    2
}

/// SBC, zero page.
#[allow(non_snake_case)]
fn opE5(nes: &mut Nes) -> (r: u8)
    requires
        old(nes)@.wf(),
        spec_exec(old(nes)@, 0xE5) is Some,
    ensures
        Some((final(nes)@, r)) == spec_exec(old(nes)@, 0xE5),
        final(nes)@.wf(),
{
    proof {
        assert(decode(0xE5) == Some(Instr { mnemonic: Mnemonic::Sbc, mode: Mode::ZeroPage, cycles: 3, page_penalty: false }));
        reveal(spec_execute_read);
    }
    let address = zero_page(nes);
    let a = nes.read_memory(address as u16);
    subtract_with_carry(nes, a);
    3
}

/// SBC, zero page,X.
#[allow(non_snake_case)]
fn opF5(nes: &mut Nes) -> (r: u8)
    requires
        old(nes)@.wf(),
        spec_exec(old(nes)@, 0xF5) is Some,
    ensures
        Some((final(nes)@, r)) == spec_exec(old(nes)@, 0xF5),
        final(nes)@.wf(),
{
    proof {
        assert(decode(0xF5) == Some(Instr { mnemonic: Mnemonic::Sbc, mode: Mode::ZeroPageX, cycles: 4, page_penalty: false }));
        reveal(spec_execute_read);
    }
    let address = zero_page_x(nes);
    let a = nes.read_memory(address as u16);
    subtract_with_carry(nes, a);
    4
}

/// SBC, absolute.
#[allow(non_snake_case)]
fn opED(nes: &mut Nes) -> (r: u8)
    requires
        old(nes)@.wf(),
        spec_exec(old(nes)@, 0xED) is Some,
    ensures
        Some((final(nes)@, r)) == spec_exec(old(nes)@, 0xED),
        final(nes)@.wf(),
{
    proof {
        assert(decode(0xED) == Some(Instr { mnemonic: Mnemonic::Sbc, mode: Mode::Absolute, cycles: 4, page_penalty: false }));
        reveal(spec_execute_read);
    }
    let address = absolute(nes);
    let a = nes.read_memory(address);
    subtract_with_carry(nes, a);
    4
}

/// SBC, absolute,X.
#[allow(non_snake_case)]
fn opFD(nes: &mut Nes) -> (r: u8)
    requires
        old(nes)@.wf(),
        spec_exec(old(nes)@, 0xFD) is Some,
    ensures
        Some((final(nes)@, r)) == spec_exec(old(nes)@, 0xFD),
        final(nes)@.wf(),
{
    proof {
        assert(decode(0xFD) == Some(Instr { mnemonic: Mnemonic::Sbc, mode: Mode::AbsoluteX, cycles: 4, page_penalty: true }));
        reveal(spec_execute_read);
    }
    let address = absolute_x(nes);
    let a = nes.read_memory(address);
    subtract_with_carry(nes, a);
    4 + nes.page_cross
}

/// SBC, absolute,Y.
#[allow(non_snake_case)]
fn opF9(nes: &mut Nes) -> (r: u8)
    requires
        old(nes)@.wf(),
        spec_exec(old(nes)@, 0xF9) is Some,
    ensures
        Some((final(nes)@, r)) == spec_exec(old(nes)@, 0xF9),
        final(nes)@.wf(),
{
    proof {
        assert(decode(0xF9) == Some(Instr { mnemonic: Mnemonic::Sbc, mode: Mode::AbsoluteY, cycles: 4, page_penalty: true }));
        reveal(spec_execute_read);
    }
    let address = absolute_y(nes);
    let a = nes.read_memory(address);
    subtract_with_carry(nes, a);
    4 + nes.page_cross
}

/// SBC, (indirect,X).
#[allow(non_snake_case)]
fn opE1(nes: &mut Nes) -> (r: u8)
    requires
        old(nes)@.wf(),
        spec_exec(old(nes)@, 0xE1) is Some,
    ensures
        Some((final(nes)@, r)) == spec_exec(old(nes)@, 0xE1),
        final(nes)@.wf(),
{
    proof {
        assert(decode(0xE1) == Some(Instr { mnemonic: Mnemonic::Sbc, mode: Mode::IndirectX, cycles: 6, page_penalty: false }));
        reveal(spec_execute_read);
    }
    let address = indexed_indirect_x(nes);
    let a = nes.read_memory(address);
    subtract_with_carry(nes, a);
    6
}

/// SBC, (indirect),Y.
#[allow(non_snake_case)]
fn opF1(nes: &mut Nes) -> (r: u8)
    requires
        old(nes)@.wf(),
        spec_exec(old(nes)@, 0xF1) is Some,
    ensures
        Some((final(nes)@, r)) == spec_exec(old(nes)@, 0xF1),
        final(nes)@.wf(),
{
    proof {
        assert(decode(0xF1) == Some(Instr { mnemonic: Mnemonic::Sbc, mode: Mode::IndirectY, cycles: 5, page_penalty: true }));
        reveal(spec_execute_read);
    }
    let address = indirect_indexed_y(nes);
    let a = nes.read_memory(address);
    subtract_with_carry(nes, a);
    5 + nes.page_cross
}

/// SEC, implied.
#[allow(non_snake_case)]
fn op38(nes: &mut Nes) -> (r: u8)
    requires
        old(nes)@.wf(),
        spec_exec(old(nes)@, 0x38) is Some,
    ensures
        Some((final(nes)@, r)) == spec_exec(old(nes)@, 0x38),
        final(nes)@.wf(),
{
    proof {
        assert(decode(0x38) == Some(Instr { mnemonic: Mnemonic::Sec, mode: Mode::Implied, cycles: 2, page_penalty: false }));
    }
    nes.set_flags(0b1);
    2
}

/// SED, implied.
#[allow(non_snake_case)]
fn opF8(nes: &mut Nes) -> (r: u8)
    requires
        old(nes)@.wf(),
        spec_exec(old(nes)@, 0xF8) is Some,
    ensures
        Some((final(nes)@, r)) == spec_exec(old(nes)@, 0xF8),
        final(nes)@.wf(),
{
    proof {
        assert(decode(0xF8) == Some(Instr { mnemonic: Mnemonic::Sed, mode: Mode::Implied, cycles: 2, page_penalty: false }));
    }
    nes.set_flags(0b1000);
    2
}

/// SEI, implied.
#[allow(non_snake_case)]
fn op78(nes: &mut Nes) -> (r: u8)
    requires
        old(nes)@.wf(),
        spec_exec(old(nes)@, 0x78) is Some,
    ensures
        Some((final(nes)@, r)) == spec_exec(old(nes)@, 0x78),
        final(nes)@.wf(),
{
    proof {
        assert(decode(0x78) == Some(Instr { mnemonic: Mnemonic::Sei, mode: Mode::Implied, cycles: 2, page_penalty: false }));
    }
    nes.set_flags(0b100);
    2
}

/// STA, zero page.
#[allow(non_snake_case)]
fn op85(nes: &mut Nes) -> (r: u8)
    requires
        old(nes)@.wf(),
        spec_exec(old(nes)@, 0x85) is Some,
    ensures
        Some((final(nes)@, r)) == spec_exec(old(nes)@, 0x85),
        final(nes)@.wf(),
{
    proof {
        assert(decode(0x85) == Some(Instr { mnemonic: Mnemonic::Sta, mode: Mode::ZeroPage, cycles: 3, page_penalty: false }));
        reveal(spec_execute_store);
    }
    let address = zero_page(nes);
    store_acc(nes, address as u16);
    3
}

/// STA, zero page,X.
#[allow(non_snake_case)]
fn op95(nes: &mut Nes) -> (r: u8)
    requires
        old(nes)@.wf(),
        spec_exec(old(nes)@, 0x95) is Some,
    ensures
        Some((final(nes)@, r)) == spec_exec(old(nes)@, 0x95),
        final(nes)@.wf(),
{
    proof {
        assert(decode(0x95) == Some(Instr { mnemonic: Mnemonic::Sta, mode: Mode::ZeroPageX, cycles: 4, page_penalty: false }));
        reveal(spec_execute_store);
    }
    let address = zero_page_x(nes);
    store_acc(nes, address as u16);
    4
}

/// STA, absolute.
#[allow(non_snake_case)]
fn op8D(nes: &mut Nes) -> (r: u8)
    requires
        old(nes)@.wf(),
        spec_exec(old(nes)@, 0x8D) is Some,
    ensures
        Some((final(nes)@, r)) == spec_exec(old(nes)@, 0x8D),
        final(nes)@.wf(),
{
    proof {
        assert(decode(0x8D) == Some(Instr { mnemonic: Mnemonic::Sta, mode: Mode::Absolute, cycles: 4, page_penalty: false }));
        reveal(spec_execute_store);
    }
    let address = absolute(nes);
    store_acc(nes, address);
    4
}

/// STA, absolute,X.
#[allow(non_snake_case)]
fn op9D(nes: &mut Nes) -> (r: u8)
    requires
        old(nes)@.wf(),
        spec_exec(old(nes)@, 0x9D) is Some,
    ensures
        Some((final(nes)@, r)) == spec_exec(old(nes)@, 0x9D),
        final(nes)@.wf(),
{
    proof {
        assert(decode(0x9D) == Some(Instr { mnemonic: Mnemonic::Sta, mode: Mode::AbsoluteX, cycles: 5, page_penalty: false }));
        reveal(spec_execute_store);
    }
    let address = absolute_x(nes);
    store_acc(nes, address);
    5
}

/// STA, absolute,Y.
#[allow(non_snake_case)]
fn op99(nes: &mut Nes) -> (r: u8)
    requires
        old(nes)@.wf(),
        spec_exec(old(nes)@, 0x99) is Some,
    ensures
        Some((final(nes)@, r)) == spec_exec(old(nes)@, 0x99),
        final(nes)@.wf(),
{
    proof {
        assert(decode(0x99) == Some(Instr { mnemonic: Mnemonic::Sta, mode: Mode::AbsoluteY, cycles: 5, page_penalty: false }));
        reveal(spec_execute_store);
    }
    let address = absolute_y(nes);
    store_acc(nes, address);
    5
}

/// STA, (indirect,X).
#[allow(non_snake_case)]
fn op81(nes: &mut Nes) -> (r: u8)
    requires
        old(nes)@.wf(),
        spec_exec(old(nes)@, 0x81) is Some,
    ensures
        Some((final(nes)@, r)) == spec_exec(old(nes)@, 0x81),
        final(nes)@.wf(),
{
    proof {
        assert(decode(0x81) == Some(Instr { mnemonic: Mnemonic::Sta, mode: Mode::IndirectX, cycles: 6, page_penalty: false }));
        reveal(spec_execute_store);
    }
    let address = indexed_indirect_x(nes);
    store_acc(nes, address);
    6
}

/// STA, (indirect),Y.
#[allow(non_snake_case)]
fn op91(nes: &mut Nes) -> (r: u8)
    requires
        old(nes)@.wf(),
        spec_exec(old(nes)@, 0x91) is Some,
    ensures
        Some((final(nes)@, r)) == spec_exec(old(nes)@, 0x91),
        final(nes)@.wf(),
{
    proof {
        assert(decode(0x91) == Some(Instr { mnemonic: Mnemonic::Sta, mode: Mode::IndirectY, cycles: 6, page_penalty: false }));
        reveal(spec_execute_store);
    }
    let address = indirect_indexed_y(nes);
    store_acc(nes, address);
    6
}

/// STX, zero page.
#[allow(non_snake_case)]
fn op86(nes: &mut Nes) -> (r: u8)
    requires
        old(nes)@.wf(),
        spec_exec(old(nes)@, 0x86) is Some,
    ensures
        Some((final(nes)@, r)) == spec_exec(old(nes)@, 0x86),
        final(nes)@.wf(),
{
    proof {
        assert(decode(0x86) == Some(Instr { mnemonic: Mnemonic::Stx, mode: Mode::ZeroPage, cycles: 3, page_penalty: false }));
        reveal(spec_execute_store);
    }
    let address = zero_page(nes);
    store_x(nes, address as u16);
    3
}

/// STX, zero page,Y.
#[allow(non_snake_case)]
fn op96(nes: &mut Nes) -> (r: u8)
    requires
        old(nes)@.wf(),
        spec_exec(old(nes)@, 0x96) is Some,
    ensures
        Some((final(nes)@, r)) == spec_exec(old(nes)@, 0x96),
        final(nes)@.wf(),
{
    proof {
        assert(decode(0x96) == Some(Instr { mnemonic: Mnemonic::Stx, mode: Mode::ZeroPageY, cycles: 4, page_penalty: false }));
        reveal(spec_execute_store);
    }
    let address = zero_page_y(nes);
    store_x(nes, address as u16);
    4
}

/// STX, absolute.
#[allow(non_snake_case)]
fn op8E(nes: &mut Nes) -> (r: u8)
    requires
        old(nes)@.wf(),
        spec_exec(old(nes)@, 0x8E) is Some,
    ensures
        Some((final(nes)@, r)) == spec_exec(old(nes)@, 0x8E),
        final(nes)@.wf(),
{
    proof {
        assert(decode(0x8E) == Some(Instr { mnemonic: Mnemonic::Stx, mode: Mode::Absolute, cycles: 4, page_penalty: false }));
        reveal(spec_execute_store);
    }
    let address = absolute(nes);
    store_x(nes, address);
    4
}

/// STY, zero page.
#[allow(non_snake_case)]
fn op84(nes: &mut Nes) -> (r: u8)
    requires
        old(nes)@.wf(),
        spec_exec(old(nes)@, 0x84) is Some,
    ensures
        Some((final(nes)@, r)) == spec_exec(old(nes)@, 0x84),
        final(nes)@.wf(),
{
    proof {
        assert(decode(0x84) == Some(Instr { mnemonic: Mnemonic::Sty, mode: Mode::ZeroPage, cycles: 3, page_penalty: false }));
        reveal(spec_execute_store);
    }
    let address = zero_page(nes);
    store_y(nes, address as u16);
    3
}

/// STY, zero page,X.
#[allow(non_snake_case)]
fn op94(nes: &mut Nes) -> (r: u8)
    requires
        old(nes)@.wf(),
        spec_exec(old(nes)@, 0x94) is Some,
    ensures
        Some((final(nes)@, r)) == spec_exec(old(nes)@, 0x94),
        final(nes)@.wf(),
{
    proof {
        assert(decode(0x94) == Some(Instr { mnemonic: Mnemonic::Sty, mode: Mode::ZeroPageX, cycles: 4, page_penalty: false }));
        reveal(spec_execute_store);
    }
    let address = zero_page_x(nes);
    store_y(nes, address as u16);
    4
}

/// STY, absolute.
#[allow(non_snake_case)]
fn op8C(nes: &mut Nes) -> (r: u8)
    requires
        old(nes)@.wf(),
        spec_exec(old(nes)@, 0x8C) is Some,
    ensures
        Some((final(nes)@, r)) == spec_exec(old(nes)@, 0x8C),
        final(nes)@.wf(),
{
    proof {
        assert(decode(0x8C) == Some(Instr { mnemonic: Mnemonic::Sty, mode: Mode::Absolute, cycles: 4, page_penalty: false }));
        reveal(spec_execute_store);
    }
    let address = absolute(nes);
    store_y(nes, address);
    4
}

/// TAX, implied.
#[allow(non_snake_case)]
fn opAA(nes: &mut Nes) -> (r: u8)
    requires
        old(nes)@.wf(),
        spec_exec(old(nes)@, 0xAA) is Some,
    ensures
        Some((final(nes)@, r)) == spec_exec(old(nes)@, 0xAA),
        final(nes)@.wf(),
{
    proof {
        assert(decode(0xAA) == Some(Instr { mnemonic: Mnemonic::Tax, mode: Mode::Implied, cycles: 2, page_penalty: false }));
        reveal(spec_register_op);
    }
    nes.x = nes.acc;
    transfer_flags(nes, nes.x);
    2
}

/// TAY, implied.
#[allow(non_snake_case)]
fn opA8(nes: &mut Nes) -> (r: u8)
    requires
        old(nes)@.wf(),
        spec_exec(old(nes)@, 0xA8) is Some,
    ensures
        Some((final(nes)@, r)) == spec_exec(old(nes)@, 0xA8),
        final(nes)@.wf(),
{
    proof {
        assert(decode(0xA8) == Some(Instr { mnemonic: Mnemonic::Tay, mode: Mode::Implied, cycles: 2, page_penalty: false }));
        reveal(spec_register_op);
    }
    nes.y = nes.acc;
    transfer_flags(nes, nes.y);
    2
}

/// TSX, implied.
#[allow(non_snake_case)]
fn opBA(nes: &mut Nes) -> (r: u8)
    requires
        old(nes)@.wf(),
        spec_exec(old(nes)@, 0xBA) is Some,
    ensures
        Some((final(nes)@, r)) == spec_exec(old(nes)@, 0xBA),
        final(nes)@.wf(),
{
    proof {
        assert(decode(0xBA) == Some(Instr { mnemonic: Mnemonic::Tsx, mode: Mode::Implied, cycles: 2, page_penalty: false }));
        reveal(spec_register_op);
    }
    nes.x = nes.sp;
    transfer_flags(nes, nes.x);
    2
}

/// TXA, implied.
#[allow(non_snake_case)]
fn op8A(nes: &mut Nes) -> (r: u8)
    requires
        old(nes)@.wf(),
        spec_exec(old(nes)@, 0x8A) is Some,
    ensures
        Some((final(nes)@, r)) == spec_exec(old(nes)@, 0x8A),
        final(nes)@.wf(),
{
    proof {
        assert(decode(0x8A) == Some(Instr { mnemonic: Mnemonic::Txa, mode: Mode::Implied, cycles: 2, page_penalty: false }));
        reveal(spec_register_op);
    }
    nes.acc = nes.x;
    transfer_flags(nes, nes.acc);
    2
}

/// TXS, implied.
#[allow(non_snake_case)]
fn op9A(nes: &mut Nes) -> (r: u8)
    requires
        old(nes)@.wf(),
        spec_exec(old(nes)@, 0x9A) is Some,
    ensures
        Some((final(nes)@, r)) == spec_exec(old(nes)@, 0x9A),
        final(nes)@.wf(),
{
    proof {
        assert(decode(0x9A) == Some(Instr { mnemonic: Mnemonic::Txs, mode: Mode::Implied, cycles: 2, page_penalty: false }));
        reveal(spec_register_op);
    }
    nes.sp = nes.x ;
    2
}

/// TYA, implied.
#[allow(non_snake_case)]
fn op98(nes: &mut Nes) -> (r: u8)
    requires
        old(nes)@.wf(),
        spec_exec(old(nes)@, 0x98) is Some,
    ensures
        Some((final(nes)@, r)) == spec_exec(old(nes)@, 0x98),
        final(nes)@.wf(),
{
    proof {
        assert(decode(0x98) == Some(Instr { mnemonic: Mnemonic::Tya, mode: Mode::Implied, cycles: 2, page_penalty: false }));
        reveal(spec_register_op);
    }
    nes.acc = nes.y;
    transfer_flags(nes, nes.acc);
    2
}

/// NOP, zero page.
#[allow(non_snake_case)]
fn op04(nes: &mut Nes) -> (r: u8)
    requires
        old(nes)@.wf(),
        spec_exec(old(nes)@, 0x04) is Some,
    ensures
        Some((final(nes)@, r)) == spec_exec(old(nes)@, 0x04),
        final(nes)@.wf(),
{
    proof {
        assert(decode(0x04) == Some(Instr { mnemonic: Mnemonic::Nop, mode: Mode::ZeroPage, cycles: 3, page_penalty: false }));
        reveal(spec_nop);
    }
    nes.nextOp();
    3
}

/// NOP, zero page.
#[allow(non_snake_case)]
fn op44(nes: &mut Nes) -> (r: u8)
    requires
        old(nes)@.wf(),
        spec_exec(old(nes)@, 0x44) is Some,
    ensures
        Some((final(nes)@, r)) == spec_exec(old(nes)@, 0x44),
        final(nes)@.wf(),
{
    proof {
        assert(decode(0x44) == Some(Instr { mnemonic: Mnemonic::Nop, mode: Mode::ZeroPage, cycles: 3, page_penalty: false }));
        reveal(spec_nop);
    }
    nes.nextOp();
    3
}

/// NOP, zero page.
#[allow(non_snake_case)]
fn op64(nes: &mut Nes) -> (r: u8)
    requires
        old(nes)@.wf(),
        spec_exec(old(nes)@, 0x64) is Some,
    ensures
        Some((final(nes)@, r)) == spec_exec(old(nes)@, 0x64),
        final(nes)@.wf(),
{
    proof {
        assert(decode(0x64) == Some(Instr { mnemonic: Mnemonic::Nop, mode: Mode::ZeroPage, cycles: 3, page_penalty: false }));
        reveal(spec_nop);
    }
    nes.nextOp();
    3
}

/// NOP, absolute.
#[allow(non_snake_case)]
fn op0C(nes: &mut Nes) -> (r: u8)
    requires
        old(nes)@.wf(),
        spec_exec(old(nes)@, 0x0C) is Some,
    ensures
        Some((final(nes)@, r)) == spec_exec(old(nes)@, 0x0C),
        final(nes)@.wf(),
{
    proof {
        assert(decode(0x0C) == Some(Instr { mnemonic: Mnemonic::Nop, mode: Mode::Absolute, cycles: 4, page_penalty: false }));
        reveal(spec_nop);
    }
    nes.nextabs();
    assert(nes.pc == add16(old(nes).pc, 2));
    4
}

/// NOP, zero page,X.
#[allow(non_snake_case)]
fn op14(nes: &mut Nes) -> (r: u8)
    requires
        old(nes)@.wf(),
        spec_exec(old(nes)@, 0x14) is Some,
    ensures
        Some((final(nes)@, r)) == spec_exec(old(nes)@, 0x14),
        final(nes)@.wf(),
{
    proof {
        assert(decode(0x14) == Some(Instr { mnemonic: Mnemonic::Nop, mode: Mode::ZeroPageX, cycles: 4, page_penalty: false }));
        reveal(spec_nop);
    }
    nes.nextOp();
    4
}

/// NOP, zero page,X.
#[allow(non_snake_case)]
fn op34(nes: &mut Nes) -> (r: u8)
    requires
        old(nes)@.wf(),
        spec_exec(old(nes)@, 0x34) is Some,
    ensures
        Some((final(nes)@, r)) == spec_exec(old(nes)@, 0x34),
        final(nes)@.wf(),
{
    proof {
        assert(decode(0x34) == Some(Instr { mnemonic: Mnemonic::Nop, mode: Mode::ZeroPageX, cycles: 4, page_penalty: false }));
        reveal(spec_nop);
    }
    nes.nextOp();
    4
}

/// NOP, zero page,X.
#[allow(non_snake_case)]
fn op54(nes: &mut Nes) -> (r: u8)
    requires
        old(nes)@.wf(),
        spec_exec(old(nes)@, 0x54) is Some,
    ensures
        Some((final(nes)@, r)) == spec_exec(old(nes)@, 0x54),
        final(nes)@.wf(),
{
    proof {
        assert(decode(0x54) == Some(Instr { mnemonic: Mnemonic::Nop, mode: Mode::ZeroPageX, cycles: 4, page_penalty: false }));
        reveal(spec_nop);
    }
    nes.nextOp();
    4
}

/// NOP, zero page,X.
#[allow(non_snake_case)]
fn op74(nes: &mut Nes) -> (r: u8)
    requires
        old(nes)@.wf(),
        spec_exec(old(nes)@, 0x74) is Some,
    ensures
        Some((final(nes)@, r)) == spec_exec(old(nes)@, 0x74),
        final(nes)@.wf(),
{
    proof {
        assert(decode(0x74) == Some(Instr { mnemonic: Mnemonic::Nop, mode: Mode::ZeroPageX, cycles: 4, page_penalty: false }));
        reveal(spec_nop);
    }
    nes.nextOp();
    4
}

/// NOP, zero page,X.
#[allow(non_snake_case)]
fn opD4(nes: &mut Nes) -> (r: u8)
    requires
        old(nes)@.wf(),
        spec_exec(old(nes)@, 0xD4) is Some,
    ensures
        Some((final(nes)@, r)) == spec_exec(old(nes)@, 0xD4),
        final(nes)@.wf(),
{
    proof {
        assert(decode(0xD4) == Some(Instr { mnemonic: Mnemonic::Nop, mode: Mode::ZeroPageX, cycles: 4, page_penalty: false }));
        reveal(spec_nop);
    }
    nes.nextOp();
    4
}

/// NOP, zero page,X.
#[allow(non_snake_case)]
fn opF4(nes: &mut Nes) -> (r: u8)
    requires
        old(nes)@.wf(),
        spec_exec(old(nes)@, 0xF4) is Some,
    ensures
        Some((final(nes)@, r)) == spec_exec(old(nes)@, 0xF4),
        final(nes)@.wf(),
{
    proof {
        assert(decode(0xF4) == Some(Instr { mnemonic: Mnemonic::Nop, mode: Mode::ZeroPageX, cycles: 4, page_penalty: false }));
        reveal(spec_nop);
    }
    nes.nextOp();
    4
}

/// NOP, immediate.
#[allow(non_snake_case)]
fn op80(nes: &mut Nes) -> (r: u8)
    requires
        old(nes)@.wf(),
        spec_exec(old(nes)@, 0x80) is Some,
    ensures
        Some((final(nes)@, r)) == spec_exec(old(nes)@, 0x80),
        final(nes)@.wf(),
{
    proof {
        assert(decode(0x80) == Some(Instr { mnemonic: Mnemonic::Nop, mode: Mode::Immediate, cycles: 2, page_penalty: false }));
        reveal(spec_nop);
    }
    nes.nextOp();
    2
}

/// NOP, absolute,X.
#[allow(non_snake_case)]
fn op1C(nes: &mut Nes) -> (r: u8)
    requires
        old(nes)@.wf(),
        spec_exec(old(nes)@, 0x1C) is Some,
    ensures
        Some((final(nes)@, r)) == spec_exec(old(nes)@, 0x1C),
        final(nes)@.wf(),
{
    proof {
        assert(decode(0x1C) == Some(Instr { mnemonic: Mnemonic::Nop, mode: Mode::AbsoluteX, cycles: 5, page_penalty: false }));
        reveal(spec_nop);
    }
    nes.nextabs();
    assert(nes.pc == add16(old(nes).pc, 2));
    5
}

/// Executes opcode `op`, whose operand bytes follow PC, and returns the cycles it took
/// (see `spec_exec`).
pub fn run_op_code(nes: &mut Nes, op: u8) -> (r: u8)
    requires
        old(nes)@.wf(),
        spec_exec(old(nes)@, op) is Some,
    ensures
        Some((final(nes)@, r)) == spec_exec(old(nes)@, op),
        final(nes)@.wf(),
{
    let cycles = match op {
        0x69 => op69(nes),
        0x65 => op65(nes),
        0x75 => op75(nes),
        0x6D => op6D(nes),
        0x79 => op79(nes),
        0x61 => op61(nes),
        0x71 => op71(nes),
        0x29 => op29(nes),
        0x25 => op25(nes),
        0x35 => op35(nes),
        0x2D => op2D(nes),
        0x3D => op3D(nes),
        0x39 => op39(nes),
        0x21 => op21(nes),
        0x31 => op31(nes),
        0x0A => op0A(nes),
        0x06 => op06(nes),
        0x16 => op16(nes),
        0x0E => op0E(nes),
        0x1E => op1E(nes),
        0x90 => op90(nes),
        0xB0 => opB0(nes),
        0xF0 => opF0(nes),
        0x24 => op24(nes),
        0x2C => op2C(nes),
        0x30 => op30(nes),
        0xD0 => opD0(nes),
        0x10 => op10(nes),
        0x00 => op00(nes),
        0x50 => op50(nes),
        0x70 => op70(nes),
        0x18 => op18(nes),
        0xD8 => opD8(nes),
        0x58 => op58(nes),
        0xB8 => opB8(nes),
        0xC9 => opC9(nes),
        0xC5 => opC5(nes),
        0xD5 => opD5(nes),
        0xCD => opCD(nes),
        0xDD => opDD(nes),
        0xD9 => opD9(nes),
        0xC1 => opC1(nes),
        0xD1 => opD1(nes),
        0xE0 => opE0(nes),
        0xE4 => opE4(nes),
        0xEC => opEC(nes),
        0xC0 => opC0(nes),
        0xC4 => opC4(nes),
        0xCC => opCC(nes),
        0xC6 => opC6(nes),
        0xD6 => opD6(nes),
        0xCE => opCE(nes),
        0xDE => opDE(nes),
        0xCA => opCA(nes),
        0x88 => op88(nes),
        0x49 => op49(nes),
        0x45 => op45(nes),
        0x55 => op55(nes),
        0x4D => op4D(nes),
        0x5D => op5D(nes),
        0x59 => op59(nes),
        0x41 => op41(nes),
        0x51 => op51(nes),
        0xE6 => opE6(nes),
        0xF6 => opF6(nes),
        0xEE => opEE(nes),
        0xFE => opFE(nes),
        0xE8 => opE8(nes),
        0xC8 => opC8(nes),
        0x4C => op4C(nes),
        0x6C => op6C(nes),
        0x20 => op20(nes),
        0xA9 => opA9(nes),
        0xA5 => opA5(nes),
        0xB5 => opB5(nes),
        0xAD => opAD(nes),
        0xBD => opBD(nes),
        0xB9 => opB9(nes),
        0xA1 => opA1(nes),
        0xB1 => opB1(nes),
        0xA2 => opA2(nes),
        0xA6 => opA6(nes),
        0xB6 => opB6(nes),
        0xAE => opAE(nes),
        0xBE => opBE(nes),
        0xA0 => opA0(nes),
        0xA4 => opA4(nes),
        0xB4 => opB4(nes),
        0xAC => opAC(nes),
        0xBC => opBC(nes),
        0x4A => op4A(nes),
        0x46 => op46(nes),
        0x56 => op56(nes),
        0x4E => op4E(nes),
        0x5E => op5E(nes),
        0xEA => opEA(nes),
        0x09 => op09(nes),
        0x05 => op05(nes),
        0x15 => op15(nes),
        0x0D => op0D(nes),
        0x1D => op1D(nes),
        0x19 => op19(nes),
        0x01 => op01(nes),
        0x11 => op11(nes),
        0x48 => op48(nes),
        0x08 => op08(nes),
        0x68 => op68(nes),
        0x28 => op28(nes),
        0x2A => op2A(nes),
        0x26 => op26(nes),
        0x36 => op36(nes),
        0x2E => op2E(nes),
        0x3E => op3E(nes),
        0x6A => op6A(nes),
        0x66 => op66(nes),
        0x76 => op76(nes),
        0x6E => op6E(nes),
        0x7E => op7E(nes),
        0x40 => op40(nes),
        0x60 => op60(nes),
        0xE9 => opE9(nes),
        0xE5 => opE5(nes),
        0xF5 => opF5(nes),
        0xED => opED(nes),
        0xFD => opFD(nes),
        0xF9 => opF9(nes),
        0xE1 => opE1(nes),
        0xF1 => opF1(nes),
        0x38 => op38(nes),
        0xF8 => opF8(nes),
        0x78 => op78(nes),
        0x85 => op85(nes),
        0x95 => op95(nes),
        0x8D => op8D(nes),
        0x9D => op9D(nes),
        0x99 => op99(nes),
        0x81 => op81(nes),
        0x91 => op91(nes),
        0x86 => op86(nes),
        0x96 => op96(nes),
        0x8E => op8E(nes),
        0x84 => op84(nes),
        0x94 => op94(nes),
        0x8C => op8C(nes),
        0xAA => opAA(nes),
        0xA8 => opA8(nes),
        0xBA => opBA(nes),
        0x8A => op8A(nes),
        0x9A => op9A(nes),
        0x98 => op98(nes),
        0x7D => op7D(nes),
        0x04 => op04(nes),
        0x44 => op44(nes),
        0x64 => op64(nes),
        0x0C => op0C(nes),
        0x14 => op14(nes),
        0x34 => op34(nes),
        0x54 => op54(nes),
        0x74 => op74(nes),
        0xD4 => opD4(nes),
        0xF4 => opF4(nes),
        0x1A => opEA(nes),
        0x3A => opEA(nes),
        0x5A => opEA(nes),
        0x7A => opEA(nes),
        0xDA => opEA(nes),
        0xFA => opEA(nes),
        0x80 => op80(nes),
        0x82 => op80(nes),
        0x89 => op80(nes),
        0xC2 => op80(nes),
        0xE2 => op80(nes),
        0x1C => op1C(nes),
        0x3C => op1C(nes),
        0x5C => op1C(nes),
        0x7C => op1C(nes),
        0xDC => op1C(nes),
        0xFC => op1C(nes),
        _ => 0,
    };
    cycles
}

} // verus!
