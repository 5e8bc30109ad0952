use vstd::prelude::*;
use crate::emu::{Nes, NesModel, spec_read, spec_write, spec_dma, lemma_dma_prefix, spec_fetch_abs, spec_fetch, add16, add8};
use crate::ppu::{PPU, PpuModel, Mirroring, spec_ppu_target, spec_address, spec_address_add, spec_increment_step};
use crate::helper::{endian, spec_endian, spec_page_crossed};
use crate::isa::{
    Instr, Mode, Mnemonic, decode, decode_op, spec_execute, spec_execute_read, spec_execute_modify,
    spec_execute_store, spec_step, spec_operand_address, spec_modify_at, spec_modify, spec_indirect,
    spec_control_op, is_read_op, is_modify_op, spec_absolute_indexed, spec_indirect_x,
    spec_indirect_y, spec_read_zp_pointer,
};

verus! {

/// Whether an access through PPUDATA at PPU address `address` has meaning under `mirroring`.
fn ppu_target_ok(mirroring: Mirroring, address: u16) -> (r: bool)
    ensures
        r == (spec_ppu_target(mirroring, address) is Some),
{
    address < 0x2000 || (address < 0x3f00 && mirroring != Mirroring::NotSet) || (address >= 0x3f00
        && address < 0x4000)
}

/// The PPU address that PPUDATA accesses next.
fn ppudata_address(p: &PPU) -> (r: u16)
    ensures
        r == spec_address(p.address_register),
{
    (p.address_register.hi_byte as u16) * 256 + (p.address_register.lo_byte as u16)
}

/// An OAM DMA from a page of PPU registers (0x20..=0x3F) has no meaning: its first read is of
/// PPUCTRL. From any other page every read has one.
proof fn lemma_dma_defined(s: NesModel, page: u8, shift: u8)
    ensures
        (spec_dma(s, page, shift, 255) is Some) == (page < 0x20 || page >= 0x40),
{
    if page < 0x20 || page >= 0x40 {
        lemma_dma_reads_defined(s, page, shift, 255);
    } else {
        reveal(spec_read);
        assert(spec_dma(s, page, shift, 0) == Some((s, Seq::new(256, |i: int| 0u8))));
        assert(spec_dma(s, page, shift, 1) is None);
        if spec_dma(s, page, shift, 255) is Some {
            lemma_dma_prefix(s, page, shift, 1, 255);
        }
    }
}

proof fn lemma_dma_reads_defined(s: NesModel, page: u8, shift: u8, n: nat)
    requires
        page < 0x20 || page >= 0x40,
        n <= 255,
    ensures
        spec_dma(s, page, shift, n) is Some,
    decreases n,
{
    reveal(spec_read);
    if n > 0 {
        lemma_dma_reads_defined(s, page, shift, (n - 1) as nat);
    }
}

/// Whether a CPU read of `address` has meaning while the PPU is `p`.
fn read_defined(p: &PPU, address: u16) -> (r: bool)
    ensures
        forall|s: NesModel| s.ppu == p@ ==> r == (#[trigger] spec_read(s, address) is Some),
{
    proof {
        reveal(spec_read);
    }
    if address >= 0x2000 && address <= 0x3fff {
        let reg = (address - 0x2000) % 8;
        if reg == 2 || reg == 4 {
            true
        } else if reg == 7 {
            ppu_target_ok(p.mirroring, ppudata_address(p))
        } else {
            false
        }
    } else {
        true
    }
}

/// Whether a CPU write of `value` to `address` has meaning while the PPU is `p`.
fn write_defined(p: &PPU, address: u16, value: u8) -> (r: bool)
    ensures
        forall|s: NesModel| s.ppu == p@ ==> r == (#[trigger] spec_write(s, address, value) is Some),
{
    proof {
        reveal(spec_write);
        assert forall|s: NesModel| s.ppu == p@ implies (#[trigger] spec_dma(s, value, s.ppu.oamaddr, 255) is Some) == (value < 0x20 || value >= 0x40) by {
            lemma_dma_defined(s, value, s.ppu.oamaddr);
        }
    }
    if address <= 0x1fff {
        true
    } else if address <= 0x3fff {
        let reg = (address - 0x2000) % 8;
        if reg == 2 {
            false
        } else if reg == 7 {
            ppu_target_ok(p.mirroring, ppudata_address(p))
        } else {
            true
        }
    } else if address == 0x4014 {
        value < 0x20 || value >= 0x40
    } else {
        address <= 0x401f
    }
}

/// Advancing the address register moves its address on, modulo 2^16.
proof fn lemma_address_add(a: crate::ppu::AddressRegister, v: u8)
    ensures
        spec_address(spec_address_add(a, v)) == (spec_address(a) as int + v as int) % 0x10000,
{
}

/// A modify operation on memory at 0x4014 reads 0 there and writes back a byte that is no page
/// of PPU registers.
proof fn lemma_modify_zero(m: Mnemonic, p: u8)
    ensures
        spec_modify(m, p, 0).0 < 0x20 || spec_modify(m, p, 0).0 >= 0x40,
{
}

/// When a read-modify-write of the byte at `address` has meaning, in terms of the PPU `p`: on
/// RAM, on OAMDATA, on PPUDATA where both the address read and the next one have meaning, and on
/// the I/O registers 0x4000..=0x401F.
pub open spec fn modify_has_meaning(p: PpuModel, address: u16) -> bool {
    if address <= 0x1fff {
        true
    } else if address <= 0x3fff {
        let reg = (address - 0x2000) % 8;
        let a = spec_address(p.address_register);
        reg == 4 || (reg == 7 && spec_ppu_target(p.mirroring, a) is Some && spec_ppu_target(
            p.mirroring,
            ((a as int + spec_increment_step(p.ppuctrl) as int) % 0x10000) as u16,
        ) is Some)
    } else {
        address <= 0x401f
    }
}

proof fn lemma_modify_at_defined(m: Mnemonic, s: NesModel, address: u16)
    ensures
        (spec_modify_at(m, s, address) is Some) == modify_has_meaning(s.ppu, address),
{
    if address <= 0x1fff {
        assert(spec_modify_at(m, s, address) is Some) by {
            reveal(spec_read);
            reveal(spec_write);
        }
    } else if address <= 0x3fff {
        let reg = (address - 0x2000) % 8;
        if reg == 7 {
            lemma_address_add(s.ppu.address_register, spec_increment_step(s.ppu.ppuctrl));
            assert((spec_modify_at(m, s, address) is Some) == modify_has_meaning(s.ppu, address)) by {
                reveal(spec_read);
                reveal(spec_write);
            }
        } else {
            assert((spec_modify_at(m, s, address) is Some) == modify_has_meaning(s.ppu, address)) by {
                reveal(spec_read);
                reveal(spec_write);
            }
        }
    } else if address == 0x4014 {
        lemma_modify_zero(m, s.p);
        lemma_dma_defined(NesModel { p: spec_modify(m, s.p, 0).1, ..s }, spec_modify(m, s.p, 0).0, s.ppu.oamaddr);
        assert(spec_modify_at(m, s, address) is Some) by {
            reveal(spec_read);
            reveal(spec_write);
        }
    } else {
        assert((spec_modify_at(m, s, address) is Some) == modify_has_meaning(s.ppu, address)) by {
            reveal(spec_read);
            reveal(spec_write);
        }
    }
}

/// Whether a read-modify-write of the byte at `address` has meaning while the PPU is `p`.
fn modify_defined(p: &PPU, address: u16) -> (r: bool)
    ensures
        r == modify_has_meaning(p@, address),
{
    if address <= 0x1fff {
        true
    } else if address <= 0x3fff {
        let reg = (address - 0x2000) % 8;
        if reg == 4 {
            true
        } else if reg == 7 {
            let a = ppudata_address(p);
            let step: u16 = if p.ppuctrl & 0b100 != 0 { 32 } else { 1 };
            ppu_target_ok(p.mirroring, a) && ppu_target_ok(p.mirroring, a.wrapping_add(step))
        } else {
            false
        }
    } else {
        address <= 0x401f
    }
}

/// The modes whose effective address takes no read that could lack meaning.
pub open spec fn plain_address_mode(mode: Mode) -> bool {
    mode == Mode::ZeroPage || mode == Mode::ZeroPageX || mode == Mode::ZeroPageY || mode
        == Mode::Absolute || mode == Mode::AbsoluteX || mode == Mode::AbsoluteY || mode
        == Mode::IndirectX || mode == Mode::IndirectY
}

/// The modes that each kind of instruction of the opcode table uses.
proof fn lemma_decode_modes(op: u8)
    requires
        decode(op) is Some,
    ensures
        ({
            let i = decode(op).unwrap();
            &&& is_read_op(i.mnemonic) ==> i.mode == Mode::Immediate || plain_address_mode(i.mode)
            &&& is_modify_op(i.mnemonic) ==> i.mode == Mode::Accumulator || plain_address_mode(i.mode)
            &&& (i.mnemonic == Mnemonic::Sta || i.mnemonic == Mnemonic::Stx || i.mnemonic == Mnemonic::Sty)
                ==> plain_address_mode(i.mode)
            &&& i.mnemonic == Mnemonic::Jmp ==> i.mode == Mode::Absolute || i.mode == Mode::Indirect
        }),
{
}

/// A read in the zero page returns the byte of RAM there and changes nothing.
proof fn lemma_zero_page_read(s: NesModel, z: u8)
    ensures
        spec_read(s, z as u16) == Some((s, s.memory[z as int])),
{
    reveal(spec_read);
}

proof fn lemma_wrapping_add8(a: u8, b: u8)
    ensures
        a.wrapping_add(b) == add8(a, b as int),
{
}

/// The pointer in the zero page at `z`: two reads of RAM that change nothing.
proof fn lemma_zp_pointer(s: NesModel, z: u8)
    ensures
        spec_read_zp_pointer(s, z) == Some((s, spec_endian(s.memory[z as int], s.memory[z.wrapping_add(1) as int]))),
{
    lemma_zero_page_read(s, z);
    lemma_zero_page_read(s, z.wrapping_add(1));
    lemma_wrapping_add8(z, 1);
}

/// Indexed indirect mode: the pointer at the operand byte plus X.
proof fn lemma_indirect_x(s: NesModel)
    ensures
        ({
            let (s1, b) = spec_fetch(s);
            let z = b.wrapping_add(s.x);
            spec_indirect_x(s) == Some((s1, spec_endian(s.memory[z as int], s.memory[z.wrapping_add(1) as int])))
        }),
{
    let (s1, b) = spec_fetch(s);
    lemma_wrapping_add8(b, s.x);
    lemma_zp_pointer(s1, b.wrapping_add(s.x));
}

/// Indirect indexed mode: the pointer at the operand byte, plus Y.
proof fn lemma_indirect_y(s: NesModel)
    ensures
        ({
            let (s1, z) = spec_fetch(s);
            let a = spec_endian(s.memory[z as int], s.memory[z.wrapping_add(1) as int]);
            &&& spec_indirect_y(s) is Some
            &&& spec_indirect_y(s).unwrap().1 == add16(a, s.y as int)
            &&& spec_indirect_y(s).unwrap().0 == NesModel { page_cross: spec_indirect_y(s).unwrap().0.page_cross, ..s1 }
        }),
{
    let (s1, z) = spec_fetch(s);
    lemma_zp_pointer(s1, z);
}

proof fn lemma_wrapping_add16(a: u16, b: u16)
    ensures
        a.wrapping_add(b) == add16(a, b as int),
{
}

/// Absolute indexed mode adds the index to the operand word and keeps the PPU and registers.
proof fn lemma_absolute_indexed(s: NesModel, index: u8)
    ensures
        spec_absolute_indexed(s, index).1 == add16(spec_fetch_abs(s).1, index as int),
        spec_absolute_indexed(s, index).0.ppu == s.ppu,
        spec_absolute_indexed(s, index).0.acc == s.acc,
        spec_absolute_indexed(s, index).0.x == s.x,
        spec_absolute_indexed(s, index).0.y == s.y,
{
}

/// `r` is the effective address that `mode` finds with the operand bytes at `pc1`, and finding it
/// keeps the PPU and the registers A, X and Y.
pub open spec fn address_found(s: NesModel, pc1: u16, mode: Mode, r: u16) -> bool {
    let o = spec_operand_address(NesModel { pc: pc1, ..s }, mode);
    &&& o is Some
    &&& o.unwrap().1 == r
    &&& o.unwrap().0.ppu == s.ppu
    &&& o.unwrap().0.acc == s.acc
    &&& o.unwrap().0.x == s.x
    &&& o.unwrap().0.y == s.y
}

impl Nes {
    #[verifier::spinoff_prover]
    #[verifier::rlimit(30)]
    fn zero_page_address(&self, pc1: u16, mode: Mode) -> (r: u16)
        requires
            self@.wf(),
            mode == Mode::ZeroPage || mode == Mode::ZeroPageX || mode == Mode::ZeroPageY,
        ensures
            address_found(self@, pc1, mode, r),
    {
        let b0 = self.memory[pc1 as usize];
        if mode == Mode::ZeroPage {
            b0 as u16
        } else {
            let index = if mode == Mode::ZeroPageX { self.x } else { self.y };
            let z = b0.wrapping_add(index);
            proof {
                lemma_wrapping_add8(b0, index);
            }
            z as u16
        }
    }

    #[verifier::spinoff_prover]
    #[verifier::rlimit(30)]
    fn absolute_address(&self, pc1: u16, mode: Mode) -> (r: u16)
        requires
            self@.wf(),
            mode == Mode::Absolute || mode == Mode::AbsoluteX || mode == Mode::AbsoluteY,
        ensures
            address_found(self@, pc1, mode, r),
    {
        let ghost s1 = NesModel { pc: pc1, ..self@ };
        let a = self.word_at(pc1);
        if mode == Mode::Absolute {
            a
        } else {
            let index = if mode == Mode::AbsoluteX { self.x } else { self.y };
            let r = a.wrapping_add(index as u16);
            proof {
                lemma_absolute_indexed(s1, index);
                lemma_wrapping_add16(a, index as u16);
            }
            r
        }
    }

    #[verifier::spinoff_prover]
    #[verifier::rlimit(30)]
    fn indirect_x_address(&self, pc1: u16) -> (r: u16)
        requires
            self@.wf(),
        ensures
            address_found(self@, pc1, Mode::IndirectX, r),
    {
        let ghost s1 = NesModel { pc: pc1, ..self@ };
        let z = self.memory[pc1 as usize].wrapping_add(self.x);
        let r = endian(self.memory[z as usize], self.memory[z.wrapping_add(1) as usize]);
        proof {
            lemma_indirect_x(s1);
        }
        r
    }

    #[verifier::spinoff_prover]
    #[verifier::rlimit(30)]
    fn indirect_y_address(&self, pc1: u16) -> (r: u16)
        requires
            self@.wf(),
        ensures
            address_found(self@, pc1, Mode::IndirectY, r),
    {
        let ghost s1 = NesModel { pc: pc1, ..self@ };
        let z = self.memory[pc1 as usize];
        let a = endian(self.memory[z as usize], self.memory[z.wrapping_add(1) as usize]);
        let r = a.wrapping_add(self.y as u16);
        proof {
            lemma_indirect_y(s1);
            lemma_wrapping_add16(a, self.y as u16);
        }
        r
    }

    /// The effective address of an operand in a mode of `plain_address_mode`, the operand bytes
    /// starting at `pc1`.
    fn operand_address(&self, pc1: u16, mode: Mode) -> (r: u16)
        requires
            self@.wf(),
            plain_address_mode(mode),
        ensures
            address_found(self@, pc1, mode, r),
    {
        if mode == Mode::ZeroPage || mode == Mode::ZeroPageX || mode == Mode::ZeroPageY {
            self.zero_page_address(pc1, mode)
        } else if mode == Mode::Absolute || mode == Mode::AbsoluteX || mode == Mode::AbsoluteY {
            self.absolute_address(pc1, mode)
        } else if mode == Mode::IndirectX {
            self.indirect_x_address(pc1)
        } else {
            self.indirect_y_address(pc1)
        }
    }
}

/// The second byte of an indirect pointer lies on the page of its first byte.
proof fn lemma_indirect_second_address(a: u16)
    ensures
        ({
            let off: int = if spec_page_crossed(a, 1) { 0x100 } else { 0 };
            let a2 = add16(a, 1 - off);
            &&& a2 / 256 == a / 256
            &&& 0x2000 <= a <= 0x3fff ==> (a2 - 0x2000) % 8 == ((a - 0x2000) % 8 + 1) % 8
        }),
{
    if a % 256 == 255 {
        assert(spec_page_crossed(a, 1));
    } else {
        assert(!spec_page_crossed(a, 1));
    }
}

/// An indirect jump has meaning exactly when its pointer lies outside the PPU registers: there
/// a read of one of the three readable registers is followed by one of a register that cannot
/// be read.
proof fn lemma_indirect_defined(s: NesModel)
    ensures
        (spec_indirect(s) is Some) == (spec_fetch_abs(s).1 < 0x2000 || spec_fetch_abs(s).1 >= 0x4000),
{
    lemma_indirect_second_address(spec_fetch_abs(s).1);
    reveal(spec_read);
}

fn is_read_mnemonic(m: Mnemonic) -> (r: bool)
    ensures
        r == is_read_op(m),
{
    match m {
        Mnemonic::Adc | Mnemonic::And | Mnemonic::Bit | Mnemonic::Cmp | Mnemonic::Cpx
        | Mnemonic::Cpy | Mnemonic::Eor | Mnemonic::Lda | Mnemonic::Ldx | Mnemonic::Ldy
        | Mnemonic::Ora | Mnemonic::Sbc => true,
        _ => false,
    }
}

fn is_modify_mnemonic(m: Mnemonic) -> (r: bool)
    ensures
        r == is_modify_op(m),
{
    match m {
        Mnemonic::Asl | Mnemonic::Lsr | Mnemonic::Rol | Mnemonic::Ror | Mnemonic::Inc
        | Mnemonic::Dec => true,
        _ => false,
    }
}

impl Nes {
    #[verifier::rlimit(30)]
    fn can_read_op(&self, pc1: u16, i: Instr) -> (r: bool)
        requires
            self@.wf(),
            is_read_op(i.mnemonic),
            i.mode == Mode::Immediate || plain_address_mode(i.mode),
        ensures
            r == (spec_execute(NesModel { pc: pc1, ..self@ }, i) is Some),
    {
        proof {
            reveal(spec_execute_read);
        }
        if i.mode == Mode::Immediate {
            true
        } else {
            let a = self.operand_address(pc1, i.mode);
            read_defined(&self.ppu, a)
        }
    }

    #[verifier::rlimit(30)]
    fn can_modify_op(&self, pc1: u16, i: Instr) -> (r: bool)
        requires
            self@.wf(),
            is_modify_op(i.mnemonic),
            i.mode == Mode::Accumulator || plain_address_mode(i.mode),
        ensures
            r == (spec_execute(NesModel { pc: pc1, ..self@ }, i) is Some),
    {
        let ghost s1 = NesModel { pc: pc1, ..self@ };
        proof {
            reveal(spec_execute_modify);
        }
        if i.mode == Mode::Accumulator {
            true
        } else {
            let a = self.operand_address(pc1, i.mode);
            proof {
                lemma_modify_at_defined(i.mnemonic, spec_operand_address(s1, i.mode).unwrap().0, a);
            }
            modify_defined(&self.ppu, a)
        }
    }

    #[verifier::rlimit(30)]
    fn can_store_op(&self, pc1: u16, i: Instr) -> (r: bool)
        requires
            self@.wf(),
            i.mnemonic == Mnemonic::Sta || i.mnemonic == Mnemonic::Stx || i.mnemonic == Mnemonic::Sty,
            plain_address_mode(i.mode),
        ensures
            r == (spec_execute(NesModel { pc: pc1, ..self@ }, i) is Some),
    {
        proof {
            reveal(spec_execute_store);
        }
        let a = self.operand_address(pc1, i.mode);
        let v = if i.mnemonic == Mnemonic::Sta {
            self.acc
        } else if i.mnemonic == Mnemonic::Stx {
            self.x
        } else {
            self.y
        };
        write_defined(&self.ppu, a, v)
    }

    #[verifier::rlimit(30)]
    fn can_jump_indirect(&self, pc1: u16, i: Instr) -> (r: bool)
        requires
            self@.wf(),
            i.mnemonic == Mnemonic::Jmp,
            i.mode == Mode::Indirect,
        ensures
            r == (spec_execute(NesModel { pc: pc1, ..self@ }, i) is Some),
    {
        let ghost s1 = NesModel { pc: pc1, ..self@ };
        proof {
            reveal(spec_control_op);
            lemma_indirect_defined(s1);
        }
        let a = self.word_at(pc1);
        a < 0x2000 || a >= 0x4000
    }

    /// Whether instruction `i` (of opcode `op`), its operand bytes starting at `pc1`, has meaning.
    #[verifier::rlimit(30)]
    fn can_execute(&self, pc1: u16, op: u8, i: Instr) -> (r: bool)
        requires
            self@.wf(),
            decode(op) == Some(i),
        ensures
            r == (spec_execute(NesModel { pc: pc1, ..self@ }, i) is Some),
    {
        proof {
            lemma_decode_modes(op);
        }
        let m = i.mnemonic;
        if is_read_mnemonic(m) {
            self.can_read_op(pc1, i)
        } else if is_modify_mnemonic(m) {
            self.can_modify_op(pc1, i)
        } else if m == Mnemonic::Sta || m == Mnemonic::Stx || m == Mnemonic::Sty {
            self.can_store_op(pc1, i)
        } else if m == Mnemonic::Jmp && i.mode == Mode::Indirect {
            self.can_jump_indirect(pc1, i)
        } else {
            proof {
                reveal(spec_control_op);
            }
            true
        }
    }

    /// Whether the instruction at PC has meaning: its opcode is one the emulator knows, and each
    /// memory access it makes has one (see `spec_step`). `step` may be called exactly then.
    pub fn can_step(&self) -> (r: bool)
        requires
            self@.wf(),
        ensures
            r == (spec_step(self@) is Some),
    {
        let op = self.memory[self.pc as usize];
        let pc1 = self.pc.wrapping_add(1);
        match decode_op(op) {
            Some(i) => self.can_execute(pc1, op, i),
            None => false,
        }
    }
}

impl Nes {
    /// The word at `pc1` (little-endian), as a fetch of an absolute operand gives it.
    fn word_at(&self, pc1: u16) -> (r: u16)
        requires
            self@.wf(),
        ensures
            r == spec_fetch_abs(NesModel { pc: pc1, ..self@ }).1,
    {
        let b0 = self.memory[pc1 as usize];
        let pc2 = pc1.wrapping_add(1);
        let b1 = self.memory[pc2 as usize];
        endian(b0, b1)
    }
}

} // verus!
