use vstd::prelude::*;
use crate::helper::{endian, unendian, spec_endian};
use crate::ppu::{
    PPU, PpuModel, spec_read_ppustatus, spec_read_ppudata, spec_write_ppudata, spec_write_oamaddr,
    spec_write_oamdata, spec_address_write, spec_scroll_set,
};
use crate::controller::{Controller, spec_controller_read, spec_controller_write};
use crate::isa::spec_step;
use crate::opcodes::run_op_code;

verus! {

/// Carry flag.
pub const FLAG_C: u8 = 0b1;
/// Zero flag.
pub const FLAG_Z: u8 = 0b10;
/// Interrupt-disable flag.
pub const FLAG_I: u8 = 0b100;
/// Decimal flag.
pub const FLAG_D: u8 = 0b1000;
/// Break flag.
pub const FLAG_B: u8 = 0b10000;
/// Overflow flag.
pub const FLAG_V: u8 = 0b1000000;
/// Negative flag.
pub const FLAG_N: u8 = 0b10000000;

/// The console: the CPU's registers and 64 KiB address space, the PPU, and the first
/// controller.
pub struct Nes {
    pub memory: [u8; 0x10000],
    pub pc: u16,
    pub sp: u8,
    pub p: u8,
    pub acc: u8,
    pub x: u8,
    pub y: u8,
    pub page_cross: u8,
    pub ppu: PPU,
    pub controller_1: Controller,
}

/// The abstract state of the console, with memory as a sequence and the PPU by its model.
pub struct NesModel {
    pub memory: Seq<u8>,
    pub pc: u16,
    pub sp: u8,
    pub p: u8,
    pub acc: u8,
    pub x: u8,
    pub y: u8,
    pub page_cross: u8,
    pub ppu: PpuModel,
    pub controller_1: Controller,
}

impl View for Nes {
    type V = NesModel;

    open spec fn view(&self) -> NesModel {
        NesModel {
            memory: self.memory@,
            pc: self.pc,
            sp: self.sp,
            p: self.p,
            acc: self.acc,
            x: self.x,
            y: self.y,
            page_cross: self.page_cross,
            ppu: self.ppu@,
            controller_1: self.controller_1,
        }
    }
}

impl NesModel {
    /// Memory holds 0x10000 bytes and the PPU is well formed.
    pub open spec fn wf(self) -> bool {
        self.memory.len() == 0x10000 && self.ppu.wf()
    }
}

/// Two states with the same CPU registers and the same memory (what a read leaves as it was).
pub open spec fn same_cpu(s1: NesModel, s2: NesModel) -> bool {
    &&& s1.memory == s2.memory
    &&& s1.pc == s2.pc
    &&& s1.sp == s2.sp
    &&& s1.p == s2.p
    &&& s1.acc == s2.acc
    &&& s1.x == s2.x
    &&& s1.y == s2.y
    &&& s1.page_cross == s2.page_cross
}

/// `p` with the flag bits `bit` set when `on` holds and cleared otherwise.
pub open spec fn with_flag(p: u8, bit: u8, on: bool) -> u8 {
    if on { p | bit } else { p & !bit }
}

/// Whether flag `bit` is set in `p`.
pub open spec fn flag(p: u8, bit: u8) -> bool {
    p & bit != 0
}

/// `p` with the zero and negative flags set from the value `v`.
pub open spec fn spec_nz(p: u8, v: u8) -> u8 {
    with_flag(with_flag(p, FLAG_Z, v == 0), FLAG_N, v >= 128)
}

/// `n` added to a 16-bit value, modulo 2^16.
pub open spec fn add16(a: u16, n: int) -> u16 {
    ((a as int + n) % 0x10000) as u16
}

/// `n` added to a byte, modulo 256.
pub open spec fn add8(a: u8, n: int) -> u8 {
    ((a as int + n) % 256) as u8
}

/// A CPU read of a PPU or controller register at 0x2000..=0x2007 or 0x4016; `None` for
/// registers that cannot be read.
pub open spec fn spec_read_register(s: NesModel, address: u16) -> Option<(NesModel, u8)> {
    if address == 0x2002 {
        let (p, v) = spec_read_ppustatus(s.ppu);
        Some((NesModel { ppu: p, ..s }, v))
    } else if address == 0x2004 {
        Some((s, s.ppu.oamdata))
    } else if address == 0x2007 {
        match spec_read_ppudata(s.ppu) {
            Some((p, v)) => Some((NesModel { ppu: p, ..s }, v)),
            None => None,
        }
    } else {
        None
    }
}

/// A CPU read of `address` and what it returns: internal RAM (mirrored every 0x800 bytes up to
/// 0x1FFF), PPU registers (mirrored every 8 bytes up to 0x3FFF), the controller at 0x4016, 0 for
/// the rest of 0x4000..=0x401F, and memory from 0x4020 on. `None` for a read that has no meaning
/// (a write-only PPU register, or PPUDATA where `spec_read_ppudata` has none).
#[verifier::opaque]
pub open spec fn spec_read(s: NesModel, address: u16) -> Option<(NesModel, u8)> {
    if address <= 0x7ff {
        Some((s, s.memory[address as int]))
    } else if address <= 0x1fff {
        Some((s, s.memory[address as int % 0x800]))
    } else if address <= 0x3fff {
        spec_read_register(s, (0x2000 + (address - 0x2000) % 8) as u16)
    } else if address == 0x4016 {
        let (c, v) = spec_controller_read(s.controller_1);
        Some((NesModel { controller_1: c, ..s }, v))
    } else if address <= 0x401f {
        Some((s, 0))
    } else {
        Some((s, s.memory[address as int]))
    }
}

/// A CPU write to a PPU register at 0x2000..=0x2007; `None` for PPUSTATUS, which cannot be
/// written, and for PPUDATA where `spec_write_ppudata` has no meaning.
pub open spec fn spec_write_register(s: NesModel, address: u16, value: u8) -> Option<NesModel> {
    let p = s.ppu;
    if address == 0x2000 {
        Some(NesModel { ppu: PpuModel { ppuctrl: value, ..p }, ..s })
    } else if address == 0x2001 {
        Some(NesModel { ppu: PpuModel { ppumask: value, ..p }, ..s })
    } else if address == 0x2003 {
        Some(NesModel { ppu: spec_write_oamaddr(p, value), ..s })
    } else if address == 0x2004 {
        Some(NesModel { ppu: spec_write_oamdata(p, value), ..s })
    } else if address == 0x2005 {
        Some(NesModel { ppu: PpuModel { scroll_register: spec_scroll_set(p.scroll_register, value), ..p }, ..s })
    } else if address == 0x2006 {
        Some(NesModel { ppu: PpuModel { address_register: spec_address_write(p.address_register, value), ..p }, ..s })
    } else if address == 0x2007 {
        match spec_write_ppudata(p, value) {
            Some(p1) => Some(NesModel { ppu: p1, ..s }),
            None => None,
        }
    } else {
        None
    }
}

/// The first `n` reads of an OAM DMA from page `page`: the state after them, and the 256-byte
/// buffer in which read `i` landed at index `(i + shift) % 256`, the rest being 0.
pub open spec fn spec_dma(s: NesModel, page: u8, shift: u8, n: nat) -> Option<(NesModel, Seq<u8>)>
    decreases n,
{
    if n == 0 {
        Some((s, Seq::new(256, |i: int| 0u8)))
    } else {
        match spec_dma(s, page, shift, (n - 1) as nat) {
            Some((s1, buf)) => {
                match spec_read(s1, (page as int * 256 + (n - 1)) as u16) {
                    Some((s2, b)) => Some((s2, buf.update((n - 1 + shift) % 256, b))),
                    None => None,
                }
            },
            None => None,
        }
    }
}

/// A CPU write of `value` to `address`: internal RAM (mirrored up to 0x1FFF), PPU registers
/// (mirrored up to 0x3FFF), OAM DMA at 0x4014 (bytes 0..0xFF of page `value` read in turn into
/// OAM from the OAM address on; the 256th byte is 0), the controller at 0x4016, and nothing for
/// the rest of 0x4000..=0x401F. `None` for a write that has no meaning: PPUSTATUS, PPUDATA
/// where it has none, a DMA that reads where reading has none, and 0x4020 on.
#[verifier::opaque]
pub open spec fn spec_write(s: NesModel, address: u16, value: u8) -> Option<NesModel> {
    if address <= 0x7ff {
        Some(NesModel { memory: s.memory.update(address as int, value), ..s })
    } else if address <= 0x1fff {
        Some(NesModel { memory: s.memory.update(address as int % 0x800, value), ..s })
    } else if address <= 0x3fff {
        spec_write_register(s, (0x2000 + (address - 0x2000) % 8) as u16, value)
    } else if address == 0x4014 {
        match spec_dma(s, value, s.ppu.oamaddr, 255) {
            Some((s1, buf)) => Some(NesModel { ppu: PpuModel { oamdma: value, oam: buf, ..s1.ppu }, ..s1 }),
            None => None,
        }
    } else if address == 0x4016 {
        Some(NesModel { controller_1: spec_controller_write(s.controller_1, value), ..s })
    } else if address <= 0x401f {
        Some(s)
    } else {
        None
    }
}

/// A push of `byte`: stored at 0x100 + SP, then SP decreases (wrapping).
pub open spec fn spec_push(s: NesModel, byte: u8) -> NesModel {
    NesModel { memory: s.memory.update(0x100 + s.sp as int, byte), sp: add8(s.sp, -1), ..s }
}

/// A pull: SP increases (wrapping), then the byte at 0x100 + SP is returned.
pub open spec fn spec_pop(s: NesModel) -> (NesModel, u8) {
    let sp = add8(s.sp, 1);
    (NesModel { sp, ..s }, s.memory[0x100 + sp as int])
}

/// The fetch of the byte at PC, after which PC moves on (wrapping).
pub open spec fn spec_fetch(s: NesModel) -> (NesModel, u8) {
    (NesModel { pc: add16(s.pc, 1), ..s }, s.memory[s.pc as int])
}

/// The fetch of a little-endian word at PC.
pub open spec fn spec_fetch_abs(s: NesModel) -> (NesModel, u16) {
    let (s1, lo) = spec_fetch(s);
    let (s2, hi) = spec_fetch(s1);
    (s2, spec_endian(lo, hi))
}

/// The non-maskable interrupt: PC (high byte first) and P are pushed, the interrupt-disable
/// flag is set, and PC is loaded from the vector at 0xFFFA.
pub open spec fn spec_nmi(s: NesModel) -> NesModel {
    let s1 = spec_push(spec_push(spec_push(s, (s.pc / 256) as u8), (s.pc % 256) as u8), s.p);
    let s2 = NesModel { p: s1.p | FLAG_I, ..s1 };
    NesModel { pc: spec_endian(s2.memory[0xFFFA], s2.memory[0xFFFB]), ..s2 }
}

pub(crate) proof fn lemma_dma_prefix(s: NesModel, page: u8, shift: u8, m: nat, n: nat)
    requires
        m <= n,
        spec_dma(s, page, shift, n) is Some,
    ensures
        spec_dma(s, page, shift, m) is Some,
    decreases n,
{
    if m < n {
        lemma_dma_prefix(s, page, shift, m, (n - 1) as nat);
    }
}

/// A read does not depend on the flags register, and keeps it.
pub proof fn lemma_read_ignores_p(s: NesModel, address: u16, p: u8)
    ensures
        (spec_read(NesModel { p, ..s }, address) is Some) == (spec_read(s, address) is Some),
        spec_read(s, address) is Some ==> spec_read(NesModel { p, ..s }, address) == Some(
            (NesModel { p, ..spec_read(s, address).unwrap().0 }, spec_read(s, address).unwrap().1),
        ),
{
    reveal(spec_read);
}

/// A read keeps the CPU registers, the memory and well-formedness.
pub proof fn lemma_read_keeps_wf(s: NesModel, address: u16)
    requires
        s.wf(),
        spec_read(s, address) is Some,
    ensures
        spec_read(s, address).unwrap().0.wf(),
        same_cpu(s, spec_read(s, address).unwrap().0),
{
    reveal(spec_read);
}

proof fn lemma_dma_keeps_wf(s: NesModel, page: u8, shift: u8, n: nat)
    requires
        s.wf(),
        spec_dma(s, page, shift, n) is Some,
    ensures
        spec_dma(s, page, shift, n).unwrap().0.wf(),
        spec_dma(s, page, shift, n).unwrap().1.len() == 256,
    decreases n,
{
    if n > 0 {
        lemma_dma_prefix(s, page, shift, (n - 1) as nat, n);
        lemma_dma_keeps_wf(s, page, shift, (n - 1) as nat);
        let s1 = spec_dma(s, page, shift, (n - 1) as nat).unwrap().0;
        lemma_read_keeps_wf(s1, (page as int * 256 + (n - 1)) as u16);
    }
}

impl Nes {
    /// The byte at PC; PC moves on by one (wrapping).
    #[allow(non_snake_case)]
    pub fn nextOp(&mut self) -> (r: u8)
        requires
            old(self)@.wf(),
        ensures
            (final(self)@, r) == spec_fetch(old(self)@),
    {
        let op = self.memory[self.pc as usize];
        self.pc = self.pc.wrapping_add(1);
        op
    }

    /// The little-endian word at PC; PC moves on by two (wrapping).
    pub fn nextabs(&mut self) -> (r: u16)
        requires
            old(self)@.wf(),
        ensures
            (final(self)@, r) == spec_fetch_abs(old(self)@),
    {
        let a1 = self.nextOp();
        let a2 = self.nextOp();
        endian(a1, a2)
    }

    /// The little-endian word at PC, leaving PC where it was.
    pub fn grababs(&mut self) -> (r: u16)
        requires
            old(self)@.wf(),
        ensures
            final(self)@ == old(self)@,
            r == spec_fetch_abs(old(self)@).1,
    {
        let abs = self.nextabs();
        self.pc = self.pc.wrapping_sub(2);
        abs
    }

    /// Sets the bits of `flags` in P.
    pub fn set_flags(&mut self, flags: u8)
        ensures
            final(self)@ == (NesModel { p: old(self).p | flags, ..old(self)@ }),
    {
        self.p |= flags;
    }

    /// Clears the bits of `flags` in P.
    pub fn reset_flags(&mut self, flags: u8)
        ensures
            final(self)@ == (NesModel { p: old(self).p & !flags, ..old(self)@ }),
    {
        self.p = self.p & (!flags);
    }

    /// Pushes a byte on the stack.
    pub fn push_to_stack(&mut self, byte: u8)
        requires
            old(self)@.wf(),
        ensures
            final(self)@ == spec_push(old(self)@, byte),
    {
        self.memory[0x100 + self.sp as usize] = byte;
        self.sp = self.sp.wrapping_sub(1);
    }

    /// Pulls a byte from the stack.
    pub fn pop_from_stack(&mut self) -> (r: u8)
        requires
            old(self)@.wf(),
        ensures
            (final(self)@, r) == spec_pop(old(self)@),
    {
        self.sp = self.sp.wrapping_add(1);
        let byte = self.memory[0x100 + self.sp as usize];
        byte
    }

    /// The console at power-on: memory zero, PC 0x8000, SP 0xFD, P 0x24, the other registers
    /// zero, a new PPU and a new controller.
    pub fn start() -> (r: Self)
        ensures
            r@.wf(),
            forall|i: int| 0 <= i < 0x10000 ==> r@.memory[i] == 0,
            r.pc == 0x8000,
            r.sp == 0xFD,
            r.p == 0b00100100,
            r.acc == 0 && r.x == 0 && r.y == 0 && r.page_cross == 0,
            r.ppu@ == PPU::new_model(),
            r.controller_1 == (Controller { reset: false, register: 0, index: 0 }),
    {
        let emu = Nes {
            memory: [0; 0x10000],
            pc: 0x8000,
            sp: 0xFD,
            p: 0b00100100,
            acc: 0,
            x: 0,
            y: 0,
            page_cross: 0,
            ppu: PPU::new(),
            controller_1: Controller::new(),
        };
        emu
    }

    /// Executes the instruction at PC and returns the cycles it took (see `spec_step`).
    pub fn step(&mut self) -> (r: u8)
        requires
            old(self)@.wf(),
            spec_step(old(self)@) is Some,
        ensures
            Some((final(self)@, r)) == spec_step(old(self)@),
            final(self)@.wf(),
    {
        let op = self.nextOp();
        run_op_code(self, op)
    }

    /// A CPU read of `address` (see `spec_read`).
    pub fn read_memory(&mut self, address: u16) -> (r: u8)
        requires
            old(self)@.wf(),
            spec_read(old(self)@, address) is Some,
        ensures
            Some((final(self)@, r)) == spec_read(old(self)@, address),
            final(self)@.wf(),
            same_cpu(old(self)@, final(self)@),
        decreases address,
    {
        reveal(spec_read);
        if address <= 0x7FF {
            self.memory[address as usize]
        } else if address <= 0x1FFF {
            self.read_memory(address % 0x800)
        } else if address == 0x2002 {
            self.ppu.read_ppustatus()
        } else if address == 0x2004 {
            self.ppu.read_oamdata()
        } else if address == 0x2007 {
            self.ppu.read_ppudata()
        } else if address >= 0x2008 && address <= 0x3FFF {
            self.read_memory((address - 0x2000) % 8 + 0x2000)
        } else if address == 0x4016 {
            self.controller_1.read()
        } else if address >= 0x4000 && address <= 0x401F {
            0
        } else {
            self.memory[address as usize]
        }
    }

    /// A CPU write of `value` to `address` (see `spec_write`).
    pub fn write_memory(&mut self, address: u16, value: u8)
        requires
            old(self)@.wf(),
            spec_write(old(self)@, address, value) is Some,
        ensures
            Some(final(self)@) == spec_write(old(self)@, address, value),
            final(self)@.wf(),
        decreases address,
    {
        reveal(spec_write);
        if address <= 0x7FF {
            self.memory[address as usize] = value;
        } else if address <= 0x1FFF {
            self.write_memory(address % 0x800, value)
        } else if address == 0x2000 {
            self.ppu.write_ppuctrl(value)
        } else if address == 0x2001 {
            self.ppu.write_ppumask(value)
        } else if address == 0x2003 {
            self.ppu.write_oamaddr(value)
        } else if address == 0x2004 {
            self.ppu.write_oamdata(value)
        } else if address == 0x2005 {
            self.ppu.write_ppuscroll(value)
        } else if address == 0x2006 {
            self.ppu.write_ppuaddr(value)
        } else if address == 0x2007 {
            self.ppu.write_ppudata(value)
        } else if address == 0x4014 {
            self.oam_dma(value)
        } else if address >= 0x2008 && address <= 0x3FFF {
            self.write_memory((address - 0x2000) % 8 + 0x2000, value)
        } else if address == 0x4016 {
            self.controller_1.write(value)
        } else {
        }
    }

    /// OAM DMA from page `value` (see `spec_write` at 0x4014).
    fn oam_dma(&mut self, value: u8)
        requires
            old(self)@.wf(),
            spec_dma(old(self)@, value, old(self).ppu.oamaddr, 255) is Some,
        ensures
            Some(final(self)@) == spec_write(old(self)@, 0x4014, value),
            final(self)@.wf(),
    {
        let add = (value as u16) << 8;
        assert(add == value as int * 256) by (bit_vector)
            requires
                add == (value as u16) << 8,
        ;
        let mut slice = [0u8; 256];
        let oamshift = self.ppu.oamaddr;
        let ghost s0 = old(self)@;
        proof {
            lemma_dma_prefix(s0, value, oamshift, 0, 255);
            assert(slice@ =~= Seq::new(256, |i: int| 0u8));
        }
        let mut i: u8 = 0;
        while i < 0xff
            invariant
                0 <= i <= 0xff,
                s0.wf(),
                add == value as int * 256,
                oamshift == s0.ppu.oamaddr,
                spec_dma(s0, value, oamshift, 255) is Some,
                spec_dma(s0, value, oamshift, i as nat) == Some((self@, slice@)),
                self@.wf(),
            decreases 0xff - i,
        {
            proof {
                lemma_dma_prefix(s0, value, oamshift, (i + 1) as nat, 255);
            }
            let idx = i.wrapping_add(oamshift) as usize;
            let b = self.read_memory(add + i as u16);
            slice[idx] = b;
            i += 1;
        }
        proof {
            lemma_dma_keeps_wf(s0, value, oamshift, 255);
            reveal(spec_write);
        }
        self.ppu.write_oamdma(slice, value)
    }

    /// The non-maskable interrupt (see `spec_nmi`).
    pub fn nmi_interrput(&mut self)
        requires
            old(self)@.wf(),
        ensures
            final(self)@ == spec_nmi(old(self)@),
    {
        proof {
            reveal(spec_read);
        }
        let bytes = unendian(self.pc);
        self.push_to_stack(bytes[1]);
        self.push_to_stack(bytes[0]);
        self.push_to_stack(self.p);
        self.p |= 0b100;
        let byte1 = self.read_memory(0xFFFA);
        let byte2 = self.read_memory(0xfffB);
        self.pc = endian(byte1, byte2);
    }
}

} // verus!

verus! {

/// What the CPU writes to internal RAM it reads back, at the same address or at any of its
/// mirrors (every 0x800 bytes up to 0x1FFF); the write changes nothing but that byte of RAM.
pub proof fn law_ram_write_read(s: NesModel, a: u16, b: u16, v: u8)
    requires
        s.wf(),
        a <= 0x1fff,
        b <= 0x1fff,
        a % 0x800 == b % 0x800,
    ensures
        spec_write(s, a, v) is Some,
        spec_read(spec_write(s, a, v).unwrap(), b) == Some((spec_write(s, a, v).unwrap(), v)),
        spec_write(s, a, v).unwrap() == (NesModel { memory: s.memory.update(a as int % 0x800, v), ..s }),
{
    reveal(spec_write);
    reveal(spec_read);
}

/// Reading internal RAM or memory from 0x4020 on changes nothing.
pub proof fn law_memory_read_has_no_effect(s: NesModel, a: u16)
    requires
        s.wf(),
        a <= 0x1fff || a >= 0x4020,
    ensures
        spec_read(s, a) == Some((s, s.memory[if a <= 0x1fff { a as int % 0x800 } else { a as int }])),
{
    reveal(spec_read);
}

/// The PPU registers repeat every 8 bytes from 0x2000 to 0x3FFF, for reads and for writes.
pub proof fn law_ppu_register_mirrors(s: NesModel, a: u16, v: u8)
    requires
        0x2000 <= a <= 0x3fff,
    ensures
        spec_read(s, a) == spec_read(s, (0x2000 + (a - 0x2000) % 8) as u16),
        spec_write(s, a, v) == spec_write(s, (0x2000 + (a - 0x2000) % 8) as u16, v),
{
    reveal(spec_read);
    reveal(spec_write);
}

/// A pull right after a push gives the pushed byte back and restores the stack pointer.
pub proof fn law_push_pop(s: NesModel, b: u8)
    requires
        s.wf(),
    ensures
        spec_pop(spec_push(s, b)) == (NesModel { memory: s.memory.update(0x100 + s.sp as int, b), ..s }, b),
{
}

} // verus!
