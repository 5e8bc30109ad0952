use vstd::prelude::*;
use crate::helper::{bit_of, get_bit};

verus! {

/// How the four logical name tables map onto the name-table memory.
#[derive(Clone, Copy, Debug, PartialEq, Eq, Structural)]
pub enum Mirroring {
    Horizontal,
    Vertical,
    SingleScreen,
    FourScreen,
    NotSet,
}

/// The PPU address register (0x2006), written as a high byte then a low byte.
pub struct AddressRegister {
    pub hi_byte: u8,
    pub lo_byte: u8,
    pub first_byte: bool,
}

/// The PPU scroll register (0x2005), written as an x then a y offset.
pub struct ScrollRegister {
    pub x: u8,
    pub y: u8,
    pub setting_x: bool,
}

/// The 16-bit address held by an address register.
pub open spec fn spec_address(r: AddressRegister) -> u16 {
    (r.lo_byte as int + r.hi_byte as int * 256) as u16
}

/// An address register after one write of `value`: the high byte on the first write, the low
/// byte on the second; an address at or above 0x4000 is mirrored down by clearing the top two
/// bits of the high byte.
pub open spec fn spec_address_write(r: AddressRegister, value: u8) -> AddressRegister {
    let r1 = if r.first_byte {
        AddressRegister { hi_byte: value, lo_byte: r.lo_byte, first_byte: r.first_byte }
    } else {
        AddressRegister { hi_byte: r.hi_byte, lo_byte: value, first_byte: r.first_byte }
    };
    let hi = if spec_address(r1) >= 0x4000 { r1.hi_byte & 0x3F } else { r1.hi_byte };
    AddressRegister { hi_byte: hi, lo_byte: r1.lo_byte, first_byte: !r.first_byte }
}

/// An address register after its address is advanced by `value`, modulo 2^16.
pub open spec fn spec_address_add(r: AddressRegister, value: u8) -> AddressRegister {
    let n = (spec_address(r) as int + value as int) % 0x10000;
    AddressRegister { hi_byte: (n / 256) as u8, lo_byte: (n % 256) as u8, first_byte: r.first_byte }
}

/// A scroll register after one write: x on the first write, y on the second.
pub open spec fn spec_scroll_set(r: ScrollRegister, byte: u8) -> ScrollRegister {
    if r.setting_x {
        ScrollRegister { x: byte, y: r.y, setting_x: false }
    } else {
        ScrollRegister { x: r.x, y: byte, setting_x: true }
    }
}

impl ScrollRegister {
    /// Writes the next scroll offset: x and y in turn.
    pub fn set(&mut self, byte: u8)
        ensures
            *final(self) == spec_scroll_set(*old(self), byte),
    {
        if self.setting_x {
            self.x = byte;
        } else {
            self.y = byte;
        }
        self.setting_x = !self.setting_x;
    }

    fn new() -> (r: Self)
        ensures
            r == (ScrollRegister { x: 0, y: 0, setting_x: true }),
    {
        ScrollRegister { x: 0, y: 0, setting_x: true }
    }
}

impl AddressRegister {
    fn address(&self) -> (r: u16)
        ensures
            r == spec_address(*self),
    {
        let hi = self.hi_byte;
        assert((hi as u16) << 8 == hi as u16 * 256) by (bit_vector);
        assert(hi as u16 * 256 <= 0xFF00);
        (self.lo_byte as u16) + ((hi as u16) << 8)
    }

    fn write(&mut self, value: u8)
        ensures
            *final(self) == spec_address_write(*old(self), value),
    {
        if self.first_byte {
            self.hi_byte = value;
        } else {
            self.lo_byte = value;
        }
        if self.address() >= 0x4000 {
            self.hi_byte &= 0b111111;
        }
        self.first_byte = !self.first_byte;
    }

    fn add(&mut self, value: u8)
        ensures
            *final(self) == spec_address_add(*old(self), value),
    {
        let new_value = self.address().wrapping_add(value as u16);
        assert(new_value & 0xFF == new_value % 256 && new_value >> 8 == new_value / 256) by (bit_vector);
        self.lo_byte = (new_value & 0xFF) as u8;
        self.hi_byte = (new_value >> 8) as u8;
    }

    fn new() -> (r: Self)
        ensures
            r == (AddressRegister { hi_byte: 0, lo_byte: 0, first_byte: true }),
    {
        AddressRegister { hi_byte: 0, lo_byte: 0, first_byte: true }
    }
}

/// The picture processing unit: its registers, its object attribute memory (OAM),
/// its 16 KiB address space, and its position in the frame.
pub struct PPU {
    pub ppuctrl: u8,
    pub ppumask: u8,
    pub ppustatus: u8,
    pub oamaddr: u8,
    pub oamdata: u8,
    pub ppuscroll: u8,
    pub ppuaddr: u8,
    pub ppudata: u8,
    pub oamdma: u8,
    pub oam: [u8; 256],
    pub memory: [u8; 0x4000],
    pub address_register: AddressRegister,
    pub internal_buffer: u8,
    pub mirroring: Mirroring,
    pub scroll_register: ScrollRegister,
    pub scanlines: u16,
    pub cycles: u16,
}

/// The abstract state of a PPU: its fields, with OAM and memory as sequences.
pub struct PpuModel {
    pub ppuctrl: u8,
    pub ppumask: u8,
    pub ppustatus: u8,
    pub oamaddr: u8,
    pub oamdata: u8,
    pub ppuscroll: u8,
    pub ppuaddr: u8,
    pub ppudata: u8,
    pub oamdma: u8,
    pub oam: Seq<u8>,
    pub memory: Seq<u8>,
    pub address_register: AddressRegister,
    pub internal_buffer: u8,
    pub mirroring: Mirroring,
    pub scroll_register: ScrollRegister,
    pub scanlines: u16,
    pub cycles: u16,
}

impl View for PPU {
    type V = PpuModel;

    open spec fn view(&self) -> PpuModel {
        PpuModel {
            ppuctrl: self.ppuctrl,
            ppumask: self.ppumask,
            ppustatus: self.ppustatus,
            oamaddr: self.oamaddr,
            oamdata: self.oamdata,
            ppuscroll: self.ppuscroll,
            ppuaddr: self.ppuaddr,
            ppudata: self.ppudata,
            oamdma: self.oamdma,
            oam: self.oam@,
            memory: self.memory@,
            address_register: self.address_register,
            internal_buffer: self.internal_buffer,
            mirroring: self.mirroring,
            scroll_register: self.scroll_register,
            scanlines: self.scanlines,
            cycles: self.cycles,
        }
    }
}

impl PpuModel {
    /// OAM holds 256 bytes and the address space 0x4000.
    pub open spec fn wf(self) -> bool {
        self.oam.len() == 256 && self.memory.len() == 0x4000
    }
}

/// The palette-memory index that a PPU address in 0x3F00..=0x3FFF reaches: the address is
/// mirrored every 32 bytes, and 0x3F10, 0x3F14, 0x3F18 fall on 0x3F00, 0x3F04, 0x3F08.
pub open spec fn spec_pallete_mirror(address: u16) -> int {
    let m = 0x3f00 + address as int % 0x20;
    if m == 0x3f10 || m == 0x3f14 || m == 0x3f18 {
        m - 0x10
    } else {
        m
    }
}

/// The name-table index (0x2000..0x3000) that a PPU address in 0x2000..=0x2FFF reaches under a
/// mirroring, or `None` while no mirroring has been set.
pub open spec fn spec_vram_address(mirroring: Mirroring, address: u16) -> Option<int> {
    let rel = address as int - 0x2000;
    match mirroring {
        Mirroring::FourScreen => Some(0x2000 + rel),
        Mirroring::SingleScreen => Some(0x2000 + rel % 0x400),
        Mirroring::Vertical => Some(0x2000 + rel % 0x800),
        Mirroring::Horizontal => Some(0x2000 + (rel as u16 & !0b10000000000u16)),
        Mirroring::NotSet => None,
    }
}

/// The memory index that an access to a PPU address reaches: pattern tables below 0x2000,
/// name tables (mirrored from 0x3000 as well), palettes from 0x3F00. `None` where the access
/// has no meaning: above 0x3FFF, or on the name tables while no mirroring is set.
pub open spec fn spec_ppu_target(mirroring: Mirroring, address: u16) -> Option<int> {
    if address < 0x2000 {
        Some(address as int)
    } else if address < 0x3000 {
        spec_vram_address(mirroring, address)
    } else if address < 0x3f00 {
        spec_vram_address(mirroring, (address - 0x1000) as u16)
    } else if address < 0x4000 {
        Some(spec_pallete_mirror(address))
    } else {
        None
    }
}

/// The step by which an access through PPUDATA advances the address: 32 when bit 2 of
/// PPUCTRL is set, else 1.
pub open spec fn spec_increment_step(ppuctrl: u8) -> u8 {
    if ppuctrl & 0b100 != 0 { 32 } else { 1 }
}

/// A PPU whose address register has advanced by one PPUDATA step.
pub open spec fn spec_increment(p: PpuModel) -> PpuModel {
    PpuModel {
        address_register: spec_address_add(p.address_register, spec_increment_step(p.ppuctrl)),
        ..p
    }
}

/// A read of PPUSTATUS: returns the status, then clears the vertical-blank bit and the
/// address latch.
pub open spec fn spec_read_ppustatus(p: PpuModel) -> (PpuModel, u8) {
    (
        PpuModel {
            ppustatus: p.ppustatus & !0b10000000u8,
            address_register: AddressRegister { first_byte: true, ..p.address_register },
            ..p
        },
        p.ppustatus,
    )
}

/// A write of OAMADDR: sets the OAM address and latches the OAM byte there.
pub open spec fn spec_write_oamaddr(p: PpuModel, byte: u8) -> PpuModel {
    PpuModel { oamaddr: byte, oamdata: p.oam[byte as int], ..p }
}

/// A write of OAMDATA: stores the byte at the OAM address, then moves to the next address
/// (wrapping at 256).
pub open spec fn spec_write_oamdata(p: PpuModel, byte: u8) -> PpuModel {
    let p1 = PpuModel { oam: p.oam.update(p.oamaddr as int, byte), ..p };
    spec_write_oamaddr(p1, ((p.oamaddr as int + 1) % 256) as u8)
}

/// A read of PPUDATA, or `None` where it has no meaning (see `spec_ppu_target`). The address
/// advances; the read refills the internal buffer from the current address and returns the
/// buffer's previous content, except on palettes, whose byte comes back at once.
pub open spec fn spec_read_ppudata(p: PpuModel) -> Option<(PpuModel, u8)> {
    let address = spec_address(p.address_register);
    match spec_ppu_target(p.mirroring, address) {
        Some(t) => {
            let fresh = p.memory[t];
            let p1 = PpuModel { internal_buffer: fresh, ..spec_increment(p) };
            if address >= 0x3f00 {
                Some((p1, fresh))
            } else {
                Some((p1, p.internal_buffer))
            }
        },
        None => None,
    }
}

/// A write of PPUDATA, or `None` where it has no meaning: stores the byte at the current
/// address, then advances the address.
pub open spec fn spec_write_ppudata(p: PpuModel, data: u8) -> Option<PpuModel> {
    match spec_ppu_target(p.mirroring, spec_address(p.address_register)) {
        Some(t) => Some(spec_increment(PpuModel { memory: p.memory.update(t, data), ..p })),
        None => None,
    }
}

/// The PPU after `cycles` dots, and whether a vertical-blank NMI is raised and whether the
/// vertical blank starts. A scanline is 341 dots; vertical blank starts on scanline 241 and the
/// frame wraps after scanline 261.
pub open spec fn spec_tick(p: PpuModel, cycles: u8) -> (PpuModel, (bool, bool)) {
    let c = ((p.cycles as int + cycles as int) % 0x10000) as u16;
    if c >= 341 {
        let c2 = (c - 341) as u16;
        let s = ((p.scanlines as int + 1) % 0x10000) as u16;
        let vblank = s == 241;
        let status1 = if vblank { p.ppustatus | 0b10000000u8 } else { p.ppustatus };
        let nmi = vblank && p.ppuctrl & 0b10000000u8 != 0;
        if s == 262 {
            (PpuModel { cycles: c2, scanlines: 0, ppustatus: status1 & !0b11000000u8, ..p }, (nmi, vblank))
        } else {
            (PpuModel { cycles: c2, scanlines: s, ppustatus: status1, ..p }, (nmi, vblank))
        }
    } else {
        (PpuModel { cycles: c, ..p }, (false, false))
    }
}

/// Pixel `k` (row `k / 8`, column `k % 8`, left to right) of the tile whose 16 bytes start at
/// `base`: a 2-bit colour number whose low bit comes from the first plane and high bit from
/// the second, the leftmost pixel being bit 7.
pub open spec fn spec_tile_pixel(memory: Seq<u8>, base: int, k: int) -> u8 {
    let row = k / 8;
    let b = (7 - k % 8) as u8;
    (bit_of(memory[base + 8 + row], b) * 2 + bit_of(memory[base + row], b)) as u8
}

/// The first byte of tile `tile` in pattern table `bank`.
pub open spec fn spec_tile_base(tile: int, bank: int) -> int {
    bank * 0x1000 + tile * 16
}

/// The palette-memory index that PPUDATA reaches for the palette address of `address`.
pub fn pallete_mirror(address: u16) -> (r: usize)
    ensures
        r == spec_pallete_mirror(address),
        0x3f00 <= r < 0x3f20,
{
    let mirrored_address = (address.wrapping_sub(0x3f20) % 0x20) + 0x3f00;
    assert(address.wrapping_sub(0x3f20) % 0x20 == address % 0x20) by (bit_vector);
    assert(mirrored_address == 0x3f00 + address as int % 0x20);
    let mirror = match mirrored_address {
        0x3f10 => 0x3f00,
        0x3f14 => 0x3f04,
        0x3f18 => 0x3f08,
        0x3f1c => 0x3f1c,
        _ => mirrored_address,
    };
    mirror as usize
}

impl PPU {
    /// The state of a new PPU.
    pub open spec fn new_model() -> PpuModel {
        PpuModel {
            ppuctrl: 0,
            ppumask: 0,
            ppustatus: 0,
            oamaddr: 0,
            oamdata: 0,
            ppuscroll: 0,
            ppuaddr: 0,
            ppudata: 0,
            oamdma: 0,
            oam: Seq::new(256, |i: int| 0u8),
            memory: Seq::new(0x4000, |i: int| 0u8),
            address_register: AddressRegister { hi_byte: 0, lo_byte: 0, first_byte: true },
            internal_buffer: 0,
            mirroring: Mirroring::NotSet,
            scroll_register: ScrollRegister { x: 0, y: 0, setting_x: true },
            scanlines: 0,
            cycles: 0,
        }
    }

    /// A PPU with every register, OAM and memory zero, no mirroring set, at the start of a frame.
    pub fn new() -> (r: Self)
        ensures
            r@ == Self::new_model(),
            r@.wf(),
    {
        let r = PPU {
            ppuctrl: 0,
            ppumask: 0,
            ppustatus: 0,
            oamaddr: 0,
            oamdata: 0,
            ppuscroll: 0,
            ppuaddr: 0,
            ppudata: 0,
            oamdma: 0,
            oam: [0; 256],
            memory: [0; 0x4000],
            address_register: AddressRegister::new(),
            internal_buffer: 0,
            mirroring: Mirroring::NotSet,
            scroll_register: ScrollRegister::new(),
            scanlines: 0,
            cycles: 0,
        };
        assert(r.oam@ =~= Seq::new(256, |i: int| 0u8));
        assert(r.memory@ =~= Seq::new(0x4000, |i: int| 0u8));
        r
    }

    /// A CPU write of PPUADDR (0x2006).
    pub fn write_ppuaddr(&mut self, byte: u8)
        ensures
            final(self)@ == (PpuModel {
                address_register: spec_address_write(old(self).address_register, byte),
                ..old(self)@
            }),
    {
        self.address_register.write(byte);
    }

    /// A CPU write of PPUCTRL (0x2000).
    pub fn write_ppuctrl(&mut self, byte: u8)
        ensures
            final(self)@ == (PpuModel { ppuctrl: byte, ..old(self)@ }),
    {
        self.ppuctrl = byte;
    }

    /// A CPU write of PPUMASK (0x2001).
    pub fn write_ppumask(&mut self, byte: u8)
        ensures
            final(self)@ == (PpuModel { ppumask: byte, ..old(self)@ }),
    {
        self.ppumask = byte;
    }

    /// A CPU read of PPUSTATUS (0x2002).
    pub fn read_ppustatus(&mut self) -> (r: u8)
        ensures
            (final(self)@, r) == spec_read_ppustatus(old(self)@),
    {
        let temp = self.ppustatus;
        self.ppustatus &= !0b10000000;
        self.address_register.first_byte = true;
        temp
    }

    /// A CPU write of OAMADDR (0x2003).
    pub fn write_oamaddr(&mut self, byte: u8)
        ensures
            final(self)@ == spec_write_oamaddr(old(self)@, byte),
    {
        self.oamaddr = byte;
        self.oamdata = self.oam[self.oamaddr as usize];
    }

    /// A CPU read of OAMDATA (0x2004).
    pub fn read_oamdata(&mut self) -> (r: u8)
        ensures
            final(self)@ == old(self)@,
            r == old(self).oamdata,
    {
        self.oamdata
    }

    /// A CPU write of OAMDATA (0x2004).
    pub fn write_oamdata(&mut self, byte: u8)
        ensures
            final(self)@ == spec_write_oamdata(old(self)@, byte),
    {
        let a = self.oamaddr;
        self.oam[a as usize] = byte;
        self.write_oamaddr(a.wrapping_add(1));
    }

    /// A CPU write of PPUSCROLL (0x2005).
    pub fn write_ppuscroll(&mut self, byte: u8)
        ensures
            final(self)@ == (PpuModel {
                scroll_register: spec_scroll_set(old(self).scroll_register, byte),
                ..old(self)@
            }),
    {
        self.scroll_register.set(byte);
    }

    /// A CPU read of PPUDATA (0x2007).
    pub fn read_ppudata(&mut self) -> (r: u8)
        requires
            spec_read_ppudata(old(self)@) is Some,
        ensures
            Some((final(self)@, r)) == spec_read_ppudata(old(self)@),
    {
        let address = self.address_register.address();
        self.increment_ppuaddr();
        let data = self.internal_buffer;
        if address <= 0x1fff {
            self.internal_buffer = self.memory[address as usize];
        } else if address <= 0x2fff {
            let t = self.vram_address(address);
            self.internal_buffer = self.memory[t];
        } else if address >= 0x3f00 && address <= 0x3fff {
            self.internal_buffer = self.memory[pallete_mirror(address)];
            return self.internal_buffer;
        } else {
            let mirror = address - 0x1000;
            let t = self.vram_address(mirror);
            self.internal_buffer = self.memory[t];
        }
        data
    }

    /// The byte at a PPU address, read without the internal buffer and without moving the
    /// address register.
    pub fn read_ppudata_add(&mut self, address: u16) -> (r: u8)
        requires
            spec_ppu_target(old(self).mirroring, address) is Some,
        ensures
            final(self)@ == old(self)@,
            r == old(self)@.memory[spec_ppu_target(old(self).mirroring, address)->0],
    {
        if address <= 0x1fff {
            self.memory[address as usize]
        } else if address <= 0x2fff {
            let t = self.vram_address(address);
            self.memory[t]
        } else if address >= 0x3f00 {
            self.memory[pallete_mirror(address)]
        } else {
            let mirror = address - 0x1000;
            let t = self.vram_address(mirror);
            self.memory[t]
        }
    }

    /// A CPU write of PPUDATA (0x2007).
    pub fn write_ppudata(&mut self, data: u8)
        requires
            spec_write_ppudata(old(self)@, data) is Some,
        ensures
            Some(final(self)@) == spec_write_ppudata(old(self)@, data),
    {
        let address = self.address_register.address();
        if address <= 0x1fff {
            self.memory[address as usize] = data;
        } else if address <= 0x2fff {
            let t = self.vram_address(address);
            self.memory[t] = data;
        } else if address >= 0x3f00 {
            let t = pallete_mirror(address);
            self.memory[t] = data;
        } else {
            let mirror = address - 0x1000;
            let t = self.vram_address(mirror);
            self.memory[t] = data;
        }
        self.increment_ppuaddr();
    }

    /// An OAM DMA: the 256 bytes of `memslice` become OAM, and `byte` (the source page) is
    /// kept as OAMDMA.
    pub fn write_oamdma(&mut self, memslice: [u8; 256], byte: u8)
        ensures
            final(self)@ == (PpuModel { oamdma: byte, oam: memslice@, ..old(self)@ }),
    {
        self.oamdma = byte;
        self.oam = memslice;
    }

    fn vram_address(&self, address: u16) -> (r: usize)
        requires
            0x2000 <= address < 0x3000,
            self.mirroring != Mirroring::NotSet,
        ensures
            spec_vram_address(self.mirroring, address) == Some(r as int),
            0x2000 <= r < 0x3000,
    {
        let relative_address = address - 0x2000;
        let relative_shift = match self.mirroring {
            Mirroring::FourScreen => relative_address,
            Mirroring::SingleScreen => relative_address % 0x400,
            Mirroring::Vertical => relative_address % 0x800,
            Mirroring::Horizontal => {
                assert(relative_address & !0b10000000000u16 <= relative_address) by (bit_vector);
                relative_address & !0b10000000000
            },
            Mirroring::NotSet => 0,
        };
        (0x2000 + relative_shift) as usize
    }

    fn increment_ppuaddr(&mut self)
        ensures
            final(self)@ == spec_increment(old(self)@),
    {
        if self.ppuctrl & 0b100 > 0 {
            self.address_register.add(32);
        } else {
            self.address_register.add(1);
        }
    }

    /// Advances the PPU by `cycles` dots; returns whether an NMI is raised and whether the
    /// vertical blank starts.
    pub fn tick(&mut self, cycles: u8) -> (r: (bool, bool))
        ensures
            (final(self)@, r) == spec_tick(old(self)@, cycles),
    {
        self.cycles = self.cycles.wrapping_add(cycles as u16);
        let mut nmi = false;
        let mut vblank = false;
        if self.cycles >= 341 {
            self.cycles -= 341;
            self.scanlines = self.scanlines.wrapping_add(1);
            if self.scanlines == 241 {
                self.ppustatus |= 0b10000000;
                vblank = true;
                if self.ppuctrl & 0b10000000 > 0 {
                    nmi = true;
                }
            }
            if self.scanlines == 262 {
                self.scanlines = 0;
                self.ppustatus &= !0b11000000;
            }
        }
        (nmi, vblank)
    }

    /// The 64 pixels (colour numbers 0..=3, row by row) of tile `tile` of pattern table `bank`.
    pub fn get_tile(&self, tile: usize, bank: usize) -> (r: [u8; 64])
        requires
            spec_tile_base(tile as int, bank as int) + 16 <= 0x4000,
        ensures
            forall|k: int| 0 <= k < 64 ==> #[trigger] r@[k] == spec_tile_pixel(self@.memory, spec_tile_base(tile as int, bank as int), k),
            forall|k: int| 0 <= k < 64 ==> #[trigger] r@[k] < 4,
    {
        let base = bank * 0x1000 + tile * 16;
        let mut tile_sprite = [0u8; 64];
        let mut i: usize = 0;
        while i < 8
            invariant
                0 <= i <= 8,
                base == spec_tile_base(tile as int, bank as int),
                base + 16 <= 0x4000,
                forall|k: int| 0 <= k < i * 8 ==> #[trigger] tile_sprite@[k] == spec_tile_pixel(self@.memory, base as int, k),
                forall|k: int| 0 <= k < i * 8 ==> #[trigger] tile_sprite@[k] < 4,
            decreases 8 - i,
        {
            let mut c: usize = 0;
            while c < 8
                invariant
                    0 <= i < 8,
                    0 <= c <= 8,
                    base == spec_tile_base(tile as int, bank as int),
                    base + 16 <= 0x4000,
                    forall|k: int| 0 <= k < i * 8 + c ==> #[trigger] tile_sprite@[k] == spec_tile_pixel(self@.memory, base as int, k),
                    forall|k: int| 0 <= k < i * 8 + c ==> #[trigger] tile_sprite@[k] < 4,
                decreases 8 - c,
            {
                let j = (7 - c) as u8;
                let bit0 = get_bit(self.memory[base + i], j);
                let bit1 = get_bit(self.memory[base + i + 8], j);
                let v = (bit1 << 1) | bit0;
                assert(v == bit1 * 2 + bit0 && v < 4) by (bit_vector)
                    requires
                        v == (bit1 << 1) | bit0,
                        bit0 < 2,
                        bit1 < 2,
                ;
                let idx = c + i * 8;
                tile_sprite[idx] = v;
                assert((i * 8 + c) / 8 == i && (i * 8 + c) % 8 == c) by (nonlinear_arith)
                    requires
                        c < 8,
                ;
                c += 1;
            }
            i += 1;
        }
        tile_sprite
    }

    /// The background palette `pallete_num`: the universal background colour followed by the
    /// palette's three colours.
    pub fn get_pallete(&self, pallete_num: u8) -> (r: [u8; 4])
        requires
            pallete_num < 64,
        ensures
            r@ == seq![
                self@.memory[0x3f00],
                self@.memory[0x3f01 + pallete_num * 4],
                self@.memory[0x3f02 + pallete_num * 4],
                self@.memory[0x3f03 + pallete_num * 4],
            ],
    {
        let mut pal = [0u8; 4];
        pal[0] = self.memory[0x3f00];
        let pal_ind = 0x3f01 + pallete_num as usize * 4;
        pal[1] = self.memory[pal_ind];
        pal[2] = self.memory[pal_ind + 1];
        pal[3] = self.memory[pal_ind + 2];
        assert(pal@ =~= seq![
            self@.memory[0x3f00],
            self@.memory[0x3f01 + pallete_num * 4],
            self@.memory[0x3f02 + pallete_num * 4],
            self@.memory[0x3f03 + pallete_num * 4],
        ]);
        pal
    }

    /// The sprite palette `pallete_num`: 0xFF (transparent) followed by the palette's three colours.
    pub fn get_sprite_pallete(&self, pallete_num: u8) -> (r: [u8; 4])
        requires
            pallete_num < 60,
        ensures
            r@ == seq![
                0xffu8,
                self@.memory[0x3f11 + pallete_num * 4],
                self@.memory[0x3f12 + pallete_num * 4],
                self@.memory[0x3f13 + pallete_num * 4],
            ],
    {
        let mut pal = [0u8; 4];
        pal[0] = 0xff;
        let pal_ind = 0x3f11 + pallete_num as usize * 4;
        pal[1] = self.memory[pal_ind];
        pal[2] = self.memory[pal_ind + 1];
        pal[3] = self.memory[pal_ind + 2];
        assert(pal@ =~= seq![
            0xffu8,
            self@.memory[0x3f11 + pallete_num * 4],
            self@.memory[0x3f12 + pallete_num * 4],
            self@.memory[0x3f13 + pallete_num * 4],
        ]);
        pal
    }
}

} // verus!

verus! {

/// Once the address latch is reset (as a read of PPUSTATUS does), writing a high and then a low
/// byte to PPUADDR sets the address to them, the high byte taken modulo 0x40.
pub proof fn law_ppuaddr_two_writes(r: AddressRegister, hi: u8, lo: u8)
    requires
        r.first_byte,
    ensures
        spec_address(spec_address_write(spec_address_write(r, hi), lo)) == (hi & 0x3F) as int * 256 + lo as int,
        spec_address_write(spec_address_write(r, hi), lo).first_byte,
{
    let r1 = spec_address_write(r, hi);
    assert((hi < 0x40 ==> hi & 0x3F == hi) && hi & 0x3Fu8 < 0x40) by (bit_vector);
    assert(r1.hi_byte == hi & 0x3F);
}

/// A read of PPUSTATUS returns the status, then clears the vertical-blank bit and resets the
/// address latch.
pub proof fn law_read_ppustatus(p: PpuModel)
    ensures
        spec_read_ppustatus(p).1 == p.ppustatus,
        spec_read_ppustatus(p).0.ppustatus & 0x80 == 0,
        spec_read_ppustatus(p).0.ppustatus & 0x7F == p.ppustatus & 0x7F,
        spec_read_ppustatus(p).0.address_register.first_byte,
{
    let s = p.ppustatus;
    assert((s & !0b10000000u8) & 0x80 == 0 && (s & !0b10000000u8) & 0x7F == s & 0x7F) by (bit_vector);
}

/// What a write of OAMDATA stores lands at the OAM address, which then moves on by one.
pub proof fn law_oam_write(p: PpuModel, a: u8, v: u8)
    requires
        p.wf(),
    ensures
        spec_write_oamdata(spec_write_oamaddr(p, a), v).oam[a as int] == v,
        spec_write_oamdata(spec_write_oamaddr(p, a), v).oamaddr == ((a as int + 1) % 256) as u8,
{
}

/// Every PPU address that has a meaning reaches a byte of the 16 KiB address space.
pub proof fn lemma_target_in_range(m: Mirroring, address: u16)
    requires
        spec_ppu_target(m, address) is Some,
    ensures
        0 <= spec_ppu_target(m, address).unwrap() < 0x4000,
{
    if 0x2000 <= address < 0x3f00 {
        let a = if address < 0x3000 { address } else { (address - 0x1000) as u16 };
        let rel = (a - 0x2000) as u16;
        assert(rel & !0b10000000000u16 <= rel) by (bit_vector);
    }
}

/// What a write of PPUDATA stores is what a read at the same PPU address finds, and the
/// address moves on by one PPUDATA step.
pub proof fn law_ppudata_write_read(p: PpuModel, v: u8)
    requires
        p.wf(),
        spec_write_ppudata(p, v) is Some,
    ensures
        spec_write_ppudata(p, v).unwrap().memory[spec_ppu_target(p.mirroring, spec_address(p.address_register)).unwrap()] == v,
        spec_address(spec_write_ppudata(p, v).unwrap().address_register) == (spec_address(p.address_register) as int + spec_increment_step(p.ppuctrl) as int) % 0x10000,
{
    lemma_target_in_range(p.mirroring, spec_address(p.address_register));
}

/// Palette addresses repeat every 32 bytes, and the sprite palettes' first entries 0x3F10,
/// 0x3F14, 0x3F18 are those of the background palettes; every palette address falls in
/// 0x3F00..0x3F20.
pub proof fn law_palette_mirror(a: u16)
    ensures
        0x3f00 <= spec_pallete_mirror(a) < 0x3f20,
        spec_pallete_mirror(a) == spec_pallete_mirror((0x3f00 + a % 0x20) as u16),
        spec_pallete_mirror(0x3f10) == 0x3f00,
        spec_pallete_mirror(0x3f14) == 0x3f04,
        spec_pallete_mirror(0x3f18) == 0x3f08,
{
}

/// The PPU stays within a frame: from a dot below 341 on a scanline below 262, a tick of up to
/// 255 dots stays so; it reports a vertical blank exactly when it enters scanline 241, and an
/// NMI only then and only when bit 7 of PPUCTRL is set.
pub proof fn law_tick_stays_in_frame(p: PpuModel, cycles: u8)
    requires
        p.cycles < 341,
        p.scanlines < 262,
    ensures
        ({
            let (p1, (nmi, vblank)) = spec_tick(p, cycles);
            &&& p1.cycles < 341
            &&& p1.scanlines < 262
            &&& vblank == (p.scanlines == 240 && p.cycles + cycles >= 341)
            &&& (nmi ==> vblank && p.ppuctrl & 0x80 != 0)
            &&& (vblank ==> p1.ppustatus & 0x80 != 0)
        }),
{
    let s = p.ppustatus;
    assert((s | 0b10000000u8) & 0x80 != 0) by (bit_vector);
}

/// How each mirroring folds the four logical name tables (PPU addresses 0x2000..0x3000) onto
/// name-table memory: two addresses reach the same byte exactly when they agree modulo 0x800
/// under vertical mirroring (0x2000 and 0x2400 are distinct tables, 0x2800 and 0x2C00 repeat
/// them), when they agree modulo 0x400 and lie in the same half (0x2000..0x2800 or
/// 0x2800..0x3000) under horizontal mirroring, when they agree modulo 0x400 under single-screen
/// mirroring, and only when they are equal under four-screen mirroring. Every byte reached lies
/// in 0x2000..0x3000.
#[verifier::rlimit(40)]
#[verifier::spinoff_prover]
pub proof fn law_name_table_mirroring(a: u16, b: u16)
    requires
        0x2000 <= a < 0x3000,
        0x2000 <= b < 0x3000,
    ensures
        spec_ppu_target(Mirroring::Vertical, a) is Some,
        0x2000 <= spec_ppu_target(Mirroring::Vertical, a)->0 < 0x2800,
        (spec_ppu_target(Mirroring::Vertical, a) == spec_ppu_target(Mirroring::Vertical, b)) == (a % 0x800 == b % 0x800),
        spec_ppu_target(Mirroring::Horizontal, a) is Some,
        0x2000 <= spec_ppu_target(Mirroring::Horizontal, a)->0 < 0x3000,
        (spec_ppu_target(Mirroring::Horizontal, a) == spec_ppu_target(Mirroring::Horizontal, b)) == (a % 0x400 == b % 0x400
            && (a < 0x2800) == (b < 0x2800)),
        spec_ppu_target(Mirroring::SingleScreen, a) is Some,
        0x2000 <= spec_ppu_target(Mirroring::SingleScreen, a)->0 < 0x2400,
        (spec_ppu_target(Mirroring::SingleScreen, a) == spec_ppu_target(Mirroring::SingleScreen, b)) == (a % 0x400 == b % 0x400),
        spec_ppu_target(Mirroring::FourScreen, a) == Some(a as int),
        spec_ppu_target(Mirroring::NotSet, a) is None,
{
    lemma_vertical(a, b);
    lemma_horizontal(a, b);
    lemma_single_screen(a, b);
}

proof fn lemma_vertical(a: u16, b: u16)
    requires
        0x2000 <= a < 0x3000,
        0x2000 <= b < 0x3000,
    ensures
        spec_ppu_target(Mirroring::Vertical, a) is Some,
        0x2000 <= spec_ppu_target(Mirroring::Vertical, a)->0 < 0x2800,
        (spec_ppu_target(Mirroring::Vertical, a) == spec_ppu_target(Mirroring::Vertical, b)) == (a % 0x800 == b % 0x800),
{
    assert((a as int - 0x2000) % 0x800 == a % 0x800 && (b as int - 0x2000) % 0x800 == b % 0x800);
}

proof fn lemma_single_screen(a: u16, b: u16)
    requires
        0x2000 <= a < 0x3000,
        0x2000 <= b < 0x3000,
    ensures
        spec_ppu_target(Mirroring::SingleScreen, a) is Some,
        0x2000 <= spec_ppu_target(Mirroring::SingleScreen, a)->0 < 0x2400,
        (spec_ppu_target(Mirroring::SingleScreen, a) == spec_ppu_target(Mirroring::SingleScreen, b)) == (a % 0x400 == b % 0x400),
{
    assert((a as int - 0x2000) % 0x400 == a % 0x400 && (b as int - 0x2000) % 0x400 == b % 0x400);
}

#[verifier::rlimit(40)]
proof fn lemma_horizontal(a: u16, b: u16)
    requires
        0x2000 <= a < 0x3000,
        0x2000 <= b < 0x3000,
    ensures
        spec_ppu_target(Mirroring::Horizontal, a) is Some,
        0x2000 <= spec_ppu_target(Mirroring::Horizontal, a)->0 < 0x3000,
        (spec_ppu_target(Mirroring::Horizontal, a) == spec_ppu_target(Mirroring::Horizontal, b)) == (a % 0x400 == b % 0x400
            && (a < 0x2800) == (b < 0x2800)),
{
    let ra = (a - 0x2000) as u16;
    let rb = (b - 0x2000) as u16;
    assert(ra == (a as int - 0x2000) as u16 && rb == (b as int - 0x2000) as u16);
    assert(ra % 0x400 == a % 0x400 && rb % 0x400 == b % 0x400);
    assert({
        &&& ra & !0b10000000000u16 < 0x1000
        &&& (ra & !0b10000000000u16 == rb & !0b10000000000u16) == (ra % 0x400 == rb % 0x400 && (ra < 0x800) == (rb < 0x800))
    }) by (bit_vector)
        requires
            ra < 0x1000,
            rb < 0x1000,
    ;
}

/// Under vertical mirroring a write through PPUDATA at a name-table address `a` (0x2000..0x3000)
/// stores the byte at 0x2000 + `a` % 0x800 and changes no other byte of PPU memory.
pub proof fn law_ppudata_write_vertical(p: PpuModel, v: u8)
    requires
        p.wf(),
        p.mirroring == Mirroring::Vertical,
        0x2000 <= spec_address(p.address_register) < 0x3000,
    ensures
        spec_write_ppudata(p, v) is Some,
        spec_write_ppudata(p, v)->0.memory == p.memory.update(0x2000 + spec_address(p.address_register) % 0x800, v),
{
    lemma_vertical(spec_address(p.address_register), spec_address(p.address_register));
    let a = spec_address(p.address_register);
    assert((a as int - 0x2000) % 0x800 == a % 0x800);
}

} // verus!
