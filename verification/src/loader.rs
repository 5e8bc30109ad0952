use vstd::prelude::*;
use crate::emu::Nes;
use crate::helper::{bit_of, get_bit};

verus! {

/// The fields of an iNES header.
pub struct Header {
    pub mapper: u8,
    pub mirroring: u8,
    pub prg_ram_present: u8,
    pub trainer_present: u8,
    pub four_screen: u8,
    pub unisystem: u8,
    pub playchoice: u8,
    pub nes2: u8,
    pub prg_rom_size: u8,
    pub chr_rom_size: u8,
}

/// A ROM image: where it came from, its bytes, and its header.
pub struct Rom {
    pub path: String,
    pub data: Vec<u8>,
    pub header: Header,
}

/// The header that the first 16 bytes of an iNES image describe: the mapper number from the high
/// nibbles of bytes 6 and 7, the flags of bits 0-3 of byte 6 and 0-1 of byte 7, the NES 2.0
/// marker bits 2-3 of byte 7, and the PRG and CHR ROM sizes of bytes 4 and 5.
pub open spec fn spec_header(h: Seq<u8>) -> Header {
    Header {
        mapper: ((h[6] & 0xF0) >> 4u8) | (h[7] & 0xF0),
        mirroring: bit_of(h[6], 0),
        prg_ram_present: bit_of(h[6], 1),
        trainer_present: bit_of(h[6], 2),
        four_screen: bit_of(h[6], 3),
        unisystem: bit_of(h[7], 0),
        playchoice: bit_of(h[7], 1),
        nes2: h[7] & 0b1100,
        prg_rom_size: h[4],
        chr_rom_size: h[5],
    }
}

/// How many bytes a read of up to `len` bytes at offset `off` of `data` delivers.
pub open spec fn read_len(data: Seq<u8>, off: int, len: int) -> int {
    if off >= data.len() {
        0
    } else if data.len() - off < len {
        data.len() as int - off
    } else {
        len
    }
}

/// `memory` after a read of up to `len` bytes at offset `off` of `data` into it at `dst`.
pub open spec fn copied(memory: Seq<u8>, dst: int, data: Seq<u8>, off: int, len: int) -> Seq<u8> {
    Seq::new(memory.len(), |k: int|
        if dst <= k < dst + read_len(data, off, len) { data[off + (k - dst)] } else { memory[k] })
}

/// The file offset of the PRG ROM: after the 16-byte header and, when present, the 512-byte
/// trainer.
pub open spec fn prg_offset(h: Header) -> int {
    if h.trainer_present > 0 { 16int + 512 } else { 16int }
}

/// Memory after mapper 0 loads a ROM: 0x3FFF bytes of PRG ROM at 0x8000, and 0x3FFF bytes at
/// 0xC000 taken from the second 16 KiB bank when there are more than one, else from the first
/// again.
pub open spec fn spec_mapper000(memory: Seq<u8>, rom_data: Seq<u8>, h: Header) -> Seq<u8> {
    let off = prg_offset(h);
    let m1 = copied(memory, 0x8000, rom_data, off, 0x3FFF);
    copied(m1, 0xC000, rom_data, if h.prg_rom_size > 1 { off + 16384 } else { off }, 0x3FFF)
}

impl Header {
    /// Reads the header from the first 16 bytes of an image (see `spec_header`).
    pub fn grab_header(header: [u8; 16]) -> (r: Self)
        ensures
            r == spec_header(header@),
    {
        let mapper = ((header[6] & 0xF0) >> 4) | (header[7] & 0xF0);
        let mirroring = get_bit(header[6], 0);
        let prg_ram_present = get_bit(header[6], 1);
        let trainer_present = get_bit(header[6], 2);
        let four_screen = get_bit(header[6], 3);
        let unisystem = get_bit(header[7], 0);
        let playchoice = get_bit(header[7], 1);
        let nes2 = header[7] & 0b1100;
        let prg_rom_size = header[4];
        let chr_rom_size = header[5];
        Header {
            mapper,
            mirroring,
            prg_ram_present,
            trainer_present,
            four_screen,
            unisystem,
            playchoice,
            nes2,
            prg_rom_size,
            chr_rom_size,
        }
    }
}

/// Reads up to `len` bytes at offset `off` of `data` into `memory` at `dst`.
fn read_at(data: &Vec<u8>, memory: &mut [u8; 0x10000], dst: usize, off: usize, len: usize)
    requires
        dst + len <= 0x10000,
        off + len <= usize::MAX,
    ensures
        final(memory)@ == copied(old(memory)@, dst as int, data@, off as int, len as int),
{
    let n: usize = if off >= data.len() {
        0
    } else if data.len() - off < len {
        data.len() - off
    } else {
        len
    };
    let ghost m0 = memory@;
    let mut k: usize = 0;
    while k < n
        invariant
            0 <= k <= n,
            n == read_len(data@, off as int, len as int),
            n <= len,
            dst + len <= 0x10000,
            n > 0 ==> off + n <= data@.len(),
            off + len <= usize::MAX,
            memory@.len() == 0x10000,
            forall|a: int| 0 <= a < 0x10000 ==> #[trigger] memory@[a] == if dst <= a < dst + k { data@[off + (a - dst)] } else { m0[a] },
        decreases n - k,
    {
        memory[dst + k] = data[off + k];
        k += 1;
    }
    assert(memory@ =~= copied(m0, dst as int, data@, off as int, len as int));
}

impl Rom {
    /// A ROM image from its path and its bytes, with the header read from the first 16 bytes.
    pub fn new(path: String, data: Vec<u8>) -> (r: Self)
        requires
            data@.len() >= 16,
        ensures
            r.path == path,
            r.data@ == data@,
            r.header == spec_header(data@.subrange(0, 16)),
    {
        let mut header: [u8; 16] = [0; 16];
        let mut k: usize = 0;
        while k < 16
            invariant
                0 <= k <= 16,
                data@.len() >= 16,
                forall|a: int| 0 <= a < k ==> #[trigger] header@[a] == data@[a],
            decreases 16 - k,
        {
            header[k] = data[k];
            k += 1;
        }
        assert(header@ =~= data@.subrange(0, 16));
        let header = Header::grab_header(header);
        Rom { path, data, header }
    }

    /// Loads the ROM into the console's memory with its mapper; only mapper 0 is supported.
    pub fn load_rom(&mut self, nes: &mut Nes)
        requires
            old(self).header.mapper == 0,
        ensures
            *final(self) == *old(self),
            final(nes)@.memory == spec_mapper000(old(nes)@.memory, old(self).data@, old(self).header),
            final(nes)@ == (crate::emu::NesModel { memory: final(nes)@.memory, ..old(nes)@ }),
    {
        mapper000(nes, self)
    }
}

/// Mapper 0 (NROM): loads the PRG ROM into 0x8000..0xFFFF (see `spec_mapper000`).
pub fn mapper000(nes: &mut Nes, rom: &mut Rom)
    ensures
        *final(rom) == *old(rom),
        final(nes)@.memory == spec_mapper000(old(nes)@.memory, old(rom).data@, old(rom).header),
        final(nes)@ == (crate::emu::NesModel { memory: final(nes)@.memory, ..old(nes)@ }),
{
    let mut prg_rom_offset: usize = 16;
    if rom.header.trainer_present > 0 {
        prg_rom_offset += 512;
    }
    read_at(&rom.data, &mut nes.memory, 0x8000, prg_rom_offset, 0x3FFF);
    if rom.header.prg_rom_size > 1 {
        read_at(&rom.data, &mut nes.memory, 0xC000, prg_rom_offset + 16384, 0x3FFF);
    } else {
        read_at(&rom.data, &mut nes.memory, 0xC000, prg_rom_offset, 0x3FFF);
    }
}

} // verus!

verus! {

proof fn lemma_byte_fields(b: u8)
    by (bit_vector)
    ensures
        (b >> 0u8) & 1 == b % 2,
        (b >> 1u8) & 1 == (b / 2) % 2,
        (b >> 2u8) & 1 == (b / 4) % 2,
        (b >> 3u8) & 1 == (b / 8) % 2,
        (b & 0xF0) >> 4u8 == b / 16,
        b & 0xF0 == (b / 16) * 16,
        b & 0b1100 == ((b / 4) % 4) * 4,
{
}

/// The header fields read from the first 16 bytes of an image: the mirroring bit is bit 0 of
/// byte 6, the PRG RAM bit bit 1, the trainer bit bit 2, the four-screen bit bit 3; the VS
/// Unisystem and PlayChoice bits are bits 0 and 1 of byte 7, the NES 2.0 marker bits 2-3 of
/// byte 7 (in place); the mapper number has the high nibble of byte 6 as its low nibble and the
/// high nibble of byte 7 as its high nibble; the ROM sizes are bytes 4 and 5.
pub proof fn law_header_fields(h: Seq<u8>)
    requires
        h.len() >= 16,
    ensures
        spec_header(h).mirroring == h[6] % 2,
        spec_header(h).prg_ram_present == (h[6] / 2) % 2,
        spec_header(h).trainer_present == (h[6] / 4) % 2,
        spec_header(h).four_screen == (h[6] / 8) % 2,
        spec_header(h).unisystem == h[7] % 2,
        spec_header(h).playchoice == (h[7] / 2) % 2,
        spec_header(h).nes2 == ((h[7] / 4) % 4) * 4,
        spec_header(h).mapper == h[6] / 16 + (h[7] / 16) * 16,
        spec_header(h).prg_rom_size == h[4],
        spec_header(h).chr_rom_size == h[5],
{
    let b6 = h[6];
    let b7 = h[7];
    lemma_byte_fields(b6);
    lemma_byte_fields(b7);
    let lo = (b6 & 0xF0) >> 4u8;
    let hi = b7 & 0xF0;
    assert((lo | hi) == lo + hi) by (bit_vector)
        requires
            lo < 16,
            hi % 16 == 0,
    ;
}

} // verus!
