use nesemu::emu::Nes;
use nesemu::loader::{mapper000, Header, Rom};

fn image(trainer: bool, banks: u8) -> Vec<u8> {
    let mut data = vec![0u8; 16];
    data[0..4].copy_from_slice(b"NES\x1a");
    data[4] = banks;
    data[5] = 1;
    data[6] = if trainer { 0b0000_0100 } else { 0 };
    if trainer {
        data.extend(std::iter::repeat(0xEE).take(512));
    }
    for bank in 0..banks {
        for i in 0..16384usize {
            data.push(bank.wrapping_mul(0x40).wrapping_add((i % 64) as u8));
        }
    }
    data
}

#[test]
fn header_fields() {
    let mut h = [0u8; 16];
    h[4] = 2;
    h[5] = 1;
    h[6] = 0b0011_1101;
    h[7] = 0b0100_1111;
    let header = Header::grab_header(h);
    assert_eq!(header.mapper, 0x43);
    assert_eq!(header.mirroring, 1);
    assert_eq!(header.prg_ram_present, 0);
    assert_eq!(header.trainer_present, 1);
    assert_eq!(header.four_screen, 1);
    assert_eq!(header.unisystem, 1);
    assert_eq!(header.playchoice, 1);
    assert_eq!(header.nes2, 0b1100);
    assert_eq!(header.prg_rom_size, 2);
    assert_eq!(header.chr_rom_size, 1);
}

#[test]
fn rom_new_reads_header() {
    let rom = Rom::new("game.nes".to_string(), image(false, 1));
    assert_eq!(rom.path, "game.nes");
    assert_eq!(rom.header.mapper, 0);
    assert_eq!(rom.header.prg_rom_size, 1);
    assert_eq!(rom.data.len(), 16 + 16384);
}

#[test]
fn mapper0_one_bank_is_mirrored() {
    let mut rom = Rom::new("a".to_string(), image(false, 1));
    let mut nes = Nes::start();
    nes.memory[0x0100] = 7;
    mapper000(&mut nes, &mut rom);
    assert_eq!(nes.memory[0x8000], 0);
    assert_eq!(nes.memory[0x8001], 1);
    assert_eq!(nes.memory[0xC001], 1);
    assert_eq!(nes.memory[0xBFFE], (0x3FFE % 64) as u8);
    // the last byte of each window is not loaded
    assert_eq!(nes.memory[0xBFFF], 0);
    assert_eq!(nes.memory[0xFFFF], 0);
    assert_eq!(nes.memory[0x0100], 7);
}

#[test]
fn mapper0_two_banks_and_trainer() {
    let mut rom = Rom::new("b".to_string(), image(true, 2));
    let mut nes = Nes::start();
    rom.load_rom(&mut nes);
    assert_eq!(nes.memory[0x8000], 0);
    assert_eq!(nes.memory[0xC000], 0x40);
    assert_eq!(nes.memory[0xC003], 0x43);
}

#[test]
fn mapper0_short_image_loads_what_there_is() {
    let mut data = image(false, 1);
    data.truncate(16 + 10);
    let mut rom = Rom::new("c".to_string(), data);
    let mut nes = Nes::start();
    nes.memory[0x800A] = 0x55;
    mapper000(&mut nes, &mut rom);
    assert_eq!(nes.memory[0x8009], 9);
    assert_eq!(nes.memory[0x800A], 0x55);
}
