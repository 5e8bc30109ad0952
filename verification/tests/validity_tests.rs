use nesemu::emu::Nes;
use nesemu::ppu::Mirroring;

fn with_program(bytes: &[u8]) -> Nes {
    let mut nes = Nes::start();
    for (k, b) in bytes.iter().enumerate() {
        nes.memory[0x8000 + k] = *b;
    }
    nes
}

#[test]
fn unknown_opcode_cannot_step() {
    let nes = with_program(&[0x02]);
    assert!(!nes.can_step());
}

#[test]
fn immediate_and_ram_reads_can_step() {
    assert!(with_program(&[0xA9, 0x01]).can_step());
    assert!(with_program(&[0xAD, 0x34, 0x12]).can_step());
    assert!(with_program(&[0xAD, 0x00, 0x80]).can_step());
}

#[test]
fn reading_write_only_ppu_registers_cannot_step() {
    // LDA $2000, LDA $2006 and the mirror LDA $3FF8 of $2000.
    assert!(!with_program(&[0xAD, 0x00, 0x20]).can_step());
    assert!(!with_program(&[0xAD, 0x06, 0x20]).can_step());
    assert!(!with_program(&[0xAD, 0xF8, 0x3F]).can_step());
    // LDA $2002 reads PPUSTATUS.
    assert!(with_program(&[0xAD, 0x02, 0x20]).can_step());
}

#[test]
fn ppudata_on_name_tables_needs_a_mirroring() {
    let mut nes = with_program(&[0xAD, 0x07, 0x20]);
    nes.ppu.address_register.hi_byte = 0x20;
    nes.ppu.address_register.lo_byte = 0x00;
    assert!(!nes.can_step());
    nes.ppu.mirroring = Mirroring::Vertical;
    assert!(nes.can_step());
    nes.step();
    assert_eq!(nes.ppu.address_register.lo_byte, 0x01);
}

#[test]
fn stores_to_status_and_rom_cannot_step() {
    // STA $2002 and STA $8000.
    assert!(!with_program(&[0x8D, 0x02, 0x20]).can_step());
    assert!(!with_program(&[0x8D, 0x00, 0x80]).can_step());
    // STA $2000 and STA $0200.
    assert!(with_program(&[0x8D, 0x00, 0x20]).can_step());
    assert!(with_program(&[0x8D, 0x00, 0x02]).can_step());
}

#[test]
fn oam_dma_from_register_pages_cannot_step() {
    let mut nes = with_program(&[0x8D, 0x14, 0x40]);
    nes.acc = 0x20;
    assert!(!nes.can_step());
    nes.acc = 0x3F;
    assert!(!nes.can_step());
    nes.acc = 0x02;
    assert!(nes.can_step());
    nes.acc = 0x40;
    assert!(nes.can_step());
}

#[test]
fn read_modify_write_on_registers() {
    // INC $2004 (OAMDATA) and INC $4014 have meaning; INC $2002 has none.
    assert!(with_program(&[0xEE, 0x04, 0x20]).can_step());
    assert!(with_program(&[0xEE, 0x14, 0x40]).can_step());
    assert!(!with_program(&[0xEE, 0x02, 0x20]).can_step());
    // ASL $8000 writes to ROM.
    assert!(!with_program(&[0x0E, 0x00, 0x80]).can_step());
}

#[test]
fn indirect_jump_through_registers_cannot_step() {
    assert!(!with_program(&[0x6C, 0x02, 0x20]).can_step());
    assert!(!with_program(&[0x6C, 0xFF, 0x3F]).can_step());
    assert!(with_program(&[0x6C, 0x00, 0x02]).can_step());
    assert!(with_program(&[0x6C, 0x00, 0x90]).can_step());
}

#[test]
fn control_flow_can_step() {
    // BRK, RTS, JSR $9000, BNE +2, NOP.
    assert!(with_program(&[0x00]).can_step());
    assert!(with_program(&[0x60]).can_step());
    assert!(with_program(&[0x20, 0x00, 0x90]).can_step());
    assert!(with_program(&[0xD0, 0x02]).can_step());
    assert!(with_program(&[0xEA]).can_step());
}
