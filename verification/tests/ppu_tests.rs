use nesemu::ppu::{pallete_mirror, Mirroring, ScrollRegister, PPU};

#[test]
fn new_ppu_is_blank() {
    let p = PPU::new();
    assert_eq!(p.ppuctrl, 0);
    assert_eq!(p.ppustatus, 0);
    assert!(p.memory.iter().all(|&b| b == 0));
    assert!(p.oam.iter().all(|&b| b == 0));
    assert_eq!(p.mirroring, Mirroring::NotSet);
    assert_eq!(p.scanlines, 0);
    assert_eq!(p.cycles, 0);
    assert!(p.address_register.first_byte);
}

#[test]
fn palette_mirror_values() {
    assert_eq!(pallete_mirror(0x3f00), 0x3f00);
    assert_eq!(pallete_mirror(0x3f01), 0x3f01);
    assert_eq!(pallete_mirror(0x3f10), 0x3f00);
    assert_eq!(pallete_mirror(0x3f14), 0x3f04);
    assert_eq!(pallete_mirror(0x3f18), 0x3f08);
    assert_eq!(pallete_mirror(0x3f1c), 0x3f1c);
    assert_eq!(pallete_mirror(0x3f21), 0x3f01);
    assert_eq!(pallete_mirror(0x3fff), 0x3f1f);
    assert_eq!(pallete_mirror(0x3f30), 0x3f00);
}

#[test]
fn ppuaddr_two_writes_then_data_write() {
    let mut p = PPU::new();
    p.write_ppuaddr(0x21);
    assert!(!p.address_register.first_byte);
    // a read of PPUSTATUS resets the latch, so the next write is a high byte again
    p.read_ppustatus();
    p.write_ppuaddr(0x01);
    p.write_ppuaddr(0x23);
    p.write_ppudata(0xAB);
    assert_eq!(p.memory[0x0123], 0xAB);
    assert_eq!(p.address_register.hi_byte, 0x01);
    assert_eq!(p.address_register.lo_byte, 0x24);
}

#[test]
fn ppuaddr_high_byte_is_mirrored_below_0x4000() {
    let mut p = PPU::new();
    p.write_ppuaddr(0x7F);
    p.write_ppuaddr(0x10);
    assert_eq!(p.address_register.hi_byte, 0x3F);
    assert_eq!(p.address_register.lo_byte, 0x10);
}

#[test]
fn ppudata_increment_by_32() {
    let mut p = PPU::new();
    p.write_ppuctrl(0b100);
    p.write_ppuaddr(0x00);
    p.write_ppuaddr(0x10);
    p.write_ppudata(1);
    p.write_ppudata(2);
    assert_eq!(p.memory[0x10], 1);
    assert_eq!(p.memory[0x30], 2);
}

#[test]
fn ppudata_read_is_buffered_except_palettes() {
    let mut p = PPU::new();
    p.memory[0x0200] = 0x11;
    p.memory[0x0201] = 0x22;
    p.memory[0x3f05] = 0x2A;
    p.write_ppuaddr(0x02);
    p.write_ppuaddr(0x00);
    assert_eq!(p.read_ppudata(), 0); // the old buffer
    assert_eq!(p.read_ppudata(), 0x11);
    assert_eq!(p.read_ppudata(), 0x22);
    p.write_ppuaddr(0x3f);
    p.write_ppuaddr(0x05);
    assert_eq!(p.read_ppudata(), 0x2A); // palettes come back at once
}

#[test]
fn nametable_mirroring() {
    let mut p = PPU::new();
    p.mirroring = Mirroring::Vertical;
    p.write_ppuaddr(0x28);
    p.write_ppuaddr(0x05);
    p.write_ppudata(0x99);
    assert_eq!(p.memory[0x2005], 0x99);
    assert_eq!(p.read_ppudata_add(0x2805), 0x99);
    assert_eq!(p.read_ppudata_add(0x3805), 0x99);

    let mut q = PPU::new();
    q.mirroring = Mirroring::Horizontal;
    q.write_ppuaddr(0x24);
    q.write_ppuaddr(0x05);
    q.write_ppudata(0x42);
    assert_eq!(q.memory[0x2005], 0x42);
    assert_eq!(q.read_ppudata_add(0x2005), 0x42);

    let mut r = PPU::new();
    r.mirroring = Mirroring::SingleScreen;
    r.write_ppuaddr(0x2C);
    r.write_ppuaddr(0x01);
    r.write_ppudata(0x13);
    assert_eq!(r.memory[0x2001], 0x13);

    let mut f = PPU::new();
    f.mirroring = Mirroring::FourScreen;
    f.write_ppuaddr(0x2C);
    f.write_ppuaddr(0x01);
    f.write_ppudata(0x14);
    assert_eq!(f.memory[0x2C01], 0x14);
}

#[test]
fn read_ppustatus_clears_vblank_and_latch() {
    let mut p = PPU::new();
    p.ppustatus = 0b1110_0000;
    p.write_ppuaddr(0x12);
    assert!(!p.address_register.first_byte);
    assert_eq!(p.read_ppustatus(), 0b1110_0000);
    assert_eq!(p.ppustatus, 0b0110_0000);
    assert!(p.address_register.first_byte);
}

#[test]
fn oam_address_and_data() {
    let mut p = PPU::new();
    p.oam[5] = 0x55;
    p.write_oamaddr(5);
    assert_eq!(p.read_oamdata(), 0x55);
    p.write_oamdata(0x66);
    assert_eq!(p.oam[5], 0x66);
    assert_eq!(p.oamaddr, 6);
    p.write_oamaddr(255);
    p.write_oamdata(1);
    assert_eq!(p.oam[255], 1);
    assert_eq!(p.oamaddr, 0);
}

#[test]
fn oam_dma_replaces_oam() {
    let mut p = PPU::new();
    let mut slice = [0u8; 256];
    slice[10] = 3;
    p.write_oamdma(slice, 0x02);
    assert_eq!(p.oam[10], 3);
    assert_eq!(p.oamdma, 0x02);
}

#[test]
fn scroll_register_alternates() {
    let mut p = PPU::new();
    p.write_ppuscroll(7);
    p.write_ppuscroll(9);
    assert_eq!(p.scroll_register.x, 7);
    assert_eq!(p.scroll_register.y, 9);
    assert!(p.scroll_register.setting_x);
    let mut s = ScrollRegister { x: 0, y: 0, setting_x: false };
    s.set(4);
    assert_eq!(s.y, 4);
    assert!(s.setting_x);
}

#[test]
fn tick_counts_dots_and_scanlines() {
    let mut p = PPU::new();
    assert_eq!(p.tick(200), (false, false));
    assert_eq!(p.cycles, 200);
    assert_eq!(p.tick(200), (false, false));
    assert_eq!(p.cycles, 59);
    assert_eq!(p.scanlines, 1);
}

#[test]
fn tick_vblank_and_nmi() {
    let mut p = PPU::new();
    p.scanlines = 240;
    p.cycles = 340;
    assert_eq!(p.tick(3), (false, true));
    assert_eq!(p.scanlines, 241);
    assert_eq!(p.ppustatus & 0x80, 0x80);

    let mut q = PPU::new();
    q.ppuctrl = 0x80;
    q.scanlines = 240;
    q.cycles = 340;
    assert_eq!(q.tick(3), (true, true));

    let mut r = PPU::new();
    r.scanlines = 261;
    r.cycles = 340;
    r.ppustatus = 0xE0;
    assert_eq!(r.tick(3), (false, false));
    assert_eq!(r.scanlines, 0);
    assert_eq!(r.ppustatus, 0x20);
}

#[test]
fn tick_stays_in_frame_on_values() {
    let mut p = PPU::new();
    for _ in 0..100000 {
        p.tick(21);
        assert!(p.cycles < 341);
        assert!(p.scanlines < 262);
    }
}

#[test]
fn get_tile_decodes_both_planes() {
    let mut p = PPU::new();
    // tile 1 of bank 0: first plane row 0 = 0b1000_0001, second plane row 0 = 0b1100_0000
    p.memory[16] = 0b1000_0001;
    p.memory[24] = 0b1100_0000;
    let t = p.get_tile(1, 0);
    assert_eq!(t[0], 3);
    assert_eq!(t[1], 2);
    assert_eq!(t[2], 0);
    assert_eq!(t[7], 1);
    assert!(t[8..].iter().all(|&v| v == 0));
    // bank 1
    p.memory[0x1000] = 0xFF;
    let u = p.get_tile(0, 1);
    assert!(u[0..8].iter().all(|&v| v == 1));
}

#[test]
fn palettes() {
    let mut p = PPU::new();
    for i in 0..32 {
        p.memory[0x3f00 + i] = i as u8 + 1;
    }
    assert_eq!(p.get_pallete(0), [1, 2, 3, 4]);
    assert_eq!(p.get_pallete(2), [1, 10, 11, 12]);
    assert_eq!(p.get_sprite_pallete(0), [0xff, 18, 19, 20]);
    assert_eq!(p.get_sprite_pallete(3), [0xff, 30, 31, 32]);
}
