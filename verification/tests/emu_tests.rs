use nesemu::controller::Key;
use nesemu::emu::Nes;
use nesemu::ppu::Mirroring;

#[test]
fn start_state() {
    let nes = Nes::start();
    assert_eq!(nes.pc, 0x8000);
    assert_eq!(nes.sp, 0xFD);
    assert_eq!(nes.p, 0b0010_0100);
    assert_eq!((nes.acc, nes.x, nes.y, nes.page_cross), (0, 0, 0, 0));
    assert!(nes.memory.iter().all(|&b| b == 0));
    assert_eq!(nes.ppu.mirroring, Mirroring::NotSet);
}

#[test]
fn fetches_advance_pc() {
    let mut nes = Nes::start();
    nes.memory[0x8000] = 0x34;
    nes.memory[0x8001] = 0x12;
    assert_eq!(nes.grababs(), 0x1234);
    assert_eq!(nes.pc, 0x8000);
    assert_eq!(nes.nextabs(), 0x1234);
    assert_eq!(nes.pc, 0x8002);
    nes.pc = 0xFFFF;
    nes.memory[0xFFFF] = 0xEE;
    assert_eq!(nes.nextOp(), 0xEE);
    assert_eq!(nes.pc, 0);
}

#[test]
fn flags_set_and_reset() {
    let mut nes = Nes::start();
    nes.set_flags(0b1000_0001);
    assert_eq!(nes.p, 0b1010_0101);
    nes.reset_flags(0b1000_0100);
    assert_eq!(nes.p, 0b0010_0001);
}

#[test]
fn stack_push_pop() {
    let mut nes = Nes::start();
    nes.push_to_stack(0xAA);
    assert_eq!(nes.memory[0x1FD], 0xAA);
    assert_eq!(nes.sp, 0xFC);
    nes.push_to_stack(0xBB);
    assert_eq!(nes.pop_from_stack(), 0xBB);
    assert_eq!(nes.pop_from_stack(), 0xAA);
    assert_eq!(nes.sp, 0xFD);
    // the stack pointer wraps within page 1
    nes.sp = 0;
    nes.push_to_stack(1);
    assert_eq!(nes.memory[0x100], 1);
    assert_eq!(nes.sp, 0xFF);
    assert_eq!(nes.pop_from_stack(), 1);
}

#[test]
fn ram_is_mirrored() {
    let mut nes = Nes::start();
    nes.write_memory(0x0801, 0x5A);
    assert_eq!(nes.memory[0x0001], 0x5A);
    assert_eq!(nes.read_memory(0x0001), 0x5A);
    assert_eq!(nes.read_memory(0x1001), 0x5A);
    assert_eq!(nes.read_memory(0x1801), 0x5A);
    nes.write_memory(0x07FF, 9);
    assert_eq!(nes.read_memory(0x1FFF), 9);
}

#[test]
fn cartridge_space_reads_memory_and_apu_reads_zero() {
    let mut nes = Nes::start();
    nes.memory[0x8123] = 0x77;
    nes.memory[0x4005] = 0x77;
    assert_eq!(nes.read_memory(0x8123), 0x77);
    assert_eq!(nes.read_memory(0x4005), 0);
    nes.write_memory(0x4005, 1);
    assert_eq!(nes.memory[0x4005], 0x77);
}

#[test]
fn ppu_registers_through_the_bus() {
    let mut nes = Nes::start();
    nes.write_memory(0x2000, 0x80);
    assert_eq!(nes.ppu.ppuctrl, 0x80);
    nes.write_memory(0x2009, 0x1E);
    assert_eq!(nes.ppu.ppumask, 0x1E);
    nes.write_memory(0x2006, 0x00);
    nes.write_memory(0x2006, 0x40);
    nes.write_memory(0x2007, 0x12);
    assert_eq!(nes.ppu.memory[0x40], 0x12);
    nes.ppu.ppustatus = 0x80;
    assert_eq!(nes.read_memory(0x3FFA), 0x80);
    assert_eq!(nes.ppu.ppustatus, 0);
    nes.write_memory(0x2003, 4);
    nes.write_memory(0x2004, 0x99);
    assert_eq!(nes.ppu.oam[4], 0x99);
    nes.write_memory(0x2003, 4);
    assert_eq!(nes.read_memory(0x2004), 0x99);
    nes.write_memory(0x2005, 3);
    assert_eq!(nes.ppu.scroll_register.x, 3);
}

#[test]
fn controller_through_the_bus() {
    let mut nes = Nes::start();
    nes.controller_1.press(Key::P);
    nes.write_memory(0x4016, 1);
    nes.write_memory(0x4016, 0);
    assert_eq!(nes.read_memory(0x4016), 0);
    assert_eq!(nes.read_memory(0x4016), 1);
    assert_eq!(nes.read_memory(0x4016), 0);
}

#[test]
fn oam_dma_copies_a_page() {
    let mut nes = Nes::start();
    for i in 0..256 {
        nes.memory[0x200 + i] = i as u8;
    }
    nes.ppu.oamaddr = 0;
    nes.write_memory(0x4014, 0x02);
    assert_eq!(nes.ppu.oamdma, 0x02);
    for i in 0..255 {
        assert_eq!(nes.ppu.oam[i], i as u8);
    }
    // the last byte of the page is not copied; its slot stays 0
    assert_eq!(nes.ppu.oam[255], 0);
}

#[test]
fn oam_dma_starts_at_oam_address() {
    let mut nes = Nes::start();
    for i in 0..256 {
        nes.memory[0x300 + i] = 0x10 + (i as u8 % 0x40);
    }
    nes.ppu.oamaddr = 4;
    nes.write_memory(0x4014, 0x03);
    assert_eq!(nes.ppu.oam[4], 0x10);
    assert_eq!(nes.ppu.oam[5], 0x11);
    assert_eq!(nes.ppu.oam[2], nes.memory[0x300 + 254]);
    assert_eq!(nes.ppu.oam[3], 0);
}

#[test]
fn nmi_pushes_state_and_jumps_to_vector() {
    let mut nes = Nes::start();
    nes.pc = 0x1234;
    nes.p = 0b0010_0001;
    nes.memory[0xFFFA] = 0x00;
    nes.memory[0xFFFB] = 0x90;
    nes.nmi_interrput();
    assert_eq!(nes.pc, 0x9000);
    assert_eq!(nes.memory[0x1FD], 0x12);
    assert_eq!(nes.memory[0x1FC], 0x34);
    assert_eq!(nes.memory[0x1FB], 0b0010_0001);
    assert_eq!(nes.sp, 0xFA);
    assert_eq!(nes.p & 0b100, 0b100);
}
