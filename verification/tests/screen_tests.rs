use nesemu::ppu::{Mirroring, PPU};
use nesemu::screen::{flip_both, flip_tile_horizontal, flip_tile_vertical, Screen, PALLETE};

fn sample_tile() -> [u8; 64] {
    let mut t = [0u8; 64];
    for k in 0..64 {
        t[k] = (k % 4) as u8;
    }
    t
}

#[test]
fn new_screen_is_black() {
    let s = Screen::new();
    assert!(s.screen.iter().all(|&p| p == 0));
    assert_eq!(s.pallete, [0x1, 0x23, 0x27, 0x30]);
}

#[test]
fn set_then_get_pixel() {
    let mut s = Screen::new();
    s.set_pixel(10, 20, 0xABCDEF);
    assert_eq!(s.get_pixel(10, 20), 0xABCDEF);
    assert_eq!(s.screen[10 + 20 * 256], 0xABCDEF);
    assert_eq!(s.get_pixel(11, 20), 0);
}

#[test]
fn get_color_uses_the_palette() {
    let mut s = Screen::new();
    assert_eq!(s.get_color(0), PALLETE[0x1]);
    assert_eq!(s.get_color(3), PALLETE[0x30]);
    s.pallete = [0xff, 0x0d, 0x40, 0x3f];
    assert_eq!(s.get_color(0), 0xffffffff);
    assert_eq!(s.get_color(2), 0xffffffff);
    assert_eq!(s.get_color(3), 0x000000);
    assert_eq!(PALLETE[0x20], 0xffffff);
}

#[test]
fn draw_tile_colours_an_8x8_block() {
    let mut s = Screen::new();
    let t = sample_tile();
    s.draw_tile(8, 16, t);
    for i in 0..8 {
        for j in 0..8 {
            assert_eq!(s.get_pixel(8 + i, 16 + j), PALLETE[[0x1, 0x23, 0x27, 0x30][t[i + 8 * j] as usize]]);
        }
    }
    assert_eq!(s.get_pixel(7, 16), 0);
    assert_eq!(s.get_pixel(16, 16), 0);
}

#[test]
fn draw_tile_clips_and_skips_transparent() {
    let mut s = Screen::new();
    s.pallete = [0xff, 0x20, 0x20, 0x20];
    let t = sample_tile();
    s.draw_tile(252, 236, t);
    // colour number 0 is transparent: the pixel keeps its value
    assert_eq!(s.get_pixel(252, 236), 0);
    assert_eq!(s.get_pixel(253, 236), 0xffffff);
    assert_eq!(s.get_pixel(255, 239), 0xffffff);
}

#[test]
fn sprite_behind_background() {
    let mut s = Screen::new();
    s.pallete = [0xff, 0x20, 0x20, 0x20];
    // the background colour is system colour 0x0f (black); one pixel already shows something else
    s.set_pixel(1, 0, 0x123456);
    let mut t = [0u8; 64];
    t[0] = 1;
    t[1] = 1;
    let mut overlapped = false;
    s.draw_sprite_behind_bg(0, 0, 0x0f, t, &mut overlapped);
    assert_eq!(s.get_pixel(0, 0), 0xffffff);
    assert_eq!(s.get_pixel(1, 0), 0x123456);
    assert!(overlapped);
}

#[test]
fn sprite_in_front_sets_overlap() {
    let mut s = Screen::new();
    s.pallete = [0xff, 0x20, 0x20, 0x20];
    s.set_pixel(1, 0, 0x123456);
    let mut t = [0u8; 64];
    t[0] = 1;
    let mut overlapped = false;
    s.draw_sprite_0(0, 0, 0x0f, t, &mut overlapped);
    assert_eq!(s.get_pixel(0, 0), 0xffffff);
    assert!(!overlapped);
    t[1] = 2;
    s.draw_sprite_0(0, 0, 0x0f, t, &mut overlapped);
    assert_eq!(s.get_pixel(1, 0), 0xffffff);
    assert!(overlapped);
}

#[test]
fn flips() {
    let mut t = [0u8; 64];
    for k in 0..64 {
        t[k] = k as u8;
    }
    let v = flip_tile_vertical(t);
    assert_eq!(v[0], 56);
    assert_eq!(v[63], 7);
    let h = flip_tile_horizontal(t);
    assert_eq!(h[0], 7);
    assert_eq!(h[63], 56);
    let b = flip_both(t);
    assert_eq!(b[0], 63);
    assert_eq!(b[63], 0);
    assert_eq!(flip_tile_vertical(v), t);
    assert_eq!(flip_tile_horizontal(h), t);
    assert_eq!(flip_both(b), t);
    assert_eq!(flip_tile_horizontal(flip_tile_vertical(t)), b);
}

#[test]
fn render_background_draws_the_nametable() {
    let mut ppu = PPU::new();
    ppu.mirroring = Mirroring::Vertical;
    // tile 1: every pixel colour number 1
    for r in 0..8 {
        ppu.memory[16 + r] = 0xFF;
    }
    // name table: tile 1 at the top-left, tile 0 (blank) elsewhere
    ppu.memory[0x2000] = 1;
    // attribute of the top-left quadrant selects palette 1
    ppu.memory[0x23C0] = 0b01;
    ppu.memory[0x3f00] = 0x0f;
    ppu.memory[0x3f05] = 0x20;
    let mut s = Screen::new();
    s.render_background(&mut ppu);
    assert_eq!(s.get_pixel(0, 0), 0xffffff);
    assert_eq!(s.get_pixel(7, 7), 0xffffff);
    assert_eq!(s.get_pixel(8, 0), PALLETE[0x0f]);
    assert_eq!(s.get_pixel(255, 239), PALLETE[0x0f]);
    assert_eq!(s.pallete, [0x0f, 0, 0, 0]);
}

#[test]
fn render_sprites_draws_and_detects_sprite_zero_hit() {
    let mut ppu = PPU::new();
    // tile 2: every pixel colour number 1
    for r in 0..8 {
        ppu.memory[32 + r] = 0xFF;
    }
    ppu.memory[0x3f00] = 0x0f;
    ppu.memory[0x3f11] = 0x20;
    // sprites 1..63 off screen with a blank tile; sprite 0 at (4, 3) with tile 2
    for n in 1..64 {
        ppu.oam[4 * n] = 0xF0;
        ppu.oam[4 * n + 3] = 0xF8;
    }
    ppu.oam[0] = 3;
    ppu.oam[1] = 2;
    ppu.oam[2] = 0;
    ppu.oam[3] = 4;
    let mut s = Screen::new();
    // the frame shows something else than the background colour under the sprite
    s.set_pixel(5, 4, 0x111111);
    s.render_sprites(&mut ppu);
    assert_eq!(s.get_pixel(4, 3), 0xffffff);
    assert_eq!(s.get_pixel(11, 10), 0xffffff);
    assert_eq!(s.get_pixel(12, 3), 0);
    assert_eq!(ppu.ppustatus & 0b0100_0000, 0b0100_0000);
    assert_eq!(s.pallete, [0xff, 0x20, 0, 0]);
}
