use vstd::prelude::*;
use crate::ppu::{PPU, PpuModel, Mirroring, spec_ppu_target, spec_tile_pixel, spec_tile_base};

verus! {

/// The 64 colours of the system palette, as 0xRRGGBB.
pub const PALLETE: [u32; 0x40] = [
    0x626262, 0x001fb2, 0x2404c8, 0x5200b2, 0x730076, 0x800024, 0x730b00, 0x522800, 0x244400, 0x005700, 0x005c00, 0x005324, 0x003c76, 0x000000, 0x000000, 0x000000,
    0xababab, 0x0d57ff, 0x4b30ff, 0x8a13ff, 0xbc08d6, 0xd21269, 0xc72e00, 0x9d5400, 0x607b00, 0x209800, 0x00a300, 0x009942, 0x007db4, 0x000000, 0x000000, 0x000000,
    0xffffff, 0x53aeff, 0x9085ff, 0xd365ff, 0xff57ff, 0xff5dcf, 0xff7757, 0xfa9e00, 0xbdc700, 0x7ae700, 0x43f611, 0x26ef7e, 0x2cd5e6, 0x4e4e4e, 0x000000, 0x000000,
    0xffffff, 0xb6e1ff, 0xced1ff, 0xe9c3ff, 0xffbcff, 0xffbdf4, 0xffc8c3, 0xffd59a, 0xe9e681, 0xcef481, 0xb6fb9a, 0xa9fac3, 0xa9f0f4, 0xb8b8b8, 0x000000, 0x000000];

/// The colour value that stands for a transparent pixel.
pub const TRANSPARENT: u32 = 0xffffffff;

/// Screen width in pixels.
pub const WIDTH: usize = 256;

/// Screen height in pixels.
pub const HEIGHT: usize = 240;

/// A 256 x 240 frame of 0xRRGGBB pixels, row by row, and the four palette entries (indices into
/// the system palette) with which tiles are coloured.
pub struct Screen {
    pub screen: [u32; 61440],
    pub pallete: [u8; 4],
}

/// The pixel at column `x`, row `y` of a frame.
pub open spec fn pixel(screen: Seq<u32>, x: int, y: int) -> u32 {
    screen[x + y * 256]
}

/// The colour of colour number `index` under a palette: the system colour its entry names, or
/// `TRANSPARENT` when the entry is 0x40 or above.
pub open spec fn spec_color(pallete: Seq<u8>, index: u8) -> u32 {
    let c = pallete[index as int];
    if c >= 0x40 { TRANSPARENT } else { PALLETE@[c as int] }
}

/// Whether pixel (`px`, `py`) of the screen lies in the 8 x 8 block whose top-left is (`x`, `y`).
pub open spec fn in_block(x: int, y: int, px: int, py: int) -> bool {
    x <= px < x + 8 && y <= py < y + 8
}

/// The colour that a tile drawn with its top-left at (`x`, `y`) gives pixel (`px`, `py`) of the
/// screen, or `None` where it leaves the pixel as it was (outside the tile, or transparent).
pub open spec fn spec_tile_color(pallete: Seq<u8>, tile: Seq<u8>, x: int, y: int, px: int, py: int) -> Option<u32> {
    if in_block(x, y, px, py) {
        let c = spec_color(pallete, tile[(px - x) + 8 * (py - y)]);
        if c == TRANSPARENT { None } else { Some(c) }
    } else {
        None
    }
}

/// Whether every pixel of a tile drawn at (`x`, `y`) that falls on the screen has a colour
/// number that the palette has (0..=3).
pub open spec fn tile_indices_ok(tile: Seq<u8>, x: int, y: int) -> bool {
    forall|i: int, j: int| 0 <= i < 8 && 0 <= j < 8 && x + i < 256 && y + j < 240 ==> #[trigger] tile[i + 8 * j] < 4
}

/// Whether a tile drawn at (`x`, `y`) colours some pixel of the screen.
pub open spec fn tile_visible(pallete: Seq<u8>, tile: Seq<u8>, x: int, y: int) -> bool {
    exists|px: int, py: int| 0 <= px < 256 && 0 <= py < 240 && #[trigger] spec_tile_color(pallete, tile, x, y, px, py) is Some
}

/// A frame with a tile drawn at (`x`, `y`) over it.
pub open spec fn frame_with_tile(screen: Seq<u32>, pallete: Seq<u8>, tile: Seq<u8>, x: int, y: int) -> Seq<u32> {
    Seq::new(61440, |k: int| match spec_tile_color(pallete, tile, x, y, k % 256, k / 256) {
        Some(c) => c,
        None => screen[k],
    })
}

/// A frame with a sprite drawn behind the background at (`x`, `y`): the sprite colours only the
/// pixels that show the universal background colour (system colour `bg`).
pub open spec fn frame_with_sprite_behind(screen: Seq<u32>, pallete: Seq<u8>, tile: Seq<u8>, x: int, y: int, bg: u8) -> Seq<u32> {
    Seq::new(61440, |k: int| match spec_tile_color(pallete, tile, x, y, k % 256, k / 256) {
        Some(c) => if screen[k] == PALLETE@[bg as int] { c } else { screen[k] },
        None => screen[k],
    })
}

/// Whether a sprite drawn at (`x`, `y`) has an opaque pixel on a pixel of the frame that does not
/// show the universal background colour (system colour `bg`).
pub open spec fn sprite_overlaps(screen: Seq<u32>, pallete: Seq<u8>, tile: Seq<u8>, x: int, y: int, bg: u8) -> bool {
    exists|px: int, py: int| 0 <= px < 256 && 0 <= py < 240 && #[trigger] spec_tile_color(pallete, tile, x, y, px, py) is Some
        && pixel(screen, px, py) != PALLETE@[bg as int]
}

/// The first name-table address that PPUCTRL selects (bits 0-1).
pub open spec fn nametable_base(ppuctrl: u8) -> int {
    0x2000 + (ppuctrl & 0b11) as int * 0x400
}

/// The byte of PPU memory that PPU address `address` reaches (see `spec_ppu_target`).
pub open spec fn ppu_byte(p: PpuModel, address: int) -> u8 {
    p.memory[spec_ppu_target(p.mirroring, address as u16).unwrap()]
}

/// The colour numbers of a tile of the pattern tables.
pub open spec fn pattern_tile(p: PpuModel, tile: int, bank: int) -> Seq<u8> {
    Seq::new(64, |k: int| spec_tile_pixel(p.memory, spec_tile_base(tile, bank), k))
}

/// The palette number (0..=3) of background tile `t` (column `t % 32`, row `t / 32`): the
/// two bits of its attribute byte for the 16 x 16 quadrant it lies in.
pub open spec fn bg_palette_number(p: PpuModel, t: int) -> u8 {
    let base = nametable_base(p.ppuctrl);
    let x = t % 32;
    let y = t / 32;
    let attr = ppu_byte(p, base + 0x3c0 + x / 4 + (y / 4) * 8);
    let qx = x % 4 / 2;
    let qy = y % 4 / 2;
    if qx == 0 && qy == 0 {
        attr & 0b11
    } else if qx == 1 && qy == 0 {
        (attr >> 2u8) & 0b11
    } else if qx == 0 {
        (attr >> 4u8) & 0b11
    } else {
        (attr >> 6u8) & 0b11
    }
}

/// The four palette entries of background palette `n`.
pub open spec fn bg_palette(p: PpuModel, n: u8) -> Seq<u8> {
    seq![p.memory[0x3f00], p.memory[0x3f01 + n * 4], p.memory[0x3f02 + n * 4], p.memory[0x3f03 + n * 4]]
}

/// The colour numbers of background tile `t`: the pattern (from the table that bit 4 of
/// PPUCTRL selects) that its name-table entry names.
pub open spec fn bg_tile(p: PpuModel, t: int) -> Seq<u8> {
    pattern_tile(p, ppu_byte(p, nametable_base(p.ppuctrl) + t) as int, ((p.ppuctrl & 0b10000) >> 4u8) as int)
}

/// The index of the background tile that covers pixel (`px`, `py`).
pub open spec fn bg_tile_index(px: int, py: int) -> int {
    (py / 8) * 32 + px / 8
}

/// The colour that the background gives pixel (`px`, `py`), or `None` where it is transparent.
pub open spec fn bg_color(p: PpuModel, px: int, py: int) -> Option<u32> {
    let t = bg_tile_index(px, py);
    spec_tile_color(bg_palette(p, bg_palette_number(p, t)), bg_tile(p, t), (t % 32) * 8, (t / 32) * 8, px, py)
}

/// A frame with the background drawn over it.
pub open spec fn frame_with_background(screen: Seq<u32>, p: PpuModel) -> Seq<u32> {
    Seq::new(61440, |k: int| match bg_color(p, k % 256, k / 256) {
        Some(c) => c,
        None => screen[k],
    })
}

/// Which pixels background tile `i` covers.
proof fn lemma_bg_block(i: int, px: int, py: int)
    requires
        0 <= i < 960,
        0 <= px < 256,
        0 <= py < 240,
    ensures
        in_block((i % 32) * 8, (i / 32) * 8, px, py) <==> bg_tile_index(px, py) == i,
        0 <= bg_tile_index(px, py) < 960,
{
    assert(in_block((i % 32) * 8, (i / 32) * 8, px, py) <==> (px / 8 == i % 32 && py / 8 == i / 32)) by (nonlinear_arith)
        requires
            0 <= i < 960,
            0 <= px < 256,
            0 <= py < 240,
    ;
    assert((px / 8 == i % 32 && py / 8 == i / 32) <==> (py / 8) * 32 + px / 8 == i) by (nonlinear_arith)
        requires
            0 <= i < 960,
            0 <= px < 256,
            0 <= py < 240,
    ;
    assert(0 <= (py / 8) * 32 + px / 8 < 960) by (nonlinear_arith)
        requires
            0 <= px < 256,
            0 <= py < 240,
    ;
}

/// The attribute byte of sprite `n` (byte 2 of its OAM entry).
pub open spec fn sprite_attr(p: PpuModel, n: int) -> u8 {
    p.oam[4 * n + 2]
}

/// The four palette entries of sprite `n`: transparent (0xFF) followed by the three entries of
/// the sprite palette that bits 0-1 of its attribute byte select.
pub open spec fn sprite_palette(p: PpuModel, n: int) -> Seq<u8> {
    let k = (sprite_attr(p, n) & 0b11) as int;
    seq![0xffu8, p.memory[0x3f11 + k * 4], p.memory[0x3f12 + k * 4], p.memory[0x3f13 + k * 4]]
}

/// The colour numbers of sprite `n`: the pattern (from the table that bit 3 of PPUCTRL selects)
/// that byte 1 of its OAM entry names, mirrored left to right when bit 6 of its attribute byte
/// is set and top to bottom when bit 7 is.
pub open spec fn sprite_tile(p: PpuModel, n: int) -> Seq<u8> {
    let t = pattern_tile(p, p.oam[4 * n + 1] as int, ((p.ppuctrl & 0b1000) >> 3u8) as int);
    let a = sprite_attr(p, n);
    let h = a & 0b1000000 != 0;
    let v = a >= 128;
    if h && v {
        spec_flip_both(t)
    } else if h {
        spec_flip_horizontal(t)
    } else if v {
        spec_flip_vertical(t)
    } else {
        t
    }
}

/// The system colour of the universal background (palette entry 0x3F00).
pub open spec fn universal_bg(p: PpuModel) -> u8 {
    p.memory[0x3f00]
}

/// A frame with sprite `n` drawn over it, at column byte 3 and row byte 0 of its OAM entry:
/// behind the background when bit 5 of its attribute byte is set, in front otherwise.
pub open spec fn frame_with_sprite(screen: Seq<u32>, p: PpuModel, n: int) -> Seq<u32> {
    let x = p.oam[4 * n + 3] as int;
    let y = p.oam[4 * n] as int;
    if sprite_attr(p, n) & 0b100000 != 0 {
        frame_with_sprite_behind(screen, sprite_palette(p, n), sprite_tile(p, n), x, y, universal_bg(p))
    } else {
        frame_with_tile(screen, sprite_palette(p, n), sprite_tile(p, n), x, y)
    }
}

/// Whether sprite `n` has an opaque pixel on a pixel of the frame that does not show the
/// universal background colour.
pub open spec fn sprite_overlap(screen: Seq<u32>, p: PpuModel, n: int) -> bool {
    sprite_overlaps(screen, sprite_palette(p, n), sprite_tile(p, n), p.oam[4 * n + 3] as int, p.oam[4 * n] as int, universal_bg(p))
}

/// A frame with sprites 63 down to `n` drawn over it, in that order (so that a lower-numbered
/// sprite covers a higher-numbered one).
pub open spec fn frame_with_sprites(screen: Seq<u32>, p: PpuModel, n: int) -> Seq<u32>
    decreases 64 - n,
{
    if n >= 64 || n < 0 {
        screen
    } else {
        frame_with_sprite(frame_with_sprites(screen, p, n + 1), p, n)
    }
}

/// Whether some sprite has an opaque pixel on the screen.
pub open spec fn some_sprite_visible(p: PpuModel) -> bool {
    exists|n: int| 0 <= n < 64 && #[trigger] tile_visible(sprite_palette(p, n), sprite_tile(p, n), p.oam[4 * n + 3] as int, p.oam[4 * n] as int)
}

/// Row `k / 8` and column `k % 8` of a tile, mirrored top to bottom.
pub open spec fn spec_flip_vertical(tile: Seq<u8>) -> Seq<u8> {
    Seq::new(64, |k: int| tile[k % 8 + (7 - k / 8) * 8])
}

/// A tile mirrored left to right.
pub open spec fn spec_flip_horizontal(tile: Seq<u8>) -> Seq<u8> {
    Seq::new(64, |k: int| tile[(7 - k % 8) + (k / 8) * 8])
}

/// A tile mirrored both ways.
pub open spec fn spec_flip_both(tile: Seq<u8>) -> Seq<u8> {
    Seq::new(64, |k: int| tile[(7 - k % 8) + (7 - k / 8) * 8])
}

/// The index of pixel (`x`, `y`) and back.
pub proof fn lemma_pixel_index(x: int, y: int)
    requires
        0 <= x < 256,
        0 <= y,
    ensures
        (x + y * 256) % 256 == x,
        (x + y * 256) / 256 == y,
{
    assert((x + y * 256) % 256 == x && (x + y * 256) / 256 == y) by (nonlinear_arith)
        requires
            0 <= x < 256,
            0 <= y,
    ;
}

impl Screen {
    /// A black frame and the palette entries 0x01, 0x23, 0x27, 0x30.
    pub fn new() -> (r: Self)
        ensures
            forall|k: int| 0 <= k < 61440 ==> r.screen@[k] == 0,
            r.pallete@ == seq![0x1u8, 0x23u8, 0x27u8, 0x30u8],
    {
        let r = Screen { screen: [0; 61440], pallete: [0x1, 0x23, 0x27, 0x30] };
        assert(r.pallete@ =~= seq![0x1u8, 0x23u8, 0x27u8, 0x30u8]);
        r
    }

    /// Sets pixel (`x`, `y`).
    pub fn set_pixel(&mut self, x: usize, y: usize, color: u32)
        requires
            x + y * 256 < 61440,
        ensures
            final(self).screen@ == old(self).screen@.update(x + y * 256, color),
            final(self).pallete == old(self).pallete,
    {
        let index = (x as usize) + (y as usize) * 256;
        self.screen[index] = color;
    }

    /// The pixel (`x`, `y`).
    pub fn get_pixel(&self, x: usize, y: usize) -> (r: u32)
        requires
            x + y * 256 < 61440,
        ensures
            r == self.screen@[x + y * 256],
    {
        self.screen[x + y * 256]
    }

    /// The colour of colour number `index` under the current palette (see `spec_color`).
    pub fn get_color(&self, index: u8) -> (r: u32)
        requires
            index < 4,
        ensures
            r == spec_color(self.pallete@, index),
    {
        let color_ind = self.pallete[index as usize];
        if color_ind >= 0x40 {
            return 0xffffffff;
        }
        PALLETE[color_ind as usize]
    }

    /// Draws a tile (64 colour numbers, row by row) with its top-left at (`x`, `y`): every
    /// pixel on the screen that the palette does not make transparent.
    pub fn draw_tile(&mut self, x: usize, y: usize, tile: [u8; 64])
        requires
            x + 8 <= usize::MAX,
            y + 8 <= usize::MAX,
            tile_indices_ok(tile@, x as int, y as int),
        ensures
            final(self).screen@ == frame_with_tile(old(self).screen@, old(self).pallete@, tile@, x as int, y as int),
            final(self).pallete == old(self).pallete,
    {
        let ghost s0 = self.screen@;
        let mut i: usize = 0;
        while i < 8
            invariant
                0 <= i <= 8,
                x + 8 <= usize::MAX,
                y + 8 <= usize::MAX,
                tile_indices_ok(tile@, x as int, y as int),
                self.pallete == old(self).pallete,
                s0 == old(self).screen@,
                self.screen@.len() == 61440,
                forall|px: int, py: int| #![trigger pixel(self.screen@, px, py)] 0 <= px < 256 && 0 <= py < 240 ==>
                    pixel(self.screen@, px, py) == if px < x + i {
                        match spec_tile_color(self.pallete@, tile@, x as int, y as int, px, py) {
                            Some(c) => c,
                            None => pixel(s0, px, py),
                        }
                    } else {
                        pixel(s0, px, py)
                    },
            decreases 8 - i,
        {
            if (x + i) >= 256 {
                i += 1;
                continue;
            }
            let mut j: usize = 0;
            while j < 8
                invariant
                    0 <= i < 8,
                    0 <= j <= 8,
                    x + i < 256,
                    x + 8 <= usize::MAX,
                    y + 8 <= usize::MAX,
                    tile_indices_ok(tile@, x as int, y as int),
                    self.pallete == old(self).pallete,
                    s0 == old(self).screen@,
                    self.screen@.len() == 61440,
                    forall|px: int, py: int| #![trigger pixel(self.screen@, px, py)] 0 <= px < 256 && 0 <= py < 240 ==>
                        pixel(self.screen@, px, py) == if px < x + i || (px == x + i && py < y + j) {
                            match spec_tile_color(self.pallete@, tile@, x as int, y as int, px, py) {
                                Some(c) => c,
                                None => pixel(s0, px, py),
                            }
                        } else {
                            pixel(s0, px, py)
                        },
                decreases 8 - j,
            {
                if y + j >= 240 {
                    j += 1;
                    continue;
                }
                let color = self.get_color(tile[i + 8 * j]);
                if color == 0xffffffff {
                    j += 1;
                    continue;
                }
                let ghost before = self.screen@;
                self.set_pixel(x + i, y + j, color);
                proof {
                    assert forall|px: int, py: int| 0 <= px < 256 && 0 <= py < 240 && (px != x + i || py != y + j)
                        implies #[trigger] pixel(self.screen@, px, py) == pixel(before, px, py) by {
                        assert(px + py * 256 != (x + i) + (y + j) * 256);
                    }
                }
                j += 1;
            }
            i += 1;
        }
        proof {
            assert forall|k: int| 0 <= k < 61440 implies #[trigger] self.screen@[k] == frame_with_tile(s0, self.pallete@, tile@, x as int, y as int)[k] by {
                let px = k % 256;
                let py = k / 256;
                assert(k == px + py * 256);
                assert(pixel(self.screen@, px, py) == self.screen@[k]);
            }
            assert(self.screen@ =~= frame_with_tile(s0, self.pallete@, tile@, x as int, y as int));
        }
    }

    /// Draws a sprite behind the background (see `frame_with_sprite_behind`); `overlapped` is set
    /// when an opaque pixel of the sprite falls on a pixel not showing the background colour.
    pub fn draw_sprite_behind_bg(&mut self, x: usize, y: usize, bg: u8, tile: [u8; 64], overlapped: &mut bool)
        requires
            x + 8 <= usize::MAX,
            y + 8 <= usize::MAX,
            tile_indices_ok(tile@, x as int, y as int),
            tile_visible(old(self).pallete@, tile@, x as int, y as int) ==> bg < 64,
        ensures
            final(self).screen@ == frame_with_sprite_behind(old(self).screen@, old(self).pallete@, tile@, x as int, y as int, bg),
            final(self).pallete == old(self).pallete,
            *final(overlapped) == (*old(overlapped) || sprite_overlaps(old(self).screen@, old(self).pallete@, tile@, x as int, y as int, bg)),
    {
        let ghost s0 = self.screen@;
        let ghost ov0 = *overlapped;
        let ghost pal = self.pallete@;
        let mut i: usize = 0;
        while i < 8
            invariant
                0 <= i <= 8,
                x + 8 <= usize::MAX,
                y + 8 <= usize::MAX,
                tile_indices_ok(tile@, x as int, y as int),
                tile_visible(pal, tile@, x as int, y as int) ==> bg < 64,
                self.pallete == old(self).pallete,
                pal == self.pallete@,
                s0 == old(self).screen@,
                ov0 == *old(overlapped),
                self.screen@.len() == 61440,
                forall|px: int, py: int| #![trigger pixel(self.screen@, px, py)] 0 <= px < 256 && 0 <= py < 240 ==>
                    pixel(self.screen@, px, py) == if px < x + i {
                        match spec_tile_color(pal, tile@, x as int, y as int, px, py) {
                            Some(c) => if pixel(s0, px, py) == PALLETE@[bg as int] { c } else { pixel(s0, px, py) },
                            None => pixel(s0, px, py),
                        }
                    } else {
                        pixel(s0, px, py)
                    },
                *overlapped ==> ov0 || sprite_overlaps(s0, pal, tile@, x as int, y as int, bg),
                ov0 ==> *overlapped,
                forall|px: int, py: int| 0 <= px < 256 && 0 <= py < 240 && px < x + i
                    && #[trigger] spec_tile_color(pal, tile@, x as int, y as int, px, py) is Some
                    && pixel(s0, px, py) != PALLETE@[bg as int] ==> *overlapped,
            decreases 8 - i,
        {
            if (x + i) >= 256 {
                i += 1;
                continue;
            }
            let mut j: usize = 0;
            while j < 8
                invariant
                    0 <= i < 8,
                    0 <= j <= 8,
                    x + i < 256,
                    x + 8 <= usize::MAX,
                    y + 8 <= usize::MAX,
                    tile_indices_ok(tile@, x as int, y as int),
                    tile_visible(pal, tile@, x as int, y as int) ==> bg < 64,
                    self.pallete == old(self).pallete,
                    pal == self.pallete@,
                    s0 == old(self).screen@,
                    ov0 == *old(overlapped),
                    self.screen@.len() == 61440,
                    forall|px: int, py: int| #![trigger pixel(self.screen@, px, py)] 0 <= px < 256 && 0 <= py < 240 ==>
                        pixel(self.screen@, px, py) == if px < x + i || (px == x + i && py < y + j) {
                            match spec_tile_color(pal, tile@, x as int, y as int, px, py) {
                                Some(c) => if pixel(s0, px, py) == PALLETE@[bg as int] { c } else { pixel(s0, px, py) },
                                None => pixel(s0, px, py),
                            }
                        } else {
                            pixel(s0, px, py)
                        },
                    *overlapped ==> ov0 || sprite_overlaps(s0, pal, tile@, x as int, y as int, bg),
                    ov0 ==> *overlapped,
                    forall|px: int, py: int| 0 <= px < 256 && 0 <= py < 240 && (px < x + i || (px == x + i && py < y + j))
                        && #[trigger] spec_tile_color(pal, tile@, x as int, y as int, px, py) is Some
                        && pixel(s0, px, py) != PALLETE@[bg as int] ==> *overlapped,
                decreases 8 - j,
            {
                if y + j >= 240 {
                    j += 1;
                    continue;
                }
                let color = self.get_color(tile[i + 8 * j]);
                if color == 0xffffffff {
                    j += 1;
                    continue;
                }
                proof {
                    assert(spec_tile_color(pal, tile@, x as int, y as int, (x + i) as int, (y + j) as int) is Some);
                }
                let bgc = self.get_pixel(x + i, y + j);
                proof {
                    assert(pixel(self.screen@, (x + i) as int, (y + j) as int) == bgc);
                    assert(pixel(s0, (x + i) as int, (y + j) as int) == bgc);
                }
                if bgc != PALLETE[bg as usize] {
                    *overlapped = true;
                    j += 1;
                    continue;
                }
                let ghost before = self.screen@;
                self.set_pixel(x + i, y + j, color);
                proof {
                    assert forall|px: int, py: int| 0 <= px < 256 && 0 <= py < 240 && (px != x + i || py != y + j)
                        implies #[trigger] pixel(self.screen@, px, py) == pixel(before, px, py) by {
                        assert(px + py * 256 != (x + i) + (y + j) * 256);
                    }
                }
                j += 1;
            }
            i += 1;
        }
        proof {
            let target = frame_with_sprite_behind(s0, pal, tile@, x as int, y as int, bg);
            assert forall|k: int| 0 <= k < 61440 implies #[trigger] self.screen@[k] == target[k] by {
                let px = k % 256;
                let py = k / 256;
                assert(k == px + py * 256);
                assert(pixel(self.screen@, px, py) == self.screen@[k]);
            }
            assert(self.screen@ =~= target);
        }
    }

    /// Draws a sprite in front of the background (as `draw_tile` does); `overlapped` is set when an
    /// opaque pixel of the sprite falls on a pixel not showing the background colour.
    pub fn draw_sprite_0(&mut self, x: usize, y: usize, bg: u8, tile: [u8; 64], overlapped: &mut bool)
        requires
            x + 8 <= usize::MAX,
            y + 8 <= usize::MAX,
            tile_indices_ok(tile@, x as int, y as int),
            tile_visible(old(self).pallete@, tile@, x as int, y as int) ==> bg < 64,
        ensures
            final(self).screen@ == frame_with_tile(old(self).screen@, old(self).pallete@, tile@, x as int, y as int),
            final(self).pallete == old(self).pallete,
            *final(overlapped) == (*old(overlapped) || sprite_overlaps(old(self).screen@, old(self).pallete@, tile@, x as int, y as int, bg)),
    {
        let ghost s0 = self.screen@;
        let ghost ov0 = *overlapped;
        let ghost pal = self.pallete@;
        let mut i: usize = 0;
        while i < 8
            invariant
                0 <= i <= 8,
                x + 8 <= usize::MAX,
                y + 8 <= usize::MAX,
                tile_indices_ok(tile@, x as int, y as int),
                tile_visible(pal, tile@, x as int, y as int) ==> bg < 64,
                self.pallete == old(self).pallete,
                pal == self.pallete@,
                s0 == old(self).screen@,
                ov0 == *old(overlapped),
                self.screen@.len() == 61440,
                forall|px: int, py: int| #![trigger pixel(self.screen@, px, py)] 0 <= px < 256 && 0 <= py < 240 ==>
                    pixel(self.screen@, px, py) == if px < x + i {
                        match spec_tile_color(pal, tile@, x as int, y as int, px, py) {
                            Some(c) => c,
                            None => pixel(s0, px, py),
                        }
                    } else {
                        pixel(s0, px, py)
                    },
                *overlapped ==> ov0 || sprite_overlaps(s0, pal, tile@, x as int, y as int, bg),
                ov0 ==> *overlapped,
                forall|px: int, py: int| 0 <= px < 256 && 0 <= py < 240 && px < x + i
                    && #[trigger] spec_tile_color(pal, tile@, x as int, y as int, px, py) is Some
                    && pixel(s0, px, py) != PALLETE@[bg as int] ==> *overlapped,
            decreases 8 - i,
        {
            if (x + i) >= 256 {
                i += 1;
                continue;
            }
            let mut j: usize = 0;
            while j < 8
                invariant
                    0 <= i < 8,
                    0 <= j <= 8,
                    x + i < 256,
                    x + 8 <= usize::MAX,
                    y + 8 <= usize::MAX,
                    tile_indices_ok(tile@, x as int, y as int),
                    tile_visible(pal, tile@, x as int, y as int) ==> bg < 64,
                    self.pallete == old(self).pallete,
                    pal == self.pallete@,
                    s0 == old(self).screen@,
                    ov0 == *old(overlapped),
                    self.screen@.len() == 61440,
                    forall|px: int, py: int| #![trigger pixel(self.screen@, px, py)] 0 <= px < 256 && 0 <= py < 240 ==>
                        pixel(self.screen@, px, py) == if px < x + i || (px == x + i && py < y + j) {
                            match spec_tile_color(pal, tile@, x as int, y as int, px, py) {
                                Some(c) => c,
                                None => pixel(s0, px, py),
                            }
                        } else {
                            pixel(s0, px, py)
                        },
                    *overlapped ==> ov0 || sprite_overlaps(s0, pal, tile@, x as int, y as int, bg),
                    ov0 ==> *overlapped,
                    forall|px: int, py: int| 0 <= px < 256 && 0 <= py < 240 && (px < x + i || (px == x + i && py < y + j))
                        && #[trigger] spec_tile_color(pal, tile@, x as int, y as int, px, py) is Some
                        && pixel(s0, px, py) != PALLETE@[bg as int] ==> *overlapped,
                decreases 8 - j,
            {
                if y + j >= 240 {
                    j += 1;
                    continue;
                }
                let color = self.get_color(tile[i + 8 * j]);
                if color == 0xffffffff {
                    j += 1;
                    continue;
                }
                proof {
                    assert(spec_tile_color(pal, tile@, x as int, y as int, (x + i) as int, (y + j) as int) is Some);
                }
                let bgc = self.get_pixel(x + i, y + j);
                proof {
                    assert(pixel(self.screen@, (x + i) as int, (y + j) as int) == bgc);
                    assert(pixel(s0, (x + i) as int, (y + j) as int) == bgc);
                }
                if bgc != PALLETE[bg as usize] {
                    *overlapped = true;
                }
                let ghost before = self.screen@;
                self.set_pixel(x + i, y + j, color);
                proof {
                    assert forall|px: int, py: int| 0 <= px < 256 && 0 <= py < 240 && (px != x + i || py != y + j)
                        implies #[trigger] pixel(self.screen@, px, py) == pixel(before, px, py) by {
                        assert(px + py * 256 != (x + i) + (y + j) * 256);
                    }
                }
                j += 1;
            }
            i += 1;
        }
        proof {
            let target = frame_with_tile(s0, pal, tile@, x as int, y as int);
            assert forall|k: int| 0 <= k < 61440 implies #[trigger] self.screen@[k] == target[k] by {
                let px = k % 256;
                let py = k / 256;
                assert(k == px + py * 256);
                assert(pixel(self.screen@, px, py) == self.screen@[k]);
            }
            assert(self.screen@ =~= target);
        }
    }

    /// Draws the background: each of the 32 x 30 tiles of the name table that PPUCTRL selects,
    /// with its palette from the attribute table (see `frame_with_background`). The palette of
    /// the last tile stays as the current palette.
    pub fn render_background(&mut self, ppu: &mut PPU)
        requires
            old(ppu).mirroring != Mirroring::NotSet,
        ensures
            final(self).screen@ == frame_with_background(old(self).screen@, old(ppu)@),
            final(self).pallete@ == bg_palette(old(ppu)@, bg_palette_number(old(ppu)@, 959)),
            final(ppu)@ == old(ppu)@,
    {
        let nametable = ppu.ppuctrl & 0b11;
        let starting_address: u16 = if nametable == 0 {
            0x2000
        } else if nametable == 1 {
            0x2400
        } else if nametable == 2 {
            0x2800
        } else {
            0x2c00
        };
        let bank = (ppu.ppuctrl & 0b10000) >> 4;
        let ghost p = ppu@;
        let ghost s0 = self.screen@;
        let ctrl = ppu.ppuctrl;
        proof {
            assert(starting_address == 0x2000 + (ctrl & 0b11) as int * 0x400) by (bit_vector)
                requires
                    nametable == ctrl & 0b11,
                    starting_address == if nametable == 0 { 0x2000u16 } else if nametable == 1 { 0x2400u16 } else if nametable == 2 { 0x2800u16 } else { 0x2c00u16 },
            ;
            assert(bank <= 1) by (bit_vector)
                requires
                    bank == (ctrl & 0b10000) >> 4u8,
            ;
        }
        let mut i: u16 = 0;
        while i < 0x3c0
            invariant
                0 <= i <= 0x3c0,
                ppu@ == p,
                p.mirroring != Mirroring::NotSet,
                starting_address == nametable_base(p.ppuctrl),
                0x2000 <= starting_address <= 0x2c00,
                bank == (p.ppuctrl & 0b10000) >> 4u8,
                bank <= 1,
                s0 == old(self).screen@,
                self.screen@.len() == 61440,
                i > 0 ==> self.pallete@ == bg_palette(p, bg_palette_number(p, i - 1)),
                forall|px: int, py: int| #![trigger pixel(self.screen@, px, py)] 0 <= px < 256 && 0 <= py < 240 ==>
                    pixel(self.screen@, px, py) == if bg_tile_index(px, py) < i {
                        match bg_color(p, px, py) {
                            Some(c) => c,
                            None => pixel(s0, px, py),
                        }
                    } else {
                        pixel(s0, px, py)
                    },
            decreases 0x3c0 - i,
        {
            let tilenum = ppu.read_ppudata_add(starting_address + i);
            let tile = ppu.get_tile(tilenum as usize, bank as usize);
            let x = i % 32;
            let pal_x = x / 4;
            let y = i / 32;
            let pal_y = y / 4;
            let pallete = ppu.read_ppudata_add(starting_address + 0x3c0 + pal_x + pal_y * 8);
            let qx = x % 4 / 2;
            let qy = y % 4 / 2;
            let pal = if qx == 0 && qy == 0 {
                pallete & 0b11
            } else if qx == 1 && qy == 0 {
                (pallete >> 2) & 0b11
            } else if qx == 0 && qy == 1 {
                (pallete >> 4) & 0b11
            } else {
                (pallete >> 6) & 0b11
            };
            assert(pal < 4) by (bit_vector)
                requires
                    pal == pallete & 0b11 || pal == (pallete >> 2u8) & 0b11 || pal == (pallete >> 4u8) & 0b11 || pal == (pallete >> 6u8) & 0b11,
            ;
            let pallete_data = ppu.get_pallete(pal);
            self.pallete = pallete_data;
            proof {
                assert(qx == 0 || qx == 1);
                assert(qy == 0 || qy == 1);
                assert(pal == bg_palette_number(p, i as int));
                assert(tile@ =~= bg_tile(p, i as int));
                assert(self.pallete@ == bg_palette(p, bg_palette_number(p, i as int)));
            }
            let ghost before = self.screen@;
            self.draw_tile((x * 8) as usize, (y * 8) as usize, tile);
            proof {
                assert forall|px: int, py: int| 0 <= px < 256 && 0 <= py < 240 implies
                    #[trigger] pixel(self.screen@, px, py) == if bg_tile_index(px, py) < i + 1 {
                        match bg_color(p, px, py) {
                            Some(c) => c,
                            None => pixel(s0, px, py),
                        }
                    } else {
                        pixel(s0, px, py)
                    } by {
                    lemma_bg_block(i as int, px, py);
                    lemma_pixel_index(px, py);
                    assert(pixel(before, px, py) == if bg_tile_index(px, py) < i {
                        match bg_color(p, px, py) {
                            Some(c) => c,
                            None => pixel(s0, px, py),
                        }
                    } else {
                        pixel(s0, px, py)
                    });
                }
            }
            i += 1;
        }
        proof {
            let target = frame_with_background(s0, p);
            assert forall|k: int| 0 <= k < 61440 implies #[trigger] self.screen@[k] == target[k] by {
                let px = k % 256;
                let py = k / 256;
                assert(k == px + py * 256);
                lemma_bg_block(0, px, py);
                assert(pixel(self.screen@, px, py) == self.screen@[k]);
            }
            assert(self.screen@ =~= target);
        }
    }


    /// Draws the 64 sprites of OAM, from sprite 63 down to sprite 0 (see `frame_with_sprites`);
    /// sets the sprite-0-hit bit (6) of PPUSTATUS when sprite 0 overlaps a pixel not showing the
    /// universal background colour. The palette of sprite 0 stays as the current palette.
    pub fn render_sprites(&mut self, ppu: &mut PPU)
        requires
            some_sprite_visible(old(ppu)@) ==> universal_bg(old(ppu)@) < 64,
        ensures
            final(self).screen@ == frame_with_sprites(old(self).screen@, old(ppu)@, 0),
            final(self).pallete@ == sprite_palette(old(ppu)@, 0),
            final(ppu)@ == (PpuModel {
                ppustatus: if sprite_overlap(frame_with_sprites(old(self).screen@, old(ppu)@, 1), old(ppu)@, 0) {
                    old(ppu).ppustatus | 0b01000000
                } else {
                    old(ppu).ppustatus
                },
                ..old(ppu)@
            }),
    {
        let ghost p = ppu@;
        let ghost s0 = self.screen@;
        let mut n: usize = 64;
        while n > 0
            invariant
                0 <= n <= 64,
                some_sprite_visible(p) ==> universal_bg(p) < 64,
                s0 == old(self).screen@,
                self.screen@ == frame_with_sprites(s0, p, n as int),
                n < 64 ==> self.pallete@ == sprite_palette(p, n as int),
                ppu@ == (PpuModel {
                    ppustatus: if n == 0 && sprite_overlap(frame_with_sprites(s0, p, 1), p, 0) {
                        p.ppustatus | 0b01000000
                    } else {
                        p.ppustatus
                    },
                    ..p
                }),
            decreases n,
        {
            let i = (n - 1) * 4;
            let x = ppu.oam[i + 3];
            let y = ppu.oam[i];
            let bank = (ppu.ppuctrl & 0b1000) >> 3;
            let tile_num = ppu.oam[i + 1];
            let byte2 = ppu.oam[i + 2];
            let pallete_num = byte2 & 0b11;
            let flip_hor = (byte2 & 0b1000000) >> 6;
            let flip_ver = byte2 >> 7;
            let prio = byte2 & 0b100000;
            let ctrl = ppu.ppuctrl;
            proof {
                assert(bank <= 1 && pallete_num < 4 && flip_hor < 2 && flip_ver < 2) by (bit_vector)
                    requires
                        bank == (ctrl & 0b1000) >> 3u8,
                        pallete_num == byte2 & 0b11,
                        flip_hor == (byte2 & 0b1000000) >> 6u8,
                        flip_ver == byte2 >> 7u8,
                ;
                assert((flip_hor == 1) == (byte2 & 0b1000000 != 0) && (flip_ver == 1) == (byte2 >= 128)) by (bit_vector)
                    requires
                        flip_hor == (byte2 & 0b1000000) >> 6u8,
                        flip_ver == byte2 >> 7u8,
                ;
            }
            let tile = ppu.get_tile(tile_num as usize, bank as usize);
            self.pallete = ppu.get_sprite_pallete(pallete_num);
            let flipped_tile = if flip_hor == 0 && flip_ver == 0 {
                tile
            } else if flip_hor == 1 && flip_ver == 0 {
                flip_tile_horizontal(tile)
            } else if flip_hor == 0 && flip_ver == 1 {
                flip_tile_vertical(tile)
            } else {
                flip_both(tile)
            };
            let ghost sn = (n - 1) as int;
            proof {
                assert(tile@ =~= pattern_tile(p, p.oam[4 * sn + 1] as int, ((p.ppuctrl & 0b1000) >> 3u8) as int));
                assert(flipped_tile@ =~= sprite_tile(p, sn));
                assert(self.pallete@ =~= sprite_palette(p, sn));
                assert forall|a: int, b: int| 0 <= a < 8 && 0 <= b < 8 && x + a < 256 && y + b < 240
                    implies #[trigger] flipped_tile@[a + 8 * b] < 4 by {
                    assert(0 <= a + 8 * b < 64);
                    assert((a + 8 * b) % 8 == a && (a + 8 * b) / 8 == b) by (nonlinear_arith)
                        requires 0 <= a < 8, 0 <= b < 8;
                }
                if tile_visible(self.pallete@, flipped_tile@, x as int, y as int) {
                    assert(tile_visible(sprite_palette(p, sn), sprite_tile(p, sn), p.oam[4 * sn + 3] as int, p.oam[4 * sn] as int));
                    assert(some_sprite_visible(p));
                }
            }
            let mut overlap = false;
            if prio > 0 {
                let bg = ppu.read_ppudata_add(0x3f00);
                self.draw_sprite_behind_bg(x as usize, y as usize, bg, flipped_tile, &mut overlap);
            } else {
                let bg = ppu.read_ppudata_add(0x3f00);
                self.draw_sprite_0(x as usize, y as usize, bg, flipped_tile, &mut overlap);
            }
            if overlap && i == 0 {
                ppu.ppustatus |= 0b01000000;
            }
            n -= 1;
        }
    }

}

/// A tile mirrored top to bottom.
pub fn flip_tile_vertical(tile: [u8; 64]) -> (r: [u8; 64])
    ensures
        r@ == spec_flip_vertical(tile@),
{
    let mut flipped = [0u8; 64];
    let mut x: usize = 0;
    while x < 8
        invariant
            0 <= x <= 8,
            forall|k: int| 0 <= k < 64 && k % 8 < x ==> #[trigger] flipped@[k] == tile@[k % 8 + (7 - k / 8) * 8],
        decreases 8 - x,
    {
        let mut y: usize = 0;
        while y < 8
            invariant
                0 <= x < 8,
                0 <= y <= 8,
                forall|k: int| 0 <= k < 64 && (k % 8 < x || (k % 8 == x && 7 - k / 8 < y)) ==> #[trigger] flipped@[k] == tile@[k % 8 + (7 - k / 8) * 8],
            decreases 8 - y,
        {
            proof {
                assert((x + (7 - y) * 8) % 8 == x && (x + (7 - y) * 8) / 8 == 7 - y) by (nonlinear_arith)
                    requires x < 8, y < 8;
            }
            flipped[x + (7 - y) * 8] = tile[x + y * 8];
            y += 1;
        }
        x += 1;
    }
    assert(flipped@ =~= spec_flip_vertical(tile@));
    flipped
}

/// A tile mirrored left to right.
pub fn flip_tile_horizontal(tile: [u8; 64]) -> (r: [u8; 64])
    ensures
        r@ == spec_flip_horizontal(tile@),
{
    let mut flipped = [0u8; 64];
    let mut x: usize = 0;
    while x < 8
        invariant
            0 <= x <= 8,
            forall|k: int| 0 <= k < 64 && 7 - k % 8 < x ==> #[trigger] flipped@[k] == tile@[(7 - k % 8) + (k / 8) * 8],
        decreases 8 - x,
    {
        let mut y: usize = 0;
        while y < 8
            invariant
                0 <= x < 8,
                0 <= y <= 8,
                forall|k: int| 0 <= k < 64 && (7 - k % 8 < x || (7 - k % 8 == x && k / 8 < y)) ==> #[trigger] flipped@[k] == tile@[(7 - k % 8) + (k / 8) * 8],
            decreases 8 - y,
        {
            proof {
                assert((7 - x + y * 8) % 8 == 7 - x && (7 - x + y * 8) / 8 == y) by (nonlinear_arith)
                    requires x < 8, y < 8;
            }
            flipped[7 - x + (y) * 8] = tile[x + y * 8];
            y += 1;
        }
        x += 1;
    }
    assert(flipped@ =~= spec_flip_horizontal(tile@));
    flipped
}

/// A tile mirrored both ways.
pub fn flip_both(tile: [u8; 64]) -> (r: [u8; 64])
    ensures
        r@ == spec_flip_both(tile@),
{
    let mut flipped = [0u8; 64];
    let mut x: usize = 0;
    while x < 8
        invariant
            0 <= x <= 8,
            forall|k: int| 0 <= k < 64 && 7 - k % 8 < x ==> #[trigger] flipped@[k] == tile@[(7 - k % 8) + (7 - k / 8) * 8],
        decreases 8 - x,
    {
        let mut y: usize = 0;
        while y < 8
            invariant
                0 <= x < 8,
                0 <= y <= 8,
                forall|k: int| 0 <= k < 64 && (7 - k % 8 < x || (7 - k % 8 == x && 7 - k / 8 < y)) ==> #[trigger] flipped@[k] == tile@[(7 - k % 8) + (7 - k / 8) * 8],
            decreases 8 - y,
        {
            proof {
                assert((7 - x + (7 - y) * 8) % 8 == 7 - x && (7 - x + (7 - y) * 8) / 8 == 7 - y) by (nonlinear_arith)
                    requires x < 8, y < 8;
            }
            flipped[7 - x + (7 - y) * 8] = tile[x + y * 8];
            y += 1;
        }
        x += 1;
    }
    assert(flipped@ =~= spec_flip_both(tile@));
    flipped
}

} // verus!

verus! {

/// The index arithmetic of the three mirrorings, at index `k` of a tile.
spec fn flip_index_facts(k: int) -> bool {
    &&& 0 <= k % 8 + (7 - k / 8) * 8 < 64
    &&& (k % 8 + (7 - k / 8) * 8) % 8 == k % 8
    &&& (k % 8 + (7 - k / 8) * 8) / 8 == 7 - k / 8
    &&& 0 <= (7 - k % 8) + (k / 8) * 8 < 64
    &&& ((7 - k % 8) + (k / 8) * 8) % 8 == 7 - k % 8
    &&& ((7 - k % 8) + (k / 8) * 8) / 8 == k / 8
    &&& 0 <= (7 - k % 8) + (7 - k / 8) * 8 < 64
    &&& ((7 - k % 8) + (7 - k / 8) * 8) % 8 == 7 - k % 8
    &&& ((7 - k % 8) + (7 - k / 8) * 8) / 8 == 7 - k / 8
    &&& k % 8 + (k / 8) * 8 == k
}

/// Mirroring a tile twice, either way, gives it back; mirroring both ways is mirroring one way
/// then the other.
pub proof fn law_flips(tile: Seq<u8>)
    requires
        tile.len() == 64,
    ensures
        spec_flip_vertical(spec_flip_vertical(tile)) == tile,
        spec_flip_horizontal(spec_flip_horizontal(tile)) == tile,
        spec_flip_both(spec_flip_both(tile)) == tile,
        spec_flip_both(tile) == spec_flip_horizontal(spec_flip_vertical(tile)),
{
    assert forall|k: int| 0 <= k < 64 implies #[trigger] flip_index_facts(k) by {
        assert(0 <= k % 8 < 8 && 0 <= k / 8 < 8 && k % 8 + (k / 8) * 8 == k) by (nonlinear_arith)
            requires 0 <= k < 64;
        let c = k % 8;
        let r = k / 8;
        assert((c + (7 - r) * 8) % 8 == c && (c + (7 - r) * 8) / 8 == 7 - r) by (nonlinear_arith)
            requires 0 <= c < 8, 0 <= r < 8;
        assert(((7 - c) + r * 8) % 8 == 7 - c && ((7 - c) + r * 8) / 8 == r) by (nonlinear_arith)
            requires 0 <= c < 8, 0 <= r < 8;
        assert(((7 - c) + (7 - r) * 8) % 8 == 7 - c && ((7 - c) + (7 - r) * 8) / 8 == 7 - r) by (nonlinear_arith)
            requires 0 <= c < 8, 0 <= r < 8;
    }
    assert forall|k: int| 0 <= k < 64 implies #[trigger] spec_flip_vertical(spec_flip_vertical(tile))[k] == tile[k] by {
        assert(flip_index_facts(k));
    }
    assert forall|k: int| 0 <= k < 64 implies #[trigger] spec_flip_horizontal(spec_flip_horizontal(tile))[k] == tile[k] by {
        assert(flip_index_facts(k));
    }
    assert forall|k: int| 0 <= k < 64 implies #[trigger] spec_flip_both(spec_flip_both(tile))[k] == tile[k] by {
        assert(flip_index_facts(k));
    }
    assert forall|k: int| 0 <= k < 64 implies #[trigger] spec_flip_both(tile)[k] == spec_flip_horizontal(spec_flip_vertical(tile))[k] by {
        assert(flip_index_facts(k));
        assert(flip_index_facts((7 - k % 8) + (k / 8) * 8));
    }
    assert(spec_flip_vertical(spec_flip_vertical(tile)) =~= tile);
    assert(spec_flip_horizontal(spec_flip_horizontal(tile)) =~= tile);
    assert(spec_flip_both(spec_flip_both(tile)) =~= tile);
    assert(spec_flip_both(tile) =~= spec_flip_horizontal(spec_flip_vertical(tile)));
}

/// A tile that the palette makes wholly transparent leaves the frame as it was.
pub proof fn law_transparent_tile(screen: Seq<u32>, pallete: Seq<u8>, tile: Seq<u8>, x: int, y: int)
    requires
        screen.len() == 61440,
        forall|k: int| 0 <= k < 64 ==> spec_color(pallete, #[trigger] tile[k]) == TRANSPARENT,
    ensures
        frame_with_tile(screen, pallete, tile, x, y) == screen,
{
    assert forall|k: int| 0 <= k < 61440 implies #[trigger] frame_with_tile(screen, pallete, tile, x, y)[k] == screen[k] by {
        let px = k % 256;
        let py = k / 256;
        if in_block(x, y, px, py) {
            assert(0 <= (px - x) + 8 * (py - y) < 64);
        }
    }
    assert(frame_with_tile(screen, pallete, tile, x, y) =~= screen);
}

proof fn lemma_bits_le_one(m: u8, b: u8)
    by (bit_vector)
    ensures
        (m >> b) & 1 <= 1,
{
}

/// A pattern pixel is a colour number 0..=3.
proof fn lemma_tile_pixel_bound(memory: Seq<u8>, base: int, k: int)
    ensures
        spec_tile_pixel(memory, base, k) < 4,
{
    let row = k / 8;
    let b = (7 - k % 8) as u8;
    lemma_bits_le_one(memory[base + 8 + row], b);
    lemma_bits_le_one(memory[base + row], b);
}

proof fn lemma_control_bits(c: u8)
    by (bit_vector)
    ensures
        c & 0b11 == c % 4,
        (c & 0b10000) >> 4u8 == (c / 16) % 2,
        (c & 0b1000) >> 3u8 == (c / 8) % 2,
        (c >> 0u8) & 0b11 == c & 0b11,
        (c & 0x80 != 0) == (c >= 128),
{
}

/// What the background gives pixel (`px`, `py`). The pixel lies in tile column x = px / 8 and
/// row y = py / 8 of the name table that bits 0-1 of PPUCTRL select; the tile's pattern (from the
/// table that bit 4 selects) gives the pixel colour number c; the tile's palette is the two bits
/// 2q, 2q + 1 of its attribute byte (at 0x3C0 + x / 4 + 8 * (y / 4) in the name table), where q
/// is 0 for the top-left 16 x 16 quadrant of the attribute's 32 x 32 block, 1 for the top-right,
/// 2 for the bottom-left and 3 for the bottom-right. Colour number 0 shows the universal
/// background entry 0x3F00, colour number c of palette n the entry 0x3F00 + 4n + c; an entry of
/// 0x40 or above leaves the pixel as it was.
#[verifier::rlimit(40)]
#[verifier::spinoff_prover]
pub proof fn law_background_pixel(screen: Seq<u32>, p: PpuModel, px: int, py: int)
    requires
        p.wf(),
        p.mirroring != Mirroring::NotSet,
        0 <= px < 256,
        0 <= py < 240,
    ensures
        ({
            let x = px / 8;
            let y = py / 8;
            let base = 0x2000 + (p.ppuctrl % 4) as int * 0x400;
            let attr = ppu_byte(p, base + 0x3c0 + x / 4 + (y / 4) * 8);
            let q = (x % 4) / 2 + 2 * ((y % 4) / 2);
            let n = (attr >> ((2 * q) as u8)) & 3u8;
            let tile = ppu_byte(p, base + y * 32 + x);
            let bank = ((p.ppuctrl / 16) % 2) as int;
            let c = spec_tile_pixel(p.memory, bank * 0x1000 + tile * 16, px % 8 + 8 * (py % 8));
            let e = if c == 0 { p.memory[0x3f00] } else { p.memory[0x3f00 + 4 * n + c] };
            frame_with_background(screen, p)[px + 256 * py] == if e >= 0x40 {
                screen[px + 256 * py]
            } else {
                PALLETE@[e as int]
            }
        }),
{
    let k = px + 256 * py;
    assert(k % 256 == px && k / 256 == py);
    let x = px / 8;
    let y = py / 8;
    let t = bg_tile_index(px, py);
    assert(t == y * 32 + x);
    assert(t % 32 == x && t / 32 == y);
    assert(in_block(x * 8, y * 8, px, py));
    assert((px - x * 8) + 8 * (py - y * 8) == px % 8 + 8 * (py % 8));
    lemma_control_bits(p.ppuctrl);
    let base = nametable_base(p.ppuctrl);
    let attr = ppu_byte(p, base + 0x3c0 + x / 4 + (y / 4) * 8);
    lemma_control_bits(attr);
    let tile = ppu_byte(p, base + y * 32 + x);
    let bank = ((p.ppuctrl & 0b10000) >> 4u8) as int;
    lemma_tile_pixel_bound(p.memory, spec_tile_base(tile as int, bank), px % 8 + 8 * (py % 8));
    let q = (x % 4) / 2 + 2 * ((y % 4) / 2);
    assert(q == 0 ==> (2 * q) as u8 == 0u8);
    assert(q == 1 ==> (2 * q) as u8 == 2u8);
    assert(q == 2 ==> (2 * q) as u8 == 4u8);
    assert(q == 3 ==> (2 * q) as u8 == 6u8);
}

/// What sprite `n` gives pixel (x + i, y + j) of the screen, where (x, y) is its position (bytes 3
/// and 0 of its OAM entry) and a its attribute byte (byte 2). The sprite shows pattern pixel
/// (i', j') of the tile that byte 1 names (in the table that bit 3 of PPUCTRL selects), with
/// i' = 7 - i when bit 6 of a is set (mirrored left to right) and i' = i otherwise, and
/// j' = 7 - j when bit 7 is set (mirrored top to bottom) and j' = j otherwise. Colour number 0 is
/// transparent; colour number c shows entry 0x3F10 + 4 (a % 4) + c; an entry of 0x40 or above is
/// transparent as well. A sprite with bit 5 of a set lies behind the background and covers only a
/// pixel that shows the universal background colour.
#[verifier::rlimit(40)]
#[verifier::spinoff_prover]
pub proof fn law_sprite_pixel(screen: Seq<u32>, p: PpuModel, n: int, i: int, j: int)
    requires
        p.wf(),
        0 <= n < 64,
        0 <= i < 8,
        0 <= j < 8,
        p.oam[4 * n + 3] + i < 256,
        p.oam[4 * n] + j < 240,
    ensures
        ({
            let x = p.oam[4 * n + 3] as int;
            let y = p.oam[4 * n] as int;
            let a = p.oam[4 * n + 2];
            let si = if a & 0x40 != 0 { 7 - i } else { i };
            let sj = if a & 0x80 != 0 { 7 - j } else { j };
            let bank = ((p.ppuctrl / 8) % 2) as int;
            let c = spec_tile_pixel(p.memory, bank * 0x1000 + p.oam[4 * n + 1] * 16, si + 8 * sj);
            let e = if c == 0 { 0xffu8 } else { p.memory[0x3f10 + 4 * (a % 4) + c] };
            let k = (x + i) + 256 * (y + j);
            frame_with_sprite(screen, p, n)[k] == if e >= 0x40 {
                screen[k]
            } else if a & 0x20 != 0 && screen[k] != PALLETE@[p.memory[0x3f00] as int] {
                screen[k]
            } else {
                PALLETE@[e as int]
            }
        }),
{
    let x = p.oam[4 * n + 3] as int;
    let y = p.oam[4 * n] as int;
    let a = p.oam[4 * n + 2];
    let k = (x + i) + 256 * (y + j);
    assert(k % 256 == x + i && k / 256 == y + j);
    assert(in_block(x, y, x + i, y + j));
    assert((x + i - x) + 8 * (y + j - y) == i + 8 * j);
    lemma_sprite_tile_pixel(p, n, i, j);
    lemma_control_bits(a);
    assert(a & 0b11 == a % 4);
}

/// The colour number that sprite `n` shows at (i, j) of its 8 x 8 block, with its flips.
proof fn lemma_sprite_tile_pixel(p: PpuModel, n: int, i: int, j: int)
    requires
        0 <= i < 8,
        0 <= j < 8,
    ensures
        ({
            let a = p.oam[4 * n + 2];
            let si = if a & 0x40 != 0 { 7 - i } else { i };
            let sj = if a & 0x80 != 0 { 7 - j } else { j };
            let bank = ((p.ppuctrl / 8) % 2) as int;
            let c = spec_tile_pixel(p.memory, bank * 0x1000 + p.oam[4 * n + 1] * 16, si + 8 * sj);
            &&& sprite_tile(p, n)[i + 8 * j] == c
            &&& c < 4
        }),
{
    let a = p.oam[4 * n + 2];
    let m = i + 8 * j;
    assert(m % 8 == i && m / 8 == j);
    lemma_control_bits(p.ppuctrl);
    lemma_control_bits(a);
    let si = if a & 0x40 != 0 { 7 - i } else { i };
    let sj = if a & 0x80 != 0 { 7 - j } else { j };
    let bank = ((p.ppuctrl & 0b1000) >> 3u8) as int;
    lemma_tile_pixel_bound(p.memory, spec_tile_base(p.oam[4 * n + 1] as int, bank), si + 8 * sj);
}

} // verus!
