//! What a frame shows: the background and sprite pixels as functions of video RAM,
//! sprite attribute memory and the LCD registers, for a 160x144 screen stored as RGBA
//! bytes.
use vstd::prelude::*;
use crate::mmu::MmuView;

verus! {

/// Screen width in pixels.
pub const SCREEN_WIDTH: usize = 160;
/// Screen height in pixels.
pub const SCREEN_HEIGHT: usize = 144;
/// Number of pixels on screen.
pub const SCREEN_PIXELS: usize = 23040;
/// Number of bytes of an RGBA frame.
pub const FRAME_BYTES: usize = 92160;
/// Number of sprites in OAM.
pub const SPRITE_COUNT: usize = 40;

/// LCD control register.
pub const REG_LCDC: usize = 0xFF40;
/// Background scroll Y.
pub const REG_SCY: usize = 0xFF42;
/// Background scroll X.
pub const REG_SCX: usize = 0xFF43;
/// Background palette.
pub const REG_BGP: usize = 0xFF47;
/// Sprite palette 0.
pub const REG_OBP0: usize = 0xFF48;
/// Sprite palette 1.
pub const REG_OBP1: usize = 0xFF49;
/// Start of the sprite attribute memory.
pub const OAM_START: usize = 0xFE00;

/// The gray level of a 2-bit palette entry: white, light gray, dark gray, black.
pub open spec fn gray(v: u8) -> u8 {
    if v == 0 {
        0xFF
    } else if v == 1 {
        0xC0
    } else if v == 2 {
        0x60
    } else if v == 3 {
        0x00
    } else {
        0xFF
    }
}

/// The gray level that palette `pal` gives to color id `cid` (0..3).
pub open spec fn shade(pal: u8, cid: u8) -> u8 {
    gray((pal >> ((2 * cid) as u8)) & 0x03)
}

/// Bit `k` of byte `b`.
pub open spec fn bit_at(b: u8, k: u8) -> u8 {
    (b >> k) & 1
}

/// The 2-bit color id of the dot at bit `k` of a tile line stored as the byte pair
/// `lo`, `hi`.
pub open spec fn color_id(lo: u8, hi: u8, k: u8) -> u8 {
    (2 * bit_at(hi, k) + bit_at(lo, k)) as u8
}

/// A tile number read as a signed byte.
pub open spec fn signed_tile(t: u8) -> int {
    if t < 128 {
        t as int
    } else {
        t - 256
    }
}

/// Whether the LCD is switched on (LCDC bit 7).
pub open spec fn lcd_on(m: MmuView) -> bool {
    m.read(REG_LCDC as int) & 0x80 != 0
}

/// The background tile map (LCDC bit 3): 0x9800 or 0x9C00.
pub open spec fn bg_map_base(lcdc: u8) -> int {
    if lcdc & 0x08 != 0 {
        0x9C00
    } else {
        0x9800
    }
}

/// The address of background tile `tile` (LCDC bit 4: unsigned from 0x8000, or signed
/// around 0x9000).
pub open spec fn bg_tile_addr(lcdc: u8, tile: u8) -> int {
    if lcdc & 0x10 != 0 {
        0x8000 + tile * 16
    } else {
        0x9000 + signed_tile(tile) * 16
    }
}

/// The background color id at screen pixel (`x`, `y`): the scrolled position in the
/// 256x256 background, its tile from the tile map, and the dot of that tile.
pub open spec fn bg_color_id(m: MmuView, x: int, y: int) -> u8 {
    let lcdc = m.read(REG_LCDC as int);
    let vy = (y + m.read(REG_SCY as int)) % 256;
    let vx = (x + m.read(REG_SCX as int)) % 256;
    let tile = m.read(bg_map_base(lcdc) + (vy / 8) * 32 + vx / 8);
    let line_addr = bg_tile_addr(lcdc, tile) + (vy % 8) * 2;
    color_id(m.read(line_addr), m.read(line_addr + 1), (7 - vx % 8) as u8)
}

/// Sprite height (LCDC bit 2): 8 or 16.
pub open spec fn sprite_height(m: MmuView) -> int {
    if m.read(REG_LCDC as int) & 0x04 != 0 {
        16
    } else {
        8
    }
}

/// Byte `k` of the attribute entry of sprite `s`.
pub open spec fn oam_byte(m: MmuView, s: int, k: int) -> u8 {
    m.read(OAM_START + s * 4 + k)
}

/// Screen row of the top of sprite `s`.
pub open spec fn sprite_top(m: MmuView, s: int) -> int {
    oam_byte(m, s, 0) - 16
}

/// Screen column of the left of sprite `s`.
pub open spec fn sprite_left(m: MmuView, s: int) -> int {
    oam_byte(m, s, 1) - 8
}

/// Tile of sprite `s`; in 8x16 mode the low bit is ignored.
pub open spec fn sprite_tile(m: MmuView, s: int) -> u8 {
    if sprite_height(m) == 16 {
        oam_byte(m, s, 2) & 0xFE
    } else {
        oam_byte(m, s, 2)
    }
}

/// The color id of sprite `s` at `row`, `col` of its box, after vertical (attribute
/// bit 6) and horizontal (bit 5) flipping.
pub open spec fn sprite_dot(m: MmuView, s: int, row: int, col: int) -> u8 {
    let attr = oam_byte(m, s, 3);
    let trow = if attr & 0x40 != 0 {
        sprite_height(m) - 1 - row
    } else {
        row
    };
    let addr = 0x8000 + sprite_tile(m, s) * 16 + trow * 2;
    let bit = if attr & 0x20 != 0 {
        col
    } else {
        7 - col
    };
    color_id(m.read(addr), m.read(addr + 1), bit as u8)
}

/// The palette of sprite `s` (attribute bit 4: OBP0 or OBP1).
pub open spec fn sprite_palette(m: MmuView, s: int) -> u8 {
    if oam_byte(m, s, 3) & 0x10 != 0 {
        m.read(REG_OBP1 as int)
    } else {
        m.read(REG_OBP0 as int)
    }
}

/// What sprite `s` draws at screen pixel (`x`, `y`): nothing outside its box, on a
/// transparent dot (color 0), or where it is behind the background (attribute bit 7)
/// and the background color is not 0; otherwise its shade.
pub open spec fn sprite_pixel(m: MmuView, s: int, x: int, y: int) -> Option<u8> {
    let row = y - sprite_top(m, s);
    let col = x - sprite_left(m, s);
    if !(0 <= row < sprite_height(m) && 0 <= col < 8) {
        None
    } else if sprite_dot(m, s, row, col) == 0 {
        None
    } else if oam_byte(m, s, 3) & 0x80 != 0 && bg_color_id(m, x, y) != 0 {
        None
    } else {
        Some(shade(sprite_palette(m, s), sprite_dot(m, s, row, col)))
    }
}

/// The gray level at pixel (`x`, `y`) once sprites `0..n` are drawn over the background:
/// the last of them that draws there wins.
pub open spec fn overlay(m: MmuView, n: int, x: int, y: int) -> u8
    decreases n,
{
    if n <= 0 {
        shade(m.read(REG_BGP as int), bg_color_id(m, x, y))
    } else {
        match sprite_pixel(m, n - 1, x, y) {
            Some(v) => v,
            None => overlay(m, n - 1, x, y),
        }
    }
}

/// Byte `i` of the RGBA frame with sprites `0..n` drawn: gray in R, G, B and opaque alpha.
pub open spec fn frame_byte(m: MmuView, n: int, i: int) -> u8 {
    if i % 4 == 3 {
        0xFF
    } else {
        overlay(m, n, (i / 4) % 160, (i / 4) / 160)
    }
}

/// The RGBA frame with sprites `0..n` drawn over the background.
pub open spec fn frame_with_sprites(m: MmuView, n: int) -> Seq<u8> {
    Seq::new(FRAME_BYTES as nat, |i: int| frame_byte(m, n, i))
}

/// The background color id of every pixel, row by row.
pub open spec fn bg_color_ids(m: MmuView) -> Seq<u8> {
    Seq::new(SCREEN_PIXELS as nat, |p: int| bg_color_id(m, p % 160, p / 160))
}

/// The frame that is rendered from memory `m`: all white while the LCD is off, else the
/// background with all 40 sprites over it.
pub open spec fn rendered_frame(m: MmuView) -> Seq<u8> {
    if lcd_on(m) {
        frame_with_sprites(m, SPRITE_COUNT as int)
    } else {
        Seq::new(FRAME_BYTES as nat, |i: int| 0xFFu8)
    }
}

/// The background color ids recorded while rendering from `m` (all 0 while the LCD is
/// off).
pub open spec fn rendered_bg_ids(m: MmuView) -> Seq<u8> {
    if lcd_on(m) {
        bg_color_ids(m)
    } else {
        Seq::new(SCREEN_PIXELS as nat, |p: int| 0u8)
    }
}

/// Whether `v` is one of the four gray levels.
pub open spec fn is_shade(v: u8) -> bool {
    v == 0xFF || v == 0xC0 || v == 0x60 || v == 0x00
}

/// A color id is at most 3.
pub proof fn lemma_color_id_bound(lo: u8, hi: u8, k: u8)
    ensures
        color_id(lo, hi, k) <= 3,
{
    let l = bit_at(lo, k);
    let h = bit_at(hi, k);
    assert(l <= 1 && h <= 1) by (bit_vector)
        requires
            l == (lo >> k) & 1,
            h == (hi >> k) & 1,
    ;
}

/// Every pixel of the background and sprites is one of the four gray levels.
pub proof fn lemma_overlay_is_shade(m: MmuView, n: int, x: int, y: int)
    ensures
        is_shade(overlay(m, n, x, y)),
    decreases n,
{
    if n > 0 {
        lemma_overlay_is_shade(m, n - 1, x, y);
    }
}

/// Every rendered pixel is opaque with R = G = B one of the four gray levels, and every
/// recorded background color id is at most 3.
pub proof fn lemma_rendered_frame_shades(m: MmuView, i: int, p: int)
    requires
        0 <= i < FRAME_BYTES,
        0 <= p < SCREEN_PIXELS,
    ensures
        rendered_frame(m).len() == FRAME_BYTES,
        rendered_bg_ids(m).len() == SCREEN_PIXELS,
        i % 4 == 3 ==> rendered_frame(m)[i] == 0xFF,
        i % 4 != 3 ==> is_shade(rendered_frame(m)[i]),
        rendered_bg_ids(m)[p] <= 3,
{
    lemma_overlay_is_shade(m, SPRITE_COUNT as int, (i / 4) % 160, (i / 4) / 160);
    if lcd_on(m) {
        let lcdc = m.read(REG_LCDC as int);
        let x = p % 160;
        let y = p / 160;
        let vy = (y + m.read(REG_SCY as int)) % 256;
        let vx = (x + m.read(REG_SCX as int)) % 256;
        let tile = m.read(bg_map_base(lcdc) + (vy / 8) * 32 + vx / 8);
        let line_addr = bg_tile_addr(lcdc, tile) + (vy % 8) * 2;
        lemma_color_id_bound(m.read(line_addr), m.read(line_addr + 1), (7 - vx % 8) as u8);
    }
}

/// Vertical scrolling: the background color id at screen (`x`, `y`) with SCY = s is the
/// color id at (`x`, (`y` + s) mod 256) with SCY = 0, everything else equal.
pub proof fn lemma_vertical_scroll(m: MmuView, x: int, y: int)
    requires
        m.wf(),
        0 <= y,
    ensures
        bg_color_id(m, x, y) == bg_color_id(
            m.write(REG_SCY as int, 0),
            x,
            (y + m.read(REG_SCY as int)) % 256,
        ),
{
    crate::mmu::lemma_write_only_there(m, REG_SCY as int, 0);
    vstd::arithmetic::div_mod::lemma_mod_mod(y + m.read(REG_SCY as int), 256, 1);
}

/// Horizontal scrolling: the background color id at screen (`x`, `y`) with SCX = s is the
/// color id at ((`x` + s) mod 256, `y`) with SCX = 0, everything else equal.
pub proof fn lemma_horizontal_scroll(m: MmuView, x: int, y: int)
    requires
        m.wf(),
        0 <= x,
    ensures
        bg_color_id(m, x, y) == bg_color_id(
            m.write(REG_SCX as int, 0),
            (x + m.read(REG_SCX as int)) % 256,
            y,
        ),
{
    crate::mmu::lemma_write_only_there(m, REG_SCX as int, 0);
    vstd::arithmetic::div_mod::lemma_mod_mod(x + m.read(REG_SCX as int), 256, 1);
}

/// Without scrolling, the background at (`x`, `y`) of the 256x256 map is dot (`x` mod 8,
/// `y` mod 8) of the tile named at map entry (`y` / 8, `x` / 8) of the map selected by LCDC
/// bit 3 (0x9800 or 0x9C00). Tile `t` is 16 bytes at 0x8000 + 16 t when LCDC bit 4 is set;
/// otherwise tiles 0-127 lie at 0x9000 + 16 t and tiles 128-255 at 0x8000 + 16 t. Line `r`
/// of a tile is two bytes, low bits first; dot `c` is bit 7 - `c` of each, the second
/// byte giving the high bit of the color id.
pub proof fn lemma_background_tile_lookup(m: MmuView, x: int, y: int)
    requires
        0 <= x < 256,
        0 <= y < 256,
        m.read(REG_SCX as int) == 0,
        m.read(REG_SCY as int) == 0,
    ensures
        ({
            let lcdc = m.read(REG_LCDC as int);
            let map: int = if lcdc & 0x08 != 0 {
                0x9C00
            } else {
                0x9800
            };
            let t = m.read(map + 32 * (y / 8) + x / 8);
            let base: int = if lcdc & 0x10 != 0 || t >= 128 {
                0x8000 + 16 * t
            } else {
                0x9000 + 16 * t
            };
            let lo = m.read(base + 2 * (y % 8));
            let hi = m.read(base + 2 * (y % 8) + 1);
            let k = (7 - x % 8) as u8;
            bg_color_id(m, x, y) as int == 2 * ((hi >> k) & 1) + ((lo >> k) & 1)
        }),
{
    vstd::arithmetic::div_mod::lemma_small_mod(x as nat, 256);
    vstd::arithmetic::div_mod::lemma_small_mod(y as nat, 256);
    let lcdc = m.read(REG_LCDC as int);
    let t = m.read(bg_map_base(lcdc) + 32 * (y / 8) + x / 8);
    let k = (7 - x % 8) as u8;
    let lo = m.read(bg_tile_addr(lcdc, t) + 2 * (y % 8));
    let hi = m.read(bg_tile_addr(lcdc, t) + 2 * (y % 8) + 1);
    let a = (hi >> k) & 1;
    let b = (lo >> k) & 1;
    assert(a <= 1 && b <= 1) by (bit_vector)
        requires
            a == (hi >> k) & 1,
            b == (lo >> k) & 1,
    ;
}

/// The gray level of color id `c` under palette `pal` is given by the 2-bit entry
/// (`pal` / 4^`c`) mod 4: 0 white (0xFF), 1 light gray (0xC0), 2 dark gray (0x60), 3 black.
pub proof fn lemma_palette_entry(pal: u8, c: u8)
    requires
        c <= 3,
    ensures
        ({
            let div: int = if c == 0 {
                1
            } else if c == 1 {
                4
            } else if c == 2 {
                16
            } else {
                64
            };
            let e = (pal as int / div) % 4;
            shade(pal, c) == if e == 0 {
                0xFFu8
            } else if e == 1 {
                0xC0u8
            } else if e == 2 {
                0x60u8
            } else {
                0x00u8
            }
        }),
{
    let v = (pal >> ((2 * c) as u8)) & 0x03;
    assert(c <= 3 ==> v as int == (pal / (if c == 0 {
        1u8
    } else if c == 1 {
        4u8
    } else if c == 2 {
        16u8
    } else {
        64u8
    })) % 4) by (bit_vector)
        requires
            v == (pal >> ((2 * c) as u8)) & 0x03,
    ;
}

/// The attribute byte of sprite `s` replaced by `attr`.
pub open spec fn with_sprite_attr(m: MmuView, s: int, attr: u8) -> MmuView {
    m.write(OAM_START + s * 4 + 3, attr)
}

/// Y flip (attribute bit 6): the dot at row `r` of a flipped sprite is the dot at row
/// height - 1 - `r` of the same sprite unflipped.
pub proof fn lemma_sprite_y_flip(m: MmuView, s: int, attr: u8, r: int, c: int)
    requires
        m.wf(),
        0 <= s < 40,
        0 <= r < sprite_height(m),
        0 <= c < 8,
    ensures
        sprite_dot(with_sprite_attr(m, s, attr | 0x40), s, r, c) == sprite_dot(
            with_sprite_attr(m, s, attr & !0x40u8),
            s,
            sprite_height(m) - 1 - r,
            c,
        ),
{
    let a = OAM_START + s * 4 + 3;
    crate::mmu::lemma_write_only_there(m, a, attr | 0x40);
    crate::mmu::lemma_write_only_there(m, a, attr & !0x40u8);
    assert((attr | 0x40) & 0x40 != 0 && (attr & !0x40u8) & 0x40 == 0 && (attr | 0x40) & 0x20 == (
    attr & !0x40u8) & 0x20) by (bit_vector);
}

/// X flip (attribute bit 5): the dot at column `c` of a flipped sprite is the dot at
/// column 7 - `c` of the same sprite unflipped.
pub proof fn lemma_sprite_x_flip(m: MmuView, s: int, attr: u8, r: int, c: int)
    requires
        m.wf(),
        0 <= s < 40,
        0 <= r < sprite_height(m),
        0 <= c < 8,
    ensures
        sprite_dot(with_sprite_attr(m, s, attr | 0x20), s, r, c) == sprite_dot(
            with_sprite_attr(m, s, attr & !0x20u8),
            s,
            r,
            7 - c,
        ),
{
    let a = OAM_START + s * 4 + 3;
    crate::mmu::lemma_write_only_there(m, a, attr | 0x20);
    crate::mmu::lemma_write_only_there(m, a, attr & !0x20u8);
    assert((attr | 0x20) & 0x20 != 0 && (attr & !0x20u8) & 0x20 == 0 && (attr | 0x20) & 0x40 == (
    attr & !0x20u8) & 0x40) by (bit_vector);
}

/// An unflipped sprite shows its tile directly: the dot at row `r`, column `c` is bit 7 -
/// `c` of line `r` of tile `t` at 0x8000 + 16 `t` (the second byte giving the high bit),
/// where `t` is OAM byte 2 with its low bit cleared in 8x16 mode (LCDC bit 2).
pub proof fn lemma_sprite_tile_dot(m: MmuView, s: int, r: int, c: int)
    requires
        oam_byte(m, s, 3) & 0x60 == 0,
        0 <= c < 8,
    ensures
        ({
            let t = if m.read(REG_LCDC as int) & 0x04 != 0 {
                oam_byte(m, s, 2) & 0xFE
            } else {
                oam_byte(m, s, 2)
            };
            let lo = m.read(0x8000 + 16 * t + 2 * r);
            let hi = m.read(0x8000 + 16 * t + 2 * r + 1);
            let k = (7 - c) as u8;
            sprite_dot(m, s, r, c) as int == 2 * ((hi >> k) & 1) + ((lo >> k) & 1)
        }),
{
    let at = oam_byte(m, s, 3);
    assert(at & 0x60 == 0 ==> at & 0x40 == 0 && at & 0x20 == 0) by (bit_vector);
    let t = sprite_tile(m, s);
    let lo = m.read(0x8000 + 16 * t + 2 * r);
    let hi = m.read(0x8000 + 16 * t + 2 * r + 1);
    let k = (7 - c) as u8;
    let a = (hi >> k) & 1;
    let b = (lo >> k) & 1;
    assert(a <= 1 && b <= 1) by (bit_vector)
        requires
            a == (hi >> k) & 1,
            b == (lo >> k) & 1,
    ;
}

/// A sprite pixel inside the sprite's box, at row `r` and column `c` from its corner
/// (OAM byte 0 minus 16, byte 1 minus 8), is drawn unless its dot is color 0 or the
/// sprite is behind a background whose color id there is not 0 (attribute bit 7); its
/// gray level comes from OBP1 (0xFF49) when attribute bit 4 is set, else OBP0 (0xFF48).
pub proof fn lemma_sprite_pixel_rules(m: MmuView, s: int, r: int, c: int)
    requires
        0 <= r < sprite_height(m),
        0 <= c < 8,
    ensures
        ({
            let x = m.read(OAM_START + s * 4 + 1) - 8 + c;
            let y = m.read(OAM_START + s * 4) - 16 + r;
            let attr = m.read(OAM_START + s * 4 + 3);
            let d = sprite_dot(m, s, r, c);
            let pal = if attr & 0x10 != 0 {
                m.read(0xFF49)
            } else {
                m.read(0xFF48)
            };
            sprite_pixel(m, s, x, y) == if d == 0 || (attr & 0x80 != 0 && bg_color_id(m, x, y)
                != 0) {
                None
            } else {
                Some(shade(pal, d))
            }
        }),
        sprite_height(m) == if m.read(REG_LCDC as int) & 0x04 != 0 {
            16int
        } else {
            8int
        },
{
}

/// With the LCD off (LCDC bit 7 clear) the rendered frame is all white and opaque and
/// every recorded background color id is 0.
pub proof fn lemma_lcd_off_white(m: MmuView, i: int, p: int)
    requires
        m.read(REG_LCDC as int) & 0x80 == 0,
        0 <= i < FRAME_BYTES,
        0 <= p < SCREEN_PIXELS,
    ensures
        rendered_frame(m)[i] == 0xFF,
        rendered_bg_ids(m)[p] == 0,
{
}

/// Among the sprites drawn, the highest-numbered one that draws a pixel decides it.
pub proof fn lemma_last_sprite_wins(m: MmuView, n: int, x: int, y: int, j: int)
    requires
        0 <= j < n,
        sprite_pixel(m, j, x, y) is Some,
        forall|k: int| j < k < n ==> #[trigger] sprite_pixel(m, k, x, y) is None,
    ensures
        overlay(m, n, x, y) == sprite_pixel(m, j, x, y)->Some_0,
    decreases n,
{
    if n - 1 > j {
        lemma_last_sprite_wins(m, n - 1, x, y, j);
    }
}

/// Where no sprite draws, the pixel is the background color id's gray under BGP.
pub proof fn lemma_background_shows(m: MmuView, n: int, x: int, y: int)
    requires
        forall|k: int| 0 <= k < n ==> #[trigger] sprite_pixel(m, k, x, y) is None,
    ensures
        overlay(m, n, x, y) == shade(m.read(REG_BGP as int), bg_color_id(m, x, y)),
    decreases n,
{
    if n > 0 {
        lemma_background_shows(m, n - 1, x, y);
    }
}

/// The byte offset of channel `k` of pixel (`x`, `y`), and the pixel it belongs to.
pub proof fn lemma_pixel_index(x: int, y: int, k: int)
    requires
        0 <= x < 160,
        0 <= y < 144,
        0 <= k < 4,
    ensures
        0 <= (y * 160 + x) * 4 + k < FRAME_BYTES,
        0 <= y * 160 + x < SCREEN_PIXELS,
        ((y * 160 + x) * 4 + k) / 4 == y * 160 + x,
        ((y * 160 + x) * 4 + k) % 4 == k,
        (y * 160 + x) % 160 == x,
        (y * 160 + x) / 160 == y,
{
    vstd::arithmetic::div_mod::lemma_fundamental_div_mod_converse(
        (y * 160 + x) * 4 + k,
        4,
        y * 160 + x,
        k,
    );
    vstd::arithmetic::div_mod::lemma_fundamental_div_mod_converse(y * 160 + x, 160, y, x);
}

/// Every pixel byte index belongs to an on-screen pixel.
pub proof fn lemma_index_pixel(i: int)
    requires
        0 <= i < FRAME_BYTES,
    ensures
        0 <= (i / 4) % 160 < 160,
        0 <= (i / 4) / 160 < 144,
        ((i / 4) / 160 * 160 + (i / 4) % 160) * 4 + i % 4 == i,
        0 <= i / 4 < SCREEN_PIXELS,
{
    vstd::arithmetic::div_mod::lemma_fundamental_div_mod(i, 4);
    vstd::arithmetic::div_mod::lemma_fundamental_div_mod(i / 4, 160);
}

/// The alpha byte of every rendered pixel is opaque.
pub proof fn lemma_frame_opaque(m: MmuView, i: int)
    requires
        0 <= i < FRAME_BYTES,
        i % 4 == 3,
    ensures
        rendered_frame(m)[i] == 0xFF,
{
}

/// The R, G and B bytes of a rendered pixel carry the same gray level, one of the four
/// shades of the palette.
pub proof fn lemma_frame_gray(m: MmuView, x: int, y: int)
    requires
        0 <= x < 160,
        0 <= y < 144,
    ensures
        rendered_frame(m)[(y * 160 + x) * 4] == rendered_frame(m)[(y * 160 + x) * 4 + 1],
        rendered_frame(m)[(y * 160 + x) * 4] == rendered_frame(m)[(y * 160 + x) * 4 + 2],
        lcd_on(m) ==> rendered_frame(m)[(y * 160 + x) * 4] == overlay(m, 40, x, y),
{
    lemma_pixel_index(x, y, 0);
    lemma_pixel_index(x, y, 1);
    lemma_pixel_index(x, y, 2);
}

/// A sprite pixel whose dot is transparent, or that lies outside the sprite's box, shows
/// what is beneath it.
pub proof fn lemma_transparent_sprite_dot(m: MmuView, n: int, x: int, y: int)
    requires
        n > 0,
        ({
            let row = y - sprite_top(m, n - 1);
            let col = x - sprite_left(m, n - 1);
            !(0 <= row < sprite_height(m) && 0 <= col < 8) || sprite_dot(m, n - 1, row, col) == 0
        }),
    ensures
        overlay(m, n, x, y) == overlay(m, n - 1, x, y),
{
}

} // verus!
