//! The picture processing unit: scanline timing (456 cycles per scanline), LY/LYC,
//! VBlank and STAT interrupts (mode interrupt enables and LYC coincidence), STAT mode
//! bits, and rendering of the background with sprites from OAM over it.
use vstd::prelude::*;
use crate::mmu::{Mmu, MmuView, zeros};
use crate::video::{
    bg_color_id, bg_color_ids, color_id, frame_byte, frame_with_sprites, lcd_on, lemma_index_pixel,
    lemma_pixel_index, oam_byte, overlay, rendered_bg_ids, rendered_frame, shade, signed_tile,
    sprite_dot, sprite_height, sprite_left, sprite_palette, sprite_pixel, sprite_tile, sprite_top,
    FRAME_BYTES, OAM_START, REG_BGP, REG_LCDC, REG_OBP0, REG_OBP1, REG_SCX, REG_SCY, SCREEN_HEIGHT,
    SCREEN_PIXELS, SCREEN_WIDTH, SPRITE_COUNT,
};

verus! {

/// CPU cycles per scanline.
pub const CYCLES_PER_SCANLINE: u32 = 456;
/// Interrupt flag register.
pub const REG_IF: usize = 0xFF0F;
/// LCD status register.
pub const REG_STAT: usize = 0xFF41;
/// Current scanline register.
pub const REG_LY: usize = 0xFF44;
/// Scanline compare register.
pub const REG_LYC: usize = 0xFF45;

pub struct Ppu {
    frame_buffer: Vec<u8>,
    bg_color_map: Vec<u8>,
    cycles: u32,
    ly: u8,
    scanline_cycles: u32,
}

/// The content of a [`Ppu`].
pub struct PpuView {
    /// The RGBA frame buffer.
    pub frame: Seq<u8>,
    /// The background color id of each pixel of the last rendered frame.
    pub bg_map: Seq<u8>,
    pub cycles: u32,
    /// The current scanline.
    pub ly: u8,
    /// Cycles spent in the current scanline.
    pub scanline_cycles: u32,
}

impl View for Ppu {
    type V = PpuView;

    closed spec fn view(&self) -> PpuView {
        PpuView {
            frame: self.frame_buffer@,
            bg_map: self.bg_color_map@,
            cycles: self.cycles,
            ly: self.ly,
            scanline_cycles: self.scanline_cycles,
        }
    }
}

/// The memory with the mode bits (0-1) of STAT set to `mode`.
pub open spec fn set_stat_mode(m: MmuView, mode: u8) -> MmuView {
    m.write(REG_STAT as int, (m.read(REG_STAT as int) & !0x03u8) | (mode & 0x03))
}

/// The memory with the interrupt flag bits `bit` raised in IF.
pub open spec fn request_interrupt(m: MmuView, bit: u8) -> MmuView {
    m.write(REG_IF as int, m.read(REG_IF as int) | bit)
}

/// Whether STAT enables the interrupt of `mode`: bit 5 for mode 2 (OAM), bit 4 for mode 1
/// (VBlank), bit 3 for mode 0 (HBlank).
pub open spec fn stat_interrupt_enabled(stat: u8, mode: u8) -> bool {
    if mode == 2 {
        stat & 0x20 != 0
    } else if mode == 1 {
        stat & 0x10 != 0
    } else if mode == 0 {
        stat & 0x08 != 0
    } else {
        false
    }
}

/// The memory with the STAT interrupt (IF bit 1) requested if STAT enables it for `mode`.
pub open spec fn request_stat_for_mode(m: MmuView, mode: u8) -> MmuView {
    if stat_interrupt_enabled(m.read(REG_STAT as int), mode) {
        request_interrupt(m, 0x02)
    } else {
        m
    }
}

/// The LY=LYC comparison: on a match the coincidence bit (STAT bit 2) is set and, with
/// that bit set, the STAT interrupt requested; otherwise the bit is cleared.
pub open spec fn compare_lyc(m: MmuView, ly: u8) -> MmuView {
    if m.read(REG_LYC as int) == ly {
        let m1 = m.write(REG_STAT as int, m.read(REG_STAT as int) | 0x04);
        if m1.read(REG_STAT as int) & 0x04 != 0 {
            request_interrupt(m1, 0x02)
        } else {
            m1
        }
    } else {
        m.write(REG_STAT as int, m.read(REG_STAT as int) & !0x04u8)
    }
}

/// The mode of a visible scanline after `sc` cycles: 2 (OAM search) for 0-79, 3 (transfer)
/// for 80-251, 0 (HBlank) after.
pub open spec fn mode_for_cycle(sc: u32) -> u8 {
    if sc < 80 {
        2
    } else if sc < 252 {
        3
    } else {
        0
    }
}

impl PpuView {
    /// Line 0, no pending cycles, and a zeroed frame and background map.
    pub open spec fn initial() -> PpuView {
        PpuView {
            frame: zeros(FRAME_BYTES as nat),
            bg_map: zeros(SCREEN_PIXELS as nat),
            cycles: 0,
            ly: 0,
            scanline_cycles: 0,
        }
    }

    /// Buffer sizes of the frame and of the background map.
    pub open spec fn sized(self) -> bool {
        &&& self.frame.len() == FRAME_BYTES
        &&& self.bg_map.len() == SCREEN_PIXELS
    }

    /// Buffer sizes, a scanline in 0..=153, and a scanline cycle count below 456.
    pub open spec fn wf(self) -> bool {
        &&& self.sized()
        &&& self.ly <= 153
        &&& self.scanline_cycles < CYCLES_PER_SCANLINE
    }

    /// This state with a frame freshly rendered from `m`.
    pub open spec fn rendered(self, m: MmuView) -> PpuView {
        PpuView { frame: rendered_frame(m), bg_map: rendered_bg_ids(m), ..self }
    }

    /// One scanline ends: 456 cycles are consumed and LY advances, written to 0xFF44.
    /// Reaching line 144 requests VBlank (IF bit 0), sets STAT mode 1 and renders the
    /// frame; passing line 153 restarts at line 0.  A visible line then enters mode 2
    /// (requesting the STAT interrupt if enabled for it), a VBlank line mode 1, and LY is
    /// compared with LYC.
    pub open spec fn next_line(self, m: MmuView) -> (PpuView, MmuView) {
        let ly1 = ((self.ly + 1) % 256) as u8;
        let p1 = PpuView {
            ly: ly1,
            scanline_cycles: (self.scanline_cycles - CYCLES_PER_SCANLINE) as u32,
            ..self
        };
        let m1 = m.write(REG_LY as int, ly1);
        let m2 = if ly1 == 144 {
            set_stat_mode(request_interrupt(m1, 0x01), 1)
        } else {
            m1
        };
        let p2 = if ly1 == 144 {
            p1.rendered(m2)
        } else {
            p1
        };
        let p3 = if ly1 > 153 {
            PpuView { ly: 0, ..p2 }
        } else {
            p2
        };
        let m3 = if ly1 > 153 {
            m2.write(REG_LY as int, 0)
        } else {
            m2
        };
        let m4 = if p3.ly < 144 {
            request_stat_for_mode(set_stat_mode(m3, 2), 2)
        } else {
            set_stat_mode(m3, 1)
        };
        (p3, compare_lyc(m4, p3.ly))
    }

    /// Ends scanlines while at least 456 cycles are pending.
    pub open spec fn run_lines(self, m: MmuView) -> (PpuView, MmuView)
        decreases self.scanline_cycles,
    {
        if self.scanline_cycles >= CYCLES_PER_SCANLINE {
            let (p, m1) = self.next_line(m);
            p.run_lines(m1)
        } else {
            (self, m)
        }
    }

    /// The STAT mode update within the current scanline: mode 1 during VBlank; on a
    /// visible line the mode of the cycle count, requesting the STAT interrupt for it (if
    /// enabled) when it differs from the mode in STAT.
    pub open spec fn update_stat_mode(self, m: MmuView) -> MmuView {
        if self.ly >= 144 {
            set_stat_mode(m, 1)
        } else {
            let mode = mode_for_cycle(self.scanline_cycles);
            if mode != m.read(REG_STAT as int) & 0x03 {
                request_stat_for_mode(set_stat_mode(m, mode), mode)
            } else {
                m
            }
        }
    }

    /// Advancing by `cycles` CPU cycles: the pending cycles grow (wrapping), whole
    /// scanlines end, then STAT follows the position within the current scanline.
    pub open spec fn spec_step(self, cycles: u32, m: MmuView) -> (PpuView, MmuView) {
        let start = PpuView {
            scanline_cycles: ((self.scanline_cycles + cycles) % 0x1_0000_0000) as u32,
            ..self
        };
        let (p, m1) = start.run_lines(m);
        (p, p.update_stat_mode(m1))
    }
}

impl Ppu {
    /// See [`PpuView::wf`].
    pub open spec fn wf(&self) -> bool {
        self@.wf()
    }

    /// A unit at line 0 with a zeroed frame.
    pub fn new() -> (r: Ppu)
        ensures
            r.wf(),
            r@ == PpuView::initial(),
    {
        let fb = zero_bytes(FRAME_BYTES);
        let cmap = zero_bytes(SCREEN_PIXELS);
        Ppu { frame_buffer: fb, bg_color_map: cmap, cycles: 0, ly: 0, scanline_cycles: 0 }
    }

    /// Advances by `cycles` CPU cycles (see [`PpuView::spec_step`]).
    pub fn step(&mut self, cycles: u32, mmu: &mut Mmu)
        requires
            old(self).wf(),
            old(mmu).wf(),
        ensures
            final(self).wf(),
            final(mmu).wf(),
            (final(self)@, final(mmu)@) == old(self)@.spec_step(cycles, old(mmu)@),
    {
        // Advance internal cycles and handle scanline progression.
        self.scanline_cycles = self.scanline_cycles.wrapping_add(cycles);
        let ghost lines = self@.run_lines(mmu@);
        while self.scanline_cycles >= CYCLES_PER_SCANLINE
            invariant
                self@.sized(),
                self.ly <= 153,
                mmu.wf(),
                self@.run_lines(mmu@) == lines,
            decreases self.scanline_cycles,
        {
            let ghost p0 = self@;
            let ghost m0 = mmu@;
            self.scanline_cycles -= CYCLES_PER_SCANLINE;
            // Increment LY
            self.ly = self.ly.wrapping_add(1);
            mmu.write_u8(REG_LY, self.ly);
            if self.ly == 144 {
                // Enter VBlank: request VBlank interrupt (bit 0)
                let iflag = mmu.read_u8(REG_IF);
                mmu.write_u8(REG_IF, iflag | 0x01);
                // Also set STAT mode to 1 (VBlank)
                self.set_stat_mode(mmu, 1);
                // Render the full frame into framebuffer
                self.render_full_frame(mmu);
            }
            if self.ly > 153 {
                // Restart frame
                self.ly = 0;
                mmu.write_u8(REG_LY, self.ly);
            }
            if self.ly < 144 {
                // Visible line: mode 2 (OAM search), STAT interrupt for it if enabled
                self.set_stat_mode(mmu, 2);
                self.maybe_request_stat_for_mode(mmu, 2);
            } else {
                // Lines >= 144 are VBlank (mode 1)
                self.set_stat_mode(mmu, 1);
            }
            // LYC compare: set coincidence flag and request if enabled
            let lyc = mmu.read_u8(REG_LYC);
            if lyc == self.ly {
                let mut stat = mmu.read_u8(REG_STAT);
                stat |= 0x04;
                mmu.write_u8(REG_STAT, stat);
                let stat_reg = mmu.read_u8(REG_STAT);
                if (stat_reg & 0x04) != 0 {
                    let iflag = mmu.read_u8(REG_IF);
                    mmu.write_u8(REG_IF, iflag | 0x02);
                }
            } else {
                // clear coincidence flag
                let mut stat = mmu.read_u8(REG_STAT);
                stat &= !0x04u8;
                mmu.write_u8(REG_STAT, stat);
            }
            assert((self@, mmu@) == p0.next_line(m0));
        }
        // Within the current scanline, update STAT mode bits based on scanline_cycles
        self.update_stat_mode_by_cycle(mmu);
    }

    fn update_stat_mode_by_cycle(&mut self, mmu: &mut Mmu)
        requires
            old(mmu).wf(),
        ensures
            final(mmu).wf(),
            *final(self) == *old(self),
            final(mmu)@ == old(self)@.update_stat_mode(old(mmu)@),
    {
        // Only meaningful for ly < 144; for >= 144 mode 1
        if self.ly >= 144 {
            self.set_stat_mode(mmu, 1);
            return;
        }
        let cy = self.scanline_cycles;
        // Mode 2: 0-79, Mode 3: 80-251, Mode 0: 252-455
        let mode: u8 = if cy < 80 {
            2
        } else if cy < 252 {
            3
        } else {
            0
        };
        let prev_mode = mmu.read_u8(REG_STAT) & 0x03;
        if mode != prev_mode {
            self.set_stat_mode(mmu, mode);
            self.maybe_request_stat_for_mode(mmu, mode);
        }
    }

    fn set_stat_mode(&mut self, mmu: &mut Mmu, mode: u8)
        requires
            old(mmu).wf(),
        ensures
            final(mmu).wf(),
            *final(self) == *old(self),
            final(mmu)@ == set_stat_mode(old(mmu)@, mode),
    {
        let mut stat = mmu.read_u8(REG_STAT);
        stat = (stat & !0x03) | (mode & 0x03);
        mmu.write_u8(REG_STAT, stat);
    }

    fn maybe_request_stat_for_mode(&mut self, mmu: &mut Mmu, mode: u8)
        requires
            old(mmu).wf(),
        ensures
            final(mmu).wf(),
            *final(self) == *old(self),
            final(mmu)@ == request_stat_for_mode(old(mmu)@, mode),
    {
        // STAT bits: bit5 = mode2 OAM int enable, bit4 = mode1 VBlank int enable, bit3 = mode0 HBlank int enable
        let stat = mmu.read_u8(REG_STAT);
        let enable = match mode {
            2 => (stat & 0x20) != 0,
            1 => (stat & 0x10) != 0,
            0 => (stat & 0x08) != 0,
            _ => false,
        };
        if enable {
            let iflag = mmu.read_u8(REG_IF);
            mmu.write_u8(REG_IF, iflag | 0x02);  // set STAT interrupt (IF bit 1)
        }
    }

    /// A copy of the RGBA frame buffer.
    pub fn render_frame(&mut self) -> (r: Vec<u8>)
        ensures
            r@ == old(self)@.frame,
            *final(self) == *old(self),
    {
        self.frame_buffer.clone()
    }

    /// Renders the frame from memory: all white while the LCD is off, else the background
    /// followed by the 40 sprites.
    fn render_full_frame(&mut self, mmu: &Mmu)
        requires
            old(self)@.sized(),
            mmu.wf(),
        ensures
            final(self)@ == old(self)@.rendered(mmu@),
    {
        // Read LCDC and BGP and SCX/SCY
        let lcdc = mmu.read_u8(REG_LCDC);
        if (lcdc & 0x80) == 0 {
            // LCD disabled: produce blank white screen
            fill_bytes(&mut self.frame_buffer, 0xFF);
            fill_bytes(&mut self.bg_color_map, 0);
            assert(self.frame_buffer@ =~= rendered_frame(mmu@));
            assert(self.bg_color_map@ =~= rendered_bg_ids(mmu@));
            return;
        }
        let scy = mmu.read_u8(REG_SCY) as usize;
        let scx = mmu.read_u8(REG_SCX) as usize;
        let bg_palette = mmu.read_u8(REG_BGP);
        let ghost m = mmu@;

        let mut y: usize = 0;
        while y < SCREEN_HEIGHT
            invariant
                mmu.wf(),
                mmu@ == m,
                lcdc == m.read(REG_LCDC as int),
                scy == m.read(REG_SCY as int),
                scx == m.read(REG_SCX as int),
                bg_palette == m.read(REG_BGP as int),
                y <= SCREEN_HEIGHT,
                self@.sized(),
                self.cycles == old(self).cycles,
                self.ly == old(self).ly,
                self.scanline_cycles == old(self).scanline_cycles,
                forall|i: int| 0 <= i < 4 * (y * 160) ==> self.frame_buffer@[i] == frame_byte(m, 0, i),
                forall|p: int|
                    0 <= p < y * 160 ==> self.bg_color_map@[p] == bg_color_id(m, p % 160, p / 160),
            decreases SCREEN_HEIGHT - y,
        {
            let mut x: usize = 0;
            while x < SCREEN_WIDTH
                invariant
                    mmu.wf(),
                    mmu@ == m,
                    lcdc == m.read(REG_LCDC as int),
                    scy == m.read(REG_SCY as int),
                    scx == m.read(REG_SCX as int),
                    bg_palette == m.read(REG_BGP as int),
                    y < SCREEN_HEIGHT,
                    x <= SCREEN_WIDTH,
                    self@.sized(),
                    self.cycles == old(self).cycles,
                    self.ly == old(self).ly,
                    self.scanline_cycles == old(self).scanline_cycles,
                    forall|i: int|
                        0 <= i < 4 * (y * 160 + x) ==> self.frame_buffer@[i] == frame_byte(m, 0, i),
                    forall|p: int|
                        0 <= p < y * 160 + x ==> self.bg_color_map@[p] == bg_color_id(
                            m,
                            p % 160,
                            p / 160,
                        ),
                decreases SCREEN_WIDTH - x,
            {
                let color_id = bg_color_id_at(mmu, lcdc, scx, scy, x, y);
                let shade = shade_of(bg_palette, color_id);
                let p = y * SCREEN_WIDTH + x;
                let i = p * 4;
                proof {
                    lemma_pixel_index(x as int, y as int, 0);
                    lemma_pixel_index(x as int, y as int, 1);
                    lemma_pixel_index(x as int, y as int, 2);
                    lemma_pixel_index(x as int, y as int, 3);
                }
                self.frame_buffer[i] = shade;
                self.frame_buffer[i + 1] = shade;
                self.frame_buffer[i + 2] = shade;
                self.frame_buffer[i + 3] = 0xFF;
                self.bg_color_map[p] = color_id;
                x = x + 1;
            }
            y = y + 1;
        }
        assert(self.frame_buffer@ =~= frame_with_sprites(m, 0));
        assert(self.bg_color_map@ =~= bg_color_ids(m));

        // Now render sprites from OAM on top of background according to priority.
        let lcdc = mmu.read_u8(REG_LCDC);
        let sprite_size: usize = if (lcdc & 0x04) != 0 {
            16
        } else {
            8
        };
        let obp0 = mmu.read_u8(REG_OBP0);
        let obp1 = mmu.read_u8(REG_OBP1);

        // There are 40 sprites; OAM starts at 0xFE00
        let mut s: usize = 0;
        while s < SPRITE_COUNT
            invariant
                mmu.wf(),
                mmu@ == m,
                lcd_on(m),
                s <= SPRITE_COUNT,
                sprite_size == sprite_height(m),
                obp0 == m.read(REG_OBP0 as int),
                obp1 == m.read(REG_OBP1 as int),
                self.frame_buffer@ == frame_with_sprites(m, s as int),
                self.bg_color_map@ == bg_color_ids(m),
                self.cycles == old(self).cycles,
                self.ly == old(self).ly,
                self.scanline_cycles == old(self).scanline_cycles,
            decreases SPRITE_COUNT - s,
        {
            self.draw_sprite(mmu, s, sprite_size, obp0, obp1);
            s = s + 1;
        }
    }

    /// Draws sprite `s` over the frame.
    fn draw_sprite(&mut self, mmu: &Mmu, s: usize, sprite_size: usize, obp0: u8, obp1: u8)
        requires
            mmu.wf(),
            s < SPRITE_COUNT,
            sprite_size == sprite_height(mmu@),
            obp0 == mmu@.read(REG_OBP0 as int),
            obp1 == mmu@.read(REG_OBP1 as int),
            old(self).frame_buffer@ == frame_with_sprites(mmu@, s as int),
            old(self).bg_color_map@ == bg_color_ids(mmu@),
        ensures
            final(self).frame_buffer@ == frame_with_sprites(mmu@, s + 1),
            final(self).bg_color_map@ == old(self).bg_color_map@,
            final(self).cycles == old(self).cycles,
            final(self).ly == old(self).ly,
            final(self).scanline_cycles == old(self).scanline_cycles,
    {
        let ghost m = mmu@;
        let base = OAM_START + s * 4;
        let y = (mmu.read_u8(base) as i16) - 16;
        let x = (mmu.read_u8(base + 1) as i16) - 8;
        let mut tile = mmu.read_u8(base + 2);
        let attr = mmu.read_u8(base + 3);

        let yflip = (attr & 0x40) != 0;
        let xflip = (attr & 0x20) != 0;
        let palette_select = (attr & 0x10) != 0;  // 0=OBP0, 1=OBP1
        let priority = (attr & 0x80) != 0;  // 1 = behind background

        // For 8x16 mode, the lower bit of tile is ignored and selects top/bottom
        if sprite_size == 16 {
            tile &= 0xFE;
        }
        // Select palette
        let pal = if palette_select {
            obp1
        } else {
            obp0
        };
        assert(tile == sprite_tile(m, s as int));

        let mut row: usize = 0;
        while row < sprite_size
            invariant
                mmu.wf(),
                mmu@ == m,
                s < SPRITE_COUNT,
                sprite_size == sprite_height(m),
                row <= sprite_size,
                y == sprite_top(m, s as int),
                x == sprite_left(m, s as int),
                tile == sprite_tile(m, s as int),
                attr == oam_byte(m, s as int, 3),
                yflip == (attr & 0x40 != 0),
                xflip == (attr & 0x20 != 0),
                priority == (attr & 0x80 != 0),
                pal == sprite_palette(m, s as int),
                self.frame_buffer@.len() == FRAME_BYTES,
                self.bg_color_map@ == bg_color_ids(m),
                self.cycles == old(self).cycles,
                self.ly == old(self).ly,
                self.scanline_cycles == old(self).scanline_cycles,
                forall|i: int|
                    0 <= i < FRAME_BYTES ==> self.frame_buffer@[i] == partial_byte(
                        m,
                        s as int,
                        row as int,
                        0,
                        i,
                    ),
            decreases sprite_size - row,
        {
            let py = if yflip {
                sprite_size - 1 - row
            } else {
                row
            };
            let tile_line = py as u8;
            // sprites use unsigned 0x8000 addressing
            let tile_addr = 0x8000usize + (tile as usize) * 16usize + (tile_line as usize) * 2usize;
            let b1 = mmu.read_u8(tile_addr);
            let b2 = mmu.read_u8(tile_addr + 1);

            let mut col: usize = 0;
            while col < 8
                invariant
                    mmu.wf(),
                    mmu@ == m,
                    s < SPRITE_COUNT,
                    sprite_size == sprite_height(m),
                    row < sprite_size,
                    col <= 8,
                    y == sprite_top(m, s as int),
                    x == sprite_left(m, s as int),
                    tile == sprite_tile(m, s as int),
                    attr == oam_byte(m, s as int, 3),
                    xflip == (attr & 0x20 != 0),
                    priority == (attr & 0x80 != 0),
                    pal == sprite_palette(m, s as int),
                    b1 == m.read(0x8000 + tile * 16 + py * 2),
                    b2 == m.read(0x8000 + tile * 16 + py * 2 + 1),
                    py == (if attr & 0x40 != 0 {
                        sprite_height(m) - 1 - row
                    } else {
                        row as int
                    }),
                    self.frame_buffer@.len() == FRAME_BYTES,
                    self.bg_color_map@ == bg_color_ids(m),
                    self.cycles == old(self).cycles,
                    self.ly == old(self).ly,
                    self.scanline_cycles == old(self).scanline_cycles,
                    forall|i: int|
                        0 <= i < FRAME_BYTES ==> self.frame_buffer@[i] == partial_byte(
                            m,
                            s as int,
                            row as int,
                            col as int,
                            i,
                        ),
                decreases 8 - col,
            {
                self.draw_sprite_dot(mmu, s, row, col, x, y, b1, b2, xflip, priority, pal);
                col = col + 1;
            }
            proof {
                assert forall|i: int| 0 <= i < FRAME_BYTES implies self.frame_buffer@[i]
                    == partial_byte(m, s as int, row + 1, 0, i) by {
                    assert(partial_byte(m, s as int, row as int, 8, i) == partial_byte(
                        m,
                        s as int,
                        row + 1,
                        0,
                        i,
                    ));
                }
            }
            row = row + 1;
        }
        proof {
            assert forall|i: int| 0 <= i < FRAME_BYTES implies self.frame_buffer@[i]
                == frame_byte(m, s + 1, i) by {
                assert(partial_byte(m, s as int, sprite_height(m), 0, i) == frame_byte(
                    m,
                    s + 1,
                    i,
                ));
            }
            assert(self.frame_buffer@ =~= frame_with_sprites(m, s + 1));
        }
    }

    /// Draws the dot at `row`, `col` of sprite `s` (whose top-left corner is at `x`, `y`
    /// and whose tile line is `b1`, `b2`), when it is opaque, on screen and not hidden
    /// behind the background.
    fn draw_sprite_dot(
        &mut self,
        mmu: &Mmu,
        s: usize,
        row: usize,
        col: usize,
        x: i16,
        y: i16,
        b1: u8,
        b2: u8,
        xflip: bool,
        priority: bool,
        pal: u8,
    )
        requires
            mmu.wf(),
            s < SPRITE_COUNT,
            row < sprite_height(mmu@),
            col < 8,
            y == sprite_top(mmu@, s as int),
            x == sprite_left(mmu@, s as int),
            xflip == (oam_byte(mmu@, s as int, 3) & 0x20 != 0),
            priority == (oam_byte(mmu@, s as int, 3) & 0x80 != 0),
            pal == sprite_palette(mmu@, s as int),
            color_id(
                b1,
                b2,
                (if xflip {
                    col as int
                } else {
                    7 - col
                }) as u8,
            ) == sprite_dot(mmu@, s as int, row as int, col as int),
            old(self).frame_buffer@.len() == FRAME_BYTES,
            old(self).bg_color_map@ == bg_color_ids(mmu@),
            forall|i: int|
                0 <= i < FRAME_BYTES ==> old(self).frame_buffer@[i] == partial_byte(
                    mmu@,
                    s as int,
                    row as int,
                    col as int,
                    i,
                ),
        ensures
            final(self).frame_buffer@.len() == FRAME_BYTES,
            final(self).bg_color_map@ == old(self).bg_color_map@,
            final(self).cycles == old(self).cycles,
            final(self).ly == old(self).ly,
            final(self).scanline_cycles == old(self).scanline_cycles,
            forall|i: int|
                0 <= i < FRAME_BYTES ==> final(self).frame_buffer@[i] == partial_byte(
                    mmu@,
                    s as int,
                    row as int,
                    col + 1,
                    i,
                ),
    {
        let ghost m = mmu@;
        let ghost old_frame = self.frame_buffer@;
        let px = if xflip {
            col
        } else {
            7 - col
        };
        let color_id = color_id_of(b1, b2, px as u8);
        let sx = x + (col as i16);
        let sy = y + (row as i16);
        let ghost covered_x = sx as int;
        let ghost covered_y = sy as int;
        if color_id != 0 && 0 <= sx && sx < 160 && 0 <= sy && sy < 144 {
            let sxu = sx as usize;
            let syu = sy as usize;
            let p = syu * SCREEN_WIDTH + sxu;
            let idx = p * 4;
            proof {
                lemma_pixel_index(sxu as int, syu as int, 0);
                lemma_pixel_index(sxu as int, syu as int, 1);
                lemma_pixel_index(sxu as int, syu as int, 2);
                lemma_pixel_index(sxu as int, syu as int, 3);
            }
            // Priority: if the priority bit is set and the background color is not 0,
            // the background stays in front
            let hidden = priority && self.bg_color_map[p] != 0;
            if !hidden {
                let shade = shade_of(pal, color_id);
                self.frame_buffer[idx] = shade;
                self.frame_buffer[idx + 1] = shade;
                self.frame_buffer[idx + 2] = shade;
                self.frame_buffer[idx + 3] = 0xFF;
            }
        }
        proof {
            assert forall|i: int| 0 <= i < FRAME_BYTES implies self.frame_buffer@[i]
                == partial_byte(m, s as int, row as int, col + 1, i) by {
                lemma_index_pixel(i);
                let q = i / 4;
                if q % 160 == covered_x && q / 160 == covered_y {
                } else {
                    if 0 <= covered_x < 160 && 0 <= covered_y < 144 {
                        lemma_pixel_index(covered_x, covered_y, 0);
                    }
                    assert(partial_byte(m, s as int, row as int, col as int, i) == partial_byte(
                        m,
                        s as int,
                        row as int,
                        col + 1,
                        i,
                    ));
                }
            }
        }
    }
}

/// The register updates of the PPU write only STAT and IF: every other address reads as
/// before, and the memory stays well formed.
pub proof fn lemma_register_updates_frame(m: MmuView, mode: u8, bit: u8, ly: u8, addr: int)
    requires
        m.wf(),
        addr != REG_STAT,
        addr != REG_IF,
    ensures
        set_stat_mode(m, mode).wf(),
        set_stat_mode(m, mode).read(addr) == m.read(addr),
        request_interrupt(m, bit).wf(),
        request_interrupt(m, bit).read(addr) == m.read(addr),
        request_stat_for_mode(m, mode).wf(),
        request_stat_for_mode(m, mode).read(addr) == m.read(addr),
        compare_lyc(m, ly).wf(),
        compare_lyc(m, ly).read(addr) == m.read(addr),
{
    lemma_write_facts(m, REG_STAT as int, (m.read(REG_STAT as int) & !0x03u8) | (mode & 0x03), addr);
    lemma_write_facts(m, REG_IF as int, m.read(REG_IF as int) | bit, addr);
    lemma_write_facts(m, REG_IF as int, m.read(REG_IF as int) | 0x02, addr);
    let m1 = m.write(REG_STAT as int, m.read(REG_STAT as int) | 0x04);
    lemma_write_facts(m, REG_STAT as int, m.read(REG_STAT as int) | 0x04, addr);
    lemma_write_facts(m1, REG_IF as int, m1.read(REG_IF as int) | 0x02, addr);
    lemma_write_facts(m, REG_STAT as int, m.read(REG_STAT as int) & !0x04u8, addr);
}

/// A write to an I/O register: it stays well formed, the register reads back the value,
/// and every other address reads as before.
proof fn lemma_write_facts(m: MmuView, reg: int, val: u8, addr: int)
    requires
        m.wf(),
        0xFF00 <= reg <= 0xFF7F,
    ensures
        m.write(reg, val).wf(),
        m.write(reg, val).read(reg) == val,
        addr != reg ==> m.write(reg, val).read(addr) == m.read(addr),
{
    crate::mmu::lemma_write_wf(m, reg, val);
    crate::mmu::lemma_read_after_write(m, reg, val);
    if addr != reg {
        crate::mmu::lemma_write_frame(m, reg, addr, val);
    }
}

/// After the in-line STAT update, the mode bits of STAT give the mode of the position in
/// the scanline: 1 during VBlank, else that of the cycle count.
pub proof fn lemma_stat_mode_follows_cycle(p: PpuView, m: MmuView)
    requires
        m.wf(),
    ensures
        p.update_stat_mode(m).read(REG_STAT as int) & 0x03 == if p.ly >= 144 {
            1
        } else {
            mode_for_cycle(p.scanline_cycles)
        },
{
    let r = m.read(REG_STAT as int);
    if p.ly >= 144 {
        lemma_write_facts(m, REG_STAT as int, (r & !0x03u8) | (1u8 & 0x03), 0);
        assert(((r & !0x03u8) | (1u8 & 0x03)) & 0x03 == 1) by (bit_vector);
    } else {
        let mode = mode_for_cycle(p.scanline_cycles);
        if mode != r & 0x03 {
            let v = (r & !0x03u8) | (mode & 0x03);
            lemma_write_facts(m, REG_STAT as int, v, 0);
            let m1 = set_stat_mode(m, mode);
            lemma_write_facts(m1, REG_IF as int, m1.read(REG_IF as int) | 0x02, REG_STAT as int);
            assert(mode <= 3 ==> v & 0x03 == mode) by (bit_vector)
                requires
                    v == (r & !0x03u8) | (mode & 0x03),
            ;
        }
    }
}

/// When LY matches LYC the coincidence bit of STAT is set and the STAT interrupt (IF
/// bit 1) requested; otherwise the coincidence bit is cleared and IF left alone.
pub proof fn lemma_lyc_coincidence(m: MmuView, ly: u8)
    requires
        m.wf(),
    ensures
        m.read(REG_LYC as int) == ly ==> compare_lyc(m, ly).read(REG_STAT as int) & 0x04 != 0,
        m.read(REG_LYC as int) == ly ==> compare_lyc(m, ly).read(REG_IF as int) & 0x02 != 0,
        m.read(REG_LYC as int) != ly ==> compare_lyc(m, ly).read(REG_STAT as int) & 0x04 == 0,
        m.read(REG_LYC as int) != ly ==> compare_lyc(m, ly).read(REG_IF as int) == m.read(
            REG_IF as int,
        ),
{
    let r = m.read(REG_STAT as int);
    if m.read(REG_LYC as int) == ly {
        lemma_write_facts(m, REG_STAT as int, r | 0x04, 0);
        let m1 = m.write(REG_STAT as int, r | 0x04);
        lemma_write_facts(m1, REG_IF as int, m1.read(REG_IF as int) | 0x02, REG_STAT as int);
        let f = m1.read(REG_IF as int);
        assert((r | 0x04) & 0x04 != 0 && (f | 0x02) & 0x02 != 0) by (bit_vector);
    } else {
        lemma_write_facts(m, REG_STAT as int, r & !0x04u8, REG_IF as int);
        assert((r & !0x04u8) & 0x04 == 0) by (bit_vector);
    }
}

/// Ending a scanline leaves the new line number in the LY register and a line in
/// 0..=153; the frame is rendered exactly when line 144 (VBlank) begins.
pub proof fn lemma_next_line_ly(p: PpuView, m: MmuView)
    requires
        m.wf(),
        p.ly <= 153,
        p.scanline_cycles >= CYCLES_PER_SCANLINE,
    ensures
        p.next_line(m).1.wf(),
        p.next_line(m).1.read(REG_LY as int) == p.next_line(m).0.ly,
        p.next_line(m).0.ly <= 153,
        p.next_line(m).0.ly == if p.ly == 153 {
            0
        } else {
            p.ly + 1
        },
        p.next_line(m).0.scanline_cycles == p.scanline_cycles - CYCLES_PER_SCANLINE,
        p.ly == 143 ==> p.next_line(m).0 == (PpuView {
            ly: 144,
            scanline_cycles: (p.scanline_cycles - CYCLES_PER_SCANLINE) as u32,
            ..p
        }).rendered(request_interrupt(m.write(REG_LY as int, 144), 0x01).write(
            REG_STAT as int,
            (request_interrupt(m.write(REG_LY as int, 144), 0x01).read(REG_STAT as int) & !0x03u8)
                | 1u8,
        )),
        p.ly != 143 ==> p.next_line(m).0.frame == p.frame && p.next_line(m).0.bg_map
            == p.bg_map,
{
    let ly1 = ((p.ly + 1) % 256) as u8;
    let m1 = m.write(REG_LY as int, ly1);
    lemma_write_facts(m, REG_LY as int, ly1, 0);
    let m2 = if ly1 == 144 {
        set_stat_mode(request_interrupt(m1, 0x01), 1)
    } else {
        m1
    };
    if ly1 == 144 {
        lemma_register_updates_frame(m1, 1, 0x01, 0, REG_LY as int);
        lemma_register_updates_frame(request_interrupt(m1, 0x01), 1, 0x01, 0, REG_LY as int);
        assert((1u8 & 0x03) == 1u8) by (bit_vector);
    }
    let ly3: u8 = if ly1 > 153 {
        0
    } else {
        ly1
    };
    let m3 = if ly1 > 153 {
        m2.write(REG_LY as int, 0)
    } else {
        m2
    };
    if ly1 > 153 {
        lemma_write_facts(m2, REG_LY as int, 0, 0);
    }
    let m4 = if ly3 < 144 {
        request_stat_for_mode(set_stat_mode(m3, 2), 2)
    } else {
        set_stat_mode(m3, 1)
    };
    lemma_register_updates_frame(m3, 2, 0x02, ly3, REG_LY as int);
    lemma_register_updates_frame(m3, 1, 0x02, ly3, REG_LY as int);
    lemma_register_updates_frame(set_stat_mode(m3, 2), 2, 0x02, ly3, REG_LY as int);
    lemma_register_updates_frame(m4, 2, 0x02, ly3, REG_LY as int);
}

/// Entering VBlank (line 143 to 144) requests the VBlank interrupt (IF bit 0) and leaves
/// STAT in mode 1.
pub proof fn lemma_vblank_interrupt(p: PpuView, m: MmuView)
    requires
        m.wf(),
        p.ly == 143,
        p.scanline_cycles >= CYCLES_PER_SCANLINE,
    ensures
        p.next_line(m).1.read(REG_IF as int) & 0x01 != 0,
        p.next_line(m).1.read(REG_STAT as int) & 0x03 == 1,
{
    let m1 = m.write(REG_LY as int, 144);
    lemma_write_facts(m, REG_LY as int, 144, 0);
    let f = m1.read(REG_IF as int);
    let ma = request_interrupt(m1, 0x01);
    lemma_write_facts(m1, REG_IF as int, f | 0x01, REG_STAT as int);
    let m2 = set_stat_mode(ma, 1);
    let ra = ma.read(REG_STAT as int);
    lemma_write_facts(ma, REG_STAT as int, (ra & !0x03u8) | (1u8 & 0x03), REG_IF as int);
    let m4 = set_stat_mode(m2, 1);
    let r4 = m2.read(REG_STAT as int);
    lemma_write_facts(m2, REG_STAT as int, (r4 & !0x03u8) | (1u8 & 0x03), REG_IF as int);
    assert(((r4 & !0x03u8) | (1u8 & 0x03)) & 0x03 == 1) by (bit_vector);
    assert((f | 0x01) & 0x01 != 0) by (bit_vector);
    // the LYC comparison keeps IF bit 0 and the STAT mode bits
    let r = m4.read(REG_STAT as int);
    let g = m4.read(REG_IF as int);
    if m4.read(REG_LYC as int) == 144 {
        lemma_write_facts(m4, REG_STAT as int, r | 0x04, REG_IF as int);
        let m5 = m4.write(REG_STAT as int, r | 0x04);
        lemma_write_facts(m5, REG_IF as int, g | 0x02, REG_STAT as int);
        assert((g & 0x01 != 0 ==> (g | 0x02) & 0x01 != 0) && (r & 0x03 == 1 ==> (r | 0x04)
            & 0x03 == 1)) by (bit_vector);
    } else {
        lemma_write_facts(m4, REG_STAT as int, r & !0x04u8, REG_IF as int);
        assert(r & 0x03 == 1 ==> (r & !0x04u8) & 0x03 == 1) by (bit_vector);
    }
}

/// Whether `b` keeps every interrupt-flag bit raised in `a` and agrees with `a` on every
/// address other than IF, STAT and LY.
pub open spec fn lcd_update_of(a: MmuView, b: MmuView) -> bool {
    &&& b.wf()
    &&& b.read(REG_IF as int) & a.read(REG_IF as int) == a.read(REG_IF as int)
    &&& forall|addr: int|
        addr != REG_IF && addr != REG_STAT && addr != REG_LY ==> #[trigger] b.read(addr) == a.read(
            addr,
        )
}

/// The PPU's memory updates compose.
proof fn lemma_lcd_update_trans(a: MmuView, b: MmuView, c: MmuView)
    requires
        lcd_update_of(a, b),
        lcd_update_of(b, c),
    ensures
        lcd_update_of(a, c),
{
    let x = a.read(REG_IF as int);
    let y = b.read(REG_IF as int);
    let z = c.read(REG_IF as int);
    assert(y & x == x && z & y == y ==> z & x == x) by (bit_vector);
}

/// Every register update of the PPU (a write to LY or STAT, an interrupt request, the
/// STAT mode, the LYC comparison) only raises IF bits and writes IF, STAT and LY.
proof fn lemma_register_updates_are_lcd_updates(m: MmuView, mode: u8, bit: u8, ly: u8, val: u8)
    requires
        m.wf(),
    ensures
        lcd_update_of(m, m.write(REG_LY as int, val)),
        lcd_update_of(m, set_stat_mode(m, mode)),
        lcd_update_of(m, request_interrupt(m, bit)),
        lcd_update_of(m, request_stat_for_mode(m, mode)),
        lcd_update_of(m, compare_lyc(m, ly)),
{
    let f = m.read(REG_IF as int);
    assert(f & f == f && (f | bit) & f == f && (f | 0x02) & f == f) by (bit_vector);
    lemma_write_facts(m, REG_LY as int, val, REG_IF as int);
    let sv = (m.read(REG_STAT as int) & !0x03u8) | (mode & 0x03);
    lemma_write_facts(m, REG_STAT as int, sv, REG_IF as int);
    lemma_write_facts(m, REG_IF as int, f | bit, REG_IF as int);
    lemma_write_facts(m, REG_IF as int, f | 0x02, REG_IF as int);
    let r = m.read(REG_STAT as int);
    lemma_write_facts(m, REG_STAT as int, r | 0x04, REG_IF as int);
    lemma_write_facts(m, REG_STAT as int, r & !0x04u8, REG_IF as int);
    let m1 = m.write(REG_STAT as int, r | 0x04);
    lemma_write_facts(m1, REG_IF as int, f | 0x02, REG_IF as int);
    assert forall|addr: int| addr != REG_IF && addr != REG_STAT && addr != REG_LY implies #[trigger] m.write(
        REG_LY as int,
        val,
    ).read(addr) == m.read(addr) by {
        lemma_write_facts(m, REG_LY as int, val, addr);
    }
    assert forall|addr: int| addr != REG_IF && addr != REG_STAT && addr != REG_LY implies #[trigger] set_stat_mode(
        m,
        mode,
    ).read(addr) == m.read(addr) by {
        lemma_register_updates_frame(m, mode, bit, ly, addr);
    }
    assert forall|addr: int| addr != REG_IF && addr != REG_STAT && addr != REG_LY implies #[trigger] request_interrupt(
        m,
        bit,
    ).read(addr) == m.read(addr) by {
        lemma_register_updates_frame(m, mode, bit, ly, addr);
    }
    assert forall|addr: int| addr != REG_IF && addr != REG_STAT && addr != REG_LY implies #[trigger] request_stat_for_mode(
        m,
        mode,
    ).read(addr) == m.read(addr) by {
        lemma_register_updates_frame(m, mode, bit, ly, addr);
    }
    assert forall|addr: int| addr != REG_IF && addr != REG_STAT && addr != REG_LY implies #[trigger] compare_lyc(
        m,
        ly,
    ).read(addr) == m.read(addr) by {
        lemma_register_updates_frame(m, mode, bit, ly, addr);
    }
}

/// Leaving memory as it is counts as a PPU update.
proof fn lemma_lcd_update_refl(m: MmuView)
    requires
        m.wf(),
    ensures
        lcd_update_of(m, m),
{
    let f = m.read(REG_IF as int);
    assert(f & f == f) by (bit_vector);
}

/// Ending a scanline only raises IF bits and writes IF, STAT and LY.
pub proof fn lemma_next_line_memory(p: PpuView, m: MmuView)
    requires
        m.wf(),
    ensures
        lcd_update_of(m, p.next_line(m).1),
{
    let ly1 = ((p.ly + 1) % 256) as u8;
    let m1 = m.write(REG_LY as int, ly1);
    lemma_register_updates_are_lcd_updates(m, 1, 0x01, 0, ly1);
    let ma = request_interrupt(m1, 0x01);
    lemma_register_updates_are_lcd_updates(m1, 1, 0x01, 0, 0);
    lemma_register_updates_are_lcd_updates(ma, 1, 0x01, 0, 0);
    let mb = set_stat_mode(ma, 1);
    let m2 = if ly1 == 144 {
        mb
    } else {
        m1
    };
    if ly1 == 144 {
        lemma_lcd_update_trans(m, m1, ma);
        lemma_lcd_update_trans(m, ma, mb);
    }
    let m3 = if ly1 > 153 {
        m2.write(REG_LY as int, 0)
    } else {
        m2
    };
    lemma_register_updates_are_lcd_updates(m2, 2, 0x02, 0, 0);
    if ly1 > 153 {
        lemma_lcd_update_trans(m, m2, m3);
    }
    let ly3: u8 = if ly1 > 153 {
        0
    } else {
        ly1
    };
    let mc = set_stat_mode(m3, 2);
    lemma_register_updates_are_lcd_updates(m3, 2, 0x02, ly3, 0);
    lemma_register_updates_are_lcd_updates(mc, 2, 0x02, ly3, 0);
    let m4 = if ly3 < 144 {
        request_stat_for_mode(mc, 2)
    } else {
        set_stat_mode(m3, 1)
    };
    lemma_register_updates_are_lcd_updates(m3, 1, 0x02, ly3, 0);
    if ly3 < 144 {
        lemma_lcd_update_trans(m, m3, mc);
        lemma_lcd_update_trans(m, mc, m4);
    } else {
        lemma_lcd_update_trans(m, m3, m4);
    }
    lemma_register_updates_are_lcd_updates(m4, 2, 0x02, ly3, 0);
    lemma_lcd_update_trans(m, m4, compare_lyc(m4, ly3));
}

/// Ending every whole scanline of pending cycles: LY advances by the number of lines,
/// counting modulo 154 lines, the pending cycles drop below one line, and memory only
/// changes by PPU register updates.
pub proof fn lemma_run_lines(p: PpuView, m: MmuView)
    requires
        m.wf(),
        p.ly <= 153,
    ensures
        p.run_lines(m).0.ly == (p.ly + p.scanline_cycles / 456) % 154,
        p.run_lines(m).0.scanline_cycles == p.scanline_cycles % 456,
        lcd_update_of(m, p.run_lines(m).1),
    decreases p.scanline_cycles,
{
    let sc = p.scanline_cycles as int;
    if sc >= 456 {
        let (q, m1) = p.next_line(m);
        lemma_next_line_ly(p, m);
        lemma_next_line_memory(p, m);
        lemma_run_lines(q, m1);
        lemma_lcd_update_trans(m, m1, q.run_lines(m1).1);
        let k = (sc - 456) / 456;
        vstd::arithmetic::div_mod::lemma_fundamental_div_mod(sc - 456, 456);
        vstd::arithmetic::div_mod::lemma_fundamental_div_mod_converse(
            sc,
            456,
            k + 1,
            (sc - 456) % 456,
        );
        assert(sc / 456 == k + 1);
        if p.ly == 153 {
            vstd::arithmetic::div_mod::lemma_mod_add_multiples_vanish(k, 154);
        }
    } else {
        lemma_lcd_update_refl(m);
        vstd::arithmetic::div_mod::lemma_small_mod(p.ly as nat, 154);
        vstd::arithmetic::div_mod::lemma_small_mod(sc as nat, 456);
    }
}

/// After a step, LY has advanced by the whole scanlines of the pending cycles modulo 154,
/// STAT shows the mode of the new position (1 in VBlank, else that of the cycle count),
/// IF bits are only ever raised, and no memory but IF, STAT and LY changes.
pub proof fn lemma_step_effects(p: PpuView, cycles: u32, m: MmuView)
    requires
        m.wf(),
        p.wf(),
    ensures
        ({
            let total = (p.scanline_cycles + cycles) % 0x1_0000_0000;
            let (q, m2) = p.spec_step(cycles, m);
            &&& q.ly == (p.ly + total / 456) % 154
            &&& q.scanline_cycles == total % 456
            &&& m2.read(REG_STAT as int) & 0x03 == if q.ly >= 144 {
                1
            } else {
                mode_for_cycle(q.scanline_cycles)
            }
            &&& lcd_update_of(m, m2)
        }),
{
    let start = PpuView {
        scanline_cycles: ((p.scanline_cycles + cycles) % 0x1_0000_0000) as u32,
        ..p
    };
    lemma_run_lines(start, m);
    let (q, m1) = start.run_lines(m);
    lemma_stat_mode_follows_cycle(q, m1);
    let mode = mode_for_cycle(q.scanline_cycles);
    lemma_register_updates_are_lcd_updates(m1, 1, 0x02, 0, 0);
    lemma_register_updates_are_lcd_updates(m1, mode, 0x02, 0, 0);
    let ms = set_stat_mode(m1, mode);
    lemma_register_updates_are_lcd_updates(ms, mode, 0x02, 0, 0);
    lemma_lcd_update_trans(m1, ms, request_stat_for_mode(ms, mode));
    let m2 = q.update_stat_mode(m1);
    lemma_lcd_update_refl(m1);
    lemma_lcd_update_trans(m, m1, m2);
}

/// Requesting the STAT interrupt for a mode raises IF bit 1 exactly when STAT enables
/// that mode's interrupt: bit 5 for mode 2 (OAM search), bit 4 for mode 1 (VBlank), bit 3
/// for mode 0 (HBlank), none for mode 3; every other IF bit is kept.
pub proof fn lemma_stat_interrupt_enables(m: MmuView, mode: u8)
    requires
        m.wf(),
    ensures
        ({
            let st = m.read(REG_STAT as int);
            let f = m.read(REG_IF as int);
            let f1 = request_stat_for_mode(m, mode).read(REG_IF as int);
            &&& f1 & !0x02u8 == f & !0x02u8
            &&& (f1 & 0x02 != 0) == (f & 0x02 != 0 || (mode == 2 && st & 0x20 != 0) || (mode == 1
                && st & 0x10 != 0) || (mode == 0 && st & 0x08 != 0))
        }),
{
    let f = m.read(REG_IF as int);
    lemma_write_facts(m, REG_IF as int, f | 0x02, REG_IF as int);
    let g = f | 0x02;
    assert(g & !0x02u8 == f & !0x02u8 && g & 0x02 != 0 && (f & 0x02 != 0 || f & 0x02 == 0))
        by (bit_vector)
        requires
            g == f | 0x02,
    ;
}

/// When a scanline ends and the next one is visible (lines 0-143), IF bit 1
/// (STAT) is raised if STAT bit 5 (the mode 2 interrupt enable) is set; if that bit is
/// clear, LY does not match LYC and IF bit 1 was clear, it stays clear.
pub proof fn lemma_visible_line_stat_interrupt(p: PpuView, m: MmuView)
    requires
        m.wf(),
        p.ly < 143 || p.ly == 153,
        p.scanline_cycles >= CYCLES_PER_SCANLINE,
    ensures
        m.read(REG_STAT as int) & 0x20 != 0 ==> p.next_line(m).1.read(REG_IF as int) & 0x02 != 0,
        (m.read(REG_STAT as int) & 0x20 == 0 && m.read(REG_IF as int) & 0x02 == 0 && m.read(
            REG_LYC as int,
        ) != p.next_line(m).0.ly) ==> p.next_line(m).1.read(REG_IF as int) & 0x02 == 0,
{
    let ly1 = ((p.ly + 1) % 256) as u8;
    let m1 = m.write(REG_LY as int, ly1);
    lemma_write_facts(m, REG_LY as int, ly1, REG_STAT as int);
    lemma_write_facts(m, REG_LY as int, ly1, REG_IF as int);
    lemma_write_facts(m, REG_LY as int, ly1, REG_LYC as int);
    let m3 = if ly1 > 153 {
        m1.write(REG_LY as int, 0)
    } else {
        m1
    };
    lemma_write_facts(m1, REG_LY as int, 0, REG_STAT as int);
    lemma_write_facts(m1, REG_LY as int, 0, REG_IF as int);
    lemma_write_facts(m1, REG_LY as int, 0, REG_LYC as int);
    let ly3: u8 = if ly1 > 153 {
        0
    } else {
        ly1
    };
    let st = m3.read(REG_STAT as int);
    let sv = (st & !0x03u8) | (2u8 & 0x03);
    lemma_write_facts(m3, REG_STAT as int, sv, REG_IF as int);
    lemma_write_facts(m3, REG_STAT as int, sv, REG_LYC as int);
    let mc = set_stat_mode(m3, 2);
    assert(sv & 0x20 == st & 0x20) by (bit_vector)
        requires
            sv == (st & !0x03u8) | (2u8 & 0x03),
    ;
    lemma_stat_interrupt_enables(mc, 2);
    let m4 = request_stat_for_mode(mc, 2);
    lemma_register_updates_frame(mc, 2, 0x02, ly3, REG_LYC as int);
    lemma_register_updates_are_lcd_updates(mc, 2, 0x02, ly3, 0);
    lemma_register_updates_are_lcd_updates(m4, 2, 0x02, ly3, 0);
    lemma_lyc_coincidence(m4, ly3);
    let f4 = m4.read(REG_IF as int);
    let f5 = compare_lyc(m4, ly3).read(REG_IF as int);
    assert(f5 & f4 == f4 && f4 & 0x02 != 0 ==> f5 & 0x02 != 0) by (bit_vector);
}

/// The STAT mode within a visible line follows the cycle count: mode 2 for cycles 0-79,
/// mode 3 for 80-251 and mode 0 from 252; VBlank lines are in mode 1.
pub proof fn lemma_mode_timing(p: PpuView, m: MmuView)
    requires
        m.wf(),
    ensures
        ({
            let mode = p.update_stat_mode(m).read(REG_STAT as int) & 0x03;
            &&& p.ly >= 144 ==> mode == 1
            &&& (p.ly < 144 && p.scanline_cycles < 80) ==> mode == 2
            &&& (p.ly < 144 && 80 <= p.scanline_cycles < 252) ==> mode == 3
            &&& (p.ly < 144 && p.scanline_cycles >= 252) ==> mode == 0
        }),
{
    lemma_stat_mode_follows_cycle(p, m);
}

/// Whether the dot of sprite `s` over pixel (`x`, `y`) comes before dot (`row`, `col`)
/// in drawing order (rows top to bottom, each left to right).
pub open spec fn covered_before(m: MmuView, s: int, row: int, col: int, x: int, y: int) -> bool {
    let r = y - sprite_top(m, s);
    let c = x - sprite_left(m, s);
    0 <= c < 8 && 0 <= r && (r < row || (r == row && c < col))
}

/// Byte `i` of the frame while sprite `s` is drawn up to dot (`row`, `col`).
pub open spec fn partial_byte(m: MmuView, s: int, row: int, col: int, i: int) -> u8 {
    let x = (i / 4) % 160;
    let y = (i / 4) / 160;
    if i % 4 == 3 {
        0xFF
    } else if covered_before(m, s, row, col, x, y) && sprite_pixel(m, s, x, y) is Some {
        sprite_pixel(m, s, x, y)->Some_0
    } else {
        overlay(m, s, x, y)
    }
}

/// The background color id of pixel (`x`, `y`), with the LCD registers already read.
fn bg_color_id_at(mmu: &Mmu, lcdc: u8, scx: usize, scy: usize, x: usize, y: usize) -> (r: u8)
    requires
        mmu.wf(),
        lcdc == mmu@.read(REG_LCDC as int),
        scy == mmu@.read(REG_SCY as int),
        scx == mmu@.read(REG_SCX as int),
        x < SCREEN_WIDTH,
        y < SCREEN_HEIGHT,
    ensures
        r == bg_color_id(mmu@, x as int, y as int),
        r <= 3,
{
    // Background tile map select (LCDC bit 3): 0 = 0x9800, 1 = 0x9C00
    let bg_map_base: usize = if (lcdc & 0x08) != 0 {
        0x9C00
    } else {
        0x9800
    };
    // Tile data select (LCDC bit 4): 0 = 0x8800(signed), 1 = 0x8000(unsigned)
    let tile_data_select = (lcdc & 0x10) != 0;

    let sum_y = y + scy;
    let vy = sum_y & 0xFF;  // vertical position in background (0..255)
    let tile_row = (vy / 8) & 0x1F;  // 32 rows
    let line_in_tile = vy % 8;
    let sum_x = x + scx;
    let vx = sum_x & 0xFF;  // horizontal position in background
    let tile_col = (vx / 8) & 0x1F;  // 32 cols
    assert(vy == sum_y % 256 && vx == sum_x % 256) by (bit_vector)
        requires
            vy == sum_y & 0xFF,
            vx == sum_x & 0xFF,
    ;
    assert(tile_row == vy / 8 && tile_col == vx / 8) by (bit_vector)
        requires
            tile_row == (vy / 8) & 0x1F,
            tile_col == (vx / 8) & 0x1F,
            vy < 256,
            vx < 256,
    ;

    let map_addr = bg_map_base + tile_row * 32 + tile_col;
    let tile_num = mmu.read_u8(map_addr);

    // Determine tile data address
    let tile_addr: usize = if tile_data_select {
        // unsigned: 0x8000 + tile_num * 16
        0x8000usize + (tile_num as usize) * 16usize
    } else {
        // signed: 0x9000 + (i8(tile_num)) * 16
        let tn = tile_num as i8 as i16;
        assert(tn as int == signed_tile(tile_num)) by (bit_vector)
            requires
                tn == tile_num as i8 as i16,
        ;
        (0x9000i32 + (tn as i32) * 16) as usize
    };

    // Each tile line: two bytes (low, high)
    let byte1 = mmu.read_u8(tile_addr + line_in_tile * 2);
    let byte2 = mmu.read_u8(tile_addr + line_in_tile * 2 + 1);

    let bit = (7 - (vx % 8)) as u8;
    color_id_of(byte1, byte2, bit)
}

/// The color id of the dot at bit `bit` of the tile line `lo`, `hi`.
fn color_id_of(lo: u8, hi: u8, bit: u8) -> (r: u8)
    requires
        bit < 8,
    ensures
        r == color_id(lo, hi, bit),
        r <= 3,
{
    let low = (lo >> bit) & 0x01;
    let high = (hi >> bit) & 0x01;
    let r = (high << 1) | low;
    assert(r == 2 * high + low && r <= 3) by (bit_vector)
        requires
            low == (lo >> bit) & 0x01,
            high == (hi >> bit) & 0x01,
            r == (high << 1) | low,
    ;
    r
}

/// The gray level that palette `pal` gives to color id `cid`.
fn shade_of(pal: u8, cid: u8) -> (r: u8)
    requires
        cid <= 3,
    ensures
        r == shade(pal, cid),
{
    match (pal >> (cid * 2)) & 0x03 {
        0 => 0xFFu8,  // white
        1 => 0xC0u8,  // light gray
        2 => 0x60u8,  // dark gray
        3 => 0x00u8,  // black
        _ => 0xFFu8,
    }
}

/// A vector of `n` zero bytes.
fn zero_bytes(n: usize) -> (r: Vec<u8>)
    ensures
        r@ == zeros(n as nat),
{
    let mut v: Vec<u8> = Vec::with_capacity(n);
    let mut i: usize = 0;
    while i < n
        invariant
            i <= n,
            v@ == zeros(i as nat),
        decreases n - i,
    {
        v.push(0);
        i = i + 1;
        assert(v@ =~= zeros(i as nat));
    }
    v
}

/// Sets every byte of `v` to `val`.
fn fill_bytes(v: &mut Vec<u8>, val: u8)
    ensures
        final(v)@ == Seq::new(old(v)@.len(), |i: int| val),
{
    let n = v.len();
    let mut i: usize = 0;
    while i < n
        invariant
            i <= n,
            v@.len() == n,
            forall|j: int| 0 <= j < i ==> v@[j] == val,
        decreases n - i,
    {
        v[i] = val;
        i = i + 1;
    }
    assert(v@ =~= Seq::new(n as nat, |i: int| val));
}

} // verus!
