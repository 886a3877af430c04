use gbc_wasm::mmu::Mmu;
use gbc_wasm::ppu::Ppu;

fn lcd_mmu() -> Mmu {
    let mut mmu = Mmu::new(Vec::new());
    mmu.write_u8(0xFF40, 0x91); // LCD on, BG tile data at 0x8000, map at 0x9800
    mmu.write_u8(0xFF47, 0xE4); // palette 3,2,1,0
    mmu
}

fn pixel(frame: &[u8], x: usize, y: usize) -> [u8; 4] {
    let i = (y * 160 + x) * 4;
    [frame[i], frame[i + 1], frame[i + 2], frame[i + 3]]
}

#[test]
fn test_new_frame_is_zero() {
    let mut ppu = Ppu::new();
    let f = ppu.render_frame();
    assert_eq!(f.len(), 160 * 144 * 4);
    assert!(f.iter().all(|b| *b == 0));
}

#[test]
fn test_scanline_advances_ly() {
    let mut ppu = Ppu::new();
    let mut mmu = lcd_mmu();
    ppu.step(455, &mut mmu);
    assert_eq!(mmu.read_u8(0xFF44), 0);
    assert_eq!(mmu.read_u8(0xFF41) & 0x03, 0); // HBlank at cycle 455
    ppu.step(1, &mut mmu);
    assert_eq!(mmu.read_u8(0xFF44), 1);
    assert_eq!(mmu.read_u8(0xFF41) & 0x03, 2); // OAM search at the start of a line
    ppu.step(100, &mut mmu);
    assert_eq!(mmu.read_u8(0xFF41) & 0x03, 3); // pixel transfer
}

#[test]
fn test_vblank_interrupt_and_wrap() {
    let mut ppu = Ppu::new();
    let mut mmu = lcd_mmu();
    ppu.step(456 * 144, &mut mmu);
    assert_eq!(mmu.read_u8(0xFF44), 144);
    assert_eq!(mmu.read_u8(0xFF0F) & 0x01, 0x01);
    assert_eq!(mmu.read_u8(0xFF41) & 0x03, 1);
    ppu.step(456 * 10, &mut mmu);
    assert_eq!(mmu.read_u8(0xFF44), 0); // line 154 restarts at 0
}

#[test]
fn test_lyc_coincidence() {
    let mut ppu = Ppu::new();
    let mut mmu = lcd_mmu();
    mmu.write_u8(0xFF45, 2);
    ppu.step(456, &mut mmu);
    assert_eq!(mmu.read_u8(0xFF41) & 0x04, 0);
    assert_eq!(mmu.read_u8(0xFF0F) & 0x02, 0);
    ppu.step(456, &mut mmu);
    assert_eq!(mmu.read_u8(0xFF41) & 0x04, 0x04);
    assert_eq!(mmu.read_u8(0xFF0F) & 0x02, 0x02);
}

#[test]
fn test_stat_mode_interrupt_enable() {
    let mut ppu = Ppu::new();
    let mut mmu = lcd_mmu();
    mmu.write_u8(0xFF41, 0x08); // HBlank interrupt enable
    ppu.step(100, &mut mmu);
    assert_eq!(mmu.read_u8(0xFF41) & 0x03, 3);
    assert_eq!(mmu.read_u8(0xFF0F) & 0x02, 0); // mode 3 has no interrupt
    ppu.step(200, &mut mmu);
    assert_eq!(mmu.read_u8(0xFF41) & 0x03, 0);
    assert_eq!(mmu.read_u8(0xFF0F) & 0x02, 0x02);
}

#[test]
fn test_lcd_off_renders_white() {
    let mut ppu = Ppu::new();
    let mut mmu = Mmu::new(Vec::new());
    ppu.step(456 * 144, &mut mmu);
    let f = ppu.render_frame();
    assert!(f.iter().all(|b| *b == 0xFF));
}

#[test]
fn test_background_tile_and_scroll() {
    let mut ppu = Ppu::new();
    let mut mmu = lcd_mmu();
    // tile 1: first line alternates color 3 and color 0 (0xAA in both bytes)
    mmu.write_u8(0x8010, 0xAA);
    mmu.write_u8(0x8011, 0xAA);
    mmu.write_u8(0x9800, 0x01); // map (0,0) -> tile 1
    ppu.step(456 * 144, &mut mmu);
    let f = ppu.render_frame();
    assert_eq!(pixel(&f, 0, 0), [0x00, 0x00, 0x00, 0xFF]); // color 3 -> black
    assert_eq!(pixel(&f, 1, 0), [0xFF, 0xFF, 0xFF, 0xFF]); // color 0 -> white
    assert_eq!(pixel(&f, 0, 1), [0xFF, 0xFF, 0xFF, 0xFF]);
    assert_eq!(pixel(&f, 8, 0), [0xFF, 0xFF, 0xFF, 0xFF]);
    // scrolling by one pixel shifts the pattern
    mmu.write_u8(0xFF43, 1);
    ppu.step(456 * 154, &mut mmu);
    let f = ppu.render_frame();
    assert_eq!(pixel(&f, 0, 0), [0xFF, 0xFF, 0xFF, 0xFF]);
    assert_eq!(pixel(&f, 1, 0), [0x00, 0x00, 0x00, 0xFF]);
}

#[test]
fn test_signed_tile_addressing() {
    let mut ppu = Ppu::new();
    let mut mmu = Mmu::new(Vec::new());
    mmu.write_u8(0xFF40, 0x81); // LCD on, signed tile data around 0x9000
    mmu.write_u8(0xFF47, 0xE4);
    mmu.write_u8(0x9800, 0xFF); // tile -1 at 0x8FF0
    mmu.write_u8(0x8FF0, 0x80); // leftmost dot color 1
    ppu.step(456 * 144, &mut mmu);
    let f = ppu.render_frame();
    assert_eq!(pixel(&f, 0, 0), [0xC0, 0xC0, 0xC0, 0xFF]);
}

#[test]
fn test_sprite_over_background_and_flip() {
    let mut ppu = Ppu::new();
    let mut mmu = lcd_mmu();
    mmu.write_u8(0xFF40, 0x93); // sprites shown, LCD on
    mmu.write_u8(0xFF48, 0xE4); // OBP0
    mmu.write_u8(0xFF49, 0x1B); // OBP1 reversed
    // tile 2: first line, only leftmost dot color 1
    mmu.write_u8(0x8020, 0x80);
    // sprite 0 at screen (10, 20), tile 2
    mmu.write_u8(0xFE00, 20 + 16);
    mmu.write_u8(0xFE01, 10 + 8);
    mmu.write_u8(0xFE02, 2);
    mmu.write_u8(0xFE03, 0x00);
    // sprite 1 at screen (30, 20), tile 2, x flipped, palette 1
    mmu.write_u8(0xFE04, 20 + 16);
    mmu.write_u8(0xFE05, 30 + 8);
    mmu.write_u8(0xFE06, 2);
    mmu.write_u8(0xFE07, 0x30);
    ppu.step(456 * 144, &mut mmu);
    let f = ppu.render_frame();
    assert_eq!(pixel(&f, 10, 20), [0xC0, 0xC0, 0xC0, 0xFF]); // color 1 via OBP0 -> light gray
    assert_eq!(pixel(&f, 11, 20), [0xFF, 0xFF, 0xFF, 0xFF]); // transparent: background
    assert_eq!(pixel(&f, 30, 20), [0xFF, 0xFF, 0xFF, 0xFF]); // flipped: dot moved right
    assert_eq!(pixel(&f, 37, 20), [0x60, 0x60, 0x60, 0xFF]); // color 1 via OBP1 -> dark gray
}

#[test]
fn test_sprite_behind_background() {
    let mut ppu = Ppu::new();
    let mut mmu = lcd_mmu();
    mmu.write_u8(0xFF40, 0x93);
    mmu.write_u8(0xFF48, 0xE4);
    // background tile 1 all color 1 on its first line, placed at map (0,0)
    mmu.write_u8(0x8010, 0xFF);
    mmu.write_u8(0x9800, 0x01);
    // sprite tile 2: first line all color 3
    mmu.write_u8(0x8020, 0xFF);
    mmu.write_u8(0x8021, 0xFF);
    // sprite 0 at (4, 0) behind the background
    mmu.write_u8(0xFE00, 16);
    mmu.write_u8(0xFE01, 4 + 8);
    mmu.write_u8(0xFE02, 2);
    mmu.write_u8(0xFE03, 0x80);
    ppu.step(456 * 144, &mut mmu);
    let f = ppu.render_frame();
    assert_eq!(pixel(&f, 4, 0), [0xC0, 0xC0, 0xC0, 0xFF]); // background color 1 wins
    assert_eq!(pixel(&f, 8, 0), [0x00, 0x00, 0x00, 0xFF]); // over background color 0
}
