use gbc_wasm::Emulator;

#[test]
fn test_screen_size() {
    let e = Emulator::new();
    assert_eq!((e.screen_width(), e.screen_height()), (160, 144));
}

#[test]
fn test_save_state_layout() {
    let e = Emulator::new();
    let s = e.save_state();
    assert_eq!(s.len(), 4 + 12 + 0x10000);
    assert_eq!(&s[0..4], &[0, 0, 0, 0]);
    assert_eq!(&s[4..16], &[0, 0, 0, 0, 0, 0, 0, 0, 0xFE, 0xFF, 0x00, 0x01]);
}

#[test]
fn test_step_frame_counts_frames_and_runs_cpu() {
    let mut e = Emulator::new();
    // an endless loop: JP 0x0100 at 0x0100
    let mut rom = vec![0u8; 0x8000];
    rom[0x0100] = 0xC3;
    rom[0x0101] = 0x00;
    rom[0x0102] = 0x01;
    e.load_rom(&rom);
    e.step_frame();
    e.step_frame();
    let s = e.save_state();
    assert_eq!(&s[0..4], &[2, 0, 0, 0]);
    assert_eq!(&s[14..16], &[0x00, 0x01]); // PC back at 0x0100
    // two frames pass through VBlank: IF bit 0 requested
    assert_eq!(s[16 + 0xFF0F] & 0x01, 0x01);
}

#[test]
fn test_save_load_roundtrip() {
    let mut e = Emulator::new();
    let mut rom = vec![0u8; 0x8000];
    // LD A,0x42; LD (0xC000),A; JP 0x0105
    rom[0x0100..0x0108].copy_from_slice(&[0x3E, 0x42, 0xEA, 0x00, 0xC0, 0xC3, 0x05, 0x01]);
    e.load_rom(&rom);
    e.step_frame();
    let saved = e.save_state();
    assert_eq!(saved[16 + 0xC000], 0x42);
    let mut other = Emulator::new();
    other.load_rom(&rom);
    other.load_state(&saved);
    assert_eq!(other.save_state(), saved);
    // loading a machine's own state changes nothing
    e.load_state(&saved);
    assert_eq!(e.save_state(), saved);
}

#[test]
fn test_load_state_short_data() {
    let mut e = Emulator::new();
    let before = e.save_state();
    e.load_state(&[1, 2, 3]);
    assert_eq!(e.save_state(), before);
    e.load_state(&[5, 0, 0, 0, 9]);
    let after = e.save_state();
    assert_eq!(&after[0..4], &[5, 0, 0, 0]);
    assert_eq!(&after[4..], &before[4..]);
}

#[test]
fn test_render_frame_after_vblank() {
    let mut e = Emulator::new();
    let rom = vec![0u8; 0x8000]; // NOPs
    e.load_rom(&rom);
    e.step_frame();
    let f = e.render_frame();
    assert_eq!(f.len(), 160 * 144 * 4);
    assert!(f.iter().all(|b| *b == 0xFF)); // LCD off: white
}
