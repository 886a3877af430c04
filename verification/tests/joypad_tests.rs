use gbc_wasm::joypad::Joypad;

#[test]
fn test_joypad_new_and_default() {
    let j = Joypad::new();
    assert_eq!((j.buttons, j.p1_select), (0xFF, 0x00));
    let d = Joypad::default();
    assert_eq!((d.buttons, d.p1_select), (0x00, 0x00));
}

#[test]
fn test_press_and_release() {
    let mut j = Joypad::new();
    j.set_button(0x01, true);
    assert_eq!(j.buttons, 0xFE);
    assert_eq!(j.read_p1() & 0x01, 0); // pressed reads 0
    j.set_button(0x04, true);
    assert_eq!(j.read_p1(), 0x0A);
    j.set_button(0x01, false);
    assert_eq!(j.read_p1() & 0x01, 0x01);
    assert_eq!(j.buttons, 0xFB);
}

#[test]
fn test_write_p1_select_bits_only() {
    let mut j = Joypad::new();
    j.write_p1(0xFF);
    assert_eq!(j.p1_select, 0x30);
    assert_eq!(j.read_p1(), 0x3F);
    j.write_p1(0x10);
    assert_eq!(j.read_p1(), 0x1F);
    assert_eq!(j.buttons, 0xFF);
}

#[test]
fn test_p1_selection_groups() {
    let mut j = Joypad::new();
    // press all four directions (bits 4-7) and A (bit 0)
    j.set_button(0xF0, true);
    j.set_button(0x01, true);
    j.write_p1(0x20); // directions selected
    assert_eq!(j.read_p1(), 0x20);
    j.write_p1(0x10); // buttons selected
    assert_eq!(j.read_p1(), 0x1E);
    j.write_p1(0x30); // nothing selected
    assert_eq!(j.read_p1(), 0x3F);
    j.write_p1(0x00); // both selected
    assert_eq!(j.read_p1(), 0x00);
    j.set_button(0x10, false); // release Right
    j.write_p1(0x20);
    assert_eq!(j.read_p1(), 0x21);
}

#[test]
fn test_p1_directions_pressed_read_zero() {
    let j = Joypad { buttons: 0x0F, p1_select: 0x20 };
    assert_eq!(j.read_p1() & 0x0F, 0);
    assert_eq!(j.read_p1(), 0x20);
}
