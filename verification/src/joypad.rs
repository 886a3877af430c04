//! Joypad (input) state and the P1 register at 0xFF00.
//!
//! Button bits are active low: a bit that reads 0 is pressed.
use vstd::prelude::*;

verus! {

/// Low-level joypad state.
pub struct Joypad {
    /// Button state bitmask, active low (bits 0-3: A/B/Select/Start, 4-7: Right/Left/Up/Down).
    pub buttons: u8,
    /// P1 register selection bits (bits 4-5).
    pub p1_select: u8,
}

/// The button mask after pressing (`pressed`) or releasing the bits of `mask`.
pub open spec fn buttons_after(buttons: u8, mask: u8, pressed: bool) -> u8 {
    if pressed {
        buttons & !mask
    } else {
        buttons | mask
    }
}

/// The low nibble of the button group (A/B/Select/Start) when P1 bit 5 selects it
/// (bit clear), else all released.
pub open spec fn button_group(p1_select: u8, buttons: u8) -> u8 {
    if p1_select & 0x20 == 0 {
        buttons & 0x0F
    } else {
        0x0F
    }
}

/// The direction group (Right/Left/Up/Down) moved to the low nibble when P1 bit 4
/// selects it (bit clear), else all released.
pub open spec fn direction_group(p1_select: u8, buttons: u8) -> u8 {
    if p1_select & 0x10 == 0 {
        buttons >> 4
    } else {
        0x0F
    }
}

/// The value the P1 register reads: the selection bits 4-5 over a low nibble in which a
/// key reads 0 when it is pressed in a selected group.
pub open spec fn p1_value(p1_select: u8, buttons: u8) -> u8 {
    (p1_select & 0x30) | (button_group(p1_select, buttons) & direction_group(p1_select, buttons))
}

impl Default for Joypad {
    fn default() -> (r: Self)
        ensures
            r.buttons == 0,
            r.p1_select == 0,
    {
        Joypad { buttons: 0, p1_select: 0 }
    }
}

impl Joypad {
    /// A joypad with every button released and no group selected.
    pub fn new() -> (r: Self)
        ensures
            r.buttons == 0xFF,
            r.p1_select == 0,
    {
        Joypad { buttons: 0xFF, p1_select: 0x00 }
    }

    /// Clears (`pressed`) or sets (released) the bits of `mask` in `buttons`.
    pub fn set_button(&mut self, mask: u8, pressed: bool)
        ensures
            final(self).buttons == buttons_after(old(self).buttons, mask, pressed),
            final(self).p1_select == old(self).p1_select,
    {
        if pressed {
            self.buttons &= !mask;
        } else {
            self.buttons |= mask;
        }
    }

    /// Reads the P1 register (0xFF00) with the selection bits applied: bit 5 clear selects
    /// the buttons, bit 4 clear the directions (0 = pressed).
    pub fn read_p1(&self) -> (r: u8)
        ensures
            r == p1_value(self.p1_select, self.buttons),
    {
        let sel = self.p1_select;
        let buttons = if sel & 0x20 == 0 {
            self.buttons & 0x0F
        } else {
            0x0F
        };
        let directions = if sel & 0x10 == 0 {
            self.buttons >> 4
        } else {
            0x0F
        };
        (sel & 0x30) | (buttons & directions)
    }

    /// Writes the P1 selection bits; only bits 4-5 are writable.
    pub fn write_p1(&mut self, val: u8)
        ensures
            final(self).p1_select == val & 0x30,
            final(self).buttons == old(self).buttons,
    {
        self.p1_select = val & 0x30;
    }
}

/// P1 reads back its selection bits and leaves bits 6-7 clear; its low nibble is the
/// button group when only the buttons are selected, the direction group when only the
/// directions are, all released (0xF) when neither is, and a key pressed in either group
/// reads 0 when both are.
pub proof fn lemma_p1_groups(sel: u8, buttons: u8)
    ensures
        p1_value(sel, buttons) & 0x30 == sel & 0x30,
        p1_value(sel, buttons) & 0xC0 == 0,
        sel & 0x30 == 0x10 ==> p1_value(sel, buttons) & 0x0F == buttons & 0x0F,
        sel & 0x30 == 0x20 ==> p1_value(sel, buttons) & 0x0F == buttons >> 4,
        sel & 0x30 == 0x30 ==> p1_value(sel, buttons) & 0x0F == 0x0F,
        sel & 0x30 == 0x00 ==> p1_value(sel, buttons) & 0x0F == (buttons & 0x0F) & (buttons >> 4),
{
    let b = button_group(sel, buttons);
    let d = direction_group(sel, buttons);
    assert(b == (if sel & 0x20 == 0 { buttons & 0x0F } else { 0x0Fu8 }));
    assert(d == (if sel & 0x10 == 0 { buttons >> 4 } else { 0x0Fu8 }));
    assert({
        let r = (sel & 0x30) | (b & d);
        &&& r & 0x30 == sel & 0x30
        &&& r & 0xC0 == 0
        &&& (sel & 0x30 == 0x10 ==> r & 0x0F == buttons & 0x0F)
        &&& (sel & 0x30 == 0x20 ==> r & 0x0F == buttons >> 4)
        &&& (sel & 0x30 == 0x30 ==> r & 0x0F == 0x0F)
        &&& (sel & 0x30 == 0x00 ==> r & 0x0F == (buttons & 0x0F) & (buttons >> 4))
    }) by (bit_vector)
        requires
            b == (if sel & 0x20 == 0 { buttons & 0x0F } else { 0x0Fu8 }),
            d == (if sel & 0x10 == 0 { buttons >> 4 } else { 0x0Fu8 }),
    ;
}

/// With its group selected alone, a pressed key reads 0 in P1 and a released key reads
/// 1; pressing or releasing keys changes no other key's bit.
pub proof fn lemma_button_press_release(buttons: u8, mask: u8, other: u8)
    requires
        mask & other == 0,
    ensures
        mask & 0xF0 == 0 ==> p1_value(0x10, buttons_after(buttons, mask, true)) & mask == 0,
        mask & 0xF0 == 0 ==> p1_value(0x10, buttons_after(buttons, mask, false)) & mask == mask,
        mask & 0x0F == 0 ==> p1_value(0x20, buttons_after(buttons, mask, true)) & (mask >> 4)
            == 0,
        mask & 0x0F == 0 ==> p1_value(0x20, buttons_after(buttons, mask, false)) & (mask >> 4)
            == mask >> 4,
        buttons_after(buttons, mask, true) & other == buttons & other,
        buttons_after(buttons, mask, false) & other == buttons & other,
{
    let pressed = buttons & !mask;
    let released = buttons | mask;
    lemma_p1_groups(0x10, pressed);
    lemma_p1_groups(0x10, released);
    lemma_p1_groups(0x20, pressed);
    lemma_p1_groups(0x20, released);
    let a = p1_value(0x10, pressed);
    let b = p1_value(0x10, released);
    let c = p1_value(0x20, pressed);
    let d = p1_value(0x20, released);
    assert({
        &&& 0x10u8 & 0x30 == 0x10 && 0x20u8 & 0x30 == 0x20
        &&& (mask & 0xF0 == 0 && a & 0x0F == pressed & 0x0F && b & 0x0F == released & 0x0F)
            ==> (a & mask == 0 && b & mask == mask)
        &&& (mask & 0x0F == 0 && c & 0x0F == pressed >> 4 && d & 0x0F == released >> 4) ==> (c
            & (mask >> 4) == 0 && d & (mask >> 4) == mask >> 4)
        &&& pressed & other == buttons & other
        &&& released & other == buttons & other
    }) by (bit_vector)
        requires
            mask & other == 0,
            pressed == buttons & !mask,
            released == buttons | mask,
    ;
}

/// Writing P1 changes only the selection bits, which read back as written.
pub proof fn lemma_write_then_read_p1(buttons: u8, val: u8)
    ensures
        p1_value(val & 0x30, buttons) & 0x30 == val & 0x30,
{
    lemma_p1_groups(val & 0x30, buttons);
    assert((val & 0x30) & 0x30 == val & 0x30) by (bit_vector);
}

} // verus!
