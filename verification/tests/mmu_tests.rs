use gbc_wasm::mmu::Mmu;

fn rom_with_banks() -> Vec<u8> {
    // four 16KB banks, each filled with its bank number
    let mut rom = Vec::new();
    for bank in 0..4u8 {
        rom.extend(std::iter::repeat(bank).take(0x4000));
    }
    rom
}

#[test]
fn test_new_mmu_regions() {
    let mmu = Mmu::new(vec![0xAB; 0x100]);
    assert_eq!(mmu.vram.len(), 0x2000);
    assert_eq!(mmu.wram.len(), 0x2000);
    assert_eq!(mmu.oam.len(), 0xA0);
    assert_eq!(mmu.io.len(), 0x80);
    assert_eq!(mmu.hram.len(), 0x7F);
    assert_eq!(mmu.ext_ram.len(), 0x2000);
    assert_eq!(mmu.rom_bank, 1);
    assert!(!mmu.ram_enable);
    assert_eq!(mmu.read_u8(0x00FF), 0xAB);
    assert_eq!(mmu.read_u8(0x0100), 0xFF); // past the ROM
    assert_eq!(mmu.read_u8(0xC000), 0);
}

#[test]
fn test_read_after_write_ram_regions() {
    let mut mmu = Mmu::new(Vec::new());
    for (addr, val) in [(0x8000usize, 1u8), (0x9FFF, 2), (0xC000, 3), (0xDFFF, 4), (0xFE00, 5),
        (0xFE9F, 6), (0xFF00, 7), (0xFF7F, 8), (0xFF80, 9), (0xFFFE, 10), (0xFFFF, 11)] {
        mmu.write_u8(addr, val);
        assert_eq!(mmu.read_u8(addr), val);
    }
    assert_eq!(mmu.ie, 11);
}

#[test]
fn test_echo_ram() {
    let mut mmu = Mmu::new(Vec::new());
    mmu.write_u8(0xC123, 0x5A);
    assert_eq!(mmu.read_u8(0xE123), 0x5A);
    mmu.write_u8(0xFDFF, 0x33);
    assert_eq!(mmu.read_u8(0xDDFF), 0x33);
}

#[test]
fn test_unusable_and_out_of_range() {
    let mut mmu = Mmu::new(Vec::new());
    mmu.write_u8(0xFEA0, 1);
    mmu.write_u8(0x10000, 1);
    assert_eq!(mmu.read_u8(0xFEA0), 0xFF);
    assert_eq!(mmu.read_u8(0xFEFF), 0xFF);
    assert_eq!(mmu.read_u8(0x10000), 0xFF);
    assert_eq!(mmu.dump_mem(), Mmu::new(Vec::new()).dump_mem());
}

#[test]
fn test_external_ram_enable() {
    let mut mmu = Mmu::new(Vec::new());
    mmu.write_u8(0xA000, 0x42);
    assert_eq!(mmu.read_u8(0xA000), 0); // disabled: ignored
    mmu.write_u8(0x0000, 0x0A);
    assert!(mmu.ram_enable);
    mmu.write_u8(0xA000, 0x42);
    assert_eq!(mmu.read_u8(0xA000), 0x42);
    mmu.write_u8(0x1000, 0x00);
    assert!(!mmu.ram_enable);
}

#[test]
fn test_rom_banking() {
    let mut mmu = Mmu::new(rom_with_banks());
    assert_eq!(mmu.read_u8(0x0000), 0);
    assert_eq!(mmu.read_u8(0x4000), 1);
    mmu.write_u8(0x2000, 0x03);
    assert_eq!(mmu.rom_bank, 3);
    assert_eq!(mmu.read_u8(0x7FFF), 3);
    mmu.write_u8(0x2000, 0x00); // bank 0 selects bank 1
    assert_eq!(mmu.rom_bank, 1);
    assert_eq!(mmu.read_u8(0x4000), 1);
    mmu.write_u8(0x3FFF, 0x25); // low five bits: 5, past the ROM
    assert_eq!(mmu.rom_bank, 5);
    assert_eq!(mmu.read_u8(0x4000), 0xFF);
    // writes to the ROM area are stored into the ROM image
    assert_eq!(mmu.read_u8(0x3FFF), 0x25);
}

#[test]
fn test_load_rom_resets() {
    let mut mmu = Mmu::new(Vec::new());
    mmu.write_u8(0xC000, 1);
    mmu.write_u8(0x0000, 0x0A);
    mmu.write_u8(0x2000, 2);
    mmu.load_rom(&[7, 8, 9]);
    assert_eq!(mmu.rom, vec![7, 8, 9]);
    assert_eq!(mmu.rom_bank, 1);
    assert!(!mmu.ram_enable);
    assert_eq!(mmu.read_u8(0xC000), 0);
    assert_eq!(mmu.read_u8(0x0001), 8);
}

#[test]
fn test_dump_mem_image() {
    let mut mmu = Mmu::new(vec![0x11; 0x8000]);
    mmu.write_u8(0x8001, 0x22);
    mmu.write_u8(0xC002, 0x33);
    let img = mmu.dump_mem();
    assert_eq!(img.len(), 0x10000);
    assert_eq!(img[0x0000], 0x11);
    assert_eq!(img[0x8001], 0x22);
    assert_eq!(img[0xC002], 0x33);
    assert_eq!(img[0xE002], 0x33);
    assert_eq!(img[0xFEA0], 0xFF);
}

#[test]
fn test_dump_load_roundtrip() {
    let mut a = Mmu::new(Vec::new());
    for (i, addr) in [0x8000usize, 0xA000, 0xC000, 0xFE00, 0xFF00, 0xFF80, 0xFFFF].iter().enumerate() {
        a.write_u8(*addr, 0x40 + i as u8);
    }
    let img = a.dump_mem();
    let mut b = Mmu::new(Vec::new());
    b.load_from_mem(&img);
    assert_eq!(b.dump_mem(), img);
    // loading its own image changes nothing
    a.load_from_mem(&img);
    assert_eq!(a.dump_mem(), img);
}

#[test]
fn test_load_from_short_image_is_ignored() {
    let mut mmu = Mmu::new(Vec::new());
    mmu.write_u8(0xC000, 5);
    mmu.load_from_mem(&vec![9u8; 0xFFFF]);
    assert_eq!(mmu.read_u8(0xC000), 5);
}
