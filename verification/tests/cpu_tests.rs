use gbc_wasm::cpu::Cpu;
use gbc_wasm::mmu::Mmu;

fn make_mmu() -> Mmu {
    // Create a ROM-sized vector filled with NOPs (0x00)
    let rom = vec![0x00u8; 0x10000];
    Mmu::new(rom)
}

#[test]
fn test_ld_a_imm() {
    let mut cpu = Cpu::new();
    cpu.pc = 0x0100;
    let mut mmu = make_mmu();
    mmu.write_u8(0x0100, 0x3E); // LD A,d8
    mmu.write_u8(0x0101, 0x42);
    let cycles = cpu.step(&mut mmu);
    assert_eq!(cpu.a, 0x42);
    assert_eq!(cycles, 8);
}

#[test]
fn test_inc_b_wrap_and_flags() {
    let mut cpu = Cpu::new();
    cpu.pc = 0x0100;
    cpu.b = 0xFF;
    cpu.f = 0x00;
    let mut mmu = make_mmu();
    mmu.write_u8(0x0100, 0x04); // INC B
    let cycles = cpu.step(&mut mmu);
    assert_eq!(cycles, 4);
    assert_eq!(cpu.b, 0x00);
    // Z and H should be set, N cleared
    assert!(cpu.f & 0x80 != 0); // Z
    assert!(cpu.f & 0x20 != 0); // H
    assert!(cpu.f & 0x40 == 0); // N
}

#[test]
fn test_dec_c_flags() {
    let mut cpu = Cpu::new();
    cpu.pc = 0x0100;
    cpu.c = 0x00;
    cpu.f = 0x00;
    let mut mmu = make_mmu();
    mmu.write_u8(0x0100, 0x0D); // DEC C
    let cycles = cpu.step(&mut mmu);
    assert_eq!(cycles, 4);
    assert_eq!(cpu.c, 0xFF);
    // N and H should be set (half borrow), Z cleared unless result==0
    assert!(cpu.f & 0x40 != 0); // N
    assert!(cpu.f & 0x20 != 0); // H
}

#[test]
fn test_add_a_b() {
    let mut cpu = Cpu::new();
    cpu.pc = 0x0100;
    cpu.a = 0x10;
    cpu.b = 0xF0;
    cpu.f = 0;
    let mut mmu = make_mmu();
    mmu.write_u8(0x0100, 0x80); // ADD A,B
    let cycles = cpu.step(&mut mmu);
    assert_eq!(cycles, 4);
    assert_eq!(cpu.a, 0x00);
    assert!(cpu.f & 0x80 != 0); // Z
    assert!(cpu.f & 0x10 != 0); // C (carry)
}

#[test]
fn test_new_and_reset_registers() {
    let mut cpu = Cpu::new();
    assert_eq!((cpu.a, cpu.f, cpu.sp, cpu.pc), (0, 0, 0xFFFE, 0x0100));
    cpu.reset();
    assert_eq!((cpu.a, cpu.f, cpu.b, cpu.c), (0x01, 0xB0, 0x00, 0x13));
    assert_eq!((cpu.d, cpu.e, cpu.h, cpu.l), (0x00, 0xD8, 0x01, 0x4D));
    assert_eq!((cpu.sp, cpu.pc), (0xFFFE, 0x0100));
}

#[test]
fn test_serialize_layout_and_roundtrip() {
    let mut cpu = Cpu::new();
    cpu.a = 1;
    cpu.f = 2;
    cpu.b = 3;
    cpu.c = 4;
    cpu.d = 5;
    cpu.e = 6;
    cpu.h = 7;
    cpu.l = 8;
    cpu.sp = 0x1234;
    cpu.pc = 0xABCD;
    let bytes = cpu.serialize();
    assert_eq!(Cpu::state_size(), 12);
    assert_eq!(bytes, vec![1, 2, 3, 4, 5, 6, 7, 8, 0x34, 0x12, 0xCD, 0xAB]);
    let mut other = Cpu::new();
    other.deserialize(&bytes);
    assert_eq!(other.serialize(), bytes);
    assert_eq!((other.sp, other.pc), (0x1234, 0xABCD));
}

#[test]
fn test_deserialize_short_data_is_ignored() {
    let mut cpu = Cpu::new();
    cpu.deserialize(&[9u8; 11]);
    assert_eq!(cpu.serialize(), Cpu::new().serialize());
}

#[test]
fn test_inc_sets_half_carry_and_keeps_carry() {
    let mut cpu = Cpu::new();
    cpu.c = 0x0F;
    cpu.f = 0x10;
    let mut mmu = make_mmu();
    mmu.write_u8(0x0100, 0x0C); // INC C
    cpu.step(&mut mmu);
    assert_eq!(cpu.c, 0x10);
    assert_eq!(cpu.f, 0x30); // H set, C kept, Z and N clear
}

#[test]
fn test_dec_b_to_zero() {
    let mut cpu = Cpu::new();
    cpu.b = 0x01;
    let mut mmu = make_mmu();
    mmu.write_u8(0x0100, 0x05); // DEC B
    cpu.step(&mut mmu);
    assert_eq!(cpu.b, 0);
    assert_eq!(cpu.f, 0xC0); // Z and N
}

#[test]
fn test_xor_a() {
    let mut cpu = Cpu::new();
    cpu.a = 0x5A;
    cpu.f = 0x70;
    let mut mmu = make_mmu();
    mmu.write_u8(0x0100, 0xAF); // XOR A
    assert_eq!(cpu.step(&mut mmu), 4);
    assert_eq!((cpu.a, cpu.f), (0, 0x80));
}

#[test]
fn test_sub_b_borrow() {
    let mut cpu = Cpu::new();
    cpu.a = 0x10;
    cpu.b = 0x21;
    let mut mmu = make_mmu();
    mmu.write_u8(0x0100, 0x90); // SUB B
    cpu.step(&mut mmu);
    assert_eq!(cpu.a, 0xEF);
    assert_eq!(cpu.f, 0x70); // N, H, C
}

#[test]
fn test_cp_immediate() {
    let mut cpu = Cpu::new();
    cpu.a = 0x42;
    cpu.f = 0x0F;
    let mut mmu = make_mmu();
    mmu.write_u8(0x0100, 0xFE); // CP d8
    mmu.write_u8(0x0101, 0x42);
    assert_eq!(cpu.step(&mut mmu), 8);
    assert_eq!(cpu.a, 0x42);
    assert_eq!(cpu.f, 0xC0); // Z, N; low nibble cleared
    assert_eq!(cpu.pc, 0x0102);
    mmu.write_u8(0x0102, 0xFE);
    mmu.write_u8(0x0103, 0x50);
    cpu.step(&mut mmu);
    assert_eq!(cpu.f, 0x50); // N, C
}

#[test]
fn test_jp() {
    let mut cpu = Cpu::new();
    let mut mmu = make_mmu();
    mmu.write_u8(0x0100, 0xC3); // JP a16
    mmu.write_u8(0x0101, 0x34);
    mmu.write_u8(0x0102, 0x12);
    assert_eq!(cpu.step(&mut mmu), 16);
    assert_eq!(cpu.pc, 0x1234);
}

#[test]
fn test_call_then_ret() {
    let mut cpu = Cpu::new();
    cpu.sp = 0xD000;
    let mut mmu = make_mmu();
    mmu.write_u8(0x0100, 0xCD); // CALL 0x0200
    mmu.write_u8(0x0101, 0x00);
    mmu.write_u8(0x0102, 0x02);
    mmu.write_u8(0x0200, 0xC9); // RET
    assert_eq!(cpu.step(&mut mmu), 24);
    assert_eq!((cpu.pc, cpu.sp), (0x0200, 0xCFFE));
    assert_eq!(mmu.read_u8(0xCFFE), 0x03);
    assert_eq!(mmu.read_u8(0xCFFF), 0x01);
    assert_eq!(cpu.step(&mut mmu), 16);
    assert_eq!((cpu.pc, cpu.sp), (0x0103, 0xD000));
}

#[test]
fn test_ldh_and_ld_c() {
    let mut cpu = Cpu::new();
    cpu.a = 0x77;
    cpu.c = 0x85;
    let mut mmu = make_mmu();
    mmu.write_u8(0x0100, 0xE0); // LDH (0x80),A
    mmu.write_u8(0x0101, 0x80);
    mmu.write_u8(0x0102, 0xE2); // LD (C),A
    mmu.write_u8(0x0103, 0xF0); // LDH A,(0x81)
    mmu.write_u8(0x0104, 0x81);
    mmu.write_u8(0x0105, 0xF2); // LD A,(C)
    mmu.write_u8(0xFF81, 0x99);
    assert_eq!(cpu.step(&mut mmu), 12);
    assert_eq!(mmu.read_u8(0xFF80), 0x77);
    assert_eq!(cpu.step(&mut mmu), 8);
    assert_eq!(mmu.read_u8(0xFF85), 0x77);
    assert_eq!(cpu.step(&mut mmu), 12);
    assert_eq!(cpu.a, 0x99);
    assert_eq!(cpu.step(&mut mmu), 8);
    assert_eq!(cpu.a, 0x77);
}

#[test]
fn test_ld_a16_and_hl_post_inc_dec() {
    let mut cpu = Cpu::new();
    cpu.a = 0x11;
    cpu.h = 0xC0;
    cpu.l = 0x00;
    let mut mmu = make_mmu();
    mmu.write_u8(0x0100, 0xEA); // LD (0xC123),A
    mmu.write_u8(0x0101, 0x23);
    mmu.write_u8(0x0102, 0xC1);
    mmu.write_u8(0x0103, 0x32); // LD (HL-),A
    mmu.write_u8(0x0104, 0x2A); // LD A,(HL+)
    mmu.write_u8(0x0105, 0xFA); // LD A,(0xC123)
    mmu.write_u8(0x0106, 0x23);
    mmu.write_u8(0x0107, 0xC1);
    assert_eq!(cpu.step(&mut mmu), 16);
    assert_eq!(mmu.read_u8(0xC123), 0x11);
    assert_eq!(cpu.step(&mut mmu), 8);
    assert_eq!(mmu.read_u8(0xC000), 0x11);
    assert_eq!((cpu.h, cpu.l), (0xBF, 0xFF));
    mmu.write_u8(0xBFFF, 0x00);
    assert_eq!(cpu.step(&mut mmu), 8);
    assert_eq!(cpu.a, 0x00); // external RAM at 0xBFFF still holds 0 (the write was ignored)
    assert_eq!((cpu.h, cpu.l), (0xC0, 0x00));
    assert_eq!(cpu.step(&mut mmu), 16);
    assert_eq!(cpu.a, 0x11);
}

#[test]
fn test_unimplemented_opcode_is_nop() {
    let mut cpu = Cpu::new();
    cpu.a = 3;
    let mut mmu = make_mmu();
    mmu.write_u8(0x0100, 0xD3);
    mmu.write_u8(0x0101, 0x76); // HALT
    assert_eq!(cpu.step(&mut mmu), 4);
    assert_eq!(cpu.step(&mut mmu), 4);
    assert_eq!((cpu.pc, cpu.a), (0x0102, 3));
}
