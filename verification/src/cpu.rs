//! The LR35902 processor core: registers, flags, state (de)serialization and the
//! instruction interpreter for the implemented subset of opcodes.
use vstd::prelude::*;
use crate::mmu::{Mmu, MmuView};

verus! {

/// Flag bit masks of the F register.
pub const FLAG_Z: u8 = 0x80;
pub const FLAG_N: u8 = 0x40;
pub const FLAG_H: u8 = 0x20;
pub const FLAG_C: u8 = 0x10;

/// Number of bytes in a serialized processor state.
pub const CPU_STATE_SIZE: usize = 12;

#[derive(Clone, Debug)]
pub struct Cpu {
    // 8-bit registers
    pub a: u8,
    pub f: u8,
    pub b: u8,
    pub c: u8,
    pub d: u8,
    pub e: u8,
    pub h: u8,
    pub l: u8,
    // 16-bit registers
    pub sp: u16,
    pub pc: u16,
}

/// `x + k` on 16 bits, wrapping around.
pub open spec fn add16(x: u16, k: int) -> u16 {
    ((x + k) % 0x10000) as u16
}

/// The low byte of a 16-bit value.
pub open spec fn lo8(x: u16) -> u8 {
    (x % 0x100) as u8
}

/// The high byte of a 16-bit value.
pub open spec fn hi8(x: u16) -> u8 {
    (x / 0x100) as u8
}

/// The 16-bit value of a little-endian byte pair.
pub open spec fn word(lo: u8, hi: u8) -> u16 {
    (lo + 0x100 * hi) as u16
}

/// `f` with the bits of `mask` set when `on` holds and cleared otherwise.
pub open spec fn with_flag(f: u8, mask: u8, on: bool) -> u8 {
    if on {
        f | mask
    } else {
        f & !mask
    }
}

/// `f` with the bits of `mask` set when `on` holds and left alone otherwise.
pub open spec fn or_flag_if(f: u8, mask: u8, on: bool) -> u8 {
    if on {
        f | mask
    } else {
        f
    }
}

/// `f` with Z, N and H set to the given values (C and the low nibble kept).
pub open spec fn flags_znh(f: u8, z: bool, n: bool, h: bool) -> u8 {
    with_flag(with_flag(with_flag(f, FLAG_Z, z), FLAG_N, n), FLAG_H, h)
}

/// `f` with Z, N, H and C set to the given values (low nibble kept).
pub open spec fn flags_znhc(f: u8, z: bool, n: bool, h: bool, c: bool) -> u8 {
    with_flag(flags_znh(f, z, n, h), FLAG_C, c)
}

/// The flag byte of a compare: built from zero, N always set.
pub open spec fn compare_flags(z: bool, h: bool, c: bool) -> u8 {
    or_flag_if(or_flag_if(or_flag_if(0, FLAG_Z, z) | FLAG_N, FLAG_H, h), FLAG_C, c)
}

/// 8-bit increment, wrapping.
pub open spec fn inc8(v: u8) -> u8 {
    ((v + 1) % 0x100) as u8
}

/// Half carry of an increment: the low nibble was 0xF.
pub open spec fn half_inc(v: u8) -> bool {
    v & 0x0F == 0x0F
}

/// 8-bit decrement, wrapping.
pub open spec fn dec8(v: u8) -> u8 {
    ((v + 0xFF) % 0x100) as u8
}

/// Half borrow of a decrement: the low nibble was 0.
pub open spec fn half_dec(v: u8) -> bool {
    v & 0x0F == 0
}

/// 8-bit addition, wrapping.
pub open spec fn add8(a: u8, b: u8) -> u8 {
    ((a + b) % 0x100) as u8
}

/// Carry from bit 3 into bit 4 of an addition.
pub open spec fn half_add(a: u8, b: u8) -> bool {
    (a & 0x0F) + (b & 0x0F) > 0x0F
}

/// Carry out of bit 7 of an addition.
pub open spec fn carry_add(a: u8, b: u8) -> bool {
    a + b > 0xFF
}

/// 8-bit subtraction, wrapping.
pub open spec fn sub8(a: u8, b: u8) -> u8 {
    ((a - b + 0x100) % 0x100) as u8
}

/// Borrow from bit 4 of a subtraction.
pub open spec fn half_sub(a: u8, b: u8) -> bool {
    (a & 0x0F) < (b & 0x0F)
}

/// Borrow of a subtraction.
pub open spec fn borrow_sub(a: u8, b: u8) -> bool {
    a < b
}

/// The 16-bit word stored little-endian at `addr` and the address after it.
pub open spec fn read16(m: MmuView, addr: u16) -> u16 {
    word(m.read(addr as int), m.read(add16(addr, 1) as int))
}

impl Cpu {
    /// The HL register pair.
    pub open spec fn hl(self) -> u16 {
        word(self.l, self.h)
    }

    /// This state with HL set to `v`.
    pub open spec fn with_hl(self, v: u16) -> Cpu {
        Cpu { h: hi8(v), l: lo8(v), ..self }
    }

    /// The serialized form: A, F, B, C, D, E, H, L, then SP and PC little-endian.
    pub open spec fn state_bytes(self) -> Seq<u8> {
        seq![
            self.a,
            self.f,
            self.b,
            self.c,
            self.d,
            self.e,
            self.h,
            self.l,
            lo8(self.sp),
            hi8(self.sp),
            lo8(self.pc),
            hi8(self.pc),
        ]
    }

    /// The state read back from the first twelve bytes of `s`.
    pub open spec fn from_state_bytes(s: Seq<u8>) -> Cpu {
        Cpu {
            a: s[0],
            f: s[1],
            b: s[2],
            c: s[3],
            d: s[4],
            e: s[5],
            h: s[6],
            l: s[7],
            sp: word(s[8], s[9]),
            pc: word(s[10], s[11]),
        }
    }

    /// The register values after power-up of the emulator core.
    pub open spec fn initial() -> Cpu {
        Cpu { a: 0, f: 0, b: 0, c: 0, d: 0, e: 0, h: 0, l: 0, sp: 0xFFFE, pc: 0x0100 }
    }

    /// The typical register values after the boot ROM has run.
    pub open spec fn post_boot() -> Cpu {
        Cpu {
            a: 0x01,
            f: 0xB0,
            b: 0x00,
            c: 0x13,
            d: 0x00,
            e: 0xD8,
            h: 0x01,
            l: 0x4D,
            sp: 0xFFFE,
            pc: 0x0100,
        }
    }

    /// What one instruction does: the processor state, the memory and the cycle count
    /// after executing the instruction at PC.  Unimplemented opcodes, and HALT, behave as
    /// NOP.
    pub open spec fn spec_step(self, m: MmuView) -> (Cpu, MmuView, u8) {
        Cpu { pc: add16(self.pc, 1), ..self }.spec_execute(m.read(self.pc as int), m)
    }

    /// What opcode `op` does once fetched, `self` being the state after the fetch
    /// (PC pointing at the first operand byte).  HALT and the opcodes not implemented
    /// act as NOP.
    pub open spec fn spec_execute(self, op: u8, m: MmuView) -> (Cpu, MmuView, u8) {
        match op {
            0x3E | 0x06 | 0x0E | 0x16 | 0x1E | 0x26 | 0x2E => self.spec_load_imm(op, m),
            0x04 | 0x0C | 0x05 | 0x0D | 0xAF | 0x80 | 0x90 | 0xFE => self.spec_alu(op, m),
            0xC3 | 0xCD | 0xC9 => self.spec_flow(op, m),
            0xE0 | 0xE2 | 0xEA | 0x32 => self.spec_store(op, m),
            0xF0 | 0xF2 | 0xFA | 0x2A => self.spec_load(op, m),
            _ => (self, m, 4),
        }
    }

    /// LD r,d8: an immediate byte into a register.
    #[verifier::opaque]
    pub open spec fn spec_load_imm(self, op: u8, m: MmuView) -> (Cpu, MmuView, u8) {
        let s = self;
        // the immediate byte and the state after fetching it
        let n8 = m.read(s.pc as int);
        let s8 = Cpu { pc: add16(s.pc, 1), ..s };
        match op {
            0x3E => (Cpu { a: n8, ..s8 }, m, 8),
            0x06 => (Cpu { b: n8, ..s8 }, m, 8),
            0x0E => (Cpu { c: n8, ..s8 }, m, 8),
            0x16 => (Cpu { d: n8, ..s8 }, m, 8),
            0x1E => (Cpu { e: n8, ..s8 }, m, 8),
            0x26 => (Cpu { h: n8, ..s8 }, m, 8),
            0x2E => (Cpu { l: n8, ..s8 }, m, 8),
            _ => (s, m, 4),
        }
    }

    /// INC r, DEC r, XOR A, ADD A,B, SUB B and CP d8.
    #[verifier::opaque]
    pub open spec fn spec_alu(self, op: u8, m: MmuView) -> (Cpu, MmuView, u8) {
        let s = self;
        // the immediate byte and the state after fetching it
        let n8 = m.read(s.pc as int);
        let s8 = Cpu { pc: add16(s.pc, 1), ..s };
        match op {
            0x04 => (
                Cpu {
                    b: inc8(s.b),
                    f: flags_znh(s.f, inc8(s.b) == 0, false, half_inc(s.b)),
                    ..s
                },
                m,
                4,
            ),
            0x0C => (
                Cpu {
                    c: inc8(s.c),
                    f: flags_znh(s.f, inc8(s.c) == 0, false, half_inc(s.c)),
                    ..s
                },
                m,
                4,
            ),
            0x05 => (
                Cpu {
                    b: dec8(s.b),
                    f: flags_znh(s.f, dec8(s.b) == 0, true, half_dec(s.b)),
                    ..s
                },
                m,
                4,
            ),
            0x0D => (
                Cpu {
                    c: dec8(s.c),
                    f: flags_znh(s.f, dec8(s.c) == 0, true, half_dec(s.c)),
                    ..s
                },
                m,
                4,
            ),
            0xAF => (Cpu { a: 0, f: FLAG_Z, ..s }, m, 4),
            0x80 => (
                Cpu {
                    a: add8(s.a, s.b),
                    f: flags_znhc(
                        s.f,
                        add8(s.a, s.b) == 0,
                        false,
                        half_add(s.a, s.b),
                        carry_add(s.a, s.b),
                    ),
                    ..s
                },
                m,
                4,
            ),
            0x90 => (
                Cpu {
                    a: sub8(s.a, s.b),
                    f: flags_znhc(
                        s.f,
                        sub8(s.a, s.b) == 0,
                        true,
                        half_sub(s.a, s.b),
                        borrow_sub(s.a, s.b),
                    ),
                    ..s
                },
                m,
                4,
            ),
            0xFE => (
                Cpu {
                    f: compare_flags(sub8(s.a, n8) == 0, half_sub(s.a, n8), borrow_sub(s.a, n8)),
                    ..s8
                },
                m,
                8,
            ),
            _ => (s, m, 4),
        }
    }

    /// JP a16, CALL a16 and RET.
    #[verifier::opaque]
    pub open spec fn spec_flow(self, op: u8, m: MmuView) -> (Cpu, MmuView, u8) {
        let s = self;
        // the immediate word and the state after fetching it
        let n16 = read16(m, s.pc);
        let s16 = Cpu { pc: add16(s.pc, 2), ..s };
        match op {
            0xC3 => (Cpu { pc: n16, ..s }, m, 16),
            0xCD => {
                let ret = s16.pc;
                let sp = add16(s.sp, -2);
                (
                    Cpu { sp: sp, pc: n16, ..s },
                    m.write(sp as int, lo8(ret)).write(sp + 1, hi8(ret)),
                    24,
                )
            },
            0xC9 => (
                Cpu {
                    sp: add16(s.sp, 2),
                    pc: word(m.read(s.sp as int), m.read(s.sp + 1)),
                    ..s
                },
                m,
                16,
            ),
            _ => (s, m, 4),
        }
    }

    /// Stores of A: LDH (a8),A, LD (C),A, LD (a16),A and LD (HL-),A.
    #[verifier::opaque]
    pub open spec fn spec_store(self, op: u8, m: MmuView) -> (Cpu, MmuView, u8) {
        let s = self;
        // immediate operands and the states after fetching them
        let n8 = m.read(s.pc as int);
        let s8 = Cpu { pc: add16(s.pc, 1), ..s };
        let n16 = read16(m, s.pc);
        let s16 = Cpu { pc: add16(s.pc, 2), ..s };
        match op {
            0xE0 => (s8, m.write(0xFF00 + n8, s.a), 12),
            0xE2 => (s, m.write(0xFF00 + s.c, s.a), 8),
            0xEA => (s16, m.write(n16 as int, s.a), 16),
            0x32 => (s.with_hl(add16(s.hl(), -1)), m.write(s.hl() as int, s.a), 8),
            _ => (s, m, 4),
        }
    }

    /// Loads into A: LDH A,(a8), LD A,(C), LD A,(a16) and LD A,(HL+).
    #[verifier::opaque]
    pub open spec fn spec_load(self, op: u8, m: MmuView) -> (Cpu, MmuView, u8) {
        let s = self;
        // immediate operands and the states after fetching them
        let n8 = m.read(s.pc as int);
        let s8 = Cpu { pc: add16(s.pc, 1), ..s };
        let n16 = read16(m, s.pc);
        let s16 = Cpu { pc: add16(s.pc, 2), ..s };
        match op {
            0xF0 => (Cpu { a: m.read(0xFF00 + n8), ..s8 }, m, 12),
            0xF2 => (Cpu { a: m.read(0xFF00 + s.c), ..s }, m, 8),
            0xFA => (Cpu { a: m.read(n16 as int), ..s16 }, m, 16),
            0x2A => (Cpu { a: m.read(s.hl() as int), ..s }.with_hl(add16(s.hl(), 1)), m, 8),
            _ => (s, m, 4),
        }
    }

    pub fn new() -> (r: Cpu)
        ensures
            r == Cpu::initial(),
    {
        Cpu { a: 0, f: 0, b: 0, c: 0, d: 0, e: 0, h: 0, l: 0, sp: 0xFFFE, pc: 0x0100 }
    }

    /// Sets the typical post-boot register values.
    pub fn reset(&mut self)
        ensures
            *final(self) == Cpu::post_boot(),
    {
        self.a = 0x01;
        self.f = 0xB0;
        self.b = 0x00;
        self.c = 0x13;
        self.d = 0x00;
        self.e = 0xD8;
        self.h = 0x01;
        self.l = 0x4D;
        self.sp = 0xFFFE;
        self.pc = 0x0100;
    }

    /// A,F,B,C,D,E,H,L (8) + SP(2) + PC(2)
    pub fn state_size() -> (r: usize)
        ensures
            r == CPU_STATE_SIZE,
    {
        CPU_STATE_SIZE
    }

    /// The twelve-byte serialized state (see [`Cpu::state_bytes`]).
    pub fn serialize(&self) -> (r: Vec<u8>)
        ensures
            r@ == self.state_bytes(),
    {
        let mut out: Vec<u8> = Vec::with_capacity(CPU_STATE_SIZE);
        out.push(self.a);
        out.push(self.f);
        out.push(self.b);
        out.push(self.c);
        out.push(self.d);
        out.push(self.e);
        out.push(self.h);
        out.push(self.l);
        out.push(low_byte(self.sp));
        out.push(high_byte(self.sp));
        out.push(low_byte(self.pc));
        out.push(high_byte(self.pc));
        assert(out@ =~= self.state_bytes());
        out
    }

    /// Loads the state from the first twelve bytes of `data`; shorter data changes nothing.
    pub fn deserialize(&mut self, data: &[u8])
        ensures
            *final(self) == if data@.len() < CPU_STATE_SIZE {
                *old(self)
            } else {
                Cpu::from_state_bytes(data@)
            },
    {
        if data.len() < CPU_STATE_SIZE {
            return;
        }
        self.a = data[0];
        self.f = data[1];
        self.b = data[2];
        self.c = data[3];
        self.d = data[4];
        self.e = data[5];
        self.h = data[6];
        self.l = data[7];
        let sp = word_from_bytes(data[8], data[9]);
        let pc = word_from_bytes(data[10], data[11]);
        self.sp = sp;
        self.pc = pc;
    }

    /// Executes the instruction at PC and returns the cycles it took
    /// (see [`Cpu::spec_step`]).
    pub fn step(&mut self, mmu: &mut Mmu) -> (cycles: u8)
        requires
            old(mmu).wf(),
        ensures
            final(mmu).wf(),
            (*final(self), final(mmu)@, cycles) == old(self).spec_step(old(mmu)@),
    {
        let pc = self.pc as usize;
        let opcode = mmu.read_u8(pc);
        // increment PC now; handlers will adjust if they change PC
        self.pc = self.pc.wrapping_add(1);
        match opcode {
            0x00 => {  // NOP
                4
            },
            0x3E | 0x06 | 0x0E | 0x16 | 0x1E | 0x26 | 0x2E => self.exec_load_imm(opcode, mmu),
            0x04 | 0x0C | 0x05 | 0x0D | 0xAF | 0x80 | 0x90 | 0xFE => self.exec_alu(opcode, mmu),
            0xC3 | 0xCD | 0xC9 => self.exec_flow(opcode, mmu),
            0xE0 | 0xE2 | 0xEA | 0x32 => self.exec_store(opcode, mmu),
            0xF0 | 0xF2 | 0xFA | 0x2A => self.exec_load(opcode, mmu),
            // HALT, and any unimplemented opcode, act as NOP
            _ => {
                4
            },
        }
    }

    /// LD r,d8: loads an immediate byte into a register.
    fn exec_load_imm(&mut self, op: u8, mmu: &Mmu) -> (cycles: u8)
        requires
            mmu.wf(),
            op == 0x3E || op == 0x06 || op == 0x0E || op == 0x16 || op == 0x1E || op == 0x26 || op == 0x2E,
        ensures
            (*final(self), mmu@, cycles) == old(self).spec_load_imm(op, mmu@),
    {
        proof {
            reveal(Cpu::spec_load_imm);
        }
        match op {
            0x3E => {
                let val = self.read_u8(mmu);
                self.a = val;
                8
            },
            0x06 => {
                let val = self.read_u8(mmu);
                self.b = val;
                8
            },
            0x0E => {
                let val = self.read_u8(mmu);
                self.c = val;
                8
            },
            0x16 => {
                let val = self.read_u8(mmu);
                self.d = val;
                8
            },
            0x1E => {
                let val = self.read_u8(mmu);
                self.e = val;
                8
            },
            0x26 => {
                let val = self.read_u8(mmu);
                self.h = val;
                8
            },
            0x2E => {
                let val = self.read_u8(mmu);
                self.l = val;
                8
            },
            _ => 4,
        }
    }

    /// INC r, DEC r, XOR A, ADD A,B, SUB B and CP d8.
    fn exec_alu(&mut self, op: u8, mmu: &Mmu) -> (cycles: u8)
        requires
            mmu.wf(),
            op == 0x04 || op == 0x0C || op == 0x05 || op == 0x0D || op == 0xAF || op == 0x80 || op == 0x90 || op == 0xFE,
        ensures
            (*final(self), mmu@, cycles) == old(self).spec_alu(op, mmu@),
    {
        proof {
            reveal(Cpu::spec_alu);
        }
        match op {
            0x04 => {
                let (res, half) = Self::inc8_with_half(self.b);
                self.b = res;
                self.set_flag_z(res);
                self.set_flag_n(false);
                self.set_flag_h(half);
                4
            },
            0x0C => {
                let (res, half) = Self::inc8_with_half(self.c);
                self.c = res;
                self.set_flag_z(res);
                self.set_flag_n(false);
                self.set_flag_h(half);
                4
            },
            0x05 => {
                let (res, half) = Self::dec8_with_half(self.b);
                self.b = res;
                self.set_flag_z(res);
                self.set_flag_n(true);
                self.set_flag_h(half);
                4
            },
            0x0D => {
                let (res, half) = Self::dec8_with_half(self.c);
                self.c = res;
                self.set_flag_z(res);
                self.set_flag_n(true);
                self.set_flag_h(half);
                4
            },
            0xAF => {
                let a = self.a;
                assert(a ^ a == 0) by (bit_vector);
                self.a = a ^ a;
                // Set Z, clear N,H,C
                self.f = 0x80;
                4
            },
            0x80 => {
                let (res, half, carry) = Self::add8_with_flags(self.a, self.b);
                self.a = res;
                self.set_flag_z(res);
                self.set_flag_n(false);
                self.set_flag_h(half);
                self.set_flag_c(carry);
                4
            },
            0x90 => {
                let (res, half, carry) = Self::sub8_with_flags(self.a, self.b);
                self.a = res;
                self.set_flag_z(res);
                self.set_flag_n(true);
                self.set_flag_h(half);
                self.set_flag_c(carry);
                4
            },
            0xFE => {
                let val = self.read_u8(mmu);
                let res = self.a.wrapping_sub(val);
                // Z if zero, N=1, H if borrow from bit4, C if borrow
                let mut f: u8 = 0;
                if res == 0 {
                    f = f | 0x80;
                }
                f = f | 0x40;
                if (self.a & 0x0F) < (val & 0x0F) {
                    f = f | 0x20;
                }
                if self.a < val {
                    f = f | 0x10;
                }
                self.f = f;
                8
            },
            _ => 4,
        }
    }

    /// JP a16, CALL a16 and RET.
    fn exec_flow(&mut self, op: u8, mmu: &mut Mmu) -> (cycles: u8)
        requires
            old(mmu).wf(),
            op == 0xC3 || op == 0xCD || op == 0xC9,
        ensures
            final(mmu).wf(),
            (*final(self), final(mmu)@, cycles) == old(self).spec_flow(op, old(mmu)@),
    {
        proof {
            reveal(Cpu::spec_flow);
        }
        match op {
            0xC3 => {
                let addr = self.read_u16(mmu);
                self.pc = addr;
                16
            },
            0xCD => {
                let addr = self.read_u16(mmu);
                // push PC (return address)
                let ret = self.pc;
                self.sp = self.sp.wrapping_sub(2);
                let sp = self.sp as usize;
                mmu.write_u8(sp, low_byte(ret));
                mmu.write_u8(sp + 1, high_byte(ret));
                self.pc = addr;
                24
            },
            0xC9 => {
                let sp = self.sp as usize;
                let lo = mmu.read_u8(sp);
                let hi = mmu.read_u8(sp + 1);
                let ret = word_from_bytes(lo, hi);
                self.sp = self.sp.wrapping_add(2);
                self.pc = ret;
                16
            },
            _ => 4,
        }
    }

    /// Stores of A: LDH (a8),A, LD (C),A, LD (a16),A and LD (HL-),A.
    fn exec_store(&mut self, op: u8, mmu: &mut Mmu) -> (cycles: u8)
        requires
            old(mmu).wf(),
            op == 0xE0 || op == 0xE2 || op == 0xEA || op == 0x32,
        ensures
            final(mmu).wf(),
            (*final(self), final(mmu)@, cycles) == old(self).spec_store(op, old(mmu)@),
    {
        proof {
            reveal(Cpu::spec_store);
        }
        match op {
            0xE0 => {
                let off = self.read_u8(mmu) as u16;
                let addr = 0xFF00u16.wrapping_add(off) as usize;
                mmu.write_u8(addr, self.a);
                12
            },
            0xE2 => {
                let addr = 0xFF00u16.wrapping_add(self.c as u16) as usize;
                mmu.write_u8(addr, self.a);
                8
            },
            0xEA => {
                let addr = self.read_u16(mmu) as usize;
                mmu.write_u8(addr, self.a);
                16
            },
            0x32 => {
                let hl = self.get_hl();
                mmu.write_u8(hl as usize, self.a);
                let hl = hl.wrapping_sub(1);
                self.set_hl(hl);
                8
            },
            _ => 4,
        }
    }

    /// Loads into A: LDH A,(a8), LD A,(C), LD A,(a16) and LD A,(HL+).
    fn exec_load(&mut self, op: u8, mmu: &mut Mmu) -> (cycles: u8)
        requires
            old(mmu).wf(),
            op == 0xF0 || op == 0xF2 || op == 0xFA || op == 0x2A,
        ensures
            final(mmu).wf(),
            (*final(self), final(mmu)@, cycles) == old(self).spec_load(op, old(mmu)@),
    {
        proof {
            reveal(Cpu::spec_load);
        }
        match op {
            0xF0 => {
                let off = self.read_u8(mmu) as u16;
                let addr = 0xFF00u16.wrapping_add(off) as usize;
                self.a = mmu.read_u8(addr);
                12
            },
            0xF2 => {
                let addr = 0xFF00u16.wrapping_add(self.c as u16) as usize;
                self.a = mmu.read_u8(addr);
                8
            },
            0xFA => {
                let addr = self.read_u16(mmu) as usize;
                self.a = mmu.read_u8(addr);
                16
            },
            0x2A => {
                let hl = self.get_hl();
                self.a = mmu.read_u8(hl as usize);
                let hl = hl.wrapping_add(1);
                self.set_hl(hl);
                8
            },
            _ => 4,
        }
    }

    // Helpers
    /// Fetches the byte at PC and advances PC.
    fn read_u8(&mut self, mmu: &Mmu) -> (v: u8)
        requires
            mmu.wf(),
        ensures
            v == mmu@.read(old(self).pc as int),
            *final(self) == (Cpu { pc: add16(old(self).pc, 1), ..*old(self) }),
    {
        let v = mmu.read_u8(self.pc as usize);
        self.pc = self.pc.wrapping_add(1);
        v
    }

    /// Fetches the little-endian word at PC and advances PC by two.
    fn read_u16(&mut self, mmu: &Mmu) -> (v: u16)
        requires
            mmu.wf(),
        ensures
            v == read16(mmu@, old(self).pc),
            *final(self) == (Cpu { pc: add16(old(self).pc, 2), ..*old(self) }),
    {
        let lo = self.read_u8(mmu);
        let hi = self.read_u8(mmu);
        word_from_bytes(lo, hi)
    }

    fn get_hl(&self) -> (r: u16)
        ensures
            r == self.hl(),
    {
        let h = self.h as u16;
        let l = self.l as u16;
        let r = (h << 8) | l;
        assert(r == l + 0x100 * h) by (bit_vector)
            requires
                r == (h << 8) | l,
                h < 0x100,
                l < 0x100,
        ;
        r
    }

    fn set_hl(&mut self, v: u16)
        ensures
            *final(self) == old(self).with_hl(v),
    {
        self.h = high_byte(v);
        self.l = low_byte(v);
    }

    // Flag helpers (F register bits: Z=7, N=6, H=5, C=4)
    fn set_flag_z(&mut self, v8: u8)
        ensures
            *final(self) == (Cpu { f: with_flag(old(self).f, FLAG_Z, v8 == 0), ..*old(self) }),
    {
        if v8 == 0 {
            self.f |= 0x80;
        } else {
            self.f &= !0x80;
        }
    }

    fn set_flag_n(&mut self, v: bool)
        ensures
            *final(self) == (Cpu { f: with_flag(old(self).f, FLAG_N, v), ..*old(self) }),
    {
        if v {
            self.f |= 0x40;
        } else {
            self.f &= !0x40;
        }
    }

    fn set_flag_h(&mut self, v: bool)
        ensures
            *final(self) == (Cpu { f: with_flag(old(self).f, FLAG_H, v), ..*old(self) }),
    {
        if v {
            self.f |= 0x20;
        } else {
            self.f &= !0x20;
        }
    }

    fn set_flag_c(&mut self, v: bool)
        ensures
            *final(self) == (Cpu { f: with_flag(old(self).f, FLAG_C, v), ..*old(self) }),
    {
        if v {
            self.f |= 0x10;
        } else {
            self.f &= !0x10;
        }
    }

    fn inc8_with_half(v: u8) -> (r: (u8, bool))
        ensures
            r == (inc8(v), half_inc(v)),
    {
        let res = v.wrapping_add(1);
        let low = v & 0x0F;
        assert(low <= 0x0F && ((((low + 1) as u8) & 0x10 == 0x10) == (v & 0x0F == 0x0F)))
            by (bit_vector)
            requires
                low == v & 0x0F,
        ;
        let sum = low + 1;
        let half = sum & 0x10 == 0x10;
        (res, half)
    }

    fn dec8_with_half(v: u8) -> (r: (u8, bool))
        ensures
            r == (dec8(v), half_dec(v)),
    {
        let res = v.wrapping_sub(1);
        let half = (v & 0x0F) == 0x00;  // borrow from bit4 when low nibble was 0
        (res, half)
    }

    fn add8_with_flags(a: u8, b: u8) -> (r: (u8, bool, bool))
        ensures
            r == (add8(a, b), half_add(a, b), carry_add(a, b)),
    {
        let res = a.wrapping_add(b);
        let carry = (a as u16) + (b as u16) > 0xFF;
        let la = a & 0x0F;
        let lb = b & 0x0F;
        assert(la <= 0x0F && lb <= 0x0F && ((((la + lb) as u8) & 0x10 == 0x10) == (la + lb
            > 0x0F))) by (bit_vector)
            requires
                la == a & 0x0F,
                lb == b & 0x0F,
        ;
        let sum = la + lb;
        let half = sum & 0x10 == 0x10;
        (res, half, carry)
    }

    fn sub8_with_flags(a: u8, b: u8) -> (r: (u8, bool, bool))
        ensures
            r == (sub8(a, b), half_sub(a, b), borrow_sub(a, b)),
    {
        let res = a.wrapping_sub(b);
        let borrow = a < b;
        let half = (a & 0x0F) < (b & 0x0F);
        (res, half, borrow)
    }
}

/// The low byte of `x`.
fn low_byte(x: u16) -> (r: u8)
    ensures
        r == lo8(x),
{
    let r = (x & 0xFF) as u8;
    assert((x & 0xFF) == x % 0x100) by (bit_vector);
    r
}

/// The high byte of `x`.
fn high_byte(x: u16) -> (r: u8)
    ensures
        r == hi8(x),
{
    let r = ((x >> 8) & 0xFF) as u8;
    assert(((x >> 8) & 0xFF) == x / 0x100) by (bit_vector);
    r
}

/// The word whose little-endian bytes are `lo`, `hi`.
fn word_from_bytes(lo: u8, hi: u8) -> (r: u16)
    ensures
        r == word(lo, hi),
{
    let l = lo as u16;
    let h = hi as u16;
    let r = (h << 8) | l;
    assert(r == l + 0x100 * h) by (bit_vector)
        requires
            r == (h << 8) | l,
            h < 0x100,
            l < 0x100,
    ;
    r
}

/// Whether an opcode writes to memory when executed.
pub open spec fn writes_memory(op: u8) -> bool {
    op == 0xCD || op == 0xE0 || op == 0xE2 || op == 0xEA || op == 0x32
}

/// Whether an opcode sets PC to a target rather than stepping past itself.
pub open spec fn is_jump(op: u8) -> bool {
    op == 0xC3 || op == 0xCD || op == 0xC9
}

/// The length in bytes of an instruction (opcode and immediate operands).
pub open spec fn instr_len(op: u8) -> int {
    if op == 0x3E || op == 0x06 || op == 0x0E || op == 0x16 || op == 0x1E || op == 0x26 || op
        == 0x2E || op == 0xFE || op == 0xE0 || op == 0xF0 {
        2
    } else if op == 0xC3 || op == 0xCD || op == 0xEA || op == 0xFA {
        3
    } else {
        1
    }
}

/// Serializing a processor state and loading it back gives the same state, and the
/// serialized form has `state_size` bytes.
pub proof fn lemma_state_roundtrip(c: Cpu)
    ensures
        c.state_bytes().len() == CPU_STATE_SIZE,
        Cpu::from_state_bytes(c.state_bytes()) == c,
{
    lemma_word_bytes(c.sp);
    lemma_word_bytes(c.pc);
}

/// A 16-bit value is the word of its low and high bytes.
pub proof fn lemma_word_bytes(x: u16)
    ensures
        word(lo8(x), hi8(x)) == x,
{
}

/// Setting HL and reading it back gives the value set, and no other register changes.
pub proof fn lemma_hl_roundtrip(c: Cpu, v: u16)
    ensures
        c.with_hl(v).hl() == v,
        c.with_hl(v).a == c.a && c.with_hl(v).f == c.f && c.with_hl(v).b == c.b && c.with_hl(
            v,
        ).c == c.c && c.with_hl(v).d == c.d && c.with_hl(v).e == c.e && c.with_hl(v).sp == c.sp
            && c.with_hl(v).pc == c.pc,
{
}

/// Setting one flag sets or clears exactly its bit and keeps every other bit of F.
pub proof fn lemma_with_flag(f: u8, mask: u8, on: bool)
    requires
        mask == FLAG_Z || mask == FLAG_N || mask == FLAG_H || mask == FLAG_C,
    ensures
        (with_flag(f, mask, on) & mask != 0) == on,
        with_flag(f, mask, on) & !mask == f & !mask,
{
    assert((f | mask) & mask != 0 && (f | mask) & !mask == f & !mask && !((f & !mask) & mask
        != 0) && (f & !mask) & !mask == f & !mask) by (bit_vector)
        requires
            mask == 0x80u8 || mask == 0x40u8 || mask == 0x20u8 || mask == 0x10u8,
    ;
}

/// After an ALU result sets Z, N, H and C, each flag bit of F reads the given value and
/// the low nibble of F is kept.
pub proof fn lemma_flags_znhc(f: u8, z: bool, n: bool, h: bool, c: bool)
    ensures
        (flags_znhc(f, z, n, h, c) & FLAG_Z != 0) == z,
        (flags_znhc(f, z, n, h, c) & FLAG_N != 0) == n,
        (flags_znhc(f, z, n, h, c) & FLAG_H != 0) == h,
        (flags_znhc(f, z, n, h, c) & FLAG_C != 0) == c,
        flags_znhc(f, z, n, h, c) & 0x0F == f & 0x0F,
{
    lemma_flags_znh(f, z, n, h);
    let g = flags_znh(f, z, n, h);
    let r = flags_znhc(f, z, n, h, c);
    assert(r == with_flag(g, 0x10, c));
    lemma_with_flag(g, 0x10, c);
    assert((r & !0x10u8 == g & !0x10u8 ==> ((r & 0x80 != 0) == (g & 0x80 != 0) && (r & 0x40 != 0)
        == (g & 0x40 != 0) && (r & 0x20 != 0) == (g & 0x20 != 0) && r & 0x0F == g & 0x0F)) && (g
        & 0x1F == f & 0x1F ==> g & 0x0F == f & 0x0F)) by (bit_vector);
}

/// After an increment or decrement sets Z, N and H, those flag bits read the given values
/// and the C flag and low nibble of F are kept.
pub proof fn lemma_flags_znh(f: u8, z: bool, n: bool, h: bool)
    ensures
        (flags_znh(f, z, n, h) & FLAG_Z != 0) == z,
        (flags_znh(f, z, n, h) & FLAG_N != 0) == n,
        (flags_znh(f, z, n, h) & FLAG_H != 0) == h,
        flags_znh(f, z, n, h) & 0x1F == f & 0x1F,
{
    let f1 = with_flag(f, 0x80, z);
    let f2 = with_flag(f1, 0x40, n);
    let f3 = with_flag(f2, 0x20, h);
    lemma_with_flag(f, 0x80, z);
    lemma_with_flag(f1, 0x40, n);
    lemma_with_flag(f2, 0x20, h);
    assert((f1 & !0x80u8 == f & !0x80u8 && f2 & !0x40u8 == f1 & !0x40u8 && f3 & !0x20u8 == f2
        & !0x20u8) ==> ((f3 & 0x80 != 0) == (f2 & 0x80 != 0) && (f2 & 0x80 != 0) == (f1 & 0x80
        != 0) && (f3 & 0x40 != 0) == (f2 & 0x40 != 0) && f3 & 0x1F == f & 0x1F)) by (bit_vector);
}

/// The flags of a compare: each flag bit reads the given value (N always set) and the
/// low nibble is clear.
pub proof fn lemma_compare_flags(z: bool, h: bool, c: bool)
    ensures
        (compare_flags(z, h, c) & FLAG_Z != 0) == z,
        compare_flags(z, h, c) & FLAG_N != 0,
        (compare_flags(z, h, c) & FLAG_H != 0) == h,
        (compare_flags(z, h, c) & FLAG_C != 0) == c,
        compare_flags(z, h, c) & 0x0F == 0,
{
    let f1 = or_flag_if(0, 0x80, z);
    let f2 = f1 | 0x40;
    let f3 = or_flag_if(f2, 0x20, h);
    let f4 = or_flag_if(f3, 0x10, c);
    assert({
        &&& (f4 & 0x80 != 0) == z
        &&& f4 & 0x40 != 0
        &&& (f4 & 0x20 != 0) == h
        &&& (f4 & 0x10 != 0) == c
        &&& f4 & 0x0F == 0
    }) by (bit_vector)
        requires
            f1 == (if z {
                0u8 | 0x80u8
            } else {
                0u8
            }),
            f2 == f1 | 0x40,
            f3 == (if h {
                f2 | 0x20u8
            } else {
                f2
            }),
            f4 == (if c {
                f3 | 0x10u8
            } else {
                f3
            }),
    ;
}

/// Every instruction takes between 4 and 24 cycles, a multiple of 4.
pub proof fn lemma_step_cycles(cpu: Cpu, m: MmuView)
    ensures
        4 <= cpu.spec_step(m).2 <= 24,
        cpu.spec_step(m).2 % 4 == 0,
{
    reveal(Cpu::spec_load_imm);
    reveal(Cpu::spec_alu);
    reveal(Cpu::spec_flow);
    reveal(Cpu::spec_store);
    reveal(Cpu::spec_load);
}

/// An instruction that stores nothing leaves memory unchanged.
pub proof fn lemma_step_memory_frame(cpu: Cpu, m: MmuView)
    requires
        !writes_memory(m.read(cpu.pc as int)),
    ensures
        cpu.spec_step(m).1 == m,
{
    reveal(Cpu::spec_load_imm);
    reveal(Cpu::spec_alu);
    reveal(Cpu::spec_flow);
    reveal(Cpu::spec_store);
    reveal(Cpu::spec_load);
}

/// Adding to a 16-bit value twice adds the sum.
pub proof fn lemma_add16_add(x: u16, a: int, b: int)
    ensures
        add16(add16(x, a), b) == add16(x, a + b),
{
    vstd::arithmetic::div_mod::lemma_add_mod_noop_right(b, x + a, 0x10000);
}

/// An instruction that does not jump leaves PC just past itself and SP unchanged.
pub proof fn lemma_step_pc_advance(cpu: Cpu, m: MmuView)
    requires
        !is_jump(m.read(cpu.pc as int)),
    ensures
        cpu.spec_step(m).0.pc == add16(cpu.pc, instr_len(m.read(cpu.pc as int))),
        cpu.spec_step(m).0.sp == cpu.sp,
{
    let op = m.read(cpu.pc as int);
    lemma_add16_add(cpu.pc, 1, 1);
    lemma_add16_add(cpu.pc, 1, 2);
    if op == 0x3E || op == 0x06 || op == 0x0E || op == 0x16 || op == 0x1E || op == 0x26 || op
        == 0x2E {
        reveal(Cpu::spec_load_imm);
    } else if op == 0x04 || op == 0x0C || op == 0x05 || op == 0x0D || op == 0xAF || op == 0x80
        || op == 0x90 || op == 0xFE {
        reveal(Cpu::spec_alu);
    } else if op == 0xE0 || op == 0xE2 || op == 0xEA || op == 0x32 {
        reveal(Cpu::spec_store);
    } else if op == 0xF0 || op == 0xF2 || op == 0xFA || op == 0x2A {
        reveal(Cpu::spec_load);
    }
}

/// What a CALL does: push the address after it, jump to its operand.
proof fn lemma_call_step(cpu: Cpu, m: MmuView)
    requires
        m.read(cpu.pc as int) == 0xCD,
    ensures
        cpu.spec_step(m).0 == (Cpu {
            sp: add16(cpu.sp, -2),
            pc: read16(m, add16(cpu.pc, 1)),
            ..cpu
        }),
        cpu.spec_step(m).1 == m.write(add16(cpu.sp, -2) as int, lo8(add16(add16(cpu.pc, 1), 2))).write(
            add16(cpu.sp, -2) + 1,
            hi8(add16(add16(cpu.pc, 1), 2)),
        ),
{
    reveal(Cpu::spec_flow);
}

/// What a RET does: pop the return address.
proof fn lemma_ret_step(cpu: Cpu, m: MmuView)
    requires
        m.read(cpu.pc as int) == 0xC9,
    ensures
        cpu.spec_step(m).0 == (Cpu {
            sp: add16(cpu.sp, 2),
            pc: word(m.read(cpu.sp as int), m.read(cpu.sp + 1)),
            ..cpu
        }),
        cpu.spec_step(m).1 == m,
{
    reveal(Cpu::spec_flow);
}

/// A CALL followed by a RET at its target returns just past the CALL with the stack
/// pointer restored, as long as the two stack bytes lie in memory that stores writes and
/// the target still holds the RET once the return address is pushed (a target in the
/// echo of a stack byte is overwritten by the push).
pub proof fn lemma_call_then_ret(cpu: Cpu, m: MmuView)
    requires
        m.wf(),
        m.read(cpu.pc as int) == 0xCD,
        0x8000 <= add16(cpu.sp, -2) <= 0xFFFE,
        m.stores_at(add16(cpu.sp, -2) as int),
        m.stores_at(add16(cpu.sp, -2) + 1),
        cpu.spec_step(m).1.read(cpu.spec_step(m).0.pc as int) == 0xC9,
    ensures
        ({
            let c1 = cpu.spec_step(m).0;
            let m1 = cpu.spec_step(m).1;
            &&& c1.spec_step(m1).0.pc == add16(cpu.pc, 3)
            &&& c1.spec_step(m1).0.sp == cpu.sp
            &&& c1.spec_step(m1).1 == m1
        }),
{
    lemma_call_step(cpu, m);
    let ret = add16(add16(cpu.pc, 1), 2);
    let sp = add16(cpu.sp, -2);
    let m0 = m.write(sp as int, lo8(ret));
    let m1 = m0.write(sp + 1, hi8(ret));
    let c1 = cpu.spec_step(m).0;
    assert(c1.sp == sp);
    crate::mmu::lemma_write_wf(m, sp as int, lo8(ret));
    crate::mmu::lemma_read_after_write(m, sp as int, lo8(ret));
    crate::mmu::lemma_write_frame(m, sp as int, sp + 1, lo8(ret));
    assert(m0.stores_at(sp + 1));
    crate::mmu::lemma_read_after_write(m0, sp + 1, hi8(ret));
    crate::mmu::lemma_write_frame(m0, sp + 1, sp as int, hi8(ret));
    assert(m1.read(sp as int) == lo8(ret));
    assert(m1.read(sp + 1) == hi8(ret));
    lemma_word_bytes(ret);
    lemma_ret_step(c1, m1);
    lemma_add16_add(cpu.sp, -2, 2);
    lemma_add16_add(cpu.pc, 1, 2);
}

/// The low nibble of a byte is its value modulo 16.
proof fn lemma_low_nibble(v: u8)
    ensures
        v & 0x0F == v % 16,
{
    assert(v & 0x0F == v % 16) by (bit_vector);
}

/// ADD A,B: A becomes (A + B) mod 256 whatever the flags were; Z is set iff that is 0, N is
/// clear, H is set iff the low nibbles sum past 15, C iff the sum passes 255; the low
/// nibble of F and the other registers are kept and PC moves past the opcode.
pub proof fn lemma_add_a_b(cpu: Cpu, m: MmuView)
    requires
        m.read(cpu.pc as int) == 0x80,
    ensures
        ({
            let (c, m1, n) = cpu.spec_step(m);
            &&& c.a as int == (cpu.a + cpu.b) % 256
            &&& (c.f & 0x80 != 0) == ((cpu.a + cpu.b) % 256 == 0)
            &&& c.f & 0x40 == 0
            &&& (c.f & 0x20 != 0) == (cpu.a % 16 + cpu.b % 16 >= 16)
            &&& (c.f & 0x10 != 0) == (cpu.a + cpu.b >= 256)
            &&& c.f & 0x0F == cpu.f & 0x0F
            &&& c.b == cpu.b && c.c == cpu.c && c.d == cpu.d && c.e == cpu.e && c.h == cpu.h
                && c.l == cpu.l && c.sp == cpu.sp
            &&& c.pc as int == (cpu.pc + 1) % 65536
            &&& m1 == m
            &&& n == 4
        }),
{
    reveal(Cpu::spec_alu);
    lemma_low_nibble(cpu.a);
    lemma_low_nibble(cpu.b);
    let r = add8(cpu.a, cpu.b);
    lemma_flags_znhc(cpu.f, r == 0, false, half_add(cpu.a, cpu.b), carry_add(cpu.a, cpu.b));
}

/// SUB B: A becomes (A - B) mod 256; Z is set iff that is 0, N is set, H iff the low
/// nibble of A is below that of B, C iff A < B; the other registers are kept.
pub proof fn lemma_sub_b(cpu: Cpu, m: MmuView)
    requires
        m.read(cpu.pc as int) == 0x90,
    ensures
        ({
            let (c, m1, n) = cpu.spec_step(m);
            &&& c.a as int == (cpu.a - cpu.b + 256) % 256
            &&& (c.f & 0x80 != 0) == (cpu.a == cpu.b)
            &&& c.f & 0x40 != 0
            &&& (c.f & 0x20 != 0) == (cpu.a % 16 < cpu.b % 16)
            &&& (c.f & 0x10 != 0) == (cpu.a < cpu.b)
            &&& c.f & 0x0F == cpu.f & 0x0F
            &&& c.b == cpu.b && c.c == cpu.c && c.d == cpu.d && c.e == cpu.e && c.h == cpu.h
                && c.l == cpu.l && c.sp == cpu.sp
            &&& c.pc as int == (cpu.pc + 1) % 65536
            &&& m1 == m
            &&& n == 4
        }),
{
    reveal(Cpu::spec_alu);
    lemma_low_nibble(cpu.a);
    lemma_low_nibble(cpu.b);
    let r = sub8(cpu.a, cpu.b);
    lemma_flags_znhc(cpu.f, r == 0, true, half_sub(cpu.a, cpu.b), borrow_sub(cpu.a, cpu.b));
}

/// INC B / INC C: the register becomes (r + 1) mod 256; Z is set iff that is 0, N is
/// clear, H iff the low nibble was 15; C and the other registers are kept.
pub proof fn lemma_inc(cpu: Cpu, m: MmuView)
    requires
        m.read(cpu.pc as int) == 0x04 || m.read(cpu.pc as int) == 0x0C,
    ensures
        ({
            let op = m.read(cpu.pc as int);
            let r = if op == 0x04 {
                cpu.b
            } else {
                cpu.c
            };
            let (c, m1, n) = cpu.spec_step(m);
            let r1 = if op == 0x04 {
                c.b
            } else {
                c.c
            };
            &&& r1 as int == (r + 1) % 256
            &&& (c.f & 0x80 != 0) == (r == 255)
            &&& c.f & 0x40 == 0
            &&& (c.f & 0x20 != 0) == (r % 16 == 15)
            &&& c.f & 0x1F == cpu.f & 0x1F
            &&& (op == 0x04 ==> c.c == cpu.c)
            &&& (op == 0x0C ==> c.b == cpu.b)
            &&& c.a == cpu.a && c.d == cpu.d && c.e == cpu.e && c.h == cpu.h && c.l == cpu.l
                && c.sp == cpu.sp
            &&& c.pc as int == (cpu.pc + 1) % 65536
            &&& m1 == m
            &&& n == 4
        }),
{
    reveal(Cpu::spec_alu);
    lemma_low_nibble(cpu.b);
    lemma_low_nibble(cpu.c);
    lemma_flags_znh(cpu.f, inc8(cpu.b) == 0, false, half_inc(cpu.b));
    lemma_flags_znh(cpu.f, inc8(cpu.c) == 0, false, half_inc(cpu.c));
}

/// DEC B / DEC C: the register becomes (r - 1) mod 256; Z is set iff that is 0, N is set,
/// H iff the low nibble was 0; C and the other registers are kept.
pub proof fn lemma_dec(cpu: Cpu, m: MmuView)
    requires
        m.read(cpu.pc as int) == 0x05 || m.read(cpu.pc as int) == 0x0D,
    ensures
        ({
            let op = m.read(cpu.pc as int);
            let r = if op == 0x05 {
                cpu.b
            } else {
                cpu.c
            };
            let (c, m1, n) = cpu.spec_step(m);
            let r1 = if op == 0x05 {
                c.b
            } else {
                c.c
            };
            &&& r1 as int == (r + 255) % 256
            &&& (c.f & 0x80 != 0) == (r == 1)
            &&& c.f & 0x40 != 0
            &&& (c.f & 0x20 != 0) == (r % 16 == 0)
            &&& c.f & 0x1F == cpu.f & 0x1F
            &&& (op == 0x05 ==> c.c == cpu.c)
            &&& (op == 0x0D ==> c.b == cpu.b)
            &&& c.a == cpu.a && c.d == cpu.d && c.e == cpu.e && c.h == cpu.h && c.l == cpu.l
                && c.sp == cpu.sp
            &&& c.pc as int == (cpu.pc + 1) % 65536
            &&& m1 == m
            &&& n == 4
        }),
{
    reveal(Cpu::spec_alu);
    lemma_low_nibble(cpu.b);
    lemma_low_nibble(cpu.c);
    lemma_flags_znh(cpu.f, dec8(cpu.b) == 0, true, half_dec(cpu.b));
    lemma_flags_znh(cpu.f, dec8(cpu.c) == 0, true, half_dec(cpu.c));
}

/// XOR A clears A and leaves F with only Z set.
pub proof fn lemma_xor_a(cpu: Cpu, m: MmuView)
    requires
        m.read(cpu.pc as int) == 0xAF,
    ensures
        cpu.spec_step(m).0.a == 0,
        cpu.spec_step(m).0.f == 0x80,
        cpu.spec_step(m).0.b == cpu.b,
        cpu.spec_step(m).1 == m,
{
    reveal(Cpu::spec_alu);
}

/// CP d8 compares A with the byte after the opcode: A is kept, Z is set iff they are
/// equal, N is set, H iff A's low nibble is below the operand's, C iff A is below the
/// operand, the low nibble of F is cleared, and PC moves past the operand.
pub proof fn lemma_compare(cpu: Cpu, m: MmuView)
    requires
        m.read(cpu.pc as int) == 0xFE,
    ensures
        ({
            let v = m.read((cpu.pc + 1) % 65536);
            let (c, m1, n) = cpu.spec_step(m);
            &&& c.a == cpu.a
            &&& (c.f & 0x80 != 0) == (cpu.a == v)
            &&& c.f & 0x40 != 0
            &&& (c.f & 0x20 != 0) == (cpu.a % 16 < v % 16)
            &&& (c.f & 0x10 != 0) == (cpu.a < v)
            &&& c.f & 0x0F == 0
            &&& c.pc as int == (cpu.pc + 2) % 65536
            &&& m1 == m
            &&& n == 8
        }),
{
    reveal(Cpu::spec_alu);
    let v = m.read((cpu.pc + 1) % 65536);
    lemma_low_nibble(cpu.a);
    lemma_low_nibble(v);
    lemma_add16_add(cpu.pc, 1, 1);
    lemma_compare_flags(sub8(cpu.a, v) == 0, half_sub(cpu.a, v), borrow_sub(cpu.a, v));
}

/// LD r,d8 loads the byte after the opcode into the register the opcode names (A, B, C,
/// D, E, H, L for 0x3E, 0x06, 0x0E, 0x16, 0x1E, 0x26, 0x2E), keeps F and every other
/// register, and moves PC past the operand.
pub proof fn lemma_load_immediate(cpu: Cpu, m: MmuView)
    requires
        ({
            let op = m.read(cpu.pc as int);
            op == 0x3E || op == 0x06 || op == 0x0E || op == 0x16 || op == 0x1E || op == 0x26 || op
                == 0x2E
        }),
    ensures
        ({
            let op = m.read(cpu.pc as int);
            let v = m.read((cpu.pc + 1) % 65536);
            let (c, m1, n) = cpu.spec_step(m);
            &&& c.a == (if op == 0x3E { v } else { cpu.a })
            &&& c.b == (if op == 0x06 { v } else { cpu.b })
            &&& c.c == (if op == 0x0E { v } else { cpu.c })
            &&& c.d == (if op == 0x16 { v } else { cpu.d })
            &&& c.e == (if op == 0x1E { v } else { cpu.e })
            &&& c.h == (if op == 0x26 { v } else { cpu.h })
            &&& c.l == (if op == 0x2E { v } else { cpu.l })
            &&& c.f == cpu.f && c.sp == cpu.sp
            &&& c.pc as int == (cpu.pc + 2) % 65536
            &&& m1 == m
            &&& n == 8
        }),
{
    reveal(Cpu::spec_load_imm);
    lemma_add16_add(cpu.pc, 1, 1);
}

/// JP a16 jumps to the little-endian word after the opcode and changes nothing else.
pub proof fn lemma_jump(cpu: Cpu, m: MmuView)
    requires
        m.read(cpu.pc as int) == 0xC3,
    ensures
        cpu.spec_step(m).0.pc as int == m.read((cpu.pc + 1) % 65536) + 256 * m.read(
            (cpu.pc + 2) % 65536,
        ),
        cpu.spec_step(m).0.sp == cpu.sp,
        cpu.spec_step(m).0.a == cpu.a,
        cpu.spec_step(m).0.f == cpu.f,
        cpu.spec_step(m).1 == m,
        cpu.spec_step(m).2 == 16,
{
    reveal(Cpu::spec_flow);
    lemma_add16_add(cpu.pc, 1, 1);
}

/// LDH (a8),A and LD (C),A store A at 0xFF00 plus the operand byte or C; LDH A,(a8) and
/// LD A,(C) load A from there.
pub proof fn lemma_high_page_access(cpu: Cpu, m: MmuView)
    ensures
        m.read(cpu.pc as int) == 0xE0 ==> cpu.spec_step(m).1 == m.write(
            0xFF00 + m.read((cpu.pc + 1) % 65536),
            cpu.a,
        ),
        m.read(cpu.pc as int) == 0xE2 ==> cpu.spec_step(m).1 == m.write(0xFF00 + cpu.c, cpu.a),
        m.read(cpu.pc as int) == 0xF0 ==> cpu.spec_step(m).0.a == m.read(
            0xFF00 + m.read((cpu.pc + 1) % 65536),
        ),
        m.read(cpu.pc as int) == 0xF2 ==> cpu.spec_step(m).0.a == m.read(0xFF00 + cpu.c),
{
    reveal(Cpu::spec_store);
    reveal(Cpu::spec_load);
}

/// LD (HL-),A stores A at HL then decrements HL; LD A,(HL+) loads A from HL then
/// increments HL (both wrapping on 16 bits).
pub proof fn lemma_hl_access(cpu: Cpu, m: MmuView)
    ensures
        m.read(cpu.pc as int) == 0x32 ==> {
            let c = cpu.spec_step(m).0;
            &&& cpu.spec_step(m).1 == m.write(cpu.h * 256 + cpu.l, cpu.a)
            &&& c.h * 256 + c.l == (cpu.h * 256 + cpu.l + 65535) % 65536
        },
        m.read(cpu.pc as int) == 0x2A ==> {
            let c = cpu.spec_step(m).0;
            &&& c.a == m.read(cpu.h * 256 + cpu.l)
            &&& c.h * 256 + c.l == (cpu.h * 256 + cpu.l + 1) % 65536
            &&& cpu.spec_step(m).1 == m
        },
{
    reveal(Cpu::spec_store);
    reveal(Cpu::spec_load);
    let s = Cpu { pc: add16(cpu.pc, 1), ..cpu };
    lemma_hl_roundtrip(s, add16(s.hl(), -1));
    lemma_hl_roundtrip(s, add16(s.hl(), 1));
    lemma_hl_roundtrip(Cpu { a: m.read(s.hl() as int), ..s }, add16(s.hl(), 1));
}

/// The serialized state holds A, F, B, C, D, E, H, L in that order, then SP and PC, each
/// low byte first.
pub proof fn lemma_state_layout(c: Cpu)
    ensures
        ({
            let b = c.state_bytes();
            &&& b.len() == 12
            &&& b[0] == c.a && b[1] == c.f && b[2] == c.b && b[3] == c.c
            &&& b[4] == c.d && b[5] == c.e && b[6] == c.h && b[7] == c.l
            &&& b[8] + 256 * b[9] == c.sp
            &&& b[10] + 256 * b[11] == c.pc
        }),
{
}

/// Cycle counts: 4 for NOP, INC, DEC, XOR A, ADD A,B, SUB B, HALT and unimplemented
/// opcodes; 8 for LD r,d8, CP d8, LD (C),A, LD A,(C), LD (HL-),A and LD A,(HL+); 12 for
/// LDH (a8),A and LDH A,(a8); 16 for JP, RET, LD (a16),A and LD A,(a16); 24 for CALL.
pub proof fn lemma_cycle_counts(cpu: Cpu, m: MmuView)
    ensures
        ({
            let op = m.read(cpu.pc as int);
            let n = cpu.spec_step(m).2;
            &&& (op == 0x3E || op == 0x06 || op == 0x0E || op == 0x16 || op == 0x1E || op == 0x26
                || op == 0x2E || op == 0xFE || op == 0xE2 || op == 0xF2 || op == 0x32 || op
                == 0x2A) ==> n == 8
            &&& (op == 0xE0 || op == 0xF0) ==> n == 12
            &&& (op == 0xC3 || op == 0xC9 || op == 0xEA || op == 0xFA) ==> n == 16
            &&& op == 0xCD ==> n == 24
            &&& !(op == 0x3E || op == 0x06 || op == 0x0E || op == 0x16 || op == 0x1E || op
                == 0x26 || op == 0x2E || op == 0xFE || op == 0xE2 || op == 0xF2 || op == 0x32
                || op == 0x2A || op == 0xE0 || op == 0xF0 || op == 0xC3 || op == 0xC9 || op
                == 0xEA || op == 0xFA || op == 0xCD) ==> n == 4
        }),
{
    reveal(Cpu::spec_load_imm);
    reveal(Cpu::spec_alu);
    reveal(Cpu::spec_flow);
    reveal(Cpu::spec_store);
    reveal(Cpu::spec_load);
}

} // verus!
