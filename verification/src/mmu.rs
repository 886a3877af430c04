//! Memory map of the console: cartridge ROM with simple MBC1-style banking,
//! video RAM, external (battery) RAM, work RAM with its echo, sprite attribute
//! memory (OAM), I/O registers, high RAM and the interrupt-enable register.
use vstd::prelude::*;

verus! {

/// Size of the video RAM (0x8000-0x9FFF).
pub const VRAM_SIZE: usize = 0x2000;
/// Size of the work RAM (0xC000-0xDFFF, echoed at 0xE000-0xFDFF).
pub const WRAM_SIZE: usize = 0x2000;
/// Size of the sprite attribute memory (0xFE00-0xFE9F).
pub const OAM_SIZE: usize = 0xA0;
/// Size of the I/O register block (0xFF00-0xFF7F).
pub const IO_SIZE: usize = 0x80;
/// Size of the high RAM (0xFF80-0xFFFE).
pub const HRAM_SIZE: usize = 0x7F;
/// Size of the external cartridge RAM (0xA000-0xBFFF).
pub const EXT_RAM_SIZE: usize = 0x2000;
/// Size of a full memory image of the 16-bit address space.
pub const MEM_IMAGE_SIZE: usize = 0x10000;

/// The memory unit.
pub struct Mmu {
    pub rom: Vec<u8>,
    /// 8KB
    pub vram: Vec<u8>,
    /// 8KB
    pub wram: Vec<u8>,
    /// 160 bytes
    pub oam: Vec<u8>,
    /// 128 bytes (0xFF00-0xFF7F)
    pub io: Vec<u8>,
    /// 127 bytes (0xFF80-0xFFFE)
    pub hram: Vec<u8>,
    /// interrupt enable (0xFFFF)
    pub ie: u8,
    pub ext_ram: Vec<u8>,
    /// current ROM bank for 0x4000-0x7FFF
    pub rom_bank: usize,
    pub ram_enable: bool,
}

/// The mathematical content of an [`Mmu`].
#[verifier::ext_equal]
pub struct MmuView {
    pub rom: Seq<u8>,
    pub vram: Seq<u8>,
    pub wram: Seq<u8>,
    pub oam: Seq<u8>,
    pub io: Seq<u8>,
    pub hram: Seq<u8>,
    pub ie: u8,
    pub ext_ram: Seq<u8>,
    pub rom_bank: usize,
    pub ram_enable: bool,
}

impl View for Mmu {
    type V = MmuView;

    open spec fn view(&self) -> MmuView {
        MmuView {
            rom: self.rom@,
            vram: self.vram@,
            wram: self.wram@,
            oam: self.oam@,
            io: self.io@,
            hram: self.hram@,
            ie: self.ie,
            ext_ram: self.ext_ram@,
            rom_bank: self.rom_bank,
            ram_enable: self.ram_enable,
        }
    }
}

/// The ROM bank that a write of `val` to 0x2000-0x3FFF selects (bank 0 maps to 1).
pub open spec fn bank_select(val: u8) -> usize {
    if val & 0x1F == 0 {
        1
    } else {
        (val & 0x1F) as usize
    }
}

/// The ROM after a write of `val` at `addr`: writes land in the ROM only inside it.
pub open spec fn rom_write(rom: Seq<u8>, addr: int, val: u8) -> Seq<u8> {
    if 0 <= addr < rom.len() {
        rom.update(addr, val)
    } else {
        rom
    }
}

/// The cell that an address denotes: the echo region 0xE000-0xFDFF is the work RAM
/// 0x2000 below it.
pub open spec fn cell(addr: int) -> int {
    if 0xE000 <= addr <= 0xFDFF {
        addr - 0x2000
    } else {
        addr
    }
}

impl MmuView {
    /// A memory over `rom` with zeroed RAM, bank 1 and external RAM disabled.
    pub open spec fn initial(rom: Seq<u8>) -> MmuView {
        MmuView {
            rom: rom,
            vram: zeros(0x2000),
            wram: zeros(0x2000),
            oam: zeros(0xA0),
            io: zeros(0x80),
            hram: zeros(0x7F),
            ie: 0,
            ext_ram: zeros(0x2000),
            rom_bank: 1,
            ram_enable: false,
        }
    }

    /// This memory with the ROM replaced by `data`: bank 1, external RAM disabled and all
    /// RAM zeroed; only the interrupt-enable register is kept.
    pub open spec fn with_rom(self, data: Seq<u8>) -> MmuView {
        MmuView { ie: self.ie, ..MmuView::initial(data) }
    }

    /// The sizes of the RAM blocks, and a ROM bank whose addresses fit in `usize`.
    pub open spec fn wf(self) -> bool {
        &&& self.vram.len() == VRAM_SIZE
        &&& self.wram.len() == WRAM_SIZE
        &&& self.oam.len() == OAM_SIZE
        &&& self.io.len() == IO_SIZE
        &&& self.hram.len() == HRAM_SIZE
        &&& self.ext_ram.len() == EXT_RAM_SIZE
        &&& self.rom_bank * 0x4000 + 0x3FFF <= usize::MAX
    }

    /// The byte that a read at `addr` returns.
    #[verifier::opaque]
    pub open spec fn read(self, addr: int) -> u8 {
        if addr < 0 {
            0xFF
        } else if addr <= 0x3FFF {
            if addr < self.rom.len() {
                self.rom[addr]
            } else {
                0xFF
            }
        } else if addr <= 0x7FFF {
            let idx = self.rom_bank * 0x4000 + (addr - 0x4000);
            if idx < self.rom.len() {
                self.rom[idx]
            } else {
                0xFF
            }
        } else if addr <= 0x9FFF {
            self.vram[addr - 0x8000]
        } else if addr <= 0xBFFF {
            self.ext_ram[addr - 0xA000]
        } else if addr <= 0xDFFF {
            self.wram[addr - 0xC000]
        } else if addr <= 0xFDFF {
            self.wram[addr - 0xE000]
        } else if addr <= 0xFE9F {
            self.oam[addr - 0xFE00]
        } else if addr <= 0xFEFF {
            0xFF
        } else if addr <= 0xFF7F {
            self.io[addr - 0xFF00]
        } else if addr <= 0xFFFE {
            self.hram[addr - 0xFF80]
        } else if addr == 0xFFFF {
            self.ie
        } else {
            0xFF
        }
    }

    /// The state after a write of `val` at `addr`.
    #[verifier::opaque]
    pub open spec fn write(self, addr: int, val: u8) -> MmuView {
        if addr < 0 {
            self
        } else if addr <= 0x1FFF {
            MmuView { ram_enable: val & 0x0F == 0x0A, rom: rom_write(self.rom, addr, val), ..self }
        } else if addr <= 0x3FFF {
            MmuView { rom_bank: bank_select(val), rom: rom_write(self.rom, addr, val), ..self }
        } else if addr <= 0x7FFF {
            MmuView { rom: rom_write(self.rom, addr, val), ..self }
        } else if addr <= 0x9FFF {
            MmuView { vram: self.vram.update(addr - 0x8000, val), ..self }
        } else if addr <= 0xBFFF {
            if self.ram_enable {
                MmuView { ext_ram: self.ext_ram.update(addr - 0xA000, val), ..self }
            } else {
                self
            }
        } else if addr <= 0xDFFF {
            MmuView { wram: self.wram.update(addr - 0xC000, val), ..self }
        } else if addr <= 0xFDFF {
            MmuView { wram: self.wram.update(addr - 0xE000, val), ..self }
        } else if addr <= 0xFE9F {
            MmuView { oam: self.oam.update(addr - 0xFE00, val), ..self }
        } else if addr <= 0xFEFF {
            self
        } else if addr <= 0xFF7F {
            MmuView { io: self.io.update(addr - 0xFF00, val), ..self }
        } else if addr <= 0xFFFE {
            MmuView { hram: self.hram.update(addr - 0xFF80, val), ..self }
        } else if addr == 0xFFFF {
            MmuView { ie: val, ..self }
        } else {
            self
        }
    }

    /// Whether a write at `addr` is stored so that a read at `addr` gives it back.
    pub open spec fn stores_at(self, addr: int) -> bool {
        ||| (0 <= addr <= 0x3FFF && addr < self.rom.len())
        ||| (0x4000 <= addr <= 0x7FFF && addr < self.rom.len() && self.rom_bank == 1)
        ||| (0x8000 <= addr <= 0x9FFF)
        ||| (0xA000 <= addr <= 0xBFFF && self.ram_enable)
        ||| (0xC000 <= addr <= 0xFE9F)
        ||| (0xFF00 <= addr <= 0xFFFF)
    }

    /// The full 64KB image: the byte read at each address.
    pub open spec fn image(self) -> Seq<u8> {
        Seq::new(0x10000, |i: int| self.read(i))
    }

    /// The state after its writable regions are loaded from the 64KB image `data`
    /// (ROM, bank and RAM enable are kept).
    pub open spec fn load_image(self, data: Seq<u8>) -> MmuView {
        if data.len() < 0x10000 {
            self
        } else {
            MmuView {
                vram: data.subrange(0x8000, 0xA000),
                ext_ram: data.subrange(0xA000, 0xC000),
                wram: data.subrange(0xC000, 0xE000),
                oam: data.subrange(0xFE00, 0xFEA0),
                io: data.subrange(0xFF00, 0xFF80),
                hram: data.subrange(0xFF80, 0xFFFF),
                ie: data[0xFFFF],
                ..self
            }
        }
    }
}

/// Every write keeps the memory well formed.
pub proof fn lemma_write_wf(m: MmuView, addr: int, val: u8)
    requires
        m.wf(),
    ensures
        m.write(addr, val).wf(),
{
    reveal(MmuView::write);
    assert(bank_select(val) <= 0x1F) by (bit_vector);
}

/// A read at an address that stores writes gives back the last byte written there.
pub proof fn lemma_read_after_write(m: MmuView, addr: int, val: u8)
    requires
        m.wf(),
        m.stores_at(addr),
    ensures
        m.write(addr, val).read(addr) == val,
{
    reveal(MmuView::read);
    reveal(MmuView::write);
}

/// A write to RAM or I/O (0x8000 and up) changes the byte read at no other cell: ROM,
/// banking state and every other RAM byte are left as they were.
pub proof fn lemma_write_frame(m: MmuView, addr: int, addr2: int, val: u8)
    requires
        m.wf(),
        0x8000 <= addr,
        cell(addr) != cell(addr2),
    ensures
        m.write(addr, val).read(addr2) == m.read(addr2),
        m.write(addr, val).rom == m.rom,
        m.write(addr, val).rom_bank == m.rom_bank,
        m.write(addr, val).ram_enable == m.ram_enable,
{
    reveal(MmuView::read);
    reveal(MmuView::write);
}

/// A write to OAM, I/O or high RAM stores the value there and changes the byte read at
/// no other address.
pub proof fn lemma_write_only_there(m: MmuView, addr: int, val: u8)
    requires
        m.wf(),
        (0xFE00 <= addr <= 0xFE9F) || (0xFF00 <= addr <= 0xFFFF),
    ensures
        m.write(addr, val).wf(),
        m.write(addr, val).read(addr) == val,
        forall|a: int| a != addr ==> #[trigger] m.write(addr, val).read(a) == m.read(a),
{
    lemma_write_wf(m, addr, val);
    lemma_read_after_write(m, addr, val);
    assert forall|a: int| a != addr implies #[trigger] m.write(addr, val).read(a) == m.read(a) by {
        lemma_write_frame(m, addr, a, val);
    }
}

/// Writes to the unusable region 0xFEA0-0xFEFF or beyond 0xFFFF change nothing, and so
/// do writes to external RAM while it is disabled.
pub proof fn lemma_ignored_writes(m: MmuView, addr: int, val: u8)
    requires
        (0xFEA0 <= addr <= 0xFEFF) || addr > 0xFFFF || (0xA000 <= addr <= 0xBFFF
            && !m.ram_enable),
    ensures
        m.write(addr, val) == m,
{
    reveal(MmuView::write);
}

/// The region 0xE000-0xFDFF reads as the work RAM 0x2000 below it.
pub proof fn lemma_echo_ram(m: MmuView, addr: int)
    requires
        0xE000 <= addr <= 0xFDFF,
    ensures
        m.read(addr) == m.read(addr - 0x2000),
{
    reveal(MmuView::read);
}

/// A write to 0x2000-0x3FFF selects the low five bits of the value as ROM bank, bank 0
/// meaning bank 1; the switchable window then reads from that bank.
pub proof fn lemma_bank_switch(m: MmuView, addr: int, val: u8, offset: int)
    requires
        m.wf(),
        0x2000 <= addr <= 0x3FFF,
        0 <= offset < 0x4000,
    ensures
        m.write(addr, val).rom_bank == bank_select(val),
        1 <= bank_select(val) <= 0x1F,
        ({
            let w = m.write(addr, val);
            let idx = bank_select(val) * 0x4000 + offset;
            w.read(0x4000 + offset) == if idx < w.rom.len() {
                w.rom[idx]
            } else {
                0xFF
            }
        }),
{
    reveal(MmuView::read);
    reveal(MmuView::write);
    assert(1 <= bank_select(val) <= 0x1F) by (bit_vector);
}

/// A write of `val` to 0x2000-0x3FFF selects ROM bank `val` mod 32, bank 0 meaning 1, so
/// every bank from 1 to 31 can be selected; the window 0x4000-0x7FFF then reads byte
/// `bank * 0x4000 + offset` of the ROM (0xFF past its end).
pub proof fn lemma_bank_number(m: MmuView, addr: int, val: u8, offset: int)
    requires
        m.wf(),
        0x2000 <= addr <= 0x3FFF,
        0 <= offset < 0x4000,
    ensures
        ({
            let bank: int = if val % 32 == 0 {
                1
            } else {
                (val % 32) as int
            };
            let w = m.write(addr, val);
            let idx = bank * 0x4000 + offset;
            &&& w.rom_bank == bank
            &&& w.read(0x4000 + offset) == if idx < m.rom.len() {
                m.rom[idx]
            } else {
                0xFF
            }
        }),
{
    reveal(MmuView::read);
    reveal(MmuView::write);
    assert(val & 0x1F == val % 32) by (bit_vector);
}

/// A write to 0x0000-0x1FFF enables external RAM exactly when the low nibble of the value
/// is 0xA; with it enabled a write to 0xA000-0xBFFF reads back, and with it disabled the
/// write is ignored.
pub proof fn lemma_external_ram_enable(m: MmuView, addr: int, val: u8, ram_addr: int, v: u8)
    requires
        m.wf(),
        0 <= addr <= 0x1FFF,
        0xA000 <= ram_addr <= 0xBFFF,
    ensures
        m.write(addr, val).ram_enable == (val % 16 == 10),
        val % 16 == 10 ==> m.write(addr, val).write(ram_addr, v).read(ram_addr) == v,
        val % 16 != 10 ==> m.write(addr, val).write(ram_addr, v) == m.write(addr, val),
{
    reveal(MmuView::read);
    reveal(MmuView::write);
    assert(val & 0x0F == val % 16) by (bit_vector);
}

/// Loading a memory image taken from the same memory changes nothing.
pub proof fn lemma_image_roundtrip(m: MmuView)
    requires
        m.wf(),
    ensures
        m.load_image(m.image()) == m,
{
    reveal(MmuView::read);
    let d = m.image();
    let l = m.load_image(d);
    assert(l.vram =~= m.vram) by {
        assert forall|i: int| 0 <= i < 0x2000 implies l.vram[i] == m.vram[i] by {
            assert(d[0x8000 + i] == m.read(0x8000 + i));
        }
    }
    assert(l.ext_ram =~= m.ext_ram) by {
        assert forall|i: int| 0 <= i < 0x2000 implies l.ext_ram[i] == m.ext_ram[i] by {
            assert(d[0xA000 + i] == m.read(0xA000 + i));
        }
    }
    assert(l.wram =~= m.wram) by {
        assert forall|i: int| 0 <= i < 0x2000 implies l.wram[i] == m.wram[i] by {
            assert(d[0xC000 + i] == m.read(0xC000 + i));
        }
    }
    assert(l.oam =~= m.oam) by {
        assert forall|i: int| 0 <= i < 0xA0 implies l.oam[i] == m.oam[i] by {
            assert(d[0xFE00 + i] == m.read(0xFE00 + i));
        }
    }
    assert(l.io =~= m.io) by {
        assert forall|i: int| 0 <= i < 0x80 implies l.io[i] == m.io[i] by {
            assert(d[0xFF00 + i] == m.read(0xFF00 + i));
        }
    }
    assert(l.hram =~= m.hram) by {
        assert forall|i: int| 0 <= i < 0x7F implies l.hram[i] == m.hram[i] by {
            assert(d[0xFF80 + i] == m.read(0xFF80 + i));
        }
    }
    assert(d[0xFFFF] == m.read(0xFFFF));
    assert(l =~= m);
}

/// After an image is loaded, every RAM and I/O address reads the image's byte at its cell;
/// the ROM and the banking state are those from before.
pub proof fn lemma_load_then_read(m: MmuView, data: Seq<u8>, addr: int)
    requires
        m.wf(),
        data.len() >= 0x10000,
        (0x8000 <= addr <= 0xFE9F) || (0xFF00 <= addr <= 0xFFFF),
    ensures
        m.load_image(data).wf(),
        m.load_image(data).read(addr) == data[cell(addr)],
        m.load_image(data).rom == m.rom,
        m.load_image(data).rom_bank == m.rom_bank,
        m.load_image(data).ram_enable == m.ram_enable,
{
    reveal(MmuView::read);
}

/// A zero-filled sequence of length `n`.
pub open spec fn zeros(n: nat) -> Seq<u8> {
    Seq::new(n, |i: int| 0u8)
}

impl Mmu {
    /// See [`MmuView::wf`].
    pub open spec fn wf(&self) -> bool {
        self@.wf()
    }

    /// A memory unit over `rom` with zeroed RAM, bank 1 and external RAM disabled.
    pub fn new(rom: Vec<u8>) -> (r: Mmu)
        ensures
            r.wf(),
            r@ == MmuView::initial(rom@),
    {
        let r = Mmu {
            rom,
            vram: zeroed(VRAM_SIZE),
            wram: zeroed(WRAM_SIZE),
            oam: zeroed(OAM_SIZE),
            io: zeroed(IO_SIZE),
            hram: zeroed(HRAM_SIZE),
            ie: 0,
            ext_ram: zeroed(EXT_RAM_SIZE),
            rom_bank: 1,
            ram_enable: false,
        };
        assert(r.vram@ =~= zeros(0x2000));
        assert(r.wram@ =~= zeros(0x2000));
        assert(r.oam@ =~= zeros(0xA0));
        assert(r.io@ =~= zeros(0x80));
        assert(r.hram@ =~= zeros(0x7F));
        assert(r.ext_ram@ =~= zeros(0x2000));
        r
    }

    /// Replaces the ROM with a copy of `data`, selects bank 1, disables external RAM and
    /// zeroes every RAM block.
    pub fn load_rom(&mut self, data: &[u8])
        requires
            old(self).wf(),
        ensures
            final(self).wf(),
            final(self)@ == old(self)@.with_rom(data@),
    {
        self.rom = copy_bytes(data);
        self.rom_bank = 1;
        self.ram_enable = false;
        zero_fill(&mut self.vram);
        zero_fill(&mut self.wram);
        zero_fill(&mut self.oam);
        zero_fill(&mut self.io);
        zero_fill(&mut self.hram);
        zero_fill(&mut self.ext_ram);
        assert(self.vram@ =~= zeros(0x2000));
        assert(self.wram@ =~= zeros(0x2000));
        assert(self.oam@ =~= zeros(0xA0));
        assert(self.io@ =~= zeros(0x80));
        assert(self.hram@ =~= zeros(0x7F));
        assert(self.ext_ram@ =~= zeros(0x2000));
        assert(self@.rom =~= data@);
    }

    /// Reads the byte at `addr`.
    pub fn read_u8(&self, addr: usize) -> (r: u8)
        requires
            self.wf(),
        ensures
            r == self@.read(addr as int),
    {
        proof {
            reveal(MmuView::read);
        }
        if addr <= 0x3FFF {
            // Bank 0
            if addr < self.rom.len() {
                self.rom[addr]
            } else {
                0xFF
            }
        } else if addr <= 0x7FFF {
            // switchable bank
            let bank = self.rom_bank;
            let base = bank * 0x4000;
            let offset = addr - 0x4000;
            let idx = base + offset;
            if idx < self.rom.len() {
                self.rom[idx]
            } else {
                0xFF
            }
        } else if addr <= 0x9FFF {
            self.vram[addr - 0x8000]
        } else if addr <= 0xBFFF {
            // external RAM (battery)
            self.ext_ram[addr - 0xA000]
        } else if addr <= 0xDFFF {
            self.wram[addr - 0xC000]
        } else if addr <= 0xFDFF {
            // echo of C000-DDFF
            self.wram[addr - 0xE000]
        } else if addr <= 0xFE9F {
            self.oam[addr - 0xFE00]
        } else if addr <= 0xFEFF {
            0xFF
        } else if addr <= 0xFF7F {
            self.io[addr - 0xFF00]
        } else if addr <= 0xFFFE {
            self.hram[addr - 0xFF80]
        } else if addr == 0xFFFF {
            self.ie
        } else {
            0xFF
        }
    }

    /// Writes `val` at `addr`; writes to 0x0000-0x7FFF also drive the bank controller.
    pub fn write_u8(&mut self, addr: usize, val: u8)
        requires
            old(self).wf(),
        ensures
            final(self).wf(),
            final(self)@ == old(self)@.write(addr as int, val),
    {
        proof {
            reveal(MmuView::write);
        }
        if addr <= 0x1FFF {
            // RAM enable (MBC)
            self.ram_enable = (val & 0x0F) == 0x0A;
            // Also allow writing into ROM area for unit tests / simple images
            if addr < self.rom.len() {
                self.rom[addr] = val;
            }
        } else if addr <= 0x3FFF {
            // ROM bank low 5 bits
            let mut bank = (val & 0x1F) as usize;
            if bank == 0 {
                bank = 1;
            }
            self.rom_bank = bank;
            if addr < self.rom.len() {
                self.rom[addr] = val;
            }
        } else if addr <= 0x7FFF {
            // RAM bank number / banking mode select: stored into the ROM image when inside it
            if addr < self.rom.len() {
                self.rom[addr] = val;
            }
        } else if addr <= 0x9FFF {
            self.vram[addr - 0x8000] = val;
        } else if addr <= 0xBFFF {
            if self.ram_enable {
                self.ext_ram[addr - 0xA000] = val;
            }
        } else if addr <= 0xDFFF {
            self.wram[addr - 0xC000] = val;
        } else if addr <= 0xFDFF {
            self.wram[addr - 0xE000] = val;
        } else if addr <= 0xFE9F {
            self.oam[addr - 0xFE00] = val;
        } else if addr <= 0xFEFF {
            // unusable region: ignored
        } else if addr <= 0xFF7F {
            self.io[addr - 0xFF00] = val;
        } else if addr <= 0xFFFE {
            self.hram[addr - 0xFF80] = val;
        } else if addr == 0xFFFF {
            self.ie = val;
        }
        assert(self@ =~= old(self)@.write(addr as int, val));
    }

    /// A full 64KB memory image: the byte read at each address.
    pub fn dump_mem(&self) -> (r: Vec<u8>)
        requires
            self.wf(),
        ensures
            r@ == self@.image(),
    {
        let mut mem: Vec<u8> = Vec::with_capacity(MEM_IMAGE_SIZE);
        let mut addr: usize = 0;
        while addr < MEM_IMAGE_SIZE
            invariant
                self.wf(),
                addr <= MEM_IMAGE_SIZE,
                mem@.len() == addr,
                forall|i: int| 0 <= i < addr ==> mem@[i] == self@.read(i),
            decreases MEM_IMAGE_SIZE - addr,
        {
            let b = self.read_u8(addr);
            mem.push(b);
            addr = addr + 1;
        }
        assert(mem@ =~= self@.image());
        mem
    }

    /// Loads the writable regions from a 64KB image; a shorter `data` changes nothing.
    /// ROM and banking state are kept.
    pub fn load_from_mem(&mut self, data: &[u8])
        requires
            data@.len() >= MEM_IMAGE_SIZE ==> old(self).wf(),
        ensures
            old(self).wf() ==> final(self).wf(),
            final(self)@ == old(self)@.load_image(data@),
    {
        if data.len() < MEM_IMAGE_SIZE {
            return;
        }
        copy_region(&mut self.vram, data, 0x8000);
        copy_region(&mut self.ext_ram, data, 0xA000);
        copy_region(&mut self.wram, data, 0xC000);
        copy_region(&mut self.oam, data, 0xFE00);
        copy_region(&mut self.io, data, 0xFF00);
        copy_region(&mut self.hram, data, 0xFF80);
        self.ie = data[0xFFFF];
        assert(self@ =~= old(self)@.load_image(data@));
    }
}

/// A vector of `n` zero bytes.
fn zeroed(n: usize) -> (r: Vec<u8>)
    ensures
        r@ == zeros(n as nat),
{
    let mut v: Vec<u8> = Vec::with_capacity(n);
    let mut i: usize = 0;
    while i < n
        invariant
            i <= n,
            v@ == zeros(i as nat),
        decreases n - i,
    {
        v.push(0);
        i = i + 1;
        assert(v@ =~= zeros(i as nat));
    }
    v
}

/// Sets every byte of `v` to zero.
fn zero_fill(v: &mut Vec<u8>)
    ensures
        final(v)@ == zeros(old(v)@.len()),
{
    let n = v.len();
    let mut i: usize = 0;
    while i < n
        invariant
            i <= n,
            v@.len() == n,
            forall|j: int| 0 <= j < i ==> v@[j] == 0,
        decreases n - i,
    {
        v[i] = 0;
        i = i + 1;
    }
    assert(v@ =~= zeros(n as nat));
}

/// A vector holding a copy of `data`.
fn copy_bytes(data: &[u8]) -> (r: Vec<u8>)
    ensures
        r@ == data@,
{
    let mut v: Vec<u8> = Vec::with_capacity(data.len());
    let mut i: usize = 0;
    while i < data.len()
        invariant
            i <= data@.len(),
            v@ == data@.subrange(0, i as int),
        decreases data@.len() - i,
    {
        v.push(data[i]);
        i = i + 1;
        assert(v@ =~= data@.subrange(0, i as int));
    }
    assert(data@.subrange(0, data@.len() as int) =~= data@);
    v
}

/// Overwrites `dst` with the bytes of `data` from `start` on.
fn copy_region(dst: &mut Vec<u8>, data: &[u8], start: usize)
    requires
        start + old(dst)@.len() <= data@.len(),
    ensures
        final(dst)@ == data@.subrange(start as int, start + old(dst)@.len()),
{
    let n = dst.len();
    let dl = data.len();
    let mut i: usize = 0;
    while i < n
        invariant
            i <= n,
            dst@.len() == n,
            dl == data@.len(),
            start + n <= dl,
            forall|j: int| 0 <= j < i ==> dst@[j] == data@[start + j],
        decreases n - i,
    {
        dst[i] = data[start + i];
        i = i + 1;
    }
    assert(dst@ =~= data@.subrange(start as int, start + n));
}

} // verus!
