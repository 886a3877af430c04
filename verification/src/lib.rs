//! A Game Boy (Color) emulator core: LR35902 processor, memory map with simple MBC1
//! banking, PPU with background and sprite rendering, joypad register, and save states.
use vstd::prelude::*;
use vstd::bytes::{spec_u32_from_le_bytes, spec_u32_to_le_bytes};

pub mod cpu;
pub mod joypad;
pub mod mmu;
pub mod ppu;
pub mod video;

use crate::cpu::{Cpu, lemma_state_roundtrip, lemma_step_cycles, CPU_STATE_SIZE};
use crate::mmu::{Mmu, MmuView, lemma_image_roundtrip, MEM_IMAGE_SIZE};
use crate::ppu::{Ppu, PpuView};

verus! {

/// Screen width in pixels.
pub const WIDTH: usize = 160;
/// Screen height in pixels.
pub const HEIGHT: usize = 144;
/// CPU cycles in one frame.
pub const CYCLES_PER_FRAME: u32 = 70224;
/// Bytes of the frame counter at the start of a save state.
pub const FRAME_COUNTER_SIZE: usize = 4;

/// The whole machine.
pub struct Emulator {
    cpu: Cpu,
    mmu: Mmu,
    ppu: Ppu,
    frame_counter: u32,
}

/// The content of an [`Emulator`].
pub struct EmulatorView {
    pub cpu: Cpu,
    pub mmu: MmuView,
    pub ppu: PpuView,
    pub frame_counter: u32,
}

impl View for Emulator {
    type V = EmulatorView;

    closed spec fn view(&self) -> EmulatorView {
        EmulatorView {
            cpu: self.cpu,
            mmu: self.mmu@,
            ppu: self.ppu@,
            frame_counter: self.frame_counter,
        }
    }
}

/// Runs instructions, each followed by the PPU for its cycles, until `cycles` reaches the
/// cycles of a frame.
pub open spec fn run_frame(cpu: Cpu, m: MmuView, ppu: PpuView, cycles: u32) -> (
    Cpu,
    MmuView,
    PpuView,
)
    decreases CYCLES_PER_FRAME + 24 - cycles,
{
    if cycles >= CYCLES_PER_FRAME {
        (cpu, m, ppu)
    } else {
        let (c1, m1, n) = cpu.spec_step(m);
        let (p1, m2) = ppu.spec_step(n as u32, m1);
        proof {
            lemma_step_cycles(cpu, m);
        }
        run_frame(c1, m2, p1, (cycles + n) as u32)
    }
}

impl EmulatorView {
    /// Memory and PPU well formed.
    pub open spec fn wf(self) -> bool {
        self.mmu.wf() && self.ppu.wf()
    }

    /// The save state: the frame counter (4 bytes, little-endian), the processor state
    /// (12 bytes) and the 64KB memory image.
    pub open spec fn saved_bytes(self) -> Seq<u8> {
        spec_u32_to_le_bytes(self.frame_counter) + self.cpu.state_bytes() + self.mmu.image()
    }

    /// The state after loading the save state `data`: nothing changes with fewer than 4
    /// bytes; the frame counter is taken from the first 4; with at least 16 bytes the
    /// processor state comes from the next 12 and the writable memory from the rest.
    pub open spec fn loaded(self, data: Seq<u8>) -> EmulatorView {
        if data.len() < FRAME_COUNTER_SIZE {
            self
        } else if data.len() < FRAME_COUNTER_SIZE + CPU_STATE_SIZE {
            EmulatorView { frame_counter: spec_u32_from_le_bytes(data.subrange(0, 4)), ..self }
        } else {
            EmulatorView {
                frame_counter: spec_u32_from_le_bytes(data.subrange(0, 4)),
                cpu: Cpu::from_state_bytes(data.subrange(4, 16)),
                mmu: self.mmu.load_image(data.subrange(16, data.len() as int)),
                ..self
            }
        }
    }
}

impl Emulator {
    /// See [`EmulatorView::wf`]; established by [`Emulator::new`] and kept by every
    /// method.
    pub open spec fn wf(&self) -> bool {
        self@.wf()
    }

    /// A machine with no ROM, zeroed memory, and processor and PPU at power-up.
    pub fn new() -> (r: Emulator)
        ensures
            r.wf(),
            r@ == (EmulatorView {
                cpu: Cpu::initial(),
                mmu: MmuView::initial(Seq::empty()),
                ppu: PpuView::initial(),
                frame_counter: 0,
            }),
    {
        let mmu = Mmu::new(Vec::new());
        let r = Emulator { cpu: Cpu::new(), mmu, ppu: Ppu::new(), frame_counter: 0 };
        assert(r.mmu@.rom =~= Seq::empty());
        r
    }

    /// Loads a ROM (see [`Mmu::load_rom`]), resets the frame counter and the processor.
    pub fn load_rom(&mut self, data: &[u8])
        requires
            old(self).wf(),
        ensures
            final(self).wf(),
            final(self)@ == (EmulatorView {
                cpu: Cpu::post_boot(),
                mmu: old(self)@.mmu.with_rom(data@),
                frame_counter: 0,
                ..old(self)@
            }),
    {
        self.mmu.load_rom(data);
        self.frame_counter = 0;
        self.cpu.reset();
    }

    /// Runs one frame: instructions with the PPU after each, until a frame's worth of
    /// cycles has been spent (see [`run_frame`]), then counts the frame.
    pub fn step_frame(&mut self)
        requires
            old(self).wf(),
        ensures
            final(self).wf(),
            (final(self)@.cpu, final(self)@.mmu, final(self)@.ppu) == run_frame(
                old(self)@.cpu,
                old(self)@.mmu,
                old(self)@.ppu,
                0,
            ),
            final(self)@.frame_counter == (old(self)@.frame_counter + 1) % 0x1_0000_0000,
    {
        let ghost target = run_frame(self.cpu, self.mmu@, self.ppu@, 0);
        let mut cycles = 0u32;
        while cycles < CYCLES_PER_FRAME
            invariant
                self.mmu.wf(),
                self.ppu.wf(),
                self.frame_counter == old(self).frame_counter,
                cycles <= CYCLES_PER_FRAME + 24,
                run_frame(self.cpu, self.mmu@, self.ppu@, cycles) == target,
            decreases CYCLES_PER_FRAME + 24 - cycles,
        {
            proof {
                lemma_step_cycles(self.cpu, self.mmu@);
            }
            let c = self.cpu.step(&mut self.mmu);
            self.ppu.step(c as u32, &mut self.mmu);
            cycles = cycles.wrapping_add(c as u32);
        }
        self.frame_counter = self.frame_counter.wrapping_add(1);
    }

    /// A copy of the current RGBA frame.
    pub fn render_frame(&mut self) -> (r: Vec<u8>)
        requires
            old(self).wf(),
        ensures
            r@ == old(self)@.ppu.frame,
            final(self)@ == old(self)@,
    {
        self.ppu.render_frame()
    }

    /// The save state (see [`EmulatorView::saved_bytes`]).
    pub fn save_state(&self) -> (r: Vec<u8>)
        requires
            self.wf(),
        ensures
            r@ == self@.saved_bytes(),
    {
        // frame_counter (4) + cpu state + full memory dump
        let cpu_state = self.cpu.serialize();
        let mem = self.mmu.dump_mem();
        let mut out: Vec<u8> = Vec::with_capacity(FRAME_COUNTER_SIZE + cpu_state.len() + mem.len());
        let fc = vstd::bytes::u32_to_le_bytes(self.frame_counter);
        out.extend_from_slice(fc.as_slice());
        out.extend_from_slice(cpu_state.as_slice());
        out.extend_from_slice(mem.as_slice());
        assert(out@ =~= self@.saved_bytes());
        out
    }

    /// Loads a save state (see [`EmulatorView::loaded`]).
    pub fn load_state(&mut self, data: &[u8])
        requires
            old(self).wf(),
        ensures
            final(self)@ == old(self)@.loaded(data@),
            final(self).wf(),
    {
        if data.len() < FRAME_COUNTER_SIZE {
            return;
        }
        self.frame_counter = vstd::bytes::u32_from_le_bytes(&data[0..4]);
        let cpu_state_size = Cpu::state_size();
        if data.len() < FRAME_COUNTER_SIZE + cpu_state_size {
            return;
        }
        let cpu_bytes = &data[4..4 + cpu_state_size];
        self.cpu.deserialize(cpu_bytes);
        let mem_data = &data[4 + cpu_state_size..data.len()];
        self.mmu.load_from_mem(mem_data);
    }

    pub fn screen_width(&self) -> (r: usize)
        ensures
            r == WIDTH,
    {
        WIDTH
    }

    pub fn screen_height(&self) -> (r: usize)
        ensures
            r == HEIGHT,
    {
        HEIGHT
    }
}

/// Loading the save state of a machine gives back the same machine: frame counter,
/// processor, memory and PPU.
pub proof fn lemma_save_load_roundtrip(e: EmulatorView)
    requires
        e.wf(),
    ensures
        e.loaded(e.saved_bytes()) == e,
{
    let d = e.saved_bytes();
    vstd::bytes::lemma_auto_spec_u32_to_from_le_bytes();
    lemma_state_roundtrip(e.cpu);
    lemma_image_roundtrip(e.mmu);
    assert(d.len() == 4 + 12 + MEM_IMAGE_SIZE);
    assert(d.subrange(0, 4) =~= spec_u32_to_le_bytes(e.frame_counter));
    assert(d.subrange(4, 16) =~= e.cpu.state_bytes());
    assert(d.subrange(16, d.len() as int) =~= e.mmu.image());
}

/// A save state of well-formed memory always holds the frame counter, the processor state
/// and a full 64KB image.
pub proof fn lemma_save_state_size(e: EmulatorView)
    ensures
        e.saved_bytes().len() == FRAME_COUNTER_SIZE + CPU_STATE_SIZE + MEM_IMAGE_SIZE,
{
    vstd::bytes::lemma_auto_spec_u32_to_from_le_bytes();
    lemma_state_roundtrip(e.cpu);
}

} // verus!
