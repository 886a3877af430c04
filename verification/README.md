# gbc_wasm

A Game Boy (Color) emulator core written in Verus, with a WebAssembly binding for a
browser frontend.

- `src/` is the verified core:
  - `mmu.rs`: the memory map (ROM with MBC1-style banking, VRAM, external RAM, work RAM
    and its echo, OAM, I/O, high RAM, IE) as a mathematical view, with read-after-write,
    echo, banking and memory-image round-trip lemmas;
  - `cpu.rs`: registers, flags, state (de)serialization and the interpreter of the
    implemented opcodes, specified instruction by instruction;
  - `video.rs`: what a frame shows, as a function of video memory and LCD registers;
  - `ppu.rs`: scanline timing, LY/LYC, STAT modes, VBlank/STAT interrupts and rendering;
  - `joypad.rs`: the P1 register;
  - `lib.rs`: the whole machine, frame stepping and save states.
- `app/` holds the `wasm_bindgen` wrapper exported to JavaScript and the audio unit,
  whose samples are floating point.
- `tests/` exercise the core on concrete programs and images.
