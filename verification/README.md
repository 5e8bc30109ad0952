# nesemu

A small NES emulator whose core is verified with Verus: the 6502 CPU, the memory bus, the
PPU registers and timing, the controller, the iNES loader (mapper 0) and the software
renderer. The program around it (window, keyboard, files) uses SDL2.

Layout:

- `src/helper.rs`: byte and word helpers, and the RGB colour type.
- `src/controller.rs`: the standard controller (strobe and serial read) and its keys.
- `src/ppu.rs`: the PPU state, its model, its registers, its address space and its timing.
- `src/emu.rs`: the console state, its model, the CPU memory map (reads, writes, OAM DMA),
  the stack, fetching and the NMI.
- `src/isa.rs`: the opcode table and the meaning of every instruction (`spec_step`), with
  the laws that relate instructions (JSR/RTS, BRK/RTI, PHA/PLA, ...).
- `src/opcodes.rs`: the executable instructions, each proved against `spec_exec`.
- `src/validity.rs`: `Nes::can_step`, which tells whether the next instruction has a meaning,
  so that unverified callers can meet the precondition of `Nes::step`.
- `src/screen.rs`: the frame buffer, tile and sprite drawing, background and sprite rendering.
- `src/loader.rs`: the iNES header and mapper 0.
- `app/main.rs`: the SDL2 front end (not verified).

Arithmetic that overflows on the 6502 (register increments, PC and SP, address sums) wraps.
A memory access that the hardware model gives no meaning to (reading a write-only PPU
register, writing ROM, reaching the name tables before a mirroring is set) is excluded by the
preconditions of the functions that would make it.
