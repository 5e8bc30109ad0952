pub mod helper;
pub mod controller;
pub mod ppu;
pub mod emu;
pub mod isa;
pub mod opcodes;
pub mod screen;
pub mod loader;
pub mod validity;
