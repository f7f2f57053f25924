//! A Game Boy (DMG-01) emulator core: CPU, memory bus, cartridge banking,
//! picture processing unit, timer and joypad, each with its behaviour stated
//! as a contract over a mathematical model of its state.

pub mod registers;
pub mod instructions;
pub mod joypad;
pub mod timer;
pub mod cartridge;
pub mod ppu;
pub mod memory;
pub mod cpu;
pub mod control;
pub mod gameboy;
