# dmg-01

A Game Boy (DMG-01) emulator core written in Verus. Each component's behaviour
is stated as a contract over a mathematical model of its state, and Verus
proves the code against it.

- `src/registers.rs`: the CPU registers, the flags byte and the 16-bit pairs.
- `src/instructions.rs`: the instruction set.
- `src/cpu.rs`: the CPU, the meaning of every instruction (`CpuView::execute_spec`)
  and the decoding tables.
- `src/control.rs`: fetch and decode, interrupt dispatch, the step that runs the
  CPU and the devices, and the invariant that every step keeps.
- `src/memory.rs`: the memory bus and its address map.
- `src/cartridge.rs`: ROM/RAM banking (no controller, MBC1, MBC3).
- `src/ppu.rs`: the picture processing unit: timing, registers and rendering.
- `src/timer.rs`, `src/joypad.rs`: the timer and the buttons.
- `src/gameboy.rs`: the console.
- `app/main.rs`: the program that opens a window and runs a ROM.
- `tests/`: tests on concrete values.
