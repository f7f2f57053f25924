//! The console: a CPU with its bus, a cartridge slot, the screen and the buttons.
use vstd::prelude::*;
use crate::cartridge::CartridgeView;
use crate::control::{lemma_power_on_inv, lemma_step_preserves_inv};
use crate::cpu::{CPU, CpuView};
use crate::joypad::{JoypadButton, JoypadState};
use crate::memory::BusView;
use crate::ppu::{Color, rgb_of};

verus! {

/// The state after stepping until the CPU halts, at most `n` steps.
pub open spec fn run_spec(s: CpuView, n: nat) -> CpuView
    decreases n,
{
    if n == 0 {
        s
    } else {
        let t = s.step_spec();
        if t.halted {
            t
        } else {
            run_spec(t, (n - 1) as nat)
        }
    }
}

/// A Game Boy.
pub struct GameBoy {
    pub cpu: CPU,
}

impl GameBoy {
    /// A console at power-on, with the boot ROM mapped and no cartridge.
    pub fn new() -> (gb: GameBoy)
        ensures
            gb.cpu@ == CpuView::power_on(),
            gb.cpu@.inv(),
    {
        proof {
            lemma_power_on_inv();
        }
        GameBoy { cpu: CPU::new() }
    }

    /// Inserts a cartridge and starts at its entry point 0x0100 with the boot ROM
    /// unmapped.
    pub fn load_cartridge(&mut self, rom_data: Vec<u8>)
        ensures
            final(self).cpu@ == (CpuView {
                pc: 0x0100,
                bus: BusView {
                    cartridge: Some(CartridgeView::loaded(rom_data@)),
                    boot_rom_enabled: false,
                    ..old(self).cpu@.bus
                },
                ..old(self).cpu@
            }),
            old(self).cpu@.inv() ==> final(self).cpu@.inv(),
    {
        self.cpu.bus.load_cartridge(rom_data);
        self.cpu.pc = 0x0100;
        self.cpu.bus.boot_rom_enabled = false;
    }

    /// Runs one CPU step (and the devices with it).
    pub fn step(&mut self)
        requires
            old(self).cpu@.step_ok(),
        ensures
            final(self).cpu@ == old(self).cpu@.step_spec(),
    {
        self.cpu.step();
    }

    /// Steps until the CPU halts, at most `max_steps` times; returns whether it
    /// halted.
    pub fn run_until_halted(&mut self, max_steps: u64) -> (halted: bool)
        requires
            old(self).cpu@.inv(),
        ensures
            final(self).cpu@ == run_spec(old(self).cpu@, max_steps as nat),
            halted == final(self).cpu.halted,
            final(self).cpu@.inv(),
    {
        let mut i: u64 = 0;
        while i < max_steps
            invariant
                i <= max_steps,
                self.cpu@.inv(),
                run_spec(old(self).cpu@, max_steps as nat) == run_spec(
                    self.cpu@,
                    (max_steps - i) as nat,
                ),
            decreases max_steps - i,
        {
            proof {
                lemma_step_preserves_inv(self.cpu@);
            }
            self.cpu.step();
            if self.cpu.halted {
                return true;
            }
            i = i + 1;
        }
        self.cpu.halted
    }

    /// The screen, one color per pixel, row by row.
    pub fn get_framebuffer(&self) -> (r: &[Color; 23040])
        ensures
            r@ == self.cpu.bus.ppu.framebuffer@,
    {
        self.cpu.bus.ppu.get_framebuffer()
    }

    /// The screen as RGB triples, row by row.
    pub fn get_framebuffer_rgb(&self) -> (r: Vec<(u8, u8, u8)>)
        ensures
            r@.len() == 23040,
            forall|i: int| 0 <= i < 23040 ==> r@[i] == rgb_of(self.cpu.bus.ppu.framebuffer@[i]),
    {
        let framebuffer = self.cpu.bus.ppu.get_framebuffer();
        let mut out: Vec<(u8, u8, u8)> = Vec::new();
        let mut i: usize = 0;
        while i < 23040
            invariant
                i <= 23040,
                framebuffer@ == self.cpu.bus.ppu.framebuffer@,
                out@.len() == i,
                forall|j: int| 0 <= j < i ==> out@[j] == rgb_of(framebuffer@[j]),
            decreases 23040 - i,
        {
            out.push(framebuffer[i].to_rgb());
            i = i + 1;
        }
        out
    }

    /// Holds `button` down.
    pub fn press_button(&mut self, button: JoypadButton)
        ensures
            final(self).cpu@ == (CpuView {
                bus: BusView {
                    joypad: old(self).cpu@.bus.joypad.after_button(button, true),
                    ..old(self).cpu@.bus
                },
                ..old(self).cpu@
            }),
    {
        self.cpu.press_button(button);
    }

    /// Lets `button` go.
    pub fn release_button(&mut self, button: JoypadButton)
        ensures
            final(self).cpu@ == (CpuView {
                bus: BusView {
                    joypad: old(self).cpu@.bus.joypad.after_button(button, false),
                    ..old(self).cpu@.bus
                },
                ..old(self).cpu@
            }),
    {
        self.cpu.release_button(button);
    }

    /// Which buttons are held.
    pub fn get_joypad_state(&self) -> (r: JoypadState)
        ensures
            r == self.cpu.bus.joypad.state,
    {
        self.cpu.get_joypad_state()
    }
}

} // verus!
