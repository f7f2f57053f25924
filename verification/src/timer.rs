//! The timer: DIV, TIMA, TMA and TAC (0xFF04-0xFF07).
use vstd::prelude::*;

verus! {

/// Timer state. `div_counter` counts CPU cycles and DIV is its high byte; while TAC
/// bit 2 is set, `timer_counter` accumulates cycles and TIMA advances once per
/// period that TAC's low bits select, reloading from TMA when it overflows.
pub struct Timer {
    pub div_counter: u16,
    pub div_register: u8,
    pub tima: u8,
    pub tma: u8,
    pub tac: u8,
    pub timer_counter: u16,
    pub timer_overflow: bool,
}

/// The number of CPU cycles between two increments of TIMA for a TAC value.
pub open spec fn timer_period(tac: u8) -> u16 {
    let sel = tac & 0x03;
    if sel == 0 {
        1024
    } else if sel == 1 {
        16
    } else if sel == 2 {
        64
    } else {
        256
    }
}

/// TIMA after `n` increments from `tima`, and whether any of them overflowed:
/// an increment from 0xFF reloads TMA instead.
pub open spec fn tima_after_ticks(tima: u8, tma: u8, n: nat) -> (u8, bool)
    decreases n,
{
    if n == 0 {
        (tima, false)
    } else {
        let (t, o) = tima_after_ticks(tima, tma, (n - 1) as nat);
        if t == 0xFF {
            (tma, true)
        } else {
            ((t + 1) as u8, o)
        }
    }
}

impl Timer {
    pub open spec fn enabled(self) -> bool {
        self.tac & 0x04 != 0
    }

    /// The cycles that one step of `cycles` adds to a 16-bit counter (the count is
    /// taken modulo 2^16).
    pub open spec fn added(counter: u16, cycles: u32) -> int {
        (counter + cycles % 0x10000) % 0x10000
    }

    /// The number of TIMA increments that a step of `cycles` makes.
    pub open spec fn ticks(self, cycles: u32) -> nat {
        if self.enabled() {
            (Timer::added(self.timer_counter, cycles) / timer_period(self.tac) as int) as nat
        } else {
            0
        }
    }

    /// Whether a step of `cycles` overflows TIMA (and so requests the timer interrupt).
    pub open spec fn step_interrupt(self, cycles: u32) -> bool {
        tima_after_ticks(self.tima, self.tma, self.ticks(cycles)).1
    }

    /// The timer after a step of `cycles` CPU cycles.
    #[verifier::opaque]
    pub open spec fn stepped(self, cycles: u32) -> Timer {
        let div = Timer::added(self.div_counter, cycles);
        let (t, o) = tima_after_ticks(self.tima, self.tma, self.ticks(cycles));
        Timer {
            div_counter: div as u16,
            div_register: (div / 256) as u8,
            tima: t,
            timer_overflow: self.timer_overflow || o,
            timer_counter: if self.enabled() {
                (Timer::added(self.timer_counter, cycles) % timer_period(self.tac) as int) as u16
            } else {
                self.timer_counter
            },
            ..self
        }
    }

    /// What the timer register at `address` reads as.
    pub open spec fn register_value(self, address: u16) -> u8 {
        if address == 0xFF04 {
            self.div_register
        } else if address == 0xFF05 {
            self.tima
        } else if address == 0xFF06 {
            self.tma
        } else if address == 0xFF07 {
            self.tac | 0xF8
        } else {
            0xFF
        }
    }

    /// The timer after `value` is written to the register at `address`: a write to
    /// DIV clears the whole divider, a write to TAC keeps its low three bits and
    /// restarts the TIMA period.
    pub open spec fn after_write(self, address: u16, value: u8) -> Timer {
        if address == 0xFF04 {
            Timer { div_counter: 0, div_register: 0, ..self }
        } else if address == 0xFF05 {
            Timer { tima: value, ..self }
        } else if address == 0xFF06 {
            Timer { tma: value, ..self }
        } else if address == 0xFF07 {
            Timer { tac: value & 0x07, timer_counter: 0, ..self }
        } else {
            self
        }
    }

    /// All registers and counters zero, the timer stopped.
    pub fn new() -> (t: Timer)
        ensures
            t.div_counter == 0 && t.div_register == 0 && t.tima == 0 && t.tma == 0,
            t.tac == 0 && t.timer_counter == 0 && !t.timer_overflow,
    {
        Timer {
            div_counter: 0,
            div_register: 0,
            tima: 0,
            tma: 0,
            tac: 0,
            timer_counter: 0,
            timer_overflow: false,
        }
    }

    /// Advances the timer by `cycles` CPU cycles; returns whether TIMA overflowed.
    pub fn step(&mut self, cycles: u32) -> (interrupt: bool)
        ensures
            *final(self) == old(self).stepped(cycles),
            interrupt == old(self).step_interrupt(cycles),
    {
        reveal(Timer::stepped);
        let ghost old_self = *self;
        let mut interrupt_requested = false;
        let c16 = cycles as u16;
        proof {
            assert(c16 == cycles % 0x10000) by (bit_vector)
                requires
                    c16 == cycles as u16,
            ;
        }
        self.div_counter = self.div_counter.wrapping_add(c16);
        self.div_register = (self.div_counter >> 8) as u8;
        proof {
            let d = self.div_counter;
            assert((d >> 8) as u8 == d / 256) by (bit_vector);
        }
        if self.is_timer_enabled() {
            let period = self.get_timer_frequency();
            self.timer_counter = self.timer_counter.wrapping_add(c16);
            let ghost sum = self.timer_counter as int;
            let ghost mut k: nat = 0;
            while self.timer_counter >= period
                invariant
                    period == timer_period(old_self.tac),
                    period > 0,
                    sum == Timer::added(old_self.timer_counter, cycles),
                    sum == self.timer_counter + k * period,
                    (self.tima, interrupt_requested) == tima_after_ticks(
                        old_self.tima,
                        old_self.tma,
                        k,
                    ),
                    self.timer_overflow == (old_self.timer_overflow || interrupt_requested),
                    self.tma == old_self.tma,
                    self.tac == old_self.tac,
                    self.div_counter == old_self.stepped(cycles).div_counter,
                    self.div_register == old_self.stepped(cycles).div_register,
                decreases self.timer_counter,
            {
                self.timer_counter = self.timer_counter - period;
                if self.tima == 0xFF {
                    self.tima = self.tma;
                    self.timer_overflow = true;
                    interrupt_requested = true;
                } else {
                    self.tima = self.tima.wrapping_add(1);
                }
                proof {
                    k = k + 1;
                }
            }
            proof {
                vstd::arithmetic::div_mod::lemma_fundamental_div_mod_converse(
                    sum,
                    period as int,
                    k as int,
                    self.timer_counter as int,
                );
            }
        }
        interrupt_requested
    }

    fn is_timer_enabled(&self) -> (r: bool)
        ensures
            r == self.enabled(),
    {
        (self.tac & 0x04) != 0
    }

    fn get_timer_frequency(&self) -> (r: u16)
        ensures
            r == timer_period(self.tac),
    {
        let sel = self.tac & 0x03;
        if sel == 0 {
            1024
        } else if sel == 1 {
            16
        } else if sel == 2 {
            64
        } else {
            256
        }
    }

    /// Reads a timer register; TAC's unused upper bits read as 1.
    pub fn read_register(&self, address: u16) -> (r: u8)
        ensures
            r == self.register_value(address),
    {
        match address {
            0xFF04 => self.div_register,
            0xFF05 => self.tima,
            0xFF06 => self.tma,
            0xFF07 => self.tac | 0xF8,
            _ => 0xFF,
        }
    }

    /// Writes a timer register.
    pub fn write_register(&mut self, address: u16, value: u8)
        ensures
            *final(self) == old(self).after_write(address, value),
    {
        match address {
            0xFF04 => {
                self.div_counter = 0;
                self.div_register = 0;
            },
            0xFF05 => {
                self.tima = value;
            },
            0xFF06 => {
                self.tma = value;
            },
            0xFF07 => {
                self.tac = value & 0x07;
                self.timer_counter = 0;
            },
            _ => {},
        }
    }

    /// Reports whether TIMA has overflowed since the last check, and clears the flag.
    pub fn check_and_clear_overflow(&mut self) -> (r: bool)
        ensures
            r == old(self).timer_overflow,
            *final(self) == (Timer { timer_overflow: false, ..*old(self) }),
    {
        if self.timer_overflow {
            self.timer_overflow = false;
            true
        } else {
            false
        }
    }
}

/// What a timer register reads after a write: TIMA and TMA read back the byte,
/// TAC its low three bits (the others read as 1), and DIV reads 0.
pub proof fn lemma_register_round_trip(t: Timer, value: u8)
    ensures
        t.after_write(0xFF04, value).register_value(0xFF04) == 0,
        t.after_write(0xFF05, value).register_value(0xFF05) == value,
        t.after_write(0xFF06, value).register_value(0xFF06) == value,
        t.after_write(0xFF07, value).register_value(0xFF07) == (value & 0x07) | 0xF8,
{
    assert((value & 0x07) | 0xF8 == (value & 0x07) | 0xF8);
}

/// Taking the overflow flag clears it and changes nothing else, so a second take
/// right after reports no overflow.
pub proof fn lemma_overflow_taken(t: Timer)
    ensures
        !(Timer { timer_overflow: false, ..t }).timer_overflow,
        (Timer { timer_overflow: false, ..t }).tima == t.tima,
        (Timer { timer_overflow: false, ..t }).div_counter == t.div_counter,
        (Timer { timer_overflow: false, ..t }).timer_counter == t.timer_counter,
{
}

/// With the timer enabled and its period counter at zero, TIMA advances once
/// in exactly 1024, 16, 64 or 256 CPU cycles for TAC's low bits 00, 01, 10 and
/// 11 (4096, 262144, 65536 and 16384 Hz), and not a cycle earlier.
pub proof fn lemma_tima_rates(t: Timer)
    requires
        t.tac & 0x04 != 0,
        t.timer_counter == 0,
        t.tima < 0xFF,
    ensures
        t.tac & 0x03 == 0 ==> t.stepped(1023).tima == t.tima && t.stepped(1024).tima == t.tima + 1,
        t.tac & 0x03 == 1 ==> t.stepped(15).tima == t.tima && t.stepped(16).tima == t.tima + 1,
        t.tac & 0x03 == 2 ==> t.stepped(63).tima == t.tima && t.stepped(64).tima == t.tima + 1,
        t.tac & 0x03 == 3 ==> t.stepped(255).tima == t.tima && t.stepped(256).tima == t.tima + 1,
{
    reveal(Timer::stepped);
    reveal_with_fuel(tima_after_ticks, 2);
    let p = timer_period(t.tac) as int;
    assert(Timer::added(t.timer_counter, (p - 1) as u32) == p - 1);
    assert(Timer::added(t.timer_counter, p as u32) == p);
    assert(t.ticks((p - 1) as u32) == 0);
    assert(t.ticks(p as u32) == 1);
}

/// With the timer enabled and its period counter at zero, an increment of TIMA
/// from 0xFF reloads it from TMA and requests the timer interrupt.
pub proof fn lemma_tima_overflow_reload(t: Timer)
    requires
        t.tac & 0x04 != 0,
        t.timer_counter == 0,
        t.tima == 0xFF,
    ensures
        t.stepped(timer_period(t.tac) as u32).tima == t.tma,
        t.stepped(timer_period(t.tac) as u32).timer_overflow,
        t.step_interrupt(timer_period(t.tac) as u32),
        timer_period(t.tac) == 1024 || timer_period(t.tac) == 16 || timer_period(t.tac) == 64
            || timer_period(t.tac) == 256,
{
    reveal(Timer::stepped);
    reveal_with_fuel(tima_after_ticks, 2);
    let p = timer_period(t.tac) as int;
    assert(Timer::added(t.timer_counter, p as u32) == p);
    assert(t.ticks(p as u32) == 1);
}

/// With TAC bit 2 clear TIMA never moves and no timer interrupt is requested,
/// however many cycles pass.
pub proof fn lemma_disabled_holds(t: Timer, cycles: u32)
    requires
        t.tac & 0x04 == 0,
    ensures
        t.stepped(cycles).tima == t.tima,
        t.stepped(cycles).timer_counter == t.timer_counter,
        t.stepped(cycles).timer_overflow == t.timer_overflow,
        !t.step_interrupt(cycles),
{
    reveal(Timer::stepped);
    assert(t.ticks(cycles) == 0);
}

/// DIV advances by one (wrapping) every 256 CPU cycles, whatever TAC holds, and
/// from the start of a DIV period not a cycle earlier.
pub proof fn lemma_div_rate(t: Timer)
    ensures
        t.stepped(256).div_register == (t.div_counter / 256 + 1) % 256,
        t.div_counter % 256 == 0 ==> t.stepped(255).div_register == t.div_counter / 256,
{
    reveal(Timer::stepped);
    let d = t.div_counter as int;
    assert(Timer::added(t.div_counter, 256) == (d + 256) % 0x10000);
    assert(((d + 256) % 0x10000) / 256 == (d / 256 + 1) % 256) by (nonlinear_arith)
        requires
            0 <= d < 0x10000,
    ;
    assert(d % 256 == 0 ==> ((d + 255) % 0x10000) / 256 == d / 256) by (nonlinear_arith)
        requires
            0 <= d < 0x10000,
    ;
}

} // verus!
