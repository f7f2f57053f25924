//! The joypad: button state and the register at 0xFF00.
use vstd::prelude::*;

verus! {

/// Which buttons are held down.
#[derive(Debug, Clone, Copy)]
pub struct JoypadState {
    pub up: bool,
    pub down: bool,
    pub left: bool,
    pub right: bool,
    pub a: bool,
    pub b: bool,
    pub select: bool,
    pub start: bool,
}

#[derive(Debug, Clone, Copy)]
pub enum JoypadButton {
    Up,
    Down,
    Left,
    Right,
    A,
    B,
    Select,
    Start,
}

impl JoypadState {
    /// No button held.
    pub open spec fn released() -> JoypadState {
        JoypadState {
            up: false,
            down: false,
            left: false,
            right: false,
            a: false,
            b: false,
            select: false,
            start: false,
        }
    }

    /// Whether `button` is held.
    pub open spec fn pressed(self, button: JoypadButton) -> bool {
        match button {
            JoypadButton::Up => self.up,
            JoypadButton::Down => self.down,
            JoypadButton::Left => self.left,
            JoypadButton::Right => self.right,
            JoypadButton::A => self.a,
            JoypadButton::B => self.b,
            JoypadButton::Select => self.select,
            JoypadButton::Start => self.start,
        }
    }

    /// The state with `button` held or released, the other buttons as they were.
    pub open spec fn with_button(self, button: JoypadButton, pressed: bool) -> JoypadState {
        match button {
            JoypadButton::Up => JoypadState { up: pressed, ..self },
            JoypadButton::Down => JoypadState { down: pressed, ..self },
            JoypadButton::Left => JoypadState { left: pressed, ..self },
            JoypadButton::Right => JoypadState { right: pressed, ..self },
            JoypadButton::A => JoypadState { a: pressed, ..self },
            JoypadButton::B => JoypadState { b: pressed, ..self },
            JoypadButton::Select => JoypadState { select: pressed, ..self },
            JoypadButton::Start => JoypadState { start: pressed, ..self },
        }
    }

    pub fn new() -> (s: JoypadState)
        ensures
            s == JoypadState::released(),
    {
        JoypadState {
            up: false,
            down: false,
            left: false,
            right: false,
            a: false,
            b: false,
            select: false,
            start: false,
        }
    }
}

/// The joypad: which buttons are held, which group the program has selected
/// (a selection bit of 1 means the group is not selected), and whether a button
/// press is waiting to be reported as an interrupt.
pub struct Joypad {
    pub state: JoypadState,
    pub select_buttons: bool,
    pub select_dpad: bool,
    pub interrupt_requested: bool,
}

/// Low nibble of the joypad register for one group: a held button reads as 0.
pub open spec fn group_nibble(bit0: bool, bit1: bool, bit2: bool, bit3: bool) -> int {
    15 - (if bit0 { 1int } else { 0 }) - (if bit1 { 2int } else { 0 }) - (if bit2 { 4int } else { 0 }) - (if bit3 { 8int } else { 0 })
}

impl Joypad {
    /// The joypad after `button` is held or released: a press of a button that was
    /// not held raises the pending interrupt; nothing else changes.
    pub open spec fn after_button(self, button: JoypadButton, pressed: bool) -> Joypad {
        Joypad {
            state: self.state.with_button(button, pressed),
            interrupt_requested: self.interrupt_requested || (!self.state.pressed(button)
                && pressed),
            ..self
        }
    }

    /// The joypad after a write of `value` to its register: bits 5 and 4 select.
    pub open spec fn after_write(self, value: u8) -> Joypad {
        Joypad { select_buttons: value & 0x20 != 0, select_dpad: value & 0x10 != 0, ..self }
    }

    /// The joypad with its pending interrupt taken.
    pub open spec fn cleared(self) -> Joypad {
        Joypad { interrupt_requested: false, ..self }
    }

    /// What the register at 0xFF00 reads as: bits 7-6 are 1, bits 5-4 are the
    /// selection bits, and the low nibble shows the selected group with a held
    /// button as 0 (the action buttons when both groups are selected, all 1s when
    /// none is).
    pub open spec fn register_value(self) -> u8 {
        let sel = (if self.select_buttons { 0x20int } else { 0 }) + (if self.select_dpad {
            0x10int
        } else {
            0
        });
        let low = if !self.select_buttons {
            group_nibble(self.state.a, self.state.b, self.state.select, self.state.start)
        } else if !self.select_dpad {
            group_nibble(self.state.right, self.state.left, self.state.up, self.state.down)
        } else {
            15
        };
        (0xC0 + sel + low) as u8
    }

    /// No button held, no group selected, no interrupt pending.
    pub fn new() -> (j: Joypad)
        ensures
            j.state == JoypadState::released(),
            j.select_buttons,
            j.select_dpad,
            !j.interrupt_requested,
    {
        Joypad {
            state: JoypadState::new(),
            select_buttons: true,
            select_dpad: true,
            interrupt_requested: false,
        }
    }

    /// Holds or releases `button`; a press of a button that was up requests the
    /// joypad interrupt.
    pub fn update_button(&mut self, button: JoypadButton, pressed: bool)
        ensures
            *final(self) == old(self).after_button(button, pressed),
    {
        let was_pressed = self.get_button_state(button);
        let old_state = self.state;
        let new_state = match button {
            JoypadButton::Up => JoypadState { up: pressed, ..old_state },
            JoypadButton::Down => JoypadState { down: pressed, ..old_state },
            JoypadButton::Left => JoypadState { left: pressed, ..old_state },
            JoypadButton::Right => JoypadState { right: pressed, ..old_state },
            JoypadButton::A => JoypadState { a: pressed, ..old_state },
            JoypadButton::B => JoypadState { b: pressed, ..old_state },
            JoypadButton::Select => JoypadState { select: pressed, ..old_state },
            JoypadButton::Start => JoypadState { start: pressed, ..old_state },
        };
        self.state = new_state;
        if !was_pressed && pressed {
            self.interrupt_requested = true;
        }
    }

    fn get_button_state(&self, button: JoypadButton) -> (r: bool)
        ensures
            r == self.state.pressed(button),
    {
        match button {
            JoypadButton::Up => self.state.up,
            JoypadButton::Down => self.state.down,
            JoypadButton::Left => self.state.left,
            JoypadButton::Right => self.state.right,
            JoypadButton::A => self.state.a,
            JoypadButton::B => self.state.b,
            JoypadButton::Select => self.state.select,
            JoypadButton::Start => self.state.start,
        }
    }

    /// Reads the joypad register (0xFF00).
    pub fn read_register(&self) -> (r: u8)
        ensures
            r == self.register_value(),
    {
        let mut result: u8 = 0xC0;
        if self.select_buttons {
            result = result + 0x20;
        }
        if self.select_dpad {
            result = result + 0x10;
        }
        let mut low: u8 = 0x0F;
        if !self.select_buttons {
            if self.state.a {
                low = low - 1;
            }
            if self.state.b {
                low = low - 2;
            }
            if self.state.select {
                low = low - 4;
            }
            if self.state.start {
                low = low - 8;
            }
        } else if !self.select_dpad {
            if self.state.right {
                low = low - 1;
            }
            if self.state.left {
                low = low - 2;
            }
            if self.state.up {
                low = low - 4;
            }
            if self.state.down {
                low = low - 8;
            }
        }
        result + low
    }

    /// Writes the joypad register: only the two selection bits are writable.
    pub fn write_register(&mut self, value: u8)
        ensures
            *final(self) == old(self).after_write(value),
    {
        self.select_buttons = (value & 0x20) != 0;
        self.select_dpad = (value & 0x10) != 0;
    }

    /// Reports whether a button press was waiting, and clears it.
    pub fn check_and_clear_interrupt(&mut self) -> (r: bool)
        ensures
            r == old(self).interrupt_requested,
            *final(self) == old(self).cleared(),
    {
        if self.interrupt_requested {
            self.interrupt_requested = false;
            true
        } else {
            false
        }
    }
}

/// Holding or releasing a button shows in the state at once and leaves the other
/// buttons as they were; holding a button that was up raises the joypad interrupt.
pub proof fn lemma_button_update(j: Joypad, button: JoypadButton, pressed: bool, other: JoypadButton)
    ensures
        j.after_button(button, pressed).state.pressed(button) == pressed,
        other != button ==> j.after_button(button, pressed).state.pressed(other) == j.state.pressed(
            other,
        ),
        (pressed && !j.state.pressed(button)) ==> j.after_button(button, pressed).interrupt_requested,
{
}

/// A register write sets the two selection bits, which read back as written,
/// and leaves the buttons and the pending interrupt alone.
pub proof fn lemma_register_write(j: Joypad, value: u8)
    ensures
        j.after_write(value).select_buttons == (value & 0x20 != 0),
        j.after_write(value).select_dpad == (value & 0x10 != 0),
        j.after_write(value).register_value() & 0x30 == value & 0x30,
        j.after_write(value).state == j.state,
        j.after_write(value).interrupt_requested == j.interrupt_requested,
{
    let k = j.after_write(value);
    let a = value & 0x20 != 0;
    let b = value & 0x10 != 0;
    let low: int = if !k.select_buttons {
        group_nibble(k.state.a, k.state.b, k.state.select, k.state.start)
    } else if !k.select_dpad {
        group_nibble(k.state.right, k.state.left, k.state.up, k.state.down)
    } else {
        15
    };
    assert(0 <= low <= 15);
    let l = low as u8;
    assert((((0xC0u8 + (if a { 0x20u8 } else { 0 })) as u8 + (if b { 0x10u8 } else { 0 })) as u8 + l)
        as u8 & 0x30 == value & 0x30) by (bit_vector)
        requires
            l <= 15,
            a == (value & 0x20 != 0),
            b == (value & 0x10 != 0),
    ;
}

/// Taking the pending interrupt clears it and leaves the buttons and selection
/// alone, so a second take right after finds none.
pub proof fn lemma_interrupt_taken(j: Joypad)
    ensures
        !j.cleared().interrupt_requested,
        j.cleared().state == j.state,
        j.cleared().select_buttons == j.select_buttons,
        j.cleared().select_dpad == j.select_dpad,
        j.cleared().cleared() == j.cleared(),
{
}

/// The low nibble of a group, bit by bit: bit k is 0 exactly when the k-th
/// button of the group is held.
proof fn lemma_group_bits(b0: bool, b1: bool, b2: bool, b3: bool, hi: u8)
    requires
        hi == 0xC0 || hi == 0xD0 || hi == 0xE0 || hi == 0xF0,
    ensures
        ({
            let v = (hi + group_nibble(b0, b1, b2, b3)) as u8;
            &&& (v & 0x01 == 0) == b0
            &&& (v & 0x02 == 0) == b1
            &&& (v & 0x04 == 0) == b2
            &&& (v & 0x08 == 0) == b3
            &&& v & 0xF0 == hi
        }),
{
    let l = group_nibble(b0, b1, b2, b3) as u8;
    assert(0 <= group_nibble(b0, b1, b2, b3) <= 15);
    assert(({
        let v = (hi + l) as u8;
        &&& (v & 0x01 == 0) == b0
        &&& (v & 0x02 == 0) == b1
        &&& (v & 0x04 == 0) == b2
        &&& (v & 0x08 == 0) == b3
        &&& v & 0xF0 == hi
    })) by (bit_vector)
        requires
            hi == 0xC0 || hi == 0xD0 || hi == 0xE0 || hi == 0xF0,
            l == (15 - (if b0 { 1u8 } else { 0 }) - (if b1 { 2u8 } else { 0 }) - (if b2 {
                4u8
            } else {
                0
            }) - (if b3 { 8u8 } else { 0 })) as u8,
    ;
}

/// With the action group selected (bit 5 written as 0) the register's bits 0-3
/// read 0 exactly while A, B, Select and Start are held; with only the
/// direction group selected (bit 4 as 0), while Right, Left, Up and Down are.
pub proof fn lemma_register_buttons(j: Joypad)
    ensures
        !j.select_buttons ==> {
            &&& (j.register_value() & 0x01 == 0) == j.state.a
            &&& (j.register_value() & 0x02 == 0) == j.state.b
            &&& (j.register_value() & 0x04 == 0) == j.state.select
            &&& (j.register_value() & 0x08 == 0) == j.state.start
        },
        j.select_buttons && !j.select_dpad ==> {
            &&& (j.register_value() & 0x01 == 0) == j.state.right
            &&& (j.register_value() & 0x02 == 0) == j.state.left
            &&& (j.register_value() & 0x04 == 0) == j.state.up
            &&& (j.register_value() & 0x08 == 0) == j.state.down
        },
{
    let hi: u8 = (0xC0 + (if j.select_buttons { 0x20int } else { 0 }) + (if j.select_dpad {
        0x10int
    } else {
        0
    })) as u8;
    if !j.select_buttons {
        lemma_group_bits(j.state.a, j.state.b, j.state.select, j.state.start, hi);
    } else if !j.select_dpad {
        lemma_group_bits(j.state.right, j.state.left, j.state.up, j.state.down, hi);
    }
}

} // verus!
