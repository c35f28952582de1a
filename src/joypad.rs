use vstd::prelude::*;

use crate::memory::{BusView, Memory, INTERRUPT_FLAG_ADDRESS, JOYPAD_ADDRESS};

verus! {

/// The eight buttons of the console.
#[derive(Debug, Clone, Copy, PartialEq, Eq, Structural)]
pub enum Button {
    Right,
    Left,
    Up,
    Down,
    A,
    B,
    Select,
    Start,
}

/// The button's line in the pressed-button byte: the d-pad in bits 0-3,
/// A, B, Select and Start in bits 4-7.
pub open spec fn button_mask(b: Button) -> u8 {
    match b {
        Button::Right => 1,
        Button::Left => 2,
        Button::Up => 4,
        Button::Down => 8,
        Button::A => 16,
        Button::B => 32,
        Button::Select => 64,
        Button::Start => 128,
    }
}

/// Whether the group of `b` is selected by the joypad register `select`
/// (bit 4 low: d-pad, bit 5 low: buttons).
pub open spec fn group_selected(select: u8, b: Button) -> bool {
    if button_mask(b) < 16 {
        select / 16 % 2 == 0
    } else {
        select / 32 % 2 == 0
    }
}

/// The held buttons after a press (`down`) or release of `b`.
pub open spec fn pressed_after(pressed: u8, b: Button, down: bool) -> u8 {
    if down {
        pressed | button_mask(b)
    } else {
        pressed & !button_mask(b)
    }
}

/// The bus after a press or release of `b` while `pressed` were held: the
/// joypad lines follow the held buttons, and a new press of a button whose
/// group is selected requests the joypad interrupt (IF bit 4).
pub open spec fn joypad_after(m: BusView, pressed: u8, b: Button, down: bool) -> BusView {
    BusView {
        ram: if down && pressed & button_mask(b) == 0 && group_selected(
            m.ram[JOYPAD_ADDRESS as int],
            b,
        ) {
            m.ram.update(INTERRUPT_FLAG_ADDRESS as int, m.ram[INTERRUPT_FLAG_ADDRESS as int] | 0x10)
        } else {
            m.ram
        },
        buttons: pressed_after(pressed, b, down),
        ..m
    }
}

/// The joypad latch: which buttons are held.
pub struct Joypad {
    pressed: u8,
}

impl Joypad {
    pub closed spec fn pressed(&self) -> u8 {
        self.pressed
    }

    pub fn new() -> (r: Self)
        ensures
            r.pressed() == 0,
    {
        Joypad { pressed: 0 }
    }

    /// Publish the held buttons to the joypad register.
    pub fn update(&self, memory: &mut Memory)
        requires
            old(memory).wf(),
        ensures
            final(memory).wf(),
            final(memory)@ == (BusView { buttons: self.pressed(), ..old(memory)@ }),
    {
        memory.set_buttons(self.pressed);
    }

    /// A press (`down`) or release of `button`; a new press of a button
    /// whose group is selected requests the joypad interrupt.
    pub fn handle_button(&mut self, button: Button, down: bool, memory: &mut Memory)
        requires
            old(memory).wf(),
        ensures
            final(memory).wf(),
            final(self).pressed() == pressed_after(old(self).pressed(), button, down),
            final(memory)@ == joypad_after(old(memory)@, old(self).pressed(), button, down),
    {
        let mask: u8 = match button {
            Button::Right => 1,
            Button::Left => 2,
            Button::Up => 4,
            Button::Down => 8,
            Button::A => 16,
            Button::B => 32,
            Button::Select => 64,
            Button::Start => 128,
        };
        let select = memory.read_raw(JOYPAD_ADDRESS);
        let selected = if mask < 16 {
            select / 16 % 2 == 0
        } else {
            select / 32 % 2 == 0
        };
        if down && self.pressed & mask == 0 && selected {
            let iflag = memory.read_raw(INTERRUPT_FLAG_ADDRESS);
            memory.write_raw(INTERRUPT_FLAG_ADDRESS, iflag | 0x10);
        }
        self.pressed = if down {
            self.pressed | mask
        } else {
            self.pressed & !mask
        };
        memory.set_buttons(self.pressed);
    }
}

} // verus!
