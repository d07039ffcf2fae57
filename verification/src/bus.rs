//! The bus: what the engine reaches memory, the display, the keys and the two
//! timers through.

use vstd::prelude::*;
use crate::error::Chip8Error;
use crate::ram::Ram;
use crate::display::{Display, blank_screen, row_blitted, row_collides, row_on_display};
use crate::keyboard::{Keyboard, first_key_down, key_down, no_keys};
use crate::ram::initial_memory;
use crate::model::{BusState, bus_wf};

verus! {

/// Memory, display, keyboard and timers of one machine. The timers only hold
/// what was last written: counting them down is the host's part.
pub struct Bus {
    pub ram: Ram,
    pub display: Display,
    pub keyboard: Keyboard,
    pub delay_timer: u8,
    pub sound_timer: u8,
}

/// The bus of a new machine.
pub open spec fn initial_bus() -> BusState {
    BusState {
        ram: initial_memory(),
        screen: blank_screen(),
        keys: no_keys(),
        delay_timer: 0,
        sound_timer: 0,
    }
}

impl View for Bus {
    type V = BusState;

    open spec fn view(&self) -> BusState {
        BusState {
            ram: self.ram@,
            screen: self.display@,
            keys: self.keyboard@,
            delay_timer: self.delay_timer,
            sound_timer: self.sound_timer,
        }
    }
}

impl Bus {
    /// Memory, display and keyboard are well formed.
    pub open spec fn wf(&self) -> bool {
        self.ram.wf() && self.display.wf() && self.keyboard.wf()
    }

    /// A bus with the font in memory, a blank display, no key down and both
    /// timers at zero.
    pub fn new() -> (bus: Bus)
        ensures
            bus.wf(),
            bus_wf(bus@),
            bus@ == initial_bus(),
    {
        Bus {
            ram: Ram::new(),
            display: Display::new(),
            keyboard: Keyboard::new(),
            delay_timer: 0,
            sound_timer: 0,
        }
    }

    /// The byte at `addr`; `OutOfBounds` exactly when `addr` is no address.
    pub fn ram_read_byte(&self, addr: u16) -> (r: Result<u8, Chip8Error>)
        requires
            self.wf(),
        ensures
            addr < 4096 ==> r == Ok::<u8, Chip8Error>(self@.ram[addr as int]),
            addr >= 4096 ==> r == Err::<u8, Chip8Error>(Chip8Error::OutOfBounds),
    {
        self.ram.read_byte(addr)
    }

    /// Stores `value` at `addr`; `OutOfBounds`, with nothing changed, exactly
    /// when `addr` is no address.
    pub fn ram_write_byte(&mut self, addr: u16, value: u8) -> (r: Result<(), Chip8Error>)
        requires
            old(self).wf(),
        ensures
            final(self).wf(),
            addr < 4096 ==> r.is_ok() && final(self)@ == (BusState {
                ram: old(self)@.ram.update(addr as int, value),
                ..old(self)@
            }),
            addr >= 4096 ==> r == Err::<(), Chip8Error>(Chip8Error::OutOfBounds) && final(self)@
                == old(self)@,
    {
        self.ram.write_byte(addr, value)
    }

    /// Turns every pixel off.
    pub fn clear_screen(&mut self)
        requires
            old(self).wf(),
        ensures
            final(self).wf(),
            final(self)@ == (BusState { screen: blank_screen(), ..old(self)@ }),
    {
        self.display.clear();
    }

    /// Draws one sprite row and returns whether a lit pixel was turned off;
    /// `OutOfBounds`, with nothing drawn, when the row is not on the display.
    pub fn debug_draw_byte(&mut self, byte: u8, x: u8, y: u8) -> (r: Result<bool, Chip8Error>)
        requires
            old(self).wf(),
        ensures
            final(self).wf(),
            row_on_display(x as int, y as int) ==> r == Ok::<bool, Chip8Error>(
                row_collides(old(self)@.screen, byte, x as int, y as int),
            ) && final(self)@ == (BusState {
                screen: row_blitted(old(self)@.screen, byte, x as int, y as int),
                ..old(self)@
            }),
            !row_on_display(x as int, y as int) ==> r == Err::<bool, Chip8Error>(
                Chip8Error::OutOfBounds,
            ) && final(self)@ == old(self)@,
    {
        self.display.debug_draw_byte(byte, x, y)
    }

    /// Whether `key` is held down.
    pub fn key_pressed(&self, key: u8) -> (down: bool)
        requires
            self.wf(),
        ensures
            down == key_down(self@.keys, key as int),
    {
        self.keyboard.key_pressed(key)
    }

    /// The lowest key that is held down, `None` when none is.
    pub fn get_key_pressed(&self) -> (key: Option<u8>)
        requires
            self.wf(),
        ensures
            key == first_key_down(self@.keys),
    {
        self.keyboard.get_key_pressed()
    }

    /// Records that `key` is held down, or is not; `OutOfBounds`, with nothing
    /// changed, when `key` names no key.
    pub fn set_key_pressed(&mut self, key: u8, pressed: bool) -> (r: Result<(), Chip8Error>)
        requires
            old(self).wf(),
        ensures
            final(self).wf(),
            key < 16 ==> r.is_ok() && final(self)@ == (BusState {
                keys: old(self)@.keys.update(key as int, pressed),
                ..old(self)@
            }),
            key >= 16 ==> r == Err::<(), Chip8Error>(Chip8Error::OutOfBounds) && final(self)@
                == old(self)@,
    {
        self.keyboard.set_key_pressed(key, pressed)
    }

    /// The delay timer.
    pub fn get_delay_timer(&self) -> (t: u8)
        ensures
            t == self@.delay_timer,
    {
        self.delay_timer
    }

    /// Sets the delay timer.
    pub fn set_delay_timer(&mut self, value: u8)
        ensures
            *final(self) == (Bus { delay_timer: value, ..*old(self) }),
    {
        self.delay_timer = value;
    }

    /// The sound timer.
    pub fn get_sound_timer(&self) -> (t: u8)
        ensures
            t == self@.sound_timer,
    {
        self.sound_timer
    }

    /// Sets the sound timer.
    pub fn set_sound_timer(&mut self, value: u8)
        ensures
            *final(self) == (Bus { sound_timer: value, ..*old(self) }),
    {
        self.sound_timer = value;
    }

    /// The pixels of the display, row by row.
    pub fn get_display_buffer(&self) -> (pixels: &Vec<bool>)
        ensures
            pixels@ == self@.screen,
    {
        self.display.buffer()
    }
}

} // verus!
