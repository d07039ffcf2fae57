//! The machine as its host sees it: load a program, step, look at the
//! display and the timers, press and release keys.

use vstd::prelude::*;
use crate::error::Chip8Error;
use crate::bus::{Bus, initial_bus};
use crate::cpu::Cpu;
use crate::ram::with_bytes;
use crate::model::{
    BusState, Conventions, Machine, PROGRAM_START, draws_random, initial_cpu, machine,
    outcome_is, step,
};

verus! {

/// Most bytes that a program can have: memory above where programs start.
pub const MAX_PROGRAM: usize = 3584;

/// One machine: the bus with all that hangs on it, and the engine.
pub struct Chip8 {
    pub bus: Bus,
    pub cpu: Cpu,
}

impl View for Chip8 {
    type V = Machine;

    open spec fn view(&self) -> Machine {
        machine(self.cpu@, self.bus@)
    }
}

impl Chip8 {
    /// Engine and bus are well formed.
    pub open spec fn wf(&self) -> bool {
        self.cpu.wf() && self.bus.wf()
    }

    /// A machine with the registers at zero, the counter at the start of the
    /// program, an empty call stack, the font in memory and a blank display.
    pub fn new() -> (m: Chip8)
        ensures
            m.wf(),
            m@ == machine(
                initial_cpu(Conventions { shift_reads_vy: false, flag_on_borrow: false }),
                initial_bus(),
            ),
    {
        Chip8 { bus: Bus::new(), cpu: Cpu::new() }
    }

    /// As `new`, with the given conventions.
    pub fn with_conventions(conventions: Conventions) -> (m: Chip8)
        ensures
            m.wf(),
            m@ == machine(initial_cpu(conventions), initial_bus()),
    {
        Chip8 { bus: Bus::new(), cpu: Cpu::with_conventions(conventions) }
    }

    /// Writes the program `data` into memory from `PROGRAM_START` on. A
    /// program of more than `MAX_PROGRAM` bytes is `OutOfBounds`, and nothing
    /// is written.
    pub fn load_rom(&mut self, data: &Vec<u8>) -> (r: Result<(), Chip8Error>)
        requires
            old(self).wf(),
        ensures
            final(self).wf(),
            data@.len() <= MAX_PROGRAM ==> r.is_ok() && final(self)@ == machine(
                old(self)@.cpu,
                BusState {
                    ram: with_bytes(old(self)@.bus.ram, PROGRAM_START as int, data@),
                    ..old(self)@.bus
                },
            ),
            data@.len() > MAX_PROGRAM ==> r == Err::<(), Chip8Error>(Chip8Error::OutOfBounds)
                && final(self)@ == old(self)@,
    {
        if data.len() > MAX_PROGRAM {
            return Err(Chip8Error::OutOfBounds);
        }
        let ghost before = self.bus@;
        let ghost cpu = self.cpu@;
        let mut k: usize = 0;
        assert(before.ram =~= with_bytes(before.ram, PROGRAM_START as int, data@.subrange(0, 0)));
        while k < data.len()
            invariant
                k <= data@.len(),
                data@.len() <= MAX_PROGRAM,
                self.wf(),
                self.cpu@ == cpu,
                before.ram.len() == 4096,
                self.bus@ == (BusState {
                    ram: with_bytes(before.ram, PROGRAM_START as int, data@.subrange(0, k as int)),
                    ..before
                }),
            decreases data@.len() - k,
        {
            match self.bus.ram_write_byte(PROGRAM_START + k as u16, data[k]) {
                Ok(()) => {},
                Err(e) => {
                    return Err(e);
                },
            }
            assert(self.bus@.ram =~= with_bytes(
                before.ram,
                PROGRAM_START as int,
                data@.subrange(0, k as int + 1),
            ));
            k += 1;
        }
        assert(data@.subrange(0, k as int) =~= data@);
        Ok(())
    }

    /// Advances the machine by one instruction; see `Cpu::run_instruction`.
    pub fn run_instruction(&mut self) -> (r: Result<(), Chip8Error>)
        requires
            old(self).wf(),
        ensures
            final(self).wf(),
            exists|random: u8|
                outcome_is(#[trigger] step(old(self)@, random), old(self)@, final(self)@, r),
            !draws_random(old(self)@) ==> outcome_is(
                step(old(self)@, 0),
                old(self)@,
                final(self)@,
                r,
            ),
    {
        let ghost before = self@;
        let r = self.cpu.run_instruction(&mut self.bus);
        proof {
            let random = choose|random: u8|
                outcome_is(
                    #[trigger] step(machine(before.cpu, before.bus), random),
                    machine(before.cpu, before.bus),
                    machine(self.cpu@, self.bus@),
                    r,
                );
            assert(outcome_is(step(before, random), before, self@, r));
        }
        r
    }

    /// Advances the machine by one instruction, with `random` as the byte that
    /// the random instruction draws; see `Cpu::step_with`.
    pub fn step_with(&mut self, random: u8) -> (r: Result<(), Chip8Error>)
        requires
            old(self).wf(),
        ensures
            final(self).wf(),
            outcome_is(step(old(self)@, random), old(self)@, final(self)@, r),
    {
        self.cpu.step_with(&mut self.bus, random)
    }

    /// The pixels of the display, row by row.
    pub fn get_display_buffer(&self) -> (pixels: &Vec<bool>)
        ensures
            pixels@ == self@.bus.screen,
    {
        self.bus.get_display_buffer()
    }

    /// Records that `key` is held down, or is not; `OutOfBounds`, with nothing
    /// changed, when `key` names no key.
    pub fn set_key_pressed(&mut self, key: u8, pressed: bool) -> (r: Result<(), Chip8Error>)
        requires
            old(self).wf(),
        ensures
            final(self).wf(),
            key < 16 ==> r.is_ok() && final(self)@ == machine(
                old(self)@.cpu,
                BusState { keys: old(self)@.bus.keys.update(key as int, pressed), ..old(self)@.bus },
            ),
            key >= 16 ==> r == Err::<(), Chip8Error>(Chip8Error::OutOfBounds) && final(self)@
                == old(self)@,
    {
        self.bus.set_key_pressed(key, pressed)
    }
}

} // verus!
