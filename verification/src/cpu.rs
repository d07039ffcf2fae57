//! The engine: the register file and the fetch-decode-execute step.

use vstd::prelude::*;
use rand::distributions::Distribution;
use rand::rngs::ThreadRng;
use crate::error::Chip8Error;
use crate::bus::Bus;
use crate::ram::with_bytes;
use crate::display::{pixel_erased, pixel_index, row_blitted, row_collides};
use crate::model::{
    BusState, Conventions, CpuState, FLAG, GLYPH_ROWS, PROGRAM_START, REGISTERS, STACK_DEPTH,
    advanced, alu, as_flag, bcd, cpu_wf, draws_random, execute, execute_bus, execute_flow, fetch,
    initial_cpu, is_flow, machine, outcome_is, pc_set, reg, reg_written, regs_loaded,
    sprite_collides, sprite_drawn, sprite_erases, sprite_fits, step,
};

verus! {

/// The generator of `rand` that is seeded once per thread.
#[verifier::external_type_specification]
#[verifier::external_body]
pub struct ExThreadRng(rand::rngs::ThreadRng);

/// Calls `rand::thread_rng`, which hands out the calling thread's generator,
/// seeded from the system on the thread's first call. Nothing is claimed of it.
#[verifier::external_body]
fn thread_generator() -> ThreadRng {
    rand::thread_rng()
}

/// Calls `Distribution::sample` of `rand::distributions::Standard`, which for
/// `u8` draws one of the 256 bytes. The byte depends on chance, so nothing is
/// claimed of it.
#[verifier::external_body]
fn sample_byte(rng: &mut ThreadRng) -> u8 {
    rand::distributions::Standard.sample(rng)
}

impl Conventions {
    /// Shifts read `Vx`; a subtraction that did not borrow sets the flag to 1.
    pub fn standard() -> (c: Conventions)
        ensures
            c == (Conventions { shift_reads_vy: false, flag_on_borrow: false }),
    {
        Conventions { shift_reads_vy: false, flag_on_borrow: false }
    }
}

/// The register file, with the generator that the random instruction draws from.
pub struct Cpu {
    vx: Vec<u8>,
    pc: u16,
    i: u16,
    prev_pc: Option<u16>,
    awaiting_key: bool,
    ret_stack: Vec<u16>,
    conventions: Conventions,
    rng: ThreadRng,
}

impl View for Cpu {
    type V = CpuState;

    closed spec fn view(&self) -> CpuState {
        CpuState {
            v: self.vx@,
            i: self.i,
            pc: self.pc,
            prev_pc: self.prev_pc,
            awaiting_key: self.awaiting_key,
            stack: self.ret_stack@,
            conventions: self.conventions,
        }
    }
}

impl Cpu {
    /// Sixteen registers, and no more return addresses than the stack holds.
    pub open spec fn wf(&self) -> bool {
        cpu_wf(self@)
    }

    /// A register file with everything at zero, the counter at the start of
    /// the program and the standard conventions.
    pub fn new() -> (cpu: Cpu)
        ensures
            cpu.wf(),
            cpu@ == initial_cpu(Conventions { shift_reads_vy: false, flag_on_borrow: false }),
    {
        Cpu::with_conventions(Conventions::standard())
    }

    /// As `new`, with the given conventions.
    pub fn with_conventions(conventions: Conventions) -> (cpu: Cpu)
        ensures
            cpu.wf(),
            cpu@ == initial_cpu(conventions),
    {
        let mut vx: Vec<u8> = Vec::new();
        let mut k: usize = 0;
        while k < REGISTERS
            invariant
                k <= REGISTERS,
                vx@.len() == k,
                forall|j: int| 0 <= j < k ==> #[trigger] vx@[j] == 0,
            decreases REGISTERS - k,
        {
            vx.push(0u8);
            k += 1;
        }
        let ret_stack: Vec<u16> = Vec::new();
        assert(vx@ =~= initial_cpu(conventions).v);
        assert(ret_stack@ =~= initial_cpu(conventions).stack);
        Cpu {
            vx,
            pc: PROGRAM_START,
            i: 0,
            prev_pc: None,
            awaiting_key: false,
            ret_stack,
            conventions,
            rng: thread_generator(),
        }
    }

    // ----- the register file -----

    /// The value of register `x`.
    pub fn read_vx(&self, x: u8) -> (value: u8)
        requires
            self.wf(),
            x < REGISTERS,
        ensures
            value == reg(self@, x as int),
    {
        self.vx[x as usize]
    }

    /// Stores `value` in register `x`.
    pub fn write_vx(&mut self, x: u8, value: u8)
        requires
            old(self).wf(),
            x < REGISTERS,
        ensures
            final(self).wf(),
            final(self)@ == reg_written(old(self)@, x as int, value),
    {
        self.vx.set(x as usize, value);
    }

    /// The index register.
    pub fn get_i(&self) -> (i: u16)
        ensures
            i == self@.i,
    {
        self.i
    }

    /// Sets the index register.
    pub fn set_i(&mut self, i: u16)
        ensures
            final(self)@ == (CpuState { i, ..old(self)@ }),
    {
        self.i = i;
    }

    /// The program counter.
    pub fn get_pc(&self) -> (pc: u16)
        ensures
            pc == self@.pc,
    {
        self.pc
    }

    /// Sets the program counter.
    pub fn set_pc(&mut self, pc: u16)
        ensures
            final(self)@ == pc_set(old(self)@, pc),
    {
        self.pc = pc;
    }

    /// Whether the last step was a wait for a key that found none down.
    pub fn is_awaiting_key(&self) -> (waiting: bool)
        ensures
            waiting == self@.awaiting_key,
    {
        self.awaiting_key
    }

    /// Number of return addresses on the call stack.
    pub fn stack_depth(&self) -> (depth: usize)
        ensures
            depth == self@.stack.len(),
    {
        self.ret_stack.len()
    }

    /// Puts a return address on the call stack; `StackOverflow`, with nothing
    /// changed, exactly when the stack is full.
    pub fn push(&mut self, addr: u16) -> (r: Result<(), Chip8Error>)
        requires
            old(self).wf(),
        ensures
            final(self).wf(),
            old(self)@.stack.len() < STACK_DEPTH ==> r.is_ok() && final(self)@ == (CpuState {
                stack: old(self)@.stack.push(addr),
                ..old(self)@
            }),
            old(self)@.stack.len() >= STACK_DEPTH ==> r == Err::<(), Chip8Error>(
                Chip8Error::StackOverflow,
            ) && final(self)@ == old(self)@,
    {
        if self.ret_stack.len() >= STACK_DEPTH {
            return Err(Chip8Error::StackOverflow);
        }
        self.ret_stack.push(addr);
        Ok(())
    }

    /// Takes the newest return address off the call stack; `StackUnderflow`
    /// exactly when the stack is empty.
    pub fn pop(&mut self) -> (r: Result<u16, Chip8Error>)
        requires
            old(self).wf(),
        ensures
            final(self).wf(),
            old(self)@.stack.len() > 0 ==> r == Ok::<u16, Chip8Error>(old(self)@.stack.last())
                && final(self)@ == (CpuState {
                stack: old(self)@.stack.drop_last(),
                ..old(self)@
            }),
            old(self)@.stack.len() == 0 ==> r == Err::<u16, Chip8Error>(
                Chip8Error::StackUnderflow,
            ) && final(self)@ == old(self)@,
    {
        match self.ret_stack.pop() {
            Some(addr) => Ok(addr),
            None => Err(Chip8Error::StackUnderflow),
        }
    }
}


// ----- drawing, row by row -----

proof fn lemma_no_rows(screen: Seq<bool>, ram: Seq<u8>, i: int, x: int, y: int)
    ensures
        sprite_drawn(screen, ram, i, x, y, 0) =~= screen,
        !sprite_collides(screen, ram, i, x, y, 0),
{
}

proof fn lemma_next_row(screen: Seq<bool>, ram: Seq<u8>, i: int, x: int, y: int, k: int)
    requires
        screen.len() == 2048,
        0 <= k,
        0 <= x,
        x + 8 <= 64,
        0 <= y,
        y + k < 32,
    ensures
        row_blitted(sprite_drawn(screen, ram, i, x, y, k), ram[i + k], x, y + k) =~= sprite_drawn(
            screen,
            ram,
            i,
            x,
            y,
            k + 1,
        ),
        sprite_collides(screen, ram, i, x, y, k + 1) == (sprite_collides(screen, ram, i, x, y, k)
            || row_collides(sprite_drawn(screen, ram, i, x, y, k), ram[i + k], x, y + k)),
{
    let now = sprite_drawn(screen, ram, i, x, y, k);
    let byte = ram[i + k];
    let base = pixel_index(x, y + k);
    let rows = k + 1;
    if sprite_collides(screen, ram, i, x, y, rows) {
        let (row, col) = choose|row: int, col: int|
            sprite_erases(screen, ram, i, x, y, rows, row, col);
        if row < k {
            assert(sprite_erases(screen, ram, i, x, y, k, row, col));
        } else {
            assert(now[base + col] == screen[base + col]);
            assert(pixel_erased(now, byte, base, col));
        }
    }
    if sprite_collides(screen, ram, i, x, y, k) {
        let (row, col) = choose|row: int, col: int|
            sprite_erases(screen, ram, i, x, y, k, row, col);
        assert(sprite_erases(screen, ram, i, x, y, k + 1, row, col));
    }
    if row_collides(now, byte, x, y + k) {
        let col = choose|col: int| pixel_erased(now, byte, base, col);
        assert(now[base + col] == screen[base + col]);
        assert(sprite_erases(screen, ram, i, x, y, k + 1, k, col));
    }
}

/// The low byte of `a + b`.
fn sum_byte(a: u8, b: u8) -> (s: u8)
    ensures
        s == ((a + b) % 256) as u8,
{
    let sum: u16 = a as u16 + b as u16;
    if sum > 255 {
        (sum - 256) as u8
    } else {
        sum as u8
    }
}

/// The low byte of `a - b`.
fn diff_byte(a: u8, b: u8) -> (d: u8)
    ensures
        d == ((a - b) % 256) as u8,
{
    if a < b {
        (256 + a as u16 - b as u16) as u8
    } else {
        a - b
    }
}

/// The low byte of `2 * a`.
fn doubled_byte(a: u8) -> (d: u8)
    ensures
        d == ((a * 2) % 256) as u8,
{
    if a >= 128 {
        (a - 128) * 2
    } else {
        a * 2
    }
}

impl Cpu {
    // ----- the instructions -----

    /// The arithmetic instruction `n` on `Vx` and `Vy`. Returns whether `n`
    /// selects one; where it does not, nothing changes.
    fn run_alu(&mut self, x: u8, y: u8, n: u8) -> (known: bool)
        requires
            old(self).wf(),
            x < 16,
            y < 16,
        ensures
            final(self).wf(),
            match alu(old(self)@, x as int, y as int, n) {
                Some(v) => known && final(self)@ == (CpuState { v, ..old(self)@ }),
                None => !known && final(self)@ == old(self)@,
            },
    {
        let vx: u8 = self.vx[x as usize];
        let vy: u8 = self.vx[y as usize];
        let shifted: u8 = if self.conventions.shift_reads_vy { vy } else { vx };
        let on_borrow: bool = self.conventions.flag_on_borrow;
        if n == 0 {
            self.vx.set(x as usize, vy);
        } else if n == 2 {
            self.vx.set(x as usize, vx & vy);
        } else if n == 3 {
            self.vx.set(x as usize, vx ^ vy);
        } else if n == 4 {
            let carry: bool = vx as u16 + vy as u16 > 255;
            self.vx.set(x as usize, sum_byte(vx, vy));
            self.vx.set(FLAG, if carry { 1 } else { 0 });
        } else if n == 5 {
            let borrow: bool = vx < vy;
            self.vx.set(x as usize, diff_byte(vx, vy));
            self.vx.set(FLAG, if borrow == on_borrow { 1 } else { 0 });
        } else if n == 6 {
            self.vx.set(x as usize, shifted / 2);
            self.vx.set(FLAG, shifted % 2);
        } else if n == 7 {
            let borrow: bool = vy < vx;
            self.vx.set(x as usize, diff_byte(vy, vx));
            self.vx.set(FLAG, if borrow == on_borrow { 1 } else { 0 });
        } else if n == 0xE {
            self.vx.set(x as usize, doubled_byte(shifted));
            self.vx.set(FLAG, shifted / 128);
        } else {
            return false;
        }
        true
    }

    /// The instructions that touch the register file alone.
    fn run_flow(&mut self, word: u16, random: u8) -> (r: Result<(), Chip8Error>)
        requires
            old(self).wf(),
            is_flow(word),
        ensures
            final(self).wf(),
            match execute_flow(old(self)@, word, random) {
                Ok(c) => r.is_ok() && final(self)@ == c,
                Err(e) => r == Err::<(), Chip8Error>(e) && final(self)@ == old(self)@,
            },
    {
        let f: u16 = word / 4096;
        let nnn: u16 = word % 4096;
        let nn: u8 = (word % 256) as u8;
        let n: u8 = (word % 16) as u8;
        let x: u8 = ((word / 256) % 16) as u8;
        let y: u8 = ((word / 16) % 16) as u8;
        let vx: u8 = self.vx[x as usize];
        let vy: u8 = self.vx[y as usize];
        if f == 0 {
            match self.pop() {
                Ok(addr) => {
                    self.pc = addr;
                },
                Err(e) => {
                    return Err(e);
                },
            }
        } else if f == 1 {
            self.pc = nnn;
        } else if f == 2 {
            let back: u16 = self.pc.wrapping_add(2);
            match self.push(back) {
                Ok(()) => {
                    self.pc = nnn;
                },
                Err(e) => {
                    return Err(e);
                },
            }
        } else if f == 3 {
            self.skip_if(vx == nn);
        } else if f == 4 {
            self.skip_if(vx != nn);
        } else if f == 5 {
            self.skip_if(vx == vy);
        } else if f == 6 {
            self.vx.set(x as usize, nn);
            self.advance();
        } else if f == 7 {
            self.vx.set(x as usize, sum_byte(vx, nn));
            self.advance();
        } else if f == 8 {
            if !self.run_alu(x, y, n) {
                return Err(Chip8Error::InvalidOpcode { pc: self.pc, instruction: word });
            }
            self.advance();
        } else if f == 9 {
            self.skip_if(vx != vy);
        } else if f == 0xA {
            self.i = nnn;
            self.advance();
        } else if f == 0xB {
            self.pc = self.vx[0] as u16 + nnn;
        } else {
            self.vx.set(x as usize, random & nn);
            self.advance();
        }
        Ok(())
    }

    /// Moves the counter to the next instruction.
    fn advance(&mut self)
        ensures
            final(self)@ == advanced(old(self)@, 2),
    {
        self.pc = self.pc.wrapping_add(2);
    }

    /// Moves the counter to the next instruction, or past it when `skip` holds.
    fn skip_if(&mut self, skip: bool)
        ensures
            final(self)@ == advanced(old(self)@, if skip { 4int } else { 2int }),
    {
        self.pc = self.pc.wrapping_add(if skip { 4 } else { 2 });
    }
}


impl Cpu {
    /// Draws the `n` rows at the index register at column `x`, row `y`, and
    /// sets the flag register to whether a lit pixel was turned off.
    fn debug_draw_sprite(&mut self, bus: &mut Bus, x: u8, y: u8, n: u8) -> (r: Result<(), Chip8Error>)
        requires
            old(self).wf(),
            old(bus).wf(),
            n < 16,
        ensures
            final(self).wf(),
            final(bus).wf(),
            sprite_fits(old(bus)@.ram, old(self)@.i, x, y, n) ==> r.is_ok() && final(self)@
                == reg_written(
                old(self)@,
                FLAG as int,
                as_flag(
                    sprite_collides(
                        old(bus)@.screen,
                        old(bus)@.ram,
                        old(self)@.i as int,
                        x as int,
                        y as int,
                        n as int,
                    ),
                ),
            ) && final(bus)@ == (BusState {
                screen: sprite_drawn(
                    old(bus)@.screen,
                    old(bus)@.ram,
                    old(self)@.i as int,
                    x as int,
                    y as int,
                    n as int,
                ),
                ..old(bus)@
            }),
            !sprite_fits(old(bus)@.ram, old(self)@.i, x, y, n) ==> r == Err::<(), Chip8Error>(
                Chip8Error::OutOfBounds,
            ) && final(self)@ == old(self)@ && final(bus)@ == old(bus)@,
    {
        if n > 0 && (self.i as usize + n as usize > 4096 || x > 56 || y as usize + n as usize
            > 32) {
            return Err(Chip8Error::OutOfBounds);
        }
        let ghost before = bus@;
        let ghost i = self.i as int;
        let mut erased = false;
        let mut row: u8 = 0;
        proof {
            lemma_no_rows(before.screen, before.ram, i, x as int, y as int);
        }
        while row < n
            invariant
                row <= n,
                n < 16,
                bus.wf(),
                i == self.i,
                n == 0 || (i + n <= 4096 && x + 8 <= 64 && y + n <= 32),
                before.screen.len() == 2048,
                bus@ == (BusState {
                    screen: sprite_drawn(before.screen, before.ram, i, x as int, y as int, row as int),
                    ..before
                }),
                erased == sprite_collides(before.screen, before.ram, i, x as int, y as int, row as int),
            decreases n - row,
        {
            proof {
                lemma_next_row(before.screen, before.ram, i, x as int, y as int, row as int);
            }
            let byte = match bus.ram_read_byte(self.i + row as u16) {
                Ok(byte) => byte,
                Err(e) => {
                    return Err(e);
                },
            };
            match bus.debug_draw_byte(byte, x, y + row) {
                Ok(hit) => {
                    if hit {
                        erased = true;
                    }
                },
                Err(e) => {
                    return Err(e);
                },
            }
            row += 1;
        }
        self.vx.set(FLAG, if erased { 1 } else { 0 });
        Ok(())
    }

    /// Stores the three decimal digits of `value` at the index register.
    fn store_bcd(&self, bus: &mut Bus, value: u8) -> (r: Result<(), Chip8Error>)
        requires
            self.wf(),
            old(bus).wf(),
        ensures
            final(bus).wf(),
            self@.i + 3 <= 4096 ==> r.is_ok() && final(bus)@ == (BusState {
                ram: with_bytes(old(bus)@.ram, self@.i as int, bcd(value)),
                ..old(bus)@
            }),
            self@.i + 3 > 4096 ==> r == Err::<(), Chip8Error>(Chip8Error::OutOfBounds)
                && final(bus)@ == old(bus)@,
    {
        if self.i > 4093 {
            return Err(Chip8Error::OutOfBounds);
        }
        let ghost before = bus@;
        match bus.ram_write_byte(self.i, value / 100) {
            Ok(()) => {},
            Err(e) => {
                return Err(e);
            },
        }
        match bus.ram_write_byte(self.i + 1, (value / 10) % 10) {
            Ok(()) => {},
            Err(e) => {
                return Err(e);
            },
        }
        match bus.ram_write_byte(self.i + 2, value % 10) {
            Ok(()) => {},
            Err(e) => {
                return Err(e);
            },
        }
        assert(bus@.ram =~= with_bytes(before.ram, self.i as int, bcd(value)));
        Ok(())
    }

    /// Stores `V0..=Vx` at the index register and moves it past them.
    fn dump_registers(&mut self, bus: &mut Bus, x: u8) -> (r: Result<(), Chip8Error>)
        requires
            old(self).wf(),
            old(bus).wf(),
            x < 16,
        ensures
            final(self).wf(),
            final(bus).wf(),
            old(self)@.i + x + 1 <= 4096 ==> r.is_ok() && final(self)@ == (CpuState {
                i: (old(self)@.i + x + 1) as u16,
                ..old(self)@
            }) && final(bus)@ == (BusState {
                ram: with_bytes(
                    old(bus)@.ram,
                    old(self)@.i as int,
                    old(self)@.v.subrange(0, x + 1),
                ),
                ..old(bus)@
            }),
            old(self)@.i + x + 1 > 4096 ==> r == Err::<(), Chip8Error>(Chip8Error::OutOfBounds)
                && final(self)@ == old(self)@ && final(bus)@ == old(bus)@,
    {
        if self.i as usize + x as usize + 1 > 4096 {
            return Err(Chip8Error::OutOfBounds);
        }
        let ghost before = bus@;
        let mut k: u8 = 0;
        assert(before.ram =~= with_bytes(before.ram, self.i as int, self.vx@.subrange(0, 0)));
        while k <= x
            invariant
                k <= x + 1,
                x < 16,
                self.wf(),
                bus.wf(),
                self.i + x + 1 <= 4096,
                before.ram.len() == 4096,
                bus@ == (BusState {
                    ram: with_bytes(before.ram, self.i as int, self.vx@.subrange(0, k as int)),
                    ..before
                }),
            decreases x + 1 - k,
        {
            match bus.ram_write_byte(self.i + k as u16, self.vx[k as usize]) {
                Ok(()) => {},
                Err(e) => {
                    return Err(e);
                },
            }
            assert(bus@.ram =~= with_bytes(
                before.ram,
                self.i as int,
                self.vx@.subrange(0, k as int + 1),
            ));
            k += 1;
        }
        self.i = self.i + x as u16 + 1;
        Ok(())
    }

    /// Reads `V0..=Vx` from memory at the index register and moves it past them.
    fn load_registers(&mut self, bus: &Bus, x: u8) -> (r: Result<(), Chip8Error>)
        requires
            old(self).wf(),
            bus.wf(),
            x < 16,
        ensures
            final(self).wf(),
            old(self)@.i + x + 1 <= 4096 ==> r.is_ok() && final(self)@ == (CpuState {
                v: regs_loaded(old(self)@.v, bus@.ram, old(self)@.i as int, x as int),
                i: (old(self)@.i + x + 1) as u16,
                ..old(self)@
            }),
            old(self)@.i + x + 1 > 4096 ==> r == Err::<(), Chip8Error>(Chip8Error::OutOfBounds)
                && final(self)@ == old(self)@,
    {
        if self.i as usize + x as usize + 1 > 4096 {
            return Err(Chip8Error::OutOfBounds);
        }
        let ghost before = self.vx@;
        let ghost start = self@;
        let mut k: u8 = 0;
        while k <= x
            invariant
                k <= x + 1,
                x < 16,
                bus.wf(),
                self@ == (CpuState { v: self.vx@, ..start }),
                self.i + x + 1 <= 4096,
                before.len() == 16,
                self.vx@.len() == 16,
                forall|j: int|
                    0 <= j < 16 ==> #[trigger] self.vx@[j] == if j < k {
                        bus@.ram[self.i + j]
                    } else {
                        before[j]
                    },
            decreases x + 1 - k,
        {
            match bus.ram_read_byte(self.i + k as u16) {
                Ok(byte) => {
                    self.vx.set(k as usize, byte);
                },
                Err(e) => {
                    return Err(e);
                },
            }
            k += 1;
        }
        assert(self.vx@ =~= regs_loaded(before, bus@.ram, self.i as int, x as int));
        self.i = self.i + x as u16 + 1;
        Ok(())
    }

    /// The instructions that reach through the bus.
    fn run_bus(&mut self, bus: &mut Bus, word: u16) -> (r: Result<(), Chip8Error>)
        requires
            old(self).wf(),
            old(bus).wf(),
            !is_flow(word),
        ensures
            final(self).wf(),
            final(bus).wf(),
            outcome_is(
                execute_bus(machine(old(self)@, old(bus)@), word),
                machine(old(self)@, old(bus)@),
                machine(final(self)@, final(bus)@),
                r,
            ),
    {
        let f: u16 = word / 4096;
        let nn: u8 = (word % 256) as u8;
        let n: u8 = (word % 16) as u8;
        let x: u8 = ((word / 256) % 16) as u8;
        let y: u8 = ((word / 16) % 16) as u8;
        let vx: u8 = self.vx[x as usize];
        let vy: u8 = self.vx[y as usize];
        if f == 0 && nn == 0xE0 {
            bus.clear_screen();
            self.advance();
        } else if f == 0xD {
            match self.debug_draw_sprite(bus, vx, vy, n) {
                Ok(()) => {
                    self.advance();
                },
                Err(e) => {
                    return Err(e);
                },
            }
        } else if f == 0xE && nn == 0x9E {
            let down = bus.key_pressed(vx);
            self.skip_if(down);
        } else if f == 0xE && nn == 0xA1 {
            let down = bus.key_pressed(vx);
            self.skip_if(!down);
        } else if f == 0xF && nn == 0x07 {
            self.vx.set(x as usize, bus.get_delay_timer());
            self.advance();
        } else if f == 0xF && nn == 0x0A {
            match bus.get_key_pressed() {
                Some(key) => {
                    self.vx.set(x as usize, key);
                    self.advance();
                },
                None => {
                    self.awaiting_key = true;
                },
            }
        } else if f == 0xF && nn == 0x15 {
            bus.set_delay_timer(vx);
            self.advance();
        } else if f == 0xF && nn == 0x18 {
            bus.set_sound_timer(vx);
            self.advance();
        } else if f == 0xF && nn == 0x1E {
            self.i = self.i.wrapping_add(vx as u16);
            self.advance();
        } else if f == 0xF && nn == 0x29 {
            self.i = vx as u16 * GLYPH_ROWS;
            self.advance();
        } else if f == 0xF && nn == 0x33 {
            match self.store_bcd(bus, vx) {
                Ok(()) => {
                    self.advance();
                },
                Err(e) => {
                    return Err(e);
                },
            }
        } else if f == 0xF && nn == 0x55 {
            match self.dump_registers(bus, x) {
                Ok(()) => {
                    self.advance();
                },
                Err(e) => {
                    return Err(e);
                },
            }
        } else if f == 0xF && nn == 0x65 {
            match self.load_registers(bus, x) {
                Ok(()) => {
                    self.advance();
                },
                Err(e) => {
                    return Err(e);
                },
            }
        } else {
            return Err(Chip8Error::InvalidOpcode { pc: self.pc, instruction: word });
        }
        Ok(())
    }

    /// Executes the instruction `word`, with `random` as the byte that the
    /// random instruction draws. The counter is not compared with that of the
    /// previous step here: `step_with` does that.
    pub fn execute(&mut self, bus: &mut Bus, word: u16, random: u8) -> (r: Result<
        (),
        Chip8Error,
    >)
        requires
            old(self).wf(),
            old(bus).wf(),
        ensures
            final(self).wf(),
            final(bus).wf(),
            outcome_is(
                execute(machine(old(self)@, old(bus)@), word, random),
                machine(old(self)@, old(bus)@),
                machine(final(self)@, final(bus)@),
                r,
            ),
    {
        let f: u16 = word / 4096;
        if (f == 0 && word % 256 == 0xEE) || (1 <= f && f <= 0xC) {
            self.run_flow(word, random)
        } else {
            self.run_bus(bus, word)
        }
    }

    /// The instruction word at the counter; `OutOfBounds` exactly when one of
    /// its two bytes lies outside memory.
    pub fn fetch(&self, bus: &Bus) -> (r: Result<u16, Chip8Error>)
        requires
            bus.wf(),
        ensures
            match fetch(bus@.ram, self@.pc) {
                Some(word) => r == Ok::<u16, Chip8Error>(word),
                None => r == Err::<u16, Chip8Error>(Chip8Error::OutOfBounds),
            },
    {
        if self.pc >= 4095 {
            return Err(Chip8Error::OutOfBounds);
        }
        let hi = match bus.ram_read_byte(self.pc) {
            Ok(byte) => byte,
            Err(e) => {
                return Err(e);
            },
        };
        let lo = match bus.ram_read_byte(self.pc + 1) {
            Ok(byte) => byte,
            Err(e) => {
                return Err(e);
            },
        };
        Ok(hi as u16 * 256 + lo as u16)
    }

    /// One step with `random` as the byte that the random instruction draws:
    /// fetches the word at the counter, fails with `EngineStall` where the
    /// counter has not moved since the previous step began (unless that step
    /// waited for a key), and executes the word. On `Err` nothing has changed.
    pub fn step_with(&mut self, bus: &mut Bus, random: u8) -> (r: Result<(), Chip8Error>)
        requires
            old(self).wf(),
            old(bus).wf(),
        ensures
            final(self).wf(),
            final(bus).wf(),
            outcome_is(
                step(machine(old(self)@, old(bus)@), random),
                machine(old(self)@, old(bus)@),
                machine(final(self)@, final(bus)@),
                r,
            ),
    {
        let word = match self.fetch(bus) {
            Ok(word) => word,
            Err(e) => {
                return Err(e);
            },
        };
        let was_awaiting = self.awaiting_key;
        let prev = self.prev_pc;
        let same = match prev {
            Some(pc) => pc == self.pc,
            None => false,
        };
        if !was_awaiting && same {
            return Err(Chip8Error::EngineStall);
        }
        self.prev_pc = Some(self.pc);
        self.awaiting_key = false;
        match self.execute(bus, word, random) {
            Ok(()) => Ok(()),
            Err(e) => {
                self.prev_pc = prev;
                self.awaiting_key = was_awaiting;
                Err(e)
            },
        }
    }

    /// One step of the machine. Where the word at the counter is the random
    /// instruction, its byte is drawn from the generator, and the step is
    /// `step_with` on that byte, whichever it is. On every other word the
    /// generator is left alone and the step is `step_with` on any byte.
    pub fn run_instruction(&mut self, bus: &mut Bus) -> (r: Result<(), Chip8Error>)
        requires
            old(self).wf(),
            old(bus).wf(),
        ensures
            final(self).wf(),
            final(bus).wf(),
            exists|random: u8|
                outcome_is(
                    #[trigger] step(machine(old(self)@, old(bus)@), random),
                    machine(old(self)@, old(bus)@),
                    machine(final(self)@, final(bus)@),
                    r,
                ),
            !draws_random(machine(old(self)@, old(bus)@)) ==> outcome_is(
                step(machine(old(self)@, old(bus)@), 0),
                machine(old(self)@, old(bus)@),
                machine(final(self)@, final(bus)@),
                r,
            ),
    {
        let draws = match self.fetch(bus) {
            Ok(word) => word / 4096 == 0xC,
            Err(_) => false,
        };
        let random: u8 = if draws { sample_byte(&mut self.rng) } else { 0 };
        self.step_with(bus, random)
    }
}

} // verus!
