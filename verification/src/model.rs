//! The mathematical model of the machine, and what one instruction does to it.
//!
//! An instruction word is two bytes, the first the high one. Its top nibble is
//! the family; the low twelve bits are an address, the low byte an immediate
//! or a selector, the low nibble an immediate or a selector, and the two middle
//! nibbles name the registers `x` and `y`.

use vstd::prelude::*;
use crate::error::Chip8Error;
use crate::ram::with_bytes;
use crate::display::{blank_screen, pixel_index, row_on_display, sprite_bit};
use crate::keyboard::{first_key_down, key_down};

verus! {

/// Number of general registers.
pub const REGISTERS: usize = 16;

/// The register that arithmetic and drawing use as their flag.
pub const FLAG: usize = 15;

/// Most return addresses that the call stack holds.
pub const STACK_DEPTH: usize = 16;

/// Where programs are loaded and where execution starts.
pub const PROGRAM_START: u16 = 0x200;

/// Rows of a font glyph.
pub const GLYPH_ROWS: u16 = 5;

/// The two points on which the architecture's descriptions differ.
///
/// `Conventions::standard()` is what `Cpu::new` uses: shifts read `Vx`, and a
/// subtraction sets the flag to 1 when it did not borrow.
#[derive(Clone, Copy, Debug, PartialEq, Eq, Structural)]
pub struct Conventions {
    /// Shifts read `Vy` (and store into `Vx`) when set, `Vx` otherwise.
    pub shift_reads_vy: bool,
    /// Subtractions set the flag to 1 on a borrow when set, to 1 when there
    /// was no borrow otherwise.
    pub flag_on_borrow: bool,
}

/// The register file.
pub struct CpuState {
    pub v: Seq<u8>,
    pub i: u16,
    pub pc: u16,
    /// The program counter at the start of the previous step, if there was one.
    pub prev_pc: Option<u16>,
    /// The previous step was a wait for a key that found none.
    pub awaiting_key: bool,
    pub stack: Seq<u16>,
    pub conventions: Conventions,
}

/// What the engine reaches through the bus.
pub struct BusState {
    pub ram: Seq<u8>,
    pub screen: Seq<bool>,
    pub keys: Seq<bool>,
    pub delay_timer: u8,
    pub sound_timer: u8,
}

/// The whole machine.
pub struct Machine {
    pub cpu: CpuState,
    pub bus: BusState,
}

/// Sixteen registers, and no more return addresses than the stack holds.
pub open spec fn cpu_wf(c: CpuState) -> bool {
    c.v.len() == REGISTERS && c.stack.len() <= STACK_DEPTH
}

/// Memory, display and keyboard of their fixed sizes.
pub open spec fn bus_wf(b: BusState) -> bool {
    b.ram.len() == 4096 && b.screen.len() == 2048 && b.keys.len() == 16
}

/// Both halves of the machine are well formed.
pub open spec fn machine_wf(m: Machine) -> bool {
    cpu_wf(m.cpu) && bus_wf(m.bus)
}

/// The machine made of a register file and a bus.
pub open spec fn machine(cpu: CpuState, bus: BusState) -> Machine {
    Machine { cpu, bus }
}

/// The register file of a new machine.
pub open spec fn initial_cpu(conventions: Conventions) -> CpuState {
    CpuState {
        v: Seq::new(REGISTERS as nat, |k: int| 0u8),
        i: 0,
        pc: PROGRAM_START,
        prev_pc: None,
        awaiting_key: false,
        stack: Seq::empty(),
        conventions,
    }
}

// ----- the fields of an instruction word -----

/// The top nibble.
pub open spec fn family(word: u16) -> int {
    word as int / 4096
}

/// The low twelve bits.
pub open spec fn field_nnn(word: u16) -> u16 {
    (word as int % 4096) as u16
}

/// The low byte.
pub open spec fn field_nn(word: u16) -> u8 {
    (word as int % 256) as u8
}

/// The low nibble.
pub open spec fn field_n(word: u16) -> u8 {
    (word as int % 16) as u8
}

/// Bits 8 to 11: the register `x`.
pub open spec fn field_x(word: u16) -> int {
    (word as int / 256) % 16
}

/// Bits 4 to 7: the register `y`.
pub open spec fn field_y(word: u16) -> int {
    (word as int / 16) % 16
}

/// The word at `pc`, when both of its bytes are in memory.
pub open spec fn fetch(ram: Seq<u8>, pc: u16) -> Option<u16> {
    if pc + 1 < ram.len() {
        Some((ram[pc as int] as int * 256 + ram[pc + 1] as int) as u16)
    } else {
        None
    }
}

// ----- small changes of state -----

/// The value of register `x`.
pub open spec fn reg(c: CpuState, x: int) -> u8 {
    c.v[x]
}

/// The register file with `value` in register `x`.
pub open spec fn reg_written(c: CpuState, x: int, value: u8) -> CpuState {
    CpuState { v: c.v.update(x, value), ..c }
}

/// The register file with the counter at `pc`.
pub open spec fn pc_set(c: CpuState, pc: u16) -> CpuState {
    CpuState { pc, ..c }
}

/// The counter moved on by `by` bytes, within its sixteen bits.
pub open spec fn advanced(c: CpuState, by: int) -> CpuState {
    CpuState { pc: ((c.pc + by) % 65536) as u16, ..c }
}

/// The counter moved past the next instruction too when `skip` holds.
pub open spec fn skipped(c: CpuState, skip: bool) -> CpuState {
    advanced(c, if skip { 4 } else { 2 })
}

/// A condition as the flag register holds it.
pub open spec fn as_flag(b: bool) -> u8 {
    if b { 1 } else { 0 }
}

/// The flag after a subtraction that did, or did not, borrow.
pub open spec fn borrow_flag(conventions: Conventions, borrow: bool) -> u8 {
    as_flag(borrow == conventions.flag_on_borrow)
}

/// The registers after `value` went to `Vx` and then `flag` to the flag
/// register: where `x` names the flag register, the flag stands.
pub open spec fn result_and_flag(v: Seq<u8>, x: int, value: u8, flag: u8) -> Seq<u8> {
    v.update(x, value).update(FLAG as int, flag)
}

// ----- the arithmetic family -----

/// The registers after the arithmetic instruction `n` on `Vx` and `Vy`;
/// `None` where `n` selects none.
pub open spec fn alu(c: CpuState, x: int, y: int, n: u8) -> Option<Seq<u8>> {
    let vx = c.v[x];
    let vy = c.v[y];
    let shifted = if c.conventions.shift_reads_vy { vy } else { vx };
    if n == 0 {
        Some(c.v.update(x, vy))
    } else if n == 2 {
        Some(c.v.update(x, vx & vy))
    } else if n == 3 {
        Some(c.v.update(x, vx ^ vy))
    } else if n == 4 {
        Some(result_and_flag(c.v, x, ((vx + vy) % 256) as u8, as_flag(vx + vy > 255)))
    } else if n == 5 {
        Some(
            result_and_flag(
                c.v,
                x,
                ((vx - vy) % 256) as u8,
                borrow_flag(c.conventions, vx < vy),
            ),
        )
    } else if n == 6 {
        Some(result_and_flag(c.v, x, shifted / 2, shifted % 2))
    } else if n == 7 {
        Some(
            result_and_flag(
                c.v,
                x,
                ((vy - vx) % 256) as u8,
                borrow_flag(c.conventions, vy < vx),
            ),
        )
    } else if n == 0xE {
        Some(result_and_flag(c.v, x, ((shifted * 2) % 256) as u8, shifted / 128))
    } else {
        None
    }
}

// ----- drawing -----

/// Whether the sprite of `n` rows at `i`, drawn at column `x` and row `y`,
/// has all its bytes in memory and all its rows on the display.
pub open spec fn sprite_fits(ram: Seq<u8>, i: u16, x: u8, y: u8, n: u8) -> bool {
    n == 0 || (i + n <= ram.len() && row_on_display(x as int, y as int) && y + n <= 32)
}

/// The pixel at buffer position `p` after the sprite was drawn: toggled where
/// a lit bit of the sprite covers it.
pub open spec fn sprite_pixel(screen: Seq<bool>, ram: Seq<u8>, i: int, x: int, y: int, n: int, p: int) -> bool {
    let row = p / 64 - y;
    let col = p % 64 - x;
    if 0 <= row < n && 0 <= col < 8 {
        screen[p] != sprite_bit(ram[i + row], col)
    } else {
        screen[p]
    }
}

/// The buffer after the `n` rows at `i` were drawn at column `x`, row `y`.
pub open spec fn sprite_drawn(screen: Seq<bool>, ram: Seq<u8>, i: int, x: int, y: int, n: int) -> Seq<bool> {
    Seq::new(screen.len(), |p: int| sprite_pixel(screen, ram, i, x, y, n, p))
}

/// Whether the bit at `row` and `col` of the sprite is lit over a lit pixel.
pub open spec fn sprite_erases(screen: Seq<bool>, ram: Seq<u8>, i: int, x: int, y: int, n: int, row: int, col: int) -> bool {
    0 <= row < n && 0 <= col < 8 && sprite_bit(ram[i + row], col) && screen[pixel_index(
        x + col,
        y + row,
    )]
}

/// Whether drawing the sprite turns a lit pixel off.
pub open spec fn sprite_collides(screen: Seq<bool>, ram: Seq<u8>, i: int, x: int, y: int, n: int) -> bool {
    exists|row: int, col: int| sprite_erases(screen, ram, i, x, y, n, row, col)
}

// ----- memory transfers -----

/// The three decimal digits of `value`, hundreds first.
pub open spec fn bcd(value: u8) -> Seq<u8> {
    seq![value / 100, (value / 10) % 10, value % 10]
}

/// The registers after `V0..=Vx` were read from memory at `i`.
pub open spec fn regs_loaded(v: Seq<u8>, ram: Seq<u8>, i: int, x: int) -> Seq<u8> {
    Seq::new(v.len(), |k: int| if k <= x { ram[i + k] } else { v[k] })
}

// ----- one instruction -----

/// The failure on a word that is no instruction.
pub open spec fn invalid<T>(c: CpuState, word: u16) -> Result<T, Chip8Error> {
    Err(Chip8Error::InvalidOpcode { pc: c.pc, instruction: word })
}

/// The families that only read and write the register file.
pub open spec fn execute_flow(c: CpuState, word: u16, random: u8) -> Result<CpuState, Chip8Error> {
    let f = family(word);
    let nnn = field_nnn(word);
    let nn = field_nn(word);
    let x = field_x(word);
    let y = field_y(word);
    if f == 0 && nn == 0xEE {
        if c.stack.len() == 0 {
            Err(Chip8Error::StackUnderflow)
        } else {
            Ok(CpuState { pc: c.stack.last(), stack: c.stack.drop_last(), ..c })
        }
    } else if f == 1 {
        Ok(pc_set(c, nnn))
    } else if f == 2 {
        if c.stack.len() >= STACK_DEPTH {
            Err(Chip8Error::StackOverflow)
        } else {
            Ok(CpuState { pc: nnn, stack: c.stack.push(((c.pc + 2) % 65536) as u16), ..c })
        }
    } else if f == 3 {
        Ok(skipped(c, c.v[x] == nn))
    } else if f == 4 {
        Ok(skipped(c, c.v[x] != nn))
    } else if f == 5 {
        Ok(skipped(c, c.v[x] == c.v[y]))
    } else if f == 6 {
        Ok(advanced(reg_written(c, x, nn), 2))
    } else if f == 7 {
        Ok(advanced(reg_written(c, x, ((c.v[x] + nn) % 256) as u8), 2))
    } else if f == 8 {
        match alu(c, x, y, field_n(word)) {
            Some(v) => Ok(advanced(CpuState { v, ..c }, 2)),
            None => invalid(c, word),
        }
    } else if f == 9 {
        Ok(skipped(c, c.v[x] != c.v[y]))
    } else if f == 0xA {
        Ok(advanced(CpuState { i: nnn, ..c }, 2))
    } else if f == 0xB {
        Ok(pc_set(c, (c.v[0] + nnn) as u16))
    } else if f == 0xC {
        Ok(advanced(reg_written(c, x, random & nn), 2))
    } else {
        invalid(c, word)
    }
}

/// Whether `word` belongs to a family that only reads and writes the register file.
pub open spec fn is_flow(word: u16) -> bool {
    let f = family(word);
    (f == 0 && field_nn(word) == 0xEE) || (1 <= f <= 0xC)
}

/// The families that reach through the bus: the display, the keys, the timers
/// and memory.
pub open spec fn execute_bus(m: Machine, word: u16) -> Result<Machine, Chip8Error> {
    let c = m.cpu;
    let b = m.bus;
    let f = family(word);
    let nn = field_nn(word);
    let n = field_n(word);
    let x = field_x(word);
    let vx = c.v[x];
    let vy = c.v[field_y(word)];
    if f == 0 && nn == 0xE0 {
        Ok(Machine { cpu: advanced(c, 2), bus: BusState { screen: blank_screen(), ..b } })
    } else if f == 0xD {
        if sprite_fits(b.ram, c.i, vx, vy, n) {
            Ok(
                Machine {
                    cpu: advanced(
                        reg_written(
                            c,
                            FLAG as int,
                            as_flag(
                                sprite_collides(
                                    b.screen,
                                    b.ram,
                                    c.i as int,
                                    vx as int,
                                    vy as int,
                                    n as int,
                                ),
                            ),
                        ),
                        2,
                    ),
                    bus: BusState {
                        screen: sprite_drawn(
                            b.screen,
                            b.ram,
                            c.i as int,
                            vx as int,
                            vy as int,
                            n as int,
                        ),
                        ..b
                    },
                },
            )
        } else {
            Err(Chip8Error::OutOfBounds)
        }
    } else if f == 0xE && nn == 0x9E {
        Ok(Machine { cpu: skipped(c, key_down(b.keys, vx as int)), bus: b })
    } else if f == 0xE && nn == 0xA1 {
        Ok(Machine { cpu: skipped(c, !key_down(b.keys, vx as int)), bus: b })
    } else if f == 0xF && nn == 0x07 {
        Ok(Machine { cpu: advanced(reg_written(c, x, b.delay_timer), 2), bus: b })
    } else if f == 0xF && nn == 0x0A {
        match first_key_down(b.keys) {
            Some(key) => Ok(Machine { cpu: advanced(reg_written(c, x, key), 2), bus: b }),
            None => Ok(Machine { cpu: CpuState { awaiting_key: true, ..c }, bus: b }),
        }
    } else if f == 0xF && nn == 0x15 {
        Ok(Machine { cpu: advanced(c, 2), bus: BusState { delay_timer: vx, ..b } })
    } else if f == 0xF && nn == 0x18 {
        Ok(Machine { cpu: advanced(c, 2), bus: BusState { sound_timer: vx, ..b } })
    } else if f == 0xF && nn == 0x1E {
        Ok(Machine { cpu: advanced(CpuState { i: ((c.i + vx) % 65536) as u16, ..c }, 2), bus: b })
    } else if f == 0xF && nn == 0x29 {
        Ok(Machine { cpu: advanced(CpuState { i: (vx * GLYPH_ROWS) as u16, ..c }, 2), bus: b })
    } else if f == 0xF && nn == 0x33 {
        if c.i + 3 <= b.ram.len() {
            Ok(
                Machine {
                    cpu: advanced(c, 2),
                    bus: BusState { ram: with_bytes(b.ram, c.i as int, bcd(vx)), ..b },
                },
            )
        } else {
            Err(Chip8Error::OutOfBounds)
        }
    } else if f == 0xF && nn == 0x55 {
        if c.i + x + 1 <= b.ram.len() {
            Ok(
                Machine {
                    cpu: advanced(CpuState { i: (c.i + x + 1) as u16, ..c }, 2),
                    bus: BusState {
                        ram: with_bytes(b.ram, c.i as int, c.v.subrange(0, x + 1)),
                        ..b
                    },
                },
            )
        } else {
            Err(Chip8Error::OutOfBounds)
        }
    } else if f == 0xF && nn == 0x65 {
        if c.i + x + 1 <= b.ram.len() {
            Ok(
                Machine {
                    cpu: advanced(
                        CpuState {
                            v: regs_loaded(c.v, b.ram, c.i as int, x),
                            i: (c.i + x + 1) as u16,
                            ..c
                        },
                        2,
                    ),
                    bus: b,
                },
            )
        } else {
            Err(Chip8Error::OutOfBounds)
        }
    } else {
        invalid(c, word)
    }
}

/// What the instruction `word` does to the machine `m`, `random` being the
/// byte that the random instruction draws. On `Err` the machine stays as it was.
pub open spec fn execute(m: Machine, word: u16, random: u8) -> Result<Machine, Chip8Error> {
    if is_flow(word) {
        match execute_flow(m.cpu, word, random) {
            Ok(cpu) => Ok(Machine { cpu, bus: m.bus }),
            Err(e) => Err(e),
        }
    } else {
        execute_bus(m, word)
    }
}

/// Whether the counter stands where it stood at the start of the previous
/// step, and that step was no wait for a key.
pub open spec fn stalled(c: CpuState) -> bool {
    !c.awaiting_key && c.prev_pc == Some(c.pc)
}

/// The register file once a step has fetched its word and passed the guard.
pub open spec fn begun(c: CpuState) -> CpuState {
    CpuState { prev_pc: Some(c.pc), awaiting_key: false, ..c }
}

/// One step of the machine: fetch, guard, execute.
pub open spec fn step(m: Machine, random: u8) -> Result<Machine, Chip8Error> {
    match fetch(m.bus.ram, m.cpu.pc) {
        None => Err(Chip8Error::OutOfBounds),
        Some(word) => if stalled(m.cpu) {
            Err(Chip8Error::EngineStall)
        } else {
            execute(Machine { cpu: begun(m.cpu), bus: m.bus }, word, random)
        },
    }
}

/// Whether the step of `m` reaches the random instruction's word.
pub open spec fn draws_random(m: Machine) -> bool {
    match fetch(m.bus.ram, m.cpu.pc) {
        Some(word) => family(word) == 0xC,
        None => false,
    }
}

/// Whether the call `r` that started on `before` ended on `after` as `expected` says.
pub open spec fn outcome_is(
    expected: Result<Machine, Chip8Error>,
    before: Machine,
    after: Machine,
    r: Result<(), Chip8Error>,
) -> bool {
    match expected {
        Ok(m) => r.is_ok() && after == m,
        Err(e) => r == Err::<(), Chip8Error>(e) && after == before,
    }
}

} // verus!
