//! What holds of the instructions, whatever the machine: stated over the
//! model that the contracts of the engine use, and proved.

use vstd::prelude::*;
use crate::error::Chip8Error;
use crate::display::{blank_screen, pixel_index, sprite_bit};
use crate::keyboard::key_down;
use crate::model::{
    CpuState, Machine, FLAG, REGISTERS, STACK_DEPTH, advanced, as_flag, bcd,
    cpu_wf, draws_random, execute, family, fetch, field_n, field_nn, field_nnn, field_x, field_y, machine,
    machine_wf, reg, reg_written, sprite_collides, sprite_drawn, sprite_erases, stalled, step,
};

verus! {

/// A register that was set holds the value it was set to, and the other
/// registers hold what they held.
pub proof fn law_register_set_then_get(c: CpuState, x: int, value: u8, other: int)
    requires
        cpu_wf(c),
        0 <= x < REGISTERS,
        0 <= other < REGISTERS,
    ensures
        reg(reg_written(c, x, value), x) == value,
        other != x ==> reg(reg_written(c, x, value), other) == reg(c, other),
        cpu_wf(reg_written(c, x, value)),
{
}

/// A jump leaves the counter at its target, not past it, and changes nothing else.
pub proof fn law_jump_sets_counter(m: Machine, word: u16, random: u8)
    requires
        machine_wf(m),
        family(word) == 1,
    ensures
        execute(m, word, random) == Ok::<Machine, Chip8Error>(
            machine(CpuState { pc: field_nnn(word), ..m.cpu }, m.bus),
        ),
{
}

/// A call followed by a return leaves the counter at the instruction after
/// the call, and the call stack as it was.
pub proof fn law_call_then_return(m: Machine, call: u16, ret: u16, random: u8)
    requires
        machine_wf(m),
        m.cpu.stack.len() < STACK_DEPTH,
        family(call) == 2,
        family(ret) == 0,
        field_nn(ret) == 0xEE,
    ensures
        execute(m, call, random) is Ok,
        execute(m, call, random)->Ok_0.cpu.pc == field_nnn(call),
        execute(execute(m, call, random)->Ok_0, ret, random) is Ok,
        execute(execute(m, call, random)->Ok_0, ret, random)->Ok_0.cpu.pc == (m.cpu.pc + 2)
            % 65536,
        execute(execute(m, call, random)->Ok_0, ret, random)->Ok_0.cpu.stack == m.cpu.stack,
        execute(execute(m, call, random)->Ok_0, ret, random)->Ok_0.bus == m.bus,
{
    let pushed = m.cpu.stack.push(((m.cpu.pc + 2) % 65536) as u16);
    assert(pushed.drop_last() =~= m.cpu.stack);
}

/// A call on a full stack fails with `StackOverflow`, a return on an empty one
/// with `StackUnderflow`.
pub proof fn law_stack_bounds(m: Machine, word: u16, random: u8)
    requires
        machine_wf(m),
    ensures
        family(word) == 2 && m.cpu.stack.len() == STACK_DEPTH ==> execute(m, word, random) == Err::<
            Machine,
            Chip8Error,
        >(Chip8Error::StackOverflow),
        family(word) == 0 && field_nn(word) == 0xEE && m.cpu.stack.len() == 0 ==> execute(
            m,
            word,
            random,
        ) == Err::<Machine, Chip8Error>(Chip8Error::StackUnderflow),
{
}

/// Adding an immediate wraps modulo 256 and touches no other register, the
/// flag register included.
pub proof fn law_add_immediate_wraps(m: Machine, word: u16, random: u8)
    requires
        machine_wf(m),
        family(word) == 7,
    ensures
        execute(m, word, random) == Ok::<Machine, Chip8Error>(
            machine(
                advanced(
                    reg_written(
                        m.cpu,
                        field_x(word),
                        ((m.cpu.v[field_x(word)] + field_nn(word)) % 256) as u8,
                    ),
                    2,
                ),
                m.bus,
            ),
        ),
        field_x(word) != FLAG ==> execute(m, word, random)->Ok_0.cpu.v[FLAG as int]
            == m.cpu.v[FLAG as int],
{
}

/// The sum of two registers: the destination holds the low byte, the flag
/// register whether the sum passed 255. Where the destination is the flag
/// register, the flag stands.
pub proof fn law_register_sum_sets_carry(m: Machine, word: u16, random: u8)
    requires
        machine_wf(m),
        family(word) == 8,
        field_n(word) == 4,
    ensures
        execute(m, word, random) is Ok,
        execute(m, word, random)->Ok_0.cpu.v[FLAG as int] == as_flag(
            m.cpu.v[field_x(word)] + m.cpu.v[field_y(word)] > 255,
        ),
        field_x(word) != FLAG ==> execute(m, word, random)->Ok_0.cpu.v[field_x(word)] == (
        m.cpu.v[field_x(word)] + m.cpu.v[field_y(word)]) % 256,
{
}

/// The three digits that the decimal store writes make up the value again,
/// and each is a digit.
pub proof fn law_bcd_digits(value: u8)
    ensures
        bcd(value).len() == 3,
        bcd(value)[0] * 100 + bcd(value)[1] * 10 + bcd(value)[2] == value,
        bcd(value)[0] <= 2,
        bcd(value)[1] <= 9,
        bcd(value)[2] <= 9,
{
}

/// Skip-if-equal-immediate moves the counter by 4 where the register holds
/// the immediate and by 2 where it does not; skip-if-not-equal the other way
/// round. Nothing else changes.
pub proof fn law_skip_on_immediate(m: Machine, word: u16, random: u8)
    requires
        machine_wf(m),
        family(word) == 3 || family(word) == 4,
    ensures
        execute(m, word, random) == Ok::<Machine, Chip8Error>(
            machine(
                advanced(
                    m.cpu,
                    if (m.cpu.v[field_x(word)] == field_nn(word)) == (family(word) == 3) {
                        4int
                    } else {
                        2int
                    },
                ),
                m.bus,
            ),
        ),
{
}

/// A step that succeeds without moving the counter, and is no wait for a
/// key, makes the next step fail with `EngineStall`.
pub proof fn law_stall_is_detected(m: Machine, random: u8, next_random: u8)
    requires
        machine_wf(m),
        step(m, random) is Ok,
        step(m, random)->Ok_0.cpu.pc == m.cpu.pc,
        !step(m, random)->Ok_0.cpu.awaiting_key,
    ensures
        step(step(m, random)->Ok_0, next_random) == Err::<Machine, Chip8Error>(
            Chip8Error::EngineStall,
        ),
{
    let after = step(m, random)->Ok_0;
    assert(after.cpu.prev_pc == Some(m.cpu.pc));
    assert(after.bus.ram.len() == m.bus.ram.len());
}

/// A wait for a key that finds none down succeeds, leaves the counter where
/// it is and the machine waiting; the step after it is no stall but the same
/// wait again, for as long as no key is down.
pub proof fn law_key_wait_repeats(m: Machine, word: u16, random: u8, next_random: u8)
    requires
        machine_wf(m),
        fetch(m.bus.ram, m.cpu.pc) == Some(word),
        !stalled(m.cpu),
        family(word) == 0xF,
        field_nn(word) == 0x0A,
        forall|k: int| !key_down(m.bus.keys, k),
    ensures
        step(m, random) == Ok::<Machine, Chip8Error>(
            machine(
                CpuState { prev_pc: Some(m.cpu.pc), awaiting_key: true, ..m.cpu },
                m.bus,
            ),
        ),
        step(step(m, random)->Ok_0, next_random) == step(m, random),
{
}

/// Whether the bit at `row` and `col` of the sprite is lit over a pixel that is off.
pub open spec fn sprite_lights(
    screen: Seq<bool>,
    ram: Seq<u8>,
    i: int,
    x: int,
    y: int,
    n: int,
    row: int,
    col: int,
) -> bool {
    0 <= row < n && 0 <= col < 8 && sprite_bit(ram[i + row], col) && !screen[pixel_index(
        x + col,
        y + row,
    )]
}

/// Drawing a sprite twice at the same place gives back the display as it
/// was. Where the first draw lit a pixel, the second reports a collision.
pub proof fn law_draw_twice_restores(
    screen: Seq<bool>,
    ram: Seq<u8>,
    i: int,
    x: int,
    y: int,
    n: int,
)
    requires
        screen.len() == 2048,
        0 <= x,
        x + 8 <= 64,
        0 <= y,
        0 <= n,
        y + n <= 32,
    ensures
        sprite_drawn(sprite_drawn(screen, ram, i, x, y, n), ram, i, x, y, n) == screen,
        (exists|row: int, col: int| sprite_lights(screen, ram, i, x, y, n, row, col))
            ==> sprite_collides(sprite_drawn(screen, ram, i, x, y, n), ram, i, x, y, n),
{
    let once = sprite_drawn(screen, ram, i, x, y, n);
    assert(sprite_drawn(once, ram, i, x, y, n) =~= screen);
    if exists|row: int, col: int| sprite_lights(screen, ram, i, x, y, n, row, col) {
        let (row, col) = choose|row: int, col: int|
            sprite_lights(screen, ram, i, x, y, n, row, col);
        let p = pixel_index(x + col, y + row);
        assert(p / 64 == y + row && p % 64 == x + col);
        assert(once[p]);
        assert(sprite_erases(once, ram, i, x, y, n, row, col));
    }
}

/// Dumping `V0..=Vx` and loading them back from the same address into a
/// register file of zeroes gives the same values, and each of the two moves
/// the index register on by `x + 1`.
pub proof fn law_dump_then_load(m: Machine, dump: u16, load: u16, random: u8)
    requires
        machine_wf(m),
        family(dump) == 0xF,
        field_nn(dump) == 0x55,
        family(load) == 0xF,
        field_nn(load) == 0x65,
        field_x(load) == field_x(dump),
        m.cpu.i + field_x(dump) + 1 <= 4096,
    ensures
        ({
            let x = field_x(dump);
            let dumped = execute(m, dump, random);
            let zeroed = machine(
                CpuState {
                    v: Seq::new(REGISTERS as nat, |k: int| 0u8),
                    i: m.cpu.i,
                    ..dumped->Ok_0.cpu
                },
                dumped->Ok_0.bus,
            );
            let loaded = execute(zeroed, load, random);
            &&& dumped is Ok
            &&& dumped->Ok_0.cpu.i == m.cpu.i + x + 1
            &&& dumped->Ok_0.cpu.v == m.cpu.v
            &&& loaded is Ok
            &&& loaded->Ok_0.cpu.i == m.cpu.i + x + 1
            &&& forall|k: int| 0 <= k <= x ==> loaded->Ok_0.cpu.v[k] == m.cpu.v[k]
        }),
{
}

/// A sprite row that is not zero has a lit bit.
pub proof fn law_nonzero_row_has_lit_bit(byte: u8)
    requires
        byte != 0,
    ensures
        exists|col: int| 0 <= col < 8 && sprite_bit(byte, col),
{
    if sprite_bit(byte, 0) {
    } else if sprite_bit(byte, 1) {
    } else if sprite_bit(byte, 2) {
    } else if sprite_bit(byte, 3) {
    } else if sprite_bit(byte, 4) {
    } else if sprite_bit(byte, 5) {
    } else if sprite_bit(byte, 6) {
    } else {
        assert(sprite_bit(byte, 7));
    }
}

/// On a blank display, drawing a sprite with a non-zero row twice leaves the
/// display blank, without a collision on the first draw and with one on the
/// second.
pub proof fn law_draw_twice_on_blank(ram: Seq<u8>, i: int, x: int, y: int, n: int, row: int)
    requires
        0 <= x,
        x + 8 <= 64,
        0 <= y,
        0 <= n,
        y + n <= 32,
        0 <= row < n,
        ram[i + row] != 0,
    ensures
        !sprite_collides(blank_screen(), ram, i, x, y, n),
        sprite_collides(sprite_drawn(blank_screen(), ram, i, x, y, n), ram, i, x, y, n),
        sprite_drawn(sprite_drawn(blank_screen(), ram, i, x, y, n), ram, i, x, y, n)
            == blank_screen(),
{
    let blank = blank_screen();
    let byte = ram[i + row];
    law_nonzero_row_has_lit_bit(byte);
    let col = choose|col: int| 0 <= col < 8 && sprite_bit(byte, col);
    assert(sprite_lights(blank, ram, i, x, y, n, row, col));
    law_draw_twice_restores(blank, ram, i, x, y, n);
    assert forall|r: int, c: int| !sprite_erases(blank, ram, i, x, y, n, r, c) by {
        if 0 <= r < n && 0 <= c < 8 {
            assert(!blank[pixel_index(x + c, y + r)]);
        }
    }
}

/// The byte that the random instruction draws matters to no other
/// instruction, nor to a step that fails before it executes.
pub proof fn law_random_byte_is_for_random_only(m: Machine, random: u8, other: u8)
    requires
        machine_wf(m),
        !draws_random(m),
    ensures
        step(m, random) == step(m, other),
{
}

} // verus!
