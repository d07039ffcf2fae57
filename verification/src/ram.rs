//! Memory: 4096 bytes, the character font at the bottom.

use vstd::prelude::*;
use crate::error::Chip8Error;

verus! {

/// Number of bytes of memory.
pub const RAM_SIZE: usize = 4096;

/// Number of bytes of the built-in font: sixteen glyphs of five rows.
pub const FONT_SIZE: usize = 80;

/// The built-in font, glyph `0` to glyph `F`, five rows each, one byte per row.
pub open spec fn font_data() -> Seq<u8> {
    seq![
        0xF0u8, 0x90u8, 0x90u8, 0x90u8, 0xF0u8,
        0x20u8, 0x60u8, 0x20u8, 0x20u8, 0x70u8,
        0xF0u8, 0x10u8, 0xF0u8, 0x80u8, 0xF0u8,
        0xF0u8, 0x10u8, 0xF0u8, 0x10u8, 0xF0u8,
        0x90u8, 0x90u8, 0xF0u8, 0x10u8, 0x10u8,
        0xF0u8, 0x80u8, 0xF0u8, 0x10u8, 0xF0u8,
        0xF0u8, 0x80u8, 0xF0u8, 0x90u8, 0xF0u8,
        0xF0u8, 0x10u8, 0x20u8, 0x40u8, 0x40u8,
        0xF0u8, 0x90u8, 0xF0u8, 0x90u8, 0xF0u8,
        0xF0u8, 0x90u8, 0xF0u8, 0x10u8, 0xF0u8,
        0xF0u8, 0x90u8, 0xF0u8, 0x90u8, 0x90u8,
        0xE0u8, 0x90u8, 0xE0u8, 0x90u8, 0xE0u8,
        0xF0u8, 0x80u8, 0x80u8, 0x80u8, 0xF0u8,
        0xE0u8, 0x90u8, 0x90u8, 0x90u8, 0xE0u8,
        0xF0u8, 0x80u8, 0xF0u8, 0x80u8, 0xF0u8,
        0xF0u8, 0x80u8, 0xF0u8, 0x80u8, 0x80u8,
    ]
}

/// Memory as it is when the machine is made: the font, then zeroes.
pub open spec fn initial_memory() -> Seq<u8> {
    Seq::new(RAM_SIZE as nat, |a: int| if a < FONT_SIZE { font_data()[a] } else { 0u8 })
}

/// Memory after `bytes` were written from address `at` on.
pub open spec fn with_bytes(mem: Seq<u8>, at: int, bytes: Seq<u8>) -> Seq<u8> {
    Seq::new(
        mem.len(),
        |a: int| if at <= a < at + bytes.len() { bytes[a - at] } else { mem[a] },
    )
}

fn font_table() -> (table: Vec<u8>)
    ensures
        table@ == font_data(),
{
    vec![
        0xF0u8, 0x90u8, 0x90u8, 0x90u8, 0xF0u8,
        0x20u8, 0x60u8, 0x20u8, 0x20u8, 0x70u8,
        0xF0u8, 0x10u8, 0xF0u8, 0x80u8, 0xF0u8,
        0xF0u8, 0x10u8, 0xF0u8, 0x10u8, 0xF0u8,
        0x90u8, 0x90u8, 0xF0u8, 0x10u8, 0x10u8,
        0xF0u8, 0x80u8, 0xF0u8, 0x10u8, 0xF0u8,
        0xF0u8, 0x80u8, 0xF0u8, 0x90u8, 0xF0u8,
        0xF0u8, 0x10u8, 0x20u8, 0x40u8, 0x40u8,
        0xF0u8, 0x90u8, 0xF0u8, 0x90u8, 0xF0u8,
        0xF0u8, 0x90u8, 0xF0u8, 0x10u8, 0xF0u8,
        0xF0u8, 0x90u8, 0xF0u8, 0x90u8, 0x90u8,
        0xE0u8, 0x90u8, 0xE0u8, 0x90u8, 0xE0u8,
        0xF0u8, 0x80u8, 0x80u8, 0x80u8, 0xF0u8,
        0xE0u8, 0x90u8, 0x90u8, 0x90u8, 0xE0u8,
        0xF0u8, 0x80u8, 0xF0u8, 0x80u8, 0xF0u8,
        0xF0u8, 0x80u8, 0xF0u8, 0x80u8, 0x80u8,
    ]
}

/// The machine's memory.
pub struct Ram {
    mem: Vec<u8>,
}

impl View for Ram {
    type V = Seq<u8>;

    closed spec fn view(&self) -> Seq<u8> {
        self.mem@
    }
}

impl Ram {
    /// Every memory holds exactly `RAM_SIZE` bytes.
    pub open spec fn wf(&self) -> bool {
        self@.len() == RAM_SIZE
    }

    /// Memory with the font at addresses `0..FONT_SIZE` and zeroes above.
    pub fn new() -> (ram: Ram)
        ensures
            ram.wf(),
            ram@ == initial_memory(),
    {
        let font = font_table();
        assert(font@.len() == 80);
        let mut mem: Vec<u8> = Vec::new();
        let mut a: usize = 0;
        while a < RAM_SIZE
            invariant
                a <= RAM_SIZE,
                mem@.len() == a,
                font@ == font_data(),
                font@.len() == 80,
                forall|k: int| 0 <= k < a ==> #[trigger] mem@[k] == initial_memory()[k],
            decreases RAM_SIZE - a,
        {
            let byte: u8 = if a < FONT_SIZE { font[a] } else { 0u8 };
            mem.push(byte);
            a += 1;
        }
        assert(mem@ =~= initial_memory());
        Ram { mem }
    }

    /// The byte at `addr`; `OutOfBounds` exactly when `addr` is no address.
    pub fn read_byte(&self, addr: u16) -> (r: Result<u8, Chip8Error>)
        requires
            self.wf(),
        ensures
            addr < RAM_SIZE ==> r == Ok::<u8, Chip8Error>(self@[addr as int]),
            addr >= RAM_SIZE ==> r == Err::<u8, Chip8Error>(Chip8Error::OutOfBounds),
    {
        if (addr as usize) < RAM_SIZE {
            Ok(self.mem[addr as usize])
        } else {
            Err(Chip8Error::OutOfBounds)
        }
    }

    /// Stores `value` at `addr`; `OutOfBounds`, with memory unchanged, exactly
    /// when `addr` is no address.
    pub fn write_byte(&mut self, addr: u16, value: u8) -> (r: Result<(), Chip8Error>)
        requires
            old(self).wf(),
        ensures
            final(self).wf(),
            addr < RAM_SIZE ==> r.is_ok() && final(self)@ == old(self)@.update(addr as int, value),
            addr >= RAM_SIZE ==> r == Err::<(), Chip8Error>(Chip8Error::OutOfBounds) && final(self)@
                == old(self)@,
    {
        if (addr as usize) < RAM_SIZE {
            self.mem.set(addr as usize, value);
            Ok(())
        } else {
            Err(Chip8Error::OutOfBounds)
        }
    }
}

} // verus!
