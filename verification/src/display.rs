//! The display buffer: 64 columns by 32 rows of one-bit pixels, row-major.

use vstd::prelude::*;
use crate::error::Chip8Error;

verus! {

/// Columns of the display.
pub const WIDTH: usize = 64;

/// Rows of the display.
pub const HEIGHT: usize = 32;

/// Pixels of the display.
pub const PIXELS: usize = 2048;

/// Pixels of one sprite row.
pub const SPRITE_WIDTH: usize = 8;

/// The weight of the bit that is pixel `k` of a sprite row, counted from the left.
pub open spec fn bit_weight(k: int) -> int {
    if k == 0 {
        128
    } else if k == 1 {
        64
    } else if k == 2 {
        32
    } else if k == 3 {
        16
    } else if k == 4 {
        8
    } else if k == 5 {
        4
    } else if k == 6 {
        2
    } else {
        1
    }
}

/// Whether pixel `k` of the sprite row `byte` is lit; the leftmost pixel is
/// the highest bit.
pub open spec fn sprite_bit(byte: u8, k: int) -> bool {
    (byte as int / bit_weight(k)) % 2 == 1
}

/// Where the pixel of column `x` and row `y` stands in the buffer.
pub open spec fn pixel_index(x: int, y: int) -> int {
    y * 64 + x
}

/// Whether a sprite row that starts at column `x` of row `y` lies on the display.
pub open spec fn row_on_display(x: int, y: int) -> bool {
    0 <= x && x + 8 <= 64 && 0 <= y < 32
}

/// The pixel at buffer position `p` after the sprite row `byte` was drawn from
/// position `base` on: toggled where the row covers it with a lit bit.
pub open spec fn blit_pixel(screen: Seq<bool>, byte: u8, base: int, p: int) -> bool {
    if base <= p < base + 8 {
        screen[p] != sprite_bit(byte, p - base)
    } else {
        screen[p]
    }
}

/// The buffer after the sprite row `byte` was drawn at column `x` of row `y`.
pub open spec fn row_blitted(screen: Seq<bool>, byte: u8, x: int, y: int) -> Seq<bool> {
    Seq::new(screen.len(), |p: int| blit_pixel(screen, byte, pixel_index(x, y), p))
}

/// Whether pixel `k` of the sprite row `byte`, drawn from `base` on, is lit
/// over a lit pixel, which the draw turns off.
pub open spec fn pixel_erased(screen: Seq<bool>, byte: u8, base: int, k: int) -> bool {
    0 <= k < 8 && sprite_bit(byte, k) && screen[base + k]
}

/// Whether drawing the sprite row `byte` at column `x` of row `y` turns a lit
/// pixel off.
pub open spec fn row_collides(screen: Seq<bool>, byte: u8, x: int, y: int) -> bool {
    exists|k: int| pixel_erased(screen, byte, pixel_index(x, y), k)
}

/// The cleared buffer.
pub open spec fn blank_screen() -> Seq<bool> {
    Seq::new(PIXELS as nat, |p: int| false)
}

fn bit_at(byte: u8, k: u8) -> (lit: bool)
    requires
        k < 8,
    ensures
        lit == sprite_bit(byte, k as int),
{
    let weight: u8 = if k == 0 {
        128
    } else if k == 1 {
        64
    } else if k == 2 {
        32
    } else if k == 3 {
        16
    } else if k == 4 {
        8
    } else if k == 5 {
        4
    } else if k == 6 {
        2
    } else {
        1
    };
    (byte / weight) % 2 == 1
}

/// The display buffer.
pub struct Display {
    screen: Vec<bool>,
}

impl View for Display {
    type V = Seq<bool>;

    closed spec fn view(&self) -> Seq<bool> {
        self.screen@
    }
}

impl Display {
    /// Every display holds exactly `PIXELS` pixels.
    pub open spec fn wf(&self) -> bool {
        self@.len() == PIXELS
    }

    /// A display with every pixel off.
    pub fn new() -> (d: Display)
        ensures
            d.wf(),
            d@ == blank_screen(),
    {
        let mut screen: Vec<bool> = Vec::new();
        let mut p: usize = 0;
        while p < PIXELS
            invariant
                p <= PIXELS,
                screen@.len() == p,
                forall|q: int| 0 <= q < p ==> !#[trigger] screen@[q],
            decreases PIXELS - p,
        {
            screen.push(false);
            p += 1;
        }
        assert(screen@ =~= blank_screen());
        Display { screen }
    }

    /// Where the pixel of column `x` and row `y` stands in the buffer.
    pub fn get_index_from_coords(x: usize, y: usize) -> (index: usize)
        requires
            x < WIDTH,
            y < HEIGHT,
        ensures
            index == pixel_index(x as int, y as int),
            index < PIXELS,
    {
        y * WIDTH + x
    }

    /// Turns every pixel off.
    pub fn clear(&mut self)
        requires
            old(self).wf(),
        ensures
            final(self).wf(),
            final(self)@ == blank_screen(),
    {
        let mut p: usize = 0;
        while p < PIXELS
            invariant
                p <= PIXELS,
                self.screen@.len() == PIXELS,
                forall|q: int| 0 <= q < p ==> !#[trigger] self.screen@[q],
            decreases PIXELS - p,
        {
            self.screen.set(p, false);
            p += 1;
        }
        assert(self.screen@ =~= blank_screen());
    }

    /// Draws the sprite row `byte` at column `x` of row `y`: each lit bit
    /// toggles its pixel. Returns whether a lit pixel was turned off. A row
    /// that does not lie on the display is `OutOfBounds` and draws nothing.
    pub fn debug_draw_byte(&mut self, byte: u8, x: u8, y: u8) -> (r: Result<bool, Chip8Error>)
        requires
            old(self).wf(),
        ensures
            final(self).wf(),
            row_on_display(x as int, y as int) ==> r == Ok::<bool, Chip8Error>(
                row_collides(old(self)@, byte, x as int, y as int),
            ) && final(self)@ == row_blitted(old(self)@, byte, x as int, y as int),
            !row_on_display(x as int, y as int) ==> r == Err::<bool, Chip8Error>(
                Chip8Error::OutOfBounds,
            ) && final(self)@ == old(self)@,
    {
        if x as usize + SPRITE_WIDTH > WIDTH || y as usize >= HEIGHT {
            return Err(Chip8Error::OutOfBounds);
        }
        let base: usize = Self::get_index_from_coords(x as usize, y as usize);
        let ghost before = self.screen@;
        let mut erased = false;
        let mut k: u8 = 0;
        while k < 8
            invariant
                k <= 8,
                base + 8 <= PIXELS,
                before.len() == PIXELS,
                self.screen@.len() == PIXELS,
                forall|p: int|
                    0 <= p < PIXELS ==> #[trigger] self.screen@[p] == if base <= p < base + k {
                        before[p] != sprite_bit(byte, p - base)
                    } else {
                        before[p]
                    },
                erased == exists|j: int| j < k && pixel_erased(before, byte, base as int, j),
            decreases 8 - k,
        {
            let lit = bit_at(byte, k);
            let at: usize = base + k as usize;
            let was = self.screen[at];
            if lit {
                if was {
                    erased = true;
                    assert(pixel_erased(before, byte, base as int, k as int));
                }
                self.screen.set(at, !was);
            }
            k += 1;
        }
        assert(self.screen@ =~= row_blitted(before, byte, x as int, y as int));
        Ok(erased)
    }

    /// Whether the pixel of column `x` and row `y` is lit.
    pub fn pixel(&self, x: usize, y: usize) -> (lit: bool)
        requires
            self.wf(),
            x < WIDTH,
            y < HEIGHT,
        ensures
            lit == self@[pixel_index(x as int, y as int)],
    {
        self.screen[Self::get_index_from_coords(x, y)]
    }

    /// The pixels, row by row.
    pub fn buffer(&self) -> (pixels: &Vec<bool>)
        ensures
            pixels@ == self@,
    {
        &self.screen
    }
}

} // verus!
