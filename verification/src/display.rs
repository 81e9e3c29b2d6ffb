//! The display: a 64 by 32 grid of pixels that sprites are drawn onto by
//! exclusive or. Coordinates wrap around both edges.

use vstd::prelude::*;
use crate::error::Chip8Error;
use crate::machine::{Chip8, Machine, MEMORY_SIZE, SCREEN_HEIGHT, SCREEN_WIDTH};

verus! {

/// Whether bit `k` of `byte` is set, counting from the most significant bit.
pub open spec fn sprite_bit(byte: u8, k: int) -> bool {
    0 <= k < 8 && byte & (0x80u8 >> (k as u8)) != 0
}

/// How many columns to the right of column `x` the cell `cell` lies, going
/// round the screen: a number from 0 to 63.
pub open spec fn column_offset(cell: int, x: int) -> int {
    (cell % 64 - x) % 64
}

/// Whether the sprite row `byte`, drawn with its leftmost pixel at column
/// `x` of row `y`, has a set pixel on `cell`.
pub open spec fn row_lit(byte: u8, x: int, y: int, cell: int) -> bool {
    cell / 64 == y % 32 && sprite_bit(byte, column_offset(cell, x))
}

/// Whether drawing `sprite` at `(x, y)` flips `cell`: an odd number of its
/// set pixels fall on the cell. Rows follow each other downwards from `y`.
pub open spec fn flips(sprite: Seq<u8>, x: int, y: int, cell: int) -> bool
    decreases sprite.len(),
{
    if sprite.len() == 0 {
        false
    } else {
        flips(sprite.drop_last(), x, y, cell) != row_lit(
            sprite.last(),
            x,
            y + sprite.len() - 1,
            cell,
        )
    }
}

/// The framebuffer after `sprite` has been drawn onto `screen` at `(x, y)`.
pub open spec fn blit(screen: Seq<bool>, sprite: Seq<u8>, x: int, y: int) -> Seq<bool> {
    Seq::new(2048, |cell: int| screen[cell] != flips(sprite, x, y, cell))
}

/// Whether row `r` of `sprite`, when its turn comes, turns off `cell`, which
/// is on after the rows before it have been drawn.
pub open spec fn erases(screen: Seq<bool>, sprite: Seq<u8>, x: int, y: int, r: int, cell: int) -> bool {
    &&& 0 <= r < sprite.len()
    &&& 0 <= cell < 2048
    &&& blit(screen, sprite.take(r), x, y)[cell]
    &&& row_lit(sprite[r], x, y + r, cell)
}

/// Whether drawing `sprite` onto `screen` at `(x, y)` turns off a pixel that
/// was on.
pub open spec fn collides(screen: Seq<bool>, sprite: Seq<u8>, x: int, y: int) -> bool {
    exists|r: int, cell: int| erases(screen, sprite, x, y, r, cell)
}

/// What drawing the `size` bytes at `addr` to `(x, y)` makes of `m`, and
/// whether a pixel was turned off. A sprite that reaches past the end of
/// memory is out of range.
pub open spec fn spec_draw(m: Machine, x: int, y: int, addr: int, size: int) -> Result<
    (Machine, bool),
    Chip8Error,
> {
    if addr < 0 || size < 0 || addr + size > 4096 {
        Err(Chip8Error::OutOfRange)
    } else {
        let sprite = m.memory.subrange(addr, addr + size);
        Ok((Machine { screen: blit(m.screen, sprite, x, y), ..m }, collides(m.screen, sprite, x, y)))
    }
}

/// The pixel at `(x, y)`. Only columns below 64 and rows below 32 exist.
pub open spec fn spec_pixel(m: Machine, x: int, y: int) -> Result<bool, Chip8Error> {
    if 0 <= x < 64 && 0 <= y < 32 {
        Ok(m.screen[x + 64 * y])
    } else {
        Err(Chip8Error::OutOfRange)
    }
}

/// The part of a row that has been drawn when its first `k` bits are done.
spec fn lit_before(byte: u8, x: int, y: int, cell: int, k: int) -> bool {
    row_lit(byte, x, y, cell) && column_offset(cell, x) < k
}

/// Whether the first `k` bits of a row turn off a pixel of `screen`.
spec fn row_erases_before(screen: Seq<bool>, byte: u8, x: int, y: int, k: int) -> bool {
    exists|cell: int| 0 <= cell < 2048 && screen[cell] && #[trigger] lit_before(byte, x, y, cell, k)
}

/// Whether one of the first `r` rows of `sprite` turns off a pixel.
spec fn collides_before(screen: Seq<bool>, sprite: Seq<u8>, x: int, y: int, r: int) -> bool {
    exists|q: int, cell: int| q < r && #[trigger] erases(screen, sprite, x, y, q, cell)
}

/// A row drawn at `(x, y)` falls on the cells of the row drawn at
/// `(x % 64, y % 32)`.
proof fn lemma_row_wraps(byte: u8, x: int, y: int, cell: int)
    ensures
        row_lit(byte, x % 64, y % 32, cell) == row_lit(byte, x, y, cell),
{
    assert(column_offset(cell, x % 64) == column_offset(cell, x));
}

/// Bit `k` of a row drawn at column `x < 64` of row `y < 32` falls on cell
/// `(x + k) % 64 + 64 * y` and on no other.
proof fn lemma_bit_cell(byte: u8, x: int, y: int, k: int, cell: int)
    requires
        0 <= x < 64,
        0 <= y < 32,
        0 <= k < 8,
        0 <= cell < 2048,
    ensures
        lit_before(byte, x, y, cell, k + 1) == (lit_before(byte, x, y, cell, k) || (cell == (x + k)
            % 64 + 64 * y && sprite_bit(byte, k))),
        cell == (x + k) % 64 + 64 * y ==> !lit_before(byte, x, y, cell, k),
{
    let idx = (x + k) % 64 + 64 * y;
    assert(idx / 64 == y && idx % 64 == (x + k) % 64);
    assert(column_offset(idx, x) == k);
    if cell / 64 == y && column_offset(cell, x) == k {
        assert(cell % 64 == (x + k) % 64);
        assert(cell == idx);
    }
}

/// Drawing one more bit of a row: what the row has turned off so far.
proof fn lemma_bit_erases(screen: Seq<bool>, byte: u8, x: int, y: int, k: int)
    requires
        0 <= x < 64,
        0 <= y < 32,
        0 <= k < 8,
        screen.len() == 2048,
    ensures
        row_erases_before(screen, byte, x, y, k + 1) == (row_erases_before(screen, byte, x, y, k)
            || (sprite_bit(byte, k) && screen[(x + k) % 64 + 64 * y])),
{
    let idx = (x + k) % 64 + 64 * y;
    if row_erases_before(screen, byte, x, y, k + 1) {
        let cell = choose|cell: int|
            0 <= cell < 2048 && screen[cell] && #[trigger] lit_before(byte, x, y, cell, k + 1);
        lemma_bit_cell(byte, x, y, k, cell);
    }
    if row_erases_before(screen, byte, x, y, k) {
        let cell = choose|cell: int|
            0 <= cell < 2048 && screen[cell] && #[trigger] lit_before(byte, x, y, cell, k);
        lemma_bit_cell(byte, x, y, k, cell);
        assert(lit_before(byte, x, y, cell, k + 1));
    }
    if sprite_bit(byte, k) && screen[idx] {
        lemma_bit_cell(byte, x, y, k, idx);
        assert(lit_before(byte, x, y, idx, k + 1));
    }
}

/// The cells that the first `r + 1` rows flip, from those that the first
/// `r` rows flip.
proof fn lemma_flips_step(sprite: Seq<u8>, x: int, y: int, r: int, cell: int)
    requires
        0 <= r < sprite.len(),
    ensures
        flips(sprite.take(r + 1), x, y, cell) == (flips(sprite.take(r), x, y, cell) != row_lit(
            sprite[r],
            x % 64,
            (y + r) % 32,
            cell,
        )),
{
    let longer = sprite.take(r + 1);
    assert(longer.drop_last() =~= sprite.take(r));
    assert(longer.last() == sprite[r]);
    assert(longer.len() == r + 1);
    lemma_row_wraps(sprite[r], x, y + r, cell);
}

/// Drawing row `r` after the rows before it: the framebuffer from the one
/// before the row.
proof fn lemma_blit_step(screen: Seq<bool>, sprite: Seq<u8>, x: int, y: int, r: int)
    requires
        0 <= r < sprite.len(),
    ensures
        blit(screen, sprite.take(r + 1), x, y) == Seq::new(
            2048,
            |cell: int|
                blit(screen, sprite.take(r), x, y)[cell] != row_lit(
                    sprite[r],
                    x % 64,
                    (y + r) % 32,
                    cell,
                ),
        ),
{
    let shown = blit(screen, sprite.take(r), x, y);
    let next = Seq::new(
        2048,
        |cell: int| shown[cell] != row_lit(sprite[r], x % 64, (y + r) % 32, cell),
    );
    assert forall|cell: int| 0 <= cell < 2048 implies blit(screen, sprite.take(r + 1), x, y)[cell]
        == next[cell] by {
        lemma_flips_step(sprite, x, y, r, cell);
    }
    assert(blit(screen, sprite.take(r + 1), x, y) =~= next);
}

/// Drawing row `r` after the rows before it: the collisions so far, from
/// those before the row.
proof fn lemma_collides_step(screen: Seq<bool>, sprite: Seq<u8>, x: int, y: int, r: int)
    requires
        0 <= r < sprite.len(),
    ensures
        collides_before(screen, sprite, x, y, r + 1) == (collides_before(screen, sprite, x, y, r)
            || row_erases_before(
            blit(screen, sprite.take(r), x, y),
            sprite[r],
            x % 64,
            (y + r) % 32,
            8,
        )),
{
    let shown = blit(screen, sprite.take(r), x, y);
    let byte = sprite[r];
    let row_hit = row_erases_before(shown, byte, x % 64, (y + r) % 32, 8);
    if row_hit {
        let cell = choose|cell: int|
            0 <= cell < 2048 && shown[cell] && #[trigger] lit_before(
                byte,
                x % 64,
                (y + r) % 32,
                cell,
                8,
            );
        lemma_row_wraps(byte, x, y + r, cell);
        assert(erases(screen, sprite, x, y, r, cell));
    }
    if collides_before(screen, sprite, x, y, r) {
        let (q, cell) = choose|q: int, cell: int|
            q < r && #[trigger] erases(screen, sprite, x, y, q, cell);
        assert(q < r + 1 && erases(screen, sprite, x, y, q, cell));
    }
    if collides_before(screen, sprite, x, y, r + 1) {
        let (q, cell) = choose|q: int, cell: int|
            q < r + 1 && #[trigger] erases(screen, sprite, x, y, q, cell);
        if q == r {
            lemma_row_wraps(byte, x, y + r, cell);
            assert(lit_before(byte, x % 64, (y + r) % 32, cell, 8));
        } else {
            assert(q < r);
        }
    }
}

/// Draws one sprite row with its leftmost pixel at column `x` of row `y`,
/// and says whether a pixel went off.
fn draw_row(screen: &mut [bool; 2048], byte: u8, x: usize, y: usize) -> (hit: bool)
    requires
        x < 64,
        y < 32,
    ensures
        final(screen)@ == Seq::new(
            2048,
            |cell: int| old(screen)@[cell] != row_lit(byte, x as int, y as int, cell),
        ),
        hit == row_erases_before(old(screen)@, byte, x as int, y as int, 8),
{
    let ghost start = screen@;
    let mut hit: bool = false;
    let mut k: u8 = 0;
    while k < 8
        invariant
            k <= 8,
            x < 64,
            y < 32,
            start.len() == 2048,
            screen@ =~= Seq::new(
                2048,
                |cell: int| start[cell] != lit_before(byte, x as int, y as int, cell, k as int),
            ),
            hit == row_erases_before(start, byte, x as int, y as int, k as int),
        decreases 8 - k,
    {
        let idx: usize = (x + k as usize) % SCREEN_WIDTH + SCREEN_WIDTH * y;
        let set: bool = byte & (0x80u8 >> k) != 0;
        proof {
            lemma_bit_erases(start, byte, x as int, y as int, k as int);
            lemma_bit_cell(byte, x as int, y as int, k as int, idx as int);
            assert forall|cell: int| 0 <= cell < 2048 implies #[trigger] lit_before(
                byte,
                x as int,
                y as int,
                cell,
                k + 1,
            ) == (lit_before(byte, x as int, y as int, cell, k as int) || (cell == idx as int
                && set)) by {
                lemma_bit_cell(byte, x as int, y as int, k as int, cell);
            }
        }
        if set {
            if screen[idx] {
                hit = true;
            }
            screen[idx] = !screen[idx];
        }
        k = k + 1;
    }
    assert(screen@ =~= Seq::new(
        2048,
        |cell: int| start[cell] != row_lit(byte, x as int, y as int, cell),
    ));
    hit
}

impl Chip8 {
    /// Whether the pixel at column `x` of row `y` is on. A column of 64 or
    /// more, or a row of 32 or more, is out of range.
    pub fn get_pixel(&self, x: usize, y: usize) -> (res: Result<bool, Chip8Error>)
        ensures
            res == spec_pixel(self@, x as int, y as int),
    {
        if x < SCREEN_WIDTH && y < SCREEN_HEIGHT {
            Ok(self.screen[x + SCREEN_WIDTH * y])
        } else {
            Err(Chip8Error::OutOfRange)
        }
    }

    /// Draws the sprite of `size` rows that starts at `memory_index` with
    /// its top left pixel at `(x, y)`. Each byte is a row of eight pixels,
    /// most significant bit leftmost; each set pixel flips the cell it falls
    /// on, and columns and rows wrap round the screen. The result says
    /// whether a pixel that was on went off. A sprite that reaches past the
    /// end of memory is out of range, and nothing is drawn.
    pub fn draw(&mut self, x: usize, y: usize, memory_index: usize, size: usize) -> (res: Result<
        bool,
        Chip8Error,
    >)
        ensures
            match spec_draw(old(self)@, x as int, y as int, memory_index as int, size as int) {
                Ok((m, hit)) => res == Ok::<bool, Chip8Error>(hit) && final(self)@ == m,
                Err(e) => res == Err::<bool, Chip8Error>(e) && final(self)@ == old(self)@,
            },
            final(self).registers.sp == old(self).registers.sp,
    {
        if memory_index > MEMORY_SIZE || size > MEMORY_SIZE - memory_index {
            return Err(Chip8Error::OutOfRange);
        }
        let ghost before = self@;
        let ghost sprite = before.memory.subrange(memory_index as int, memory_index + size);
        let column: usize = x % SCREEN_WIDTH;
        let top: usize = y % SCREEN_HEIGHT;
        let mut hit: bool = false;
        let mut r: usize = 0;
        proof {
            assert(sprite.take(0) =~= Seq::<u8>::empty());
            assert(self@.screen =~= blit(before.screen, sprite.take(0), x as int, y as int));
        }
        while r < size
            invariant
                r <= size,
                memory_index + size <= 4096,
                column == x % 64,
                top == y % 32,
                sprite == before.memory.subrange(memory_index as int, memory_index + size),
                self@ == (Machine { screen: self@.screen, ..before }),
                self@.screen == blit(before.screen, sprite.take(r as int), x as int, y as int),
                hit == collides_before(before.screen, sprite, x as int, y as int, r as int),
                self.registers.sp == old(self).registers.sp,
            decreases size - r,
        {
            let byte: u8 = self.memory[memory_index + r];
            let row: usize = (top + r % SCREEN_HEIGHT) % SCREEN_HEIGHT;
            proof {
                assert(byte == sprite[r as int]);
                assert(row as int == (y + r) % 32);
                lemma_blit_step(before.screen, sprite, x as int, y as int, r as int);
                lemma_collides_step(before.screen, sprite, x as int, y as int, r as int);
            }
            let row_hit = draw_row(&mut self.screen, byte, column, row);
            if row_hit {
                hit = true;
            }
            r = r + 1;
        }
        proof {
            assert(sprite.take(size as int) =~= sprite);
            if hit {
                let (q, cell) = choose|q: int, cell: int|
                    q < r && #[trigger] erases(before.screen, sprite, x as int, y as int, q, cell);
                assert(erases(before.screen, sprite, x as int, y as int, q, cell));
            }
            if collides(before.screen, sprite, x as int, y as int) {
                let (q, cell) = choose|q: int, cell: int|
                    erases(before.screen, sprite, x as int, y as int, q, cell);
                assert(q < r && erases(before.screen, sprite, x as int, y as int, q, cell));
            }
        }
        Ok(hit)
    }
}

} // verus!
