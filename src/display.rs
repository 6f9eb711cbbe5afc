//! The 64 x 32 monochrome frame buffer, drawn by toggling pixels.

use vstd::prelude::*;

verus! {

/// Columns of the frame buffer.
pub const WIDTH: u32 = 64;

/// Rows of the frame buffer.
pub const HEIGHT: u32 = 32;

/// Number of pixels in the frame buffer.
pub const PIXELS: usize = 2048;

/// Position in the row-major pixel sequence of the pixel at `(x, y)`,
/// after wrapping both coordinates around the screen edges.
pub open spec fn pixel_index(x: int, y: int) -> int {
    (y % 32) * 64 + (x % 64)
}

/// Whether the pixel at wrapped `(x, y)` is lit.
pub open spec fn lit_at(pixels: Seq<bool>, x: int, y: int) -> bool {
    pixels[pixel_index(x, y)]
}

/// The bitmap with the pixel at wrapped `(x, y)` flipped.
pub open spec fn toggled(pixels: Seq<bool>, x: int, y: int) -> Seq<bool> {
    pixels.update(pixel_index(x, y), !lit_at(pixels, x, y))
}

/// A bitmap with every pixel unlit.
pub open spec fn blank() -> Seq<bool> {
    Seq::new(PIXELS as nat, |i: int| false)
}

/// Whether column `col` (0 = leftmost, 7 = rightmost) of a sprite row is set.
pub open spec fn sprite_bit(row: u8, col: u8) -> bool {
    (row >> (7 - col) as u8) & 1u8 == 1u8
}

/// The bitmap and collision flag after the first `k` cells of drawing
/// `rows` at `(x, y)`, cells taken row by row, left to right. Each set bit
/// flips its pixel; the flag records whether a flipped pixel was lit before.
pub open spec fn draw_prefix(pixels: Seq<bool>, rows: Seq<u8>, x: int, y: int, k: nat) -> (Seq<
    bool>, bool)
    decreases k,
{
    if k == 0 {
        (pixels, false)
    } else {
        let (p, hit) = draw_prefix(pixels, rows, x, y, (k - 1) as nat);
        let row = (k - 1) / 8;
        let col = (k - 1) % 8;
        if sprite_bit(rows[row], col as u8) {
            (toggled(p, x + col, y + row), hit || lit_at(p, x + col, y + row))
        } else {
            (p, hit)
        }
    }
}

/// The bitmap and collision flag after drawing the whole sprite `rows`
/// (eight cells per row) with its top-left corner at `(x, y)`.
pub open spec fn drawn(pixels: Seq<bool>, rows: Seq<u8>, x: int, y: int) -> (Seq<bool>, bool) {
    draw_prefix(pixels, rows, x, y, 8 * rows.len())
}

/// Drawing a one-row sprite whose only set bit is column `c` flips exactly
/// the pixel `(x + c, y)`, and reports a collision exactly when that pixel
/// was lit.
proof fn lemma_single_bit_row(pixels: Seq<bool>, x: int, y: int, c: u8, k: nat)
    requires
        c < 8,
        k <= 8,
    ensures
        draw_prefix(pixels, seq![0x80u8 >> c], x, y, k) == if k <= c {
            (pixels, false)
        } else {
            (toggled(pixels, x + c, y), lit_at(pixels, x + c, y))
        },
    decreases k,
{
    if k > 0 {
        lemma_single_bit_row(pixels, x, y, c, (k - 1) as nat);
        let col = (k - 1) as u8;
        assert(sprite_bit(0x80u8 >> c, col) == (col == c)) by (bit_vector)
            requires
                c < 8,
                col < 8,
        ;
        assert(seq![0x80u8 >> c][0] == 0x80u8 >> c);
    }
}

/// Drawing the same single-bit, one-row sprite twice at the same place on a
/// cleared screen: the first draw lights the pixel and reports no
/// collision; the second turns it off again and reports a collision.
pub proof fn lemma_draw_twice_collides(x: int, y: int, c: u8)
    requires
        0 <= x,
        0 <= y,
        c < 8,
    ensures
        ({
            let rows = seq![0x80u8 >> c];
            let (once, first_hit) = drawn(blank(), rows, x, y);
            let (twice, second_hit) = drawn(once, rows, x, y);
            &&& !first_hit
            &&& lit_at(once, x + c, y)
            &&& second_hit
            &&& !lit_at(twice, x + c, y)
        }),
{
    let rows = seq![0x80u8 >> c];
    lemma_pixel_index_bounds(x + c, y);
    lemma_single_bit_row(blank(), x, y, c, 8);
    let once = toggled(blank(), x + c, y);
    lemma_single_bit_row(once, x, y, c, 8);
}

proof fn lemma_pixel_index_bounds(x: int, y: int)
    requires
        0 <= x,
        0 <= y,
    ensures
        0 <= pixel_index(x, y) < PIXELS,
{
    assert(0 <= (y % 32) * 64 <= 31 * 64) by (nonlinear_arith)
        requires
            0 <= y % 32 < 32,
    ;
}

/// Flipping the same pixel twice gives back the bitmap one started from.
pub proof fn lemma_toggle_twice(pixels: Seq<bool>, x: int, y: int)
    requires
        pixels.len() == PIXELS,
        0 <= x,
        0 <= y,
    ensures
        toggled(toggled(pixels, x, y), x, y) == pixels,
{
    lemma_pixel_index_bounds(x, y);
    assert(toggled(toggled(pixels, x, y), x, y) =~= pixels);
}

/// After clearing, no coordinate reads as lit.
pub proof fn lemma_blank_is_unlit(x: int, y: int)
    requires
        0 <= x,
        0 <= y,
    ensures
        !lit_at(blank(), x, y),
{
    lemma_pixel_index_bounds(x, y);
}

/// A monochrome bitmap of `WIDTH` columns by `HEIGHT` rows.
#[derive(Debug)]
pub struct DisplayBuffer {
    pixels: Vec<bool>,
}

impl View for DisplayBuffer {
    type V = Seq<bool>;

    closed spec fn view(&self) -> Seq<bool> {
        self.pixels@
    }
}

impl DisplayBuffer {
    /// The bitmap holds exactly one entry per pixel.
    pub open spec fn wf(&self) -> bool {
        self@.len() == PIXELS
    }

    /// A buffer with every pixel unlit.
    pub fn new() -> (r: DisplayBuffer)
        ensures
            r.wf(),
            r@ == blank(),
    {
        let r = DisplayBuffer { pixels: vec![false; PIXELS] };
        assert(r@ =~= blank());
        r
    }

    /// Flips the pixel at `(x mod WIDTH, y mod HEIGHT)` and returns its new
    /// value: `true` when it is now lit.
    pub fn toggle(&mut self, x: u32, y: u32) -> (r: bool)
        requires
            old(self).wf(),
        ensures
            final(self).wf(),
            final(self)@ == toggled(old(self)@, x as int, y as int),
            r == lit_at(final(self)@, x as int, y as int),
            r == !lit_at(old(self)@, x as int, y as int),
    {
        proof {
            lemma_pixel_index_bounds(x as int, y as int);
        }
        let idx: usize = ((y % HEIGHT) * WIDTH + x % WIDTH) as usize;
        let now = !self.pixels[idx];
        self.pixels.set(idx, now);
        now
    }

    /// Whether the pixel at `(x mod WIDTH, y mod HEIGHT)` is lit.
    pub fn is_lit(&self, x: u32, y: u32) -> (r: bool)
        requires
            self.wf(),
        ensures
            r == lit_at(self@, x as int, y as int),
    {
        proof {
            lemma_pixel_index_bounds(x as int, y as int);
        }
        let idx: usize = ((y % HEIGHT) * WIDTH + x % WIDTH) as usize;
        self.pixels[idx]
    }

    /// Turns every pixel off.
    pub fn clear(&mut self)
        requires
            old(self).wf(),
        ensures
            final(self).wf(),
            final(self)@ == blank(),
    {
        self.pixels = vec![false; PIXELS];
        assert(self@ =~= blank());
    }

    /// XOR-draws the sprite `rows`, eight pixels wide, with its top-left
    /// corner at `(x, y)`, wrapping around the edges. Returns whether some
    /// lit pixel was turned off. A sprite has at most 15 rows, the most an
    /// instruction can ask for.
    pub fn draw_sprite(&mut self, rows: &Vec<u8>, x: u8, y: u8) -> (collision: bool)
        requires
            old(self).wf(),
            rows@.len() <= 15,
        ensures
            final(self).wf(),
            (final(self)@, collision) == drawn(old(self)@, rows@, x as int, y as int),
    {
        let mut hit = false;
        let mut row: usize = 0;
        while row < rows.len()
            invariant
                self.wf(),
                row <= rows@.len() <= 15,
                (self@, hit) == draw_prefix(old(self)@, rows@, x as int, y as int, 8 * row as nat),
            decreases rows@.len() - row,
        {
            let bits = rows[row];
            let mut col: u8 = 0;
            while col < 8
                invariant
                    self.wf(),
                    row < rows@.len() <= 15,
                    col <= 8,
                    bits == rows@[row as int],
                    (self@, hit) == draw_prefix(
                        old(self)@,
                        rows@,
                        x as int,
                        y as int,
                        (8 * row + col) as nat,
                    ),
                decreases 8 - col,
            {
                let k = 8 * row + col as usize;
                assert(k / 8 == row as int && k % 8 == col as int) by (nonlinear_arith)
                    requires
                        k == 8 * row + col,
                        col < 8,
                ;
                if (bits >> (7 - col)) & 1 == 1 {
                    let now = self.toggle(x as u32 + col as u32, y as u32 + row as u32);
                    if !now {
                        hit = true;
                    }
                }
                col = col + 1;
            }
            row = row + 1;
        }
        hit
    }
}

} // verus!
