//! The monochrome frame buffer and the sprite-draw algorithm.
//!
//! The buffer stores one bit per pixel, row by row, eight pixels to a byte
//! with the leftmost pixel in the most significant bit. Its mathematical
//! model is the sequence of its pixels in row-major order; drawing is stated
//! on that sequence, pixel by pixel, and the byte-level code is proved
//! against it.

use crate::bits::{lemma_lit_and, lemma_lit_shl, lemma_lit_shr, lemma_lit_witness, lemma_lit_xor, lemma_lit_zero, lit};
use vstd::prelude::*;

verus! {

/// Pixels in one display row.
pub const DISPLAY_WIDTH: usize = 64;

/// Rows on the display.
pub const DISPLAY_HEIGHT: usize = 32;

/// Pixels on the display.
pub const PIXELS: usize = 2048;

/// Bytes that hold one display row.
pub const STRIDE: usize = 8;

/// Bytes in the packed frame buffer.
pub const FRAME_BYTES: usize = 256;

/// The pixels that a sequence of packed bytes holds, in order.
pub open spec fn unpack(bytes: Seq<u8>) -> Seq<bool> {
    Seq::new(bytes.len() * 8, |i: int| lit(bytes[i / 8], i % 8))
}

/// A display with every pixel off.
pub open spec fn blank() -> Seq<bool> {
    Seq::new(PIXELS as nat, |i: int| false)
}

/// Whether a sprite drawn with its top-left corner at column `x`, row `y`
/// covers pixel `i` of the display with a set bit.
///
/// Each sprite byte is one row of eight pixels, leftmost first. The part of
/// a sprite that would fall beyond the right edge or below the bottom edge
/// is clipped: it covers nothing, and in particular does not wrap round to
/// the opposite edge.
pub open spec fn sprite_covers(sprite: Seq<u8>, x: int, y: int, i: int) -> bool {
    let row = i / (DISPLAY_WIDTH as int) - y;
    let column = i % (DISPLAY_WIDTH as int) - x;
    0 <= i < PIXELS && 0 <= row < sprite.len() && lit(sprite[row], column)
}

/// The display after a sprite has been drawn onto `pixels`: every covered
/// pixel is flipped, every other pixel is kept.
pub open spec fn drawn(pixels: Seq<bool>, sprite: Seq<u8>, x: int, y: int) -> Seq<bool> {
    Seq::new(PIXELS as nat, |i: int| pixels[i] != sprite_covers(sprite, x, y, i))
}

/// Whether drawing a sprite onto `pixels` turns off a pixel that was on.
pub open spec fn collides(pixels: Seq<bool>, sprite: Seq<u8>, x: int, y: int) -> bool {
    exists|i: int| 0 <= i < PIXELS && pixels[i] && #[trigger] sprite_covers(sprite, x, y, i)
}

/// Drawing the same sprite at the same place twice in succession gives the
/// display back as it was. The second draw reports a collision exactly when
/// the first one turned a pixel on, that is, when the sprite covers a pixel
/// that was off before the first draw.
pub proof fn draw_twice_restores(pixels: Seq<bool>, sprite: Seq<u8>, x: int, y: int)
    requires
        pixels.len() == PIXELS,
    ensures
        drawn(drawn(pixels, sprite, x, y), sprite, x, y) == pixels,
        collides(drawn(pixels, sprite, x, y), sprite, x, y) <==> exists|i: int|
            0 <= i < PIXELS && !pixels[i] && #[trigger] sprite_covers(sprite, x, y, i),
{
    let once = drawn(pixels, sprite, x, y);
    assert(drawn(once, sprite, x, y) =~= pixels);
    if collides(once, sprite, x, y) {
        let i = choose|i: int|
            0 <= i < PIXELS && once[i] && #[trigger] sprite_covers(sprite, x, y, i);
        assert(!pixels[i]);
    }
    if exists|i: int| 0 <= i < PIXELS && !pixels[i] && #[trigger] sprite_covers(sprite, x, y, i) {
        let i = choose|i: int|
            0 <= i < PIXELS && !pixels[i] && #[trigger] sprite_covers(sprite, x, y, i);
        assert(once[i]);
    }
}

/// A draw changes no pixel outside the eight columns that start at `x` and
/// the rows that start at `y`. In particular a sprite that runs past the
/// right edge leaves the columns at the left edge alone, and one that runs
/// past the bottom edge leaves the top rows alone: the part that does not
/// fit is dropped, it does not wrap round.
pub proof fn draw_does_not_wrap(pixels: Seq<bool>, sprite: Seq<u8>, x: int, y: int, i: int)
    requires
        pixels.len() == PIXELS,
        0 <= i < PIXELS,
        i % (DISPLAY_WIDTH as int) < x || i % (DISPLAY_WIDTH as int) >= x + 8 || i / (
        DISPLAY_WIDTH as int) < y || i / (DISPLAY_WIDTH as int) >= y + sprite.len(),
    ensures
        drawn(pixels, sprite, x, y)[i] == pixels[i],
{
}

/// A draw flips the pixel at column `x + c`, row `y + r` of the display
/// exactly when bit `c` of sprite row `r`, counted from the most significant
/// bit, is set.
pub proof fn draw_flips_set_bits(pixels: Seq<bool>, sprite: Seq<u8>, x: int, y: int, r: int, c: int)
    requires
        pixels.len() == PIXELS,
        0 <= r < sprite.len(),
        0 <= c < 8,
        0 <= x && x + c < DISPLAY_WIDTH,
        0 <= y && y + r < DISPLAY_HEIGHT,
    ensures
        drawn(pixels, sprite, x, y)[(y + r) * DISPLAY_WIDTH + x + c] == (pixels[(y + r)
            * DISPLAY_WIDTH + x + c] != lit(sprite[r], c)),
{
    let i = (y + r) * DISPLAY_WIDTH + x + c;
    assert(i / 64 == y + r);
    assert(i % 64 == x + c);
}

/// Whether one sprite byte placed at column `x` of display row `row` covers
/// pixel `i` with a set bit.
spec fn row_covers(byte: u8, x: int, row: int, i: int) -> bool {
    0 <= i < PIXELS && i / (DISPLAY_WIDTH as int) == row && lit(
        byte,
        i % (DISPLAY_WIDTH as int) - x,
    )
}

/// The packed bytes after one sprite byte has been combined into display
/// row `row` at column `x`: the byte that holds column `x` takes the left
/// part of the sprite byte, and its right neighbour takes the rest unless
/// that neighbour already belongs to the next display row.
spec fn stamped(bytes: Seq<u8>, byte: u8, x: int, row: int) -> Seq<u8> {
    let index = row * (STRIDE as int) + x / 8;
    let offset = (x % 8) as u8;
    let first = bytes.update(index, bytes[index] ^ (byte >> offset));
    if offset != 0 && (index + 1) % (STRIDE as int) != 0 {
        first.update(index + 1, bytes[index + 1] ^ (byte << ((8 - offset) as u8)))
    } else {
        first
    }
}

/// Combining a sprite byte into the packed bytes flips exactly the pixels
/// that the byte covers.
proof fn lemma_stamped_pixel(bytes: Seq<u8>, byte: u8, x: int, row: int, i: int)
    requires
        bytes.len() == FRAME_BYTES,
        0 <= x < DISPLAY_WIDTH,
        0 <= row < DISPLAY_HEIGHT,
        0 <= i < PIXELS,
    ensures
        stamped(bytes, byte, x, row).len() == FRAME_BYTES,
        unpack(stamped(bytes, byte, x, row))[i] == (unpack(bytes)[i] != row_covers(byte, x, row, i)),
{
    let index = row * 8 + x / 8;
    let offset = (x % 8) as u8;
    let after = stamped(bytes, byte, x, row);
    let j = i / 8;
    let k = i % 8;
    let px = i % 64;
    let py = i / 64;
    assert(j == py * 8 + px / 8);
    assert(k == px % 8);
    if j == index {
        assert(after[j] == bytes[j] ^ (byte >> offset));
        lemma_lit_xor(bytes[j], byte >> offset, k);
        lemma_lit_shr(byte, offset, k);
        assert(px - x == k - offset);
    } else if j == index + 1 && offset != 0 && (index + 1) % 8 != 0 {
        let tail = byte << ((8 - offset) as u8);
        assert(after[j] == bytes[j] ^ tail);
        lemma_lit_xor(bytes[j], tail, k);
        lemma_lit_shl(byte, offset, k);
        assert(py == row);
        assert(px - x == k + 8 - offset);
    } else {
        assert(after[j] == bytes[j]);
        if py == row {
            assert(px / 8 != x / 8);
            if j == index + 1 {
                assert(offset == 0);
                assert(px - x >= 8);
            } else if px / 8 < x / 8 {
                assert(px - x < 0);
            } else {
                assert(px / 8 >= x / 8 + 2);
                assert(px - x >= 8);
            }
        }
    }
}

/// A sprite extended by one more row covers what it covered before and what
/// the new row covers.
proof fn lemma_covers_next_row(sprite: Seq<u8>, x: int, y: int, n: int, i: int)
    requires
        0 <= n < sprite.len(),
    ensures
        sprite_covers(sprite.take(n + 1), x, y, i) == (sprite_covers(sprite.take(n), x, y, i)
            || row_covers(sprite[n], x, y + n, i)),
        !(sprite_covers(sprite.take(n), x, y, i) && row_covers(sprite[n], x, y + n, i)),
{
}

/// Sprite rows that would land below the bottom edge cover nothing.
proof fn lemma_covers_clipped(sprite: Seq<u8>, x: int, y: int, n: int, i: int)
    requires
        0 <= y,
        0 <= n <= sprite.len(),
        n == sprite.len() || y + n >= DISPLAY_HEIGHT,
    ensures
        sprite_covers(sprite.take(n), x, y, i) == sprite_covers(sprite, x, y, i),
{
}

/// The bit-packed frame buffer.
pub struct FrameBuffer {
    bits: [u8; 256],
}

impl View for FrameBuffer {
    type V = Seq<bool>;

    /// The pixels of the display, row by row.
    closed spec fn view(&self) -> Seq<bool> {
        unpack(self.bits@)
    }
}

impl FrameBuffer {
    /// A frame buffer with every pixel off.
    pub fn new() -> (frame: FrameBuffer)
        ensures
            frame@ == blank(),
    {
        let frame = FrameBuffer { bits: [0u8; 256] };
        proof {
            assert forall|i: int| 0 <= i < PIXELS implies !(#[trigger] frame@[i]) by {
                lemma_lit_zero(i % 8);
            }
            assert(frame@ =~= blank());
        }
        frame
    }

    /// The buffer has one entry for each pixel of the display.
    pub proof fn lemma_len(&self)
        ensures
            self@.len() == PIXELS,
    {
    }

    /// The packed bytes, row by row.
    pub fn as_bytes(&self) -> (bytes: &[u8; 256])
        ensures
            unpack(bytes@) == self@,
    {
        &self.bits
    }

    /// Whether the pixel at column `x`, row `y` is on. Positions outside the
    /// display hold no pixel.
    pub fn pixel(&self, x: usize, y: usize) -> (on: bool)
        ensures
            on == (x < DISPLAY_WIDTH && y < DISPLAY_HEIGHT && self@[y * DISPLAY_WIDTH + x]),
    {
        if x >= DISPLAY_WIDTH || y >= DISPLAY_HEIGHT {
            return false;
        }
        let position: usize = y * DISPLAY_WIDTH + x;
        let byte: u8 = self.bits[position / 8];
        let shift: usize = 7 - position % 8;
        (byte >> shift) & 1 == 1
    }

    /// Draws a sprite with its top-left corner at column `x`, row `y`, by
    /// XOR, and reports whether a pixel that was on has been turned off.
    ///
    /// Each byte of `sprite` is one row of eight pixels, leftmost pixel in the
    /// most significant bit. Whatever would fall beyond the right or the bottom
    /// edge is clipped; nothing wraps round.
    pub fn draw_sprite(&mut self, sprite: &[u8], x: usize, y: usize) -> (collision: bool)
        ensures
            final(self)@ == drawn(old(self)@, sprite@, x as int, y as int),
            collision == collides(old(self)@, sprite@, x as int, y as int),
    {
        if x >= DISPLAY_WIDTH || y >= DISPLAY_HEIGHT {
            proof {
                assert(self@ =~= drawn(self@, sprite@, x as int, y as int));
            }
            return false;
        }
        let column: usize = x / 8;
        let offset: usize = x % 8;
        let mut collision: bool = false;
        let mut row: usize = 0;
        proof {
            assert(self@ =~= drawn(self@, sprite@.take(0), x as int, y as int));
        }
        while row < sprite.len() && y + row < DISPLAY_HEIGHT
            invariant
                x < DISPLAY_WIDTH,
                y < DISPLAY_HEIGHT,
                column == x / 8,
                offset == x % 8,
                row <= sprite.len(),
                y + row <= DISPLAY_HEIGHT,
                self@ == drawn(old(self)@, sprite@.take(row as int), x as int, y as int),
                collision == collides(old(self)@, sprite@.take(row as int), x as int, y as int),
            decreases sprite.len() - row,
        {
            let byte: u8 = sprite[row];
            let index: usize = (y + row) * STRIDE + column;
            let head: u8 = byte >> offset;
            let ghost before = self.bits@;
            let ghost hit_before = collision;
            if self.bits[index] & head != 0 {
                collision = true;
            }
            self.bits[index] = self.bits[index] ^ head;
            if offset != 0 && (index + 1) % STRIDE != 0 {
                let tail: u8 = byte << (8 - offset);
                if self.bits[index + 1] & tail != 0 {
                    collision = true;
                }
                self.bits[index + 1] = self.bits[index + 1] ^ tail;
            }
            proof {
                let n = row as int;
                let xi = x as int;
                let yi = y as int;
                let start = old(self)@;
                let shorter = sprite@.take(n);
                let longer = sprite@.take(n + 1);
                assert(self.bits@ =~= stamped(before, byte, xi, yi + n));
                assert forall|i: int| 0 <= i < PIXELS implies #[trigger] self@[i] == drawn(
                    start,
                    longer,
                    xi,
                    yi,
                )[i] by {
                    lemma_stamped_pixel(before, byte, xi, yi + n, i);
                    lemma_covers_next_row(sprite@, xi, yi, n, i);
                    assert(unpack(before)[i] == drawn(start, shorter, xi, yi)[i]);
                }
                assert(self@ =~= drawn(start, longer, xi, yi));
                // A pixel of this row has not been touched by the rows above it.
                assert forall|i: int| 0 <= i < PIXELS && i / 64 == yi + n implies unpack(before)[i]
                    == start[i] by {
                    assert(unpack(before)[i] == drawn(start, shorter, xi, yi)[i]);
                }
                if collision {
                    if hit_before {
                        let i = choose|i: int|
                            0 <= i < PIXELS && start[i] && #[trigger] sprite_covers(
                                shorter,
                                xi,
                                yi,
                                i,
                            );
                        lemma_covers_next_row(sprite@, xi, yi, n, i);
                        assert(sprite_covers(longer, xi, yi, i));
                    } else if before[index as int] & head != 0 {
                        let k = lemma_lit_witness(before[index as int] & head);
                        lemma_lit_and(before[index as int], head, k);
                        lemma_lit_shr(byte, offset as u8, k);
                        let i = index * 8 + k;
                        assert(i / 64 == yi + n);
                        assert(i % 64 - xi == k - offset);
                        assert(unpack(before)[i] == start[i]);
                        lemma_covers_next_row(sprite@, xi, yi, n, i);
                        assert(sprite_covers(longer, xi, yi, i));
                    } else {
                        let tail: u8 = byte << ((8 - offset) as u8);
                        let k = lemma_lit_witness(before[index + 1] & tail);
                        lemma_lit_and(before[index + 1], tail, k);
                        lemma_lit_shl(byte, offset as u8, k);
                        let i = (index + 1) * 8 + k;
                        assert(i / 64 == yi + n);
                        assert(i % 64 - xi == k + 8 - offset);
                        assert(unpack(before)[i] == start[i]);
                        lemma_covers_next_row(sprite@, xi, yi, n, i);
                        assert(sprite_covers(longer, xi, yi, i));
                    }
                    assert(collides(start, longer, xi, yi));
                } else {
                    assert forall|i: int| 0 <= i < PIXELS && start[i] implies !(
                    #[trigger] sprite_covers(longer, xi, yi, i)) by {
                        lemma_covers_next_row(sprite@, xi, yi, n, i);
                        assert(!sprite_covers(shorter, xi, yi, i));
                        if row_covers(byte, xi, yi + n, i) {
                            let j = i / 8;
                            let k = i % 8;
                            assert(unpack(before)[i] == start[i]);
                            assert(lit(before[j], k));
                            lemma_stamped_pixel(before, byte, xi, yi + n, i);
                            if j == index {
                                lemma_lit_shr(byte, offset as u8, k);
                                assert(i % 64 - xi == k - offset);
                                lemma_lit_and(before[j], head, k);
                                lemma_lit_zero(k);
                            } else {
                                let tail: u8 = byte << ((8 - offset) as u8);
                                assert(i % 64 / 8 == xi / 8 + 1);
                                assert(j == index + 1);
                                assert(i % 64 - xi == k + 8 - offset);
                                assert(offset != 0);
                                lemma_lit_shl(byte, offset as u8, k);
                                lemma_lit_and(before[j], tail, k);
                                lemma_lit_zero(k);
                            }
                        }
                    }
                    assert(!collides(start, longer, xi, yi));
                }
            }
            row += 1;
        }
        proof {
            let n = row as int;
            let xi = x as int;
            let yi = y as int;
            let start = old(self)@;
            assert forall|i: int| 0 <= i < PIXELS implies sprite_covers(
                sprite@.take(n),
                xi,
                yi,
                i,
            ) == sprite_covers(sprite@, xi, yi, i) by {
                lemma_covers_clipped(sprite@, xi, yi, n, i);
            }
            assert(self@ =~= drawn(start, sprite@, xi, yi));
            if collision {
                let i = choose|i: int|
                    0 <= i < PIXELS && start[i] && #[trigger] sprite_covers(
                        sprite@.take(n),
                        xi,
                        yi,
                        i,
                    );
                assert(sprite_covers(sprite@, xi, yi, i));
            } else {
                assert forall|i: int| 0 <= i < PIXELS && start[i] implies !(
                #[trigger] sprite_covers(sprite@, xi, yi, i)) by {
                    assert(!sprite_covers(sprite@.take(n), xi, yi, i));
                }
            }
        }
        collision
    }

    /// Turns every pixel off.
    pub fn clear(&mut self)
        ensures
            final(self)@ == blank(),
    {
        let mut index: usize = 0;
        while index < FRAME_BYTES
            invariant
                index <= FRAME_BYTES,
                forall|j: int| 0 <= j < index ==> self.bits@[j] == 0,
            decreases FRAME_BYTES - index,
        {
            self.bits[index] = 0;
            index += 1;
        }
        proof {
            assert forall|i: int| 0 <= i < PIXELS implies !(#[trigger] self@[i]) by {
                lemma_lit_zero(i % 8);
            }
            assert(self@ =~= blank());
        }
    }
}

} // verus!
