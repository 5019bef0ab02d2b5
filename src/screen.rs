use vstd::prelude::*;

use crate::config::{CHIP8_COLOR_BYTES, CHIP8_HEIGHT, CHIP8_PIXEL_COUNT, CHIP8_WIDTH};

verus! {

/// Index of pixel (px, py) in the row-major pixel sequence.
pub open spec fn pixel_index(px: int, py: int) -> int {
    py * 64 + px
}

/// Whether bit `b` (0 is the most significant) of a sprite row is set.
pub open spec fn sprite_bit(byte: u8, b: int) -> bool {
    0 <= b < 8 && byte & (0x80u8 >> (b as u8)) != 0
}

/// Whether pixel `k` is hit by one of the first `cols` set bits of row `row`
/// of a sprite drawn at (x, y), with wraparound on both axes.
pub open spec fn row_covers_upto(x: int, y: int, row: int, byte: u8, cols: int, k: int) -> bool {
    exists|b: int|
        0 <= b < cols && #[trigger] sprite_bit(byte, b) && k == pixel_index((x + b) % 64, (y + row) % 32)
}

/// Whether pixel `k` is hit by a set bit of row `row` of a sprite drawn at (x, y).
pub open spec fn row_covers(x: int, y: int, row: int, byte: u8, k: int) -> bool {
    row_covers_upto(x, y, row, byte, 8, k)
}

/// The pixels after toggling every pixel that row `row` of the sprite hits.
pub open spec fn apply_row(pix: Seq<bool>, x: int, y: int, row: int, byte: u8) -> Seq<bool> {
    Seq::new(pix.len(), |k: int| pix[k] != row_covers(x, y, row, byte, k))
}

/// Whether row `row` of the sprite hits a pixel that is on.
pub open spec fn row_collides(pix: Seq<bool>, x: int, y: int, row: int, byte: u8) -> bool {
    exists|k: int| 0 <= k < pix.len() && #[trigger] row_covers(x, y, row, byte, k) && pix[k]
}

/// The pixels after drawing the first `n` rows of a sprite at (x, y).
pub open spec fn draw_rows(pix: Seq<bool>, x: int, y: int, sprite: Seq<u8>, n: nat) -> Seq<bool>
    decreases n,
{
    if n == 0 {
        pix
    } else {
        apply_row(draw_rows(pix, x, y, sprite, (n - 1) as nat), x, y, n - 1, sprite[n - 1])
    }
}

/// Whether drawing the first `n` rows of a sprite at (x, y) turns off a pixel.
pub open spec fn draw_collides(pix: Seq<bool>, x: int, y: int, sprite: Seq<u8>, n: nat) -> bool
    decreases n,
{
    if n == 0 {
        false
    } else {
        draw_collides(pix, x, y, sprite, (n - 1) as nat) || row_collides(
            draw_rows(pix, x, y, sprite, (n - 1) as nat),
            x,
            y,
            n - 1,
            sprite[n - 1],
        )
    }
}

/// The color of a pixel in the draw buffer: white when on, black when off.
pub open spec fn color_of(on: bool) -> u8 {
    if on {
        0xFF
    } else {
        0x00
    }
}

/// Two set bits of one sprite row land on distinct pixels.
proof fn lemma_row_pixels_distinct(x: int, y: int, row: int, b1: int, b2: int)
    requires
        0 <= b1 < 8,
        0 <= b2 < 8,
        b1 != b2,
        x >= 0,
        y >= 0,
        row >= 0,
    ensures
        pixel_index((x + b1) % 64, (y + row) % 32) != pixel_index((x + b2) % 64, (y + row) % 32),
{
    let py = (y + row) % 32;
    assert((x + b1) % 64 != (x + b2) % 64) by {
        vstd::arithmetic::div_mod::lemma_fundamental_div_mod(x + b1, 64);
        vstd::arithmetic::div_mod::lemma_fundamental_div_mod(x + b2, 64);
        vstd::arithmetic::div_mod::lemma_fundamental_div_mod(x, 64);
        let q = x / 64;
        let r = x % 64;
        if r + b1 < 64 {
            vstd::arithmetic::div_mod::lemma_fundamental_div_mod_converse(x + b1, 64, q, r + b1);
        } else {
            vstd::arithmetic::div_mod::lemma_fundamental_div_mod_converse(x + b1, 64, q + 1, r + b1 - 64);
        }
        if r + b2 < 64 {
            vstd::arithmetic::div_mod::lemma_fundamental_div_mod_converse(x + b2, 64, q, r + b2);
        } else {
            vstd::arithmetic::div_mod::lemma_fundamental_div_mod_converse(x + b2, 64, q + 1, r + b2 - 64);
        }
    }
}

/// A monochrome framebuffer, with the RGB buffer the host presents.
#[derive(Debug)]
pub struct Screen {
    pixel_states: [bool; CHIP8_PIXEL_COUNT],
    pixels_for_draw: [u8; CHIP8_COLOR_BYTES],
}

impl View for Screen {
    type V = Seq<bool>;

    /// Entry `py * 64 + px` tells whether pixel (px, py) is on.
    closed spec fn view(&self) -> Seq<bool> {
        self.pixel_states@
    }
}

impl Screen {
    /// The RGB buffer shows each pixel as three bytes of its color.
    pub closed spec fn wf(&self) -> bool {
        forall|j: int|
            0 <= j < CHIP8_COLOR_BYTES ==> #[trigger] self.pixels_for_draw@[j] == color_of(
                self.pixel_states@[j / 3],
            )
    }

    /// The draw buffer as the host sees it: three bytes per pixel, row-major.
    pub closed spec fn colors(&self) -> Seq<u8> {
        self.pixels_for_draw@
    }

    /// The draw buffer always agrees with the pixels.
    pub proof fn lemma_colors(&self)
        requires
            self.wf(),
        ensures
            self@.len() == CHIP8_PIXEL_COUNT,
            self.colors().len() == CHIP8_COLOR_BYTES,
            forall|j: int|
                0 <= j < CHIP8_COLOR_BYTES ==> #[trigger] self.colors()[j] == color_of(self@[j / 3]),
    {
    }

    /// A screen with every pixel off.
    pub fn new() -> (r: Self)
        ensures
            r.wf(),
            r@ == Seq::new(CHIP8_PIXEL_COUNT as nat, |k: int| false),
    {
        let r = Self {
            pixel_states: [false; CHIP8_PIXEL_COUNT],
            pixels_for_draw: [0u8; CHIP8_COLOR_BYTES],
        };
        assert(r@ =~= Seq::new(CHIP8_PIXEL_COUNT as nat, |k: int| false));
        r
    }

    /// The RGB draw buffer: three bytes per pixel, row-major.
    pub fn pixel_colors(&self) -> (r: &[u8])
        ensures
            r@ == self.colors(),
    {
        self.pixels_for_draw.as_slice()
    }

    /// Turns every pixel off.
    pub fn clear(&mut self)
        ensures
            final(self).wf(),
            final(self)@ == Seq::new(CHIP8_PIXEL_COUNT as nat, |k: int| false),
    {
        let mut i: usize = 0;
        while i < CHIP8_PIXEL_COUNT
            invariant
                i <= CHIP8_PIXEL_COUNT,
                forall|k: int| 0 <= k < i ==> !#[trigger] self.pixel_states@[k],
            decreases CHIP8_PIXEL_COUNT - i,
        {
            self.pixel_states[i] = false;
            i = i + 1;
        }
        let mut j: usize = 0;
        while j < CHIP8_COLOR_BYTES
            invariant
                j <= CHIP8_COLOR_BYTES,
                forall|k: int| 0 <= k < CHIP8_PIXEL_COUNT ==> !#[trigger] self.pixel_states@[k],
                forall|k: int| 0 <= k < j ==> #[trigger] self.pixels_for_draw@[k] == 0,
            decreases CHIP8_COLOR_BYTES - j,
        {
            self.pixels_for_draw[j] = 0;
            j = j + 1;
        }
        assert(self@ =~= Seq::new(CHIP8_PIXEL_COUNT as nat, |k: int| false));
    }

    /// Draws a sprite at (x, y): each set bit of each row, most significant
    /// first, toggles the pixel it lands on, with wraparound on both axes.
    /// Returns whether a pixel that was on got turned off.
    pub fn draw_sprite(&mut self, x: usize, y: usize, sprite: &[u8]) -> (r: bool)
        requires
            old(self).wf(),
        ensures
            final(self).wf(),
            final(self)@ == draw_rows(old(self)@, x as int, y as int, sprite@, sprite@.len()),
            r == draw_collides(old(self)@, x as int, y as int, sprite@, sprite@.len()),
    {
        let mut pixel_erased = false;
        let ghost start = self@;
        let mut ly: usize = 0;
        while ly < sprite.len()
            invariant
                self.wf(),
                ly <= sprite@.len(),
                self@ == draw_rows(start, x as int, y as int, sprite@, ly as nat),
                pixel_erased == draw_collides(start, x as int, y as int, sprite@, ly as nat),
            decreases sprite@.len() - ly,
        {
            let c = sprite[ly];
            let ghost row_start = self@;
            let ghost erased_start = pixel_erased;
            let index_y = (y % CHIP8_HEIGHT + ly % CHIP8_HEIGHT) % CHIP8_HEIGHT;
            assert(index_y == (y + ly) % 32) by {
                vstd::arithmetic::div_mod::lemma_add_mod_noop(y as int, ly as int, 32);
            }
            let mut lx: u8 = 0;
            while lx < 8
                invariant
                    self.wf(),
                    lx <= 8,
                    ly < sprite@.len(),
                    c == sprite@[ly as int],
                    index_y == (y + ly) % 32,
                    row_start.len() == CHIP8_PIXEL_COUNT,
                    self@ == Seq::new(
                        CHIP8_PIXEL_COUNT as nat,
                        |k: int| row_start[k] != row_covers_upto(x as int, y as int, ly as int, c, lx as int, k),
                    ),
                    pixel_erased == (erased_start || exists|k: int|
                        0 <= k < CHIP8_PIXEL_COUNT && #[trigger] row_covers_upto(
                            x as int,
                            y as int,
                            ly as int,
                            c,
                            lx as int,
                            k,
                        ) && row_start[k]),
                decreases 8 - lx,
            {
                let ghost before = self@;
                if c & (0x80u8 >> lx) != 0 {
                    let index_x = (x % CHIP8_WIDTH + lx as usize) % CHIP8_WIDTH;
                    assert(index_x == (x + lx) % 64) by {
                        vstd::arithmetic::div_mod::lemma_add_mod_noop(x as int, lx as int, 64);
                        vstd::arithmetic::div_mod::lemma_small_mod(lx as nat, 64);
                    }
                    let ghost idx = pixel_index(index_x as int, index_y as int);
                    assert(sprite_bit(c, lx as int));
                    assert(!row_covers_upto(x as int, y as int, ly as int, c, lx as int, idx)) by {
                        if row_covers_upto(x as int, y as int, ly as int, c, lx as int, idx) {
                            let b = choose|b: int|
                                0 <= b < lx && #[trigger] sprite_bit(c, b) && idx == pixel_index(
                                    (x + b) % 64,
                                    (y + ly) % 32,
                                );
                            lemma_row_pixels_distinct(x as int, y as int, ly as int, b, lx as int);
                        }
                    }
                    if self.pixel(index_x, index_y) {
                        pixel_erased = true;
                    }
                    self.set_pixel(index_x, index_y, true);
                    assert forall|k: int| 0 <= k < CHIP8_PIXEL_COUNT implies
                        #[trigger] row_covers_upto(x as int, y as int, ly as int, c, (lx + 1) as int, k)
                            == (row_covers_upto(x as int, y as int, ly as int, c, lx as int, k) || k
                            == idx) by {
                        if k == idx {
                            assert(row_covers_upto(x as int, y as int, ly as int, c, (lx + 1) as int, k)
                                ) by {
                                assert(sprite_bit(c, lx as int));
                            }
                        }
                        if row_covers_upto(x as int, y as int, ly as int, c, (lx + 1) as int, k) {
                            let b = choose|b: int|
                                0 <= b < lx + 1 && #[trigger] sprite_bit(c, b) && k == pixel_index(
                                    (x + b) % 64,
                                    (y + ly) % 32,
                                );
                            if b < lx {
                                assert(row_covers_upto(x as int, y as int, ly as int, c, lx as int, k));
                            }
                        }
                        if row_covers_upto(x as int, y as int, ly as int, c, lx as int, k) {
                            let b = choose|b: int|
                                0 <= b < lx && #[trigger] sprite_bit(c, b) && k == pixel_index(
                                    (x + b) % 64,
                                    (y + ly) % 32,
                                );
                            assert(0 <= b < lx + 1);
                        }
                    }
                    assert(self@ =~= Seq::new(
                        CHIP8_PIXEL_COUNT as nat,
                        |k: int| row_start[k] != row_covers_upto(x as int, y as int, ly as int, c, (lx + 1) as int, k),
                    ));
                    assert(pixel_erased == (erased_start || exists|k: int|
                        0 <= k < CHIP8_PIXEL_COUNT && #[trigger] row_covers_upto(
                            x as int,
                            y as int,
                            ly as int,
                            c,
                            (lx + 1) as int,
                            k,
                        ) && row_start[k])) by {
                        if exists|k: int|
                            0 <= k < CHIP8_PIXEL_COUNT && #[trigger] row_covers_upto(
                                x as int,
                                y as int,
                                ly as int,
                                c,
                                (lx + 1) as int,
                                k,
                            ) && row_start[k] {
                            let k = choose|k: int|
                                0 <= k < CHIP8_PIXEL_COUNT && #[trigger] row_covers_upto(
                                    x as int,
                                    y as int,
                                    ly as int,
                                    c,
                                    (lx + 1) as int,
                                    k,
                                ) && row_start[k];
                            if k != idx {
                                assert(row_covers_upto(x as int, y as int, ly as int, c, lx as int, k));
                            }
                        }
                        if exists|k: int|
                            0 <= k < CHIP8_PIXEL_COUNT && #[trigger] row_covers_upto(
                                x as int,
                                y as int,
                                ly as int,
                                c,
                                lx as int,
                                k,
                            ) && row_start[k] {
                            let k = choose|k: int|
                                0 <= k < CHIP8_PIXEL_COUNT && #[trigger] row_covers_upto(
                                    x as int,
                                    y as int,
                                    ly as int,
                                    c,
                                    lx as int,
                                    k,
                                ) && row_start[k];
                            assert(row_covers_upto(x as int, y as int, ly as int, c, (lx + 1) as int, k));
                        }
                        if row_start[idx] {
                            assert(row_covers_upto(x as int, y as int, ly as int, c, (lx + 1) as int, idx));
                        }
                    }
                } else {
                    assert forall|k: int| 0 <= k < CHIP8_PIXEL_COUNT implies
                        #[trigger] row_covers_upto(x as int, y as int, ly as int, c, (lx + 1) as int, k)
                            == row_covers_upto(x as int, y as int, ly as int, c, lx as int, k) by {
                        if row_covers_upto(x as int, y as int, ly as int, c, (lx + 1) as int, k) {
                            let b = choose|b: int|
                                0 <= b < lx + 1 && #[trigger] sprite_bit(c, b) && k == pixel_index(
                                    (x + b) % 64,
                                    (y + ly) % 32,
                                );
                            assert(b != lx);
                        }
                        if row_covers_upto(x as int, y as int, ly as int, c, lx as int, k) {
                            let b = choose|b: int|
                                0 <= b < lx && #[trigger] sprite_bit(c, b) && k == pixel_index(
                                    (x + b) % 64,
                                    (y + ly) % 32,
                                );
                            assert(0 <= b < lx + 1);
                        }
                    }
                    assert(self@ =~= Seq::new(
                        CHIP8_PIXEL_COUNT as nat,
                        |k: int| row_start[k] != row_covers_upto(x as int, y as int, ly as int, c, (lx + 1) as int, k),
                    ));
                    assert(pixel_erased == (erased_start || exists|k: int|
                        0 <= k < CHIP8_PIXEL_COUNT && #[trigger] row_covers_upto(
                            x as int,
                            y as int,
                            ly as int,
                            c,
                            (lx + 1) as int,
                            k,
                        ) && row_start[k])) by {
                        if exists|k: int|
                            0 <= k < CHIP8_PIXEL_COUNT && #[trigger] row_covers_upto(
                                x as int,
                                y as int,
                                ly as int,
                                c,
                                (lx + 1) as int,
                                k,
                            ) && row_start[k] {
                            let k = choose|k: int|
                                0 <= k < CHIP8_PIXEL_COUNT && #[trigger] row_covers_upto(
                                    x as int,
                                    y as int,
                                    ly as int,
                                    c,
                                    (lx + 1) as int,
                                    k,
                                ) && row_start[k];
                            assert(row_covers_upto(x as int, y as int, ly as int, c, lx as int, k));
                        }
                        if exists|k: int|
                            0 <= k < CHIP8_PIXEL_COUNT && #[trigger] row_covers_upto(
                                x as int,
                                y as int,
                                ly as int,
                                c,
                                lx as int,
                                k,
                            ) && row_start[k] {
                            let k = choose|k: int|
                                0 <= k < CHIP8_PIXEL_COUNT && #[trigger] row_covers_upto(
                                    x as int,
                                    y as int,
                                    ly as int,
                                    c,
                                    lx as int,
                                    k,
                                ) && row_start[k];
                            assert(row_covers_upto(x as int, y as int, ly as int, c, (lx + 1) as int, k));
                        }
                    }
                }
                lx = lx + 1;
            }
            assert(self@ =~= apply_row(row_start, x as int, y as int, ly as int, c));
            assert(pixel_erased == (erased_start || row_collides(row_start, x as int, y as int, ly as int, c))) by {
                if row_collides(row_start, x as int, y as int, ly as int, c) {
                    let k = choose|k: int|
                        0 <= k < row_start.len() && #[trigger] row_covers(x as int, y as int, ly as int, c, k)
                            && row_start[k];
                    assert(row_covers_upto(x as int, y as int, ly as int, c, 8, k));
                }
                if exists|k: int|
                    0 <= k < CHIP8_PIXEL_COUNT && #[trigger] row_covers_upto(
                        x as int,
                        y as int,
                        ly as int,
                        c,
                        8,
                        k,
                    ) && row_start[k] {
                    let k = choose|k: int|
                        0 <= k < CHIP8_PIXEL_COUNT && #[trigger] row_covers_upto(
                            x as int,
                            y as int,
                            ly as int,
                            c,
                            8,
                            k,
                        ) && row_start[k];
                    assert(row_covers(x as int, y as int, ly as int, c, k));
                }
            }
            ly = ly + 1;
        }
        pixel_erased
    }

    /// Whether pixel (x, y) is on.
    fn pixel(&self, x: usize, y: usize) -> (r: bool)
        requires
            x < CHIP8_WIDTH,
            y < CHIP8_HEIGHT,
        ensures
            r == self@[pixel_index(x as int, y as int)],
    {
        self.pixel_states[Self::convert_2d_to_1d(x, y)]
    }

    /// Toggles pixel (x, y) when `val` is set; leaves it as it is otherwise.
    fn set_pixel(&mut self, x: usize, y: usize, val: bool)
        requires
            old(self).wf(),
            x < CHIP8_WIDTH,
            y < CHIP8_HEIGHT,
        ensures
            final(self).wf(),
            final(self)@ == old(self)@.update(
                pixel_index(x as int, y as int),
                old(self)@[pixel_index(x as int, y as int)] != val,
            ),
    {
        let k = Self::convert_2d_to_1d(x, y);
        let ghost prev = self.pixel_states@;
        let on = self.pixel_states[k] != val;
        self.pixel_states[k] = on;
        let base = Self::convert_2d_to_1d_for_draw(x, y);
        let color: u8 = if on {
            0xFF
        } else {
            0x00
        };
        let mut i: usize = 0;
        while i < 3
            invariant
                i <= 3,
                base == 3 * k,
                k < CHIP8_PIXEL_COUNT,
                prev.len() == CHIP8_PIXEL_COUNT,
                self.pixel_states@ == prev.update(k as int, on),
                color == color_of(on),
                forall|j: int|
                    0 <= j < CHIP8_COLOR_BYTES ==> #[trigger] self.pixels_for_draw@[j] == if base
                        <= j < base + i {
                        color
                    } else {
                        color_of(prev[j / 3])
                    },
            decreases 3 - i,
        {
            self.pixels_for_draw[base + i] = color;
            i = i + 1;
        }
        assert forall|j: int| 0 <= j < CHIP8_COLOR_BYTES implies #[trigger] self.pixels_for_draw@[j]
            == color_of(self.pixel_states@[j / 3]) by {
            vstd::arithmetic::div_mod::lemma_fundamental_div_mod(j, 3);
            if base <= j < base + 3 {
                vstd::arithmetic::div_mod::lemma_fundamental_div_mod_converse(j, 3, k as int, j - base);
            }
        }
    }

    /// Index of pixel (x, y) in the pixel buffer.
    fn convert_2d_to_1d(x: usize, y: usize) -> (r: usize)
        requires
            x < CHIP8_WIDTH,
            y < CHIP8_HEIGHT,
        ensures
            r == pixel_index(x as int, y as int),
            r < CHIP8_PIXEL_COUNT,
    {
        y * CHIP8_WIDTH + x
    }

    /// Index of the first of the three color bytes of pixel (x, y).
    fn convert_2d_to_1d_for_draw(x: usize, y: usize) -> (r: usize)
        requires
            x < CHIP8_WIDTH,
            y < CHIP8_HEIGHT,
        ensures
            r == 3 * pixel_index(x as int, y as int),
            r + 3 <= CHIP8_COLOR_BYTES,
    {
        y * CHIP8_WIDTH * 3 + x * 3
    }
}

} // verus!
