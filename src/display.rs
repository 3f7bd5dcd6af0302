use vstd::prelude::*;

verus! {

/// Width of the pixel grid.
pub const WIDTH: usize = 64;

/// Height of the pixel grid.
pub const HEIGHT: usize = 32;

/// Whether `(x, y)` lies on the grid.
pub open spec fn on_grid(x: int, y: int) -> bool {
    0 <= x < 64 && 0 <= y < 32
}

/// Position of pixel `(x, y)` in the row-major pixel sequence.
pub open spec fn pixel_index(x: int, y: int) -> int {
    y * 64 + x
}

/// A 64 by 32 monochrome pixel grid, stored row by row.
pub struct Display {
    pixels: [bool; 2048],
}

impl View for Display {
    type V = Seq<bool>;

    closed spec fn view(&self) -> Seq<bool> {
        self.pixels@
    }
}

impl Display {
    /// The pixel sequence holds one entry for each pixel of the grid.
    pub proof fn lemma_len(&self)
        ensures
            self@.len() == 2048,
    {
    }

    /// Two grids that agree on every pixel are the same grid.
    pub proof fn lemma_same_pixels(a: Display, b: Display)
        requires
            forall|x: int, y: int| on_grid(x, y) ==> #[trigger] a.lit(x, y) == b.lit(x, y),
        ensures
            a == b,
    {
        assert forall|k: int| 0 <= k < 2048 implies a.pixels@[k] == b.pixels@[k] by {
            let x = k % 64;
            let y = k / 64;
            assert(on_grid(x, y) && pixel_index(x, y) == k);
            assert(a.lit(x, y) == b.lit(x, y));
        }
        assert(a.pixels@ =~= b.pixels@);
        assert(a.pixels =~= b.pixels);
    }

    /// Whether pixel `(x, y)` is lit.
    pub open spec fn lit(&self, x: int, y: int) -> bool {
        self@[pixel_index(x, y)]
    }

    /// Every pixel of the grid is unlit.
    pub open spec fn is_blank(&self) -> bool {
        forall|x: int, y: int| on_grid(x, y) ==> !#[trigger] self.lit(x, y)
    }

    /// A grid with every pixel unlit.
    pub fn new() -> (r: Display)
        ensures
            r@.len() == 2048,
            r.is_blank(),
    {
        let r = Display { pixels: [false; 2048] };
        assert forall|x: int, y: int| on_grid(x, y) implies !#[trigger] r.lit(x, y) by {
            assert(0 <= pixel_index(x, y) < 2048);
        }
        r
    }

    /// Turns every pixel off.
    pub fn clear(&mut self)
        ensures
            final(self).is_blank(),
    {
        self.pixels = [false; 2048];
        let ghost d = *final(self);
        assert forall|x: int, y: int| on_grid(x, y) implies !#[trigger] d.lit(x, y) by {
            assert(0 <= pixel_index(x, y) < 2048);
        }
    }

    /// Whether pixel `(x, y)` is lit.
    pub fn read(&self, x: usize, y: usize) -> (r: bool)
        requires
            x < WIDTH,
            y < HEIGHT,
        ensures
            r == self.lit(x as int, y as int),
    {
        self.pixels[y * WIDTH + x]
    }

    /// Sets pixel `(x, y)` to `lit`, leaving every other pixel as it was.
    pub fn write(&mut self, x: usize, y: usize, lit: bool)
        requires
            x < WIDTH,
            y < HEIGHT,
        ensures
            final(self)@ == old(self)@.update(pixel_index(x as int, y as int), lit),
    {
        self.pixels[y * WIDTH + x] = lit;
    }
}

/// Each of the four RGBA bytes for a pixel: opaque white when lit, transparent black when not.
pub open spec fn rgba_byte(lit: bool) -> u8 {
    if lit {
        0xFF
    } else {
        0x00
    }
}

impl Display {
    /// The grid as RGBA bytes, four for each pixel in row-major order.
    pub fn to_rgba(&self) -> (r: Vec<u8>)
        ensures
            r@.len() == 4 * 2048,
            forall|k: int, j: int|
                0 <= k < 2048 && 0 <= j < 4 ==> #[trigger] r@[4 * k + j] == rgba_byte(self@[k]),
    {
        let mut r: Vec<u8> = Vec::with_capacity(4 * 2048);
        let mut k: usize = 0;
        while k < 2048
            invariant
                k <= 2048,
                self@.len() == 2048,
                r@.len() == 4 * k,
                forall|k2: int, j: int|
                    0 <= k2 < k && 0 <= j < 4 ==> #[trigger] r@[4 * k2 + j] == rgba_byte(self@[k2]),
            decreases 2048 - k,
        {
            let b: u8 = if self.pixels[k] {
                0xFF
            } else {
                0x00
            };
            r.push(b);
            r.push(b);
            r.push(b);
            r.push(b);
            assert forall|k2: int, j: int| 0 <= k2 < k + 1 && 0 <= j < 4 implies #[trigger] r@[4
                * k2 + j] == rgba_byte(self@[k2]) by {
                if k2 < k {
                    assert(4 * k2 + j < 4 * k);
                }
            }
            k += 1;
        }
        r
    }
}

} // verus!
