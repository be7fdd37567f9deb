//! The render target and the background it is cleared from.

use crate::pixel::Pixel;
use vstd::prelude::*;

verus! {

/// Columns of the frame buffer.
pub const WIDTH: usize = 500;

/// Rows of the frame buffer.
pub const HEIGHT: usize = 500;

/// Position of the cell in row `row` and column `col` in a row-major buffer.
pub open spec fn cell_index(row: int, col: int) -> int {
    row * WIDTH + col
}

/// The pixel every cell holds before anything was generated or drawn.
pub open spec fn blank_pixel() -> Pixel {
    Pixel { r: 0, g: 0, b: 0, a: 0 }
}

/// The background colour of the cell in row `row` and column `col`: red grows
/// down the rows, green along the columns, blue falls down the rows. Each
/// channel is the exact quotient cut off to a whole number.
pub open spec fn gradient(row: int, col: int) -> Pixel {
    Pixel {
        r: (255 * row / (HEIGHT as int)) as u8,
        g: (255 * col / (WIDTH as int)) as u8,
        b: ((255 * HEIGHT - 255 * row) / (HEIGHT as int)) as u8,
        a: 255,
    }
}

/// The whole background pattern, row by row.
pub open spec fn gradient_pattern() -> Seq<Pixel> {
    Seq::new((WIDTH * HEIGHT) as nat, |i: int| gradient(i / (WIDTH as int), i % (WIDTH as int)))
}

/// A grid of `HEIGHT` rows of `WIDTH` pixels, stored row by row from the top
/// left.
pub struct FrameBuffer {
    pixels: Vec<Pixel>,
}

impl View for FrameBuffer {
    type V = Seq<Pixel>;

    closed spec fn view(&self) -> Seq<Pixel> {
        self.pixels@
    }
}

impl FrameBuffer {
    /// Holds of every frame buffer: it has one pixel for each cell of the grid.
    #[verifier::type_invariant]
    pub open spec fn well_formed(self) -> bool {
        self@.len() == WIDTH * HEIGHT
    }

    /// A buffer of blank pixels.
    pub fn new() -> (fb: FrameBuffer)
        ensures
            fb@ == Seq::new((WIDTH * HEIGHT) as nat, |i: int| blank_pixel()),
    {
        let mut pixels: Vec<Pixel> = Vec::new();
        let mut i: usize = 0;
        while i < WIDTH * HEIGHT
            invariant
                i <= WIDTH * HEIGHT,
                pixels@.len() == i,
                forall|k: int| 0 <= k < i ==> pixels@[k] == blank_pixel(),
            decreases WIDTH * HEIGHT - i,
        {
            pixels.push(Pixel { r: 0, g: 0, b: 0, a: 0 });
            i += 1;
        }
        assert(pixels@ =~= Seq::new((WIDTH * HEIGHT) as nat, |i: int| blank_pixel()));
        FrameBuffer { pixels }
    }

    /// Number of pixels, always `WIDTH * HEIGHT`.
    pub fn len(&self) -> (n: usize)
        ensures
            n == self@.len(),
            n == WIDTH * HEIGHT,
    {
        proof {
            use_type_invariant(self);
        }
        self.pixels.len()
    }

    /// The pixel in row `row` and column `col`, or `None` outside the grid.
    pub fn get(&self, row: usize, col: usize) -> (p: Option<Pixel>)
        ensures
            p == if row < HEIGHT && col < WIDTH {
                Some(self@[cell_index(row as int, col as int)])
            } else {
                None
            },
    {
        proof {
            use_type_invariant(self);
        }
        if row < HEIGHT && col < WIDTH {
            Some(self.pixels[row * WIDTH + col])
        } else {
            None
        }
    }

    /// The pixel in row `row` and column `col` of the grid.
    pub(crate) fn at(&self, row: usize, col: usize) -> (p: Pixel)
        requires
            row < HEIGHT,
            col < WIDTH,
        ensures
            p == self@[cell_index(row as int, col as int)],
    {
        proof {
            use_type_invariant(self);
        }
        self.pixels[row * WIDTH + col]
    }

    /// Sets the cell at position `i` of the row-major order.
    pub(crate) fn put(&mut self, i: usize, pixel: Pixel)
        requires
            i < WIDTH * HEIGHT,
        ensures
            final(self)@ == old(self)@.update(i as int, pixel),
            final(self)@.len() == WIDTH * HEIGHT,
        no_unwind
    {
        proof {
            use_type_invariant(&*self);
        }
        self.pixels[i] = pixel;
    }

    /// Overwrites this buffer with the contents of `source`.
    pub fn copy_from(&mut self, source: &FrameBuffer)
        ensures
            final(self)@ == source@,
            final(self)@.len() == WIDTH * HEIGHT,
        no_unwind
    {
        proof {
            use_type_invariant(&*self);
            use_type_invariant(source);
        }
        let mut i: usize = 0;
        while i < WIDTH * HEIGHT
            invariant
                i <= WIDTH * HEIGHT,
                self.pixels@.len() == WIDTH * HEIGHT,
                source.pixels@.len() == WIDTH * HEIGHT,
                forall|k: int| 0 <= k < i ==> self.pixels@[k] == source.pixels@[k],
            decreases WIDTH * HEIGHT - i,
        {
            self.pixels[i] = source.pixels[i];
            i += 1;
        }
        assert(self.pixels@ =~= source.pixels@);
    }

    /// The buffer as bytes for a display: the pixels in row-major order, four
    /// bytes each, red, green, blue, alpha.
    pub fn to_bytes(&self) -> (bytes: Vec<u8>)
        ensures
            bytes@.len() == 4 * self@.len(),
            self@.len() == WIDTH * HEIGHT,
            forall|i: int|
                0 <= i < self@.len() ==> {
                    &&& bytes@[4 * i] == (#[trigger] self@[i]).r
                    &&& bytes@[4 * i + 1] == self@[i].g
                    &&& bytes@[4 * i + 2] == self@[i].b
                    &&& bytes@[4 * i + 3] == self@[i].a
                },
    {
        proof {
            use_type_invariant(self);
        }
        let mut bytes: Vec<u8> = Vec::new();
        let mut i: usize = 0;
        while i < WIDTH * HEIGHT
            invariant
                i <= WIDTH * HEIGHT,
                self.pixels@.len() == WIDTH * HEIGHT,
                bytes@.len() == 4 * i,
                forall|k: int|
                    0 <= k < i ==> {
                        &&& bytes@[4 * k] == (#[trigger] self.pixels@[k]).r
                        &&& bytes@[4 * k + 1] == self.pixels@[k].g
                        &&& bytes@[4 * k + 2] == self.pixels@[k].b
                        &&& bytes@[4 * k + 3] == self.pixels@[k].a
                    },
            decreases WIDTH * HEIGHT - i,
        {
            let p = self.pixels[i];
            bytes.push(p.r);
            bytes.push(p.g);
            bytes.push(p.b);
            bytes.push(p.a);
            i += 1;
        }
        bytes
    }
}

} // verus!
