//! The drawing context: the live frame buffer together with the background
//! that clears it at the start of every frame.

use crate::framebuffer::{blank_pixel, gradient, gradient_pattern, FrameBuffer, HEIGHT, WIDTH};
use crate::pixel::Pixel;
use vstd::prelude::*;

verus! {

/// What a [`Canvas`] holds: the pixels being drawn and the background pattern,
/// both row by row.
pub struct CanvasView {
    pub buffer: Seq<Pixel>,
    pub background: Seq<Pixel>,
}

/// Owner of the live frame buffer and of its background.
pub struct Canvas {
    buffer: FrameBuffer,
    background: FrameBuffer,
}

impl View for Canvas {
    type V = CanvasView;

    closed spec fn view(&self) -> CanvasView {
        CanvasView { buffer: self.buffer@, background: self.background@ }
    }
}

impl Canvas {
    /// Holds of every canvas: both buffers have one pixel for each cell of
    /// the grid.
    #[verifier::type_invariant]
    pub open spec fn well_formed(self) -> bool {
        self@.buffer.len() == WIDTH * HEIGHT && self@.background.len() == WIDTH * HEIGHT
    }

    /// A canvas whose two buffers are blank. Call [`generate_background`]
    /// before the first frame.
    pub fn new() -> (canvas: Canvas)
        ensures
            canvas@.buffer == Seq::new((WIDTH * HEIGHT) as nat, |i: int| blank_pixel()),
            canvas@.background == canvas@.buffer,
    {
        Canvas { buffer: FrameBuffer::new(), background: FrameBuffer::new() }
    }

    /// Sets one cell of the live buffer.
    pub(crate) fn put(&mut self, i: usize, pixel: Pixel)
        requires
            i < WIDTH * HEIGHT,
        ensures
            final(self)@.buffer == old(self)@.buffer.update(i as int, pixel),
            final(self)@.buffer.len() == WIDTH * HEIGHT,
            final(self)@.background == old(self)@.background,
    {
        proof {
            use_type_invariant(&*self);
        }
        self.buffer.put(i, pixel);
    }
}

/// Computes the background pattern. The live buffer is left as it is.
pub fn generate_background(canvas: &mut Canvas)
    ensures
        final(canvas)@.background == gradient_pattern(),
        final(canvas)@.buffer == old(canvas)@.buffer,
{
    proof {
        use_type_invariant(&*canvas);
    }
    let n = WIDTH * HEIGHT;
    let mut i: usize = 0;
    while i < n
        invariant
            i <= n,
            n == WIDTH * HEIGHT,
            canvas.background@.len() == n,
            canvas.buffer@.len() == n,
            canvas.buffer@ == old(canvas).buffer@,
            forall|k: int|
                0 <= k < i ==> canvas.background@[k] == gradient(k / (WIDTH as int), k % (WIDTH as int)),
        decreases n - i,
    {
        let row = i / WIDTH;
        let col = i % WIDTH;
        let pixel = Pixel {
            r: (255 * row / HEIGHT) as u8,
            g: (255 * col / WIDTH) as u8,
            b: ((255 * HEIGHT - 255 * row) / HEIGHT) as u8,
            a: 255,
        };
        canvas.background.put(i, pixel);
        i += 1;
    }
    assert(canvas.background@ =~= gradient_pattern());
}

/// Clears the live buffer: every cell takes the colour of the background.
pub fn fill_buffer(canvas: &mut Canvas)
    ensures
        final(canvas)@.buffer == old(canvas)@.background,
        final(canvas)@.background == old(canvas)@.background,
{
    proof {
        use_type_invariant(&*canvas);
    }
    canvas.buffer.copy_from(&canvas.background);
}

/// The live buffer, to read or to copy to a display.
pub fn get_buffer(canvas: &Canvas) -> (fb: &FrameBuffer)
    ensures
        fb@ == canvas@.buffer,
        fb@.len() == WIDTH * HEIGHT,
{
    proof {
        use_type_invariant(canvas);
    }
    &canvas.buffer
}

} // verus!
