//! Repacking the frame buffer for a display that stores two pixels per cell.
//!
//! The display is wider than the frame. The frame is set between two bars of
//! a fixed border colour. How a pair of colours is packed into one cell is
//! the caller's to say: the packing is handed in as a function.

use crate::framebuffer::{cell_index, FrameBuffer, HEIGHT, WIDTH};
use crate::pixel::Pixel;
use vstd::prelude::*;
use vstd::std_specs::convert::FromSpecImpl;

verus! {

/// Width of the frame in pixels.
pub const MNFB_WIDTH: u32 = 500;

/// Rows of the display.
pub const XFB_ROWS: usize = 480;

/// Cells in one row of the display; each cell shows two pixels.
pub const XFB_COLS: usize = 320;

/// Two pixels packed into one cell, as `0xYYUUYYVV`.
pub type ColorYUYV = u32;

/// A colour as the packing function reads it: the channels of a [`Pixel`].
#[derive(Clone, Copy, Debug, PartialEq, Eq, Structural)]
pub struct ColorRGBA {
    pub r: u8,
    pub g: u8,
    pub b: u8,
    pub a: u8,
}

/// The colour of a pixel of the frame, channel for channel.
pub open spec fn rgba_of(p: Pixel) -> ColorRGBA {
    ColorRGBA { r: p.r, g: p.g, b: p.b, a: p.a }
}

impl From<Pixel> for ColorRGBA {
    fn from(p: Pixel) -> (c: Self) {
        ColorRGBA { r: p.r, g: p.g, b: p.b, a: p.a }
    }
}

impl FromSpecImpl<Pixel> for ColorRGBA {
    open spec fn obeys_from_spec() -> bool {
        true
    }

    open spec fn from_spec(p: Pixel) -> Self {
        rgba_of(p)
    }
}

/// The colour of the bars beside the frame, a dark blue.
pub open spec fn border_color() -> ColorRGBA {
    ColorRGBA { r: 11, g: 11, b: 68, a: 255 }
}

/// Width of one bar in cells, for a display `fb_width` pixels wide.
pub open spec fn bar_width(fb_width: int) -> int {
    (fb_width - MNFB_WIDTH) / 4
}

/// Whether the cell in column `col` belongs to a bar.
pub open spec fn in_border(fb_width: int, col: int) -> bool {
    col <= bar_width(fb_width) || col >= bar_width(fb_width) + MNFB_WIDTH / 2
}

/// The two colours that the cell in row `row` and column `col` of the display
/// is packed from. In a bar both are the border colour. Elsewhere the first is
/// the pixel of the frame in the same row and in column `2 * (col - bar)`, and
/// the second is the pixel below the first.
pub open spec fn cell_source(frame: Seq<Pixel>, fb_width: int, row: int, col: int) -> (ColorRGBA, ColorRGBA) {
    if in_border(fb_width, col) {
        (border_color(), border_color())
    } else {
        let frame_col = (col - bar_width(fb_width)) * 2;
        (
            rgba_of(frame[cell_index(row, frame_col)]),
            rgba_of(frame[cell_index(row + 1, frame_col)]),
        )
    }
}

/// Position of the cell in row `row` and column `col` of the display.
pub open spec fn xfb_index(row: int, col: int) -> int {
    row * XFB_COLS + col
}

/// The display's buffer: `XFB_ROWS` rows of `XFB_COLS` packed cells, stored
/// row by row from the top left.
pub struct DisplayBuffer {
    cells: Vec<ColorYUYV>,
}

impl View for DisplayBuffer {
    type V = Seq<ColorYUYV>;

    closed spec fn view(&self) -> Seq<ColorYUYV> {
        self.cells@
    }
}

impl DisplayBuffer {
    #[verifier::type_invariant]
    spec fn inv(self) -> bool {
        self.cells@.len() == XFB_ROWS * XFB_COLS
    }

    /// A display buffer with every cell zero.
    pub fn new() -> (xfb: DisplayBuffer)
        ensures
            xfb@ == Seq::new((XFB_ROWS * XFB_COLS) as nat, |i: int| 0u32),
    {
        let mut cells: Vec<ColorYUYV> = Vec::new();
        let mut i: usize = 0;
        while i < XFB_ROWS * XFB_COLS
            invariant
                i <= XFB_ROWS * XFB_COLS,
                cells@.len() == i,
                forall|k: int| 0 <= k < i ==> cells@[k] == 0u32,
            decreases XFB_ROWS * XFB_COLS - i,
        {
            cells.push(0);
            i += 1;
        }
        assert(cells@ =~= Seq::new((XFB_ROWS * XFB_COLS) as nat, |i: int| 0u32));
        DisplayBuffer { cells }
    }

    /// The cell in row `row` and column `col`, or `None` outside the display.
    pub fn get(&self, row: usize, col: usize) -> (cell: Option<ColorYUYV>)
        ensures
            cell == if row < XFB_ROWS && col < XFB_COLS {
                Some(self@[xfb_index(row as int, col as int)])
            } else {
                None
            },
    {
        proof {
            use_type_invariant(self);
        }
        if row < XFB_ROWS && col < XFB_COLS {
            Some(self.cells[row * XFB_COLS + col])
        } else {
            None
        }
    }
}

/// Fills the display from the frame: the bars with the packed border colour,
/// the cells between them with pairs of pixels of the frame.
///
/// The border colour is packed once, and every cell of a bar holds that one
/// value. The second pixel of a pair is the one below the first; the display
/// has fewer rows than the frame, so that pixel always exists.
///
/// `fb_width` is the display's width in pixels and may not be less than the
/// frame's.
#[allow(non_snake_case)]
pub fn drawMNFBIntoXFB<F: Fn(ColorRGBA, ColorRGBA) -> ColorYUYV>(
    mnfb: &FrameBuffer,
    xfb: &mut DisplayBuffer,
    fb_width: u32,
    rgba_to_yuyv: F,
)
    requires
        fb_width >= MNFB_WIDTH,
        forall|row: int, col: int|
            0 <= row < XFB_ROWS && 0 <= col < XFB_COLS ==> call_requires(
                rgba_to_yuyv,
                #[trigger] cell_source(mnfb@, fb_width as int, row, col),
            ),
    ensures
        final(xfb)@.len() == XFB_ROWS * XFB_COLS,
        forall|row: int, col: int|
            0 <= row < XFB_ROWS && 0 <= col < XFB_COLS ==> call_ensures(
                rgba_to_yuyv,
                cell_source(mnfb@, fb_width as int, row, col),
                #[trigger] final(xfb)@[xfb_index(row, col)],
            ),
        forall|row: int, col: int|
            0 <= row < XFB_ROWS && 0 <= col < XFB_COLS && in_border(fb_width as int, col)
                ==> #[trigger] final(xfb)@[xfb_index(row, col)] == final(xfb)@[0],
{
    proof {
        use_type_invariant(&*xfb);
    }
    let frame_len = mnfb.len();
    let bg_color = ColorRGBA { r: 11, g: 11, b: 68, a: 255 };
    assert(cell_source(mnfb@, fb_width as int, 0, 0) == (bg_color, bg_color));
    let bg_color: ColorYUYV = rgba_to_yuyv(bg_color, bg_color);
    let vbar_width: u32 = (fb_width - MNFB_WIDTH) / 4;
    let mut i: usize = 0;
    while i < XFB_ROWS * XFB_COLS
        invariant
            i <= XFB_ROWS * XFB_COLS,
            xfb.cells@.len() == XFB_ROWS * XFB_COLS,
            mnfb@.len() == WIDTH * HEIGHT,
            fb_width >= MNFB_WIDTH,
            vbar_width == bar_width(fb_width as int),
            call_ensures(rgba_to_yuyv, (border_color(), border_color()), bg_color),
            forall|row: int, col: int|
                0 <= row < XFB_ROWS && 0 <= col < XFB_COLS ==> call_requires(
                    rgba_to_yuyv,
                    #[trigger] cell_source(mnfb@, fb_width as int, row, col),
                ),
            forall|k: int|
                0 <= k < i ==> call_ensures(
                    rgba_to_yuyv,
                    cell_source(mnfb@, fb_width as int, k / (XFB_COLS as int), k % (XFB_COLS as int)),
                    #[trigger] xfb.cells@[k],
                ),
            forall|k: int|
                0 <= k < i && in_border(fb_width as int, k % (XFB_COLS as int)) ==> #[trigger] xfb.cells@[k]
                    == bg_color,
        decreases XFB_ROWS * XFB_COLS - i,
    {
        let idx_row = i / XFB_COLS;
        let idx_col = i % XFB_COLS;
        if idx_col as u32 <= vbar_width || idx_col as u32 >= vbar_width + MNFB_WIDTH / 2 {
            xfb.cells[i] = bg_color;
        } else {
            let mn_col = (idx_col - vbar_width as usize) * 2;
            let color1 = ColorRGBA::from(mnfb.at(idx_row, mn_col));
            let color2 = ColorRGBA::from(mnfb.at(idx_row + 1, mn_col));
            assert(cell_source(mnfb@, fb_width as int, idx_row as int, idx_col as int) == (color1, color2));
            xfb.cells[i] = rgba_to_yuyv(color1, color2);
        }
        i += 1;
    }
    proof {
        assert forall|row: int, col: int| 0 <= row < XFB_ROWS && 0 <= col < XFB_COLS implies call_ensures(
            rgba_to_yuyv,
            cell_source(mnfb@, fb_width as int, row, col),
            #[trigger] xfb.cells@[xfb_index(row, col)],
        ) by {
            let k = xfb_index(row, col);
            assert(k / (XFB_COLS as int) == row && k % (XFB_COLS as int) == col);
        }
        assert forall|row: int, col: int|
            0 <= row < XFB_ROWS && 0 <= col < XFB_COLS && in_border(
                fb_width as int,
                col,
            ) implies #[trigger] xfb.cells@[xfb_index(row, col)] == xfb.cells@[0] by {
            let k = xfb_index(row, col);
            assert(k / (XFB_COLS as int) == row && k % (XFB_COLS as int) == col);
            assert(in_border(fb_width as int, 0int % (XFB_COLS as int)));
        }
    }
}

} // verus!
