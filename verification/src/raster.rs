//! Line drawing.
//!
//! A segment is given by its two end points in coordinates whose origin is the
//! middle of the frame buffer. It is drawn by integer stepping along its
//! longer axis. The cells it colours are stated here in closed form, and
//! [`draw_line`] is proved to colour exactly those.

use crate::canvas::Canvas;
use crate::framebuffer::{cell_index, HEIGHT, WIDTH};
use crate::pixel::Pixel;
use vstd::arithmetic::div_mod::{
    lemma_basic_div, lemma_fundamental_div_mod, lemma_fundamental_div_mod_converse, lemma_mod_bound,
};
use vstd::math::abs;
use vstd::prelude::*;

verus! {

/// The cell that a plot at column `col` and row `row` colours: that cell where
/// it lies in the grid, the top left cell where it does not.
pub open spec fn plot_index(col: int, row: int) -> int {
    if 0 <= col < WIDTH && 0 <= row < HEIGHT {
        cell_index(row, col)
    } else {
        0
    }
}

/// A segment ready for stepping: moved to buffer coordinates, its axes
/// exchanged if it is steep, and its ends exchanged if it ran right to left.
/// Stepping runs along `x` from `x0` to `x1`.
pub struct Span {
    pub steep: bool,
    pub x0: int,
    pub y0: int,
    pub x1: int,
    pub y1: int,
}

/// The segment from `(x0, y0)` to `(x1, y1)` made ready for stepping. Both
/// coordinates are moved by half the buffer's width. The segment is steep
/// where it covers more rows than columns.
pub open spec fn span_of(x0: int, y0: int, x1: int, y1: int) -> Span {
    let half = (WIDTH / 2) as int;
    let (ax, ay, bx, by) = (x0 + half, y0 + half, x1 + half, y1 + half);
    let steep = abs(by - ay) > abs(bx - ax);
    let (ax, ay, bx, by) = if steep {
        (ay, ax, by, bx)
    } else {
        (ax, ay, bx, by)
    };
    if ax > bx {
        Span { steep, x0: bx, y0: by, x1: ax, y1: ay }
    } else {
        Span { steep, x0: ax, y0: ay, x1: bx, y1: by }
    }
}

impl Span {
    /// Steps along the stepping axis from one end to the other.
    pub open spec fn dx(self) -> int {
        self.x1 - self.x0
    }

    /// Distance between the ends across the stepping axis.
    pub open spec fn dy(self) -> int {
        abs(self.y1 - self.y0) as int
    }

    /// What holds of every span that [`span_of`] makes: it runs left to right
    /// and is not steep in its own coordinates.
    pub open spec fn ordered(self) -> bool {
        0 <= self.dy() <= self.dx()
    }

    /// How far the line has moved across the stepping axis after `k` steps
    /// along it: `k * dy / dx`, rounded to the nearest whole number, a half
    /// rounded down where `dx` is even.
    pub open spec fn rise(self, k: int) -> int {
        if self.dx() == 0 {
            0
        } else {
            (k * self.dy() + self.dx() - 1 - self.dx() / 2) / self.dx()
        }
    }

    /// The coordinate across the stepping axis after `k` steps.
    pub open spec fn y_at(self, k: int) -> int {
        if self.y0 < self.y1 {
            self.y0 + self.rise(k)
        } else {
            self.y0 - self.rise(k)
        }
    }

    /// The cell coloured at step `k`.
    pub open spec fn cell(self, k: int) -> int {
        if self.steep {
            plot_index(self.y_at(k), self.x0 + k)
        } else {
            plot_index(self.x0 + k, self.y_at(k))
        }
    }

    /// The cells coloured by the steps before step `n`.
    pub open spec fn cells_before(self, n: int) -> Set<int> {
        Set::new(|i: int| exists|k: int| 0 <= k < n && #[trigger] self.cell(k) == i)
    }
}

/// The cells that the segment from `(x0, y0)` to `(x1, y1)` colours.
pub open spec fn line_cells(x0: int, y0: int, x1: int, y1: int) -> Set<int> {
    let span = span_of(x0, y0, x1, y1);
    span.cells_before(span.dx() + 1)
}

/// The buffer `s` with the cells in `cells` white and the others as they were.
pub open spec fn paint(s: Seq<Pixel>, cells: Set<int>) -> Seq<Pixel> {
    Seq::new(
        s.len(),
        |i: int|
            if cells.contains(i) {
                Pixel::spec_white()
            } else {
                s[i]
            },
    )
}

/// Painting no cell changes nothing.
pub proof fn lemma_paint_nothing(s: Seq<Pixel>)
    ensures
        paint(s, Set::empty()) == s,
{
    assert(paint(s, Set::empty()) =~= s);
}

/// Painting one more cell is setting that cell to white.
pub proof fn lemma_paint_one_more(s: Seq<Pixel>, cells: Set<int>, i: int)
    requires
        0 <= i < s.len(),
    ensures
        paint(s, cells).update(i, Pixel::spec_white()) == paint(s, cells.insert(i)),
{
    assert(paint(s, cells).update(i, Pixel::spec_white()) =~= paint(s, cells.insert(i)));
}

/// Painting twice is painting the union.
pub proof fn lemma_paint_twice(s: Seq<Pixel>, first: Set<int>, second: Set<int>)
    ensures
        paint(paint(s, first), second) == paint(s, first.union(second)),
{
    assert(paint(paint(s, first), second) =~= paint(s, first.union(second)));
}

/// Every plotted cell lies in the buffer.
pub proof fn lemma_plot_index_in_buffer(col: int, row: int)
    ensures
        0 <= plot_index(col, row) < WIDTH * HEIGHT,
{
}

proof fn lemma_cells_before_step(span: Span, n: int)
    requires
        0 <= n,
    ensures
        span.cells_before(n + 1) == span.cells_before(n).insert(span.cell(n)),
        span.cells_before(0) == Set::<int>::empty(),
{
    assert(span.cells_before(n + 1) =~= span.cells_before(n).insert(span.cell(n)));
    assert(span.cells_before(0) =~= Set::<int>::empty());
}

/// What the error term of the stepping loop is once `k` steps have taken
/// the line `rise` across.
spec fn error_after(span: Span, k: int, rise: int) -> int {
    span.dx() / 2 - k * span.dy() + rise * span.dx()
}

/// The error term of the stepping loop and the closed form agree: with `e`
/// the error before step `k`, the line moves across at step `k` exactly when
/// `e - dy` is negative.
proof fn lemma_rise_step(span: Span, k: int, e: int)
    requires
        span.ordered(),
        span.dx() > 0,
        0 <= k,
        e == error_after(span, k, span.rise(k)),
        0 <= e < span.dx(),
    ensures
        span.rise(k + 1) == span.rise(k) + if e - span.dy() < 0 { 1int } else { 0int },
        error_after(span, k + 1, span.rise(k + 1)) == e - span.dy() + if e - span.dy() < 0 {
            span.dx()
        } else {
            0int
        },
{
    let dx = span.dx();
    let dy = span.dy();
    let r = span.rise(k);
    let (r1, e1) = if e - dy < 0 {
        (r + 1, e - dy + dx)
    } else {
        (r, e - dy)
    };
    assert((k + 1) * dy == k * dy + dy) by (nonlinear_arith);
    assert((r + 1) * dx == r * dx + dx) by (nonlinear_arith);
    assert(0 <= e1 < dx);
    assert(e1 == dx / 2 - (k + 1) * dy + r1 * dx);
    let x = (k + 1) * dy + dx - 1 - dx / 2;
    assert(x == r1 * dx + (dx - 1 - e1));
    lemma_fundamental_div_mod_converse(x, dx, r1, dx - 1 - e1);
}

proof fn lemma_rise_start(span: Span)
    requires
        span.ordered(),
    ensures
        span.rise(0) == 0,
{
    let dx = span.dx();
    if dx > 0 {
        assert(0 * span.dy() == 0);
        lemma_basic_div(dx - 1 - dx / 2, dx);
    }
}

/// Colours one cell of the live buffer. A position outside the grid colours
/// the top left cell instead.
pub fn plot_pixel(canvas: &mut Canvas, x: i64, y: i64, pixel: &Pixel)
    ensures
        final(canvas)@.buffer == old(canvas)@.buffer.update(plot_index(x as int, y as int), *pixel),
        final(canvas)@.buffer.len() == WIDTH * HEIGHT,
        final(canvas)@.background == old(canvas)@.background,
{
    let i: usize = if 0 <= x && x < WIDTH as i64 && 0 <= y && y < HEIGHT as i64 {
        (y as usize) * WIDTH + (x as usize)
    } else {
        0
    };
    canvas.put(i, *pixel);
}

fn distance(a: i64, b: i64) -> (d: i64)
    requires
        -0x1_0000_0000 <= a <= 0x1_0000_0000,
        -0x1_0000_0000 <= b <= 0x1_0000_0000,
    ensures
        d == abs(b - a),
{
    if a < b {
        b - a
    } else {
        a - b
    }
}

/// Draws the segment from `(x0, y0)` to `(x1, y1)` in white into the live
/// buffer. The coordinates have their origin in the middle of the buffer; `x`
/// grows to the right and `y` down the rows.
pub fn draw_line(canvas: &mut Canvas, x0: i32, y0: i32, x1: i32, y1: i32)
    ensures
        final(canvas)@.buffer == paint(
            old(canvas)@.buffer,
            line_cells(x0 as int, y0 as int, x1 as int, y1 as int),
        ),
        final(canvas)@.background == old(canvas)@.background,
{
    let half: i64 = (WIDTH / 2) as i64;
    let mut ax: i64 = x0 as i64 + half;
    let mut ay: i64 = y0 as i64 + half;
    let mut bx: i64 = x1 as i64 + half;
    let mut by: i64 = y1 as i64 + half;

    let steep = distance(ay, by) > distance(ax, bx);
    if steep {
        let t = ax;
        ax = ay;
        ay = t;
        let t = bx;
        bx = by;
        by = t;
    }
    if ax > bx {
        let t = ax;
        ax = bx;
        bx = t;
        let t = ay;
        ay = by;
        by = t;
    }
    let ghost span = span_of(x0 as int, y0 as int, x1 as int, y1 as int);
    assert(span == (Span { steep, x0: ax as int, y0: ay as int, x1: bx as int, y1: by as int }));

    let dx: i64 = bx - ax;
    let dy: i64 = distance(ay, by);
    let mut error: i64 = dx / 2;
    let ystep: i64 = if ay < by {
        1
    } else {
        -1
    };
    let mut y: i64 = ay;
    let mut x: i64 = ax;
    let white = Pixel::white();

    proof {
        use_type_invariant(&*canvas);
        lemma_rise_start(span);
        lemma_cells_before_step(span, 0);
        lemma_paint_nothing(canvas@.buffer);
        if dx > 0 {
            assert(0 * span.dy() == 0);
            assert(0 * span.dx() == 0);
        }
    }

    while x <= bx
        invariant
            span == (Span { steep, x0: ax as int, y0: ay as int, x1: bx as int, y1: by as int }),
            span.ordered(),
            dx == span.dx(),
            dy == span.dy(),
            ystep == if ay < by { 1i64 } else { -1i64 },
            -0x1_0000_0000 <= ax <= x <= bx + 1 <= 0x1_0000_0001,
            -0x1_0000_0000 <= ay <= 0x1_0000_0000,
            ay - (x - ax) <= y <= ay + (x - ax),
            dx > 0 ==> 0 <= error < dx,
            dx == 0 ==> error == 0,
            white == Pixel::spec_white(),
            x <= bx ==> y == span.y_at(x - ax),
            x <= bx && dx > 0 ==> error == error_after(span, x - ax, span.rise(x - ax)),
            old(canvas)@.buffer.len() == WIDTH * HEIGHT,
            canvas@.buffer == paint(old(canvas)@.buffer, span.cells_before(x - ax)),
            canvas@.background == old(canvas)@.background,
        decreases bx + 1 - x,
    {
        let ghost k = x - ax;
        if steep {
            plot_pixel(canvas, y, x, &white);
        } else {
            plot_pixel(canvas, x, y, &white);
        }
        proof {
            lemma_cells_before_step(span, k);
            lemma_plot_index_in_buffer(span.y_at(k), span.x0 + k);
            lemma_plot_index_in_buffer(span.x0 + k, span.y_at(k));
            lemma_paint_one_more(old(canvas)@.buffer, span.cells_before(k), span.cell(k));
            if x < bx {
                lemma_rise_step(span, k, error as int);
            }
        }
        error -= dy;
        if error < 0 {
            y += ystep;
            error += dx;
        }
        x += 1;
    }
}

/// Both ends of a segment are among the cells it colours.
pub proof fn lemma_line_has_both_ends(x0: int, y0: int, x1: int, y1: int)
    ensures
        line_cells(x0, y0, x1, y1).contains(plot_index(x0 + WIDTH / 2, y0 + WIDTH / 2)),
        line_cells(x0, y0, x1, y1).contains(plot_index(x1 + WIDTH / 2, y1 + WIDTH / 2)),
{
    let span = span_of(x0, y0, x1, y1);
    let dx = span.dx();
    let dy = span.dy();
    lemma_rise_start(span);
    if dx > 0 {
        assert(dx * dy + dx - 1 - dx / 2 == dy * dx + (dx - 1 - dx / 2)) by (nonlinear_arith);
        lemma_fundamental_div_mod_converse(dx * dy + dx - 1 - dx / 2, dx, dy, dx - 1 - dx / 2);
    }
    assert(span.rise(dx) == dy);
    let first = span.cell(0);
    let last = span.cell(dx);
    assert(span.cells_before(dx + 1).contains(first));
    assert(span.cells_before(dx + 1).contains(last));
}

/// Every plotted point is within half a cell of the true line: after `k`
/// steps along, the line has moved `rise(k)` across, and `rise(k)` differs
/// from the exact `k * dy / dx` by a half at most.
pub proof fn lemma_line_stays_close(x0: int, y0: int, x1: int, y1: int, k: int)
    requires
        0 <= k <= span_of(x0, y0, x1, y1).dx(),
    ensures
        ({
            let span = span_of(x0, y0, x1, y1);
            -span.dx() <= 2 * (span.rise(k) * span.dx() - k * span.dy()) <= span.dx()
        }),
{
    let span = span_of(x0, y0, x1, y1);
    let dx = span.dx();
    let dy = span.dy();
    if dx > 0 {
        let x = k * dy + dx - 1 - dx / 2;
        assert(0 <= k * dy) by (nonlinear_arith)
            requires
                0 <= k,
                0 <= dy,
        ;
        lemma_fundamental_div_mod(x, dx);
        lemma_mod_bound(x, dx);
        assert(dx * (x / dx) == span.rise(k) * dx) by (nonlinear_arith)
            requires
                span.rise(k) == x / dx,
        ;
    } else {
        assert(k * dy == 0);
        assert(span.rise(k) * dx == 0);
    }
}

/// A segment colours the same cells in either direction.
pub proof fn lemma_line_direction_free(x0: int, y0: int, x1: int, y1: int)
    ensures
        line_cells(x0, y0, x1, y1) == line_cells(x1, y1, x0, y0),
{
    assert(span_of(x0, y0, x1, y1) == span_of(x1, y1, x0, y0));
}

} // verus!
