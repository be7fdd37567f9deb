//! Drawing triangles and meshes, and the frame as a whole.
//!
//! Only the `x` and `y` of a corner are used: the view is orthographic, and
//! nothing hides anything else. Drawing a mesh colours the cells of the three
//! edges of each of its triangles.

use crate::canvas::{fill_buffer, Canvas, CanvasView};
use crate::mesh::{Mesh, Tri, Vec3};
use crate::raster::{draw_line, lemma_paint_nothing, lemma_paint_twice, line_cells, paint};
use vstd::prelude::*;

verus! {

/// The cells of the edge from corner `a` to corner `b`.
pub open spec fn edge_cells(a: Vec3<i32>, b: Vec3<i32>) -> Set<int> {
    line_cells(a.x as int, a.y as int, b.x as int, b.y as int)
}

/// The cells of the three edges of a triangle.
pub open spec fn tri_cells(t: Tri<i32>) -> Set<int> {
    edge_cells(t.verts[0], t.verts[1]).union(edge_cells(t.verts[1], t.verts[2])).union(
        edge_cells(t.verts[2], t.verts[0]),
    )
}

/// The cells of the edges of all triangles of a mesh.
pub open spec fn mesh_cells(tris: Seq<Tri<i32>>) -> Set<int> {
    Set::new(|i: int| exists|t: int| 0 <= t < tris.len() && #[trigger] tri_cells(tris[t]).contains(i))
}

/// What a canvas holds after a frame of `tris` was rendered on it: the
/// background with the cells of the mesh white.
pub open spec fn rendered(canvas: CanvasView, tris: Seq<Tri<i32>>) -> CanvasView {
    CanvasView { buffer: paint(canvas.background, mesh_cells(tris)), background: canvas.background }
}

proof fn lemma_mesh_cells_step(tris: Seq<Tri<i32>>, n: int)
    requires
        0 <= n < tris.len(),
    ensures
        mesh_cells(tris.take(n + 1)) == mesh_cells(tris.take(n)).union(tri_cells(tris[n])),
        mesh_cells(tris.take(0)) == Set::<int>::empty(),
        tris.take(tris.len() as int) == tris,
{
    let more = mesh_cells(tris.take(n + 1));
    let less = mesh_cells(tris.take(n)).union(tri_cells(tris[n]));
    assert forall|i: int| more.contains(i) implies less.contains(i) by {
        let t = choose|t: int| 0 <= t < n + 1 && #[trigger] tri_cells(tris.take(n + 1)[t]).contains(i);
        if t < n {
            assert(tri_cells(tris.take(n)[t]).contains(i));
        }
    }
    assert forall|i: int| less.contains(i) implies more.contains(i) by {
        if tri_cells(tris[n]).contains(i) {
            assert(tri_cells(tris.take(n + 1)[n]).contains(i));
        } else {
            let t = choose|t: int| 0 <= t < n && #[trigger] tri_cells(tris.take(n)[t]).contains(i);
            assert(tri_cells(tris.take(n + 1)[t]).contains(i));
        }
    }
    assert(more =~= less);
    assert(mesh_cells(tris.take(0)) =~= Set::<int>::empty());
    assert(tris.take(tris.len() as int) =~= tris);
}

impl Tri<i32> {
    /// Draws the three edges into the live buffer.
    pub fn render(&self, canvas: &mut Canvas)
        ensures
            final(canvas)@.buffer == paint(old(canvas)@.buffer, tri_cells(*self)),
            final(canvas)@.background == old(canvas)@.background,
    {
        let a = self.verts[0];
        let b = self.verts[1];
        let c = self.verts[2];
        draw_line(canvas, a.x, a.y, b.x, b.y);
        draw_line(canvas, b.x, b.y, c.x, c.y);
        draw_line(canvas, c.x, c.y, a.x, a.y);
        proof {
            let s = old(canvas)@.buffer;
            lemma_paint_twice(s, edge_cells(a, b), edge_cells(b, c));
            lemma_paint_twice(s, edge_cells(a, b).union(edge_cells(b, c)), edge_cells(c, a));
        }
    }
}

impl Mesh<i32> {
    /// Draws every triangle into the live buffer, in the order of the list.
    pub fn render(&self, canvas: &mut Canvas)
        ensures
            final(canvas)@.buffer == paint(old(canvas)@.buffer, mesh_cells(self@)),
            final(canvas)@.background == old(canvas)@.background,
    {
        let ghost s = canvas@.buffer;
        let mut i: usize = 0;
        proof {
            lemma_paint_nothing(s);
            if self@.len() > 0 {
                lemma_mesh_cells_step(self@, 0);
            } else {
                assert(mesh_cells(self@.take(0)) =~= Set::<int>::empty());
            }
        }
        while i < self.tris.len()
            invariant
                i <= self@.len(),
                s == old(canvas)@.buffer,
                canvas@.buffer == paint(s, mesh_cells(self@.take(i as int))),
                canvas@.background == old(canvas)@.background,
            decreases self@.len() - i,
        {
            self.tris[i].render(canvas);
            proof {
                lemma_mesh_cells_step(self@, i as int);
                lemma_paint_twice(s, mesh_cells(self@.take(i as int)), tri_cells(self@[i as int]));
            }
            i += 1;
        }
        proof {
            assert(self@.take(self@.len() as int) =~= self@);
        }
    }
}

/// Renders one frame: clears the live buffer from the background, then draws
/// the mesh. What the live buffer held before does not matter.
pub fn render(canvas: &mut Canvas, mesh: &Mesh<i32>)
    ensures
        final(canvas)@ == rendered(old(canvas)@, mesh@),
{
    fill_buffer(canvas);
    mesh.render(canvas);
}

/// Rendering the same mesh a second time leaves the canvas as the first
/// rendering left it.
pub proof fn lemma_render_idempotent(canvas: CanvasView, tris: Seq<Tri<i32>>)
    ensures
        rendered(rendered(canvas, tris), tris) == rendered(canvas, tris),
{
}

/// A frame depends on the background and the mesh alone: two canvases with
/// the same background show the same frame, whatever they showed before.
pub proof fn lemma_render_forgets_previous_frame(first: CanvasView, second: CanvasView, tris: Seq<Tri<i32>>)
    requires
        first.background == second.background,
    ensures
        rendered(first, tris) == rendered(second, tris),
{
}

/// A frame of a mesh without triangles shows the background, cell for cell.
pub proof fn lemma_render_nothing_shows_background(canvas: CanvasView)
    ensures
        rendered(canvas, Seq::empty()).buffer == canvas.background,
{
    assert(mesh_cells(Seq::empty()) =~= Set::<int>::empty());
    lemma_paint_nothing(canvas.background);
}

} // verus!
