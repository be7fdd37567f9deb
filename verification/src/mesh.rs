//! Vectors, triangles and triangle meshes.
//!
//! The types are generic over the coordinate type `T`. Building and walking a
//! mesh never computes with a coordinate, so both are verified for every `T`;
//! drawing works on meshes with `i32` coordinates.

use vstd::prelude::*;
use vstd::std_specs::convert::FromSpecImpl;

verus! {

/// A coordinate axis to rotate about.
#[derive(Clone, Copy, Debug, PartialEq, Eq, Structural)]
pub enum Axis {
    X,
    Y,
    Z,
}

/// Sine and cosine of an angle, for coordinate types whose target supplies
/// them.
pub trait MSLmaths {
    fn sin(self) -> Self;

    fn cos(self) -> Self;
}

/// A point or direction in space with coordinates of type `T`.
#[derive(Clone, Copy, Debug)]
pub struct Vec3<T> {
    pub x: T,
    pub y: T,
    pub z: T,
}

/// A corner of a triangle.
pub type Vertex<T> = Vec3<T>;

impl<T: Copy> From<[T; 3]> for Vec3<T> {
    fn from(nums: [T; 3]) -> (v: Self) {
        Vec3 { x: nums[0], y: nums[1], z: nums[2] }
    }
}

impl<T: Copy> FromSpecImpl<[T; 3]> for Vec3<T> {
    open spec fn obeys_from_spec() -> bool {
        true
    }

    open spec fn from_spec(nums: [T; 3]) -> Self {
        Vec3 { x: nums[0], y: nums[1], z: nums[2] }
    }
}

/// Three corners in drawing order: the edges run from corner 0 to 1, 1 to 2
/// and 2 back to 0.
#[derive(Clone, Copy, Debug)]
pub struct Tri<T> {
    pub verts: [Vertex<T>; 3],
}

impl<T> Tri<T> {
    /// The three corners as a sequence.
    pub open spec fn corners(self) -> Seq<Vec3<T>> {
        self.verts@
    }
}

/// An ordered list of triangles. Corners are not shared between triangles:
/// a point where several triangles meet is stored once per triangle.
#[derive(Clone, Debug)]
pub struct Mesh<T> {
    pub tris: Vec<Tri<T>>,
}

impl<T> View for Mesh<T> {
    type V = Seq<Tri<T>>;

    open spec fn view(&self) -> Seq<Tri<T>> {
        self.tris@
    }
}

/// The corner of the box spanned by `v1` and `v2` that takes each coordinate
/// from `v2` where the flag of that axis is set, and from `v1` where it is not.
pub open spec fn box_corner<T>(v1: Vec3<T>, v2: Vec3<T>, far_x: bool, far_y: bool, far_z: bool) -> Vec3<T> {
    Vec3 {
        x: if far_x { v2.x } else { v1.x },
        y: if far_y { v2.y } else { v1.y },
        z: if far_z { v2.z } else { v1.z },
    }
}

/// The corners of the twelve triangles of the box spanned by `v1` and `v2`,
/// two triangles per face, the faces in the order south (z of `v1`), east
/// (x of `v2`), north (z of `v2`), west (x of `v1`), top (y of `v2`) and
/// bottom (y of `v1`).
pub open spec fn cube_corners<T>(v1: Vec3<T>, v2: Vec3<T>) -> Seq<Seq<Vec3<T>>> {
    let c = |far_x: bool, far_y: bool, far_z: bool| box_corner(v1, v2, far_x, far_y, far_z);
    seq![
        seq![c(false, false, false), c(false, true, false), c(true, true, false)],
        seq![c(false, false, false), c(true, true, false), c(true, false, false)],
        seq![c(true, false, false), c(true, true, false), c(true, true, true)],
        seq![c(true, false, false), c(true, true, true), c(true, false, true)],
        seq![c(true, false, true), c(true, true, true), c(false, true, true)],
        seq![c(true, false, true), c(false, true, true), c(false, false, true)],
        seq![c(false, false, true), c(false, true, true), c(false, true, false)],
        seq![c(false, false, true), c(false, true, false), c(false, false, false)],
        seq![c(false, true, false), c(false, true, true), c(true, true, true)],
        seq![c(false, true, false), c(true, true, true), c(true, true, false)],
        seq![c(true, false, true), c(false, false, true), c(false, false, false)],
        seq![c(true, false, true), c(false, false, false), c(true, false, false)],
    ]
}

impl<T: Copy> Mesh<T> {
    /// Builds the axis-aligned box between two opposite corners as twelve
    /// triangles.
    pub fn cube(v1: Vertex<T>, v2: Vertex<T>) -> (m: Mesh<T>)
        ensures
            m@.len() == 12,
            forall|i: int| 0 <= i < 12 ==> (#[trigger] m@[i]).corners() == cube_corners(v1, v2)[i],
    {
        let a = Vec3 { x: v1.x, y: v1.y, z: v1.z };
        let b = Vec3 { x: v1.x, y: v2.y, z: v1.z };
        let c = Vec3 { x: v2.x, y: v2.y, z: v1.z };
        let d = Vec3 { x: v2.x, y: v1.y, z: v1.z };
        let e = Vec3 { x: v1.x, y: v1.y, z: v2.z };
        let f = Vec3 { x: v1.x, y: v2.y, z: v2.z };
        let g = Vec3 { x: v2.x, y: v2.y, z: v2.z };
        let h = Vec3 { x: v2.x, y: v1.y, z: v2.z };
        let mut tris: Vec<Tri<T>> = Vec::new();
        // South
        tris.push(Tri { verts: [a, b, c] });
        tris.push(Tri { verts: [a, c, d] });
        // East
        tris.push(Tri { verts: [d, c, g] });
        tris.push(Tri { verts: [d, g, h] });
        // North
        tris.push(Tri { verts: [h, g, f] });
        tris.push(Tri { verts: [h, f, e] });
        // West
        tris.push(Tri { verts: [e, f, b] });
        tris.push(Tri { verts: [e, b, a] });
        // Top
        tris.push(Tri { verts: [b, f, g] });
        tris.push(Tri { verts: [b, g, c] });
        // Bottom
        tris.push(Tri { verts: [h, e, a] });
        tris.push(Tri { verts: [h, a, d] });
        Mesh { tris }
    }

    /// A new mesh whose every corner is `f` of the corner in the same place
    /// of this mesh. This mesh is left as it was.
    pub fn with_transform<U: Copy>(&self, f: impl Fn(Vec3<T>) -> Vec3<U>) -> (m: Mesh<U>)
        requires
            forall|i: int, j: int|
                0 <= i < self@.len() && 0 <= j < 3 ==> call_requires(f, (#[trigger] self@[i].verts[j],)),
        ensures
            m@.len() == self@.len(),
            forall|i: int, j: int|
                0 <= i < self@.len() && 0 <= j < 3 ==> call_ensures(
                    f,
                    (self@[i].verts[j],),
                    #[trigger] m@[i].verts[j],
                ),
    {
        let mut tris: Vec<Tri<U>> = Vec::new();
        let mut i: usize = 0;
        while i < self.tris.len()
            invariant
                i <= self@.len(),
                tris@.len() == i,
                forall|i: int, j: int|
                    0 <= i < self@.len() && 0 <= j < 3 ==> call_requires(
                        f,
                        (#[trigger] self@[i].verts[j],),
                    ),
                forall|k: int, j: int|
                    0 <= k < i && 0 <= j < 3 ==> call_ensures(
                        f,
                        (self@[k].verts[j],),
                        #[trigger] tris@[k].verts[j],
                    ),
            decreases self@.len() - i,
        {
            let t = &self.tris[i];
            let a = f(t.verts[0]);
            let b = f(t.verts[1]);
            let c = f(t.verts[2]);
            tris.push(Tri { verts: [a, b, c] });
            i += 1;
        }
        Mesh { tris }
    }
}

} // verus!
