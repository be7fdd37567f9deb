//! A small software renderer: a triangle mesh is drawn as white edges over a
//! gradient background into a fixed-size RGBA frame buffer.

pub mod canvas;
pub mod display;
pub mod framebuffer;
pub mod mesh;
pub mod pixel;
pub mod raster;
pub mod render;

pub use canvas::{fill_buffer, generate_background, get_buffer, Canvas};
pub use display::{drawMNFBIntoXFB, ColorRGBA, ColorYUYV, DisplayBuffer};
pub use framebuffer::{FrameBuffer, HEIGHT, WIDTH};
pub use mesh::{Axis, MSLmaths, Mesh, Tri, Vec3, Vertex};
pub use pixel::Pixel;
pub use raster::{draw_line, plot_pixel};
pub use render::render;
