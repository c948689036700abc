//! A software rasterizer for triangulated meshes: a framebuffer with a
//! bottom-left origin, a parametric line drawer, a barycentric triangle
//! filler with an optional integer z-buffer, a pipeline that draws the faces
//! of a projected mesh in one of three modes, and a reader for the face and
//! vertex lines of the mesh text format.
pub mod color;
pub mod framebuffer;
pub mod raster_line;
pub mod triangle;
pub mod render;
pub mod mesh;
