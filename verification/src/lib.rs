//! Glyph atlas rasterizer and terminal cell compositor.
//!
//! The library decodes a fixed-size bitmap font's packed glyph rows into
//! byte-per-pixel texture atlases, keeps a terminal's visible cell grid as
//! parallel row-major arrays, and turns a terminal snapshot into the packed,
//! per-atlas-bucketed buffers that a rendering backend draws from.

pub mod atlas;
pub mod encoder;
pub mod errors;
pub mod font;
pub mod psf;
pub mod rasterizer;
pub mod screen;
pub mod vterm;
