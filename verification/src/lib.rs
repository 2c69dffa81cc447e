//! A verified plasma-effect renderer.
//!
//! The crate computes an animated color field: a pure function from pixel
//! coordinates and a frame counter to a packed 32-bit color, together with a
//! writer that fills a caller-provided buffer with one color per pixel in
//! row-major order.  All arithmetic is integer-only: the sinusoids of the
//! effect are evaluated in Q16.16 fixed point, so every step of the
//! computation is specified and proved exactly.

pub mod field;
pub mod trig;

pub use crate::field::plasma;
pub use crate::field::update_texture_data;

