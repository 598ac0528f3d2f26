//! Tile binning and record encoding for 2D shapes drawn as signed-distance
//! fields.
//!
//! All geometry is exact integer arithmetic. A coordinate is an `i32` in a
//! unit that the caller picks (whole pixels, or a fixed fraction of one); the
//! tile size and the resolution are lengths in that same unit.

pub mod backend;
pub mod binner;
pub mod painter;
pub mod shape;

pub use painter::Painter;
pub use shape::{CornerRadius, Primitive, Shape};
