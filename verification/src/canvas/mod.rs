//! The character grid that objects are drawn on.
pub mod cell;
pub mod grid;

pub use cell::Cell;
pub use grid::{Canvas, CanvasView};
