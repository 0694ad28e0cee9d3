//! Drawing objects onto a canvas.
pub mod layout;
pub mod truncate;
pub mod shapes;
pub mod engine;
pub mod overlap;

pub use engine::Renderer;
