//! A text-mode display driver: an 80 by 25 grid of glyph/attribute cells,
//! a cursor, line wrapping, scrolling and backspace.

pub mod color;
pub mod laws;
pub mod model;
pub mod vga;

pub use color::{Color, ColorCode};
pub use model::{ScreenChar, BUFFER_HEIGHT, BUFFER_WIDTH};
pub use vga::Writer;
