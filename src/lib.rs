//! Text-mode console: a writer that renders bytes into a fixed grid of
//! character cells held in volatile memory, with line wrap and scrolling.

pub mod buffer;
pub mod color;
pub mod laws;
pub mod print;
pub mod writer;

pub use buffer::{Buffer, ScreenChar, BUFFER_HEIGHT, BUFFER_WIDTH};
pub use color::{Color, ColorCode};
pub use print::_print;
pub use writer::Writer;
