//! Braille dot patterns: a single eight-dot cell and a canvas of points
//! packed into such cells, both rendered as Unicode braille characters.

pub mod dots;
pub mod braille_char;
pub mod canvas;
pub mod canvas_laws;
pub mod error;
pub mod text;

pub use braille_char::BrailleChar;
pub use canvas::Canvas;
