//! Decoding of bilevel facsimile images (ITU-T T.4 Group 3 and T.6 Group 4).
//!
//! Each decoded line is the list of the columns at which the color
//! toggles; every line starts White.

pub mod color;
pub mod reader;
pub mod maps;
pub mod transitions;
pub mod decoder;

pub use color::Color;
pub use decoder::{colored, decode_g3, decode_g4, g4_step_exec, pels, with_markup, LineState, Outcome};
pub use maps::Mode;
pub use reader::ByteReader;
pub use transitions::Transitions;
