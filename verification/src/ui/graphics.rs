//! What the terminal can draw, and the sequences that draw it.

pub mod capabilities;
pub mod kitty;
pub mod surface;
