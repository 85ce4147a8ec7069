//! The three ways of turning pixels into glyphs.

pub mod ascii;
pub mod background_string;
pub mod braille;
