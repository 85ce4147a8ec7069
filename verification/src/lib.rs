//! Conversion of raster images into text: glyphs of a ramp, Braille patterns
//! and silhouettes filled with a text; and a player that sequences the frames.
//!
//! Images are plain values ([`PixelImage`]). Quantities that are fractions are
//! kept exact: a lightness is a number of [`LIGHTNESS_SCALE`]-ths, and the
//! shape of a font's cell is a [`utils::resize::FontRatio`] of two integers.

pub mod prelude;
pub mod renderers;
pub mod utils;

pub use crate::renderers::ascii::{
    AsciiArt, AsciiArtConverter, AsciiArtConverterError, AsciiArtConverterOptions, AsciiArtPixel,
    AsciiStringError, SizeError, ToAsciiArtPixel, DEFAULT_ASCII_STRING, LIGHTNESS_SCALE,
};
pub use crate::utils::pixels::{Pixel, PixelImage, PixelLayout};
pub use crate::utils::player::{AsciiPlayer, AsciiPlayerError, AsciiPlayerOptions};
pub use crate::utils::resize::{CustomRatioResize, FontRatio, ResizeFilter};
