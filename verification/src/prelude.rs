//! The items that most callers need.

pub use crate::renderers::ascii::{
    AsciiArt, AsciiArtConverter, AsciiArtConverterError, AsciiArtConverterOptions, AsciiArtPixel,
    ToAsciiArtPixel,
};
pub use crate::utils::pixels::{Pixel, PixelImage, PixelLayout};
pub use crate::utils::resize::CustomRatioResize;
