//! Silhouettes: the light pixels of an image are filled with a text that
//! repeats in reading order.

use crate::renderers::ascii::{
    cell_of, is_frame_result, AsciiArt, AsciiArtPixel, Frame, SizeError, ToAsciiArtPixel,
};
use crate::utils::pixels::{PixelImage, Raster};
use crate::utils::threshold::{is_lit, ThresholdPixel, DEFAULT_THRESHOLD};
use vstd::prelude::*;

verus! {

/// Whether some pixel of the image is light.
pub open spec fn has_lit_pixel(raster: Raster) -> bool {
    exists|i: int| 0 <= i < raster.count() && is_lit(#[trigger] raster.pixel(i), DEFAULT_THRESHOLD)
}

/// The cell at a row-major position: a light pixel shows the character of the
/// text that its position falls on as the text repeats, a dark one a space;
/// either way in the pixel's colour.
pub open spec fn stencil_cell(raster: Raster, text: Seq<char>, index: int) -> AsciiArtPixel {
    let pixel = raster.pixel(index);
    if is_lit(pixel, DEFAULT_THRESHOLD) {
        cell_of(pixel, text[index % (text.len() as int)])
    } else {
        cell_of(pixel, ' ')
    }
}

/// What the conversion into a silhouette gives: the size error for an image
/// without pixels, else a frame of the image's size with one cell per pixel.
pub open spec fn spec_background_string_art(raster: Raster, text: Seq<char>, colored: bool) -> Result<
    Frame,
    SizeError,
> {
    if raster.width == 0 || raster.height == 0 {
        Err(SizeError)
    } else {
        Ok(
            Frame {
                cells: Seq::new(raster.count(), |i: int| stencil_cell(raster, text, i)),
                width: raster.width,
                height: raster.height,
                colored,
            },
        )
    }
}

/// The glyph of a silhouette's cell is a space or, where the text is not
/// empty, one of the text's characters.
pub proof fn lemma_stencil_glyph_from_text(raster: Raster, text: Seq<char>, index: int)
    requires
        text.len() > 0,
    ensures
        stencil_cell(raster, text, index).character == ' ' || text.contains(
            stencil_cell(raster, text, index).character,
        ),
{
    let position = index % (text.len() as int);
    assert(0 <= position < text.len());
}

/// A conversion into a silhouette that succeeds gives a frame with one cell
/// for each position and no dimension of zero.
pub proof fn lemma_background_string_art_shape(raster: Raster, text: Seq<char>, colored: bool)
    ensures
        spec_background_string_art(raster, text, colored) matches Ok(frame) ==> frame.wf(),
{
}

/// An image without pixels is refused by the conversion into a silhouette,
/// whatever the text.
pub proof fn lemma_background_string_art_rejects_zero_size(
    raster: Raster,
    text: Seq<char>,
    colored: bool,
)
    requires
        raster.width == 0 || raster.height == 0,
    ensures
        spec_background_string_art(raster, text, colored) == Err::<Frame, SizeError>(SizeError),
{
}

impl PixelImage {
    /// Tests whether some pixel of the image is light.
    pub fn has_light_pixel(&self) -> (found: bool)
        ensures
            found == has_lit_pixel(self@),
    {
        let count = self.pixel_count();
        let mut index: usize = 0;
        while index < count
            invariant
                index <= count,
                count == self@.count(),
                forall|j: int| 0 <= j < index ==> !is_lit(#[trigger] self@.pixel(j), DEFAULT_THRESHOLD),
            decreases count - index,
        {
            if self.pixel(index).threshold_pixel(DEFAULT_THRESHOLD) {
                assert(is_lit(self@.pixel(index as int), DEFAULT_THRESHOLD));
                return true;
            }
            index += 1;
        }
        false
    }
}

/// Conversion of an image into a silhouette filled with a text.
pub trait BackgroundStringArtConverter {
    /// Whether some pixel of the image takes a character of the text.
    spec fn takes_text(&self) -> bool;

    /// Converts the image: light pixels show the text, dark ones a space. An
    /// empty text can only fill an image that has no light pixel.
    fn background_string_art(&self, string: &str, colored: bool) -> Result<AsciiArt, SizeError>
        requires
            string@.len() > 0 || !self.takes_text(),
    ;
}

impl BackgroundStringArtConverter for PixelImage {
    open spec fn takes_text(&self) -> bool {
        has_lit_pixel(self@)
    }

    fn background_string_art(&self, string: &str, colored: bool) -> (result: Result<
        AsciiArt,
        SizeError,
    >)
        ensures
            is_frame_result(result, spec_background_string_art(self@, string@, colored)),
            result matches Ok(art) ==> art@.wf(),
    {
        if self.width() == 0 || self.height() == 0 {
            return Err(SizeError);
        }
        let count = self.pixel_count();
        let length = string.unicode_len();
        let mut characters: Vec<AsciiArtPixel> = Vec::new();
        let mut index: usize = 0;
        while index < count
            invariant
                index <= count,
                count == self@.count(),
                length == string@.len(),
                length > 0 || !has_lit_pixel(self@),
                characters@.len() == index,
                forall|j: int|
                    0 <= j < index ==> (#[trigger] characters@[j]) == stencil_cell(
                        self@,
                        string@,
                        j,
                    ),
            decreases count - index,
        {
            let pixel = self.pixel(index);
            let character = if pixel.threshold_pixel(DEFAULT_THRESHOLD) {
                assert(is_lit(self@.pixel(index as int), DEFAULT_THRESHOLD));
                string.get_char(index % length)
            } else {
                ' '
            };
            characters.push(pixel.to_raw_ascii_art_pixel(character));
            index += 1;
        }
        assert(characters@ =~= spec_background_string_art(self@, string@, colored)->Ok_0.cells);
        Ok(AsciiArt::new(characters, self.width(), self.height(), colored))
    }
}

} // verus!
