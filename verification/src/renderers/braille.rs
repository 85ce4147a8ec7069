//! Braille patterns: every glyph shows a block of two by four pixels.

use crate::renderers::ascii::{
    cell_of, is_frame_result, AsciiArt, AsciiArtPixel, Frame, SizeError, ToAsciiArtPixel,
};
use crate::utils::pixels::{PixelImage, Raster};
use crate::utils::resize::FontRatio;
use crate::utils::threshold::{is_lit, ThresholdPixel, DEFAULT_THRESHOLD};
use vstd::prelude::*;

verus! {

/// The shape of a Braille pattern's cell when two columns of dots count as
/// two pixels: 21 wide, 24 high.
pub open spec fn spec_default_braille_font_ratio() -> FontRatio {
    FontRatio { num: 21, den: 24 }
}

/// The shape of a Braille pattern's cell when two columns of dots count as
/// two pixels: 21 wide, 24 high.
#[verifier::when_used_as_spec(spec_default_braille_font_ratio)]
pub fn default_braille_font_ratio() -> (ratio: FontRatio)
    ensures
        ratio == spec_default_braille_font_ratio(),
{
    FontRatio { num: 21, den: 24 }
}

/// `core::char::from_u32` gives the character with the given code, and `None`
/// for a surrogate or a number beyond the last code point, as the standard
/// library documents.
pub assume_specification[ core::char::from_u32 ](i: u32) -> (c: Option<char>)
    ensures
        i <= 0xD7FF || 0xE000 <= i <= 0x10FFFF ==> c == Some(i as char),
        !(i <= 0xD7FF || 0xE000 <= i <= 0x10FFFF) ==> c is None,
;

/// One if the dot is raised, else zero.
pub open spec fn dot(dots: Seq<bool>, i: int) -> nat {
    if dots[i] {
        1
    } else {
        0
    }
}

/// The eight dots as a number: dot `i` is bit `i`.
pub open spec fn braille_offset(dots: Seq<bool>) -> nat {
    dot(dots, 0) + 2 * dot(dots, 1) + 4 * dot(dots, 2) + 8 * dot(dots, 3) + 16 * dot(dots, 4) + 32
        * dot(dots, 5) + 64 * dot(dots, 6) + 128 * dot(dots, 7)
}

/// The Braille pattern with the given dots raised: the patterns start at
/// U+2800 and are numbered by their dots.
pub open spec fn spec_braille(dots: Seq<bool>) -> char {
    (0x2800 + braille_offset(dots)) as char
}

/// Converts eight dots into the Braille pattern that shows them.
///
/// Placement of the dots:
///
/// | 0 | 3 |
/// | 1 | 4 |
/// | 2 | 5 |
/// | 6 | 7 |
pub fn boolean_array_to_braille(array: &[bool; 8]) -> (glyph: char)
    ensures
        glyph == spec_braille(array@),
        0x2800 <= glyph as u32 <= 0x28FF,
{
    let mut codepoint: u32 = 0x2800;
    if array[0] {
        codepoint += 1;
    }
    if array[1] {
        codepoint += 2;
    }
    if array[2] {
        codepoint += 4;
    }
    if array[3] {
        codepoint += 8;
    }
    if array[4] {
        codepoint += 16;
    }
    if array[5] {
        codepoint += 32;
    }
    if array[6] {
        codepoint += 64;
    }
    if array[7] {
        codepoint += 128;
    }
    match core::char::from_u32(codepoint) {
        Some(glyph) => glyph,
        None => ' ',
    }
}

/// Where the eight dots of the block that starts at column `x` and row `y`
/// lie, in the order of the dots.
pub open spec fn braille_positions(x: int, y: int) -> Seq<(int, int)> {
    seq![
        (x, y),
        (x, y + 1),
        (x, y + 2),
        (x + 1, y),
        (x + 1, y + 1),
        (x + 1, y + 2),
        (x, y + 3),
        (x + 1, y + 3),
    ]
}

/// Calculates the positions of the eight pixels behind one Braille pattern.
pub fn calc_braille_pixels(x: u32, y: u32) -> (positions: [(u32, u32); 8])
    requires
        x + 1 <= u32::MAX,
        y + 3 <= u32::MAX,
    ensures
        forall|k: int|
            0 <= k < 8 ==> (#[trigger] positions@[k]).0 == braille_positions(x as int, y as int)[k].0
                && positions@[k].1 == braille_positions(x as int, y as int)[k].1,
{
    [
        (x, y),
        (x, y + 1),
        (x, y + 2),
        (x + 1, y),
        (x + 1, y + 1),
        (x + 1, y + 2),
        (x, y + 3),
        (x + 1, y + 3),
    ]
}

/// Which of the eight pixels of the block at `(x, y)` are light.
pub open spec fn braille_dots(raster: Raster, x: int, y: int) -> Seq<bool> {
    Seq::new(
        8,
        |k: int|
            is_lit(
                raster.pixel_at(braille_positions(x, y)[k].0, braille_positions(x, y)[k].1),
                DEFAULT_THRESHOLD,
            ),
    )
}

/// The cell at a row-major position of the Braille frame: the pattern of its
/// block, in the colour of the block's top left pixel.
pub open spec fn braille_cell(raster: Raster, index: int) -> AsciiArtPixel {
    let x = (index % (raster.width / 2) as int) * 2;
    let y = (index / (raster.width / 2) as int) * 4;
    cell_of(raster.pixel_at(x, y), spec_braille(braille_dots(raster, x, y)))
}

/// What the conversion into Braille patterns gives: the size error for an
/// image under four by eight pixels, else a frame with one pattern for every
/// whole block of two by four pixels. Pixels beyond the last whole block are
/// left out.
pub open spec fn spec_braille_art(raster: Raster, colored: bool) -> Result<Frame, SizeError> {
    if raster.width < 4 || raster.height < 8 {
        Err(SizeError)
    } else {
        Ok(
            Frame {
                cells: Seq::new(
                    ((raster.width / 2) * (raster.height / 4)) as nat,
                    |i: int| braille_cell(raster, i),
                ),
                width: raster.width / 2,
                height: raster.height / 4,
                colored,
            },
        )
    }
}

/// A position of the Braille frame lies in a block that is inside the image.
pub proof fn lemma_braille_block_in_bounds(width: int, height: int, index: int)
    requires
        width >= 2,
        height >= 4,
        0 <= index < (width / 2) * (height / 4),
    ensures
        0 <= (index % (width / 2)) * 2,
        (index % (width / 2)) * 2 + 1 < width,
        0 <= (index / (width / 2)) * 4,
        (index / (width / 2)) * 4 + 3 < height,
{
    let columns = width / 2;
    let rows = height / 4;
    assert(0 <= index % columns < columns);
    assert(0 <= index / columns < rows) by (nonlinear_arith)
        requires
            columns > 0,
            0 <= index < columns * rows,
    ;
}

/// The blocks of an image are fewer than its pixels.
pub proof fn lemma_braille_blocks_fit(width: int, height: int)
    requires
        width >= 0,
        height >= 0,
    ensures
        0 <= (width / 2) * (height / 4) <= width * height,
{
    assert(0 <= (width / 2) * (height / 4) <= width * height) by (nonlinear_arith)
        requires
            0 <= width / 2 <= width,
            0 <= height / 4 <= height,
    ;
}

/// A conversion into Braille patterns that succeeds gives a frame with one
/// cell for each position and no dimension of zero: half the image's width,
/// a quarter of its height.
pub proof fn lemma_braille_art_shape(raster: Raster, colored: bool)
    ensures
        spec_braille_art(raster, colored) matches Ok(frame) ==> frame.wf() && frame.width
            == raster.width / 2 && frame.height == raster.height / 4,
{
    if raster.width >= 4 && raster.height >= 8 {
        lemma_braille_blocks_fit(raster.width as int, raster.height as int);
        assert((raster.width / 2) * (raster.height / 4) >= 0) by (nonlinear_arith)
            requires
                raster.width / 2 >= 0,
                raster.height / 4 >= 0,
        ;
    }
}

/// An image under four by eight pixels, and so one without pixels, is refused
/// by the conversion into Braille patterns.
pub proof fn lemma_braille_art_rejects_small(raster: Raster, colored: bool)
    requires
        raster.width < 4 || raster.height < 8,
    ensures
        spec_braille_art(raster, colored) == Err::<Frame, SizeError>(SizeError),
{
}

/// Conversion of an image into a frame of Braille patterns.
pub trait BrailleArtConverter {
    /// Converts the image: every block of two by four pixels becomes the
    /// pattern of its light pixels.
    fn braille_art(&self, colored: bool) -> Result<AsciiArt, SizeError>;
}

impl BrailleArtConverter for PixelImage {
    fn braille_art(&self, colored: bool) -> (result: Result<AsciiArt, SizeError>)
        ensures
            is_frame_result(result, spec_braille_art(self@, colored)),
            result matches Ok(art) ==> art@.wf(),
    {
        let width = self.width();
        let height = self.height();
        if width < 4 || height < 8 {
            return Err(SizeError);
        }
        let braille_width = width / 2;
        let braille_height = height / 4;
        let pixels = self.pixel_count();
        proof {
            lemma_braille_blocks_fit(width as int, height as int);
        }
        let total_chars: usize = braille_width as usize * braille_height as usize;
        let mut characters: Vec<AsciiArtPixel> = Vec::new();
        let mut i: usize = 0;
        while i < total_chars
            invariant
                i <= total_chars,
                width == self@.width,
                height == self@.height,
                width >= 4,
                height >= 8,
                braille_width == width / 2,
                braille_height == height / 4,
                total_chars == braille_width * braille_height,
                characters@.len() == i,
                forall|j: int| 0 <= j < i ==> (#[trigger] characters@[j]) == braille_cell(self@, j),
            decreases total_chars - i,
        {
            proof {
                lemma_braille_block_in_bounds(width as int, height as int, i as int);
            }
            let x = (i % braille_width as usize) as u32 * 2;
            let y = (i / braille_width as usize) as u32 * 4;
            let positions = calc_braille_pixels(x, y);
            let braille_array = [
                self.get_pixel(positions[0].0, positions[0].1).threshold_pixel(DEFAULT_THRESHOLD),
                self.get_pixel(positions[1].0, positions[1].1).threshold_pixel(DEFAULT_THRESHOLD),
                self.get_pixel(positions[2].0, positions[2].1).threshold_pixel(DEFAULT_THRESHOLD),
                self.get_pixel(positions[3].0, positions[3].1).threshold_pixel(DEFAULT_THRESHOLD),
                self.get_pixel(positions[4].0, positions[4].1).threshold_pixel(DEFAULT_THRESHOLD),
                self.get_pixel(positions[5].0, positions[5].1).threshold_pixel(DEFAULT_THRESHOLD),
                self.get_pixel(positions[6].0, positions[6].1).threshold_pixel(DEFAULT_THRESHOLD),
                self.get_pixel(positions[7].0, positions[7].1).threshold_pixel(DEFAULT_THRESHOLD),
            ];
            assert(braille_array@ =~= braille_dots(self@, x as int, y as int));
            // The colour is that of the block's top left pixel.
            let cell = self.get_pixel(x, y).to_raw_ascii_art_pixel(
                boolean_array_to_braille(&braille_array),
            );
            characters.push(cell);
            i += 1;
        }
        assert(characters@ =~= spec_braille_art(self@, colored)->Ok_0.cells);
        proof {
            lemma_braille_art_shape(self@, colored);
        }
        Ok(AsciiArt::new(characters, braille_width, braille_height, colored))
    }
}

} // verus!
