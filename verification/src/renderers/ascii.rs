//! Glyphs chosen from a ramp by lightness, and the frame they make up.

use crate::utils::pixels::{Pixel, PixelImage, Raster};
use crate::utils::text::{
    colored_glyph, format_cells, frame_text, is_colored_text, lemma_plain_frame_layout,
    plain_glyph, plain_position, reverse_string, singletons,
};
use vstd::prelude::*;

verus! {

/// The ramp used when none is given, darkest glyph first.
pub const DEFAULT_ASCII_STRING: &'static str = " .,:;+*?%S#@";

/// Denominator of every lightness: `LIGHTNESS_SCALE` stands for `1.0`.
pub const LIGHTNESS_SCALE: u32 = 130050;

/// Error: a lightness points past the end of the ramp.
#[derive(Debug, Default, Clone, Copy, PartialEq, Eq, Hash, Structural)]
pub struct AsciiStringError;

/// Error: the image is too small for the renderer.
#[derive(Debug, Default, Clone, Copy, PartialEq, Eq, Hash, Structural)]
pub struct SizeError;

/// Largest of three channel values.
pub open spec fn max3(r: u8, g: u8, b: u8) -> u8 {
    if r >= g && r >= b {
        r
    } else if g >= b {
        g
    } else {
        b
    }
}

/// Smallest of three channel values.
pub open spec fn min3(r: u8, g: u8, b: u8) -> u8 {
    if r <= g && r <= b {
        r
    } else if g <= b {
        g
    } else {
        b
    }
}

/// Lightness of a colour, in `LIGHTNESS_SCALE`-ths: the mean of the largest and
/// the smallest channel out of 255, times the alpha out of 255.
pub open spec fn spec_lightness(r: u8, g: u8, b: u8, a: u8) -> nat {
    ((max3(r, g, b) + min3(r, g, b)) * a) as nat
}

/// Calculates the lightness of a colour, in `LIGHTNESS_SCALE`-ths.
pub fn get_lightness(r: u8, g: u8, b: u8, a: u8) -> (lightness: u32)
    ensures
        lightness == spec_lightness(r, g, b, a),
        lightness <= LIGHTNESS_SCALE,
{
    let max = if r >= g && r >= b {
        r
    } else if g >= b {
        g
    } else {
        b
    };
    let min = if r <= g && r <= b {
        r
    } else if g <= b {
        g
    } else {
        b
    };
    let sum: u32 = max as u32 + min as u32;
    assert(sum * a <= 510 * 255) by (nonlinear_arith)
        requires
            0 <= sum <= 510,
            0 <= a <= 255,
    ;
    sum * a as u32
}

/// Position in a ramp of `len` glyphs that a lightness points at: the
/// lightness scaled to the ramp's last position, rounded down.
pub open spec fn ramp_index(lightness: nat, len: nat) -> nat {
    if len == 0 {
        0
    } else {
        ((len - 1) * lightness / (LIGHTNESS_SCALE as int)) as nat
    }
}

/// The glyph of a ramp that a lightness selects. A lightness above
/// `LIGHTNESS_SCALE` is no lightness and gives the error, and so does an empty
/// ramp, which has no glyph to give.
pub open spec fn spec_ascii_character(lightness: u32, ramp: Seq<char>) -> Result<
    char,
    AsciiStringError,
> {
    if lightness <= LIGHTNESS_SCALE && ramp.len() > 0 {
        Ok(ramp[ramp_index(lightness as nat, ramp.len()) as int])
    } else {
        Err(AsciiStringError)
    }
}

/// A lightness up to `LIGHTNESS_SCALE` points at a position of the ramp, and
/// `LIGHTNESS_SCALE` itself at the last.
pub proof fn lemma_ramp_index_in_ramp(lightness: nat, len: nat)
    requires
        lightness <= LIGHTNESS_SCALE,
        len > 0,
    ensures
        ramp_index(lightness, len) < len,
        ramp_index(0, len) == 0,
        ramp_index(LIGHTNESS_SCALE as nat, len) == len - 1,
{
    let last = len - 1;
    assert(last * lightness / 130050 <= last) by (nonlinear_arith)
        requires
            0 <= last,
            0 <= lightness <= 130050,
    ;
    assert(last * 0 / 130050 == 0) by (nonlinear_arith);
    assert(last * 130050 / 130050 == last) by (nonlinear_arith);
}

/// Converts a lightness, in `LIGHTNESS_SCALE`-ths, to a glyph of the ramp.
pub fn ascii_character(lightness: u32, ascii_string: &str) -> (result: Result<
    char,
    AsciiStringError,
>)
    ensures
        result == spec_ascii_character(lightness, ascii_string@),
{
    let len = ascii_string.unicode_len();
    if lightness > LIGHTNESS_SCALE || len == 0 {
        return Err(AsciiStringError);
    }
    let last = (len - 1) as u128;
    assert(last * lightness <= 0xffff_ffff_ffff_ffff * 0xffff_ffff) by (nonlinear_arith)
        requires
            0 <= last <= 0xffff_ffff_ffff_ffff,
            0 <= lightness <= 0xffff_ffff,
    ;
    proof {
        lemma_ramp_index_in_ramp(lightness as nat, len as nat);
    }
    let index: u128 = last * lightness as u128 / LIGHTNESS_SCALE as u128;
    Ok(ascii_string.get_char(index as usize))
}

/// The lightness of every colour lies between zero and `LIGHTNESS_SCALE`. It
/// is zero for a transparent colour and for black, and `LIGHTNESS_SCALE` for
/// opaque white.
pub proof fn lemma_lightness_bounds(r: u8, g: u8, b: u8, a: u8)
    ensures
        0 <= spec_lightness(r, g, b, a) <= LIGHTNESS_SCALE,
        a == 0 ==> spec_lightness(r, g, b, a) == 0,
        r == 0 && g == 0 && b == 0 ==> spec_lightness(r, g, b, a) == 0,
        r == 255 && g == 255 && b == 255 && a == 255 ==> spec_lightness(r, g, b, a)
            == LIGHTNESS_SCALE,
{
    let sum = max3(r, g, b) + min3(r, g, b);
    assert(0 <= sum * a <= 510 * 255) by (nonlinear_arith)
        requires
            0 <= sum <= 510,
            0 <= a <= 255,
    ;
    assert(a == 0 ==> sum * a == 0) by (nonlinear_arith);
    assert(sum == 0 ==> sum * a == 0) by (nonlinear_arith);
}

/// A lightness that a colour can have always finds its glyph in a ramp that
/// is not empty.
pub proof fn lemma_lightness_within_ramp(r: u8, g: u8, b: u8, a: u8, ramp: Seq<char>)
    requires
        ramp.len() > 0,
    ensures
        spec_lightness(r, g, b, a) <= LIGHTNESS_SCALE,
        ramp_index(spec_lightness(r, g, b, a), ramp.len()) < ramp.len(),
        spec_ascii_character(spec_lightness(r, g, b, a) as u32, ramp) is Ok,
{
    lemma_lightness_bounds(r, g, b, a);
    lemma_ramp_index_in_ramp(spec_lightness(r, g, b, a), ramp.len());
}

/// A lightness gives a glyph exactly where it is at most `LIGHTNESS_SCALE`
/// and the ramp is not empty.
pub proof fn lemma_glyph_or_error(lightness: u32, ramp: Seq<char>)
    ensures
        spec_ascii_character(lightness, ramp) is Ok <==> lightness <= LIGHTNESS_SCALE && ramp.len()
            > 0,
        spec_ascii_character(lightness, ramp) is Err ==> spec_ascii_character(lightness, ramp)
            == Err::<char, AsciiStringError>(AsciiStringError),
{
}

/// The glyph that a lightness selects is one of the ramp's: a ramp of
/// printable glyphs gives printable cells.
pub proof fn lemma_glyph_from_ramp(lightness: u32, ramp: Seq<char>)
    ensures
        spec_ascii_character(lightness, ramp) matches Ok(glyph) ==> ramp.contains(glyph),
{
    if lightness <= LIGHTNESS_SCALE && ramp.len() > 0 {
        lemma_ramp_index_in_ramp(lightness as nat, ramp.len());
    }
}

/// One cell of a frame: a glyph and the colour it stands for.
#[derive(Debug, Default, Clone, Copy, PartialEq, Eq, Hash, Structural)]
pub struct AsciiArtPixel {
    /// Glyph chosen for the cell.
    pub character: char,
    /// Red.
    pub r: u8,
    /// Green.
    pub g: u8,
    /// Blue.
    pub b: u8,
    /// Alpha.
    pub a: u8,
}

/// The cell that shows `character` in the colour of `pixel`.
pub open spec fn cell_of(pixel: Pixel, character: char) -> AsciiArtPixel {
    AsciiArtPixel { character, r: pixel.r, g: pixel.g, b: pixel.b, a: pixel.a }
}

/// The cell that a pixel becomes under a ramp, or the error of its lightness.
pub open spec fn spec_ascii_pixel(pixel: Pixel, ramp: Seq<char>) -> Result<
    AsciiArtPixel,
    AsciiStringError,
> {
    match spec_ascii_character(
        spec_lightness(pixel.r, pixel.g, pixel.b, pixel.a) as u32,
        ramp,
    ) {
        Ok(character) => Ok(cell_of(pixel, character)),
        Err(error) => Err(error),
    }
}

impl AsciiArtPixel {
    /// Converts a colour and a ramp into a cell.
    pub fn new(r: u8, g: u8, b: u8, a: u8, ascii_string: &str) -> (result: Result<
        AsciiArtPixel,
        AsciiStringError,
    >)
        ensures
            result == spec_ascii_pixel(Pixel { r, g, b, a }, ascii_string@),
    {
        let lightness = get_lightness(r, g, b, a);
        match ascii_character(lightness, ascii_string) {
            Ok(character) => Ok(AsciiArtPixel { character, r, g, b, a }),
            Err(error) => Err(error),
        }
    }

    /// What the cell may print as: the bare glyph, or the glyph in the cell's
    /// colour as the terminal's environment lets it be written.
    pub open spec fn is_text(self, colored: bool, text: Seq<char>) -> bool {
        if colored {
            is_colored_text(text, self.character, self.r, self.g, self.b)
        } else {
            text == seq![self.character]
        }
    }

    /// The cell as text, bare or coloured.
    pub fn to_string(&self, colored: bool) -> (text: String)
        ensures
            self.is_text(colored, text@),
    {
        if colored {
            return colored_glyph(self.character, self.r, self.g, self.b);
        }
        plain_glyph(self.character)
    }
}

/// Conversion of a pixel into a cell of a frame.
pub trait ToAsciiArtPixel {
    /// The cell for this pixel, its glyph taken from the ramp by lightness.
    fn to_ascii_art_pixel(&self, ascii_string: &str) -> Result<AsciiArtPixel, AsciiStringError>;

    /// The cell for this pixel with a glyph chosen by the caller.
    fn to_raw_ascii_art_pixel(&self, character: char) -> AsciiArtPixel;
}

impl ToAsciiArtPixel for Pixel {
    fn to_ascii_art_pixel(&self, ascii_string: &str) -> (result: Result<
        AsciiArtPixel,
        AsciiStringError,
    >)
        ensures
            result == spec_ascii_pixel(*self, ascii_string@),
    {
        AsciiArtPixel::new(self.r, self.g, self.b, self.a, ascii_string)
    }

    fn to_raw_ascii_art_pixel(&self, character: char) -> (cell: AsciiArtPixel)
        ensures
            cell == cell_of(*self, character),
    {
        AsciiArtPixel { character, r: self.r, g: self.g, b: self.b, a: self.a }
    }
}

/// Options of the conversion by a ramp.
#[derive(Debug, Clone, PartialEq, Eq, Hash)]
pub struct AsciiArtConverterOptions {
    /// The ramp: glyphs from the darkest to the lightest.
    pub ascii_string: String,
    /// Whether the frame is to be printed in colour.
    pub colored: bool,
}

impl Default for AsciiArtConverterOptions {
    fn default() -> (options: AsciiArtConverterOptions)
        ensures
            options.ascii_string@ == DEFAULT_ASCII_STRING@,
            !options.colored,
    {
        AsciiArtConverterOptions { ascii_string: DEFAULT_ASCII_STRING.to_owned(), colored: false }
    }
}

/// Why a conversion by a ramp failed.
#[derive(Debug, Clone, Copy, PartialEq, Eq, Hash, Structural)]
pub enum AsciiArtConverterError {
    /// A lightness points past the end of the ramp.
    AsciiStringError(AsciiStringError),
    /// The image is too small.
    SizeError(SizeError),
}

impl From<AsciiStringError> for AsciiArtConverterError {
    fn from(err: AsciiStringError) -> (error: AsciiArtConverterError) {
        AsciiArtConverterError::AsciiStringError(err)
    }
}

impl vstd::std_specs::convert::FromSpecImpl<AsciiStringError> for AsciiArtConverterError {
    open spec fn obeys_from_spec() -> bool {
        true
    }

    open spec fn from_spec(err: AsciiStringError) -> AsciiArtConverterError {
        AsciiArtConverterError::AsciiStringError(err)
    }
}

impl From<SizeError> for AsciiArtConverterError {
    fn from(err: SizeError) -> (error: AsciiArtConverterError) {
        AsciiArtConverterError::SizeError(err)
    }
}

impl vstd::std_specs::convert::FromSpecImpl<SizeError> for AsciiArtConverterError {
    open spec fn obeys_from_spec() -> bool {
        true
    }

    open spec fn from_spec(err: SizeError) -> AsciiArtConverterError {
        AsciiArtConverterError::SizeError(err)
    }
}

impl AsciiStringError {
    /// The error in words.
    pub open spec fn spec_to_string(&self) -> Seq<char> {
        "lightness is out of ASCII string"@
    }

    /// The error in words.
    pub fn to_string(&self) -> (message: String)
        ensures
            message@ == self.spec_to_string(),
    {
        "lightness is out of ASCII string".to_owned()
    }
}

impl SizeError {
    /// The error in words.
    pub open spec fn spec_to_string(&self) -> Seq<char> {
        "width and height are too small"@
    }

    /// The error in words.
    pub fn to_string(&self) -> (message: String)
        ensures
            message@ == self.spec_to_string(),
    {
        "width and height are too small".to_owned()
    }
}

impl AsciiArtConverterError {
    /// The error in words: its kind, then the message of the error inside.
    pub open spec fn spec_to_string(&self) -> Seq<char> {
        match self {
            AsciiArtConverterError::AsciiStringError(err) => "ASCII string error: "@
                + err.spec_to_string(),
            AsciiArtConverterError::SizeError(err) => "Size error: "@ + err.spec_to_string(),
        }
    }

    /// The error in words: its kind, then the message of the error inside.
    pub fn to_string(&self) -> (message: String)
        ensures
            message@ == self.spec_to_string(),
    {
        match self {
            AsciiArtConverterError::AsciiStringError(err) => {
                let mut message = "ASCII string error: ".to_owned();
                message.append(err.to_string().as_str());
                message
            },
            AsciiArtConverterError::SizeError(err) => {
                let mut message = "Size error: ".to_owned();
                message.append(err.to_string().as_str());
                message
            },
        }
    }
}

/// The mathematical content of an [`AsciiArt`].
pub struct Frame {
    /// The cells, row after row.
    pub cells: Seq<AsciiArtPixel>,
    /// Cells per row.
    pub width: u32,
    /// Number of rows.
    pub height: u32,
    /// Whether the frame is to be printed in colour.
    pub colored: bool,
}

impl Frame {
    /// Neither dimension is zero, and there is one cell for each position.
    pub open spec fn wf(self) -> bool {
        &&& self.width > 0
        &&& self.height > 0
        &&& self.cells.len() == self.width * self.height
    }

    /// Whether `texts` holds, cell by cell, something that the cell may print
    /// as.
    pub open spec fn is_texts(self, texts: Seq<Seq<char>>) -> bool {
        &&& texts.len() == self.cells.len()
        &&& forall|i: int|
            0 <= i < texts.len() ==> (#[trigger] self.cells[i]).is_text(self.colored, texts[i])
    }

    /// The bare glyph of every cell.
    pub open spec fn plain_texts(self) -> Seq<Seq<char>> {
        Seq::new(self.cells.len(), |i: int| seq![self.cells[i].character])
    }

    /// The glyph of every cell.
    pub open spec fn glyphs(self) -> Seq<char> {
        Seq::new(self.cells.len(), |i: int| self.cells[i].character)
    }
}

/// The text of a frame that is printed without colours, by rows and columns:
/// the glyph of the cell in column `c` of row `r` stands at
/// `r * (width + 1) + c`, a line break ends every row but the last, and
/// nothing else is in the text.
pub proof fn lemma_plain_frame_text(frame: Frame)
    requires
        frame.wf(),
    ensures
        frame_text(frame.plain_texts(), frame.width as nat).len() == frame.width * frame.height
            + frame.height - 1,
        forall|row: int, column: int|
            0 <= row < frame.height && 0 <= column < frame.width ==> frame_text(
                frame.plain_texts(),
                frame.width as nat,
            )[#[trigger] plain_position(row, column, frame.width as nat)] == frame.cells[row
                * frame.width + column].character,
        forall|row: int|
            0 <= row < frame.height - 1 ==> frame_text(
                frame.plain_texts(),
                frame.width as nat,
            )[#[trigger] plain_position(row, frame.width as int, frame.width as nat)] == '\n',
{
    let glyphs = frame.glyphs();
    assert(frame.plain_texts() =~= singletons(glyphs));
    lemma_plain_frame_layout(glyphs, frame.width as nat, frame.height as nat);
    let text = frame_text(frame.plain_texts(), frame.width as nat);
    assert forall|row: int, column: int|
        0 <= row < frame.height && 0 <= column < frame.width implies text[#[trigger] plain_position(
        row,
        column,
        frame.width as nat,
    )] == frame.cells[row * frame.width + column].character by {
        crate::utils::pixels::lemma_position_in_bounds(
            frame.width as int,
            frame.height as int,
            column,
            row,
        );
    }
}

/// A rendered image: a grid of cells, row after row.
#[derive(Debug, Default, Clone, PartialEq, Eq, Hash)]
pub struct AsciiArt {
    /// The cells, row after row.
    pub characters: Vec<AsciiArtPixel>,
    /// Cells per row.
    pub width: u32,
    /// Number of rows.
    pub height: u32,
    /// Whether the frame is to be printed in colour.
    pub colored: bool,
}

impl View for AsciiArt {
    type V = Frame;

    open spec fn view(&self) -> Frame {
        Frame {
            cells: self.characters@,
            width: self.width,
            height: self.height,
            colored: self.colored,
        }
    }
}

impl AsciiArt {
    /// Puts a frame together from its parts, as they are.
    pub fn new(characters: Vec<AsciiArtPixel>, width: u32, height: u32, colored: bool) -> (art:
        AsciiArt)
        ensures
            art@ == (Frame { cells: characters@, width, height, colored }),
    {
        AsciiArt { characters, width, height, colored }
    }

    /// Tests whether neither dimension is zero and there is one cell for
    /// each position.
    pub fn is_valid(&self) -> (valid: bool)
        ensures
            valid == self@.wf(),
    {
        assert(self.width * self.height <= 0xffff_ffff * 0xffff_ffff) by (nonlinear_arith)
            requires
                0 <= self.width <= 0xffff_ffff,
                0 <= self.height <= 0xffff_ffff,
        ;
        let positions: u128 = self.width as u128 * self.height as u128;
        self.width > 0 && self.height > 0 && self.characters.len() as u128 == positions
    }

    /// The same frame with the colour flag set as given.
    pub fn to_colored(self, colored: bool) -> (art: AsciiArt)
        ensures
            art@ == (Frame { colored, ..self@ }),
    {
        let mut art = self;
        art.colored = colored;
        art
    }

    /// Sets the colour flag and leaves the cells alone.
    pub fn mut_colored(&mut self, colored: bool)
        ensures
            final(self)@ == (Frame { colored, ..old(self)@ }),
    {
        self.colored = colored;
    }

    /// The frame as text: the cells of a row one after the other, rows
    /// separated by a line break. A coloured frame prints each glyph as the
    /// terminal's environment lets a coloured glyph be written.
    pub fn to_string(&self) -> (text: String)
        requires
            self.width > 0,
        ensures
            exists|texts: Seq<Seq<char>>|
                self@.is_texts(texts) && text@ == #[trigger] frame_text(texts, self.width as nat),
            !self.colored ==> text@ == frame_text(self@.plain_texts(), self.width as nat),
    {
        let mut texts: Vec<String> = Vec::new();
        let mut i: usize = 0;
        while i < self.characters.len()
            invariant
                i <= self.characters.len(),
                texts@.len() == i,
                forall|j: int|
                    0 <= j < i ==> (#[trigger] self.characters@[j]).is_text(
                        self.colored,
                        texts@[j]@,
                    ),
            decreases self.characters.len() - i,
        {
            texts.push(self.characters[i].to_string(self.colored));
            i += 1;
        }
        let ghost cells = crate::utils::text::views(texts@);
        assert(self@.is_texts(cells));
        if !self.colored {
            assert(cells =~= self@.plain_texts());
        }
        format_cells(texts, self.width)
    }
}

/// The cell of every pixel under a ramp, where every pixel has one.
pub open spec fn ascii_cells(raster: Raster, ramp: Seq<char>) -> Seq<AsciiArtPixel> {
    Seq::new(raster.count(), |i: int| spec_ascii_pixel(raster.pixel(i), ramp)->Ok_0)
}

/// What the conversion of an image by a ramp gives: the size error for an
/// image without pixels, the ramp error where some pixel's lightness points
/// past the ramp, else a frame of the image's size with one cell per pixel.
pub open spec fn spec_ascii_art(raster: Raster, ramp: Seq<char>, colored: bool) -> Result<
    Frame,
    AsciiArtConverterError,
> {
    if raster.width == 0 || raster.height == 0 {
        Err(AsciiArtConverterError::SizeError(SizeError))
    } else if exists|i: int|
        0 <= i < raster.count() && (#[trigger] spec_ascii_pixel(raster.pixel(i), ramp)) is Err {
        Err(AsciiArtConverterError::AsciiStringError(AsciiStringError))
    } else {
        Ok(
            Frame {
                cells: ascii_cells(raster, ramp),
                width: raster.width,
                height: raster.height,
                colored,
            },
        )
    }
}

/// A conversion by a ramp that succeeds gives a frame with one cell for each
/// position and no dimension of zero.
pub proof fn lemma_ascii_art_shape(raster: Raster, ramp: Seq<char>, colored: bool)
    ensures
        spec_ascii_art(raster, ramp, colored) matches Ok(frame) ==> frame.wf(),
{
}

/// An image without pixels is refused by the conversion by a ramp, whatever
/// the ramp.
pub proof fn lemma_ascii_art_rejects_zero_size(raster: Raster, ramp: Seq<char>, colored: bool)
    requires
        raster.width == 0 || raster.height == 0,
    ensures
        spec_ascii_art(raster, ramp, colored) == Err::<Frame, AsciiArtConverterError>(
            AsciiArtConverterError::SizeError(SizeError),
        ),
{
}

/// An image with pixels and a ramp that is not empty always convert: the ramp
/// error is kept for the empty ramp.
pub proof fn lemma_ascii_art_succeeds(raster: Raster, ramp: Seq<char>, colored: bool)
    requires
        raster.width > 0,
        raster.height > 0,
    ensures
        spec_ascii_art(raster, ramp, colored) is Ok <==> ramp.len() > 0,
{
    if ramp.len() > 0 {
        assert forall|i: int| 0 <= i < raster.count() implies !((#[trigger] spec_ascii_pixel(
            raster.pixel(i),
            ramp,
        )) is Err) by {
            let pixel = raster.pixel(i);
            lemma_lightness_within_ramp(pixel.r, pixel.g, pixel.b, pixel.a, ramp);
        }
    } else {
        assert(raster.width * raster.height > 0) by (nonlinear_arith)
            requires
                raster.width > 0,
                raster.height > 0,
        ;
        assert(spec_ascii_pixel(raster.pixel(0), ramp) is Err);
    }
}

/// Whether a returned frame or error is the one that the model gives.
pub open spec fn is_frame_result<E>(result: Result<AsciiArt, E>, model: Result<Frame, E>) -> bool {
    match model {
        Ok(frame) => result matches Ok(art) && art@ == frame,
        Err(error) => result == Err::<AsciiArt, E>(error),
    }
}

/// Conversion of an image into a frame of glyphs taken from a ramp.
pub trait AsciiArtConverter {
    /// Converts the image: every pixel becomes the glyph of its lightness.
    fn ascii_art(&self, options: &AsciiArtConverterOptions) -> Result<
        AsciiArt,
        AsciiArtConverterError,
    >;
}

impl AsciiArtConverter for PixelImage {
    fn ascii_art(&self, options: &AsciiArtConverterOptions) -> (result: Result<
        AsciiArt,
        AsciiArtConverterError,
    >)
        ensures
            is_frame_result(
                result,
                spec_ascii_art(self@, options.ascii_string@, options.colored),
            ),
            result matches Ok(art) ==> art@.wf(),
    {
        if self.width() == 0 || self.height() == 0 {
            return Err(AsciiArtConverterError::SizeError(SizeError));
        }
        let count = self.pixel_count();
        let ghost ramp = options.ascii_string@;
        let mut characters: Vec<AsciiArtPixel> = Vec::new();
        let mut i: usize = 0;
        while i < count
            invariant
                i <= count,
                count == self@.count(),
                ramp == options.ascii_string@,
                characters@.len() == i,
                forall|j: int|
                    0 <= j < i ==> (#[trigger] spec_ascii_pixel(self@.pixel(j), ramp)) == Ok::<
                        AsciiArtPixel,
                        AsciiStringError,
                    >(characters@[j]),
            decreases count - i,
        {
            match self.pixel(i).to_ascii_art_pixel(options.ascii_string.as_str()) {
                Ok(cell) => {
                    characters.push(cell);
                },
                Err(error) => {
                    assert(spec_ascii_pixel(self@.pixel(i as int), ramp) is Err);
                    return Err(AsciiArtConverterError::AsciiStringError(error));
                },
            }
            i += 1;
        }
        assert(characters@ =~= ascii_cells(self@, ramp));
        Ok(AsciiArt::new(characters, self.width(), self.height(), options.colored))
    }
}

/// Reversal of a string.
pub trait ReverseString: Sized {
    /// The same characters, last first.
    fn reverse(&self) -> Self;
}

impl ReverseString for String {
    fn reverse(&self) -> (result: String)
        ensures
            result@ == self@.reverse(),
    {
        reverse_string(self.as_str())
    }
}

} // verus!
