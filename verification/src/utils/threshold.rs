//! Telling light pixels from dark ones.

use crate::renderers::ascii::{get_lightness, spec_lightness};
use crate::utils::pixels::{Pixel, PixelImage, PixelLayout, Raster};
use vstd::prelude::*;

verus! {

/// Half of the full lightness.
pub const DEFAULT_THRESHOLD: u32 = 65025;

/// Whether a pixel's lightness lies above a threshold, both in
/// `LIGHTNESS_SCALE`-ths.
pub open spec fn is_lit(pixel: Pixel, threshold: u32) -> bool {
    spec_lightness(pixel.r, pixel.g, pixel.b, pixel.a) > threshold
}

/// Test of a pixel against a lightness threshold.
pub trait ThresholdPixel {
    /// Whether the pixel is lighter than the threshold.
    fn threshold_pixel(&self, threshold: u32) -> bool;
}

impl ThresholdPixel for Pixel {
    fn threshold_pixel(&self, threshold: u32) -> (lit: bool)
        ensures
            lit == is_lit(*self, threshold),
    {
        get_lightness(self.r, self.g, self.b, self.a) > threshold
    }
}

/// The grey level of every pixel of a grey image with alpha.
pub open spec fn luma_of_luma_a(data: Seq<u8>, count: nat) -> Seq<u8> {
    Seq::new(count, |i: int| data[2 * i])
}

/// Whether `grey` can be the grey levels of an image: one for each pixel, and
/// the image's own where it is grey, with or without alpha. How the colours
/// of a pixel are weighed to a grey level is left to the `image` crate, which
/// rounds as the processor it was built for does.
pub open spec fn is_luma8(raster: Raster, grey: Seq<u8>) -> bool {
    &&& grey.len() == raster.count()
    &&& raster.layout is Luma ==> grey == raster.data
    &&& raster.layout is LumaA ==> grey == luma_of_luma_a(raster.data, raster.count())
}

/// Calls `image::DynamicImage::to_luma8` on a grey image with alpha, which
/// keeps the grey level of each pixel and leaves the alpha out.
#[verifier::external_body]
fn luma8_from_luma_a8(data: &Vec<u8>, width: u32, height: u32) -> (out: Vec<u8>)
    requires
        data.len() == width * height * 2,
    ensures
        out@ == luma_of_luma_a(data@, (width * height) as nat),
{
    let source = image::GrayAlphaImage::from_raw(width, height, data.clone()).unwrap();
    image::DynamicImage::ImageLumaA8(source).to_luma8().into_raw()
}

/// Calls `image::DynamicImage::to_luma8` on a colour image, which weighs the
/// three colours of each pixel. The result has one byte for each pixel.
#[verifier::external_body]
fn luma8_from_rgb8(data: &Vec<u8>, width: u32, height: u32) -> (out: Vec<u8>)
    requires
        data.len() == width * height * 3,
    ensures
        out.len() == width * height,
{
    let source = image::RgbImage::from_raw(width, height, data.clone()).unwrap();
    image::DynamicImage::ImageRgb8(source).to_luma8().into_raw()
}

/// Calls `image::DynamicImage::to_luma8` on a colour image with alpha, which
/// weighs the three colours of each pixel. The result has one byte for each
/// pixel.
#[verifier::external_body]
fn luma8_from_rgba8(data: &Vec<u8>, width: u32, height: u32) -> (out: Vec<u8>)
    requires
        data.len() == width * height * 4,
    ensures
        out.len() == width * height,
{
    let source = image::RgbaImage::from_raw(width, height, data.clone()).unwrap();
    image::DynamicImage::ImageRgba8(source).to_luma8().into_raw()
}

/// The sum of the grey levels in row `y` from column `x_low` to `x_high`.
pub open spec fn row_sum(data: Seq<u8>, width: int, y: int, x_low: int, x_high: int) -> int
    decreases x_high - x_low + 1,
{
    if x_high < x_low {
        0
    } else {
        row_sum(data, width, y, x_low, x_high - 1) + data[y * width + x_high]
    }
}

/// The sum of the grey levels in the block of the columns `x_low` to `x_high`
/// and the rows `y_low` to `y_high`.
pub open spec fn block_sum(
    data: Seq<u8>,
    width: int,
    x_low: int,
    x_high: int,
    y_low: int,
    y_high: int,
) -> int
    decreases y_high - y_low + 1,
{
    if y_high < y_low {
        0
    } else {
        block_sum(data, width, x_low, x_high, y_low, y_high - 1) + row_sum(
            data,
            width,
            y_high,
            x_low,
            x_high,
        )
    }
}

/// The larger of two numbers.
pub open spec fn larger(a: int, b: int) -> int {
    if a >= b {
        a
    } else {
        b
    }
}

/// The smaller of two numbers.
pub open spec fn smaller(a: int, b: int) -> int {
    if a <= b {
        a
    } else {
        b
    }
}

/// The mean grey level, rounded down, of the block of the given radius around
/// the pixel in column `x` of row `y`, as far as the block lies in the image.
pub open spec fn block_mean(
    data: Seq<u8>,
    width: int,
    height: int,
    x: int,
    y: int,
    block_radius: int,
) -> int {
    let x_low = larger(0, x - block_radius);
    let x_high = smaller(width - 1, x + block_radius);
    let y_low = larger(0, y - block_radius);
    let y_high = smaller(height - 1, y + block_radius);
    block_sum(data, width, x_low, x_high, y_low, y_high) / ((y_high - y_low + 1) * (x_high - x_low
        + 1))
}

/// The grey levels after adaptive thresholding: a pixel is white where it is
/// at least as light as the mean of the block around it, else black.
pub open spec fn spec_thresholded(data: Seq<u8>, width: u32, height: u32, block_radius: u32) -> Seq<
    u8,
> {
    Seq::new(
        (width * height) as nat,
        |i: int|
            if data[i] >= block_mean(
                data,
                width as int,
                height as int,
                i % (width as int),
                i / (width as int),
                block_radius as int,
            ) {
                255u8
            } else {
                0u8
            },
    )
}

/// Whether adaptive thresholding can run on an image of this size: the
/// radius is positive and fits a signed 32-bit number, and the sums of grey
/// levels that it adds up fit an unsigned one.
pub open spec fn threshold_fits(width: u32, height: u32, block_radius: u32) -> bool {
    &&& 0 < block_radius <= i32::MAX
    &&& width < u32::MAX
    &&& height < u32::MAX
    &&& 510 * (width * height) <= u32::MAX
}

/// Calls `imageproc::contrast::adaptive_threshold`, which compares each pixel
/// with the mean of the grey levels in the square block of the given radius
/// around it, as far as the block lies in the image. The mean is a quotient
/// of integers, rounded down. A pixel that is at least as light becomes 255,
/// any other 0.
#[verifier::external_body]
fn adaptive_threshold_luma8(data: &Vec<u8>, width: u32, height: u32, block_radius: u32) -> (out:
    Vec<u8>)
    requires
        data.len() == width * height,
        threshold_fits(width, height, block_radius),
    ensures
        out@ == spec_thresholded(data@, width, height, block_radius),
{
    let source = image::GrayImage::from_raw(width, height, data.clone()).unwrap();
    imageproc::contrast::adaptive_threshold(&source, block_radius).into_raw()
}

/// Whether `out` is what adaptive thresholding makes of an image: grey, of
/// the same size, every pixel black or white, as the thresholding of the
/// image's grey levels gives them.
pub open spec fn is_thresholded(source: Raster, block_radius: u32, out: Raster) -> bool {
    &&& out.layout is Luma
    &&& out.width == source.width
    &&& out.height == source.height
    &&& out.wf()
    &&& forall|i: int| 0 <= i < out.data.len() ==> out.data[i] == 0 || out.data[i] == 255
    &&& exists|grey: Seq<u8>| #[trigger]
        is_luma8(source, grey) && out.data == spec_thresholded(
            grey,
            source.width,
            source.height,
            block_radius,
        )
}

/// Tests whether adaptive thresholding can run on an image of this size.
pub fn check_threshold_fits(width: u32, height: u32, block_radius: u32) -> (fits: bool)
    ensures
        fits == threshold_fits(width, height, block_radius),
{
    assert(width * height <= 0xffff_ffff * 0xffff_ffff) by (nonlinear_arith)
        requires
            0 <= width <= 0xffff_ffff,
            0 <= height <= 0xffff_ffff,
    ;
    let pixels: u128 = width as u128 * height as u128;
    0 < block_radius && block_radius <= 0x7fff_ffff && width < u32::MAX && height < u32::MAX
        && 510 * pixels <= u32::MAX as u128
}

impl PixelImage {
    /// The image in grey levels.
    pub fn to_luma8(&self) -> (out: PixelImage)
        ensures
            out@.layout is Luma,
            out@.width == self@.width,
            out@.height == self@.height,
            is_luma8(self@, out@.data),
    {
        proof {
            use_type_invariant(self);
        }
        let data = match self.layout() {
            PixelLayout::Luma => {
                let copy = self.as_raw().clone();
                assert(copy@ =~= self@.data);
                copy
            },
            PixelLayout::LumaA => luma8_from_luma_a8(self.as_raw(), self.width(), self.height()),
            PixelLayout::Rgb => luma8_from_rgb8(self.as_raw(), self.width(), self.height()),
            PixelLayout::Rgba => luma8_from_rgba8(self.as_raw(), self.width(), self.height()),
        };
        PixelImage::from_parts(PixelLayout::Luma, self.width(), self.height(), data)
    }

    /// Applies an adaptive threshold to the image's grey levels: a pixel
    /// becomes white where it is at least as light as the mean of the block
    /// of the given radius around it, else black.
    pub fn adaptive_threshold(&self, block_radius: u32) -> (out: PixelImage)
        requires
            threshold_fits(self@.width, self@.height, block_radius),
        ensures
            is_thresholded(self@, block_radius, out@),
    {
        let grey = self.to_luma8();
        proof {
            use_type_invariant(&grey);
        }
        let data = adaptive_threshold_luma8(grey.as_raw(), grey.width(), grey.height(), block_radius);
        let out = PixelImage::from_parts(PixelLayout::Luma, self.width(), self.height(), data);
        proof {
            use_type_invariant(&out);
            assert(is_luma8(self@, grey@.data));
        }
        out
    }
}

} // verus!
