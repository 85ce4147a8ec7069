//! Resizing that allows for the shape of a font's cell.

use crate::utils::pixels::{PixelImage, PixelLayout, Raster};
use image::imageops::FilterType;
use vstd::prelude::*;

verus! {

/// Width of a font's cell over its height, as a fraction of two integers.
#[derive(Clone, Copy, Debug, PartialEq, Eq, Hash, Structural)]
pub struct FontRatio {
    /// Numerator: the width.
    pub num: u32,
    /// Denominator: the height.
    pub den: u32,
}

/// The cell of a common monospace font: 11 wide, 24 high.
pub open spec fn spec_default_font_ratio() -> FontRatio {
    FontRatio { num: 11, den: 24 }
}

/// The cell of a common monospace font: 11 wide, 24 high.
#[verifier::when_used_as_spec(spec_default_font_ratio)]
pub fn default_font_ratio() -> (ratio: FontRatio)
    ensures
        ratio == spec_default_font_ratio(),
{
    FontRatio { num: 11, den: 24 }
}

/// The kernel that resizing interpolates with.
#[derive(Clone, Copy, Debug, PartialEq, Eq, Hash, Structural)]
pub enum ResizeFilter {
    /// Nearest neighbour.
    Nearest,
    /// Linear.
    Triangle,
    /// Cubic.
    CatmullRom,
    /// Gaussian.
    Gaussian,
    /// Lanczos with window 3.
    Lanczos3,
}

impl ResizeFilter {
    /// Whether the kernel is computed with the four arithmetic operations
    /// alone, whose results are the same on every machine. The other kernels
    /// call powers, exponentials or sines, whose last digit is not.
    pub open spec fn is_exact(self) -> bool {
        self is Nearest || self is Triangle
    }
}

/// A quotient rounded down and cut off at the largest `u32`. Over a zero
/// divisor a zero dividend gives zero, any other the largest `u32`.
pub open spec fn saturating_quotient(dividend: nat, divisor: nat) -> u32 {
    if divisor == 0 {
        if dividend == 0 {
            0
        } else {
            u32::MAX
        }
    } else if dividend / divisor > u32::MAX {
        u32::MAX
    } else {
        (dividend / divisor) as u32
    }
}

/// Computes [`saturating_quotient`].
fn divide_saturating(dividend: u128, divisor: u128) -> (quotient: u32)
    ensures
        quotient == saturating_quotient(dividend as nat, divisor as nat),
{
    if divisor == 0 {
        if dividend == 0 {
            0
        } else {
            u32::MAX
        }
    } else {
        let quotient = dividend / divisor;
        if quotient > u32::MAX as u128 {
            u32::MAX
        } else {
            quotient as u32
        }
    }
}

/// The product of three `u32` values.
fn product3(a: u32, b: u32, c: u32) -> (product: u128)
    ensures
        product == a * b * c,
{
    assert(a * b <= 0xffff_ffff * 0xffff_ffff) by (nonlinear_arith)
        requires
            0 <= a <= 0xffff_ffff,
            0 <= b <= 0xffff_ffff,
    ;
    let ab: u128 = a as u128 * b as u128;
    assert(ab * c <= 0xffff_ffff * 0xffff_ffff * 0xffff_ffff) by (nonlinear_arith)
        requires
            0 <= ab <= 0xffff_ffff * 0xffff_ffff,
            0 <= c <= 0xffff_ffff,
    ;
    ab * c as u128
}

/// The width that keeps the image's proportions at a new height, in cells
/// of the given shape: `new_height * width / (height * font_ratio)`.
pub open spec fn spec_new_width(new_height: u32, width: u32, height: u32, font_ratio: FontRatio) -> u32 {
    saturating_quotient(
        (new_height * width * font_ratio.den) as nat,
        (height * font_ratio.num) as nat,
    )
}

/// The height that keeps the image's proportions at a new width, in cells
/// of the given shape: `new_width * font_ratio * height / width`.
pub open spec fn spec_new_height(new_width: u32, width: u32, height: u32, font_ratio: FontRatio) -> u32 {
    saturating_quotient(
        (new_width * font_ratio.num * height) as nat,
        (font_ratio.den * width) as nat,
    )
}

/// Calculates the new width from the proportions and the new height.
pub fn calc_new_width(new_height: u32, width: u32, height: u32, font_ratio: FontRatio) -> (new_width:
    u32)
    ensures
        new_width == spec_new_width(new_height, width, height, font_ratio),
{
    let dividend = product3(new_height, width, font_ratio.den);
    let divisor = product3(height, font_ratio.num, 1);
    assert(height * font_ratio.num * 1 == height * font_ratio.num) by (nonlinear_arith);
    divide_saturating(dividend, divisor)
}

/// Calculates the new height from the proportions and the new width.
pub fn calc_new_height(new_width: u32, width: u32, height: u32, font_ratio: FontRatio) -> (new_height:
    u32)
    ensures
        new_height == spec_new_height(new_width, width, height, font_ratio),
{
    let dividend = product3(new_width, font_ratio.num, height);
    let divisor = product3(font_ratio.den, width, 1);
    assert(font_ratio.den * width * 1 == font_ratio.den * width) by (nonlinear_arith);
    divide_saturating(dividend, divisor)
}

/// Dividing, rounding down, multiplying back and dividing by a second divisor
/// that is no smaller loses at most one: with `q = n * e / d` rounded down and
/// `d <= e`, the quotient `q * d / e` is `n` or `n - 1`.
pub proof fn lemma_quotient_round_trip(n: int, d: int, e: int)
    requires
        0 <= n,
        0 < d <= e,
    ensures
        n - 1 <= ((n * e) / d) * d / e <= n,
{
    let q = (n * e) / d;
    assert(q * d <= n * e && n * e < q * d + d) by (nonlinear_arith)
        requires
            q == (n * e) / d,
            0 < d,
    ;
    let back = q * d;
    assert(0 <= back) by (nonlinear_arith)
        requires
            back == q * d,
            q == (n * e) / d,
            0 <= n,
            0 < d <= e,
    ;
    assert(back / e <= n) by (nonlinear_arith)
        requires
            back <= n * e,
            0 < e,
    ;
    assert(n - 1 <= back / e) by (nonlinear_arith)
        requires
            n * e < back + d,
            0 < d <= e,
            0 <= back,
            0 <= n,
    ;
}

/// From a height to the width that keeps the proportions, and back to the
/// height: where the proportions make the width no smaller than the height,
/// and the width is not cut off at the largest `u32`, the height comes back,
/// or one less.
pub proof fn lemma_height_round_trip(new_height: u32, width: u32, height: u32, font_ratio: FontRatio)
    requires
        width > 0,
        height > 0,
        font_ratio.num > 0,
        font_ratio.den > 0,
        height * font_ratio.num <= width * font_ratio.den,
        (new_height * width * font_ratio.den) / (height * font_ratio.num) <= u32::MAX,
    ensures
        new_height - 1 <= spec_new_height(
            spec_new_width(new_height, width, height, font_ratio),
            width,
            height,
            font_ratio,
        ) <= new_height,
{
    let d = height * font_ratio.num;
    let e = width * font_ratio.den;
    assert(d > 0 && e > 0) by (nonlinear_arith)
        requires
            d == height * font_ratio.num,
            e == width * font_ratio.den,
            width > 0,
            height > 0,
            font_ratio.num > 0,
            font_ratio.den > 0,
    ;
    assert(new_height * width * font_ratio.den == new_height * e) by (nonlinear_arith)
        requires
            e == width * font_ratio.den,
    ;
    let new_width = spec_new_width(new_height, width, height, font_ratio);
    assert(new_width == (new_height * e) / d);
    assert(new_width * font_ratio.num * height == new_width * d) by (nonlinear_arith)
        requires
            d == height * font_ratio.num,
    ;
    assert(font_ratio.den * width == e) by (nonlinear_arith)
        requires
            e == width * font_ratio.den,
    ;
    lemma_quotient_round_trip(new_height as int, d, e);
}

/// From a width to the height that keeps the proportions, and back to the
/// width: where the proportions make the height no smaller than the width,
/// and the height is not cut off at the largest `u32`, the width comes back,
/// or one less.
pub proof fn lemma_width_round_trip(new_width: u32, width: u32, height: u32, font_ratio: FontRatio)
    requires
        width > 0,
        height > 0,
        font_ratio.num > 0,
        font_ratio.den > 0,
        width * font_ratio.den <= height * font_ratio.num,
        (new_width * font_ratio.num * height) / (font_ratio.den * width) <= u32::MAX,
    ensures
        new_width - 1 <= spec_new_width(
            spec_new_height(new_width, width, height, font_ratio),
            width,
            height,
            font_ratio,
        ) <= new_width,
{
    let d = font_ratio.den * width;
    let e = height * font_ratio.num;
    assert(d > 0 && e > 0) by (nonlinear_arith)
        requires
            e == height * font_ratio.num,
            d == font_ratio.den * width,
            width > 0,
            height > 0,
            font_ratio.num > 0,
            font_ratio.den > 0,
    ;
    assert(d <= e) by (nonlinear_arith)
        requires
            e == height * font_ratio.num,
            d == font_ratio.den * width,
            width * font_ratio.den <= height * font_ratio.num,
    ;
    assert(new_width * font_ratio.num * height == new_width * e) by (nonlinear_arith)
        requires
            e == height * font_ratio.num,
    ;
    let new_height = spec_new_height(new_width, width, height, font_ratio);
    assert(new_height == (new_width * e) / d);
    assert(new_height * width * font_ratio.den == new_height * d) by (nonlinear_arith)
        requires
            d == font_ratio.den * width,
    ;
    lemma_quotient_round_trip(new_width as int, d, e);
}

/// The size that an image of `width` by `height` pixels is resized to: both
/// targets as they are where both are given, the missing one from the
/// proportions where one is, and the image's own size where none is.
pub open spec fn spec_dimensions(
    width: u32,
    height: u32,
    target_width: Option<u32>,
    target_height: Option<u32>,
    font_ratio: FontRatio,
) -> (u32, u32) {
    match (target_width, target_height) {
        (None, None) => (width, height),
        (None, Some(new_height)) => (
            spec_new_width(new_height, width, height, font_ratio),
            new_height,
        ),
        (Some(new_width), None) => (
            new_width,
            spec_new_height(new_width, width, height, font_ratio),
        ),
        (Some(new_width), Some(new_height)) => (new_width, new_height),
    }
}

/// Calculates the size that an image is resized to.
pub fn compute_dimensions(
    width: u32,
    height: u32,
    target_width: Option<u32>,
    target_height: Option<u32>,
    font_ratio: FontRatio,
) -> (size: (u32, u32))
    ensures
        size == spec_dimensions(width, height, target_width, target_height, font_ratio),
{
    match (target_width, target_height) {
        (None, None) => (width, height),
        (None, Some(new_height)) => (
            calc_new_width(new_height, width, height, font_ratio),
            new_height,
        ),
        (Some(new_width), None) => (
            new_width,
            calc_new_height(new_width, width, height, font_ratio),
        ),
        (Some(new_width), Some(new_height)) => (new_width, new_height),
    }
}

/// The bytes that `image::imageops::resize` gives for an image of `width` by
/// `height` pixels in the given layout, resized to `nwidth` by `nheight`.
pub uninterp spec fn resized_pixels(
    layout: PixelLayout,
    data: Seq<u8>,
    width: u32,
    height: u32,
    nwidth: u32,
    nheight: u32,
    filter: ResizeFilter,
) -> Seq<u8>;

/// The largest width or height, of the source or of the result, that the
/// sampler can resample: 2^22.
pub const RESIZE_LIMIT: u32 = 4194304;

/// Whether resizing resamples the source: the source has pixels and another
/// size is asked for. A source without pixels gives a blank image, and a
/// source of the size asked for is copied.
pub open spec fn is_sampled(width: u32, height: u32, nwidth: u32, nheight: u32) -> bool {
    width > 0 && height > 0 && (nwidth != width || nheight != height)
}

/// Whether resizing can run within the limits of the machine. The result has
/// to be addressable. Where the source is resampled, so have the rows of the
/// source at the new height, in four channels of four bytes; and no dimension
/// may exceed `RESIZE_LIMIT`. The sampler works in 32-bit floating point: it
/// places the centre of an output pixel at `(k + 0.5) * width / nwidth` and
/// weighs the source pixels in a window around it. Up to 2^22 the centre that
/// it computes lies inside the source, the window's ends are off by a quarter
/// of a pixel at most and the pixels' own positions are exact, so the window
/// holds the pixel nearest to the centre and the weights do not add up to
/// zero. Beyond that, neighbouring positions fall together, all weights can
/// be zero, and the sampler divides by their sum.
pub open spec fn resize_fits(
    layout: PixelLayout,
    width: u32,
    height: u32,
    nwidth: u32,
    nheight: u32,
) -> bool {
    &&& layout.spec_channels() * (nwidth * nheight) <= isize::MAX
    &&& is_sampled(width, height, nwidth, nheight) ==> {
        &&& 16 * (width * nheight) <= isize::MAX
        &&& width <= RESIZE_LIMIT
        &&& height <= RESIZE_LIMIT
        &&& nwidth <= RESIZE_LIMIT
        &&& nheight <= RESIZE_LIMIT
    }
}

/// Whether `out` is what resizing `source` to `nwidth` by `nheight` gives: an
/// image of that size in the source's layout. A source without pixels gives
/// a blank image, a source of that very size a copy of itself, and any other
/// the bytes that the kernel computes, which are a function of the arguments
/// where the kernel is exact.
pub open spec fn is_resized(
    source: Raster,
    nwidth: u32,
    nheight: u32,
    filter: ResizeFilter,
    out: Raster,
) -> bool {
    &&& out.layout == source.layout
    &&& out.width == nwidth
    &&& out.height == nheight
    &&& out.wf()
    &&& source.width == 0 || source.height == 0 ==> is_blank(out.data)
    &&& source.width > 0 && source.height > 0 && nwidth == source.width && nheight
        == source.height ==> out.data == source.data
    &&& filter.is_exact() ==> out.data == resized_pixels(
        source.layout,
        source.data,
        source.width,
        source.height,
        nwidth,
        nheight,
        filter,
    )
}

/// Every byte is zero.
pub open spec fn is_blank(data: Seq<u8>) -> bool {
    forall|i: int| 0 <= i < data.len() ==> data[i] == 0
}

/// Calls `image::imageops::resize` on a grey image. The result has
/// one byte for each pixel of the new size. It is blank for a source without
/// pixels and a copy of the source at the source's own size. For the kernels
/// that need only the four arithmetic operations it is a function of the
/// arguments. The call is kept to sizes that the sampler's 32-bit floating
/// point arithmetic can tell apart (see [`resize_fits`]): beyond them the
/// weights of a window can add up to zero, and the sampler fails on the
/// quotient.
#[verifier::external_body]
fn resize_luma8(
    data: &Vec<u8>,
    width: u32,
    height: u32,
    nwidth: u32,
    nheight: u32,
    filter: ResizeFilter,
) -> (out: Vec<u8>)
    requires
        data.len() == width * height,
        resize_fits(PixelLayout::Luma, width, height, nwidth, nheight),
    ensures
        out.len() == nwidth * nheight,
        width == 0 || height == 0 ==> is_blank(out@),
        width > 0 && height > 0 && nwidth == width && nheight == height ==> out@ == data@,
        filter.is_exact() ==> out@ == resized_pixels(
            PixelLayout::Luma,
            data@,
            width,
            height,
            nwidth,
            nheight,
            filter,
        ),
{
    let kernel = match filter {
        ResizeFilter::Nearest => FilterType::Nearest,
        ResizeFilter::Triangle => FilterType::Triangle,
        ResizeFilter::CatmullRom => FilterType::CatmullRom,
        ResizeFilter::Gaussian => FilterType::Gaussian,
        ResizeFilter::Lanczos3 => FilterType::Lanczos3,
    };
    let source = image::GrayImage::from_raw(width, height, data.clone()).unwrap();
    image::imageops::resize(&source, nwidth, nheight, kernel).into_raw()
}

/// Calls `image::imageops::resize` on a grey image with alpha. The result has
/// two bytes for each pixel of the new size. It is blank for a source without
/// pixels and a copy of the source at the source's own size. For the kernels
/// that need only the four arithmetic operations it is a function of the
/// arguments. The call is kept to sizes that the sampler's 32-bit floating
/// point arithmetic can tell apart (see [`resize_fits`]): beyond them the
/// weights of a window can add up to zero, and the sampler fails on the
/// quotient.
#[verifier::external_body]
fn resize_luma_a8(
    data: &Vec<u8>,
    width: u32,
    height: u32,
    nwidth: u32,
    nheight: u32,
    filter: ResizeFilter,
) -> (out: Vec<u8>)
    requires
        data.len() == width * height * 2,
        resize_fits(PixelLayout::LumaA, width, height, nwidth, nheight),
    ensures
        out.len() == nwidth * nheight * 2,
        width == 0 || height == 0 ==> is_blank(out@),
        width > 0 && height > 0 && nwidth == width && nheight == height ==> out@ == data@,
        filter.is_exact() ==> out@ == resized_pixels(
            PixelLayout::LumaA,
            data@,
            width,
            height,
            nwidth,
            nheight,
            filter,
        ),
{
    let kernel = match filter {
        ResizeFilter::Nearest => FilterType::Nearest,
        ResizeFilter::Triangle => FilterType::Triangle,
        ResizeFilter::CatmullRom => FilterType::CatmullRom,
        ResizeFilter::Gaussian => FilterType::Gaussian,
        ResizeFilter::Lanczos3 => FilterType::Lanczos3,
    };
    let source = image::GrayAlphaImage::from_raw(width, height, data.clone()).unwrap();
    image::imageops::resize(&source, nwidth, nheight, kernel).into_raw()
}

/// Calls `image::imageops::resize` on a colour image. The result has
/// three bytes for each pixel of the new size. It is blank for a source without
/// pixels and a copy of the source at the source's own size. For the kernels
/// that need only the four arithmetic operations it is a function of the
/// arguments. The call is kept to sizes that the sampler's 32-bit floating
/// point arithmetic can tell apart (see [`resize_fits`]): beyond them the
/// weights of a window can add up to zero, and the sampler fails on the
/// quotient.
#[verifier::external_body]
fn resize_rgb8(
    data: &Vec<u8>,
    width: u32,
    height: u32,
    nwidth: u32,
    nheight: u32,
    filter: ResizeFilter,
) -> (out: Vec<u8>)
    requires
        data.len() == width * height * 3,
        resize_fits(PixelLayout::Rgb, width, height, nwidth, nheight),
    ensures
        out.len() == nwidth * nheight * 3,
        width == 0 || height == 0 ==> is_blank(out@),
        width > 0 && height > 0 && nwidth == width && nheight == height ==> out@ == data@,
        filter.is_exact() ==> out@ == resized_pixels(
            PixelLayout::Rgb,
            data@,
            width,
            height,
            nwidth,
            nheight,
            filter,
        ),
{
    let kernel = match filter {
        ResizeFilter::Nearest => FilterType::Nearest,
        ResizeFilter::Triangle => FilterType::Triangle,
        ResizeFilter::CatmullRom => FilterType::CatmullRom,
        ResizeFilter::Gaussian => FilterType::Gaussian,
        ResizeFilter::Lanczos3 => FilterType::Lanczos3,
    };
    let source = image::RgbImage::from_raw(width, height, data.clone()).unwrap();
    image::imageops::resize(&source, nwidth, nheight, kernel).into_raw()
}

/// Calls `image::imageops::resize` on a colour image with alpha. The result has
/// four bytes for each pixel of the new size. It is blank for a source without
/// pixels and a copy of the source at the source's own size. For the kernels
/// that need only the four arithmetic operations it is a function of the
/// arguments. The call is kept to sizes that the sampler's 32-bit floating
/// point arithmetic can tell apart (see [`resize_fits`]): beyond them the
/// weights of a window can add up to zero, and the sampler fails on the
/// quotient.
#[verifier::external_body]
fn resize_rgba8(
    data: &Vec<u8>,
    width: u32,
    height: u32,
    nwidth: u32,
    nheight: u32,
    filter: ResizeFilter,
) -> (out: Vec<u8>)
    requires
        data.len() == width * height * 4,
        resize_fits(PixelLayout::Rgba, width, height, nwidth, nheight),
    ensures
        out.len() == nwidth * nheight * 4,
        width == 0 || height == 0 ==> is_blank(out@),
        width > 0 && height > 0 && nwidth == width && nheight == height ==> out@ == data@,
        filter.is_exact() ==> out@ == resized_pixels(
            PixelLayout::Rgba,
            data@,
            width,
            height,
            nwidth,
            nheight,
            filter,
        ),
{
    let kernel = match filter {
        ResizeFilter::Nearest => FilterType::Nearest,
        ResizeFilter::Triangle => FilterType::Triangle,
        ResizeFilter::CatmullRom => FilterType::CatmullRom,
        ResizeFilter::Gaussian => FilterType::Gaussian,
        ResizeFilter::Lanczos3 => FilterType::Lanczos3,
    };
    let source = image::RgbaImage::from_raw(width, height, data.clone()).unwrap();
    image::imageops::resize(&source, nwidth, nheight, kernel).into_raw()
}

/// Tests whether resizing can run within the limits of the machine.
pub fn check_resize_fits(
    layout: PixelLayout,
    width: u32,
    height: u32,
    nwidth: u32,
    nheight: u32,
) -> (fits: bool)
    ensures
        fits == resize_fits(layout, width, height, nwidth, nheight),
{
    let out = product3(nwidth, nheight, layout.channels() as u32);
    assert(nwidth * nheight * layout.spec_channels() == layout.spec_channels() * (nwidth
        * nheight)) by (nonlinear_arith);
    if out > isize::MAX as u128 {
        return false;
    }
    if width == 0 || height == 0 || (nwidth == width && nheight == height) {
        return true;
    }
    let rows = product3(width, nheight, 16);
    assert(width * nheight * 16 == 16 * (width * nheight)) by (nonlinear_arith);
    rows <= isize::MAX as u128 && width <= RESIZE_LIMIT && height <= RESIZE_LIMIT && nwidth
        <= RESIZE_LIMIT && nheight <= RESIZE_LIMIT
}

/// Resizing an image to a size in which a font's cell counts as one pixel.
pub trait CustomRatioResize {
    /// Whether the image can be resized to the given targets within the
    /// limits of the machine's memory addresses.
    spec fn can_resize(
        &self,
        width: Option<u32>,
        height: Option<u32>,
        font_ratio: FontRatio,
    ) -> bool;

    /// Resizes the image. With both targets missing, the image is returned
    /// as it is; with one, the other is calculated from the image's
    /// proportions and the font's; with both, the image is stretched to them.
    fn resize_custom_ratio(
        &self,
        width: Option<u32>,
        height: Option<u32>,
        font_ratio: FontRatio,
        filter: ResizeFilter,
    ) -> PixelImage
        requires
            self.can_resize(width, height, font_ratio),
    ;
}

/// What resizing an image to the given targets may give.
pub open spec fn is_custom_resized(
    source: Raster,
    width: Option<u32>,
    height: Option<u32>,
    font_ratio: FontRatio,
    filter: ResizeFilter,
    out: Raster,
) -> bool {
    if width is None && height is None {
        out == source
    } else {
        is_resized(
            source,
            spec_dimensions(source.width, source.height, width, height, font_ratio).0,
            spec_dimensions(source.width, source.height, width, height, font_ratio).1,
            filter,
            out,
        )
    }
}

/// Whether an image of the given layout and size can be resized to the given
/// targets within the limits of the machine's memory addresses.
pub open spec fn custom_resize_fits(
    layout: PixelLayout,
    source_width: u32,
    source_height: u32,
    width: Option<u32>,
    height: Option<u32>,
    font_ratio: FontRatio,
) -> bool {
    (width is Some || height is Some) ==> resize_fits(
        layout,
        source_width,
        source_height,
        spec_dimensions(source_width, source_height, width, height, font_ratio).0,
        spec_dimensions(source_width, source_height, width, height, font_ratio).1,
    )
}

/// Tests whether an image of the given layout and size can be resized to the
/// given targets.
pub fn check_custom_resize(
    layout: PixelLayout,
    source_width: u32,
    source_height: u32,
    width: Option<u32>,
    height: Option<u32>,
    font_ratio: FontRatio,
) -> (fits: bool)
    ensures
        fits == custom_resize_fits(layout, source_width, source_height, width, height, font_ratio),
{
    if width.is_none() && height.is_none() {
        return true;
    }
    let (nwidth, nheight) = compute_dimensions(
        source_width,
        source_height,
        width,
        height,
        font_ratio,
    );
    check_resize_fits(layout, source_width, source_height, nwidth, nheight)
}

impl PixelImage {
    /// Tests whether the image can be resized to the given targets.
    pub fn fits_custom_ratio(
        &self,
        width: Option<u32>,
        height: Option<u32>,
        font_ratio: FontRatio,
    ) -> (fits: bool)
        ensures
            fits == self.can_resize(width, height, font_ratio),
    {
        check_custom_resize(self.layout(), self.width(), self.height(), width, height, font_ratio)
    }

    /// Resizes the image to exactly `nwidth` by `nheight` pixels.
    pub fn resize_exact(&self, nwidth: u32, nheight: u32, filter: ResizeFilter) -> (out: PixelImage)
        requires
            resize_fits(self@.layout, self@.width, self@.height, nwidth, nheight),
        ensures
            is_resized(self@, nwidth, nheight, filter, out@),
    {
        proof {
            use_type_invariant(self);
        }
        let layout = self.layout();
        let data = match layout {
            PixelLayout::Luma => resize_luma8(
                self.as_raw(),
                self.width(),
                self.height(),
                nwidth,
                nheight,
                filter,
            ),
            PixelLayout::LumaA => resize_luma_a8(
                self.as_raw(),
                self.width(),
                self.height(),
                nwidth,
                nheight,
                filter,
            ),
            PixelLayout::Rgb => resize_rgb8(
                self.as_raw(),
                self.width(),
                self.height(),
                nwidth,
                nheight,
                filter,
            ),
            PixelLayout::Rgba => resize_rgba8(
                self.as_raw(),
                self.width(),
                self.height(),
                nwidth,
                nheight,
                filter,
            ),
        };
        PixelImage::from_parts(layout, nwidth, nheight, data)
    }
}

impl CustomRatioResize for PixelImage {
    open spec fn can_resize(
        &self,
        width: Option<u32>,
        height: Option<u32>,
        font_ratio: FontRatio,
    ) -> bool {
        custom_resize_fits(self@.layout, self@.width, self@.height, width, height, font_ratio)
    }

    fn resize_custom_ratio(
        &self,
        width: Option<u32>,
        height: Option<u32>,
        font_ratio: FontRatio,
        filter: ResizeFilter,
    ) -> (out: PixelImage)
        ensures
            is_custom_resized(self@, width, height, font_ratio, filter, out@),
    {
        if width.is_none() && height.is_none() {
            return self.clone();
        }
        let (nwidth, nheight) = compute_dimensions(
            self.width(),
            self.height(),
            width,
            height,
            font_ratio,
        );
        self.resize_exact(nwidth, nheight, filter)
    }
}

} // verus!
