//! Images as plain values: a channel layout, the two dimensions and the bytes.

use vstd::prelude::*;

verus! {

/// How the bytes of one pixel are laid out. Every channel is one byte.
#[derive(Clone, Copy, Debug, PartialEq, Eq, Hash, Structural)]
pub enum PixelLayout {
    /// Grey level.
    Luma,
    /// Grey level, then alpha.
    LumaA,
    /// Red, green, blue.
    Rgb,
    /// Red, green, blue, then alpha.
    Rgba,
}

impl PixelLayout {
    /// Number of bytes that one pixel takes.
    pub open spec fn spec_channels(self) -> nat {
        match self {
            PixelLayout::Luma => 1,
            PixelLayout::LumaA => 2,
            PixelLayout::Rgb => 3,
            PixelLayout::Rgba => 4,
        }
    }

    /// Number of bytes that one pixel takes.
    pub fn channels(self) -> (n: usize)
        ensures
            n == self.spec_channels(),
    {
        match self {
            PixelLayout::Luma => 1,
            PixelLayout::LumaA => 2,
            PixelLayout::Rgb => 3,
            PixelLayout::Rgba => 4,
        }
    }
}

/// One pixel read out of an image: colour and alpha, whatever the layout was.
#[derive(Clone, Copy, Debug, PartialEq, Eq, Hash, Structural)]
pub struct Pixel {
    /// Red.
    pub r: u8,
    /// Green.
    pub g: u8,
    /// Blue.
    pub b: u8,
    /// Alpha.
    pub a: u8,
}

/// The pixel whose first byte is `data[at]`. A grey level stands for all three
/// colours; a layout without alpha is opaque.
pub open spec fn sample(layout: PixelLayout, data: Seq<u8>, at: int) -> Pixel {
    match layout {
        PixelLayout::Luma => Pixel { r: data[at], g: data[at], b: data[at], a: 255 },
        PixelLayout::LumaA => Pixel { r: data[at], g: data[at], b: data[at], a: data[at + 1] },
        PixelLayout::Rgb => Pixel { r: data[at], g: data[at + 1], b: data[at + 2], a: 255 },
        PixelLayout::Rgba => Pixel {
            r: data[at],
            g: data[at + 1],
            b: data[at + 2],
            a: data[at + 3],
        },
    }
}

/// The mathematical content of a [`PixelImage`].
pub struct Raster {
    /// Layout of each pixel.
    pub layout: PixelLayout,
    /// Pixels per row.
    pub width: u32,
    /// Number of rows.
    pub height: u32,
    /// The channels of all pixels, row after row.
    pub data: Seq<u8>,
}

impl Raster {
    /// The bytes are exactly those of `width * height` pixels.
    pub open spec fn wf(self) -> bool {
        self.data.len() == self.count() * self.layout.spec_channels()
    }

    /// Number of pixels.
    pub open spec fn count(self) -> nat {
        (self.width * self.height) as nat
    }

    /// The pixel at a row-major position.
    pub open spec fn pixel(self, index: int) -> Pixel {
        sample(self.layout, self.data, index * self.layout.spec_channels())
    }

    /// The pixel in column `x` of row `y`.
    pub open spec fn pixel_at(self, x: int, y: int) -> Pixel {
        self.pixel(y * self.width + x)
    }
}

/// An image held as plain values. Its bytes are always exactly those of
/// `width * height` pixels.
#[derive(Debug, PartialEq, Eq, Hash)]
pub struct PixelImage {
    layout: PixelLayout,
    width: u32,
    height: u32,
    data: Vec<u8>,
}

impl View for PixelImage {
    type V = Raster;

    closed spec fn view(&self) -> Raster {
        Raster { layout: self.layout, width: self.width, height: self.height, data: self.data@ }
    }
}

/// A row-major position below `width * height` leaves room for a whole pixel.
pub proof fn lemma_pixel_in_bounds(count: int, channels: int, index: int)
    requires
        0 <= index < count,
        0 < channels,
    ensures
        0 <= index * channels,
        index * channels + channels <= count * channels,
{
    assert(0 <= index * channels && index * channels + channels <= count * channels)
        by (nonlinear_arith)
        requires
            0 <= index < count,
            0 < channels,
    ;
}

/// The bytes of `count` pixels, divided by the bytes of one, give `count` back.
pub proof fn lemma_count_of_bytes(count: int, channels: int)
    requires
        0 <= count,
        0 < channels,
    ensures
        count <= count * channels,
        (count * channels) / channels == count,
{
    assert(count <= count * channels && (count * channels) / channels == count)
        by (nonlinear_arith)
        requires
            0 <= count,
            0 < channels,
    ;
}

/// A column and a row inside the image give a position below `width * height`.
pub proof fn lemma_position_in_bounds(width: int, height: int, x: int, y: int)
    requires
        0 <= x < width,
        0 <= y < height,
    ensures
        0 <= y * width + x < width * height,
{
    assert(0 <= y * width + x < width * height) by (nonlinear_arith)
        requires
            0 <= x < width,
            0 <= y < height,
    ;
}

/// Number of bytes that an image of the given shape takes.
fn bytes_needed(layout: PixelLayout, width: u32, height: u32) -> (needed: u128)
    ensures
        needed == width * height * layout.spec_channels(),
{
    let channels = layout.channels();
    assert(width * height <= 0xffff_ffff * 0xffff_ffff) by (nonlinear_arith)
        requires
            0 <= width <= 0xffff_ffff,
            0 <= height <= 0xffff_ffff,
    ;
    let pixels: u128 = width as u128 * height as u128;
    assert(pixels * channels <= 0xffff_ffff * 0xffff_ffff * 4) by (nonlinear_arith)
        requires
            0 <= pixels <= 0xffff_ffff * 0xffff_ffff,
            0 <= channels <= 4,
    ;
    pixels * channels as u128
}

impl Clone for PixelImage {
    fn clone(&self) -> (copy: PixelImage)
        ensures
            copy@ == self@,
    {
        proof {
            use_type_invariant(self);
        }
        let data = self.data.clone();
        assert(data@ =~= self.data@);
        PixelImage { layout: self.layout, width: self.width, height: self.height, data }
    }
}

impl PixelImage {
    /// The bytes are exactly those of `width * height` pixels.
    #[verifier::type_invariant]
    pub open spec fn wf(&self) -> bool {
        self@.wf()
    }

    /// Builds an image from its bytes, if there are exactly as many as the
    /// dimensions and the layout ask for.
    pub fn from_raw(layout: PixelLayout, width: u32, height: u32, data: Vec<u8>) -> (result: Option<
        PixelImage,
    >)
        ensures
            result is Some <==> data.len() == width * height * layout.spec_channels(),
            result matches Some(image) ==> image@ == (Raster {
                layout,
                width,
                height,
                data: data@,
            }),
    {
        let needed = bytes_needed(layout, width, height);
        if data.len() as u128 == needed {
            Some(PixelImage { layout, width, height, data })
        } else {
            None
        }
    }

    /// Builds an image from bytes that are known to fit.
    pub(crate) fn from_parts(layout: PixelLayout, width: u32, height: u32, data: Vec<u8>) -> (image:
        PixelImage)
        requires
            data.len() == width * height * layout.spec_channels(),
        ensures
            image@ == (Raster { layout, width, height, data: data@ }),
    {
        PixelImage { layout, width, height, data }
    }

    /// Layout of each pixel.
    pub fn layout(&self) -> (layout: PixelLayout)
        ensures
            layout == self@.layout,
    {
        self.layout
    }

    /// Pixels per row.
    pub fn width(&self) -> (width: u32)
        ensures
            width == self@.width,
    {
        self.width
    }

    /// Number of rows.
    pub fn height(&self) -> (height: u32)
        ensures
            height == self@.height,
    {
        self.height
    }

    /// The channels of all pixels, row after row.
    pub fn as_raw(&self) -> (data: &Vec<u8>)
        ensures
            data@ == self@.data,
    {
        &self.data
    }

    /// Gives the bytes back.
    pub fn into_raw(self) -> (data: Vec<u8>)
        ensures
            data@ == self@.data,
    {
        self.data
    }

    /// Number of pixels.
    pub fn pixel_count(&self) -> (count: usize)
        ensures
            count == self@.count(),
    {
        let channels = self.layout.channels();
        proof {
            use_type_invariant(self);
            lemma_count_of_bytes(self@.count() as int, channels as int);
        }
        self.data.len() / channels
    }

    /// The pixel at a row-major position.
    pub fn pixel(&self, index: usize) -> (pixel: Pixel)
        requires
            index < self@.count(),
        ensures
            pixel == self@.pixel(index as int),
    {
        proof {
            use_type_invariant(self);
            lemma_pixel_in_bounds(
                self@.count() as int,
                self.layout.spec_channels() as int,
                index as int,
            );
        }
        let ghost count = self@.count() as int;
        let bytes = self.data.len();
        match self.layout {
            PixelLayout::Luma => {
                assert(bytes == count * 1);
                assert(index * self@.layout.spec_channels() == 1 * index);
                let l = self.data[index];
                Pixel { r: l, g: l, b: l, a: 255 }
            },
            PixelLayout::LumaA => {
                assert(bytes == count * 2);
                assert(index * self@.layout.spec_channels() == 2 * index);
                let l = self.data[2 * index];
                Pixel { r: l, g: l, b: l, a: self.data[2 * index + 1] }
            },
            PixelLayout::Rgb => {
                assert(bytes == count * 3);
                assert(index * self@.layout.spec_channels() == 3 * index);
                Pixel {
                    r: self.data[3 * index],
                    g: self.data[3 * index + 1],
                    b: self.data[3 * index + 2],
                    a: 255,
                }
            },
            PixelLayout::Rgba => {
                assert(bytes == count * 4);
                assert(index * self@.layout.spec_channels() == 4 * index);
                Pixel {
                    r: self.data[4 * index],
                    g: self.data[4 * index + 1],
                    b: self.data[4 * index + 2],
                    a: self.data[4 * index + 3],
                }
            },
        }
    }

    /// The pixel in column `x` of row `y`.
    pub fn get_pixel(&self, x: u32, y: u32) -> (pixel: Pixel)
        requires
            x < self@.width,
            y < self@.height,
        ensures
            pixel == self@.pixel_at(x as int, y as int),
    {
        proof {
            lemma_position_in_bounds(self.width as int, self.height as int, x as int, y as int);
            lemma_pixel_in_bounds(
                self@.count() as int,
                self.layout.spec_channels() as int,
                y * self.width + x,
            );
        }
        let count = self.pixel_count();
        let index = y as usize * self.width as usize + x as usize;
        self.pixel(index)
    }
}

} // verus!
