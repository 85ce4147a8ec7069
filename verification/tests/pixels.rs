use tapciify::utils::pixels::{Pixel, PixelImage, PixelLayout};

#[test]
fn layouts_have_one_to_four_channels() {
    assert_eq!(PixelLayout::Luma.channels(), 1);
    assert_eq!(PixelLayout::LumaA.channels(), 2);
    assert_eq!(PixelLayout::Rgb.channels(), 3);
    assert_eq!(PixelLayout::Rgba.channels(), 4);
}

#[test]
fn from_raw_takes_exactly_the_bytes_of_the_pixels() {
    assert!(PixelImage::from_raw(PixelLayout::Rgb, 2, 2, vec![0; 12]).is_some());
    assert!(PixelImage::from_raw(PixelLayout::Rgb, 2, 2, vec![0; 11]).is_none());
    assert!(PixelImage::from_raw(PixelLayout::Rgb, 2, 2, vec![0; 13]).is_none());
    assert!(PixelImage::from_raw(PixelLayout::Rgba, 0, 9, vec![]).is_some());
    assert!(PixelImage::from_raw(PixelLayout::Luma, u32::MAX, u32::MAX, vec![0; 4]).is_none());
}

#[test]
fn image_gives_its_parts_back() {
    let image = PixelImage::from_raw(PixelLayout::LumaA, 3, 1, vec![1, 2, 3, 4, 5, 6]).unwrap();
    assert_eq!(image.layout(), PixelLayout::LumaA);
    assert_eq!(image.width(), 3);
    assert_eq!(image.height(), 1);
    assert_eq!(image.pixel_count(), 3);
    assert_eq!(image.as_raw(), &vec![1, 2, 3, 4, 5, 6]);
    assert_eq!(image.clone(), image);
    assert_eq!(image.into_raw(), vec![1, 2, 3, 4, 5, 6]);
}

#[test]
fn grey_pixel_is_opaque_and_colourless() {
    let image = PixelImage::from_raw(PixelLayout::Luma, 2, 1, vec![7, 9]).unwrap();
    assert_eq!(image.pixel(1), Pixel { r: 9, g: 9, b: 9, a: 255 });
}

#[test]
fn grey_alpha_pixel_has_its_alpha() {
    let image = PixelImage::from_raw(PixelLayout::LumaA, 2, 1, vec![7, 8, 9, 10]).unwrap();
    assert_eq!(image.pixel(0), Pixel { r: 7, g: 7, b: 7, a: 8 });
    assert_eq!(image.pixel(1), Pixel { r: 9, g: 9, b: 9, a: 10 });
}

#[test]
fn colour_pixel_is_opaque() {
    let image = PixelImage::from_raw(PixelLayout::Rgb, 1, 2, vec![1, 2, 3, 4, 5, 6]).unwrap();
    assert_eq!(image.pixel(1), Pixel { r: 4, g: 5, b: 6, a: 255 });
}

#[test]
fn colour_alpha_pixel_has_four_channels() {
    let image = PixelImage::from_raw(PixelLayout::Rgba, 1, 2, vec![1, 2, 3, 4, 5, 6, 7, 8]).unwrap();
    assert_eq!(image.pixel(1), Pixel { r: 5, g: 6, b: 7, a: 8 });
}

#[test]
fn get_pixel_goes_by_column_and_row() {
    let image = PixelImage::from_raw(PixelLayout::Luma, 3, 2, vec![0, 1, 2, 10, 11, 12]).unwrap();
    assert_eq!(image.get_pixel(0, 0).r, 0);
    assert_eq!(image.get_pixel(2, 0).r, 2);
    assert_eq!(image.get_pixel(0, 1).r, 10);
    assert_eq!(image.get_pixel(2, 1).r, 12);
    assert_eq!(image.get_pixel(1, 1), image.pixel(4));
}
