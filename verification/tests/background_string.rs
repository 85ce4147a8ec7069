use tapciify::renderers::ascii::{AsciiArtPixel, SizeError};
use tapciify::renderers::background_string::BackgroundStringArtConverter;
use tapciify::utils::pixels::{PixelImage, PixelLayout};

fn glyphs(image: &PixelImage, text: &str) -> String {
    image
        .background_string_art(text, false)
        .unwrap()
        .characters
        .iter()
        .map(|c| c.character)
        .collect()
}

#[test]
fn text_repeats_down_a_light_column() {
    let image = PixelImage::from_raw(PixelLayout::Luma, 1, 4, vec![255; 4]).unwrap();
    let art = image.background_string_art("AB", false).unwrap();
    assert_eq!((art.width, art.height), (1, 4));
    let read: Vec<char> = art.characters.iter().map(|c| c.character).collect();
    assert_eq!(read, vec!['A', 'B', 'A', 'B']);
    assert_eq!(art.to_string(), "A\nB\nA\nB");
}

#[test]
fn text_runs_on_from_row_to_row() {
    let image = PixelImage::from_raw(PixelLayout::Luma, 3, 2, vec![255; 6]).unwrap();
    assert_eq!(glyphs(&image, "abcd"), "abcdab");
}

#[test]
fn dark_pixels_are_spaces_and_still_count() {
    let image = PixelImage::from_raw(PixelLayout::Luma, 5, 1, vec![255, 0, 255, 127, 128]).unwrap();
    assert_eq!(glyphs(&image, "AB"), "A A A");
    assert_eq!(glyphs(&image, "xyz"), "x z y");
}

#[test]
fn text_is_read_by_characters() {
    let image = PixelImage::from_raw(PixelLayout::Luma, 4, 1, vec![255; 4]).unwrap();
    assert_eq!(glyphs(&image, "ä█"), "ä█ä█");
}

#[test]
fn empty_text_fills_an_image_without_light_pixels() {
    let image = PixelImage::from_raw(PixelLayout::Luma, 2, 2, vec![0, 127, 3, 90]).unwrap();
    assert_eq!(glyphs(&image, ""), "    ");
}

#[test]
fn silhouette_cells_keep_the_pixels_colour() {
    let image = PixelImage::from_raw(
        PixelLayout::Rgba,
        2,
        1,
        vec![255, 250, 245, 255, 255, 250, 245, 100],
    )
    .unwrap();
    let art = image.background_string_art("#", true).unwrap();
    assert!(art.colored);
    assert_eq!(
        art.characters,
        vec![
            AsciiArtPixel { character: '#', r: 255, g: 250, b: 245, a: 255 },
            AsciiArtPixel { character: ' ', r: 255, g: 250, b: 245, a: 100 },
        ]
    );
}

#[test]
fn silhouette_has_one_cell_per_pixel() {
    for (width, height) in [(1u32, 1u32), (4, 3), (2, 9)] {
        let data = vec![180u8; (width * height * 3) as usize];
        let image = PixelImage::from_raw(PixelLayout::Rgb, width, height, data).unwrap();
        let art = image.background_string_art("hello world! ", false).unwrap();
        assert_eq!((art.width, art.height), (width, height));
        assert_eq!(art.characters.len() as u32, art.width * art.height);
    }
}

#[test]
fn silhouette_rejects_an_image_without_pixels() {
    for (width, height) in [(0u32, 0u32), (0, 3), (3, 0)] {
        for layout in [PixelLayout::Luma, PixelLayout::LumaA, PixelLayout::Rgb, PixelLayout::Rgba] {
            let image = PixelImage::from_raw(layout, width, height, vec![]).unwrap();
            assert_eq!(image.background_string_art("AB", false), Err(SizeError));
            assert_eq!(image.background_string_art("", false), Err(SizeError));
        }
    }
}

#[test]
fn light_pixels_are_found() {
    let dark = PixelImage::from_raw(PixelLayout::Luma, 2, 2, vec![0, 127, 3, 90]).unwrap();
    assert!(!dark.has_light_pixel());
    let last = PixelImage::from_raw(PixelLayout::Luma, 2, 2, vec![0, 127, 3, 128]).unwrap();
    assert!(last.has_light_pixel());
    let faint = PixelImage::from_raw(PixelLayout::LumaA, 1, 2, vec![255, 127, 255, 128]).unwrap();
    assert!(faint.has_light_pixel());
    let none = PixelImage::from_raw(PixelLayout::Rgba, 0, 3, vec![]).unwrap();
    assert!(!none.has_light_pixel());
}
