use tapciify::renderers::ascii::{AsciiArtPixel, SizeError};
use tapciify::renderers::braille::{
    boolean_array_to_braille, calc_braille_pixels, default_braille_font_ratio,
    BrailleArtConverter,
};
use tapciify::utils::pixels::{PixelImage, PixelLayout};
use tapciify::utils::resize::FontRatio;

fn grey(width: u32, height: u32, lit: &[(u32, u32)]) -> PixelImage {
    let mut data = vec![0u8; (width * height) as usize];
    for (x, y) in lit {
        data[(y * width + x) as usize] = 255;
    }
    PixelImage::from_raw(PixelLayout::Luma, width, height, data).unwrap()
}

#[test]
fn dots_zero_four_and_seven_make_their_pattern() {
    let glyph = boolean_array_to_braille(&[true, false, false, false, true, false, false, true]);
    assert_eq!(glyph, '⢑');
    assert_eq!(glyph as u32, 0x2800 | 0b1001_0001);
}

#[test]
fn no_dot_makes_the_blank_pattern() {
    assert_eq!(boolean_array_to_braille(&[false; 8]), '\u{2800}');
}

#[test]
fn all_dots_make_the_full_pattern() {
    assert_eq!(boolean_array_to_braille(&[true; 8]), '⣿');
}

#[test]
fn each_dot_is_its_bit() {
    for i in 0..8 {
        let mut dots = [false; 8];
        dots[i] = true;
        assert_eq!(boolean_array_to_braille(&dots) as u32, 0x2800 + (1 << i));
    }
}

#[test]
fn braille_pixels_run_down_the_left_column_then_the_right() {
    assert_eq!(
        calc_braille_pixels(10, 20),
        [(10, 20), (10, 21), (10, 22), (11, 20), (11, 21), (11, 22), (10, 23), (11, 23)]
    );
    assert_eq!(
        calc_braille_pixels(0, 0),
        [(0, 0), (0, 1), (0, 2), (1, 0), (1, 1), (1, 2), (0, 3), (1, 3)]
    );
}

#[test]
fn braille_font_ratio_is_twenty_one_to_twenty_four() {
    assert_eq!(default_braille_font_ratio(), FontRatio { num: 21, den: 24 });
}

#[test]
fn eight_by_eight_pixels_make_four_by_two_patterns() {
    let art = grey(8, 8, &[]).braille_art(false).unwrap();
    assert_eq!((art.width, art.height), (4, 2));
    assert_eq!(art.characters.len(), 8);
}

#[test]
fn pixels_beyond_the_last_whole_block_are_left_out() {
    let art = grey(5, 11, &[(4, 0), (0, 8), (4, 10)]).braille_art(false).unwrap();
    assert_eq!((art.width, art.height), (2, 2));
    assert!(art.characters.iter().all(|c| c.character == '\u{2800}'));
}

#[test]
fn braille_art_has_one_cell_per_block() {
    for (width, height) in [(4u32, 8u32), (7, 9), (10, 16), (64, 33)] {
        let art = grey(width, height, &[]).braille_art(true).unwrap();
        assert_eq!((art.width, art.height), (width / 2, height / 4));
        assert_eq!(art.characters.len() as u32, art.width * art.height);
        assert!(art.colored);
    }
}

#[test]
fn each_pixel_of_a_block_raises_its_dot() {
    let places = [(0, 0), (0, 1), (0, 2), (1, 0), (1, 1), (1, 2), (0, 3), (1, 3)];
    for (bit, place) in places.iter().enumerate() {
        let art = grey(4, 8, &[*place]).braille_art(false).unwrap();
        assert_eq!(art.characters[0].character as u32, 0x2800 + (1 << bit));
        assert_eq!(art.characters[1].character, '\u{2800}');
        assert_eq!(art.characters[2].character, '\u{2800}');
        assert_eq!(art.characters[3].character, '\u{2800}');
    }
}

#[test]
fn blocks_are_read_row_after_row() {
    // One light pixel at the top left of the block in column 1 of row 1.
    let art = grey(6, 8, &[(2, 4)]).braille_art(false).unwrap();
    assert_eq!((art.width, art.height), (3, 2));
    let glyphs: Vec<u32> = art.characters.iter().map(|c| c.character as u32).collect();
    assert_eq!(glyphs, vec![0x2800, 0x2800, 0x2800, 0x2800, 0x2801, 0x2800]);
}

#[test]
fn a_pixel_is_light_above_half_the_scale() {
    let mut data = vec![127u8; 32];
    data[0] = 128;
    let image = PixelImage::from_raw(PixelLayout::Luma, 4, 8, data).unwrap();
    let art = image.braille_art(false).unwrap();
    assert_eq!(art.characters[0].character, '\u{2801}');
    assert_eq!(art.characters[1].character, '\u{2800}');
}

#[test]
fn braille_cell_has_the_colour_of_its_top_left_pixel() {
    let mut data = vec![0u8; 4 * 8 * 4];
    // Pixel (2, 4): top left of the last block.
    let at = (4 * 4 + 2) * 4;
    data[at..at + 4].copy_from_slice(&[200, 150, 100, 50]);
    // Pixel (3, 5) of the same block: light, but not the one that gives the colour.
    let other = (5 * 4 + 3) * 4;
    data[other..other + 4].copy_from_slice(&[255, 255, 255, 255]);
    let image = PixelImage::from_raw(PixelLayout::Rgba, 4, 8, data).unwrap();
    let art = image.braille_art(false).unwrap();
    assert_eq!(
        art.characters[3],
        AsciiArtPixel { character: '\u{2810}', r: 200, g: 150, b: 100, a: 50 }
    );
}

#[test]
fn braille_art_rejects_an_image_under_four_by_eight() {
    for (width, height) in [(3u32, 8u32), (4, 7), (3, 100), (100, 7), (1, 1)] {
        assert_eq!(grey(width, height, &[]).braille_art(false), Err(SizeError));
    }
}

#[test]
fn braille_art_rejects_an_image_without_pixels() {
    for (width, height) in [(0u32, 0u32), (0, 8), (4, 0)] {
        for layout in [PixelLayout::Luma, PixelLayout::LumaA, PixelLayout::Rgb, PixelLayout::Rgba] {
            let image = PixelImage::from_raw(layout, width, height, vec![]).unwrap();
            assert_eq!(image.braille_art(true), Err(SizeError));
        }
    }
}
