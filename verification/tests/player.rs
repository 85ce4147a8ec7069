use tapciify::renderers::ascii::{
    AsciiArtConverter, AsciiArtConverterError, AsciiArtConverterOptions, AsciiStringError, SizeError,
};
use tapciify::renderers::background_string::BackgroundStringArtConverter;
use tapciify::renderers::braille::BrailleArtConverter;
use tapciify::utils::pixels::{PixelImage, PixelLayout};
use tapciify::utils::player::{
    AsciiPlayer, AsciiPlayerError, AsciiPlayerOptions, PlayerAction, PlayerEvent, PlayerState,
};
use tapciify::utils::resize::{CustomRatioResize, FontRatio, ResizeFilter};

fn run(mut state: PlayerState, steps: usize) -> Vec<PlayerAction> {
    let mut actions = vec![state.action];
    for _ in 0..steps {
        state = AsciiPlayer::step(state, PlayerEvent::Done);
        actions.push(state.action);
    }
    actions
}

fn options(pre_render: bool, looped: bool) -> AsciiPlayerOptions {
    AsciiPlayerOptions { pre_render, looped, ..Default::default() }
}

fn converter_error(result: Result<tapciify::AsciiArt, AsciiPlayerError>) -> AsciiArtConverterError {
    match result {
        Err(AsciiPlayerError::AsciiConverter(error)) => error,
        other => panic!("not a converter error: {:?}", other),
    }
}

#[test]
fn default_options_play_once_without_a_delay() {
    let options = AsciiPlayerOptions::default();
    assert_eq!(options.width, None);
    assert_eq!(options.height, None);
    assert_eq!(options.ascii_string, " .,:;+*?%S#@");
    assert!(!options.colored);
    assert_eq!(options.frame_time, 0);
    assert!(!options.pre_render);
    assert_eq!(options.font_ratio, FontRatio { num: 11, den: 24 });
    assert!(!options.looped);
    assert_eq!(options.filter, ResizeFilter::Triangle);
    assert_eq!(options.threshold, None);
    assert!(!options.braille);
    assert_eq!(options.background_string, None);
}

#[test]
fn converter_options_come_from_the_players() {
    let options = AsciiPlayerOptions {
        ascii_string: " *#".to_owned(),
        colored: true,
        ..Default::default()
    };
    assert_eq!(
        AsciiArtConverterOptions::from(options),
        AsciiArtConverterOptions { ascii_string: " *#".to_owned(), colored: true }
    );
}

#[test]
fn player_reverses_a_ramp() {
    assert_eq!(AsciiPlayer::reverse_ascii_string(" *#".to_owned()), "#* ");
}

#[test]
fn pre_rendered_playback_shows_each_frame_once_in_order() {
    let state = AsciiPlayer::play(3, &options(true, false));
    assert_eq!(
        run(state, 5),
        vec![
            PlayerAction::RenderAll,
            PlayerAction::Show { index: 0, rewind: false },
            PlayerAction::Show { index: 1, rewind: true },
            PlayerAction::Show { index: 2, rewind: true },
            PlayerAction::Finish,
            PlayerAction::Finish,
        ]
    );
}

#[test]
fn pre_rendered_playback_shows_as_many_frames_as_sources() {
    for frames in 0..20usize {
        let actions = run(AsciiPlayer::play_pre_rendered_frames(frames, &options(true, false)), frames + 3);
        let shown: Vec<usize> = actions
            .iter()
            .filter_map(|action| match action {
                PlayerAction::Show { index, .. } => Some(*index),
                _ => None,
            })
            .collect();
        assert_eq!(shown, (0..frames).collect::<Vec<usize>>());
        assert_eq!(actions[frames + 1], PlayerAction::Finish);
    }
}

#[test]
fn streamed_playback_renders_each_frame_before_it_is_shown() {
    let state = AsciiPlayer::play(2, &options(false, false));
    assert_eq!(
        run(state, 5),
        vec![
            PlayerAction::Render { index: 0 },
            PlayerAction::Show { index: 0, rewind: false },
            PlayerAction::Render { index: 1 },
            PlayerAction::Show { index: 1, rewind: true },
            PlayerAction::Finish,
            PlayerAction::Finish,
        ]
    );
}

#[test]
fn looped_streamed_playback_starts_over() {
    let state = AsciiPlayer::play_frames(2, &options(false, true));
    assert_eq!(
        run(state, 6),
        vec![
            PlayerAction::Render { index: 0 },
            PlayerAction::Show { index: 0, rewind: false },
            PlayerAction::Render { index: 1 },
            PlayerAction::Show { index: 1, rewind: true },
            PlayerAction::Render { index: 0 },
            PlayerAction::Show { index: 0, rewind: true },
            PlayerAction::Render { index: 1 },
        ]
    );
}

#[test]
fn looped_pre_rendered_playback_renders_once() {
    let state = AsciiPlayer::play(2, &options(true, true));
    assert_eq!(
        run(state, 5),
        vec![
            PlayerAction::RenderAll,
            PlayerAction::Show { index: 0, rewind: false },
            PlayerAction::Show { index: 1, rewind: true },
            PlayerAction::Show { index: 0, rewind: true },
            PlayerAction::Show { index: 1, rewind: true },
            PlayerAction::Show { index: 0, rewind: true },
        ]
    );
}

#[test]
fn playback_without_sources_ends_at_once() {
    assert_eq!(AsciiPlayer::play(0, &options(false, false)).action, PlayerAction::Finish);
    assert_eq!(
        run(AsciiPlayer::play(0, &options(true, false)), 2),
        vec![PlayerAction::RenderAll, PlayerAction::Finish, PlayerAction::Finish]
    );
}

#[test]
fn looped_playback_without_sources_idles() {
    assert_eq!(
        run(AsciiPlayer::play(0, &options(false, true)), 2),
        vec![PlayerAction::Idle, PlayerAction::Idle, PlayerAction::Idle]
    );
    assert_eq!(
        run(AsciiPlayer::play(0, &options(true, true)), 2),
        vec![PlayerAction::RenderAll, PlayerAction::Idle, PlayerAction::Idle]
    );
}

#[test]
fn a_failed_render_aborts_the_playback() {
    let state = AsciiPlayer::play(3, &options(false, true));
    let state = AsciiPlayer::step(state, PlayerEvent::Done);
    let state = AsciiPlayer::step(state, PlayerEvent::Done);
    assert_eq!(state.action, PlayerAction::Render { index: 1 });
    let state = AsciiPlayer::step(state, PlayerEvent::Failed);
    assert_eq!(state.action, PlayerAction::Abort);
    assert_eq!(AsciiPlayer::step(state, PlayerEvent::Done).action, PlayerAction::Abort);
}

#[test]
fn a_failed_pre_render_shows_nothing() {
    let state = AsciiPlayer::play(3, &options(true, false));
    let state = AsciiPlayer::step(state, PlayerEvent::Failed);
    assert_eq!(state.action, PlayerAction::Abort);
    assert!(state.first_frame);
}

#[test]
fn a_step_keeps_the_mode() {
    let start = AsciiPlayer::play(4, &options(true, true));
    let mut state = start;
    for _ in 0..10 {
        state = AsciiPlayer::step(state, PlayerEvent::Done);
        assert_eq!((state.frames, state.pre_render, state.looped), (4, true, true));
    }
}

#[test]
fn frame_is_rendered_with_the_ramp() {
    let image = PixelImage::from_raw(PixelLayout::Luma, 2, 1, vec![0, 255]).unwrap();
    let options = AsciiPlayerOptions { ascii_string: " *#".to_owned(), ..Default::default() };
    let converter_options = AsciiArtConverterOptions::from(options.clone());
    assert!(AsciiPlayer::can_prepare(&image, &options));
    let art = AsciiPlayer::render_frame(&image, &options, &converter_options).unwrap();
    assert_eq!(art, image.ascii_art(&converter_options).unwrap());
    assert_eq!(art.to_string(), " #");
}

#[test]
fn frame_is_resized_before_it_is_converted() {
    let image = PixelImage::from_raw(PixelLayout::Rgb, 100, 50, vec![255; 100 * 50 * 3]).unwrap();
    let options = AsciiPlayerOptions { width: Some(64), ..Default::default() };
    let converter_options = AsciiArtConverterOptions::from(options.clone());
    assert!(AsciiPlayer::can_prepare(&image, &options));
    let art = AsciiPlayer::render_frame(&image, &options, &converter_options).unwrap();
    assert_eq!((art.width, art.height), (64, 14));
    assert_eq!(art.characters.len(), 64 * 14);
    assert!(art.characters.iter().all(|c| c.character == '@'));
    let resized = image.resize_custom_ratio(Some(64), None, options.font_ratio, options.filter);
    assert_eq!(art, resized.ascii_art(&converter_options).unwrap());
}

#[test]
fn frame_is_made_of_braille_patterns_on_request() {
    let image = PixelImage::from_raw(PixelLayout::Luma, 8, 8, vec![255; 64]).unwrap();
    let options = AsciiPlayerOptions { braille: true, colored: true, ..Default::default() };
    let converter_options = AsciiArtConverterOptions::from(options.clone());
    let art = AsciiPlayer::render_frame(&image, &options, &converter_options).unwrap();
    assert_eq!(art, image.braille_art(true).unwrap());
    assert_eq!((art.width, art.height), (4, 2));
    assert!(art.characters.iter().all(|c| c.character == '⣿'));
}

#[test]
fn a_text_takes_precedence_over_braille() {
    let image = PixelImage::from_raw(PixelLayout::Luma, 2, 2, vec![255, 0, 255, 255]).unwrap();
    let options = AsciiPlayerOptions {
        braille: true,
        background_string: Some("xy".to_owned()),
        ..Default::default()
    };
    let converter_options = AsciiArtConverterOptions::from(options.clone());
    let art = AsciiPlayer::render_frame(&image, &options, &converter_options).unwrap();
    assert_eq!(art, image.background_string_art("xy", false).unwrap());
    assert_eq!(art.to_string(), "x \nxy");
}

#[test]
fn frame_is_thresholded_before_it_is_resized() {
    let image = PixelImage::from_raw(PixelLayout::Rgb, 3, 1, vec![255, 0, 0, 0, 255, 0, 0, 0, 255])
        .unwrap();
    let options = AsciiPlayerOptions {
        threshold: Some(1),
        ascii_string: " #".to_owned(),
        ..Default::default()
    };
    let converter_options = AsciiArtConverterOptions::from(options.clone());
    assert!(AsciiPlayer::can_prepare(&image, &options));
    let art = AsciiPlayer::render_frame(&image, &options, &converter_options).unwrap();
    assert_eq!(art.to_string(), " # ");
    assert_eq!(art.characters[1].r, 255);
    assert_eq!(art.characters[1].b, 255);
}

#[test]
fn prepared_image_is_converted_as_it_is() {
    let image = PixelImage::from_raw(PixelLayout::Luma, 2, 1, vec![0, 255]).unwrap();
    let options = AsciiPlayerOptions { width: Some(100), threshold: Some(9), ..Default::default() };
    let converter_options = AsciiArtConverterOptions { ascii_string: "ab".to_owned(), colored: true };
    let art = AsciiPlayer::render_prepared(&image, &options, &converter_options).unwrap();
    assert_eq!((art.width, art.height, art.colored), (2, 1, true));
    colored::control::set_override(false);
    let text = art.to_string();
    colored::control::unset_override();
    assert_eq!(text, "ab");
}

#[test]
fn an_image_without_pixels_is_a_size_error_in_every_mode() {
    let image = PixelImage::from_raw(PixelLayout::Rgba, 0, 3, vec![]).unwrap();
    let modes = [
        AsciiPlayerOptions::default(),
        AsciiPlayerOptions { braille: true, ..Default::default() },
        AsciiPlayerOptions { background_string: Some("AB".to_owned()), ..Default::default() },
    ];
    for options in modes {
        let converter_options = AsciiArtConverterOptions::from(options.clone());
        let result = AsciiPlayer::render_frame(&image, &options, &converter_options);
        assert_eq!(converter_error(result), AsciiArtConverterError::SizeError(SizeError));
    }
}

#[test]
fn a_small_image_is_a_size_error_for_braille() {
    let image = PixelImage::from_raw(PixelLayout::Luma, 3, 8, vec![0; 24]).unwrap();
    let options = AsciiPlayerOptions { braille: true, ..Default::default() };
    let converter_options = AsciiArtConverterOptions::from(options.clone());
    let result = AsciiPlayer::render_frame(&image, &options, &converter_options);
    assert_eq!(converter_error(result), AsciiArtConverterError::SizeError(SizeError));
}

#[test]
fn a_resize_to_nothing_is_a_size_error() {
    let image = PixelImage::from_raw(PixelLayout::Luma, 100, 1, vec![0; 100]).unwrap();
    let options = AsciiPlayerOptions { width: Some(10), ..Default::default() };
    let converter_options = AsciiArtConverterOptions::from(options.clone());
    let result = AsciiPlayer::render_frame(&image, &options, &converter_options);
    assert_eq!(converter_error(result), AsciiArtConverterError::SizeError(SizeError));
}

#[test]
fn an_empty_ramp_is_a_ramp_error() {
    let image = PixelImage::from_raw(PixelLayout::Luma, 1, 1, vec![0]).unwrap();
    let options = AsciiPlayerOptions { ascii_string: String::new(), ..Default::default() };
    let converter_options = AsciiArtConverterOptions::from(options.clone());
    let result = AsciiPlayer::render_frame(&image, &options, &converter_options);
    assert_eq!(
        converter_error(result),
        AsciiArtConverterError::AsciiStringError(AsciiStringError)
    );
}

#[test]
fn preparing_is_refused_beyond_the_limits() {
    let image = PixelImage::from_raw(PixelLayout::Luma, 2, 2, vec![0; 4]).unwrap();
    assert!(!AsciiPlayer::can_prepare(
        &image,
        &AsciiPlayerOptions { threshold: Some(0), ..Default::default() }
    ));
    assert!(!AsciiPlayer::can_prepare(
        &image,
        &AsciiPlayerOptions { width: Some(u32::MAX), height: Some(u32::MAX), ..Default::default() }
    ));
    assert!(!AsciiPlayer::can_prepare(
        &image,
        &AsciiPlayerOptions { width: Some(4_194_305), height: Some(1), ..Default::default() }
    ));
    assert!(AsciiPlayer::can_prepare(
        &image,
        &AsciiPlayerOptions { background_string: Some(String::new()), ..Default::default() }
    ));
    assert!(AsciiPlayer::can_prepare(
        &image,
        &AsciiPlayerOptions {
            threshold: Some(20),
            width: Some(64),
            background_string: Some("x".to_owned()),
            ..Default::default()
        }
    ));
}

#[test]
fn preparing_thresholds_and_resizes() {
    let image = PixelImage::from_raw(PixelLayout::Rgb, 4, 4, vec![100; 48]).unwrap();
    let options = AsciiPlayerOptions {
        threshold: Some(1),
        width: Some(2),
        height: Some(3),
        filter: ResizeFilter::Nearest,
        ..Default::default()
    };
    let prepared = AsciiPlayer::prepare_frame(&image, &options);
    assert_eq!(prepared.layout(), PixelLayout::Luma);
    assert_eq!((prepared.width(), prepared.height()), (2, 3));
    assert_eq!(prepared.into_raw(), vec![255; 6]);
    let plain = AsciiPlayer::prepare_frame(&image, &AsciiPlayerOptions::default());
    assert_eq!(plain, image);
}

#[test]
fn trying_renders_what_rendering_renders() {
    let image = PixelImage::from_raw(PixelLayout::Luma, 2, 1, vec![0, 255]).unwrap();
    let options = AsciiPlayerOptions { ascii_string: " *#".to_owned(), ..Default::default() };
    let converter_options = AsciiArtConverterOptions::from(options.clone());
    let tried = AsciiPlayer::try_render_frame(&image, &options, &converter_options).unwrap();
    let rendered = AsciiPlayer::render_frame(&image, &options, &converter_options);
    assert_eq!(tried.unwrap(), rendered.unwrap());
    let small = PixelImage::from_raw(PixelLayout::Luma, 3, 8, vec![0; 24]).unwrap();
    let braille = AsciiPlayerOptions { braille: true, ..Default::default() };
    let tried = AsciiPlayer::try_render_frame(&small, &braille, &converter_options).unwrap();
    assert_eq!(converter_error(tried), AsciiArtConverterError::SizeError(SizeError));
}

#[test]
fn trying_gives_nothing_beyond_the_limits() {
    let image = PixelImage::from_raw(PixelLayout::Luma, 2, 2, vec![0; 4]).unwrap();
    let converter_options = AsciiArtConverterOptions::default();
    let no_radius = AsciiPlayerOptions { threshold: Some(0), ..Default::default() };
    assert!(AsciiPlayer::try_render_frame(&image, &no_radius, &converter_options).is_none());
    let too_wide = AsciiPlayerOptions { width: Some(4_194_305), height: Some(1), ..Default::default() };
    assert!(AsciiPlayer::try_render_frame(&image, &too_wide, &converter_options).is_none());
}

#[test]
fn an_empty_text_fills_an_image_without_light_pixels() {
    let image = PixelImage::from_raw(PixelLayout::Luma, 2, 2, vec![0, 5, 100, 127]).unwrap();
    let options = AsciiPlayerOptions { background_string: Some(String::new()), ..Default::default() };
    let converter_options = AsciiArtConverterOptions::from(options.clone());
    let art = AsciiPlayer::try_render_frame(&image, &options, &converter_options).unwrap().unwrap();
    assert_eq!(art.to_string(), "  \n  ");
    let art = AsciiPlayer::render_prepared(&image, &options, &converter_options).unwrap();
    assert_eq!(art.to_string(), "  \n  ");
    let empty = PixelImage::from_raw(PixelLayout::Luma, 0, 0, vec![]).unwrap();
    let tried = AsciiPlayer::try_render_frame(&empty, &options, &converter_options).unwrap();
    assert_eq!(converter_error(tried), AsciiArtConverterError::SizeError(SizeError));
}

#[test]
fn an_empty_text_cannot_fill_a_light_pixel() {
    let image = PixelImage::from_raw(PixelLayout::Luma, 2, 2, vec![0, 5, 200, 127]).unwrap();
    let options = AsciiPlayerOptions { background_string: Some(String::new()), ..Default::default() };
    let converter_options = AsciiArtConverterOptions::from(options.clone());
    assert!(AsciiPlayer::can_prepare(&image, &options));
    assert!(AsciiPlayer::try_render_frame(&image, &options, &converter_options).is_none());
}

#[test]
fn player_errors_say_what_went_wrong() {
    assert_eq!(
        AsciiPlayerError::from(SizeError).to_string(),
        "ASCII art converter error: Size error: width and height are too small"
    );
    assert_eq!(
        AsciiPlayerError::from(AsciiStringError).to_string(),
        "ASCII art converter error: ASCII string error: lightness is out of ASCII string"
    );
    assert_eq!(
        AsciiPlayerError::from(AsciiArtConverterError::SizeError(SizeError)).to_string(),
        "ASCII art converter error: Size error: width and height are too small"
    );
}

#[test]
fn image_errors_are_carried_in_the_players() {
    let error = image::load_from_memory(&[1, 2, 3]).unwrap_err();
    let words = error.to_string();
    let carried = AsciiPlayerError::from(error);
    assert!(matches!(carried, AsciiPlayerError::Image(_)));
    assert_eq!(carried.to_string(), format!("Image error: {}", words));
}

#[test]
fn a_frame_is_over_when_its_time_has_passed() {
    assert!(AsciiPlayer::frame_is_over(0, 0));
    assert!(!AsciiPlayer::frame_is_over(50, 49));
    assert!(AsciiPlayer::frame_is_over(50, 50));
    assert!(AsciiPlayer::frame_is_over(50, 51));
    assert!(!AsciiPlayer::frame_is_over(u64::MAX, u64::MAX as u128 - 1));
    assert!(AsciiPlayer::frame_is_over(u64::MAX, u128::MAX));
}

#[test]
fn the_cursor_rewinds_by_the_height_of_the_frame() {
    assert_eq!(AsciiPlayer::rewind_distance(0), Some(0));
    assert_eq!(AsciiPlayer::rewind_distance(14), Some(14));
    assert_eq!(AsciiPlayer::rewind_distance(65535), Some(65535));
    assert_eq!(AsciiPlayer::rewind_distance(65536), None);
    assert_eq!(AsciiPlayer::rewind_distance(u32::MAX), None);
}
