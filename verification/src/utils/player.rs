//! Playing a sequence of images as frames of text.

use crate::renderers::ascii::{
    is_frame_result, spec_ascii_art, AsciiArt, AsciiArtConverter, AsciiArtConverterError,
    AsciiArtConverterOptions, AsciiStringError, Frame, SizeError, DEFAULT_ASCII_STRING,
};
use crate::renderers::background_string::{
    has_lit_pixel, spec_background_string_art, BackgroundStringArtConverter,
};
use crate::renderers::braille::{lemma_braille_art_shape, spec_braille_art, BrailleArtConverter};
use crate::utils::pixels::{PixelImage, PixelLayout, Raster};
use crate::utils::resize::{
    check_custom_resize, custom_resize_fits, default_font_ratio, is_custom_resized,
    spec_default_font_ratio, CustomRatioResize, FontRatio, ResizeFilter,
};
use crate::utils::text::reverse_string;
use crate::utils::threshold::{check_threshold_fits, is_thresholded, threshold_fits};
use vstd::prelude::*;

verus! {

/// Reverses the ramp where asked to.
pub fn generate_ascii_string(ascii_string: String, reversed: bool) -> (result: String)
    ensures
        result@ == if reversed {
            ascii_string@.reverse()
        } else {
            ascii_string@
        },
{
    if reversed {
        return reverse_string(ascii_string.as_str());
    }
    ascii_string
}

/// The paths to play: the arguments as they were given.
pub fn get_paths(input: Vec<String>) -> (paths: Vec<String>)
    ensures
        paths == input,
{
    input
}

/// Options of the player.
#[derive(Debug, Clone, PartialEq, Eq, Hash)]
pub struct AsciiPlayerOptions {
    /// Width to resize the images to.
    pub width: Option<u32>,
    /// Height to resize the images to.
    pub height: Option<u32>,
    /// The ramp: glyphs from the darkest to the lightest.
    pub ascii_string: String,
    /// Whether the frames are printed in colour.
    pub colored: bool,
    /// Milliseconds that every frame stays.
    pub frame_time: u64,
    /// Whether all frames are rendered before the first is shown.
    pub pre_render: bool,
    /// Shape of the font's cell, for resizing.
    pub font_ratio: FontRatio,
    /// Whether the sequence starts over when it has ended.
    pub looped: bool,
    /// Kernel for resizing.
    pub filter: ResizeFilter,
    /// Block radius of the adaptive threshold, where one is applied.
    pub threshold: Option<u32>,
    /// Whether the frames are made of Braille patterns.
    pub braille: bool,
    /// Text that fills the light pixels, where the frames are silhouettes.
    pub background_string: Option<String>,
}

impl Default for AsciiPlayerOptions {
    fn default() -> (options: AsciiPlayerOptions)
        ensures
            options.width is None,
            options.height is None,
            options.ascii_string@ == DEFAULT_ASCII_STRING@,
            !options.colored,
            options.frame_time == 0,
            !options.pre_render,
            options.font_ratio == spec_default_font_ratio(),
            !options.looped,
            options.filter == ResizeFilter::Triangle,
            options.threshold is None,
            !options.braille,
            options.background_string is None,
    {
        AsciiPlayerOptions {
            width: None,
            height: None,
            ascii_string: DEFAULT_ASCII_STRING.to_owned(),
            colored: false,
            frame_time: 0,
            pre_render: false,
            font_ratio: default_font_ratio(),
            looped: false,
            filter: ResizeFilter::Triangle,
            threshold: None,
            braille: false,
            background_string: None,
        }
    }
}

impl From<AsciiPlayerOptions> for AsciiArtConverterOptions {
    fn from(o: AsciiPlayerOptions) -> (options: AsciiArtConverterOptions) {
        AsciiArtConverterOptions { ascii_string: o.ascii_string, colored: o.colored }
    }
}

impl vstd::std_specs::convert::FromSpecImpl<AsciiPlayerOptions> for AsciiArtConverterOptions {
    open spec fn obeys_from_spec() -> bool {
        true
    }

    open spec fn from_spec(o: AsciiPlayerOptions) -> AsciiArtConverterOptions {
        AsciiArtConverterOptions { ascii_string: o.ascii_string, colored: o.colored }
    }
}

/// The error of the `image` crate, carried as it is.
#[verifier::external_type_specification]
#[verifier::external_body]
pub struct ExImageError(image::ImageError);

/// Why a frame could not be played.
#[derive(Debug)]
pub enum AsciiPlayerError {
    /// The image could not be read or decoded.
    Image(image::ImageError),
    /// The image could not be converted.
    AsciiConverter(AsciiArtConverterError),
}

/// Calls the `Display` of `image::ImageError`, which words the error.
#[verifier::external_body]
fn image_error_text(err: &image::ImageError) -> (text: String) {
    err.to_string()
}

impl AsciiPlayerError {
    /// The error in words: its kind, then the message of the error inside.
    pub fn to_string(&self) -> (message: String)
        ensures
            self is Image ==> "Image error: "@.is_prefix_of(message@),
            self matches AsciiPlayerError::AsciiConverter(err) ==> message@
                == "ASCII art converter error: "@ + err.spec_to_string(),
    {
        match self {
            AsciiPlayerError::Image(err) => {
                let mut message = "Image error: ".to_owned();
                message.append(image_error_text(err).as_str());
                message
            },
            AsciiPlayerError::AsciiConverter(err) => {
                let mut message = "ASCII art converter error: ".to_owned();
                message.append(err.to_string().as_str());
                message
            },
        }
    }
}

impl From<image::ImageError> for AsciiPlayerError {
    fn from(err: image::ImageError) -> (error: AsciiPlayerError) {
        AsciiPlayerError::Image(err)
    }
}

impl vstd::std_specs::convert::FromSpecImpl<image::ImageError> for AsciiPlayerError {
    open spec fn obeys_from_spec() -> bool {
        true
    }

    open spec fn from_spec(err: image::ImageError) -> AsciiPlayerError {
        AsciiPlayerError::Image(err)
    }
}

impl From<AsciiArtConverterError> for AsciiPlayerError {
    fn from(err: AsciiArtConverterError) -> (error: AsciiPlayerError) {
        AsciiPlayerError::AsciiConverter(err)
    }
}

impl vstd::std_specs::convert::FromSpecImpl<AsciiArtConverterError> for AsciiPlayerError {
    open spec fn obeys_from_spec() -> bool {
        true
    }

    open spec fn from_spec(err: AsciiArtConverterError) -> AsciiPlayerError {
        AsciiPlayerError::AsciiConverter(err)
    }
}

impl From<AsciiStringError> for AsciiPlayerError {
    fn from(err: AsciiStringError) -> (error: AsciiPlayerError) {
        AsciiPlayerError::AsciiConverter(AsciiArtConverterError::AsciiStringError(err))
    }
}

impl vstd::std_specs::convert::FromSpecImpl<AsciiStringError> for AsciiPlayerError {
    open spec fn obeys_from_spec() -> bool {
        true
    }

    open spec fn from_spec(err: AsciiStringError) -> AsciiPlayerError {
        AsciiPlayerError::AsciiConverter(AsciiArtConverterError::AsciiStringError(err))
    }
}

impl From<SizeError> for AsciiPlayerError {
    fn from(err: SizeError) -> (error: AsciiPlayerError) {
        AsciiPlayerError::AsciiConverter(AsciiArtConverterError::SizeError(err))
    }
}

impl vstd::std_specs::convert::FromSpecImpl<SizeError> for AsciiPlayerError {
    open spec fn obeys_from_spec() -> bool {
        true
    }

    open spec fn from_spec(err: SizeError) -> AsciiPlayerError {
        AsciiPlayerError::AsciiConverter(AsciiArtConverterError::SizeError(err))
    }
}

/// Whether `prepared` is an image that a frame is made from: the source,
/// thresholded where the options ask for it, then resized to the options'
/// targets.
pub open spec fn is_prepared(source: Raster, options: AsciiPlayerOptions, prepared: Raster) -> bool {
    match options.threshold {
        Some(block_radius) => exists|processed: Raster| #[trigger]
            is_thresholded(source, block_radius, processed) && is_custom_resized(
                processed,
                options.width,
                options.height,
                options.font_ratio,
                options.filter,
                prepared,
            ),
        None => is_custom_resized(
            source,
            options.width,
            options.height,
            options.font_ratio,
            options.filter,
            prepared,
        ),
    }
}

/// The layout of the source when it is resized: grey after a threshold.
pub open spec fn processed_layout(source: Raster, options: AsciiPlayerOptions) -> PixelLayout {
    if options.threshold is Some {
        PixelLayout::Luma
    } else {
        source.layout
    }
}

/// The frame that a prepared image gives: a silhouette where the options
/// hold a text, else Braille patterns where they ask for them, else glyphs of
/// the ramp.
pub open spec fn spec_render(
    prepared: Raster,
    options: AsciiPlayerOptions,
    converter_options: AsciiArtConverterOptions,
) -> Result<Frame, AsciiPlayerError> {
    match options.background_string {
        Some(text) => match spec_background_string_art(prepared, text@, options.colored) {
            Ok(frame) => Ok(frame),
            Err(error) => Err(
                AsciiPlayerError::AsciiConverter(AsciiArtConverterError::SizeError(error)),
            ),
        },
        None => if options.braille {
            match spec_braille_art(prepared, options.colored) {
                Ok(frame) => Ok(frame),
                Err(error) => Err(
                    AsciiPlayerError::AsciiConverter(AsciiArtConverterError::SizeError(error)),
                ),
            }
        } else {
            match spec_ascii_art(
                prepared,
                converter_options.ascii_string@,
                converter_options.colored,
            ) {
                Ok(frame) => Ok(frame),
                Err(error) => Err(AsciiPlayerError::AsciiConverter(error)),
            }
        },
    }
}

/// Whether an image can be thresholded and resized as the options say
/// within the machine's limits.
pub open spec fn can_prepare_frame(source: Raster, options: AsciiPlayerOptions) -> bool {
    &&& options.threshold matches Some(block_radius) ==> threshold_fits(
        source.width,
        source.height,
        block_radius,
    )
    &&& custom_resize_fits(
        processed_layout(source, options),
        source.width,
        source.height,
        options.width,
        options.height,
        options.font_ratio,
    )
}

/// Whether the options' text can fill the silhouette of a prepared image: an
/// empty text can only where no pixel is light.
pub open spec fn text_fits(prepared: Raster, options: AsciiPlayerOptions) -> bool {
    options.background_string matches Some(text) ==> text@.len() > 0 || !has_lit_pixel(prepared)
}

/// Whether a frame can be rendered from an image: the image can be
/// prepared, and the options' text can fill whatever comes of it.
pub open spec fn can_render_frame(source: Raster, options: AsciiPlayerOptions) -> bool {
    &&& can_prepare_frame(source, options)
    &&& forall|prepared: Raster| #[trigger]
        is_prepared(source, options, prepared) ==> text_fits(prepared, options)
}

/// What rendering gives where it is tried on any image and any options:
/// nothing where the image cannot be prepared or the text cannot fill it,
/// else the frame or the error of the conversion.
pub open spec fn is_tried_render(
    source: Raster,
    options: AsciiPlayerOptions,
    converter_options: AsciiArtConverterOptions,
    result: Option<Result<AsciiArt, AsciiPlayerError>>,
) -> bool {
    if can_prepare_frame(source, options) {
        exists|prepared: Raster| #[trigger]
            is_prepared(source, options, prepared) && if text_fits(prepared, options) {
                result matches Some(rendered) && is_frame_result(
                    rendered,
                    spec_render(prepared, options, converter_options),
                )
            } else {
                result is None
            }
    } else {
        result is None
    }
}

/// What the player is asked to do next.
#[derive(Debug, Clone, Copy, PartialEq, Eq, Hash, Structural)]
pub enum PlayerAction {
    /// Render every source, in any order, and keep the frames in the order
    /// of the sources.
    RenderAll,
    /// Render the source at `index`. The frame's time starts now.
    Render { index: usize },
    /// Show the frame of the source at `index`: where `rewind` is set, move
    /// the cursor up by the frame's height first; print the frame; then wait
    /// until the frame's time is over. Where the frames were rendered
    /// beforehand, the frame's time starts with this step.
    Show { index: usize, rewind: bool },
    /// There is nothing to show in this pass.
    Idle,
    /// The playback has ended.
    Finish,
    /// The playback has ended because a step failed.
    Abort,
}

/// How the step that the player asked for went.
#[derive(Debug, Clone, Copy, PartialEq, Eq, Hash, Structural)]
pub enum PlayerEvent {
    /// It was carried out.
    Done,
    /// It failed.
    Failed,
}

/// Where a playback stands.
#[derive(Debug, Clone, Copy, PartialEq, Eq, Hash, Structural)]
pub struct PlayerState {
    /// Number of sources.
    pub frames: usize,
    /// Whether all frames are rendered before the first is shown.
    pub pre_render: bool,
    /// Whether the sequence starts over when it has ended.
    pub looped: bool,
    /// Whether no frame has been shown yet.
    pub first_frame: bool,
    /// The step that is asked for now.
    pub action: PlayerAction,
}

impl PlayerState {
    /// Whether the step that is asked for is about one of the sources: a
    /// frame to render or to show has a number below the number of sources.
    pub open spec fn in_range(self) -> bool {
        match self.action {
            PlayerAction::Render { index } => index < self.frames,
            PlayerAction::Show { index, rewind } => index < self.frames,
            _ => true,
        }
    }

    /// Whether the playback has ended, for good or by a failure.
    pub open spec fn has_ended(self) -> bool {
        self.action is Finish || self.action is Abort
    }

    /// The state at the start of a pass over the sources: the first source
    /// is rendered or shown; without sources the pass is idle, or the
    /// playback over.
    pub open spec fn spec_begin_pass(self) -> PlayerState {
        if self.frames == 0 {
            if self.looped {
                PlayerState { action: PlayerAction::Idle, ..self }
            } else {
                PlayerState { action: PlayerAction::Finish, ..self }
            }
        } else if self.pre_render {
            PlayerState {
                action: PlayerAction::Show { index: 0, rewind: !self.first_frame },
                first_frame: false,
                ..self
            }
        } else {
            PlayerState { action: PlayerAction::Render { index: 0 }, ..self }
        }
    }

    /// The state at the end of a pass over the sources: a new pass where the
    /// playback is looped, else the end.
    pub open spec fn spec_end_pass(self) -> PlayerState {
        if self.looped {
            self.spec_begin_pass()
        } else {
            PlayerState { action: PlayerAction::Finish, ..self }
        }
    }

    /// The state after the frame at `index` has been shown: the next source
    /// is shown, with rewinding, where the frames were rendered beforehand,
    /// and rendered where they were not; after the last source the pass ends.
    pub open spec fn spec_after_show(self, index: usize) -> PlayerState {
        if index + 1 >= self.frames {
            self.spec_end_pass()
        } else if self.pre_render {
            PlayerState {
                action: PlayerAction::Show { index: (index + 1) as usize, rewind: true },
                ..self
            }
        } else {
            PlayerState { action: PlayerAction::Render { index: (index + 1) as usize }, ..self }
        }
    }

    /// The state after the step that was asked for. A playback that has
    /// ended stays as it is, and a failure ends it. When all frames are
    /// rendered, the first pass begins. A frame that was rendered is shown,
    /// without rewinding if it is the very first to be shown.
    pub open spec fn spec_step(self, event: PlayerEvent) -> PlayerState {
        match (self.action, event) {
            (PlayerAction::Finish, _) | (PlayerAction::Abort, _) => self,
            (_, PlayerEvent::Failed) => PlayerState { action: PlayerAction::Abort, ..self },
            (PlayerAction::RenderAll, PlayerEvent::Done) => self.spec_begin_pass(),
            (PlayerAction::Render { index }, PlayerEvent::Done) => PlayerState {
                action: PlayerAction::Show { index, rewind: !self.first_frame },
                first_frame: false,
                ..self
            },
            (PlayerAction::Show { index, rewind }, PlayerEvent::Done) => self.spec_after_show(index),
            (PlayerAction::Idle, PlayerEvent::Done) => self.spec_end_pass(),
        }
    }

    /// The state after a number of steps that were all carried out.
    pub open spec fn after(self, steps: nat) -> PlayerState
        decreases steps,
    {
        if steps == 0 {
            self
        } else {
            self.after((steps - 1) as nat).spec_step(PlayerEvent::Done)
        }
    }

    /// Ends a pass over the sources.
    fn end_pass(self) -> (next: PlayerState)
        ensures
            next == self.spec_end_pass(),
    {
        if self.looped {
            self.begin_pass()
        } else {
            PlayerState { action: PlayerAction::Finish, ..self }
        }
    }

    /// Starts a pass over the sources.
    fn begin_pass(self) -> (next: PlayerState)
        ensures
            next == self.spec_begin_pass(),
    {
        if self.frames == 0 {
            if self.looped {
                PlayerState { action: PlayerAction::Idle, ..self }
            } else {
                PlayerState { action: PlayerAction::Finish, ..self }
            }
        } else if self.pre_render {
            PlayerState {
                action: PlayerAction::Show { index: 0, rewind: !self.first_frame },
                first_frame: false,
                ..self
            }
        } else {
            PlayerState { action: PlayerAction::Render { index: 0 }, ..self }
        }
    }
}

/// The start of a playback that renders each frame just before it is shown.
pub open spec fn spec_play_frames(frames: usize, looped: bool) -> PlayerState {
    (PlayerState {
        frames,
        pre_render: false,
        looped,
        first_frame: true,
        action: PlayerAction::Idle,
    }).spec_begin_pass()
}

/// The start of a playback that renders all frames before the first is
/// shown.
pub open spec fn spec_play_pre_rendered_frames(frames: usize, looped: bool) -> PlayerState {
    PlayerState {
        frames,
        pre_render: true,
        looped,
        first_frame: true,
        action: PlayerAction::RenderAll,
    }
}

/// Every frame that the player renders has one cell for each position and no
/// dimension of zero; and an image without pixels gives the size error in
/// every mode.
pub proof fn lemma_render_shape(
    prepared: Raster,
    options: AsciiPlayerOptions,
    converter_options: AsciiArtConverterOptions,
)
    ensures
        spec_render(prepared, options, converter_options) matches Ok(frame) ==> frame.wf(),
        prepared.width == 0 || prepared.height == 0 ==> spec_render(
            prepared,
            options,
            converter_options,
        ) == Err::<Frame, AsciiPlayerError>(
            AsciiPlayerError::AsciiConverter(AsciiArtConverterError::SizeError(SizeError)),
        ),
{
    lemma_braille_art_shape(prepared, options.colored);
}

/// A playback that is not looped and renders its frames beforehand asks
/// for all frames to be rendered, then shows each frame once, in the order of
/// the sources, without rewinding before the first and with rewinding before
/// every other; then it ends.
pub proof fn lemma_pre_rendered_playback_order(frames: usize, shown: nat)
    requires
        shown <= frames,
    ensures
        spec_play_pre_rendered_frames(frames, false).action == PlayerAction::RenderAll,
        shown < frames ==> spec_play_pre_rendered_frames(frames, false).after(shown + 1).action
            == (PlayerAction::Show { index: shown as usize, rewind: shown > 0 }),
        shown == frames ==> spec_play_pre_rendered_frames(frames, false).after(shown + 1).action
            == PlayerAction::Finish,
    decreases shown,
{
    let start = spec_play_pre_rendered_frames(frames, false);
    reveal_with_fuel(PlayerState::after, 2);
    if shown == 0 {
        assert(start.after(0) == start);
    } else {
        lemma_pre_rendered_playback_order(frames, (shown - 1) as nat);
        let before = start.after(shown as nat);
        assert(before.frames == frames && before.pre_render && !before.looped) by {
            lemma_playback_keeps_its_mode(start, shown as nat);
        }
    }
}

/// A playback that is not looped and renders each frame just before it is
/// shown asks, for each source in order, for the frame to be rendered and then
/// shown, without rewinding before the first and with rewinding before every
/// other; then it ends.
pub proof fn lemma_streamed_playback_order(frames: usize, shown: nat)
    requires
        shown <= frames,
    ensures
        shown < frames ==> spec_play_frames(frames, false).after(2 * shown).action
            == (PlayerAction::Render { index: shown as usize }),
        shown < frames ==> spec_play_frames(frames, false).after(2 * shown).first_frame == (shown
            == 0),
        shown < frames ==> spec_play_frames(frames, false).after(2 * shown + 1).action
            == (PlayerAction::Show { index: shown as usize, rewind: shown > 0 }),
        shown == frames ==> spec_play_frames(frames, false).after(2 * shown).action
            == PlayerAction::Finish,
    decreases shown,
{
    let start = spec_play_frames(frames, false);
    reveal_with_fuel(PlayerState::after, 3);
    if shown == 0 {
        assert(start.after(0) == start);
    } else {
        lemma_streamed_playback_order(frames, (shown - 1) as nat);
        let rendered = start.after((2 * (shown - 1)) as nat);
        let showing = start.after((2 * (shown - 1) + 1) as nat);
        lemma_playback_keeps_its_mode(start, (2 * (shown - 1)) as nat);
        lemma_playback_keeps_its_mode(start, (2 * (shown - 1) + 1) as nat);
        lemma_playback_keeps_its_mode(start, (2 * shown) as nat);
        assert(showing == rendered.spec_step(PlayerEvent::Done));
        assert(start.after((2 * shown) as nat) == showing.spec_step(PlayerEvent::Done));
        if shown < frames {
            assert(start.after((2 * shown + 1) as nat) == start.after((2 * shown) as nat).spec_step(
                PlayerEvent::Done,
            ));
        }
    }
}

/// A playback starts with a step that is about one of its sources, and every
/// step leads to another such step: the player never asks for a frame that is
/// not there.
pub proof fn lemma_playback_stays_in_range(state: PlayerState, event: PlayerEvent)
    ensures
        spec_play_frames(state.frames, state.looped).in_range(),
        spec_play_pre_rendered_frames(state.frames, state.looped).in_range(),
        state.in_range() ==> state.spec_step(event).in_range(),
{
}

/// A looped playback goes on for as long as no step fails.
pub proof fn lemma_looped_playback_goes_on(state: PlayerState)
    requires
        state.looped,
        !state.has_ended(),
    ensures
        !state.spec_step(PlayerEvent::Done).has_ended(),
{
}

/// A failure ends the playback, and a playback that has ended stays as it is.
pub proof fn lemma_playback_ends_for_good(state: PlayerState, event: PlayerEvent)
    ensures
        !state.has_ended() ==> state.spec_step(PlayerEvent::Failed).action == PlayerAction::Abort,
        state.has_ended() ==> state.spec_step(event) == state,
{
}

/// No step changes the number of sources or the mode of a playback.
pub proof fn lemma_playback_keeps_its_mode(start: PlayerState, steps: nat)
    ensures
        start.after(steps).frames == start.frames,
        start.after(steps).pre_render == start.pre_render,
        start.after(steps).looped == start.looped,
    decreases steps,
{
    if steps > 0 {
        lemma_playback_keeps_its_mode(start, (steps - 1) as nat);
    }
}

/// The player: it renders images into frames and decides, step by step, what
/// a playback does next.
#[derive(Debug, Default, Clone, Copy, PartialEq, Eq, Hash)]
pub struct AsciiPlayer {}

impl AsciiPlayer {
    /// Reverses a ramp.
    pub fn reverse_ascii_string(ascii_string: String) -> (result: String)
        ensures
            result@ == ascii_string@.reverse(),
    {
        reverse_string(ascii_string.as_str())
    }

    /// Tests whether the image can be thresholded and resized as the options
    /// say.
    pub fn can_prepare(img: &PixelImage, options: &AsciiPlayerOptions) -> (fits: bool)
        ensures
            fits == can_prepare_frame(img@, *options),
    {
        match options.threshold {
            Some(block_radius) => check_threshold_fits(img.width(), img.height(), block_radius)
                && check_custom_resize(
                PixelLayout::Luma,
                img.width(),
                img.height(),
                options.width,
                options.height,
                options.font_ratio,
            ),
            None => img.fits_custom_ratio(options.width, options.height, options.font_ratio),
        }
    }

    /// Prepares an image for conversion: thresholds it where the options ask
    /// for it, then resizes it to the options' targets.
    pub fn prepare_frame(img: &PixelImage, options: &AsciiPlayerOptions) -> (prepared: PixelImage)
        requires
            can_prepare_frame(img@, *options),
        ensures
            is_prepared(img@, *options, prepared@),
    {
        match options.threshold {
            Some(threshold) => {
                let processed_img = img.adaptive_threshold(threshold);
                assert(is_thresholded(img@, threshold, processed_img@));
                processed_img.resize_custom_ratio(
                    options.width,
                    options.height,
                    options.font_ratio,
                    options.filter,
                )
            },
            None => img.resize_custom_ratio(
                options.width,
                options.height,
                options.font_ratio,
                options.filter,
            ),
        }
    }

    /// Renders a frame from an image as the options say: threshold, resize,
    /// convert.
    pub fn render_frame(
        img: &PixelImage,
        options: &AsciiPlayerOptions,
        converter_options: &AsciiArtConverterOptions,
    ) -> (result: Result<AsciiArt, AsciiPlayerError>)
        requires
            can_render_frame(img@, *options),
        ensures
            exists|prepared: Raster|
                #![trigger is_prepared(img@, *options, prepared)]
                is_prepared(img@, *options, prepared) && is_frame_result(
                    result,
                    spec_render(prepared, *options, *converter_options),
                ),
            result matches Ok(art) ==> art@.wf(),
    {
        let prepared_img = AsciiPlayer::prepare_frame(img, options);
        assert(is_prepared(img@, *options, prepared_img@));
        AsciiPlayer::render_prepared(&prepared_img, options, converter_options)
    }

    /// Renders a frame from any image with any options, where that can be
    /// done: the same as [`AsciiPlayer::render_frame`], and nothing where
    /// the image cannot be prepared within the machine's limits or an empty
    /// text meets a light pixel.
    pub fn try_render_frame(
        img: &PixelImage,
        options: &AsciiPlayerOptions,
        converter_options: &AsciiArtConverterOptions,
    ) -> (result: Option<Result<AsciiArt, AsciiPlayerError>>)
        ensures
            is_tried_render(img@, *options, *converter_options, result),
            result matches Some(Ok(art)) ==> art@.wf(),
    {
        if !AsciiPlayer::can_prepare(img, options) {
            return None;
        }
        let empty_text = match &options.background_string {
            Some(text) => text.as_str().unicode_len() == 0,
            None => false,
        };
        if empty_text {
            let prepared_img = AsciiPlayer::prepare_frame(img, options);
            assert(is_prepared(img@, *options, prepared_img@));
            if prepared_img.has_light_pixel() {
                return None;
            }
            Some(AsciiPlayer::render_prepared(&prepared_img, options, converter_options))
        } else {
            Some(AsciiPlayer::render_frame(img, options, converter_options))
        }
    }

    /// Converts an image that has been thresholded and resized already.
    pub fn render_prepared(
        prepared: &PixelImage,
        options: &AsciiPlayerOptions,
        converter_options: &AsciiArtConverterOptions,
    ) -> (result: Result<AsciiArt, AsciiPlayerError>)
        requires
            text_fits(prepared@, *options),
        ensures
            is_frame_result(result, spec_render(prepared@, *options, *converter_options)),
            result matches Ok(art) ==> art@.wf(),
    {
        match &options.background_string {
            Some(background_string) => {
                match prepared.background_string_art(background_string.as_str(), options.colored) {
                    Ok(art) => Ok(art),
                    Err(error) => Err(
                        AsciiPlayerError::AsciiConverter(AsciiArtConverterError::SizeError(error)),
                    ),
                }
            },
            None => {
                if options.braille {
                    match prepared.braille_art(options.colored) {
                        Ok(art) => Ok(art),
                        Err(error) => Err(
                            AsciiPlayerError::AsciiConverter(
                                AsciiArtConverterError::SizeError(error),
                            ),
                        ),
                    }
                } else {
                    match prepared.ascii_art(converter_options) {
                        Ok(art) => Ok(art),
                        Err(error) => Err(AsciiPlayerError::AsciiConverter(error)),
                    }
                }
            },
        }
    }

    /// Starts a playback of `frames` sources that renders each frame just
    /// before it is shown.
    pub fn play_frames(frames: usize, options: &AsciiPlayerOptions) -> (state: PlayerState)
        ensures
            state == spec_play_frames(frames, options.looped),
            state.in_range(),
    {
        (PlayerState {
            frames,
            pre_render: false,
            looped: options.looped,
            first_frame: true,
            action: PlayerAction::Idle,
        }).begin_pass()
    }

    /// Starts a playback of `frames` sources that renders all frames before
    /// the first is shown.
    pub fn play_pre_rendered_frames(frames: usize, options: &AsciiPlayerOptions) -> (state:
        PlayerState)
        ensures
            state == spec_play_pre_rendered_frames(frames, options.looped),
            state.in_range(),
    {
        PlayerState {
            frames,
            pre_render: true,
            looped: options.looped,
            first_frame: true,
            action: PlayerAction::RenderAll,
        }
    }

    /// Starts a playback of `frames` sources in the mode that the options
    /// choose.
    pub fn play(frames: usize, options: &AsciiPlayerOptions) -> (state: PlayerState)
        ensures
            state == if options.pre_render {
                spec_play_pre_rendered_frames(frames, options.looped)
            } else {
                spec_play_frames(frames, options.looped)
            },
            state.in_range(),
    {
        if options.pre_render {
            return AsciiPlayer::play_pre_rendered_frames(frames, options);
        }
        AsciiPlayer::play_frames(frames, options)
    }

    /// Takes the playback one step on, given how the step that was asked
    /// for went.
    pub fn step(state: PlayerState, event: PlayerEvent) -> (next: PlayerState)
        ensures
            next == state.spec_step(event),
            state.in_range() ==> next.in_range(),
    {
        if let PlayerAction::Finish = state.action {
            return state;
        }
        if let PlayerAction::Abort = state.action {
            return state;
        }
        if let PlayerEvent::Failed = event {
            return PlayerState { action: PlayerAction::Abort, ..state };
        }
        match state.action {
            PlayerAction::Render { index } => PlayerState {
                action: PlayerAction::Show { index, rewind: !state.first_frame },
                first_frame: false,
                ..state
            },
            PlayerAction::Show { index, rewind: _ } => {
                if state.frames == 0 || index >= state.frames - 1 {
                    state.end_pass()
                } else if state.pre_render {
                    PlayerState {
                        action: PlayerAction::Show { index: index + 1, rewind: true },
                        ..state
                    }
                } else {
                    PlayerState { action: PlayerAction::Render { index: index + 1 }, ..state }
                }
            },
            PlayerAction::RenderAll => state.begin_pass(),
            _ => state.end_pass(),
        }
    }

    /// Whether a frame has stayed for its time: `elapsed` milliseconds have
    /// passed since the frame's time started, and it stays for `frame_time`.
    pub fn frame_is_over(frame_time: u64, elapsed: u128) -> (over: bool)
        ensures
            over == (elapsed >= frame_time),
    {
        elapsed >= frame_time as u128
    }

    /// The number of lines that the cursor moves up before a frame of the
    /// given height is printed over the one before it, if the terminal can be
    /// told so many.
    pub fn rewind_distance(height: u32) -> (lines: Option<u16>)
        ensures
            height <= u16::MAX ==> lines == Some(height as u16),
            height > u16::MAX ==> lines is None,
    {
        if height <= u16::MAX as u32 {
            Some(height as u16)
        } else {
            None
        }
    }
}

} // verus!
