//! Export settings that a project keeps under a name.
use crate::text;
use crate::text::characters;
use vstd::prelude::*;
use vstd::string::{StrSliceExecFns, StringExecFns};

verus! {

/// How long a written palette can be, in bytes.
pub const MAX_CUSTOM_PALETTE_TEXT_BYTES: usize = 4_096;

/// Which frames are exported.
#[derive(Clone, Copy, Debug, PartialEq, Eq, Structural)]
pub enum ExportFrameScope {
    /// Every frame.
    All,
    /// The selected frames.
    Selected,
}

/// How the colours are chosen.
#[derive(Clone, Copy, Debug, PartialEq, Eq, Structural)]
pub enum ExportQuantizerChoice {
    /// Splits the colours at their median.
    MedianCut,
    /// Merges neighbours in an octree.
    Octree,
    /// Splits the colours by variance.
    Wu,
    /// Uses grays only.
    Grayscale,
    /// Takes the most frequent colours.
    MostUsed,
    /// Trains a small network on the colours.
    NeuQuant,
    /// Uses the fixed palette of the early web.
    WebSafe216,
    /// Uses the fixed palette of sixteen colours.
    Windows16,
    /// Uses black and white.
    Monochrome,
    /// Uses a palette that was written down.
    Custom,
}

/// How colours between the chosen ones are drawn.
#[derive(Clone, Copy, Debug, PartialEq, Eq, Structural)]
pub enum ExportDitherChoice {
    /// Takes the nearest colour.
    Off,
    /// Uses an ordered matrix.
    Bayer,
    /// Uses a dotted matrix.
    Dotted,
    /// Uses blue noise.
    BlueNoise,
    /// Uses interleaved noise.
    InterleavedNoise,
    /// Spreads the error to later pixels.
    FloydSteinberg,
    /// Spreads the error to later pixels.
    Atkinson,
    /// Spreads the error to later pixels.
    Burkes,
    /// Spreads the error to later pixels.
    Sierra,
    /// Spreads the error to later pixels.
    SierraLite,
    /// Spreads the error to later pixels.
    TwoRowSierra,
    /// Spreads the error to later pixels.
    JarvisJudiceNinke,
    /// Spreads the error to later pixels.
    Stucki,
    /// Spreads the error to later pixels.
    StevensonArce,
}

/// Where palettes stand.
#[derive(Clone, Copy, Debug, PartialEq, Eq, Structural)]
pub enum ExportPaletteChoice {
    /// One for each frame.
    Local,
    /// One for all frames.
    Global,
}

/// How often the animation is shown.
#[derive(Clone, Copy, Debug, PartialEq, Eq, Structural)]
pub enum ExportLoopChoice {
    /// Without end.
    Infinite,
    /// As often as is written down.
    Finite,
}

/// Where palettes stand in a preset.
#[derive(Clone, Copy, Debug, PartialEq, Eq, Structural)]
pub enum GifPaletteStrategy {
    /// One for each frame.
    PerFrame,
    /// One for all frames.
    Global,
    /// One for each frame that needs it.
    Adaptive,
}

/// How often the animation of a preset is shown.
#[derive(Clone, Copy, Debug, PartialEq, Eq, Structural)]
pub enum GifLoop {
    /// Without end.
    Infinite,
    /// As often.
    Finite(u16),
}

/// What newer presets keep besides.
#[derive(Clone, Debug, PartialEq, Eq)]
pub struct GifPresetOptions {
    /// Version of these options.
    pub version: u32,
    /// Which frames are exported.
    pub frame_scope: ExportFrameScope,
    /// How the colours are chosen.
    pub quantizer: ExportQuantizerChoice,
    /// How colours between them are drawn.
    pub dither: ExportDitherChoice,
    /// Whether only changes are stored.
    pub delta: bool,
    /// The written palette.
    pub custom_palette_text: String,
    /// Whether a colour of it is transparent.
    pub custom_transparency_enabled: bool,
    /// Which.
    pub custom_transparent_index: u8,
    /// How often the animation is shown where it ends.
    pub finite_loop_count: u16,
}

/// Export settings under a name.
#[derive(Clone, Debug, PartialEq, Eq)]
pub struct GifExportPreset {
    /// How many colours there can be.
    pub colors: u16,
    /// Where palettes stand.
    pub palette: GifPaletteStrategy,
    /// How often the animation is shown.
    pub repeat: GifLoop,
    /// From which opacity pixels are drawn.
    pub alpha_threshold: u8,
    /// What newer presets keep besides.
    pub options: Option<GifPresetOptions>,
}

/// The export settings on show.
#[derive(Clone, Debug, PartialEq, Eq)]
pub struct EditorExportSettings {
    /// Which frames are exported.
    pub frame_scope: ExportFrameScope,
    /// How many colours there can be.
    pub max_colors: u16,
    /// Where palettes stand.
    pub palette: ExportPaletteChoice,
    /// How the colours are chosen.
    pub quantizer: ExportQuantizerChoice,
    /// The written palette.
    pub custom_palette_text: String,
    /// Whether a colour of it is transparent.
    pub custom_transparency_enabled: bool,
    /// Which.
    pub custom_transparent_index: u8,
    /// How colours between the chosen ones are drawn.
    pub dither: ExportDitherChoice,
    /// Whether only changes are stored.
    pub delta: bool,
    /// From which opacity pixels are drawn.
    pub alpha_threshold: u8,
    /// How often the animation is shown.
    pub loop_choice: ExportLoopChoice,
    /// How often, where it ends.
    pub finite_loop_count: u16,
    /// Whether an existing file may be replaced.
    pub overwrite: bool,
}

/// What [`GifPresetOptions`] say.
pub struct OptionsView {
    /// Version of these options.
    pub version: u32,
    /// Which frames are exported.
    pub frame_scope: ExportFrameScope,
    /// How the colours are chosen.
    pub quantizer: ExportQuantizerChoice,
    /// How colours between them are drawn.
    pub dither: ExportDitherChoice,
    /// Whether only changes are stored.
    pub delta: bool,
    /// The written palette.
    pub custom_palette_text: Seq<char>,
    /// Whether a colour of it is transparent.
    pub custom_transparency_enabled: bool,
    /// Which.
    pub custom_transparent_index: u8,
    /// How often the animation is shown where it ends.
    pub finite_loop_count: u16,
}

/// What a [`GifExportPreset`] says.
pub struct PresetView {
    /// How many colours there can be.
    pub colors: u16,
    /// Where palettes stand.
    pub palette: GifPaletteStrategy,
    /// How often the animation is shown.
    pub repeat: GifLoop,
    /// From which opacity pixels are drawn.
    pub alpha_threshold: u8,
    /// What newer presets keep besides.
    pub options: Option<OptionsView>,
}

/// What [`EditorExportSettings`] say.
pub struct SettingsView {
    /// Which frames are exported.
    pub frame_scope: ExportFrameScope,
    /// How many colours there can be.
    pub max_colors: u16,
    /// Where palettes stand.
    pub palette: ExportPaletteChoice,
    /// How the colours are chosen.
    pub quantizer: ExportQuantizerChoice,
    /// The written palette.
    pub custom_palette_text: Seq<char>,
    /// Whether a colour of it is transparent.
    pub custom_transparency_enabled: bool,
    /// Which.
    pub custom_transparent_index: u8,
    /// How colours between the chosen ones are drawn.
    pub dither: ExportDitherChoice,
    /// Whether only changes are stored.
    pub delta: bool,
    /// From which opacity pixels are drawn.
    pub alpha_threshold: u8,
    /// How often the animation is shown.
    pub loop_choice: ExportLoopChoice,
    /// How often, where it ends.
    pub finite_loop_count: u16,
    /// Whether an existing file may be replaced.
    pub overwrite: bool,
}

impl View for GifPresetOptions {
    type V = OptionsView;

    open spec fn view(&self) -> OptionsView {
        OptionsView {
            version: self.version,
            frame_scope: self.frame_scope,
            quantizer: self.quantizer,
            dither: self.dither,
            delta: self.delta,
            custom_palette_text: self.custom_palette_text@,
            custom_transparency_enabled: self.custom_transparency_enabled,
            custom_transparent_index: self.custom_transparent_index,
            finite_loop_count: self.finite_loop_count,
        }
    }
}

impl View for GifExportPreset {
    type V = PresetView;

    open spec fn view(&self) -> PresetView {
        PresetView {
            colors: self.colors,
            palette: self.palette,
            repeat: self.repeat,
            alpha_threshold: self.alpha_threshold,
            options: match self.options {
                Some(options) => Some(options@),
                None => None,
            },
        }
    }
}

impl View for EditorExportSettings {
    type V = SettingsView;

    open spec fn view(&self) -> SettingsView {
        SettingsView {
            frame_scope: self.frame_scope,
            max_colors: self.max_colors,
            palette: self.palette,
            quantizer: self.quantizer,
            custom_palette_text: self.custom_palette_text@,
            custom_transparency_enabled: self.custom_transparency_enabled,
            custom_transparent_index: self.custom_transparent_index,
            dither: self.dither,
            delta: self.delta,
            alpha_threshold: self.alpha_threshold,
            loop_choice: self.loop_choice,
            finite_loop_count: self.finite_loop_count,
            overwrite: self.overwrite,
        }
    }
}

impl GifPresetOptions {
    /// The same options again.
    pub fn duplicate(&self) -> (copy: GifPresetOptions)
        ensures
            copy@ == self@,
    {
        GifPresetOptions {
            version: self.version,
            frame_scope: self.frame_scope,
            quantizer: self.quantizer,
            dither: self.dither,
            delta: self.delta,
            custom_palette_text: self.custom_palette_text.clone(),
            custom_transparency_enabled: self.custom_transparency_enabled,
            custom_transparent_index: self.custom_transparent_index,
            finite_loop_count: self.finite_loop_count,
        }
    }
}

impl GifExportPreset {
    /// The same preset again.
    pub fn duplicate(&self) -> (copy: GifExportPreset)
        ensures
            copy@ == self@,
    {
        let options = match &self.options {
            Some(options) => Some(options.duplicate()),
            None => None,
        };
        GifExportPreset {
            colors: self.colors,
            palette: self.palette,
            repeat: self.repeat,
            alpha_threshold: self.alpha_threshold,
            options,
        }
    }
}

/// What is told of presets. The words are put together in the language of the interface.
#[derive(Clone, Debug, PartialEq, Eq)]
pub enum PresetNotice {
    /// The written palette is too long.
    PaletteLimit,
    /// A palette for each frame that needs it cannot be exported.
    AdaptiveUnsupported,
    /// A preset has to be chosen first.
    SelectFirst,
    /// The preset of this name was loaded.
    Loaded(String),
    /// A preset was saved under this name.
    Saved(String),
    /// The preset of this name was replaced.
    Updated(String),
    /// A preset has this name now.
    Renamed(String),
    /// A preset was deleted.
    Deleted,
    /// Something else.
    Told(String),
}

/// What a [`PresetNotice`] says.
pub enum NoticeView {
    /// The written palette is too long.
    PaletteLimit,
    /// A palette for each frame that needs it cannot be exported.
    AdaptiveUnsupported,
    /// A preset has to be chosen first.
    SelectFirst,
    /// The preset of this name was loaded.
    Loaded(Seq<char>),
    /// A preset was saved under this name.
    Saved(Seq<char>),
    /// The preset of this name was replaced.
    Updated(Seq<char>),
    /// A preset has this name now.
    Renamed(Seq<char>),
    /// A preset was deleted.
    Deleted,
    /// Something else.
    Told(Seq<char>),
}

impl View for PresetNotice {
    type V = NoticeView;

    open spec fn view(&self) -> NoticeView {
        match *self {
            PresetNotice::PaletteLimit => NoticeView::PaletteLimit,
            PresetNotice::AdaptiveUnsupported => NoticeView::AdaptiveUnsupported,
            PresetNotice::SelectFirst => NoticeView::SelectFirst,
            PresetNotice::Loaded(name) => NoticeView::Loaded(name@),
            PresetNotice::Saved(name) => NoticeView::Saved(name@),
            PresetNotice::Updated(name) => NoticeView::Updated(name@),
            PresetNotice::Renamed(name) => NoticeView::Renamed(name@),
            PresetNotice::Deleted => NoticeView::Deleted,
            PresetNotice::Told(message) => NoticeView::Told(message@),
        }
    }
}

/// A result whose value and error are taken by their views.
pub open spec fn noticed<T: View>(result: Result<T, PresetNotice>) -> Result<T::V, NoticeView> {
    match result {
        Ok(value) => Ok(value@),
        Err(notice) => Err(notice@),
    }
}

/// How many bytes a character is written in.
pub open spec fn char_bytes(c: char) -> int {
    if (c as int) < 0x80 {
        1
    } else if (c as int) < 0x800 {
        2
    } else if (c as int) < 0x1_0000 {
        3
    } else {
        4
    }
}

/// How many bytes a text is written in.
pub open spec fn text_bytes(text: Seq<char>) -> int
    decreases text.len(),
{
    if text.len() == 0 {
        0
    } else {
        text_bytes(text.drop_last()) + char_bytes(text.last())
    }
}

proof fn lemma_text_bytes_grow(text: Seq<char>, count: int)
    requires
        0 <= count <= text.len(),
    ensures
        0 <= text_bytes(text.take(count)) <= text_bytes(text),
    decreases text.len(),
{
    if count == text.len() {
        assert(text.take(count) =~= text);
        if count > 0 {
            lemma_text_bytes_grow(text.drop_last(), count - 1);
        }
    } else {
        lemma_text_bytes_grow(text.drop_last(), count);
        assert(text.drop_last().take(count) =~= text.take(count));
    }
}

fn bytes_of(c: char) -> (bytes: usize)
    ensures
        bytes == char_bytes(c),
{
    let code: u32 = c as u32;
    if code < 0x80 {
        1
    } else if code < 0x800 {
        2
    } else if code < 0x1_0000 {
        3
    } else {
        4
    }
}

/// Whether a text is written in more bytes than are allowed.
pub fn is_longer(text: &str, limit: usize) -> (longer: bool)
    requires
        limit <= 0x7fff_ffff,
    ensures
        longer == (text_bytes(text@) > limit),
{
    let list = characters(text);
    let mut bytes: usize = 0;
    let mut at: usize = 0;
    let count: usize = list.len();
    assert(list@.take(0) =~= Seq::empty());
    while at < count
        invariant
            at <= count,
            count == list@.len(),
            limit <= 0x7fff_ffff,
            bytes == text_bytes(list@.take(at as int)),
            bytes <= limit,
            list@ == text@,
        decreases count - at,
    {
        let next: usize = bytes + bytes_of(list[at]);
        proof {
            assert(list@.take(at + 1).drop_last() =~= list@.take(at as int));
            lemma_text_bytes_grow(list@, at + 1);
        }
        if next > limit {
            return true;
        }
        bytes = next;
        at = at + 1;
    }
    assert(list@.take(count as int) =~= list@);
    false
}

/// The preset of settings.
pub open spec fn preset_of(settings: SettingsView) -> PresetView {
    PresetView {
        colors: settings.max_colors,
        palette: match settings.palette {
            ExportPaletteChoice::Local => GifPaletteStrategy::PerFrame,
            ExportPaletteChoice::Global => GifPaletteStrategy::Global,
        },
        repeat: match settings.loop_choice {
            ExportLoopChoice::Infinite => GifLoop::Infinite,
            ExportLoopChoice::Finite => GifLoop::Finite(settings.finite_loop_count),
        },
        alpha_threshold: settings.alpha_threshold,
        options: Some(
            OptionsView {
                version: 1,
                frame_scope: settings.frame_scope,
                quantizer: settings.quantizer,
                dither: settings.dither,
                delta: settings.delta,
                custom_palette_text: settings.custom_palette_text,
                custom_transparency_enabled: settings.custom_transparency_enabled,
                custom_transparent_index: settings.custom_transparent_index,
                finite_loop_count: settings.finite_loop_count,
            },
        ),
    }
}

/// The options that a preset stands for: its own, or for an older one the given ones with its
/// number of repetitions, or one.
pub open spec fn options_of(preset: PresetView, defaults: OptionsView) -> OptionsView {
    match preset.options {
        Some(options) => options,
        None => OptionsView {
            finite_loop_count: match preset.repeat {
                GifLoop::Finite(count) => count,
                GifLoop::Infinite => 1,
            },
            ..defaults
        },
    }
}

/// The settings that a preset stands for. They never allow a file to be replaced.
pub open spec fn settings_of(preset: PresetView, defaults: OptionsView) -> Result<SettingsView, NoticeView> {
    let options = options_of(preset, defaults);
    if preset.palette == GifPaletteStrategy::Adaptive {
        Err(NoticeView::AdaptiveUnsupported)
    } else {
        Ok(
            SettingsView {
                frame_scope: options.frame_scope,
                max_colors: preset.colors,
                palette: if preset.palette == GifPaletteStrategy::PerFrame {
                    ExportPaletteChoice::Local
                } else {
                    ExportPaletteChoice::Global
                },
                quantizer: options.quantizer,
                custom_palette_text: options.custom_palette_text,
                custom_transparency_enabled: options.custom_transparency_enabled,
                custom_transparent_index: options.custom_transparent_index,
                dither: options.dither,
                delta: options.delta,
                alpha_threshold: preset.alpha_threshold,
                loop_choice: match preset.repeat {
                    GifLoop::Infinite => ExportLoopChoice::Infinite,
                    GifLoop::Finite(_) => ExportLoopChoice::Finite,
                },
                finite_loop_count: options.finite_loop_count,
                overwrite: false,
            },
        )
    }
}

/// A preset gives back the settings it was made of, but for the permission to replace a file.
pub proof fn law_presets_restore_settings(settings: SettingsView, defaults: OptionsView)
    ensures
        settings_of(preset_of(settings), defaults) == Ok::<SettingsView, NoticeView>(
            SettingsView { overwrite: false, ..settings },
        ),
{
}

/// The words of a refusal from elsewhere.
pub open spec fn refused(result: Result<(), String>) -> Option<NoticeView> {
    match result {
        Ok(_) => None,
        Err(message) => Some(NoticeView::Told(message@)),
    }
}

/// What making a preset of settings gives.
pub open spec fn exported(
    settings: SettingsView,
    buildable: Result<(), String>,
    validity: Result<(), String>,
) -> Result<PresetView, NoticeView> {
    if text_bytes(settings.custom_palette_text) > MAX_CUSTOM_PALETTE_TEXT_BYTES {
        Err(NoticeView::PaletteLimit)
    } else {
        match refused(buildable) {
            Some(notice) => Err(notice),
            None => match refused(validity) {
                Some(notice) => Err(notice),
                None => Ok(preset_of(settings)),
            },
        }
    }
}

impl EditorExportSettings {
    /// The preset of the settings, as yet unchecked.
    pub fn preset(&self) -> (preset: GifExportPreset)
        ensures
            preset@ == preset_of(self@),
    {
        GifExportPreset {
            colors: self.max_colors,
            palette: match self.palette {
                ExportPaletteChoice::Local => GifPaletteStrategy::PerFrame,
                ExportPaletteChoice::Global => GifPaletteStrategy::Global,
            },
            repeat: match self.loop_choice {
                ExportLoopChoice::Infinite => GifLoop::Infinite,
                ExportLoopChoice::Finite => GifLoop::Finite(self.finite_loop_count),
            },
            alpha_threshold: self.alpha_threshold,
            options: Some(
                GifPresetOptions {
                    version: 1,
                    frame_scope: self.frame_scope,
                    quantizer: self.quantizer,
                    dither: self.dither,
                    delta: self.delta,
                    custom_palette_text: self.custom_palette_text.clone(),
                    custom_transparency_enabled: self.custom_transparency_enabled,
                    custom_transparent_index: self.custom_transparent_index,
                    finite_loop_count: self.finite_loop_count,
                },
            ),
        }
    }

    /// Makes a preset of the settings, where they can be exported (`buildable`) and their preset is
    /// valid (`validity`).
    pub fn export_preset(&self, buildable: Result<(), String>, validity: Result<(), String>) -> (result: Result<
        GifExportPreset,
        PresetNotice,
    >)
        ensures
            noticed(result) == exported(self@, buildable, validity),
    {
        if is_longer(self.custom_palette_text.as_str(), MAX_CUSTOM_PALETTE_TEXT_BYTES) {
            return Err(PresetNotice::PaletteLimit);
        }
        match buildable {
            Ok(_) => {},
            Err(message) => return Err(PresetNotice::Told(message)),
        }
        match validity {
            Ok(_) => {},
            Err(message) => return Err(PresetNotice::Told(message)),
        }
        Ok(self.preset())
    }

    /// The settings that a preset stands for.
    pub fn from_preset(preset: &GifExportPreset, defaults: &GifPresetOptions) -> (result: Result<
        EditorExportSettings,
        PresetNotice,
    >)
        ensures
            noticed(result) == settings_of(preset@, defaults@),
    {
        let palette: ExportPaletteChoice = match preset.palette {
            GifPaletteStrategy::PerFrame => ExportPaletteChoice::Local,
            GifPaletteStrategy::Global => ExportPaletteChoice::Global,
            GifPaletteStrategy::Adaptive => return Err(PresetNotice::AdaptiveUnsupported),
        };
        let options = match &preset.options {
            Some(options) => options.duplicate(),
            None => {
                let mut options = defaults.duplicate();
                options.finite_loop_count = match preset.repeat {
                    GifLoop::Finite(count) => count,
                    GifLoop::Infinite => 1,
                };
                options
            },
        };
        Ok(
            EditorExportSettings {
                frame_scope: options.frame_scope,
                max_colors: preset.colors,
                palette,
                quantizer: options.quantizer,
                custom_palette_text: options.custom_palette_text,
                custom_transparency_enabled: options.custom_transparency_enabled,
                custom_transparent_index: options.custom_transparent_index,
                dither: options.dither,
                delta: options.delta,
                alpha_threshold: preset.alpha_threshold,
                loop_choice: match preset.repeat {
                    GifLoop::Infinite => ExportLoopChoice::Infinite,
                    GifLoop::Finite(_) => ExportLoopChoice::Finite,
                },
                finite_loop_count: options.finite_loop_count,
                overwrite: false,
            },
        )
    }

    /// Takes over the settings of a preset, where it is valid (`validity`) and its settings can be
    /// exported (`buildable`); otherwise the settings stay.
    pub fn load_export_preset(
        &mut self,
        preset: &GifExportPreset,
        defaults: &GifPresetOptions,
        validity: Result<(), String>,
        buildable: Result<(), String>,
    ) -> (result: Result<(), PresetNotice>)
        ensures
            match refused(validity) {
                Some(notice) => result matches Err(told) && told@ == notice && *final(self) == *old(self),
                None => match settings_of(preset@, defaults@) {
                    Err(notice) => result matches Err(told) && told@ == notice && *final(self) == *old(self),
                    Ok(settings) => match refused(buildable) {
                        Some(notice) => result matches Err(told) && told@ == notice && *final(self) == *old(self),
                        None => result is Ok && final(self)@ == settings,
                    },
                },
            },
    {
        match validity {
            Ok(_) => {},
            Err(message) => return Err(PresetNotice::Told(message)),
        }
        let candidate = match EditorExportSettings::from_preset(preset, defaults) {
            Ok(candidate) => candidate,
            Err(notice) => return Err(notice),
        };
        match buildable {
            Ok(_) => {},
            Err(message) => return Err(PresetNotice::Told(message)),
        }
        *self = candidate;
        Ok(())
    }
}

/// Text takes, character by character, one byte for plain characters and up to four for others, as they
/// are written in UTF-8.
pub proof fn law_text_bytes_add_up(written: Seq<char>, c: char)
    ensures
        text_bytes(written.push(c)) == text_bytes(written) + char_bytes(c),
        text_bytes(Seq::empty()) == 0,
        char_bytes(c) == 1 <==> (c as int) <= 0x7f,
        char_bytes(c) == 2 <==> 0x80 <= (c as int) <= 0x7ff,
        char_bytes(c) == 3 <==> 0x800 <= (c as int) <= 0xffff,
        char_bytes(c) == 4 <==> 0x1_0000 <= (c as int),
{
    assert(written.push(c).drop_last() =~= written);
}

/// Settings can be exported exactly where their palette text takes at most 4,096 bytes, the settings can be
/// built and the preset is valid; the preset then holds all of them.
pub proof fn law_what_settings_can_be_exported(
    settings: SettingsView,
    buildable: Result<(), String>,
    validity: Result<(), String>,
)
    ensures
        exported(settings, buildable, validity) is Ok <==> text_bytes(settings.custom_palette_text) <= 4_096
            && buildable is Ok && validity is Ok,
        exported(settings, buildable, validity) matches Ok(preset) ==> {
            &&& preset.colors == settings.max_colors
            &&& preset.alpha_threshold == settings.alpha_threshold
            &&& preset.palette == GifPaletteStrategy::PerFrame <==> settings.palette == ExportPaletteChoice::Local
            &&& preset.palette == GifPaletteStrategy::Global <==> settings.palette == ExportPaletteChoice::Global
            &&& preset.repeat == GifLoop::Infinite <==> settings.loop_choice == ExportLoopChoice::Infinite
            &&& settings.loop_choice == ExportLoopChoice::Finite ==> preset.repeat == GifLoop::Finite(
                settings.finite_loop_count,
            )
            &&& preset.options matches Some(options) && {
                &&& options.version == 1
                &&& options.frame_scope == settings.frame_scope
                &&& options.quantizer == settings.quantizer
                &&& options.dither == settings.dither
                &&& options.delta == settings.delta
                &&& options.custom_palette_text == settings.custom_palette_text
                &&& options.custom_transparency_enabled == settings.custom_transparency_enabled
                &&& options.custom_transparent_index == settings.custom_transparent_index
                &&& options.finite_loop_count == settings.finite_loop_count
            }
        },
        text_bytes(settings.custom_palette_text) > 4_096 ==> exported(settings, buildable, validity) == Err::<
            PresetView,
            NoticeView,
        >(NoticeView::PaletteLimit),
{
}

/// A preset without options of its own is loaded with the default ones and with its own loop count, or one
/// where it repeats for ever; what it holds itself is loaded as it is.
pub proof fn law_plain_presets_load_with_defaults(preset: PresetView, defaults: OptionsView)
    requires
        preset.options is None,
    ensures
        settings_of(preset, defaults) is Ok <==> preset.palette != GifPaletteStrategy::Adaptive,
        settings_of(preset, defaults) matches Ok(settings) ==> {
            &&& settings.max_colors == preset.colors
            &&& settings.alpha_threshold == preset.alpha_threshold
            &&& settings.palette == ExportPaletteChoice::Local <==> preset.palette == GifPaletteStrategy::PerFrame
            &&& settings.loop_choice == ExportLoopChoice::Infinite <==> preset.repeat == GifLoop::Infinite
            &&& settings.finite_loop_count == (match preset.repeat {
                GifLoop::Finite(count) => count,
                GifLoop::Infinite => 1,
            })
            &&& settings.frame_scope == defaults.frame_scope
            &&& settings.quantizer == defaults.quantizer
            &&& settings.dither == defaults.dither
            &&& settings.delta == defaults.delta
            &&& settings.custom_palette_text == defaults.custom_palette_text
            &&& settings.custom_transparency_enabled == defaults.custom_transparency_enabled
            &&& settings.custom_transparent_index == defaults.custom_transparent_index
            &&& !settings.overwrite
        },
{
}

/// Two settings that are seen alike agree in all that they hold.
pub proof fn law_settings_are_seen_whole(one: EditorExportSettings, other: EditorExportSettings)
    requires
        one@ == other@,
    ensures
        one.frame_scope == other.frame_scope,
        one.max_colors == other.max_colors,
        one.palette == other.palette,
        one.quantizer == other.quantizer,
        one.custom_palette_text@ == other.custom_palette_text@,
        one.custom_transparency_enabled == other.custom_transparency_enabled,
        one.custom_transparent_index == other.custom_transparent_index,
        one.dither == other.dither,
        one.delta == other.delta,
        one.alpha_threshold == other.alpha_threshold,
        one.loop_choice == other.loop_choice,
        one.finite_loop_count == other.finite_loop_count,
        one.overwrite == other.overwrite,
{
}

/// Two presets that are seen alike agree in all that they hold.
pub proof fn law_presets_are_seen_whole(one: GifExportPreset, other: GifExportPreset)
    requires
        one@ == other@,
    ensures
        one.colors == other.colors,
        one.palette == other.palette,
        one.repeat == other.repeat,
        one.alpha_threshold == other.alpha_threshold,
        match (one.options, other.options) {
            (Some(left), Some(right)) => {
                &&& left.version == right.version
                &&& left.frame_scope == right.frame_scope
                &&& left.quantizer == right.quantizer
                &&& left.dither == right.dither
                &&& left.delta == right.delta
                &&& left.custom_palette_text@ == right.custom_palette_text@
                &&& left.custom_transparency_enabled == right.custom_transparency_enabled
                &&& left.custom_transparent_index == right.custom_transparent_index
                &&& left.finite_loop_count == right.finite_loop_count
            },
            (None, None) => true,
            _ => false,
        },
{
}

} // verus!
