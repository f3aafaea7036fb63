//! What the editor's controls hold between two frames of the interface.
use crate::content::{BlendMode, StrokePoint};
use crate::geometry::Rgba;
use crate::ids::TrackId;
use crate::layers::OverlayTrackPagination;
use crate::playback::PlaybackClock;
use vstd::prelude::*;

verus! {

/// How many points one freehand stroke can have.
pub const MAX_DRAWING_DRAFT_POINTS: usize = 4_096;

/// The groups of tools.
#[derive(Clone, Copy, Debug, PartialEq, Eq, Structural)]
pub enum EditorToolTab {
    /// Selecting and arranging frames.
    Frames,
    /// How long frames are shown.
    Timing,
    /// Cropping, resizing and turning.
    Transform,
    /// Picture effects.
    Effects,
    /// What is drawn over frames.
    Overlays,
    /// Storage and statistics.
    Project,
}

impl EditorToolTab {
    /// The name of the group.
    pub open spec fn name(self) -> Seq<char> {
        match self {
            EditorToolTab::Frames => "Frames"@,
            EditorToolTab::Timing => "Timing"@,
            EditorToolTab::Transform => "Transform"@,
            EditorToolTab::Effects => "Effects"@,
            EditorToolTab::Overlays => "Overlays"@,
            EditorToolTab::Project => "Project"@,
        }
    }

    /// The name of the group.
    pub fn label(self) -> (label: &'static str)
        ensures
            label@ == self.name(),
    {
        match self {
            EditorToolTab::Frames => "Frames",
            EditorToolTab::Timing => "Timing",
            EditorToolTab::Transform => "Transform",
            EditorToolTab::Effects => "Effects",
            EditorToolTab::Overlays => "Overlays",
            EditorToolTab::Project => "Project",
        }
    }

    /// All groups, in the order they are shown.
    pub fn all() -> (tabs: Vec<EditorToolTab>)
        ensures
            tabs@ == seq![
                EditorToolTab::Frames,
                EditorToolTab::Timing,
                EditorToolTab::Transform,
                EditorToolTab::Effects,
                EditorToolTab::Overlays,
                EditorToolTab::Project,
            ],
    {
        vec![
            EditorToolTab::Frames,
            EditorToolTab::Timing,
            EditorToolTab::Transform,
            EditorToolTab::Effects,
            EditorToolTab::Overlays,
            EditorToolTab::Project,
        ]
    }
}

/// The effects that can be configured.
#[derive(Clone, Copy, Debug, PartialEq, Eq, Structural)]
pub enum EffectChoice {
    /// Smears a region.
    Blur,
    /// Coarsens a region.
    Pixelate,
    /// Darkens a region.
    Darken,
    /// Lightens a region.
    Lighten,
    /// Frames the picture.
    Border,
    /// Puts a shadow behind the picture.
    Shadow,
}

/// The transitions that can be configured.
#[derive(Clone, Copy, Debug, PartialEq, Eq, Structural)]
pub enum TransitionChoice {
    /// Fades into the next frame.
    FadeToNext,
    /// Fades into a colour.
    FadeToColor,
    /// Slides to the left.
    SlideLeft,
    /// Slides to the right.
    SlideRight,
    /// Slides upwards.
    SlideUp,
    /// Slides downwards.
    SlideDown,
}

/// The shapes that can be drawn.
#[derive(Clone, Copy, Debug, PartialEq, Eq, Structural)]
pub enum ShapeOverlayChoice {
    /// A line.
    Line,
    /// An arrow.
    Arrow,
    /// A rectangle.
    Rectangle,
    /// An ellipse.
    Ellipse,
}

/// What becomes of the time of frames that reduction drops.
#[derive(Clone, Copy, Debug, PartialEq, Eq, Structural)]
pub enum ReduceDelayMode {
    /// It is lost.
    DontAdjust,
    /// The kept frame before gets it.
    Previous,
    /// The kept frames share it.
    Evenly,
}

/// What is played back and forth.
#[derive(Clone, Copy, Debug, PartialEq, Eq, Structural)]
pub enum YoyoScope {
    /// The selected frames.
    Selection,
    /// All frames.
    EntireTimeline,
}

/// Which frame of a run of duplicates stays.
#[derive(Clone, Copy, Debug, PartialEq, Eq, Structural)]
pub enum DuplicateFrameRetention {
    /// The first.
    First,
    /// The last.
    Last,
}

/// How long the frame that stays is shown.
#[derive(Clone, Copy, Debug, PartialEq, Eq, Structural)]
pub enum DuplicateDelayMode {
    /// As long as before.
    Keep,
    /// As long as the whole run.
    Sum,
    /// The average of the run.
    Average,
}

/// How far a freehand stroke has come.
#[derive(Clone, Copy, Debug, PartialEq, Eq, Structural)]
pub enum DrawingDraftPhase {
    /// Not begun.
    Idle,
    /// Following the pointer.
    Capturing,
    /// Ready to be committed.
    Ready,
}

/// The overlay tools.
#[derive(Clone, Copy, Debug, PartialEq, Eq, Structural)]
pub enum OverlayTool {
    /// Text.
    Text,
    /// Pictures.
    Image,
    /// Shapes.
    Shape,
    /// Freehand strokes.
    Drawing,
    /// The list of layers.
    Layers,
}

/// The fields of the shape tool.
#[derive(Debug)]
pub struct ShapeOverlayUiState {
    /// Name of the layer.
    pub name: String,
    /// The shape.
    pub kind: ShapeOverlayChoice,
    /// Left edge.
    pub x: u32,
    /// Top edge.
    pub y: u32,
    /// Width.
    pub width: u32,
    /// Height.
    pub height: u32,
    /// Width of the outline.
    pub stroke_width: u16,
    /// Colour of the outline.
    pub stroke: Rgba,
    /// Whether the inside is filled.
    pub fill_enabled: bool,
    /// Colour of the inside.
    pub fill: Rgba,
    /// Opacity of the layer.
    pub track_opacity: u8,
    /// How the layer is blended.
    pub blend_mode: BlendMode,
    /// Where the layer stands.
    pub z_index: i32,
}

/// The colour that outlines and strokes start with.
pub open spec fn accent(alpha: u8) -> Rgba {
    Rgba { red: 242, green: 153, blue: 74, alpha }
}

impl Default for ShapeOverlayUiState {
    fn default() -> (state: ShapeOverlayUiState)
        ensures
            state.name@ == "Shape"@,
            state.kind == ShapeOverlayChoice::Rectangle,
            state.x == 0,
            state.y == 0,
            state.width == 120,
            state.height == 80,
            state.stroke_width == 2,
            state.stroke == accent(255),
            !state.fill_enabled,
            state.fill == accent(96),
            state.track_opacity == 255,
            state.blend_mode == BlendMode::Normal,
            state.z_index == 0,
    {
        ShapeOverlayUiState {
            name: "Shape".to_owned(),
            kind: ShapeOverlayChoice::Rectangle,
            x: 0,
            y: 0,
            width: 120,
            height: 80,
            stroke_width: 2,
            stroke: Rgba { red: 242, green: 153, blue: 74, alpha: 255 },
            fill_enabled: false,
            fill: Rgba { red: 242, green: 153, blue: 74, alpha: 96 },
            track_opacity: 255,
            blend_mode: BlendMode::Normal,
            z_index: 0,
        }
    }
}

/// The place a freehand stroke was begun on: a project, a state of it, and its selection.
#[derive(Clone, Copy, Debug, PartialEq, Eq, Structural)]
pub struct OverlaySelectionAnchor {
    /// The project.
    pub project: u128,
    /// The state of the project.
    pub revision: u64,
    /// A number for the selection in that state.
    pub selection: u64,
}

/// A freehand stroke that is not committed yet.
#[derive(Debug)]
pub struct DrawingOverlayDraft {
    /// Where it was begun, if a selection was there.
    pub target: Option<OverlaySelectionAnchor>,
    /// How far it has come.
    pub phase: DrawingDraftPhase,
    /// Name of the layer.
    pub name: String,
    /// Width of the pen.
    pub width: u16,
    /// Colour of the pen.
    pub color: Rgba,
    /// Opacity of the layer.
    pub track_opacity: u8,
    /// How the layer is blended.
    pub blend_mode: BlendMode,
    /// Where the layer stands.
    pub z_index: i32,
    /// The stroke so far.
    pub points: Vec<StrokePoint>,
    /// Whether points were turned away.
    pub limit_reached: bool,
}

impl Default for DrawingOverlayDraft {
    fn default() -> (draft: DrawingOverlayDraft)
        ensures
            draft.target is None,
            draft.phase == DrawingDraftPhase::Idle,
            draft.name@ == "Drawing"@,
            draft.width == 4,
            draft.color == accent(255),
            draft.track_opacity == 255,
            draft.blend_mode == BlendMode::Normal,
            draft.z_index == 1,
            draft.points@.len() == 0,
            !draft.limit_reached,
            draft.wf(),
    {
        DrawingOverlayDraft {
            target: None,
            phase: DrawingDraftPhase::Idle,
            name: "Drawing".to_owned(),
            width: 4,
            color: Rgba { red: 242, green: 153, blue: 74, alpha: 255 },
            track_opacity: 255,
            blend_mode: BlendMode::Normal,
            z_index: 1,
            points: Vec::new(),
            limit_reached: false,
        }
    }
}

impl DrawingOverlayDraft {
    /// Whether the stroke is within its limit and no point repeats the one before.
    pub open spec fn wf(self) -> bool {
        &&& self.points@.len() <= MAX_DRAWING_DRAFT_POINTS
        &&& forall|i: int| 0 < i < self.points@.len() ==> self.points@[i] != #[trigger] self.points@[i - 1]
    }

    /// Whether the settings of the pen and the layer are those of another draft.
    pub open spec fn same_settings(self, other: DrawingOverlayDraft) -> bool {
        &&& self.name@ == other.name@
        &&& self.width == other.width
        &&& self.color == other.color
        &&& self.track_opacity == other.track_opacity
        &&& self.blend_mode == other.blend_mode
        &&& self.z_index == other.z_index
    }

    /// Starts a stroke.
    pub fn begin(&mut self)
        ensures
            final(self).wf(),
            final(self).points@.len() == 0,
            !final(self).limit_reached,
            final(self).phase == DrawingDraftPhase::Capturing,
            final(self).target == old(self).target,
            final(self).same_settings(*old(self)),
    {
        self.points.clear();
        self.limit_reached = false;
        self.phase = DrawingDraftPhase::Capturing;
    }

    /// Starts a stroke on a selection, where there is one; `anchor` is where, or why there is none.
    pub fn begin_for_selection(&mut self, anchor: Result<OverlaySelectionAnchor, String>) -> (result: Result<
        (),
        String,
    >)
        ensures
            match anchor {
                Ok(target) => {
                    &&& result is Ok
                    &&& final(self).wf()
                    &&& final(self).points@.len() == 0
                    &&& !final(self).limit_reached
                    &&& final(self).phase == DrawingDraftPhase::Capturing
                    &&& final(self).target == Some(target)
                    &&& final(self).same_settings(*old(self))
                },
                Err(error) => result == Err::<(), String>(error) && *final(self) == *old(self),
            },
    {
        match anchor {
            Ok(target) => {
                self.begin();
                self.target = Some(target);
                Ok(())
            },
            Err(error) => Err(error),
        }
    }

    /// Gives the stroke up.
    pub fn cancel(&mut self)
        ensures
            final(self).wf(),
            final(self).target is None,
            final(self).points@.len() == 0,
            !final(self).limit_reached,
            final(self).phase == DrawingDraftPhase::Idle,
            final(self).same_settings(*old(self)),
    {
        self.target = None;
        self.points.clear();
        self.limit_reached = false;
        self.phase = DrawingDraftPhase::Idle;
    }

    /// Gives the stroke up where it was begun on another selection than the present one.
    pub fn reconcile(&mut self, present: Option<OverlaySelectionAnchor>)
        ensures
            old(self).target is None || old(self).target == present ==> *final(self) == *old(self),
            old(self).target is Some && old(self).target != present ==> {
                &&& final(self).wf()
                &&& final(self).target is None
                &&& final(self).points@.len() == 0
                &&& !final(self).limit_reached
                &&& final(self).phase == DrawingDraftPhase::Idle
                &&& final(self).same_settings(*old(self))
            },
    {
        if let Some(target) = self.target {
            let matches: bool = match present {
                Some(anchor) => anchor == target,
                None => false,
            };
            if !matches {
                self.cancel();
            }
        }
    }

    /// Takes a point up: one that repeats the last changes nothing, and one beyond the limit ends
    /// the stroke.
    pub fn push_point(&mut self, point: StrokePoint)
        ensures
            old(self).wf() ==> final(self).wf(),
            final(self).target == old(self).target,
            final(self).same_settings(*old(self)),
            ({
                let before = old(self).points@;
                if before.len() > 0 && before.last() == point {
                    *final(self) == *old(self)
                } else if before.len() >= MAX_DRAWING_DRAFT_POINTS {
                    &&& final(self).points@ == before
                    &&& final(self).limit_reached
                    &&& final(self).phase == DrawingDraftPhase::Ready
                } else {
                    &&& final(self).points@ == before.push(point)
                    &&& final(self).limit_reached == old(self).limit_reached
                    &&& final(self).phase == old(self).phase
                }
            }),
    {
        let count: usize = self.points.len();
        if count > 0 && self.points[count - 1] == point {
            return;
        }
        if count >= MAX_DRAWING_DRAFT_POINTS {
            self.limit_reached = true;
            self.phase = DrawingDraftPhase::Ready;
            return;
        }
        let ghost before = self.points@;
        self.points.push(point);
        assert(old(self).wf() ==> self.wf()) by {
            if old(self).wf() {
                assert forall|i: int| 0 < i < self.points@.len() implies self.points@[i]
                    != #[trigger] self.points@[i - 1] by {
                    if i < before.len() {
                        assert(before[i] != before[i - 1]);
                    }
                }
            }
        }
    }

    /// Ends the stroke, if it has a point.
    pub fn finish_stroke(&mut self)
        ensures
            final(self).target == old(self).target,
            final(self).points@ == old(self).points@,
            final(self).limit_reached == old(self).limit_reached,
            final(self).same_settings(*old(self)),
            final(self).phase == (if old(self).points@.len() > 0 {
                DrawingDraftPhase::Ready
            } else {
                old(self).phase
            }),
    {
        if self.points.len() > 0 {
            self.phase = DrawingDraftPhase::Ready;
        }
    }
}

/// What the controls hold.
#[derive(Debug)]
pub struct EditorUiState {
    /// The group of tools on show.
    pub active_tool: EditorToolTab,
    /// Number of a frame, counted from one.
    pub frame_number_input: String,
    /// A time in milliseconds.
    pub time_ms_input: String,
    /// Start of a range of time in milliseconds, inclusive.
    pub time_range_start_ms_input: String,
    /// End of that range, exclusive.
    pub time_range_end_ms_input: String,
    /// Microseconds to show frames for, or to add to that.
    pub duration_us_input: String,
    /// Percentage to scale delays by.
    pub percentage_input: String,
    /// One frame in how many is kept.
    pub reduce_keep_every_input: String,
    /// What becomes of the time of dropped frames.
    pub reduce_delay_mode: ReduceDelayMode,
    /// What is played back and forth.
    pub yoyo_scope: YoyoScope,
    /// Whether the turning points are shown twice.
    pub yoyo_repeat_endpoints: bool,
    /// Similarity in percent from which frames are duplicates.
    pub duplicate_threshold_input: String,
    /// Which duplicate stays.
    pub duplicate_retention: DuplicateFrameRetention,
    /// How long it is shown.
    pub duplicate_delay_mode: DuplicateDelayMode,
    /// The effect that is configured.
    pub effect_choice: EffectChoice,
    /// Number of the effect to replace, counted from one.
    pub effect_index_input: String,
    /// Left edge of the region of the effect.
    pub effect_region_x_input: String,
    /// Top edge of the region of the effect.
    pub effect_region_y_input: String,
    /// Width of the region of the effect.
    pub effect_region_width_input: String,
    /// Height of the region of the effect.
    pub effect_region_height_input: String,
    /// Radius of the blur.
    pub effect_blur_radius_input: String,
    /// Size of the blocks.
    pub effect_pixel_block_input: String,
    /// Strength in percent.
    pub effect_tone_percent_input: String,
    /// Width of the border at the top.
    pub effect_border_top_input: String,
    /// Width of the border on the right.
    pub effect_border_right_input: String,
    /// Width of the border at the bottom.
    pub effect_border_bottom_input: String,
    /// Width of the border on the left.
    pub effect_border_left_input: String,
    /// How far the shadow lies to the right.
    pub effect_shadow_offset_x_input: String,
    /// How far the shadow lies below.
    pub effect_shadow_offset_y_input: String,
    /// How soft the shadow is.
    pub effect_shadow_blur_input: String,
    /// Red of the effect.
    pub effect_color_red_input: String,
    /// Green of the effect.
    pub effect_color_green_input: String,
    /// Blue of the effect.
    pub effect_color_blue_input: String,
    /// Opacity of the effect.
    pub effect_color_alpha_input: String,
    /// Numbers and ranges of frames to select.
    pub frame_expression: String,
    /// The transition that is configured.
    pub transition_choice: TransitionChoice,
    /// Length of the transition in microseconds.
    pub transition_duration_us_input: String,
    /// Number of frames of the transition.
    pub transition_steps_input: String,
    /// Red of the transition.
    pub transition_color_red_input: String,
    /// Green of the transition.
    pub transition_color_green_input: String,
    /// Blue of the transition.
    pub transition_color_blue_input: String,
    /// Opacity of the transition.
    pub transition_color_alpha_input: String,
    /// Left edge of the crop.
    pub crop_x_input: String,
    /// Top edge of the crop.
    pub crop_y_input: String,
    /// Width of the crop.
    pub crop_width_input: String,
    /// Height of the crop.
    pub crop_height_input: String,
    /// Width to resize to.
    pub resize_width_input: String,
    /// Height to resize to.
    pub resize_height_input: String,
    /// The fields of the shape tool.
    pub shape_overlay: ShapeOverlayUiState,
    /// The overlay tool on show.
    pub overlay_tool: OverlayTool,
    /// The stroke that is being drawn.
    pub drawing_overlay: DrawingOverlayDraft,
    /// The page of the list of layers.
    pub overlay_track_pagination: OverlayTrackPagination,
    /// The clock, while frames are played.
    pub playback: Option<PlaybackClock>,
    /// Whether playing starts over at the end.
    pub loop_preview: bool,
    /// Whether the strip of frames is to be scrolled to the current one.
    pub reveal_current_frame: bool,
}

impl EditorUiState {
    /// Whether the controls hold what they start with.
    pub open spec fn initial(self) -> bool {
        &&& self.active_tool == EditorToolTab::Frames
        &&& self.frame_number_input@ == "1"@
        &&& self.time_ms_input@ == "0"@
        &&& self.time_range_start_ms_input@ == "0"@
        &&& self.time_range_end_ms_input@ == "1000"@
        &&& self.duration_us_input@ == "100000"@
        &&& self.percentage_input@ == "100"@
        &&& self.reduce_keep_every_input@ == "2"@
        &&& self.reduce_delay_mode == ReduceDelayMode::DontAdjust
        &&& self.yoyo_scope == YoyoScope::Selection
        &&& !self.yoyo_repeat_endpoints
        &&& self.duplicate_threshold_input@ == "100"@
        &&& self.duplicate_retention == DuplicateFrameRetention::First
        &&& self.duplicate_delay_mode == DuplicateDelayMode::Sum
        &&& self.effect_choice == EffectChoice::Blur
        &&& self.effect_index_input@ == "1"@
        &&& self.effect_region_x_input@ == "0"@
        &&& self.effect_region_y_input@ == "0"@
        &&& self.effect_region_width_input@ == "1"@
        &&& self.effect_region_height_input@ == "1"@
        &&& self.effect_blur_radius_input@ == "2"@
        &&& self.effect_pixel_block_input@ == "8"@
        &&& self.effect_tone_percent_input@ == "25"@
        &&& self.effect_border_top_input@ == "1"@
        &&& self.effect_border_right_input@ == "1"@
        &&& self.effect_border_bottom_input@ == "1"@
        &&& self.effect_border_left_input@ == "1"@
        &&& self.effect_shadow_offset_x_input@ == "4"@
        &&& self.effect_shadow_offset_y_input@ == "4"@
        &&& self.effect_shadow_blur_input@ == "4"@
        &&& self.effect_color_red_input@ == "0"@
        &&& self.effect_color_green_input@ == "0"@
        &&& self.effect_color_blue_input@ == "0"@
        &&& self.effect_color_alpha_input@ == "255"@
        &&& self.frame_expression@ == "1"@
        &&& self.transition_choice == TransitionChoice::FadeToNext
        &&& self.transition_duration_us_input@ == "100000"@
        &&& self.transition_steps_input@ == "5"@
        &&& self.transition_color_red_input@ == "0"@
        &&& self.transition_color_green_input@ == "0"@
        &&& self.transition_color_blue_input@ == "0"@
        &&& self.transition_color_alpha_input@ == "255"@
        &&& self.crop_x_input@ == "0"@
        &&& self.crop_y_input@ == "0"@
        &&& self.crop_width_input@ == "1"@
        &&& self.crop_height_input@ == "1"@
        &&& self.resize_width_input@ == "1"@
        &&& self.resize_height_input@ == "1"@
        &&& self.overlay_tool == OverlayTool::Text
        &&& self.drawing_overlay.phase == DrawingDraftPhase::Idle
        &&& self.drawing_overlay.points@.len() == 0
        &&& self.overlay_track_pagination.session is None
        &&& self.overlay_track_pagination.page == 0
        &&& self.playback is None
        &&& self.loop_preview
        &&& !self.reveal_current_frame
    }

    /// Takes the wish to scroll to the current frame, which is then met.
    pub fn take_reveal(&mut self) -> (wished: bool)
        ensures
            wished == old(self).reveal_current_frame,
            *final(self) == (EditorUiState { reveal_current_frame: false, ..*old(self) }),
    {
        let wished = self.reveal_current_frame;
        self.reveal_current_frame = false;
        wished
    }

    /// Whether the overlay tools are on show.
    pub fn overlays_selected(&self) -> (selected: bool)
        ensures
            selected == (self.active_tool == EditorToolTab::Overlays),
    {
        self.active_tool == EditorToolTab::Overlays
    }
}

impl Default for EditorUiState {
    fn default() -> (state: EditorUiState)
        ensures
            state.initial(),
            call_ensures(ShapeOverlayUiState::default, (), state.shape_overlay),
            call_ensures(DrawingOverlayDraft::default, (), state.drawing_overlay),
    {
        EditorUiState {
            active_tool: EditorToolTab::Frames,
            frame_number_input: "1".to_owned(),
            time_ms_input: "0".to_owned(),
            time_range_start_ms_input: "0".to_owned(),
            time_range_end_ms_input: "1000".to_owned(),
            duration_us_input: "100000".to_owned(),
            percentage_input: "100".to_owned(),
            reduce_keep_every_input: "2".to_owned(),
            reduce_delay_mode: ReduceDelayMode::DontAdjust,
            yoyo_scope: YoyoScope::Selection,
            yoyo_repeat_endpoints: false,
            duplicate_threshold_input: "100".to_owned(),
            duplicate_retention: DuplicateFrameRetention::First,
            duplicate_delay_mode: DuplicateDelayMode::Sum,
            effect_choice: EffectChoice::Blur,
            effect_index_input: "1".to_owned(),
            effect_region_x_input: "0".to_owned(),
            effect_region_y_input: "0".to_owned(),
            effect_region_width_input: "1".to_owned(),
            effect_region_height_input: "1".to_owned(),
            effect_blur_radius_input: "2".to_owned(),
            effect_pixel_block_input: "8".to_owned(),
            effect_tone_percent_input: "25".to_owned(),
            effect_border_top_input: "1".to_owned(),
            effect_border_right_input: "1".to_owned(),
            effect_border_bottom_input: "1".to_owned(),
            effect_border_left_input: "1".to_owned(),
            effect_shadow_offset_x_input: "4".to_owned(),
            effect_shadow_offset_y_input: "4".to_owned(),
            effect_shadow_blur_input: "4".to_owned(),
            effect_color_red_input: "0".to_owned(),
            effect_color_green_input: "0".to_owned(),
            effect_color_blue_input: "0".to_owned(),
            effect_color_alpha_input: "255".to_owned(),
            frame_expression: "1".to_owned(),
            transition_choice: TransitionChoice::FadeToNext,
            transition_duration_us_input: "100000".to_owned(),
            transition_steps_input: "5".to_owned(),
            transition_color_red_input: "0".to_owned(),
            transition_color_green_input: "0".to_owned(),
            transition_color_blue_input: "0".to_owned(),
            transition_color_alpha_input: "255".to_owned(),
            crop_x_input: "0".to_owned(),
            crop_y_input: "0".to_owned(),
            crop_width_input: "1".to_owned(),
            crop_height_input: "1".to_owned(),
            resize_width_input: "1".to_owned(),
            resize_height_input: "1".to_owned(),
            shape_overlay: ShapeOverlayUiState::default(),
            overlay_tool: OverlayTool::Text,
            drawing_overlay: DrawingOverlayDraft::default(),
            overlay_track_pagination: OverlayTrackPagination::default(),
            playback: None,
            loop_preview: true,
            reveal_current_frame: false,
        }
    }
}

/// What was asked of the editor.
#[derive(Clone, Copy, Debug, PartialEq, Eq, Structural)]
pub enum EditorUiOperation {
    /// Select the first frame.
    SelectFirst,
    /// Select the frame before.
    SelectPrevious,
    /// Select the frame after.
    SelectNext,
    /// Select the last frame.
    SelectLast,
    /// Go to a frame by its number.
    JumpToFrame,
    /// Go to the frame at a time.
    JumpToTime,
    /// Select all.
    SelectAll,
    /// Invert selection.
    InvertSelection,
    /// Clear selection.
    ClearSelection,
    /// Select frame.
    SelectFrame,
    /// Toggle frame.
    ToggleFrame,
    /// Extend frame range.
    ExtendFrameRange,
    /// Select expression.
    SelectExpression,
    /// Select time range.
    SelectTimeRange,
    /// Keep time range.
    KeepTimeRange,
    /// Delete time range.
    DeleteTimeRange,
    /// Playback.
    Playback,
    /// Playback step.
    PlaybackStep,
    /// Undo.
    Undo,
    /// Redo.
    Redo,
    /// Cut.
    Cut,
    /// Copy.
    Copy,
    /// Paste.
    Paste,
    /// Select clipboard entry.
    SelectClipboardEntry,
    /// Remove clipboard entry.
    RemoveClipboardEntry,
    /// Clear clipboard history.
    ClearClipboardHistory,
    /// Delete selection.
    DeleteSelection,
    /// Delete before selection.
    DeleteBeforeSelection,
    /// Delete after selection.
    DeleteAfterSelection,
    /// Move selection left.
    MoveSelectionLeft,
    /// Move selection right.
    MoveSelectionRight,
    /// Reverse selection.
    ReverseSelection,
    /// Override duration.
    OverrideDuration,
    /// Adjust duration.
    AdjustDuration,
    /// Scale duration.
    ScaleDuration,
    /// Reduce frames.
    ReduceFrames,
    /// Yoyo.
    Yoyo,
    /// Remove duplicates.
    RemoveDuplicates,
    /// Add effect.
    AddEffect,
    /// Replace effect.
    ReplaceEffect,
    /// Clear effects.
    ClearEffects,
    /// Add shape overlay.
    AddShapeOverlay,
    /// Add drawing overlay.
    AddDrawingOverlay,
    /// Remove overlay track.
    RemoveOverlayTrack,
    /// Set overlay visibility.
    SetOverlayVisibility,
    /// Set transition.
    SetTransition,
    /// Delete transition.
    DeleteTransition,
    /// Save checkpoint.
    SaveCheckpoint,
    /// Save and compact.
    SaveAndCompact,
    /// Repair journal.
    RepairJournal,
    /// Statistics.
    Statistics,
    /// Apply crop.
    ApplyCrop,
    /// Clear crop.
    ClearCrop,
    /// Resize.
    Resize,
    /// Clear output size.
    ClearOutputSize,
    /// Rotate left.
    RotateLeft,
    /// Rotate right.
    RotateRight,
    /// Flip horizontal.
    FlipHorizontal,
    /// Flip vertical.
    FlipVertical,
    /// Filmstrip layout.
    FilmstripLayout,
}

/// What the interface did.
#[derive(Debug, PartialEq)]
pub enum EditorUiAction {
    /// The selection changed.
    Selection(EditorUiOperation),
    /// The project changed.
    Project(EditorUiOperation),
    /// Playing began or ended.
    Playback {
        /// Whether frames are played now.
        playing: bool,
    },
    /// Frames went to or came from the clipboard.
    Clipboard {
        /// What was asked.
        operation: EditorUiOperation,
        /// How many frames.
        frames: usize,
    },
    /// A layer is to be attached to frames.
    ConvertOverlayTrack(TrackId),
    /// Something to tell.
    Notice {
        /// What was asked.
        operation: EditorUiOperation,
        /// What to tell.
        message: String,
    },
}

/// Why the interface could not do what was asked.
#[derive(Debug, PartialEq)]
pub struct EditorUiFailure {
    /// What was asked.
    pub operation: EditorUiOperation,
    /// Why it could not be done.
    pub message: String,
}

/// What came of one request.
pub type EditorUiResult = Result<EditorUiAction, EditorUiFailure>;

/// What an [`EditorUiAction`] or an [`EditorUiFailure`] says.
pub enum ResultView {
    /// The selection changed.
    Selection(EditorUiOperation),
    /// The project changed.
    Project(EditorUiOperation),
    /// Playing began or ended.
    Playback(bool),
    /// Frames went to or came from the clipboard.
    Clipboard(EditorUiOperation, int),
    /// A layer is to be attached to frames.
    ConvertOverlayTrack(TrackId),
    /// Something to tell.
    Notice(EditorUiOperation, Seq<char>),
    /// What was asked could not be done.
    Failure(EditorUiOperation, Seq<char>),
}

/// What a result says.
pub open spec fn result_view(result: EditorUiResult) -> ResultView {
    match result {
        Ok(EditorUiAction::Selection(operation)) => ResultView::Selection(operation),
        Ok(EditorUiAction::Project(operation)) => ResultView::Project(operation),
        Ok(EditorUiAction::Playback { playing }) => ResultView::Playback(playing),
        Ok(EditorUiAction::Clipboard { operation, frames }) => ResultView::Clipboard(operation, frames as int),
        Ok(EditorUiAction::ConvertOverlayTrack(id)) => ResultView::ConvertOverlayTrack(id),
        Ok(EditorUiAction::Notice { operation, message }) => ResultView::Notice(operation, message@),
        Err(failure) => ResultView::Failure(failure.operation, failure.message@),
    }
}

/// What a list of results says.
pub open spec fn result_views(results: Seq<EditorUiResult>) -> Seq<ResultView> {
    Seq::new(results.len(), |i: int| result_view(results[i]))
}

/// What is seen of a result is all that it tells.
pub proof fn law_results_are_seen_whole(results: Seq<EditorUiResult>, at: int)
    ensures
        result_views(results).len() == results.len(),
        0 <= at < results.len() ==> match results[at] {
            Ok(EditorUiAction::Selection(operation)) => result_views(results)[at] == ResultView::Selection(operation),
            Ok(EditorUiAction::Project(operation)) => result_views(results)[at] == ResultView::Project(operation),
            Ok(EditorUiAction::Playback { playing }) => result_views(results)[at] == ResultView::Playback(playing),
            Ok(EditorUiAction::Clipboard { operation, frames }) => result_views(results)[at] == ResultView::Clipboard(
                operation,
                frames as int,
            ),
            Ok(EditorUiAction::ConvertOverlayTrack(id)) => result_views(results)[at] == ResultView::ConvertOverlayTrack(
                id,
            ),
            Ok(EditorUiAction::Notice { operation, message }) => result_views(results)[at] == ResultView::Notice(
                operation,
                message@,
            ),
            Err(failure) => result_views(results)[at] == ResultView::Failure(failure.operation, failure.message@),
        },
{
}

/// Two drafts have the same settings exactly where all that is set for a drawing is the same; what was
/// drawn does not matter.
pub proof fn law_what_settings_a_drawing_has(one: DrawingOverlayDraft, other: DrawingOverlayDraft)
    ensures
        one.same_settings(other) <==> {
            &&& one.name@ == other.name@
            &&& one.width == other.width
            &&& one.color == other.color
            &&& one.track_opacity == other.track_opacity
            &&& one.blend_mode == other.blend_mode
            &&& one.z_index == other.z_index
        },
{
}

} // verus!
