//! Frames, their effects and their rendering steps.
use vstd::prelude::*;
use crate::content::Payload;
use crate::geometry::{PhysicalRect, PhysicalSize, Rgba};
use crate::ids::{AssetId, FrameId};
use crate::time::{DurationUs, TimeUs};
use crate::value;
use crate::value::{copy_all, same_all, Value};

verus! {

/// The widths of a border on each side, in pixels.
#[derive(Clone, Copy, Debug, PartialEq, Eq, Hash, Structural)]
pub struct EdgeWidths {
    /// Top side.
    pub top: u16,
    /// Right side.
    pub right: u16,
    /// Bottom side.
    pub bottom: u16,
    /// Left side.
    pub left: u16,
}

/// A picture effect of a frame.
#[derive(Clone, Copy, Debug, PartialEq, Eq, Hash, Structural)]
pub enum Effect {
    /// Blurs a region.
    Blur {
        /// The region.
        region: PhysicalRect,
        /// Radius in pixels.
        radius: u16,
    },
    /// Turns a region into blocks.
    Pixelate {
        /// The region.
        region: PhysicalRect,
        /// Edge of a block in pixels.
        block_size: u16,
    },
    /// Darkens a region.
    Darken {
        /// The region.
        region: PhysicalRect,
        /// Strength in percent.
        amount_percent: u8,
    },
    /// Lightens a region.
    Lighten {
        /// The region.
        region: PhysicalRect,
        /// Strength in percent.
        amount_percent: u8,
    },
    /// Draws a border.
    Border {
        /// Widths of its sides.
        widths: EdgeWidths,
        /// Its colour.
        color: Rgba,
    },
    /// Casts a shadow.
    Shadow {
        /// Horizontal displacement.
        offset_x: i32,
        /// Vertical displacement.
        offset_y: i32,
        /// Blur radius in pixels.
        blur_radius: u16,
        /// Its colour.
        color: Rgba,
    },
    /// Shows part of a still picture.
    Cinemagraph {
        /// Where the mask is stored.
        mask_asset: AssetId,
        /// Whether the mask selects the moving part.
        invert_mask: bool,
    },
}

impl View for Effect {
    type V = Effect;

    open spec fn view(&self) -> Effect {
        *self
    }
}

impl Value for Effect {
    fn duplicate(&self) -> (copy: Self) {
        *self
    }

    fn same(&self, other: &Self) -> (equal: bool) {
        *self == *other
    }
}

/// One step of rendering a frame.
#[derive(Clone, Copy, Debug, PartialEq, Eq, Hash, Structural)]
pub enum RenderStep {
    /// Paints the overlays anchored at a stage.
    Composite {
        /// The stage.
        stage: u128,
    },
    /// Applies an effect.
    Effect {
        /// The effect.
        effect: Effect,
    },
    /// Cuts the picture.
    Crop {
        /// What stays.
        region: PhysicalRect,
    },
    /// Scales the picture.
    Resize {
        /// The new dimensions.
        size: PhysicalSize,
    },
    /// Turns the picture.
    Rotate {
        /// Number of quarter turns to the right.
        quarter_turns: u8,
    },
    /// Shows a region of a still picture, or all but that region.
    FreezeRegion {
        /// Where the still picture is stored.
        baseline_asset: AssetId,
        /// Its dimensions.
        baseline_size: PhysicalSize,
        /// The region.
        region: PhysicalRect,
        /// Whether the region itself is frozen.
        invert: bool,
    },
    /// Paints a clipped still picture.
    CinemagraphOverlay {
        /// Where the picture is stored.
        snapshot_asset: AssetId,
        /// Its dimensions.
        snapshot_size: PhysicalSize,
    },
}

impl View for RenderStep {
    type V = RenderStep;

    open spec fn view(&self) -> RenderStep {
        *self
    }
}

impl Value for RenderStep {
    fn duplicate(&self) -> (copy: Self) {
        *self
    }

    fn same(&self, other: &Self) -> (equal: bool) {
        *self == *other
    }
}

impl Effect {
    /// The asset that the effect reads.
    pub open spec fn asset(self) -> Option<AssetId> {
        match self {
            Effect::Cinemagraph { mask_asset, .. } => Some(mask_asset),
            _ => None,
        }
    }

    /// The asset that the effect reads.
    pub fn referenced_asset(self) -> (asset: Option<AssetId>)
        ensures
            asset == self.asset(),
    {
        match self {
            Effect::Cinemagraph { mask_asset, .. } => Some(mask_asset),
            _ => None,
        }
    }
}

impl RenderStep {
    /// The asset that the step reads.
    pub open spec fn asset(self) -> Option<AssetId> {
        match self {
            RenderStep::Effect { effect } => effect.asset(),
            RenderStep::FreezeRegion { baseline_asset, .. } => Some(baseline_asset),
            RenderStep::CinemagraphOverlay { snapshot_asset, .. } => Some(snapshot_asset),
            _ => None,
        }
    }

    /// The asset that the step reads.
    pub fn referenced_asset(self) -> (asset: Option<AssetId>)
        ensures
            asset == self.asset(),
    {
        match self {
            RenderStep::Effect { effect } => effect.referenced_asset(),
            RenderStep::FreezeRegion { baseline_asset, .. } => Some(baseline_asset),
            RenderStep::CinemagraphOverlay { snapshot_asset, .. } => Some(snapshot_asset),
            _ => None,
        }
    }
}

/// How a source picture is placed on the canvas.
#[derive(Clone, Copy, Debug, PartialEq, Eq, Hash, Structural)]
pub struct ClipTransform {
    /// What is cut out of the source.
    pub crop: Option<PhysicalRect>,
    /// The dimensions it is scaled to.
    pub output_size: Option<PhysicalSize>,
    /// Number of quarter turns to the right.
    pub quarter_turns: u8,
    /// Whether it is mirrored left to right.
    pub flip_horizontal: bool,
    /// Whether it is mirrored top to bottom.
    pub flip_vertical: bool,
}

impl ClipTransform {
    /// The transform that leaves a picture as it is.
    pub open spec fn identity() -> ClipTransform {
        ClipTransform {
            crop: None,
            output_size: None,
            quarter_turns: 0,
            flip_horizontal: false,
            flip_vertical: false,
        }
    }

    /// The transform that leaves a picture as it is.
    pub fn none() -> (transform: ClipTransform)
        ensures
            transform == ClipTransform::identity(),
    {
        ClipTransform {
            crop: None,
            output_size: None,
            quarter_turns: 0,
            flip_horizontal: false,
            flip_vertical: false,
        }
    }
}

/// How a frame relates to the recorded input.
#[derive(Clone, Copy, Debug, PartialEq, Eq, Hash, Structural)]
pub enum CaptureBinding {
    /// The input belongs to the picture as it is.
    Original,
    /// The picture was composed from recorded frames.
    ArchivedAfterComposite,
    /// Nothing was recorded for the frame.
    NotRecorded,
}

/// The clock that recorded input is measured by.
#[derive(Clone, Copy, Debug, PartialEq, Eq, Hash, Structural)]
pub struct CaptureClock {
    /// The recording, where it is known.
    pub id: Option<u128>,
    /// When the frame was taken.
    pub sample_at: TimeUs,
}

/// The recorded input of a frame.
#[derive(Clone, Debug, PartialEq, Eq)]
pub struct CaptureMetadata {
    /// Where the cursor image is stored.
    pub cursor_asset: Option<AssetId>,
    /// The rest of the recording.
    pub recorded: Payload,
}

/// What a [`CaptureMetadata`] shows.
pub struct MetadataView {
    /// Where the cursor image is stored.
    pub cursor_asset: Option<AssetId>,
    /// The rest of the recording.
    pub recorded: Seq<u8>,
}

impl CaptureMetadata {
    /// The metadata of a frame that recorded nothing.
    pub fn empty() -> (metadata: CaptureMetadata)
        ensures
            metadata@ == MetadataView::nothing(),
    {
        CaptureMetadata { cursor_asset: None, recorded: Payload { bytes: Vec::new() } }
    }
}

impl MetadataView {
    /// The metadata of a frame that recorded nothing.
    pub open spec fn nothing() -> MetadataView {
        MetadataView { cursor_asset: None, recorded: Seq::empty() }
    }
}

impl View for CaptureMetadata {
    type V = MetadataView;

    open spec fn view(&self) -> MetadataView {
        MetadataView { cursor_asset: self.cursor_asset, recorded: self.recorded@ }
    }
}

impl Value for CaptureMetadata {
    fn duplicate(&self) -> (copy: Self) {
        CaptureMetadata { cursor_asset: self.cursor_asset, recorded: self.recorded.duplicate() }
    }

    fn same(&self, other: &Self) -> (equal: bool) {
        self.cursor_asset == other.cursor_asset && self.recorded.same(&other.recorded)
    }
}

/// One frame of the timeline.
#[derive(Clone, Debug, PartialEq, Eq)]
pub struct FrameClip {
    /// Its identity.
    pub id: FrameId,
    /// Where its picture is stored.
    pub asset_id: AssetId,
    /// How long it is shown.
    pub duration: DurationUs,
    /// How its picture is placed.
    pub transform: ClipTransform,
    /// Its recorded input.
    pub capture_metadata: CaptureMetadata,
    /// The clock of that input.
    pub capture_clock: Option<CaptureClock>,
    /// How the picture relates to that input.
    pub capture_binding: CaptureBinding,
    /// Its effects.
    pub effects: Vec<Effect>,
    /// Its rendering steps.
    pub render_steps: Vec<RenderStep>,
}

/// What a [`FrameClip`] shows.
pub struct FrameView {
    /// Its identity.
    pub id: FrameId,
    /// Where its picture is stored.
    pub asset_id: AssetId,
    /// How long it is shown.
    pub duration: DurationUs,
    /// How its picture is placed.
    pub transform: ClipTransform,
    /// Its recorded input.
    pub capture_metadata: MetadataView,
    /// The clock of that input.
    pub capture_clock: Option<CaptureClock>,
    /// How the picture relates to that input.
    pub capture_binding: CaptureBinding,
    /// Its effects.
    pub effects: Seq<Effect>,
    /// Its rendering steps.
    pub render_steps: Seq<RenderStep>,
}

impl View for FrameClip {
    type V = FrameView;

    open spec fn view(&self) -> FrameView {
        FrameView {
            id: self.id,
            asset_id: self.asset_id,
            duration: self.duration,
            transform: self.transform,
            capture_metadata: self.capture_metadata@,
            capture_clock: self.capture_clock,
            capture_binding: self.capture_binding,
            effects: self.effects@,
            render_steps: self.render_steps@,
        }
    }
}

impl Value for FrameClip {
    fn duplicate(&self) -> (copy: Self) {
        FrameClip {
            id: self.id,
            asset_id: self.asset_id,
            duration: self.duration,
            transform: self.transform,
            capture_metadata: self.capture_metadata.duplicate(),
            capture_clock: self.capture_clock,
            capture_binding: self.capture_binding,
            effects: copy_all(&self.effects),
            render_steps: copy_all(&self.render_steps),
        }
    }

    fn same(&self, other: &Self) -> (equal: bool) {
        assert(value::views(self.effects@) =~= self.effects@);
        assert(value::views(other.effects@) =~= other.effects@);
        assert(value::views(self.render_steps@) =~= self.render_steps@);
        assert(value::views(other.render_steps@) =~= other.render_steps@);
        self.id == other.id && self.asset_id == other.asset_id && self.duration == other.duration
            && self.transform == other.transform && self.capture_metadata.same(
            &other.capture_metadata,
        ) && self.capture_clock == other.capture_clock && self.capture_binding
            == other.capture_binding && same_all(&self.effects, &other.effects) && same_all(
            &self.render_steps,
            &other.render_steps,
        )
    }
}

/// The sum of the durations of the first `count` frames.
pub open spec fn clock(frames: Seq<FrameView>, count: int) -> int
    decreases count,
{
    if count <= 0 {
        0
    } else {
        clock(frames, count - 1) + frames[count - 1].duration@
    }
}

/// More frames never take less time.
pub proof fn lemma_clock_grows(frames: Seq<FrameView>, less: int, more: int)
    requires
        0 <= less <= more <= frames.len(),
    ensures
        0 <= clock(frames, less) <= clock(frames, more),
    decreases more,
{
    broadcast use crate::time::lemma_duration_range;

    if less < more {
        lemma_clock_grows(frames, less, more - 1);
    } else if less > 0 {
        lemma_clock_grows(frames, less - 1, less - 1);
    }
}

/// The time at which the frame at `count` starts, where it can be represented.
pub fn start_of(frames: &Vec<FrameClip>, count: usize) -> (start: Option<u64>)
    requires
        count <= frames@.len(),
    ensures
        match start {
            Some(time) => time == clock(value::views(frames@), count as int),
            None => clock(value::views(frames@), count as int) > u64::MAX,
        },
{
    let mut time: u64 = 0;
    let mut index: usize = 0;
    while index < count
        invariant
            index <= count <= frames@.len(),
            time == clock(value::views(frames@), index as int),
        decreases count - index,
    {
        match time.checked_add(frames[index].duration.get()) {
            Some(next) => {
                time = next;
            },
            None => {
                proof {
                    lemma_clock_grows(value::views(frames@), index + 1, count as int);
                }
                return None;
            },
        }
        index += 1;
    }
    Some(time)
}

/// The first `count` of more frames take as long as they do alone.
pub proof fn lemma_clock_prefix(frames: Seq<FrameView>, more: Seq<FrameView>, count: int)
    requires
        0 <= count <= frames.len() <= more.len(),
        forall|i: int| 0 <= i < count ==> #[trigger] frames[i] == more[i],
    ensures
        clock(frames, count) == clock(more, count),
    decreases count,
{
    if count > 0 {
        lemma_clock_prefix(frames, more, count - 1);
        assert(frames[count - 1] == more[count - 1]);
    }
}

/// The clock adds up: frames that follow others begin when those are over, a frame takes its own
/// duration, and nothing takes no time.
pub proof fn law_the_clock_adds_up(frames: Seq<FrameView>, more: Seq<FrameView>, frame: FrameView)
    ensures
        clock(frames + more, (frames + more).len() as int) == clock(frames, frames.len() as int) + clock(
            more,
            more.len() as int,
        ),
        clock(frames + more, frames.len() as int) == clock(frames, frames.len() as int),
        clock(seq![frame], 1) == frame.duration@,
        clock(frames, 0) == 0,
    decreases more.len(),
{
    reveal_with_fuel(clock, 2);
    lemma_clock_prefix(frames, frames + more, frames.len() as int);
    if more.len() > 0 {
        let less = more.drop_last();
        law_the_clock_adds_up(frames, less, frame);
        lemma_clock_prefix(frames + less, frames + more, (frames + less).len() as int);
        lemma_clock_prefix(less, more, less.len() as int);
    }
}

/// A frame names an asset by a mask, by the picture that a region is frozen to, or by the snapshot that is
/// laid over it, and by nothing else.
pub proof fn law_what_a_step_refers_to(effect: Effect, step: RenderStep, id: AssetId)
    ensures
        effect.asset() == Some(id) <==> (effect matches Effect::Cinemagraph { mask_asset, .. } && mask_asset == id),
        step.asset() == Some(id) <==> {
            ||| step matches RenderStep::Effect { effect: Effect::Cinemagraph { mask_asset, .. } } && mask_asset == id
            ||| step matches RenderStep::FreezeRegion { baseline_asset, .. } && baseline_asset == id
            ||| step matches RenderStep::CinemagraphOverlay { snapshot_asset, .. } && snapshot_asset == id
        },
{
}

/// Two frames that are seen alike agree in all that they hold.
pub proof fn law_frames_are_seen_whole(one: FrameClip, other: FrameClip)
    requires
        one@ == other@,
    ensures
        one.id == other.id,
        one.asset_id == other.asset_id,
        one.duration == other.duration,
        one.transform == other.transform,
        one.capture_metadata.cursor_asset == other.capture_metadata.cursor_asset,
        one.capture_metadata.recorded.bytes@ == other.capture_metadata.recorded.bytes@,
        one.capture_clock == other.capture_clock,
        one.capture_binding == other.capture_binding,
        one.effects@ == other.effects@,
        one.render_steps@ == other.render_steps@,
{
}

/// Nothing is cropped, resized, turned or flipped by the transform that changes nothing.
pub proof fn law_the_plain_transform_changes_nothing()
    ensures
        ({
            let plain = ClipTransform::identity();
            &&& plain.crop is None && plain.output_size is None
            &&& plain.quarter_turns == 0 && !plain.flip_horizontal && !plain.flip_vertical
        }),
{
}

} // verus!
