//! Projects: stored assets, the canvas, the timeline and the commands that edit them.
use vstd::prelude::*;
use crate::frames;
use crate::frames::{start_of, FrameClip, FrameView};
use crate::geometry::{PhysicalRect, PhysicalSize, Rgba};
use crate::ids::{AssetId, FrameId, ProjectId, TrackId, TransitionId};
use crate::overlay::{OverlayTrack, TrackView};
use crate::time::DurationUs;
use crate::value;
use crate::value::Value;

verus! {

/// How the pixels of a stored picture are written.
#[derive(Clone, Copy, Debug, PartialEq, Eq, Hash, Structural)]
pub enum RasterEncoding {
    /// Four bytes per pixel.
    Rgba8,
    /// The QOI format.
    Qoi,
}

/// What a stored blob is.
#[derive(Clone, Debug, PartialEq, Eq)]
pub enum AssetKind {
    /// The picture of a frame.
    Frame {
        /// Its dimensions.
        size: PhysicalSize,
        /// How its pixels are written.
        encoding: RasterEncoding,
    },
    /// A picture that overlays paint.
    OverlayImage {
        /// Its dimensions.
        size: PhysicalSize,
        /// How its pixels are written.
        encoding: RasterEncoding,
    },
    /// A mask.
    Mask {
        /// Its dimensions.
        size: PhysicalSize,
        /// How its pixels are written.
        encoding: RasterEncoding,
    },
    /// A picture with premultiplied alpha, in a container of its own.
    PremultipliedSnapshot {
        /// Its dimensions.
        size: PhysicalSize,
        /// Version of the container.
        format_version: u8,
    },
    /// Anything else that was imported.
    ImportedSource {
        /// Its media type.
        media_type: String,
    },
}

/// What an [`AssetKind`] shows.
pub enum KindView {
    /// The picture of a frame.
    Frame { size: PhysicalSize, encoding: RasterEncoding },
    /// A picture that overlays paint.
    OverlayImage { size: PhysicalSize, encoding: RasterEncoding },
    /// A mask.
    Mask { size: PhysicalSize, encoding: RasterEncoding },
    /// A picture with premultiplied alpha.
    PremultipliedSnapshot { size: PhysicalSize, format_version: u8 },
    /// Anything else.
    ImportedSource { media_type: Seq<char> },
}

impl KindView {
    /// The dimensions and the encoding of a plain raster.
    pub open spec fn raster(self) -> Option<(PhysicalSize, RasterEncoding)> {
        match self {
            KindView::Frame { size, encoding } => Some((size, encoding)),
            KindView::OverlayImage { size, encoding } => Some((size, encoding)),
            KindView::Mask { size, encoding } => Some((size, encoding)),
            _ => None,
        }
    }
}

impl View for AssetKind {
    type V = KindView;

    open spec fn view(&self) -> KindView {
        match *self {
            AssetKind::Frame { size, encoding } => KindView::Frame { size, encoding },
            AssetKind::OverlayImage { size, encoding } => KindView::OverlayImage { size, encoding },
            AssetKind::Mask { size, encoding } => KindView::Mask { size, encoding },
            AssetKind::PremultipliedSnapshot { size, format_version } => {
                KindView::PremultipliedSnapshot { size, format_version }
            },
            AssetKind::ImportedSource { media_type } => KindView::ImportedSource {
                media_type: media_type@,
            },
        }
    }
}

impl AssetKind {
    /// The dimensions and the encoding of a plain raster.
    pub fn raster_descriptor(&self) -> (raster: Option<(PhysicalSize, RasterEncoding)>)
        ensures
            raster == self@.raster(),
    {
        match self {
            AssetKind::Frame { size, encoding } => Some((*size, *encoding)),
            AssetKind::OverlayImage { size, encoding } => Some((*size, *encoding)),
            AssetKind::Mask { size, encoding } => Some((*size, *encoding)),
            _ => None,
        }
    }
}

impl Value for AssetKind {
    fn duplicate(&self) -> (copy: Self) {
        match self {
            AssetKind::Frame { size, encoding } => AssetKind::Frame {
                size: *size,
                encoding: *encoding,
            },
            AssetKind::OverlayImage { size, encoding } => AssetKind::OverlayImage {
                size: *size,
                encoding: *encoding,
            },
            AssetKind::Mask { size, encoding } => AssetKind::Mask { size: *size, encoding: *encoding },
            AssetKind::PremultipliedSnapshot { size, format_version } => {
                AssetKind::PremultipliedSnapshot { size: *size, format_version: *format_version }
            },
            AssetKind::ImportedSource { media_type } => AssetKind::ImportedSource {
                media_type: media_type.clone(),
            },
        }
    }

    fn same(&self, other: &Self) -> (equal: bool) {
        match (self, other) {
            (
                AssetKind::Frame { size, encoding },
                AssetKind::Frame { size: other_size, encoding: other_encoding },
            ) => *size == *other_size && *encoding == *other_encoding,
            (
                AssetKind::OverlayImage { size, encoding },
                AssetKind::OverlayImage { size: other_size, encoding: other_encoding },
            ) => *size == *other_size && *encoding == *other_encoding,
            (
                AssetKind::Mask { size, encoding },
                AssetKind::Mask { size: other_size, encoding: other_encoding },
            ) => *size == *other_size && *encoding == *other_encoding,
            (
                AssetKind::PremultipliedSnapshot { size, format_version },
                AssetKind::PremultipliedSnapshot {
                    size: other_size,
                    format_version: other_version,
                },
            ) => *size == *other_size && *format_version == *other_version,
            (
                AssetKind::ImportedSource { media_type },
                AssetKind::ImportedSource { media_type: other_type },
            ) => *media_type == *other_type,
            _ => false,
        }
    }
}

/// A registered blob.
#[derive(Clone, Debug, PartialEq, Eq)]
pub struct AssetDescriptor {
    /// Its digest.
    pub id: AssetId,
    /// Its length in bytes.
    pub byte_len: u64,
    /// What it is.
    pub kind: AssetKind,
}

/// What an [`AssetDescriptor`] shows.
pub struct DescriptorView {
    /// Its digest.
    pub id: AssetId,
    /// Its length in bytes.
    pub byte_len: u64,
    /// What it is.
    pub kind: KindView,
}

impl View for AssetDescriptor {
    type V = DescriptorView;

    open spec fn view(&self) -> DescriptorView {
        DescriptorView { id: self.id, byte_len: self.byte_len, kind: self.kind@ }
    }
}

impl Value for AssetDescriptor {
    fn duplicate(&self) -> (copy: Self) {
        AssetDescriptor { id: self.id, byte_len: self.byte_len, kind: self.kind.duplicate() }
    }

    fn same(&self, other: &Self) -> (equal: bool) {
        self.id == other.id && self.byte_len == other.byte_len && self.kind.same(&other.kind)
    }
}

/// Whether a blob of the given digest is registered.
pub open spec fn registered(assets: Seq<DescriptorView>, id: AssetId) -> bool {
    exists|i: int| 0 <= i < assets.len() && (#[trigger] assets[i]).id == id
}

/// The position of the first descriptor of the given digest.
pub open spec fn is_first(assets: Seq<DescriptorView>, id: AssetId, index: int) -> bool {
    &&& 0 <= index < assets.len()
    &&& assets[index].id == id
    &&& forall|i: int| 0 <= i < index ==> (#[trigger] assets[i]).id != id
}

/// The descriptor registered for a digest.
pub open spec fn asset_of(assets: Seq<DescriptorView>, id: AssetId) -> Option<DescriptorView> {
    if registered(assets, id) {
        Some(assets[choose|index: int| is_first(assets, id, index)])
    } else {
        None
    }
}

/// The position of the descriptor registered for a digest.
pub fn find_asset(assets: &Vec<AssetDescriptor>, id: AssetId) -> (index: Option<usize>)
    ensures
        match index {
            Some(at) => {
                &&& is_first(value::views(assets@), id, at as int)
                &&& asset_of(value::views(assets@), id) == Some(assets@[at as int]@)
            },
            None => asset_of(value::views(assets@), id) is None,
        },
{
    let mut index: usize = 0;
    while index < assets.len()
        invariant
            index <= assets.len(),
            forall|i: int| 0 <= i < index ==> (#[trigger] value::views(assets@)[i]).id != id,
        decreases assets.len() - index,
    {
        if assets[index].id == id {
            proof {
                let all = value::views(assets@);
                assert(is_first(all, id, index as int));
                let other = choose|at: int| is_first(all, id, at);
                assert(all[index as int].id == id);
                assert(is_first(all, id, other));
                if other < index {
                    assert(all[other].id != id);
                } else if index < other {
                    assert(all[index as int].id != id);
                }
            }
            return Some(index);
        }
        assert(value::views(assets@)[index as int].id != id);
        index += 1;
    }
    None
}

/// The colours a canvas is mixed in.
#[derive(Clone, Copy, Debug, PartialEq, Eq, Hash, Structural)]
pub enum ColorSpace {
    /// Standard RGB.
    Srgb,
    /// Display P3.
    DisplayP3,
}

/// What shows where nothing is painted.
#[derive(Clone, Copy, Debug, PartialEq, Eq, Hash, Structural)]
pub enum CanvasBackground {
    /// Nothing.
    Transparent,
    /// One colour.
    Solid {
        /// The colour.
        color: Rgba,
    },
}

/// The surface that frames are rendered on.
#[derive(Clone, Copy, Debug, PartialEq, Eq, Hash, Structural)]
pub struct Canvas {
    /// Its dimensions.
    pub size: PhysicalSize,
    /// Its colours.
    pub color_space: ColorSpace,
    /// What shows where nothing is painted.
    pub background: CanvasBackground,
}

/// Where frames slide to.
#[derive(Clone, Copy, Debug, PartialEq, Eq, Hash, Structural)]
pub enum SlideDirection {
    /// To the left.
    Left,
    /// To the right.
    Right,
    /// Upwards.
    Up,
    /// Downwards.
    Down,
}

/// How one frame turns into the next.
#[derive(Clone, Copy, Debug, PartialEq, Eq, Hash, Structural)]
pub enum TransitionKind {
    /// The next frame fades in.
    FadeToNext,
    /// A colour fades in and out.
    FadeToColor {
        /// The colour.
        color: Rgba,
    },
    /// The next frame slides in.
    Slide {
        /// Where both frames slide to.
        direction: SlideDirection,
    },
}

/// A transition between two neighbouring frames.
#[derive(Clone, Copy, Debug, PartialEq, Eq, Hash, Structural)]
pub struct Transition {
    /// Its identity.
    pub id: TransitionId,
    /// The frame it starts from.
    pub from_frame: FrameId,
    /// The frame it leads to.
    pub to_frame: FrameId,
    /// How long it takes.
    pub duration: DurationUs,
    /// Number of pictures it is made of.
    pub steps: u16,
    /// How it looks.
    pub kind: TransitionKind,
}

impl View for Transition {
    type V = Transition;

    open spec fn view(&self) -> Transition {
        *self
    }
}

impl Value for Transition {
    fn duplicate(&self) -> (copy: Self) {
        *self
    }

    fn same(&self, other: &Self) -> (equal: bool) {
        *self == *other
    }
}

/// The frames of a project with their overlays and transitions.
#[derive(Clone, Debug, PartialEq, Eq)]
pub struct Timeline {
    /// The frames in order.
    pub frames: Vec<FrameClip>,
    /// The layers in order.
    pub overlay_tracks: Vec<OverlayTrack>,
    /// The transitions.
    pub transitions: Vec<Transition>,
}

/// What a [`Timeline`] shows.
pub struct TimelineView {
    /// The frames.
    pub frames: Seq<FrameView>,
    /// The layers.
    pub overlay_tracks: Seq<TrackView>,
    /// The transitions.
    pub transitions: Seq<Transition>,
}

impl View for Timeline {
    type V = TimelineView;

    open spec fn view(&self) -> TimelineView {
        TimelineView {
            frames: value::views(self.frames@),
            overlay_tracks: value::views(self.overlay_tracks@),
            transitions: self.transitions@,
        }
    }
}

impl TimelineView {
    /// The time that all frames take.
    pub open spec fn total(self) -> int {
        frames::clock(self.frames, self.frames.len() as int)
    }
}

impl Timeline {
    /// The time that all frames take, where it can be represented.
    pub fn total_duration(&self) -> (total: Option<u64>)
        ensures
            match total {
                Some(time) => time == self@.total(),
                None => self@.total() > u64::MAX,
            },
    {
        start_of(&self.frames, self.frames.len())
    }
}

/// A project as the editor reads it.
#[derive(Clone, Debug, PartialEq, Eq)]
pub struct ProjectManifest {
    /// Its identity.
    pub project_id: ProjectId,
    /// How often it has been edited.
    pub revision: u64,
    /// The surface its frames are rendered on.
    pub canvas: Canvas,
    /// The registered blobs.
    pub assets: Vec<AssetDescriptor>,
    /// Its frames, layers and transitions.
    pub timeline: Timeline,
}

/// What a [`ProjectManifest`] shows.
pub struct ManifestView {
    /// Its identity.
    pub project_id: ProjectId,
    /// How often it has been edited.
    pub revision: u64,
    /// The surface its frames are rendered on.
    pub canvas: Canvas,
    /// The registered blobs.
    pub assets: Seq<DescriptorView>,
    /// Its frames, layers and transitions.
    pub timeline: TimelineView,
}

impl View for ProjectManifest {
    type V = ManifestView;

    open spec fn view(&self) -> ManifestView {
        ManifestView {
            project_id: self.project_id,
            revision: self.revision,
            canvas: self.canvas,
            assets: value::views(self.assets@),
            timeline: self.timeline@,
        }
    }
}

/// An edit of the last stage of frames.
#[derive(Clone, Copy, Debug, PartialEq, Eq, Hash, Structural)]
pub enum ComposedFrameEdit {
    /// Shows a region of a still picture, or all but that region.
    FreezeRegion {
        /// Where the still picture is stored.
        baseline_asset: AssetId,
        /// Its dimensions.
        baseline_size: PhysicalSize,
        /// The region.
        region: PhysicalRect,
        /// Whether the region itself is frozen.
        invert: bool,
    },
    /// Paints a clipped still picture.
    CinemagraphOverlay {
        /// Where the picture is stored.
        snapshot_asset: AssetId,
        /// Its dimensions.
        snapshot_size: PhysicalSize,
    },
}

/// One change of a project. An edit is a list of them, applied together or not at all.
#[derive(Clone, Debug, PartialEq, Eq)]
pub enum EditCommand {
    /// Registers a blob.
    RegisterAsset {
        /// The blob.
        asset: AssetDescriptor,
    },
    /// Puts a frame in the place of another.
    ReplaceFrame {
        /// The frame to replace.
        frame_id: FrameId,
        /// Its replacement.
        replacement: Box<FrameClip>,
    },
    /// Inserts frames.
    InsertFrames {
        /// Position of the first of them.
        index: usize,
        /// The frames.
        frames: Vec<FrameClip>,
    },
    /// Adds a layer or replaces the one of its identity.
    UpsertOverlayTrack {
        /// The layer.
        track: OverlayTrack,
    },
    /// Removes a layer.
    RemoveOverlayTrack {
        /// Its identity.
        track_id: TrackId,
    },
    /// Replaces all transitions.
    SetTransitions {
        /// The transitions.
        transitions: Vec<Transition>,
    },
    /// Replaces the canvas.
    SetCanvas {
        /// The canvas.
        canvas: Canvas,
    },
    /// Edits the last stage of frames.
    EditComposedFrames {
        /// The frames.
        frame_ids: Vec<FrameId>,
        /// The edit.
        edit: ComposedFrameEdit,
    },
    /// Removes every frame after the given one.
    DeleteFramesAfter {
        /// The last frame that stays.
        frame_id: FrameId,
    },
}

/// What an [`EditCommand`] shows.
pub enum CommandView {
    /// Registers a blob.
    RegisterAsset { asset: DescriptorView },
    /// Puts a frame in the place of another.
    ReplaceFrame { frame_id: FrameId, replacement: FrameView },
    /// Inserts frames.
    InsertFrames { index: int, frames: Seq<FrameView> },
    /// Adds or replaces a layer.
    UpsertOverlayTrack { track: TrackView },
    /// Removes a layer.
    RemoveOverlayTrack { track_id: TrackId },
    /// Replaces all transitions.
    SetTransitions { transitions: Seq<Transition> },
    /// Replaces the canvas.
    SetCanvas { canvas: Canvas },
    /// Edits the last stage of frames.
    EditComposedFrames { frame_ids: Seq<FrameId>, edit: ComposedFrameEdit },
    /// Removes every frame after the given one.
    DeleteFramesAfter { frame_id: FrameId },
}

impl View for EditCommand {
    type V = CommandView;

    open spec fn view(&self) -> CommandView {
        match *self {
            EditCommand::RegisterAsset { asset } => CommandView::RegisterAsset { asset: asset@ },
            EditCommand::ReplaceFrame { frame_id, replacement } => CommandView::ReplaceFrame {
                frame_id,
                replacement: (*replacement)@,
            },
            EditCommand::InsertFrames { index, frames } => CommandView::InsertFrames {
                index: index as int,
                frames: value::views(frames@),
            },
            EditCommand::UpsertOverlayTrack { track } => CommandView::UpsertOverlayTrack {
                track: track@,
            },
            EditCommand::RemoveOverlayTrack { track_id } => CommandView::RemoveOverlayTrack {
                track_id,
            },
            EditCommand::SetTransitions { transitions } => CommandView::SetTransitions {
                transitions: transitions@,
            },
            EditCommand::SetCanvas { canvas } => CommandView::SetCanvas { canvas },
            EditCommand::EditComposedFrames { frame_ids, edit } => CommandView::EditComposedFrames {
                frame_ids: frame_ids@,
                edit,
            },
            EditCommand::DeleteFramesAfter { frame_id } => CommandView::DeleteFramesAfter { frame_id },
        }
    }
}

/// An identity stands for the first asset that is registered under it.
pub proof fn law_an_identity_stands_for_the_first_asset(assets: Seq<DescriptorView>, id: AssetId, at: int)
    requires
        0 <= at < assets.len(),
        assets[at].id == id,
        forall|i: int| 0 <= i < at ==> (#[trigger] assets[i]).id != id,
    ensures
        asset_of(assets, id) == Some(assets[at]),
{
    assert(is_first(assets, id, at));
    let found = choose|index: int| is_first(assets, id, index);
    assert(found == at);
}

/// An identity stands for nothing exactly where no asset has it.
pub proof fn law_an_unknown_identity_stands_for_nothing(assets: Seq<DescriptorView>, id: AssetId)
    ensures
        asset_of(assets, id) is None <==> forall|i: int| 0 <= i < assets.len() ==> (#[trigger] assets[i]).id != id,
{
}

/// Frames, overlay images and masks are pictures, in the size and the encoding that they tell; snapshots
/// and imported sources are none.
pub proof fn law_what_is_a_picture(kind: KindView, size: PhysicalSize, encoding: RasterEncoding)
    ensures
        kind.raster() == Some((size, encoding)) <==> {
            ||| kind == (KindView::Frame { size, encoding })
            ||| kind == (KindView::OverlayImage { size, encoding })
            ||| kind == (KindView::Mask { size, encoding })
        },
        kind.raster() is None <==> kind is PremultipliedSnapshot || kind is ImportedSource,
{
}

/// Two projects that are seen alike agree in all that they hold.
pub proof fn law_projects_are_seen_whole(one: ProjectManifest, other: ProjectManifest, at: int)
    requires
        one@ == other@,
    ensures
        one.project_id == other.project_id,
        one.revision == other.revision,
        one.canvas == other.canvas,
        one.timeline.transitions@ == other.timeline.transitions@,
        one.assets@.len() == other.assets@.len(),
        one.timeline.frames@.len() == other.timeline.frames@.len(),
        one.timeline.overlay_tracks@.len() == other.timeline.overlay_tracks@.len(),
        0 <= at < one.assets@.len() ==> one.assets@[at].id == other.assets@[at].id && one.assets@[at].byte_len
            == other.assets@[at].byte_len && one.assets@[at].kind@ == other.assets@[at].kind@,
        0 <= at < one.timeline.frames@.len() ==> one.timeline.frames@[at]@ == other.timeline.frames@[at]@,
        0 <= at < one.timeline.overlay_tracks@.len() ==> one.timeline.overlay_tracks@[at]@
            == other.timeline.overlay_tracks@[at]@,
{
    assert(value::views(one.assets@).len() == value::views(other.assets@).len());
    assert(value::views(one.timeline.frames@).len() == value::views(other.timeline.frames@).len());
    assert(value::views(one.timeline.overlay_tracks@).len() == value::views(other.timeline.overlay_tracks@).len());
    if 0 <= at < one.assets@.len() {
        assert(value::views(one.assets@)[at] == one.assets@[at]@);
        assert(value::views(other.assets@)[at] == other.assets@[at]@);
    }
    if 0 <= at < one.timeline.frames@.len() {
        assert(value::views(one.timeline.frames@)[at] == one.timeline.frames@[at]@);
        assert(value::views(other.timeline.frames@)[at] == other.timeline.frames@[at]@);
    }
    if 0 <= at < one.timeline.overlay_tracks@.len() {
        assert(value::views(one.timeline.overlay_tracks@)[at] == one.timeline.overlay_tracks@[at]@);
        assert(value::views(other.timeline.overlay_tracks@)[at] == other.timeline.overlay_tracks@[at]@);
    }
}

/// Two kinds of asset that are seen alike are the same kind, with the same size, encoding, version and
/// media type.
pub proof fn law_kinds_are_seen_whole(one: AssetKind, other: AssetKind)
    requires
        one@ == other@,
    ensures
        match (one, other) {
            (AssetKind::Frame { size, encoding }, AssetKind::Frame { size: s, encoding: e }) => size == s && encoding
                == e,
            (AssetKind::OverlayImage { size, encoding }, AssetKind::OverlayImage { size: s, encoding: e }) => size == s
                && encoding == e,
            (AssetKind::Mask { size, encoding }, AssetKind::Mask { size: s, encoding: e }) => size == s && encoding
                == e,
            (
                AssetKind::PremultipliedSnapshot { size, format_version },
                AssetKind::PremultipliedSnapshot { size: s, format_version: v },
            ) => size == s && format_version == v,
            (AssetKind::ImportedSource { media_type }, AssetKind::ImportedSource { media_type: m }) => media_type@
                == m@,
            _ => false,
        },
{
}

} // verus!
