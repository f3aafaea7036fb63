//! Overlay tracks: timed items and marks owned by frames.
use vstd::prelude::*;
use crate::content::{
    duplicate_option, same_option, BlendMode, ContentView, OverlayContent, Payload,
};
use crate::ids::{AssetId, FrameId, OverlayId, TrackId};
use crate::time::{DurationUs, TimeUs, TimelineSpan};
use crate::value;
use crate::value::{
    copy_all, copy_option_list, duplicate_all, duplicate_optional, same_all, same_optional, Value,
};

verus! {

impl View for TimelineSpan {
    type V = TimelineSpan;

    open spec fn view(&self) -> TimelineSpan {
        *self
    }
}

impl Value for TimelineSpan {
    fn duplicate(&self) -> (copy: Self) {
        *self
    }

    fn same(&self, other: &Self) -> (equal: bool) {
        *self == *other
    }
}

/// A part of one frame, in microseconds from the start of the frame.
#[derive(Clone, Copy, Debug, PartialEq, Eq, Hash, Structural)]
pub struct FrameLocalSpan {
    /// First microsecond of the part.
    pub start: u64,
    /// First microsecond after the part.
    pub end: u64,
    /// Length of the frame.
    pub whole: DurationUs,
}

impl FrameLocalSpan {
    /// The part from `start` to `end` of a frame of the given length, where that
    /// is a nonempty part of it.
    pub fn new(start: u64, end: u64, whole: DurationUs) -> (span: Option<FrameLocalSpan>)
        ensures
            span == (if start < end <= whole@ {
                Some(FrameLocalSpan { start, end, whole })
            } else {
                None
            }),
    {
        if start < end && end <= whole.get() {
            Some(FrameLocalSpan { start, end, whole })
        } else {
            None
        }
    }
}

/// A part of a frame that one authoring run covers.
#[derive(Clone, Copy, Debug, PartialEq, Eq, Hash, Structural)]
pub struct FrameAuthoringSpan {
    /// The authoring run.
    pub run_id: u32,
    /// The part of the frame.
    pub span: FrameLocalSpan,
}

impl View for FrameAuthoringSpan {
    type V = FrameAuthoringSpan;

    open spec fn view(&self) -> FrameAuthoringSpan {
        *self
    }
}

impl Value for FrameAuthoringSpan {
    fn duplicate(&self) -> (copy: Self) {
        *self
    }

    fn same(&self, other: &Self) -> (equal: bool) {
        *self == *other
    }
}

/// A place in a stored pool of recorded input.
#[derive(Clone, Copy, Debug, PartialEq, Eq, Hash, Structural)]
pub struct FrameInputReplayRef {
    /// The authoring run.
    pub run_id: u32,
    /// Where the pool is stored.
    pub asset_id: AssetId,
    /// When the input is sampled.
    pub sample_at: TimeUs,
    /// How much of the pool has been replayed by then.
    pub step_end: u32,
}

impl View for FrameInputReplayRef {
    type V = FrameInputReplayRef;

    open spec fn view(&self) -> FrameInputReplayRef {
        *self
    }
}

impl Value for FrameInputReplayRef {
    fn duplicate(&self) -> (copy: Self) {
        *self
    }

    fn same(&self, other: &Self) -> (equal: bool) {
        *self == *other
    }
}

/// One painted mark of a frame.
#[derive(Clone, Debug, PartialEq, Eq)]
pub struct FrameOverlayMark {
    /// Its identity.
    pub id: OverlayId,
    /// Its place in the painting order.
    pub z_index: i32,
    /// What it paints.
    pub content: OverlayContent,
}

/// What a [`FrameOverlayMark`] shows.
pub struct MarkView {
    /// Its identity.
    pub id: OverlayId,
    /// Its place in the painting order.
    pub z_index: i32,
    /// What it paints.
    pub content: ContentView,
}

impl View for FrameOverlayMark {
    type V = MarkView;

    open spec fn view(&self) -> MarkView {
        MarkView { id: self.id, z_index: self.z_index, content: self.content@ }
    }
}

impl Value for FrameOverlayMark {
    fn duplicate(&self) -> (copy: Self) {
        FrameOverlayMark {
            id: self.id,
            z_index: self.z_index,
            content: self.content.duplicate(),
        }
    }

    fn same(&self, other: &Self) -> (equal: bool) {
        self.id == other.id && self.z_index == other.z_index && self.content.same(&other.content)
    }
}

/// What a track paints on one frame.
#[derive(Clone, Debug, PartialEq, Eq)]
pub struct FrameOverlayCell {
    /// The frame that owns the marks.
    pub frame_id: FrameId,
    /// The rendering stage the marks are painted at, where it is not the last.
    pub stage: Option<u128>,
    /// The parts of the frame that authoring covered.
    pub scopes: Vec<FrameAuthoringSpan>,
    /// The marks in source order.
    pub marks: Vec<FrameOverlayMark>,
    /// The recorded input that the marks replay.
    pub input_replay: Option<Vec<FrameInputReplayRef>>,
}

/// What a [`FrameOverlayCell`] shows.
pub struct CellView {
    /// The frame that owns the marks.
    pub frame_id: FrameId,
    /// The rendering stage.
    pub stage: Option<u128>,
    /// The covered parts.
    pub scopes: Seq<FrameAuthoringSpan>,
    /// The marks.
    pub marks: Seq<MarkView>,
    /// The recorded input.
    pub input_replay: Option<Seq<FrameInputReplayRef>>,
}

impl View for FrameOverlayCell {
    type V = CellView;

    open spec fn view(&self) -> CellView {
        CellView {
            frame_id: self.frame_id,
            stage: self.stage,
            scopes: self.scopes@,
            marks: value::views(self.marks@),
            input_replay: value::option_list(self.input_replay),
        }
    }
}

/// Whether both optional lists hold the same input places.
fn same_replay(
    left: &Option<Vec<FrameInputReplayRef>>,
    right: &Option<Vec<FrameInputReplayRef>>,
) -> (equal: bool)
    ensures
        equal == (value::option_list(*left) == value::option_list(*right)),
{
    match (left, right) {
        (Some(left), Some(right)) => {
            assert(value::views(left@) =~= left@);
            assert(value::views(right@) =~= right@);
            same_all(left, right)
        },
        (None, None) => true,
        _ => false,
    }
}

impl Value for FrameOverlayCell {
    fn duplicate(&self) -> (copy: Self) {
        FrameOverlayCell {
            frame_id: self.frame_id,
            stage: self.stage,
            scopes: copy_all(&self.scopes),
            marks: duplicate_all(&self.marks),
            input_replay: copy_option_list(&self.input_replay),
        }
    }

    fn same(&self, other: &Self) -> (equal: bool) {
        assert(value::views(self.scopes@) =~= self.scopes@);
        assert(value::views(other.scopes@) =~= other.scopes@);
        self.frame_id == other.frame_id && self.stage == other.stage && same_all(
            &self.scopes,
            &other.scopes,
        ) && same_all(&self.marks, &other.marks) && same_replay(
            &self.input_replay,
            &other.input_replay,
        )
    }
}

/// An overlay shown during a span of the timeline.
#[derive(Clone, Debug, PartialEq, Eq)]
pub struct OverlayItem {
    /// Its identity.
    pub id: OverlayId,
    /// When it is shown.
    pub span: TimelineSpan,
    /// Its place in the painting order.
    pub z_index: i32,
    /// What it paints.
    pub content: OverlayContent,
}

/// What an [`OverlayItem`] shows.
pub struct ItemView {
    /// Its identity.
    pub id: OverlayId,
    /// When it is shown.
    pub span: TimelineSpan,
    /// Its place in the painting order.
    pub z_index: i32,
    /// What it paints.
    pub content: ContentView,
}

impl View for OverlayItem {
    type V = ItemView;

    open spec fn view(&self) -> ItemView {
        ItemView { id: self.id, span: self.span, z_index: self.z_index, content: self.content@ }
    }
}

impl Value for OverlayItem {
    fn duplicate(&self) -> (copy: Self) {
        OverlayItem {
            id: self.id,
            span: self.span,
            z_index: self.z_index,
            content: self.content.duplicate(),
        }
    }

    fn same(&self, other: &Self) -> (equal: bool) {
        self.id == other.id && self.span == other.span && self.z_index == other.z_index
            && self.content.same(&other.content)
    }
}

/// A layer of overlays.
#[derive(Clone, Debug, PartialEq, Eq)]
pub struct OverlayTrack {
    /// Its identity.
    pub id: TrackId,
    /// The marks owned by frames, where the layer is not timed.
    pub frame_cells: Option<Vec<FrameOverlayCell>>,
    /// The recipe the layer was authored from.
    pub annotation: Option<Payload>,
    /// The spans that authoring covered, where they are known.
    pub annotation_scope: Option<Vec<TimelineSpan>>,
    /// Its name.
    pub name: String,
    /// Whether it is shown.
    pub visible: bool,
    /// How strongly it is painted.
    pub opacity: u8,
    /// How it is mixed with what lies under it.
    pub blend_mode: BlendMode,
    /// The timed overlays.
    pub items: Vec<OverlayItem>,
}

/// What an [`OverlayTrack`] shows.
pub struct TrackView {
    /// Its identity.
    pub id: TrackId,
    /// The marks owned by frames.
    pub frame_cells: Option<Seq<CellView>>,
    /// The recipe.
    pub annotation: Option<Seq<u8>>,
    /// The covered spans.
    pub annotation_scope: Option<Seq<TimelineSpan>>,
    /// Its name.
    pub name: Seq<char>,
    /// Whether it is shown.
    pub visible: bool,
    /// How strongly it is painted.
    pub opacity: u8,
    /// How it is mixed.
    pub blend_mode: BlendMode,
    /// The timed overlays.
    pub items: Seq<ItemView>,
}

impl View for OverlayTrack {
    type V = TrackView;

    open spec fn view(&self) -> TrackView {
        TrackView {
            id: self.id,
            frame_cells: value::optional_views(self.frame_cells),
            annotation: value::option_view(self.annotation),
            annotation_scope: value::option_list(self.annotation_scope),
            name: self.name@,
            visible: self.visible,
            opacity: self.opacity,
            blend_mode: self.blend_mode,
            items: value::views(self.items@),
        }
    }
}

/// Whether both optional scopes hold the same spans.
fn same_scope(left: &Option<Vec<TimelineSpan>>, right: &Option<Vec<TimelineSpan>>) -> (equal: bool)
    ensures
        equal == (value::option_list(*left) == value::option_list(*right)),
{
    match (left, right) {
        (Some(left), Some(right)) => {
            assert(value::views(left@) =~= left@);
            assert(value::views(right@) =~= right@);
            same_all(left, right)
        },
        (None, None) => true,
        _ => false,
    }
}

impl Value for OverlayTrack {
    fn duplicate(&self) -> (copy: Self) {
        OverlayTrack {
            id: self.id,
            frame_cells: duplicate_optional(&self.frame_cells),
            annotation: duplicate_option(&self.annotation),
            annotation_scope: copy_option_list(&self.annotation_scope),
            name: self.name.clone(),
            visible: self.visible,
            opacity: self.opacity,
            blend_mode: self.blend_mode,
            items: duplicate_all(&self.items),
        }
    }

    fn same(&self, other: &Self) -> (equal: bool) {
        self.id == other.id && same_optional(&self.frame_cells, &other.frame_cells) && same_option(
            &self.annotation,
            &other.annotation,
        ) && same_scope(&self.annotation_scope, &other.annotation_scope) && self.name == other.name
            && self.visible == other.visible && self.opacity == other.opacity && self.blend_mode
            == other.blend_mode && same_all(&self.items, &other.items)
    }
}

/// Two layers that are seen alike agree in all that they hold.
pub proof fn law_layers_are_seen_whole(one: OverlayTrack, other: OverlayTrack, at: int)
    requires
        one@ == other@,
    ensures
        one.id == other.id,
        one.name@ == other.name@,
        one.visible == other.visible,
        one.opacity == other.opacity,
        one.blend_mode == other.blend_mode,
        match (one.annotation, other.annotation) {
            (Some(left), Some(right)) => left.bytes@ == right.bytes@,
            (None, None) => true,
            _ => false,
        },
        match (one.annotation_scope, other.annotation_scope) {
            (Some(left), Some(right)) => left@ == right@,
            (None, None) => true,
            _ => false,
        },
        one.items@.len() == other.items@.len(),
        0 <= at < one.items@.len() ==> {
            &&& one.items@[at].id == other.items@[at].id
            &&& one.items@[at].span == other.items@[at].span
            &&& one.items@[at].z_index == other.items@[at].z_index
            &&& one.items@[at].content@ == other.items@[at].content@
        },
        match (one.frame_cells, other.frame_cells) {
            (Some(left), Some(right)) => {
                &&& left@.len() == right@.len()
                &&& 0 <= at < left@.len() ==> left@[at]@ == right@[at]@
            },
            (None, None) => true,
            _ => false,
        },
{
    assert(value::views(one.items@).len() == value::views(other.items@).len());
    if 0 <= at < one.items@.len() {
        assert(value::views(one.items@)[at] == one.items@[at]@);
        assert(value::views(other.items@)[at] == other.items@[at]@);
    }
    if one.frame_cells is Some && other.frame_cells is Some {
        let left = one.frame_cells->0;
        let right = other.frame_cells->0;
        assert(value::views(left@).len() == value::views(right@).len());
        if 0 <= at < left@.len() {
            assert(value::views(left@)[at] == left@[at]@);
            assert(value::views(right@)[at] == right@[at]@);
        }
    }
}

/// Two cells that are seen alike belong to one frame and agree in all that they hold.
pub proof fn law_cells_are_seen_whole(one: FrameOverlayCell, other: FrameOverlayCell, at: int)
    requires
        one@ == other@,
    ensures
        one.frame_id == other.frame_id,
        one.stage == other.stage,
        one.scopes@ == other.scopes@,
        match (one.input_replay, other.input_replay) {
            (Some(left), Some(right)) => left@ == right@,
            (None, None) => true,
            _ => false,
        },
        one.marks@.len() == other.marks@.len(),
        0 <= at < one.marks@.len() ==> {
            &&& one.marks@[at].id == other.marks@[at].id
            &&& one.marks@[at].z_index == other.marks@[at].z_index
            &&& one.marks@[at].content@ == other.marks@[at].content@
        },
{
    assert(value::views(one.marks@).len() == value::views(other.marks@).len());
    if 0 <= at < one.marks@.len() {
        assert(value::views(one.marks@)[at] == one.marks@[at]@);
        assert(value::views(other.marks@)[at] == other.marks@[at]@);
    }
}

} // verus!
