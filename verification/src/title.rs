//! Text overlays and title frames.
use vstd::prelude::*;
use crate::content::{BlendMode, ContentView, HorizontalAlignment, OverlayContent, TextRaster};
use crate::conversion_edit;
use crate::conversion_edit::find_track;
use crate::frames;
use crate::frames::{
    start_of, CaptureBinding, CaptureMetadata, ClipTransform, FrameClip, FrameView, MetadataView,
};
use crate::geometry::{PhysicalPoint, PhysicalRect, PhysicalSize, Rgba};
use crate::identity;
use crate::identity::draw;
use crate::ids::{AssetId, FrameId, OverlayId, TrackId};
use crate::motion_render;
use crate::motion_render::find_frame;
use crate::overlay::{ItemView, OverlayItem, OverlayTrack, TrackView};
use crate::project;
use crate::project::{
    find_asset, AssetDescriptor, AssetKind, CommandView, DescriptorView, EditCommand, KindView,
    ProjectManifest, RasterEncoding, Timeline, TimelineView,
};
use crate::shifting;
use crate::shifting::{draw_many, keep_unparted, shifted_track};
use crate::spans::DerivedScope;
use crate::time::{DurationUs, TimeUs, TimelineSpan};
use crate::value;
use crate::value::Value;

verus! {

/// Why a text or overlay edit is refused.
#[derive(Clone, Debug, PartialEq, Eq)]
pub enum EditorWorkspaceError {
    /// The text request itself is invalid.
    InvalidText(String),
    /// The layer is no single editable text.
    TextTrackNotEditable(TrackId),
    /// The frame to insert after does not exist.
    UnknownTitleAnchor(FrameId),
    /// The timeline would get too long.
    TitleDurationOverflow,
    /// The shaped pixels have other dimensions than the request.
    TextRasterDimensionsMismatch,
    /// The picture does not lie on the canvas.
    RasterOverlayOutsideCanvas,
    /// Overlays for frames could not be prepared.
    FrameOverlayPreparation(String),
}

/// A text to be shaped.
#[derive(Clone, Debug, PartialEq, Eq)]
pub struct TextRequest {
    /// The words.
    pub text: String,
    /// Name of the font.
    pub font_family: String,
    /// Font height in pixels.
    pub font_size_px: u32,
    /// Dimensions of the shaped pixels.
    pub size: PhysicalSize,
    /// Colour of the letters.
    pub foreground: Rgba,
    /// Colour behind the letters.
    pub background: Option<Rgba>,
    /// Placement of the lines.
    pub alignment: HorizontalAlignment,
}

/// A text that is edited again.
#[derive(Clone, Debug, PartialEq, Eq)]
pub struct TextOverlayDraft {
    /// The layer it comes from.
    pub track_id: TrackId,
    /// The text as it was asked for.
    pub request: TextRequest,
    /// Its top left corner on the canvas.
    pub position: PhysicalPoint,
}

/// What the content of a text overlay is for a request.
pub open spec fn text_view(
    request: TextRequest,
    size: PhysicalSize,
    position: PhysicalPoint,
    asset_id: AssetId,
) -> ContentView {
    ContentView::Text {
        text: request.text@,
        position,
        max_width: Some(request.size.width),
        font_family: request.font_family@,
        font_size_px: request.font_size_px,
        foreground: request.foreground,
        background: request.background,
        alignment: request.alignment,
        raster: Some(TextRaster { asset_id, size }),
    }
}

/// The content of a text overlay whose shaped pixels are stored.
pub fn text_content(
    request: &TextRequest,
    size: PhysicalSize,
    position: PhysicalPoint,
    asset_id: AssetId,
) -> (content: OverlayContent)
    ensures
        content@ == text_view(*request, size, position, asset_id),
{
    OverlayContent::Text {
        text: request.text.clone(),
        position,
        max_width: Some(request.size.width),
        font_family: request.font_family.clone(),
        font_size_px: request.font_size_px,
        foreground: request.foreground,
        background: request.background,
        alignment: request.alignment,
        raster: Some(TextRaster { asset_id, size }),
    }
}

/// Whether the layer shows one prepared text and nothing else.
pub open spec fn editable(track: TrackView) -> bool {
    &&& track.items.len() > 0
    &&& track.items[0].content matches ContentView::Text { raster, .. } && raster is Some
    &&& forall|i: int|
        0 <= i < track.items.len() ==> (#[trigger] track.items[i]).content
            == track.items[0].content
}

/// Whether the first layer of the given identity exists and is editable text.
pub open spec fn editable_id(tracks: Seq<TrackView>, id: TrackId) -> bool {
    &&& exists|i: int| 0 <= i < tracks.len() && (#[trigger] tracks[i]).id == id
    &&& editable(tracks[conversion_edit::first_track(tracks, id)])
}

/// The position of an editable text layer.
pub fn editable_text_track(tracks: &Vec<OverlayTrack>, track_id: TrackId) -> (result: Result<
    usize,
    EditorWorkspaceError,
>)
    ensures
        ({
            let all = value::views(tracks@);
            match result {
                Ok(index) => {
                    &&& conversion_edit::is_first_track(all, track_id, index as int)
                    &&& editable(all[index as int])
                    &&& editable_id(all, track_id)
                },
                Err(error) => !editable_id(all, track_id) && error
                    == EditorWorkspaceError::TextTrackNotEditable(track_id),
            }
        }),
{
    let ghost all = value::views(tracks@);
    let index = match find_track(tracks, track_id) {
        Some(index) => index,
        None => return Err(EditorWorkspaceError::TextTrackNotEditable(track_id)),
    };
    let track = &tracks[index];
    assert(all[index as int] == track@);
    if track.items.len() == 0 {
        return Err(EditorWorkspaceError::TextTrackNotEditable(track_id));
    }
    let first = &track.items[0];
    assert(track@.items[0] == first@);
    let prepared = match &first.content {
        OverlayContent::Text { raster, .. } => raster.is_some(),
        _ => false,
    };
    if !prepared {
        return Err(EditorWorkspaceError::TextTrackNotEditable(track_id));
    }
    let mut at: usize = 0;
    while at < track.items.len()
        invariant
            at <= track.items.len(),
            track.items@.len() > 0,
            all == value::views(tracks@),
            index < tracks.len(),
            *track == tracks@[index as int],
            conversion_edit::is_first_track(all, track_id, index as int),
            index == conversion_edit::first_track(all, track_id),
            all[index as int] == track@,
            *first == track.items@[0],
            track@.items[0] == first@,
            forall|i: int|
                0 <= i < at ==> (#[trigger] track@.items[i]).content == track@.items[0].content,
        decreases track.items.len() - at,
    {
        assert(track@.items[at as int] == track.items@[at as int]@);
        if !track.items[at].content.same(&first.content) {
            return Err(EditorWorkspaceError::TextTrackNotEditable(track_id));
        }
        at += 1;
    }
    Ok(index)
}

/// Whether a draft holds the text of a layer as it was asked for.
pub open spec fn is_draft_of(draft: TextOverlayDraft, track: TrackView) -> bool {
    &&& draft.track_id == track.id
    &&& track.items[0].content matches ContentView::Text {
        text,
        position,
        font_family,
        font_size_px,
        foreground,
        background,
        alignment,
        raster,
        ..
    } && {
        &&& draft.position == position
        &&& draft.request.text@ == text
        &&& draft.request.font_family@ == font_family
        &&& draft.request.font_size_px == font_size_px
        &&& Some(draft.request.size) == (match raster {
            Some(raster) => Some(raster.size),
            None => None,
        })
        &&& draft.request.foreground == foreground
        &&& draft.request.background == background
        &&& draft.request.alignment == alignment
    }
}

/// The text of an editable layer as it was asked for.
pub fn text_overlay_draft(tracks: &Vec<OverlayTrack>, track_id: TrackId) -> (result: Result<
    TextOverlayDraft,
    EditorWorkspaceError,
>)
    ensures
        ({
            let all = value::views(tracks@);
            match result {
                Ok(draft) => {
                    &&& editable_id(all, track_id)
                    &&& draft.track_id == track_id
                    &&& is_draft_of(draft, all[conversion_edit::first_track(all, track_id)])
                },
                Err(error) => !editable_id(all, track_id) && error
                    == EditorWorkspaceError::TextTrackNotEditable(track_id),
            }
        }),
{
    let ghost all = value::views(tracks@);
    let index = editable_text_track(tracks, track_id)?;
    let track = &tracks[index];
    assert(all[index as int] == track@);
    assert(track@.items[0] == track.items@[0]@);
    proof {
        let other = conversion_edit::first_track(all, track_id);
        assert(conversion_edit::is_first_track(all, track_id, other));
        if other < index {
            assert(all[other].id != track_id);
        } else if index < other {
            assert(all[index as int].id != track_id);
        }
    }
    match &track.items[0].content {
        OverlayContent::Text {
            text,
            position,
            font_family,
            font_size_px,
            foreground,
            background,
            alignment,
            raster: Some(raster),
            ..
        } => Ok(
            TextOverlayDraft {
                track_id,
                request: TextRequest {
                    text: text.clone(),
                    font_family: font_family.clone(),
                    font_size_px: *font_size_px,
                    size: raster.size,
                    foreground: *foreground,
                    background: *background,
                    alignment: *alignment,
                },
                position: *position,
            },
        ),
        _ => Err(EditorWorkspaceError::TextTrackNotEditable(track_id)),
    }
}

/// Refuses shaped pixels that do not belong to the request or do not lie on the canvas.
///
/// `validity` says whether the request itself is valid.
pub fn validate_text_image(
    canvas: PhysicalSize,
    request: &TextRequest,
    validity: &Result<(), String>,
    image: PhysicalSize,
    position: PhysicalPoint,
) -> (result: Result<(), EditorWorkspaceError>)
    ensures
        match result {
            Ok(_) => {
                &&& *validity is Ok
                &&& request.size == image
                &&& (PhysicalRect { origin: position, size: image }).inside(canvas)
            },
            Err(EditorWorkspaceError::InvalidText(message)) => *validity matches Err(reason)
                && reason@ == message@,
            Err(EditorWorkspaceError::TextRasterDimensionsMismatch) => *validity is Ok
                && request.size != image,
            Err(EditorWorkspaceError::RasterOverlayOutsideCanvas) => {
                &&& *validity is Ok
                &&& request.size == image
                &&& !(PhysicalRect { origin: position, size: image }).inside(canvas)
            },
            Err(_) => false,
        },
{
    match validity {
        Ok(_) => {},
        Err(reason) => return Err(EditorWorkspaceError::InvalidText(reason.clone())),
    }
    if request.size != image {
        return Err(EditorWorkspaceError::TextRasterDimensionsMismatch);
    }
    if !(PhysicalRect { origin: position, size: image }).fits_within(canvas) {
        return Err(EditorWorkspaceError::RasterOverlayOutsideCanvas);
    }
    Ok(())
}

/// The layer with another text: its settings, the identities, the painting order and
/// the spans of its items stay.
pub open spec fn retexted(track: TrackView, content: ContentView) -> TrackView {
    TrackView {
        items: Seq::new(track.items.len(), |i: int| ItemView { content, ..track.items[i] }),
        ..track
    }
}

/// A text that was put on an editable layer, with pixels of the size that was asked for, can be
/// edited again and reads back as it was asked for.
pub proof fn law_a_text_reads_back_as_it_was_asked_for(
    track: TrackView,
    request: TextRequest,
    position: PhysicalPoint,
    asset_id: AssetId,
    draft: TextOverlayDraft,
)
    requires
        editable(track),
        is_draft_of(draft, retexted(track, text_view(request, request.size, position, asset_id))),
    ensures
        editable(retexted(track, text_view(request, request.size, position, asset_id))),
        draft.track_id == track.id,
        draft.position == position,
        draft.request.text@ == request.text@,
        draft.request.font_family@ == request.font_family@,
        draft.request.font_size_px == request.font_size_px,
        draft.request.size == request.size,
        draft.request.foreground == request.foreground,
        draft.request.background == request.background,
        draft.request.alignment == request.alignment,
{
}

/// The layer with another text, where it is one that can be edited and the shaped pixels belong to
/// the request and lie on the canvas.
pub fn replace_text_overlay(
    canvas: PhysicalSize,
    tracks: &Vec<OverlayTrack>,
    track_id: TrackId,
    request: &TextRequest,
    validity: &Result<(), String>,
    image: PhysicalSize,
    position: PhysicalPoint,
    asset_id: AssetId,
) -> (result: Result<EditCommand, EditorWorkspaceError>)
    ensures
        ({
            let all = value::views(tracks@);
            let placed = PhysicalRect { origin: position, size: image };
            if !editable_id(all, track_id) {
                result == Err::<EditCommand, EditorWorkspaceError>(
                    EditorWorkspaceError::TextTrackNotEditable(track_id),
                )
            } else {
                match *validity {
                    Err(reason) => result matches Err(EditorWorkspaceError::InvalidText(message)) && message@ == reason@,
                    Ok(_) => if request.size != image {
                        result == Err::<EditCommand, EditorWorkspaceError>(
                            EditorWorkspaceError::TextRasterDimensionsMismatch,
                        )
                    } else if !placed.inside(canvas) {
                        result == Err::<EditCommand, EditorWorkspaceError>(
                            EditorWorkspaceError::RasterOverlayOutsideCanvas,
                        )
                    } else {
                        result matches Ok(command) && command@ == (CommandView::UpsertOverlayTrack {
                            track: retexted(
                                all[conversion_edit::first_track(all, track_id)],
                                text_view(*request, image, position, asset_id),
                            ),
                        })
                    },
                }
            }
        }),
{
    let ghost all = value::views(tracks@);
    let index = match editable_text_track(tracks, track_id) {
        Ok(index) => index,
        Err(error) => return Err(error),
    };
    match validate_text_image(canvas, request, validity, image, position) {
        Ok(_) => {},
        Err(error) => return Err(error),
    }
    let track = &tracks[index];
    assert(all[index as int] == track@);
    proof {
        let other = conversion_edit::first_track(all, track_id);
        assert(conversion_edit::is_first_track(all, track_id, other));
        if other < index {
            assert(all[other].id != track_id);
        } else if index < other {
            assert(all[index as int].id != track_id);
        }
    }
    let content = text_content(request, image, position, asset_id);
    let mut items: Vec<OverlayItem> = Vec::new();
    let mut at: usize = 0;
    while at < track.items.len()
        invariant
            at <= track.items.len(),
            items@.len() == at,
            forall|i: int|
                0 <= i < at ==> (#[trigger] items@[i])@ == (ItemView {
                    content: content@,
                    ..track.items@[i]@
                }),
        decreases track.items.len() - at,
    {
        items.push(
            OverlayItem {
                id: track.items[at].id,
                span: track.items[at].span,
                z_index: track.items[at].z_index,
                content: content.duplicate(),
            },
        );
        at += 1;
    }
    let mut replacement = track.duplicate();
    replacement.items = items;
    assert(replacement@.items =~= retexted(track@, content@).items);
    Ok(EditCommand::UpsertOverlayTrack { track: replacement })
}

/// A title that is inserted as a frame of its own.
#[derive(Clone, Debug, PartialEq, Eq)]
pub struct TitleFrameRequest {
    /// The frame to insert after; none inserts before the first.
    pub after: Option<FrameId>,
    /// How long the title is shown.
    pub duration: DurationUs,
    /// Colour behind the text.
    pub background: Rgba,
    /// The text.
    pub text: TextRequest,
    /// Its top left corner on the canvas.
    pub position: PhysicalPoint,
}

/// The position at which frames are inserted after the given one.
pub open spec fn insertion_index(frames: Seq<FrameView>, after: Option<FrameId>, index: int) -> bool {
    match after {
        None => index == 0,
        Some(id) => motion_render::first_at(frames, id, index - 1),
    }
}

/// The neighbours that an insertion at `index` parts.
pub open spec fn parted(frames: Seq<FrameView>, index: int) -> (Option<FrameId>, Option<FrameId>) {
    (
        if index > 0 {
            Some(frames[index - 1].id)
        } else {
            None
        },
        if index < frames.len() {
            Some(frames[index].id)
        } else {
            None
        },
    )
}

/// The changes of the first `count` layers when time is inserted: only layers that
/// it moves are changed.
pub open spec fn shift_changes(
    tracks: Seq<TrackView>,
    count: int,
    scopes: Seq<DerivedScope>,
    start: int,
    length: int,
    ids: Seq<Vec<u128>>,
) -> Option<Seq<CommandView>>
    decreases count,
{
    if count <= 0 {
        Some(Seq::empty())
    } else {
        let track = tracks[count - 1];
        match (
            shift_changes(tracks, count - 1, scopes, start, length, ids),
            shifting::shift_track(track, scopes[count - 1], start, length, ids[count - 1]@),
        ) {
            (Some(before), Some(shifted)) => if shifted == track {
                Some(before)
            } else {
                Some(before.push(CommandView::UpsertOverlayTrack { track: shifted }))
            },
            _ => None,
        }
    }
}

/// Layers that cannot be moved stay so.
proof fn lemma_changes_stay_failed(
    tracks: Seq<TrackView>,
    failed: int,
    count: int,
    scopes: Seq<DerivedScope>,
    start: int,
    length: int,
    ids: Seq<Vec<u128>>,
)
    requires
        failed <= count,
        shift_changes(tracks, failed, scopes, start, length, ids) is None,
    ensures
        shift_changes(tracks, count, scopes, start, length, ids) is None,
    decreases count,
{
    if failed < count {
        lemma_changes_stay_failed(tracks, failed, count - 1, scopes, start, length, ids);
    }
}

/// The changes that insert a title frame: the parted transition goes, the frame comes,
/// and the layers make room.
pub open spec fn title_changes(
    timeline: TimelineView,
    index: int,
    start: int,
    frame: FrameView,
    scopes: Seq<DerivedScope>,
    ids: Seq<Vec<u128>>,
) -> Option<Seq<CommandView>> {
    let (preceding, following) = parted(timeline.frames, index);
    let kept = timeline.transitions.filter(shifting::unparted(preceding, following));
    let head = if kept.len() != timeline.transitions.len() {
        seq![CommandView::SetTransitions { transitions: kept }]
    } else {
        Seq::empty()
    };
    match shift_changes(
        timeline.overlay_tracks,
        timeline.overlay_tracks.len() as int,
        scopes,
        start,
        frame.duration@,
        ids,
    ) {
        Some(changes) => Some(
            head + seq![CommandView::InsertFrames { index, frames: seq![frame] }] + changes,
        ),
        None => None,
    }
}

/// Whether there are identities for every item of every layer.
pub open spec fn enough_ids(tracks: Seq<OverlayTrack>, ids: Seq<Vec<u128>>) -> bool {
    &&& ids.len() == tracks.len()
    &&& forall|t: int| 0 <= t < tracks.len() ==> (#[trigger] ids[t])@.len() == tracks[t].items@.len()
}

/// The changes that insert a title frame at `index`, which starts at `start`.
///
/// `scopes` says what becomes of the spans that the authoring of each layer covered.
pub fn title_insertion_commands(
    timeline: &Timeline,
    index: usize,
    start: u64,
    frame: FrameClip,
    scopes: &Vec<DerivedScope>,
    ids: &Vec<Vec<u128>>,
) -> (result: Result<Vec<EditCommand>, EditorWorkspaceError>)
    requires
        index <= timeline.frames@.len(),
        scopes@.len() == timeline.overlay_tracks@.len(),
        enough_ids(timeline.overlay_tracks@, ids@),
    ensures
        ({
            let changes = title_changes(
                timeline@,
                index as int,
                start as int,
                frame@,
                scopes@,
                ids@,
            );
            match result {
                Ok(commands) => changes == Some(value::views(commands@)),
                Err(error) => changes is None && error
                    == EditorWorkspaceError::TitleDurationOverflow,
            }
        }),
{
    let ghost view = timeline@;
    let ghost shape = frame@;
    let duration = frame.duration;
    let preceding = if index > 0 {
        assert(view.frames[index - 1] == timeline.frames@[index - 1]@);
        Some(timeline.frames[index - 1].id)
    } else {
        None
    };
    let following = if index < timeline.frames.len() {
        assert(view.frames[index as int] == timeline.frames@[index as int]@);
        Some(timeline.frames[index].id)
    } else {
        None
    };
    let kept = keep_unparted(&timeline.transitions, preceding, following);
    let mut commands: Vec<EditCommand> = Vec::new();
    assert(value::views(commands@) =~= Seq::empty());
    let ghost head = if kept@.len() != view.transitions.len() {
        seq![CommandView::SetTransitions { transitions: kept@ }]
    } else {
        Seq::empty()
    };
    if kept.len() != timeline.transitions.len() {
        commands.push(EditCommand::SetTransitions { transitions: kept });
    }
    assert(value::views(commands@) =~= head);
    let mut inserted: Vec<FrameClip> = Vec::new();
    inserted.push(frame);
    assert(value::views(inserted@) =~= seq![shape]);
    let insertion = EditCommand::InsertFrames { index, frames: inserted };
    let ghost middle = insertion@;
    commands.push(insertion);
    let ghost start_commands = head + seq![middle];
    assert(value::views(commands@) =~= start_commands);
    let tracks = &timeline.overlay_tracks;
    let mut at: usize = 0;
    assert(start_commands + Seq::<CommandView>::empty() =~= start_commands);
    while at < tracks.len()
        invariant
            at <= tracks.len(),
            scopes@.len() == tracks@.len(),
            enough_ids(tracks@, ids@),
            view.overlay_tracks == value::views(tracks@),
            view == timeline@,
            shape == frame@,
            duration == shape.duration,
            middle == (CommandView::InsertFrames { index: index as int, frames: seq![shape] }),
            start_commands == head + seq![middle],
            head == (if view.transitions.filter(
                shifting::unparted(
                    parted(view.frames, index as int).0,
                    parted(view.frames, index as int).1,
                ),
            ).len() != view.transitions.len() {
                seq![
                    CommandView::SetTransitions {
                        transitions: view.transitions.filter(
                            shifting::unparted(
                                parted(view.frames, index as int).0,
                                parted(view.frames, index as int).1,
                            ),
                        ),
                    },
                ]
            } else {
                Seq::empty()
            }),
            shift_changes(
                view.overlay_tracks,
                at as int,
                scopes@,
                start as int,
                duration@,
                ids@,
            ) is Some,
            value::views(commands@) == start_commands + shift_changes(
                view.overlay_tracks,
                at as int,
                scopes@,
                start as int,
                duration@,
                ids@,
            )->0,
        decreases tracks.len() - at,
    {
        let track = &tracks[at];
        assert(view.overlay_tracks[at as int] == track@);
        match shifted_track(track, &scopes[at], start, duration, &ids[at]) {
            Some(shifted) => {
                if !shifted.same(track) {
                    let ghost before = value::views(commands@);
                    let command = EditCommand::UpsertOverlayTrack { track: shifted };
                    let ghost change = command@;
                    commands.push(command);
                    assert(value::views(commands@) =~= before.push(change));
                    assert(value::views(commands@) =~= start_commands + shift_changes(
                        view.overlay_tracks,
                        at as int,
                        scopes@,
                        start as int,
                        duration@,
                        ids@,
                    )->0.push(change));
                }
            },
            None => {
                proof {
                    lemma_changes_stay_failed(
                        view.overlay_tracks,
                        at + 1,
                        view.overlay_tracks.len() as int,
                        scopes@,
                        start as int,
                        duration@,
                        ids@,
                    );
                }
                return Err(EditorWorkspaceError::TitleDurationOverflow);
            },
        }
        at += 1;
    }
    Ok(commands)
}

/// The identities of a title frame and its text.
#[derive(Clone, Copy, Debug, PartialEq, Eq, Structural)]
pub struct TitleIds {
    /// The frame.
    pub frame: FrameId,
    /// The layer of the text.
    pub track: TrackId,
    /// The text.
    pub overlay: OverlayId,
}

impl TitleIds {
    /// Whether all three have the layout of a random UUID.
    pub open spec fn random(self) -> bool {
        &&& identity::is_random_uuid(self.frame.value)
        &&& identity::is_random_uuid(self.track.value)
        &&& identity::is_random_uuid(self.overlay.value)
    }
}

/// The frame that shows the title.
pub open spec fn title_frame(
    canvas: PhysicalSize,
    request: TitleFrameRequest,
    asset_id: AssetId,
    ids: TitleIds,
) -> FrameView {
    FrameView {
        id: ids.frame,
        asset_id,
        duration: request.duration,
        transform: ClipTransform { output_size: Some(canvas), ..ClipTransform::identity() },
        capture_metadata: MetadataView::nothing(),
        capture_clock: None,
        capture_binding: CaptureBinding::NotRecorded,
        effects: Seq::empty(),
        render_steps: Seq::empty(),
    }
}

/// The layer that paints the title.
pub open spec fn title_layer(
    request: TitleFrameRequest,
    image: PhysicalSize,
    start: int,
    asset_id: AssetId,
    ids: TitleIds,
) -> TrackView {
    TrackView {
        id: ids.track,
        frame_cells: None,
        annotation: None,
        annotation_scope: None,
        name: "Title"@,
        visible: true,
        opacity: 255,
        blend_mode: BlendMode::Normal,
        items: seq![
            ItemView {
                id: ids.overlay,
                span: TimelineSpan {
                    start: TimeUs { us: start as u64 },
                    duration: request.duration,
                },
                z_index: 3,
                content: text_view(request.text, image, request.position, asset_id),
            },
        ],
    }
}

/// The registered form of the one-pixel background.
pub open spec fn background_asset(
    assets: Seq<DescriptorView>,
    background: DescriptorView,
) -> DescriptorView {
    if project::asset_of(assets, background.id) is Some {
        background
    } else {
        DescriptorView {
            kind: KindView::Frame {
                size: PhysicalSize { width: 1, height: 1 },
                encoding: RasterEncoding::Rgba8,
            },
            ..background
        }
    }
}

/// An edit that inserts a title frame.
#[derive(Clone, Debug, PartialEq, Eq)]
pub struct TitleEdit {
    /// Identity of the title frame.
    pub frame_id: FrameId,
    /// The background to store with the edit.
    pub background: AssetDescriptor,
    /// The changes.
    pub commands: Vec<EditCommand>,
}

/// Whether a result is the edit that inserts a title frame with the identities given, or says why
/// there is none.
pub open spec fn title_inserted(
    project: ProjectManifest,
    request: TitleFrameRequest,
    image: PhysicalSize,
    background: AssetDescriptor,
    text_asset: AssetId,
    scopes: Seq<DerivedScope>,
    title_ids: TitleIds,
    ids: Seq<Vec<u128>>,
    result: Result<TitleEdit, EditorWorkspaceError>,
) -> bool {
    let view = project@.timeline;
    let frame = title_frame(project.canvas.size, request, background.id, title_ids);
    match result {
        Ok(edit) => {
            &&& edit.frame_id == title_ids.frame
            &&& edit.background@ == background_asset(project@.assets, background@)
            &&& view.total() + request.duration@ <= u64::MAX
            &&& exists|index: int|
                {
                    &&& insertion_index(view.frames, request.after, index)
                    &&& 0 <= index <= view.frames.len()
                    &&& title_changes(
                        view,
                        index,
                        #[trigger] frames::clock(view.frames, index),
                        frame,
                        scopes,
                        ids,
                    ) matches Some(changes) && value::views(edit.commands@) == changes.push(
                        CommandView::UpsertOverlayTrack {
                            track: title_layer(
                                request,
                                image,
                                frames::clock(view.frames, index),
                                text_asset,
                                title_ids,
                            ),
                        },
                    )
                }
        },
        Err(EditorWorkspaceError::UnknownTitleAnchor(id)) => request.after == Some(id)
            && !motion_render::has_frame(view.frames, id),
        Err(EditorWorkspaceError::TitleDurationOverflow) => (request.after matches Some(id)
            ==> motion_render::has_frame(view.frames, id)) && {
            ||| view.total() + request.duration@ > u64::MAX
            ||| exists|index: int|
                {
                    &&& insertion_index(view.frames, request.after, index)
                    &&& 0 <= index <= view.frames.len()
                    &&& title_changes(
                        view,
                        index,
                        #[trigger] frames::clock(view.frames, index),
                        frame,
                        scopes,
                        ids,
                    ) is None
                }
        },
        Err(_) => false,
    }
}

/// The edit that inserts a title frame, with the identities given.
///
/// `background` describes the single pixel of the background, which scales to any
/// canvas, and `text_asset` names the shaped pixels.
pub fn insert_title_frame(
    project: &ProjectManifest,
    request: &TitleFrameRequest,
    image: PhysicalSize,
    background: &AssetDescriptor,
    text_asset: AssetId,
    scopes: &Vec<DerivedScope>,
    title_ids: TitleIds,
    ids: &Vec<Vec<u128>>,
) -> (result: Result<TitleEdit, EditorWorkspaceError>)
    requires
        scopes@.len() == project.timeline.overlay_tracks@.len(),
        enough_ids(project.timeline.overlay_tracks@, ids@),
    ensures
        title_inserted(
            *project,
            *request,
            image,
            *background,
            text_asset,
            scopes@,
            title_ids,
            ids@,
            result,
        ),
{
    broadcast use crate::time::lemma_duration_range;

    let frames = &project.timeline.frames;
    let ghost view = project@.timeline;
    let count: usize = frames.len();
    let index: usize = match request.after {
        None => 0,
        Some(id) => match find_frame(frames, id) {
            Some(at) => {
                assert(at < count);
                assert(view.frames[at as int].id == id);
                at + 1
            },
            None => return Err(EditorWorkspaceError::UnknownTitleAnchor(id)),
        },
    };
    assert(insertion_index(view.frames, request.after, index as int));
    let start: u64 = match start_of(frames, index) {
        Some(start) => start,
        None => {
            proof {
                frames::lemma_clock_grows(view.frames, index as int, view.frames.len() as int);
            }
            return Err(EditorWorkspaceError::TitleDurationOverflow);
        },
    };
    let fits = match project.timeline.total_duration() {
        Some(total) => total.checked_add(request.duration.get()).is_some(),
        None => false,
    };
    if !fits {
        return Err(EditorWorkspaceError::TitleDurationOverflow);
    }
    let mut stored = background.duplicate();
    if find_asset(&project.assets, background.id).is_none() {
        stored.kind = AssetKind::Frame {
            size: PhysicalSize { width: 1, height: 1 },
            encoding: RasterEncoding::Rgba8,
        };
    }
    let mut transform = ClipTransform::none();
    transform.output_size = Some(project.canvas.size);
    let frame = FrameClip {
        id: title_ids.frame,
        asset_id: background.id,
        duration: request.duration,
        transform,
        capture_metadata: CaptureMetadata::empty(),
        capture_clock: None,
        capture_binding: CaptureBinding::NotRecorded,
        effects: Vec::new(),
        render_steps: Vec::new(),
    };
    assert(frame@ == title_frame(project.canvas.size, *request, background.id, title_ids));
    let mut commands = match title_insertion_commands(
        &project.timeline,
        index,
        start,
        frame,
        scopes,
        ids,
    ) {
        Ok(commands) => commands,
        Err(_) => {
            assert(start == frames::clock(view.frames, index as int));
            return Err(EditorWorkspaceError::TitleDurationOverflow);
        },
    };
    let ghost changes = value::views(commands@);
    let mut items: Vec<OverlayItem> = Vec::new();
    items.push(
        OverlayItem {
            id: title_ids.overlay,
            span: TimelineSpan { start: TimeUs::new(start), duration: request.duration },
            z_index: 3,
            content: text_content(&request.text, image, request.position, text_asset),
        },
    );
    let track = OverlayTrack {
        id: title_ids.track,
        frame_cells: None,
        annotation: None,
        annotation_scope: None,
        name: "Title".to_owned(),
        visible: true,
        opacity: 255,
        blend_mode: BlendMode::Normal,
        items,
    };
    assert(track@.items =~= title_layer(
        *request,
        image,
        start as int,
        text_asset,
        title_ids,
    ).items);
    let command = EditCommand::UpsertOverlayTrack { track };
    let ghost last = command@;
    commands.push(command);
    assert(value::views(commands@) =~= changes.push(last));
    assert(start == frames::clock(view.frames, index as int));
    Ok(TitleEdit { frame_id: title_ids.frame, background: stored, commands })
}

/// Whether identities all have the layout of a random UUID.
pub open spec fn all_random(ids: Seq<Vec<u128>>) -> bool {
    forall|t: int, i: int|
        0 <= t < ids.len() && 0 <= i < ids[t]@.len() ==> identity::is_random_uuid(#[trigger] ids[t]@[i])
}

/// Random identities for every item of every layer.
pub fn draw_for_tracks(tracks: &Vec<OverlayTrack>) -> (ids: Vec<Vec<u128>>)
    ensures
        enough_ids(tracks@, ids@),
        all_random(ids@),
{
    let mut ids: Vec<Vec<u128>> = Vec::with_capacity(tracks.len());
    let mut index: usize = 0;
    while index < tracks.len()
        invariant
            index <= tracks.len(),
            ids@.len() == index,
            forall|t: int|
                0 <= t < index ==> (#[trigger] ids@[t])@.len() == tracks@[t].items@.len(),
            all_random(ids@),
        decreases tracks.len() - index,
    {
        ids.push(draw_many(tracks[index].items.len()));
        index += 1;
    }
    ids
}

/// Random identities for a title.
pub fn draw_title_ids() -> (ids: TitleIds)
    ensures
        ids.random(),
{
    TitleIds {
        frame: FrameId { value: draw() },
        track: TrackId { value: draw() },
        overlay: OverlayId { value: draw() },
    }
}

/// Refuses a title before anything is stored for it: one whose shaped pixels do not belong to the
/// request or do not lie on the canvas, one after a frame that is gone, and one that the timeline
/// cannot take.
pub fn check_title(
    project: &ProjectManifest,
    request: &TitleFrameRequest,
    validity: &Result<(), String>,
    image: PhysicalSize,
) -> (result: Result<(), EditorWorkspaceError>)
    ensures
        ({
            let placed = PhysicalRect { origin: request.position, size: image };
            let view = project@.timeline;
            match *validity {
                Err(reason) => result matches Err(EditorWorkspaceError::InvalidText(message)) && message@ == reason@,
                Ok(_) => result == (if request.text.size != image {
                    Err(EditorWorkspaceError::TextRasterDimensionsMismatch)
                } else if !placed.inside(project.canvas.size) {
                    Err(EditorWorkspaceError::RasterOverlayOutsideCanvas)
                } else if request.after is Some && !motion_render::has_frame(view.frames, request.after->0) {
                    Err(EditorWorkspaceError::UnknownTitleAnchor(request.after->0))
                } else if view.total() + request.duration@ > u64::MAX {
                    Err(EditorWorkspaceError::TitleDurationOverflow)
                } else {
                    Ok(())
                }),
            }
        }),
{
    broadcast use crate::time::lemma_duration_range;

    match validate_text_image(project.canvas.size, &request.text, validity, image, request.position) {
        Ok(_) => {},
        Err(error) => return Err(error),
    }
    if let Some(id) = request.after {
        let found = find_frame(&project.timeline.frames, id);
        match found {
            Some(at) => {
                assert(project@.timeline.frames[at as int].id == id);
            },
            None => return Err(EditorWorkspaceError::UnknownTitleAnchor(id)),
        }
    }
    let fits = match project.timeline.total_duration() {
        Some(total) => total.checked_add(request.duration.get()).is_some(),
        None => false,
    };
    if !fits {
        return Err(EditorWorkspaceError::TitleDurationOverflow);
    }
    Ok(())
}

/// The edit that inserts a title frame with random identities, where the shaped pixels belong to
/// the request and lie on the canvas.
pub fn insert_title(
    project: &ProjectManifest,
    request: &TitleFrameRequest,
    validity: &Result<(), String>,
    image: PhysicalSize,
    background: &AssetDescriptor,
    text_asset: AssetId,
    scopes: &Vec<DerivedScope>,
) -> (result: Result<TitleEdit, EditorWorkspaceError>)
    requires
        scopes@.len() == project.timeline.overlay_tracks@.len(),
    ensures
        ({
            let placed = PhysicalRect { origin: request.position, size: image };
            match *validity {
                Err(reason) => result matches Err(EditorWorkspaceError::InvalidText(message)) && message@ == reason@,
                Ok(_) => if request.text.size != image {
                    result == Err::<TitleEdit, EditorWorkspaceError>(
                        EditorWorkspaceError::TextRasterDimensionsMismatch,
                    )
                } else if !placed.inside(project.canvas.size) {
                    result == Err::<TitleEdit, EditorWorkspaceError>(
                        EditorWorkspaceError::RasterOverlayOutsideCanvas,
                    )
                } else {
                    exists|title_ids: TitleIds, ids: Seq<Vec<u128>>|
                        title_ids.random() && enough_ids(project.timeline.overlay_tracks@, ids) && all_random(ids)
                            && #[trigger] title_inserted(
                            *project,
                            *request,
                            image,
                            *background,
                            text_asset,
                            scopes@,
                            title_ids,
                            ids,
                            result,
                        )
                },
            }
        }),
{
    match validate_text_image(project.canvas.size, &request.text, validity, image, request.position) {
        Ok(_) => {},
        Err(error) => return Err(error),
    }
    let title_ids = draw_title_ids();
    let ids = draw_for_tracks(&project.timeline.overlay_tracks);
    let result = insert_title_frame(project, request, image, background, text_asset, scopes, title_ids, &ids);
    assert(title_inserted(
        *project,
        *request,
        image,
        *background,
        text_asset,
        scopes@,
        title_ids,
        ids@,
        result,
    ));
    result
}

/// A written text holds what was asked for: the words, the font and its size, the colours, the alignment
/// and the width to write in, at its position, with the picture that was made of it.
pub proof fn law_a_text_holds_what_was_asked_for(
    request: TextRequest,
    size: PhysicalSize,
    position: PhysicalPoint,
    asset_id: AssetId,
)
    ensures
        text_view(request, size, position, asset_id) matches ContentView::Text {
            text,
            position: at,
            max_width,
            font_family,
            font_size_px,
            foreground,
            background,
            alignment,
            raster,
        } && {
            &&& text == request.text@
            &&& at == position
            &&& max_width == Some(request.size.width)
            &&& font_family == request.font_family@
            &&& font_size_px == request.font_size_px
            &&& foreground == request.foreground
            &&& background == request.background
            &&& alignment == request.alignment
            &&& raster matches Some(picture) && picture.asset_id == asset_id && picture.size == size
        },
{
}

/// Writing a layer anew gives every item the new content and changes nothing else of it.
pub proof fn law_only_the_content_is_written_anew(track: TrackView, content: ContentView, at: int)
    ensures
        ({
            let written = retexted(track, content);
            &&& written.items.len() == track.items.len()
            &&& 0 <= at < track.items.len() ==> {
                &&& written.items[at].content == content
                &&& written.items[at].id == track.items[at].id
                &&& written.items[at].span == track.items[at].span
                &&& written.items[at].z_index == track.items[at].z_index
            }
            &&& written.id == track.id
            &&& written.frame_cells == track.frame_cells
            &&& written.annotation == track.annotation
            &&& written.annotation_scope == track.annotation_scope
            &&& written.name == track.name
            &&& written.visible == track.visible
            &&& written.opacity == track.opacity
            &&& written.blend_mode == track.blend_mode
        }),
{
}

/// A layer can be written anew exactly where it has items, all of one written text that has its picture.
pub proof fn law_what_can_be_written_anew(track: TrackView)
    ensures
        editable(track) <==> {
            &&& track.items.len() > 0
            &&& track.items[0].content is Text
            &&& track.items[0].content->Text_raster is Some
            &&& forall|i: int, j: int|
                0 <= i < track.items.len() && 0 <= j < track.items.len() ==> (#[trigger] track.items[i]).content == (
                #[trigger] track.items[j]).content
        },
{
}

/// A title comes first where it is to come after nothing, and otherwise right behind the first frame of
/// the identity.
pub proof fn law_a_title_comes_behind_its_anchor(frames: Seq<FrameView>, after: Option<FrameId>, index: int)
    ensures
        after is None ==> (insertion_index(frames, after, index) <==> index == 0),
        after matches Some(id) ==> (insertion_index(frames, after, index) <==> {
            &&& 1 <= index <= frames.len()
            &&& frames[index - 1].id == id
            &&& forall|i: int| 0 <= i < index - 1 ==> (#[trigger] frames[i]).id != id
        }),
{
}

/// The frame of a title shows its background over the whole canvas, for as long as was asked for, and was
/// never recorded.
pub proof fn law_a_title_frame_shows_its_background(
    canvas: PhysicalSize,
    request: TitleFrameRequest,
    asset_id: AssetId,
    ids: TitleIds,
)
    ensures
        ({
            let frame = title_frame(canvas, request, asset_id, ids);
            &&& frame.id == ids.frame
            &&& frame.asset_id == asset_id
            &&& frame.duration == request.duration
            &&& frame.transform.output_size == Some(canvas)
            &&& frame.transform.crop is None && frame.transform.quarter_turns == 0
            &&& !frame.transform.flip_horizontal && !frame.transform.flip_vertical
            &&& frame.capture_metadata.cursor_asset is None && frame.capture_metadata.recorded.len() == 0
            &&& frame.capture_clock is None && frame.capture_binding == CaptureBinding::NotRecorded
            &&& frame.effects.len() == 0 && frame.render_steps.len() == 0
        }),
{
}

/// The layer of a title shows the text exactly while the frame of the title is shown.
pub proof fn law_a_title_layer_shows_its_text_with_its_frame(
    request: TitleFrameRequest,
    image: PhysicalSize,
    start: int,
    asset_id: AssetId,
    ids: TitleIds,
    at: int,
)
    requires
        0 <= start <= u64::MAX,
    ensures
        ({
            let layer = title_layer(request, image, start, asset_id, ids);
            &&& layer.id == ids.track
            &&& layer.name == "Title"@
            &&& layer.visible && layer.opacity == 255 && layer.blend_mode == BlendMode::Normal
            &&& layer.frame_cells is None && layer.annotation is None && layer.annotation_scope is None
            &&& layer.items.len() == 1
            &&& layer.items[0].id == ids.overlay
            &&& layer.items[0].z_index == 3
            &&& layer.items[0].content == text_view(request.text, image, request.position, asset_id)
            &&& layer.items[0].span.covers(at) <==> start <= at < start + request.duration@
        }),
{
}

/// The background of a title is one pixel, in plain bytes, where it is not known yet, and is left as it is
/// where it is known.
pub proof fn law_a_title_background_is_one_pixel(assets: Seq<DescriptorView>, background: DescriptorView)
    ensures
        ({
            let asset = background_asset(assets, background);
            let known = exists|i: int| 0 <= i < assets.len() && (#[trigger] assets[i]).id == background.id;
            &&& asset.id == background.id
            &&& asset.byte_len == background.byte_len
            &&& known ==> asset == background
            &&& !known ==> asset.kind == (KindView::Frame {
                size: PhysicalSize { width: 1, height: 1 },
                encoding: RasterEncoding::Rgba8,
            })
        }),
{
}

/// A title makes each layer make way that has to, in the order of the layers, and leaves alone those that
/// need not. Which layer each change is about is given back.
pub proof fn law_layers_make_way_for_a_title(
    tracks: Seq<TrackView>,
    count: int,
    scopes: Seq<DerivedScope>,
    start: int,
    length: int,
    ids: Seq<Vec<u128>>,
) -> (from: Seq<int>)
    requires
        0 <= count <= tracks.len(),
        shift_changes(tracks, count, scopes, start, length, ids) is Some,
    ensures
        ({
            let changes = shift_changes(tracks, count, scopes, start, length, ids)->0;
            &&& from.len() == changes.len()
            &&& forall|j: int|
                0 <= j < from.len() ==> 0 <= #[trigger] from[j] < count && (
                changes[j] matches CommandView::UpsertOverlayTrack { track: layer } && layer != tracks[from[j]]
                    && shifting::shift_track(tracks[from[j]], scopes[from[j]], start, length, ids[from[j]]@) == Some(
                    layer,
                ))
            &&& forall|i: int, j: int| 0 <= i < j < from.len() ==> #[trigger] from[i] < #[trigger] from[j]
            &&& forall|t: int|
                0 <= t < count && !from.contains(t) ==> shifting::shift_track(
                    #[trigger] tracks[t],
                    scopes[t],
                    start,
                    length,
                    ids[t]@,
                ) == Some(tracks[t])
        }),
    decreases count,
{
    if count == 0 {
        Seq::empty()
    } else {
        let before = law_layers_make_way_for_a_title(tracks, count - 1, scopes, start, length, ids);
        let changes = shift_changes(tracks, count, scopes, start, length, ids)->0;
        let track = tracks[count - 1];
        let shifted = shifting::shift_track(track, scopes[count - 1], start, length, ids[count - 1]@)->0;
        if shifted == track {
            before
        } else {
            let from = before.push(count - 1);
            assert forall|j: int| 0 <= j < from.len() implies 0 <= #[trigger] from[j] < count && (
            changes[j] matches CommandView::UpsertOverlayTrack { track: layer } && layer != tracks[from[j]]
                && shifting::shift_track(tracks[from[j]], scopes[from[j]], start, length, ids[from[j]]@) == Some(
                layer,
            )) by {
                if j < before.len() {
                    assert(from[j] == before[j]);
                }
            }
            assert forall|t: int| 0 <= t < count && !from.contains(t) implies shifting::shift_track(
                #[trigger] tracks[t],
                scopes[t],
                start,
                length,
                ids[t]@,
            ) == Some(tracks[t]) by {
                assert(from[before.len() as int] == count - 1);
                if before.contains(t) {
                    let i = choose|i: int| 0 <= i < before.len() && before[i] == t;
                    assert(from[i] == t);
                }
            }
            from
        }
    }
}

/// A title takes out the transition between the frames that it parts, where there is one, and no other;
/// it puts its frame in at its place, and lets the layers make way for as long as the frame lasts.
pub proof fn law_a_title_does_all_its_parts(
    timeline: TimelineView,
    index: int,
    start: int,
    frame: FrameView,
    scopes: Seq<DerivedScope>,
    ids: Seq<Vec<u128>>,
)
    requires
        0 <= index <= timeline.frames.len(),
        title_changes(timeline, index, start, frame, scopes, ids) is Some,
    ensures
        ({
            let commands = title_changes(timeline, index, start, frame, scopes, ids)->0;
            let kept = timeline.transitions.filter(
                |transition: crate::project::Transition|
                    !(0 < index < timeline.frames.len() && transition.from_frame == timeline.frames[index - 1].id
                        && transition.to_frame == timeline.frames[index].id),
            );
            let moved = shift_changes(
                timeline.overlay_tracks,
                timeline.overlay_tracks.len() as int,
                scopes,
                start,
                frame.duration@,
                ids,
            );
            let at = if kept.len() == timeline.transitions.len() {
                0int
            } else {
                1
            };
            &&& moved is Some
            &&& commands.len() == at + 1 + moved->0.len()
            &&& at == 1 ==> commands[0] == (CommandView::SetTransitions { transitions: kept })
            &&& commands[at] matches CommandView::InsertFrames { index: place, frames } && place == index
                && frames.len() == 1 && frames[0] == frame
            &&& commands.skip(at + 1) == moved->0
        }),
{
    let (preceding, following) = parted(timeline.frames, index);
    let apart = |transition: crate::project::Transition|
        !(0 < index < timeline.frames.len() && transition.from_frame == timeline.frames[index - 1].id
            && transition.to_frame == timeline.frames[index].id);
    assert(shifting::unparted(preceding, following) =~= apart);
    let kept = timeline.transitions.filter(apart);
    let commands = title_changes(timeline, index, start, frame, scopes, ids)->0;
    let moved = shift_changes(
        timeline.overlay_tracks,
        timeline.overlay_tracks.len() as int,
        scopes,
        start,
        frame.duration@,
        ids,
    )->0;
    let at = if kept.len() == timeline.transitions.len() {
        0int
    } else {
        1
    };
    assert(commands.skip(at + 1) =~= moved);
}

/// A title that is inserted has its frame and its layer: the edit ends with the layer, which shows the text
/// from the begin of the frame on, and before it come the changes that put the frame in.
pub proof fn law_an_inserted_title_has_its_frame_and_layer(
    project: ProjectManifest,
    request: TitleFrameRequest,
    image: PhysicalSize,
    background: AssetDescriptor,
    text_asset: AssetId,
    scopes: Seq<DerivedScope>,
    title_ids: TitleIds,
    ids: Seq<Vec<u128>>,
    edit: TitleEdit,
)
    requires
        title_inserted(
            project,
            request,
            image,
            background,
            text_asset,
            scopes,
            title_ids,
            ids,
            Ok::<TitleEdit, EditorWorkspaceError>(edit),
        ),
    ensures
        edit.frame_id == title_ids.frame,
        edit.background@ == background_asset(project@.assets, background@),
        frames::clock(project@.timeline.frames, project@.timeline.frames.len() as int) + request.duration@ <= u64::MAX,
        exists|index: int|
            {
                let commands = value::views(edit.commands@);
                let start = #[trigger] frames::clock(project@.timeline.frames, index);
                let frame = title_frame(project.canvas.size, request, background.id, title_ids);
                &&& 0 <= index <= project@.timeline.frames.len()
                &&& insertion_index(project@.timeline.frames, request.after, index)
                &&& commands.len() > 0
                &&& commands.last() == (CommandView::UpsertOverlayTrack {
                    track: title_layer(request, image, start, text_asset, title_ids),
                })
                &&& title_changes(project@.timeline, index, start, frame, scopes, ids) == Some(commands.drop_last())
            },
{
    let view = project@.timeline;
    let frame = title_frame(project.canvas.size, request, background.id, title_ids);
    let index = choose|index: int|
        {
            &&& insertion_index(view.frames, request.after, index)
            &&& 0 <= index <= view.frames.len()
            &&& title_changes(
                view,
                index,
                #[trigger] frames::clock(view.frames, index),
                frame,
                scopes,
                ids,
            ) matches Some(changes) && value::views(edit.commands@) == changes.push(
                CommandView::UpsertOverlayTrack {
                    track: title_layer(
                        request,
                        image,
                        frames::clock(view.frames, index),
                        text_asset,
                        title_ids,
                    ),
                },
            )
        };
    let commands = value::views(edit.commands@);
    let changes = title_changes(view, index, frames::clock(view.frames, index), frame, scopes, ids)->0;
    assert(commands.drop_last() =~= changes);
}

} // verus!
