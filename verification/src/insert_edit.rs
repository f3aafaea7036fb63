//! The edit that inserts one project into another.
use vstd::prelude::*;
use crate::frames;
use crate::frames::{start_of, CaptureClock, FrameClip, FrameView};
use crate::geometry::PhysicalSize;
use crate::ids::{FrameId, OverlayId, TrackId, TransitionId};
use crate::insert_checks::ProjectInsertionError;
use crate::overlay::{ItemView, OverlayItem, OverlayTrack, TrackView};
use crate::project;
use crate::project::{
    find_asset, AssetDescriptor, Canvas, CommandView, DescriptorView, EditCommand, ManifestView,
    ProjectManifest, Timeline, Transition,
};
use crate::shifting;
use crate::shifting::{keep_unparted, shifted_track};
use crate::spans::DerivedScope;
use crate::time::{DurationUs, TimeUs, TimelineSpan};
use crate::title;
use crate::value;
use crate::value::Value;

verus! {

/// The identities that an insertion gives out.
#[derive(Clone, Debug, PartialEq, Eq)]
pub struct InsertionIds {
    /// One for each source frame.
    pub frames: Vec<u128>,
    /// One for each item of each layer of the destination, in case it is split.
    pub split_items: Vec<Vec<u128>>,
    /// One for each layer of the source.
    pub tracks: Vec<u128>,
    /// One for each item of each layer of the source.
    pub items: Vec<Vec<u128>>,
    /// One for each transition of the source.
    pub transitions: Vec<u128>,
}

impl InsertionIds {
    /// Whether there are identities for everything that needs one.
    pub open spec fn suffice(self, destination: Timeline, source: Timeline) -> bool {
        &&& self.frames@.len() == source.frames@.len()
        &&& title::enough_ids(destination.overlay_tracks@, self.split_items@)
        &&& self.tracks@.len() == source.overlay_tracks@.len()
        &&& title::enough_ids(source.overlay_tracks@, self.items@)
        &&& self.transitions@.len() == source.transitions@.len()
    }
}

/// What is found out about the two projects before the edit is built.
#[derive(Clone, Debug, PartialEq, Eq)]
pub struct InsertionFacts {
    /// The clock of each source frame, frozen at its time in the source.
    pub clocks: Vec<Option<CaptureClock>>,
    /// What becomes of the scope of each layer of the destination.
    pub scopes: Vec<DerivedScope>,
    /// The layers of the source that own marks by frame, moved to the new frames.
    pub frame_tracks: Vec<OverlayTrack>,
}

/// A source frame under its new identity.
pub open spec fn remapped_frame(
    frame: FrameView,
    id: u128,
    clock: Option<CaptureClock>,
) -> FrameView {
    FrameView { id: FrameId { value: id }, capture_clock: clock, ..frame }
}

/// The source frames under their new identities.
pub open spec fn remapped_frames(
    frames: Seq<FrameView>,
    ids: Seq<u128>,
    clocks: Seq<Option<CaptureClock>>,
) -> Seq<FrameView> {
    Seq::new(frames.len(), |i: int| remapped_frame(frames[i], ids[i], clocks[i]))
}

/// The source frames under their new identities.
pub fn remap_frames(
    frames: &Vec<FrameClip>,
    ids: &Vec<u128>,
    clocks: &Vec<Option<CaptureClock>>,
) -> (remapped: Vec<FrameClip>)
    requires
        ids@.len() == frames@.len(),
        clocks@.len() == frames@.len(),
    ensures
        value::views(remapped@) == remapped_frames(value::views(frames@), ids@, clocks@),
{
    let mut remapped: Vec<FrameClip> = Vec::with_capacity(frames.len());
    let mut index: usize = 0;
    while index < frames.len()
        invariant
            index <= frames.len(),
            ids@.len() == frames@.len(),
            clocks@.len() == frames@.len(),
            remapped@.len() == index,
            forall|i: int|
                0 <= i < index ==> (#[trigger] remapped@[i])@ == remapped_frame(
                    frames@[i]@,
                    ids@[i],
                    clocks@[i],
                ),
        decreases frames.len() - index,
    {
        let mut frame = frames[index].duplicate();
        frame.id = FrameId { value: ids[index] };
        frame.capture_clock = clocks[index];
        remapped.push(frame);
        index += 1;
    }
    assert(value::views(remapped@) =~= remapped_frames(value::views(frames@), ids@, clocks@));
    remapped
}

/// The new identity of a source frame: that of the last frame of its old identity.
pub open spec fn new_identity(frames: Seq<FrameView>, ids: Seq<u128>, id: FrameId, count: int) -> FrameId
    decreases count,
{
    if count <= 0 {
        id
    } else if frames[count - 1].id == id {
        FrameId { value: ids[count - 1] }
    } else {
        new_identity(frames, ids, id, count - 1)
    }
}

/// The new identity of a source frame.
fn find_new_identity(frames: &Vec<FrameClip>, ids: &Vec<u128>, id: FrameId) -> (found: FrameId)
    requires
        ids@.len() == frames@.len(),
    ensures
        found == new_identity(value::views(frames@), ids@, id, frames@.len() as int),
{
    let ghost clips = value::views(frames@);
    let mut count: usize = frames.len();
    while count > 0
        invariant
            count <= frames.len(),
            ids@.len() == frames@.len(),
            clips == value::views(frames@),
            new_identity(clips, ids@, id, clips.len() as int) == new_identity(
                clips,
                ids@,
                id,
                count as int,
            ),
        decreases count,
    {
        assert(clips[count - 1] == frames@[count - 1]@);
        if frames[count - 1].id == id {
            return FrameId { value: ids[count - 1] };
        }
        count -= 1;
    }
    id
}

/// The spans once `offset` microseconds are put ahead of them, where their starts can
/// be represented.
pub open spec fn delayed_spans(spans: Seq<TimelineSpan>, offset: int) -> Option<Seq<TimelineSpan>> {
    if exists|i: int| 0 <= i < spans.len() && (#[trigger] spans[i]).lo() + offset > u64::MAX {
        None
    } else {
        Some(
            Seq::new(
                spans.len(),
                |i: int|
                    TimelineSpan { start: TimeUs { us: (spans[i].lo() + offset) as u64 }, ..spans[i] },
            ),
        )
    }
}

/// The items under new identities once `offset` microseconds are put ahead of them,
/// where their starts can be represented.
pub open spec fn delayed_items(items: Seq<ItemView>, ids: Seq<u128>, offset: int) -> Option<
    Seq<ItemView>,
> {
    if exists|i: int| 0 <= i < items.len() && (#[trigger] items[i]).span.lo() + offset > u64::MAX {
        None
    } else {
        Some(
            Seq::new(
                items.len(),
                |i: int|
                    ItemView {
                        id: OverlayId { value: ids[i] },
                        span: TimelineSpan {
                            start: TimeUs { us: (items[i].span.lo() + offset) as u64 },
                            ..items[i].span
                        },
                        ..items[i]
                    },
            ),
        )
    }
}

/// A timed layer of the source as it comes into the destination.
pub open spec fn imported_track(
    track: TrackView,
    id: u128,
    ids: Seq<u128>,
    offset: int,
) -> Option<TrackView> {
    let scope = match track.annotation_scope {
        Some(spans) => delayed_spans(spans, offset),
        None => Some(Seq::empty()),
    };
    match (scope, delayed_items(track.items, ids, offset)) {
        (Some(spans), Some(items)) => Some(
            TrackView {
                id: TrackId { value: id },
                items,
                annotation_scope: if track.annotation_scope is Some {
                    Some(spans)
                } else {
                    None
                },
                ..track
            },
        ),
        _ => None,
    }
}

/// Puts `offset` microseconds ahead of the spans.
fn delay_spans(spans: &Vec<TimelineSpan>, offset: u64) -> (delayed: Option<Vec<TimelineSpan>>)
    ensures
        match delayed {
            Some(list) => delayed_spans(spans@, offset as int) == Some(list@),
            None => delayed_spans(spans@, offset as int) is None,
        },
{
    let mut delayed: Vec<TimelineSpan> = Vec::with_capacity(spans.len());
    let mut index: usize = 0;
    while index < spans.len()
        invariant
            index <= spans.len(),
            delayed@.len() == index,
            forall|i: int|
                0 <= i < index ==> (#[trigger] spans@[i]).lo() + offset <= u64::MAX,
            forall|i: int|
                0 <= i < index ==> #[trigger] delayed@[i] == (TimelineSpan {
                    start: TimeUs { us: (spans@[i].lo() + offset) as u64 },
                    ..spans@[i]
                }),
        decreases spans.len() - index,
    {
        match spans[index].start.get().checked_add(offset) {
            Some(start) => delayed.push(
                TimelineSpan { start: TimeUs::new(start), duration: spans[index].duration },
            ),
            None => {
                assert(spans@[index as int].lo() + offset > u64::MAX);
                return None;
            },
        }
        index += 1;
    }
    assert(delayed@ =~= delayed_spans(spans@, offset as int)->0);
    Some(delayed)
}

/// Puts `offset` microseconds ahead of the items and gives them new identities.
fn delay_items(items: &Vec<OverlayItem>, ids: &Vec<u128>, offset: u64) -> (delayed: Option<
    Vec<OverlayItem>,
>)
    requires
        ids@.len() == items@.len(),
    ensures
        match delayed {
            Some(list) => delayed_items(value::views(items@), ids@, offset as int) == Some(
                value::views(list@),
            ),
            None => delayed_items(value::views(items@), ids@, offset as int) is None,
        },
{
    let ghost all = value::views(items@);
    let mut delayed: Vec<OverlayItem> = Vec::with_capacity(items.len());
    let mut index: usize = 0;
    while index < items.len()
        invariant
            index <= items.len(),
            ids@.len() == items@.len(),
            all == value::views(items@),
            delayed@.len() == index,
            forall|i: int| 0 <= i < index ==> (#[trigger] all[i]).span.lo() + offset <= u64::MAX,
            forall|i: int|
                0 <= i < index ==> (#[trigger] delayed@[i])@ == (ItemView {
                    id: OverlayId { value: ids@[i] },
                    span: TimelineSpan {
                        start: TimeUs { us: (all[i].span.lo() + offset) as u64 },
                        ..all[i].span
                    },
                    ..all[i]
                }),
        decreases items.len() - index,
    {
        let item = &items[index];
        assert(all[index as int] == item@);
        match item.span.start.get().checked_add(offset) {
            Some(start) => delayed.push(
                OverlayItem {
                    id: OverlayId { value: ids[index] },
                    span: TimelineSpan {
                        start: TimeUs::new(start),
                        duration: item.span.duration,
                    },
                    z_index: item.z_index,
                    content: item.content.duplicate(),
                },
            ),
            None => {
                assert(all[index as int].span.lo() + offset > u64::MAX);
                return None;
            },
        }
        index += 1;
    }
    assert(value::views(delayed@) =~= delayed_items(all, ids@, offset as int)->0);
    Some(delayed)
}

/// Brings a timed layer of the source into the destination.
fn import_track(track: &OverlayTrack, id: u128, ids: &Vec<u128>, offset: u64) -> (imported: Option<
    OverlayTrack,
>)
    requires
        ids@.len() == track.items@.len(),
    ensures
        value::option_view(imported) == imported_track(track@, id, ids@, offset as int),
{
    let mut imported = track.duplicate();
    if let Some(scope) = &track.annotation_scope {
        match delay_spans(scope, offset) {
            Some(spans) => {
                imported.annotation_scope = Some(spans);
            },
            None => return None,
        }
    }
    match delay_items(&track.items, ids, offset) {
        Some(items) => {
            imported.items = items;
        },
        None => return None,
    }
    imported.id = TrackId { value: id };
    Some(imported)
}

/// The number of layers, among the first `count`, that own marks by frame.
pub open spec fn frame_owned(tracks: Seq<TrackView>, count: int) -> int
    decreases count,
{
    if count <= 0 {
        0
    } else {
        frame_owned(tracks, count - 1) + if tracks[count - 1].frame_cells is Some {
            1int
        } else {
            0
        }
    }
}

/// The number of layers that own marks by frame never shrinks.
pub proof fn lemma_frame_owned_grows(tracks: Seq<TrackView>, less: int, more: int)
    requires
        0 <= less <= more <= tracks.len(),
    ensures
        0 <= frame_owned(tracks, less) <= frame_owned(tracks, more),
    decreases more,
{
    if less < more {
        lemma_frame_owned_grows(tracks, less, more - 1);
    } else if less > 0 {
        lemma_frame_owned_grows(tracks, less - 1, less - 1);
    }
}

/// The changes that bring the first `count` layers of the source into the destination,
/// in the order of the source: it decides which of two equal overlays is on top.
pub open spec fn source_changes(
    tracks: Seq<TrackView>,
    count: int,
    frame_tracks: Seq<TrackView>,
    offset: int,
    track_ids: Seq<u128>,
    ids: Seq<Vec<u128>>,
) -> Option<Seq<CommandView>>
    decreases count,
{
    if count <= 0 {
        Some(Seq::empty())
    } else {
        let track = tracks[count - 1];
        let imported = if track.frame_cells is Some {
            Some(frame_tracks[frame_owned(tracks, count - 1)])
        } else {
            imported_track(track, track_ids[count - 1], ids[count - 1]@, offset)
        };
        match (
            source_changes(tracks, count - 1, frame_tracks, offset, track_ids, ids),
            imported,
        ) {
            (Some(before), Some(layer)) => Some(
                before.push(CommandView::UpsertOverlayTrack { track: layer }),
            ),
            _ => None,
        }
    }
}

/// Layers that cannot be brought stay so.
proof fn lemma_source_stays_failed(
    tracks: Seq<TrackView>,
    failed: int,
    count: int,
    frame_tracks: Seq<TrackView>,
    offset: int,
    track_ids: Seq<u128>,
    ids: Seq<Vec<u128>>,
)
    requires
        failed <= count,
        source_changes(tracks, failed, frame_tracks, offset, track_ids, ids) is None,
    ensures
        source_changes(tracks, count, frame_tracks, offset, track_ids, ids) is None,
    decreases count,
{
    if failed < count {
        lemma_source_stays_failed(
            tracks,
            failed,
            count - 1,
            frame_tracks,
            offset,
            track_ids,
            ids,
        );
    }
}

/// Appends the changes that bring the layers of the source into the destination.
pub fn append_source_tracks(
    commands: &mut Vec<EditCommand>,
    tracks: &Vec<OverlayTrack>,
    frame_tracks: &Vec<OverlayTrack>,
    offset: u64,
    track_ids: &Vec<u128>,
    ids: &Vec<Vec<u128>>,
) -> (result: Result<(), ProjectInsertionError>)
    requires
        track_ids@.len() == tracks@.len(),
        title::enough_ids(tracks@, ids@),
        frame_tracks@.len() == frame_owned(value::views(tracks@), tracks@.len() as int),
    ensures
        ({
            let changes = source_changes(
                value::views(tracks@),
                tracks@.len() as int,
                value::views(frame_tracks@),
                offset as int,
                track_ids@,
                ids@,
            );
            match result {
                Ok(_) => changes matches Some(added) && value::views(final(commands)@)
                    == value::views(old(commands)@) + added,
                Err(error) => changes is None && error == ProjectInsertionError::DurationOverflow,
            }
        }),
{
    let ghost all = value::views(tracks@);
    let ghost owned = value::views(frame_tracks@);
    let ghost start = value::views(commands@);
    let available: usize = frame_tracks.len();
    let mut next: usize = 0;
    let mut index: usize = 0;
    assert(start + Seq::<CommandView>::empty() =~= start);
    while index < tracks.len()
        invariant
            index <= tracks.len(),
            all == value::views(tracks@),
            owned == value::views(frame_tracks@),
            start == value::views(old(commands)@),
            track_ids@.len() == tracks@.len(),
            title::enough_ids(tracks@, ids@),
            available == frame_tracks@.len() == frame_owned(all, all.len() as int),
            next == frame_owned(all, index as int),
            source_changes(all, index as int, owned, offset as int, track_ids@, ids@) is Some,
            value::views(commands@) == start + source_changes(
                all,
                index as int,
                owned,
                offset as int,
                track_ids@,
                ids@,
            )->0,
        decreases tracks.len() - index,
    {
        let track = &tracks[index];
        assert(all[index as int] == track@);
        proof {
            lemma_frame_owned_grows(all, index + 1, all.len() as int);
        }
        let imported = if track.frame_cells.is_some() {
            let layer = frame_tracks[next].duplicate();
            assert(owned[next as int] == frame_tracks@[next as int]@);
            next += 1;
            layer
        } else {
            match import_track(track, track_ids[index], &ids[index], offset) {
                Some(layer) => layer,
                None => {
                    proof {
                        lemma_source_stays_failed(
                            all,
                            index + 1,
                            all.len() as int,
                            owned,
                            offset as int,
                            track_ids@,
                            ids@,
                        );
                    }
                    return Err(ProjectInsertionError::DurationOverflow);
                },
            }
        };
        let ghost before = value::views(commands@);
        let ghost earlier = source_changes(
            all,
            index as int,
            owned,
            offset as int,
            track_ids@,
            ids@,
        )->0;
        let command = EditCommand::UpsertOverlayTrack { track: imported };
        let ghost change = command@;
        commands.push(command);
        assert(value::views(commands@) =~= before.push(change));
        assert(start + earlier.push(change) =~= (start + earlier).push(change));
        index += 1;
    }
    Ok(())
}

/// The changes of the timed layers of the destination, the first `count` of all.
pub open spec fn destination_changes(
    tracks: Seq<TrackView>,
    count: int,
    scopes: Seq<DerivedScope>,
    start: int,
    length: int,
    ids: Seq<Vec<u128>>,
) -> Option<Seq<CommandView>>
    decreases count,
{
    if count <= 0 {
        Some(Seq::empty())
    } else {
        let track = tracks[count - 1];
        let before = destination_changes(tracks, count - 1, scopes, start, length, ids);
        if track.frame_cells is Some {
            before
        } else {
            match (
                before,
                shifting::shift_track(track, scopes[count - 1], start, length, ids[count - 1]@),
            ) {
                (Some(list), Some(layer)) => Some(
                    list.push(CommandView::UpsertOverlayTrack { track: layer }),
                ),
                _ => None,
            }
        }
    }
}

/// Layers that cannot be moved stay so.
proof fn lemma_destination_stays_failed(
    tracks: Seq<TrackView>,
    failed: int,
    count: int,
    scopes: Seq<DerivedScope>,
    start: int,
    length: int,
    ids: Seq<Vec<u128>>,
)
    requires
        failed <= count,
        destination_changes(tracks, failed, scopes, start, length, ids) is None,
    ensures
        destination_changes(tracks, count, scopes, start, length, ids) is None,
    decreases count,
{
    if failed < count {
        lemma_destination_stays_failed(tracks, failed, count - 1, scopes, start, length, ids);
    }
}

/// A transition of the source between the new frames.
pub open spec fn imported_transition(
    transition: Transition,
    id: u128,
    frames: Seq<FrameView>,
    ids: Seq<u128>,
) -> Transition {
    Transition {
        id: TransitionId { value: id },
        from_frame: new_identity(frames, ids, transition.from_frame, frames.len() as int),
        to_frame: new_identity(frames, ids, transition.to_frame, frames.len() as int),
        ..transition
    }
}

/// The descriptors that the destination has not registered.
pub open spec fn unregistered(assets: Seq<DescriptorView>) -> spec_fn(DescriptorView) -> bool {
    |descriptor: DescriptorView| project::asset_of(assets, descriptor.id) is None
}

/// The commands that register descriptors.
pub open spec fn registrations(descriptors: Seq<DescriptorView>) -> Seq<CommandView> {
    Seq::new(descriptors.len(), |i: int| CommandView::RegisterAsset { asset: descriptors[i] })
}

/// The whole edit: new assets, new frames, the layers of the destination with room made
/// for them, the layers of the source, the transitions of both, and the canvas where its
/// dimensions change.
pub open spec fn insertion_edit(
    destination: ManifestView,
    index: int,
    source: ManifestView,
    descriptors: Seq<DescriptorView>,
    output_size: PhysicalSize,
    facts: InsertionFacts,
    ids: InsertionIds,
) -> Option<Seq<CommandView>> {
    let into = destination.timeline;
    let from = source.timeline;
    let start = frames::clock(into.frames, index);
    let length = from.total();
    let (preceding, following) = title::parted(into.frames, index);
    let kept = into.transitions.filter(shifting::unparted(preceding, following));
    let joined = kept + Seq::new(
        from.transitions.len(),
        |i: int|
            imported_transition(from.transitions[i], ids.transitions@[i], from.frames, ids.frames@),
    );
    let moved = destination_changes(
        into.overlay_tracks,
        into.overlay_tracks.len() as int,
        facts.scopes@,
        start,
        length,
        ids.split_items@,
    );
    let brought = source_changes(
        from.overlay_tracks,
        from.overlay_tracks.len() as int,
        value::views(facts.frame_tracks@),
        start,
        ids.tracks@,
        ids.items@,
    );
    if start > u64::MAX || length > u64::MAX || length == 0 || moved is None || brought is None {
        None
    } else {
        Some(
            registrations(descriptors.filter(unregistered(destination.assets))) + seq![
                CommandView::InsertFrames {
                    index,
                    frames: remapped_frames(from.frames, ids.frames@, facts.clocks@),
                },
            ] + moved->0 + brought->0 + seq![CommandView::SetTransitions { transitions: joined }]
                + if output_size != destination.canvas.size {
                seq![
                    CommandView::SetCanvas {
                        canvas: Canvas { size: output_size, ..destination.canvas },
                    },
                ]
            } else {
                Seq::empty()
            },
        )
    }
}

/// The commands that register what the destination has not registered.
fn registration_commands(
    descriptors: &Vec<AssetDescriptor>,
    assets: &Vec<AssetDescriptor>,
) -> (commands: Vec<EditCommand>)
    ensures
        value::views(commands@) == registrations(
            value::views(descriptors@).filter(unregistered(value::views(assets@))),
        ),
{
    let ghost all = value::views(descriptors@);
    let ghost pred = unregistered(value::views(assets@));
    let mut commands: Vec<EditCommand> = Vec::new();
    let mut index: usize = 0;
    proof {
        reveal(Seq::filter);
        assert(all.take(0).filter(pred) =~= Seq::empty());
        assert(value::views(commands@) =~= registrations(all.take(0).filter(pred)));
    }
    while index < descriptors.len()
        invariant
            index <= descriptors.len(),
            all == value::views(descriptors@),
            pred == unregistered(value::views(assets@)),
            value::views(commands@) == registrations(all.take(index as int).filter(pred)),
        decreases descriptors.len() - index,
    {
        proof {
            value::lemma_filter_next(all, pred, index as int);
        }
        let descriptor = &descriptors[index];
        assert(all[index as int] == descriptor@);
        if find_asset(assets, descriptor.id).is_none() {
            let ghost before = value::views(commands@);
            let ghost earlier = all.take(index as int).filter(pred);
            let command = EditCommand::RegisterAsset { asset: descriptor.duplicate() };
            let ghost shape = command@;
            commands.push(command);
            assert(value::views(commands@) =~= before.push(shape));
            assert(registrations(earlier.push(descriptor@)) =~= registrations(earlier).push(shape));
        }
        index += 1;
    }
    assert(all.take(index as int) =~= all);
    commands
}

/// The edit that inserts a project, with the identities given, and those of its frames.
pub fn insertion_command(
    destination: &ProjectManifest,
    index: usize,
    source: &ProjectManifest,
    descriptors: &Vec<AssetDescriptor>,
    output_size: PhysicalSize,
    facts: &InsertionFacts,
    ids: &InsertionIds,
) -> (result: Result<(Vec<EditCommand>, Vec<FrameId>), ProjectInsertionError>)
    requires
        index <= destination.timeline.frames@.len(),
        ids.suffice(destination.timeline, source.timeline),
        facts.clocks@.len() == source.timeline.frames@.len(),
        facts.scopes@.len() == destination.timeline.overlay_tracks@.len(),
        facts.frame_tracks@.len() == frame_owned(
            source@.timeline.overlay_tracks,
            source@.timeline.overlay_tracks.len() as int,
        ),
    ensures
        ({
            let edit = insertion_edit(
                destination@,
                index as int,
                source@,
                value::views(descriptors@),
                output_size,
                *facts,
                *ids,
            );
            match result {
                Ok((commands, inserted)) => {
                    &&& edit == Some(value::views(commands@))
                    &&& inserted@ == Seq::new(
                        ids.frames@.len(),
                        |i: int| FrameId { value: ids.frames@[i] },
                    )
                },
                Err(error) => edit is None && error == ProjectInsertionError::DurationOverflow,
            }
        }),
{
    let ghost into = destination@.timeline;
    let ghost from = source@.timeline;
    let timeline = &destination.timeline;
    let start: u64 = match start_of(&timeline.frames, index) {
        Some(start) => start,
        None => return Err(ProjectInsertionError::DurationOverflow),
    };
    let duration = match source.timeline.total_duration() {
        Some(total) => match DurationUs::new(total) {
            Some(duration) => duration,
            None => return Err(ProjectInsertionError::DurationOverflow),
        },
        None => return Err(ProjectInsertionError::DurationOverflow),
    };
    let new_frames = remap_frames(&source.timeline.frames, &ids.frames, &facts.clocks);
    let mut commands = registration_commands(descriptors, &destination.assets);
    let ghost head = value::views(commands@);
    let preceding = if index > 0 {
        assert(into.frames[index - 1] == timeline.frames@[index - 1]@);
        Some(timeline.frames[index - 1].id)
    } else {
        None
    };
    let following = if index < timeline.frames.len() {
        assert(into.frames[index as int] == timeline.frames@[index as int]@);
        Some(timeline.frames[index].id)
    } else {
        None
    };
    assert(title::parted(into.frames, index as int) == (preceding, following));
    let mut transitions = keep_unparted(&timeline.transitions, preceding, following);
    let insertion = EditCommand::InsertFrames { index, frames: new_frames };
    let ghost frames_change = insertion@;
    commands.push(insertion);
    let ghost base = head + seq![frames_change];
    assert(value::views(commands@) =~= base);
    let tracks = &timeline.overlay_tracks;
    let mut at: usize = 0;
    assert(base + Seq::<CommandView>::empty() =~= base);
    while at < tracks.len()
        invariant
            at <= tracks.len(),
            into == destination@.timeline,
            from == source@.timeline,
            into.overlay_tracks == value::views(tracks@),
            facts.scopes@.len() == tracks@.len(),
            title::enough_ids(tracks@, ids.split_items@),
            start == frames::clock(into.frames, index as int),
            duration@ == from.total(),
            destination_changes(
                into.overlay_tracks,
                at as int,
                facts.scopes@,
                start as int,
                duration@,
                ids.split_items@,
            ) is Some,
            value::views(commands@) == base + destination_changes(
                into.overlay_tracks,
                at as int,
                facts.scopes@,
                start as int,
                duration@,
                ids.split_items@,
            )->0,
        decreases tracks.len() - at,
    {
        let track = &tracks[at];
        assert(into.overlay_tracks[at as int] == track@);
        if track.frame_cells.is_none() {
            match shifted_track(track, &facts.scopes[at], start, duration, &ids.split_items[at]) {
                Some(layer) => {
                    let ghost before = value::views(commands@);
                    let ghost earlier = destination_changes(
                        into.overlay_tracks,
                        at as int,
                        facts.scopes@,
                        start as int,
                        duration@,
                        ids.split_items@,
                    )->0;
                    let command = EditCommand::UpsertOverlayTrack { track: layer };
                    let ghost change = command@;
                    commands.push(command);
                    assert(value::views(commands@) =~= before.push(change));
                    assert(base + earlier.push(change) =~= (base + earlier).push(change));
                },
                None => {
                    proof {
                        lemma_destination_stays_failed(
                            into.overlay_tracks,
                            at + 1,
                            into.overlay_tracks.len() as int,
                            facts.scopes@,
                            start as int,
                            duration@,
                            ids.split_items@,
                        );
                    }
                    return Err(ProjectInsertionError::DurationOverflow);
                },
            }
        }
        at += 1;
    }
    append_source_tracks(
        &mut commands,
        &source.timeline.overlay_tracks,
        &facts.frame_tracks,
        start,
        &ids.tracks,
        &ids.items,
    )?;
    let ghost layered = value::views(commands@);
    let ghost kept = transitions@;
    let ghost brought = Seq::new(
        from.transitions.len(),
        |i: int|
            imported_transition(from.transitions[i], ids.transitions@[i], from.frames, ids.frames@),
    );
    let mut index_of: usize = 0;
    assert(brought.take(0) =~= Seq::empty());
    assert(kept + brought.take(0) =~= kept);
    while index_of < source.timeline.transitions.len()
        invariant
            index_of <= source.timeline.transitions.len(),
            from == source@.timeline,
            ids.frames@.len() == source.timeline.frames@.len(),
            ids.transitions@.len() == source.timeline.transitions@.len(),
            brought == Seq::new(
                from.transitions.len(),
                |i: int|
                    imported_transition(
                        from.transitions[i],
                        ids.transitions@[i],
                        from.frames,
                        ids.frames@,
                    ),
            ),
            transitions@ == kept + brought.take(index_of as int),
        decreases source.timeline.transitions.len() - index_of,
    {
        let transition = source.timeline.transitions[index_of];
        let imported = Transition {
            id: TransitionId { value: ids.transitions[index_of] },
            from_frame: find_new_identity(
                &source.timeline.frames,
                &ids.frames,
                transition.from_frame,
            ),
            to_frame: find_new_identity(&source.timeline.frames, &ids.frames, transition.to_frame),
            duration: transition.duration,
            steps: transition.steps,
            kind: transition.kind,
        };
        assert(imported == brought[index_of as int]);
        transitions.push(imported);
        assert(brought.take(index_of + 1) =~= brought.take(index_of as int).push(imported));
        assert(transitions@ =~= kept + brought.take(index_of + 1));
        index_of += 1;
    }
    assert(brought.take(index_of as int) =~= brought);
    let command = EditCommand::SetTransitions { transitions };
    let ghost joined = command@;
    commands.push(command);
    assert(value::views(commands@) =~= layered + seq![joined]);
    if output_size != destination.canvas.size {
        let mut canvas = destination.canvas;
        canvas.size = output_size;
        let ghost before = value::views(commands@);
        let command = EditCommand::SetCanvas { canvas };
        let ghost change = command@;
        commands.push(command);
        assert(value::views(commands@) =~= before + seq![change]);
    } else {
        assert(value::views(commands@) + Seq::<CommandView>::empty() =~= value::views(commands@));
    }
    let mut inserted: Vec<FrameId> = Vec::with_capacity(ids.frames.len());
    let mut number: usize = 0;
    while number < ids.frames.len()
        invariant
            number <= ids.frames.len(),
            inserted@.len() == number,
            forall|i: int|
                0 <= i < number ==> #[trigger] inserted@[i] == (FrameId { value: ids.frames@[i] }),
        decreases ids.frames.len() - number,
    {
        inserted.push(FrameId { value: ids.frames[number] });
        number += 1;
    }
    assert(inserted@ =~= Seq::new(
        ids.frames@.len(),
        |i: int| FrameId { value: ids.frames@[i] },
    ));
    Ok((commands, inserted))
}

/// Every item of a timed layer comes into the destination with the content, the painting order and the
/// duration it had, at the place it had among the others. Its identity is new and its start is moved by
/// the time at which the project is inserted.
pub proof fn law_imported_items_keep_what_they_show(items: Seq<ItemView>, ids: Seq<u128>, offset: int, i: int)
    requires
        delayed_items(items, ids, offset) is Some,
        0 <= offset,
        0 <= i < items.len(),
    ensures
        ({
            let imported = delayed_items(items, ids, offset)->0;
            &&& imported.len() == items.len()
            &&& imported[i].content == items[i].content
            &&& imported[i].z_index == items[i].z_index
            &&& imported[i].span.duration == items[i].span.duration
            &&& imported[i].span.start.us == items[i].span.start.us + offset
            &&& imported[i].id.value == ids[i]
        }),
{
    assert(items[i].span.lo() + offset <= u64::MAX);
}

/// A layer is refused for its time exactly where a start of one of its items or of its authoring scope
/// would be too late to be written.
pub proof fn law_a_layer_comes_where_its_times_can_be_written(track: TrackView, id: u128, ids: Seq<u128>, offset: int)
    ensures
        imported_track(track, id, ids, offset) is None <==> {
            ||| exists|i: int|
                0 <= i < track.items.len() && (#[trigger] track.items[i]).span.start.us + offset > u64::MAX
            ||| track.annotation_scope matches Some(spans) && exists|i: int|
                0 <= i < spans.len() && (#[trigger] spans[i]).start.us + offset > u64::MAX
        },
{
    if track.annotation_scope is Some {
        let spans = track.annotation_scope->0;
        assert(forall|i: int| 0 <= i < spans.len() ==> (#[trigger] spans[i]).lo() == spans[i].start.us);
    }
    assert(forall|i: int|
        0 <= i < track.items.len() ==> (#[trigger] track.items[i]).span.lo() == track.items[i].span.start.us);
}

/// A timed layer of the source comes with its name, its settings and its recipe, with all its items, and
/// with its authoring scope moved by the time at which the project is inserted.
pub proof fn law_imported_layers_keep_their_settings(track: TrackView, id: u128, ids: Seq<u128>, offset: int)
    requires
        imported_track(track, id, ids, offset) is Some,
        0 <= offset,
    ensures
        ({
            let layer = imported_track(track, id, ids, offset)->0;
            &&& layer.id.value == id
            &&& layer.name == track.name
            &&& layer.visible == track.visible
            &&& layer.opacity == track.opacity
            &&& layer.blend_mode == track.blend_mode
            &&& layer.annotation == track.annotation
            &&& layer.frame_cells == track.frame_cells
            &&& layer.items.len() == track.items.len()
            &&& forall|i: int|
                0 <= i < track.items.len() ==> {
                    &&& (#[trigger] layer.items[i]).content == track.items[i].content
                    &&& layer.items[i].z_index == track.items[i].z_index
                    &&& layer.items[i].span.duration == track.items[i].span.duration
                    &&& layer.items[i].span.start.us == track.items[i].span.start.us + offset
                    &&& layer.items[i].id.value == ids[i]
                }
            &&& match track.annotation_scope {
                None => layer.annotation_scope is None,
                Some(spans) => layer.annotation_scope matches Some(moved) && moved.len() == spans.len()
                    && forall|i: int|
                    0 <= i < spans.len() ==> (#[trigger] moved[i]).duration == spans[i].duration
                        && moved[i].start.us == spans[i].start.us + offset,
            }
        }),
{
    let layer = imported_track(track, id, ids, offset)->0;
    assert forall|i: int| 0 <= i < track.items.len() implies {
        &&& (#[trigger] layer.items[i]).content == track.items[i].content
        &&& layer.items[i].z_index == track.items[i].z_index
        &&& layer.items[i].span.duration == track.items[i].span.duration
        &&& layer.items[i].span.start.us == track.items[i].span.start.us + offset
        &&& layer.items[i].id.value == ids[i]
    } by {
        law_imported_items_keep_what_they_show(track.items, ids, offset, i);
    }
    if track.annotation_scope is Some {
        let spans = track.annotation_scope->0;
        let moved = layer.annotation_scope->0;
        assert forall|i: int| 0 <= i < spans.len() implies (#[trigger] moved[i]).duration == spans[i].duration
            && moved[i].start.us == spans[i].start.us + offset by {
            assert(spans[i].lo() + offset <= u64::MAX);
        }
    }
}

/// The layers that are brought, in the order of the source: a timed one as [`imported_track`] gives it,
/// and one that owns marks by frame as it was handed over, the first such layer first.
pub proof fn law_layers_are_brought_in_order(
    tracks: Seq<TrackView>,
    frame_tracks: Seq<TrackView>,
    offset: int,
    track_ids: Seq<u128>,
    ids: Seq<Vec<u128>>,
    i: int,
)
    requires
        source_changes(tracks, tracks.len() as int, frame_tracks, offset, track_ids, ids) is Some,
        0 <= offset,
        0 <= i < tracks.len(),
    ensures
        ({
            let changes = source_changes(tracks, tracks.len() as int, frame_tracks, offset, track_ids, ids)->0;
            let owned = |track: TrackView| track.frame_cells is Some;
            &&& changes.len() == tracks.len()
            &&& changes[i] matches CommandView::UpsertOverlayTrack { track: layer } && (match tracks[i].frame_cells {
                Some(_) => layer == frame_tracks[tracks.take(i).filter(owned).len() as int],
                None => {
                    &&& layer.id.value == track_ids[i]
                    &&& layer.name == tracks[i].name
                    &&& layer.visible == tracks[i].visible
                    &&& layer.opacity == tracks[i].opacity
                    &&& layer.blend_mode == tracks[i].blend_mode
                    &&& layer.annotation == tracks[i].annotation
                    &&& layer.frame_cells is None
                    &&& layer.items.len() == tracks[i].items.len()
                    &&& forall|k: int|
                        0 <= k < layer.items.len() ==> {
                            &&& (#[trigger] layer.items[k]).content == tracks[i].items[k].content
                            &&& layer.items[k].z_index == tracks[i].items[k].z_index
                            &&& layer.items[k].span.duration == tracks[i].items[k].span.duration
                            &&& layer.items[k].span.start.us == tracks[i].items[k].span.start.us + offset
                            &&& layer.items[k].id.value == ids[i]@[k]
                        }
                },
            })
        }),
{
    lemma_brought_at(tracks, tracks.len() as int, frame_tracks, offset, track_ids, ids, i);
    lemma_owned_before(tracks, i);
    if tracks[i].frame_cells is None {
        law_imported_layers_keep_their_settings(tracks[i], track_ids[i], ids[i]@, offset);
    }
}

proof fn lemma_owned_before(tracks: Seq<TrackView>, count: int)
    requires
        0 <= count <= tracks.len(),
    ensures
        frame_owned(tracks, count) == tracks.take(count).filter(|track: TrackView| track.frame_cells is Some).len(),
    decreases count,
{
    let owned = |track: TrackView| track.frame_cells is Some;
    reveal(Seq::filter);
    if count > 0 {
        lemma_owned_before(tracks, count - 1);
        value::lemma_filter_next(tracks, owned, count - 1);
    } else {
        assert(tracks.take(0).filter(owned) =~= Seq::empty());
    }
}

proof fn lemma_brought_at(
    tracks: Seq<TrackView>,
    count: int,
    frame_tracks: Seq<TrackView>,
    offset: int,
    track_ids: Seq<u128>,
    ids: Seq<Vec<u128>>,
    i: int,
)
    requires
        0 <= i < count <= tracks.len(),
        source_changes(tracks, count, frame_tracks, offset, track_ids, ids) is Some,
    ensures
        ({
            let changes = source_changes(tracks, count, frame_tracks, offset, track_ids, ids)->0;
            &&& changes.len() == count
            &&& changes[i] == (CommandView::UpsertOverlayTrack {
                track: if tracks[i].frame_cells is Some {
                    frame_tracks[frame_owned(tracks, i)]
                } else {
                    imported_track(tracks[i], track_ids[i], ids[i]@, offset)->0
                },
            })
            &&& tracks[i].frame_cells is None ==> imported_track(tracks[i], track_ids[i], ids[i]@, offset) is Some
        }),
    decreases count,
{
    if i < count - 1 {
        lemma_brought_at(tracks, count - 1, frame_tracks, offset, track_ids, ids, i);
    } else {
        lemma_brought_count(tracks, count - 1, frame_tracks, offset, track_ids, ids);
    }
}

proof fn lemma_brought_count(
    tracks: Seq<TrackView>,
    count: int,
    frame_tracks: Seq<TrackView>,
    offset: int,
    track_ids: Seq<u128>,
    ids: Seq<Vec<u128>>,
)
    requires
        0 <= count <= tracks.len(),
        source_changes(tracks, count, frame_tracks, offset, track_ids, ids) is Some,
    ensures
        source_changes(tracks, count, frame_tracks, offset, track_ids, ids)->0.len() == count,
    decreases count,
{
    if count > 0 {
        lemma_brought_count(tracks, count - 1, frame_tracks, offset, track_ids, ids);
    }
}

/// The positions of the layers that show by time.
pub open spec fn timed_layers(tracks: Seq<TrackView>) -> Seq<int> {
    Seq::new(tracks.len(), |t: int| t).filter(|t: int| tracks[t].frame_cells is None)
}

/// Each timed layer of the destination makes way, in the order of the layers; those that own marks by
/// frame are left alone.
pub proof fn law_timed_layers_make_way(
    tracks: Seq<TrackView>,
    scopes: Seq<DerivedScope>,
    start: int,
    length: int,
    ids: Seq<Vec<u128>>,
)
    requires
        destination_changes(tracks, tracks.len() as int, scopes, start, length, ids) is Some,
    ensures
        ({
            let changes = destination_changes(tracks, tracks.len() as int, scopes, start, length, ids)->0;
            let timed = timed_layers(tracks);
            &&& changes.len() == timed.len()
            &&& forall|j: int|
                0 <= j < timed.len() ==> {
                    let t = timed[j];
                    &&& (#[trigger] changes[j]) matches CommandView::UpsertOverlayTrack { track: layer }
                        && shifting::shift_track(tracks[t], scopes[t], start, length, ids[t]@) == Some(layer)
                }
        }),
{
    lemma_timed_layers(tracks, tracks.len() as int, scopes, start, length, ids);
    assert(Seq::new(tracks.len(), |t: int| t).take(tracks.len() as int) =~= Seq::new(tracks.len(), |t: int| t));
}

proof fn lemma_timed_layers(
    tracks: Seq<TrackView>,
    count: int,
    scopes: Seq<DerivedScope>,
    start: int,
    length: int,
    ids: Seq<Vec<u128>>,
)
    requires
        0 <= count <= tracks.len(),
        destination_changes(tracks, count, scopes, start, length, ids) is Some,
    ensures
        ({
            let changes = destination_changes(tracks, count, scopes, start, length, ids)->0;
            let timed = Seq::new(tracks.len(), |t: int| t).take(count).filter(
                |t: int| tracks[t].frame_cells is None,
            );
            &&& changes.len() == timed.len()
            &&& forall|j: int|
                0 <= j < timed.len() ==> {
                    let t = timed[j];
                    &&& (#[trigger] changes[j]) matches CommandView::UpsertOverlayTrack { track: layer }
                        && shifting::shift_track(tracks[t], scopes[t], start, length, ids[t]@) == Some(layer)
                }
        }),
    decreases count,
{
    let all = Seq::new(tracks.len(), |t: int| t);
    let shows = |t: int| tracks[t].frame_cells is None;
    reveal(Seq::filter);
    if count > 0 {
        lemma_timed_layers(tracks, count - 1, scopes, start, length, ids);
        value::lemma_filter_next(all, shows, count - 1);
        assert(all[count - 1] == count - 1);
    } else {
        assert(all.take(0).filter(shows) =~= Seq::empty());
    }
}

proof fn lemma_new_identity(frames: Seq<FrameView>, ids: Seq<u128>, id: FrameId, count: int, f: int)
    requires
        0 <= f < count <= frames.len(),
        frames[f].id == id,
        forall|g: int| f < g < count ==> (#[trigger] frames[g]).id != id,
    ensures
        new_identity(frames, ids, id, count).value == ids[f],
    decreases count,
{
    if f < count - 1 {
        lemma_new_identity(frames, ids, id, count - 1, f);
    }
}

/// A transition of the source comes with its duration, its steps and its kind, under its new identity,
/// and joins the new frames that stand for the frames it joined.
pub proof fn law_imported_transitions_join_the_same_frames(
    transition: Transition,
    id: u128,
    frames: Seq<FrameView>,
    ids: Seq<u128>,
    from: int,
    to: int,
)
    requires
        0 <= from < frames.len(),
        0 <= to < frames.len(),
        forall|f: int, g: int| 0 <= f < g < frames.len() ==> (#[trigger] frames[f]).id != (#[trigger] frames[g]).id,
        transition.from_frame == frames[from].id,
        transition.to_frame == frames[to].id,
    ensures
        ({
            let imported = imported_transition(transition, id, frames, ids);
            &&& imported.id.value == id
            &&& imported.duration == transition.duration
            &&& imported.steps == transition.steps
            &&& imported.kind == transition.kind
            &&& imported.from_frame.value == ids[from]
            &&& imported.to_frame.value == ids[to]
        }),
{
    lemma_new_identity(frames, ids, transition.from_frame, frames.len() as int, from);
    lemma_new_identity(frames, ids, transition.to_frame, frames.len() as int, to);
}

/// An insertion registers exactly the assets that the destination does not know, puts every frame of the
/// source in at the chosen place, in order and with all that it had, lets the timed layers of the
/// destination make way at the time of that place and for the length of the source, and brings every
/// layer of the source to that time. It keeps the transitions of the destination but for one between the
/// two frames that are parted, adds those of the source, and changes nothing of the canvas but its size,
/// where that differs.
pub proof fn law_an_insertion_does_all_its_parts(
    destination: ManifestView,
    index: int,
    source: ManifestView,
    descriptors: Seq<DescriptorView>,
    output_size: PhysicalSize,
    facts: InsertionFacts,
    ids: InsertionIds,
)
    requires
        insertion_edit(destination, index, source, descriptors, output_size, facts, ids) is Some,
        0 <= index <= destination.timeline.frames.len(),
    ensures
        ({
            let commands = insertion_edit(destination, index, source, descriptors, output_size, facts, ids)->0;
            let into = destination.timeline;
            let from = source.timeline;
            let start = frames::clock(into.frames, index);
            let length = frames::clock(from.frames, from.frames.len() as int);
            let fresh = descriptors.filter(
                |descriptor: DescriptorView|
                    forall|k: int|
                        0 <= k < destination.assets.len() ==> (#[trigger] destination.assets[k]).id != descriptor.id,
            );
            let kept = into.transitions.filter(
                |transition: Transition|
                    !(0 < index < into.frames.len() && transition.from_frame == into.frames[index - 1].id
                        && transition.to_frame == into.frames[index].id),
            );
            let moved = destination_changes(
                into.overlay_tracks,
                into.overlay_tracks.len() as int,
                facts.scopes@,
                start,
                length,
                ids.split_items@,
            );
            let brought = source_changes(
                from.overlay_tracks,
                from.overlay_tracks.len() as int,
                value::views(facts.frame_tracks@),
                start,
                ids.tracks@,
                ids.items@,
            );
            let layers = fresh.len() as int + 1;
            let last = layers + moved->0.len() + brought->0.len();
            &&& moved is Some && brought is Some
            &&& commands.len() == last + 1 + (if output_size == destination.canvas.size {
                0int
            } else {
                1
            })
            &&& forall|j: int|
                0 <= j < fresh.len() ==> #[trigger] commands[j] == (CommandView::RegisterAsset { asset: fresh[j] })
            &&& commands[layers - 1] matches CommandView::InsertFrames { index: at, frames: put } && {
                &&& at == index
                &&& put.len() == from.frames.len()
                &&& forall|i: int|
                    0 <= i < put.len() ==> {
                        &&& (#[trigger] put[i]).id.value == ids.frames@[i]
                        &&& put[i].capture_clock == facts.clocks@[i]
                        &&& put[i].asset_id == from.frames[i].asset_id
                        &&& put[i].duration == from.frames[i].duration
                        &&& put[i].transform == from.frames[i].transform
                        &&& put[i].capture_metadata == from.frames[i].capture_metadata
                        &&& put[i].capture_binding == from.frames[i].capture_binding
                        &&& put[i].effects == from.frames[i].effects
                        &&& put[i].render_steps == from.frames[i].render_steps
                    }
            }
            &&& commands.subrange(layers, layers + moved->0.len()) == moved->0
            &&& commands.subrange(layers + moved->0.len(), last) == brought->0
            &&& commands[last] matches CommandView::SetTransitions { transitions } && {
                &&& transitions.len() == kept.len() + from.transitions.len()
                &&& transitions.take(kept.len() as int) == kept
                &&& forall|i: int|
                    0 <= i < from.transitions.len() ==> #[trigger] transitions[kept.len() + i] == imported_transition(
                        from.transitions[i],
                        ids.transitions@[i],
                        from.frames,
                        ids.frames@,
                    )
            }
            &&& output_size != destination.canvas.size ==> (commands[last + 1] matches CommandView::SetCanvas { canvas }
                && canvas.size == output_size && canvas.color_space == destination.canvas.color_space
                && canvas.background == destination.canvas.background)
        }),
{
    let commands = insertion_edit(destination, index, source, descriptors, output_size, facts, ids)->0;
    let into = destination.timeline;
    let from = source.timeline;
    let start = frames::clock(into.frames, index);
    let length = from.total();
    let unknown = |descriptor: DescriptorView|
        forall|k: int|
            0 <= k < destination.assets.len() ==> (#[trigger] destination.assets[k]).id != descriptor.id;
    assert(unregistered(destination.assets) =~= unknown);
    let (preceding, following) = title::parted(into.frames, index);
    let apart = |transition: Transition|
        !(0 < index < into.frames.len() && transition.from_frame == into.frames[index - 1].id && transition.to_frame
            == into.frames[index].id);
    assert(shifting::unparted(preceding, following) =~= apart);
    let fresh = descriptors.filter(unknown);
    let kept = into.transitions.filter(apart);
    let moved = destination_changes(
        into.overlay_tracks,
        into.overlay_tracks.len() as int,
        facts.scopes@,
        start,
        length,
        ids.split_items@,
    )->0;
    let brought = source_changes(
        from.overlay_tracks,
        from.overlay_tracks.len() as int,
        value::views(facts.frame_tracks@),
        start,
        ids.tracks@,
        ids.items@,
    )->0;
    let layers = fresh.len() as int + 1;
    let last = layers + moved.len() + brought.len();
    assert(commands.subrange(layers, layers + moved.len()) =~= moved);
    assert(commands.subrange(layers + moved.len(), last) =~= brought);
    let transitions = commands[last]->SetTransitions_transitions;
    assert(transitions.take(kept.len() as int) =~= kept);
}

/// An insertion has no edit exactly where a time cannot be written or the source shows nothing: where the
/// place in the destination or the length of the source is beyond any time, or where a layer of either
/// cannot be moved.
pub proof fn law_an_insertion_fails_for_its_times_alone(
    destination: ManifestView,
    index: int,
    source: ManifestView,
    descriptors: Seq<DescriptorView>,
    output_size: PhysicalSize,
    facts: InsertionFacts,
    ids: InsertionIds,
)
    ensures
        ({
            let into = destination.timeline;
            let from = source.timeline;
            let start = frames::clock(into.frames, index);
            let length = frames::clock(from.frames, from.frames.len() as int);
            insertion_edit(destination, index, source, descriptors, output_size, facts, ids) is Some <==> {
                &&& start <= u64::MAX
                &&& length != 0 && length <= u64::MAX
                &&& destination_changes(
                    into.overlay_tracks,
                    into.overlay_tracks.len() as int,
                    facts.scopes@,
                    start,
                    length,
                    ids.split_items@,
                ) is Some
                &&& source_changes(
                    from.overlay_tracks,
                    from.overlay_tracks.len() as int,
                    value::views(facts.frame_tracks@),
                    start,
                    ids.tracks@,
                    ids.items@,
                ) is Some
            }
        }),
{
}

} // verus!
