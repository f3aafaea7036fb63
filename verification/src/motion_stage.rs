//! Refusing to bake frames whose hidden overlays hang on an earlier stage.
use vstd::prelude::*;
use crate::cancel::CancellationToken;
use crate::frames;
use crate::frames::{FrameClip, FrameView};
use crate::ids::{contains_frame, FrameId};
use crate::motion_pixels;
use crate::motion_pixels::check_cancelled;
use crate::overlay::{FrameOverlayCell, OverlayItem, OverlayTrack, TrackView};
use crate::project::{CommandView, EditCommand};
use crate::time::TimelineSpan;
use crate::value;

verus! {

/// Whether a baked frame has rendering steps of its own.
pub open spec fn is_staged(frame: FrameView, owners: Seq<FrameId>) -> bool {
    owners.contains(frame.id) && frame.render_steps.len() > 0
}

/// Whether the identity is that of a baked frame with rendering steps, among the
/// first `count` frames.
pub open spec fn staged_among(
    frames: Seq<FrameView>,
    owners: Seq<FrameId>,
    count: int,
    id: FrameId,
) -> bool {
    exists|f: int| 0 <= f < count && is_staged(#[trigger] frames[f], owners) && frames[f].id == id
}

/// Whether the identity is that of a baked frame with rendering steps.
pub open spec fn staged_id(frames: Seq<FrameView>, owners: Seq<FrameId>, id: FrameId) -> bool {
    staged_among(frames, owners, frames.len() as int, id)
}

/// Whether a baked frame with rendering steps, among the first `count` frames,
/// starts at the given time.
pub open spec fn staged_at(
    frames: Seq<FrameView>,
    owners: Seq<FrameId>,
    count: int,
    time: int,
) -> bool {
    exists|f: int|
        0 <= f < count && is_staged(#[trigger] frames[f], owners) && frames::clock(frames, f)
            == time
}

/// Whether a baked frame with rendering steps starts while the span is shown.
pub open spec fn staged_within(
    frames: Seq<FrameView>,
    owners: Seq<FrameId>,
    span: TimelineSpan,
) -> bool {
    exists|time: int|
        #[trigger] staged_at(frames, owners, frames.len() as int, time) && span.covers(time)
}

/// Whether a layer paints on an earlier stage of a baked frame.
pub open spec fn conflicts(track: TrackView, frames: Seq<FrameView>, owners: Seq<FrameId>) -> bool {
    match track.frame_cells {
        Some(cells) => exists|i: int|
            0 <= i < cells.len() && (#[trigger] cells[i]).stage is Some && staged_id(
                frames,
                owners,
                cells[i].frame_id,
            ),
        None => exists|i: int|
            0 <= i < track.items.len() && (#[trigger] track.items[i]).span.hi() <= u64::MAX
                && staged_within(frames, owners, track.items[i].span),
    }
}

/// What the first `count` changes leave of a layer.
pub open spec fn retained(track: TrackView, changes: Seq<CommandView>, count: int) -> Option<
    TrackView,
>
    decreases count,
{
    if count <= 0 {
        Some(track)
    } else {
        match changes[count - 1] {
            CommandView::UpsertOverlayTrack { track: replacement } if replacement.id
                == track.id => Some(replacement),
            CommandView::RemoveOverlayTrack { track_id } if track_id == track.id => None,
            _ => retained(track, changes, count - 1),
        }
    }
}

/// Whether some layer still paints on an earlier stage once the changes are made.
pub open spec fn survivor_conflicts(
    tracks: Seq<TrackView>,
    frames: Seq<FrameView>,
    owners: Seq<FrameId>,
    changes: Seq<CommandView>,
) -> bool {
    exists|t: int|
        0 <= t < tracks.len() && (retained(
            #[trigger] tracks[t],
            changes,
            changes.len() as int,
        ) matches Some(track) && conflicts(track, frames, owners))
}

/// The message that refuses the bake.
pub open spec fn stage_message() -> Seq<char> {
    "Cinemagraph cannot discard the intermediate coordinates of hidden or zero-opacity artwork. Show or remove those layers on the selected frames first, or use Undo to return before the geometry edit. Nothing was changed."@
}

/// Whether `times` are the starts of the baked frames with rendering steps among
/// the first `count` frames.
spec fn known_times(
    times: Seq<u64>,
    frames: Seq<FrameView>,
    owners: Seq<FrameId>,
    count: int,
) -> bool {
    forall|time: int|
        #[trigger] staged_at(frames, owners, count, time) <==> 0 <= time <= u64::MAX
            && times.contains(time as u64)
}

/// Whether `ids` are those of the baked frames with rendering steps among the first
/// `count` frames.
spec fn known_ids(
    ids: Seq<FrameId>,
    frames: Seq<FrameView>,
    owners: Seq<FrameId>,
    count: int,
) -> bool {
    forall|id: FrameId| #[trigger] staged_among(frames, owners, count, id) <==> ids.contains(id)
}

/// What one more frame adds to the staged ones.
proof fn lemma_one_more_frame(
    frames: Seq<FrameView>,
    owners: Seq<FrameId>,
    count: int,
    id: FrameId,
    time: int,
)
    requires
        0 <= count < frames.len(),
    ensures
        staged_among(frames, owners, count + 1, id) <==> staged_among(frames, owners, count, id) || (
        is_staged(frames[count], owners) && frames[count].id == id),
        staged_at(frames, owners, count + 1, time) <==> staged_at(frames, owners, count, time) || (
        is_staged(frames[count], owners) && frames::clock(frames, count) == time),
{
    if is_staged(frames[count], owners) {
        assert(is_staged(frames[count], owners));
    }
    if staged_among(frames, owners, count, id) {
        let f = choose|f: int|
            0 <= f < count && is_staged(#[trigger] frames[f], owners) && frames[f].id == id;
        assert(is_staged(frames[f], owners));
    }
    if staged_at(frames, owners, count, time) {
        let f = choose|f: int|
            0 <= f < count && is_staged(#[trigger] frames[f], owners) && frames::clock(frames, f)
                == time;
        assert(is_staged(frames[f], owners));
    }
}

/// Whether one of the cells belongs to a staged frame and paints on an earlier stage.
fn cells_conflict(
    cells: &Vec<FrameOverlayCell>,
    staged: &Vec<FrameId>,
    Ghost(all): Ghost<Seq<FrameView>>,
    Ghost(owners): Ghost<Seq<FrameId>>,
) -> (conflict: bool)
    requires
        known_ids(staged@, all, owners, all.len() as int),
    ensures
        conflict == exists|i: int|
            0 <= i < cells@.len() && (#[trigger] value::views(cells@)[i]).stage is Some && staged_id(
                all,
                owners,
                value::views(cells@)[i].frame_id,
            ),
{
    let mut index: usize = 0;
    while index < cells.len()
        invariant
            index <= cells.len(),
            known_ids(staged@, all, owners, all.len() as int),
            forall|i: int|
                0 <= i < index ==> !((#[trigger] value::views(cells@)[i]).stage is Some
                    && staged_id(all, owners, value::views(cells@)[i].frame_id)),
        decreases cells.len() - index,
    {
        assert(value::views(cells@)[index as int] == cells@[index as int]@);
        if cells[index].stage.is_some() && contains_frame(staged, cells[index].frame_id) {
            return true;
        }
        index += 1;
    }
    false
}

/// Whether one of the items is shown when a staged frame starts.
fn items_conflict(
    items: &Vec<OverlayItem>,
    times: &Vec<u64>,
    Ghost(all): Ghost<Seq<FrameView>>,
    Ghost(owners): Ghost<Seq<FrameId>>,
) -> (conflict: bool)
    requires
        known_times(times@, all, owners, all.len() as int),
    ensures
        conflict == exists|i: int|
            0 <= i < items@.len() && (#[trigger] value::views(items@)[i]).span.hi() <= u64::MAX
                && staged_within(all, owners, value::views(items@)[i].span),
{
    let mut index: usize = 0;
    while index < items.len()
        invariant
            index <= items.len(),
            known_times(times@, all, owners, all.len() as int),
            forall|i: int|
                0 <= i < index ==> !((#[trigger] value::views(items@)[i]).span.hi() <= u64::MAX
                    && staged_within(all, owners, value::views(items@)[i].span)),
        decreases items.len() - index,
    {
        let span = items[index].span;
        assert(value::views(items@)[index as int].span == span);
        if let Some(end) = span.end() {
            let mut at: usize = 0;
            while at < times.len()
                invariant
                    at <= times.len(),
                    end.us == span.hi(),
                    span.hi() <= u64::MAX,
                    index < items.len(),
                    value::views(items@)[index as int].span == span,
                    known_times(times@, all, owners, all.len() as int),
                    forall|i: int| 0 <= i < at ==> !span.covers(#[trigger] times@[i] as int),
                decreases times.len() - at,
            {
                if span.start.get() <= times[at] && times[at] < end.get() {
                    proof {
                        assert(times@.contains(times@[at as int]));
                        assert(staged_at(all, owners, all.len() as int, times@[at as int] as int));
                    }
                    return true;
                }
                at += 1;
            }
            assert(!staged_within(all, owners, span)) by {
                if staged_within(all, owners, span) {
                    let time = choose|time: int|
                        #[trigger] staged_at(all, owners, all.len() as int, time) && span.covers(
                            time,
                        );
                    let i = choose|i: int| 0 <= i < times@.len() && times@[i] == time as u64;
                    assert(!span.covers(times@[i] as int));
                }
            }
        }
        index += 1;
    }
    false
}

/// The position of the last of the changes that replaces or removes the layer.
fn last_change(changes: &Vec<EditCommand>, track: &OverlayTrack) -> (position: Option<usize>)
    ensures
        ({
            let all = value::views(changes@);
            match position {
                Some(at) => {
                    &&& at < changes@.len()
                    &&& match changes@[at as int] {
                        EditCommand::UpsertOverlayTrack { track: replacement } => {
                            &&& replacement.id == track.id
                            &&& retained(track@, all, all.len() as int) == Some(replacement@)
                        },
                        EditCommand::RemoveOverlayTrack { track_id } => {
                            &&& track_id == track.id
                            &&& retained(track@, all, all.len() as int) is None
                        },
                        _ => false,
                    }
                },
                None => retained(track@, all, all.len() as int) == Some(track@),
            }
        }),
{
    let ghost all = value::views(changes@);
    let mut count: usize = changes.len();
    while count > 0
        invariant
            count <= changes.len(),
            all == value::views(changes@),
            retained(track@, all, all.len() as int) == retained(track@, all, count as int),
        decreases count,
    {
        assert(all[count - 1] == changes@[count - 1]@);
        match &changes[count - 1] {
            EditCommand::UpsertOverlayTrack { track: replacement } => {
                if replacement.id == track.id {
                    return Some(count - 1);
                }
            },
            EditCommand::RemoveOverlayTrack { track_id } => {
                if *track_id == track.id {
                    return Some(count - 1);
                }
            },
            _ => {},
        }
        count -= 1;
    }
    None
}

/// Whether a layer paints on an earlier stage of a baked frame.
fn track_conflicts(
    track: &OverlayTrack,
    staged: &Vec<FrameId>,
    times: &Vec<u64>,
    Ghost(all): Ghost<Seq<FrameView>>,
    Ghost(owners): Ghost<Seq<FrameId>>,
) -> (conflict: bool)
    requires
        known_ids(staged@, all, owners, all.len() as int),
        known_times(times@, all, owners, all.len() as int),
    ensures
        conflict == conflicts(track@, all, owners),
{
    match &track.frame_cells {
        Some(cells) => cells_conflict(cells, staged, Ghost(all), Ghost(owners)),
        None => items_conflict(&track.items, times, Ghost(all), Ghost(owners)),
    }
}

/// Where no baked frame has rendering steps, no layer paints on an earlier stage of one.
proof fn lemma_nothing_staged(
    frames: Seq<FrameView>,
    owners: Seq<FrameId>,
    staged: Seq<FrameId>,
    track: TrackView,
)
    requires
        staged.len() == 0,
        known_ids(staged, frames, owners, frames.len() as int),
    ensures
        !conflicts(track, frames, owners),
{
    assert forall|f: int| 0 <= f < frames.len() implies !is_staged(#[trigger] frames[f], owners) by {
        if is_staged(frames[f], owners) {
            assert(staged_among(frames, owners, frames.len() as int, frames[f].id));
        }
    }
}

/// Refuses to bake frames while a layer that stays hangs on one of their earlier stages.
///
/// A baked picture is in final coordinates: such a layer would lose its place or be
/// transformed twice.
pub fn validate_baked_stage_survivors<C: CancellationToken>(
    frames: &Vec<FrameClip>,
    tracks: &Vec<OverlayTrack>,
    owners: &Vec<FrameId>,
    changes: &Vec<EditCommand>,
    cancellation: &C,
) -> (result: Result<(), String>)
    ensures
        ({
            let clips = value::views(frames@);
            let layers = value::views(tracks@);
            let commands = value::views(changes@);
            match result {
                Ok(_) => {
                    &&& cancellation.must_cancel() ==> clips.len() == 0
                    &&& frames::clock(clips, clips.len() as int) <= u64::MAX
                    &&& !survivor_conflicts(layers, clips, owners@, commands)
                },
                Err(message) => {
                    ||| cancellation.may_cancel() && message@ == motion_pixels::stopped()
                    ||| frames::clock(clips, clips.len() as int) > u64::MAX && message@
                        == "Motion frame clock overflow."@
                    ||| frames::clock(clips, clips.len() as int) <= u64::MAX && survivor_conflicts(
                        layers,
                        clips,
                        owners@,
                        commands,
                    ) && message@ == stage_message()
                },
            }
        }),
{
    let ghost clips = value::views(frames@);
    let ghost layers = value::views(tracks@);
    let ghost commands = value::views(changes@);
    let mut staged: Vec<FrameId> = Vec::new();
    let mut times: Vec<u64> = Vec::new();
    let mut time: u64 = 0;
    let mut index: usize = 0;
    while index < frames.len()
        invariant
            index <= frames.len(),
            clips == value::views(frames@),
            time == frames::clock(clips, index as int),
            known_times(times@, clips, owners@, index as int),
            known_ids(staged@, clips, owners@, index as int),
            cancellation.must_cancel() ==> index == 0,
        decreases frames.len() - index,
    {
        check_cancelled(cancellation)?;
        let frame = &frames[index];
        let ghost old_staged = staged@;
        let ghost old_times = times@;
        assert(clips[index as int] == frame@);
        if contains_frame(owners, frame.id) && frame.render_steps.len() > 0 {
            staged.push(frame.id);
            times.push(time);
        }
        assert(known_ids(staged@, clips, owners@, index + 1)) by {
            assert forall|id: FrameId|
                #[trigger] staged_among(clips, owners@, index + 1, id) <==> staged@.contains(id) by {
                lemma_one_more_frame(clips, owners@, index as int, id, 0);
                value::lemma_push_contains(old_staged, frame.id, id);
                assert(staged_among(clips, owners@, index as int, id) == old_staged.contains(id));
            }
        }
        assert(known_times(times@, clips, owners@, index + 1)) by {
            assert forall|moment: int|
                #[trigger] staged_at(clips, owners@, index + 1, moment) <==> 0 <= moment <= u64::MAX
                    && times@.contains(moment as u64) by {
                lemma_one_more_frame(clips, owners@, index as int, frame.id, moment);
                value::lemma_push_contains(old_times, time, moment as u64);
                assert(staged_at(clips, owners@, index as int, moment) == (0 <= moment <= u64::MAX
                    && old_times.contains(moment as u64)));
            }
        }
        match time.checked_add(frame.duration.get()) {
            Some(next) => {
                time = next;
            },
            None => {
                proof {
                    frames::lemma_clock_grows(clips, index + 1, clips.len() as int);
                }
                return Err("Motion frame clock overflow.".to_owned());
            },
        }
        index += 1;
    }
    if staged.len() == 0 {
        assert forall|track: TrackView| !#[trigger] conflicts(track, clips, owners@) by {
            lemma_nothing_staged(clips, owners@, staged@, track);
        }
        return Ok(());
    }
    let mut at: usize = 0;
    while at < tracks.len()
        invariant
            at <= tracks.len(),
            clips == value::views(frames@),
            layers == value::views(tracks@),
            commands == value::views(changes@),
            cancellation.must_cancel() ==> clips.len() == 0,
            frames::clock(clips, clips.len() as int) <= u64::MAX,
            known_ids(staged@, clips, owners@, clips.len() as int),
            known_times(times@, clips, owners@, clips.len() as int),
            forall|t: int|
                0 <= t < at ==> !(retained(
                    #[trigger] layers[t],
                    commands,
                    commands.len() as int,
                ) matches Some(track) && conflicts(track, clips, owners@)),
        decreases tracks.len() - at,
    {
        check_cancelled(cancellation)?;
        let original = &tracks[at];
        assert(layers[at as int] == original@);
        let conflict = match last_change(changes, original) {
            Some(position) => match &changes[position] {
                EditCommand::UpsertOverlayTrack { track } => track_conflicts(
                    track,
                    &staged,
                    &times,
                    Ghost(clips),
                    Ghost(owners@),
                ),
                _ => false,
            },
            None => track_conflicts(original, &staged, &times, Ghost(clips), Ghost(owners@)),
        };
        if conflict {
            return Err(
                "Cinemagraph cannot discard the intermediate coordinates of hidden or zero-opacity artwork. Show or remove those layers on the selected frames first, or use Undo to return before the geometry edit. Nothing was changed.".to_owned(),
            );
        }
        at += 1;
    }
    Ok(())
}

/// The last change that names a layer decides what is left of it; where none does, it stays as it is.
pub proof fn law_the_last_change_decides(track: TrackView, changes: Seq<CommandView>, at: int, count: int)
    requires
        -1 <= at < count <= changes.len(),
        forall|i: int|
            at < i < count ==> !((#[trigger] changes[i]) matches CommandView::UpsertOverlayTrack { track: layer }
                && layer.id == track.id),
        forall|i: int|
            at < i < count ==> !((#[trigger] changes[i]) matches CommandView::RemoveOverlayTrack { track_id }
                && track_id == track.id),
    ensures
        at == -1 ==> retained(track, changes, count) == Some(track),
        at >= 0 ==> (changes[at] matches CommandView::UpsertOverlayTrack { track: layer } ==> layer.id == track.id
            ==> retained(track, changes, count) == Some(layer)),
        at >= 0 ==> (changes[at] matches CommandView::RemoveOverlayTrack { track_id } ==> track_id == track.id
            ==> retained(track, changes, count) is None),
    decreases count,
{
    if count > 0 && at < count - 1 {
        law_the_last_change_decides(track, changes, at, count - 1);
        assert(retained(track, changes, count) == retained(track, changes, count - 1)) by {
            let last = changes[count - 1];
        }
    }
}

/// A layer stands in the way of baking exactly where it owns, by a stage, marks of a frame that is baked
/// and has steps of its own, or, where it shows by time, shows something when such a frame begins.
pub proof fn law_what_stands_in_the_way(track: TrackView, frames: Seq<FrameView>, owners: Seq<FrameId>)
    ensures
        track.frame_cells matches Some(cells) ==> (conflicts(track, frames, owners) <==> exists|i: int, f: int|
            0 <= i < cells.len() && 0 <= f < frames.len() && (#[trigger] cells[i]).stage is Some && (
            #[trigger] frames[f]).id == cells[i].frame_id && frames[f].render_steps.len() > 0 && owners.contains(
                frames[f].id,
            )),
        track.frame_cells is None ==> (conflicts(track, frames, owners) <==> exists|i: int, f: int|
            0 <= i < track.items.len() && 0 <= f < frames.len() && (#[trigger] track.items[i]).span.hi() <= u64::MAX && (
            #[trigger] frames[f]).render_steps.len() > 0 && owners.contains(frames[f].id) && track.items[i].span.lo()
                <= frames::clock(frames, f) < track.items[i].span.hi()),
{
    if track.frame_cells is Some {
        let cells = track.frame_cells->0;
        if conflicts(track, frames, owners) {
            let i = choose|i: int|
                0 <= i < cells.len() && (#[trigger] cells[i]).stage is Some && staged_id(
                    frames,
                    owners,
                    cells[i].frame_id,
                );
            let f = choose|f: int|
                0 <= f < frames.len() && is_staged(#[trigger] frames[f], owners) && frames[f].id == cells[i].frame_id;
            assert(cells[i].stage is Some && frames[f].id == cells[i].frame_id);
        }
        if exists|i: int, f: int|
            0 <= i < cells.len() && 0 <= f < frames.len() && (#[trigger] cells[i]).stage is Some && (
            #[trigger] frames[f]).id == cells[i].frame_id && frames[f].render_steps.len() > 0 && owners.contains(
                frames[f].id,
            ) {
            let (i, f) = choose|i: int, f: int|
                0 <= i < cells.len() && 0 <= f < frames.len() && (#[trigger] cells[i]).stage is Some && (
                #[trigger] frames[f]).id == cells[i].frame_id && frames[f].render_steps.len() > 0 && owners.contains(
                    frames[f].id,
                );
            assert(is_staged(frames[f], owners));
            assert(staged_id(frames, owners, cells[i].frame_id));
        }
    } else {
        if conflicts(track, frames, owners) {
            let i = choose|i: int|
                0 <= i < track.items.len() && (#[trigger] track.items[i]).span.hi() <= u64::MAX && staged_within(
                    frames,
                    owners,
                    track.items[i].span,
                );
            let time = choose|time: int|
                #[trigger] staged_at(frames, owners, frames.len() as int, time) && track.items[i].span.covers(time);
            let f = choose|f: int|
                0 <= f < frames.len() && is_staged(#[trigger] frames[f], owners) && frames::clock(frames, f) == time;
            assert(track.items[i].span.hi() <= u64::MAX && frames[f].render_steps.len() > 0);
        }
        if exists|i: int, f: int|
            0 <= i < track.items.len() && 0 <= f < frames.len() && (#[trigger] track.items[i]).span.hi() <= u64::MAX && (
            #[trigger] frames[f]).render_steps.len() > 0 && owners.contains(frames[f].id) && track.items[i].span.lo()
                <= frames::clock(frames, f) < track.items[i].span.hi() {
            let (i, f) = choose|i: int, f: int|
                0 <= i < track.items.len() && 0 <= f < frames.len() && (#[trigger] track.items[i]).span.hi() <= u64::MAX
                    && (#[trigger] frames[f]).render_steps.len() > 0 && owners.contains(frames[f].id)
                    && track.items[i].span.lo() <= frames::clock(frames, f) < track.items[i].span.hi();
            assert(is_staged(frames[f], owners));
            assert(staged_at(frames, owners, frames.len() as int, frames::clock(frames, f)));
            assert(track.items[i].span.covers(frames::clock(frames, f)));
            assert(staged_within(frames, owners, track.items[i].span));
        }
    }
}

/// An edit is refused for a layer that is left and stands in the way, and only for such a layer.
pub proof fn law_what_is_left_must_not_stand_in_the_way(
    tracks: Seq<TrackView>,
    frames: Seq<FrameView>,
    owners: Seq<FrameId>,
    changes: Seq<CommandView>,
)
    ensures
        survivor_conflicts(tracks, frames, owners, changes) <==> exists|t: int|
            0 <= t < tracks.len() && retained(#[trigger] tracks[t], changes, changes.len() as int) is Some && conflicts(
                retained(tracks[t], changes, changes.len() as int)->0,
                frames,
                owners,
            ),
{
    if survivor_conflicts(tracks, frames, owners, changes) {
        let t = choose|t: int|
            0 <= t < tracks.len() && (retained(
                #[trigger] tracks[t],
                changes,
                changes.len() as int,
            ) matches Some(track) && conflicts(track, frames, owners));
        assert(retained(tracks[t], changes, changes.len() as int) is Some);
    }
}

} // verus!
