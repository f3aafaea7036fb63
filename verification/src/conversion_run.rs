//! The course of a conversion, from the request to the edit that is committed.
use vstd::prelude::*;
use crate::cancel::CancellationToken;
use crate::conversion;
use crate::conversion::{check_cancelled, ConversionPlan};
use crate::conversion_edit;
use crate::conversion_edit::{
    confirm_metadata, materialize_with_fresh_identities, select_conversion, FrozenContent,
};
use crate::identity;
use crate::ids::TrackId;
use crate::overlay::{OverlayTrack, TrackView};
use crate::project::{EditCommand, ManifestView, ProjectManifest};
use crate::text;
use crate::value;

verus! {

/// What is told where a stored form cannot be written.
pub open spec fn unwritten(reason: Seq<char>) -> Seq<char> {
    "Could not prepare bounded conversion metadata: "@ + reason
}

/// The failure of a stored form that was written, or not.
pub open spec fn write_failure(written: Result<usize, String>) -> Option<Seq<char>> {
    match written {
        Ok(_) => None,
        Err(reason) => Some(unwritten(reason@)),
    }
}

/// The length of a stored form, given what writing it gave.
pub fn metadata_bytes<C: CancellationToken>(written: &Result<usize, String>, cancellation: &C) -> (result:
    Result<usize, String>)
    ensures
        match result {
            Ok(bytes) => *written == Ok::<usize, String>(bytes),
            Err(message) => {
                ||| cancellation.may_cancel() && message@ == conversion::stopped()
                ||| write_failure(*written) == Some(message@)
            },
        },
        cancellation.must_cancel() ==> (result matches Err(message) && message@ == conversion::stopped()),
{
    check_cancelled(cancellation)?;
    match written {
        Ok(bytes) => Ok(*bytes),
        Err(reason) => Err(text::join("Could not prepare bounded conversion metadata: ", reason)),
    }
}

/// Why a layer is not even planned: it cannot be converted, its own stored form is too long, or
/// the project is not valid.
pub open spec fn gate(
    project: ManifestView,
    id: TrackId,
    anchor_matches: bool,
    source: Result<usize, String>,
    validity: Result<(), String>,
) -> Option<Seq<char>> {
    match conversion_edit::conversion_refusal(project.timeline.overlay_tracks, id, anchor_matches) {
        Some(message) => Some(message),
        None => match write_failure(source) {
            Some(message) => Some(message),
            None => match validity {
                Ok(_) => None,
                Err(message) => Some(message@),
            },
        },
    }
}

/// The position of the layer to convert and what every frame is going to own of it.
///
/// `source` is what writing the stored form of the layer gave, and `validity` what validating
/// the project gave.
pub fn plan_conversion<C: CancellationToken>(
    project: &ProjectManifest,
    id: TrackId,
    anchor_matches: bool,
    source: &Result<usize, String>,
    validity: &Result<(), String>,
    cancellation: &C,
) -> (result: Result<(usize, ConversionPlan), String>)
    ensures
        ({
            let tracks = project@.timeline.overlay_tracks;
            let clips = project@.timeline.frames;
            let refused = gate(project@, id, anchor_matches, *source, *validity);
            let track = tracks[conversion_edit::first_track(tracks, id)];
            match result {
                Ok((index, plan)) => {
                    &&& refused is None
                    &&& index == conversion_edit::first_track(tracks, id)
                    &&& conversion_edit::is_first_track(tracks, id, index as int)
                    &&& conversion::plan_failure(track, clips) is None
                    &&& plan.plans(track, clips)
                    &&& conversion::plan_fits(plan.cells@, track.items.len() as int)
                },
                Err(message) => {
                    ||| cancellation.may_cancel() && message@ == conversion::stopped()
                    ||| refused == Some(message@)
                    ||| refused is None && conversion::plan_failure(track, clips) == Some(message@)
                    ||| refused is None && clips.len() > 0 && message@ == conversion::no_room()
                },
            }
        }),
        cancellation.must_cancel() ==> (result matches Err(message) && message@ == conversion::stopped()),
{
    let ghost tracks = project@.timeline.overlay_tracks;
    let index: usize = select_conversion(
        &project.timeline.overlay_tracks,
        id,
        anchor_matches,
        cancellation,
    )?;
    proof {
        let first = conversion_edit::first_track(tracks, id);
        assert(conversion_edit::is_first_track(tracks, id, first));
        if first < index {
            assert(tracks[first].id != id);
        } else if index < first {
            assert(tracks[index as int].id != id);
        }
    }
    metadata_bytes(source, cancellation)?;
    match validity {
        Ok(_) => {},
        Err(message) => return Err(message.clone()),
    }
    let track = &project.timeline.overlay_tracks[index];
    assert(tracks[index as int] == track@);
    let plan = ConversionPlan::new(&project.timeline.frames, track, cancellation)?;
    Ok((index, plan))
}

/// The converted layer, where the plan's stored form fits and the identities in use are known.
///
/// `planned` is what writing the stored form of the plan gave, and `used` the identities in use,
/// or why they cannot be told.
pub fn build_conversion<C: CancellationToken>(
    project: &ProjectManifest,
    index: usize,
    plan: &ConversionPlan,
    planned: &Result<usize, String>,
    used: Result<Vec<u128>, String>,
    contents: &Vec<FrozenContent>,
    cancellation: &C,
) -> (result: Result<OverlayTrack, String>)
    requires
        index < project.timeline.overlay_tracks@.len(),
        plan.cells@.len() == project.timeline.frames@.len(),
        conversion::plan_fits(
            plan.cells@,
            project.timeline.overlay_tracks@[index as int].items@.len() as int,
        ),
        contents@.len() == conversion_edit::mark_total(plan.cells@, plan.cells@.len() as int),
    ensures
        ({
            let track = project.timeline.overlay_tracks@[index as int]@;
            let failure = conversion_edit::first_failure(contents@, contents@.len() as int);
            match result {
                Ok(layer) => {
                    &&& planned is Ok
                    &&& failure is None
                    &&& used matches Ok(list) && exists|ids: Seq<u128>|
                        {
                            &&& ids.len() == contents@.len()
                            &&& ids.no_duplicates()
                            &&& forall|i: int|
                                0 <= i < ids.len() ==> identity::is_random_uuid(#[trigger] ids[i]) && !list@.contains(
                                    ids[i],
                                )
                            &&& layer@ == conversion_edit::converted(
                                track,
                                #[trigger] conversion_edit::cells_of(
                                    track,
                                    plan.cells@,
                                    plan.cells@.len() as int,
                                    project@.timeline.frames,
                                    contents@,
                                    ids,
                                ),
                            )
                        }
                },
                Err(message) => {
                    ||| cancellation.may_cancel() && message@ == conversion::stopped()
                    ||| write_failure(*planned) == Some(message@)
                    ||| planned is Ok && (used matches Err(reason) && message@ == reason@)
                    ||| planned is Ok && used is Ok && failure == Some(message@)
                },
            }
        }),
        cancellation.must_cancel() ==> (result matches Err(message) && message@ == conversion::stopped()),
{
    metadata_bytes(planned, cancellation)?;
    match used {
        Ok(list) => {
            let track = &project.timeline.overlay_tracks[index];
            assert(project@.timeline.frames == value::views(project.timeline.frames@));
            materialize_with_fresh_identities(
                plan,
                track,
                &project.timeline.frames,
                contents,
                list,
                cancellation,
            )
        },
        Err(reason) => Err(reason),
    }
}

/// Why a converted layer is not committed: its stored form cannot be written or is not the one
/// that was measured, or the project does not take the edit.
pub open spec fn late_failure(
    planned: usize,
    actual: Result<usize, String>,
    applied: Result<(), String>,
) -> Option<Seq<char>> {
    match actual {
        Err(reason) => Some(unwritten(reason@)),
        Ok(bytes) => if bytes != planned {
            Some(
                "Conversion metadata preflight did not match its final command; nothing was modified."@,
            )
        } else {
            match applied {
                Ok(_) => None,
                Err(message) => Some(message@),
            }
        },
    }
}

/// The number of frames that own something of a layer.
pub open spec fn owners(layer: TrackView) -> int {
    match layer.frame_cells {
        Some(cells) => cells.len() as int,
        None => 0,
    }
}

/// The edit to commit with the number of frames that own something, where the stored form is the
/// one that was measured and the project takes the edit.
///
/// `actual` is what writing the stored form of the edit gave, and `applied` what trying the edit
/// on a copy of the project gave.
pub fn release_conversion<C: CancellationToken>(
    layer: OverlayTrack,
    planned: usize,
    actual: &Result<usize, String>,
    applied: &Result<(), String>,
    cancellation: &C,
) -> (result: Result<(EditCommand, usize), String>)
    ensures
        match result {
            Ok((command, frames)) => {
                &&& late_failure(planned, *actual, *applied) is None
                &&& command == (EditCommand::UpsertOverlayTrack { track: layer })
                &&& frames == owners(layer@)
            },
            Err(message) => {
                ||| cancellation.may_cancel() && message@ == conversion::stopped()
                ||| late_failure(planned, *actual, *applied) == Some(message@)
            },
        },
        cancellation.must_cancel() ==> (result matches Err(message) && message@ == conversion::stopped()),
{
    let bytes: usize = metadata_bytes(actual, cancellation)?;
    confirm_metadata(planned, bytes)?;
    check_cancelled(cancellation)?;
    match applied {
        Ok(_) => {},
        Err(message) => return Err(message.clone()),
    }
    check_cancelled(cancellation)?;
    let frames: usize = match &layer.frame_cells {
        Some(cells) => cells.len(),
        None => 0,
    };
    Ok((EditCommand::UpsertOverlayTrack { track: layer }, frames))
}

/// A conversion that goes through turns the layer into the marks that its plan gives to the
/// frames, keeps everything else of it, and counts the frames that own something.
pub proof fn law_a_conversion_changes_one_layer(
    project: ManifestView,
    id: TrackId,
    plan: ConversionPlan,
    contents: Seq<FrozenContent>,
    ids: Seq<u128>,
)
    requires
        conversion_edit::conversion_refusal(project.timeline.overlay_tracks, id, true) is None,
        plan.plans(
            project.timeline.overlay_tracks[conversion_edit::first_track(
                project.timeline.overlay_tracks,
                id,
            )],
            project.timeline.frames,
        ),
    ensures
        ({
            let tracks = project.timeline.overlay_tracks;
            let track = tracks[conversion_edit::first_track(tracks, id)];
            let cells = conversion_edit::cells_of(
                track,
                plan.cells@,
                plan.cells@.len() as int,
                project.timeline.frames,
                contents,
                ids,
            );
            let layer = conversion_edit::converted(track, cells);
            &&& track.frame_cells is None
            &&& layer.id == id
            &&& layer.items.len() == 0
            &&& layer.frame_cells == Some(cells)
            &&& owners(layer) <= project.timeline.frames.len()
            &&& (TrackView {
                frame_cells: track.frame_cells,
                annotation_scope: track.annotation_scope,
                items: track.items,
                ..layer
            }) == track
            &&& forall|i: int|
                0 <= i < cells.len() ==> exists|k: int|
                    0 <= k < project.timeline.frames.len() && (#[trigger] cells[i]).frame_id == (
                    #[trigger] project.timeline.frames[k]).id
        }),
{
    let tracks = project.timeline.overlay_tracks;
    let first = choose|index: int| 0 <= index < tracks.len() && (#[trigger] tracks[index]).id == id;
    lemma_first_exists(tracks, id, first);
    let track = tracks[conversion_edit::first_track(tracks, id)];
    lemma_cells_have_owners(
        track,
        plan.cells@,
        plan.cells@.len() as int,
        project.timeline.frames,
        contents,
        ids,
    );
}

/// Where a layer has the identity, one of that identity is the first.
proof fn lemma_first_exists(tracks: Seq<TrackView>, id: TrackId, at: int)
    requires
        0 <= at < tracks.len(),
        tracks[at].id == id,
    ensures
        conversion_edit::is_first_track(tracks, id, conversion_edit::first_track(tracks, id)),
    decreases at,
{
    if forall|i: int| 0 <= i < at ==> (#[trigger] tracks[i]).id != id {
        assert(conversion_edit::is_first_track(tracks, id, at));
    } else {
        let earlier = choose|i: int| 0 <= i < at && (#[trigger] tracks[i]).id == id;
        lemma_first_exists(tracks, id, earlier);
    }
}

/// Every cell is owned by one of the frames, and there are no more cells than frames.
proof fn lemma_cells_have_owners(
    track: TrackView,
    cells: Seq<conversion::CellPlan>,
    count: int,
    frames: Seq<crate::frames::FrameView>,
    contents: Seq<FrozenContent>,
    ids: Seq<u128>,
)
    requires
        0 <= count <= cells.len(),
        cells.len() == frames.len(),
    ensures
        ({
            let made = conversion_edit::cells_of(track, cells, count, frames, contents, ids);
            &&& made.len() <= count
            &&& forall|i: int|
                0 <= i < made.len() ==> exists|k: int|
                    0 <= k < frames.len() && (#[trigger] made[i]).frame_id == (
                    #[trigger] frames[k]).id
        }),
    decreases count,
{
    if count > 0 {
        lemma_cells_have_owners(track, cells, count - 1, frames, contents, ids);
        let before = conversion_edit::cells_of(track, cells, count - 1, frames, contents, ids);
        let made = conversion_edit::cells_of(track, cells, count, frames, contents, ids);
        assert forall|i: int| 0 <= i < made.len() implies exists|k: int|
            0 <= k < frames.len() && (#[trigger] made[i]).frame_id == (#[trigger] frames[k]).id by {
            if i < before.len() {
                assert(made[i] == before[i]);
            } else {
                assert(made[i].frame_id == frames[count - 1].id);
            }
        }
    }
}

/// A conversion may be planned exactly where the layer can be converted, its metadata could be written and
/// the project is valid; what is told is the first of these that fails.
pub proof fn law_what_conversions_are_begun(
    project: ManifestView,
    id: TrackId,
    anchor_matches: bool,
    source: Result<usize, String>,
    validity: Result<(), String>,
)
    ensures
        ({
            let refusal = conversion_edit::conversion_refusal(project.timeline.overlay_tracks, id, anchor_matches);
            let told = gate(project, id, anchor_matches, source, validity);
            &&& told is None <==> refusal is None && source is Ok && validity is Ok
            &&& refusal is Some ==> told == refusal
            &&& refusal is None && source is Err ==> told == Some(
                "Could not prepare bounded conversion metadata: "@ + source->Err_0@,
            )
            &&& refusal is None && source is Ok && validity is Err ==> told == Some(validity->Err_0@)
        }),
{
}

/// A conversion is released exactly where its command takes as many bytes as was planned and could be
/// applied.
pub proof fn law_what_conversions_are_released(
    planned: usize,
    actual: Result<usize, String>,
    applied: Result<(), String>,
)
    ensures
        late_failure(planned, actual, applied) is None <==> actual == Ok::<usize, String>(planned) && applied is Ok,
        actual is Err ==> late_failure(planned, actual, applied) == Some(
            "Could not prepare bounded conversion metadata: "@ + actual->Err_0@,
        ),
        actual == Ok::<usize, String>(planned) && applied is Err ==> late_failure(planned, actual, applied) == Some(
            applied->Err_0@,
        ),
{
}

/// The owners of a layer are counted by its cells.
pub proof fn law_owners_are_counted_by_cells(layer: TrackView)
    ensures
        owners(layer) == (if layer.frame_cells is Some {
            layer.frame_cells->0.len() as int
        } else {
            0
        }),
{
}

} // verus!
