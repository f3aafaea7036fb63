//! The course of an insertion, from its first check to its edit.
use crate::cancel::CancellationToken;
use crate::conversion_edit::fresh_numbers;
use crate::frames::{FrameClip, FrameView};
use crate::geometry::PhysicalSize;
use crate::identity;
use crate::ids::{AssetId, FrameId, ProjectId};
use crate::insert_assets;
use crate::insert_assets::{checked_descriptors, referenced_assets, AssetCheck, ReplayPools};
use crate::insert_checks;
use crate::insert_checks::{
    check_insertion_cancelled, validate_rendered_sizes, validate_source, InsertionSide, ProjectInsertionError,
    SizeScan,
};
use crate::insert_edit;
use crate::insert_edit::{InsertionFacts, InsertionIds};
use crate::motion::contains_asset;
use crate::motion_loop;
use crate::motion_loop::presentation_duration;
use crate::overlay::{FrameOverlayCell, OverlayItem, OverlayTrack, TrackView};
use crate::project::{
    AssetDescriptor, CommandView, DescriptorView, EditCommand, ProjectManifest, Timeline, Transition,
};
use crate::title;
use crate::title::draw_for_tracks;
use crate::value;
use crate::value::copy_all;
use vstd::prelude::*;

verus! {

/// What is known of an insertion before a file is read.
#[derive(Debug)]
pub struct InsertionPreflight {
    /// The dimensions that every frame is rendered with.
    pub output_size: PhysicalSize,
    /// The assets that the source needs.
    pub needed: Vec<AssetId>,
    /// Their descriptors.
    pub descriptors: Vec<AssetDescriptor>,
}

/// What the frames of the source are rendered with.
pub open spec fn source_scan(source: ProjectManifest, geometry: Seq<Result<PhysicalSize, String>>) -> SizeScan {
    insert_checks::scan_frames(
        SizeScan::Agreed(None),
        source@.timeline.frames,
        source@.assets,
        geometry,
        geometry.len() as int,
    )
}

/// What the frames of both projects are rendered with.
pub open spec fn both_scan(
    source: ProjectManifest,
    destination: ProjectManifest,
    source_geometry: Seq<Result<PhysicalSize, String>>,
    destination_geometry: Seq<Result<PhysicalSize, String>>,
) -> SizeScan {
    insert_checks::scan_frames(
        source_scan(source, source_geometry),
        destination@.timeline.frames,
        destination@.assets,
        destination_geometry,
        destination_geometry.len() as int,
    )
}

/// What checking some needed assets comes to.
pub open spec fn asset_check(
    needed: Seq<AssetId>,
    source: ProjectManifest,
    destination: ProjectManifest,
    pools: ReplayPools,
) -> AssetCheck {
    insert_assets::check_assets(needed, needed.len() as int, source@.assets, destination@.assets, pools)
}

/// Whether a list names exactly the assets that a project needs, in order.
pub open spec fn names_needed(list: Seq<AssetId>, source: ProjectManifest) -> bool {
    &&& insert_assets::ordered(list)
    &&& forall|id: AssetId| #[trigger] list.contains(id) <==> insert_assets::timeline_needs(source@.timeline, id)
}

/// Looking at a frame never leaves the dimensions open.
proof fn lemma_scan_finds_a_size(
    start: SizeScan,
    frames: Seq<FrameView>,
    assets: Seq<DescriptorView>,
    geometry: Seq<Result<PhysicalSize, String>>,
    count: int,
)
    ensures
        insert_checks::scan_frames(start, frames, assets, geometry, count) == SizeScan::Agreed(None) ==> count <= 0
            && start == SizeScan::Agreed(None),
{
}

/// Refuses what cannot be inserted, and works out what has to be read, before any file is.
///
/// `same_store` says whether both projects keep their files in one place, `validity` whether the
/// source holds together, and the geometries what the rendering steps of each frame make of its
/// picture.
pub fn preflight<C: CancellationToken>(
    destination: &ProjectManifest,
    source: &ProjectManifest,
    same_store: bool,
    validity: &Result<(), String>,
    source_geometry: &Vec<Result<PhysicalSize, String>>,
    destination_geometry: &Vec<Result<PhysicalSize, String>>,
    pools: &ReplayPools,
    cancellation: &C,
) -> (result: Result<InsertionPreflight, ProjectInsertionError>)
    requires
        source_geometry@.len() == source.timeline.frames@.len(),
        destination_geometry@.len() == destination.timeline.frames@.len(),
    ensures
        ({
            let same = source.project_id == destination.project_id || same_store;
            let refusal = insert_checks::source_refusal(destination@, source@, *validity);
            let first = source_scan(*source, source_geometry@);
            let both = both_scan(*source, *destination, source_geometry@, destination_geometry@);
            match result {
                Ok(plan) => {
                    &&& !same
                    &&& refusal is None
                    &&& both == SizeScan::Agreed(Some(plan.output_size))
                    &&& names_needed(plan.needed@, *source)
                    &&& asset_check(plan.needed@, *source, *destination, *pools) matches AssetCheck::Accepted(
                        descriptors,
                        _,
                    ) && descriptors == value::views(plan.descriptors@)
                },
                Err(error) => {
                    ||| cancellation.may_cancel() && error == ProjectInsertionError::Cancelled
                    ||| same && error == ProjectInsertionError::SameProject
                    ||| !same && refusal is Some && insert_checks::tells(error, refusal->Some_0)
                    ||| !same && refusal is None && first !is Agreed && insert_checks::tells_scan(
                        error,
                        InsertionSide::Source,
                        first,
                    )
                    ||| !same && refusal is None && first is Agreed && both !is Agreed
                        && insert_checks::tells_scan(error, InsertionSide::Destination, both)
                    ||| !same && refusal is None && both is Agreed && exists|needed: Seq<AssetId>|
                        names_needed(needed, *source) && insert_assets::tells_check(
                            error,
                            #[trigger] asset_check(needed, *source, *destination, *pools),
                        )
                },
            }
        }),
        cancellation.must_cancel() ==> (result matches Err(error) && error == ProjectInsertionError::Cancelled),
{
    match check_insertion_cancelled(cancellation) {
        Ok(_) => {},
        Err(error) => return Err(error),
    }
    if source.project_id == destination.project_id || same_store {
        return Err(ProjectInsertionError::SameProject);
    }
    match validate_source(destination, source, validity) {
        Ok(_) => {},
        Err(error) => return Err(error),
    }
    let output_size: PhysicalSize = match validate_rendered_sizes(
        source,
        destination,
        source_geometry,
        destination_geometry,
        cancellation,
    ) {
        Ok(size) => size,
        Err(error) => {
            proof {
                lemma_scan_finds_a_size(
                    source_scan(*source, source_geometry@),
                    destination@.timeline.frames,
                    destination@.assets,
                    destination_geometry@,
                    destination_geometry@.len() as int,
                );
                lemma_scan_finds_a_size(
                    SizeScan::Agreed(None),
                    source@.timeline.frames,
                    source@.assets,
                    source_geometry@,
                    source_geometry@.len() as int,
                );
            }
            return Err(error);
        },
    };
    let needed = referenced_assets(source);
    match checked_descriptors(&destination.assets, &source.assets, &needed, pools) {
        Ok(descriptors) => Ok(InsertionPreflight { output_size, needed, descriptors }),
        Err(error) => {
            assert(names_needed(needed@, *source));
            assert(insert_assets::tells_check(error, asset_check(needed@, *source, *destination, *pools)));
            Err(error)
        },
    }
}

/// Refuses a timeline whose frames and transitions take longer than can be counted.
pub fn check_candidate(candidate: &Timeline) -> (result: Result<(), ProjectInsertionError>)
    ensures
        match result {
            Ok(_) => motion_loop::presentation(candidate@) <= u64::MAX,
            Err(error) => motion_loop::presentation(candidate@) > u64::MAX && error
                == ProjectInsertionError::DurationOverflow,
        },
{
    match presentation_duration(candidate) {
        Some(_) => Ok(()),
        None => Err(ProjectInsertionError::DurationOverflow),
    }
}

/// The numbers of frames, one after the other.
pub open spec fn frame_numbers(frames: Seq<FrameClip>) -> Seq<u128> {
    Seq::new(frames.len(), |i: int| frames[i].id.value)
}

fn add_frame_numbers(numbers: &mut Vec<u128>, frames: &Vec<FrameClip>)
    ensures
        final(numbers)@ == old(numbers)@ + frame_numbers(frames@),
{
    let ghost before = numbers@;
    let ghost all = frame_numbers(frames@);
    let mut at: usize = 0;
    assert(before + all.take(0) =~= before);
    while at < frames.len()
        invariant
            at <= frames@.len(),
            all == frame_numbers(frames@),
            numbers@ == before + all.take(at as int),
        decreases frames@.len() - at,
    {
        numbers.push(frames[at].id.value);
        assert(numbers@ =~= before + all.take(at + 1));
        at = at + 1;
    }
    assert(all.take(at as int) =~= all);
}

/// The numbers of transitions, one after the other.
pub open spec fn transition_numbers(transitions: Seq<Transition>) -> Seq<u128> {
    Seq::new(transitions.len(), |i: int| transitions[i].id.value)
}

fn add_transition_numbers(numbers: &mut Vec<u128>, transitions: &Vec<Transition>)
    ensures
        final(numbers)@ == old(numbers)@ + transition_numbers(transitions@),
{
    let ghost before = numbers@;
    let ghost all = transition_numbers(transitions@);
    let mut at: usize = 0;
    assert(before + all.take(0) =~= before);
    while at < transitions.len()
        invariant
            at <= transitions@.len(),
            all == transition_numbers(transitions@),
            numbers@ == before + all.take(at as int),
        decreases transitions@.len() - at,
    {
        numbers.push(transitions[at].id.value);
        assert(numbers@ =~= before + all.take(at + 1));
        at = at + 1;
    }
    assert(all.take(at as int) =~= all);
}

/// Whether numbers are new to both lists, all different, all with the layout of a random UUID, and
/// none of them zero.
pub open spec fn all_new(ids: Seq<u128>, one: Seq<u128>, other: Seq<u128>) -> bool {
    &&& ids.no_duplicates()
    &&& forall|i: int|
        0 <= i < ids.len() ==> {
            &&& identity::is_random_uuid(#[trigger] ids[i])
            &&& ids[i] != 0
            &&& !one.contains(ids[i])
            &&& !other.contains(ids[i])
        }
}

/// Whether none of the numbers is taken.
pub open spec fn apart(ids: Seq<u128>, taken: Seq<u128>) -> bool {
    forall|i: int| 0 <= i < ids.len() ==> !taken.contains(#[trigger] ids[i])
}

proof fn lemma_all_new(ids: Seq<u128>, one: Seq<u128>, other: Seq<u128>, taken: Seq<u128>)
    requires
        ids.no_duplicates(),
        forall|i: int|
            0 <= i < ids.len() ==> identity::is_random_uuid(#[trigger] ids[i]) && ids[i] != 0 && !(one
                + other + taken).contains(ids[i]),
    ensures
        all_new(ids, one, other),
        apart(ids, taken),
{
    let all = one + other + taken;
    assert forall|i: int| 0 <= i < ids.len() implies !one.contains(#[trigger] ids[i]) && !other.contains(
        ids[i],
    ) && !taken.contains(ids[i]) by {
        if one.contains(ids[i]) {
            let j = choose|j: int| 0 <= j < one.len() && one[j] == ids[i];
            assert(all[j] == ids[i]);
        }
        if other.contains(ids[i]) {
            let j = choose|j: int| 0 <= j < other.len() && other[j] == ids[i];
            assert(all[one.len() + j] == ids[i]);
        }
        if taken.contains(ids[i]) {
            let j = choose|j: int| 0 <= j < taken.len() && taken[j] == ids[i];
            assert(all[one.len() + other.len() + j] == ids[i]);
        }
    }
}

/// Random identities for the inserted frames, which no frame of either project has.
pub fn fresh_frame_ids(destination: &Timeline, source: &Timeline) -> (ids: Vec<u128>)
    ensures
        ids@.len() == source.frames@.len(),
        all_new(ids@, frame_numbers(destination.frames@), frame_numbers(source.frames@)),
{
    let mut used: Vec<u128> = Vec::new();
    add_frame_numbers(&mut used, &destination.frames);
    add_frame_numbers(&mut used, &source.frames);
    assert(used@ =~= frame_numbers(destination.frames@) + frame_numbers(source.frames@) + Seq::empty());
    let ids = fresh_numbers(used, source.frames.len());
    proof {
        lemma_all_new(
            ids@,
            frame_numbers(destination.frames@),
            frame_numbers(source.frames@),
            Seq::empty(),
        );
    }
    ids
}

/// Random identities for the inserted transitions, which no transition of either project has.
pub fn fresh_transition_ids(destination: &Timeline, source: &Timeline) -> (ids: Vec<u128>)
    ensures
        ids@.len() == source.transitions@.len(),
        all_new(ids@, transition_numbers(destination.transitions@), transition_numbers(source.transitions@)),
{
    let mut used: Vec<u128> = Vec::new();
    add_transition_numbers(&mut used, &destination.transitions);
    add_transition_numbers(&mut used, &source.transitions);
    assert(used@ =~= transition_numbers(destination.transitions@) + transition_numbers(
        source.transitions@,
    ) + Seq::empty());
    let ids = fresh_numbers(used, source.transitions.len());
    proof {
        lemma_all_new(
            ids@,
            transition_numbers(destination.transitions@),
            transition_numbers(source.transitions@),
            Seq::empty(),
        );
    }
    ids
}

/// The identities of layers.
pub open spec fn track_numbers(tracks: Seq<OverlayTrack>) -> Seq<u128> {
    Seq::new(tracks.len(), |i: int| tracks[i].id.value)
}

/// The identities of timed overlays.
pub open spec fn item_numbers(items: Seq<OverlayItem>) -> Seq<u128> {
    Seq::new(items.len(), |i: int| items[i].id.value)
}

/// The identities of the marks in cells.
pub open spec fn cell_numbers(cells: Seq<FrameOverlayCell>) -> Seq<u128>
    decreases cells.len(),
{
    if cells.len() == 0 {
        Seq::empty()
    } else {
        let marks = cells.last().marks@;
        cell_numbers(cells.drop_last()) + Seq::new(marks.len(), |i: int| marks[i].id.value)
    }
}

/// The identities of everything that a layer paints.
pub open spec fn paint_numbers(track: OverlayTrack) -> Seq<u128> {
    item_numbers(track.items@) + (match track.frame_cells {
        Some(cells) => cell_numbers(cells@),
        None => Seq::empty(),
    })
}

/// The identities of everything that layers paint.
pub open spec fn overlay_numbers(tracks: Seq<OverlayTrack>) -> Seq<u128>
    decreases tracks.len(),
{
    if tracks.len() == 0 {
        Seq::empty()
    } else {
        overlay_numbers(tracks.drop_last()) + paint_numbers(tracks.last())
    }
}

fn add_track_numbers(numbers: &mut Vec<u128>, tracks: &Vec<OverlayTrack>)
    ensures
        final(numbers)@ == old(numbers)@ + track_numbers(tracks@),
{
    let ghost before = numbers@;
    let ghost all = track_numbers(tracks@);
    let mut at: usize = 0;
    assert(numbers@ =~= before + all.take(0));
    while at < tracks.len()
        invariant
            at <= tracks@.len(),
            all == track_numbers(tracks@),
            numbers@ == before + all.take(at as int),
        decreases tracks@.len() - at,
    {
        numbers.push(tracks[at].id.value);
        assert(numbers@ =~= before + all.take(at + 1));
        at = at + 1;
    }
    assert(all.take(at as int) =~= all);
}

fn add_item_numbers(numbers: &mut Vec<u128>, items: &Vec<OverlayItem>)
    ensures
        final(numbers)@ == old(numbers)@ + item_numbers(items@),
{
    let ghost before = numbers@;
    let ghost all = item_numbers(items@);
    let mut at: usize = 0;
    assert(numbers@ =~= before + all.take(0));
    while at < items.len()
        invariant
            at <= items@.len(),
            all == item_numbers(items@),
            numbers@ == before + all.take(at as int),
        decreases items@.len() - at,
    {
        numbers.push(items[at].id.value);
        assert(numbers@ =~= before + all.take(at + 1));
        at = at + 1;
    }
    assert(all.take(at as int) =~= all);
}

fn add_cell_numbers(numbers: &mut Vec<u128>, cells: &Vec<FrameOverlayCell>)
    ensures
        final(numbers)@ == old(numbers)@ + cell_numbers(cells@),
{
    let ghost before = numbers@;
    let mut cell: usize = 0;
    assert(numbers@ =~= before + cell_numbers(cells@.take(0)));
    while cell < cells.len()
        invariant
            cell <= cells@.len(),
            numbers@ == before + cell_numbers(cells@.take(cell as int)),
        decreases cells@.len() - cell,
    {
        let ghost sofar = numbers@;
        let marks = &cells[cell].marks;
        let ghost all = Seq::new(marks@.len(), |i: int| marks@[i].id.value);
        let mut at: usize = 0;
        assert(numbers@ =~= sofar + all.take(0));
        while at < marks.len()
            invariant
                at <= marks@.len(),
                all == Seq::new(marks@.len(), |i: int| marks@[i].id.value),
                numbers@ == sofar + all.take(at as int),
            decreases marks@.len() - at,
        {
            numbers.push(marks[at].id.value);
            assert(numbers@ =~= sofar + all.take(at + 1));
            at = at + 1;
        }
        assert(all.take(at as int) =~= all);
        assert(cells@.take(cell + 1).drop_last() =~= cells@.take(cell as int));
        assert(numbers@ =~= before + cell_numbers(cells@.take(cell + 1)));
        cell = cell + 1;
    }
    assert(cells@.take(cell as int) =~= cells@);
}

fn add_overlay_numbers(numbers: &mut Vec<u128>, tracks: &Vec<OverlayTrack>)
    ensures
        final(numbers)@ == old(numbers)@ + overlay_numbers(tracks@),
{
    let ghost before = numbers@;
    let mut at: usize = 0;
    assert(numbers@ =~= before + overlay_numbers(tracks@.take(0)));
    while at < tracks.len()
        invariant
            at <= tracks@.len(),
            numbers@ == before + overlay_numbers(tracks@.take(at as int)),
        decreases tracks@.len() - at,
    {
        add_item_numbers(numbers, &tracks[at].items);
        if let Some(cells) = &tracks[at].frame_cells {
            add_cell_numbers(numbers, cells);
        }
        assert(tracks@.take(at + 1).drop_last() =~= tracks@.take(at as int));
        assert(numbers@ =~= before + overlay_numbers(tracks@.take(at + 1)));
        at = at + 1;
    }
    assert(tracks@.take(at as int) =~= tracks@);
}

/// Random identities for the items of every layer, none of which is used and none of which comes
/// twice.
fn fresh_item_ids(used: Vec<u128>, tracks: &Vec<OverlayTrack>) -> (ids: Vec<Vec<u128>>)
    ensures
        title::enough_ids(tracks@, ids@),
        forall|t: int, i: int|
            0 <= t < ids@.len() && 0 <= i < ids@[t]@.len() ==> identity::is_random_uuid(#[trigger] ids@[t]@[i])
                && ids@[t]@[i] != 0 && !used@.contains(ids@[t]@[i]),
        forall|t: int| 0 <= t < ids@.len() ==> (#[trigger] ids@[t])@.no_duplicates(),
        forall|s: int, t: int, i: int, j: int|
            0 <= s < t < ids@.len() && 0 <= i < ids@[s]@.len() && 0 <= j < ids@[t]@.len() ==> #[trigger] ids@[s]@[i]
                != #[trigger] ids@[t]@[j],
{
    let ghost start = used@;
    let mut taken: Vec<u128> = used;
    let mut ids: Vec<Vec<u128>> = Vec::new();
    let mut at: usize = 0;
    while at < tracks.len()
        invariant
            at <= tracks@.len(),
            ids@.len() == at,
            forall|t: int| 0 <= t < at ==> (#[trigger] ids@[t])@.len() == tracks@[t].items@.len(),
            forall|t: int| 0 <= t < at ==> (#[trigger] ids@[t])@.no_duplicates(),
            forall|k: int| 0 <= k < start.len() ==> taken@.contains(#[trigger] start[k]),
            forall|t: int, i: int|
                0 <= t < at && 0 <= i < ids@[t]@.len() ==> {
                    &&& identity::is_random_uuid(#[trigger] ids@[t]@[i])
                    &&& ids@[t]@[i] != 0
                    &&& !start.contains(ids@[t]@[i])
                    &&& taken@.contains(ids@[t]@[i])
                },
            forall|s: int, t: int, i: int, j: int|
                0 <= s < t < at && 0 <= i < ids@[s]@.len() && 0 <= j < ids@[t]@.len() ==> #[trigger] ids@[s]@[i]
                    != #[trigger] ids@[t]@[j],
        decreases tracks@.len() - at,
    {
        let ghost before = taken@;
        let list: Vec<u128> = fresh_numbers(copy_all(&taken), tracks[at].items.len());
        let ghost fresh = list@;
        assert forall|i: int| 0 <= i < fresh.len() implies !start.contains(#[trigger] fresh[i]) by {
            assert(!before.contains(fresh[i]));
            if start.contains(fresh[i]) {
                let k = choose|k: int| 0 <= k < start.len() && start[k] == fresh[i];
                assert(before.contains(start[k]));
            }
        }
        let mut next: usize = 0;
        while next < list.len()
            invariant
                next <= list@.len(),
                list@ == fresh,
                taken@ == before + fresh.take(next as int),
            decreases list@.len() - next,
        {
            taken.push(list[next]);
            assert(taken@ =~= before + fresh.take(next + 1));
            next = next + 1;
        }
        proof {
            assert(fresh.take(next as int) =~= fresh);
            assert forall|number: u128| before.contains(number) implies #[trigger] taken@.contains(number) by {
                let k = choose|k: int| 0 <= k < before.len() && before[k] == number;
                assert(taken@[k] == number);
            }
            assert forall|i: int| 0 <= i < fresh.len() implies taken@.contains(#[trigger] fresh[i]) by {
                assert(taken@[before.len() + i] == fresh[i]);
            }
        }
        ids.push(list);
        at = at + 1;
    }
    ids
}

/// Whether identities are new to both projects: those of frames, transitions and layers among
/// their like, and those of items among everything that is painted. Those of layers and items are
/// apart from the ones that the layers in `frame_tracks` were given too.
pub open spec fn new_identities(
    ids: InsertionIds,
    destination: Timeline,
    source: Timeline,
    frame_tracks: Seq<OverlayTrack>,
) -> bool {
    &&& ids.suffice(destination, source)
    &&& title::all_random(ids.split_items@)
    &&& all_new(ids.frames@, frame_numbers(destination.frames@), frame_numbers(source.frames@))
    &&& all_new(ids.transitions@, transition_numbers(destination.transitions@), transition_numbers(source.transitions@))
    &&& all_new(ids.tracks@, track_numbers(destination.overlay_tracks@), track_numbers(source.overlay_tracks@))
    &&& apart(ids.tracks@, track_numbers(frame_tracks))
    &&& forall|t: int|
        0 <= t < ids.items@.len() ==> all_new(
            (#[trigger] ids.items@[t])@,
            overlay_numbers(destination.overlay_tracks@),
            overlay_numbers(source.overlay_tracks@),
        ) && apart(ids.items@[t]@, overlay_numbers(frame_tracks))
    &&& forall|s: int, t: int, i: int, j: int|
        0 <= s < t < ids.items@.len() && 0 <= i < ids.items@[s]@.len() && 0 <= j < ids.items@[t]@.len()
            ==> #[trigger] ids.items@[s]@[i] != #[trigger] ids.items@[t]@[j]
}

/// Random identities for everything else that an insertion brings, once its frames have those of
/// [`fresh_frame_ids`] and the layers that own marks by frame have theirs.
pub fn draw_insertion_ids(
    destination: &Timeline,
    source: &Timeline,
    frames: Vec<u128>,
    frame_tracks: &Vec<OverlayTrack>,
) -> (ids: InsertionIds)
    requires
        frames@.len() == source.frames@.len(),
        all_new(frames@, frame_numbers(destination.frames@), frame_numbers(source.frames@)),
    ensures
        ids.frames@ == frames@,
        new_identities(ids, *destination, *source, frame_tracks@),
{
    let mut layers: Vec<u128> = Vec::new();
    add_track_numbers(&mut layers, &destination.overlay_tracks);
    add_track_numbers(&mut layers, &source.overlay_tracks);
    add_track_numbers(&mut layers, frame_tracks);
    assert(layers@ =~= track_numbers(destination.overlay_tracks@) + track_numbers(source.overlay_tracks@)
        + track_numbers(frame_tracks@));
    let tracks: Vec<u128> = fresh_numbers(layers, source.overlay_tracks.len());
    let mut painted: Vec<u128> = Vec::new();
    add_overlay_numbers(&mut painted, &destination.overlay_tracks);
    add_overlay_numbers(&mut painted, &source.overlay_tracks);
    add_overlay_numbers(&mut painted, frame_tracks);
    assert(painted@ =~= overlay_numbers(destination.overlay_tracks@) + overlay_numbers(
        source.overlay_tracks@,
    ) + overlay_numbers(frame_tracks@));
    let items: Vec<Vec<u128>> = fresh_item_ids(painted, &source.overlay_tracks);
    proof {
        lemma_all_new(
            tracks@,
            track_numbers(destination.overlay_tracks@),
            track_numbers(source.overlay_tracks@),
            track_numbers(frame_tracks@),
        );
        let one = overlay_numbers(destination.overlay_tracks@);
        let other = overlay_numbers(source.overlay_tracks@);
        let given = overlay_numbers(frame_tracks@);
        assert forall|t: int| 0 <= t < items@.len() implies all_new((#[trigger] items@[t])@, one, other)
            && apart(items@[t]@, given) by {
            lemma_all_new(items@[t]@, one, other, given);
        }
    }
    InsertionIds {
        frames,
        split_items: draw_for_tracks(&destination.overlay_tracks),
        tracks,
        items,
        transitions: fresh_transition_ids(destination, source),
    }
}

/// The layer that a command writes, if it writes one.
pub open spec fn layer_of(command: CommandView) -> TrackView {
    command->UpsertOverlayTrack_track
}

/// Where the layers that an insertion brings have their identities from.
proof fn lemma_brought_layers(
    tracks: Seq<TrackView>,
    count: int,
    frame_tracks: Seq<TrackView>,
    offset: int,
    track_ids: Seq<u128>,
    ids: Seq<Vec<u128>>,
)
    requires
        0 <= count <= tracks.len(),
        insert_edit::source_changes(tracks, count, frame_tracks, offset, track_ids, ids) is Some,
    ensures
        ({
            let changes = insert_edit::source_changes(tracks, count, frame_tracks, offset, track_ids, ids)->0;
            &&& changes.len() == count
            &&& forall|i: int|
                0 <= i < count ==> (#[trigger] changes[i]) is UpsertOverlayTrack && if tracks[i].frame_cells is Some {
                    layer_of(changes[i]) == frame_tracks[insert_edit::frame_owned(tracks, i)]
                } else {
                    &&& layer_of(changes[i]).id.value == track_ids[i]
                    &&& layer_of(changes[i]).items.len() == tracks[i].items.len()
                    &&& forall|k: int|
                        0 <= k < tracks[i].items.len() ==> (#[trigger] layer_of(changes[i]).items[k]).id.value
                            == ids[i]@[k]
                }
        }),
    decreases count,
{
    if count > 0 {
        lemma_brought_layers(tracks, count - 1, frame_tracks, offset, track_ids, ids);
    }
}

/// The layers that an insertion brings have identities that no layer of either project has and no
/// two of them share, and the overlays of those that are timed have identities that nothing else has
/// that is painted. Of the layers in `frame_tracks`, which bring their identities along, it is taken
/// as given that no layer of either project has one of them and no two share one.
pub proof fn law_inserted_layers_are_new(
    destination: Timeline,
    source: Timeline,
    frame_tracks: Seq<OverlayTrack>,
    offset: int,
    ids: InsertionIds,
)
    requires
        new_identities(ids, destination, source, frame_tracks),
        frame_tracks.len() == insert_edit::frame_owned(
            source@.overlay_tracks,
            source@.overlay_tracks.len() as int,
        ),
        track_numbers(frame_tracks).no_duplicates(),
        apart(track_numbers(frame_tracks), track_numbers(destination.overlay_tracks@)),
        apart(track_numbers(frame_tracks), track_numbers(source.overlay_tracks@)),
        insert_edit::source_changes(
            source@.overlay_tracks,
            source@.overlay_tracks.len() as int,
            value::views(frame_tracks),
            offset,
            ids.tracks@,
            ids.items@,
        ) is Some,
    ensures
        ({
            let changes = insert_edit::source_changes(
                source@.overlay_tracks,
                source@.overlay_tracks.len() as int,
                value::views(frame_tracks),
                offset,
                ids.tracks@,
                ids.items@,
            )->0;
            &&& changes.len() == source.overlay_tracks@.len()
            &&& forall|i: int|
                0 <= i < changes.len() ==> {
                    let number = layer_of(#[trigger] changes[i]).id.value;
                    &&& changes[i] is UpsertOverlayTrack
                    &&& !track_numbers(destination.overlay_tracks@).contains(number)
                    &&& !track_numbers(source.overlay_tracks@).contains(number)
                }
            &&& forall|i: int, j: int|
                0 <= i < j < changes.len() ==> layer_of(#[trigger] changes[i]).id != layer_of(
                    #[trigger] changes[j],
                ).id
            &&& forall|i: int, k: int|
                0 <= i < changes.len() && source@.overlay_tracks[i].frame_cells is None && 0 <= k < layer_of(
                    changes[i],
                ).items.len() ==> {
                    let number = (#[trigger] layer_of(changes[i]).items[k]).id.value;
                    &&& !overlay_numbers(destination.overlay_tracks@).contains(number)
                    &&& !overlay_numbers(source.overlay_tracks@).contains(number)
                    &&& !overlay_numbers(frame_tracks).contains(number)
                }
            &&& forall|i: int, j: int, k: int, l: int|
                0 <= i < changes.len() && 0 <= j < changes.len() && source@.overlay_tracks[i].frame_cells is None
                    && source@.overlay_tracks[j].frame_cells is None && 0 <= k < layer_of(changes[i]).items.len()
                    && 0 <= l < layer_of(changes[j]).items.len() && (i != j || k != l) ==> (
                #[trigger] layer_of(changes[i]).items[k]).id != (#[trigger] layer_of(changes[j]).items[l]).id
        }),
{
    let tracks = source@.overlay_tracks;
    let given = value::views(frame_tracks);
    let numbers = track_numbers(frame_tracks);
    let count = tracks.len() as int;
    let changes = insert_edit::source_changes(tracks, count, given, offset, ids.tracks@, ids.items@)->0;
    lemma_brought_layers(tracks, count, given, offset, ids.tracks@, ids.items@);
    assert forall|i: int| 0 <= i < count && tracks[i].frame_cells is Some implies {
        let at = #[trigger] insert_edit::frame_owned(tracks, i);
        &&& 0 <= at < numbers.len()
        &&& layer_of(changes[i]).id.value == numbers[at]
    } by {
        insert_edit::lemma_frame_owned_grows(tracks, 0, i);
        insert_edit::lemma_frame_owned_grows(tracks, i + 1, count);
        assert(changes[i] is UpsertOverlayTrack);
    }
    assert forall|i: int| 0 <= i < changes.len() implies {
        let number = layer_of(#[trigger] changes[i]).id.value;
        &&& !track_numbers(destination.overlay_tracks@).contains(number)
        &&& !track_numbers(source.overlay_tracks@).contains(number)
    } by {
        if tracks[i].frame_cells is Some {
            let at = insert_edit::frame_owned(tracks, i);
            assert(!track_numbers(destination.overlay_tracks@).contains(numbers[at]));
            assert(!track_numbers(source.overlay_tracks@).contains(numbers[at]));
        } else {
            assert(ids.tracks@[i] == layer_of(changes[i]).id.value);
        }
    }
    assert forall|i: int, j: int| 0 <= i < j < changes.len() implies layer_of(#[trigger] changes[i]).id
        != layer_of(#[trigger] changes[j]).id by {
        let before = insert_edit::frame_owned(tracks, i);
        let after = insert_edit::frame_owned(tracks, j);
        if tracks[i].frame_cells is Some {
            if tracks[j].frame_cells is Some {
                insert_edit::lemma_frame_owned_grows(tracks, i + 1, j);
                assert(numbers[before] != numbers[after]);
            } else {
                assert(!numbers.contains(ids.tracks@[j]));
                assert(numbers.contains(numbers[before]));
            }
        } else if tracks[j].frame_cells is Some {
            assert(!numbers.contains(ids.tracks@[i]));
            assert(numbers.contains(numbers[after]));
        } else {
            assert(ids.tracks@[i] != ids.tracks@[j]);
        }
    }
    assert forall|i: int, k: int|
        0 <= i < changes.len() && tracks[i].frame_cells is None && 0 <= k < layer_of(changes[i]).items.len() implies {
        let number = (#[trigger] layer_of(changes[i]).items[k]).id.value;
        &&& !overlay_numbers(destination.overlay_tracks@).contains(number)
        &&& !overlay_numbers(source.overlay_tracks@).contains(number)
        &&& !overlay_numbers(frame_tracks).contains(number)
    } by {
        assert(changes[i] is UpsertOverlayTrack);
        assert(tracks[i].items.len() == ids.items@[i]@.len());
        assert(layer_of(changes[i]).items[k].id.value == ids.items@[i]@[k]);
        assert(apart(ids.items@[i]@, overlay_numbers(frame_tracks)));
    }
    assert forall|i: int, j: int, k: int, l: int|
        0 <= i < changes.len() && 0 <= j < changes.len() && tracks[i].frame_cells is None
            && tracks[j].frame_cells is None && 0 <= k < layer_of(changes[i]).items.len() && 0 <= l
            < layer_of(changes[j]).items.len() && (i != j || k != l) implies (
    #[trigger] layer_of(changes[i]).items[k]).id != (#[trigger] layer_of(changes[j]).items[l]).id by {
        assert(changes[i] is UpsertOverlayTrack && changes[j] is UpsertOverlayTrack);
        assert(tracks[i].items.len() == ids.items@[i]@.len());
        assert(tracks[j].items.len() == ids.items@[j]@.len());
        assert(layer_of(changes[i]).items[k].id.value == ids.items@[i]@[k]);
        assert(layer_of(changes[j]).items[l].id.value == ids.items@[j]@[l]);
        assert(ids.items@[i]@.no_duplicates());
    }
}

/// Whether a command inserts the frames of the source in their order, each with all that it had
/// but for its identity and its frozen clock, under identities that no frame of either project has.
pub open spec fn inserts_new_frames(
    command: CommandView,
    index: int,
    destination: Timeline,
    source: Timeline,
) -> bool {
    let brought = source@.frames;
    match command {
        CommandView::InsertFrames { index: at, frames } => {
            &&& at == index
            &&& frames.len() == brought.len()
            &&& forall|i: int|
                0 <= i < frames.len() ==> {
                    &&& (#[trigger] frames[i]) == (FrameView {
                        id: frames[i].id,
                        capture_clock: frames[i].capture_clock,
                        ..brought[i]
                    })
                    &&& !frame_numbers(destination.frames@).contains(frames[i].id.value)
                    &&& !frame_numbers(source.frames@).contains(frames[i].id.value)
                }
            &&& forall|i: int, j: int|
                0 <= i < j < frames.len() ==> (#[trigger] frames[i]).id != (#[trigger] frames[j]).id
        },
        _ => false,
    }
}

/// The edit of an insertion inserts the frames of the source in their order, each with all that
/// it had but for its identity and its frozen clock, under identities that no frame of either
/// project has.
pub proof fn law_inserted_frames_are_new(
    destination: ProjectManifest,
    index: int,
    source: ProjectManifest,
    descriptors: Seq<DescriptorView>,
    output_size: PhysicalSize,
    facts: InsertionFacts,
    ids: InsertionIds,
)
    requires
        new_identities(ids, destination.timeline, source.timeline, facts.frame_tracks@),
        insert_edit::insertion_edit(destination@, index, source@, descriptors, output_size, facts, ids) is Some,
    ensures
        ({
            let commands = insert_edit::insertion_edit(
                destination@,
                index,
                source@,
                descriptors,
                output_size,
                facts,
                ids,
            )->Some_0;
            exists|at: int|
                0 <= at < commands.len() && inserts_new_frames(
                    #[trigger] commands[at],
                    index,
                    destination.timeline,
                    source.timeline,
                )
        }),
{
    let commands = insert_edit::insertion_edit(
        destination@,
        index,
        source@,
        descriptors,
        output_size,
        facts,
        ids,
    )->Some_0;
    let brought = source@.timeline.frames;
    let frames = insert_edit::remapped_frames(brought, ids.frames@, facts.clocks@);
    let at = insert_edit::registrations(
        descriptors.filter(insert_edit::unregistered(destination@.assets)),
    ).len() as int;
    assert(ids.frames@.len() == brought.len());
    assert(commands[at] == (CommandView::InsertFrames { index, frames }));
    assert forall|i: int, j: int| 0 <= i < j < frames.len() implies (#[trigger] frames[i]).id != (
    #[trigger] frames[j]).id by {
        assert(ids.frames@[i] != ids.frames@[j]);
    }
    assert(inserts_new_frames(commands[at], index, destination.timeline, source.timeline));
}

/// What is to be done next with the files of an insertion.
#[derive(Clone, Copy, Debug, PartialEq, Eq, Structural)]
pub enum TransferStep {
    /// Read and verify the asset at a position.
    Read(usize),
    /// Store the asset at a position.
    Write(usize),
    /// Nothing.
    Finish,
}

/// How far the files of an insertion have come. Everything is read before anything is stored.
#[derive(Clone, Copy, Debug, PartialEq, Eq, Structural)]
pub struct InsertionTransfer {
    /// How many assets there are.
    pub count: usize,
    /// How many were read and verified.
    pub read: usize,
    /// How many were stored.
    pub written: usize,
}

impl InsertionTransfer {
    /// Whether nothing was stored before everything was read.
    pub open spec fn wf(self) -> bool {
        &&& self.read <= self.count
        &&& self.written <= self.count
        &&& self.written > 0 ==> self.read == self.count
    }

    /// The step to take next.
    pub open spec fn step(self) -> TransferStep {
        if self.read < self.count {
            TransferStep::Read(self.read)
        } else if self.written < self.count {
            TransferStep::Write(self.written)
        } else {
            TransferStep::Finish
        }
    }

    /// Nothing done yet.
    pub fn new(count: usize) -> (transfer: InsertionTransfer)
        ensures
            transfer.wf(),
            transfer.count == count,
            transfer.read == 0,
            transfer.written == 0,
    {
        InsertionTransfer { count, read: 0, written: 0 }
    }

    /// The step to take next.
    pub fn next(&self) -> (step: TransferStep)
        ensures
            step == self.step(),
    {
        if self.read < self.count {
            TransferStep::Read(self.read)
        } else if self.written < self.count {
            TransferStep::Write(self.written)
        } else {
            TransferStep::Finish
        }
    }

    /// Notes that the step was taken.
    pub fn done(&mut self)
        requires
            old(self).wf(),
        ensures
            final(self).wf(),
            *final(self) == (match old(self).step() {
                TransferStep::Read(at) => InsertionTransfer { read: (at + 1) as usize, ..*old(self) },
                TransferStep::Write(at) => InsertionTransfer { written: (at + 1) as usize, ..*old(self) },
                TransferStep::Finish => *old(self),
            }),
    {
        if self.read < self.count {
            self.read = self.read + 1;
        } else if self.written < self.count {
            self.written = self.written + 1;
        }
    }
}

/// An asset is stored only once every asset was read and verified.
pub proof fn law_nothing_is_stored_before_everything_is_read(transfer: InsertionTransfer)
    requires
        transfer.wf(),
        transfer.step() is Write,
    ensures
        transfer.read == transfer.count,
{
}

/// An insertion that is ready to be committed.
#[derive(Debug)]
pub struct PreparedProjectInsertion {
    /// The name of the source.
    pub source_label: String,
    /// Where the destination is kept.
    pub root: String,
    /// The destination.
    pub project_id: ProjectId,
    /// The state of it that the edit was made for.
    pub revision: u64,
    /// The edit.
    pub commands: Vec<EditCommand>,
    /// The inserted frames.
    pub inserted_frames: Vec<FrameId>,
    /// The assets that came with them.
    pub imported_assets: Vec<AssetId>,
}

impl PreparedProjectInsertion {
    /// How many frames are inserted.
    pub fn frame_count(&self) -> (count: usize)
        ensures
            count == self.inserted_frames@.len(),
    {
        self.inserted_frames.len()
    }

    /// Refuses a destination that is not in the state that the edit was made for.
    pub fn check_target(&self, root: &String, project_id: ProjectId, revision: u64) -> (result: Result<
        (),
        ProjectInsertionError,
    >)
        ensures
            ({
                let current = self.root@ == root@ && self.project_id == project_id && self.revision == revision;
                match result {
                    Ok(_) => current,
                    Err(error) => !current && error == ProjectInsertionError::StaleTarget,
                }
            }),
    {
        if self.root == *root && self.project_id == project_id && self.revision == revision {
            Ok(())
        } else {
            Err(ProjectInsertionError::StaleTarget)
        }
    }

    /// The assets with faults that are left once the insertion brought sound ones.
    pub fn remaining_issues(&self, issues: &Vec<AssetId>) -> (left: Vec<AssetId>)
        ensures
            left@ == issues@.filter(not_among(self.imported_assets@)),
    {
        let ghost pred = not_among(self.imported_assets@);
        let mut left: Vec<AssetId> = Vec::new();
        let mut at: usize = 0;
        proof {
            reveal(Seq::filter);
            assert(issues@.take(0).filter(pred) =~= Seq::empty());
        }
        while at < issues.len()
            invariant
                at <= issues@.len(),
                pred == not_among(self.imported_assets@),
                left@ == issues@.take(at as int).filter(pred),
            decreases issues@.len() - at,
        {
            proof {
                value::lemma_filter_next(issues@, pred, at as int);
            }
            if !contains_asset(&self.imported_assets, issues[at]) {
                left.push(issues[at]);
            }
            at = at + 1;
        }
        assert(issues@.take(at as int) =~= issues@);
        left
    }
}

/// Whether an asset is none of some.
pub open spec fn not_among(assets: Seq<AssetId>) -> spec_fn(AssetId) -> bool {
    |id: AssetId| !assets.contains(id)
}

/// Identities are gathered from every frame, transition, layer, item and mark.
pub proof fn law_identities_are_gathered_from_everywhere(
    frames: Seq<FrameClip>,
    transitions: Seq<Transition>,
    tracks: Seq<OverlayTrack>,
    at: int,
)
    ensures
        0 <= at < frames.len() ==> frame_numbers(frames).contains(frames[at].id.value),
        0 <= at < transitions.len() ==> transition_numbers(transitions).contains(transitions[at].id.value),
        0 <= at < tracks.len() ==> track_numbers(tracks).contains(tracks[at].id.value),
{
    if 0 <= at < frames.len() {
        assert(frame_numbers(frames)[at] == frames[at].id.value);
    }
    if 0 <= at < transitions.len() {
        assert(transition_numbers(transitions)[at] == transitions[at].id.value);
    }
    if 0 <= at < tracks.len() {
        assert(track_numbers(tracks)[at] == tracks[at].id.value);
    }
}

proof fn lemma_mark_is_gathered(cells: Seq<FrameOverlayCell>, c: int, m: int)
    requires
        0 <= c < cells.len(),
        0 <= m < cells[c].marks@.len(),
    ensures
        cell_numbers(cells).contains(cells[c].marks@[m].id.value),
    decreases cells.len(),
{
    let before = cell_numbers(cells.drop_last());
    let marks = cells.last().marks@;
    let all = cell_numbers(cells);
    if c < cells.len() - 1 {
        lemma_mark_is_gathered(cells.drop_last(), c, m);
        let i = choose|i: int| 0 <= i < before.len() && before[i] == cells[c].marks@[m].id.value;
        assert(all[i] == before[i]);
    } else {
        assert(all[before.len() + m] == marks[m].id.value);
    }
}

proof fn lemma_paint_is_gathered(tracks: Seq<OverlayTrack>, t: int, number: u128)
    requires
        0 <= t < tracks.len(),
        paint_numbers(tracks[t]).contains(number),
    ensures
        overlay_numbers(tracks).contains(number),
    decreases tracks.len(),
{
    let before = overlay_numbers(tracks.drop_last());
    let all = overlay_numbers(tracks);
    let own = paint_numbers(tracks.last());
    assert(all == before + own);
    if t < tracks.len() - 1 {
        assert(tracks.drop_last()[t] == tracks[t]);
        lemma_paint_is_gathered(tracks.drop_last(), t, number);
        let i = choose|i: int| 0 <= i < before.len() && before[i] == number;
        assert(all[i] == number);
    } else {
        let i = choose|i: int| 0 <= i < own.len() && own[i] == number;
        assert(all[before.len() + i] == number);
    }
}

/// The identity of every item, and of every mark of every cell, is among those of the overlays.
#[verifier::rlimit(30)]
pub proof fn law_overlay_identities_are_gathered(tracks: Seq<OverlayTrack>, t: int, c: int, m: int)
    requires
        0 <= t < tracks.len(),
    ensures
        0 <= m < tracks[t].items@.len() ==> overlay_numbers(tracks).contains(tracks[t].items@[m].id.value),
        tracks[t].frame_cells matches Some(cells) ==> 0 <= c < cells@.len() && 0 <= m < cells@[c].marks@.len()
            ==> overlay_numbers(tracks).contains(cells@[c].marks@[m].id.value),
{
    let track = tracks[t];
    let items = item_numbers(track.items@);
    let own = paint_numbers(track);
    if 0 <= m < track.items@.len() {
        assert(own[m] == track.items@[m].id.value);
        lemma_paint_is_gathered(tracks, t, own[m]);
    }
    if track.frame_cells is Some {
        let cells = track.frame_cells->0;
        if 0 <= c < cells@.len() && 0 <= m < cells@[c].marks@.len() {
            lemma_mark_is_gathered(cells@, c, m);
            let numbers = cell_numbers(cells@);
            let i = choose|i: int| 0 <= i < numbers.len() && numbers[i] == cells@[c].marks@[m].id.value;
            assert(own[items.len() + i] == numbers[i]);
            lemma_paint_is_gathered(tracks, t, own[items.len() + i]);
        }
    }
}

/// A transfer reads every asset in order and then writes every asset in order, and is over after that.
pub proof fn law_a_transfer_reads_and_writes_in_order(transfer: InsertionTransfer)
    requires
        transfer.wf(),
    ensures
        transfer.step() is Read <==> transfer.read < transfer.count,
        transfer.step() matches TransferStep::Read(at) ==> at == transfer.read && transfer.written == 0,
        transfer.step() matches TransferStep::Write(at) ==> at == transfer.written && at < transfer.count
            && transfer.read == transfer.count,
        transfer.step() is Finish <==> transfer.read == transfer.count && transfer.written == transfer.count,
{
}

/// An identity that is left among the issues is one that was not brought, and every such issue is left.
pub proof fn law_brought_assets_are_no_issue(assets: Seq<AssetId>, id: AssetId)
    ensures
        not_among(assets)(id) <==> forall|i: int| 0 <= i < assets.len() ==> #[trigger] assets[i] != id,
{
}

/// What is needed is named once each, in order, and it is all that the timeline needs.
pub proof fn law_needed_assets_are_named_once(list: Seq<AssetId>, source: ProjectManifest, one: int, other: int)
    requires
        names_needed(list, source),
        0 <= one < other < list.len(),
    ensures
        list[one] != list[other],
        insert_assets::timeline_needs(source@.timeline, list[one]),
        list[one].high < list[other].high || (list[one].high == list[other].high && list[one].low < list[other].low),
{
    assert(list[one].before(list[other]));
    assert(list.contains(list[one]));
}

} // verus!
