//! The edit that turns a timed layer into marks owned by frames.
use vstd::prelude::*;
use crate::cancel::CancellationToken;
use crate::content::{ContentView, OverlayContent};
use crate::conversion;
use crate::conversion::{check_cancelled, CellPlan, ConversionPlan};
use crate::frames::{FrameClip, FrameView};
use crate::identity;
use crate::identity::fresh_number;
use crate::ids::{OverlayId, TrackId};
use crate::overlay::{
    CellView, FrameOverlayCell, FrameOverlayMark, ItemView, MarkView, OverlayTrack, TrackView,
};
use crate::value;
use crate::value::{copy_all, Value};

verus! {

/// The most bytes that the stored form of one edit may take.
pub const MAX_FRAME_BUNDLE_METADATA_BYTES: usize = 16 * 1024 * 1024;

/// Why a layer cannot be converted, before anything is planned.
pub open spec fn conversion_refusal(
    tracks: Seq<TrackView>,
    id: TrackId,
    anchor_matches: bool,
) -> Option<Seq<char>> {
    if !anchor_matches {
        Some("Project changed before timed-track conversion; nothing was modified."@)
    } else if !exists|i: int| 0 <= i < tracks.len() && (#[trigger] tracks[i]).id == id {
        Some("The selected overlay track no longer exists."@)
    } else {
        let track = tracks[first_track(tracks, id)];
        if track.frame_cells is Some {
            Some("This track already owns frozen frame marks."@)
        } else if track.annotation is Some && track.annotation_scope is None {
            Some(
                "This legacy group\'s original authoring scope is unknown. Conversion cannot infer it from visible marks; the group is unchanged."@,
            )
        } else {
            None
        }
    }
}

/// Whether `index` is the position of the first layer of the given identity.
pub open spec fn is_first_track(tracks: Seq<TrackView>, id: TrackId, index: int) -> bool {
    &&& 0 <= index < tracks.len()
    &&& tracks[index].id == id
    &&& forall|i: int| 0 <= i < index ==> (#[trigger] tracks[i]).id != id
}

/// The position of the first layer of the given identity.
pub open spec fn first_track(tracks: Seq<TrackView>, id: TrackId) -> int {
    choose|index: int| is_first_track(tracks, id, index)
}

/// The position of the first layer of the given identity.
pub fn find_track(tracks: &Vec<OverlayTrack>, id: TrackId) -> (index: Option<usize>)
    ensures
        ({
            let all = value::views(tracks@);
            match index {
                Some(at) => {
                    &&& is_first_track(all, id, at as int)
                    &&& at == first_track(all, id)
                },
                None => forall|i: int| 0 <= i < all.len() ==> (#[trigger] all[i]).id != id,
            }
        }),
{
    let ghost all = value::views(tracks@);
    let mut index: usize = 0;
    while index < tracks.len()
        invariant
            index <= tracks.len(),
            all == value::views(tracks@),
            forall|i: int| 0 <= i < index ==> (#[trigger] all[i]).id != id,
        decreases tracks.len() - index,
    {
        assert(all[index as int] == tracks@[index as int]@);
        if tracks[index].id == id {
            proof {
                assert(is_first_track(all, id, index as int));
                let other = first_track(all, id);
                assert(is_first_track(all, id, other));
                if other < index {
                    assert(all[other].id != id);
                } else if index < other {
                    assert(all[index as int].id != id);
                }
            }
            return Some(index);
        }
        index += 1;
    }
    None
}

/// The position of the layer to convert, where it can be.
pub fn select_conversion<C: CancellationToken>(
    tracks: &Vec<OverlayTrack>,
    id: TrackId,
    anchor_matches: bool,
    cancellation: &C,
) -> (result: Result<usize, String>)
    ensures
        ({
            let all = value::views(tracks@);
            match result {
                Ok(index) => {
                    &&& conversion_refusal(all, id, anchor_matches) is None
                    &&& is_first_track(all, id, index as int)
                },
                Err(message) => {
                    ||| cancellation.may_cancel() && message@ == conversion::stopped()
                    ||| conversion_refusal(all, id, anchor_matches) == Some(message@)
                },
            }
        }),
        cancellation.must_cancel() ==> (result matches Err(message) && message@ == conversion::stopped()),
{
    let ghost all = value::views(tracks@);
    check_cancelled(cancellation)?;
    if !anchor_matches {
        return Err(
            "Project changed before timed-track conversion; nothing was modified.".to_owned(),
        );
    }
    let index = match find_track(tracks, id) {
        Some(index) => index,
        None => return Err("The selected overlay track no longer exists.".to_owned()),
    };
    let track = &tracks[index];
    assert(all[index as int] == track@);
    if track.frame_cells.is_some() {
        return Err("This track already owns frozen frame marks.".to_owned());
    }
    if track.annotation.is_some() && track.annotation_scope.is_none() {
        return Err(
            "This legacy group\'s original authoring scope is unknown. Conversion cannot infer it from visible marks; the group is unchanged.".to_owned(),
        );
    }
    Ok(index)
}

/// A count of the bytes of a stored form, which stops at the limit.
#[derive(Clone, Copy, Debug, PartialEq, Eq, Structural)]
pub struct MetadataCounter {
    /// The bytes so far.
    pub bytes: usize,
}

/// Why counting stopped.
#[derive(Clone, Copy, Debug, PartialEq, Eq, Structural)]
pub enum MetadataStop {
    /// The edit has been asked to stop.
    Cancelled,
    /// The stored form is too long.
    TooLong,
}

impl MetadataCounter {
    /// A count of nothing.
    pub fn new() -> (counter: MetadataCounter)
        ensures
            counter.bytes == 0,
    {
        MetadataCounter { bytes: 0 }
    }

    /// Counts `length` more bytes, or stops and leaves the count as it is.
    pub fn write<C: CancellationToken>(&mut self, length: usize, cancellation: &C) -> (result: Result<
        usize,
        MetadataStop,
    >)
        ensures
            match result {
                Ok(written) => {
                    &&& written == length
                    &&& final(self).bytes == old(self).bytes + length
                    &&& final(self).bytes <= MAX_FRAME_BUNDLE_METADATA_BYTES
                },
                Err(MetadataStop::Cancelled) => cancellation.may_cancel() && *final(self) == *old(
                    self,
                ),
                Err(MetadataStop::TooLong) => {
                    &&& old(self).bytes + length > MAX_FRAME_BUNDLE_METADATA_BYTES
                    &&& *final(self) == *old(self)
                },
            },
            cancellation.must_cancel() ==> result == Err::<usize, MetadataStop>(MetadataStop::Cancelled),
    {
        if cancellation.is_cancelled() {
            return Err(MetadataStop::Cancelled);
        }
        match self.bytes.checked_add(length) {
            Some(bytes) => {
                if bytes > MAX_FRAME_BUNDLE_METADATA_BYTES {
                    return Err(MetadataStop::TooLong);
                }
                self.bytes = bytes;
                Ok(length)
            },
            None => Err(MetadataStop::TooLong),
        }
    }
}

/// Refuses an edit whose stored form is not the one that was measured.
pub fn confirm_metadata(planned: usize, actual: usize) -> (result: Result<(), String>)
    ensures
        match result {
            Ok(_) => planned == actual,
            Err(message) => planned != actual && message@
                == "Conversion metadata preflight did not match its final command; nothing was modified."@,
        },
{
    if planned != actual {
        return Err(
            "Conversion metadata preflight did not match its final command; nothing was modified."
                .to_owned(),
        );
    }
    Ok(())
}

/// What rendering gave for an item at the start of a frame.
#[derive(Clone, Debug, PartialEq, Eq)]
pub enum FrozenContent {
    /// What the item paints then.
    Active(OverlayContent),
    /// The item paints nothing then.
    Inactive,
    /// Why it cannot be told.
    Failed(String),
}

/// What a [`FrozenContent`] means for a mark.
pub open spec fn frozen(content: FrozenContent) -> Result<ContentView, Seq<char>> {
    match content {
        FrozenContent::Active(content) => Ok(content@),
        FrozenContent::Inactive => Err("An indexed overlay unexpectedly became inactive."@),
        FrozenContent::Failed(message) => Err(message@),
    }
}

/// The marks of one frame: the items of its plan with what they paint and new
/// identities, taken in order from `contents` and `ids`, starting at `start`.
pub open spec fn marks_of(
    items: Seq<ItemView>,
    cell: CellPlan,
    contents: Seq<FrozenContent>,
    ids: Seq<u128>,
    start: int,
) -> Seq<MarkView> {
    Seq::new(
        cell.items@.len(),
        |k: int|
            MarkView {
                id: OverlayId { value: ids[start + k] },
                z_index: items[cell.items@[k] as int].z_index,
                content: frozen(contents[start + k])->Ok_0,
            },
    )
}

/// The number of items on the first `count` frames.
pub open spec fn mark_total(cells: Seq<CellPlan>, count: int) -> int
    decreases count,
{
    if count <= 0 {
        0
    } else {
        mark_total(cells, count - 1) + cells[count - 1].items@.len()
    }
}

/// The cells of the first `count` frames.
pub open spec fn cells_of(
    track: TrackView,
    cells: Seq<CellPlan>,
    count: int,
    frames: Seq<FrameView>,
    contents: Seq<FrozenContent>,
    ids: Seq<u128>,
) -> Seq<CellView>
    decreases count,
{
    if count <= 0 {
        Seq::empty()
    } else {
        let before = cells_of(track, cells, count - 1, frames, contents, ids);
        if cells[count - 1].present() {
            before.push(
                CellView {
                    frame_id: frames[count - 1].id,
                    stage: None,
                    scopes: cells[count - 1].scopes@,
                    marks: marks_of(
                        track.items,
                        cells[count - 1],
                        contents,
                        ids,
                        mark_total(cells, count - 1),
                    ),
                    input_replay: None,
                },
            )
        } else {
            before
        }
    }
}

/// The layer once its marks are owned by frames.
pub open spec fn converted(track: TrackView, cells: Seq<CellView>) -> TrackView {
    TrackView {
        frame_cells: Some(cells),
        annotation_scope: None,
        items: Seq::empty(),
        ..track
    }
}

/// The first of the contents that is no content.
pub open spec fn first_failure(contents: Seq<FrozenContent>, count: int) -> Option<Seq<char>>
    decreases count,
{
    if count <= 0 {
        None
    } else if first_failure(contents, count - 1) is Some {
        first_failure(contents, count - 1)
    } else if frozen(contents[count - 1]) is Err {
        Some(frozen(contents[count - 1])->Err_0)
    } else {
        None
    }
}

/// A failure among the contents is the failure of all of them.
proof fn lemma_failure_stays(contents: Seq<FrozenContent>, failed: int, count: int)
    requires
        failed <= count,
        first_failure(contents, failed) is Some,
    ensures
        first_failure(contents, count) == first_failure(contents, failed),
    decreases count,
{
    if failed < count {
        lemma_failure_stays(contents, failed, count - 1);
    }
}

/// More frames never have fewer items.
proof fn lemma_mark_total_grows(cells: Seq<CellPlan>, less: int, more: int)
    requires
        0 <= less <= more <= cells.len(),
    ensures
        0 <= mark_total(cells, less) <= mark_total(cells, more),
    decreases more,
{
    if less < more {
        lemma_mark_total_grows(cells, less, more - 1);
    } else if less > 0 {
        lemma_mark_total_grows(cells, less - 1, less - 1);
    }
}

/// The converted layer, with what each mark paints and its identity given in the
/// order of the plan.
pub fn materialize<C: CancellationToken>(
    plan: &ConversionPlan,
    track: &OverlayTrack,
    frames: &Vec<FrameClip>,
    contents: &Vec<FrozenContent>,
    ids: &Vec<u128>,
    cancellation: &C,
) -> (result: Result<OverlayTrack, String>)
    requires
        plan.cells@.len() == frames@.len(),
        conversion::plan_fits(plan.cells@, track.items@.len() as int),
        contents@.len() == mark_total(plan.cells@, plan.cells@.len() as int),
        ids@.len() == contents@.len(),
    ensures
        ({
            let failure = first_failure(contents@, contents@.len() as int);
            match result {
                Ok(layer) => {
                    &&& cancellation.must_cancel() ==> frames@.len() == 0
                    &&& failure is None
                    &&& layer@ == converted(
                        track@,
                        cells_of(
                            track@,
                            plan.cells@,
                            plan.cells@.len() as int,
                            value::views(frames@),
                            contents@,
                            ids@,
                        ),
                    )
                },
                Err(message) => {
                    ||| cancellation.may_cancel() && message@ == conversion::stopped()
                    ||| failure == Some(message@)
                },
            }
        }),
{
    let ghost clips = value::views(frames@);
    let ghost view = track@;
    let ghost plans = plan.cells@;
    let total: usize = contents.len();
    let mut cells: Vec<FrameOverlayCell> = Vec::new();
    let mut position: usize = 0;
    let mut index: usize = 0;
    assert(value::views(cells@) =~= Seq::empty());
    while index < plan.cells.len()
        invariant
            index <= plan.cells.len(),
            clips == value::views(frames@),
            view == track@,
            plans == plan.cells@,
            plans.len() == frames@.len(),
            conversion::plan_fits(plans, track.items@.len() as int),
            contents@.len() == mark_total(plans, plans.len() as int),
            ids@.len() == contents@.len() == total,
            position == mark_total(plans, index as int),
            first_failure(contents@, position as int) is None,
            cancellation.must_cancel() ==> index == 0,
            value::views(cells@) == cells_of(
                view,
                plans,
                index as int,
                clips,
                contents@,
                ids@,
            ),
        decreases plan.cells.len() - index,
    {
        check_cancelled(cancellation)?;
        let planned = &plan.cells[index];
        let ghost start = position as int;
        let ghost all = marks_of(view.items, *planned, contents@, ids@, start);
        proof {
            lemma_mark_total_grows(plans, index + 1, plans.len() as int);
        }
        let mut marks: Vec<FrameOverlayMark> = Vec::new();
        let mut k: usize = 0;
        assert(value::views(marks@) =~= all.take(0));
        while k < planned.items.len()
            invariant
                k <= planned.items.len(),
                index < plans.len(),
                *planned == plans[index as int],
                view == track@,
                plans == plan.cells@,
                conversion::plan_fits(plans, track.items@.len() as int),
                start == mark_total(plans, index as int),
                start + planned.items@.len() <= contents@.len(),
                ids@.len() == contents@.len() == total,
                position == start + k,
                first_failure(contents@, position as int) is None,
                !cancellation.must_cancel(),
                all == marks_of(view.items, *planned, contents@, ids@, start),
                value::views(marks@) == all.take(k as int),
            decreases planned.items.len() - k,
        {
            check_cancelled(cancellation)?;
            let at: usize = planned.items[k];
            assert(plans[index as int].items@[k as int] < track.items@.len());
            let item = &track.items[at];
            assert(view.items[at as int] == item@);
            let content = match &contents[position] {
                FrozenContent::Active(content) => content.duplicate(),
                FrozenContent::Inactive => {
                    proof {
                        lemma_failure_stays(contents@, position + 1, contents@.len() as int);
                    }
                    return Err("An indexed overlay unexpectedly became inactive.".to_owned());
                },
                FrozenContent::Failed(message) => {
                    proof {
                        lemma_failure_stays(contents@, position + 1, contents@.len() as int);
                    }
                    return Err(message.clone());
                },
            };
            let mark = FrameOverlayMark {
                id: OverlayId { value: ids[position] },
                z_index: item.z_index,
                content,
            };
            let ghost before = value::views(marks@);
            assert(mark@ == all[k as int]);
            marks.push(mark);
            assert(value::views(marks@) =~= before.push(all[k as int]));
            assert(all.take(k + 1) =~= all.take(k as int).push(all[k as int]));
            position += 1;
            k += 1;
        }
        assert(all.take(k as int) =~= all);
        assert(clips[index as int] == frames@[index as int]@);
        if planned.scopes.len() > 0 || planned.items.len() > 0 {
            let cell = FrameOverlayCell {
                frame_id: frames[index].id,
                stage: None,
                scopes: copy_all(&planned.scopes),
                marks,
                input_replay: None,
            };
            let ghost before = value::views(cells@);
            let ghost shape = cell@;
            cells.push(cell);
            assert(value::views(cells@) =~= before.push(shape));
        }
        index += 1;
    }
    let mut layer = track.duplicate();
    layer.frame_cells = Some(cells);
    layer.annotation_scope = None;
    layer.items = Vec::new();
    assert(value::views(layer.items@) =~= Seq::empty());
    Ok(layer)
}

/// `count` different numbers that are neither zero nor one of `used`.
pub fn fresh_numbers(used: Vec<u128>, count: usize) -> (ids: Vec<u128>)
    ensures
        ids@.len() == count,
        ids@.no_duplicates(),
        forall|i: int|
            0 <= i < count ==> identity::is_random_uuid(#[trigger] ids@[i]) && ids@[i] != 0 && !used@.contains(
                ids@[i],
            ),
{
    let ghost start = used@;
    let mut taken = used;
    let mut ids: Vec<u128> = Vec::with_capacity(count);
    while ids.len() < count
        invariant
            ids@.len() <= count,
            taken@ == start + ids@,
            ids@.no_duplicates(),
            forall|i: int|
                0 <= i < ids@.len() ==> identity::is_random_uuid(#[trigger] ids@[i]) && ids@[i] != 0
                    && !start.contains(ids@[i]),
        decreases count - ids@.len(),
    {
        let value: u128 = fresh_number(&taken);
        proof {
            assert forall|i: int| 0 <= i < start.len() implies start[i] != value by {
                assert(taken@[i] == start[i]);
            }
            assert forall|i: int| 0 <= i < ids@.len() implies ids@[i] != value by {
                assert(taken@[start.len() + i] == ids@[i]);
            }
        }
        taken.push(value);
        ids.push(value);
        assert(taken@ =~= start + ids@);
    }
    ids
}

/// The converted layer, with new identities that no mark of `used` has.
pub fn materialize_with_fresh_identities<C: CancellationToken>(
    plan: &ConversionPlan,
    track: &OverlayTrack,
    frames: &Vec<FrameClip>,
    contents: &Vec<FrozenContent>,
    used: Vec<u128>,
    cancellation: &C,
) -> (result: Result<OverlayTrack, String>)
    requires
        plan.cells@.len() == frames@.len(),
        conversion::plan_fits(plan.cells@, track.items@.len() as int),
        contents@.len() == mark_total(plan.cells@, plan.cells@.len() as int),
    ensures
        ({
            let failure = first_failure(contents@, contents@.len() as int);
            match result {
                Ok(layer) => {
                    &&& cancellation.must_cancel() ==> frames@.len() == 0
                    &&& failure is None
                    &&& exists|ids: Seq<u128>|
                        {
                            &&& ids.len() == contents@.len()
                            &&& ids.no_duplicates()
                            &&& forall|i: int|
                                0 <= i < ids.len() ==> identity::is_random_uuid(#[trigger] ids[i]) && !used@.contains(
                                    ids[i],
                                )
                            &&& layer@ == converted(
                                track@,
                                #[trigger] cells_of(
                                    track@,
                                    plan.cells@,
                                    plan.cells@.len() as int,
                                    value::views(frames@),
                                    contents@,
                                    ids,
                                ),
                            )
                        }
                },
                Err(message) => {
                    ||| cancellation.may_cancel() && message@ == conversion::stopped()
                    ||| failure == Some(message@)
                },
            }
        }),
{
    let ids = fresh_numbers(used, contents.len());
    materialize(plan, track, frames, contents, &ids, cancellation)
}

/// The marks of cells, laid end to end.
pub open spec fn marks_in_order(cells: Seq<CellView>) -> Seq<MarkView>
    decreases cells.len(),
{
    if cells.len() == 0 {
        Seq::empty()
    } else {
        marks_in_order(cells.drop_last()) + cells.last().marks
    }
}

/// With the marks of all frames laid end to end, each mark paints what was rendered for it and for no
/// other, and has the identity that was given for it: the first mark has the first content, and so on
/// to the last.
pub proof fn law_every_mark_paints_what_was_rendered_for_it(
    track: TrackView,
    plans: Seq<CellPlan>,
    frames: Seq<FrameView>,
    contents: Seq<FrozenContent>,
    ids: Seq<u128>,
)
    requires
        frames.len() == plans.len(),
        contents.len() == mark_total(plans, plans.len() as int),
        ids.len() == contents.len(),
        first_failure(contents, contents.len() as int) is None,
    ensures
        ({
            let cells = cells_of(track, plans, plans.len() as int, frames, contents, ids);
            let marks = marks_in_order(cells);
            &&& marks.len() == contents.len()
            &&& forall|n: int|
                0 <= n < contents.len() ==> {
                    &&& (#[trigger] contents[n]) matches FrozenContent::Active(content) && marks[n].content == content@
                    &&& marks[n].id.value == ids[n]
                }
        }),
{
    let count = plans.len() as int;
    lemma_marks_are_the_contents(track, plans, count, frames, contents, ids);
    let marks = marks_in_order(cells_of(track, plans, count, frames, contents, ids));
    assert forall|n: int| 0 <= n < contents.len() implies (#[trigger] contents[n]) is Active by {
        if !(contents[n] is Active) {
            assert(first_failure(contents, n + 1) is Some);
            lemma_failure_stays(contents, n + 1, contents.len() as int);
        }
    }
    assert forall|n: int| 0 <= n < contents.len() implies {
        &&& (#[trigger] contents[n]) matches FrozenContent::Active(content) && marks[n].content == content@
        &&& marks[n].id.value == ids[n]
    } by {
        assert(contents[n] is Active);
        assert(marks[n].content == frozen(contents[n])->Ok_0);
    }
}

proof fn lemma_marks_are_the_contents(
    track: TrackView,
    plans: Seq<CellPlan>,
    count: int,
    frames: Seq<FrameView>,
    contents: Seq<FrozenContent>,
    ids: Seq<u128>,
)
    requires
        0 <= count <= plans.len(),
    ensures
        ({
            let marks = marks_in_order(cells_of(track, plans, count, frames, contents, ids));
            &&& marks.len() == mark_total(plans, count)
            &&& forall|n: int|
                0 <= n < marks.len() ==> (#[trigger] marks[n]).content == frozen(contents[n])->Ok_0
                    && marks[n].id.value == ids[n]
        }),
    decreases count,
{
    let cells = cells_of(track, plans, count, frames, contents, ids);
    if count > 0 {
        lemma_marks_are_the_contents(track, plans, count - 1, frames, contents, ids);
        let before = cells_of(track, plans, count - 1, frames, contents, ids);
        if plans[count - 1].present() {
            assert(cells.drop_last() =~= before);
        }
    }
}

/// The plans that call for a cell.
pub open spec fn owning(plans: Seq<CellPlan>) -> Seq<int> {
    Seq::new(plans.len(), |f: int| f).filter(
        |f: int| plans[f].scopes@.len() > 0 || plans[f].items@.len() > 0,
    )
}

/// The frames that own something after a conversion are those whose plan has an authoring scope or an
/// item, in the order of the timeline. Each has the scopes of its plan, and a mark for each item of its
/// plan, in the order of the plan and with the painting order of that item.
pub proof fn law_frames_own_what_was_planned_for_them(
    track: TrackView,
    plans: Seq<CellPlan>,
    frames: Seq<FrameView>,
    contents: Seq<FrozenContent>,
    ids: Seq<u128>,
)
    requires
        frames.len() == plans.len(),
    ensures
        ({
            let cells = cells_of(track, plans, plans.len() as int, frames, contents, ids);
            let owners = owning(plans);
            &&& cells.len() == owners.len()
            &&& forall|j: int|
                0 <= j < cells.len() ==> {
                    let plan = plans[owners[j]];
                    &&& (#[trigger] cells[j]).frame_id == frames[owners[j]].id
                    &&& cells[j].stage is None
                    &&& cells[j].input_replay is None
                    &&& cells[j].scopes == plan.scopes@
                    &&& cells[j].marks.len() == plan.items@.len()
                    &&& forall|k: int|
                        0 <= k < plan.items@.len() ==> (#[trigger] cells[j].marks[k]).z_index
                            == track.items[plan.items@[k] as int].z_index
                }
        }),
{
    lemma_cells_by_owner(track, plans, plans.len() as int, frames, contents, ids);
    assert(Seq::new(plans.len(), |f: int| f).take(plans.len() as int) =~= Seq::new(plans.len(), |f: int| f));
}

proof fn lemma_cells_by_owner(
    track: TrackView,
    plans: Seq<CellPlan>,
    count: int,
    frames: Seq<FrameView>,
    contents: Seq<FrozenContent>,
    ids: Seq<u128>,
)
    requires
        0 <= count <= plans.len(),
    ensures
        ({
            let cells = cells_of(track, plans, count, frames, contents, ids);
            let owners = Seq::new(plans.len(), |f: int| f).take(count).filter(
                |f: int| plans[f].scopes@.len() > 0 || plans[f].items@.len() > 0,
            );
            &&& cells.len() == owners.len()
            &&& forall|j: int|
                0 <= j < cells.len() ==> {
                    let plan = plans[owners[j]];
                    &&& (#[trigger] cells[j]).frame_id == frames[owners[j]].id
                    &&& cells[j].stage is None
                    &&& cells[j].input_replay is None
                    &&& cells[j].scopes == plan.scopes@
                    &&& cells[j].marks.len() == plan.items@.len()
                    &&& forall|k: int|
                        0 <= k < plan.items@.len() ==> (#[trigger] cells[j].marks[k]).z_index
                            == track.items[plan.items@[k] as int].z_index
                }
        }),
    decreases count,
{
    let all = Seq::new(plans.len(), |f: int| f);
    let owns = |f: int| plans[f].scopes@.len() > 0 || plans[f].items@.len() > 0;
    reveal(Seq::filter);
    if count > 0 {
        lemma_cells_by_owner(track, plans, count - 1, frames, contents, ids);
        value::lemma_filter_next(all, owns, count - 1);
        assert(all[count - 1] == count - 1);
    } else {
        assert(all.take(0).filter(owns) =~= Seq::empty());
    }
}

/// A layer that is converted keeps its identity, its name and its settings. What it showed by time is
/// owned by frames after that, and nothing of it is shown by time any more.
pub proof fn law_a_converted_layer_keeps_its_settings(track: TrackView, cells: Seq<CellView>)
    ensures
        ({
            let layer = converted(track, cells);
            &&& layer.id == track.id
            &&& layer.name == track.name
            &&& layer.visible == track.visible
            &&& layer.opacity == track.opacity
            &&& layer.blend_mode == track.blend_mode
            &&& layer.annotation == track.annotation
            &&& layer.annotation_scope is None
            &&& layer.items == Seq::<ItemView>::empty()
            &&& layer.frame_cells == Some(cells)
        }),
{
}

/// A conversion fails with the reason of the first content that could not be rendered, and with none
/// where all could be.
pub proof fn law_the_first_failure_is_told(contents: Seq<FrozenContent>)
    ensures
        match first_failure(contents, contents.len() as int) {
            None => forall|n: int| 0 <= n < contents.len() ==> (#[trigger] contents[n]) is Active,
            Some(told) => exists|n: int|
                {
                    &&& 0 <= n < contents.len()
                    &&& forall|m: int| 0 <= m < n ==> (#[trigger] contents[m]) is Active
                    &&& match #[trigger] contents[n] {
                        FrozenContent::Active(_) => false,
                        FrozenContent::Inactive => true,
                        FrozenContent::Failed(message) => told == message@,
                    }
                },
        },
{
    lemma_first_failure(contents, contents.len() as int);
}

proof fn lemma_first_failure(contents: Seq<FrozenContent>, count: int)
    requires
        0 <= count <= contents.len(),
    ensures
        match first_failure(contents, count) {
            None => forall|n: int| 0 <= n < count ==> (#[trigger] contents[n]) is Active,
            Some(told) => exists|n: int|
                {
                    &&& 0 <= n < count
                    &&& forall|m: int| 0 <= m < n ==> (#[trigger] contents[m]) is Active
                    &&& match #[trigger] contents[n] {
                        FrozenContent::Active(_) => false,
                        FrozenContent::Inactive => true,
                        FrozenContent::Failed(message) => told == message@,
                    }
                },
        },
    decreases count,
{
    if count > 0 {
        lemma_first_failure(contents, count - 1);
    }
}

/// A layer can be converted exactly where the project is the one that was looked at and the layer is
/// there, does not own marks by frame already, and tells its authoring scope if it has a recipe.
pub proof fn law_what_can_be_converted(tracks: Seq<TrackView>, id: TrackId, anchor_matches: bool, at: int)
    requires
        0 <= at < tracks.len(),
        tracks[at].id == id,
        forall|i: int| 0 <= i < at ==> (#[trigger] tracks[i]).id != id,
    ensures
        conversion_refusal(tracks, id, anchor_matches) is None <==> {
            &&& anchor_matches
            &&& tracks[at].frame_cells is None
            &&& tracks[at].annotation is None || tracks[at].annotation_scope is Some
        },
{
    assert(is_first_track(tracks, id, at));
    let other = first_track(tracks, id);
    assert(is_first_track(tracks, id, other));
    if other < at {
        assert(tracks[other].id != id);
    } else if at < other {
        assert(tracks[at].id != id);
    }
}

/// The first layer of an identity is the one before which no other has it.
pub proof fn law_the_first_layer_is_meant(tracks: Seq<TrackView>, id: TrackId, at: int)
    requires
        0 <= at < tracks.len(),
        tracks[at].id == id,
        forall|i: int| 0 <= i < at ==> (#[trigger] tracks[i]).id != id,
    ensures
        first_track(tracks, id) == at,
{
    assert(is_first_track(tracks, id, at));
    let found = first_track(tracks, id);
    assert(is_first_track(tracks, id, found));
}

/// A mark that is no longer shown is told as such.
pub proof fn law_an_inactive_mark_is_told(contents: Seq<FrozenContent>, at: int)
    requires
        0 <= at < contents.len(),
        contents[at] is Inactive,
        forall|n: int| 0 <= n < at ==> (#[trigger] contents[n]) is Active,
    ensures
        first_failure(contents, contents.len() as int) == Some("An indexed overlay unexpectedly became inactive."@),
{
    lemma_nothing_failed_before(contents, at);
    lemma_failure_stays(contents, at + 1, contents.len() as int);
}

proof fn lemma_nothing_failed_before(contents: Seq<FrozenContent>, count: int)
    requires
        0 <= count <= contents.len(),
        forall|n: int| 0 <= n < count ==> (#[trigger] contents[n]) is Active,
    ensures
        first_failure(contents, count) is None,
    decreases count,
{
    if count > 0 {
        lemma_nothing_failed_before(contents, count - 1);
        assert(contents[count - 1] is Active);
    }
}

/// Marks are counted plan by plan.
pub proof fn law_marks_are_counted_plan_by_plan(cells: Seq<CellPlan>, at: int)
    requires
        0 <= at < cells.len(),
    ensures
        mark_total(cells, at + 1) - mark_total(cells, at) == cells[at].items@.len(),
        mark_total(cells, 0) == 0,
{
}

} // verus!
