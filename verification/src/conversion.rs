//! Turning a timed layer into marks owned by frames.
use vstd::prelude::*;
use crate::cancel::CancellationToken;
use crate::frames;
use crate::frames::{FrameClip, FrameView};
use crate::memory::room_for;
use crate::overlay::{FrameAuthoringSpan, FrameLocalSpan, ItemView, OverlayTrack, TrackView};
use crate::time::TimelineSpan;
use crate::value;

verus! {

/// The most frames that may own marks of one layer.
pub const MAX_FRAME_OVERLAY_CELLS: usize = 40_000;

/// The most pieces of authoring scope in one layer.
pub const MAX_ANNOTATION_SCOPE_SPANS: usize = 40_000;

/// The most marks in one layer.
pub const MAX_FRAME_OVERLAY_MARKS: usize = 100_000;

/// The message of a conversion that was stopped.
pub open spec fn stopped() -> Seq<char> {
    "Annotation edit cancelled; the project was not modified."@
}

/// Fails where the conversion has been asked to stop.
pub fn check_cancelled<C: CancellationToken>(cancellation: &C) -> (result: Result<(), String>)
    ensures
        match result {
            Ok(_) => !cancellation.must_cancel(),
            Err(message) => cancellation.may_cancel() && message@ == stopped(),
        },
{
    if cancellation.is_cancelled() {
        Err("Annotation edit cancelled; the project was not modified.".to_owned())
    } else {
        Ok(())
    }
}

/// The number of frames, among the first `count`, that have ended at `time`.
pub open spec fn ended(frames: Seq<FrameView>, time: int, count: int) -> int
    decreases count,
{
    if count <= 0 {
        0
    } else {
        ended(frames, time, count - 1) + if frames::clock(frames, count) <= time {
            1int
        } else {
            0
        }
    }
}

/// The number of frames, among the first `count`, that start before `time`.
pub open spec fn started(frames: Seq<FrameView>, time: int, count: int) -> int
    decreases count,
{
    if count <= 0 {
        0
    } else {
        started(frames, time, count - 1) + if frames::clock(frames, count - 1) < time {
            1int
        } else {
            0
        }
    }
}

/// A count is where its frames end, once they come first.
proof fn lemma_ended_boundary(frames: Seq<FrameView>, time: int, boundary: int, count: int)
    requires
        0 <= boundary <= count <= frames.len(),
        forall|i: int| 0 <= i < boundary ==> #[trigger] frames::clock(frames, i + 1) <= time,
        forall|i: int| boundary <= i < count ==> #[trigger] frames::clock(frames, i + 1) > time,
    ensures
        ended(frames, time, count) == boundary,
    decreases count,
{
    if count > 0 {
        assert(frames::clock(frames, (count - 1) + 1) == frames::clock(frames, count));
        if boundary == count {
            lemma_ended_boundary(frames, time, boundary - 1, count - 1);
        } else {
            lemma_ended_boundary(frames, time, boundary, count - 1);
        }
    }
}

/// A count is where its frames end, once they come first.
proof fn lemma_started_boundary(frames: Seq<FrameView>, time: int, boundary: int, count: int)
    requires
        0 <= boundary <= count <= frames.len(),
        forall|i: int| 0 <= i < boundary ==> #[trigger] frames::clock(frames, i) < time,
        forall|i: int| boundary <= i < count ==> #[trigger] frames::clock(frames, i) >= time,
    ensures
        started(frames, time, count) == boundary,
    decreases count,
{
    if count > 0 {
        assert(frames::clock(frames, count - 1) == frames::clock(frames, count - 1));
        if boundary == count {
            lemma_started_boundary(frames, time, boundary - 1, count - 1);
        } else {
            lemma_started_boundary(frames, time, boundary, count - 1);
        }
    }
}

/// Whether `bounds` holds the start of every frame and the end of the last.
pub open spec fn are_bounds(bounds: Seq<u64>, frames: Seq<FrameView>) -> bool {
    &&& bounds.len() == frames.len() + 1
    &&& forall|i: int| 0 <= i <= frames.len() ==> #[trigger] bounds[i] == frames::clock(frames, i)
}

/// The number of frames that have ended at `time`.
fn count_ended(bounds: &Vec<u64>, time: u64, Ghost(frames): Ghost<Seq<FrameView>>) -> (count: usize)
    requires
        are_bounds(bounds@, frames),
    ensures
        count == ended(frames, time as int, frames.len() as int),
        count <= frames.len(),
        forall|i: int| 0 <= i < count ==> #[trigger] frames::clock(frames, i + 1) <= time,
        forall|i: int| count <= i < frames.len() ==> #[trigger] frames::clock(frames, i + 1) > time,
{
    let mut low: usize = 0;
    let mut high: usize = bounds.len() - 1;
    while low < high
        invariant
            low <= high <= frames.len(),
            are_bounds(bounds@, frames),
            forall|i: int| 0 <= i < low ==> #[trigger] frames::clock(frames, i + 1) <= time,
            forall|i: int| high <= i < frames.len() ==> #[trigger] frames::clock(frames, i + 1) > time,
        decreases high - low,
    {
        let middle: usize = low + (high - low) / 2;
        if bounds[middle + 1] <= time {
            assert forall|i: int| 0 <= i < middle + 1 implies #[trigger] frames::clock(frames, i + 1)
                <= time by {
                frames::lemma_clock_grows(frames, i + 1, middle + 1);
            }
            low = middle + 1;
        } else {
            assert forall|i: int| middle <= i < frames.len() implies #[trigger] frames::clock(
                frames,
                i + 1,
            ) > time by {
                frames::lemma_clock_grows(frames, middle + 1, i + 1);
            }
            high = middle;
        }
    }
    proof {
        lemma_ended_boundary(frames, time as int, low as int, frames.len() as int);
    }
    low
}

/// The number of frames that start before `time`.
fn count_started(
    bounds: &Vec<u64>,
    time: u64,
    Ghost(frames): Ghost<Seq<FrameView>>,
) -> (count: usize)
    requires
        are_bounds(bounds@, frames),
    ensures
        count == started(frames, time as int, frames.len() as int),
        count <= frames.len(),
        forall|i: int| 0 <= i < count ==> #[trigger] frames::clock(frames, i) < time,
        forall|i: int| count <= i < frames.len() ==> #[trigger] frames::clock(frames, i) >= time,
{
    let mut low: usize = 0;
    let mut high: usize = bounds.len() - 1;
    while low < high
        invariant
            low <= high <= frames.len(),
            are_bounds(bounds@, frames),
            forall|i: int| 0 <= i < low ==> #[trigger] frames::clock(frames, i) < time,
            forall|i: int| high <= i < frames.len() ==> #[trigger] frames::clock(frames, i) >= time,
        decreases high - low,
    {
        let middle: usize = low + (high - low) / 2;
        if bounds[middle] < time {
            assert forall|i: int| 0 <= i < middle + 1 implies #[trigger] frames::clock(frames, i)
                < time by {
                frames::lemma_clock_grows(frames, i, middle as int);
            }
            low = middle + 1;
        } else {
            assert forall|i: int| middle <= i < frames.len() implies #[trigger] frames::clock(
                frames,
                i,
            ) >= time by {
                frames::lemma_clock_grows(frames, middle as int, i);
            }
            high = middle;
        }
    }
    proof {
        lemma_started_boundary(frames, time as int, low as int, frames.len() as int);
    }
    low
}

/// Whether the frame at `index` is shown during part of the span.
pub open spec fn meets(span: TimelineSpan, frames: Seq<FrameView>, index: int) -> bool {
    span.lo() < frames::clock(frames, index + 1) && frames::clock(frames, index) < span.hi()
}

/// The part of the frame at `index` that the span covers.
pub open spec fn local_part(span: TimelineSpan, frames: Seq<FrameView>, index: int) -> FrameLocalSpan {
    let start = frames::clock(frames, index);
    let end = frames::clock(frames, index + 1);
    let left = if span.lo() < start {
        start
    } else {
        span.lo()
    };
    let right = if span.hi() < end {
        span.hi()
    } else {
        end
    };
    FrameLocalSpan {
        start: (left - start) as u64,
        end: (right - start) as u64,
        whole: frames[index].duration,
    }
}

/// The authoring run of the scope at `index`: scopes that touch belong to one run.
pub open spec fn run_of(scopes: Seq<TimelineSpan>, index: int) -> int
    decreases index,
{
    if index <= 0 {
        1
    } else {
        run_of(scopes, index - 1) + if scopes[index].lo() > scopes[index - 1].hi() {
            1int
        } else {
            0
        }
    }
}

/// What the first `count` scopes cover of the frame at `index`.
pub open spec fn scopes_of(
    scopes: Seq<TimelineSpan>,
    count: int,
    frames: Seq<FrameView>,
    index: int,
) -> Seq<FrameAuthoringSpan>
    decreases count,
{
    if count <= 0 {
        Seq::empty()
    } else {
        let before = scopes_of(scopes, count - 1, frames, index);
        if meets(scopes[count - 1], frames, index) {
            before.push(
                FrameAuthoringSpan {
                    run_id: run_of(scopes, count - 1) as u32,
                    span: local_part(scopes[count - 1], frames, index),
                },
            )
        } else {
            before
        }
    }
}

/// The number of frames during which the span is shown.
pub open spec fn met(span: TimelineSpan, frames: Seq<FrameView>) -> int {
    started(frames, span.hi(), frames.len() as int) - ended(
        frames,
        span.lo(),
        frames.len() as int,
    )
}

/// The number of pieces that the first `count` scopes fall into.
pub open spec fn scope_pieces(scopes: Seq<TimelineSpan>, count: int, frames: Seq<FrameView>) -> int
    decreases count,
{
    if count <= 0 {
        0
    } else {
        scope_pieces(scopes, count - 1, frames) + met(scopes[count - 1], frames)
    }
}

/// Why the first `count` scopes cannot be divided among the frames.
pub open spec fn scope_failure(
    scopes: Seq<TimelineSpan>,
    count: int,
    frames: Seq<FrameView>,
) -> Option<Seq<char>>
    decreases count,
{
    if count <= 0 {
        None
    } else if scope_failure(scopes, count - 1, frames) is Some {
        scope_failure(scopes, count - 1, frames)
    } else if scopes[count - 1].hi() > u64::MAX {
        Some("Authoring scope duration overflow."@)
    } else if run_of(scopes, count - 1) > u32::MAX {
        Some("Authoring run identity overflow."@)
    } else if scope_pieces(scopes, count, frames) > MAX_ANNOTATION_SCOPE_SPANS {
        Some("Conversion exceeds 40,000 authoring scope fragments."@)
    } else {
        None
    }
}

/// Whether the item is shown when the frame at `index` starts.
pub open spec fn sampled(item: ItemView, frames: Seq<FrameView>, index: int) -> bool {
    item.span.covers(frames::clock(frames, index))
}

/// The items, among the first `count`, that are shown when the frame at `index` starts.
pub open spec fn items_of(
    items: Seq<ItemView>,
    count: int,
    frames: Seq<FrameView>,
    index: int,
) -> Seq<usize>
    decreases count,
{
    if count <= 0 {
        Seq::empty()
    } else if sampled(items[count - 1], frames, index) {
        items_of(items, count - 1, frames, index).push((count - 1) as usize)
    } else {
        items_of(items, count - 1, frames, index)
    }
}

/// The number of marks that the first `count` items turn into.
pub open spec fn mark_count(items: Seq<ItemView>, count: int, frames: Seq<FrameView>) -> int
    decreases count,
{
    if count <= 0 {
        0
    } else {
        let span = items[count - 1].span;
        mark_count(items, count - 1, frames) + started(frames, span.hi(), frames.len() as int)
            - started(frames, span.lo(), frames.len() as int)
    }
}

/// The spans that the authoring of a layer covered.
pub open spec fn known_scope(track: TrackView) -> Seq<TimelineSpan> {
    match track.annotation_scope {
        Some(scope) => scope,
        None => Seq::empty(),
    }
}

/// Whether the frame at `index` owns something once the first `count` items are placed.
pub open spec fn owns(track: TrackView, count: int, frames: Seq<FrameView>, index: int) -> bool {
    let scope = known_scope(track);
    scopes_of(scope, scope.len() as int, frames, index).len() > 0 || items_of(
        track.items,
        count,
        frames,
        index,
    ).len() > 0
}

/// The number of frames, among the first `upto`, that own something once the first
/// `count` items are placed.
pub open spec fn owner_count(
    track: TrackView,
    count: int,
    frames: Seq<FrameView>,
    upto: int,
) -> int
    decreases upto,
{
    if upto <= 0 {
        0
    } else {
        owner_count(track, count, frames, upto - 1) + if owns(track, count, frames, upto - 1) {
            1int
        } else {
            0
        }
    }
}

/// Whether a frame that the item falls on is covered by no authoring.
pub open spec fn uncovered(track: TrackView, item: ItemView, frames: Seq<FrameView>) -> bool {
    let scope = known_scope(track);
    exists|index: int|
        0 <= index < frames.len() && #[trigger] sampled(item, frames, index) && scopes_of(
            scope,
            scope.len() as int,
            frames,
            index,
        ).len() == 0
}

/// Why the first `count` items cannot be placed on the frames.
pub open spec fn mark_failure(track: TrackView, count: int, frames: Seq<FrameView>) -> Option<
    Seq<char>,
>
    decreases count,
{
    if count <= 0 {
        None
    } else if mark_failure(track, count - 1, frames) is Some {
        mark_failure(track, count - 1, frames)
    } else if track.items[count - 1].span.hi() > u64::MAX {
        Some("Overlay duration overflow."@)
    } else if mark_count(track.items, count, frames) > MAX_FRAME_OVERLAY_MARKS {
        Some("Conversion exceeds 100,000 frozen marks."@)
    } else if track.annotation is Some && uncovered(track, track.items[count - 1], frames) {
        Some(
            "An annotation mark has no original authoring coverage on its owner frame; conversion cannot invent a scope."@,
        )
    } else if owner_count(track, count, frames, frames.len() as int) > MAX_FRAME_OVERLAY_CELLS {
        Some("Conversion exceeds 40,000 owner frames."@)
    } else {
        None
    }
}

/// Why a layer cannot be planned onto the frames.
pub open spec fn plan_failure(track: TrackView, frames: Seq<FrameView>) -> Option<Seq<char>> {
    let scope = known_scope(track);
    if frames::clock(frames, frames.len() as int) > u64::MAX {
        Some("Timeline duration overflow."@)
    } else if scope_failure(scope, scope.len() as int, frames) is Some {
        scope_failure(scope, scope.len() as int, frames)
    } else {
        mark_failure(track, track.items.len() as int, frames)
    }
}

/// What one frame is going to own.
#[derive(Clone, Debug, PartialEq, Eq)]
pub struct CellPlan {
    /// The parts of the frame that authoring covered.
    pub scopes: Vec<FrameAuthoringSpan>,
    /// The positions of the items to be painted on it.
    pub items: Vec<usize>,
}

impl CellPlan {
    /// Whether the frame owns anything.
    pub open spec fn present(self) -> bool {
        self.scopes@.len() > 0 || self.items@.len() > 0
    }
}

/// The number of plans, among the first `upto`, that own anything.
spec fn present_count(cells: Seq<CellPlan>, upto: int) -> int
    decreases upto,
{
    if upto <= 0 {
        0
    } else {
        present_count(cells, upto - 1) + if cells[upto - 1].present() {
            1int
        } else {
            0
        }
    }
}

/// What changing one plan does to the number that own anything.
proof fn lemma_present_update(cells: Seq<CellPlan>, more: Seq<CellPlan>, at: int, upto: int)
    requires
        0 <= at < cells.len() == more.len(),
        0 <= upto <= cells.len(),
        forall|i: int| 0 <= i < cells.len() && i != at ==> cells[i] == more[i],
    ensures
        present_count(more, upto) - present_count(cells, upto) == (if at < upto {
            (if more[at].present() {
                1int
            } else {
                0
            }) - (if cells[at].present() {
                1int
            } else {
                0
            })
        } else {
            0
        }),
        0 <= present_count(cells, upto) <= upto,
    decreases upto,
{
    if upto > 0 {
        lemma_present_update(cells, more, at, upto - 1);
    }
}

/// Frames own something once their plan does, whatever else is placed.
proof fn lemma_present_bounded(
    cells: Seq<CellPlan>,
    track: TrackView,
    count: int,
    frames: Seq<FrameView>,
    upto: int,
)
    requires
        0 <= upto <= cells.len() == frames.len(),
        forall|i: int|
            0 <= i < cells.len() && (#[trigger] cells[i]).present() ==> owns(track, count, frames, i),
    ensures
        present_count(cells, upto) <= owner_count(track, count, frames, upto),
    decreases upto,
{
    if upto > 0 {
        lemma_present_bounded(cells, track, count, frames, upto - 1);
        assert(cells[upto - 1].present() ==> owns(track, count, frames, upto - 1));
    }
}

/// One more frame owns something than has a plan, where one is still without.
proof fn lemma_present_strictly_bounded(
    cells: Seq<CellPlan>,
    track: TrackView,
    count: int,
    frames: Seq<FrameView>,
    upto: int,
    at: int,
)
    requires
        0 <= at < upto <= cells.len() == frames.len(),
        forall|i: int|
            0 <= i < cells.len() && (#[trigger] cells[i]).present() ==> owns(track, count, frames, i),
        !cells[at].present(),
        owns(track, count, frames, at),
    ensures
        present_count(cells, upto) < owner_count(track, count, frames, upto),
    decreases upto,
{
    if at == upto - 1 {
        lemma_present_bounded(cells, track, count, frames, upto - 1);
    } else {
        lemma_present_strictly_bounded(cells, track, count, frames, upto - 1, at);
        assert(cells[upto - 1].present() ==> owns(track, count, frames, upto - 1));
    }
}

/// Nothing is owned where every plan is empty.
proof fn lemma_nothing_present(cells: Seq<CellPlan>, upto: int)
    requires
        0 <= upto <= cells.len(),
        forall|i: int| 0 <= i < cells.len() ==> !(#[trigger] cells[i]).present(),
    ensures
        present_count(cells, upto) == 0,
    decreases upto,
{
    if upto > 0 {
        lemma_nothing_present(cells, upto - 1);
        assert(!cells[upto - 1].present());
    }
}

/// Frames own something exactly where their plan does.
proof fn lemma_present_exact(
    cells: Seq<CellPlan>,
    track: TrackView,
    count: int,
    frames: Seq<FrameView>,
    upto: int,
)
    requires
        0 <= upto <= cells.len() == frames.len(),
        forall|i: int|
            0 <= i < cells.len() ==> (#[trigger] cells[i]).present() == owns(track, count, frames, i),
    ensures
        present_count(cells, upto) == owner_count(track, count, frames, upto),
    decreases upto,
{
    if upto > 0 {
        lemma_present_exact(cells, track, count, frames, upto - 1);
        assert(cells[upto - 1].present() == owns(track, count, frames, upto - 1));
    }
}

/// What is told where there is no memory for the times of all frames.
pub open spec fn no_room() -> Seq<char> {
    "Could not allocate frame-start index."@
}

/// What every frame is going to own of a layer.
#[derive(Clone, Debug, PartialEq, Eq)]
pub struct ConversionPlan {
    /// The start of every frame and the end of the last.
    pub bounds: Vec<u64>,
    /// What each frame is going to own.
    pub cells: Vec<CellPlan>,
}

/// Whether the plans hold what all scopes and the first `count` items put on each frame.
pub open spec fn planned(
    cells: Seq<CellPlan>,
    track: TrackView,
    count: int,
    frames: Seq<FrameView>,
) -> bool {
    let scope = known_scope(track);
    &&& cells.len() == frames.len()
    &&& forall|i: int|
        0 <= i < cells.len() ==> {
            &&& (#[trigger] cells[i]).scopes@ == scopes_of(scope, scope.len() as int, frames, i)
            &&& cells[i].items@ == items_of(track.items, count, frames, i)
        }
}

/// Whether the item at each position of a plan exists.
pub open spec fn plan_fits(cells: Seq<CellPlan>, items: int) -> bool {
    forall|i: int, k: int|
        0 <= i < cells.len() && 0 <= k < cells[i].items@.len() ==> (#[trigger] cells[i].items@[k])
            < items
}

/// The items of a frame are items of the layer.
proof fn lemma_items_exist(items: Seq<ItemView>, count: int, frames: Seq<FrameView>, index: int)
    requires
        0 <= count <= usize::MAX,
    ensures
        forall|k: int|
            0 <= k < items_of(items, count, frames, index).len() ==> (#[trigger] items_of(
                items,
                count,
                frames,
                index,
            )[k]) < count,
    decreases count,
{
    if count > 0 {
        lemma_items_exist(items, count - 1, frames, index);
        let all = items_of(items, count, frames, index);
        let before = items_of(items, count - 1, frames, index);
        assert forall|k: int| 0 <= k < all.len() implies (#[trigger] all[k]) < count by {
            if k < before.len() {
                assert(all[k] == before[k]);
            }
        }
    }
}

impl ConversionPlan {
    /// Whether the plan is that of the layer on the frames.
    pub open spec fn plans(self, track: TrackView, frames: Seq<FrameView>) -> bool {
        &&& are_bounds(self.bounds@, frames)
        &&& planned(self.cells@, track, track.items.len() as int, frames)
    }

    /// Plans what every frame is going to own of the layer, where there is memory for the times of
    /// all frames.
    pub fn new<C: CancellationToken>(
        frames: &Vec<FrameClip>,
        track: &OverlayTrack,
        cancellation: &C,
    ) -> (result: Result<ConversionPlan, String>)
        ensures
            ({
                let clips = value::views(frames@);
                match result {
                    Ok(plan) => {
                        &&& cancellation.must_cancel() ==> clips.len() == 0
                        &&& plan_failure(track@, clips) is None
                        &&& plan.plans(track@, clips)
                        &&& plan_fits(plan.cells@, track.items@.len() as int)
                    },
                    Err(message) => {
                        ||| cancellation.may_cancel() && message@ == stopped()
                        ||| plan_failure(track@, clips) == Some(message@)
                        ||| frames@.len() > 0 && message@ == no_room()
                    },
                }
            }),
    {
        ConversionPlan::with_room(room_for(frames.len()), frames, track, cancellation)
    }

    /// Plans what every frame is going to own of the layer. `room` takes the times of the frames;
    /// there is none where there is no memory for them.
    pub fn with_room<C: CancellationToken>(
        room: Option<Vec<u64>>,
        frames: &Vec<FrameClip>,
        track: &OverlayTrack,
        cancellation: &C,
    ) -> (result: Result<ConversionPlan, String>)
        requires
            room matches Some(list) ==> list@.len() == 0,
        ensures
            ({
                let clips = value::views(frames@);
                match result {
                    Ok(plan) => {
                        &&& room is Some
                        &&& cancellation.must_cancel() ==> clips.len() == 0
                        &&& plan_failure(track@, clips) is None
                        &&& plan.plans(track@, clips)
                        &&& plan_fits(plan.cells@, track.items@.len() as int)
                    },
                    Err(message) => if room is None {
                        message@ == no_room()
                    } else {
                        ||| cancellation.may_cancel() && message@ == stopped()
                        ||| plan_failure(track@, clips) == Some(message@)
                    },
                }
            }),
    {
        let ghost clips = value::views(frames@);
        let list: Vec<u64> = match room {
            Some(list) => list,
            None => return Err("Could not allocate frame-start index.".to_owned()),
        };
        let bounds = frame_bounds(list, frames, cancellation)?;
        let nothing: Vec<TimelineSpan> = Vec::new();
        let scopes = match &track.annotation_scope {
            Some(scopes) => scopes,
            None => &nothing,
        };
        assert(scopes@ =~= known_scope(track@));
        let mut cells = plan_scopes(scopes, frames, &bounds, cancellation)?;
        assert(planned(cells@, track@, 0, clips)) by {
            assert forall|i: int| 0 <= i < cells@.len() implies (#[trigger] cells@[i]).items@
                == items_of(track@.items, 0, clips, i) by {
                assert(cells@[i].items@ =~= Seq::empty());
            }
        }
        plan_marks(track, &mut cells, &bounds, Ghost(clips), cancellation)?;
        let count: usize = track.items.len();
        assert(plan_fits(cells@, count as int)) by {
            assert forall|i: int, k: int|
                0 <= i < cells@.len() && 0 <= k < cells@[i].items@.len() implies (
            #[trigger] cells@[i].items@[k]) < count by {
                assert(cells@[i].items@ == items_of(track@.items, count as int, clips, i));
                lemma_items_exist(track@.items, count as int, clips, i);
            }
        }
        Ok(ConversionPlan { bounds, cells })
    }
}

/// The start of every frame and the end of the last.
fn frame_bounds<C: CancellationToken>(room: Vec<u64>, frames: &Vec<FrameClip>, cancellation: &C) -> (result: Result<
    Vec<u64>,
    String,
>)
    requires
        room@.len() == 0,
    ensures
        ({
            let clips = value::views(frames@);
            match result {
                Ok(bounds) => {
                    &&& cancellation.must_cancel() ==> clips.len() == 0
                    &&& are_bounds(bounds@, clips)
                    &&& frames::clock(clips, clips.len() as int) <= u64::MAX
                },
                Err(message) => {
                    ||| cancellation.may_cancel() && message@ == stopped()
                    ||| frames::clock(clips, clips.len() as int) > u64::MAX && message@
                        == "Timeline duration overflow."@
                },
            }
        }),
{
    let ghost clips = value::views(frames@);
    let mut bounds: Vec<u64> = room;
    let mut start: u64 = 0;
    bounds.push(0);
    let mut index: usize = 0;
    while index < frames.len()
        invariant
            index <= frames.len(),
            clips == value::views(frames@),
            start == frames::clock(clips, index as int),
            bounds@.len() == index + 1,
            forall|i: int| 0 <= i <= index ==> #[trigger] bounds@[i] == frames::clock(clips, i),
            cancellation.must_cancel() ==> index == 0,
        decreases frames.len() - index,
    {
        check_cancelled(cancellation)?;
        match start.checked_add(frames[index].duration.get()) {
            Some(end) => {
                start = end;
            },
            None => {
                proof {
                    frames::lemma_clock_grows(clips, index + 1, clips.len() as int);
                }
                return Err("Timeline duration overflow.".to_owned());
            },
        }
        bounds.push(start);
        index += 1;
    }
    Ok(bounds)
}

/// As many empty plans as there are frames.
fn empty_cells(count: usize) -> (cells: Vec<CellPlan>)
    ensures
        cells@.len() == count,
        forall|i: int|
            0 <= i < count ==> (#[trigger] cells@[i]).scopes@.len() == 0 && cells@[i].items@.len()
                == 0,
{
    let mut cells: Vec<CellPlan> = Vec::with_capacity(count);
    while cells.len() < count
        invariant
            cells@.len() <= count,
            forall|i: int|
                0 <= i < cells@.len() ==> (#[trigger] cells@[i]).scopes@.len() == 0
                    && cells@[i].items@.len() == 0,
        decreases count - cells@.len(),
    {
        cells.push(CellPlan { scopes: Vec::new(), items: Vec::new() });
    }
    cells
}

/// Adds a part to what authoring covers of the frame at `index`.
fn push_scope(cells: &mut Vec<CellPlan>, index: usize, part: FrameAuthoringSpan)
    requires
        index < old(cells)@.len(),
    ensures
        final(cells)@.len() == old(cells)@.len(),
        forall|i: int|
            0 <= i < old(cells)@.len() && i != index ==> #[trigger] final(cells)@[i] == old(
                cells,
            )@[i],
        final(cells)@[index as int].scopes@ == old(cells)@[index as int].scopes@.push(part),
        final(cells)@[index as int].items@ == old(cells)@[index as int].items@,
{
    cells[index].scopes.push(part);
}

/// Adds an item to those painted on the frame at `index`.
fn push_item(cells: &mut Vec<CellPlan>, index: usize, item: usize)
    requires
        index < old(cells)@.len(),
    ensures
        final(cells)@.len() == old(cells)@.len(),
        forall|i: int|
            0 <= i < old(cells)@.len() && i != index ==> #[trigger] final(cells)@[i] == old(
                cells,
            )@[i],
        final(cells)@[index as int].items@ == old(cells)@[index as int].items@.push(item),
        final(cells)@[index as int].scopes@ == old(cells)@[index as int].scopes@,
{
    cells[index].items.push(item);
}

/// A failure among the scopes is the failure of all of them.
proof fn lemma_scopes_stay_failed(
    scopes: Seq<TimelineSpan>,
    failed: int,
    count: int,
    frames: Seq<FrameView>,
)
    requires
        failed <= count,
        scope_failure(scopes, failed, frames) is Some,
    ensures
        scope_failure(scopes, count, frames) == scope_failure(scopes, failed, frames),
    decreases count,
{
    if failed < count {
        lemma_scopes_stay_failed(scopes, failed, count - 1, frames);
    }
}

/// A failure among the items is the failure of all of them.
proof fn lemma_marks_stay_failed(track: TrackView, failed: int, count: int, frames: Seq<FrameView>)
    requires
        failed <= count,
        mark_failure(track, failed, frames) is Some,
    ensures
        mark_failure(track, count, frames) == mark_failure(track, failed, frames),
    decreases count,
{
    if failed < count {
        lemma_marks_stay_failed(track, failed, count - 1, frames);
    }
}

/// Divides the spans that authoring covered among the frames.
fn plan_scopes<C: CancellationToken>(
    scopes: &Vec<TimelineSpan>,
    frames: &Vec<FrameClip>,
    bounds: &Vec<u64>,
    cancellation: &C,
) -> (result: Result<Vec<CellPlan>, String>)
    requires
        are_bounds(bounds@, value::views(frames@)),
    ensures
        ({
            let clips = value::views(frames@);
            let failure = scope_failure(scopes@, scopes@.len() as int, clips);
            match result {
                Ok(cells) => {
                    &&& failure is None
                    &&& cells@.len() == clips.len()
                    &&& forall|i: int|
                        0 <= i < cells@.len() ==> {
                            &&& (#[trigger] cells@[i]).scopes@ == scopes_of(
                                scopes@,
                                scopes@.len() as int,
                                clips,
                                i,
                            )
                            &&& cells@[i].items@.len() == 0
                        }
                    &&& present_count(cells@, cells@.len() as int) <= MAX_FRAME_OVERLAY_CELLS
                },
                Err(message) => {
                    ||| cancellation.may_cancel() && message@ == stopped()
                    ||| failure == Some(message@)
                },
            }
        }),
{
    let ghost clips = value::views(frames@);
    let mut cells = empty_cells(frames.len());
    proof {
        lemma_nothing_present(cells@, cells@.len() as int);
    }
    let mut run_id: u32 = 0;
    let mut fragments: usize = 0;
    let mut index: usize = 0;
    while index < scopes.len()
        invariant
            index <= scopes.len(),
            clips == value::views(frames@),
            are_bounds(bounds@, clips),
            cells@.len() == clips.len(),
            scope_failure(scopes@, index as int, clips) is None,
            fragments == scope_pieces(scopes@, index as int, clips),
            fragments <= MAX_ANNOTATION_SCOPE_SPANS,
            present_count(cells@, cells@.len() as int) <= fragments,
            index > 0 ==> run_id == run_of(scopes@, index - 1),
            index > 0 ==> scopes@[index - 1].hi() <= u64::MAX,
            index == 0 ==> run_id == 0,
            forall|i: int|
                0 <= i < cells@.len() ==> {
                    &&& (#[trigger] cells@[i]).scopes@ == scopes_of(
                        scopes@,
                        index as int,
                        clips,
                        i,
                    )
                    &&& cells@[i].items@.len() == 0
                },
        decreases scopes.len() - index,
    {
        check_cancelled(cancellation)?;
        let scope = scopes[index];
        let left: u64 = scope.start.get();
        let right: u64 = match scope.end() {
            Some(end) => end.get(),
            None => {
                proof {
                    lemma_scopes_stay_failed(scopes@, index + 1, scopes@.len() as int, clips);
                }
                return Err("Authoring scope duration overflow.".to_owned());
            },
        };
        let new_run = if index == 0 {
            true
        } else {
            match scopes[index - 1].end() {
                Some(end) => left > end.get(),
                None => true,
            }
        };
        if new_run {
            match run_id.checked_add(1) {
                Some(next) => {
                    run_id = next;
                },
                None => {
                    proof {
                        lemma_scopes_stay_failed(scopes@, index + 1, scopes@.len() as int, clips);
                    }
                    return Err("Authoring run identity overflow.".to_owned());
                },
            }
        }
        assert(run_id == run_of(scopes@, index as int));
        let first: usize = count_ended(bounds, left, Ghost(clips));
        let end: usize = count_started(bounds, right, Ghost(clips));
        assert(first <= end) by {
            if end < first {
                assert(frames::clock(clips, end as int) >= right);
                assert(frames::clock(clips, end + 1) <= left);
                frames::lemma_clock_grows(clips, end as int, end + 1);
            }
        }
        if end - first > MAX_ANNOTATION_SCOPE_SPANS - fragments {
            proof {
                lemma_scopes_stay_failed(scopes@, index + 1, scopes@.len() as int, clips);
            }
            return Err("Conversion exceeds 40,000 authoring scope fragments.".to_owned());
        }
        let ghost earlier = fragments as int;
        fragments = fragments + (end - first);
        assert forall|i: int| 0 <= i < clips.len() implies meets(scope, clips, i) == (first <= i
            < end) by {
            assert(i < first <==> frames::clock(clips, i + 1) <= left);
            assert(i < end <==> frames::clock(clips, i) < right);
        }
        let ghost before = cells@;
        let mut at: usize = first;
        while at < end
            invariant
                first <= at <= end <= clips.len(),
                clips == value::views(frames@),
                are_bounds(bounds@, clips),
                index < scopes.len(),
                scope == scopes@[index as int],
                left == scope.lo(),
                right == scope.hi(),
                left < right,
                run_id == run_of(scopes@, index as int),
                cells@.len() == clips.len() == before.len(),
                present_count(cells@, cells@.len() as int) <= earlier + (at - first),
                forall|i: int|
                    0 <= i < clips.len() ==> (meets(scope, clips, i) == (first <= i < end)),
                forall|i: int|
                    0 <= i < before.len() ==> {
                        &&& (#[trigger] before[i]).scopes@ == scopes_of(
                            scopes@,
                            index as int,
                            clips,
                            i,
                        )
                        &&& before[i].items@.len() == 0
                    },
                forall|i: int|
                    first <= i < at ==> {
                        &&& (#[trigger] cells@[i]).scopes@ == scopes_of(
                            scopes@,
                            index + 1,
                            clips,
                            i,
                        )
                        &&& cells@[i].items@.len() == 0
                    },
                forall|i: int|
                    0 <= i < clips.len() && !(first <= i < at) ==> #[trigger] cells@[i] == before[i],
            decreases end - at,
        {
            check_cancelled(cancellation)?;
            let start: u64 = bounds[at];
            let stop: u64 = bounds[at + 1];
            assert(meets(scope, clips, at as int));
            let low: u64 = if left < start {
                start
            } else {
                left
            };
            let high: u64 = if right < stop {
                right
            } else {
                stop
            };
            assert(clips[at as int] == frames@[at as int]@);
            let duration = frames[at].duration;
            let length: u64 = duration.get();
            let local = match FrameLocalSpan::new(low - start, high - start, duration) {
                Some(local) => local,
                None => {
                    assert(false);
                    return Err("Invalid frame-local authoring intersection.".to_owned());
                },
            };
            assert(local == local_part(scope, clips, at as int));
            assert(cells@[at as int] == before[at as int]);
            let ghost shape = cells@;
            push_scope(&mut cells, at, FrameAuthoringSpan { run_id, span: local });
            proof {
                lemma_present_update(shape, cells@, at as int, cells@.len() as int);
            }
            at += 1;
        }
        assert forall|i: int| 0 <= i < cells@.len() implies {
            &&& (#[trigger] cells@[i]).scopes@ == scopes_of(scopes@, index + 1, clips, i)
            &&& cells@[i].items@.len() == 0
        } by {
            if !(first <= i < end) {
                assert(cells@[i] == before[i]);
                assert(!meets(scope, clips, i));
            }
        }
        index += 1;
    }
    Ok(cells)
}

/// The number of plans that own anything once every scope has been divided.
fn count_present(cells: &Vec<CellPlan>) -> (count: usize)
    ensures
        count == present_count(cells@, cells@.len() as int),
{
    let mut count: usize = 0;
    let mut index: usize = 0;
    while index < cells.len()
        invariant
            index <= cells.len(),
            count == present_count(cells@, index as int),
            count <= index,
        decreases cells.len() - index,
    {
        if cells[index].scopes.len() > 0 || cells[index].items.len() > 0 {
            count += 1;
        }
        index += 1;
    }
    count
}

/// Places the items of a layer on the frames they are shown on.
fn plan_marks<C: CancellationToken>(
    track: &OverlayTrack,
    cells: &mut Vec<CellPlan>,
    bounds: &Vec<u64>,
    Ghost(clips): Ghost<Seq<FrameView>>,
    cancellation: &C,
) -> (result: Result<(), String>)
    requires
        are_bounds(bounds@, clips),
        planned(old(cells)@, track@, 0, clips),
        present_count(old(cells)@, old(cells)@.len() as int) <= MAX_FRAME_OVERLAY_CELLS,
    ensures
        ({
            let failure = mark_failure(track@, track@.items.len() as int, clips);
            match result {
                Ok(_) => {
                    &&& failure is None
                    &&& planned(final(cells)@, track@, track@.items.len() as int, clips)
                },
                Err(message) => {
                    ||| cancellation.may_cancel() && message@ == stopped()
                    ||| failure == Some(message@)
                },
            }
        }),
{
    let ghost view = track@;
    let ghost scope = known_scope(view);
    let mut marks: usize = 0;
    let mut present: usize = count_present(cells);
    let annotated = track.annotation.is_some();
    let mut index: usize = 0;
    while index < track.items.len()
        invariant
            index <= track.items.len(),
            view == track@,
            scope == known_scope(view),
            annotated == (view.annotation is Some),
            are_bounds(bounds@, clips),
            planned(cells@, view, index as int, clips),
            present == present_count(cells@, cells@.len() as int),
            present <= MAX_FRAME_OVERLAY_CELLS,
            mark_failure(view, index as int, clips) is None,
            marks == mark_count(view.items, index as int, clips),
            marks <= MAX_FRAME_OVERLAY_MARKS,
        decreases track.items.len() - index,
    {
        check_cancelled(cancellation)?;
        let span = track.items[index].span;
        assert(view.items[index as int] == track.items@[index as int]@);
        let ghost item = view.items[index as int];
        let end_time: u64 = match span.end() {
            Some(end) => end.get(),
            None => {
                proof {
                    lemma_marks_stay_failed(view, index + 1, view.items.len() as int, clips);
                }
                return Err("Overlay duration overflow.".to_owned());
            },
        };
        let first: usize = count_started(bounds, span.start.get(), Ghost(clips));
        let end: usize = count_started(bounds, end_time, Ghost(clips));
        assert(first <= end) by {
            if end < first {
                assert(frames::clock(clips, end as int) >= end_time);
                assert(frames::clock(clips, end as int) < span.start.us);
            }
        }
        if end - first > MAX_FRAME_OVERLAY_MARKS - marks {
            proof {
                lemma_marks_stay_failed(view, index + 1, view.items.len() as int, clips);
            }
            return Err("Conversion exceeds 100,000 frozen marks.".to_owned());
        }
        marks = marks + (end - first);
        assert forall|i: int| 0 <= i < clips.len() implies sampled(item, clips, i) == (first <= i
            < end) by {
            assert(i < first <==> frames::clock(clips, i) < span.start.us);
            assert(i < end <==> frames::clock(clips, i) < end_time);
        }
        let ghost before = cells@;
        let mut at: usize = first;
        while at < end
            invariant
                first <= at <= end <= clips.len(),
                index < track.items.len(),
                view == track@,
                scope == known_scope(view),
                item == view.items[index as int],
                annotated == (view.annotation is Some),
                are_bounds(bounds@, clips),
                planned(before, view, index as int, clips),
                cells@.len() == clips.len(),
                present == present_count(cells@, cells@.len() as int),
                present <= MAX_FRAME_OVERLAY_CELLS,
                mark_failure(view, index as int, clips) is None,
                item.span.hi() <= u64::MAX,
                mark_count(view.items, index + 1, clips) <= MAX_FRAME_OVERLAY_MARKS,
                annotated ==> forall|i: int|
                    first <= i < at ==> scopes_of(scope, scope.len() as int, clips, i).len() > 0,
                forall|i: int|
                    0 <= i < clips.len() ==> (sampled(item, clips, i) == (first <= i < end)),
                forall|i: int|
                    first <= i < at ==> {
                        &&& (#[trigger] cells@[i]).scopes@ == scopes_of(
                            scope,
                            scope.len() as int,
                            clips,
                            i,
                        )
                        &&& cells@[i].items@ == items_of(view.items, index + 1, clips, i)
                    },
                forall|i: int|
                    0 <= i < clips.len() && !(first <= i < at) ==> #[trigger] cells@[i] == before[i],
            decreases end - at,
        {
            check_cancelled(cancellation)?;
            assert(cells@[at as int] == before[at as int]);
            assert(sampled(item, clips, at as int));
            if annotated && cells[at].scopes.len() == 0 {
                proof {
                    assert(uncovered(view, item, clips));
                    lemma_marks_stay_failed(view, index + 1, view.items.len() as int, clips);
                }
                return Err(
                    "An annotation mark has no original authoring coverage on its owner frame; conversion cannot invent a scope.".to_owned(),
                );
            }
            let new_owner = cells[at].scopes.len() == 0 && cells[at].items.len() == 0;
            let ghost shape = cells@;
            if new_owner && present >= MAX_FRAME_OVERLAY_CELLS {
                proof {
                    assert forall|i: int|
                        0 <= i < shape.len() && (#[trigger] shape[i]).present() implies owns(
                        view,
                        index + 1,
                        clips,
                        i,
                    ) by {
                        if !(first <= i < at) {
                            assert(shape[i] == before[i]);
                        }
                    }
                    lemma_present_strictly_bounded(
                        shape,
                        view,
                        index + 1,
                        clips,
                        clips.len() as int,
                        at as int,
                    );
                    assert(!annotated || !uncovered(view, item, clips));
                    lemma_marks_stay_failed(view, index + 1, view.items.len() as int, clips);
                }
                return Err("Conversion exceeds 40,000 owner frames.".to_owned());
            }
            push_item(cells, at, index);
            proof {
                lemma_present_update(shape, cells@, at as int, cells@.len() as int);
                lemma_present_update(cells@, cells@, at as int, cells@.len() as int);
            }
            if new_owner {
                present += 1;
            }
            at += 1;
        }
        proof {
            assert forall|i: int| 0 <= i < cells@.len() implies {
                &&& (#[trigger] cells@[i]).scopes@ == scopes_of(
                    scope,
                    scope.len() as int,
                    clips,
                    i,
                )
                &&& cells@[i].items@ == items_of(view.items, index + 1, clips, i)
            } by {
                if !(first <= i < end) {
                    assert(cells@[i] == before[i]);
                    assert(!sampled(item, clips, i));
                }
            }
            assert(planned(cells@, view, index + 1, clips));
            lemma_present_exact(cells@, view, index + 1, clips, clips.len() as int);
            if annotated && uncovered(view, item, clips) {
                let i = choose|i: int|
                    0 <= i < clips.len() && #[trigger] sampled(item, clips, i) && scopes_of(
                        scope,
                        scope.len() as int,
                        clips,
                        i,
                    ).len() == 0;
                assert(first <= i < end);
            }
        }
        index += 1;
    }
    Ok(())
}

/// The items of a frame, among the first `count`, are those that are shown when it starts, in
/// their order.
proof fn lemma_items_are_the_sampled(items: Seq<ItemView>, count: int, frames: Seq<FrameView>, index: int, k: int)
    requires
        0 <= count <= items.len() <= usize::MAX,
        0 <= k < items.len(),
    ensures
        ({
            let of = items_of(items, count, frames, index);
            &&& of.contains(k as usize) <==> k < count && sampled(items[k], frames, index)
            &&& forall|i: int| 0 <= i < of.len() ==> #[trigger] of[i] < count
            &&& forall|i: int, j: int| 0 <= i < j < of.len() ==> #[trigger] of[i] < #[trigger] of[j]
        }),
    decreases count,
{
    if count > 0 {
        lemma_items_are_the_sampled(items, count - 1, frames, index, k);
        let before = items_of(items, count - 1, frames, index);
        let of = items_of(items, count, frames, index);
        if sampled(items[count - 1], frames, index) {
            assert(of == before.push((count - 1) as usize));
            if k == count - 1 {
                assert(of[before.len() as int] == k);
            } else if before.contains(k as usize) {
                let at = choose|at: int| 0 <= at < before.len() && before[at] == k as usize;
                assert(of[at] == k as usize);
            }
            if of.contains(k as usize) {
                let at = choose|at: int| 0 <= at < of.len() && of[at] == k as usize;
                if at < before.len() {
                    assert(before[at] == k as usize);
                }
            }
        }
    }
}

/// A frame gets a mark of exactly those items that were shown when it started, in the order in
/// which the layer has them.
pub proof fn law_a_frame_owns_what_it_showed(
    plan: ConversionPlan,
    track: TrackView,
    frames: Seq<FrameView>,
    index: int,
    k: int,
)
    requires
        plan.plans(track, frames),
        track.items.len() <= usize::MAX,
        0 <= index < frames.len(),
        0 <= k < track.items.len(),
    ensures
        plan.cells@[index].items@.contains(k as usize) <==> track.items[k].span.covers(
            frames::clock(frames, index),
        ),
        forall|i: int, j: int|
            0 <= i < j < plan.cells@[index].items@.len() ==> #[trigger] plan.cells@[index].items@[i]
                < #[trigger] plan.cells@[index].items@[j],
{
    lemma_items_are_the_sampled(track.items, track.items.len() as int, frames, index, k);
}

/// Whether one of the parts of a frame covers a time after its start.
pub open spec fn part_covers(parts: Seq<FrameAuthoringSpan>, after: int) -> bool {
    exists|i: int| 0 <= i < parts.len() && (#[trigger] parts[i]).span.start <= after < parts[i].span.end
}

/// Whether one of the first `count` spans covers a time.
pub open spec fn span_covers(spans: Seq<TimelineSpan>, count: int, time: int) -> bool {
    exists|j: int| 0 <= j < count && (#[trigger] spans[j]).covers(time)
}

/// What the first `count` scopes cover of a frame is what its parts cover.
proof fn lemma_parts_cover(scopes: Seq<TimelineSpan>, count: int, frames: Seq<FrameView>, index: int, time: int)
    requires
        0 <= count <= scopes.len(),
        0 <= index < frames.len(),
        0 <= frames::clock(frames, index) <= time < frames::clock(frames, index + 1) <= u64::MAX,
    ensures
        part_covers(scopes_of(scopes, count, frames, index), time - frames::clock(frames, index))
            <==> span_covers(scopes, count, time),
    decreases count,
{
    if count > 0 {
        lemma_parts_cover(scopes, count - 1, frames, index, time);
        let start = frames::clock(frames, index);
        let before = scopes_of(scopes, count - 1, frames, index);
        let parts = scopes_of(scopes, count, frames, index);
        let last = scopes[count - 1];
        if part_covers(before, time - start) {
            let i = choose|i: int|
                0 <= i < before.len() && (#[trigger] before[i]).span.start <= time - start < before[i].span.end;
            assert(parts[i] == before[i]);
        }
        if span_covers(scopes, count - 1, time) {
            let j = choose|j: int| 0 <= j < count - 1 && (#[trigger] scopes[j]).covers(time);
            assert(scopes[j].covers(time));
        }
        if last.covers(time) {
            assert(meets(last, frames, index));
            assert(parts[before.len() as int].span == local_part(last, frames, index));
            assert(span_covers(scopes, count, time));
        }
        if part_covers(parts, time - start) {
            let i = choose|i: int|
                0 <= i < parts.len() && (#[trigger] parts[i]).span.start <= time - start < parts[i].span.end;
            if i < before.len() {
                assert(before[i] == parts[i]);
            } else {
                assert(parts[i].span == local_part(last, frames, index));
                assert(last.covers(time));
            }
        }
        if span_covers(scopes, count, time) && !last.covers(time) {
            let j = choose|j: int| 0 <= j < count && (#[trigger] scopes[j]).covers(time);
            assert(j < count - 1);
            assert(span_covers(scopes, count - 1, time));
        }
    }
}

/// The scopes of a layer are divided among the frames without loss: at every time of a frame,
/// the parts that the frame gets cover it exactly where a scope of the layer did.
pub proof fn law_scopes_are_divided_without_loss(
    plan: ConversionPlan,
    track: TrackView,
    frames: Seq<FrameView>,
    index: int,
    time: int,
)
    requires
        plan.plans(track, frames),
        0 <= index < frames.len(),
        frames::clock(frames, index) <= time < frames::clock(frames, index + 1),
    ensures
        part_covers(plan.cells@[index].scopes@, time - frames::clock(frames, index)) <==> span_covers(
            known_scope(track),
            known_scope(track).len() as int,
            time,
        ),
{
    assert(plan.bounds@[index] == frames::clock(frames, index));
    assert(plan.bounds@[index + 1] == frames::clock(frames, index + 1));
    lemma_parts_cover(known_scope(track), known_scope(track).len() as int, frames, index, time);
}

proof fn lemma_clock_in_order(frames: Seq<FrameView>, less: int, more: int)
    requires
        0 <= less <= more <= frames.len(),
    ensures
        frames::clock(frames, less) <= frames::clock(frames, more),
{
    frames::lemma_clock_grows(frames, less, more);
}

proof fn lemma_ended_exactly(frames: Seq<FrameView>, time: int, count: int)
    requires
        0 <= count <= frames.len(),
    ensures
        0 <= ended(frames, time, count) <= count,
        forall|k: int|
            0 <= k < count ==> (k < ended(frames, time, count) <==> #[trigger] frames::clock(frames, k + 1) <= time),
    decreases count,
{
    if count > 0 {
        lemma_ended_exactly(frames, time, count - 1);
        let before = ended(frames, time, count - 1);
        if frames::clock(frames, count) <= time {
            if before < count - 1 {
                lemma_clock_in_order(frames, before + 1, count);
                assert(frames::clock(frames, before + 1) <= time);
            }
            assert forall|k: int| 0 <= k < count implies (k < ended(frames, time, count) <==> #[trigger] frames::clock(
                frames,
                k + 1,
            ) <= time) by {
                lemma_clock_in_order(frames, k + 1, count);
            }
        }
    }
}

proof fn lemma_started_exactly(frames: Seq<FrameView>, time: int, count: int)
    requires
        0 <= count <= frames.len(),
    ensures
        0 <= started(frames, time, count) <= count,
        forall|k: int|
            0 <= k < count ==> (k < started(frames, time, count) <==> #[trigger] frames::clock(frames, k) < time),
    decreases count,
{
    if count > 0 {
        lemma_started_exactly(frames, time, count - 1);
        let before = started(frames, time, count - 1);
        if frames::clock(frames, count - 1) < time {
            if before < count - 1 {
                lemma_clock_in_order(frames, before, count - 1);
                assert(frames::clock(frames, before) < time);
            }
            assert forall|k: int| 0 <= k < count implies (k < started(frames, time, count) <==> #[trigger] frames::clock(
                frames,
                k,
            ) < time) by {
                lemma_clock_in_order(frames, k, count - 1);
            }
        }
    }
}

/// The frames that are over at a time are the first ones, those that end by then; the frames that have
/// started are the first ones too, those that begin before it.
pub proof fn law_frames_end_and_start_in_order(frames: Seq<FrameView>, time: int, k: int)
    requires
        0 <= k < frames.len(),
    ensures
        k < ended(frames, time, frames.len() as int) <==> frames::clock(frames, k + 1) <= time,
        k < started(frames, time, frames.len() as int) <==> frames::clock(frames, k) < time,
        0 <= ended(frames, time, frames.len() as int) <= frames.len(),
        0 <= started(frames, time, frames.len() as int) <= frames.len(),
{
    lemma_ended_exactly(frames, time, frames.len() as int);
    lemma_started_exactly(frames, time, frames.len() as int);
}

/// A span meets the frames that are not over when it begins and have started when it ends, and those are
/// counted.
pub proof fn law_a_span_meets_a_run_of_frames(span: TimelineSpan, frames: Seq<FrameView>, k: int)
    requires
        0 <= k < frames.len(),
    ensures
        ({
            let first = ended(frames, span.lo(), frames.len() as int);
            &&& meets(span, frames, k) <==> span.start.us < frames::clock(frames, k + 1) && frames::clock(frames, k)
                < span.start.us + span.duration@
            &&& meets(span, frames, k) <==> first <= k < first + met(span, frames)
        }),
{
    law_frames_end_and_start_in_order(frames, span.lo(), k);
    law_frames_end_and_start_in_order(frames, span.hi(), k);
}

/// An item is marked on the frames that begin while it is shown, and those are counted.
pub proof fn law_marks_are_counted_by_frame(items: Seq<ItemView>, frames: Seq<FrameView>, count: int, k: int)
    requires
        0 <= count < items.len(),
        0 <= k < frames.len(),
    ensures
        ({
            let span = items[count].span;
            let first = started(frames, span.lo(), frames.len() as int);
            let marks = mark_count(items, count + 1, frames) - mark_count(items, count, frames);
            &&& sampled(items[count], frames, k) <==> span.start.us <= frames::clock(frames, k) < span.start.us
                + span.duration@
            &&& sampled(items[count], frames, k) <==> first <= k < first + marks
        }),
        mark_count(items, 0, frames) == 0,
{
    law_frames_end_and_start_in_order(frames, items[count].span.lo(), k);
    law_frames_end_and_start_in_order(frames, items[count].span.hi(), k);
}

/// The part of a span that lies in a frame begins where both have begun and ends where one of them ends,
/// counted from the begin of the frame, and knows how long the frame is.
pub proof fn law_a_local_part_lies_in_both(span: TimelineSpan, frames: Seq<FrameView>, index: int)
    requires
        0 <= index < frames.len(),
        meets(span, frames, index),
        frames::clock(frames, index + 1) <= u64::MAX,
    ensures
        ({
            let part = local_part(span, frames, index);
            let begin = frames::clock(frames, index);
            let end = frames::clock(frames, index + 1);
            &&& begin + part.start >= begin && begin + part.start >= span.start.us
            &&& begin + part.start == begin || begin + part.start == span.start.us
            &&& begin + part.end <= end && begin + part.end <= span.start.us + span.duration@
            &&& begin + part.end == end || begin + part.end == span.start.us + span.duration@
            &&& part.whole == frames[index].duration
        }),
{
    broadcast use crate::time::lemma_duration_range;

    frames::lemma_clock_grows(frames, index, index + 1);
}

/// Scopes that touch belong to one run, and a gap begins the next; the first run is the first.
pub proof fn law_a_gap_begins_a_run(scopes: Seq<TimelineSpan>, index: int)
    requires
        0 < index < scopes.len(),
    ensures
        run_of(scopes, 0) == 1,
        run_of(scopes, index) == run_of(scopes, index - 1) <==> scopes[index].start.us <= scopes[index - 1].start.us
            + scopes[index - 1].duration@,
        run_of(scopes, index) == run_of(scopes, index - 1) || run_of(scopes, index) == run_of(scopes, index - 1) + 1,
{
}

/// The scopes of a frame are the parts of those that meet it, in order, each in its run; none that meets
/// the frame is left out. Which scope each part comes from is given back.
pub proof fn law_a_frame_has_the_scopes_that_meet_it(
    scopes: Seq<TimelineSpan>,
    count: int,
    frames: Seq<FrameView>,
    index: int,
) -> (from: Seq<int>)
    requires
        0 <= count <= scopes.len(),
        0 <= index < frames.len(),
    ensures
        ({
            let parts = scopes_of(scopes, count, frames, index);
            &&& from.len() == parts.len()
            &&& forall|i: int|
                0 <= i < from.len() ==> {
                    &&& 0 <= #[trigger] from[i] < count
                    &&& meets(scopes[from[i]], frames, index)
                    &&& parts[i].run_id == run_of(scopes, from[i]) as u32
                    &&& parts[i].span == local_part(scopes[from[i]], frames, index)
                }
            &&& forall|i: int, j: int| 0 <= i < j < from.len() ==> #[trigger] from[i] < #[trigger] from[j]
            &&& forall|s: int|
                0 <= s < count && !from.contains(s) ==> !meets(#[trigger] scopes[s], frames, index)
        }),
    decreases count,
{
    if count == 0 {
        Seq::empty()
    } else {
        let before = law_a_frame_has_the_scopes_that_meet_it(scopes, count - 1, frames, index);
        if meets(scopes[count - 1], frames, index) {
            let from = before.push(count - 1);
            let parts = scopes_of(scopes, count, frames, index);
            assert forall|i: int| 0 <= i < from.len() implies {
                &&& 0 <= #[trigger] from[i] < count
                &&& meets(scopes[from[i]], frames, index)
                &&& parts[i].run_id == run_of(scopes, from[i]) as u32
                &&& parts[i].span == local_part(scopes[from[i]], frames, index)
            } by {
                if i < before.len() {
                    assert(from[i] == before[i]);
                }
            }
            assert forall|s: int| 0 <= s < count && !from.contains(s) implies !meets(
                #[trigger] scopes[s],
                frames,
                index,
            ) by {
                assert(from[before.len() as int] == count - 1);
                if before.contains(s) {
                    let i = choose|i: int| 0 <= i < before.len() && before[i] == s;
                    assert(from[i] == s);
                }
            }
            from
        } else {
            before
        }
    }
}

proof fn lemma_scopes_pass(scopes: Seq<TimelineSpan>, count: int, frames: Seq<FrameView>)
    requires
        0 <= count <= scopes.len(),
    ensures
        scope_failure(scopes, count, frames) is None <==> forall|c: int|
            0 <= c < count ==> (#[trigger] scopes[c]).start.us + scopes[c].duration@ <= u64::MAX && run_of(scopes, c)
                <= u32::MAX && scope_pieces(scopes, c + 1, frames) <= 40_000,
    decreases count,
{
    if count > 0 {
        lemma_scopes_pass(scopes, count - 1, frames);
        let last = scopes[count - 1];
        if scope_failure(scopes, count, frames) is None {
            assert forall|c: int| 0 <= c < count implies (#[trigger] scopes[c]).start.us + scopes[c].duration@
                <= u64::MAX && run_of(scopes, c) <= u32::MAX && scope_pieces(scopes, c + 1, frames) <= 40_000 by {
                if c < count - 1 {
                    assert(scope_failure(scopes, count - 1, frames) is None);
                }
            }
        }
    }
}

proof fn lemma_marks_pass(track: TrackView, count: int, frames: Seq<FrameView>)
    requires
        0 <= count <= track.items.len(),
    ensures
        mark_failure(track, count, frames) is None <==> forall|c: int|
            0 <= c < count ==> mark_passes(track, #[trigger] track.items[c], c, frames),
    decreases count,
{
    if count > 0 {
        lemma_marks_pass(track, count - 1, frames);
        let last = track.items[count - 1];
        if mark_failure(track, count, frames) is None {
            assert forall|c: int| 0 <= c < count implies mark_passes(track, #[trigger] track.items[c], c, frames) by {
                if c < count - 1 {
                    assert(mark_failure(track, count - 1, frames) is None);
                }
            }
        }
        if forall|c: int| 0 <= c < count ==> mark_passes(track, #[trigger] track.items[c], c, frames) {
            assert(mark_passes(track, last, count - 1, frames));
        }
    }
}

/// Whether an item can be converted after those before it: its time can be written, there are at most
/// 100,000 marks and 40,000 owner frames with it, and, on an annotation layer, every frame that it marks
/// has a scope.
pub open spec fn mark_passes(track: TrackView, item: ItemView, at: int, frames: Seq<FrameView>) -> bool {
    let scope = known_scope(track);
    &&& item.span.start.us + item.span.duration@ <= u64::MAX
    &&& mark_count(track.items, at + 1, frames) <= 100_000
    &&& owner_count(track, at + 1, frames, frames.len() as int) <= 40_000
    &&& track.annotation is Some ==> forall|f: int|
        0 <= f < frames.len() && #[trigger] sampled(item, frames, f) ==> scopes_of(
            scope,
            scope.len() as int,
            frames,
            f,
        ).len() > 0
}

/// A layer can be converted exactly where the timeline can be timed, every scope can be written, is in a
/// run that can be numbered and makes, with those before it, at most 40,000 parts, and every item passes.
pub proof fn law_what_conversions_can_be_planned(track: TrackView, frames: Seq<FrameView>)
    ensures
        plan_failure(track, frames) is None <==> {
            let scope = known_scope(track);
            &&& frames::clock(frames, frames.len() as int) <= u64::MAX
            &&& forall|c: int|
                0 <= c < scope.len() ==> (#[trigger] scope[c]).start.us + scope[c].duration@ <= u64::MAX && run_of(
                    scope,
                    c,
                ) <= u32::MAX && scope_pieces(scope, c + 1, frames) <= 40_000
            &&& forall|c: int|
                0 <= c < track.items.len() ==> mark_passes(track, #[trigger] track.items[c], c, frames)
        },
{
    let scope = known_scope(track);
    lemma_scopes_pass(scope, scope.len() as int, frames);
    lemma_marks_pass(track, track.items.len() as int, frames);
}

/// Parts of scopes are counted one scope after another, and owners one frame after another: a frame is an
/// owner where a scope meets it or an item is marked on it.
pub proof fn law_parts_and_owners_are_counted(
    scopes: Seq<TimelineSpan>,
    track: TrackView,
    count: int,
    frames: Seq<FrameView>,
    at: int,
)
    requires
        0 <= count <= track.items.len(),
        0 <= at < frames.len(),
    ensures
        at < scopes.len() ==> scope_pieces(scopes, at + 1, frames) == scope_pieces(scopes, at, frames) + met(
            scopes[at],
            frames,
        ),
        scope_pieces(scopes, 0, frames) == 0,
        owner_count(track, count, frames, at + 1) - owner_count(track, count, frames, at) == (if (exists|s: int|
            0 <= s < known_scope(track).len() && meets(#[trigger] known_scope(track)[s], frames, at)) || (exists|i: int|
            0 <= i < count && sampled(#[trigger] track.items[i], frames, at)) {
            1int
        } else {
            0
        }),
        owner_count(track, count, frames, 0) == 0,
{
    let scope = known_scope(track);
    let from = law_a_frame_has_the_scopes_that_meet_it(scope, scope.len() as int, frames, at);
    let parts = scopes_of(scope, scope.len() as int, frames, at);
    if parts.len() > 0 {
        assert(meets(scope[from[0]], frames, at));
    } else {
        assert forall|s: int| 0 <= s < scope.len() implies !meets(#[trigger] scope[s], frames, at) by {
            assert(!from.contains(s));
        }
    }
    lemma_items_are_some(track.items, count, frames, at);
}

proof fn lemma_items_are_some(items: Seq<ItemView>, count: int, frames: Seq<FrameView>, index: int)
    requires
        0 <= count <= items.len(),
    ensures
        items_of(items, count, frames, index).len() > 0 <==> exists|i: int|
            0 <= i < count && sampled(#[trigger] items[i], frames, index),
    decreases count,
{
    if count > 0 {
        lemma_items_are_some(items, count - 1, frames, index);
        if sampled(items[count - 1], frames, index) {
            assert(sampled(items[count - 1], frames, index));
        } else if exists|i: int| 0 <= i < count && sampled(#[trigger] items[i], frames, index) {
            let i = choose|i: int| 0 <= i < count && sampled(#[trigger] items[i], frames, index);
            assert(i < count - 1);
        }
    }
}

} // verus!
