//! Making room on the timeline for inserted frames.
use vstd::prelude::*;
use crate::content::ContentView;
use crate::identity;
use crate::identity::draw;
use crate::ids::{FrameId, OverlayId};
use crate::overlay::{ItemView, OverlayItem, OverlayTrack, TrackView};
use crate::project::Transition;
use crate::spans;
use crate::spans::DerivedScope;
use crate::time::{DurationUs, TimelineSpan};
use crate::value;
use crate::value::{copy_all, Value};

verus! {

/// An item once `length` microseconds are inserted at `start`: what comes after is
/// moved, and an item that crosses `start` is split, so that nothing of it shows
/// during the inserted time. Nothing is given where the moved start cannot be
/// represented.
pub open spec fn shift_item(item: ItemView, start: int, length: int, id: u128) -> Option<
    Seq<ItemView>,
> {
    let lo = item.span.lo();
    let hi = item.span.hi();
    if hi > u64::MAX {
        None
    } else if hi <= start {
        Some(seq![item])
    } else if lo < start {
        if start + length > u64::MAX {
            None
        } else {
            Some(
                seq![
                    ItemView { span: TimelineSpan::from_bounds(lo, start), ..item },
                    ItemView {
                        id: OverlayId { value: id },
                        span: TimelineSpan::from_bounds(start + length, hi + length),
                        ..item
                    },
                ],
            )
        }
    } else if lo + length > u64::MAX {
        None
    } else {
        Some(seq![ItemView { span: TimelineSpan::from_bounds(lo + length, hi + length), ..item }])
    }
}

/// The first `count` items once `length` microseconds are inserted at `start`.
pub open spec fn shift_items(
    items: Seq<ItemView>,
    count: int,
    start: int,
    length: int,
    ids: Seq<u128>,
) -> Option<Seq<ItemView>>
    decreases count,
{
    if count <= 0 {
        Some(Seq::empty())
    } else {
        match (
            shift_items(items, count - 1, start, length, ids),
            shift_item(items[count - 1], start, length, ids[count - 1]),
        ) {
            (Some(before), Some(pieces)) => Some(before + pieces),
            _ => None,
        }
    }
}

/// Items that cannot be moved stay so.
proof fn lemma_shift_stays_failed(
    items: Seq<ItemView>,
    failed: int,
    count: int,
    start: int,
    length: int,
    ids: Seq<u128>,
)
    requires
        failed <= count,
        shift_items(items, failed, start, length, ids) is None,
    ensures
        shift_items(items, count, start, length, ids) is None,
    decreases count,
{
    if failed < count {
        lemma_shift_stays_failed(items, failed, count - 1, start, length, ids);
    }
}

/// Moves the items to make room for `duration` at `start`. The second half of the
/// item at `i` that is split, if it is, takes the identity `ids[i]`.
pub fn exclude_inserted_title(
    items: &Vec<OverlayItem>,
    start: u64,
    duration: DurationUs,
    ids: &Vec<u128>,
) -> (shifted: Option<Vec<OverlayItem>>)
    requires
        ids@.len() == items@.len(),
    ensures
        ({
            let all = value::views(items@);
            let wanted = shift_items(all, all.len() as int, start as int, duration@, ids@);
            match shifted {
                Some(list) => wanted == Some(value::views(list@)),
                None => wanted is None,
            }
        }),
{
    broadcast use crate::time::lemma_duration_range;

    let ghost all = value::views(items@);
    let mut shifted: Vec<OverlayItem> = Vec::new();
    let mut index: usize = 0;
    assert(value::views(shifted@) =~= Seq::empty());
    while index < items.len()
        invariant
            index <= items.len(),
            ids@.len() == items@.len(),
            all == value::views(items@),
            shift_items(all, index as int, start as int, duration@, ids@) == Some(
                value::views(shifted@),
            ),
        decreases items.len() - index,
    {
        let original = &items[index];
        let ghost before = value::views(shifted@);
        let ghost pieces = shift_item(
            all[index as int],
            start as int,
            duration@,
            ids@[index as int],
        );
        assert(all[index as int] == original@);
        let end: u64 = match original.span.end() {
            Some(end) => end.get(),
            None => {
                proof {
                    lemma_shift_stays_failed(
                        all,
                        index + 1,
                        all.len() as int,
                        start as int,
                        duration@,
                        ids@,
                    );
                }
                return None;
            },
        };
        if end <= start {
            shifted.push(original.duplicate());
            assert(value::views(shifted@) =~= before + pieces->0);
            index += 1;
            continue;
        }
        let mut item = original.duplicate();
        if original.span.start.get() < start {
            item.span = TimelineSpan::between(original.span.start.get(), start);
            shifted.push(item);
            item = original.duplicate();
            item.id = OverlayId { value: ids[index] };
            item.span = TimelineSpan::between(start, end);
        }
        let ghost half = item.span;
        match item.span.start.checked_add_duration(duration) {
            Some(moved) => {
                item.span.start = moved;
            },
            None => {
                proof {
                    lemma_shift_stays_failed(
                        all,
                        index + 1,
                        all.len() as int,
                        start as int,
                        duration@,
                        ids@,
                    );
                }
                return None;
            },
        }
        proof {
            crate::time::lemma_span_by_bounds(item.span);
            assert(item.span.lo() == half.lo() + duration@);
            assert(item.span.hi() == half.hi() + duration@);
        }
        shifted.push(item);
        assert(value::views(shifted@) =~= before + pieces->0);
        index += 1;
    }
    Some(shifted)
}

/// `count` random identities.
pub fn draw_many(count: usize) -> (ids: Vec<u128>)
    ensures
        ids@.len() == count,
        forall|i: int| 0 <= i < count ==> identity::is_random_uuid(#[trigger] ids@[i]),
{
    let mut ids: Vec<u128> = Vec::with_capacity(count);
    while ids.len() < count
        invariant
            ids@.len() <= count,
            forall|i: int| 0 <= i < ids@.len() ==> identity::is_random_uuid(#[trigger] ids@[i]),
        decreases count - ids@.len(),
    {
        ids.push(draw());
    }
    ids
}

/// Whether an item paints at the microsecond `at`.
pub open spec fn shown(items: Seq<ItemView>, at: int) -> bool {
    exists|i: int| 0 <= i < items.len() && (#[trigger] items[i]).span.covers(at)
}

/// Making room moves what comes after, leaves what comes before, and shows nothing
/// in between.
pub proof fn law_inserted_time_shows_nothing(
    item: ItemView,
    start: int,
    length: int,
    id: u128,
    at: int,
)
    requires
        0 <= start <= u64::MAX,
        0 < length,
        item.span.lo() < item.span.hi(),
        shift_item(item, start, length, id) is Some,
    ensures
        shown(shift_item(item, start, length, id)->0, at) <==> (if at < start {
            item.span.covers(at)
        } else if at < start + length {
            false
        } else {
            item.span.covers(at - length)
        }),
{
    broadcast use crate::time::lemma_span_bounds;

    let pieces = shift_item(item, start, length, id)->0;
    let lo = item.span.lo();
    let hi = item.span.hi();
    if hi <= start {
        assert(pieces[0] == item);
    } else if lo < start {
        assert(pieces[0].span == TimelineSpan::from_bounds(lo, start));
        assert(pieces[1].span == TimelineSpan::from_bounds(start + length, hi + length));
        assert(pieces[0].span.covers(at) <==> lo <= at < start);
        assert(pieces[1].span.covers(at) <==> start + length <= at < hi + length);
        assert(shown(pieces, at) <==> pieces[0].span.covers(at) || pieces[1].span.covers(at));
    } else {
        assert(pieces[0].span == TimelineSpan::from_bounds(lo + length, hi + length));
        assert(pieces[0].span.covers(at) <==> lo + length <= at < hi + length);
    }
}

/// Whether a transition does not join the two frames that an insertion parts.
pub open spec fn unparted(preceding: Option<FrameId>, following: Option<FrameId>) -> spec_fn(
    Transition,
) -> bool {
    |transition: Transition|
        Some(transition.from_frame) != preceding || Some(transition.to_frame) != following
}

/// The transitions that stay when frames are inserted between two neighbours.
pub fn keep_unparted(
    transitions: &Vec<Transition>,
    preceding: Option<FrameId>,
    following: Option<FrameId>,
) -> (kept: Vec<Transition>)
    ensures
        kept@ == transitions@.filter(unparted(preceding, following)),
{
    let ghost pred = unparted(preceding, following);
    let mut kept: Vec<Transition> = Vec::new();
    let mut index: usize = 0;
    proof {
        reveal(Seq::filter);
        assert(transitions@.take(0).filter(pred) =~= Seq::empty());
    }
    while index < transitions.len()
        invariant
            index <= transitions.len(),
            pred == unparted(preceding, following),
            kept@ == transitions@.take(index as int).filter(pred),
        decreases transitions.len() - index,
    {
        proof {
            value::lemma_filter_next(transitions@, pred, index as int);
        }
        let transition = transitions[index];
        if Some(transition.from_frame) != preceding || Some(transition.to_frame) != following {
            kept.push(transition);
        }
        index += 1;
    }
    assert(transitions@.take(index as int) =~= transitions@);
    kept
}

/// A layer once `length` microseconds are inserted at `start`, given what becomes of
/// the spans that its authoring covered.
pub open spec fn shift_track(
    track: TrackView,
    scope: DerivedScope,
    start: int,
    length: int,
    ids: Seq<u128>,
) -> Option<TrackView> {
    match shift_items(track.items, track.items.len() as int, start, length, ids) {
        None => None,
        Some(items) => if track.annotation_scope is None {
            Some(TrackView { items, ..track })
        } else if spans::derived(scope) is Err {
            None
        } else {
            Some(TrackView { items, annotation_scope: Some(spans::derived(scope)->Ok_0), ..track })
        },
    }
}

/// Moves a layer to make room for `duration` at `start`.
pub fn shifted_track(
    track: &OverlayTrack,
    scope: &DerivedScope,
    start: u64,
    duration: DurationUs,
    ids: &Vec<u128>,
) -> (shifted: Option<OverlayTrack>)
    requires
        ids@.len() == track.items@.len(),
    ensures
        value::option_view(shifted) == shift_track(
            track@,
            *scope,
            start as int,
            duration@,
            ids@,
        ),
{
    let items = match exclude_inserted_title(&track.items, start, duration, ids) {
        Some(items) => items,
        None => return None,
    };
    let mut shifted = track.duplicate();
    shifted.items = items;
    if track.annotation_scope.is_some() {
        match scope {
            DerivedScope::Known(spans) => {
                shifted.annotation_scope = Some(copy_all(spans));
            },
            DerivedScope::Failed(_) => return None,
        }
    }
    Some(shifted)
}

/// Whether an item of the given identity, content and painting order is shown at a time.
pub open spec fn shown_as(items: Seq<ItemView>, id: OverlayId, content: ContentView, z_index: i32, at: int) -> bool {
    exists|i: int|
        {
            &&& 0 <= i < items.len()
            &&& (#[trigger] items[i]).id == id
            &&& items[i].content == content
            &&& items[i].z_index == z_index
            &&& items[i].span.start.us <= at < items[i].span.start.us + items[i].span.duration@
        }
}

/// Whether items stem from others, piece by piece and in their order: `from` tells which each of them
/// was. All of them are there, and each piece paints what it painted before.
pub open spec fn stems_from(after: Seq<ItemView>, before: Seq<ItemView>, from: Seq<int>) -> bool {
    &&& from.len() == after.len()
    &&& forall|j: int|
        0 <= j < after.len() ==> {
            &&& 0 <= #[trigger] from[j] < before.len()
            &&& after[j].content == before[from[j]].content
            &&& after[j].z_index == before[from[j]].z_index
        }
    &&& forall|j: int, k: int| 0 <= j < k < from.len() ==> #[trigger] from[j] <= #[trigger] from[k]
    &&& forall|i: int| 0 <= i < before.len() ==> from.contains(i)
}

/// An item makes way for inserted time. What it showed before that time it shows as it did, under its
/// identity. What it showed after, it shows as much later, under its identity if nothing of it came
/// before. Its pieces show it as long as it was shown.
pub proof fn law_an_item_makes_way_for_inserted_time(item: ItemView, start: int, length: int, id: u128)
    requires
        0 <= start <= u64::MAX,
        0 < length,
        item.span.duration@ > 0,
        shift_item(item, start, length, id) is Some,
    ensures
        ({
            let pieces = shift_item(item, start, length, id)->0;
            let begins = item.span.start.us as int;
            let ends = begins + item.span.duration@;
            &&& pieces.len() == (if begins < start < ends {
                2int
            } else {
                1
            })
            &&& forall|j: int|
                0 <= j < pieces.len() ==> (#[trigger] pieces[j]).content == item.content && pieces[j].z_index
                    == item.z_index
            &&& pieces[0].id == item.id
            &&& pieces.len() == 2 ==> {
                &&& pieces[1].id.value == id
                &&& pieces[0].span.start == item.span.start
                &&& pieces[0].span.start.us + pieces[0].span.duration@ == start
                &&& pieces[1].span.start.us == start + length
                &&& pieces[0].span.duration@ + pieces[1].span.duration@ == item.span.duration@
            }
            &&& pieces.len() == 1 ==> {
                &&& pieces[0].span.duration@ == item.span.duration@
                &&& pieces[0].span.start.us == (if begins >= start {
                    begins + length
                } else {
                    begins
                })
            }
        }),
{
    broadcast use {crate::time::lemma_duration_range, crate::time::lemma_span_bounds};

}

proof fn lemma_shifted_pieces(items: Seq<ItemView>, count: int, start: int, length: int, ids: Seq<u128>) -> (from: Seq<
    int,
>)
    requires
        0 <= count <= items.len(),
        0 <= start <= u64::MAX,
        0 < length,
        forall|i: int| 0 <= i < items.len() ==> (#[trigger] items[i]).span.duration@ > 0,
        shift_items(items, count, start, length, ids) is Some,
    ensures
        stems_from(shift_items(items, count, start, length, ids)->0, items.take(count), from),
    decreases count,
{
    if count <= 0 {
        let from: Seq<int> = Seq::empty();
        assert(stems_from(shift_items(items, count, start, length, ids)->0, items.take(count), from));
        from
    } else {
        let earlier = lemma_shifted_pieces(items, count - 1, start, length, ids);
        law_an_item_makes_way_for_inserted_time(items[count - 1], start, length, ids[count - 1]);
        let before = shift_items(items, count - 1, start, length, ids)->0;
        let pieces = shift_item(items[count - 1], start, length, ids[count - 1])->0;
        let more = Seq::new(pieces.len(), |j: int| count - 1);
        let from = earlier + more;
        let after = before + pieces;
        let list = items.take(count);
        assert forall|j: int| 0 <= j < after.len() implies {
            &&& 0 <= #[trigger] from[j] < list.len()
            &&& after[j].content == list[from[j]].content
            &&& after[j].z_index == list[from[j]].z_index
        } by {
            if j < before.len() {
                assert(from[j] == earlier[j]);
                assert(items.take(count - 1)[earlier[j]] == items[earlier[j]]);
            } else {
                assert(from[j] == more[j - before.len()]);
                assert(after[j] == pieces[j - before.len()]);
            }
        }
        assert forall|j: int, k: int| 0 <= j < k < from.len() implies #[trigger] from[j] <= #[trigger] from[k] by {
            if j < before.len() {
                assert(from[j] == earlier[j]);
                if k < before.len() {
                    assert(from[k] == earlier[k]);
                }
            }
        }
        assert forall|i: int| 0 <= i < list.len() implies from.contains(i) by {
            if i < count - 1 {
                assert(earlier.contains(i));
                let j = choose|j: int| 0 <= j < earlier.len() && earlier[j] == i;
                assert(from[j] == i);
            } else {
                assert(from[earlier.len() as int] == i);
            }
        }
        from
    }
}

/// The items of a layer make way for inserted time in their order: none is lost, none changes places
/// with another, and each piece paints what it painted.
pub proof fn law_items_make_way_in_their_order(items: Seq<ItemView>, start: int, length: int, ids: Seq<u128>)
    requires
        0 <= start <= u64::MAX,
        0 < length,
        forall|i: int| 0 <= i < items.len() ==> (#[trigger] items[i]).span.duration@ > 0,
        shift_items(items, items.len() as int, start, length, ids) is Some,
    ensures
        exists|from: Seq<int>|
            stems_from(shift_items(items, items.len() as int, start, length, ids)->0, items, from),
{
    let from = lemma_shifted_pieces(items, items.len() as int, start, length, ids);
    assert(items.take(items.len() as int) =~= items);
}

proof fn lemma_shown_joined(
    one: Seq<ItemView>,
    other: Seq<ItemView>,
    id: OverlayId,
    content: ContentView,
    z_index: i32,
    at: int,
)
    ensures
        shown_as(one + other, id, content, z_index, at) <==> shown_as(one, id, content, z_index, at) || shown_as(
            other,
            id,
            content,
            z_index,
            at,
        ),
{
    let both = one + other;
    if shown_as(one, id, content, z_index, at) {
        let i = choose|i: int|
            {
                &&& 0 <= i < one.len()
                &&& (#[trigger] one[i]).id == id
                &&& one[i].content == content
                &&& one[i].z_index == z_index
                &&& one[i].span.start.us <= at < one[i].span.start.us + one[i].span.duration@
            };
        assert(both[i] == one[i]);
    }
    if shown_as(other, id, content, z_index, at) {
        let i = choose|i: int|
            {
                &&& 0 <= i < other.len()
                &&& (#[trigger] other[i]).id == id
                &&& other[i].content == content
                &&& other[i].z_index == z_index
                &&& other[i].span.start.us <= at < other[i].span.start.us + other[i].span.duration@
            };
        assert(both[one.len() + i] == other[i]);
    }
    if shown_as(both, id, content, z_index, at) {
        let i = choose|i: int|
            {
                &&& 0 <= i < both.len()
                &&& (#[trigger] both[i]).id == id
                &&& both[i].content == content
                &&& both[i].z_index == z_index
                &&& both[i].span.start.us <= at < both[i].span.start.us + both[i].span.duration@
            };
        if i < one.len() {
            assert(one[i] == both[i]);
        } else {
            assert(other[i - one.len()] == both[i]);
        }
    }
}

/// A layer that makes way for inserted time shows before that time exactly what it showed, under the
/// same identities, and nothing while it lasts.
pub proof fn law_nothing_changes_before_inserted_time(
    items: Seq<ItemView>,
    start: int,
    length: int,
    ids: Seq<u128>,
    id: OverlayId,
    content: ContentView,
    z_index: i32,
    at: int,
)
    requires
        0 <= start <= u64::MAX,
        0 < length,
        forall|i: int| 0 <= i < items.len() ==> (#[trigger] items[i]).span.duration@ > 0,
        shift_items(items, items.len() as int, start, length, ids) is Some,
        at < start + length,
    ensures
        shown_as(shift_items(items, items.len() as int, start, length, ids)->0, id, content, z_index, at) <==> at
            < start && shown_as(items, id, content, z_index, at),
{
    lemma_shown_before(items, items.len() as int, start, length, ids, id, content, z_index, at);
    assert(items.take(items.len() as int) =~= items);
}

proof fn lemma_shown_before(
    items: Seq<ItemView>,
    count: int,
    start: int,
    length: int,
    ids: Seq<u128>,
    id: OverlayId,
    content: ContentView,
    z_index: i32,
    at: int,
)
    requires
        0 <= count <= items.len(),
        0 <= start <= u64::MAX,
        0 < length,
        forall|i: int| 0 <= i < items.len() ==> (#[trigger] items[i]).span.duration@ > 0,
        shift_items(items, count, start, length, ids) is Some,
        at < start + length,
    ensures
        shown_as(shift_items(items, count, start, length, ids)->0, id, content, z_index, at) <==> at < start
            && shown_as(items.take(count), id, content, z_index, at),
    decreases count,
{
    if count > 0 {
        lemma_shown_before(items, count - 1, start, length, ids, id, content, z_index, at);
        let item = items[count - 1];
        let before = shift_items(items, count - 1, start, length, ids)->0;
        let pieces = shift_item(item, start, length, ids[count - 1])->0;
        lemma_shown_joined(before, pieces, id, content, z_index, at);
        lemma_shown_joined(items.take(count - 1), seq![item], id, content, z_index, at);
        assert(items.take(count) =~= items.take(count - 1) + seq![item]);
        law_an_item_makes_way_for_inserted_time(item, start, length, ids[count - 1]);
        assert(shown_as(pieces, id, content, z_index, at) <==> at < start && shown_as(
            seq![item],
            id,
            content,
            z_index,
            at,
        )) by {
            assert(seq![item][0] == item);
            assert(pieces[0] == pieces[0]);
            if pieces.len() == 2 {
                assert(pieces[1] == pieces[1]);
            }
        }
    }
}

/// A layer that makes way for inserted time shows after it exactly what it showed, as much later.
pub proof fn law_everything_comes_after_inserted_time(
    items: Seq<ItemView>,
    start: int,
    length: int,
    ids: Seq<u128>,
    content: ContentView,
    z_index: i32,
    at: int,
)
    requires
        0 <= start <= u64::MAX,
        0 < length,
        forall|i: int| 0 <= i < items.len() ==> (#[trigger] items[i]).span.duration@ > 0,
        shift_items(items, items.len() as int, start, length, ids) is Some,
        at >= start,
    ensures
        (exists|id: OverlayId| #[trigger]
            shown_as(
                shift_items(items, items.len() as int, start, length, ids)->0,
                id,
                content,
                z_index,
                at + length,
            )) <==> exists|id: OverlayId| #[trigger] shown_as(items, id, content, z_index, at),
{
    lemma_shown_after(items, items.len() as int, start, length, ids, content, z_index, at);
    assert(items.take(items.len() as int) =~= items);
}

proof fn lemma_shown_after(
    items: Seq<ItemView>,
    count: int,
    start: int,
    length: int,
    ids: Seq<u128>,
    content: ContentView,
    z_index: i32,
    at: int,
)
    requires
        0 <= count <= items.len(),
        0 <= start <= u64::MAX,
        0 < length,
        forall|i: int| 0 <= i < items.len() ==> (#[trigger] items[i]).span.duration@ > 0,
        shift_items(items, count, start, length, ids) is Some,
        at >= start,
    ensures
        (exists|id: OverlayId| #[trigger]
            shown_as(shift_items(items, count, start, length, ids)->0, id, content, z_index, at + length))
            <==> exists|id: OverlayId| #[trigger] shown_as(items.take(count), id, content, z_index, at),
    decreases count,
{
    if count > 0 {
        lemma_shown_after(items, count - 1, start, length, ids, content, z_index, at);
        let item = items[count - 1];
        let before = shift_items(items, count - 1, start, length, ids)->0;
        let pieces = shift_item(item, start, length, ids[count - 1])->0;
        let after = before + pieces;
        let list = items.take(count);
        assert(list =~= items.take(count - 1) + seq![item]);
        law_an_item_makes_way_for_inserted_time(item, start, length, ids[count - 1]);
        let last = pieces.last();
        assert forall|id: OverlayId| #[trigger] shown_as(after, id, content, z_index, at + length) implies exists|
            other: OverlayId,
        | #[trigger] shown_as(list, other, content, z_index, at) by {
            lemma_shown_joined(before, pieces, id, content, z_index, at + length);
            if shown_as(before, id, content, z_index, at + length) {
                let other = choose|other: OverlayId| #[trigger]
                    shown_as(items.take(count - 1), other, content, z_index, at);
                lemma_shown_joined(items.take(count - 1), seq![item], other, content, z_index, at);
            } else {
                assert(seq![item][0] == item);
                assert(shown_as(seq![item], item.id, content, z_index, at));
                lemma_shown_joined(items.take(count - 1), seq![item], item.id, content, z_index, at);
            }
        }
        assert forall|id: OverlayId| #[trigger] shown_as(list, id, content, z_index, at) implies exists|
            other: OverlayId,
        | #[trigger] shown_as(after, other, content, z_index, at + length) by {
            lemma_shown_joined(items.take(count - 1), seq![item], id, content, z_index, at);
            if shown_as(items.take(count - 1), id, content, z_index, at) {
                let other = choose|other: OverlayId| #[trigger] shown_as(before, other, content, z_index, at + length);
                lemma_shown_joined(before, pieces, other, content, z_index, at + length);
            } else {
                assert(seq![item][0] == item);
                assert(pieces[pieces.len() - 1] == last);
                assert(shown_as(pieces, last.id, content, z_index, at + length));
                lemma_shown_joined(before, pieces, last.id, content, z_index, at + length);
            }
        }
    }
}

/// A layer that makes way for inserted time keeps its identity, its name, its settings and its recipe.
/// Its authoring scope is the derived one where it has any.
pub proof fn law_a_shifted_layer_keeps_its_settings(
    track: TrackView,
    scope: DerivedScope,
    start: int,
    length: int,
    ids: Seq<u128>,
)
    requires
        shift_track(track, scope, start, length, ids) is Some,
    ensures
        ({
            let layer = shift_track(track, scope, start, length, ids)->0;
            &&& layer.id == track.id
            &&& layer.name == track.name
            &&& layer.visible == track.visible
            &&& layer.opacity == track.opacity
            &&& layer.blend_mode == track.blend_mode
            &&& layer.annotation == track.annotation
            &&& layer.frame_cells == track.frame_cells
            &&& shift_items(track.items, track.items.len() as int, start, length, ids) == Some(layer.items)
            &&& match track.annotation_scope {
                None => layer.annotation_scope is None,
                Some(_) => scope matches DerivedScope::Known(spans) && layer.annotation_scope == Some(spans@),
            }
        }),
{
}

/// Of the transitions, exactly the ones between two frames that are parted go; the others stay in their
/// order. Where frames are put before the first or after the last frame, no two are parted.
pub proof fn law_only_transitions_between_parted_frames_go(
    transitions: Seq<Transition>,
    preceding: Option<FrameId>,
    following: Option<FrameId>,
)
    ensures
        transitions.filter(unparted(preceding, following)) == transitions.filter(
            |transition: Transition|
                !(preceding is Some && following is Some && transition.from_frame == preceding->0
                    && transition.to_frame == following->0),
        ),
{
    let one = unparted(preceding, following);
    let other = |transition: Transition|
        !(preceding is Some && following is Some && transition.from_frame == preceding->0 && transition.to_frame
            == following->0);
    assert(one =~= other);
}

} // verus!
