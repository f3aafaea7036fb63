//! Subtraction of timeline spans.
use vstd::prelude::*;
use crate::time::TimelineSpan;

verus! {

/// The spans of an authoring scope after an edit.
#[derive(Clone, Debug, PartialEq, Eq)]
pub enum DerivedScope {
    /// The spans.
    Known(Vec<TimelineSpan>),
    /// Why they could not be found.
    Failed(String),
}

/// What a [`DerivedScope`] shows.
pub open spec fn derived(scope: DerivedScope) -> Result<Seq<TimelineSpan>, Seq<char>> {
    match scope {
        DerivedScope::Known(spans) => Ok(spans@),
        DerivedScope::Failed(message) => Err(message@),
    }
}

/// Whether some span of `spans` covers the microsecond `at`.
pub open spec fn covered(spans: Seq<TimelineSpan>, at: int) -> bool {
    exists|i: int| 0 <= i < spans.len() && (#[trigger] spans[i]).covers(at)
}

/// Whether the spans are nonempty, in order, and no two of them touch.
pub open spec fn separated(spans: Seq<TimelineSpan>) -> bool {
    &&& forall|i: int| 0 <= i < spans.len() ==> (#[trigger] spans[i]).lo() < spans[i].hi()
    &&& forall|i: int, j: int|
        0 <= i < j < spans.len() ==> (#[trigger] spans[i]).hi() < (#[trigger] spans[j]).lo()
}

/// Whether no span starts before the one listed ahead of it.
pub open spec fn sorted_by_start(spans: Seq<TimelineSpan>) -> bool {
    forall|i: int, j: int|
        0 <= i <= j < spans.len() ==> (#[trigger] spans[i]).lo() <= (#[trigger] spans[j]).lo()
}

/// Whether the end of every span can be represented.
pub open spec fn representable(spans: Seq<TimelineSpan>) -> bool {
    forall|i: int| 0 <= i < spans.len() ==> (#[trigger] spans[i]).hi() <= u64::MAX
}

/// Whether `cut` settles what happens to the microsecond `at` of a span that
/// ends at `end`: it starts inside the span and ends after `at`.
pub open spec fn settles(cut: TimelineSpan, end: int, at: int) -> bool {
    cut.lo() < end && at < cut.hi()
}

/// Whether one of the cuts settles `at`.
pub open spec fn settled(cuts: Seq<TimelineSpan>, end: int, at: int) -> bool {
    exists|k: int| 0 <= k < cuts.len() && settles(#[trigger] cuts[k], end, at)
}

/// Whether the first of the cuts that settles `at` covers it.
pub open spec fn removed(cuts: Seq<TimelineSpan>, end: int, at: int) -> bool {
    exists|i: int|
        0 <= i < cuts.len() && (#[trigger] cuts[i]).covers(at) && forall|j: int|
            0 <= j < i ==> !settles(#[trigger] cuts[j], end, at)
}

/// The microseconds of `span` that subtracting `cuts`, one after the other, leaves.
pub open spec fn kept(span: TimelineSpan, cuts: Seq<TimelineSpan>, at: int) -> bool {
    span.covers(at) && !removed(cuts, span.hi(), at)
}

/// Whether `pieces` are the maximal runs, in timeline order, of what subtracting
/// `cuts` leaves of `span`.
pub open spec fn are_pieces(
    pieces: Seq<TimelineSpan>,
    span: TimelineSpan,
    cuts: Seq<TimelineSpan>,
) -> bool {
    &&& separated(pieces)
    &&& forall|at: int| #[trigger] covered(pieces, at) <==> kept(span, cuts, at)
}

/// The maximal runs, in timeline order, of what subtracting `cuts` leaves of `span`.
pub open spec fn pieces(span: TimelineSpan, cuts: Seq<TimelineSpan>) -> Seq<TimelineSpan> {
    choose|pieces: Seq<TimelineSpan>| are_pieces(pieces, span, cuts)
}

/// What is left of `span` once every one of `cuts` has been taken out of it.
pub fn subtract_spans(span: TimelineSpan, cuts: &[TimelineSpan]) -> (result: Result<
    Vec<TimelineSpan>,
    String,
>)
    ensures
        match result {
            Ok(left) => {
                &&& span.hi() <= u64::MAX
                &&& representable(cuts@)
                &&& are_pieces(left@, span, cuts@)
                &&& left@ == pieces(span, cuts@)
            },
            Err(message) => if span.hi() > u64::MAX {
                message@ == "Overlay span overflows the timeline."@
            } else {
                message@ == "Selected span overflows the timeline."@ && !representable(cuts@)
            },
        },
{
    let end: u64 = match span.end() {
        Some(time) => time.get(),
        None => return Err("Overlay span overflows the timeline.".to_owned()),
    };
    let mut cursor: u64 = span.start.get();
    let mut output: Vec<TimelineSpan> = Vec::new();
    let mut index: usize = 0;
    while index < cuts.len()
        invariant
            index <= cuts.len(),
            end == span.hi(),
            span.lo() <= cursor <= end <= u64::MAX,
            representable(cuts@.take(index as int)),
            separated(output@),
            forall|i: int|
                0 <= i < output@.len() ==> span.lo() <= (#[trigger] output@[i]).lo()
                    && output@[i].hi() < cursor,
            forall|at: int|
                span.lo() <= at < end ==> (at < cursor <==> #[trigger] settled(
                    cuts@.take(index as int),
                    end as int,
                    at,
                )),
            forall|at: int|
                #[trigger] covered(output@, at) <==> span.lo() <= at < cursor && !removed(
                    cuts@.take(index as int),
                    end as int,
                    at,
                ),
        decreases cuts.len() - index,
    {
        let cut = cuts[index];
        let ghost before = output@;
        let ghost past = cursor as int;
        let ghost seen = cuts@.take(index as int);
        let ghost next = cuts@.take(index + 1);
        assert(next =~= seen.push(cut));
        let cut_end: u64 = match cut.end() {
            Some(time) => time.get(),
            None => {
                assert(cuts@[index as int].hi() > u64::MAX);
                return Err("Selected span overflows the timeline.".to_owned());
            },
        };
        assert(representable(next));
        assert forall|at: int| span.lo() <= at < end implies #[trigger] settled(next, end as int, at)
            == (at < past || settles(cut, end as int, at)) by {
            lemma_one_more_cut(seen, cut, end as int, at);
            assert(settled(seen, end as int, at) == (at < past));
        }
        assert forall|at: int| span.lo() <= at < end implies #[trigger] removed(next, end as int, at)
            == (if at < past {
            removed(seen, end as int, at)
        } else {
            cut.covers(at)
        }) by {
            lemma_one_more_cut(seen, cut, end as int, at);
            assert(settled(seen, end as int, at) == (at < past));
        }
        if cut_end <= cursor || cut.start.get() >= end {
            index += 1;
            continue;
        }
        if cut.start.get() > cursor {
            let piece = TimelineSpan::between(cursor, cut.start.get());
            output.push(piece);
            assert(separated(output@));
            assert forall|at: int| #[trigger] covered(output@, at) <==> covered(before, at)
                || piece.covers(at) by {
                lemma_one_more_piece(before, piece, at);
            }
        }
        if cursor < cut_end {
            cursor = cut_end;
        }
        if end < cursor {
            cursor = end;
        }
        index += 1;
    }
    assert(cuts@.take(index as int) =~= cuts@);
    let ghost before = output@;
    let ghost past = cursor as int;
    assert forall|at: int| past <= at < end implies !#[trigger] removed(cuts@, end as int, at) by {
        assert(!settled(cuts@, end as int, at));
        if removed(cuts@, end as int, at) {
            let i = choose|i: int|
                0 <= i < cuts@.len() && (#[trigger] cuts@[i]).covers(at) && forall|j: int|
                    0 <= j < i ==> !settles(#[trigger] cuts@[j], end as int, at);
            assert(settles(cuts@[i], end as int, at));
        }
    }
    if cursor < end {
        let piece = TimelineSpan::between(cursor, end);
        output.push(piece);
        assert forall|at: int| #[trigger] covered(output@, at) <==> covered(before, at)
            || piece.covers(at) by {
            lemma_one_more_piece(before, piece, at);
        }
    }
    proof {
        assert(are_pieces(output@, span, cuts@));
        lemma_pieces_are_unique(output@, pieces(span, cuts@));
    }
    Ok(output)
}

/// Spans that do not touch are determined by what they cover.
proof fn lemma_pieces_are_unique(left: Seq<TimelineSpan>, right: Seq<TimelineSpan>)
    requires
        separated(left),
        separated(right),
        forall|at: int| #[trigger] covered(left, at) <==> covered(right, at),
    ensures
        left == right,
    decreases left.len(),
{
    broadcast use crate::time::lemma_duration_by_view;

    if left.len() == 0 {
        if right.len() > 0 {
            assert(right[0].covers(right[0].lo()));
            assert(covered(right, right[0].lo()));
            assert(covered(left, right[0].lo()));
        }
    } else {
        let at = left[0].lo();
        assert(left[0].covers(at));
        assert(covered(left, at));
        assert(right.len() > 0);
        lemma_first_starts(left, right);
        lemma_first_starts(right, left);
        lemma_first_ends(left, right);
        lemma_first_ends(right, left);
        assert(left[0].duration@ == right[0].duration@);
        assert(left[0].start == right[0].start);
        assert(left[0] == right[0]);
        let less = left.drop_first();
        let rest = right.drop_first();
        assert(separated(less)) by {
            assert forall|i: int| 0 <= i < less.len() implies (#[trigger] less[i]).lo()
                < less[i].hi() by {
                assert(less[i] == left[i + 1]);
            }
            assert forall|i: int, j: int| 0 <= i < j < less.len() implies (#[trigger] less[i]).hi()
                < (#[trigger] less[j]).lo() by {
                assert(less[i] == left[i + 1] && less[j] == left[j + 1]);
            }
        }
        assert(separated(rest)) by {
            assert forall|i: int| 0 <= i < rest.len() implies (#[trigger] rest[i]).lo()
                < rest[i].hi() by {
                assert(rest[i] == right[i + 1]);
            }
            assert forall|i: int, j: int| 0 <= i < j < rest.len() implies (#[trigger] rest[i]).hi()
                < (#[trigger] rest[j]).lo() by {
                assert(rest[i] == right[i + 1] && rest[j] == right[j + 1]);
            }
        }
        assert forall|at: int| #[trigger] covered(less, at) <==> covered(rest, at) by {
            lemma_all_but_first(left, at);
            lemma_all_but_first(right, at);
            assert(covered(left, at) <==> covered(right, at));
        }
        lemma_pieces_are_unique(less, rest);
        assert(left =~= seq![left[0]] + less);
        assert(right =~= seq![right[0]] + rest);
    }
}

/// What a separated list covers once its first span is dropped.
proof fn lemma_all_but_first(spans: Seq<TimelineSpan>, at: int)
    requires
        separated(spans),
        spans.len() > 0,
    ensures
        covered(spans.drop_first(), at) <==> covered(spans, at) && !spans[0].covers(at),
{
    let rest = spans.drop_first();
    if covered(rest, at) {
        let i = choose|i: int| 0 <= i < rest.len() && (#[trigger] rest[i]).covers(at);
        assert(rest[i] == spans[i + 1]);
        assert(spans[i + 1].covers(at));
        assert(spans[0].hi() < spans[i + 1].lo());
    }
    if covered(spans, at) && !spans[0].covers(at) {
        let i = choose|i: int| 0 <= i < spans.len() && (#[trigger] spans[i]).covers(at);
        assert(rest[i - 1].covers(at));
    }
}

/// The first of two lists that cover the same starts no later than the other.
proof fn lemma_first_starts(left: Seq<TimelineSpan>, right: Seq<TimelineSpan>)
    requires
        separated(left),
        separated(right),
        left.len() > 0,
        right.len() > 0,
        forall|at: int| #[trigger] covered(left, at) <==> covered(right, at),
    ensures
        left[0].lo() <= right[0].lo(),
{
    let at = right[0].lo();
    assert(right[0].covers(at));
    assert(covered(right, at));
    assert(covered(left, at));
    let i = choose|i: int| 0 <= i < left.len() && (#[trigger] left[i]).covers(at);
    if i > 0 {
        assert(left[0].hi() < left[i].lo());
    }
}

/// The first span of two lists that cover the same ends no later than the other.
proof fn lemma_first_ends(left: Seq<TimelineSpan>, right: Seq<TimelineSpan>)
    requires
        separated(left),
        separated(right),
        left.len() > 0,
        right.len() > 0,
        left[0].lo() == right[0].lo(),
        forall|at: int| #[trigger] covered(left, at) <==> covered(right, at),
    ensures
        left[0].hi() <= right[0].hi(),
{
    if left[0].hi() > right[0].hi() {
        let at = right[0].hi();
        assert(left[0].covers(at));
        assert(covered(left, at));
        assert(covered(right, at));
        let i = choose|i: int| 0 <= i < right.len() && (#[trigger] right[i]).covers(at);
        if i > 0 {
            assert(right[0].hi() < right[i].lo());
        }
    }
}

/// What one more piece adds to what a list covers.
proof fn lemma_one_more_piece(pieces: Seq<TimelineSpan>, piece: TimelineSpan, at: int)
    ensures
        covered(pieces.push(piece), at) <==> covered(pieces, at) || piece.covers(at),
{
    let more = pieces.push(piece);
    if covered(pieces, at) {
        let i = choose|i: int| 0 <= i < pieces.len() && (#[trigger] pieces[i]).covers(at);
        assert(more[i].covers(at));
    }
    if piece.covers(at) {
        assert(more[pieces.len() as int].covers(at));
    }
    if covered(more, at) {
        let i = choose|i: int| 0 <= i < more.len() && (#[trigger] more[i]).covers(at);
        if i < pieces.len() {
            assert(pieces[i].covers(at));
        }
    }
}

/// A microsecond keeps the fate that the first cut to settle it gave it.
proof fn lemma_one_more_cut(cuts: Seq<TimelineSpan>, cut: TimelineSpan, end: int, at: int)
    requires
        at < end,
    ensures
        settled(cuts.push(cut), end, at) <==> settled(cuts, end, at) || settles(cut, end, at),
        removed(cuts.push(cut), end, at) == (if settled(cuts, end, at) {
            removed(cuts, end, at)
        } else {
            cut.covers(at)
        }),
{
    let more = cuts.push(cut);
    assert forall|i: int| 0 <= i < cuts.len() implies #[trigger] more[i] == cuts[i] by {}
    assert(more[cuts.len() as int] == cut);
    if settled(cuts, end, at) {
        let k = choose|k: int| 0 <= k < cuts.len() && settles(#[trigger] cuts[k], end, at);
        assert(settles(more[k], end, at));
        if removed(cuts, end, at) {
            let i = choose|i: int|
                0 <= i < cuts.len() && (#[trigger] cuts[i]).covers(at) && forall|j: int|
                    0 <= j < i ==> !settles(#[trigger] cuts[j], end, at);
            assert(more[i].covers(at));
            assert forall|j: int| 0 <= j < i implies !settles(#[trigger] more[j], end, at) by {
                assert(!settles(cuts[j], end, at));
            }
        }
        if removed(more, end, at) {
            let i = choose|i: int|
                0 <= i < more.len() && (#[trigger] more[i]).covers(at) && forall|j: int|
                    0 <= j < i ==> !settles(#[trigger] more[j], end, at);
            assert(i <= k);
            assert(cuts[i].covers(at));
            assert forall|j: int| 0 <= j < i implies !settles(#[trigger] cuts[j], end, at) by {
                assert(!settles(more[j], end, at));
            }
        }
    } else {
        if settles(cut, end, at) {
            assert(settles(more[cuts.len() as int], end, at));
        }
        if settled(more, end, at) {
            let k = choose|k: int| 0 <= k < more.len() && settles(#[trigger] more[k], end, at);
            if k < cuts.len() {
                assert(settles(cuts[k], end, at));
            }
        }
        if cut.covers(at) {
            let i = cuts.len() as int;
            assert(more[i].covers(at));
            assert forall|j: int| 0 <= j < i implies !settles(#[trigger] more[j], end, at) by {
                assert(!settles(cuts[j], end, at));
            }
        }
        if removed(more, end, at) {
            let i = choose|i: int|
                0 <= i < more.len() && (#[trigger] more[i]).covers(at) && forall|j: int|
                    0 <= j < i ==> !settles(#[trigger] more[j], end, at);
            if i < cuts.len() {
                assert(settles(cuts[i], end, at));
            }
        }
    }
}

/// Cuts listed by their starts take out of a span exactly what they cover.
pub proof fn law_sorted_cuts_remove_what_they_cover(
    span: TimelineSpan,
    cuts: Seq<TimelineSpan>,
    at: int,
)
    requires
        sorted_by_start(cuts),
    ensures
        kept(span, cuts, at) <==> span.covers(at) && !covered(cuts, at),
{
    if span.covers(at) && covered(cuts, at) {
        let i = choose|i: int| 0 <= i < cuts.len() && (#[trigger] cuts[i]).covers(at);
        lemma_first_cover(span, cuts, at, i);
    }
}

/// The first cut that settles a covered microsecond covers it.
proof fn lemma_first_cover(span: TimelineSpan, cuts: Seq<TimelineSpan>, at: int, i: int)
    requires
        sorted_by_start(cuts),
        span.covers(at),
        0 <= i < cuts.len(),
        cuts[i].covers(at),
    ensures
        removed(cuts, span.hi(), at),
    decreases i,
{
    if exists|j: int| 0 <= j < i && settles(#[trigger] cuts[j], span.hi(), at) {
        let j = choose|j: int| 0 <= j < i && settles(#[trigger] cuts[j], span.hi(), at);
        assert(cuts[j].lo() <= cuts[i].lo());
        lemma_first_cover(span, cuts, at, j);
    } else {
        assert(cuts[i].covers(at));
    }
}

/// What subtracting cuts leaves of the part of a span before `until`, in maximal runs.
proof fn lemma_runs_until(span: TimelineSpan, cuts: Seq<TimelineSpan>, until: int) -> (runs: Seq<TimelineSpan>)
    requires
        span.lo() <= until <= span.hi() <= u64::MAX,
    ensures
        separated(runs),
        forall|i: int| 0 <= i < runs.len() ==> (#[trigger] runs[i]).hi() <= until,
        forall|at: int| #[trigger] covered(runs, at) <==> kept(span, cuts, at) && at < until,
    decreases until - span.lo(),
{
    broadcast use crate::time::lemma_span_bounds;

    if until == span.lo() {
        let none: Seq<TimelineSpan> = Seq::empty();
        assert forall|at: int| #[trigger] covered(none, at) <==> kept(span, cuts, at) && at < until by {}
        none
    } else {
        let last = until - 1;
        let earlier = lemma_runs_until(span, cuts, last);
        if !kept(span, cuts, last) {
            assert forall|at: int| #[trigger] covered(earlier, at) <==> kept(span, cuts, at) && at < until by {}
            earlier
        } else if earlier.len() > 0 && earlier.last().hi() == last {
            let tail = earlier.len() - 1;
            let grown = TimelineSpan::from_bounds(earlier[tail].lo(), until);
            let runs = earlier.update(tail, grown);
            assert forall|at: int| #[trigger] covered(runs, at) <==> kept(span, cuts, at) && at < until by {
                if covered(runs, at) {
                    let i = choose|i: int| 0 <= i < runs.len() && (#[trigger] runs[i]).covers(at);
                    if i < tail {
                        assert(earlier[i].covers(at));
                        assert(covered(earlier, at));
                    } else if at < last {
                        assert(earlier[tail].covers(at));
                        assert(covered(earlier, at));
                    }
                }
                if kept(span, cuts, at) && at < until {
                    if at == last {
                        assert(runs[tail].covers(at));
                    } else {
                        assert(covered(earlier, at));
                        let i = choose|i: int| 0 <= i < earlier.len() && (#[trigger] earlier[i]).covers(at);
                        assert(runs[i].covers(at));
                    }
                }
            }
            runs
        } else {
            let added = TimelineSpan::from_bounds(last, until);
            let runs = earlier.push(added);
            let count = earlier.len() as int;
            assert forall|i: int, j: int| 0 <= i < j < runs.len() implies (#[trigger] runs[i]).hi() < (
            #[trigger] runs[j]).lo() by {
                if j == count {
                    if i < count - 1 {
                        assert(earlier[i].hi() < earlier[count - 1].lo());
                        assert(earlier[count - 1].lo() < earlier[count - 1].hi());
                    }
                    assert(earlier[count - 1].hi() <= last);
                }
            }
            assert forall|at: int| #[trigger] covered(runs, at) <==> kept(span, cuts, at) && at < until by {
                if covered(runs, at) {
                    let i = choose|i: int| 0 <= i < runs.len() && (#[trigger] runs[i]).covers(at);
                    if i < count {
                        assert(earlier[i].covers(at));
                        assert(covered(earlier, at));
                    }
                }
                if kept(span, cuts, at) && at < until {
                    if at == last {
                        assert(runs[count].covers(at));
                    } else {
                        assert(covered(earlier, at));
                        let i = choose|i: int| 0 <= i < earlier.len() && (#[trigger] earlier[i]).covers(at);
                        assert(runs[i].covers(at));
                    }
                }
            }
            runs
        }
    }
}

/// The pieces of a span cover exactly what subtracting the cuts leaves.
pub proof fn lemma_pieces_cover(span: TimelineSpan, cuts: Seq<TimelineSpan>)
    requires
        span.lo() <= span.hi() <= u64::MAX,
    ensures
        are_pieces(pieces(span, cuts), span, cuts),
{
    let runs = lemma_runs_until(span, cuts, span.hi());
    assert forall|at: int| #[trigger] covered(runs, at) <==> kept(span, cuts, at) by {}
    assert(are_pieces(runs, span, cuts));
}

/// What is left of a span are separate pieces, in order, that cover what the span covers and no cut does.
pub proof fn law_pieces_are_what_is_left(span: TimelineSpan, cuts: Seq<TimelineSpan>, at: int)
    requires
        span.hi() <= u64::MAX,
        forall|i: int, j: int|
            0 <= i <= j < cuts.len() ==> (#[trigger] cuts[i]).start.us <= (#[trigger] cuts[j]).start.us,
    ensures
        (exists|k: int|
            0 <= k < pieces(span, cuts).len() && (#[trigger] pieces(span, cuts)[k]).start.us <= at
                < pieces(span, cuts)[k].start.us + pieces(span, cuts)[k].duration@) <==> span.start.us <= at
            < span.start.us + span.duration@ && !(exists|c: int|
            0 <= c < cuts.len() && (#[trigger] cuts[c]).start.us <= at < cuts[c].start.us + cuts[c].duration@),
        forall|i: int, j: int|
            0 <= i < j < pieces(span, cuts).len() ==> (#[trigger] pieces(span, cuts)[i]).start.us + pieces(
                span,
                cuts,
            )[i].duration@ < (#[trigger] pieces(span, cuts)[j]).start.us,
{
    broadcast use crate::time::lemma_duration_range;

    lemma_pieces_cover(span, cuts);
    assert(sorted_by_start(cuts));
    law_sorted_cuts_remove_what_they_cover(span, cuts, at);
    let left = pieces(span, cuts);
    assert(covered(left, at) <==> kept(span, cuts, at));
    if covered(left, at) {
        let k = choose|k: int| 0 <= k < left.len() && (#[trigger] left[k]).covers(at);
        assert(left[k].start.us <= at < left[k].start.us + left[k].duration@);
    }
    if exists|k: int|
        0 <= k < left.len() && (#[trigger] left[k]).start.us <= at < left[k].start.us + left[k].duration@ {
        let k = choose|k: int|
            0 <= k < left.len() && (#[trigger] left[k]).start.us <= at < left[k].start.us + left[k].duration@;
        assert(left[k].covers(at));
    }
    if covered(cuts, at) {
        let c = choose|c: int| 0 <= c < cuts.len() && (#[trigger] cuts[c]).covers(at);
        assert(cuts[c].start.us <= at < cuts[c].start.us + cuts[c].duration@);
    }
    if exists|c: int|
        0 <= c < cuts.len() && (#[trigger] cuts[c]).start.us <= at < cuts[c].start.us + cuts[c].duration@ {
        let c = choose|c: int|
            0 <= c < cuts.len() && (#[trigger] cuts[c]).start.us <= at < cuts[c].start.us + cuts[c].duration@;
        assert(cuts[c].covers(at));
    }
    assert forall|i: int, j: int| 0 <= i < j < left.len() implies (#[trigger] left[i]).start.us + left[i].duration@ < (
    #[trigger] left[j]).start.us by {
        assert(left[i].hi() < left[j].lo());
    }
}

/// A scope is what was derived for it, or fails with the reason that was told.
pub proof fn law_a_scope_is_what_was_derived(scope: DerivedScope)
    ensures
        match scope {
            DerivedScope::Known(spans) => derived(scope) is Ok && derived(scope)->Ok_0 == spans@,
            DerivedScope::Failed(reason) => derived(scope) is Err && derived(scope)->Err_0 == reason@,
        },
{
}

} // verus!
