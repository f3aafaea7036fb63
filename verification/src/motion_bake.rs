//! Taking baked overlays out of the layers they came from.
use vstd::prelude::*;
use crate::cancel::CancellationToken;
use crate::content::{ContentView, OverlayContent};
use crate::identity;
use crate::identity::draw;
use crate::ids::{contains_frame, FrameId, OverlayId};
use crate::motion_pixels;
use crate::motion_pixels::check_cancelled;
use crate::overlay::{
    CellView, FrameOverlayCell, FrameOverlayMark, ItemView, MarkView, OverlayItem, OverlayTrack,
    TrackView,
};
use crate::project::{CommandView, EditCommand};
use crate::spans;
use crate::spans::{subtract_spans, DerivedScope};
use crate::time::TimelineSpan;
use crate::value;
use crate::value::{copy_all, Value};

verus! {

/// The most pieces that one edit may leave of timed overlays.
pub const MAX_OVERLAY_FRAGMENTS: usize = 10_000;

/// Whether the content is never painted.
pub open spec fn never_painted(content: ContentView) -> bool {
    content matches ContentView::Raster { opacity, .. } && opacity == 0
}

/// What is left of an item: the first piece keeps its identity, the others take
/// new ones from `ids`, starting at `drawn`.
pub open spec fn fragments(
    item: ItemView,
    cuts: Seq<TimelineSpan>,
    ids: Seq<u128>,
    drawn: int,
) -> Seq<ItemView> {
    let pieces = spans::pieces(item.span, cuts);
    Seq::new(
        pieces.len(),
        |k: int|
            ItemView {
                id: if k == 0 {
                    item.id
                } else {
                    OverlayId { value: ids[drawn + k - 1] }
                },
                span: pieces[k],
                ..item
            },
    )
}

/// How far a list of items has been trimmed.
pub struct Trimmed {
    /// The items that are left.
    pub items: Seq<ItemView>,
    /// The number of pieces so far, in this and earlier layers.
    pub fragments: int,
    /// The number of new identities so far.
    pub drawn: int,
}

/// The number of new identities that `pieces` pieces of an item need.
pub open spec fn extra(pieces: int) -> int {
    if pieces > 0 {
        pieces - 1
    } else {
        0
    }
}

/// Trims one more item.
pub open spec fn trim_item(
    before: Trimmed,
    item: ItemView,
    cuts: Seq<TimelineSpan>,
    ids: Seq<u128>,
) -> Result<Trimmed, Seq<char>> {
    let pieces = spans::pieces(item.span, cuts);
    if never_painted(item.content) {
        Ok(Trimmed { items: before.items.push(item), ..before })
    } else if item.span.hi() > u64::MAX {
        Err("Overlay span overflows the timeline."@)
    } else if !spans::representable(cuts) {
        Err("Selected span overflows the timeline."@)
    } else if before.fragments + pieces.len() > MAX_OVERLAY_FRAGMENTS {
        Err("Motion edit would create more than 10,000 overlay fragments."@)
    } else {
        Ok(
            Trimmed {
                items: before.items + fragments(item, cuts, ids, before.drawn),
                fragments: before.fragments + pieces.len(),
                drawn: before.drawn + extra(pieces.len() as int),
            },
        )
    }
}

/// Trims the first `count` items, one after the other.
pub open spec fn trim_items(
    start: Trimmed,
    items: Seq<ItemView>,
    count: int,
    cuts: Seq<TimelineSpan>,
    ids: Seq<u128>,
) -> Result<Trimmed, Seq<char>>
    decreases count,
{
    if count <= 0 {
        Ok(start)
    } else {
        match trim_items(start, items, count - 1, cuts, ids) {
            Ok(before) => trim_item(before, items[count - 1], cuts, ids),
            Err(message) => Err(message),
        }
    }
}

/// The marks that are never painted.
pub open spec fn unpainted() -> spec_fn(MarkView) -> bool {
    |mark: MarkView| never_painted(mark.content)
}

/// The cells that stay: those of frames that were not baked, and those with marks left.
pub open spec fn staying(owners: Seq<FrameId>) -> spec_fn(CellView) -> bool {
    |cell: CellView| !owners.contains(cell.frame_id) || cell.marks.len() > 0
}

/// The marks of a cell that its frame keeps: all of them, unless the frame was
/// baked; then only those that were never painted.
pub open spec fn kept_cell(cell: CellView, owners: Seq<FrameId>) -> CellView {
    if owners.contains(cell.frame_id) {
        CellView { marks: cell.marks.filter(unpainted()), ..cell }
    } else {
        cell
    }
}

/// The cells that are left once the marks of baked frames are gone.
pub open spec fn kept_cells(cells: Seq<CellView>, owners: Seq<FrameId>) -> Seq<CellView> {
    Seq::new(cells.len(), |i: int| kept_cell(cells[i], owners)).filter(staying(owners))
}

/// The command that leaves `cells` in a layer, where that changes it.
pub open spec fn cells_command(track: TrackView, cells: Seq<CellView>) -> Option<CommandView> {
    if Some(cells) == track.frame_cells {
        None
    } else if cells.len() == 0 {
        Some(CommandView::RemoveOverlayTrack { track_id: track.id })
    } else {
        Some(
            CommandView::UpsertOverlayTrack {
                track: TrackView { frame_cells: Some(cells), ..track },
            },
        )
    }
}

/// The command that leaves `items` and `scope` in a timed layer, where that changes it.
pub open spec fn items_command(
    track: TrackView,
    items: Seq<ItemView>,
    scope: Option<Seq<TimelineSpan>>,
) -> Option<CommandView> {
    let replacement = TrackView { items, annotation_scope: scope, ..track };
    if replacement == track {
        None
    } else if items.len() == 0 && (scope matches Some(list) ==> list.len() == 0) {
        Some(CommandView::RemoveOverlayTrack { track_id: track.id })
    } else {
        Some(CommandView::UpsertOverlayTrack { track: replacement })
    }
}

/// How far a list of layers has been worked off.
pub struct Baked {
    /// The commands so far.
    pub commands: Seq<CommandView>,
    /// The number of pieces so far.
    pub fragments: int,
    /// The number of new identities so far.
    pub drawn: int,
}

impl Baked {
    /// The same with one more command, if there is one.
    pub open spec fn with(self, command: Option<CommandView>) -> Baked {
        match command {
            Some(command) => Baked { commands: self.commands.push(command), ..self },
            None => self,
        }
    }
}

/// Works off one more layer.
pub open spec fn bake_track(
    before: Baked,
    track: TrackView,
    scope: DerivedScope,
    cuts: Seq<TimelineSpan>,
    owners: Seq<FrameId>,
    ids: Seq<u128>,
) -> Result<Baked, Seq<char>> {
    let start = Trimmed {
        items: Seq::empty(),
        fragments: before.fragments,
        drawn: before.drawn,
    };
    if !track.visible || track.opacity == 0 {
        Ok(before)
    } else if track.frame_cells is Some {
        Ok(before.with(cells_command(track, kept_cells(track.frame_cells->0, owners))))
    } else if track.annotation_scope is Some && spans::derived(scope) is Err {
        Err(spans::derived(scope)->Err_0)
    } else {
        match trim_items(start, track.items, track.items.len() as int, cuts, ids) {
            Ok(trimmed) => Ok(
                Baked { fragments: trimmed.fragments, drawn: trimmed.drawn, ..before }.with(
                    items_command(
                        track,
                        trimmed.items,
                        if track.annotation_scope is Some {
                            Some(spans::derived(scope)->Ok_0)
                        } else {
                            None
                        },
                    ),
                ),
            ),
            Err(message) => Err(message),
        }
    }
}

/// Works off the first `count` layers, one after the other.
pub open spec fn bake_tracks(
    tracks: Seq<TrackView>,
    count: int,
    scopes: Seq<DerivedScope>,
    cuts: Seq<TimelineSpan>,
    owners: Seq<FrameId>,
    ids: Seq<u128>,
) -> Result<Baked, Seq<char>>
    decreases count,
{
    if count <= 0 {
        Ok(Baked { commands: Seq::empty(), fragments: 0, drawn: 0 })
    } else {
        match bake_tracks(tracks, count - 1, scopes, cuts, owners, ids) {
            Ok(before) => bake_track(
                before,
                tracks[count - 1],
                scopes[count - 1],
                cuts,
                owners,
                ids,
            ),
            Err(message) => Err(message),
        }
    }
}

/// Drawing more identities changes nothing about the items trimmed so far.
proof fn lemma_trim_more_ids(
    start: Trimmed,
    items: Seq<ItemView>,
    count: int,
    cuts: Seq<TimelineSpan>,
    ids: Seq<u128>,
    more: Seq<u128>,
    known: int,
)
    requires
        0 <= start.drawn,
        0 <= count,
        forall|i: int| 0 <= i < known ==> ids[i] == more[i],
    ensures
        match (
            trim_items(start, items, count, cuts, ids),
            trim_items(start, items, count, cuts, more),
        ) {
            (Ok(left), Ok(right)) => {
                &&& left.fragments == right.fragments
                &&& left.drawn == right.drawn
                &&& start.drawn <= left.drawn
                &&& left.drawn <= known ==> left.items == right.items
            },
            (Err(left), Err(right)) => left == right,
            _ => false,
        },
    decreases count,
{
    if count > 0 {
        lemma_trim_more_ids(start, items, count - 1, cuts, ids, more, known);
        let left = trim_items(start, items, count - 1, cuts, ids);
        let right = trim_items(start, items, count - 1, cuts, more);
        if left is Ok {
            let item = items[count - 1];
            if left->Ok_0.drawn + extra(spans::pieces(item.span, cuts).len() as int) <= known {
                assert(fragments(item, cuts, ids, left->Ok_0.drawn) =~= fragments(
                    item,
                    cuts,
                    more,
                    left->Ok_0.drawn,
                ));
            }
        }
    }
}

/// Drawing more identities changes nothing about the layers worked off so far.
proof fn lemma_bake_more_ids(
    tracks: Seq<TrackView>,
    count: int,
    scopes: Seq<DerivedScope>,
    cuts: Seq<TimelineSpan>,
    owners: Seq<FrameId>,
    ids: Seq<u128>,
    more: Seq<u128>,
    known: int,
)
    requires
        0 <= count,
        forall|i: int| 0 <= i < known ==> ids[i] == more[i],
    ensures
        match (
            bake_tracks(tracks, count, scopes, cuts, owners, ids),
            bake_tracks(tracks, count, scopes, cuts, owners, more),
        ) {
            (Ok(left), Ok(right)) => {
                &&& left.fragments == right.fragments
                &&& left.drawn == right.drawn
                &&& 0 <= left.drawn
                &&& left.drawn <= known ==> left.commands == right.commands
            },
            (Err(left), Err(right)) => left == right,
            _ => false,
        },
    decreases count,
{
    if count > 0 {
        lemma_bake_more_ids(tracks, count - 1, scopes, cuts, owners, ids, more, known);
        let left = bake_tracks(tracks, count - 1, scopes, cuts, owners, ids);
        if left is Ok {
            let track = tracks[count - 1];
            let start = Trimmed {
                items: Seq::empty(),
                fragments: left->Ok_0.fragments,
                drawn: left->Ok_0.drawn,
            };
            lemma_trim_more_ids(
                start,
                track.items,
                track.items.len() as int,
                cuts,
                ids,
                more,
                known,
            );
        }
    }
}

/// Whether the content is never painted.
fn is_never_painted(content: &OverlayContent) -> (result: bool)
    ensures
        result == never_painted(content@),
{
    match content {
        OverlayContent::Raster { opacity, .. } => *opacity == 0,
        _ => false,
    }
}

/// Trims every item, given the number of pieces and the identities drawn so far.
fn trim_all(
    items: &Vec<OverlayItem>,
    cuts: &Vec<TimelineSpan>,
    fragments_before: usize,
    Ghost(ids): Ghost<Seq<u128>>,
) -> (result: Result<(Vec<OverlayItem>, usize, Ghost<Seq<u128>>), String>)
    requires
        fragments_before <= MAX_OVERLAY_FRAGMENTS,
        forall|i: int| 0 <= i < ids.len() ==> identity::is_random_uuid(#[trigger] ids[i]),
    ensures
        ({
            let start = Trimmed {
                items: Seq::empty(),
                fragments: fragments_before as int,
                drawn: ids.len() as int,
            };
            let all = value::views(items@);
            match result {
                Ok((left, count, more)) => {
                    &&& ids.is_prefix_of(more@)
                    &&& forall|i: int| 0 <= i < more@.len() ==> identity::is_random_uuid(#[trigger] more@[i])
                    &&& count <= MAX_OVERLAY_FRAGMENTS
                    &&& trim_items(start, all, all.len() as int, cuts@, more@) == Ok::<
                        Trimmed,
                        Seq<char>,
                    >(
                        Trimmed {
                            items: value::views(left@),
                            fragments: count as int,
                            drawn: more@.len() as int,
                        },
                    )
                },
                Err(message) => trim_items(start, all, all.len() as int, cuts@, ids) == Err::<
                    Trimmed,
                    Seq<char>,
                >(message@),
            }
        }),
{
    let ghost start = Trimmed {
        items: Seq::empty(),
        fragments: fragments_before as int,
        drawn: ids.len() as int,
    };
    let ghost all = value::views(items@);
    let ghost mut names = ids;
    let mut left: Vec<OverlayItem> = Vec::new();
    let mut count: usize = fragments_before;
    let mut index: usize = 0;
    assert(value::views(left@) =~= Seq::empty());
    while index < items.len()
        invariant
            index <= items.len(),
            all == value::views(items@),
            start == (Trimmed {
                items: Seq::empty(),
                fragments: fragments_before as int,
                drawn: ids.len() as int,
            }),
            count <= MAX_OVERLAY_FRAGMENTS,
            ids.is_prefix_of(names),
            forall|i: int| 0 <= i < names.len() ==> identity::is_random_uuid(#[trigger] names[i]),
            trim_items(start, all, index as int, cuts@, names) == Ok::<Trimmed, Seq<char>>(
                Trimmed {
                    items: value::views(left@),
                    fragments: count as int,
                    drawn: names.len() as int,
                },
            ),
        decreases items.len() - index,
    {
        let item = &items[index];
        let ghost done = value::views(left@);
        let ghost state = Trimmed {
            items: done,
            fragments: count as int,
            drawn: names.len() as int,
        };
        if is_never_painted(&item.content) {
            left.push(item.duplicate());
            assert(value::views(left@) =~= done.push(item@));
            index += 1;
            continue;
        }
        let pieces = match subtract_spans(item.span, cuts) {
            Ok(pieces) => pieces,
            Err(message) => {
                proof {
                    lemma_trim_fails(start, all, index as int, cuts@, names, ids, message@);
                }
                return Err(message);
            },
        };
        if pieces.len() > MAX_OVERLAY_FRAGMENTS - count {
            proof {
                lemma_trim_fails(
                    start,
                    all,
                    index as int,
                    cuts@,
                    names,
                    ids,
                    "Motion edit would create more than 10,000 overlay fragments."@,
                );
            }
            return Err("Motion edit would create more than 10,000 overlay fragments.".to_owned());
        }
        let ghost old_names = names;
        let mut piece: usize = 0;
        while piece < pieces.len()
            invariant
                piece <= pieces.len(),
                pieces@ == spans::pieces(item.span, cuts@),
                old_names.is_prefix_of(names),
                names.len() == old_names.len() + extra(piece as int),
                forall|i: int| 0 <= i < names.len() ==> identity::is_random_uuid(#[trigger] names[i]),
                value::views(left@) == done + fragments(
                    item@,
                    cuts@,
                    names,
                    old_names.len() as int,
                ).take(piece as int),
            decreases pieces.len() - piece,
        {
            let ghost was = names;
            let id = if piece == 0 {
                item.id
            } else {
                let value: u128 = draw();
                proof {
                    names = names.push(value);
                }
                OverlayId { value }
            };
            let ghost group = fragments(item@, cuts@, names, old_names.len() as int);
            let ghost shown = value::views(left@);
            left.push(
                OverlayItem {
                    id,
                    span: pieces[piece],
                    z_index: item.z_index,
                    content: item.content.duplicate(),
                },
            );
            proof {
                assert(fragments(item@, cuts@, was, old_names.len() as int).take(piece as int)
                    =~= group.take(piece as int));
                assert(value::views(left@) =~= shown.push(group[piece as int]));
                assert(group.take(piece + 1) =~= group.take(piece as int).push(
                    group[piece as int],
                ));
                assert(value::views(left@) =~= done + group.take(piece + 1));
            }
            piece += 1;
        }
        proof {
            let group = fragments(item@, cuts@, names, old_names.len() as int);
            assert(group.take(piece as int) =~= group);
            lemma_trim_more_ids(
                start,
                all,
                index as int,
                cuts@,
                old_names,
                names,
                old_names.len() as int,
            );
        }
        count = count + pieces.len();
        index += 1;
    }
    Ok((left, count, Ghost(names)))
}

/// A failure at one item is the failure of the whole list, whichever identities
/// were drawn before it.
proof fn lemma_trim_fails(
    start: Trimmed,
    items: Seq<ItemView>,
    index: int,
    cuts: Seq<TimelineSpan>,
    names: Seq<u128>,
    ids: Seq<u128>,
    message: Seq<char>,
)
    requires
        0 <= start.drawn,
        0 <= index < items.len(),
        trim_items(start, items, index + 1, cuts, names) == Err::<Trimmed, Seq<char>>(message),
    ensures
        trim_items(start, items, items.len() as int, cuts, ids) == Err::<Trimmed, Seq<char>>(
            message,
        ),
{
    lemma_trim_more_ids(start, items, index + 1, cuts, names, ids, 0);
    lemma_trim_stays_failed(start, items, index + 1, items.len() as int, cuts, ids);
}

/// A list that has failed stays failed.
proof fn lemma_trim_stays_failed(
    start: Trimmed,
    items: Seq<ItemView>,
    failed: int,
    count: int,
    cuts: Seq<TimelineSpan>,
    ids: Seq<u128>,
)
    requires
        failed <= count,
        trim_items(start, items, failed, cuts, ids) is Err,
    ensures
        trim_items(start, items, count, cuts, ids) == trim_items(start, items, failed, cuts, ids),
    decreases count,
{
    if failed < count {
        lemma_trim_stays_failed(start, items, failed, count - 1, cuts, ids);
    }
}

/// The marks of `marks` that are never painted.
fn keep_unpainted(marks: &Vec<FrameOverlayMark>) -> (kept: Vec<FrameOverlayMark>)
    ensures
        value::views(kept@) == value::views(marks@).filter(unpainted()),
{
    let ghost all = value::views(marks@);
    let mut kept: Vec<FrameOverlayMark> = Vec::new();
    let mut index: usize = 0;
    proof {
        reveal(Seq::filter);
        assert(all.take(0).filter(unpainted()) =~= Seq::empty());
        assert(value::views(kept@) =~= Seq::empty());
    }
    while index < marks.len()
        invariant
            index <= marks.len(),
            all == value::views(marks@),
            value::views(kept@) == all.take(index as int).filter(unpainted()),
        decreases marks.len() - index,
    {
        proof {
            value::lemma_filter_next(all, unpainted(), index as int);
        }
        if is_never_painted(&marks[index].content) {
            let ghost before = value::views(kept@);
            kept.push(marks[index].duplicate());
            assert(value::views(kept@) =~= before.push(all[index as int]));
        }
        index += 1;
    }
    assert(all.take(index as int) =~= all);
    kept
}

/// Takes the marks of baked frames out of a layer that owns marks by frame.
///
/// Marks that are never painted stay, with what authoring covered of their frame.
pub fn remove_baked_frame_cells<C: CancellationToken>(
    track: &OverlayTrack,
    owners: &Vec<FrameId>,
    cancellation: &C,
) -> (result: Result<Option<EditCommand>, String>)
    requires
        track.frame_cells is Some,
    ensures
        match result {
            Ok(command) => value::option_view(command) == cells_command(
                track@,
                kept_cells(track@.frame_cells->0, owners@),
            ),
            Err(message) => cancellation.may_cancel() && message@ == motion_pixels::stopped(),
        },
        cancellation.must_cancel() ==> result is Err,
{
    let cells = match &track.frame_cells {
        Some(cells) => cells,
        None => {
            assert(false);
            return Ok(None);
        },
    };
    let ghost all = Seq::new(
        value::views(cells@).len(),
        |i: int| kept_cell(value::views(cells@)[i], owners@),
    );
    let mut kept: Vec<FrameOverlayCell> = Vec::new();
    let mut index: usize = 0;
    proof {
        reveal(Seq::filter);
        assert(all.take(0).filter(staying(owners@)) =~= Seq::empty());
        assert(value::views(kept@) =~= Seq::empty());
    }
    while index < cells.len()
        invariant
            index <= cells.len(),
            all == Seq::new(
                value::views(cells@).len(),
                |i: int| kept_cell(value::views(cells@)[i], owners@),
            ),
            value::views(kept@) == all.take(index as int).filter(staying(owners@)),
        decreases cells.len() - index,
    {
        check_cancelled(cancellation)?;
        proof {
            value::lemma_filter_next(all, staying(owners@), index as int);
        }
        let ghost before = value::views(kept@);
        let mut cell = cells[index].duplicate();
        assert(value::views(cells@)[index as int] == cells@[index as int]@);
        if contains_frame(owners, cell.frame_id) {
            cell.marks = keep_unpainted(&cells[index].marks);
            assert(cell@ == all[index as int]);
            assert(value::views(cell.marks@).len() == cell.marks@.len());
            if cell.marks.len() > 0 {
                kept.push(cell);
                assert(value::views(kept@) =~= before.push(all[index as int]));
            }
        } else {
            assert(cell@ == all[index as int]);
            kept.push(cell);
            assert(value::views(kept@) =~= before.push(all[index as int]));
        }
        index += 1;
    }
    assert(all.take(index as int) =~= all);
    check_cancelled(cancellation)?;
    let empty = kept.len() == 0;
    let mut replacement = track.duplicate();
    replacement.frame_cells = Some(kept);
    assert(value::views(kept@).len() == kept@.len());
    assert(replacement@ == (TrackView {
        frame_cells: Some(value::views(kept@)),
        ..track@
    }));
    if replacement.same(track) {
        return Ok(None);
    }
    Ok(
        Some(
            if empty {
                EditCommand::RemoveOverlayTrack { track_id: track.id }
            } else {
                EditCommand::UpsertOverlayTrack { track: replacement }
            },
        ),
    )
}

/// Whether exactly the given identities were drawn for new pieces, all with the layout of a random
/// UUID.
pub open spec fn drawn_exactly(baked: Baked, ids: Seq<u128>) -> bool {
    &&& ids.len() == baked.drawn
    &&& forall|i: int| 0 <= i < ids.len() ==> identity::is_random_uuid(#[trigger] ids[i])
}

/// Takes what was baked into the frames `owners` out of the layers that painted it.
///
/// `cuts` are the spans of those frames and `scopes` what they leave of the spans
/// that the authoring of each layer covered. Layers and items that were not painted
/// stay as they are. The identities of new pieces are drawn at random.
pub fn remove_baked_overlay_spans<C: CancellationToken>(
    tracks: &Vec<OverlayTrack>,
    cuts: &Vec<TimelineSpan>,
    owners: &Vec<FrameId>,
    scopes: &Vec<DerivedScope>,
    cancellation: &C,
) -> (result: Result<Vec<EditCommand>, String>)
    requires
        scopes@.len() == tracks@.len(),
    ensures
        match result {
            Ok(commands) => exists|ids: Seq<u128>|
                (#[trigger] bake_tracks(
                    value::views(tracks@),
                    tracks@.len() as int,
                    scopes@,
                    cuts@,
                    owners@,
                    ids,
                )) matches Ok(baked) && baked.commands == value::views(commands@) && drawn_exactly(baked, ids),
            Err(message) => {
                ||| cancellation.may_cancel() && message@ == motion_pixels::stopped()
                ||| forall|ids: Seq<u128>|
                    (#[trigger] bake_tracks(
                        value::views(tracks@),
                        tracks@.len() as int,
                        scopes@,
                        cuts@,
                        owners@,
                        ids,
                    )) == Err::<Baked, Seq<char>>(message@)
            },
        },
        cancellation.must_cancel() && tracks@.len() > 0 ==> (result matches Err(message) && message@
            == motion_pixels::stopped()),
{
    let ghost all = value::views(tracks@);
    let ghost mut names: Seq<u128> = Seq::empty();
    let mut commands: Vec<EditCommand> = Vec::new();
    let mut total: usize = 0;
    let mut index: usize = 0;
    assert(value::views(commands@) =~= Seq::empty());
    while index < tracks.len()
        invariant
            index <= tracks.len(),
            scopes@.len() == tracks@.len(),
            all == value::views(tracks@),
            total <= MAX_OVERLAY_FRAGMENTS,
            bake_tracks(all, index as int, scopes@, cuts@, owners@, names) == Ok::<
                Baked,
                Seq<char>,
            >(
                Baked {
                    commands: value::views(commands@),
                    fragments: total as int,
                    drawn: names.len() as int,
                },
            ),
            forall|i: int| 0 <= i < names.len() ==> identity::is_random_uuid(#[trigger] names[i]),
            cancellation.must_cancel() ==> index == 0,
        decreases tracks.len() - index,
    {
        check_cancelled(cancellation)?;
        let track = &tracks[index];
        let ghost shown = value::views(commands@);
        let ghost before = Baked {
            commands: shown,
            fragments: total as int,
            drawn: names.len() as int,
        };
        assert(all[index as int] == track@);
        if !track.visible || track.opacity == 0 {
            index += 1;
            continue;
        }
        if track.frame_cells.is_some() {
            match remove_baked_frame_cells(track, owners, cancellation)? {
                Some(command) => {
                    let ghost shape = command@;
                    commands.push(command);
                    assert(value::views(commands@) =~= shown.push(shape));
                },
                None => {},
            }
            index += 1;
            continue;
        }
        let mut replacement = track.duplicate();
        if track.annotation_scope.is_some() {
            match &scopes[index] {
                DerivedScope::Known(list) => {
                    replacement.annotation_scope = Some(copy_all(list));
                },
                DerivedScope::Failed(message) => {
                    let message = message.clone();
                    proof {
                        lemma_bake_fails(
                            all,
                            index as int,
                            scopes@,
                            cuts@,
                            owners@,
                            names,
                            message@,
                        );
                    }
                    return Err(message);
                },
            }
        }
        let (items, count, more) = match trim_all(&track.items, cuts, total, Ghost(names)) {
            Ok(done) => done,
            Err(message) => {
                proof {
                    lemma_bake_fails(all, index as int, scopes@, cuts@, owners@, names, message@);
                }
                return Err(message);
            },
        };
        proof {
            lemma_bake_more_ids(
                all,
                index as int,
                scopes@,
                cuts@,
                owners@,
                names,
                more@,
                names.len() as int,
            );
            names = more@;
        }
        total = count;
        replacement.items = items;
        assert(value::views(items@).len() == items@.len());
        if !replacement.same(track) {
            let nothing_left = replacement.items.len() == 0 && match &replacement.annotation_scope {
                Some(scope) => scope.len() == 0,
                None => true,
            };
            let command = if nothing_left {
                EditCommand::RemoveOverlayTrack { track_id: track.id }
            } else {
                EditCommand::UpsertOverlayTrack { track: replacement }
            };
            let ghost shape = command@;
            commands.push(command);
            assert(value::views(commands@) =~= shown.push(shape));
        }
        index += 1;
    }
    Ok(commands)
}

/// A failure at one layer is the failure of the whole list, whichever identities
/// were drawn before it.
proof fn lemma_bake_fails(
    tracks: Seq<TrackView>,
    index: int,
    scopes: Seq<DerivedScope>,
    cuts: Seq<TimelineSpan>,
    owners: Seq<FrameId>,
    names: Seq<u128>,
    message: Seq<char>,
)
    requires
        0 <= index < tracks.len(),
        bake_tracks(tracks, index + 1, scopes, cuts, owners, names) == Err::<Baked, Seq<char>>(
            message,
        ),
    ensures
        forall|ids: Seq<u128>|
            (#[trigger] bake_tracks(tracks, tracks.len() as int, scopes, cuts, owners, ids)) == Err::<
                Baked,
                Seq<char>,
            >(message),
{
    assert forall|ids: Seq<u128>|
        (#[trigger] bake_tracks(tracks, tracks.len() as int, scopes, cuts, owners, ids)) == Err::<
            Baked,
            Seq<char>,
        >(message) by {
        lemma_bake_more_ids(tracks, index + 1, scopes, cuts, owners, names, ids, 0);
        lemma_bake_stays_failed(
            tracks,
            index + 1,
            tracks.len() as int,
            scopes,
            cuts,
            owners,
            ids,
        );
    }
}

/// A list of layers that has failed stays failed.
proof fn lemma_bake_stays_failed(
    tracks: Seq<TrackView>,
    failed: int,
    count: int,
    scopes: Seq<DerivedScope>,
    cuts: Seq<TimelineSpan>,
    owners: Seq<FrameId>,
    ids: Seq<u128>,
)
    requires
        failed <= count,
        bake_tracks(tracks, failed, scopes, cuts, owners, ids) is Err,
    ensures
        bake_tracks(tracks, count, scopes, cuts, owners, ids) == bake_tracks(
            tracks,
            failed,
            scopes,
            cuts,
            owners,
            ids,
        ),
    decreases count,
{
    if failed < count {
        lemma_bake_stays_failed(tracks, failed, count - 1, scopes, cuts, owners, ids);
    }
}

/// Whether an item of the given artwork is shown at a microsecond.
pub open spec fn painted_at(items: Seq<ItemView>, content: ContentView, z_index: i32, at: int) -> bool {
    exists|i: int|
        0 <= i < items.len() && (#[trigger] items[i]).span.covers(at) && items[i].content == content
            && items[i].z_index == z_index
}

proof fn lemma_painted_joined(one: Seq<ItemView>, other: Seq<ItemView>, content: ContentView, z_index: i32, at: int)
    ensures
        painted_at(one + other, content, z_index, at) <==> painted_at(one, content, z_index, at) || painted_at(
            other,
            content,
            z_index,
            at,
        ),
{
    let both = one + other;
    if painted_at(both, content, z_index, at) {
        let i = choose|i: int|
            0 <= i < both.len() && (#[trigger] both[i]).span.covers(at) && both[i].content == content
                && both[i].z_index == z_index;
        if i < one.len() {
            assert(one[i].span.covers(at));
        } else {
            assert(other[i - one.len()].span.covers(at));
        }
    }
    if painted_at(one, content, z_index, at) {
        let i = choose|i: int|
            0 <= i < one.len() && (#[trigger] one[i]).span.covers(at) && one[i].content == content
                && one[i].z_index == z_index;
        assert(both[i].span.covers(at));
    }
    if painted_at(other, content, z_index, at) {
        let i = choose|i: int|
            0 <= i < other.len() && (#[trigger] other[i]).span.covers(at) && other[i].content == content
                && other[i].z_index == z_index;
        assert(both[one.len() + i].span.covers(at));
    }
}

proof fn lemma_fragments_painted(
    item: ItemView,
    cuts: Seq<TimelineSpan>,
    ids: Seq<u128>,
    drawn: int,
    content: ContentView,
    z_index: i32,
    at: int,
)
    requires
        spans::sorted_by_start(cuts),
        item.span.hi() <= u64::MAX,
    ensures
        painted_at(fragments(item, cuts, ids, drawn), content, z_index, at) <==> painted_at(
            seq![item],
            content,
            z_index,
            at,
        ) && !spans::covered(cuts, at),
{
    broadcast use crate::time::lemma_duration_range;

    let pieces = spans::pieces(item.span, cuts);
    let left = fragments(item, cuts, ids, drawn);
    spans::lemma_pieces_cover(item.span, cuts);
    spans::law_sorted_cuts_remove_what_they_cover(item.span, cuts, at);
    assert(spans::covered(pieces, at) <==> spans::kept(item.span, cuts, at));
    if painted_at(left, content, z_index, at) {
        let k = choose|k: int|
            0 <= k < left.len() && (#[trigger] left[k]).span.covers(at) && left[k].content == content
                && left[k].z_index == z_index;
        assert(pieces[k].covers(at));
        assert(seq![item][0].span.covers(at));
    }
    if painted_at(seq![item], content, z_index, at) && !spans::covered(cuts, at) {
        assert(seq![item][0] == item);
        assert(spans::covered(pieces, at));
        let k = choose|k: int| 0 <= k < pieces.len() && (#[trigger] pieces[k]).covers(at);
        assert(left[k].span.covers(at));
    }
}

proof fn lemma_trimmed_painted(
    start: Trimmed,
    items: Seq<ItemView>,
    count: int,
    cuts: Seq<TimelineSpan>,
    ids: Seq<u128>,
    content: ContentView,
    z_index: i32,
    at: int,
)
    requires
        0 <= count <= items.len(),
        spans::sorted_by_start(cuts),
        !never_painted(content),
        trim_items(start, items, count, cuts, ids) is Ok,
    ensures
        painted_at(trim_items(start, items, count, cuts, ids)->Ok_0.items, content, z_index, at) <==> painted_at(
            start.items,
            content,
            z_index,
            at,
        ) || (painted_at(items.take(count), content, z_index, at) && !spans::covered(cuts, at)),
    decreases count,
{
    if count > 0 {
        let item = items[count - 1];
        let earlier = trim_items(start, items, count - 1, cuts, ids)->Ok_0;
        lemma_trimmed_painted(start, items, count - 1, cuts, ids, content, z_index, at);
        assert(items.take(count) =~= items.take(count - 1) + seq![item]);
        lemma_painted_joined(items.take(count - 1), seq![item], content, z_index, at);
        if never_painted(item.content) {
            assert(earlier.items.push(item) =~= earlier.items + seq![item]);
            lemma_painted_joined(earlier.items, seq![item], content, z_index, at);
            if painted_at(seq![item], content, z_index, at) {
                assert(seq![item][0] == item);
            }
        } else {
            lemma_painted_joined(
                earlier.items,
                fragments(item, cuts, ids, earlier.drawn),
                content,
                z_index,
                at,
            );
            lemma_fragments_painted(item, cuts, ids, earlier.drawn, content, z_index, at);
        }
    } else {
        assert(items.take(count) =~= Seq::empty());
    }
}

/// Once the frames of some spans were baked, a timed layer shows its artwork exactly where it did
/// before, but for these spans.
pub proof fn law_baked_spans_show_no_artwork(
    items: Seq<ItemView>,
    fragments_before: int,
    drawn_before: int,
    cuts: Seq<TimelineSpan>,
    ids: Seq<u128>,
    content: ContentView,
    z_index: i32,
    at: int,
)
    requires
        spans::sorted_by_start(cuts),
        !never_painted(content),
        trim_items(
            Trimmed { items: Seq::empty(), fragments: fragments_before, drawn: drawn_before },
            items,
            items.len() as int,
            cuts,
            ids,
        ) is Ok,
    ensures
        ({
            let left = trim_items(
                Trimmed { items: Seq::empty(), fragments: fragments_before, drawn: drawn_before },
                items,
                items.len() as int,
                cuts,
                ids,
            )->Ok_0.items;
            painted_at(left, content, z_index, at) <==> painted_at(items, content, z_index, at) && !spans::covered(
                cuts,
                at,
            )
        }),
{
    let start = Trimmed { items: Seq::empty(), fragments: fragments_before, drawn: drawn_before };
    lemma_trimmed_painted(start, items, items.len() as int, cuts, ids, content, z_index, at);
    assert(items.take(items.len() as int) =~= items);
    assert(!painted_at(start.items, content, z_index, at));
}

/// Once frames were baked, none of their marks that was ever painted is left, and the cells of other
/// frames are as before.
pub proof fn law_baked_frames_keep_no_painted_mark(cells: Seq<CellView>, owners: Seq<FrameId>, cell: CellView)
    requires
        kept_cells(cells, owners).contains(cell),
    ensures
        owners.contains(cell.frame_id) ==> forall|m: int|
            0 <= m < cell.marks.len() ==> never_painted((#[trigger] cell.marks[m]).content),
        !owners.contains(cell.frame_id) ==> cells.contains(cell),
{
    broadcast use vstd::seq_lib::group_filter_ensures;

    let all = Seq::new(cells.len(), |i: int| kept_cell(cells[i], owners));
    all.lemma_filter_contains_rev(staying(owners), cell);
    let i = choose|i: int| 0 <= i < all.len() && all[i] == cell;
    assert(cell == kept_cell(cells[i], owners));
    if owners.contains(cell.frame_id) {
        assert forall|m: int| 0 <= m < cell.marks.len() implies never_painted((#[trigger] cell.marks[m]).content) by {
            assert(cells[i].marks.filter(unpainted())[m] == cell.marks[m]);
            assert(unpainted()(cell.marks[m]));
        }
    }
}

/// Whether items are cut from others: each shows what the item it stems from shows, within its time; they
/// come in the order of those items and, of one item, in the order of time. The first piece of an item
/// keeps its identity, and the later ones take new identities, one after another.
pub open spec fn cut_from(
    left: Seq<ItemView>,
    items: Seq<ItemView>,
    from: Seq<int>,
    name: Seq<int>,
    ids: Seq<u128>,
) -> bool {
    &&& from.len() == left.len() && name.len() == left.len()
    &&& forall|i: int|
        0 <= i < left.len() ==> {
            &&& 0 <= #[trigger] from[i] < items.len()
            &&& left[i].content == items[from[i]].content
            &&& left[i].z_index == items[from[i]].z_index
            &&& items[from[i]].span.lo() <= left[i].span.lo()
            &&& left[i].span.hi() <= items[from[i]].span.hi()
        }
    &&& forall|i: int, j: int|
        0 <= i < j < left.len() ==> #[trigger] from[i] <= #[trigger] from[j] && (from[i] == from[j]
            ==> left[i].span.hi() < left[j].span.lo())
    &&& forall|i: int|
        0 <= i < left.len() ==> #[trigger] left[i].id == (if i > 0 && from[i - 1] == from[i] {
            OverlayId { value: ids[name[i]] }
        } else {
            items[from[i]].id
        })
    &&& forall|i: int, j: int|
        0 < i < j < left.len() && from[i - 1] == from[i] && from[j - 1] == from[j] ==> #[trigger] name[i]
            < #[trigger] name[j]
}

/// Whether content is a picture that is wholly transparent.
pub open spec fn transparent(content: ContentView) -> bool {
    content matches ContentView::Raster { opacity, .. } && opacity == 0
}

proof fn lemma_pieces_within(item: ItemView, cuts: Seq<TimelineSpan>)
    requires
        item.span.hi() <= u64::MAX,
    ensures
        ({
            let pieces = spans::pieces(item.span, cuts);
            &&& spans::separated(pieces)
            &&& forall|k: int|
                0 <= k < pieces.len() ==> item.span.lo() <= (#[trigger] pieces[k]).lo() && pieces[k].hi()
                    <= item.span.hi()
        }),
{
    broadcast use crate::time::lemma_duration_range;

    spans::lemma_pieces_cover(item.span, cuts);
    let pieces = spans::pieces(item.span, cuts);
    assert forall|k: int| 0 <= k < pieces.len() implies item.span.lo() <= (#[trigger] pieces[k]).lo() && pieces[k].hi()
        <= item.span.hi() by {
        assert(pieces[k].covers(pieces[k].lo()));
        assert(spans::covered(pieces, pieces[k].lo()));
        assert(spans::kept(item.span, cuts, pieces[k].lo()));
        assert(pieces[k].covers(pieces[k].hi() - 1));
        assert(spans::covered(pieces, pieces[k].hi() - 1));
        assert(spans::kept(item.span, cuts, pieces[k].hi() - 1));
    }
}

proof fn lemma_trimmed_from(
    start: Trimmed,
    items: Seq<ItemView>,
    count: int,
    cuts: Seq<TimelineSpan>,
    ids: Seq<u128>,
) -> (origin: (Seq<int>, Seq<int>))
    requires
        0 <= count <= items.len(),
        start.items.len() == 0,
        trim_items(start, items, count, cuts, ids) is Ok,
    ensures
        ({
            let after = trim_items(start, items, count, cuts, ids)->Ok_0;
            let (from, name) = origin;
            &&& cut_from(after.items, items, from, name, ids)
            &&& forall|i: int| 0 <= i < from.len() ==> #[trigger] from[i] < count
            &&& forall|i: int|
                0 < i < from.len() && from[i - 1] == from[i] ==> start.drawn <= #[trigger] name[i] < after.drawn
            &&& start.drawn <= after.drawn
            &&& forall|i: int|
                0 <= i < from.len() && transparent(items[#[trigger] from[i]].content) ==> after.items[i]
                    == items[from[i]]
            &&& forall|k: int|
                0 <= k < count && transparent((#[trigger] items[k]).content) ==> after.items.contains(items[k])
        }),
    decreases count,
{
    let after = trim_items(start, items, count, cuts, ids)->Ok_0;
    if count <= 0 {
        (Seq::empty(), Seq::empty())
    } else {
        let (old_from, old_name) = lemma_trimmed_from(start, items, count - 1, cuts, ids);
        let before = trim_items(start, items, count - 1, cuts, ids)->Ok_0;
        let item = items[count - 1];
        let n = before.items.len() as int;
        if never_painted(item.content) {
            let from = old_from.push(count - 1);
            let name = old_name.push(0);
            assert(after.items == before.items.push(item));
            assert forall|i: int| 0 <= i < after.items.len() implies #[trigger] after.items[i].id == (if i > 0 && from[i
                - 1] == from[i] {
                OverlayId { value: ids[name[i]] }
            } else {
                items[from[i]].id
            }) by {
                if i < n {
                    assert(after.items[i] == before.items[i]);
                } else if i > 0 {
                    assert(old_from[i - 1] < count - 1);
                }
            }
            assert forall|i: int, j: int|
                0 < i < j < after.items.len() && from[i - 1] == from[i] && from[j - 1] == from[j] implies #[trigger] name[i]
                < #[trigger] name[j] by {
                if j == n {
                    assert(old_from[j - 1] < count - 1);
                } else {
                    assert(old_name[i] < old_name[j]);
                }
            }
            assert forall|i: int| 0 < i < from.len() && from[i - 1] == from[i] implies start.drawn <= #[trigger] name[i]
                < after.drawn by {
                if i == n {
                    assert(old_from[i - 1] < count - 1);
                } else {
                    assert(old_name[i] == name[i]);
                }
            }
            assert forall|k: int| 0 <= k < count && transparent((#[trigger] items[k]).content) implies after.items.contains(
                items[k],
            ) by {
                if k < count - 1 {
                    let i = choose|i: int| 0 <= i < before.items.len() && before.items[i] == items[k];
                    assert(after.items[i] == items[k]);
                } else {
                    assert(after.items[n] == item);
                }
            }
            (from, name)
        } else {
            lemma_pieces_within(item, cuts);
            let pieces = spans::pieces(item.span, cuts);
            let m = pieces.len() as int;
            let cut = fragments(item, cuts, ids, before.drawn);
            let from = old_from + Seq::new(pieces.len(), |k: int| count - 1);
            let name = old_name + Seq::new(pieces.len(), |k: int| before.drawn + k - 1);
            assert(after.items == before.items + cut);
            assert forall|i: int| 0 <= i < after.items.len() implies {
                &&& 0 <= #[trigger] from[i] < items.len()
                &&& after.items[i].content == items[from[i]].content
                &&& after.items[i].z_index == items[from[i]].z_index
                &&& items[from[i]].span.lo() <= after.items[i].span.lo()
                &&& after.items[i].span.hi() <= items[from[i]].span.hi()
            } by {
                if i < n {
                    assert(from[i] == old_from[i]);
                    assert(after.items[i] == before.items[i]);
                } else {
                    assert(after.items[i] == cut[i - n]);
                    assert(pieces[i - n] == cut[i - n].span);
                }
            }
            assert forall|i: int, j: int| 0 <= i < j < after.items.len() implies #[trigger] from[i] <= #[trigger] from[j]
                && (from[i] == from[j] ==> after.items[i].span.hi() < after.items[j].span.lo()) by {
                if j < n {
                    assert(from[i] == old_from[i] && from[j] == old_from[j]);
                    assert(after.items[i] == before.items[i] && after.items[j] == before.items[j]);
                } else if i < n {
                    assert(from[i] == old_from[i]);
                } else {
                    assert(after.items[i] == cut[i - n] && after.items[j] == cut[j - n]);
                    assert(pieces[i - n].hi() < pieces[j - n].lo());
                }
            }
            assert forall|i: int| 0 <= i < after.items.len() implies #[trigger] after.items[i].id == (if i > 0 && from[i
                - 1] == from[i] {
                OverlayId { value: ids[name[i]] }
            } else {
                items[from[i]].id
            }) by {
                if i < n {
                    assert(after.items[i] == before.items[i]);
                    assert(from[i] == old_from[i] && name[i] == old_name[i]);
                    if i > 0 {
                        assert(from[i - 1] == old_from[i - 1]);
                    }
                } else {
                    assert(after.items[i] == cut[i - n]);
                    if i > 0 && i == n {
                        assert(from[i - 1] == old_from[i - 1]);
                    }
                }
            }
            assert forall|i: int, j: int|
                0 < i < j < after.items.len() && from[i - 1] == from[i] && from[j - 1] == from[j] implies #[trigger] name[i]
                < #[trigger] name[j] by {
                if j < n {
                    assert(from[i] == old_from[i] && from[i - 1] == old_from[i - 1]);
                    assert(from[j] == old_from[j] && from[j - 1] == old_from[j - 1]);
                    assert(old_name[i] < old_name[j]);
                } else if j == n {
                    assert(from[j - 1] == old_from[j - 1]);
                } else if i < n {
                    assert(from[i] == old_from[i] && from[i - 1] == old_from[i - 1]);
                    assert(old_name[i] < before.drawn);
                    assert(name[i] == old_name[i]);
                } else if i == n {
                    assert(from[i - 1] == old_from[i - 1]);
                }
            }
            assert forall|i: int| 0 < i < from.len() && from[i - 1] == from[i] implies start.drawn <= #[trigger] name[i]
                < after.drawn by {
                if i < n {
                    assert(from[i] == old_from[i] && from[i - 1] == old_from[i - 1]);
                    assert(name[i] == old_name[i]);
                } else if i == n {
                    assert(from[i - 1] == old_from[i - 1]);
                } else {
                    assert(name[i] == before.drawn + (i - n) - 1);
                }
            }
            assert forall|i: int|
                0 <= i < from.len() && transparent(items[#[trigger] from[i]].content) implies after.items[i]
                == items[from[i]] by {
                if i < n {
                    assert(from[i] == old_from[i]);
                    assert(after.items[i] == before.items[i]);
                }
            }
            assert forall|i: int| 0 <= i < from.len() implies #[trigger] from[i] < count by {
                if i < n {
                    assert(from[i] == old_from[i]);
                }
            }
            assert forall|k: int| 0 <= k < count && transparent((#[trigger] items[k]).content) implies after.items.contains(
                items[k],
            ) by {
                let i = choose|i: int| 0 <= i < before.items.len() && before.items[i] == items[k];
                assert(after.items[i] == items[k]);
            }
            (from, name)
        }
    }
}

/// Items that are trimmed are cut from those that there were: they show the same, in the same order, the
/// first piece of an item under its identity and the others under new ones, no two of them alike. What is
/// wholly transparent stays as it is.
pub proof fn law_trimmed_items_are_cut_in_order(
    items: Seq<ItemView>,
    fragments_before: int,
    drawn_before: int,
    cuts: Seq<TimelineSpan>,
    ids: Seq<u128>,
) -> (origin: (Seq<int>, Seq<int>))
    requires
        trim_items(
            Trimmed { items: Seq::empty(), fragments: fragments_before, drawn: drawn_before },
            items,
            items.len() as int,
            cuts,
            ids,
        ) is Ok,
    ensures
        ({
            let left = trim_items(
                Trimmed { items: Seq::empty(), fragments: fragments_before, drawn: drawn_before },
                items,
                items.len() as int,
                cuts,
                ids,
            )->Ok_0.items;
            &&& cut_from(left, items, origin.0, origin.1, ids)
            &&& forall|i: int|
                0 < i < left.len() && origin.0[i - 1] == origin.0[i] ==> drawn_before <= #[trigger] origin.1[i]
            &&& forall|i: int|
                0 <= i < left.len() && transparent(items[#[trigger] origin.0[i]].content) ==> left[i]
                    == items[origin.0[i]]
            &&& forall|k: int|
                0 <= k < items.len() && transparent((#[trigger] items[k]).content) ==> left.contains(items[k])
        }),
{
    lemma_trimmed_from(
        Trimmed { items: Seq::empty(), fragments: fragments_before, drawn: drawn_before },
        items,
        items.len() as int,
        cuts,
        ids,
    )
}

/// An item is refused exactly where it is painted and its time or that of a cut cannot be written, or where
/// its pieces make more than 10,000.
pub proof fn law_what_cannot_be_trimmed(before: Trimmed, item: ItemView, cuts: Seq<TimelineSpan>, ids: Seq<u128>)
    ensures
        trim_item(before, item, cuts, ids) is Err <==> !transparent(item.content) && {
            ||| item.span.start.us + item.span.duration@ > u64::MAX
            ||| exists|c: int|
                0 <= c < cuts.len() && (#[trigger] cuts[c]).start.us + cuts[c].duration@ > u64::MAX
            ||| before.fragments + spans::pieces(item.span, cuts).len() > 10_000
        },
        trim_item(before, item, cuts, ids) matches Ok(after) ==> after.fragments == before.fragments + (
        if transparent(item.content) {
            0
        } else {
            spans::pieces(item.span, cuts).len() as int
        }),
{
    if !spans::representable(cuts) {
        let c = choose|c: int| 0 <= c < cuts.len() && !((#[trigger] cuts[c]).hi() <= u64::MAX);
        assert(cuts[c].start.us + cuts[c].duration@ > u64::MAX);
    } else {
        assert forall|c: int| 0 <= c < cuts.len() implies !((#[trigger] cuts[c]).start.us + cuts[c].duration@
            > u64::MAX) by {
            assert(cuts[c].hi() <= u64::MAX);
        }
    }
}

proof fn lemma_kept_in_order(cells: Seq<CellView>, owners: Seq<FrameId>, count: int) -> (from: Seq<int>)
    requires
        0 <= count <= cells.len(),
    ensures
        ({
            let kept = Seq::new(cells.len(), |i: int| kept_cell(cells[i], owners)).take(count).filter(staying(owners));
            &&& from.len() == kept.len()
            &&& forall|i: int|
                0 <= i < kept.len() ==> 0 <= #[trigger] from[i] < count && kept[i] == kept_cell(cells[from[i]], owners)
                    && staying(owners)(kept[i])
            &&& forall|i: int, j: int| 0 <= i < j < from.len() ==> #[trigger] from[i] < #[trigger] from[j]
            &&& forall|c: int|
                0 <= c < count && !from.contains(c) ==> !staying(owners)(kept_cell(#[trigger] cells[c], owners))
        }),
    decreases count,
{
    let mapped = Seq::new(cells.len(), |i: int| kept_cell(cells[i], owners));
    let pred = staying(owners);
    reveal(Seq::filter);
    if count == 0 {
        assert(mapped.take(0).filter(pred) =~= Seq::empty());
        Seq::empty()
    } else {
        let before = lemma_kept_in_order(cells, owners, count - 1);
        value::lemma_filter_next(mapped, pred, count - 1);
        let kept = mapped.take(count).filter(pred);
        if pred(mapped[count - 1]) {
            let from = before.push(count - 1);
            assert forall|i: int| 0 <= i < kept.len() implies 0 <= #[trigger] from[i] < count && kept[i] == kept_cell(
                cells[from[i]],
                owners,
            ) && staying(owners)(kept[i]) by {
                if i < before.len() {
                    assert(from[i] == before[i]);
                }
            }
            assert forall|c: int| 0 <= c < count && !from.contains(c) implies !staying(owners)(
                kept_cell(#[trigger] cells[c], owners),
            ) by {
                assert(from[before.len() as int] == count - 1);
                if before.contains(c) {
                    let i = choose|i: int| 0 <= i < before.len() && before[i] == c;
                    assert(from[i] == c);
                }
            }
            from
        } else {
            before
        }
    }
}

/// Cells that are kept come in their order, each with its frame, its stage, its scopes and its replay.
/// Those of frames that are not baked stay as they are; of the others stay, in order, the marks that are
/// wholly transparent, and a cell goes only where none is left.
pub proof fn law_kept_cells_lose_only_painted_marks(cells: Seq<CellView>, owners: Seq<FrameId>) -> (from: Seq<int>)
    ensures
        ({
            let kept = kept_cells(cells, owners);
            let clear = |mark: MarkView| mark.content matches ContentView::Raster { opacity, .. } && opacity == 0;
            &&& from.len() == kept.len()
            &&& forall|i: int|
                0 <= i < kept.len() ==> {
                    let cell = cells[#[trigger] from[i]];
                    &&& 0 <= from[i] < cells.len()
                    &&& kept[i].frame_id == cell.frame_id
                    &&& kept[i].stage == cell.stage
                    &&& kept[i].scopes == cell.scopes
                    &&& kept[i].input_replay == cell.input_replay
                    &&& !owners.contains(cell.frame_id) ==> kept[i] == cell
                    &&& owners.contains(cell.frame_id) ==> kept[i].marks == cell.marks.filter(clear)
                        && kept[i].marks.len() > 0
                }
            &&& forall|i: int, j: int| 0 <= i < j < from.len() ==> #[trigger] from[i] < #[trigger] from[j]
            &&& forall|c: int|
                0 <= c < cells.len() && !from.contains(c) ==> owners.contains((#[trigger] cells[c]).frame_id)
                    && cells[c].marks.filter(clear).len() == 0
        }),
{
    let clear = |mark: MarkView| mark.content matches ContentView::Raster { opacity, .. } && opacity == 0;
    assert(unpainted() =~= clear);
    let mapped = Seq::new(cells.len(), |i: int| kept_cell(cells[i], owners));
    assert(mapped.take(cells.len() as int) =~= mapped);
    lemma_kept_in_order(cells, owners, cells.len() as int)
}

/// Whether a command bakes a layer: one that is shown, which keeps its settings and shows nothing any more
/// where frames are baked and what it showed elsewhere, or which goes where nothing of it is left.
pub open spec fn bakes(
    command: CommandView,
    track: TrackView,
    cuts: Seq<TimelineSpan>,
    owners: Seq<FrameId>,
) -> bool {
    &&& track.visible && track.opacity > 0
    &&& match command {
        CommandView::UpsertOverlayTrack { track: layer } => {
            &&& layer != track
            &&& layer.id == track.id
            &&& layer.annotation == track.annotation
            &&& layer.name == track.name
            &&& layer.visible == track.visible
            &&& layer.opacity == track.opacity
            &&& layer.blend_mode == track.blend_mode
            &&& match track.frame_cells {
                Some(cells) => {
                    &&& layer.frame_cells == Some(kept_cells(cells, owners))
                    &&& layer.items == track.items
                    &&& layer.annotation_scope == track.annotation_scope
                },
                None => {
                    &&& layer.frame_cells is None
                    &&& layer.annotation_scope is Some <==> track.annotation_scope is Some
                    &&& forall|content: ContentView, z_index: i32, at: int|
                        !transparent(content) ==> (#[trigger] painted_at(layer.items, content, z_index, at)
                            <==> painted_at(track.items, content, z_index, at) && !spans::covered(cuts, at))
                },
            }
        },
        CommandView::RemoveOverlayTrack { track_id } => {
            &&& track_id == track.id
            &&& match track.frame_cells {
                Some(cells) => kept_cells(cells, owners).len() == 0,
                None => forall|content: ContentView, z_index: i32, at: int|
                    !transparent(content) && #[trigger] painted_at(track.items, content, z_index, at)
                        ==> spans::covered(cuts, at),
            }
        },
        _ => false,
    }
}

/// Whether a layer can be left alone: it is not shown, or it shows nothing where frames are baked.
pub open spec fn needs_no_baking(track: TrackView, cuts: Seq<TimelineSpan>, owners: Seq<FrameId>) -> bool {
    ||| !track.visible
    ||| track.opacity == 0
    ||| match track.frame_cells {
        Some(cells) => kept_cells(cells, owners) == cells,
        None => forall|content: ContentView, z_index: i32, at: int|
            !transparent(content) && #[trigger] painted_at(track.items, content, z_index, at) ==> !spans::covered(
                cuts,
                at,
            ),
    }
}

proof fn lemma_baked_track(
    before: Baked,
    track: TrackView,
    scope: DerivedScope,
    cuts: Seq<TimelineSpan>,
    owners: Seq<FrameId>,
    ids: Seq<u128>,
)
    requires
        spans::sorted_by_start(cuts),
        bake_track(before, track, scope, cuts, owners, ids) is Ok,
    ensures
        ({
            let after = bake_track(before, track, scope, cuts, owners, ids)->Ok_0;
            ||| after.commands == before.commands && needs_no_baking(track, cuts, owners)
            ||| after.commands.len() == before.commands.len() + 1 && after.commands.drop_last() == before.commands
                && bakes(after.commands.last(), track, cuts, owners)
        }),
{
    let after = bake_track(before, track, scope, cuts, owners, ids)->Ok_0;
    if track.visible && track.opacity != 0 && track.frame_cells is None {
        let start = Trimmed { items: Seq::empty(), fragments: before.fragments, drawn: before.drawn };
        let left = trim_items(start, track.items, track.items.len() as int, cuts, ids)->Ok_0.items;
        assert forall|content: ContentView, z_index: i32, at: int| !transparent(content) implies (
        #[trigger] painted_at(left, content, z_index, at) <==> painted_at(track.items, content, z_index, at)
            && !spans::covered(cuts, at)) by {
            law_baked_spans_show_no_artwork(
                track.items,
                before.fragments,
                before.drawn,
                cuts,
                ids,
                content,
                z_index,
                at,
            );
        }
        assert forall|content: ContentView, z_index: i32, at: int|
            !transparent(content) && #[trigger] painted_at(track.items, content, z_index, at) && left == track.items
            implies !spans::covered(cuts, at) by {
            assert(painted_at(left, content, z_index, at));
        }
        assert forall|content: ContentView, z_index: i32, at: int|
            !transparent(content) && #[trigger] painted_at(track.items, content, z_index, at) && left.len() == 0
            implies spans::covered(cuts, at) by {
            assert(!painted_at(left, content, z_index, at));
        }
    }
    if after.commands != before.commands {
        assert(after.commands.drop_last() =~= before.commands);
    }
}

/// Baking changes, in the order of the layers, each layer that shows something where frames are baked, and
/// leaves the others alone. Which layer each change is about is given back.
pub proof fn law_baking_changes_what_is_shown(
    tracks: Seq<TrackView>,
    count: int,
    scopes: Seq<DerivedScope>,
    cuts: Seq<TimelineSpan>,
    owners: Seq<FrameId>,
    ids: Seq<u128>,
) -> (from: Seq<int>)
    requires
        0 <= count <= tracks.len(),
        spans::sorted_by_start(cuts),
        bake_tracks(tracks, count, scopes, cuts, owners, ids) is Ok,
    ensures
        ({
            let commands = bake_tracks(tracks, count, scopes, cuts, owners, ids)->Ok_0.commands;
            &&& from.len() == commands.len()
            &&& forall|j: int|
                0 <= j < from.len() ==> 0 <= #[trigger] from[j] < count && bakes(
                    commands[j],
                    tracks[from[j]],
                    cuts,
                    owners,
                )
            &&& forall|i: int, j: int| 0 <= i < j < from.len() ==> #[trigger] from[i] < #[trigger] from[j]
            &&& forall|t: int|
                0 <= t < count && !from.contains(t) ==> needs_no_baking(#[trigger] tracks[t], cuts, owners)
        }),
    decreases count,
{
    if count == 0 {
        Seq::empty()
    } else {
        let old_from = law_baking_changes_what_is_shown(tracks, count - 1, scopes, cuts, owners, ids);
        let before = bake_tracks(tracks, count - 1, scopes, cuts, owners, ids)->Ok_0;
        let after = bake_tracks(tracks, count, scopes, cuts, owners, ids)->Ok_0;
        lemma_baked_track(before, tracks[count - 1], scopes[count - 1], cuts, owners, ids);
        if after.commands == before.commands && needs_no_baking(tracks[count - 1], cuts, owners) {
            old_from
        } else {
            let from = old_from.push(count - 1);
            assert forall|j: int| 0 <= j < from.len() implies 0 <= #[trigger] from[j] < count && bakes(
                after.commands[j],
                tracks[from[j]],
                cuts,
                owners,
            ) by {
                if j < old_from.len() {
                    assert(from[j] == old_from[j]);
                    assert(after.commands.drop_last()[j] == after.commands[j]);
                }
            }
            assert forall|t: int| 0 <= t < count && !from.contains(t) implies needs_no_baking(
                #[trigger] tracks[t],
                cuts,
                owners,
            ) by {
                assert(from[old_from.len() as int] == count - 1);
                if old_from.contains(t) {
                    let i = choose|i: int| 0 <= i < old_from.len() && old_from[i] == t;
                    assert(from[i] == t);
                }
            }
            from
        }
    }
}

/// A layer that is baked takes the scope that was derived for it, where it has one, and keeps its settings.
pub proof fn law_a_baked_layer_takes_its_derived_scope(
    track: TrackView,
    items: Seq<ItemView>,
    scope: Option<Seq<TimelineSpan>>,
)
    ensures
        match items_command(track, items, scope) {
            None => items == track.items && scope == track.annotation_scope,
            Some(CommandView::UpsertOverlayTrack { track: layer }) => {
                &&& layer.items == items && layer.annotation_scope == scope
                &&& layer.id == track.id && layer.name == track.name && layer.annotation == track.annotation
                &&& items.len() > 0 || (scope is Some && scope->0.len() > 0)
            },
            Some(CommandView::RemoveOverlayTrack { track_id }) => {
                &&& track_id == track.id
                &&& items.len() == 0
                &&& scope is None || scope->0.len() == 0
            },
            _ => false,
        },
{
}

/// A layer that is shown by time cannot be baked where it has a scope that could not be derived or an item
/// that cannot be trimmed; one that is not shown, or that owns marks by frame, always can.
pub proof fn law_what_layers_can_be_baked(
    before: Baked,
    track: TrackView,
    scope: DerivedScope,
    cuts: Seq<TimelineSpan>,
    owners: Seq<FrameId>,
    ids: Seq<u128>,
)
    ensures
        ({
            let start = Trimmed { items: Seq::empty(), fragments: before.fragments, drawn: before.drawn };
            let trimmed = trim_items(start, track.items, track.items.len() as int, cuts, ids);
            let shown = track.visible && track.opacity > 0;
            let result = bake_track(before, track, scope, cuts, owners, ids);
            &&& result is Err <==> shown && track.frame_cells is None && ((track.annotation_scope is Some && scope
                is Failed) || trimmed is Err)
            &&& shown && track.frame_cells is None && track.annotation_scope is Some ==> (scope matches
                DerivedScope::Failed(reason) ==> result == Err::<Baked, Seq<char>>(reason@))
            &&& result matches Ok(after) ==> (shown && track.frame_cells is None ==> after.fragments
                == trimmed->Ok_0.fragments && after.drawn == trimmed->Ok_0.drawn)
            &&& result matches Ok(after) ==> (!shown || track.frame_cells is Some ==> after.fragments
                == before.fragments && after.drawn == before.drawn)
        }),
{
}

/// An annotation layer that is baked takes the scope that was derived for it.
pub proof fn law_a_baked_annotation_takes_the_derived_scope(
    before: Baked,
    track: TrackView,
    spans: Vec<TimelineSpan>,
    cuts: Seq<TimelineSpan>,
    owners: Seq<FrameId>,
    ids: Seq<u128>,
)
    requires
        track.visible && track.opacity > 0,
        track.frame_cells is None,
        track.annotation_scope is Some,
        bake_track(before, track, DerivedScope::Known(spans), cuts, owners, ids) is Ok,
    ensures
        ({
            let after = bake_track(before, track, DerivedScope::Known(spans), cuts, owners, ids)->Ok_0;
            &&& after.commands == before.commands ==> track.annotation_scope == Some(spans@)
            &&& after.commands != before.commands ==> (
            after.commands.last() matches CommandView::UpsertOverlayTrack { track: layer } ==> layer.annotation_scope
                == Some(spans@))
            &&& after.commands != before.commands ==> (after.commands.last() is RemoveOverlayTrack ==> spans@.len()
                == 0)
        }),
{
}

/// Baking begins with nothing cut and nothing drawn, and every identity that it draws is used by one piece.
pub proof fn law_as_many_identities_are_drawn_as_used(
    tracks: Seq<TrackView>,
    scopes: Seq<DerivedScope>,
    cuts: Seq<TimelineSpan>,
    owners: Seq<FrameId>,
    ids: Seq<u128>,
    baked: Baked,
)
    ensures
        bake_tracks(tracks, 0, scopes, cuts, owners, ids) == Ok::<Baked, Seq<char>>(
            Baked { commands: Seq::empty(), fragments: 0, drawn: 0 },
        ),
        drawn_exactly(baked, ids) ==> ids.len() == baked.drawn && forall|i: int|
            0 <= i < ids.len() ==> (#[trigger] ids[i] >> 76u128) & 0xFu128 == 4,
{
    if drawn_exactly(baked, ids) {
        assert forall|i: int| 0 <= i < ids.len() implies (#[trigger] ids[i] >> 76u128) & 0xFu128 == 4 by {
            identity::law_the_layout_of_an_identity(ids[i]);
        }
    }
}

} // verus!
