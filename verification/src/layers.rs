//! The list of layers, in pages.
use crate::conversion_edit;
use crate::conversion_edit::find_track;
use crate::ids::TrackId;
use crate::overlay::{OverlayTrack, TrackView};
use crate::project::{CommandView, EditCommand};
use crate::text;
use crate::text::append_decimal;
use crate::ui_labels;
use crate::ui_labels::overlay_content_label;
use crate::value;
use crate::value::Value;
use vstd::prelude::*;
use vstd::string::{StrSliceExecFns, StringExecFns};

verus! {

/// How many layers one page lists.
pub const OVERLAY_TRACK_PAGE_SIZE: usize = 64;

/// The page of the list that is shown, and the open project it belongs to.
#[derive(Clone, Copy, Debug, PartialEq, Eq, Structural)]
pub struct OverlayTrackPagination {
    /// The project, numbered as it was opened.
    pub session: Option<u64>,
    /// The page, counted from zero.
    pub page: usize,
}

/// The last page of a list.
pub open spec fn last_page(total: int) -> int {
    if total == 0 {
        0
    } else {
        (total - 1) / 64
    }
}

/// The smaller of two numbers.
pub open spec fn smaller(one: int, other: int) -> int {
    if one <= other {
        one
    } else {
        other
    }
}

impl Default for OverlayTrackPagination {
    fn default() -> (pagination: OverlayTrackPagination)
        ensures
            pagination.session is None,
            pagination.page == 0,
    {
        OverlayTrackPagination { session: None, page: 0 }
    }
}

impl OverlayTrackPagination {
    /// Goes back to the last page where the list has become too short.
    pub fn clamp(&mut self, total: usize)
        ensures
            final(self).session == old(self).session,
            final(self).page == smaller(old(self).page as int, last_page(total as int)),
    {
        let last: usize = if total == 0 {
            0
        } else {
            (total - 1) / OVERLAY_TRACK_PAGE_SIZE
        };
        if self.page > last {
            self.page = last;
        }
    }

    /// Starts over on the first page where another project was opened, and keeps the page within
    /// the list.
    pub fn reconcile(&mut self, session: u64, total: usize)
        ensures
            final(self).session == Some(session),
            final(self).page == (if old(self).session == Some(session) {
                smaller(old(self).page as int, last_page(total as int))
            } else {
                0
            }),
    {
        let same: bool = match self.session {
            Some(known) => known == session,
            None => false,
        };
        if !same {
            self.session = Some(session);
            self.page = 0;
        }
        self.clamp(total);
    }

    /// Turns one page on, unless it is the last.
    pub fn next_page(&mut self, total: usize)
        ensures
            final(self).session == old(self).session,
            final(self).page == (if old(self).page < last_page(total as int) {
                old(self).page + 1
            } else {
                last_page(total as int)
            }),
    {
        self.clamp(total);
        if total > 0 && self.page < (total - 1) / OVERLAY_TRACK_PAGE_SIZE {
            self.page = self.page + 1;
        }
    }

    /// Turns one page back, unless it is the first.
    pub fn previous_page(&mut self)
        ensures
            final(self).session == old(self).session,
            final(self).page == (if old(self).page > 0 {
                old(self).page - 1
            } else {
                0
            }),
    {
        if self.page > 0 {
            self.page = self.page - 1;
        }
    }

    /// The layers on the page.
    pub fn range(&self, total: usize) -> (range: std::ops::Range<usize>)
        ensures
            range.start == smaller(self.page * 64, total as int),
            range.end == smaller(self.page * 64 + 64, total as int),
    {
        let start: usize = match self.page.checked_mul(OVERLAY_TRACK_PAGE_SIZE) {
            Some(start) => if start < total {
                start
            } else {
                total
            },
            None => total,
        };
        let end: usize = if total - start > OVERLAY_TRACK_PAGE_SIZE {
            start + OVERLAY_TRACK_PAGE_SIZE
        } else {
            total
        };
        start..end
    }

    /// Where the page stands in the list, in words.
    pub fn label(&self, total: usize) -> (label: String)
        requires
            self.page <= last_page(total as int),
        ensures
            label@ == page_label(self.page as int, total as int),
    {
        let range = self.range(total);
        let last: usize = if total == 0 {
            0
        } else {
            (total - 1) / OVERLAY_TRACK_PAGE_SIZE
        };
        let mut label = "Layers ".to_owned();
        append_decimal(&mut label, if total == 0 {
            0
        } else {
            range.start as u64 + 1
        });
        label.append("\u{2013}");
        append_decimal(&mut label, range.end as u64);
        label.append(" of ");
        append_decimal(&mut label, total as u64);
        label.append(" \u{b7} Page ");
        append_decimal(&mut label, self.page as u64 + 1);
        label.append(" / ");
        append_decimal(&mut label, last as u64 + 1);
        label
    }
}

/// Where a page stands in the list, in words.
pub open spec fn page_label(page: int, total: int) -> Seq<char> {
    let first = if total == 0 {
        0
    } else {
        page * 64 + 1
    };
    "Layers "@ + text::decimal(first) + "\u{2013}"@ + text::decimal(smaller(page * 64 + 64, total)) + " of "@
        + text::decimal(total) + " \u{b7} Page "@ + text::decimal(page + 1) + " / "@ + text::decimal(
        last_page(total) + 1,
    )
}

/// Every layer is on exactly one page, and that page exists.
pub proof fn law_every_layer_is_on_one_page(total: int, layer: int, page: int)
    requires
        0 <= layer < total,
        0 <= page,
    ensures
        0 <= layer / 64 <= last_page(total),
        smaller(page * 64, total) <= layer < smaller(page * 64 + 64, total) <==> page == layer / 64,
{
}

/// The label of a page names, counted from one, the first and the last layer that stand on it, how
/// many layers there are, and the page among those that the layers fill, sixty-four to a page.
pub proof fn law_a_page_is_told_by_its_ends(total: int, page: int, first: int, last: int)
    requires
        0 <= first <= last < total,
        first / 64 == page && last / 64 == page,
        first == 0 || (first - 1) / 64 != page,
        last + 1 == total || (last + 1) / 64 != page,
    ensures
        page_label(page, total) == "Layers "@ + text::decimal(first + 1) + "\u{2013}"@ + text::decimal(last + 1)
            + " of "@ + text::decimal(total) + " \u{b7} Page "@ + text::decimal(page + 1) + " / "@
            + text::decimal((total - 1) / 64 + 1),
{
    assert(first == page * 64);
    assert(last + 1 == smaller(page * 64 + 64, total));
}

/// With no layer at all the one page is labelled as empty.
pub proof fn law_the_empty_page_counts_from_nothing()
    ensures
        page_label(0, 0) == "Layers "@ + text::decimal(0) + "\u{2013}"@ + text::decimal(0) + " of "@
            + text::decimal(0) + " \u{b7} Page "@ + text::decimal(1) + " / "@ + text::decimal(1),
{
}

/// What a row of the list says of its layer.
pub open spec fn row_label(position: int, track: TrackView, kind: Seq<char>) -> Seq<char> {
    "Layer "@ + text::decimal(position + 1) + " \u{b7} "@ + track.name + " \u{b7} "@ + kind + " \u{b7} "@
        + text::decimal(track.items.len() as int) + " item(s) \u{b7} "@ + (if track.frame_cells is Some {
        "Attached to frames"@
    } else {
        "Time-anchored"@
    })
}

/// The name of what a layer shows.
pub open spec fn layer_kind(track: OverlayTrack) -> Seq<char> {
    if track.items@.len() > 0 {
        ui_labels::content_name(track.items@[0].content)
    } else {
        "Empty"@
    }
}

/// Whether a layer can be attached to frames: it is timed, and what its authoring covered is known.
pub open spec fn attachable(track: TrackView) -> bool {
    track.frame_cells is None && (track.annotation is Some ==> track.annotation_scope is Some)
}

/// A row of the list.
#[derive(Debug)]
pub struct LayerRow {
    /// The layer.
    pub id: TrackId,
    /// What is said of it.
    pub label: String,
    /// Whether it is shown.
    pub visible: bool,
    /// Whether it can be attached to frames.
    pub can_attach: bool,
}

/// Whether a row shows a layer at a position.
pub open spec fn shows(row: LayerRow, position: int, track: OverlayTrack) -> bool {
    &&& row.id == track.id
    &&& row.label@ == row_label(position, track@, layer_kind(track))
    &&& row.visible == track.visible
    &&& row.can_attach == attachable(track@)
}

fn layer_row(position: usize, track: &OverlayTrack) -> (row: LayerRow)
    requires
        position < usize::MAX,
    ensures
        shows(row, position as int, *track),
{
    let mut label = "Layer ".to_owned();
    append_decimal(&mut label, position as u64 + 1);
    label.append(" \u{b7} ");
    label.append(track.name.as_str());
    label.append(" \u{b7} ");
    if track.items.len() > 0 {
        label.append(overlay_content_label(&track.items[0].content));
    } else {
        label.append("Empty");
    }
    label.append(" \u{b7} ");
    append_decimal(&mut label, track.items.len() as u64);
    label.append(" item(s) \u{b7} ");
    if track.frame_cells.is_some() {
        label.append("Attached to frames");
    } else {
        label.append("Time-anchored");
    }
    LayerRow {
        id: track.id,
        label,
        visible: track.visible,
        can_attach: track.frame_cells.is_none() && (track.annotation.is_none() || track.annotation_scope.is_some()),
    }
}

/// The rows of the page.
pub fn layer_rows(tracks: &Vec<OverlayTrack>, pagination: OverlayTrackPagination) -> (rows: Vec<LayerRow>)
    ensures
        ({
            let total = tracks@.len() as int;
            let start = smaller(pagination.page * 64, total);
            &&& rows@.len() == smaller(pagination.page * 64 + 64, total) - start
            &&& forall|i: int|
                0 <= i < rows@.len() ==> shows(#[trigger] rows@[i], start + i, tracks@[start + i])
        }),
{
    let total: usize = tracks.len();
    let range = pagination.range(total);
    let mut rows: Vec<LayerRow> = Vec::new();
    let mut at: usize = range.start;
    while at < range.end
        invariant
            range.start <= at <= range.end <= total,
            total == tracks@.len(),
            rows@.len() == at - range.start,
            forall|i: int|
                0 <= i < rows@.len() ==> shows(#[trigger] rows@[i], range.start + i, tracks@[range.start + i]),
        decreases range.end - at,
    {
        rows.push(layer_row(at, &tracks[at]));
        at = at + 1;
    }
    rows
}

/// What showing or hiding a layer edits; nothing where the layer is so already.
pub open spec fn visibility_edit(tracks: Seq<TrackView>, id: TrackId, visible: bool) -> Option<CommandView> {
    let track = tracks[conversion_edit::first_track(tracks, id)];
    if track.visible == visible {
        None
    } else {
        Some(CommandView::UpsertOverlayTrack { track: TrackView { visible, ..track } })
    }
}

/// Works out what showing or hiding a layer edits; there must be such a layer.
pub fn set_overlay_track_visibility(tracks: &Vec<OverlayTrack>, id: TrackId, visible: bool) -> (result: Result<
    Option<EditCommand>,
    String,
>)
    ensures
        ({
            let all = value::views(tracks@);
            let known = exists|i: int| 0 <= i < all.len() && (#[trigger] all[i]).id == id;
            match result {
                Ok(command) => known && value::option_view(command) == visibility_edit(all, id, visible),
                Err(message) => !known && message@ == "The overlay track no longer exists."@,
            }
        }),
{
    let ghost all = value::views(tracks@);
    match find_track(tracks, id) {
        Some(at) => {
            assert(all[at as int] == tracks@[at as int]@);
            assert(all[at as int].id == id);
            if tracks[at].visible == visible {
                Ok(None)
            } else {
                let mut track = tracks[at].duplicate();
                track.visible = visible;
                Ok(Some(EditCommand::UpsertOverlayTrack { track }))
            }
        },
        None => Err("The overlay track no longer exists.".to_owned()),
    }
}

/// Showing or hiding changes nothing of a layer but whether it is shown, and nothing where it is so already.
pub proof fn law_only_visibility_changes(tracks: Seq<TrackView>, id: TrackId, visible: bool, at: int)
    requires
        0 <= at < tracks.len(),
        tracks[at].id == id,
        forall|i: int| 0 <= i < at ==> (#[trigger] tracks[i]).id != id,
    ensures
        tracks[at].visible == visible ==> visibility_edit(tracks, id, visible) is None,
        tracks[at].visible != visible ==> (visibility_edit(tracks, id, visible) matches Some(
            CommandView::UpsertOverlayTrack { track: layer },
        ) && {
            &&& layer.visible == visible
            &&& layer.id == id
            &&& layer.frame_cells == tracks[at].frame_cells
            &&& layer.annotation == tracks[at].annotation
            &&& layer.annotation_scope == tracks[at].annotation_scope
            &&& layer.name == tracks[at].name
            &&& layer.opacity == tracks[at].opacity
            &&& layer.blend_mode == tracks[at].blend_mode
            &&& layer.items == tracks[at].items
        }),
{
    conversion_edit::law_the_first_layer_is_meant(tracks, id, at);
}

/// The last page begins at or before the last layer, and no page after it has a layer.
pub proof fn law_the_last_page_holds_the_last_layer(total: int)
    requires
        0 <= total,
    ensures
        0 <= last_page(total),
        total > 0 ==> 64 * last_page(total) < total <= 64 * last_page(total) + 64,
        total == 0 ==> last_page(total) == 0,
{
}

/// A layer can be attached to frames exactly where it shows by time and, where it is an annotation, its
/// scope is known.
pub proof fn law_what_can_be_attached(track: TrackView)
    ensures
        attachable(track) <==> track.frame_cells is None && (track.annotation is None || track.annotation_scope is Some),
{
}

/// A layer is told by its place, counted from one, its name, its kind, the number of its items and how it is
/// anchored.
pub proof fn law_a_layer_is_told_by_its_place(position: int, track: TrackView, kind: Seq<char>)
    ensures
        track.frame_cells is Some ==> row_label(position, track, kind) == "Layer "@ + text::decimal(position + 1)
            + " \u{b7} "@ + track.name + " \u{b7} "@ + kind + " \u{b7} "@ + text::decimal(track.items.len() as int)
            + " item(s) \u{b7} "@ + "Attached to frames"@,
        track.frame_cells is None ==> row_label(position, track, kind) == "Layer "@ + text::decimal(position + 1)
            + " \u{b7} "@ + track.name + " \u{b7} "@ + kind + " \u{b7} "@ + text::decimal(track.items.len() as int)
            + " item(s) \u{b7} "@ + "Time-anchored"@,
{
}

/// A row shows its own layer.
pub proof fn law_a_row_shows_its_own_layer(row: LayerRow, position: int, track: OverlayTrack)
    requires
        shows(row, position, track),
    ensures
        row.id == track.id,
        row.visible == track.visible,
        row.can_attach <==> track.frame_cells is None && (track.annotation is None || track.annotation_scope is Some),
        track.items@.len() == 0 ==> row.label@ == row_label(position, track@, "Empty"@),
        track.items@.len() > 0 ==> row.label@ == row_label(
            position,
            track@,
            ui_labels::content_name(track.items@[0].content),
        ),
{
}

} // verus!
