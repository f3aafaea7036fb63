//! What the interface tells of frames, of the clipboard and of the project.
use crate::frames::FrameClip;
use crate::geometry::PhysicalSize;
use crate::ids::{contains_frame, FrameId};
use crate::text;
use crate::text::{append_decimal, append_padded};
use crate::time;
use crate::ui_labels;
use crate::ui_labels::{format_duration_us, format_optional_duration};
use crate::ui_state::{DrawingOverlayDraft, MAX_DRAWING_DRAFT_POINTS};
use vstd::prelude::*;
use vstd::string::{StrSliceExecFns, StringExecFns};

verus! {

/// A number in words.
pub open spec fn numbered(before: Seq<char>, number: int, after: Seq<char>) -> Seq<char> {
    before + text::decimal(number) + after
}

fn number_text(before: &str, number: u64, after: &str) -> (words: String)
    ensures
        words@ == numbered(before@, number as int, after@),
{
    let mut words = before.to_owned();
    append_decimal(&mut words, number);
    words.append(after);
    words
}

/// What is counted for the head of the editor.
#[derive(Clone, Copy, Debug, PartialEq, Eq, Structural)]
pub struct EditorSummary {
    /// Frames of the timeline.
    pub frames: usize,
    /// Selected frames.
    pub selected: usize,
    /// Frames that pasting inserts.
    pub clipboard: usize,
    /// Copies that are kept.
    pub snapshots: usize,
    /// Whether edits are yet to be saved.
    pub dirty: bool,
    /// Blobs with faults.
    pub asset_issues: usize,
}

/// The head of the editor.
pub open spec fn summary(counts: EditorSummary) -> Seq<Seq<char>> {
    let always = seq![
        numbered(""@, counts.frames as int, " frames"@),
        numbered(""@, counts.selected as int, " selected"@),
        numbered(numbered("Clipboard: "@, counts.clipboard as int, " frame(s) in "@), counts.snapshots as int, " snapshot(s)"@),
    ];
    let saved = if counts.dirty {
        always.push("Journaled \u{b7} checkpoint pending"@)
    } else {
        always
    };
    if counts.asset_issues > 0 {
        saved.push(numbered(""@, counts.asset_issues as int, " asset issue(s)"@))
    } else {
        saved
    }
}

/// The words of a list of texts.
pub open spec fn words(texts: Seq<String>) -> Seq<Seq<char>> {
    Seq::new(texts.len(), |i: int| texts[i]@)
}

fn push_text(texts: &mut Vec<String>, item: String)
    ensures
        words(final(texts)@) == words(old(texts)@).push(item@),
{
    texts.push(item);
    assert(words(texts@) =~= words(old(texts)@).push(item@));
}

/// Words the head of the editor.
pub fn editor_summary(counts: EditorSummary) -> (labels: Vec<String>)
    ensures
        words(labels@) == summary(counts),
{
    let mut labels: Vec<String> = Vec::new();
    assert(words(labels@) =~= Seq::empty());
    push_text(&mut labels, number_text("", counts.frames as u64, " frames"));
    push_text(&mut labels, number_text("", counts.selected as u64, " selected"));
    let clipboard = number_text("Clipboard: ", counts.clipboard as u64, " frame(s) in ");
    push_text(&mut labels, number_text(clipboard.as_str(), counts.snapshots as u64, " snapshot(s)"));
    if counts.dirty {
        push_text(&mut labels, "Journaled \u{b7} checkpoint pending".to_owned());
    }
    if counts.asset_issues > 0 {
        push_text(&mut labels, number_text("", counts.asset_issues as u64, " asset issue(s)"));
    }
    assert(words(labels@) =~= summary(counts));
    labels
}

/// What is told of one copy on the clipboard.
pub open spec fn clipboard_entry(id: u64, frames: usize, duration_us: Option<u64>) -> Seq<char> {
    numbered(numbered("#"@, id as int, " \u{b7} "@), frames as int, " frame(s) \u{b7} "@) + (match duration_us {
        Some(us) => ui_labels::duration_text(us as int),
        None => "duration overflow"@,
    })
}

/// Words what is told of one copy on the clipboard.
pub fn clipboard_entry_label(id: u64, frames: usize, duration_us: Option<u64>) -> (label: String)
    ensures
        label@ == clipboard_entry(id, frames, duration_us),
{
    let head = number_text("#", id, " \u{b7} ");
    let mut label = number_text(head.as_str(), frames as u64, " frame(s) \u{b7} ");
    match duration_us {
        Some(us) => label.append(format_duration_us(us).as_str()),
        None => label.append("duration overflow"),
    }
    label
}

/// The current frame in the statistics.
#[derive(Clone, Copy, Debug, PartialEq, Eq, Structural)]
pub struct CurrentFrameStatistics {
    /// Its number, counted from one.
    pub frame_number: usize,
    /// When it comes up.
    pub start_us: u64,
    /// How long it is shown.
    pub duration_us: u64,
}

/// What is counted of a project.
#[derive(Clone, Copy, Debug, PartialEq, Eq, Structural)]
pub struct EditorStatistics {
    /// Frames of the timeline.
    pub frame_count: usize,
    /// Selected frames.
    pub selected_frame_count: usize,
    /// Size of the canvas.
    pub canvas: PhysicalSize,
    /// How long all frames are shown.
    pub total_duration_us: u64,
    /// How long the selection is shown.
    pub selection_duration_us: u64,
    /// The shortest delay.
    pub minimum_delay_us: Option<u64>,
    /// The longest delay.
    pub maximum_delay_us: Option<u64>,
    /// The average delay.
    pub average_delay_us: Option<u64>,
    /// Different blobs.
    pub unique_asset_count: usize,
    /// Bytes of all blobs.
    pub asset_descriptor_bytes: u64,
    /// The current frame.
    pub current_frame: Option<CurrentFrameStatistics>,
}

/// What is told of the current frame.
pub open spec fn current_text(current: Option<CurrentFrameStatistics>) -> Seq<char> {
    match current {
        None => "None"@,
        Some(frame) => numbered("#"@, frame.frame_number as int, " \u{b7} start "@) + ui_labels::duration_text(
            frame.start_us as int,
        ) + " \u{b7} delay "@ + ui_labels::duration_text(frame.duration_us as int),
    }
}

fn current_label(current: Option<CurrentFrameStatistics>) -> (label: String)
    ensures
        label@ == current_text(current),
{
    match current {
        None => "None".to_owned(),
        Some(frame) => {
            let mut label = number_text("#", frame.frame_number as u64, " \u{b7} start ");
            label.append(format_duration_us(frame.start_us).as_str());
            label.append(" \u{b7} delay ");
            label.append(format_duration_us(frame.duration_us).as_str());
            label
        },
    }
}

/// A line of the statistics.
#[derive(Debug)]
pub struct StatisticRow {
    /// What is counted.
    pub label: &'static str,
    /// What was found.
    pub value: String,
}

/// What the lines of the statistics say.
pub open spec fn row_words(rows: Seq<StatisticRow>) -> Seq<(Seq<char>, Seq<char>)> {
    Seq::new(rows.len(), |i: int| (rows[i].label@, rows[i].value@))
}

/// The statistics, line by line.
pub open spec fn statistics(counts: EditorStatistics) -> Seq<(Seq<char>, Seq<char>)> {
    seq![
        ("Frames"@, numbered(""@, counts.frame_count as int, ""@)),
        ("Selected frames"@, numbered(""@, counts.selected_frame_count as int, ""@)),
        (
            "Canvas"@,
            numbered(numbered(""@, counts.canvas.width as int, " \u{d7} "@), counts.canvas.height as int, ""@),
        ),
        ("Total duration"@, ui_labels::duration_text(counts.total_duration_us as int)),
        ("Selected duration"@, ui_labels::duration_text(counts.selection_duration_us as int)),
        ("Minimum delay"@, ui_labels::optional_duration_text(counts.minimum_delay_us)),
        ("Maximum delay"@, ui_labels::optional_duration_text(counts.maximum_delay_us)),
        ("Average delay"@, ui_labels::optional_duration_text(counts.average_delay_us)),
        ("Unique assets"@, numbered(""@, counts.unique_asset_count as int, ""@)),
        ("Asset descriptor bytes"@, numbered(""@, counts.asset_descriptor_bytes as int, ""@)),
        ("Current frame"@, current_text(counts.current_frame)),
    ]
}

fn push_row(rows: &mut Vec<StatisticRow>, label: &'static str, value: String)
    ensures
        row_words(final(rows)@) == row_words(old(rows)@).push((label@, value@)),
{
    rows.push(StatisticRow { label, value });
    assert(row_words(rows@) =~= row_words(old(rows)@).push((label@, value@)));
}

/// Words the statistics, line by line.
pub fn statistic_rows(counts: &EditorStatistics) -> (rows: Vec<StatisticRow>)
    ensures
        row_words(rows@) == statistics(*counts),
{
    let mut rows: Vec<StatisticRow> = Vec::new();
    assert(row_words(rows@) =~= Seq::empty());
    push_row(&mut rows, "Frames", number_text("", counts.frame_count as u64, ""));
    push_row(&mut rows, "Selected frames", number_text("", counts.selected_frame_count as u64, ""));
    let width = number_text("", counts.canvas.width as u64, " \u{d7} ");
    push_row(&mut rows, "Canvas", number_text(width.as_str(), counts.canvas.height as u64, ""));
    push_row(&mut rows, "Total duration", format_duration_us(counts.total_duration_us));
    push_row(&mut rows, "Selected duration", format_duration_us(counts.selection_duration_us));
    push_row(&mut rows, "Minimum delay", format_optional_duration(counts.minimum_delay_us));
    push_row(&mut rows, "Maximum delay", format_optional_duration(counts.maximum_delay_us));
    push_row(&mut rows, "Average delay", format_optional_duration(counts.average_delay_us));
    push_row(&mut rows, "Unique assets", number_text("", counts.unique_asset_count as u64, ""));
    push_row(&mut rows, "Asset descriptor bytes", number_text("", counts.asset_descriptor_bytes, ""));
    push_row(&mut rows, "Current frame", current_label(counts.current_frame));
    assert(row_words(rows@) =~= statistics(*counts));
    rows
}

/// A card of the strip of frames.
#[derive(Debug)]
pub struct FrameCard {
    /// The frame.
    pub frame_id: FrameId,
    /// What is told of it.
    pub label: String,
    /// Its number.
    pub number: String,
    /// How long it is shown.
    pub delay: String,
    /// Whether it is selected.
    pub is_selected: bool,
    /// Whether it is the current frame.
    pub is_current: bool,
}

/// Whether a card shows the frame at a position.
pub open spec fn shows_frame(
    card: FrameCard,
    frame: FrameClip,
    index: int,
    selected: Seq<FrameId>,
    current: Option<FrameId>,
) -> bool {
    &&& card.frame_id == frame.id
    &&& card.label@ == numbered(numbered("Frame "@, index + 1, " \u{b7} "@), frame.duration@, " \u{b5}s"@)
    &&& card.number@ == numbered("Frame "@, index + 1, ""@)
    &&& card.delay@ == text::decimal(frame.duration@ / 1_000) + "."@ + text::padded(frame.duration@ % 1_000, 3) + " ms"@
    &&& card.is_selected == selected.contains(frame.id)
    &&& card.is_current == (current == Some(frame.id))
}

/// Works out the card of the frame at a position.
pub fn frame_card(frames: &[FrameClip], index: usize, selected: &Vec<FrameId>, current: Option<FrameId>) -> (card:
    FrameCard)
    requires
        index < frames@.len(),
    ensures
        shows_frame(card, frames@[index as int], index as int, selected@, current),
{
    broadcast use time::lemma_duration_range;

    let frame = &frames[index];
    let us: u64 = frame.duration.get();
    let head = number_text("Frame ", index as u64 + 1, " \u{b7} ");
    proof {
        reveal_strlit("");
    }
    let mut delay = "".to_owned();
    append_decimal(&mut delay, us / 1_000);
    delay.append(".");
    append_padded(&mut delay, us % 1_000, 3);
    delay.append(" ms");
    assert(delay@ =~= text::decimal(us as int / 1_000) + "."@ + text::padded(us as int % 1_000, 3) + " ms"@);
    let is_current: bool = match current {
        Some(id) => id == frame.id,
        None => false,
    };
    FrameCard {
        frame_id: frame.id,
        label: number_text(head.as_str(), us, " \u{b5}s"),
        number: number_text("Frame ", index as u64 + 1, ""),
        delay,
        is_selected: contains_frame(selected, frame.id),
        is_current,
    }
}

/// How long the stroke is so far, in words.
pub fn stroke_label(draft: &DrawingOverlayDraft) -> (label: String)
    ensures
        label@ == numbered(""@, draft.points@.len() as int, " point(s)"@),
{
    number_text("", draft.points.len() as u64, " point(s)")
}

/// What is told where points were turned away.
pub fn stroke_limit_label() -> (label: String)
    ensures
        label@ == numbered("Stroke stopped at the "@, MAX_DRAWING_DRAFT_POINTS as int, "-point safety limit."@),
{
    number_text("Stroke stopped at the ", MAX_DRAWING_DRAFT_POINTS as u64, "-point safety limit.")
}

/// The summary tells the frames, the selection and the clipboard, then that a checkpoint is pending where
/// it is, and how many assets have issues where some have.
pub proof fn law_a_summary_tells_what_there_is(counts: EditorSummary)
    ensures
        ({
            let labels = summary(counts);
            &&& labels.len() == 3 + (if counts.dirty {
                1int
            } else {
                0
            }) + (if counts.asset_issues > 0 {
                1int
            } else {
                0
            })
            &&& labels[0] == ""@ + text::decimal(counts.frames as int) + " frames"@
            &&& labels[1] == ""@ + text::decimal(counts.selected as int) + " selected"@
            &&& counts.dirty ==> labels[3] == "Journaled \u{b7} checkpoint pending"@
            &&& counts.asset_issues > 0 ==> labels.last() == ""@ + text::decimal(counts.asset_issues as int)
                + " asset issue(s)"@
        }),
{
}

/// A card tells its own frame: its number in the timeline, counted from one, and its delay in milliseconds
/// with three decimals, which together write its microseconds.
pub proof fn law_a_card_tells_its_own_frame(
    card: FrameCard,
    frame: FrameClip,
    index: int,
    selected: Seq<FrameId>,
    current: Option<FrameId>,
)
    requires
        shows_frame(card, frame, index, selected, current),
    ensures
        card.frame_id == frame.id,
        card.is_selected <==> exists|i: int| 0 <= i < selected.len() && #[trigger] selected[i] == frame.id,
        card.is_current <==> current == Some(frame.id),
        card.number@ == "Frame "@ + text::decimal(index + 1) + ""@,
        ({
            let whole = text::decimal(frame.duration@ / 1_000);
            let part = text::padded(frame.duration@ % 1_000, 3);
            &&& card.delay@ == whole + "."@ + part + " ms"@
            &&& part.len() == 3
            &&& 1_000 * text::number_written(whole) + text::number_written(part) == frame.duration@
        }),
{
    broadcast use crate::time::lemma_duration_range;

    let us = frame.duration@;
    text::law_numbers_are_written_in_digits(us / 1_000);
    text::law_padded_numbers_are_written_in_digits(us % 1_000, 3);
}

/// The statistics are eleven rows, each with the count that it names.
pub proof fn law_statistics_tell_every_count(counts: EditorStatistics)
    ensures
        ({
            let rows = statistics(counts);
            &&& rows.len() == 11
            &&& rows[0].1 == ""@ + text::decimal(counts.frame_count as int) + ""@
            &&& rows[1].1 == ""@ + text::decimal(counts.selected_frame_count as int) + ""@
            &&& rows[3].1 == ui_labels::duration_text(counts.total_duration_us as int)
            &&& rows[4].1 == ui_labels::duration_text(counts.selection_duration_us as int)
            &&& counts.minimum_delay_us matches Some(us) ==> rows[5].1 == ui_labels::duration_text(us as int)
            &&& counts.maximum_delay_us matches Some(us) ==> rows[6].1 == ui_labels::duration_text(us as int)
            &&& counts.average_delay_us matches Some(us) ==> rows[7].1 == ui_labels::duration_text(us as int)
            &&& counts.minimum_delay_us is None ==> rows[5].1 == "None"@
            &&& rows[8].1 == ""@ + text::decimal(counts.unique_asset_count as int) + ""@
            &&& rows[9].1 == ""@ + text::decimal(counts.asset_descriptor_bytes as int) + ""@
            &&& counts.current_frame is None ==> rows[10].1 == "None"@
        }),
{
}

} // verus!
