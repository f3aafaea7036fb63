//! What each control of the interface asks of the project.
use crate::content::{BlendMode, ContentView, OverlayContent};
use crate::frames::{Effect, FrameClip};
use crate::geometry::{PhysicalRect, PhysicalSize};
use crate::ids::{FrameId, TrackId};
use crate::text;
use crate::text::trim;
use crate::time::{DurationUs, TimeUs};
use crate::ui_build;
use crate::ui_build::{
    build_drawing_overlay, build_effect, build_shape_overlay, build_transition_settings, parse_crop,
    parse_duration_us, parse_effect_index, parse_keep_every, parse_output_size, parse_similarity_threshold,
    parse_time_ms, parse_time_range, EditorLimits, FrameTransitionSettings, SettingsView,
};
use crate::ui_input;
use crate::ui_input::parse_input;
use crate::ui_results;
use crate::ui_results::{
    push_failure, push_notice, record_clipboard_result, record_history_result,
    record_project_result, record_selection_result, repair_journal_notice,
};
use crate::ui_state;
use crate::value;
use crate::ui_state::{
    DrawingDraftPhase, DuplicateDelayMode, DuplicateFrameRetention, EditorUiOperation,
    EditorUiResult, EditorUiState, ReduceDelayMode, ResultView, YoyoScope,
};
use vstd::prelude::*;
use vstd::string::{StrSliceExecFns, StringExecFns};

verus! {

/// How a picture can be turned.
#[derive(Clone, Copy, Debug, PartialEq, Eq, Structural)]
pub enum OrientationControl {
    /// To the left.
    RotateLeft,
    /// To the right.
    RotateRight,
    /// Mirrored from left to right.
    FlipHorizontal,
    /// Mirrored from top to bottom.
    FlipVertical,
}

/// What a way to turn pictures is called among the operations.
pub open spec fn turning(control: OrientationControl) -> EditorUiOperation {
    match control {
        OrientationControl::RotateLeft => EditorUiOperation::RotateLeft,
        OrientationControl::RotateRight => EditorUiOperation::RotateRight,
        OrientationControl::FlipHorizontal => EditorUiOperation::FlipHorizontal,
        OrientationControl::FlipVertical => EditorUiOperation::FlipVertical,
    }
}

/// What a way to turn pictures is called among the operations.
pub fn orientation_operation(control: OrientationControl) -> (operation: EditorUiOperation)
    ensures
        operation == turning(control),
{
    match control {
        OrientationControl::RotateLeft => EditorUiOperation::RotateLeft,
        OrientationControl::RotateRight => EditorUiOperation::RotateRight,
        OrientationControl::FlipHorizontal => EditorUiOperation::FlipHorizontal,
        OrientationControl::FlipVertical => EditorUiOperation::FlipVertical,
    }
}

/// A control that asks something of the project.
#[derive(Clone, Copy, Debug, PartialEq, Eq, Structural)]
pub enum EditorControl {
    /// Go to the first frame.
    First,
    /// Go to the frame before.
    Previous,
    /// Go to the frame after.
    Next,
    /// Go to the last frame.
    Last,
    /// Select every frame.
    All,
    /// Select what is not selected.
    Invert,
    /// Select nothing.
    Clear,
    /// Take the last edit back.
    Undo,
    /// Make the edit again that was taken back.
    Redo,
    /// Move the selection to the clipboard.
    Cut,
    /// Copy the selection to the clipboard.
    Copy,
    /// Insert the clipboard after the current frame.
    Paste,
    /// Delete the selection.
    Delete,
    /// Delete the frames before the selection.
    DeleteBefore,
    /// Delete the frames after the selection.
    DeleteAfter,
    /// Move the selection one place back.
    MoveLeft,
    /// Move the selection one place on.
    MoveRight,
    /// Reverse the selection.
    Reverse,
    /// Drop the transition after the current frame.
    DeleteTransition,
    /// Drop the crop of the selection.
    ClearCrop,
    /// Drop the output size of the selection.
    ClearResize,
    /// Drop the effects of the selection.
    ClearEffects,
    /// Save the project.
    SaveCheckpoint,
    /// Save the project and empty its journal.
    SaveAndCompact,
    /// Repair the journal.
    RepairJournal,
    /// Forget every copy.
    ClearClipboardHistory,
    /// Use a copy for pasting.
    SelectClipboardEntry(u64),
    /// Forget a copy.
    RemoveClipboardEntry(u64),
    /// Remove a layer.
    RemoveTrack(TrackId),
    /// Show or hide a layer.
    SetVisibility(TrackId, bool),
    /// Go to the numbered frame.
    GoToFrame,
    /// Go to the frame at a time.
    GoToTime,
    /// Select the frames in a range of time.
    SelectRange,
    /// Delete the frames outside a range of time.
    KeepRange,
    /// Delete the frames in a range of time.
    DeleteRange,
    /// Show the selection for a time.
    OverrideDuration,
    /// Show the selection longer or shorter.
    AdjustDuration,
    /// Scale how long the selection is shown.
    ScaleDuration,
    /// Keep one selected frame in some.
    ReduceFrames,
    /// Drop selected frames that look alike.
    RemoveDuplicates,
    /// Set the transition after the current frame.
    SetTransition,
    /// Crop the selection.
    ApplyCrop,
    /// Resize the selection.
    Resize,
    /// Add an effect to the selection.
    AddEffect,
    /// Play frames back and forth.
    CreateYoyo,
    /// Turn the selection.
    Turn(OrientationControl),
    /// Replace a numbered effect of the selection.
    ReplaceEffect,
    /// Draw a shape over the selection.
    AddShape,
    /// Draw the stroke over the selection.
    CommitDrawing,
    /// A frame of the strip was clicked, with the control key and with the shift key or without.
    ClickFrame(FrameId, bool, bool),
}

/// What is asked of the project.
#[derive(Debug)]
pub enum EditorRequest {
    /// Go to the first frame.
    SelectFirst,
    /// Go to the frame before.
    SelectPrevious,
    /// Go to the frame after.
    SelectNext,
    /// Go to the last frame.
    SelectLast,
    /// Select every frame.
    SelectAll,
    /// Select what is not selected.
    InvertSelection,
    /// Select nothing.
    ClearSelection,
    /// Take the last edit back.
    Undo,
    /// Make the edit again that was taken back.
    Redo,
    /// Move the selection to the clipboard.
    CutSelection,
    /// Copy the selection to the clipboard.
    CopySelection,
    /// Insert the clipboard after the current frame.
    PasteAfterCurrent,
    /// Delete the selection.
    DeleteSelection,
    /// Delete the frames before the selection.
    DeleteBeforeSelection,
    /// Delete the frames after the selection.
    DeleteAfterSelection,
    /// Move the selection one place back.
    MoveSelectionLeft,
    /// Move the selection one place on.
    MoveSelectionRight,
    /// Reverse the selection.
    ReverseSelection,
    /// Drop the transition after the current frame.
    RemoveCurrentTransition,
    /// Drop the crop of the selection.
    ClearSelectionCrop,
    /// Drop the output size of the selection.
    ClearSelectionOutputSize,
    /// Drop the effects of the selection.
    ClearSelectionEffects,
    /// Save the project.
    Checkpoint,
    /// Save the project and empty its journal.
    CheckpointAndCompact,
    /// Repair the journal.
    RepairJournal,
    /// Forget every copy.
    ClearClipboardHistory,
    /// Select the frame of a number, counted from one.
    SelectFrameNumber(usize),
    /// Select the frame at a time.
    SelectTime(TimeUs),
    /// Select the frames in a range of time.
    SelectTimeRange(TimeUs, TimeUs),
    /// Delete the frames outside a range of time.
    KeepTimeRange(TimeUs, TimeUs),
    /// Delete the frames in a range of time.
    DeleteTimeRange(TimeUs, TimeUs),
    /// Show the selection for a time.
    OverrideSelectionDuration(DurationUs),
    /// Show the selection longer or shorter, in microseconds.
    AdjustSelectionDuration(i64),
    /// Scale how long the selection is shown, in percent.
    ScaleSelectionDuration(u32),
    /// Keep one selected frame in some.
    ReduceSelection(usize, ReduceDelayMode),
    /// Play frames back and forth.
    Yoyo(YoyoScope, bool),
    /// Drop selected frames that look alike.
    RemoveDuplicateSelection(u8, DuplicateFrameRetention, DuplicateDelayMode),
    /// Set the transition after the current frame.
    SetCurrentTransition(FrameTransitionSettings),
    /// Crop the selection.
    SetSelectionCrop(PhysicalRect),
    /// Resize the selection.
    SetSelectionOutputSize(PhysicalSize),
    /// Turn the selection to the left.
    RotateSelectionCounterclockwise,
    /// Turn the selection to the right.
    RotateSelectionClockwise,
    /// Mirror the selection from left to right.
    ToggleSelectionHorizontalFlip,
    /// Mirror the selection from top to bottom.
    ToggleSelectionVerticalFlip,
    /// Add an effect to the selection.
    AddSelectionEffect(Effect),
    /// Replace an effect of the selection, counted from zero.
    ReplaceSelectionEffect(usize, Effect),
    /// Use a copy for pasting.
    SelectClipboardEntry(u64),
    /// Forget a copy.
    RemoveClipboardEntry(u64),
    /// Remove a layer.
    RemoveOverlayTrack(TrackId),
    /// Show or hide a layer.
    SetOverlayVisibility(TrackId, bool),
    /// Select one frame.
    SelectOnly(FrameId),
    /// Select a frame, or no longer.
    ToggleSelection(FrameId),
    /// Select every frame up to one.
    ExtendSelectionRange(FrameId),
    /// Draw something over the selection.
    AddOverlayForSelection {
        /// Name of the layer.
        name: String,
        /// What is drawn.
        content: OverlayContent,
        /// Where the layer stands.
        z_index: i32,
        /// Opacity of the layer.
        opacity: u8,
        /// How the layer is blended.
        blend_mode: BlendMode,
    },
}

/// What an [`EditorRequest`] asks.
pub enum RequestView {
    /// Go to the first frame.
    SelectFirst,
    /// Go to the frame before.
    SelectPrevious,
    /// Go to the frame after.
    SelectNext,
    /// Go to the last frame.
    SelectLast,
    /// Select every frame.
    SelectAll,
    /// Select what is not selected.
    InvertSelection,
    /// Select nothing.
    ClearSelection,
    /// Take the last edit back.
    Undo,
    /// Make the edit again that was taken back.
    Redo,
    /// Move the selection to the clipboard.
    CutSelection,
    /// Copy the selection to the clipboard.
    CopySelection,
    /// Insert the clipboard after the current frame.
    PasteAfterCurrent,
    /// Delete the selection.
    DeleteSelection,
    /// Delete the frames before the selection.
    DeleteBeforeSelection,
    /// Delete the frames after the selection.
    DeleteAfterSelection,
    /// Move the selection one place back.
    MoveSelectionLeft,
    /// Move the selection one place on.
    MoveSelectionRight,
    /// Reverse the selection.
    ReverseSelection,
    /// Drop the transition after the current frame.
    RemoveCurrentTransition,
    /// Drop the crop of the selection.
    ClearSelectionCrop,
    /// Drop the output size of the selection.
    ClearSelectionOutputSize,
    /// Drop the effects of the selection.
    ClearSelectionEffects,
    /// Save the project.
    Checkpoint,
    /// Save the project and empty its journal.
    CheckpointAndCompact,
    /// Repair the journal.
    RepairJournal,
    /// Forget every copy.
    ClearClipboardHistory,
    /// Select the frame of a number, counted from one.
    SelectFrameNumber(usize),
    /// Select the frame at a time.
    SelectTime(TimeUs),
    /// Select the frames in a range of time.
    SelectTimeRange(TimeUs, TimeUs),
    /// Delete the frames outside a range of time.
    KeepTimeRange(TimeUs, TimeUs),
    /// Delete the frames in a range of time.
    DeleteTimeRange(TimeUs, TimeUs),
    /// Show the selection for a time.
    OverrideSelectionDuration(int),
    /// Show the selection longer or shorter, in microseconds.
    AdjustSelectionDuration(i64),
    /// Scale how long the selection is shown, in percent.
    ScaleSelectionDuration(u32),
    /// Keep one selected frame in some.
    ReduceSelection(usize, ReduceDelayMode),
    /// Play frames back and forth.
    Yoyo(YoyoScope, bool),
    /// Drop selected frames that look alike.
    RemoveDuplicateSelection(u8, DuplicateFrameRetention, DuplicateDelayMode),
    /// Set the transition after the current frame.
    SetCurrentTransition(SettingsView),
    /// Crop the selection.
    SetSelectionCrop(PhysicalRect),
    /// Resize the selection.
    SetSelectionOutputSize(PhysicalSize),
    /// Turn the selection to the left.
    RotateSelectionCounterclockwise,
    /// Turn the selection to the right.
    RotateSelectionClockwise,
    /// Mirror the selection from left to right.
    ToggleSelectionHorizontalFlip,
    /// Mirror the selection from top to bottom.
    ToggleSelectionVerticalFlip,
    /// Add an effect to the selection.
    AddSelectionEffect(Effect),
    /// Replace an effect of the selection, counted from zero.
    ReplaceSelectionEffect(usize, Effect),
    /// Use a copy for pasting.
    SelectClipboardEntry(u64),
    /// Forget a copy.
    RemoveClipboardEntry(u64),
    /// Remove a layer.
    RemoveOverlayTrack(TrackId),
    /// Show or hide a layer.
    SetOverlayVisibility(TrackId, bool),
    /// Select one frame.
    SelectOnly(FrameId),
    /// Select a frame, or no longer.
    ToggleSelection(FrameId),
    /// Select every frame up to one.
    ExtendSelectionRange(FrameId),
    /// Draw something over the selection.
    AddOverlayForSelection { name: Seq<char>, content: ContentView, z_index: i32, opacity: u8, blend_mode: BlendMode },
}

impl View for EditorRequest {
    type V = RequestView;

    open spec fn view(&self) -> RequestView {
        match *self {
            EditorRequest::SelectFirst => RequestView::SelectFirst,
            EditorRequest::SelectPrevious => RequestView::SelectPrevious,
            EditorRequest::SelectNext => RequestView::SelectNext,
            EditorRequest::SelectLast => RequestView::SelectLast,
            EditorRequest::SelectAll => RequestView::SelectAll,
            EditorRequest::InvertSelection => RequestView::InvertSelection,
            EditorRequest::ClearSelection => RequestView::ClearSelection,
            EditorRequest::Undo => RequestView::Undo,
            EditorRequest::Redo => RequestView::Redo,
            EditorRequest::CutSelection => RequestView::CutSelection,
            EditorRequest::CopySelection => RequestView::CopySelection,
            EditorRequest::PasteAfterCurrent => RequestView::PasteAfterCurrent,
            EditorRequest::DeleteSelection => RequestView::DeleteSelection,
            EditorRequest::DeleteBeforeSelection => RequestView::DeleteBeforeSelection,
            EditorRequest::DeleteAfterSelection => RequestView::DeleteAfterSelection,
            EditorRequest::MoveSelectionLeft => RequestView::MoveSelectionLeft,
            EditorRequest::MoveSelectionRight => RequestView::MoveSelectionRight,
            EditorRequest::ReverseSelection => RequestView::ReverseSelection,
            EditorRequest::RemoveCurrentTransition => RequestView::RemoveCurrentTransition,
            EditorRequest::ClearSelectionCrop => RequestView::ClearSelectionCrop,
            EditorRequest::ClearSelectionOutputSize => RequestView::ClearSelectionOutputSize,
            EditorRequest::ClearSelectionEffects => RequestView::ClearSelectionEffects,
            EditorRequest::Checkpoint => RequestView::Checkpoint,
            EditorRequest::CheckpointAndCompact => RequestView::CheckpointAndCompact,
            EditorRequest::RepairJournal => RequestView::RepairJournal,
            EditorRequest::ClearClipboardHistory => RequestView::ClearClipboardHistory,
            EditorRequest::SelectFrameNumber(a) => RequestView::SelectFrameNumber(a),
            EditorRequest::SelectTime(a) => RequestView::SelectTime(a),
            EditorRequest::SelectTimeRange(a, b) => RequestView::SelectTimeRange(a, b),
            EditorRequest::KeepTimeRange(a, b) => RequestView::KeepTimeRange(a, b),
            EditorRequest::DeleteTimeRange(a, b) => RequestView::DeleteTimeRange(a, b),
            EditorRequest::OverrideSelectionDuration(a) => RequestView::OverrideSelectionDuration(a@),
            EditorRequest::AdjustSelectionDuration(a) => RequestView::AdjustSelectionDuration(a),
            EditorRequest::ScaleSelectionDuration(a) => RequestView::ScaleSelectionDuration(a),
            EditorRequest::ReduceSelection(a, b) => RequestView::ReduceSelection(a, b),
            EditorRequest::Yoyo(a, b) => RequestView::Yoyo(a, b),
            EditorRequest::RemoveDuplicateSelection(a, b, c) => RequestView::RemoveDuplicateSelection(a, b, c),
            EditorRequest::SetCurrentTransition(a) => RequestView::SetCurrentTransition(a@),
            EditorRequest::SetSelectionCrop(a) => RequestView::SetSelectionCrop(a),
            EditorRequest::SetSelectionOutputSize(a) => RequestView::SetSelectionOutputSize(a),
            EditorRequest::RotateSelectionCounterclockwise => RequestView::RotateSelectionCounterclockwise,
            EditorRequest::RotateSelectionClockwise => RequestView::RotateSelectionClockwise,
            EditorRequest::ToggleSelectionHorizontalFlip => RequestView::ToggleSelectionHorizontalFlip,
            EditorRequest::ToggleSelectionVerticalFlip => RequestView::ToggleSelectionVerticalFlip,
            EditorRequest::AddSelectionEffect(a) => RequestView::AddSelectionEffect(a),
            EditorRequest::ReplaceSelectionEffect(a, b) => RequestView::ReplaceSelectionEffect(a, b),
            EditorRequest::SelectClipboardEntry(a) => RequestView::SelectClipboardEntry(a),
            EditorRequest::RemoveClipboardEntry(a) => RequestView::RemoveClipboardEntry(a),
            EditorRequest::RemoveOverlayTrack(a) => RequestView::RemoveOverlayTrack(a),
            EditorRequest::SetOverlayVisibility(a, b) => RequestView::SetOverlayVisibility(a, b),
            EditorRequest::SelectOnly(a) => RequestView::SelectOnly(a),
            EditorRequest::ToggleSelection(a) => RequestView::ToggleSelection(a),
            EditorRequest::ExtendSelectionRange(a) => RequestView::ExtendSelectionRange(a),
            EditorRequest::AddOverlayForSelection { name, content, z_index, opacity, blend_mode } => {
                RequestView::AddOverlayForSelection {
                    name: name@,
                    content: content@,
                    z_index,
                    opacity,
                    blend_mode,
                }
            },
        }
    }
}

/// What a click on a frame does.
pub open spec fn click(ctrl: bool, shift: bool) -> EditorUiOperation {
    if shift {
        EditorUiOperation::ExtendFrameRange
    } else if ctrl {
        EditorUiOperation::ToggleFrame
    } else {
        EditorUiOperation::SelectFrame
    }
}

/// What a click on a frame does.
pub fn frame_click_operation(ctrl: bool, shift: bool) -> (operation: EditorUiOperation)
    ensures
        operation == click(ctrl, shift),
{
    if shift {
        EditorUiOperation::ExtendFrameRange
    } else if ctrl {
        EditorUiOperation::ToggleFrame
    } else {
        EditorUiOperation::SelectFrame
    }
}

/// What a control is called among the operations.
pub open spec fn operation(control: EditorControl) -> EditorUiOperation {
    match control {
        EditorControl::First => EditorUiOperation::SelectFirst,
        EditorControl::Previous => EditorUiOperation::SelectPrevious,
        EditorControl::Next => EditorUiOperation::SelectNext,
        EditorControl::Last => EditorUiOperation::SelectLast,
        EditorControl::All => EditorUiOperation::SelectAll,
        EditorControl::Invert => EditorUiOperation::InvertSelection,
        EditorControl::Clear => EditorUiOperation::ClearSelection,
        EditorControl::Undo => EditorUiOperation::Undo,
        EditorControl::Redo => EditorUiOperation::Redo,
        EditorControl::Cut => EditorUiOperation::Cut,
        EditorControl::Copy => EditorUiOperation::Copy,
        EditorControl::Paste => EditorUiOperation::Paste,
        EditorControl::Delete => EditorUiOperation::DeleteSelection,
        EditorControl::DeleteBefore => EditorUiOperation::DeleteBeforeSelection,
        EditorControl::DeleteAfter => EditorUiOperation::DeleteAfterSelection,
        EditorControl::MoveLeft => EditorUiOperation::MoveSelectionLeft,
        EditorControl::MoveRight => EditorUiOperation::MoveSelectionRight,
        EditorControl::Reverse => EditorUiOperation::ReverseSelection,
        EditorControl::DeleteTransition => EditorUiOperation::DeleteTransition,
        EditorControl::ClearCrop => EditorUiOperation::ClearCrop,
        EditorControl::ClearResize => EditorUiOperation::ClearOutputSize,
        EditorControl::ClearEffects => EditorUiOperation::ClearEffects,
        EditorControl::SaveCheckpoint => EditorUiOperation::SaveCheckpoint,
        EditorControl::SaveAndCompact => EditorUiOperation::SaveAndCompact,
        EditorControl::RepairJournal => EditorUiOperation::RepairJournal,
        EditorControl::ClearClipboardHistory => EditorUiOperation::ClearClipboardHistory,
        EditorControl::SelectClipboardEntry(_) => EditorUiOperation::SelectClipboardEntry,
        EditorControl::RemoveClipboardEntry(_) => EditorUiOperation::RemoveClipboardEntry,
        EditorControl::RemoveTrack(_) => EditorUiOperation::RemoveOverlayTrack,
        EditorControl::SetVisibility(_, _) => EditorUiOperation::SetOverlayVisibility,
        EditorControl::GoToFrame => EditorUiOperation::JumpToFrame,
        EditorControl::GoToTime => EditorUiOperation::JumpToTime,
        EditorControl::SelectRange => EditorUiOperation::SelectTimeRange,
        EditorControl::KeepRange => EditorUiOperation::KeepTimeRange,
        EditorControl::DeleteRange => EditorUiOperation::DeleteTimeRange,
        EditorControl::OverrideDuration => EditorUiOperation::OverrideDuration,
        EditorControl::AdjustDuration => EditorUiOperation::AdjustDuration,
        EditorControl::ScaleDuration => EditorUiOperation::ScaleDuration,
        EditorControl::ReduceFrames => EditorUiOperation::ReduceFrames,
        EditorControl::RemoveDuplicates => EditorUiOperation::RemoveDuplicates,
        EditorControl::SetTransition => EditorUiOperation::SetTransition,
        EditorControl::ApplyCrop => EditorUiOperation::ApplyCrop,
        EditorControl::Resize => EditorUiOperation::Resize,
        EditorControl::AddEffect => EditorUiOperation::AddEffect,
        EditorControl::CreateYoyo => EditorUiOperation::Yoyo,
        EditorControl::ReplaceEffect => EditorUiOperation::ReplaceEffect,
        EditorControl::AddShape => EditorUiOperation::AddShapeOverlay,
        EditorControl::CommitDrawing => EditorUiOperation::AddDrawingOverlay,
        EditorControl::Turn(control) => turning(control),
        EditorControl::ClickFrame(_, ctrl, shift) => click(ctrl, shift),
    }
}

/// What a control is called among the operations.
pub fn control_operation(control: EditorControl) -> (named: EditorUiOperation)
    ensures
        named == operation(control),
{
    match control {
        EditorControl::First => EditorUiOperation::SelectFirst,
        EditorControl::Previous => EditorUiOperation::SelectPrevious,
        EditorControl::Next => EditorUiOperation::SelectNext,
        EditorControl::Last => EditorUiOperation::SelectLast,
        EditorControl::All => EditorUiOperation::SelectAll,
        EditorControl::Invert => EditorUiOperation::InvertSelection,
        EditorControl::Clear => EditorUiOperation::ClearSelection,
        EditorControl::Undo => EditorUiOperation::Undo,
        EditorControl::Redo => EditorUiOperation::Redo,
        EditorControl::Cut => EditorUiOperation::Cut,
        EditorControl::Copy => EditorUiOperation::Copy,
        EditorControl::Paste => EditorUiOperation::Paste,
        EditorControl::Delete => EditorUiOperation::DeleteSelection,
        EditorControl::DeleteBefore => EditorUiOperation::DeleteBeforeSelection,
        EditorControl::DeleteAfter => EditorUiOperation::DeleteAfterSelection,
        EditorControl::MoveLeft => EditorUiOperation::MoveSelectionLeft,
        EditorControl::MoveRight => EditorUiOperation::MoveSelectionRight,
        EditorControl::Reverse => EditorUiOperation::ReverseSelection,
        EditorControl::DeleteTransition => EditorUiOperation::DeleteTransition,
        EditorControl::ClearCrop => EditorUiOperation::ClearCrop,
        EditorControl::ClearResize => EditorUiOperation::ClearOutputSize,
        EditorControl::ClearEffects => EditorUiOperation::ClearEffects,
        EditorControl::SaveCheckpoint => EditorUiOperation::SaveCheckpoint,
        EditorControl::SaveAndCompact => EditorUiOperation::SaveAndCompact,
        EditorControl::RepairJournal => EditorUiOperation::RepairJournal,
        EditorControl::ClearClipboardHistory => EditorUiOperation::ClearClipboardHistory,
        EditorControl::SelectClipboardEntry(_) => EditorUiOperation::SelectClipboardEntry,
        EditorControl::RemoveClipboardEntry(_) => EditorUiOperation::RemoveClipboardEntry,
        EditorControl::RemoveTrack(_) => EditorUiOperation::RemoveOverlayTrack,
        EditorControl::SetVisibility(_, _) => EditorUiOperation::SetOverlayVisibility,
        EditorControl::GoToFrame => EditorUiOperation::JumpToFrame,
        EditorControl::GoToTime => EditorUiOperation::JumpToTime,
        EditorControl::SelectRange => EditorUiOperation::SelectTimeRange,
        EditorControl::KeepRange => EditorUiOperation::KeepTimeRange,
        EditorControl::DeleteRange => EditorUiOperation::DeleteTimeRange,
        EditorControl::OverrideDuration => EditorUiOperation::OverrideDuration,
        EditorControl::AdjustDuration => EditorUiOperation::AdjustDuration,
        EditorControl::ScaleDuration => EditorUiOperation::ScaleDuration,
        EditorControl::ReduceFrames => EditorUiOperation::ReduceFrames,
        EditorControl::RemoveDuplicates => EditorUiOperation::RemoveDuplicates,
        EditorControl::SetTransition => EditorUiOperation::SetTransition,
        EditorControl::ApplyCrop => EditorUiOperation::ApplyCrop,
        EditorControl::Resize => EditorUiOperation::Resize,
        EditorControl::AddEffect => EditorUiOperation::AddEffect,
        EditorControl::CreateYoyo => EditorUiOperation::Yoyo,
        EditorControl::ReplaceEffect => EditorUiOperation::ReplaceEffect,
        EditorControl::AddShape => EditorUiOperation::AddShapeOverlay,
        EditorControl::CommitDrawing => EditorUiOperation::AddDrawingOverlay,
        EditorControl::Turn(control) => orientation_operation(control),
        EditorControl::ClickFrame(_, ctrl, shift) => frame_click_operation(ctrl, shift),
    }
}

/// What a way to turn pictures asks.
pub open spec fn turn_request(control: OrientationControl) -> RequestView {
    match control {
        OrientationControl::RotateLeft => RequestView::RotateSelectionCounterclockwise,
        OrientationControl::RotateRight => RequestView::RotateSelectionClockwise,
        OrientationControl::FlipHorizontal => RequestView::ToggleSelectionHorizontalFlip,
        OrientationControl::FlipVertical => RequestView::ToggleSelectionVerticalFlip,
    }
}

/// What a way to turn pictures asks.
pub fn apply_orientation_control(control: OrientationControl) -> (request: EditorRequest)
    ensures
        request@ == turn_request(control),
{
    match control {
        OrientationControl::RotateLeft => EditorRequest::RotateSelectionCounterclockwise,
        OrientationControl::RotateRight => EditorRequest::RotateSelectionClockwise,
        OrientationControl::FlipHorizontal => EditorRequest::ToggleSelectionHorizontalFlip,
        OrientationControl::FlipVertical => EditorRequest::ToggleSelectionVerticalFlip,
    }
}

/// What drawing over the selection asks.
pub open spec fn overlay_request(
    content: Result<ContentView, Seq<char>>,
    name: Seq<char>,
    z_index: i32,
    opacity: u8,
    blend_mode: BlendMode,
) -> Result<RequestView, Seq<char>> {
    match content {
        Ok(content) => Ok(
            RequestView::AddOverlayForSelection { name: text::trimmed(name), content, z_index, opacity, blend_mode },
        ),
        Err(message) => Err(message),
    }
}

fn ask_overlay(
    content: Result<OverlayContent, String>,
    name: &str,
    z_index: i32,
    opacity: u8,
    blend_mode: BlendMode,
) -> (request: Result<EditorRequest, String>)
    ensures
        text::seen(request) == overlay_request(text::seen(content), name@, z_index, opacity, blend_mode),
{
    match content {
        Ok(content) => Ok(
            EditorRequest::AddOverlayForSelection {
                name: trim(name).to_owned(),
                content,
                z_index,
                opacity,
                blend_mode,
            },
        ),
        Err(message) => Err(message),
    }
}

/// What replacing an effect asks.
pub open spec fn replacement(index: Result<usize, Seq<char>>, effect: Result<Effect, Seq<char>>) -> Result<
    RequestView,
    Seq<char>,
> {
    match index {
        Err(message) => Err(message),
        Ok(index) => match effect {
            Err(message) => Err(message),
            Ok(effect) => Ok(RequestView::ReplaceSelectionEffect(index, effect)),
        },
    }
}

/// What a control asks, or why what is written forbids it.
pub open spec fn asked(control: EditorControl, state: EditorUiState, canvas: PhysicalSize, limits: EditorLimits) -> Result<
    RequestView,
    Seq<char>,
> {
    match control {
        EditorControl::First => Ok(RequestView::SelectFirst),
        EditorControl::Previous => Ok(RequestView::SelectPrevious),
        EditorControl::Next => Ok(RequestView::SelectNext),
        EditorControl::Last => Ok(RequestView::SelectLast),
        EditorControl::All => Ok(RequestView::SelectAll),
        EditorControl::Invert => Ok(RequestView::InvertSelection),
        EditorControl::Clear => Ok(RequestView::ClearSelection),
        EditorControl::Undo => Ok(RequestView::Undo),
        EditorControl::Redo => Ok(RequestView::Redo),
        EditorControl::Cut => Ok(RequestView::CutSelection),
        EditorControl::Copy => Ok(RequestView::CopySelection),
        EditorControl::Paste => Ok(RequestView::PasteAfterCurrent),
        EditorControl::Delete => Ok(RequestView::DeleteSelection),
        EditorControl::DeleteBefore => Ok(RequestView::DeleteBeforeSelection),
        EditorControl::DeleteAfter => Ok(RequestView::DeleteAfterSelection),
        EditorControl::MoveLeft => Ok(RequestView::MoveSelectionLeft),
        EditorControl::MoveRight => Ok(RequestView::MoveSelectionRight),
        EditorControl::Reverse => Ok(RequestView::ReverseSelection),
        EditorControl::DeleteTransition => Ok(RequestView::RemoveCurrentTransition),
        EditorControl::ClearCrop => Ok(RequestView::ClearSelectionCrop),
        EditorControl::ClearResize => Ok(RequestView::ClearSelectionOutputSize),
        EditorControl::ClearEffects => Ok(RequestView::ClearSelectionEffects),
        EditorControl::SaveCheckpoint => Ok(RequestView::Checkpoint),
        EditorControl::SaveAndCompact => Ok(RequestView::CheckpointAndCompact),
        EditorControl::RepairJournal => Ok(RequestView::RepairJournal),
        EditorControl::ClearClipboardHistory => Ok(RequestView::ClearClipboardHistory),
        EditorControl::SelectClipboardEntry(id) => Ok(RequestView::SelectClipboardEntry(id)),
        EditorControl::RemoveClipboardEntry(id) => Ok(RequestView::RemoveClipboardEntry(id)),
        EditorControl::RemoveTrack(id) => Ok(RequestView::RemoveOverlayTrack(id)),
        EditorControl::SetVisibility(id, visible) => Ok(RequestView::SetOverlayVisibility(id, visible)),
        EditorControl::GoToFrame => match ui_input::input::<usize>(state.frame_number_input@, "frame number"@) {
            Ok(number) => Ok(RequestView::SelectFrameNumber(number)),
            Err(message) => Err(message),
        },
        EditorControl::GoToTime => match ui_build::time_ms(state.time_ms_input@) {
            Ok(time) => Ok(RequestView::SelectTime(time)),
            Err(message) => Err(message),
        },
        EditorControl::SelectRange => match ui_build::time_range(state) {
            Ok(range) => Ok(RequestView::SelectTimeRange(range.0, range.1)),
            Err(message) => Err(message),
        },
        EditorControl::KeepRange => match ui_build::time_range(state) {
            Ok(range) => Ok(RequestView::KeepTimeRange(range.0, range.1)),
            Err(message) => Err(message),
        },
        EditorControl::DeleteRange => match ui_build::time_range(state) {
            Ok(range) => Ok(RequestView::DeleteTimeRange(range.0, range.1)),
            Err(message) => Err(message),
        },
        EditorControl::OverrideDuration => match ui_build::duration_us(state.duration_us_input@) {
            Ok(duration) => Ok(RequestView::OverrideSelectionDuration(duration)),
            Err(message) => Err(message),
        },
        EditorControl::AdjustDuration => match ui_input::input::<i64>(state.duration_us_input@, "delay adjustment"@) {
            Ok(delta) => Ok(RequestView::AdjustSelectionDuration(delta)),
            Err(message) => Err(message),
        },
        EditorControl::ScaleDuration => match ui_input::input::<u32>(state.percentage_input@, "duration percentage"@) {
            Ok(percent) => Ok(RequestView::ScaleSelectionDuration(percent)),
            Err(message) => Err(message),
        },
        EditorControl::ReduceFrames => match ui_build::keep_every(state.reduce_keep_every_input@) {
            Ok(interval) => Ok(RequestView::ReduceSelection(interval, state.reduce_delay_mode)),
            Err(message) => Err(message),
        },
        EditorControl::RemoveDuplicates => match ui_build::similarity_threshold(state.duplicate_threshold_input@) {
            Ok(threshold) => Ok(RequestView::RemoveDuplicateSelection(threshold, state.duplicate_retention, state.duplicate_delay_mode)),
            Err(message) => Err(message),
        },
        EditorControl::SetTransition => match ui_build::transition_settings(state, limits) {
            Ok(settings) => Ok(RequestView::SetCurrentTransition(settings)),
            Err(message) => Err(message),
        },
        EditorControl::ApplyCrop => match ui_build::crop(state) {
            Ok(rect) => Ok(RequestView::SetSelectionCrop(rect)),
            Err(message) => Err(message),
        },
        EditorControl::Resize => match ui_build::output_size(state) {
            Ok(size) => Ok(RequestView::SetSelectionOutputSize(size)),
            Err(message) => Err(message),
        },
        EditorControl::AddEffect => match ui_build::effect(state, limits) {
            Ok(effect) => Ok(RequestView::AddSelectionEffect(effect)),
            Err(message) => Err(message),
        },
        EditorControl::CreateYoyo => Ok(RequestView::Yoyo(state.yoyo_scope, state.yoyo_repeat_endpoints)),
        EditorControl::Turn(turn) => Ok(turn_request(turn)),
        EditorControl::ReplaceEffect => replacement(
            ui_build::effect_index(state),
            ui_build::effect(state, limits),
        ),
        EditorControl::AddShape => overlay_request(
            ui_build::shape_overlay(state.shape_overlay, canvas),
            state.shape_overlay.name@,
            state.shape_overlay.z_index,
            state.shape_overlay.track_opacity,
            state.shape_overlay.blend_mode,
        ),
        EditorControl::CommitDrawing => overlay_request(
            ui_build::drawing_overlay(state.drawing_overlay),
            state.drawing_overlay.name@,
            state.drawing_overlay.z_index,
            state.drawing_overlay.track_opacity,
            state.drawing_overlay.blend_mode,
        ),
        EditorControl::ClickFrame(id, ctrl, shift) => Ok(
            if shift {
                RequestView::ExtendSelectionRange(id)
            } else if ctrl {
                RequestView::ToggleSelection(id)
            } else {
                RequestView::SelectOnly(id)
            },
        ),
    }
}

/// Works out what a control asks of the project.
pub fn request(control: EditorControl, state: &EditorUiState, canvas: PhysicalSize, limits: EditorLimits) -> (result:
    Result<EditorRequest, String>)
    ensures
        text::seen(result) == asked(control, *state, canvas, limits),
{
    match control {
        EditorControl::First => Ok(EditorRequest::SelectFirst),
        EditorControl::Previous => Ok(EditorRequest::SelectPrevious),
        EditorControl::Next => Ok(EditorRequest::SelectNext),
        EditorControl::Last => Ok(EditorRequest::SelectLast),
        EditorControl::All => Ok(EditorRequest::SelectAll),
        EditorControl::Invert => Ok(EditorRequest::InvertSelection),
        EditorControl::Clear => Ok(EditorRequest::ClearSelection),
        EditorControl::Undo => Ok(EditorRequest::Undo),
        EditorControl::Redo => Ok(EditorRequest::Redo),
        EditorControl::Cut => Ok(EditorRequest::CutSelection),
        EditorControl::Copy => Ok(EditorRequest::CopySelection),
        EditorControl::Paste => Ok(EditorRequest::PasteAfterCurrent),
        EditorControl::Delete => Ok(EditorRequest::DeleteSelection),
        EditorControl::DeleteBefore => Ok(EditorRequest::DeleteBeforeSelection),
        EditorControl::DeleteAfter => Ok(EditorRequest::DeleteAfterSelection),
        EditorControl::MoveLeft => Ok(EditorRequest::MoveSelectionLeft),
        EditorControl::MoveRight => Ok(EditorRequest::MoveSelectionRight),
        EditorControl::Reverse => Ok(EditorRequest::ReverseSelection),
        EditorControl::DeleteTransition => Ok(EditorRequest::RemoveCurrentTransition),
        EditorControl::ClearCrop => Ok(EditorRequest::ClearSelectionCrop),
        EditorControl::ClearResize => Ok(EditorRequest::ClearSelectionOutputSize),
        EditorControl::ClearEffects => Ok(EditorRequest::ClearSelectionEffects),
        EditorControl::SaveCheckpoint => Ok(EditorRequest::Checkpoint),
        EditorControl::SaveAndCompact => Ok(EditorRequest::CheckpointAndCompact),
        EditorControl::RepairJournal => Ok(EditorRequest::RepairJournal),
        EditorControl::ClearClipboardHistory => Ok(EditorRequest::ClearClipboardHistory),
        EditorControl::SelectClipboardEntry(id) => Ok(EditorRequest::SelectClipboardEntry(id)),
        EditorControl::RemoveClipboardEntry(id) => Ok(EditorRequest::RemoveClipboardEntry(id)),
        EditorControl::RemoveTrack(id) => Ok(EditorRequest::RemoveOverlayTrack(id)),
        EditorControl::SetVisibility(id, visible) => Ok(EditorRequest::SetOverlayVisibility(id, visible)),
        EditorControl::GoToFrame => match parse_input::<usize>(state.frame_number_input.as_str(), "frame number") {
            Ok(number) => Ok(EditorRequest::SelectFrameNumber(number)),
            Err(message) => Err(message),
        },
        EditorControl::GoToTime => match parse_time_ms(state.time_ms_input.as_str()) {
            Ok(time) => Ok(EditorRequest::SelectTime(time)),
            Err(message) => Err(message),
        },
        EditorControl::SelectRange => match parse_time_range(state) {
            Ok(range) => Ok(EditorRequest::SelectTimeRange(range.0, range.1)),
            Err(message) => Err(message),
        },
        EditorControl::KeepRange => match parse_time_range(state) {
            Ok(range) => Ok(EditorRequest::KeepTimeRange(range.0, range.1)),
            Err(message) => Err(message),
        },
        EditorControl::DeleteRange => match parse_time_range(state) {
            Ok(range) => Ok(EditorRequest::DeleteTimeRange(range.0, range.1)),
            Err(message) => Err(message),
        },
        EditorControl::OverrideDuration => match parse_duration_us(state.duration_us_input.as_str()) {
            Ok(duration) => Ok(EditorRequest::OverrideSelectionDuration(duration)),
            Err(message) => Err(message),
        },
        EditorControl::AdjustDuration => match parse_input::<i64>(state.duration_us_input.as_str(), "delay adjustment") {
            Ok(delta) => Ok(EditorRequest::AdjustSelectionDuration(delta)),
            Err(message) => Err(message),
        },
        EditorControl::ScaleDuration => match parse_input::<u32>(state.percentage_input.as_str(), "duration percentage") {
            Ok(percent) => Ok(EditorRequest::ScaleSelectionDuration(percent)),
            Err(message) => Err(message),
        },
        EditorControl::ReduceFrames => match parse_keep_every(state.reduce_keep_every_input.as_str()) {
            Ok(interval) => Ok(EditorRequest::ReduceSelection(interval, state.reduce_delay_mode)),
            Err(message) => Err(message),
        },
        EditorControl::RemoveDuplicates => match parse_similarity_threshold(state.duplicate_threshold_input.as_str()) {
            Ok(threshold) => Ok(EditorRequest::RemoveDuplicateSelection(threshold, state.duplicate_retention, state.duplicate_delay_mode)),
            Err(message) => Err(message),
        },
        EditorControl::SetTransition => match build_transition_settings(state, limits) {
            Ok(settings) => Ok(EditorRequest::SetCurrentTransition(settings)),
            Err(message) => Err(message),
        },
        EditorControl::ApplyCrop => match parse_crop(state) {
            Ok(rect) => Ok(EditorRequest::SetSelectionCrop(rect)),
            Err(message) => Err(message),
        },
        EditorControl::Resize => match parse_output_size(state) {
            Ok(size) => Ok(EditorRequest::SetSelectionOutputSize(size)),
            Err(message) => Err(message),
        },
        EditorControl::AddEffect => match build_effect(state, limits) {
            Ok(effect) => Ok(EditorRequest::AddSelectionEffect(effect)),
            Err(message) => Err(message),
        },
        EditorControl::CreateYoyo => Ok(EditorRequest::Yoyo(state.yoyo_scope, state.yoyo_repeat_endpoints)),
        EditorControl::Turn(turn) => Ok(apply_orientation_control(turn)),
        EditorControl::ReplaceEffect => match parse_effect_index(state) {
            Err(message) => Err(message),
            Ok(index) => match build_effect(state, limits) {
                Err(message) => Err(message),
                Ok(effect) => Ok(EditorRequest::ReplaceSelectionEffect(index, effect)),
            },
        },
        EditorControl::AddShape => ask_overlay(
            build_shape_overlay(&state.shape_overlay, canvas),
            state.shape_overlay.name.as_str(),
            state.shape_overlay.z_index,
            state.shape_overlay.track_opacity,
            state.shape_overlay.blend_mode,
        ),
        EditorControl::CommitDrawing => ask_overlay(
            build_drawing_overlay(&state.drawing_overlay),
            state.drawing_overlay.name.as_str(),
            state.drawing_overlay.z_index,
            state.drawing_overlay.track_opacity,
            state.drawing_overlay.blend_mode,
        ),
        EditorControl::ClickFrame(id, ctrl, shift) => {
            if shift {
                Ok(EditorRequest::ExtendSelectionRange(id))
            } else if ctrl {
                Ok(EditorRequest::ToggleSelection(id))
            } else {
                Ok(EditorRequest::SelectOnly(id))
            }
        },
    }
}

/// What selecting exactly the given frames asks, one after the other.
pub open spec fn replacing(frame_ids: Seq<FrameId>) -> Seq<RequestView> {
    if frame_ids.len() == 0 {
        seq![RequestView::ClearSelection]
    } else {
        Seq::new(
            frame_ids.len(),
            |i: int|
                if i == 0 {
                    RequestView::SelectOnly(frame_ids[0])
                } else {
                    RequestView::ToggleSelection(frame_ids[i])
                },
        )
    }
}

/// What a list of requests asks.
pub open spec fn request_views(requests: Seq<EditorRequest>) -> Seq<RequestView> {
    Seq::new(requests.len(), |i: int| requests[i]@)
}

/// Works out what selecting exactly the given frames asks, one after the other; the first that
/// fails ends it.
pub fn replace_selection(frame_ids: &[FrameId]) -> (requests: Vec<EditorRequest>)
    ensures
        request_views(requests@) == replacing(frame_ids@),
{
    let mut requests: Vec<EditorRequest> = Vec::new();
    let count: usize = frame_ids.len();
    if count == 0 {
        requests.push(EditorRequest::ClearSelection);
        assert(request_views(requests@) =~= replacing(frame_ids@));
        return requests;
    }
    requests.push(EditorRequest::SelectOnly(frame_ids[0]));
    let mut at: usize = 1;
    while at < count
        invariant
            1 <= at <= count,
            count == frame_ids@.len(),
            request_views(requests@) =~= replacing(frame_ids@).take(at as int),
        decreases count - at,
    {
        let ghost before = requests@;
        requests.push(EditorRequest::ToggleSelection(frame_ids[at]));
        assert(request_views(requests@) =~= request_views(before).push(
            RequestView::ToggleSelection(frame_ids@[at as int]),
        ));
        at = at + 1;
    }
    requests
}

/// What came of a request.
#[derive(Debug)]
pub enum Outcome {
    /// It was done.
    Done,
    /// The history was walked, or there was nowhere to go.
    Walked(bool),
    /// It was about some frames.
    Frames(usize),
    /// The journal was repaired, and a rejected one kept at a path.
    Preserved(Option<String>),
    /// The copy it was about is gone.
    Missing,
    /// It failed.
    Failed(String),
}

/// Whether an operation only selects.
pub open spec fn selects(operation: EditorUiOperation) -> bool {
    match operation {
        EditorUiOperation::SelectFirst
        | EditorUiOperation::SelectPrevious
        | EditorUiOperation::SelectNext
        | EditorUiOperation::SelectLast
        | EditorUiOperation::JumpToFrame
        | EditorUiOperation::JumpToTime
        | EditorUiOperation::SelectAll
        | EditorUiOperation::InvertSelection
        | EditorUiOperation::ClearSelection
        | EditorUiOperation::SelectFrame
        | EditorUiOperation::ToggleFrame
        | EditorUiOperation::ExtendFrameRange
        | EditorUiOperation::SelectExpression
        | EditorUiOperation::SelectTimeRange => true,
        _ => false,
    }
}

fn is_selection(operation: EditorUiOperation) -> (selection: bool)
    ensures
        selection == selects(operation),
{
    match operation {
        EditorUiOperation::SelectFirst
        | EditorUiOperation::SelectPrevious
        | EditorUiOperation::SelectNext
        | EditorUiOperation::SelectLast
        | EditorUiOperation::JumpToFrame
        | EditorUiOperation::JumpToTime
        | EditorUiOperation::SelectAll
        | EditorUiOperation::InvertSelection
        | EditorUiOperation::ClearSelection
        | EditorUiOperation::SelectFrame
        | EditorUiOperation::ToggleFrame
        | EditorUiOperation::ExtendFrameRange
        | EditorUiOperation::SelectExpression
        | EditorUiOperation::SelectTimeRange => true,
        _ => false,
    }
}

/// What is told where an operation succeeds that changes neither frames nor selection.
pub open spec fn notice(operation: EditorUiOperation) -> Option<Seq<char>> {
    match operation {
        EditorUiOperation::SaveCheckpoint => Some("Project manifest checkpoint saved."@),
        EditorUiOperation::SaveAndCompact => Some("Project checkpoint saved and journal compacted."@),
        EditorUiOperation::ClearClipboardHistory => Some("Clipboard history cleared."@),
        _ => None,
    }
}

fn notice_text(operation: EditorUiOperation) -> (message: Option<String>)
    ensures
        match message {
            Some(words) => notice(operation) == Some(words@),
            None => notice(operation) is None,
        },
{
    match operation {
        EditorUiOperation::SaveCheckpoint => Some("Project manifest checkpoint saved.".to_owned()),
        EditorUiOperation::SaveAndCompact => Some("Project checkpoint saved and journal compacted.".to_owned()),
        EditorUiOperation::ClearClipboardHistory => Some("Clipboard history cleared.".to_owned()),
        _ => None,
    }
}

/// What is told where a copy is gone.
pub open spec fn missing(operation: EditorUiOperation) -> Seq<char> {
    if operation == EditorUiOperation::RemoveClipboardEntry {
        "Clipboard history changed before the entry could be removed."@
    } else {
        "Clipboard history changed before the entry could be selected."@
    }
}

/// What is noted of an outcome.
pub open spec fn said(operation: EditorUiOperation, outcome: Outcome) -> Option<ResultView> {
    match outcome {
        Outcome::Failed(message) => Some(ResultView::Failure(operation, message@)),
        Outcome::Missing => Some(ResultView::Failure(operation, missing(operation))),
        Outcome::Walked(false) => None,
        Outcome::Walked(true) => Some(ResultView::Project(operation)),
        Outcome::Frames(frames) => Some(ResultView::Clipboard(operation, frames as int)),
        Outcome::Preserved(path) => Some(ResultView::Notice(operation, ui_results::repair_notice(value::option_view(path)))),
        Outcome::Done => Some(
            match notice(operation) {
                Some(message) => ResultView::Notice(operation, message),
                None => if selects(operation) {
                    ResultView::Selection(operation)
                } else {
                    ResultView::Project(operation)
                },
            },
        ),
    }
}

/// Whether an outcome may have changed frames or selection.
pub open spec fn touches(operation: EditorUiOperation, outcome: Outcome) -> bool {
    match outcome {
        Outcome::Walked(changed) => changed,
        Outcome::Done => notice(operation) is None,
        _ => false,
    }
}

/// Whether an outcome was noted as it should be.
pub open spec fn recorded(
    before: EditorUiState,
    after: EditorUiState,
    earlier: Seq<ResultView>,
    later: Seq<ResultView>,
    frames: Seq<FrameClip>,
    current: Option<FrameId>,
    now: u128,
    operation: EditorUiOperation,
    outcome: Outcome,
) -> bool {
    let with_outcome = match said(operation, outcome) {
        Some(result) => earlier.push(result),
        None => earlier,
    };
    if touches(operation, outcome) {
        &&& ui_results::follows(before, after, frames, current, now)
        &&& later == with_outcome + ui_results::lost(before, frames, current)
    } else {
        &&& after == before
        &&& later == with_outcome
    }
}

/// Notes what came of a request.
pub fn record_outcome(
    frames: &[FrameClip],
    current: Option<FrameId>,
    state: &mut EditorUiState,
    now: u128,
    results: &mut Vec<EditorUiResult>,
    operation: EditorUiOperation,
    outcome: Outcome,
)
    ensures
        recorded(
            *old(state),
            *final(state),
            ui_state::result_views(old(results)@),
            ui_state::result_views(final(results)@),
            frames@,
            current,
            now,
            operation,
            outcome,
        ),
{
    match outcome {
        Outcome::Failed(message) => push_failure(results, operation, message.as_str()),
        Outcome::Missing => {
            if operation == EditorUiOperation::RemoveClipboardEntry {
                push_failure(
                    results,
                    operation,
                    "Clipboard history changed before the entry could be removed.",
                );
            } else {
                push_failure(
                    results,
                    operation,
                    "Clipboard history changed before the entry could be selected.",
                );
            }
        },
        Outcome::Walked(changed) => {
            record_history_result(frames, current, state, now, results, operation, Ok(changed));
        },
        Outcome::Frames(count) => record_clipboard_result(results, operation, Ok(count)),
        Outcome::Preserved(path) => {
            let message = match path {
                Some(path) => repair_journal_notice(Some(path.as_str())),
                None => repair_journal_notice(None),
            };
            push_notice(results, operation, message);
        },
        Outcome::Done => match notice_text(operation) {
            Some(message) => push_notice(results, operation, message),
            None => {
                if is_selection(operation) {
                    record_selection_result(frames, current, state, now, results, operation, Ok(()));
                } else {
                    record_project_result(frames, current, state, now, results, operation, Ok(()));
                }
            },
        },
    }
}

/// Whether a draft was given up and only that changed.
pub open spec fn given_up(before: EditorUiState, after: EditorUiState) -> bool {
    &&& after == (EditorUiState { drawing_overlay: after.drawing_overlay, ..before })
    &&& after.drawing_overlay.same_settings(before.drawing_overlay)
    &&& after.drawing_overlay.target is None
    &&& after.drawing_overlay.points@.len() == 0
    &&& !after.drawing_overlay.limit_reached
    &&& after.drawing_overlay.phase == DrawingDraftPhase::Idle
}

/// Notes what came of drawing the stroke over the selection: where that succeeded, the draft is
/// given up, and where it failed, the draft stays.
pub fn commit_drawing_overlay(
    frames: &[FrameClip],
    current: Option<FrameId>,
    state: &mut EditorUiState,
    now: u128,
    results: &mut Vec<EditorUiResult>,
    result: Result<(), String>,
)
    ensures
        exists|kept: EditorUiState|
            (if result is Ok {
                given_up(*old(state), kept)
            } else {
                kept == *old(state)
            }) && #[trigger] ui_results::noted(
                kept,
                *final(state),
                ui_state::result_views(old(results)@),
                ui_state::result_views(final(results)@),
                frames@,
                current,
                now,
                ResultView::Project(EditorUiOperation::AddDrawingOverlay),
                EditorUiOperation::AddDrawingOverlay,
                result,
            ),
{
    if result.is_ok() {
        state.drawing_overlay.cancel();
    }
    let ghost kept = *state;
    record_project_result(frames, current, state, now, results, EditorUiOperation::AddDrawingOverlay, result);
    assert(ui_results::noted(
        kept,
        *state,
        ui_state::result_views(old(results)@),
        ui_state::result_views(results@),
        frames@,
        current,
        now,
        ResultView::Project(EditorUiOperation::AddDrawingOverlay),
        EditorUiOperation::AddDrawingOverlay,
        result,
    ));
}

/// What a plain control asks for is what it is named after, and what it is recorded as agrees.
pub proof fn law_plain_controls_ask_for_what_they_name(
    control: EditorControl,
    state: EditorUiState,
    canvas: PhysicalSize,
    limits: EditorLimits,
    asked_for: RequestView,
)
    requires
        asked(control, state, canvas, limits) == Ok::<RequestView, Seq<char>>(asked_for),
    ensures
        asked_for is SelectFirst <==> control is First,
        asked_for is SelectPrevious <==> control is Previous,
        asked_for is SelectNext <==> control is Next,
        asked_for is SelectLast <==> control is Last,
        asked_for is SelectAll <==> control is All,
        asked_for is InvertSelection <==> control is Invert,
        asked_for is ClearSelection <==> control is Clear,
        asked_for is Undo <==> control is Undo,
        asked_for is Redo <==> control is Redo,
        asked_for is CutSelection <==> control is Cut,
        asked_for is CopySelection <==> control is Copy,
        asked_for is PasteAfterCurrent <==> control is Paste,
        asked_for is DeleteSelection <==> control is Delete,
        asked_for is DeleteBeforeSelection <==> control is DeleteBefore,
        asked_for is DeleteAfterSelection <==> control is DeleteAfter,
        asked_for is MoveSelectionLeft <==> control is MoveLeft,
        asked_for is MoveSelectionRight <==> control is MoveRight,
        asked_for is ReverseSelection <==> control is Reverse,
        asked_for is RemoveCurrentTransition <==> control is DeleteTransition,
        asked_for is ClearSelectionCrop <==> control is ClearCrop,
        asked_for is ClearSelectionOutputSize <==> control is ClearResize,
        asked_for is ClearSelectionEffects <==> control is ClearEffects,
        asked_for is Checkpoint <==> control is SaveCheckpoint,
        asked_for is CheckpointAndCompact <==> control is SaveAndCompact,
        asked_for is RepairJournal <==> control is RepairJournal,
        asked_for is ClearClipboardHistory <==> control is ClearClipboardHistory,
        asked_for is RotateSelectionCounterclockwise <==> control == EditorControl::Turn(OrientationControl::RotateLeft),
        asked_for is RotateSelectionClockwise <==> control == EditorControl::Turn(OrientationControl::RotateRight),
        asked_for is ToggleSelectionHorizontalFlip <==> control == EditorControl::Turn(
            OrientationControl::FlipHorizontal,
        ),
        asked_for is ToggleSelectionVerticalFlip <==> control == EditorControl::Turn(OrientationControl::FlipVertical),
{
}

/// What a control asks for carries what was chosen, and what was written where it is read from a field; a
/// control whose fields cannot be read asks for nothing.
pub proof fn law_controls_carry_what_was_given(
    control: EditorControl,
    state: EditorUiState,
    canvas: PhysicalSize,
    limits: EditorLimits,
    asked_for: RequestView,
)
    requires
        asked(control, state, canvas, limits) == Ok::<RequestView, Seq<char>>(asked_for),
    ensures
        asked_for matches RequestView::SelectClipboardEntry(id) ==> control == EditorControl::SelectClipboardEntry(id),
        asked_for matches RequestView::RemoveClipboardEntry(id) ==> control == EditorControl::RemoveClipboardEntry(id),
        asked_for matches RequestView::RemoveOverlayTrack(id) ==> control == EditorControl::RemoveTrack(id),
        asked_for matches RequestView::SetOverlayVisibility(id, visible) ==> control == EditorControl::SetVisibility(
            id,
            visible,
        ),
        asked_for matches RequestView::SelectFrameNumber(number) ==> control is GoToFrame && ui_input::input::<usize>(
            state.frame_number_input@,
            "frame number"@,
        ) == Ok::<usize, Seq<char>>(number),
        asked_for matches RequestView::SelectTime(time) ==> control is GoToTime && ui_build::time_ms(
            state.time_ms_input@,
        ) == Ok::<TimeUs, Seq<char>>(time),
        asked_for matches RequestView::SelectTimeRange(start, end) ==> control is SelectRange && ui_build::time_range(
            state,
        ) == Ok::<(TimeUs, TimeUs), Seq<char>>((start, end)),
        asked_for matches RequestView::KeepTimeRange(start, end) ==> control is KeepRange && ui_build::time_range(
            state,
        ) == Ok::<(TimeUs, TimeUs), Seq<char>>((start, end)),
        asked_for matches RequestView::DeleteTimeRange(start, end) ==> control is DeleteRange && ui_build::time_range(
            state,
        ) == Ok::<(TimeUs, TimeUs), Seq<char>>((start, end)),
        asked_for matches RequestView::OverrideSelectionDuration(duration) ==> control is OverrideDuration
            && ui_build::duration_us(state.duration_us_input@) == Ok::<int, Seq<char>>(duration),
        asked_for matches RequestView::AdjustSelectionDuration(delta) ==> control is AdjustDuration
            && ui_input::input::<i64>(state.duration_us_input@, "delay adjustment"@) == Ok::<i64, Seq<char>>(delta),
        asked_for matches RequestView::ScaleSelectionDuration(percent) ==> control is ScaleDuration
            && ui_input::input::<u32>(state.percentage_input@, "duration percentage"@) == Ok::<u32, Seq<char>>(percent),
        asked_for matches RequestView::ReduceSelection(interval, mode) ==> control is ReduceFrames && mode
            == state.reduce_delay_mode && ui_build::keep_every(state.reduce_keep_every_input@) == Ok::<
            usize,
            Seq<char>,
        >(interval),
        asked_for matches RequestView::Yoyo(scope, ends) ==> control is CreateYoyo && scope == state.yoyo_scope && ends
            == state.yoyo_repeat_endpoints,
        asked_for matches RequestView::RemoveDuplicateSelection(threshold, retention, mode) ==> control
            is RemoveDuplicates && retention == state.duplicate_retention && mode == state.duplicate_delay_mode
            && ui_build::similarity_threshold(state.duplicate_threshold_input@) == Ok::<u8, Seq<char>>(threshold),
        asked_for matches RequestView::SetCurrentTransition(settings) ==> control is SetTransition
            && ui_build::transition_settings(state, limits) == Ok::<SettingsView, Seq<char>>(settings),
        asked_for matches RequestView::SetSelectionCrop(rect) ==> control is ApplyCrop && ui_build::crop(state) == Ok::<
            PhysicalRect,
            Seq<char>,
        >(rect),
        asked_for matches RequestView::SetSelectionOutputSize(size) ==> control is Resize && ui_build::output_size(
            state,
        ) == Ok::<PhysicalSize, Seq<char>>(size),
        asked_for matches RequestView::AddSelectionEffect(effect) ==> control is AddEffect && ui_build::effect(
            state,
            limits,
        ) == Ok::<Effect, Seq<char>>(effect),
        asked_for matches RequestView::ReplaceSelectionEffect(index, effect) ==> control is ReplaceEffect
            && ui_build::effect_index(state) == Ok::<usize, Seq<char>>(index) && ui_build::effect(state, limits)
            == Ok::<Effect, Seq<char>>(effect),
        asked_for matches RequestView::SelectOnly(id) ==> control == EditorControl::ClickFrame(id, false, false),
        asked_for matches RequestView::ToggleSelection(id) ==> control == EditorControl::ClickFrame(id, true, false),
        asked_for matches RequestView::ExtendSelectionRange(id) ==> (control matches EditorControl::ClickFrame(
            clicked,
            _,
            shift,
        ) && clicked == id && shift),
{
}

/// A shape or a drawing is put under its trimmed name, with the level, the opacity and the mode that were
/// set for it.
pub proof fn law_overlays_are_put_as_they_were_set(
    control: EditorControl,
    state: EditorUiState,
    canvas: PhysicalSize,
    limits: EditorLimits,
)
    requires
        control is AddShape || control is CommitDrawing,
    ensures
        ({
            let made = if control is AddShape {
                ui_build::shape_overlay(state.shape_overlay, canvas)
            } else {
                ui_build::drawing_overlay(state.drawing_overlay)
            };
            match asked(control, state, canvas, limits) {
                Ok(RequestView::AddOverlayForSelection { name, content, z_index, opacity, blend_mode }) => {
                    &&& made == Ok::<ContentView, Seq<char>>(content)
                    &&& control is AddShape ==> {
                        &&& name == text::trimmed(state.shape_overlay.name@)
                        &&& z_index == state.shape_overlay.z_index
                        &&& opacity == state.shape_overlay.track_opacity
                        &&& blend_mode == state.shape_overlay.blend_mode
                    }
                    &&& control is CommitDrawing ==> {
                        &&& name == text::trimmed(state.drawing_overlay.name@)
                        &&& z_index == state.drawing_overlay.z_index
                        &&& opacity == state.drawing_overlay.track_opacity
                        &&& blend_mode == state.drawing_overlay.blend_mode
                    }
                },
                Ok(_) => false,
                Err(message) => made == Err::<ContentView, Seq<char>>(message),
            }
        }),
{
}

/// A control is recorded as what it asks for: a click by what it does to the selection, a turn by its
/// direction, and everything else by its own name.
pub proof fn law_controls_are_recorded_as_what_they_ask_for(control: EditorControl)
    ensures
        operation(control) is SelectFirst <==> control is First,
        operation(control) is SelectPrevious <==> control is Previous,
        operation(control) is SelectNext <==> control is Next,
        operation(control) is SelectLast <==> control is Last,
        operation(control) is JumpToFrame <==> control is GoToFrame,
        operation(control) is JumpToTime <==> control is GoToTime,
        operation(control) is SelectAll <==> control is All,
        operation(control) is InvertSelection <==> control is Invert,
        operation(control) is ClearSelection <==> control is Clear,
        operation(control) is SelectTimeRange <==> control is SelectRange,
        operation(control) is KeepTimeRange <==> control is KeepRange,
        operation(control) is DeleteTimeRange <==> control is DeleteRange,
        operation(control) is Undo <==> control is Undo,
        operation(control) is Redo <==> control is Redo,
        operation(control) is Cut <==> control is Cut,
        operation(control) is Copy <==> control is Copy,
        operation(control) is Paste <==> control is Paste,
        operation(control) is SelectClipboardEntry <==> control is SelectClipboardEntry,
        operation(control) is RemoveClipboardEntry <==> control is RemoveClipboardEntry,
        operation(control) is ClearClipboardHistory <==> control is ClearClipboardHistory,
        operation(control) is DeleteSelection <==> control is Delete,
        operation(control) is DeleteBeforeSelection <==> control is DeleteBefore,
        operation(control) is DeleteAfterSelection <==> control is DeleteAfter,
        operation(control) is MoveSelectionLeft <==> control is MoveLeft,
        operation(control) is MoveSelectionRight <==> control is MoveRight,
        operation(control) is ReverseSelection <==> control is Reverse,
        operation(control) is OverrideDuration <==> control is OverrideDuration,
        operation(control) is AdjustDuration <==> control is AdjustDuration,
        operation(control) is ScaleDuration <==> control is ScaleDuration,
        operation(control) is ReduceFrames <==> control is ReduceFrames,
        operation(control) is Yoyo <==> control is CreateYoyo,
        operation(control) is RemoveDuplicates <==> control is RemoveDuplicates,
        operation(control) is AddEffect <==> control is AddEffect,
        operation(control) is ReplaceEffect <==> control is ReplaceEffect,
        operation(control) is ClearEffects <==> control is ClearEffects,
        operation(control) is AddShapeOverlay <==> control is AddShape,
        operation(control) is AddDrawingOverlay <==> control is CommitDrawing,
        operation(control) is RemoveOverlayTrack <==> control is RemoveTrack,
        operation(control) is SetOverlayVisibility <==> control is SetVisibility,
        operation(control) is SetTransition <==> control is SetTransition,
        operation(control) is DeleteTransition <==> control is DeleteTransition,
        operation(control) is SaveCheckpoint <==> control is SaveCheckpoint,
        operation(control) is SaveAndCompact <==> control is SaveAndCompact,
        operation(control) is RepairJournal <==> control is RepairJournal,
        operation(control) is ApplyCrop <==> control is ApplyCrop,
        operation(control) is ClearCrop <==> control is ClearCrop,
        operation(control) is Resize <==> control is Resize,
        operation(control) is ClearOutputSize <==> control is ClearResize,
        operation(control) is RotateLeft <==> control == EditorControl::Turn(OrientationControl::RotateLeft),
        operation(control) is RotateRight <==> control == EditorControl::Turn(OrientationControl::RotateRight),
        operation(control) is FlipHorizontal <==> control == EditorControl::Turn(OrientationControl::FlipHorizontal),
        operation(control) is FlipVertical <==> control == EditorControl::Turn(OrientationControl::FlipVertical),
        operation(control) is ExtendFrameRange <==> (control matches EditorControl::ClickFrame(_, _, shift) && shift),
        operation(control) is ToggleFrame <==> (control matches EditorControl::ClickFrame(_, ctrl, shift) && ctrl
            && !shift),
        operation(control) is SelectFrame <==> (control matches EditorControl::ClickFrame(_, ctrl, shift) && !ctrl
            && !shift),
{
}

/// Replacing a selection selects the first frame alone and then adds the others, each once and in order;
/// with no frames it clears the selection.
pub proof fn law_a_selection_is_replaced_frame_by_frame(frame_ids: Seq<FrameId>, at: int)
    ensures
        frame_ids.len() == 0 ==> replacing(frame_ids) == seq![RequestView::ClearSelection],
        frame_ids.len() > 0 ==> replacing(frame_ids).len() == frame_ids.len(),
        0 <= at < frame_ids.len() ==> replacing(frame_ids)[at] == (if at == 0 {
            RequestView::SelectOnly(frame_ids[at])
        } else {
            RequestView::ToggleSelection(frame_ids[at])
        }),
{
}

/// What is said of an outcome: a failure with its reason, nothing where history could not be walked, the
/// number of frames on the clipboard, and otherwise that the selection or the project was changed.
pub proof fn law_what_is_said_of_an_outcome(operation: EditorUiOperation, outcome: Outcome)
    ensures
        outcome matches Outcome::Failed(message) ==> said(operation, outcome) == Some(
            ResultView::Failure(operation, message@),
        ) && !touches(operation, outcome),
        outcome == Outcome::Walked(false) <==> said(operation, outcome) is None,
        outcome == Outcome::Walked(true) ==> said(operation, outcome) == Some(ResultView::Project(operation))
            && touches(operation, outcome),
        outcome matches Outcome::Frames(count) ==> said(operation, outcome) == Some(
            ResultView::Clipboard(operation, count as int),
        ) && !touches(operation, outcome),
        outcome is Missing ==> said(operation, outcome)->0 is Failure && !touches(operation, outcome),
        outcome is Preserved ==> said(operation, outcome)->0 is Notice && !touches(operation, outcome),
        outcome is Done ==> {
            let noticed = operation is SaveCheckpoint || operation is SaveAndCompact || operation
                is ClearClipboardHistory;
            &&& said(operation, outcome)->0 is Notice <==> noticed
            &&& touches(operation, outcome) <==> !noticed
            &&& said(operation, outcome) == Some(ResultView::Selection(operation)) <==> selects(operation)
            &&& said(operation, outcome) == Some(ResultView::Project(operation)) <==> !noticed && !selects(operation)
        },
{
}

/// An outcome is told after the others; it changes the state only where it touches the project or the
/// selection, and then playback follows.
pub proof fn law_an_outcome_is_told_after_the_others(
    before: EditorUiState,
    after: EditorUiState,
    earlier: Seq<ResultView>,
    later: Seq<ResultView>,
    frames: Seq<FrameClip>,
    current: Option<FrameId>,
    now: u128,
    operation: EditorUiOperation,
    outcome: Outcome,
)
    requires
        recorded(before, after, earlier, later, frames, current, now, operation, outcome),
    ensures
        later.len() >= earlier.len(),
        later.take(earlier.len() as int) == earlier,
        said(operation, outcome) matches Some(result) ==> later.len() > earlier.len() && later[earlier.len() as int]
            == result,
        touches(operation, outcome) ==> ui_results::follows(before, after, frames, current, now),
        !touches(operation, outcome) ==> after == before,
{
    assert(later.take(earlier.len() as int) =~= earlier);
}

/// Giving a drawing up drops what was drawn and for what, keeps its settings, and changes nothing else.
pub proof fn law_a_drawing_is_given_up(before: EditorUiState, after: EditorUiState)
    requires
        given_up(before, after),
    ensures
        after.drawing_overlay.points@.len() == 0,
        after.drawing_overlay.target is None,
        after.drawing_overlay.phase is Idle,
        !after.drawing_overlay.limit_reached,
        after.drawing_overlay.name@ == before.drawing_overlay.name@,
        after.drawing_overlay.width == before.drawing_overlay.width,
        after.drawing_overlay.color == before.drawing_overlay.color,
        after.drawing_overlay.track_opacity == before.drawing_overlay.track_opacity,
        after.drawing_overlay.blend_mode == before.drawing_overlay.blend_mode,
        after.drawing_overlay.z_index == before.drawing_overlay.z_index,
        after.playback == before.playback,
        after.shape_overlay == before.shape_overlay,
        after.overlay_tool == before.overlay_tool,
        after.loop_preview == before.loop_preview,
        after.reveal_current_frame == before.reveal_current_frame,
{
}

/// What selects frames is recorded as a selection: choosing frames one by one, by time, by expression or
/// all at once.
pub proof fn law_what_is_a_selection(operation: EditorUiOperation)
    ensures
        selects(operation) <==> {
            ||| operation is SelectFirst || operation is SelectPrevious || operation is SelectNext
            ||| operation is SelectLast || operation is JumpToFrame || operation is JumpToTime
            ||| operation is SelectAll || operation is InvertSelection || operation is ClearSelection
            ||| operation is SelectFrame || operation is ToggleFrame || operation is ExtendFrameRange
            ||| operation is SelectExpression || operation is SelectTimeRange
        },
{
}

} // verus!
