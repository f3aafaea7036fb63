//! What the interface records of each request, and how playing follows it.
use crate::frames::FrameClip;
use crate::ids::FrameId;
use crate::playback;
use crate::playback::PlaybackClock;
use crate::text::join;
use crate::ui_state;
use crate::ui_state::{EditorUiAction, EditorUiFailure, EditorUiOperation, EditorUiResult, EditorUiState, ResultView};
use vstd::prelude::*;
use vstd::string::{StrSliceExecFns, StringExecFns};

verus! {

/// The first frame from a position on that has the given identity.
pub open spec fn first_index(frames: Seq<FrameClip>, id: FrameId, from: int) -> Option<int>
    decreases frames.len() - from,
{
    if from < 0 || from >= frames.len() {
        None
    } else if frames[from].id == id {
        Some(from)
    } else {
        first_index(frames, id, from + 1)
    }
}

/// Where the current frame stands.
pub open spec fn current_index(frames: Seq<FrameClip>, current: Option<FrameId>) -> Option<int> {
    match current {
        Some(id) => first_index(frames, id, 0),
        None => None,
    }
}

proof fn lemma_first_index(frames: Seq<FrameClip>, id: FrameId, from: int, at: int)
    requires
        0 <= from <= at <= frames.len(),
        forall|i: int| from <= i < at ==> (#[trigger] frames[i]).id != id,
    ensures
        first_index(frames, id, from) == first_index(frames, id, at),
    decreases at - from,
{
    if from < at {
        assert(frames[from].id != id);
        lemma_first_index(frames, id, from + 1, at);
    }
}

/// Where the current frame stands.
pub fn current_frame_index(frames: &[FrameClip], current: Option<FrameId>) -> (index: Option<usize>)
    ensures
        match index {
            Some(at) => current_index(frames@, current) == Some(at as int) && at < frames@.len(),
            None => current_index(frames@, current) is None,
        },
{
    let id: FrameId = match current {
        Some(id) => id,
        None => return None,
    };
    let mut at: usize = 0;
    let count: usize = frames.len();
    while at < count
        invariant
            at <= count,
            count == frames@.len(),
            current == Some(id),
            forall|i: int| 0 <= i < at ==> (#[trigger] frames@[i]).id != id,
        decreases count - at,
    {
        if frames[at].id == id {
            proof {
                lemma_first_index(frames@, id, 0, at as int);
            }
            return Some(at);
        }
        at = at + 1;
    }
    proof {
        lemma_first_index(frames@, id, 0, count as int);
    }
    None
}

/// Whether a clock starts the current frame now.
pub open spec fn starts_current(
    frames: Seq<FrameClip>,
    current: Option<FrameId>,
    now: u128,
    clock: Option<PlaybackClock>,
) -> bool {
    match current_index(frames, current) {
        Some(at) => {
            &&& clock matches Some(value) && value.id == frames[at].id && value.started_at == now
                && value.duration == playback::shown_for(frames[at])
        },
        None => clock is None,
    }
}

/// The clock of the current frame from now on.
pub fn playback_clock_for_current(frames: &[FrameClip], current: Option<FrameId>, now: u128) -> (clock: Option<
    PlaybackClock,
>)
    ensures
        starts_current(frames@, current, now, clock),
{
    match current_frame_index(frames, current) {
        Some(at) => {
            let frame = &frames[at];
            Some(PlaybackClock::new(frame.id, now, frame.duration))
        },
        None => None,
    }
}

/// Notes that a request failed.
pub fn push_failure(results: &mut Vec<EditorUiResult>, operation: EditorUiOperation, error: &str)
    ensures
        final(results)@.len() == old(results)@.len() + 1,
        ui_state::result_views(final(results)@) == ui_state::result_views(old(results)@).push(
            ResultView::Failure(operation, error@),
        ),
{
    results.push(Err(EditorUiFailure { operation, message: error.to_owned() }));
    assert(ui_state::result_views(results@) =~= ui_state::result_views(old(results)@).push(
        ResultView::Failure(operation, error@),
    ));
}

/// Notes something to tell.
pub fn push_notice(results: &mut Vec<EditorUiResult>, operation: EditorUiOperation, message: String)
    ensures
        ui_state::result_views(final(results)@) == ui_state::result_views(old(results)@).push(
            ResultView::Notice(operation, message@),
        ),
{
    results.push(Ok(EditorUiAction::Notice { operation, message }));
    assert(ui_state::result_views(results@) =~= ui_state::result_views(old(results)@).push(
        ResultView::Notice(operation, message@),
    ));
}

fn push_action(results: &mut Vec<EditorUiResult>, action: EditorUiAction)
    ensures
        ui_state::result_views(final(results)@) == ui_state::result_views(old(results)@).push(
            ui_state::result_view(Ok(action)),
        ),
{
    results.push(Ok(action));
    assert(ui_state::result_views(results@) =~= ui_state::result_views(old(results)@).push(
        ui_state::result_view(Ok(action)),
    ));
}

/// What is told after a journal was repaired: where the rejected one was kept.
pub open spec fn repair_notice(preserved: Option<Seq<char>>) -> Seq<char> {
    match preserved {
        Some(path) => "Rejected journal preserved at "@ + path + "."@,
        None => "Journal is already clean; no repair was needed."@,
    }
}

/// Words what is told after a journal was repaired.
pub fn repair_journal_notice(preserved: Option<&str>) -> (notice: String)
    ensures
        notice@ == repair_notice(
            match preserved {
                Some(path) => Some(path@),
                None => None,
            },
        ),
{
    match preserved {
        Some(path) => {
            let mut notice = join("Rejected journal preserved at ", path);
            notice.append(".");
            notice
        },
        None => "Journal is already clean; no repair was needed.".to_owned(),
    }
}

/// Whether only the clock and the wish to scroll differ between two states, which they have as
/// given.
pub open spec fn moved(
    before: EditorUiState,
    after: EditorUiState,
    playback: Option<PlaybackClock>,
    reveal: bool,
) -> bool {
    after == (EditorUiState { playback, reveal_current_frame: reveal, ..before })
}

/// What is noted when playing loses its frame.
pub open spec fn lost(before: EditorUiState, frames: Seq<FrameClip>, current: Option<FrameId>) -> Seq<ResultView> {
    if before.playback is Some && current_index(frames, current) is None {
        seq![ResultView::Playback(false)]
    } else {
        Seq::empty()
    }
}

/// Whether the state follows a change of the selection: the current frame is scrolled to, and
/// where frames are played, the clock starts over on it.
pub open spec fn follows(
    before: EditorUiState,
    after: EditorUiState,
    frames: Seq<FrameClip>,
    current: Option<FrameId>,
    now: u128,
) -> bool {
    &&& moved(before, after, after.playback, true)
    &&& if before.playback is None {
        after.playback is None
    } else {
        starts_current(frames, current, now, after.playback)
    }
}

fn follow_selection(
    frames: &[FrameClip],
    current: Option<FrameId>,
    state: &mut EditorUiState,
    now: u128,
    results: &mut Vec<EditorUiResult>,
)
    ensures
        follows(*old(state), *final(state), frames@, current, now),
        ui_state::result_views(final(results)@) == ui_state::result_views(old(results)@) + lost(
            *old(state),
            frames@,
            current,
        ),
{
    state.reveal_current_frame = true;
    synchronize_playback_after_selection(frames, current, state, now, results);
}

/// Starts the clock over on the current frame, where frames are played.
pub fn synchronize_playback_after_selection(
    frames: &[FrameClip],
    current: Option<FrameId>,
    state: &mut EditorUiState,
    now: u128,
    results: &mut Vec<EditorUiResult>,
)
    ensures
        moved(*old(state), *final(state), final(state).playback, old(state).reveal_current_frame),
        if old(state).playback is None {
            final(state).playback is None
        } else {
            starts_current(frames@, current, now, final(state).playback)
        },
        ui_state::result_views(final(results)@) == ui_state::result_views(old(results)@) + lost(
            *old(state),
            frames@,
            current,
        ),
{
    if state.playback.is_none() {
        assert(ui_state::result_views(results@) + lost(*old(state), frames@, current)
            =~= ui_state::result_views(results@));
        return;
    }
    state.playback = playback_clock_for_current(frames, current, now);
    if state.playback.is_none() {
        push_action(results, EditorUiAction::Playback { playing: false });
    }
    assert(ui_state::result_views(results@) =~= ui_state::result_views(old(results)@) + lost(
        *old(state),
        frames@,
        current,
    ));
}

/// Notes that the selection changed.
pub fn selection_succeeded(
    frames: &[FrameClip],
    current: Option<FrameId>,
    state: &mut EditorUiState,
    now: u128,
    results: &mut Vec<EditorUiResult>,
    operation: EditorUiOperation,
)
    ensures
        follows(*old(state), *final(state), frames@, current, now),
        ui_state::result_views(final(results)@) == ui_state::result_views(old(results)@).push(
            ResultView::Selection(operation),
        ) + lost(*old(state), frames@, current),
{
    push_action(results, EditorUiAction::Selection(operation));
    follow_selection(frames, current, state, now, results);
}

/// Whether a request was noted: as `success` with what follows, or as a failure that changes
/// nothing.
pub open spec fn noted(
    before: EditorUiState,
    after: EditorUiState,
    earlier: Seq<ResultView>,
    later: Seq<ResultView>,
    frames: Seq<FrameClip>,
    current: Option<FrameId>,
    now: u128,
    success: ResultView,
    operation: EditorUiOperation,
    result: Result<(), String>,
) -> bool {
    match result {
        Ok(_) => {
            &&& follows(before, after, frames, current, now)
            &&& later == earlier.push(success) + lost(before, frames, current)
        },
        Err(message) => {
            &&& after == before
            &&& later == earlier.push(ResultView::Failure(operation, message@))
        },
    }
}

/// Notes what came of a request to select.
pub fn record_selection_result(
    frames: &[FrameClip],
    current: Option<FrameId>,
    state: &mut EditorUiState,
    now: u128,
    results: &mut Vec<EditorUiResult>,
    operation: EditorUiOperation,
    result: Result<(), String>,
)
    ensures
        noted(
            *old(state),
            *final(state),
            ui_state::result_views(old(results)@),
            ui_state::result_views(final(results)@),
            frames@,
            current,
            now,
            ResultView::Selection(operation),
            operation,
            result,
        ),
{
    match result {
        Ok(_) => selection_succeeded(frames, current, state, now, results, operation),
        Err(message) => push_failure(results, operation, message.as_str()),
    }
}

/// Notes what came of a request to edit.
pub fn record_project_result(
    frames: &[FrameClip],
    current: Option<FrameId>,
    state: &mut EditorUiState,
    now: u128,
    results: &mut Vec<EditorUiResult>,
    operation: EditorUiOperation,
    result: Result<(), String>,
)
    ensures
        noted(
            *old(state),
            *final(state),
            ui_state::result_views(old(results)@),
            ui_state::result_views(final(results)@),
            frames@,
            current,
            now,
            ResultView::Project(operation),
            operation,
            result,
        ),
{
    match result {
        Ok(_) => {
            push_action(results, EditorUiAction::Project(operation));
            follow_selection(frames, current, state, now, results);
        },
        Err(message) => push_failure(results, operation, message.as_str()),
    }
}

/// Notes what came of going back or forward in the history; where there was nowhere to go,
/// nothing is noted.
pub fn record_history_result(
    frames: &[FrameClip],
    current: Option<FrameId>,
    state: &mut EditorUiState,
    now: u128,
    results: &mut Vec<EditorUiResult>,
    operation: EditorUiOperation,
    result: Result<bool, String>,
)
    ensures
        match result {
            Ok(false) => *final(state) == *old(state) && final(results)@ == old(results)@,
            Ok(true) => noted(
                *old(state),
                *final(state),
                ui_state::result_views(old(results)@),
                ui_state::result_views(final(results)@),
                frames@,
                current,
                now,
                ResultView::Project(operation),
                operation,
                Ok(()),
            ),
            Err(message) => noted(
                *old(state),
                *final(state),
                ui_state::result_views(old(results)@),
                ui_state::result_views(final(results)@),
                frames@,
                current,
                now,
                ResultView::Project(operation),
                operation,
                Err(message),
            ),
        },
{
    match result {
        Ok(changed) => {
            if changed {
                record_project_result(frames, current, state, now, results, operation, Ok(()));
            }
        },
        Err(message) => record_project_result(frames, current, state, now, results, operation, Err(message)),
    }
}

/// Notes what came of a request to the clipboard: how many frames it was about.
pub fn record_clipboard_result(
    results: &mut Vec<EditorUiResult>,
    operation: EditorUiOperation,
    result: Result<usize, String>,
)
    ensures
        ui_state::result_views(final(results)@) == ui_state::result_views(old(results)@).push(
            match result {
                Ok(frames) => ResultView::Clipboard(operation, frames as int),
                Err(message) => ResultView::Failure(operation, message@),
            },
        ),
{
    match result {
        Ok(frames) => push_action(results, EditorUiAction::Clipboard { operation, frames }),
        Err(message) => push_failure(results, operation, message.as_str()),
    }
}

/// Whether playing needs a frame to be selected before it can begin.
pub fn needs_first_frame(state: &EditorUiState, current: Option<FrameId>) -> (needed: bool)
    ensures
        needed == (state.playback is None && current is None),
{
    state.playback.is_none() && current.is_none()
}

/// What beginning to play notes: the selection of the first frame, where that was needed, and
/// whether frames are played.
pub open spec fn begun(selected: bool, found: bool) -> Seq<ResultView> {
    let first = if selected {
        seq![ResultView::Selection(EditorUiOperation::SelectFirst)]
    } else {
        Seq::empty()
    };
    first.push(
        if found {
            ResultView::Playback(true)
        } else {
            ResultView::Failure(EditorUiOperation::Playback, "the current frame is unavailable"@)
        },
    )
}

/// Begins or ends playing.
///
/// `selected` says what came of selecting the first frame where that was needed, and `current` is
/// the current frame after that.
pub fn toggle_playback(
    frames: &[FrameClip],
    current: Option<FrameId>,
    selected: Option<Result<(), String>>,
    state: &mut EditorUiState,
    now: u128,
    results: &mut Vec<EditorUiResult>,
)
    ensures
        ({
            let earlier = ui_state::result_views(old(results)@);
            let later = ui_state::result_views(final(results)@);
            let found = current_index(frames@, current) is Some;
            if old(state).playback is Some {
                &&& moved(*old(state), *final(state), None, old(state).reveal_current_frame)
                &&& later == earlier.push(ResultView::Playback(false))
            } else {
                match selected {
                    Some(Err(message)) => {
                        &&& *final(state) == *old(state)
                        &&& later == earlier.push(ResultView::Failure(EditorUiOperation::Playback, message@))
                    },
                    _ => {
                        &&& later == earlier + begun(selected is Some, found)
                        &&& if found {
                            moved(*old(state), *final(state), final(state).playback, true) && starts_current(
                                frames@,
                                current,
                                now,
                                final(state).playback,
                            )
                        } else {
                            *final(state) == *old(state)
                        }
                    },
                }
            }
        }),
{
    if state.playback.is_some() {
        state.playback = None;
        push_action(results, EditorUiAction::Playback { playing: false });
        return;
    }
    match selected {
        Some(Err(message)) => {
            push_failure(results, EditorUiOperation::Playback, message.as_str());
            return;
        },
        Some(Ok(_)) => {
            push_action(results, EditorUiAction::Selection(EditorUiOperation::SelectFirst));
        },
        None => {},
    }
    match playback_clock_for_current(frames, current, now) {
        Some(clock) => {
            state.playback = Some(clock);
            state.reveal_current_frame = true;
            push_action(results, EditorUiAction::Playback { playing: true });
        },
        None => push_failure(results, EditorUiOperation::Playback, "the current frame is unavailable"),
    }
    assert(ui_state::result_views(results@) =~= ui_state::result_views(old(results)@) + begun(
        selected is Some,
        current_index(frames@, current) is Some,
    ));
}

/// What the clock asks for.
#[derive(Clone, Copy, Debug, PartialEq, Eq, Structural)]
pub enum PlaybackStep {
    /// Nothing changes.
    Wait,
    /// The current frame is gone: playing ends.
    Lost,
    /// Another frame was made the current one: its time starts now.
    Restart(Option<PlaybackClock>),
    /// The clock goes on, or playing ends, with the current frame on show.
    Stay(Option<PlaybackClock>),
    /// Another frame is to be selected before the clock goes on, or playing ends.
    Select(FrameId, Option<PlaybackClock>),
}

/// Decides what the clock asks for.
pub fn plan_playback(frames: &[FrameClip], current: Option<FrameId>, state: &EditorUiState, now: u128) -> (step:
    PlaybackStep)
    ensures
        match state.playback {
            None => step == PlaybackStep::Wait,
            Some(clock) => match current_index(frames@, current) {
                None => step == PlaybackStep::Lost,
                Some(at) => {
                    let elapsed = playback::since(now as int, clock.started_at as int);
                    if frames@[at].id != clock.id {
                        step matches PlaybackStep::Restart(next) && starts_current(frames@, current, now, next)
                    } else if elapsed < clock.duration {
                        step == PlaybackStep::Wait
                    } else {
                        match step {
                            PlaybackStep::Stay(next) => playback::advanced(
                                frames@,
                                at,
                                elapsed,
                                now as int,
                                state.loop_preview,
                                (clock.id, next),
                            ),
                            PlaybackStep::Select(id, next) => id != clock.id && playback::advanced(
                                frames@,
                                at,
                                elapsed,
                                now as int,
                                state.loop_preview,
                                (id, next),
                            ),
                            _ => false,
                        }
                    }
                },
            },
        },
{
    let clock: PlaybackClock = match state.playback {
        Some(clock) => clock,
        None => return PlaybackStep::Wait,
    };
    let at: usize = match current_frame_index(frames, current) {
        Some(at) => at,
        None => return PlaybackStep::Lost,
    };
    if frames[at].id != clock.id {
        return PlaybackStep::Restart(playback_clock_for_current(frames, current, now));
    }
    if !clock.is_due(now) {
        return PlaybackStep::Wait;
    }
    match clock.advance(frames, at, now, state.loop_preview) {
        Some((id, next)) => {
            if id == clock.id {
                PlaybackStep::Stay(next)
            } else {
                PlaybackStep::Select(id, next)
            }
        },
        None => PlaybackStep::Wait,
    }
}

/// What a step of playing notes.
pub open spec fn stepped(step: PlaybackStep, selected: Result<(), String>) -> Seq<ResultView> {
    let ended = seq![ResultView::Playback(false)];
    match step {
        PlaybackStep::Wait | PlaybackStep::Restart(_) => Seq::empty(),
        PlaybackStep::Lost => ended,
        PlaybackStep::Stay(next) => if next is None {
            ended
        } else {
            Seq::empty()
        },
        PlaybackStep::Select(_, next) => match selected {
            Err(message) => seq![ResultView::Failure(EditorUiOperation::PlaybackStep, message@)] + ended,
            Ok(_) => seq![ResultView::Selection(EditorUiOperation::PlaybackStep)] + (if next is None {
                ended
            } else {
                Seq::empty()
            }),
        },
    }
}

/// The clock and the wish to scroll after a step.
pub open spec fn stepped_state(before: EditorUiState, step: PlaybackStep, selected: Result<(), String>) -> EditorUiState {
    match step {
        PlaybackStep::Wait => before,
        PlaybackStep::Lost => EditorUiState { playback: None, ..before },
        PlaybackStep::Restart(next) => EditorUiState { playback: next, ..before },
        PlaybackStep::Stay(next) => EditorUiState { playback: next, ..before },
        PlaybackStep::Select(_, next) => match selected {
            Ok(_) => EditorUiState { playback: next, reveal_current_frame: true, ..before },
            Err(_) => EditorUiState { playback: None, ..before },
        },
    }
}

/// Takes a step of playing, where `selected` says what came of the selection it asked for.
pub fn advance_playback(
    state: &mut EditorUiState,
    step: PlaybackStep,
    selected: Result<(), String>,
    results: &mut Vec<EditorUiResult>,
)
    ensures
        *final(state) == stepped_state(*old(state), step, selected),
        ui_state::result_views(final(results)@) == ui_state::result_views(old(results)@) + stepped(step, selected),
{
    match step {
        PlaybackStep::Wait => {},
        PlaybackStep::Lost => {
            state.playback = None;
            push_action(results, EditorUiAction::Playback { playing: false });
        },
        PlaybackStep::Restart(next) => {
            state.playback = next;
        },
        PlaybackStep::Stay(next) => {
            state.playback = next;
            if next.is_none() {
                push_action(results, EditorUiAction::Playback { playing: false });
            }
        },
        PlaybackStep::Select(_, next) => {
            match &selected {
                Err(message) => {
                    state.playback = None;
                    push_failure(results, EditorUiOperation::PlaybackStep, message.as_str());
                    push_action(results, EditorUiAction::Playback { playing: false });
                },
                Ok(_) => {
                    push_action(results, EditorUiAction::Selection(EditorUiOperation::PlaybackStep));
                    state.reveal_current_frame = true;
                    state.playback = next;
                    if next.is_none() {
                        push_action(results, EditorUiAction::Playback { playing: false });
                    }
                },
            }
        },
    }
    assert(ui_state::result_views(results@) =~= ui_state::result_views(old(results)@) + stepped(step, selected));
}

/// How long until the interface has to be drawn again for playing, in nanoseconds.
pub fn schedule_playback_repaint(state: &EditorUiState, now: u128) -> (delay: Option<u128>)
    ensures
        match state.playback {
            Some(clock) => delay == Some(
                playback::since(clock.duration as int, playback::since(now as int, clock.started_at as int)) as u128,
            ),
            None => delay is None,
        },
{
    match state.playback {
        Some(clock) => Some(clock.remaining(now)),
        None => None,
    }
}

/// The current frame is the first one that has its identity, and there is none where no frame has it.
pub proof fn law_the_current_frame_is_the_first_of_its_identity(frames: Seq<FrameClip>, current: Option<FrameId>, at: int)
    ensures
        current is None ==> current_index(frames, current) is None,
        current matches Some(id) ==> (current_index(frames, current) == Some(at) <==> {
            &&& 0 <= at < frames.len()
            &&& frames[at].id == id
            &&& forall|i: int| 0 <= i < at ==> (#[trigger] frames[i]).id != id
        }),
        current matches Some(id) ==> (current_index(frames, current) is None <==> forall|i: int|
            0 <= i < frames.len() ==> (#[trigger] frames[i]).id != id),
{
    if current is Some {
        lemma_index_is_first(frames, current->0, 0);
        let found = first_index(frames, current->0, 0);
        if 0 <= at < frames.len() && frames[at].id == current->0 && (forall|i: int|
            0 <= i < at ==> (#[trigger] frames[i]).id != current->0) {
            assert(found is Some);
            assert(found->0 == at);
        }
    }
}

proof fn lemma_index_is_first(frames: Seq<FrameClip>, id: FrameId, from: int)
    requires
        0 <= from <= frames.len(),
    ensures
        first_index(frames, id, from) matches Some(at) ==> from <= at < frames.len() && frames[at].id == id && forall|i: int|
            from <= i < at ==> (#[trigger] frames[i]).id != id,
        first_index(frames, id, from) is None ==> forall|i: int|
            from <= i < frames.len() ==> (#[trigger] frames[i]).id != id,
    decreases frames.len() - from,
{
    if from < frames.len() && frames[from].id != id {
        lemma_index_is_first(frames, id, from + 1);
    }
}

/// Playback follows the selection: it goes on with the current frame from now on, for as long as this
/// frame is shown, ends where there is none, and never begins by itself. The rest of the state stays.
pub proof fn law_playback_follows_the_selection(
    before: EditorUiState,
    after: EditorUiState,
    frames: Seq<FrameClip>,
    current: Option<FrameId>,
    now: u128,
)
    requires
        follows(before, after, frames, current, now),
    ensures
        before.playback is None ==> after.playback is None,
        current_index(frames, current) is None ==> after.playback is None,
        before.playback is Some ==> (current_index(frames, current) matches Some(at) ==> (
        after.playback matches Some(clock) && clock.id == frames[at].id && clock.started_at == now && clock.duration
            == 1_000 * frames[at].duration@)),
        after.reveal_current_frame,
        after.loop_preview == before.loop_preview,
        after.drawing_overlay == before.drawing_overlay,
        after.shape_overlay == before.shape_overlay,
        after.active_tool == before.active_tool,
        lost(before, frames, current).len() == (if before.playback is Some && after.playback is None {
            1int
        } else {
            0
        }),
{
}

/// A step of playback that selects a frame shows it and goes on, or ends with the reason where it cannot be
/// selected; playback that is lost or over is told to have ended.
pub proof fn law_playback_tells_when_it_ends(before: EditorUiState, step: PlaybackStep, selected: Result<(), String>)
    ensures
        ({
            let after = stepped_state(before, step, selected);
            let told = stepped(step, selected);
            &&& after.playback is None && !(step is Wait) && !(step is Restart) ==> told.len() > 0 && told.last()
                == ResultView::Playback(false)
            &&& after.playback is Some ==> !(told.len() > 0 && told.last() == ResultView::Playback(false))
                || step is Wait
            &&& step is Wait ==> after == before && told.len() == 0
            &&& step is Lost ==> after.playback is None
            &&& step matches PlaybackStep::Restart(next) ==> after.playback == next && told.len() == 0
            &&& step matches PlaybackStep::Stay(next) ==> after.playback == next
            &&& step matches PlaybackStep::Select(_, next) ==> (if selected is Ok {
                &&& after.playback == next
                &&& after.reveal_current_frame
                &&& told[0] == ResultView::Selection(EditorUiOperation::PlaybackStep)
            } else {
                &&& after.playback is None
                &&& told[0] == ResultView::Failure(EditorUiOperation::PlaybackStep, selected->Err_0@)
            })
            &&& !(step is Select && selected is Ok) ==> after.reveal_current_frame == before.reveal_current_frame
            &&& after.drawing_overlay == before.drawing_overlay && after.loop_preview == before.loop_preview
        }),
{
}

/// Beginning playback tells first that a frame was selected, where one was, and last that it plays, where
/// there is a frame to show.
pub proof fn law_beginning_playback_is_told(selected: bool, found: bool)
    ensures
        begun(selected, found).len() == (if selected {
            2int
        } else {
            1
        }),
        selected ==> begun(selected, found)[0] == ResultView::Selection(EditorUiOperation::SelectFirst),
        begun(selected, found).last() == ResultView::Playback(true) <==> found,
        !found ==> begun(selected, found).last() is Failure,
{
}

/// A success is told and playback follows the selection; a failure is told with its reason and changes
/// nothing. What was told before stays.
pub proof fn law_a_result_is_told_after_the_others(
    before: EditorUiState,
    after: EditorUiState,
    earlier: Seq<ResultView>,
    later: Seq<ResultView>,
    frames: Seq<FrameClip>,
    current: Option<FrameId>,
    now: u128,
    success: ResultView,
    operation: EditorUiOperation,
    result: Result<(), String>,
)
    requires
        noted(before, after, earlier, later, frames, current, now, success, operation, result),
    ensures
        later.len() > earlier.len(),
        later.take(earlier.len() as int) == earlier,
        result is Ok ==> later[earlier.len() as int] == success && follows(before, after, frames, current, now),
        result is Ok ==> later.len() == earlier.len() + 1 + (if before.playback is Some && current_index(
            frames,
            current,
        ) is None {
            1int
        } else {
            0
        }),
        result is Err ==> after == before && later.len() == earlier.len() + 1 && later.last() == ResultView::Failure(
            operation,
            result->Err_0@,
        ),
{
    assert(later.take(earlier.len() as int) =~= earlier);
}

/// Whether a clock starts with the current frame: it counts from now on, for as long as the frame is shown.
pub proof fn law_a_clock_starts_with_the_current_frame(
    frames: Seq<FrameClip>,
    current: Option<FrameId>,
    now: u128,
    clock: Option<PlaybackClock>,
)
    requires
        starts_current(frames, current, now, clock),
    ensures
        clock is None <==> current_index(frames, current) is None,
        clock matches Some(value) ==> (current_index(frames, current) matches Some(at) && value.id == frames[at].id
            && value.started_at == now && value.duration == 1_000 * frames[at].duration@),
{
}

/// A repair tells where the rejected journal is kept, or that none was needed.
pub proof fn law_a_repair_tells_where_the_journal_is(path: Seq<char>)
    ensures
        repair_notice(Some(path)) == "Rejected journal preserved at "@ + path + "."@,
        repair_notice(None) == "Journal is already clean; no repair was needed."@,
{
}

} // verus!
