use gif_editor::content::{BlendMode, OverlayContent, ShapeKind, StrokePoint};
use gif_editor::frames::{CaptureBinding, CaptureMetadata, ClipTransform, Effect, FrameClip};
use gif_editor::geometry::{PhysicalPoint, PhysicalRect, PhysicalSize, Rgba};
use gif_editor::ids::{AssetId, FrameId, TrackId};
use gif_editor::playback::PlaybackClock;
use gif_editor::project::{SlideDirection, Transition, TransitionKind};
use gif_editor::time::{DurationUs, TimeUs};
use gif_editor::ui_build::{
    build_drawing_overlay, build_effect, build_shape_overlay, build_transition_settings, parse_crop,
    parse_duration_us, parse_effect_index, parse_keep_every, parse_output_size,
    parse_similarity_threshold, parse_time_ms, parse_time_range, EditorLimits,
};
use gif_editor::ui_input::parse_input;
use gif_editor::ui_labels::{
    blend_mode_label, duplicate_delay_label, duplicate_retention_label, effect_choice_label,
    format_duration_us, format_optional_duration, format_transition_summary, overlay_content_label,
    reduce_delay_label, shape_overlay_choice_label, transition_choice_label, yoyo_scope_label,
};
use gif_editor::ui_requests::{
    apply_orientation_control, commit_drawing_overlay, control_operation, frame_click_operation,
    orientation_operation, record_outcome, replace_selection, request, EditorControl, EditorRequest,
    OrientationControl, Outcome,
};
use gif_editor::ui_results::{
    advance_playback, current_frame_index, needs_first_frame, plan_playback, push_failure,
    push_notice, repair_journal_notice, schedule_playback_repaint, toggle_playback, PlaybackStep,
};
use gif_editor::ui_state::{
    DrawingDraftPhase, DrawingOverlayDraft, DuplicateDelayMode, DuplicateFrameRetention,
    EditorToolTab, EditorUiAction, EditorUiFailure, EditorUiOperation, EditorUiResult,
    EditorUiState, EffectChoice, OverlaySelectionAnchor, ReduceDelayMode, ShapeOverlayChoice,
    ShapeOverlayUiState, TransitionChoice, YoyoScope, MAX_DRAWING_DRAFT_POINTS,
};

const MAX_TRANSITION_STEPS: u16 = 120;

fn limits() -> EditorLimits {
    EditorLimits { max_transition_steps: MAX_TRANSITION_STEPS, max_blur_radius: 256 }
}

fn transparent() -> Rgba {
    Rgba { red: 0, green: 0, blue: 0, alpha: 0 }
}

#[test]
fn default_state_has_editable_inputs_and_no_playback_clock() {
    let state = EditorUiState::default();
    assert_eq!(state.frame_number_input, "1");
    assert_eq!(state.time_ms_input, "0");
    assert_eq!(state.time_range_start_ms_input, "0");
    assert_eq!(state.time_range_end_ms_input, "1000");
    assert_eq!(state.duration_us_input, "100000");
    assert_eq!(state.percentage_input, "100");
    assert_eq!(state.reduce_keep_every_input, "2");
    assert_eq!(state.reduce_delay_mode, ReduceDelayMode::DontAdjust);
    assert_eq!(state.yoyo_scope, YoyoScope::Selection);
    assert!(!state.yoyo_repeat_endpoints);
    assert_eq!(state.duplicate_threshold_input, "100");
    assert_eq!(state.duplicate_retention, DuplicateFrameRetention::First);
    assert_eq!(state.duplicate_delay_mode, DuplicateDelayMode::Sum);
    assert_eq!(state.effect_choice, EffectChoice::Blur);
    assert_eq!(state.effect_index_input, "1");
    assert_eq!(state.effect_region_x_input, "0");
    assert_eq!(state.effect_region_y_input, "0");
    assert_eq!(state.effect_region_width_input, "1");
    assert_eq!(state.effect_region_height_input, "1");
    assert_eq!(state.effect_color_alpha_input, "255");
    assert_eq!(state.frame_expression, "1");
    assert_eq!(state.transition_choice, TransitionChoice::FadeToNext);
    assert_eq!(state.transition_duration_us_input, "100000");
    assert_eq!(state.transition_steps_input, "5");
    assert_eq!(state.transition_color_red_input, "0");
    assert_eq!(state.transition_color_green_input, "0");
    assert_eq!(state.transition_color_blue_input, "0");
    assert_eq!(state.transition_color_alpha_input, "255");
    assert_eq!(state.crop_x_input, "0");
    assert_eq!(state.crop_y_input, "0");
    assert_eq!(state.crop_width_input, "1");
    assert_eq!(state.crop_height_input, "1");
    assert_eq!(state.resize_width_input, "1");
    assert_eq!(state.resize_height_input, "1");
    assert!(state.playback.is_none());
}

#[test]
fn shape_overlay_inputs_build_every_kind_and_reject_invisible_or_outside_geometry() {
    let canvas = PhysicalSize::new(200, 160).unwrap();
    for (choice, expected) in [
        (ShapeOverlayChoice::Line, ShapeKind::Line),
        (ShapeOverlayChoice::Arrow, ShapeKind::Arrow),
        (ShapeOverlayChoice::Rectangle, ShapeKind::Rectangle),
        (ShapeOverlayChoice::Ellipse, ShapeKind::Ellipse),
    ] {
        let state = ShapeOverlayUiState {
            kind: choice,
            blend_mode: BlendMode::Multiply,
            ..ShapeOverlayUiState::default()
        };
        assert!(matches!(
            build_shape_overlay(&state, canvas).unwrap(),
            OverlayContent::Shape { kind, .. } if kind == expected
        ));
    }

    for state in [
        ShapeOverlayUiState { name: "  ".to_owned(), ..ShapeOverlayUiState::default() },
        ShapeOverlayUiState { x: 190, width: 20, ..ShapeOverlayUiState::default() },
        ShapeOverlayUiState { track_opacity: 0, ..ShapeOverlayUiState::default() },
        ShapeOverlayUiState {
            kind: ShapeOverlayChoice::Line,
            stroke_width: 0,
            ..ShapeOverlayUiState::default()
        },
        ShapeOverlayUiState {
            stroke_width: 0,
            stroke: transparent(),
            fill_enabled: false,
            ..ShapeOverlayUiState::default()
        },
    ] {
        assert!(build_shape_overlay(&state, canvas).is_err());
    }

    let filled = ShapeOverlayUiState {
        stroke_width: 0,
        stroke: transparent(),
        fill_enabled: true,
        fill: Rgba { red: 1, green: 2, blue: 3, alpha: 255 },
        ..ShapeOverlayUiState::default()
    };
    assert!(build_shape_overlay(&filled, canvas).is_ok());
}

#[test]
fn points_are_taken_up_by_any_draft() {
    let point = |x: u32| StrokePoint { point: PhysicalPoint { x, y: 0 }, pressure_milli: 1_000 };
    let mut draft = DrawingOverlayDraft::default();
    draft.points = vec![point(1), point(1)];
    draft.push_point(point(1));
    assert_eq!(draft.points, [point(1), point(1)]);
    draft.push_point(point(2));
    assert_eq!(draft.points, [point(1), point(1), point(2)]);
    draft.points = vec![point(3); MAX_DRAWING_DRAFT_POINTS + 1];
    draft.push_point(point(4));
    assert_eq!(draft.points.len(), MAX_DRAWING_DRAFT_POINTS + 1);
    assert!(draft.limit_reached);
}

#[test]
fn the_wish_to_scroll_is_met_once() {
    let mut state = EditorUiState::default();
    state.reveal_current_frame = true;
    assert!(state.take_reveal());
    assert!(!state.take_reveal());
}

#[test]
fn drawing_draft_is_bounded_deduplicated_and_builds_pressure_content() {
    let mut draft = DrawingOverlayDraft::default();
    draft.begin();
    assert_eq!(draft.phase, DrawingDraftPhase::Capturing);
    let first = StrokePoint { point: PhysicalPoint { x: 1, y: 2 }, pressure_milli: 1_000 };
    draft.push_point(first);
    draft.push_point(first);
    assert_eq!(draft.points.len(), 1);
    draft.finish_stroke();
    assert_eq!(draft.phase, DrawingDraftPhase::Ready);
    assert!(matches!(
        build_drawing_overlay(&draft).unwrap(),
        OverlayContent::Drawing { points, width: 4, .. } if points.len() == 1
    ));

    draft.begin();
    for index in 0..=MAX_DRAWING_DRAFT_POINTS {
        draft.push_point(StrokePoint {
            point: PhysicalPoint { x: u32::try_from(index).unwrap(), y: 0 },
            pressure_milli: 1_000,
        });
    }
    assert_eq!(draft.points.len(), MAX_DRAWING_DRAFT_POINTS);
    assert!(draft.limit_reached);
    assert_eq!(draft.phase, DrawingDraftPhase::Ready);
    draft.cancel();
    assert!(draft.points.is_empty());
    assert_eq!(draft.phase, DrawingDraftPhase::Idle);

    for invalid in [
        DrawingOverlayDraft {
            name: String::new(),
            points: vec![StrokePoint { point: PhysicalPoint::origin(), pressure_milli: 1_000 }],
            ..DrawingOverlayDraft::default()
        },
        DrawingOverlayDraft {
            width: 0,
            points: vec![StrokePoint { point: PhysicalPoint::origin(), pressure_milli: 1_000 }],
            ..DrawingOverlayDraft::default()
        },
        DrawingOverlayDraft {
            points: vec![StrokePoint { point: PhysicalPoint::origin(), pressure_milli: 1_001 }],
            ..DrawingOverlayDraft::default()
        },
    ] {
        assert!(build_drawing_overlay(&invalid).is_err());
    }
}

#[test]
fn click_modifiers_map_to_conventional_selection_actions() {
    assert_eq!(frame_click_operation(false, false), EditorUiOperation::SelectFrame);
    assert_eq!(frame_click_operation(true, false), EditorUiOperation::ToggleFrame);
    assert_eq!(frame_click_operation(false, true), EditorUiOperation::ExtendFrameRange);
    assert_eq!(frame_click_operation(true, true), EditorUiOperation::ExtendFrameRange);
}

#[test]
fn numeric_inputs_handle_boundaries_and_overflow_without_panicking() {
    assert_eq!(parse_time_ms(" 42 ").unwrap(), TimeUs::new(42_000));
    assert!(parse_time_ms(&u64::MAX.to_string()).is_err());
    assert_eq!(parse_duration_us("1").unwrap(), DurationUs::new(1).unwrap());
    assert!(parse_duration_us("0").is_err());
    assert!(parse_duration_us("not a number").is_err());
}

#[test]
fn time_range_inputs_reuse_millisecond_semantics_and_reject_overflow() {
    let mut state = EditorUiState {
        time_range_start_ms_input: " 12 ".to_owned(),
        time_range_end_ms_input: "34".to_owned(),
        ..EditorUiState::default()
    };
    assert_eq!(parse_time_range(&state).unwrap(), (TimeUs::new(12_000), TimeUs::new(34_000)));

    state.time_range_end_ms_input = u64::MAX.to_string();
    assert!(parse_time_range(&state).is_err());
    state.time_range_end_ms_input.clear();
    assert!(parse_time_range(&state).is_err());
}

#[test]
fn advanced_timing_inputs_and_choice_labels_are_type_safe() {
    assert_eq!(parse_keep_every(" 2 ").unwrap(), 2);
    assert_eq!(parse_keep_every(&usize::MAX.to_string()).unwrap(), usize::MAX);
    assert!(parse_keep_every("0").is_err());
    assert!(parse_keep_every("1").is_err());
    assert!(parse_keep_every("2.5").is_err());

    for mode in [ReduceDelayMode::DontAdjust, ReduceDelayMode::Previous, ReduceDelayMode::Evenly] {
        assert!(!reduce_delay_label(mode).is_empty());
    }
    for scope in [YoyoScope::Selection, YoyoScope::EntireTimeline] {
        assert!(!yoyo_scope_label(scope).is_empty());
    }
    assert_eq!(parse_similarity_threshold("0").unwrap(), 0);
    assert_eq!(parse_similarity_threshold("100").unwrap(), 100);
    assert!(parse_similarity_threshold("101").is_err());
    assert!(parse_similarity_threshold("-1").is_err());
    for retention in [DuplicateFrameRetention::First, DuplicateFrameRetention::Last] {
        assert!(!duplicate_retention_label(retention).is_empty());
    }
    for mode in [DuplicateDelayMode::Keep, DuplicateDelayMode::Sum, DuplicateDelayMode::Average] {
        assert!(!duplicate_delay_label(mode).is_empty());
    }
}

#[test]
fn every_transition_choice_builds_typed_settings_from_default_inputs() {
    let mut state = EditorUiState::default();
    for choice in [
        TransitionChoice::FadeToNext,
        TransitionChoice::FadeToColor,
        TransitionChoice::SlideLeft,
        TransitionChoice::SlideRight,
        TransitionChoice::SlideUp,
        TransitionChoice::SlideDown,
    ] {
        state.transition_choice = choice;
        let settings = build_transition_settings(&state, limits()).unwrap();
        assert_eq!(settings.duration, DurationUs::new(100_000).unwrap());
        assert_eq!(settings.steps, 5);
        assert!(!transition_choice_label(choice).is_empty());
        assert!(matches!(
            (choice, settings.kind),
            (TransitionChoice::FadeToNext, TransitionKind::FadeToNext)
                | (
                    TransitionChoice::FadeToColor,
                    TransitionKind::FadeToColor { color: Rgba { red: 0, green: 0, blue: 0, alpha: 255 } }
                )
                | (
                    TransitionChoice::SlideLeft,
                    TransitionKind::Slide { direction: SlideDirection::Left }
                )
                | (
                    TransitionChoice::SlideRight,
                    TransitionKind::Slide { direction: SlideDirection::Right }
                )
                | (TransitionChoice::SlideUp, TransitionKind::Slide { direction: SlideDirection::Up })
                | (
                    TransitionChoice::SlideDown,
                    TransitionKind::Slide { direction: SlideDirection::Down }
                )
        ));
    }
}

#[test]
fn transition_inputs_reject_zero_overflow_short_duration_and_bad_rgba() {
    let mut state = EditorUiState::default();
    for steps in ["0".to_owned(), (MAX_TRANSITION_STEPS + 1).to_string()] {
        state.transition_steps_input = steps;
        assert!(build_transition_settings(&state, limits()).is_err());
    }
    state.transition_steps_input = u32::from(u16::MAX).to_string();
    assert!(build_transition_settings(&state, limits()).is_err());
    state.transition_steps_input = "5".to_owned();
    state.transition_duration_us_input = "0".to_owned();
    assert!(build_transition_settings(&state, limits()).is_err());
    state.transition_duration_us_input = "4".to_owned();
    assert!(build_transition_settings(&state, limits()).is_err());
    state.transition_duration_us_input = u64::MAX.to_string();
    assert!(build_transition_settings(&state, limits()).is_ok());

    state.transition_choice = TransitionChoice::FadeToColor;
    state.transition_color_alpha_input = "256".to_owned();
    assert!(build_transition_settings(&state, limits()).is_err());
    state.transition_color_alpha_input = "0".to_owned();
    let settings = build_transition_settings(&state, limits()).unwrap();
    assert_eq!(settings.kind, TransitionKind::FadeToColor { color: transparent() });
}

#[test]
fn every_effect_family_builds_from_typed_default_inputs() {
    let mut state = EditorUiState::default();
    for choice in [
        EffectChoice::Blur,
        EffectChoice::Pixelate,
        EffectChoice::Darken,
        EffectChoice::Lighten,
        EffectChoice::Border,
        EffectChoice::Shadow,
    ] {
        state.effect_choice = choice;
        let effect = build_effect(&state, limits()).unwrap();
        assert!(!effect_choice_label(choice).is_empty());
        assert!(matches!(
            (choice, effect),
            (EffectChoice::Blur, Effect::Blur { .. })
                | (EffectChoice::Pixelate, Effect::Pixelate { .. })
                | (EffectChoice::Darken, Effect::Darken { .. })
                | (EffectChoice::Lighten, Effect::Lighten { .. })
                | (EffectChoice::Border, Effect::Border { .. })
                | (EffectChoice::Shadow, Effect::Shadow { .. })
        ));
    }
    assert_eq!(parse_effect_index(&state).unwrap(), 0);
}

#[test]
fn effect_inputs_reject_invalid_ranges_parameters_colors_and_indices() {
    let mut state = EditorUiState {
        effect_choice: EffectChoice::Blur,
        effect_blur_radius_input: "0".to_owned(),
        ..EditorUiState::default()
    };
    assert!(build_effect(&state, limits()).is_err());
    state.effect_blur_radius_input = "257".to_owned();
    assert!(build_effect(&state, limits()).is_err());
    state.effect_blur_radius_input = "2".to_owned();
    state.effect_region_width_input = "0".to_owned();
    assert!(build_effect(&state, limits()).is_err());

    state = EditorUiState {
        effect_choice: EffectChoice::Pixelate,
        effect_pixel_block_input: "0".to_owned(),
        ..EditorUiState::default()
    };
    assert!(build_effect(&state, limits()).is_err());
    state.effect_choice = EffectChoice::Darken;
    state.effect_tone_percent_input = "101".to_owned();
    assert!(build_effect(&state, limits()).is_err());
    state.effect_choice = EffectChoice::Border;
    state.effect_border_top_input = "0".to_owned();
    state.effect_border_right_input = "0".to_owned();
    state.effect_border_bottom_input = "0".to_owned();
    state.effect_border_left_input = "0".to_owned();
    assert!(build_effect(&state, limits()).is_err());
    state.effect_border_top_input = "1".to_owned();
    state.effect_color_alpha_input = "0".to_owned();
    assert!(build_effect(&state, limits()).is_err());
    state.effect_color_alpha_input = "256".to_owned();
    assert!(build_effect(&state, limits()).is_err());
    state.effect_index_input = "0".to_owned();
    assert!(parse_effect_index(&state).is_err());
}

#[test]
fn repair_success_action_retains_the_preserved_journal_path() {
    let path = std::path::Path::new("/tmp/project/journal.rejected-1.ndjson");
    let shown = path.display().to_string();
    let message = repair_journal_notice(Some(&shown));
    assert!(message.contains(path.to_string_lossy().as_ref()));
    let mut results: Vec<EditorUiResult> = Vec::new();
    push_notice(&mut results, EditorUiOperation::RepairJournal, message.clone());
    assert_eq!(
        results,
        [Ok(EditorUiAction::Notice { operation: EditorUiOperation::RepairJournal, message })]
    );
    assert!(repair_journal_notice(None).contains("already clean"));
}

#[test]
fn statistics_duration_formatting_is_integer_exact() {
    assert_eq!(format_duration_us(0), "0.000000 s");
    assert_eq!(format_duration_us(1_234_567), "1.234567 s");
    assert_eq!(format_optional_duration(None), "None");
    assert_eq!(format_optional_duration(Some(u64::MAX)), format_duration_us(u64::MAX));
}

#[test]
fn crop_and_resize_inputs_validate_zero_overflow_and_u32_boundaries() {
    let mut state = EditorUiState {
        crop_x_input: "2".to_owned(),
        crop_y_input: "3".to_owned(),
        crop_width_input: "4".to_owned(),
        crop_height_input: "5".to_owned(),
        ..EditorUiState::default()
    };
    assert_eq!(parse_crop(&state).unwrap(), PhysicalRect::new(2, 3, 4, 5).unwrap());

    state.crop_width_input = "0".to_owned();
    assert!(parse_crop(&state).is_err());
    state.crop_x_input = u32::MAX.to_string();
    state.crop_width_input = "1".to_owned();
    assert!(parse_crop(&state).is_err());
    state.crop_x_input = "not-a-number".to_owned();
    assert!(parse_crop(&state).is_err());

    state.resize_width_input = u32::MAX.to_string();
    state.resize_height_input = u32::MAX.to_string();
    assert_eq!(
        parse_output_size(&state).unwrap(),
        PhysicalSize::new(u32::MAX, u32::MAX).unwrap()
    );
    state.resize_height_input = "0".to_owned();
    assert!(parse_output_size(&state).is_err());
    state.resize_height_input = "4294967296".to_owned();
    assert!(parse_output_size(&state).is_err());
}

#[test]
fn orientation_controls_map_to_their_project_operations() {
    for (control, expected) in [
        (OrientationControl::RotateLeft, EditorUiOperation::RotateLeft),
        (OrientationControl::RotateRight, EditorUiOperation::RotateRight),
        (OrientationControl::FlipHorizontal, EditorUiOperation::FlipHorizontal),
        (OrientationControl::FlipVertical, EditorUiOperation::FlipVertical),
    ] {
        assert_eq!(orientation_operation(control), expected);
    }
}

/// A moment on the clock, in nanoseconds.
const START: u128 = 5_000_000_000_000;

#[test]
fn playback_clock_uses_monotonic_boundary_checks() {
    let started_at = START;
    let clock =
        PlaybackClock::new(FrameId::from_u128(1), started_at, DurationUs::new(2_000).unwrap());
    assert!(!clock.is_due(started_at + 1_999_000));
    assert_eq!(clock.remaining(started_at + 1_999_000), 1_000);
    assert!(clock.is_due(started_at + 2_000_000));
    assert_eq!(clock.remaining(started_at + 2_001_000), 0);
}

fn playback_frames(durations: &[u64]) -> Vec<FrameClip> {
    durations
        .iter()
        .enumerate()
        .map(|(index, duration)| FrameClip {
            id: FrameId::from_u128(index as u128 + 1),
            asset_id: AssetId { high: 1, low: 1 },
            duration: DurationUs::new(*duration).unwrap(),
            transform: ClipTransform::none(),
            capture_metadata: CaptureMetadata::empty(),
            capture_clock: None,
            capture_binding: CaptureBinding::Original,
            effects: Vec::new(),
            render_steps: Vec::new(),
        })
        .collect()
}

#[test]
fn playback_skips_late_frames_and_keeps_original_deadlines_after_wrapping() {
    let frames = playback_frames(&[10_000, 30_000, 20_000]);
    let start = START;
    let clock = PlaybackClock::new(frames[0].id, start, frames[0].duration);

    let (id, clock) = clock.advance(&frames, 0, start + 45_000_000, true).unwrap();
    assert_eq!(id, frames[2].id);
    let clock = clock.unwrap();
    assert_eq!(clock.started_at, start + 40_000_000);
    assert_eq!(clock.remaining(start + 45_000_000), 15_000_000);

    let (id, clock) = clock.advance(&frames, 2, start + 60_000_000, true).unwrap();
    assert_eq!(id, frames[0].id);
    let clock = clock.unwrap();
    assert_eq!(clock.started_at, start + 60_000_000);
    let (id, clock) = clock.advance(&frames, 0, start + 72_000_000, true).unwrap();
    assert_eq!(id, frames[1].id);
    assert_eq!(clock.unwrap().started_at, start + 70_000_000);
}

#[test]
fn playback_skips_millions_of_complete_loops_and_retains_submicrosecond_age() {
    let frames = playback_frames(&[1, 2, 3]);
    let start = START;
    let clock = PlaybackClock::new(frames[1].id, start, frames[1].duration);
    let now = start + 6_000_000_003_500;
    let (id, clock) = clock.advance(&frames, 1, now, true).unwrap();
    assert_eq!(id, frames[2].id);
    assert_eq!(clock.unwrap().remaining(now), 1_500);
}

#[test]
fn one_shot_playback_holds_the_last_frame_after_a_long_stall() {
    let frames = playback_frames(&[10_000, 30_000, 20_000]);
    let start = START;
    let clock = PlaybackClock::new(frames[0].id, start, frames[0].duration);
    let (id, next) = clock.advance(&frames, 0, start + 2_000_000_000, false).unwrap();
    assert_eq!(id, frames[2].id);
    assert!(next.is_none());
    assert!(EditorUiState::default().loop_preview);
}

#[test]
fn single_frame_preview_repeats_or_stops_at_its_exact_boundary() {
    let frames = playback_frames(&[1_000]);
    let start = START;
    let now = start + 1_000_000;
    let clock = PlaybackClock::new(frames[0].id, start, frames[0].duration);
    let (id, next) = clock.advance(&frames, 0, now, true).unwrap();
    assert_eq!(id, frames[0].id);
    assert_eq!(next.unwrap().started_at, now);
    assert!(clock.advance(&frames, 0, now, false).unwrap().1.is_none());
    assert!(clock.advance(&[], 0, now, true).is_none());
}

#[test]
fn looking_at_the_clock_more_often_changes_nothing() {
    let frames = playback_frames(&[7, 11, 13]);
    let first = PlaybackClock::new(frames[1].id, START, frames[1].duration);
    for late in [11_000_u128, 30_999, 31_000, 62_500, 1_000_003] {
        let direct = first.advance(&frames, 1, START + late, true).unwrap();
        let (id, middle) = first.advance(&frames, 1, START + 24_500, true).unwrap();
        let middle = middle.unwrap();
        if START + late >= START + 24_500 {
            let at = current_frame_index(&frames, Some(id)).unwrap();
            assert_eq!(middle.advance(&frames, at, START + late, true).unwrap(), direct);
        }
    }
}

#[test]
fn written_fields_are_rejected_in_exact_words() {
    assert_eq!(parse_input::<u8>("  \u{3000}", "tone").unwrap_err(), "tone is required");
    assert_eq!(
        parse_input::<u8>("256", "tone").unwrap_err(),
        "invalid tone: number too large to fit in target type"
    );
    assert_eq!(
        parse_input::<i32>("-2147483649", "shadow X").unwrap_err(),
        "invalid shadow X: number too small to fit in target type"
    );
    assert_eq!(
        parse_input::<u8>("-", "tone").unwrap_err(),
        "invalid tone: invalid digit found in string"
    );
    assert_eq!(
        parse_input::<u8>("2x9999", "tone").unwrap_err(),
        "invalid tone: invalid digit found in string"
    );
    assert_eq!(
        parse_input::<u8>("999x", "tone").unwrap_err(),
        "invalid tone: number too large to fit in target type"
    );
    assert_eq!(parse_input::<i64>(" +17\n", "delta").unwrap(), 17);
    assert_eq!(parse_input::<i64>("-17", "delta").unwrap(), -17);
    assert_eq!(parse_input::<u64>(&u64::MAX.to_string(), "delta").unwrap(), u64::MAX);
}

#[test]
fn written_fields_agree_with_the_standard_parser() {
    for written in ["0", "00012", "+5", "-0", "-1", "255", "256", "1 2", "", "+", "--1", "\u{663}"] {
        assert_eq!(
            parse_input::<u8>(written, "number").ok(),
            written.trim().parse::<u8>().ok(),
            "{written:?}"
        );
        assert_eq!(
            parse_input::<i64>(written, "number").ok(),
            written.trim().parse::<i64>().ok(),
            "{written:?}"
        );
        if let Err(error) = written.parse::<u8>() {
            if !written.is_empty() {
                assert_eq!(
                    parse_input::<u8>(written, "number").unwrap_err(),
                    format!("invalid number: {error}")
                );
            }
        }
    }
}

#[test]
fn builders_name_the_first_fault() {
    let state = EditorUiState { effect_region_width_input: "0".to_owned(), ..EditorUiState::default() };
    assert_eq!(
        build_effect(&state, limits()).unwrap_err(),
        "invalid effect region: width and height must be positive"
    );
    let state = EditorUiState { effect_blur_radius_input: "300".to_owned(), ..EditorUiState::default() };
    assert_eq!(
        build_effect(&state, limits()).unwrap_err(),
        "blur radius must be between 1 and 256"
    );
    let state = EditorUiState {
        effect_choice: EffectChoice::Shadow,
        effect_shadow_blur_input: "257".to_owned(),
        ..EditorUiState::default()
    };
    assert_eq!(
        build_effect(&state, limits()).unwrap_err(),
        "shadow blur radius must be at most 256"
    );
    let state = EditorUiState { transition_steps_input: "121".to_owned(), ..EditorUiState::default() };
    assert_eq!(
        build_transition_settings(&state, limits()).unwrap_err(),
        "transition steps must be between 1 and 120"
    );
    let state = EditorUiState { transition_duration_us_input: "4".to_owned(), ..EditorUiState::default() };
    assert_eq!(
        build_transition_settings(&state, limits()).unwrap_err(),
        "transition duration must provide at least 1 µs per step"
    );
}

#[test]
fn labels_name_every_choice() {
    assert_eq!(EditorToolTab::all().len(), 6);
    assert_eq!(EditorToolTab::Overlays.label(), "Overlays");
    assert_eq!(shape_overlay_choice_label(ShapeOverlayChoice::Ellipse), "Ellipse");
    assert_eq!(blend_mode_label(BlendMode::Screen), "Screen");
    let drawing =
        OverlayContent::Drawing { points: Vec::new(), width: 1, color: transparent() };
    assert_eq!(overlay_content_label(&drawing), "Drawing");
    let transition = Transition {
        id: gif_editor::ids::TransitionId::from_u128(1),
        from_frame: FrameId::from_u128(1),
        to_frame: FrameId::from_u128(2),
        duration: DurationUs::new(20_000).unwrap(),
        steps: 3,
        kind: TransitionKind::Slide { direction: SlideDirection::Up },
    };
    assert_eq!(
        format_transition_summary(&transition),
        "Current outgoing: Slide up · 3 step(s) · 20000 µs added"
    );
}

#[test]
fn controls_ask_what_they_are_for() {
    let canvas = PhysicalSize::new(200, 160).unwrap();
    let state = EditorUiState::default();
    assert!(matches!(
        request(EditorControl::GoToFrame, &state, canvas, limits()),
        Ok(EditorRequest::SelectFrameNumber(1))
    ));
    assert!(matches!(
        request(EditorControl::ReduceFrames, &state, canvas, limits()),
        Ok(EditorRequest::ReduceSelection(2, ReduceDelayMode::DontAdjust))
    ));
    assert!(matches!(
        request(EditorControl::ReplaceEffect, &state, canvas, limits()),
        Ok(EditorRequest::ReplaceSelectionEffect(0, Effect::Blur { radius: 2, .. }))
    ));
    let id = FrameId::from_u128(7);
    assert!(matches!(
        request(EditorControl::ClickFrame(id, true, false), &state, canvas, limits()),
        Ok(EditorRequest::ToggleSelection(frame)) if frame == id
    ));
    assert!(matches!(
        apply_orientation_control(OrientationControl::FlipVertical),
        EditorRequest::ToggleSelectionVerticalFlip
    ));
    let spaced = EditorUiState {
        shape_overlay: ShapeOverlayUiState {
            name: "  Box ".to_owned(),
            z_index: 9,
            ..ShapeOverlayUiState::default()
        },
        ..EditorUiState::default()
    };
    assert!(matches!(
        request(EditorControl::AddShape, &spaced, canvas, limits()),
        Ok(EditorRequest::AddOverlayForSelection { name, z_index: 9, opacity: 255, .. }) if name == "Box"
    ));
    assert_eq!(
        request(EditorControl::CommitDrawing, &state, canvas, limits()).unwrap_err(),
        "Draw at least one point on the preview before committing."
    );
    assert_eq!(
        control_operation(EditorControl::RemoveTrack(TrackId::from_u128(1))),
        EditorUiOperation::RemoveOverlayTrack
    );
}

#[test]
fn selecting_frames_starts_with_one_and_toggles_the_rest() {
    let ids = [FrameId::from_u128(3), FrameId::from_u128(1)];
    let requests = replace_selection(&ids);
    assert_eq!(requests.len(), 2);
    assert!(matches!(requests[0], EditorRequest::SelectOnly(id) if id == ids[0]));
    assert!(matches!(requests[1], EditorRequest::ToggleSelection(id) if id == ids[1]));
    assert!(matches!(replace_selection(&[])[..], [EditorRequest::ClearSelection]));
}

#[test]
fn outcomes_are_noted_and_playing_follows_the_selection() {
    let frames = playback_frames(&[10, 20]);
    let mut state = EditorUiState::default();
    let mut results: Vec<EditorUiResult> = Vec::new();
    record_outcome(
        &frames,
        Some(frames[1].id),
        &mut state,
        START,
        &mut results,
        EditorUiOperation::SelectNext,
        Outcome::Done,
    );
    assert_eq!(results, [Ok(EditorUiAction::Selection(EditorUiOperation::SelectNext))]);
    assert!(state.reveal_current_frame);
    assert!(state.playback.is_none());

    state.playback = Some(PlaybackClock::new(frames[0].id, START, frames[0].duration));
    record_outcome(
        &frames,
        Some(frames[1].id),
        &mut state,
        START + 5,
        &mut results,
        EditorUiOperation::Cut,
        Outcome::Done,
    );
    assert_eq!(state.playback, Some(PlaybackClock::new(frames[1].id, START + 5, frames[1].duration)));
    results.clear();
    record_outcome(
        &frames,
        None,
        &mut state,
        START,
        &mut results,
        EditorUiOperation::Undo,
        Outcome::Walked(true),
    );
    assert_eq!(
        results,
        [
            Ok(EditorUiAction::Project(EditorUiOperation::Undo)),
            Ok(EditorUiAction::Playback { playing: false })
        ]
    );
    results.clear();
    record_outcome(
        &frames,
        None,
        &mut state,
        START,
        &mut results,
        EditorUiOperation::Redo,
        Outcome::Walked(false),
    );
    assert!(results.is_empty());
    for (operation, outcome, expected) in [
        (
            EditorUiOperation::Copy,
            Outcome::Frames(3),
            Ok(EditorUiAction::Clipboard { operation: EditorUiOperation::Copy, frames: 3 }),
        ),
        (
            EditorUiOperation::SaveCheckpoint,
            Outcome::Done,
            Ok(EditorUiAction::Notice {
                operation: EditorUiOperation::SaveCheckpoint,
                message: "Project manifest checkpoint saved.".to_owned(),
            }),
        ),
        (
            EditorUiOperation::RemoveClipboardEntry,
            Outcome::Missing,
            Err(EditorUiFailure {
                operation: EditorUiOperation::RemoveClipboardEntry,
                message: "Clipboard history changed before the entry could be removed.".to_owned(),
            }),
        ),
        (
            EditorUiOperation::RepairJournal,
            Outcome::Preserved(Some("/a/b".to_owned())),
            Ok(EditorUiAction::Notice {
                operation: EditorUiOperation::RepairJournal,
                message: "Rejected journal preserved at /a/b.".to_owned(),
            }),
        ),
        (
            EditorUiOperation::Paste,
            Outcome::Failed("no".to_owned()),
            Err(EditorUiFailure { operation: EditorUiOperation::Paste, message: "no".to_owned() }),
        ),
    ] {
        let mut results: Vec<EditorUiResult> = Vec::new();
        record_outcome(&frames, None, &mut state, START, &mut results, operation, outcome);
        assert_eq!(results, [expected]);
    }
}

#[test]
fn playing_begins_advances_and_ends() {
    let frames = playback_frames(&[10, 20]);
    let mut state = EditorUiState { loop_preview: false, ..EditorUiState::default() };
    let mut results: Vec<EditorUiResult> = Vec::new();
    assert!(needs_first_frame(&state, None));
    toggle_playback(&frames, Some(frames[0].id), Some(Ok(())), &mut state, START, &mut results);
    assert_eq!(
        results,
        [
            Ok(EditorUiAction::Selection(EditorUiOperation::SelectFirst)),
            Ok(EditorUiAction::Playback { playing: true })
        ]
    );
    assert_eq!(schedule_playback_repaint(&state, START + 4_000), Some(6_000));
    assert_eq!(plan_playback(&frames, Some(frames[0].id), &state, START), PlaybackStep::Wait);
    let step = plan_playback(&frames, Some(frames[0].id), &state, START + 15_000);
    let next = PlaybackClock::new(frames[1].id, START + 10_000, frames[1].duration);
    assert_eq!(step, PlaybackStep::Select(frames[1].id, Some(next)));
    results.clear();
    advance_playback(&mut state, step, Ok(()), &mut results);
    assert_eq!(results, [Ok(EditorUiAction::Selection(EditorUiOperation::PlaybackStep))]);
    assert_eq!(state.playback, Some(next));
    let step = plan_playback(&frames, Some(frames[1].id), &state, START + 900_000);
    assert_eq!(step, PlaybackStep::Stay(None));
    results.clear();
    advance_playback(&mut state, step, Ok(()), &mut results);
    assert_eq!(results, [Ok(EditorUiAction::Playback { playing: false })]);
    assert!(state.playback.is_none());
    toggle_playback(&frames, None, Some(Err("empty".to_owned())), &mut state, START, &mut results);
    assert_eq!(
        results.pop(),
        Some(Err(EditorUiFailure {
            operation: EditorUiOperation::Playback,
            message: "empty".to_owned()
        }))
    );
    state.playback = Some(next);
    assert_eq!(plan_playback(&frames, None, &state, START), PlaybackStep::Lost);
    assert_eq!(
        plan_playback(&frames, Some(frames[0].id), &state, START),
        PlaybackStep::Restart(Some(PlaybackClock::new(frames[0].id, START, frames[0].duration)))
    );
    toggle_playback(&frames, None, None, &mut state, START, &mut results);
    assert!(state.playback.is_none());
}

#[test]
fn a_draft_belongs_to_the_selection_it_was_begun_on() {
    let anchor = OverlaySelectionAnchor { project: 1, revision: 2, selection: 3 };
    let mut draft = DrawingOverlayDraft::default();
    assert_eq!(draft.begin_for_selection(Err("nothing".to_owned())), Err("nothing".to_owned()));
    assert_eq!(draft.phase, DrawingDraftPhase::Idle);
    draft.begin_for_selection(Ok(anchor)).unwrap();
    draft.reconcile(Some(anchor));
    assert_eq!(draft.phase, DrawingDraftPhase::Capturing);
    draft.reconcile(Some(OverlaySelectionAnchor { revision: 3, ..anchor }));
    assert_eq!(draft.phase, DrawingDraftPhase::Idle);
    assert!(draft.target.is_none());
}

#[test]
fn a_committed_stroke_is_given_up_and_a_refused_one_stays() {
    let frames = playback_frames(&[10]);
    let mut state = EditorUiState::default();
    state.drawing_overlay.begin();
    state.drawing_overlay.push_point(StrokePoint {
        point: PhysicalPoint { x: 1, y: 2 },
        pressure_milli: 1_000,
    });
    let mut results: Vec<EditorUiResult> = Vec::new();
    commit_drawing_overlay(&frames, None, &mut state, START, &mut results, Err("no".to_owned()));
    assert_eq!(state.drawing_overlay.points.len(), 1);
    commit_drawing_overlay(&frames, None, &mut state, START, &mut results, Ok(()));
    assert!(state.drawing_overlay.points.is_empty());
    push_failure(&mut results, EditorUiOperation::Statistics, "late");
    assert_eq!(
        results,
        [
            Err(EditorUiFailure {
                operation: EditorUiOperation::AddDrawingOverlay,
                message: "no".to_owned()
            }),
            Ok(EditorUiAction::Project(EditorUiOperation::AddDrawingOverlay)),
            Err(EditorUiFailure {
                operation: EditorUiOperation::Statistics,
                message: "late".to_owned()
            }),
        ]
    );
}
