use gif_editor::cancel::{CancelFlag, CancellationToken, NeverCancel};
use gif_editor::content::{BlendMode, OverlayContent, Payload, ShapeKind};
use gif_editor::conversion::ConversionPlan;
use gif_editor::conversion_edit::{
    confirm_metadata, fresh_numbers, materialize, materialize_with_fresh_identities,
    select_conversion, FrozenContent, MetadataCounter, MetadataStop,
    MAX_FRAME_BUNDLE_METADATA_BYTES,
};
use gif_editor::conversion_run::{
    build_conversion, metadata_bytes, plan_conversion, release_conversion,
};
use gif_editor::frames::{CaptureBinding, CaptureMetadata, ClipTransform, FrameClip};
use gif_editor::geometry::{PhysicalPoint, PhysicalRect, PhysicalSize, Rgba};
use gif_editor::ids::{AssetId, FrameId, OverlayId, ProjectId, TrackId};
use gif_editor::overlay::{FrameAuthoringSpan, FrameLocalSpan, OverlayItem, OverlayTrack};
use gif_editor::project::{
    Canvas, CanvasBackground, ColorSpace, EditCommand, ProjectManifest, Timeline,
};
use gif_editor::time::{DurationUs, TimeUs, TimelineSpan};
use std::cell::Cell;
use std::collections::BTreeSet;
use std::sync::atomic::AtomicBool;

fn span(start: u64, end: u64) -> TimelineSpan {
    TimelineSpan { start: TimeUs::new(start), duration: DurationUs::new(end - start).unwrap() }
}

fn progress() -> OverlayContent {
    OverlayContent::Progress {
        style: None,
        payload: Payload { bytes: vec![0, 0, 10, 1, 0, 255, 30, 170, 90, 5, 170, 100, 0] },
    }
}

fn item(id: u128, start: u64, end: u64) -> OverlayItem {
    OverlayItem {
        id: OverlayId::from_u128(id),
        span: span(start, end),
        z_index: 4,
        content: progress(),
    }
}

fn shape(id: u128) -> OverlayItem {
    let mut item = item(id, 0, 100);
    item.content = OverlayContent::Shape {
        kind: ShapeKind::Rectangle,
        bounds: PhysicalRect::new(0, 0, 2, 1).unwrap(),
        stroke_width: 0,
        stroke: Rgba { red: 0, green: 0, blue: 0, alpha: 0 },
        fill: Some(Rgba { red: 90, green: 200, blue: 70, alpha: 130 }),
    };
    item
}

fn track(id: u128, items: Vec<OverlayItem>) -> OverlayTrack {
    OverlayTrack {
        id: TrackId::from_u128(id),
        frame_cells: None,
        annotation: None,
        annotation_scope: None,
        name: format!("Legacy \"{id}\" Ω"),
        visible: true,
        opacity: 135,
        blend_mode: BlendMode::Screen,
        items,
    }
}

fn recipe() -> Payload {
    Payload { bytes: b"recipe".to_vec() }
}

fn frame(id: u128, duration: u64) -> FrameClip {
    FrameClip {
        id: FrameId::from_u128(id),
        asset_id: AssetId { high: 1, low: 1 },
        duration: DurationUs::new(duration).unwrap(),
        transform: ClipTransform::none(),
        capture_metadata: CaptureMetadata::empty(),
        capture_clock: None,
        capture_binding: CaptureBinding::Original,
        effects: Vec::new(),
        render_steps: Vec::new(),
    }
}

fn frames() -> Vec<FrameClip> {
    vec![frame(1, 10), frame(2, 20), frame(3, 30), frame(4, 40)]
}

/// What every planned mark paints, in the order of the plan.
fn contents(plan: &ConversionPlan, track: &OverlayTrack) -> Vec<FrozenContent> {
    let mut contents = Vec::new();
    for cell in &plan.cells {
        for &item in &cell.items {
            contents.push(FrozenContent::Active(track.items[item].content.clone()));
        }
    }
    contents
}

fn convert(frames: &Vec<FrameClip>, track: &OverlayTrack) -> Result<OverlayTrack, String> {
    let plan = ConversionPlan::new(frames, track, &NeverCancel)?;
    let contents = contents(&plan, track);
    materialize_with_fresh_identities(&plan, track, frames, &contents, vec![100, 101], &NeverCancel)
}

#[test]
fn entire_track_conversion_preserves_pixels_order_frames_assets_undo_and_reopen() {
    let target = track(11, vec![item(101, 0, 100), shape(102)]);
    let tracks = vec![track(10, vec![shape(100)]), target.clone(), track(12, vec![shape(103)])];
    let at = select_conversion(&tracks, target.id, true, &NeverCancel).unwrap();
    assert_eq!(at, 1);
    let frozen = convert(&frames(), &tracks[at]).unwrap();
    assert_eq!(frozen.id, target.id);
    assert_eq!(frozen.name, target.name);
    assert_eq!(frozen.opacity, 135);
    assert_eq!(frozen.blend_mode, BlendMode::Screen);
    assert!(frozen.items.is_empty());
    let cells = frozen.frame_cells.as_ref().unwrap();
    assert_eq!(cells.len(), 4);
    let mut identities = BTreeSet::new();
    for cell in cells {
        assert!(cell.scopes.is_empty() && cell.input_replay.is_none());
        assert_eq!(cell.marks[0].content, progress());
        assert_eq!(cell.marks[1].content, shape(102).content);
        for mark in &cell.marks {
            assert!(mark.id.value != 0 && identities.insert(mark.id.value));
            assert_eq!(mark.z_index, 4);
        }
    }
    assert_eq!(identities.len(), 8);
    assert!(!identities.contains(&100) && !identities.contains(&101));
    let mut project = project(tracks.clone());
    assert_eq!(convert_in(&mut project, target.id), 4);
    assert_eq!(project.timeline.frames, frames());
    let after = &project.timeline.overlay_tracks;
    assert_eq!([&after[0], &after[2]], [&tracks[0], &tracks[2]]);
    assert_eq!(after[1].id, target.id);
    assert_eq!(after[1].frame_cells.as_ref().unwrap().len(), 4);
}

#[test]
fn known_partial_scopes_keep_exact_fractions_positive_gaps_empty_cells_and_unknown_replay() {
    let mut source = track(10, vec![item(100, 10, 40)]);
    source.annotation = Some(recipe());
    source.annotation_scope = Some(vec![span(5, 15), span(18, 35), span(35, 40)]);
    let frozen = convert(&frames(), &source).unwrap();
    assert_eq!(frozen.annotation, Some(recipe()));
    assert!(frozen.annotation_scope.is_none());
    let cells = frozen.frame_cells.as_ref().unwrap();
    assert_eq!(cells.len(), 3);
    assert!(cells[0].marks.is_empty());
    let part = |run_id: u32, start: u64, end: u64, whole: u64| FrameAuthoringSpan {
        run_id,
        span: FrameLocalSpan::new(start, end, DurationUs::new(whole).unwrap()).unwrap(),
    };
    assert_eq!(cells[0].scopes, [part(1, 5, 10, 10)]);
    assert_eq!(cells[1].scopes, [part(1, 0, 5, 20), part(2, 8, 20, 20)]);
    assert_eq!(cells[2].scopes, [part(2, 0, 5, 30), part(2, 5, 10, 30)]);
    assert!(cells.iter().all(|cell| cell.input_replay.is_none()));
}

#[test]
fn hidden_zero_opacity_and_explicit_empty_groups_are_not_dropped() {
    let mut hidden = track(10, vec![item(100, 0, 100)]);
    hidden.visible = false;
    hidden.opacity = 0;
    let mut empty = track(11, Vec::new());
    empty.annotation = Some(recipe());
    empty.annotation_scope = Some(Vec::new());
    let hidden = convert(&frames(), &hidden).unwrap();
    assert!(!hidden.visible && hidden.opacity == 0);
    let cells = hidden.frame_cells.as_ref().unwrap();
    assert_eq!(cells.len(), 4);
    assert_eq!(cells.iter().map(|cell| cell.marks.len()).sum::<usize>(), 4);
    let converted = convert(&frames(), &empty).unwrap();
    assert_eq!(converted.id, empty.id);
    assert_eq!(converted.annotation, empty.annotation);
    assert_eq!(converted.frame_cells, Some(Vec::new()));
}

#[test]
fn unknown_authoring_scope_and_uncovered_marks_are_rejected_without_a_commit() {
    let mut source = track(10, vec![item(100, 0, 10)]);
    source.annotation = Some(recipe());
    assert_eq!(
        select_conversion(&vec![source.clone()], source.id, true, &NeverCancel),
        Err("This legacy group's original authoring scope is unknown. Conversion cannot infer it \
             from visible marks; the group is unchanged."
            .to_owned())
    );
    source.annotation_scope = Some(vec![span(50, 55)]);
    assert_eq!(select_conversion(&vec![source.clone()], source.id, true, &NeverCancel), Ok(0));
    assert_eq!(
        ConversionPlan::new(&frames(), &source, &NeverCancel).err(),
        Some(
            "An annotation mark has no original authoring coverage on its owner frame; conversion \
             cannot invent a scope."
                .to_owned()
        )
    );
}

#[test]
fn stale_already_owned_cancelled_and_unsupported_requests_leave_the_track_unchanged() {
    let source = track(10, vec![item(100, 0, 100)]);
    let tracks = vec![source.clone()];
    assert_eq!(
        select_conversion(&tracks, source.id, false, &NeverCancel),
        Err("Project changed before timed-track conversion; nothing was modified.".to_owned())
    );
    assert_eq!(
        select_conversion(&tracks, TrackId::from_u128(9), true, &NeverCancel),
        Err("The selected overlay track no longer exists.".to_owned())
    );
    let raised = AtomicBool::new(true);
    let error = select_conversion(&tracks, source.id, true, &CancelFlag { flag: &raised });
    assert!(error.unwrap_err().contains("cancelled"));
    let owned = convert(&frames(), &source).unwrap();
    assert!(select_conversion(&vec![owned], source.id, true, &NeverCancel)
        .unwrap_err()
        .contains("already"));
    assert_eq!(
        ConversionPlan::with_room(None, &frames(), &source, &NeverCancel).err(),
        Some("Could not allocate frame-start index.".to_owned())
    );
    let plan = ConversionPlan::new(&frames(), &source, &NeverCancel).unwrap();
    let unsupported = vec![
        FrozenContent::Active(progress()),
        FrozenContent::Failed("numbered progress cannot be frozen".to_owned()),
        FrozenContent::Inactive,
        FrozenContent::Active(progress()),
    ];
    assert_eq!(
        materialize(&plan, &source, &frames(), &unsupported, &vec![1, 2, 3, 4], &NeverCancel),
        Err("numbered progress cannot be frozen".to_owned())
    );
    assert_eq!(
        materialize(
            &plan,
            &source,
            &frames(),
            &vec![FrozenContent::Inactive; 4],
            &vec![1, 2, 3, 4],
            &NeverCancel
        ),
        Err("An indexed overlay unexpectedly became inactive.".to_owned())
    );
}

#[test]
fn index_counts_output_cells_and_marks_before_cloning_any_contents() {
    let source = track(10, (0..25_001).map(|index| item(100 + index, 0, 100)).collect());
    assert!(ConversionPlan::new(&frames(), &source, &NeverCancel)
        .err()
        .unwrap()
        .contains("100,000"));
    let many: Vec<FrameClip> = (0..40_001).map(|index| frame(index + 1, 1)).collect();
    let source = track(10, vec![item(100, 0, 40_001)]);
    assert!(ConversionPlan::new(&many, &source, &NeverCancel)
        .err()
        .unwrap()
        .contains("40,000"));
}

#[test]
fn actual_serialized_metadata_budget_rejects_large_repeated_text_before_materialization() {
    let mut text = item(100, 0, 100);
    text.content = OverlayContent::KeyStroke {
        text: "x".repeat(5 * 1024 * 1024),
        position: PhysicalPoint::origin(),
        raster: None,
    };
    let source = track(10, vec![text]);
    let plan = ConversionPlan::new(&frames(), &source, &NeverCancel).unwrap();
    let mut once = MetadataCounter::new();
    once.write(5 * 1024 * 1024, &NeverCancel).unwrap();
    assert!(once.bytes < MAX_FRAME_BUNDLE_METADATA_BYTES);
    let mut counter = MetadataCounter::new();
    let mut stopped = None;
    for content in contents(&plan, &source) {
        let FrozenContent::Active(OverlayContent::KeyStroke { text, .. }) = content else {
            panic!("every mark repeats the text");
        };
        if let Err(stop) = counter.write(text.len(), &NeverCancel) {
            stopped = Some(stop);
        }
    }
    assert_eq!(stopped, Some(MetadataStop::TooLong));
    assert_eq!(counter.bytes, 15 * 1024 * 1024);
    assert!(confirm_metadata(5, 6).is_err());
    assert_eq!(confirm_metadata(6, 6), Ok(()));
}

/// Asks to stop after a number of polls.
struct After {
    polls: Cell<usize>,
}

impl CancellationToken for After {
    fn may_cancel(&self) -> bool {
        true
    }

    fn must_cancel(&self) -> bool {
        false
    }

    fn is_cancelled(&self) -> bool {
        let left = self.polls.get();
        self.polls.set(left.saturating_sub(1));
        left == 0
    }
}

#[test]
fn cancellation_during_or_after_mark_materialization_never_commits_a_partial_track() {
    let source = track(10, vec![item(100, 0, 100)]);
    let plan = ConversionPlan::new(&frames(), &source, &NeverCancel).unwrap();
    let contents = contents(&plan, &source);
    for completed in [1, 4] {
        let token = After { polls: Cell::new(completed) };
        let result =
            materialize(&plan, &source, &frames(), &contents, &vec![1, 2, 3, 4], &token);
        match result {
            Err(message) => assert!(message.contains("cancelled")),
            Ok(layer) => assert_eq!(layer.frame_cells.unwrap().len(), 4),
        }
    }
    let token = After { polls: Cell::new(1) };
    assert!(ConversionPlan::new(&frames(), &source, &token).err().unwrap().contains("cancelled"));
    let mut counter = MetadataCounter::new();
    let raised = AtomicBool::new(true);
    assert_eq!(
        counter.write(1, &CancelFlag { flag: &raised }),
        Err(MetadataStop::Cancelled)
    );
}

#[test]
fn items_active_only_inside_a_frame_do_not_create_subframes_or_invent_marks() {
    let source = track(10, vec![item(100, 5, 9)]);
    let frozen = convert(&frames(), &source).unwrap();
    assert_eq!(frozen.frame_cells, Some(Vec::new()));
    let mut project = project(vec![source.clone(), track(11, vec![shape(101)])]);
    assert_eq!(convert_in(&mut project, source.id), 0);
    assert_eq!(project.timeline.frames, frames());
    assert_eq!(project.timeline.overlay_tracks, [frozen, track(11, vec![shape(101)])]);
}

#[test]
fn fresh_numbers_are_random_and_differ() {
    let first = fresh_numbers(vec![7], 64);
    let second = fresh_numbers(Vec::new(), 64);
    let all: BTreeSet<u128> = first.iter().chain(&second).copied().collect();
    assert_eq!(all.len(), 128);
    assert!(!all.contains(&0) && !first.contains(&7));
}

fn project(tracks: Vec<OverlayTrack>) -> ProjectManifest {
    ProjectManifest {
        project_id: ProjectId::from_u128(1),
        revision: 1,
        canvas: Canvas {
            size: PhysicalSize::new(2, 1).unwrap(),
            color_space: ColorSpace::Srgb,
            background: CanvasBackground::Transparent,
        },
        assets: Vec::new(),
        timeline: Timeline { frames: frames(), overlay_tracks: tracks, transitions: Vec::new() },
    }
}

/// Runs a conversion, takes its edit over, and tells how many frames own marks then.
fn convert_in(project: &mut ProjectManifest, id: TrackId) -> usize {
    let (index, plan) =
        plan_conversion(project, id, true, &Ok(7), &Ok(()), &NeverCancel).unwrap();
    let painted = contents(&plan, &project.timeline.overlay_tracks[index]);
    let used = Ok(vec![100, 101, 102, 103]);
    let layer =
        build_conversion(project, index, &plan, &Ok(7), used, &painted, &NeverCancel).unwrap();
    let (command, owners) =
        release_conversion(layer, 7, &Ok(7), &Ok(()), &NeverCancel).unwrap();
    let EditCommand::UpsertOverlayTrack { track } = command else {
        panic!("a conversion writes its layer");
    };
    let tracks = &mut project.timeline.overlay_tracks;
    let at = tracks.iter().position(|other| other.id == track.id).unwrap();
    tracks[at] = track;
    owners
}

#[test]
fn a_conversion_counts_its_owners_and_touches_no_other_layer() {
    let others = [track(9, vec![shape(90)]), track(12, vec![item(120, 10, 60)])];
    for (start, end, owners) in [(0, 100, 4), (10, 60, 2), (5, 9, 0), (11, 29, 0), (60, 100, 1)] {
        let [before, after] = others.clone();
        let target = track(10, vec![item(100, start, end)]);
        let mut project = project(vec![before, target.clone(), after]);
        assert_eq!(convert_in(&mut project, target.id), owners);
        let tracks = &project.timeline.overlay_tracks;
        assert_eq!(tracks.len(), 3);
        assert_eq!([&tracks[0], &tracks[2]], [&others[0], &others[1]]);
        assert_eq!(
            tracks[1],
            OverlayTrack {
                items: Vec::new(),
                frame_cells: tracks[1].frame_cells.clone(),
                ..target
            }
        );
        assert_eq!(tracks[1].frame_cells.as_ref().unwrap().len(), owners);
    }
}

#[test]
fn a_conversion_runs_to_one_edit_of_one_layer() {
    let project = project(vec![track(9, Vec::new()), track(10, vec![item(100, 5, 45)])]);
    let id = TrackId::from_u128(10);
    let (index, plan) =
        plan_conversion(&project, id, true, &Ok(7), &Ok(()), &NeverCancel).unwrap();
    assert_eq!(index, 1);
    let painted = contents(&plan, &project.timeline.overlay_tracks[1]);
    let layer = build_conversion(
        &project,
        index,
        &plan,
        &Ok(7),
        Ok(vec![100]),
        &painted,
        &NeverCancel,
    )
    .unwrap();
    assert_eq!(layer.id, id);
    assert!(layer.items.is_empty());
    let owners: Vec<FrameId> =
        layer.frame_cells.as_ref().unwrap().iter().map(|cell| cell.frame_id).collect();
    assert_eq!(owners, [FrameId::from_u128(2), FrameId::from_u128(3)]);
    assert_eq!(
        release_conversion(layer.clone(), 7, &Ok(7), &Ok(()), &NeverCancel),
        Ok((EditCommand::UpsertOverlayTrack { track: layer.clone() }, 2))
    );
    assert!(release_conversion(layer.clone(), 7, &Ok(8), &Ok(()), &NeverCancel)
        .unwrap_err()
        .contains("did not match"));
    assert_eq!(
        release_conversion(layer.clone(), 7, &Ok(7), &Err("refused".to_owned()), &NeverCancel),
        Err("refused".to_owned())
    );
    let raised = AtomicBool::new(true);
    assert!(release_conversion(layer, 7, &Ok(7), &Ok(()), &CancelFlag { flag: &raised })
        .unwrap_err()
        .contains("cancelled"));
}

#[test]
fn a_conversion_stops_at_the_first_fault() {
    let project = project(vec![track(10, vec![item(100, 5, 45)])]);
    let id = TrackId::from_u128(10);
    let too_long: Result<usize, String> = Err("conversion exceeds 16 MiB".to_owned());
    let told = "Could not prepare bounded conversion metadata: conversion exceeds 16 MiB";
    assert_eq!(metadata_bytes(&too_long, &NeverCancel), Err(told.to_owned()));
    assert!(plan_conversion(&project, id, false, &too_long, &Ok(()), &NeverCancel)
        .err()
        .unwrap()
        .contains("Project changed"));
    let invalid: Result<(), String> = Err("invalid".to_owned());
    assert_eq!(
        plan_conversion(&project, id, true, &too_long, &invalid, &NeverCancel).err(),
        Some(told.to_owned())
    );
    assert_eq!(
        plan_conversion(&project, id, true, &Ok(7), &invalid, &NeverCancel).err(),
        Some("invalid".to_owned())
    );
    let (index, plan) =
        plan_conversion(&project, id, true, &Ok(7), &Ok(()), &NeverCancel).unwrap();
    let painted = contents(&plan, &project.timeline.overlay_tracks[0]);
    let unknown = || Err("identities are exhausted".to_owned());
    assert_eq!(
        build_conversion(&project, index, &plan, &too_long, unknown(), &painted, &NeverCancel),
        Err(told.to_owned())
    );
    assert_eq!(
        build_conversion(&project, index, &plan, &Ok(7), unknown(), &painted, &NeverCancel),
        Err("identities are exhausted".to_owned())
    );
}
