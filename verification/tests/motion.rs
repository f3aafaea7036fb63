use gif_editor::cancel::{AlwaysCancel, CancelFlag, NeverCancel};
use gif_editor::content::{BlendMode, OverlayContent, Payload, ShapeKind};
use gif_editor::frames::{CaptureBinding, CaptureMetadata, ClipTransform, FrameClip};
use gif_editor::geometry::{PhysicalPoint, PhysicalRect, PhysicalSize, Rgba};
use gif_editor::ids::{AssetId, FrameId, OverlayId, ProjectId, TrackId};
use gif_editor::motion::{
    begin_motion_edit, motion_outcome, release_motion_edit, store_surface, validate_budget,
    BakedPicture, MotionOperation, MotionOutcome, MotionProgress,
};
use gif_editor::motion_bake::{remove_baked_frame_cells, remove_baked_overlay_spans};
use gif_editor::motion_loop::{
    loop_crossfade_command, validate_loop_crossfade, SmoothLoopSearch,
};
use gif_editor::motion_pixels::{freeze_rectangle, matching_pixels_at_least};
use gif_editor::motion_render::{
    check_rendered_size, clip_budget, encode_budget, locate_frame, outline_budget, path_bytes,
    request_bytes, PathStorage,
};
use gif_editor::motion_still::{
    cinemagraph_command, cinemagraph_targets, freeze_region_command, ink_cinemagraph_command,
    plan_cinemagraph, plan_freeze, InkRequest,
};
use gif_editor::overlay::{
    FrameAuthoringSpan, FrameLocalSpan, FrameOverlayCell, FrameOverlayMark, OverlayItem,
    OverlayTrack,
};
use gif_editor::project::{
    AssetDescriptor, AssetKind, Canvas, CanvasBackground, ColorSpace, ComposedFrameEdit,
    EditCommand, ProjectManifest, RasterEncoding, Timeline,
};
use gif_editor::spans::{subtract_spans, DerivedScope};
use gif_editor::surface::RgbaSurface;
use gif_editor::time::{DurationUs, TimeUs, TimelineSpan};
use std::sync::atomic::AtomicBool;

fn asset(low: u128) -> AssetId {
    AssetId { high: 0, low }
}

fn size(width: u32, height: u32) -> PhysicalSize {
    PhysicalSize::new(width, height).unwrap()
}

fn frame(id: u128, duration: u64) -> FrameClip {
    FrameClip {
        id: FrameId::from_u128(id),
        asset_id: asset(id),
        duration: DurationUs::new(duration).unwrap(),
        transform: ClipTransform::none(),
        capture_metadata: CaptureMetadata::empty(),
        capture_clock: None,
        capture_binding: CaptureBinding::Original,
        effects: Vec::new(),
        render_steps: Vec::new(),
    }
}

fn rgba(id: AssetId, byte_len: u64, size: PhysicalSize) -> AssetDescriptor {
    AssetDescriptor {
        id,
        byte_len,
        kind: AssetKind::Frame { size, encoding: RasterEncoding::Rgba8 },
    }
}

/// Three frames of ten milliseconds, two pixels wide.
fn project() -> ProjectManifest {
    ProjectManifest {
        project_id: ProjectId::from_u128(100),
        revision: 0,
        canvas: Canvas {
            size: size(2, 1),
            color_space: ColorSpace::Srgb,
            background: CanvasBackground::Transparent,
        },
        assets: (1..=3).map(|id| rgba(asset(id), 8, size(2, 1))).collect(),
        timeline: Timeline {
            frames: (1..=3).map(|id| frame(id, 10_000)).collect(),
            overlay_tracks: Vec::new(),
            transitions: Vec::new(),
        },
    }
}

fn pixels(id: u128) -> Vec<u8> {
    match id {
        1 => vec![255, 0, 0, 0, 0, 255, 0, 255],
        2 => vec![0, 0, 255, 255, 255, 255, 0, 255],
        _ => vec![255, 255, 255, 255, 0, 0, 255, 255],
    }
}

fn picture(id: u128) -> RgbaSurface {
    RgbaSurface::new(size(2, 1), pixels(id)).unwrap()
}

fn rect() -> PhysicalRect {
    PhysicalRect::new(1, 0, 1, 1).unwrap()
}

fn ids(list: &[u128]) -> Vec<FrameId> {
    list.iter().map(|id| FrameId::from_u128(*id)).collect()
}

fn span(start: u64, duration: u64) -> TimelineSpan {
    TimelineSpan { start: TimeUs::new(start), duration: DurationUs::new(duration).unwrap() }
}

fn shape() -> OverlayContent {
    OverlayContent::Shape {
        kind: ShapeKind::Rectangle,
        bounds: rect(),
        stroke_width: 0,
        stroke: Rgba { red: 0, green: 0, blue: 0, alpha: 0 },
        fill: Some(Rgba { red: 0, green: 0, blue: 0, alpha: 128 }),
    }
}

fn unseen(size: PhysicalSize) -> OverlayContent {
    OverlayContent::Raster {
        asset_id: asset(1),
        position: PhysicalPoint::origin(),
        size,
        opacity: 0,
    }
}

fn timed_track() -> OverlayTrack {
    OverlayTrack {
        id: TrackId::from_u128(90),
        frame_cells: None,
        annotation: None,
        annotation_scope: None,
        name: "Before baking".to_owned(),
        visible: true,
        opacity: 255,
        blend_mode: BlendMode::Normal,
        items: vec![OverlayItem {
            id: OverlayId::from_u128(900),
            span: span(0, 30_000),
            z_index: 4,
            content: shape(),
        }],
    }
}

fn owned_track() -> OverlayTrack {
    OverlayTrack {
        frame_cells: Some(
            (0..3)
                .map(|index| FrameOverlayCell {
                    frame_id: FrameId::from_u128(index + 1),
                    stage: None,
                    scopes: vec![FrameAuthoringSpan {
                        run_id: 1,
                        span: FrameLocalSpan::new(1, 2, DurationUs::new(3).unwrap()).unwrap(),
                    }],
                    marks: vec![FrameOverlayMark {
                        id: OverlayId::from_u128(10_000 + index),
                        z_index: 4,
                        content: shape(),
                    }],
                    input_replay: None,
                })
                .collect(),
        ),
        annotation: Some(Payload { bytes: b"recipe".to_vec() }),
        opacity: 177,
        blend_mode: BlendMode::Multiply,
        items: Vec::new(),
        ..timed_track()
    }
}

fn search(
    levels: &[u8],
    skip_first: usize,
    similarity_tenths: u16,
    from_end: bool,
) -> Result<(MotionOutcome, Option<EditCommand>), String> {
    let pictures: Vec<RgbaSurface> = levels
        .iter()
        .map(|level| {
            let mut pixels = [20, 30, 40, 255].repeat(4);
            pixels[0] = *level;
            RgbaSurface::new(size(4, 1), pixels).unwrap()
        })
        .collect();
    let frames: Vec<FrameClip> =
        (0..levels.len()).map(|index| frame(index as u128 + 1, 10_000)).collect();
    let mut search =
        SmoothLoopSearch::new(levels.len(), skip_first, similarity_tenths, from_end)?;
    while let Some(index) = search.next_index() {
        let progress = search.examine(&pictures[0], &pictures[index], &NeverCancel)?;
        assert_eq!(progress.total, levels.len() - skip_first);
    }
    Ok(search.outcome(&frames))
}

#[test]
fn loop_search_obeys_direction_skip_and_exact_pixel_percentage() {
    for (from_end, expected_removed, expected_len) in [(false, 3, 3), (true, 1, 5)] {
        let (outcome, command) = search(&[20, 21, 20, 22, 20, 23], 1, 1000, from_end).unwrap();
        assert_eq!(outcome, MotionOutcome::TrimmedTail(expected_removed));
        assert_eq!(
            command,
            Some(EditCommand::DeleteFramesAfter { frame_id: FrameId::from_u128(expected_len) })
        );
    }
    // Only one channel of one pixel differs. Mean-color rounding is nearly 100%, but
    // exactly 75% of the pixels are equal, inclusive at that boundary.
    assert_eq!(search(&[20, 21, 22], 1, 751, false).unwrap().0, MotionOutcome::NoMatchingEnd);
    assert_eq!(search(&[20, 21, 22], 1, 750, false).unwrap().0, MotionOutcome::TrimmedTail(1));
}

#[test]
fn loop_search_noop_invalid_and_cancelled_runs_do_not_write_a_revision() {
    assert_eq!(
        search(&[20, 21, 20], 1, 1000, true).unwrap(),
        (MotionOutcome::AlreadySmooth, None)
    );
    let raised = AtomicBool::new(true);
    let mut state = SmoothLoopSearch::new(3, 1, 1000, true).unwrap();
    let before = state;
    assert!(state
        .examine(&picture(1), &picture(2), &CancelFlag { flag: &raised })
        .unwrap_err()
        .contains("cancelled"));
    assert_eq!(state, before);
    for (skip_first, similarity_tenths) in [(0, 1000), (3, 1000), (1, 0), (1, 1001)] {
        assert!(search(&[20, 21, 20], skip_first, similarity_tenths, true).is_err());
    }
    assert!(state
        .examine(&picture(1), &RgbaSurface::new(size(1, 1), vec![0; 4]).unwrap(), &NeverCancel)
        .unwrap_err()
        .contains("matching rendered dimensions"));
}

#[test]
fn a_search_ends_at_the_first_match() {
    let mut state = SmoothLoopSearch::new(4, 1, 1000, false).unwrap();
    assert_eq!(state.next_index(), Some(1));
    assert_eq!(
        state.examine(&picture(1), &picture(2), &NeverCancel).unwrap(),
        MotionProgress { completed: 1, total: 3 }
    );
    assert_eq!(state.next_index(), Some(2));
    state.examine(&picture(1), &picture(1), &NeverCancel).unwrap();
    assert_eq!(state.next_index(), None);
    assert_eq!(state.found, Some(2));
}

#[test]
fn cinemagraph_freezes_transparent_pixels_and_does_not_touch_selection_gaps() {
    let mut project = project();
    project.timeline.overlay_tracks.push(timed_track());
    let spans = Ok(vec![span(0, 10_000), span(20_000, 10_000)]);
    let scopes = vec![DerivedScope::Known(Vec::new())];
    let plan = plan_cinemagraph(
        &project,
        Some(FrameId::from_u128(1)),
        &ids(&[3, 1]),
        rect(),
        &spans,
        &scopes,
        &NeverCancel,
    )
    .unwrap();
    assert_eq!(plan.current, FrameId::from_u128(1));
    assert_eq!(plan.selected, [frame(1, 10_000), frame(3, 10_000)]);
    let mut kept = timed_track();
    kept.items[0].span = span(10_000, 10_000);
    assert_eq!(plan.commands, [EditCommand::UpsertOverlayTrack { track: kept }]);

    let mut animated = picture(3);
    freeze_rectangle(&mut animated, &picture(1), rect(), false, &NeverCancel).unwrap();
    assert_eq!(animated.pixels, [&pixels(1)[..4], &pixels(3)[4..]].concat());
    assert_eq!(animated.pixels[3], 0, "transparent frozen pixels must erase moving pixels");

    let baked = |low: u128| BakedPicture { asset_id: asset(low), size: size(2, 1), byte_len: 8 };
    let (commands, count) =
        cinemagraph_command(plan, &project.assets, &vec![baked(1), baked(50)]).unwrap();
    assert_eq!(count, 2);
    assert_eq!(commands.len(), 4);
    assert!(matches!(&commands[1], EditCommand::ReplaceFrame { frame_id, replacement }
        if frame_id.value == 1 && replacement.asset_id == asset(1)));
    assert!(matches!(&commands[2], EditCommand::RegisterAsset { asset: added }
        if added.id == asset(50) && added.byte_len == 8));
    assert!(matches!(&commands[3], EditCommand::ReplaceFrame { frame_id, replacement }
        if frame_id.value == 3
            && replacement.asset_id == asset(50)
            && replacement.capture_binding == CaptureBinding::ArchivedAfterComposite));
}

#[test]
fn inverted_cinemagraph_only_freezes_inside_the_rectangle() {
    let mut animated = picture(3);
    freeze_rectangle(&mut animated, &picture(1), rect(), true, &NeverCancel).unwrap();
    assert_eq!(animated.pixels, [&pixels(3)[..4], &pixels(1)[4..]].concat());
}

#[test]
fn freezing_both_ways_copies_the_whole_picture() {
    let mut animated = picture(3);
    freeze_rectangle(&mut animated, &picture(1), rect(), true, &NeverCancel).unwrap();
    freeze_rectangle(&mut animated, &picture(1), rect(), false, &NeverCancel).unwrap();
    assert_eq!(animated, picture(1));
    for tenths in [1, 500, 1000] {
        assert_eq!(
            matching_pixels_at_least(&animated, &picture(1), tenths, &NeverCancel),
            Ok(true)
        );
    }
}

#[test]
fn smooth_loop_appends_exact_duration_and_first_endpoint_without_overlay_double_composition() {
    let mut project = project();
    project.timeline.overlay_tracks.push(timed_track());
    let pictures: Vec<BakedPicture> = [50, 51, 1]
        .iter()
        .map(|low| BakedPicture { asset_id: asset(*low), size: size(2, 1), byte_len: 8 })
        .collect();
    let (commands, count) = loop_crossfade_command(&project, 3, 33_334, &pictures).unwrap();
    assert_eq!(count, 3);
    assert_eq!(commands.len(), 4);
    assert!(matches!(&commands[0], EditCommand::RegisterAsset { asset: added } if added.id == asset(50)));
    assert!(matches!(&commands[1], EditCommand::RegisterAsset { asset: added } if added.id == asset(51)));
    let EditCommand::InsertFrames { index: 3, frames } = &commands[2] else {
        panic!("the new frames follow the old ones");
    };
    assert_eq!(
        frames.iter().map(|frame| frame.duration.get()).collect::<Vec<_>>(),
        [11_111, 11_111, 11_112]
    );
    assert_eq!(frames[2].asset_id, asset(1));
    for frame in frames {
        assert_eq!(frame.capture_binding, CaptureBinding::ArchivedAfterComposite);
        assert_eq!(frame.capture_metadata, CaptureMetadata::empty());
    }
    assert_eq!(commands[3], EditCommand::UpsertOverlayTrack { track: timed_track() });
    let clash =
        BakedPicture { asset_id: asset(1), size: size(1, 2), byte_len: 8 };
    assert_eq!(
        loop_crossfade_command(&project, 1, 10, &vec![clash]),
        Err("An existing raster asset has incompatible dimensions or encoding.".to_owned())
    );
}

#[test]
fn motion_rejects_stale_selection_invalid_rectangles_canvas_mismatch_and_limits() {
    let project = project();
    assert!(begin_motion_edit(false, &NeverCancel).is_err());
    for operation in [
        MotionOperation::LoopCrossfade { frames: 121, duration_us: 30_000 },
        MotionOperation::LoopCrossfade { frames: 3, duration_us: 2 },
        MotionOperation::Cinemagraph {
            region: PhysicalRect { origin: PhysicalPoint::origin(), size: size(3, 1) },
            invert: false,
        },
        MotionOperation::Cinemagraph {
            region: PhysicalRect {
                origin: PhysicalPoint::origin(),
                size: PhysicalSize { width: 0, height: 1 },
            },
            invert: false,
        },
    ] {
        match operation {
            MotionOperation::LoopCrossfade { frames, duration_us } => {
                assert!(validate_loop_crossfade(&project, frames, duration_us).is_err());
            }
            MotionOperation::Cinemagraph { region, .. } => {
                let selected = ids(&[3]);
                let current = Some(selected[0]);
                assert!(plan_cinemagraph(
                    &project,
                    current,
                    &selected,
                    region,
                    &Ok(vec![span(20_000, 10_000)]),
                    &Vec::new(),
                    &NeverCancel,
                )
                .is_err());
                assert!(plan_freeze(&project, current, &selected, region).is_err());
            }
            MotionOperation::FindSmoothLoop { .. } => unreachable!(),
        }
    }
    assert!(validate_budget(size(4096, 4096), 5).is_err());
    assert_eq!(validate_budget(size(4096, 4096), 4), Ok(()));
    assert!(check_rendered_size(size(1, 1), size(2, 1)).is_err());
    assert_eq!(check_rendered_size(size(2, 1), size(2, 1)), Ok(()));
}

#[test]
fn cancelling_after_pixel_preparation_preserves_timeline_and_undo_history() {
    let raised = AtomicBool::new(true);
    let error =
        release_motion_edit(Ok((Vec::new(), 8)), &CancelFlag { flag: &raised }).unwrap_err();
    assert!(error.contains("cancelled"));
    assert_eq!(
        release_motion_edit(Ok((Vec::new(), 8)), &NeverCancel),
        Ok((Vec::new(), 8))
    );
    assert_eq!(motion_outcome(Ok(()), 8), Ok(MotionOutcome::Edited(8)));
    assert_eq!(motion_outcome(Err("full".to_owned()), 8), Err("full".to_owned()));
}

#[test]
fn removing_selected_overlay_intervals_retains_every_gap_exactly() {
    assert_eq!(
        subtract_spans(span(0, 100), &[span(10, 20), span(50, 10), span(80, 20)]).unwrap(),
        [span(0, 10), span(30, 20), span(60, 20)]
    );
}

#[test]
fn spans_that_overflow_cannot_be_cut() {
    assert_eq!(
        subtract_spans(span(u64::MAX, 1), &[]),
        Err("Overlay span overflows the timeline.".to_owned())
    );
    assert_eq!(
        subtract_spans(span(0, 10), &[span(u64::MAX, 1)]),
        Err("Selected span overflows the timeline.".to_owned())
    );
}

#[test]
fn a_crossfade_shares_its_duration_evenly() {
    let pictures: Vec<BakedPicture> = (50..57)
        .map(|low| BakedPicture { asset_id: asset(low), size: size(2, 1), byte_len: 8 })
        .collect();
    let (commands, count) = loop_crossfade_command(&project(), 7, 10_000, &pictures).unwrap();
    assert_eq!(count, 7);
    let frames = commands
        .iter()
        .find_map(|command| match command {
            EditCommand::InsertFrames { frames, .. } => Some(frames),
            _ => None,
        })
        .unwrap();
    let shares: Vec<u64> = frames.iter().map(|frame| frame.duration.get()).collect();
    assert_eq!(shares, [1_428, 1_429, 1_428, 1_429, 1_428, 1_429, 1_429]);
    assert_eq!(shares.iter().sum::<u64>(), 10_000);
}

#[test]
fn smooth_loop_duration_overflow_is_rejected_before_storing_any_new_pixels() {
    let mut project = project();
    project.timeline.frames[2].duration = DurationUs::new(u64::MAX - 20_000).unwrap();
    let error = validate_loop_crossfade(&project, 3, 30_000).unwrap_err();
    assert!(error.contains("overflow"));
    project.timeline.frames[2].duration = DurationUs::new(10_000).unwrap();
    assert_eq!(validate_loop_crossfade(&project, 3, 30_000), Ok(()));
}

#[test]
fn frame_owned_cinemagraph_bakes_once_preserving_unselected_owners_and_raw_input() {
    let original = owned_track();
    let command =
        remove_baked_frame_cells(&original, &ids(&[1, 3]), &NeverCancel).unwrap().unwrap();
    let EditCommand::UpsertOverlayTrack { track } = command else {
        panic!("the layer keeps a cell");
    };
    assert_eq!(track.frame_cells.as_ref().unwrap(), &original.frame_cells.as_ref().unwrap()[1..2]);
    assert_eq!(
        track,
        OverlayTrack { frame_cells: track.frame_cells.clone(), ..original.clone() }
    );

    let mut project = project();
    project.timeline.frames[0].transform.crop = Some(rect());
    project.timeline.frames[0].transform.output_size = Some(size(2, 1));
    project.timeline.frames[0].capture_metadata = CaptureMetadata {
        cursor_asset: Some(asset(60)),
        recorded: Payload { bytes: b"Ctrl+C, left button at 1, 0".to_vec() },
    };
    project.timeline.overlay_tracks.push(original);
    let whole = PhysicalRect::new(0, 0, 2, 1).unwrap();
    let plan = plan_cinemagraph(
        &project,
        Some(FrameId::from_u128(1)),
        &ids(&[1, 3]),
        whole,
        &Ok(vec![span(0, 10_000), span(20_000, 10_000)]),
        &vec![DerivedScope::Known(Vec::new())],
        &NeverCancel,
    )
    .unwrap();
    let baked = |low: u128| BakedPicture { asset_id: asset(low), size: size(2, 1), byte_len: 8 };
    let (commands, count) =
        cinemagraph_command(plan, &project.assets, &vec![baked(50), baked(51)]).unwrap();
    assert_eq!(count, 2);
    let mut frames = project.timeline.frames.clone();
    let mut kept = project.timeline.overlay_tracks.clone();
    for command in commands {
        match command {
            EditCommand::ReplaceFrame { frame_id, replacement } => {
                let at = frames.iter().position(|frame| frame.id == frame_id).unwrap();
                frames[at] = *replacement;
            }
            EditCommand::UpsertOverlayTrack { track } => kept[0] = track,
            EditCommand::RegisterAsset { asset: added } => assert_eq!(added.byte_len, 8),
            other => panic!("unexpected {other:?}"),
        }
    }
    let recorded = |frames: &[FrameClip]| {
        frames.iter().map(|frame| frame.capture_metadata.clone()).collect::<Vec<_>>()
    };
    assert_eq!(recorded(&frames), recorded(&project.timeline.frames));
    assert_eq!(frames[1], project.timeline.frames[1]);
    assert_eq!([frames[0].asset_id, frames[2].asset_id], [asset(50), asset(51)]);
    assert_eq!(frames[0].transform, ClipTransform::none());
    assert_eq!(kept, [track]);
}

#[test]
fn frame_owned_bake_keeps_hidden_zero_tracks_and_zero_marks_with_their_scopes() {
    let original = owned_track();
    let mut hidden = original.clone();
    hidden.id = TrackId::from_u128(91);
    hidden.visible = false;
    let mut zero = original.clone();
    zero.id = TrackId::from_u128(92);
    zero.opacity = 0;
    let mut zero_marks = original.clone();
    zero_marks.id = TrackId::from_u128(93);
    for cell in zero_marks.frame_cells.as_mut().unwrap() {
        cell.marks[0].content = unseen(size(2, 1));
    }
    let mut mixed = original.clone();
    let cells = mixed.frame_cells.as_mut().unwrap();
    let mut retained_zero = zero_marks.frame_cells.as_ref().unwrap()[0].marks[0].clone();
    retained_zero.id = OverlayId::from_u128(94_000);
    cells[0].marks.push(retained_zero.clone());
    // Selected empty coverage is consumed; unselected empty coverage survives.
    cells[1].marks.clear();
    cells[2].marks.clear();
    let tracks = vec![mixed.clone(), hidden, zero, zero_marks];
    let scopes = vec![DerivedScope::Known(Vec::new()); 4];
    let commands =
        remove_baked_overlay_spans(&tracks, &Vec::new(), &ids(&[1, 3]), &scopes, &NeverCancel)
            .unwrap();
    assert_eq!(commands.len(), 1);
    let EditCommand::UpsertOverlayTrack { track } = &commands[0] else {
        panic!("the mixed layer keeps cells");
    };
    let remaining = track.frame_cells.as_ref().unwrap();
    assert_eq!(track.id, original.id);
    assert_eq!(remaining.len(), 2);
    assert_eq!(remaining[0].marks, vec![retained_zero]);
    assert_eq!(remaining[0].scopes, mixed.frame_cells.as_ref().unwrap()[0].scopes);
    assert_eq!(remaining[1], mixed.frame_cells.as_ref().unwrap()[1]);
}

#[test]
fn frame_owned_bake_removes_exhausted_track_but_loop_preserves_source_owners() {
    let original = owned_track();
    assert_eq!(
        remove_baked_frame_cells(&original, &ids(&[1, 2, 3]), &NeverCancel),
        Ok(Some(EditCommand::RemoveOverlayTrack { track_id: original.id }))
    );
    let mut project = project();
    project.timeline.overlay_tracks.push(original.clone());
    let first = BakedPicture { asset_id: asset(1), size: size(2, 1), byte_len: 8 };
    let (commands, _) = loop_crossfade_command(&project, 1, 10_000, &vec![first]).unwrap();
    assert_eq!(commands.len(), 2);
    assert_eq!(commands[1], EditCommand::UpsertOverlayTrack { track: original });
}

#[test]
fn cinemagraph_preserves_hidden_zero_opacity_and_remaining_authoring_scope() {
    let mut hidden = timed_track();
    hidden.visible = false;
    let mut zero = timed_track();
    zero.id = TrackId::from_u128(901);
    zero.opacity = 0;
    let mut authored = timed_track();
    authored.id = TrackId::from_u128(902);
    authored.items.clear();
    authored.annotation = Some(Payload { bytes: b"recipe".to_vec() });
    authored.annotation_scope = Some(vec![span(0, 10_000), span(20_000, 10_000)]);
    let mut zero_item = timed_track();
    zero_item.id = TrackId::from_u128(903);
    zero_item.items[0].content = unseen(size(2, 1));
    let scopes = vec![
        DerivedScope::Known(Vec::new()),
        DerivedScope::Known(Vec::new()),
        DerivedScope::Known(vec![span(20_000, 10_000)]),
        DerivedScope::Known(Vec::new()),
    ];
    let commands = remove_baked_overlay_spans(
        &vec![hidden, zero, authored.clone(), zero_item.clone()],
        &vec![span(0, 10_000)],
        &ids(&[1]),
        &scopes,
        &NeverCancel,
    )
    .unwrap();
    let kept = |id: u128| {
        commands.iter().find_map(|command| match command {
            EditCommand::UpsertOverlayTrack { track } if track.id.value == id => Some(track),
            EditCommand::RemoveOverlayTrack { .. } => panic!("no layer is removed"),
            _ => None,
        })
    };
    assert!(kept(90).is_none() && kept(901).is_none());
    assert!(kept(903).map_or(true, |track| *track == zero_item));
    let kept = kept(902).unwrap();
    assert!(kept.items.is_empty());
    assert_eq!(
        kept.annotation_scope.as_ref().unwrap(),
        &authored.annotation_scope.unwrap()[1..]
    );
}

#[test]
fn freezing_a_region_stores_one_baseline_for_all_frames() {
    let project = project();
    let (baseline, frames) =
        plan_freeze(&project, Some(FrameId::from_u128(2)), &ids(&[3, 1]), rect()).unwrap();
    assert_eq!(baseline, FrameId::from_u128(2));
    assert_eq!(frames, ids(&[1, 3]));
    let picture = BakedPicture { asset_id: asset(77), size: size(2, 1), byte_len: 8 };
    let (commands, count) =
        freeze_region_command(&project, picture, &Ok(()), &frames, rect(), true).unwrap();
    assert_eq!(count, 2);
    assert_eq!(
        commands,
        [
            EditCommand::RegisterAsset { asset: rgba(asset(77), 8, size(2, 1)) },
            EditCommand::EditComposedFrames {
                frame_ids: ids(&[1, 3]),
                edit: ComposedFrameEdit::FreezeRegion {
                    baseline_asset: asset(77),
                    baseline_size: size(2, 1),
                    region: rect(),
                    invert: true,
                },
            },
        ]
    );
    let known = BakedPicture { asset_id: asset(1), ..picture };
    assert_eq!(
        freeze_region_command(&project, known, &Ok(()), &frames, rect(), true).unwrap().0.len(),
        1
    );
    assert_eq!(
        plan_freeze(&project, None, &ids(&[1]), rect()).unwrap_err(),
        "Select the frame to use as the frozen image first."
    );
    assert_eq!(
        plan_freeze(&project, Some(FrameId::from_u128(1)), &ids(&[9]), rect()).unwrap_err(),
        "Select between 1 and 1,000 frames for a rectangular freeze."
    );
}

#[test]
fn same_raw_asset_can_be_a_rotated_frozen_view_without_changing_its_canonical_shape() {
    let mut project = project();
    project.canvas.size = size(1, 2);
    project.timeline.frames[0].asset_id = asset(40);
    project.assets.push(rgba(asset(40), 8, size(2, 1)));
    let region = PhysicalRect::new(0, 0, 1, 2).unwrap();
    let (baseline, frames) =
        plan_freeze(&project, Some(FrameId::from_u128(1)), &ids(&[1]), region).unwrap();
    assert_eq!(baseline, FrameId::from_u128(1));
    let turned = BakedPicture { asset_id: asset(40), size: size(1, 2), byte_len: 8 };
    let (commands, count) =
        freeze_region_command(&project, turned, &Ok(()), &frames, region, true).unwrap();
    assert_eq!(count, 1);
    assert_eq!(
        commands,
        [EditCommand::EditComposedFrames {
            frame_ids: ids(&[1]),
            edit: ComposedFrameEdit::FreezeRegion {
                baseline_asset: asset(40),
                baseline_size: size(1, 2),
                region,
                invert: true,
            },
        }]
    );
    // Bytes that cannot be read in that shape are refused with the reason.
    assert_eq!(
        freeze_region_command(&project, turned, &Err("wrong shape".to_owned()), &frames, region, true),
        Err("wrong shape".to_owned())
    );
}

fn ink() -> InkRequest {
    InkRequest {
        anchor_matches: true,
        reference_frame: FrameId::from_u128(1),
        reference_size: size(32, 16),
        sample_counts: vec![2, 3],
        pens_valid: true,
    }
}

#[test]
fn stale_cancelled_and_invalid_ink_do_not_publish_a_snapshot_or_edit_the_project() {
    let frames = project().timeline.frames;
    assert_eq!(cinemagraph_targets(&ink(), &frames, &ids(&[2, 3]), 5), Ok(ids(&[2, 3])));
    for (request, selected, message) in [
        (
            InkRequest { anchor_matches: false, ..ink() },
            ids(&[2]),
            "The Cinemagraph reference or targets changed; the draft was not applied.",
        ),
        (
            InkRequest { reference_frame: FrameId::from_u128(2), ..ink() },
            ids(&[2]),
            "The Cinemagraph reference or targets changed; the draft was not applied.",
        ),
        (
            InkRequest { sample_counts: Vec::new(), ..ink() },
            ids(&[2]),
            "Draw a motion region first, using at most 256 strokes.",
        ),
        (
            InkRequest { sample_counts: vec![usize::MAX, 1], ..ink() },
            ids(&[2]),
            "Cinemagraph sample count overflow.",
        ),
        (
            InkRequest { sample_counts: vec![3, 3], ..ink() },
            ids(&[2]),
            "Cinemagraph exceeds its bounded sample count.",
        ),
        (
            InkRequest { pens_valid: false, ..ink() },
            ids(&[2]),
            "Cinemagraph contains invalid pen dimensions, samples or pressure.",
        ),
        (ink(), ids(&[9]), "Select between 1 and 1,000 target frames."),
        (
            InkRequest { reference_size: size(4096, 4096), ..ink() },
            ids(&[2]),
            "The Cinemagraph reference exceeds the 64 MiB working-image budget.",
        ),
    ] {
        assert_eq!(
            cinemagraph_targets(&request, &frames, &selected, 5),
            Err(message.to_owned())
        );
    }
    let snapshot = BakedPicture { asset_id: asset(60), size: size(2, 1), byte_len: 24 };
    let (commands, count) =
        ink_cinemagraph_command(&Vec::new(), snapshot, &Ok(()), &ids(&[2])).unwrap();
    assert_eq!(count, 1);
    assert!(matches!(&commands[0], EditCommand::RegisterAsset {
        asset: AssetDescriptor { kind: AssetKind::PremultipliedSnapshot { format_version: 1, .. }, .. }
    }));
    assert!(ink_cinemagraph_command(
        &Vec::new(),
        snapshot,
        &Err("unreadable".to_owned()),
        &ids(&[2])
    )
    .is_ok());
}

#[test]
fn frames_are_located_on_the_clock() {
    let mut frames = project().timeline.frames;
    assert_eq!(locate_frame(&frames, FrameId::from_u128(3), &NeverCancel), Ok((2, 20_000)));
    assert_eq!(
        locate_frame(&frames, FrameId::from_u128(9), &NeverCancel),
        Err("The motion endpoint frame no longer exists.".to_owned())
    );
    frames[1].duration = DurationUs::new(u64::MAX).unwrap();
    assert_eq!(
        locate_frame(&frames, FrameId::from_u128(3), &NeverCancel),
        Err("The motion frame time cannot be represented.".to_owned())
    );
}

#[test]
fn geometry_memory_is_counted_exactly() {
    assert_eq!(request_bytes(2, 40, &vec![3, 4], 12), Ok(80 + 84));
    assert!(request_bytes(usize::MAX, 2, &Vec::new(), 1).is_err());
    let paths = vec![
        PathStorage { figure_capacity: 2, segment_capacities: vec![5, 6] },
        PathStorage { figure_capacity: 1, segment_capacities: vec![7] },
    ];
    assert_eq!(path_bytes(2, 24, &paths, 32, 16), Ok(48 + 96 + 288));
    assert!(path_bytes(usize::MAX, 2, &paths, 32, 16).is_err());
    let budget = 64 * 1024 * 1024;
    assert_eq!(outline_budget(100, 200), Ok(budget - 300));
    assert_eq!(clip_budget(100, 200), Ok(budget - 300));
    assert_eq!(encode_budget(100, 200), Ok(budget - 300));
    assert!(outline_budget(budget, 1).is_err());
    assert!(clip_budget(usize::MAX, 1).is_err());
    assert!(encode_budget(1, budget).is_err());
}

#[test]
fn a_picture_is_registered_once() {
    let known = rgba(asset(1), 8, size(2, 1));
    let assets = vec![known.clone()];
    let baked = |low: u128| BakedPicture { asset_id: asset(low), size: size(2, 1), byte_len: 8 };
    let mut registered = Vec::new();
    let mut commands = Vec::new();
    for low in [1, 2, 2, 3, 1, 2] {
        assert_eq!(
            store_surface(&assets, baked(low), &mut registered, &mut commands),
            Ok(asset(low))
        );
    }
    assert_eq!(registered, [asset(2), asset(3)]);
    assert_eq!(
        commands,
        [
            EditCommand::RegisterAsset { asset: rgba(asset(2), 8, size(2, 1)) },
            EditCommand::RegisterAsset { asset: rgba(asset(3), 8, size(2, 1)) },
        ]
    );
    let other = BakedPicture { size: size(1, 2), ..baked(1) };
    assert!(store_surface(&assets, other, &mut registered, &mut commands).is_err());
    assert_eq!(commands.len(), 2);
}

#[test]
fn an_edit_that_is_asked_to_stop_never_goes_through() {
    let stopped = "Motion edit cancelled before commit; the timeline is unchanged.".to_owned();
    assert_eq!(begin_motion_edit(true, &AlwaysCancel), Err(stopped.clone()));
    assert_eq!(
        release_motion_edit(Ok((Vec::new(), 1)), &AlwaysCancel),
        Err(stopped.clone())
    );
    let project = project();
    assert_eq!(
        locate_frame(&project.timeline.frames, project.timeline.frames[0].id, &AlwaysCancel),
        Err(stopped.clone())
    );
    assert_eq!(
        matching_pixels_at_least(&picture(1), &picture(1), 1_000, &AlwaysCancel),
        Err(stopped.clone())
    );
    let mut animated = picture(1);
    assert_eq!(
        freeze_rectangle(&mut animated, &picture(2), rect(), false, &AlwaysCancel),
        Err(stopped)
    );
    assert_eq!(animated, picture(1));
}
