use gif_editor::cancel::{CancelFlag, CancellationToken, NeverCancel};
use gif_editor::content::{BlendMode, OverlayContent, Payload};
use gif_editor::frames::{
    CaptureBinding, CaptureClock, CaptureMetadata, ClipTransform, Effect, FrameClip, RenderStep,
};
use gif_editor::geometry::{PhysicalPoint, PhysicalSize, Rgba};
use gif_editor::ids::{AssetId, FrameId, OverlayId, ProjectId, TrackId, TransitionId};
use gif_editor::insert_assets::{
    checked_descriptors, referenced_assets, replay_references, same_asset_storage,
    validate_input_replay_asset, validate_inserted_asset_descriptor, validate_snapshot_asset,
    AssetReader, ExistingAssetCheck, ReplayPools,
};
use gif_editor::insert_checks::{
    project_insertion_target, validate_rendered_sizes, validate_source, InsertionSide,
    ProjectInsertionError, MAX_INSERTED_ASSET_BYTES, MAX_INSERTED_FRAMES,
};
use gif_editor::insert_edit::{insertion_command, remap_frames, InsertionFacts, InsertionIds};
use gif_editor::insert_prepare::{
    check_candidate, draw_insertion_ids, fresh_frame_ids, preflight, InsertionTransfer,
    PreparedProjectInsertion, TransferStep,
};
use gif_editor::overlay::{
    FrameInputReplayRef, FrameOverlayCell, FrameOverlayMark, OverlayItem, OverlayTrack,
};
use gif_editor::project::{
    AssetDescriptor, AssetKind, Canvas, CanvasBackground, ColorSpace, EditCommand, ProjectManifest,
    RasterEncoding, Timeline, Transition, TransitionKind,
};
use gif_editor::spans::DerivedScope;
use gif_editor::time::{DurationUs, TimeUs, TimelineSpan};
use std::collections::BTreeSet;
use std::sync::atomic::{AtomicBool, AtomicUsize, Ordering};

fn size(width: u32, height: u32) -> PhysicalSize {
    PhysicalSize::new(width, height).unwrap()
}

fn asset(low: u128) -> AssetId {
    AssetId { high: 5, low }
}

fn frame_id(number: u128) -> FrameId {
    FrameId::from_u128(number)
}

fn picture(id: u128, size: PhysicalSize) -> AssetDescriptor {
    AssetDescriptor {
        id: asset(id),
        byte_len: 4 * u64::from(size.width) * u64::from(size.height),
        kind: AssetKind::Frame { size, encoding: RasterEncoding::Rgba8 },
    }
}

/// A project of frames that all show the same picture.
fn workspace(project: u128, frames: usize, color: u128) -> ProjectManifest {
    ProjectManifest {
        project_id: ProjectId::from_u128(project),
        revision: 3,
        canvas: Canvas {
            size: size(2, 1),
            color_space: ColorSpace::Srgb,
            background: CanvasBackground::Transparent,
        },
        assets: vec![picture(color, size(2, 1))],
        timeline: Timeline {
            frames: (0..frames)
                .map(|index| FrameClip {
                    id: frame_id(index as u128 + 1),
                    asset_id: asset(color),
                    duration: DurationUs::new(100_000).unwrap(),
                    transform: ClipTransform::none(),
                    capture_metadata: CaptureMetadata::empty(),
                    capture_clock: None,
                    capture_binding: CaptureBinding::Original,
                    effects: Vec::new(),
                    render_steps: Vec::new(),
                })
                .collect(),
            overlay_tracks: Vec::new(),
            transitions: Vec::new(),
        },
    }
}

fn pools() -> ReplayPools {
    ReplayPools { media_type: "application/x-input-replay".to_owned(), max_bytes: 1_000 }
}

fn sizes(project: &ProjectManifest, size: PhysicalSize) -> Vec<Result<PhysicalSize, String>> {
    vec![Ok(size); project.timeline.frames.len()]
}

fn facts(destination: &ProjectManifest, source: &ProjectManifest) -> InsertionFacts {
    InsertionFacts {
        clocks: vec![None; source.timeline.frames.len()],
        scopes: vec![
            DerivedScope::Known(Vec::new());
            destination.timeline.overlay_tracks.len()
        ],
        frame_tracks: Vec::new(),
    }
}

fn draw_ids(
    destination: &ProjectManifest,
    source: &ProjectManifest,
    frame_tracks: &Vec<OverlayTrack>,
) -> InsertionIds {
    let frames = fresh_frame_ids(&destination.timeline, &source.timeline);
    draw_insertion_ids(&destination.timeline, &source.timeline, frames, frame_tracks)
}

fn command_of(
    destination: &ProjectManifest,
    index: usize,
    source: &ProjectManifest,
    descriptors: &Vec<AssetDescriptor>,
    output_size: PhysicalSize,
    facts: &InsertionFacts,
) -> Result<(Vec<EditCommand>, Vec<FrameId>), ProjectInsertionError> {
    let ids = draw_ids(destination, source, &facts.frame_tracks);
    insertion_command(destination, index, source, descriptors, output_size, facts, &ids)
}

fn prepare(
    destination: &ProjectManifest,
    source: &ProjectManifest,
    after: Option<FrameId>,
) -> Result<(Vec<EditCommand>, Vec<FrameId>), ProjectInsertionError> {
    let index = project_insertion_target(&destination.timeline.frames, after)?;
    let plan = preflight(
        destination,
        source,
        false,
        &Ok(()),
        &sizes(source, size(2, 1)),
        &sizes(destination, size(2, 1)),
        &pools(),
        &NeverCancel,
    )?;
    command_of(
        destination,
        index,
        source,
        &plan.descriptors,
        plan.output_size,
        &facts(destination, source),
    )
}

fn span(start: u64, end: u64) -> TimelineSpan {
    TimelineSpan { start: TimeUs::new(start), duration: DurationUs::new(end - start).unwrap() }
}

fn annotation(asset_id: AssetId) -> OverlayTrack {
    OverlayTrack {
        id: TrackId::from_u128(40),
        frame_cells: None,
        annotation: None,
        annotation_scope: None,
        name: "Annotation".to_owned(),
        visible: true,
        opacity: 255,
        blend_mode: BlendMode::Normal,
        items: vec![OverlayItem {
            id: OverlayId::from_u128(400),
            span: span(0, 200_000),
            z_index: 1,
            content: OverlayContent::Raster {
                asset_id,
                position: PhysicalPoint::origin(),
                size: size(1, 1),
                opacity: 255,
            },
        }],
    }
}

fn annotate(project: &mut ProjectManifest, color: u128) {
    project.assets.push(picture(color, size(1, 1)));
    project.timeline.overlay_tracks.push(annotation(asset(color)));
    project.timeline.transitions.push(Transition {
        id: TransitionId::from_u128(1),
        from_frame: frame_id(1),
        to_frame: frame_id(2),
        duration: DurationUs::new(20_000).unwrap(),
        steps: 1,
        kind: TransitionKind::FadeToNext,
    });
}

#[test]
fn insertion_keeps_native_event_clocks_paired_with_capture_timestamps() {
    let mut frames = workspace(1, 1, 1).timeline.frames;
    frames[0].capture_metadata.recorded = Payload { bytes: b"keys at 19 ms".to_vec() };
    let clock = CaptureClock { id: None, sample_at: TimeUs::zero() };
    let remapped = remap_frames(&frames, &vec![77], &vec![Some(clock)]);
    assert_eq!(remapped[0].capture_metadata, frames[0].capture_metadata);
    assert_eq!(remapped[0].capture_clock, Some(clock));
    assert_eq!(remapped[0].id, frame_id(77));
}

#[test]
fn insertion_at_start_middle_and_end_remaps_frames_and_reuses_content() {
    for (after, index) in [(None, 0), (Some(frame_id(1)), 1), (Some(frame_id(3)), 3)] {
        let destination = workspace(1, 3, 1);
        let source = workspace(2, 2, 1);
        let (commands, inserted) = prepare(&destination, &source, after).unwrap();
        assert_eq!(inserted.len(), 2);
        assert!(!commands
            .iter()
            .any(|command| matches!(command, EditCommand::RegisterAsset { .. })));
        let EditCommand::InsertFrames { index: at, frames } = &commands[0] else {
            panic!("no asset has to be registered");
        };
        assert_eq!(*at, index);
        assert_eq!(frames.iter().map(|frame| frame.id).collect::<Vec<_>>(), inserted);
        assert!(inserted
            .iter()
            .all(|id| !destination.timeline.frames.iter().any(|frame| frame.id == *id)));
        assert_ne!(inserted[0], inserted[1]);
    }
    assert_eq!(
        prepare(&workspace(1, 3, 1), &workspace(2, 2, 1), Some(frame_id(9))),
        Err(ProjectInsertionError::UnknownAnchor(frame_id(9)))
    );
}

#[test]
fn source_annotations_and_transitions_are_preserved_without_destination_bleed() {
    let mut destination = workspace(1, 3, 1);
    let mut source = workspace(2, 2, 2);
    annotate(&mut destination, 11);
    annotate(&mut source, 12);
    let (commands, inserted) = prepare(&destination, &source, Some(frame_id(1))).unwrap();
    let transitions = commands
        .iter()
        .find_map(|command| match command {
            EditCommand::SetTransitions { transitions } => Some(transitions),
            _ => None,
        })
        .unwrap();
    assert_eq!(transitions.len(), 1);
    assert_eq!(transitions[0].from_frame, inserted[0]);
    assert_eq!(transitions[0].to_frame, inserted[1]);
    assert_ne!(transitions[0].id, TransitionId::from_u128(1));
    let layers: Vec<&OverlayTrack> = commands
        .iter()
        .filter_map(|command| match command {
            EditCommand::UpsertOverlayTrack { track } => Some(track),
            _ => None,
        })
        .collect();
    let spans: Vec<(u64, u64)> = layers[0]
        .items
        .iter()
        .map(|item| (item.span.start.get(), item.span.end().unwrap().get()))
        .collect();
    assert_eq!(spans, [(0, 100_000), (300_000, 400_000)]);
    let source_track = &source.timeline.overlay_tracks[0];
    let imported = layers[1];
    assert_ne!(imported.id, source_track.id);
    assert_ne!(imported.items[0].id, source_track.items[0].id);
    assert_eq!(imported.items[0].content, source_track.items[0].content);
    assert_eq!(imported.items[0].span, span(100_000, 300_000));
    let registered: Vec<AssetId> = commands
        .iter()
        .filter_map(|command| match command {
            EditCommand::RegisterAsset { asset } => Some(asset.id),
            _ => None,
        })
        .collect();
    assert_eq!(registered, [asset(2), asset(12)]);
}

#[test]
fn whole_project_insertion_offsets_source_scope_and_excludes_it_from_destination_scope() {
    let mut destination = workspace(1, 3, 1);
    let mut source = workspace(2, 2, 2);
    for (project, total) in [(&mut destination, 300_000), (&mut source, 200_000)] {
        let mut track = annotation(asset(1));
        track.items.clear();
        track.annotation = Some(Payload { bytes: b"progress".to_vec() });
        track.annotation_scope = Some(vec![span(0, total)]);
        project.timeline.overlay_tracks.push(track);
    }
    let derived = InsertionFacts {
        scopes: vec![DerivedScope::Known(vec![span(0, 100_000), span(300_000, 500_000)])],
        ..facts(&destination, &source)
    };
    let (commands, _) = command_of(
        &destination,
        1,
        &source,
        &source.assets,
        size(2, 1),
        &derived,
    )
    .unwrap();
    let scopes: Vec<Vec<(u64, u64)>> = commands
        .iter()
        .filter_map(|command| match command {
            EditCommand::UpsertOverlayTrack { track } => track.annotation_scope.as_ref(),
            _ => None,
        })
        .map(|scope| {
            scope.iter().map(|span| (span.start.get(), span.end().unwrap().get())).collect()
        })
        .collect();
    assert_eq!(
        scopes,
        [vec![(0, 100_000), (300_000, 500_000)], vec![(100_000, 300_000)]]
    );
}

#[test]
fn stale_target_rejects_without_an_extra_revision_or_history_entry() {
    let prepared = PreparedProjectInsertion {
        source_label: "source".to_owned(),
        root: "/projects/a".to_owned(),
        project_id: ProjectId::from_u128(1),
        revision: 3,
        commands: Vec::new(),
        inserted_frames: vec![frame_id(5)],
        imported_assets: vec![asset(1)],
    };
    let root = "/projects/a".to_owned();
    assert_eq!(prepared.check_target(&root, ProjectId::from_u128(1), 3), Ok(()));
    for (path, project, revision) in
        [("/projects/b", 1, 3), ("/projects/a", 2, 3), ("/projects/a", 1, 4)]
    {
        assert_eq!(
            prepared.check_target(&path.to_owned(), ProjectId::from_u128(project), revision),
            Err(ProjectInsertionError::StaleTarget)
        );
    }
    assert_eq!(prepared.frame_count(), 1);
    assert_eq!(prepared.remaining_issues(&vec![asset(2), asset(1)]), [asset(2)]);
}

#[test]
fn cancellation_corrupt_asset_and_canvas_mismatch_do_not_mutate_destination() {
    let destination = workspace(1, 2, 1);
    let source = workspace(2, 1, 2);
    let raised = AtomicBool::new(true);
    assert!(matches!(
        preflight(
            &destination,
            &source,
            false,
            &Ok(()),
            &sizes(&source, size(2, 1)),
            &sizes(&destination, size(2, 1)),
            &pools(),
            &CancelFlag { flag: &raised },
        ),
        Err(ProjectInsertionError::Cancelled)
    ));
    let mut painted = source.clone();
    painted.canvas.background =
        CanvasBackground::Solid { color: Rgba { red: 1, green: 2, blue: 3, alpha: 255 } };
    assert_eq!(
        validate_source(&destination, &painted, &Ok(())),
        Err(ProjectInsertionError::CanvasMismatch)
    );
    let mut reader = AssetReader::begin(&source.assets[0], true, 8).unwrap();
    reader.accept(&[1; 8], &NeverCancel).unwrap();
    assert_eq!(
        reader.finish(asset(9)),
        Err(ProjectInsertionError::CorruptAsset(asset(2)))
    );
}

#[test]
fn files_are_read_to_their_exact_length_and_digest() {
    let descriptor = picture(2, size(2, 1));
    for (is_file, length) in [(false, 8), (true, 7), (true, 9)] {
        assert_eq!(
            AssetReader::begin(&descriptor, is_file, length).err(),
            Some(ProjectInsertionError::InvalidAssetLength(asset(2)))
        );
    }
    assert_eq!(
        AssetReader::begin_with(&descriptor, true, 8, None).err(),
        Some(ProjectInsertionError::AssetBudget)
    );
    let mut reader = AssetReader::begin(&descriptor, true, 8).unwrap();
    reader.accept(&[1, 2, 3], &NeverCancel).unwrap();
    reader.accept(&[4, 5, 6, 7, 8], &NeverCancel).unwrap();
    assert_eq!(
        reader.accept(&[9], &NeverCancel),
        Err(ProjectInsertionError::InvalidAssetLength(asset(2)))
    );
    let raised = AtomicBool::new(true);
    assert_eq!(
        reader.accept(&[], &CancelFlag { flag: &raised }),
        Err(ProjectInsertionError::Cancelled)
    );
    let bytes = reader.finish(asset(2)).unwrap();
    assert_eq!(bytes, [1, 2, 3, 4, 5, 6, 7, 8]);
    let mut check = ExistingAssetCheck::begin(&descriptor, true, 8).unwrap();
    check.compare(&bytes, &[1, 2, 3, 4], &NeverCancel).unwrap();
    assert_eq!(
        check.compare(&bytes, &[5, 6, 7, 9], &NeverCancel),
        Err(ProjectInsertionError::CorruptAsset(asset(2)))
    );
    assert_eq!(
        check.finish(&bytes),
        Err(ProjectInsertionError::InvalidAssetLength(asset(2)))
    );
    check.compare(&bytes, &[5, 6, 7, 8], &NeverCancel).unwrap();
    assert_eq!(check.finish(&bytes), Ok(()));
}

#[test]
fn nothing_is_stored_before_everything_is_read() {
    let mut transfer = InsertionTransfer::new(2);
    let mut steps = Vec::new();
    loop {
        let step = transfer.next();
        steps.push(step);
        if step == TransferStep::Finish {
            break;
        }
        transfer.done();
    }
    assert_eq!(
        steps,
        [
            TransferStep::Read(0),
            TransferStep::Read(1),
            TransferStep::Write(0),
            TransferStep::Write(1),
            TransferStep::Finish
        ]
    );
}

#[test]
fn incompatible_hash_metadata_is_rejected_before_storing_assets() {
    let destination = workspace(1, 2, 1);
    let mut source = workspace(2, 1, 1);
    source.assets[0].kind =
        AssetKind::Frame { size: size(1, 2), encoding: RasterEncoding::Rgba8 };
    source.timeline.frames[0].transform.output_size = Some(size(2, 1));
    assert_eq!(
        prepare(&destination, &source, None),
        Err(ProjectInsertionError::AssetCollision(asset(1)))
    );
    let mut relabeled = picture(1, size(2, 1));
    relabeled.kind = AssetKind::Mask { size: size(2, 1), encoding: RasterEncoding::Rgba8 };
    assert!(same_asset_storage(&picture(1, size(2, 1)), &relabeled));
    assert!(!same_asset_storage(&picture(1, size(2, 1)), &picture(1, size(1, 2))));
}

#[test]
fn path_preparation_honors_source_lock_and_rejects_self_alias() {
    let destination = workspace(1, 2, 1);
    assert_eq!(
        prepare(&destination, &destination, None),
        Err(ProjectInsertionError::SameProject)
    );
    let source = workspace(2, 1, 2);
    assert!(matches!(
        preflight(
            &destination,
            &source,
            true,
            &Ok(()),
            &sizes(&source, size(2, 1)),
            &sizes(&destination, size(2, 1)),
            &pools(),
            &NeverCancel,
        ),
        Err(ProjectInsertionError::SameProject)
    ));
    assert_eq!(
        validate_source(&destination, &source, &Err("already locked".to_owned())),
        Err(ProjectInsertionError::Project("already locked".to_owned()))
    );
}

#[test]
fn cursor_assets_are_imported_unused_assets_skipped_and_effect_references_remain_complete() {
    let (cursor, mask, unused) = (asset(20), asset(21), asset(22));
    let mut source = workspace(2, 1, 2);
    for id in [20, 21, 22] {
        source.assets.push(picture(id, size(1, 1)));
    }
    source.timeline.frames[0].capture_metadata.cursor_asset = Some(cursor);
    assert_eq!(referenced_assets(&source), [asset(2), cursor]);
    let effect = Effect::Cinemagraph { mask_asset: mask, invert_mask: false };
    source.timeline.frames[0].effects.push(effect);
    assert_eq!(referenced_assets(&source), [asset(2), cursor, mask]);
    source.timeline.frames[0].effects.clear();
    source.timeline.frames[0].render_steps =
        vec![RenderStep::Composite { stage: 1 }, RenderStep::Effect { effect }];
    assert!(referenced_assets(&source).contains(&mask));
    assert!(!referenced_assets(&source).contains(&unused));
}

#[test]
fn frame_limits_overflow_and_missing_cursor_metadata_fail_before_writes() {
    let destination = workspace(1, 1, 1);
    let source = workspace(2, 1, 2);
    let mut excessive = source.clone();
    excessive.timeline.frames =
        vec![excessive.timeline.frames[0].clone(); MAX_INSERTED_FRAMES + 1];
    assert_eq!(
        prepare(&destination, &excessive, None),
        Err(ProjectInsertionError::FrameLimit)
    );
    let mut overflow = source.clone();
    overflow.timeline.frames[0].duration = DurationUs::new(u64::MAX).unwrap();
    assert_eq!(
        prepare(&destination, &overflow, None),
        Err(ProjectInsertionError::DurationOverflow)
    );
    let mut missing = source.clone();
    missing.timeline.frames[0].capture_metadata.cursor_asset = Some(asset(42));
    assert_eq!(
        prepare(&destination, &missing, None),
        Err(ProjectInsertionError::MissingAsset(asset(42)))
    );
    assert_eq!(
        prepare(&destination, &workspace(2, 0, 2), None),
        Err(ProjectInsertionError::EmptySource)
    );
    let mut candidate = workspace(1, 2, 1).timeline;
    assert_eq!(check_candidate(&candidate), Ok(()));
    candidate.frames[0].duration = DurationUs::new(u64::MAX).unwrap();
    assert_eq!(check_candidate(&candidate), Err(ProjectInsertionError::DurationOverflow));
}

fn cell(frame: u128, marks: usize) -> FrameOverlayCell {
    FrameOverlayCell {
        frame_id: frame_id(frame),
        stage: None,
        scopes: Vec::new(),
        marks: (0..marks)
            .map(|index| FrameOverlayMark {
                id: OverlayId::from_u128(index as u128 + 1),
                z_index: 0,
                content: OverlayContent::Drawing {
                    points: Vec::new(),
                    width: 1,
                    color: Rgba { red: 0, green: 0, blue: 0, alpha: 255 },
                },
            })
            .collect(),
        input_replay: None,
    }
}

#[test]
fn hidden_frame_owned_marks_count_toward_project_insertion_limit_before_asset_writes() {
    let destination = workspace(1, 1, 1);
    let mut source = workspace(2, 1, 2);
    let mut track = annotation(asset(2));
    track.visible = false;
    track.items.clear();
    track.frame_cells = Some(vec![cell(1, 10_001)]);
    source.timeline.overlay_tracks.push(track);
    assert_eq!(
        validate_source(&destination, &source, &Ok(())),
        Err(ProjectInsertionError::OverlayLimit)
    );
    source.timeline.overlay_tracks[0].frame_cells = Some(vec![cell(1, 10_000)]);
    assert_eq!(validate_source(&destination, &source, &Ok(())), Ok(()));
}

#[test]
fn project_insertion_copies_hidden_input_pools_and_preserves_refs_through_undo_reopen() {
    let destination = workspace(1, 2, 1);
    let mut source = workspace(2, 3, 2);
    let pool = AssetDescriptor {
        id: asset(70),
        byte_len: 100,
        kind: AssetKind::ImportedSource { media_type: pools().media_type },
    };
    source.assets.push(pool.clone());
    let mut track = annotation(asset(2));
    track.visible = false;
    track.opacity = 0;
    track.items.clear();
    let mut owned = cell(2, 0);
    owned.input_replay = Some(vec![FrameInputReplayRef {
        run_id: 1,
        asset_id: asset(70),
        sample_at: TimeUs::new(100_000),
        step_end: 1,
    }]);
    track.frame_cells = Some(vec![owned]);
    source.timeline.overlay_tracks.push(track.clone());
    assert!(referenced_assets(&source).contains(&asset(70)));
    let plan = preflight(
        &destination,
        &source,
        false,
        &Ok(()),
        &sizes(&source, size(2, 1)),
        &sizes(&destination, size(2, 1)),
        &pools(),
        &NeverCancel,
    )
    .unwrap();
    assert!(plan.descriptors.contains(&pool));
    let mut moved = track;
    moved.id = TrackId::from_u128(99);
    let given = InsertionFacts { frame_tracks: vec![moved.clone()], ..facts(&destination, &source) };
    let (commands, _) = command_of(
        &destination,
        0,
        &source,
        &plan.descriptors,
        plan.output_size,
        &given,
    )
    .unwrap();
    assert!(commands.contains(&EditCommand::UpsertOverlayTrack { track: moved }));
}

#[test]
fn invalid_pool_prefix_fails_before_any_destination_blob_or_journal_write() {
    let fault = |message: &str| {
        Err(ProjectInsertionError::InvalidInputReplay {
            asset_id: asset(70),
            message: message.to_owned(),
        })
    };
    let damaged = || Err("damaged".to_owned());
    assert_eq!(
        validate_input_replay_asset(
            asset(70),
            &Ok(()),
            &vec![Ok(()), Err("prefix".to_owned()), Err("later".to_owned())]
        ),
        fault("prefix")
    );
    assert_eq!(validate_input_replay_asset(asset(70), &damaged(), &vec![Ok(())]), fault("damaged"));
    assert_eq!(validate_input_replay_asset(asset(70), &damaged(), &Vec::new()), Ok(()));
    assert_eq!(validate_input_replay_asset(asset(70), &Ok(()), &vec![Ok(())]), Ok(()));
}

#[test]
fn the_references_to_a_pool_are_listed_in_order() {
    let reference = |run_id: u32, pool: u128, step_end: u32| FrameInputReplayRef {
        run_id,
        asset_id: asset(pool),
        sample_at: TimeUs::new(u64::from(run_id)),
        step_end,
    };
    let mut project = workspace(1, 2, 9);
    let mut first = annotation(asset(9));
    let mut cells = vec![cell(1, 0), cell(2, 1)];
    cells[0].input_replay = Some(vec![reference(1, 70, 4), reference(2, 71, 5)]);
    cells[1].input_replay = Some(vec![reference(3, 70, 6)]);
    first.frame_cells = Some(cells);
    let mut second = annotation(asset(9));
    let mut hidden = cell(1, 0);
    hidden.input_replay = Some(vec![reference(1, 71, 1), reference(4, 70, 4)]);
    second.visible = false;
    second.frame_cells = Some(vec![hidden, cell(2, 0)]);
    project.timeline.overlay_tracks = vec![first, annotation(asset(9)), second];
    assert_eq!(
        replay_references(&project.timeline, asset(70)),
        [reference(1, 70, 4), reference(3, 70, 6), reference(4, 70, 4)]
    );
    assert_eq!(
        replay_references(&project.timeline, asset(71)),
        [reference(2, 71, 5), reference(1, 71, 1)]
    );
    assert_eq!(replay_references(&project.timeline, asset(9)), []);
}

#[test]
fn same_bytes_with_an_unrelated_binary_descriptor_are_not_accepted_as_input_history() {
    let pool = |media_type: &str| AssetDescriptor {
        id: asset(70),
        byte_len: 100,
        kind: AssetKind::ImportedSource { media_type: media_type.to_owned() },
    };
    assert_eq!(
        checked_descriptors(
            &vec![pool("application/json")],
            &vec![pool(&pools().media_type)],
            &vec![asset(70)],
            &pools()
        ),
        Err(ProjectInsertionError::AssetCollision(asset(70)))
    );
}

#[test]
fn only_assets_that_can_be_inserted_are_accepted() {
    let judge = |descriptor: &AssetDescriptor| validate_inserted_asset_descriptor(descriptor, &pools());
    assert_eq!(judge(&picture(1, size(2, 1))), Ok(()));
    let mut long = picture(1, size(2, 1));
    long.byte_len = 9;
    assert_eq!(judge(&long), Err(ProjectInsertionError::InvalidAssetLength(asset(1))));
    let huge = AssetDescriptor {
        kind: AssetKind::Frame {
            size: PhysicalSize { width: u32::MAX, height: u32::MAX },
            encoding: RasterEncoding::Rgba8,
        },
        ..picture(1, size(2, 1))
    };
    assert_eq!(judge(&huge), Err(ProjectInsertionError::AssetBudget));
    let packed = AssetDescriptor {
        kind: AssetKind::Frame { size: size(2, 1), encoding: RasterEncoding::Qoi },
        ..picture(1, size(2, 1))
    };
    assert_eq!(judge(&packed), Err(ProjectInsertionError::UnsupportedAsset(asset(1))));
    let pool = |byte_len: u64| AssetDescriptor {
        id: asset(1),
        byte_len,
        kind: AssetKind::ImportedSource { media_type: pools().media_type },
    };
    assert_eq!(judge(&pool(1_000)), Ok(()));
    assert_eq!(judge(&pool(0)), Err(ProjectInsertionError::UnsupportedAsset(asset(1))));
    assert_eq!(judge(&pool(1_001)), Err(ProjectInsertionError::UnsupportedAsset(asset(1))));
    let snapshot = |byte_len: u64| AssetDescriptor {
        id: asset(1),
        byte_len,
        kind: AssetKind::PremultipliedSnapshot { size: size(2, 1), format_version: 1 },
    };
    assert_eq!(judge(&snapshot(25)), Ok(()));
    assert_eq!(judge(&snapshot(24)), Err(ProjectInsertionError::InvalidAssetLength(asset(1))));
    let half = MAX_INSERTED_ASSET_BYTES / 2;
    let square = |id: u128| AssetDescriptor {
        id: asset(id),
        byte_len: half,
        kind: AssetKind::Frame { size: size(8_192, 8_192), encoding: RasterEncoding::Rgba8 },
    };
    let source = vec![square(1), square(2), picture(3, size(1, 1))];
    assert!(checked_descriptors(&Vec::new(), &source, &vec![asset(1), asset(2)], &pools()).is_ok());
    assert_eq!(
        checked_descriptors(&Vec::new(), &source, &vec![asset(1), asset(2), asset(3)], &pools()),
        Err(ProjectInsertionError::AssetBudget)
    );
}

#[test]
fn typed_snapshot_cannot_use_same_area_different_shape_view_on_insertion() {
    assert!(matches!(
        validate_snapshot_asset(asset(1), size(1, 2), &Ok(size(2, 1))),
        Err(ProjectInsertionError::InvalidPremultipliedSnapshot { asset_id, .. })
            if asset_id == asset(1)
    ));
    assert_eq!(validate_snapshot_asset(asset(1), size(2, 1), &Ok(size(2, 1))), Ok(()));
}

#[test]
fn matching_digest_does_not_accept_bad_pm_magic_version_shape_or_channels() {
    for fault in ["magic", "version", "shape", "channels"] {
        assert_eq!(
            validate_snapshot_asset(asset(1), size(2, 1), &Err(fault.to_owned())),
            Err(ProjectInsertionError::InvalidPremultipliedSnapshot {
                asset_id: asset(1),
                message: fault.to_owned()
            })
        );
    }
}

#[test]
fn identical_snapshot_digest_does_not_relax_destination_kind_or_shape_identity() {
    let snapshot = |size: PhysicalSize| AssetDescriptor {
        id: asset(1),
        byte_len: 25,
        kind: AssetKind::PremultipliedSnapshot { size, format_version: 1 },
    };
    let source = vec![snapshot(size(2, 1))];
    for existing in [
        AssetDescriptor {
            kind: AssetKind::ImportedSource { media_type: "application/octet-stream".to_owned() },
            ..snapshot(size(2, 1))
        },
        snapshot(size(1, 2)),
    ] {
        assert_eq!(
            checked_descriptors(&vec![existing], &source, &vec![asset(1)], &pools()),
            Err(ProjectInsertionError::AssetCollision(asset(1)))
        );
    }
}

#[test]
fn staged_source_twenty_and_destination_hundred_are_rejected_before_pixel_io() {
    let source = workspace(2, 1, 2);
    let destination = workspace(1, 1, 1);
    assert_eq!(
        validate_rendered_sizes(
            &source,
            &destination,
            &sizes(&source, size(20, 20)),
            &sizes(&destination, size(100, 100)),
            &NeverCancel
        ),
        Err(ProjectInsertionError::RenderedSizeMismatch {
            side: InsertionSide::Destination,
            frame_id: frame_id(1),
            expected: size(20, 20),
            actual: size(100, 100)
        })
    );
}

#[test]
fn every_source_and_destination_frame_is_checked_not_just_the_first() {
    for mixed_source in [false, true] {
        let source = workspace(2, 2, 2);
        let destination = workspace(1, 2, 1);
        let mixed = vec![Ok(size(20, 20)), Ok(size(100, 100))];
        let equal = vec![Ok(size(20, 20)); 2];
        let (first, second) = if mixed_source { (&mixed, &equal) } else { (&equal, &mixed) };
        assert_eq!(
            validate_rendered_sizes(&source, &destination, first, second, &NeverCancel),
            Err(ProjectInsertionError::RenderedSizeMismatch {
                side: if mixed_source {
                    InsertionSide::Source
                } else {
                    InsertionSide::Destination
                },
                frame_id: frame_id(2),
                expected: size(20, 20),
                actual: size(100, 100)
            })
        );
    }
}

#[test]
fn matching_legacy_outputs_allow_stale_different_headers_and_normalize_atomically() {
    for header in [100, 80] {
        let source = workspace(2, 2, 2);
        let mut destination = workspace(1, 2, 1);
        destination.canvas.size = size(header, header);
        let output = validate_rendered_sizes(
            &source,
            &destination,
            &sizes(&source, size(20, 20)),
            &sizes(&destination, size(20, 20)),
            &NeverCancel,
        )
        .unwrap();
        assert_eq!(output, size(20, 20));
        let (commands, inserted) = command_of(
            &destination,
            1,
            &source,
            &source.assets,
            output,
            &facts(&destination, &source),
        )
        .unwrap();
        assert_eq!(inserted.len(), 2);
        assert_eq!(
            commands.last(),
            Some(&EditCommand::SetCanvas {
                canvas: Canvas { size: size(20, 20), ..destination.canvas }
            })
        );
    }
}

#[test]
fn empty_destination_uses_source_output_and_undo_restores_its_old_header() {
    let source = workspace(2, 1, 2);
    let mut destination = workspace(1, 0, 1);
    destination.canvas.size = size(80, 80);
    assert_eq!(
        validate_rendered_sizes(
            &source,
            &destination,
            &sizes(&source, size(20, 20)),
            &Vec::new(),
            &NeverCancel
        ),
        Ok(size(20, 20))
    );
}

#[test]
fn unrenderable_legacy_effects_are_rejected_before_pixel_or_destination_io() {
    let source = workspace(2, 1, 2);
    let destination = workspace(1, 1, 1);
    assert_eq!(
        validate_rendered_sizes(
            &source,
            &destination,
            &vec![Err("Legacy effect 1 lies outside.".to_owned())],
            &sizes(&destination, size(20, 20)),
            &NeverCancel
        ),
        Err(ProjectInsertionError::RenderedGeometry {
            side: InsertionSide::Source,
            frame_id: frame_id(1),
            reason: "Legacy effect 1 lies outside.".to_owned()
        })
    );
    let mut unknown = source.clone();
    unknown.assets.clear();
    assert_eq!(
        validate_rendered_sizes(
            &unknown,
            &destination,
            &sizes(&source, size(20, 20)),
            &sizes(&destination, size(20, 20)),
            &NeverCancel
        ),
        Err(ProjectInsertionError::MissingAsset(asset(2)))
    );
}

struct CancelAfter {
    checks: AtomicUsize,
    allowed: usize,
}

impl CancellationToken for CancelAfter {
    fn may_cancel(&self) -> bool {
        true
    }

    fn must_cancel(&self) -> bool {
        false
    }

    fn is_cancelled(&self) -> bool {
        self.checks.fetch_add(1, Ordering::Relaxed) >= self.allowed
    }
}

#[test]
fn geometry_preflight_observes_cancellation_between_both_source_and_destination_frames() {
    let source = workspace(2, 2, 2);
    let destination = workspace(1, 3, 1);
    for allowed in [1, 3] {
        let cancellation = CancelAfter { checks: AtomicUsize::new(0), allowed };
        assert!(matches!(
            validate_rendered_sizes(
                &source,
                &destination,
                &sizes(&source, size(100, 100)),
                &sizes(&destination, size(100, 100)),
                &cancellation
            ),
            Err(ProjectInsertionError::Cancelled)
        ));
        assert_eq!(cancellation.checks.load(Ordering::Relaxed), allowed + 1);
    }
}

#[test]
fn identities_of_an_insertion_are_new() {
    let mut destination = workspace(1, 3, 1);
    let mut source = workspace(2, 2, 2);
    annotate(&mut destination, 11);
    annotate(&mut source, 12);
    let ids = draw_ids(&destination, &source, &Vec::new());
    assert_eq!(ids.frames.len(), 2);
    assert_eq!(ids.transitions.len(), 1);
    assert_eq!(ids.tracks.len(), 1);
    assert_eq!(ids.items, vec![ids.items[0].clone()]);
    assert_eq!(ids.items[0].len(), 1);
    assert!(!ids.frames.contains(&0) && ids.frames[0] != ids.frames[1]);
    assert_ne!(ids.items[0][0], 400);
    assert_ne!(ids.tracks[0], 40);
}

#[test]
fn whole_project_insertion_preserves_frozen_cells_hidden_assets_and_mixed_track_order() {
    let destination = workspace(1, 3, 1);
    let mut source = workspace(2, 3, 2);
    annotate(&mut source, 12);
    let mut given = Vec::new();
    for (number, visible, opacity) in [(50, true, 255), (51, false, 255), (52, true, 0)] {
        let mut track = annotation(asset(2));
        track.id = TrackId::from_u128(number);
        track.visible = visible;
        track.opacity = opacity;
        track.items.clear();
        track.frame_cells = Some(vec![cell(2, 1)]);
        source.timeline.overlay_tracks.push(track);
    }
    let frames = fresh_frame_ids(&destination.timeline, &source.timeline);
    for track in &source.timeline.overlay_tracks {
        if track.frame_cells.is_some() {
            let mut moved = track.clone();
            moved.id = TrackId::from_u128(track.id.value + 100);
            moved.frame_cells = Some(vec![FrameOverlayCell {
                frame_id: FrameId::from_u128(frames[1]),
                ..cell(2, 1)
            }]);
            given.push(moved);
        }
    }
    let ids =
        draw_insertion_ids(&destination.timeline, &source.timeline, frames.clone(), &given);
    assert_eq!(ids.frames, frames);
    let facts = InsertionFacts { frame_tracks: given.clone(), ..facts(&destination, &source) };
    let (commands, inserted) =
        insertion_command(&destination, 1, &source, &source.assets, size(2, 1), &facts, &ids)
            .unwrap();
    assert_eq!(inserted, ids.frames.iter().map(|id| FrameId::from_u128(*id)).collect::<Vec<_>>());
    let brought: Vec<&OverlayTrack> = commands
        .iter()
        .filter_map(|command| match command {
            EditCommand::UpsertOverlayTrack { track } => Some(track),
            _ => None,
        })
        .collect();
    assert_eq!(brought.len(), 4);
    assert!(brought[0].frame_cells.is_none());
    assert_eq!(brought[0].id, TrackId::from_u128(ids.tracks[0]));
    assert_eq!([brought[1], brought[2], brought[3]], [&given[0], &given[1], &given[2]]);
    let layers: BTreeSet<u128> = brought.iter().map(|track| track.id.value).collect();
    assert_eq!(layers.len(), 4);
    for track in &source.timeline.overlay_tracks {
        assert!(!layers.contains(&track.id.value));
    }
}

#[test]
fn same_digest_with_non_pm_source_descriptor_is_rejected_before_destination_writes() {
    let destination = workspace(1, 1, 1);
    let mut source = workspace(2, 1, 2);
    source.assets[0].kind =
        AssetKind::ImportedSource { media_type: "application/octet-stream".to_owned() };
    assert_eq!(
        validate_source(&destination, &source, &Err("not a snapshot".to_owned())),
        Err(ProjectInsertionError::Project("not a snapshot".to_owned()))
    );
    assert_eq!(
        checked_descriptors(&destination.assets, &source.assets, &vec![asset(2)], &pools()),
        Err(ProjectInsertionError::UnsupportedAsset(asset(2)))
    );
}
