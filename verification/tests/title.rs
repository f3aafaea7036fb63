use gif_editor::authoring::{
    add_text_overlay_for_selection, budget_error, generic_overlay_marks,
    validate_repeated_content, ArtworkCounter,
};
use gif_editor::content::{
    BlendMode, HorizontalAlignment, OverlayContent, Payload, ShapeKind, TextRaster,
};
use gif_editor::conversion_edit::MAX_FRAME_BUNDLE_METADATA_BYTES;
use gif_editor::frames::{CaptureBinding, CaptureMetadata, ClipTransform, FrameClip};
use gif_editor::geometry::{PhysicalPoint, PhysicalRect, PhysicalSize, Rgba};
use gif_editor::ids::{AssetId, FrameId, OverlayId, ProjectId, TrackId, TransitionId};
use gif_editor::overlay::{OverlayItem, OverlayTrack};
use gif_editor::project::{
    AssetDescriptor, AssetKind, Canvas, CanvasBackground, ColorSpace, EditCommand, ProjectManifest,
    RasterEncoding, Timeline, Transition, TransitionKind,
};
use gif_editor::shifting::exclude_inserted_title;
use gif_editor::spans::DerivedScope;
use gif_editor::time::{DurationUs, TimeUs, TimelineSpan};
use gif_editor::title::{
    check_title, insert_title, replace_text_overlay, text_content, text_overlay_draft, validate_text_image,
    EditorWorkspaceError, TextRequest, TitleFrameRequest,
};

const BLUE: Rgba = Rgba { red: 0, green: 0, blue: 255, alpha: 255 };
const GREEN: Rgba = Rgba { red: 0, green: 255, blue: 0, alpha: 255 };
const BLACK: Rgba = Rgba { red: 0, green: 0, blue: 0, alpha: 255 };

fn size(width: u32, height: u32) -> PhysicalSize {
    PhysicalSize::new(width, height).unwrap()
}

fn asset(low: u128) -> AssetId {
    AssetId { high: 3, low }
}

fn text(text: &str, color: Rgba) -> TextRequest {
    TextRequest {
        text: text.to_owned(),
        font_family: "sans-serif".to_owned(),
        font_size_px: 12,
        size: size(1, 1),
        foreground: color,
        background: None,
        alignment: HorizontalAlignment::Center,
    }
}

fn frame_id(id: u128) -> FrameId {
    FrameId::from_u128(id)
}

fn frame(id: u128, duration: u64) -> FrameClip {
    FrameClip {
        id: frame_id(id),
        asset_id: asset(id),
        duration: DurationUs::new(duration).unwrap(),
        transform: ClipTransform::none(),
        capture_metadata: CaptureMetadata::empty(),
        capture_clock: None,
        capture_binding: CaptureBinding::Original,
        effects: Vec::new(),
        render_steps: Vec::new(),
    }
}

fn span(start: u64, end: u64) -> TimelineSpan {
    TimelineSpan { start: TimeUs::new(start), duration: DurationUs::new(end - start).unwrap() }
}

fn item(id: u128, start: u64, end: u64, content: OverlayContent) -> OverlayItem {
    OverlayItem { id: OverlayId::from_u128(id), span: span(start, end), z_index: 100, content }
}

fn watermark() -> OverlayContent {
    OverlayContent::Shape {
        kind: ShapeKind::Rectangle,
        bounds: PhysicalRect::new(0, 0, 2, 1).unwrap(),
        stroke_width: 0,
        stroke: GREEN,
        fill: Some(GREEN),
    }
}

fn track(id: u128, items: Vec<OverlayItem>) -> OverlayTrack {
    OverlayTrack {
        id: TrackId::from_u128(id),
        frame_cells: None,
        annotation: None,
        annotation_scope: None,
        name: "Watermark on originals".to_owned(),
        visible: true,
        opacity: 255,
        blend_mode: BlendMode::Normal,
        items,
    }
}

fn project(frames: Vec<FrameClip>) -> ProjectManifest {
    ProjectManifest {
        project_id: ProjectId::from_u128(12),
        revision: 4,
        canvas: Canvas {
            size: size(2, 1),
            color_space: ColorSpace::Srgb,
            background: CanvasBackground::Transparent,
        },
        assets: Vec::new(),
        timeline: Timeline { frames, overlay_tracks: Vec::new(), transitions: Vec::new() },
    }
}

fn frames() -> Vec<FrameClip> {
    vec![frame(1, 10), frame(2, 20), frame(3, 30), frame(4, 40)]
}

fn pixel(id: u128) -> AssetDescriptor {
    AssetDescriptor {
        id: asset(id),
        byte_len: 4,
        kind: AssetKind::Frame { size: size(1, 1), encoding: RasterEncoding::Rgba8 },
    }
}

fn title(after: Option<FrameId>, background: Rgba) -> TitleFrameRequest {
    TitleFrameRequest {
        after,
        duration: DurationUs::new(50).unwrap(),
        background,
        text: text("Title", BLUE),
        position: PhysicalPoint::origin(),
    }
}

#[test]
fn replacing_text_preserves_group_identity_spans_settings_and_exact_undo() {
    let before = text_content(&text("Before", GREEN), size(1, 1), PhysicalPoint::origin(), asset(1));
    let mut original = track(
        7,
        vec![item(1, 0, 10, before.clone()), item(2, 30, 60, before.clone())],
    );
    original.name = "Selected captions".to_owned();
    original.items[0].z_index = -7;
    original.items[1].z_index = 9;
    let tracks = vec![original.clone()];
    let draft = text_overlay_draft(&tracks, original.id).unwrap();
    assert_eq!(draft.track_id, original.id);
    assert_eq!(draft.request, text("Before", GREEN));
    assert_eq!(draft.position, PhysicalPoint::origin());
    let request = text("After", BLUE);
    let command = replace_text_overlay(
        size(2, 1),
        &tracks,
        original.id,
        &request,
        &Ok(()),
        size(1, 1),
        draft.position,
        asset(2),
    )
    .unwrap();
    let mut expected = original.clone();
    for item in &mut expected.items {
        item.content = text_content(&request, size(1, 1), draft.position, asset(2));
    }
    assert_eq!(command, EditCommand::UpsertOverlayTrack { track: expected.clone() });
    // Going back to what was written before restores the layer.
    let restored = replace_text_overlay(
        size(2, 1),
        &vec![expected],
        original.id,
        &draft.request,
        &Ok(()),
        size(1, 1),
        draft.position,
        asset(1),
    );
    assert_eq!(restored, Ok(EditCommand::UpsertOverlayTrack { track: original }));
}

#[test]
fn text_is_replaced_only_by_pixels_that_fit() {
    let before = text_content(&text("Before", GREEN), size(1, 1), PhysicalPoint::origin(), asset(1));
    let tracks = vec![track(7, vec![item(1, 0, 10, before)])];
    let replace = |canvas, validity: Result<(), String>, image| {
        replace_text_overlay(
            canvas,
            &tracks,
            TrackId::from_u128(7),
            &text("After", BLUE),
            &validity,
            image,
            PhysicalPoint { x: 1, y: 0 },
            asset(2),
        )
    };
    assert!(replace(size(2, 1), Ok(()), size(1, 1)).is_ok());
    assert_eq!(
        replace(size(2, 1), Err("no text".to_owned()), size(1, 1)),
        Err(EditorWorkspaceError::InvalidText("no text".to_owned()))
    );
    assert_eq!(
        replace(size(2, 1), Ok(()), size(1, 2)),
        Err(EditorWorkspaceError::TextRasterDimensionsMismatch)
    );
    assert_eq!(
        replace(size(1, 1), Ok(()), size(1, 1)),
        Err(EditorWorkspaceError::RasterOverlayOutsideCanvas)
    );
}

#[test]
fn title_insertion_at_beginning_middle_and_end_excludes_existing_overlays_and_roundtrips() {
    for (after, index, start) in
        [(None, 0, 0), (Some(frame_id(1)), 1, 10), (Some(frame_id(4)), 4, 100)]
    {
        let mut project = project(frames());
        project.timeline.overlay_tracks.push(track(5, vec![item(50, 0, 100, watermark())]));
        project.timeline.transitions = [(1, 2), (3, 4)]
            .into_iter()
            .map(|(from, to)| Transition {
                id: TransitionId::from_u128(from),
                from_frame: frame_id(from),
                to_frame: frame_id(to),
                duration: DurationUs::new(1).unwrap(),
                steps: 1,
                kind: TransitionKind::FadeToNext,
            })
            .collect();
        let scopes = vec![DerivedScope::Known(Vec::new())];
        let edit = insert_title(
            &project,
            &title(after, BLACK),
            &Ok(()),
            size(1, 1),
            &pixel(60),
            asset(61),
            &scopes,
        )
        .unwrap();
        assert_eq!(edit.background, pixel(60));
        let kept = edit.commands.iter().find_map(|command| match command {
            EditCommand::SetTransitions { transitions } => Some(transitions.len()),
            _ => None,
        });
        assert_eq!(kept, if index == 1 { Some(1) } else { None });
        let inserted = edit.commands.iter().find_map(|command| match command {
            EditCommand::InsertFrames { index, frames } => Some((*index, frames)),
            _ => None,
        });
        let (at, new_frames) = inserted.unwrap();
        assert_eq!(at, index);
        assert_eq!(new_frames.len(), 1);
        assert_eq!(new_frames[0].transform.output_size, Some(size(2, 1)));
        assert_eq!(new_frames[0].id, edit.frame_id);
        assert_eq!(new_frames[0].asset_id, asset(60));
        assert_eq!(new_frames[0].capture_binding, CaptureBinding::NotRecorded);
        let layers: Vec<&OverlayTrack> = edit
            .commands
            .iter()
            .filter_map(|command| match command {
                EditCommand::UpsertOverlayTrack { track } => Some(track),
                _ => None,
            })
            .collect();
        let written = layers.last().unwrap();
        assert_eq!(written.name, "Title");
        assert_eq!(written.items.len(), 1);
        assert_eq!(written.items[0].span, span(start, start + 50));
        if index == 4 {
            assert_eq!(layers.len(), 1);
        } else {
            let moved = layers[0];
            assert_eq!(moved.items.len(), if index == 1 { 2 } else { 1 });
            assert_eq!(moved.items[0].id, OverlayId::from_u128(50));
            for item in &moved.items {
                assert!(
                    item.span.end().unwrap().get() <= start || item.span.start.get() >= start + 50
                );
            }
        }
    }
}

#[test]
fn title_insertion_splits_persistent_authoring_scope_without_covering_title_pixels() {
    let mut project = project(frames());
    let mut authored = track(5, vec![item(50, 0, 100, watermark())]);
    authored.annotation = Some(Payload { bytes: b"progress".to_vec() });
    authored.annotation_scope = Some(vec![span(0, 100)]);
    project.timeline.overlay_tracks.push(authored);
    let scopes = vec![DerivedScope::Known(vec![span(0, 10), span(60, 150)])];
    let edit = insert_title(
        &project,
        &title(Some(frame_id(1)), BLACK),
        &Ok(()),
        size(1, 1),
        &pixel(60),
        asset(61),
        &scopes,
    )
    .unwrap();
    let moved = edit
        .commands
        .iter()
        .find_map(|command| match command {
            EditCommand::UpsertOverlayTrack { track } if track.id.value == 5 => Some(track),
            _ => None,
        })
        .unwrap();
    assert_eq!(moved.annotation_scope, Some(vec![span(0, 10), span(60, 150)]));
    // What the layer paints makes way for the title at the same places.
    let shown: Vec<TimelineSpan> = moved.items.iter().map(|item| item.span).collect();
    assert_eq!(shown, [span(0, 10), span(60, 150)]);
}

#[test]
fn titles_are_refused_before_anything_is_stored_for_them() {
    let request = title(Some(frame_id(4)), BLACK);
    let gone = title(Some(frame_id(99)), BLACK);
    let fits = project(frames());
    let full = project(vec![frame(4, u64::MAX - 49)]);
    let check = |project: &ProjectManifest, request: &TitleFrameRequest, image| {
        check_title(project, request, &Ok(()), image)
    };
    assert_eq!(check(&fits, &request, size(1, 1)), Ok(()));
    assert_eq!(check(&project(vec![frame(4, u64::MAX - 50)]), &request, size(1, 1)), Ok(()));
    assert_eq!(
        check(&full, &request, size(1, 1)),
        Err(EditorWorkspaceError::TitleDurationOverflow)
    );
    assert_eq!(
        check(&full, &gone, size(1, 1)),
        Err(EditorWorkspaceError::UnknownTitleAnchor(frame_id(99)))
    );
    assert_eq!(
        check(&full, &gone, size(2, 1)),
        Err(EditorWorkspaceError::TextRasterDimensionsMismatch)
    );
    let mut aside = gone.clone();
    aside.position = PhysicalPoint { x: 2, y: 0 };
    assert_eq!(
        check(&full, &aside, size(1, 1)),
        Err(EditorWorkspaceError::RasterOverlayOutsideCanvas)
    );
    assert_eq!(
        check_title(&full, &aside, &Err("no text".to_owned()), size(2, 1)),
        Err(EditorWorkspaceError::InvalidText("no text".to_owned()))
    );
}

#[test]
fn unknown_mixed_and_unprepared_text_groups_are_rejected_without_storing_assets() {
    let first = text_content(&text("First", GREEN), size(1, 1), PhysicalPoint::origin(), asset(1));
    let second =
        text_content(&text("Different source", GREEN), size(1, 1), PhysicalPoint::origin(), asset(1));
    let mut unprepared = first.clone();
    if let OverlayContent::Text { raster, .. } = &mut unprepared {
        assert_eq!(*raster, Some(TextRaster { asset_id: asset(1), size: size(1, 1) }));
        *raster = None;
    }
    let id = TrackId::from_u128(7);
    for (target, contents) in [
        (TrackId::from_u128(0), [first.clone(), first.clone()]),
        (id, [first.clone(), second]),
        (id, [unprepared.clone(), unprepared]),
        (id, [watermark(), watermark()]),
    ] {
        let [one, two] = contents;
        let tracks = vec![track(7, vec![item(1, 0, 10, one), item(2, 30, 60, two)])];
        assert_eq!(
            replace_text_overlay(
                size(2, 1),
                &tracks,
                target,
                &text("Changed", BLUE),
                &Ok(()),
                size(1, 1),
                PhysicalPoint::origin(),
                asset(2)
            ),
            Err(EditorWorkspaceError::TextTrackNotEditable(target))
        );
    }
}

#[test]
fn title_preflight_rejects_stale_anchor_overflow_and_bad_pixels_without_mutation() {
    let mut request = title(Some(frame_id(99)), BLACK);
    request.duration = DurationUs::new(1).unwrap();
    let insert = |project: &ProjectManifest, request: &TitleFrameRequest, validity, image| {
        insert_title(project, request, &validity, image, &pixel(60), asset(61), &Vec::new())
    };
    let short = project(vec![frame(1, 100)]);
    assert_eq!(
        insert(&short, &request, Ok(()), size(1, 1)),
        Err(EditorWorkspaceError::UnknownTitleAnchor(frame_id(99)))
    );
    assert_eq!(
        insert(&project(vec![frame(1, u64::MAX)]), &request, Ok(()), size(1, 1)),
        Err(EditorWorkspaceError::UnknownTitleAnchor(frame_id(99)))
    );
    request.after = None;
    assert_eq!(
        insert(&project(vec![frame(1, u64::MAX)]), &request, Ok(()), size(1, 1)),
        Err(EditorWorkspaceError::TitleDurationOverflow)
    );
    assert_eq!(
        insert(&short, &request, Err("bad pixels".to_owned()), size(1, 1)),
        Err(EditorWorkspaceError::InvalidText("bad pixels".to_owned()))
    );
    assert_eq!(
        insert(&short, &request, Ok(()), size(2, 1)),
        Err(EditorWorkspaceError::TextRasterDimensionsMismatch)
    );
    request.position = PhysicalPoint { x: 2, y: 0 };
    assert_eq!(
        insert(&short, &request, Ok(()), size(1, 1)),
        Err(EditorWorkspaceError::RasterOverlayOutsideCanvas)
    );
}

#[test]
fn title_reuses_existing_overlay_pixels_as_background_without_changing_their_descriptor() {
    let mut project = project(frames());
    let shared = AssetDescriptor {
        id: asset(60),
        byte_len: 4,
        kind: AssetKind::OverlayImage { size: size(1, 1), encoding: RasterEncoding::Rgba8 },
    };
    project.assets.push(shared.clone());
    let edit = insert_title(
        &project,
        &title(Some(frame_id(1)), GREEN),
        &Ok(()),
        size(1, 1),
        &shared,
        asset(61),
        &Vec::new(),
    )
    .unwrap();
    assert_eq!(edit.background, shared);
    assert!(edit.commands.iter().any(|command| matches!(command,
        EditCommand::InsertFrames { index: 1, frames } if frames[0].asset_id == asset(60))));
}

#[test]
fn title_can_start_an_empty_timeline_and_keep_its_background_transparent() {
    let clear = Rgba { red: 0, green: 0, blue: 0, alpha: 0 };
    let edit = insert_title(
        &project(Vec::new()),
        &title(None, clear),
        &Ok(()),
        size(1, 1),
        &pixel(60),
        asset(61),
        &Vec::new(),
    )
    .unwrap();
    assert_eq!(edit.commands.len(), 2);
    assert!(matches!(&edit.commands[0], EditCommand::InsertFrames { index: 0, .. }));
    assert!(matches!(&edit.commands[1], EditCommand::UpsertOverlayTrack { track }
        if matches!(&track.items[0].content, OverlayContent::Text { raster: Some(raster), .. }
            if raster.asset_id == asset(61))));
}

#[test]
fn inserted_time_shows_no_item() {
    let items = vec![item(1, 0, 10, watermark()), item(2, 5, 40, watermark()), item(3, 30, 50, watermark())];
    let moved = exclude_inserted_title(&items, 20, DurationUs::new(50).unwrap(), &vec![91, 92, 93]).unwrap();
    let spans: Vec<TimelineSpan> = moved.iter().map(|item| item.span).collect();
    assert_eq!(spans, [span(0, 10), span(5, 20), span(70, 90), span(80, 100)]);
    assert_eq!(moved[1].id, OverlayId::from_u128(2));
    assert_eq!(moved[2].id, OverlayId::from_u128(92));
}

#[test]
fn metadata_budget_checks_actual_content_times_owner_count_before_cloning() {
    let mut counter = ArtworkCounter::new();
    for part in [r#"{"key_stroke":{"text":""#, &"x".repeat(1024), r#"","position":[0,0]}}"#] {
        assert_eq!(counter.write(part.len()), Some(part.len()));
    }
    let length = Some(counter.bytes);
    assert_eq!(validate_repeated_content(length, 1), Ok(()));
    assert_eq!(validate_repeated_content(length, 40_000), Err(budget_error()));
    assert_eq!(validate_repeated_content(length, usize::MAX), Err(budget_error()));
    assert_eq!(validate_repeated_content(None, 1), Err(budget_error()));
    assert_eq!(counter.write(MAX_FRAME_BUNDLE_METADATA_BYTES), None);
    assert_eq!(
        validate_repeated_content(Some(MAX_FRAME_BUNDLE_METADATA_BYTES - 512), 1),
        Ok(())
    );
}

#[test]
fn marks_repeat_the_artwork_under_different_identities() {
    let marks = generic_overlay_marks(&watermark(), 3, Some(100), 3).unwrap();
    assert_eq!(marks.len(), 3);
    for mark in &marks {
        assert_eq!((mark.z_index, &mark.content), (3, &watermark()));
        assert_ne!(mark.id.value, 0);
    }
    assert_ne!(marks[0].id, marks[1].id);
    assert_ne!(marks[1].id, marks[2].id);
    assert!(generic_overlay_marks(&watermark(), 3, Some(16 * 1024 * 1024), 1).is_err());
}

#[test]
fn text_lies_on_the_canvas_as_it_was_shaped() {
    let request = text("Saved caption", GREEN);
    let place = |x: u32, y: u32| PhysicalPoint { x, y };
    let edit =
        add_text_overlay_for_selection(size(2, 1), &request, &Ok(()), size(1, 1), place(1, 0))
            .unwrap();
    assert_eq!(edit.name, "Text");
    assert_eq!(edit.position, place(1, 0));
    assert_eq!(edit.display_size, size(1, 1));
    assert_eq!((edit.item_opacity, edit.track_opacity, edit.z_index), (255, 255, 3));
    assert_eq!(
        validate_text_image(size(2, 1), &request, &Ok(()), size(1, 1), place(0, 1)),
        Err(EditorWorkspaceError::RasterOverlayOutsideCanvas)
    );
    assert_eq!(
        validate_text_image(size(2, 1), &request, &Ok(()), size(1, 2), place(0, 0)),
        Err(EditorWorkspaceError::TextRasterDimensionsMismatch)
    );
}
