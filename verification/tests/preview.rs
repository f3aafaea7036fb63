use gif_editor::cancel::{CancelFlag, NeverCancel};
use gif_editor::frames::{CaptureBinding, CaptureMetadata, ClipTransform, FrameClip, RenderStep};
use gif_editor::geometry::PhysicalSize;
use gif_editor::ids::{AssetId, FrameId, OverlayId, ProjectId, TransitionId};
use gif_editor::lru::BoundedLru;
use gif_editor::preview::{
    checked_rgba_byte_len, downsample_preview, fit_preview_dimensions, resize_nearest_rgba,
    validate_preview_bounds, EditorPreviewError,
};
use gif_editor::preview_cache::{
    invalidate_stale_project_revisions, is_step_of, plan_endpoints, CachedTransitionEndpoints,
    EditorPreviewCache, PresentationTransitionStep, PreviewCacheKey, DEFAULT_CACHE_BYTES,
    DEFAULT_CACHE_ENTRIES, MAX_RENDER_SURFACE_BYTES,
};
use gif_editor::preview_load::{
    locate_preview_frame, NamedDescriptor, PreviewAssets, PreviewRasterRole, PreviewRenderPlan,
    RasterNeed, RasterUse,
};
use gif_editor::project::{
    AssetDescriptor, AssetKind, Canvas, CanvasBackground, ColorSpace, ProjectManifest,
    RasterEncoding, Timeline, Transition, TransitionKind,
};
use gif_editor::surface::RgbaSurface;
use gif_editor::time::{DurationUs, TimeUs};
use std::sync::atomic::AtomicBool;

fn size(width: u32, height: u32) -> PhysicalSize {
    PhysicalSize::new(width, height).unwrap()
}

fn key(project: u128, revision: u64, frame: u128, max_size: [u32; 2]) -> PreviewCacheKey {
    PreviewCacheKey {
        project_id: ProjectId::from_u128(project),
        revision,
        frame_id: FrameId::from_u128(frame),
        transition: None,
        max_size: size(max_size[0], max_size[1]),
    }
}

fn asset(low: u128) -> AssetId {
    AssetId { high: 7, low }
}

fn picture(id: u128, byte_len: u64, size: PhysicalSize) -> AssetDescriptor {
    AssetDescriptor {
        id: asset(id),
        byte_len,
        kind: AssetKind::Frame { size, encoding: RasterEncoding::Rgba8 },
    }
}

fn frame(id: u128, duration: u64) -> FrameClip {
    FrameClip {
        id: FrameId::from_u128(id),
        asset_id: asset(id),
        duration: DurationUs::new(duration).unwrap(),
        transform: ClipTransform::none(),
        capture_metadata: CaptureMetadata::empty(),
        capture_clock: None,
        capture_binding: CaptureBinding::Original,
        effects: Vec::new(),
        render_steps: Vec::new(),
    }
}

fn project() -> ProjectManifest {
    ProjectManifest {
        project_id: ProjectId::from_u128(1),
        revision: 1,
        canvas: Canvas {
            size: size(2, 1),
            color_space: ColorSpace::Srgb,
            background: CanvasBackground::Transparent,
        },
        assets: vec![picture(1, 8, size(2, 1)), picture(2, 8, size(2, 1))],
        timeline: Timeline {
            frames: vec![frame(1, 10_000), frame(2, 30_000)],
            overlay_tracks: Vec::new(),
            transitions: Vec::new(),
        },
    }
}

fn role() -> PreviewRasterRole {
    PreviewRasterRole::Frame { frame_id: FrameId::from_u128(1) }
}

#[test]
fn fits_dimensions_without_upscaling() {
    assert_eq!(fit_preview_dimensions([1_920, 1_080], [640, 640]).unwrap(), [640, 360]);
    assert_eq!(fit_preview_dimensions([1_080, 1_920], [640, 480]).unwrap(), [270, 480]);
    assert_eq!(fit_preview_dimensions([320, 200], [640, 480]).unwrap(), [320, 200]);
    assert!(matches!(
        fit_preview_dimensions([320, 200], [0, 480]),
        Err(EditorPreviewError::InvalidPreviewBounds { .. })
    ));
    assert!(matches!(
        fit_preview_dimensions([0, 200], [320, 200]),
        Err(EditorPreviewError::InvalidRenderedSize { .. })
    ));
}

#[test]
fn previews_never_vanish_and_never_grow() {
    assert_eq!(fit_preview_dimensions([u32::MAX, 1], [10, 10]).unwrap(), [10, 1]);
    assert_eq!(fit_preview_dimensions([1, u32::MAX], [1, 1]).unwrap(), [1, 1]);
    assert_eq!(
        fit_preview_dimensions([u32::MAX, u32::MAX], [u32::MAX, 1]).unwrap(),
        [1, 1]
    );
    assert_eq!(checked_rgba_byte_len([3, 5]).unwrap(), 60);
    assert!(matches!(
        checked_rgba_byte_len([u32::MAX, u32::MAX]),
        Err(EditorPreviewError::PreviewByteLengthOverflow { .. })
    ));
    assert!(validate_preview_bounds([1, 1]).is_ok());
    assert!(validate_preview_bounds([1, 0]).is_err());
}

#[test]
fn fitting_a_preview_twice_changes_nothing() {
    for source in [[1_920, 1_080], [1_080, 1_920], [3, 1_000], [u32::MAX, 7], [5, 5]] {
        for space in [[640, 640], [640, 480], [1, 9], [100, 33]] {
            let once = fit_preview_dimensions(source, space).unwrap();
            assert_eq!(fit_preview_dimensions(once, space).unwrap(), once);
        }
    }
}

#[test]
fn nearest_resize_preserves_straight_rgba_channels() {
    let source = [
        1, 2, 3, 0, 10, 20, 30, 64, 40, 50, 60, 128, 70, 80, 90, 255, 4, 5, 6, 7, 11, 21, 31, 65,
        41, 51, 61, 129, 71, 81, 91, 254,
    ];
    let resized = resize_nearest_rgba(&source, [4, 2], [2, 1]).unwrap();
    assert_eq!(resized, [1, 2, 3, 0, 40, 50, 60, 128]);
    assert!(matches!(
        resize_nearest_rgba(&source[..4], [4, 2], [2, 1]),
        Err(EditorPreviewError::ResizeSourceLengthMismatch { .. })
    ));
}

#[test]
fn previews_are_made_within_their_budget() {
    let surface = || RgbaSurface::new(size(2, 2), (0..16).collect()).unwrap();
    let same = downsample_preview(surface(), [9, 9], 16).unwrap();
    assert_eq!(same.preview_size, [2, 2]);
    assert_eq!(same.rgba, (0..16).collect::<Vec<u8>>());
    let small = downsample_preview(surface(), [1, 1], 4).unwrap();
    assert_eq!(small.rendered_size, [2, 2]);
    assert_eq!(small.preview_size, [1, 1]);
    assert_eq!(small.rgba, [0, 1, 2, 3]);
    assert!(matches!(
        downsample_preview(surface(), [9, 9], 15),
        Err(EditorPreviewError::PreviewMemoryLimitExceeded { required: 16, limit: 15 })
    ));
}

#[test]
fn cache_key_and_lru_include_revision_frame_and_bounds() {
    let first = key(1, 1, 1, [320, 200]);
    assert_ne!(first, key(1, 2, 1, [320, 200]));
    assert_ne!(first, key(1, 1, 2, [320, 200]));
    assert_ne!(first, key(1, 1, 1, [640, 400]));

    let second = key(1, 1, 2, [320, 200]);
    let third = key(1, 1, 3, [320, 200]);
    let mut cache = BoundedLru::new(2, 8);
    cache.insert(first, "first", 4);
    cache.insert(second, "second", 4);
    assert_eq!(cache.get(&first), Some(&"first"));
    cache.insert(third, "third", 4);
    assert!(cache.contains(&first));
    assert!(!cache.contains(&second));
    assert!(cache.contains(&third));
    assert_eq!(cache.cached_bytes, 8);

    let mut byte_limited = BoundedLru::new(4, 6);
    byte_limited.insert(first, "first", 4);
    byte_limited.insert(second, "second", 4);
    assert!(!byte_limited.contains(&first));
    assert!(byte_limited.contains(&second));
    assert_eq!(byte_limited.cached_bytes, 4);
}

#[test]
fn values_too_large_for_the_cache_are_not_kept() {
    let first = key(1, 1, 1, [1, 1]);
    let second = key(1, 1, 2, [1, 1]);
    let mut cache = BoundedLru::new(2, 8);
    cache.insert(first, 1, 8);
    cache.insert(second, 2, 9);
    assert!(cache.contains(&first) && !cache.contains(&second));
    cache.insert(first, 3, 2);
    assert_eq!(cache.get(&first), Some(&3));
    assert_eq!(cache.cached_bytes, 2);
    cache.insert(first, 4, 9);
    assert_eq!(cache.get(&first), None);
    let mut none = BoundedLru::new(0, 8);
    none.insert(first, 1, 1);
    assert!(!none.contains(&first));
}

#[test]
fn revision_change_removes_only_stale_entries_for_that_project() {
    let stale = key(1, 1, 1, [320, 200]);
    let current = key(1, 2, 1, [320, 200]);
    let other_project = key(2, 1, 1, [320, 200]);
    let mut cache = BoundedLru::new(16, 64);
    cache.insert(stale, 1, 4);
    cache.insert(current, 2, 4);
    cache.insert(other_project, 3, 4);

    invalidate_stale_project_revisions(&mut cache, ProjectId::from_u128(1), 2);
    assert!(!cache.contains(&stale));
    assert!(cache.contains(&current));
    assert!(cache.contains(&other_project));
    assert_eq!(cache.cached_bytes, 8);
}

#[test]
fn preview_uses_shared_raster_compositor_and_bounded_multi_asset_provider() {
    let mut project = project();
    project.assets.push(AssetDescriptor {
        id: asset(9),
        byte_len: 4,
        kind: AssetKind::OverlayImage { size: size(1, 1), encoding: RasterEncoding::Rgba8 },
    });
    let overlay = RasterUse { overlay_id: OverlayId::from_u128(1), asset_id: asset(9) };
    let plan = PreviewRenderPlan::new(
        &project,
        &project.timeline.frames[0],
        TimeUs::zero(),
        Ok(vec![overlay]),
    )
    .unwrap();
    assert_eq!(plan.load_count(), 2);
    for limit in [11_usize, 12] {
        let mut assets = PreviewAssets::new(limit);
        let mut failure = None;
        for at in 0..plan.load_count() {
            plan.poll(at, &NeverCancel).unwrap();
            let (asset_id, role) = plan.load(at);
            let RasterNeed::File { size, byte_len } =
                assets.begin(&plan.descriptors, asset_id, role).unwrap()
            else {
                panic!("nothing is in memory yet");
            };
            match assets.check_file(asset_id, size, byte_len, byte_len) {
                Ok(raster) => assets.accept(raster, vec![at as u8; byte_len as usize]).unwrap(),
                Err(error) => failure = Some(error),
            }
        }
        if limit == 11 {
            assert!(matches!(
                failure,
                Some(EditorPreviewError::SourceMemoryLimitExceeded {
                    asset_id,
                    required: 12,
                    limit: 11
                }) if asset_id == asset(9)
            ));
        } else {
            assert!(failure.is_none());
            assert_eq!(assets.retained_bytes, 12);
            assert_eq!(assets.load_rgba8(asset(9)).unwrap().pixels, [1, 1, 1, 1]);
        }
    }
    assert!(matches!(
        PreviewRenderPlan::new(
            &project,
            &project.timeline.frames[0],
            TimeUs::zero(),
            Ok(vec![RasterUse { overlay_id: OverlayId::from_u128(3), asset_id: asset(10) }]),
        ),
        Err(EditorPreviewError::MissingOverlayAssetDescriptor { overlay_id, asset_id })
            if overlay_id == OverlayId::from_u128(3) && asset_id == asset(10)
    ));
    assert!(matches!(
        PreviewRenderPlan::new(
            &project,
            &project.timeline.frames[1],
            TimeUs::new(10_000),
            Err("no plan".to_owned()),
        ),
        Err(EditorPreviewError::OverlayPlan { time_us: 10_000, source, .. }) if source == "no plan"
    ));
}

#[test]
fn preview_overlay_can_reuse_the_identical_content_addressed_frame_asset() {
    let project = project();
    let overlay = RasterUse { overlay_id: OverlayId::from_u128(1), asset_id: asset(1) };
    let mut plan = PreviewRenderPlan::new(
        &project,
        &project.timeline.frames[0],
        TimeUs::zero(),
        Ok(vec![overlay]),
    )
    .unwrap();
    assert_eq!(plan.descriptors.len(), 1);
    for kind in [
        AssetKind::Frame { size: size(2, 1), encoding: RasterEncoding::Rgba8 },
        AssetKind::OverlayImage { size: size(2, 1), encoding: RasterEncoding::Rgba8 },
        AssetKind::Mask { size: size(2, 1), encoding: RasterEncoding::Rgba8 },
    ] {
        plan.descriptors[0].descriptor.kind = kind;
        let mut assets = PreviewAssets::new(8);
        let (first, frame_role) = plan.load(0);
        assert_eq!(
            assets.begin(&plan.descriptors, first, frame_role).unwrap(),
            RasterNeed::File { size: size(2, 1), byte_len: 8 }
        );
        let raster = assets.check_file(first, size(2, 1), 8, 8).unwrap();
        assets.accept(raster, vec![255; 8]).unwrap();
        let (second, overlay_role) = plan.load(1);
        assert_eq!(
            assets.begin(&plan.descriptors, second, overlay_role).unwrap(),
            RasterNeed::Loaded
        );
    }
}

#[test]
fn preview_raster_role_reuse_preserves_kind_encoding_and_byte_validation() {
    let assets = PreviewAssets::new(16);
    let listed = |kind: AssetKind| {
        vec![NamedDescriptor {
            name: asset(1),
            descriptor: AssetDescriptor { id: asset(1), byte_len: 4, kind },
        }]
    };
    for media_type in ["image/png", "video/mp4", "audio/wav", "font/ttf"] {
        let list = listed(AssetKind::ImportedSource { media_type: media_type.to_owned() });
        assert!(matches!(
            assets.begin(&list, asset(1), role()),
            Err(EditorPreviewError::InvalidAssetKind { .. })
        ));
        assert!(matches!(
            assets.begin(
                &list,
                asset(1),
                PreviewRasterRole::Overlay { overlay_id: OverlayId::from_u128(4) }
            ),
            Err(EditorPreviewError::InvalidOverlayAssetKind { .. })
        ));
    }
    let list = listed(AssetKind::OverlayImage { size: size(1, 1), encoding: RasterEncoding::Qoi });
    assert!(matches!(
        assets.begin(&list, asset(1), role()),
        Err(EditorPreviewError::UnsupportedAssetEncoding { .. })
    ));
    let list = listed(AssetKind::Mask { size: size(2, 1), encoding: RasterEncoding::Rgba8 });
    assert!(matches!(
        assets.begin(&list, asset(1), role()),
        Err(EditorPreviewError::DescriptorByteLengthMismatch { expected: 8, actual: 4, .. })
    ));
    let list = listed(AssetKind::Mask {
        size: PhysicalSize { width: u32::MAX, height: u32::MAX },
        encoding: RasterEncoding::Rgba8,
    });
    assert!(matches!(
        assets.begin(&list, asset(1), role()),
        Err(EditorPreviewError::SourceByteLengthOverflow { .. })
    ));
    assert!(matches!(
        assets.begin(&list, asset(2), role()),
        Err(EditorPreviewError::MissingAssetDescriptor { .. })
    ));
    let mut list = listed(AssetKind::Frame { size: size(1, 1), encoding: RasterEncoding::Rgba8 });
    list[0].descriptor.id = asset(5);
    assert!(matches!(
        assets.begin(&list, asset(1), role()),
        Err(EditorPreviewError::DescriptorIdMismatch { descriptor_id, .. }) if descriptor_id == asset(5)
    ));
    assert!(matches!(
        assets.check_file(asset(1), size(1, 1), 4, 5),
        Err(EditorPreviewError::AssetFileLengthMismatch { expected: 4, actual: 5, .. })
    ));
}

/// A frame with a clipped still picture in a container of 25 bytes, painted `count` times.
fn snapshot_project(count: usize) -> ProjectManifest {
    let mut project = project();
    project.assets.push(AssetDescriptor {
        id: asset(30),
        byte_len: 25,
        kind: AssetKind::PremultipliedSnapshot { size: size(2, 1), format_version: 1 },
    });
    let steps = &mut project.timeline.frames[0].render_steps;
    steps.push(RenderStep::Composite { stage: 1 });
    for _ in 0..count {
        steps.push(RenderStep::CinemagraphOverlay {
            snapshot_asset: asset(30),
            snapshot_size: size(2, 1),
        });
    }
    project
}

fn snapshot_plan(project: &ProjectManifest) -> PreviewRenderPlan {
    PreviewRenderPlan::new(project, &project.timeline.frames[0], TimeUs::zero(), Ok(Vec::new()))
        .unwrap()
}

#[test]
fn typed_snapshot_preview_deduplicates_and_counts_encoded_capacity_in_one_budget() {
    let project = snapshot_project(2);
    let plan = snapshot_plan(&project);
    assert_eq!(plan.descriptors.len(), 2);
    assert_eq!(plan.snapshots.len(), 2);
    for limit in [32_usize, 33] {
        let mut assets = PreviewAssets::new(limit);
        let raster = assets.check_file(asset(1), size(2, 1), 8, 8).unwrap();
        assets.accept(raster, [255, 0, 0, 255].repeat(2)).unwrap();
        let need =
            assets.begin_snapshot(&plan.descriptors, plan.frame_id, plan.snapshots[0]).unwrap();
        assert_eq!(need, RasterNeed::File { size: size(2, 1), byte_len: 25 });
        let admitted = assets.check_snapshot(asset(30), size(2, 1), 25, 25);
        if limit == 32 {
            assert!(matches!(
                admitted,
                Err(EditorPreviewError::SourceMemoryLimitExceeded { asset_id, required: 33, .. })
                    if asset_id == asset(30)
            ));
        } else {
            assets
                .accept_snapshot(admitted.unwrap(), Ok(vec![0, 0, 0, 0, 0, 128, 0, 128]))
                .unwrap();
            assert_eq!(
                assets
                    .begin_snapshot(&plan.descriptors, plan.frame_id, plan.snapshots[1])
                    .unwrap(),
                RasterNeed::Loaded
            );
            assert_eq!(assets.retained_bytes, 33);
        }
    }
    let mut assets = PreviewAssets::new(25);
    let admitted = assets.check_snapshot(asset(30), size(2, 1), 25, 25).unwrap();
    assets.accept_snapshot(admitted, Ok(vec![0, 0, 0, 0, 0, 128, 0, 128])).unwrap();
    assert_eq!(assets.retained_bytes, 25);
    assert!(assets.load_rgba8(asset(30)).is_none());
    assert_eq!(
        assets.load_premultiplied_rgba8(asset(30)).unwrap().pixels,
        [0, 0, 0, 0, 0, 128, 0, 128]
    );
}

#[test]
fn typed_snapshot_preview_rejects_missing_corrupt_short_and_forged_containers() {
    let mut assets = PreviewAssets::new(1024);
    assert!(matches!(
        assets.check_snapshot(asset(30), size(2, 1), 25, 24),
        Err(EditorPreviewError::AssetFileLengthMismatch { asset_id, .. }) if asset_id == asset(30)
    ));
    let admitted = assets.check_snapshot(asset(30), size(2, 1), 25, 25).unwrap();
    assert!(matches!(
        assets.accept_snapshot(admitted, Err("a color lies beneath alpha zero".to_owned())),
        Err(EditorPreviewError::InvalidPremultipliedSnapshot { asset_id, .. })
            if asset_id == asset(30)
    ));
    assert!(matches!(
        assets.accept_snapshot(admitted, Ok(vec![0; 7])),
        Err(EditorPreviewError::InvalidSurface { expected: 8, actual: 7, .. })
    ));
    assert_eq!(assets.retained_bytes, 0);
}

#[test]
fn typed_snapshot_plan_rejects_descriptor_removal_raw_misuse_and_same_area_shape_alias() {
    let project = snapshot_project(1);
    let mut plan = snapshot_plan(&project);
    let assets = PreviewAssets::new(1024);
    let descriptor = plan.descriptors.pop().unwrap();
    assert!(matches!(
        assets.begin_snapshot(&plan.descriptors, plan.frame_id, plan.snapshots[0]),
        Err(EditorPreviewError::MissingAssetDescriptor { asset_id, .. }) if asset_id == asset(30)
    ));
    plan.descriptors.push(descriptor);
    plan.snapshots[0].size = size(1, 2);
    assert!(matches!(
        assets.begin_snapshot(&plan.descriptors, plan.frame_id, plan.snapshots[0]),
        Err(EditorPreviewError::InvalidPremultipliedDescriptor { .. })
    ));
    plan.asset_id = asset(30);
    let (asset_id, role) = plan.load(0);
    assert!(matches!(
        assets.begin(&plan.descriptors, asset_id, role),
        Err(EditorPreviewError::InvalidAssetKind { asset_id, .. }) if asset_id == asset(30)
    ));
    assert_eq!(plan.frame_id, FrameId::from_u128(1));
    let mut unregistered = snapshot_project(1);
    unregistered.assets.pop();
    assert!(matches!(
        PreviewRenderPlan::new(
            &unregistered,
            &unregistered.timeline.frames[0],
            TimeUs::zero(),
            Ok(Vec::new())
        ),
        Err(EditorPreviewError::MissingAssetDescriptor { asset_id, .. }) if asset_id == asset(30)
    ));
}

#[test]
fn planning_never_reads_pixels_and_cancelled_render_never_loads_missing_assets() {
    let project = project();
    let plan = snapshot_plan(&project);
    let raised = AtomicBool::new(true);
    let cancelled = CancelFlag { flag: &raised };
    assert!(matches!(
        plan.poll(0, &cancelled),
        Err(EditorPreviewError::OverlayPlan { source, .. }) if source == "rendering was cancelled"
    ));
    assert!(matches!(
        plan.poll(1, &cancelled),
        Err(EditorPreviewError::Render { source, .. }) if source == "rendering was cancelled"
    ));
}

fn transition(steps: u16) -> Transition {
    Transition {
        id: TransitionId::from_u128(1),
        from_frame: FrameId::from_u128(1),
        to_frame: FrameId::from_u128(2),
        duration: DurationUs::new(20_000).unwrap(),
        steps,
        kind: TransitionKind::FadeToNext,
    }
}

fn step(step: u16) -> PresentationTransitionStep {
    PresentationTransitionStep {
        transition_id: TransitionId::from_u128(1),
        from_frame: FrameId::from_u128(1),
        to_frame: FrameId::from_u128(2),
        step,
    }
}

#[test]
fn transition_preview_does_not_reuse_original_texture_and_obeys_working_limit() {
    let mut cache: EditorPreviewCache<&str> = EditorPreviewCache::with_limits(2, 1024, 1024);
    let project = ProjectId::from_u128(1);
    let from = FrameId::from_u128(1);
    let original = cache.prepare(project, 1, from, None, [2, 1]).unwrap();
    cache.cache.insert(original, "original", 8);
    let intermediate = cache.prepare(project, 1, from, Some(step(1)), [2, 1]).unwrap();
    assert!(!cache.cache.contains(&intermediate));
    cache.cache.insert(intermediate, "intermediate", 8);
    let repeated = cache.prepare(project, 1, from, Some(step(1)), [2, 1]).unwrap();
    assert_eq!(cache.cache.get(&repeated), Some(&"intermediate"));
    assert!(cache.prepare(project, 1, from, None, [0, 1]).is_err());
    let transitions = vec![transition(1)];
    assert_eq!(plan_endpoints(&transitions, step(1), Ok(()), 1024).unwrap().endpoint_limit, 341);
    assert!(matches!(
        plan_endpoints(&transitions, step(0), Err("no such step".to_owned()), 1024),
        Err(EditorPreviewError::TransitionRender { step: 0, .. })
    ));
    let unknown =
        PresentationTransitionStep { transition_id: TransitionId::from_u128(2), ..step(1) };
    assert!(!is_step_of(&transitions[0], unknown));
    assert!(matches!(
        plan_endpoints(&transitions, unknown, Ok(()), 1024),
        Err(EditorPreviewError::TransitionNotFound { .. })
    ));
}

#[test]
fn transition_endpoint_cache_reuses_pixels_across_steps_and_invalidates_revisions() {
    let mut cache: EditorPreviewCache<u8> = EditorPreviewCache::with_limits(2, 1024, 1024);
    let project = ProjectId::from_u128(1);
    let from = FrameId::from_u128(1);
    let first = cache.prepare(project, 1, from, Some(step(1)), [2, 1]).unwrap();
    assert!(cache.release_endpoints(first));
    let surface = || RgbaSurface::new(size(2, 1), vec![0; 8]).unwrap();
    cache.transition_endpoints = Some(CachedTransitionEndpoints {
        project_id: project,
        revision: 1,
        transition: transition(2),
        from: surface(),
        to: surface(),
    });
    let second = cache.prepare(project, 1, from, Some(step(2)), [2, 1]).unwrap();
    assert!(!cache.release_endpoints(second));
    assert!(cache.transition_endpoints.is_some());
    let later = cache.prepare(project, 2, from, Some(step(2)), [2, 1]).unwrap();
    assert!(cache.release_endpoints(later));
    assert!(cache.transition_endpoints.is_none());
}

#[test]
fn caches_have_their_usual_size() {
    let cache: EditorPreviewCache<u8> = EditorPreviewCache::new();
    assert_eq!(cache.cache.max_entries, DEFAULT_CACHE_ENTRIES);
    assert_eq!(cache.cache.max_bytes, DEFAULT_CACHE_BYTES);
    assert_eq!(cache.render_surface_limit_bytes, MAX_RENDER_SURFACE_BYTES);
    assert_eq!(DEFAULT_CACHE_BYTES, 64 * 1024 * 1024);
    assert_eq!(MAX_RENDER_SURFACE_BYTES, 512 * 1024 * 1024);
}

#[test]
fn preview_frames_are_found_with_their_time() {
    let mut project = project();
    let second = FrameId::from_u128(2);
    assert_eq!(
        locate_preview_frame(&project, second).unwrap(),
        (1, TimeUs::new(10_000))
    );
    assert!(matches!(
        locate_preview_frame(&project, FrameId::from_u128(3)),
        Err(EditorPreviewError::FrameNotFound { .. })
    ));
    project.timeline.frames.insert(0, frame(9, u64::MAX));
    assert!(matches!(
        locate_preview_frame(&project, second),
        Err(EditorPreviewError::FrameTimeOverflow { .. })
    ));
}
