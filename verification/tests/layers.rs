use gif_editor::cancel::NeverCancel;
use gif_editor::content::{BlendMode, OverlayContent, Payload};
use gif_editor::conversion_edit::select_conversion;
use gif_editor::geometry::Rgba;
use gif_editor::ids::{OverlayId, TrackId};
use gif_editor::layers::{
    layer_rows, set_overlay_track_visibility, OverlayTrackPagination, OVERLAY_TRACK_PAGE_SIZE,
};
use gif_editor::overlay::{OverlayItem, OverlayTrack};
use gif_editor::project::EditCommand;
use gif_editor::time::{DurationUs, TimeUs, TimelineSpan};

#[test]
fn pagination_ranges_cover_zero_64_65_128_and_129_without_gaps_or_overflow() {
    for total in [0_usize, 1, 64, 65, 128, 129] {
        let mut pagination = OverlayTrackPagination::default();
        let last = total.saturating_sub(1) / OVERLAY_TRACK_PAGE_SIZE;
        let mut covered = Vec::new();
        for page in 0..=last {
            pagination.page = page;
            let range = pagination.range(total);
            assert!(range.len() <= 64);
            assert_eq!(range.start, page * 64);
            covered.extend(range);
        }
        assert_eq!(covered, (0..total).collect::<Vec<_>>());
        pagination.page = usize::MAX;
        pagination.clamp(total);
        assert_eq!(pagination.page, last);
        assert_eq!(pagination.range(total).end, total);
    }
    let mut pagination =
        OverlayTrackPagination { page: usize::MAX, ..OverlayTrackPagination::default() };
    pagination.clamp(usize::MAX);
    assert_eq!(pagination.range(usize::MAX).end, usize::MAX);
}

fn span(start: u64, duration: u64) -> TimelineSpan {
    TimelineSpan { start: TimeUs::new(start), duration: DurationUs::new(duration).unwrap() }
}

fn track(id: u128) -> OverlayTrack {
    OverlayTrack {
        id: TrackId::from_u128(id),
        frame_cells: None,
        annotation: None,
        annotation_scope: None,
        name: format!("Layer name {id}"),
        visible: true,
        opacity: 255,
        blend_mode: BlendMode::Normal,
        items: vec![OverlayItem {
            id: OverlayId::from_u128(id + 1_000),
            span: span(0, 10),
            z_index: 0,
            content: OverlayContent::Drawing {
                points: Vec::new(),
                width: 3,
                color: Rgba { red: 1, green: 2, blue: 3, alpha: 4 },
            },
        }],
    }
}

#[test]
fn rows_show_the_layers_of_their_page() {
    let tracks: Vec<OverlayTrack> = (1..=65).map(track).collect();
    let mut pagination = OverlayTrackPagination::default();
    assert_eq!(layer_rows(&tracks, pagination).len(), 64);
    pagination.next_page(tracks.len());
    let rows = layer_rows(&tracks, pagination);
    assert_eq!(rows.len(), 1);
    assert_eq!(rows[0].id, TrackId::from_u128(65));
    assert_eq!(
        rows[0].label,
        "Layer 65 \u{b7} Layer name 65 \u{b7} Drawing \u{b7} 1 item(s) \u{b7} Time-anchored"
    );
    assert!(rows[0].visible && rows[0].can_attach);
    pagination.next_page(tracks.len());
    assert_eq!(pagination.page, 1);
    pagination.previous_page();
    pagination.previous_page();
    assert_eq!(pagination.page, 0);
}

#[test]
fn project_change_resets_pagination_even_when_a_copied_project_reuses_its_id() {
    let mut pagination = OverlayTrackPagination::default();
    pagination.reconcile(1, 65);
    pagination.next_page(65);
    pagination.reconcile(1, 65);
    assert_eq!(pagination.page, 1);
    pagination.reconcile(2, 129);
    assert_eq!(pagination.page, 0);
    pagination.page = usize::MAX;
    pagination.reconcile(3, 0);
    assert_eq!(pagination.range(0), 0..0);
    assert_eq!(pagination.page, 0);
}

#[test]
fn removing_the_last_page_clamps_and_undo_redo_keeps_all_layers_reachable() {
    let mut pagination = OverlayTrackPagination::default();
    pagination.reconcile(1, 129);
    pagination.next_page(129);
    pagination.next_page(129);
    assert_eq!(pagination.label(129), "Layers 129–129 of 129 · Page 3 / 3");
    pagination.reconcile(1, 128);
    assert_eq!(pagination.page, 1);
    pagination.reconcile(1, 129);
    pagination.next_page(129);
    assert_eq!(pagination.page, 2);
    pagination.reconcile(1, 128);
    assert_eq!(pagination.page, 1);
    assert_eq!(pagination.label(128), "Layers 65–128 of 128 · Page 2 / 2");
    pagination.next_page(128);
    assert_eq!(pagination.page, 1);
}

#[test]
fn hiding_a_layer_keeps_everything_else_of_it() {
    let tracks = vec![track(1), track(2)];
    assert_eq!(set_overlay_track_visibility(&tracks, TrackId::from_u128(2), true), Ok(None));
    let mut hidden = track(2);
    hidden.visible = false;
    assert_eq!(
        set_overlay_track_visibility(&tracks, TrackId::from_u128(2), false),
        Ok(Some(EditCommand::UpsertOverlayTrack { track: hidden }))
    );
    assert_eq!(
        set_overlay_track_visibility(&tracks, TrackId::from_u128(3), false),
        Err("The overlay track no longer exists.".to_owned())
    );
}

#[test]
fn attach_button_emits_a_request_without_changing_pixels_scope_or_revision() {
    let tracks = vec![track(1)];
    let rows = layer_rows(&tracks, OverlayTrackPagination::default());
    assert!(rows[0].can_attach);
    assert_eq!(select_conversion(&tracks, rows[0].id, true, &NeverCancel), Ok(0));
    assert_eq!(tracks, vec![track(1)]);
}

#[test]
fn unknown_legacy_authoring_scope_cannot_be_silently_inferred_from_visible_items() {
    let mut legacy = track(1);
    legacy.annotation = Some(Payload { bytes: b"keys".to_vec() });
    let tracks = vec![legacy];
    let rows = layer_rows(&tracks, OverlayTrackPagination::default());
    assert!(!rows[0].can_attach);
    assert!(select_conversion(&tracks, rows[0].id, true, &NeverCancel)
        .unwrap_err()
        .contains("original authoring scope is unknown"));
}

#[test]
fn visibility_buttons_preserve_layer_content_and_roundtrip_through_undo_and_reopen() {
    let mut tracks = vec![track(1), track(2)];
    let before = tracks.clone();
    let id = tracks[0].id;
    for visible in [false, true, false] {
        match set_overlay_track_visibility(&tracks, id, visible) {
            Ok(Some(EditCommand::UpsertOverlayTrack { track })) => tracks[0] = track,
            other => panic!("no edit: {other:?}"),
        }
        let mut expected = before.clone();
        expected[0].visible = visible;
        assert_eq!(tracks, expected);
        assert_eq!(layer_rows(&tracks, OverlayTrackPagination::default())[0].visible, visible);
    }
    assert_eq!(set_overlay_track_visibility(&tracks, id, false), Ok(None));
    assert!(set_overlay_track_visibility(&tracks, TrackId::from_u128(999), true).is_err());
}

#[test]
fn sixty_fifth_layer_hide_attach_and_remove_target_only_its_stable_identity() {
    let mut tracks: Vec<OverlayTrack> = (1..=65).map(track).collect();
    let mut pagination = OverlayTrackPagination::default();
    pagination.reconcile(1, tracks.len());
    pagination.next_page(tracks.len());
    assert_eq!(pagination.page, 1);
    assert_eq!(pagination.label(tracks.len()), "Layers 65–65 of 65 · Page 2 / 2");
    let rows = layer_rows(&tracks, pagination);
    assert_eq!(rows.len(), 1);
    assert_eq!(rows[0].id, TrackId::from_u128(65));
    let mut expected = track(65);
    expected.visible = false;
    assert_eq!(
        set_overlay_track_visibility(&tracks, rows[0].id, false),
        Ok(Some(EditCommand::UpsertOverlayTrack { track: expected }))
    );
    assert!(rows[0].can_attach);
    assert_eq!(select_conversion(&tracks, rows[0].id, true, &NeverCancel), Ok(64));
    tracks.pop();
    pagination.reconcile(1, tracks.len());
    assert_eq!(pagination.page, 0);
}
