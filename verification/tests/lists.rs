use gif_editor::frames::{CaptureBinding, CaptureMetadata, ClipTransform, FrameClip};
use gif_editor::geometry::{GeometryError, PhysicalRect, PhysicalSize};
use gif_editor::identity::{draw, first_free, fresh_number};
use gif_editor::ids::{AssetId, FrameId};
use gif_editor::layout::InspectorLayout;
use gif_editor::text::{append_decimal, append_padded, characters, is_white_space, number_in, trim};
use gif_editor::time::{DurationUs, TimeUs};
use gif_editor::ui_lists::{
    clipboard_entry_label, editor_summary, frame_card, statistic_rows, stroke_label,
    stroke_limit_label, CurrentFrameStatistics, EditorStatistics, EditorSummary,
};
use gif_editor::ui_state::DrawingOverlayDraft;

#[test]
fn summaries_tell_what_is_pending() {
    let counts = EditorSummary {
        frames: 4,
        selected: 2,
        clipboard: 3,
        snapshots: 1,
        dirty: false,
        asset_issues: 0,
    };
    assert_eq!(
        editor_summary(counts),
        ["4 frames", "2 selected", "Clipboard: 3 frame(s) in 1 snapshot(s)"]
    );
    let pending = editor_summary(EditorSummary { dirty: true, asset_issues: 5, ..counts });
    assert_eq!(pending[3], "Journaled · checkpoint pending");
    assert_eq!(pending[4], "5 asset issue(s)");
    assert_eq!(clipboard_entry_label(7, 2, Some(1_500_000)), "#7 · 2 frame(s) · 1.500000 s");
    assert_eq!(clipboard_entry_label(7, 2, None), "#7 · 2 frame(s) · duration overflow");
}

#[test]
fn statistics_show_every_count() {
    let counts = EditorStatistics {
        frame_count: 4,
        selected_frame_count: 1,
        canvas: PhysicalSize::new(640, 480).unwrap(),
        total_duration_us: 100,
        selection_duration_us: 40,
        minimum_delay_us: Some(10),
        maximum_delay_us: Some(40),
        average_delay_us: None,
        unique_asset_count: 3,
        asset_descriptor_bytes: 1_234,
        current_frame: None,
    };
    let rows = statistic_rows(&counts);
    let shown: Vec<(&str, &str)> =
        rows.iter().map(|row| (row.label.as_ref(), row.value.as_ref())).collect();
    assert_eq!(shown[0], ("Frames", "4"));
    assert!(shown.contains(&("Canvas", "640 × 480")));
    assert!(shown.contains(&("Maximum delay", "0.000040 s")));
    assert!(shown.contains(&("Average delay", "None")));
    let with_current = statistic_rows(&EditorStatistics {
        current_frame: Some(CurrentFrameStatistics {
            frame_number: 2,
            start_us: 1_000_000,
            duration_us: 20_000,
        }),
        ..counts
    });
    assert_eq!(with_current.len(), rows.len());
    assert!(with_current
        .iter()
        .any(|row| row.value == "#2 · start 1.000000 s · delay 0.020000 s"));
}

#[test]
fn cards_show_number_and_delay() {
    let frame = |id: u128, duration: u64| FrameClip {
        id: FrameId::from_u128(id),
        asset_id: AssetId { high: 0, low: 1 },
        duration: DurationUs::new(duration).unwrap(),
        transform: ClipTransform::none(),
        capture_metadata: CaptureMetadata::empty(),
        capture_clock: None,
        capture_binding: CaptureBinding::Original,
        effects: Vec::new(),
        render_steps: Vec::new(),
    };
    let frames = [frame(1, 100_000), frame(2, 33_334)];
    let card = frame_card(&frames, 1, &vec![FrameId::from_u128(2)], Some(FrameId::from_u128(1)));
    assert_eq!(card.frame_id, FrameId::from_u128(2));
    assert!(card.is_selected && !card.is_current);
    assert_eq!(card.delay, "33.334 ms");
    assert_eq!(card.label, "Frame 2 · 33334 µs");
    assert_eq!(card.number, "Frame 2");
    let mut draft = DrawingOverlayDraft::default();
    draft.begin();
    assert_eq!(stroke_label(&draft), "0 point(s)");
    assert_eq!(stroke_limit_label(), "Stroke stopped at the 4096-point safety limit.");
}

#[test]
fn white_space_is_what_the_standard_library_takes_for_it() {
    for code in 0..=0x1_1000_u32 {
        if let Some(c) = char::from_u32(code) {
            assert_eq!(is_white_space(c), c.is_whitespace(), "{code:x}");
        }
    }
    for text in ["", "  ", " a b ", "\u{2003}x\u{2029}", "no"] {
        assert_eq!(trim(text), text.trim());
    }
}

#[test]
fn written_numbers_read_back() {
    for number in [0, 9, 10, 1_234_567, u64::MAX] {
        let mut written = String::new();
        append_decimal(&mut written, number);
        assert_eq!(written, number.to_string());
        let list = characters(&written);
        assert_eq!(number_in(&list, 0, u64::MAX as i128), Ok(i128::from(number)));
    }
    let mut padded = String::new();
    append_padded(&mut padded, 42, 6);
    assert_eq!(padded, "000042");
}

#[test]
fn rectangles_stay_within_range() {
    assert_eq!(PhysicalSize::new(0, 1), Err(GeometryError::Empty));
    assert_eq!(PhysicalRect::new(u32::MAX, 0, 1, 1), Err(GeometryError::OutOfRange));
    let rect = PhysicalRect::new(1, 2, 3, 4).unwrap();
    assert!(rect.fits_within(PhysicalSize::new(4, 6).unwrap()));
    assert!(!rect.fits_within(PhysicalSize::new(4, 5).unwrap()));
}

#[test]
fn times_add_up_or_overflow() {
    let second = DurationUs::new(1_000_000).unwrap();
    assert_eq!(
        TimeUs::new(5).checked_add_duration(second),
        Some(TimeUs::new(1_000_005))
    );
    assert_eq!(TimeUs::new(u64::MAX).checked_add_duration(second), None);
    assert_eq!(DurationUs::new(0), None);
    assert_eq!(InspectorLayout::SideBySide.columns(), 2);
    assert_eq!(InspectorLayout::Stacked.columns(), 1);
}

#[test]
fn drawn_numbers_have_the_layout_of_a_random_uuid() {
    let first = draw();
    let second = draw();
    for value in [first, second] {
        assert_eq!((value >> 76) & 0xF, 4);
        assert_eq!((value >> 62) & 0x3, 2);
    }
    assert_ne!(first, second);
}

#[test]
fn a_taken_number_gives_way_to_the_next_of_its_layout() {
    let start = 0x0123_4567_89AB_4CDE_BFFF_FFFF_FFFF_FFFF_u128;
    assert_eq!(first_free(&Vec::new(), start), start);
    // The next number carries over the variant bits.
    let next = 0x0123_4567_89AB_4CDF_8000_0000_0000_0000_u128;
    assert_eq!(first_free(&vec![start], start), next);
    assert_eq!(first_free(&vec![next, start], start), next + 1);
    // After the last number of the layout comes the first.
    let last = 0xFFFF_FFFF_FFFF_4FFF_BFFF_FFFF_FFFF_FFFF_u128;
    let first = 0x0000_0000_0000_4000_8000_0000_0000_0000_u128;
    assert_eq!(first_free(&vec![last], last), first);
    let mut used = vec![start, next];
    for _ in 0..8 {
        let value = fresh_number(&used);
        assert!(!used.contains(&value));
        assert_eq!((value >> 76) & 0xF, 4);
        assert_eq!((value >> 62) & 0x3, 2);
        used.push(value);
    }
}
