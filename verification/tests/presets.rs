use gif_editor::export_presets::{
    is_longer, EditorExportSettings, ExportDitherChoice, ExportFrameScope, ExportLoopChoice,
    ExportPaletteChoice, ExportQuantizerChoice, GifExportPreset, GifLoop, GifPaletteStrategy,
    GifPresetOptions, PresetNotice,
};
use gif_editor::presets::{
    apply_preset_command, confirm_preset_edit, delete_export_preset, finish_preset_action,
    load_selected_preset, name_to_check, plan_preset_action, presets_after, rename_export_preset,
    save_export_preset, NamedPreset, PresetAction, PresetChecks, PresetCommand, PresetUiState,
};

fn settings() -> EditorExportSettings {
    EditorExportSettings {
        frame_scope: ExportFrameScope::Selected,
        max_colors: 256,
        palette: ExportPaletteChoice::Global,
        quantizer: ExportQuantizerChoice::Custom,
        custom_palette_text: "#111111, #ACDC42\n#fedcba".to_owned(),
        custom_transparency_enabled: true,
        custom_transparent_index: 2,
        dither: ExportDitherChoice::BlueNoise,
        delta: true,
        alpha_threshold: 128,
        loop_choice: ExportLoopChoice::Finite,
        finite_loop_count: 17,
        overwrite: true,
    }
}

fn plain_settings() -> EditorExportSettings {
    EditorExportSettings {
        frame_scope: ExportFrameScope::All,
        max_colors: 256,
        palette: ExportPaletteChoice::Local,
        quantizer: ExportQuantizerChoice::MedianCut,
        custom_palette_text: String::new(),
        custom_transparency_enabled: false,
        custom_transparent_index: 0,
        dither: ExportDitherChoice::Off,
        delta: true,
        alpha_threshold: 128,
        loop_choice: ExportLoopChoice::Infinite,
        finite_loop_count: 1,
        overwrite: false,
    }
}

fn defaults() -> GifPresetOptions {
    GifPresetOptions {
        version: 1,
        frame_scope: ExportFrameScope::All,
        quantizer: ExportQuantizerChoice::MedianCut,
        dither: ExportDitherChoice::Off,
        delta: true,
        custom_palette_text: String::new(),
        custom_transparency_enabled: false,
        custom_transparent_index: 0,
        finite_loop_count: 1,
    }
}

fn checks() -> PresetChecks {
    PresetChecks { name: Ok(()), preset: Ok(()) }
}

fn preset<'a>(presets: &'a [NamedPreset], name: &str) -> Option<&'a GifExportPreset> {
    presets.iter().find(|preset| preset.name == name).map(|preset| &preset.preset)
}

/// What exporting says of the written palette: six digits for each colour.
fn buildable(settings: &EditorExportSettings) -> Result<(), String> {
    let readable = settings
        .custom_palette_text
        .split([',', '\n'])
        .map(str::trim)
        .all(|color| color.len() == 7 && color.starts_with('#'));
    if readable {
        Ok(())
    } else {
        Err("unreadable palette".to_owned())
    }
}

fn apply_preset_action(
    action: PresetAction,
    state: &mut PresetUiState,
    settings: &mut EditorExportSettings,
    presets: &mut Vec<NamedPreset>,
) -> Result<PresetNotice, PresetNotice> {
    if action == PresetAction::Load {
        return load_selected_preset(state, settings, presets, &defaults(), Ok(()), Ok(()));
    }
    let edit =
        plan_preset_action(action, state, settings, presets, buildable(settings), &checks())?;
    let candidate = edit.candidate.clone();
    let commands = confirm_preset_edit(edit, Ok(()))?;
    *presets = presets_after(presets, &commands);
    assert_eq!(candidate.is_some(), action != PresetAction::Delete);
    if let Some(checked) = candidate {
        assert_eq!(&checked, presets);
    }
    finish_preset_action(action, state, Ok(()))
}

fn named(name: &str) -> PresetUiState {
    PresetUiState { selected: String::new(), name: name.to_owned() }
}

#[test]
fn all_quantizers_and_dithers_round_trip_every_gui_option_without_overwrite() {
    for quantizer in [
        ExportQuantizerChoice::MedianCut,
        ExportQuantizerChoice::Octree,
        ExportQuantizerChoice::Wu,
        ExportQuantizerChoice::Grayscale,
        ExportQuantizerChoice::MostUsed,
        ExportQuantizerChoice::NeuQuant,
        ExportQuantizerChoice::WebSafe216,
        ExportQuantizerChoice::Windows16,
        ExportQuantizerChoice::Monochrome,
        ExportQuantizerChoice::Custom,
    ] {
        for dither in [
            ExportDitherChoice::Off,
            ExportDitherChoice::Bayer,
            ExportDitherChoice::Dotted,
            ExportDitherChoice::BlueNoise,
            ExportDitherChoice::InterleavedNoise,
            ExportDitherChoice::FloydSteinberg,
            ExportDitherChoice::Atkinson,
            ExportDitherChoice::Burkes,
            ExportDitherChoice::Sierra,
            ExportDitherChoice::SierraLite,
            ExportDitherChoice::TwoRowSierra,
            ExportDitherChoice::JarvisJudiceNinke,
            ExportDitherChoice::Stucki,
            ExportDitherChoice::StevensonArce,
        ] {
            let original = EditorExportSettings { quantizer, dither, ..settings() };
            let preset = original.export_preset(Ok(()), Ok(())).unwrap();
            let mut restored = EditorExportSettings { overwrite: true, ..plain_settings() };
            restored.load_export_preset(&preset, &defaults(), Ok(()), Ok(())).unwrap();
            assert_eq!(restored, EditorExportSettings { overwrite: false, ..original });
        }
    }
}

#[test]
fn ui_actions_save_update_rename_delete_and_undo_survive_project_recovery() {
    let mut presets: Vec<NamedPreset> = Vec::new();
    let mut settings = settings();
    let mut state = named("Demo");
    apply_preset_action(PresetAction::SaveNew, &mut state, &mut settings, &mut presets).unwrap();
    assert_eq!(state.selected, "Demo");
    settings.dither = ExportDitherChoice::Stucki;
    apply_preset_action(PresetAction::Update, &mut state, &mut settings, &mut presets).unwrap();
    state.name = "Share".to_owned();
    apply_preset_action(PresetAction::Rename, &mut state, &mut settings, &mut presets).unwrap();
    let renamed = presets.clone();
    assert!(preset(&renamed, "Demo").is_none());
    assert!(preset(&renamed, "Share").is_some());
    apply_preset_action(PresetAction::Delete, &mut state, &mut settings, &mut presets).unwrap();
    assert!(presets.is_empty());
    let mut reopened = renamed;
    state.selected = "Share".to_owned();
    settings = plain_settings();
    apply_preset_action(PresetAction::Load, &mut state, &mut settings, &mut reopened).unwrap();
    assert_eq!(settings.dither, ExportDitherChoice::Stucki);
    assert_eq!(settings.quantizer, ExportQuantizerChoice::Custom);
    assert_eq!(settings.custom_transparent_index, 2);
    assert!(!settings.overwrite);
}

#[test]
fn invalid_save_colliding_names_and_failed_load_leave_state_unchanged() {
    let mut presets: Vec<NamedPreset> = Vec::new();
    let mut settings = settings();
    let mut state = named("Demo");
    apply_preset_action(PresetAction::SaveNew, &mut state, &mut settings, &mut presets).unwrap();
    let original = presets.clone();
    assert!(
        apply_preset_action(PresetAction::SaveNew, &mut state, &mut settings, &mut presets).is_err()
    );
    assert!(rename_export_preset(&presets, &"Demo".to_owned(), "Demo", &checks()).is_err());
    settings.custom_palette_text = "#BAD".to_owned();
    assert!(
        apply_preset_action(PresetAction::Update, &mut state, &mut settings, &mut presets).is_err()
    );
    assert_eq!(presets, original);
    let mut unsupported = preset(&original, "Demo").unwrap().clone();
    unsupported.palette = GifPaletteStrategy::Adaptive;
    let before = settings.clone();
    assert!(settings.load_export_preset(&unsupported, &defaults(), Ok(()), Ok(())).is_err());
    assert_eq!(settings, before);
}

#[test]
fn older_presets_load_explicit_defaults_and_infinite_preserves_remembered_count() {
    let legacy = GifExportPreset {
        colors: 17,
        palette: GifPaletteStrategy::PerFrame,
        repeat: GifLoop::Finite(3),
        alpha_threshold: 8,
        options: None,
    };
    let mut settings = settings();
    settings.load_export_preset(&legacy, &defaults(), Ok(()), Ok(())).unwrap();
    assert_eq!(settings.max_colors, 17);
    assert_eq!(settings.palette, ExportPaletteChoice::Local);
    assert_eq!(settings.finite_loop_count, 3);
    assert_eq!(settings.quantizer, ExportQuantizerChoice::MedianCut);
    assert_eq!(settings.dither, ExportDitherChoice::Off);
    settings.loop_choice = ExportLoopChoice::Infinite;
    settings.finite_loop_count = 42;
    let preset = settings.export_preset(Ok(()), Ok(())).unwrap();
    settings.finite_loop_count = 1;
    settings.load_export_preset(&preset, &defaults(), Ok(()), Ok(())).unwrap();
    assert_eq!(settings.loop_choice, ExportLoopChoice::Infinite);
    assert_eq!(settings.finite_loop_count, 42);
}

#[test]
fn real_save_load_delete_receipts_switch_language_without_changing_user_names_or_options() {
    let mut presets: Vec<NamedPreset> = Vec::new();
    let original = settings();
    let mut settings = original.clone();
    let name = "用户 {name}";
    let mut state = named(name);
    let saved =
        apply_preset_action(PresetAction::SaveNew, &mut state, &mut settings, &mut presets);
    assert_eq!(saved, Ok(PresetNotice::Saved(name.to_owned())));
    assert_eq!(state.name, name);
    assert_eq!(state.selected, name);
    assert_eq!(settings, original);
    let stored = preset(&presets, name).unwrap();
    assert_eq!(stored.options.as_ref().unwrap().custom_palette_text, original.custom_palette_text);

    let before = presets.clone();
    settings.dither = ExportDitherChoice::Atkinson;
    let loaded = apply_preset_action(PresetAction::Load, &mut state, &mut settings, &mut presets);
    assert_eq!(loaded, Ok(PresetNotice::Loaded(name.to_owned())));
    assert_eq!(settings, EditorExportSettings { overwrite: false, ..original });
    assert_eq!(presets, before);
    assert_eq!(state.selected, name);

    let before_delete = settings.clone();
    let deleted =
        apply_preset_action(PresetAction::Delete, &mut state, &mut settings, &mut presets);
    assert_eq!(deleted, Ok(PresetNotice::Deleted));
    assert!(state.selected.is_empty());
    assert!(presets.is_empty());
    assert_eq!(settings, before_delete);
}

#[test]
fn no_selection_and_legacy_adaptive_errors_relocalize_without_mutating_settings_or_project() {
    let mut presets: Vec<NamedPreset> = Vec::new();
    let mut settings = settings();
    let original = settings.clone();
    let mut state = named("");
    let missing = apply_preset_action(PresetAction::Load, &mut state, &mut settings, &mut presets);
    assert_eq!(missing, Err(PresetNotice::SelectFirst));
    assert_eq!(settings, original);
    let mut legacy = settings.export_preset(Ok(()), Ok(())).unwrap();
    legacy.palette = GifPaletteStrategy::Adaptive;
    let edit =
        save_export_preset(&presets, "旧预设 {name}", legacy, false, &checks()).unwrap();
    presets = apply_preset_command(&presets, &edit.commands[0]);
    state.selected = "旧预设 {name}".to_owned();
    let before = presets.clone();
    let unsupported =
        apply_preset_action(PresetAction::Load, &mut state, &mut settings, &mut presets);
    assert_eq!(unsupported, Err(PresetNotice::AdaptiveUnsupported));
    assert_eq!(presets, before);
    assert_eq!(settings, original);
    assert!(settings.overwrite, "a rejected load must not change the current permission");
    assert_eq!(state.selected, "旧预设 {name}");
}

#[test]
fn preset_palette_limit_remains_4096_bytes_and_failure_notice_changes_language_later() {
    let mut presets: Vec<NamedPreset> = Vec::new();
    let mut settings = settings();
    settings.custom_palette_text = format!("{:<4096}", "#000000,#FFFFFF");
    settings.custom_transparent_index = 0;
    assert_eq!(settings.custom_palette_text.len(), 4096);
    let mut state = named("最大文本");
    let saved =
        apply_preset_action(PresetAction::SaveNew, &mut state, &mut settings, &mut presets);
    assert!(saved.is_ok());
    let before = presets.clone();
    settings.custom_palette_text.push(' ');
    let original = settings.clone();
    let too_large =
        apply_preset_action(PresetAction::Update, &mut state, &mut settings, &mut presets);
    assert_eq!(too_large, Err(PresetNotice::PaletteLimit));
    assert_eq!(presets, before);
    assert_eq!(settings, original);
    assert_eq!(state.selected, "最大文本");
    assert!(settings.overwrite);
}

#[test]
fn lengths_of_text_count_bytes() {
    for text in ["", "a", "é", "文", "😀", "a文😀é"] {
        assert!(!is_longer(text, text.len()));
        if !text.is_empty() {
            assert!(is_longer(text, text.len() - 1));
        }
    }
}

#[test]
fn refusals_of_the_project_stop_every_change() {
    let stored = settings().export_preset(Ok(()), Ok(())).unwrap();
    let presets = vec![NamedPreset { name: "Demo".to_owned(), preset: stored.clone() }];
    for (checks, message) in [
        (PresetChecks { name: Err("name".to_owned()), preset: Ok(()) }, "name"),
        (PresetChecks { name: Ok(()), preset: Err("preset".to_owned()) }, "preset"),
    ] {
        assert_eq!(
            save_export_preset(&presets, " New ", stored.clone(), false, &checks),
            Err(message.to_owned())
        );
    }
    let edit = save_export_preset(&presets, " New ", stored.clone(), false, &checks()).unwrap();
    assert_eq!(
        confirm_preset_edit(edit, Err("all".to_owned())),
        Err(PresetNotice::Told("all".to_owned()))
    );
    assert_eq!(
        save_export_preset(&presets, " Demo ", stored.clone(), false, &checks()),
        Err("That preset already exists; use Update selected to replace it.".to_owned())
    );
    assert_eq!(
        save_export_preset(&presets, "Gone", stored, true, &checks()),
        Err("The selected preset no longer exists.".to_owned())
    );
    assert_eq!(
        rename_export_preset(&presets, &"Gone".to_owned(), "Other", &checks()),
        Err("The selected preset no longer exists.".to_owned())
    );
    assert_eq!(
        rename_export_preset(&presets, &"Gone".to_owned(), "Demo", &checks()),
        Err("That name already belongs to another preset.".to_owned())
    );
    assert_eq!(
        rename_export_preset(&presets, &"Demo".to_owned(), " Demo ", &checks()),
        Err("Choose a different preset name.".to_owned())
    );
    assert_eq!(
        delete_export_preset(&presets, &"Gone".to_owned()),
        Err("The selected preset no longer exists.".to_owned())
    );
}

#[test]
fn a_refused_change_keeps_the_chosen_preset() {
    let mut state = PresetUiState { selected: "Demo".to_owned(), name: "New".to_owned() };
    assert_eq!(
        finish_preset_action(PresetAction::Rename, &mut state, Err("full".to_owned())),
        Err(PresetNotice::Told("full".to_owned()))
    );
    assert_eq!(state.selected, "Demo");
    state.reconcile(&Vec::new());
    assert_eq!(state.selected, "");
    assert_eq!(state.name, "New");
}

#[test]
fn the_presets_to_check_have_the_edit_in_them() {
    let named_preset = |name: &str, colors: u16| {
        let mut preset = settings().export_preset(Ok(()), Ok(())).unwrap();
        preset.colors = colors;
        NamedPreset { name: name.to_owned(), preset }
    };
    let presets = vec![named_preset("A", 16), named_preset("B", 32)];
    let saved =
        save_export_preset(&presets, " C ", named_preset("", 64).preset, false, &checks()).unwrap();
    assert_eq!(
        saved.candidate,
        Some(vec![named_preset("A", 16), named_preset("B", 32), named_preset("C", 64)])
    );
    let updated =
        save_export_preset(&presets, "A", named_preset("", 64).preset, true, &checks()).unwrap();
    assert_eq!(updated.candidate, Some(vec![named_preset("B", 32), named_preset("A", 64)]));
    let renamed = rename_export_preset(&presets, &"A".to_owned(), " Z ", &checks()).unwrap();
    assert_eq!(renamed.candidate, Some(vec![named_preset("B", 32), named_preset("Z", 16)]));
    assert_eq!(
        renamed.commands,
        [
            PresetCommand::Remove("A".to_owned()),
            PresetCommand::Upsert(named_preset("Z", 16)),
        ]
    );
    assert_eq!(presets_after(&presets, &renamed.commands), renamed.candidate.clone().unwrap());
    assert_eq!(confirm_preset_edit(renamed.clone(), Ok(())), Ok(renamed.commands.clone()));
    assert_eq!(
        confirm_preset_edit(renamed, Err("too many".to_owned())),
        Err(PresetNotice::Told("too many".to_owned()))
    );
    // A deletion needs no check.
    let state = PresetUiState { selected: " B ".to_owned(), name: " Z ".to_owned() };
    let chosen = PresetUiState { selected: "B".to_owned(), ..state.clone() };
    let deleted =
        plan_preset_action(PresetAction::Delete, &chosen, &settings(), &presets, Ok(()), &checks())
            .unwrap();
    assert_eq!(deleted.candidate, None);
    assert_eq!(
        confirm_preset_edit(deleted, Err("unasked".to_owned())),
        Ok(vec![PresetCommand::Remove("B".to_owned())])
    );
    assert_eq!(name_to_check(PresetAction::Update, &state), "B");
    assert_eq!(name_to_check(PresetAction::SaveNew, &state), "Z");
    assert_eq!(name_to_check(PresetAction::Rename, &state), "Z");
}
