//! The presets of a project, and what is done with them.
use crate::export_presets;
use crate::export_presets::{EditorExportSettings, GifExportPreset, GifPresetOptions, NoticeView, PresetNotice, PresetView};
use crate::text;
use crate::text::trim;
use vstd::prelude::*;
use vstd::string::{StrSliceExecFns, StringExecFns};

verus! {

/// A preset under its name.
#[derive(Clone, Debug, PartialEq, Eq)]
pub struct NamedPreset {
    /// The name.
    pub name: String,
    /// The preset.
    pub preset: GifExportPreset,
}

/// What a [`NamedPreset`] says.
pub struct NamedView {
    /// The name.
    pub name: Seq<char>,
    /// The preset.
    pub preset: PresetView,
}

impl View for NamedPreset {
    type V = NamedView;

    open spec fn view(&self) -> NamedView {
        NamedView { name: self.name@, preset: self.preset@ }
    }
}

/// What a list of presets says.
pub open spec fn preset_views(presets: Seq<NamedPreset>) -> Seq<NamedView> {
    Seq::new(presets.len(), |i: int| presets[i]@)
}

/// The preset of a name.
pub open spec fn preset_named(presets: Seq<NamedView>, name: Seq<char>) -> Option<PresetView>
    decreases presets.len(),
{
    if presets.len() == 0 {
        None
    } else if presets[0].name == name {
        Some(presets[0].preset)
    } else {
        preset_named(presets.drop_first(), name)
    }
}

/// The presets but for those of a name.
pub open spec fn without_named(presets: Seq<NamedView>, name: Seq<char>) -> Seq<NamedView>
    decreases presets.len(),
{
    if presets.len() == 0 {
        presets
    } else {
        let rest = without_named(presets.drop_last(), name);
        if presets.last().name == name {
            rest
        } else {
            rest.push(presets.last())
        }
    }
}

/// A change of the presets.
#[derive(Clone, Debug, PartialEq, Eq)]
pub enum PresetCommand {
    /// Adds a preset or replaces the one of its name.
    Upsert(NamedPreset),
    /// Removes the preset of a name.
    Remove(String),
}

/// What a [`PresetCommand`] does.
pub enum ChangeView {
    /// Adds a preset or replaces the one of its name.
    Upsert(NamedView),
    /// Removes the preset of a name.
    Remove(Seq<char>),
}

impl View for PresetCommand {
    type V = ChangeView;

    open spec fn view(&self) -> ChangeView {
        match *self {
            PresetCommand::Upsert(preset) => ChangeView::Upsert(preset@),
            PresetCommand::Remove(name) => ChangeView::Remove(name@),
        }
    }
}

/// What a list of changes does.
pub open spec fn change_views(commands: Seq<PresetCommand>) -> Seq<ChangeView> {
    Seq::new(commands.len(), |i: int| commands[i]@)
}

/// The presets after a change.
pub open spec fn changed(presets: Seq<NamedView>, change: ChangeView) -> Seq<NamedView> {
    match change {
        ChangeView::Upsert(preset) => without_named(presets, preset.name).push(preset),
        ChangeView::Remove(name) => without_named(presets, name),
    }
}

/// The presets after changes, one after the other.
pub open spec fn all_changed(presets: Seq<NamedView>, changes: Seq<ChangeView>) -> Seq<NamedView>
    decreases changes.len(),
{
    if changes.len() == 0 {
        presets
    } else {
        changed(all_changed(presets, changes.drop_last()), changes.last())
    }
}

proof fn lemma_named_push(presets: Seq<NamedView>, added: NamedView, name: Seq<char>)
    ensures
        preset_named(presets.push(added), name) == (match preset_named(presets, name) {
            Some(preset) => Some(preset),
            None => if added.name == name {
                Some(added.preset)
            } else {
                None
            },
        }),
    decreases presets.len(),
{
    let more = presets.push(added);
    if presets.len() == 0 {
        assert(more.drop_first() =~= Seq::empty());
        assert(preset_named(more.drop_first(), name) is None);
    } else if presets[0].name != name {
        lemma_named_push(presets.drop_first(), added, name);
        assert(more.drop_first() =~= presets.drop_first().push(added));
    }
}

proof fn lemma_without_named(presets: Seq<NamedView>, gone: Seq<char>, name: Seq<char>)
    ensures
        preset_named(without_named(presets, gone), name) == (if name == gone {
            None
        } else {
            preset_named(presets, name)
        }),
    decreases presets.len(),
{
    if presets.len() > 0 {
        let front = presets.drop_last();
        lemma_without_named(front, gone, name);
        lemma_named_push(front, presets.last(), name);
        lemma_named_push(without_named(front, gone), presets.last(), name);
        assert(front.push(presets.last()) =~= presets);
    }
}

/// A change makes exactly the preset it is about what it says, and leaves every other as it is.
pub proof fn law_changes_touch_one_preset(presets: Seq<NamedView>, change: ChangeView, name: Seq<char>)
    ensures
        preset_named(changed(presets, change), name) == (match change {
            ChangeView::Upsert(preset) => if name == preset.name {
                Some(preset.preset)
            } else {
                preset_named(presets, name)
            },
            ChangeView::Remove(gone) => if name == gone {
                None
            } else {
                preset_named(presets, name)
            },
        }),
{
    match change {
        ChangeView::Upsert(preset) => {
            lemma_without_named(presets, preset.name, name);
            lemma_named_push(without_named(presets, preset.name), preset, name);
        },
        ChangeView::Remove(gone) => {
            lemma_without_named(presets, gone, name);
        },
    }
}

fn find_preset(presets: &Vec<NamedPreset>, name: &String) -> (at: Option<usize>)
    ensures
        match at {
            Some(i) => i < presets@.len() && preset_named(preset_views(presets@), name@) == Some(
                presets@[i as int].preset@,
            ),
            None => preset_named(preset_views(presets@), name@) is None,
        },
{
    let ghost all = preset_views(presets@);
    let mut at: usize = 0;
    let count: usize = presets.len();
    assert(all.skip(0) =~= all);
    while at < count
        invariant
            at <= count,
            count == presets@.len(),
            all == preset_views(presets@),
            preset_named(all, name@) == preset_named(all.skip(at as int), name@),
        decreases count - at,
    {
        assert(all.skip(at as int)[0] == all[at as int]);
        assert(all.skip(at as int).drop_first() =~= all.skip(at + 1));
        if presets[at].name == *name {
            return Some(at);
        }
        at = at + 1;
    }
    None
}

/// The presets after a change.
pub fn apply_preset_command(presets: &Vec<NamedPreset>, command: &PresetCommand) -> (after: Vec<NamedPreset>)
    ensures
        preset_views(after@) == changed(preset_views(presets@), command@),
{
    let name: &String = match command {
        PresetCommand::Upsert(preset) => &preset.name,
        PresetCommand::Remove(name) => name,
    };
    let ghost all = preset_views(presets@);
    let mut after: Vec<NamedPreset> = Vec::new();
    let mut at: usize = 0;
    assert(preset_views(after@) =~= without_named(all.take(0), name@));
    while at < presets.len()
        invariant
            at <= presets@.len(),
            all == preset_views(presets@),
            preset_views(after@) == without_named(all.take(at as int), name@),
        decreases presets@.len() - at,
    {
        let ghost before = after@;
        assert(all.take(at + 1).drop_last() =~= all.take(at as int));
        if presets[at].name != *name {
            after.push(
                NamedPreset { name: presets[at].name.clone(), preset: presets[at].preset.duplicate() },
            );
            assert(preset_views(after@) =~= preset_views(before).push(all[at as int]));
        }
        at = at + 1;
    }
    assert(all.take(at as int) =~= all);
    match command {
        PresetCommand::Upsert(preset) => {
            let ghost before = after@;
            after.push(NamedPreset { name: preset.name.clone(), preset: preset.preset.duplicate() });
            assert(preset_views(after@) =~= preset_views(before).push(preset@));
        },
        PresetCommand::Remove(_) => {},
    }
    after
}

/// The presets after changes, one after the other.
pub fn presets_after(presets: &Vec<NamedPreset>, commands: &Vec<PresetCommand>) -> (after: Vec<NamedPreset>)
    ensures
        preset_views(after@) == all_changed(preset_views(presets@), change_views(commands@)),
{
    let ghost all = preset_views(presets@);
    let ghost changes = change_views(commands@);
    let mut after: Vec<NamedPreset> = Vec::new();
    let mut at: usize = 0;
    while at < presets.len()
        invariant
            at <= presets@.len(),
            all == preset_views(presets@),
            preset_views(after@) == all.take(at as int),
        decreases presets@.len() - at,
    {
        let ghost before = after@;
        after.push(
            NamedPreset { name: presets[at].name.clone(), preset: presets[at].preset.duplicate() },
        );
        assert(preset_views(after@) =~= preset_views(before).push(all[at as int]));
        assert(preset_views(after@) =~= all.take(at + 1));
        at = at + 1;
    }
    assert(all.take(at as int) =~= all);
    assert(changes.take(0) =~= Seq::empty());
    let mut next: usize = 0;
    while next < commands.len()
        invariant
            next <= commands@.len(),
            changes == change_views(commands@),
            preset_views(after@) == all_changed(all, changes.take(next as int)),
        decreases commands@.len() - next,
    {
        assert(changes.take(next + 1).drop_last() =~= changes.take(next as int));
        after = apply_preset_command(&after, &commands[next]);
        next = next + 1;
    }
    assert(changes.take(next as int) =~= changes);
    after
}

/// What the project's own checks say of the name and of the preset.
#[derive(Debug)]
pub struct PresetChecks {
    /// Of the name.
    pub name: Result<(), String>,
    /// Of the preset.
    pub preset: Result<(), String>,
}

/// An edit of the presets that is still to be confirmed.
#[derive(Clone, Debug, PartialEq, Eq)]
pub struct PresetEdit {
    /// The changes.
    pub commands: Vec<PresetCommand>,
    /// The presets after the changes, where they are to be checked all together.
    pub candidate: Option<Vec<NamedPreset>>,
}

/// What a [`PresetEdit`] does.
pub struct PresetEditView {
    /// The changes.
    pub changes: Seq<ChangeView>,
    /// The presets after the changes, where they are to be checked all together.
    pub candidate: Option<Seq<NamedView>>,
}

impl View for PresetEdit {
    type V = PresetEditView;

    open spec fn view(&self) -> PresetEditView {
        PresetEditView {
            changes: change_views(self.commands@),
            candidate: match self.candidate {
                Some(presets) => Some(preset_views(presets@)),
                None => None,
            },
        }
    }
}

/// Changes with the presets that they lead to, which are to be checked.
pub open spec fn to_be_checked(presets: Seq<NamedView>, changes: Seq<ChangeView>) -> PresetEditView {
    PresetEditView { changes, candidate: Some(all_changed(presets, changes)) }
}

/// Changes that need no check.
pub open spec fn unchecked(changes: Seq<ChangeView>) -> PresetEditView {
    PresetEditView { changes, candidate: None }
}

/// Takes the edit on once all the presets that it leads to were checked (`validity`); one that needs
/// no check is taken on in any case.
pub fn confirm_preset_edit(edit: PresetEdit, validity: Result<(), String>) -> (result: Result<
    Vec<PresetCommand>,
    PresetNotice,
>)
    ensures
        planned(result) == (match (edit@.candidate, validity) {
            (Some(_), Err(message)) => Err(NoticeView::Told(message@)),
            _ => Ok(edit@.changes),
        }),
{
    if edit.candidate.is_some() {
        if let Err(message) = validity {
            return Err(PresetNotice::Told(message));
        }
    }
    Ok(edit.commands)
}

fn copy_check(check: &Result<(), String>) -> (copy: Result<(), String>)
    ensures
        copy == *check,
{
    match check {
        Ok(unit) => Ok(*unit),
        Err(message) => Err(message.clone()),
    }
}

/// What saving a preset changes, or why it cannot be saved.
pub open spec fn saved(
    presets: Seq<NamedView>,
    name: Seq<char>,
    preset: PresetView,
    replace: bool,
    checks: PresetChecks,
) -> Result<Seq<ChangeView>, Seq<char>> {
    let kept = text::trimmed(name);
    let known = preset_named(presets, kept) is Some;
    if checks.name is Err {
        Err(checks.name->Err_0@)
    } else if checks.preset is Err {
        Err(checks.preset->Err_0@)
    } else if !replace && known {
        Err("That preset already exists; use Update selected to replace it."@)
    } else if replace && !known {
        Err("The selected preset no longer exists."@)
    } else {
        Ok(seq![ChangeView::Upsert(NamedView { name: kept, preset })])
    }
}

/// Changes as a result.
pub open spec fn seen_changes(result: Result<Vec<PresetCommand>, String>) -> Result<Seq<ChangeView>, Seq<char>> {
    match result {
        Ok(commands) => Ok(change_views(commands@)),
        Err(message) => Err(message@),
    }
}

/// An edit as a result.
pub open spec fn seen_edit(result: Result<PresetEdit, String>) -> Result<PresetEditView, Seq<char>> {
    match result {
        Ok(edit) => Ok(edit@),
        Err(message) => Err(message@),
    }
}

/// Changes as an edit whose outcome is to be checked, where there are any.
pub open spec fn with_check(presets: Seq<NamedView>, result: Result<Seq<ChangeView>, Seq<char>>) -> Result<
    PresetEditView,
    Seq<char>,
> {
    match result {
        Ok(changes) => Ok(to_be_checked(presets, changes)),
        Err(message) => Err(message),
    }
}

/// Works out what saving a preset changes: a new one, or with `replace` one that exists. The presets
/// that this leads to are to be checked with [`confirm_preset_edit`].
pub fn save_export_preset(
    presets: &Vec<NamedPreset>,
    name: &str,
    preset: GifExportPreset,
    replace: bool,
    checks: &PresetChecks,
) -> (result: Result<PresetEdit, String>)
    ensures
        seen_edit(result) == with_check(
            preset_views(presets@),
            saved(preset_views(presets@), name@, preset@, replace, *checks),
        ),
{
    let kept: String = trim(name).to_owned();
    match &checks.name {
        Ok(_) => {},
        Err(message) => return Err(message.clone()),
    }
    match &checks.preset {
        Ok(_) => {},
        Err(message) => return Err(message.clone()),
    }
    let known: bool = find_preset(presets, &kept).is_some();
    if !replace && known {
        return Err("That preset already exists; use Update selected to replace it.".to_owned());
    }
    if replace && !known {
        return Err("The selected preset no longer exists.".to_owned());
    }
    let command = PresetCommand::Upsert(NamedPreset { name: kept, preset });
    let ghost change = command@;
    let mut commands: Vec<PresetCommand> = Vec::new();
    commands.push(command);
    assert(change_views(commands@) =~= seq![change]);
    let after = presets_after(presets, &commands);
    Ok(PresetEdit { commands, candidate: Some(after) })
}

/// What renaming a preset changes, or why it cannot be renamed.
pub open spec fn renamed(presets: Seq<NamedView>, from: Seq<char>, to: Seq<char>, checks: PresetChecks) -> Result<
    Seq<ChangeView>,
    Seq<char>,
> {
    let kept = text::trimmed(to);
    if checks.name is Err {
        Err(checks.name->Err_0@)
    } else if from == kept {
        Err("Choose a different preset name."@)
    } else if preset_named(presets, kept) is Some {
        Err("That name already belongs to another preset."@)
    } else {
        match preset_named(presets, from) {
            None => Err("The selected preset no longer exists."@),
            Some(preset) => Ok(
                seq![ChangeView::Remove(from), ChangeView::Upsert(NamedView { name: kept, preset })],
            ),
        }
    }
}

/// Works out what renaming a preset changes. The presets that this leads to are to be checked with
/// [`confirm_preset_edit`].
pub fn rename_export_preset(presets: &Vec<NamedPreset>, from: &String, to: &str, checks: &PresetChecks) -> (result:
    Result<PresetEdit, String>)
    ensures
        seen_edit(result) == with_check(
            preset_views(presets@),
            renamed(preset_views(presets@), from@, to@, *checks),
        ),
{
    let kept: String = trim(to).to_owned();
    match &checks.name {
        Ok(_) => {},
        Err(message) => return Err(message.clone()),
    }
    if *from == kept {
        return Err("Choose a different preset name.".to_owned());
    }
    if find_preset(presets, &kept).is_some() {
        return Err("That name already belongs to another preset.".to_owned());
    }
    let at: usize = match find_preset(presets, from) {
        Some(at) => at,
        None => return Err("The selected preset no longer exists.".to_owned()),
    };
    let first = PresetCommand::Remove(from.clone());
    let second = PresetCommand::Upsert(NamedPreset { name: kept, preset: presets[at].preset.duplicate() });
    let ghost changes = seq![first@, second@];
    let mut commands: Vec<PresetCommand> = Vec::new();
    commands.push(first);
    commands.push(second);
    assert(change_views(commands@) =~= changes);
    let after = presets_after(presets, &commands);
    Ok(PresetEdit { commands, candidate: Some(after) })
}

/// A preset that was renamed is found under its new name only, and every other as before.
pub proof fn law_renaming_moves_one_preset(
    presets: Seq<NamedView>,
    from: Seq<char>,
    to: Seq<char>,
    checks: PresetChecks,
    name: Seq<char>,
)
    requires
        renamed(presets, from, to, checks) is Ok,
    ensures
        ({
            let after = all_changed(presets, renamed(presets, from, to, checks)->Ok_0);
            preset_named(after, name) == (if name == text::trimmed(to) {
                preset_named(presets, from)
            } else if name == from {
                None
            } else {
                preset_named(presets, name)
            })
        }),
{
    let changes = renamed(presets, from, to, checks)->Ok_0;
    let middle = changed(presets, changes[0]);
    assert(changes.drop_last() =~= seq![changes[0]]);
    assert(seq![changes[0]].drop_last() =~= Seq::empty());
    assert(all_changed(presets, seq![changes[0]].drop_last()) == presets);
    assert(all_changed(presets, seq![changes[0]]) == middle);
    law_changes_touch_one_preset(presets, changes[0], name);
    law_changes_touch_one_preset(middle, changes[1], name);
}

/// What deleting a preset changes, or why it cannot be deleted.
pub open spec fn deleted(presets: Seq<NamedView>, name: Seq<char>) -> Result<Seq<ChangeView>, Seq<char>> {
    if preset_named(presets, name) is None {
        Err("The selected preset no longer exists."@)
    } else {
        Ok(seq![ChangeView::Remove(name)])
    }
}

/// Works out what deleting a preset changes.
pub fn delete_export_preset(presets: &Vec<NamedPreset>, name: &String) -> (result: Result<Vec<PresetCommand>, String>)
    ensures
        seen_changes(result) == deleted(preset_views(presets@), name@),
{
    if find_preset(presets, name).is_none() {
        return Err("The selected preset no longer exists.".to_owned());
    }
    let command = PresetCommand::Remove(name.clone());
    let ghost change = command@;
    let mut commands: Vec<PresetCommand> = Vec::new();
    commands.push(command);
    assert(change_views(commands@) =~= seq![change]);
    Ok(commands)
}

/// What the controls for presets hold.
#[derive(Clone, Debug, PartialEq, Eq)]
pub struct PresetUiState {
    /// The chosen preset, or nothing.
    pub selected: String,
    /// The written name.
    pub name: String,
}

/// What is done with presets.
#[derive(Clone, Copy, Debug, PartialEq, Eq, Structural)]
pub enum PresetAction {
    /// Takes over the settings of the chosen preset.
    Load,
    /// Saves the settings under the written name.
    SaveNew,
    /// Saves the settings in place of the chosen preset.
    Update,
    /// Gives the chosen preset the written name.
    Rename,
    /// Deletes the chosen preset.
    Delete,
}

impl PresetUiState {
    /// Forgets a choice that is gone.
    pub fn reconcile(&mut self, presets: &Vec<NamedPreset>)
        ensures
            final(self).name@ == old(self).name@,
            final(self).selected@ == (if preset_named(preset_views(presets@), old(self).selected@) is Some {
                old(self).selected@
            } else {
                Seq::empty()
            }),
    {
        if find_preset(presets, &self.selected).is_none() {
            self.selected = String::new();
        }
    }
}

/// Changes to make, or a notice.
pub open spec fn planned(result: Result<Vec<PresetCommand>, PresetNotice>) -> Result<Seq<ChangeView>, NoticeView> {
    match result {
        Ok(commands) => Ok(change_views(commands@)),
        Err(notice) => Err(notice@),
    }
}

/// An edit to confirm, or a notice.
pub open spec fn proposed(result: Result<PresetEdit, PresetNotice>) -> Result<PresetEditView, NoticeView> {
    match result {
        Ok(edit) => Ok(edit@),
        Err(notice) => Err(notice@),
    }
}

/// A refusal as a notice.
pub open spec fn as_notice(result: Result<PresetEditView, Seq<char>>) -> Result<PresetEditView, NoticeView> {
    match result {
        Ok(edit) => Ok(edit),
        Err(message) => Err(NoticeView::Told(message)),
    }
}

/// What saving the settings changes.
pub open spec fn saves(
    presets: Seq<NamedView>,
    name: Seq<char>,
    exported: Result<PresetView, NoticeView>,
    replace: bool,
    checks: PresetChecks,
) -> Result<PresetEditView, NoticeView> {
    match exported {
        Err(notice) => Err(notice),
        Ok(preset) => as_notice(with_check(presets, saved(presets, name, preset, replace, checks))),
    }
}

/// What deleting a preset changes, which needs no check.
pub open spec fn deletes(presets: Seq<NamedView>, name: Seq<char>) -> Result<PresetEditView, NoticeView> {
    match deleted(presets, name) {
        Ok(changes) => Ok(unchecked(changes)),
        Err(message) => Err(NoticeView::Told(message)),
    }
}

fn to_notice(result: Result<PresetEdit, String>) -> (noticed: Result<PresetEdit, PresetNotice>)
    ensures
        proposed(noticed) == as_notice(seen_edit(result)),
{
    match result {
        Ok(edit) => Ok(edit),
        Err(message) => Err(PresetNotice::Told(message)),
    }
}

/// The name that an action is about, which the project is to check.
pub open spec fn checked_name(action: PresetAction, state: PresetUiState) -> Seq<char> {
    text::trimmed(if action == PresetAction::Update {
        state.selected@
    } else {
        state.name@
    })
}

/// The name that an action is about, which the project is to check.
pub fn name_to_check(action: PresetAction, state: &PresetUiState) -> (name: String)
    ensures
        name@ == checked_name(action, *state),
{
    if action == PresetAction::Update {
        trim(state.selected.as_str()).to_owned()
    } else {
        trim(state.name.as_str()).to_owned()
    }
}

/// Works out what an action changes in the project, which is to be confirmed with
/// [`confirm_preset_edit`]. Loading changes nothing there: it is done by [`load_selected_preset`].
///
/// `buildable` says whether the settings can be exported, and `checks` what the project's own
/// checks say of the name that [`name_to_check`] gives and of the settings as a preset.
pub fn plan_preset_action(
    action: PresetAction,
    state: &PresetUiState,
    settings: &EditorExportSettings,
    presets: &Vec<NamedPreset>,
    buildable: Result<(), String>,
    checks: &PresetChecks,
) -> (result: Result<PresetEdit, PresetNotice>)
    ensures
        ({
            let all = preset_views(presets@);
            let exported = export_presets::exported(settings@, buildable, checks.preset);
            proposed(result) == (match action {
                PresetAction::Load => Ok(unchecked(Seq::empty())),
                PresetAction::SaveNew => saves(all, state.name@, exported, false, *checks),
                PresetAction::Update => saves(all, state.selected@, exported, true, *checks),
                PresetAction::Rename => as_notice(
                    with_check(all, renamed(all, state.selected@, state.name@, *checks)),
                ),
                PresetAction::Delete => deletes(all, state.selected@),
            })
        }),
{
    match action {
        PresetAction::Load => {
            let commands: Vec<PresetCommand> = Vec::new();
            assert(change_views(commands@) =~= Seq::empty());
            Ok(PresetEdit { commands, candidate: None })
        },
        PresetAction::SaveNew => match settings.export_preset(buildable, copy_check(&checks.preset)) {
            Err(notice) => Err(notice),
            Ok(preset) => to_notice(save_export_preset(presets, state.name.as_str(), preset, false, checks)),
        },
        PresetAction::Update => match settings.export_preset(buildable, copy_check(&checks.preset)) {
            Err(notice) => Err(notice),
            Ok(preset) => to_notice(save_export_preset(presets, state.selected.as_str(), preset, true, checks)),
        },
        PresetAction::Rename => to_notice(
            rename_export_preset(presets, &state.selected, state.name.as_str(), checks),
        ),
        PresetAction::Delete => match delete_export_preset(presets, &state.selected) {
            Ok(commands) => Ok(PresetEdit { commands, candidate: None }),
            Err(message) => Err(PresetNotice::Told(message)),
        },
    }
}

/// Takes over the settings of the chosen preset; where that fails, the settings stay.
///
/// `validity` says whether the preset is valid, and `buildable` whether its settings can be
/// exported.
pub fn load_selected_preset(
    state: &PresetUiState,
    settings: &mut EditorExportSettings,
    presets: &Vec<NamedPreset>,
    defaults: &GifPresetOptions,
    validity: Result<(), String>,
    buildable: Result<(), String>,
) -> (result: Result<PresetNotice, PresetNotice>)
    ensures
        match preset_named(preset_views(presets@), state.selected@) {
            None => {
                &&& result matches Err(notice) && notice@ == NoticeView::SelectFirst
                &&& *final(settings) == *old(settings)
            },
            Some(preset) => {
                let restored = export_presets::settings_of(preset, defaults@);
                let refusal = match export_presets::refused(validity) {
                    Some(notice) => Some(notice),
                    None => match restored {
                        Err(notice) => Some(notice),
                        Ok(_) => export_presets::refused(buildable),
                    },
                };
                match refusal {
                    Some(told) => {
                        &&& result matches Err(notice) && notice@ == told
                        &&& *final(settings) == *old(settings)
                    },
                    None => {
                        &&& result matches Ok(notice) && notice@ == NoticeView::Loaded(state.selected@)
                        &&& final(settings)@ == restored->Ok_0
                    },
                }
            },
        },
{
    let at: usize = match find_preset(presets, &state.selected) {
        Some(at) => at,
        None => return Err(PresetNotice::SelectFirst),
    };
    match settings.load_export_preset(&presets[at].preset, defaults, validity, buildable) {
        Ok(_) => Ok(PresetNotice::Loaded(state.selected.clone())),
        Err(notice) => Err(notice),
    }
}

/// Follows an action that changed the project, or failed to (`executed`).
pub fn finish_preset_action(action: PresetAction, state: &mut PresetUiState, executed: Result<(), String>) -> (result:
    Result<PresetNotice, PresetNotice>)
    ensures
        final(state).name@ == old(state).name@,
        match executed {
            Err(message) => {
                &&& result matches Err(notice) && notice@ == NoticeView::Told(message@)
                &&& final(state).selected@ == old(state).selected@
            },
            Ok(_) => match action {
                PresetAction::Load => {
                    &&& result matches Ok(notice) && notice@ == NoticeView::Loaded(old(state).selected@)
                    &&& final(state).selected@ == old(state).selected@
                },
                PresetAction::SaveNew => {
                    &&& result matches Ok(notice) && notice@ == NoticeView::Saved(text::trimmed(old(state).name@))
                    &&& final(state).selected@ == text::trimmed(old(state).name@)
                },
                PresetAction::Update => {
                    &&& result matches Ok(notice) && notice@ == NoticeView::Updated(old(state).selected@)
                    &&& final(state).selected@ == old(state).selected@
                },
                PresetAction::Rename => {
                    &&& result matches Ok(notice) && notice@ == NoticeView::Renamed(text::trimmed(old(state).name@))
                    &&& final(state).selected@ == text::trimmed(old(state).name@)
                },
                PresetAction::Delete => {
                    &&& result matches Ok(notice) && notice@ == NoticeView::Deleted
                    &&& final(state).selected@ == Seq::<char>::empty()
                },
            },
        },
{
    match executed {
        Ok(_) => {},
        Err(message) => return Err(PresetNotice::Told(message)),
    }
    match action {
        PresetAction::Load => Ok(PresetNotice::Loaded(state.selected.clone())),
        PresetAction::SaveNew => {
            state.selected = trim(state.name.as_str()).to_owned();
            Ok(PresetNotice::Saved(state.selected.clone()))
        },
        PresetAction::Update => Ok(PresetNotice::Updated(state.selected.clone())),
        PresetAction::Rename => {
            state.selected = trim(state.name.as_str()).to_owned();
            Ok(PresetNotice::Renamed(state.selected.clone()))
        },
        PresetAction::Delete => {
            state.selected = String::new();
            Ok(PresetNotice::Deleted)
        },
    }
}

/// A name stands for the first preset that has it, and for none where none has.
pub proof fn law_a_name_stands_for_the_first_preset(presets: Seq<NamedView>, name: Seq<char>, at: int)
    ensures
        0 <= at < presets.len() && presets[at].name == name && (forall|i: int|
            0 <= i < at ==> (#[trigger] presets[i]).name != name) ==> preset_named(presets, name) == Some(
            presets[at].preset,
        ),
        preset_named(presets, name) is None <==> forall|i: int|
            0 <= i < presets.len() ==> (#[trigger] presets[i]).name != name,
    decreases presets.len(),
{
    if presets.len() > 0 {
        let rest = presets.drop_first();
        law_a_name_stands_for_the_first_preset(rest, name, at - 1);
        if presets[0].name == name {
            if 0 < at < presets.len() && (forall|i: int| 0 <= i < at ==> (#[trigger] presets[i]).name != name) {
                assert(presets[0].name != name);
            }
        } else {
            if 0 <= at < presets.len() && presets[at].name == name && (forall|i: int|
                0 <= i < at ==> (#[trigger] presets[i]).name != name) {
                assert(rest[at - 1] == presets[at]);
                assert forall|i: int| 0 <= i < at - 1 implies (#[trigger] rest[i]).name != name by {
                    assert(presets[i + 1] == rest[i]);
                }
            }
            if forall|i: int| 0 <= i < rest.len() ==> (#[trigger] rest[i]).name != name {
                assert forall|i: int| 0 <= i < presets.len() implies (#[trigger] presets[i]).name != name by {
                    if i > 0 {
                        assert(rest[i - 1] == presets[i]);
                    }
                }
            }
            if forall|i: int| 0 <= i < presets.len() ==> (#[trigger] presets[i]).name != name {
                assert forall|i: int| 0 <= i < rest.len() implies (#[trigger] rest[i]).name != name by {
                    assert(presets[i + 1] == rest[i]);
                }
            }
        }
    }
}

/// Taking out a name leaves the presets of all other names, in their order; a preset that is put comes last.
pub proof fn law_presets_stay_in_order(presets: Seq<NamedView>, change: ChangeView)
    ensures
        change matches ChangeView::Remove(name) ==> changed(presets, change) == presets.filter(
            |preset: NamedView| preset.name != name,
        ),
        change matches ChangeView::Upsert(put) ==> changed(presets, change) == presets.filter(
            |preset: NamedView| preset.name != put.name,
        ).push(put),
{
    match change {
        ChangeView::Remove(name) => {
            lemma_without_is_filter(presets, name);
        },
        ChangeView::Upsert(put) => {
            lemma_without_is_filter(presets, put.name);
        },
    }
}

proof fn lemma_without_is_filter(presets: Seq<NamedView>, name: Seq<char>)
    ensures
        without_named(presets, name) == presets.filter(|preset: NamedView| preset.name != name),
    decreases presets.len(),
{
    reveal(Seq::filter);
    if presets.len() > 0 {
        lemma_without_is_filter(presets.drop_last(), name);
    }
}

/// Changes are made one after another.
pub proof fn law_changes_are_made_in_order(presets: Seq<NamedView>, changes: Seq<ChangeView>, change: ChangeView)
    ensures
        all_changed(presets, changes.push(change)) == changed(all_changed(presets, changes), change),
        all_changed(presets, Seq::empty()) == presets,
{
    assert(changes.push(change).drop_last() =~= changes);
}

/// A preset is saved exactly where its name and the preset are valid and the name is new, or known where
/// one is to be replaced; then it is found under its trimmed name, and all others are as they were.
pub proof fn law_a_saved_preset_is_found(
    presets: Seq<NamedView>,
    name: Seq<char>,
    preset: PresetView,
    replace: bool,
    checks: PresetChecks,
    other: Seq<char>,
)
    ensures
        saved(presets, name, preset, replace, checks) is Ok <==> checks.name is Ok && checks.preset is Ok && replace == (
        preset_named(presets, text::trimmed(name)) is Some),
        saved(presets, name, preset, replace, checks) matches Ok(changes) ==> {
            let after = all_changed(presets, changes);
            &&& preset_named(after, text::trimmed(name)) == Some(preset)
            &&& other != text::trimmed(name) ==> preset_named(after, other) == preset_named(presets, other)
        },
{
    if saved(presets, name, preset, replace, checks) is Ok {
        let kept = text::trimmed(name);
        let change = ChangeView::Upsert(NamedView { name: kept, preset });
        let changes = saved(presets, name, preset, replace, checks)->Ok_0;
        law_changes_are_made_in_order(presets, Seq::empty(), change);
        assert(changes =~= Seq::<ChangeView>::empty().push(change));
        law_changes_touch_one_preset(presets, change, kept);
        law_changes_touch_one_preset(presets, change, other);
    }
}

/// A preset is deleted exactly where it is known; then it is found no more, and all others are as they were.
pub proof fn law_a_deleted_preset_is_gone(presets: Seq<NamedView>, name: Seq<char>, other: Seq<char>)
    ensures
        deleted(presets, name) is Ok <==> preset_named(presets, name) is Some,
        deleted(presets, name) matches Ok(changes) ==> {
            let after = all_changed(presets, changes);
            &&& preset_named(after, name) is None
            &&& other != name ==> preset_named(after, other) == preset_named(presets, other)
        },
{
    if deleted(presets, name) is Ok {
        let change = ChangeView::Remove(name);
        let changes = deleted(presets, name)->Ok_0;
        law_changes_are_made_in_order(presets, Seq::empty(), change);
        assert(changes =~= Seq::<ChangeView>::empty().push(change));
        law_changes_touch_one_preset(presets, change, name);
        law_changes_touch_one_preset(presets, change, other);
    }
}

/// A preset is renamed exactly where the new name is valid, another one and free, and the preset is known.
pub proof fn law_what_can_be_renamed(presets: Seq<NamedView>, from: Seq<char>, to: Seq<char>, checks: PresetChecks)
    ensures
        renamed(presets, from, to, checks) is Ok <==> {
            &&& checks.name is Ok
            &&& text::trimmed(to) != from
            &&& preset_named(presets, text::trimmed(to)) is None
            &&& preset_named(presets, from) is Some
        },
{
}

/// What is checked before an edit is what the edit leaves; a deletion is not checked.
pub proof fn law_an_edit_is_checked_as_it_ends(
    presets: Seq<NamedView>,
    name: Seq<char>,
    exported: Result<PresetView, NoticeView>,
    replace: bool,
    checks: PresetChecks,
)
    ensures
        saves(presets, name, exported, replace, checks) matches Ok(edit) ==> edit.candidate == Some(
            all_changed(presets, edit.changes),
        ) && exported is Ok && saved(presets, name, exported->Ok_0, replace, checks) == Ok::<
            Seq<ChangeView>,
            Seq<char>,
        >(edit.changes),
        exported is Err ==> saves(presets, name, exported, replace, checks) == Err::<PresetEditView, NoticeView>(
            exported->Err_0,
        ),
        deletes(presets, name) matches Ok(edit) ==> edit.candidate is None && deleted(presets, name) == Ok::<
            Seq<ChangeView>,
            Seq<char>,
        >(edit.changes),
{
}

/// The name that is checked is the selected one for an update and the written one otherwise, trimmed.
pub proof fn law_the_right_name_is_checked(action: PresetAction, state: PresetUiState)
    ensures
        action is Update ==> checked_name(action, state) == text::trimmed(state.selected@),
        !(action is Update) ==> checked_name(action, state) == text::trimmed(state.name@),
{
}

} // verus!
