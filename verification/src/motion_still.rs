//! Stills: showing part of one frame in others, baked or as a rendering step.
use vstd::prelude::*;
use crate::cancel::CancellationToken;
use crate::frames;
use crate::frames::{CaptureBinding, ClipTransform, FrameClip, FrameView};
use crate::geometry::{PhysicalRect, PhysicalSize};
use crate::ids::{AssetId, FrameId};
use crate::motion;
use crate::motion::{
    ids_of, selected_clips, store_surface, validate_budget, BakedPicture, Stored,
    MAX_SURFACE_BYTES,
};
use crate::motion_bake;
use crate::motion_bake::{remove_baked_overlay_spans, Baked};
use crate::motion_pixels;
use crate::motion_stage;
use crate::motion_stage::validate_baked_stage_survivors;
use crate::project;
use crate::project::{
    find_asset, AssetDescriptor, AssetKind, CommandView, ComposedFrameEdit, DescriptorView,
    EditCommand, KindView, ManifestView, ProjectManifest, RasterEncoding,
};
use crate::spans::DerivedScope;
use crate::time::TimelineSpan;
use crate::value;
use crate::value::{copy_all, Value};

verus! {

/// The most frames that one edit may freeze.
pub const MAX_STILL_FRAMES: usize = 1_000;

/// The most strokes that one ink cinemagraph may hold.
pub const MAX_CINEMAGRAPH_STROKES: usize = 256;

/// Bytes ahead of the pixels of a premultiplied picture.
pub const PREMULTIPLIED_SNAPSHOT_HEADER_LEN: u64 = 17;

/// Version of the container of a premultiplied picture.
pub const PREMULTIPLIED_SNAPSHOT_FORMAT_VERSION: u8 = 1;

/// The identities of the selected frames, in timeline order.
pub open spec fn targets(frames: Seq<FrameView>, selected: Seq<FrameId>) -> Seq<FrameId> {
    motion::frame_ids(frames.filter(motion::chosen(selected)))
}

/// Why a rectangle cannot be frozen.
pub open spec fn region_refusal(region: PhysicalRect, canvas: PhysicalSize) -> Option<Seq<char>> {
    if !region.size.nonempty() || !region.inside(canvas) {
        Some("The motion rectangle must have nonzero dimensions and fit inside the canvas."@)
    } else {
        None
    }
}

/// Why a rectangular cinemagraph is refused before anything is rendered.
pub open spec fn cinemagraph_refusal(
    project: ManifestView,
    current: Option<FrameId>,
    selected: Seq<FrameId>,
    region: PhysicalRect,
    spans: Result<Vec<TimelineSpan>, String>,
) -> Option<Seq<char>> {
    let count = targets(project.timeline.frames, selected).len() as int;
    if current is None {
        Some("Select the frame to use as the frozen image first."@)
    } else if count == 0 || count > MAX_STILL_FRAMES {
        Some("Select between 1 and 1,000 frames for a rectangular cinemagraph."@)
    } else if motion::budget_refusal(project.canvas.size, count) is Some {
        motion::budget_refusal(project.canvas.size, count)
    } else if region_refusal(region, project.canvas.size) is Some {
        region_refusal(region, project.canvas.size)
    } else if spans is Err {
        Some(spans->Err_0@)
    } else {
        None
    }
}

/// A rectangular cinemagraph that may be rendered.
#[derive(Clone, Debug, PartialEq, Eq)]
pub struct CinemagraphPlan {
    /// The frame whose picture is frozen.
    pub current: FrameId,
    /// The frames to bake.
    pub selected: Vec<FrameClip>,
    /// The changes that take baked overlays out of their layers.
    pub commands: Vec<EditCommand>,
}

/// Checks a rectangular cinemagraph and takes the overlays that it bakes out of
/// their layers.
///
/// `spans` are the times of the selected frames and `scopes` what they leave of the
/// spans that the authoring of each layer covered.
pub fn plan_cinemagraph<C: CancellationToken>(
    project: &ProjectManifest,
    current: Option<FrameId>,
    selected: &Vec<FrameId>,
    region: PhysicalRect,
    spans: &Result<Vec<TimelineSpan>, String>,
    scopes: &Vec<DerivedScope>,
    cancellation: &C,
) -> (result: Result<CinemagraphPlan, String>)
    requires
        scopes@.len() == project.timeline.overlay_tracks@.len(),
    ensures
        ({
            let view = project@.timeline;
            let refusal = cinemagraph_refusal(project@, current, selected@, region, *spans);
            let owners = targets(view.frames, selected@);
            match result {
                Ok(plan) => {
                    &&& !cancellation.must_cancel()
                    &&& refusal is None
                    &&& Some(plan.current) == current
                    &&& value::views(plan.selected@) == view.frames.filter(
                        motion::chosen(selected@),
                    )
                    &&& exists|ids: Seq<u128>|
                        (#[trigger] motion_bake::bake_tracks(
                            view.overlay_tracks,
                            view.overlay_tracks.len() as int,
                            scopes@,
                            spans->Ok_0@,
                            owners,
                            ids,
                        )) matches Ok(baked) && baked.commands == value::views(plan.commands@)
                            && motion_bake::drawn_exactly(baked, ids)
                    &&& view.total() <= u64::MAX
                    &&& !motion_stage::survivor_conflicts(
                        view.overlay_tracks,
                        view.frames,
                        owners,
                        value::views(plan.commands@),
                    )
                },
                Err(message) => {
                    ||| cancellation.may_cancel() && message@ == motion_pixels::stopped()
                    ||| refusal == Some(message@)
                    ||| refusal is None && forall|ids: Seq<u128>|
                        (#[trigger] motion_bake::bake_tracks(
                            view.overlay_tracks,
                            view.overlay_tracks.len() as int,
                            scopes@,
                            spans->Ok_0@,
                            owners,
                            ids,
                        )) == Err::<Baked, Seq<char>>(message@)
                    ||| refusal is None && view.total() > u64::MAX && message@
                        == "Motion frame clock overflow."@
                    ||| refusal is None && view.total() <= u64::MAX && message@
                        == motion_stage::stage_message() && exists|ids: Seq<u128>|
                        (#[trigger] motion_bake::bake_tracks(
                            view.overlay_tracks,
                            view.overlay_tracks.len() as int,
                            scopes@,
                            spans->Ok_0@,
                            owners,
                            ids,
                        )) matches Ok(baked) && motion_bake::drawn_exactly(baked, ids)
                            && motion_stage::survivor_conflicts(
                            view.overlay_tracks,
                            view.frames,
                            owners,
                            baked.commands,
                        )
                },
            }
        }),
{
    let current = match current {
        Some(id) => id,
        None => return Err("Select the frame to use as the frozen image first.".to_owned()),
    };
    let clips = selected_clips(&project.timeline.frames, selected);
    let owners = ids_of(&clips);
    assert(owners@ == targets(project@.timeline.frames, selected@));
    if clips.len() == 0 || clips.len() > MAX_STILL_FRAMES {
        return Err("Select between 1 and 1,000 frames for a rectangular cinemagraph.".to_owned());
    }
    validate_budget(project.canvas.size, clips.len())?;
    if !region.size.is_valid() || !region.fits_within(project.canvas.size) {
        return Err(
            "The motion rectangle must have nonzero dimensions and fit inside the canvas."
                .to_owned(),
        );
    }
    let cuts = match spans {
        Ok(cuts) => cuts,
        Err(message) => return Err(message.clone()),
    };
    let commands = remove_baked_overlay_spans(
        &project.timeline.overlay_tracks,
        cuts,
        &owners,
        scopes,
        cancellation,
    )?;
    validate_baked_stage_survivors(
        &project.timeline.frames,
        &project.timeline.overlay_tracks,
        &owners,
        &commands,
        cancellation,
    )?;
    Ok(CinemagraphPlan { current, selected: clips, commands })
}

/// The frame once its picture has been baked.
pub open spec fn baked_frame(frame: FrameView, picture: BakedPicture) -> FrameView {
    FrameView {
        asset_id: picture.asset_id,
        transform: ClipTransform::identity(),
        effects: Seq::empty(),
        render_steps: Seq::empty(),
        capture_binding: CaptureBinding::ArchivedAfterComposite,
        ..frame
    }
}

/// Replaces the first `count` frames by their baked pictures, one after the other.
pub open spec fn replace_frames(
    start: Seq<CommandView>,
    selected: Seq<FrameView>,
    pictures: Seq<BakedPicture>,
    count: int,
    assets: Seq<DescriptorView>,
) -> Result<Stored, Seq<char>>
    decreases count,
{
    if count <= 0 {
        Ok(Stored { commands: start, registered: Seq::empty() })
    } else {
        match replace_frames(start, selected, pictures, count - 1, assets) {
            Ok(before) => match motion::store(before, pictures[count - 1], assets) {
                Ok(stored) => Ok(
                    Stored {
                        commands: stored.commands.push(
                            CommandView::ReplaceFrame {
                                frame_id: selected[count - 1].id,
                                replacement: baked_frame(
                                    selected[count - 1],
                                    pictures[count - 1],
                                ),
                            },
                        ),
                        ..stored
                    },
                ),
                Err(message) => Err(message),
            },
            Err(message) => Err(message),
        }
    }
}

/// The edit that replaces the planned frames by their baked pictures.
///
/// `pictures` are the rendered frames after [`crate::motion_pixels::freeze_rectangle`].
pub fn cinemagraph_command(
    plan: CinemagraphPlan,
    assets: &Vec<AssetDescriptor>,
    pictures: &Vec<BakedPicture>,
) -> (result: Result<(Vec<EditCommand>, usize), String>)
    requires
        pictures@.len() == plan.selected@.len(),
    ensures
        ({
            let edit = replace_frames(
                value::views(plan.commands@),
                value::views(plan.selected@),
                pictures@,
                pictures@.len() as int,
                value::views(assets@),
            );
            match result {
                Ok((commands, count)) => {
                    &&& count == plan.selected@.len()
                    &&& edit matches Ok(stored) && stored.commands == value::views(commands@)
                },
                Err(message) => edit == Err::<Stored, Seq<char>>(message@),
            }
        }),
{
    let ghost start = value::views(plan.commands@);
    let ghost all = value::views(plan.selected@);
    let total: usize = plan.selected.len();
    let selected = plan.selected;
    let mut commands = plan.commands;
    let mut registered: Vec<AssetId> = Vec::new();
    let mut index: usize = 0;
    while index < total
        invariant
            index <= total == selected@.len() == pictures@.len(),
            all == value::views(selected@),
            all == value::views(plan.selected@),
            start == value::views(plan.commands@),
            replace_frames(start, all, pictures@, index as int, value::views(assets@)) == Ok::<
                Stored,
                Seq<char>,
            >(Stored { commands: value::views(commands@), registered: registered@ }),
        decreases total - index,
    {
        let original = &selected[index];
        assert(all[index as int] == original@);
        let asset_id = match store_surface(assets, pictures[index], &mut registered, &mut commands) {
            Ok(id) => id,
            Err(message) => {
                proof {
                    lemma_replace_stays_failed(
                        start,
                        all,
                        pictures@,
                        index + 1,
                        total as int,
                        value::views(assets@),
                    );
                }
                return Err(message);
            },
        };
        let ghost before = value::views(commands@);
        let mut replacement = original.duplicate();
        replacement.asset_id = asset_id;
        replacement.transform = ClipTransform::none();
        replacement.effects = Vec::new();
        replacement.render_steps = Vec::new();
        replacement.capture_binding = CaptureBinding::ArchivedAfterComposite;
        assert(replacement@ == baked_frame(original@, pictures@[index as int]));
        let command = EditCommand::ReplaceFrame {
            frame_id: original.id,
            replacement: Box::new(replacement),
        };
        let ghost shape = command@;
        commands.push(command);
        assert(value::views(commands@) =~= before.push(shape));
        index += 1;
    }
    Ok((commands, total))
}

/// An edit that could not store a picture stays failed.
proof fn lemma_replace_stays_failed(
    start: Seq<CommandView>,
    selected: Seq<FrameView>,
    pictures: Seq<BakedPicture>,
    failed: int,
    count: int,
    assets: Seq<DescriptorView>,
)
    requires
        failed <= count,
        replace_frames(start, selected, pictures, failed, assets) is Err,
    ensures
        replace_frames(start, selected, pictures, count, assets) == replace_frames(
            start,
            selected,
            pictures,
            failed,
            assets,
        ),
    decreases count,
{
    if failed < count {
        lemma_replace_stays_failed(start, selected, pictures, failed, count - 1, assets);
    }
}

/// Why a rectangular freeze is refused before anything is rendered.
pub open spec fn freeze_refusal(
    project: ManifestView,
    current: Option<FrameId>,
    selected: Seq<FrameId>,
    region: PhysicalRect,
) -> Option<Seq<char>> {
    let count = targets(project.timeline.frames, selected).len() as int;
    if current is None {
        Some("Select the frame to use as the frozen image first."@)
    } else if count == 0 || count > MAX_STILL_FRAMES {
        Some("Select between 1 and 1,000 frames for a rectangular freeze."@)
    } else if region_refusal(region, project.canvas.size) is Some {
        region_refusal(region, project.canvas.size)
    } else if 8 * project.canvas.size.pixel_count() > MAX_SURFACE_BYTES {
        Some(
            "The image and frozen baseline exceed the 64 MiB working-memory budget. Resize the animation first."@,
        )
    } else {
        None
    }
}

/// Checks a rectangular freeze and gives the frames that it changes.
pub fn plan_freeze(
    project: &ProjectManifest,
    current: Option<FrameId>,
    selected: &Vec<FrameId>,
    region: PhysicalRect,
) -> (result: Result<(FrameId, Vec<FrameId>), String>)
    ensures
        match result {
            Ok((baseline, frames)) => {
                &&& freeze_refusal(project@, current, selected@, region) is None
                &&& current == Some(baseline)
                &&& frames@ == targets(project@.timeline.frames, selected@)
            },
            Err(message) => freeze_refusal(project@, current, selected@, region) == Some(message@),
        },
{
    let current = match current {
        Some(id) => id,
        None => return Err("Select the frame to use as the frozen image first.".to_owned()),
    };
    let clips = selected_clips(&project.timeline.frames, selected);
    let frames = ids_of(&clips);
    if frames.len() == 0 || frames.len() > MAX_STILL_FRAMES {
        return Err("Select between 1 and 1,000 frames for a rectangular freeze.".to_owned());
    }
    let canvas = project.canvas.size;
    if !region.size.is_valid() || !region.fits_within(canvas) {
        return Err(
            "The motion rectangle must have nonzero dimensions and fit inside the canvas."
                .to_owned(),
        );
    }
    let over = match canvas.area().checked_mul(8) {
        Some(bytes) => bytes > MAX_SURFACE_BYTES,
        None => true,
    };
    if over {
        return Err(
            "The image and frozen baseline exceed the 64 MiB working-memory budget. Resize the animation first.".to_owned(),
        );
    }
    Ok((current, frames))
}

/// The edit that registers `asset` unless it is registered, and edits the frames.
///
/// Where the digest is registered already, `view` says whether what is registered
/// can be read with the dimensions that the edit needs.
pub open spec fn composed_edit(
    assets: Seq<DescriptorView>,
    asset: DescriptorView,
    view: Result<(), String>,
    frames: Seq<FrameId>,
    edit: ComposedFrameEdit,
) -> Result<Seq<CommandView>, Seq<char>> {
    let change = CommandView::EditComposedFrames { frame_ids: frames, edit };
    if project::asset_of(assets, asset.id) is None {
        Ok(seq![CommandView::RegisterAsset { asset }, change])
    } else if view is Err {
        Err(view->Err_0@)
    } else {
        Ok(seq![change])
    }
}

/// Builds the edit that registers `asset` unless it is registered, and edits the frames.
fn build_composed_edit(
    assets: &Vec<AssetDescriptor>,
    asset: AssetDescriptor,
    view: &Result<(), String>,
    frames: &Vec<FrameId>,
    edit: ComposedFrameEdit,
) -> (result: Result<Vec<EditCommand>, String>)
    ensures
        match result {
            Ok(commands) => composed_edit(value::views(assets@), asset@, *view, frames@, edit) == Ok::<
                Seq<CommandView>,
                Seq<char>,
            >(value::views(commands@)),
            Err(message) => composed_edit(value::views(assets@), asset@, *view, frames@, edit)
                == Err::<Seq<CommandView>, Seq<char>>(message@),
        },
{
    let mut commands: Vec<EditCommand> = Vec::new();
    if find_asset(assets, asset.id).is_some() {
        match view {
            Ok(_) => {},
            Err(message) => return Err(message.clone()),
        }
    } else {
        commands.push(EditCommand::RegisterAsset { asset });
    }
    commands.push(EditCommand::EditComposedFrames { frame_ids: copy_all(frames), edit });
    assert(value::views(commands@) =~= composed_edit(
        value::views(assets@),
        asset@,
        *view,
        frames@,
        edit,
    )->Ok_0);
    Ok(commands)
}

/// The edit that shows the baseline in the frames, outside the region or inside it.
pub fn freeze_region_command(
    project: &ProjectManifest,
    baseline: BakedPicture,
    view: &Result<(), String>,
    frames: &Vec<FrameId>,
    region: PhysicalRect,
    invert: bool,
) -> (result: Result<(Vec<EditCommand>, usize), String>)
    requires
        baseline.size == project.canvas.size,
    ensures
        ({
            let edit = composed_edit(
                project@.assets,
                baseline.descriptor(),
                *view,
                frames@,
                ComposedFrameEdit::FreezeRegion {
                    baseline_asset: baseline.asset_id,
                    baseline_size: project.canvas.size,
                    region,
                    invert,
                },
            );
            match result {
                Ok((commands, count)) => {
                    &&& count == frames@.len()
                    &&& edit == Ok::<Seq<CommandView>, Seq<char>>(value::views(commands@))
                },
                Err(message) => edit == Err::<Seq<CommandView>, Seq<char>>(message@),
            }
        }),
{
    let asset = AssetDescriptor {
        id: baseline.asset_id,
        byte_len: baseline.byte_len,
        kind: AssetKind::Frame { size: baseline.size, encoding: RasterEncoding::Rgba8 },
    };
    assert(asset@ == baseline.descriptor());
    let commands = build_composed_edit(
        &project.assets,
        asset,
        view,
        frames,
        ComposedFrameEdit::FreezeRegion {
            baseline_asset: baseline.asset_id,
            baseline_size: project.canvas.size,
            region,
            invert,
        },
    )?;
    Ok((commands, frames.len()))
}

/// An ink cinemagraph, as far as it can be counted.
#[derive(Clone, Debug, PartialEq, Eq)]
pub struct InkRequest {
    /// Whether the project and the selection are those the ink was drawn for.
    pub anchor_matches: bool,
    /// The frame that the ink was drawn on.
    pub reference_frame: FrameId,
    /// Dimensions of the picture the ink was drawn on.
    pub reference_size: PhysicalSize,
    /// Number of samples of each stroke.
    pub sample_counts: Vec<usize>,
    /// Whether every pen size, position and pressure is within its range.
    pub pens_valid: bool,
}

/// The number of samples of the first `count` strokes.
pub open spec fn samples(counts: Seq<usize>, count: int) -> int
    decreases count,
{
    if count <= 0 {
        0
    } else {
        samples(counts, count - 1) + counts[count - 1]
    }
}

/// More strokes never have fewer samples.
proof fn lemma_samples_grow(counts: Seq<usize>, less: int, more: int)
    requires
        0 <= less <= more <= counts.len(),
    ensures
        0 <= samples(counts, less) <= samples(counts, more),
    decreases more,
{
    if less < more {
        lemma_samples_grow(counts, less, more - 1);
    } else if less > 0 {
        lemma_samples_grow(counts, less - 1, less - 1);
    }
}

/// Why an ink cinemagraph is refused before anything is rendered.
pub open spec fn ink_refusal(
    request: InkRequest,
    frames: Seq<FrameView>,
    selected: Seq<FrameId>,
    max_samples: int,
) -> Option<Seq<char>> {
    let strokes = request.sample_counts@;
    let count = targets(frames, selected).len() as int;
    if !request.anchor_matches || frames.len() == 0 || frames[0].id != request.reference_frame {
        Some("The Cinemagraph reference or targets changed; the draft was not applied."@)
    } else if strokes.len() == 0 || strokes.len() > MAX_CINEMAGRAPH_STROKES {
        Some("Draw a motion region first, using at most 256 strokes."@)
    } else if samples(strokes, strokes.len() as int) > usize::MAX {
        Some("Cinemagraph sample count overflow."@)
    } else if samples(strokes, strokes.len() as int) > max_samples {
        Some("Cinemagraph exceeds its bounded sample count."@)
    } else if (exists|i: int| 0 <= i < strokes.len() && #[trigger] strokes[i] == 0)
        || !request.pens_valid {
        Some("Cinemagraph contains invalid pen dimensions, samples or pressure."@)
    } else if count == 0 || count > MAX_STILL_FRAMES {
        Some("Select between 1 and 1,000 target frames."@)
    } else if 8 * request.reference_size.pixel_count() + PREMULTIPLIED_SNAPSHOT_HEADER_LEN
        > MAX_SURFACE_BYTES {
        Some("The Cinemagraph reference exceeds the 64 MiB working-image budget."@)
    } else {
        None
    }
}

/// Checks an ink cinemagraph and gives the frames that it changes.
pub fn cinemagraph_targets(
    request: &InkRequest,
    frames: &Vec<FrameClip>,
    selected: &Vec<FrameId>,
    max_samples: usize,
) -> (result: Result<Vec<FrameId>, String>)
    ensures
        ({
            let clips = value::views(frames@);
            let refusal = ink_refusal(*request, clips, selected@, max_samples as int);
            match result {
                Ok(ids) => refusal is None && ids@ == targets(clips, selected@),
                Err(message) => refusal == Some(message@),
            }
        }),
{
    let ghost clips = value::views(frames@);
    let ghost strokes = request.sample_counts@;
    if !request.anchor_matches || frames.len() == 0 || frames[0].id != request.reference_frame {
        return Err(
            "The Cinemagraph reference or targets changed; the draft was not applied.".to_owned(),
        );
    }
    assert(clips[0] == frames@[0]@);
    let counts = &request.sample_counts;
    if counts.len() == 0 || counts.len() > MAX_CINEMAGRAPH_STROKES {
        return Err("Draw a motion region first, using at most 256 strokes.".to_owned());
    }
    let mut total: usize = 0;
    let mut all_drawn = true;
    let mut index: usize = 0;
    while index < counts.len()
        invariant
            index <= counts.len(),
            counts@ == strokes,
            strokes == request.sample_counts@,
            0 < strokes.len() <= MAX_CINEMAGRAPH_STROKES,
            clips == value::views(frames@),
            request.anchor_matches,
            clips.len() > 0,
            clips[0].id == request.reference_frame,
            total == samples(strokes, index as int),
            all_drawn == (forall|i: int| 0 <= i < index ==> #[trigger] strokes[i] != 0),
        decreases counts.len() - index,
    {
        match total.checked_add(counts[index]) {
            Some(next) => {
                total = next;
            },
            None => {
                proof {
                    lemma_samples_grow(strokes, index + 1, strokes.len() as int);
                }
                return Err("Cinemagraph sample count overflow.".to_owned());
            },
        }
        if counts[index] == 0 {
            all_drawn = false;
        }
        index += 1;
    }
    if total > max_samples {
        return Err("Cinemagraph exceeds its bounded sample count.".to_owned());
    }
    if !all_drawn || !request.pens_valid {
        return Err("Cinemagraph contains invalid pen dimensions, samples or pressure.".to_owned());
    }
    let chosen = selected_clips(frames, selected);
    let ids = ids_of(&chosen);
    if ids.len() == 0 || ids.len() > MAX_STILL_FRAMES {
        return Err("Select between 1 and 1,000 target frames.".to_owned());
    }
    let over = match request.reference_size.area().checked_mul(8) {
        Some(bytes) => match bytes.checked_add(PREMULTIPLIED_SNAPSHOT_HEADER_LEN) {
            Some(bytes) => bytes > MAX_SURFACE_BYTES,
            None => true,
        },
        None => true,
    };
    if over {
        return Err(
            "The Cinemagraph reference exceeds the 64 MiB working-image budget.".to_owned(),
        );
    }
    Ok(ids)
}

/// The edit that paints an encoded snapshot over the frames.
pub fn ink_cinemagraph_command(
    assets: &Vec<AssetDescriptor>,
    snapshot: BakedPicture,
    view: &Result<(), String>,
    frames: &Vec<FrameId>,
) -> (result: Result<(Vec<EditCommand>, usize), String>)
    ensures
        ({
            let edit = composed_edit(
                value::views(assets@),
                DescriptorView {
                    id: snapshot.asset_id,
                    byte_len: snapshot.byte_len,
                    kind: KindView::PremultipliedSnapshot {
                        size: snapshot.size,
                        format_version: PREMULTIPLIED_SNAPSHOT_FORMAT_VERSION,
                    },
                },
                *view,
                frames@,
                ComposedFrameEdit::CinemagraphOverlay {
                    snapshot_asset: snapshot.asset_id,
                    snapshot_size: snapshot.size,
                },
            );
            match result {
                Ok((commands, count)) => {
                    &&& count == frames@.len()
                    &&& edit == Ok::<Seq<CommandView>, Seq<char>>(value::views(commands@))
                },
                Err(message) => edit == Err::<Seq<CommandView>, Seq<char>>(message@),
            }
        }),
{
    let asset = AssetDescriptor {
        id: snapshot.asset_id,
        byte_len: snapshot.byte_len,
        kind: AssetKind::PremultipliedSnapshot {
            size: snapshot.size,
            format_version: PREMULTIPLIED_SNAPSHOT_FORMAT_VERSION,
        },
    };
    let commands = build_composed_edit(
        assets,
        asset,
        view,
        frames,
        ComposedFrameEdit::CinemagraphOverlay {
            snapshot_asset: snapshot.asset_id,
            snapshot_size: snapshot.size,
        },
    )?;
    Ok((commands, frames.len()))
}

/// What an edit is meant for are the selected frames, in the order of the timeline.
pub proof fn law_targets_stay_in_order(frames: Seq<FrameView>, selected: Seq<FrameId>)
    ensures
        ({
            let kept = frames.filter(
                |frame: FrameView| exists|k: int| 0 <= k < selected.len() && #[trigger] selected[k] == frame.id,
            );
            &&& targets(frames, selected).len() == kept.len()
            &&& forall|i: int| 0 <= i < kept.len() ==> (#[trigger] targets(frames, selected)[i]) == kept[i].id
        }),
{
    motion::law_chosen_frames_stay_in_order(frames, selected);
}

/// A frame that is baked shows the picture as it is, and keeps its identity, its duration and all that was
/// recorded with it.
pub proof fn law_a_baked_frame_shows_the_picture_alone(frame: FrameView, picture: BakedPicture)
    ensures
        ({
            let baked = baked_frame(frame, picture);
            &&& baked.id == frame.id
            &&& baked.duration == frame.duration
            &&& baked.capture_metadata == frame.capture_metadata
            &&& baked.capture_clock == frame.capture_clock
            &&& baked.asset_id == picture.asset_id
            &&& baked.transform.crop is None && baked.transform.output_size is None
            &&& baked.transform.quarter_turns == 0 && !baked.transform.flip_horizontal
                && !baked.transform.flip_vertical
            &&& baked.effects.len() == 0 && baked.render_steps.len() == 0
            &&& baked.capture_binding == CaptureBinding::ArchivedAfterComposite
        }),
{
}

/// Whether a command puts a picture in the place of a frame.
pub open spec fn replaces(command: CommandView, frame: FrameView, picture: BakedPicture) -> bool {
    command matches CommandView::ReplaceFrame { frame_id, replacement } && {
        &&& frame_id == frame.id
        &&& replacement.id == frame.id
        &&& replacement.duration == frame.duration
        &&& replacement.asset_id == picture.asset_id
        &&& replacement.effects.len() == 0 && replacement.render_steps.len() == 0
    }
}

/// A cinemagraph does all that was planned first, and then puts the picture of each selected frame in its
/// place, one frame after another, each after its picture is registered; besides, it only registers
/// pictures. Where the replacements stand is given back.
pub proof fn law_each_frame_gets_its_own_picture(
    start: Seq<CommandView>,
    selected: Seq<FrameView>,
    pictures: Seq<BakedPicture>,
    count: int,
    assets: Seq<DescriptorView>,
) -> (at: Seq<int>)
    requires
        0 <= count <= selected.len(),
        selected.len() == pictures.len(),
        replace_frames(start, selected, pictures, count, assets) is Ok,
    ensures
        ({
            let made = replace_frames(start, selected, pictures, count, assets)->Ok_0;
            &&& at.len() == count
            &&& start.len() <= made.commands.len()
            &&& made.commands.take(start.len() as int) == start
            &&& forall|i: int|
                0 <= i < count ==> start.len() <= #[trigger] at[i] < made.commands.len() && replaces(
                    made.commands[at[i]],
                    selected[i],
                    pictures[i],
                )
            &&& forall|i: int, j: int| 0 <= i < j < count ==> #[trigger] at[i] < #[trigger] at[j]
            &&& forall|c: int|
                start.len() <= c < made.commands.len() && !at.contains(c) ==> (
                #[trigger] made.commands[c]) is RegisterAsset
            &&& forall|i: int|
                0 <= i < count ==> project::registered(assets, (#[trigger] pictures[i]).asset_id)
                    || made.registered.contains(pictures[i].asset_id)
            &&& forall|i: int|
                0 <= i < count ==> project::registered(assets, pictures[i].asset_id) || exists|c: int|
                    start.len() <= c < #[trigger] at[i] && (#[trigger] made.commands[c]) is RegisterAsset
                        && made.commands[c]->RegisterAsset_asset.id == pictures[i].asset_id
            &&& forall|r: int|
                0 <= r < made.registered.len() ==> exists|c: int|
                    start.len() <= c < made.commands.len() && (#[trigger] made.commands[c]) is RegisterAsset
                        && made.commands[c]->RegisterAsset_asset.id == #[trigger] made.registered[r]
        }),
    decreases count,
{
    let made = replace_frames(start, selected, pictures, count, assets)->Ok_0;
    if count <= 0 {
        assert(start.take(start.len() as int) =~= start);
        Seq::empty()
    } else {
        let before_at = law_each_frame_gets_its_own_picture(start, selected, pictures, count - 1, assets);
        let before = replace_frames(start, selected, pictures, count - 1, assets)->Ok_0;
        let picture = pictures[count - 1];
        let stored = motion::store(before, picture, assets)->Ok_0;
        motion::law_pictures_are_registered_as_they_are(before, picture, assets);
        let place = stored.commands.len() as int;
        let at = before_at.push(place);
        assert(made.commands.len() == place + 1);
        assert(before.commands.is_prefix_of(stored.commands)) by {
            assert(stored.commands.take(before.commands.len() as int) =~= before.commands);
        }
        assert forall|c: int| 0 <= c < before.commands.len() implies #[trigger] made.commands[c] == before.commands[c] by {
            assert(stored.commands.take(before.commands.len() as int)[c] == stored.commands[c]);
        }
        assert(made.commands.take(start.len() as int) =~= start) by {
            assert forall|c: int| 0 <= c < start.len() implies made.commands[c] == start[c] by {
                assert(before.commands.take(start.len() as int)[c] == start[c]);
            }
        }
        assert forall|i: int| 0 <= i < count implies start.len() <= #[trigger] at[i] < made.commands.len() && replaces(
            made.commands[at[i]],
            selected[i],
            pictures[i],
        ) by {
            if i < count - 1 {
                assert(at[i] == before_at[i]);
            }
        }
        assert forall|c: int| start.len() <= c < made.commands.len() && !at.contains(c) implies (
        #[trigger] made.commands[c]) is RegisterAsset by {
            assert(at[count - 1] == place);
            if c < before.commands.len() {
                assert(!before_at.contains(c)) by {
                    if before_at.contains(c) {
                        let i = choose|i: int| 0 <= i < before_at.len() && before_at[i] == c;
                        assert(at[i] == c);
                    }
                }
                assert(before.commands[c] is RegisterAsset);
            } else {
                assert(c < place);
                assert(made.commands[c] == stored.commands[c]);
            }
        }
        assert forall|r: int| 0 <= r < made.registered.len() implies exists|c: int|
            start.len() <= c < made.commands.len() && (#[trigger] made.commands[c]) is RegisterAsset
                && made.commands[c]->RegisterAsset_asset.id == #[trigger] made.registered[r] by {
            if r < before.registered.len() {
                assert(stored.registered.take(before.registered.len() as int)[r] == stored.registered[r]);
                assert(made.registered[r] == before.registered[r]);
                let c = choose|c: int|
                    start.len() <= c < before.commands.len() && (#[trigger] before.commands[c]) is RegisterAsset
                        && before.commands[c]->RegisterAsset_asset.id == before.registered[r];
                assert(made.commands[c] == before.commands[c]);
            } else {
                assert(made.commands[place - 1] == stored.commands.last());
            }
        }
        assert forall|i: int| 0 <= i < count implies project::registered(assets, (#[trigger] pictures[i]).asset_id)
            || made.registered.contains(pictures[i].asset_id) by {
            if !project::registered(assets, pictures[i].asset_id) {
                if i < count - 1 {
                    let r = choose|r: int|
                        0 <= r < before.registered.len() && before.registered[r] == pictures[i].asset_id;
                    assert(stored.registered.take(before.registered.len() as int)[r] == stored.registered[r]);
                    assert(made.registered[r] == pictures[i].asset_id);
                } else if before.registered.contains(picture.asset_id) {
                    assert(stored == before);
                } else {
                    assert(made.registered[made.registered.len() - 1] == picture.asset_id);
                }
            }
        }
        assert forall|i: int| 0 <= i < count implies project::registered(assets, pictures[i].asset_id) || exists|c: int|
            start.len() <= c < #[trigger] at[i] && (#[trigger] made.commands[c]) is RegisterAsset
                && made.commands[c]->RegisterAsset_asset.id == pictures[i].asset_id by {
            if !project::registered(assets, pictures[i].asset_id) {
                if i < count - 1 {
                    assert(at[i] == before_at[i]);
                    let c = choose|c: int|
                        start.len() <= c < before_at[i] && (#[trigger] before.commands[c]) is RegisterAsset
                            && before.commands[c]->RegisterAsset_asset.id == pictures[i].asset_id;
                    assert(made.commands[c] == before.commands[c]);
                } else {
                    assert(at[i] == place);
                    assert(made.registered.contains(picture.asset_id));
                    let r = choose|r: int| 0 <= r < made.registered.len() && made.registered[r] == picture.asset_id;
                    let c = choose|c: int|
                        start.len() <= c < made.commands.len() && (#[trigger] made.commands[c]) is RegisterAsset
                            && made.commands[c]->RegisterAsset_asset.id == made.registered[r];
                    assert(made.commands[place] is ReplaceFrame);
                    assert(c < place);
                }
            }
        }
        at
    }
}

/// A region can be frozen exactly where it has an extent and every pixel of it lies on the canvas.
pub proof fn law_what_regions_are_accepted(region: PhysicalRect, canvas: PhysicalSize)
    ensures
        region_refusal(region, canvas) is None <==> {
            &&& region.size.width > 0 && region.size.height > 0
            &&& region.origin.x + region.size.width <= canvas.width
            &&& region.origin.y + region.size.height <= canvas.height
        },
{
}

/// A cinemagraph is accepted exactly where a frame is current, 1 to 1,000 frames are selected, their
/// pictures can be baked, the region can be frozen and the spans of the frames are known.
pub proof fn law_what_cinemagraphs_are_accepted(
    project: ManifestView,
    current: Option<FrameId>,
    selected: Seq<FrameId>,
    region: PhysicalRect,
    spans: Result<Vec<TimelineSpan>, String>,
)
    ensures
        ({
            let count = targets(project.timeline.frames, selected).len() as int;
            let canvas = project.canvas.size;
            cinemagraph_refusal(project, current, selected, region, spans) is None <==> {
                &&& current is Some
                &&& 1 <= count <= 1_000
                &&& 4 * (canvas.width * canvas.height) <= 67_108_864
                &&& 4 * (canvas.width * canvas.height) * count <= 268_435_456
                &&& region.size.width > 0 && region.size.height > 0
                &&& region.origin.x + region.size.width <= canvas.width
                &&& region.origin.y + region.size.height <= canvas.height
                &&& spans is Ok
            }
        }),
{
    motion::law_what_may_be_baked(
        project.canvas.size,
        targets(project.timeline.frames, selected).len() as int,
    );
}

/// A region freeze is accepted exactly where a frame is current, 1 to 1,000 frames are selected, the region
/// can be frozen, and the canvas and its frozen picture take at most 64 MiB together.
pub proof fn law_what_freezes_are_accepted(
    project: ManifestView,
    current: Option<FrameId>,
    selected: Seq<FrameId>,
    region: PhysicalRect,
)
    ensures
        ({
            let count = targets(project.timeline.frames, selected).len() as int;
            let canvas = project.canvas.size;
            freeze_refusal(project, current, selected, region) is None <==> {
                &&& current is Some
                &&& 1 <= count <= 1_000
                &&& region.size.width > 0 && region.size.height > 0
                &&& region.origin.x + region.size.width <= canvas.width
                &&& region.origin.y + region.size.height <= canvas.height
                &&& 8 * (canvas.width * canvas.height) <= 67_108_864
            }
        }),
{
    assert(MAX_SURFACE_BYTES == 67_108_864);
}

/// Each stroke adds its samples.
pub proof fn law_samples_add_up(counts: Seq<usize>, added: usize)
    ensures
        samples(counts.push(added), counts.len() + 1int) == samples(counts, counts.len() as int) + added,
        samples(counts, 0) == 0,
{
    lemma_samples_prefix(counts, counts.push(added), counts.len() as int);
}

proof fn lemma_samples_prefix(counts: Seq<usize>, more: Seq<usize>, count: int)
    requires
        0 <= count <= counts.len() <= more.len(),
        forall|i: int| 0 <= i < count ==> #[trigger] counts[i] == more[i],
    ensures
        samples(counts, count) == samples(more, count),
    decreases count,
{
    if count > 0 {
        lemma_samples_prefix(counts, more, count - 1);
        assert(counts[count - 1] == more[count - 1]);
    }
}

/// A drawn cinemagraph is accepted exactly where its anchor still holds and its reference is the first
/// frame, it has 1 to 256 strokes of which none is empty, with samples within the bound and valid pens,
/// 1 to 1,000 frames are selected, and the reference and its snapshot take at most 64 MiB together.
pub proof fn law_what_drawn_cinemagraphs_are_accepted(
    request: InkRequest,
    frames: Seq<FrameView>,
    selected: Seq<FrameId>,
    max_samples: int,
)
    requires
        0 <= max_samples <= usize::MAX,
    ensures
        ink_refusal(request, frames, selected, max_samples) is None <==> {
            &&& request.anchor_matches
            &&& frames.len() > 0 && frames[0].id == request.reference_frame
            &&& 1 <= request.sample_counts@.len() <= 256
            &&& forall|i: int| 0 <= i < request.sample_counts@.len() ==> (#[trigger] request.sample_counts@[i]) > 0
            &&& samples(request.sample_counts@, request.sample_counts@.len() as int) <= max_samples
            &&& request.pens_valid
            &&& 1 <= targets(frames, selected).len() <= 1_000
            &&& 8 * (request.reference_size.width * request.reference_size.height) + 17 <= 67_108_864
        },
{
    assert(MAX_SURFACE_BYTES == 67_108_864);
    let strokes = request.sample_counts@;
    if forall|i: int| 0 <= i < strokes.len() ==> (#[trigger] strokes[i]) > 0 {
        assert(!(exists|i: int| 0 <= i < strokes.len() && #[trigger] strokes[i] == 0));
    } else {
        let i = choose|i: int| 0 <= i < strokes.len() && !((#[trigger] strokes[i]) > 0);
        assert(strokes[i] == 0);
    }
}

/// A composed edit changes all its frames at once, by one command at the end; before it, it registers the
/// picture that it needs where that is not known. Where it is known, the picture must be as it was found.
pub proof fn law_a_composed_edit_is_one_change(
    assets: Seq<DescriptorView>,
    asset: DescriptorView,
    view: Result<(), String>,
    frames: Seq<FrameId>,
    edit: ComposedFrameEdit,
)
    ensures
        ({
            let known = exists|i: int| 0 <= i < assets.len() && (#[trigger] assets[i]).id == asset.id;
            match composed_edit(assets, asset, view, frames, edit) {
                Ok(commands) => {
                    &&& commands.len() == (if known {
                        1int
                    } else {
                        2
                    })
                    &&& commands.last() == (CommandView::EditComposedFrames { frame_ids: frames, edit })
                    &&& !known ==> commands[0] == (CommandView::RegisterAsset { asset })
                    &&& known ==> view is Ok
                },
                Err(message) => known && (view matches Err(reason) && reason@ == message),
            }
        }),
{
}

} // verus!
