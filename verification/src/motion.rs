//! Motion edits: what is asked for, what it may cost, and storing baked pictures.
use vstd::prelude::*;
use crate::cancel::CancellationToken;
use crate::frames::{FrameClip, FrameView};
use crate::geometry::{PhysicalRect, PhysicalSize};
use crate::ids::{contains_frame, AssetId, FrameId};
use crate::motion_pixels;
use crate::motion_pixels::check_cancelled;
use crate::project;
use crate::project::{
    find_asset, AssetDescriptor, AssetKind, CommandView, DescriptorView, EditCommand, KindView,
    RasterEncoding,
};
use crate::value;
use crate::value::Value;

verus! {

/// The most bytes that the pictures of one edit may take.
pub const MAX_BAKED_BYTES: u64 = 256 * 1024 * 1024;

/// The most bytes that one picture may take.
pub const MAX_SURFACE_BYTES: u64 = 64 * 1024 * 1024;

/// The most frames that one timeline may hold after a motion edit.
pub const MAX_RESULTING_FRAMES: usize = 100_000;

/// A motion edit.
#[derive(Clone, Copy, Debug, PartialEq, Eq, Structural)]
pub enum MotionOperation {
    /// Keeps the pixels of the current frame outside a rectangle, or inside it.
    Cinemagraph {
        /// The rectangle.
        region: PhysicalRect,
        /// Whether the inside is frozen.
        invert: bool,
    },
    /// Appends frames that fade from the last frame to the first.
    LoopCrossfade {
        /// Number of new frames.
        frames: u16,
        /// Time that they take together.
        duration_us: u64,
    },
    /// Finds a frame like the first one and removes the frames after it.
    FindSmoothLoop {
        /// Number of frames that are never taken.
        skip_first: usize,
        /// Share of equal pixels that is asked for, in tenths of a percent.
        similarity_tenths: u16,
        /// Whether the search starts at the end.
        from_end: bool,
    },
}

impl MotionOperation {
    /// The name of the edit.
    pub fn label(&self) -> (label: &'static str)
        ensures
            label@ == (match *self {
                MotionOperation::Cinemagraph { .. } => "Rectangular cinemagraph"@,
                MotionOperation::LoopCrossfade { .. } => "Loop crossfade"@,
                MotionOperation::FindSmoothLoop { .. } => "Smooth loop search"@,
            }),
    {
        match self {
            MotionOperation::Cinemagraph { .. } => "Rectangular cinemagraph",
            MotionOperation::LoopCrossfade { .. } => "Loop crossfade",
            MotionOperation::FindSmoothLoop { .. } => "Smooth loop search",
        }
    }
}

/// What a motion edit did.
#[derive(Clone, Copy, Debug, PartialEq, Eq, Structural)]
pub enum MotionOutcome {
    /// It changed or added this many frames.
    Edited(usize),
    /// It removed this many frames from the end.
    TrimmedTail(usize),
    /// The timeline already ends with a matching frame.
    AlreadySmooth,
    /// No frame matches the first one.
    NoMatchingEnd,
}

/// How far a motion edit has come.
#[derive(Clone, Copy, Debug, PartialEq, Eq, Structural)]
pub struct MotionProgress {
    /// Finished steps.
    pub completed: usize,
    /// All steps.
    pub total: usize,
}

/// Starts a motion edit, unless it was stopped or the project has changed since it
/// was asked for.
pub fn begin_motion_edit<C: CancellationToken>(anchor_matches: bool, cancellation: &C) -> (result:
    Result<(), String>)
    ensures
        match result {
            Ok(_) => anchor_matches,
            Err(message) => {
                ||| cancellation.may_cancel() && message@ == motion_pixels::stopped()
                ||| !anchor_matches && message@
                    == "The project revision or selected frames changed. Choose the motion edit again."@
            },
        },
        cancellation.must_cancel() ==> (result matches Err(message) && message@ == motion_pixels::stopped()),
{
    check_cancelled(cancellation)?;
    if !anchor_matches {
        return Err(
            "The project revision or selected frames changed. Choose the motion edit again."
                .to_owned(),
        );
    }
    Ok(())
}

/// Hands a prepared edit on to be committed, unless it failed or was stopped.
pub fn release_motion_edit<C: CancellationToken>(
    prepared: Result<(Vec<EditCommand>, usize), String>,
    cancellation: &C,
) -> (result: Result<(Vec<EditCommand>, usize), String>)
    ensures
        match result {
            Ok(edit) => !cancellation.must_cancel() && prepared == Ok::<
                (Vec<EditCommand>, usize),
                String,
            >(edit),
            Err(message) => {
                ||| prepared == Err::<(Vec<EditCommand>, usize), String>(message)
                ||| prepared is Ok && cancellation.may_cancel() && message@
                    == motion_pixels::stopped()
            },
        },
{
    let edit = match prepared {
        Ok(edit) => edit,
        Err(message) => return Err(message),
    };
    check_cancelled(cancellation)?;
    Ok(edit)
}

/// What the commit of an edit of `count` frames amounts to.
pub fn motion_outcome(committed: Result<(), String>, count: usize) -> (result: Result<
    MotionOutcome,
    String,
>)
    ensures
        result == (match committed {
            Ok(_) => Ok(MotionOutcome::Edited(count)),
            Err(message) => Err(message),
        }),
{
    match committed {
        Ok(_) => Ok(MotionOutcome::Edited(count)),
        Err(message) => Err(message),
    }
}

/// Whether `frames` pictures of the canvas may be baked.
pub open spec fn within_budget(canvas: PhysicalSize, frames: int) -> bool {
    &&& canvas.nonempty()
    &&& 4 * canvas.pixel_count() <= MAX_SURFACE_BYTES
    &&& 4 * canvas.pixel_count() * frames <= MAX_BAKED_BYTES
}

/// Why baking `frames` pictures of the canvas is refused.
pub open spec fn budget_refusal(canvas: PhysicalSize, frames: int) -> Option<Seq<char>> {
    if 4 * canvas.pixel_count() > u64::MAX {
        Some("Motion canvas byte count overflow."@)
    } else if !within_budget(canvas, frames) {
        Some(
            "Motion edit exceeds the 64 MiB per-frame or 256 MiB total baked-pixel budget. Use fewer frames or a smaller canvas."@,
        )
    } else {
        None
    }
}

/// Refuses to bake more than the edit may cost.
pub fn validate_budget(canvas: PhysicalSize, frames: usize) -> (result: Result<(), String>)
    ensures
        match result {
            Ok(_) => budget_refusal(canvas, frames as int) is None,
            Err(message) => budget_refusal(canvas, frames as int) == Some(message@),
        },
{
    let bytes: u64 = match canvas.area().checked_mul(4) {
        Some(bytes) => bytes,
        None => return Err("Motion canvas byte count overflow.".to_owned()),
    };
    let over_total = match bytes.checked_mul(frames as u64) {
        Some(total) => total > MAX_BAKED_BYTES,
        None => true,
    };
    if canvas.width == 0 || canvas.height == 0 || bytes > MAX_SURFACE_BYTES || over_total {
        return Err(
            "Motion edit exceeds the 64 MiB per-frame or 256 MiB total baked-pixel budget. Use fewer frames or a smaller canvas.".to_owned(),
        );
    }
    Ok(())
}

/// The frames whose identities are selected.
pub open spec fn chosen(selected: Seq<FrameId>) -> spec_fn(FrameView) -> bool {
    |frame: FrameView| selected.contains(frame.id)
}

/// The selected frames, in timeline order.
pub fn selected_clips(frames: &Vec<FrameClip>, selected: &Vec<FrameId>) -> (clips: Vec<FrameClip>)
    ensures
        value::views(clips@) == value::views(frames@).filter(chosen(selected@)),
        clips@.len() == value::views(clips@).len(),
{
    let ghost all = value::views(frames@);
    let mut clips: Vec<FrameClip> = Vec::new();
    let mut index: usize = 0;
    proof {
        reveal(Seq::filter);
        assert(all.take(0).filter(chosen(selected@)) =~= Seq::empty());
        assert(value::views(clips@) =~= Seq::empty());
    }
    while index < frames.len()
        invariant
            index <= frames.len(),
            all == value::views(frames@),
            value::views(clips@) == all.take(index as int).filter(chosen(selected@)),
        decreases frames.len() - index,
    {
        proof {
            value::lemma_filter_next(all, chosen(selected@), index as int);
        }
        if contains_frame(selected, frames[index].id) {
            let ghost before = value::views(clips@);
            clips.push(frames[index].duplicate());
            assert(value::views(clips@) =~= before.push(all[index as int]));
        }
        index += 1;
    }
    assert(all.take(index as int) =~= all);
    clips
}

/// The identities of frames.
pub open spec fn frame_ids(frames: Seq<FrameView>) -> Seq<FrameId> {
    frames.map_values(|frame: FrameView| frame.id)
}

/// The identities of the given frames.
pub fn ids_of(frames: &Vec<FrameClip>) -> (ids: Vec<FrameId>)
    ensures
        ids@ == frame_ids(value::views(frames@)),
{
    let mut ids: Vec<FrameId> = Vec::with_capacity(frames.len());
    let mut index: usize = 0;
    while index < frames.len()
        invariant
            index <= frames.len(),
            ids@.len() == index,
            forall|i: int| 0 <= i < index ==> ids@[i] == (#[trigger] frames@[i]).id,
        decreases frames.len() - index,
    {
        ids.push(frames[index].id);
        index += 1;
    }
    assert(ids@ =~= frame_ids(value::views(frames@)));
    ids
}

/// A picture that was rendered for an edit.
#[derive(Clone, Copy, Debug, PartialEq, Eq, Structural)]
pub struct BakedPicture {
    /// The digest of its pixels.
    pub asset_id: AssetId,
    /// Its dimensions.
    pub size: PhysicalSize,
    /// The number of its bytes.
    pub byte_len: u64,
}

impl BakedPicture {
    /// The descriptor that registers the picture.
    pub open spec fn descriptor(self) -> DescriptorView {
        DescriptorView {
            id: self.asset_id,
            byte_len: self.byte_len,
            kind: KindView::Frame { size: self.size, encoding: RasterEncoding::Rgba8 },
        }
    }

    /// Whether an existing descriptor stands for the same picture.
    pub open spec fn agrees(self, existing: DescriptorView) -> bool {
        &&& existing.kind.raster() == Some((self.size, RasterEncoding::Rgba8))
        &&& existing.byte_len == self.byte_len
    }
}

/// The commands of an edit and the pictures it has registered so far.
pub struct Stored {
    /// The commands.
    pub commands: Seq<CommandView>,
    /// The digests registered by them.
    pub registered: Seq<AssetId>,
}

/// Stores one more picture.
pub open spec fn store(
    before: Stored,
    picture: BakedPicture,
    assets: Seq<DescriptorView>,
) -> Result<Stored, Seq<char>> {
    match project::asset_of(assets, picture.asset_id) {
        Some(existing) => if picture.agrees(existing) {
            Ok(before)
        } else {
            Err("An existing raster asset has incompatible dimensions or encoding."@)
        },
        None => if before.registered.contains(picture.asset_id) {
            Ok(before)
        } else {
            Ok(
                Stored {
                    commands: before.commands.push(
                        CommandView::RegisterAsset { asset: picture.descriptor() },
                    ),
                    registered: before.registered.push(picture.asset_id),
                },
            )
        },
    }
}

/// A picture is registered at most once, however often it is stored: after it was stored, the
/// project or the edit has it, no digest is registered twice or over one of the project, and
/// storing it again changes nothing.
pub proof fn law_a_picture_is_registered_once(before: Stored, picture: BakedPicture, assets: Seq<DescriptorView>)
    requires
        before.registered.no_duplicates(),
        forall|i: int|
            0 <= i < before.registered.len() ==> !project::registered(assets, #[trigger] before.registered[i]),
        store(before, picture, assets) is Ok,
    ensures
        ({
            let after = store(before, picture, assets)->Ok_0;
            &&& project::registered(assets, picture.asset_id) || after.registered.contains(picture.asset_id)
            &&& after.registered.no_duplicates()
            &&& forall|i: int|
                0 <= i < after.registered.len() ==> !project::registered(assets, #[trigger] after.registered[i])
            &&& store(after, picture, assets) == Ok::<Stored, Seq<char>>(after)
        }),
{
    let after = store(before, picture, assets)->Ok_0;
    if after != before {
        assert(after.registered.last() == picture.asset_id);
        assert(after.registered.contains(picture.asset_id));
    }
}

/// Whether the digest is one of `ids`.
pub fn contains_asset(ids: &Vec<AssetId>, id: AssetId) -> (found: bool)
    ensures
        found == ids@.contains(id),
{
    let mut index: usize = 0;
    while index < ids.len()
        invariant
            index <= ids.len(),
            forall|i: int| 0 <= i < index ==> ids@[i] != id,
        decreases ids.len() - index,
    {
        if ids[index] == id {
            assert(ids@[index as int] == id);
            return true;
        }
        index += 1;
    }
    false
}

/// Registers a picture with the edit, unless the project or the edit has it already.
pub fn store_surface(
    assets: &Vec<AssetDescriptor>,
    picture: BakedPicture,
    registered: &mut Vec<AssetId>,
    commands: &mut Vec<EditCommand>,
) -> (result: Result<AssetId, String>)
    ensures
        ({
            let before = Stored {
                commands: value::views(old(commands)@),
                registered: old(registered)@,
            };
            let after = Stored {
                commands: value::views(final(commands)@),
                registered: final(registered)@,
            };
            match result {
                Ok(id) => {
                    &&& id == picture.asset_id
                    &&& store(before, picture, value::views(assets@)) == Ok::<Stored, Seq<char>>(
                        after,
                    )
                },
                Err(message) => {
                    &&& store(before, picture, value::views(assets@)) == Err::<Stored, Seq<char>>(
                        message@,
                    )
                    &&& after == before
                },
            }
        }),
{
    match find_asset(assets, picture.asset_id) {
        Some(at) => {
            let existing = &assets[at];
            let agrees = match existing.kind.raster_descriptor() {
                Some((size, RasterEncoding::Rgba8)) => size == picture.size,
                _ => false,
            };
            if !agrees || existing.byte_len != picture.byte_len {
                return Err(
                    "An existing raster asset has incompatible dimensions or encoding.".to_owned(),
                );
            }
        },
        None => {
            if !contains_asset(registered, picture.asset_id) {
                let ghost before = value::views(commands@);
                registered.push(picture.asset_id);
                let command = EditCommand::RegisterAsset {
                    asset: AssetDescriptor {
                        id: picture.asset_id,
                        byte_len: picture.byte_len,
                        kind: AssetKind::Frame {
                            size: picture.size,
                            encoding: RasterEncoding::Rgba8,
                        },
                    },
                };
                let ghost shape = command@;
                commands.push(command);
                assert(value::views(commands@) =~= before.push(shape));
            }
        },
    }
    Ok(picture.asset_id)
}

/// Fails with `message` where storing gave another digest than the edit names.
pub fn confirm_stored(stored: AssetId, expected: AssetId, message: &str) -> (result: Result<
    (),
    String,
>)
    ensures
        match result {
            Ok(_) => stored == expected,
            Err(text) => stored != expected && text@ == message@,
        },
{
    if stored == expected {
        Ok(())
    } else {
        Err(message.to_owned())
    }
}

/// A motion edit may be baked exactly where the canvas has an extent, a picture of it takes at most 64 MiB
/// and all pictures together take at most 256 MiB.
pub proof fn law_what_may_be_baked(canvas: PhysicalSize, frames: int)
    ensures
        budget_refusal(canvas, frames) is None <==> {
            &&& canvas.width > 0 && canvas.height > 0
            &&& 4 * (canvas.width * canvas.height) <= 67_108_864
            &&& 4 * (canvas.width * canvas.height) * frames <= 268_435_456
        },
        budget_refusal(canvas, frames) == Some("Motion canvas byte count overflow."@) ==> 4 * (canvas.width
            * canvas.height) > 67_108_864,
{
    assert(MAX_SURFACE_BYTES == 67_108_864);
    assert(MAX_BAKED_BYTES == 268_435_456);
    reveal_strlit("Motion canvas byte count overflow.");
    reveal_strlit(
        "Motion edit exceeds the 64 MiB per-frame or 256 MiB total baked-pixel budget. Use fewer frames or a smaller canvas.",
    );
    let words = "Motion canvas byte count overflow."@;
    let other = "Motion edit exceeds the 64 MiB per-frame or 256 MiB total baked-pixel budget. Use fewer frames or a smaller canvas."@;
    assert(words.len() != other.len());
}

/// The frames that are chosen are those of the timeline whose identity is selected, each with all that it
/// holds and in the order of the timeline.
pub proof fn law_chosen_frames_stay_in_order(frames: Seq<FrameView>, selected: Seq<FrameId>)
    ensures
        frames.filter(chosen(selected)) == frames.filter(
            |frame: FrameView| exists|k: int| 0 <= k < selected.len() && #[trigger] selected[k] == frame.id,
        ),
        frame_ids(frames).len() == frames.len(),
        forall|i: int| 0 <= i < frames.len() ==> (#[trigger] frame_ids(frames)[i]) == frames[i].id,
{
    let by_hand = |frame: FrameView| exists|k: int| 0 <= k < selected.len() && #[trigger] selected[k] == frame.id;
    assert forall|frame: FrameView| #[trigger] chosen(selected)(frame) == by_hand(frame) by {
        if selected.contains(frame.id) {
            let k = choose|k: int| 0 <= k < selected.len() && selected[k] == frame.id;
            assert(selected[k] == frame.id);
        }
    }
    assert(chosen(selected) =~= by_hand);
}

/// A picture that is not known yet is registered as a frame of its size and length, in plain pixels, after
/// what was registered before; one that is known must agree with what is known, and changes nothing.
pub proof fn law_pictures_are_registered_as_they_are(before: Stored, picture: BakedPicture, assets: Seq<DescriptorView>)
    ensures
        ({
            let known = project::asset_of(assets, picture.asset_id);
            match store(before, picture, assets) {
                Ok(after) => if known is Some || before.registered.contains(picture.asset_id) {
                    &&& after == before
                    &&& known matches Some(asset) ==> {
                        &&& asset.byte_len == picture.byte_len
                        &&& {
                            ||| asset.kind == (KindView::Frame { size: picture.size, encoding: RasterEncoding::Rgba8 })
                            ||| asset.kind == (KindView::OverlayImage {
                                size: picture.size,
                                encoding: RasterEncoding::Rgba8,
                            })
                            ||| asset.kind == (KindView::Mask { size: picture.size, encoding: RasterEncoding::Rgba8 })
                        }
                    }
                } else {
                    &&& after.registered.len() == before.registered.len() + 1
                    &&& after.registered.take(before.registered.len() as int) == before.registered
                    &&& after.registered.last() == picture.asset_id
                    &&& after.commands.len() == before.commands.len() + 1
                    &&& after.commands.take(before.commands.len() as int) == before.commands
                    &&& after.commands.last() matches CommandView::RegisterAsset { asset } && asset.id
                        == picture.asset_id && asset.byte_len == picture.byte_len && asset.kind == (KindView::Frame {
                        size: picture.size,
                        encoding: RasterEncoding::Rgba8,
                    })
                },
                Err(_) => known matches Some(asset) && !(asset.byte_len == picture.byte_len && (asset.kind
                    == (KindView::Frame { size: picture.size, encoding: RasterEncoding::Rgba8 }) || asset.kind
                    == (KindView::OverlayImage { size: picture.size, encoding: RasterEncoding::Rgba8 }) || asset.kind
                    == (KindView::Mask { size: picture.size, encoding: RasterEncoding::Rgba8 }))),
            }
        }),
{
    if store(before, picture, assets) is Ok {
        let after = store(before, picture, assets)->Ok_0;
        if after != before {
            assert(after.registered.take(before.registered.len() as int) =~= before.registered);
            assert(after.commands.take(before.commands.len() as int) =~= before.commands);
        }
    }
}

} // verus!
