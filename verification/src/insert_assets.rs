//! The assets that come along with an inserted project.
use vstd::prelude::*;
use crate::cancel::CancellationToken;
use crate::content::{ContentView, OverlayContent, TextRaster};
use crate::frames::{Effect, FrameClip, FrameView, RenderStep};
use crate::geometry::PhysicalSize;
use crate::ids::AssetId;
use crate::insert_checks::{
    check_insertion_cancelled, ProjectInsertionError, MAX_INSERTED_ASSET_BYTES,
};
use crate::memory::room_for;
use crate::motion_still::{
    PREMULTIPLIED_SNAPSHOT_FORMAT_VERSION, PREMULTIPLIED_SNAPSHOT_HEADER_LEN,
};
use crate::overlay::{CellView, FrameInputReplayRef, FrameOverlayCell, OverlayTrack, TrackView};
use crate::project;
use crate::project::{
    find_asset, AssetDescriptor, AssetKind, DescriptorView, KindView, ProjectManifest,
    RasterEncoding, Timeline, TimelineView,
};
use crate::value;
use crate::value::Value;

verus! {

/// Whether a list of digests is in order, each listed once.
pub open spec fn ordered(ids: Seq<AssetId>) -> bool {
    forall|i: int, j: int| 0 <= i < j < ids.len() ==> (#[trigger] ids[i]).before(#[trigger] ids[j])
}

/// Adds a digest to an ordered list, unless it is listed.
pub fn insert_asset(ids: &mut Vec<AssetId>, id: AssetId)
    requires
        ordered(old(ids)@),
    ensures
        ordered(final(ids)@),
        forall|other: AssetId|
            #[trigger] final(ids)@.contains(other) <==> old(ids)@.contains(other) || other == id,
{
    let ghost before = ids@;
    let mut at: usize = 0;
    while at < ids.len() && ids[at].is_before(id)
        invariant
            at <= ids.len(),
            ids@ == before,
            forall|i: int| 0 <= i < at ==> (#[trigger] before[i]).before(id),
        decreases ids.len() - at,
    {
        at += 1;
    }
    if at < ids.len() && ids[at] == id {
        assert(before[at as int] == id);
        return;
    }
    ids.insert(at, id);
    proof {
        let after = ids@;
        assert(after =~= before.insert(at as int, id));
        assert forall|i: int| at <= i < before.len() implies id.before(#[trigger] before[i]) by {
            assert(id.before(before[at as int]));
            if at < i {
                assert(before[at as int].before(before[i]));
            }
        }
        assert forall|i: int, j: int| 0 <= i < j < after.len() implies (#[trigger] after[i]).before(
            #[trigger] after[j],
        ) by {
            let x = if i <= at {
                i
            } else {
                i - 1
            };
            let y = if j <= at {
                j
            } else {
                j - 1
            };
            if i < at {
                assert(after[i] == before[i]);
            }
            if j > at {
                assert(after[j] == before[j - 1]);
            }
            if j < at {
                assert(after[j] == before[j]);
            }
            if i > at {
                assert(after[i] == before[i - 1]);
            }
        }
        assert forall|other: AssetId| #[trigger] after.contains(other) <==> before.contains(other)
            || other == id by {
            assert(after[at as int] == id);
            if before.contains(other) {
                let k = choose|k: int| 0 <= k < before.len() && before[k] == other;
                if k < at {
                    assert(after[k] == other);
                } else {
                    assert(after[k + 1] == other);
                }
            }
            if after.contains(other) && other != id {
                let k = choose|k: int| 0 <= k < after.len() && after[k] == other;
                if k < at {
                    assert(before[k] == other);
                } else {
                    assert(before[k - 1] == other);
                }
            }
        }
    }
}

/// The asset that a prepared text is stored in.
pub open spec fn raster_asset(raster: Option<TextRaster>) -> Option<AssetId> {
    match raster {
        Some(raster) => Some(raster.asset_id),
        None => None,
    }
}

/// The asset that an overlay paints.
pub open spec fn content_asset(content: ContentView) -> Option<AssetId> {
    match content {
        ContentView::Raster { asset_id, .. } => Some(asset_id),
        ContentView::Text { raster, .. } => raster_asset(raster),
        ContentView::KeyStroke { raster, .. } => raster_asset(raster),
        ContentView::Cursor { asset_id, .. } => Some(asset_id),
        _ => None,
    }
}

/// The asset that an overlay paints.
fn asset_of_content(content: &OverlayContent) -> (asset: Option<AssetId>)
    ensures
        asset == content_asset(content@),
{
    match content {
        OverlayContent::Raster { asset_id, .. } => Some(*asset_id),
        OverlayContent::Text { raster: Some(raster), .. } => Some(raster.asset_id),
        OverlayContent::KeyStroke { raster: Some(raster), .. } => Some(raster.asset_id),
        OverlayContent::Cursor { asset_id, .. } => Some(*asset_id),
        _ => None,
    }
}

/// Whether a frame needs the asset: as its picture, its cursor, or in an effect or a
/// rendering step.
pub open spec fn frame_needs(frame: FrameView, id: AssetId) -> bool {
    ||| frame.asset_id == id
    ||| frame.capture_metadata.cursor_asset == Some(id)
    ||| exists|i: int| 0 <= i < frame.effects.len() && (#[trigger] frame.effects[i]).asset() == Some(id)
    ||| exists|i: int|
        0 <= i < frame.render_steps.len() && (#[trigger] frame.render_steps[i]).asset() == Some(id)
}

/// Whether one of the first `count` runs of recorded input is in the asset.
pub open spec fn runs_need(runs: Seq<FrameInputReplayRef>, count: int, id: AssetId) -> bool {
    exists|i: int| 0 <= i < count && (#[trigger] runs[i]).asset_id == id
}

/// Whether one of the first `count` cells needs the asset.
pub open spec fn list_needs(cells: Seq<CellView>, count: int, id: AssetId) -> bool {
    exists|i: int| 0 <= i < count && cell_needs(#[trigger] cells[i], id)
}

/// Whether the recorded input is in the asset.
pub open spec fn replay_needs(replay: Option<Seq<FrameInputReplayRef>>, id: AssetId) -> bool {
    match replay {
        Some(runs) => runs_need(runs, runs.len() as int, id),
        None => false,
    }
}

/// Whether one of the cells needs the asset.
pub open spec fn cells_need(cells: Option<Seq<CellView>>, id: AssetId) -> bool {
    match cells {
        Some(list) => list_needs(list, list.len() as int, id),
        None => false,
    }
}

/// Whether a cell needs the asset: to paint a mark, or to replay recorded input.
pub open spec fn cell_needs(cell: CellView, id: AssetId) -> bool {
    ||| exists|i: int|
        0 <= i < cell.marks.len() && content_asset((#[trigger] cell.marks[i]).content) == Some(id)
    ||| replay_needs(cell.input_replay, id)
}

/// Whether a layer needs the asset.
pub open spec fn track_needs(track: TrackView, id: AssetId) -> bool {
    ||| exists|i: int|
        0 <= i < track.items.len() && content_asset((#[trigger] track.items[i]).content) == Some(id)
    ||| cells_need(track.frame_cells, id)
}

/// Whether a timeline needs the asset.
pub open spec fn timeline_needs(timeline: TimelineView, id: AssetId) -> bool {
    ||| exists|i: int|
        0 <= i < timeline.frames.len() && frame_needs(#[trigger] timeline.frames[i], id)
    ||| exists|i: int|
        0 <= i < timeline.overlay_tracks.len() && track_needs(
            #[trigger] timeline.overlay_tracks[i],
            id,
        )
}

/// Adds what a frame needs.
fn add_frame(needed: &mut Vec<AssetId>, frame: &FrameClip)
    requires
        ordered(old(needed)@),
    ensures
        ordered(final(needed)@),
        forall|id: AssetId|
            #[trigger] final(needed)@.contains(id) <==> old(needed)@.contains(id) || frame_needs(
                frame@,
                id,
            ),
{
    let ghost before = needed@;
    insert_asset(needed, frame.asset_id);
    if let Some(id) = frame.capture_metadata.cursor_asset {
        insert_asset(needed, id);
    }
    let ghost base = needed@;
    let mut at: usize = 0;
    while at < frame.effects.len()
        invariant
            at <= frame.effects.len(),
            ordered(needed@),
            forall|id: AssetId|
                #[trigger] needed@.contains(id) <==> base.contains(id) || exists|i: int|
                    0 <= i < at && (#[trigger] frame@.effects[i]).asset() == Some(id),
        decreases frame.effects.len() - at,
    {
        let ghost earlier = needed@;
        assert(frame@.effects[at as int] == frame.effects@[at as int]);
        if let Some(id) = frame.effects[at].referenced_asset() {
            insert_asset(needed, id);
        }
        at += 1;
    }
    let ghost middle = needed@;
    let mut step: usize = 0;
    while step < frame.render_steps.len()
        invariant
            step <= frame.render_steps.len(),
            ordered(needed@),
            forall|id: AssetId|
                #[trigger] needed@.contains(id) <==> middle.contains(id) || exists|i: int|
                    0 <= i < step && (#[trigger] frame@.render_steps[i]).asset() == Some(id),
        decreases frame.render_steps.len() - step,
    {
        assert(frame@.render_steps[step as int] == frame.render_steps@[step as int]);
        if let Some(id) = frame.render_steps[step].referenced_asset() {
            insert_asset(needed, id);
        }
        step += 1;
    }
    assert forall|id: AssetId|
        #[trigger] needed@.contains(id) <==> before.contains(id) || frame_needs(frame@, id) by {
        assert(middle.contains(id) <==> base.contains(id) || exists|i: int|
            0 <= i < frame@.effects.len() && (#[trigger] frame@.effects[i]).asset() == Some(id));
        assert(base.contains(id) <==> before.contains(id) || frame@.asset_id == id
            || frame@.capture_metadata.cursor_asset == Some(id));
    }
}

/// Adds what a cell needs.
fn add_cell(needed: &mut Vec<AssetId>, cell: &FrameOverlayCell)
    requires
        ordered(old(needed)@),
    ensures
        ordered(final(needed)@),
        forall|id: AssetId|
            #[trigger] final(needed)@.contains(id) <==> old(needed)@.contains(id) || cell_needs(
                cell@,
                id,
            ),
{
    let ghost before = needed@;
    let mut at: usize = 0;
    while at < cell.marks.len()
        invariant
            at <= cell.marks.len(),
            ordered(needed@),
            forall|id: AssetId|
                #[trigger] needed@.contains(id) <==> before.contains(id) || exists|i: int|
                    0 <= i < at && content_asset((#[trigger] cell@.marks[i]).content) == Some(id),
        decreases cell.marks.len() - at,
    {
        assert(cell@.marks[at as int] == cell.marks@[at as int]@);
        if let Some(id) = asset_of_content(&cell.marks[at].content) {
            insert_asset(needed, id);
        }
        at += 1;
    }
    let ghost middle = needed@;
    if let Some(runs) = &cell.input_replay {
        let mut run: usize = 0;
        while run < runs.len()
            invariant
                run <= runs.len(),
                ordered(needed@),
                forall|id: AssetId|
                    #[trigger] needed@.contains(id) <==> middle.contains(id) || runs_need(
                        runs@,
                        run as int,
                        id,
                    ),
            decreases runs.len() - run,
        {
            insert_asset(needed, runs[run].asset_id);
            run += 1;
        }
        assert(cell@.input_replay == Some(runs@));
        assert forall|id: AssetId|
            #[trigger] needed@.contains(id) <==> middle.contains(id) || replay_needs(
                cell@.input_replay,
                id,
            ) by {}
    } else {
        assert(cell@.input_replay is None);
    }
    assert forall|id: AssetId|
        #[trigger] needed@.contains(id) <==> before.contains(id) || cell_needs(cell@, id) by {
        assert(needed@.contains(id) <==> middle.contains(id) || replay_needs(
            cell@.input_replay,
            id,
        ));
        assert(middle.contains(id) <==> before.contains(id) || exists|i: int|
            0 <= i < cell@.marks.len() && content_asset((#[trigger] cell@.marks[i]).content)
                == Some(id));
    }
}

/// Adds what a layer needs.
fn add_track(needed: &mut Vec<AssetId>, track: &OverlayTrack)
    requires
        ordered(old(needed)@),
    ensures
        ordered(final(needed)@),
        forall|id: AssetId|
            #[trigger] final(needed)@.contains(id) <==> old(needed)@.contains(id) || track_needs(
                track@,
                id,
            ),
{
    let ghost before = needed@;
    let mut at: usize = 0;
    while at < track.items.len()
        invariant
            at <= track.items.len(),
            ordered(needed@),
            forall|id: AssetId|
                #[trigger] needed@.contains(id) <==> before.contains(id) || exists|i: int|
                    0 <= i < at && content_asset((#[trigger] track@.items[i]).content) == Some(id),
        decreases track.items.len() - at,
    {
        assert(track@.items[at as int] == track.items@[at as int]@);
        if let Some(id) = asset_of_content(&track.items[at].content) {
            insert_asset(needed, id);
        }
        at += 1;
    }
    let ghost middle = needed@;
    if let Some(cells) = &track.frame_cells {
        let ghost shown = value::views(cells@);
        let mut cell: usize = 0;
        while cell < cells.len()
            invariant
                cell <= cells.len(),
                shown == value::views(cells@),
                ordered(needed@),
                forall|id: AssetId|
                    #[trigger] needed@.contains(id) <==> middle.contains(id) || list_needs(
                        shown,
                        cell as int,
                        id,
                    ),
            decreases cells.len() - cell,
        {
            assert(shown[cell as int] == cells@[cell as int]@);
            add_cell(needed, &cells[cell]);
            cell += 1;
        }
        assert(track@.frame_cells == Some(shown));
        assert forall|id: AssetId|
            #[trigger] needed@.contains(id) <==> middle.contains(id) || cells_need(
                track@.frame_cells,
                id,
            ) by {}
    } else {
        assert(track@.frame_cells is None);
    }
    assert forall|id: AssetId|
        #[trigger] needed@.contains(id) <==> before.contains(id) || track_needs(track@, id) by {
        assert(needed@.contains(id) <==> middle.contains(id) || cells_need(
            track@.frame_cells,
            id,
        ));
        assert(middle.contains(id) <==> before.contains(id) || exists|i: int|
            0 <= i < track@.items.len() && content_asset((#[trigger] track@.items[i]).content)
                == Some(id));
    }
}

/// Every asset that a project needs, in order, each listed once.
pub fn referenced_assets(source: &ProjectManifest) -> (needed: Vec<AssetId>)
    ensures
        ordered(needed@),
        forall|id: AssetId|
            #[trigger] needed@.contains(id) <==> timeline_needs(source@.timeline, id),
{
    let ghost view = source@.timeline;
    let frames = &source.timeline.frames;
    let tracks = &source.timeline.overlay_tracks;
    let mut needed: Vec<AssetId> = Vec::new();
    let mut at: usize = 0;
    while at < frames.len()
        invariant
            at <= frames.len(),
            view.frames == value::views(frames@),
            ordered(needed@),
            forall|id: AssetId|
                #[trigger] needed@.contains(id) <==> exists|i: int|
                    0 <= i < at && frame_needs(#[trigger] view.frames[i], id),
        decreases frames.len() - at,
    {
        assert(view.frames[at as int] == frames@[at as int]@);
        add_frame(&mut needed, &frames[at]);
        at += 1;
    }
    let ghost middle = needed@;
    let mut track: usize = 0;
    while track < tracks.len()
        invariant
            track <= tracks.len(),
            view.overlay_tracks == value::views(tracks@),
            ordered(needed@),
            forall|id: AssetId|
                #[trigger] needed@.contains(id) <==> middle.contains(id) || exists|i: int|
                    0 <= i < track && track_needs(#[trigger] view.overlay_tracks[i], id),
        decreases tracks.len() - track,
    {
        assert(view.overlay_tracks[track as int] == tracks@[track as int]@);
        add_track(&mut needed, &tracks[track]);
        track += 1;
    }
    assert forall|id: AssetId| #[trigger] needed@.contains(id) <==> timeline_needs(view, id) by {
        assert(middle.contains(id) <==> exists|i: int|
            0 <= i < view.frames.len() && frame_needs(#[trigger] view.frames[i], id));
    }
    needed
}

/// Whether two descriptors stand for blobs that are stored alike: rasters of the same
/// dimensions and encoding, or anything else of the same kind.
pub open spec fn stored_alike(left: KindView, right: KindView) -> bool {
    match (left.raster(), right.raster()) {
        (Some(a), Some(b)) => a == b,
        (None, None) => left == right,
        _ => false,
    }
}

/// Whether two descriptors stand for blobs that are stored alike.
pub fn same_asset_storage(left: &AssetDescriptor, right: &AssetDescriptor) -> (same: bool)
    ensures
        same == stored_alike(left.kind@, right.kind@),
{
    match (left.kind.raster_descriptor(), right.kind.raster_descriptor()) {
        (Some((size, encoding)), Some((other_size, other_encoding))) => size == other_size
            && encoding == other_encoding,
        (None, None) => left.kind.same(&right.kind),
        _ => false,
    }
}

/// Which imported blobs are pools of recorded input.
#[derive(Clone, Debug, PartialEq, Eq)]
pub struct ReplayPools {
    /// Their media type.
    pub media_type: String,
    /// The most bytes that one may take.
    pub max_bytes: u64,
}

/// The verdict on a descriptor that is to be inserted.
pub enum DescriptorVerdict {
    /// It can be inserted.
    Accepted,
    /// Its size cannot be counted.
    Budget,
    /// It is not as long as its pixels.
    Length,
    /// It is of a kind that cannot be inserted.
    Unsupported,
}

/// Whether a descriptor can be inserted: raw rasters and premultiplied pictures of the
/// right length, and pools of recorded input.
pub open spec fn judge(descriptor: DescriptorView, pools: ReplayPools) -> DescriptorVerdict {
    match descriptor.kind {
        KindView::PremultipliedSnapshot { size, format_version } => if format_version
            != PREMULTIPLIED_SNAPSHOT_FORMAT_VERSION {
            DescriptorVerdict::Unsupported
        } else if 4 * size.pixel_count() + PREMULTIPLIED_SNAPSHOT_HEADER_LEN > u64::MAX {
            DescriptorVerdict::Budget
        } else if 4 * size.pixel_count() + PREMULTIPLIED_SNAPSHOT_HEADER_LEN != descriptor.byte_len {
            DescriptorVerdict::Length
        } else {
            DescriptorVerdict::Accepted
        },
        KindView::ImportedSource { media_type } => if media_type == pools.media_type@ && 1
            <= descriptor.byte_len <= pools.max_bytes {
            DescriptorVerdict::Accepted
        } else {
            DescriptorVerdict::Unsupported
        },
        _ => {
            let (size, encoding) = descriptor.kind.raster()->0;
            if encoding != RasterEncoding::Rgba8 {
                DescriptorVerdict::Unsupported
            } else if 4 * size.pixel_count() > u64::MAX {
                DescriptorVerdict::Budget
            } else if 4 * size.pixel_count() != descriptor.byte_len {
                DescriptorVerdict::Length
            } else {
                DescriptorVerdict::Accepted
            }
        },
    }
}

/// Whether the error tells the verdict on the asset.
pub open spec fn tells_verdict(
    error: ProjectInsertionError,
    id: AssetId,
    verdict: DescriptorVerdict,
) -> bool {
    match verdict {
        DescriptorVerdict::Accepted => false,
        DescriptorVerdict::Budget => error == ProjectInsertionError::AssetBudget,
        DescriptorVerdict::Length => error == ProjectInsertionError::InvalidAssetLength(id),
        DescriptorVerdict::Unsupported => error == ProjectInsertionError::UnsupportedAsset(id),
    }
}

/// Refuses a descriptor that cannot be inserted.
pub fn validate_inserted_asset_descriptor(
    descriptor: &AssetDescriptor,
    pools: &ReplayPools,
) -> (result: Result<(), ProjectInsertionError>)
    ensures
        match result {
            Ok(_) => judge(descriptor@, *pools) is Accepted,
            Err(error) => tells_verdict(error, descriptor.id, judge(descriptor@, *pools)),
        },
{
    if let Some((size, encoding)) = descriptor.kind.raster_descriptor() {
        if encoding != RasterEncoding::Rgba8 {
            return Err(ProjectInsertionError::UnsupportedAsset(descriptor.id));
        }
        let expected: u64 = match size.area().checked_mul(4) {
            Some(bytes) => bytes,
            None => return Err(ProjectInsertionError::AssetBudget),
        };
        if expected != descriptor.byte_len {
            return Err(ProjectInsertionError::InvalidAssetLength(descriptor.id));
        }
        return Ok(());
    }
    match &descriptor.kind {
        AssetKind::PremultipliedSnapshot { size, format_version } => {
            if *format_version != PREMULTIPLIED_SNAPSHOT_FORMAT_VERSION {
                return Err(ProjectInsertionError::UnsupportedAsset(descriptor.id));
            }
            let pixels: u64 = match size.area().checked_mul(4) {
                Some(bytes) => bytes,
                None => return Err(ProjectInsertionError::AssetBudget),
            };
            let expected: u64 = match pixels.checked_add(PREMULTIPLIED_SNAPSHOT_HEADER_LEN) {
                Some(bytes) => bytes,
                None => return Err(ProjectInsertionError::AssetBudget),
            };
            if expected != descriptor.byte_len {
                return Err(ProjectInsertionError::InvalidAssetLength(descriptor.id));
            }
            Ok(())
        },
        AssetKind::ImportedSource { media_type } => {
            if *media_type == pools.media_type && 1 <= descriptor.byte_len && descriptor.byte_len
                <= pools.max_bytes {
                Ok(())
            } else {
                Err(ProjectInsertionError::UnsupportedAsset(descriptor.id))
            }
        },
        _ => Err(ProjectInsertionError::UnsupportedAsset(descriptor.id)),
    }
}

/// What checking the first `count` needed assets comes to.
pub enum AssetCheck {
    /// The descriptors and the bytes that they take together.
    Accepted(Seq<DescriptorView>, int),
    /// An asset that the source has not registered.
    Missing(AssetId),
    /// A descriptor that cannot be inserted.
    Refused(AssetId, DescriptorVerdict),
    /// Too many bytes.
    Budget,
    /// Another asset of the same digest.
    Collision(AssetId),
}

/// Checks one more asset.
pub open spec fn check_asset(
    before: AssetCheck,
    id: AssetId,
    source: Seq<DescriptorView>,
    destination: Seq<DescriptorView>,
    pools: ReplayPools,
) -> AssetCheck {
    match before {
        AssetCheck::Accepted(list, total) => match project::asset_of(source, id) {
            None => AssetCheck::Missing(id),
            Some(descriptor) => if !(judge(descriptor, pools) is Accepted) {
                AssetCheck::Refused(descriptor.id, judge(descriptor, pools))
            } else if total + descriptor.byte_len > MAX_INSERTED_ASSET_BYTES {
                AssetCheck::Budget
            } else if project::asset_of(destination, id) matches Some(existing) && (!stored_alike(
                existing.kind,
                descriptor.kind,
            ) || existing.byte_len != descriptor.byte_len) {
                AssetCheck::Collision(id)
            } else {
                AssetCheck::Accepted(list.push(descriptor), total + descriptor.byte_len)
            },
        },
        failure => failure,
    }
}

/// Checks the first `count` needed assets.
pub open spec fn check_assets(
    needed: Seq<AssetId>,
    count: int,
    source: Seq<DescriptorView>,
    destination: Seq<DescriptorView>,
    pools: ReplayPools,
) -> AssetCheck
    decreases count,
{
    if count <= 0 {
        AssetCheck::Accepted(Seq::empty(), 0)
    } else {
        check_asset(
            check_assets(needed, count - 1, source, destination, pools),
            needed[count - 1],
            source,
            destination,
            pools,
        )
    }
}

/// A failed check stays failed.
proof fn lemma_check_stays_failed(
    needed: Seq<AssetId>,
    failed: int,
    count: int,
    source: Seq<DescriptorView>,
    destination: Seq<DescriptorView>,
    pools: ReplayPools,
)
    requires
        0 <= failed <= count,
        check_assets(needed, failed, source, destination, pools) !is Accepted,
    ensures
        check_assets(needed, count, source, destination, pools) == check_assets(
            needed,
            failed,
            source,
            destination,
            pools,
        ),
    decreases count,
{
    if failed < count {
        lemma_check_stays_failed(needed, failed, count - 1, source, destination, pools);
    }
}

/// Whether the error tells the failure of a check.
pub open spec fn tells_check(error: ProjectInsertionError, check: AssetCheck) -> bool {
    match check {
        AssetCheck::Accepted(_, _) => false,
        AssetCheck::Missing(id) => error == ProjectInsertionError::MissingAsset(id),
        AssetCheck::Refused(id, verdict) => tells_verdict(error, id, verdict),
        AssetCheck::Budget => error == ProjectInsertionError::AssetBudget,
        AssetCheck::Collision(id) => error == ProjectInsertionError::AssetCollision(id),
    }
}

/// The descriptors of all needed assets, where every one can be inserted.
pub fn checked_descriptors(
    destination: &Vec<AssetDescriptor>,
    source: &Vec<AssetDescriptor>,
    needed: &Vec<AssetId>,
    pools: &ReplayPools,
) -> (result: Result<Vec<AssetDescriptor>, ProjectInsertionError>)
    ensures
        ({
            let check = check_assets(
                needed@,
                needed@.len() as int,
                value::views(source@),
                value::views(destination@),
                *pools,
            );
            match result {
                Ok(list) => check matches AssetCheck::Accepted(descriptors, _) && descriptors
                    == value::views(list@),
                Err(error) => tells_check(error, check),
            }
        }),
{
    let ghost from = value::views(source@);
    let ghost into = value::views(destination@);
    let mut list: Vec<AssetDescriptor> = Vec::new();
    let mut total: u64 = 0;
    let mut index: usize = 0;
    assert(value::views(list@) =~= Seq::empty());
    while index < needed.len()
        invariant
            index <= needed.len(),
            from == value::views(source@),
            into == value::views(destination@),
            check_assets(needed@, index as int, from, into, *pools) == AssetCheck::Accepted(
                value::views(list@),
                total as int,
            ),
        decreases needed.len() - index,
    {
        let id = needed[index];
        let ghost next = check_assets(needed@, index + 1, from, into, *pools);
        proof {
            if next !is Accepted {
                lemma_check_stays_failed(
                    needed@,
                    index + 1,
                    needed@.len() as int,
                    from,
                    into,
                    *pools,
                );
            }
        }
        let at = match find_asset(source, id) {
            Some(at) => at,
            None => return Err(ProjectInsertionError::MissingAsset(id)),
        };
        let descriptor = &source[at];
        match validate_inserted_asset_descriptor(descriptor, pools) {
            Ok(_) => {},
            Err(error) => return Err(error),
        }
        match total.checked_add(descriptor.byte_len) {
            Some(sum) => {
                if sum > MAX_INSERTED_ASSET_BYTES {
                    return Err(ProjectInsertionError::AssetBudget);
                }
                total = sum;
            },
            None => return Err(ProjectInsertionError::AssetBudget),
        }
        if let Some(existing) = find_asset(destination, id) {
            if !same_asset_storage(&destination[existing], descriptor)
                || destination[existing].byte_len != descriptor.byte_len {
                return Err(ProjectInsertionError::AssetCollision(id));
            }
        }
        let ghost before = value::views(list@);
        let ghost shape = descriptor@;
        list.push(descriptor.duplicate());
        assert(value::views(list@) =~= before.push(shape));
        index += 1;
    }
    Ok(list)
}

/// The references that the first `count` cells hold, in their order.
pub open spec fn cell_references(cells: Seq<CellView>, count: int) -> Seq<FrameInputReplayRef>
    decreases count,
{
    if count <= 0 {
        Seq::empty()
    } else {
        cell_references(cells, count - 1) + match cells[count - 1].input_replay {
            Some(runs) => runs,
            None => Seq::empty(),
        }
    }
}

/// The references that the first `count` layers hold, in their order.
pub open spec fn layer_references(tracks: Seq<TrackView>, count: int) -> Seq<FrameInputReplayRef>
    decreases count,
{
    if count <= 0 {
        Seq::empty()
    } else {
        layer_references(tracks, count - 1) + match tracks[count - 1].frame_cells {
            Some(cells) => cell_references(cells, cells.len() as int),
            None => Seq::empty(),
        }
    }
}

/// Whether a reference is to the given asset.
pub open spec fn refers_to(id: AssetId) -> spec_fn(FrameInputReplayRef) -> bool {
    |reference: FrameInputReplayRef| reference.asset_id == id
}

/// Adds those of the references that are to the asset.
fn add_references(list: &mut Vec<FrameInputReplayRef>, runs: &Vec<FrameInputReplayRef>, id: AssetId)
    ensures
        final(list)@ == old(list)@ + runs@.filter(refers_to(id)),
{
    let ghost before = list@;
    let mut at: usize = 0;
    proof {
        reveal(Seq::filter);
        assert(runs@.take(0).filter(refers_to(id)) =~= Seq::empty());
        assert(list@ =~= before + runs@.take(0).filter(refers_to(id)));
    }
    while at < runs.len()
        invariant
            at <= runs@.len(),
            list@ == before + runs@.take(at as int).filter(refers_to(id)),
        decreases runs@.len() - at,
    {
        proof {
            value::lemma_filter_next(runs@, refers_to(id), at as int);
        }
        if runs[at].asset_id == id {
            list.push(runs[at]);
            assert(list@ =~= before + runs@.take(at + 1).filter(refers_to(id)));
        }
        at = at + 1;
    }
    assert(runs@.take(at as int) =~= runs@);
}

/// Adds what the cells hold of references to the asset.
fn add_cell_references(list: &mut Vec<FrameInputReplayRef>, cells: &Vec<FrameOverlayCell>, id: AssetId)
    ensures
        final(list)@ == old(list)@ + cell_references(value::views(cells@), cells@.len() as int).filter(
            refers_to(id),
        ),
{
    let ghost before = list@;
    let ghost all = value::views(cells@);
    let mut at: usize = 0;
    proof {
        reveal(Seq::filter);
        assert(cell_references(all, 0).filter(refers_to(id)) =~= Seq::empty());
        assert(list@ =~= before + cell_references(all, 0).filter(refers_to(id)));
    }
    while at < cells.len()
        invariant
            at <= cells@.len(),
            all == value::views(cells@),
            list@ == before + cell_references(all, at as int).filter(refers_to(id)),
        decreases cells@.len() - at,
    {
        assert(all[at as int] == cells@[at as int]@);
        let ghost shown = cell_references(all, at as int);
        match &cells[at].input_replay {
            Some(runs) => {
                add_references(list, runs, id);
                proof {
                    assert(all[at as int].input_replay == Some(runs@));
                    Seq::filter_distributes_over_add(shown, runs@, refers_to(id));
                    assert(list@ =~= before + (shown + runs@).filter(refers_to(id)));
                }
            },
            None => {
                assert(shown + Seq::<FrameInputReplayRef>::empty() =~= shown);
            },
        }
        at = at + 1;
    }
}

/// The references to an asset that the frame-owned layers hold, in their order.
pub fn replay_references(timeline: &Timeline, id: AssetId) -> (list: Vec<FrameInputReplayRef>)
    ensures
        list@ == layer_references(timeline@.overlay_tracks, timeline@.overlay_tracks.len() as int).filter(
            refers_to(id),
        ),
{
    let tracks = &timeline.overlay_tracks;
    let ghost all = timeline@.overlay_tracks;
    let mut list: Vec<FrameInputReplayRef> = Vec::new();
    let mut at: usize = 0;
    proof {
        reveal(Seq::filter);
        assert(layer_references(all, 0).filter(refers_to(id)) =~= Seq::empty());
        assert(list@ =~= layer_references(all, 0).filter(refers_to(id)));
    }
    while at < tracks.len()
        invariant
            at <= tracks@.len(),
            all == value::views(tracks@),
            list@ == layer_references(all, at as int).filter(refers_to(id)),
        decreases tracks@.len() - at,
    {
        assert(all[at as int] == tracks@[at as int]@);
        let ghost shown = layer_references(all, at as int);
        match &tracks[at].frame_cells {
            Some(cells) => {
                add_cell_references(&mut list, cells, id);
                proof {
                    let more = cell_references(value::views(cells@), cells@.len() as int);
                    assert(all[at as int].frame_cells == Some(value::views(cells@)));
                    assert(value::views(cells@).len() == cells@.len());
                    Seq::filter_distributes_over_add(shown, more, refers_to(id));
                }
            },
            None => {
                assert(shown + Seq::<FrameInputReplayRef>::empty() =~= shown);
            },
        }
        at = at + 1;
    }
    list
}

/// Refuses a pool of recorded input that cannot be read, or that does not hold what is
/// asked of it.
///
/// `pool` says whether the bytes are a sound pool, and `references` whether each place
/// that is asked for exists; nothing is checked where nothing is asked for.
pub fn validate_input_replay_asset(
    asset_id: AssetId,
    pool: &Result<(), String>,
    references: &Vec<Result<(), String>>,
) -> (result: Result<(), ProjectInsertionError>)
    ensures
        match result {
            Ok(_) => references@.len() > 0 ==> *pool is Ok && forall|i: int|
                0 <= i < references@.len() ==> #[trigger] references@[i] is Ok,
            Err(error) => {
                &&& references@.len() > 0
                &&& error matches ProjectInsertionError::InvalidInputReplay {
                    asset_id: id,
                    message,
                } && id == asset_id && {
                    ||| *pool matches Err(reason) && reason@ == message@
                    ||| *pool is Ok && exists|i: int|
                        {
                            &&& 0 <= i < references@.len()
                            &&& #[trigger] references@[i] is Err
                            &&& references@[i]->Err_0@ == message@
                            &&& forall|j: int| 0 <= j < i ==> #[trigger] references@[j] is Ok
                        }
                }
            },
        },
{
    if references.len() == 0 {
        return Ok(());
    }
    if let Err(reason) = pool {
        return Err(
            ProjectInsertionError::InvalidInputReplay { asset_id, message: reason.clone() },
        );
    }
    let mut index: usize = 0;
    while index < references.len()
        invariant
            index <= references.len(),
            references@.len() > 0,
            *pool is Ok,
            forall|i: int| 0 <= i < index ==> #[trigger] references@[i] is Ok,
        decreases references.len() - index,
    {
        if let Err(reason) = &references[index] {
            assert(references@[index as int] is Err);
            return Err(
                ProjectInsertionError::InvalidInputReplay { asset_id, message: reason.clone() },
            );
        }
        index += 1;
    }
    Ok(())
}

/// Refuses a premultiplied picture that cannot be decoded, or that has another shape
/// than its descriptor says.
pub fn validate_snapshot_asset(
    asset_id: AssetId,
    size: PhysicalSize,
    decoded: &Result<PhysicalSize, String>,
) -> (result: Result<(), ProjectInsertionError>)
    ensures
        match result {
            Ok(_) => *decoded == Ok::<PhysicalSize, String>(size),
            Err(error) => {
                &&& *decoded != Ok::<PhysicalSize, String>(size)
                &&& error matches ProjectInsertionError::InvalidPremultipliedSnapshot {
                    asset_id: id,
                    message,
                } && id == asset_id && message@ == (match *decoded {
                    Ok(_) => "The snapshot has another shape than its descriptor."@,
                    Err(reason) => reason@,
                })
            },
        },
{
    match decoded {
        Ok(actual) => {
            if *actual == size {
                Ok(())
            } else {
                Err(
                    ProjectInsertionError::InvalidPremultipliedSnapshot {
                        asset_id,
                        message: "The snapshot has another shape than its descriptor.".to_owned(),
                    },
                )
            }
        },
        Err(reason) => Err(
            ProjectInsertionError::InvalidPremultipliedSnapshot {
                asset_id,
                message: reason.clone(),
            },
        ),
    }
}

/// An asset that is read piece by piece.
#[derive(Clone, Debug, PartialEq, Eq)]
pub struct AssetReader {
    /// Its digest.
    pub asset_id: AssetId,
    /// The length that it must have.
    pub expected: usize,
    /// What has been read so far.
    pub bytes: Vec<u8>,
}

impl AssetReader {
    /// Whether no more has been read than there should be.
    pub open spec fn wf(self) -> bool {
        self.bytes@.len() <= self.expected
    }

    /// Starts to read a file, where it is one of the length that it must have and there is memory
    /// for it.
    pub fn begin(descriptor: &AssetDescriptor, is_file: bool, file_len: u64) -> (result: Result<
        AssetReader,
        ProjectInsertionError,
    >)
        ensures
            match result {
                Ok(reader) => {
                    &&& is_file && file_len == descriptor.byte_len
                    &&& reader.wf()
                    &&& reader.asset_id == descriptor.id
                    &&& reader.expected == descriptor.byte_len
                    &&& reader.bytes@.len() == 0
                },
                Err(error) => if is_file && file_len == descriptor.byte_len {
                    error == ProjectInsertionError::AssetBudget && descriptor.byte_len > 0
                } else {
                    error == ProjectInsertionError::InvalidAssetLength(descriptor.id)
                },
            },
    {
        let room: Option<Vec<u8>> = if is_file && file_len == descriptor.byte_len && file_len <= usize::MAX as u64 {
            room_for(file_len as usize)
        } else {
            None
        };
        AssetReader::begin_with(descriptor, is_file, file_len, room)
    }

    /// Starts to read a file. `room` takes its bytes; there is none where there is no memory for
    /// them.
    pub fn begin_with(descriptor: &AssetDescriptor, is_file: bool, file_len: u64, room: Option<Vec<u8>>) -> (result: Result<
        AssetReader,
        ProjectInsertionError,
    >)
        requires
            room matches Some(list) ==> list@.len() == 0,
        ensures
            if !is_file || file_len != descriptor.byte_len {
                result == Err::<AssetReader, ProjectInsertionError>(
                    ProjectInsertionError::InvalidAssetLength(descriptor.id),
                )
            } else if descriptor.byte_len > usize::MAX || room is None {
                result == Err::<AssetReader, ProjectInsertionError>(ProjectInsertionError::AssetBudget)
            } else {
                result matches Ok(reader) && {
                    &&& reader.wf()
                    &&& reader.asset_id == descriptor.id
                    &&& reader.expected == descriptor.byte_len
                    &&& reader.bytes@.len() == 0
                }
            },
    {
        if !is_file || file_len != descriptor.byte_len {
            return Err(ProjectInsertionError::InvalidAssetLength(descriptor.id));
        }
        if descriptor.byte_len > usize::MAX as u64 {
            return Err(ProjectInsertionError::AssetBudget);
        }
        match room {
            Some(bytes) => Ok(
                AssetReader { asset_id: descriptor.id, expected: descriptor.byte_len as usize, bytes },
            ),
            None => Err(ProjectInsertionError::AssetBudget),
        }
    }

    /// Takes the next piece of the file.
    pub fn accept<C: CancellationToken>(&mut self, piece: &[u8], cancellation: &C) -> (result: Result<
        (),
        ProjectInsertionError,
    >)
        requires
            old(self).wf(),
        ensures
            final(self).wf(),
            final(self).asset_id == old(self).asset_id,
            final(self).expected == old(self).expected,
            match result {
                Ok(_) => final(self).bytes@ == old(self).bytes@ + piece@,
                Err(error) => {
                    &&& final(self).bytes@ == old(self).bytes@
                    &&& {
                        ||| cancellation.may_cancel() && error == ProjectInsertionError::Cancelled
                        ||| old(self).bytes@.len() + piece@.len() > old(self).expected && error
                            == ProjectInsertionError::InvalidAssetLength(old(self).asset_id)
                    }
                },
            },
            cancellation.must_cancel() ==> result == Err::<(), ProjectInsertionError>(
                ProjectInsertionError::Cancelled,
            ),
    {
        check_insertion_cancelled(cancellation)?;
        if piece.len() > self.expected - self.bytes.len() {
            return Err(ProjectInsertionError::InvalidAssetLength(self.asset_id));
        }
        let ghost before = self.bytes@;
        let mut index: usize = 0;
        while index < piece.len()
            invariant
                index <= piece.len(),
                self.bytes@ == before + piece@.take(index as int),
                self.asset_id == old(self).asset_id,
                self.expected == old(self).expected,
                before == old(self).bytes@,
            decreases piece.len() - index,
        {
            self.bytes.push(piece[index]);
            assert(piece@.take(index + 1) =~= piece@.take(index as int).push(piece@[index as int]));
            assert(self.bytes@ =~= before + piece@.take(index + 1));
            index += 1;
        }
        assert(piece@.take(index as int) =~= piece@);
        Ok(())
    }

    /// Gives the asset, where all of it was read and its content has the right digest.
    pub fn finish(self, digest: AssetId) -> (result: Result<Vec<u8>, ProjectInsertionError>)
        ensures
            match result {
                Ok(bytes) => {
                    &&& bytes@ == self.bytes@
                    &&& self.bytes@.len() == self.expected
                    &&& digest == self.asset_id
                },
                Err(error) => if self.bytes@.len() != self.expected {
                    error == ProjectInsertionError::InvalidAssetLength(self.asset_id)
                } else {
                    digest != self.asset_id && error == ProjectInsertionError::CorruptAsset(
                        self.asset_id,
                    )
                },
            },
    {
        if self.bytes.len() != self.expected {
            return Err(ProjectInsertionError::InvalidAssetLength(self.asset_id));
        }
        if digest != self.asset_id {
            return Err(ProjectInsertionError::CorruptAsset(self.asset_id));
        }
        Ok(self.bytes)
    }
}

/// A comparison of a stored asset with what it should hold, piece by piece.
#[derive(Clone, Copy, Debug, PartialEq, Eq, Structural)]
pub struct ExistingAssetCheck {
    /// Its digest.
    pub asset_id: AssetId,
    /// How much has been compared so far.
    pub offset: usize,
}

impl ExistingAssetCheck {
    /// Starts to compare a stored asset, given what the file system says of its file.
    pub fn begin(descriptor: &AssetDescriptor, is_file: bool, file_len: u64) -> (result: Result<
        ExistingAssetCheck,
        ProjectInsertionError,
    >)
        ensures
            match result {
                Ok(check) => {
                    &&& is_file && file_len == descriptor.byte_len
                    &&& check == (ExistingAssetCheck { asset_id: descriptor.id, offset: 0 })
                },
                Err(error) => {
                    &&& !(is_file && file_len == descriptor.byte_len)
                    &&& error == ProjectInsertionError::InvalidAssetLength(descriptor.id)
                },
            },
    {
        if !is_file || file_len != descriptor.byte_len {
            return Err(ProjectInsertionError::InvalidAssetLength(descriptor.id));
        }
        Ok(ExistingAssetCheck { asset_id: descriptor.id, offset: 0 })
    }

    /// Whether `piece` is what comes next in `expected`.
    pub open spec fn continues(self, expected: Seq<u8>, piece: Seq<u8>) -> bool {
        &&& self.offset + piece.len() <= expected.len()
        &&& expected.subrange(self.offset as int, self.offset + piece.len()) == piece
    }

    /// Compares the next piece of the file.
    pub fn compare<C: CancellationToken>(
        &mut self,
        expected: &Vec<u8>,
        piece: &[u8],
        cancellation: &C,
    ) -> (result: Result<(), ProjectInsertionError>)
        requires
            old(self).offset <= expected@.len(),
        ensures
            final(self).offset <= expected@.len(),
            final(self).asset_id == old(self).asset_id,
            match result {
                Ok(_) => {
                    &&& old(self).continues(expected@, piece@)
                    &&& final(self).offset == old(self).offset + piece@.len()
                },
                Err(error) => {
                    &&& final(self).offset == old(self).offset
                    &&& {
                        ||| cancellation.may_cancel() && error == ProjectInsertionError::Cancelled
                        ||| !old(self).continues(expected@, piece@) && error
                            == ProjectInsertionError::CorruptAsset(old(self).asset_id)
                    }
                },
            },
            cancellation.must_cancel() ==> result == Err::<(), ProjectInsertionError>(
                ProjectInsertionError::Cancelled,
            ),
    {
        check_insertion_cancelled(cancellation)?;
        if piece.len() > expected.len() - self.offset {
            return Err(ProjectInsertionError::CorruptAsset(self.asset_id));
        }
        let mut index: usize = 0;
        while index < piece.len()
            invariant
                index <= piece.len(),
                *self == *old(self),
                self.offset + piece@.len() <= expected@.len(),
                expected@.len() <= usize::MAX,
                forall|i: int| 0 <= i < index ==> expected@[self.offset + i] == piece@[i],
                !cancellation.must_cancel(),
            decreases piece.len() - index,
        {
            if expected[self.offset + index] != piece[index] {
                assert(expected@.subrange(
                    self.offset as int,
                    self.offset + piece@.len(),
                )[index as int] != piece@[index as int]);
                return Err(ProjectInsertionError::CorruptAsset(self.asset_id));
            }
            index += 1;
        }
        assert(expected@.subrange(self.offset as int, self.offset + piece@.len()) =~= piece@);
        self.offset = self.offset + piece.len();
        Ok(())
    }

    /// Whether all of the asset was compared.
    pub fn finish(self, expected: &Vec<u8>) -> (result: Result<(), ProjectInsertionError>)
        ensures
            match result {
                Ok(_) => self.offset == expected@.len(),
                Err(error) => self.offset != expected@.len() && error
                    == ProjectInsertionError::InvalidAssetLength(self.asset_id),
            },
    {
        if self.offset != expected.len() {
            return Err(ProjectInsertionError::InvalidAssetLength(self.asset_id));
        }
        Ok(())
    }
}

/// Whether content shows an asset: a picture, the picture of a written text or key stroke, or a cursor.
pub open spec fn shows_asset(content: ContentView, id: AssetId) -> bool {
    ||| content matches ContentView::Raster { asset_id, .. } && asset_id == id
    ||| content matches ContentView::Text { raster: Some(picture), .. } && picture.asset_id == id
    ||| content matches ContentView::KeyStroke { raster: Some(picture), .. } && picture.asset_id == id
    ||| content matches ContentView::Cursor { asset_id, .. } && asset_id == id
}

/// The asset of content is the one that it shows.
pub proof fn law_content_needs_what_it_shows(content: ContentView, id: AssetId)
    ensures
        content_asset(content) == Some(id) <==> shows_asset(content, id),
{
}

/// A frame needs its picture, its cursor, the masks of its effects and what its steps freeze or lay over it.
pub proof fn law_what_a_frame_needs(frame: FrameView, id: AssetId)
    ensures
        frame_needs(frame, id) <==> {
            ||| frame.asset_id == id
            ||| frame.capture_metadata.cursor_asset == Some(id)
            ||| exists|i: int|
                0 <= i < frame.effects.len() && ((#[trigger] frame.effects[i]) matches Effect::Cinemagraph {
                    mask_asset,
                    ..
                } && mask_asset == id)
            ||| exists|i: int| 0 <= i < frame.render_steps.len() && step_names(#[trigger] frame.render_steps[i], id)
        },
{
    assert forall|step: RenderStep| #[trigger] step_names(step, id) == (step.asset() == Some(id)) by {
        crate::frames::law_what_a_step_refers_to(Effect::Cinemagraph { mask_asset: id, invert_mask: false }, step, id);
    }
    if exists|i: int| 0 <= i < frame.effects.len() && (#[trigger] frame.effects[i]).asset() == Some(id) {
        let i = choose|i: int| 0 <= i < frame.effects.len() && (#[trigger] frame.effects[i]).asset() == Some(id);
        assert(frame.effects[i] matches Effect::Cinemagraph { mask_asset, .. } && mask_asset == id);
    }
    if exists|i: int|
        0 <= i < frame.effects.len() && ((#[trigger] frame.effects[i]) matches Effect::Cinemagraph { mask_asset, .. }
            && mask_asset == id) {
        let i = choose|i: int|
            0 <= i < frame.effects.len() && ((#[trigger] frame.effects[i]) matches Effect::Cinemagraph {
                mask_asset,
                ..
            } && mask_asset == id);
        assert(frame.effects[i].asset() == Some(id));
    }
    if exists|i: int| 0 <= i < frame.render_steps.len() && (#[trigger] frame.render_steps[i]).asset() == Some(id) {
        let i = choose|i: int|
            0 <= i < frame.render_steps.len() && (#[trigger] frame.render_steps[i]).asset() == Some(id);
        assert(step_names(frame.render_steps[i], id));
    }
    if exists|i: int| 0 <= i < frame.render_steps.len() && step_names(#[trigger] frame.render_steps[i], id) {
        let i = choose|i: int|
            0 <= i < frame.render_steps.len() && step_names(#[trigger] frame.render_steps[i], id);
        assert(frame.render_steps[i].asset() == Some(id));
    }
}

/// Whether a step names an asset: the mask of its effect, what it freezes a region to or what it lays over.
pub open spec fn step_names(step: RenderStep, id: AssetId) -> bool {
    ||| step matches RenderStep::Effect { effect: Effect::Cinemagraph { mask_asset, .. } } && mask_asset == id
    ||| step matches RenderStep::FreezeRegion { baseline_asset, .. } && baseline_asset == id
    ||| step matches RenderStep::CinemagraphOverlay { snapshot_asset, .. } && snapshot_asset == id
}

/// A cell needs what its marks show and the recorded input that it replays.
pub proof fn law_what_a_cell_needs(cell: CellView, id: AssetId)
    ensures
        cell_needs(cell, id) <==> {
            ||| exists|m: int| 0 <= m < cell.marks.len() && shows_asset((#[trigger] cell.marks[m]).content, id)
            ||| cell.input_replay is Some && exists|r: int|
                0 <= r < cell.input_replay->0.len() && (#[trigger] cell.input_replay->0[r]).asset_id == id
        },
{
    if exists|m: int|
        0 <= m < cell.marks.len() && content_asset((#[trigger] cell.marks[m]).content) == Some(id) {
        let m = choose|m: int|
            0 <= m < cell.marks.len() && content_asset((#[trigger] cell.marks[m]).content) == Some(id);
        law_content_needs_what_it_shows(cell.marks[m].content, id);
    }
    if exists|m: int| 0 <= m < cell.marks.len() && shows_asset((#[trigger] cell.marks[m]).content, id) {
        let m = choose|m: int| 0 <= m < cell.marks.len() && shows_asset((#[trigger] cell.marks[m]).content, id);
        law_content_needs_what_it_shows(cell.marks[m].content, id);
    }
}

/// A layer needs what its items show and what its cells need.
pub proof fn law_what_a_layer_needs(track: TrackView, id: AssetId)
    ensures
        track_needs(track, id) <==> {
            ||| exists|i: int| 0 <= i < track.items.len() && shows_asset((#[trigger] track.items[i]).content, id)
            ||| track.frame_cells is Some && exists|c: int|
                0 <= c < track.frame_cells->0.len() && cell_needs(#[trigger] track.frame_cells->0[c], id)
        },
{
    if exists|i: int|
        0 <= i < track.items.len() && content_asset((#[trigger] track.items[i]).content) == Some(id) {
        let i = choose|i: int|
            0 <= i < track.items.len() && content_asset((#[trigger] track.items[i]).content) == Some(id);
        law_content_needs_what_it_shows(track.items[i].content, id);
    }
    if exists|i: int| 0 <= i < track.items.len() && shows_asset((#[trigger] track.items[i]).content, id) {
        let i = choose|i: int| 0 <= i < track.items.len() && shows_asset((#[trigger] track.items[i]).content, id);
        law_content_needs_what_it_shows(track.items[i].content, id);
    }
}

/// A timeline needs what one of its frames or one of its layers needs, and nothing else.
pub proof fn law_what_a_timeline_needs(timeline: TimelineView, id: AssetId)
    ensures
        timeline_needs(timeline, id) <==> {
            ||| exists|f: int| 0 <= f < timeline.frames.len() && frame_needs(#[trigger] timeline.frames[f], id)
            ||| exists|t: int|
                0 <= t < timeline.overlay_tracks.len() && track_needs(#[trigger] timeline.overlay_tracks[t], id)
        },
{
}

/// Two assets are stored alike where both are pictures of one size and one encoding, whatever they are
/// for, or where both are the same other kind.
pub proof fn law_what_is_stored_alike(left: KindView, right: KindView)
    ensures
        stored_alike(left, left),
        stored_alike(left, right) == stored_alike(right, left),
        left.raster() is Some && right.raster() is Some ==> (stored_alike(left, right) <==> left.raster()
            == right.raster()),
        left.raster() is None || right.raster() is None ==> (stored_alike(left, right) <==> left == right),
{
}

/// An asset can be brought exactly where it is a plain picture of its length, a snapshot of the known
/// version and of its length, or a replay pool of at least one byte and no more than is allowed.
pub proof fn law_what_assets_can_be_brought(descriptor: DescriptorView, pools: ReplayPools)
    ensures
        judge(descriptor, pools) is Accepted <==> {
            ||| descriptor.kind.raster() matches Some((size, encoding)) && encoding == RasterEncoding::Rgba8 && 4 * (
            size.width * size.height) == descriptor.byte_len
            ||| descriptor.kind matches KindView::PremultipliedSnapshot { size, format_version } && format_version == 1
                && 4 * (size.width * size.height) + 17 == descriptor.byte_len
            ||| descriptor.kind matches KindView::ImportedSource { media_type } && media_type == pools.media_type@
                && descriptor.byte_len > 0 && descriptor.byte_len <= pools.max_bytes
        },
        judge(descriptor, pools) is Length ==> (match descriptor.kind {
            KindView::PremultipliedSnapshot { size, .. } => 4 * (size.width * size.height) + 17 != descriptor.byte_len,
            KindView::ImportedSource { .. } => false,
            _ => descriptor.kind.raster() matches Some((size, _)) && 4 * (size.width * size.height)
                != descriptor.byte_len,
        }),
{
}

/// The bytes of the first assets that are needed.
pub open spec fn needed_bytes(needed: Seq<AssetId>, count: int, source: Seq<DescriptorView>) -> int
    decreases count,
{
    if count <= 0 {
        0
    } else {
        needed_bytes(needed, count - 1, source) + project::asset_of(source, needed[count - 1])->0.byte_len
    }
}

/// Whether an asset can be brought from a source to a destination: it is registered there, can be brought
/// at all, and agrees with what the destination has under its identity.
pub open spec fn can_come(
    id: AssetId,
    source: Seq<DescriptorView>,
    destination: Seq<DescriptorView>,
    pools: ReplayPools,
) -> bool {
    &&& project::asset_of(source, id) is Some
    &&& judge(project::asset_of(source, id)->0, pools) is Accepted
    &&& project::asset_of(destination, id) matches Some(existing) ==> stored_alike(
        existing.kind,
        project::asset_of(source, id)->0.kind,
    ) && existing.byte_len == project::asset_of(source, id)->0.byte_len
}

/// All assets come exactly where each of them can come and together they take at most 512 MiB; they come in
/// the order in which they are needed, as the source describes them.
pub proof fn law_all_needed_assets_come(
    needed: Seq<AssetId>,
    count: int,
    source: Seq<DescriptorView>,
    destination: Seq<DescriptorView>,
    pools: ReplayPools,
)
    requires
        0 <= count <= needed.len(),
    ensures
        check_assets(needed, count, source, destination, pools) is Accepted <==> {
            &&& forall|i: int| 0 <= i < count ==> can_come(#[trigger] needed[i], source, destination, pools)
            &&& needed_bytes(needed, count, source) <= 536_870_912
        },
        check_assets(needed, count, source, destination, pools) matches AssetCheck::Accepted(list, total) ==> {
            &&& list.len() == count
            &&& forall|i: int|
                0 <= i < count ==> project::asset_of(source, needed[i]) == Some(#[trigger] list[i])
            &&& total == needed_bytes(needed, count, source)
        },
    decreases count,
{
    assert(MAX_INSERTED_ASSET_BYTES == 536_870_912);
    if count > 0 {
        law_all_needed_assets_come(needed, count - 1, source, destination, pools);
        let id = needed[count - 1];
        let before = check_assets(needed, count - 1, source, destination, pools);
        let after = check_assets(needed, count, source, destination, pools);
        if after is Accepted {
            assert(can_come(id, source, destination, pools));
            assert forall|i: int| 0 <= i < count implies can_come(#[trigger] needed[i], source, destination, pools) by {
                if i < count - 1 {
                    assert(before is Accepted);
                }
            }
        }
        if (forall|i: int| 0 <= i < count ==> can_come(#[trigger] needed[i], source, destination, pools))
            && needed_bytes(needed, count, source) <= 536_870_912 {
            assert(can_come(id, source, destination, pools));
            assert(needed_bytes(needed, count - 1, source) <= needed_bytes(needed, count, source));
        }
    }
}

/// The references of layers are those of their cells, layer by layer and cell by cell; those of one asset
/// are the ones that name it, in the same order.
pub proof fn law_references_are_gathered_in_order(
    cells: Seq<CellView>,
    cell: CellView,
    tracks: Seq<TrackView>,
    track: TrackView,
    id: AssetId,
)
    ensures
        cell_references(cells.push(cell), cells.len() + 1int) == cell_references(cells, cells.len() as int) + (
        match cell.input_replay {
            Some(runs) => runs,
            None => Seq::empty(),
        }),
        cell_references(cells, 0).len() == 0,
        layer_references(tracks.push(track), tracks.len() + 1int) == layer_references(tracks, tracks.len() as int) + (
        match track.frame_cells {
            Some(list) => cell_references(list, list.len() as int),
            None => Seq::empty(),
        }),
        layer_references(tracks, 0).len() == 0,
        refers_to(id) == (|reference: FrameInputReplayRef| reference.asset_id == id),
{
    lemma_cell_references_prefix(cells, cells.push(cell), cells.len() as int);
    lemma_layer_references_prefix(tracks, tracks.push(track), tracks.len() as int);
    assert(refers_to(id) =~= (|reference: FrameInputReplayRef| reference.asset_id == id));
}

proof fn lemma_cell_references_prefix(cells: Seq<CellView>, more: Seq<CellView>, count: int)
    requires
        0 <= count <= cells.len() <= more.len(),
        forall|i: int| 0 <= i < count ==> #[trigger] cells[i] == more[i],
    ensures
        cell_references(cells, count) == cell_references(more, count),
    decreases count,
{
    if count > 0 {
        lemma_cell_references_prefix(cells, more, count - 1);
        assert(cells[count - 1] == more[count - 1]);
    }
}

proof fn lemma_layer_references_prefix(tracks: Seq<TrackView>, more: Seq<TrackView>, count: int)
    requires
        0 <= count <= tracks.len() <= more.len(),
        forall|i: int| 0 <= i < count ==> #[trigger] tracks[i] == more[i],
    ensures
        layer_references(tracks, count) == layer_references(more, count),
    decreases count,
{
    if count > 0 {
        lemma_layer_references_prefix(tracks, more, count - 1);
        assert(tracks[count - 1] == more[count - 1]);
    }
}

/// An error tells which asset was found wanting, and how.
pub proof fn law_errors_name_the_asset(error: ProjectInsertionError, check: AssetCheck)
    ensures
        tells_check(error, check) ==> match error {
            ProjectInsertionError::MissingAsset(id) => check == AssetCheck::Missing(id),
            ProjectInsertionError::AssetCollision(id) => check == AssetCheck::Collision(id),
            ProjectInsertionError::AssetBudget => check is Budget || (check matches AssetCheck::Refused(_, verdict)
                && verdict is Budget),
            ProjectInsertionError::InvalidAssetLength(id) => check == AssetCheck::Refused(id, DescriptorVerdict::Length),
            ProjectInsertionError::UnsupportedAsset(id) => check == AssetCheck::Refused(
                id,
                DescriptorVerdict::Unsupported,
            ),
            _ => false,
        },
{
}

/// A stored file continues as expected exactly where it is no longer and each byte is the expected one.
pub proof fn law_a_file_continues_byte_by_byte(check: ExistingAssetCheck, expected: Seq<u8>, piece: Seq<u8>)
    ensures
        check.continues(expected, piece) <==> {
            &&& check.offset + piece.len() <= expected.len()
            &&& forall|i: int| 0 <= i < piece.len() ==> #[trigger] piece[i] == expected[check.offset + i]
        },
{
    if check.offset + piece.len() <= expected.len() {
        let part = expected.subrange(check.offset as int, check.offset + piece.len());
        if part == piece {
            assert forall|i: int| 0 <= i < piece.len() implies #[trigger] piece[i] == expected[check.offset + i] by {
                assert(part[i] == expected[check.offset + i]);
            }
        }
        if forall|i: int| 0 <= i < piece.len() ==> #[trigger] piece[i] == expected[check.offset + i] {
            assert(part =~= piece);
        }
    }
}

} // verus!
