//! What is checked before one project is inserted into another.
use vstd::prelude::*;
use crate::cancel::CancellationToken;
use crate::frames;
use crate::frames::{FrameClip, FrameView};
use crate::geometry::PhysicalSize;
use crate::ids::{AssetId, FrameId};
use crate::motion_render;
use crate::motion_render::find_frame;
use crate::overlay::{CellView, OverlayTrack, TrackView};
use crate::project;
use crate::project::{find_asset, DescriptorView, ManifestView, ProjectManifest};
use crate::value;

verus! {

/// The most frames that one insertion may bring.
pub const MAX_INSERTED_FRAMES: usize = 1_000;

/// The most frames that a project may hold after an insertion.
pub const MAX_RESULTING_FRAMES: usize = 100_000;

/// The most overlays that one insertion may bring.
pub const MAX_OVERLAY_ITEMS: usize = 10_000;

/// The most bytes that the assets of one insertion may take.
pub const MAX_INSERTED_ASSET_BYTES: u64 = 512 * 1024 * 1024;

/// One of the two projects of an insertion.
#[derive(Clone, Copy, Debug, PartialEq, Eq, Structural)]
pub enum InsertionSide {
    /// The project whose frames are inserted.
    Source,
    /// The project they are inserted into.
    Destination,
}

/// Why an insertion is refused.
#[derive(Clone, Debug, PartialEq, Eq)]
pub enum ProjectInsertionError {
    /// A pool of recorded input is damaged.
    InvalidInputReplay {
        /// The pool.
        asset_id: AssetId,
        /// What is wrong with it.
        message: String,
    },
    /// A premultiplied picture is damaged.
    InvalidPremultipliedSnapshot {
        /// The picture.
        asset_id: AssetId,
        /// What is wrong with it.
        message: String,
    },
    /// The source project does not hold together.
    Project(String),
    /// The insertion was stopped.
    Cancelled,
    /// Both projects are the same.
    SameProject,
    /// The journal of the source must be repaired first.
    SourceRequiresRepair,
    /// The source has no frames.
    EmptySource,
    /// There are too many frames.
    FrameLimit,
    /// There are too many overlays.
    OverlayLimit,
    /// The canvases do not go together.
    CanvasMismatch,
    /// A frame cannot be rendered.
    RenderedGeometry {
        /// The project of the frame.
        side: InsertionSide,
        /// The frame.
        frame_id: FrameId,
        /// Why it cannot.
        reason: String,
    },
    /// A frame is rendered with other dimensions than the ones before it.
    RenderedSizeMismatch {
        /// The project of the frame.
        side: InsertionSide,
        /// The frame.
        frame_id: FrameId,
        /// The dimensions of the frames before it.
        expected: PhysicalSize,
        /// Its own dimensions.
        actual: PhysicalSize,
    },
    /// The timeline would get too long.
    DurationOverflow,
    /// The assets are too large.
    AssetBudget,
    /// An asset is not registered.
    MissingAsset(AssetId),
    /// An asset is of a kind that cannot be inserted.
    UnsupportedAsset(AssetId),
    /// An asset has another length than it should.
    InvalidAssetLength(AssetId),
    /// An asset has another content than it should.
    CorruptAsset(AssetId),
    /// The destination has another asset under the same digest.
    AssetCollision(AssetId),
    /// The frame to insert after does not exist.
    UnknownAnchor(FrameId),
    /// The destination has changed meanwhile.
    StaleTarget,
}

/// Fails where the insertion has been asked to stop.
pub fn check_insertion_cancelled<C: CancellationToken>(cancellation: &C) -> (result: Result<
    (),
    ProjectInsertionError,
>)
    ensures
        match result {
            Ok(_) => !cancellation.must_cancel(),
            Err(error) => cancellation.may_cancel() && error == ProjectInsertionError::Cancelled,
        },
{
    if cancellation.is_cancelled() {
        Err(ProjectInsertionError::Cancelled)
    } else {
        Ok(())
    }
}

/// Where frames are inserted after the given one.
pub fn project_insertion_target(frames: &Vec<FrameClip>, after: Option<FrameId>) -> (result: Result<
    usize,
    ProjectInsertionError,
>)
    ensures
        ({
            let clips = value::views(frames@);
            match result {
                Ok(index) => {
                    &&& crate::title::insertion_index(clips, after, index as int)
                    &&& index <= clips.len()
                },
                Err(error) => {
                    &&& after matches Some(id) && error == ProjectInsertionError::UnknownAnchor(id)
                        && !motion_render::has_frame(clips, id)
                },
            }
        }),
{
    let count: usize = frames.len();
    match after {
        None => Ok(0),
        Some(id) => match find_frame(frames, id) {
            Some(at) => {
                assert(at < count);
                Ok(at + 1)
            },
            None => Err(ProjectInsertionError::UnknownAnchor(id)),
        },
    }
}

/// The number of marks of the first `count` cells.
pub open spec fn cell_marks(cells: Seq<CellView>, count: int) -> int
    decreases count,
{
    if count <= 0 {
        0
    } else {
        cell_marks(cells, count - 1) + cells[count - 1].marks.len()
    }
}

/// The number of overlays of a layer, timed or owned by frames.
pub open spec fn overlays_of(track: TrackView) -> int {
    track.items.len() + match track.frame_cells {
        Some(cells) => cell_marks(cells, cells.len() as int),
        None => 0,
    }
}

/// The number of overlays of the first `count` layers.
pub open spec fn overlay_total(tracks: Seq<TrackView>, count: int) -> int
    decreases count,
{
    if count <= 0 {
        0
    } else {
        overlay_total(tracks, count - 1) + overlays_of(tracks[count - 1])
    }
}

/// More cells never hold fewer marks.
proof fn lemma_cell_marks_grow(cells: Seq<CellView>, less: int, more: int)
    requires
        0 <= less <= more <= cells.len(),
    ensures
        0 <= cell_marks(cells, less) <= cell_marks(cells, more),
    decreases more,
{
    if less < more {
        lemma_cell_marks_grow(cells, less, more - 1);
    } else if less > 0 {
        lemma_cell_marks_grow(cells, less - 1, less - 1);
    }
}

/// More layers never hold fewer overlays.
proof fn lemma_overlay_total_grows(tracks: Seq<TrackView>, less: int, more: int)
    requires
        0 <= less <= more <= tracks.len(),
    ensures
        0 <= overlay_total(tracks, less) <= overlay_total(tracks, more),
    decreases more,
{
    if more > 0 {
        let track = tracks[more - 1];
        if track.frame_cells is Some {
            lemma_cell_marks_grow(track.frame_cells->0, 0, track.frame_cells->0.len() as int);
        }
        if less < more {
            lemma_overlay_total_grows(tracks, less, more - 1);
        } else {
            lemma_overlay_total_grows(tracks, less - 1, less - 1);
        }
    }
}

/// Whether the layers hold at most `limit` overlays.
fn overlays_within(tracks: &Vec<OverlayTrack>, limit: usize) -> (within: bool)
    ensures
        within == (overlay_total(value::views(tracks@), tracks@.len() as int) <= limit),
{
    let ghost all = value::views(tracks@);
    let mut total: usize = 0;
    let mut index: usize = 0;
    while index < tracks.len()
        invariant
            index <= tracks.len(),
            all == value::views(tracks@),
            total == overlay_total(all, index as int),
            total <= limit,
        decreases tracks.len() - index,
    {
        let track = &tracks[index];
        assert(all[index as int] == track@);
        proof {
            lemma_overlay_total_grows(all, index + 1, all.len() as int);
            if track@.frame_cells is Some {
                lemma_cell_marks_grow(
                    track@.frame_cells->0,
                    0,
                    track@.frame_cells->0.len() as int,
                );
            }
        }
        if track.items.len() > limit - total {
            return false;
        }
        total = total + track.items.len();
        if let Some(cells) = &track.frame_cells {
            let ghost shown = value::views(cells@);
            let ghost base = total as int;
            let mut at: usize = 0;
            while at < cells.len()
                invariant
                    at <= cells.len(),
                    shown == value::views(cells@),
                    total == base + cell_marks(shown, at as int),
                    total <= limit,
                    base + cell_marks(shown, shown.len() as int) <= overlay_total(
                        value::views(tracks@),
                        tracks@.len() as int,
                    ),
                decreases cells.len() - at,
            {
                proof {
                    lemma_cell_marks_grow(shown, at + 1, shown.len() as int);
                    assert(shown[at as int] == cells@[at as int]@);
                }
                if cells[at].marks.len() > limit - total {
                    return false;
                }
                total = total + cells[at].marks.len();
                at += 1;
            }
        }
        index += 1;
    }
    true
}

/// Why a source cannot be inserted, before its frames are looked at one by one.
pub open spec fn source_refusal(
    destination: ManifestView,
    source: ManifestView,
    validity: Result<(), String>,
) -> Option<InsertionRefusal> {
    let frames = source.timeline.frames.len();
    let tracks = source.timeline.overlay_tracks;
    if frames == 0 {
        Some(InsertionRefusal::EmptySource)
    } else if frames > MAX_INSERTED_FRAMES || destination.timeline.frames.len() + frames
        > MAX_RESULTING_FRAMES {
        Some(InsertionRefusal::FrameLimit)
    } else if tracks.len() > MAX_OVERLAY_ITEMS || overlay_total(tracks, tracks.len() as int)
        > MAX_OVERLAY_ITEMS {
        Some(InsertionRefusal::OverlayLimit)
    } else if validity is Err {
        Some(InsertionRefusal::Project(validity->Err_0@))
    } else if source.canvas.color_space != destination.canvas.color_space
        || source.canvas.background != destination.canvas.background {
        Some(InsertionRefusal::CanvasMismatch)
    } else if source.timeline.total() + destination.timeline.total() > u64::MAX {
        Some(InsertionRefusal::DurationOverflow)
    } else {
        None
    }
}

/// A refusal of a source as a whole.
pub enum InsertionRefusal {
    /// No frames.
    EmptySource,
    /// Too many frames.
    FrameLimit,
    /// Too many overlays.
    OverlayLimit,
    /// Does not hold together.
    Project(Seq<char>),
    /// Canvases that do not go together.
    CanvasMismatch,
    /// Too long.
    DurationOverflow,
}

/// Whether the error tells the refusal.
pub open spec fn tells(error: ProjectInsertionError, refusal: InsertionRefusal) -> bool {
    match refusal {
        InsertionRefusal::EmptySource => error == ProjectInsertionError::EmptySource,
        InsertionRefusal::FrameLimit => error == ProjectInsertionError::FrameLimit,
        InsertionRefusal::OverlayLimit => error == ProjectInsertionError::OverlayLimit,
        InsertionRefusal::Project(reason) => error matches ProjectInsertionError::Project(message)
            && message@ == reason,
        InsertionRefusal::CanvasMismatch => error == ProjectInsertionError::CanvasMismatch,
        InsertionRefusal::DurationOverflow => error == ProjectInsertionError::DurationOverflow,
    }
}

/// Refuses a source that cannot be inserted. `validity` says whether it holds together.
pub fn validate_source(
    destination: &ProjectManifest,
    source: &ProjectManifest,
    validity: &Result<(), String>,
) -> (result: Result<(), ProjectInsertionError>)
    ensures
        match result {
            Ok(_) => source_refusal(destination@, source@, *validity) is None,
            Err(error) => source_refusal(destination@, source@, *validity) matches Some(refusal)
                && tells(error, refusal),
        },
{
    let frames: usize = source.timeline.frames.len();
    if frames == 0 {
        return Err(ProjectInsertionError::EmptySource);
    }
    let present: usize = destination.timeline.frames.len();
    if frames > MAX_INSERTED_FRAMES || present > MAX_RESULTING_FRAMES - frames {
        return Err(ProjectInsertionError::FrameLimit);
    }
    let tracks = &source.timeline.overlay_tracks;
    if tracks.len() > MAX_OVERLAY_ITEMS || !overlays_within(tracks, MAX_OVERLAY_ITEMS) {
        return Err(ProjectInsertionError::OverlayLimit);
    }
    match validity {
        Ok(_) => {},
        Err(reason) => return Err(ProjectInsertionError::Project(reason.clone())),
    }
    if source.canvas.color_space != destination.canvas.color_space || source.canvas.background
        != destination.canvas.background {
        return Err(ProjectInsertionError::CanvasMismatch);
    }
    proof {
        crate::frames::lemma_clock_grows(
            destination@.timeline.frames,
            0,
            destination@.timeline.frames.len() as int,
        );
        crate::frames::lemma_clock_grows(
            source@.timeline.frames,
            0,
            source@.timeline.frames.len() as int,
        );
    }
    let fits = match source.timeline.total_duration() {
        Some(added) => match destination.timeline.total_duration() {
            Some(total) => total.checked_add(added).is_some(),
            None => false,
        },
        None => false,
    };
    if !fits {
        return Err(ProjectInsertionError::DurationOverflow);
    }
    Ok(())
}

/// What looking at the frames of a project, one after the other, comes to: the
/// dimensions that all frames so far are rendered with, or the first failure.
pub enum SizeScan {
    /// The common dimensions, once there is a frame.
    Agreed(Option<PhysicalSize>),
    /// An asset that is not registered.
    Missing(AssetId),
    /// An asset that is no raster.
    Unsupported(AssetId),
    /// A frame that cannot be rendered.
    Geometry(FrameId, Seq<char>),
    /// A frame of other dimensions.
    Mismatch(FrameId, PhysicalSize, PhysicalSize),
}

/// Looks at one more frame.
pub open spec fn scan_frame(
    before: SizeScan,
    frame: FrameView,
    assets: Seq<DescriptorView>,
    geometry: Result<PhysicalSize, String>,
) -> SizeScan {
    match before {
        SizeScan::Agreed(expected) => match project::asset_of(assets, frame.asset_id) {
            None => SizeScan::Missing(frame.asset_id),
            Some(asset) => if asset.kind.raster() is None {
                SizeScan::Unsupported(frame.asset_id)
            } else {
                match geometry {
                    Err(reason) => SizeScan::Geometry(frame.id, reason@),
                    Ok(actual) => match expected {
                        Some(size) if size != actual => SizeScan::Mismatch(
                            frame.id,
                            size,
                            actual,
                        ),
                        Some(size) => SizeScan::Agreed(Some(size)),
                        None => SizeScan::Agreed(Some(actual)),
                    },
                }
            },
        },
        failure => failure,
    }
}

/// Looks at the first `count` frames.
pub open spec fn scan_frames(
    start: SizeScan,
    frames: Seq<FrameView>,
    assets: Seq<DescriptorView>,
    geometry: Seq<Result<PhysicalSize, String>>,
    count: int,
) -> SizeScan
    decreases count,
{
    if count <= 0 {
        start
    } else {
        scan_frame(
            scan_frames(start, frames, assets, geometry, count - 1),
            frames[count - 1],
            assets,
            geometry[count - 1],
        )
    }
}

/// A failed scan stays failed.
proof fn lemma_scan_stays_failed(
    start: SizeScan,
    frames: Seq<FrameView>,
    assets: Seq<DescriptorView>,
    geometry: Seq<Result<PhysicalSize, String>>,
    failed: int,
    count: int,
)
    requires
        0 <= failed <= count,
        scan_frames(start, frames, assets, geometry, failed) !is Agreed,
    ensures
        scan_frames(start, frames, assets, geometry, count) == scan_frames(
            start,
            frames,
            assets,
            geometry,
            failed,
        ),
    decreases count,
{
    if failed < count {
        lemma_scan_stays_failed(start, frames, assets, geometry, failed, count - 1);
    }
}

/// Whether the error tells the failure of a scan of the given project.
pub open spec fn tells_scan(
    error: ProjectInsertionError,
    side: InsertionSide,
    scan: SizeScan,
) -> bool {
    match scan {
        SizeScan::Agreed(_) => false,
        SizeScan::Missing(id) => error == ProjectInsertionError::MissingAsset(id),
        SizeScan::Unsupported(id) => error == ProjectInsertionError::UnsupportedAsset(id),
        SizeScan::Geometry(id, why) => error matches ProjectInsertionError::RenderedGeometry {
            side: at,
            frame_id,
            reason,
        } && at == side && frame_id == id && reason@ == why,
        SizeScan::Mismatch(id, wanted, found) => error
            == ProjectInsertionError::RenderedSizeMismatch {
            side,
            frame_id: id,
            expected: wanted,
            actual: found,
        },
    }
}

/// Looks at the frames of one project.
fn scan_side<C: CancellationToken>(
    side: InsertionSide,
    project: &ProjectManifest,
    geometry: &Vec<Result<PhysicalSize, String>>,
    start: Option<PhysicalSize>,
    cancellation: &C,
) -> (result: Result<Option<PhysicalSize>, ProjectInsertionError>)
    requires
        geometry@.len() == project.timeline.frames@.len(),
    ensures
        ({
            let scan = scan_frames(
                SizeScan::Agreed(start),
                project@.timeline.frames,
                project@.assets,
                geometry@,
                geometry@.len() as int,
            );
            match result {
                Ok(size) => scan == SizeScan::Agreed(size),
                Err(error) => {
                    ||| cancellation.may_cancel() && error == ProjectInsertionError::Cancelled
                    ||| tells_scan(error, side, scan)
                },
            }
        }),
{
    let frames = &project.timeline.frames;
    let ghost clips = project@.timeline.frames;
    let mut expected: Option<PhysicalSize> = start;
    let mut index: usize = 0;
    while index < frames.len()
        invariant
            index <= frames.len(),
            geometry@.len() == frames@.len(),
            clips == value::views(frames@),
            clips == project@.timeline.frames,
            scan_frames(
                SizeScan::Agreed(start),
                clips,
                project@.assets,
                geometry@,
                index as int,
            ) == SizeScan::Agreed(expected),
        decreases frames.len() - index,
    {
        check_insertion_cancelled(cancellation)?;
        let frame = &frames[index];
        assert(clips[index as int] == frame@);
        let ghost next = scan_frames(
            SizeScan::Agreed(start),
            clips,
            project@.assets,
            geometry@,
            index + 1,
        );
        let at = match find_asset(&project.assets, frame.asset_id) {
            Some(at) => at,
            None => {
                proof {
                    lemma_scan_stays_failed(
                        SizeScan::Agreed(start),
                        clips,
                        project@.assets,
                        geometry@,
                        index + 1,
                        clips.len() as int,
                    );
                }
                return Err(ProjectInsertionError::MissingAsset(frame.asset_id));
            },
        };
        if project.assets[at].kind.raster_descriptor().is_none() {
            proof {
                lemma_scan_stays_failed(
                    SizeScan::Agreed(start),
                    clips,
                    project@.assets,
                    geometry@,
                    index + 1,
                    clips.len() as int,
                );
            }
            return Err(ProjectInsertionError::UnsupportedAsset(frame.asset_id));
        }
        let actual = match &geometry[index] {
            Ok(size) => *size,
            Err(reason) => {
                proof {
                    lemma_scan_stays_failed(
                        SizeScan::Agreed(start),
                        clips,
                        project@.assets,
                        geometry@,
                        index + 1,
                        clips.len() as int,
                    );
                }
                return Err(
                    ProjectInsertionError::RenderedGeometry {
                        side,
                        frame_id: frame.id,
                        reason: reason.clone(),
                    },
                );
            },
        };
        match expected {
            Some(size) => {
                if size != actual {
                    proof {
                        lemma_scan_stays_failed(
                            SizeScan::Agreed(start),
                            clips,
                            project@.assets,
                            geometry@,
                            index + 1,
                            clips.len() as int,
                        );
                    }
                    return Err(
                        ProjectInsertionError::RenderedSizeMismatch {
                            side,
                            frame_id: frame.id,
                            expected: size,
                            actual,
                        },
                    );
                }
            },
            None => {
                expected = Some(actual);
            },
        }
        index += 1;
    }
    Ok(expected)
}

/// The dimensions that every frame of both projects is rendered with.
///
/// `source_geometry` and `destination_geometry` say what the rendering steps of each
/// frame make of its picture.
pub fn validate_rendered_sizes<C: CancellationToken>(
    source: &ProjectManifest,
    destination: &ProjectManifest,
    source_geometry: &Vec<Result<PhysicalSize, String>>,
    destination_geometry: &Vec<Result<PhysicalSize, String>>,
    cancellation: &C,
) -> (result: Result<PhysicalSize, ProjectInsertionError>)
    requires
        source_geometry@.len() == source.timeline.frames@.len(),
        destination_geometry@.len() == destination.timeline.frames@.len(),
    ensures
        ({
            let first = scan_frames(
                SizeScan::Agreed(None),
                source@.timeline.frames,
                source@.assets,
                source_geometry@,
                source_geometry@.len() as int,
            );
            let both = scan_frames(
                first,
                destination@.timeline.frames,
                destination@.assets,
                destination_geometry@,
                destination_geometry@.len() as int,
            );
            match result {
                Ok(size) => !cancellation.must_cancel() && both == SizeScan::Agreed(Some(size)),
                Err(error) => {
                    ||| cancellation.may_cancel() && error == ProjectInsertionError::Cancelled
                    ||| first !is Agreed && tells_scan(error, InsertionSide::Source, first)
                    ||| first is Agreed && both !is Agreed && tells_scan(
                        error,
                        InsertionSide::Destination,
                        both,
                    )
                    ||| both == SizeScan::Agreed(None) && error
                        == ProjectInsertionError::EmptySource
                },
            }
        }),
{
    let first = scan_side(InsertionSide::Source, source, source_geometry, None, cancellation)?;
    let both = scan_side(
        InsertionSide::Destination,
        destination,
        destination_geometry,
        first,
        cancellation,
    )?;
    check_insertion_cancelled(cancellation)?;
    match both {
        Some(size) => Ok(size),
        None => Err(ProjectInsertionError::EmptySource),
    }
}

/// A source is accepted exactly where it has frames, at most a thousand of them and with those of the
/// destination at most a hundred thousand, where it has at most ten thousand layers and ten thousand
/// overlays, is valid, paints the same colours on the same background, and all frames together last no
/// longer than can be written.
pub proof fn law_what_may_be_inserted(destination: ManifestView, source: ManifestView, validity: Result<(), String>)
    ensures
        source_refusal(destination, source, validity) is None <==> {
            &&& 1 <= source.timeline.frames.len() <= 1_000
            &&& source.timeline.frames.len() + destination.timeline.frames.len() <= 100_000
            &&& source.timeline.overlay_tracks.len() <= 10_000
            &&& overlay_total(source.timeline.overlay_tracks, source.timeline.overlay_tracks.len() as int) <= 10_000
            &&& validity is Ok
            &&& source.canvas.color_space == destination.canvas.color_space
            &&& source.canvas.background == destination.canvas.background
            &&& frames::clock(source.timeline.frames, source.timeline.frames.len() as int) + frames::clock(
                destination.timeline.frames,
                destination.timeline.frames.len() as int,
            ) <= u64::MAX
        },
{
}

/// Two projects can be joined exactly where every frame of both shows a registered picture and every
/// frame comes out in one and the same size.
pub proof fn law_all_frames_come_out_in_one_size(
    source: Seq<FrameView>,
    source_assets: Seq<DescriptorView>,
    source_geometry: Seq<Result<PhysicalSize, String>>,
    destination: Seq<FrameView>,
    destination_assets: Seq<DescriptorView>,
    destination_geometry: Seq<Result<PhysicalSize, String>>,
    size: PhysicalSize,
)
    requires
        source_geometry.len() == source.len(),
        destination_geometry.len() == destination.len(),
        source.len() > 0,
    ensures
        scan_frames(
            scan_frames(SizeScan::Agreed(None), source, source_assets, source_geometry, source.len() as int),
            destination,
            destination_assets,
            destination_geometry,
            destination.len() as int,
        ) == SizeScan::Agreed(Some(size)) <==> {
            &&& forall|i: int|
                0 <= i < source.len() ==> (#[trigger] source_geometry[i]) == Ok::<PhysicalSize, String>(size)
                    && pictured(source[i], source_assets)
            &&& forall|i: int|
                0 <= i < destination.len() ==> (#[trigger] destination_geometry[i]) == Ok::<PhysicalSize, String>(size)
                    && pictured(destination[i], destination_assets)
        },
{
    let first = scan_frames(SizeScan::Agreed(None), source, source_assets, source_geometry, source.len() as int);
    lemma_scan_agrees(SizeScan::Agreed(None), source, source_assets, source_geometry, source.len() as int, size);
    lemma_scan_agrees(first, destination, destination_assets, destination_geometry, destination.len() as int, size);
    lemma_scan_found(SizeScan::Agreed(None), source, source_assets, source_geometry, source.len() as int);
    lemma_scan_kept(first, destination, destination_assets, destination_geometry, destination.len() as int);
}

/// Whether the picture of a frame is registered as a picture.
pub open spec fn pictured(frame: FrameView, assets: Seq<DescriptorView>) -> bool {
    project::asset_of(assets, frame.asset_id) matches Some(asset) && {
        ||| asset.kind is Frame
        ||| asset.kind is OverlayImage
        ||| asset.kind is Mask
    }
}

proof fn lemma_scan_agrees(
    start: SizeScan,
    frames: Seq<FrameView>,
    assets: Seq<DescriptorView>,
    geometry: Seq<Result<PhysicalSize, String>>,
    count: int,
    size: PhysicalSize,
)
    requires
        0 <= count <= frames.len(),
    ensures
        count > 0 || start != SizeScan::Agreed(None) ==> (scan_frames(start, frames, assets, geometry, count)
            == SizeScan::Agreed(Some(size)) <==> {
            &&& start == SizeScan::Agreed(None) || start == SizeScan::Agreed(Some(size))
            &&& forall|i: int|
                0 <= i < count ==> (#[trigger] geometry[i]) == Ok::<PhysicalSize, String>(size) && pictured(
                    frames[i],
                    assets,
                )
        }),
        start == SizeScan::Agreed(None) && count == 0 ==> scan_frames(start, frames, assets, geometry, count)
            == SizeScan::Agreed(None),
    decreases count,
{
    if count > 0 {
        lemma_scan_agrees(start, frames, assets, geometry, count - 1, size);
        lemma_scan_kept(start, frames, assets, geometry, count - 1);
        lemma_scan_found(start, frames, assets, geometry, count - 1);
        let before = scan_frames(start, frames, assets, geometry, count - 1);
        let last = count - 1;
        if scan_frames(start, frames, assets, geometry, count) == SizeScan::Agreed(Some(size)) {
            assert(geometry[last] == Ok::<PhysicalSize, String>(size));
            if before == SizeScan::Agreed(None) {
                assert(count - 1 == 0);
            }
        }
    }
}

proof fn lemma_scan_found(
    start: SizeScan,
    frames: Seq<FrameView>,
    assets: Seq<DescriptorView>,
    geometry: Seq<Result<PhysicalSize, String>>,
    count: int,
)
    ensures
        scan_frames(start, frames, assets, geometry, count) == SizeScan::Agreed(None) ==> count <= 0 && start
            == SizeScan::Agreed(None),
    decreases count,
{
    if count > 0 {
        lemma_scan_found(start, frames, assets, geometry, count - 1);
    }
}

proof fn lemma_scan_kept(
    start: SizeScan,
    frames: Seq<FrameView>,
    assets: Seq<DescriptorView>,
    geometry: Seq<Result<PhysicalSize, String>>,
    count: int,
)
    ensures
        start !is Agreed ==> scan_frames(start, frames, assets, geometry, count) == start,
        (start matches SizeScan::Agreed(Some(size)) && scan_frames(start, frames, assets, geometry, count) is Agreed)
            ==> scan_frames(start, frames, assets, geometry, count) == start,
    decreases count,
{
    if count > 0 {
        lemma_scan_kept(start, frames, assets, geometry, count - 1);
    }
}

/// A picture that does not come out in the size of those before it is told with the frame, the size that
/// was expected and the size that came.
pub proof fn law_a_frame_of_another_size_is_told(
    frames: Seq<FrameView>,
    assets: Seq<DescriptorView>,
    geometry: Seq<Result<PhysicalSize, String>>,
    size: PhysicalSize,
    at: int,
    other: PhysicalSize,
    count: int,
)
    requires
        0 < at < count <= frames.len(),
        other != size,
        geometry[at] == Ok::<PhysicalSize, String>(other),
        pictured(frames[at], assets),
        forall|i: int|
            0 <= i < at ==> (#[trigger] geometry[i]) == Ok::<PhysicalSize, String>(size) && pictured(frames[i], assets),
    ensures
        scan_frames(SizeScan::Agreed(None), frames, assets, geometry, count) == SizeScan::Mismatch(
            frames[at].id,
            size,
            other,
        ),
{
    lemma_scan_agrees(SizeScan::Agreed(None), frames, assets, geometry, at, size);
    assert(scan_frames(SizeScan::Agreed(None), frames, assets, geometry, at + 1) == SizeScan::Mismatch(
        frames[at].id,
        size,
        other,
    ));
    lemma_scan_stays_failed(SizeScan::Agreed(None), frames, assets, geometry, at + 1, count);
}

/// Marks and items are counted one by one: a cell adds its marks, and a layer its items and the marks of
/// its cells.
pub proof fn law_overlays_are_counted_one_by_one(
    cells: Seq<CellView>,
    cell: CellView,
    tracks: Seq<TrackView>,
    track: TrackView,
)
    ensures
        cell_marks(cells.push(cell), cells.len() + 1int) == cell_marks(cells, cells.len() as int) + cell.marks.len(),
        cell_marks(cells, 0) == 0,
        overlay_total(tracks.push(track), tracks.len() + 1int) == overlay_total(tracks, tracks.len() as int)
            + track.items.len() + (match track.frame_cells {
            Some(list) => cell_marks(list, list.len() as int),
            None => 0,
        }),
        overlay_total(tracks, 0) == 0,
{
    lemma_cell_marks_prefix(cells, cells.push(cell), cells.len() as int);
    lemma_overlay_total_prefix(tracks, tracks.push(track), tracks.len() as int);
}

proof fn lemma_cell_marks_prefix(cells: Seq<CellView>, more: Seq<CellView>, count: int)
    requires
        0 <= count <= cells.len() <= more.len(),
        forall|i: int| 0 <= i < count ==> #[trigger] cells[i] == more[i],
    ensures
        cell_marks(cells, count) == cell_marks(more, count),
    decreases count,
{
    if count > 0 {
        lemma_cell_marks_prefix(cells, more, count - 1);
        assert(cells[count - 1] == more[count - 1]);
    }
}

proof fn lemma_overlay_total_prefix(tracks: Seq<TrackView>, more: Seq<TrackView>, count: int)
    requires
        0 <= count <= tracks.len() <= more.len(),
        forall|i: int| 0 <= i < count ==> #[trigger] tracks[i] == more[i],
    ensures
        overlay_total(tracks, count) == overlay_total(more, count),
    decreases count,
{
    if count > 0 {
        lemma_overlay_total_prefix(tracks, more, count - 1);
        assert(tracks[count - 1] == more[count - 1]);
    }
}

/// What is told first of a source that cannot be inserted: that it is empty, then its frames, its overlays,
/// its faults, its canvas and its duration.
pub proof fn law_what_is_told_first(destination: ManifestView, source: ManifestView, validity: Result<(), String>)
    ensures
        ({
            let count = source.timeline.frames.len();
            let tracks = source.timeline.overlay_tracks;
            let few = count <= 1_000 && count + destination.timeline.frames.len() <= 100_000;
            let small = tracks.len() <= 10_000 && overlay_total(tracks, tracks.len() as int) <= 10_000;
            let fitting = source.canvas.color_space == destination.canvas.color_space && source.canvas.background
                == destination.canvas.background;
            let refusal = source_refusal(destination, source, validity);
            &&& refusal == Some(InsertionRefusal::EmptySource) <==> count == 0
            &&& refusal == Some(InsertionRefusal::FrameLimit) <==> count > 0 && !few
            &&& refusal == Some(InsertionRefusal::OverlayLimit) <==> count > 0 && few && !small
            &&& refusal matches Some(InsertionRefusal::Project(reason)) ==> count > 0 && few && small && validity is Err
                && validity->Err_0@ == reason
            &&& count > 0 && few && small && validity is Err ==> refusal is Some && refusal->0 is Project
            &&& refusal == Some(InsertionRefusal::CanvasMismatch) <==> count > 0 && few && small && validity is Ok
                && !fitting
        }),
{
}

/// An error tells what was found: of a scan, the side, the frame, the asset and the sizes.
pub proof fn law_errors_tell_what_was_found(
    error: ProjectInsertionError,
    side: InsertionSide,
    scan: SizeScan,
    refusal: InsertionRefusal,
)
    ensures
        tells_scan(error, side, scan) ==> match error {
            ProjectInsertionError::MissingAsset(id) => scan == SizeScan::Missing(id),
            ProjectInsertionError::UnsupportedAsset(id) => scan == SizeScan::Unsupported(id),
            ProjectInsertionError::RenderedGeometry { side: at, frame_id, reason } => at == side && scan
                == SizeScan::Geometry(frame_id, reason@),
            ProjectInsertionError::RenderedSizeMismatch { side: at, frame_id, expected, actual } => at == side && scan
                == SizeScan::Mismatch(frame_id, expected, actual),
            _ => false,
        },
        tells(error, refusal) ==> match error {
            ProjectInsertionError::EmptySource => refusal is EmptySource,
            ProjectInsertionError::FrameLimit => refusal is FrameLimit,
            ProjectInsertionError::OverlayLimit => refusal is OverlayLimit,
            ProjectInsertionError::Project(reason) => refusal == InsertionRefusal::Project(reason@),
            ProjectInsertionError::CanvasMismatch => refusal is CanvasMismatch,
            ProjectInsertionError::DurationOverflow => refusal is DurationOverflow,
            _ => false,
        },
{
}

} // verus!
