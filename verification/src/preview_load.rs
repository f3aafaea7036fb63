//! Which pictures a preview is made of, and what they may take up.
use crate::cancel::CancellationToken;
use crate::frames;
use crate::frames::{start_of, FrameClip, RenderStep};
use crate::geometry::PhysicalSize;
use crate::ids::{AssetId, FrameId, OverlayId};
use crate::motion_render;
use crate::motion_render::find_frame;
use crate::motion_still::{PREMULTIPLIED_SNAPSHOT_FORMAT_VERSION, PREMULTIPLIED_SNAPSHOT_HEADER_LEN};
use crate::preview::EditorPreviewError;
use crate::project;
use crate::project::{find_asset, AssetDescriptor, AssetKind, DescriptorView, ProjectManifest, RasterEncoding};
use crate::surface::RgbaSurface;
use crate::time::TimeUs;
use crate::value;
use crate::value::Value;
use vstd::prelude::*;

verus! {

/// What a picture is needed for.
#[derive(Clone, Copy, Debug, PartialEq, Eq, Structural)]
pub enum PreviewRasterRole {
    /// It is the picture of a frame.
    Frame {
        /// The frame.
        frame_id: FrameId,
    },
    /// An overlay paints it.
    Overlay {
        /// The overlay.
        overlay_id: OverlayId,
    },
}

/// A picture that an overlay paints.
#[derive(Clone, Copy, Debug, PartialEq, Eq, Structural)]
pub struct RasterUse {
    /// The overlay.
    pub overlay_id: OverlayId,
    /// The picture.
    pub asset_id: AssetId,
}

/// A clipped still picture that a frame is rendered with.
#[derive(Clone, Copy, Debug, PartialEq, Eq, Structural)]
pub struct SnapshotUse {
    /// The picture.
    pub asset_id: AssetId,
    /// Its dimensions.
    pub size: PhysicalSize,
}

/// The clipped still pictures among rendering steps, in their order.
pub open spec fn snapshot_uses(steps: Seq<RenderStep>) -> Seq<SnapshotUse>
    decreases steps.len(),
{
    if steps.len() == 0 {
        Seq::empty()
    } else {
        let before = snapshot_uses(steps.drop_last());
        match steps.last() {
            RenderStep::CinemagraphOverlay { snapshot_asset, snapshot_size } => before.push(
                SnapshotUse { asset_id: snapshot_asset, size: snapshot_size },
            ),
            _ => before,
        }
    }
}

fn find_snapshots(steps: &Vec<RenderStep>) -> (uses: Vec<SnapshotUse>)
    ensures
        uses@ == snapshot_uses(steps@),
{
    let mut uses: Vec<SnapshotUse> = Vec::new();
    let mut at: usize = 0;
    let count: usize = steps.len();
    while at < count
        invariant
            at <= count,
            count == steps@.len(),
            uses@ == snapshot_uses(steps@.take(at as int)),
        decreases count - at,
    {
        assert(steps@.take(at + 1).drop_last() =~= steps@.take(at as int));
        if let RenderStep::CinemagraphOverlay { snapshot_asset, snapshot_size } = steps[at] {
            uses.push(SnapshotUse { asset_id: snapshot_asset, size: snapshot_size });
        }
        at = at + 1;
    }
    assert(steps@.take(at as int) =~= steps@);
    uses
}

/// A blob under the name it is asked for by.
#[derive(Debug)]
pub struct NamedDescriptor {
    /// The name.
    pub name: AssetId,
    /// What is registered.
    pub descriptor: AssetDescriptor,
}

/// Whether the first blob under a name is at a position.
pub open spec fn named_at(list: Seq<NamedDescriptor>, name: AssetId, at: int) -> bool {
    &&& 0 <= at < list.len()
    &&& list[at].name == name
    &&& forall|i: int| 0 <= i < at ==> (#[trigger] list[i]).name != name
}

/// What is registered under a name.
pub open spec fn named(list: Seq<NamedDescriptor>, name: AssetId) -> Option<AssetDescriptor> {
    if exists|at: int| named_at(list, name, at) {
        Some(list[choose|at: int| named_at(list, name, at)].descriptor)
    } else {
        None
    }
}

fn find_named(list: &Vec<NamedDescriptor>, name: AssetId) -> (at: Option<usize>)
    ensures
        match at {
            Some(i) => named_at(list@, name, i as int) && named(list@, name) == Some(list@[i as int].descriptor),
            None => named(list@, name) is None && forall|i: int|
                0 <= i < list@.len() ==> (#[trigger] list@[i]).name != name,
        },
{
    let mut at: usize = 0;
    let count: usize = list.len();
    while at < count
        invariant
            at <= count,
            count == list@.len(),
            forall|i: int| 0 <= i < at ==> (#[trigger] list@[i]).name != name,
        decreases count - at,
    {
        if list[at].name == name {
            proof {
                assert(named_at(list@, name, at as int));
                let other = choose|i: int| named_at(list@, name, i);
                assert(list@[other].name == name);
                assert(other == at);
            }
            return Some(at);
        }
        at = at + 1;
    }
    None
}

/// The dimensions and the encoding of a picture, or why a blob is none.
pub fn preview_raster_shape(kind: &AssetKind, role: PreviewRasterRole, asset_id: AssetId) -> (result: Result<
    (PhysicalSize, RasterEncoding),
    EditorPreviewError,
>)
    ensures
        match result {
            Ok(shape) => kind@.raster() == Some(shape),
            Err(error) => kind@.raster() is None && no_picture(error, kind@, role, asset_id),
        },
{
    if let Some(shape) = kind.raster_descriptor() {
        return Ok(shape);
    }
    match role {
        PreviewRasterRole::Frame { frame_id: _ } => Err(
            EditorPreviewError::InvalidAssetKind { asset_id, kind: kind.duplicate() },
        ),
        PreviewRasterRole::Overlay { overlay_id } => Err(
            EditorPreviewError::InvalidOverlayAssetKind { overlay_id, asset_id, kind: kind.duplicate() },
        ),
    }
}

/// Whether an error says that a blob is no picture.
pub open spec fn no_picture(
    error: EditorPreviewError,
    kind: project::KindView,
    role: PreviewRasterRole,
    asset_id: AssetId,
) -> bool {
    match role {
        PreviewRasterRole::Frame { .. } => error matches EditorPreviewError::InvalidAssetKind {
            asset_id: blob,
            kind: found,
        } && blob == asset_id && found@ == kind,
        PreviewRasterRole::Overlay { overlay_id } => error matches EditorPreviewError::InvalidOverlayAssetKind {
            overlay_id: overlay,
            asset_id: blob,
            kind: found,
        } && overlay == overlay_id && blob == asset_id && found@ == kind,
    }
}

/// The error for a picture that is not registered.
pub open spec fn unregistered(role: PreviewRasterRole, asset_id: AssetId) -> EditorPreviewError {
    match role {
        PreviewRasterRole::Frame { frame_id } => EditorPreviewError::MissingAssetDescriptor { frame_id, asset_id },
        PreviewRasterRole::Overlay { overlay_id } => EditorPreviewError::MissingOverlayAssetDescriptor {
            overlay_id,
            asset_id,
        },
    }
}

/// The error for a picture that is not written as plain pixels.
pub open spec fn wrong_encoding(role: PreviewRasterRole, asset_id: AssetId, encoding: RasterEncoding) -> EditorPreviewError {
    match role {
        PreviewRasterRole::Frame { .. } => EditorPreviewError::UnsupportedAssetEncoding { asset_id, encoding },
        PreviewRasterRole::Overlay { overlay_id } => EditorPreviewError::UnsupportedOverlayAssetEncoding {
            overlay_id,
            asset_id,
            encoding,
        },
    }
}

fn missing(role: PreviewRasterRole, asset_id: AssetId) -> (error: EditorPreviewError)
    ensures
        error == unregistered(role, asset_id),
{
    match role {
        PreviewRasterRole::Frame { frame_id } => EditorPreviewError::MissingAssetDescriptor { frame_id, asset_id },
        PreviewRasterRole::Overlay { overlay_id } => EditorPreviewError::MissingOverlayAssetDescriptor {
            overlay_id,
            asset_id,
        },
    }
}

fn unsupported(role: PreviewRasterRole, asset_id: AssetId, encoding: RasterEncoding) -> (error: EditorPreviewError)
    ensures
        error == wrong_encoding(role, asset_id, encoding),
{
    match role {
        PreviewRasterRole::Frame { frame_id: _ } => EditorPreviewError::UnsupportedAssetEncoding { asset_id, encoding },
        PreviewRasterRole::Overlay { overlay_id } => EditorPreviewError::UnsupportedOverlayAssetEncoding {
            overlay_id,
            asset_id,
            encoding,
        },
    }
}

/// A picture in memory.
#[derive(Debug)]
pub struct LoadedPicture {
    /// Its name.
    pub asset_id: AssetId,
    /// Its pixels.
    pub surface: RgbaSurface,
}

/// What pictures take up.
pub open spec fn taken_up(pictures: Seq<LoadedPicture>) -> int
    decreases pictures.len(),
{
    if pictures.len() == 0 {
        0
    } else {
        taken_up(pictures.drop_last()) + pictures.last().surface.pixels@.len()
    }
}

/// A clipped still picture in memory, kept in the container it is stored in.
#[derive(Debug)]
pub struct LoadedSnapshot {
    /// Its name.
    pub asset_id: AssetId,
    /// Its pixels.
    pub surface: RgbaSurface,
    /// The length of its container.
    pub encoded_bytes: u64,
}

/// What clipped still pictures take up.
pub open spec fn containers(snapshots: Seq<LoadedSnapshot>) -> int
    decreases snapshots.len(),
{
    if snapshots.len() == 0 {
        0
    } else {
        containers(snapshots.drop_last()) + snapshots.last().encoded_bytes
    }
}

/// Whether a clipped still picture is in memory.
pub open spec fn snapshot_in_memory(snapshots: Seq<LoadedSnapshot>, asset_id: AssetId) -> bool {
    exists|i: int| 0 <= i < snapshots.len() && (#[trigger] snapshots[i]).asset_id == asset_id
}

/// Whether a picture is in memory.
pub open spec fn in_memory(pictures: Seq<LoadedPicture>, asset_id: AssetId) -> bool {
    exists|i: int| 0 <= i < pictures.len() && (#[trigger] pictures[i]).asset_id == asset_id
}

/// The pictures of one preview.
#[derive(Debug)]
pub struct PreviewAssets {
    /// The pictures.
    pub pictures: Vec<LoadedPicture>,
    /// The clipped still pictures.
    pub snapshots: Vec<LoadedSnapshot>,
    /// What they all take up.
    pub retained_bytes: u64,
    /// What they can take up.
    pub limit_bytes: usize,
}

/// What has to be read for a picture.
#[derive(Clone, Copy, Debug, PartialEq, Eq, Structural)]
pub enum RasterNeed {
    /// Nothing: it is in memory.
    Loaded,
    /// A file.
    File {
        /// The dimensions of the picture.
        size: PhysicalSize,
        /// The length of the file.
        byte_len: u64,
    },
}

/// A clipped still picture whose container may be read.
#[derive(Clone, Copy, Debug, PartialEq, Eq, Structural)]
pub struct AdmittedSnapshot {
    /// Its name.
    pub asset_id: AssetId,
    /// Its dimensions.
    pub size: PhysicalSize,
    /// What the pictures take up with it.
    pub required: u64,
}

/// A picture whose file may be read.
#[derive(Clone, Copy, Debug, PartialEq, Eq, Structural)]
pub struct AdmittedRaster {
    /// Its name.
    pub asset_id: AssetId,
    /// Its dimensions.
    pub size: PhysicalSize,
    /// What the pictures take up with it.
    pub required: u64,
}

/// What has to be read for a picture, or why it cannot be part of a preview.
pub open spec fn needed(
    list: Seq<NamedDescriptor>,
    pictures: Seq<LoadedPicture>,
    asset_id: AssetId,
    role: PreviewRasterRole,
    result: Result<RasterNeed, EditorPreviewError>,
) -> bool {
    match named(list, asset_id) {
        None => result == Err::<RasterNeed, EditorPreviewError>(unregistered(role, asset_id)),
        Some(descriptor) => if descriptor.id != asset_id {
            result == Err::<RasterNeed, EditorPreviewError>(
                EditorPreviewError::DescriptorIdMismatch { asset_id, descriptor_id: descriptor.id },
            )
        } else {
            match descriptor.kind@.raster() {
                None => result matches Err(error) && no_picture(error, descriptor.kind@, role, asset_id),
                Some((size, encoding)) => {
                    let expected = size.width * size.height * 4;
                    if encoding != RasterEncoding::Rgba8 {
                        result == Err::<RasterNeed, EditorPreviewError>(wrong_encoding(role, asset_id, encoding))
                    } else if in_memory(pictures, asset_id) {
                        result == Ok::<RasterNeed, EditorPreviewError>(RasterNeed::Loaded)
                    } else if expected > u64::MAX {
                        result == Err::<RasterNeed, EditorPreviewError>(
                            EditorPreviewError::SourceByteLengthOverflow {
                                asset_id,
                                width: size.width,
                                height: size.height,
                            },
                        )
                    } else if descriptor.byte_len != expected {
                        result == Err::<RasterNeed, EditorPreviewError>(
                            EditorPreviewError::DescriptorByteLengthMismatch {
                                asset_id,
                                width: size.width,
                                height: size.height,
                                expected: expected as u64,
                                actual: descriptor.byte_len,
                            },
                        )
                    } else {
                        result == Ok::<RasterNeed, EditorPreviewError>(
                            RasterNeed::File { size, byte_len: descriptor.byte_len },
                        )
                    }
                },
            }
        },
    }
}

/// The length of the container of a clipped still picture.
pub open spec fn container_bytes(size: PhysicalSize) -> int {
    4 * size.pixel_count() + PREMULTIPLIED_SNAPSHOT_HEADER_LEN
}

/// Whether a blob is the container of a clipped still picture of the given dimensions.
pub open spec fn holds_snapshot(descriptor: DescriptorView, size: PhysicalSize) -> bool {
    &&& descriptor.kind == (project::KindView::PremultipliedSnapshot {
        size,
        format_version: PREMULTIPLIED_SNAPSHOT_FORMAT_VERSION,
    })
    &&& descriptor.byte_len == container_bytes(size)
}

/// What has to be read for a clipped still picture, or why it cannot be part of a preview.
pub open spec fn snapshot_needed(
    list: Seq<NamedDescriptor>,
    snapshots: Seq<LoadedSnapshot>,
    frame_id: FrameId,
    snapshot: SnapshotUse,
) -> Result<RasterNeed, EditorPreviewError> {
    let asset_id = snapshot.asset_id;
    match named(list, asset_id) {
        None => Err(EditorPreviewError::MissingAssetDescriptor { frame_id, asset_id }),
        Some(descriptor) => if descriptor.id != asset_id {
            Err(EditorPreviewError::DescriptorIdMismatch { asset_id, descriptor_id: descriptor.id })
        } else if !holds_snapshot(descriptor@, snapshot.size) {
            Err(EditorPreviewError::InvalidPremultipliedDescriptor { asset_id })
        } else if snapshot_in_memory(snapshots, asset_id) {
            Ok(RasterNeed::Loaded)
        } else {
            Ok(RasterNeed::File { size: snapshot.size, byte_len: descriptor.byte_len })
        },
    }
}

impl PreviewAssets {
    /// Whether the bytes are counted and within their limit, and every picture has its dimensions.
    pub open spec fn wf(self) -> bool {
        &&& self.retained_bytes == taken_up(self.pictures@) + containers(self.snapshots@)
        &&& forall|i: int| 0 <= i < self.snapshots@.len() ==> (#[trigger] self.snapshots@[i]).surface.wf()
        &&& forall|i: int, j: int|
            0 <= i < j < self.snapshots@.len() ==> (#[trigger] self.snapshots@[i]).asset_id != (
            #[trigger] self.snapshots@[j]).asset_id
        &&& self.retained_bytes <= self.limit_bytes
        &&& forall|i: int| 0 <= i < self.pictures@.len() ==> (#[trigger] self.pictures@[i]).surface.wf()
        &&& forall|i: int, j: int|
            0 <= i < j < self.pictures@.len() ==> (#[trigger] self.pictures@[i]).asset_id != (
            #[trigger] self.pictures@[j]).asset_id
    }

    /// Whether a picture may be taken in as it was admitted.
    pub open spec fn allows(self, raster: AdmittedRaster) -> bool {
        &&& !in_memory(self.pictures@, raster.asset_id)
        &&& raster.required == self.retained_bytes + 4 * raster.size.pixel_count()
        &&& raster.required <= self.limit_bytes
    }

    /// Whether a clipped still picture may be taken in as it was admitted.
    pub open spec fn allows_snapshot(self, snapshot: AdmittedSnapshot) -> bool {
        &&& !snapshot_in_memory(self.snapshots@, snapshot.asset_id)
        &&& snapshot.required == self.retained_bytes + container_bytes(snapshot.size)
        &&& snapshot.required <= self.limit_bytes
    }

    /// No picture yet.
    pub fn new(limit_bytes: usize) -> (assets: PreviewAssets)
        ensures
            assets.wf(),
            assets.pictures@.len() == 0,
            assets.snapshots@.len() == 0,
            assets.limit_bytes == limit_bytes,
    {
        PreviewAssets { pictures: Vec::new(), snapshots: Vec::new(), retained_bytes: 0, limit_bytes }
    }

    fn find(&self, asset_id: AssetId) -> (at: Option<usize>)
        ensures
            match at {
                Some(i) => i < self.pictures@.len() && self.pictures@[i as int].asset_id == asset_id,
                None => !in_memory(self.pictures@, asset_id),
            },
    {
        let mut at: usize = 0;
        let count: usize = self.pictures.len();
        while at < count
            invariant
                at <= count,
                count == self.pictures@.len(),
                forall|i: int| 0 <= i < at ==> (#[trigger] self.pictures@[i]).asset_id != asset_id,
            decreases count - at,
        {
            if self.pictures[at].asset_id == asset_id {
                return Some(at);
            }
            at = at + 1;
        }
        None
    }

    /// The picture of the given name.
    pub fn load_rgba8(&self, asset_id: AssetId) -> (surface: Option<&RgbaSurface>)
        ensures
            match surface {
                Some(found) => exists|i: int|
                    0 <= i < self.pictures@.len() && (#[trigger] self.pictures@[i]).asset_id == asset_id
                        && self.pictures@[i].surface == *found,
                None => !in_memory(self.pictures@, asset_id),
            },
    {
        match self.find(asset_id) {
            Some(at) => Some(&self.pictures[at].surface),
            None => None,
        }
    }

    /// Works out what has to be read for a picture.
    pub fn begin(&self, list: &Vec<NamedDescriptor>, asset_id: AssetId, role: PreviewRasterRole) -> (result: Result<
        RasterNeed,
        EditorPreviewError,
    >)
        ensures
            needed(list@, self.pictures@, asset_id, role, result),
            result matches Ok(RasterNeed::File { size, byte_len }) ==> byte_len == 4 * size.pixel_count()
                && !in_memory(self.pictures@, asset_id),
    {
        let at: usize = match find_named(list, asset_id) {
            Some(at) => at,
            None => return Err(missing(role, asset_id)),
        };
        let descriptor = &list[at].descriptor;
        if descriptor.id != asset_id {
            return Err(EditorPreviewError::DescriptorIdMismatch { asset_id, descriptor_id: descriptor.id });
        }
        let (size, encoding) = match preview_raster_shape(&descriptor.kind, role, asset_id) {
            Ok(shape) => shape,
            Err(error) => return Err(error),
        };
        if encoding != RasterEncoding::Rgba8 {
            return Err(unsupported(role, asset_id, encoding));
        }
        if self.find(asset_id).is_some() {
            return Ok(RasterNeed::Loaded);
        }
        let area: u64 = size.area();
        assert(size.width * size.height * 4 == 4 * size.pixel_count());
        match area.checked_mul(4) {
            None => Err(
                EditorPreviewError::SourceByteLengthOverflow { asset_id, width: size.width, height: size.height },
            ),
            Some(expected) => {
                if descriptor.byte_len != expected {
                    Err(
                        EditorPreviewError::DescriptorByteLengthMismatch {
                            asset_id,
                            width: size.width,
                            height: size.height,
                            expected,
                            actual: descriptor.byte_len,
                        },
                    )
                } else {
                    Ok(RasterNeed::File { size, byte_len: descriptor.byte_len })
                }
            },
        }
    }

    /// What the pictures take up with a file, or why it may not be read.
    pub open spec fn with_file(self, asset_id: AssetId, byte_len: u64, file_bytes: u64) -> Result<
        u64,
        EditorPreviewError,
    > {
        let required = self.retained_bytes + file_bytes;
        if file_bytes != byte_len {
            Err(
                EditorPreviewError::AssetFileLengthMismatch { asset_id, expected: byte_len, actual: file_bytes },
            )
        } else if required > u64::MAX {
            Err(EditorPreviewError::SourceMemorySizeOverflow { asset_id })
        } else if required > self.limit_bytes {
            Err(
                EditorPreviewError::SourceMemoryLimitExceeded {
                    asset_id,
                    required: required as u64,
                    limit: self.limit_bytes,
                },
            )
        } else {
            Ok(required as u64)
        }
    }

    fn count_file(&self, asset_id: AssetId, byte_len: u64, file_bytes: u64) -> (result: Result<u64, EditorPreviewError>)
        ensures
            result == self.with_file(asset_id, byte_len, file_bytes),
    {
        if file_bytes != byte_len {
            return Err(
                EditorPreviewError::AssetFileLengthMismatch { asset_id, expected: byte_len, actual: file_bytes },
            );
        }
        let required: u64 = match self.retained_bytes.checked_add(file_bytes) {
            Some(required) => required,
            None => return Err(EditorPreviewError::SourceMemorySizeOverflow { asset_id }),
        };
        if required > self.limit_bytes as u64 {
            return Err(
                EditorPreviewError::SourceMemoryLimitExceeded { asset_id, required, limit: self.limit_bytes },
            );
        }
        Ok(required)
    }

    /// Decides whether a file of the given length may be read for a picture.
    pub fn check_file(&self, asset_id: AssetId, size: PhysicalSize, byte_len: u64, file_bytes: u64) -> (result: Result<
        AdmittedRaster,
        EditorPreviewError,
    >)
        requires
            byte_len == 4 * size.pixel_count(),
            !in_memory(self.pictures@, asset_id),
        ensures
            match self.with_file(asset_id, byte_len, file_bytes) {
                Ok(required) => {
                    &&& result == Ok::<AdmittedRaster, EditorPreviewError>(AdmittedRaster { asset_id, size, required })
                    &&& self.allows(result->Ok_0)
                },
                Err(error) => result == Err::<AdmittedRaster, EditorPreviewError>(error),
            },
    {
        match self.count_file(asset_id, byte_len, file_bytes) {
            Ok(required) => Ok(AdmittedRaster { asset_id, size, required }),
            Err(error) => Err(error),
        }
    }

    fn find_snapshot(&self, asset_id: AssetId) -> (at: Option<usize>)
        ensures
            match at {
                Some(i) => i < self.snapshots@.len() && self.snapshots@[i as int].asset_id == asset_id,
                None => !snapshot_in_memory(self.snapshots@, asset_id),
            },
    {
        let mut at: usize = 0;
        let count: usize = self.snapshots.len();
        while at < count
            invariant
                at <= count,
                count == self.snapshots@.len(),
                forall|i: int| 0 <= i < at ==> (#[trigger] self.snapshots@[i]).asset_id != asset_id,
            decreases count - at,
        {
            if self.snapshots[at].asset_id == asset_id {
                return Some(at);
            }
            at = at + 1;
        }
        None
    }

    /// The clipped still picture of the given name.
    pub fn load_premultiplied_rgba8(&self, asset_id: AssetId) -> (surface: Option<&RgbaSurface>)
        ensures
            match surface {
                Some(found) => exists|i: int|
                    0 <= i < self.snapshots@.len() && (#[trigger] self.snapshots@[i]).asset_id == asset_id
                        && self.snapshots@[i].surface == *found,
                None => !snapshot_in_memory(self.snapshots@, asset_id),
            },
    {
        match self.find_snapshot(asset_id) {
            Some(at) => Some(&self.snapshots[at].surface),
            None => None,
        }
    }

    /// Works out what has to be read for a clipped still picture of a frame.
    pub fn begin_snapshot(&self, list: &Vec<NamedDescriptor>, frame_id: FrameId, snapshot: SnapshotUse) -> (result: Result<
        RasterNeed,
        EditorPreviewError,
    >)
        ensures
            result == snapshot_needed(list@, self.snapshots@, frame_id, snapshot),
            result matches Ok(RasterNeed::File { size, byte_len }) ==> byte_len == container_bytes(size)
                && !snapshot_in_memory(self.snapshots@, snapshot.asset_id),
    {
        let asset_id: AssetId = snapshot.asset_id;
        let at: usize = match find_named(list, asset_id) {
            Some(at) => at,
            None => return Err(EditorPreviewError::MissingAssetDescriptor { frame_id, asset_id }),
        };
        let descriptor = &list[at].descriptor;
        if descriptor.id != asset_id {
            return Err(EditorPreviewError::DescriptorIdMismatch { asset_id, descriptor_id: descriptor.id });
        }
        let typed: bool = match &descriptor.kind {
            AssetKind::PremultipliedSnapshot { size, format_version } => *size == snapshot.size && *format_version
                == PREMULTIPLIED_SNAPSHOT_FORMAT_VERSION,
            _ => false,
        };
        let expected: u128 = 4 * (snapshot.size.area() as u128) + PREMULTIPLIED_SNAPSHOT_HEADER_LEN as u128;
        if !typed || descriptor.byte_len as u128 != expected {
            return Err(EditorPreviewError::InvalidPremultipliedDescriptor { asset_id });
        }
        if self.find_snapshot(asset_id).is_some() {
            return Ok(RasterNeed::Loaded);
        }
        Ok(RasterNeed::File { size: snapshot.size, byte_len: descriptor.byte_len })
    }

    /// Decides whether a file of the given length may be read for a clipped still picture.
    pub fn check_snapshot(&self, asset_id: AssetId, size: PhysicalSize, byte_len: u64, file_bytes: u64) -> (result: Result<
        AdmittedSnapshot,
        EditorPreviewError,
    >)
        requires
            byte_len == container_bytes(size),
            !snapshot_in_memory(self.snapshots@, asset_id),
        ensures
            match self.with_file(asset_id, byte_len, file_bytes) {
                Ok(required) => {
                    &&& result == Ok::<AdmittedSnapshot, EditorPreviewError>(
                        AdmittedSnapshot { asset_id, size, required },
                    )
                    &&& self.allows_snapshot(result->Ok_0)
                },
                Err(error) => result == Err::<AdmittedSnapshot, EditorPreviewError>(error),
            },
    {
        match self.count_file(asset_id, byte_len, file_bytes) {
            Ok(required) => Ok(AdmittedSnapshot { asset_id, size, required }),
            Err(error) => Err(error),
        }
    }

    /// Takes in a clipped still picture. `opened` are the pixels in its container, or why it could
    /// not be opened.
    pub fn accept_snapshot(&mut self, snapshot: AdmittedSnapshot, opened: Result<Vec<u8>, String>) -> (result: Result<
        (),
        EditorPreviewError,
    >)
        requires
            old(self).wf(),
            old(self).allows_snapshot(snapshot),
        ensures
            final(self).wf(),
            final(self).limit_bytes == old(self).limit_bytes,
            final(self).pictures@ == old(self).pictures@,
            match opened {
                Err(source) => {
                    &&& result == Err::<(), EditorPreviewError>(
                        EditorPreviewError::InvalidPremultipliedSnapshot { asset_id: snapshot.asset_id, source },
                    )
                    &&& *final(self) == *old(self)
                },
                Ok(pixels) => if pixels@.len() == 4 * snapshot.size.pixel_count() {
                    &&& result is Ok
                    &&& final(self).snapshots@ == old(self).snapshots@.push(
                        LoadedSnapshot {
                            asset_id: snapshot.asset_id,
                            surface: RgbaSurface { size: snapshot.size, pixels },
                            encoded_bytes: container_bytes(snapshot.size) as u64,
                        },
                    )
                } else {
                    &&& result == Err::<(), EditorPreviewError>(
                        EditorPreviewError::InvalidSurface {
                            asset_id: snapshot.asset_id,
                            expected: (4 * snapshot.size.pixel_count()) as u64,
                            actual: pixels@.len() as u64,
                        },
                    )
                    &&& *final(self) == *old(self)
                },
            },
    {
        let pixels: Vec<u8> = match opened {
            Ok(pixels) => pixels,
            Err(source) => {
                return Err(
                    EditorPreviewError::InvalidPremultipliedSnapshot { asset_id: snapshot.asset_id, source },
                );
            },
        };
        let actual: u64 = pixels.len() as u64;
        let encoded_bytes: u64 = snapshot.required - self.retained_bytes;
        let expected: u64 = encoded_bytes - PREMULTIPLIED_SNAPSHOT_HEADER_LEN;
        match RgbaSurface::new(snapshot.size, pixels) {
            None => Err(EditorPreviewError::InvalidSurface { asset_id: snapshot.asset_id, expected, actual }),
            Some(surface) => {
                let ghost before = self.snapshots@;
                self.snapshots.push(LoadedSnapshot { asset_id: snapshot.asset_id, surface, encoded_bytes });
                self.retained_bytes = snapshot.required;
                assert(self.snapshots@.drop_last() =~= before);
                Ok(())
            },
        }
    }

    /// Takes in the pixels that were read for a picture, where they have its dimensions.
    pub fn accept(&mut self, raster: AdmittedRaster, pixels: Vec<u8>) -> (result: Result<(), EditorPreviewError>)
        requires
            old(self).wf(),
            old(self).allows(raster),
        ensures
            final(self).wf(),
            final(self).limit_bytes == old(self).limit_bytes,
            final(self).snapshots@ == old(self).snapshots@,
            match result {
                Ok(_) => {
                    &&& pixels@.len() == 4 * raster.size.pixel_count()
                    &&& final(self).pictures@ == old(self).pictures@.push(
                        LoadedPicture {
                            asset_id: raster.asset_id,
                            surface: RgbaSurface { size: raster.size, pixels },
                        },
                    )
                },
                Err(error) => {
                    &&& pixels@.len() != 4 * raster.size.pixel_count()
                    &&& error == (EditorPreviewError::InvalidSurface {
                        asset_id: raster.asset_id,
                        expected: (4 * raster.size.pixel_count()) as u64,
                        actual: pixels@.len() as u64,
                    })
                    &&& *final(self) == *old(self)
                },
            },
    {
        let actual: u64 = pixels.len() as u64;
        let expected: u64 = raster.required - self.retained_bytes;
        let ghost bytes = pixels;
        match RgbaSurface::new(raster.size, pixels) {
            None => Err(EditorPreviewError::InvalidSurface { asset_id: raster.asset_id, expected, actual }),
            Some(surface) => {
                let ghost before = self.pictures@;
                self.pictures.push(LoadedPicture { asset_id: raster.asset_id, surface });
                self.retained_bytes = raster.required;
                assert(self.pictures@.drop_last() =~= before);
                Ok(())
            },
        }
    }
}

/// What is needed to render one frame, worked out without reading a file.
#[derive(Debug)]
pub struct PreviewRenderPlan {
    /// The frame.
    pub frame_id: FrameId,
    /// Its picture.
    pub asset_id: AssetId,
    /// When it comes up.
    pub sample_time: TimeUs,
    /// The pictures that overlays paint on it.
    pub rasters: Vec<RasterUse>,
    /// The clipped still pictures it is rendered with.
    pub snapshots: Vec<SnapshotUse>,
    /// What is registered for all these pictures.
    pub descriptors: Vec<NamedDescriptor>,
}

/// The names of all pictures of a frame.
pub open spec fn picture_names(asset_id: AssetId, rasters: Seq<RasterUse>, snapshots: Seq<SnapshotUse>) -> Seq<AssetId> {
    seq![asset_id] + Seq::new(rasters.len(), |r: int| rasters[r].asset_id) + Seq::new(
        snapshots.len(),
        |s: int| snapshots[s].asset_id,
    )
}

/// Whether a list names exactly the given pictures, each once, with what is registered for them.
pub open spec fn lists(list: Seq<NamedDescriptor>, assets: Seq<DescriptorView>, names: Seq<AssetId>) -> bool {
    &&& forall|i: int|
        0 <= i < list.len() ==> {
            &&& project::asset_of(assets, (#[trigger] list[i]).name) == Some(list[i].descriptor@)
            &&& names.contains(list[i].name)
        }
    &&& forall|k: int| 0 <= k < names.len() ==> named(list, #[trigger] names[k]) is Some
    &&& forall|i: int, j: int|
        0 <= i < j < list.len() ==> (#[trigger] list[i]).name != (#[trigger] list[j]).name
}

/// The first overlay whose picture is not registered.
pub open spec fn first_missing(assets: Seq<DescriptorView>, rasters: Seq<RasterUse>, at: int) -> bool {
    &&& 0 <= at < rasters.len()
    &&& project::asset_of(assets, rasters[at].asset_id) is None
    &&& forall|r: int| 0 <= r < at ==> project::asset_of(assets, (#[trigger] rasters[r]).asset_id) is Some
}

/// The first clipped still picture that is not registered.
pub open spec fn first_unknown(assets: Seq<DescriptorView>, snapshots: Seq<SnapshotUse>, at: int) -> bool {
    &&& 0 <= at < snapshots.len()
    &&& project::asset_of(assets, snapshots[at].asset_id) is None
    &&& forall|s: int| 0 <= s < at ==> project::asset_of(assets, (#[trigger] snapshots[s]).asset_id) is Some
}

fn add_named(list: &mut Vec<NamedDescriptor>, name: AssetId, descriptor: AssetDescriptor)
    requires
        named(old(list)@, name) is None,
    ensures
        final(list)@ == old(list)@.push(NamedDescriptor { name, descriptor }),
        forall|other: AssetId|
            #[trigger] named(final(list)@, other) is Some <==> (named(old(list)@, other) is Some || other == name),
{
    let ghost before = list@;
    list.push(NamedDescriptor { name, descriptor });
    let ghost after = list@;
    assert forall|other: AssetId|
        #[trigger] named(after, other) is Some <==> (named(before, other) is Some || other == name) by {
        if named(before, other) is Some {
            let at = choose|at: int| named_at(before, other, at);
            assert(named_at(after, other, at));
        } else if other == name {
            assert forall|i: int| 0 <= i < before.len() implies (#[trigger] before[i]).name != name by {
                if before[i].name == name {
                    lemma_named(before, name, i);
                }
            }
            assert(named_at(after, name, before.len() as int));
        } else if named(after, other) is Some {
            let at = choose|at: int| named_at(after, other, at);
            assert(after[at].name == other);
            assert(at < before.len());
            assert forall|i: int| 0 <= i < at implies (#[trigger] before[i]).name != other by {
                assert(after[i].name != other);
            }
            assert(named_at(before, other, at));
        }
    }
}

proof fn lemma_named(list: Seq<NamedDescriptor>, name: AssetId, at: int)
    requires
        0 <= at < list.len(),
        list[at].name == name,
    ensures
        named(list, name) is Some,
    decreases at,
{
    if exists|i: int| 0 <= i < at && (#[trigger] list[i]).name == name {
        let earlier = choose|i: int| 0 <= i < at && (#[trigger] list[i]).name == name;
        lemma_named(list, name, earlier);
    } else {
        assert(named_at(list, name, at));
    }
}

/// Adds what is registered for a picture to a list that does not have it yet, and says whether
/// anything is.
fn list_asset(list: &mut Vec<NamedDescriptor>, assets: &Vec<AssetDescriptor>, name: AssetId) -> (known: bool)
    ensures
        known == (project::asset_of(value::views(assets@), name) is Some),
        known ==> forall|names: Seq<AssetId>| #[trigger]
            lists(old(list)@, value::views(assets@), names) ==> lists(
                final(list)@,
                value::views(assets@),
                names.push(name),
            ),
        !known ==> final(list)@ == old(list)@,
{
    let ghost all = value::views(assets@);
    let ghost before = list@;
    match find_asset(assets, name) {
        None => false,
        Some(at) => {
            if find_named(list, name).is_none() {
                add_named(list, name, assets[at].duplicate());
            }
            let ghost after = list@;
            proof {
                assert forall|names: Seq<AssetId>| #[trigger] lists(before, all, names) implies lists(
                    after,
                    all,
                    names.push(name),
                ) by {
                    let more = names.push(name);
                    assert(more[names.len() as int] == name);
                    assert forall|i: int| 0 <= i < after.len() implies {
                        &&& project::asset_of(all, (#[trigger] after[i]).name) == Some(after[i].descriptor@)
                        &&& more.contains(after[i].name)
                    } by {
                        if i < before.len() {
                            assert(before[i] == after[i]);
                            let k = choose|k: int| 0 <= k < names.len() && names[k] == before[i].name;
                            assert(more[k] == after[i].name);
                        }
                    }
                    assert forall|k: int| 0 <= k < more.len() implies named(after, #[trigger] more[k]) is Some by {
                        if k < names.len() {
                            assert(named(before, names[k]) is Some);
                        }
                    }
                }
            }
            true
        },
    }
}

impl PreviewRenderPlan {
    /// Works out what is needed to render a frame; `rasters` are the pictures that overlays paint
    /// on it, or why they could not be worked out.
    pub fn new(
        manifest: &ProjectManifest,
        clip: &FrameClip,
        sample_time: TimeUs,
        rasters: Result<Vec<RasterUse>, String>,
    ) -> (result: Result<PreviewRenderPlan, EditorPreviewError>)
        ensures
            ({
                let assets = manifest@.assets;
                let snapshots = snapshot_uses(clip.render_steps@);
                match rasters {
                    Err(source) => result == Err::<PreviewRenderPlan, EditorPreviewError>(
                        EditorPreviewError::OverlayPlan { frame_id: clip.id, time_us: sample_time.us, source },
                    ),
                    Ok(uses) => if project::asset_of(assets, clip.asset_id) is None {
                        result == Err::<PreviewRenderPlan, EditorPreviewError>(
                            EditorPreviewError::MissingAssetDescriptor {
                                frame_id: clip.id,
                                asset_id: clip.asset_id,
                            },
                        )
                    } else {
                        match result {
                            Ok(plan) => {
                                &&& plan.frame_id == clip.id
                                &&& plan.asset_id == clip.asset_id
                                &&& plan.sample_time == sample_time
                                &&& plan.rasters@ == uses@
                                &&& plan.snapshots@ == snapshots
                                &&& lists(
                                    plan.descriptors@,
                                    assets,
                                    picture_names(clip.asset_id, uses@, snapshots),
                                )
                            },
                            Err(error) => {
                                ||| exists|at: int| #[trigger]
                                    first_missing(assets, uses@, at) && error == (
                                    EditorPreviewError::MissingOverlayAssetDescriptor {
                                        overlay_id: uses@[at].overlay_id,
                                        asset_id: uses@[at].asset_id,
                                    })
                                ||| (forall|at: int| !#[trigger] first_missing(assets, uses@, at)) && exists|at: int| #[trigger]
                                    first_unknown(assets, snapshots, at) && error == (
                                    EditorPreviewError::MissingAssetDescriptor {
                                        frame_id: clip.id,
                                        asset_id: snapshots[at].asset_id,
                                    })
                            },
                        }
                    },
                }
            }),
    {
        let ghost assets = manifest@.assets;
        let ghost given = rasters;
        let uses: Vec<RasterUse> = match rasters {
            Ok(uses) => uses,
            Err(source) => {
                return Err(
                    EditorPreviewError::OverlayPlan { frame_id: clip.id, time_us: sample_time.get(), source },
                );
            },
        };
        let snapshots: Vec<SnapshotUse> = find_snapshots(&clip.render_steps);
        let mut descriptors: Vec<NamedDescriptor> = Vec::new();
        let ghost nothing = Seq::<AssetId>::empty();
        assert(lists(descriptors@, assets, nothing));
        if !list_asset(&mut descriptors, &manifest.assets, clip.asset_id) {
            return Err(EditorPreviewError::MissingAssetDescriptor { frame_id: clip.id, asset_id: clip.asset_id });
        }
        let ghost mut names = nothing.push(clip.asset_id);
        let mut next: usize = 0;
        let count: usize = uses.len();
        assert(names =~= picture_names(clip.asset_id, uses@.take(0), Seq::empty()));
        while next < count
            invariant
                next <= count,
                count == uses@.len(),
                assets == manifest@.assets,
                given == Ok::<Vec<RasterUse>, String>(uses),
                given == rasters,
                project::asset_of(assets, clip.asset_id) is Some,
                names == picture_names(clip.asset_id, uses@.take(next as int), Seq::empty()),
                lists(descriptors@, assets, names),
                forall|r: int| 0 <= r < next ==> project::asset_of(assets, (#[trigger] uses@[r]).asset_id) is Some,
            decreases count - next,
        {
            let raster: RasterUse = uses[next];
            if !list_asset(&mut descriptors, &manifest.assets, raster.asset_id) {
                assert(first_missing(manifest@.assets, rasters->Ok_0@, next as int));
                return Err(
                    EditorPreviewError::MissingOverlayAssetDescriptor {
                        overlay_id: raster.overlay_id,
                        asset_id: raster.asset_id,
                    },
                );
            }
            proof {
                names = names.push(raster.asset_id);
                assert(names =~= picture_names(clip.asset_id, uses@.take(next + 1), Seq::empty()));
            }
            next = next + 1;
        }
        assert(uses@.take(next as int) =~= uses@);
        let mut at: usize = 0;
        let total: usize = snapshots.len();
        assert(names =~= picture_names(clip.asset_id, uses@, snapshots@.take(0)));
        while at < total
            invariant
                at <= total,
                total == snapshots@.len(),
                snapshots@ == snapshot_uses(clip.render_steps@),
                assets == manifest@.assets,
                given == Ok::<Vec<RasterUse>, String>(uses),
                given == rasters,
                project::asset_of(assets, clip.asset_id) is Some,
                names == picture_names(clip.asset_id, uses@, snapshots@.take(at as int)),
                lists(descriptors@, assets, names),
                forall|r: int| 0 <= r < uses@.len() ==> project::asset_of(assets, (#[trigger] uses@[r]).asset_id) is Some,
                forall|s: int| 0 <= s < at ==> project::asset_of(assets, (#[trigger] snapshots@[s]).asset_id) is Some,
            decreases total - at,
        {
            let snapshot: SnapshotUse = snapshots[at];
            if !list_asset(&mut descriptors, &manifest.assets, snapshot.asset_id) {
                assert(first_unknown(manifest@.assets, snapshot_uses(clip.render_steps@), at as int));
                return Err(
                    EditorPreviewError::MissingAssetDescriptor {
                        frame_id: clip.id,
                        asset_id: snapshot.asset_id,
                    },
                );
            }
            proof {
                names = names.push(snapshot.asset_id);
                assert(names =~= picture_names(clip.asset_id, uses@, snapshots@.take(at + 1)));
            }
            at = at + 1;
        }
        assert(snapshots@.take(at as int) =~= snapshots@);
        Ok(
            PreviewRenderPlan {
                frame_id: clip.id,
                asset_id: clip.asset_id,
                sample_time,
                rasters: uses,
                snapshots,
                descriptors,
            },
        )
    }

    /// How many pictures are to be loaded, some of them perhaps more than once.
    pub fn load_count(&self) -> (count: usize)
        requires
            self.rasters@.len() < usize::MAX,
        ensures
            count == self.rasters@.len() + 1,
    {
        self.rasters.len() + 1
    }

    /// The picture to be loaded as the given one: that of the frame first, then those of overlays.
    pub fn load(&self, at: usize) -> (load: (AssetId, PreviewRasterRole))
        requires
            at <= self.rasters@.len(),
        ensures
            load == (if at == 0 {
                (self.asset_id, PreviewRasterRole::Frame { frame_id: self.frame_id })
            } else {
                (
                    self.rasters@[at - 1].asset_id,
                    PreviewRasterRole::Overlay { overlay_id: self.rasters@[at - 1].overlay_id },
                )
            }),
    {
        if at == 0 {
            (self.asset_id, PreviewRasterRole::Frame { frame_id: self.frame_id })
        } else {
            let raster: RasterUse = self.rasters[at - 1];
            (raster.asset_id, PreviewRasterRole::Overlay { overlay_id: raster.overlay_id })
        }
    }

    /// Goes on to the given picture unless rendering is to stop.
    pub fn poll<C: CancellationToken>(&self, at: usize, cancellation: &C) -> (result: Result<(), EditorPreviewError>)
        ensures
            !cancellation.may_cancel() ==> result is Ok,
            cancellation.must_cancel() ==> result is Err,
            result matches Err(error) ==> {
                if at == 0 {
                    error matches EditorPreviewError::OverlayPlan { frame_id, time_us, source } && frame_id
                        == self.frame_id && time_us == self.sample_time.us && source@ == "rendering was cancelled"@
                } else {
                    error matches EditorPreviewError::Render { frame_id, source } && frame_id == self.frame_id
                        && source@ == "rendering was cancelled"@
                }
            },
    {
        if !cancellation.is_cancelled() {
            return Ok(());
        }
        let source = "rendering was cancelled".to_owned();
        if at == 0 {
            Err(EditorPreviewError::OverlayPlan { frame_id: self.frame_id, time_us: self.sample_time.get(), source })
        } else {
            Err(EditorPreviewError::Render { frame_id: self.frame_id, source })
        }
    }
}

/// Finds the frame to render and when it comes up.
pub fn locate_preview_frame(manifest: &ProjectManifest, frame_id: FrameId) -> (result: Result<
    (usize, TimeUs),
    EditorPreviewError,
>)
    ensures
        ({
            let clips = manifest@.timeline.frames;
            match result {
                Ok((at, time)) => {
                    &&& motion_render::first_at(clips, frame_id, at as int)
                    &&& time.us == frames::clock(clips, at as int)
                },
                Err(error) => {
                    ||| !motion_render::has_frame(clips, frame_id) && error == (
                    EditorPreviewError::FrameNotFound { frame_id })
                    ||| error == (EditorPreviewError::FrameTimeOverflow { frame_id }) && exists|at: int|
                        motion_render::first_at(clips, frame_id, at) && #[trigger] frames::clock(clips, at)
                            > u64::MAX
                },
            }
        }),
{
    match find_frame(&manifest.timeline.frames, frame_id) {
        None => Err(EditorPreviewError::FrameNotFound { frame_id }),
        Some(at) => match start_of(&manifest.timeline.frames, at) {
            Some(us) => Ok((at, TimeUs::new(us))),
            None => Err(EditorPreviewError::FrameTimeOverflow { frame_id }),
        },
    }
}

/// A preview uses the snapshot of each step that lays one over the frame, step by step.
pub proof fn law_snapshots_are_used_step_by_step(steps: Seq<RenderStep>, step: RenderStep)
    ensures
        snapshot_uses(steps.push(step)) == (match step {
            RenderStep::CinemagraphOverlay { snapshot_asset, snapshot_size } => snapshot_uses(steps).push(
                SnapshotUse { asset_id: snapshot_asset, size: snapshot_size },
            ),
            _ => snapshot_uses(steps),
        }),
        snapshot_uses(Seq::empty()).len() == 0,
{
    assert(steps.push(step).drop_last() =~= steps);
}

/// Loaded pictures take up their pixels, and loaded snapshots their containers, one after another.
pub proof fn law_loaded_bytes_add_up(
    pictures: Seq<LoadedPicture>,
    picture: LoadedPicture,
    snapshots: Seq<LoadedSnapshot>,
    snapshot: LoadedSnapshot,
)
    ensures
        taken_up(pictures.push(picture)) == taken_up(pictures) + picture.surface.pixels@.len(),
        taken_up(Seq::empty()) == 0,
        containers(snapshots.push(snapshot)) == containers(snapshots) + snapshot.encoded_bytes,
        containers(Seq::empty()) == 0,
{
    assert(pictures.push(picture).drop_last() =~= pictures);
    assert(snapshots.push(snapshot).drop_last() =~= snapshots);
}

/// A name stands for the first descriptor that is listed under it, and for none where none is.
pub proof fn law_a_name_stands_for_the_first_descriptor(list: Seq<NamedDescriptor>, name: AssetId, at: int)
    ensures
        0 <= at < list.len() && list[at].name == name && (forall|i: int|
            0 <= i < at ==> (#[trigger] list[i]).name != name) ==> named(list, name) == Some(list[at].descriptor),
        (forall|i: int| 0 <= i < list.len() ==> (#[trigger] list[i]).name != name) ==> named(list, name) is None,
{
    if 0 <= at < list.len() && list[at].name == name && (forall|i: int|
        0 <= i < at ==> (#[trigger] list[i]).name != name) {
        assert(named_at(list, name, at));
        let found = choose|k: int| named_at(list, name, k);
        assert(found == at);
    }
}

/// A picture is read from its file exactly where it is listed under its own identity as a plain picture,
/// is not in memory yet, and has the length of its pixels; it is not read again where it is in memory.
pub proof fn law_a_picture_is_read_once(
    list: Seq<NamedDescriptor>,
    pictures: Seq<LoadedPicture>,
    asset_id: AssetId,
    role: PreviewRasterRole,
    result: Result<RasterNeed, EditorPreviewError>,
)
    requires
        needed(list, pictures, asset_id, role, result),
    ensures
        ({
            let listed = named(list, asset_id);
            let shape = listed->0.kind@.raster();
            let known = listed is Some && listed->0.id == asset_id && (shape matches Some((_, encoding)) && encoding
                == RasterEncoding::Rgba8);
            let pixels = match shape {
                Some((size, _)) => 4 * (size.width * size.height),
                None => 0,
            };
            let held = exists|i: int| 0 <= i < pictures.len() && (#[trigger] pictures[i]).asset_id == asset_id;
            &&& result == Ok::<RasterNeed, EditorPreviewError>(RasterNeed::Loaded) <==> known && held
            &&& result matches Ok(RasterNeed::File { size, byte_len }) ==> known && !held && shape == Some(
                (size, RasterEncoding::Rgba8),
            ) && byte_len == pixels && listed->0.byte_len == pixels
            &&& known && !held && listed->0.byte_len == pixels ==> result is Ok
        }),
{
}

/// A picture that cannot be used is told by its role: of a frame by the frame, of an overlay by the
/// overlay, always with the picture itself.
pub proof fn law_missing_pictures_are_told_by_role(
    asset_id: AssetId,
    frame_id: FrameId,
    overlay_id: OverlayId,
    encoding: RasterEncoding,
)
    ensures
        unregistered(PreviewRasterRole::Frame { frame_id }, asset_id) == (EditorPreviewError::MissingAssetDescriptor {
            frame_id,
            asset_id,
        }),
        unregistered(PreviewRasterRole::Overlay { overlay_id }, asset_id) == (
        EditorPreviewError::MissingOverlayAssetDescriptor { overlay_id, asset_id }),
        wrong_encoding(PreviewRasterRole::Frame { frame_id }, asset_id, encoding) == (
        EditorPreviewError::UnsupportedAssetEncoding { asset_id, encoding }),
        wrong_encoding(PreviewRasterRole::Overlay { overlay_id }, asset_id, encoding) == (
        EditorPreviewError::UnsupportedOverlayAssetEncoding { overlay_id, asset_id, encoding }),
{
}

/// A snapshot is read from its file exactly where it is listed under its own identity as a snapshot of the
/// used size and the known version, with four bytes for each pixel and seventeen more, and is not in memory
/// yet.
pub proof fn law_a_snapshot_is_read_once(
    list: Seq<NamedDescriptor>,
    snapshots: Seq<LoadedSnapshot>,
    frame_id: FrameId,
    used: SnapshotUse,
)
    ensures
        ({
            let listed = named(list, used.asset_id);
            let bytes = 4 * (used.size.width * used.size.height) + 17;
            let known = listed is Some && listed->0.id == used.asset_id && listed->0.kind@ == (
            project::KindView::PremultipliedSnapshot { size: used.size, format_version: 1 }) && listed->0.byte_len
                == bytes;
            let held = exists|i: int| 0 <= i < snapshots.len() && (#[trigger] snapshots[i]).asset_id == used.asset_id;
            let result = snapshot_needed(list, snapshots, frame_id, used);
            &&& result is Ok <==> known
            &&& result == Ok::<RasterNeed, EditorPreviewError>(RasterNeed::Loaded) <==> known && held
            &&& result matches Ok(RasterNeed::File { size, byte_len }) ==> !held && size == used.size && byte_len
                == bytes
            &&& listed is None ==> result == Err::<RasterNeed, EditorPreviewError>(
                EditorPreviewError::MissingAssetDescriptor { frame_id, asset_id: used.asset_id },
            )
        }),
{
}

/// A file is admitted exactly where it is as long as it is described and fits, with what is loaded, within
/// the limit; then what is needed is both together.
pub proof fn law_a_file_is_admitted_within_the_limit(
    assets: PreviewAssets,
    asset_id: AssetId,
    byte_len: u64,
    file_bytes: u64,
)
    ensures
        assets.with_file(asset_id, byte_len, file_bytes) is Ok <==> file_bytes == byte_len && assets.retained_bytes
            + file_bytes <= u64::MAX && assets.retained_bytes + file_bytes <= assets.limit_bytes,
        assets.with_file(asset_id, byte_len, file_bytes) matches Ok(required) ==> required == assets.retained_bytes
            + file_bytes,
        file_bytes != byte_len ==> assets.with_file(asset_id, byte_len, file_bytes) == Err::<u64, EditorPreviewError>(
            EditorPreviewError::AssetFileLengthMismatch { asset_id, expected: byte_len, actual: file_bytes },
        ),
{
}

/// The pictures of a frame are named in order: its own, those of its overlays and those of its snapshots.
pub proof fn law_pictures_are_named_in_order(
    asset_id: AssetId,
    rasters: Seq<RasterUse>,
    snapshots: Seq<SnapshotUse>,
    r: int,
    s: int,
)
    ensures
        ({
            let names = picture_names(asset_id, rasters, snapshots);
            &&& names.len() == 1 + rasters.len() + snapshots.len()
            &&& names[0] == asset_id
            &&& 0 <= r < rasters.len() ==> names[1 + r] == rasters[r].asset_id
            &&& 0 <= s < snapshots.len() ==> names[1 + rasters.len() + s] == snapshots[s].asset_id
        }),
{
}

/// A list names every picture that is asked for, each once, as the project describes it, and nothing else.
pub proof fn law_a_list_names_what_is_asked_for(
    list: Seq<NamedDescriptor>,
    assets: Seq<DescriptorView>,
    names: Seq<AssetId>,
    name: AssetId,
)
    requires
        lists(list, assets, names),
    ensures
        (exists|i: int| 0 <= i < list.len() && (#[trigger] list[i]).name == name) <==> names.contains(name),
        forall|i: int|
            0 <= i < list.len() && (#[trigger] list[i]).name == name ==> project::asset_of(assets, name) == Some(
                list[i].descriptor@,
            ),
{
    if names.contains(name) {
        let k = choose|k: int| 0 <= k < names.len() && names[k] == name;
        assert(named(list, names[k]) is Some);
        let at = choose|at: int| named_at(list, name, at);
        assert(list[at].name == name);
    }
}

/// What is told is the first picture that the project does not know.
pub proof fn law_the_first_unknown_picture_is_told(
    assets: Seq<DescriptorView>,
    rasters: Seq<RasterUse>,
    snapshots: Seq<SnapshotUse>,
    at: int,
    other: int,
)
    ensures
        first_missing(assets, rasters, at) ==> 0 <= at < rasters.len() && project::asset_of(assets, rasters[at].asset_id)
            is None,
        first_missing(assets, rasters, at) && 0 <= other < at ==> project::asset_of(assets, rasters[other].asset_id)
            is Some,
        first_unknown(assets, snapshots, at) ==> 0 <= at < snapshots.len() && project::asset_of(
            assets,
            snapshots[at].asset_id,
        ) is None,
        first_unknown(assets, snapshots, at) && 0 <= other < at ==> project::asset_of(assets, snapshots[other].asset_id)
            is Some,
{
}

/// What is loaded never takes more than the limit, holds each picture and each snapshot once, and each in
/// full; what is admitted still fits and is not loaded yet.
pub proof fn law_what_is_loaded_stays_within_the_limit(
    assets: PreviewAssets,
    raster: AdmittedRaster,
    snapshot: AdmittedSnapshot,
    one: int,
    other: int,
)
    requires
        assets.wf(),
    ensures
        taken_up(assets.pictures@) + containers(assets.snapshots@) <= assets.limit_bytes,
        0 <= one < other < assets.pictures@.len() ==> assets.pictures@[one].asset_id
            != assets.pictures@[other].asset_id,
        0 <= one < other < assets.snapshots@.len() ==> assets.snapshots@[one].asset_id
            != assets.snapshots@[other].asset_id,
        0 <= one < assets.pictures@.len() ==> assets.pictures@[one].surface.pixels@.len() == 4 * (
        assets.pictures@[one].surface.size.width * assets.pictures@[one].surface.size.height),
        assets.allows(raster) ==> taken_up(assets.pictures@) + containers(assets.snapshots@) + 4 * (raster.size.width
            * raster.size.height) <= assets.limit_bytes,
        assets.allows(raster) && 0 <= one < assets.pictures@.len() ==> assets.pictures@[one].asset_id
            != raster.asset_id,
        assets.allows_snapshot(snapshot) ==> taken_up(assets.pictures@) + containers(assets.snapshots@) + 4 * (
        snapshot.size.width * snapshot.size.height) + 17 <= assets.limit_bytes,
        assets.allows_snapshot(snapshot) && 0 <= one < assets.snapshots@.len() ==> assets.snapshots@[one].asset_id
            != snapshot.asset_id,
{
}

} // verus!
