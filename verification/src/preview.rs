//! Sizes and pixels of previews.
use crate::geometry::PhysicalSize;
use crate::ids::{AssetId, FrameId, OverlayId, TransitionId};
use crate::memory::room_for;
use crate::project::{AssetKind, RasterEncoding};
use crate::surface::RgbaSurface;
use vstd::arithmetic::div_mod;
use vstd::arithmetic::mul;
use vstd::prelude::*;

verus! {

/// Why there is no preview.
#[derive(Debug)]
pub enum EditorPreviewError {
    /// The transition is gone.
    TransitionNotFound {
        /// The transition.
        transition_id: TransitionId,
    },
    /// A picture of a transition could not be rendered.
    TransitionRender {
        /// The transition.
        transition_id: TransitionId,
        /// Which of its pictures.
        step: u16,
        /// Why.
        source: String,
    },
    /// The space for the preview is empty.
    InvalidPreviewBounds {
        /// Its width.
        width: u32,
        /// Its height.
        height: u32,
    },
    /// The frame is gone.
    FrameNotFound {
        /// The frame.
        frame_id: FrameId,
    },
    /// The time before the frame is too long.
    FrameTimeOverflow {
        /// The frame.
        frame_id: FrameId,
    },
    /// The picture of a frame is not registered.
    MissingAssetDescriptor {
        /// The frame.
        frame_id: FrameId,
        /// The picture.
        asset_id: AssetId,
    },
    /// The picture of an overlay is not registered.
    MissingOverlayAssetDescriptor {
        /// The overlay.
        overlay_id: OverlayId,
        /// The picture.
        asset_id: AssetId,
    },
    /// A picture is registered under the name of another.
    DescriptorIdMismatch {
        /// The name it is asked for by.
        asset_id: AssetId,
        /// The name it has.
        descriptor_id: AssetId,
    },
    /// What is registered for a frame is no picture.
    InvalidAssetKind {
        /// The blob.
        asset_id: AssetId,
        /// What it is.
        kind: AssetKind,
    },
    /// What is registered for an overlay is no picture.
    InvalidOverlayAssetKind {
        /// The overlay.
        overlay_id: OverlayId,
        /// The blob.
        asset_id: AssetId,
        /// What it is.
        kind: AssetKind,
    },
    /// The picture of a frame is written in another way than as plain pixels.
    UnsupportedAssetEncoding {
        /// The picture.
        asset_id: AssetId,
        /// How it is written.
        encoding: RasterEncoding,
    },
    /// The picture of an overlay is written in another way than as plain pixels.
    UnsupportedOverlayAssetEncoding {
        /// The overlay.
        overlay_id: OverlayId,
        /// The picture.
        asset_id: AssetId,
        /// How it is written.
        encoding: RasterEncoding,
    },
    /// It could not be worked out what lies over a frame.
    OverlayPlan {
        /// The frame.
        frame_id: FrameId,
        /// When it comes up.
        time_us: u64,
        /// Why.
        source: String,
    },
    /// The bytes of a picture cannot be counted.
    SourceByteLengthOverflow {
        /// The picture.
        asset_id: AssetId,
        /// Its width.
        width: u32,
        /// Its height.
        height: u32,
    },
    /// A picture is registered with another length than its dimensions have.
    DescriptorByteLengthMismatch {
        /// The picture.
        asset_id: AssetId,
        /// Its width.
        width: u32,
        /// Its height.
        height: u32,
        /// The length of its dimensions.
        expected: u64,
        /// The registered length.
        actual: u64,
    },
    /// The file of a picture could not be looked at.
    AssetMetadata {
        /// The picture.
        asset_id: AssetId,
        /// The file.
        path: String,
        /// Why.
        source: String,
    },
    /// The file of a picture has another length than is registered.
    AssetFileLengthMismatch {
        /// The picture.
        asset_id: AssetId,
        /// The registered length.
        expected: u64,
        /// The length of the file.
        actual: u64,
    },
    /// The pictures of a preview would take up too much.
    SourceMemoryLimitExceeded {
        /// The picture that is too much.
        asset_id: AssetId,
        /// What they would take up.
        required: u64,
        /// What they can take up.
        limit: usize,
    },
    /// What the pictures of a preview take up cannot be counted.
    SourceMemorySizeOverflow {
        /// The picture that is too much.
        asset_id: AssetId,
    },
    /// The file of a picture could not be read.
    AssetRead {
        /// The picture.
        asset_id: AssetId,
        /// Why.
        source: String,
    },
    /// The bytes of a picture do not have its dimensions.
    InvalidSurface {
        /// The picture.
        asset_id: AssetId,
        /// How many bytes it needs.
        expected: u64,
        /// How many were read.
        actual: u64,
    },
    /// What is registered for a clipped still picture is not a container of it.
    InvalidPremultipliedDescriptor {
        /// The blob.
        asset_id: AssetId,
    },
    /// The container of a clipped still picture could not be opened.
    InvalidPremultipliedSnapshot {
        /// The picture.
        asset_id: AssetId,
        /// Why.
        source: String,
    },
    /// The frame could not be rendered.
    Render {
        /// The frame.
        frame_id: FrameId,
        /// Why.
        source: String,
    },
    /// The bytes of the preview cannot be counted.
    PreviewByteLengthOverflow {
        /// Its width.
        width: u32,
        /// Its height.
        height: u32,
    },
    /// The rendered picture is empty.
    InvalidRenderedSize {
        /// Its width.
        width: u32,
        /// Its height.
        height: u32,
    },
    /// The picture to resize does not have its dimensions.
    ResizeSourceLengthMismatch {
        /// How many bytes it needs.
        expected: usize,
        /// How many there are.
        actual: usize,
    },
    /// The preview would take up too much.
    PreviewMemoryLimitExceeded {
        /// What it would take up.
        required: usize,
        /// What it can take up.
        limit: usize,
    },
    /// There is no memory for the preview.
    PreviewAllocationFailed {
        /// What it would take up.
        requested: usize,
    },
}

/// Accepts a space for the preview that is not empty.
pub fn validate_preview_bounds(max_size: [u32; 2]) -> (result: Result<(), EditorPreviewError>)
    ensures
        match result {
            Ok(_) => max_size@[0] > 0 && max_size@[1] > 0,
            Err(error) => (max_size@[0] == 0 || max_size@[1] == 0) && error == (
            EditorPreviewError::InvalidPreviewBounds { width: max_size@[0], height: max_size@[1] }),
        },
{
    if max_size[0] == 0 || max_size[1] == 0 {
        Err(EditorPreviewError::InvalidPreviewBounds { width: max_size[0], height: max_size[1] })
    } else {
        Ok(())
    }
}

/// A side scaled with the other, rounded, and at least one.
pub open spec fn scaled(side: int, numerator: int, denominator: int) -> int {
    let rounded = (side * numerator + denominator / 2) / denominator;
    if rounded < 1 {
        1
    } else {
        rounded
    }
}

/// The dimensions of the preview of a picture: its own where they fit, or else the largest of the
/// same proportions that do, rounded.
pub open spec fn fitted(source: Seq<u32>, max_size: Seq<u32>) -> (int, int) {
    if source[0] <= max_size[0] && source[1] <= max_size[1] {
        (source[0] as int, source[1] as int)
    } else if max_size[0] * source[1] <= max_size[1] * source[0] {
        (max_size[0] as int, scaled(source[1] as int, max_size[0] as int, source[0] as int))
    } else {
        (scaled(source[0] as int, max_size[1] as int, source[1] as int), max_size[1] as int)
    }
}

proof fn lemma_scaled(side: int, numerator: int, denominator: int, bound: int)
    requires
        0 < side,
        0 < numerator,
        0 < denominator,
        0 < bound,
        numerator * side <= bound * denominator,
    ensures
        1 <= scaled(side, numerator, denominator) <= bound,
        0 <= (side * numerator + denominator / 2) / denominator <= bound,
{
    let value = side * numerator + denominator / 2;
    assert(side * numerator == numerator * side) by (nonlinear_arith);
    assert(value < (bound + 1) * denominator) by (nonlinear_arith)
        requires
            value == side * numerator + denominator / 2,
            side * numerator <= bound * denominator,
            denominator > 0,
    ;
    assert(0 <= value) by (nonlinear_arith)
        requires
            value == side * numerator + denominator / 2,
            0 < side,
            0 < numerator,
            0 < denominator,
    ;
    div_mod::lemma_div_pos_is_pos(value, denominator);
    div_mod::lemma_multiply_divide_lt(value, denominator, bound + 1);
}

fn scale_side(side: u32, numerator: u32, denominator: u32, bound: u32) -> (result: u32)
    requires
        0 < side,
        0 < numerator,
        0 < denominator,
        0 < bound,
        numerator * side <= bound * denominator,
    ensures
        result == scaled(side as int, numerator as int, denominator as int),
        1 <= result <= bound,
{
    proof {
        lemma_scaled(side as int, numerator as int, denominator as int, bound as int);
        assert(side * numerator <= 0xffff_ffff * 0xffff_ffff) by (nonlinear_arith)
            requires
                side <= 0xffff_ffff,
                numerator <= 0xffff_ffff,
        ;
    }
    let rounded: u64 = ((side as u64) * (numerator as u64) + (denominator as u64) / 2) / (denominator as u64);
    if rounded < 1 {
        1
    } else {
        rounded as u32
    }
}

/// Works out the dimensions of the preview of a picture.
pub fn fit_preview_dimensions(source: [u32; 2], max_size: [u32; 2]) -> (result: Result<[u32; 2], EditorPreviewError>)
    ensures
        match result {
            Ok(size) => {
                &&& max_size@[0] > 0 && max_size@[1] > 0 && source@[0] > 0 && source@[1] > 0
                &&& (size@[0] as int, size@[1] as int) == fitted(source@, max_size@)
                &&& 0 < size@[0] <= max_size@[0]
                &&& 0 < size@[1] <= max_size@[1]
            },
            Err(error) => if max_size@[0] == 0 || max_size@[1] == 0 {
                error == (EditorPreviewError::InvalidPreviewBounds { width: max_size@[0], height: max_size@[1] })
            } else {
                (source@[0] == 0 || source@[1] == 0) && error == (EditorPreviewError::InvalidRenderedSize {
                    width: source@[0],
                    height: source@[1],
                })
            },
        },
{
    match validate_preview_bounds(max_size) {
        Ok(_) => {},
        Err(error) => return Err(error),
    }
    if source[0] == 0 || source[1] == 0 {
        return Err(EditorPreviewError::InvalidRenderedSize { width: source[0], height: source[1] });
    }
    if source[0] <= max_size[0] && source[1] <= max_size[1] {
        return Ok(source);
    }
    proof {
        assert(max_size@[0] * source@[1] <= 0xffff_ffff * 0xffff_ffff) by (nonlinear_arith)
            requires
                max_size@[0] <= 0xffff_ffff,
                source@[1] <= 0xffff_ffff,
        ;
        assert(max_size@[1] * source@[0] <= 0xffff_ffff * 0xffff_ffff) by (nonlinear_arith)
            requires
                max_size@[1] <= 0xffff_ffff,
                source@[0] <= 0xffff_ffff,
        ;
    }
    let width_limited: bool = (max_size[0] as u64) * (source[1] as u64) <= (max_size[1] as u64) * (source[0] as u64);
    if width_limited {
        let height: u32 = scale_side(source[1], max_size[0], source[0], max_size[1]);
        Ok([max_size[0], height])
    } else {
        let width: u32 = scale_side(source[0], max_size[1], source[1], max_size[0]);
        Ok([width, max_size[1]])
    }
}

/// How many bytes a picture of the given dimensions has.
pub open spec fn byte_len(size: Seq<u32>) -> int {
    size[0] * size[1] * 4
}

/// Counts the bytes of a picture.
pub fn checked_rgba_byte_len(size: [u32; 2]) -> (result: Result<usize, EditorPreviewError>)
    ensures
        match result {
            Ok(bytes) => bytes == byte_len(size@),
            Err(error) => byte_len(size@) > usize::MAX && error == (EditorPreviewError::PreviewByteLengthOverflow {
                width: size@[0],
                height: size@[1],
            }),
        },
{
    proof {
        assert(size@[0] * size@[1] <= 0xffff_ffff * 0xffff_ffff) by (nonlinear_arith)
            requires
                size@[0] <= 0xffff_ffff,
                size@[1] <= 0xffff_ffff,
        ;
    }
    let bytes: u128 = (size[0] as u128) * (size[1] as u128) * 4;
    if bytes > usize::MAX as u128 {
        Err(EditorPreviewError::PreviewByteLengthOverflow { width: size[0], height: size[1] })
    } else {
        Ok(bytes as usize)
    }
}

/// The pixel of a picture that stands for a pixel of its preview, both counted row by row.
pub open spec fn sampled(pixel: int, source: Seq<u32>, target: Seq<u32>) -> int {
    let x = pixel % (target[0] as int);
    let y = pixel / (target[0] as int);
    (y * source[1] / (target[1] as int)) * source[0] + x * source[0] / (target[0] as int)
}

/// A picture resized by taking for each pixel the one that lies nearest before it.
pub open spec fn nearest(pixels: Seq<u8>, source: Seq<u32>, target: Seq<u32>) -> Seq<u8> {
    Seq::new(
        (target[0] * target[1] * 4) as nat,
        |i: int| pixels[sampled(i / 4, source, target) * 4 + i % 4],
    )
}

proof fn lemma_sample_in_range(at: int, count: int, source: int)
    requires
        0 <= at < count,
        0 < source,
    ensures
        0 <= at * source / count < source,
        0 <= at * source,
{
    assert(at * source < count * source && 0 <= at * source) by (nonlinear_arith)
        requires
            0 <= at < count,
            0 < source,
    ;
    div_mod::lemma_div_pos_is_pos(at * source, count);
    div_mod::lemma_multiply_divide_lt(at * source, count, source);
}

proof fn lemma_offset(x: int, y: int, width: int, height: int)
    requires
        0 <= x < width,
        0 <= y < height,
    ensures
        0 <= y * width + x < width * height,
{
    assert(0 <= y * width + x < width * height) by (nonlinear_arith)
        requires
            0 <= x < width,
            0 <= y < height,
    ;
}

proof fn lemma_row_and_column(x: int, y: int, width: int)
    requires
        0 <= x < width,
        0 <= y,
    ensures
        (y * width + x) / width == y,
        (y * width + x) % width == x,
{
    div_mod::lemma_fundamental_div_mod_converse(y * width + x, width, y, x);
}

fn sample_row(pixels: &[u8], source: [u32; 2], size: [u32; 2], row: u32, target: &mut Vec<u8>)
    requires
        source@[0] > 0,
        source@[1] > 0,
        size@[0] > 0,
        row < size@[1],
        pixels@.len() == byte_len(source@),
        old(target)@ == nearest(pixels@, source@, size@).take(row * size@[0] * 4),
    ensures
        final(target)@ == nearest(pixels@, source@, size@).take((row + 1) * size@[0] * 4),
{
    let ghost whole = nearest(pixels@, source@, size@);
    let width: u32 = size[0];
    let height: u32 = size[1];
    let length: usize = pixels.len();
    proof {
        lemma_sample_in_range(row as int, height as int, source@[1] as int);
        assert(row * source@[1] <= 0xffff_ffff * 0xffff_ffff) by (nonlinear_arith)
            requires
                row <= 0xffff_ffff,
                source@[1] <= 0xffff_ffff,
        ;
    }
    let source_y: u64 = (row as u64) * (source[1] as u64) / (height as u64);
    let mut x: u32 = 0;
    while x < width
        invariant
            x <= width,
            width == size@[0],
            height == size@[1],
            width > 0,
            row < height,
            source@[0] > 0,
            source@[1] > 0,
            source_y == row * source@[1] / (height as int),
            source_y < source@[1],
            pixels@.len() == byte_len(source@),
            length == pixels@.len(),
            whole == nearest(pixels@, source@, size@),
            target@ == whole.take((row * width + x) * 4),
        decreases width - x,
    {
        let ghost pixel = row * width + x;
        proof {
            lemma_sample_in_range(x as int, width as int, source@[0] as int);
            assert(x * source@[0] <= 0xffff_ffff * 0xffff_ffff) by (nonlinear_arith)
                requires
                    x <= 0xffff_ffff,
                    source@[0] <= 0xffff_ffff,
            ;
        }
        let source_x: u64 = (x as u64) * (source[0] as u64) / (width as u64);
        proof {
            lemma_row_and_column(x as int, row as int, width as int);
            lemma_offset(x as int, row as int, width as int, height as int);
            lemma_offset(source_x as int, source_y as int, source@[0] as int, source@[1] as int);
            assert(sampled(pixel, source@, size@) == source_y * source@[0] + source_x);
            mul::lemma_mul_nonnegative(source_y as int, source@[0] as int);
        }
        let start: usize = (source_y as usize) * (source[0] as usize) + (source_x as usize);
        let offset: usize = start * 4;
        let ghost before = target@;
        target.push(pixels[offset]);
        target.push(pixels[offset + 1]);
        target.push(pixels[offset + 2]);
        target.push(pixels[offset + 3]);
        proof {
            assert(whole.len() == width * height * 4);
            assert(target@ =~= whole.take((pixel + 1) * 4)) by {
                assert(target@.len() == (pixel + 1) * 4);
                assert forall|i: int| 0 <= i < target@.len() implies target@[i] == whole[i] by {
                    if i < pixel * 4 {
                        assert(target@[i] == before[i]);
                    } else {
                        let c = i - pixel * 4;
                        assert(i / 4 == pixel && i % 4 == c);
                        assert(whole[i] == pixels@[offset + c]);
                    }
                }
            }
        }
        x = x + 1;
    }
    proof {
        assert((row * width + width) * 4 == (row + 1) * width * 4) by (nonlinear_arith);
    }
}

/// Takes for each pixel of the preview the one of the picture that lies nearest before it.
pub fn sample_nearest(pixels: &[u8], source: [u32; 2], size: [u32; 2], into: Vec<u8>) -> (target: Vec<u8>)
    requires
        source@[0] > 0,
        source@[1] > 0,
        size@[0] > 0,
        pixels@.len() == byte_len(source@),
        into@.len() == 0,
    ensures
        target@ == nearest(pixels@, source@, size@),
{
    let mut target = into;
    let height: u32 = size[1];
    let mut row: u32 = 0;
    assert(target@ =~= nearest(pixels@, source@, size@).take(0));
    while row < height
        invariant
            row <= height,
            height == size@[1],
            source@[0] > 0,
            source@[1] > 0,
            size@[0] > 0,
            pixels@.len() == byte_len(source@),
            target@ == nearest(pixels@, source@, size@).take(row * size@[0] * 4),
        decreases height - row,
    {
        sample_row(pixels, source, size, row, &mut target);
        row = row + 1;
    }
    proof {
        mul::lemma_mul_is_commutative(height as int, size@[0] as int);
        assert(target@ =~= nearest(pixels@, source@, size@));
    }
    target
}

/// Why a picture cannot be resized, whatever the memory.
pub open spec fn resize_refusal(length: int, source: Seq<u32>, target: Seq<u32>) -> Option<EditorPreviewError> {
    if target[0] == 0 || target[1] == 0 {
        Some(EditorPreviewError::InvalidPreviewBounds { width: target[0], height: target[1] })
    } else if source[0] == 0 || source[1] == 0 {
        Some(EditorPreviewError::InvalidRenderedSize { width: source[0], height: source[1] })
    } else if byte_len(source) > usize::MAX {
        Some(EditorPreviewError::PreviewByteLengthOverflow { width: source[0], height: source[1] })
    } else if length != byte_len(source) {
        Some(
            EditorPreviewError::ResizeSourceLengthMismatch {
                expected: byte_len(source) as usize,
                actual: length as usize,
            },
        )
    } else if byte_len(target) > usize::MAX {
        Some(EditorPreviewError::PreviewByteLengthOverflow { width: target[0], height: target[1] })
    } else {
        None
    }
}

/// Resizes a picture by taking for each pixel the one that lies nearest before it.
///
/// Where nothing else forbids it, only a lack of memory can.
pub fn resize_nearest_rgba(source: &[u8], source_size: [u32; 2], target_size: [u32; 2]) -> (result: Result<
    Vec<u8>,
    EditorPreviewError,
>)
    ensures
        match resize_refusal(source@.len() as int, source_size@, target_size@) {
            Some(error) => result == Err::<Vec<u8>, EditorPreviewError>(error),
            None => match result {
                Ok(target) => target@ == nearest(source@, source_size@, target_size@),
                Err(error) => error == (EditorPreviewError::PreviewAllocationFailed {
                    requested: byte_len(target_size@) as usize,
                }),
            },
        },
{
    match validate_preview_bounds(target_size) {
        Ok(_) => {},
        Err(error) => return Err(error),
    }
    if source_size[0] == 0 || source_size[1] == 0 {
        return Err(EditorPreviewError::InvalidRenderedSize { width: source_size[0], height: source_size[1] });
    }
    let expected: usize = match checked_rgba_byte_len(source_size) {
        Ok(bytes) => bytes,
        Err(error) => return Err(error),
    };
    if source.len() != expected {
        return Err(EditorPreviewError::ResizeSourceLengthMismatch { expected, actual: source.len() });
    }
    let requested: usize = match checked_rgba_byte_len(target_size) {
        Ok(bytes) => bytes,
        Err(error) => return Err(error),
    };
    match room_for(requested) {
        Some(target) => Ok(sample_nearest(source, source_size, target_size, target)),
        None => Err(EditorPreviewError::PreviewAllocationFailed { requested }),
    }
}

/// A preview before it is shown.
#[derive(Debug)]
pub struct PreparedPreview {
    /// The dimensions of the rendered picture.
    pub rendered_size: [u32; 2],
    /// The dimensions of the preview.
    pub preview_size: [u32; 2],
    /// Its pixels.
    pub rgba: Vec<u8>,
}

/// The dimensions of a picture.
pub open spec fn dimensions(size: PhysicalSize) -> Seq<u32> {
    seq![size.width, size.height]
}

/// The pixels of the preview of a picture.
pub open spec fn preview_pixels(surface: RgbaSurface, size: Seq<u32>) -> Seq<u8> {
    if size == dimensions(surface.size) {
        surface.pixels@
    } else {
        nearest(surface.pixels@, dimensions(surface.size), size)
    }
}

/// Makes the preview of a rendered picture.
pub fn downsample_preview(surface: RgbaSurface, max_size: [u32; 2], preview_limit_bytes: usize) -> (result: Result<
    PreparedPreview,
    EditorPreviewError,
>)
    requires
        surface.wf(),
    ensures
        ({
            let rendered = dimensions(surface.size);
            let fit = fitted(rendered, max_size@);
            let size = seq![fit.0 as u32, fit.1 as u32];
            if max_size@[0] == 0 || max_size@[1] == 0 {
                result matches Err(error) && error == (EditorPreviewError::InvalidPreviewBounds {
                    width: max_size@[0],
                    height: max_size@[1],
                })
            } else if rendered[0] == 0 || rendered[1] == 0 {
                result matches Err(error) && error == (EditorPreviewError::InvalidRenderedSize {
                    width: rendered[0],
                    height: rendered[1],
                })
            } else if byte_len(size) > usize::MAX {
                result matches Err(error) && error == (EditorPreviewError::PreviewByteLengthOverflow {
                    width: size[0],
                    height: size[1],
                })
            } else if byte_len(size) > preview_limit_bytes {
                result matches Err(error) && error == (EditorPreviewError::PreviewMemoryLimitExceeded {
                    required: byte_len(size) as usize,
                    limit: preview_limit_bytes,
                })
            } else {
                match result {
                    Ok(preview) => {
                        &&& preview.rendered_size@ == rendered
                        &&& preview.preview_size@ == size
                        &&& preview.rgba@ == preview_pixels(surface, size)
                        &&& preview.rgba@.len() == byte_len(size)
                    },
                    Err(error) => size != rendered && error == (EditorPreviewError::PreviewAllocationFailed {
                        requested: byte_len(size) as usize,
                    }),
                }
            }
        }),
{
    let rendered_size: [u32; 2] = [surface.size.width, surface.size.height];
    assert(rendered_size@ =~= dimensions(surface.size));
    let preview_size: [u32; 2] = match fit_preview_dimensions(rendered_size, max_size) {
        Ok(size) => size,
        Err(error) => return Err(error),
    };
    let ghost fit = fitted(rendered_size@, max_size@);
    assert(preview_size@ =~= seq![fit.0 as u32, fit.1 as u32]);
    let bytes: usize = match checked_rgba_byte_len(preview_size) {
        Ok(bytes) => bytes,
        Err(error) => return Err(error),
    };
    if bytes > preview_limit_bytes {
        return Err(EditorPreviewError::PreviewMemoryLimitExceeded { required: bytes, limit: preview_limit_bytes });
    }
    let length: usize = surface.pixels.len();
    let unchanged: bool = preview_size[0] == rendered_size[0] && preview_size[1] == rendered_size[1];
    proof {
        assert(unchanged == (preview_size@ =~= rendered_size@));
        assert(length == byte_len(rendered_size@)) by {
            assert(4 * (surface.size.width * surface.size.height) == surface.size.width * surface.size.height * 4);
        }
    }
    let rgba: Vec<u8> = if unchanged {
        surface.pixels
    } else {
        match resize_nearest_rgba(surface.pixels.as_slice(), rendered_size, preview_size) {
            Ok(pixels) => pixels,
            Err(error) => return Err(error),
        }
    };
    Ok(PreparedPreview { rendered_size, preview_size, rgba })
}

/// A preview is never larger than the picture nor than the space for it, and has at least one
/// pixel.
pub proof fn law_previews_fit_and_never_grow(source: Seq<u32>, max_size: Seq<u32>)
    requires
        source.len() == 2,
        max_size.len() == 2,
        source[0] > 0,
        source[1] > 0,
        max_size[0] > 0,
        max_size[1] > 0,
    ensures
        0 < fitted(source, max_size).0 <= max_size[0],
        0 < fitted(source, max_size).1 <= max_size[1],
        fitted(source, max_size).0 <= source[0],
        fitted(source, max_size).1 <= source[1],
{
    let (sw, sh, mw, mh) = (source[0] as int, source[1] as int, max_size[0] as int, max_size[1] as int);
    if sw <= mw && sh <= mh {
    } else if mw * sh <= mh * sw {
        lemma_scaled(sh, mw, sw, mh);
        assert(mw <= sw) by (nonlinear_arith)
            requires
                mw * sh <= mh * sw,
                !(sw <= mw && sh <= mh),
                0 < sw,
                0 < sh,
                0 < mw,
                0 < mh,
        ;
        mul::lemma_mul_inequality(mw, sw, sh);
        mul::lemma_mul_is_commutative(sh, sw);
        lemma_scaled(sh, mw, sw, sh);
    } else {
        mul::lemma_mul_is_commutative(sw, mh);
        mul::lemma_mul_is_commutative(mw, sh);
        lemma_scaled(sw, mh, sh, mw);
        assert(mh <= sh) by (nonlinear_arith)
            requires
                mw * sh > mh * sw,
                !(sw <= mw && sh <= mh),
                0 < sw,
                0 < sh,
                0 < mw,
                0 < mh,
        ;
        mul::lemma_mul_inequality(mh, sh, sw);
        mul::lemma_mul_is_commutative(sw, sh);
        lemma_scaled(sw, mh, sh, sw);
    }
}

/// Fitting a preview once more into the same space leaves it as it is.
pub proof fn law_fitting_twice_changes_nothing(source: Seq<u32>, max_size: Seq<u32>)
    requires
        source.len() == 2,
        max_size.len() == 2,
        source[0] > 0,
        source[1] > 0,
        max_size[0] > 0,
        max_size[1] > 0,
    ensures
        ({
            let once = fitted(source, max_size);
            fitted(seq![once.0 as u32, once.1 as u32], max_size) == once
        }),
{
    law_previews_fit_and_never_grow(source, max_size);
}

proof fn lemma_floor(at: int, source: int, target: int, found: int)
    requires
        0 < target,
        found * target <= at * source < (found + 1) * target,
    ensures
        at * source / target == found,
{
    let left = at * source - found * target;
    assert((found + 1) * target == found * target + target) by (nonlinear_arith);
    div_mod::lemma_fundamental_div_mod_converse(at * source, target, found, left);
}

/// A resized picture has for each of its pixels all four bytes of the pixel that lies as far along
/// the picture, in its width and in its height alike: column `x` of `target` columns shows column
/// `column` of `source` columns where `x` lies in its share, and so for rows.
pub proof fn law_a_preview_shows_the_pixel_that_lies_as_far_along(
    pixels: Seq<u8>,
    source: Seq<u32>,
    target: Seq<u32>,
    x: int,
    y: int,
    column: int,
    row: int,
    byte: int,
)
    requires
        source.len() == 2,
        target.len() == 2,
        0 <= x < target[0],
        0 <= y < target[1],
        0 <= column < source[0],
        0 <= row < source[1],
        0 <= byte < 4,
        column * target[0] <= x * source[0] < (column + 1) * target[0],
        row * target[1] <= y * source[1] < (row + 1) * target[1],
    ensures
        nearest(pixels, source, target).len() == 4 * (target[0] * target[1]),
        nearest(pixels, source, target)[4 * (y * target[0] + x) + byte] == pixels[4 * (row * source[0] + column)
            + byte],
{
    let width = target[0] as int;
    let height = target[1] as int;
    let pixel = y * width + x;
    let at = 4 * pixel + byte;
    lemma_row_and_column(x, y, width);
    lemma_offset(x, y, width, height);
    lemma_floor(x, source[0] as int, width, column);
    lemma_floor(y, source[1] as int, height, row);
    assert(at / 4 == pixel && at % 4 == byte);
    assert(sampled(pixel, source, target) == row * source[0] + column);
    assert(width * height * 4 == 4 * (width * height));
}

/// Resizing treats rows as it treats columns: a picture that is mirrored along its diagonal gives the
/// preview mirrored along its diagonal.
pub proof fn law_rows_are_resized_as_columns_are(
    pixels: Seq<u8>,
    mirrored: Seq<u8>,
    source: Seq<u32>,
    target: Seq<u32>,
    x: int,
    y: int,
    byte: int,
)
    requires
        source.len() == 2,
        target.len() == 2,
        source[0] > 0,
        source[1] > 0,
        0 <= x < target[0],
        0 <= y < target[1],
        0 <= byte < 4,
        forall|column: int, row: int, b: int|
            #![trigger pixels[4 * (row * source[0] + column) + b]]
            0 <= column < source[0] && 0 <= row < source[1] && 0 <= b < 4 ==> pixels[4 * (row * source[0] + column)
                + b] == mirrored[4 * (column * source[1] + row) + b],
    ensures
        nearest(pixels, source, target)[4 * (y * target[0] + x) + byte] == nearest(
            mirrored,
            seq![source[1], source[0]],
            seq![target[1], target[0]],
        )[4 * (x * target[1] + y) + byte],
{
    let turned = seq![source[1], source[0]];
    let wanted = seq![target[1], target[0]];
    let column = x * source[0] / (target[0] as int);
    let row = y * source[1] / (target[1] as int);
    lemma_sample_in_range(x, target[0] as int, source[0] as int);
    lemma_sample_in_range(y, target[1] as int, source[1] as int);
    lemma_between(x * source[0], target[0] as int, column);
    lemma_between(y * source[1], target[1] as int, row);
    law_a_preview_shows_the_pixel_that_lies_as_far_along(pixels, source, target, x, y, column, row, byte);
    law_a_preview_shows_the_pixel_that_lies_as_far_along(mirrored, turned, wanted, y, x, row, column, byte);
    assert(pixels[4 * (row * source[0] + column) + byte] == mirrored[4 * (column * source[1] + row) + byte]);
}

proof fn lemma_between(number: int, divisor: int, quotient: int)
    requires
        0 < divisor,
        quotient == number / divisor,
    ensures
        quotient * divisor <= number < (quotient + 1) * divisor,
{
    div_mod::lemma_fundamental_div_mod(number, divisor);
    assert(quotient * divisor <= number < (quotient + 1) * divisor) by (nonlinear_arith)
        requires
            number == divisor * quotient + number % divisor,
            0 <= number % divisor < divisor,
    ;
}

/// A picture that is resized to its own dimensions stays as it is, so that a preview shows every pixel
/// where there is room for it.
pub proof fn law_resizing_to_the_same_size_changes_nothing(pixels: Seq<u8>, source: Seq<u32>)
    requires
        source.len() == 2,
        source[0] > 0,
        source[1] > 0,
        pixels.len() == 4 * (source[0] * source[1]),
    ensures
        nearest(pixels, source, source) == pixels,
{
    let width = source[0] as int;
    let height = source[1] as int;
    let after = nearest(pixels, source, source);
    assert(after.len() == pixels.len()) by {
        mul::lemma_mul_nonnegative(width, height);
    }
    assert forall|i: int| 0 <= i < pixels.len() implies after[i] == pixels[i] by {
        let pixel = i / 4;
        let x = pixel % width;
        let y = pixel / width;
        div_mod::lemma_fundamental_div_mod(pixel, width);
        assert(pixel < width * height);
        div_mod::lemma_div_pos_is_pos(pixel, width);
        mul::lemma_mul_is_commutative(width, height);
        div_mod::lemma_multiply_divide_lt(pixel, width, height);
        mul::lemma_mul_is_commutative(width, y);
        assert((x + 1) * width == x * width + width) by (nonlinear_arith);
        assert((y + 1) * height == y * height + height) by (nonlinear_arith);
        law_a_preview_shows_the_pixel_that_lies_as_far_along(pixels, source, source, x, y, x, y, i % 4);
        assert(4 * (y * width + x) + i % 4 == i);
    }
    assert(after =~= pixels);
}

/// A preview has the dimensions of the picture where they fit. Where they do not, it fills the space in
/// one direction, and in the other it keeps the proportions of the picture to half a pixel, but for a
/// side of which less than half a pixel would be left: that has one pixel.
pub proof fn law_previews_keep_their_proportions(source: Seq<u32>, max_size: Seq<u32>)
    requires
        source.len() == 2,
        max_size.len() == 2,
        source[0] > 0,
        source[1] > 0,
        max_size[0] > 0,
        max_size[1] > 0,
    ensures
        ({
            let (width, height) = fitted(source, max_size);
            let more = 2 * (width * source[1] - height * source[0]);
            if source[0] <= max_size[0] && source[1] <= max_size[1] {
                width == source[0] && height == source[1]
            } else {
                ||| width == max_size[0] && -source[0] <= more <= source[0]
                ||| width == max_size[0] && height == 1 && more < 0
                ||| height == max_size[1] && -source[1] <= more <= source[1]
                ||| height == max_size[1] && width == 1 && more > 0
            }
        }),
{
    let (sw, sh, mw, mh) = (source[0] as int, source[1] as int, max_size[0] as int, max_size[1] as int);
    let (width, height) = fitted(source, max_size);
    if sw <= mw && sh <= mh {
    } else if mw * sh <= mh * sw {
        lemma_rounded(sh, mw, sw);
        mul::lemma_mul_is_commutative(sh, mw);
    } else {
        lemma_rounded(sw, mh, sh);
        mul::lemma_mul_is_commutative(sw, mh);
    }
}

proof fn lemma_rounded(side: int, numerator: int, denominator: int)
    requires
        0 < side,
        0 < numerator,
        0 < denominator,
    ensures
        ({
            let rounded = scaled(side, numerator, denominator);
            let more = 2 * (side * numerator - rounded * denominator);
            -denominator <= more <= denominator || (rounded == 1 && more < 0)
        }),
{
    let value = side * numerator + denominator / 2;
    let quotient = value / denominator;
    lemma_between(value, denominator, quotient);
    assert((quotient + 1) * denominator == quotient * denominator + denominator) by (nonlinear_arith);
    mul::lemma_mul_nonnegative(side, numerator);
    if quotient < 1 {
        assert(quotient * denominator <= 0 && (quotient + 1) * denominator <= denominator) by (nonlinear_arith)
            requires
                quotient < 1,
                0 < denominator,
        ;
    }
}

/// A preview that has to shrink meets the bound that binds more, and its other side is rounded to the
/// nearest, a half up, but is never nothing.
pub proof fn law_the_binding_side_is_met(source: Seq<u32>, max_size: Seq<u32>)
    requires
        source.len() == 2,
        max_size.len() == 2,
        source[0] > 0,
        source[1] > 0,
        max_size[0] > 0,
        max_size[1] > 0,
        source[0] > max_size[0] || source[1] > max_size[1],
    ensures
        ({
            let (width, height) = fitted(source, max_size);
            if max_size[0] * source[1] <= max_size[1] * source[0] {
                let more = 2 * (max_size[0] * source[1]) - 2 * (height * source[0]);
                width == max_size[0] && more < source[0] && (more >= -source[0] || height == 1)
            } else {
                let more = 2 * (max_size[1] * source[0]) - 2 * (width * source[1]);
                height == max_size[1] && more < source[1] && (more >= -source[1] || width == 1)
            }
        }),
{
    if max_size[0] * source[1] <= max_size[1] * source[0] {
        lemma_rounded_half_up(source[1] as int, max_size[0] as int, source[0] as int);
    } else {
        lemma_rounded_half_up(source[0] as int, max_size[1] as int, source[1] as int);
    }
}

proof fn lemma_rounded_half_up(side: int, numerator: int, denominator: int)
    requires
        0 < side,
        0 < numerator,
        0 < denominator,
    ensures
        ({
            let rounded = scaled(side, numerator, denominator);
            let more = 2 * (numerator * side) - 2 * (rounded * denominator);
            more < denominator && (more >= -denominator || rounded == 1)
        }),
{
    let all = side * numerator;
    let half = denominator / 2;
    let q = (all + half) / denominator;
    assert(numerator * side == all) by (nonlinear_arith)
        requires
            all == side * numerator,
    ;
    assert(all > 0) by (nonlinear_arith)
        requires
            all == side * numerator,
            side > 0,
            numerator > 0,
    ;
    lemma_between(all + half, denominator, q);
    assert(q * denominator <= all + half < q * denominator + denominator) by (nonlinear_arith)
        requires
            q * denominator <= all + half < (q + 1) * denominator,
    ;
    if q < 1 {
        assert(1 * denominator == denominator) by (nonlinear_arith);
        assert(q * denominator + denominator <= denominator) by (nonlinear_arith)
            requires
                q <= 0,
                denominator > 0,
        ;
    }
}

/// A picture is resized exactly where both sizes have an extent, the picture has four bytes for each of its
/// pixels, and the result can be held.
pub proof fn law_what_can_be_resized(length: int, source: Seq<u32>, target: Seq<u32>)
    requires
        0 <= length <= usize::MAX,
    ensures
        resize_refusal(length, source, target) is None <==> {
            &&& target[0] > 0 && target[1] > 0
            &&& source[0] > 0 && source[1] > 0
            &&& length == 4 * (source[0] * source[1])
            &&& 4 * (target[0] * target[1]) <= usize::MAX
        },
        byte_len(source) == 4 * (source[0] * source[1]),
{
    assert(source[0] * source[1] * 4 == 4 * (source[0] * source[1]));
    assert(target[0] * target[1] * 4 == 4 * (target[0] * target[1]));
}

/// A preview of the size of the picture is the picture, and another one is the picture resized.
pub proof fn law_a_preview_is_the_picture_resized(surface: RgbaSurface, size: Seq<u32>)
    requires
        size.len() == 2,
    ensures
        size[0] == surface.size.width && size[1] == surface.size.height ==> preview_pixels(surface, size)
            == surface.pixels@,
        size[0] != surface.size.width || size[1] != surface.size.height ==> preview_pixels(surface, size) == nearest(
            surface.pixels@,
            seq![surface.size.width, surface.size.height],
            size,
        ),
{
    if size[0] == surface.size.width && size[1] == surface.size.height {
        assert(size =~= dimensions(surface.size));
    } else {
        assert(dimensions(surface.size)[0] == surface.size.width);
        assert(dimensions(surface.size)[1] == surface.size.height);
    }
}

} // verus!
