//! Artwork that is put on every selected frame.
use crate::content::{BlendMode, ContentView, OverlayContent};
use crate::conversion_edit::MAX_FRAME_BUNDLE_METADATA_BYTES;
use crate::geometry::{PhysicalPoint, PhysicalSize};
use crate::identity;
use crate::identity::draw;
use crate::ids::OverlayId;
use crate::overlay::{FrameOverlayMark, MarkView};
use crate::title::{validate_text_image, EditorWorkspaceError, TextRequest};
use crate::value;
use crate::value::Value;
use vstd::prelude::*;

verus! {

/// What each repetition takes up besides the artwork itself.
pub const REPETITION_OVERHEAD_BYTES: usize = 512;

/// Whether artwork of a length can be repeated as often.
pub open spec fn fits_budget(length: int, count: int) -> bool {
    &&& length + REPETITION_OVERHEAD_BYTES <= usize::MAX
    &&& (length + REPETITION_OVERHEAD_BYTES) * count <= MAX_FRAME_BUNDLE_METADATA_BYTES
}

/// The words for artwork that takes up too much.
pub open spec fn over_budget(error: EditorWorkspaceError) -> bool {
    error matches EditorWorkspaceError::FrameOverlayPreparation(message) && message@
        == "Overlay metadata exceeds 16 MiB. Select fewer frames or simplify the artwork."@
}

/// The error for artwork that takes up too much.
pub fn budget_error() -> (error: EditorWorkspaceError)
    ensures
        over_budget(error),
{
    EditorWorkspaceError::FrameOverlayPreparation(
        "Overlay metadata exceeds 16 MiB. Select fewer frames or simplify the artwork.".to_owned(),
    )
}

/// A count of the bytes that artwork is written in.
#[derive(Clone, Copy, Debug, PartialEq, Eq, Structural)]
pub struct ArtworkCounter {
    /// The bytes so far.
    pub bytes: usize,
}

impl ArtworkCounter {
    /// A count of nothing.
    pub fn new() -> (counter: ArtworkCounter)
        ensures
            counter.bytes == 0,
    {
        ArtworkCounter { bytes: 0 }
    }

    /// Counts more bytes, unless they are too many.
    pub fn write(&mut self, length: usize) -> (written: Option<usize>)
        ensures
            match written {
                Some(count) => {
                    &&& count == length
                    &&& final(self).bytes == old(self).bytes + length
                    &&& final(self).bytes <= MAX_FRAME_BUNDLE_METADATA_BYTES
                },
                None => {
                    &&& old(self).bytes + length > MAX_FRAME_BUNDLE_METADATA_BYTES
                    &&& *final(self) == *old(self)
                },
            },
    {
        match self.bytes.checked_add(length) {
            Some(bytes) => {
                if bytes > MAX_FRAME_BUNDLE_METADATA_BYTES {
                    None
                } else {
                    self.bytes = bytes;
                    Some(length)
                }
            },
            None => None,
        }
    }
}

/// Accepts artwork that can be repeated as often; `length` is what it is written in, unless that
/// is too much already.
pub fn validate_repeated_content(length: Option<usize>, count: usize) -> (result: Result<(), EditorWorkspaceError>)
    ensures
        match result {
            Ok(_) => length matches Some(bytes) && fits_budget(bytes as int, count as int),
            Err(error) => over_budget(error) && (length matches Some(bytes) ==> !fits_budget(
                bytes as int,
                count as int,
            )),
        },
{
    let bytes: usize = match length {
        Some(bytes) => bytes,
        None => return Err(budget_error()),
    };
    let each: usize = match bytes.checked_add(REPETITION_OVERHEAD_BYTES) {
        Some(each) => each,
        None => return Err(budget_error()),
    };
    match each.checked_mul(count) {
        Some(required) => if required > MAX_FRAME_BUNDLE_METADATA_BYTES {
            Err(budget_error())
        } else {
            Ok(())
        },
        None => Err(budget_error()),
    }
}

/// One mark of the artwork for each identity.
pub open spec fn repeated(content: ContentView, z_index: i32, ids: Seq<OverlayId>) -> Seq<MarkView> {
    Seq::new(ids.len(), |i: int| MarkView { id: ids[i], z_index, content })
}

/// Makes one mark of the artwork for each identity.
pub fn repeat_marks(content: &OverlayContent, z_index: i32, ids: &Vec<OverlayId>) -> (marks: Vec<FrameOverlayMark>)
    ensures
        value::views(marks@) == repeated(content@, z_index, ids@),
{
    let mut marks: Vec<FrameOverlayMark> = Vec::new();
    let mut at: usize = 0;
    while at < ids.len()
        invariant
            at <= ids@.len(),
            value::views(marks@) =~= repeated(content@, z_index, ids@).take(at as int),
        decreases ids@.len() - at,
    {
        let ghost before = marks@;
        marks.push(FrameOverlayMark { id: ids[at], z_index, content: content.duplicate() });
        assert(value::views(marks@) =~= value::views(before).push(
            MarkView { id: ids@[at as int], z_index, content: content@ },
        ));
        at = at + 1;
    }
    marks
}

/// Makes the marks for as many selected frames, with random identities, where that does not take up
/// too much.
pub fn generic_overlay_marks(content: &OverlayContent, z_index: i32, length: Option<usize>, count: usize) -> (result:
    Result<Vec<FrameOverlayMark>, EditorWorkspaceError>)
    ensures
        match result {
            Ok(marks) => {
                &&& length matches Some(bytes) && fits_budget(bytes as int, count as int)
                &&& marks@.len() == count
                &&& exists|ids: Seq<OverlayId>|
                    {
                        &&& ids.len() == count
                        &&& forall|i: int| 0 <= i < count ==> identity::is_random_uuid((#[trigger] ids[i]).value)
                        &&& value::views(marks@) == #[trigger] repeated(content@, z_index, ids)
                    }
            },
            Err(error) => over_budget(error) && (length matches Some(bytes) ==> !fits_budget(
                bytes as int,
                count as int,
            )),
        },
{
    match validate_repeated_content(length, count) {
        Ok(_) => {},
        Err(error) => return Err(error),
    }
    let mut ids: Vec<OverlayId> = Vec::new();
    let mut at: usize = 0;
    while at < count
        invariant
            at <= count,
            ids@.len() == at,
            forall|i: int| 0 <= i < at ==> identity::is_random_uuid((#[trigger] ids@[i]).value),
        decreases count - at,
    {
        ids.push(OverlayId { value: draw() });
        at = at + 1;
    }
    let marks = repeat_marks(content, z_index, &ids);
    assert(value::views(marks@).len() == count);
    Ok(marks)
}

/// How a picture is put on frames.
#[derive(Clone, Debug, PartialEq, Eq)]
pub struct RasterOverlayEdit {
    /// Name of the layer.
    pub name: String,
    /// Dimensions of the picture.
    pub source_size: PhysicalSize,
    /// Where it lies.
    pub position: PhysicalPoint,
    /// Dimensions it is shown in.
    pub display_size: PhysicalSize,
    /// Opacity of the picture.
    pub item_opacity: u8,
    /// Opacity of the layer.
    pub track_opacity: u8,
    /// How the layer is blended.
    pub blend_mode: BlendMode,
    /// Where the layer stands.
    pub z_index: i32,
}

/// Whether an edit puts shaped text on frames.
pub open spec fn puts_text(edit: RasterOverlayEdit, image: PhysicalSize, position: PhysicalPoint) -> bool {
    &&& edit.name@ == "Text"@
    &&& edit.source_size == image
    &&& edit.position == position
    &&& edit.display_size == image
    &&& edit.item_opacity == 255
    &&& edit.track_opacity == 255
    &&& edit.blend_mode == BlendMode::Normal
    &&& edit.z_index == 3
}

/// Works out how shaped text is put on the selected frames.
pub fn add_text_overlay_for_selection(
    canvas: PhysicalSize,
    request: &TextRequest,
    validity: &Result<(), String>,
    image: PhysicalSize,
    position: PhysicalPoint,
) -> (result: Result<RasterOverlayEdit, EditorWorkspaceError>)
    ensures
        ({
            let placed = crate::geometry::PhysicalRect { origin: position, size: image };
            match *validity {
                Err(reason) => result matches Err(EditorWorkspaceError::InvalidText(message)) && message@ == reason@,
                Ok(_) => if request.size != image {
                    result == Err::<RasterOverlayEdit, EditorWorkspaceError>(
                        EditorWorkspaceError::TextRasterDimensionsMismatch,
                    )
                } else if !placed.inside(canvas) {
                    result == Err::<RasterOverlayEdit, EditorWorkspaceError>(
                        EditorWorkspaceError::RasterOverlayOutsideCanvas,
                    )
                } else {
                    result matches Ok(edit) && puts_text(edit, image, position)
                },
            }
        }),
{
    match validate_text_image(canvas, request, validity, image, position) {
        Ok(_) => {},
        Err(error) => return Err(error),
    }
    Ok(
        RasterOverlayEdit {
            name: "Text".to_owned(),
            source_size: image,
            position,
            display_size: image,
            item_opacity: 255,
            track_opacity: 255,
            blend_mode: BlendMode::Normal,
            z_index: 3,
        },
    )
}

/// Repeated content fits exactly where all copies, each with 512 bytes more, take at most 16 MiB.
pub proof fn law_what_can_be_repeated(length: int, count: int)
    requires
        0 <= length <= 0x7fff_ffff,
        0 <= count,
    ensures
        fits_budget(length, count) <==> count * (length + 512) <= 16_777_216,
{
    assert(MAX_FRAME_BUNDLE_METADATA_BYTES == 16_777_216);
    assert((length + 512) * count == count * (length + 512)) by (nonlinear_arith);
}

/// Content is repeated once for each identity, on the same level.
pub proof fn law_every_copy_is_the_same(content: ContentView, z_index: i32, ids: Seq<OverlayId>, at: int)
    ensures
        repeated(content, z_index, ids).len() == ids.len(),
        0 <= at < ids.len() ==> {
            let mark = repeated(content, z_index, ids)[at];
            mark.id == ids[at] && mark.z_index == z_index && mark.content == content
        },
{
}

/// A text is put in the size of its picture and at its position, wholly opaque, in the normal mode, on the
/// level of texts, under its own name.
pub proof fn law_a_text_is_put_as_it_is(edit: RasterOverlayEdit, image: PhysicalSize, position: PhysicalPoint)
    requires
        puts_text(edit, image, position),
    ensures
        edit.name@ == "Text"@,
        edit.source_size.width == image.width && edit.source_size.height == image.height,
        edit.display_size.width == image.width && edit.display_size.height == image.height,
        edit.position.x == position.x && edit.position.y == position.y,
        edit.item_opacity == u8::MAX && edit.track_opacity == u8::MAX,
        edit.blend_mode is Normal,
        edit.z_index == 3,
{
}

} // verus!
