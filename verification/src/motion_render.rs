//! What surrounds the rendering of motion edits: finding frames and sharing memory.
use vstd::prelude::*;
use crate::cancel::CancellationToken;
use crate::frames;
use crate::frames::{start_of, FrameClip, FrameView};
use crate::geometry::PhysicalSize;
use crate::ids::FrameId;
use crate::motion::MAX_SURFACE_BYTES;
use crate::motion_pixels;
use crate::motion_pixels::check_cancelled;
use crate::value;

verus! {

/// Whether `index` is the position of the first frame of the given identity.
pub open spec fn first_at(frames: Seq<FrameView>, id: FrameId, index: int) -> bool {
    &&& 0 <= index < frames.len()
    &&& frames[index].id == id
    &&& forall|i: int| 0 <= i < index ==> (#[trigger] frames[i]).id != id
}

/// Whether a frame has the given identity.
pub open spec fn has_frame(frames: Seq<FrameView>, id: FrameId) -> bool {
    exists|i: int| 0 <= i < frames.len() && (#[trigger] frames[i]).id == id
}

/// The position of the first frame of the given identity.
pub fn find_frame(frames: &Vec<FrameClip>, id: FrameId) -> (index: Option<usize>)
    ensures
        match index {
            Some(at) => first_at(value::views(frames@), id, at as int),
            None => !has_frame(value::views(frames@), id),
        },
{
    let mut index: usize = 0;
    while index < frames.len()
        invariant
            index <= frames.len(),
            forall|i: int| 0 <= i < index ==> (#[trigger] value::views(frames@)[i]).id != id,
        decreases frames.len() - index,
    {
        assert(value::views(frames@)[index as int] == frames@[index as int]@);
        if frames[index].id == id {
            return Some(index);
        }
        index += 1;
    }
    None
}

/// The position and the start of a frame that is to be rendered.
pub fn locate_frame<C: CancellationToken>(
    frames: &Vec<FrameClip>,
    id: FrameId,
    cancellation: &C,
) -> (result: Result<(usize, u64), String>)
    ensures
        ({
            let clips = value::views(frames@);
            match result {
                Ok((index, start)) => {
                    &&& first_at(clips, id, index as int)
                    &&& start == frames::clock(clips, index as int)
                },
                Err(message) => {
                    ||| cancellation.may_cancel() && message@ == motion_pixels::stopped()
                    ||| !has_frame(clips, id) && message@
                        == "The motion endpoint frame no longer exists."@
                    ||| message@ == "The motion frame time cannot be represented."@ && exists|
                        index: int,
                    |
                        first_at(clips, id, index) && #[trigger] frames::clock(clips, index)
                            > u64::MAX
                },
            }
        }),
        cancellation.must_cancel() ==> (result matches Err(message) && message@ == motion_pixels::stopped()),
{
    check_cancelled(cancellation)?;
    let index = match find_frame(frames, id) {
        Some(index) => index,
        None => return Err("The motion endpoint frame no longer exists.".to_owned()),
    };
    match start_of(frames, index) {
        Some(start) => Ok((index, start)),
        None => Err("The motion frame time cannot be represented.".to_owned()),
    }
}

/// Refuses a rendered frame of other dimensions than the canvas.
pub fn check_rendered_size(rendered: PhysicalSize, canvas: PhysicalSize) -> (result: Result<
    (),
    String,
>)
    ensures
        match result {
            Ok(_) => rendered == canvas,
            Err(message) => rendered != canvas && message@
                == "Rendered frame dimensions differ from the canvas. Apply consistent resize/crop settings before this motion edit."@,
        },
{
    if rendered != canvas {
        return Err(
            "Rendered frame dimensions differ from the canvas. Apply consistent resize/crop settings before this motion edit.".to_owned(),
        );
    }
    Ok(())
}

/// The sum of the first `count` capacities.
pub open spec fn capacity_sum(capacities: Seq<usize>, count: int) -> int
    decreases count,
{
    if count <= 0 {
        0
    } else {
        capacity_sum(capacities, count - 1) + capacities[count - 1]
    }
}

/// More lists never hold less.
proof fn lemma_capacity_grows(capacities: Seq<usize>, less: int, more: int)
    requires
        0 <= less <= more <= capacities.len(),
    ensures
        0 <= capacity_sum(capacities, less) <= capacity_sum(capacities, more),
    decreases more,
{
    if less < more {
        lemma_capacity_grows(capacities, less, more - 1);
    } else if less > 0 {
        lemma_capacity_grows(capacities, less - 1, less - 1);
    }
}

/// The memory of lists of elements of `inner` bytes, added to `base`, where it can be
/// counted.
fn add_lists(base: usize, capacities: &Vec<usize>, inner: usize) -> (total: Option<usize>)
    ensures
        match total {
            Some(bytes) => bytes == base + capacity_sum(capacities@, capacities@.len() as int)
                * inner,
            None => base + capacity_sum(capacities@, capacities@.len() as int) * inner
                > usize::MAX,
        },
{
    let mut total: usize = base;
    let mut index: usize = 0;
    while index < capacities.len()
        invariant
            index <= capacities.len(),
            total == base + capacity_sum(capacities@, index as int) * inner,
        decreases capacities.len() - index,
    {
        proof {
            let before = capacity_sum(capacities@, index as int);
            let next = capacities@[index as int] as int;
            let size = inner as int;
            assert((before + next) * size == before * size + next * size) by (nonlinear_arith);
            lemma_capacity_grows(capacities@, index + 1, capacities@.len() as int);
            let upto = capacity_sum(capacities@, index + 1);
            let all = capacity_sum(capacities@, capacities@.len() as int);
            assert(upto * size <= all * size) by (nonlinear_arith)
                requires
                    0 <= upto <= all,
                    0 <= size,
            ;
            lemma_capacity_grows(capacities@, index as int, index as int);
            assert(0 <= before * size) by (nonlinear_arith)
                requires
                    0 <= before,
                    0 <= size,
            ;
        }
        let bytes: usize = match capacities[index].checked_mul(inner) {
            Some(bytes) => bytes,
            None => return None,
        };
        total = match total.checked_add(bytes) {
            Some(sum) => sum,
            None => return None,
        };
        index += 1;
    }
    Some(total)
}

/// The memory that the strokes of an ink cinemagraph take.
pub open spec fn request_memory(
    stroke_capacity: int,
    stroke_bytes: int,
    sample_capacities: Seq<usize>,
    sample_bytes: int,
) -> int {
    stroke_capacity * stroke_bytes + capacity_sum(
        sample_capacities,
        sample_capacities.len() as int,
    ) * sample_bytes
}

/// Counts the memory that the strokes of an ink cinemagraph take.
pub fn request_bytes(
    stroke_capacity: usize,
    stroke_bytes: usize,
    sample_capacities: &Vec<usize>,
    sample_bytes: usize,
) -> (result: Result<usize, String>)
    ensures
        ({
            let memory = request_memory(
                stroke_capacity as int,
                stroke_bytes as int,
                sample_capacities@,
                sample_bytes as int,
            );
            match result {
                Ok(bytes) => bytes == memory,
                Err(message) => memory > usize::MAX && message@
                    == "Cinemagraph request memory size overflow."@,
            }
        }),
{
    proof {
        let sum = capacity_sum(sample_capacities@, sample_capacities@.len() as int);
        lemma_capacity_grows(sample_capacities@, 0, sample_capacities@.len() as int);
        let size = sample_bytes as int;
        assert(0 <= sum * size) by (nonlinear_arith)
            requires
                0 <= sum,
                0 <= size,
        ;
    }
    let base: usize = match stroke_capacity.checked_mul(stroke_bytes) {
        Some(bytes) => bytes,
        None => return Err("Cinemagraph request memory size overflow.".to_owned()),
    };
    match add_lists(base, sample_capacities, sample_bytes) {
        Some(bytes) => Ok(bytes),
        None => Err("Cinemagraph request memory size overflow.".to_owned()),
    }
}

/// The lists that hold one outlined stroke.
#[derive(Clone, Debug, PartialEq, Eq)]
pub struct PathStorage {
    /// Capacity of the list of figures.
    pub figure_capacity: usize,
    /// Capacities of the lists of segments, one for each figure.
    pub segment_capacities: Vec<usize>,
}

/// The memory of the first `count` outlined strokes.
pub open spec fn paths_memory(
    paths: Seq<PathStorage>,
    count: int,
    figure_bytes: int,
    segment_bytes: int,
) -> int
    decreases count,
{
    if count <= 0 {
        0
    } else {
        let path = paths[count - 1];
        paths_memory(paths, count - 1, figure_bytes, segment_bytes) + path.figure_capacity
            * figure_bytes + capacity_sum(
            path.segment_capacities@,
            path.segment_capacities@.len() as int,
        ) * segment_bytes
    }
}

/// More strokes never take less memory.
proof fn lemma_paths_grow(
    paths: Seq<PathStorage>,
    less: int,
    more: int,
    figure_bytes: int,
    segment_bytes: int,
)
    requires
        0 <= less <= more <= paths.len(),
        0 <= figure_bytes,
        0 <= segment_bytes,
    ensures
        0 <= paths_memory(paths, less, figure_bytes, segment_bytes) <= paths_memory(
            paths,
            more,
            figure_bytes,
            segment_bytes,
        ),
    decreases more,
{
    if more > 0 {
        let path = paths[more - 1];
        let segments = capacity_sum(
            path.segment_capacities@,
            path.segment_capacities@.len() as int,
        );
        let figures = path.figure_capacity as int;
        lemma_capacity_grows(
            path.segment_capacities@,
            0,
            path.segment_capacities@.len() as int,
        );
        assert(0 <= segments * segment_bytes) by (nonlinear_arith)
            requires
                0 <= segments,
                0 <= segment_bytes,
        ;
        assert(0 <= figures * figure_bytes) by (nonlinear_arith)
            requires
                0 <= figures,
                0 <= figure_bytes,
        ;
        if less < more {
            lemma_paths_grow(paths, less, more - 1, figure_bytes, segment_bytes);
        } else {
            lemma_paths_grow(paths, less - 1, less - 1, figure_bytes, segment_bytes);
        }
    }
}

/// The first part of the segments of a stroke that cannot be counted beside `base` bytes.
pub open spec fn segment_fault(base: int, lists: Seq<usize>, count: int, segment_bytes: int) -> Option<Seq<char>>
    decreases count,
{
    if count <= 0 {
        None
    } else {
        match segment_fault(base, lists, count - 1, segment_bytes) {
            Some(fault) => Some(fault),
            None => if lists[count - 1] * segment_bytes > usize::MAX {
                Some("Cinemagraph segment storage overflow."@)
            } else if base + capacity_sum(lists, count) * segment_bytes > usize::MAX {
                Some("Cinemagraph path storage overflow."@)
            } else {
                None
            },
        }
    }
}

/// The first part of the first `count` outlined strokes that cannot be counted.
pub open spec fn path_fault(
    path_capacity: int,
    element_bytes: int,
    paths: Seq<PathStorage>,
    count: int,
    figure_bytes: int,
    segment_bytes: int,
) -> Option<Seq<char>>
    decreases count,
{
    if count <= 0 {
        if path_capacity * element_bytes > usize::MAX {
            Some("Cinemagraph path storage overflow."@)
        } else {
            None
        }
    } else {
        match path_fault(path_capacity, element_bytes, paths, count - 1, figure_bytes, segment_bytes) {
            Some(fault) => Some(fault),
            None => {
                let path = paths[count - 1];
                let figures = path.figure_capacity * figure_bytes;
                let base = path_capacity * element_bytes + paths_memory(
                    paths,
                    count - 1,
                    figure_bytes,
                    segment_bytes,
                ) + figures;
                if figures > usize::MAX {
                    Some("Cinemagraph figure storage overflow."@)
                } else if base > usize::MAX {
                    Some("Cinemagraph path storage overflow."@)
                } else {
                    segment_fault(
                        base,
                        path.segment_capacities@,
                        path.segment_capacities@.len() as int,
                        segment_bytes,
                    )
                }
            },
        }
    }
}

/// A fault among the segments is the fault of all of them.
proof fn lemma_segment_fault_stays(base: int, lists: Seq<usize>, failed: int, count: int, segment_bytes: int)
    requires
        failed <= count,
        segment_fault(base, lists, failed, segment_bytes) is Some,
    ensures
        segment_fault(base, lists, count, segment_bytes) == segment_fault(base, lists, failed, segment_bytes),
    decreases count,
{
    if failed < count {
        lemma_segment_fault_stays(base, lists, failed, count - 1, segment_bytes);
    }
}

/// A fault among the strokes is the fault of all of them.
proof fn lemma_path_fault_stays(
    path_capacity: int,
    element_bytes: int,
    paths: Seq<PathStorage>,
    failed: int,
    count: int,
    figure_bytes: int,
    segment_bytes: int,
)
    requires
        0 <= failed <= count,
        path_fault(path_capacity, element_bytes, paths, failed, figure_bytes, segment_bytes) is Some,
    ensures
        path_fault(path_capacity, element_bytes, paths, count, figure_bytes, segment_bytes) == path_fault(
            path_capacity,
            element_bytes,
            paths,
            failed,
            figure_bytes,
            segment_bytes,
        ),
    decreases count,
{
    if failed < count {
        lemma_path_fault_stays(path_capacity, element_bytes, paths, failed, count - 1, figure_bytes, segment_bytes);
    }
}

/// Counts the memory that outlined strokes take.
pub fn path_bytes(
    path_capacity: usize,
    element_bytes: usize,
    paths: &Vec<PathStorage>,
    figure_bytes: usize,
    segment_bytes: usize,
) -> (result: Result<usize, String>)
    ensures
        ({
            let memory = path_capacity * element_bytes + paths_memory(
                paths@,
                paths@.len() as int,
                figure_bytes as int,
                segment_bytes as int,
            );
            let fault = path_fault(
                path_capacity as int,
                element_bytes as int,
                paths@,
                paths@.len() as int,
                figure_bytes as int,
                segment_bytes as int,
            );
            match result {
                Ok(bytes) => bytes == memory && fault is None,
                Err(message) => memory > usize::MAX && fault == Some(message@),
            }
        }),
{
    proof {
        lemma_paths_grow(
            paths@,
            0,
            paths@.len() as int,
            figure_bytes as int,
            segment_bytes as int,
        );
    }
    let mut bytes: usize = match path_capacity.checked_mul(element_bytes) {
        Some(bytes) => bytes,
        None => {
                proof {
                    lemma_path_fault_stays(
                        path_capacity as int,
                        element_bytes as int,
                        paths@,
                        0,
                        paths@.len() as int,
                        figure_bytes as int,
                        segment_bytes as int,
                    );
                }
                return Err("Cinemagraph path storage overflow.".to_owned());
            },
    };
    let mut index: usize = 0;
    while index < paths.len()
        invariant
            index <= paths.len(),
            bytes == path_capacity * element_bytes + paths_memory(
                paths@,
                index as int,
                figure_bytes as int,
                segment_bytes as int,
            ),
            0 <= path_capacity * element_bytes,
            path_fault(
                path_capacity as int,
                element_bytes as int,
                paths@,
                index as int,
                figure_bytes as int,
                segment_bytes as int,
            ) is None,
        decreases paths.len() - index,
    {
        let path = &paths[index];
        let ghost segments = capacity_sum(
            path.segment_capacities@,
            path.segment_capacities@.len() as int,
        );
        proof {
            lemma_paths_grow(
                paths@,
                index + 1,
                paths@.len() as int,
                figure_bytes as int,
                segment_bytes as int,
            );
            lemma_paths_grow(
                paths@,
                index as int,
                index as int,
                figure_bytes as int,
                segment_bytes as int,
            );
            lemma_capacity_grows(
                path.segment_capacities@,
                0,
                path.segment_capacities@.len() as int,
            );
            let size = segment_bytes as int;
            assert(0 <= segments * size) by (nonlinear_arith)
                requires
                    0 <= segments,
                    0 <= size,
            ;
        }
        let figures: usize = match path.figure_capacity.checked_mul(figure_bytes) {
            Some(figures) => figures,
            None => {
                proof {
                    lemma_path_fault_stays(
                        path_capacity as int,
                        element_bytes as int,
                        paths@,
                        index + 1,
                        paths@.len() as int,
                        figure_bytes as int,
                        segment_bytes as int,
                    );
                }
                return Err("Cinemagraph figure storage overflow.".to_owned());
            },
        };
        bytes = match bytes.checked_add(figures) {
            Some(sum) => sum,
            None => {
                proof {
                    lemma_path_fault_stays(
                        path_capacity as int,
                        element_bytes as int,
                        paths@,
                        index + 1,
                        paths@.len() as int,
                        figure_bytes as int,
                        segment_bytes as int,
                    );
                }
                return Err("Cinemagraph path storage overflow.".to_owned());
            },
        };
        let ghost base = bytes as int;
        let lists = &path.segment_capacities;
        let mut at: usize = 0;
        while at < lists.len()
            invariant
                at <= lists.len(),
                index < paths.len(),
                lists@ == paths@[index as int].segment_capacities@,
                segments == capacity_sum(lists@, lists@.len() as int),
                bytes == base + capacity_sum(lists@, at as int) * segment_bytes,
                base >= 0,
                base == path_capacity * element_bytes + paths_memory(
                    paths@,
                    index as int,
                    figure_bytes as int,
                    segment_bytes as int,
                ) + paths@[index as int].figure_capacity * figure_bytes,
                base <= usize::MAX,
                paths@[index as int].figure_capacity * figure_bytes <= usize::MAX,
                path_fault(
                path_capacity as int,
                element_bytes as int,
                paths@,
                index as int,
                figure_bytes as int,
                segment_bytes as int,
            ) is None,
                segment_fault(base, lists@, at as int, segment_bytes as int) is None,
                base + segments * segment_bytes <= path_capacity * element_bytes + paths_memory(
                    paths@,
                    paths@.len() as int,
                    figure_bytes as int,
                    segment_bytes as int,
                ),
            decreases lists.len() - at,
        {
            proof {
                let before = capacity_sum(lists@, at as int);
                let next = lists@[at as int] as int;
                let size = segment_bytes as int;
                assert((before + next) * size == before * size + next * size) by (nonlinear_arith);
                lemma_capacity_grows(lists@, at + 1, lists@.len() as int);
                lemma_capacity_grows(lists@, at as int, at as int);
                let upto = capacity_sum(lists@, at + 1);
                assert(upto * size <= segments * size) by (nonlinear_arith)
                    requires
                        0 <= upto <= segments,
                        0 <= size,
                ;
                assert(0 <= before * size) by (nonlinear_arith)
                    requires
                        0 <= before,
                        0 <= size,
                ;
            }
            let more: usize = match lists[at].checked_mul(segment_bytes) {
                Some(more) => more,
                None => {
                    proof {
                        lemma_segment_fault_stays(
                            base,
                            lists@,
                            at + 1,
                            lists@.len() as int,
                            segment_bytes as int,
                        );
                        lemma_path_fault_stays(
                            path_capacity as int,
                            element_bytes as int,
                            paths@,
                            index + 1,
                            paths@.len() as int,
                            figure_bytes as int,
                            segment_bytes as int,
                        );
                    }
                    return Err("Cinemagraph segment storage overflow.".to_owned());
                },
            };
            bytes = match bytes.checked_add(more) {
                Some(sum) => sum,
                None => {
                    proof {
                        lemma_segment_fault_stays(
                            base,
                            lists@,
                            at + 1,
                            lists@.len() as int,
                            segment_bytes as int,
                        );
                        lemma_path_fault_stays(
                            path_capacity as int,
                            element_bytes as int,
                            paths@,
                            index + 1,
                            paths@.len() as int,
                            figure_bytes as int,
                            segment_bytes as int,
                        );
                    }
                    return Err("Cinemagraph path storage overflow.".to_owned());
                },
            };
            at += 1;
        }
        index += 1;
    }
    Ok(bytes)
}

/// What is left of the working memory beside two users of it.
pub open spec fn memory_left(first: int, second: int) -> int {
    MAX_SURFACE_BYTES - first - second
}

/// The memory in which strokes may be outlined beside the request and the source.
pub fn outline_budget(request: usize, source: usize) -> (result: Result<usize, String>)
    ensures
        match result {
            Ok(bytes) => bytes == memory_left(request as int, source as int),
            Err(message) => memory_left(request as int, source as int) < 0 && message@
                == "Cinemagraph reference and request exceed the geometry budget."@,
        },
{
    let whole: usize = MAX_SURFACE_BYTES as usize;
    match whole.checked_sub(request) {
        Some(left) => match left.checked_sub(source) {
            Some(left) => Ok(left),
            None => Err(
                "Cinemagraph reference and request exceed the geometry budget.".to_owned(),
            ),
        },
        None => Err("Cinemagraph reference and request exceed the geometry budget.".to_owned()),
    }
}

/// The memory in which the source may be clipped beside the request and the outlines.
pub fn clip_budget(request: usize, paths: usize) -> (result: Result<usize, String>)
    ensures
        match result {
            Ok(bytes) => bytes == memory_left(request as int, paths as int),
            Err(message) => if paths + request > usize::MAX {
                message@ == "Cinemagraph retained geometry byte count overflow."@
            } else {
                memory_left(request as int, paths as int) < 0 && message@
                    == "Cinemagraph paths exceed the working-memory budget."@
            },
        },
{
    let retained: usize = match paths.checked_add(request) {
        Some(bytes) => bytes,
        None => return Err("Cinemagraph retained geometry byte count overflow.".to_owned()),
    };
    let whole: usize = MAX_SURFACE_BYTES as usize;
    match whole.checked_sub(retained) {
        Some(left) => Ok(left),
        None => Err("Cinemagraph paths exceed the working-memory budget.".to_owned()),
    }
}

/// The memory in which a snapshot may be encoded beside the request and its pixels.
pub fn encode_budget(request: usize, snapshot: usize) -> (result: Result<usize, String>)
    ensures
        match result {
            Ok(bytes) => bytes == memory_left(request as int, snapshot as int),
            Err(message) => memory_left(request as int, snapshot as int) < 0 && message@
                == "Cinemagraph encoding exceeds its working-memory budget."@,
        },
{
    let whole: usize = MAX_SURFACE_BYTES as usize;
    match whole.checked_sub(request) {
        Some(left) => match left.checked_sub(snapshot) {
            Some(left) => Ok(left),
            None => Err("Cinemagraph encoding exceeds its working-memory budget.".to_owned()),
        },
        None => Err("Cinemagraph encoding exceeds its working-memory budget.".to_owned()),
    }
}

/// The memory of lists adds up, list by list.
pub proof fn law_list_memory_adds_up(capacities: Seq<usize>, added: usize)
    ensures
        capacity_sum(capacities.push(added), capacities.len() + 1int) == capacity_sum(
            capacities,
            capacities.len() as int,
        ) + added,
        capacity_sum(capacities, 0) == 0,
{
    lemma_capacity_prefix(capacities, capacities.push(added), capacities.len() as int);
}

proof fn lemma_capacity_prefix(capacities: Seq<usize>, more: Seq<usize>, count: int)
    requires
        0 <= count <= capacities.len() <= more.len(),
        forall|i: int| 0 <= i < count ==> #[trigger] capacities[i] == more[i],
    ensures
        capacity_sum(capacities, count) == capacity_sum(more, count),
    decreases count,
{
    if count > 0 {
        lemma_capacity_prefix(capacities, more, count - 1);
        assert(capacities[count - 1] == more[count - 1]);
    }
}

/// A drawn request takes the room for its strokes and, for each stroke that is added, the room for its
/// samples.
pub proof fn law_request_memory_adds_up(
    stroke_capacity: int,
    stroke_bytes: int,
    sample_capacities: Seq<usize>,
    sample_bytes: int,
    added: usize,
)
    ensures
        request_memory(stroke_capacity, stroke_bytes, sample_capacities.push(added), sample_bytes) == request_memory(
            stroke_capacity,
            stroke_bytes,
            sample_capacities,
            sample_bytes,
        ) + added * sample_bytes,
        request_memory(stroke_capacity, stroke_bytes, Seq::empty(), sample_bytes) == stroke_capacity * stroke_bytes,
{
    law_list_memory_adds_up(sample_capacities, added);
    let before = capacity_sum(sample_capacities, sample_capacities.len() as int);
    assert((before + added) * sample_bytes == before * sample_bytes + added * sample_bytes) by (nonlinear_arith);
    assert(0 * sample_bytes == 0) by (nonlinear_arith);
}

/// Paths take, for each path that is added, the room for its figures and the room for the segments of each
/// figure.
pub proof fn law_path_memory_adds_up(paths: Seq<PathStorage>, added: PathStorage, figure_bytes: int, segment_bytes: int)
    ensures
        paths_memory(paths.push(added), paths.len() + 1int, figure_bytes, segment_bytes) == paths_memory(
            paths,
            paths.len() as int,
            figure_bytes,
            segment_bytes,
        ) + added.figure_capacity * figure_bytes + capacity_sum(
            added.segment_capacities@,
            added.segment_capacities@.len() as int,
        ) * segment_bytes,
        paths_memory(paths, 0, figure_bytes, segment_bytes) == 0,
{
    lemma_paths_prefix(paths, paths.push(added), paths.len() as int, figure_bytes, segment_bytes);
}

proof fn lemma_paths_prefix(
    paths: Seq<PathStorage>,
    more: Seq<PathStorage>,
    count: int,
    figure_bytes: int,
    segment_bytes: int,
)
    requires
        0 <= count <= paths.len() <= more.len(),
        forall|i: int| 0 <= i < count ==> #[trigger] paths[i] == more[i],
    ensures
        paths_memory(paths, count, figure_bytes, segment_bytes) == paths_memory(
            more,
            count,
            figure_bytes,
            segment_bytes,
        ),
    decreases count,
{
    if count > 0 {
        lemma_paths_prefix(paths, more, count - 1, figure_bytes, segment_bytes);
        assert(paths[count - 1] == more[count - 1]);
    }
}

/// What is left of 64 MiB and what two things take are 64 MiB together.
pub proof fn law_memory_left_and_taken_are_all(first: int, second: int)
    ensures
        memory_left(first, second) + first + second == 67_108_864,
{
    assert(MAX_SURFACE_BYTES == 67_108_864);
}

/// A frame is found where it first stands, and is known exactly where it stands somewhere.
pub proof fn law_a_frame_is_found_where_it_first_stands(frames: Seq<FrameView>, id: FrameId, one: int, other: int)
    ensures
        first_at(frames, id, one) && first_at(frames, id, other) ==> one == other,
        first_at(frames, id, one) ==> 0 <= one < frames.len() && frames[one].id == id && has_frame(frames, id),
        0 <= one < frames.len() && frames[one].id == id ==> has_frame(frames, id) && (first_at(frames, id, other)
            ==> other <= one),
        !has_frame(frames, id) && 0 <= one < frames.len() ==> frames[one].id != id,
{
    if first_at(frames, id, one) && first_at(frames, id, other) {
        assert(frames[one].id == id && frames[other].id == id);
    }
    if 0 <= one < frames.len() && frames[one].id == id && first_at(frames, id, other) {
        assert(frames[one].id == id);
    }
}

proof fn lemma_segments_fit(base: int, lists: Seq<usize>, count: int, segment_bytes: int)
    requires
        0 <= count <= lists.len(),
        0 <= base <= usize::MAX,
        0 <= segment_bytes,
    ensures
        segment_fault(base, lists, count, segment_bytes) is None <==> base + capacity_sum(lists, count) * segment_bytes
            <= usize::MAX,
        0 <= capacity_sum(lists, count) * segment_bytes,
    decreases count,
{
    if count > 0 {
        lemma_segments_fit(base, lists, count - 1, segment_bytes);
        let before = capacity_sum(lists, count - 1);
        let last = lists[count - 1];
        assert((before + last) * segment_bytes == before * segment_bytes + last * segment_bytes) by (nonlinear_arith);
        assert(0 <= last * segment_bytes) by (nonlinear_arith)
            requires
                0 <= last,
                0 <= segment_bytes,
        ;
    } else {
        assert(0 * segment_bytes == 0) by (nonlinear_arith);
    }
}

/// A fault is told of paths exactly where what they take cannot be counted.
pub proof fn law_a_fault_is_told_where_memory_cannot_be_counted(
    path_capacity: int,
    element_bytes: int,
    paths: Seq<PathStorage>,
    count: int,
    figure_bytes: int,
    segment_bytes: int,
)
    requires
        0 <= path_capacity,
        0 <= element_bytes,
        0 <= figure_bytes,
        0 <= segment_bytes,
        0 <= count <= paths.len(),
    ensures
        path_fault(path_capacity, element_bytes, paths, count, figure_bytes, segment_bytes) is None <==> path_capacity
            * element_bytes + paths_memory(paths, count, figure_bytes, segment_bytes) <= usize::MAX,
        0 <= paths_memory(paths, count, figure_bytes, segment_bytes),
        0 <= path_capacity * element_bytes,
    decreases count,
{
    assert(0 <= path_capacity * element_bytes) by (nonlinear_arith)
        requires
            0 <= path_capacity,
            0 <= element_bytes,
    ;
    if count > 0 {
        law_a_fault_is_told_where_memory_cannot_be_counted(
            path_capacity,
            element_bytes,
            paths,
            count - 1,
            figure_bytes,
            segment_bytes,
        );
        let path = paths[count - 1];
        let figures = path.figure_capacity * figure_bytes;
        assert(0 <= figures) by (nonlinear_arith)
            requires
                figures == path.figure_capacity * figure_bytes,
                0 <= figure_bytes,
        ;
        let base = path_capacity * element_bytes + paths_memory(paths, count - 1, figure_bytes, segment_bytes)
            + figures;
        lemma_capacity_grows(path.segment_capacities@, 0, path.segment_capacities@.len() as int);
        let segments = capacity_sum(path.segment_capacities@, path.segment_capacities@.len() as int);
        assert(0 <= segments * segment_bytes) by (nonlinear_arith)
            requires
                0 <= segments,
                0 <= segment_bytes,
        ;
        if base <= usize::MAX {
            lemma_segments_fit(
                base,
                path.segment_capacities@,
                path.segment_capacities@.len() as int,
                segment_bytes,
            );
        }
    }
}

} // verus!
