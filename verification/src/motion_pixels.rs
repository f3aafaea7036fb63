//! Pixel work of motion edits.
use vstd::prelude::*;
use vstd::arithmetic::div_mod::lemma_fundamental_div_mod_converse;
use vstd::set_lib::{lemma_int_range, set_int_range};
use crate::cancel::CancellationToken;
use crate::geometry::PhysicalRect;
use crate::surface::RgbaSurface;

verus! {

/// The message of a motion edit that was stopped.
pub open spec fn stopped() -> Seq<char> {
    "Motion edit cancelled before commit; the timeline is unchanged."@
}

/// Fails where the edit has been asked to stop.
pub fn check_cancelled<C: CancellationToken>(cancellation: &C) -> (result: Result<(), String>)
    ensures
        match result {
            Ok(_) => !cancellation.must_cancel(),
            Err(message) => cancellation.may_cancel() && message@ == stopped(),
        },
{
    if cancellation.is_cancelled() {
        Err("Motion edit cancelled before commit; the timeline is unchanged.".to_owned())
    } else {
        Ok(())
    }
}

/// Whether two pictures agree in all four bytes of one pixel.
pub open spec fn pixel_equal(first: Seq<u8>, second: Seq<u8>, pixel: int) -> bool {
    &&& first[4 * pixel] == second[4 * pixel]
    &&& first[4 * pixel + 1] == second[4 * pixel + 1]
    &&& first[4 * pixel + 2] == second[4 * pixel + 2]
    &&& first[4 * pixel + 3] == second[4 * pixel + 3]
}

/// The number of pixels among the first `count` in which two pictures agree.
pub open spec fn equal_pixels(first: Seq<u8>, second: Seq<u8>, count: int) -> int
    decreases count,
{
    if count <= 0 {
        0
    } else {
        equal_pixels(first, second, count - 1) + if pixel_equal(first, second, count - 1) {
            1int
        } else {
            0
        }
    }
}

/// The picture after the baseline has been copied wherever lying in the region is `invert`.
pub open spec fn frozen(
    animated: Seq<u8>,
    baseline: Seq<u8>,
    width: int,
    region: PhysicalRect,
    invert: bool,
) -> Seq<u8> {
    Seq::new(
        animated.len(),
        |i: int|
            if region.holds((i / 4) % width, (i / 4) / width) == invert {
                baseline[i]
            } else {
                animated[i]
            },
    )
}

/// Whether at least `similarity_tenths` tenths of a percent of the pixels agree exactly.
pub fn matching_pixels_at_least<C: CancellationToken>(
    first: &RgbaSurface,
    second: &RgbaSurface,
    similarity_tenths: u16,
    cancellation: &C,
) -> (result: Result<bool, String>)
    requires
        first.wf(),
        second.wf(),
    ensures
        match result {
            Ok(enough) => {
                &&& first.size == second.size
                &&& cancellation.must_cancel() ==> first.size.pixel_count() == 0
                &&& enough == (equal_pixels(
                    first.pixels@,
                    second.pixels@,
                    first.size.pixel_count(),
                ) * 1000 >= first.size.pixel_count() * similarity_tenths)
            },
            Err(message) => {
                ||| first.size != second.size && message@
                    == "Loop search requires matching rendered dimensions. Normalize frame sizes first."@
                ||| first.size == second.size && cancellation.may_cancel() && message@ == stopped()
            },
        },
{
    if first.size != second.size {
        return Err(
            "Loop search requires matching rendered dimensions. Normalize frame sizes first."
                .to_owned(),
        );
    }
    let bytes: usize = first.pixels.len();
    let total: usize = bytes / 4;
    let mut equal: u64 = 0;
    let mut index: usize = 0;
    while index < total
        invariant
            index <= total,
            4 * total == bytes == first.pixels@.len() == second.pixels@.len(),
            total == first.size.pixel_count(),
            first.size == second.size,
            equal == equal_pixels(first.pixels@, second.pixels@, index as int),
            equal <= index,
            cancellation.must_cancel() ==> index == 0,
        decreases total - index,
    {
        if index % 1024 == 0 {
            check_cancelled(cancellation)?;
        }
        let at: usize = 4 * index;
        if first.pixels[at] == second.pixels[at] && first.pixels[at + 1] == second.pixels[at + 1]
            && first.pixels[at + 2] == second.pixels[at + 2] && first.pixels[at + 3]
            == second.pixels[at + 3] {
            equal = equal + 1;
        }
        index += 1;
    }
    assert(total * similarity_tenths <= 0xffff_ffff_ffff_ffff * 0xffff) by (nonlinear_arith)
        requires
            0 <= total <= 0xffff_ffff_ffff_ffff,
            0 <= similarity_tenths <= 0xffff,
    ;
    Ok((equal as u128) * 1000 >= (total as u128) * (similarity_tenths as u128))
}

/// Copies the baseline over the picture outside the region, or inside it where
/// `invert` is set.
pub fn freeze_rectangle<C: CancellationToken>(
    animated: &mut RgbaSurface,
    baseline: &RgbaSurface,
    region: PhysicalRect,
    invert: bool,
    cancellation: &C,
) -> (result: Result<(), String>)
    requires
        old(animated).wf(),
        baseline.wf(),
        old(animated).size == baseline.size,
        region.inside(baseline.size),
    ensures
        final(animated).wf(),
        final(animated).size == old(animated).size,
        match result {
            Ok(_) => {
                &&& cancellation.must_cancel() ==> baseline.size.height == 0
                &&& final(animated).pixels@ == frozen(
                    old(animated).pixels@,
                    baseline.pixels@,
                    baseline.size.width as int,
                    region,
                    invert,
                )
            },
            Err(message) => cancellation.may_cancel() && message@ == stopped(),
        },
{
    let ghost before = animated.pixels@;
    let width: u32 = animated.size.width;
    let height: u32 = animated.size.height;
    let left: u32 = region.origin.x;
    let right: u32 = left + region.size.width;
    let top: u32 = region.origin.y;
    let bottom: u32 = top + region.size.height;
    let ghost goal = frozen(before, baseline.pixels@, width as int, region, invert);
    let bytes: usize = animated.pixels.len();
    let mut row: u32 = 0;
    let mut base: usize = 0;
    while row < height
        invariant
            row <= height,
            base == 4 * (row * width),
            animated.size == baseline.size,
            baseline.size == old(animated).size,
            animated.size.width == width,
            animated.size.height == height,
            animated.wf(),
            baseline.wf(),
            before.len() == animated.pixels@.len() == bytes,
            goal == frozen(before, baseline.pixels@, width as int, region, invert),
            left == region.origin.x,
            right == left + region.size.width,
            top == region.origin.y,
            bottom == top + region.size.height,
            forall|i: int| 0 <= i < base ==> animated.pixels@[i] == goal[i],
            forall|i: int| base <= i < before.len() ==> animated.pixels@[i] == before[i],
            cancellation.must_cancel() ==> row == 0,
        decreases height - row,
    {
        check_cancelled(cancellation)?;
        let within = row >= top && row < bottom;
        let mut column: u32 = 0;
        let mut at: usize = base;
        assert((row + 1) * width == row * width + width) by (nonlinear_arith);
        assert((row + 1) * width <= height * width) by (nonlinear_arith)
            requires
                row < height,
        ;
        assert(height * width == width * height) by (nonlinear_arith);
        while column < width
            invariant
                column <= width,
                row < height,
                at == 4 * (row * width + column),
                at == base + 4 * column,
                (row + 1) * width == row * width + width,
                4 * ((row + 1) * width) <= animated.pixels@.len(),
                animated.size == baseline.size,
            baseline.size == old(animated).size,
                animated.size.width == width,
                animated.size.height == height,
                animated.wf(),
                baseline.wf(),
                before.len() == animated.pixels@.len() == bytes,
                goal == frozen(before, baseline.pixels@, width as int, region, invert),
                within == (row >= top && row < bottom),
                left == region.origin.x,
                right == left + region.size.width,
                top == region.origin.y,
                bottom == top + region.size.height,
                forall|i: int| 0 <= i < at ==> animated.pixels@[i] == goal[i],
                forall|i: int| at <= i < before.len() ==> animated.pixels@[i] == before[i],
                !cancellation.must_cancel(),
            decreases width - column,
        {
            let inside = within && column >= left && column < right;
            proof {
                let pixel = row * width + column;
                assert(pixel == width * row + column) by (nonlinear_arith)
                    requires
                        pixel == row * width + column,
                ;
                lemma_fundamental_div_mod_converse(
                    pixel,
                    width as int,
                    row as int,
                    column as int,
                );
                assert(inside == region.holds(column as int, row as int));
                assert forall|i: int| at <= i < at + 4 implies #[trigger] goal[i] == (if inside
                    == invert {
                    baseline.pixels@[i]
                } else {
                    before[i]
                }) by {
                    assert(i / 4 == pixel);
                }
            }
            if inside == invert {
                animated.pixels.set(at, baseline.pixels[at]);
                animated.pixels.set(at + 1, baseline.pixels[at + 1]);
                animated.pixels.set(at + 2, baseline.pixels[at + 2]);
                animated.pixels.set(at + 3, baseline.pixels[at + 3]);
            }
            at = at + 4;
            column = column + 1;
        }
        base = at;
        row = row + 1;
    }
    assert(width * height == height * width) by (nonlinear_arith);
    assert(animated.pixels@ =~= goal);
    Ok(())
}

/// Freezing a region and freezing all but that region together copy every pixel.
pub proof fn law_freezing_both_ways_copies_everything(
    animated: Seq<u8>,
    baseline: Seq<u8>,
    width: int,
    region: PhysicalRect,
)
    requires
        animated.len() == baseline.len(),
    ensures
        frozen(
            frozen(animated, baseline, width, region, true),
            baseline,
            width,
            region,
            false,
        ) == baseline,
{
    assert(frozen(
        frozen(animated, baseline, width, region, true),
        baseline,
        width,
        region,
        false,
    ) =~= baseline);
}

/// A picture agrees with itself in every pixel.
pub proof fn law_a_picture_matches_itself(pixels: Seq<u8>, count: int)
    requires
        0 <= count,
    ensures
        equal_pixels(pixels, pixels, count) == count,
    decreases count,
{
    if count > 0 {
        law_a_picture_matches_itself(pixels, count - 1);
    }
}

/// After freezing, the pixel in each column and row is the baseline's exactly where lying in the
/// rectangle, by column and by row, is `invert`, and the animated picture's elsewhere. What is above,
/// below, left or right of the rectangle is outside it.
pub proof fn law_freezing_parts_the_picture_at_the_rectangle(
    animated: Seq<u8>,
    baseline: Seq<u8>,
    width: int,
    height: int,
    region: PhysicalRect,
    invert: bool,
    x: int,
    y: int,
    byte: int,
)
    requires
        0 <= x < width,
        0 <= y < height,
        0 <= byte < 4,
        animated.len() == 4 * (width * height),
        baseline.len() == animated.len(),
    ensures
        ({
            let after = frozen(animated, baseline, width, region, invert);
            let at = 4 * (width * y + x) + byte;
            let left = region.origin.x as int;
            let top = region.origin.y as int;
            let right = left + region.size.width;
            let bottom = top + region.size.height;
            let above = y < top;
            let below = y >= bottom;
            let beside = x < left || x >= right;
            &&& after.len() == animated.len()
            &&& 0 <= at < animated.len()
            &&& !(above || below || beside) == invert ==> after[at] == baseline[at]
            &&& (above || below || beside) == invert ==> after[at] == animated[at]
        }),
{
    let pixel = width * y + x;
    let at = 4 * pixel + byte;
    assert(width * y == y * width) by (nonlinear_arith);
    lemma_fundamental_div_mod_converse(pixel, width, y, x);
    assert(0 <= pixel < width * height) by (nonlinear_arith)
        requires
            pixel == width * y + x,
            0 <= x < width,
            0 <= y < height,
    ;
    assert(at / 4 == pixel);
}

/// The pixels that are counted as equal are those whose four bytes are the same in both pictures:
/// the count is the number of places with the same red, green, blue and alpha.
pub proof fn law_equal_pixels_agree_in_every_byte(first: Seq<u8>, second: Seq<u8>, count: int)
    requires
        0 <= count,
        first.len() == 4 * count,
        second.len() == 4 * count,
    ensures
        ({
            let equal = set_int_range(0, count).filter(
                |pixel: int|
                    first.subrange(4 * pixel, 4 * pixel + 4) == second.subrange(4 * pixel, 4 * pixel + 4),
            );
            equal_pixels(first, second, count) == equal.len()
        }),
{
    lemma_equal_pixels_are_a_set(first, second, count, count);
}

/// The equal ones among the first pixels.
spec fn equal_set(first: Seq<u8>, second: Seq<u8>, upto: int) -> Set<int> {
    set_int_range(0, upto).filter(
        |pixel: int|
            first.subrange(4 * pixel, 4 * pixel + 4) == second.subrange(4 * pixel, 4 * pixel + 4),
    )
}

proof fn lemma_equal_pixels_are_a_set(first: Seq<u8>, second: Seq<u8>, upto: int, count: int)
    requires
        0 <= upto <= count,
        first.len() == 4 * count,
        second.len() == 4 * count,
    ensures
        equal_pixels(first, second, upto) == equal_set(first, second, upto).len(),
        equal_set(first, second, upto).finite(),
    decreases upto,
{
    lemma_int_range(0, upto);
    let now = equal_set(first, second, upto);
    assert(now.finite()) by {
        set_int_range(0, upto).lemma_len_filter(
            |pixel: int|
                first.subrange(4 * pixel, 4 * pixel + 4) == second.subrange(4 * pixel, 4 * pixel + 4),
        );
    }
    if upto > 0 {
        lemma_equal_pixels_are_a_set(first, second, upto - 1, count);
        let before = equal_set(first, second, upto - 1);
        let at = 4 * (upto - 1);
        let one = first.subrange(at, at + 4);
        let other = second.subrange(at, at + 4);
        assert(one == other <==> pixel_equal(first, second, upto - 1)) by {
            if pixel_equal(first, second, upto - 1) {
                assert(one =~= other);
            } else if one == other {
                assert(one[0] == other[0] && one[1] == other[1] && one[2] == other[2] && one[3] == other[3]);
            }
        }
        if one == other {
            assert(now =~= before.insert(upto - 1));
        } else {
            assert(now =~= before);
        }
    } else {
        assert(now =~= Set::empty());
    }
}

/// All pixels of two pictures count as equal exactly where the pictures have the same bytes, and the
/// order of the two does not matter.
pub proof fn law_only_identical_pictures_agree_everywhere(first: Seq<u8>, second: Seq<u8>, count: int)
    requires
        0 <= count,
        first.len() == 4 * count,
        second.len() == 4 * count,
    ensures
        equal_pixels(first, second, count) == count <==> first == second,
        equal_pixels(first, second, count) == equal_pixels(second, first, count),
        0 <= equal_pixels(first, second, count) <= count,
{
    lemma_agreeing(first, second, count);
    if equal_pixels(first, second, count) == count {
        assert(first =~= second) by {
            assert forall|i: int| 0 <= i < first.len() implies first[i] == second[i] by {
                let pixel = i / 4;
                assert(pixel_equal(first, second, pixel));
            }
        }
    }
    if first == second {
        law_a_picture_matches_itself(first, count);
    }
}

proof fn lemma_agreeing(first: Seq<u8>, second: Seq<u8>, count: int)
    requires
        0 <= count,
    ensures
        0 <= equal_pixels(first, second, count) <= count,
        equal_pixels(first, second, count) == equal_pixels(second, first, count),
        equal_pixels(first, second, count) == count ==> forall|pixel: int|
            0 <= pixel < count ==> #[trigger] pixel_equal(first, second, pixel),
    decreases count,
{
    if count > 0 {
        lemma_agreeing(first, second, count - 1);
    }
}

} // verus!
