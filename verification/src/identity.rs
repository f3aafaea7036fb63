//! Fresh identities.
use vstd::prelude::*;

verus! {

/// Whether a number has the layout of a random UUID: its version bits hold four and its variant
/// bits hold two.
pub open spec fn is_random_uuid(value: u128) -> bool {
    value & 0xF000_C000_0000_0000_0000u128 == 0x4000_8000_0000_0000_0000u128
}

/// Draws a random number through `uuid::Uuid::new_v4` and `uuid::Uuid::as_u128`.
///
/// All that is claimed of the draw is the layout that a random UUID documents:
/// the version bits hold four and the variant bits hold two. Which of the numbers
/// of that layout comes is left to chance. The call does not return where the
/// operating system has no random numbers to give.
#[verifier::external_body]
fn random_number() -> (value: u128)
    ensures
        is_random_uuid(value),
{
    uuid::Uuid::new_v4().as_u128()
}

/// A random number with the layout of a random UUID, which is never zero.
pub fn draw() -> (value: u128)
    ensures
        is_random_uuid(value),
        value != 0,
{
    let value: u128 = random_number();
    assert(value != 0) by (bit_vector)
        requires
            value & 0xF000_C000_0000_0000_0000u128 == 0x4000_8000_0000_0000_0000u128,
    ;
    value
}

/// Whether `value` is one of `used`.
pub fn is_used(used: &Vec<u128>, value: u128) -> (found: bool)
    ensures
        found == used@.contains(value),
{
    let mut index: usize = 0;
    while index < used.len()
        invariant
            index <= used.len(),
            forall|i: int| 0 <= i < index ==> used@[i] != value,
        decreases used.len() - index,
    {
        if used[index] == value {
            assert(used@[index as int] == value);
            return true;
        }
        index += 1;
    }
    false
}

/// How many numbers have the layout of a random UUID.
pub open spec fn layout_size() -> int {
    0x400_0000_0000_0000_0000_0000_0000_0000
}

/// The place of a number of the layout among all of them: what is left without the version and
/// variant bits.
pub open spec fn rank_of(value: u128) -> u128 {
    (value & 0x3FFF_FFFF_FFFF_FFFFu128) | (((value >> 64u128) & 0xFFFu128) << 62u128) | ((value
        >> 80u128) << 74u128)
}

/// The number of the layout at a place.
pub open spec fn ranked(rank: u128) -> u128 {
    (rank & 0x3FFF_FFFF_FFFF_FFFFu128) | 0x4000_8000_0000_0000_0000u128 | (((rank >> 62u128)
        & 0xFFFu128) << 64u128) | ((rank >> 74u128) << 80u128)
}

/// The number of the layout at a place.
fn at_rank(rank: u128) -> (value: u128)
    ensures
        value == ranked(rank),
{
    (rank & 0x3FFF_FFFF_FFFF_FFFFu128) | 0x4000_8000_0000_0000_0000u128 | (((rank >> 62u128)
        & 0xFFFu128) << 64u128) | ((rank >> 74u128) << 80u128)
}

/// Places and numbers of the layout belong together one by one.
proof fn lemma_ranks(value: u128, rank: u128)
    ensures
        is_random_uuid(ranked(rank)),
        ranked(rank) != 0,
        rank < layout_size() ==> rank_of(ranked(rank)) == rank,
        rank_of(value) < layout_size(),
        is_random_uuid(value) ==> ranked(rank_of(value)) == value,
{
    let placed = ranked(rank);
    assert(placed & 0xF000_C000_0000_0000_0000u128 == 0x4000_8000_0000_0000_0000u128 && placed != 0)
        by (bit_vector)
        requires
            placed == (rank & 0x3FFF_FFFF_FFFF_FFFFu128) | 0x4000_8000_0000_0000_0000u128 | (((rank
                >> 62u128) & 0xFFFu128) << 64u128) | ((rank >> 74u128) << 80u128),
    ;
    assert(rank < 0x400_0000_0000_0000_0000_0000_0000_0000u128 ==> (placed
        & 0x3FFF_FFFF_FFFF_FFFFu128) | (((placed >> 64u128) & 0xFFFu128) << 62u128) | ((placed
        >> 80u128) << 74u128) == rank) by (bit_vector)
        requires
            placed == (rank & 0x3FFF_FFFF_FFFF_FFFFu128) | 0x4000_8000_0000_0000_0000u128 | (((rank
                >> 62u128) & 0xFFFu128) << 64u128) | ((rank >> 74u128) << 80u128),
    ;
    let found = rank_of(value);
    assert(found < 0x400_0000_0000_0000_0000_0000_0000_0000u128 && (value
        & 0xF000_C000_0000_0000_0000u128 == 0x4000_8000_0000_0000_0000u128 ==> (found
        & 0x3FFF_FFFF_FFFF_FFFFu128) | 0x4000_8000_0000_0000_0000u128 | (((found >> 62u128)
        & 0xFFFu128) << 64u128) | ((found >> 74u128) << 80u128) == value)) by (bit_vector)
        requires
            found == (value & 0x3FFF_FFFF_FFFF_FFFFu128) | (((value >> 64u128) & 0xFFFu128) << 62u128)
                | ((value >> 80u128) << 74u128),
    ;
}

/// The `step`th number of the layout after `start`, counting on from the smallest past the largest.
pub open spec fn counted(start: u128, step: int) -> u128 {
    ranked(((rank_of(start) + step) % layout_size()) as u128)
}

/// Counting less far than there are numbers never meets one twice.
proof fn lemma_counted_differ(start: u128, one: int, other: int)
    requires
        0 <= one < other < layout_size(),
    ensures
        counted(start, one) != counted(start, other),
{
    let size = layout_size();
    let base = rank_of(start) as int;
    lemma_ranks(start, 0);
    let a = (base + one) % size;
    let b = (base + other) % size;
    lemma_ranks(start, a as u128);
    lemma_ranks(start, b as u128);
    assert(a != b);
}

/// Some number among as many as are used, and one more, is free.
proof fn lemma_one_is_free(used: Seq<u128>, start: u128)
    requires
        used.len() < 0x1_0000_0000_0000_0000,
    ensures
        exists|step: int| 0 <= step <= used.len() && !used.contains(#[trigger] counted(start, step)),
{
    if forall|step: int| 0 <= step <= used.len() ==> used.contains(#[trigger] counted(start, step)) {
        let tried = Seq::new((used.len() + 1) as nat, |step: int| counted(start, step));
        assert forall|i: int, j: int| 0 <= i < tried.len() && 0 <= j < tried.len() && i != j implies tried[i]
            != tried[j] by {
            if i < j {
                lemma_counted_differ(start, i, j);
            } else {
                lemma_counted_differ(start, j, i);
            }
        }
        assert(tried.no_duplicates());
        tried.unique_seq_to_set();
        used.lemma_cardinality_of_set();
        assert(tried.to_set().subset_of(used.to_set())) by {
            assert forall|value: u128| tried.to_set().contains(value) implies used.to_set().contains(
                value,
            ) by {
                let step = choose|step: int| 0 <= step < tried.len() && tried[step] == value;
                assert(used.contains(counted(start, step)));
            }
        }
        vstd::set_lib::lemma_len_subset(tried.to_set(), used.to_set());
    }
}

/// Whether a number is the first free one of the layout, counting on from `start`.
pub open spec fn is_first_free(used: Seq<u128>, start: u128, value: u128) -> bool {
    exists|step: int|
        {
            &&& 0 <= step <= used.len()
            &&& value == #[trigger] counted(start, step)
            &&& forall|i: int| 0 <= i < step ==> used.contains(#[trigger] counted(start, i))
        }
}

/// The first free number of the layout of a random UUID, counting on from `start`.
pub fn first_free(used: &Vec<u128>, start: u128) -> (value: u128)
    requires
        is_random_uuid(start),
    ensures
        is_random_uuid(value),
        value != 0,
        !used@.contains(value),
        is_first_free(used@, start, value),
        !used@.contains(start) ==> value == start,
{
    let count: usize = used.len();
    let size: u128 = 0x400_0000_0000_0000_0000_0000_0000_0000;
    let mut rank: u128 = (start & 0x3FFF_FFFF_FFFF_FFFFu128) | (((start >> 64u128) & 0xFFFu128)
        << 62u128) | ((start >> 80u128) << 74u128);
    let mut value: u128 = start;
    let mut step: usize = 0;
    proof {
        lemma_ranks(start, rank);
    }
    while is_used(used, value)
        invariant
            count == used@.len(),
            step <= count,
            size == layout_size(),
            rank == (rank_of(start) + step) % layout_size(),
            value == counted(start, step as int),
            is_random_uuid(value),
            value != 0,
            counted(start, 0) == start,
            forall|i: int| 0 <= i < step ==> used@.contains(#[trigger] counted(start, i)),
        decreases count - step,
    {
        if step == count {
            proof {
                assert(used@.contains(counted(start, step as int)));
                lemma_one_is_free(used@, start);
                assert(false);
            }
        }
        rank = if rank + 1 == size {
            0
        } else {
            rank + 1
        };
        value = at_rank(rank);
        proof {
            lemma_ranks(start, rank);
            let base = rank_of(start) as int;
            assert((base + step + 1) % layout_size() == rank);
        }
        step += 1;
    }
    assert(is_first_free(used@, start, value));
    assert(!used@.contains(start) ==> step == 0);
    value
}

/// A random number with the layout of a random UUID that is not one of `used`.
///
/// A draw that is taken is drawn again. After as many draws as there are taken numbers, the next
/// free number after the last draw is taken, so that the search ends.
pub fn fresh_number(used: &Vec<u128>) -> (value: u128)
    ensures
        is_random_uuid(value),
        value != 0,
        !used@.contains(value),
{
    let mut value: u128 = draw();
    let mut again: usize = 0;
    while again < used.len() && is_used(used, value)
        invariant
            is_random_uuid(value),
        decreases used.len() - again,
    {
        value = draw();
        again += 1;
    }
    first_free(used, value)
}

/// An identity has four in its version bits and two in its variant bits.
pub proof fn law_the_layout_of_an_identity(value: u128)
    ensures
        is_random_uuid(value) <==> (value >> 76u128) & 0xFu128 == 4 && (value >> 62u128) & 3u128 == 2,
{
    assert(value & 0xF000_C000_0000_0000_0000u128 == 0x4000_8000_0000_0000_0000u128 <==> (value >> 76u128) & 0xFu128
        == 4 && (value >> 62u128) & 3u128 == 2) by (bit_vector);
}

proof fn lemma_rank_order(one: u128, other: u128)
    requires
        is_random_uuid(one),
        is_random_uuid(other),
    ensures
        one < other <==> rank_of(one) < rank_of(other),
{
    assert(one < other <==> ((one & 0x3FFF_FFFF_FFFF_FFFFu128) | (((one >> 64u128) & 0xFFFu128) << 62u128) | ((one
        >> 80u128) << 74u128)) < ((other & 0x3FFF_FFFF_FFFF_FFFFu128) | (((other >> 64u128) & 0xFFFu128) << 62u128) | ((
    other >> 80u128) << 74u128))) by (bit_vector)
        requires
            one & 0xF000_C000_0000_0000_0000u128 == 0x4000_8000_0000_0000_0000u128,
            other & 0xF000_C000_0000_0000_0000u128 == 0x4000_8000_0000_0000_0000u128,
    ;
}

/// Identities are counted on from a start in the order of their numbers: none lies between one and the
/// next, and after the largest comes the smallest.
pub proof fn law_identities_are_counted_in_order(start: u128, step: int, value: u128)
    requires
        is_random_uuid(start),
        is_random_uuid(value),
        0 <= step,
    ensures
        counted(start, 0) == start,
        is_random_uuid(counted(start, step)),
        counted(start, step) < counted(start, step + 1) ==> !(counted(start, step) < value < counted(start, step + 1)),
        !(counted(start, step) < counted(start, step + 1)) ==> value <= counted(start, step) && counted(start, step + 1)
            <= value,
{
    let size = layout_size();
    let base = rank_of(start) as int;
    lemma_ranks(start, 0);
    vstd::arithmetic::div_mod::lemma_small_mod(base as nat, size as nat);
    let a = (base + step) % size;
    let b = (base + step + 1) % size;
    vstd::arithmetic::div_mod::lemma_mod_bound(base + step, size);
    vstd::arithmetic::div_mod::lemma_mod_bound(base + step + 1, size);
    lemma_ranks(start, a as u128);
    lemma_ranks(start, b as u128);
    lemma_ranks(value, 0);
    let one = counted(start, step);
    let next = counted(start, step + 1);
    assert(rank_of(one) == a && rank_of(next) == b);
    assert(b == (if a + 1 < size {
        a + 1
    } else {
        0
    })) by {
        vstd::arithmetic::div_mod::lemma_add_mod_noop(base + step, 1, size);
        vstd::arithmetic::div_mod::lemma_small_mod(1, size as nat);
        if a + 1 < size {
            vstd::arithmetic::div_mod::lemma_small_mod((a + 1) as nat, size as nat);
        } else {
            vstd::arithmetic::div_mod::lemma_mod_self_0(size);
        }
    }
    lemma_rank_order(one, next);
    lemma_rank_order(one, value);
    lemma_rank_order(value, next);
    lemma_rank_order(next, value);
    lemma_rank_order(value, one);
}

/// The first free identity is the one that is reached first, counting on from the start.
pub proof fn law_the_first_free_identity_is_taken(used: Seq<u128>, start: u128, value: u128)
    requires
        is_first_free(used, start, value),
        !used.contains(value),
    ensures
        exists|step: int|
            0 <= step <= used.len() && value == #[trigger] counted(start, step) && forall|i: int|
                0 <= i < step ==> used.contains(#[trigger] counted(start, i)),
        is_random_uuid(start) && !used.contains(start) ==> value == start,
{
    let step = choose|step: int|
        {
            &&& 0 <= step <= used.len()
            &&& value == #[trigger] counted(start, step)
            &&& forall|i: int| 0 <= i < step ==> used.contains(#[trigger] counted(start, i))
        };
    assert(value == counted(start, step));
    if is_random_uuid(start) && !used.contains(start) && step > 0 {
        law_identities_are_counted_in_order(start, 0, start);
        assert(used.contains(counted(start, 0)));
    }
    if is_random_uuid(start) {
        law_identities_are_counted_in_order(start, 0, start);
    }
}

} // verus!
