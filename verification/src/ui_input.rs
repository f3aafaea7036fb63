//! Typed values out of what is written into text fields.
use crate::text;
use crate::text::{characters, join, number_in, trim};
use vstd::prelude::*;
use vstd::string::{StrSliceExecFns, StringExecFns};

verus! {

/// An integer type that a text field can hold.
pub trait InputNumber: Sized {
    /// Its smallest value.
    spec fn low() -> int;

    /// Its largest value.
    spec fn high() -> int;

    /// The value of the type that is a given number.
    spec fn of(number: int) -> Self;

    /// The smallest and the largest value.
    fn bounds() -> (bounds: (i128, i128))
        ensures
            bounds.0 == Self::low(),
            bounds.1 == Self::high(),
            -0x8000_0000_0000_0000 <= bounds.0 <= 0 <= bounds.1 <= 0xffff_ffff_ffff_ffff,
    ;

    /// The value of the type that is a given number.
    fn from_number(number: i128) -> (value: Self)
        requires
            Self::low() <= number <= Self::high(),
        ensures
            value == Self::of(number as int),
    ;
}

impl InputNumber for u8 {
    open spec fn low() -> int {
        0
    }

    open spec fn high() -> int {
        255
    }

    open spec fn of(number: int) -> u8 {
        number as u8
    }

    fn bounds() -> (bounds: (i128, i128)) {
        (0, 255)
    }

    fn from_number(number: i128) -> (value: u8) {
        number as u8
    }
}

impl InputNumber for u16 {
    open spec fn low() -> int {
        0
    }

    open spec fn high() -> int {
        65535
    }

    open spec fn of(number: int) -> u16 {
        number as u16
    }

    fn bounds() -> (bounds: (i128, i128)) {
        (0, 65535)
    }

    fn from_number(number: i128) -> (value: u16) {
        number as u16
    }
}

impl InputNumber for u32 {
    open spec fn low() -> int {
        0
    }

    open spec fn high() -> int {
        u32::MAX as int
    }

    open spec fn of(number: int) -> u32 {
        number as u32
    }

    fn bounds() -> (bounds: (i128, i128)) {
        (0, u32::MAX as i128)
    }

    fn from_number(number: i128) -> (value: u32) {
        number as u32
    }
}

impl InputNumber for u64 {
    open spec fn low() -> int {
        0
    }

    open spec fn high() -> int {
        u64::MAX as int
    }

    open spec fn of(number: int) -> u64 {
        number as u64
    }

    fn bounds() -> (bounds: (i128, i128)) {
        (0, u64::MAX as i128)
    }

    fn from_number(number: i128) -> (value: u64) {
        number as u64
    }
}

impl InputNumber for usize {
    open spec fn low() -> int {
        0
    }

    open spec fn high() -> int {
        usize::MAX as int
    }

    open spec fn of(number: int) -> usize {
        number as usize
    }

    fn bounds() -> (bounds: (i128, i128)) {
        (0, usize::MAX as i128)
    }

    fn from_number(number: i128) -> (value: usize) {
        number as usize
    }
}

impl InputNumber for i32 {
    open spec fn low() -> int {
        i32::MIN as int
    }

    open spec fn high() -> int {
        i32::MAX as int
    }

    open spec fn of(number: int) -> i32 {
        number as i32
    }

    fn bounds() -> (bounds: (i128, i128)) {
        (i32::MIN as i128, i32::MAX as i128)
    }

    fn from_number(number: i128) -> (value: i32) {
        number as i32
    }
}

impl InputNumber for i64 {
    open spec fn low() -> int {
        i64::MIN as int
    }

    open spec fn high() -> int {
        i64::MAX as int
    }

    open spec fn of(number: int) -> i64 {
        number as i64
    }

    fn bounds() -> (bounds: (i128, i128)) {
        (i64::MIN as i128, i64::MAX as i128)
    }

    fn from_number(number: i128) -> (value: i64) {
        number as i64
    }
}

/// What a text field holds: its number, or the words that reject it.
pub open spec fn input<T: InputNumber>(written: Seq<char>, label: Seq<char>) -> Result<T, Seq<char>> {
    let kept = text::trimmed(written);
    if kept.len() == 0 {
        Err(label + " is required"@)
    } else {
        match text::outcome(text::read_number(kept, T::low(), T::high())) {
            Ok(number) => Ok(T::of(number)),
            Err(fault) => Err("invalid "@ + label + ": "@ + fault.words()),
        }
    }
}

proof fn lemma_in_range(digits: Seq<char>, negative: bool, low: int, high: int)
    requires
        low <= 0 <= high,
    ensures
        text::read_digits(digits, negative, low, high) matches text::Parsed::Number(number) ==> low <= number
            <= high,
    decreases digits.len(),
{
    if digits.len() > 0 {
        lemma_in_range(digits.drop_last(), negative, low, high);
    }
}

/// Reads a number out of a text field.
pub fn parse_input<T: InputNumber>(written: &str, label: &str) -> (result: Result<T, String>)
    ensures
        text::told(result) == input::<T>(written@, label@),
{
    let kept = trim(written);
    let list = characters(kept);
    if list.len() == 0 {
        return Err(join(label, " is required"));
    }
    let bounds: (i128, i128) = T::bounds();
    match number_in(&list, bounds.0, bounds.1) {
        Ok(number) => {
            proof {
                lemma_in_range(list@, false, T::low(), T::high());
                lemma_in_range(list@.drop_first(), false, T::low(), T::high());
                lemma_in_range(list@.drop_first(), true, T::low(), T::high());
            }
            Ok(T::from_number(number))
        },
        Err(fault) => {
            let mut message = join("invalid ", label);
            message.append(": ");
            message.append(fault.text());
            Err(message)
        },
    }
}

/// A number that is written in decimal, with white space around it or not, is read as itself wherever it
/// is in range, and refused where it is not; blank input is asked for.
pub proof fn law_written_input_is_read<T: InputNumber>(written: Seq<char>, label: Seq<char>, number: int)
    requires
        T::low() <= 0 <= T::high(),
        0 <= number,
        text::trimmed(written) == text::decimal(number),
    ensures
        number <= T::high() ==> input::<T>(written, label) == Ok::<T, Seq<char>>(T::of(number)),
        number > T::high() ==> input::<T>(written, label) is Err,
{
    text::law_numbers_are_written_in_digits(number);
    let digits = text::decimal(number);
    if number <= T::high() {
        text::law_written_numbers_read_back(number, T::low(), T::high());
    } else {
        assert('0' <= digits[0]);
        text::law_digits_are_read_as_written(digits, false, T::low(), T::high());
        text::law_signs_are_read_before_digits(digits, T::low(), T::high());
    }
}

/// A negative number is read where negative numbers are allowed.
pub proof fn law_negative_input_is_read<T: InputNumber>(written: Seq<char>, label: Seq<char>, number: int)
    requires
        T::low() <= 0 <= T::high(),
        0 < number,
        text::trimmed(written) == seq!['-'] + text::decimal(number),
    ensures
        -number >= T::low() ==> input::<T>(written, label) == Ok::<T, Seq<char>>(T::of(-number)),
        -number < T::low() ==> input::<T>(written, label) is Err,
{
    text::law_numbers_are_written_in_digits(number);
    let digits = text::decimal(number);
    text::law_digits_are_read_as_written(digits, true, T::low(), T::high());
    text::law_signs_are_read_before_digits(digits, T::low(), T::high());
}

/// Nothing is read from blank input, whatever is asked for, and the message names what is required.
pub proof fn law_blank_input_is_required<T: InputNumber>(written: Seq<char>, label: Seq<char>)
    requires
        forall|i: int| 0 <= i < written.len() ==> text::is_white(#[trigger] written[i]),
    ensures
        input::<T>(written, label) == Err::<T, Seq<char>>(label + " is required"@),
{
    text::law_trimming_twice_changes_nothing(written);
}

/// The bounds of the numbers are those of their types, and a number in bounds is taken as it is.
pub proof fn law_numbers_have_the_bounds_of_their_types(number: int)
    ensures
        u8::low() == 0 && u8::high() == 0xff,
        u16::low() == 0 && u16::high() == 0xffff,
        u32::low() == 0 && u32::high() == 0xffff_ffff,
        u64::low() == 0 && u64::high() == 0xffff_ffff_ffff_ffff,
        usize::low() == 0 && usize::high() == usize::MAX,
        i32::low() == -0x8000_0000 && i32::high() == 0x7fff_ffff,
        i64::low() == -0x8000_0000_0000_0000 && i64::high() == 0x7fff_ffff_ffff_ffff,
        0 <= number <= 0xff ==> u8::of(number) == number,
        0 <= number <= 0xffff ==> u16::of(number) == number,
        0 <= number <= 0xffff_ffff ==> u32::of(number) == number,
        0 <= number <= 0xffff_ffff_ffff_ffff ==> u64::of(number) == number,
        0 <= number <= usize::MAX ==> usize::of(number) == number,
        -0x8000_0000 <= number <= 0x7fff_ffff ==> i32::of(number) == number,
        -0x8000_0000_0000_0000 <= number <= 0x7fff_ffff_ffff_ffff ==> i64::of(number) == number,
{
}

/// Whether an input field holds a number in decimal, with white space around it or not.
pub open spec fn holds(written: Seq<char>, number: int) -> bool {
    0 <= number && text::trimmed(written) == text::decimal(number)
}

} // verus!
