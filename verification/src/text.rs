//! Reading and writing numbers as text.
use vstd::prelude::*;
use vstd::string::{StrSliceExecFns, StringExecFns};

verus! {

/// Whether a character is white space, as Unicode has it.
pub open spec fn is_white(c: char) -> bool {
    ||| 0x09 <= c as int <= 0x0d
    ||| c as int == 0x20
    ||| c as int == 0x85
    ||| c as int == 0xa0
    ||| c as int == 0x1680
    ||| 0x2000 <= c as int <= 0x200a
    ||| c as int == 0x2028
    ||| c as int == 0x2029
    ||| c as int == 0x202f
    ||| c as int == 0x205f
    ||| c as int == 0x3000
}

/// Whether a character is white space, as Unicode has it.
pub fn is_white_space(c: char) -> (white: bool)
    ensures
        white == is_white(c),
{
    let code: u32 = c as u32;
    (0x09 <= code && code <= 0x0d) || code == 0x20 || code == 0x85 || code == 0xa0 || code == 0x1680
        || (0x2000 <= code && code <= 0x200a) || code == 0x2028 || code == 0x2029 || code == 0x202f
        || code == 0x205f || code == 0x3000
}

/// The text without leading white space.
pub open spec fn trimmed_start(text: Seq<char>) -> Seq<char>
    decreases text.len(),
{
    if text.len() > 0 && is_white(text[0]) {
        trimmed_start(text.drop_first())
    } else {
        text
    }
}

/// The text without trailing white space.
pub open spec fn trimmed_end(text: Seq<char>) -> Seq<char>
    decreases text.len(),
{
    if text.len() > 0 && is_white(text.last()) {
        trimmed_end(text.drop_last())
    } else {
        text
    }
}

/// The text without white space at its ends.
pub open spec fn trimmed(text: Seq<char>) -> Seq<char> {
    trimmed_end(trimmed_start(text))
}

/// The characters of a text.
pub fn characters(text: &str) -> (list: Vec<char>)
    ensures
        list@ == text@,
{
    let mut list: Vec<char> = Vec::new();
    for c in rest: text.chars()
        invariant
            rest.seq() == text@,
            list@ == text@.take(rest.index() as int),
    {
        list.push(c);
    }
    list
}

proof fn lemma_trim_start(list: Seq<char>, count: int)
    requires
        0 <= count <= list.len(),
        forall|i: int| 0 <= i < count ==> is_white(list[i]),
    ensures
        trimmed_start(list) == trimmed_start(list.skip(count)),
    decreases count,
{
    if count == 0 {
        assert(list.skip(0) =~= list);
    } else {
        let rest = list.drop_first();
        assert forall|i: int| 0 <= i < count - 1 implies is_white(rest[i]) by {
            assert(rest[i] == list[i + 1]);
        }
        lemma_trim_start(rest, count - 1);
        assert(rest.skip(count - 1) =~= list.skip(count));
    }
}

proof fn lemma_trim_end(list: Seq<char>, count: int)
    requires
        0 <= count <= list.len(),
        forall|i: int| count <= i < list.len() ==> is_white(list[i]),
    ensures
        trimmed_end(list) == trimmed_end(list.take(count)),
    decreases list.len() - count,
{
    if count == list.len() {
        assert(list.take(count) =~= list);
    } else {
        let rest = list.drop_last();
        lemma_trim_end(rest, count);
        assert(rest.take(count) =~= list.take(count));
    }
}

/// The text without white space at its ends.
pub fn trim(text: &str) -> (kept: &str)
    ensures
        kept@ == trimmed(text@),
{
    let list = characters(text);
    let count: usize = list.len();
    let mut start: usize = 0;
    while start < count && is_white_space(list[start])
        invariant
            start <= count,
            count == list@.len(),
            forall|i: int| 0 <= i < start ==> is_white(list@[i]),
        decreases count - start,
    {
        start = start + 1;
    }
    proof {
        lemma_trim_start(list@, start as int);
    }
    let ghost rest = list@.skip(start as int);
    let mut end: usize = count;
    while end > start && is_white_space(list[end - 1])
        invariant
            start <= end <= count,
            count == list@.len(),
            rest == list@.skip(start as int),
            forall|i: int| end - start <= i < rest.len() ==> is_white(rest[i]),
        decreases end,
    {
        end = end - 1;
    }
    proof {
        lemma_trim_end(rest, end - start);
        assert(rest.take(end - start) =~= text@.subrange(start as int, end as int));
        if end > start {
            assert(rest.take(end - start).last() == list@[end - 1]);
            assert(rest[0] == list@[start as int]);
        }
    }
    text.substring_char(start, end)
}

/// The digit that stands for a number below ten.
pub open spec fn digit_char(digit: int) -> char {
    (0x30 + digit) as char
}

/// A number in decimal, without leading zeros.
pub open spec fn decimal(number: int) -> Seq<char>
    decreases number,
{
    if number < 10 {
        seq![digit_char(number)]
    } else {
        decimal(number / 10).push(digit_char(number % 10))
    }
}

/// The last digits of a number, as many as asked for.
pub open spec fn padded(number: int, width: nat) -> Seq<char>
    decreases width,
{
    if width == 0 {
        Seq::empty()
    } else {
        padded(number / 10, (width - 1) as nat).push(digit_char(number % 10))
    }
}

fn digit_text(digit: u8) -> (text: &'static str)
    requires
        digit < 10,
    ensures
        text@ == seq![digit_char(digit as int)],
{
    proof {
        reveal_strlit("0");
        reveal_strlit("1");
        reveal_strlit("2");
        reveal_strlit("3");
        reveal_strlit("4");
        reveal_strlit("5");
        reveal_strlit("6");
        reveal_strlit("7");
        reveal_strlit("8");
        reveal_strlit("9");
    }
    match digit {
        0 => "0",
        1 => "1",
        2 => "2",
        3 => "3",
        4 => "4",
        5 => "5",
        6 => "6",
        7 => "7",
        8 => "8",
        _ => "9",
    }
}

/// Writes a number in decimal.
pub fn append_decimal(out: &mut String, number: u64)
    ensures
        final(out)@ == old(out)@ + decimal(number as int),
    decreases number,
{
    if number >= 10 {
        append_decimal(out, number / 10);
    }
    out.append(digit_text((number % 10) as u8));
    assert(out@ =~= old(out)@ + decimal(number as int));
}

/// Writes the last digits of a number, with leading zeros.
pub fn append_padded(out: &mut String, number: u64, width: u8)
    ensures
        final(out)@ == old(out)@ + padded(number as int, width as nat),
    decreases width,
{
    if width > 0 {
        append_padded(out, number / 10, width - 1);
        out.append(digit_text((number % 10) as u8));
    }
    assert(out@ =~= old(out)@ + padded(number as int, width as nat));
}

/// What a text is as a number of some integer type.
pub enum Parsed {
    /// The number.
    Number(int),
    /// A character that is no digit, or no digit at all.
    InvalidDigit,
    /// Beyond the largest value of the type.
    TooLarge,
    /// Beyond the smallest value of the type.
    TooSmall,
}

/// The value of a digit, and -1 where the character is none.
pub open spec fn digit_value(c: char) -> int {
    if 0x30 <= c as int <= 0x39 {
        c as int - 0x30
    } else {
        -1
    }
}

/// A number taken into a range from `low` to `high`.
pub open spec fn bounded(number: int, low: int, high: int) -> Parsed {
    if number > high {
        Parsed::TooLarge
    } else if number < low {
        Parsed::TooSmall
    } else {
        Parsed::Number(number)
    }
}

/// A further digit behind what was read.
pub open spec fn read_digit(before: Parsed, digit: int, negative: bool, low: int, high: int) -> Parsed {
    match before {
        Parsed::Number(number) => if digit < 0 {
            Parsed::InvalidDigit
        } else {
            match bounded(number * 10, low, high) {
                Parsed::Number(shifted) => bounded(
                    if negative {
                        shifted - digit
                    } else {
                        shifted + digit
                    },
                    low,
                    high,
                ),
                other => other,
            }
        },
        other => other,
    }
}

/// What digits say, read from the left, where the first fault ends the reading.
pub open spec fn read_digits(digits: Seq<char>, negative: bool, low: int, high: int) -> Parsed
    decreases digits.len(),
{
    if digits.len() == 0 {
        Parsed::Number(0)
    } else {
        read_digit(
            read_digits(digits.drop_last(), negative, low, high),
            digit_value(digits.last()),
            negative,
            low,
            high,
        )
    }
}

/// What a text says: an optional sign, `-` only where the type has negative values, and digits.
pub open spec fn read_number(text: Seq<char>, low: int, high: int) -> Parsed {
    if text.len() == 0 {
        Parsed::InvalidDigit
    } else if text.len() == 1 && (text[0] == '+' || text[0] == '-') {
        Parsed::InvalidDigit
    } else if text[0] == '+' {
        read_digits(text.drop_first(), false, low, high)
    } else if text[0] == '-' && low < 0 {
        read_digits(text.drop_first(), true, low, high)
    } else {
        read_digits(text, false, low, high)
    }
}

/// Why a text is no number of a type.
#[derive(Clone, Copy, PartialEq, Eq, Debug, Structural)]
pub enum NumberFault {
    /// A character that is no digit, or no digit at all.
    InvalidDigit,
    /// Beyond the largest value of the type.
    TooLarge,
    /// Beyond the smallest value of the type.
    TooSmall,
}

impl NumberFault {
    /// The words for the fault.
    pub open spec fn words(self) -> Seq<char> {
        match self {
            NumberFault::InvalidDigit => "invalid digit found in string"@,
            NumberFault::TooLarge => "number too large to fit in target type"@,
            NumberFault::TooSmall => "number too small to fit in target type"@,
        }
    }

    /// The words for the fault.
    pub fn text(self) -> (words: &'static str)
        ensures
            words@ == self.words(),
    {
        match self {
            NumberFault::InvalidDigit => "invalid digit found in string",
            NumberFault::TooLarge => "number too large to fit in target type",
            NumberFault::TooSmall => "number too small to fit in target type",
        }
    }
}

/// What a reading gives a caller.
pub open spec fn outcome(parsed: Parsed) -> Result<int, NumberFault> {
    match parsed {
        Parsed::Number(number) => Ok(number),
        Parsed::InvalidDigit => Err(NumberFault::InvalidDigit),
        Parsed::TooLarge => Err(NumberFault::TooLarge),
        Parsed::TooSmall => Err(NumberFault::TooSmall),
    }
}

/// A result with its number as a mathematical integer.
pub open spec fn as_number(result: Result<i128, NumberFault>) -> Result<int, NumberFault> {
    match result {
        Ok(number) => Ok(number as int),
        Err(fault) => Err(fault),
    }
}

proof fn lemma_fault_stays(digits: Seq<char>, count: int, negative: bool, low: int, high: int)
    requires
        0 <= count <= digits.len(),
        !(read_digits(digits.take(count), negative, low, high) is Number),
    ensures
        read_digits(digits, negative, low, high) == read_digits(digits.take(count), negative, low, high),
    decreases digits.len() - count,
{
    if count == digits.len() {
        assert(digits.take(count) =~= digits);
    } else {
        assert(digits.take(count + 1).drop_last() =~= digits.take(count));
        lemma_fault_stays(digits, count + 1, negative, low, high);
    }
}

fn digit_of(c: char) -> (digit: i128)
    ensures
        digit == digit_value(c),
        -1 <= digit <= 9,
{
    let code: u32 = c as u32;
    if 0x30 <= code && code <= 0x39 {
        (code - 0x30) as i128
    } else {
        -1
    }
}

fn digits_from(list: &[char], start: usize, negative: bool, low: i128, high: i128) -> (result: Result<
    i128,
    NumberFault,
>)
    requires
        start <= list@.len(),
        -0x8000_0000_0000_0000 <= low <= 0 <= high <= 0xffff_ffff_ffff_ffff,
    ensures
        as_number(result) == outcome(
            read_digits(list@.skip(start as int), negative, low as int, high as int),
        ),
{
    let ghost digits = list@.skip(start as int);
    let mut number: i128 = 0;
    let mut at: usize = start;
    let count: usize = list.len();
    assert(digits.take(0) =~= Seq::empty());
    while at < count
        invariant
            start <= at <= count,
            count == list@.len(),
            digits == list@.skip(start as int),
            -0x8000_0000_0000_0000 <= low <= 0 <= high <= 0xffff_ffff_ffff_ffff,
            low <= number <= high,
            read_digits(digits.take(at - start), negative, low as int, high as int) == Parsed::Number(
                number as int,
            ),
        decreases count - at,
    {
        let c: char = list[at];
        let digit: i128 = digit_of(c);
        proof {
            assert(digits.take(at - start + 1).drop_last() =~= digits.take(at - start));
            assert(digits.take(at - start + 1).last() == c);
            assert(read_digits(digits.take(at - start + 1), negative, low as int, high as int)
                == read_digit(
                Parsed::Number(number as int),
                digit_value(c),
                negative,
                low as int,
                high as int,
            ));
            if !(read_digits(digits.take(at - start + 1), negative, low as int, high as int) is Number) {
                lemma_fault_stays(digits, at - start + 1, negative, low as int, high as int);
            }
        }
        if digit < 0 {
            return Err(NumberFault::InvalidDigit);
        }
        let shifted: i128 = number * 10;
        if shifted > high {
            return Err(NumberFault::TooLarge);
        }
        if shifted < low {
            return Err(NumberFault::TooSmall);
        }
        let next: i128 = if negative {
            shifted - digit
        } else {
            shifted + digit
        };
        if next > high {
            return Err(NumberFault::TooLarge);
        }
        if next < low {
            return Err(NumberFault::TooSmall);
        }
        number = next;
        at = at + 1;
    }
    assert(digits.take(at - start) =~= digits);
    Ok(number)
}

/// Reads a number between two bounds.
pub fn number_in(list: &[char], low: i128, high: i128) -> (result: Result<i128, NumberFault>)
    requires
        -0x8000_0000_0000_0000 <= low <= 0 <= high <= 0xffff_ffff_ffff_ffff,
    ensures
        as_number(result) == outcome(read_number(list@, low as int, high as int)),
{
    if list.len() == 0 {
        return Err(NumberFault::InvalidDigit);
    }
    let first: char = list[0];
    if list.len() == 1 && (first == '+' || first == '-') {
        return Err(NumberFault::InvalidDigit);
    }
    proof {
        assert(list@.skip(1) =~= list@.drop_first());
        assert(list@.skip(0) =~= list@);
    }
    if first == '+' {
        digits_from(list, 1, false, low, high)
    } else if first == '-' && low < 0 {
        digits_from(list, 1, true, low, high)
    } else {
        digits_from(list, 0, false, low, high)
    }
}

/// A result with the words of its error.
pub open spec fn told<T>(result: Result<T, String>) -> Result<T, Seq<char>> {
    match result {
        Ok(value) => Ok(value),
        Err(message) => Err(message@),
    }
}

/// A result whose value and error are taken by their views.
pub open spec fn seen<T: View>(result: Result<T, String>) -> Result<T::V, Seq<char>> {
    match result {
        Ok(value) => Ok(value@),
        Err(message) => Err(message@),
    }
}

/// Joins two texts.
pub fn join(first: &str, second: &str) -> (text: String)
    ensures
        text@ == first@ + second@,
{
    let mut text = first.to_owned();
    text.append(second);
    text
}

proof fn lemma_digit(digit: int)
    requires
        0 <= digit < 10,
    ensures
        digit_value(digit_char(digit)) == digit,
        digit_char(digit) != '+',
        digit_char(digit) != '-',
        !is_white(digit_char(digit)),
{
}

proof fn lemma_decimal_reads_back(number: int, low: int, high: int)
    requires
        low <= 0 <= number <= high,
    ensures
        read_digits(decimal(number), false, low, high) == Parsed::Number(number),
        decimal(number).len() > 0,
        exists|digit: int| 0 <= digit < 10 && decimal(number)[0] == #[trigger] digit_char(digit),
    decreases number,
{
    let written = decimal(number);
    if number < 10 {
        lemma_digit(number);
        assert(written.drop_last() =~= Seq::empty());
        assert(read_digits(written.drop_last(), false, low, high) == Parsed::Number(0));
        assert(written.last() == digit_char(number));
        assert(written[0] == digit_char(number));
    } else {
        lemma_decimal_reads_back(number / 10, low, high);
        lemma_digit(number % 10);
        assert(written.drop_last() =~= decimal(number / 10));
        assert(written.last() == digit_char(number % 10));
        assert(written[0] == decimal(number / 10)[0]);
    }
}

/// A number that is written in decimal is read as itself, wherever it is in range.
pub proof fn law_written_numbers_read_back(number: int, low: int, high: int)
    requires
        low <= 0 <= number <= high,
    ensures
        outcome(read_number(decimal(number), low, high)) == Ok::<int, NumberFault>(number),
{
    lemma_decimal_reads_back(number, low, high);
    let digit = choose|digit: int| 0 <= digit < 10 && decimal(number)[0] == #[trigger] digit_char(digit);
    lemma_digit(digit);
}

proof fn lemma_trimmed_start_part(text: Seq<char>) -> (from: int)
    ensures
        0 <= from <= text.len(),
        trimmed_start(text) == text.skip(from),
        forall|i: int| 0 <= i < from ==> is_white(#[trigger] text[i]),
        from < text.len() ==> !is_white(text[from]),
    decreases text.len(),
{
    if text.len() > 0 && is_white(text[0]) {
        let rest = text.drop_first();
        let from = lemma_trimmed_start_part(rest);
        assert(rest.skip(from) =~= text.skip(from + 1));
        assert forall|i: int| 0 <= i < from + 1 implies is_white(#[trigger] text[i]) by {
            if i > 0 {
                assert(text[i] == rest[i - 1]);
            }
        }
        from + 1
    } else {
        assert(text.skip(0) =~= text);
        0
    }
}

proof fn lemma_trimmed_end_part(text: Seq<char>) -> (to: int)
    ensures
        0 <= to <= text.len(),
        trimmed_end(text) == text.take(to),
        forall|i: int| to <= i < text.len() ==> is_white(#[trigger] text[i]),
        to > 0 ==> !is_white(text[to - 1]),
    decreases text.len(),
{
    if text.len() > 0 && is_white(text.last()) {
        let rest = text.drop_last();
        let to = lemma_trimmed_end_part(rest);
        assert(rest.take(to) =~= text.take(to));
        assert forall|i: int| to <= i < text.len() implies is_white(#[trigger] text[i]) by {
            if i < rest.len() {
                assert(text[i] == rest[i]);
            }
        }
        to
    } else {
        assert(text.take(text.len() as int) =~= text);
        text.len() as int
    }
}

/// Trimming takes the white space before and behind the rest away, and nothing else: what is left begins
/// and ends with something that is not white. Where it stood is given back.
pub proof fn law_trimming_takes_white_space_away(text: Seq<char>) -> (part: (int, int))
    ensures
        0 <= part.0 <= part.1 <= text.len(),
        trimmed(text) == text.subrange(part.0, part.1),
        forall|i: int| 0 <= i < part.0 ==> is_white(#[trigger] text[i]),
        forall|i: int| part.1 <= i < text.len() ==> is_white(#[trigger] text[i]),
        part.0 < part.1 ==> !is_white(text[part.0]) && !is_white(text[part.1 - 1]),
{
    let from = lemma_trimmed_start_part(text);
    let rest = text.skip(from);
    let to = lemma_trimmed_end_part(rest);
    assert(rest.take(to) =~= text.subrange(from, from + to));
    assert forall|i: int| from + to <= i < text.len() implies is_white(#[trigger] text[i]) by {
        assert(text[i] == rest[i - from]);
    }
    if to > 0 {
        assert(rest[0] == text[from]);
        assert(rest[to - 1] == text[from + to - 1]);
    }
    (from, from + to)
}

/// What is trimmed is trimmed for good, and blank text is left empty.
pub proof fn law_trimming_twice_changes_nothing(text: Seq<char>)
    ensures
        trimmed(trimmed(text)) == trimmed(text),
        trimmed(text).len() == 0 <==> forall|i: int| 0 <= i < text.len() ==> is_white(#[trigger] text[i]),
{
    let (from, to) = law_trimming_takes_white_space_away(text);
    let kept = trimmed(text);
    let (a, b) = law_trimming_takes_white_space_away(kept);
    if from < to {
        assert(kept[0] == text[from]);
        assert(kept[kept.len() - 1] == text[to - 1]);
        assert(!is_white(text[from]));
        if a > 0 {
            assert(is_white(kept[0]));
        }
        if b < kept.len() {
            assert(is_white(kept[kept.len() - 1]));
        }
        assert(kept.subrange(0, kept.len() as int) =~= kept);
    } else {
        assert(kept.len() == 0);
        assert(trimmed(kept) =~= kept);
        assert forall|i: int| 0 <= i < text.len() implies is_white(#[trigger] text[i]) by {
            if i < from {
            } else {
                assert(to <= i);
            }
        }
    }
}

/// Whether all characters are decimal digits.
pub open spec fn all_digits(digits: Seq<char>) -> bool {
    forall|i: int| 0 <= i < digits.len() ==> '0' <= #[trigger] digits[i] && digits[i] <= '9'
}

/// The number that decimal digits write.
pub open spec fn number_written(digits: Seq<char>) -> int
    decreases digits.len(),
{
    if digits.len() == 0 {
        0
    } else {
        10 * number_written(digits.drop_last()) + (digits.last() as int - '0' as int)
    }
}

proof fn lemma_number_written(digits: Seq<char>)
    requires
        all_digits(digits),
    ensures
        0 <= number_written(digits),
    decreases digits.len(),
{
    if digits.len() > 0 {
        assert forall|i: int| 0 <= i < digits.drop_last().len() implies '0' <= #[trigger] digits.drop_last()[i]
            && digits.drop_last()[i] <= '9' by {
            assert(digits[i] == digits.drop_last()[i]);
        }
        lemma_number_written(digits.drop_last());
        assert('0' <= digits[digits.len() - 1]);
    }
}

/// Digits are read as the number that they write, where it is within bounds, and anything but digits is
/// never read as a number.
pub proof fn law_digits_are_read_as_written(digits: Seq<char>, negative: bool, low: int, high: int)
    requires
        low <= 0 <= high,
    ensures
        read_digits(digits, negative, low, high) matches Parsed::Number(number) ==> all_digits(digits) && number == (
        if negative {
            -number_written(digits)
        } else {
            number_written(digits)
        }) && low <= number <= high,
        all_digits(digits) && (if negative {
            -number_written(digits) >= low
        } else {
            number_written(digits) <= high
        }) ==> read_digits(digits, negative, low, high) is Number,
        all_digits(digits) ==> !(read_digits(digits, negative, low, high) is InvalidDigit),
    decreases digits.len(),
{
    if digits.len() > 0 {
        let rest = digits.drop_last();
        law_digits_are_read_as_written(rest, negative, low, high);
        if all_digits(digits) {
            assert forall|i: int| 0 <= i < rest.len() implies '0' <= #[trigger] rest[i] && rest[i] <= '9' by {
                assert(digits[i] == rest[i]);
            }
            assert('0' <= digits[digits.len() - 1] && digits[digits.len() - 1] <= '9');
            lemma_number_written(rest);
        }
        if read_digits(digits, negative, low, high) is Number {
            assert(all_digits(digits)) by {
                assert forall|i: int| 0 <= i < digits.len() implies '0' <= #[trigger] digits[i] && digits[i] <= '9' by {
                    if i < rest.len() {
                        assert(rest[i] == digits[i]);
                    }
                }
            }
            lemma_number_written(rest);
        }
    }
}

proof fn lemma_digit_char(digit: int)
    requires
        0 <= digit < 10,
    ensures
        digit_char(digit) as int == 0x30 + digit,
        '0' <= digit_char(digit) && digit_char(digit) <= '9',
{
}

/// A number is written in digits that write it, without a leading zero where it is not a single digit.
pub proof fn law_numbers_are_written_in_digits(number: int)
    requires
        0 <= number,
    ensures
        all_digits(decimal(number)),
        number_written(decimal(number)) == number,
        decimal(number).len() > 0,
        number >= 10 ==> decimal(number).len() > 1 && decimal(number)[0] != '0',
        number < 10 ==> decimal(number).len() == 1,
        number > 0 ==> decimal(number)[0] != '0',
    decreases number,
{
    let written = decimal(number);
    if number < 10 {
        lemma_digit_char(number);
        assert(written.drop_last() =~= Seq::empty());
        assert(written.last() == digit_char(number));
        assert(number_written(written.drop_last()) == 0);
        assert(number_written(written) == 10 * 0 + number);
    } else {
        law_numbers_are_written_in_digits(number / 10);
        lemma_digit_char(number % 10);
        let rest = decimal(number / 10);
        assert(written.drop_last() =~= rest);
        assert forall|i: int| 0 <= i < written.len() implies '0' <= #[trigger] written[i] && written[i] <= '9' by {
            if i < rest.len() {
                assert(written[i] == rest[i]);
            }
        }
        assert(written[0] == rest[0]);
        assert(written.last() == digit_char(number % 10));
        assert(number_written(written) == 10 * number_written(rest) + number % 10);
    }
}

/// A number of bounded size is written in as many digits as are asked for, which write it.
pub proof fn law_padded_numbers_are_written_in_digits(number: int, width: nat)
    requires
        0 <= number,
    ensures
        padded(number, width).len() == width,
        all_digits(padded(number, width)),
        number_written(padded(number, width)) <= number,
        width == 3 && number < 1_000 ==> number_written(padded(number, width)) == number,
        width == 6 && number < 1_000_000 ==> number_written(padded(number, width)) == number,
    decreases width,
{
    lemma_padded(number, width);
    if width == 3 && number < 1_000 {
        reveal_with_fuel(padded, 4);
        reveal_with_fuel(number_written, 4);
        lemma_padded_value(number, 3);
        lemma_padded_value(number / 10, 2);
        lemma_padded_value(number / 100, 1);
    }
    if width == 6 && number < 1_000_000 {
        lemma_padded_value(number, 6);
        lemma_padded_value(number / 10, 5);
        lemma_padded_value(number / 10 / 10, 4);
        lemma_padded_value(number / 10 / 10 / 10, 3);
        lemma_padded_value(number / 10 / 10 / 10 / 10, 2);
        lemma_padded_value(number / 10 / 10 / 10 / 10 / 10, 1);
    }
}

proof fn lemma_padded_value(number: int, width: nat)
    requires
        0 <= number,
        width > 0,
    ensures
        number_written(padded(number, width)) == 10 * number_written(padded(number / 10, (width - 1) as nat)) + number
            % 10,
        number_written(padded(number, 0)) == 0,
{
    lemma_digit_char(number % 10);
    let written = padded(number, width);
    assert(written.drop_last() =~= padded(number / 10, (width - 1) as nat));
    assert(written.last() == digit_char(number % 10));
}

proof fn lemma_padded(number: int, width: nat)
    requires
        0 <= number,
    ensures
        padded(number, width).len() == width,
        all_digits(padded(number, width)),
        number_written(padded(number, width)) <= number,
    decreases width,
{
    if width > 0 {
        lemma_padded(number / 10, (width - 1) as nat);
        lemma_padded_value(number, width);
        lemma_digit_char(number % 10);
        let written = padded(number, width);
        let rest = padded(number / 10, (width - 1) as nat);
        assert forall|i: int| 0 <= i < written.len() implies '0' <= #[trigger] written[i] && written[i] <= '9' by {
            if i < rest.len() {
                assert(written[i] == rest[i]);
            }
        }
    }
}

/// Plain white space is the space, the tab and the line breaks; nothing that is printed is white.
pub proof fn law_what_is_plain_white_space(c: char)
    requires
        (c as int) < 0x80,
    ensures
        is_white(c) <==> c == ' ' || c == '\t' || c == '\n' || c == '\r' || c as int == 0x0b || c as int == 0x0c,
{
}

/// A sign before digits tells whether the number is negative; a minus is read only where negative numbers
/// are allowed.
pub proof fn law_signs_are_read_before_digits(digits: Seq<char>, low: int, high: int)
    requires
        low <= 0 <= high,
        digits.len() > 0,
    ensures
        read_number(seq!['+'] + digits, low, high) == read_digits(digits, false, low, high),
        low < 0 ==> read_number(seq!['-'] + digits, low, high) == read_digits(digits, true, low, high),
        low == 0 ==> !(read_number(seq!['-'] + digits, low, high) is Number),
        digits[0] != '+' && digits[0] != '-' ==> read_number(digits, low, high) == read_digits(
            digits,
            false,
            low,
            high,
        ),
        read_number(seq!['+'], low, high) is InvalidDigit,
        read_number(seq!['-'], low, high) is InvalidDigit,
        read_number(Seq::empty(), low, high) is InvalidDigit,
{
    assert((seq!['+'] + digits).drop_first() =~= digits);
    assert((seq!['-'] + digits).drop_first() =~= digits);
    let signed = seq!['-'] + digits;
    if low == 0 {
        law_digits_are_read_as_written(signed, false, low, high);
        assert(signed[0] == '-');
    }
}

} // verus!
