//! Version numbers as file names: decimal digits, read and written.

use crate::text::string_from_chars;
use vstd::prelude::*;
use vstd::string::*;

verus! {

/// Whether `c` is one of the ten decimal digits.
pub open spec fn is_digit(c: char) -> bool {
    48 <= c as u32 <= 57
}

/// The number that a decimal digit stands for.
pub open spec fn digit_value(c: char) -> int {
    c as u32 - 48
}

/// The decimal digit that stands for `value`, which is below ten.
pub open spec fn digit_char(value: nat) -> char {
    (value + 48) as u8 as char
}

/// Whether `text` consists of decimal digits only.
pub open spec fn all_digits(text: Seq<char>) -> bool {
    forall|i: int| 0 <= i < text.len() ==> is_digit(#[trigger] text[i])
}

/// The number that a text of decimal digits stands for.
pub open spec fn digits_value(digits: Seq<char>) -> int
    decreases digits.len(),
{
    if digits.len() == 0 {
        0
    } else {
        digits_value(digits.drop_last()) * 10 + digit_value(digits.last())
    }
}

/// A name without the plus sign that may lead it.
pub open spec fn unsigned_part(name: Seq<char>) -> Seq<char> {
    if name.len() > 0 && name[0] == '+' {
        name.drop_first()
    } else {
        name
    }
}

/// The version that a file name stands for: the name is one or more decimal
/// digits, after an optional plus sign, and their value fits 32 bits. Any
/// other name stands for none.
pub open spec fn version_of(name: Seq<char>) -> Option<u32> {
    let digits = unsigned_part(name);
    if digits.len() > 0 && all_digits(digits) && digits_value(digits) <= u32::MAX {
        Some(digits_value(digits) as u32)
    } else {
        None
    }
}

/// The file name of a version: its decimal digits, without leading zeros.
pub open spec fn decimal(value: nat) -> Seq<char>
    decreases value,
{
    if value < 10 {
        seq![digit_char(value)]
    } else {
        decimal(value / 10).push(digit_char(value % 10))
    }
}

/// A longer text of digits stands for no smaller number than its beginning.
pub proof fn lemma_digits_value_grows(digits: Seq<char>, length: int)
    requires
        all_digits(digits),
        0 <= length <= digits.len(),
    ensures
        0 <= digits_value(digits.take(length)) <= digits_value(digits),
    decreases digits.len() - length,
{
    if length == digits.len() {
        assert(digits.take(length) =~= digits);
        lemma_digits_value_bounds(digits);
    } else {
        lemma_digits_value_grows(digits, length + 1);
        let longer = digits.take(length + 1);
        assert(longer.drop_last() =~= digits.take(length));
        assert(is_digit(digits[length]));
        assert(longer.last() == digits[length]);
        lemma_digits_value_bounds(digits.take(length));
    }
}

/// A text of digits stands for a number that is not negative.
pub proof fn lemma_digits_value_bounds(digits: Seq<char>)
    requires
        all_digits(digits),
    ensures
        digits_value(digits) >= 0,
    decreases digits.len(),
{
    if digits.len() > 0 {
        lemma_digits_value_bounds(digits.drop_last());
        assert(is_digit(digits.last()));
    }
}

/// The decimal digits of a number are digits, and they stand for that number.
pub proof fn lemma_decimal_value(value: nat)
    ensures
        decimal(value).len() >= 1,
        all_digits(decimal(value)),
        digits_value(decimal(value)) == value,
    decreases value,
{
    if value < 10 {
        let digits = decimal(value);
        assert(digits.drop_last() =~= Seq::<char>::empty());
        assert(digits_value(digits.drop_last()) == 0);
        assert(digits.last() == digit_char(value));
    } else {
        lemma_decimal_value(value / 10);
        let front = decimal(value / 10);
        let digits = front.push(digit_char(value % 10));
        assert(digits.drop_last() =~= front);
        assert(digits.last() == digit_char(value % 10));
        assert forall|i: int| 0 <= i < digits.len() implies is_digit(#[trigger] digits[i]) by {
            if i < front.len() {
                assert(digits[i] == front[i]);
            }
        }
    }
}

/// Reading a version's file name gives the version back.
pub proof fn lemma_version_of_decimal(version: u32)
    ensures
        version_of(decimal(version as nat)) == Some(version),
{
    lemma_decimal_value(version as nat);
    let name = decimal(version as nat);
    assert(is_digit(name[0]));
    assert(unsigned_part(name) == name);
}

/// Different versions have different file names.
pub proof fn lemma_decimal_injective(left: u32, right: u32)
    requires
        decimal(left as nat) == decimal(right as nat),
    ensures
        left == right,
{
    lemma_decimal_value(left as nat);
    lemma_decimal_value(right as nat);
}

/// Reads a file name as a version number.
///
/// The name is a version when it consists of one or more decimal digits,
/// possibly after a plus sign, and the number fits 32 bits.
pub fn parse_version(name: &str) -> (version: Option<u32>)
    ensures
        version == version_of(name@),
{
    let length: usize = name.unicode_len();
    let mut position: usize = 0;
    if length > 0 && name.get_char(0) == '+' {
        position = 1;
    }
    let start: usize = position;
    if position == length {
        return None;
    }
    let ghost digits = unsigned_part(name@);
    assert(digits =~= name@.subrange(start as int, length as int));
    let mut value: u64 = 0;
    while position < length
        invariant
            start <= position <= length,
            length == name@.len(),
            digits == unsigned_part(name@),
            digits == name@.subrange(start as int, length as int),
            all_digits(digits.take(position - start)),
            value == digits_value(digits.take(position - start)),
            value <= u32::MAX,
        decreases length - position,
    {
        let c: char = name.get_char(position);
        let code: u32 = c as u32;
        let ghost read = digits.take(position - start);
        let ghost longer = digits.take(position - start + 1);
        assert(digits[position - start] == c);
        if code < 48 || code > 57 {
            assert(!is_digit(digits[position - start]));
            return None;
        }
        proof {
            assert(longer.drop_last() =~= read);
            assert(longer.last() == c);
            assert forall|i: int| 0 <= i < longer.len() implies is_digit(#[trigger] longer[i]) by {
                if i < read.len() {
                    assert(longer[i] == read[i]);
                }
            }
        }
        let next: u64 = value * 10 + (code - 48) as u64;
        if next > 0xffff_ffff {
            proof {
                if all_digits(digits) {
                    lemma_digits_value_grows(digits, position - start + 1);
                }
            }
            return None;
        }
        value = next;
        position = position + 1;
    }
    assert(digits.take(position - start) =~= digits);
    Some(value as u32)
}

/// Writes a version number as a file name: its decimal digits.
pub fn render_version(version: u32) -> (name: String)
    ensures
        name@ == decimal(version as nat),
{
    let mut digits: Vec<char> = Vec::new();
    push_decimal(version, &mut digits);
    string_from_chars(digits)
}

/// Appends the decimal digits of `value` to `digits`.
fn push_decimal(value: u32, digits: &mut Vec<char>)
    ensures
        final(digits)@ == old(digits)@ + decimal(value as nat),
    decreases value,
{
    if value >= 10 {
        push_decimal(value / 10, digits);
    }
    let digit: u8 = (value % 10) as u8;
    digits.push((digit + 48) as char);
    proof {
        let before = old(digits)@;
        if value >= 10 {
            assert(final(digits)@ =~= before + decimal(value as nat / 10).push(
                digit_char(value as nat % 10),
            ));
        } else {
            assert(final(digits)@ =~= before + seq![digit_char(value as nat)]);
        }
    }
}

} // verus!
