//! What holds of the text building blocks, character by character.
use vstd::prelude::*;

use crate::sink_laws::trimmed_is_a_part;
use crate::text::{
    decimal, decimal_text, digits, is_alphanumeric, lower, prefix, to_lower_text,
    trim, trimmed, Margin,
};

verus! {

/// The ASCII digits, capitals and small letters, by code point.
pub proof fn letters_and_digits_are_ascii(ch: char)
    ensures
        is_alphanumeric(ch) <==> (48 <= ch as u32 <= 57 || 65 <= ch as u32 <= 90 || 97 <= ch as u32
            <= 122),
{
}

/// Lower case moves a capital to the small letter of the same place in the
/// alphabet, and leaves every other character alone.
pub proof fn lower_case_moves_capitals_only(ch: char)
    ensures
        65 <= ch as u32 <= 90 ==> lower(ch) as u32 - 97 == ch as u32 - 65,
        !(65 <= ch as u32 <= 90) ==> lower(ch) == ch,
{
}

/// A text in lower case has the characters of the text, one for one, with the
/// capitals moved to the small letters.
pub proof fn lower_case_keeps_the_text(text: &str, r: String)
    requires
        call_ensures(to_lower_text, (text,), r),
    ensures
        r@.len() == text@.len(),
        forall|i: int|
            #![trigger r@[i]]
            0 <= i < text@.len() ==> if 65 <= text@[i] as u32 <= 90 {
                r@[i] as u32 == text@[i] as u32 + 32
            } else {
                r@[i] == text@[i]
            },
{
}

/// The margin of dashes is the dash; the margin of white space is what Unicode
/// lists as white space, by code point.
pub proof fn margins_by_code_point(ch: char)
    ensures
        Margin::Dashes.covers(ch) <==> ch as u32 == 45,
        Margin::WhiteSpace.covers(ch) <==> {
            ||| 9 <= ch as u32 <= 13
            ||| ch as u32 == 32
            ||| ch as u32 == 133
            ||| ch as u32 == 160
            ||| ch as u32 == 5760
            ||| 8192 <= ch as u32 <= 8202
            ||| ch as u32 == 8232
            ||| ch as u32 == 8233
            ||| ch as u32 == 8239
            ||| ch as u32 == 8287
            ||| ch as u32 == 12288
        },
{
}

/// Trimming loses nothing but margin: what is kept is one stretch of the text,
/// and every character before it and behind it belongs to the margin. A text
/// that no margin character begins or ends is kept whole.
pub proof fn trimming_loses_margin_only(text: &str, margin: Margin, r: String) -> (range: (int, int))
    requires
        call_ensures(trim, (text, margin), r),
    ensures
        0 <= range.0 <= range.1 <= text@.len(),
        r@ == text@.subrange(range.0, range.1),
        forall|i: int| 0 <= i < range.0 ==> margin.covers(#[trigger] text@[i]),
        forall|i: int| range.1 <= i < text@.len() ==> margin.covers(#[trigger] text@[i]),
        range.0 < range.1 ==> !margin.covers(text@[range.0]) && !margin.covers(text@[range.1 - 1]),
        text@.len() > 0 && !margin.covers(text@[0]) && !margin.covers(text@[text@.len() - 1])
            ==> r@ == text@,
{
    let range = trimmed_is_a_part(text@, margin);
    if text@.len() > 0 && !margin.covers(text@[0]) && !margin.covers(text@[text@.len() - 1]) {
        assert(range.0 == 0);
        assert(range.1 == text@.len());
        assert(text@.subrange(0, text@.len() as int) =~= text@);
    }
    range
}

/// A text that no margin character begins or ends is trimmed to itself.
pub proof fn text_without_margin_is_kept(text: Seq<char>, margin: Margin)
    requires
        text.len() > 0 ==> !margin.covers(text[0]) && !margin.covers(text[text.len() - 1]),
    ensures
        trimmed(text, margin) == text,
{
    let range = trimmed_is_a_part(text, margin);
    if text.len() > 0 {
        assert(range.0 == 0);
        assert(range.1 == text.len());
    }
    assert(text.subrange(0, text.len() as int) =~= text);
}

/// The front of a text is its first characters, as many as asked for or as it
/// has.
pub proof fn prefix_is_the_front(text: &str, limit: usize, r: String)
    requires
        call_ensures(prefix, (text, limit), r),
    ensures
        r@.len() <= text@.len(),
        r@.len() <= limit,
        r@.len() == text@.len() || r@.len() == limit,
        forall|i: int| 0 <= i < r@.len() ==> #[trigger] r@[i] == text@[i],
{
}

/// The number that the decimal digits stand for.
pub open spec fn value_of(text: Seq<char>) -> int
    decreases text.len(),
{
    if text.len() == 0 {
        0
    } else {
        10 * value_of(text.drop_last()) + (text.last() as int - 48)
    }
}

/// Whether the text is the number in decimal digits, without leading zeros.
pub open spec fn reads_as(text: Seq<char>, number: int) -> bool {
    &&& text.len() > 0
    &&& forall|i: int| 0 <= i < text.len() ==> 48 <= (#[trigger] text[i]) as u32 <= 57
    &&& text.len() > 1 ==> text[0] as u32 != 48
    &&& value_of(text) == number
}

proof fn digits_read_back(number: nat)
    ensures
        reads_as(digits(number), number as int),
        number > 0 ==> digits(number)[0] as u32 != 48,
    decreases number,
{
    if number >= 10 {
        digits_read_back(number / 10);
        let front = digits(number / 10);
        let digit = (48 + number % 10) as char;
        assert(digits(number) == front.push(digit));
        assert(front.push(digit).drop_last() =~= front);
        assert(front.push(digit)[0] == front[0]);
    } else {
        let text = digits(number);
        assert(text.drop_last() =~= Seq::empty());
        assert(value_of(text.drop_last()) == 0);
    }
}

/// A number in decimal reads back as that number: digits without leading zeros,
/// behind a minus sign where it is negative.
pub proof fn decimal_reads_back(number: int)
    ensures
        number >= 0 ==> reads_as(decimal(number), number),
        number < 0 ==> decimal(number).len() > 1 && decimal(number)[0] == '-' && reads_as(
            decimal(number).skip(1),
            -number,
        ),
{
    if number < 0 {
        digits_read_back((-number) as nat);
        assert(decimal(number).skip(1) =~= digits((-number) as nat));
    } else {
        digits_read_back(number as nat);
    }
}

/// What is written for a number reads back as that number.
pub proof fn written_number_reads_back(number: i64, r: String)
    requires
        call_ensures(decimal_text, (number,), r),
    ensures
        number >= 0 ==> reads_as(r@, number as int),
        number < 0 ==> r@.len() > 1 && r@[0] == '-' && reads_as(r@.skip(1), -number),
{
    decimal_reads_back(number as int);
}

} // verus!
