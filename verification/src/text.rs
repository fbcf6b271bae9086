//! Text building blocks: character classes, trimming, decimal numbers.
use vstd::prelude::*;

verus! {

/// `String::push`: the character ends up behind what the string held.
pub assume_specification[ String::push ](text: &mut String, ch: char)
    ensures
        final(text)@ == old(text)@.push(ch),
;

/// An ASCII letter or digit.
pub open spec fn is_alphanumeric(ch: char) -> bool {
    'a' <= ch <= 'z' || 'A' <= ch <= 'Z' || '0' <= ch <= '9'
}

/// The lower-case form of an ASCII upper-case letter; any other character as
/// it is.
pub open spec fn lower(ch: char) -> char {
    if 'A' <= ch <= 'Z' {
        (ch as u8 + 32) as char
    } else {
        ch
    }
}

/// Every character in lower case.
pub open spec fn lowered(text: Seq<char>) -> Seq<char> {
    text.map_values(|ch: char| lower(ch))
}

/// The characters of Unicode's `White_Space` property.
pub open spec fn is_white_space(ch: char) -> bool {
    ||| '\u{9}' <= ch <= '\u{d}'
    ||| ch == ' '
    ||| ch == '\u{85}'
    ||| ch == '\u{a0}'
    ||| ch == '\u{1680}'
    ||| '\u{2000}' <= ch <= '\u{200a}'
    ||| ch == '\u{2028}'
    ||| ch == '\u{2029}'
    ||| ch == '\u{202f}'
    ||| ch == '\u{205f}'
    ||| ch == '\u{3000}'
}

/// What is cut off at both ends of a text.
#[derive(Debug, Clone, Copy, PartialEq, Eq)]
pub enum Margin {
    Dashes,
    WhiteSpace,
}

impl Margin {
    pub open spec fn covers(self, ch: char) -> bool {
        match self {
            Margin::Dashes => ch == '-',
            Margin::WhiteSpace => is_white_space(ch),
        }
    }

    /// Whether the character belongs to the margin.
    pub fn is_margin(self, ch: char) -> (r: bool)
        ensures
            r == self.covers(ch),
    {
        match self {
            Margin::Dashes => ch == '-',
            Margin::WhiteSpace => {
                ('\u{9}' <= ch && ch <= '\u{d}') || ch == ' ' || ch == '\u{85}' || ch == '\u{a0}'
                    || ch == '\u{1680}' || ('\u{2000}' <= ch && ch <= '\u{200a}') || ch
                    == '\u{2028}' || ch == '\u{2029}' || ch == '\u{202f}' || ch == '\u{205f}' || ch
                    == '\u{3000}'
            },
        }
    }
}

/// The text without the margin characters in front.
pub open spec fn trimmed_front(text: Seq<char>, margin: Margin) -> Seq<char>
    decreases text.len(),
{
    if text.len() > 0 && margin.covers(text.first()) {
        trimmed_front(text.drop_first(), margin)
    } else {
        text
    }
}

/// The text without the margin characters at its end.
pub open spec fn trimmed_back(text: Seq<char>, margin: Margin) -> Seq<char>
    decreases text.len(),
{
    if text.len() > 0 && margin.covers(text.last()) {
        trimmed_back(text.drop_last(), margin)
    } else {
        text
    }
}

/// The text without the margin characters at either end.
pub open spec fn trimmed(text: Seq<char>, margin: Margin) -> Seq<char> {
    trimmed_back(trimmed_front(text, margin), margin)
}

/// The decimal digits of a number, without leading zeros.
pub open spec fn digits(number: nat) -> Seq<char>
    decreases number,
{
    let digit = (48 + number % 10) as char;
    if number < 10 {
        seq![digit]
    } else {
        digits(number / 10).push(digit)
    }
}

/// A number in decimal, with a minus sign where it is negative.
pub open spec fn decimal(number: int) -> Seq<char> {
    if number < 0 {
        seq!['-'] + digits((-number) as nat)
    } else {
        digits(number as nat)
    }
}

/// ASCII lower case of one character.
pub fn to_lower(ch: char) -> (r: char)
    ensures
        r == lower(ch),
{
    if 'A' <= ch && ch <= 'Z' {
        (ch as u8 + 32) as char
    } else {
        ch
    }
}

/// Whether the character is an ASCII letter or digit.
pub fn alphanumeric(ch: char) -> (r: bool)
    ensures
        r == is_alphanumeric(ch),
{
    ('a' <= ch && ch <= 'z') || ('A' <= ch && ch <= 'Z') || ('0' <= ch && ch <= '9')
}

/// The characters of a text, in order.
pub fn characters(text: &str) -> (r: Vec<char>)
    ensures
        r@ == text@,
{
    let mut out: Vec<char> = Vec::new();
    for ch in it: text.chars()
        invariant
            out@ == it.seq().take(it.index()),
            it.seq() == text@,
    {
        out.push(ch);
    }
    out
}

/// The text made of a range of characters.
pub fn text_of_range(chars: &Vec<char>, from: usize, to: usize) -> (r: String)
    requires
        from <= to <= chars@.len(),
    ensures
        r@ == chars@.subrange(from as int, to as int),
{
    let mut out = String::new();
    let mut i: usize = from;
    while i < to
        invariant
            from <= i <= to <= chars@.len(),
            out@ == chars@.subrange(from as int, i as int),
        decreases to - i,
    {
        out.push(chars[i]);
        i += 1;
    }
    out
}

proof fn trimmed_front_of(text: Seq<char>, start: int, margin: Margin)
    requires
        0 <= start <= text.len(),
        forall|i: int| 0 <= i < start ==> margin.covers(#[trigger] text[i]),
        start == text.len() || !margin.covers(text[start]),
    ensures
        trimmed_front(text, margin) == text.skip(start),
    decreases start,
{
    if start > 0 {
        let rest = text.drop_first();
        assert forall|i: int| 0 <= i < start - 1 implies margin.covers(#[trigger] rest[i]) by {
            assert(rest[i] == text[i + 1]);
        }
        assert(text.first() == text[0]);
        trimmed_front_of(rest, start - 1, margin);
        assert(rest.skip(start - 1) == text.skip(start));
    } else {
        assert(text.skip(0) == text);
    }
}

proof fn trimmed_back_of(text: Seq<char>, end: int, margin: Margin)
    requires
        0 <= end <= text.len(),
        forall|i: int| end <= i < text.len() ==> margin.covers(#[trigger] text[i]),
        end == 0 || !margin.covers(text[end - 1]),
    ensures
        trimmed_back(text, margin) == text.take(end),
    decreases text.len() - end,
{
    if end < text.len() {
        let rest = text.drop_last();
        assert(text.last() == text[text.len() - 1]);
        trimmed_back_of(rest, end, margin);
        assert(rest.take(end) == text.take(end));
    } else {
        assert(text.take(end) == text);
    }
}

/// Cuts the margin off at both ends.
pub fn trim(text: &str, margin: Margin) -> (r: String)
    ensures
        r@ == trimmed(text@, margin),
{
    let chars = characters(text);
    let mut start: usize = 0;
    while start < chars.len() && margin.is_margin(chars[start])
        invariant
            0 <= start <= chars@.len(),
            forall|i: int| 0 <= i < start ==> margin.covers(#[trigger] chars@[i]),
        decreases chars@.len() - start,
    {
        start += 1;
    }
    let mut end: usize = chars.len();
    while end > start && margin.is_margin(chars[end - 1])
        invariant
            start <= end <= chars@.len(),
            forall|i: int| end <= i < chars@.len() ==> margin.covers(#[trigger] chars@[i]),
        decreases end,
    {
        end -= 1;
    }
    proof {
        let rest = chars@.skip(start as int);
        trimmed_front_of(chars@, start as int, margin);
        trimmed_back_of(rest, end - start, margin);
        assert(rest.take(end - start) == chars@.subrange(start as int, end as int));
    }
    text_of_range(&chars, start, end)
}

/// The first characters of a text, at most `limit` of them.
pub fn prefix(text: &str, limit: usize) -> (r: String)
    ensures
        r@ == text@.take(if text@.len() < limit { text@.len() as int } else { limit as int }),
{
    let chars = characters(text);
    let to: usize = if chars.len() < limit {
        chars.len()
    } else {
        limit
    };
    text_of_range(&chars, 0, to)
}

/// Every character of a text in ASCII lower case.
pub fn to_lower_text(text: &str) -> (r: String)
    ensures
        r@ == lowered(text@),
{
    let chars = characters(text);
    let mut out = String::new();
    let mut i: usize = 0;
    while i < chars.len()
        invariant
            0 <= i <= chars@.len(),
            chars@ == text@,
            out@ == lowered(text@.take(i as int)),
        decreases chars@.len() - i,
    {
        out.push(to_lower(chars[i]));
        proof {
            assert(lowered(text@.take(i + 1)) =~= lowered(text@.take(i as int)).push(
                lower(text@[i as int]),
            ));
        }
        i += 1;
    }
    assert(text@.take(i as int) == text@);
    out
}

/// Writes a number in decimal.
fn digits_text(number: u64) -> (r: String)
    ensures
        r@ == digits(number as nat),
    decreases number,
{
    let mut out = if number < 10 {
        String::new()
    } else {
        digits_text(number / 10)
    };
    out.push((48 + (number % 10) as u8) as char);
    assert(out@ =~= digits(number as nat));
    out
}

/// Writes a signed number in decimal.
pub fn decimal_text(number: i64) -> (r: String)
    ensures
        r@ == decimal(number as int),
{
    if number < 0 {
        let magnitude: u64 = (-(number + 1)) as u64 + 1;
        let mut out = String::new();
        out.push('-');
        out.append(digits_text(magnitude).as_str());
        assert(out@ =~= decimal(number as int));
        out
    } else {
        digits_text(number as u64)
    }
}

/// Two texts behind one another.
pub fn joined(front: &str, back: &str) -> (r: String)
    ensures
        r@ == front@ + back@,
{
    let mut out = front.to_string();
    out.append(back);
    out
}

} // verus!
