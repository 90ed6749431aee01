//! Text: characters, white space, and numbers in decimal.

use vstd::prelude::*;
use vstd::string::*;

verus! {

/// `String::push` appends a character.
pub assume_specification[ String::push ](text: &mut String, character: char)
    ensures
        final(text)@ == old(text)@.push(character),
;

/// The words in which `String::from_utf8` says why bytes are no text. They name
/// the place of the first bytes that are none, and nothing but the bytes.
pub uninterp spec fn utf8_refusal(bytes: Seq<u8>) -> Seq<char>;

/// `String::from_utf8` gives the text that the bytes encode in UTF-8, and an
/// error, here in its own words, for exactly the bytes that encode none.
#[verifier::external_body]
pub(crate) fn text_from_utf8(bytes: Vec<u8>) -> (result: Result<String, String>)
    ensures
        result is Ok <==> vstd::utf8::valid_utf8(bytes@),
        match result {
            Ok(text) => text@ == vstd::utf8::decode_utf8(bytes@),
            Err(reason) => reason@ == utf8_refusal(bytes@),
        },
{
    match String::from_utf8(bytes) {
        Ok(text) => Ok(text),
        Err(error) => Err(error.to_string()),
    }
}

/// The characters of a text.
pub fn chars_of(text: &str) -> (characters: Vec<char>)
    ensures
        characters@ == text@,
{
    let mut characters: Vec<char> = Vec::new();
    for character in iter: text.chars()
        invariant
            iter.seq() == text@,
            characters@ == text@.take(iter.index() as int),
    {
        characters.push(character);
        assert(characters@ =~= text@.take(iter.index() + 1));
    }
    assert(characters@ =~= text@);
    characters
}

/// A text of these characters.
pub fn text_of(characters: &Vec<char>) -> (text: String)
    ensures
        text@ == characters@,
{
    let mut text = String::new();
    let mut index: usize = 0;
    while index < characters.len()
        invariant
            index <= characters.len(),
            text@ == characters@.take(index as int),
        decreases characters.len() - index,
    {
        text.push(characters[index]);
        assert(text@ =~= characters@.take(index + 1));
        index += 1;
    }
    assert(text@ =~= characters@);
    text
}

/// Both texts have the same characters.
pub fn same_text(a: &str, b: &str) -> (result: bool)
    ensures
        result == (a@ == b@),
{
    a.to_owned() == b.to_owned()
}

/// The character has Unicode's `White_Space` property.
pub open spec fn is_white_space(c: char) -> bool {
    ||| '\u{9}' <= c <= '\u{d}'
    ||| c == '\u{20}'
    ||| c == '\u{85}'
    ||| c == '\u{a0}'
    ||| c == '\u{1680}'
    ||| '\u{2000}' <= c <= '\u{200a}'
    ||| c == '\u{2028}'
    ||| c == '\u{2029}'
    ||| c == '\u{202f}'
    ||| c == '\u{205f}'
    ||| c == '\u{3000}'
}

fn white_space(c: char) -> (result: bool)
    ensures
        result == is_white_space(c),
{
    (c >= '\u{9}' && c <= '\u{d}') || c == '\u{20}' || c == '\u{85}' || c == '\u{a0}' || c
        == '\u{1680}' || (c >= '\u{2000}' && c <= '\u{200a}') || c == '\u{2028}' || c == '\u{2029}'
        || c == '\u{202f}' || c == '\u{205f}' || c == '\u{3000}'
}

/// All characters are white space.
pub open spec fn is_blank(text: Seq<char>) -> bool {
    forall|i: int| 0 <= i < text.len() ==> is_white_space(#[trigger] text[i])
}

/// The text neither begins nor ends with white space.
pub open spec fn is_tight(text: Seq<char>) -> bool {
    text.len() > 0 ==> !is_white_space(text[0]) && !is_white_space(text[text.len() - 1])
}

/// `from` and `to` are where the text without white space at its ends begins
/// and ends.
pub open spec fn are_tight_ends(text: Seq<char>, from: int, to: int) -> bool {
    &&& 0 <= from <= to <= text.len()
    &&& is_blank(text.take(from))
    &&& is_blank(text.skip(to))
    &&& is_tight(text.subrange(from, to))
    &&& from == to ==> from == text.len()
}

/// The text without white space at its ends.
pub open spec fn trimmed(text: Seq<char>) -> Seq<char> {
    let (from, to) = choose|from: int, to: int| are_tight_ends(text, from, to);
    text.subrange(from, to)
}

pub proof fn lemma_trimmed(text: Seq<char>, from: int, to: int)
    requires
        are_tight_ends(text, from, to),
    ensures
        trimmed(text) == text.subrange(from, to),
{
    let (a, b) = choose|a: int, b: int| are_tight_ends(text, a, b);
    assert(are_tight_ends(text, a, b));
    lemma_no_earlier_start(text, from, to, a, b);
    lemma_no_earlier_start(text, a, b, from, to);
    lemma_no_later_end(text, from, to, a, b);
    lemma_no_later_end(text, a, b, from, to);
}

proof fn lemma_no_earlier_start(text: Seq<char>, from: int, to: int, a: int, b: int)
    requires
        are_tight_ends(text, from, to),
        are_tight_ends(text, a, b),
    ensures
        from <= a,
{
    if a < from {
        assert(text.take(from)[a] == text[a]);
        assert(is_white_space(text[a]));
        if a < b {
            assert(text.subrange(a, b)[0] == text[a]);
        }
    }
}

proof fn lemma_no_later_end(text: Seq<char>, from: int, to: int, a: int, b: int)
    requires
        are_tight_ends(text, from, to),
        are_tight_ends(text, a, b),
        from == a,
    ensures
        b <= to,
{
    if to < b {
        assert(text.skip(to)[b - 1 - to] == text[b - 1]);
        assert(is_white_space(text[b - 1]));
        assert(text.subrange(a, b)[b - a - 1] == text[b - 1]);
    }
}

/// The text without white space at its ends.
pub fn trim(text: &str) -> (inner: &str)
    ensures
        inner@ == trimmed(text@),
{
    let characters = chars_of(text);
    let count: usize = characters.len();
    let mut from: usize = 0;
    while from < count && white_space(characters[from])
        invariant
            count == characters@.len(),
            characters@ == text@,
            from <= count,
            is_blank(text@.take(from as int)),
        decreases count - from,
    {
        assert forall|i: int| 0 <= i < from + 1 implies is_white_space(
            #[trigger] text@.take(from + 1)[i],
        ) by {
            if i < from {
                assert(is_white_space(text@.take(from as int)[i]));
            }
        }
        from += 1;
    }
    let mut to: usize = count;
    while to > from && white_space(characters[to - 1])
        invariant
            count == characters@.len(),
            characters@ == text@,
            from <= to <= count,
            from < count ==> from < to && !is_white_space(text@[from as int]),
            is_blank(text@.take(from as int)),
            is_blank(text@.skip(to as int)),
        decreases to,
    {
        assert forall|i: int| 0 <= i < count - (to - 1) implies is_white_space(
            #[trigger] text@.skip(to - 1)[i],
        ) by {
            if i > 0 {
                assert(is_white_space(text@.skip(to as int)[i - 1]));
            }
        }
        to -= 1;
    }
    proof {
        if from < to {
            assert(text@.subrange(from as int, to as int)[0] == text@[from as int]);
            assert(text@.subrange(from as int, to as int)[to - from - 1] == text@[to - 1]);
        }
        assert(are_tight_ends(text@, from as int, to as int));
        lemma_trimmed(text@, from as int, to as int);
    }
    text.substring_char(from, to)
}

/// A text without white space at its ends is left as it is.
pub proof fn law_trimming_keeps_tight_text(text: Seq<char>)
    requires
        is_tight(text),
    ensures
        trimmed(text) == text,
{
    assert(text.subrange(0, text.len() as int) =~= text);
    assert(are_tight_ends(text, 0, text.len() as int));
    lemma_trimmed(text, 0, text.len() as int);
}

/// What was trimmed has no white space at its ends.
pub proof fn law_trimmed_text_is_tight(text: Seq<char>)
    ensures
        is_tight(trimmed(text)),
{
    lemma_tight_ends_exist(text, 0);
    let (a, b) = choose|a: int, b: int| are_tight_ends(text, a, b);
    assert(are_tight_ends(text, a, b));
}

proof fn lemma_tight_ends_exist(text: Seq<char>, from: int)
    requires
        0 <= from <= text.len(),
        is_blank(text.take(from)),
    ensures
        exists|a: int, b: int| are_tight_ends(text, a, b),
    decreases text.len() - from,
{
    if from == text.len() {
        assert(are_tight_ends(text, from, from));
    } else if is_white_space(text[from]) {
        assert forall|i: int| 0 <= i < from + 1 implies is_white_space(
            #[trigger] text.take(from + 1)[i],
        ) by {
            if i < from {
                assert(is_white_space(text.take(from)[i]));
            }
        }
        lemma_tight_ends_exist(text, from + 1);
    } else {
        lemma_tight_end_exists(text, from, text.len() as int);
    }
}

proof fn lemma_tight_end_exists(text: Seq<char>, from: int, to: int)
    requires
        0 <= from < to <= text.len(),
        is_blank(text.take(from)),
        !is_white_space(text[from]),
        is_blank(text.skip(to)),
    ensures
        exists|a: int, b: int| are_tight_ends(text, a, b),
    decreases to,
{
    assert(text.subrange(from, to)[0] == text[from]);
    assert(text.subrange(from, to)[to - from - 1] == text[to - 1]);
    if is_white_space(text[to - 1]) {
        assert forall|i: int| 0 <= i < text.len() - (to - 1) implies is_white_space(
            #[trigger] text.skip(to - 1)[i],
        ) by {
            if i > 0 {
                assert(is_white_space(text.skip(to)[i - 1]));
            }
        }
        lemma_tight_end_exists(text, from, to - 1);
    } else {
        assert(are_tight_ends(text, from, to));
    }
}

/// The character of a decimal digit.
pub open spec fn digit_char(digit: int) -> char {
    (0x30 + digit) as char
}

/// A number in decimal.
pub open spec fn decimal(n: nat) -> Seq<char>
    decreases n,
{
    if n < 10 {
        seq![digit_char(n as int)]
    } else {
        decimal(n / 10).push(digit_char((n % 10) as int))
    }
}

/// An integer in decimal, with a minus sign where it is negative.
pub open spec fn signed_decimal(value: int) -> Seq<char> {
    if value < 0 {
        seq!['-'] + decimal((-value) as nat)
    } else {
        decimal(value as nat)
    }
}

/// Why a text is not a number.
#[derive(Clone, Copy, Debug, PartialEq, Eq, Structural)]
pub enum NumberError {
    Empty,
    InvalidDigit,
    PosOverflow,
    NegOverflow,
}

impl NumberError {
    /// The error in words.
    pub open spec fn text(self) -> Seq<char> {
        match self {
            NumberError::Empty => "cannot parse integer from empty string"@,
            NumberError::InvalidDigit => "invalid digit found in string"@,
            NumberError::PosOverflow => "number too large to fit in target type"@,
            NumberError::NegOverflow => "number too small to fit in target type"@,
        }
    }

    /// The error in words.
    pub fn message(&self) -> (message: &'static str)
        ensures
            message@ == self.text(),
    {
        match *self {
            NumberError::Empty => "cannot parse integer from empty string",
            NumberError::InvalidDigit => "invalid digit found in string",
            NumberError::PosOverflow => "number too large to fit in target type",
            NumberError::NegOverflow => "number too small to fit in target type",
        }
    }
}

pub open spec fn is_digit(c: char) -> bool {
    '0' <= c <= '9'
}

/// The magnitude that `digits` continue `so_far` to, as long as it stays within
/// `limit`.
pub open spec fn magnitude(
    digits: Seq<char>,
    so_far: int,
    limit: int,
    overflow: NumberError,
) -> Result<int, NumberError>
    decreases digits.len(),
{
    if digits.len() == 0 {
        Ok(so_far)
    } else if !is_digit(digits[0]) {
        Err(NumberError::InvalidDigit)
    } else {
        let next = so_far * 10 + (digits[0] as int - 0x30);
        if next > limit {
            Err(overflow)
        } else {
            magnitude(digits.skip(1), next, limit, overflow)
        }
    }
}

/// What a text says as an integer between `-lowest` and `highest`: an optional
/// sign, then digits. A minus sign is taken only where there are negative
/// values.
pub open spec fn parsed_integer(text: Seq<char>, lowest: int, highest: int) -> Result<
    int,
    NumberError,
> {
    if text.len() == 0 {
        Err(NumberError::Empty)
    } else if text.len() == 1 && (text[0] == '+' || text[0] == '-') {
        Err(NumberError::InvalidDigit)
    } else if text[0] == '+' {
        magnitude(text.skip(1), 0, highest, NumberError::PosOverflow)
    } else if text[0] == '-' && lowest > 0 {
        match magnitude(text.skip(1), 0, lowest, NumberError::NegOverflow) {
            Ok(value) => Ok(-value),
            Err(error) => Err(error),
        }
    } else {
        magnitude(text, 0, highest, NumberError::PosOverflow)
    }
}

/// What a text says as a `u32`.
pub open spec fn parsed_u32(text: Seq<char>) -> Result<u32, NumberError> {
    match parsed_integer(text, 0, u32::MAX as int) {
        Ok(value) => Ok(value as u32),
        Err(error) => Err(error),
    }
}

/// What a text says as an `i32`.
pub open spec fn parsed_i32(text: Seq<char>) -> Result<i32, NumberError> {
    match parsed_integer(text, 0x8000_0000, 0x7fff_ffff) {
        Ok(value) => Ok(value as i32),
        Err(error) => Err(error),
    }
}

fn scan_digits(characters: &Vec<char>, start: usize, limit: u64, overflow: NumberError) -> (result:
    Result<u64, NumberError>)
    requires
        start <= characters@.len(),
        limit <= 0xffff_ffff,
    ensures
        match result {
            Ok(value) => magnitude(characters@.skip(start as int), 0, limit as int, overflow) == Ok::<
                int,
                NumberError,
            >(value as int) && value <= limit,
            Err(error) => magnitude(characters@.skip(start as int), 0, limit as int, overflow)
                == Err::<int, NumberError>(error),
        },
{
    let ghost expected = magnitude(characters@.skip(start as int), 0, limit as int, overflow);
    let mut index: usize = start;
    let mut value: u64 = 0;
    while index < characters.len()
        invariant
            start <= index <= characters@.len(),
            value <= limit <= 0xffff_ffff,
            expected == magnitude(characters@.skip(start as int), 0, limit as int, overflow),
            expected == magnitude(
                characters@.skip(index as int),
                value as int,
                limit as int,
                overflow,
            ),
        decreases characters@.len() - index,
    {
        let character = characters[index];
        proof {
            assert(characters@.skip(index as int)[0] == character);
            assert(characters@.skip(index as int).skip(1) =~= characters@.skip(index + 1));
        }
        if !(character >= '0' && character <= '9') {
            return Err(NumberError::InvalidDigit);
        }
        let next: u64 = value * 10 + (character as u64 - 0x30);
        if next > limit {
            return Err(overflow);
        }
        value = next;
        index += 1;
    }
    Ok(value)
}

/// Reads a `u32`.
pub fn parse_u32(text: &str) -> (result: Result<u32, NumberError>)
    ensures
        result == parsed_u32(text@),
{
    let characters = chars_of(text);
    let count: usize = characters.len();
    if count == 0 {
        return Err(NumberError::Empty);
    }
    let first = characters[0];
    if count == 1 && (first == '+' || first == '-') {
        return Err(NumberError::InvalidDigit);
    }
    let start: usize = if first == '+' {
        1
    } else {
        0
    };
    assert(characters@.skip(0) =~= characters@);
    match scan_digits(&characters, start, u32::MAX as u64, NumberError::PosOverflow) {
        Ok(value) => Ok(value as u32),
        Err(error) => Err(error),
    }
}

/// Reads an `i32`.
pub fn parse_i32(text: &str) -> (result: Result<i32, NumberError>)
    ensures
        result == parsed_i32(text@),
{
    let characters = chars_of(text);
    let count: usize = characters.len();
    if count == 0 {
        return Err(NumberError::Empty);
    }
    let first = characters[0];
    if count == 1 && (first == '+' || first == '-') {
        return Err(NumberError::InvalidDigit);
    }
    assert(characters@.skip(0) =~= characters@);
    if first == '-' {
        match scan_digits(&characters, 1, 0x8000_0000, NumberError::NegOverflow) {
            Ok(value) => Ok((-(value as i64)) as i32),
            Err(error) => Err(error),
        }
    } else {
        let start: usize = if first == '+' {
            1
        } else {
            0
        };
        match scan_digits(&characters, start, 0x7fff_ffff, NumberError::PosOverflow) {
            Ok(value) => Ok(value as i32),
            Err(error) => Err(error),
        }
    }
}

fn digit(value: u64) -> (character: char)
    requires
        value < 10,
    ensures
        character == digit_char(value as int),
{
    (0x30u8 + value as u8) as char
}

/// Appends a large number in decimal.
pub fn push_decimal_u128(text: &mut String, value: u128)
    ensures
        final(text)@ == old(text)@ + decimal(value as nat),
    decreases value,
{
    if value >= 10 {
        push_decimal_u128(text, value / 10);
    }
    text.push(digit((value % 10) as u64));
    proof {
        if value >= 10 {
            assert(text@ =~= old(text)@ + decimal((value / 10) as nat).push(
                digit_char((value % 10) as int),
            ));
        } else {
            assert(text@ =~= old(text)@ + seq![digit_char(value as int)]);
        }
    }
}

/// Appends a number in decimal.
pub fn push_decimal(text: &mut String, value: u64)
    ensures
        final(text)@ == old(text)@ + decimal(value as nat),
{
    push_decimal_u128(text, value as u128);
}

/// A number in decimal.
pub fn decimal_text(value: u64) -> (text: String)
    ensures
        text@ == decimal(value as nat),
{
    let mut text = String::new();
    push_decimal(&mut text, value);
    assert(text@ =~= decimal(value as nat));
    text
}

/// An integer in decimal.
pub fn signed_text(value: i32) -> (text: String)
    ensures
        text@ == signed_decimal(value as int),
{
    let mut text = String::new();
    if value < 0 {
        text.push('-');
        push_decimal(&mut text, (-(value as i64)) as u64);
        assert(text@ =~= seq!['-'] + decimal((-(value as int)) as nat));
    } else {
        push_decimal(&mut text, value as u64);
        assert(text@ =~= decimal(value as nat));
    }
    text
}

proof fn lemma_magnitude_of_pushed(
    digits: Seq<char>,
    last: char,
    so_far: int,
    limit: int,
    overflow: NumberError,
)
    ensures
        magnitude(digits.push(last), so_far, limit, overflow) == match magnitude(
            digits,
            so_far,
            limit,
            overflow,
        ) {
            Err(error) => Err::<int, NumberError>(error),
            Ok(value) => if !is_digit(last) {
                Err(NumberError::InvalidDigit)
            } else if value * 10 + (last as int - 0x30) > limit {
                Err(overflow)
            } else {
                Ok(value * 10 + (last as int - 0x30))
            },
        },
    decreases digits.len(),
{
    reveal_with_fuel(magnitude, 2);
    if digits.len() == 0 {
        assert(digits.push(last).skip(1) =~= Seq::<char>::empty());
    } else {
        assert(digits.push(last).skip(1) =~= digits.skip(1).push(last));
        if is_digit(digits[0]) {
            let next = so_far * 10 + (digits[0] as int - 0x30);
            lemma_magnitude_of_pushed(digits.skip(1), last, next, limit, overflow);
        }
    }
}

proof fn lemma_decimal_reads_back(n: nat, limit: int, overflow: NumberError)
    requires
        n <= limit,
    ensures
        magnitude(decimal(n), 0, limit, overflow) == Ok::<int, NumberError>(n as int),
        decimal(n).len() > 0,
        is_digit(decimal(n)[0]),
        is_digit(decimal(n)[decimal(n).len() - 1]),
    decreases n,
{
    reveal_with_fuel(magnitude, 2);
    if n >= 10 {
        lemma_decimal_reads_back(n / 10, limit, overflow);
        lemma_magnitude_of_pushed(
            decimal(n / 10),
            digit_char((n % 10) as int),
            0,
            limit,
            overflow,
        );
        assert(decimal(n)[0] == decimal(n / 10)[0]);
    } else {
        assert(seq![digit_char(n as int)].skip(1) =~= Seq::<char>::empty());
    }
}

/// A number in decimal reads back as the number, also with white space around
/// it taken off.
pub proof fn law_decimal_u32_round_trips(value: u32)
    ensures
        parsed_u32(decimal(value as nat)) == Ok::<u32, NumberError>(value),
        trimmed(decimal(value as nat)) == decimal(value as nat),
{
    lemma_decimal_reads_back(value as nat, u32::MAX as int, NumberError::PosOverflow);
    law_trimming_keeps_tight_text(decimal(value as nat));
}

/// An integer in decimal reads back as the integer, also with white space around
/// it taken off.
pub proof fn law_decimal_i32_round_trips(value: i32)
    ensures
        parsed_i32(signed_decimal(value as int)) == Ok::<i32, NumberError>(value),
        trimmed(signed_decimal(value as int)) == signed_decimal(value as int),
{
    if value < 0 {
        let n = (-(value as int)) as nat;
        lemma_decimal_reads_back(n, 0x8000_0000, NumberError::NegOverflow);
        assert(signed_decimal(value as int).skip(1) =~= decimal(n));
        assert(signed_decimal(value as int)[signed_decimal(value as int).len() - 1]
            == decimal(n)[decimal(n).len() - 1]);
    } else {
        lemma_decimal_reads_back(value as nat, 0x7fff_ffff, NumberError::PosOverflow);
    }
    law_trimming_keeps_tight_text(signed_decimal(value as int));
}

/// A number that may be missing, as it is shown.
pub open spec fn optional_decimal(value: Option<u64>) -> Seq<char> {
    match value {
        Some(number) => "Some("@ + decimal(number as nat) + ")"@,
        None => "None"@,
    }
}

/// Shows a number that may be missing at the end of `text`.
pub fn push_optional_decimal(text: &mut String, value: Option<u64>)
    ensures
        final(text)@ == old(text)@ + optional_decimal(value),
{
    match value {
        Some(number) => {
            text.append("Some(");
            push_decimal(text, number);
            text.append(")");
        },
        None => text.append("None"),
    }
    assert(text@ =~= old(text)@ + optional_decimal(value));
}

/// White space around a text is left out, and nothing inside it.
pub proof fn law_white_space_around_is_left_out(
    before: Seq<char>,
    inner: Seq<char>,
    after: Seq<char>,
)
    requires
        is_blank(before),
        is_blank(after),
        inner.len() > 0,
        is_tight(inner),
    ensures
        trimmed(before + inner + after) == inner,
{
    let text = before + inner + after;
    let from = before.len() as int;
    let to = from + inner.len();
    assert(text.take(from) =~= before);
    assert(text.skip(to) =~= after);
    assert(text.subrange(from, to) =~= inner);
    assert(are_tight_ends(text, from, to));
    lemma_trimmed(text, from, to);
}

/// Of the ASCII characters the space, the tabulators and the line ends are white
/// space, and no other.
pub proof fn law_ascii_white_space(c: char)
    requires
        (c as int) < 128,
    ensures
        is_white_space(c) <==> c == ' ' || c == '\t' || c == '\n' || c == '\r' || c as int == 11 || c
            as int == 12,
{
}

} // verus!
