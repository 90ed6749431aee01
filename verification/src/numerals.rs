//! What numbers and bytes are when they are written down.

use vstd::prelude::*;

use crate::text::NumberError;

verus! {

/// The digits '0' to '9' only, at least one.
pub open spec fn are_digits(text: Seq<char>) -> bool {
    text.len() > 0 && forall|i: int| 0 <= i < text.len() ==> '0' <= #[trigger] text[i] <= '9'
}

/// The value of digits behind a number, each place worth ten times the next.
pub open spec fn value_behind(number: int, digits: Seq<char>) -> int
    decreases digits.len(),
{
    if digits.len() == 0 {
        number
    } else {
        10 * value_behind(number, digits.drop_last()) + (digits.last() as int - '0' as int)
    }
}

/// A number is written with the digits that have its value, and without zeros in
/// front.
pub proof fn law_decimals_have_their_value(n: nat)
    ensures
        are_digits(crate::text::decimal(n)),
        value_behind(0, crate::text::decimal(n)) == n,
        n > 0 ==> crate::text::decimal(n)[0] != '0',
        n == 0 ==> crate::text::decimal(n) == seq!['0'],
    decreases n,
{
    let text = crate::text::decimal(n);
    reveal_with_fuel(value_behind, 2);
    if n < 10 {
        assert(text.drop_last() =~= Seq::<char>::empty());
        if n == 0 {
            assert(text =~= seq!['0']);
        }
    } else {
        let rest = crate::text::decimal(n / 10);
        law_decimals_have_their_value(n / 10);
        assert(text.drop_last() =~= rest);
        assert(text[0] == rest[0]);
        assert forall|i: int| 0 <= i < text.len() implies '0' <= #[trigger] text[i] <= '9' by {
            if i < rest.len() {
                assert(text[i] == rest[i]);
            }
        }
    }
}

/// A negative number has a minus sign in front of what is written for it without.
pub proof fn law_signed_decimals_have_their_sign(n: nat)
    ensures
        n > 0 ==> crate::text::signed_decimal(-(n as int)) == seq!['-'] + crate::text::decimal(n),
        crate::text::signed_decimal(n as int) == crate::text::decimal(n),
{
}

proof fn lemma_value_from_the_front(number: int, digits: Seq<char>)
    requires
        digits.len() > 0,
    ensures
        value_behind(number, digits) == value_behind(
            10 * number + (digits[0] as int - '0' as int),
            digits.skip(1),
        ),
    decreases digits.len(),
{
    reveal_with_fuel(value_behind, 2);
    if digits.len() == 1 {
        assert(digits.drop_last() =~= Seq::<char>::empty());
        assert(digits.skip(1) =~= Seq::<char>::empty());
    } else {
        lemma_value_from_the_front(number, digits.drop_last());
        assert(digits.drop_last().skip(1) =~= digits.skip(1).drop_last());
        assert(digits.skip(1).last() == digits.last());
    }
}

proof fn lemma_value_grows(number: int, digits: Seq<char>)
    requires
        number >= 0,
        forall|i: int| 0 <= i < digits.len() ==> '0' <= #[trigger] digits[i] <= '9',
    ensures
        value_behind(number, digits) >= number,
    decreases digits.len(),
{
    if digits.len() > 0 {
        let rest = digits.drop_last();
        assert forall|i: int| 0 <= i < rest.len() implies '0' <= #[trigger] rest[i] <= '9' by {
            assert(rest[i] == digits[i]);
        }
        lemma_value_grows(number, rest);
        assert('0' <= digits[digits.len() - 1] <= '9');
    }
}

proof fn lemma_magnitude(digits: Seq<char>, so_far: int, limit: int, overflow: NumberError)
    requires
        0 <= so_far <= limit,
    ensures
        ({
            let numeric = forall|i: int|
                0 <= i < digits.len() ==> '0' <= #[trigger] digits[i] <= '9';
            let value = value_behind(so_far, digits);
            let read = crate::text::magnitude(digits, so_far, limit, overflow);
            &&& numeric && value <= limit ==> read == Ok::<int, NumberError>(value)
            &&& numeric && value > limit ==> read == Err::<int, NumberError>(overflow)
            &&& !numeric ==> read is Err
        }),
    decreases digits.len(),
{
    let numeric = forall|i: int| 0 <= i < digits.len() ==> '0' <= #[trigger] digits[i] <= '9';
    if digits.len() > 0 {
        let rest = digits.skip(1);
        let next = so_far * 10 + (digits[0] as int - '0' as int);
        lemma_value_from_the_front(so_far, digits);
        assert forall|i: int| 0 <= i < rest.len() implies #[trigger] rest[i] == digits[i + 1] by {}
        if crate::text::is_digit(digits[0]) {
            if next <= limit {
                lemma_magnitude(rest, next, limit, overflow);
                if forall|i: int| 0 <= i < rest.len() ==> '0' <= #[trigger] rest[i] <= '9' {
                    assert forall|i: int| 0 <= i < digits.len() implies '0' <= #[trigger] digits[i]
                        <= '9' by {
                        if i > 0 {
                            assert(rest[i - 1] == digits[i]);
                        }
                    }
                }
                if numeric {
                    assert forall|i: int| 0 <= i < rest.len() implies '0' <= #[trigger] rest[i]
                        <= '9' by {
                        assert('0' <= digits[i + 1] <= '9');
                    }
                }
            } else if numeric {
                assert forall|i: int| 0 <= i < rest.len() implies '0' <= #[trigger] rest[i]
                    <= '9' by {
                    assert('0' <= digits[i + 1] <= '9');
                }
                lemma_value_grows(next, rest);
            }
        } else {
            assert(!('0' <= digits[0] <= '9'));
        }
    }
}

/// The text without a plus sign in front.
pub open spec fn without_plus(text: Seq<char>) -> Seq<char> {
    if text.len() > 1 && text[0] == '+' {
        text.skip(1)
    } else {
        text
    }
}

/// A text is a `u32` exactly where it is made of digits, behind a plus sign or not,
/// with a value that fits, and then it has that value.
pub proof fn law_numbers_are_read_by_their_digits(text: Seq<char>)
    ensures
        ({
            let digits = without_plus(text);
            let read = crate::text::parsed_u32(text);
            &&& read is Ok <==> are_digits(digits) && value_behind(0, digits) <= u32::MAX
            &&& read matches Ok(value) ==> value == value_behind(0, digits)
            &&& text.len() == 0 ==> read == Err::<u32, NumberError>(NumberError::Empty)
            &&& are_digits(digits) && value_behind(0, digits) > u32::MAX ==> read == Err::<
                u32,
                NumberError,
            >(NumberError::PosOverflow)
        }),
{
    let digits = without_plus(text);
    lemma_magnitude(digits, 0, u32::MAX as int, NumberError::PosOverflow);
    if text.len() == 1 && (text[0] == '+' || text[0] == '-') {
        assert(!('0' <= digits[0] <= '9'));
    }
    if are_digits(digits) {
        lemma_value_grows(0, digits);
    }
}

/// A text is an `i32` exactly where it is made of digits, behind a plus or a minus
/// sign or not, with a value that fits, and then it has that value, negative behind a
/// minus sign.
pub proof fn law_signed_numbers_are_read_by_their_digits(text: Seq<char>)
    ensures
        ({
            let digits = without_plus(text);
            let read = crate::text::parsed_i32(text);
            let negative = text.len() > 1 && text[0] == '-';
            &&& negative ==> (read is Ok <==> are_digits(text.skip(1)) && value_behind(
                0,
                text.skip(1),
            ) <= 0x8000_0000)
            &&& negative ==> (read matches Ok(value) ==> value == -value_behind(0, text.skip(1)))
            &&& !negative ==> (read is Ok <==> are_digits(digits) && value_behind(0, digits)
                <= i32::MAX)
            &&& !negative ==> (read matches Ok(value) ==> value == value_behind(0, digits))
        }),
{
    let digits = without_plus(text);
    lemma_magnitude(digits, 0, i32::MAX as int, NumberError::PosOverflow);
    lemma_magnitude(text.skip(1), 0, 0x8000_0000, NumberError::NegOverflow);
    if text.len() == 1 && (text[0] == '+' || text[0] == '-') {
        assert(!('0' <= digits[0] <= '9'));
    }
    if are_digits(digits) {
        lemma_value_grows(0, digits);
    }
    if text.len() > 1 && are_digits(text.skip(1)) {
        lemma_value_grows(0, text.skip(1));
    }
}

/// Hexadecimal digits up to nine are the decimal ones; the six after them are the
/// letters from a on, in upper or in lower case.
pub proof fn law_hexadecimal_digits(digit: int)
    requires
        0 <= digit < 16,
    ensures
        digit < 10 ==> crate::encoding::upper_hex(digit) as int == '0' as int + digit,
        digit < 10 ==> crate::encoding::lower_hex(digit) as int == '0' as int + digit,
        digit >= 10 ==> crate::encoding::upper_hex(digit) as int == 'A' as int + (digit - 10),
        digit >= 10 ==> crate::encoding::lower_hex(digit) as int == 'a' as int + (digit - 10),
{
}

/// In groups of two, each byte takes two digits, the higher one first, and every
/// second byte but the last is followed by a hyphen.
pub proof fn law_bytes_are_written_in_groups(bytes: Seq<u8>, index: int)
    requires
        0 <= index < bytes.len(),
    ensures
        ({
            let text = crate::encoding::hex_groups(bytes);
            let at = 2 * index + index / 2;
            &&& text.len() == 2 * bytes.len() + (bytes.len() - 1) / 2
            &&& text[at] == crate::encoding::upper_hex((bytes[index] / 16) as int)
            &&& text[at + 1] == crate::encoding::upper_hex((bytes[index] % 16) as int)
            &&& index % 2 == 0 && index > 0 ==> text[at - 1] == '-'
        }),
    decreases bytes.len(),
{
    let shorter = bytes.drop_last();
    if shorter.len() == 0 {
        assert(crate::encoding::hex_groups(shorter) =~= Seq::<char>::empty());
    } else if index < shorter.len() {
        law_bytes_are_written_in_groups(shorter, index);
    } else {
        law_bytes_are_written_in_groups(shorter, index - 1);
    }
}

/// A number of sixteen bits takes four digits, the highest first.
pub proof fn law_hexadecimal_numbers_have_their_value(
    value: u16,
    first: int,
    second: int,
    third: int,
    fourth: int,
)
    requires
        0 <= first < 16,
        0 <= second < 16,
        0 <= third < 16,
        0 <= fourth < 16,
        value == 4096 * first + 256 * second + 16 * third + fourth,
    ensures
        crate::encoding::hex_u16(value).len() == 4,
        crate::encoding::hex_u16(value)[0] == crate::encoding::lower_hex(first),
        crate::encoding::hex_u16(value)[1] == crate::encoding::lower_hex(second),
        crate::encoding::hex_u16(value)[2] == crate::encoding::lower_hex(third),
        crate::encoding::hex_u16(value)[3] == crate::encoding::lower_hex(fourth),
{
    let number = value as int;
    assert(number / 4096 == first);
    assert(number / 256 == 16 * first + second);
    assert((16 * first + second) % 16 == second);
    assert(number / 16 == 256 * first + 16 * second + third);
    assert((256 * first + 16 * second + third) % 16 == third);
    assert(number % 16 == fourth);
}

/// Values that do not fit become the end of the range that they lie beyond; others
/// stay as they are.
pub proof fn law_clamping_gives_the_nearest_value(value: int)
    ensures
        i64::MIN <= value <= i64::MAX ==> crate::saturating::clamp_i64(value) == value,
        value > i64::MAX ==> crate::saturating::clamp_i64(value) == i64::MAX,
        value < i64::MIN ==> crate::saturating::clamp_i64(value) == i64::MIN,
        i32::MIN <= value <= i32::MAX ==> crate::saturating::clamp_i32(value) == value,
        value > i32::MAX ==> crate::saturating::clamp_i32(value) == i32::MAX,
        value < i32::MIN ==> crate::saturating::clamp_i32(value) == i32::MIN,
{
}

/// Twice the half of a number is the number, or one nearer to zero.
pub proof fn law_halves_round_towards_zero(value: int)
    ensures
        value >= 0 ==> value - 1 <= 2 * crate::saturating::half(value) <= value,
        value <= 0 ==> value <= 2 * crate::saturating::half(value) <= value + 1,
{
}

} // verus!
