//! Base64 texts and hexadecimal digits.

use base64::engine::general_purpose::{STANDARD, URL_SAFE_NO_PAD};
use base64::Engine;
use vstd::prelude::*;
use vstd::string::*;

verus! {

/// The number of bytes up to which a text is made of them. The text of that
/// many bytes still has a length that every target can count.
pub const MAX_ENCODABLE_BYTES: usize = 0x2000_0000;

/// The standard Base64 text of `bytes`, with padding.
pub uninterp spec fn standard_base64(bytes: Seq<u8>) -> Seq<char>;

/// The bytes that a standard Base64 text with padding stands for.
pub uninterp spec fn standard_base64_bytes(text: Seq<char>) -> Option<Seq<u8>>;

/// The URL-safe Base64 text of `bytes`, without padding.
pub uninterp spec fn url_base64(bytes: Seq<u8>) -> Seq<char>;

/// The bytes that a URL-safe Base64 text without padding stands for.
pub uninterp spec fn url_base64_bytes(text: Seq<char>) -> Option<Seq<u8>>;

/// All characters are printable ASCII other than the space, the quotation mark
/// and the backslash.
pub open spec fn is_plain(text: Seq<char>) -> bool {
    forall|i: int|
        0 <= i < text.len() ==> '\u{21}' <= #[trigger] text[i] <= '\u{7e}' && text[i] != '"'
            && text[i] != '\\'
}

#[verifier::external_type_specification]
#[verifier::external_body]
pub struct ExDecodeError(base64::DecodeError);

/// The bytes of a successful read.
pub open spec fn bytes_read(result: Result<Vec<u8>, base64::DecodeError>) -> Option<Seq<u8>> {
    match result {
        Ok(bytes) => Some(bytes@),
        Err(_) => None,
    }
}

/// Calls `Engine::encode` of `base64::engine::general_purpose::STANDARD`. The
/// text is a function of the bytes alone. It has four characters for every
/// three bytes or part of them, all of the Base64 alphabet or padding, and
/// decoding it gives the bytes back.
#[verifier::external_body]
pub(crate) fn encode_standard(bytes: &[u8]) -> (text: String)
    requires
        bytes@.len() <= MAX_ENCODABLE_BYTES,
    ensures
        text@ == standard_base64(bytes@),
        text@.len() == (bytes@.len() + 2) / 3 * 4,
        is_plain(text@),
        standard_base64_bytes(text@) == Some(bytes@),
{
    STANDARD.encode(bytes)
}

/// Calls `Engine::decode` of `base64::engine::general_purpose::STANDARD`. The
/// result is a function of the text alone.
#[verifier::external_body]
pub(crate) fn decode_standard(text: &str) -> (result: Result<Vec<u8>, base64::DecodeError>)
    ensures
        bytes_read(result) == standard_base64_bytes(text@),
{
    STANDARD.decode(text)
}

/// Calls `Engine::encode` of `base64::engine::general_purpose::URL_SAFE_NO_PAD`.
/// The text is a function of the bytes alone. It has at most four characters
/// for every three bytes or part of them, all of the URL-safe Base64 alphabet,
/// and decoding it gives the bytes back.
#[verifier::external_body]
pub(crate) fn encode_url(bytes: &[u8]) -> (text: String)
    requires
        bytes@.len() <= MAX_ENCODABLE_BYTES,
    ensures
        text@ == url_base64(bytes@),
        text@.len() <= (bytes@.len() + 2) / 3 * 4,
        is_plain(text@),
        url_base64_bytes(text@) == Some(bytes@),
{
    URL_SAFE_NO_PAD.encode(bytes)
}

/// Calls `Engine::decode` of `base64::engine::general_purpose::URL_SAFE_NO_PAD`.
/// The result is a function of the text alone.
#[verifier::external_body]
pub(crate) fn decode_url(text: &str) -> (result: Result<Vec<u8>, base64::DecodeError>)
    ensures
        bytes_read(result) == url_base64_bytes(text@),
{
    URL_SAFE_NO_PAD.decode(text)
}

/// A plain text takes one byte per character as UTF-8.
pub proof fn lemma_plain_text_length(text: Seq<char>)
    requires
        is_plain(text),
    ensures
        vstd::utf8::encode_utf8(text).len() == text.len(),
        vstd::utf8::is_ascii_chars(text),
{
    vstd::utf8::is_ascii_chars_encode_utf8(text);
}

/// The character of a hexadecimal digit, in upper case.
pub open spec fn upper_hex(digit: int) -> char {
    if digit < 10 {
        (0x30 + digit) as char
    } else {
        (0x41 + digit - 10) as char
    }
}

/// The character of a hexadecimal digit, in lower case.
pub open spec fn lower_hex(digit: int) -> char {
    if digit < 10 {
        (0x30 + digit) as char
    } else {
        (0x61 + digit - 10) as char
    }
}

pub fn upper_hex_digit(digit: u8) -> (character: char)
    requires
        digit < 16,
    ensures
        character == upper_hex(digit as int),
{
    if digit < 10 {
        (0x30 + digit) as char
    } else {
        (0x41 + (digit - 10)) as char
    }
}

pub fn lower_hex_digit(digit: u8) -> (character: char)
    requires
        digit < 16,
    ensures
        character == lower_hex(digit as int),
{
    if digit < 10 {
        (0x30 + digit) as char
    } else {
        (0x61 + (digit - 10)) as char
    }
}

/// Groups of two bytes in upper case hexadecimal, with a hyphen between them.
pub open spec fn hex_groups(bytes: Seq<u8>) -> Seq<char>
    decreases bytes.len(),
{
    if bytes.len() == 0 {
        Seq::empty()
    } else {
        let rest = hex_groups(bytes.drop_last());
        let separated = if bytes.len() > 1 && bytes.len() % 2 == 1 {
            rest.push('-')
        } else {
            rest
        };
        separated.push(upper_hex((bytes.last() / 16) as int)).push(
            upper_hex((bytes.last() % 16) as int),
        )
    }
}

/// The first `count` bytes as groups of two in upper case hexadecimal, with a
/// hyphen between them.
pub fn hex_group_text(bytes: &[u8; 32], count: usize) -> (text: String)
    requires
        count <= 32,
    ensures
        text@ == hex_groups(bytes@.take(count as int)),
{
    let mut text = String::new();
    let mut index: usize = 0;
    while index < count
        invariant
            index <= count <= 32,
            text@ == hex_groups(bytes@.take(index as int)),
        decreases count - index,
    {
        proof {
            assert(bytes@.take(index + 1).drop_last() =~= bytes@.take(index as int));
        }
        if index > 0 && index % 2 == 0 {
            text.push('-');
        }
        let byte: u8 = bytes[index];
        text.push(upper_hex_digit(byte / 16));
        text.push(upper_hex_digit(byte % 16));
        index += 1;
    }
    text
}

/// A number as four hexadecimal digits in lower case.
pub open spec fn hex_u16(value: u16) -> Seq<char> {
    seq![
        lower_hex((value / 4096) as int),
        lower_hex((value / 256 % 16) as int),
        lower_hex((value / 16 % 16) as int),
        lower_hex((value % 16) as int),
    ]
}

/// Writes a number as four hexadecimal digits at the end of `text`.
pub fn push_hex_u16(text: &mut String, value: u16)
    ensures
        final(text)@ == old(text)@ + hex_u16(value),
{
    text.push(lower_hex_digit((value / 4096) as u8));
    text.push(lower_hex_digit((value / 256 % 16) as u8));
    text.push(lower_hex_digit((value / 16 % 16) as u8));
    text.push(lower_hex_digit((value % 16) as u8));
    assert(text@ =~= old(text)@ + hex_u16(value));
}

} // verus!
