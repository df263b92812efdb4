use vstd::prelude::*;
use vstd::string::*;
use vstd::utf8::*;
use crate::base64::{
    byte_or_zero, decode_codes, decoded, decoding_inverts_encoding, encode_codes, encoded, sextet,
    sextets_are_small, symbol_round_trip,
};
use crate::participant::{bytes_view, text_view};
use crate::text::push_char;

verus! {

/// The text whose characters have the given ASCII codes.
pub open spec fn as_text(codes: Seq<u8>) -> Seq<char> {
    codes.map_values(|code: u8| code as char)
}

/// The codes of the characters of a text.
pub open spec fn as_codes(text: Seq<char>) -> Seq<u8> {
    text.map_values(|c: char| c as u8)
}

/// The Base64 text of `data`.
pub open spec fn encoded_text(data: Seq<u8>) -> Seq<char> {
    as_text(encoded(data))
}

/// The bytes that a text stands for, or `None` where it is not canonical
/// Base64.
pub open spec fn decoded_text(text: Seq<char>) -> Option<Seq<u8>> {
    if is_ascii_chars(text) {
        decoded(as_codes(text))
    } else {
        None
    }
}

/// The boundary form of an optional attachment: the Base64 text of a
/// present one, nothing for an absent one.
pub open spec fn encoded_attachment(attachment: Option<Seq<u8>>) -> Option<Seq<char>> {
    match attachment {
        Some(data) => Some(encoded_text(data)),
        None => None,
    }
}

/// The optional attachment that a boundary form stands for: an absent
/// one for nothing, a present one for canonical Base64 text, and `None`
/// outside where the text is malformed.
pub open spec fn decoded_attachment(text: Option<Seq<char>>) -> Option<Option<Seq<u8>>> {
    match text {
        None => Some(None),
        Some(t) => match decoded_text(t) {
            Some(data) => Some(Some(data)),
            None => None,
        },
    }
}

/// An attachment arrived as text that is not canonical Base64.
#[derive(Clone, Copy, Debug, PartialEq, Eq, Structural)]
pub struct MalformedAttachment;

/// Every code of an encoding is that of an ASCII character.
pub proof fn encoding_is_ascii(data: Seq<u8>)
    ensures
        forall|j: int| 0 <= j < encoded(data).len() ==> #[trigger] encoded(data)[j] < 128,
        is_ascii_chars(encoded_text(data)),
        as_codes(encoded_text(data)) == encoded(data),
{
    let codes = encoded(data);
    assert forall|j: int| 0 <= j < codes.len() implies #[trigger] codes[j] < 128 by {
        let group = j / 4;
        sextets_are_small(
            byte_or_zero(data, 3 * group),
            byte_or_zero(data, 3 * group + 1),
            byte_or_zero(data, 3 * group + 2),
        );
        symbol_round_trip(
            sextet(
                byte_or_zero(data, 3 * group),
                byte_or_zero(data, 3 * group + 1),
                byte_or_zero(data, 3 * group + 2),
                j % 4,
            ),
        );
    }
    let text = encoded_text(data);
    assert forall|j: int| 0 <= j < text.len() implies '\0' <= #[trigger] text[j] <= '\u{7f}' by {
        assert(text[j] == codes[j] as char);
    }
    assert(as_codes(text) =~= codes) by {
        assert forall|j: int| 0 <= j < codes.len() implies as_codes(text)[j] == codes[j] by {
            assert(text[j] == codes[j] as char);
            assert(codes[j] < 128);
        }
    }
}

/// An attachment survives the boundary: its text decodes to the very same
/// bytes.
pub proof fn text_round_trip(data: Seq<u8>)
    ensures
        decoded_text(encoded_text(data)) == Some(data),
{
    encoding_is_ascii(data);
    decoding_inverts_encoding(data);
}

/// An optional attachment survives the boundary: a present one comes back
/// byte for byte, an absent one comes back absent.
pub proof fn attachment_round_trip(attachment: Option<Seq<u8>>)
    ensures
        decoded_attachment(encoded_attachment(attachment)) == Some(attachment),
        attachment is None <==> encoded_attachment(attachment) is None,
{
    match attachment {
        Some(data) => text_round_trip(data),
        None => {},
    }
}

/// Encodes bytes as Base64 text.
pub fn encode(data: &[u8]) -> (text: String)
    ensures
        text@ == encoded_text(data@),
{
    let codes = encode_codes(data);
    let mut text = String::new();
    let mut i: usize = 0;
    proof {
        encoding_is_ascii(data@);
    }
    while i < codes.len()
        invariant
            i <= codes.len(),
            codes@ == encoded(data@),
            forall|j: int| 0 <= j < codes@.len() ==> #[trigger] codes@[j] < 128,
            text@ == as_text(codes@.take(i as int)),
        decreases codes.len() - i,
    {
        push_char(&mut text, codes[i] as char);
        assert(text@ =~= as_text(codes@.take(i + 1)));
        i += 1;
    }
    assert(codes@.take(i as int) =~= codes@);
    text
}

/// Decodes Base64 text. Only canonical text is accepted.
pub fn decode(text: &str) -> (data: Option<Vec<u8>>)
    ensures
        match data {
            Some(bytes) => decoded_text(text@) == Some(bytes@),
            None => decoded_text(text@) is None,
        },
{
    if !text.is_ascii() {
        return None;
    }
    let codes = text.as_bytes();
    proof {
        is_ascii_chars_encode_utf8(text@);
        assert(codes@ =~= as_codes(text@));
    }
    decode_codes(codes)
}

/// The boundary form of an optional attachment.
pub fn encode_attachment(attachment: &Option<Vec<u8>>) -> (text: Option<String>)
    ensures
        text_view(text) == encoded_attachment(bytes_view(*attachment)),
{
    match attachment {
        Some(data) => Some(encode(data.as_slice())),
        None => None,
    }
}

/// Reads the boundary form of an optional attachment.
pub fn decode_attachment(text: &Option<String>) -> (attachment: Result<
    Option<Vec<u8>>,
    MalformedAttachment,
>)
    ensures
        match attachment {
            Ok(read) => decoded_attachment(text_view(*text)) == Some(bytes_view(read)),
            Err(_) => decoded_attachment(text_view(*text)) is None,
        },
{
    match text {
        None => Ok(None),
        Some(t) => match decode(t.as_str()) {
            Some(data) => Ok(Some(data)),
            None => Err(MalformedAttachment),
        },
    }
}

} // verus!
