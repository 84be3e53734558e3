//! Hexadecimal text, by the `hex` crate.

use vstd::prelude::*;

verus! {

/// The digit for a value below sixteen.
pub open spec fn hex_digit(value: int, upper: bool) -> char {
    if value < 10 {
        (48 + value) as char
    } else if upper {
        (55 + value) as char
    } else {
        (87 + value) as char
    }
}

/// The value of a digit, of either case.
pub open spec fn hex_value(digit: char) -> Option<int> {
    let code = digit as int;
    if 48 <= code <= 57 {
        Some(code - 48)
    } else if 65 <= code <= 70 {
        Some(code - 55)
    } else if 97 <= code <= 102 {
        Some(code - 87)
    } else {
        None
    }
}

/// Two digits for each byte, the higher half first.
pub open spec fn hex_text(bytes: Seq<u8>, upper: bool) -> Seq<char> {
    Seq::new(
        2 * bytes.len(),
        |i: int|
            hex_digit(
                if i % 2 == 0 {
                    bytes[i / 2] as int / 16
                } else {
                    bytes[i / 2] as int % 16
                },
                upper,
            ),
    )
}

/// An even number of hexadecimal digits and nothing else.
pub open spec fn is_hex_text(text: Seq<char>) -> bool {
    &&& text.len() % 2 == 0
    &&& forall|i: int| 0 <= i < text.len() ==> hex_value(#[trigger] text[i]) is Some
}

/// The bytes that a hexadecimal text stands for.
pub open spec fn hex_bytes(text: Seq<char>) -> Seq<u8> {
    Seq::new(
        text.len() / 2,
        |i: int| (16 * hex_value(text[2 * i])->0 + hex_value(text[2 * i + 1])->0) as u8,
    )
}

#[verifier::external_type_specification]
#[verifier::external_body]
pub struct ExFromHexError(hex::FromHexError);

/// `hex::encode`: two lower case digits for each byte.
#[verifier::external_body]
pub(crate) fn encode(data: &[u8]) -> (res: String)
    ensures
        res@ == hex_text(data@, false),
{
    hex::encode(data)
}

/// `hex::encode_upper`: two upper case digits for each byte.
#[verifier::external_body]
pub(crate) fn encode_upper(data: &[u8]) -> (res: String)
    ensures
        res@ == hex_text(data@, true),
{
    hex::encode_upper(data)
}

/// `hex::decode`: the bytes of an even number of digits of either case, and an
/// error for any other text.
#[verifier::external_body]
pub(crate) fn decode(text: &str) -> (res: Result<Vec<u8>, hex::FromHexError>)
    ensures
        res is Ok <==> is_hex_text(text@),
        res is Ok ==> (res->Ok_0)@ == hex_bytes(text@),
{
    hex::decode(text)
}

/// `hex::decode_to_slice` on a sixteen byte buffer: it is filled from a text of
/// exactly 32 digits; any other text is an error.
#[verifier::external_body]
pub(crate) fn decode_key(text: &str) -> (res: Result<[u8; 16], hex::FromHexError>)
    ensures
        res is Ok <==> (is_hex_text(text@) && text@.len() == 32),
        res is Ok ==> (res->Ok_0)@ == hex_bytes(text@),
{
    let mut out = [0u8; 16];
    hex::decode_to_slice(text, &mut out)?;
    Ok(out)
}

/// Decoding gives back what was encoded, in either case of the digits.
pub proof fn law_hex_round_trip(bytes: Seq<u8>, upper: bool)
    ensures
        is_hex_text(hex_text(bytes, upper)),
        hex_bytes(hex_text(bytes, upper)) == bytes,
{
    let text = hex_text(bytes, upper);
    assert forall|i: int| 0 <= i < text.len() implies hex_value(#[trigger] text[i]) is Some by {
        assert(0 <= bytes[i / 2] as int / 16 < 16);
    }
    assert forall|i: int| 0 <= i < bytes.len() implies hex_bytes(text)[i] == bytes[i] by {
        assert((2 * i) / 2 == i && (2 * i + 1) / 2 == i);
        assert((2 * i) % 2 == 0 && (2 * i + 1) % 2 == 1);
        let hi = bytes[i] as int / 16;
        let lo = bytes[i] as int % 16;
        assert(hex_value(text[2 * i]) == Some(hi));
        assert(hex_value(text[2 * i + 1]) == Some(lo));
        assert(16 * hi + lo == bytes[i]);
    }
    assert(hex_bytes(text) =~= bytes);
}

/// The sixteen digits are '0' to '9' and 'a' to 'f', or 'A' to 'F', and no other
/// character is one.
pub proof fn law_hex_digits(value: int, upper: bool, c: char)
    ensures
        0 <= value < 10 ==> hex_digit(value, upper) == ('0' as int + value) as char,
        10 <= value < 16 && upper ==> hex_digit(value, upper) == ('A' as int + value - 10) as char,
        10 <= value < 16 && !upper ==> hex_digit(value, upper) == ('a' as int + value - 10) as char,
        hex_value(c) is Some <==> '0' <= c <= '9' || 'a' <= c <= 'f' || 'A' <= c <= 'F',
        '0' <= c <= '9' ==> hex_value(c) == Some(c as int - '0' as int),
        'a' <= c <= 'f' ==> hex_value(c) == Some(c as int - 'a' as int + 10),
        'A' <= c <= 'F' ==> hex_value(c) == Some(c as int - 'A' as int + 10),
{
}

/// The digits of each byte stand in a row, those of the higher half first.
pub proof fn law_hex_text_of_a_byte(bytes: Seq<u8>, upper: bool, i: int)
    requires
        0 <= i < bytes.len(),
    ensures
        hex_text(bytes, upper).len() == 2 * bytes.len(),
        hex_text(bytes, upper)[2 * i] == hex_digit(bytes[i] as int / 16, upper),
        hex_text(bytes, upper)[2 * i + 1] == hex_digit(bytes[i] as int % 16, upper),
{
}

/// A text of an odd length, or with another character than a digit, is not
/// hexadecimal. Any other one is, and each two of its digits stand for a byte.
pub proof fn law_hex_texts(text: Seq<char>, i: int)
    ensures
        text.len() % 2 == 1 ==> !is_hex_text(text),
        0 <= i < text.len() && hex_value(text[i]) is None ==> !is_hex_text(text),
        text.len() % 2 == 0 && (forall|k: int|
            0 <= k < text.len() ==> hex_value(#[trigger] text[k]) is Some) ==> is_hex_text(text),
        2 * hex_bytes(text).len() == text.len() - text.len() % 2,
        is_hex_text(text) && 0 <= 2 * i < text.len() ==> hex_bytes(text)[i] == 16 * hex_value(
            text[2 * i],
        )->0 + hex_value(text[2 * i + 1])->0,
{
    if is_hex_text(text) && 0 <= 2 * i < text.len() {
        assert(hex_value(text[2 * i]) is Some);
        assert(hex_value(text[2 * i + 1]) is Some);
    }
}

} // verus!
