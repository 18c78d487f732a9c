//! Hexadecimal text: what it stands for, and the calls that write and read it.

use vstd::prelude::*;

verus! {

/// The sixteen lowercase digits, in the order of their values.
pub open spec fn lower_digits() -> Seq<char> {
    seq!['0', '1', '2', '3', '4', '5', '6', '7', '8', '9', 'a', 'b', 'c', 'd', 'e', 'f']
}

/// The value of a hexadecimal digit of either case, if `c` is one.
pub open spec fn digit_value(c: char) -> Option<int> {
    let n = c as int;
    if 48 <= n <= 57 {
        Some(n - 48)
    } else if 97 <= n <= 102 {
        Some(n - 87)
    } else if 65 <= n <= 70 {
        Some(n - 55)
    } else {
        None
    }
}

/// Text that decodes: an even number of characters, each a hexadecimal digit.
pub open spec fn is_hex_text(text: Seq<char>) -> bool {
    &&& text.len() % 2 == 0
    &&& forall|i: int| 0 <= i < text.len() ==> digit_value(#[trigger] text[i]) is Some
}

/// Two lowercase digits for each byte, the high half first.
pub open spec fn encoded(bytes: Seq<u8>) -> Seq<char> {
    Seq::new(
        2 * bytes.len(),
        |i: int|
            if i % 2 == 0 {
                lower_digits()[bytes[i / 2] as int / 16]
            } else {
                lower_digits()[bytes[i / 2] as int % 16]
            },
    )
}

/// One byte for each pair of digits.
pub open spec fn decoded(text: Seq<char>) -> Seq<u8> {
    Seq::new(
        text.len() / 2,
        |i: int| (16 * digit_value(text[2 * i]).unwrap() + digit_value(text[2 * i + 1]).unwrap()) as u8,
    )
}

/// Calls `hex::encode`, which writes each byte as two lowercase digits.
#[verifier::external_body]
pub(crate) fn encode(bytes: &[u8]) -> (text: String)
    ensures
        text@ == encoded(bytes@),
{
    hex::encode(bytes)
}

/// Calls `hex::decode`, which accepts digits of both cases and fails on an
/// odd length or on any other character.
#[verifier::external_body]
pub(crate) fn decode(text: &str) -> (bytes: Option<Vec<u8>>)
    ensures
        bytes is Some <==> is_hex_text(text@),
        bytes matches Some(b) ==> b@ == decoded(text@),
{
    hex::decode(text).ok()
}

/// Every lowercase digit has the value of its place.
pub proof fn lemma_lower_digit_value(n: int)
    requires
        0 <= n < 16,
    ensures
        digit_value(lower_digits()[n]) == Some(n),
{
    let d = lower_digits();
    assert(d[0] == '0' && d[1] == '1' && d[2] == '2' && d[3] == '3');
    assert(d[4] == '4' && d[5] == '5' && d[6] == '6' && d[7] == '7');
    assert(d[8] == '8' && d[9] == '9' && d[10] == 'a' && d[11] == 'b');
    assert(d[12] == 'c' && d[13] == 'd' && d[14] == 'e' && d[15] == 'f');
}

/// Encoding then decoding gives the bytes back.
pub proof fn lemma_decode_encoded(bytes: Seq<u8>)
    ensures
        is_hex_text(encoded(bytes)),
        decoded(encoded(bytes)) == bytes,
{
    let text = encoded(bytes);
    assert forall|i: int| 0 <= i < text.len() implies digit_value(#[trigger] text[i]) is Some by {
        let b = bytes[i / 2] as int;
        lemma_lower_digit_value(b / 16);
        lemma_lower_digit_value(b % 16);
    }
    assert forall|i: int| 0 <= i < bytes.len() implies decoded(text)[i] == bytes[i] by {
        let b = bytes[i] as int;
        lemma_lower_digit_value(b / 16);
        lemma_lower_digit_value(b % 16);
        assert((2 * i) / 2 == i && (2 * i + 1) / 2 == i);
        assert((2 * i) % 2 == 0 && (2 * i + 1) % 2 == 1);
        assert(text[2 * i] == lower_digits()[b / 16]);
        assert(text[2 * i + 1] == lower_digits()[b % 16]);
    }
    assert(decoded(text) =~= bytes);
}

/// The text of `bytes` in lowercase hexadecimal.
pub fn to_hex(bytes: &Vec<u8>) -> (text: String)
    ensures
        text@ == encoded(bytes@),
{
    encode(bytes.as_slice())
}

/// The bytes that `text` stands for, or `None` where it is not hexadecimal.
pub fn from_hex(text: &str) -> (bytes: Option<Vec<u8>>)
    ensures
        bytes is Some <==> is_hex_text(text@),
        bytes matches Some(b) ==> b@ == decoded(text@),
{
    decode(text)
}

} // verus!
