//! Hexadecimal text: what it means, and the two conversions between text and bytes.

use crate::value::{are_hex_digits, be_value, behind_prefix, hex_char_value, hex_value};
use vstd::prelude::*;

verus! {

/// The characters that stand for a hexadecimal digit, in either case.
pub open spec fn is_hex_digit(c: char) -> bool {
    ||| '0' <= c <= '9'
    ||| 'a' <= c <= 'f'
    ||| 'A' <= c <= 'F'
}

/// The value, from 0 to 15, of a hexadecimal digit.
pub open spec fn digit_value(c: char) -> int {
    if '0' <= c <= '9' {
        c as int - '0' as int
    } else if 'a' <= c <= 'f' {
        c as int - 'a' as int + 10
    } else {
        c as int - 'A' as int + 10
    }
}

/// The text without its `0x` or `0X` prefix, where it has one.
pub open spec fn hex_digits(text: Seq<char>) -> Seq<char> {
    if text.len() >= 2 && text[0] == '0' && (text[1] == 'x' || text[1] == 'X') {
        text.skip(2)
    } else {
        text
    }
}

/// An optional prefix followed by whole bytes, two digits each.
pub open spec fn is_hex(text: Seq<char>) -> bool {
    let digits = hex_digits(text);
    &&& digits.len() % 2 == 0
    &&& forall|i: int| 0 <= i < digits.len() ==> is_hex_digit(#[trigger] digits[i])
}

/// The bytes that a hexadecimal text spells, high digit first.
pub open spec fn hex_bytes(text: Seq<char>) -> Seq<u8> {
    let digits = hex_digits(text);
    Seq::new(
        digits.len() / 2,
        |i: int| (16 * digit_value(digits[2 * i]) + digit_value(digits[2 * i + 1])) as u8,
    )
}

/// A hexadecimal text that spells exactly `count` bytes.
pub open spec fn spells_bytes(text: Seq<char>, count: nat) -> bool {
    is_hex(text) && hex_bytes(text).len() == count
}

/// The lower-case digit of a value from 0 to 15.
pub open spec fn digit_char(value: int) -> char {
    if value < 10 {
        ('0' as int + value) as char
    } else {
        ('a' as int + value - 10) as char
    }
}

/// The lower-case spelling of some bytes, without a prefix.
pub open spec fn hex_text(bytes: Seq<u8>) -> Seq<char> {
    Seq::new(
        2 * bytes.len(),
        |i: int|
            if i % 2 == 0 {
                digit_char(bytes[i / 2] as int / 16)
            } else {
                digit_char(bytes[i / 2] as int % 16)
            },
    )
}

/// The error of `alloy_primitives::hex::decode`, carried but never looked into.
#[verifier::external_type_specification]
#[verifier::external_body]
pub struct ExFromHexError(alloy_primitives::hex::FromHexError);

/// Calls `alloy_primitives::hex::decode`.
///
/// Trusted: the call succeeds exactly on an even number of hexadecimal digits of either
/// case, after an optional `0x` or `0X`, and then returns the bytes that they spell.
#[verifier::external_body]
fn decode(text: &str) -> (result: Result<Vec<u8>, alloy_primitives::hex::FromHexError>)
    ensures
        result is Ok <==> is_hex(text@),
        result matches Ok(bytes) ==> bytes@ == hex_bytes(text@),
{
    alloy_primitives::hex::decode(text)
}

/// Calls `alloy_primitives::hex::encode`.
///
/// Trusted: the call returns the lower-case spelling of the bytes, without a prefix. The
/// text must fit into one allocation, else the call panics.
#[verifier::external_body]
pub(crate) fn encode(bytes: &[u8]) -> (text: String)
    requires
        2 * bytes@.len() <= isize::MAX,
    ensures
        text@ == hex_text(bytes@),
{
    alloy_primitives::hex::encode(bytes)
}

/// Why a text does not spell a byte array of the wanted length.
#[derive(Debug, Clone, Copy, PartialEq, Eq, Structural)]
pub enum DecodeError {
    /// The text is not hexadecimal.
    Malformed,
    /// The text is hexadecimal, but spells another number of bytes.
    Length,
}

/// Decodes a hexadecimal text into an array of exactly `N` bytes.
pub fn decode_array<const N: usize>(text: &str) -> (result: Result<[u8; N], DecodeError>)
    ensures
        match result {
            Ok(array) => spells_bytes(text@, N as nat) && array@ == hex_bytes(text@),
            Err(DecodeError::Malformed) => !is_hex(text@),
            Err(DecodeError::Length) => is_hex(text@) && hex_bytes(text@).len() != N,
        },
{
    match decode(text) {
        Ok(bytes) => {
            if bytes.len() != N {
                return Err(DecodeError::Length);
            }
            let mut array: [u8; N] = [0u8; N];
            let mut i: usize = 0;
            while i < N
                invariant
                    i <= N,
                    bytes@.len() == N,
                    forall|j: int| 0 <= j < i ==> array@[j] == bytes@[j],
                decreases N - i,
            {
                array[i] = bytes[i];
                i += 1;
            }
            assert(array@ =~= bytes@);
            Ok(array)
        },
        Err(_) => Err(DecodeError::Malformed),
    }
}

/// Decoding the spelling of some bytes gives the bytes back, with and without a prefix.
pub proof fn law_decode_inverts_encode(bytes: Seq<u8>)
    ensures
        is_hex(hex_text(bytes)),
        hex_bytes(hex_text(bytes)) == bytes,
        is_hex("0x"@ + hex_text(bytes)),
        hex_bytes("0x"@ + hex_text(bytes)) == bytes,
{
    reveal_strlit("0x");
    let text = hex_text(bytes);
    let prefixed = "0x"@ + text;
    assert forall|i: int| 0 <= i < text.len() implies is_hex_digit(#[trigger] text[i]) by {}
    assert(hex_digits(text) == text);
    assert(hex_digits(prefixed) =~= text);
    assert forall|i: int| 0 <= i < bytes.len() implies #[trigger] hex_bytes(text)[i] == bytes[i] by {
        assert((2 * i) / 2 == i && (2 * i + 1) / 2 == i);
        assert(text[2 * i] == digit_char(bytes[i] as int / 16));
        assert(text[2 * i + 1] == digit_char(bytes[i] as int % 16));
    }
    assert(hex_bytes(text) =~= bytes);
}

/// The bytes that digits without a prefix spell are worth what the digits stand for.
proof fn lemma_digits_value(digits: Seq<char>)
    requires
        digits.len() % 2 == 0,
        are_hex_digits(digits),
    ensures
        hex_digits(digits) == digits,
        be_value(hex_bytes(digits)) == hex_value(digits),
    decreases digits.len(),
{
    let bytes = hex_bytes(digits);
    if digits.len() == 0 {
        assert(bytes.len() == 0);
    } else {
        let n = digits.len() as int;
        let (high, low) = (digits[n - 2], digits[n - 1]);
        let shorter = digits.drop_last().drop_last();
        assert(digits[1] != 'x' && digits[1] != 'X');
        assert(are_hex_digits(shorter)) by {
            assert forall|i: int| 0 <= i < shorter.len() implies {
                ||| '0' <= #[trigger] shorter[i] <= '9'
                ||| 'a' <= shorter[i] <= 'f'
                ||| 'A' <= shorter[i] <= 'F'
            } by {
                assert(shorter[i] == digits[i]);
            }
        }
        lemma_digits_value(shorter);
        assert(bytes.drop_last() =~= hex_bytes(shorter));
        assert(digits.drop_last().last() == high);
        assert(hex_value(digits.drop_last()) == 16 * hex_value(shorter) + hex_char_value(high));
        assert(hex_value(digits) == 16 * hex_value(digits.drop_last()) + hex_char_value(low));
        assert(digit_value(high) == hex_char_value(high));
        assert(digit_value(low) == hex_char_value(low));
        assert(2 * (bytes.len() - 1) == n - 2);
        assert(bytes.last() == 16 * digit_value(high) + digit_value(low));
    }
}

/// What a hexadecimal text is, and what its bytes are worth: an even number of digits of
/// either case, perhaps behind `0x` or `0X`, and the number that the digits stand for, in half
/// as many bytes.
pub proof fn law_hex_bytes_are_worth_the_digits(text: Seq<char>, count: nat)
    ensures
        is_hex(text) <==> behind_prefix(text).len() % 2 == 0 && are_hex_digits(behind_prefix(text)),
        is_hex(text) ==> 2 * hex_bytes(text).len() == behind_prefix(text).len(),
        is_hex(text) ==> be_value(hex_bytes(text)) == hex_value(behind_prefix(text)),
        spells_bytes(text, count) <==> is_hex(text) && behind_prefix(text).len() == 2 * count,
{
    let digits = hex_digits(text);
    assert(digits == behind_prefix(text));
    if is_hex(text) {
        assert forall|i: int| 0 <= i < digits.len() implies {
            ||| '0' <= #[trigger] digits[i] <= '9'
            ||| 'a' <= digits[i] <= 'f'
            ||| 'A' <= digits[i] <= 'F'
        } by {
            assert(is_hex_digit(digits[i]));
        }
        lemma_digits_value(digits);
        assert(hex_bytes(text) =~= hex_bytes(digits));
    }
}

/// The spelling of some bytes is made of lower-case digits, two for each, and stands for the
/// number that the bytes make up.
pub proof fn law_hex_text_stands_for_the_bytes(bytes: Seq<u8>)
    ensures
        hex_text(bytes).len() == 2 * bytes.len(),
        hex_value(hex_text(bytes)) == be_value(bytes),
        forall|i: int|
            0 <= i < hex_text(bytes).len() ==> '0' <= #[trigger] hex_text(bytes)[i] <= '9' || 'a'
                <= hex_text(bytes)[i] <= 'f',
{
    law_decode_inverts_encode(bytes);
    let text = hex_text(bytes);
    assert(are_hex_digits(text));
    lemma_digits_value(text);
}

/// The two digits of a byte, in the spelling of all of them.
pub(crate) proof fn lemma_digits_of_byte(bytes: Seq<u8>, i: int)
    requires
        0 <= i < bytes.len(),
    ensures
        bytes[i] == 16 * hex_char_value(hex_text(bytes)[2 * i]) + hex_char_value(
            hex_text(bytes)[2 * i + 1],
        ),
{
    let text = hex_text(bytes);
    assert((2 * i) / 2 == i && (2 * i + 1) / 2 == i);
    assert(text[2 * i] == digit_char(bytes[i] as int / 16));
    assert(text[2 * i + 1] == digit_char(bytes[i] as int % 16));
}

} // verus!
