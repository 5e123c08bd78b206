//! The letter-case checksum of address texts.

use alloy_primitives::AddressError;
use crate::hex::{hex_bytes, hex_digits, is_hex, is_hex_digit, law_hex_bytes_are_worth_the_digits, spells_bytes};
use crate::value::are_hex_digits;
use vstd::prelude::*;

verus! {

/// The text that `alloy_primitives::Address::to_checksum` returns for the address with
/// these bytes and this chain id: `0x` and forty hexadecimal digits, whose letters are in
/// upper or lower case as a hash of the lower-case digits and of the chain id says.
pub uninterp spec fn checksum_spelling(address: Seq<u8>, chain_id: Option<u64>) -> Seq<char>;

/// The text starts with `0x`; an upper-case `X` does not count.
pub open spec fn has_prefix(text: Seq<char>) -> bool {
    text.len() >= 2 && text[0] == '0' && text[1] == 'x'
}

/// The text is the one spelling of an address whose letter case is its checksum.
pub open spec fn is_checksummed(text: Seq<char>, chain_id: Option<u64>) -> bool {
    &&& has_prefix(text)
    &&& spells_bytes(text, 20)
    &&& text == checksum_spelling(hex_bytes(text), chain_id)
}

/// The text with a `0x` in front, unless it starts with one.
pub open spec fn with_prefix(text: Seq<char>) -> Seq<char> {
    if has_prefix(text) {
        text
    } else {
        "0x"@ + text
    }
}

/// The text holds an upper-case letter.
pub open spec fn has_uppercase(text: Seq<char>) -> bool {
    exists|i: int| 0 <= i < text.len() && 'A' <= #[trigger] text[i] <= 'Z'
}

/// The text makes no claim to a checksum, being without upper-case letters, or it is
/// checksummed once it has its prefix.
pub open spec fn respects_checksum(text: Seq<char>) -> bool {
    has_uppercase(text) ==> is_checksummed(with_prefix(text), None)
}

/// The error of `alloy_primitives::Address::parse_checksummed`, carried but never looked
/// into.
#[verifier::external_type_specification]
#[verifier::external_body]
pub struct ExAddressError(AddressError);

/// Calls `alloy_primitives::Address::parse_checksummed`.
///
/// Trusted: the call succeeds exactly on a text that starts with `0x`, spells twenty bytes,
/// and is letter for letter what `Address::to_checksum` returns for these bytes and this
/// chain id; it then returns the bytes.
#[verifier::external_body]
fn parse_checksummed(text: &str, chain_id: Option<u64>) -> (result: Result<[u8; 20], AddressError>)
    ensures
        result is Ok <==> (has_prefix(text@) && spells_bytes(text@, 20) && text@
            == checksum_spelling(hex_bytes(text@), chain_id)),
        result matches Ok(address) ==> address@ == hex_bytes(text@),
{
    alloy_primitives::Address::parse_checksummed(text, chain_id).map(|address| address.0.0)
}

/// Says whether an address text respects the checksum in its letter case: one with an
/// upper-case letter must be checksummed, with or without its prefix.
pub fn checksum_holds(text: &str) -> (holds: bool)
    requires
        is_hex(text@),
    ensures
        holds == respects_checksum(text@),
{
    let mut uppercase = false;
    for c in it: text.chars()
        invariant
            it.seq() == text@,
            uppercase <==> exists|j: int| 0 <= j < it.index() && 'A' <= #[trigger] text@[j] <= 'Z',
    {
        if 'A' <= c && c <= 'Z' {
            assert('A' <= text@[it.index()] <= 'Z');
            uppercase = true;
        }
    }
    if !uppercase {
        return true;
    }
    let prefixed = text.unicode_len() >= 2 && text.get_char(0) == '0' && text.get_char(1) == 'x';
    let parsed = if prefixed {
        parse_checksummed(text, None)
    } else {
        let mut full = String::new();
        full.append("0x");
        full.append(text);
        assert(full@ =~= "0x"@ + text@);
        parse_checksummed(full.as_str(), None)
    };
    parsed.is_ok()
}

/// Adding the prefix, where it leaves the text hexadecimal, does not change which bytes the
/// text spells.
proof fn lemma_prefix_keeps_bytes(text: Seq<char>)
    requires
        is_hex(with_prefix(text)),
    ensures
        hex_bytes(with_prefix(text)) == hex_bytes(text),
{
    reveal_strlit("0x");
    if !has_prefix(text) {
        let digits = hex_digits(with_prefix(text));
        assert(digits =~= text);
        if hex_digits(text) != text {
            assert(digits[1] == 'X');
            assert(is_hex_digit(digits[1]));
        }
    }
}

/// An address text without upper-case letters is not held to a checksum.
pub proof fn law_lowercase_is_accepted(text: Seq<char>)
    requires
        forall|i: int| 0 <= i < text.len() ==> !('A' <= #[trigger] text[i] <= 'Z'),
    ensures
        respects_checksum(text),
{
}

/// Of the texts with upper-case letters that spell one address, at most one is accepted, up
/// to its prefix.
pub proof fn law_checksummed_text_is_unique(text: Seq<char>, other: Seq<char>)
    requires
        has_uppercase(text),
        has_uppercase(other),
        hex_bytes(text) == hex_bytes(other),
        respects_checksum(text),
        respects_checksum(other),
    ensures
        with_prefix(text) == with_prefix(other),
{
    lemma_prefix_keeps_bytes(text);
    lemma_prefix_keeps_bytes(other);
}

/// A text with the prefix `0X` is never accepted.
pub proof fn law_uppercase_prefix_is_refused(text: Seq<char>)
    requires
        text.len() >= 2,
        text[0] == '0',
        text[1] == 'X',
    ensures
        !respects_checksum(text),
{
    reveal_strlit("0x");
    assert('A' <= text[1] <= 'Z');
    let digits = hex_digits(with_prefix(text));
    assert(digits =~= text);
    assert(!is_hex_digit(digits[1]));
}

/// An address text with an upper-case letter is accepted exactly where, behind a `0x` that is
/// added if it is not there, it has forty digits and is the checksummed spelling of the
/// address that they stand for.
pub proof fn law_uppercase_is_held_to_the_checksum(text: Seq<char>, full: Seq<char>, i: int)
    requires
        0 <= i < text.len(),
        'A' <= text[i] <= 'Z',
        full == if text.len() >= 2 && text[0] == '0' && text[1] == 'x' {
            text
        } else {
            seq!['0', 'x'] + text
        },
    ensures
        respects_checksum(text) <==> full.len() == 42 && are_hex_digits(full.skip(2)) && full
            == checksum_spelling(hex_bytes(full), None),
{
    reveal_strlit("0x");
    assert("0x"@ =~= seq!['0', 'x']);
    assert(full == with_prefix(text));
    law_hex_bytes_are_worth_the_digits(full, 20);
}

} // verus!
