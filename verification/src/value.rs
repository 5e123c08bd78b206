//! What bytes and digits are worth, read from left to right. The laws of the other modules
//! are stated by it.

use vstd::prelude::*;

verus! {

/// The number that bytes make up, the most significant first.
pub open spec fn be_value(bytes: Seq<u8>) -> nat
    decreases bytes.len(),
{
    if bytes.len() == 0 {
        0
    } else {
        256 * be_value(bytes.drop_last()) + bytes.last() as nat
    }
}

/// The number that a decimal numeral stands for.
pub open spec fn decimal_value(text: Seq<char>) -> int
    decreases text.len(),
{
    if text.len() == 0 {
        0
    } else {
        10 * decimal_value(text.drop_last()) + (text.last() as int - '0' as int)
    }
}

/// The characters from `0` to `9`, `a` to `f` and `A` to `F`, and no others.
pub open spec fn are_hex_digits(text: Seq<char>) -> bool {
    forall|i: int|
        0 <= i < text.len() ==> {
            ||| '0' <= #[trigger] text[i] <= '9'
            ||| 'a' <= text[i] <= 'f'
            ||| 'A' <= text[i] <= 'F'
        }
}

/// What a hexadecimal digit of either case is worth.
pub open spec fn hex_char_value(c: char) -> int {
    if c <= '9' {
        c as int - '0' as int
    } else if c <= 'F' {
        c as int - 'A' as int + 10
    } else {
        c as int - 'a' as int + 10
    }
}

/// The number that hexadecimal digits stand for.
pub open spec fn hex_value(text: Seq<char>) -> int
    decreases text.len(),
{
    if text.len() == 0 {
        0
    } else {
        16 * hex_value(text.drop_last()) + hex_char_value(text.last())
    }
}

/// The text behind a leading `0x` or `0X`, or else all of it.
pub open spec fn behind_prefix(text: Seq<char>) -> Seq<char> {
    if text.len() >= 2 && text[0] == '0' && (text[1] == 'x' || text[1] == 'X') {
        text.skip(2)
    } else {
        text
    }
}

/// One more byte.
pub(crate) proof fn lemma_be_value_push(bytes: Seq<u8>, byte: u8)
    ensures
        be_value(bytes.push(byte)) == 256 * be_value(bytes) + byte,
{
    assert(bytes.push(byte).drop_last() =~= bytes);
}

/// Zeros in front count for nothing.
pub(crate) proof fn lemma_be_value_zeros(count: nat, bytes: Seq<u8>)
    ensures
        be_value(Seq::new(count, |i: int| 0u8) + bytes) == be_value(bytes),
    decreases count + bytes.len(),
{
    let zeros = Seq::new(count, |i: int| 0u8);
    let all = zeros + bytes;
    if bytes.len() > 0 {
        lemma_be_value_zeros(count, bytes.drop_last());
        assert(all.drop_last() =~= zeros + bytes.drop_last());
    } else if count > 0 {
        lemma_be_value_zeros((count - 1) as nat, bytes);
        assert(all.drop_last() =~= Seq::new((count - 1) as nat, |i: int| 0u8) + bytes);
    } else {
        assert(all =~= bytes);
    }
}

} // verus!
