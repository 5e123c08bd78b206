//! The bytes of a 64-bit integer, in both orders.

use crate::value::{be_value, lemma_be_value_push};
use vstd::prelude::*;

verus! {

/// The eight bytes of `x`, least significant first.
pub open spec fn le_bytes(x: u64) -> Seq<u8> {
    seq![
        (x % 0x100) as u8,
        (x / 0x100 % 0x100) as u8,
        (x / 0x1_0000 % 0x100) as u8,
        (x / 0x100_0000 % 0x100) as u8,
        (x / 0x1_0000_0000 % 0x100) as u8,
        (x / 0x100_0000_0000 % 0x100) as u8,
        (x / 0x1_0000_0000_0000 % 0x100) as u8,
        (x / 0x100_0000_0000_0000 % 0x100) as u8,
    ]
}

/// The eight bytes of `x`, most significant first.
pub open spec fn be_bytes(x: u64) -> Seq<u8> {
    le_bytes(x).reverse()
}

/// Splits `x` into its bytes, least significant first.
pub fn to_le_bytes(x: u64) -> (bytes: [u8; 8])
    ensures
        bytes@ == le_bytes(x),
{
    let bytes: [u8; 8] = [
        (x % 0x100) as u8,
        (x / 0x100 % 0x100) as u8,
        (x / 0x1_0000 % 0x100) as u8,
        (x / 0x100_0000 % 0x100) as u8,
        (x / 0x1_0000_0000 % 0x100) as u8,
        (x / 0x100_0000_0000 % 0x100) as u8,
        (x / 0x1_0000_0000_0000 % 0x100) as u8,
        (x / 0x100_0000_0000_0000 % 0x100) as u8,
    ];
    assert(bytes@ =~= le_bytes(x));
    bytes
}

/// Splits `x` into its bytes, most significant first.
pub fn to_be_bytes(x: u64) -> (bytes: [u8; 8])
    ensures
        bytes@ == be_bytes(x),
{
    let le = to_le_bytes(x);
    let bytes: [u8; 8] = [le[7], le[6], le[5], le[4], le[3], le[2], le[1], le[0]];
    assert(bytes@ =~= be_bytes(x));
    bytes
}

/// What the integer is worth by its bytes, whole and up to a multiple of 2^56.
proof fn lemma_value_of_bytes(x: u64)
    ensures
        x % 0x100_0000_0000_0000 == le_bytes(x)[0] + 0x100 * le_bytes(x)[1] + 0x1_0000 * le_bytes(
            x,
        )[2] + 0x100_0000 * le_bytes(x)[3] + 0x1_0000_0000 * le_bytes(x)[4] + 0x100_0000_0000
            * le_bytes(x)[5] + 0x1_0000_0000_0000 * le_bytes(x)[6],
        x == x % 0x100_0000_0000_0000 + 0x100_0000_0000_0000 * le_bytes(x)[7],
{
    let low: u64 = x % 0x100_0000_0000_0000;
    assert(low == x % 0x100 + 0x100 * (x / 0x100 % 0x100) + 0x1_0000 * (x / 0x1_0000 % 0x100)
        + 0x100_0000 * (x / 0x100_0000 % 0x100) + 0x1_0000_0000 * (x / 0x1_0000_0000 % 0x100)
        + 0x100_0000_0000 * (x / 0x100_0000_0000 % 0x100) + 0x1_0000_0000_0000 * (x
        / 0x1_0000_0000_0000 % 0x100)) by (bit_vector)
        requires
            low == x % 0x100_0000_0000_0000,
    ;
    assert(x == x % 0x100_0000_0000_0000 + 0x100_0000_0000_0000 * (x / 0x100_0000_0000_0000
        % 0x100)) by (bit_vector);
}

/// The first seven bytes, least significant first, fix the integer up to a multiple of
/// 2^56.
pub proof fn law_low_bytes_determine(x: u64, y: u64)
    requires
        le_bytes(x).take(7) == le_bytes(y).take(7),
    ensures
        x % 0x100_0000_0000_0000 == y % 0x100_0000_0000_0000,
{
    lemma_value_of_bytes(x);
    lemma_value_of_bytes(y);
    let (a, b) = (le_bytes(x), le_bytes(y));
    assert forall|i: int| 0 <= i < 7 implies a[i] == b[i] by {
        assert(a[i] == a.take(7)[i]);
        assert(b[i] == b.take(7)[i]);
    }
}

/// Two integers with the same eight bytes are the same.
pub proof fn law_bytes_determine(x: u64, y: u64)
    requires
        be_bytes(x) == be_bytes(y),
    ensures
        x == y,
{
    lemma_value_of_bytes(x);
    lemma_value_of_bytes(y);
    let (a, b) = (le_bytes(x), le_bytes(y));
    assert forall|i: int| 0 <= i < 8 implies a[i] == b[i] by {
        assert(a[i] == a.reverse()[7 - i]);
        assert(b[i] == b.reverse()[7 - i]);
    }
}

/// Bytes one after the other, as the value that they make up.
proof fn lemma_be_value_of_eight(b: Seq<u8>)
    requires
        b.len() == 8,
    ensures
        be_value(b.take(4)) == 0x100_0000 * b[0] + 0x1_0000 * b[1] + 0x100 * b[2] + b[3],
        be_value(b) == 0x1_0000_0000 * be_value(b.take(4)) + 0x100_0000 * b[4] + 0x1_0000 * b[5]
            + 0x100 * b[6] + b[7],
        be_value(b.skip(1)) == 0x1_0000_0000_0000 * b[1] + 0x100_0000_0000 * b[2] + 0x1_0000_0000
            * b[3] + 0x100_0000 * b[4] + 0x1_0000 * b[5] + 0x100 * b[6] + b[7],
{
    let s0 = Seq::<u8>::empty();
    lemma_be_value_push(s0, b[0]);
    let s1 = s0.push(b[0]);
    lemma_be_value_push(s1, b[1]);
    let s2 = s1.push(b[1]);
    lemma_be_value_push(s2, b[2]);
    let s3 = s2.push(b[2]);
    lemma_be_value_push(s3, b[3]);
    let s4 = s3.push(b[3]);
    lemma_be_value_push(s4, b[4]);
    let s5 = s4.push(b[4]);
    lemma_be_value_push(s5, b[5]);
    let s6 = s5.push(b[5]);
    lemma_be_value_push(s6, b[6]);
    let s7 = s6.push(b[6]);
    lemma_be_value_push(s7, b[7]);
    assert(b.take(4) =~= s4);
    assert(b =~= s7.push(b[7]));
    lemma_be_value_push(s0, b[1]);
    let t1 = s0.push(b[1]);
    lemma_be_value_push(t1, b[2]);
    let t2 = t1.push(b[2]);
    lemma_be_value_push(t2, b[3]);
    let t3 = t2.push(b[3]);
    lemma_be_value_push(t3, b[4]);
    let t4 = t3.push(b[4]);
    lemma_be_value_push(t4, b[5]);
    let t5 = t4.push(b[5]);
    lemma_be_value_push(t5, b[6]);
    let t6 = t5.push(b[6]);
    lemma_be_value_push(t6, b[7]);
    assert(b.skip(1) =~= t6.push(b[7]));
}

/// The eight bytes of an integer are worth the integer, in the one order and, read
/// backwards, in the other. The first four, most significant first, are worth its upper half,
/// and the first seven, least significant first and read backwards, all but its top byte.
pub proof fn law_bytes_are_worth_the_integer(x: u64)
    ensures
        be_bytes(x).len() == 8,
        le_bytes(x).len() == 8,
        be_value(be_bytes(x)) == x,
        be_value(le_bytes(x).reverse()) == x,
        be_value(be_bytes(x).take(4)) == x / 0x1_0000_0000,
        be_value(le_bytes(x).take(7).reverse()) == x % 0x100_0000_0000_0000,
{
    let (b, l) = (be_bytes(x), le_bytes(x));
    lemma_value_of_bytes(x);
    lemma_be_value_of_eight(b);
    assert(l.reverse() =~= b);
    assert(l.take(7).reverse() =~= b.skip(1));
    assert(b[0] == l[7] && b[1] == l[6] && b[2] == l[5] && b[3] == l[4]);
    assert(b[4] == l[3] && b[5] == l[2] && b[6] == l[1] && b[7] == l[0]);
}

} // verus!
