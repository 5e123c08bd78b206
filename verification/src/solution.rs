//! What a found solution says: the salt, the address, and the line that reports them.

use crate::bytes::{
    be_bytes, law_bytes_are_worth_the_integer, law_low_bytes_determine, le_bytes, to_be_bytes,
    to_le_bytes,
};
use crate::config::{Config, SaltVariant, zeros};
use crate::decimal::decimal;
use crate::hex::{
    encode, hex_bytes, hex_text, is_hex, law_decode_inverts_encode, law_hex_text_stands_for_the_bytes,
    lemma_digits_of_byte,
};
use crate::kernel::{Define, kernel_caller, kernel_defines};
use crate::kernel_laws::law_caller_macros;
use crate::value::{be_value, hex_char_value, hex_value};
use vstd::prelude::*;

verus! {

/// The eleven bytes that were searched for: the random four, then the low seven of the
/// solution, least significant first.
pub open spec fn mined_bytes(salt: Seq<u8>, solution: u64) -> Seq<u8> {
    salt + le_bytes(solution).take(7)
}

/// The full salt: who may use it, whether it is bound to a chain, and the mined bytes. A
/// salt bound to nothing has the mined bytes in front, and zeros behind them.
pub open spec fn full_salt(salt_variant: SaltVariant, salt: Seq<u8>, solution: u64) -> Seq<u8> {
    let mined = mined_bytes(salt, solution);
    match salt_variant {
        SaltVariant::CrosschainSender { chain_id: _, calling_address } => calling_address@
            + seq![1u8] + mined,
        SaltVariant::Crosschain { chain_id: _ } => zeros(20) + seq![1u8] + mined,
        SaltVariant::Sender { calling_address } => calling_address@ + seq![0u8] + mined,
        SaltVariant::Random => mined + zeros(21),
    }
}

/// The address that the kernel wrote behind the solution: eight bytes, eight bytes and
/// four, most significant first.
pub open spec fn found_address(solutions: Seq<u64>) -> Seq<u8> {
    be_bytes(solutions[1]) + be_bytes(solutions[2]) + be_bytes(solutions[3]).take(4)
}

/// The line that reports a salt and an address.
pub open spec fn report_line(salt: Seq<u8>, address: Seq<u8>) -> Seq<char> {
    "0x"@ + hex_text(salt) + ",0x"@ + hex_text(address)
}

/// Puts the full salt together.
pub fn assemble_salt(salt_variant: &SaltVariant, salt: [u8; 4], solution: u64) -> (full: Vec<u8>)
    ensures
        full@ == full_salt(*salt_variant, salt@, solution),
{
    let low = to_le_bytes(solution);
    let mut mined: Vec<u8> = Vec::new();
    mined.extend_from_slice(salt.as_slice());
    let mut i: usize = 0;
    while i < 7
        invariant
            i <= 7,
            low@ == le_bytes(solution),
            mined@ == salt@ + low@.take(i as int),
        decreases 7 - i,
    {
        mined.push(low[i]);
        assert(mined@ =~= salt@ + low@.take(i + 1));
        i += 1;
    }
    let zero_address: [u8; 20] = [0u8; 20];
    assert(zero_address@ =~= zeros(20));
    let mut full: Vec<u8> = Vec::new();
    match salt_variant {
        SaltVariant::CrosschainSender { chain_id: _, calling_address } => {
            full.extend_from_slice(calling_address.as_slice());
            full.push(1);
            full.extend_from_slice(mined.as_slice());
        },
        SaltVariant::Crosschain { chain_id: _ } => {
            full.extend_from_slice(zero_address.as_slice());
            full.push(1);
            full.extend_from_slice(mined.as_slice());
        },
        SaltVariant::Sender { calling_address } => {
            full.extend_from_slice(calling_address.as_slice());
            full.push(0);
            full.extend_from_slice(mined.as_slice());
        },
        SaltVariant::Random => {
            full.extend_from_slice(mined.as_slice());
            full.extend_from_slice(zero_address.as_slice());
            full.push(0);
        },
    }
    assert(full@ =~= full_salt(*salt_variant, salt@, solution));
    full
}

/// Puts the found address together.
pub fn assemble_address(solutions: &[u64; 4]) -> (address: Vec<u8>)
    ensures
        address@ == found_address(solutions@),
{
    let first = to_be_bytes(solutions[1]);
    let second = to_be_bytes(solutions[2]);
    let third = to_be_bytes(solutions[3]);
    let mut address: Vec<u8> = Vec::new();
    address.extend_from_slice(first.as_slice());
    address.extend_from_slice(second.as_slice());
    address.push(third[0]);
    address.push(third[1]);
    address.push(third[2]);
    address.push(third[3]);
    assert(address@ =~= found_address(solutions@));
    address
}

/// Writes the line that reports a salt and an address.
pub fn format_report(salt: &[u8], address: &[u8]) -> (line: String)
    requires
        2 * salt@.len() <= isize::MAX,
        2 * address@.len() <= isize::MAX,
    ensures
        line@ == report_line(salt@, address@),
{
    let mut line = String::new();
    line.append("0x");
    line.append(encode(salt).as_str());
    line.append(",0x");
    line.append(encode(address).as_str());
    assert(line@ =~= report_line(salt@, address@));
    line
}

/// Writes the line that reports a found solution, for the random four bytes that it was
/// found with.
pub fn report_solution(salt_variant: &SaltVariant, salt: [u8; 4], solutions: &[u64; 4]) -> (line:
    String)
    ensures
        line@ == report_line(
            full_salt(*salt_variant, salt@, solutions@[0]),
            found_address(solutions@),
        ),
{
    let full = assemble_salt(salt_variant, salt, solutions[0]);
    let address = assemble_address(solutions);
    format_report(full.as_slice(), address.as_slice())
}

/// A full salt has 32 bytes, and an address 20.
pub proof fn law_lengths(salt_variant: SaltVariant, salt: Seq<u8>, solutions: Seq<u64>)
    requires
        salt.len() == 4,
        solutions.len() == 4,
    ensures
        full_salt(salt_variant, salt, solutions[0]).len() == 32,
        found_address(solutions).len() == 20,
{
}

/// A bound salt starts with the calling address that the kernel hashed, followed by a byte
/// that is 1 where the salt is bound to a chain and 0 where it is not.
pub proof fn law_salt_binding(salt_variant: SaltVariant, salt: Seq<u8>, solution: u64)
    requires
        salt.len() == 4,
        salt_variant !is Random,
    ensures
        full_salt(salt_variant, salt, solution).take(20) == kernel_caller(salt_variant),
        full_salt(salt_variant, salt, solution)[20] == if salt_variant@.0 is Some { 1u8 } else { 0u8 },
        full_salt(salt_variant, salt, solution).skip(21) == mined_bytes(salt, solution),
{
    let full = full_salt(salt_variant, salt, solution);
    assert(full.take(20) =~= kernel_caller(salt_variant));
    assert(full.skip(21) =~= mined_bytes(salt, solution));
}

/// Different random bytes, or solutions that differ in their low 56 bits, give different
/// salts.
pub proof fn law_salts_differ(
    salt_variant: SaltVariant,
    salt: Seq<u8>,
    other_salt: Seq<u8>,
    solution: u64,
    other_solution: u64,
)
    requires
        salt.len() == 4,
        other_salt.len() == 4,
        full_salt(salt_variant, salt, solution) == full_salt(
            salt_variant,
            other_salt,
            other_solution,
        ),
    ensures
        salt == other_salt,
        solution % 0x100_0000_0000_0000 == other_solution % 0x100_0000_0000_0000,
{
    let mined = mined_bytes(salt, solution);
    let other_mined = mined_bytes(other_salt, other_solution);
    if salt_variant is Random {
        let full = full_salt(salt_variant, salt, solution);
        assert(full.take(11) =~= mined);
        assert(full.take(11) =~= other_mined);
    } else {
        law_salt_binding(salt_variant, salt, solution);
        law_salt_binding(salt_variant, other_salt, other_solution);
    }
    assert(mined.take(4) =~= salt);
    assert(other_mined.take(4) =~= other_salt);
    assert(mined.skip(4) =~= le_bytes(solution).take(7));
    assert(other_mined.skip(4) =~= le_bytes(other_solution).take(7));
    law_low_bytes_determine(solution, other_solution);
}

/// The report of a salt and an address has two hexadecimal fields around a comma, which
/// decode to the salt and the address.
pub proof fn law_report_reads_back(salt: Seq<u8>, address: Seq<u8>)
    ensures
        ({
            let line = report_line(salt, address);
            let comma = 2 + 2 * salt.len();
            &&& line.len() == comma + 3 + 2 * address.len()
            &&& line[comma as int] == ','
            &&& is_hex(line.take(comma as int))
            &&& hex_bytes(line.take(comma as int)) == salt
            &&& is_hex(line.skip(comma as int + 1))
            &&& hex_bytes(line.skip(comma as int + 1)) == address
        }),
{
    reveal_strlit("0x");
    reveal_strlit(",0x");
    let line = report_line(salt, address);
    let comma = 2 + 2 * salt.len() as int;
    assert(line.take(comma) =~= "0x"@ + hex_text(salt));
    assert(line.skip(comma + 1) =~= "0x"@ + hex_text(address));
    law_decode_inverts_encode(salt);
    law_decode_inverts_encode(address);
}

/// What stands in a full salt, byte by byte: the calling address of the variant, or zeros
/// where it has none; a byte that is 1 with a chain and 0 without; the random four bytes; and
/// seven bytes that, read backwards, are worth the low 56 bits of the solution. A salt bound
/// to nothing starts with these eleven and goes on with zeros.
pub proof fn law_salt_byte_by_byte(salt_variant: SaltVariant, salt: Seq<u8>, solution: u64)
    requires
        salt.len() == 4,
    ensures
        ({
            let full = full_salt(salt_variant, salt, solution);
            let mined: int = if salt_variant is Random { 0 } else { 21 };
            &&& full.len() == 32
            &&& match salt_variant {
                SaltVariant::CrosschainSender { chain_id: _, calling_address } => {
                    &&& forall|i: int| 0 <= i < 20 ==> #[trigger] full[i] == calling_address@[i]
                    &&& full[20] == 1
                },
                SaltVariant::Crosschain { chain_id: _ } => {
                    &&& forall|i: int| 0 <= i < 20 ==> #[trigger] full[i] == 0
                    &&& full[20] == 1
                },
                SaltVariant::Sender { calling_address } => {
                    &&& forall|i: int| 0 <= i < 20 ==> #[trigger] full[i] == calling_address@[i]
                    &&& full[20] == 0
                },
                SaltVariant::Random => forall|i: int| 11 <= i < 32 ==> #[trigger] full[i] == 0,
            }
            &&& full.subrange(mined, mined + 4) == salt
            &&& be_value(full.subrange(mined + 4, mined + 11).reverse()) == solution
                % 0x100_0000_0000_0000
        }),
{
    let full = full_salt(salt_variant, salt, solution);
    let mined: int = if salt_variant is Random { 0 } else { 21 };
    assert(full.subrange(mined, mined + 4) =~= salt);
    assert(full.subrange(mined + 4, mined + 11) =~= le_bytes(solution).take(7));
    law_bytes_are_worth_the_integer(solution);
}

/// What the kernel hashes as the caller is what the salt starts with: for a bound salt, the
/// macro `S1_12` carries byte 0, and so on up to byte 19.
pub proof fn law_kernel_hashes_start_of_salt(config: &Config, salt: Seq<u8>, solution: u64, i: int)
    requires
        salt.len() == 4,
        config.salt_variant !is Random,
        0 <= i < 20,
    ensures
        kernel_defines(config).contains(
            Define {
                name: "S1_"@ + decimal((12 + i) as nat),
                value: Some(
                    decimal(full_salt(config.salt_variant, salt, solution)[i] as nat) + "u"@,
                ),
            },
        ),
{
    law_salt_byte_by_byte(config.salt_variant, salt, solution);
    law_caller_macros(config, i);
}

/// The found address gives the words back: its first eight bytes are worth the second word,
/// the next eight the third, and the last four the upper half of the fourth.
pub proof fn law_address_gives_words_back(solutions: Seq<u64>)
    requires
        solutions.len() == 4,
    ensures
        found_address(solutions).len() == 20,
        be_value(found_address(solutions).subrange(0, 8)) == solutions[1],
        be_value(found_address(solutions).subrange(8, 16)) == solutions[2],
        be_value(found_address(solutions).subrange(16, 20)) == solutions[3] / 0x1_0000_0000,
{
    let address = found_address(solutions);
    law_bytes_are_worth_the_integer(solutions[1]);
    law_bytes_are_worth_the_integer(solutions[2]);
    law_bytes_are_worth_the_integer(solutions[3]);
    assert(address.subrange(0, 8) =~= be_bytes(solutions[1]));
    assert(address.subrange(8, 16) =~= be_bytes(solutions[2]));
    assert(address.subrange(16, 20) =~= be_bytes(solutions[3]).take(4));
}

/// The report, character by character: `0x`, two lower-case digits for each byte of the salt,
/// `,0x`, and two for each byte of the address; byte `i` of either stands where it should.
pub proof fn law_report_character_by_character(salt: Seq<u8>, address: Seq<u8>)
    ensures
        ({
            let line = report_line(salt, address);
            let comma = 2 + 2 * salt.len() as int;
            &&& line.len() == comma + 3 + 2 * address.len()
            &&& line[0] == '0' && line[1] == 'x'
            &&& line[comma] == ',' && line[comma + 1] == '0' && line[comma + 2] == 'x'
            &&& forall|i: int|
                2 <= i < line.len() && !(comma <= i < comma + 3) ==> '0' <= #[trigger] line[i] <= '9'
                    || 'a' <= line[i] <= 'f'
            &&& forall|i: int|
                0 <= i < salt.len() ==> #[trigger] salt[i] == 16 * hex_char_value(line[2 + 2 * i])
                    + hex_char_value(line[3 + 2 * i])
            &&& forall|i: int|
                0 <= i < address.len() ==> #[trigger] address[i] == 16 * hex_char_value(
                    line[comma + 3 + 2 * i],
                ) + hex_char_value(line[comma + 4 + 2 * i])
            &&& hex_value(line.subrange(2, comma)) == be_value(salt)
            &&& hex_value(line.skip(comma + 3)) == be_value(address)
        }),
{
    reveal_strlit("0x");
    reveal_strlit(",0x");
    let line = report_line(salt, address);
    let comma = 2 + 2 * salt.len() as int;
    law_hex_text_stands_for_the_bytes(salt);
    law_hex_text_stands_for_the_bytes(address);
    assert(line.subrange(2, comma) =~= hex_text(salt));
    assert(line.skip(comma + 3) =~= hex_text(address));
    assert forall|i: int|
        2 <= i < line.len() && !(comma <= i < comma + 3) implies '0' <= #[trigger] line[i] <= '9'
        || 'a' <= line[i] <= 'f' by {
        if i < comma {
            assert(line[i] == hex_text(salt)[i - 2]);
        } else {
            assert(line[i] == hex_text(address)[i - comma - 3]);
        }
    }
    assert forall|i: int| 0 <= i < salt.len() implies #[trigger] salt[i] == 16 * hex_char_value(
        line[2 + 2 * i],
    ) + hex_char_value(line[3 + 2 * i]) by {
        lemma_digits_of_byte(salt, i);
        assert(line[2 + 2 * i] == hex_text(salt)[2 * i]);
        assert(line[3 + 2 * i] == hex_text(salt)[2 * i + 1]);
    }
    assert forall|i: int| 0 <= i < address.len() implies #[trigger] address[i] == 16
        * hex_char_value(line[comma + 3 + 2 * i]) + hex_char_value(line[comma + 4 + 2 * i]) by {
        lemma_digits_of_byte(address, i);
        assert(line[comma + 3 + 2 * i] == hex_text(address)[2 * i]);
        assert(line[comma + 4 + 2 * i] == hex_text(address)[2 * i + 1]);
    }
}

/// The report of a found solution: 109 characters, of which the last forty stand for the
/// number that the second word, the third and the upper half of the fourth make up, and the
/// 64 behind the first two for the number that the full salt makes up.
pub proof fn law_report_of_solution(salt_variant: SaltVariant, salt: Seq<u8>, solutions: Seq<u64>)
    requires
        salt.len() == 4,
        solutions.len() == 4,
    ensures
        ({
            let full = full_salt(salt_variant, salt, solutions[0]);
            let line = report_line(full, found_address(solutions));
            &&& line.len() == 109
            &&& hex_value(line.subrange(69, 85)) == solutions[1]
            &&& hex_value(line.subrange(85, 101)) == solutions[2]
            &&& hex_value(line.subrange(101, 109)) == solutions[3] / 0x1_0000_0000
            &&& hex_value(line.subrange(2, 66)) == be_value(full)
        }),
{
    let full = full_salt(salt_variant, salt, solutions[0]);
    let address = found_address(solutions);
    let line = report_line(full, address);
    law_lengths(salt_variant, salt, solutions);
    law_address_gives_words_back(solutions);
    law_report_character_by_character(full, address);
    lemma_address_field(full, address);
    lemma_field_value(line, address, 0, 8);
    lemma_field_value(line, address, 8, 16);
    lemma_field_value(line, address, 16, 20);
}

/// The address field of a report starts at character 69.
proof fn lemma_address_field(salt: Seq<u8>, address: Seq<u8>)
    requires
        salt.len() == 32,
    ensures
        report_line(salt, address).skip(69) == hex_text(address),
{
    reveal_strlit("0x");
    reveal_strlit(",0x");
    assert(report_line(salt, address).skip(69) =~= hex_text(address));
}

/// A part of the address field stands for the number that a part of the address makes up.
proof fn lemma_field_value(line: Seq<char>, address: Seq<u8>, from: int, to: int)
    requires
        0 <= from <= to <= address.len(),
        line.len() == 69 + 2 * address.len(),
        line.skip(69) == hex_text(address),
    ensures
        hex_value(line.subrange(69 + 2 * from, 69 + 2 * to)) == be_value(
            address.subrange(from, to),
        ),
{
    let part = address.subrange(from, to);
    let text = line.subrange(69 + 2 * from, 69 + 2 * to);
    law_hex_text_stands_for_the_bytes(part);
    assert forall|i: int| 0 <= i < text.len() implies text[i] == hex_text(part)[i] by {
        let k = 2 * from + i;
        assert(text[i] == line.skip(69)[k]);
        assert(k / 2 == from + i / 2 && k % 2 == i % 2);
        assert(part[i / 2] == address[k / 2]);
    }
    assert(text =~= hex_text(part));
}

} // verus!
