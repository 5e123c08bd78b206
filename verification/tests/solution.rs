use createxcrunch::hex::decode_array;
use createxcrunch::solution::{assemble_address, assemble_salt, format_report};
use createxcrunch::{report_solution, SaltVariant};

const SALT: [u8; 4] = [0xa0, 0xa1, 0xa2, 0xa3];
const SOLUTIONS: [u64; 4] =
    [0x1122_3344_5566_7788, 0x0001_0203_0405_0607, 0x0809_0a0b_0c0d_0e0f, 0x1011_1213_1415_1617];
const MINED: [u8; 11] = [0xa0, 0xa1, 0xa2, 0xa3, 0x88, 0x77, 0x66, 0x55, 0x44, 0x33, 0x22];

#[test]
fn salt_layouts() {
    let calling_address = [0xcc; 20];
    let chain_id = [1; 32];
    let both = SaltVariant::CrosschainSender { chain_id, calling_address };
    assert_eq!(assemble_salt(&both, SALT, SOLUTIONS[0]), [&[0xcc; 20][..], &[1], &MINED].concat());
    let chain = SaltVariant::Crosschain { chain_id };
    assert_eq!(assemble_salt(&chain, SALT, SOLUTIONS[0]), [&[0; 20][..], &[1], &MINED].concat());
    let caller = SaltVariant::Sender { calling_address };
    assert_eq!(assemble_salt(&caller, SALT, SOLUTIONS[0]), [&[0xcc; 20][..], &[0], &MINED].concat());
    let random = SaltVariant::Random;
    assert_eq!(assemble_salt(&random, SALT, SOLUTIONS[0]), [&MINED[..], &[0; 21]].concat());
}

#[test]
fn salts_have_32_bytes_and_differ() {
    let variant = SaltVariant::Random;
    let salt = assemble_salt(&variant, SALT, 1);
    assert_eq!(salt.len(), 32);
    assert_ne!(salt, assemble_salt(&variant, SALT, 2));
    assert_ne!(salt, assemble_salt(&variant, [0; 4], 1));
    // the highest byte of the solution is not part of the salt
    assert_eq!(salt, assemble_salt(&variant, SALT, 1 + (5 << 56)));
}

#[test]
fn address_from_three_words() {
    let expected: Vec<u8> = (0..20).collect();
    assert_eq!(assemble_address(&SOLUTIONS), expected);
}

#[test]
fn report_of_small_fields() {
    assert_eq!(format_report(&[0x0f, 0xF0], &[0xab]), "0x0ff0,0xab");
    assert_eq!(format_report(&[], &[]), "0x,0x");
}

#[test]
fn report_reads_back() {
    let variant = SaltVariant::Crosschain { chain_id: [0; 32] };
    let line = report_solution(&variant, SALT, &SOLUTIONS);
    assert_eq!(
        line,
        "0x000000000000000000000000000000000000000001a0a1a2a388776655443322,0x000102030405060708090a0b0c0d0e0f10111213"
    );
    assert_eq!(line.len(), 109);
    let salt = decode_array::<32>(&line[..66]).unwrap();
    assert_eq!(salt.to_vec(), assemble_salt(&variant, SALT, SOLUTIONS[0]));
    let address = decode_array::<20>(&line[67..]).unwrap();
    assert_eq!(address.to_vec(), assemble_address(&SOLUTIONS));
}
