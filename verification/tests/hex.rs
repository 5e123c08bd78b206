use createxcrunch::bytes::{to_be_bytes, to_le_bytes};
use createxcrunch::hex::{decode_array, DecodeError};
use createxcrunch::solution::format_report;

#[test]
fn decodes_either_case_and_prefix() {
    let expected = Ok([0x0a, 0xbc, 0xff]);
    assert_eq!(decode_array::<3>("0abcff"), expected);
    assert_eq!(decode_array::<3>("0ABCFF"), expected);
    assert_eq!(decode_array::<3>("0x0aBcFf"), expected);
    assert_eq!(decode_array::<3>("0X0abcff"), expected);
    assert_eq!(decode_array::<0>(""), Ok([]));
    assert_eq!(decode_array::<0>("0x"), Ok([]));
}

#[test]
fn malformed_before_length() {
    assert_eq!(decode_array::<3>("0abcf"), Err(DecodeError::Malformed));
    assert_eq!(decode_array::<3>("0abcfg"), Err(DecodeError::Malformed));
    assert_eq!(decode_array::<3>("0x0x0abcff"), Err(DecodeError::Malformed));
    assert_eq!(decode_array::<1>("é"), Err(DecodeError::Malformed));
    assert_eq!(decode_array::<3>("0abc"), Err(DecodeError::Length));
    assert_eq!(decode_array::<3>("0abcff00"), Err(DecodeError::Length));
}

#[test]
fn decoding_inverts_encoding() {
    let mut bytes = [0u8; 256];
    for (i, byte) in bytes.iter_mut().enumerate() {
        *byte = i as u8;
    }
    let line = format_report(&bytes, &[]);
    assert_eq!(&line[..8], "0x000102");
    assert_eq!(&line[510..], "feff,0x");
    assert_eq!(decode_array::<256>(&line[..514]), Ok(bytes));
}

#[test]
fn integers_split_into_bytes() {
    let x: u64 = 0x0102_0304_0506_07f8;
    assert_eq!(to_le_bytes(x), [0xf8, 7, 6, 5, 4, 3, 2, 1]);
    assert_eq!(to_be_bytes(x), [1, 2, 3, 4, 5, 6, 7, 0xf8]);
    assert_eq!(to_le_bytes(u64::MAX), [0xff; 8]);
    for x in [0, 1, 255, 256, 0xdead_beef, u64::MAX - 1] {
        assert_eq!(to_le_bytes(x), x.to_le_bytes());
        assert_eq!(to_be_bytes(x), x.to_be_bytes());
    }
}
