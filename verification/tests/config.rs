use createxcrunch::checksum::checksum_holds;
use createxcrunch::{Config, CreateXVariant, RewardVariant, SaltVariant};

const FACTORY: &str = "0xba5Ed099633D3B313e4D5F7bdc1305d3c28ba5Ed";
const FACTORY_LOWER: &str = "ba5ed099633d3b313e4d5f7bdc1305d3c28ba5ed";
const FACTORY_BYTES: [u8; 20] = [
    0xba, 0x5e, 0xd0, 0x99, 0x63, 0x3d, 0x3b, 0x31, 0x3e, 0x4d, 0x5f, 0x7b, 0xdc, 0x13, 0x05, 0xd3, 0xc2,
    0x8b, 0xa5, 0xed,
];
const CALLER: &str = "d8dA6BF26964aF9D7eEd9e03E53415D37aA96045";
const CALLER_BYTES: [u8; 20] = [
    0xd8, 0xda, 0x6b, 0xf2, 0x69, 0x64, 0xaf, 0x9d, 0x7e, 0xed, 0x9e, 0x03, 0xe5, 0x34, 0x15, 0xd3, 0x7a,
    0xa9, 0x60, 0x45,
];
const ZERO: &str = "0x0000000000000000000000000000000000000000";
const HASH: &str = "000102030405060708090a0b0c0d0e0f101112131415161718191a1b1c1d1e1f";

fn leading(zeros_threshold: u8) -> RewardVariant {
    RewardVariant::LeadingZeros { zeros_threshold }
}

fn salt(calling_address: Option<&str>, chain_id: Option<u64>) -> SaltVariant {
    let config = Config::new(0, FACTORY, calling_address, chain_id, None, leading(1), "out");
    match config {
        Ok(config) => config.salt_variant,
        Err(message) => panic!("{message}"),
    }
}

fn verdict(reward: RewardVariant) -> Option<&'static str> {
    Config::new(0, FACTORY, None, None, None, reward, "out").err()
}

fn matching(pattern: &str) -> RewardVariant {
    RewardVariant::Matching {
        pattern: pattern.into(),
    }
}

#[test]
fn settings_are_kept() {
    let config = Config::new(7, FACTORY_LOWER, None, None, Some(HASH), leading(20), "out.txt");
    let config = config.ok().unwrap();
    assert_eq!(config.gpu_device, 7);
    assert_eq!(config.factory_address, FACTORY_BYTES);
    assert_eq!(config.output, "out.txt");
    assert!(matches!(config.reward, RewardVariant::LeadingZeros { zeros_threshold: 20 }));
    match config.create_variant {
        CreateXVariant::Create2 { init_code_hash } => {
            for (i, byte) in init_code_hash.iter().enumerate() {
                assert_eq!(*byte as usize, i);
            }
        }
        CreateXVariant::Create3 => panic!("a hash was given"),
    }
}

#[test]
fn no_hash_means_create3() {
    let config = Config::new(0, FACTORY, None, None, None, leading(1), "").ok().unwrap();
    assert!(matches!(config.create_variant, CreateXVariant::Create3));
    assert_eq!(config.factory_address, FACTORY_BYTES);
}

#[test]
fn salt_bound_to_chain_and_caller() {
    match salt(Some(CALLER), Some(0x0102_0304_0506_0708)) {
        SaltVariant::CrosschainSender { chain_id, calling_address } => {
            assert_eq!(calling_address, CALLER_BYTES);
            assert_eq!(chain_id[..24], [0u8; 24]);
            assert_eq!(chain_id[24..], [1, 2, 3, 4, 5, 6, 7, 8]);
        }
        _ => panic!("bound to both"),
    }
}

#[test]
fn salt_bound_to_chain() {
    match salt(None, Some(1)) {
        SaltVariant::Crosschain { chain_id } => {
            assert_eq!(chain_id[..31], [0u8; 31]);
            assert_eq!(chain_id[31], 1);
        }
        _ => panic!("bound to the chain"),
    }
}

#[test]
fn salt_bound_to_caller() {
    match salt(Some(CALLER), None) {
        SaltVariant::Sender { calling_address } => assert_eq!(calling_address, CALLER_BYTES),
        _ => panic!("bound to the caller"),
    }
}

#[test]
fn salt_bound_to_nothing() {
    assert!(matches!(salt(None, None), SaltVariant::Random));
    assert!(matches!(salt(Some(ZERO), None), SaltVariant::Random));
    assert!(matches!(salt(Some(ZERO), Some(1)), SaltVariant::Random));
}

#[test]
fn thresholds_from_one_to_twenty() {
    assert_eq!(verdict(leading(0)), Some("threshold must be greater than 0"));
    assert_eq!(verdict(leading(1)), None);
    assert_eq!(verdict(leading(20)), None);
    assert_eq!(verdict(leading(21)), Some("threshold must be less than 20"));
    let total = |zeros_threshold| RewardVariant::TotalZeros { zeros_threshold };
    assert_eq!(verdict(total(0)), Some("threshold must be greater than 0"));
    assert_eq!(verdict(total(20)), None);
    assert_eq!(verdict(total(255)), Some("threshold must be less than 20"));
}

#[test]
fn first_bad_threshold_is_named() {
    let both = |leading_zeros_threshold, total_zeros_threshold| {
        RewardVariant::LeadingAndTotalZeros { leading_zeros_threshold, total_zeros_threshold }
    };
    let either = |leading_zeros_threshold, total_zeros_threshold| {
        RewardVariant::LeadingOrTotalZeros { leading_zeros_threshold, total_zeros_threshold }
    };
    assert_eq!(verdict(both(0, 21)), Some("threshold must be greater than 0"));
    assert_eq!(verdict(both(21, 0)), Some("threshold must be less than 20"));
    assert_eq!(verdict(both(3, 0)), Some("threshold must be greater than 0"));
    assert_eq!(verdict(both(3, 4)), None);
    assert_eq!(verdict(either(0, 21)), Some("threshold must be greater than 0"));
    assert_eq!(verdict(either(4, 21)), Some("threshold must be less than 20"));
    assert_eq!(verdict(either(1, 20)), None);
}

#[test]
fn patterns_of_forty_digits() {
    let length = Some("matching pattern must be 40 characters long");
    let characters = Some("matching pattern must only contain 'X' or hex characters");
    assert_eq!(verdict(matching("XXXX0123456789abcdefABCDEFXXXXXXXXXXXXXX")), None);
    assert_eq!(verdict(matching("")), length);
    assert_eq!(verdict(matching(&"X".repeat(39))), length);
    assert_eq!(verdict(matching(&"X".repeat(41))), length);
    assert_eq!(verdict(matching(&"x".repeat(40))), characters);
    assert_eq!(verdict(matching(&"g".repeat(40))), characters);
    // the length counts bytes
    assert_eq!(verdict(matching(&"é".repeat(40))), length);
    assert_eq!(verdict(matching(&"é".repeat(20))), characters);
}

#[test]
fn factory_checksum_is_checked() {
    let invalid = Some("factory address uses invalid checksum");
    let verdict = |factory: &str| Config::new(0, factory, None, None, None, leading(1), "").err();
    assert_eq!(verdict(FACTORY), None);
    assert_eq!(verdict(&FACTORY[2..]), None);
    assert_eq!(verdict(FACTORY_LOWER), None);
    assert_eq!(verdict("0xBa5Ed099633D3B313e4D5F7bdc1305d3c28ba5Ed"), invalid);
    assert_eq!(verdict("BA5ED099633D3B313E4D5F7BDC1305D3C28BA5ED"), invalid);
    assert_eq!(verdict("0Xba5ed099633d3b313e4d5f7bdc1305d3c28ba5ed"), invalid);
}

#[test]
fn caller_checksum_is_checked() {
    let invalid = Some("caller address uses invalid checksum");
    let verdict = |caller: &str| Config::new(0, FACTORY, Some(caller), None, None, leading(1), "").err();
    assert_eq!(verdict(CALLER), None);
    assert_eq!(verdict("0xd8da6bf26964af9d7eed9e03e53415d37aa96045"), None);
    assert_eq!(verdict("0xD8dA6BF26964aF9D7eEd9e03E53415D37aA96045"), invalid);
    assert_eq!(verdict(ZERO), None);
}

#[test]
fn reward_before_factory_before_caller() {
    let bad_factory = "0xBa5Ed099633D3B313e4D5F7bdc1305d3c28ba5Ed";
    let bad_caller = "0xD8dA6BF26964aF9D7eEd9e03E53415D37aA96045";
    let verdict = |zeros, factory, caller| {
        Config::new(0, factory, Some(caller), None, None, leading(zeros), "").err()
    };
    assert_eq!(verdict(0, bad_factory, bad_caller), Some("threshold must be greater than 0"));
    assert_eq!(verdict(1, bad_factory, bad_caller), Some("factory address uses invalid checksum"));
    assert_eq!(verdict(1, FACTORY, bad_caller), Some("caller address uses invalid checksum"));
    assert_eq!(verdict(1, FACTORY, CALLER), None);
}

#[test]
fn parts_are_put_together() {
    let build = |factory_checksum, caller_checksum| {
        Config::from_parts(
            3,
            FACTORY_BYTES,
            Some(CALLER_BYTES),
            None,
            Some([9; 32]),
            leading(2),
            "out",
            factory_checksum,
            caller_checksum,
        )
    };
    assert_eq!(build(false, true).err(), Some("factory address uses invalid checksum"));
    assert_eq!(build(true, false).err(), Some("caller address uses invalid checksum"));
    let config = build(true, true).ok().unwrap();
    assert!(matches!(config.salt_variant, SaltVariant::Sender { calling_address: CALLER_BYTES }));
    assert!(matches!(config.create_variant, CreateXVariant::Create2 { init_code_hash } if init_code_hash == [9; 32]));
}

#[test]
fn at_most_one_mixed_case_spelling() {
    assert!(checksum_holds(FACTORY));
    assert!(checksum_holds(FACTORY_LOWER));
    // flipping the case of any one letter breaks the checksum
    let digits = &FACTORY[2..];
    for (i, c) in digits.char_indices() {
        if c.is_ascii_alphabetic() {
            let flipped = if c.is_ascii_lowercase() { c.to_ascii_uppercase() } else { c.to_ascii_lowercase() };
            let text = format!("0x{}{}{}", &digits[..i], flipped, &digits[i + 1..]);
            assert!(!checksum_holds(&text));
        }
    }
}
