use createxcrunch::{mk_kernel_src, Config, CreateXVariant, RewardVariant, SaltVariant};

const PROXY: [u8; 32] = [
    0x21, 0xc3, 0x5d, 0xbe, 0x1b, 0x34, 0x4a, 0x24, 0x88, 0xcf, 0x33, 0x21, 0xd6, 0xce, 0x54, 0x2f, 0x8e,
    0x9f, 0x30, 0x55, 0x44, 0xff, 0x09, 0xe4, 0x99, 0x3a, 0x62, 0x31, 0x9a, 0x49, 0x7c, 0x1f,
];

fn config(salt_variant: SaltVariant, create_variant: CreateXVariant, reward: RewardVariant) -> Config<'static> {
    let mut factory_address = [0u8; 20];
    for (i, byte) in factory_address.iter_mut().enumerate() {
        *byte = 200 + i as u8;
    }
    Config {
        gpu_device: 0,
        factory_address,
        salt_variant,
        create_variant,
        reward,
        output: "out",
    }
}

fn leading() -> RewardVariant {
    RewardVariant::LeadingZeros { zeros_threshold: 4 }
}

fn factory_and_hash(hash: [u8; 32]) -> String {
    let mut text = String::new();
    for i in 0..20 {
        text += &format!("#define S2_{} {}u\n", i + 1, 200 + i);
    }
    for i in 0..32 {
        text += &format!("#define S2_{} {}u\n", i + 53, hash[i]);
    }
    text
}

#[test]
fn source_of_an_unbound_salt() {
    let config = config(SaltVariant::Random, CreateXVariant::Create3, leading());
    let mut expected = String::from(
        "#define GENERATE_SEED() RANDOM()\n#define LEADING_ZEROES 4\n#define SUCCESS_CONDITION() hasLeading(digest)\n#define CREATE3() RUN_CREATE3()\n",
    );
    for i in 12..32 {
        expected += &format!("#define S1_{i} 0u\n");
    }
    expected += &factory_and_hash(PROXY);
    expected += "__kernel void hashMessage() {}\n";
    assert_eq!(mk_kernel_src(&config, "__kernel void hashMessage() {}\n"), expected);
}

#[test]
fn source_of_a_salt_bound_to_both() {
    let mut chain_id = [0u8; 32];
    chain_id[31] = 137;
    let calling_address = [255; 20];
    let salt_variant = SaltVariant::CrosschainSender { chain_id, calling_address };
    let create_variant = CreateXVariant::Create2 { init_code_hash: [99; 32] };
    let config = config(salt_variant, create_variant, leading());
    let mut expected = String::from(
        "#define GENERATE_SEED() SENDER_XCHAIN()\n#define LEADING_ZEROES 4\n#define SUCCESS_CONDITION() hasLeading(digest)\n#define CREATE3()\n",
    );
    for i in 12..32 {
        expected += &format!("#define S1_{i} 255u\n");
    }
    for i in 32..63 {
        expected += &format!("#define S1_{i} 0u\n");
    }
    expected += "#define S1_63 137u\n";
    expected += &factory_and_hash([99; 32]);
    assert_eq!(mk_kernel_src(&config, ""), expected);
}

#[test]
fn seeds_of_the_other_bindings() {
    let chain = config(SaltVariant::Crosschain { chain_id: [7; 32] }, CreateXVariant::Create3, leading());
    let src = mk_kernel_src(&chain, "");
    assert!(src.starts_with("#define GENERATE_SEED() XCHAIN()\n"));
    assert!(src.contains("#define S1_31 0u\n#define S1_32 7u\n"));
    assert!(src.contains("#define S1_63 7u\n#define S2_1 200u\n"));
    let caller = config(SaltVariant::Sender { calling_address: [8; 20] }, CreateXVariant::Create3, leading());
    let src = mk_kernel_src(&caller, "");
    assert!(src.starts_with("#define GENERATE_SEED() SENDER()\n"));
    assert!(src.contains("#define S1_31 8u\n#define S2_1 200u\n"));
}

fn reward_lines(reward: RewardVariant) -> String {
    let src = mk_kernel_src(&config(SaltVariant::Random, CreateXVariant::Create3, reward), "");
    let start = src.find('\n').unwrap() + 1;
    let end = src.find("#define CREATE3()").unwrap();
    src[start..end].to_string()
}

#[test]
fn rewards_become_conditions() {
    assert_eq!(
        reward_lines(RewardVariant::TotalZeros { zeros_threshold: 10 }),
        "#define LEADING_ZEROES 0\n#define TOTAL_ZEROES 10\n#define SUCCESS_CONDITION() hasTotal(digest)\n"
    );
    assert_eq!(
        reward_lines(RewardVariant::LeadingAndTotalZeros {
            leading_zeros_threshold: 3,
            total_zeros_threshold: 20
        }),
        "#define LEADING_ZEROES 3\n#define TOTAL_ZEROES 20\n#define SUCCESS_CONDITION() hasLeading(digest) && hasTotal(digest)\n"
    );
    assert_eq!(
        reward_lines(RewardVariant::LeadingOrTotalZeros {
            leading_zeros_threshold: 3,
            total_zeros_threshold: 255
        }),
        "#define LEADING_ZEROES 3\n#define TOTAL_ZEROES 255\n#define SUCCESS_CONDITION() hasLeading(digest) || hasTotal(digest)\n"
    );
    let pattern = "ba5edXXXXXXXXXXXXXXXXXXXXXXXXXXXXXXba5ed";
    assert_eq!(
        reward_lines(RewardVariant::Matching { pattern: pattern.into() }),
        format!("#define LEADING_ZEROES 0\n#define PATTERN() \"{pattern}\"\n#define SUCCESS_CONDITION() isMatching(digest)\n")
    );
}

#[test]
fn no_macro_is_defined_twice() {
    let salt_variant = SaltVariant::CrosschainSender { chain_id: [1; 32], calling_address: [2; 20] };
    let src = mk_kernel_src(&config(salt_variant, CreateXVariant::Create3, leading()), "");
    let mut names: Vec<&str> = src.lines().map(|line| line.split(' ').nth(1).unwrap()).collect();
    assert_eq!(names.len(), 4 + 20 + 32 + 20 + 32);
    names.sort();
    names.dedup();
    assert_eq!(names.len(), 4 + 20 + 32 + 20 + 32);
}

#[test]
fn device_and_output_do_not_show() {
    let a = config(SaltVariant::Random, CreateXVariant::Create3, leading());
    let mut b = config(SaltVariant::Random, CreateXVariant::Create3, leading());
    b.gpu_device = 9;
    b.output = "elsewhere";
    assert_eq!(mk_kernel_src(&a, "k"), mk_kernel_src(&b, "k"));
}

#[test]
fn different_searches_have_different_sources() {
    let sources = [
        mk_kernel_src(&config(SaltVariant::Random, CreateXVariant::Create3, leading()), "k"),
        mk_kernel_src(
            &config(SaltVariant::Random, CreateXVariant::Create2 { init_code_hash: PROXY }, leading()),
            "k",
        ),
        mk_kernel_src(
            &config(SaltVariant::Sender { calling_address: [0; 20] }, CreateXVariant::Create3, leading()),
            "k",
        ),
        mk_kernel_src(
            &config(
                SaltVariant::Random,
                CreateXVariant::Create3,
                RewardVariant::LeadingZeros { zeros_threshold: 5 },
            ),
            "k",
        ),
    ];
    for i in 0..sources.len() {
        for j in 0..i {
            assert_ne!(sources[i], sources[j]);
        }
    }
}

#[test]
fn patterns_are_told_apart_whatever_they_hold() {
    let source = |pattern: &str| {
        let reward = RewardVariant::Matching { pattern: pattern.into() };
        mk_kernel_src(&config(SaltVariant::Random, CreateXVariant::Create3, reward), "k")
    };
    let patterns = ["", "\n", "\"", "\"\n", "\"\n#define SUCCESS_CONDITION() isMatching(digest)\n", "X\nX"];
    for i in 0..patterns.len() {
        for j in 0..i {
            assert_ne!(source(patterns[i]), source(patterns[j]));
        }
    }
}

#[test]
fn every_threshold_fits_on_a_line() {
    for zeros_threshold in 0..=255 {
        let reward = RewardVariant::TotalZeros { zeros_threshold };
        let src = mk_kernel_src(&config(SaltVariant::Random, CreateXVariant::Create3, reward), "");
        assert_eq!(src.lines().count(), 5 + 20 + 20 + 32);
        assert_eq!(src.lines().nth(2).unwrap(), format!("#define TOTAL_ZEROES {zeros_threshold}"));
    }
}
