//! The source of the search kernel: a template behind the macros that fill it in.

use crate::config::{Config, CreateXVariant, RewardVariant, SaltVariant, zeros};
use crate::decimal::{decimal, push_decimal};
use vstd::prelude::*;

verus! {

/// The code hash of the proxy that every `CREATE3` deployment goes through.
pub const PROXY_CHILD_CODEHASH: [u8; 32] = [
    33, 195, 93, 190, 27, 52, 74, 36, 136, 207, 51, 33, 214, 206, 84, 47, 142, 159, 48, 85, 68, 255,
    9, 228, 153, 58, 98, 49, 154, 73, 124, 31,
];

/// A macro of the kernel source: its name, with brackets where it takes them, and what it
/// stands for, if anything.
#[verifier::ext_equal]
pub struct Define {
    pub name: Seq<char>,
    pub value: Option<Seq<char>>,
}

impl Define {
    /// The line that defines the macro, with its line feed.
    pub open spec fn line(self) -> Seq<char> {
        match self.value {
            Some(value) => "#define "@ + self.name + " "@ + value + "\n"@,
            None => "#define "@ + self.name + "\n"@,
        }
    }
}

/// A macro that stands for something.
pub open spec fn define(name: Seq<char>, value: Seq<char>) -> Define {
    Define { name, value: Some(value) }
}

/// The lines of some macros, in order.
pub open spec fn render(defines: Seq<Define>) -> Seq<char>
    decreases defines.len(),
{
    if defines.len() == 0 {
        Seq::empty()
    } else {
        render(defines.drop_last()) + defines.last().line()
    }
}

/// One numbered macro for each byte, the numbers counting up from `first`.
pub open spec fn byte_defines(prefix: Seq<char>, first: nat, bytes: Seq<u8>) -> Seq<Define> {
    Seq::new(
        bytes.len(),
        |i: int| define(prefix + decimal((first + i) as nat), decimal(bytes[i] as nat) + "u"@),
    )
}

/// How the kernel derives the seed of an address from the salt.
pub open spec fn seed_macro(salt_variant: SaltVariant) -> Seq<char> {
    match salt_variant {
        SaltVariant::CrosschainSender { .. } => "SENDER_XCHAIN()"@,
        SaltVariant::Crosschain { .. } => "XCHAIN()"@,
        SaltVariant::Sender { .. } => "SENDER()"@,
        SaltVariant::Random => "RANDOM()"@,
    }
}

/// The macros that say when an address is worth reporting.
pub open spec fn reward_defines(reward: RewardVariant) -> Seq<Define> {
    match reward {
        RewardVariant::LeadingZeros { zeros_threshold } => seq![
            define("LEADING_ZEROES"@, decimal(zeros_threshold as nat)),
            define("SUCCESS_CONDITION()"@, "hasLeading(digest)"@),
        ],
        RewardVariant::TotalZeros { zeros_threshold } => seq![
            define("LEADING_ZEROES"@, "0"@),
            define("TOTAL_ZEROES"@, decimal(zeros_threshold as nat)),
            define("SUCCESS_CONDITION()"@, "hasTotal(digest)"@),
        ],
        RewardVariant::LeadingAndTotalZeros {
            leading_zeros_threshold,
            total_zeros_threshold,
        } => seq![
            define("LEADING_ZEROES"@, decimal(leading_zeros_threshold as nat)),
            define("TOTAL_ZEROES"@, decimal(total_zeros_threshold as nat)),
            define("SUCCESS_CONDITION()"@, "hasLeading(digest) && hasTotal(digest)"@),
        ],
        RewardVariant::LeadingOrTotalZeros {
            leading_zeros_threshold,
            total_zeros_threshold,
        } => seq![
            define("LEADING_ZEROES"@, decimal(leading_zeros_threshold as nat)),
            define("TOTAL_ZEROES"@, decimal(total_zeros_threshold as nat)),
            define("SUCCESS_CONDITION()"@, "hasLeading(digest) || hasTotal(digest)"@),
        ],
        RewardVariant::Matching { pattern } => seq![
            define("LEADING_ZEROES"@, "0"@),
            define("PATTERN()"@, "\""@ + pattern@ + "\""@),
            define("SUCCESS_CONDITION()"@, "isMatching(digest)"@),
        ],
    }
}

/// The macro that says whether the address goes through a `CREATE3` proxy.
pub open spec fn create3_define(create_variant: CreateXVariant) -> Define {
    match create_variant {
        CreateXVariant::Create2 { .. } => Define { name: "CREATE3()"@, value: None },
        CreateXVariant::Create3 => define("CREATE3()"@, "RUN_CREATE3()"@),
    }
}

/// The calling address that the kernel hashes: zero where the salt is bound to none.
pub open spec fn kernel_caller(salt_variant: SaltVariant) -> Seq<u8> {
    match salt_variant@.1 {
        Some(calling_address) => calling_address,
        None => zeros(20),
    }
}

/// The chain id that the kernel hashes: nothing where the salt is bound to none.
pub open spec fn kernel_chain_id(salt_variant: SaltVariant) -> Seq<u8> {
    match salt_variant@.0 {
        Some(chain_id) => chain_id,
        None => Seq::empty(),
    }
}

/// The code hash that the kernel hashes: that of the proxy, unless one was given.
pub open spec fn kernel_code_hash(create_variant: CreateXVariant) -> Seq<u8> {
    match create_variant@ {
        Some(init_code_hash) => init_code_hash,
        None => PROXY_CHILD_CODEHASH@,
    }
}

/// All macros of the kernel source, in order.
pub open spec fn kernel_defines(config: &Config) -> Seq<Define> {
    seq![define("GENERATE_SEED()"@, seed_macro(config.salt_variant))] + reward_defines(
        config.reward,
    ) + seq![create3_define(config.create_variant)] + byte_defines(
        "S1_"@,
        12,
        kernel_caller(config.salt_variant),
    ) + byte_defines("S1_"@, 32, kernel_chain_id(config.salt_variant)) + byte_defines(
        "S2_"@,
        1,
        config.factory_address@,
    ) + byte_defines("S2_"@, 53, kernel_code_hash(config.create_variant))
}

/// Appending macros appends their lines.
pub(crate) proof fn lemma_render_concat(first: Seq<Define>, second: Seq<Define>)
    ensures
        render(first + second) == render(first) + render(second),
    decreases second.len(),
{
    if second.len() == 0 {
        assert(first + second =~= first);
        assert(render(first) + render(second) =~= render(first));
    } else {
        lemma_render_concat(first, second.drop_last());
        assert((first + second).drop_last() =~= first + second.drop_last());
        assert(render(first + second) =~= render(first) + render(second));
    }
}

/// Appends the line of a macro that stands for `value`.
fn push_define(src: &mut String, name: &str, value: &str)
    ensures
        final(src)@ == old(src)@ + define(name@, value@).line(),
{
    src.append("#define ");
    src.append(name);
    src.append(" ");
    src.append(value);
    src.append("\n");
    assert(src@ =~= old(src)@ + define(name@, value@).line());
}

/// Appends the line of a macro that stands for a number.
fn push_number_define(src: &mut String, name: &str, value: u8)
    ensures
        final(src)@ == old(src)@ + define(name@, decimal(value as nat)).line(),
{
    let mut numeral = String::new();
    push_decimal(&mut numeral, value as usize);
    assert(numeral@ =~= decimal(value as nat));
    push_define(src, name, numeral.as_str());
}

/// Appends the lines of the numbered macros of some bytes.
fn push_byte_defines(src: &mut String, prefix: &str, first: usize, bytes: &[u8])
    requires
        first + bytes@.len() <= usize::MAX,
    ensures
        final(src)@ == old(src)@ + render(byte_defines(prefix@, first as nat, bytes@)),
{
    let ghost all = byte_defines(prefix@, first as nat, bytes@);
    let mut i: usize = 0;
    assert(all.take(0) =~= Seq::empty());
    assert(src@ =~= old(src)@ + render(all.take(0)));
    while i < bytes.len()
        invariant
            i <= bytes@.len(),
            first + bytes@.len() <= usize::MAX,
            all == byte_defines(prefix@, first as nat, bytes@),
            src@ == old(src)@ + render(all.take(i as int)),
        decreases bytes@.len() - i,
    {
        let mut name = String::new();
        name.append(prefix);
        push_decimal(&mut name, first + i);
        let mut value = String::new();
        push_decimal(&mut value, bytes[i] as usize);
        value.append("u");
        assert(name@ =~= prefix@ + decimal((first + i) as nat));
        assert(value@ =~= decimal(bytes@[i as int] as nat) + "u"@);
        push_define(src, name.as_str(), value.as_str());
        assert(all.take(i + 1).drop_last() =~= all.take(i as int));
        assert(all.take(i + 1).last() == define(name@, value@));
        assert(src@ =~= old(src)@ + render(all.take(i + 1)));
        i += 1;
    }
    assert(all.take(bytes@.len() as int) =~= all);
}

/// The lines of one macro, of two, of three.
pub(crate) proof fn lemma_render_few(a: Define, b: Define, c: Define)
    ensures
        render(seq![a]) == a.line(),
        render(seq![a, b]) == a.line() + b.line(),
        render(seq![a, b, c]) == a.line() + b.line() + c.line(),
{
    reveal_with_fuel(render, 4);
    assert(seq![a].drop_last() =~= Seq::empty());
    assert(seq![a, b].drop_last() =~= seq![a]);
    assert(seq![a, b, c].drop_last() =~= seq![a, b]);
    assert(render(seq![a]) =~= a.line());
}

/// Appends the lines of the macros that say when an address is worth reporting.
fn push_reward_defines(src: &mut String, reward: &RewardVariant)
    ensures
        final(src)@ == old(src)@ + render(reward_defines(*reward)),
{
    match reward {
        RewardVariant::LeadingZeros { zeros_threshold } => {
            push_number_define(src, "LEADING_ZEROES", *zeros_threshold);
            push_define(src, "SUCCESS_CONDITION()", "hasLeading(digest)");
        },
        RewardVariant::TotalZeros { zeros_threshold } => {
            push_define(src, "LEADING_ZEROES", "0");
            push_number_define(src, "TOTAL_ZEROES", *zeros_threshold);
            push_define(src, "SUCCESS_CONDITION()", "hasTotal(digest)");
        },
        RewardVariant::LeadingAndTotalZeros {
            leading_zeros_threshold,
            total_zeros_threshold,
        } => {
            push_number_define(src, "LEADING_ZEROES", *leading_zeros_threshold);
            push_number_define(src, "TOTAL_ZEROES", *total_zeros_threshold);
            push_define(src, "SUCCESS_CONDITION()", "hasLeading(digest) && hasTotal(digest)");
        },
        RewardVariant::LeadingOrTotalZeros {
            leading_zeros_threshold,
            total_zeros_threshold,
        } => {
            push_number_define(src, "LEADING_ZEROES", *leading_zeros_threshold);
            push_number_define(src, "TOTAL_ZEROES", *total_zeros_threshold);
            push_define(src, "SUCCESS_CONDITION()", "hasLeading(digest) || hasTotal(digest)");
        },
        RewardVariant::Matching { pattern } => {
            push_define(src, "LEADING_ZEROES", "0");
            let mut quoted = String::new();
            quoted.append("\"");
            quoted.append(pattern);
            quoted.append("\"");
            assert(quoted@ =~= "\""@ + pattern@ + "\""@);
            push_define(src, "PATTERN()", quoted.as_str());
            push_define(src, "SUCCESS_CONDITION()", "isMatching(digest)");
        },
    }
    proof {
        let defines = reward_defines(*reward);
        if defines.len() == 2 {
            lemma_render_few(defines[0], defines[1], defines[1]);
            assert(defines =~= seq![defines[0], defines[1]]);
        } else {
            lemma_render_few(defines[0], defines[1], defines[2]);
            assert(defines =~= seq![defines[0], defines[1], defines[2]]);
        }
        assert(src@ =~= old(src)@ + render(defines));
    }
}

/// Creates the OpenCL kernel source code: the template `kernel_src` behind the macros that
/// carry the values of the configuration.
pub fn mk_kernel_src(config: &Config, kernel_src: &str) -> (src: String)
    ensures
        src@ == render(kernel_defines(config)) + kernel_src@,
{
    let mut src = String::new();
    let seed = match &config.salt_variant {
        SaltVariant::CrosschainSender { .. } => "SENDER_XCHAIN()",
        SaltVariant::Crosschain { .. } => "XCHAIN()",
        SaltVariant::Sender { .. } => "SENDER()",
        SaltVariant::Random => "RANDOM()",
    };
    push_define(&mut src, "GENERATE_SEED()", seed);
    let ghost seed_defines = seq![define("GENERATE_SEED()"@, seed_macro(config.salt_variant))];
    proof {
        lemma_render_few(seed_defines[0], seed_defines[0], seed_defines[0]);
        assert(src@ =~= render(seed_defines));
    }
    push_reward_defines(&mut src, &config.reward);
    let ghost create3 = create3_define(config.create_variant);
    let code_hash = match &config.create_variant {
        CreateXVariant::Create2 { init_code_hash } => {
            let ghost before = src@;
            src.append("#define CREATE3()\n");
            proof {
                reveal_strlit("#define CREATE3()\n");
                reveal_strlit("#define ");
                reveal_strlit("CREATE3()");
                reveal_strlit("\n");
                assert(src@ =~= before + create3.line());
            }
            *init_code_hash
        },
        CreateXVariant::Create3 => {
            push_define(&mut src, "CREATE3()", "RUN_CREATE3()");
            PROXY_CHILD_CODEHASH
        },
    };
    let caller = match &config.salt_variant {
        SaltVariant::CrosschainSender { chain_id: _, calling_address } => *calling_address,
        SaltVariant::Sender { calling_address } => *calling_address,
        _ => [0u8; 20],
    };
    assert(caller@ =~= kernel_caller(config.salt_variant));
    push_byte_defines(&mut src, "S1_", 12, caller.as_slice());
    match &config.salt_variant {
        SaltVariant::CrosschainSender { chain_id, calling_address: _ }
        | SaltVariant::Crosschain { chain_id } => {
            push_byte_defines(&mut src, "S1_", 32, chain_id.as_slice());
        },
        _ => {
            assert(byte_defines("S1_"@, 32, Seq::empty()) =~= Seq::empty());
            assert(src@ =~= src@ + render(Seq::empty()));
        },
    }
    push_byte_defines(&mut src, "S2_", 1, config.factory_address.as_slice());
    push_byte_defines(&mut src, "S2_", 53, code_hash.as_slice());
    src.append(kernel_src);
    proof {
        let reward = reward_defines(config.reward);
        let caller = byte_defines("S1_"@, 12, kernel_caller(config.salt_variant));
        let chain_id = byte_defines("S1_"@, 32, kernel_chain_id(config.salt_variant));
        let factory = byte_defines("S2_"@, 1, config.factory_address@);
        let hash = byte_defines("S2_"@, 53, kernel_code_hash(config.create_variant));
        lemma_render_few(create3, create3, create3);
        lemma_render_concat(seed_defines, reward);
        lemma_render_concat(seed_defines + reward, seq![create3]);
        lemma_render_concat(seed_defines + reward + seq![create3], caller);
        lemma_render_concat(seed_defines + reward + seq![create3] + caller, chain_id);
        lemma_render_concat(seed_defines + reward + seq![create3] + caller + chain_id, factory);
        lemma_render_concat(
            seed_defines + reward + seq![create3] + caller + chain_id + factory,
            hash,
        );
    }
    src
}

} // verus!
