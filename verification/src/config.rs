//! The search configuration: what it holds, and which arguments it is refused for.

use crate::bytes::{be_bytes, law_bytes_are_worth_the_integer, to_be_bytes};
use crate::checksum::{checksum_holds, respects_checksum};
use crate::hex::{
    decode_array, hex_bytes, is_hex, is_hex_digit, law_hex_bytes_are_worth_the_digits, spells_bytes,
};
use crate::value::{be_value, behind_prefix, hex_value, lemma_be_value_zeros};
use vstd::prelude::*;
use vstd::utf8::{encode_utf8, is_ascii_chars, is_ascii_chars_encode_utf8};

verus! {

/// How the contract is created, and so which code hash enters its address.
pub enum CreateXVariant {
    Create2 { init_code_hash: [u8; 32] },
    Create3,
}

/// What makes an address worth reporting.
pub enum RewardVariant {
    LeadingZeros { zeros_threshold: u8 },
    TotalZeros { zeros_threshold: u8 },
    LeadingAndTotalZeros { leading_zeros_threshold: u8, total_zeros_threshold: u8 },
    LeadingOrTotalZeros { leading_zeros_threshold: u8, total_zeros_threshold: u8 },
    Matching { pattern: Box<str> },
}

/// What a salt is bound to: a chain, a caller, both or neither.
pub enum SaltVariant {
    CrosschainSender { chain_id: [u8; 32], calling_address: [u8; 20] },
    Crosschain { chain_id: [u8; 32] },
    Sender { calling_address: [u8; 20] },
    Random,
}

/// The settings of one search.
pub struct Config<'a> {
    pub gpu_device: u8,
    pub factory_address: [u8; 20],
    pub salt_variant: SaltVariant,
    pub create_variant: CreateXVariant,
    pub reward: RewardVariant,
    pub output: &'a str,
}

/// The init code hash, where there is one.
impl View for CreateXVariant {
    type V = Option<Seq<u8>>;

    open spec fn view(&self) -> Option<Seq<u8>> {
        match self {
            CreateXVariant::Create2 { init_code_hash } => Some(init_code_hash@),
            CreateXVariant::Create3 => None,
        }
    }
}

/// The chain id and the calling address that a salt is bound to.
impl View for SaltVariant {
    type V = (Option<Seq<u8>>, Option<Seq<u8>>);

    open spec fn view(&self) -> (Option<Seq<u8>>, Option<Seq<u8>>) {
        match self {
            SaltVariant::CrosschainSender { chain_id, calling_address } => (
                Some(chain_id@),
                Some(calling_address@),
            ),
            SaltVariant::Crosschain { chain_id } => (Some(chain_id@), None),
            SaltVariant::Sender { calling_address } => (None, Some(calling_address@)),
            SaltVariant::Random => (None, None),
        }
    }
}

/// `count` bytes, all zero.
pub open spec fn zeros(count: nat) -> Seq<u8> {
    Seq::new(count, |i: int| 0u8)
}

/// A chain id as a 32-byte word, most significant byte first.
pub open spec fn chain_id_word(chain_id: u64) -> Seq<u8> {
    zeros(24) + be_bytes(chain_id)
}

/// The view of the salt variant for an optional chain id and an optional calling address:
/// both bind the salt, except that the zero address stands for a salt bound to nothing.
pub open spec fn salt_binding(chain_id: Option<u64>, calling_address: Option<Seq<u8>>) -> (
    Option<Seq<u8>>,
    Option<Seq<u8>>,
) {
    if calling_address == Some(zeros(20)) {
        (None, None)
    } else {
        (
            match chain_id {
                Some(id) => Some(chain_id_word(id)),
                None => None,
            },
            calling_address,
        )
    }
}

/// Why a threshold on zero bytes is refused, if it is.
pub open spec fn threshold_refusal(threshold: u8) -> Option<Seq<char>> {
    if threshold == 0 {
        Some("threshold must be greater than 0"@)
    } else if threshold > 20 {
        Some("threshold must be less than 20"@)
    } else {
        None
    }
}

/// The characters of a pattern: a hexadecimal digit, or `X` for any digit.
pub open spec fn is_pattern_char(c: char) -> bool {
    c == 'X' || is_hex_digit(c)
}

/// Why a pattern is refused, if it is. Its length counts bytes.
pub open spec fn pattern_refusal(pattern: Seq<char>) -> Option<Seq<char>> {
    if encode_utf8(pattern).len() != 40 {
        Some("matching pattern must be 40 characters long"@)
    } else if exists|i: int| 0 <= i < pattern.len() && !is_pattern_char(#[trigger] pattern[i]) {
        Some("matching pattern must only contain 'X' or hex characters"@)
    } else {
        None
    }
}

/// Why one of two thresholds is refused, the first before the second.
pub open spec fn thresholds_refusal(first: u8, second: u8) -> Option<Seq<char>> {
    if threshold_refusal(first) is Some {
        threshold_refusal(first)
    } else {
        threshold_refusal(second)
    }
}

/// Why a reward is refused, if it is.
pub open spec fn reward_refusal(reward: RewardVariant) -> Option<Seq<char>> {
    match reward {
        RewardVariant::LeadingZeros { zeros_threshold } => threshold_refusal(zeros_threshold),
        RewardVariant::TotalZeros { zeros_threshold } => threshold_refusal(zeros_threshold),
        RewardVariant::LeadingAndTotalZeros {
            leading_zeros_threshold,
            total_zeros_threshold,
        } => thresholds_refusal(leading_zeros_threshold, total_zeros_threshold),
        RewardVariant::LeadingOrTotalZeros {
            leading_zeros_threshold,
            total_zeros_threshold,
        } => thresholds_refusal(leading_zeros_threshold, total_zeros_threshold),
        RewardVariant::Matching { pattern } => pattern_refusal(pattern@),
    }
}

/// A number of zero bytes that an address of twenty bytes can have, and need not have.
pub open spec fn valid_threshold(threshold: u8) -> bool {
    1 <= threshold <= 20
}

/// Forty characters, each of which may stand in a pattern.
pub open spec fn valid_pattern(pattern: Seq<char>) -> bool {
    &&& pattern.len() == 40
    &&& forall|i: int| 0 <= i < pattern.len() ==> is_pattern_char(#[trigger] pattern[i])
}

/// The thresholds or the pattern of a reward make sense for an address.
pub open spec fn valid_reward(reward: RewardVariant) -> bool {
    match reward {
        RewardVariant::LeadingZeros { zeros_threshold } => valid_threshold(zeros_threshold),
        RewardVariant::TotalZeros { zeros_threshold } => valid_threshold(zeros_threshold),
        RewardVariant::LeadingAndTotalZeros {
            leading_zeros_threshold,
            total_zeros_threshold,
        } => valid_threshold(leading_zeros_threshold) && valid_threshold(total_zeros_threshold),
        RewardVariant::LeadingOrTotalZeros {
            leading_zeros_threshold,
            total_zeros_threshold,
        } => valid_threshold(leading_zeros_threshold) && valid_threshold(total_zeros_threshold),
        RewardVariant::Matching { pattern } => valid_pattern(pattern@),
    }
}

/// A reward is refused exactly where it is not valid; in particular a pattern is accepted
/// exactly where it has forty characters, all of them `X` or hexadecimal digits.
pub proof fn law_valid_rewards_are_accepted(reward: RewardVariant)
    ensures
        reward_refusal(reward) is None <==> valid_reward(reward),
{
    if let RewardVariant::Matching { pattern } = reward {
        if forall|i: int| 0 <= i < pattern@.len() ==> is_pattern_char(#[trigger] pattern@[i]) {
            assert forall|i: int| 0 <= i < pattern@.len() implies '\0' <= #[trigger] pattern@[i]
                <= '\u{7f}' by {
                assert(is_pattern_char(pattern@[i]));
            }
            assert(is_ascii_chars(pattern@));
            is_ascii_chars_encode_utf8(pattern@);
        }
    }
}

/// Why a configuration is refused, if it is: the reward is looked at first, then the
/// checksum of the factory address, then that of the calling address.
pub open spec fn refusal(
    reward: RewardVariant,
    factory_checksum: bool,
    caller_checksum: bool,
) -> Option<Seq<char>> {
    if reward_refusal(reward) is Some {
        reward_refusal(reward)
    } else if !factory_checksum {
        Some("factory address uses invalid checksum"@)
    } else if !caller_checksum {
        Some("caller address uses invalid checksum"@)
    } else {
        None
    }
}

/// The elements of an optional array.
pub open spec fn array_bytes<const N: usize>(array: Option<[u8; N]>) -> Option<Seq<u8>> {
    match array {
        Some(array) => Some(array@),
        None => None,
    }
}

/// The bytes that an optional hexadecimal text spells.
pub open spec fn text_bytes(text: Option<&str>) -> Option<Seq<u8>> {
    match text {
        Some(text) => Some(hex_bytes(text@)),
        None => None,
    }
}

/// Rejects a threshold that every address of twenty bytes meets, or none.
fn validate_zeros_threshold(threshold: u8) -> (result: Result<(), &'static str>)
    ensures
        match result {
            Ok(()) => threshold_refusal(threshold) is None,
            Err(message) => threshold_refusal(threshold) == Some(message@),
        },
{
    if threshold == 0 {
        return Err("threshold must be greater than 0");
    }
    if threshold > 20 {
        return Err("threshold must be less than 20");
    }
    Ok(())
}

/// Rejects a pattern that cannot be laid over the forty digits of an address.
fn validate_pattern(pattern: &str) -> (result: Result<(), &'static str>)
    ensures
        match result {
            Ok(()) => pattern_refusal(pattern@) is None,
            Err(message) => pattern_refusal(pattern@) == Some(message@),
        },
{
    if pattern.as_bytes().len() != 40 {
        return Err("matching pattern must be 40 characters long");
    }
    for c in it: pattern.chars()
        invariant
            it.seq() == pattern@,
            encode_utf8(pattern@).len() == 40,
            forall|j: int| 0 <= j < it.index() ==> is_pattern_char(#[trigger] pattern@[j]),
    {
        let hex_digit = ('0' <= c && c <= '9') || ('a' <= c && c <= 'f') || ('A' <= c && c <= 'F');
        if !(c == 'X' || hex_digit) {
            assert(!is_pattern_char(pattern@[it.index()]));
            return Err("matching pattern must only contain 'X' or hex characters");
        }
    }
    Ok(())
}

/// Rejects a reward whose thresholds or pattern make no sense for an address.
fn validate_reward(reward: &RewardVariant) -> (result: Result<(), &'static str>)
    ensures
        match result {
            Ok(()) => reward_refusal(*reward) is None,
            Err(message) => reward_refusal(*reward) == Some(message@),
        },
{
    match reward {
        RewardVariant::LeadingZeros { zeros_threshold }
        | RewardVariant::TotalZeros { zeros_threshold } => validate_zeros_threshold(
            *zeros_threshold,
        ),
        RewardVariant::LeadingOrTotalZeros { leading_zeros_threshold, total_zeros_threshold }
        | RewardVariant::LeadingAndTotalZeros {
            leading_zeros_threshold,
            total_zeros_threshold,
        } => {
            validate_zeros_threshold(*leading_zeros_threshold)?;
            validate_zeros_threshold(*total_zeros_threshold)
        },
        RewardVariant::Matching { pattern } => validate_pattern(pattern),
    }
}

/// Says whether an address is the zero address.
fn is_zero_address(address: &[u8; 20]) -> (zero: bool)
    ensures
        zero == (address@ == zeros(20)),
{
    let mut i: usize = 0;
    while i < 20
        invariant
            i <= 20,
            forall|j: int| 0 <= j < i ==> address@[j] == 0,
        decreases 20 - i,
    {
        if address[i] != 0 {
            assert(zeros(20)[i as int] == 0);
            return false;
        }
        i += 1;
    }
    assert(address@ =~= zeros(20));
    true
}

/// Writes a chain id as a 32-byte word.
fn to_chain_id_word(chain_id: u64) -> (word: [u8; 32])
    ensures
        word@ == chain_id_word(chain_id),
{
    let id = to_be_bytes(chain_id);
    let mut word: [u8; 32] = [0u8; 32];
    let mut i: usize = 0;
    while i < 8
        invariant
            i <= 8,
            id@ == be_bytes(chain_id),
            forall|j: int| 0 <= j < 24 ==> word@[j] == 0,
            forall|j: int| 0 <= j < i ==> word@[24 + j] == id@[j],
        decreases 8 - i,
    {
        word[24 + i] = id[i];
        i += 1;
    }
    assert forall|j: int| 24 <= j < 32 implies word@[j] == id@[j - 24] by {
        assert(word@[24 + (j - 24)] == id@[j - 24]);
    }
    assert(word@ =~= chain_id_word(chain_id));
    word
}

impl<'a> Config<'a> {
    /// The configuration holds these settings.
    pub open spec fn holds(
        self,
        gpu_device: u8,
        factory_address: Seq<u8>,
        calling_address: Option<Seq<u8>>,
        chain_id: Option<u64>,
        init_code_hash: Option<Seq<u8>>,
        reward: RewardVariant,
        output: Seq<char>,
    ) -> bool {
        &&& self.gpu_device == gpu_device
        &&& self.factory_address@ == factory_address
        &&& self.salt_variant@ == salt_binding(chain_id, calling_address)
        &&& self.create_variant@ == init_code_hash
        &&& self.reward == reward
        &&& self.output@ == output
    }

    /// Builds a configuration from the texts of the command line. The two addresses and the
    /// hash are hexadecimal, with or without a prefix.
    pub fn new(
        gpu_device: u8,
        factory_address_str: &str,
        calling_address_str: Option<&str>,
        chain_id: Option<u64>,
        init_code_hash: Option<&str>,
        reward: RewardVariant,
        output: &'a str,
    ) -> (result: Result<Self, &'static str>)
        requires
            spells_bytes(factory_address_str@, 20),
            calling_address_str matches Some(text) ==> spells_bytes(text@, 20),
            init_code_hash matches Some(text) ==> spells_bytes(text@, 32),
        ensures
            ({
                let why = refusal(
                    reward,
                    respects_checksum(factory_address_str@),
                    calling_address_str matches Some(text) ==> respects_checksum(text@),
                );
                match result {
                    Ok(config) => why is None && valid_reward(config.reward) && config.holds(
                        gpu_device,
                        hex_bytes(factory_address_str@),
                        text_bytes(calling_address_str),
                        chain_id,
                        text_bytes(init_code_hash),
                        reward,
                        output@,
                    ),
                    Err(message) => why == Some(message@),
                }
            }),
    {
        let factory_address = decode_array::<20>(factory_address_str).unwrap();
        let factory_checksum = checksum_holds(factory_address_str);
        let (calling_address, caller_checksum) = match calling_address_str {
            Some(text) => (Some(decode_array::<20>(text).unwrap()), checksum_holds(text)),
            None => (None, true),
        };
        let init_code_hash = match init_code_hash {
            Some(text) => Some(decode_array::<32>(text).unwrap()),
            None => None,
        };
        Self::from_parts(
            gpu_device,
            factory_address,
            calling_address,
            chain_id,
            init_code_hash,
            reward,
            output,
            factory_checksum,
            caller_checksum,
        )
    }

    /// Builds a configuration from decoded arguments. The last two say whether the texts of
    /// the factory address and of the calling address respect their checksums; a calling
    /// address that is not given respects it.
    pub fn from_parts(
        gpu_device: u8,
        factory_address: [u8; 20],
        calling_address: Option<[u8; 20]>,
        chain_id: Option<u64>,
        init_code_hash: Option<[u8; 32]>,
        reward: RewardVariant,
        output: &'a str,
        factory_checksum: bool,
        caller_checksum: bool,
    ) -> (result: Result<Self, &'static str>)
        ensures
            ({
                let why = refusal(reward, factory_checksum, caller_checksum);
                match result {
                    Ok(config) => why is None && valid_reward(config.reward) && config.holds(
                        gpu_device,
                        factory_address@,
                        array_bytes(calling_address),
                        chain_id,
                        array_bytes(init_code_hash),
                        reward,
                        output@,
                    ),
                    Err(message) => why == Some(message@),
                }
            }),
    {
        validate_reward(&reward)?;
        proof {
            law_valid_rewards_are_accepted(reward);
        }
        if !factory_checksum {
            return Err("factory address uses invalid checksum");
        }
        if !caller_checksum {
            return Err("caller address uses invalid checksum");
        }
        let create_variant = match init_code_hash {
            Some(init_code_hash) => CreateXVariant::Create2 { init_code_hash },
            None => CreateXVariant::Create3,
        };
        let salt_variant = match (chain_id, calling_address) {
            (Some(id), Some(calling_address)) if !is_zero_address(&calling_address) => {
                SaltVariant::CrosschainSender { chain_id: to_chain_id_word(id), calling_address }
            },
            (Some(id), None) => SaltVariant::Crosschain { chain_id: to_chain_id_word(id) },
            (None, Some(calling_address)) if !is_zero_address(&calling_address) => {
                SaltVariant::Sender { calling_address }
            },
            _ => SaltVariant::Random,
        };
        Ok(
            Config {
                gpu_device,
                factory_address,
                salt_variant,
                create_variant,
                reward,
                output,
            },
        )
    }
}

/// A chain id fills the last eight of 32 bytes, which are worth the chain id.
pub proof fn law_chain_id_word_is_worth_the_chain_id(chain_id: u64)
    ensures
        chain_id_word(chain_id).len() == 32,
        be_value(chain_id_word(chain_id)) == chain_id,
{
    law_bytes_are_worth_the_integer(chain_id);
    lemma_be_value_zeros(24, be_bytes(chain_id));
}

/// What a configuration holds of its arguments, field by field. The salt is bound to the
/// chain and to the caller that were given, and to nothing where the caller is the zero
/// address; the 32 bytes of the chain id are worth the chain id.
pub proof fn law_fields_hold_the_arguments(
    config: Config,
    gpu_device: u8,
    factory_address: Seq<u8>,
    calling_address: Option<Seq<u8>>,
    chain_id: Option<u64>,
    init_code_hash: Option<Seq<u8>>,
    reward: RewardVariant,
    output: Seq<char>,
)
    requires
        config.holds(
            gpu_device,
            factory_address,
            calling_address,
            chain_id,
            init_code_hash,
            reward,
            output,
        ),
    ensures
        config.gpu_device == gpu_device,
        config.factory_address@ == factory_address,
        config.reward == reward,
        config.output@ == output,
        match config.create_variant {
            CreateXVariant::Create2 { init_code_hash: hash } => init_code_hash == Some(hash@),
            CreateXVariant::Create3 => init_code_hash is None,
        },
        match config.salt_variant {
            SaltVariant::CrosschainSender { chain_id: word, calling_address: caller } => {
                &&& chain_id matches Some(id) && be_value(word@) == id
                &&& calling_address == Some(caller@)
                &&& exists|i: int| 0 <= i < 20 && #[trigger] caller@[i] != 0
            },
            SaltVariant::Crosschain { chain_id: word } => {
                &&& chain_id matches Some(id) && be_value(word@) == id
                &&& calling_address is None
            },
            SaltVariant::Sender { calling_address: caller } => {
                &&& chain_id is None
                &&& calling_address == Some(caller@)
                &&& exists|i: int| 0 <= i < 20 && #[trigger] caller@[i] != 0
            },
            SaltVariant::Random => match calling_address {
                Some(caller) => caller.len() == 20 && forall|i: int|
                    0 <= i < 20 ==> #[trigger] caller[i] == 0,
                None => chain_id is None,
            },
        },
{
    if let Some(id) = chain_id {
        law_chain_id_word_is_worth_the_chain_id(id);
    }
    if let Some(caller) = calling_address {
        if caller.len() == 20 && forall|i: int| 0 <= i < 20 ==> #[trigger] caller[i] == 0 {
            assert(caller =~= zeros(20));
        }
    }
}

/// Configurations for different chains are bound to different chains, if at all.
pub proof fn law_chains_are_told_apart(id: u64, other: u64, calling_address: Option<Seq<u8>>)
    requires
        id != other,
        salt_binding(Some(id), calling_address) == salt_binding(Some(other), calling_address),
    ensures
        calling_address matches Some(caller) && caller.len() == 20 && forall|i: int|
            0 <= i < 20 ==> #[trigger] caller[i] == 0,
{
    law_chain_id_word_is_worth_the_chain_id(id);
    law_chain_id_word_is_worth_the_chain_id(other);
}

/// An optional text that spells bytes gives bytes that are worth its digits, and an optional
/// array its elements; nothing gives nothing.
pub proof fn law_optional_arguments<const N: usize>(text: Option<&str>, array: Option<[u8; N]>)
    ensures
        text_bytes(text) is Some <==> text is Some,
        text matches Some(text) ==> is_hex(text@) ==> {
            &&& 2 * text_bytes(Some(text))->0.len() == behind_prefix(text@).len()
            &&& be_value(text_bytes(Some(text))->0) == hex_value(behind_prefix(text@))
        },
        array_bytes(array) is Some <==> array is Some,
        array matches Some(array) ==> {
            &&& array_bytes(Some(array))->0.len() == N
            &&& forall|i: int| 0 <= i < N ==> #[trigger] array_bytes(Some(array))->0[i] == array@[i]
        },
{
    if let Some(text) = text {
        law_hex_bytes_are_worth_the_digits(text@, 0);
    }
}

/// What is answered to a configuration with one threshold: it is accepted from 1 to 20.
pub proof fn law_answers_to_one_threshold(
    reward: RewardVariant,
    threshold: u8,
    factory_checksum: bool,
    caller_checksum: bool,
)
    requires
        reward == (RewardVariant::LeadingZeros { zeros_threshold: threshold }) || reward == (
        RewardVariant::TotalZeros { zeros_threshold: threshold }),
    ensures
        ({
            let answer = refusal(reward, factory_checksum, caller_checksum);
            &&& threshold == 0 ==> answer == Some("threshold must be greater than 0"@)
            &&& threshold > 20 ==> answer == Some("threshold must be less than 20"@)
            &&& 1 <= threshold <= 20 ==> match answer {
                Some(message) => {
                    ||| !factory_checksum && message == "factory address uses invalid checksum"@
                    ||| factory_checksum && !caller_checksum && message
                        == "caller address uses invalid checksum"@
                },
                None => factory_checksum && caller_checksum,
            }
        }),
{
}

/// What is answered to a configuration with two thresholds: both are accepted from 1 to 20,
/// and the first is looked at first.
pub proof fn law_answers_to_two_thresholds(
    reward: RewardVariant,
    leading: u8,
    total: u8,
    factory_checksum: bool,
    caller_checksum: bool,
)
    requires
        reward == (RewardVariant::LeadingAndTotalZeros {
            leading_zeros_threshold: leading,
            total_zeros_threshold: total,
        }) || reward == (RewardVariant::LeadingOrTotalZeros {
            leading_zeros_threshold: leading,
            total_zeros_threshold: total,
        }),
    ensures
        ({
            let answer = refusal(reward, factory_checksum, caller_checksum);
            &&& leading == 0 ==> answer == Some("threshold must be greater than 0"@)
            &&& leading > 20 ==> answer == Some("threshold must be less than 20"@)
            &&& 1 <= leading <= 20 && total == 0 ==> answer == Some(
                "threshold must be greater than 0"@,
            )
            &&& 1 <= leading <= 20 && total > 20 ==> answer == Some(
                "threshold must be less than 20"@,
            )
            &&& 1 <= leading <= 20 && 1 <= total <= 20 ==> match answer {
                Some(message) => {
                    ||| !factory_checksum && message == "factory address uses invalid checksum"@
                    ||| factory_checksum && !caller_checksum && message
                        == "caller address uses invalid checksum"@
                },
                None => factory_checksum && caller_checksum,
            }
        }),
{
}

/// What is answered to a configuration with a pattern: it is accepted with forty characters,
/// each `X` or a hexadecimal digit; else one that does not take forty bytes is told so, and
/// one that does is told of its characters.
pub proof fn law_answers_to_patterns(
    pattern: Box<str>,
    factory_checksum: bool,
    caller_checksum: bool,
)
    ensures
        ({
            let reward = RewardVariant::Matching { pattern };
            let answer = refusal(reward, factory_checksum, caller_checksum);
            let digits = forall|i: int|
                0 <= i < pattern@.len() ==> {
                    ||| #[trigger] pattern@[i] == 'X'
                    ||| '0' <= pattern@[i] <= '9'
                    ||| 'a' <= pattern@[i] <= 'f'
                    ||| 'A' <= pattern@[i] <= 'F'
                };
            &&& digits && pattern@.len() != 40 ==> answer == Some(
                "matching pattern must be 40 characters long"@,
            )
            &&& !digits && encode_utf8(pattern@).len() != 40 ==> answer == Some(
                "matching pattern must be 40 characters long"@,
            )
            &&& !digits && encode_utf8(pattern@).len() == 40 ==> answer == Some(
                "matching pattern must only contain 'X' or hex characters"@,
            )
            &&& digits && pattern@.len() == 40 ==> match answer {
                Some(message) => {
                    ||| !factory_checksum && message == "factory address uses invalid checksum"@
                    ||| factory_checksum && !caller_checksum && message
                        == "caller address uses invalid checksum"@
                },
                None => factory_checksum && caller_checksum,
            }
        }),
{
    let reward = RewardVariant::Matching { pattern };
    let digits = forall|i: int|
        0 <= i < pattern@.len() ==> {
            ||| #[trigger] pattern@[i] == 'X'
            ||| '0' <= pattern@[i] <= '9'
            ||| 'a' <= pattern@[i] <= 'f'
            ||| 'A' <= pattern@[i] <= 'F'
        };
    if digits {
        assert forall|i: int| 0 <= i < pattern@.len() implies is_pattern_char(
            #[trigger] pattern@[i],
        ) && '\0' <= pattern@[i] <= '\u{7f}' by {}
        is_ascii_chars_encode_utf8(pattern@);
    } else {
        let i = choose|i: int|
            0 <= i < pattern@.len() && !{
                ||| #[trigger] pattern@[i] == 'X'
                ||| '0' <= pattern@[i] <= '9'
                ||| 'a' <= pattern@[i] <= 'f'
                ||| 'A' <= pattern@[i] <= 'F'
            };
        assert(!is_pattern_char(pattern@[i]));
    }
}

} // verus!
