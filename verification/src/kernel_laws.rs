//! What holds of every kernel source.

use crate::config::{Config, CreateXVariant, RewardVariant, SaltVariant};
use crate::decimal::{decimal, law_decimal_injective, lemma_decimal_digits};
use crate::kernel::{
    byte_defines, create3_define, define, kernel_caller, kernel_chain_id, kernel_code_hash,
    kernel_defines, lemma_render_concat, lemma_render_few, render, reward_defines, seed_macro, Define,
    PROXY_CHILD_CODEHASH,
};
use crate::value::be_value;
use vstd::prelude::*;

verus! {

/// The macros without a number: seed, reward and `CREATE3`.
spec fn head_defines(config: &Config) -> Seq<Define> {
    seq![define("GENERATE_SEED()"@, seed_macro(config.salt_variant))] + reward_defines(
        config.reward,
    ) + seq![create3_define(config.create_variant)]
}

/// The macros of the calling address and of the chain id number the same sequence.
spec fn first_bytes(config: &Config) -> Seq<u8> {
    kernel_caller(config.salt_variant) + kernel_chain_id(config.salt_variant)
}

/// The number of the macro of byte `i` of the second message, where the factory address and
/// the code hash leave a gap for the salt.
spec fn second_number(i: int) -> nat {
    if i < 20 {
        (1 + i) as nat
    } else {
        (33 + i) as nat
    }
}

/// The macros without a number have different names, and none of them has a digit second.
proof fn lemma_head_names(config: &Config)
    ensures
        forall|i: int, j: int|
            0 <= i < j < head_defines(config).len() ==> (#[trigger] head_defines(config)[i]).name
                != (#[trigger] head_defines(config)[j]).name,
        forall|i: int|
            0 <= i < head_defines(config).len() ==> (#[trigger] head_defines(config)[i]).name.len()
                >= 2 && head_defines(config)[i].name[1] > '9',
{
    reveal_strlit("GENERATE_SEED()");
    reveal_strlit("LEADING_ZEROES");
    reveal_strlit("TOTAL_ZEROES");
    reveal_strlit("PATTERN()");
    reveal_strlit("SUCCESS_CONDITION()");
    reveal_strlit("CREATE3()");
    let head = head_defines(config);
    assert forall|i: int, j: int| 0 <= i < j < head.len() implies (#[trigger] head[i]).name != (
    #[trigger] head[j]).name by {
        assert(head[i].name[0] != head[j].name[0]);
    }
}

/// What the numbered macros are called, by their place behind the others.
proof fn lemma_tail_names(config: &Config, i: int)
    requires
        0 <= i < kernel_defines(config).len() - head_defines(config).len(),
    ensures
        ({
            let define = kernel_defines(config)[head_defines(config).len() + i];
            let first = first_bytes(config).len();
            if i < first {
                define.name == "S1_"@ + decimal((12 + i) as nat)
            } else {
                define.name == "S2_"@ + decimal(second_number(i - first))
            }
        }),
{
}

/// Names with different numbers differ.
proof fn lemma_numbered_names(prefix: Seq<char>, m: nat, n: nat)
    requires
        prefix + decimal(m) == prefix + decimal(n),
    ensures
        m == n,
{
    assert((prefix + decimal(m)).skip(prefix.len() as int) =~= decimal(m));
    assert((prefix + decimal(n)).skip(prefix.len() as int) =~= decimal(n));
    law_decimal_injective(m, n);
}

/// No macro is defined twice.
pub proof fn law_names_differ(config: &Config, i: int, j: int)
    requires
        0 <= i < j < kernel_defines(config).len(),
    ensures
        kernel_defines(config)[i].name != kernel_defines(config)[j].name,
{
    let all = kernel_defines(config);
    let head = head_defines(config).len() as int;
    let first = first_bytes(config).len() as int;
    reveal_strlit("S1_");
    reveal_strlit("S2_");
    lemma_head_names(config);
    assert forall|k: int| 0 <= k < head implies all[k] == #[trigger] head_defines(config)[k] by {}
    if j < head {
        assert(head_defines(config)[i].name != head_defines(config)[j].name);
    } else {
        lemma_tail_names(config, j - head);
        assert(all[j].name[1] <= '9');
        if i < head {
            assert(head_defines(config)[i].name[1] > '9');
        } else {
            lemma_tail_names(config, i - head);
            if all[i].name == all[j].name {
                assert(all[i].name[1] == all[j].name[1]);
                if j - head < first {
                    lemma_numbered_names("S1_"@, (12 + i - head) as nat, (12 + j - head) as nat);
                } else {
                    lemma_numbered_names(
                        "S2_"@,
                        second_number(i - head - first),
                        second_number(j - head - first),
                    );
                }
            }
        }
    }
}

/// The macros carry every byte that the kernel hashes: the calling address from `S1_12`,
/// the chain id from `S1_32`, the factory address from `S2_1`, the code hash from `S2_53`.
pub proof fn law_bytes_are_carried(config: &Config, i: int)
    ensures
        0 <= i < 20 ==> kernel_defines(config).contains(
            define(
                "S1_"@ + decimal((12 + i) as nat),
                decimal(kernel_caller(config.salt_variant)[i] as nat) + "u"@,
            ),
        ),
        0 <= i < kernel_chain_id(config.salt_variant).len() ==> kernel_defines(config).contains(
            define(
                "S1_"@ + decimal((32 + i) as nat),
                decimal(kernel_chain_id(config.salt_variant)[i] as nat) + "u"@,
            ),
        ),
        0 <= i < 20 ==> kernel_defines(config).contains(
            define(
                "S2_"@ + decimal((1 + i) as nat),
                decimal(config.factory_address@[i] as nat) + "u"@,
            ),
        ),
        0 <= i < 32 ==> kernel_defines(config).contains(
            define(
                "S2_"@ + decimal((53 + i) as nat),
                decimal(kernel_code_hash(config.create_variant)[i] as nat) + "u"@,
            ),
        ),
{
    let all = kernel_defines(config);
    let head = head_defines(config).len() as int;
    let first = first_bytes(config).len() as int;
    let chain_id = kernel_chain_id(config.salt_variant);
    let hash = kernel_code_hash(config.create_variant);
    if 0 <= i < 20 {
        assert(all[head + i] == define(
            "S1_"@ + decimal((12 + i) as nat),
            decimal(kernel_caller(config.salt_variant)[i] as nat) + "u"@,
        ));
        assert(all[head + first + i] == define(
            "S2_"@ + decimal((1 + i) as nat),
            decimal(config.factory_address@[i] as nat) + "u"@,
        ));
    }
    if 0 <= i < chain_id.len() {
        assert(all[head + 20 + i] == define(
            "S1_"@ + decimal((32 + i) as nat),
            decimal(chain_id[i] as nat) + "u"@,
        ));
    }
    if 0 <= i < 32 {
        assert(all[head + first + 20 + i] == define(
            "S2_"@ + decimal((53 + i) as nat),
            decimal(hash[i] as nat) + "u"@,
        ));
    }
}

/// The text holds no line feed.
pub open spec fn is_one_line(text: Seq<char>) -> bool {
    forall|i: int| 0 <= i < text.len() ==> #[trigger] text[i] != '\n'
}

/// The text holds neither a line feed nor a quotation mark.
spec fn is_bare(text: Seq<char>) -> bool {
    forall|i: int| 0 <= i < text.len() ==> #[trigger] text[i] != '\n' && text[i] != '"'
}

/// Name and value of the macro are bare.
spec fn is_bare_macro(define: Define) -> bool {
    is_bare(define.name) && (define.value matches Some(value) ==> is_bare(value))
}

/// Numerals are bare.
proof fn lemma_decimal_is_bare(n: nat)
    ensures
        is_bare(decimal(n)),
{
    lemma_decimal_digits(n);
}

/// The macros of some bytes are bare.
proof fn lemma_byte_defines_bare(prefix: Seq<char>, first: nat, bytes: Seq<u8>, i: int)
    requires
        is_bare(prefix),
        0 <= i < bytes.len(),
    ensures
        is_bare(byte_defines(prefix, first, bytes)[i].name),
        is_bare(byte_defines(prefix, first, bytes)[i].value->0),
{
    reveal_strlit("u");
    lemma_decimal_is_bare((first + i) as nat);
    lemma_decimal_is_bare(bytes[i] as nat);
}

/// The macros that say when an address is worth reporting are bare, but for the value of
/// the pattern.
proof fn lemma_reward_defines_bare(reward: RewardVariant, i: int)
    requires
        0 <= i < reward_defines(reward).len(),
    ensures
        is_bare(reward_defines(reward)[i].name),
        reward is Matching && i == 1 || is_bare(reward_defines(reward)[i].value->0),
{
    reveal_strlit("LEADING_ZEROES");
    reveal_strlit("TOTAL_ZEROES");
    reveal_strlit("PATTERN()");
    reveal_strlit("SUCCESS_CONDITION()");
    reveal_strlit("0");
    reveal_strlit("hasLeading(digest)");
    reveal_strlit("hasTotal(digest)");
    reveal_strlit("hasLeading(digest) && hasTotal(digest)");
    reveal_strlit("hasLeading(digest) || hasTotal(digest)");
    reveal_strlit("isMatching(digest)");
    match reward {
        RewardVariant::LeadingZeros { zeros_threshold } => {
            lemma_decimal_is_bare(zeros_threshold as nat);
        },
        RewardVariant::TotalZeros { zeros_threshold } => {
            lemma_decimal_is_bare(zeros_threshold as nat);
        },
        RewardVariant::LeadingAndTotalZeros {
            leading_zeros_threshold,
            total_zeros_threshold,
        } => {
            lemma_decimal_is_bare(leading_zeros_threshold as nat);
            lemma_decimal_is_bare(total_zeros_threshold as nat);
        },
        RewardVariant::LeadingOrTotalZeros {
            leading_zeros_threshold,
            total_zeros_threshold,
        } => {
            lemma_decimal_is_bare(leading_zeros_threshold as nat);
            lemma_decimal_is_bare(total_zeros_threshold as nat);
        },
        RewardVariant::Matching { .. } => {},
    }
}

/// All macros are bare, but for the value of the pattern, which comes third.
proof fn lemma_macros_are_bare(config: &Config, i: int)
    requires
        0 <= i < kernel_defines(config).len(),
    ensures
        is_bare(kernel_defines(config)[i].name),
        config.reward is Matching && i == 2 || is_bare_macro(kernel_defines(config)[i]),
{
    let all = kernel_defines(config);
    let reward = reward_defines(config.reward);
    let caller = kernel_caller(config.salt_variant);
    let chain_id = kernel_chain_id(config.salt_variant);
    let factory = config.factory_address@;
    let hash = kernel_code_hash(config.create_variant);
    let j = i - 1 - reward.len() - 1;
    reveal_strlit("S1_");
    reveal_strlit("S2_");
    if i == 0 {
        reveal_strlit("GENERATE_SEED()");
        reveal_strlit("SENDER_XCHAIN()");
        reveal_strlit("XCHAIN()");
        reveal_strlit("SENDER()");
        reveal_strlit("RANDOM()");
    } else if i <= reward.len() {
        lemma_reward_defines_bare(config.reward, i - 1);
        assert(all[i] == reward[i - 1]);
    } else if j < 0 {
        reveal_strlit("CREATE3()");
        reveal_strlit("RUN_CREATE3()");
    } else if j < 20 {
        lemma_byte_defines_bare("S1_"@, 12, caller, j);
    } else if j < 20 + chain_id.len() {
        lemma_byte_defines_bare("S1_"@, 32, chain_id, j - 20);
    } else if j < 40 + chain_id.len() {
        lemma_byte_defines_bare("S2_"@, 1, factory, j - 20 - chain_id.len());
    } else {
        lemma_byte_defines_bare("S2_"@, 53, hash, j - 40 - chain_id.len());
    }
}

/// Every macro fits on one line, unless there is a pattern with a line feed in it.
pub proof fn law_macros_fit_on_lines(config: &Config, i: int)
    requires
        config.reward matches RewardVariant::Matching { pattern } ==> is_one_line(pattern@),
        0 <= i < kernel_defines(config).len(),
    ensures
        is_one_line(kernel_defines(config)[i].name),
        kernel_defines(config)[i].value matches Some(value) ==> is_one_line(value),
{
    reveal_strlit("\"");
    lemma_macros_are_bare(config, i);
}

/// Two rewards of the same kind, with the same thresholds or the same pattern.
pub open spec fn same_reward(reward: RewardVariant, other: RewardVariant) -> bool {
    match (reward, other) {
        (
            RewardVariant::LeadingZeros { zeros_threshold: a },
            RewardVariant::LeadingZeros { zeros_threshold: b },
        ) => a == b,
        (
            RewardVariant::TotalZeros { zeros_threshold: a },
            RewardVariant::TotalZeros { zeros_threshold: b },
        ) => a == b,
        (
            RewardVariant::LeadingAndTotalZeros {
                leading_zeros_threshold: a,
                total_zeros_threshold: b,
            },
            RewardVariant::LeadingAndTotalZeros {
                leading_zeros_threshold: c,
                total_zeros_threshold: d,
            },
        ) => a == c && b == d,
        (
            RewardVariant::LeadingOrTotalZeros {
                leading_zeros_threshold: a,
                total_zeros_threshold: b,
            },
            RewardVariant::LeadingOrTotalZeros {
                leading_zeros_threshold: c,
                total_zeros_threshold: d,
            },
        ) => a == c && b == d,
        (
            RewardVariant::Matching { pattern: a },
            RewardVariant::Matching { pattern: b },
        ) => a@ == b@,
        _ => false,
    }
}

/// Two configurations that differ at most in the device and in the output.
pub open spec fn same_search(config: &Config, other: &Config) -> bool {
    &&& config.salt_variant@ == other.salt_variant@
    &&& config.create_variant@ == other.create_variant@
    &&& config.factory_address@ == other.factory_address@
    &&& same_reward(config.reward, other.reward)
}

/// The device and the output do not show in the source.
pub proof fn law_source_depends_on_search_only(config: &Config, other: &Config)
    requires
        same_search(config, other),
    ensures
        kernel_defines(config) == kernel_defines(other),
{
    assert(reward_defines(config.reward) =~= reward_defines(other.reward));
}

/// The macro can be told from its line: no line feed, and no space in its name.
spec fn is_plain(define: Define) -> bool {
    &&& is_one_line(define.name)
    &&& forall|i: int| 0 <= i < define.name.len() ==> #[trigger] define.name[i] != ' '
    &&& define.value matches Some(value) ==> is_one_line(value)
}

/// A line ends with its only line feed.
proof fn lemma_line_feed(define: Define)
    requires
        is_plain(define),
    ensures
        define.line().len() >= 9,
        define.line().last() == '\n',
        is_one_line(define.line().drop_last()),
{
    reveal_strlit("#define ");
    reveal_strlit(" ");
    reveal_strlit("\n");
    let line = define.line();
    match define.value {
        Some(value) => {
            assert(line.drop_last() =~= "#define "@ + define.name + " "@ + value);
        },
        None => {
            assert(line.drop_last() =~= "#define "@ + define.name);
        },
    }
}

/// Different macros have different lines.
proof fn lemma_line_injective(a: Define, b: Define)
    requires
        is_plain(a),
        is_plain(b),
        a.line() == b.line(),
    ensures
        a == b,
{
    reveal_strlit("#define ");
    reveal_strlit(" ");
    reveal_strlit("\n");
    let line = a.line();
    let body = line.subrange(8, line.len() - 1);
    if a.value is None {
        assert(body =~= a.name);
    } else {
        assert(body =~= a.name + " "@ + a.value->0);
    }
    if b.value is None {
        assert(body =~= b.name);
    } else {
        assert(body =~= b.name + " "@ + b.value->0);
    }
    if a.value is Some {
        assert(body[a.name.len() as int] == ' ');
    }
    if b.value is Some {
        assert(body[b.name.len() as int] == ' ');
    }
    if a.name.len() < b.name.len() {
        assert(a.value is Some);
        assert(body[a.name.len() as int] == b.name[a.name.len() as int]);
    }
    if b.name.len() < a.name.len() {
        assert(b.value is Some);
        assert(body[b.name.len() as int] == a.name[b.name.len() as int]);
    }
    assert(a.name =~= body.take(a.name.len() as int));
    assert(b.name =~= body.take(b.name.len() as int));
    if a.value is Some {
        assert(a.value->0 =~= body.skip(a.name.len() as int + 1));
        assert(b.value->0 =~= body.skip(b.name.len() as int + 1));
    }
}

/// A text that starts with a line starts with no other.
proof fn lemma_first_line(a: Define, b: Define, x: Seq<char>, y: Seq<char>)
    requires
        is_plain(a),
        is_plain(b),
        a.line() + x == b.line() + y,
    ensures
        a == b,
        x == y,
{
    lemma_line_feed(a);
    lemma_line_feed(b);
    let text = a.line() + x;
    let (n, m) = (a.line().len() as int, b.line().len() as int);
    if n < m {
        assert(text[n - 1] == a.line().last());
        assert(text[n - 1] == b.line().drop_last()[n - 1]);
    }
    if m < n {
        assert(text[m - 1] == b.line().last());
        assert(text[m - 1] == a.line().drop_last()[m - 1]);
    }
    assert(a.line() =~= text.take(n));
    assert(b.line() =~= text.take(m));
    assert(x =~= text.skip(n));
    assert(y =~= text.skip(m));
    lemma_line_injective(a, b);
}

/// The first macro gives the first line.
proof fn lemma_render_first(defines: Seq<Define>)
    requires
        defines.len() > 0,
    ensures
        render(defines) == defines[0].line() + render(defines.drop_first()),
{
    let first = defines[0];
    assert(defines =~= seq![first] + defines.drop_first());
    lemma_render_concat(seq![first], defines.drop_first());
    lemma_render_few(first, first, first);
}

/// The lines of some macros give the macros back.
proof fn lemma_render_injective(a: Seq<Define>, b: Seq<Define>)
    requires
        forall|i: int| 0 <= i < a.len() ==> is_plain(#[trigger] a[i]),
        forall|i: int| 0 <= i < b.len() ==> is_plain(#[trigger] b[i]),
        render(a) == render(b),
    ensures
        a == b,
    decreases a.len(),
{
    if a.len() > 0 {
        lemma_render_first(a);
        lemma_line_feed(a[0]);
        assert(render(a).len() > 0);
    }
    if b.len() > 0 {
        lemma_render_first(b);
        lemma_line_feed(b[0]);
        assert(render(b).len() > 0);
    }
    if a.len() > 0 && b.len() > 0 {
        lemma_first_line(a[0], b[0], render(a.drop_first()), render(b.drop_first()));
        lemma_render_injective(a.drop_first(), b.drop_first());
        assert(a =~= seq![a[0]] + a.drop_first());
        assert(b =~= seq![b[0]] + b.drop_first());
    }
    assert(a =~= b);
}

/// No name of a macro holds a space.
proof fn lemma_names_have_no_space(config: &Config, i: int)
    requires
        0 <= i < kernel_defines(config).len(),
    ensures
        forall|k: int|
            0 <= k < kernel_defines(config)[i].name.len() ==> #[trigger] kernel_defines(
                config,
            )[i].name[k] != ' ',
{
    let all = kernel_defines(config);
    let head = head_defines(config).len() as int;
    let first = first_bytes(config).len() as int;
    reveal_strlit("GENERATE_SEED()");
    reveal_strlit("LEADING_ZEROES");
    reveal_strlit("TOTAL_ZEROES");
    reveal_strlit("PATTERN()");
    reveal_strlit("SUCCESS_CONDITION()");
    reveal_strlit("CREATE3()");
    reveal_strlit("S1_");
    reveal_strlit("S2_");
    if i < head {
        assert(all[i] == head_defines(config)[i]);
    } else {
        lemma_tail_names(config, i - head);
        if i - head < first {
            lemma_decimal_digits((12 + i - head) as nat);
        } else {
            lemma_decimal_digits(second_number(i - head - first));
        }
    }
}

/// The macros of two rewards are the same only where the rewards are.
proof fn lemma_reward_defines_injective(reward: RewardVariant, other: RewardVariant)
    requires
        reward_defines(reward) == reward_defines(other),
    ensures
        same_reward(reward, other),
{
    let (a, b) = (reward_defines(reward), reward_defines(other));
    reveal_strlit("\"");
    reveal_strlit("hasLeading(digest)");
    reveal_strlit("hasTotal(digest)");
    reveal_strlit("hasLeading(digest) && hasTotal(digest)");
    reveal_strlit("hasLeading(digest) || hasTotal(digest)");
    reveal_strlit("isMatching(digest)");
    let (x, y) = (a.last().value->0, b.last().value->0);
    assert(x == y);
    assert(x.len() == y.len() && x[0] == y[0] && x[3] == y[3] && x[19] == y[19]);
    match (reward, other) {
        (
            RewardVariant::LeadingZeros { zeros_threshold: m },
            RewardVariant::LeadingZeros { zeros_threshold: n },
        ) => {
            assert(a[0].value->0 == b[0].value->0);
            law_decimal_injective(m as nat, n as nat);
        },
        (
            RewardVariant::TotalZeros { zeros_threshold: m },
            RewardVariant::TotalZeros { zeros_threshold: n },
        ) => {
            assert(a[1].value->0 == b[1].value->0);
            law_decimal_injective(m as nat, n as nat);
        },
        (
            RewardVariant::LeadingAndTotalZeros {
                leading_zeros_threshold: k,
                total_zeros_threshold: l,
            },
            RewardVariant::LeadingAndTotalZeros {
                leading_zeros_threshold: m,
                total_zeros_threshold: n,
            },
        ) => {
            assert(a[0].value->0 == b[0].value->0);
            assert(a[1].value->0 == b[1].value->0);
            law_decimal_injective(k as nat, m as nat);
            law_decimal_injective(l as nat, n as nat);
        },
        (
            RewardVariant::LeadingOrTotalZeros {
                leading_zeros_threshold: k,
                total_zeros_threshold: l,
            },
            RewardVariant::LeadingOrTotalZeros {
                leading_zeros_threshold: m,
                total_zeros_threshold: n,
            },
        ) => {
            assert(a[0].value->0 == b[0].value->0);
            assert(a[1].value->0 == b[1].value->0);
            law_decimal_injective(k as nat, m as nat);
            law_decimal_injective(l as nat, n as nat);
        },
        (
            RewardVariant::Matching { pattern: p },
            RewardVariant::Matching { pattern: q },
        ) => {
            let (v, w) = (a[1].value->0, b[1].value->0);
            assert(v == w);
            assert(p@ =~= v.subrange(1, v.len() - 1));
            assert(q@ =~= w.subrange(1, w.len() - 1));
        },
        _ => {},
    }
}

/// The macros of some bytes give the bytes back.
proof fn lemma_byte_defines_injective(prefix: Seq<char>, first: nat, a: Seq<u8>, b: Seq<u8>)
    requires
        byte_defines(prefix, first, a) == byte_defines(prefix, first, b),
    ensures
        a == b,
{
    let (x, y) = (byte_defines(prefix, first, a), byte_defines(prefix, first, b));
    assert(x.len() == y.len());
    assert forall|i: int| 0 <= i < a.len() implies a[i] == b[i] by {
        let (v, w) = (x[i].value->0, y[i].value->0);
        assert(v == decimal(a[i] as nat) + "u"@);
        assert(w == decimal(b[i] as nat) + "u"@);
        reveal_strlit("u");
        assert(decimal(a[i] as nat) =~= v.drop_last());
        assert(decimal(b[i] as nat) =~= w.drop_last());
        law_decimal_injective(a[i] as nat, b[i] as nat);
    }
    assert(a =~= b);
}

/// All macros of two configurations are the same only where the configurations are, but for
/// the device and the output.
proof fn lemma_kernel_defines_injective(config: &Config, other: &Config)
    requires
        kernel_defines(config) == kernel_defines(other),
    ensures
        same_search(config, other),
{
    let (all, all_other) = (kernel_defines(config), kernel_defines(other));
    let (reward, reward_other) = (reward_defines(config.reward), reward_defines(other.reward));
    reveal_strlit("SENDER_XCHAIN()");
    reveal_strlit("XCHAIN()");
    reveal_strlit("SENDER()");
    reveal_strlit("RANDOM()");
    let (seed, seed_other) = (all[0].value->0, all_other[0].value->0);
    assert(seed == seed_macro(config.salt_variant));
    assert(seed_other == seed_macro(other.salt_variant));
    assert(seed.len() == seed_other.len() && seed[0] == seed_other[0]);
    let chain = kernel_chain_id(config.salt_variant).len() as int;
    assert(chain == kernel_chain_id(other.salt_variant).len());
    let r = reward.len() as int;
    assert(all.len() == 1 + r + 1 + 20 + chain + 20 + 32);
    assert(all_other.len() == 1 + reward_other.len() + 1 + 20 + chain + 20 + 32);
    assert(reward =~= all.subrange(1, 1 + r));
    assert(reward_other =~= all_other.subrange(1, 1 + r));
    lemma_reward_defines_injective(config.reward, other.reward);
    assert(all[1 + r] == create3_define(config.create_variant));
    assert(all_other[1 + r] == create3_define(other.create_variant));
    let t = 2 + r;
    assert(byte_defines("S1_"@, 12, kernel_caller(config.salt_variant)) =~= all.subrange(t, t + 20));
    assert(byte_defines("S1_"@, 12, kernel_caller(other.salt_variant)) =~= all_other.subrange(
        t,
        t + 20,
    ));
    lemma_byte_defines_injective(
        "S1_"@,
        12,
        kernel_caller(config.salt_variant),
        kernel_caller(other.salt_variant),
    );
    assert(byte_defines("S1_"@, 32, kernel_chain_id(config.salt_variant)) =~= all.subrange(
        t + 20,
        t + 20 + chain,
    ));
    assert(byte_defines("S1_"@, 32, kernel_chain_id(other.salt_variant)) =~= all_other.subrange(
        t + 20,
        t + 20 + chain,
    ));
    lemma_byte_defines_injective(
        "S1_"@,
        32,
        kernel_chain_id(config.salt_variant),
        kernel_chain_id(other.salt_variant),
    );
    let u = t + 20 + chain;
    assert(byte_defines("S2_"@, 1, config.factory_address@) =~= all.subrange(u, u + 20));
    assert(byte_defines("S2_"@, 1, other.factory_address@) =~= all_other.subrange(u, u + 20));
    lemma_byte_defines_injective("S2_"@, 1, config.factory_address@, other.factory_address@);
    assert(byte_defines("S2_"@, 53, kernel_code_hash(config.create_variant)) =~= all.subrange(
        u + 20,
        u + 52,
    ));
    assert(byte_defines("S2_"@, 53, kernel_code_hash(other.create_variant)) =~= all_other.subrange(
        u + 20,
        u + 52,
    ));
    lemma_byte_defines_injective(
        "S2_"@,
        53,
        kernel_code_hash(config.create_variant),
        kernel_code_hash(other.create_variant),
    );
}

/// The lines of bare macros hold no quotation mark.
proof fn lemma_render_has_no_quote(defines: Seq<Define>)
    requires
        forall|i: int| 0 <= i < defines.len() ==> is_bare_macro(#[trigger] defines[i]),
    ensures
        forall|i: int| 0 <= i < render(defines).len() ==> #[trigger] render(defines)[i] != '"',
    decreases defines.len(),
{
    if defines.len() > 0 {
        reveal_strlit("#define ");
        reveal_strlit(" ");
        reveal_strlit("\n");
        lemma_render_has_no_quote(defines.drop_last());
        let last = defines[defines.len() - 1];
        assert forall|i: int| 0 <= i < last.line().len() implies #[trigger] last.line()[i] != '"' by {}
        let front = render(defines.drop_last());
        assert(render(defines) == front + last.line());
        assert forall|i: int| 0 <= i < render(defines).len() implies #[trigger] render(defines)[i]
            != '"' by {
            if i >= front.len() {
                assert(render(defines)[i] == last.line()[i - front.len()]);
            }
        }
    }
}

/// What stands in front of the last quotation mark of a text, and what stands behind it.
proof fn lemma_last_quote(a: Seq<char>, b: Seq<char>, x: Seq<char>, y: Seq<char>)
    requires
        forall|i: int| 0 <= i < x.len() ==> #[trigger] x[i] != '"',
        forall|i: int| 0 <= i < y.len() ==> #[trigger] y[i] != '"',
        a.push('"') + x == b.push('"') + y,
    ensures
        a == b,
        x == y,
{
    let text = a.push('"') + x;
    let (n, m) = (a.len() as int, b.len() as int);
    assert(text.len() == n + 1 + x.len() && text.len() == m + 1 + y.len());
    assert(text[n] == '"' && text[m] == '"');
    if n < m {
        assert(text[m] == x[m - n - 1]);
    }
    if m < n {
        assert(text[n] == y[n - m - 1]);
    }
    assert(a =~= text.take(n));
    assert(b =~= text.take(m));
    assert(x =~= text.skip(n + 1));
    assert(y =~= text.skip(m + 1));
}

/// The lines that follow a pattern tell the pattern apart, whatever it holds: they have no
/// quotation mark.
proof fn lemma_pattern_line_injective(p: Seq<char>, q: Seq<char>, x: Seq<char>, y: Seq<char>)
    requires
        forall|i: int| 0 <= i < x.len() ==> #[trigger] x[i] != '"',
        forall|i: int| 0 <= i < y.len() ==> #[trigger] y[i] != '"',
        define("PATTERN()"@, "\""@ + p + "\""@).line() + x == define(
            "PATTERN()"@,
            "\""@ + q + "\""@,
        ).line() + y,
    ensures
        p == q,
        x == y,
{
    reveal_strlit("\"");
    reveal_strlit("\n");
    let opening = "#define "@ + "PATTERN()"@ + " "@ + "\""@;
    let (a, b) = (opening + p, opening + q);
    let (v, w) = ("\n"@ + x, "\n"@ + y);
    assert(define("PATTERN()"@, "\""@ + p + "\""@).line() + x =~= a.push('"') + v);
    assert(define("PATTERN()"@, "\""@ + q + "\""@).line() + y =~= b.push('"') + w);
    lemma_last_quote(a, b, v, w);
    assert(p =~= a.skip(opening.len() as int));
    assert(q =~= b.skip(opening.len() as int));
    assert(x =~= v.skip(1));
    assert(y =~= w.skip(1));
}

/// Two sequences of macros with the same lines agree on the first macro, where it is plain,
/// and on the lines of the others.
proof fn lemma_peel_first(a: Seq<Define>, b: Seq<Define>)
    requires
        a.len() > 0,
        b.len() > 0,
        is_plain(a[0]),
        is_plain(b[0]),
        render(a) == render(b),
    ensures
        a[0] == b[0],
        render(a.drop_first()) == render(b.drop_first()),
{
    lemma_render_first(a);
    lemma_render_first(b);
    lemma_first_line(a[0], b[0], render(a.drop_first()), render(b.drop_first()));
}

/// Two sequences of macros with the same lines agree on the first two macros, where they are
/// plain, and on the lines of the others.
proof fn lemma_peel_two(a: Seq<Define>, b: Seq<Define>)
    requires
        a.len() >= 2,
        b.len() >= 2,
        is_plain(a[0]),
        is_plain(a[1]),
        is_plain(b[0]),
        is_plain(b[1]),
        render(a) == render(b),
    ensures
        a[0] == b[0],
        a[1] == b[1],
        render(a.skip(2)) == render(b.skip(2)),
{
    lemma_peel_first(a, b);
    lemma_peel_first(a.drop_first(), b.drop_first());
    assert(a.drop_first().drop_first() =~= a.skip(2));
    assert(b.drop_first().drop_first() =~= b.skip(2));
}

/// Two sequences of macros with the same lines agree on how the name of the first starts.
proof fn lemma_same_initial(a: Seq<Define>, b: Seq<Define>)
    requires
        a.len() > 0,
        b.len() > 0,
        a[0].name.len() > 0,
        b[0].name.len() > 0,
        render(a) == render(b),
    ensures
        a[0].name[0] == b[0].name[0],
{
    reveal_strlit("#define ");
    lemma_render_first(a);
    lemma_render_first(b);
    assert(render(a)[8] == a[0].name[0]);
    assert(render(b)[8] == b[0].name[0]);
}

/// Macros that start with a pattern and go on bare can be told from their lines.
proof fn lemma_pattern_first(a: Seq<Define>, b: Seq<Define>, p: Seq<char>, q: Seq<char>)
    requires
        a.len() > 0,
        b.len() > 0,
        a[0] == define("PATTERN()"@, "\""@ + p + "\""@),
        b[0] == define("PATTERN()"@, "\""@ + q + "\""@),
        forall|i: int| 0 < i < a.len() ==> is_plain(#[trigger] a[i]) && is_bare_macro(a[i]),
        forall|i: int| 0 < i < b.len() ==> is_plain(#[trigger] b[i]) && is_bare_macro(b[i]),
        render(a) == render(b),
    ensures
        a == b,
{
    let (x, y) = (a.drop_first(), b.drop_first());
    assert forall|i: int| 0 <= i < x.len() implies is_plain(#[trigger] x[i]) && is_bare_macro(
        x[i],
    ) by {
        assert(x[i] == a[i + 1]);
    }
    assert forall|i: int| 0 <= i < y.len() implies is_plain(#[trigger] y[i]) && is_bare_macro(
        y[i],
    ) by {
        assert(y[i] == b[i + 1]);
    }
    lemma_render_first(a);
    lemma_render_first(b);
    lemma_render_has_no_quote(x);
    lemma_render_has_no_quote(y);
    lemma_pattern_line_injective(p, q, render(x), render(y));
    lemma_render_injective(x, y);
    assert(a =~= seq![a[0]] + x);
    assert(b =~= seq![b[0]] + y);
}

/// Which macro comes third.
proof fn lemma_third_macro(config: &Config)
    ensures
        kernel_defines(config).len() > 3,
        kernel_defines(config)[2].name.len() > 0,
        config.reward is Matching <==> kernel_defines(config)[2].name[0] == 'P',
        config.reward matches RewardVariant::Matching { pattern } ==> kernel_defines(config)[2]
            == define("PATTERN()"@, "\""@ + pattern@ + "\""@),
{
    assert(kernel_defines(config)[2] == reward_defines(config.reward)[1]);
    reveal_strlit("PATTERN()");
    reveal_strlit("TOTAL_ZEROES");
    reveal_strlit("SUCCESS_CONDITION()");
}

/// All macros are plain and bare, but for the pattern.
proof fn lemma_all_but_pattern(config: &Config)
    ensures
        forall|i: int|
            0 <= i < kernel_defines(config).len() && !(config.reward is Matching && i == 2)
                ==> is_plain(#[trigger] kernel_defines(config)[i]) && is_bare_macro(
                kernel_defines(config)[i],
            ),
{
    let all = kernel_defines(config);
    assert forall|i: int|
        0 <= i < all.len() && !(config.reward is Matching && i == 2) implies is_plain(
        #[trigger] all[i],
    ) && is_bare_macro(all[i]) by {
        lemma_macros_are_bare(config, i);
        lemma_names_have_no_space(config, i);
    }
}

/// The lines of all macros give the macros back.
proof fn lemma_kernel_render_injective(config: &Config, other: &Config)
    requires
        render(kernel_defines(config)) == render(kernel_defines(other)),
    ensures
        kernel_defines(config) == kernel_defines(other),
{
    let (a, b) = (kernel_defines(config), kernel_defines(other));
    lemma_all_but_pattern(config);
    lemma_all_but_pattern(other);
    lemma_third_macro(config);
    lemma_third_macro(other);
    lemma_peel_two(a, b);
    let (x, y) = (a.skip(2), b.skip(2));
    assert(x[0] == a[2] && y[0] == b[2]);
    lemma_same_initial(x, y);
    match (config.reward, other.reward) {
        (RewardVariant::Matching { pattern: p }, RewardVariant::Matching { pattern: q }) => {
            assert forall|i: int| 0 < i < x.len() implies is_plain(#[trigger] x[i])
                && is_bare_macro(x[i]) by {
                assert(x[i] == a[i + 2]);
            }
            assert forall|i: int| 0 < i < y.len() implies is_plain(#[trigger] y[i])
                && is_bare_macro(y[i]) by {
                assert(y[i] == b[i + 2]);
            }
            lemma_pattern_first(x, y, p@, q@);
            assert(a =~= seq![a[0], a[1]] + x);
            assert(b =~= seq![b[0], b[1]] + y);
        },
        _ => {
            lemma_render_injective(a, b);
        },
    }
}

/// Over one template, two configurations give the same source only where they differ at most
/// in the device and in the output.
pub proof fn law_source_determines_search(config: &Config, other: &Config, kernel_src: Seq<char>)
    requires
        render(kernel_defines(config)) + kernel_src == render(kernel_defines(other)) + kernel_src,
    ensures
        same_search(config, other),
{
    let (a, b) = (render(kernel_defines(config)), render(kernel_defines(other)));
    let text = a + kernel_src;
    assert(text.len() == a.len() + kernel_src.len());
    assert(text.len() == b.len() + kernel_src.len());
    assert(a =~= text.take(a.len() as int));
    assert(b =~= text.take(b.len() as int));
    lemma_kernel_render_injective(config, other);
    lemma_kernel_defines_injective(config, other);
}

/// The bytes of the init code hash, as the variant holds them, are carried by `S2_53` to
/// `S2_84`; without one, the bytes of the proxy's code hash are.
pub proof fn law_code_hash_macros(config: &Config, i: int)
    requires
        0 <= i < 32,
    ensures
        kernel_defines(config).contains(
            Define {
                name: "S2_"@ + decimal((53 + i) as nat),
                value: Some(
                    decimal(
                        match config.create_variant {
                            CreateXVariant::Create2 { init_code_hash } => init_code_hash@[i],
                            CreateXVariant::Create3 => PROXY_CHILD_CODEHASH@[i],
                        } as nat,
                    ) + "u"@,
                ),
            },
        ),
{
    law_bytes_are_carried(config, i);
}

/// The bytes of the calling address, as the variant holds them, are carried by `S1_12` to
/// `S1_31`; without one, zeros are.
pub proof fn law_caller_macros(config: &Config, i: int)
    requires
        0 <= i < 20,
    ensures
        kernel_defines(config).contains(
            Define {
                name: "S1_"@ + decimal((12 + i) as nat),
                value: Some(
                    decimal(
                        match config.salt_variant {
                            SaltVariant::CrosschainSender {
                                chain_id: _,
                                calling_address,
                            } => calling_address@[i],
                            SaltVariant::Sender { calling_address } => calling_address@[i],
                            SaltVariant::Crosschain { chain_id: _ } => 0u8,
                            SaltVariant::Random => 0u8,
                        } as nat,
                    ) + "u"@,
                ),
            },
        ),
{
    law_bytes_are_carried(config, i);
}

/// The bytes of the factory address are carried by `S2_1` to `S2_20`.
pub proof fn law_factory_macros(config: &Config, i: int)
    requires
        0 <= i < 20,
    ensures
        kernel_defines(config).contains(
            Define {
                name: "S2_"@ + decimal((1 + i) as nat),
                value: Some(decimal(config.factory_address@[i] as nat) + "u"@),
            },
        ),
{
    law_bytes_are_carried(config, i);
}

/// The bytes of the chain id, as the variant holds them, are carried by `S1_32` to `S1_63`;
/// without one, there are no such macros.
pub proof fn law_chain_id_macros(config: &Config, i: int)
    requires
        0 <= i < 32,
    ensures
        match config.salt_variant {
            SaltVariant::CrosschainSender { chain_id, calling_address: _ } => kernel_defines(
                config,
            ).contains(
                Define {
                    name: "S1_"@ + decimal((32 + i) as nat),
                    value: Some(decimal(chain_id@[i] as nat) + "u"@),
                },
            ),
            SaltVariant::Crosschain { chain_id } => kernel_defines(config).contains(
                Define {
                    name: "S1_"@ + decimal((32 + i) as nat),
                    value: Some(decimal(chain_id@[i] as nat) + "u"@),
                },
            ),
            _ => forall|k: int|
                0 <= k < kernel_defines(config).len() ==> (#[trigger] kernel_defines(
                    config,
                )[k]).name != "S1_"@ + decimal((32 + i) as nat),
        },
{
    let all = kernel_defines(config);
    let name = "S1_"@ + decimal((32 + i) as nat);
    law_bytes_are_carried(config, i);
    if config.salt_variant is Sender || config.salt_variant is Random {
        reveal_strlit("S1_");
        reveal_strlit("S2_");
        let head = head_defines(config).len() as int;
        lemma_head_names(config);
        assert forall|k: int| 0 <= k < all.len() implies (#[trigger] all[k]).name != name by {
            if k < head {
                assert(all[k] == head_defines(config)[k]);
                assert(name[1] == '1');
            } else {
                lemma_tail_names(config, k - head);
                if k - head < 20 {
                    if all[k].name == name {
                        lemma_numbered_names("S1_"@, (12 + k - head) as nat, (32 + i) as nat);
                    }
                } else {
                    assert(all[k].name[1] == '2');
                    assert(name[1] == '1');
                }
            }
        }
    }
}

/// The first macro says what the salt is bound to.
pub proof fn law_seed_macro(config: &Config)
    ensures
        kernel_defines(config)[0] == (Define {
            name: "GENERATE_SEED()"@,
            value: Some(
                match config.salt_variant {
                    SaltVariant::CrosschainSender { .. } => "SENDER_XCHAIN()"@,
                    SaltVariant::Crosschain { .. } => "XCHAIN()"@,
                    SaltVariant::Sender { .. } => "SENDER()"@,
                    SaltVariant::Random => "RANDOM()"@,
                },
            ),
        }),
{
}

/// With or without a proxy: `CREATE3()` stands for `RUN_CREATE3()` without an init code hash,
/// and for nothing with one.
pub proof fn law_create3_macro(config: &Config)
    ensures
        kernel_defines(config).contains(
            Define {
                name: "CREATE3()"@,
                value: match config.create_variant {
                    CreateXVariant::Create2 { .. } => None,
                    CreateXVariant::Create3 => Some("RUN_CREATE3()"@),
                },
            },
        ),
{
    let r = reward_defines(config.reward).len() as int;
    assert(kernel_defines(config)[1 + r] == create3_define(config.create_variant));
}

/// The macros of the reward: thresholds as numerals, the pattern in quotation marks, and the
/// condition that goes with them. A threshold on leading zeros that is not asked for is 0.
pub proof fn law_reward_macros(config: &Config)
    ensures
        ({
            let all = kernel_defines(config);
            let leading = all[1];
            let condition = all[if config.reward is LeadingZeros { 2int } else { 3int }];
            &&& leading.name == "LEADING_ZEROES"@
            &&& condition.name == "SUCCESS_CONDITION()"@
            &&& match config.reward {
                RewardVariant::LeadingZeros { zeros_threshold } => {
                    &&& leading.value == Some(decimal(zeros_threshold as nat))
                    &&& condition.value == Some("hasLeading(digest)"@)
                },
                RewardVariant::TotalZeros { zeros_threshold } => {
                    &&& leading.value == Some("0"@)
                    &&& all[2].name == "TOTAL_ZEROES"@
                    &&& all[2].value == Some(decimal(zeros_threshold as nat))
                    &&& condition.value == Some("hasTotal(digest)"@)
                },
                RewardVariant::LeadingAndTotalZeros {
                    leading_zeros_threshold,
                    total_zeros_threshold,
                } => {
                    &&& leading.value == Some(decimal(leading_zeros_threshold as nat))
                    &&& all[2].name == "TOTAL_ZEROES"@
                    &&& all[2].value == Some(decimal(total_zeros_threshold as nat))
                    &&& condition.value == Some("hasLeading(digest) && hasTotal(digest)"@)
                },
                RewardVariant::LeadingOrTotalZeros {
                    leading_zeros_threshold,
                    total_zeros_threshold,
                } => {
                    &&& leading.value == Some(decimal(leading_zeros_threshold as nat))
                    &&& all[2].name == "TOTAL_ZEROES"@
                    &&& all[2].value == Some(decimal(total_zeros_threshold as nat))
                    &&& condition.value == Some("hasLeading(digest) || hasTotal(digest)"@)
                },
                RewardVariant::Matching { pattern } => {
                    &&& leading.value == Some("0"@)
                    &&& all[2].name == "PATTERN()"@
                    &&& all[2].value == Some(seq!['"'] + pattern@ + seq!['"'])
                    &&& condition.value == Some("isMatching(digest)"@)
                },
            }
        }),
{
    reveal_strlit("\"");
    assert("\""@ =~= seq!['"']);
    let reward = reward_defines(config.reward);
    let all = kernel_defines(config);
    assert(all[1] == reward[0]);
    assert(all[2] == reward[1]);
    if !(config.reward is LeadingZeros) {
        assert(all[3] == reward[2]);
    }
}

/// How many macros there are, so that there are no others than those of the laws above.
pub proof fn law_number_of_macros(config: &Config)
    ensures
        kernel_defines(config).len() == 74 + (if config.reward is LeadingZeros {
            2int
        } else {
            3int
        }) + (if config.salt_variant is CrosschainSender || config.salt_variant is Crosschain {
            32int
        } else {
            0int
        }),
{
}

/// In which order the macros come behind those of the reward: `CREATE3()`, the first message
/// from `S1_12` on, the factory address from `S2_1` on, the code hash from `S2_53` on.
pub proof fn law_order_of_macros(config: &Config, i: int)
    ensures
        ({
            let all = kernel_defines(config);
            let create3: int = if config.reward is LeadingZeros { 3 } else { 4 };
            let first: int = if config.salt_variant is CrosschainSender
                || config.salt_variant is Crosschain { 52 } else { 20 };
            let second = create3 + 1 + first;
            &&& all[create3].name == "CREATE3()"@
            &&& 0 <= i < first ==> all[create3 + 1 + i].name == "S1_"@ + decimal((12 + i) as nat)
            &&& 0 <= i < 20 ==> all[second + i].name == "S2_"@ + decimal((1 + i) as nat)
            &&& 0 <= i < 32 ==> all[second + 20 + i].name == "S2_"@ + decimal((53 + i) as nat)
        }),
{
    let head = head_defines(config).len() as int;
    let first = first_bytes(config).len() as int;
    assert(kernel_defines(config)[head - 1] == create3_define(config.create_variant));
    if 0 <= i < first {
        lemma_tail_names(config, i);
    }
    if 0 <= i < 20 {
        lemma_tail_names(config, first + i);
    }
    if 0 <= i < 32 {
        lemma_tail_names(config, first + 20 + i);
    }
}

/// A macro is written `#define`, a space, its name, and, where it stands for something, a
/// space and that; then the line ends.
pub proof fn law_line_of_a_macro(define: Define)
    ensures
        ({
            let line = define.line();
            let n = define.name.len() as int;
            &&& line.take(8) == seq!['#', 'd', 'e', 'f', 'i', 'n', 'e', ' ']
            &&& line.subrange(8, 8 + n) == define.name
            &&& match define.value {
                Some(value) => {
                    &&& line.len() == 8 + n + 1 + value.len() + 1
                    &&& line[8 + n] == ' '
                    &&& line.subrange(9 + n, line.len() - 1) == value
                },
                None => line.len() == 8 + n + 1,
            }
            &&& line.last() == '\n'
        }),
{
    reveal_strlit("#define ");
    reveal_strlit(" ");
    reveal_strlit("\n");
    let line = define.line();
    let n = define.name.len() as int;
    assert(line.take(8) =~= seq!['#', 'd', 'e', 'f', 'i', 'n', 'e', ' ']);
    assert(line.subrange(8, 8 + n) =~= define.name);
    if let Some(value) = define.value {
        assert(line.subrange(9 + n, line.len() - 1) =~= value);
    }
}

/// The lines of macros come one after the other, in the order of the macros, with nothing
/// between them.
pub proof fn law_lines_in_order(first: Seq<Define>, define: Define, second: Seq<Define>)
    ensures
        render(Seq::empty()) == Seq::<char>::empty(),
        render(seq![define]) == define.line(),
        render(first + second) == render(first) + render(second),
{
    lemma_render_few(define, define, define);
    lemma_render_concat(first, second);
}

/// The line of every macro stands in the source.
pub proof fn law_source_holds_every_line(config: &Config, define: Define)
    requires
        kernel_defines(config).contains(define),
    ensures
        exists|at: int|
            0 <= at <= at + define.line().len() <= render(kernel_defines(config)).len()
                && #[trigger] render(kernel_defines(config)).subrange(at, at + define.line().len())
                == define.line(),
{
    let all = kernel_defines(config);
    let i = choose|i: int| 0 <= i < all.len() && all[i] == define;
    let (before, behind) = (all.take(i), all.skip(i + 1));
    assert(all =~= before + seq![define] + behind);
    lemma_render_concat(before, seq![define]);
    lemma_render_concat(before + seq![define], behind);
    lemma_render_few(define, define, define);
    let at = render(before).len() as int;
    assert(render(all).subrange(at, at + define.line().len()) =~= define.line());
}

/// The proxy's code hash, as one number.
pub proof fn law_proxy_code_hash()
    ensures
        PROXY_CHILD_CODEHASH@.len() == 32,
        be_value(PROXY_CHILD_CODEHASH@)
            == 0x21c35dbe1b344a2488cf3321d6ce542f8e9f305544ff09e4993a62319a497c1fnat,
{
    reveal_with_fuel(be_value, 33);
}

} // verus!
