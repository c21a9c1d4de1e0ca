//! Reading the bot's settings from environment variables.

use vstd::prelude::*;

use crate::env_key::EnvKey;
use crate::text::{
    append_str, chars_of, eq_chars, lower, lower_chars, parse_u64, parse_unsigned, replace_all,
    replace_all_exec, slice_vec, split, split_exec, string_of, trim, trim_seq,
};

verus! {

/// Whether the model is asked to think before it answers.
#[derive(Clone, Copy, Debug, PartialEq, Eq, Structural)]
pub enum ThinkingMode {
    Auto,
    Off,
    On,
}

/// Why the configuration could not be read.
#[derive(Clone, Copy, Debug, PartialEq, Eq, Structural)]
pub enum ConfigError {
    /// A required variable is unset or blank.
    Missing(EnvKey),
    /// A numeric variable does not hold a number of its type.
    Invalid(EnvKey),
    /// A boolean variable holds none of the accepted words.
    InvalidBool(EnvKey),
    /// `LLAMA_THINKING_MODE` holds none of the accepted words.
    InvalidThinkingMode,
    /// `LLAMA_ENABLE_THINKING` holds none of the accepted words.
    InvalidEnableThinking,
    /// The file named by `LLAMA_SYSTEM_PROMPT_FILE` could not be read.
    PromptFileUnreadable,
    /// A limit is zero where the feature that uses it is enabled.
    NotPositive(EnvKey),
    /// The development sandbox is enabled but nobody may use it.
    NoSandboxUsers,
}

/// The environment as pairs of name and value.
pub open spec fn env_lookup(env: Seq<(Seq<char>, Seq<char>)>, name: Seq<char>) -> Option<
    Seq<char>,
>
    decreases env.len(),
{
    if env.len() == 0 {
        None
    } else if env[0].0 == name {
        Some(env[0].1)
    } else {
        env_lookup(env.skip(1), name)
    }
}

/// The trimmed value of a variable, absent when unset or blank.
pub open spec fn env_value(env: Seq<(Seq<char>, Seq<char>)>, k: EnvKey) -> Option<Seq<char>> {
    match env_lookup(env, k.spec_name()) {
        Some(v) => if trim(v).len() > 0 {
            Some(trim(v))
        } else {
            None
        },
        None => None,
    }
}

/// The boolean that a word denotes, ignoring ASCII case.
pub open spec fn bool_word(v: Seq<char>) -> Option<bool> {
    let l = lower(v);
    if l == "1"@ || l == "true"@ || l == "yes"@ || l == "on"@ {
        Some(true)
    } else if l == "0"@ || l == "false"@ || l == "no"@ || l == "off"@ {
        Some(false)
    } else {
        None
    }
}

/// A boolean variable: its fallback when unset, an error when unreadable.
pub open spec fn spec_bool_env(env: Seq<(Seq<char>, Seq<char>)>, k: EnvKey, fallback: bool) -> Result<
    bool,
    ConfigError,
> {
    match env_value(env, k) {
        None => Ok(fallback),
        Some(v) => match bool_word(v) {
            Some(b) => Ok(b),
            None => Err(ConfigError::InvalidBool(k)),
        },
    }
}

/// A boolean variable that falls back on its default when unreadable.
pub open spec fn spec_bool_env_or(env: Seq<(Seq<char>, Seq<char>)>, k: EnvKey, fallback: bool) -> bool {
    match env_value(env, k) {
        None => fallback,
        Some(v) => match bool_word(v) {
            Some(b) => b,
            None => fallback,
        },
    }
}

/// A numeric variable of a type whose largest value is `max`.
pub open spec fn spec_num_env(
    env: Seq<(Seq<char>, Seq<char>)>,
    k: EnvKey,
    fallback: nat,
    max: nat,
) -> Result<nat, ConfigError> {
    match env_value(env, k) {
        None => Ok(fallback),
        Some(v) => match parse_unsigned(v, max) {
            Some(n) => Ok(n),
            None => Err(ConfigError::Invalid(k)),
        },
    }
}

/// An optional numeric variable of a type whose largest value is `max`.
pub open spec fn spec_opt_num_env(env: Seq<(Seq<char>, Seq<char>)>, k: EnvKey, max: nat) -> Result<
    Option<nat>,
    ConfigError,
> {
    match env_value(env, k) {
        None => Ok(None),
        Some(v) => match parse_unsigned(v, max) {
            Some(n) => Ok(Some(n)),
            None => Err(ConfigError::Invalid(k)),
        },
    }
}

/// A numeric variable that falls back on its default when unreadable.
pub open spec fn spec_env_or(env: Seq<(Seq<char>, Seq<char>)>, k: EnvKey, fallback: nat, max: nat) -> nat {
    match env_value(env, k) {
        None => fallback,
        Some(v) => match parse_unsigned(v, max) {
            Some(n) => n,
            None => fallback,
        },
    }
}

/// A numeric variable that falls back on its default when unreadable or zero.
pub open spec fn spec_nonzero_env_or(
    env: Seq<(Seq<char>, Seq<char>)>,
    k: EnvKey,
    fallback: nat,
    max: nat,
) -> nat {
    if spec_env_or(env, k, fallback, max) == 0 {
        fallback
    } else {
        spec_env_or(env, k, fallback, max)
    }
}

/// A text variable with a default.
pub open spec fn spec_string_env(env: Seq<(Seq<char>, Seq<char>)>, k: EnvKey, default: Seq<char>) -> Seq<
    char,
> {
    match env_value(env, k) {
        Some(v) => v,
        None => default,
    }
}

/// The non-blank trimmed pieces among `ps`, in order.
pub open spec fn nonblank_trimmed(ps: Seq<Seq<char>>) -> Seq<Seq<char>>
    decreases ps.len(),
{
    if ps.len() == 0 {
        seq![]
    } else {
        let rest = nonblank_trimmed(ps.drop_last());
        let t = trim(ps.last());
        if t.len() > 0 {
            rest.push(t)
        } else {
            rest
        }
    }
}

/// A comma-separated list: its non-blank items, trimmed.
pub open spec fn spec_list(v: Seq<char>) -> Seq<Seq<char>> {
    nonblank_trimmed(split(v, ','))
}

/// The pieces among `ps` that read as `u64` once trimmed, in order.
pub open spec fn parsed_u64s(ps: Seq<Seq<char>>) -> Seq<u64>
    decreases ps.len(),
{
    if ps.len() == 0 {
        seq![]
    } else {
        let rest = parsed_u64s(ps.drop_last());
        match parse_unsigned(trim(ps.last()), u64::MAX as nat) {
            Some(n) => rest.push(n as u64),
            None => rest,
        }
    }
}

/// A comma-separated list of user IDs: the items that read as `u64`.
pub open spec fn spec_u64_list(v: Seq<char>) -> Seq<u64> {
    parsed_u64s(split(v, ','))
}

/// The thinking mode that a word names, ignoring ASCII case.
pub open spec fn thinking_word(v: Seq<char>) -> Option<ThinkingMode> {
    if lower(v) == "auto"@ {
        Some(ThinkingMode::Auto)
    } else {
        match bool_word(v) {
            Some(true) => Some(ThinkingMode::On),
            Some(false) => Some(ThinkingMode::Off),
            None => None,
        }
    }
}

/// `LLAMA_THINKING_MODE`, else the older `LLAMA_ENABLE_THINKING`, else off.
pub open spec fn spec_thinking_mode(env: Seq<(Seq<char>, Seq<char>)>) -> Result<
    ThinkingMode,
    ConfigError,
> {
    match env_value(env, EnvKey::LlamaThinkingMode) {
        Some(v) => match thinking_word(v) {
            Some(m) => Ok(m),
            None => Err(ConfigError::InvalidThinkingMode),
        },
        None => match env_value(env, EnvKey::LlamaEnableThinking) {
            Some(v) => match bool_word(v) {
                Some(true) => Ok(ThinkingMode::On),
                Some(false) => Ok(ThinkingMode::Off),
                None => Err(ConfigError::InvalidEnableThinking),
            },
            None => Ok(ThinkingMode::Off),
        },
    }
}

/// The system prompt: the trimmed contents of `LLAMA_SYSTEM_PROMPT_FILE`
/// (`file` holds them, absent when they could not be read), else
/// `LLAMA_SYSTEM_PROMPT` with each `\n` escape turned into a line break, else the
/// default.
pub open spec fn spec_system_prompt(env: Seq<(Seq<char>, Seq<char>)>, file: Option<Seq<char>>) -> Result<
    Seq<char>,
    ConfigError,
> {
    match env_value(env, EnvKey::LlamaSystemPromptFile) {
        Some(_) => match file {
            Some(t) => Ok(trim(t)),
            None => Err(ConfigError::PromptFileUnreadable),
        },
        None => match env_value(env, EnvKey::LlamaSystemPrompt) {
            Some(p) => Ok(replace_all(p, seq!['\\', 'n'], seq!['\n'])),
            None => Ok(
                "You are a concise Discord assistant running locally on a Jetson."@,
            ),
        },
    }
}

/// `s` without the `/` characters at its end.
pub open spec fn trim_end_slashes(s: Seq<char>) -> Seq<char>
    decreases s.len(),
{
    if s.len() > 0 && s.last() == '/' {
        trim_end_slashes(s.drop_last())
    } else {
        s
    }
}

/// The raw value of a variable.
fn lookup(env: &[(String, String)], name: &str) -> (r: Option<Vec<char>>)
    ensures
        match r {
            Some(v) => env_lookup(env.deep_view(), name@) == Some(v@),
            None => env_lookup(env.deep_view(), name@) is None,
        },
{
    let want = chars_of(name);
    let ghost full = env.deep_view();
    let mut i: usize = 0;
    assert(full.skip(0) =~= full);
    while i < env.len()
        invariant
            full == env.deep_view(),
            full.len() == env@.len(),
            i <= env@.len(),
            want@ == name@,
            env_lookup(full, name@) == env_lookup(full.skip(i as int), name@),
        decreases env@.len() - i,
    {
        let k = chars_of(env[i].0.as_str());
        assert(full.skip(i as int)[0] == full[i as int]);
        assert(full.skip(i as int).skip(1) =~= full.skip(i + 1));
        if eq_chars(&k, &want) {
            return Some(chars_of(env[i].1.as_str()));
        }
        i = i + 1;
    }
    None
}

/// The trimmed value of a variable, absent when unset or blank.
pub fn optional_env(env: &[(String, String)], k: EnvKey) -> (r: Option<Vec<char>>)
    ensures
        match r {
            Some(v) => env_value(env.deep_view(), k) == Some(v@),
            None => env_value(env.deep_view(), k) is None,
        },
{
    match lookup(env, k.name()) {
        None => None,
        Some(v) => {
            let t = trim_seq(&v);
            if t.len() > 0 {
                Some(t)
            } else {
                None
            }
        },
    }
}

/// Decides `bool_word`.
pub fn parse_bool_word(v: &[char]) -> (r: Option<bool>)
    ensures
        r == bool_word(v@),
{
    let l = lower_chars(v);
    if eq_chars(&l, &chars_of("1")) || eq_chars(&l, &chars_of("true")) || eq_chars(
        &l,
        &chars_of("yes"),
    ) || eq_chars(&l, &chars_of("on")) {
        Some(true)
    } else if eq_chars(&l, &chars_of("0")) || eq_chars(&l, &chars_of("false")) || eq_chars(
        &l,
        &chars_of("no"),
    ) || eq_chars(&l, &chars_of("off")) {
        Some(false)
    } else {
        None
    }
}

/// A boolean variable.
pub fn parse_bool_env(env: &[(String, String)], k: EnvKey, fallback: bool) -> (r: Result<
    bool,
    ConfigError,
>)
    ensures
        r == spec_bool_env(env.deep_view(), k, fallback),
{
    match optional_env(env, k) {
        None => Ok(fallback),
        Some(v) => match parse_bool_word(&v) {
            Some(b) => Ok(b),
            None => Err(ConfigError::InvalidBool(k)),
        },
    }
}

/// A boolean variable that falls back on its default when unreadable.
pub fn parse_bool_env_or(env: &[(String, String)], k: EnvKey, fallback: bool) -> (r: bool)
    ensures
        r == spec_bool_env_or(env.deep_view(), k, fallback),
{
    match optional_env(env, k) {
        None => fallback,
        Some(v) => match parse_bool_word(&v) {
            Some(b) => b,
            None => fallback,
        },
    }
}

/// A numeric variable whose type's largest value is `max`.
pub fn parse_env(env: &[(String, String)], k: EnvKey, fallback: u64, max: u64) -> (r: Result<
    u64,
    ConfigError,
>)
    requires
        fallback <= max,
    ensures
        match r {
            Ok(n) => spec_num_env(env.deep_view(), k, fallback as nat, max as nat) == Ok::<
                nat,
                ConfigError,
            >(n as nat) && n <= max,
            Err(e) => spec_num_env(env.deep_view(), k, fallback as nat, max as nat) == Err::<
                nat,
                ConfigError,
            >(e),
        },
{
    match optional_env(env, k) {
        None => Ok(fallback),
        Some(v) => match parse_u64(&v) {
            Some(n) => if n <= max {
                Ok(n)
            } else {
                Err(ConfigError::Invalid(k))
            },
            None => Err(ConfigError::Invalid(k)),
        },
    }
}

/// An optional numeric variable whose type's largest value is `max`.
pub fn parse_optional_env(env: &[(String, String)], k: EnvKey, max: u64) -> (r: Result<
    Option<u64>,
    ConfigError,
>)
    ensures
        match r {
            Ok(Some(n)) => spec_opt_num_env(env.deep_view(), k, max as nat) == Ok::<
                Option<nat>,
                ConfigError,
            >(Some(n as nat)),
            Ok(None) => spec_opt_num_env(env.deep_view(), k, max as nat) == Ok::<
                Option<nat>,
                ConfigError,
            >(None),
            Err(e) => spec_opt_num_env(env.deep_view(), k, max as nat) == Err::<
                Option<nat>,
                ConfigError,
            >(e),
        },
{
    match optional_env(env, k) {
        None => Ok(None),
        Some(v) => match parse_u64(&v) {
            Some(n) => if n <= max {
                Ok(Some(n))
            } else {
                Err(ConfigError::Invalid(k))
            },
            None => Err(ConfigError::Invalid(k)),
        },
    }
}

/// A numeric variable that falls back on its default when unreadable.
pub fn parse_env_or(env: &[(String, String)], k: EnvKey, fallback: u64, max: u64) -> (r: u64)
    requires
        fallback <= max,
    ensures
        r as nat == spec_env_or(env.deep_view(), k, fallback as nat, max as nat),
        r <= max,
{
    match optional_env(env, k) {
        None => fallback,
        Some(v) => match parse_u64(&v) {
            Some(n) => if n <= max {
                n
            } else {
                fallback
            },
            None => fallback,
        },
    }
}

/// A numeric variable that falls back on its default when unreadable or zero.
pub fn parse_nonzero_env_or(env: &[(String, String)], k: EnvKey, fallback: u64, max: u64) -> (r: u64)
    requires
        fallback <= max,
    ensures
        r as nat == spec_nonzero_env_or(env.deep_view(), k, fallback as nat, max as nat),
        r <= max,
{
    let value = parse_env_or(env, k, fallback, max);
    if value == 0 {
        fallback
    } else {
        value
    }
}

/// A required variable: its trimmed value, or `Missing` when unset or blank.
pub fn required_env(env: &[(String, String)], k: EnvKey) -> (r: Result<String, ConfigError>)
    ensures
        match r {
            Ok(v) => env_value(env.deep_view(), k) == Some(v@),
            Err(e) => env_value(env.deep_view(), k) is None && e == ConfigError::Missing(k),
        },
{
    match optional_env(env, k) {
        Some(v) => Ok(string_of(&v)),
        None => Err(ConfigError::Missing(k)),
    }
}

/// Refuses a zero limit where the feature that uses it is enabled.
pub fn require_nonzero(k: EnvKey, value: u64, enabled: bool) -> (r: Result<(), ConfigError>)
    ensures
        r == (if enabled && value == 0 {
            Err::<(), ConfigError>(ConfigError::NotPositive(k))
        } else {
            Ok(())
        }),
{
    if enabled && value == 0 {
        Err(ConfigError::NotPositive(k))
    } else {
        Ok(())
    }
}

/// A text variable with a default.
pub fn string_env(env: &[(String, String)], k: EnvKey, default: &str) -> (r: String)
    ensures
        r@ == spec_string_env(env.deep_view(), k, default@),
{
    match optional_env(env, k) {
        Some(v) => string_of(&v),
        None => default.to_owned(),
    }
}

/// A comma-separated list: its non-blank items, trimmed.
pub fn parse_list(value: &str) -> (r: Vec<String>)
    ensures
        r.deep_view() == spec_list(value@),
{
    let cs = chars_of(value);
    let pieces = split_exec(&cs, ',');
    let ghost ps = pieces.deep_view();
    let mut out: Vec<String> = Vec::new();
    let mut i: usize = 0;
    assert(out.deep_view() =~= nonblank_trimmed(ps.take(0)));
    while i < pieces.len()
        invariant
            ps == pieces.deep_view(),
            ps.len() == pieces@.len(),
            i <= pieces@.len(),
            out.deep_view() == nonblank_trimmed(ps.take(i as int)),
        decreases pieces@.len() - i,
    {
        let t = trim_seq(&pieces[i]);
        assert(ps.take(i + 1).drop_last() =~= ps.take(i as int));
        assert(ps.take(i + 1).last() == pieces@[i as int]@);
        if t.len() > 0 {
            let ghost before = out.deep_view();
            let s = string_of(&t);
            out.push(s);
            assert(out.deep_view() =~= before.push(t@));
        }
        i = i + 1;
    }
    assert(ps.take(pieces@.len() as int) =~= ps);
    out
}

/// A comma-separated list of user IDs: the items that read as `u64`.
pub fn parse_u64_list(value: &[char]) -> (r: Vec<u64>)
    ensures
        r@ == spec_u64_list(value@),
{
    let pieces = split_exec(value, ',');
    let ghost ps = pieces.deep_view();
    let mut out: Vec<u64> = Vec::new();
    let mut i: usize = 0;
    assert(out@ =~= parsed_u64s(ps.take(0)));
    while i < pieces.len()
        invariant
            ps == pieces.deep_view(),
            ps.len() == pieces@.len(),
            i <= pieces@.len(),
            out@ == parsed_u64s(ps.take(i as int)),
        decreases pieces@.len() - i,
    {
        let t = trim_seq(&pieces[i]);
        assert(ps.take(i + 1).drop_last() =~= ps.take(i as int));
        assert(ps.take(i + 1).last() == pieces@[i as int]@);
        match parse_u64(&t) {
            Some(n) => {
                out.push(n);
            },
            None => {},
        }
        i = i + 1;
    }
    assert(ps.take(pieces@.len() as int) =~= ps);
    out
}

/// A list variable: its items, absent when unset or blank.
pub fn parse_list_env(env: &[(String, String)], k: EnvKey) -> (r: Option<Vec<String>>)
    ensures
        match r {
            Some(v) => env_value(env.deep_view(), k) is Some && v.deep_view() == spec_list(
                env_value(env.deep_view(), k)->Some_0,
            ),
            None => env_value(env.deep_view(), k) is None,
        },
{
    match optional_env(env, k) {
        Some(v) => Some(parse_list(string_of(&v).as_str())),
        None => None,
    }
}

/// A list of user IDs: the items that read as `u64`, absent when unset or
/// blank.
pub fn parse_u64_list_env(env: &[(String, String)], k: EnvKey) -> (r: Option<Vec<u64>>)
    ensures
        match r {
            Some(v) => env_value(env.deep_view(), k) is Some && v@ == spec_u64_list(
                env_value(env.deep_view(), k)->Some_0,
            ),
            None => env_value(env.deep_view(), k) is None,
        },
{
    match optional_env(env, k) {
        Some(v) => Some(parse_u64_list(&v)),
        None => None,
    }
}

impl ThinkingMode {
    /// The thinking mode that a word names, ignoring ASCII case.
    pub fn parse_mode(value: &str) -> (r: Result<ThinkingMode, ConfigError>)
        ensures
            match thinking_word(value@) {
                Some(m) => r == Ok::<ThinkingMode, ConfigError>(m),
                None => r == Err::<ThinkingMode, ConfigError>(ConfigError::InvalidThinkingMode),
            },
    {
        let v = chars_of(value);
        let l = lower_chars(&v);
        if eq_chars(&l, &chars_of("auto")) {
            return Ok(ThinkingMode::Auto);
        }
        match parse_bool_word(&v) {
            Some(true) => Ok(ThinkingMode::On),
            Some(false) => Ok(ThinkingMode::Off),
            None => Err(ConfigError::InvalidThinkingMode),
        }
    }
}

/// The thinking mode.
pub fn parse_thinking_mode(env: &[(String, String)]) -> (r: Result<ThinkingMode, ConfigError>)
    ensures
        r == spec_thinking_mode(env.deep_view()),
{
    match optional_env(env, EnvKey::LlamaThinkingMode) {
        Some(v) => {
            let s = string_of(&v);
            ThinkingMode::parse_mode(s.as_str())
        },
        None => match optional_env(env, EnvKey::LlamaEnableThinking) {
            Some(v) => match parse_bool_word(&v) {
                Some(true) => Ok(ThinkingMode::On),
                Some(false) => Ok(ThinkingMode::Off),
                None => Err(ConfigError::InvalidEnableThinking),
            },
            None => Ok(ThinkingMode::Off),
        },
    }
}

/// The file that holds the system prompt, when one is named.
pub fn system_prompt_file(env: &[(String, String)]) -> (r: Option<String>)
    ensures
        match r {
            Some(p) => env_value(env.deep_view(), EnvKey::LlamaSystemPromptFile) == Some(p@),
            None => env_value(env.deep_view(), EnvKey::LlamaSystemPromptFile) is None,
        },
{
    match optional_env(env, EnvKey::LlamaSystemPromptFile) {
        Some(v) => Some(string_of(&v)),
        None => None,
    }
}

/// The system prompt; `file` holds the contents of the file that
/// `LLAMA_SYSTEM_PROMPT_FILE` names, absent when it could not be read.
pub fn parse_system_prompt(env: &[(String, String)], file: &Option<String>) -> (r: Result<
    String,
    ConfigError,
>)
    ensures
        match r {
            Ok(p) => spec_system_prompt(env.deep_view(), file.deep_view()) == Ok::<
                Seq<char>,
                ConfigError,
            >(p@),
            Err(e) => spec_system_prompt(env.deep_view(), file.deep_view()) == Err::<
                Seq<char>,
                ConfigError,
            >(e),
        },
{
    match optional_env(env, EnvKey::LlamaSystemPromptFile) {
        Some(_) => match file {
            Some(t) => {
                let cs = chars_of(t.as_str());
                Ok(string_of(&trim_seq(&cs)))
            },
            None => Err(ConfigError::PromptFileUnreadable),
        },
        None => match optional_env(env, EnvKey::LlamaSystemPrompt) {
            Some(p) => {
                let from = vec!['\\', 'n'];
                let to = vec!['\n'];
                assert(from@ =~= seq!['\\', 'n']);
                assert(to@ =~= seq!['\n']);
                Ok(string_of(&replace_all_exec(&p, &from, &to)))
            },
            None => Ok("You are a concise Discord assistant running locally on a Jetson.".to_owned()),
        },
    }
}

/// `s` without the `/` characters at its end.
pub fn trim_end_slashes_exec(s: &[char]) -> (r: Vec<char>)
    ensures
        r@ == trim_end_slashes(s@),
{
    let mut n: usize = s.len();
    assert(s@.take(n as int) =~= s@);
    while n > 0 && s[n - 1] == '/'
        invariant
            n <= s@.len(),
            trim_end_slashes(s@) == trim_end_slashes(s@.take(n as int)),
        decreases n,
    {
        assert(s@.take(n as int).drop_last() =~= s@.take(n - 1));
        n = n - 1;
    }
    slice_vec(s, 0, n)
}


/// The smaller of two numbers.
pub open spec fn min_nat(a: nat, b: nat) -> nat {
    if a <= b {
        a
    } else {
        b
    }
}

/// An optional `u64` as an optional number.
pub open spec fn opt_nat(o: Option<u64>) -> Option<nat> {
    match o {
        Some(n) => Some(n as nat),
        None => None,
    }
}

/// `DISCORD_TRIGGER_NAMES` as a list.
pub open spec fn spec_list_env(env: Seq<(Seq<char>, Seq<char>)>) -> Seq<Seq<char>> {
    match env_value(env, EnvKey::DiscordTriggerNames) {
        Some(v) => spec_list(v),
        None => Seq::empty(),
    }
}

/// `DEV_SANDBOX_ALLOWED_USER_IDS` as a list of user IDs.
pub open spec fn spec_u64_list_env(env: Seq<(Seq<char>, Seq<char>)>) -> Seq<u64> {
    match env_value(env, EnvKey::DevSandboxAllowedUserIds) {
        Some(v) => spec_u64_list(v),
        None => Seq::empty(),
    }
}

/// The first reason, in the order in which `Config::from_env` checks them, why
/// the environment does not give a configuration.
pub open spec fn config_error(env: Seq<(Seq<char>, Seq<char>)>, file: Option<Seq<char>>) -> Option<ConfigError> {
    let discord_chat_listener = spec_bool_env(env, EnvKey::DiscordChatListener, false)->Ok_0;
    let discord_markdown_output = spec_bool_env(env, EnvKey::DiscordMarkdownOutput, true)->Ok_0;
    let discord_context_messages = min_nat(spec_num_env(env, EnvKey::DiscordContextMessages, 8, u8::MAX as nat)->Ok_0, 100);
    let discord_context_chars = spec_num_env(env, EnvKey::DiscordContextChars, 2400, usize::MAX as nat)->Ok_0;
    let memory_enabled = spec_bool_env(env, EnvKey::MemoryEnabled, false)->Ok_0;
    let memory_capture_all_chat = spec_bool_env(env, EnvKey::MemoryCaptureAllChat, false)->Ok_0;
    let memory_summarize_every = spec_num_env(env, EnvKey::MemorySummarizeEvery, 20, u64::MAX as nat)->Ok_0;
    let memory_summary_chars = spec_num_env(env, EnvKey::MemorySummaryChars, 1600, usize::MAX as nat)->Ok_0;
    let memory_retain_raw_logs = spec_bool_env(env, EnvKey::MemoryRetainRawLogs, false)->Ok_0;
    let memory_max_log_chars = spec_num_env(env, EnvKey::MemoryMaxLogChars, 20000, usize::MAX as nat)->Ok_0;
    let memory_entry_chars = spec_num_env(env, EnvKey::MemoryEntryChars, 500, usize::MAX as nat)->Ok_0;
    let memory_store_author_names = spec_bool_env(env, EnvKey::MemoryStoreAuthorNames, false)->Ok_0;
    let web_search_enabled = spec_bool_env(env, EnvKey::WebSearchEnabled, false)->Ok_0;
    let web_search_always = spec_bool_env(env, EnvKey::WebSearchAlways, false)->Ok_0;
    let web_search_results = spec_num_env(env, EnvKey::WebSearchResults, 5, usize::MAX as nat)->Ok_0;
    let web_fetch_links = spec_bool_env(env, EnvKey::WebFetchLinks, true)->Ok_0;
    let web_fetch_max_urls = spec_num_env(env, EnvKey::WebFetchMaxUrls, 3, usize::MAX as nat)->Ok_0;
    let web_fetch_chars = spec_num_env(env, EnvKey::WebFetchChars, 2400, usize::MAX as nat)->Ok_0;
    let web_fetch_body_bytes = spec_num_env(env, EnvKey::WebFetchBodyBytes, 524288, usize::MAX as nat)->Ok_0;
    let web_crawl_links = spec_bool_env(env, EnvKey::WebCrawlLinks, false)->Ok_0;
    let web_crawl_max_pages = spec_num_env(env, EnvKey::WebCrawlMaxPages, 2, usize::MAX as nat)->Ok_0;
    let web_crawl_chars = spec_num_env(env, EnvKey::WebCrawlChars, 700, usize::MAX as nat)->Ok_0;
    let attachments_enabled = spec_bool_env_or(env, EnvKey::AttachmentsEnabled, true);
    let attachment_max_bytes = spec_nonzero_env_or(env, EnvKey::AttachmentMaxBytes, 8388608, usize::MAX as nat);
    let attachment_max_images = spec_nonzero_env_or(env, EnvKey::AttachmentMaxImages, 3, usize::MAX as nat);
    let attachment_max_text_chars = spec_nonzero_env_or(env, EnvKey::AttachmentMaxTextChars, 12000, usize::MAX as nat);
    let attachment_download_timeout_secs = spec_nonzero_env_or(env, EnvKey::AttachmentDownloadTimeoutSecs, 20, u64::MAX as nat);
    let dev_sandbox_enabled = spec_bool_env_or(env, EnvKey::DevSandboxEnabled, false);
    let dev_sandbox_timeout_secs = spec_nonzero_env_or(env, EnvKey::DevSandboxTimeoutSecs, 60, u64::MAX as nat);
    let dev_sandbox_max_steps = spec_nonzero_env_or(env, EnvKey::DevSandboxMaxSteps, 8, usize::MAX as nat);
    let dev_sandbox_output_chars = spec_nonzero_env_or(env, EnvKey::DevSandboxOutputChars, 6000, usize::MAX as nat);
    let llama_timeout_secs = spec_num_env(env, EnvKey::LlamaTimeoutSecs, 120, u64::MAX as nat)->Ok_0;
    let llama_max_tokens = spec_num_env(env, EnvKey::LlamaMaxTokens, 512, u32::MAX as nat)->Ok_0;
    let llama_prompt_chars = spec_num_env(env, EnvKey::LlamaPromptChars, 5000, usize::MAX as nat)->Ok_0;
    if env_value(env, EnvKey::DiscordToken) is None {
        Some(ConfigError::Missing(EnvKey::DiscordToken))
    } else if spec_opt_num_env(env, EnvKey::DiscordGuildId, u64::MAX as nat) is Err {
        Some(spec_opt_num_env(env, EnvKey::DiscordGuildId, u64::MAX as nat)->Err_0)
    } else if spec_bool_env(env, EnvKey::DiscordChatListener, false) is Err {
        Some(spec_bool_env(env, EnvKey::DiscordChatListener, false)->Err_0)
    } else if spec_bool_env(env, EnvKey::DiscordMarkdownOutput, true) is Err {
        Some(spec_bool_env(env, EnvKey::DiscordMarkdownOutput, true)->Err_0)
    } else if spec_num_env(env, EnvKey::DiscordContextMessages, 8, u8::MAX as nat) is Err {
        Some(spec_num_env(env, EnvKey::DiscordContextMessages, 8, u8::MAX as nat)->Err_0)
    } else if spec_num_env(env, EnvKey::DiscordContextChars, 2400, usize::MAX as nat) is Err {
        Some(spec_num_env(env, EnvKey::DiscordContextChars, 2400, usize::MAX as nat)->Err_0)
    } else if spec_bool_env(env, EnvKey::MemoryEnabled, false) is Err {
        Some(spec_bool_env(env, EnvKey::MemoryEnabled, false)->Err_0)
    } else if spec_bool_env(env, EnvKey::MemoryCaptureAllChat, false) is Err {
        Some(spec_bool_env(env, EnvKey::MemoryCaptureAllChat, false)->Err_0)
    } else if spec_num_env(env, EnvKey::MemorySummarizeEvery, 20, u64::MAX as nat) is Err {
        Some(spec_num_env(env, EnvKey::MemorySummarizeEvery, 20, u64::MAX as nat)->Err_0)
    } else if spec_num_env(env, EnvKey::MemorySummaryChars, 1600, usize::MAX as nat) is Err {
        Some(spec_num_env(env, EnvKey::MemorySummaryChars, 1600, usize::MAX as nat)->Err_0)
    } else if spec_bool_env(env, EnvKey::MemoryRetainRawLogs, false) is Err {
        Some(spec_bool_env(env, EnvKey::MemoryRetainRawLogs, false)->Err_0)
    } else if spec_num_env(env, EnvKey::MemoryMaxLogChars, 20000, usize::MAX as nat) is Err {
        Some(spec_num_env(env, EnvKey::MemoryMaxLogChars, 20000, usize::MAX as nat)->Err_0)
    } else if spec_num_env(env, EnvKey::MemoryEntryChars, 500, usize::MAX as nat) is Err {
        Some(spec_num_env(env, EnvKey::MemoryEntryChars, 500, usize::MAX as nat)->Err_0)
    } else if spec_bool_env(env, EnvKey::MemoryStoreAuthorNames, false) is Err {
        Some(spec_bool_env(env, EnvKey::MemoryStoreAuthorNames, false)->Err_0)
    } else if spec_bool_env(env, EnvKey::WebSearchEnabled, false) is Err {
        Some(spec_bool_env(env, EnvKey::WebSearchEnabled, false)->Err_0)
    } else if spec_bool_env(env, EnvKey::WebSearchAlways, false) is Err {
        Some(spec_bool_env(env, EnvKey::WebSearchAlways, false)->Err_0)
    } else if spec_num_env(env, EnvKey::WebSearchResults, 5, usize::MAX as nat) is Err {
        Some(spec_num_env(env, EnvKey::WebSearchResults, 5, usize::MAX as nat)->Err_0)
    } else if spec_bool_env(env, EnvKey::WebFetchLinks, true) is Err {
        Some(spec_bool_env(env, EnvKey::WebFetchLinks, true)->Err_0)
    } else if spec_num_env(env, EnvKey::WebFetchMaxUrls, 3, usize::MAX as nat) is Err {
        Some(spec_num_env(env, EnvKey::WebFetchMaxUrls, 3, usize::MAX as nat)->Err_0)
    } else if spec_num_env(env, EnvKey::WebFetchChars, 2400, usize::MAX as nat) is Err {
        Some(spec_num_env(env, EnvKey::WebFetchChars, 2400, usize::MAX as nat)->Err_0)
    } else if spec_num_env(env, EnvKey::WebFetchBodyBytes, 524288, usize::MAX as nat) is Err {
        Some(spec_num_env(env, EnvKey::WebFetchBodyBytes, 524288, usize::MAX as nat)->Err_0)
    } else if spec_bool_env(env, EnvKey::WebCrawlLinks, false) is Err {
        Some(spec_bool_env(env, EnvKey::WebCrawlLinks, false)->Err_0)
    } else if spec_num_env(env, EnvKey::WebCrawlMaxPages, 2, usize::MAX as nat) is Err {
        Some(spec_num_env(env, EnvKey::WebCrawlMaxPages, 2, usize::MAX as nat)->Err_0)
    } else if spec_num_env(env, EnvKey::WebCrawlChars, 700, usize::MAX as nat) is Err {
        Some(spec_num_env(env, EnvKey::WebCrawlChars, 700, usize::MAX as nat)->Err_0)
    } else if spec_system_prompt(env, file) is Err {
        Some(spec_system_prompt(env, file)->Err_0)
    } else if spec_num_env(env, EnvKey::LlamaTimeoutSecs, 120, u64::MAX as nat) is Err {
        Some(spec_num_env(env, EnvKey::LlamaTimeoutSecs, 120, u64::MAX as nat)->Err_0)
    } else if spec_num_env(env, EnvKey::LlamaMaxTokens, 512, u32::MAX as nat) is Err {
        Some(spec_num_env(env, EnvKey::LlamaMaxTokens, 512, u32::MAX as nat)->Err_0)
    } else if spec_num_env(env, EnvKey::LlamaPromptChars, 5000, usize::MAX as nat) is Err {
        Some(spec_num_env(env, EnvKey::LlamaPromptChars, 5000, usize::MAX as nat)->Err_0)
    } else if spec_thinking_mode(env) is Err {
        Some(spec_thinking_mode(env)->Err_0)
    } else if llama_timeout_secs == 0 {
        Some(ConfigError::NotPositive(EnvKey::LlamaTimeoutSecs))
    } else if llama_max_tokens == 0 {
        Some(ConfigError::NotPositive(EnvKey::LlamaMaxTokens))
    } else if llama_prompt_chars == 0 {
        Some(ConfigError::NotPositive(EnvKey::LlamaPromptChars))
    } else if (discord_context_messages > 0) && discord_context_chars == 0 {
        Some(ConfigError::NotPositive(EnvKey::DiscordContextChars))
    } else if (memory_enabled) && memory_summarize_every == 0 {
        Some(ConfigError::NotPositive(EnvKey::MemorySummarizeEvery))
    } else if (memory_enabled) && memory_summary_chars == 0 {
        Some(ConfigError::NotPositive(EnvKey::MemorySummaryChars))
    } else if (memory_enabled) && memory_max_log_chars == 0 {
        Some(ConfigError::NotPositive(EnvKey::MemoryMaxLogChars))
    } else if (memory_enabled) && memory_entry_chars == 0 {
        Some(ConfigError::NotPositive(EnvKey::MemoryEntryChars))
    } else if (web_search_enabled) && web_search_results == 0 {
        Some(ConfigError::NotPositive(EnvKey::WebSearchResults))
    } else if (web_search_enabled && web_fetch_links) && web_fetch_max_urls == 0 {
        Some(ConfigError::NotPositive(EnvKey::WebFetchMaxUrls))
    } else if (web_search_enabled && web_fetch_links) && web_fetch_chars == 0 {
        Some(ConfigError::NotPositive(EnvKey::WebFetchChars))
    } else if (web_search_enabled && web_fetch_links) && web_fetch_body_bytes == 0 {
        Some(ConfigError::NotPositive(EnvKey::WebFetchBodyBytes))
    } else if (web_search_enabled && web_crawl_links) && web_crawl_max_pages == 0 {
        Some(ConfigError::NotPositive(EnvKey::WebCrawlMaxPages))
    } else if (web_search_enabled && web_crawl_links) && web_crawl_chars == 0 {
        Some(ConfigError::NotPositive(EnvKey::WebCrawlChars))
    } else if (attachments_enabled) && attachment_max_bytes == 0 {
        Some(ConfigError::NotPositive(EnvKey::AttachmentMaxBytes))
    } else if (attachments_enabled) && attachment_max_images == 0 {
        Some(ConfigError::NotPositive(EnvKey::AttachmentMaxImages))
    } else if (attachments_enabled) && attachment_max_text_chars == 0 {
        Some(ConfigError::NotPositive(EnvKey::AttachmentMaxTextChars))
    } else if (attachments_enabled) && attachment_download_timeout_secs == 0 {
        Some(ConfigError::NotPositive(EnvKey::AttachmentDownloadTimeoutSecs))
    } else if dev_sandbox_enabled && spec_u64_list_env(env).len() == 0 {
        Some(ConfigError::NoSandboxUsers)
    } else {
        None
    }
}

/// The bot's settings.
#[derive(Clone, Debug)]
pub struct Config {
    pub discord_token: String,
    pub discord_guild_id: Option<u64>,
    pub discord_chat_listener: bool,
    pub discord_markdown_output: bool,
    pub discord_context_messages: u8,
    pub discord_context_chars: usize,
    pub discord_trigger_names: Vec<String>,
    pub memory_enabled: bool,
    pub memory_capture_all_chat: bool,
    pub memory_dir: String,
    pub memory_summarize_every: u64,
    pub memory_summary_chars: usize,
    pub memory_retain_raw_logs: bool,
    pub memory_max_log_chars: usize,
    pub memory_entry_chars: usize,
    pub memory_store_author_names: bool,
    pub web_search_enabled: bool,
    pub web_search_always: bool,
    pub web_search_results: usize,
    pub web_fetch_links: bool,
    pub web_fetch_max_urls: usize,
    pub web_fetch_chars: usize,
    pub web_fetch_body_bytes: usize,
    pub web_crawl_links: bool,
    pub web_crawl_max_pages: usize,
    pub web_crawl_chars: usize,
    pub attachments_enabled: bool,
    pub attachment_max_bytes: usize,
    pub attachment_max_images: usize,
    pub attachment_max_text_chars: usize,
    pub attachment_download_timeout_secs: u64,
    pub dev_sandbox_enabled: bool,
    pub dev_sandbox_allowed_user_ids: Vec<u64>,
    pub dev_sandbox_runtime: String,
    pub dev_sandbox_image: String,
    pub dev_sandbox_container: String,
    pub dev_sandbox_workspace: String,
    pub dev_sandbox_timeout_secs: u64,
    pub dev_sandbox_max_steps: usize,
    pub dev_sandbox_output_chars: usize,
    pub llama_base_url: String,
    pub llama_model: String,
    pub llama_system_prompt: String,
    pub llama_timeout_secs: u64,
    pub llama_max_tokens: u32,
    pub llama_prompt_chars: usize,
    pub llama_thinking_mode: ThinkingMode,
}

impl Config {
    /// The settings that `env` gives, field by field, when `file` holds the
    /// contents of the system-prompt file.
    pub open spec fn spec_matches(&self, env: Seq<(Seq<char>, Seq<char>)>, file: Option<Seq<char>>) -> bool {
        &&& self.discord_token@ == env_value(env, EnvKey::DiscordToken)->Some_0
        &&& opt_nat(self.discord_guild_id) == spec_opt_num_env(env, EnvKey::DiscordGuildId, u64::MAX as nat)->Ok_0
        &&& self.discord_chat_listener == spec_bool_env(env, EnvKey::DiscordChatListener, false)->Ok_0
        &&& self.discord_markdown_output == spec_bool_env(env, EnvKey::DiscordMarkdownOutput, true)->Ok_0
        &&& self.discord_context_messages as nat == min_nat(spec_num_env(env, EnvKey::DiscordContextMessages, 8, u8::MAX as nat)->Ok_0, 100)
        &&& self.discord_context_chars as nat == spec_num_env(env, EnvKey::DiscordContextChars, 2400, usize::MAX as nat)->Ok_0
        &&& self.discord_trigger_names.deep_view() == spec_list_env(env)
        &&& self.memory_enabled == spec_bool_env(env, EnvKey::MemoryEnabled, false)->Ok_0
        &&& self.memory_capture_all_chat == spec_bool_env(env, EnvKey::MemoryCaptureAllChat, false)->Ok_0
        &&& self.memory_dir@ == spec_string_env(env, EnvKey::MemoryDir, "memory"@)
        &&& self.memory_summarize_every as nat == spec_num_env(env, EnvKey::MemorySummarizeEvery, 20, u64::MAX as nat)->Ok_0
        &&& self.memory_summary_chars as nat == spec_num_env(env, EnvKey::MemorySummaryChars, 1600, usize::MAX as nat)->Ok_0
        &&& self.memory_retain_raw_logs == spec_bool_env(env, EnvKey::MemoryRetainRawLogs, false)->Ok_0
        &&& self.memory_max_log_chars as nat == spec_num_env(env, EnvKey::MemoryMaxLogChars, 20000, usize::MAX as nat)->Ok_0
        &&& self.memory_entry_chars as nat == spec_num_env(env, EnvKey::MemoryEntryChars, 500, usize::MAX as nat)->Ok_0
        &&& self.memory_store_author_names == spec_bool_env(env, EnvKey::MemoryStoreAuthorNames, false)->Ok_0
        &&& self.web_search_enabled == spec_bool_env(env, EnvKey::WebSearchEnabled, false)->Ok_0
        &&& self.web_search_always == spec_bool_env(env, EnvKey::WebSearchAlways, false)->Ok_0
        &&& self.web_search_results as nat == spec_num_env(env, EnvKey::WebSearchResults, 5, usize::MAX as nat)->Ok_0
        &&& self.web_fetch_links == spec_bool_env(env, EnvKey::WebFetchLinks, true)->Ok_0
        &&& self.web_fetch_max_urls as nat == spec_num_env(env, EnvKey::WebFetchMaxUrls, 3, usize::MAX as nat)->Ok_0
        &&& self.web_fetch_chars as nat == spec_num_env(env, EnvKey::WebFetchChars, 2400, usize::MAX as nat)->Ok_0
        &&& self.web_fetch_body_bytes as nat == spec_num_env(env, EnvKey::WebFetchBodyBytes, 524288, usize::MAX as nat)->Ok_0
        &&& self.web_crawl_links == spec_bool_env(env, EnvKey::WebCrawlLinks, false)->Ok_0
        &&& self.web_crawl_max_pages as nat == spec_num_env(env, EnvKey::WebCrawlMaxPages, 2, usize::MAX as nat)->Ok_0
        &&& self.web_crawl_chars as nat == spec_num_env(env, EnvKey::WebCrawlChars, 700, usize::MAX as nat)->Ok_0
        &&& self.attachments_enabled == spec_bool_env_or(env, EnvKey::AttachmentsEnabled, true)
        &&& self.attachment_max_bytes as nat == spec_nonzero_env_or(env, EnvKey::AttachmentMaxBytes, 8388608, usize::MAX as nat)
        &&& self.attachment_max_images as nat == spec_nonzero_env_or(env, EnvKey::AttachmentMaxImages, 3, usize::MAX as nat)
        &&& self.attachment_max_text_chars as nat == spec_nonzero_env_or(env, EnvKey::AttachmentMaxTextChars, 12000, usize::MAX as nat)
        &&& self.attachment_download_timeout_secs as nat == spec_nonzero_env_or(env, EnvKey::AttachmentDownloadTimeoutSecs, 20, u64::MAX as nat)
        &&& self.dev_sandbox_enabled == spec_bool_env_or(env, EnvKey::DevSandboxEnabled, false)
        &&& self.dev_sandbox_allowed_user_ids@ == spec_u64_list_env(env)
        &&& self.dev_sandbox_runtime@ == spec_string_env(env, EnvKey::DevSandboxRuntime, "podman"@)
        &&& self.dev_sandbox_image@ == spec_string_env(env, EnvKey::DevSandboxImage, "localhost/komi-dev:latest"@)
        &&& self.dev_sandbox_container@ == spec_string_env(env, EnvKey::DevSandboxContainer, "komi-dev"@)
        &&& self.dev_sandbox_workspace@ == spec_string_env(env, EnvKey::DevSandboxWorkspace, "komi_workspace"@)
        &&& self.dev_sandbox_timeout_secs as nat == spec_nonzero_env_or(env, EnvKey::DevSandboxTimeoutSecs, 60, u64::MAX as nat)
        &&& self.dev_sandbox_max_steps as nat == spec_nonzero_env_or(env, EnvKey::DevSandboxMaxSteps, 8, usize::MAX as nat)
        &&& self.dev_sandbox_output_chars as nat == spec_nonzero_env_or(env, EnvKey::DevSandboxOutputChars, 6000, usize::MAX as nat)
        &&& self.llama_base_url@ == trim_end_slashes(spec_string_env(env, EnvKey::LlamaBaseUrl, "http://100.79.59.49:8080"@))
        &&& self.llama_model@ == spec_string_env(env, EnvKey::LlamaModel, "local-gemma"@)
        &&& self.llama_system_prompt@ == spec_system_prompt(env, file)->Ok_0
        &&& self.llama_timeout_secs as nat == spec_num_env(env, EnvKey::LlamaTimeoutSecs, 120, u64::MAX as nat)->Ok_0
        &&& self.llama_max_tokens as nat == spec_num_env(env, EnvKey::LlamaMaxTokens, 512, u32::MAX as nat)->Ok_0
        &&& self.llama_prompt_chars as nat == spec_num_env(env, EnvKey::LlamaPromptChars, 5000, usize::MAX as nat)->Ok_0
        &&& self.llama_thinking_mode == spec_thinking_mode(env)->Ok_0
    }

    /// Reads the settings from `env`, the process environment as pairs of name
    /// and value; `prompt_file` holds the contents of the file that
    /// `LLAMA_SYSTEM_PROMPT_FILE` names (see `system_prompt_file`), absent when
    /// it could not be read.
    #[verifier::rlimit(100)]
    pub fn from_env(env: &[(String, String)], prompt_file: &Option<String>) -> (r: Result<Config, ConfigError>)
        ensures
            match r {
                Ok(c) => config_error(env.deep_view(), prompt_file.deep_view()) is None
                    && c.spec_matches(env.deep_view(), prompt_file.deep_view()),
                Err(e) => config_error(env.deep_view(), prompt_file.deep_view()) == Some(e),
            },
    {
        let discord_token = match required_env(env, EnvKey::DiscordToken) {
            Ok(v) => v,
            Err(e) => return Err(e),
        };
        let discord_guild_id = match parse_optional_env(env, EnvKey::DiscordGuildId, u64::MAX) {
            Ok(v) => v,
            Err(e) => return Err(e),
        };
        let discord_chat_listener = match parse_bool_env(env, EnvKey::DiscordChatListener, false) {
            Ok(v) => v,
            Err(e) => return Err(e),
        };
        let discord_markdown_output = match parse_bool_env(env, EnvKey::DiscordMarkdownOutput, true) {
            Ok(v) => v,
            Err(e) => return Err(e),
        };
        let discord_context_messages_raw = match parse_env(env, EnvKey::DiscordContextMessages, 8, u8::MAX as u64) {
            Ok(v) => v,
            Err(e) => return Err(e),
        };
        let discord_context_messages: u8 = if discord_context_messages_raw < 100 {
            discord_context_messages_raw as u8
        } else {
            100
        };
        let discord_context_chars_raw = match parse_env(env, EnvKey::DiscordContextChars, 2400, usize::MAX as u64) {
            Ok(v) => v,
            Err(e) => return Err(e),
        };
        let discord_context_chars = discord_context_chars_raw as usize;
        let discord_trigger_names = match parse_list_env(env, EnvKey::DiscordTriggerNames) {
            Some(v) => v,
            None => {
                let names: Vec<String> = Vec::new();
                assert(names.deep_view() =~= Seq::<Seq<char>>::empty());
                names
            },
        };
        let memory_enabled = match parse_bool_env(env, EnvKey::MemoryEnabled, false) {
            Ok(v) => v,
            Err(e) => return Err(e),
        };
        let memory_capture_all_chat = match parse_bool_env(env, EnvKey::MemoryCaptureAllChat, false) {
            Ok(v) => v,
            Err(e) => return Err(e),
        };
        let memory_dir = string_env(env, EnvKey::MemoryDir, "memory");
        let memory_summarize_every_raw = match parse_env(env, EnvKey::MemorySummarizeEvery, 20, u64::MAX as u64) {
            Ok(v) => v,
            Err(e) => return Err(e),
        };
        let memory_summarize_every = memory_summarize_every_raw as u64;
        let memory_summary_chars_raw = match parse_env(env, EnvKey::MemorySummaryChars, 1600, usize::MAX as u64) {
            Ok(v) => v,
            Err(e) => return Err(e),
        };
        let memory_summary_chars = memory_summary_chars_raw as usize;
        let memory_retain_raw_logs = match parse_bool_env(env, EnvKey::MemoryRetainRawLogs, false) {
            Ok(v) => v,
            Err(e) => return Err(e),
        };
        let memory_max_log_chars_raw = match parse_env(env, EnvKey::MemoryMaxLogChars, 20000, usize::MAX as u64) {
            Ok(v) => v,
            Err(e) => return Err(e),
        };
        let memory_max_log_chars = memory_max_log_chars_raw as usize;
        let memory_entry_chars_raw = match parse_env(env, EnvKey::MemoryEntryChars, 500, usize::MAX as u64) {
            Ok(v) => v,
            Err(e) => return Err(e),
        };
        let memory_entry_chars = memory_entry_chars_raw as usize;
        let memory_store_author_names = match parse_bool_env(env, EnvKey::MemoryStoreAuthorNames, false) {
            Ok(v) => v,
            Err(e) => return Err(e),
        };
        let web_search_enabled = match parse_bool_env(env, EnvKey::WebSearchEnabled, false) {
            Ok(v) => v,
            Err(e) => return Err(e),
        };
        let web_search_always = match parse_bool_env(env, EnvKey::WebSearchAlways, false) {
            Ok(v) => v,
            Err(e) => return Err(e),
        };
        let web_search_results_raw = match parse_env(env, EnvKey::WebSearchResults, 5, usize::MAX as u64) {
            Ok(v) => v,
            Err(e) => return Err(e),
        };
        let web_search_results = web_search_results_raw as usize;
        let web_fetch_links = match parse_bool_env(env, EnvKey::WebFetchLinks, true) {
            Ok(v) => v,
            Err(e) => return Err(e),
        };
        let web_fetch_max_urls_raw = match parse_env(env, EnvKey::WebFetchMaxUrls, 3, usize::MAX as u64) {
            Ok(v) => v,
            Err(e) => return Err(e),
        };
        let web_fetch_max_urls = web_fetch_max_urls_raw as usize;
        let web_fetch_chars_raw = match parse_env(env, EnvKey::WebFetchChars, 2400, usize::MAX as u64) {
            Ok(v) => v,
            Err(e) => return Err(e),
        };
        let web_fetch_chars = web_fetch_chars_raw as usize;
        let web_fetch_body_bytes_raw = match parse_env(env, EnvKey::WebFetchBodyBytes, 524288, usize::MAX as u64) {
            Ok(v) => v,
            Err(e) => return Err(e),
        };
        let web_fetch_body_bytes = web_fetch_body_bytes_raw as usize;
        let web_crawl_links = match parse_bool_env(env, EnvKey::WebCrawlLinks, false) {
            Ok(v) => v,
            Err(e) => return Err(e),
        };
        let web_crawl_max_pages_raw = match parse_env(env, EnvKey::WebCrawlMaxPages, 2, usize::MAX as u64) {
            Ok(v) => v,
            Err(e) => return Err(e),
        };
        let web_crawl_max_pages = web_crawl_max_pages_raw as usize;
        let web_crawl_chars_raw = match parse_env(env, EnvKey::WebCrawlChars, 700, usize::MAX as u64) {
            Ok(v) => v,
            Err(e) => return Err(e),
        };
        let web_crawl_chars = web_crawl_chars_raw as usize;
        let attachments_enabled = parse_bool_env_or(env, EnvKey::AttachmentsEnabled, true);
        let attachment_max_bytes = parse_nonzero_env_or(env, EnvKey::AttachmentMaxBytes, 8388608, usize::MAX as u64) as usize;
        let attachment_max_images = parse_nonzero_env_or(env, EnvKey::AttachmentMaxImages, 3, usize::MAX as u64) as usize;
        let attachment_max_text_chars = parse_nonzero_env_or(env, EnvKey::AttachmentMaxTextChars, 12000, usize::MAX as u64) as usize;
        let attachment_download_timeout_secs = parse_nonzero_env_or(env, EnvKey::AttachmentDownloadTimeoutSecs, 20, u64::MAX as u64) as u64;
        let dev_sandbox_enabled = parse_bool_env_or(env, EnvKey::DevSandboxEnabled, false);
        let dev_sandbox_allowed_user_ids = match parse_u64_list_env(env, EnvKey::DevSandboxAllowedUserIds) {
            Some(v) => v,
            None => Vec::new(),
        };
        let dev_sandbox_runtime = string_env(env, EnvKey::DevSandboxRuntime, "podman");
        let dev_sandbox_image = string_env(env, EnvKey::DevSandboxImage, "localhost/komi-dev:latest");
        let dev_sandbox_container = string_env(env, EnvKey::DevSandboxContainer, "komi-dev");
        let dev_sandbox_workspace = string_env(env, EnvKey::DevSandboxWorkspace, "komi_workspace");
        let dev_sandbox_timeout_secs = parse_nonzero_env_or(env, EnvKey::DevSandboxTimeoutSecs, 60, u64::MAX as u64) as u64;
        let dev_sandbox_max_steps = parse_nonzero_env_or(env, EnvKey::DevSandboxMaxSteps, 8, usize::MAX as u64) as usize;
        let dev_sandbox_output_chars = parse_nonzero_env_or(env, EnvKey::DevSandboxOutputChars, 6000, usize::MAX as u64) as usize;
        let llama_base_url_raw = chars_of(string_env(env, EnvKey::LlamaBaseUrl, "http://100.79.59.49:8080").as_str());
        let llama_base_url = string_of(&trim_end_slashes_exec(&llama_base_url_raw));
        let llama_model = string_env(env, EnvKey::LlamaModel, "local-gemma");
        let llama_system_prompt = match parse_system_prompt(env, prompt_file) {
            Ok(v) => v,
            Err(e) => return Err(e),
        };
        let llama_timeout_secs_raw = match parse_env(env, EnvKey::LlamaTimeoutSecs, 120, u64::MAX as u64) {
            Ok(v) => v,
            Err(e) => return Err(e),
        };
        let llama_timeout_secs = llama_timeout_secs_raw as u64;
        let llama_max_tokens_raw = match parse_env(env, EnvKey::LlamaMaxTokens, 512, u32::MAX as u64) {
            Ok(v) => v,
            Err(e) => return Err(e),
        };
        let llama_max_tokens = llama_max_tokens_raw as u32;
        let llama_prompt_chars_raw = match parse_env(env, EnvKey::LlamaPromptChars, 5000, usize::MAX as u64) {
            Ok(v) => v,
            Err(e) => return Err(e),
        };
        let llama_prompt_chars = llama_prompt_chars_raw as usize;
        let llama_thinking_mode = match parse_thinking_mode(env) {
            Ok(v) => v,
            Err(e) => return Err(e),
        };
        if let Err(e) = require_nonzero(EnvKey::LlamaTimeoutSecs, llama_timeout_secs as u64, true) {
            return Err(e);
        }
        if let Err(e) = require_nonzero(EnvKey::LlamaMaxTokens, llama_max_tokens as u64, true) {
            return Err(e);
        }
        if let Err(e) = require_nonzero(EnvKey::LlamaPromptChars, llama_prompt_chars as u64, true) {
            return Err(e);
        }
        if let Err(e) = require_nonzero(EnvKey::DiscordContextChars, discord_context_chars as u64, discord_context_messages > 0) {
            return Err(e);
        }
        if let Err(e) = require_nonzero(EnvKey::MemorySummarizeEvery, memory_summarize_every as u64, memory_enabled) {
            return Err(e);
        }
        if let Err(e) = require_nonzero(EnvKey::MemorySummaryChars, memory_summary_chars as u64, memory_enabled) {
            return Err(e);
        }
        if let Err(e) = require_nonzero(EnvKey::MemoryMaxLogChars, memory_max_log_chars as u64, memory_enabled) {
            return Err(e);
        }
        if let Err(e) = require_nonzero(EnvKey::MemoryEntryChars, memory_entry_chars as u64, memory_enabled) {
            return Err(e);
        }
        if let Err(e) = require_nonzero(EnvKey::WebSearchResults, web_search_results as u64, web_search_enabled) {
            return Err(e);
        }
        if let Err(e) = require_nonzero(EnvKey::WebFetchMaxUrls, web_fetch_max_urls as u64, web_search_enabled && web_fetch_links) {
            return Err(e);
        }
        if let Err(e) = require_nonzero(EnvKey::WebFetchChars, web_fetch_chars as u64, web_search_enabled && web_fetch_links) {
            return Err(e);
        }
        if let Err(e) = require_nonzero(EnvKey::WebFetchBodyBytes, web_fetch_body_bytes as u64, web_search_enabled && web_fetch_links) {
            return Err(e);
        }
        if let Err(e) = require_nonzero(EnvKey::WebCrawlMaxPages, web_crawl_max_pages as u64, web_search_enabled && web_crawl_links) {
            return Err(e);
        }
        if let Err(e) = require_nonzero(EnvKey::WebCrawlChars, web_crawl_chars as u64, web_search_enabled && web_crawl_links) {
            return Err(e);
        }
        if let Err(e) = require_nonzero(EnvKey::AttachmentMaxBytes, attachment_max_bytes as u64, attachments_enabled) {
            return Err(e);
        }
        if let Err(e) = require_nonzero(EnvKey::AttachmentMaxImages, attachment_max_images as u64, attachments_enabled) {
            return Err(e);
        }
        if let Err(e) = require_nonzero(EnvKey::AttachmentMaxTextChars, attachment_max_text_chars as u64, attachments_enabled) {
            return Err(e);
        }
        if let Err(e) = require_nonzero(EnvKey::AttachmentDownloadTimeoutSecs, attachment_download_timeout_secs as u64, attachments_enabled) {
            return Err(e);
        }
        if dev_sandbox_enabled && dev_sandbox_allowed_user_ids.len() == 0 {
            return Err(ConfigError::NoSandboxUsers);
        }
        Ok(Config {
            discord_token,
            discord_guild_id,
            discord_chat_listener,
            discord_markdown_output,
            discord_context_messages,
            discord_context_chars,
            discord_trigger_names,
            memory_enabled,
            memory_capture_all_chat,
            memory_dir,
            memory_summarize_every,
            memory_summary_chars,
            memory_retain_raw_logs,
            memory_max_log_chars,
            memory_entry_chars,
            memory_store_author_names,
            web_search_enabled,
            web_search_always,
            web_search_results,
            web_fetch_links,
            web_fetch_max_urls,
            web_fetch_chars,
            web_fetch_body_bytes,
            web_crawl_links,
            web_crawl_max_pages,
            web_crawl_chars,
            attachments_enabled,
            attachment_max_bytes,
            attachment_max_images,
            attachment_max_text_chars,
            attachment_download_timeout_secs,
            dev_sandbox_enabled,
            dev_sandbox_allowed_user_ids,
            dev_sandbox_runtime,
            dev_sandbox_image,
            dev_sandbox_container,
            dev_sandbox_workspace,
            dev_sandbox_timeout_secs,
            dev_sandbox_max_steps,
            dev_sandbox_output_chars,
            llama_base_url,
            llama_model,
            llama_system_prompt,
            llama_timeout_secs,
            llama_max_tokens,
            llama_prompt_chars,
            llama_thinking_mode,
        })
    }
}

/// A configuration read without error is consistent: the model's limits are
/// positive, at most 100 context messages are read, every enabled feature has
/// positive limits, and an enabled development sandbox has someone allowed to
/// use it.
#[verifier::rlimit(60)]
pub proof fn lemma_config_consistent(env: Seq<(Seq<char>, Seq<char>)>, file: Option<Seq<char>>, c: Config)
    requires
        config_error(env, file) is None,
        c.spec_matches(env, file),
    ensures
        c.llama_timeout_secs > 0 && c.llama_max_tokens > 0 && c.llama_prompt_chars > 0,
        c.discord_context_messages <= 100,
        c.discord_context_messages > 0 ==> c.discord_context_chars > 0,
        c.memory_enabled ==> c.memory_summarize_every > 0 && c.memory_summary_chars > 0
            && c.memory_max_log_chars > 0 && c.memory_entry_chars > 0,
        c.web_search_enabled ==> c.web_search_results > 0,
        c.web_search_enabled && c.web_fetch_links ==> c.web_fetch_max_urls > 0 && c.web_fetch_chars > 0
            && c.web_fetch_body_bytes > 0,
        c.web_search_enabled && c.web_crawl_links ==> c.web_crawl_max_pages > 0 && c.web_crawl_chars > 0,
        c.attachments_enabled ==> c.attachment_max_bytes > 0 && c.attachment_max_images > 0
            && c.attachment_max_text_chars > 0 && c.attachment_download_timeout_secs > 0,
        c.dev_sandbox_enabled ==> c.dev_sandbox_allowed_user_ids@.len() > 0,
{
}

/// Why a limit must be nonzero, after the variable's name; empty for limits
/// that are always required.
pub open spec fn nonzero_reason(k: EnvKey) -> Seq<char> {
    match k {
        EnvKey::DiscordContextChars => " when context messages are enabled"@,
        EnvKey::MemorySummarizeEvery | EnvKey::MemorySummaryChars | EnvKey::MemoryMaxLogChars
        | EnvKey::MemoryEntryChars => " when memory is enabled"@,
        EnvKey::WebSearchResults => " when web search is enabled"@,
        EnvKey::WebFetchMaxUrls | EnvKey::WebFetchChars | EnvKey::WebFetchBodyBytes =>
            " when link fetching is enabled"@,
        EnvKey::WebCrawlMaxPages | EnvKey::WebCrawlChars => " when link crawling is enabled"@,
        EnvKey::AttachmentMaxBytes | EnvKey::AttachmentMaxImages | EnvKey::AttachmentMaxTextChars
        | EnvKey::AttachmentDownloadTimeoutSecs => " when attachments are enabled"@,
        _ => ""@,
    }
}

/// Computes `nonzero_reason`.
fn nonzero_reason_exec(k: EnvKey) -> (r: &'static str)
    ensures
        r@ == nonzero_reason(k),
{
    match k {
        EnvKey::DiscordContextChars => " when context messages are enabled",
        EnvKey::MemorySummarizeEvery | EnvKey::MemorySummaryChars | EnvKey::MemoryMaxLogChars
        | EnvKey::MemoryEntryChars => " when memory is enabled",
        EnvKey::WebSearchResults => " when web search is enabled",
        EnvKey::WebFetchMaxUrls | EnvKey::WebFetchChars | EnvKey::WebFetchBodyBytes =>
            " when link fetching is enabled",
        EnvKey::WebCrawlMaxPages | EnvKey::WebCrawlChars => " when link crawling is enabled",
        EnvKey::AttachmentMaxBytes | EnvKey::AttachmentMaxImages | EnvKey::AttachmentMaxTextChars
        | EnvKey::AttachmentDownloadTimeoutSecs => " when attachments are enabled",
        _ => "",
    }
}

/// The message that explains a configuration error.
pub open spec fn error_message(e: ConfigError) -> Seq<char> {
    match e {
        ConfigError::Missing(k) => "missing required environment variable: "@ + k.spec_name(),
        ConfigError::Invalid(k) => k.spec_name() + " is invalid"@,
        ConfigError::InvalidBool(k) => k.spec_name() + " must be one of: 1, 0, true, false, yes, no, on, off"@,
        ConfigError::InvalidThinkingMode => "LLAMA_THINKING_MODE must be one of: auto, on, off, 1, 0"@,
        ConfigError::InvalidEnableThinking =>
            "LLAMA_ENABLE_THINKING must be one of: 1, 0, true, false, yes, no, on, off"@,
        ConfigError::PromptFileUnreadable => "failed to read LLAMA_SYSTEM_PROMPT_FILE"@,
        ConfigError::NotPositive(k) => k.spec_name() + " must be greater than 0"@ + nonzero_reason(k),
        ConfigError::NoSandboxUsers =>
            "DEV_SANDBOX_ALLOWED_USER_IDS must contain at least one Discord user ID"@,
    }
}

impl ConfigError {
    /// The message that explains the error.
    pub fn message(&self) -> (r: String)
        ensures
            r@ == error_message(*self),
    {
        let mut out: Vec<char> = Vec::new();
        match *self {
            ConfigError::Missing(k) => {
                append_str(&mut out, "missing required environment variable: ");
                append_str(&mut out, k.name());
            },
            ConfigError::Invalid(k) => {
                append_str(&mut out, k.name());
                append_str(&mut out, " is invalid");
            },
            ConfigError::InvalidBool(k) => {
                append_str(&mut out, k.name());
                append_str(&mut out, " must be one of: 1, 0, true, false, yes, no, on, off");
            },
            ConfigError::InvalidThinkingMode => {
                append_str(&mut out, "LLAMA_THINKING_MODE must be one of: auto, on, off, 1, 0");
            },
            ConfigError::InvalidEnableThinking => {
                append_str(&mut out, "LLAMA_ENABLE_THINKING must be one of: 1, 0, true, false, yes, no, on, off");
            },
            ConfigError::PromptFileUnreadable => {
                append_str(&mut out, "failed to read LLAMA_SYSTEM_PROMPT_FILE");
            },
            ConfigError::NotPositive(k) => {
                append_str(&mut out, k.name());
                append_str(&mut out, " must be greater than 0");
                append_str(&mut out, nonzero_reason_exec(k));
            },
            ConfigError::NoSandboxUsers => {
                append_str(&mut out, "DEV_SANDBOX_ALLOWED_USER_IDS must contain at least one Discord user ID");
            },
        }
        string_of(&out)
    }
}

impl std::str::FromStr for ThinkingMode {
    type Err = ConfigError;

    fn from_str(value: &str) -> (r: Result<ThinkingMode, ConfigError>)
        ensures
            match thinking_word(value@) {
                Some(m) => r == Ok::<ThinkingMode, ConfigError>(m),
                None => r == Err::<ThinkingMode, ConfigError>(ConfigError::InvalidThinkingMode),
            },
    {
        ThinkingMode::parse_mode(value)
    }
}

} // verus!
