//! Deciding when and how the bot answers a Discord message.

use vstd::prelude::*;

use crate::attachments::{attachment_type, kind_of, type_of, AttachmentInfo, AttachmentType};
use crate::text::{
    append_str, chars_of, contains, contains_any, contains_any_exec, decimal, decimal_exec,
    extend, find_any, first_contained, find_first, first_index, join, join_exec, lower, lower_chars, map_char,
    map_char_exec, replace_all, replace_all_exec, squash_ws, squash_ws_exec, string_of, trim,
    trim_seq, remove_range, words, words_exec, starts_with, starts_with_exec, matches_at,
};

verus! {

/// The most characters of a reply that Discord shows at once.
pub const DISCORD_REPLY_LIMIT: usize = 1900;

/// The most characters of a status line.
pub const DISCORD_STATUS_LIMIT: usize = 1800;

/// `content` trimmed and cut to `max` characters, with `\n...` after a cut.
pub open spec fn discord_trimmed(content: Seq<char>, max: nat) -> Seq<char> {
    let t = trim(content);
    if t.len() <= max {
        t
    } else {
        t.take(max as int) + "\n..."@
    }
}

/// A trimmed reply holds at most `max` characters and the four of the cut
/// mark; a reply that fits is only trimmed.
pub proof fn lemma_discord_trimmed_fits(content: Seq<char>, max: nat)
    ensures
        discord_trimmed(content, max).len() <= max + 4,
        trim(content).len() <= max ==> discord_trimmed(content, max) == trim(content),
{
    reveal_strlit("\n...");
}

/// A channel reply fits the reply limit: the mention of the requester, a
/// space and the trimmed text never exceed `DISCORD_REPLY_LIMIT` characters.
pub proof fn lemma_channel_reply_fits(author_id: u64, content: Seq<char>)
    ensures
        (mention_tag(author_id as nat) + " "@ + discord_trimmed(content, (DISCORD_REPLY_LIMIT - 32) as nat)).len()
            <= DISCORD_REPLY_LIMIT,
{
    reveal_strlit("<@");
    reveal_strlit(">");
    reveal_strlit(" ");
    assert(crate::text::pow10(20) == 100000000000000000000) by {
        reveal_with_fuel(crate::text::pow10, 21);
    }
    crate::text::lemma_decimal_len(author_id as nat, 20);
    lemma_discord_trimmed_fits(content, (DISCORD_REPLY_LIMIT - 32) as nat);
}

/// Trims `content` and cuts it to `max_chars` characters, marking a cut with
/// `\n...`.
pub fn trim_discord(content: &str, max_chars: usize) -> (r: String)
    ensures
        r@ == discord_trimmed(content@, max_chars as nat),
{
    let cs = chars_of(content);
    let t = trim_seq(&cs);
    if t.len() <= max_chars {
        string_of(&t)
    } else {
        let mut out = crate::text::slice_vec(&t, 0, max_chars);
        append_str(&mut out, "\n...");
        string_of(&out)
    }
}

/// The tag that mentions a user.
pub open spec fn mention_tag(id: nat) -> Seq<char> {
    "<@"@ + decimal(id) + ">"@
}

/// The tag that mentions a user by nickname.
pub open spec fn nickname_tag(id: nat) -> Seq<char> {
    "<@!"@ + decimal(id) + ">"@
}

/// The prompt used when a mention carries no text.
pub open spec fn default_prompt() -> Seq<char> {
    "무슨 일이야?"@
}

/// `prompt`, or the default prompt when it is empty.
pub open spec fn default_if_empty(prompt: Seq<char>) -> Seq<char> {
    if prompt.len() == 0 {
        default_prompt()
    } else {
        prompt
    }
}

/// Replaces an empty prompt by the default prompt.
pub fn default_prompt_if_empty(prompt: String) -> (r: String)
    ensures
        r@ == default_if_empty(prompt@),
{
    if prompt.as_str().is_empty() {
        "무슨 일이야?".to_owned()
    } else {
        prompt
    }
}

/// The names in ASCII lower case.
pub open spec fn lower_all(names: Seq<Seq<char>>) -> Seq<Seq<char>> {
    names.map_values(|n: Seq<char>| lower(n))
}

/// What the bot is asked, when a message is addressed to it: a message that
/// mentions the bot is stripped of the mentions (an empty rest becomes the
/// default prompt); a message that names the bot or one of its trigger names
/// (ignoring ASCII case) is taken whole, trimmed.
pub open spec fn spec_mentioned_prompt(
    content: Seq<char>,
    bot_id: nat,
    bot_name: Seq<char>,
    triggers: Seq<Seq<char>>,
) -> Option<Seq<char>> {
    let c = trim(content);
    let m = mention_tag(bot_id);
    let n = nickname_tag(bot_id);
    if c.len() == 0 {
        None
    } else if contains(c, m) || contains(c, n) {
        Some(default_if_empty(trim(replace_all(replace_all(c, m, seq![]), n, seq![]))))
    } else if contains(lower(c), lower(bot_name)) || contains_any(lower(c), lower_all(triggers)) {
        Some(c)
    } else {
        None
    }
}

/// A message that names the bot, or one of its trigger names, in any ASCII
/// case and without mentioning it, is taken whole, trimmed.
pub proof fn lemma_named_message_is_prompt(
    content: Seq<char>,
    bot_id: nat,
    bot_name: Seq<char>,
    triggers: Seq<Seq<char>>,
    k: int,
)
    requires
        trim(content).len() > 0,
        !contains(trim(content), mention_tag(bot_id)),
        !contains(trim(content), nickname_tag(bot_id)),
        contains(lower(trim(content)), lower(bot_name)) || (0 <= k < triggers.len() && contains(
            lower(trim(content)),
            lower(triggers[k]),
        )),
    ensures
        spec_mentioned_prompt(content, bot_id, bot_name, triggers) == Some(trim(content)),
{
    if 0 <= k < triggers.len() {
        assert(lower_all(triggers)[k] == lower(triggers[k]));
    }
}

/// A message that mentions the bot is always answered.
pub proof fn lemma_mention_is_answered(content: Seq<char>, bot_id: nat, bot_name: Seq<char>, triggers: Seq<Seq<char>>)
    requires
        contains(trim(content), mention_tag(bot_id)) || contains(trim(content), nickname_tag(bot_id)),
    ensures
        spec_mentioned_prompt(content, bot_id, bot_name, triggers) is Some,
{
    let c = trim(content);
    let m = mention_tag(bot_id);
    let n = nickname_tag(bot_id);
    if contains(c, m) {
        let i = choose|i: int| matches_at(c, m, i);
        assert(m.len() >= 1) by {
            reveal_strlit("<@");
        }
    } else {
        let i = choose|i: int| matches_at(c, n, i);
        assert(n.len() >= 1) by {
            reveal_strlit("<@!");
        }
    }
}

/// A message that mentions the bot nowhere, and names neither it nor any of
/// its trigger names in any ASCII case, is not addressed to it.
pub proof fn lemma_unnamed_message_is_ignored(
    content: Seq<char>,
    bot_id: nat,
    bot_name: Seq<char>,
    triggers: Seq<Seq<char>>,
)
    requires
        !contains(trim(content), mention_tag(bot_id)),
        !contains(trim(content), nickname_tag(bot_id)),
        !contains(lower(trim(content)), lower(bot_name)),
        forall|k: int| 0 <= k < triggers.len() ==> !contains(lower(trim(content)), #[trigger] lower(triggers[k])),
    ensures
        spec_mentioned_prompt(content, bot_id, bot_name, triggers) is None,
{
    let lc = lower(trim(content));
    assert forall|j: int| 0 <= j < lower_all(triggers).len() implies !contains(lc, #[trigger] lower_all(triggers)[j]) by {
        assert(lower_all(triggers)[j] == lower(triggers[j]));
    }
}

/// Whether a message that mentions no one is addressed to the bot does not
/// depend on its ASCII case.
pub proof fn lemma_naming_ignores_case(
    first: Seq<char>,
    second: Seq<char>,
    bot_id: nat,
    bot_name: Seq<char>,
    triggers: Seq<Seq<char>>,
)
    requires
        lower(trim(first)) == lower(trim(second)),
        !contains(trim(first), mention_tag(bot_id)),
        !contains(trim(first), nickname_tag(bot_id)),
        !contains(trim(second), mention_tag(bot_id)),
        !contains(trim(second), nickname_tag(bot_id)),
    ensures
        (spec_mentioned_prompt(first, bot_id, bot_name, triggers) is Some)
            == (spec_mentioned_prompt(second, bot_id, bot_name, triggers) is Some),
{
    assert(trim(first).len() == lower(trim(first)).len());
    assert(trim(second).len() == lower(trim(second)).len());
}

/// The names in ASCII lower case.
fn lower_names(names: &[String]) -> (r: Vec<Vec<char>>)
    ensures
        r.deep_view() == lower_all(names.deep_view()),
{
    let ghost dv = names.deep_view();
    let mut r: Vec<Vec<char>> = Vec::new();
    let mut i: usize = 0;
    while i < names.len()
        invariant
            dv == names.deep_view(),
            dv.len() == names@.len(),
            i <= names@.len(),
            r.deep_view() == lower_all(dv.take(i as int)),
        decreases names@.len() - i,
    {
        let l = lower_chars(&chars_of(names[i].as_str()));
        let ghost before = r.deep_view();
        assert(dv[i as int] == names@[i as int]@);
        assert(l.deep_view() =~= l@);
        r.push(l);
        assert(lower_all(dv.take(i + 1)) =~= lower_all(dv.take(i as int)).push(lower(dv[i as int])));
        assert(r.deep_view() =~= before.push(l@));
        i = i + 1;
    }
    assert(dv.take(names@.len() as int) =~= dv);
    r
}

/// What the bot is asked, when `content` is addressed to it.
pub fn mentioned_prompt(content: &str, bot_id: u64, bot_name: &str, trigger_names: &[String]) -> (r:
    Option<String>)
    ensures
        match r {
            Some(p) => spec_mentioned_prompt(
                content@,
                bot_id as nat,
                bot_name@,
                trigger_names.deep_view(),
            ) == Some(p@),
            None => spec_mentioned_prompt(
                content@,
                bot_id as nat,
                bot_name@,
                trigger_names.deep_view(),
            ) is None,
        },
{
    let c = trim_seq(&chars_of(content));
    if c.len() == 0 {
        return None;
    }
    let id = decimal_exec(bot_id);
    let mut m: Vec<char> = chars_of("<@");
    extend(&mut m, &id);
    append_str(&mut m, ">");
    let mut n: Vec<char> = chars_of("<@!");
    extend(&mut n, &id);
    append_str(&mut n, ">");
    assert(m@ =~= mention_tag(bot_id as nat));
    assert(n@ =~= nickname_tag(bot_id as nat));
    if crate::text::contains_exec(&c, &m) || crate::text::contains_exec(&c, &n) {
        let empty: Vec<char> = Vec::new();
        assert(empty@ =~= Seq::<char>::empty());
        let without_m = replace_all_exec(&c, &m, &empty);
        let without_n = replace_all_exec(&without_m, &n, &empty);
        let p = trim_seq(&without_n);
        return Some(default_prompt_if_empty(string_of(&p)));
    }
    let lc = lower_chars(&c);
    let ln = lower_chars(&chars_of(bot_name));
    if crate::text::contains_exec(&lc, &ln) || contains_any_exec(&lc, &lower_names(trigger_names)) {
        return Some(string_of(&c));
    }
    None
}

/// The phrases that ask for work in the development container.
pub open spec fn dev_triggers() -> Seq<Seq<char>> {
    seq![
        "개발 컨테이너 써서"@,
        "개발 컨테이너를 써서"@,
        "개발 컨테이너 사용해서"@,
        "개발 컨테이너를 사용해서"@,
        "개발 컨테이너에서"@,
        "개발 샌드박스에서"@,
        "샌드박스에서 개발"@,
        "dev container로"@,
        "dev container에서"@,
        "development container로"@,
        "development container에서"@,
    ]
}

/// `dev_triggers` as vectors of characters.
pub fn dev_triggers_exec() -> (r: Vec<Vec<char>>)
    ensures
        r.deep_view() == dev_triggers(),
{
    let mut r: Vec<Vec<char>> = Vec::new();
    let w = chars_of("개발 컨테이너 써서");
    assert(w.deep_view() =~= w@);
    r.push(w);
    let w = chars_of("개발 컨테이너를 써서");
    assert(w.deep_view() =~= w@);
    r.push(w);
    let w = chars_of("개발 컨테이너 사용해서");
    assert(w.deep_view() =~= w@);
    r.push(w);
    let w = chars_of("개발 컨테이너를 사용해서");
    assert(w.deep_view() =~= w@);
    r.push(w);
    let w = chars_of("개발 컨테이너에서");
    assert(w.deep_view() =~= w@);
    r.push(w);
    let w = chars_of("개발 샌드박스에서");
    assert(w.deep_view() =~= w@);
    r.push(w);
    let w = chars_of("샌드박스에서 개발");
    assert(w.deep_view() =~= w@);
    r.push(w);
    let w = chars_of("dev container로");
    assert(w.deep_view() =~= w@);
    r.push(w);
    let w = chars_of("dev container에서");
    assert(w.deep_view() =~= w@);
    r.push(w);
    let w = chars_of("development container로");
    assert(w.deep_view() =~= w@);
    r.push(w);
    let w = chars_of("development container에서");
    assert(w.deep_view() =~= w@);
    r.push(w);
    assert(r.deep_view() =~= dev_triggers());
    r
}

/// The words that refer to an attachment.
pub open spec fn attachment_markers() -> Seq<Seq<char>> {
    seq![
        "attachment"@,
        "attached"@,
        "image"@,
        "photo"@,
        "picture"@,
        "file"@,
        "첨부"@,
        "사진"@,
        "이미지"@,
        "파일"@,
        "문서"@,
        "이거"@,
        "이것"@,
        "저거"@,
        "방금"@,
        "위에"@,
        "올린"@,
    ]
}

/// `attachment_markers` as vectors of characters.
pub fn attachment_markers_exec() -> (r: Vec<Vec<char>>)
    ensures
        r.deep_view() == attachment_markers(),
{
    let mut r: Vec<Vec<char>> = Vec::new();
    let w = chars_of("attachment");
    assert(w.deep_view() =~= w@);
    r.push(w);
    let w = chars_of("attached");
    assert(w.deep_view() =~= w@);
    r.push(w);
    let w = chars_of("image");
    assert(w.deep_view() =~= w@);
    r.push(w);
    let w = chars_of("photo");
    assert(w.deep_view() =~= w@);
    r.push(w);
    let w = chars_of("picture");
    assert(w.deep_view() =~= w@);
    r.push(w);
    let w = chars_of("file");
    assert(w.deep_view() =~= w@);
    r.push(w);
    let w = chars_of("첨부");
    assert(w.deep_view() =~= w@);
    r.push(w);
    let w = chars_of("사진");
    assert(w.deep_view() =~= w@);
    r.push(w);
    let w = chars_of("이미지");
    assert(w.deep_view() =~= w@);
    r.push(w);
    let w = chars_of("파일");
    assert(w.deep_view() =~= w@);
    r.push(w);
    let w = chars_of("문서");
    assert(w.deep_view() =~= w@);
    r.push(w);
    let w = chars_of("이거");
    assert(w.deep_view() =~= w@);
    r.push(w);
    let w = chars_of("이것");
    assert(w.deep_view() =~= w@);
    r.push(w);
    let w = chars_of("저거");
    assert(w.deep_view() =~= w@);
    r.push(w);
    let w = chars_of("방금");
    assert(w.deep_view() =~= w@);
    r.push(w);
    let w = chars_of("위에");
    assert(w.deep_view() =~= w@);
    r.push(w);
    let w = chars_of("올린");
    assert(w.deep_view() =~= w@);
    r.push(w);
    assert(r.deep_view() =~= attachment_markers());
    r
}

/// `value` without the first occurrence of `needle`, found ignoring ASCII case
/// (`needle` is in lower case).
pub open spec fn removed_first_ci(value: Seq<char>, needle: Seq<char>) -> Seq<char> {
    let l = lower(value);
    if contains(l, needle) {
        let i = first_index(l, needle);
        value.take(i) + value.skip(i + needle.len())
    } else {
        value
    }
}

/// Removes the first occurrence of `needle` (in lower case) from `value`,
/// ignoring ASCII case.
pub fn remove_first_case_insensitive(value: &str, needle: &str) -> (r: String)
    ensures
        r@ == removed_first_ci(value@, needle@),
{
    let v = chars_of(value);
    let l = lower_chars(&v);
    let n = chars_of(needle);
    match find_first(&l, &n) {
        Some(i) => {
            let vl = v.len();
            assert(l@.len() == v@.len());
            assert(i + n@.len() <= vl);
            string_of(&remove_range(&v, i, i + n.len()))
        },
        None => value.to_owned(),
    }
}

/// The development task that a prompt asks for, if it names the development
/// container: the prompt without the first such phrase, its whitespace
/// collapsed (the whole trimmed prompt when nothing else remains).
pub open spec fn spec_natural_dev_task(prompt: Seq<char>) -> Option<Seq<char>> {
    let l = lower(prompt);
    if contains_any(l, dev_triggers()) {
        let trig = dev_triggers()[first_contained(l, dev_triggers())];
        let task = squash_ws(removed_first_ci(prompt, trig));
        Some(
            if task.len() == 0 {
                trim(prompt)
            } else {
                task
            },
        )
    } else {
        None
    }
}

/// The development task that a prompt asks for, if any.
pub fn natural_dev_task(prompt: &str) -> (r: Option<String>)
    ensures
        match r {
            Some(t) => spec_natural_dev_task(prompt@) == Some(t@),
            None => spec_natural_dev_task(prompt@) is None,
        },
{
    let p = chars_of(prompt);
    let l = lower_chars(&p);
    let triggers = dev_triggers_exec();
    match find_any(&l, &triggers) {
        None => None,
        Some(k) => {
            let ghost ws = dev_triggers();
            proof {
                crate::text::lemma_first_contained(l@, ws, k as int);
            }
            assert(triggers.deep_view()[k as int] == triggers@[k as int]@);
            let trig = string_of(&triggers[k]);
            let removed = remove_first_case_insensitive(prompt, trig.as_str());
            let task = squash_ws_exec(&chars_of(removed.as_str()));
            if task.len() == 0 {
                Some(string_of(&trim_seq(&p)))
            } else {
                Some(string_of(&task))
            }
        },
    }
}

/// Whether a prompt refers to an attachment.
pub open spec fn spec_attachment_requested(prompt: Seq<char>) -> bool {
    contains_any(lower(prompt), attachment_markers())
}

/// Whether a prompt refers to an attachment.
pub fn attachment_requested(prompt: &str) -> (r: bool)
    ensures
        r == spec_attachment_requested(prompt@),
{
    contains_any_exec(&lower_chars(&chars_of(prompt)), &attachment_markers_exec())
}


/// A Discord message named by its channel and ID.
#[derive(Clone, Copy, Debug, PartialEq, Eq, Structural)]
pub struct ExplicitMessageReference {
    pub channel_id: u64,
    pub message_id: u64,
}

/// The punctuation stripped from both ends of a word before it is read as a
/// message reference.
pub open spec fn reference_punct() -> Seq<char> {
    seq!['<', '>', '(', ')', '[', ']', '{', '}', ',', '.', '!', '?', ':']
}

/// The path after a Discord message link's prefix.
pub open spec fn link_path(t: Seq<char>) -> Option<Seq<char>> {
    if starts_with(t, "https://discord.com/channels/"@) {
        Some(t.skip("https://discord.com/channels/"@.len() as int))
    } else if starts_with(t, "http://discord.com/channels/"@) {
        Some(t.skip("http://discord.com/channels/"@.len() as int))
    } else if starts_with(t, "https://discordapp.com/channels/"@) {
        Some(t.skip("https://discordapp.com/channels/"@.len() as int))
    } else if starts_with(t, "http://discordapp.com/channels/"@) {
        Some(t.skip("http://discordapp.com/channels/"@.len() as int))
    } else {
        None
    }
}

/// The message that a Discord message link names:
/// `.../channels/<guild>/<channel>/<message>`, further segments ignored.
pub open spec fn spec_link_reference(t: Seq<char>) -> Option<ExplicitMessageReference> {
    match link_path(t) {
        None => None,
        Some(path) => {
            let parts = crate::text::split(path, '/');
            if parts.len() >= 3 {
                match (
                    crate::text::parse_unsigned(parts[1], u64::MAX as nat),
                    crate::text::parse_unsigned(parts[2], u64::MAX as nat),
                ) {
                    (Some(c), Some(m)) => Some(
                        ExplicitMessageReference { channel_id: c as u64, message_id: m as u64 },
                    ),
                    _ => None,
                }
            } else {
                None
            }
        },
    }
}

/// A Discord ID: 17 to 20 decimal digits.
pub open spec fn spec_is_snowflake(t: Seq<char>) -> bool {
    17 <= t.len() <= 20 && crate::text::all_digits(t)
}

/// The first message reference among `ws`: a message link, or a bare ID taken
/// in the current channel; the search stops, with nothing, at a bare ID that is
/// too large for a `u64`.
pub open spec fn reference_in(ws: Seq<Seq<char>>, channel: u64) -> Option<ExplicitMessageReference>
    decreases ws.len(),
{
    if ws.len() == 0 {
        None
    } else {
        let t = crate::text::strip_set(ws[0], reference_punct());
        match spec_link_reference(t) {
            Some(r) => Some(r),
            None => if spec_is_snowflake(t) {
                match crate::text::parse_unsigned(t, u64::MAX as nat) {
                    Some(n) => Some(
                        ExplicitMessageReference { channel_id: channel, message_id: n as u64 },
                    ),
                    None => None,
                }
            } else {
                reference_in(ws.skip(1), channel)
            },
        }
    }
}

/// Decides whether a word is a Discord ID.
pub fn is_discord_snowflake(value: &str) -> (r: bool)
    ensures
        r == spec_is_snowflake(value@),
{
    let v = chars_of(value);
    if v.len() < 17 || v.len() > 20 {
        return false;
    }
    let mut i: usize = 0;
    while i < v.len()
        invariant
            i <= v@.len(),
            v@ == value@,
            forall|j: int| 0 <= j < i ==> crate::text::is_digit(#[trigger] v@[j]),
        decreases v@.len() - i,
    {
        if !('0' <= v[i] && v[i] <= '9') {
            assert(!crate::text::is_digit(v@[i as int]));
            assert(!crate::text::all_digits(v@));
            return false;
        }
        i = i + 1;
    }
    true
}

/// The path of a message link after one of the prefixes.
fn strip_link_prefix(t: &[char]) -> (r: Option<Vec<char>>)
    ensures
        match r {
            Some(p) => link_path(t@) == Some(p@),
            None => link_path(t@) is None,
        },
{
    let p0 = chars_of("https://discord.com/channels/");
    if starts_with_exec(t, &p0) {
        return Some(crate::text::slice_vec(t, p0.len(), t.len()));
    }
    let p1 = chars_of("http://discord.com/channels/");
    if starts_with_exec(t, &p1) {
        return Some(crate::text::slice_vec(t, p1.len(), t.len()));
    }
    let p2 = chars_of("https://discordapp.com/channels/");
    if starts_with_exec(t, &p2) {
        return Some(crate::text::slice_vec(t, p2.len(), t.len()));
    }
    let p3 = chars_of("http://discordapp.com/channels/");
    if starts_with_exec(t, &p3) {
        return Some(crate::text::slice_vec(t, p3.len(), t.len()));
    }
    None
}

/// The message that a Discord message link names, if `token` is one.
pub fn discord_message_link_reference(token: &str) -> (r: Option<ExplicitMessageReference>)
    ensures
        r == spec_link_reference(token@),
{
    let t = chars_of(token);
    let path = match strip_link_prefix(&t) {
        Some(p) => p,
        None => return None,
    };
    let parts = crate::text::split_exec(&path, '/');
    if parts.len() < 3 {
        return None;
    }
    assert(parts.deep_view()[1] == parts@[1]@);
    assert(parts.deep_view()[2] == parts@[2]@);
    let channel_id = match crate::text::parse_u64(&parts[1]) {
        Some(c) => c,
        None => return None,
    };
    let message_id = match crate::text::parse_u64(&parts[2]) {
        Some(m) => m,
        None => return None,
    };
    Some(ExplicitMessageReference { channel_id, message_id })
}

/// The first message that a prompt names, by link or by bare ID.
pub fn explicit_message_reference(prompt: &str, current_channel_id: u64) -> (r: Option<
    ExplicitMessageReference,
>)
    ensures
        r == reference_in(words(prompt@), current_channel_id),
{
    let ws = words_exec(&chars_of(prompt));
    let ghost dv = ws.deep_view();
    let punct = vec!['<', '>', '(', ')', '[', ']', '{', '}', ',', '.', '!', '?', ':'];
    assert(punct@ =~= reference_punct());
    let mut i: usize = 0;
    assert(dv.skip(0) =~= dv);
    while i < ws.len()
        invariant
            dv == ws.deep_view(),
            dv == words(prompt@),
            dv.len() == ws@.len(),
            punct@ == reference_punct(),
            i <= ws@.len(),
            reference_in(dv, current_channel_id) == reference_in(dv.skip(i as int), current_channel_id),
        decreases ws@.len() - i,
    {
        let ghost rest = dv.skip(i as int);
        assert(rest[0] == ws@[i as int]@);
        assert(rest.skip(1) =~= dv.skip(i + 1));
        let t = crate::text::strip_set_exec(&ws[i], &punct);
        let ts = string_of(&t);
        assert(reference_in(rest, current_channel_id) == (match spec_link_reference(t@) {
            Some(r) => Some(r),
            None => if spec_is_snowflake(t@) {
                match crate::text::parse_unsigned(t@, u64::MAX as nat) {
                    Some(n) => Some(
                        ExplicitMessageReference { channel_id: current_channel_id, message_id: n as u64 },
                    ),
                    None => None,
                }
            } else {
                reference_in(dv.skip(i + 1), current_channel_id)
            },
        }));
        match discord_message_link_reference(ts.as_str()) {
            Some(r) => return Some(r),
            None => {},
        }
        if is_discord_snowflake(ts.as_str()) {
            return match crate::text::parse_u64(&t) {
                Some(n) => Some(
                    ExplicitMessageReference { channel_id: current_channel_id, message_id: n },
                ),
                None => None,
            };
        }
        i = i + 1;
    }
    None
}

/// A word that starts a web link.
pub open spec fn is_http_word(w: Seq<char>) -> bool {
    starts_with(w, "https://"@) || starts_with(w, "http://"@)
}

/// Whether some word of `content` starts a web link.
pub open spec fn spec_has_http_link(content: Seq<char>) -> bool {
    exists|i: int| 0 <= i < words(content).len() && is_http_word(#[trigger] words(content)[i])
}

/// Whether some word of `content` starts a web link.
pub fn content_has_http_link(content: &str) -> (r: bool)
    ensures
        r == spec_has_http_link(content@),
{
    let ws = words_exec(&chars_of(content));
    let https = chars_of("https://");
    let http = chars_of("http://");
    let mut i: usize = 0;
    while i < ws.len()
        invariant
            i <= ws@.len(),
            ws.deep_view() == words(content@),
            https@ == "https://"@,
            http@ == "http://"@,
            forall|j: int| 0 <= j < i ==> !is_http_word(#[trigger] words(content@)[j]),
        decreases ws@.len() - i,
    {
        assert(ws.deep_view()[i as int] == ws@[i as int]@);
        if starts_with_exec(&ws[i], &https) || starts_with_exec(&ws[i], &http) {
            assert(is_http_word(words(content@)[i as int]));
            return true;
        }
        i = i + 1;
    }
    false
}

/// The position of the latest message by `author_id` that has attachments;
/// each candidate is an author and whether the message has attachments.
pub fn latest_attachment_index(candidates: &[(u64, bool)], author_id: u64) -> (r: Option<usize>)
    ensures
        match r {
            Some(i) => i < candidates@.len() && candidates@[i as int].0 == author_id
                && candidates@[i as int].1 && forall|j: int|
                i < j < candidates@.len() ==> !(candidates@[j].0 == author_id
                    && candidates@[j].1),
            None => forall|j: int|
                0 <= j < candidates@.len() ==> !(candidates@[j].0 == author_id
                    && candidates@[j].1),
        },
{
    let mut i: usize = candidates.len();
    while i > 0
        invariant
            i <= candidates@.len(),
            forall|j: int|
                i <= j < candidates@.len() ==> !(candidates@[j].0 == author_id
                    && candidates@[j].1),
        decreases i,
    {
        let (a, has) = candidates[i - 1];
        if a == author_id && has {
            return Some(i - 1);
        }
        i = i - 1;
    }
    None
}

/// The prompt with the long-term memory summary and the recent channel context
/// before it, each when not blank.
pub open spec fn spec_prompt_with_context(memory: Option<Seq<char>>, context: Seq<char>, prompt: Seq<char>) -> Seq<char> {
    let mem: Seq<char> = match memory {
        Some(m) => if trim(m).len() > 0 {
            "Long-term memory summary:\n"@ + trim(m) + "\n\n"@
        } else {
            seq![]
        },
        None => seq![],
    };
    let ctx: Seq<char> = if trim(context).len() > 0 {
        "Recent channel context before the user's message:\n"@ + trim(context) + "\n\n"@
    } else {
        seq![]
    };
    mem + ctx + "User request:\n"@ + prompt
}

/// Puts the long-term memory summary and the recent channel context before the
/// prompt.
pub fn format_prompt_with_context(memory: Option<&str>, channel_context: &str, prompt: &str) -> (r:
    String)
    ensures
        r@ == spec_prompt_with_context(crate::attachments::opt_view(memory), channel_context@, prompt@),
{
    let mut out: Vec<char> = Vec::new();
    match memory {
        Some(m) => {
            let t = trim_seq(&chars_of(m));
            if t.len() > 0 {
                append_str(&mut out, "Long-term memory summary:\n");
                extend(&mut out, &t);
                append_str(&mut out, "\n\n");
            }
        },
        None => {},
    }
    let c = trim_seq(&chars_of(channel_context));
    if c.len() > 0 {
        append_str(&mut out, "Recent channel context before the user's message:\n");
        extend(&mut out, &c);
        append_str(&mut out, "\n\n");
    }
    append_str(&mut out, "User request:\n");
    append_str(&mut out, prompt);
    assert(out@ =~= spec_prompt_with_context(
        crate::attachments::opt_view(memory),
        channel_context@,
        prompt@,
    ));
    string_of(&out)
}

/// `acc` followed by the lines of `lines`, each ended by a line break, for as
/// long as the total stays within `max` characters.
pub open spec fn fit_lines(acc: Seq<char>, lines: Seq<Seq<char>>, max: nat) -> Seq<char>
    decreases lines.len(),
{
    if lines.len() == 0 {
        acc
    } else {
        let l = lines[0] + "\n"@;
        if acc.len() + l.len() > max {
            acc
        } else {
            fit_lines(acc + l, lines.skip(1), max)
        }
    }
}

/// The leading lines that fit in `max` characters (each with its line break),
/// trimmed.
pub open spec fn spec_budget_lines(lines: Seq<Seq<char>>, max: nat) -> Seq<char> {
    trim(fit_lines(seq![], lines, max))
}

/// Computes `spec_budget_lines`.
fn budget_lines(lines: &Vec<Vec<char>>, max_chars: usize) -> (r: Vec<char>)
    ensures
        r@ == spec_budget_lines(lines.deep_view(), max_chars as nat),
{
    let ghost dv = lines.deep_view();
    let mut acc: Vec<char> = Vec::new();
    let mut i: usize = 0;
    assert(dv.skip(0) =~= dv);
    while i < lines.len()
        invariant
            dv == lines.deep_view(),
            dv.len() == lines@.len(),
            i <= lines@.len(),
            acc@.len() <= max_chars,
            fit_lines(seq![], dv, max_chars as nat) == fit_lines(acc@, dv.skip(i as int), max_chars as nat),
        ensures
            fit_lines(seq![], dv, max_chars as nat) == acc@,
        decreases lines@.len() - i,
    {
        assert(dv.skip(i as int)[0] == lines@[i as int]@);
        assert(dv.skip(i as int).skip(1) =~= dv.skip(i + 1));
        let mut l = crate::text::slice_vec(&lines[i], 0, lines[i].len());
        l.push('\n');
        assert(l@ =~= lines@[i as int]@ + "\n"@) by {
            reveal_strlit("\n");
        }
        if l.len() > max_chars - acc.len() {
            assert(fit_lines(acc@, dv.skip(i as int), max_chars as nat) == acc@);
            break;
        }
        extend(&mut acc, &l);
        i = i + 1;
    }
    trim_seq(&acc)
}

/// Keeps the leading lines that fit in `max_chars` characters.
pub fn trim_context_lines(lines: &[&str], max_chars: usize) -> (r: String)
    ensures
        r@ == spec_budget_lines(lines.deep_view(), max_chars as nat),
{
    let ghost dv = lines.deep_view();
    let mut v: Vec<Vec<char>> = Vec::new();
    let mut i: usize = 0;
    while i < lines.len()
        invariant
            dv == lines.deep_view(),
            dv.len() == lines@.len(),
            i <= lines@.len(),
            v.deep_view() == dv.take(i as int),
        decreases lines@.len() - i,
    {
        let c = chars_of(lines[i]);
        assert(dv[i as int] == lines@[i as int]@);
        let ghost before = v.deep_view();
        assert(c.deep_view() =~= c@);
        v.push(c);
        assert(v.deep_view() =~= before.push(c@));
        assert(dv.take(i + 1) =~= dv.take(i as int).push(dv[i as int]));
        i = i + 1;
    }
    assert(dv.take(lines@.len() as int) =~= dv);
    string_of(&budget_lines(&v, max_chars))
}

/// A message of the recent channel history.
#[derive(Clone, Debug)]
pub struct ContextMessage {
    pub author_name: String,
    pub content: String,
}

/// The line that quotes a message in the channel context.
pub open spec fn context_line(m: ContextMessage) -> Seq<char> {
    m.author_name@ + ": "@ + map_char(m.content@, seq!['\n'], ' ')
}

/// The lines of the messages that are not blank.
pub open spec fn context_lines(ms: Seq<ContextMessage>) -> Seq<Seq<char>>
    decreases ms.len(),
{
    if ms.len() == 0 {
        seq![]
    } else {
        let rest = context_lines(ms.drop_last());
        if trim(ms.last().content@).len() == 0 {
            rest
        } else {
            rest.push(context_line(ms.last()))
        }
    }
}

/// The recent channel history as lines `author: text`, skipping blank
/// messages, as many leading lines as fit in `max_chars`.
pub fn format_channel_context(messages: &[ContextMessage], max_chars: usize) -> (r: String)
    ensures
        r@ == spec_budget_lines(context_lines(messages@), max_chars as nat),
{
    let mut v: Vec<Vec<char>> = Vec::new();
    let mut i: usize = 0;
    let nl = vec!['\n'];
    assert(nl@ =~= seq!['\n']);
    while i < messages.len()
        invariant
            i <= messages@.len(),
            nl@ == seq!['\n'],
            v.deep_view() == context_lines(messages@.take(i as int)),
        decreases messages@.len() - i,
    {
        assert(messages@.take(i + 1).drop_last() =~= messages@.take(i as int));
        let m = &messages[i];
        let content = chars_of(m.content.as_str());
        if trim_seq(&content).len() > 0 {
            let mut line = chars_of(m.author_name.as_str());
            append_str(&mut line, ": ");
            extend(&mut line, &map_char_exec(&content, &nl, ' '));
            let ghost before = v.deep_view();
            assert(line.deep_view() =~= line@);
            assert(line@ =~= context_line(*m));
            v.push(line);
            assert(v.deep_view() =~= before.push(context_line(*m)));
        }
        i = i + 1;
    }
    assert(messages@.take(messages@.len() as int) =~= messages@);
    string_of(&budget_lines(&v, max_chars))
}

/// The note kept in memory for a prompt that came with attachments.
pub open spec fn spec_memory_attachment_note(prompt: Seq<char>, filenames: Seq<Seq<char>>) -> Seq<char> {
    if filenames.len() == 0 {
        prompt
    } else {
        prompt + " [User attached file(s): "@ + join(filenames, ", "@) + "]"@
    }
}

/// The note kept in memory for a prompt that came with attachments.
pub fn memory_attachment_note(prompt: &str, filenames: &Vec<String>) -> (r: String)
    ensures
        r@ == spec_memory_attachment_note(prompt@, filenames.deep_view()),
{
    if filenames.len() == 0 {
        return prompt.to_owned();
    }
    let mut out = chars_of(prompt);
    append_str(&mut out, " [User attached file(s): ");
    extend(&mut out, &join_strings(filenames, ", "));
    append_str(&mut out, "]");
    string_of(&out)
}

/// Joins strings with a separator.
pub fn join_strings(items: &Vec<String>, sep: &str) -> (r: Vec<char>)
    ensures
        r@ == join(items.deep_view(), sep@),
{
    let ghost dv = items.deep_view();
    let mut v: Vec<Vec<char>> = Vec::new();
    let mut i: usize = 0;
    while i < items.len()
        invariant
            dv == items.deep_view(),
            dv.len() == items@.len(),
            i <= items@.len(),
            v.deep_view() == dv.take(i as int),
        decreases items@.len() - i,
    {
        let c = chars_of(items[i].as_str());
        assert(dv[i as int] == items@[i as int]@);
        let ghost before = v.deep_view();
        assert(c.deep_view() =~= c@);
        v.push(c);
        assert(v.deep_view() =~= before.push(c@));
        assert(dv.take(i + 1) =~= dv.take(i as int).push(dv[i as int]));
        i = i + 1;
    }
    assert(dv.take(items@.len() as int) =~= dv);
    join_exec(&v, &chars_of(sep))
}


/// A message that the user selected explicitly.
#[derive(Clone, Debug)]
pub struct SelectedMessage {
    pub author_name: String,
    pub content: String,
    pub attachments: Vec<AttachmentInfo>,
}

/// The type that an attachment is handed to the model as.
pub open spec fn info_type(a: AttachmentInfo) -> AttachmentType {
    type_of(kind_of(a.content_type_view(), a.filename@))
}

/// Some attachment is handed to the model as `t`.
pub open spec fn has_type(atts: Seq<AttachmentInfo>, t: AttachmentType) -> bool {
    exists|i: int| 0 <= i < atts.len() && info_type(#[trigger] atts[i]) == t
}

/// The kinds of content that a selected message holds, in a fixed order.
pub open spec fn selected_types(content: Seq<char>, atts: Seq<AttachmentInfo>) -> Seq<Seq<char>> {
    let t1: Seq<Seq<char>> = if content.len() > 0 {
        seq!["text"@]
    } else {
        seq![]
    };
    let t2 = if spec_has_http_link(content) {
        t1.push("link"@)
    } else {
        t1
    };
    let t3 = if has_type(atts, AttachmentType::Image) {
        t2.push("image"@)
    } else {
        t2
    };
    let t4 = if has_type(atts, AttachmentType::Document) {
        t3.push("document"@)
    } else {
        t3
    };
    if has_type(atts, AttachmentType::Unsupported) {
        t4.push("unsupported attachment"@)
    } else {
        t4
    }
}

/// `s`, or `(none)` when it is empty.
pub open spec fn or_none(s: Seq<char>) -> Seq<char> {
    if s.len() == 0 {
        "(none)"@
    } else {
        s
    }
}

/// The file names of the attachments.
pub open spec fn filenames_of(atts: Seq<AttachmentInfo>) -> Seq<Seq<char>> {
    atts.map_values(|a: AttachmentInfo| a.filename@)
}

/// How the model is told to treat a selected message.
pub open spec fn selection_instructions() -> Seq<char> {
    "Use the available inputs according to their type: linked-page excerpts for links, vision input for images, extracted text for documents, and the message text itself. Combine mixed inputs into one coherent answer. If the user did not provide a specific transformation, summarize the selected message and its contents, highlighting key points."@
}

/// The prompt that asks about an explicitly selected message.
pub open spec fn spec_explicit_message_prompt(m: SelectedMessage, user_prompt: Seq<char>) -> Seq<char> {
    let c = trim(m.content@);
    "You are analyzing an explicitly selected Discord message.\nDetected content types: "@ + join(
        selected_types(c, m.attachments@),
        ", "@,
    ) + "\nMessage author: "@ + m.author_name@ + "\nMessage text:\n"@ + or_none(c)
        + "\nAttachment filenames: "@ + or_none(join(filenames_of(m.attachments@), ", "@))
        + "\n\n"@ + selection_instructions() + "\n\nUser request:\n"@ + user_prompt
}

/// Appends the characters of `s` as one more element.
fn push_word(v: &mut Vec<Vec<char>>, s: &str)
    ensures
        final(v).deep_view() == old(v).deep_view().push(s@),
{
    let w = chars_of(s);
    assert(w.deep_view() =~= w@);
    let ghost before = v.deep_view();
    v.push(w);
    assert(v.deep_view() =~= before.push(s@));
}

/// Appends `s`, or `(none)` when it is empty.
fn push_or_none(out: &mut Vec<char>, s: &[char])
    ensures
        final(out)@ == old(out)@ + or_none(s@),
{
    if s.len() == 0 {
        append_str(out, "(none)");
    } else {
        extend(out, s);
    }
}

/// The prompt that asks about an explicitly selected message, saying which
/// kinds of content it holds.
#[verifier::rlimit(50)]
pub fn explicit_message_prompt(message: &SelectedMessage, user_prompt: &str) -> (r: String)
    ensures
        r@ == spec_explicit_message_prompt(*message, user_prompt@),
{
    let c = trim_seq(&chars_of(message.content.as_str()));
    let cs = string_of(&c);
    let has_links = content_has_http_link(cs.as_str());
    let atts = &message.attachments;
    let mut image = false;
    let mut document = false;
    let mut unsupported = false;
    let mut names: Vec<String> = Vec::new();
    let mut i: usize = 0;
    while i < atts.len()
        invariant
            i <= atts@.len(),
            image == (exists|j: int| 0 <= j < i && info_type(#[trigger] atts@[j]) == AttachmentType::Image),
            document == (exists|j: int| 0 <= j < i && info_type(#[trigger] atts@[j]) == AttachmentType::Document),
            unsupported == (exists|j: int| 0 <= j < i && info_type(#[trigger] atts@[j]) == AttachmentType::Unsupported),
            names.deep_view() == filenames_of(atts@.take(i as int)),
        decreases atts@.len() - i,
    {
        let a = &atts[i];
        let ct: Option<&str> = match &a.content_type {
            Some(x) => Some(x.as_str()),
            None => None,
        };
        assert(crate::attachments::opt_view(ct) == a.content_type_view());
        let t = attachment_type(ct, a.filename.as_str());
        match t {
            AttachmentType::Image => { image = true; },
            AttachmentType::Document => { document = true; },
            AttachmentType::Unsupported => { unsupported = true; },
        }
        let ghost before = names.deep_view();
        names.push(a.filename.clone());
        assert(names.deep_view() =~= before.push(a.filename@));
        assert(filenames_of(atts@.take(i + 1)) =~= filenames_of(atts@.take(i as int)).push(a.filename@));
        i = i + 1;
    }
    assert(atts@.take(atts@.len() as int) =~= atts@);
    let mut types: Vec<Vec<char>> = Vec::new();
    if c.len() > 0 {
        push_word(&mut types, "text");
    }
    if has_links {
        push_word(&mut types, "link");
    }
    if image {
        push_word(&mut types, "image");
    }
    if document {
        push_word(&mut types, "document");
    }
    if unsupported {
        push_word(&mut types, "unsupported attachment");
    }
    assert(types.deep_view() =~= selected_types(c@, atts@));
    let mut out: Vec<char> = chars_of(
        "You are analyzing an explicitly selected Discord message.\nDetected content types: ",
    );
    extend(&mut out, &join_exec(&types, &chars_of(", ")));
    append_str(&mut out, "\nMessage author: ");
    append_str(&mut out, message.author_name.as_str());
    append_str(&mut out, "\nMessage text:\n");
    push_or_none(&mut out, &c);
    append_str(&mut out, "\nAttachment filenames: ");
    push_or_none(&mut out, &join_strings(&names, ", "));
    append_str(&mut out, "\n\n");
    append_str(&mut out, "Use the available inputs according to their type: linked-page excerpts for links, vision input for images, extracted text for documents, and the message text itself. Combine mixed inputs into one coherent answer. If the user did not provide a specific transformation, summarize the selected message and its contents, highlighting key points.");
    append_str(&mut out, "\n\nUser request:\n");
    append_str(&mut out, user_prompt);
    assert(out@ =~= spec_explicit_message_prompt(*message, user_prompt@));
    string_of(&out)
}

/// Where the attachments for a mention come from.
#[derive(Clone, Copy, Debug, PartialEq, Eq, Structural)]
pub enum AttachmentSource {
    /// The attachments of the message itself.
    Current,
    /// None at all.
    Nothing,
    /// The attachments of the explicitly selected message.
    Explicit,
    /// The attachments of the message replied to.
    Referenced,
    /// The attachments of the recent message at this position.
    Recent(usize),
}

/// Chooses the attachments for a mention. Those of the message itself come
/// first; otherwise, only when the prompt asks for attachments, those of the
/// selected message, else of the requester's own message that is replied to
/// (`referenced` gives its author and whether it has attachments), else of the
/// requester's latest recent message with attachments (each of `recent` gives
/// an author and whether the message has attachments).
pub fn resolve_attachments(
    current_has_attachments: bool,
    attachment_requested: bool,
    has_explicit: bool,
    referenced: Option<(u64, bool)>,
    author_id: u64,
    recent: &[(u64, bool)],
) -> (r: AttachmentSource)
    ensures
        current_has_attachments ==> r == AttachmentSource::Current,
        !current_has_attachments && !attachment_requested ==> r == AttachmentSource::Nothing,
        !current_has_attachments && attachment_requested && has_explicit ==> r
            == AttachmentSource::Explicit,
        !current_has_attachments && attachment_requested && !has_explicit ==> match referenced {
            Some((a, has)) if a == author_id && has => r == AttachmentSource::Referenced,
            _ => match r {
                AttachmentSource::Recent(i) => i < recent@.len() && recent@[i as int].0
                    == author_id && recent@[i as int].1 && forall|j: int|
                    i < j < recent@.len() ==> !(recent@[j].0 == author_id && recent@[j].1),
                AttachmentSource::Nothing => forall|j: int|
                    0 <= j < recent@.len() ==> !(recent@[j].0 == author_id && recent@[j].1),
                _ => false,
            },
        },
{
    if current_has_attachments {
        return AttachmentSource::Current;
    }
    if !attachment_requested {
        return AttachmentSource::Nothing;
    }
    if has_explicit {
        return AttachmentSource::Explicit;
    }
    match referenced {
        Some((a, has)) => if a == author_id && has {
            return AttachmentSource::Referenced;
        },
        None => {},
    }
    match latest_attachment_index(recent, author_id) {
        Some(i) => AttachmentSource::Recent(i),
        None => AttachmentSource::Nothing,
    }
}

/// Whether the bot looks at a channel message at all.
pub fn should_handle_message(chat_listener: bool, author_is_bot: bool) -> (r: bool)
    ensures
        r == (chat_listener && !author_is_bot),
{
    chat_listener && !author_is_bot
}

/// A selected message with neither text nor attachments.
pub fn selected_message_is_empty(content: &str, attachment_count: usize) -> (r: bool)
    ensures
        r == (trim(content@).len() == 0 && attachment_count == 0),
{
    trim_seq(&chars_of(content)).len() == 0 && attachment_count == 0
}

/// Every attachment that was chosen was skipped, none accepted.
pub fn attachments_all_failed(resolved: usize, accepted: usize, skipped: usize) -> (r: bool)
    ensures
        r == (resolved > 0 && accepted == 0 && skipped == resolved),
{
    resolved > 0 && accepted == 0 && skipped == resolved
}

/// Whether a mention is answered with the failure notice instead of the model:
/// every attachment failed, attachments were asked for, and no selected message
/// brings text.
pub fn answer_with_attachment_failure(all_failed: bool, attachment_intent: bool, explicit_has_text: bool) -> (r:
    bool)
    ensures
        r == (all_failed && attachment_intent && !explicit_has_text),
{
    all_failed && attachment_intent && !explicit_has_text
}

/// A fixed reply.
#[derive(Clone, Copy, Debug, PartialEq, Eq, Structural)]
pub enum BotReply {
    Pong,
    NoPermission,
    EmptySelection,
    SelectionUnreadable,
    AttachmentsUnreadable,
}

impl BotReply {
    /// The reply's text.
    pub open spec fn spec_text(self) -> Seq<char> {
        match self {
            BotReply::Pong => "pong"@,
            BotReply::NoPermission => "이 개발 컨테이너를 사용할 권한이 없어."@,
            BotReply::EmptySelection => "지정한 메시지에는 읽거나 요약할 내용이 없어."@,
            BotReply::SelectionUnreadable =>
                "지정한 메시지를 찾거나 읽을 수 없어. 메시지 ID나 링크와 채널 권한을 확인해줘."@,
            BotReply::AttachmentsUnreadable =>
                "첨부 파일을 읽지 못했어. 파일 크기와 형식을 확인해서 다시 올려줘."@,
        }
    }

    /// The reply's text.
    pub fn text(&self) -> (r: &'static str)
        ensures
            r@ == self.spec_text(),
    {
        match self {
            BotReply::Pong => "pong",
            BotReply::NoPermission => "이 개발 컨테이너를 사용할 권한이 없어.",
            BotReply::EmptySelection => "지정한 메시지에는 읽거나 요약할 내용이 없어.",
            BotReply::SelectionUnreadable =>
                "지정한 메시지를 찾거나 읽을 수 없어. 메시지 ID나 링크와 채널 권한을 확인해줘.",
            BotReply::AttachmentsUnreadable =>
                "첨부 파일을 읽지 못했어. 파일 크기와 형식을 확인해서 다시 올려줘.",
        }
    }
}

/// `prefix` followed by the text of `s`.
fn prefixed(prefix: &str, s: &str) -> (r: String)
    ensures
        r@ == prefix@ + s@,
{
    let mut out = chars_of(prefix);
    append_str(&mut out, s);
    string_of(&out)
}

/// The reply after a development task: its summary, or why it failed.
pub fn dev_outcome_reply(outcome: &Result<String, String>) -> (r: String)
    ensures
        match outcome {
            Ok(s) => r@ == "개발 작업 완료:\n"@ + s@,
            Err(e) => r@ == "개발 작업 실패: "@ + e@,
        },
{
    match outcome {
        Ok(s) => prefixed("개발 작업 완료:\n", s.as_str()),
        Err(e) => prefixed("개발 작업 실패: ", e.as_str()),
    }
}

/// A channel reply that mentions the requester, its text trimmed to fit.
pub fn channel_reply(author_id: u64, content: &str) -> (r: String)
    ensures
        r@ == mention_tag(author_id as nat) + " "@ + discord_trimmed(
            content@,
            (DISCORD_REPLY_LIMIT - 32) as nat,
        ),
{
    let mut out = chars_of("<@");
    extend(&mut out, &decimal_exec(author_id));
    append_str(&mut out, ">");
    append_str(&mut out, " ");
    let t = trim_discord(content, DISCORD_REPLY_LIMIT - 32);
    append_str(&mut out, t.as_str());
    assert(out@ =~= mention_tag(author_id as nat) + " "@ + discord_trimmed(
        content@,
        (DISCORD_REPLY_LIMIT - 32) as nat,
    ));
    string_of(&out)
}

/// The prompt with the web context before it, when there is any.
pub fn prompt_with_web_context(web_context: Option<&str>, prompt: &str) -> (r: String)
    ensures
        match web_context {
            Some(w) => r@ == w@ + "\n\nUser request:\n"@ + prompt@,
            None => r@ == prompt@,
        },
{
    match web_context {
        Some(w) => {
            let mut out = chars_of(w);
            append_str(&mut out, "\n\nUser request:\n");
            append_str(&mut out, prompt);
            string_of(&out)
        },
        None => prompt.to_owned(),
    }
}

/// The reply to an unknown command.
pub fn unknown_command_reply(name: &str) -> (r: String)
    ensures
        r@ == "unknown command: "@ + name@,
{
    prefixed("unknown command: ", name)
}

/// The reply to a failed command.
pub fn command_failed_reply(error: &str) -> (r: String)
    ensures
        r@ == "Command failed: "@ + error@,
{
    prefixed("Command failed: ", error)
}

/// The status line of the model server.
pub fn status_reply(result: &Result<String, String>) -> (r: String)
    ensures
        match result {
            Ok(body) => r@ == "llama-server online: "@ + discord_trimmed(
                body@,
                DISCORD_STATUS_LIMIT as nat,
            ),
            Err(e) => r@ == "llama-server check failed: "@ + e@,
        },
{
    match result {
        Ok(body) => {
            let t = trim_discord(body.as_str(), DISCORD_STATUS_LIMIT);
            prefixed("llama-server online: ", t.as_str())
        },
        Err(e) => prefixed("llama-server check failed: ", e.as_str()),
    }
}

/// The reply that carries the model's answer, or why there is none.
pub fn answer_reply(result: &Result<String, String>) -> (r: String)
    ensures
        match result {
            Ok(a) => r@ == discord_trimmed(a@, DISCORD_REPLY_LIMIT as nat),
            Err(e) => r@ == "llama-server request failed: "@ + e@,
        },
{
    match result {
        Ok(a) => trim_discord(a.as_str(), DISCORD_REPLY_LIMIT),
        Err(e) => prefixed("llama-server request failed: ", e.as_str()),
    }
}

/// A question the bot answers: the prompt, the message it names (if any) and
/// whether it asks about attachments.
#[derive(Clone, Debug)]
pub struct MentionRequest {
    pub prompt: String,
    pub reference: Option<ExplicitMessageReference>,
    pub attachment_intent: bool,
}

/// What the bot does with a channel message.
#[derive(Clone, Debug)]
pub enum MentionPlan {
    /// The message is not addressed to the bot.
    Ignore,
    /// The message asks for work in the development container.
    DevTask(String),
    /// The message is a question to answer.
    Answer(MentionRequest),
}

/// Decides what the bot does with a channel message in channel
/// `channel_id`: nothing unless it is addressed to the bot; a development task
/// when the prompt names the container; else an answer, with the message the
/// prompt names and whether attachments are wanted (asked for, or a message
/// was named).
pub fn plan_mention(
    content: &str,
    bot_id: u64,
    bot_name: &str,
    trigger_names: &[String],
    channel_id: u64,
) -> (r: MentionPlan)
    ensures
        ({
            let asked = spec_mentioned_prompt(content@, bot_id as nat, bot_name@, trigger_names.deep_view());
            match r {
                MentionPlan::Ignore => asked is None,
                MentionPlan::DevTask(t) => asked is Some && spec_natural_dev_task(asked->Some_0)
                    == Some(t@),
                MentionPlan::Answer(q) => asked == Some(q.prompt@) && spec_natural_dev_task(q.prompt@) is None
                    && q.reference == reference_in(words(q.prompt@), channel_id) && q.attachment_intent
                    == (spec_attachment_requested(q.prompt@) || q.reference is Some),
            }
        }),
{
    let prompt = match mentioned_prompt(content, bot_id, bot_name, trigger_names) {
        Some(p) => p,
        None => return MentionPlan::Ignore,
    };
    match natural_dev_task(prompt.as_str()) {
        Some(task) => return MentionPlan::DevTask(task),
        None => {},
    }
    let reference = explicit_message_reference(prompt.as_str(), channel_id);
    let attachment_intent = attachment_requested(prompt.as_str()) || reference.is_some();
    MentionPlan::Answer(MentionRequest { prompt, reference, attachment_intent })
}

/// The prompt with the channel history and the memory summary before it; the
/// prompt alone when there is neither.
pub open spec fn spec_prompt_with_channel_context(
    messages: Seq<ContextMessage>,
    max_chars: nat,
    memory: Option<Seq<char>>,
    prompt: Seq<char>,
) -> Seq<char> {
    let context = spec_budget_lines(context_lines(messages), max_chars);
    if context.len() == 0 && memory is None {
        prompt
    } else {
        spec_prompt_with_context(memory, context, prompt)
    }
}

/// Puts the channel history (at most `max_chars` of it) and the memory summary
/// before the prompt.
pub fn prompt_with_channel_context(
    messages: &[ContextMessage],
    max_chars: usize,
    memory: Option<&str>,
    prompt: &str,
) -> (r: String)
    ensures
        r@ == spec_prompt_with_channel_context(
            messages@,
            max_chars as nat,
            crate::attachments::opt_view(memory),
            prompt@,
        ),
{
    let context = format_channel_context(messages, max_chars);
    if chars_of(context.as_str()).len() == 0 && memory.is_none() {
        return prompt.to_owned();
    }
    format_prompt_with_context(memory, context.as_str(), prompt)
}

/// The prompt that a question is answered from: built around the selected
/// message when there is one; the question alone when it holds a link; else
/// the question with its channel context (`with_channel_context`).
pub fn mention_prompt(
    selected: Option<&SelectedMessage>,
    user_prompt: &str,
    prompt_has_links: bool,
    with_channel_context: &str,
) -> (r: String)
    ensures
        r@ == match selected {
            Some(m) => spec_explicit_message_prompt(*m, user_prompt@),
            None => if prompt_has_links {
                user_prompt@
            } else {
                with_channel_context@
            },
        },
{
    match selected {
        Some(m) => explicit_message_prompt(m, user_prompt),
        None => if prompt_has_links {
            user_prompt.to_owned()
        } else {
            with_channel_context.to_owned()
        },
    }
}

/// What the web context is gathered for: the selected message's text when
/// there is one, else the question.
pub fn web_query<'a>(selected: Option<&'a SelectedMessage>, user_prompt: &'a str) -> (r: &'a str)
    ensures
        r@ == match selected {
            Some(m) => m.content@,
            None => user_prompt@,
        },
{
    match selected {
        Some(m) => m.content.as_str(),
        None => user_prompt,
    }
}

} // verus!
