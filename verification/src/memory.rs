//! Long-term memory: what is logged of a conversation, with secrets redacted,
//! and when the logs are summarised.

use vstd::prelude::*;

use crate::config::Config;
use crate::text::{
    all_digits, append_str, char_in, chars_of, decimal, contains, contains_any, contains_any_exec,
    contains_exec, ends_with, ends_with_exec, extend, find_first, first_index, is_ws, join,
    join_exec, lower, lower_chars, map_char, map_char_exec, parse_u64, parse_unsigned,
    slice_vec, split, split_exec, squash_ws, squash_ws_exec, starts_with, starts_with_exec,
    strip_set, strip_set_exec, string_of, tail_chars, tail_chars_exec, take_chars,
    take_chars_exec, trim, trim_seq, words, words_exec, lemma_squash_ws_lacks, lemma_take_chars_lacks,
    lemma_trim_lacks, lemma_trim_len, lacks, lemma_lacks_not_contains, lemma_no_first_pair,
    lemma_split_single, lemma_strip_set_lacks,
};

verus! {

/// The text, trimmed, when it is not blank.
pub open spec fn spec_non_empty(value: Seq<char>) -> Option<Seq<char>> {
    if trim(value).len() > 0 {
        Some(trim(value))
    } else {
        None
    }
}

/// The text, trimmed, when it is not blank.
pub fn non_empty(value: String) -> (r: Option<String>)
    ensures
        match r {
            Some(v) => spec_non_empty(value@) == Some(v@),
            None => spec_non_empty(value@) is None,
        },
{
    let t = trim_seq(&chars_of(value.as_str()));
    if t.len() > 0 {
        Some(string_of(&t))
    } else {
        None
    }
}

/// The last `max_chars` characters of `value`.
pub fn trim_tail_chars(value: &str, max_chars: usize) -> (r: String)
    ensures
        r@ == tail_chars(value@, max_chars as nat),
{
    string_of(&tail_chars_exec(&chars_of(value), max_chars))
}

/// The first `max_chars` characters of `value`, trimmed first.
pub fn trim_head_chars(value: &str, max_chars: usize) -> (r: String)
    ensures
        r@ == take_chars(trim(value@), max_chars as nat),
{
    string_of(&take_chars_exec(&trim_seq(&chars_of(value)), max_chars))
}

/// Words whose presence marks a token as a secret.
pub open spec fn sensitive_keys() -> Seq<Seq<char>> {
    seq![
        "token"@,
        "secret"@,
        "password"@,
        "passwd"@,
        "apikey"@,
        "api_key"@,
        "authorization"@,
        "bearer"@,
        "discord_token"@,
    ]
}

/// `sensitive_keys` as vectors of characters.
pub fn sensitive_keys_exec() -> (r: Vec<Vec<char>>)
    ensures
        r.deep_view() == sensitive_keys(),
{
    let mut r: Vec<Vec<char>> = Vec::new();
    let w = chars_of("token");
    assert(w.deep_view() =~= w@);
    r.push(w);
    let w = chars_of("secret");
    assert(w.deep_view() =~= w@);
    r.push(w);
    let w = chars_of("password");
    assert(w.deep_view() =~= w@);
    r.push(w);
    let w = chars_of("passwd");
    assert(w.deep_view() =~= w@);
    r.push(w);
    let w = chars_of("apikey");
    assert(w.deep_view() =~= w@);
    r.push(w);
    let w = chars_of("api_key");
    assert(w.deep_view() =~= w@);
    r.push(w);
    let w = chars_of("authorization");
    assert(w.deep_view() =~= w@);
    r.push(w);
    let w = chars_of("bearer");
    assert(w.deep_view() =~= w@);
    r.push(w);
    let w = chars_of("discord_token");
    assert(w.deep_view() =~= w@);
    r.push(w);
    assert(r.deep_view() =~= sensitive_keys());
    r
}

/// A character allowed in the parts of a Discord token.
pub open spec fn token_char(c: char) -> bool {
    ('a' <= c && c <= 'z') || ('A' <= c && c <= 'Z') || ('0' <= c && c <= '9') || c == '_' || c
        == '-'
}

/// Every character satisfies `token_char`.
pub open spec fn all_token_chars(s: Seq<char>) -> bool {
    forall|i: int| 0 <= i < s.len() ==> token_char(#[trigger] s[i])
}

/// Three dot-separated parts of token characters, of at least 20, 6 and 20
/// characters.
pub open spec fn spec_looks_like_discord_token(token: Seq<char>) -> bool {
    let parts = split(token, '.');
    parts.len() == 3 && parts[0].len() >= 20 && parts[1].len() >= 6 && parts[2].len() >= 20
        && all_token_chars(parts[0]) && all_token_chars(parts[1]) && all_token_chars(parts[2])
}

/// Decides `all_token_chars`.
fn all_token_chars_exec(s: &[char]) -> (r: bool)
    ensures
        r == all_token_chars(s@),
{
    let mut i: usize = 0;
    while i < s.len()
        invariant
            i <= s@.len(),
            forall|j: int| 0 <= j < i ==> token_char(#[trigger] s@[j]),
        decreases s@.len() - i,
    {
        let c = s[i];
        if !(('a' <= c && c <= 'z') || ('A' <= c && c <= 'Z') || ('0' <= c && c <= '9') || c
            == '_' || c == '-') {
            assert(!token_char(s@[i as int]));
            return false;
        }
        i = i + 1;
    }
    true
}

/// Whether a word looks like a Discord bot token.
pub fn looks_like_discord_token(token: &str) -> (r: bool)
    ensures
        r == spec_looks_like_discord_token(token@),
{
    let parts = split_exec(&chars_of(token), '.');
    if parts.len() != 3 {
        return false;
    }
    assert(parts.deep_view()[0] == parts@[0]@);
    assert(parts.deep_view()[1] == parts@[1]@);
    assert(parts.deep_view()[2] == parts@[2]@);
    parts[0].len() >= 20 && parts[1].len() >= 6 && parts[2].len() >= 20 && all_token_chars_exec(
        &parts[0],
    ) && all_token_chars_exec(&parts[1]) && all_token_chars_exec(&parts[2])
}

/// A character allowed in a long secret.
pub open spec fn secret_char(c: char) -> bool {
    ('a' <= c && c <= 'z') || ('A' <= c && c <= 'Z') || ('0' <= c && c <= '9') || c == '_' || c
        == '-' || c == '='
}

/// At least 32 characters, all letters, digits, `_`, `-` or `=`.
pub open spec fn spec_looks_like_long_secret(token: Seq<char>) -> bool {
    token.len() >= 32 && forall|i: int| 0 <= i < token.len() ==> secret_char(#[trigger] token[i])
}

/// Whether a word looks like a key or password.
pub fn looks_like_long_secret(token: &str) -> (r: bool)
    ensures
        r == spec_looks_like_long_secret(token@),
{
    let s = chars_of(token);
    if s.len() < 32 {
        return false;
    }
    let mut i: usize = 0;
    while i < s.len()
        invariant
            i <= s@.len(),
            s@ == token@,
            forall|j: int| 0 <= j < i ==> secret_char(#[trigger] s@[j]),
        decreases s@.len() - i,
    {
        let c = s[i];
        if !(('a' <= c && c <= 'z') || ('A' <= c && c <= 'Z') || ('0' <= c && c <= '9') || c
            == '_' || c == '-' || c == '=') {
            assert(!secret_char(s@[i as int]));
            return false;
        }
        i = i + 1;
    }
    true
}

/// The punctuation stripped from both ends of a word before it is read as an
/// address.
pub open spec fn email_punct() -> Seq<char> {
    seq!['<', '>', '(', ')', ',', '.']
}

/// A word that reads as `local@domain` with a dot inside the domain, once the
/// surrounding punctuation is stripped; the split is at the first `@`.
pub open spec fn spec_looks_like_email(token: Seq<char>) -> bool {
    let t = strip_set(token, email_punct());
    contains(t, seq!['@']) && {
        let i = first_index(t, seq!['@']);
        let local = t.take(i);
        let domain = t.skip(i + 1);
        local.len() > 0 && contains(domain, seq!['.']) && !ends_with(domain, seq!['.'])
    }
}

/// Whether a word looks like an e-mail address.
#[verifier::rlimit(30)]
pub fn looks_like_email(token: &str) -> (r: bool)
    ensures
        r == spec_looks_like_email(token@),
{
    let punct = vec!['<', '>', '(', ')', ',', '.'];
    assert(punct@ =~= email_punct());
    let t = strip_set_exec(&chars_of(token), &punct);
    let at = vec!['@'];
    assert(at@ =~= seq!['@']);
    let dot = vec!['.'];
    assert(dot@ =~= seq!['.']);
    match find_first(&t, &at) {
        None => false,
        Some(i) => {
            let n = t.len();
            let domain = slice_vec(&t, i + 1, n);
            assert(domain@ =~= t@.skip(i + 1));
            let ghost local = t@.take(i as int);
            assert(local.len() == i);
            let has_dot = contains_exec(&domain, &dot);
            let ends_dot = ends_with_exec(&domain, &dot);
            i > 0 && has_dot && !ends_dot
        },
    }
}

/// A web link with a query string.
pub open spec fn spec_looks_like_url_with_query(token: Seq<char>) -> bool {
    (starts_with(token, "http://"@) || starts_with(token, "https://"@)) && contains(token, seq!['?'])
}

/// Whether a word is a web link with a query string.
pub fn looks_like_url_with_query(token: &str) -> (r: bool)
    ensures
        r == spec_looks_like_url_with_query(token@),
{
    let t = chars_of(token);
    let q = vec!['?'];
    assert(q@ =~= seq!['?']);
    (starts_with_exec(&t, &chars_of("http://")) || starts_with_exec(&t, &chars_of("https://")))
        && contains_exec(&t, &q)
}

/// The marker that replaces a secret.
pub open spec fn redacted() -> Seq<char> {
    "[REDACTED]"@
}

/// A word that is kept out of memory.
pub open spec fn is_sensitive(token: Seq<char>) -> bool {
    contains_any(lower(token), sensitive_keys()) || spec_looks_like_discord_token(token)
        || spec_looks_like_long_secret(token) || spec_looks_like_email(token)
        || spec_looks_like_url_with_query(token)
}

/// A word, or the redaction marker when it is sensitive.
pub open spec fn spec_redact_token(token: Seq<char>) -> Seq<char> {
    if is_sensitive(token) {
        redacted()
    } else {
        token
    }
}

/// The redaction marker itself names no secret and looks like none.
pub proof fn lemma_marker_is_not_sensitive()
    ensures
        !is_sensitive(redacted()),
{
    let m = redacted();
    reveal_strlit("[REDACTED]");
    let l = lower(m);
    assert(l =~= seq!['[', 'r', 'e', 'd', 'a', 'c', 't', 'e', 'd', ']']);
    let keys = sensitive_keys();
    reveal_strlit("token");
    reveal_strlit("secret");
    reveal_strlit("password");
    reveal_strlit("passwd");
    reveal_strlit("apikey");
    reveal_strlit("api_key");
    reveal_strlit("authorization");
    reveal_strlit("bearer");
    reveal_strlit("discord_token");
    assert forall|k: int| 0 <= k < keys.len() implies !contains(l, #[trigger] keys[k]) by {
        let p = keys[k];
        assert(p.len() >= 2);
        assert forall|i: int| 0 <= i < l.len() - 1 implies !(#[trigger] l[i] == p[0] && l[i + 1] == p[1]) by {
            if i == 0 {
            } else if i == 1 {
            } else if i == 2 {
            } else if i == 3 {
            } else if i == 4 {
            } else if i == 5 {
            } else if i == 6 {
            } else if i == 7 {
            } else {
            }
        }
        lemma_no_first_pair(l, p);
    }
    assert(lacks(m, '.'));
    lemma_split_single(seq![], m, '.');
    assert(lacks(m, '@'));
    lemma_strip_set_lacks(m, email_punct(), '@');
    lemma_lacks_not_contains(strip_set(m, email_punct()), '@');
    reveal_strlit("http://");
    reveal_strlit("https://");
    assert(!starts_with(m, "http://"@)) by {
        assert(m.subrange(0, 7)[0] == '[');
    }
    assert(!starts_with(m, "https://"@)) by {
        assert(m.subrange(0, 8)[0] == '[');
    }
}

/// No word that redaction keeps names a secret or looks like one.
pub proof fn lemma_redacted_words_are_not_sensitive(ws: Seq<Seq<char>>)
    ensures
        forall|k: int| 0 <= k < redact_words(ws).len() ==> !is_sensitive(#[trigger] redact_words(ws)[k]),
{
    lemma_marker_is_not_sensitive();
}

/// A web link with a query string is redacted, whatever else it holds.
pub proof fn lemma_query_links_are_redacted(word: Seq<char>)
    requires
        starts_with(word, "http://"@) || starts_with(word, "https://"@),
        contains(word, seq!['?']),
    ensures
        spec_redact_token(word) == "[REDACTED]"@,
{
}

/// A word that passes each check for a secret is kept as it is.
pub proof fn lemma_harmless_words_are_kept(word: Seq<char>)
    requires
        !contains_any(lower(word), sensitive_keys()),
        !spec_looks_like_discord_token(word),
        !spec_looks_like_long_secret(word),
        !spec_looks_like_email(word),
        !spec_looks_like_url_with_query(word),
    ensures
        spec_redact_token(word) == word,
{
}

/// Every word that redaction leaves in the text passes each check for a
/// secret: it names no sensitive key, and looks like no Discord token, long
/// secret, e-mail address or web link with a query string.
pub proof fn lemma_kept_words_pass_every_check(ws: Seq<Seq<char>>)
    ensures
        forall|k: int|
            0 <= k < redact_words(ws).len() ==> {
                let w = #[trigger] redact_words(ws)[k];
                &&& !contains_any(lower(w), sensitive_keys())
                &&& !spec_looks_like_discord_token(w)
                &&& !spec_looks_like_long_secret(w)
                &&& !spec_looks_like_email(w)
                &&& !spec_looks_like_url_with_query(w)
            },
{
    lemma_marker_is_not_sensitive();
}

/// A word, or the redaction marker when it names a secret or looks like one.
pub fn redact_token(token: &str) -> (r: String)
    ensures
        r@ == spec_redact_token(token@),
{
    let lower_token = lower_chars(&chars_of(token));
    if contains_any_exec(&lower_token, &sensitive_keys_exec()) {
        return "[REDACTED]".to_owned();
    }
    if looks_like_discord_token(token) || looks_like_long_secret(token) || looks_like_email(token)
        || looks_like_url_with_query(token) {
        return "[REDACTED]".to_owned();
    }
    token.to_owned()
}

/// The words, each redacted.
pub open spec fn redact_words(ws: Seq<Seq<char>>) -> Seq<Seq<char>> {
    ws.map_values(|w: Seq<char>| spec_redact_token(w))
}

/// The words of `content`, each redacted, separated by single spaces.
pub open spec fn spec_redact_sensitive_text(content: Seq<char>) -> Seq<char> {
    join(redact_words(words(content)), " "@)
}

/// Redacts each word of `content` that names a secret or looks like one.
pub fn redact_sensitive_text(content: &str) -> (r: String)
    ensures
        r@ == spec_redact_sensitive_text(content@),
{
    let ws = words_exec(&chars_of(content));
    let ghost dv = ws.deep_view();
    let mut out: Vec<Vec<char>> = Vec::new();
    let mut i: usize = 0;
    while i < ws.len()
        invariant
            dv == ws.deep_view(),
            dv.len() == ws@.len(),
            i <= ws@.len(),
            out.deep_view() == redact_words(dv.take(i as int)),
        decreases ws@.len() - i,
    {
        assert(dv[i as int] == ws@[i as int]@);
        let w = string_of(&ws[i]);
        let red = chars_of(redact_token(w.as_str()).as_str());
        let ghost before = out.deep_view();
        assert(red.deep_view() =~= red@);
        out.push(red);
        assert(out.deep_view() =~= before.push(red@));
        assert(redact_words(dv.take(i + 1)) =~= redact_words(dv.take(i as int)).push(
            spec_redact_token(dv[i as int]),
        ));
        i = i + 1;
    }
    assert(dv.take(ws@.len() as int) =~= dv);
    string_of(&join_exec(&out, &chars_of(" ")))
}

/// What is kept of an entry: line breaks and tabs become spaces, secrets are
/// redacted, whitespace is collapsed, and at most `max` characters remain;
/// nothing when the rest is blank.
pub open spec fn spec_sanitize_memory_content(content: Seq<char>, max: nat) -> Option<Seq<char>> {
    let c1 = map_char(content, seq!['\n', '\r', '\t'], ' ');
    let c2 = spec_redact_sensitive_text(c1);
    let c3 = squash_ws(c2);
    let c4 = take_chars(trim(c3), max);
    spec_non_empty(c4)
}

/// An entry kept for the log is one line, not blank, of at most `max`
/// characters.
pub proof fn lemma_sanitized_entry_is_one_line(content: Seq<char>, max: nat)
    ensures
        match spec_sanitize_memory_content(content, max) {
            Some(v) => 0 < v.len() <= max && !v.contains('\n') && !v.contains('\r'),
            None => true,
        },
{
    let c1 = map_char(content, seq!['\n', '\r', '\t'], ' ');
    let c2 = spec_redact_sensitive_text(c1);
    let c3 = squash_ws(c2);
    lemma_squash_ws_lacks(c2, '\n');
    lemma_squash_ws_lacks(c2, '\r');
    lemma_trim_lacks(c3, '\n');
    lemma_trim_lacks(c3, '\r');
    lemma_take_chars_lacks(trim(c3), max, '\n');
    lemma_take_chars_lacks(trim(c3), max, '\r');
    let c4 = take_chars(trim(c3), max);
    lemma_trim_lacks(c4, '\n');
    lemma_trim_lacks(c4, '\r');
    lemma_trim_len(c4);
    match spec_sanitize_memory_content(content, max) {
        Some(v) => {
            assert(v == trim(c4));
            if v.contains('\n') {
                let i = choose|i: int| 0 <= i < v.len() && v[i] == '\n';
                assert(false);
            }
            if v.contains('\r') {
                let i = choose|i: int| 0 <= i < v.len() && v[i] == '\r';
                assert(false);
            }
        },
        None => {},
    }
}

/// What is kept of an entry before it is logged.
pub fn sanitize_memory_content(content: &str, max_chars: usize) -> (r: Option<String>)
    ensures
        match r {
            Some(v) => spec_sanitize_memory_content(content@, max_chars as nat) == Some(v@),
            None => spec_sanitize_memory_content(content@, max_chars as nat) is None,
        },
{
    let controls = vec!['\n', '\r', '\t'];
    assert(controls@ =~= seq!['\n', '\r', '\t']);
    let c1 = string_of(&map_char_exec(&chars_of(content), &controls, ' '));
    let c2 = redact_sensitive_text(c1.as_str());
    let c3 = string_of(&squash_ws_exec(&chars_of(c2.as_str())));
    let c4 = trim_head_chars(c3.as_str(), max_chars);
    non_empty(c4)
}

/// The summary as it is stored: sanitised like an entry, empty when blank.
pub fn sanitize_summary(summary: &str, max_chars: usize) -> (r: String)
    ensures
        match spec_sanitize_memory_content(summary@, max_chars as nat) {
            Some(v) => r@ == v,
            None => r@ == Seq::<char>::empty(),
        },
{
    match sanitize_memory_content(summary, max_chars) {
        Some(v) => v,
        None => String::new(),
    }
}


/// `name` inside directory `dir`, as `Path::join` forms it for a relative name.
pub open spec fn path_join(dir: Seq<char>, name: Seq<char>) -> Seq<char> {
    if dir.len() == 0 {
        name
    } else if dir.last() == '/' {
        dir + name
    } else {
        dir + seq!['/'] + name
    }
}

/// Computes `path_join`.
pub fn path_join_exec(dir: &str, name: &str) -> (r: String)
    ensures
        r@ == path_join(dir@, name@),
{
    let mut out = chars_of(dir);
    if out.len() > 0 && out[out.len() - 1] != '/' {
        out.push('/');
    }
    append_str(&mut out, name);
    string_of(&out)
}

/// A line to append to a memory log.
#[derive(Clone, Debug)]
pub struct LogAppend {
    pub path: String,
    pub line: String,
}

/// The memory settings.
#[derive(Clone, Debug)]
pub struct Memory {
    pub enabled: bool,
    pub capture_all_chat: bool,
    pub dir: String,
    pub summarize_every: u64,
    pub summary_chars: usize,
    pub retain_raw_logs: bool,
    pub max_log_chars: usize,
    pub entry_chars: usize,
    pub store_author_names: bool,
}

/// The prompt that asks the model to update the memory summary.
pub open spec fn spec_summary_prompt(limit: nat, existing: Seq<char>, questions: Seq<char>, chat: Seq<char>) -> Seq<char> {
    "Update the bot's long-term memory summary from recent Discord chat and user questions.\nKeep only stable preferences, recurring topics, useful facts, and unresolved questions.\nDo not include secrets, tokens, or private credentials.\nWrite concise Korean bullet points.\nKeep the summary under "@ + decimal(limit) + " characters.\n\nExisting summary:\n"@ + existing
        + "\n\nRecent direct questions:\n"@ + questions + "\n\nRecent general chat:\n"@ + chat
}

impl Memory {
    /// The memory settings of the configuration.
    pub fn new(config: &Config) -> (r: Memory)
        ensures
            r.enabled == config.memory_enabled,
            r.capture_all_chat == config.memory_capture_all_chat,
            r.dir@ == config.memory_dir@,
            r.summarize_every == config.memory_summarize_every,
            r.summary_chars == config.memory_summary_chars,
            r.retain_raw_logs == config.memory_retain_raw_logs,
            r.max_log_chars == config.memory_max_log_chars,
            r.entry_chars == config.memory_entry_chars,
            r.store_author_names == config.memory_store_author_names,
    {
        Memory {
            enabled: config.memory_enabled,
            capture_all_chat: config.memory_capture_all_chat,
            dir: config.memory_dir.as_str().to_owned(),
            summarize_every: config.memory_summarize_every,
            summary_chars: config.memory_summary_chars,
            retain_raw_logs: config.memory_retain_raw_logs,
            max_log_chars: config.memory_max_log_chars,
            entry_chars: config.memory_entry_chars,
            store_author_names: config.memory_store_author_names,
        }
    }

    /// The stored summary, when memory is enabled and the summary file (whose
    /// contents `stored` holds, absent when there is no file) is not blank.
    pub fn summary(&self, stored: Option<&str>) -> (r: Option<String>)
        ensures
            match r {
                Some(v) => self.enabled && stored is Some && spec_non_empty(stored->Some_0@) == Some(
                    v@,
                ),
                None => !self.enabled || stored is None || spec_non_empty(stored->Some_0@) is None,
            },
    {
        if !self.enabled {
            return None;
        }
        match stored {
            None => None,
            Some(s) => non_empty(s.to_owned()),
        }
    }

    /// The name under which an author is logged.
    pub open spec fn spec_memory_author(&self, author: Seq<char>) -> Seq<char> {
        if self.store_author_names {
            author
        } else {
            "user"@
        }
    }

    /// The name under which an author is logged.
    pub fn memory_author<'a>(&self, author: &'a str) -> (r: &'a str)
        ensures
            r@ == self.spec_memory_author(author@),
    {
        if self.store_author_names {
            author
        } else {
            "user"
        }
    }

    /// The log line for an entry, absent when nothing of it is kept.
    pub open spec fn spec_log_line(&self, author: Seq<char>, content: Seq<char>) -> Option<Seq<char>> {
        match spec_sanitize_memory_content(content, self.entry_chars as nat) {
            Some(c) => Some("- "@ + self.spec_memory_author(author) + ": "@ + c + "\n"@),
            None => None,
        }
    }

    /// The log line for an entry, absent when nothing of it is kept.
    pub fn log_line(&self, author: &str, content: &str) -> (r: Option<String>)
        ensures
            match r {
                Some(l) => self.spec_log_line(author@, content@) == Some(l@),
                None => self.spec_log_line(author@, content@) is None,
            },
    {
        match sanitize_memory_content(content, self.entry_chars) {
            None => None,
            Some(c) => {
                let mut out = chars_of("- ");
                append_str(&mut out, self.memory_author(author));
                append_str(&mut out, ": ");
                append_str(&mut out, c.as_str());
                append_str(&mut out, "\n");
                Some(string_of(&out))
            },
        }
    }

    /// The path of the questions log.
    pub fn questions_path(&self) -> (r: String)
        ensures
            r@ == path_join(self.dir@, "questions.log"@),
    {
        path_join_exec(self.dir.as_str(), "questions.log")
    }

    /// The path of the chat log.
    pub fn chat_path(&self) -> (r: String)
        ensures
            r@ == path_join(self.dir@, "chat.log"@),
    {
        path_join_exec(self.dir.as_str(), "chat.log")
    }

    /// The path of the summary file.
    pub fn summary_path(&self) -> (r: String)
        ensures
            r@ == path_join(self.dir@, "summary.md"@),
    {
        path_join_exec(self.dir.as_str(), "summary.md")
    }

    /// The path of the counter file.
    pub fn state_path(&self) -> (r: String)
        ensures
            r@ == path_join(self.dir@, "state.txt"@),
    {
        path_join_exec(self.dir.as_str(), "state.txt")
    }

    /// The line to append to the questions log, absent when nothing is kept.
    pub fn append_question(&self, author: &str, prompt: &str) -> (r: Option<LogAppend>)
        ensures
            match r {
                Some(a) => a.path@ == path_join(self.dir@, "questions.log"@) && self.spec_log_line(
                    author@,
                    prompt@,
                ) == Some(a.line@),
                None => self.spec_log_line(author@, prompt@) is None,
            },
    {
        match self.log_line(author, prompt) {
            Some(line) => Some(LogAppend { path: self.questions_path(), line }),
            None => None,
        }
    }

    /// The line to append to the chat log, absent when nothing is kept.
    pub fn append_chat(&self, author: &str, content: &str) -> (r: Option<LogAppend>)
        ensures
            match r {
                Some(a) => a.path@ == path_join(self.dir@, "chat.log"@) && self.spec_log_line(
                    author@,
                    content@,
                ) == Some(a.line@),
                None => self.spec_log_line(author@, content@) is None,
            },
    {
        match self.log_line(author, content) {
            Some(line) => Some(LogAppend { path: self.chat_path(), line }),
            None => None,
        }
    }

    /// Whether a question to the bot is logged.
    pub fn records_question(&self) -> (r: bool)
        ensures
            r == self.enabled,
    {
        self.enabled
    }

    /// Whether a logged question also counts towards the next summary (when all
    /// chat is captured, the chat entry counts instead).
    pub fn counts_question(&self) -> (r: bool)
        ensures
            r == (self.enabled && !self.capture_all_chat),
    {
        self.enabled && !self.capture_all_chat
    }

    /// Whether a channel message is logged and counted.
    pub fn records_chat(&self, content: &str) -> (r: bool)
        ensures
            r == (self.enabled && self.capture_all_chat && trim(content@).len() > 0),
    {
        self.enabled && self.capture_all_chat && trim_seq(&chars_of(content)).len() > 0
    }

    /// Whether the `count`-th counted entry triggers a new summary.
    pub fn should_summarize(&self, count: u64) -> (r: bool)
        requires
            self.summarize_every > 0,
        ensures
            r == (count % self.summarize_every == 0),
    {
        count % self.summarize_every == 0
    }

    /// What a log is cut down to once it has grown past the limit: its last
    /// `max_log_chars` characters; absent when raw logs are kept or the file
    /// (of `byte_len` bytes) is within the limit.
    pub fn compacted_log(&self, content: &str, byte_len: u64) -> (r: Option<String>)
        ensures
            match r {
                Some(t) => !self.retain_raw_logs && byte_len > self.max_log_chars && t@
                    == tail_chars(content@, self.max_log_chars as nat),
                None => self.retain_raw_logs || byte_len <= self.max_log_chars,
            },
    {
        if self.retain_raw_logs {
            return None;
        }
        if byte_len <= self.max_log_chars as u64 {
            return None;
        }
        Some(trim_tail_chars(content, self.max_log_chars))
    }

    /// The prompt that asks the model to update the summary from the stored
    /// summary (`(none)` when absent) and the tails of the two logs.
    pub fn summary_prompt(&self, existing: Option<&str>, questions: &str, chat: &str) -> (r: String)
        ensures
            r@ == spec_summary_prompt(
                self.summary_chars as nat,
                match existing {
                    Some(e) => e@,
                    None => "(none)"@,
                },
                tail_chars(questions@, self.summary_chars as nat),
                tail_chars(chat@, self.summary_chars as nat),
            ),
    {
        let mut out = chars_of("Update the bot's long-term memory summary from recent Discord chat and user questions.\nKeep only stable preferences, recurring topics, useful facts, and unresolved questions.\nDo not include secrets, tokens, or private credentials.\nWrite concise Korean bullet points.\nKeep the summary under ");
        extend(&mut out, &crate::text::decimal_exec(self.summary_chars as u64));
        append_str(&mut out, " characters.\n\nExisting summary:\n");
        match existing {
            Some(e) => append_str(&mut out, e),
            None => append_str(&mut out, "(none)"),
        }
        append_str(&mut out, "\n\nRecent direct questions:\n");
        extend(&mut out, &tail_chars_exec(&chars_of(questions), self.summary_chars));
        append_str(&mut out, "\n\nRecent general chat:\n");
        extend(&mut out, &tail_chars_exec(&chars_of(chat), self.summary_chars));
        string_of(&out)
    }

    /// The summary as it is stored.
    pub fn summary_to_store(&self, summary: &str) -> (r: String)
        ensures
            match spec_sanitize_memory_content(summary@, self.summary_chars as nat) {
                Some(v) => r@ == v,
                None => r@ == Seq::<char>::empty(),
            },
    {
        sanitize_summary(summary, self.summary_chars)
    }

    /// Whether the raw logs are emptied after a summary.
    pub fn clears_raw_logs(&self) -> (r: bool)
        ensures
            r == !self.retain_raw_logs,
    {
        !self.retain_raw_logs
    }
}

/// The counter stored in the state file: its trimmed contents as a `u64`, else 0.
pub open spec fn spec_stored_count(state: Option<Seq<char>>) -> nat {
    match state {
        Some(s) => match parse_unsigned(trim(s), u64::MAX as nat) {
            Some(n) => n,
            None => 0,
        },
        None => 0,
    }
}

/// The counter stored in the state file (`state` holds its contents, absent when
/// it could not be read).
pub fn stored_count(state: Option<&str>) -> (r: u64)
    ensures
        r as nat == spec_stored_count(crate::attachments::opt_view(state)),
{
    match state {
        Some(s) => match parse_u64(&trim_seq(&chars_of(s))) {
            Some(n) => n,
            None => 0,
        },
        None => 0,
    }
}

/// The counter after one more entry.
pub fn next_count(state: Option<&str>) -> (r: u64)
    requires
        spec_stored_count(crate::attachments::opt_view(state)) < u64::MAX,
    ensures
        r as nat == spec_stored_count(crate::attachments::opt_view(state)) + 1,
{
    stored_count(state) + 1
}

} // verus!
