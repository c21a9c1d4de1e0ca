//! Preparing requests for the language-model server and reading its answers.

use vstd::prelude::*;

use crate::attachments::ImageInput;
use crate::config::{Config, ThinkingMode};
use crate::text::{
    append_str, chars_of, contains_any, contains_any_exec, decimal, decimal_exec, extend,
    find, join, join_exec, lower, lower_chars, matches_at, replace_all, replace_all_exec, rfind,
    slice_vec, split, split_exec, string_of, tail_chars, tail_chars_exec, trim, trim_seq,
    trim_end, trim_end_chars, lacks, lemma_join_lacks, lemma_replace_all_lacks, lemma_split_lacks,
    lemma_trim_lacks,
};

verus! {

/// The path of the chat-completions endpoint.
pub open spec fn chat_completions_path() -> Seq<char> {
    "/v1/chat/completions"@
}

/// The path of the health endpoint.
pub open spec fn health_path() -> Seq<char> {
    "/health"@
}

/// The instructions on Discord formatting.
pub open spec fn markdown_prompt_text() -> Seq<char> {
    "\
Format replies with Discord-compatible Markdown when it improves readability:
- Use short bullet lists for steps or options.
- Use fenced code blocks for commands, logs, code, and fixed-width tables.
- Use compact Markdown pipe tables only when comparing small structured data.
- Never use LaTeX syntax. Do not write $...$, \\(...\\), \\epsilon, \\Delta, \\times, \\text{}, or \\frac.
- For math and physics, write formulas in plain text or fenced code blocks.
- Prefer ASCII formulas, for example: P = epsilon0 * (epsilon_r - 1) * E.
- For calculation questions, show the given values, substitute them, and provide the numeric result with units.
- For calculation answers, use this compact shape: Given / Formula / Calculation / Answer.
- If a Korean electrical-engineering prompt says 전위경도, treat it as electric field strength E unless the user states otherwise.
- Avoid long caveats when the user's formula and values are enough to calculate.
Keep tables narrow enough for mobile Discord, and avoid tables for prose answers."@
}

/// The instructions on Discord formatting.
pub fn discord_markdown_prompt() -> (r: &'static str)
    ensures
        r@ == markdown_prompt_text(),
{
    "\
Format replies with Discord-compatible Markdown when it improves readability:
- Use short bullet lists for steps or options.
- Use fenced code blocks for commands, logs, code, and fixed-width tables.
- Use compact Markdown pipe tables only when comparing small structured data.
- Never use LaTeX syntax. Do not write $...$, \\(...\\), \\epsilon, \\Delta, \\times, \\text{}, or \\frac.
- For math and physics, write formulas in plain text or fenced code blocks.
- Prefer ASCII formulas, for example: P = epsilon0 * (epsilon_r - 1) * E.
- For calculation questions, show the given values, substitute them, and provide the numeric result with units.
- For calculation answers, use this compact shape: Given / Formula / Calculation / Answer.
- If a Korean electrical-engineering prompt says 전위경도, treat it as electric field strength E unless the user states otherwise.
- Avoid long caveats when the user's formula and values are enough to calculate.
Keep tables narrow enough for mobile Discord, and avoid tables for prose answers."
}

/// A chat message's content, text or parts.
#[derive(Clone, Debug)]
pub enum MessageContent {
    Text(String),
    Parts(Vec<ContentPart>),
}

/// A part of a multimodal message.
#[derive(Clone, Debug)]
pub enum ContentPart {
    Text(String),
    ImageUrl(String),
}

/// A chat message of a request.
#[derive(Clone, Debug)]
pub struct ChatMessage {
    pub role: String,
    pub content: MessageContent,
}

/// How a completion is requested and its answer treated.
#[derive(Clone, Copy, Debug)]
pub struct CompletionOptions {
    /// Whether the Discord formatting instructions are sent.
    pub markdown_instructions: bool,
    /// Whether the answer is cleaned of LaTeX markup (else only trimmed).
    pub clean_output: bool,
    /// Whether this is a development-sandbox step (it runs at a lower
    /// temperature).
    pub dev_step: bool,
}

/// Why the server's answer cannot be used.
#[derive(Clone, Copy, Debug, PartialEq, Eq, Structural)]
pub enum LlamaError {
    /// No choice had visible text.
    NoVisibleAnswer,
    /// A development step's answer holds no `{`.
    NoJsonAction,
    /// A development step's answer holds no `}`.
    IncompleteJsonAction,
}

impl LlamaError {
    /// The error's text.
    pub open spec fn spec_message(self) -> Seq<char> {
        match self {
            LlamaError::NoVisibleAnswer => "llama server returned no visible answer"@,
            LlamaError::NoJsonAction => "model returned no JSON development action"@,
            LlamaError::IncompleteJsonAction => "model returned incomplete JSON development action"@,
        }
    }

    /// The error's text.
    pub fn message(&self) -> (r: &'static str)
        ensures
            r@ == self.spec_message(),
    {
        match self {
            LlamaError::NoVisibleAnswer => "llama server returned no visible answer",
            LlamaError::NoJsonAction => "model returned no JSON development action",
            LlamaError::IncompleteJsonAction => "model returned incomplete JSON development action",
        }
    }
}

/// The message of a completion choice.
#[derive(Clone, Debug)]
pub struct ChatChoiceMessage {
    pub content: Option<String>,
}

/// The content, when it is not blank.
pub open spec fn spec_non_empty(content: Option<Seq<char>>) -> Option<Seq<char>> {
    match content {
        Some(c) => if trim(c).len() > 0 {
            Some(c)
        } else {
            None
        },
        None => None,
    }
}

/// The content, when it is not blank (it is not trimmed).
pub fn non_empty(content: Option<String>) -> (r: Option<String>)
    ensures
        r.deep_view() == spec_non_empty(content.deep_view()),
{
    match content {
        Some(c) => if trim_seq(&chars_of(c.as_str())).len() > 0 {
            Some(c)
        } else {
            None
        },
        None => None,
    }
}

impl ChatChoiceMessage {
    /// The visible content, when there is some.
    pub fn content(self) -> (r: Option<String>)
        ensures
            r.deep_view() == spec_non_empty(self.content.deep_view()),
    {
        non_empty(self.content)
    }
}

/// The answer with LaTeX markup replaced: `$` removed, common commands spelled
/// out, trailing whitespace removed from each line, and the whole trimmed.
pub open spec fn spec_clean_discord_output(content: Seq<char>) -> Seq<char> {
    let c0 = replace_all(content, seq!['$'], seq![]);
    let c1 = replace_all(c0, "\\epsilon_0"@, "epsilon0"@);
    let c2 = replace_all(c1, "\\epsilon_r"@, "epsilon_r"@);
    let c3 = replace_all(c2, "\\epsilon_s"@, "epsilon_s"@);
    let c4 = replace_all(c3, "\\epsilon"@, "epsilon"@);
    let c5 = replace_all(c4, "\\Delta"@, "Delta"@);
    let c6 = replace_all(c5, "\\times"@, "*"@);
    let c7 = replace_all(c6, "\\text{V/m}"@, "V/m"@);
    let c8 = replace_all(c7, "\\text{C/m}^2"@, "C/m^2"@);
    let c9 = replace_all(c8, "\\text{F/m}"@, "F/m"@);
    let c10 = replace_all(c9, "\\,"@, " "@);
    trim(join(split(c10, '\n').map_values(|l: Seq<char>| trim_end(l)), "\n"@))
}

/// A cleaned answer holds no `$`: every dollar sign that marks LaTeX math is
/// removed, and nothing that the cleaning writes brings one back.
pub proof fn lemma_clean_output_has_no_dollar(content: Seq<char>)
    ensures
        !spec_clean_discord_output(content).contains('$'),
{
    reveal_strlit("epsilon0");
    reveal_strlit("epsilon_r");
    reveal_strlit("epsilon_s");
    reveal_strlit("epsilon");
    reveal_strlit("Delta");
    reveal_strlit("*");
    reveal_strlit("V/m");
    reveal_strlit("C/m^2");
    reveal_strlit("F/m");
    reveal_strlit(" ");
    reveal_strlit("\n");
    let c0 = replace_all(content, seq!['$'], seq![]);
    lemma_replace_all_lacks(content, seq!['$'], seq![], '$');
    let c1 = replace_all(c0, "\\epsilon_0"@, "epsilon0"@);
    lemma_replace_all_lacks(c0, "\\epsilon_0"@, "epsilon0"@, '$');
    let c2 = replace_all(c1, "\\epsilon_r"@, "epsilon_r"@);
    lemma_replace_all_lacks(c1, "\\epsilon_r"@, "epsilon_r"@, '$');
    let c3 = replace_all(c2, "\\epsilon_s"@, "epsilon_s"@);
    lemma_replace_all_lacks(c2, "\\epsilon_s"@, "epsilon_s"@, '$');
    let c4 = replace_all(c3, "\\epsilon"@, "epsilon"@);
    lemma_replace_all_lacks(c3, "\\epsilon"@, "epsilon"@, '$');
    let c5 = replace_all(c4, "\\Delta"@, "Delta"@);
    lemma_replace_all_lacks(c4, "\\Delta"@, "Delta"@, '$');
    let c6 = replace_all(c5, "\\times"@, "*"@);
    lemma_replace_all_lacks(c5, "\\times"@, "*"@, '$');
    let c7 = replace_all(c6, "\\text{V/m}"@, "V/m"@);
    lemma_replace_all_lacks(c6, "\\text{V/m}"@, "V/m"@, '$');
    let c8 = replace_all(c7, "\\text{C/m}^2"@, "C/m^2"@);
    lemma_replace_all_lacks(c7, "\\text{C/m}^2"@, "C/m^2"@, '$');
    let c9 = replace_all(c8, "\\text{F/m}"@, "F/m"@);
    lemma_replace_all_lacks(c8, "\\text{F/m}"@, "F/m"@, '$');
    let c10 = replace_all(c9, "\\,"@, " "@);
    lemma_replace_all_lacks(c9, "\\,"@, " "@, '$');
    let pieces = split(c10, '\n');
    lemma_split_lacks(seq![], c10, '\n', '$');
    let lines = pieces.map_values(|l: Seq<char>| trim_end(l));
    assert forall|k: int| 0 <= k < lines.len() implies lacks(#[trigger] lines[k], '$') by {
        lemma_trim_lacks(pieces[k], '$');
    }
    lemma_join_lacks(lines, "\n"@, '$');
    lemma_trim_lacks(join(lines, "\n"@), '$');
    let r = spec_clean_discord_output(content);
    assert(r == trim(join(lines, "\n"@)));
    if r.contains('$') {
        let i = choose|i: int| 0 <= i < r.len() && r[i] == '$';
        assert(false);
    }
}

/// Cleans an answer of LaTeX markup for Discord.
pub fn clean_discord_output(content: String) -> (r: String)
    ensures
        r@ == spec_clean_discord_output(content@),
{
    let empty: Vec<char> = Vec::new();
    let dollar = vec!['$'];
    assert(dollar@ =~= seq!['$']);
    assert(empty@ =~= Seq::<char>::empty());
    let c0 = replace_all_exec(&chars_of(content.as_str()), &dollar, &empty);
    let from0 = chars_of("\\epsilon_0");
    proof {
        reveal_strlit("\\epsilon_0");
    }
    let c1 = replace_all_exec(&c0, &from0, &chars_of("epsilon0"));
    let from1 = chars_of("\\epsilon_r");
    proof {
        reveal_strlit("\\epsilon_r");
    }
    let c2 = replace_all_exec(&c1, &from1, &chars_of("epsilon_r"));
    let from2 = chars_of("\\epsilon_s");
    proof {
        reveal_strlit("\\epsilon_s");
    }
    let c3 = replace_all_exec(&c2, &from2, &chars_of("epsilon_s"));
    let from3 = chars_of("\\epsilon");
    proof {
        reveal_strlit("\\epsilon");
    }
    let c4 = replace_all_exec(&c3, &from3, &chars_of("epsilon"));
    let from4 = chars_of("\\Delta");
    proof {
        reveal_strlit("\\Delta");
    }
    let c5 = replace_all_exec(&c4, &from4, &chars_of("Delta"));
    let from5 = chars_of("\\times");
    proof {
        reveal_strlit("\\times");
    }
    let c6 = replace_all_exec(&c5, &from5, &chars_of("*"));
    let from6 = chars_of("\\text{V/m}");
    proof {
        reveal_strlit("\\text{V/m}");
    }
    let c7 = replace_all_exec(&c6, &from6, &chars_of("V/m"));
    let from7 = chars_of("\\text{C/m}^2");
    proof {
        reveal_strlit("\\text{C/m}^2");
    }
    let c8 = replace_all_exec(&c7, &from7, &chars_of("C/m^2"));
    let from8 = chars_of("\\text{F/m}");
    proof {
        reveal_strlit("\\text{F/m}");
    }
    let c9 = replace_all_exec(&c8, &from8, &chars_of("F/m"));
    let from9 = chars_of("\\,");
    proof {
        reveal_strlit("\\,");
    }
    let c10 = replace_all_exec(&c9, &from9, &chars_of(" "));
    let lines = split_exec(&c10, '\n');
    let ghost dv = lines.deep_view();
    let mut trimmed: Vec<Vec<char>> = Vec::new();
    let mut i: usize = 0;
    while i < lines.len()
        invariant
            dv == lines.deep_view(),
            dv.len() == lines@.len(),
            i <= lines@.len(),
            trimmed.deep_view() == dv.take(i as int).map_values(|l: Seq<char>| trim_end(l)),
        decreases lines@.len() - i,
    {
        assert(dv[i as int] == lines@[i as int]@);
        let t = trim_end_chars(&lines[i]);
        let ghost before = trimmed.deep_view();
        assert(t.deep_view() =~= t@);
        trimmed.push(t);
        assert(trimmed.deep_view() =~= before.push(t@));
        assert(dv.take(i + 1).map_values(|l: Seq<char>| trim_end(l)) =~= dv.take(i as int).map_values(
            |l: Seq<char>| trim_end(l),
        ).push(trim_end(dv[i as int])));
        i = i + 1;
    }
    assert(dv.take(lines@.len() as int) =~= dv);
    let nl = vec!['\n'];
    assert(nl@ =~= "\n"@) by {
        reveal_strlit("\n");
    }
    let joined = join_exec(&trimmed, &nl);
    string_of(&trim_seq(&joined))
}

/// The prompt cut to its last `max` characters, with a note in front, when it
/// is longer.
pub open spec fn spec_trim_prompt(prompt: Seq<char>, max: nat) -> Seq<char> {
    if prompt.len() <= max {
        prompt
    } else {
        "Earlier context was truncated to fit the model context window.\n\n"@ + tail_chars(prompt, max)
    }
}

/// Cuts a prompt to its last `max_chars` characters when it is longer.
pub fn trim_prompt(prompt: &str, max_chars: usize) -> (r: String)
    ensures
        r@ == spec_trim_prompt(prompt@, max_chars as nat),
{
    let p = chars_of(prompt);
    if p.len() <= max_chars {
        return prompt.to_owned();
    }
    let mut out = chars_of("Earlier context was truncated to fit the model context window.\n\n");
    extend(&mut out, &tail_chars_exec(&p, max_chars));
    string_of(&out)
}

/// Words that suggest a question needs reasoning.
pub open spec fn reasoning_markers() -> Seq<Seq<char>> {
    seq![
        "why"@,
        "how"@,
        "explain"@,
        "analyze"@,
        "compare"@,
        "debug"@,
        "error"@,
        "code"@,
        "plan"@,
        "calculate"@,
        "design"@,
        "reason"@,
        "왜"@,
        "어떻게"@,
        "설명"@,
        "분석"@,
        "비교"@,
        "디버그"@,
        "에러"@,
        "오류"@,
        "코드"@,
        "계획"@,
        "계산"@,
        "설계"@,
        "원인"@,
    ]
}

/// `reasoning_markers` as vectors of characters.
pub fn reasoning_markers_exec() -> (r: Vec<Vec<char>>)
    ensures
        r.deep_view() == reasoning_markers(),
{
    let mut r: Vec<Vec<char>> = Vec::new();
    let w = chars_of("why");
    assert(w.deep_view() =~= w@);
    r.push(w);
    let w = chars_of("how");
    assert(w.deep_view() =~= w@);
    r.push(w);
    let w = chars_of("explain");
    assert(w.deep_view() =~= w@);
    r.push(w);
    let w = chars_of("analyze");
    assert(w.deep_view() =~= w@);
    r.push(w);
    let w = chars_of("compare");
    assert(w.deep_view() =~= w@);
    r.push(w);
    let w = chars_of("debug");
    assert(w.deep_view() =~= w@);
    r.push(w);
    let w = chars_of("error");
    assert(w.deep_view() =~= w@);
    r.push(w);
    let w = chars_of("code");
    assert(w.deep_view() =~= w@);
    r.push(w);
    let w = chars_of("plan");
    assert(w.deep_view() =~= w@);
    r.push(w);
    let w = chars_of("calculate");
    assert(w.deep_view() =~= w@);
    r.push(w);
    let w = chars_of("design");
    assert(w.deep_view() =~= w@);
    r.push(w);
    let w = chars_of("reason");
    assert(w.deep_view() =~= w@);
    r.push(w);
    let w = chars_of("왜");
    assert(w.deep_view() =~= w@);
    r.push(w);
    let w = chars_of("어떻게");
    assert(w.deep_view() =~= w@);
    r.push(w);
    let w = chars_of("설명");
    assert(w.deep_view() =~= w@);
    r.push(w);
    let w = chars_of("분석");
    assert(w.deep_view() =~= w@);
    r.push(w);
    let w = chars_of("비교");
    assert(w.deep_view() =~= w@);
    r.push(w);
    let w = chars_of("디버그");
    assert(w.deep_view() =~= w@);
    r.push(w);
    let w = chars_of("에러");
    assert(w.deep_view() =~= w@);
    r.push(w);
    let w = chars_of("오류");
    assert(w.deep_view() =~= w@);
    r.push(w);
    let w = chars_of("코드");
    assert(w.deep_view() =~= w@);
    r.push(w);
    let w = chars_of("계획");
    assert(w.deep_view() =~= w@);
    r.push(w);
    let w = chars_of("계산");
    assert(w.deep_view() =~= w@);
    r.push(w);
    let w = chars_of("설계");
    assert(w.deep_view() =~= w@);
    r.push(w);
    let w = chars_of("원인");
    assert(w.deep_view() =~= w@);
    r.push(w);
    assert(r.deep_view() =~= reasoning_markers());
    r
}

/// Whether a prompt seems to need reasoning: long, or naming a reasoning task.
pub open spec fn spec_should_enable_thinking(prompt: Seq<char>) -> bool {
    let p = trim(prompt);
    p.len() > 160 || contains_any(lower(p), reasoning_markers())
}

/// Whether a prompt seems to need reasoning.
pub fn should_enable_thinking(prompt: &str) -> (r: bool)
    ensures
        r == spec_should_enable_thinking(prompt@),
{
    let p = trim_seq(&chars_of(prompt));
    p.len() > 160 || contains_any_exec(&lower_chars(&p), &reasoning_markers_exec())
}

/// The visible answer of a completion, given the content of its first choice
/// (`None` when there is no choice), cleaned or trimmed.
pub open spec fn spec_completion_answer(first: Option<Option<Seq<char>>>, clean: bool) -> Result<
    Seq<char>,
    LlamaError,
> {
    match first {
        Some(Some(c)) => if trim(c).len() > 0 {
            Ok(
                if clean {
                    spec_clean_discord_output(c)
                } else {
                    trim(c)
                },
            )
        } else {
            Err(LlamaError::NoVisibleAnswer)
        },
        _ => Err(LlamaError::NoVisibleAnswer),
    }
}

/// The visible answer of a completion, given its first choice's message.
pub fn completion_answer(first: Option<ChatChoiceMessage>, clean: bool) -> (r: Result<String, LlamaError>)
    ensures
        match r {
            Ok(a) => spec_completion_answer(
                match first {
                    Some(m) => Some(m.content.deep_view()),
                    None => None,
                },
                clean,
            ) == Ok::<Seq<char>, LlamaError>(a@),
            Err(e) => spec_completion_answer(
                match first {
                    Some(m) => Some(m.content.deep_view()),
                    None => None,
                },
                clean,
            ) == Err::<Seq<char>, LlamaError>(e),
        },
{
    let content = match first {
        Some(m) => m.content(),
        None => None,
    };
    match content {
        None => Err(LlamaError::NoVisibleAnswer),
        Some(c) => if clean {
            Ok(clean_discord_output(c))
        } else {
            Ok(string_of(&trim_seq(&chars_of(c.as_str()))))
        },
    }
}

/// The health endpoint's body, or `healthy` when it is blank.
pub fn health_text(body: String) -> (r: String)
    ensures
        r@ == (if trim(body@).len() == 0 {
            "healthy"@
        } else {
            body@
        }),
{
    if trim_seq(&chars_of(body.as_str())).len() == 0 {
        "healthy".to_owned()
    } else {
        body
    }
}

/// The prompt that asks for the next command of a development task.
pub open spec fn spec_dev_action_prompt(task: Seq<char>, transcript: Seq<char>, step: nat, max_steps: nat) -> Seq<char> {
    "You are controlling a disposable, network-disabled Linux development container.
The only persistent path is /workspace. Host files, credentials, Docker/Podman sockets, and the Discord bot source are not mounted.
Complete the user's development task by issuing one shell command at a time.
User task:
"@ + task + "

Previous command transcript:
"@ + transcript + "

Execution rules:
- You are on step "@ + decimal(step) + " of at most "@ + decimal(max_steps) + ".
- Inspect existing files before editing.
- Prefer non-interactive commands and never wait for user input.
- Return exactly one JSON object and no Markdown.
- To run a command: {\"command\":\"shell command\",\"done\":false,\"summary\":null}
- When complete: {\"command\":null,\"done\":true,\"summary\":\"concise Korean result summary\"}"@
}

/// The prompt that asks for the next command of a development task.
pub fn dev_action_prompt(task: &str, transcript: &str, step: usize, max_steps: usize) -> (r: String)
    ensures
        r@ == spec_dev_action_prompt(task@, transcript@, step as nat, max_steps as nat),
{
    let mut out: Vec<char> = Vec::new();
    append_str(&mut out, "You are controlling a disposable, network-disabled Linux development container.
The only persistent path is /workspace. Host files, credentials, Docker/Podman sockets, and the Discord bot source are not mounted.
Complete the user's development task by issuing one shell command at a time.
User task:
");
    append_str(&mut out, task);
    append_str(&mut out, "

Previous command transcript:
");
    append_str(&mut out, transcript);
    append_str(&mut out, "

Execution rules:
- You are on step ");
    extend(&mut out, &decimal_exec(step as u64));
    append_str(&mut out, " of at most ");
    extend(&mut out, &decimal_exec(max_steps as u64));
    append_str(&mut out, ".
- Inspect existing files before editing.
- Prefer non-interactive commands and never wait for user input.
- Return exactly one JSON object and no Markdown.
- To run a command: {\"command\":\"shell command\",\"done\":false,\"summary\":null}
- When complete: {\"command\":null,\"done\":true,\"summary\":\"concise Korean result summary\"}");
    string_of(&out)
}


/// A chat message part by its view.
pub enum PartView {
    Text(Seq<char>),
    ImageUrl(Seq<char>),
}

/// A chat message's content by its view.
pub enum ContentView {
    Text(Seq<char>),
    Parts(Seq<PartView>),
}

/// A content part by its view.
pub open spec fn part_view(p: ContentPart) -> PartView {
    match p {
        ContentPart::Text(t) => PartView::Text(t@),
        ContentPart::ImageUrl(u) => PartView::ImageUrl(u@),
    }
}

/// A message's content by its view.
pub open spec fn content_view(c: MessageContent) -> ContentView {
    match c {
        MessageContent::Text(t) => ContentView::Text(t@),
        MessageContent::Parts(ps) => ContentView::Parts(ps@.map_values(|p: ContentPart| part_view(p))),
    }
}

/// A message by its view: role and content.
pub open spec fn message_view(m: ChatMessage) -> (Seq<char>, ContentView) {
    (m.role@, content_view(m.content))
}

/// The `data:` URL that carries an image.
pub open spec fn image_data_url(i: ImageInput) -> Seq<char> {
    "data:"@ + i.mime@ + ";base64,"@ + i.data_base64@
}

/// The images as parts.
pub open spec fn image_parts(images: Seq<ImageInput>) -> Seq<PartView> {
    images.map_values(|i: ImageInput| PartView::ImageUrl(image_data_url(i)))
}

/// The messages of a chat request: the system prompt, the formatting
/// instructions when asked for, and the user's (cut) prompt with the images.
pub open spec fn spec_chat_messages(
    system_prompt: Seq<char>,
    markdown: bool,
    prompt: Seq<char>,
    images: Seq<ImageInput>,
) -> Seq<(Seq<char>, ContentView)> {
    let head: Seq<(Seq<char>, ContentView)> = seq![("system"@, ContentView::Text(system_prompt))];
    let head2 = if markdown {
        head.push(("system"@, ContentView::Text(markdown_prompt_text())))
    } else {
        head
    };
    let user = if images.len() == 0 {
        ContentView::Text(prompt)
    } else {
        ContentView::Parts(seq![PartView::Text(prompt)] + image_parts(images))
    };
    head2.push(("user"@, user))
}

/// What is sent to the server for one completion.
#[derive(Clone, Debug)]
pub struct ChatRequest {
    pub url: String,
    pub model: String,
    pub messages: Vec<ChatMessage>,
    pub max_tokens: u32,
    pub enable_thinking: bool,
    pub dev_step: bool,
}

/// The settings of the model server.
#[derive(Clone, Debug)]
pub struct LlamaClient {
    pub base_url: String,
    pub model: String,
    pub system_prompt: String,
    pub max_tokens: u32,
    pub prompt_chars: usize,
    pub thinking_mode: ThinkingMode,
    pub markdown_output: bool,
}

/// Whether thinking is enabled for a prompt under a mode.
pub open spec fn spec_enable_thinking(mode: ThinkingMode, prompt: Seq<char>) -> bool {
    match mode {
        ThinkingMode::On => true,
        ThinkingMode::Off => false,
        ThinkingMode::Auto => spec_should_enable_thinking(prompt),
    }
}

/// The JSON object in a development step's answer: from its first `{` to its
/// last `}`, in the trimmed answer.
pub open spec fn spec_dev_action_json(response: Seq<char>) -> Result<Seq<char>, LlamaError> {
    let t = trim(response);
    if !crate::text::contains(t, seq!['{']) {
        Err(LlamaError::NoJsonAction)
    } else if !crate::text::contains(t, seq!['}']) {
        Err(LlamaError::IncompleteJsonAction)
    } else {
        Ok(t.subrange(crate::text::first_index(t, seq!['{']), crate::text::last_index(t, seq!['}']) + 1))
    }
}

/// The last `}` stands more than one place before the first `{`, so that the
/// span between them cannot be taken.
pub open spec fn spec_braces_reversed(response: Seq<char>) -> bool {
    let t = trim(response);
    crate::text::contains(t, seq!['{']) && crate::text::contains(t, seq!['}'])
        && crate::text::last_index(t, seq!['}']) + 1 < crate::text::first_index(t, seq!['{'])
}

/// Decides `spec_braces_reversed`.
pub fn braces_reversed(response: &str) -> (r: bool)
    ensures
        r == spec_braces_reversed(response@),
{
    let t = trim_seq(&chars_of(response));
    let open = vec!['{'];
    let close = vec!['}'];
    assert(open@ =~= seq!['{']);
    assert(close@ =~= seq!['}']);
    match (crate::text::find_first(&t, &open), crate::text::find_last(&t, &close)) {
        (Some(s), Some(e)) => e < s && s - e > 1,
        _ => false,
    }
}

/// The JSON object in a development step's answer, when the whole answer is
/// not one.
#[verifier::rlimit(40)]
pub fn dev_action_json(response: &str) -> (r: Result<String, LlamaError>)
    requires
        !spec_braces_reversed(response@),
    ensures
        match r {
            Ok(j) => spec_dev_action_json(response@) == Ok::<Seq<char>, LlamaError>(j@),
            Err(e) => spec_dev_action_json(response@) == Err::<Seq<char>, LlamaError>(e),
        },
{
    let t = trim_seq(&chars_of(response));
    let open = vec!['{'];
    let close = vec!['}'];
    assert(open@ =~= seq!['{']);
    assert(close@ =~= seq!['}']);
    let start = match crate::text::find_first(&t, &open) {
        Some(s) => s,
        None => return Err(LlamaError::NoJsonAction),
    };
    let end = match crate::text::find_last(&t, &close) {
        Some(e) => e,
        None => return Err(LlamaError::IncompleteJsonAction),
    };
    assert(start <= end + 1);
    let n = t.len();
    assert(end + 1 <= n);
    Ok(string_of(&slice_vec(&t, start, end + 1)))
}

impl LlamaClient {
    /// The server settings of the configuration.
    pub fn new(config: &Config) -> (r: LlamaClient)
        ensures
            r.base_url@ == config.llama_base_url@,
            r.model@ == config.llama_model@,
            r.system_prompt@ == config.llama_system_prompt@,
            r.max_tokens == config.llama_max_tokens,
            r.prompt_chars == config.llama_prompt_chars,
            r.thinking_mode == config.llama_thinking_mode,
            r.markdown_output == config.discord_markdown_output,
    {
        LlamaClient {
            base_url: config.llama_base_url.as_str().to_owned(),
            model: config.llama_model.as_str().to_owned(),
            system_prompt: config.llama_system_prompt.as_str().to_owned(),
            max_tokens: config.llama_max_tokens,
            prompt_chars: config.llama_prompt_chars,
            thinking_mode: config.llama_thinking_mode,
            markdown_output: config.discord_markdown_output,
        }
    }

    /// The URL of an endpoint.
    pub fn url(&self, path: &str) -> (r: String)
        ensures
            r@ == self.base_url@ + path@,
    {
        let mut out = chars_of(self.base_url.as_str());
        append_str(&mut out, path);
        string_of(&out)
    }

    /// The address of the health endpoint.
    pub fn health_url(&self) -> (r: String)
        ensures
            r@ == self.base_url@ + health_path(),
    {
        self.url("/health")
    }

    /// Whether thinking is enabled for a prompt.
    pub fn enable_thinking_for(&self, prompt: &str) -> (r: bool)
        ensures
            r == spec_enable_thinking(self.thinking_mode, prompt@),
    {
        match self.thinking_mode {
            ThinkingMode::On => true,
            ThinkingMode::Off => false,
            ThinkingMode::Auto => should_enable_thinking(prompt),
        }
    }

    /// The options of an answer to a user.
    pub fn answer_options(&self) -> (r: CompletionOptions)
        ensures
            r.markdown_instructions == self.markdown_output,
            r.clean_output,
            !r.dev_step,
    {
        CompletionOptions { markdown_instructions: self.markdown_output, clean_output: true, dev_step: false }
    }

    /// The request for one completion: the prompt is cut to `prompt_chars`, and
    /// thinking is decided on the cut prompt.
    pub fn chat_request(&self, prompt: &str, images: &[ImageInput], options: CompletionOptions) -> (r: ChatRequest)
        ensures
            r.url@ == self.base_url@ + chat_completions_path(),
            r.model@ == self.model@,
            r.messages@.map_values(|m: ChatMessage| message_view(m)) == spec_chat_messages(
                self.system_prompt@,
                options.markdown_instructions,
                spec_trim_prompt(prompt@, self.prompt_chars as nat),
                images@,
            ),
            r.max_tokens == self.max_tokens,
            r.enable_thinking == spec_enable_thinking(
                self.thinking_mode,
                spec_trim_prompt(prompt@, self.prompt_chars as nat),
            ),
            r.dev_step == options.dev_step,
    {
        let p = trim_prompt(prompt, self.prompt_chars);
        let mut messages: Vec<ChatMessage> = Vec::new();
        messages.push(ChatMessage {
            role: "system".to_owned(),
            content: MessageContent::Text(self.system_prompt.as_str().to_owned()),
        });
        if options.markdown_instructions {
            messages.push(ChatMessage {
                role: "system".to_owned(),
                content: MessageContent::Text(discord_markdown_prompt().to_owned()),
            });
        }
        let content = if images.len() == 0 {
            MessageContent::Text(p.as_str().to_owned())
        } else {
            let mut parts: Vec<ContentPart> = Vec::new();
            parts.push(ContentPart::Text(p.as_str().to_owned()));
            let mut i: usize = 0;
            while i < images.len()
                invariant
                    i <= images@.len(),
                    parts@.map_values(|q: ContentPart| part_view(q)) == seq![PartView::Text(p@)]
                        + image_parts(images@.take(i as int)),
                decreases images@.len() - i,
            {
                let img = &images[i];
                let mut url = chars_of("data:");
                append_str(&mut url, img.mime.as_str());
                append_str(&mut url, ";base64,");
                append_str(&mut url, img.data_base64.as_str());
                let ghost before = parts@;
                parts.push(ContentPart::ImageUrl(string_of(&url)));
                assert(parts@.map_values(|q: ContentPart| part_view(q)) =~= before.map_values(
                    |q: ContentPart| part_view(q),
                ).push(PartView::ImageUrl(image_data_url(*img))));
                assert(image_parts(images@.take(i + 1)) =~= image_parts(images@.take(i as int)).push(
                    PartView::ImageUrl(image_data_url(*img)),
                ));
                i = i + 1;
            }
            assert(images@.take(images@.len() as int) =~= images@);
            MessageContent::Parts(parts)
        };
        let ghost before = messages@;
        messages.push(ChatMessage { role: "user".to_owned(), content });
        assert(messages@.map_values(|m: ChatMessage| message_view(m)) =~= spec_chat_messages(
            self.system_prompt@,
            options.markdown_instructions,
            p@,
            images@,
        ));
        let enable_thinking = self.enable_thinking_for(p.as_str());
        ChatRequest {
            url: self.url("/v1/chat/completions"),
            model: self.model.as_str().to_owned(),
            messages,
            max_tokens: self.max_tokens,
            enable_thinking,
            dev_step: options.dev_step,
        }
    }

    /// The request for the next command of a development task.
    pub fn dev_action_request(&self, task: &str, transcript: &str, step: usize, max_steps: usize) -> (r:
        ChatRequest)
        ensures
            r.url@ == self.base_url@ + chat_completions_path(),
            r.messages@.map_values(|m: ChatMessage| message_view(m)) == spec_chat_messages(
                self.system_prompt@,
                false,
                spec_trim_prompt(
                    spec_dev_action_prompt(task@, transcript@, step as nat, max_steps as nat),
                    self.prompt_chars as nat,
                ),
                Seq::empty(),
            ),
            r.model@ == self.model@,
            r.max_tokens == self.max_tokens,
            r.enable_thinking == spec_enable_thinking(
                self.thinking_mode,
                spec_trim_prompt(
                    spec_dev_action_prompt(task@, transcript@, step as nat, max_steps as nat),
                    self.prompt_chars as nat,
                ),
            ),
            r.dev_step,
    {
        let prompt = dev_action_prompt(task, transcript, step, max_steps);
        let options = CompletionOptions { markdown_instructions: false, clean_output: false, dev_step: true };
        let images: Vec<ImageInput> = Vec::new();
        let r = self.chat_request(prompt.as_str(), &images, options);
        assert(images@ =~= Seq::<ImageInput>::empty());
        r
    }
}

} // verus!
