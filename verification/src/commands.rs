//! The bot's slash commands: which are offered, how a name is dispatched and
//! how a text option is read.

use vstd::prelude::*;

use crate::text::{chars_of, eq_chars};

verus! {

/// A slash command of the bot.
#[derive(Clone, Copy, Debug, PartialEq, Eq, Structural)]
pub enum BotCommand {
    Ping,
    LlmStatus,
    Ask,
    Dev,
    Unknown,
}

/// The slash command with the given name.
pub fn command_for(name: &str) -> (r: BotCommand)
    ensures
        r == (if name@ == "ping"@ {
            BotCommand::Ping
        } else if name@ == "llm-status"@ {
            BotCommand::LlmStatus
        } else if name@ == "ask"@ {
            BotCommand::Ask
        } else if name@ == "dev"@ {
            BotCommand::Dev
        } else {
            BotCommand::Unknown
        }),
{
    let n = chars_of(name);
    if crate::text::eq_chars(&n, &chars_of("ping")) {
        BotCommand::Ping
    } else if crate::text::eq_chars(&n, &chars_of("llm-status")) {
        BotCommand::LlmStatus
    } else if crate::text::eq_chars(&n, &chars_of("ask")) {
        BotCommand::Ask
    } else if crate::text::eq_chars(&n, &chars_of("dev")) {
        BotCommand::Dev
    } else {
        BotCommand::Unknown
    }
}

/// The commands offered: `ping`, `llm-status` and `ask`, then `dev` when the
/// development sandbox is enabled.
pub fn all_commands(dev_sandbox_enabled: bool) -> (r: Vec<BotCommand>)
    ensures
        r@ == (if dev_sandbox_enabled {
            seq![BotCommand::Ping, BotCommand::LlmStatus, BotCommand::Ask, BotCommand::Dev]
        } else {
            seq![BotCommand::Ping, BotCommand::LlmStatus, BotCommand::Ask]
        }),
{
    let mut commands = vec![BotCommand::Ping, BotCommand::LlmStatus, BotCommand::Ask];
    if dev_sandbox_enabled {
        commands.push(BotCommand::Dev);
    }
    commands
}

/// The name under which a command is registered; empty for `Unknown`.
pub open spec fn spec_command_name(c: BotCommand) -> Seq<char> {
    match c {
        BotCommand::Ping => "ping"@,
        BotCommand::LlmStatus => "llm-status"@,
        BotCommand::Ask => "ask"@,
        BotCommand::Dev => "dev"@,
        BotCommand::Unknown => ""@,
    }
}

/// The name under which a command is registered.
pub fn command_name(c: BotCommand) -> (r: &'static str)
    ensures
        r@ == spec_command_name(c),
{
    match c {
        BotCommand::Ping => "ping",
        BotCommand::LlmStatus => "llm-status",
        BotCommand::Ask => "ask",
        BotCommand::Dev => "dev",
        BotCommand::Unknown => "",
    }
}

/// The description under which a command is registered; empty for `Unknown`.
pub open spec fn spec_command_description(c: BotCommand) -> Seq<char> {
    match c {
        BotCommand::Ping => "봇 응답 상태를 확인합니다."@,
        BotCommand::LlmStatus => "Jetson의 로컬 llama-server 상태를 확인합니다."@,
        BotCommand::Ask => "로컬 Gemma 모델에 질문합니다."@,
        BotCommand::Dev => "격리된 개발 컨테이너에서 코미에게 작업을 맡깁니다."@,
        BotCommand::Unknown => ""@,
    }
}

/// The description under which a command is registered.
pub fn command_description(c: BotCommand) -> (r: &'static str)
    ensures
        r@ == spec_command_description(c),
{
    match c {
        BotCommand::Ping => "봇 응답 상태를 확인합니다.",
        BotCommand::LlmStatus => "Jetson의 로컬 llama-server 상태를 확인합니다.",
        BotCommand::Ask => "로컬 Gemma 모델에 질문합니다.",
        BotCommand::Dev => "격리된 개발 컨테이너에서 코미에게 작업을 맡깁니다.",
        BotCommand::Unknown => "",
    }
}

/// The type of a command option's value.
#[derive(Clone, Copy, Debug, PartialEq, Eq, Structural)]
pub enum OptionKind {
    /// A text value.
    Text,
}

/// An option that a command is registered with.
#[derive(Clone, Debug)]
pub struct OptionSpec {
    pub name: String,
    pub description: String,
    pub kind: OptionKind,
    pub required: bool,
    pub max_length: u16,
}

/// An option by its view: name, description, kind, whether it is required and
/// its greatest length.
pub open spec fn option_view(o: OptionSpec) -> (Seq<char>, Seq<char>, OptionKind, bool, u16) {
    (o.name@, o.description@, o.kind, o.required, o.max_length)
}

/// The options of a command: `ask` takes one required text option `prompt`
/// and `dev` one required text option `task`, each of at most 1800
/// characters; the other commands take none.
pub open spec fn spec_command_options(c: BotCommand) -> Seq<(Seq<char>, Seq<char>, OptionKind, bool, u16)> {
    match c {
        BotCommand::Ask => seq![("prompt"@, "모델에 전달할 질문"@, OptionKind::Text, true, 1800u16)],
        BotCommand::Dev => seq![("task"@, "컨테이너 안에서 수행할 개발 작업"@, OptionKind::Text, true, 1800u16)],
        _ => seq![],
    }
}

/// The options that a command is registered with.
pub fn command_options(c: BotCommand) -> (r: Vec<OptionSpec>)
    ensures
        r@.map_values(|o: OptionSpec| option_view(o)) == spec_command_options(c),
{
    let mut r: Vec<OptionSpec> = Vec::new();
    match c {
        BotCommand::Ask => {
            r.push(OptionSpec {
                name: ask_prompt_option().to_owned(),
                description: "모델에 전달할 질문".to_owned(),
                kind: OptionKind::Text,
                required: true,
                max_length: 1800,
            });
        },
        BotCommand::Dev => {
            r.push(OptionSpec {
                name: dev_task_option().to_owned(),
                description: "컨테이너 안에서 수행할 개발 작업".to_owned(),
                kind: OptionKind::Text,
                required: true,
                max_length: 1800,
            });
        },
        _ => {},
    }
    assert(r@.map_values(|o: OptionSpec| option_view(o)) =~= spec_command_options(c));
    r
}

/// The name of the text option of `ask`.
pub fn ask_prompt_option() -> (r: &'static str)
    ensures
        r@ == "prompt"@,
{
    "prompt"
}

/// The name of the text option of `dev`.
pub fn dev_task_option() -> (r: &'static str)
    ensures
        r@ == "task"@,
{
    "task"
}

/// An option of a command invocation: its name, and its value when it is text.
#[derive(Clone, Debug)]
pub struct CommandOption {
    pub name: String,
    pub text: Option<String>,
}

/// The text of the first option named `name`; none when there is no such
/// option or its value is not text.
pub open spec fn spec_string_option(options: Seq<CommandOption>, name: Seq<char>) -> Option<Seq<char>>
    decreases options.len(),
{
    if options.len() == 0 {
        None
    } else if options[0].name@ == name {
        match options[0].text {
            Some(t) => Some(t@),
            None => None,
        }
    } else {
        spec_string_option(options.skip(1), name)
    }
}

/// The text of the first option named `name`.
pub fn string_option(options: &[CommandOption], name: &str) -> (r: Option<String>)
    ensures
        match r {
            Some(t) => spec_string_option(options@, name@) == Some(t@),
            None => spec_string_option(options@, name@) is None,
        },
{
    let want = chars_of(name);
    let mut i: usize = 0;
    assert(options@.skip(0) =~= options@);
    while i < options.len()
        invariant
            i <= options@.len(),
            want@ == name@,
            spec_string_option(options@, name@) == spec_string_option(options@.skip(i as int), name@),
        decreases options@.len() - i,
    {
        assert(options@.skip(i as int)[0] == options@[i as int]);
        assert(options@.skip(i as int).skip(1) =~= options@.skip(i + 1));
        if eq_chars(&chars_of(options[i].name.as_str()), &want) {
            return options[i].text.clone();
        }
        i = i + 1;
    }
    None
}

} // verus!
