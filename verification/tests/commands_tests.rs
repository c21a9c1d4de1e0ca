use jetson_discord_bot::cli::{dev_task_argument, ArgError};
use jetson_discord_bot::commands::{
    all_commands, command_for, command_name, string_option, BotCommand, CommandOption,
};

#[test]
fn commands_offered() {
    assert_eq!(
        all_commands(false),
        vec![BotCommand::Ping, BotCommand::LlmStatus, BotCommand::Ask]
    );
    assert_eq!(all_commands(true).last(), Some(&BotCommand::Dev));
    let names: Vec<&str> = all_commands(true).into_iter().map(command_name).collect();
    assert_eq!(names, vec!["ping", "llm-status", "ask", "dev"]);
}

#[test]
fn commands_are_dispatched_by_name() {
    assert_eq!(command_for("llm-status"), BotCommand::LlmStatus);
    assert_eq!(command_for("dev"), BotCommand::Dev);
    assert_eq!(command_for("Ping"), BotCommand::Unknown);
}

#[test]
fn text_options_are_read_by_name() {
    let options = vec![
        CommandOption { name: "count".to_string(), text: None },
        CommandOption { name: "prompt".to_string(), text: Some("hi".to_string()) },
        CommandOption { name: "prompt".to_string(), text: Some("later".to_string()) },
    ];
    assert_eq!(string_option(&options, "prompt"), Some("hi".to_string()));
    assert_eq!(string_option(&options, "count"), None);
    assert_eq!(string_option(&options, "task"), None);
}

fn args(words: &[&str]) -> Vec<String> {
    words.iter().map(|w| w.to_string()).collect()
}

#[test]
fn dev_task_argument_reads_the_task() {
    assert!(matches!(dev_task_argument(&args(&[])), Ok(None)));
    assert_eq!(
        dev_task_argument(&args(&["--dev-task", "run", "tests"])).ok(),
        Some(Some("run tests".to_string()))
    );
    match dev_task_argument(&args(&["--verbose"])) {
        Err(e) => assert_eq!(e.message(), "unknown argument: --verbose"),
        Ok(_) => panic!("expected an error"),
    }
    match dev_task_argument(&args(&["--dev-task", " ", ""])) {
        Err(ArgError::MissingTask) => {}
        _ => panic!("expected a missing task"),
    }
    assert_eq!(ArgError::MissingTask.message(), "--dev-task requires a task");
}

use jetson_discord_bot::commands::{command_description, command_options, OptionKind};

#[test]
fn commands_are_registered_with_their_options() {
    let ask = command_options(BotCommand::Ask);
    assert_eq!(ask.len(), 1);
    assert_eq!(ask[0].name, "prompt");
    assert_eq!(ask[0].kind, OptionKind::Text);
    assert!(ask[0].required);
    assert_eq!(ask[0].max_length, 1800);
    let dev = command_options(BotCommand::Dev);
    assert_eq!(dev[0].name, "task");
    assert_eq!(dev[0].description, "컨테이너 안에서 수행할 개발 작업");
    assert!(command_options(BotCommand::Ping).is_empty());
    assert!(command_options(BotCommand::LlmStatus).is_empty());
    assert_eq!(command_description(BotCommand::Ask), "로컬 Gemma 모델에 질문합니다.");
}
