use jetson_discord_bot::config::Config;
use jetson_discord_bot::sandbox::{
    append_transcript, command_error, container_started, required_command, DevAction, DevSandbox,
    ExecResult, SandboxError, TaskStep,
};

fn sandbox(enabled: bool, ids: &str) -> DevSandbox {
    let env = vec![
        ("DISCORD_TOKEN".to_string(), "t".to_string()),
        ("DEV_SANDBOX_ENABLED".to_string(), if enabled { "1" } else { "0" }.to_string()),
        ("DEV_SANDBOX_ALLOWED_USER_IDS".to_string(), ids.to_string()),
        ("DEV_SANDBOX_OUTPUT_CHARS".to_string(), "10".to_string()),
    ];
    DevSandbox::new(&Config::from_env(&env, &None).unwrap())
}

fn action(command: Option<&str>, done: bool, summary: Option<&str>) -> DevAction {
    DevAction {
        command: command.map(str::to_string),
        done,
        summary: summary.map(str::to_string),
    }
}

#[test]
fn only_listed_users_are_authorized() {
    let s = sandbox(true, "11,22");
    assert!(s.enabled());
    assert!(s.authorized(22));
    assert!(!s.authorized(33));
    let off = sandbox(false, "11");
    assert!(!off.authorized(11));
    assert_eq!(off.start_task(), Err(SandboxError::Disabled));
    assert_eq!(s.start_task(), Ok(()));
}

#[test]
fn next_step_runs_or_finishes() {
    let s = sandbox(true, "1");
    match s.next_step(action(Some("ls"), false, None)) {
        Ok(TaskStep::Run(c)) => assert_eq!(c, "ls"),
        _ => panic!("expected a command"),
    }
    match s.next_step(action(None, true, Some("끝"))) {
        Ok(TaskStep::Finished(t)) => assert_eq!(t, "끝"),
        _ => panic!("expected the summary"),
    }
    match s.next_step(action(None, true, Some("  "))) {
        Ok(TaskStep::Finished(t)) => assert_eq!(t, "작업을 완료했어."),
        _ => panic!("expected the default summary"),
    }
    assert!(matches!(
        s.next_step(action(Some("   "), false, None)),
        Err(SandboxError::NoCommand)
    ));
    assert_eq!(
        required_command(action(None, false, None)),
        Err(SandboxError::NoCommand)
    );
}

#[test]
fn transcript_entries_and_their_budget() {
    let mut t = String::from("T");
    let result = ExecResult { exit_code: -2, output: "out".to_string() };
    append_transcript(&mut t, 3, "ls", &result);
    assert_eq!(t, "T\nStep 3\nCommand:\nls\nExit code: -2\nOutput:\nout\n");
    let s = sandbox(true, "1");
    let kept = s.record_step("", 1, "echo", &ExecResult { exit_code: 0, output: "x".to_string() });
    assert_eq!(kept, "t code: 0\nOutput:\nx\n");
}

#[test]
fn container_arguments() {
    let s = sandbox(true, "1");
    assert_eq!(
        s.exec_args("cargo test"),
        vec![
            "exec", "--workdir", "/workspace", "komi-dev", "timeout", "--signal=KILL", "60",
            "bash", "-lc", "cargo test"
        ]
    );
    assert_eq!(s.start_args(), vec!["start", "komi-dev"]);
    assert_eq!(s.inspect_args(), vec!["container", "inspect", "komi-dev"]);
    let run = s.run_args();
    assert_eq!(run[0], "run");
    assert!(run.contains(&"komi_workspace:/workspace:rw".to_string()));
    assert_eq!(run[run.len() - 3], "localhost/komi-dev:latest");
    assert_eq!(s.exec_output("0123456", "789abc"), "3456789abc");
}

#[test]
fn command_errors_and_start_results() {
    assert_eq!(command_error("failed", "boom"), "failed: boom");
    assert_eq!(command_error("f", &"e".repeat(1200)).chars().count(), 1003);
    assert!(container_started(false, "Error: container is already running"));
    assert!(!container_started(false, "no such container"));
    assert!(container_started(true, ""));
}

use jetson_discord_bot::sandbox::{container_step, container_step_result, runtime_check, ContainerStep};

#[test]
fn steps_are_numbered_up_to_the_limit() {
    let s = sandbox(true, "1");
    assert_eq!(s.next_step_number(0), Ok(1));
    assert_eq!(s.next_step_number(7), Ok(8));
    assert_eq!(s.next_step_number(8), Err(SandboxError::StepLimit(8)));
    assert_eq!(
        SandboxError::StepLimit(8).message(),
        "development task reached the configured step limit (8)"
    );
}

#[test]
fn the_container_is_started_or_created() {
    assert_eq!(container_step(true), ContainerStep::Start);
    assert_eq!(container_step(false), ContainerStep::Create);
    assert_eq!(container_step_result(ContainerStep::Start, false, "x is already running"), Ok(()));
    assert_eq!(
        container_step_result(ContainerStep::Start, false, "boom"),
        Err("failed to start development container: boom".to_string())
    );
    assert_eq!(
        container_step_result(ContainerStep::Create, false, "already running"),
        Err("failed to create development container: already running".to_string())
    );
    assert_eq!(container_step_result(ContainerStep::Create, true, ""), Ok(()));
    assert_eq!(runtime_check(true, "e"), Ok(()));
    assert_eq!(
        runtime_check(false, "no podman"),
        Err("container runtime is unavailable: no podman".to_string())
    );
}
