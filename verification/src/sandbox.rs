//! Planning the steps of a development task in the sandbox container.

use vstd::prelude::*;

use crate::config::Config;
use crate::text::{
    append_str, chars_of, contains, contains_exec, decimal, decimal_exec, extend, string_of,
    tail_chars, tail_chars_exec, take_chars, take_chars_exec, trim, trim_seq,
};

verus! {

/// The reply when a task ends without a summary.
pub open spec fn default_completion() -> Seq<char> {
    "작업을 완료했어."@
}

/// The settings of the development sandbox.
#[derive(Clone, Debug)]
pub struct DevSandbox {
    pub enabled: bool,
    pub allowed_user_ids: Vec<u64>,
    pub runtime: String,
    pub image: String,
    pub container: String,
    pub workspace: String,
    pub timeout_secs: u64,
    pub max_steps: usize,
    pub output_chars: usize,
}

/// What the model asks for at one step of a task.
#[derive(Clone, Debug)]
pub struct DevAction {
    pub command: Option<String>,
    pub done: bool,
    pub summary: Option<String>,
}

/// How a command in the container ended.
#[derive(Clone, Debug)]
pub struct ExecResult {
    pub exit_code: i32,
    pub output: String,
}

/// Why a development task stopped.
#[derive(Clone, Copy, Debug, PartialEq, Eq, Structural)]
pub enum SandboxError {
    /// The sandbox is disabled.
    Disabled,
    /// The model neither gave a command nor finished.
    NoCommand,
    /// The task used all its steps.
    StepLimit(usize),
}

impl SandboxError {
    /// The error's text.
    pub open spec fn spec_message(self) -> Seq<char> {
        match self {
            SandboxError::Disabled => "development sandbox is disabled"@,
            SandboxError::NoCommand => "model returned neither a command nor a completion"@,
            SandboxError::StepLimit(n) => "development task reached the configured step limit ("@
                + decimal(n as nat) + ")"@,
        }
    }

    /// The error's text.
    pub fn message(&self) -> (r: String)
        ensures
            r@ == self.spec_message(),
    {
        match self {
            SandboxError::Disabled => "development sandbox is disabled".to_owned(),
            SandboxError::NoCommand => "model returned neither a command nor a completion".to_owned(),
            SandboxError::StepLimit(n) => {
                let mut out = chars_of("development task reached the configured step limit (");
                extend(&mut out, &decimal_exec(*n as u64));
                append_str(&mut out, ")");
                string_of(&out)
            },
        }
    }
}

/// What to do after the model's answer at one step.
#[derive(Clone, Debug)]
pub enum TaskStep {
    /// The task is done; the reply is its summary.
    Finished(String),
    /// Run this shell command.
    Run(String),
}

/// The decimal numeral of an integer, with a sign when negative.
pub open spec fn signed_decimal(i: int) -> Seq<char> {
    if i < 0 {
        seq!['-'] + decimal((-i) as nat)
    } else {
        decimal(i as nat)
    }
}

/// Computes `signed_decimal` for an `i32`.
pub fn signed_decimal_exec(i: i32) -> (r: Vec<char>)
    ensures
        r@ == signed_decimal(i as int),
{
    if i < 0 {
        let mut v = vec!['-'];
        let m = (-(i as i64)) as u64;
        extend(&mut v, &decimal_exec(m));
        assert(v@ =~= seq!['-'] + decimal((-(i as int)) as nat));
        v
    } else {
        decimal_exec(i as u64)
    }
}

/// The transcript entry of one step.
pub open spec fn transcript_entry(step: nat, command: Seq<char>, exit_code: int, output: Seq<char>) -> Seq<char> {
    "\nStep "@ + decimal(step) + "\nCommand:\n"@ + command + "\nExit code: "@ + signed_decimal(
        exit_code,
    ) + "\nOutput:\n"@ + output + "\n"@
}

/// Appends the entry of one step to the transcript.
pub fn append_transcript(transcript: &mut String, step: usize, command: &str, result: &ExecResult)
    ensures
        final(transcript)@ == old(transcript)@ + transcript_entry(
            step as nat,
            command@,
            result.exit_code as int,
            result.output@,
        ),
{
    let mut out: Vec<char> = chars_of("\nStep ");
    extend(&mut out, &decimal_exec(step as u64));
    append_str(&mut out, "\nCommand:\n");
    append_str(&mut out, command);
    append_str(&mut out, "\nExit code: ");
    extend(&mut out, &signed_decimal_exec(result.exit_code));
    append_str(&mut out, "\nOutput:\n");
    append_str(&mut out, result.output.as_str());
    append_str(&mut out, "\n");
    let entry = string_of(&out);
    transcript.append(entry.as_str());
}

/// The first `max_chars` characters of `value`.
pub fn trim_chars(value: &str, max_chars: usize) -> (r: String)
    ensures
        r@ == take_chars(value@, max_chars as nat),
{
    string_of(&take_chars_exec(&chars_of(value), max_chars))
}

/// The last `max_chars` characters of `value`.
pub fn trim_tail_chars(value: &str, max_chars: usize) -> (r: String)
    ensures
        r@ == tail_chars(value@, max_chars as nat),
{
    string_of(&tail_chars_exec(&chars_of(value), max_chars))
}

/// The command of an action, when it is not blank.
pub fn required_command(action: DevAction) -> (r: Result<String, SandboxError>)
    ensures
        match action.command {
            Some(c) => if trim(c@).len() > 0 {
                r matches Ok(s) && s@ == c@
            } else {
                r == Err::<String, SandboxError>(SandboxError::NoCommand)
            },
            None => r == Err::<String, SandboxError>(SandboxError::NoCommand),
        },
{
    match action.command {
        Some(c) => if trim_seq(&chars_of(c.as_str())).len() > 0 {
            Ok(c)
        } else {
            Err(SandboxError::NoCommand)
        },
        None => Err(SandboxError::NoCommand),
    }
}

/// The report of a failed container command: the message and the first 1000
/// characters of its error output.
pub fn command_error(message: &str, stderr: &str) -> (r: String)
    ensures
        r@ == message@ + ": "@ + take_chars(stderr@, 1000),
{
    let mut out = chars_of(message);
    append_str(&mut out, ": ");
    extend(&mut out, &take_chars_exec(&chars_of(stderr), 1000));
    string_of(&out)
}

/// Appends a string to a list of arguments.
fn push_string(v: &mut Vec<String>, s: &str)
    ensures
        final(v).deep_view() == old(v).deep_view().push(s@),
{
    let ghost before = v.deep_view();
    v.push(s.to_owned());
    assert(v.deep_view() =~= before.push(s@));
}

impl DevSandbox {
    /// The sandbox settings of the configuration.
    pub fn new(config: &Config) -> (r: DevSandbox)
        ensures
            r.enabled == config.dev_sandbox_enabled,
            r.allowed_user_ids@ == config.dev_sandbox_allowed_user_ids@,
            r.runtime@ == config.dev_sandbox_runtime@,
            r.image@ == config.dev_sandbox_image@,
            r.container@ == config.dev_sandbox_container@,
            r.workspace@ == config.dev_sandbox_workspace@,
            r.timeout_secs == config.dev_sandbox_timeout_secs,
            r.max_steps == config.dev_sandbox_max_steps,
            r.output_chars == config.dev_sandbox_output_chars,
    {
        let mut ids: Vec<u64> = Vec::new();
        let mut i: usize = 0;
        while i < config.dev_sandbox_allowed_user_ids.len()
            invariant
                i <= config.dev_sandbox_allowed_user_ids@.len(),
                ids@ == config.dev_sandbox_allowed_user_ids@.take(i as int),
            decreases config.dev_sandbox_allowed_user_ids@.len() - i,
        {
            ids.push(config.dev_sandbox_allowed_user_ids[i]);
            assert(ids@ =~= config.dev_sandbox_allowed_user_ids@.take(i + 1));
            i = i + 1;
        }
        assert(ids@ =~= config.dev_sandbox_allowed_user_ids@);
        DevSandbox {
            enabled: config.dev_sandbox_enabled,
            allowed_user_ids: ids,
            runtime: config.dev_sandbox_runtime.as_str().to_owned(),
            image: config.dev_sandbox_image.as_str().to_owned(),
            container: config.dev_sandbox_container.as_str().to_owned(),
            workspace: config.dev_sandbox_workspace.as_str().to_owned(),
            timeout_secs: config.dev_sandbox_timeout_secs,
            max_steps: config.dev_sandbox_max_steps,
            output_chars: config.dev_sandbox_output_chars,
        }
    }

    /// Whether the sandbox is enabled.
    pub fn enabled(&self) -> (r: bool)
        ensures
            r == self.enabled,
    {
        self.enabled
    }

    /// Whether a user may run tasks: the sandbox is enabled and the user is
    /// listed.
    pub fn authorized(&self, user_id: u64) -> (r: bool)
        ensures
            r == (self.enabled && self.allowed_user_ids@.contains(user_id)),
    {
        if !self.enabled {
            return false;
        }
        let mut i: usize = 0;
        while i < self.allowed_user_ids.len()
            invariant
                self.enabled,
                i <= self.allowed_user_ids@.len(),
                forall|j: int| 0 <= j < i ==> self.allowed_user_ids@[j] != user_id,
            decreases self.allowed_user_ids@.len() - i,
        {
            if self.allowed_user_ids[i] == user_id {
                assert(self.allowed_user_ids@[i as int] == user_id);
                return true;
            }
            i = i + 1;
        }
        false
    }

    /// Whether a task may start.
    pub fn start_task(&self) -> (r: Result<(), SandboxError>)
        ensures
            r is Ok <==> self.enabled,
            r is Err ==> r == Err::<(), SandboxError>(SandboxError::Disabled),
    {
        if self.enabled {
            Ok(())
        } else {
            Err(SandboxError::Disabled)
        }
    }

    /// The number of the next step after `completed` steps: steps run from 1
    /// to `max_steps`; past them the task ends at the step limit.
    pub fn next_step_number(&self, completed: usize) -> (r: Result<usize, SandboxError>)
        ensures
            completed < self.max_steps ==> r == Ok::<usize, SandboxError>((completed + 1) as usize),
            completed >= self.max_steps ==> r == Err::<usize, SandboxError>(
                SandboxError::StepLimit(self.max_steps),
            ),
    {
        if completed < self.max_steps {
            Ok(completed + 1)
        } else {
            Err(SandboxError::StepLimit(self.max_steps))
        }
    }

    /// What to do after the model's answer: finish with its summary (the
    /// default when blank or absent), or run its command.
    pub fn next_step(&self, action: DevAction) -> (r: Result<TaskStep, SandboxError>)
        ensures
            action.done ==> match action.summary {
                Some(s) => if trim(s@).len() > 0 {
                    r matches Ok(TaskStep::Finished(f)) && f@ == s@
                } else {
                    r matches Ok(TaskStep::Finished(f)) && f@ == default_completion()
                },
                None => r matches Ok(TaskStep::Finished(f)) && f@ == default_completion(),
            },
            !action.done ==> match action.command {
                Some(c) => if trim(c@).len() > 0 {
                    r matches Ok(TaskStep::Run(s)) && s@ == c@
                } else {
                    r == Err::<TaskStep, SandboxError>(SandboxError::NoCommand)
                },
                None => r == Err::<TaskStep, SandboxError>(SandboxError::NoCommand),
            },
    {
        if action.done {
            let summary = match action.summary {
                Some(s) => if trim_seq(&chars_of(s.as_str())).len() > 0 {
                    s
                } else {
                    "작업을 완료했어.".to_owned()
                },
                None => "작업을 완료했어.".to_owned(),
            };
            return Ok(TaskStep::Finished(summary));
        }
        match required_command(action) {
            Ok(c) => Ok(TaskStep::Run(c)),
            Err(e) => Err(e),
        }
    }

    /// The transcript after a step: the step's entry appended, then cut to its
    /// last `2 * output_chars` characters.
    pub fn record_step(&self, transcript: &str, step: usize, command: &str, result: &ExecResult) -> (r:
        String)
        requires
            self.output_chars <= usize::MAX / 2,
        ensures
            r@ == tail_chars(
                transcript@ + transcript_entry(
                    step as nat,
                    command@,
                    result.exit_code as int,
                    result.output@,
                ),
                (self.output_chars * 2) as nat,
            ),
    {
        let mut t = transcript.to_owned();
        append_transcript(&mut t, step, command, result);
        trim_tail_chars(t.as_str(), self.output_chars * 2)
    }

    /// The arguments that run a shell command in the container, under
    /// `timeout` with at least one second.
    pub fn exec_args(&self, shell_command: &str) -> (r: Vec<String>)
        ensures
            r.deep_view() == seq![
                "exec"@,
                "--workdir"@,
                "/workspace"@,
                self.container@,
                "timeout"@,
                "--signal=KILL"@,
                decimal(if self.timeout_secs == 0 { 1nat } else { self.timeout_secs as nat }),
                "bash"@,
                "-lc"@,
                shell_command@,
            ],
    {
        let secs = if self.timeout_secs == 0 {
            1
        } else {
            self.timeout_secs
        };
        let secs_text = string_of(&decimal_exec(secs));
        let mut v: Vec<String> = Vec::new();
        push_string(&mut v, "exec");
        push_string(&mut v, "--workdir");
        push_string(&mut v, "/workspace");
        push_string(&mut v, self.container.as_str());
        push_string(&mut v, "timeout");
        push_string(&mut v, "--signal=KILL");
        push_string(&mut v, secs_text.as_str());
        push_string(&mut v, "bash");
        push_string(&mut v, "-lc");
        push_string(&mut v, shell_command);
        v
    }

    /// The output kept of a command: its standard output followed by its error
    /// output, cut to the last `output_chars` characters.
    pub fn exec_output(&self, stdout: &str, stderr: &str) -> (r: String)
        ensures
            r@ == tail_chars(stdout@ + stderr@, self.output_chars as nat),
    {
        let mut all = chars_of(stdout);
        append_str(&mut all, stderr);
        string_of(&tail_chars_exec(&all, self.output_chars))
    }

    /// The arguments that inspect the container.
    pub fn inspect_args(&self) -> (r: Vec<String>)
        ensures
            r.deep_view() == seq!["container"@, "inspect"@, self.container@],
    {
        let mut v: Vec<String> = Vec::new();
        push_string(&mut v, "container");
        push_string(&mut v, "inspect");
        push_string(&mut v, self.container.as_str());
        v
    }

    /// The arguments that start the container.
    pub fn start_args(&self) -> (r: Vec<String>)
        ensures
            r.deep_view() == seq!["start"@, self.container@],
    {
        let mut v: Vec<String> = Vec::new();
        push_string(&mut v, "start");
        push_string(&mut v, self.container.as_str());
        v
    }

    /// The arguments that create the container: detached, without network,
    /// capabilities or new privileges, limited in processes, memory and CPUs,
    /// read-only but for a small temporary directory and the workspace volume,
    /// as an unprivileged user.
    pub fn run_args(&self) -> (r: Vec<String>)
        ensures
            r.deep_view() == ({
                let container = self.container@;
                let workspace = self.workspace@;
                let image = self.image@;
                seq![
                    "run"@,
                    "--detach"@,
                    "--init"@,
                    "--stop-signal"@,
                    "SIGKILL"@,
                    "--name"@,
                    container,
                    "--hostname"@,
                    "komi-dev"@,
                    "--network"@,
                    "none"@,
                    "--cap-drop"@,
                    "all"@,
                    "--security-opt"@,
                    "no-new-privileges"@,
                    "--pids-limit"@,
                    "256"@,
                    "--memory"@,
                    "2g"@,
                    "--cpus"@,
                    "2"@,
                    "--read-only"@,
                    "--tmpfs"@,
                    "/tmp:rw,noexec,nosuid,size=256m"@,
                    "--volume"@,
                    workspace + ":/workspace:rw"@,
                    "--workdir"@,
                    "/workspace"@,
                    "--user"@,
                    "1000:1000"@,
                    image,
                    "sleep"@,
                    "infinity"@,
                ]
            }),
    {
        let mut volume = chars_of(self.workspace.as_str());
        append_str(&mut volume, ":/workspace:rw");
        let volume = string_of(&volume);
        let mut v: Vec<String> = Vec::new();
        push_string(&mut v, "run");
        push_string(&mut v, "--detach");
        push_string(&mut v, "--init");
        push_string(&mut v, "--stop-signal");
        push_string(&mut v, "SIGKILL");
        push_string(&mut v, "--name");
        push_string(&mut v, self.container.as_str());
        push_string(&mut v, "--hostname");
        push_string(&mut v, "komi-dev");
        push_string(&mut v, "--network");
        push_string(&mut v, "none");
        push_string(&mut v, "--cap-drop");
        push_string(&mut v, "all");
        push_string(&mut v, "--security-opt");
        push_string(&mut v, "no-new-privileges");
        push_string(&mut v, "--pids-limit");
        push_string(&mut v, "256");
        push_string(&mut v, "--memory");
        push_string(&mut v, "2g");
        push_string(&mut v, "--cpus");
        push_string(&mut v, "2");
        push_string(&mut v, "--read-only");
        push_string(&mut v, "--tmpfs");
        push_string(&mut v, "/tmp:rw,noexec,nosuid,size=256m");
        push_string(&mut v, "--volume");
        push_string(&mut v, volume.as_str());
        push_string(&mut v, "--workdir");
        push_string(&mut v, "/workspace");
        push_string(&mut v, "--user");
        push_string(&mut v, "1000:1000");
        push_string(&mut v, self.image.as_str());
        push_string(&mut v, "sleep");
        push_string(&mut v, "infinity");
        v
    }
}

/// What makes the container ready.
#[derive(Clone, Copy, Debug, PartialEq, Eq, Structural)]
pub enum ContainerStep {
    /// The container exists: start it.
    Start,
    /// There is no container: create it.
    Create,
}

/// Decides how the container is made ready: an existing one (its inspection
/// succeeded) is started, else it is created.
pub fn container_step(inspect_succeeded: bool) -> (r: ContainerStep)
    ensures
        r == (if inspect_succeeded {
            ContainerStep::Start
        } else {
            ContainerStep::Create
        }),
{
    if inspect_succeeded {
        ContainerStep::Start
    } else {
        ContainerStep::Create
    }
}

/// The outcome of a container step, from whether its command succeeded and its
/// error output: a start also succeeds when the container was already
/// running; a failure reports its error output.
pub fn container_step_result(step: ContainerStep, success: bool, stderr: &str) -> (r: Result<(), String>)
    ensures
        match step {
            ContainerStep::Start => if success || contains(stderr@, "already running"@) {
                r is Ok
            } else {
                r matches Err(e) && e@ == "failed to start development container"@ + ": "@ + take_chars(stderr@, 1000)
            },
            ContainerStep::Create => if success {
                r is Ok
            } else {
                r matches Err(e) && e@ == "failed to create development container"@ + ": "@ + take_chars(stderr@, 1000)
            },
        },
{
    match step {
        ContainerStep::Start => if container_started(success, stderr) {
            Ok(())
        } else {
            Err(command_error("failed to start development container", stderr))
        },
        ContainerStep::Create => if success {
            Ok(())
        } else {
            Err(command_error("failed to create development container", stderr))
        },
    }
}

/// The outcome of asking the container runtime for its version: it is
/// available when the command succeeded, else its error output is reported.
pub fn runtime_check(success: bool, stderr: &str) -> (r: Result<(), String>)
    ensures
        success ==> r is Ok,
        !success ==> (r matches Err(e) && e@ == "container runtime is unavailable"@ + ": "@ + take_chars(stderr@, 1000)),
{
    if success {
        Ok(())
    } else {
        Err(command_error("container runtime is unavailable", stderr))
    }
}

/// Whether starting the container succeeded, or it was already running.
pub fn container_started(success: bool, stderr: &str) -> (r: bool)
    ensures
        r == (success || contains(stderr@, "already running"@)),
{
    success || contains_exec(&chars_of(stderr), &chars_of("already running"))
}

} // verus!
