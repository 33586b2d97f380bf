//! The local executor launcher: the Codex CLI argument vector, the prompt that goes
//! to the process's stdin, and how a process's end is reported.

use vstd::prelude::*;
use crate::ids::{id_text, uuid_hyphenated, Id};
use crate::launch::{LaunchAttempt, LaunchProfile};
use crate::lsm::AgentBinding;
use crate::records::{ContextRevision, Run, Task};
use crate::text::{clip, clipped, clone_opt, concat2, err_text, i64_text, join, joined, opt_text, owned,
    signed_decimal, views};

verus! {

/// The model arguments: `-m MODEL` when a model is configured.
pub open spec fn model_argv(model: Option<Seq<char>>) -> Seq<Seq<char>> {
    match model {
        Some(m) => seq!["-m"@, m],
        None => Seq::empty(),
    }
}

/// The Codex CLI arguments: a fresh `exec`, or `exec resume` of an earlier provider
/// session. The prompt is never an argument: the final `-` reads it from stdin.
pub open spec fn codex_argv(
    model: Option<Seq<char>>,
    cwd: Seq<char>,
    last_message_path: Seq<char>,
    resume_session: Option<Seq<char>>,
) -> Seq<Seq<char>> {
    match resume_session {
        Some(session) => seq!["exec"@, "resume"@, "--json"@, "-o"@, last_message_path]
            + model_argv(model) + seq![session, "-"@],
        None => seq![
            "exec"@,
            "--json"@,
            "--color"@,
            "never"@,
            "--approve-for-me"@,
            "-C"@,
            cwd,
            "-o"@,
            last_message_path,
        ] + model_argv(model) + seq!["-"@],
    }
}

/// The Codex CLI arguments for a launch profile.
pub fn codex_args(
    profile: &LaunchProfile,
    cwd: &str,
    last_message_path: &str,
    resume_session: Option<&str>,
) -> (args: Vec<String>)
    ensures
        views(args@) == codex_argv(
            opt_text(profile.model),
            cwd@,
            last_message_path@,
            match resume_session {
                Some(s) => Some(s@),
                None => None,
            },
        ),
{
    let mut args: Vec<String> = Vec::new();
    match resume_session {
        Some(session) => {
            args.push(owned("exec"));
            args.push(owned("resume"));
            args.push(owned("--json"));
            args.push(owned("-o"));
            args.push(owned(last_message_path));
            if let Some(model) = &profile.model {
                args.push(owned("-m"));
                args.push(model.clone());
            }
            args.push(owned(session));
            args.push(owned("-"));
        },
        None => {
            args.push(owned("exec"));
            args.push(owned("--json"));
            args.push(owned("--color"));
            args.push(owned("never"));
            args.push(owned("--approve-for-me"));
            args.push(owned("-C"));
            args.push(owned(cwd));
            args.push(owned("-o"));
            args.push(owned(last_message_path));
            if let Some(model) = &profile.model {
                args.push(owned("-m"));
                args.push(model.clone());
            }
            args.push(owned("-"));
        },
    }
    assert(views(args@) =~= codex_argv(
        opt_text(profile.model),
        cwd@,
        last_message_path@,
        match resume_session {
            Some(s) => Some(s@),
            None => None,
        },
    ));
    args
}

/// The fixed flags that a Codex argument vector may hold.
pub open spec fn is_codex_flag(a: Seq<char>) -> bool {
    a == "exec"@ || a == "resume"@ || a == "--json"@ || a == "--color"@ || a == "never"@ || a
        == "--approve-for-me"@ || a == "-C"@ || a == "-o"@ || a == "-m"@ || a == "-"@
}

/// The argument vector carries only fixed flags and the launch settings (directory,
/// output path, model, resumed session), never task text, and it always ends with
/// `-`, so the prompt travels on stdin.
pub proof fn law_codex_argv_carries_only_launch_settings(
    model: Option<Seq<char>>,
    cwd: Seq<char>,
    last_message_path: Seq<char>,
    resume_session: Option<Seq<char>>,
)
    ensures
        ({
            let argv = codex_argv(model, cwd, last_message_path, resume_session);
            &&& argv.len() > 0 && argv.last() == "-"@
            &&& forall|i: int|
                0 <= i < argv.len() ==> {
                    ||| is_codex_flag(#[trigger] argv[i])
                    ||| argv[i] == cwd
                    ||| argv[i] == last_message_path
                    ||| model == Some(argv[i])
                    ||| resume_session == Some(argv[i])
                }
        }),
{
    let argv = codex_argv(model, cwd, last_message_path, resume_session);
    assert forall|i: int| 0 <= i < argv.len() implies {
        ||| is_codex_flag(#[trigger] argv[i])
        ||| argv[i] == cwd
        ||| argv[i] == last_message_path
        ||| model == Some(argv[i])
        ||| resume_session == Some(argv[i])
    } by {
        match resume_session {
            Some(s) => {
                let head = seq!["exec"@, "resume"@, "--json"@, "-o"@, last_message_path];
                let m = model_argv(model);
                if i < 5 {
                    assert(argv[i] == head[i]);
                } else if i < 5 + m.len() {
                    assert(argv[i] == m[i - 5]);
                } else {
                    assert(argv[i] == seq![s, "-"@][i - 5 - m.len()]);
                }
            },
            None => {
                let head = seq![
                    "exec"@,
                    "--json"@,
                    "--color"@,
                    "never"@,
                    "--approve-for-me"@,
                    "-C"@,
                    cwd,
                    "-o"@,
                    last_message_path,
                ];
                let m = model_argv(model);
                if i < 9 {
                    assert(argv[i] == head[i]);
                } else if i < 9 + m.len() {
                    assert(argv[i] == m[i - 9]);
                } else {
                    assert(argv[i] == seq!["-"@][i - 9 - m.len()]);
                }
            },
        }
    }
}

/// The Codex configuration override that points the `lsm` MCP server at `url`.
pub open spec fn lsm_url_override(url: Seq<char>) -> Seq<char> {
    "mcp_servers.lsm.url=\""@ + url + "\""@
}

/// The override that sends the run's capability, read from the environment.
pub open spec fn lsm_header_override() -> Seq<char> {
    "mcp_servers.lsm.env_http_headers.X-LSM-Session-Capability=\"MORROWS_LSM_CAPABILITY\""@
}

/// Adds the LSM MCP server to a Codex argument vector, right after the subcommand.
pub fn inject_lsm_config(args: &mut Vec<String>, binding: &AgentBinding)
    requires
        old(args).len() >= 1,
    ensures
        views(final(args)@) == views(old(args)@).take(1) + seq![
            "-c"@,
            lsm_url_override(binding.mcp_url@),
            "-c"@,
            lsm_header_override(),
        ] + views(old(args)@).skip(1),
{
    let url = concat2(concat2("mcp_servers.lsm.url=\"", binding.mcp_url.as_str()).as_str(), "\"");
    let header = owned(
        "mcp_servers.lsm.env_http_headers.X-LSM-Session-Capability=\"MORROWS_LSM_CAPABILITY\"",
    );
    let ghost before = views(args@);
    args.insert(1, header);
    args.insert(1, owned("-c"));
    args.insert(1, url);
    args.insert(1, owned("-c"));
    assert(views(args@) =~= before.take(1) + seq![
        "-c"@,
        lsm_url_override(binding.mcp_url@),
        "-c"@,
        lsm_header_override(),
    ] + before.skip(1));
}

/// A management instruction delivered to a launch.
pub struct LaunchInstruction {
    pub id: Id,
    pub launch_attempt_id: Id,
    pub actor_type: String,
    pub actor_id: String,
    pub body: String,
    pub created_at: i64,
}

/// Everything an executor launch works from.
pub struct LaunchExecution {
    pub attempt: LaunchAttempt,
    pub run: Run,
    pub profile: LaunchProfile,
    pub task: Task,
    pub context: Option<ContextRevision>,
    pub instructions: Vec<LaunchInstruction>,
}

/// The instructions received before launch, each bounded, joined, and bounded again.
pub open spec fn instructions_text(items: Seq<LaunchInstruction>) -> Seq<char> {
    clipped(joined(items.map_values(|i: LaunchInstruction| clipped(i.body@, 3000)), "\n---\n"@), 6000)
}

/// The executor's prompt. `constraints` is the JSON text of the context's constraints.
pub open spec fn launch_prompt(e: LaunchExecution, constraints: Seq<char>) -> Seq<char> {
    let task_id = uuid_hyphenated(e.task.id);
    let run_id = uuid_hyphenated(e.run.id);
    let (goal, summary, bounded) = match e.context {
        Some(c) => (clipped(c.goal@, 4000), clipped(c.current_summary@, 6000), clipped(constraints, 6000)),
        None => (Seq::empty(), Seq::empty(), Seq::empty()),
    };
    "You are an executor launched by Morrows.\nAgentInstance: "@ + uuid_hyphenated(
        e.attempt.agent_instance_id,
    ) + "\nTask ID: "@ + task_id + "\nAssignment ID: "@ + uuid_hyphenated(e.attempt.assignment_id)
        + "\nRun ID: "@ + run_id
        + "\n\nUse the configured Morrows MCP server as the durable source of truth. The Assignment and Run already exist; do not claim the task or start another Run. Before substantial work, read task_get and memory_get for Task ID "@
        + task_id
        + ". Read instructions_get for management updates. Checkpoint meaningful progress to Run ID "@
        + run_id + ". If the task is fully complete, call run_complete for Run ID "@ + run_id
        + ". If blocked or incomplete, checkpoint the blocker/progress and exit without calling run_complete.\n\nTask title:\n"@
        + clipped(e.task.title@, 2000) + "\n\nTask description:\n"@ + clipped(
        e.task.description@,
        6000,
    ) + "\n\nContext goal:\n"@ + goal + "\n\nContext summary:\n"@ + summary
        + "\n\nContext constraints (JSON, bounded):\n"@ + bounded
        + "\n\nInstructions received before launch:\n"@ + instructions_text(e.instructions@)
        + "\n"@
}

/// Builds the executor's prompt: identifiers, the task, the bounded working context
/// and the instructions received before launch. It goes to the process's stdin.
pub fn build_prompt(execution: &LaunchExecution, constraints: &str) -> (p: String)
    ensures
        p@ == launch_prompt(*execution, constraints@),
{
    let task_id = id_text(execution.task.id);
    let run_id = id_text(execution.run.id);
    let (goal, summary, bounded) = match &execution.context {
        Some(c) => (
            clip(c.goal.as_str(), 4000),
            clip(c.current_summary.as_str(), 6000),
            clip(constraints, 6000),
        ),
        None => (String::new(), String::new(), String::new()),
    };
    let mut bodies: Vec<String> = Vec::new();
    let mut i: usize = 0;
    while i < execution.instructions.len()
        invariant
            i <= execution.instructions.len(),
            bodies@.len() == i,
            forall|j: int|
                0 <= j < i ==> (#[trigger] bodies@[j])@ == clipped(
                    execution.instructions@[j].body@,
                    3000,
                ),
        decreases execution.instructions.len() - i,
    {
        bodies.push(clip(execution.instructions[i].body.as_str(), 3000));
        i = i + 1;
    }
    assert(views(bodies@) =~= execution.instructions@.map_values(
        |x: LaunchInstruction| clipped(x.body@, 3000),
    ));
    let joined_text = join(&bodies, "\n---\n");
    let instructions = clip(joined_text.as_str(), 6000);
    let mut p = owned("You are an executor launched by Morrows.\nAgentInstance: ");
    p.append(id_text(execution.attempt.agent_instance_id).as_str());
    p.append("\nTask ID: ");
    p.append(task_id.as_str());
    p.append("\nAssignment ID: ");
    p.append(id_text(execution.attempt.assignment_id).as_str());
    p.append("\nRun ID: ");
    p.append(run_id.as_str());
    p.append(
        "\n\nUse the configured Morrows MCP server as the durable source of truth. The Assignment and Run already exist; do not claim the task or start another Run. Before substantial work, read task_get and memory_get for Task ID ",
    );
    p.append(task_id.as_str());
    p.append(
        ". Read instructions_get for management updates. Checkpoint meaningful progress to Run ID ",
    );
    p.append(run_id.as_str());
    p.append(". If the task is fully complete, call run_complete for Run ID ");
    p.append(run_id.as_str());
    p.append(
        ". If blocked or incomplete, checkpoint the blocker/progress and exit without calling run_complete.\n\nTask title:\n",
    );
    p.append(clip(execution.task.title.as_str(), 2000).as_str());
    p.append("\n\nTask description:\n");
    p.append(clip(execution.task.description.as_str(), 6000).as_str());
    p.append("\n\nContext goal:\n");
    p.append(goal.as_str());
    p.append("\n\nContext summary:\n");
    p.append(summary.as_str());
    p.append("\n\nContext constraints (JSON, bounded):\n");
    p.append(bounded.as_str());
    p.append("\n\nInstructions received before launch:\n");
    p.append(instructions.as_str());
    p.append("\n");
    p
}

/// What the prompt adds when the run is bound to an LSM Logical Session.
pub open spec fn lsm_prompt_note(session: Seq<char>) -> Seq<char> {
    "\nLSM execution context: "@ + session
        + ". Use only this Logical Session for LSM calls. Morrows owns Session lifecycle; do not start, finish, cancel, or delete it. LSM will reject old Session IDs from resumed conversation history.\n"@
}

/// Appends the LSM note to a prompt.
pub fn add_lsm_prompt_note(prompt: &mut String, binding: &AgentBinding)
    ensures
        final(prompt)@ == old(prompt)@ + lsm_prompt_note(binding.logical_session_id@),
{
    prompt.append("\nLSM execution context: ");
    prompt.append(binding.logical_session_id.as_str());
    prompt.append(
        ". Use only this Logical Session for LSM calls. Morrows owns Session lifecycle; do not start, finish, cancel, or delete it. LSM will reject old Session IDs from resumed conversation history.\n",
    );
}

/// The working directory of a launch: the attempt's, else the profile's default.
pub fn launch_cwd(attempt: &LaunchAttempt, profile: &LaunchProfile) -> (r: Result<String, String>)
    ensures
        attempt.cwd matches Some(c) ==> r == Ok::<String, String>(c),
        attempt.cwd is None ==> (match profile.default_cwd {
            Some(c) => r == Ok::<String, String>(c),
            None => err_text(r, "launch cwd missing"@),
        }),
{
    match &attempt.cwd {
        Some(c) => Ok(c.clone()),
        None => match &profile.default_cwd {
            Some(c) => Ok(c.clone()),
            None => Err(owned("launch cwd missing")),
        },
    }
}

/// The error that an ended executor process is recorded with: none after a clean
/// exit, else the failure that Codex reported, else the exit status.
pub open spec fn exit_error(success: bool, exit_code: Option<i64>, codex_error: Option<Seq<char>>) -> Option<
    Seq<char>,
> {
    if success {
        None
    } else {
        match codex_error {
            Some(m) => Some("codex: "@ + m),
            None => Some(
                "launcher process exited with "@ + match exit_code {
                    Some(c) => signed_decimal(c as int),
                    None => "signal"@,
                },
            ),
        }
    }
}

/// Decides the error text of an ended executor process.
pub fn launch_exit_error(success: bool, exit_code: Option<i64>, codex_error: Option<String>) -> (r:
    Option<String>)
    ensures
        opt_text(r) == exit_error(success, exit_code, opt_text(codex_error)),
{
    if success {
        None
    } else {
        match codex_error {
            Some(m) => Some(concat2("codex: ", m.as_str())),
            None => {
                let status = match exit_code {
                    Some(c) => i64_text(c),
                    None => owned("signal"),
                };
                Some(concat2("launcher process exited with ", status.as_str()))
            },
        }
    }
}

/// Only the Codex CLI adapter can be run by the local launcher.
pub fn check_runtime_adapter(adapter: &str) -> (r: Result<(), String>)
    ensures
        adapter@ == "codex_cli"@ ==> r is Ok,
        adapter@ != "codex_cli"@ ==> err_text(r, "unsupported launch adapter at runtime: "@ + adapter@),
{
    if crate::text::str_eq(adapter, "codex_cli") {
        Ok(())
    } else {
        Err(concat2("unsupported launch adapter at runtime: ", adapter))
    }
}


/// The prompt of the company launcher, which reads the context with `context_get`
/// and hands over no instructions.
pub open spec fn company_launch_prompt(e: LaunchExecution, constraints: Seq<char>) -> Seq<char> {
    let task_id = uuid_hyphenated(e.task.id);
    let run_id = uuid_hyphenated(e.run.id);
    let (goal, summary, bounded) = match e.context {
        Some(c) => (clipped(c.goal@, 4000), clipped(c.current_summary@, 6000), clipped(constraints, 6000)),
        None => (Seq::empty(), Seq::empty(), Seq::empty()),
    };
    "You are an executor launched by Agent Company.\nAgentInstance: "@ + uuid_hyphenated(
        e.attempt.agent_instance_id,
    ) + "\nTask ID: "@ + task_id + "\nAssignment ID: "@ + uuid_hyphenated(e.attempt.assignment_id)
        + "\nRun ID: "@ + run_id
        + "\n\nUse the configured agent-company MCP server as the durable source of truth. The Assignment and Run already exist; do not claim the task or start another Run. Before substantial work, read task_get and context_get for Task ID "@
        + task_id + ". Checkpoint meaningful progress to Run ID "@ + run_id
        + ". If the task is fully complete, call run_complete for Run ID "@ + run_id
        + ". If blocked or incomplete, checkpoint the blocker/progress and exit without calling run_complete.\n\nTask title:\n"@
        + clipped(e.task.title@, 2000) + "\n\nTask description:\n"@ + clipped(
        e.task.description@,
        6000,
    ) + "\n\nContext goal:\n"@ + goal + "\n\nContext summary:\n"@ + summary
        + "\n\nContext constraints (JSON, bounded):\n"@ + bounded + "\n"@
}

/// Builds the company launcher's prompt.
pub fn build_company_prompt(execution: &LaunchExecution, constraints: &str) -> (p: String)
    ensures
        p@ == company_launch_prompt(*execution, constraints@),
{
    let task_id = id_text(execution.task.id);
    let run_id = id_text(execution.run.id);
    let (goal, summary, bounded) = match &execution.context {
        Some(c) => (
            clip(c.goal.as_str(), 4000),
            clip(c.current_summary.as_str(), 6000),
            clip(constraints, 6000),
        ),
        None => (String::new(), String::new(), String::new()),
    };
    let mut p = owned("You are an executor launched by Agent Company.\nAgentInstance: ");
    p.append(id_text(execution.attempt.agent_instance_id).as_str());
    p.append("\nTask ID: ");
    p.append(task_id.as_str());
    p.append("\nAssignment ID: ");
    p.append(id_text(execution.attempt.assignment_id).as_str());
    p.append("\nRun ID: ");
    p.append(run_id.as_str());
    p.append(
        "\n\nUse the configured agent-company MCP server as the durable source of truth. The Assignment and Run already exist; do not claim the task or start another Run. Before substantial work, read task_get and context_get for Task ID ",
    );
    p.append(task_id.as_str());
    p.append(". Checkpoint meaningful progress to Run ID ");
    p.append(run_id.as_str());
    p.append(". If the task is fully complete, call run_complete for Run ID ");
    p.append(run_id.as_str());
    p.append(
        ". If blocked or incomplete, checkpoint the blocker/progress and exit without calling run_complete.\n\nTask title:\n",
    );
    p.append(clip(execution.task.title.as_str(), 2000).as_str());
    p.append("\n\nTask description:\n");
    p.append(clip(execution.task.description.as_str(), 6000).as_str());
    p.append("\n\nContext goal:\n");
    p.append(goal.as_str());
    p.append("\n\nContext summary:\n");
    p.append(summary.as_str());
    p.append("\n\nContext constraints (JSON, bounded):\n");
    p.append(bounded.as_str());
    p.append("\n");
    p
}

/// Why the files a launch needs are not usable, checked in this order: the working
/// directory, the program, then the Codex home where one is set.
pub open spec fn launch_path_refusal_of(
    cwd: Seq<char>,
    cwd_is_dir: bool,
    program: Seq<char>,
    program_is_file: bool,
    codex_home: Option<Seq<char>>,
    home_is_dir: bool,
) -> Option<Seq<char>> {
    if !cwd_is_dir {
        Some("launch cwd is not a directory: "@ + cwd)
    } else if !program_is_file {
        Some("launch program does not exist or is not a file: "@ + program)
    } else {
        match codex_home {
            Some(h) => if !home_is_dir {
                Some("CODEX_HOME does not exist or is not a directory: "@ + h)
            } else {
                None
            },
            None => None,
        }
    }
}

pub fn launch_path_refusal(
    cwd: &str,
    cwd_is_dir: bool,
    program: &str,
    program_is_file: bool,
    codex_home: Option<&str>,
    home_is_dir: bool,
) -> (r: Option<String>)
    ensures
        opt_text(r) == launch_path_refusal_of(
            cwd@,
            cwd_is_dir,
            program@,
            program_is_file,
            match codex_home {
                Some(h) => Some(h@),
                None => None,
            },
            home_is_dir,
        ),
{
    if !cwd_is_dir {
        return Some(concat2("launch cwd is not a directory: ", cwd));
    }
    if !program_is_file {
        return Some(concat2("launch program does not exist or is not a file: ", program));
    }
    match codex_home {
        Some(h) => {
            if !home_is_dir {
                Some(concat2("CODEX_HOME does not exist or is not a directory: ", h))
            } else {
                None
            }
        },
        None => None,
    }
}

/// The error recorded when a claimed launch cannot begin.
pub fn begin_failure(err: &str) -> (s: String)
    ensures
        s@ == "begin launch failed: "@ + err@,
{
    concat2("begin launch failed: ", err)
}

/// What the launcher learns while it runs an executor process, in order: whether the
/// spawned process could be recorded as running, whether the prompt reached its
/// stdin, each poll of the durable stop request, and how the wait ended.
pub enum ExecutorEvent {
    /// The process was spawned; `recorded` is whether the attempt could be marked
    /// running (it cannot once it has left `starting`).
    Spawned { recorded: bool },
    /// The prompt was written to stdin, or failed to be (`error`).
    PromptWritten { error: Option<String> },
    /// A poll of the attempt's stop request.
    StopPolled { stop_requested: bool },
    /// Waiting for the process failed.
    WaitFailed { error: String },
    /// The process exited; `session_ref` and `codex_error` are read from its
    /// transcript.
    Exited {
        success: bool,
        exit_code: Option<i64>,
        session_ref: Option<String>,
        codex_error: Option<String>,
    },
}

/// What the launcher does next.
pub enum ExecutorAction {
    /// Write the prompt to the process's stdin.
    WritePrompt,
    /// Keep waiting for the process, polling the stop request.
    KeepWaiting,
    /// The attempt was fenced out: kill the process, revoke the run's capability when
    /// `revoke`, and give up with the recording error, leaving the attempt as it is.
    Abandon { revoke: bool },
    /// Record the end of the attempt. `kill` the process first and `revoke` the run's
    /// capability when asked; then finish the attempt with these values, and report
    /// `failed` to the worker when the launcher itself failed.
    Finish {
        kill: bool,
        revoke: bool,
        exit_code: Option<i64>,
        session_ref: Option<String>,
        error: Option<String>,
        failed: bool,
    },
}

/// The prefix of a prompt-write failure.
pub open spec fn stdin_failure(e: Seq<char>) -> Seq<char> {
    "failed writing launcher prompt to stdin: "@ + e
}

/// The prefix of a wait failure.
pub open spec fn wait_failure(e: Seq<char>) -> Seq<char> {
    "failed waiting for launcher process: "@ + e
}

/// The launcher's decisions while it owns an executor process (`lsm` is whether the
/// run holds an LSM capability): a fenced attempt is abandoned; a failed prompt write
/// or wait finishes the attempt with that failure; a stop request kills the process,
/// revokes the capability and finishes the attempt as cancelled; and an exit finishes
/// it with the exit status, the transcript's session reference and the exit error.
pub fn executor_next(lsm: bool, event: ExecutorEvent) -> (a: ExecutorAction)
    ensures
        match event {
            ExecutorEvent::Spawned { recorded } => if recorded {
                a is WritePrompt
            } else {
                a == ExecutorAction::Abandon { revoke: lsm }
            },
            ExecutorEvent::PromptWritten { error } => match error {
                None => a is KeepWaiting,
                Some(e) => a matches ExecutorAction::Finish {
                    kill,
                    revoke,
                    exit_code,
                    session_ref,
                    error,
                    failed,
                } && kill && !revoke && exit_code is None && session_ref is None && failed
                    && opt_text(error) == Some(stdin_failure(e@)),
            },
            ExecutorEvent::StopPolled { stop_requested } => if stop_requested {
                a matches ExecutorAction::Finish {
                    kill,
                    revoke,
                    exit_code,
                    session_ref,
                    error,
                    failed,
                } && kill && revoke == lsm && exit_code is None && session_ref is None && !failed
                    && opt_text(error) == Some("run_cancel_requested"@)
            } else {
                a is KeepWaiting
            },
            ExecutorEvent::WaitFailed { error: e } => a matches ExecutorAction::Finish {
                kill,
                revoke,
                exit_code,
                session_ref,
                error,
                failed,
            } && !kill && !revoke && exit_code is None && session_ref is None && failed && opt_text(
                error,
            ) == Some(wait_failure(e@)),
            ExecutorEvent::Exited { success, exit_code: code, session_ref: r, codex_error } => a matches ExecutorAction::Finish {
                kill,
                revoke,
                exit_code,
                session_ref,
                error,
                failed,
            } && !kill && revoke == lsm && exit_code == code && session_ref == r && !failed
                && opt_text(error) == exit_error(success, code, opt_text(codex_error)),
        },
{
    match event {
        ExecutorEvent::Spawned { recorded } => {
            if recorded {
                ExecutorAction::WritePrompt
            } else {
                ExecutorAction::Abandon { revoke: lsm }
            }
        },
        ExecutorEvent::PromptWritten { error } => match error {
            None => ExecutorAction::KeepWaiting,
            Some(e) => ExecutorAction::Finish {
                kill: true,
                revoke: false,
                exit_code: None,
                session_ref: None,
                error: Some(concat2("failed writing launcher prompt to stdin: ", e.as_str())),
                failed: true,
            },
        },
        ExecutorEvent::StopPolled { stop_requested } => {
            if stop_requested {
                ExecutorAction::Finish {
                    kill: true,
                    revoke: lsm,
                    exit_code: None,
                    session_ref: None,
                    error: Some(owned("run_cancel_requested")),
                    failed: false,
                }
            } else {
                ExecutorAction::KeepWaiting
            }
        },
        ExecutorEvent::WaitFailed { error } => ExecutorAction::Finish {
            kill: false,
            revoke: false,
            exit_code: None,
            session_ref: None,
            error: Some(concat2("failed waiting for launcher process: ", error.as_str())),
            failed: true,
        },
        ExecutorEvent::Exited { success, exit_code, session_ref, codex_error } => {
            let error = launch_exit_error(success, exit_code, codex_error);
            ExecutorAction::Finish { kill: false, revoke: lsm, exit_code, session_ref, error, failed: false }
        },
    }
}

} // verus!
