//! The launch ledger's rules: which launch profiles are accepted, when an assignment
//! may be launched, and how a launch attempt moves from queued to its end.
//!
//! Each function here is the decision that one ledger transaction makes on the rows it
//! has read; the transaction writes what the decision returns.

use vstd::prelude::*;
use crate::domain::{check_outcome, fails_with, text_outcome, DomainError, ErrorKind, TaskState};
use crate::ids::{id_text, uuid_hyphenated, Id};
use crate::json::Json;
use crate::records::{Assignment, Run};
use crate::text::{
    chars_of, clone_opt, is_empty_text, concat2, i64_text, is_blank, opt_text, owned, signed_decimal, str_eq,
    trim, trimmed,
};

verus! {

/// An operator-controlled way to start an executor for one agent instance.
pub struct LaunchProfile {
    pub id: Id,
    pub name: String,
    pub adapter: String,
    pub agent_instance_id: Id,
    pub program: String,
    pub codex_home: Option<String>,
    pub default_cwd: Option<String>,
    pub model: Option<String>,
    pub enabled: bool,
    pub metadata: Json,
    pub created_at: i64,
    pub updated_at: i64,
}

/// The request to register a launch profile.
pub struct RegisterLaunchProfile {
    pub name: String,
    pub adapter: String,
    pub agent_instance_id: Id,
    pub program: String,
    pub codex_home: Option<String>,
    pub default_cwd: Option<String>,
    pub model: Option<String>,
    pub enabled: bool,
    pub metadata: Json,
}

/// The request to launch an executor for an assignment.
pub struct EnqueueLaunch {
    pub assignment_id: Id,
    pub launch_profile_id: Id,
    pub cwd: Option<String>,
}

/// One attempt to run an executor process for an assignment.
pub struct LaunchAttempt {
    pub id: Id,
    pub assignment_id: Id,
    pub task_id: Id,
    pub agent_instance_id: Id,
    pub launch_profile_id: Id,
    pub run_id: Option<Id>,
    pub job_id: Option<Id>,
    pub status: String,
    pub cwd: Option<String>,
    pub external_session_ref: Option<String>,
    pub pid: Option<i64>,
    pub exit_code: Option<i64>,
    pub stdout_path: Option<String>,
    pub stderr_path: Option<String>,
    pub error: Option<String>,
    pub created_at: i64,
    pub started_at: Option<i64>,
    pub ended_at: Option<i64>,
}

/// A Unix path is absolute when it starts at the root.
pub open spec fn is_absolute(p: Seq<char>) -> bool {
    p.len() > 0 && p[0] == '/'
}

/// Whether a path is absolute (`Path::is_absolute` on Unix).
pub fn path_is_absolute(p: &str) -> (b: bool)
    ensures
        b == is_absolute(p@),
{
    let v = chars_of(p);
    v.len() > 0 && v[0] == '/'
}

pub open spec fn absolute_message(field: Seq<char>) -> Seq<char> {
    field + " must be an absolute path"@
}

/// Refuses a path that is not absolute, naming the field.
pub fn validate_absolute(field: &str, value: &str) -> (r: Result<(), DomainError>)
    ensures
        is_absolute(value@) ==> r is Ok,
        !is_absolute(value@) ==> fails_with(r, ErrorKind::InvalidInput, absolute_message(field@)),
{
    if !path_is_absolute(value) {
        return Err(DomainError::InvalidInput(concat2(field, " must be an absolute path")));
    }
    Ok(())
}

/// An optional text trimmed, with blank text treated as absent.
pub open spec fn trimmed_opt(o: Option<Seq<char>>) -> Option<Seq<char>> {
    match o {
        Some(s) => if trimmed(s).len() == 0 {
            None
        } else {
            Some(trimmed(s))
        },
        None => None,
    }
}

/// Trims an optional text; blank text becomes absent.
pub fn trim_optional(value: Option<String>) -> (r: Option<String>)
    ensures
        opt_text(r) == trimmed_opt(opt_text(value)),
{
    match value {
        Some(v) => {
            let t = trim(v.as_str());
            if is_blank(t.as_str()) {
                proof {
                    crate::text::lemma_trimmed_empty(t@);
                    assert(t@.len() == 0) by {
                        if t@.len() > 0 {
                            crate::text::lemma_trimmed_nonblank(v@);
                        }
                    }
                }
                None
            } else {
                Some(t)
            }
        },
        None => None,
    }
}

/// Why a registration is refused, if it is: the first failing rule, checked on the
/// trimmed fields.
pub open spec fn profile_rejection(
    name: Seq<char>,
    adapter: Seq<char>,
    program: Seq<char>,
    codex_home: Option<Seq<char>>,
    default_cwd: Option<Seq<char>>,
) -> Option<Seq<char>> {
    if name.len() == 0 {
        Some("launch profile name cannot be empty"@)
    } else if adapter != "codex_cli"@ {
        Some("unsupported launch adapter "@ + adapter)
    } else if !is_absolute(program) {
        Some(absolute_message("program"@))
    } else if codex_home matches Some(h) && !is_absolute(h) {
        Some(absolute_message("codex_home"@))
    } else if default_cwd matches Some(c) && !is_absolute(c) {
        Some(absolute_message("default_cwd"@))
    } else {
        None
    }
}

/// Normalizes a launch profile registration: text fields are trimmed, blank optional
/// fields become absent, only the `codex_cli` adapter is accepted, and every path must
/// be absolute. (The ledger then checks that the agent instance exists.)
pub fn normalize_launch_profile(input: RegisterLaunchProfile) -> (r: Result<
    RegisterLaunchProfile,
    DomainError,
>)
    ensures
        ({
            let name = trimmed(input.name@);
            let adapter = trimmed(input.adapter@);
            let program = trimmed(input.program@);
            let home = trimmed_opt(opt_text(input.codex_home));
            let cwd = trimmed_opt(opt_text(input.default_cwd));
            match profile_rejection(name, adapter, program, home, cwd) {
                Some(m) => fails_with(r, ErrorKind::InvalidInput, m),
                None => r matches Ok(p) && p.name@ == name && p.adapter@ == adapter
                    && p.program@ == program && opt_text(p.codex_home) == home && opt_text(
                    p.default_cwd,
                ) == cwd && opt_text(p.model) == trimmed_opt(opt_text(input.model))
                    && p.agent_instance_id == input.agent_instance_id && p.enabled
                    == input.enabled && p.metadata == input.metadata,
            }
        }),
{
    let name = trim(input.name.as_str());
    let adapter = trim(input.adapter.as_str());
    let program = trim(input.program.as_str());
    let codex_home = trim_optional(input.codex_home);
    let default_cwd = trim_optional(input.default_cwd);
    let model = trim_optional(input.model);
    if is_empty_text(name.as_str()) {
        return Err(DomainError::InvalidInput(owned("launch profile name cannot be empty")));
    }
    if !str_eq(adapter.as_str(), "codex_cli") {
        return Err(
            DomainError::InvalidInput(concat2("unsupported launch adapter ", adapter.as_str())),
        );
    }
    validate_absolute("program", program.as_str())?;
    if let Some(value) = &codex_home {
        validate_absolute("codex_home", value.as_str())?;
    }
    if let Some(value) = &default_cwd {
        validate_absolute("default_cwd", value.as_str())?;
    }
    Ok(RegisterLaunchProfile {
        name,
        adapter,
        agent_instance_id: input.agent_instance_id,
        program,
        codex_home,
        default_cwd,
        model,
        enabled: input.enabled,
        metadata: input.metadata,
    })
}

/// Whether a launch status is one of the ended statuses.
pub open spec fn is_terminal_status(s: Seq<char>) -> bool {
    s == "completed"@ || s == "failed"@ || s == "cancelled"@
}

/// Why an assignment cannot be launched with a profile, or the working directory
/// that the launch will use. Checks run in the ledger's order: the requested
/// directory's form, the assignment, the profile, then the directory contract.
pub open spec fn enqueue_outcome(
    requested_cwd: Option<Seq<char>>,
    assignment_id: Id,
    assignment: Option<Assignment>,
    profile_id: Id,
    profile: Option<LaunchProfile>,
    now: i64,
) -> Result<Seq<char>, (ErrorKind, Seq<char>)> {
    if requested_cwd matches Some(c) && !is_absolute(c) {
        Err((ErrorKind::InvalidInput, absolute_message("cwd"@)))
    } else {
        match assignment {
            None => Err((ErrorKind::NotFound, "assignment "@ + uuid_hyphenated(assignment_id))),
            Some(a) => if a.role@ != "executor"@ {
                Err((ErrorKind::Conflict, "only executor assignments can be launched"@))
            } else if a.status@ != "active"@ || a.expires_at <= now {
                Err((ErrorKind::Conflict, "assignment is not active"@))
            } else {
                match profile {
                    None => Err(
                        (ErrorKind::NotFound, "launch profile "@ + uuid_hyphenated(profile_id)),
                    ),
                    Some(p) => if !p.enabled {
                        Err((ErrorKind::Conflict, "launch profile is disabled"@))
                    } else if p.agent_instance_id != a.agent_instance_id {
                        Err(
                            (
                                ErrorKind::Conflict,
                                "launch profile belongs to another agent instance"@,
                            ),
                        )
                    } else {
                        match opt_text(p.default_cwd) {
                            None => Err(
                                (
                                    ErrorKind::InvalidInput,
                                    "launch profile must define an operator-controlled default_cwd"@,
                                ),
                            ),
                            Some(cwd) => if requested_cwd matches Some(req) && req != cwd {
                                Err(
                                    (
                                        ErrorKind::Conflict,
                                        "launch cwd override is outside the launch profile contract"@,
                                    ),
                                )
                            } else if !is_absolute(cwd) {
                                Err((ErrorKind::InvalidInput, absolute_message("cwd"@)))
                            } else {
                                Ok(cwd)
                            },
                        }
                    },
                }
            },
        }
    }
}

/// A launch is accepted only for an active, unexpired executor assignment and an
/// enabled launch profile of that assignment's own agent, and it always runs in the
/// profile's operator-controlled directory, which a request may only repeat.
pub proof fn law_enqueue_needs_a_live_executor_and_its_own_profile(
    requested_cwd: Option<Seq<char>>,
    assignment_id: Id,
    assignment: Option<Assignment>,
    profile_id: Id,
    profile: Option<LaunchProfile>,
    now: i64,
)
    ensures
        enqueue_outcome(requested_cwd, assignment_id, assignment, profile_id, profile, now) matches Ok(
            cwd,
        ) ==> {
            &&& assignment matches Some(a)
            &&& profile matches Some(p)
            &&& a.role@ == "executor"@
            &&& a.status@ == "active"@
            &&& now < a.expires_at
            &&& p.enabled
            &&& p.agent_instance_id == a.agent_instance_id
            &&& p.default_cwd matches Some(d) && d@ == cwd
            &&& (requested_cwd matches Some(req) ==> req == cwd)
        },
{
}

/// Decides whether the assignment may be launched with the profile (both as read by
/// the ledger, `None` when absent), and returns the working directory to use: the
/// profile's operator-controlled directory, which a request may only repeat.
pub fn check_enqueue(
    input: &EnqueueLaunch,
    assignment: Option<&Assignment>,
    profile: Option<&LaunchProfile>,
    now: i64,
) -> (r: Result<String, DomainError>)
    ensures
        text_outcome(
            r,
            enqueue_outcome(
                opt_text(input.cwd),
                input.assignment_id,
                match assignment {
                    Some(a) => Some(*a),
                    None => None,
                },
                input.launch_profile_id,
                match profile {
                    Some(p) => Some(*p),
                    None => None,
                },
                now,
            ),
        ),
        r is Ok ==> (assignment matches Some(a) && profile matches Some(p) && p.enabled
            && p.agent_instance_id == a.agent_instance_id && a.role@ == "executor"@ && a.status@
            == "active"@ && now < a.expires_at),
{
    proof {
        law_enqueue_needs_a_live_executor_and_its_own_profile(
            opt_text(input.cwd),
            input.assignment_id,
            match assignment {
                Some(a) => Some(*a),
                None => None,
            },
            input.launch_profile_id,
            match profile {
                Some(p) => Some(*p),
                None => None,
            },
            now,
        );
    }
    if let Some(cwd) = &input.cwd {
        validate_absolute("cwd", cwd.as_str())?;
    }
    let assignment = match assignment {
        Some(a) => a,
        None => {
            let id = id_text(input.assignment_id);
            return Err(DomainError::NotFound(concat2("assignment ", id.as_str())));
        },
    };
    if !str_eq(assignment.role.as_str(), "executor") {
        return Err(DomainError::Conflict(owned("only executor assignments can be launched")));
    }
    if !str_eq(assignment.status.as_str(), "active") || assignment.expires_at <= now {
        return Err(DomainError::Conflict(owned("assignment is not active")));
    }
    let profile = match profile {
        Some(p) => p,
        None => {
            let id = id_text(input.launch_profile_id);
            return Err(DomainError::NotFound(concat2("launch profile ", id.as_str())));
        },
    };
    if !profile.enabled {
        return Err(DomainError::Conflict(owned("launch profile is disabled")));
    }
    if profile.agent_instance_id != assignment.agent_instance_id {
        return Err(
            DomainError::Conflict(owned("launch profile belongs to another agent instance")),
        );
    }
    let cwd = match &profile.default_cwd {
        Some(c) => c.clone(),
        None => {
            return Err(
                DomainError::InvalidInput(
                    owned("launch profile must define an operator-controlled default_cwd"),
                ),
            );
        },
    };
    if let Some(requested) = &input.cwd {
        if !str_eq(requested.as_str(), cwd.as_str()) {
            return Err(
                DomainError::Conflict(
                    owned("launch cwd override is outside the launch profile contract"),
                ),
            );
        }
    }
    validate_absolute("cwd", cwd.as_str())?;
    Ok(cwd)
}

/// The last checks before a launch is queued: the directory must exist, and the
/// assignment may have at most one queued, starting or running attempt.
pub fn check_launch_target(cwd: &str, cwd_is_dir: bool, already_active: bool) -> (r: Result<
    (),
    DomainError,
>)
    ensures
        check_outcome(
            r,
            if !cwd_is_dir {
                Some(
                    (ErrorKind::InvalidInput, "launch cwd does not exist or is not a directory: "@
                        + cwd@),
                )
            } else if already_active {
                Some((ErrorKind::Conflict, "assignment already has an active launch attempt"@))
            } else {
                None
            },
        ),
{
    if !cwd_is_dir {
        return Err(
            DomainError::InvalidInput(
                concat2("launch cwd does not exist or is not a directory: ", cwd),
            ),
        );
    }
    if already_active {
        return Err(DomainError::Conflict(owned("assignment already has an active launch attempt")));
    }
    Ok(())
}

/// The queued attempt that the ledger inserts for an accepted launch.
pub fn queued_attempt(
    attempt_id: Id,
    job_id: Id,
    assignment: &Assignment,
    launch_profile_id: Id,
    cwd: String,
    now: i64,
) -> (a: LaunchAttempt)
    ensures
        a.id == attempt_id,
        a.assignment_id == assignment.id,
        a.task_id == assignment.task_id,
        a.agent_instance_id == assignment.agent_instance_id,
        a.launch_profile_id == launch_profile_id,
        a.run_id is None,
        a.job_id == Some(job_id),
        a.status@ == "queued"@,
        a.cwd == Some(cwd),
        a.external_session_ref is None,
        a.pid is None,
        a.exit_code is None,
        a.stdout_path is None,
        a.stderr_path is None,
        a.error is None,
        a.created_at == now,
        a.started_at is None,
        a.ended_at is None,
{
    LaunchAttempt {
        id: attempt_id,
        assignment_id: assignment.id,
        task_id: assignment.task_id,
        agent_instance_id: assignment.agent_instance_id,
        launch_profile_id,
        run_id: None,
        job_id: Some(job_id),
        status: owned("queued"),
        cwd: Some(cwd),
        external_session_ref: None,
        pid: None,
        exit_code: None,
        stdout_path: None,
        stderr_path: None,
        error: None,
        created_at: now,
        started_at: None,
        ended_at: None,
    }
}

/// Why a queued attempt cannot start now, if it cannot.
pub open spec fn begin_rejection(
    attempt: LaunchAttempt,
    assignment: Option<Assignment>,
    profile: Option<LaunchProfile>,
    run_active: bool,
    now: i64,
) -> Option<(ErrorKind, Seq<char>)> {
    if attempt.status@ != "queued"@ {
        Some((ErrorKind::Conflict, "launch attempt is "@ + attempt.status@))
    } else {
        match assignment {
            None => Some((ErrorKind::NotFound, "assignment"@)),
            Some(a) => if a.status@ != "active"@ || a.expires_at <= now {
                Some((ErrorKind::Conflict, "assignment is not active"@))
            } else if a.agent_instance_id != attempt.agent_instance_id {
                Some((ErrorKind::Conflict, "launch attempt agent mismatch"@))
            } else {
                match profile {
                    None => Some((ErrorKind::NotFound, "launch profile"@)),
                    Some(p) => if !p.enabled {
                        Some((ErrorKind::Conflict, "launch profile is disabled"@))
                    } else if p.agent_instance_id != a.agent_instance_id {
                        Some((ErrorKind::Conflict, "launch profile agent mismatch"@))
                    } else if run_active {
                        Some((ErrorKind::Conflict, "assignment already has an active run"@))
                    } else {
                        None
                    },
                }
            },
        }
    }
}

/// Decides whether a claimed attempt may start: it must still be queued, its
/// assignment live and its own, its profile enabled and the agent's, and the
/// assignment must not already have a running or paused run.
pub fn check_begin(
    attempt: &LaunchAttempt,
    assignment: Option<&Assignment>,
    profile: Option<&LaunchProfile>,
    run_active: bool,
    now: i64,
) -> (r: Result<(), DomainError>)
    ensures
        check_outcome(
            r,
            begin_rejection(
                *attempt,
                match assignment {
                    Some(a) => Some(*a),
                    None => None,
                },
                match profile {
                    Some(p) => Some(*p),
                    None => None,
                },
                run_active,
                now,
            ),
        ),
        next_launch_status(LaunchStep::Begin, attempt.status@, false) is None ==> r is Err,
{
    if !str_eq(attempt.status.as_str(), "queued") {
        return Err(DomainError::Conflict(concat2("launch attempt is ", attempt.status.as_str())));
    }
    let assignment = match assignment {
        Some(a) => a,
        None => {
            return Err(DomainError::NotFound(owned("assignment")));
        },
    };
    if !str_eq(assignment.status.as_str(), "active") || assignment.expires_at <= now {
        return Err(DomainError::Conflict(owned("assignment is not active")));
    }
    if assignment.agent_instance_id != attempt.agent_instance_id {
        return Err(DomainError::Conflict(owned("launch attempt agent mismatch")));
    }
    let profile = match profile {
        Some(p) => p,
        None => {
            return Err(DomainError::NotFound(owned("launch profile")));
        },
    };
    if !profile.enabled {
        return Err(DomainError::Conflict(owned("launch profile is disabled")));
    }
    if profile.agent_instance_id != assignment.agent_instance_id {
        return Err(DomainError::Conflict(owned("launch profile agent mismatch")));
    }
    if run_active {
        return Err(DomainError::Conflict(owned("assignment already has an active run")));
    }
    Ok(())
}

/// The run that starts with an attempt, and the attempt moved to `starting`.
pub fn start_attempt(attempt: LaunchAttempt, assignment: &Assignment, run_id: Id, now: i64) -> (r: (
    LaunchAttempt,
    Run,
))
    ensures
        r.0.status@ == "starting"@,
        attempt.status@ == "queued"@ ==> Some(r.0.status@) == next_launch_status(
            LaunchStep::Begin,
            attempt.status@,
            false,
        ),
        r.0.run_id == Some(run_id),
        r.0.started_at == Some(now),
        same_attempt_except_start(attempt, r.0),
        r.1.id == run_id,
        r.1.task_id == assignment.task_id,
        r.1.assignment_id == assignment.id,
        r.1.agent_instance_id == assignment.agent_instance_id,
        r.1.status@ == "running"@,
        r.1.started_at == now,
        r.1.external_session_ref is None,
        r.1.stop_reason is None,
        r.1.failure_reason is None,
        r.1.checkpoint is None,
        r.1.result is None,
        r.1.ended_at is None,
        r.1.context_revision_id is None,
{
    let run = Run {
        id: run_id,
        task_id: assignment.task_id,
        assignment_id: assignment.id,
        agent_instance_id: assignment.agent_instance_id,
        external_session_ref: None,
        status: owned("running"),
        stop_reason: None,
        failure_reason: None,
        checkpoint: None,
        result: None,
        started_at: now,
        ended_at: None,
        context_revision_id: None,
    };
    let started = LaunchAttempt {
        status: owned("starting"),
        run_id: Some(run_id),
        started_at: Some(now),
        ..attempt
    };
    (started, run)
}

pub open spec fn same_attempt_except_start(a: LaunchAttempt, b: LaunchAttempt) -> bool {
    &&& b.id == a.id && b.assignment_id == a.assignment_id && b.task_id == a.task_id
    &&& b.agent_instance_id == a.agent_instance_id && b.launch_profile_id == a.launch_profile_id
    &&& b.job_id == a.job_id && b.cwd == a.cwd && b.external_session_ref == a.external_session_ref
    &&& b.pid == a.pid && b.exit_code == a.exit_code && b.stdout_path == a.stdout_path
    &&& b.stderr_path == a.stderr_path && b.error == a.error && b.created_at == a.created_at
    &&& b.ended_at == a.ended_at
}

/// Records that the executor process is running: only a starting attempt may do so
/// (a cancelled or otherwise moved attempt fences the process out).
pub fn mark_running(
    attempt: LaunchAttempt,
    pid: Option<i64>,
    stdout_path: String,
    stderr_path: String,
) -> (r: Result<LaunchAttempt, DomainError>)
    ensures
        attempt.status@ != "starting"@ ==> fails_with(
            r,
            ErrorKind::Conflict,
            "launch attempt is "@ + attempt.status@,
        ),
        attempt.status@ == "starting"@ ==> (r matches Ok(b) && b.status@ == "running"@ && b.pid
            == pid && b.stdout_path == Some(stdout_path) && b.stderr_path == Some(stderr_path)
            && b.id == attempt.id && b.assignment_id == attempt.assignment_id && b.task_id
            == attempt.task_id && b.agent_instance_id == attempt.agent_instance_id
            && b.launch_profile_id == attempt.launch_profile_id && b.run_id == attempt.run_id
            && b.job_id == attempt.job_id && b.cwd == attempt.cwd && b.external_session_ref
            == attempt.external_session_ref && b.exit_code == attempt.exit_code && b.error
            == attempt.error && b.created_at == attempt.created_at && b.started_at
            == attempt.started_at && b.ended_at == attempt.ended_at),
        match next_launch_status(LaunchStep::MarkRunning, attempt.status@, false) {
            Some(t) => r matches Ok(b) && b.status@ == t,
            None => r is Err,
        },
{
    if !str_eq(attempt.status.as_str(), "starting") {
        return Err(DomainError::Conflict(concat2("launch attempt is ", attempt.status.as_str())));
    }
    Ok(
        LaunchAttempt {
            status: owned("running"),
            pid,
            stdout_path: Some(stdout_path),
            stderr_path: Some(stderr_path),
            ..attempt
        },
    )
}

/// How a live run is stopped when its executor process ends.
pub struct RunStop {
    /// `paused` after a clean exit (the run may be resumed), `failed` otherwise.
    pub status: String,
    pub stop_reason: String,
}

/// What the ledger writes when an executor process ends.
pub struct FinishPlan {
    /// The attempt had already ended; nothing is written.
    pub unchanged: bool,
    /// The process exited with status 0 and no error was reported.
    pub success: bool,
    /// The attempt as it is stored afterwards.
    pub attempt: LaunchAttempt,
    /// The new status of the attempt's job, when it has one.
    pub job_status: Option<String>,
    /// The provider session reference written to the attempt's run, when the process
    /// reported one and the attempt has a run.
    pub run_session_ref: Option<String>,
    /// How the attempt's run is stopped, when the run was still running or paused.
    pub run_stop: Option<RunStop>,
    /// Why the assignment is released, when it is.
    pub release_reason: Option<String>,
    /// The task event that records the end of the launch.
    pub event_type: String,
}

/// Whether a process end counts as success.
pub open spec fn finish_success(exit_code: Option<i64>, error: Option<String>) -> bool {
    exit_code == Some(0i64) && error is None
}

/// The stop reason of a run whose process ended.
pub open spec fn stop_reason_text(success: bool, exit_code: Option<i64>, error: Option<String>) -> Seq<
    char,
> {
    if success {
        "launcher_process_exited_without_completion"@
    } else {
        match error {
            Some(e) => e@,
            None => "launcher_exit_"@ + signed_decimal(
                match exit_code {
                    Some(c) => c as int,
                    None => -1,
                },
            ),
        }
    }
}

/// Whether a run status is live (the run has not ended).
pub open spec fn run_is_live(status: Option<Seq<char>>) -> bool {
    status == Some("running"@) || status == Some("paused"@)
}

/// Decides how an ending executor process is recorded. `run_status` is the status of
/// the attempt's run, when it has one. A repeated finish of an ended attempt writes
/// nothing; otherwise the attempt ends `completed` or `failed`, its job ends with it,
/// a live run is paused (clean exit) or failed, and the assignment is released
/// whenever the run stopped or the launch failed before a run existed.
pub fn plan_finish(
    attempt: LaunchAttempt,
    exit_code: Option<i64>,
    external_session_ref: Option<String>,
    error: Option<String>,
    run_status: Option<String>,
    now: i64,
) -> (p: FinishPlan)
    ensures
        p.unchanged == is_terminal_status(attempt.status@),
        p.unchanged ==> p.attempt == attempt && p.job_status is None && p.run_stop is None
            && p.release_reason is None && p.run_session_ref is None,
        Some(p.attempt.status@) == next_launch_status(
            LaunchStep::Finish,
            attempt.status@,
            finish_success(exit_code, error),
        ),
        !p.unchanged ==> ({
            let success = finish_success(exit_code, error);
            let live = attempt.run_id is Some && run_is_live(opt_text(run_status));
            &&& p.success == success
            &&& p.attempt.status@ == (if success {
                "completed"@
            } else {
                "failed"@
            })
            &&& p.attempt.external_session_ref == (if external_session_ref is Some {
                external_session_ref
            } else {
                attempt.external_session_ref
            })
            &&& p.run_session_ref == (if attempt.run_id is Some {
                external_session_ref
            } else {
                None
            })
            &&& p.attempt.exit_code == exit_code && p.attempt.error == error
            &&& p.attempt.ended_at == Some(now)
            &&& p.attempt.id == attempt.id && p.attempt.assignment_id == attempt.assignment_id
            &&& p.attempt.task_id == attempt.task_id && p.attempt.run_id == attempt.run_id
            &&& p.attempt.agent_instance_id == attempt.agent_instance_id
            &&& p.attempt.launch_profile_id == attempt.launch_profile_id
            &&& p.attempt.job_id == attempt.job_id && p.attempt.cwd == attempt.cwd
            &&& p.attempt.pid == attempt.pid && p.attempt.stdout_path == attempt.stdout_path
            &&& p.attempt.stderr_path == attempt.stderr_path
            &&& p.attempt.created_at == attempt.created_at
            &&& p.attempt.started_at == attempt.started_at
            &&& opt_text(p.job_status) == (if attempt.job_id is Some {
                Some(
                    if success {
                        "done"@
                    } else {
                        "failed"@
                    },
                )
            } else {
                None
            })
            &&& (live ==> (p.run_stop matches Some(stop) && stop.status@ == (if success {
                "paused"@
            } else {
                "failed"@
            }) && stop.stop_reason@ == stop_reason_text(success, exit_code, error)))
            &&& (!live ==> p.run_stop is None)
            &&& opt_text(p.release_reason) == (if live {
                Some(
                    if success {
                        "launcher_process_exited"@
                    } else {
                        "launcher_failed"@
                    },
                )
            } else if attempt.run_id is None && !success {
                Some("launcher_failed_before_run"@)
            } else {
                None
            })
            &&& p.event_type@ == (if success {
                "launch.completed"@
            } else {
                "launch.failed"@
            })
        }),
{
    let status = attempt.status.as_str();
    if str_eq(status, "completed") || str_eq(status, "failed") || str_eq(status, "cancelled") {
        return FinishPlan {
            unchanged: true,
            success: false,
            attempt,
            job_status: None,
            run_session_ref: None,
            run_stop: None,
            release_reason: None,
            event_type: owned("launch.unchanged"),
        };
    }
    let success = exit_code == Some(0i64) && error.is_none();
    let job_status = if attempt.job_id.is_some() {
        Some(owned(if success { "done" } else { "failed" }))
    } else {
        None
    };
    let live = attempt.run_id.is_some() && match &run_status {
        Some(s) => str_eq(s.as_str(), "running") || str_eq(s.as_str(), "paused"),
        None => false,
    };
    let (run_stop, release_reason) = if live {
        let stop_reason = if success {
            owned("launcher_process_exited_without_completion")
        } else {
            match &error {
                Some(e) => e.clone(),
                None => {
                    let code = match exit_code {
                        Some(c) => c,
                        None => -1,
                    };
                    let digits = i64_text(code);
                    concat2("launcher_exit_", digits.as_str())
                },
            }
        };
        (
            Some(RunStop { status: owned(if success { "paused" } else { "failed" }), stop_reason }),
            Some(owned(if success { "launcher_process_exited" } else { "launcher_failed" })),
        )
    } else if attempt.run_id.is_none() && !success {
        (None, Some(owned("launcher_failed_before_run")))
    } else {
        (None, None)
    };
    let run_session_ref = if attempt.run_id.is_some() {
        clone_opt(&external_session_ref)
    } else {
        None
    };
    let external = if external_session_ref.is_some() {
        external_session_ref
    } else {
        clone_opt(&attempt.external_session_ref)
    };
    let ended = LaunchAttempt {
        status: owned(if success { "completed" } else { "failed" }),
        external_session_ref: external,
        exit_code,
        error: clone_opt(&error),
        ended_at: Some(now),
        ..attempt
    };
    FinishPlan {
        unchanged: false,
        success,
        attempt: ended,
        job_status,
        run_session_ref,
        run_stop,
        release_reason,
        event_type: owned(if success { "launch.completed" } else { "launch.failed" }),
    }
}

/// What releasing a launcher-held assignment changes.
pub struct ReleasePlan {
    /// The assignment moves from `active` to `released`.
    pub released: bool,
    /// The task goes back to `ready` for another executor.
    pub task_to_ready: bool,
}

/// Releases an assignment that a launcher held: only an active assignment is
/// released, and an executor's in-progress task becomes ready again.
pub fn plan_release(assignment_status: &str, role: Option<&str>, task_state: TaskState) -> (p:
    ReleasePlan)
    ensures
        p.released == (assignment_status@ == "active"@),
        p.task_to_ready == (p.released && role.is_some() && role.unwrap()@ == "executor"@
            && task_state == TaskState::InProgress),
{
    let released = str_eq(assignment_status, "active");
    let executor = match role {
        Some(r) => str_eq(r, "executor"),
        None => false,
    };
    ReleasePlan { released, task_to_ready: released && executor && task_state == TaskState::InProgress }
}

/// The ledger's steps on an attempt.
pub enum LaunchStep {
    Begin,
    MarkRunning,
    Finish,
}

/// The status an attempt has after a step, or `None` when the step is refused.
pub open spec fn next_launch_status(step: LaunchStep, status: Seq<char>, success: bool) -> Option<
    Seq<char>,
> {
    match step {
        LaunchStep::Begin => if status == "queued"@ {
            Some("starting"@)
        } else {
            None
        },
        LaunchStep::MarkRunning => if status == "starting"@ {
            Some("running"@)
        } else {
            None
        },
        LaunchStep::Finish => if is_terminal_status(status) {
            Some(status)
        } else if success {
            Some("completed"@)
        } else {
            Some("failed"@)
        },
    }
}

/// How far along its life an attempt is.
pub open spec fn launch_rank(status: Seq<char>) -> int {
    if status == "queued"@ {
        0
    } else if status == "starting"@ {
        1
    } else if status == "running"@ {
        2
    } else {
        3
    }
}

/// An attempt never moves backwards: every accepted step keeps or raises its rank,
/// and an ended attempt stays exactly as it ended.
pub proof fn law_launch_status_never_regresses(step: LaunchStep, status: Seq<char>, success: bool)
    ensures
        next_launch_status(step, status, success) matches Some(t) ==> launch_rank(t) >= launch_rank(
            status,
        ),
        is_terminal_status(status) ==> (next_launch_status(step, status, success) is None
            || next_launch_status(step, status, success) == Some(status)),
{
    reveal_strlit("queued");
    reveal_strlit("starting");
    reveal_strlit("running");
    reveal_strlit("completed");
    reveal_strlit("failed");
    reveal_strlit("cancelled");
    assert("queued"@.len() == 6 && "starting"@.len() == 8 && "running"@.len() == 7);
    assert("completed"@.len() == 9 && "failed"@.len() == 6 && "cancelled"@.len() == 9);
    assert("failed"@[0] != "queued"@[0]);
    match step {
        LaunchStep::Begin => {},
        LaunchStep::MarkRunning => {},
        LaunchStep::Finish => {},
    }
}

} // verus!
