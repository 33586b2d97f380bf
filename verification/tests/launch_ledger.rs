use morrows::domain::{DomainError, TaskState};
use morrows::json::Json;
use morrows::launch::{
    check_enqueue, normalize_launch_profile, plan_finish, plan_release, EnqueueLaunch,
    LaunchAttempt, LaunchProfile, RegisterLaunchProfile,
};
use morrows::records::Assignment;

fn attempt(status: &str, run: Option<u128>, job: Option<u128>) -> LaunchAttempt {
    LaunchAttempt {
        id: 1,
        assignment_id: 2,
        task_id: 3,
        agent_instance_id: 4,
        launch_profile_id: 5,
        run_id: run,
        job_id: job,
        status: status.into(),
        cwd: Some("/w".into()),
        external_session_ref: Some("old".into()),
        pid: None,
        exit_code: None,
        stdout_path: None,
        stderr_path: None,
        error: None,
        created_at: 0,
        started_at: None,
        ended_at: None,
    }
}

fn assignment(role: &str, status: &str, expires_at: i64) -> Assignment {
    Assignment {
        id: 2,
        task_id: 3,
        role: role.into(),
        agent_instance_id: 4,
        status: status.into(),
        acquired_at: 0,
        expires_at,
        renewed_at: 0,
    }
}

fn profile(enabled: bool, agent: u128, cwd: Option<&str>) -> LaunchProfile {
    LaunchProfile {
        id: 5,
        name: "p".into(),
        adapter: "codex_cli".into(),
        agent_instance_id: agent,
        program: "/bin/codex".into(),
        codex_home: None,
        default_cwd: cwd.map(|c| c.to_string()),
        model: None,
        enabled,
        metadata: Json::Null,
        created_at: 0,
        updated_at: 0,
    }
}

fn message(e: DomainError) -> String {
    e.message()
}

#[test]
fn fake_nonzero_exit_fails_the_run_and_releases_the_assignment() {
    let plan = plan_finish(attempt("running", Some(9), Some(8)), Some(7), None, None, Some("running".into()), 100);
    assert!(!plan.unchanged && !plan.success);
    assert_eq!(plan.attempt.status, "failed");
    assert_eq!(plan.attempt.exit_code, Some(7));
    assert_eq!(plan.attempt.external_session_ref.as_deref(), Some("old"));
    assert_eq!(plan.run_session_ref, None);
    assert_eq!(plan.job_status.as_deref(), Some("failed"));
    let stop = plan.run_stop.unwrap();
    assert_eq!((stop.status.as_str(), stop.stop_reason.as_str()), ("failed", "launcher_exit_7"));
    assert_eq!(plan.release_reason.as_deref(), Some("launcher_failed"));
    assert_eq!(plan.event_type, "launch.failed");
}

#[test]
fn clean_exit_without_completion_pauses_the_run() {
    let plan = plan_finish(attempt("running", Some(9), None), Some(0), Some("th-1".into()), None, Some("running".into()), 100);
    assert!(plan.success);
    assert_eq!(plan.attempt.status, "completed");
    assert_eq!(plan.attempt.external_session_ref.as_deref(), Some("th-1"));
    assert_eq!(plan.run_session_ref.as_deref(), Some("th-1"));
    assert_eq!(plan.job_status, None);
    let stop = plan.run_stop.unwrap();
    assert_eq!(
        (stop.status.as_str(), stop.stop_reason.as_str()),
        ("paused", "launcher_process_exited_without_completion")
    );
    assert_eq!(plan.release_reason.as_deref(), Some("launcher_process_exited"));
}

#[test]
fn finishing_twice_changes_nothing_and_early_failures_release() {
    let plan = plan_finish(attempt("completed", Some(9), None), Some(1), None, None, None, 5);
    assert!(plan.unchanged);
    let plan = plan_finish(attempt("starting", None, None), None, None, Some("boom".into()), None, 5);
    assert_eq!(plan.release_reason.as_deref(), Some("launcher_failed_before_run"));
    let plan = plan_finish(attempt("starting", None, None), Some(0), Some("th-2".into()), None, None, 5);
    assert_eq!(plan.attempt.external_session_ref.as_deref(), Some("th-2"));
    assert_eq!(plan.run_session_ref, None);
    assert!(plan.run_stop.is_none());
    let r = plan_release("active", Some("executor"), TaskState::InProgress);
    assert!(r.released && r.task_to_ready);
    let r = plan_release("released", Some("executor"), TaskState::InProgress);
    assert!(!r.released && !r.task_to_ready);
}

#[test]
fn enqueue_rules() {
    let input = EnqueueLaunch { assignment_id: 2, launch_profile_id: 5, cwd: None };
    let a = assignment("executor", "active", 1000);
    assert_eq!(check_enqueue(&input, Some(&a), Some(&profile(true, 4, Some("/w"))), 10).unwrap(), "/w");
    assert_eq!(
        message(check_enqueue(&input, Some(&a), Some(&profile(false, 4, Some("/w"))), 10).unwrap_err()),
        "conflict: launch profile is disabled"
    );
    assert_eq!(
        message(check_enqueue(&input, Some(&assignment("planner", "active", 1000)), None, 10).unwrap_err()),
        "conflict: only executor assignments can be launched"
    );
    assert_eq!(
        message(check_enqueue(&input, Some(&a), Some(&profile(true, 4, None)), 10).unwrap_err()),
        "invalid input: launch profile must define an operator-controlled default_cwd"
    );
    let other = EnqueueLaunch { assignment_id: 2, launch_profile_id: 5, cwd: Some("/elsewhere".into()) };
    assert_eq!(
        message(check_enqueue(&other, Some(&a), Some(&profile(true, 4, Some("/w"))), 10).unwrap_err()),
        "conflict: launch cwd override is outside the launch profile contract"
    );
    assert_eq!(
        message(check_enqueue(&input, Some(&assignment("executor", "active", 5)), None, 10).unwrap_err()),
        "conflict: assignment is not active"
    );
}

#[test]
fn launch_profiles_are_normalized() {
    let input = RegisterLaunchProfile {
        name: "  codex ".into(),
        adapter: " codex_cli ".into(),
        agent_instance_id: 4,
        program: " /bin/codex ".into(),
        codex_home: Some("  ".into()),
        default_cwd: Some(" /w ".into()),
        model: Some(" m ".into()),
        enabled: true,
        metadata: Json::Null,
    };
    let p = normalize_launch_profile(input).unwrap();
    assert_eq!(p.name, "codex");
    assert_eq!(p.program, "/bin/codex");
    assert_eq!(p.codex_home, None);
    assert_eq!(p.default_cwd.as_deref(), Some("/w"));
    assert_eq!(p.model.as_deref(), Some("m"));
    let bad = RegisterLaunchProfile {
        name: "x".into(),
        adapter: "codex_cli".into(),
        agent_instance_id: 4,
        program: "codex".into(),
        codex_home: None,
        default_cwd: None,
        model: None,
        enabled: true,
        metadata: Json::Null,
    };
    assert_eq!(
        message(normalize_launch_profile(bad).err().unwrap()),
        "invalid input: program must be an absolute path"
    );
}
