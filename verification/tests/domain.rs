use morrows::collab::{plan_context_package, rest_actor, ContextPackageInput, PackageRequest};
use morrows::domain::{DomainError, Page, TaskState};
use morrows::ids::{authenticated_agent, id_text, parse_id, HeaderText};
use morrows::run_control::{
    check_direct_stop, check_instruction_target, check_lsm_configured, check_restartable,
    cleanup_next, external_launch_agent, job_machine, restart_needs_provisioning, CleanupAction,
    CleanupEvent,
};
use morrows::text::{string_from, trim, u64_text};

const A: &str = "67e55044-10b1-426f-9247-bb680e5fe0c8";

fn id(text: &str) -> u128 {
    uuid::Uuid::parse_str(text).unwrap().as_u128()
}

fn input(objective: Option<&str>, assemble: Option<bool>, agent: Option<u128>) -> ContextPackageInput {
    ContextPackageInput {
        objective: objective.map(|o| o.to_string()),
        summary: None,
        context_snapshot_id: None,
        memory_refs: vec!["m".into()],
        decision_refs: vec![],
        artifact_refs: vec![],
        changed_files: vec![],
        verified_results: vec![],
        blockers: vec![],
        unresolved_questions: vec![],
        next_action: None,
        source_run_id: Some(6),
        source_agent_id: agent,
        assemble,
    }
}

#[test]
fn task_states_round_trip() {
    for s in ["backlog", "ready", "in_progress", "review", "blocked", "done", "cancelled"] {
        assert_eq!(TaskState::parse(s).unwrap().as_text(), s);
    }
    assert_eq!(TaskState::parse("Done").unwrap_err().message(), "invalid state: Done");
}

#[test]
fn domain_errors_render_and_map_to_status() {
    let cases = [
        (DomainError::NotFound("task".into()), "not found: task", 404),
        (DomainError::Conflict("c".into()), "conflict: c", 409),
        (DomainError::InvalidState("s".into()), "invalid state: s", 400),
        (DomainError::InvalidInput("i".into()), "invalid input: i", 400),
        (DomainError::Storage("d".into()), "storage error: d", 500),
    ];
    for (e, text, status) in cases {
        assert_eq!(e.message(), text);
        assert_eq!(e.status_code(), status);
    }
}

#[test]
fn pages_keep_one_extra_row_for_continuation() {
    let p = Page::from_extra_row(vec![1, 2, 3], 2, 10);
    assert_eq!(p.items, vec![1, 2]);
    assert_eq!(p.next_offset, Some(12));
    let p = Page::from_extra_row(vec![1, 2], 2, 10);
    assert_eq!(p.items, vec![1, 2]);
    assert_eq!(p.next_offset, None);
}

#[test]
fn identifiers_and_headers() {
    assert_eq!(id_text(id(A)), A);
    assert_eq!(parse_id(A), Ok(id(A)));
    assert_eq!(parse_id(&A.to_uppercase()), Ok(id(A)));
    assert_eq!(parse_id("x"), Err("invalid UUID: x".to_string()));
    assert_eq!(
        authenticated_agent(&HeaderText::Missing),
        Err("missing X-Agent-Instance-Id header".to_string())
    );
    assert_eq!(
        authenticated_agent(&HeaderText::Opaque),
        Err("invalid X-Agent-Instance-Id header".to_string())
    );
    assert_eq!(authenticated_agent(&HeaderText::Text(A.into())), Ok(id(A)));
    assert_eq!(rest_actor(&HeaderText::Text(A.into())).unwrap(), id(A));
    assert_eq!(
        rest_actor(&HeaderText::Missing).unwrap_err().message(),
        "invalid input: valid X-Agent-Instance-Id required"
    );
}

#[test]
fn text_helpers() {
    assert_eq!(trim("\u{3000} a b \n"), "a b");
    assert_eq!(u64_text(0), "0");
    assert_eq!(u64_text(18446744073709551615), "18446744073709551615");
    assert_eq!(string_from(&vec!['h', 'é']), "hé");
}

#[test]
fn context_packages_are_assembled_or_written() {
    match plan_context_package(input(None, None, None), 1, Some(7)) {
        PackageRequest::Assemble { source_run_id, agent_id } => {
            assert_eq!((source_run_id, agent_id), (Some(6), Some(7)));
        }
        PackageRequest::Create(_) => panic!("expected assembly"),
    }
    match plan_context_package(input(Some("ship"), Some(true), Some(8)), 1, Some(7)) {
        PackageRequest::Assemble { agent_id, .. } => assert_eq!(agent_id, Some(8)),
        PackageRequest::Create(_) => panic!("expected assembly"),
    }
    match plan_context_package(input(Some("ship"), Some(false), None), 1, None) {
        PackageRequest::Create(p) => {
            assert_eq!(p.work_item_id, 1);
            assert_eq!(p.objective, "ship");
            assert_eq!(p.memory_refs, vec!["m"]);
            assert_eq!(p.next_action, "");
            assert_eq!(p.source_agent_id, None);
        }
        PackageRequest::Assemble { .. } => panic!("expected creation"),
    }
}

#[test]
fn run_control_rules() {
    assert!(check_restartable("interrupted").is_ok());
    assert_eq!(check_restartable("running").unwrap_err().message(), "conflict: Run is running");
    assert!(restart_needs_provisioning(false, true));
    assert!(!restart_needs_provisioning(true, true));
    assert_eq!(
        check_lsm_configured(false).unwrap_err().message(),
        "conflict: LSM control is not configured"
    );
    assert_eq!(
        check_direct_stop(true).unwrap_err().message(),
        "conflict: LSM-bound Runs must be cancelled through /runs/{id}/cancel"
    );
    assert!(check_direct_stop(false).is_ok());
    assert_eq!(job_machine(None), "local");
    assert_eq!(job_machine(Some("gpu")), "gpu");
    assert_eq!(check_instruction_target(1, 2).unwrap_err().message(), "invalid input: attempt id mismatch");
    assert_eq!(external_launch_agent(&HeaderText::Text(A.into())).unwrap(), id(A));
    assert_eq!(
        external_launch_agent(&HeaderText::Text("no".into())).unwrap_err().message(),
        "invalid input: X-Agent-Instance-Id required"
    );
}

#[test]
fn session_cleanup_waits_for_the_lsm() {
    assert!(cleanup_next(&CleanupEvent::ActiveAttempt(Some(false))) == CleanupAction::ReadBinding);
    assert!(cleanup_next(&CleanupEvent::ActiveAttempt(None)) == CleanupAction::Later);
    assert!(cleanup_next(&CleanupEvent::ActiveAttempt(Some(true))) == CleanupAction::Later);
    assert!(cleanup_next(&CleanupEvent::Binding(true)) == CleanupAction::Revoke);
    assert!(cleanup_next(&CleanupEvent::Revoked(false)) == CleanupAction::Later);
    assert!(cleanup_next(&CleanupEvent::Revoked(true)) == CleanupAction::CleanUp);
    assert!(cleanup_next(&CleanupEvent::CleanedUp(Some(true))) == CleanupAction::Record);
    assert!(cleanup_next(&CleanupEvent::CleanedUp(Some(false))) == CleanupAction::Later);
    assert!(cleanup_next(&CleanupEvent::CleanedUp(None)) == CleanupAction::Later);
}
