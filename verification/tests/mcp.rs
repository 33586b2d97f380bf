use morrows::mcp::package_ref;
use morrows::company_mcp::{company_task_owner, context_revision_actor};
use morrows::domain::TaskState;
use morrows::ids::HeaderText;
use morrows::json::Json;
use morrows::mcp::{
    acceptance_criteria_paths, agent_actor, check_revision_task, check_session_owner,
    check_thread_in_task, empty_reason, filter_scope_label, inbox_limit, missing_context,
    revision_constraints, selected_revision, task_list_filter, task_write_access, tool_actor,
    write_access_refusal, PageRequest, TaskListRequest, TaskListScope, WriteAccess,
};
use morrows::records::ContextRevision;

const A: &str = "67e55044-10b1-426f-9247-bb680e5fe0c8";

fn id(text: &str) -> u128 {
    uuid::Uuid::parse_str(text).unwrap().as_u128()
}

fn request(scope: TaskListScope, agent: Option<&str>, state: Option<&str>) -> TaskListRequest {
    TaskListRequest {
        scope,
        agent_instance_id: agent.map(|s| s.to_string()),
        project_id: None,
        state: state.map(|s| s.to_string()),
        include_completed: false,
        page: PageRequest::first_page(),
    }
}

fn obj(entries: Vec<(&str, Json)>) -> Json {
    Json::Object(entries.into_iter().map(|(k, v)| (k.to_string(), v)).collect())
}

#[test]
fn task_list_defaults_to_the_callers_assigned_work() {
    let caller = id(A);
    let f = task_list_filter(&request(TaskListScope::Assigned, None, None), caller).unwrap();
    assert_eq!(f.agent_instance_id, Some(caller));
    assert_eq!(filter_scope_label(&f), "assigned");
    let other = "00000000-0000-0000-0000-000000000002";
    let f = task_list_filter(&request(TaskListScope::Assigned, Some(other), Some("review")), caller)
        .unwrap();
    assert_eq!(f.agent_instance_id, Some(2));
    assert!(f.state == Some(TaskState::Review));
    let f = task_list_filter(&request(TaskListScope::All, None, None), caller).unwrap();
    assert_eq!(f.agent_instance_id, None);
    assert_eq!(filter_scope_label(&f), "all");
}

#[test]
fn task_list_refusals() {
    let caller = id(A);
    assert_eq!(
        task_list_filter(&request(TaskListScope::All, Some(A), None), caller).err(),
        Some("agent_instance_id requires scope=assigned".to_string())
    );
    assert_eq!(
        task_list_filter(&request(TaskListScope::Assigned, Some("nope"), None), caller).err(),
        Some("invalid UUID: nope".to_string())
    );
    assert_eq!(
        task_list_filter(&request(TaskListScope::All, None, Some("finished")), caller).err(),
        Some("invalid state: finished".to_string())
    );
}

#[test]
fn empty_listings_explain_themselves() {
    assert_eq!(empty_reason(false, 5), None);
    assert!(empty_reason(true, 40).unwrap().starts_with("No tasks at this offset."));
    assert!(empty_reason(true, 0)
        .unwrap()
        .contains("this is not a permission restriction"));
}

#[test]
fn write_access_follows_owner_assignment_and_session() {
    let agent = id(A);
    let owner = format!("agent:{A}");
    assert!(task_write_access(&owner, agent, None, None) == WriteAccess::Granted);
    assert!(task_write_access("human:local", agent, None, None) == WriteAccess::ReadAssignments);
    assert!(task_write_access("human:local", agent, Some(&vec![agent]), None) == WriteAccess::Granted);
    assert!(task_write_access("human:local", agent, Some(&vec![3]), None) == WriteAccess::ReadOpenSession);
    assert!(task_write_access("human:local", agent, Some(&vec![3]), Some(true)) == WriteAccess::Granted);
    assert!(task_write_access("human:local", agent, Some(&vec![3]), Some(false)) == WriteAccess::Refused);
    assert!(write_access_refusal().starts_with("task is not owned by"));
}

#[test]
fn actor_texts() {
    assert_eq!(agent_actor(id(A)), format!("agent:{A}"));
    assert_eq!(tool_actor("session_get", id(A)), format!("session_get:{A}"));
    assert_eq!(inbox_limit(None), 80);
    assert_eq!(inbox_limit(Some(5)), 5);
}

#[test]
fn ownership_and_membership_checks() {
    assert!(check_session_owner(1, 1).is_ok());
    assert_eq!(
        check_session_owner(1, 2).unwrap_err(),
        "session belongs to another agent instance"
    );
    assert!(check_thread_in_task(&vec![4, 5], 5).is_ok());
    assert_eq!(
        check_thread_in_task(&vec![4], 5).unwrap_err(),
        "thread does not belong to the supplied task"
    );
    assert!(check_revision_task(None, 1).is_ok());
    assert!(check_revision_task(Some(1), 1).is_ok());
    assert_eq!(
        check_revision_task(Some(2), 1).unwrap_err(),
        "context_revision_id does not belong to task_id"
    );
}

#[test]
fn memory_reads_select_the_requested_or_current_revision() {
    assert_eq!(selected_revision(&None, Some(9)), Ok(Some(9)));
    assert_eq!(selected_revision(&Some(A.to_string()), Some(9)), Ok(Some(id(A))));
    assert_eq!(
        selected_revision(&Some("x".to_string()), None),
        Err("invalid UUID: x".to_string())
    );
}

#[test]
fn null_constraints_become_an_empty_object() {
    assert!(matches!(revision_constraints(Json::Null), Json::Object(e) if e.is_empty()));
    assert!(matches!(revision_constraints(Json::Bool(true)), Json::Bool(true)));
}

fn context(background: &str, constraints: Json) -> ContextRevision {
    ContextRevision {
        id: 1,
        task_id: 2,
        version: 1,
        parent_revision_id: None,
        goal: String::new(),
        background: background.into(),
        constraints,
        current_summary: String::new(),
        created_by_actor_id: "human:local".into(),
        created_at: 0,
    }
}

#[test]
fn missing_context_is_explicit() {
    assert_eq!(
        missing_context(" ", None, None),
        vec![
            "task_description",
            "project_background",
            "context_background",
            "structured_acceptance_criteria"
        ]
    );
    let c = context(
        "why",
        obj(vec![
            ("acceptance_criteria", Json::Array(vec![Json::Str("a".into())])),
            ("freeze_requires", Json::Str("  ".into())),
        ]),
    );
    assert_eq!(missing_context("do it", Some("bg"), Some(&c)), Vec::<String>::new());
    assert_eq!(
        acceptance_criteria_paths(Some(&c.constraints)),
        vec!["context.constraints.acceptance_criteria"]
    );
    let both = obj(vec![
        ("freeze_requires", obj(vec![("x", Json::Null)])),
        ("acceptance_criteria", Json::Str("done".into())),
    ]);
    assert_eq!(
        acceptance_criteria_paths(Some(&both)),
        vec![
            "context.constraints.acceptance_criteria",
            "context.constraints.freeze_requires"
        ]
    );
}

#[test]
fn company_surface_actors() {
    assert_eq!(
        context_revision_actor(&HeaderText::Text("abc".into())),
        "agent:abc"
    );
    assert_eq!(context_revision_actor(&HeaderText::Missing), "human:local");
    assert_eq!(context_revision_actor(&HeaderText::Opaque), "human:local");
    assert_eq!(company_task_owner(), "human:local");
}

#[test]
fn package_reference_tells_whether_its_context_is_current() {
    let r = package_ref(1, "2025-01-01T00:00:00Z".into(), Some(5), Some(5));
    let Json::Object(es) = r else { panic!("object expected") };
    assert_eq!(es[0].0, "id");
    assert!(matches!(&es[0].1, Json::Str(s) if s == "00000000-0000-0000-0000-000000000001"));
    assert!(matches!(&es[3].1, Json::Bool(true)));
    let Json::Object(es) = package_ref(1, "t".into(), Some(5), Some(6)) else { panic!("object expected") };
    assert!(matches!(&es[3].1, Json::Bool(false)));
    let Json::Object(es) = package_ref(1, "t".into(), None, None) else { panic!("object expected") };
    assert!(matches!(&es[2].1, Json::Null));
    assert!(matches!(&es[3].1, Json::Bool(true)));
}
