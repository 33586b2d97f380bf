use morrows::json::Json;
use morrows::memory_worktree::{
    check_checkout_mode, check_committed_mode, check_memory_page, check_publication_schema,
    check_publication_source, check_publication_target, check_refresh, checkout_project,
    cli_agent_token, parse_committed_json, content_file_name, import_ref, lineage_root,
    next_memory_offset, plan_checkout, ref_lookup, tool_outcome, worktree_branch, CheckoutPlace,
    LineageError, MemoryEntry, RefLookup, ToolOutcome,
};

fn entry(id: u128, supersedes: Option<u128>, scope: &str, project: Option<u128>) -> MemoryEntry {
    MemoryEntry {
        id,
        scope_type: scope.into(),
        project_id: project,
        agent_instance_id: None,
        task_id: None,
        title: "t".into(),
        content: Json::Str("body".into()),
        source_kind: "test".into(),
        source_ref: None,
        visibility: "shared".into(),
        supersedes_memory_id: supersedes,
        created_at: 0,
        updated_at: 0,
        provenance: None,
    }
}

fn obj(entries: Vec<(&str, Json)>) -> Json {
    Json::Object(entries.into_iter().map(|(k, v)| (k.to_string(), v)).collect())
}

#[test]
fn lineage_roots_name_documents() {
    let es = vec![
        entry(3, Some(2), "project", Some(9)),
        entry(2, Some(1), "project", Some(9)),
        entry(1, None, "project", Some(9)),
    ];
    assert!(lineage_root(&es[0], &es) == Ok(1));
    assert!(lineage_root(&es[2], &es) == Ok(1));
    let missing = vec![entry(3, Some(2), "project", Some(9))];
    assert!(lineage_root(&missing[0], &missing) == Err(LineageError::Incomplete));
    let cycle = vec![entry(1, Some(2), "project", Some(9)), entry(2, Some(1), "project", Some(9))];
    assert!(lineage_root(&cycle[0], &cycle) == Err(LineageError::Cycle));
    let cross = vec![entry(2, Some(1), "project", Some(9)), entry(1, None, "organization", None)];
    assert!(lineage_root(&cross[0], &cross) == Err(LineageError::CrossScope));
    assert_eq!(LineageError::Cycle.message(), "memory lineage cycle");
}

#[test]
fn checkout_layout_places_current_and_history() {
    let es = vec![
        entry(2, Some(1), "project", Some(9)),
        entry(1, None, "project", Some(9)),
        entry(5, None, "organization", None),
    ];
    let plan = plan_checkout(&es, true).unwrap();
    assert_eq!(plan.len(), 3);
    assert!(plan[0] == (CheckoutPlace::Current, 1, 0));
    assert!(plan[1] == (CheckoutPlace::History, 1, 1));
    assert!(plan[2] == (CheckoutPlace::Current, 5, 2));
    let plan = plan_checkout(&es, false).unwrap();
    assert_eq!(plan.len(), 2);
    let competing = vec![
        entry(2, Some(1), "project", Some(9)),
        entry(3, Some(1), "project", Some(9)),
        entry(1, None, "project", Some(9)),
    ];
    assert_eq!(
        plan_checkout(&competing, false).err(),
        Some("memory has competing current revisions; reconcile them before checkout".to_string())
    );
}

#[test]
fn checkout_modes_and_refs() {
    assert!(check_checkout_mode(false, false).is_ok());
    assert!(check_checkout_mode(true, true).is_ok());
    assert_eq!(
        check_checkout_mode(true, false).unwrap_err(),
        "checkout exists; use --refresh to merge imports with native Git"
    );
    assert_eq!(
        check_checkout_mode(false, true).unwrap_err(),
        "no checkout exists; omit --refresh for the first import"
    );
    assert_eq!(import_ref(1), "refs/heads/projects/00000000-0000-0000-0000-000000000001/import");
    assert_eq!(worktree_branch(1), "projects/00000000-0000-0000-0000-000000000001/main");
    assert!(ref_lookup(Some(0), "r") == Ok(RefLookup::Present));
    assert!(ref_lookup(Some(1), "r") == Ok(RefLookup::Absent));
    assert_eq!(ref_lookup(None, "refs/x").err(), Some("cannot read Git ref refs/x".to_string()));
}

#[test]
fn paged_reads_are_checked() {
    let mut seen = vec![];
    let page = vec![entry(1, None, "project", Some(9)), entry(2, None, "organization", None)];
    assert!(check_memory_page(9, &mut seen, &page).is_ok());
    assert_eq!(seen, vec![1, 2]);
    assert_eq!(
        check_memory_page(9, &mut seen, &vec![entry(2, None, "project", Some(9))]).unwrap_err(),
        "memory changed during pagination; retry checkout"
    );
    assert_eq!(
        check_memory_page(9, &mut vec![], &vec![entry(3, None, "project", Some(8))]).unwrap_err(),
        "unexpected memory scope"
    );
    assert_eq!(next_memory_offset(0, Some(100)), Ok(Some(100)));
    assert_eq!(next_memory_offset(100, None), Ok(None));
    assert_eq!(next_memory_offset(100, Some(100)), Err("invalid continuation offset".to_string()));
}

#[test]
fn cli_credentials() {
    assert_eq!(cli_agent_token(Some("Bearer mrw_agent_a"), None), Ok("mrw_agent_a".to_string()));
    assert_eq!(
        cli_agent_token(Some("Basic x"), Some("mrw_agent_b")),
        Err("MORROWS_AGENT_AUTHORIZATION must use Bearer authentication".to_string())
    );
    assert_eq!(cli_agent_token(None, Some("mrw_agent_b")), Ok("mrw_agent_b".to_string()));
    assert_eq!(
        cli_agent_token(None, None),
        Err("set MORROWS_AGENT_TOKEN to an issued Agent Bearer credential".to_string())
    );
    assert_eq!(
        cli_agent_token(None, Some("mrw_operator_b")),
        Err("MORROWS_AGENT_TOKEN must be an issued Agent credential".to_string())
    );
}

#[test]
fn tool_results_and_schema() {
    let texts = vec!["a".to_string(), "b".to_string()];
    assert!(matches!(tool_outcome("t", &texts, Some(true), None), ToolOutcome::Failed(m) if m == "t: a\nb"));
    assert!(matches!(tool_outcome("t", &texts, None, Some(Json::Bool(true))), ToolOutcome::Structured(Json::Bool(true))));
    assert!(matches!(tool_outcome("t", &texts, Some(false), None), ToolOutcome::Text(m) if m == "a\nb"));
    let full = obj(vec![(
        "properties",
        obj(vec![
            ("expected_project_id", Json::Null),
            ("new_memory_id", Json::Null),
            ("base_commit", Json::Null),
        ]),
    )]);
    assert!(check_publication_schema(Some(&full)).is_ok());
    assert_eq!(
        check_publication_schema(None).unwrap_err(),
        "server does not support project memory publication"
    );
    assert_eq!(
        check_publication_schema(Some(&obj(vec![]))).unwrap_err(),
        "server publication schema has no properties"
    );
    assert_eq!(
        check_publication_schema(Some(&obj(vec![("properties", obj(vec![]))]))).unwrap_err(),
        "server needs the native-memory publication update before this CLI can publish"
    );
}

#[test]
fn publication_content_checks() {
    let draft = obj(vec![("draft", Json::Bool(true))]);
    assert!(check_publication_source(1, 2, &draft, None, false, true).is_ok());
    assert_eq!(
        check_publication_source(1, 2, &draft, None, true, true).err().unwrap(),
        "commit exactly one content.md or content.json for this document"
    );
    assert_eq!(
        check_publication_source(1, 2, &draft, None, false, false).err().unwrap(),
        "commit exactly one content.md or content.json for this document"
    );
    assert!(check_committed_mode("100755", "p").is_ok());
    assert_eq!(
        check_committed_mode("120000", "current/x/title.txt").unwrap_err(),
        "current/x/title.txt must be a committed regular text file"
    );
    assert_eq!(content_file_name(&Json::Str("x".into())), "content.md");
    assert_eq!(content_file_name(&Json::Null), "content.json");
}

const PROJECT: &str = "67e55044-10b1-426f-9247-bb680e5fe0c8";
const REVISION: &str = "0b6f1f0e-2b1d-4a43-9a57-3c2f4c1f0a11";

fn id(text: &str) -> u128 {
    uuid::Uuid::parse_str(text).unwrap().as_u128()
}

fn imported_metadata(project: &str, scope: &str, visibility: &str, rev: &str) -> Json {
    obj(vec![
        ("id", Json::Str(rev.into())),
        ("scope_type", Json::Str(scope.into())),
        ("project_id", Json::Str(project.into())),
        ("visibility", Json::Str(visibility.into())),
        ("tags", Json::Array(vec![Json::Number("1".into())])),
    ])
}

#[test]
fn a_draft_starts_a_new_document() {
    let draft = obj(vec![("draft", Json::Bool(true))]);
    let links = check_publication_source(id(PROJECT), 7, &draft, None, true, false).ok().unwrap();
    assert_eq!((links.new_memory_id, links.supersedes_memory_id), (Some(7), None));
    let extra = obj(vec![("draft", Json::Bool(true)), ("title", Json::Str("x".into()))]);
    assert_eq!(
        check_publication_source(id(PROJECT), 7, &extra, None, true, false).err().unwrap(),
        "new documents must use metadata.json containing only draft: true"
    );
    let not_draft = obj(vec![("draft", Json::Bool(false))]);
    assert_eq!(
        check_publication_source(id(PROJECT), 7, &not_draft, None, true, false).err().unwrap(),
        "new documents must use metadata.json containing only draft: true"
    );
}

#[test]
fn an_imported_document_supersedes_its_revision() {
    let meta = imported_metadata(PROJECT, "project", "shared", REVISION);
    let same_reordered = obj(vec![
        ("visibility", Json::Str("shared".into())),
        ("tags", Json::Array(vec![Json::Number("1".into())])),
        ("project_id", Json::Str(PROJECT.into())),
        ("scope_type", Json::Str("project".into())),
        ("id", Json::Str(REVISION.into())),
    ]);
    let links = check_publication_source(id(PROJECT), 7, &meta, Some(&same_reordered), false, true)
        .ok()
        .unwrap();
    assert_eq!((links.new_memory_id, links.supersedes_memory_id), (None, Some(id(REVISION))));
    let changed = imported_metadata(PROJECT, "project", "shared", PROJECT);
    assert_eq!(
        check_publication_source(id(PROJECT), 7, &meta, Some(&changed), false, true).err().unwrap(),
        "source metadata changed; retain imported metadata and edit content/title only"
    );
    let private = imported_metadata(PROJECT, "project", "private", REVISION);
    assert_eq!(
        check_publication_source(id(PROJECT), 7, &private, Some(&private), false, true)
            .err()
            .unwrap(),
        "only shared knowledge in this project can be published"
    );
    let other = imported_metadata(REVISION, "project", "shared", REVISION);
    assert_eq!(
        check_publication_source(id(PROJECT), 7, &other, Some(&other), false, true).err().unwrap(),
        "only shared knowledge in this project can be published"
    );
    let bad_id = imported_metadata(PROJECT, "project", "shared", "nope");
    assert_eq!(
        check_publication_source(id(PROJECT), 7, &bad_id, Some(&bad_id), false, true)
            .err()
            .unwrap(),
        "metadata.json has no valid revision id"
    );
    assert_eq!(
        check_publication_source(id(PROJECT), 7, &meta, Some(&meta), true, true).err().unwrap(),
        "commit exactly one content.md or content.json for this document"
    );
}

#[test]
fn publication_goes_to_the_checkout_endpoint_and_project() {
    let checkout = obj(vec![
        ("endpoint", Json::Str("https://mcp.example/morrows".into())),
        ("project", obj(vec![("id", Json::Str(PROJECT.into()))])),
    ]);
    assert_eq!(checkout_project(&checkout), Ok(id(PROJECT)));
    assert_eq!(
        checkout_project(&obj(vec![])).unwrap_err(),
        "project.json has no valid project id"
    );
    let task = obj(vec![("project_id", Json::Str(PROJECT.into()))]);
    assert!(check_publication_target(id(PROJECT), &checkout, "https://mcp.example/morrows", &task).is_ok());
    assert_eq!(
        check_publication_target(id(PROJECT), &checkout, "http://127.0.0.1:8787/mcp", &task)
            .unwrap_err(),
        "checkout belongs to a different MORROWS_MCP_URL"
    );
    let foreign = obj(vec![("project_id", Json::Str(REVISION.into()))]);
    assert_eq!(
        check_publication_target(id(PROJECT), &checkout, "https://mcp.example/morrows", &foreign)
            .unwrap_err(),
        "source task belongs to another project"
    );
}

#[test]
fn refresh_never_overwrites_local_changes() {
    let saved = format!(
        "{{\"endpoint\":\"http://127.0.0.1:8787/mcp\",\"project\":{{\"id\":\"{PROJECT}\"}},\"includes_history\":true}}"
    );
    let ep = "http://127.0.0.1:8787/mcp";
    assert_eq!(check_refresh(true, "", &saved, ep, id(PROJECT)), Ok(true));
    assert_eq!(
        check_refresh(true, " M current/x/content.md\n", &saved, ep, id(PROJECT)).unwrap_err(),
        "commit or stash local changes before refreshing; no files were overwritten"
    );
    assert_eq!(
        check_refresh(false, "", &saved, ep, id(PROJECT)).unwrap_err(),
        "directory belongs to another Git repository"
    );
    assert_eq!(
        check_refresh(true, "", &saved, "https://other/mcp", id(PROJECT)).unwrap_err(),
        "checkout belongs to another endpoint/project"
    );
    assert_eq!(
        check_refresh(true, "", &saved, ep, id(REVISION)).unwrap_err(),
        "checkout belongs to another endpoint/project"
    );
    assert_eq!(
        check_refresh(true, "  \n", "{", ep, id(PROJECT)).unwrap_err(),
        "parse committed project.json"
    );
    let plain = format!("{{\"endpoint\":\"{ep}\",\"project\":{{\"id\":\"{PROJECT}\"}}}}");
    assert_eq!(check_refresh(true, "", &plain, ep, id(PROJECT)), Ok(false));
    assert!(parse_committed_json("current/x/metadata.json", "{\"draft\":true}").is_ok());
    assert_eq!(
        parse_committed_json("current/x/metadata.json", "draft").err(),
        Some("parse committed current/x/metadata.json".to_string())
    );
}
