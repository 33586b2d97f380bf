use morrows::memory_search::{
    check_search_request, fetch_count, is_search_projection_member, memory_id_from_source,
    projection_cleanup, projection_file_name, projection_temp_name, rank_memory_hits,
    render_memory, empty_search_response, search_response, search_results, BridgeHit, BridgeSummary,
    ProjectionCleanup,
};
use morrows::json::Json;

fn to_value(v: &Json) -> serde_json::Value {
    match v {
        Json::Null => serde_json::Value::Null,
        Json::Bool(b) => serde_json::Value::Bool(*b),
        Json::Number(n) => serde_json::from_str(n).unwrap(),
        Json::Str(s) => serde_json::Value::String(s.clone()),
        Json::Array(a) => serde_json::Value::Array(a.iter().map(to_value).collect()),
        Json::Object(o) => {
            serde_json::Value::Object(o.iter().map(|(k, v)| (k.clone(), to_value(v))).collect())
        }
    }
}

#[test]
fn source_file_maps_back_to_memory_id() {
    let id = uuid::Uuid::new_v4();
    assert_eq!(
        memory_id_from_source(&format!("/tmp/project/{id}.md")),
        Some(id.as_u128())
    );
    assert_eq!(memory_id_from_source("/tmp/project/not-an-id.md"), None);
}

#[test]
fn search_requests_are_validated_in_order() {
    assert_eq!(check_search_request("  alpha  ", 5), Ok("alpha".to_string()));
    assert_eq!(
        check_search_request(" \t ", 5),
        Err("memory search query cannot be empty".to_string())
    );
    let long = "é".repeat(2049);
    assert_eq!(
        check_search_request(&long, 5),
        Err("memory search query exceeds 4096 bytes".to_string())
    );
    assert!(check_search_request(&"é".repeat(2048), 20).is_ok());
    assert_eq!(
        check_search_request("q", 0),
        Err("memory search top_k must be 1..=20".to_string())
    );
    assert_eq!(
        check_search_request("q", 21),
        Err("memory search top_k must be 1..=20".to_string())
    );
}

#[test]
fn fetch_count_is_three_times_top_k_capped_at_sixty() {
    assert_eq!(fetch_count(5), 15);
    assert_eq!(fetch_count(20), 60);
    assert_eq!(fetch_count(19), 57);
}

#[test]
fn stale_and_repeated_hits_are_dropped_and_top_k_is_kept() {
    let current = vec![10u128, 20, 30];
    let hits = vec![Some(1u128), Some(20), None, Some(20), Some(10), Some(30)];
    assert_eq!(rank_memory_hits(&hits, &current, 5), vec![1, 4, 5]);
    assert_eq!(rank_memory_hits(&hits, &current, 2), vec![1, 4]);
    assert_eq!(rank_memory_hits(&vec![Some(99u128)], &current, 3), Vec::<usize>::new());
}

#[test]
fn only_shared_organization_or_own_project_memory_is_projected() {
    assert!(is_search_projection_member("shared", "organization", None, 7));
    assert!(is_search_projection_member("shared", "project", Some(7), 7));
    assert!(!is_search_projection_member("shared", "project", Some(8), 7));
    assert!(!is_search_projection_member("private", "organization", None, 7));
    assert!(!is_search_projection_member("shared", "agent", None, 7));
}

#[test]
fn projection_files_and_cleanup() {
    let id = uuid::Uuid::parse_str("67e55044-10b1-426f-9247-bb680e5fe0c8").unwrap();
    assert_eq!(projection_file_name(id.as_u128()), "67e55044-10b1-426f-9247-bb680e5fe0c8.md");
    assert_eq!(
        projection_temp_name(id.as_u128()),
        ".67e55044-10b1-426f-9247-bb680e5fe0c8.md.tmp"
    );
    let expected = vec!["a.md".to_string()];
    assert!(projection_cleanup("a.md", &expected) == ProjectionCleanup::Keep);
    assert!(projection_cleanup("b.md", &expected) == ProjectionCleanup::RemoveStale);
    assert!(projection_cleanup(".b.md.tmp", &expected) == ProjectionCleanup::RemoveTemporary);
    assert!(projection_cleanup("notes.txt", &expected) == ProjectionCleanup::Keep);
}

#[test]
fn rendered_memory_layout() {
    assert_eq!(
        render_memory("T", "project", "test", "2026-01-01T00:00:00Z", &Json::Object(vec![])),
        "# T\n\nScope: project\nSource kind: test\nCreated: 2026-01-01T00:00:00Z\n\n## Content\n\n{}\n"
    );
    let content = Json::Object(vec![
        ("sentinel".into(), Json::Str("A".into())),
        ("n".into(), Json::Number("2".into())),
    ]);
    let expected = serde_json::to_string_pretty(&to_value(&content)).unwrap();
    assert_eq!(
        render_memory("T", "org", "k", "c", &content),
        format!("# T\n\nScope: org\nSource kind: k\nCreated: c\n\n## Content\n\n{expected}\n")
    );
    assert!(expected.contains("\n  \"sentinel\": \"A\""));
}

#[test]
fn search_answer_declares_the_index_a_rebuildable_shadow() {
    let bridge = BridgeSummary {
        engine: "memsearch".into(),
        version: "0.3".into(),
        provider: "local".into(),
        model: "bge".into(),
        indexed_chunks: 12,
    };
    let hit = Json::Object(vec![("memory".into(), Json::Str("alpha".into()))]);
    let v = to_value(&search_response("alpha".into(), bridge, 2, vec![hit]));
    assert_eq!(v["index_role"], "rebuildable_shadow");
    assert_eq!(v["authoritative_source"], "morrows_memory_entry");
    assert_eq!(v["indexed_memory_count"], 2);
    assert_eq!(v["indexed_chunks"], 12);
    assert_eq!(v["engine_version"], "0.3");
    assert_eq!(v["results"][0]["memory"], "alpha");
    assert_eq!(v["available"], true);
    let v = to_value(&empty_search_response("q".into()));
    assert_eq!(v["indexed_memory_count"], 0);
    assert_eq!(v["results"].as_array().unwrap().len(), 0);
    assert_eq!(v["engine"], "memsearch");
    assert_eq!(v["query"], "q");
}

#[test]
fn shadow_hits_resolve_to_current_authoritative_memory() {
    let current = uuid::Uuid::new_v4();
    let other = uuid::Uuid::new_v4();
    let stale = uuid::Uuid::new_v4();
    let hit = |id: uuid::Uuid, score: &str, heading: &str| BridgeHit {
        source: format!("/proj/{id}.md"),
        heading: heading.into(),
        score: Json::Number(score.into()),
    };
    let hits = vec![
        hit(stale, "0.99", "old"),
        hit(current, "0.9", "Alpha"),
        BridgeHit { source: "/proj/notes.md".into(), heading: "x".into(), score: Json::Number("0.8".into()) },
        hit(current, "0.7", "Alpha again"),
        hit(other, "0.5", "Beta"),
    ];
    let entries = vec![
        Json::Object(vec![("sentinel".into(), Json::Str("AUTHORITATIVE-ALPHA-17".into()))]),
        Json::Object(vec![("sentinel".into(), Json::Str("BETA".into()))]),
    ];
    let ids = vec![current.as_u128(), other.as_u128()];
    let results = search_results(hits, &ids, entries, 8);
    let values: Vec<serde_json::Value> = results.iter().map(to_value).collect();
    assert_eq!(values.len(), 2);
    assert_eq!(values[0]["memory"]["sentinel"], "AUTHORITATIVE-ALPHA-17");
    assert_eq!(values[0]["matched_heading"], "Alpha");
    assert_eq!(values[0]["score"], 0.9);
    assert_eq!(values[1]["memory"]["sentinel"], "BETA");
    let bridge = BridgeSummary {
        engine: "memsearch".into(),
        version: "1".into(),
        provider: "p".into(),
        model: "m".into(),
        indexed_chunks: 3,
    };
    let v = to_value(&search_response("alpha".into(), bridge, 2, results));
    assert_eq!(v["index_role"], "rebuildable_shadow");
    assert_eq!(v["results"].as_array().unwrap().len(), 2);
    let one = search_results(
        vec![hit(current, "1", "a"), hit(other, "0.5", "b")],
        &ids,
        vec![Json::Null, Json::Bool(true)],
        1,
    );
    assert_eq!(one.len(), 1);
}
