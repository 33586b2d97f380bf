use morrows::json::Json;
use morrows::launch::LaunchProfile;
use morrows::session_runtime::{
    add_reasoning_effort, build_session_runtime_prompt, choose_runtime_profile,
    clip_session_prompt, codebuddy_provider_ref, codebuddy_runtime_options,
    codex_runtime_options, extract_parenthesized_after, runtime_model_options, list_values, no_profile_reason,
    render_session_recovery_summary, runtime_credential_label, runtime_model, selected_model,
    session_runtime_env, session_runtime_error, AgentDelivery, RecoverySummary,
    RuntimeProfileChoice,
};

const AGENT: &str = "67e55044-10b1-426f-9247-bb680e5fe0c8";
const SESSION: &str = "00000000-0000-0000-0000-00000000000a";

fn id(text: &str) -> u128 {
    uuid::Uuid::parse_str(text).unwrap().as_u128()
}

fn parse(text: &str) -> serde_json::Value {
    serde_json::from_str(text).unwrap()
}

fn to_json(v: &serde_json::Value) -> Json {
    match v {
        serde_json::Value::Null => Json::Null,
        serde_json::Value::Bool(b) => Json::Bool(*b),
        serde_json::Value::Number(n) => Json::Number(n.to_string()),
        serde_json::Value::String(s) => Json::Str(s.clone()),
        serde_json::Value::Array(a) => Json::Array(a.iter().map(to_json).collect()),
        serde_json::Value::Object(o) => {
            Json::Object(o.iter().map(|(k, v)| (k.clone(), to_json(v))).collect())
        }
    }
}

fn profile(id: u128, agent: u128, adapter: &str, enabled: bool) -> LaunchProfile {
    LaunchProfile {
        id,
        name: "p".into(),
        adapter: adapter.into(),
        agent_instance_id: agent,
        program: "/bin/codex".into(),
        codex_home: None,
        default_cwd: None,
        model: None,
        enabled,
        metadata: Json::Object(Vec::new()),
        created_at: 0,
        updated_at: 0,
    }
}

fn delivery(kind: &str, payload: serde_json::Value) -> AgentDelivery {
    AgentDelivery {
        id: 1,
        agent_instance_id: 2,
        task_id: None,
        kind: kind.into(),
        source_id: 3,
        payload: to_json(&payload),
        status: "claimed".into(),
        claimed_by_launch_attempt_id: None,
        claimed_at: None,
        delivered_by: None,
        delivered_at: None,
        created_at: 0,
    }
}

#[test]
fn runtime_profile_prefers_the_latest_then_the_only_candidate() {
    let ps = vec![
        profile(1, 7, "codex_cli", true),
        profile(2, 7, "codebuddy_cli", true),
        profile(3, 7, "other", true),
        profile(4, 8, "codex_cli", true),
        profile(5, 7, "codex_cli", false),
    ];
    assert!(matches!(choose_runtime_profile(&ps, 7, Some(2)), RuntimeProfileChoice::Selected(1)));
    let choice = choose_runtime_profile(&ps, 7, None);
    assert!(matches!(choice, RuntimeProfileChoice::Ambiguous));
    assert_eq!(
        no_profile_reason(&choice).as_deref(),
        Some("multiple local CLI launch profiles; choose a profile first")
    );
    assert!(matches!(choose_runtime_profile(&ps, 8, Some(1)), RuntimeProfileChoice::Selected(3)));
    let none = choose_runtime_profile(&ps, 9, None);
    assert!(matches!(none, RuntimeProfileChoice::NoProfile));
    assert_eq!(
        no_profile_reason(&none).as_deref(),
        Some("no enabled local CLI launch profile")
    );
}

#[test]
fn selected_model_and_runtime_model() {
    assert_eq!(selected_model(&Some("a".into()), &Some("b".into())), "a");
    assert_eq!(selected_model(&None, &Some("b".into())), "b");
    assert_eq!(selected_model(&None, &None), "");
    assert_eq!(runtime_model(&None, &Some("b".into())).as_deref(), Some("b"));
}

#[test]
fn codebuddy_help_is_parsed() {
    let help = "usage\n  --model  Currently supported: (glm-4.6, kimi , ,deepseek)\n  --effort Reasoning effort level (low, high)\n";
    let (models, efforts) = codebuddy_runtime_options(help);
    let ids: Vec<_> = models.iter().map(|m| m.id.as_str()).collect();
    assert_eq!(ids, vec!["glm-4.6", "kimi", "deepseek"]);
    assert_eq!(models[1].label, "kimi");
    assert_eq!(models[0].reasoning_efforts.len(), 6);
    assert_eq!(efforts, vec!["low", "high"]);
    let (models, efforts) = codebuddy_runtime_options("no markers");
    assert!(models.is_empty());
    assert_eq!(efforts, vec!["minimal", "low", "medium", "high", "xhigh", "max"]);
    assert_eq!(extract_parenthesized_after("a(b", "a("), None);
    assert_eq!(extract_parenthesized_after("xx a(bc)d", "a(").as_deref(), Some("bc"));
    assert_eq!(list_values(" a, ,b "), vec!["a", "b"]);
}

#[test]
fn codex_bundled_models_are_filtered_and_efforts_collected_once() {
    let value = to_json(&parse(r#"{"models":[
        {"slug":"gpt-a","display_name":"A","visibility":"list",
         "supported_reasoning_levels":[{"effort":"low"},{"effort":"high"},{"x":1}],
         "default_reasoning_level":"low"},
        {"slug":"hidden","visibility":"hide","supported_reasoning_levels":[{"effort":"max"}]},
        {"slug":"","visibility":"list"},
        {"slug":"gpt-b","visibility":"list","supported_reasoning_levels":[{"effort":"high"},{"effort":"medium"}]}
    ]}"#));
    let (models, efforts) = codex_runtime_options(&value);
    assert_eq!(models.len(), 2);
    assert_eq!(models[0].id, "gpt-a");
    assert_eq!(models[0].label, "A");
    assert_eq!(models[0].default_reasoning_effort, "low");
    assert_eq!(models[1].label, "gpt-b");
    assert_eq!(models[1].default_reasoning_effort, "");
    assert_eq!(efforts, vec!["low", "high", "medium"]);
    let (models, efforts) = codex_runtime_options(&Json::Null);
    assert!(models.is_empty() && efforts.is_empty());
}

#[test]
fn session_prompt_carries_scope_summary_and_messages() {
    let deliveries = vec![
        delivery("session_message", parse(r#"{"body":"hello"}"#)),
        delivery("launch_instruction", parse(r#"{"body":"skip"}"#)),
        delivery("session_message", parse(r#"{"body":"again"}"#)),
    ];
    let p = build_session_runtime_prompt(id(AGENT), id(SESSION), None, Some(5), Some("SUM"), &deliveries);
    assert!(p.starts_with(&format!(
        "You are AgentInstance {AGENT} started for Morrows Session {SESSION}.\nThis Session is scoped to Task 00000000-0000-0000-0000-000000000005."
    )));
    assert!(p.contains("Latest structured Session recovery summary:\nSUM\n\n"));
    assert!(p.ends_with("Pending human messages already delivered to this runtime:\nhello\n---\nagain\n"));
    let general = build_session_runtime_prompt(id(AGENT), id(SESSION), None, None, None, &Vec::new());
    assert!(general.contains("This is a general Session with no Project or Task scope."));
    assert!(general.contains("(none; use session_get to reconstruct from durable history)"));
    assert!(general.ends_with("(none; inspect the Session with session_get)\n"));
}

#[test]
fn recovery_summaries_are_clipped_with_a_note() {
    assert_eq!(clip_session_prompt("abc", 3), "abc");
    assert_eq!(
        clip_session_prompt("abcd", 3),
        "abc\n[truncated; use session_summary_get for the complete structured summary]"
    );
    let s = RecoverySummary {
        revision: 1,
        covers_until_message_id: None,
        goal: "g".into(),
        current_state: "c".into(),
        important_findings: "[]".into(),
        decisions: "[]".into(),
        blockers: "[]".into(),
        unresolved_questions: "[]".into(),
        next_steps: "[]".into(),
        deterministic_facts: "{}".into(),
    };
    let r = render_session_recovery_summary(&s);
    assert!(r.starts_with(
        "Summary revision: 00000000-0000-0000-0000-000000000001\nCovers through message: none\nGoal:\ng\n\nCurrent state:\nc"
    ));
    assert!(r.ends_with("Deterministic facts (JSON):\n{}"));
}

#[test]
fn runtime_errors_prefer_codex_then_stderr_then_status() {
    assert_eq!(session_runtime_error(true, Some(1), Some("x".into()), "err"), None);
    assert_eq!(session_runtime_error(false, Some(1), Some("x".into()), "err").as_deref(), Some("x"));
    assert_eq!(session_runtime_error(false, Some(1), None, "  boom \n").as_deref(), Some("boom"));
    assert_eq!(
        session_runtime_error(false, Some(3), None, " ").as_deref(),
        Some("Agent CLI exited with Some(3)")
    );
    assert_eq!(
        session_runtime_error(false, None, None, "").as_deref(),
        Some("Agent CLI exited with None")
    );
    let long = "e".repeat(2500);
    assert_eq!(session_runtime_error(false, None, None, &long).unwrap().len(), 2000);
}

#[test]
fn runtime_environment_and_arguments() {
    let env = session_runtime_env(id(AGENT), id(SESSION), Some(3), "mrw_agent_t");
    assert_eq!(
        env,
        vec![
            ("MORROWS_AGENT_AUTHORIZATION".to_string(), "Bearer mrw_agent_t".to_string()),
            ("MORROWS_AGENT_INSTANCE_ID".to_string(), AGENT.to_string()),
            ("MORROWS_SESSION_ID".to_string(), SESSION.to_string()),
            ("MORROWS_ACCOUNT_ID".to_string(), "00000000-0000-0000-0000-000000000003".to_string()),
        ]
    );
    assert_eq!(session_runtime_env(1, 2, None, "t").len(), 3);
    let mut args = vec!["exec".to_string(), "-".to_string()];
    add_reasoning_effort(&mut args, "high");
    assert_eq!(args, vec!["exec", "-c", "model_reasoning_effort=\"high\"", "-"]);
    assert_eq!(codebuddy_provider_ref(&Some("prev".into()), 1), "prev");
    assert_eq!(codebuddy_provider_ref(&None, 1), "00000000-0000-0000-0000-000000000001");
    assert_eq!(runtime_credential_label(1), "Session runtime 00000000-0000-0000-0000-000000000001");
}

#[test]
fn model_discovery_falls_back_to_nothing() {
    let out = br#"{"models":[{"slug":"gpt-a","visibility":"list","supported_reasoning_levels":[{"effort":"low"}]}]}"#;
    let (models, efforts) = runtime_model_options("codex_cli", true, true, out, "");
    assert_eq!(models.len(), 1);
    assert_eq!(models[0].id, "gpt-a");
    assert_eq!(efforts, vec!["low"]);
    assert!(runtime_model_options("codex_cli", true, false, out, "").0.is_empty());
    assert!(runtime_model_options("codex_cli", false, true, out, "").0.is_empty());
    let (models, efforts) = runtime_model_options("codex_cli", true, true, b"not json", "");
    assert!(models.is_empty() && efforts.is_empty());
    let help = "--model Currently supported: (glm-4.6, kimi)\n";
    let (models, efforts) = runtime_model_options("codebuddy_cli", true, false, b"", help);
    assert_eq!(models.len(), 2);
    assert_eq!(efforts.len(), 6);
    assert!(runtime_model_options("codebuddy_cli", false, false, b"", help).0.is_empty());
    let (models, efforts) = runtime_model_options("other", true, true, out, help);
    assert!(models.is_empty() && efforts.is_empty());
}
