use morrows::domain::DomainError;
use morrows::fleet::{
    codex_template, find_codex_profile, managed_codex_identity, managed_codex_profile,
    managed_default_cwd, managed_machine, resolve_codex_program, AgentProfile,
};
use morrows::json::Json;
use morrows::launch::LaunchProfile;

fn launch(id: u128, adapter: &str, program: &str, enabled: bool, cwd: Option<&str>) -> LaunchProfile {
    LaunchProfile {
        id,
        name: "p".into(),
        adapter: adapter.into(),
        agent_instance_id: 1,
        program: program.into(),
        codex_home: None,
        default_cwd: cwd.map(|c| c.to_string()),
        model: None,
        enabled,
        metadata: Json::Object(Vec::new()),
        created_at: 0,
        updated_at: 0,
    }
}

fn agent_profile(id: u128, provider: &str, name: &str) -> AgentProfile {
    AgentProfile {
        id,
        name: name.into(),
        provider: provider.into(),
        kind: String::new(),
        default_capabilities: Vec::new(),
        metadata: Json::Null,
        created_at: 0,
        updated_at: 0,
    }
}

fn invalid_input(e: DomainError) -> String {
    match e {
        DomainError::InvalidInput(m) => m,
        other => panic!("unexpected {other:?}"),
    }
}

#[test]
fn managed_identity_is_normalized_and_required() {
    let (email, cref) = managed_codex_identity("  Dev@Example.COM ", " /home/codex ").unwrap();
    assert_eq!(email, "dev@example.com");
    assert_eq!(cref, "/home/codex");
    let err = managed_codex_identity(" ", "x").unwrap_err();
    assert_eq!(invalid_input(err), "email and credential_ref are required");
    assert!(managed_codex_identity("a@b", "  ").is_err());
}

#[test]
fn codex_profile_identity_is_found_or_described() {
    let ps = vec![agent_profile(1, "openai", "Other"), agent_profile(2, "openai", "Codex CLI")];
    assert_eq!(find_codex_profile(&ps), Some(1));
    assert_eq!(find_codex_profile(&vec![agent_profile(1, "openai", "Other")]), None);
    let p = managed_codex_profile();
    assert_eq!((p.name.as_str(), p.provider.as_str(), p.kind.as_str()), ("Codex CLI", "openai", "coding_agent"));
    assert_eq!(p.default_capabilities, vec!["rust", "typescript", "code", "review", "mcp"]);
}

#[test]
fn template_prefers_a_program_named_codex() {
    let ps = vec![
        launch(1, "codex_cli", "/opt/other", true, Some("/a")),
        launch(2, "codex_cli", "/usr/bin/codex", false, None),
        launch(3, "codex_cli", "/usr/local/bin/codex", true, Some("/b")),
    ];
    assert_eq!(codex_template(&ps), Some(2));
    let first_two = vec![
        launch(1, "codex_cli", "/opt/other", true, Some("/a")),
        launch(2, "codex_cli", "/usr/bin/codex", false, None),
    ];
    assert_eq!(codex_template(&first_two), Some(0));
    assert_eq!(codex_template(&vec![launch(1, "other", "/x", true, None)]), None);
}

#[test]
fn machine_defaults_to_the_first_entry_of_the_profile() {
    let fleet = vec![(5u128, None), (7, Some(70u128)), (7, Some(71))];
    assert_eq!(managed_machine(Some(9), 7, &fleet), Some(9));
    assert_eq!(managed_machine(None, 7, &fleet), Some(70));
    assert_eq!(managed_machine(None, 5, &fleet), None);
    assert_eq!(managed_machine(None, 6, &fleet), None);
}

#[test]
fn working_directory_and_program_must_be_absolute() {
    assert_eq!(managed_default_cwd(&Some("  /w ".into()), &Some("/t".into()), "/s").unwrap(), "/w");
    assert_eq!(managed_default_cwd(&Some("  ".into()), &Some("/t".into()), "/s").unwrap(), "/t");
    assert_eq!(managed_default_cwd(&None, &None, "/s").unwrap(), "/s");
    assert_eq!(
        invalid_input(managed_default_cwd(&None, &None, "rel").unwrap_err()),
        "default_cwd must be an absolute path on the target machine: rel"
    );
    assert_eq!(resolve_codex_program(Some(" /env/codex "), Some("/t")).unwrap(), "/env/codex");
    assert_eq!(resolve_codex_program(Some(" "), Some(" /t ")).unwrap(), "/t");
    match resolve_codex_program(None, None).unwrap_err() {
        DomainError::InvalidState(m) => {
            assert_eq!(m, "no Codex CLI program reference is configured for the target machine")
        }
        other => panic!("unexpected {other:?}"),
    }
    assert_eq!(
        invalid_input(resolve_codex_program(None, Some("codex")).unwrap_err()),
        "Codex CLI program must be an absolute path on the target machine: codex"
    );
}
