use morrows::startup::{
    bootstrap_operator_token, build_mcp_allowed_hosts, parse_bool_flag, validate_bind_security,
};

#[test]
fn mcp_host_allowlist_keeps_loopback_and_adds_public_and_explicit_hosts() {
    assert_eq!(
        build_mcp_allowed_hosts(
            Some("https://mcp.xycdev.com/morrows"),
            Some("internal.example:9443, mcp.xycdev.com"),
        ),
        vec![
            "localhost",
            "127.0.0.1",
            "::1",
            "mcp.xycdev.com",
            "internal.example:9443",
        ]
    );
    assert_eq!(
        build_mcp_allowed_hosts(Some("not-a-url"), Some("")),
        vec!["localhost", "127.0.0.1", "::1"]
    );
}

#[test]
fn loopback_compatibility_remains_available() {
    validate_bind_security("127.0.0.1:8787", true, false, false, false, false, false).unwrap();
}

#[test]
fn strict_operator_auth_cannot_start_without_bootstrap_or_admin() {
    let err = validate_bind_security("127.0.0.1:8787", true, true, true, false, false, false)
        .unwrap_err();
    assert!(err.contains("MORROWS_BOOTSTRAP_OPERATOR_TOKEN"));

    validate_bind_security("127.0.0.1:8787", true, true, true, false, true, false).unwrap();
}

#[test]
fn non_loopback_requires_both_auth_planes_and_explicit_plain_http_override() {
    let remote = "0.0.0.0:8787";

    assert!(validate_bind_security(remote, false, true, false, true, false, false)
        .unwrap_err()
        .contains("MORROWS_REQUIRE_OPERATOR_AUTH"));
    assert!(validate_bind_security(remote, false, false, true, true, false, false)
        .unwrap_err()
        .contains("MORROWS_REQUIRE_AGENT_AUTH"));
    assert!(validate_bind_security(remote, false, true, true, true, false, false)
        .unwrap_err()
        .contains("refuses direct non-loopback HTTP"));
    validate_bind_security(remote, false, true, true, true, false, true).unwrap();
}

#[test]
fn remote_bind_message_names_the_address() {
    assert_eq!(
        validate_bind_security("0.0.0.0:8787", false, true, false, true, false, false).unwrap_err(),
        "non-loopback MORROWS_BIND=0.0.0.0:8787 requires MORROWS_REQUIRE_OPERATOR_AUTH=1"
    );
    assert_eq!(
        validate_bind_security("[::]:9000", false, false, true, false, true, false).unwrap_err(),
        "non-loopback MORROWS_BIND=[::]:9000 requires MORROWS_REQUIRE_AGENT_AUTH=1"
    );
}

#[test]
fn allowlist_trims_dedupes_and_reads_only_the_authority() {
    assert_eq!(
        build_mcp_allowed_hosts(Some("  http://example.org:8080/a/b  "), Some(" , ::1 ,x ,x")),
        vec!["localhost", "127.0.0.1", "::1", "example.org:8080", "x"]
    );
    assert_eq!(
        build_mcp_allowed_hosts(Some("https://"), None),
        vec!["localhost", "127.0.0.1", "::1"]
    );
    assert_eq!(build_mcp_allowed_hosts(None, None), vec!["localhost", "127.0.0.1", "::1"]);
}

#[test]
fn boolean_settings_accept_the_documented_words() {
    assert_eq!(parse_bool_flag("FLAG", None, true), Ok(true));
    assert_eq!(parse_bool_flag("FLAG", Some(" YES "), false), Ok(true));
    assert_eq!(parse_bool_flag("FLAG", Some("On"), false), Ok(true));
    assert_eq!(parse_bool_flag("FLAG", Some("0"), true), Ok(false));
    assert_eq!(parse_bool_flag("FLAG", Some("Off"), true), Ok(false));
    assert_eq!(
        parse_bool_flag("MORROWS_REQUIRE_AGENT_AUTH", Some("maybe"), true),
        Err("MORROWS_REQUIRE_AGENT_AUTH must be a boolean".to_string())
    );
}

#[test]
fn bootstrap_token_must_be_an_operator_credential() {
    assert_eq!(bootstrap_operator_token(None), Ok(None));
    assert_eq!(bootstrap_operator_token(Some("   ")), Ok(None));
    assert_eq!(
        bootstrap_operator_token(Some(" mrw_operator_abc ")),
        Ok(Some("mrw_operator_abc".to_string()))
    );
    assert_eq!(
        bootstrap_operator_token(Some("mrw_agent_abc")),
        Err("MORROWS_BOOTSTRAP_OPERATOR_TOKEN must start with mrw_operator_".to_string())
    );
}

#[test]
fn allowlist_hosts_are_trimmed_in_first_offered_order() {
    let hosts = build_mcp_allowed_hosts(Some(" https://b.example/x"), Some(" c , a, b.example ,c, "));
    assert_eq!(hosts, vec!["localhost", "127.0.0.1", "::1", "b.example", "c", "a"]);
    for h in &hosts {
        assert_eq!(h.trim(), h);
        assert!(!h.is_empty());
    }
}
