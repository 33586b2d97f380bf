use morrows::auth::{is_agent_http_surface, strip_bearer, AgentAuthState, AgentAuthStep, Method};
use morrows::operator_auth::{
    is_admin_route, is_operator_login_route, required_control_role, ControlRole,
    OperatorAuthState, OperatorAuthStep,
};

const AGENT: &str = "67e55044-10b1-426f-9247-bb680e5fe0c8";

fn id(text: &str) -> u128 {
    uuid::Uuid::parse_str(text).unwrap().as_u128()
}

fn rejected(step: &AgentAuthStep) -> Option<(u16, String)> {
    match step {
        AgentAuthStep::Reject(r) => Some((r.status, r.message.clone())),
        _ => None,
    }
}

fn op_rejected(step: &OperatorAuthStep) -> Option<(u16, String)> {
    match step {
        OperatorAuthStep::Reject(r) => Some((r.status, r.message.clone())),
        _ => None,
    }
}

#[test]
fn employee_surface_routes() {
    assert!(is_agent_http_surface(&Method::Post, "/mcp"));
    assert!(is_agent_http_surface(&Method::Get, "/mcp/stream"));
    assert!(is_agent_http_surface(&Method::Get, "/api/agent-deliveries"));
    assert!(!is_agent_http_surface(&Method::Post, "/api/agent-deliveries"));
    assert!(is_agent_http_surface(&Method::Post, "/api/agent-deliveries/1/ack"));
    assert!(is_agent_http_surface(&Method::Post, "/api/agent-instances/x/heartbeat"));
    assert!(is_agent_http_surface(&Method::Get, "/api/agent-instances/x/external-launches"));
    assert!(!is_agent_http_surface(&Method::Get, "/api/agent-instances/x/heartbeat"));
    assert!(!is_agent_http_surface(&Method::Get, "/api/tasks"));
}

#[test]
fn strict_agent_surface_needs_a_bearer_agent_token() {
    let strict = AgentAuthState::new(true);
    let step = strict.decide(&Method::Post, "/mcp", None, None);
    assert_eq!(rejected(&step), Some((401, "Bearer Agent credential required".to_string())));
    let step = strict.decide(&Method::Post, "/mcp", Some("Basic abc"), None);
    assert_eq!(
        rejected(&step),
        Some((401, "Authorization must use Bearer credentials".to_string()))
    );
    let step = strict.decide(&Method::Post, "/mcp", Some("Bearer mrw_agent_x"), None);
    assert!(matches!(step, AgentAuthStep::VerifyAgentToken(t) if t == "mrw_agent_x"));
    let step = strict.decide(&Method::Get, "/api/tasks", None, None);
    assert!(matches!(step, AgentAuthStep::Pass));
    let local = AgentAuthState::new(false);
    assert!(matches!(local.decide(&Method::Post, "/mcp", None, Some(AGENT)), AgentAuthStep::Pass));
}

#[test]
fn verified_subject_must_match_the_claimed_identity() {
    let state = AgentAuthState::new(true);
    assert_eq!(state.admit_agent(Some(id(AGENT)), None).ok(), Some(id(AGENT)));
    assert_eq!(state.admit_agent(Some(id(AGENT)), Some(AGENT)).ok(), Some(id(AGENT)));
    let err = state.admit_agent(Some(1), Some(AGENT)).err().unwrap();
    assert_eq!(err.status, 401);
    assert_eq!(err.message, "Agent credential subject does not match X-Agent-Instance-Id");
    let err = state.admit_agent(None, None).err().unwrap();
    assert_eq!(err.message, "invalid or expired Agent credential");
    let err = state.admit_agent(Some(1), Some("bad")).err().unwrap();
    assert_eq!(err.message, "invalid X-Agent-Instance-Id");
    assert_eq!(strip_bearer("Bearer abc").as_deref(), Some("abc"));
    assert_eq!(strip_bearer("bearer abc"), None);
}

#[test]
fn control_plane_roles_and_routes() {
    assert!(is_operator_login_route(&Method::Post, "/api/operator-login"));
    assert!(!is_operator_login_route(&Method::Get, "/api/operator-login"));
    assert!(is_admin_route(&Method::Post, "/api/machines"));
    assert!(is_admin_route(&Method::Get, "/api/operator-credentials"));
    assert!(ControlRole::parse("admin") == Some(ControlRole::Admin));
    assert!(ControlRole::parse("root").is_none());
    assert!(ControlRole::Admin.covers(&ControlRole::Viewer));
    assert!(!ControlRole::Viewer.covers(&ControlRole::Operator));
    assert!(required_control_role(&Method::Get, "/api/tasks") == ControlRole::Viewer);
    assert!(required_control_role(&Method::Post, "/api/tasks") == ControlRole::Operator);
    assert!(!is_admin_route(&Method::Get, "/api/tasks"));
}

#[test]
fn agent_token_cannot_enter_the_control_plane() {
    let state = OperatorAuthState::new(true, Some("mrw_operator_boot".into()));
    let step = state.decide(&Method::Get, "/api/tasks", Some("Bearer mrw_agent_x"));
    assert_eq!(
        op_rejected(&step),
        Some((403, "Agent credentials cannot access the control plane".to_string()))
    );
    let step = state.decide(&Method::Get, "/api/tasks", None);
    assert_eq!(op_rejected(&step), Some((401, "Bearer operator credential required".to_string())));
    assert!(matches!(
        state.decide(&Method::Get, "/api/tasks", Some("Bearer mrw_operator_boot")),
        OperatorAuthStep::Bootstrap
    ));
    assert!(matches!(
        state.decide(&Method::Post, "/api/tasks", Some("Bearer mrw_operator_x")),
        OperatorAuthStep::VerifyOperatorToken { ref token, required: ControlRole::Operator } if token == "mrw_operator_x"
    ));
    let step = state.decide(&Method::Get, "/api/tasks", Some("Bearer other"));
    assert_eq!(op_rejected(&step), Some((401, "invalid operator credential".to_string())));
    assert!(matches!(state.decide(&Method::Get, "/api/health", None), OperatorAuthStep::Pass));
    assert!(matches!(state.decide(&Method::Post, "/mcp", None), OperatorAuthStep::Pass));
    let local = OperatorAuthState::new(false, None);
    assert!(matches!(local.decide(&Method::Get, "/api/tasks", None), OperatorAuthStep::Local));
}

#[test]
fn operator_roles_are_admitted_by_rank() {
    let state = OperatorAuthState::new(true, None);
    assert!(matches!(state.admit_operator(Some("admin"), ControlRole::Operator), Ok(ControlRole::Admin)));
    let err = state.admit_operator(Some("viewer"), ControlRole::Operator).err().unwrap();
    assert_eq!((err.status, err.message.as_str()), (403, "operator role required"));
    let err = state.admit_operator(Some("boss"), ControlRole::Viewer).err().unwrap();
    assert_eq!((err.status, err.message.as_str()), (403, "operator credential has an unknown role"));
    let err = state.admit_operator(None, ControlRole::Viewer).err().unwrap();
    assert_eq!((err.status, err.message.as_str()), (401, "invalid or expired operator credential"));
}

#[test]
fn operator_token_is_never_sent_to_agent_verification() {
    for require in [true, false] {
        let state = AgentAuthState::new(require);
        for (method, path) in [(Method::Post, "/mcp"), (Method::Get, "/api/tasks")] {
            let step = state.decide(&method, path, Some("Bearer mrw_operator_abc"), None);
            assert!(!matches!(step, AgentAuthStep::VerifyAgentToken(_)));
        }
    }
}
