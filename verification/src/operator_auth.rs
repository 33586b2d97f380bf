//! Control-plane authentication: who may read, operate or administer Morrows.

use vstd::prelude::*;
use crate::auth::{
    agent_surface, agent_token_prefix, bearer_token, forbidden, is_agent_http_surface,
    operator_token_prefix, refused, strip_bearer, unauthorized, AuthRejection, Method,
};
use crate::text::{ends_with, has_prefix, has_suffix, opt_text, starts_with, str_eq};

verus! {

/// The control-plane roles, from least to most privileged.
#[derive(Clone, Copy, PartialEq, Eq, Structural)]
pub enum ControlRole {
    Viewer,
    Operator,
    Admin,
}

/// A role's privilege level.
pub open spec fn role_rank(r: ControlRole) -> int {
    match r {
        ControlRole::Viewer => 0,
        ControlRole::Operator => 1,
        ControlRole::Admin => 2,
    }
}

/// The role a credential's role text names.
pub open spec fn role_named(text: Seq<char>) -> Option<ControlRole> {
    if text == "viewer"@ {
        Some(ControlRole::Viewer)
    } else if text == "operator"@ {
        Some(ControlRole::Operator)
    } else if text == "admin"@ {
        Some(ControlRole::Admin)
    } else {
        None
    }
}

impl ControlRole {
    /// Reads a stored role.
    pub fn parse(value: &str) -> (r: Option<ControlRole>)
        ensures
            r == role_named(value@),
    {
        if str_eq(value, "viewer") {
            Some(ControlRole::Viewer)
        } else if str_eq(value, "operator") {
            Some(ControlRole::Operator)
        } else if str_eq(value, "admin") {
            Some(ControlRole::Admin)
        } else {
            None
        }
    }

    /// Whether this role grants at least `other`'s privileges.
    pub fn covers(&self, other: &ControlRole) -> (b: bool)
        ensures
            b == (role_rank(*self) >= role_rank(*other)),
    {
        let a: u8 = match self {
            ControlRole::Viewer => 0,
            ControlRole::Operator => 1,
            ControlRole::Admin => 2,
        };
        let b: u8 = match other {
            ControlRole::Viewer => 0,
            ControlRole::Operator => 1,
            ControlRole::Admin => 2,
        };
        a >= b
    }
}

/// The two public browser-login endpoints; neither approves anything.
pub open spec fn operator_login_route(m: Method, path: Seq<char>) -> bool {
    m == Method::Post && (path == "/api/operator-login"@ || path == "/api/operator-login/status"@)
}

pub fn is_operator_login_route(method: &Method, path: &str) -> (b: bool)
    ensures
        b == operator_login_route(*method, path@),
{
    *method == Method::Post && (str_eq(path, "/api/operator-login") || str_eq(
        path,
        "/api/operator-login/status",
    ))
}

/// Credential management and fleet registration are for administrators.
pub open spec fn admin_route(m: Method, path: Seq<char>) -> bool {
    ||| path == "/api/operator-credentials"@
    ||| has_prefix(path, "/api/operator-credentials/"@)
    ||| has_prefix(path, "/api/agent-credentials/"@)
    ||| has_suffix(path, "/credentials"@)
    ||| m == Method::Post && (path == "/api/agents"@ || path == "/api/agent-profiles"@ || path
        == "/api/accounts"@ || path == "/api/machines"@ || path == "/api/agent-instances"@)
}

pub fn is_admin_route(method: &Method, path: &str) -> (b: bool)
    ensures
        b == admin_route(*method, path@),
{
    if str_eq(path, "/api/operator-credentials") || starts_with(path, "/api/operator-credentials/")
        || starts_with(path, "/api/agent-credentials/") || ends_with(path, "/credentials") {
        return true;
    }
    if *method != Method::Post {
        return false;
    }
    str_eq(path, "/api/agents") || str_eq(path, "/api/agent-profiles") || str_eq(
        path,
        "/api/accounts",
    ) || str_eq(path, "/api/machines") || str_eq(path, "/api/agent-instances")
}

/// The role a control-plane request needs: admin routes need admin, reads need a
/// viewer, everything else an operator.
pub open spec fn required_role(m: Method, path: Seq<char>) -> ControlRole {
    if admin_route(m, path) {
        ControlRole::Admin
    } else if m == Method::Get || m == Method::Head {
        ControlRole::Viewer
    } else {
        ControlRole::Operator
    }
}

pub fn required_control_role(method: &Method, path: &str) -> (r: ControlRole)
    ensures
        r == required_role(*method, path@),
{
    if is_admin_route(method, path) {
        return ControlRole::Admin;
    }
    if *method == Method::Get || *method == Method::Head {
        ControlRole::Viewer
    } else {
        ControlRole::Operator
    }
}

/// Requests that the control-plane check leaves alone: preflight, everything outside
/// the API, the health probe, the browser login, and the employee surface.
pub open spec fn control_exempt(m: Method, path: Seq<char>) -> bool {
    m == Method::Options || !has_prefix(path, "/api/"@) || path == "/api/health"@
        || operator_login_route(m, path) || agent_surface(m, path)
}

/// The control-plane authentication settings.
pub struct OperatorAuthState {
    pub require_operator_auth: bool,
    pub bootstrap_token: Option<String>,
}

/// What to do with a request on the control plane.
pub enum OperatorAuthStep {
    /// Not a control-plane request: let it through.
    Pass,
    /// No credential, and none is required: the request runs as the local operator.
    Local,
    /// Answer with the rejection.
    Reject(AuthRejection),
    /// The configured bootstrap token: an administrator with no ledger record.
    Bootstrap,
    /// Verify this operator token with the ledger, then call
    /// `OperatorAuthState::admit_operator` with the role it must cover.
    VerifyOperatorToken { token: String, required: ControlRole },
}

/// `step` refuses with `status` and `message`.
pub open spec fn step_refuses(step: OperatorAuthStep, status: u16, message: Seq<char>) -> bool {
    match step {
        OperatorAuthStep::Reject(r) => r.status == status && r.message@ == message,
        _ => false,
    }
}

/// The first control-plane decision, as a relation between request and step.
pub open spec fn operator_step_matches(
    require: bool,
    bootstrap: Option<Seq<char>>,
    m: Method,
    path: Seq<char>,
    authorization: Option<Seq<char>>,
    step: OperatorAuthStep,
) -> bool {
    if control_exempt(m, path) {
        step is Pass
    } else {
        match authorization {
            None => if require {
                step_refuses(step, 401, "Bearer operator credential required"@)
            } else {
                step is Local
            },
            Some(a) => match bearer_token(a) {
                None => step_refuses(step, 401, "Authorization must use Bearer credentials"@),
                Some(t) => if bootstrap == Some(t) {
                    step is Bootstrap
                } else if has_prefix(t, operator_token_prefix()) {
                    step matches OperatorAuthStep::VerifyOperatorToken { token, required }
                        && token@ == t && required == required_role(m, path)
                } else if has_prefix(t, agent_token_prefix()) {
                    step_refuses(step, 403, "Agent credentials cannot access the control plane"@)
                } else {
                    step_refuses(step, 401, "invalid operator credential"@)
                },
            },
        }
    }
}

/// The message that refuses a role that is too low.
pub open spec fn role_required_message(required: ControlRole) -> Seq<char> {
    match required {
        ControlRole::Viewer => "viewer role required"@,
        ControlRole::Operator => "operator role required"@,
        ControlRole::Admin => "admin role required"@,
    }
}

/// The second control-plane decision: the verified credential's role must be known
/// and must cover the required role.
pub open spec fn operator_admission(role_text: Option<Seq<char>>, required: ControlRole) -> Result<
    ControlRole,
    (u16, Seq<char>),
> {
    match role_text {
        None => Err((401u16, "invalid or expired operator credential"@)),
        Some(t) => match role_named(t) {
            None => Err((403u16, "operator credential has an unknown role"@)),
            Some(role) => if role_rank(role) < role_rank(required) {
                Err((403u16, role_required_message(required)))
            } else {
                Ok(role)
            },
        },
    }
}

impl OperatorAuthState {
    pub fn new(require_operator_auth: bool, bootstrap_token: Option<String>) -> (s: Self)
        ensures
            s.require_operator_auth == require_operator_auth,
            s.bootstrap_token == bootstrap_token,
    {
        OperatorAuthState { require_operator_auth, bootstrap_token }
    }

    /// Decides on a request from its method, path and Authorization header.
    pub fn decide(&self, method: &Method, path: &str, authorization: Option<&str>) -> (step:
        OperatorAuthStep)
        ensures
            operator_step_matches(
                self.require_operator_auth,
                opt_text(self.bootstrap_token),
                *method,
                path@,
                match authorization {
                    Some(a) => Some(a@),
                    None => None,
                },
                step,
            ),
    {
        if *method == Method::Options || !starts_with(path, "/api/") || str_eq(path, "/api/health")
            || is_operator_login_route(method, path) || is_agent_http_surface(method, path) {
            return OperatorAuthStep::Pass;
        }
        let authorization = match authorization {
            Some(a) => a,
            None => {
                if self.require_operator_auth {
                    return OperatorAuthStep::Reject(
                        unauthorized("Bearer operator credential required"),
                    );
                }
                return OperatorAuthStep::Local;
            },
        };
        let token = match strip_bearer(authorization) {
            Some(t) => t,
            None => {
                return OperatorAuthStep::Reject(
                    unauthorized("Authorization must use Bearer credentials"),
                );
            },
        };
        let is_bootstrap = match &self.bootstrap_token {
            Some(b) => str_eq(b.as_str(), token.as_str()),
            None => false,
        };
        if is_bootstrap {
            OperatorAuthStep::Bootstrap
        } else if starts_with(token.as_str(), "mrw_operator_") {
            OperatorAuthStep::VerifyOperatorToken {
                token,
                required: required_control_role(method, path),
            }
        } else if starts_with(token.as_str(), "mrw_agent_") {
            OperatorAuthStep::Reject(forbidden("Agent credentials cannot access the control plane"))
        } else {
            OperatorAuthStep::Reject(unauthorized("invalid operator credential"))
        }
    }

    /// Takes the ledger's answer for an operator token (`None` when it is invalid,
    /// expired or revoked; else the credential's role text) and admits the request
    /// when that role covers the required one.
    pub fn admit_operator(&self, role_text: Option<&str>, required: ControlRole) -> (r: Result<
        ControlRole,
        AuthRejection,
    >)
        ensures
            match operator_admission(
                match role_text {
                    Some(t) => Some(t@),
                    None => None,
                },
                required,
            ) {
                Ok(role) => r == Ok::<ControlRole, AuthRejection>(role),
                Err((status, message)) => refused(r, status, message),
            },
    {
        let text = match role_text {
            Some(t) => t,
            None => {
                return Err(unauthorized("invalid or expired operator credential"));
            },
        };
        let role = match ControlRole::parse(text) {
            Some(r) => r,
            None => {
                return Err(forbidden("operator credential has an unknown role"));
            },
        };
        if !role.covers(&required) {
            return Err(
                forbidden(
                    match required {
                        ControlRole::Viewer => "viewer role required",
                        ControlRole::Operator => "operator role required",
                        ControlRole::Admin => "admin role required",
                    },
                ),
            );
        }
        Ok(role)
    }
}

/// An agent credential never opens the control plane: any control-plane request that
/// presents one is refused with 403, as long as the bootstrap token is an operator
/// token (which startup enforces).
pub proof fn law_agent_tokens_never_enter_control_plane(
    require: bool,
    bootstrap: Option<Seq<char>>,
    m: Method,
    path: Seq<char>,
    token: Seq<char>,
    step: OperatorAuthStep,
)
    requires
        bootstrap matches Some(b) ==> has_prefix(b, operator_token_prefix()),
        has_prefix(token, agent_token_prefix()),
        !control_exempt(m, path),
        operator_step_matches(require, bootstrap, m, path, Some("Bearer "@ + token), step),
    ensures
        step_refuses(step, 403, "Agent credentials cannot access the control plane"@),
{
    reveal_strlit("Bearer ");
    reveal_strlit("mrw_agent_");
    reveal_strlit("mrw_operator_");
    let a = "Bearer "@ + token;
    assert(a.take(7) =~= "Bearer "@);
    assert(a.skip(7) =~= token);
    assert(token.take(10) =~= "mrw_agent_"@);
    assert(token.take(10)[4] == 'a');
    assert(token[4] == 'a');
    assert(!has_prefix(token, operator_token_prefix())) by {
        if has_prefix(token, operator_token_prefix()) {
            assert(token.take(13) =~= "mrw_operator_"@);
            assert(token.take(13)[4] == 'o');
            assert(token[4] == 'o');
        }
    }
}

/// Admission is monotone in the role: whatever a role may do, every higher role may
/// do too, and a role always covers the requirements at or below it.
pub proof fn law_higher_roles_are_admitted(low: Seq<char>, high: Seq<char>, required: ControlRole)
    requires
        operator_admission(Some(low), required) is Ok,
        role_named(high) matches Some(h) && role_rank(h) >= role_rank(role_named(low).unwrap()),
    ensures
        operator_admission(Some(high), required) is Ok,
{
}

/// In strict mode every control-plane request without a credential is refused.
pub proof fn law_strict_control_plane_needs_a_credential(
    bootstrap: Option<Seq<char>>,
    m: Method,
    path: Seq<char>,
    step: OperatorAuthStep,
)
    requires
        !control_exempt(m, path),
        operator_step_matches(true, bootstrap, m, path, None, step),
    ensures
        step_refuses(step, 401, "Bearer operator credential required"@),
{
}

} // verus!
