//! Request authentication for both planes: employees (agents) with Bearer agent
//! credentials, and the control plane (operators) with role-carrying credentials.
//!
//! Each check is split where the server waits on the ledger: the first decision
//! either answers the request or names the token to verify, and the second decision
//! takes what the ledger returned.

use vstd::prelude::*;
use crate::ids::{uuid_parse, parse_uuid, Id};
use crate::text::{
    char_count, ends_with, has_prefix, has_suffix, owned, skip_chars, starts_with, str_eq,
};

verus! {

/// The HTTP methods that the routing rules tell apart.
#[derive(PartialEq, Eq, Structural)]
pub enum Method {
    Get,
    Head,
    Post,
    Put,
    Patch,
    Delete,
    Options,
    Other,
}

/// A refused request: the HTTP status and the error message of the JSON answer.
pub struct AuthRejection {
    pub status: u16,
    pub message: String,
}

/// `r` refuses with `status` and `message`.
pub open spec fn refused<T>(r: Result<T, AuthRejection>, status: u16, message: Seq<char>) -> bool {
    match r {
        Err(e) => e.status == status && e.message@ == message,
        Ok(_) => false,
    }
}

/// A 401 answer.
pub fn unauthorized(message: &str) -> (r: AuthRejection)
    ensures
        r.status == 401,
        r.message@ == message@,
{
    AuthRejection { status: 401, message: owned(message) }
}

/// A 403 answer.
pub fn forbidden(message: &str) -> (r: AuthRejection)
    ensures
        r.status == 403,
        r.message@ == message@,
{
    AuthRejection { status: 403, message: owned(message) }
}

pub open spec fn agent_instances_prefix() -> Seq<char> {
    "/api/agent-instances/"@
}

/// The routes that employees call with their own identity.
pub open spec fn agent_surface(m: Method, path: Seq<char>) -> bool {
    ||| path == "/mcp"@ || has_prefix(path, "/mcp/"@)
    ||| path == "/api/agent-deliveries"@ && m == Method::Get
    ||| has_prefix(path, "/api/agent-deliveries/"@) && m == Method::Post
    ||| path == "/api/launch-attempts/external/accept"@ && m == Method::Post
    ||| has_prefix(path, agent_instances_prefix()) && ({
        let rest = path.skip(agent_instances_prefix().len() as int);
        ||| has_suffix(rest, "/heartbeat"@) && m == Method::Post
        ||| has_suffix(rest, "/capacity"@) && m == Method::Post
        ||| has_suffix(rest, "/external-launches"@) && m == Method::Get
    })
}

/// Whether a request targets the employee surface.
pub fn is_agent_http_surface(method: &Method, path: &str) -> (b: bool)
    ensures
        b == agent_surface(*method, path@),
{
    if str_eq(path, "/mcp") || starts_with(path, "/mcp/") {
        return true;
    }
    if str_eq(path, "/api/agent-deliveries") && *method == Method::Get {
        return true;
    }
    if starts_with(path, "/api/agent-deliveries/") && *method == Method::Post {
        return true;
    }
    if str_eq(path, "/api/launch-attempts/external/accept") && *method == Method::Post {
        return true;
    }
    if starts_with(path, "/api/agent-instances/") {
        proof {
            reveal_strlit("/api/agent-instances/");
        }
        let rest = skip_chars(path, char_count("/api/agent-instances/"));
        if ends_with(rest.as_str(), "/heartbeat") && *method == Method::Post {
            return true;
        }
        if ends_with(rest.as_str(), "/capacity") && *method == Method::Post {
            return true;
        }
        if ends_with(rest.as_str(), "/external-launches") && *method == Method::Get {
            return true;
        }
    }
    false
}

/// The prefix of every issued agent credential.
pub open spec fn agent_token_prefix() -> Seq<char> {
    "mrw_agent_"@
}

/// The prefix of every issued operator credential.
pub open spec fn operator_token_prefix() -> Seq<char> {
    "mrw_operator_"@
}

/// The token of a `Bearer` Authorization value.
pub open spec fn bearer_token(authorization: Seq<char>) -> Option<Seq<char>> {
    if has_prefix(authorization, "Bearer "@) {
        Some(authorization.skip(7))
    } else {
        None
    }
}

/// Reads the token of a `Bearer` Authorization value.
pub fn strip_bearer(authorization: &str) -> (r: Option<String>)
    ensures
        match r {
            Some(t) => bearer_token(authorization@) == Some(t@),
            None => bearer_token(authorization@) is None,
        },
{
    if starts_with(authorization, "Bearer ") {
        proof {
            reveal_strlit("Bearer ");
        }
        Some(skip_chars(authorization, 7))
    } else {
        None
    }
}

/// The employee-plane authentication settings.
pub struct AgentAuthState {
    pub require_agent_auth: bool,
}

/// What to do with a request on the employee plane.
pub enum AgentAuthStep {
    /// Let the request through unchanged.
    Pass,
    /// Answer with the rejection.
    Reject(AuthRejection),
    /// Verify this agent token with the ledger, then call `AgentAuthState::admit_agent`.
    VerifyAgentToken(String),
}

/// The first decision on the employee plane, as a relation between the request and
/// the step: which requests are answered, which pass, and which token is verified.
pub open spec fn agent_step_matches(
    require: bool,
    m: Method,
    path: Seq<char>,
    authorization: Option<Seq<char>>,
    claimed: bool,
    step: AgentAuthStep,
) -> bool {
    let guarded = require && (agent_surface(m, path) || claimed);
    match authorization {
        Some(a) => match bearer_token(a) {
            None => step matches AgentAuthStep::Reject(r) && r.status == 401 && r.message@
                == "Authorization must use Bearer credentials"@,
            Some(t) => if has_prefix(t, agent_token_prefix()) {
                step matches AgentAuthStep::VerifyAgentToken(v) && v@ == t
            } else if guarded {
                step matches AgentAuthStep::Reject(r) && r.status == 401 && r.message@
                    == "Bearer Agent credential required"@
            } else {
                step is Pass
            },
        },
        None => if guarded {
            step matches AgentAuthStep::Reject(r) && r.status == 401 && r.message@
                == "Bearer Agent credential required"@
        } else {
            step is Pass
        },
    }
}

impl AgentAuthState {
    pub fn new(require_agent_auth: bool) -> (s: Self)
        ensures
            s.require_agent_auth == require_agent_auth,
    {
        AgentAuthState { require_agent_auth }
    }

    /// Decides on a request from its method, path, Authorization header and claimed
    /// `X-Agent-Instance-Id` header (each header `None` when absent or not text).
    pub fn decide(
        &self,
        method: &Method,
        path: &str,
        authorization: Option<&str>,
        claimed_agent: Option<&str>,
    ) -> (step: AgentAuthStep)
        ensures
            agent_step_matches(
                self.require_agent_auth,
                *method,
                path@,
                match authorization {
                    Some(a) => Some(a@),
                    None => None,
                },
                claimed_agent is Some,
                step,
            ),
    {
        let guarded = self.require_agent_auth && (is_agent_http_surface(method, path)
            || claimed_agent.is_some());
        match authorization {
            Some(authorization) => {
                let token = match strip_bearer(authorization) {
                    Some(t) => t,
                    None => {
                        return AgentAuthStep::Reject(
                            unauthorized("Authorization must use Bearer credentials"),
                        );
                    },
                };
                if starts_with(token.as_str(), "mrw_agent_") {
                    AgentAuthStep::VerifyAgentToken(token)
                } else if guarded {
                    AgentAuthStep::Reject(unauthorized("Bearer Agent credential required"))
                } else {
                    AgentAuthStep::Pass
                }
            },
            None => if guarded {
                AgentAuthStep::Reject(unauthorized("Bearer Agent credential required"))
            } else {
                AgentAuthStep::Pass
            },
        }
    }

    /// Takes the ledger's answer for an agent token (`None` when the token is
    /// invalid, expired or revoked; else the credential's agent instance) and returns
    /// the identity the request runs as: always the credential's subject.
    pub fn admit_agent(&self, subject: Option<Id>, claimed_agent: Option<&str>) -> (r: Result<
        Id,
        AuthRejection,
    >)
        ensures
            subject is None ==> refused(r, 401, "invalid or expired Agent credential"@),
            subject matches Some(id) ==> match claimed_agent {
                None => r == Ok::<Id, AuthRejection>(id),
                Some(c) => match uuid_parse(c@) {
                    None => refused(r, 401, "invalid X-Agent-Instance-Id"@),
                    Some(cid) => if cid == id {
                        r == Ok::<Id, AuthRejection>(id)
                    } else {
                        refused(
                            r,
                            401,
                            "Agent credential subject does not match X-Agent-Instance-Id"@,
                        )
                    },
                },
            },
    {
        let id = match subject {
            Some(id) => id,
            None => {
                return Err(unauthorized("invalid or expired Agent credential"));
            },
        };
        if let Some(claimed) = claimed_agent {
            match parse_uuid(claimed) {
                None => {
                    return Err(unauthorized("invalid X-Agent-Instance-Id"));
                },
                Some(cid) => if cid != id {
                    return Err(
                        unauthorized("Agent credential subject does not match X-Agent-Instance-Id"),
                    );
                },
            }
        }
        Ok(id)
    }
}

/// In strict mode, no request to the employee surface and no request that claims an
/// agent identity gets through without a Bearer agent token to verify.
pub proof fn law_strict_employee_surface_needs_agent_token(
    m: Method,
    path: Seq<char>,
    authorization: Option<Seq<char>>,
    claimed: bool,
    step: AgentAuthStep,
)
    requires
        agent_step_matches(true, m, path, authorization, claimed, step),
        agent_surface(m, path) || claimed,
    ensures
        step is Pass ==> false,
        !(step is Reject) ==> match (authorization, step) {
            (Some(a), AgentAuthStep::VerifyAgentToken(v)) => bearer_token(a) == Some(v@)
                && has_prefix(v@, agent_token_prefix()),
            _ => false,
        },
{
}


/// An operator credential is never taken for an agent credential: a request that
/// presents one is never sent to agent-token verification.
pub proof fn law_operator_tokens_never_verified_as_agents(
    require: bool,
    m: Method,
    path: Seq<char>,
    token: Seq<char>,
    claimed: bool,
    step: AgentAuthStep,
)
    requires
        has_prefix(token, operator_token_prefix()),
        agent_step_matches(require, m, path, Some("Bearer "@ + token), claimed, step),
    ensures
        !(step is VerifyAgentToken),
{
    reveal_strlit("Bearer ");
    reveal_strlit("mrw_agent_");
    reveal_strlit("mrw_operator_");
    let a = "Bearer "@ + token;
    assert(a.take(7) =~= "Bearer "@);
    assert(a.skip(7) =~= token);
    assert(token.take(13) =~= "mrw_operator_"@);
    assert("mrw_operator_"@[4] == 'o');
    assert(token.take(13)[4] == 'o');
    assert(token[4] == 'o');
    assert(!has_prefix(token, agent_token_prefix())) by {
        if has_prefix(token, agent_token_prefix()) {
            assert(token.take(10) =~= "mrw_agent_"@);
            assert("mrw_agent_"@[4] == 'a');
            assert(token.take(10)[4] == 'a');
        }
    }
}

} // verus!
