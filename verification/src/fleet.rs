//! Managed Codex agents: the checks and choices made when an operator adds a Codex
//! CLI employee to the fleet.

use vstd::prelude::*;
use crate::collab::RegisterProfile;
use crate::domain::{fails_with, DomainError, ErrorKind};
use crate::ids::Id;
use crate::json::Json;
use crate::launch::{is_absolute, path_is_absolute, trim_optional, trimmed_opt, LaunchProfile};
use crate::text::{
    ascii_lower, clone_opt, concat2, is_empty_text, opt_text, owned, str_eq, to_ascii_lowercase,
    trim, trimmed, views,
};

verus! {

/// A profile identity of the fleet.
pub struct AgentProfile {
    pub id: Id,
    pub name: String,
    pub provider: String,
    pub kind: String,
    pub default_capabilities: Vec<String>,
    pub metadata: Json,
    pub created_at: i64,
    pub updated_at: i64,
}

/// The request to add a managed Codex agent.
pub struct CreateManagedCodexAgent {
    pub email: String,
    pub credential_ref: String,
    pub display_name: Option<String>,
    pub machine_id: Option<Id>,
    pub default_cwd: Option<String>,
    pub model: Option<String>,
}

/// The account e-mail as stored: trimmed and ASCII lower-cased.
pub open spec fn normalized_email(email: Seq<char>) -> Seq<char> {
    trimmed(email).map_values(|c: char| ascii_lower(c))
}

/// The normalized e-mail and the trimmed credential reference of a request; both are
/// required.
pub fn managed_codex_identity(email: &str, credential_ref: &str) -> (r: Result<(String, String), DomainError>)
    ensures
        match r {
            Ok((e, c)) => e@ == normalized_email(email@) && c@ == trimmed(credential_ref@) && e@.len()
                > 0 && c@.len() > 0,
            Err(_) => (normalized_email(email@).len() == 0 || trimmed(credential_ref@).len() == 0)
                && fails_with(r, ErrorKind::InvalidInput, "email and credential_ref are required"@),
        },
{
    let t = trim(email);
    let e = to_ascii_lowercase(t.as_str());
    let c = trim(credential_ref);
    if is_empty_text(e.as_str()) || is_empty_text(c.as_str()) {
        return Err(DomainError::InvalidInput(owned("email and credential_ref are required")));
    }
    Ok((e, c))
}

/// The profile identity of managed Codex agents: provider `openai`, name `Codex CLI`.
pub open spec fn is_codex_profile(p: AgentProfile) -> bool {
    p.provider@ == "openai"@ && p.name@ == "Codex CLI"@
}

/// The first Codex profile identity, if one is registered.
pub fn find_codex_profile(profiles: &Vec<AgentProfile>) -> (r: Option<usize>)
    ensures
        match r {
            Some(i) => i < profiles.len() && is_codex_profile(profiles@[i as int]) && forall|j: int|
                0 <= j < i ==> !is_codex_profile(#[trigger] profiles@[j]),
            None => forall|j: int| 0 <= j < profiles.len() ==> !is_codex_profile(#[trigger] profiles@[j]),
        },
{
    let mut i: usize = 0;
    while i < profiles.len()
        invariant
            i <= profiles.len(),
            forall|j: int| 0 <= j < i ==> !is_codex_profile(#[trigger] profiles@[j]),
        decreases profiles.len() - i,
    {
        if str_eq(profiles[i].provider.as_str(), "openai") && str_eq(
            profiles[i].name.as_str(),
            "Codex CLI",
        ) {
            return Some(i);
        }
        i = i + 1;
    }
    None
}

pub open spec fn codex_capabilities() -> Seq<Seq<char>> {
    seq!["rust"@, "typescript"@, "code"@, "review"@, "mcp"@]
}

/// The profile identity registered when none exists yet.
pub fn managed_codex_profile() -> (p: RegisterProfile)
    ensures
        p.name@ == "Codex CLI"@,
        p.provider@ == "openai"@,
        p.kind@ == "coding_agent"@,
        views(p.default_capabilities@) == codex_capabilities(),
        p.metadata matches Json::Object(e) && e@.len() == 1 && e@[0].0@ == "managed_by"@
            && (e@[0].1 matches Json::Str(v) && v@ == "morrows"@),
{
    let caps = vec![owned("rust"), owned("typescript"), owned("code"), owned("review"), owned("mcp")];
    assert(views(caps@) =~= codex_capabilities());
    RegisterProfile {
        name: owned("Codex CLI"),
        provider: owned("openai"),
        kind: owned("coding_agent"),
        default_capabilities: caps,
        metadata: Json::Object(vec![(owned("managed_by"), Json::Str(owned("morrows")))]),
    }
}

/// What `Path::file_name` gives for a path: its last component, or `None` where the
/// path ends in `..` or has no component.
pub uninterp spec fn path_file_name(path: Seq<char>) -> Option<Seq<char>>;

/// Calls `std::path::Path::file_name` and reads the name as text; a name taken from a
/// `&str` path is always valid UTF-8.
#[verifier::external_body]
fn file_name(path: &str) -> (r: Option<String>)
    ensures
        match r {
            Some(n) => path_file_name(path@) == Some(n@),
            None => path_file_name(path@) is None,
        },
{
    match std::path::Path::new(path).file_name() {
        Some(name) => name.to_str().map(|n| n.to_owned()),
        None => None,
    }
}

/// An enabled Codex CLI launch profile.
pub open spec fn usable_codex_launch(p: LaunchProfile) -> bool {
    p.adapter@ == "codex_cli"@ && p.enabled
}

/// Profile `i` is usable and its program is named `codex`.
pub open spec fn named_template(ps: Seq<LaunchProfile>, i: int) -> bool {
    0 <= i < ps.len() && usable_codex_launch(ps[i]) && path_file_name(ps[i].program@) == Some(
        "codex"@,
    )
}

pub open spec fn first_named_template(ps: Seq<LaunchProfile>, i: int) -> bool {
    named_template(ps, i) && forall|j: int| 0 <= j < i ==> !named_template(ps, j)
}

pub open spec fn usable_at(ps: Seq<LaunchProfile>, i: int) -> bool {
    0 <= i < ps.len() && usable_codex_launch(ps[i])
}

pub open spec fn first_usable(ps: Seq<LaunchProfile>, i: int) -> bool {
    usable_at(ps, i) && forall|j: int| 0 <= j < i ==> !usable_at(ps, j)
}

/// The launch profile whose settings a new managed agent copies: the first usable one
/// whose program is named `codex`, else the first usable one.
pub open spec fn codex_template_of(ps: Seq<LaunchProfile>) -> Option<int> {
    if exists|i: int| named_template(ps, i) {
        Some(choose|i: int| first_named_template(ps, i))
    } else if exists|i: int| usable_at(ps, i) {
        Some(choose|i: int| first_usable(ps, i))
    } else {
        None
    }
}

fn is_usable_codex_launch(p: &LaunchProfile) -> (b: bool)
    ensures
        b == usable_codex_launch(*p),
{
    str_eq(p.adapter.as_str(), "codex_cli") && p.enabled
}

fn named_codex(p: &LaunchProfile) -> (b: bool)
    ensures
        b == (path_file_name(p.program@) == Some("codex"@)),
{
    match file_name(p.program.as_str()) {
        Some(n) => str_eq(n.as_str(), "codex"),
        None => false,
    }
}

/// Picks the template launch profile of a new managed agent.
pub fn codex_template(ps: &Vec<LaunchProfile>) -> (r: Option<usize>)
    ensures
        match r {
            Some(i) => i < ps.len() && codex_template_of(ps@) == Some(i as int),
            None => codex_template_of(ps@) is None,
        },
{
    let mut i: usize = 0;
    while i < ps.len()
        invariant
            i <= ps.len(),
            forall|j: int| 0 <= j < i ==> !named_template(ps@, j),
        decreases ps.len() - i,
    {
        if is_usable_codex_launch(&ps[i]) && named_codex(&ps[i]) {
            proof {
                let w = i as int;
                assert(first_named_template(ps@, w));
                let c = choose|k: int| first_named_template(ps@, k);
                assert(first_named_template(ps@, c));
                if c < w {
                    assert(!named_template(ps@, c));
                } else if c > w {
                    assert(!named_template(ps@, w));
                }
                assert(c == w);
            }
            return Some(i);
        }
        i = i + 1;
    }
    let mut k: usize = 0;
    while k < ps.len()
        invariant
            k <= ps.len(),
            forall|j: int| 0 <= j < ps.len() ==> !named_template(ps@, j),
            forall|j: int| 0 <= j < k ==> !usable_at(ps@, j),
        decreases ps.len() - k,
    {
        if is_usable_codex_launch(&ps[k]) {
            proof {
                let w = k as int;
                assert(first_usable(ps@, w));
                let c = choose|m: int| first_usable(ps@, m);
                assert(first_usable(ps@, c));
                if c < w {
                    assert(!usable_at(ps@, c));
                } else if c > w {
                    assert(!usable_at(ps@, w));
                }
                assert(c == w);
            }
            return Some(k);
        }
        k = k + 1;
    }
    None
}

pub open spec fn profile_entry(fleet: Seq<(Id, Option<Id>)>, profile: Id, i: int) -> bool {
    0 <= i < fleet.len() && fleet[i].0 == profile
}

pub open spec fn first_profile_entry(fleet: Seq<(Id, Option<Id>)>, profile: Id, i: int) -> bool {
    profile_entry(fleet, profile, i) && forall|j: int| 0 <= j < i ==> !profile_entry(fleet, profile, j)
}

/// The machine of a new managed agent: the requested one, else that of the first
/// fleet entry of its profile identity (none where that entry has no machine).
pub open spec fn managed_machine_of(
    requested: Option<Id>,
    profile: Id,
    fleet: Seq<(Id, Option<Id>)>,
) -> Option<Id> {
    match requested {
        Some(m) => Some(m),
        None => if exists|i: int| profile_entry(fleet, profile, i) {
            fleet[choose|i: int| first_profile_entry(fleet, profile, i)].1
        } else {
            None
        },
    }
}

/// Picks the machine; `fleet` holds each fleet entry's profile identity and machine.
pub fn managed_machine(requested: Option<Id>, profile: Id, fleet: &Vec<(Id, Option<Id>)>) -> (r:
    Option<Id>)
    ensures
        r == managed_machine_of(requested, profile, fleet@),
{
    if requested.is_some() {
        return requested;
    }
    let mut i: usize = 0;
    while i < fleet.len()
        invariant
            i <= fleet.len(),
            requested is None,
            forall|j: int| 0 <= j < i ==> !profile_entry(fleet@, profile, j),
        decreases fleet.len() - i,
    {
        if fleet[i].0 == profile {
            proof {
                let w = i as int;
                assert(first_profile_entry(fleet@, profile, w));
                let c = choose|k: int| first_profile_entry(fleet@, profile, k);
                assert(first_profile_entry(fleet@, profile, c));
                if c < w {
                    assert(!profile_entry(fleet@, profile, c));
                } else if c > w {
                    assert(!profile_entry(fleet@, profile, w));
                }
                assert(c == w);
            }
            return fleet[i].1;
        }
        i = i + 1;
    }
    None
}

pub open spec fn cwd_not_absolute_message(cwd: Seq<char>) -> Seq<char> {
    "default_cwd must be an absolute path on the target machine: "@ + cwd
}

/// The working directory of a new managed agent: the requested one (trimmed), else
/// the template's, else the server's own; it must be absolute.
pub open spec fn managed_cwd_of(
    requested: Option<Seq<char>>,
    template_cwd: Option<Seq<char>>,
    server_cwd: Seq<char>,
) -> Seq<char> {
    match trimmed_opt(requested) {
        Some(c) => c,
        None => match template_cwd {
            Some(c) => c,
            None => server_cwd,
        },
    }
}

pub fn managed_default_cwd(
    requested: &Option<String>,
    template_cwd: &Option<String>,
    server_cwd: &str,
) -> (r: Result<String, DomainError>)
    ensures
        match r {
            Ok(c) => c@ == managed_cwd_of(opt_text(*requested), opt_text(*template_cwd), server_cwd@)
                && is_absolute(c@),
            Err(_) => !is_absolute(managed_cwd_of(opt_text(*requested), opt_text(*template_cwd), server_cwd@))
                && fails_with(
                r,
                ErrorKind::InvalidInput,
                cwd_not_absolute_message(
                    managed_cwd_of(opt_text(*requested), opt_text(*template_cwd), server_cwd@),
                ),
            ),
        },
{
    let cwd = match trim_optional(clone_opt(requested)) {
        Some(c) => c,
        None => match template_cwd {
            Some(c) => c.clone(),
            None => owned(server_cwd),
        },
    };
    if !path_is_absolute(cwd.as_str()) {
        return Err(
            DomainError::InvalidInput(
                concat2("default_cwd must be an absolute path on the target machine: ", cwd.as_str()),
            ),
        );
    }
    Ok(cwd)
}

pub open spec fn no_codex_program_message() -> Seq<char> {
    "no Codex CLI program reference is configured for the target machine"@
}

pub open spec fn program_not_absolute_message(p: Seq<char>) -> Seq<char> {
    "Codex CLI program must be an absolute path on the target machine: "@ + p
}

/// The Codex program of a new managed agent: the `MORROWS_CODEX_PROGRAM` setting,
/// else the template's program, each trimmed and only where not blank.
pub open spec fn codex_program_of(configured: Option<Seq<char>>, template_program: Option<Seq<char>>) -> Option<
    Seq<char>,
> {
    match trimmed_opt(configured) {
        Some(p) => Some(p),
        None => trimmed_opt(template_program),
    }
}

pub fn resolve_codex_program(configured: Option<&str>, template_program: Option<&str>) -> (r: Result<
    String,
    DomainError,
>)
    ensures
        match codex_program_of(
            match configured {
                Some(c) => Some(c@),
                None => None,
            },
            match template_program {
                Some(t) => Some(t@),
                None => None,
            },
        ) {
            None => fails_with(r, ErrorKind::InvalidState, no_codex_program_message()),
            Some(p) => if is_absolute(p) {
                r matches Ok(s) && s@ == p
            } else {
                fails_with(r, ErrorKind::InvalidInput, program_not_absolute_message(p))
            },
        },
{
    let from_config = match configured {
        Some(c) => trim_optional(Some(owned(c))),
        None => None,
    };
    let program = match from_config {
        Some(p) => p,
        None => {
            let from_template = match template_program {
                Some(t) => trim_optional(Some(owned(t))),
                None => None,
            };
            match from_template {
                Some(p) => p,
                None => {
                    return Err(
                        DomainError::InvalidState(
                            owned("no Codex CLI program reference is configured for the target machine"),
                        ),
                    );
                },
            }
        },
    };
    if !path_is_absolute(program.as_str()) {
        return Err(
            DomainError::InvalidInput(
                concat2(
                    "Codex CLI program must be an absolute path on the target machine: ",
                    program.as_str(),
                ),
            ),
        );
    }
    Ok(program)
}

} // verus!
