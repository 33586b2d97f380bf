//! The employee MCP surface: its request shapes, and the decisions its tools make
//! between reads of the ledger (discovery filters, access to a task, the shape of a
//! fresh task context, which context revision a read selects).

use vstd::prelude::*;
use crate::collab::{CreateArtifact, CreateDecision, CreateHandoff, CreateMessage, CreateThread};
use crate::domain::{law_task_state_text_round_trip, task_state_named, task_state_text, TaskState};
use crate::ids::{id_text, invalid_uuid_message, parse_id, uuid_hyphenated, uuid_parse, Id};
use crate::json::{get, get_of, is_text, lemma_member_at, Json};
use crate::records::{ContextRevision, CreateTask};
use crate::text::{all_ws, concat2, is_blank, owned, str_eq};

verus! {

/// A task identifier as the tool receives it.
pub struct TaskIdRequest {
    pub task_id: String,
}

/// A page of a listing: `limit` rows (1..100, 20 by default) from `offset`.
pub struct PageRequest {
    pub limit: i64,
    pub offset: i64,
}

impl PageRequest {
    /// The first page of the default size.
    pub fn first_page() -> (p: PageRequest)
        ensures
            p.limit == 20 && p.offset == 0,
    {
        PageRequest { limit: crate::domain::default_limit(), offset: 0 }
    }
}

/// Which tasks `task_list` searches.
#[derive(PartialEq, Eq, Structural)]
pub enum TaskListScope {
    /// Tasks assigned to one agent (the caller unless another is named); the default.
    Assigned,
    /// Every task.
    All,
}

pub struct TaskListRequest {
    pub scope: TaskListScope,
    pub agent_instance_id: Option<String>,
    pub project_id: Option<String>,
    pub state: Option<String>,
    pub include_completed: bool,
    pub page: PageRequest,
}

pub struct TaskPageRequest {
    pub task_id: String,
    pub page: PageRequest,
}

pub struct MemoryRequest {
    pub task_id: String,
    pub context_revision_id: Option<String>,
    pub include_superseded: bool,
    pub include_context_history: bool,
    pub page: PageRequest,
}

pub struct CollaborationRequest {
    pub task_id: String,
    pub section: Option<String>,
    pub page: PageRequest,
}

pub struct EventsRequest {
    pub task_id: String,
    pub event_type: Option<String>,
    pub page: PageRequest,
}

pub struct ProjectRequest {
    pub project_id: String,
    pub include_superseded: bool,
    pub page: PageRequest,
}

pub struct WorkRequestSubmitRequest {
    pub title: String,
    pub description: String,
}

pub struct RenewAssignmentRequest {
    pub assignment_id: String,
    pub lease_seconds: i64,
}

pub struct CheckpointRunRequest {
    pub run_id: String,
    pub checkpoint: Json,
}

pub struct CompleteRunRequest {
    pub run_id: String,
    pub result: Json,
}

pub struct ReviseContextRequest {
    pub task_id: String,
    pub goal: String,
    pub background: String,
    pub constraints: Json,
    pub current_summary: String,
}

pub struct CreateArtifactRequest {
    pub task_id: String,
    pub input: CreateArtifact,
}

pub struct CreateDecisionRequest {
    pub task_id: String,
    pub input: CreateDecision,
}

pub struct CreateThreadRequest {
    pub task_id: String,
    pub input: CreateThread,
}

pub struct CreateMessageRequest {
    pub task_id: String,
    pub thread_id: String,
    pub input: CreateMessage,
}

pub struct CreateHandoffRequest {
    pub run_id: String,
    pub input: CreateHandoff,
}

pub struct AcceptHandoffRequest {
    pub handoff_id: String,
    pub target_run_id: String,
}

pub struct HandoffIdRequest {
    pub handoff_id: String,
}

pub struct SessionSummaryRequest {
    pub session_id: String,
}

pub struct DeliveryInboxRequest {
    pub limit: Option<i64>,
}

pub struct DeliveryAckRequest {
    pub delivery_id: String,
}

pub struct ReviseSessionSummaryRequest {
    pub session_id: String,
    pub goal: String,
    pub current_state: String,
    pub important_findings: Vec<String>,
    pub decisions: Vec<String>,
    pub blockers: Vec<String>,
    pub unresolved_questions: Vec<String>,
    pub next_steps: Vec<String>,
    /// Sorted by key, each key once.
    pub deterministic_facts: Vec<(String, String)>,
}

/// The actor text of an agent instance: `agent:<id>`.
pub open spec fn agent_actor_text(id: Id) -> Seq<char> {
    "agent:"@ + uuid_hyphenated(id)
}

pub fn agent_actor(id: Id) -> (s: String)
    ensures
        s@ == agent_actor_text(id),
{
    let t = id_text(id);
    concat2("agent:", t.as_str())
}

/// The label that records which tool acknowledged a delivery for an agent:
/// `<tool>:<id>`.
pub fn tool_actor(tool: &str, id: Id) -> (s: String)
    ensures
        s@ == tool@ + ":"@ + uuid_hyphenated(id),
{
    let head = concat2(tool, ":");
    let t = id_text(id);
    concat2(head.as_str(), t.as_str())
}

/// The page size of the inbox and session reads: as asked, else 80.
pub fn inbox_limit(limit: Option<i64>) -> (n: i64)
    ensures
        n == match limit {
            Some(l) => l,
            None => 80,
        },
{
    match limit {
        Some(l) => l,
        None => 80,
    }
}

/// An optional identifier in request text: absent stays absent; present text must
/// be a UUID.
pub open spec fn parsed_opt_id(raw: Option<Seq<char>>) -> Result<Option<Id>, Seq<char>> {
    match raw {
        None => Ok(None),
        Some(t) => match uuid_parse(t) {
            Some(id) => Ok(Some(id)),
            None => Err(invalid_uuid_message(t)),
        },
    }
}

pub open spec fn opt_string(o: Option<String>) -> Option<Seq<char>> {
    match o {
        Some(s) => Some(s@),
        None => None,
    }
}

pub fn parse_opt_id(raw: &Option<String>) -> (r: Result<Option<Id>, String>)
    ensures
        match r {
            Ok(v) => parsed_opt_id(opt_string(*raw)) == Ok::<Option<Id>, Seq<char>>(v),
            Err(e) => parsed_opt_id(opt_string(*raw)) == Err::<Option<Id>, Seq<char>>(e@),
        },
{
    match raw {
        None => Ok(None),
        Some(t) => match parse_id(t.as_str()) {
            Ok(id) => Ok(Some(id)),
            Err(e) => Err(e),
        },
    }
}

/// The query a `task_list` call runs.
#[derive(PartialEq, Eq, Structural)]
pub struct TaskListFilter {
    pub agent_instance_id: Option<Id>,
    pub project_id: Option<Id>,
    pub state: Option<TaskState>,
    pub include_completed: bool,
}

pub open spec fn assigned_scope_message() -> Seq<char> {
    "agent_instance_id requires scope=assigned"@
}

/// The filter of a `task_list` call by `caller`, or why the request is refused. The
/// assigned scope lists the named agent's tasks, the caller's by default; naming an
/// agent with the `all` scope is refused.
pub open spec fn task_list_filter_of(
    scope: TaskListScope,
    agent: Option<Seq<char>>,
    caller: Id,
    project: Option<Seq<char>>,
    state: Option<Seq<char>>,
    include_completed: bool,
) -> Result<TaskListFilter, Seq<char>> {
    let agent_filter: Result<Option<Id>, Seq<char>> = match scope {
        TaskListScope::Assigned => match parsed_opt_id(agent) {
            Ok(Some(id)) => Ok(Some(id)),
            Ok(None) => Ok(Some(caller)),
            Err(e) => Err(e),
        },
        TaskListScope::All => if agent is Some {
            Err(assigned_scope_message())
        } else {
            Ok(None)
        },
    };
    match agent_filter {
        Err(e) => Err(e),
        Ok(a) => match parsed_opt_id(project) {
            Err(e) => Err(e),
            Ok(p) => match state {
                None => Ok(
                    TaskListFilter {
                        agent_instance_id: a,
                        project_id: p,
                        state: None,
                        include_completed,
                    },
                ),
                Some(t) => match task_state_named(t) {
                    Some(s) => Ok(
                        TaskListFilter {
                            agent_instance_id: a,
                            project_id: p,
                            state: Some(s),
                            include_completed,
                        },
                    ),
                    None => Err("invalid state: "@ + t),
                },
            },
        },
    }
}

/// A task list keeps every filter the request asks for: the project named (parsed),
/// the state named, whether completed tasks are included, and the agent (named, or
/// the caller by default) in the assigned scope; the `all` scope lists every agent's
/// tasks and names none.
pub proof fn law_task_list_keeps_the_requested_filters(
    scope: TaskListScope,
    agent: Option<Seq<char>>,
    caller: Id,
    project: Option<Seq<char>>,
    state: Option<Seq<char>>,
    include_completed: bool,
)
    ensures
        task_list_filter_of(scope, agent, caller, project, state, include_completed) matches Ok(f)
            ==> {
            &&& f.include_completed == include_completed
            &&& match project {
                None => f.project_id is None,
                Some(t) => f.project_id is Some && f.project_id == uuid_parse(t),
            }
            &&& match state {
                None => f.state is None,
                Some(t) => f.state matches Some(s) && task_state_text(s) == t,
            }
            &&& match scope {
                TaskListScope::All => agent is None && f.agent_instance_id is None,
                TaskListScope::Assigned => match agent {
                    None => f.agent_instance_id == Some(caller),
                    Some(t) => f.agent_instance_id is Some && f.agent_instance_id == uuid_parse(t),
                },
            }
        },
        project matches Some(t) && uuid_parse(t) is None ==> task_list_filter_of(
            scope,
            agent,
            caller,
            project,
            state,
            include_completed,
        ) is Err,
{
    if let Some(t) = state {
        if let Some(s) = task_state_named(t) {
            law_task_state_text_round_trip(s, t);
        }
    }
}

pub fn task_list_filter(req: &TaskListRequest, caller: Id) -> (r: Result<TaskListFilter, String>)
    ensures
        match r {
            Ok(f) => task_list_filter_of(
                req.scope,
                opt_string(req.agent_instance_id),
                caller,
                opt_string(req.project_id),
                opt_string(req.state),
                req.include_completed,
            ) == Ok::<TaskListFilter, Seq<char>>(f),
            Err(e) => task_list_filter_of(
                req.scope,
                opt_string(req.agent_instance_id),
                caller,
                opt_string(req.project_id),
                opt_string(req.state),
                req.include_completed,
            ) == Err::<TaskListFilter, Seq<char>>(e@),
        },
        r matches Ok(f) ==> f.include_completed == req.include_completed && match req.project_id {
            None => f.project_id is None,
            Some(t) => f.project_id is Some && f.project_id == uuid_parse(t@),
        } && (req.scope is Assigned && req.agent_instance_id is None ==> f.agent_instance_id
            == Some(caller)) && (req.scope is All ==> f.agent_instance_id is None),
{
    proof {
        law_task_list_keeps_the_requested_filters(
            req.scope,
            opt_string(req.agent_instance_id),
            caller,
            opt_string(req.project_id),
            opt_string(req.state),
            req.include_completed,
        );
    }
    let agent = match req.scope {
        TaskListScope::Assigned => match parse_opt_id(&req.agent_instance_id) {
            Ok(Some(id)) => Some(id),
            Ok(None) => Some(caller),
            Err(e) => {
                return Err(e);
            },
        },
        TaskListScope::All => {
            if req.agent_instance_id.is_some() {
                return Err(owned("agent_instance_id requires scope=assigned"));
            }
            None
        },
    };
    let project = match parse_opt_id(&req.project_id) {
        Ok(p) => p,
        Err(e) => {
            return Err(e);
        },
    };
    let state = match &req.state {
        None => None,
        Some(t) => match TaskState::parse(t.as_str()) {
            Ok(s) => Some(s),
            Err(e) => {
                return Err(e.message());
            },
        },
    };
    Ok(
        TaskListFilter {
            agent_instance_id: agent,
            project_id: project,
            state,
            include_completed: req.include_completed,
        },
    )
}

/// The scope a listing reports: `assigned` when it was limited to one agent.
pub fn filter_scope_label(filter: &TaskListFilter) -> (s: String)
    ensures
        s@ == (if filter.agent_instance_id is Some {
            "assigned"@
        } else {
            "all"@
        }),
{
    if filter.agent_instance_id.is_some() {
        owned("assigned")
    } else {
        owned("all")
    }
}

pub open spec fn stale_offset_reason() -> Seq<char> {
    "No tasks at this offset. Restart at offset=0 with the same filters to refresh this live listing."@
}

pub open spec fn no_match_reason() -> Seq<char> {
    "No tasks match these filters; this is not a permission restriction. Use scope=all or include_completed=true to broaden discovery."@
}

/// Why a listing is empty: nothing where it is not; past the end where the offset
/// is positive; otherwise no task matches (which is never a permission refusal).
pub fn empty_reason(items_empty: bool, offset: i64) -> (r: Option<String>)
    ensures
        !items_empty ==> r is None,
        items_empty && offset > 0 ==> (r matches Some(s) && s@ == stale_offset_reason()),
        items_empty && offset <= 0 ==> (r matches Some(s) && s@ == no_match_reason()),
{
    if !items_empty {
        None
    } else if offset > 0 {
        Some(
            owned(
                "No tasks at this offset. Restart at offset=0 with the same filters to refresh this live listing.",
            ),
        )
    } else {
        Some(
            owned(
                "No tasks match these filters; this is not a permission restriction. Use scope=all or include_completed=true to broaden discovery.",
            ),
        )
    }
}

/// Whether a constraint declares criteria: a string that is not blank, or an array
/// or object that is not empty.
pub open spec fn declares_criteria(v: Option<Json>) -> bool {
    match v {
        Some(Json::Str(s)) => !all_ws(s@),
        Some(Json::Array(a)) => a@.len() > 0,
        Some(Json::Object(o)) => o@.len() > 0,
        _ => false,
    }
}

/// Where a context's structured acceptance criteria are, pointing at the fields
/// themselves: `context.constraints.acceptance_criteria` and
/// `context.constraints.freeze_requires`, each where it declares criteria.
pub open spec fn acceptance_paths(constraints: Option<Json>) -> Seq<Seq<char>> {
    match constraints {
        None => Seq::empty(),
        Some(c) => (if declares_criteria(get(c, "acceptance_criteria"@)) {
            seq!["context.constraints.acceptance_criteria"@]
        } else {
            Seq::empty()
        }) + (if declares_criteria(get(c, "freeze_requires"@)) {
            seq!["context.constraints.freeze_requires"@]
        } else {
            Seq::empty()
        }),
    }
}

fn declares_criteria_of(v: Option<&Json>) -> (b: bool)
    ensures
        b == declares_criteria(
            match v {
                Some(x) => Some(*x),
                None => None,
            },
        ),
{
    match v {
        Some(Json::Str(s)) => !is_blank(s.as_str()),
        Some(Json::Array(a)) => a.len() > 0,
        Some(Json::Object(o)) => o.len() > 0,
        _ => false,
    }
}

pub fn acceptance_criteria_paths(constraints: Option<&Json>) -> (r: Vec<String>)
    ensures
        crate::text::views(r@) == acceptance_paths(
            match constraints {
                Some(c) => Some(*c),
                None => None,
            },
        ),
{
    let mut r: Vec<String> = Vec::new();
    match constraints {
        None => {
            assert(crate::text::views(r@) =~= Seq::<Seq<char>>::empty());
        },
        Some(c) => {
            let a = declares_criteria_of(get_of(c, "acceptance_criteria"));
            if a {
                r.push(owned("context.constraints.acceptance_criteria"));
            }
            let f = declares_criteria_of(get_of(c, "freeze_requires"));
            let ghost before = r@;
            if f {
                r.push(owned("context.constraints.freeze_requires"));
            }
            assert(crate::text::views(r@) =~= acceptance_paths(Some(*c)));
        },
    }
    r
}

/// What a fresh task context reports missing, in this order: the task description,
/// the project background, the context background, and structured acceptance
/// criteria. Blank text counts as missing.
pub open spec fn missing_context_of(
    task_description: Seq<char>,
    project_description: Option<Seq<char>>,
    context: Option<(Seq<char>, Json)>,
) -> Seq<Seq<char>> {
    let constraints = match context {
        Some(c) => Some(c.1),
        None => None,
    };
    (if all_ws(task_description) {
        seq!["task_description"@]
    } else {
        Seq::empty()
    }) + (match project_description {
        Some(d) => if all_ws(d) {
            seq!["project_background"@]
        } else {
            Seq::empty()
        },
        None => seq!["project_background"@],
    }) + (match context {
        Some(c) => if all_ws(c.0) {
            seq!["context_background"@]
        } else {
            Seq::empty()
        },
        None => seq!["context_background"@],
    }) + (if acceptance_paths(constraints).len() == 0 {
        seq!["structured_acceptance_criteria"@]
    } else {
        Seq::empty()
    })
}

pub fn missing_context(
    task_description: &str,
    project_description: Option<&str>,
    context: Option<&ContextRevision>,
) -> (r: Vec<String>)
    ensures
        crate::text::views(r@) == missing_context_of(
            task_description@,
            match project_description {
                Some(d) => Some(d@),
                None => None,
            },
            match context {
                Some(c) => Some((c.background@, c.constraints)),
                None => None,
            },
        ),
{
    let mut r: Vec<String> = Vec::new();
    let ghost s0 = crate::text::views(r@);
    if is_blank(task_description) {
        r.push(owned("task_description"));
    }
    let ghost s1 = crate::text::views(r@);
    let project_missing = match project_description {
        Some(d) => is_blank(d),
        None => true,
    };
    if project_missing {
        r.push(owned("project_background"));
    }
    let ghost s2 = crate::text::views(r@);
    let context_missing = match context {
        Some(c) => is_blank(c.background.as_str()),
        None => true,
    };
    if context_missing {
        r.push(owned("context_background"));
    }
    let ghost s3 = crate::text::views(r@);
    let paths = match context {
        Some(c) => acceptance_criteria_paths(Some(&c.constraints)),
        None => acceptance_criteria_paths(None),
    };
    if paths.len() == 0 {
        r.push(owned("structured_acceptance_criteria"));
    }
    proof {
        let ctx = match context {
            Some(c) => Some((c.background@, c.constraints)),
            None => None,
        };
        let pd = match project_description {
            Some(d) => Some(d@),
            None => None,
        };
        assert(crate::text::views(r@) =~= missing_context_of(task_description@, pd, ctx));
    }
    r
}

pub open spec fn write_access_refused_message() -> Seq<char> {
    "task is not owned by, assigned to, or shared through an open Task Session with the authenticated agent instance"@
}

/// What the write-access check of a task needs next, or its answer.
#[derive(PartialEq, Eq, Structural)]
pub enum WriteAccess {
    Granted,
    /// The agent's assignments on the task must be read.
    ReadAssignments,
    /// Whether the agent holds an open Task Session on the task must be read.
    ReadOpenSession,
    /// Refused, with `write_access_refusal()` as the answer.
    Refused,
}

/// The write-access check, one ledger read at a time: an agent may write to a task
/// it owns, is assigned to, or shares through an open Task Session. Each read is
/// made only where the earlier ones did not already grant access.
pub open spec fn write_access_step(
    owner_actor_id: Seq<char>,
    agent: Id,
    assignment_agents: Option<Seq<Id>>,
    open_session: Option<bool>,
) -> WriteAccess {
    if owner_actor_id == agent_actor_text(agent) {
        WriteAccess::Granted
    } else {
        match assignment_agents {
            None => WriteAccess::ReadAssignments,
            Some(a) => if a.contains(agent) {
                WriteAccess::Granted
            } else {
                match open_session {
                    None => WriteAccess::ReadOpenSession,
                    Some(true) => WriteAccess::Granted,
                    Some(false) => WriteAccess::Refused,
                }
            },
        }
    }
}

/// The answer to a refused write.
pub fn write_access_refusal() -> (s: String)
    ensures
        s@ == write_access_refused_message(),
{
    owned(
        "task is not owned by, assigned to, or shared through an open Task Session with the authenticated agent instance",
    )
}

fn contains_agent(v: &Vec<Id>, id: Id) -> (b: bool)
    ensures
        b == v@.contains(id),
{
    let mut i: usize = 0;
    while i < v.len()
        invariant
            i <= v.len(),
            forall|j: int| 0 <= j < i ==> v@[j] != id,
        decreases v.len() - i,
    {
        if v[i] == id {
            return true;
        }
        i = i + 1;
    }
    false
}

pub fn task_write_access(
    owner_actor_id: &str,
    agent: Id,
    assignment_agents: Option<&Vec<Id>>,
    open_session: Option<bool>,
) -> (r: WriteAccess)
    ensures
        r == write_access_step(
            owner_actor_id@,
            agent,
            match assignment_agents {
                Some(a) => Some(a@),
                None => None,
            },
            open_session,
        ),
{
    let actor = agent_actor(agent);
    if str_eq(owner_actor_id, actor.as_str()) {
        return WriteAccess::Granted;
    }
    match assignment_agents {
        None => WriteAccess::ReadAssignments,
        Some(a) => {
            if contains_agent(a, agent) {
                WriteAccess::Granted
            } else {
                match open_session {
                    None => WriteAccess::ReadOpenSession,
                    Some(true) => WriteAccess::Granted,
                    Some(false) => WriteAccess::Refused,
                }
            }
        },
    }
}

/// Owning a task, being assigned to it, or sharing it through an open Task Session
/// each grants write access, and nothing else does.
pub proof fn law_write_access_needs_a_relation(
    owner_actor_id: Seq<char>,
    agent: Id,
    assignment_agents: Seq<Id>,
    open_session: bool,
)
    ensures
        (write_access_step(owner_actor_id, agent, Some(assignment_agents), Some(open_session))
            is Granted) == (owner_actor_id == agent_actor_text(agent) || assignment_agents.contains(
            agent,
        ) || open_session),
{
}

/// Only the addressed agent may read or revise a session's summary.
pub fn check_session_owner(session_agent: Id, agent: Id) -> (r: Result<(), String>)
    ensures
        session_agent == agent ==> r is Ok,
        session_agent != agent ==> (r matches Err(e) && e@ == "session belongs to another agent instance"@),
{
    if session_agent != agent {
        return Err(owned("session belongs to another agent instance"));
    }
    Ok(())
}

/// A message may only be posted to a thread of the task it names.
pub fn check_thread_in_task(task_threads: &Vec<Id>, thread: Id) -> (r: Result<(), String>)
    ensures
        task_threads@.contains(thread) ==> r is Ok,
        !task_threads@.contains(thread) ==> (r matches Err(e) && e@
            == "thread does not belong to the supplied task"@),
{
    if !contains_agent(task_threads, thread) {
        return Err(owned("thread does not belong to the supplied task"));
    }
    Ok(())
}

/// The context revision a memory read selects: the requested one, else the task's
/// current one.
pub fn selected_revision(requested: &Option<String>, current: Option<Id>) -> (r: Result<Option<Id>, String>)
    ensures
        match r {
            Ok(v) => match parsed_opt_id(opt_string(*requested)) {
                Ok(Some(id)) => v == Some(id),
                Ok(None) => v == current,
                Err(_) => false,
            },
            Err(e) => parsed_opt_id(opt_string(*requested)) == Err::<Option<Id>, Seq<char>>(e@),
        },
{
    match parse_opt_id(requested) {
        Ok(Some(id)) => Ok(Some(id)),
        Ok(None) => Ok(current),
        Err(e) => Err(e),
    }
}

/// A selected revision must belong to the task that was read.
pub fn check_revision_task(revision_task: Option<Id>, task: Id) -> (r: Result<(), String>)
    ensures
        (revision_task matches Some(t) && t != task) ==> (r matches Err(e) && e@
            == "context_revision_id does not belong to task_id"@),
        !(revision_task matches Some(t) && t != task) ==> r is Ok,
{
    match revision_task {
        Some(t) => {
            if t != task {
                return Err(owned("context_revision_id does not belong to task_id"));
            }
            Ok(())
        },
        None => Ok(()),
    }
}

/// The constraints of a new context revision: an omitted (`null`) value is stored as
/// an empty object.
pub fn revision_constraints(constraints: Json) -> (r: Json)
    ensures
        constraints is Null ==> (r matches Json::Object(e) && e@.len() == 0),
        !(constraints is Null) ==> r == constraints,
{
    match constraints {
        Json::Null => Json::Object(Vec::new()),
        other => other,
    }
}


/// The task an employee's work request creates: owned by the employee, ready for
/// company scheduling, outside any project, and without a priority of its own.
pub fn work_request_task(req: WorkRequestSubmitRequest, agent: Id) -> (t: CreateTask)
    ensures
        t.project_id is None,
        t.title == req.title,
        t.description == req.description,
        t.owner_actor_id@ == agent_actor_text(agent),
        t.state == TaskState::Ready,
        t.priority == 0,
{
    CreateTask {
        project_id: None,
        title: req.title,
        description: req.description,
        owner_actor_id: agent_actor(agent),
        state: TaskState::Ready,
        priority: 0,
    }
}

/// The JSON text of an optional identifier: its hyphenated text, or `null`.
pub open spec fn is_opt_id(v: Option<Json>, id: Option<Id>) -> bool {
    match id {
        Some(i) => is_text(v, uuid_hyphenated(i)),
        None => v == Some(Json::Null),
    }
}

fn opt_id_json(id: Option<Id>) -> (r: Json)
    ensures
        is_opt_id(Some(r), id),
{
    match id {
        Some(i) => Json::Str(id_text(i)),
        None => Json::Null,
    }
}

/// How a task's context names its latest context package: the package, when it was
/// made, the context snapshot it was assembled from, and whether that snapshot is
/// still the task's current context revision.
pub fn package_ref(id: Id, created_at: String, snapshot: Option<Id>, current: Option<Id>) -> (r: Json)
    ensures
        r matches Json::Object(es) && es@.len() == 4,
        is_text(get(r, "id"@), uuid_hyphenated(id)),
        is_text(get(r, "created_at"@), created_at@),
        is_opt_id(get(r, "context_snapshot_id"@), snapshot),
        get(r, "context_matches_current"@) == Some(Json::Bool(snapshot == current)),
{
    proof {
        reveal_strlit("id");
        reveal_strlit("created_at");
        reveal_strlit("context_snapshot_id");
        reveal_strlit("context_matches_current");
    }
    let matches = snapshot == current;
    let entries = vec![
        (owned("id"), Json::Str(id_text(id))),
        (owned("created_at"), Json::Str(created_at)),
        (owned("context_snapshot_id"), opt_id_json(snapshot)),
        (owned("context_matches_current"), Json::Bool(matches)),
    ];
    proof {
        assert(entries@[0].0@ == "id"@);
        assert("id"@.len() == 2);
        assert(entries@[1].0@ == "created_at"@);
        assert("created_at"@.len() == 10);
        assert(entries@[2].0@ == "context_snapshot_id"@);
        assert("context_snapshot_id"@.len() == 19);
        assert(entries@[3].0@ == "context_matches_current"@);
        assert("context_matches_current"@.len() == 23);
        lemma_member_at(entries@, 0);
        assert(entries@[0].0@ != entries@[1].0@);
        lemma_member_at(entries@, 1);
        assert(entries@[0].0@ != entries@[2].0@);
        assert(entries@[1].0@ != entries@[2].0@);
        lemma_member_at(entries@, 2);
        assert(entries@[0].0@ != entries@[3].0@);
        assert(entries@[1].0@ != entries@[3].0@);
        assert(entries@[2].0@ != entries@[3].0@);
        lemma_member_at(entries@, 3);
    }
    Json::Object(entries)
}

} // verus!
