//! The company (operator) MCP surface: its request shapes, and how it names the actor
//! of a context revision.

use vstd::prelude::*;
use crate::collab::{
    AgentHeartbeat, CreateArtifact, CreateDecision, CreateHandoff, CreateMessage, CreateThread,
    RecordCapacity,
};
use crate::ids::HeaderText;
use crate::json::Json;
use crate::domain::TaskState;
use crate::records::CreateTask;
use crate::text::{concat2, owned};

verus! {

pub struct RegisterAgentRequest {
    pub name: String,
    pub capabilities: Vec<String>,
}

pub struct TaskIdRequest {
    pub task_id: String,
}

/// A new task (`priority` is 0 unless given).
pub struct CreateTaskRequest {
    pub title: String,
    pub description: String,
    pub priority: i32,
}

/// A claim on a task (`role` is `executor` and `lease_seconds` is 900 unless given).
pub struct ClaimTaskRequest {
    pub task_id: String,
    pub role: String,
    pub lease_seconds: i64,
}

pub struct StartRunRequest {
    pub assignment_id: String,
    pub external_session_ref: Option<String>,
}

/// A lease renewal (`lease_seconds` is 900 unless given).
pub struct RenewAssignmentRequest {
    pub assignment_id: String,
    pub lease_seconds: i64,
}

pub struct CheckpointRunRequest {
    pub run_id: String,
    pub checkpoint: Json,
}

pub struct CompleteRunRequest {
    pub run_id: String,
    pub result: Json,
}

pub struct ReviseContextRequest {
    pub task_id: String,
    pub goal: String,
    pub background: String,
    pub constraints: Json,
    pub current_summary: String,
}

pub struct CreateArtifactRequest {
    pub task_id: String,
    pub input: CreateArtifact,
}

pub struct CreateDecisionRequest {
    pub task_id: String,
    pub input: CreateDecision,
}

pub struct CreateThreadRequest {
    pub task_id: String,
    pub input: CreateThread,
}

pub struct CreateMessageRequest {
    pub thread_id: String,
    pub input: CreateMessage,
}

pub struct CreateHandoffRequest {
    pub run_id: String,
    pub input: CreateHandoff,
}

pub struct AcceptHandoffRequest {
    pub handoff_id: String,
    pub target_run_id: String,
}

pub struct HandoffIdRequest {
    pub handoff_id: String,
}

pub struct DependencyRequest {
    pub task_id: String,
    pub depends_on_task_id: String,
}

pub struct FleetIdRequest {
    pub id: String,
}

pub struct InstanceIdRequest {
    pub agent_instance_id: String,
}

pub struct HeartbeatRequest {
    pub agent_instance_id: String,
    pub input: AgentHeartbeat,
}

pub struct CapacityRequest {
    pub agent_instance_id: String,
    pub input: RecordCapacity,
}

/// The actor of a context revision made through the company surface: `agent:` and
/// the `X-Agent-Instance-Id` header's text as given, else `human:local`.
pub open spec fn revision_actor(header: HeaderText) -> Seq<char> {
    match header {
        HeaderText::Text(t) => "agent:"@ + t@,
        _ => "human:local"@,
    }
}

pub fn context_revision_actor(header: &HeaderText) -> (s: String)
    ensures
        s@ == revision_actor(*header),
{
    match header {
        HeaderText::Text(t) => concat2("agent:", t.as_str()),
        _ => owned("human:local"),
    }
}

/// The owner of a task the company surface creates.
pub fn company_task_owner() -> (s: String)
    ensures
        s@ == "human:local"@,
{
    owned("human:local")
}


/// The task the company surface creates: owned by `human:local`, ready, outside any
/// project, with the requested priority.
pub fn company_task(req: CreateTaskRequest) -> (t: CreateTask)
    ensures
        t.project_id is None,
        t.title == req.title,
        t.description == req.description,
        t.owner_actor_id@ == "human:local"@,
        t.state == TaskState::Ready,
        t.priority == req.priority,
{
    CreateTask {
        project_id: None,
        title: req.title,
        description: req.description,
        owner_actor_id: company_task_owner(),
        state: TaskState::Ready,
        priority: req.priority,
    }
}

} // verus!
