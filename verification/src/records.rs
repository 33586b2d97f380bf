//! Durable records that the coordination rules read.

use vstd::prelude::*;
use crate::domain::TaskState;
use crate::ids::Id;
use crate::json::Json;

verus! {

/// A unit of work.
pub struct Task {
    pub id: Id,
    pub project_id: Option<Id>,
    pub title: String,
    pub description: String,
    pub owner_actor_id: String,
    pub state: TaskState,
    pub priority: i32,
    pub current_context_revision_id: Option<Id>,
    pub created_at: i64,
    pub updated_at: i64,
}

/// A project that groups tasks and shared knowledge.
pub struct Project {
    pub id: Id,
    pub name: String,
    pub description: String,
    pub status: String,
    pub created_at: i64,
    pub updated_at: i64,
}

/// A leased role of an agent instance on a task.
pub struct Assignment {
    pub id: Id,
    pub task_id: Id,
    pub role: String,
    pub agent_instance_id: Id,
    pub status: String,
    pub acquired_at: i64,
    pub expires_at: i64,
    pub renewed_at: i64,
}

/// One execution of an assignment.
pub struct Run {
    pub id: Id,
    pub task_id: Id,
    pub assignment_id: Id,
    pub agent_instance_id: Id,
    pub external_session_ref: Option<String>,
    pub status: String,
    pub stop_reason: Option<String>,
    pub failure_reason: Option<String>,
    pub checkpoint: Option<Json>,
    pub result: Option<Json>,
    pub started_at: i64,
    pub ended_at: Option<i64>,
    pub context_revision_id: Option<Id>,
}

/// An immutable revision of a task's working context.
pub struct ContextRevision {
    pub id: Id,
    pub task_id: Id,
    pub version: i64,
    pub parent_revision_id: Option<Id>,
    pub goal: String,
    pub background: String,
    pub constraints: Json,
    pub current_summary: String,
    pub created_by_actor_id: String,
    pub created_at: i64,
}

/// The request to create a project.
pub struct CreateProject {
    pub name: String,
    pub description: String,
}


/// The request to create a task (owned by `human:local` and `ready` unless given).
pub struct CreateTask {
    pub project_id: Option<Id>,
    pub title: String,
    pub description: String,
    pub owner_actor_id: String,
    pub state: TaskState,
    pub priority: i32,
}

} // verus!
