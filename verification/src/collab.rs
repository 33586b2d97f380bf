//! The inputs of durable collaboration, fleet registration and direct sessions, as
//! employees and operators submit them.

use vstd::prelude::*;
use crate::domain::{fails_with, DomainError, ErrorKind};
use crate::ids::{parse_uuid, uuid_parse, HeaderText, Id};
use crate::json::Json;
use crate::text::owned;

verus! {

/// A durable artifact (`kind` is `other` unless given).
pub struct CreateArtifact {
    pub title: String,
    pub uri: String,
    pub kind: String,
    pub description: String,
}

/// A durable decision and its rationale.
pub struct CreateDecision {
    pub title: String,
    pub rationale: String,
}

/// A message thread on a task.
pub struct CreateThread {
    pub title: String,
}

/// A message (`message_type` is `note` and `status` is `sent` unless given).
pub struct CreateMessage {
    pub body: String,
    pub message_type: String,
    pub recipient_agent_instance_id: Option<String>,
    pub recipient_role: Option<String>,
    pub reply_to_message_id: Option<String>,
    pub correlation_id: Option<String>,
    pub requires_response: bool,
    pub status: String,
}

/// A handoff of a run's work to whoever continues it.
pub struct CreateHandoff {
    pub summary: String,
    pub completed: Vec<String>,
    pub remaining: Vec<String>,
    pub blockers: Vec<String>,
    pub artifact_ids: Vec<String>,
    pub decision_ids: Vec<String>,
}

/// A profile identity, registered under its natural key.
pub struct RegisterProfile {
    pub name: String,
    pub provider: String,
    pub kind: String,
    pub default_capabilities: Vec<String>,
    pub metadata: Json,
}

/// A provider account (`status` is `active` unless given).
pub struct RegisterAccount {
    pub provider: String,
    pub label: String,
    pub external_account_ref: Option<String>,
    pub status: String,
    pub metadata: Json,
}

/// A machine that hosts agent instances (`status` is `active` unless given).
pub struct RegisterMachine {
    pub name: String,
    pub hostname: String,
    pub os: String,
    pub arch: String,
    pub status: String,
    pub metadata: Json,
}

/// A capacity observation of an agent instance.
pub struct RecordCapacity {
    pub status: String,
    pub available_slots: i64,
    pub active_assignments: i64,
    pub active_runs: i64,
    pub max_concurrency: Option<i64>,
    pub quota_state: Option<String>,
    pub details: Json,
}

/// A liveness report, optionally with a capacity observation.
pub struct AgentHeartbeat {
    pub status: String,
    pub capacity: Option<RecordCapacity>,
}

/// An employee's reply in a direct session.
pub struct SessionReply {
    pub session_id: String,
    pub body: String,
}

/// A page of a direct session's history, before or after a message.
pub struct SessionHistoryRequest {
    pub session_id: String,
    pub before_message_id: Option<String>,
    pub after_message_id: Option<String>,
    pub limit: Option<i64>,
}

/// An employee's reply in a conversation.
pub struct ConversationReply {
    pub conversation_id: String,
    pub body: String,
}

/// A page of a conversation's history, before or after a message.
pub struct ConversationHistoryRequest {
    pub conversation_id: String,
    pub before_message_id: Option<String>,
    pub after_message_id: Option<String>,
    pub limit: Option<i64>,
}


/// The agent instance a REST collaboration call acts as: the `X-Agent-Instance-Id`
/// header, which must be a UUID.
pub open spec fn rest_actor_of(header: HeaderText) -> Option<Id> {
    match header {
        HeaderText::Text(t) => uuid_parse(t@),
        _ => None,
    }
}

pub fn rest_actor(header: &HeaderText) -> (r: Result<Id, DomainError>)
    ensures
        match rest_actor_of(*header) {
            Some(id) => r matches Ok(v) && v == id,
            None => fails_with(r, ErrorKind::InvalidInput, "valid X-Agent-Instance-Id required"@),
        },
{
    let parsed = match header {
        HeaderText::Text(t) => parse_uuid(t.as_str()),
        _ => None,
    };
    match parsed {
        Some(id) => Ok(id),
        None => Err(DomainError::InvalidInput(owned("valid X-Agent-Instance-Id required"))),
    }
}

/// A hand-written context package for a work item.
pub struct CreateContextPackage {
    pub work_item_id: Id,
    pub objective: String,
    pub summary: Option<Json>,
    pub context_snapshot_id: Option<Id>,
    pub memory_refs: Vec<String>,
    pub decision_refs: Vec<Id>,
    pub artifact_refs: Vec<Id>,
    pub changed_files: Vec<String>,
    pub verified_results: Vec<String>,
    pub blockers: Vec<String>,
    pub unresolved_questions: Vec<String>,
    pub next_action: String,
    pub source_run_id: Option<Id>,
    pub source_agent_id: Option<Id>,
}

/// The body of a context-package request; every field may be omitted.
pub struct ContextPackageInput {
    pub objective: Option<String>,
    pub summary: Option<Json>,
    pub context_snapshot_id: Option<Id>,
    pub memory_refs: Vec<String>,
    pub decision_refs: Vec<Id>,
    pub artifact_refs: Vec<Id>,
    pub changed_files: Vec<String>,
    pub verified_results: Vec<String>,
    pub blockers: Vec<String>,
    pub unresolved_questions: Vec<String>,
    pub next_action: Option<String>,
    pub source_run_id: Option<Id>,
    pub source_agent_id: Option<Id>,
    pub assemble: Option<bool>,
}

/// What a context-package request makes.
pub enum PackageRequest {
    /// A package assembled from the current task state.
    Assemble { source_run_id: Option<Id>, agent_id: Option<Id> },
    /// The package as written.
    Create(CreateContextPackage),
}

/// The package request for `work_item`: assembled where asked or where no objective
/// is given, else created as written. The source agent is the one named in the
/// body, else the caller named by the header.
pub fn plan_context_package(input: ContextPackageInput, work_item: Id, header_actor: Option<Id>) -> (r:
    PackageRequest)
    ensures
        ({
            let agent = match input.source_agent_id {
                Some(a) => Some(a),
                None => header_actor,
            };
            if input.assemble == Some(true) || input.objective is None {
                r == PackageRequest::Assemble { source_run_id: input.source_run_id, agent_id: agent }
            } else {
                r matches PackageRequest::Create(p) && p.work_item_id == work_item && p.objective
                    == input.objective->Some_0 && p.summary == input.summary && p.context_snapshot_id
                    == input.context_snapshot_id && p.memory_refs == input.memory_refs
                    && p.decision_refs == input.decision_refs && p.artifact_refs
                    == input.artifact_refs && p.changed_files == input.changed_files
                    && p.verified_results == input.verified_results && p.blockers == input.blockers
                    && p.unresolved_questions == input.unresolved_questions && p.next_action@ == match input.next_action {
                    Some(n) => n@,
                    None => Seq::<char>::empty(),
                } && p.source_run_id == input.source_run_id && p.source_agent_id == agent
            }
        }),
{
    let agent = match input.source_agent_id {
        Some(a) => Some(a),
        None => header_actor,
    };
    if input.assemble == Some(true) || input.objective.is_none() {
        return PackageRequest::Assemble { source_run_id: input.source_run_id, agent_id: agent };
    }
    let objective = match input.objective {
        Some(o) => o,
        None => String::new(),
    };
    let next_action = match input.next_action {
        Some(n) => n,
        None => String::new(),
    };
    PackageRequest::Create(
        CreateContextPackage {
            work_item_id: work_item,
            objective,
            summary: input.summary,
            context_snapshot_id: input.context_snapshot_id,
            memory_refs: input.memory_refs,
            decision_refs: input.decision_refs,
            artifact_refs: input.artifact_refs,
            changed_files: input.changed_files,
            verified_results: input.verified_results,
            blockers: input.blockers,
            unresolved_questions: input.unresolved_questions,
            next_action,
            source_run_id: input.source_run_id,
            source_agent_id: agent,
        },
    )
}

} // verus!
