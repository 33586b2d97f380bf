//! Operator control of runs bound to the LSM: restarting, stopping and cancelling,
//! and the runtime sweep that provisions, revokes and cleans up their Sessions.

use vstd::prelude::*;
use crate::domain::{fails_with, DomainError, ErrorKind};
use crate::ids::{parse_uuid, uuid_parse, HeaderText, Id};
use crate::text::{concat2, owned, str_eq};

verus! {

/// Only an interrupted run may be restarted.
pub fn check_restartable(run_status: &str) -> (r: Result<(), DomainError>)
    ensures
        run_status@ == "interrupted"@ ==> r is Ok,
        run_status@ != "interrupted"@ ==> fails_with(r, ErrorKind::Conflict, "Run is "@ + run_status@),
{
    if !str_eq(run_status, "interrupted") {
        return Err(DomainError::Conflict(concat2("Run is ", run_status)));
    }
    Ok(())
}

/// Whether a restart first provisions the run's Logical Session again: it does for a
/// run that has an LSM runtime but lost its binding.
pub fn restart_needs_provisioning(has_binding: bool, has_lsm_runtime: bool) -> (b: bool)
    ensures
        b == (!has_binding && has_lsm_runtime),
{
    !has_binding && has_lsm_runtime
}

pub open spec fn lsm_not_configured_message() -> Seq<char> {
    "LSM control is not configured"@
}

/// A restart that must provision needs a configured LSM control.
pub fn check_lsm_configured(configured: bool) -> (r: Result<(), DomainError>)
    ensures
        configured ==> r is Ok,
        !configured ==> fails_with(r, ErrorKind::Conflict, lsm_not_configured_message()),
{
    if !configured {
        return Err(DomainError::Conflict(owned("LSM control is not configured")));
    }
    Ok(())
}

/// A launch whose run is bound to an LSM runtime is never stopped directly: the run
/// must be cancelled, so that its capability is revoked and its Session cleaned up.
pub fn check_direct_stop(run_has_lsm_runtime: bool) -> (r: Result<(), DomainError>)
    ensures
        !run_has_lsm_runtime ==> r is Ok,
        run_has_lsm_runtime ==> fails_with(
            r,
            ErrorKind::Conflict,
            "LSM-bound Runs must be cancelled through /runs/{id}/cancel"@,
        ),
{
    if run_has_lsm_runtime {
        return Err(
            DomainError::Conflict(owned("LSM-bound Runs must be cancelled through /runs/{id}/cancel")),
        );
    }
    Ok(())
}

/// The machine of a job-output read: as asked, else `local`.
pub fn job_machine(machine: Option<&str>) -> (s: String)
    ensures
        s@ == match machine {
            Some(m) => m@,
            None => "local"@,
        },
{
    match machine {
        Some(m) => owned(m),
        None => owned("local"),
    }
}

/// An instruction is sent to the attempt named in the path only.
pub fn check_instruction_target(body_attempt: Id, path_attempt: Id) -> (r: Result<(), DomainError>)
    ensures
        body_attempt == path_attempt ==> r is Ok,
        body_attempt != path_attempt ==> fails_with(r, ErrorKind::InvalidInput, "attempt id mismatch"@),
{
    if body_attempt != path_attempt {
        return Err(DomainError::InvalidInput(owned("attempt id mismatch")));
    }
    Ok(())
}

/// The agent accepting an external launch, from its `X-Agent-Instance-Id` header.
pub fn external_launch_agent(header: &HeaderText) -> (r: Result<Id, DomainError>)
    ensures
        match header {
            HeaderText::Text(t) => match uuid_parse(t@) {
                Some(id) => r matches Ok(v) && v == id,
                None => fails_with(r, ErrorKind::InvalidInput, "X-Agent-Instance-Id required"@),
            },
            _ => fails_with(r, ErrorKind::InvalidInput, "X-Agent-Instance-Id required"@),
        },
{
    let parsed = match header {
        HeaderText::Text(t) => parse_uuid(t.as_str()),
        _ => None,
    };
    match parsed {
        Some(id) => Ok(id),
        None => Err(DomainError::InvalidInput(owned("X-Agent-Instance-Id required"))),
    }
}

/// What the runtime sweep learned about one run awaiting Session cleanup.
pub enum CleanupEvent {
    /// Whether a launch attempt of the run is still active (`None`: unknown).
    ActiveAttempt(Option<bool>),
    /// Whether the run's LSM binding was read.
    Binding(bool),
    /// Whether the run's capability was revoked.
    Revoked(bool),
    /// What the LSM cleanup reported: complete, pending, or failed (`None`).
    CleanedUp(Option<bool>),
}

/// What the sweep does next for that run.
#[derive(PartialEq, Eq, Structural)]
pub enum CleanupAction {
    ReadBinding,
    Revoke,
    CleanUp,
    /// Record the cleanup (or the Session's finish) as done.
    Record,
    /// Leave the run for a later sweep.
    Later,
}

/// One step of the cleanup of a run's Session: never while a launch may still be
/// running (also when that cannot be read), never without a binding, never before
/// the capability is revoked; recorded only once the LSM reports it complete.
pub open spec fn cleanup_next_of(event: CleanupEvent) -> CleanupAction {
    match event {
        CleanupEvent::ActiveAttempt(Some(false)) => CleanupAction::ReadBinding,
        CleanupEvent::ActiveAttempt(_) => CleanupAction::Later,
        CleanupEvent::Binding(true) => CleanupAction::Revoke,
        CleanupEvent::Binding(false) => CleanupAction::Later,
        CleanupEvent::Revoked(true) => CleanupAction::CleanUp,
        CleanupEvent::Revoked(false) => CleanupAction::Later,
        CleanupEvent::CleanedUp(Some(true)) => CleanupAction::Record,
        CleanupEvent::CleanedUp(_) => CleanupAction::Later,
    }
}

pub fn cleanup_next(event: &CleanupEvent) -> (a: CleanupAction)
    ensures
        a == cleanup_next_of(*event),
{
    match event {
        CleanupEvent::ActiveAttempt(Some(false)) => CleanupAction::ReadBinding,
        CleanupEvent::ActiveAttempt(_) => CleanupAction::Later,
        CleanupEvent::Binding(true) => CleanupAction::Revoke,
        CleanupEvent::Binding(false) => CleanupAction::Later,
        CleanupEvent::Revoked(true) => CleanupAction::CleanUp,
        CleanupEvent::Revoked(false) => CleanupAction::Later,
        CleanupEvent::CleanedUp(Some(true)) => CleanupAction::Record,
        CleanupEvent::CleanedUp(_) => CleanupAction::Later,
    }
}

/// A cleanup is recorded only on the LSM's report that it is complete, and a run
/// whose launch may still be active is never cleaned up.
pub proof fn law_cleanup_waits_for_the_lsm(event: CleanupEvent)
    ensures
        cleanup_next_of(event) == CleanupAction::Record ==> event == CleanupEvent::CleanedUp(
            Some(true),
        ),
        (event matches CleanupEvent::ActiveAttempt(a) && a != Some(false)) ==> cleanup_next_of(event)
            == CleanupAction::Later,
{
}

} // verus!
