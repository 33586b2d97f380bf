//! The domain vocabulary shared by every part of the system: task states, domain
//! errors, bounded result pages and the defaults that requests fall back to.

use vstd::prelude::*;
use crate::json::Json;
use crate::text::{concat2, owned, str_eq};

verus! {

/// The lifecycle state of a task.
#[derive(Debug, Clone, Copy, PartialEq, Eq, Structural)]
pub enum TaskState {
    Backlog,
    Ready,
    InProgress,
    Review,
    Blocked,
    Done,
    Cancelled,
}

/// The text of a task state.
pub open spec fn task_state_text(s: TaskState) -> Seq<char> {
    match s {
        TaskState::Backlog => "backlog"@,
        TaskState::Ready => "ready"@,
        TaskState::InProgress => "in_progress"@,
        TaskState::Review => "review"@,
        TaskState::Blocked => "blocked"@,
        TaskState::Done => "done"@,
        TaskState::Cancelled => "cancelled"@,
    }
}

/// The task state written as `text`, if any.
pub open spec fn task_state_named(text: Seq<char>) -> Option<TaskState> {
    if text == "backlog"@ {
        Some(TaskState::Backlog)
    } else if text == "ready"@ {
        Some(TaskState::Ready)
    } else if text == "in_progress"@ {
        Some(TaskState::InProgress)
    } else if text == "review"@ {
        Some(TaskState::Review)
    } else if text == "blocked"@ {
        Some(TaskState::Blocked)
    } else if text == "done"@ {
        Some(TaskState::Done)
    } else if text == "cancelled"@ {
        Some(TaskState::Cancelled)
    } else {
        None
    }
}

impl TaskState {
    /// The state's text, as it is displayed and stored.
    pub fn as_text(&self) -> (s: String)
        ensures
            s@ == task_state_text(*self),
    {
        match self {
            TaskState::Backlog => owned("backlog"),
            TaskState::Ready => owned("ready"),
            TaskState::InProgress => owned("in_progress"),
            TaskState::Review => owned("review"),
            TaskState::Blocked => owned("blocked"),
            TaskState::Done => owned("done"),
            TaskState::Cancelled => owned("cancelled"),
        }
    }

    /// Parses a stored or requested state; other text is an invalid state.
    pub fn parse(value: &str) -> (r: Result<TaskState, DomainError>)
        ensures
            task_state_named(value@) matches Some(s) ==> r == Ok::<TaskState, DomainError>(s),
            task_state_named(value@) is None ==> fails_with(r, ErrorKind::InvalidState, value@),
    {
        if str_eq(value, "backlog") {
            Ok(TaskState::Backlog)
        } else if str_eq(value, "ready") {
            Ok(TaskState::Ready)
        } else if str_eq(value, "in_progress") {
            Ok(TaskState::InProgress)
        } else if str_eq(value, "review") {
            Ok(TaskState::Review)
        } else if str_eq(value, "blocked") {
            Ok(TaskState::Blocked)
        } else if str_eq(value, "done") {
            Ok(TaskState::Done)
        } else if str_eq(value, "cancelled") {
            Ok(TaskState::Cancelled)
        } else {
            Err(DomainError::InvalidState(owned(value)))
        }
    }
}

/// Reading back the text of any state gives that state, and only the seven state
/// names are states.
pub proof fn law_task_state_text_round_trip(s: TaskState, text: Seq<char>)
    ensures
        task_state_named(task_state_text(s)) == Some(s),
        task_state_named(text) matches Some(t) ==> task_state_text(t) == text,
{
    reveal_strlit("backlog");
    reveal_strlit("ready");
    reveal_strlit("in_progress");
    reveal_strlit("review");
    reveal_strlit("blocked");
    reveal_strlit("done");
    reveal_strlit("cancelled");
    assert("backlog"@.len() == 7 && "ready"@.len() == 5 && "in_progress"@.len() == 11);
    assert("review"@.len() == 6 && "blocked"@.len() == 7 && "done"@.len() == 4);
    assert("cancelled"@.len() == 9);
    assert("blocked"@[1] != "backlog"@[1]);
    match s {
        TaskState::Backlog => {},
        TaskState::Ready => {},
        TaskState::InProgress => {},
        TaskState::Review => {},
        TaskState::Blocked => {},
        TaskState::Done => {},
        TaskState::Cancelled => {},
    }
}

/// A failure of a domain operation.
#[derive(Debug)]
pub enum DomainError {
    NotFound(String),
    Conflict(String),
    InvalidState(String),
    InvalidInput(String),
    Storage(String),
}

/// The kinds of domain error, for contracts.
#[derive(PartialEq, Eq, Structural)]
pub enum ErrorKind {
    NotFound,
    Conflict,
    InvalidState,
    InvalidInput,
    Storage,
}

/// `r` failed with an error of kind `k` carrying `detail`.
pub open spec fn fails_with<T>(r: Result<T, DomainError>, k: ErrorKind, detail: Seq<char>) -> bool {
    match r {
        Err(e) => error_kind(e) == k && error_detail(e) == detail,
        Ok(_) => false,
    }
}

pub open spec fn error_kind(e: DomainError) -> ErrorKind {
    match e {
        DomainError::NotFound(_) => ErrorKind::NotFound,
        DomainError::Conflict(_) => ErrorKind::Conflict,
        DomainError::InvalidState(_) => ErrorKind::InvalidState,
        DomainError::InvalidInput(_) => ErrorKind::InvalidInput,
        DomainError::Storage(_) => ErrorKind::Storage,
    }
}

pub open spec fn error_detail(e: DomainError) -> Seq<char> {
    match e {
        DomainError::NotFound(m) => m@,
        DomainError::Conflict(m) => m@,
        DomainError::InvalidState(m) => m@,
        DomainError::InvalidInput(m) => m@,
        DomainError::Storage(m) => m@,
    }
}

/// `r` agrees with the outcome `o`: the same text on success, or an error of the same
/// kind and detail.
pub open spec fn text_outcome(
    r: Result<String, DomainError>,
    o: Result<Seq<char>, (ErrorKind, Seq<char>)>,
) -> bool {
    match (r, o) {
        (Ok(s), Ok(t)) => s@ == t,
        (Err(e), Err((k, m))) => error_kind(e) == k && error_detail(e) == m,
        _ => false,
    }
}

/// `r` agrees with a check whose refusal, if any, is `o`.
pub open spec fn check_outcome(r: Result<(), DomainError>, o: Option<(ErrorKind, Seq<char>)>) -> bool {
    match (r, o) {
        (Ok(_), None) => true,
        (Err(e), Some((k, m))) => error_kind(e) == k && error_detail(e) == m,
        _ => false,
    }
}

/// The prefix that the error's display text starts with.
pub open spec fn error_prefix(k: ErrorKind) -> Seq<char> {
    match k {
        ErrorKind::NotFound => "not found: "@,
        ErrorKind::Conflict => "conflict: "@,
        ErrorKind::InvalidState => "invalid state: "@,
        ErrorKind::InvalidInput => "invalid input: "@,
        ErrorKind::Storage => "storage error: "@,
    }
}

/// The HTTP status that answers an error of kind `k`.
pub open spec fn error_status(k: ErrorKind) -> u16 {
    match k {
        ErrorKind::NotFound => 404,
        ErrorKind::Conflict => 409,
        ErrorKind::InvalidState => 400,
        ErrorKind::InvalidInput => 400,
        ErrorKind::Storage => 500,
    }
}

impl DomainError {
    /// The error's display text, such as `not found: task`.
    pub fn message(&self) -> (s: String)
        ensures
            s@ == error_prefix(error_kind(*self)) + error_detail(*self),
    {
        match self {
            DomainError::NotFound(m) => concat2("not found: ", m.as_str()),
            DomainError::Conflict(m) => concat2("conflict: ", m.as_str()),
            DomainError::InvalidState(m) => concat2("invalid state: ", m.as_str()),
            DomainError::InvalidInput(m) => concat2("invalid input: ", m.as_str()),
            DomainError::Storage(m) => concat2("storage error: ", m.as_str()),
        }
    }

    /// The HTTP status of the API's answer to this error.
    pub fn status_code(&self) -> (c: u16)
        ensures
            c == error_status(error_kind(*self)),
    {
        match self {
            DomainError::NotFound(_) => 404,
            DomainError::Conflict(_) => 409,
            DomainError::InvalidState(_) => 400,
            DomainError::InvalidInput(_) => 400,
            DomainError::Storage(_) => 500,
        }
    }
}

/// A bounded live result set. Follow `next_offset` with the same filters.
pub struct Page<T> {
    pub items: Vec<T>,
    pub next_offset: Option<i64>,
}

impl<T> Page<T> {
    /// Queries fetch one extra row to detect continuation without counting or
    /// materializing the entire history; this keeps the first `limit` rows and
    /// continues at `offset + limit` exactly when a row was left over.
    pub fn from_extra_row(items: Vec<T>, limit: i64, offset: i64) -> (p: Self)
        requires
            0 <= limit,
            items.len() > limit ==> offset + limit <= i64::MAX,
        ensures
            items.len() <= limit ==> p.items@ == items@,
            items.len() > limit ==> p.items@ == items@.take(limit as int),
            p.next_offset == (if items.len() > limit {
                Some((offset + limit) as i64)
            } else {
                None
            }),
    {
        let mut items = items;
        let has_more = items.len() as u64 > limit as u64;
        if has_more {
            items.truncate(limit as usize);
        }
        Page { items, next_offset: if has_more { Some(offset + limit) } else { None } }
    }
}

/// The default owner of a task created without one.
pub fn default_owner() -> (s: String)
    ensures
        s@ == "human:local"@,
{
    owned("human:local")
}

/// The state of a task created without one.
pub fn default_task_state() -> (s: TaskState)
    ensures
        s == TaskState::Ready,
{
    TaskState::Ready
}

/// The JSON object `{}`, which stands for omitted constraints and metadata.
pub fn empty_object() -> (j: Json)
    ensures
        j matches Json::Object(m) && m@.len() == 0,
{
    Json::Object(Vec::new())
}

/// The JSON array `[]`, which stands for omitted summary lists.
pub fn empty_array() -> (j: Json)
    ensures
        j matches Json::Array(v) && v@.len() == 0,
{
    Json::Array(Vec::new())
}

/// The kind of an artifact recorded without one.
pub fn default_artifact_kind() -> (s: String)
    ensures
        s@ == "other"@,
{
    owned("other")
}

/// The type of a message recorded without one.
pub fn default_message_type() -> (s: String)
    ensures
        s@ == "note"@,
{
    owned("note")
}

/// The status of a message recorded without one.
pub fn default_message_status() -> (s: String)
    ensures
        s@ == "sent"@,
{
    owned("sent")
}

/// The status of an account or machine registered without one.
pub fn active_status() -> (s: String)
    ensures
        s@ == "active"@,
{
    owned("active")
}

/// The role that dispatch and claims use by default.
pub fn executor_role() -> (s: String)
    ensures
        s@ == "executor"@,
{
    owned("executor")
}

/// How long, in seconds, a heartbeat or capacity observation stays fresh by default.
pub fn default_ttl() -> (n: i64)
    ensures
        n == 120,
{
    120
}

/// The default assignment lease, in seconds.
pub fn default_lease() -> (n: i64)
    ensures
        n == 900,
{
    900
}

/// Dispatch policies and launch profiles are enabled unless said otherwise.
pub fn default_enabled() -> (b: bool)
    ensures
        b,
{
    true
}

/// The author recorded on a summary revision written without one.
pub fn default_summary_creator() -> (s: String)
    ensures
        s@ == "system"@,
{
    owned("system")
}

/// Memory entries are shared unless said otherwise.
pub fn default_visibility() -> (s: String)
    ensures
        s@ == "shared"@,
{
    owned("shared")
}

/// The default page size of employee listings.
pub fn default_limit() -> (n: i64)
    ensures
        n == 20,
{
    20
}

/// The default number of messages or deliveries read at once.
pub fn default_message_limit() -> (n: i64)
    ensures
        n == 80,
{
    80
}

/// The label of a bridge credential issued without one.
pub fn default_bridge_label() -> (s: String)
    ensures
        s@ == "provider bridge"@,
{
    owned("provider bridge")
}

/// Bridge and operator credentials live thirty days by default.
pub fn default_credential_ttl() -> (n: i64)
    ensures
        n == 30 * 24 * 60 * 60,
{
    30 * 24 * 60 * 60
}

} // verus!
