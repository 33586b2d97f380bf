//! Reading a Codex CLI JSONL transcript: the provider's session reference and the
//! last failure it reported.

use vstd::prelude::*;
use crate::json::{
    get, member, member_of, nonblank_text, nonblank_text_of, parse_json_text, parsed_json_text, Json,
};
use crate::text::{opt_text, str_eq, text_lines, text_lines_of, views};

verus! {

/// The session reference that a member directly names: the first of `thread_id`,
/// `session_id` and `conversation_id` that holds text that is not blank.
pub open spec fn direct_session_ref(es: Seq<(String, Json)>) -> Option<Seq<char>> {
    match nonblank_text(member(es, "thread_id"@)) {
        Some(r) => Some(r),
        None => match nonblank_text(member(es, "session_id"@)) {
            Some(r) => Some(r),
            None => nonblank_text(member(es, "conversation_id"@)),
        },
    }
}

/// The session reference found in `v`: an object's own keys first, then its members
/// in order, then array items in order, depth first.
pub open spec fn session_ref(v: Json) -> Option<Seq<char>>
    decreases v, 1nat,
{
    match v {
        Json::Object(entries) => match direct_session_ref(entries@) {
            Some(r) => Some(r),
            None => members_session_ref(entries@),
        },
        Json::Array(items) => items_session_ref(items@),
        _ => None,
    }
}

pub open spec fn members_session_ref(es: Seq<(String, Json)>) -> Option<Seq<char>>
    decreases es, 0nat,
{
    if es.len() == 0 {
        None
    } else {
        match session_ref(es[0].1) {
            Some(r) => Some(r),
            None => members_session_ref(es.drop_first()),
        }
    }
}

pub open spec fn items_session_ref(items: Seq<Json>) -> Option<Seq<char>>
    decreases items, 0nat,
{
    if items.len() == 0 {
        None
    } else {
        match session_ref(items[0]) {
            Some(r) => Some(r),
            None => items_session_ref(items.drop_first()),
        }
    }
}

/// Finds the provider's session reference in one JSON event.
#[verifier::loop_isolation(false)]
pub fn find_session_ref(value: &Json) -> (r: Option<String>)
    ensures
        opt_text(r) == session_ref(*value),
    decreases value,
{
    match value {
        Json::Object(entries) => {
            if let Some(s) = nonblank_text_of(member_of(entries, "thread_id")) {
                return Some(s.clone());
            }
            if let Some(s) = nonblank_text_of(member_of(entries, "session_id")) {
                return Some(s.clone());
            }
            if let Some(s) = nonblank_text_of(member_of(entries, "conversation_id")) {
                return Some(s.clone());
            }
            let mut i: usize = 0;
            assert(entries@.skip(0) =~= entries@);
            while i < entries.len()
                invariant
                    i <= entries.len(),
                    members_session_ref(entries@) == members_session_ref(entries@.skip(i as int)),
                decreases entries.len() - i,
            {
                assert(entries@.skip(i as int).drop_first() =~= entries@.skip(i + 1));
                assert(entries@.skip(i as int)[0] == entries@[i as int]);
                let found = find_session_ref(&entries[i].1);
                if found.is_some() {
                    return found;
                }
                i = i + 1;
            }
            None
        },
        Json::Array(items) => {
            let mut i: usize = 0;
            assert(items@.skip(0) =~= items@);
            while i < items.len()
                invariant
                    i <= items.len(),
                    items_session_ref(items@) == items_session_ref(items@.skip(i as int)),
                decreases items.len() - i,
            {
                assert(items@.skip(i as int).drop_first() =~= items@.skip(i + 1));
                assert(items@.skip(i as int)[0] == items@[i as int]);
                let found = find_session_ref(&items[i]);
                if found.is_some() {
                    return found;
                }
                i = i + 1;
            }
            None
        },
        _ => None,
    }
}

/// The failure message that an object directly reports: a `type: "error"` event's
/// `message`, else the `message` of its `error` object; blank messages do not count.
pub open spec fn direct_error_message(es: Seq<(String, Json)>) -> Option<Seq<char>> {
    let typed = match member(es, "type"@) {
        Some(Json::Str(k)) => k@ == "error"@,
        _ => false,
    };
    if typed && nonblank_text(member(es, "message"@)) is Some {
        nonblank_text(member(es, "message"@))
    } else {
        match member(es, "error"@) {
            Some(Json::Object(inner)) => nonblank_text(member(inner@, "message"@)),
            _ => None,
        }
    }
}

/// The failure message found in `v`, searched like the session reference.
pub open spec fn error_message(v: Json) -> Option<Seq<char>>
    decreases v, 1nat,
{
    match v {
        Json::Object(entries) => match direct_error_message(entries@) {
            Some(r) => Some(r),
            None => members_error_message(entries@),
        },
        Json::Array(items) => items_error_message(items@),
        _ => None,
    }
}

pub open spec fn members_error_message(es: Seq<(String, Json)>) -> Option<Seq<char>>
    decreases es, 0nat,
{
    if es.len() == 0 {
        None
    } else {
        match error_message(es[0].1) {
            Some(r) => Some(r),
            None => members_error_message(es.drop_first()),
        }
    }
}

pub open spec fn items_error_message(items: Seq<Json>) -> Option<Seq<char>>
    decreases items, 0nat,
{
    if items.len() == 0 {
        None
    } else {
        match error_message(items[0]) {
            Some(r) => Some(r),
            None => items_error_message(items.drop_first()),
        }
    }
}

/// Finds the failure message that one JSON event reports.
#[verifier::loop_isolation(false)]
pub fn find_error_message(value: &Json) -> (r: Option<String>)
    ensures
        opt_text(r) == error_message(*value),
    decreases value,
{
    match value {
        Json::Object(entries) => {
            let typed = match member_of(entries, "type") {
                Some(Json::Str(k)) => str_eq(k.as_str(), "error"),
                _ => false,
            };
            if typed {
                if let Some(m) = nonblank_text_of(member_of(entries, "message")) {
                    return Some(m.clone());
                }
            }
            if let Some(Json::Object(inner)) = member_of(entries, "error") {
                if let Some(m) = nonblank_text_of(member_of(inner, "message")) {
                    return Some(m.clone());
                }
            }
            let mut i: usize = 0;
            assert(entries@.skip(0) =~= entries@);
            while i < entries.len()
                invariant
                    i <= entries.len(),
                    direct_error_message(entries@) is None,
                    members_error_message(entries@) == members_error_message(
                        entries@.skip(i as int),
                    ),
                decreases entries.len() - i,
            {
                assert(entries@.skip(i as int).drop_first() =~= entries@.skip(i + 1));
                assert(entries@.skip(i as int)[0] == entries@[i as int]);
                let found = find_error_message(&entries[i].1);
                if found.is_some() {
                    return found;
                }
                i = i + 1;
            }
            None
        },
        Json::Array(items) => {
            let mut i: usize = 0;
            assert(items@.skip(0) =~= items@);
            while i < items.len()
                invariant
                    i <= items.len(),
                    items_error_message(items@) == items_error_message(items@.skip(i as int)),
                decreases items.len() - i,
            {
                assert(items@.skip(i as int).drop_first() =~= items@.skip(i + 1));
                assert(items@.skip(i as int)[0] == items@[i as int]);
                let found = find_error_message(&items[i]);
                if found.is_some() {
                    return found;
                }
                i = i + 1;
            }
            None
        },
        _ => None,
    }
}

/// The session reference of a transcript: that of the first line that names one.
/// Each line is its parsed JSON event, or `None` when the line is not JSON.
pub open spec fn transcript_session_ref(lines: Seq<Option<Json>>) -> Option<Seq<char>>
    decreases lines.len(),
{
    if lines.len() == 0 {
        None
    } else {
        match lines[0] {
            Some(v) if session_ref(v) is Some => session_ref(v),
            _ => transcript_session_ref(lines.drop_first()),
        }
    }
}

/// The failure of a transcript: that of the last line that reports one.
pub open spec fn transcript_error(lines: Seq<Option<Json>>) -> Option<Seq<char>>
    decreases lines.len(),
{
    if lines.len() == 0 {
        None
    } else {
        match lines.last() {
            Some(v) if error_message(v) is Some => error_message(v),
            _ => transcript_error(lines.drop_last()),
        }
    }
}

/// Reads the provider's session reference from parsed transcript lines, in order.
fn session_ref_of_lines(lines: &Vec<Option<Json>>) -> (r: Option<String>)
    ensures
        opt_text(r) == transcript_session_ref(lines@),
{
    let mut i: usize = 0;
    assert(lines@.skip(0) =~= lines@);
    while i < lines.len()
        invariant
            i <= lines.len(),
            transcript_session_ref(lines@) == transcript_session_ref(lines@.skip(i as int)),
        decreases lines.len() - i,
    {
        assert(lines@.skip(i as int).drop_first() =~= lines@.skip(i + 1));
        if let Some(value) = &lines[i] {
            let found = find_session_ref(value);
            if found.is_some() {
                return found;
            }
        }
        i = i + 1;
    }
    None
}

/// Reads the last failure that parsed transcript lines report, from the end.
fn error_of_lines(lines: &Vec<Option<Json>>) -> (r: Option<String>)
    ensures
        opt_text(r) == transcript_error(lines@),
{
    let mut n: usize = lines.len();
    assert(lines@.take(n as int) =~= lines@);
    while n > 0
        invariant
            n <= lines.len(),
            transcript_error(lines@) == transcript_error(lines@.take(n as int)),
        decreases n,
    {
        assert(lines@.take(n as int).drop_last() =~= lines@.take(n - 1));
        assert(lines@.take(n as int).last() == lines@[n - 1]);
        if let Some(value) = &lines[n - 1] {
            let found = find_error_message(value);
            if found.is_some() {
                return found;
            }
        }
        n = n - 1;
    }
    None
}

/// The lines of a JSONL transcript, each read as one JSON event (`None` where a line
/// is not JSON).
pub open spec fn transcript_events(text: Seq<char>) -> Seq<Option<Json>> {
    text_lines(text).map_values(|l: Seq<char>| parsed_json_text(l))
}

/// Splits a JSONL transcript into lines (`str::lines`) and parses each as JSON.
pub fn parse_transcript(text: &str) -> (r: Vec<Option<Json>>)
    ensures
        r@ == transcript_events(text@),
{
    let lines = text_lines_of(text);
    let ghost ls = text_lines(text@);
    let mut out: Vec<Option<Json>> = Vec::new();
    let mut i: usize = 0;
    while i < lines.len()
        invariant
            i <= lines.len(),
            views(lines@) == ls,
            out@ == ls.take(i as int).map_values(|l: Seq<char>| parsed_json_text(l)),
        decreases lines.len() - i,
    {
        assert(lines@[i as int]@ == ls[i as int]);
        let event = parse_json_text(lines[i].as_str());
        out.push(event);
        assert(ls.take(i + 1).map_values(|l: Seq<char>| parsed_json_text(l)) =~= ls.take(
            i as int,
        ).map_values(|l: Seq<char>| parsed_json_text(l)).push(parsed_json_text(ls[i as int])));
        i = i + 1;
    }
    assert(ls.take(lines.len() as int) =~= ls);
    out
}

/// Reads the provider's session reference from a Codex JSONL transcript: the first
/// line that is JSON and names one.
pub fn extract_external_session_ref(stdout: &str) -> (r: Option<String>)
    ensures
        opt_text(r) == transcript_session_ref(transcript_events(stdout@)),
{
    let events = parse_transcript(stdout);
    session_ref_of_lines(&events)
}

/// Reads the last failure that a Codex JSONL transcript reports, from the last line.
pub fn extract_codex_error(stdout: &str) -> (r: Option<String>)
    ensures
        opt_text(r) == transcript_error(transcript_events(stdout@)),
{
    let events = parse_transcript(stdout);
    error_of_lines(&events)
}

} // verus!
