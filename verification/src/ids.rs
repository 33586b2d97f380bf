//! Identifiers: 128-bit UUID values, their text form, and header extraction.

use vstd::prelude::*;
use crate::text::{concat2, digit, err_text, owned};

verus! {

/// An identifier (a UUID held as its 128-bit value).
pub type Id = u128;

/// A lower-case hexadecimal digit for `d < 16`.
pub open spec fn hex_digit(d: nat) -> char {
    if d < 10 {
        digit(d)
    } else if d == 10 {
        'a'
    } else if d == 11 {
        'b'
    } else if d == 12 {
        'c'
    } else if d == 13 {
        'd'
    } else if d == 14 {
        'e'
    } else {
        'f'
    }
}

/// The last `count` hexadecimal digits of `n`, most significant first.
pub open spec fn hex_digits(n: nat, count: nat) -> Seq<char>
    decreases count,
{
    if count == 0 {
        Seq::empty()
    } else {
        hex_digits(n / 16, (count - 1) as nat).push(hex_digit(n % 16))
    }
}

/// The hyphenated lower-case text of a UUID: `xxxxxxxx-xxxx-xxxx-xxxx-xxxxxxxxxxxx`.
pub open spec fn uuid_hyphenated(id: u128) -> Seq<char> {
    let h = hex_digits(id as nat, 32);
    h.subrange(0, 8) + seq!['-'] + h.subrange(8, 12) + seq!['-'] + h.subrange(12, 16) + seq!['-']
        + h.subrange(16, 20) + seq!['-'] + h.subrange(20, 32)
}

/// What `uuid::Uuid::parse_str` accepts, and the value it reads from the text.
pub uninterp spec fn uuid_parse(text: Seq<char>) -> Option<u128>;

/// Calls `uuid::Uuid::parse_str` and reads the value with `Uuid::as_u128`.
/// The contract names the result `uuid_parse(text)`: the crate accepts the simple,
/// hyphenated, braced and URN forms, in either case. It also states that the
/// hyphenated text of a value reads back as that value, as the crate documents for
/// every format it writes.
#[verifier::external_body]
pub(crate) fn parse_uuid(text: &str) -> (r: Option<u128>)
    ensures
        r == uuid_parse(text@),
        forall|id: u128| text@ == uuid_hyphenated(id) ==> r == Some(id),
{
    match uuid::Uuid::parse_str(text) {
        Ok(u) => Some(u.as_u128()),
        Err(_) => None,
    }
}

/// Calls `uuid::Uuid::from_u128` and the `Display` of `Uuid`, which writes the
/// hyphenated lower-case form.
#[verifier::external_body]
pub(crate) fn uuid_text(id: u128) -> (s: String)
    ensures
        s@ == uuid_hyphenated(id),
{
    uuid::Uuid::from_u128(id).to_string()
}

/// The text of an identifier.
pub fn id_text(id: Id) -> (s: String)
    ensures
        s@ == uuid_hyphenated(id),
{
    uuid_text(id)
}

/// The message for text that is not a UUID.
pub open spec fn invalid_uuid_message(raw: Seq<char>) -> Seq<char> {
    "invalid UUID: "@ + raw
}

/// Parses an identifier from request text.
pub fn parse_id(raw: &str) -> (r: Result<Id, String>)
    ensures
        uuid_parse(raw@) matches Some(id) ==> r == Ok::<Id, String>(id),
        uuid_parse(raw@) is None ==> err_text(r, invalid_uuid_message(raw@)),
{
    match parse_uuid(raw) {
        Some(id) => Ok(id),
        None => Err(concat2("invalid UUID: ", raw)),
    }
}

/// A request header as the server sees it.
pub enum HeaderText {
    /// The header is absent.
    Missing,
    /// The header is present but is not visible ASCII text.
    Opaque,
    /// The header's text.
    Text(String),
}

pub open spec fn missing_agent_header_message() -> Seq<char> {
    "missing X-Agent-Instance-Id header"@
}

pub open spec fn invalid_agent_header_message() -> Seq<char> {
    "invalid X-Agent-Instance-Id header"@
}

/// The identity an employee call runs as: the `X-Agent-Instance-Id` header, which the
/// authentication layer has already bound to the verified credential.
pub fn authenticated_agent(header: &HeaderText) -> (r: Result<Id, String>)
    ensures
        header is Missing ==> err_text(r, missing_agent_header_message()),
        header is Opaque ==> err_text(r, invalid_agent_header_message()),
        header matches HeaderText::Text(t) ==> (match uuid_parse(t@) {
            Some(id) => r == Ok::<Id, String>(id),
            None => err_text(r, invalid_uuid_message(t@)),
        }),
{
    match header {
        HeaderText::Missing => Err(owned("missing X-Agent-Instance-Id header")),
        HeaderText::Opaque => Err(owned("invalid X-Agent-Instance-Id header")),
        HeaderText::Text(t) => parse_id(t.as_str()),
    }
}

} // verus!
