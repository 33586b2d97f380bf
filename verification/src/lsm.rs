//! The local shell manager (LSM) control plane: configuration checks, the wire
//! format of control requests and responses, and the binding handed to an executor.

use vstd::prelude::*;
use crate::ids::{id_text, uuid_hyphenated, Id};
use crate::json::{as_text, get, get_of, as_str_of, Json};
use crate::text::{
    chars_of, concat2, decimal, has_prefix, has_suffix, is_ws, owned, push_char, skip_chars,
    slice_text, starts_with, string_from, u64_text, ends_with, char_is_ws,
};
use vstd::utf8::encode_utf8;

verus! {

/// The LSM Logical Session and capability that one executor run is bound to.
pub struct AgentBinding {
    pub logical_session_id: String,
    pub capability: String,
    pub mcp_url: String,
}

/// `s` with every trailing repetition of `p` removed (`str::trim_end_matches`).
pub open spec fn trimmed_end_matches(s: Seq<char>, p: Seq<char>) -> Seq<char>
    decreases s.len(),
{
    if p.len() > 0 && has_suffix(s, p) {
        trimmed_end_matches(s.take(s.len() - p.len()), p)
    } else {
        s
    }
}

fn trim_end_matches_of(s: &str, p: &str) -> (r: String)
    requires
        p@.len() > 0,
    ensures
        r@ == trimmed_end_matches(s@, p@),
{
    let v = chars_of(s);
    let pv = chars_of(p);
    let mut end: usize = v.len();
    assert(v@.take(v.len() as int) =~= v@);
    while end >= pv.len() && suffix_at(&v, &pv, end)
        invariant
            end <= v.len(),
            pv@ == p@,
            p@.len() > 0,
            trimmed_end_matches(s@, p@) == trimmed_end_matches(v@.take(end as int), p@),
            v@ == s@,
        decreases end,
    {
        let ghost t = v@.take(end as int);
        assert(has_suffix(t, p@)) by {
            assert(t.skip(t.len() - p@.len()) =~= v@.subrange(end - pv.len(), end as int));
        }
        assert(t.take(t.len() - p@.len()) =~= v@.take(end - pv.len()));
        end = end - pv.len();
    }
    proof {
        let t = v@.take(end as int);
        if end >= pv.len() {
            assert(!has_suffix(t, p@)) by {
                assert(t.skip(t.len() - p@.len()) =~= v@.subrange(end - pv.len(), end as int));
            }
        } else {
            assert(!has_suffix(t, p@));
        }
        assert(v@.take(v@.len() as int) =~= v@);
    }
    slice_text(&v, 0, end)
}

/// Whether `p` ends at index `end` of `v`.
fn suffix_at(v: &Vec<char>, p: &Vec<char>, end: usize) -> (b: bool)
    requires
        p.len() <= end <= v.len(),
    ensures
        b == (v@.subrange(end - p.len(), end as int) == p@),
{
    let start = end - p.len();
    let mut k: usize = 0;
    while k < p.len()
        invariant
            start + p.len() == end <= v.len(),
            k <= p.len(),
            forall|j: int| 0 <= j < k ==> v@[start + j] == p@[j],
        decreases p.len() - k,
    {
        if v[start + k] != p[k] {
            assert(v@.subrange(start as int, end as int)[k as int] != p@[k as int]);
            return false;
        }
        k = k + 1;
    }
    assert(v@.subrange(start as int, end as int) =~= p@);
    true
}

/// The origin of the LSM control URL: without trailing `/` and without a trailing
/// `/api/control`.
pub open spec fn control_origin(configured: Seq<char>) -> Seq<char> {
    trimmed_end_matches(trimmed_end_matches(configured, "/"@), "/api/control"@)
}

/// The authority of the control origin, which must be plain `http://`.
pub open spec fn control_authority(origin: Seq<char>) -> Option<Seq<char>> {
    if has_prefix(origin, "http://"@) {
        Some(origin.skip(7))
    } else {
        None
    }
}

pub open spec fn loopback_http_message() -> Seq<char> {
    "MORROWS_LSM_CONTROL_URL must use loopback HTTP"@
}

/// The origin and the authority (`host:port`) of the configured control URL; the
/// authority must then be a loopback socket address.
pub fn parse_control_url(configured: &str) -> (r: Result<(String, String), String>)
    ensures
        match r {
            Ok((origin, authority)) => origin@ == control_origin(configured@) && control_authority(
                origin@,
            ) == Some(authority@),
            Err(e) => control_authority(control_origin(configured@)) is None && e@
                == loopback_http_message(),
        },
{
    proof {
        reveal_strlit("/");
        reveal_strlit("/api/control");
        reveal_strlit("http://");
    }
    let a = trim_end_matches_of(configured, "/");
    let origin = trim_end_matches_of(a.as_str(), "/api/control");
    if !starts_with(origin.as_str(), "http://") {
        return Err(owned("MORROWS_LSM_CONTROL_URL must use loopback HTTP"));
    }
    let authority = skip_chars(origin.as_str(), 7);
    Ok((origin, authority))
}

pub open spec fn key_required_message() -> Seq<char> {
    "MORROWS_LSM_CONTROL_KEY is required when LSM integration is enabled"@
}

pub open spec fn key_invalid_message() -> Seq<char> {
    "MORROWS_LSM_CONTROL_KEY is empty or invalid"@
}

/// A control key may not be empty, and may not hold a line break (it is sent as a
/// header value).
pub open spec fn valid_control_key(key: Seq<char>) -> bool {
    key.len() > 0 && !key.contains('\r') && !key.contains('\n')
}

#[verifier::loop_isolation(false)]
pub fn check_control_key(key: Option<&str>) -> (r: Result<String, String>)
    ensures
        match key {
            None => r matches Err(e) && e@ == key_required_message(),
            Some(k) => if valid_control_key(k@) {
                r matches Ok(s) && s@ == k@
            } else {
                r matches Err(e) && e@ == key_invalid_message()
            },
        },
{
    match key {
        None => Err(owned("MORROWS_LSM_CONTROL_KEY is required when LSM integration is enabled")),
        Some(k) => {
            let v = chars_of(k);
            let mut i: usize = 0;
            while i < v.len()
                invariant
                    i <= v.len(),
                    v@ == k@,
                    forall|j: int| 0 <= j < i ==> v@[j] != '\r' && v@[j] != '\n',
                decreases v.len() - i,
            {
                if v[i] == '\r' || v[i] == '\n' {
                    assert(k@[i as int] == v@[i as int]);
                    assert(k@.contains('\r') || k@.contains('\n'));
                    return Err(owned("MORROWS_LSM_CONTROL_KEY is empty or invalid"));
                }
                i = i + 1;
            }
            if v.len() == 0 {
                return Err(owned("MORROWS_LSM_CONTROL_KEY is empty or invalid"));
            }
            Ok(owned(k))
        },
    }
}

/// The head of a control request over HTTP/1.1; `host` is the control address.
pub open spec fn control_request_head_of(
    method: Seq<char>,
    path: Seq<char>,
    host: Seq<char>,
    key: Seq<char>,
    content_length: nat,
) -> Seq<char> {
    method + " /api/control"@ + path + " HTTP/1.1\r\nHost: "@ + host + "\r\nX-LSM-Control-Key: "@
        + key + "\r\nContent-Type: application/json\r\nContent-Length: "@ + decimal(content_length)
        + "\r\nConnection: close\r\n\r\n"@
}

pub fn control_request_head(
    method: &str,
    path: &str,
    host: &str,
    key: &str,
    content_length: u64,
) -> (r: String)
    ensures
        r@ == control_request_head_of(method@, path@, host@, key@, content_length as nat),
{
    let mut r = concat2(method, " /api/control");
    r.append(path);
    r.append(" HTTP/1.1\r\nHost: ");
    r.append(host);
    r.append("\r\nX-LSM-Control-Key: ");
    r.append(key);
    r.append("\r\nContent-Type: application/json\r\nContent-Length: ");
    r.append(u64_text(content_length).as_str());
    r.append("\r\nConnection: close\r\n\r\n");
    r
}

/// Whether a request sends a body: every method but `GET`.
pub fn request_has_body(method: &str) -> (b: bool)
    ensures
        b == (method@ != "GET"@),
{
    !crate::text::str_eq(method, "GET")
}

/// The end of the response head: the first index where `\r\n\r\n` begins.
pub open spec fn head_end_at(bytes: Seq<u8>, i: int) -> bool {
    0 <= i && i + 4 <= bytes.len() && bytes[i] == 13 && bytes[i + 1] == 10 && bytes[i + 2] == 13
        && bytes[i + 3] == 10
}

pub open spec fn response_separator_of(bytes: Seq<u8>) -> Option<int> {
    if exists|i: int| head_end_at(bytes, i) {
        Some(choose|i: int| head_end_at(bytes, i) && forall|j: int| 0 <= j < i ==> !head_end_at(bytes, j))
    } else {
        None
    }
}

pub fn response_separator(bytes: &Vec<u8>) -> (r: Option<usize>)
    ensures
        match r {
            Some(i) => response_separator_of(bytes@) == Some(i as int) && i + 4 <= bytes.len(),
            None => response_separator_of(bytes@) is None,
        },
{
    let mut i: usize = 0;
    while i < bytes.len() && bytes.len() - i >= 4
        invariant
            i <= bytes.len(),
            forall|j: int| 0 <= j < i ==> !head_end_at(bytes@, j),
        decreases bytes.len() - i,
    {
        if bytes[i] == 13 && bytes[i + 1] == 10 && bytes[i + 2] == 13 && bytes[i + 3] == 10 {
            proof {
                let w = i as int;
                assert(head_end_at(bytes@, w));
                let c = choose|k: int|
                    head_end_at(bytes@, k) && forall|j: int| 0 <= j < k ==> !head_end_at(bytes@, j);
                if c < w {
                    assert(!head_end_at(bytes@, c));
                } else if c > w {
                    assert(!head_end_at(bytes@, w));
                }
            }
            return Some(i);
        }
        i = i + 1;
    }
    proof {
        assert forall|j: int| !head_end_at(bytes@, j) by {
            if 0 <= j < i {
            }
        }
    }
    None
}

pub open spec fn no_headers_message() -> Seq<char> {
    "LSM control response has no headers"@
}

/// The first line of a text, as `str::lines` yields it: up to the first `\n`, without
/// a `\r` just before it; `None` for empty text.
pub open spec fn first_line(h: Seq<char>) -> Option<Seq<char>> {
    if h.len() == 0 {
        None
    } else {
        match crate::text::first_occurrence(h, seq!['\n']) {
            Some(i) => {
                let l = h.take(i);
                if l.len() > 0 && l.last() == '\r' {
                    Some(l.drop_last())
                } else {
                    Some(l)
                }
            },
            None => Some(h),
        }
    }
}

/// The white-space separated words of a text (`str::split_whitespace`).
pub open spec fn words(s: Seq<char>) -> Seq<Seq<char>>
    decreases s.len(),
{
    if s.len() == 0 {
        Seq::empty()
    } else {
        let prev = words(s.drop_last());
        let c = s.last();
        if is_ws(c) {
            prev
        } else if s.len() >= 2 && !is_ws(s[s.len() - 2]) && prev.len() > 0 {
            prev.update(prev.len() - 1, prev.last().push(c))
        } else {
            prev.push(seq![c])
        }
    }
}

/// The value of a text of decimal digits.
pub open spec fn digits_value(d: Seq<char>) -> nat
    decreases d.len(),
{
    if d.len() == 0 {
        0
    } else {
        digits_value(d.drop_last()) * 10 + ((d.last() as u32 - '0' as u32) as nat)
    }
}

pub open spec fn all_digits(d: Seq<char>) -> bool {
    forall|i: int| 0 <= i < d.len() ==> '0' <= #[trigger] d[i] <= '9'
}

/// `u16::from_str`: an optional `+`, then at least one decimal digit, in range.
pub open spec fn parsed_u16(t: Seq<char>) -> Option<u16> {
    let d = if t.len() > 0 && t[0] == '+' {
        t.drop_first()
    } else {
        t
    };
    if d.len() == 0 || !all_digits(d) || digits_value(d) > 65535 {
        None
    } else {
        Some(digits_value(d) as u16)
    }
}

/// The status code of a response head: the second word of its first line, read as a
/// `u16`.
pub open spec fn response_status_of(head: Seq<char>) -> Option<u16> {
    match first_line(head) {
        Some(l) => if words(l).len() >= 2 {
            parsed_u16(words(l)[1])
        } else {
            None
        },
        None => None,
    }
}

proof fn lemma_digits_value_grows(d: Seq<char>, i: int)
    requires
        0 <= i <= d.len(),
        all_digits(d),
    ensures
        digits_value(d.take(i)) <= digits_value(d),
    decreases d.len() - i,
{
    if i < d.len() {
        assert(d.take(i + 1).drop_last() =~= d.take(i));
        assert(d.take(i + 1).last() == d[i]);
        lemma_digits_value_grows(d, i + 1);
    } else {
        assert(d.take(i) =~= d);
    }
}

#[verifier::loop_isolation(false)]
fn parse_u16(t: &Vec<char>) -> (r: Option<u16>)
    ensures
        r == parsed_u16(t@),
{
    let start: usize = if t.len() > 0 && t[0] == '+' {
        1
    } else {
        0
    };
    let ghost d = if t@.len() > 0 && t@[0] == '+' {
        t@.drop_first()
    } else {
        t@
    };
    assert(d =~= t@.skip(start as int));
    if start == t.len() {
        return None;
    }
    let mut value: u32 = 0;
    let mut i = start;
    while i < t.len()
        invariant
            start <= i <= t.len(),
            d == t@.skip(start as int),
            value == digits_value(d.take(i - start)),
            value <= 65535,
            forall|j: int| 0 <= j < i - start ==> '0' <= #[trigger] d[j] <= '9',
        decreases t.len() - i,
    {
        let c = t[i];
        assert(d[i - start] == c);
        if !('0' <= c && c <= '9') {
            assert(!all_digits(d));
            return None;
        }
        assert(d.take(i - start + 1).drop_last() =~= d.take(i - start));
        assert(d.take(i - start + 1).last() == c);
        let digit = (c as u32) - ('0' as u32);
        let next = value * 10 + digit;
        assert(next == digits_value(d.take(i - start + 1)));
        if next > 65535 {
            proof {
                if all_digits(d) {
                    lemma_digits_value_grows(d, i - start + 1);
                }
            }
            return None;
        }
        i = i + 1;
        value = next;
    }
    assert(d.take(i - start) =~= d);
    Some(value as u16)
}

fn first_line_of(h: &Vec<char>) -> (r: Option<Vec<char>>)
    ensures
        match r {
            Some(l) => first_line(h@) == Some(l@),
            None => first_line(h@) is None,
        },
{
    if h.len() == 0 {
        return None;
    }
    let nl = vec!['\n'];
    assert(nl@ =~= seq!['\n']);
    match crate::text::find_from(h, &nl, 0) {
        Some(i) => {
            let mut l: Vec<char> = Vec::new();
            let mut k: usize = 0;
            while k < i
                invariant
                    k <= i <= h.len(),
                    l@ == h@.take(k as int),
                decreases i - k,
            {
                l.push(h[k]);
                assert(h@.take(k + 1) =~= h@.take(k as int).push(h@[k as int]));
                k = k + 1;
            }
            if l.len() > 0 && l[l.len() - 1] == '\r' {
                l.pop();
            }
            Some(l)
        },
        None => {
            let mut l: Vec<char> = Vec::new();
            let mut k: usize = 0;
            while k < h.len()
                invariant
                    k <= h.len(),
                    l@ == h@.take(k as int),
                decreases h.len() - k,
            {
                l.push(h[k]);
                assert(h@.take(k + 1) =~= h@.take(k as int).push(h@[k as int]));
                k = k + 1;
            }
            assert(h@.take(h@.len() as int) =~= h@);
            Some(l)
        },
    }
}

fn words_of(s: &Vec<char>) -> (r: Vec<Vec<char>>)
    ensures
        r@.map_values(|w: Vec<char>| w@) == words(s@),
{
    let mut out: Vec<Vec<char>> = Vec::new();
    let mut i: usize = 0;
    while i < s.len()
        invariant
            i <= s.len(),
            out@.map_values(|w: Vec<char>| w@) == words(s@.take(i as int)),
        decreases s.len() - i,
    {
        let c = s[i];
        let ghost t = s@.take(i + 1);
        assert(t.drop_last() =~= s@.take(i as int));
        assert(t.last() == c);
        let ghost prev = out@.map_values(|w: Vec<char>| w@);
        if char_is_ws(c) {
        } else if i >= 1 && !char_is_ws(s[i - 1]) && out.len() > 0 {
            assert(t[t.len() - 2] == s@[i - 1]);
            let last = out.len() - 1;
            let mut w = out.pop().unwrap();
            w.push(c);
            out.push(w);
            assert(out@.map_values(|w: Vec<char>| w@) =~= prev.update(
                prev.len() - 1,
                prev.last().push(c),
            ));
        } else {
            proof {
                if i >= 1 {
                    assert(t[t.len() - 2] == s@[i - 1]);
                }
            }
            let mut w: Vec<char> = Vec::new();
            w.push(c);
            out.push(w);
            assert(out@.map_values(|w: Vec<char>| w@) =~= prev.push(seq![c]));
        }
        i = i + 1;
    }
    assert(s@.take(s@.len() as int) =~= s@);
    out
}

/// The status code of a control response's head.
pub fn response_status(head: &str) -> (r: Option<u16>)
    ensures
        r == response_status_of(head@),
{
    let h = chars_of(head);
    match first_line_of(&h) {
        None => None,
        Some(l) => {
            let ws = words_of(&l);
            if ws.len() >= 2 {
                assert(ws@.map_values(|w: Vec<char>| w@)[1] == ws@[1]@);
                parse_u16(&ws[1])
            } else {
                None
            }
        },
    }
}

pub open spec fn no_status_message() -> Seq<char> {
    "LSM control response has no status"@
}

/// The error of a control response outside 2xx, carrying its `error` member as JSON
/// text.
pub open spec fn status_error_of(status: u16, error_json: Seq<char>) -> Option<Seq<char>> {
    if 200 <= status < 300 {
        None
    } else {
        Some("LSM control returned "@ + decimal(status as nat) + ": "@ + error_json)
    }
}

/// Every 2xx control response succeeds, and every other status is a failure that
/// names the status and carries the response's error.
pub proof fn law_only_2xx_control_responses_succeed(status: u16, error_json: Seq<char>)
    ensures
        (status_error_of(status, error_json) is None) == (200 <= status && status < 300),
        status_error_of(status, error_json) matches Some(m) ==> m == "LSM control returned "@
            + decimal(status as nat) + ": "@ + error_json,
{
}

pub fn control_status_error(status: u16, error_json: &str) -> (r: Option<String>)
    ensures
        match r {
            Some(e) => status_error_of(status, error_json@) == Some(e@),
            None => status_error_of(status, error_json@) is None,
        },
        r is None <==> 200 <= status && status < 300,
{
    proof {
        law_only_2xx_control_responses_succeed(status, error_json@);
    }
    if 200 <= status && status < 300 {
        None
    } else {
        let head = concat2("LSM control returned ", u64_text(status as u64).as_str());
        let mid = concat2(head.as_str(), ": ");
        Some(concat2(mid.as_str(), error_json))
    }
}

/// The idempotency key that makes provisioning a run's Logical Session replayable.
pub fn run_idempotency_key(run: Id) -> (s: String)
    ensures
        s@ == "morrows:run:"@ + uuid_hyphenated(run),
{
    concat2("morrows:run:", id_text(run).as_str())
}

/// The label of a run's Logical Session.
pub fn run_session_label(task_title: &str) -> (s: String)
    ensures
        s@ == "Morrows: "@ + task_title@,
{
    concat2("Morrows: ", task_title)
}

/// A text member of a nested member of a control response (`v[outer][inner]`).
pub open spec fn nested_text(v: Json, outer: Seq<char>, inner: Seq<char>) -> Option<Seq<char>> {
    match get(v, outer) {
        Some(o) => as_text(get(o, inner)),
        None => None,
    }
}

/// The Logical Session a provisioning response names.
pub fn provisioned_session_id(response: &Json) -> (r: Result<String, String>)
    ensures
        match nested_text(*response, "session"@, "session_id"@) {
            Some(s) => r matches Ok(t) && t@ == s,
            None => r matches Err(e) && e@ == "LSM did not return a Session ID"@,
        },
{
    let inner = match get_of(response, "session") {
        Some(o) => as_str_of(get_of(o, "session_id")),
        None => None,
    };
    match inner {
        Some(s) => Ok(s.clone()),
        None => Err(owned("LSM did not return a Session ID")),
    }
}

/// The capability and its identifier that an issuing response names.
pub fn issued_capability(issued: &Json) -> (r: Result<(String, String), String>)
    ensures
        match (as_text(get(*issued, "capability"@)), as_text(get(*issued, "capability_id"@))) {
            (Some(c), Some(i)) => r matches Ok((a, b)) && a@ == c && b@ == i,
            (None, _) => r matches Err(e) && e@ == "LSM did not return a capability"@,
            (Some(_), None) => r matches Err(e) && e@ == "LSM did not return a capability ID"@,
        },
{
    let capability = match as_str_of(get_of(issued, "capability")) {
        Some(c) => c.clone(),
        None => {
            return Err(owned("LSM did not return a capability"));
        },
    };
    match as_str_of(get_of(issued, "capability_id")) {
        Some(i) => Ok((capability, i.clone())),
        None => Err(owned("LSM did not return a capability ID")),
    }
}

/// The MCP endpoint of the LSM, next to its control API.
pub fn lsm_mcp_url(origin: &str) -> (s: String)
    ensures
        s@ == origin@ + "/mcp"@,
{
    concat2(origin, "/mcp")
}

/// Whether a cleanup response reports the cleanup complete (`complete` is `true`).
pub fn cleanup_complete(response: &Json) -> (b: bool)
    ensures
        b == (get(*response, "complete"@) == Some(Json::Bool(true))),
{
    match get_of(response, "complete") {
        Some(Json::Bool(v)) => *v,
        _ => false,
    }
}

/// The terminal action of a cleanup: `finish` for a completed run, else `cancel`.
pub fn cleanup_terminal_action(finish: bool) -> (s: String)
    ensures
        s@ == (if finish {
            "finish"@
        } else {
            "cancel"@
        }),
{
    if finish {
        owned("finish")
    } else {
        owned("cancel")
    }
}

/// Bytes that a query value carries as they are: ASCII letters and digits and `-._~`.
pub open spec fn unreserved(b: u8) -> bool {
    (48 <= b <= 57) || (65 <= b <= 90) || (97 <= b <= 122) || b == 45 || b == 46 || b == 95 || b
        == 126
}

/// An upper-case hexadecimal digit for `d < 16`.
pub open spec fn hex_upper(d: nat) -> char {
    if d < 10 {
        crate::text::digit(d)
    } else if d == 10 {
        'A'
    } else if d == 11 {
        'B'
    } else if d == 12 {
        'C'
    } else if d == 13 {
        'D'
    } else if d == 14 {
        'E'
    } else {
        'F'
    }
}

/// One byte of a query value: itself where unreserved, else `%XX`.
pub open spec fn encoded_byte(b: u8) -> Seq<char> {
    if unreserved(b) {
        seq![b as char]
    } else {
        seq!['%', hex_upper((b / 16) as nat), hex_upper((b % 16) as nat)]
    }
}

/// The percent-encoding of a byte string.
pub open spec fn percent_encoded(bs: Seq<u8>) -> Seq<char>
    decreases bs.len(),
{
    if bs.len() == 0 {
        Seq::empty()
    } else {
        percent_encoded(bs.drop_last()) + encoded_byte(bs.last())
    }
}

fn hex_upper_char(d: u8) -> (c: char)
    requires
        d < 16,
    ensures
        c == hex_upper(d as nat),
{
    if d < 10 {
        if d == 0 {
            '0'
        } else if d == 1 {
            '1'
        } else if d == 2 {
            '2'
        } else if d == 3 {
            '3'
        } else if d == 4 {
            '4'
        } else if d == 5 {
            '5'
        } else if d == 6 {
            '6'
        } else if d == 7 {
            '7'
        } else if d == 8 {
            '8'
        } else {
            '9'
        }
    } else if d == 10 {
        'A'
    } else if d == 11 {
        'B'
    } else if d == 12 {
        'C'
    } else if d == 13 {
        'D'
    } else if d == 14 {
        'E'
    } else {
        'F'
    }
}

/// The machine name of a job-tail query, percent-encoded byte by byte in UTF-8.
pub fn encode_machine(machine: &str) -> (r: String)
    ensures
        r@ == percent_encoded(encode_utf8(machine@)),
{
    let bytes = machine.as_bytes();
    let mut out = String::new();
    let mut i: usize = 0;
    while i < bytes.len()
        invariant
            i <= bytes@.len(),
            bytes@ == encode_utf8(machine@),
            out@ == percent_encoded(bytes@.take(i as int)),
        decreases bytes.len() - i,
    {
        let b = bytes[i];
        assert(bytes@.take(i + 1).drop_last() =~= bytes@.take(i as int));
        assert(bytes@.take(i + 1).last() == b);
        if (48 <= b && b <= 57) || (65 <= b && b <= 90) || (97 <= b && b <= 122) || b == 45 || b
            == 46 || b == 95 || b == 126 {
            push_char(&mut out, b as char);
        } else {
            push_char(&mut out, '%');
            push_char(&mut out, hex_upper_char(b / 16));
            push_char(&mut out, hex_upper_char(b % 16));
        }
        assert(out@ =~= percent_encoded(bytes@.take(i as int)) + encoded_byte(b));
        i = i + 1;
    }
    assert(bytes@.take(bytes@.len() as int) =~= bytes@);
    out
}

/// The control path of the last lines of a job's output on a machine.
pub fn job_tail_path(session_id: &str, job_id: &str, machine: &str) -> (s: String)
    ensures
        s@ == "/sessions/"@ + session_id@ + "/jobs/"@ + job_id@ + "/tail?machine="@
            + percent_encoded(encode_utf8(machine@)) + "&lines=200"@,
{
    let mut s = concat2("/sessions/", session_id);
    s.append("/jobs/");
    s.append(job_id);
    s.append("/tail?machine=");
    s.append(encode_machine(machine).as_str());
    s.append("&lines=200");
    s
}

/// Encoding keeps unreserved bytes and writes every other byte as three characters,
/// so the encoded text holds no reserved character but `%`.
pub proof fn law_percent_encoding_is_query_safe(bs: Seq<u8>)
    ensures
        forall|i: int|
            0 <= i < percent_encoded(bs).len() ==> {
                let c = #[trigger] percent_encoded(bs)[i];
                c == '%' || ('0' <= c <= '9') || ('A' <= c <= 'Z') || ('a' <= c <= 'z') || c == '-'
                    || c == '.' || c == '_' || c == '~'
            },
    decreases bs.len(),
{
    if bs.len() > 0 {
        law_percent_encoding_is_query_safe(bs.drop_last());
        let prev = percent_encoded(bs.drop_last());
        let b = bs.last();
        let e = encoded_byte(b);
        let all = percent_encoded(bs);
        assert forall|i: int| 0 <= i < all.len() implies {
            let c = #[trigger] all[i];
            c == '%' || ('0' <= c <= '9') || ('A' <= c <= 'Z') || ('a' <= c <= 'z') || c == '-'
                || c == '.' || c == '_' || c == '~'
        } by {
            if i < prev.len() {
                assert(all[i] == prev[i]);
            } else {
                assert(all[i] == e[i - prev.len()]);
                if unreserved(b) {
                    assert((b as char) as u32 == b as u32);
                }
            }
        }
    }
}

} // verus!
