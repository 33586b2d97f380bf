//! A plain model of JSON documents, and lookups over it.

use vstd::prelude::*;
use crate::text::{all_ws, is_blank, str_eq};

verus! {

/// A JSON value. Numbers keep their JSON text; object members keep their order.
pub enum Json {
    Null,
    Bool(bool),
    Number(String),
    Str(String),
    Array(Vec<Json>),
    Object(Vec<(String, Json)>),
}

/// The value stored under `key` among `entries` (the first such member).
pub open spec fn member(entries: Seq<(String, Json)>, key: Seq<char>) -> Option<Json>
    decreases entries.len(),
{
    if entries.len() == 0 {
        None
    } else if entries[0].0@ == key {
        Some(entries[0].1)
    } else {
        member(entries.drop_first(), key)
    }
}

/// The value stored under `key`, when `v` is an object.
pub open spec fn get(v: Json, key: Seq<char>) -> Option<Json> {
    match v {
        Json::Object(entries) => member(entries@, key),
        _ => None,
    }
}

/// The text of a member that holds a string that is not blank.
pub open spec fn nonblank_text(v: Option<Json>) -> Option<Seq<char>> {
    match v {
        Some(Json::Str(s)) => if all_ws(s@) {
            None
        } else {
            Some(s@)
        },
        _ => None,
    }
}

/// Looks up `key` among object members.
pub fn member_of<'a>(entries: &'a Vec<(String, Json)>, key: &str) -> (r: Option<&'a Json>)
    ensures
        r matches Some(v) ==> member(entries@, key@) == Some(*v),
        r is None ==> member(entries@, key@) is None,
{
    let mut i: usize = 0;
    assert(entries@.skip(0) =~= entries@);
    while i < entries.len()
        invariant
            i <= entries.len(),
            member(entries@, key@) == member(entries@.skip(i as int), key@),
        decreases entries.len() - i,
    {
        assert(entries@.skip(i as int).drop_first() =~= entries@.skip(i + 1));
        if str_eq(entries[i].0.as_str(), key) {
            return Some(&entries[i].1);
        }
        i = i + 1;
    }
    None
}

/// Looks up `key` when `v` is an object (`Value::get`).
pub fn get_of<'a>(v: &'a Json, key: &str) -> (r: Option<&'a Json>)
    ensures
        r matches Some(x) ==> get(*v, key@) == Some(*x),
        r is None ==> get(*v, key@) is None,
{
    match v {
        Json::Object(entries) => member_of(entries, key),
        _ => None,
    }
}

/// The text of `v` when it holds a string that is not blank.
pub fn nonblank_text_of(v: Option<&Json>) -> (r: Option<&String>)
    ensures
        match r {
            Some(s) => nonblank_text(
                match v {
                    Some(x) => Some(*x),
                    None => None,
                },
            ) == Some(s@),
            None => nonblank_text(
                match v {
                    Some(x) => Some(*x),
                    None => None,
                },
            ) is None,
        },
{
    match v {
        Some(Json::Str(s)) => if is_blank(s.as_str()) {
            None
        } else {
            Some(s)
        },
        _ => None,
    }
}

/// The text of `v` when it is a string.
pub open spec fn as_text(v: Option<Json>) -> Option<Seq<char>> {
    match v {
        Some(Json::Str(s)) => Some(s@),
        _ => None,
    }
}

/// The string held by `v`, if it is one (`Value::as_str`).
pub fn as_str_of(v: Option<&Json>) -> (r: Option<&String>)
    ensures
        match r {
            Some(s) => as_text(
                match v {
                    Some(x) => Some(*x),
                    None => None,
                },
            ) == Some(s@),
            None => as_text(
                match v {
                    Some(x) => Some(*x),
                    None => None,
                },
            ) is None,
        },
{
    match v {
        Some(Json::Str(s)) => Some(s),
        _ => None,
    }
}

/// Equality of JSON values as `serde_json::Value` compares them: the same kind and the
/// same contents, array items pairwise in order, and objects with as many members
/// where each member of the first is found, equal, under its key in the second
/// (member order does not count). Numbers compare by their text.
pub open spec fn json_eq(a: Json, b: Json) -> bool
    decreases a, 2nat,
{
    match a {
        Json::Null => b is Null,
        Json::Bool(x) => b == Json::Bool(x),
        Json::Number(x) => match b {
            Json::Number(y) => x@ == y@,
            _ => false,
        },
        Json::Str(x) => match b {
            Json::Str(y) => x@ == y@,
            _ => false,
        },
        Json::Array(xs) => match b {
            Json::Array(ys) => items_eq(xs@, ys@),
            _ => false,
        },
        Json::Object(xs) => match b {
            Json::Object(ys) => xs@.len() == ys@.len() && members_found(xs@, ys@),
            _ => false,
        },
    }
}

/// Arrays of equal length whose items are pairwise equal.
pub open spec fn items_eq(xs: Seq<Json>, ys: Seq<Json>) -> bool
    decreases xs, 0nat,
{
    if xs.len() == 0 {
        ys.len() == 0
    } else {
        ys.len() > 0 && json_eq(xs[0], ys[0]) && items_eq(xs.drop_first(), ys.drop_first())
    }
}

/// Every member of `xs` is found, equal, under its key among `ys`.
pub open spec fn members_found(xs: Seq<(String, Json)>, ys: Seq<(String, Json)>) -> bool
    decreases xs, 1nat,
{
    if xs.len() == 0 {
        true
    } else {
        (match member(ys, xs[0].0@) {
            Some(v) => json_eq(xs[0].1, v),
            None => false,
        }) && members_found(xs.drop_first(), ys)
    }
}

/// Compares two JSON values as `serde_json::Value`'s `==` does.
#[verifier::loop_isolation(false)]
pub fn json_equal(a: &Json, b: &Json) -> (r: bool)
    ensures
        r == json_eq(*a, *b),
    decreases a,
{
    match a {
        Json::Null => matches!(b, Json::Null),
        Json::Bool(x) => match b {
            Json::Bool(y) => *x == *y,
            _ => false,
        },
        Json::Number(x) => match b {
            Json::Number(y) => str_eq(x.as_str(), y.as_str()),
            _ => false,
        },
        Json::Str(x) => match b {
            Json::Str(y) => str_eq(x.as_str(), y.as_str()),
            _ => false,
        },
        Json::Array(xs) => match b {
            Json::Array(ys) => {
                if xs.len() != ys.len() {
                    proof {
                        lemma_items_eq_len(xs@, ys@);
                    }
                    return false;
                }
                let mut i: usize = 0;
                assert(xs@.skip(0) =~= xs@);
                assert(ys@.skip(0) =~= ys@);
                while i < xs.len()
                    invariant
                        i <= xs.len(),
                        xs.len() == ys.len(),
                        items_eq(xs@, ys@) == items_eq(xs@.skip(i as int), ys@.skip(i as int)),
                    decreases xs.len() - i,
                {
                    assert(xs@.skip(i as int).drop_first() =~= xs@.skip(i + 1));
                    assert(ys@.skip(i as int).drop_first() =~= ys@.skip(i + 1));
                    assert(xs@.skip(i as int)[0] == xs@[i as int]);
                    assert(ys@.skip(i as int)[0] == ys@[i as int]);
                    if !json_equal(&xs[i], &ys[i]) {
                        return false;
                    }
                    i = i + 1;
                }
                true
            },
            _ => false,
        },
        Json::Object(xs) => match b {
            Json::Object(ys) => {
                if xs.len() != ys.len() {
                    return false;
                }
                let mut i: usize = 0;
                assert(xs@.skip(0) =~= xs@);
                while i < xs.len()
                    invariant
                        i <= xs.len(),
                        members_found(xs@, ys@) == members_found(xs@.skip(i as int), ys@),
                    decreases xs.len() - i,
                {
                    assert(xs@.skip(i as int).drop_first() =~= xs@.skip(i + 1));
                    assert(xs@.skip(i as int)[0] == xs@[i as int]);
                    match member_of(ys, xs[i].0.as_str()) {
                        Some(v) => {
                            if !json_equal(&xs[i].1, v) {
                                return false;
                            }
                        },
                        None => {
                            return false;
                        },
                    }
                    i = i + 1;
                }
                true
            },
            _ => false,
        },
    }
}

proof fn lemma_items_eq_len(xs: Seq<Json>, ys: Seq<Json>)
    ensures
        items_eq(xs, ys) ==> xs.len() == ys.len(),
    decreases xs.len(),
{
    if xs.len() > 0 && ys.len() > 0 {
        lemma_items_eq_len(xs.drop_first(), ys.drop_first());
    }
}

/// Whether `v` is a string holding exactly `text`.
pub open spec fn is_text(v: Option<Json>, text: Seq<char>) -> bool {
    match v {
        Some(Json::Str(s)) => s@ == text,
        _ => false,
    }
}

/// A member whose name no earlier member has is what a lookup of that name finds.
pub proof fn lemma_member_at(es: Seq<(String, Json)>, k: int)
    requires
        0 <= k < es.len(),
        forall|j: int| 0 <= j < k ==> #[trigger] es[j].0@ != es[k].0@,
    ensures
        member(es, es[k].0@) == Some(es[k].1),
    decreases k,
{
    if k > 0 {
        let r = es.drop_first();
        assert forall|j: int| 0 <= j < k - 1 implies #[trigger] r[j].0@ != r[k - 1].0@ by {
            assert(r[j] == es[j + 1] && r[k - 1] == es[k]);
            assert(es[j + 1].0@ != es[k].0@);
        }
        assert(es[0].0@ != es[k].0@);
        lemma_member_at(r, k - 1);
        assert(r[k - 1] == es[k]);
    }
}

#[verifier::external_type_specification]
#[verifier::external_body]
pub struct ExJsonValue(serde_json::Value);

/// No two members share a name.
pub open spec fn member_names_distinct(es: Seq<(String, Json)>) -> bool {
    forall|i: int, j: int| 0 <= i < j < es.len() ==> #[trigger] es[i].0@ != #[trigger] es[j].0@
}

/// A JSON value as a parser gives it: no object, at any depth, repeats a member name.
pub open spec fn json_wf(v: Json) -> bool
    decreases v, 2nat,
{
    match v {
        Json::Object(es) => member_names_distinct(es@) && members_wf(es@),
        Json::Array(items) => items_wf(items@),
        _ => true,
    }
}

pub open spec fn members_wf(es: Seq<(String, Json)>) -> bool
    decreases es, 1nat,
{
    es.len() == 0 || (json_wf(es[0].1) && members_wf(es.drop_first()))
}

pub open spec fn items_wf(items: Seq<Json>) -> bool
    decreases items, 1nat,
{
    items.len() == 0 || (json_wf(items[0]) && items_wf(items.drop_first()))
}

/// A member of a well-formed object is well-formed.
pub proof fn lemma_member_wf(es: Seq<(String, Json)>, key: Seq<char>)
    requires
        members_wf(es),
    ensures
        member(es, key) matches Some(c) ==> json_wf(c),
    decreases es.len(),
{
    if es.len() > 0 {
        lemma_member_wf(es.drop_first(), key);
    }
}

/// Moves a `serde_json::Value` into the library's `Json`, one variant for one: numbers
/// keep the text `serde_json` writes for them, and object members keep the map's order.
#[verifier::external_body]
fn json_of_value(v: serde_json::Value) -> Json {
    match v {
        serde_json::Value::Null => Json::Null,
        serde_json::Value::Bool(b) => Json::Bool(b),
        serde_json::Value::Number(n) => Json::Number(n.to_string()),
        serde_json::Value::String(s) => Json::Str(s),
        serde_json::Value::Array(a) => Json::Array(a.into_iter().map(json_of_value).collect()),
        serde_json::Value::Object(o) => Json::Object(o.into_iter().map(|(k, x)| (k, json_of_value(x))).collect()),
    }
}

/// What `serde_json::from_str::<Value>` reads from a text, as `Json` (`None` where the
/// text is not one JSON document).
pub uninterp spec fn parsed_json_text(text: Seq<char>) -> Option<Json>;

/// Calls `serde_json::from_str::<serde_json::Value>`. The result is named
/// `parsed_json_text`; the contract also states that a parsed value never repeats a
/// member name within an object, since `serde_json` keeps object members in a map.
#[verifier::external_body]
pub fn parse_json_text(text: &str) -> (r: Option<Json>)
    ensures
        r == parsed_json_text(text@),
        r matches Some(v) ==> json_wf(v),
{
    match serde_json::from_str::<serde_json::Value>(text) {
        Ok(v) => Some(json_of_value(v)),
        Err(_) => None,
    }
}

/// What `serde_json::from_slice::<Value>` reads from bytes, as `Json` (`None` where
/// the bytes are not one JSON document in UTF-8).
pub uninterp spec fn parsed_json_bytes(bytes: Seq<u8>) -> Option<Json>;

/// Calls `serde_json::from_slice::<serde_json::Value>`. The result is named
/// `parsed_json_bytes`; a parsed value never repeats a member name within an object.
#[verifier::external_body]
pub fn parse_json_bytes(bytes: &[u8]) -> (r: Option<Json>)
    ensures
        r == parsed_json_bytes(bytes@),
        r matches Some(v) ==> json_wf(v),
{
    match serde_json::from_slice::<serde_json::Value>(bytes) {
        Ok(v) => Some(json_of_value(v)),
        Err(_) => None,
    }
}

/// Moves the library's `Json` into a `serde_json::Value`, one variant for one; a
/// number text that `serde_json` does not read as a number becomes `null`.
#[verifier::external_body]
fn value_of_json(v: &Json) -> serde_json::Value {
    match v {
        Json::Null => serde_json::Value::Null,
        Json::Bool(b) => serde_json::Value::Bool(*b),
        Json::Number(n) => n.parse::<serde_json::Number>().map(serde_json::Value::Number).unwrap_or(serde_json::Value::Null),
        Json::Str(s) => serde_json::Value::String(s.clone()),
        Json::Array(a) => serde_json::Value::Array(a.iter().map(value_of_json).collect()),
        Json::Object(o) => serde_json::Value::Object(o.iter().map(|(k, x)| (k.clone(), value_of_json(x))).collect()),
    }
}

/// What `serde_json::to_string_pretty` writes for a value.
pub uninterp spec fn pretty_json_text(v: Json) -> Seq<char>;

/// Calls `serde_json::to_string_pretty` on the value (which cannot fail for a
/// `serde_json::Value`; the compact text stands in should it ever fail). The result
/// is named `pretty_json_text`.
#[verifier::external_body]
pub fn pretty_json(v: &Json) -> (s: String)
    ensures
        s@ == pretty_json_text(*v),
{
    let value = value_of_json(v);
    serde_json::to_string_pretty(&value).unwrap_or_else(|_| value.to_string())
}

} // verus!
