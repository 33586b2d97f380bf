//! Completion criteria: the declared requirements of a task's current context, each
//! addressed by a stable JSON pointer, and the evidence a completion report gives.

use vstd::prelude::*;
use crate::ids::Id;
use crate::json::{get, json_wf, lemma_member_wf, member, member_names_distinct, Json};
use crate::text::{
    all_ws, concat2, decimal, digit, is_blank, owned, push_char, split_char, str_eq, u64_text,
};

verus! {

/// One declared requirement: a JSON pointer into the context's constraints, and the
/// requirement stored there, kept whole.
pub struct CompletionCriterion {
    pub path: String,
    pub requirement: Json,
}

/// The evidence for one criterion. Only `passed` satisfies completion; failed or
/// unknown work is kept in checkpoints.
pub struct CompletionEvidence {
    pub criterion_path: String,
    pub status: String,
    pub rationale: String,
    pub artifact_ids: Vec<String>,
}

/// A completion report: the context revision it answers and one check per criterion.
pub struct CompletionReport {
    pub context_revision_id: String,
    pub checks: Vec<CompletionEvidence>,
}

/// Whether a run may complete, and what stands in the way.
pub struct CompletionReadiness {
    pub run_id: Id,
    pub task_id: Id,
    pub context_revision_id: Option<Id>,
    pub criteria: Vec<CompletionCriterion>,
    pub completion_required: bool,
    pub ready: bool,
    pub blockers: Vec<String>,
    pub completion_template: Json,
    pub verification_limit: String,
}

/// One character of a JSON-pointer reference token: `~` is written `~0` and `/` is
/// written `~1`.
pub open spec fn escaped_char(c: char) -> Seq<char> {
    if c == '~' {
        seq!['~', '0']
    } else if c == '/' {
        seq!['~', '1']
    } else {
        seq![c]
    }
}

/// A member name as a JSON-pointer reference token.
pub open spec fn pointer_token(name: Seq<char>) -> Seq<char>
    decreases name.len(),
{
    if name.len() == 0 {
        Seq::empty()
    } else {
        pointer_token(name.drop_last()) + escaped_char(name.last())
    }
}

/// The criteria declared under `key`: each array item at `/key/<index>`, each object
/// member at `/key/<escaped name>`, nothing for `null` or a blank string, and any
/// other value whole at `/key`.
pub open spec fn key_criteria(key: Seq<char>, value: Json) -> Seq<(Seq<char>, Json)> {
    match value {
        Json::Array(items) => Seq::new(
            items@.len(),
            |i: int| ("/"@ + key + "/"@ + decimal(i as nat), items@[i]),
        ),
        Json::Object(entries) => Seq::new(
            entries@.len(),
            |i: int| ("/"@ + key + "/"@ + pointer_token(entries@[i].0@), entries@[i].1),
        ),
        Json::Null => Seq::empty(),
        Json::Str(t) => if all_ws(t@) {
            Seq::empty()
        } else {
            seq![("/"@ + key, value)]
        },
        _ => seq![("/"@ + key, value)],
    }
}

pub open spec fn declared_criteria(key: Seq<char>, constraints: Json) -> Seq<(Seq<char>, Json)> {
    match get(constraints, key) {
        Some(v) => key_criteria(key, v),
        None => Seq::empty(),
    }
}

/// All criteria of a context's constraints: those of `acceptance_criteria`, then
/// those of `freeze_requires`.
pub open spec fn criteria_of(constraints: Json) -> Seq<(Seq<char>, Json)> {
    declared_criteria("acceptance_criteria"@, constraints) + declared_criteria(
        "freeze_requires"@,
        constraints,
    )
}

pub open spec fn criterion_view(c: CompletionCriterion) -> (Seq<char>, Json) {
    (c.path@, c.requirement)
}

/// A member name as a JSON-pointer reference token.
pub fn escape_pointer_token(name: &str) -> (r: String)
    ensures
        r@ == pointer_token(name@),
{
    let v = crate::text::chars_of(name);
    let mut out = String::new();
    let mut i: usize = 0;
    assert(v@.take(0) =~= Seq::<char>::empty());
    while i < v.len()
        invariant
            i <= v.len(),
            v@ == name@,
            out@ == pointer_token(v@.take(i as int)),
        decreases v.len() - i,
    {
        let c = v[i];
        assert(v@.take(i + 1).drop_last() =~= v@.take(i as int));
        if c == '~' {
            push_char(&mut out, '~');
            push_char(&mut out, '0');
        } else if c == '/' {
            push_char(&mut out, '~');
            push_char(&mut out, '1');
        } else {
            push_char(&mut out, c);
        }
        assert(out@ =~= pointer_token(v@.take(i as int)) + escaped_char(c));
        i = i + 1;
    }
    assert(v@.take(v.len() as int) =~= v@);
    out
}

fn key_path(key: &str) -> (r: String)
    ensures
        r@ == "/"@ + key@,
{
    concat2("/", key)
}

fn key_item_path(key: &str, tail: &str) -> (r: String)
    ensures
        r@ == "/"@ + key@ + "/"@ + tail@,
{
    let head = concat2("/", key);
    let mid = concat2(head.as_str(), "/");
    concat2(mid.as_str(), tail)
}

/// Appends the criteria declared under `key` (given its value, which is moved).
fn push_key_criteria(out: &mut Vec<CompletionCriterion>, key: &str, value: Json)
    ensures
        final(out)@.map_values(|c: CompletionCriterion| criterion_view(c)) == old(
            out,
        )@.map_values(|c: CompletionCriterion| criterion_view(c)) + key_criteria(key@, value),
{
    let ghost start = old(out)@.map_values(|c: CompletionCriterion| criterion_view(c));
    let ghost whole = value;
    match value {
        Json::Array(items) => {
            let ghost elts = items@;
            let total = items.len();
            assert(elts.len() == total);
            let mut rest = items;
            let mut i: usize = 0;
            while rest.len() > 0
                invariant
                    i <= elts.len(),
                    elts.len() <= usize::MAX,
                    whole matches Json::Array(v) && v@ == elts,
                    rest@ == elts.skip(i as int),
                    out@.map_values(|c: CompletionCriterion| criterion_view(c)) == start
                        + key_criteria(key@, whole).take(i as int),
                decreases rest.len(),
            {
                let item = rest.remove(0);
                assert(item == elts[i as int]);
                assert(rest@ =~= elts.skip(i + 1));
                let idx = u64_text(i as u64);
                let path = key_item_path(key, idx.as_str());
                let ghost before = out@;
                out.push(CompletionCriterion { path, requirement: item });
                proof {
                    assert(key_criteria(key@, whole).take(i + 1) =~= key_criteria(
                        key@,
                        whole,
                    ).take(i as int).push(("/"@ + key@ + "/"@ + decimal(i as nat), elts[i as int])));
                    assert(out@.map_values(|c: CompletionCriterion| criterion_view(c)) =~= before.map_values(
                        |c: CompletionCriterion| criterion_view(c),
                    ).push(("/"@ + key@ + "/"@ + decimal(i as nat), elts[i as int])));
                }
                i = i + 1;
            }
            assert(key_criteria(key@, whole).take(elts.len() as int) =~= key_criteria(key@, whole));
        },
        Json::Object(entries) => {
            let ghost elts = entries@;
            let total = entries.len();
            assert(elts.len() == total);
            let total = entries.len();
    assert(elts.len() == total);
    let mut rest = entries;
            let mut i: usize = 0;
            while rest.len() > 0
                invariant
                    i <= elts.len(),
                    elts.len() <= usize::MAX,
                    whole matches Json::Object(v) && v@ == elts,
                    rest@ == elts.skip(i as int),
                    out@.map_values(|c: CompletionCriterion| criterion_view(c)) == start
                        + key_criteria(key@, whole).take(i as int),
                decreases rest.len(),
            {
                let entry = rest.remove(0);
                assert(entry == elts[i as int]);
                assert(rest@ =~= elts.skip(i + 1));
                let (name, requirement) = entry;
                let token = escape_pointer_token(name.as_str());
                let path = key_item_path(key, token.as_str());
                let ghost before = out@;
                out.push(CompletionCriterion { path, requirement });
                proof {
                    assert(key_criteria(key@, whole).take(i + 1) =~= key_criteria(
                        key@,
                        whole,
                    ).take(i as int).push(
                        ("/"@ + key@ + "/"@ + pointer_token(elts[i as int].0@), elts[i as int].1),
                    ));
                    assert(out@.map_values(|c: CompletionCriterion| criterion_view(c)) =~= before.map_values(
                        |c: CompletionCriterion| criterion_view(c),
                    ).push(
                        ("/"@ + key@ + "/"@ + pointer_token(elts[i as int].0@), elts[i as int].1),
                    ));
                }
                i = i + 1;
            }
            assert(key_criteria(key@, whole).take(elts.len() as int) =~= key_criteria(key@, whole));
        },
        Json::Null => {
            assert(start + Seq::<(Seq<char>, Json)>::empty() =~= start);
        },
        Json::Str(t) => {
            if is_blank(t.as_str()) {
                assert(start + Seq::<(Seq<char>, Json)>::empty() =~= start);
            } else {
                let ghost before = out@;
                out.push(CompletionCriterion { path: key_path(key), requirement: Json::Str(t) });
                assert(out@.map_values(|c: CompletionCriterion| criterion_view(c)) =~= before.map_values(
                    |c: CompletionCriterion| criterion_view(c),
                ).push(("/"@ + key@, whole)));
            }
        },
        other => {
            let ghost before = out@;
            out.push(CompletionCriterion { path: key_path(key), requirement: other });
            assert(out@.map_values(|c: CompletionCriterion| criterion_view(c)) =~= before.map_values(
                |c: CompletionCriterion| criterion_view(c),
            ).push(("/"@ + key@, whole)));
        },
    }
}

/// The first member named `a` and the first named `b`, taken out of `entries`.
fn take_two_members(entries: Vec<(String, Json)>, a: &str, b: &str) -> (r: (Option<Json>, Option<Json>))
    requires
        a@ != b@,
    ensures
        r.0 == member(entries@, a@),
        r.1 == member(entries@, b@),
{
    let ghost elts = entries@;
    let mut found_a: Option<Json> = None;
    let mut found_b: Option<Json> = None;
    let mut i: usize = 0;
    assert(entries@.skip(0) =~= entries@);
    proof {
        lemma_member_prefix(elts, a@, 0);
        lemma_member_prefix(elts, b@, 0);
    }
    let total = entries.len();
    assert(elts.len() == total);
    let mut rest = entries;
    while rest.len() > 0
        invariant
            i <= elts.len(),
            elts.len() <= usize::MAX,
            a@ != b@,
            rest@ == elts.skip(i as int),
            found_a == member(elts.take(i as int), a@),
            found_b == member(elts.take(i as int), b@),
        decreases rest.len(),
    {
        let entry = rest.remove(0);
        assert(entry == elts[i as int]);
        assert(rest@ =~= elts.skip(i + 1));
        proof {
            lemma_member_prefix(elts, a@, i as int);
            lemma_member_prefix(elts, b@, i as int);
        }
        let (name, value) = entry;
        let is_a = found_a.is_none() && str_eq(name.as_str(), a);
        let is_b = found_b.is_none() && str_eq(name.as_str(), b);
        if is_a {
            found_a = Some(value);
        } else if is_b {
            found_b = Some(value);
        }
        i = i + 1;
    }
    proof {
        assert(elts.take(elts.len() as int) =~= elts);
    }
    (found_a, found_b)
}

/// `member` over a prefix that grows by one entry.
proof fn lemma_member_prefix(entries: Seq<(String, Json)>, key: Seq<char>, i: int)
    requires
        0 <= i <= entries.len(),
    ensures
        i == 0 ==> member(entries.take(i), key) is None,
        i < entries.len() ==> member(entries.take(i + 1), key) == (match member(
            entries.take(i),
            key,
        ) {
            Some(v) => Some(v),
            None => if entries[i].0@ == key {
                Some(entries[i].1)
            } else {
                None
            },
        }),
    decreases i,
{
    if i > 0 && i < entries.len() {
        let s = entries.take(i + 1);
        assert(s.drop_first() =~= entries.drop_first().take(i));
        assert(entries.take(i).drop_first() =~= entries.drop_first().take(i - 1));
        assert(s[0] == entries[0]);
        assert(entries.take(i)[0] == entries[0]);
        assert(entries.drop_first()[i - 1] == entries[i]);
        lemma_member_prefix(entries.drop_first(), key, i - 1);
    }
    if i == 0 && entries.len() > 0 {
        assert(entries.take(1).drop_first() =~= Seq::<(String, Json)>::empty());
        assert(entries.take(1)[0] == entries[0]);
    }
    if i == 0 {
        assert(entries.take(0) =~= Seq::<(String, Json)>::empty());
    }
}

/// The completion criteria of a context's constraints (taken by value: each
/// requirement is moved, whole, into its criterion).
pub fn completion_criteria(constraints: Json) -> (r: Vec<CompletionCriterion>)
    ensures
        r@.map_values(|c: CompletionCriterion| criterion_view(c)) == criteria_of(constraints),
{
    let ghost whole = constraints;
    let mut out: Vec<CompletionCriterion> = Vec::new();
    match constraints {
        Json::Object(entries) => {
            proof {
                reveal_strlit("acceptance_criteria");
                reveal_strlit("freeze_requires");
                assert("acceptance_criteria"@.len() != "freeze_requires"@.len());
            }
            let (acceptance, freeze) = take_two_members(entries, "acceptance_criteria", "freeze_requires");
            assert(out@.map_values(|c: CompletionCriterion| criterion_view(c)) =~= Seq::<
                (Seq<char>, Json),
            >::empty());
            match acceptance {
                Some(v) => push_key_criteria(&mut out, "acceptance_criteria", v),
                None => {},
            }
            let ghost mid = out@.map_values(|c: CompletionCriterion| criterion_view(c));
            assert(mid =~= declared_criteria("acceptance_criteria"@, whole));
            match freeze {
                Some(v) => push_key_criteria(&mut out, "freeze_requires", v),
                None => {
                    assert(mid + Seq::<(Seq<char>, Json)>::empty() =~= mid);
                },
            }
        },
        _ => {
            assert(out@.map_values(|c: CompletionCriterion| criterion_view(c)) =~= criteria_of(
                whole,
            ));
        },
    }
    out
}

/// A JSON-pointer reference token read back into a member name: `~0` is `~`, `~1`
/// is `/`, and every other character stands for itself.
pub open spec fn unescaped(token: Seq<char>) -> Seq<char>
    decreases token.len(),
{
    if token.len() == 0 {
        Seq::empty()
    } else if token.len() >= 2 && token[0] == '~' && token[1] == '0' {
        seq!['~'] + unescaped(token.skip(2))
    } else if token.len() >= 2 && token[0] == '~' && token[1] == '1' {
        seq!['/'] + unescaped(token.skip(2))
    } else {
        seq![token[0]] + unescaped(token.skip(1))
    }
}

proof fn lemma_pointer_token_concat(a: Seq<char>, b: Seq<char>)
    ensures
        pointer_token(a + b) == pointer_token(a) + pointer_token(b),
    decreases b.len(),
{
    if b.len() == 0 {
        assert(a + b =~= a);
        assert(pointer_token(a) + pointer_token(b) =~= pointer_token(a));
    } else {
        lemma_pointer_token_concat(a, b.drop_last());
        assert((a + b).drop_last() =~= a + b.drop_last());
        assert((a + b).last() == b.last());
        assert(pointer_token(a) + pointer_token(b) =~= pointer_token(a) + pointer_token(
            b.drop_last(),
        ) + escaped_char(b.last()));
    }
}

proof fn lemma_unescaped_front(c: char, rest: Seq<char>)
    ensures
        unescaped(escaped_char(c) + rest) == seq![c] + unescaped(rest),
{
    let t = escaped_char(c) + rest;
    if c == '~' {
        assert(t.skip(2) =~= rest);
    } else if c == '/' {
        assert(t.skip(2) =~= rest);
    } else {
        assert(t[0] == c);
        assert(t.skip(1) =~= rest);
    }
}

/// A criterion's path names its member exactly: reading the reference token back
/// gives the member name, so two different member names never share a path.
pub proof fn law_pointer_token_round_trip(name: Seq<char>, other: Seq<char>)
    ensures
        unescaped(pointer_token(name)) == name,
        pointer_token(name) == pointer_token(other) ==> name == other,
{
    lemma_pointer_token_round_trip(name);
    lemma_pointer_token_round_trip(other);
}

proof fn lemma_pointer_token_round_trip(name: Seq<char>)
    ensures
        unescaped(pointer_token(name)) == name,
    decreases name.len(),
{
    if name.len() > 0 {
        let first = seq![name[0]];
        let rest = name.skip(1);
        assert(name =~= first + rest);
        lemma_pointer_token_concat(first, rest);
        assert(first.drop_last() =~= Seq::<char>::empty());
        assert(pointer_token(first.drop_last()) =~= Seq::<char>::empty());
        assert(first.last() == name[0]);
        assert(pointer_token(first) =~= escaped_char(name[0]));
        lemma_unescaped_front(name[0], pointer_token(rest));
        lemma_pointer_token_round_trip(rest);
    }
}

/// The value of a decimal digit.
pub open spec fn digit_value(c: char) -> Option<nat> {
    if '0' <= c && c <= '9' {
        Some((c as nat - '0' as nat) as nat)
    } else {
        None
    }
}

/// The value of a run of decimal digits (`None` when another character occurs).
pub open spec fn digits_value(t: Seq<char>) -> Option<nat>
    decreases t.len(),
{
    if t.len() == 0 {
        Some(0)
    } else {
        match (digits_value(t.drop_last()), digit_value(t.last())) {
            (Some(a), Some(d)) => Some(a * 10 + d),
            _ => None,
        }
    }
}

/// An array index token: decimal digits without a leading zero (save `0` itself).
pub open spec fn array_index(t: Seq<char>) -> Option<nat> {
    if t.len() == 0 || (t.len() > 1 && t[0] == '0') {
        None
    } else {
        digits_value(t)
    }
}

/// The child of `v` that a decoded reference token names: an object's member of that
/// name, or an array's item at that index.
pub open spec fn pointer_child(v: Json, token: Seq<char>) -> Option<Json> {
    match v {
        Json::Object(es) => member(es@, token),
        Json::Array(items) => match array_index(token) {
            Some(i) => if i < items@.len() {
                Some(items@[i as int])
            } else {
                None
            },
            None => None,
        },
        _ => None,
    }
}

pub open spec fn tokens_target(v: Json, tokens: Seq<Seq<char>>) -> Option<Json>
    decreases tokens.len(),
{
    if tokens.len() == 0 {
        Some(v)
    } else {
        match pointer_child(v, unescaped(tokens[0])) {
            Some(c) => tokens_target(c, tokens.drop_first()),
            None => None,
        }
    }
}

/// The value a JSON pointer (RFC 6901) names in `v`: the empty pointer names `v`,
/// and each `/`-separated reference token, decoded, steps into a member or item.
pub open spec fn pointer_target(v: Json, pointer: Seq<char>) -> Option<Json> {
    if pointer.len() == 0 {
        Some(v)
    } else if pointer[0] != '/' {
        None
    } else {
        tokens_target(v, split_char(pointer.skip(1), '/'))
    }
}

/// The objects declared under `key` have no repeated member names.
pub open spec fn declared_names_distinct(key: Seq<char>, constraints: Json) -> bool {
    match get(constraints, key) {
        Some(Json::Object(es)) => member_names_distinct(es@),
        _ => true,
    }
}

proof fn lemma_decimal_index(n: nat)
    ensures
        decimal(n).len() >= 1,
        digits_value(decimal(n)) == Some(n),
        n >= 1 ==> decimal(n)[0] != '0',
        array_index(decimal(n)) == Some(n),
        !decimal(n).contains('/'),
        !decimal(n).contains('~'),
    decreases n,
{
    if n < 10 {
        let t = decimal(n);
        assert(t.drop_last() =~= Seq::<char>::empty());
        assert(digits_value(t.drop_last()) == Some(0nat));
        assert(digit_value(digit(n)) == Some(n));
        assert(t.last() == digit(n));
        assert(digits_value(t) == Some(0 * 10 + n));
        assert(t[0] == digit(n));
    } else {
        lemma_decimal_index(n / 10);
        let h = decimal(n / 10);
        let d = digit(n % 10);
        let t = h.push(d);
        assert(t.drop_last() =~= h);
        assert(digit_value(d) == Some(n % 10));
        assert((n / 10) * 10 + n % 10 == n) by (nonlinear_arith);
        assert(t.last() == d);
        assert(digits_value(t) == Some((n / 10) * 10 + n % 10));
        assert(t[0] == h[0]);
        assert forall|i: int| 0 <= i < t.len() implies t[i] != '/' && t[i] != '~' by {
            if i < h.len() {
                assert(t[i] == h[i]);
                assert(!h.contains(h[i]) ==> false);
            }
        }
    }
}

proof fn lemma_pointer_token_plain(name: Seq<char>)
    ensures
        !pointer_token(name).contains('/'),
    decreases name.len(),
{
    if name.len() > 0 {
        lemma_pointer_token_plain(name.drop_last());
        let a = pointer_token(name.drop_last());
        let e = escaped_char(name.last());
        assert forall|i: int| 0 <= i < (a + e).len() implies (a + e)[i] != '/' by {
            if i < a.len() {
                assert((a + e)[i] == a[i]);
                assert(!a.contains(a[i]) ==> false);
            }
        }
    }
}

proof fn lemma_unescaped_plain(t: Seq<char>)
    requires
        !t.contains('~'),
    ensures
        unescaped(t) == t,
    decreases t.len(),
{
    if t.len() > 0 {
        assert(t[0] != '~') by {
            assert(!t.contains(t[0]) ==> false);
        }
        let r = t.skip(1);
        assert forall|i: int| 0 <= i < r.len() implies r[i] != '~' by {
            assert(r[i] == t[i + 1]);
            assert(!t.contains(t[i + 1]) ==> false);
        }
        lemma_unescaped_plain(r);
        assert(t =~= seq![t[0]] + r);
    }
}

proof fn lemma_split_single(s: Seq<char>, c: char)
    requires
        !s.contains(c),
    ensures
        split_char(s, c) == seq![s],
    decreases s.len(),
{
    if s.len() == 0 {
        assert(s =~= Seq::<char>::empty());
    } else {
        let i = s.len() - 1;
        assert(!s.drop_last().contains(c)) by {
            if s.drop_last().contains(c) {
                let k = choose|k: int| 0 <= k < s.drop_last().len() && s.drop_last()[k] == c;
                assert(s[k] == c);
            }
        }
        lemma_split_single(s.drop_last(), c);
        assert(s.last() != c) by {
            assert(s[i] == s.last());
        }
        assert(s.drop_last().push(s.last()) =~= s);
        assert(seq![s.drop_last()].update(0, s.drop_last().push(s.last())) =~= seq![s]);
    }
}

proof fn lemma_split_pair(a: Seq<char>, b: Seq<char>, c: char)
    requires
        !a.contains(c),
        !b.contains(c),
    ensures
        split_char(a + seq![c] + b, c) == seq![a, b],
    decreases b.len(),
{
    let s = a + seq![c] + b;
    if b.len() == 0 {
        assert(s =~= a.push(c));
        assert(s.drop_last() =~= a);
        lemma_split_single(a, c);
        assert(b =~= Seq::<char>::empty());
        assert(seq![a].push(Seq::<char>::empty()) =~= seq![a, b]);
    } else {
        let bi = b.drop_last();
        assert(!bi.contains(c)) by {
            if bi.contains(c) {
                let k = choose|k: int| 0 <= k < bi.len() && bi[k] == c;
                assert(b[k] == c);
            }
        }
        lemma_split_pair(a, bi, c);
        assert(s.drop_last() =~= a + seq![c] + bi);
        assert(s.last() == b.last());
        assert(b.last() != c) by {
            assert(b[b.len() - 1] == b.last());
        }
        assert(bi.push(b.last()) =~= b);
        assert(seq![a, bi].update(1, bi.push(b.last())) =~= seq![a, b]);
    }
}

proof fn lemma_member_of_distinct(es: Seq<(String, Json)>, i: int)
    requires
        member_names_distinct(es),
        0 <= i < es.len(),
    ensures
        member(es, es[i].0@) == Some(es[i].1),
    decreases i,
{
    if i > 0 {
        let r = es.drop_first();
        assert(es[0].0@ != es[i].0@);
        assert forall|a: int, b: int| 0 <= a < b < r.len() implies #[trigger] r[a].0@ != #[trigger] r[b].0@ by {
            assert(r[a] == es[a + 1] && r[b] == es[b + 1]);
        }
        lemma_member_of_distinct(r, i - 1);
        assert(r[i - 1] == es[i]);
    }
}

/// The criteria declared under one key resolve, each to its requirement, and no two
/// of them share a path; every path starts with `/` and the key.
proof fn lemma_key_criteria_resolve(constraints: Json, key: Seq<char>)
    requires
        key.len() > 0,
        !key.contains('/'),
        !key.contains('~'),
        declared_names_distinct(key, constraints),
    ensures
        forall|i: int|
            0 <= i < declared_criteria(key, constraints).len() ==> pointer_target(
                constraints,
                (#[trigger] declared_criteria(key, constraints)[i]).0,
            ) == Some(declared_criteria(key, constraints)[i].1),
        forall|i: int|
            0 <= i < declared_criteria(key, constraints).len() ==> (
            #[trigger] declared_criteria(key, constraints)[i]).0.len() > 1
                && declared_criteria(key, constraints)[i].0[0] == '/'
                && declared_criteria(key, constraints)[i].0[1] == key[0],
        forall|i: int, j: int|
            0 <= i < j < declared_criteria(key, constraints).len() ==> (
            #[trigger] declared_criteria(key, constraints)[i]).0 != (
            #[trigger] declared_criteria(key, constraints)[j]).0,
{
    reveal_strlit("/");
    lemma_unescaped_plain(key);
    let cs = declared_criteria(key, constraints);
    match get(constraints, key) {
        None => {},
        Some(v) => {
            let head = "/"@ + key + "/"@;
            assert(constraints is Object);
            assert(pointer_child(constraints, key) == Some(v));
            match v {
                Json::Array(items) => {
                    assert forall|i: int| 0 <= i < cs.len() implies pointer_target(
                        constraints,
                        (#[trigger] cs[i]).0,
                    ) == Some(cs[i].1) && cs[i].0.len() > 1 && cs[i].0[0] == '/' && cs[i].0[1]
                        == key[0] by {
                        let t = decimal(i as nat);
                        lemma_decimal_index(i as nat);
                        lemma_unescaped_plain(t);
                        let path = head + t;
                        assert(cs[i].0 == path);
                        assert(path.skip(1) =~= key + seq!['/'] + t);
                        lemma_split_pair(key, t, '/');
                        let toks = seq![key, t];
                        assert(split_char(path.skip(1), '/') == toks);
                        assert(toks.drop_first() =~= seq![t]);
                        assert(seq![t].drop_first() =~= Seq::<Seq<char>>::empty());
                        assert(cs[i].1 == items@[i]);
                        assert(pointer_child(v, t) == Some(items@[i]));
                        assert(tokens_target(items@[i], seq![t].drop_first()) == Some(items@[i]));
                        assert(tokens_target(v, seq![t]) == Some(items@[i]));
                        assert(toks[0] == key);
                        assert(tokens_target(constraints, toks) == Some(items@[i]));
                        assert(pointer_target(constraints, path) == Some(items@[i]));
                        assert(path[0] == '/' && path[1] == key[0]);
                    }
                    assert forall|i: int, j: int| 0 <= i < j < cs.len() implies (#[trigger] cs[i]).0
                        != (#[trigger] cs[j]).0 by {
                        lemma_decimal_index(i as nat);
                        lemma_decimal_index(j as nat);
                        if cs[i].0 == cs[j].0 {
                            assert(decimal(i as nat) =~= cs[i].0.skip(head.len() as int));
                            assert(decimal(j as nat) =~= cs[j].0.skip(head.len() as int));
                        }
                    }
                },
                Json::Object(es) => {
                    assert forall|i: int| 0 <= i < cs.len() implies pointer_target(
                        constraints,
                        (#[trigger] cs[i]).0,
                    ) == Some(cs[i].1) && cs[i].0.len() > 1 && cs[i].0[0] == '/' && cs[i].0[1]
                        == key[0] by {
                        let name = es@[i].0@;
                        let t = pointer_token(name);
                        lemma_pointer_token_plain(name);
                        lemma_pointer_token_round_trip(name);
                        let path = head + t;
                        assert(cs[i].0 == path);
                        assert(path.skip(1) =~= key + seq!['/'] + t);
                        lemma_split_pair(key, t, '/');
                        let toks = seq![key, t];
                        assert(split_char(path.skip(1), '/') == toks);
                        assert(toks.drop_first() =~= seq![t]);
                        assert(seq![t].drop_first() =~= Seq::<Seq<char>>::empty());
                        lemma_member_of_distinct(es@, i);
                        let e = es@[i].1;
                        assert(cs[i].1 == e);
                        assert(pointer_child(v, name) == Some(e));
                        assert(tokens_target(e, seq![t].drop_first()) == Some(e));
                        assert(tokens_target(v, seq![t]) == Some(e));
                        assert(toks[0] == key);
                        assert(tokens_target(constraints, toks) == Some(e));
                        assert(pointer_target(constraints, path) == Some(e));
                        assert(path[0] == '/' && path[1] == key[0]);
                    }
                    assert forall|i: int, j: int| 0 <= i < j < cs.len() implies (#[trigger] cs[i]).0
                        != (#[trigger] cs[j]).0 by {
                        if cs[i].0 == cs[j].0 {
                            let ti = pointer_token(es@[i].0@);
                            let tj = pointer_token(es@[j].0@);
                            assert(ti =~= cs[i].0.skip(head.len() as int));
                            assert(tj =~= cs[j].0.skip(head.len() as int));
                            law_pointer_token_round_trip(es@[i].0@, es@[j].0@);
                        }
                    }
                },
                Json::Null => {},
                Json::Str(t) => {
                    if !all_ws(t@) {
                        let path = "/"@ + key;
                        assert(path.skip(1) =~= key);
                        lemma_split_single(key, '/');
                        assert(seq![key].drop_first() =~= Seq::<Seq<char>>::empty());
                        assert(tokens_target(v, seq![key].drop_first()) == Some(v));
                        assert(seq![key][0] == key);
                        assert(tokens_target(constraints, seq![key]) == Some(v));
                        assert(pointer_target(constraints, path) == Some(v));
                        assert(cs[0] == (path, v));
                        assert(path[0] == '/' && path[1] == key[0]);
                    }
                },
                _ => {
                    let path = "/"@ + key;
                    assert(path.skip(1) =~= key);
                    lemma_split_single(key, '/');
                    assert(seq![key].drop_first() =~= Seq::<Seq<char>>::empty());
                    assert(tokens_target(v, seq![key].drop_first()) == Some(v));
                    assert(seq![key][0] == key);
                    assert(tokens_target(constraints, seq![key]) == Some(v));
                    assert(pointer_target(constraints, path) == Some(v));
                    assert(cs[0] == (path, v));
                    assert(path[0] == '/' && path[1] == key[0]);
                },
            }
        },
    }
}

proof fn lemma_wf_declared_distinct(constraints: Json, key: Seq<char>)
    requires
        json_wf(constraints),
    ensures
        declared_names_distinct(key, constraints),
{
    if let Json::Object(es) = constraints {
        lemma_member_wf(es@, key);
    }
}

/// The criteria of a context's constraints are stable JSON pointers: each path names,
/// in the constraints, exactly the requirement it was read from, and no two criteria
/// share a path. This holds of every value the JSON parser gives (`parse_json_text`
/// ensures `json_wf`).
pub proof fn law_criteria_resolve_to_their_requirements(constraints: Json)
    requires
        json_wf(constraints),
    ensures
        forall|i: int|
            0 <= i < criteria_of(constraints).len() ==> pointer_target(
                constraints,
                (#[trigger] criteria_of(constraints)[i]).0,
            ) == Some(criteria_of(constraints)[i].1),
        forall|i: int, j: int|
            0 <= i < j < criteria_of(constraints).len() ==> (
            #[trigger] criteria_of(constraints)[i]).0 != (#[trigger] criteria_of(constraints)[j]).0,
{
    let a = "acceptance_criteria"@;
    let f = "freeze_requires"@;
    lemma_wf_declared_distinct(constraints, a);
    lemma_wf_declared_distinct(constraints, f);
    reveal_strlit("acceptance_criteria");
    reveal_strlit("freeze_requires");
    assert(!a.contains('/') && !a.contains('~')) by {
        assert(a[0] == 'a');
        assert(a[1] == 'c');
        assert(a[2] == 'c');
        assert(a[3] == 'e');
        assert(a[4] == 'p');
        assert(a[5] == 't');
        assert(a[6] == 'a');
        assert(a[7] == 'n');
        assert(a[8] == 'c');
        assert(a[9] == 'e');
        assert(a[10] == '_');
        assert(a[11] == 'c');
        assert(a[12] == 'r');
        assert(a[13] == 'i');
        assert(a[14] == 't');
        assert(a[15] == 'e');
        assert(a[16] == 'r');
        assert(a[17] == 'i');
        assert(a[18] == 'a');
    }
    assert(!f.contains('/') && !f.contains('~')) by {
        assert(f[0] == 'f');
        assert(f[1] == 'r');
        assert(f[2] == 'e');
        assert(f[3] == 'e');
        assert(f[4] == 'z');
        assert(f[5] == 'e');
        assert(f[6] == '_');
        assert(f[7] == 'r');
        assert(f[8] == 'e');
        assert(f[9] == 'q');
        assert(f[10] == 'u');
        assert(f[11] == 'i');
        assert(f[12] == 'r');
        assert(f[13] == 'e');
        assert(f[14] == 's');
    }
    lemma_key_criteria_resolve(constraints, a);
    lemma_key_criteria_resolve(constraints, f);
    let ca = declared_criteria(a, constraints);
    let cf = declared_criteria(f, constraints);
    let all = criteria_of(constraints);
    assert(all == ca + cf);
    assert forall|i: int| 0 <= i < all.len() implies pointer_target(constraints, (#[trigger] all[i]).0)
        == Some(all[i].1) by {
        if i < ca.len() {
            assert(all[i] == ca[i]);
        } else {
            assert(all[i] == cf[i - ca.len()]);
        }
    }
    assert forall|i: int, j: int| 0 <= i < j < all.len() implies (#[trigger] all[i]).0 != (
    #[trigger] all[j]).0 by {
        if j < ca.len() {
            assert(all[i] == ca[i] && all[j] == ca[j]);
        } else if i >= ca.len() {
            assert(all[i] == cf[i - ca.len()] && all[j] == cf[j - ca.len()]);
        } else {
            assert(all[i] == ca[i] && all[j] == cf[j - ca.len()]);
            assert(all[i].0[1] == 'a' && all[j].0[1] == 'f');
        }
    }
}

/// What each declared key contributes: nothing when it is absent, `null`, an empty
/// array or object, or a blank string; one criterion at `/key` for any other value
/// that is not an array or object; and the `acceptance_criteria` criteria come before
/// the `freeze_requires` ones.
pub proof fn law_criteria_shape(constraints: Json, key: Seq<char>)
    ensures
        criteria_of(constraints) == declared_criteria("acceptance_criteria"@, constraints)
            + declared_criteria("freeze_requires"@, constraints),
        match get(constraints, key) {
            None => declared_criteria(key, constraints).len() == 0,
            Some(Json::Null) => declared_criteria(key, constraints).len() == 0,
            Some(Json::Array(items)) => declared_criteria(key, constraints).len() == items@.len(),
            Some(Json::Object(es)) => declared_criteria(key, constraints).len() == es@.len(),
            Some(Json::Str(t)) => if all_ws(t@) {
                declared_criteria(key, constraints).len() == 0
            } else {
                declared_criteria(key, constraints) == seq![("/"@ + key, Json::Str(t))]
            },
            Some(v) => declared_criteria(key, constraints) == seq![("/"@ + key, v)],
        },
{
}

} // verus!
