//! Direct-session runtimes: which launch profile a session runs with, which models
//! the local CLI offers, the prompt a runtime starts from, its environment, and how
//! its end is reported.

use vstd::prelude::*;
use crate::ids::{id_text, uuid_hyphenated, Id};
use crate::json::{as_str_of, as_text, get, get_of, parse_json_bytes, parsed_json_bytes, Json};
use crate::launch::LaunchProfile;
use crate::text::{
    all_ws, chars_of, clip, clipped, concat2, find_from, first_occurrence, is_blank, is_empty_text,
    join, joined, lemma_first_from_shift, owned, slice_text, split_char, split_text, str_eq, trim,
    trimmed, views,
};

verus! {

/// One start of a direct session's runtime.
pub struct SessionRuntimeAttempt {
    pub id: Id,
    pub session_id: Id,
    pub agent_instance_id: Id,
    pub account_id: Option<Id>,
    pub launch_profile_id: Id,
    pub adapter: String,
    pub status: String,
    pub model: Option<String>,
    pub reasoning_effort: Option<String>,
    pub cwd: Option<String>,
    pub provider_session_ref: Option<String>,
    pub pid: Option<i64>,
    pub exit_code: Option<i64>,
    pub stdout_path: Option<String>,
    pub stderr_path: Option<String>,
    pub error: Option<String>,
    pub created_at: i64,
    pub started_at: Option<i64>,
    pub ended_at: Option<i64>,
}

/// The adapters that run a session as a local CLI process.
pub open spec fn is_local_cli_adapter(a: Seq<char>) -> bool {
    a == "codex_cli"@ || a == "codebuddy_cli"@
}

/// A profile a session of `agent` may run with: the agent's own, enabled, local CLI.
pub open spec fn runtime_candidate(p: LaunchProfile, agent: Id) -> bool {
    p.agent_instance_id == agent && p.enabled && is_local_cli_adapter(p.adapter@)
}

/// The indices of the candidate profiles, in order.
pub open spec fn runtime_candidates(ps: Seq<LaunchProfile>, agent: Id) -> Seq<int>
    decreases ps.len(),
{
    if ps.len() == 0 {
        Seq::empty()
    } else {
        let prev = runtime_candidates(ps.drop_last(), agent);
        if runtime_candidate(ps.last(), agent) {
            prev.push(ps.len() - 1)
        } else {
            prev
        }
    }
}

/// The first of the candidates `c` whose profile is `id`.
pub open spec fn first_with_id(ps: Seq<LaunchProfile>, c: Seq<int>, id: Id) -> Option<int>
    decreases c.len(),
{
    if c.len() == 0 {
        None
    } else if ps[c[0]].id == id {
        Some(c[0])
    } else {
        first_with_id(ps, c.drop_first(), id)
    }
}

/// The profile a session runs with: the one its latest runtime used, where it is
/// still a candidate; else the only candidate; else none.
pub open spec fn runtime_profile_index(ps: Seq<LaunchProfile>, agent: Id, latest: Option<Id>) -> Option<
    int,
> {
    let c = runtime_candidates(ps, agent);
    let by_latest = match latest {
        Some(id) => first_with_id(ps, c, id),
        None => None,
    };
    match by_latest {
        Some(i) => Some(i),
        None => if c.len() == 1 {
            Some(c[0])
        } else {
            None
        },
    }
}

/// Which profile a session's runtime uses.
pub enum RuntimeProfileChoice {
    /// The index of the chosen profile.
    Selected(usize),
    /// No enabled local CLI profile of the agent exists.
    NoProfile,
    /// Several exist and none was used last.
    Ambiguous,
}

fn is_local_cli(adapter: &str) -> (b: bool)
    ensures
        b == is_local_cli_adapter(adapter@),
{
    str_eq(adapter, "codex_cli") || str_eq(adapter, "codebuddy_cli")
}

proof fn lemma_candidates_in_range(ps: Seq<LaunchProfile>, agent: Id)
    ensures
        forall|k: int|
            0 <= k < runtime_candidates(ps, agent).len() ==> 0 <= #[trigger] runtime_candidates(
                ps,
                agent,
            )[k] < ps.len(),
    decreases ps.len(),
{
    if ps.len() > 0 {
        lemma_candidates_in_range(ps.drop_last(), agent);
        let prev = runtime_candidates(ps.drop_last(), agent);
        let c = runtime_candidates(ps, agent);
        assert forall|k: int| 0 <= k < c.len() implies 0 <= #[trigger] c[k] < ps.len() by {
            if k < prev.len() {
                assert(c[k] == prev[k]);
            }
        }
    }
}

proof fn lemma_candidates_sound_complete(ps: Seq<LaunchProfile>, agent: Id)
    ensures
        forall|k: int|
            0 <= k < runtime_candidates(ps, agent).len() ==> {
                let i = #[trigger] runtime_candidates(ps, agent)[k];
                0 <= i < ps.len() && runtime_candidate(ps[i], agent)
            },
        forall|j: int|
            0 <= j < ps.len() && runtime_candidate(#[trigger] ps[j], agent) ==> runtime_candidates(
                ps,
                agent,
            ).contains(j),
    decreases ps.len(),
{
    if ps.len() > 0 {
        let init = ps.drop_last();
        lemma_candidates_sound_complete(init, agent);
        let prev = runtime_candidates(init, agent);
        let c = runtime_candidates(ps, agent);
        assert forall|k: int| 0 <= k < c.len() implies {
            let i = #[trigger] c[k];
            0 <= i < ps.len() && runtime_candidate(ps[i], agent)
        } by {
            if k < prev.len() {
                assert(c[k] == prev[k]);
                assert(init[prev[k]] == ps[prev[k]]);
            }
        }
        assert forall|j: int| 0 <= j < ps.len() && runtime_candidate(#[trigger] ps[j], agent) implies c.contains(
            j,
        ) by {
            if j < ps.len() - 1 {
                assert(init[j] == ps[j]);
                assert(prev.contains(j));
                let w = choose|w: int| 0 <= w < prev.len() && prev[w] == j;
                assert(c[w] == prev[w]);
            } else {
                assert(ps.last() == ps[j]);
                assert(c[c.len() - 1] == j);
            }
        }
    }
}

proof fn lemma_first_with_id_found(ps: Seq<LaunchProfile>, c: Seq<int>, id: Id, j: int)
    requires
        c.contains(j),
        0 <= j < ps.len(),
        ps[j].id == id,
    ensures
        first_with_id(ps, c, id) matches Some(k) && ps[k].id == id && c.contains(k),
    decreases c.len(),
{
    if ps[c[0]].id != id {
        let w = choose|w: int| 0 <= w < c.len() && c[w] == j;
        assert(w != 0);
        assert(c.drop_first()[w - 1] == j);
        lemma_first_with_id_found(ps, c.drop_first(), id, j);
        let k = first_with_id(ps, c.drop_first(), id)->Some_0;
        let v = choose|v: int| 0 <= v < c.drop_first().len() && c.drop_first()[v] == k;
        assert(c[v + 1] == k);
    } else {
        assert(c[0] == c[0]);
    }
}

proof fn lemma_first_with_id_in(ps: Seq<LaunchProfile>, c: Seq<int>, id: Id)
    ensures
        first_with_id(ps, c, id) matches Some(k) ==> c.contains(k) && ps[k].id == id,
    decreases c.len(),
{
    if c.len() > 0 && ps[c[0]].id != id {
        lemma_first_with_id_in(ps, c.drop_first(), id);
        if let Some(k) = first_with_id(ps, c.drop_first(), id) {
            let v = choose|v: int| 0 <= v < c.drop_first().len() && c.drop_first()[v] == k;
            assert(c[v + 1] == k);
        }
    } else if c.len() > 0 {
        assert(c[0] == c[0]);
    }
}

/// A session runtime only ever runs with one of its agent's own enabled Codex or
/// CodeBuddy CLI profiles; and where the profile its latest runtime used is still such
/// a profile, that profile is the one chosen.
pub proof fn law_runtime_profile_is_an_own_enabled_local_cli(
    ps: Seq<LaunchProfile>,
    agent: Id,
    latest: Option<Id>,
)
    ensures
        runtime_profile_index(ps, agent, latest) matches Some(i) ==> {
            &&& 0 <= i < ps.len()
            &&& ps[i].agent_instance_id == agent
            &&& ps[i].enabled
            &&& (ps[i].adapter@ == "codex_cli"@ || ps[i].adapter@ == "codebuddy_cli"@)
        },
        forall|j: int|
            0 <= j < ps.len() && latest == Some(#[trigger] ps[j].id) && ps[j].agent_instance_id
                == agent && ps[j].enabled && (ps[j].adapter@ == "codex_cli"@ || ps[j].adapter@
                == "codebuddy_cli"@) ==> (runtime_profile_index(ps, agent, latest) matches Some(i)
                && ps[i].id == ps[j].id),
{
    let c = runtime_candidates(ps, agent);
    lemma_candidates_sound_complete(ps, agent);
    if let Some(id) = latest {
        lemma_first_with_id_in(ps, c, id);
        if let Some(k) = first_with_id(ps, c, id) {
            let w = choose|w: int| 0 <= w < c.len() && c[w] == k;
            assert(c[w] == k);
        }
        assert forall|j: int|
            0 <= j < ps.len() && latest == Some(#[trigger] ps[j].id) && ps[j].agent_instance_id
                == agent && ps[j].enabled && (ps[j].adapter@ == "codex_cli"@ || ps[j].adapter@
                == "codebuddy_cli"@) implies (runtime_profile_index(ps, agent, latest) matches Some(i)
                && ps[i].id == ps[j].id) by {
            assert(runtime_candidate(ps[j], agent));
            lemma_first_with_id_found(ps, c, id, j);
        }
    }
    if c.len() == 1 {
        assert(c[0] == c[0]);
    }
}

pub fn choose_runtime_profile(profiles: &Vec<LaunchProfile>, agent: Id, latest: Option<Id>) -> (r:
    RuntimeProfileChoice)
    ensures
        match r {
            RuntimeProfileChoice::Selected(i) => runtime_profile_index(profiles@, agent, latest)
                == Some(i as int) && i < profiles.len(),
            RuntimeProfileChoice::NoProfile => runtime_profile_index(profiles@, agent, latest) is None
                && runtime_candidates(profiles@, agent).len() == 0,
            RuntimeProfileChoice::Ambiguous => runtime_profile_index(profiles@, agent, latest) is None
                && runtime_candidates(profiles@, agent).len() > 1,
        },
        r matches RuntimeProfileChoice::Selected(i) ==> profiles@[i as int].agent_instance_id == agent
            && profiles@[i as int].enabled && (profiles@[i as int].adapter@ == "codex_cli"@
            || profiles@[i as int].adapter@ == "codebuddy_cli"@),
{
    proof {
        law_runtime_profile_is_an_own_enabled_local_cli(profiles@, agent, latest);
    }
    let mut cands: Vec<usize> = Vec::new();
    let mut i: usize = 0;
    while i < profiles.len()
        invariant
            i <= profiles.len(),
            cands@.map_values(|k: usize| k as int) == runtime_candidates(
                profiles@.take(i as int),
                agent,
            ),
        decreases profiles.len() - i,
    {
        assert(profiles@.take(i + 1).drop_last() =~= profiles@.take(i as int));
        let p = &profiles[i];
        if p.agent_instance_id == agent && p.enabled && is_local_cli(p.adapter.as_str()) {
            let ghost before = cands@;
            cands.push(i);
            assert(cands@.map_values(|k: usize| k as int) =~= before.map_values(|k: usize| k as int).push(
                i as int,
            ));
        }
        i = i + 1;
    }
    assert(profiles@.take(profiles.len() as int) =~= profiles@);
    let ghost c = runtime_candidates(profiles@, agent);
    proof {
        lemma_candidates_in_range(profiles@, agent);
    }
    if let Some(id) = latest {
        let mut k: usize = 0;
        assert(c.skip(0) =~= c);
        while k < cands.len()
            invariant
                k <= cands.len(),
                latest == Some(id),
                c == runtime_candidates(profiles@, agent),
                cands@.map_values(|x: usize| x as int) == c,
                forall|j: int| 0 <= j < c.len() ==> 0 <= #[trigger] c[j] < profiles@.len(),
                first_with_id(profiles@, c, id) == first_with_id(profiles@, c.skip(k as int), id),
            decreases cands.len() - k,
        {
            assert(c.skip(k as int).drop_first() =~= c.skip(k + 1));
            assert(c.skip(k as int)[0] == c[k as int]);
            assert(c[k as int] == cands@[k as int] as int);
            if profiles[cands[k]].id == id {
                assert(c.skip(k as int).len() > 0);
                assert(profiles@[c[k as int]].id == id);
                assert(first_with_id(profiles@, c.skip(k as int), id) == Some(c[k as int]));
                proof {
                    law_runtime_profile_is_an_own_enabled_local_cli(profiles@, agent, latest);
                }
                return RuntimeProfileChoice::Selected(cands[k]);
            }
            k = k + 1;
        }
    }
    if cands.len() == 1 {
        assert(c[0] == cands@[0] as int);
        RuntimeProfileChoice::Selected(cands[0])
    } else if cands.len() == 0 {
        RuntimeProfileChoice::NoProfile
    } else {
        RuntimeProfileChoice::Ambiguous
    }
}

/// Why no runtime options are offered.
pub fn no_profile_reason(choice: &RuntimeProfileChoice) -> (r: Option<String>)
    ensures
        choice is NoProfile ==> (r matches Some(s) && s@ == "no enabled local CLI launch profile"@),
        choice is Ambiguous ==> (r matches Some(s) && s@
            == "multiple local CLI launch profiles; choose a profile first"@),
        choice is Selected ==> r is None,
{
    match choice {
        RuntimeProfileChoice::NoProfile => Some(owned("no enabled local CLI launch profile")),
        RuntimeProfileChoice::Ambiguous => Some(
            owned("multiple local CLI launch profiles; choose a profile first"),
        ),
        RuntimeProfileChoice::Selected(_) => None,
    }
}

pub open spec fn opt_seq(o: Option<String>) -> Option<Seq<char>> {
    match o {
        Some(s) => Some(s@),
        None => None,
    }
}

/// The model shown as selected: the latest runtime's, else the profile's, else none.
pub fn selected_model(latest_model: &Option<String>, profile_model: &Option<String>) -> (s: String)
    ensures
        s@ == match opt_seq(*latest_model) {
            Some(m) => m,
            None => match opt_seq(*profile_model) {
                Some(m) => m,
                None => Seq::empty(),
            },
        },
{
    match latest_model {
        Some(m) => m.clone(),
        None => match profile_model {
            Some(m) => m.clone(),
            None => String::new(),
        },
    }
}

/// The text between `marker` and the next `)` after it.
pub open spec fn parenthesized_after(input: Seq<char>, marker: Seq<char>) -> Option<Seq<char>> {
    match first_occurrence(input, marker) {
        None => None,
        Some(i) => {
            let rest = input.skip(i + marker.len());
            match first_occurrence(rest, seq![')']) {
                Some(j) => Some(rest.take(j)),
                None => None,
            }
        },
    }
}

pub fn extract_parenthesized_after(input: &str, marker: &str) -> (r: Option<String>)
    ensures
        opt_seq(r) == parenthesized_after(input@, marker@),
{
    let iv = chars_of(input);
    let mv = chars_of(marker);
    match find_from(&iv, &mv, 0) {
        None => None,
        Some(i) => {
            assert(i + mv@.len() <= iv@.len());
            assert(i + mv.len() <= iv.len());
            let start = i + mv.len();
            let close = vec![')'];
            assert(close@ =~= seq![')']);
            let ghost rest = iv@.skip(start as int);
            proof {
                lemma_first_from_shift(iv@, seq![')'], start as int);
            }
            match find_from(&iv, &close, start) {
                Some(j) => {
                    let out = slice_text(&iv, start, j);
                    proof {
                        let k = first_occurrence(rest, seq![')']).unwrap();
                        assert(out@ =~= rest.take(k));
                    }
                    Some(out)
                },
                None => None,
            }
        },
    }
}

/// The trimmed parts that are not empty.
pub open spec fn nonempty_trimmed(parts: Seq<Seq<char>>) -> Seq<Seq<char>>
    decreases parts.len(),
{
    if parts.len() == 0 {
        Seq::empty()
    } else {
        let prev = nonempty_trimmed(parts.drop_last());
        if trimmed(parts.last()).len() > 0 {
            prev.push(trimmed(parts.last()))
        } else {
            prev
        }
    }
}

/// A comma-separated list: each item trimmed, empty items dropped.
pub open spec fn listed_values(text: Seq<char>) -> Seq<Seq<char>> {
    nonempty_trimmed(split_char(text, ','))
}

pub fn list_values(text: &str) -> (r: Vec<String>)
    ensures
        views(r@) == listed_values(text@),
{
    let parts = split_text(text, ',');
    let mut out: Vec<String> = Vec::new();
    let mut i: usize = 0;
    while i < parts.len()
        invariant
            i <= parts.len(),
            views(out@) == nonempty_trimmed(views(parts@).take(i as int)),
        decreases parts.len() - i,
    {
        assert(views(parts@).take(i + 1).drop_last() =~= views(parts@).take(i as int));
        assert(views(parts@).take(i + 1).last() == parts@[i as int]@);
        let t = trim(parts[i].as_str());
        if !is_empty_text(t.as_str()) {
            let ghost before = out@;
            out.push(t);
            assert(views(out@) =~= views(before).push(t@));
        }
        i = i + 1;
    }
    assert(views(parts@).take(parts.len() as int) =~= views(parts@));
    out
}

/// A model a runtime may be started with.
pub struct ModelOption {
    pub id: String,
    pub label: String,
    pub reasoning_efforts: Vec<String>,
    pub default_reasoning_effort: String,
}

pub open spec fn model_view(m: ModelOption) -> (Seq<char>, Seq<char>, Seq<Seq<char>>, Seq<char>) {
    (m.id@, m.label@, views(m.reasoning_efforts@), m.default_reasoning_effort@)
}

/// The reasoning efforts that CodeBuddy models accept.
pub open spec fn codebuddy_model_efforts() -> Seq<Seq<char>> {
    seq!["minimal"@, "low"@, "medium"@, "high"@, "xhigh"@, "max"@]
}

fn codebuddy_efforts_vec() -> (v: Vec<String>)
    ensures
        views(v@) == codebuddy_model_efforts(),
{
    let v = vec![
        owned("minimal"),
        owned("low"),
        owned("medium"),
        owned("high"),
        owned("xhigh"),
        owned("max"),
    ];
    assert(views(v@) =~= codebuddy_model_efforts());
    v
}

pub open spec fn default_codebuddy_efforts_text() -> Seq<char> {
    "minimal, low, medium, high, xhigh, max"@
}

/// The models that CodeBuddy's help lists after `Currently supported: (`.
pub open spec fn codebuddy_model_ids(help: Seq<char>) -> Seq<Seq<char>> {
    listed_values(
        match parenthesized_after(help, "Currently supported: ("@) {
            Some(t) => t,
            None => Seq::empty(),
        },
    )
}

/// The reasoning efforts that CodeBuddy's help lists after `Reasoning effort level (`,
/// or the documented six where it lists none.
pub open spec fn codebuddy_efforts(help: Seq<char>) -> Seq<Seq<char>> {
    listed_values(
        match parenthesized_after(help, "Reasoning effort level ("@) {
            Some(t) => t,
            None => default_codebuddy_efforts_text(),
        },
    )
}

/// The runtime options that CodeBuddy's help text offers: each listed model (its id
/// as its label, with every effort), and the listed efforts.
pub fn codebuddy_runtime_options(help: &str) -> (r: (Vec<ModelOption>, Vec<String>))
    ensures
        r.0@.len() == codebuddy_model_ids(help@).len(),
        forall|k: int|
            0 <= k < r.0@.len() ==> #[trigger] model_view(r.0@[k]) == (
                codebuddy_model_ids(help@)[k],
                codebuddy_model_ids(help@)[k],
                codebuddy_model_efforts(),
                Seq::<char>::empty(),
            ),
        views(r.1@) == codebuddy_efforts(help@),
{
    let listed = match extract_parenthesized_after(help, "Currently supported: (") {
        Some(t) => list_values(t.as_str()),
        None => list_values(""),
    };
    proof {
        assert(""@ =~= Seq::<char>::empty()) by {
            reveal_strlit("");
        }
    }
    let mut models: Vec<ModelOption> = Vec::new();
    let mut i: usize = 0;
    while i < listed.len()
        invariant
            i <= listed.len(),
            views(listed@) == codebuddy_model_ids(help@),
            models@.len() == i,
            forall|k: int|
                0 <= k < i ==> #[trigger] model_view(models@[k]) == (
                    listed@[k]@,
                    listed@[k]@,
                    codebuddy_model_efforts(),
                    Seq::<char>::empty(),
                ),
        decreases listed.len() - i,
    {
        let m = ModelOption {
            id: listed[i].clone(),
            label: listed[i].clone(),
            reasoning_efforts: codebuddy_efforts_vec(),
            default_reasoning_effort: String::new(),
        };
        models.push(m);
        i = i + 1;
    }
    let efforts = match extract_parenthesized_after(help, "Reasoning effort level (") {
        Some(t) => list_values(t.as_str()),
        None => list_values("minimal, low, medium, high, xhigh, max"),
    };
    assert forall|k: int| 0 <= k < models@.len() implies #[trigger] model_view(models@[k]) == (
        codebuddy_model_ids(help@)[k],
        codebuddy_model_ids(help@)[k],
        codebuddy_model_efforts(),
        Seq::<char>::empty(),
    ) by {
        assert(views(listed@)[k] == listed@[k]@);
    }
    (models, efforts)
}

/// A text member of a JSON object.
pub open spec fn text_member(v: Json, key: Seq<char>) -> Option<Seq<char>> {
    as_text(get(v, key))
}

/// The `effort` texts of a model's `supported_reasoning_levels`, skipping items that
/// have none.
pub open spec fn level_efforts(levels: Seq<Json>) -> Seq<Seq<char>>
    decreases levels.len(),
{
    if levels.len() == 0 {
        Seq::empty()
    } else {
        let prev = level_efforts(levels.drop_last());
        match text_member(levels.last(), "effort"@) {
            Some(e) => prev.push(e),
            None => prev,
        }
    }
}

pub open spec fn model_efforts(m: Json) -> Seq<Seq<char>> {
    match get(m, "supported_reasoning_levels"@) {
        Some(Json::Array(items)) => level_efforts(items@),
        _ => Seq::empty(),
    }
}

/// A bundled Codex model that is offered: listed (`visibility` is `list`) with a
/// non-empty `slug`. Its label is `display_name`, else the slug.
pub open spec fn offered_model(m: Json) -> Option<(Seq<char>, Seq<char>, Seq<Seq<char>>, Seq<char>)> {
    let id = match text_member(m, "slug"@) {
        Some(s) => s,
        None => Seq::empty(),
    };
    if text_member(m, "visibility"@) == Some("list"@) && id.len() > 0 {
        Some(
            (
                id,
                match text_member(m, "display_name"@) {
                    Some(l) => l,
                    None => id,
                },
                model_efforts(m),
                match text_member(m, "default_reasoning_level"@) {
                    Some(d) => d,
                    None => Seq::empty(),
                },
            ),
        )
    } else {
        None
    }
}

pub open spec fn offered_models(ms: Seq<Json>) -> Seq<(Seq<char>, Seq<char>, Seq<Seq<char>>, Seq<char>)>
    decreases ms.len(),
{
    if ms.len() == 0 {
        Seq::empty()
    } else {
        let prev = offered_models(ms.drop_last());
        match offered_model(ms.last()) {
            Some(v) => prev.push(v),
            None => prev,
        }
    }
}

/// `acc` with each of `es` that it lacks appended, in order.
pub open spec fn with_new(acc: Seq<Seq<char>>, es: Seq<Seq<char>>) -> Seq<Seq<char>>
    decreases es.len(),
{
    if es.len() == 0 {
        acc
    } else {
        let a = with_new(acc, es.drop_last());
        if a.contains(es.last()) {
            a
        } else {
            a.push(es.last())
        }
    }
}

/// Every effort of the offered models, each once, in order of first mention.
pub open spec fn offered_efforts(ms: Seq<Json>) -> Seq<Seq<char>>
    decreases ms.len(),
{
    if ms.len() == 0 {
        Seq::empty()
    } else {
        let prev = offered_efforts(ms.drop_last());
        match offered_model(ms.last()) {
            Some(v) => with_new(prev, v.2),
            None => prev,
        }
    }
}

/// The `models` array of Codex's bundled model list.
pub open spec fn bundled_models(v: Json) -> Seq<Json> {
    match get(v, "models"@) {
        Some(Json::Array(items)) => items@,
        _ => Seq::empty(),
    }
}

fn text_member_of(v: &Json, key: &str) -> (r: Option<String>)
    ensures
        opt_seq(r) == text_member(*v, key@),
{
    match as_str_of(get_of(v, key)) {
        Some(s) => Some(s.clone()),
        None => None,
    }
}

fn efforts_of(m: &Json) -> (r: Vec<String>)
    ensures
        views(r@) == model_efforts(*m),
{
    let mut out: Vec<String> = Vec::new();
    match get_of(m, "supported_reasoning_levels") {
        Some(Json::Array(items)) => {
            let mut i: usize = 0;
            while i < items.len()
                invariant
                    i <= items.len(),
                    views(out@) == level_efforts(items@.take(i as int)),
                decreases items.len() - i,
            {
                assert(items@.take(i + 1).drop_last() =~= items@.take(i as int));
                if let Some(e) = text_member_of(&items[i], "effort") {
                    let ghost before = out@;
                    out.push(e);
                    assert(views(out@) =~= views(before).push(e@));
                }
                i = i + 1;
            }
            assert(items@.take(items.len() as int) =~= items@);
        },
        _ => {
            assert(views(out@) =~= Seq::<Seq<char>>::empty());
        },
    }
    out
}

fn contains_text(v: &Vec<String>, t: &str) -> (b: bool)
    ensures
        b == views(v@).contains(t@),
{
    let mut i: usize = 0;
    while i < v.len()
        invariant
            i <= v.len(),
            forall|j: int| 0 <= j < i ==> v@[j]@ != t@,
        decreases v.len() - i,
    {
        if str_eq(v[i].as_str(), t) {
            assert(views(v@)[i as int] == t@);
            return true;
        }
        i = i + 1;
    }
    proof {
        if views(v@).contains(t@) {
            let j = choose|j: int| 0 <= j < views(v@).len() && views(v@)[j] == t@;
            assert(v@[j]@ == t@);
        }
    }
    false
}

fn add_new(acc: &mut Vec<String>, es: &Vec<String>)
    ensures
        views(final(acc)@) == with_new(views(old(acc)@), views(es@)),
{
    let ghost start = views(acc@);
    let mut i: usize = 0;
    while i < es.len()
        invariant
            i <= es.len(),
            views(acc@) == with_new(start, views(es@).take(i as int)),
        decreases es.len() - i,
    {
        assert(views(es@).take(i + 1).drop_last() =~= views(es@).take(i as int));
        assert(views(es@).take(i + 1).last() == es@[i as int]@);
        if !contains_text(acc, es[i].as_str()) {
            let ghost before = acc@;
            acc.push(es[i].clone());
            assert(views(acc@) =~= views(before).push(es@[i as int]@));
        }
        i = i + 1;
    }
    assert(views(es@).take(es.len() as int) =~= views(es@));
}

/// The runtime options of Codex's bundled model list (`codex debug models
/// --bundled`): the offered models, and every effort they support.
pub fn codex_runtime_options(value: &Json) -> (r: (Vec<ModelOption>, Vec<String>))
    ensures
        r.0@.map_values(|m: ModelOption| model_view(m)) == offered_models(bundled_models(*value)),
        views(r.1@) == offered_efforts(bundled_models(*value)),
{
    let mut models: Vec<ModelOption> = Vec::new();
    let mut efforts: Vec<String> = Vec::new();
    match get_of(value, "models") {
        Some(Json::Array(items)) => {
            let mut i: usize = 0;
            while i < items.len()
                invariant
                    i <= items.len(),
                    bundled_models(*value) == items@,
                    models@.map_values(|m: ModelOption| model_view(m)) == offered_models(
                        items@.take(i as int),
                    ),
                    views(efforts@) == offered_efforts(items@.take(i as int)),
                decreases items.len() - i,
            {
                assert(items@.take(i + 1).drop_last() =~= items@.take(i as int));
                assert(items@.take(i + 1).last() == items@[i as int]);
                let m = &items[i];
                let id = match text_member_of(m, "slug") {
                    Some(s) => s,
                    None => String::new(),
                };
                let visible = match text_member_of(m, "visibility") {
                    Some(v) => str_eq(v.as_str(), "list"),
                    None => false,
                };
                if visible && !is_empty_text(id.as_str()) {
                    let label = match text_member_of(m, "display_name") {
                        Some(l) => l,
                        None => id.clone(),
                    };
                    let default_effort = match text_member_of(m, "default_reasoning_level") {
                        Some(d) => d,
                        None => String::new(),
                    };
                    let es = efforts_of(m);
                    add_new(&mut efforts, &es);
                    let ghost before = models@;
                    models.push(
                        ModelOption {
                            id,
                            label,
                            reasoning_efforts: es,
                            default_reasoning_effort: default_effort,
                        },
                    );
                    proof {
                        assert(models@.map_values(|m: ModelOption| model_view(m)) =~= before.map_values(
                            |m: ModelOption| model_view(m),
                        ).push(offered_model(items@[i as int]).unwrap()));
                    }
                }
                i = i + 1;
            }
            assert(items@.take(items.len() as int) =~= items@);
        },
        _ => {
            assert(models@.map_values(|m: ModelOption| model_view(m)) =~= Seq::<
                (Seq<char>, Seq<char>, Seq<Seq<char>>, Seq<char>),
            >::empty());
        },
    }
    (models, efforts)
}

/// The efforts offered never repeat.
pub proof fn law_offered_efforts_are_distinct(ms: Seq<Json>)
    ensures
        forall|i: int, j: int|
            0 <= i < j < offered_efforts(ms).len() ==> offered_efforts(ms)[i] != offered_efforts(
                ms,
            )[j],
    decreases ms.len(),
{
    if ms.len() > 0 {
        law_offered_efforts_are_distinct(ms.drop_last());
        match offered_model(ms.last()) {
            Some(v) => lemma_with_new_distinct(offered_efforts(ms.drop_last()), v.2),
            None => {},
        }
    }
}

proof fn lemma_with_new_distinct(acc: Seq<Seq<char>>, es: Seq<Seq<char>>)
    requires
        forall|i: int, j: int| 0 <= i < j < acc.len() ==> acc[i] != acc[j],
    ensures
        forall|i: int, j: int|
            0 <= i < j < with_new(acc, es).len() ==> with_new(acc, es)[i] != with_new(acc, es)[j],
    decreases es.len(),
{
    if es.len() > 0 {
        lemma_with_new_distinct(acc, es.drop_last());
        let a = with_new(acc, es.drop_last());
        if !a.contains(es.last()) {
            let b = a.push(es.last());
            assert forall|i: int, j: int| 0 <= i < j < b.len() implies b[i] != b[j] by {
                if j == a.len() {
                    assert(b[i] == a[i]);
                    assert(a.contains(a[i]));
                } else {
                    assert(b[i] == a[i] && b[j] == a[j]);
                }
            }
        }
    }
}


/// A durable delivery to an agent (a session message or a launch instruction).
pub struct AgentDelivery {
    pub id: Id,
    pub agent_instance_id: Id,
    pub task_id: Option<Id>,
    pub kind: String,
    pub source_id: Id,
    pub payload: Json,
    pub status: String,
    pub claimed_by_launch_attempt_id: Option<Id>,
    pub claimed_at: Option<i64>,
    pub delivered_by: Option<String>,
    pub delivered_at: Option<i64>,
    pub created_at: i64,
}

/// The human messages a runtime is handed: the `body` of each session-message
/// delivery that has one, clipped to 4000 characters.
pub open spec fn delivered_messages(ds: Seq<AgentDelivery>) -> Seq<Seq<char>>
    decreases ds.len(),
{
    if ds.len() == 0 {
        Seq::empty()
    } else {
        let prev = delivered_messages(ds.drop_last());
        let d = ds.last();
        if d.kind@ == "session_message"@ {
            match text_member(d.payload, "body"@) {
                Some(b) => prev.push(clipped(b, 4000)),
                None => prev,
            }
        } else {
            prev
        }
    }
}

pub open spec fn message_separator() -> Seq<char> {
    "\n---\n"@
}

fn delivered_message_texts(ds: &Vec<AgentDelivery>) -> (r: Vec<String>)
    ensures
        views(r@) == delivered_messages(ds@),
{
    let mut out: Vec<String> = Vec::new();
    let mut i: usize = 0;
    while i < ds.len()
        invariant
            i <= ds.len(),
            views(out@) == delivered_messages(ds@.take(i as int)),
        decreases ds.len() - i,
    {
        assert(ds@.take(i + 1).drop_last() =~= ds@.take(i as int));
        assert(ds@.take(i + 1).last() == ds@[i as int]);
        let d = &ds[i];
        if str_eq(d.kind.as_str(), "session_message") {
            if let Some(b) = text_member_of(&d.payload, "body") {
                let c = clip(b.as_str(), 4000);
                let ghost before = out@;
                out.push(c);
                assert(views(out@) =~= views(before).push(c@));
            }
        }
        i = i + 1;
    }
    assert(ds@.take(ds.len() as int) =~= ds@);
    out
}

/// What the prompt says of a session's scope.
pub open spec fn session_scope_text(project: Option<Id>, task: Option<Id>) -> Seq<char> {
    match task {
        Some(t) => "This Session is scoped to Task "@ + uuid_hyphenated(t)
            + ". Read task_get and memory_get for that Task before substantive work. This direct Session runtime is not itself a Task Run, so do not create or complete Runs unless a separate assigned Run explicitly exists."@,
        None => match project {
            Some(p) => "This Session is scoped to Project "@ + uuid_hyphenated(p)
                + ". Treat the Project association and Session history as durable context; do not invent a Task unless work is formally submitted."@,
            None => "This is a general Session with no Project or Task scope."@,
        },
    }
}

fn session_scope(project: Option<Id>, task: Option<Id>) -> (s: String)
    ensures
        s@ == session_scope_text(project, task),
{
    match task {
        Some(t) => {
            let head = concat2("This Session is scoped to Task ", id_text(t).as_str());
            concat2(
                head.as_str(),
                ". Read task_get and memory_get for that Task before substantive work. This direct Session runtime is not itself a Task Run, so do not create or complete Runs unless a separate assigned Run explicitly exists.",
            )
        },
        None => match project {
            Some(p) => {
                let head = concat2("This Session is scoped to Project ", id_text(p).as_str());
                concat2(
                    head.as_str(),
                    ". Treat the Project association and Session history as durable context; do not invent a Task unless work is formally submitted.",
                )
            },
            None => owned("This is a general Session with no Project or Task scope."),
        },
    }
}

pub open spec fn session_prompt_guidance() -> Seq<char> {
    "\nUse the configured Morrows MCP server as the durable source of truth. The latest structured Session summary is injected below as bounded recovery context. Treat it as a recovery aid, not as a substitute for canonical records: use session_summary_get if you need the exact latest structured summary, and use session_get for paged raw history or details not covered by the summary. Process the human messages and respond with session_reply. Update session_summary_revise after materially advancing the Session.\n\nLatest structured Session recovery summary:\n"@
}

pub open spec fn no_summary_text() -> Seq<char> {
    "(none; use session_get to reconstruct from durable history)"@
}

pub open spec fn no_messages_text() -> Seq<char> {
    "(none; inspect the Session with session_get)"@
}

/// The prompt a session runtime starts from. `recovery_summary` is the rendered
/// latest summary revision, where there is one.
pub open spec fn session_runtime_prompt(
    agent: Id,
    session: Id,
    project: Option<Id>,
    task: Option<Id>,
    recovery_summary: Option<Seq<char>>,
    deliveries: Seq<AgentDelivery>,
) -> Seq<char> {
    let messages = joined(delivered_messages(deliveries), message_separator());
    "You are AgentInstance "@ + uuid_hyphenated(agent) + " started for Morrows Session "@
        + uuid_hyphenated(session) + ".\n"@ + session_scope_text(project, task)
        + session_prompt_guidance() + match recovery_summary {
        Some(r) => r,
        None => no_summary_text(),
    } + "\n\nPending human messages already delivered to this runtime:\n"@ + (if messages.len() == 0 {
        no_messages_text()
    } else {
        messages
    }) + "\n"@
}

pub fn build_session_runtime_prompt(
    agent: Id,
    session: Id,
    project: Option<Id>,
    task: Option<Id>,
    recovery_summary: Option<&str>,
    deliveries: &Vec<AgentDelivery>,
) -> (p: String)
    ensures
        p@ == session_runtime_prompt(
            agent,
            session,
            project,
            task,
            match recovery_summary {
                Some(r) => Some(r@),
                None => None,
            },
            deliveries@,
        ),
{
    let texts = delivered_message_texts(deliveries);
    let messages = join(&texts, "\n---\n");
    let mut p = concat2("You are AgentInstance ", id_text(agent).as_str());
    p.append(" started for Morrows Session ");
    p.append(id_text(session).as_str());
    p.append(".\n");
    p.append(session_scope(project, task).as_str());
    p.append(
        "\nUse the configured Morrows MCP server as the durable source of truth. The latest structured Session summary is injected below as bounded recovery context. Treat it as a recovery aid, not as a substitute for canonical records: use session_summary_get if you need the exact latest structured summary, and use session_get for paged raw history or details not covered by the summary. Process the human messages and respond with session_reply. Update session_summary_revise after materially advancing the Session.\n\nLatest structured Session recovery summary:\n",
    );
    match recovery_summary {
        Some(r) => p.append(r),
        None => p.append("(none; use session_get to reconstruct from durable history)"),
    }
    p.append("\n\nPending human messages already delivered to this runtime:\n");
    if is_empty_text(messages.as_str()) {
        p.append("(none; inspect the Session with session_get)");
    } else {
        p.append(messages.as_str());
    }
    p.append("\n");
    p
}

pub open spec fn truncation_note() -> Seq<char> {
    "\n[truncated; use session_summary_get for the complete structured summary]"@
}

/// A recovery summary longer than `max_chars` is cut there and says so.
pub open spec fn clipped_session_text(value: Seq<char>, max_chars: nat) -> Seq<char> {
    if value.len() <= max_chars {
        value
    } else {
        value.take(max_chars as int) + truncation_note()
    }
}

pub fn clip_session_prompt(value: &str, max_chars: usize) -> (r: String)
    ensures
        r@ == clipped_session_text(value@, max_chars as nat),
{
    let n = crate::text::char_count(value);
    if n <= max_chars {
        return owned(value);
    }
    let mut c = clip(value, max_chars);
    c.append("\n[truncated; use session_summary_get for the complete structured summary]");
    c
}

/// A summary revision as the recovery prompt shows it; the JSON fields are their
/// compact JSON text.
pub struct RecoverySummary {
    pub revision: Id,
    pub covers_until_message_id: Option<Id>,
    pub goal: String,
    pub current_state: String,
    pub important_findings: String,
    pub decisions: String,
    pub blockers: String,
    pub unresolved_questions: String,
    pub next_steps: String,
    pub deterministic_facts: String,
}

pub open spec fn recovery_text(s: RecoverySummary) -> Seq<char> {
    "Summary revision: "@ + uuid_hyphenated(s.revision) + "\nCovers through message: "@ + match s.covers_until_message_id {
        Some(m) => uuid_hyphenated(m),
        None => "none"@,
    } + "\nGoal:\n"@ + s.goal@ + "\n\nCurrent state:\n"@ + s.current_state@
        + "\n\nImportant findings (JSON):\n"@ + s.important_findings@ + "\n\nDecisions (JSON):\n"@
        + s.decisions@ + "\n\nBlockers (JSON):\n"@ + s.blockers@
        + "\n\nUnresolved questions (JSON):\n"@ + s.unresolved_questions@
        + "\n\nNext steps (JSON):\n"@ + s.next_steps@ + "\n\nDeterministic facts (JSON):\n"@
        + s.deterministic_facts@
}

/// The recovery summary of a runtime prompt, at most 12000 characters before the
/// truncation note.
pub fn render_session_recovery_summary(s: &RecoverySummary) -> (r: String)
    ensures
        r@ == clipped_session_text(recovery_text(*s), 12000),
{
    let mut t = concat2("Summary revision: ", id_text(s.revision).as_str());
    t.append("\nCovers through message: ");
    match s.covers_until_message_id {
        Some(m) => t.append(id_text(m).as_str()),
        None => t.append("none"),
    }
    t.append("\nGoal:\n");
    t.append(s.goal.as_str());
    t.append("\n\nCurrent state:\n");
    t.append(s.current_state.as_str());
    t.append("\n\nImportant findings (JSON):\n");
    t.append(s.important_findings.as_str());
    t.append("\n\nDecisions (JSON):\n");
    t.append(s.decisions.as_str());
    t.append("\n\nBlockers (JSON):\n");
    t.append(s.blockers.as_str());
    t.append("\n\nUnresolved questions (JSON):\n");
    t.append(s.unresolved_questions.as_str());
    t.append("\n\nNext steps (JSON):\n");
    t.append(s.next_steps.as_str());
    t.append("\n\nDeterministic facts (JSON):\n");
    t.append(s.deterministic_facts.as_str());
    clip_session_prompt(t.as_str(), 12000)
}

/// `Option<i64>` as `{:?}` writes it.
pub open spec fn debug_exit_code(c: Option<i64>) -> Seq<char> {
    match c {
        Some(n) => "Some("@ + crate::text::signed_decimal(n as int) + ")"@,
        None => "None"@,
    }
}

/// Why a session runtime failed: nothing on success; else the CLI's own error, else
/// its trimmed standard error (at most 2000 characters), else the exit status.
pub open spec fn session_runtime_error_of(
    success: bool,
    exit_code: Option<i64>,
    codex_error: Option<Seq<char>>,
    stderr: Seq<char>,
) -> Option<Seq<char>> {
    if success {
        None
    } else {
        match codex_error {
            Some(m) => Some(m),
            None => if trimmed(stderr).len() > 0 {
                Some(clipped(trimmed(stderr), 2000))
            } else {
                Some("Agent CLI exited with "@ + debug_exit_code(exit_code))
            },
        }
    }
}

pub fn session_runtime_error(
    success: bool,
    exit_code: Option<i64>,
    codex_error: Option<String>,
    stderr: &str,
) -> (r: Option<String>)
    ensures
        opt_seq(r) == session_runtime_error_of(success, exit_code, opt_seq(codex_error), stderr@),
{
    if success {
        return None;
    }
    match codex_error {
        Some(m) => Some(m),
        None => {
            let t = trim(stderr);
            if !is_empty_text(t.as_str()) {
                Some(clip(t.as_str(), 2000))
            } else {
                let code = match exit_code {
                    Some(n) => {
                        let head = concat2("Some(", crate::text::i64_text(n).as_str());
                        concat2(head.as_str(), ")")
                    },
                    None => owned("None"),
                };
                Some(concat2("Agent CLI exited with ", code.as_str()))
            }
        },
    }
}

/// The variables a session runtime's environment sets: the Bearer credential, the
/// agent instance, the session, and the account where there is one. The same names
/// are cleared from the inherited environment first.
pub open spec fn session_runtime_env_of(agent: Id, session: Id, account: Option<Id>, token: Seq<char>) -> Seq<
    (Seq<char>, Seq<char>),
> {
    seq![
        ("MORROWS_AGENT_AUTHORIZATION"@, "Bearer "@ + token),
        ("MORROWS_AGENT_INSTANCE_ID"@, uuid_hyphenated(agent)),
        ("MORROWS_SESSION_ID"@, uuid_hyphenated(session)),
    ] + match account {
        Some(a) => seq![("MORROWS_ACCOUNT_ID"@, uuid_hyphenated(a))],
        None => Seq::empty(),
    }
}

pub open spec fn env_view(v: Seq<(String, String)>) -> Seq<(Seq<char>, Seq<char>)> {
    v.map_values(|p: (String, String)| (p.0@, p.1@))
}

pub fn session_runtime_env(agent: Id, session: Id, account: Option<Id>, token: &str) -> (r: Vec<
    (String, String),
>)
    ensures
        env_view(r@) == session_runtime_env_of(agent, session, account, token@),
{
    let mut r: Vec<(String, String)> = Vec::new();
    r.push((owned("MORROWS_AGENT_AUTHORIZATION"), concat2("Bearer ", token)));
    r.push((owned("MORROWS_AGENT_INSTANCE_ID"), id_text(agent)));
    r.push((owned("MORROWS_SESSION_ID"), id_text(session)));
    if let Some(a) = account {
        r.push((owned("MORROWS_ACCOUNT_ID"), id_text(a)));
    }
    assert(env_view(r@) =~= session_runtime_env_of(agent, session, account, token@));
    r
}

/// The environment names a session runtime never inherits.
pub fn session_runtime_env_cleared() -> (r: Vec<String>)
    ensures
        views(r@) == seq![
            "MORROWS_AGENT_AUTHORIZATION"@,
            "MORROWS_AGENT_INSTANCE_ID"@,
            "MORROWS_SESSION_ID"@,
            "MORROWS_ACCOUNT_ID"@,
        ],
{
    let r = vec![
        owned("MORROWS_AGENT_AUTHORIZATION"),
        owned("MORROWS_AGENT_INSTANCE_ID"),
        owned("MORROWS_SESSION_ID"),
        owned("MORROWS_ACCOUNT_ID"),
    ];
    assert(views(r@) =~= seq![
        "MORROWS_AGENT_AUTHORIZATION"@,
        "MORROWS_AGENT_INSTANCE_ID"@,
        "MORROWS_SESSION_ID"@,
        "MORROWS_ACCOUNT_ID"@,
    ]);
    r
}

/// The model a runtime runs: the attempt's, else the profile's.
pub fn runtime_model(attempt_model: &Option<String>, profile_model: &Option<String>) -> (r: Option<String>)
    ensures
        opt_seq(r) == match opt_seq(*attempt_model) {
            Some(m) => Some(m),
            None => opt_seq(*profile_model),
        },
{
    match attempt_model {
        Some(m) => Some(m.clone()),
        None => crate::text::clone_opt(profile_model),
    }
}

/// Adds the reasoning effort as a Codex configuration override right after the
/// subcommand: `-c model_reasoning_effort="<effort>"`.
pub fn add_reasoning_effort(args: &mut Vec<String>, effort: &str)
    requires
        old(args)@.len() >= 1,
    ensures
        views(final(args)@) == seq![views(old(args)@)[0]] + seq![
            "-c"@,
            "model_reasoning_effort=\""@ + effort@ + "\""@,
        ] + views(old(args)@).skip(1),
{
    let head = concat2("model_reasoning_effort=\"", effort);
    let value = concat2(head.as_str(), "\"");
    let ghost a0 = views(args@);
    args.insert(1, value);
    args.insert(1, owned("-c"));
    assert(views(args@) =~= seq![a0[0]] + seq![
        "-c"@,
        "model_reasoning_effort=\""@ + effort@ + "\""@,
    ] + a0.skip(1));
}

/// The provider conversation a CodeBuddy runtime continues: the previous one, else a
/// new one named after the attempt.
pub fn codebuddy_provider_ref(previous: &Option<String>, attempt: Id) -> (r: String)
    ensures
        r@ == match opt_seq(*previous) {
            Some(p) => p,
            None => uuid_hyphenated(attempt),
        },
{
    match previous {
        Some(p) => p.clone(),
        None => id_text(attempt),
    }
}

/// The label of the credential issued to a session runtime.
pub fn runtime_credential_label(attempt: Id) -> (r: String)
    ensures
        r@ == "Session runtime "@ + uuid_hyphenated(attempt),
{
    concat2("Session runtime ", id_text(attempt).as_str())
}

/// The message for an adapter that cannot run a session.
pub fn check_session_adapter(adapter: &str) -> (r: Result<(), String>)
    ensures
        is_local_cli_adapter(adapter@) ==> r is Ok,
        !is_local_cli_adapter(adapter@) ==> (r matches Err(e) && e@
            == "Session runtime requires local CLI adapter, got "@ + adapter@),
{
    if is_local_cli(adapter) {
        Ok(())
    } else {
        Err(concat2("Session runtime requires local CLI adapter, got ", adapter))
    }
}


/// A direct session between the company and one agent instance.
pub struct Session {
    pub id: Id,
    pub agent_instance_id: Id,
    pub project_id: Option<Id>,
    pub task_id: Option<Id>,
    pub title: String,
    pub status: String,
    pub created_at: i64,
    pub updated_at: i64,
}

/// A session listing keeps the sessions of the named project and task.
pub open spec fn session_listed(s: Session, project: Option<Id>, task: Option<Id>) -> bool {
    (project is None || s.project_id == project) && (task is None || s.task_id == task)
}

pub open spec fn sessions_listed(ss: Seq<Session>, project: Option<Id>, task: Option<Id>) -> Seq<Session>
    decreases ss.len(),
{
    if ss.len() == 0 {
        Seq::empty()
    } else {
        let prev = sessions_listed(ss.drop_last(), project, task);
        if session_listed(ss.last(), project, task) {
            prev.push(ss.last())
        } else {
            prev
        }
    }
}

/// Filters a session listing by project and task, keeping its order.
pub fn filter_sessions(sessions: Vec<Session>, project: Option<Id>, task: Option<Id>) -> (r: Vec<Session>)
    ensures
        r@ == sessions_listed(sessions@, project, task),
{
    let ghost all = sessions@;
    let total = sessions.len();
    assert(all.len() == total);
    let mut rest = sessions;
    let mut out: Vec<Session> = Vec::new();
    let mut i: usize = 0;
    assert(all.take(0) =~= Seq::<Session>::empty());
    assert(all.skip(0) =~= all);
    while rest.len() > 0
        invariant
            i <= all.len(),
            all.len() <= usize::MAX,
            rest@ == all.skip(i as int),
            out@ == sessions_listed(all.take(i as int), project, task),
        decreases rest.len(),
    {
        let s = rest.remove(0);
        assert(s == all[i as int]);
        assert(rest@ =~= all.skip(i + 1));
        assert(all.take(i + 1).drop_last() =~= all.take(i as int));
        assert(all.take(i + 1).last() == all[i as int]);
        let keep = (project.is_none() || s.project_id == project) && (task.is_none() || s.task_id
            == task);
        if keep {
            out.push(s);
        }
        i = i + 1;
    }
    assert(all.take(i as int) =~= all);
    out
}

/// What model discovery reads for a Codex CLI profile: the bundled model list that
/// `codex debug models --bundled` printed, when it ran, succeeded and printed JSON.
pub open spec fn discovered_codex_list(ran: bool, success: bool, stdout: Seq<u8>) -> Option<Json> {
    if ran && success {
        parsed_json_bytes(stdout)
    } else {
        None
    }
}

/// The model options a launch profile's program offers. A Codex CLI profile reads
/// the JSON that `debug models --bundled` printed (`stdout`); a CodeBuddy CLI profile
/// reads its `--help` text (`help`: the printed output and error text, joined by a
/// line break). Any other adapter, a program that could not run, a failed Codex run,
/// or Codex output that is not JSON offers nothing.
pub fn runtime_model_options(
    adapter: &str,
    ran: bool,
    success: bool,
    stdout: &[u8],
    help: &str,
) -> (r: (Vec<ModelOption>, Vec<String>))
    ensures
        adapter@ == "codex_cli"@ ==> match discovered_codex_list(ran, success, stdout@) {
            Some(v) => r.0@.map_values(|m: ModelOption| model_view(m)) == offered_models(
                bundled_models(v),
            ) && views(r.1@) == offered_efforts(bundled_models(v)),
            None => r.0@.len() == 0 && r.1@.len() == 0,
        },
        adapter@ == "codebuddy_cli"@ && ran ==> {
            &&& r.0@.len() == codebuddy_model_ids(help@).len()
            &&& forall|k: int|
                0 <= k < r.0@.len() ==> #[trigger] model_view(r.0@[k]) == (
                    codebuddy_model_ids(help@)[k],
                    codebuddy_model_ids(help@)[k],
                    codebuddy_model_efforts(),
                    Seq::<char>::empty(),
                )
            &&& views(r.1@) == codebuddy_efforts(help@)
        },
        (adapter@ == "codebuddy_cli"@ && !ran) || (adapter@ != "codex_cli"@ && adapter@
            != "codebuddy_cli"@) ==> r.0@.len() == 0 && r.1@.len() == 0,
{
    proof {
        reveal_strlit("codex_cli");
        reveal_strlit("codebuddy_cli");
        assert("codex_cli"@.len() != "codebuddy_cli"@.len());
    }
    if str_eq(adapter, "codex_cli") {
        if !(ran && success) {
            return (Vec::new(), Vec::new());
        }
        match parse_json_bytes(stdout) {
            Some(v) => codex_runtime_options(&v),
            None => (Vec::new(), Vec::new()),
        }
    } else if str_eq(adapter, "codebuddy_cli") {
        if !ran {
            return (Vec::new(), Vec::new());
        }
        codebuddy_runtime_options(help)
    } else {
        (Vec::new(), Vec::new())
    }
}

} // verus!
