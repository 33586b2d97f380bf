//! Project-memory retrieval: query validation, which memories the search projection
//! holds, how projection files are named and tidied, and how the hits of the
//! (rebuildable, shadow) vector index are filtered through the current memories.

use vstd::prelude::*;
use crate::ids::{id_text, parse_uuid, uuid_hyphenated, uuid_parse, Id};
use crate::json::{get, is_text, lemma_member_at, pretty_json, pretty_json_text, Json};
use crate::text::{
    decimal, u64_text, concat2, ends_with, utf8_len_exceeds, has_suffix, is_empty_text, owned, str_eq, trim, trimmed, views,
};
use vstd::utf8::encode_utf8;

verus! {

/// The most hits a search may ask for.
pub const MAX_TOP_K: usize = 20;

/// The hits a default retrieval asks for.
pub const DEFAULT_TOP_K: usize = 8;

/// The longest query, in UTF-8 bytes.
pub const MAX_QUERY_BYTES: usize = 4096;

pub open spec fn empty_query_message() -> Seq<char> {
    "memory search query cannot be empty"@
}

pub open spec fn long_query_message() -> Seq<char> {
    "memory search query exceeds 4096 bytes"@
}

pub open spec fn top_k_range_message() -> Seq<char> {
    "memory search top_k must be 1..=20"@
}

/// Why a search request is refused, checked in this order; `None` where it is
/// accepted.
pub open spec fn search_request_refusal(query: Seq<char>, top_k: nat) -> Option<Seq<char>> {
    let q = trimmed(query);
    if q.len() == 0 {
        Some(empty_query_message())
    } else if encode_utf8(q).len() > 4096 {
        Some(long_query_message())
    } else if !(1 <= top_k <= 20) {
        Some(top_k_range_message())
    } else {
        None
    }
}

/// Validates a search request; on success returns the trimmed query that is searched.
pub fn check_search_request(query: &str, top_k: usize) -> (r: Result<String, String>)
    ensures
        match r {
            Ok(q) => search_request_refusal(query@, top_k as nat) is None && q@ == trimmed(query@),
            Err(e) => search_request_refusal(query@, top_k as nat) == Some(e@),
        },
{
    let q = trim(query);
    if is_empty_text(q.as_str()) {
        return Err(owned("memory search query cannot be empty"));
    }
    if utf8_len_exceeds(q.as_str(), MAX_QUERY_BYTES) {
        return Err(owned("memory search query exceeds 4096 bytes"));
    }
    if !(1 <= top_k && top_k <= MAX_TOP_K) {
        return Err(owned("memory search top_k must be 1..=20"));
    }
    Ok(q)
}

/// How many hits to ask of the index: three times `top_k`, at most 60, so that stale
/// and repeated hits can be dropped and `top_k` still be met.
pub fn fetch_count(top_k: usize) -> (n: usize)
    requires
        top_k <= MAX_TOP_K,
    ensures
        n == (if 3 * top_k < 60 { 3 * top_k } else { 60 }),
{
    let t = top_k * 3;
    if t < 60 {
        t
    } else {
        60
    }
}

/// Whether a memory belongs in a project's search projection: shared, and either
/// organization-wide or scoped to that very project. Private Agent memory and
/// task-scoped memory never enter it.
pub open spec fn in_search_projection(
    visibility: Seq<char>,
    scope_type: Seq<char>,
    entry_project: Option<Id>,
    project_id: Id,
) -> bool {
    visibility == "shared"@ && (scope_type == "organization"@ || (scope_type == "project"@
        && entry_project == Some(project_id)))
}

pub fn is_search_projection_member(
    visibility: &str,
    scope_type: &str,
    entry_project: Option<Id>,
    project_id: Id,
) -> (b: bool)
    ensures
        b == in_search_projection(visibility@, scope_type@, entry_project, project_id),
{
    str_eq(visibility, "shared") && (str_eq(scope_type, "organization") || (str_eq(
        scope_type,
        "project",
    ) && entry_project == Some(project_id)))
}

/// The projection file of a memory: `<id>.md`.
pub fn projection_file_name(id: Id) -> (s: String)
    ensures
        s@ == uuid_hyphenated(id) + ".md"@,
{
    let t = id_text(id);
    concat2(t.as_str(), ".md")
}

/// The file a memory is first written to before it is renamed into place:
/// `.<id>.md.tmp`.
pub fn projection_temp_name(id: Id) -> (s: String)
    ensures
        s@ == "."@ + uuid_hyphenated(id) + ".md.tmp"@,
{
    let t = id_text(id);
    let head = concat2(".", t.as_str());
    concat2(head.as_str(), ".md.tmp")
}

/// What becomes of a file found in a projection directory after it is written.
#[derive(PartialEq, Eq, Structural)]
pub enum ProjectionCleanup {
    /// A memory file that is no longer current: removed, and a failure is an error.
    RemoveStale,
    /// A left-over temporary file: removed, and a failure is ignored.
    RemoveTemporary,
    /// Kept.
    Keep,
}

pub open spec fn cleanup_for(name: Seq<char>, expected: Seq<Seq<char>>) -> ProjectionCleanup {
    if has_suffix(name, ".md"@) && !expected.contains(name) {
        ProjectionCleanup::RemoveStale
    } else if has_suffix(name, ".tmp"@) {
        ProjectionCleanup::RemoveTemporary
    } else {
        ProjectionCleanup::Keep
    }
}

fn contains_name(names: &Vec<String>, name: &str) -> (b: bool)
    ensures
        b == views(names@).contains(name@),
{
    let mut i: usize = 0;
    while i < names.len()
        invariant
            i <= names.len(),
            forall|j: int| 0 <= j < i ==> names@[j]@ != name@,
        decreases names.len() - i,
    {
        if str_eq(names[i].as_str(), name) {
            assert(views(names@)[i as int] == name@);
            return true;
        }
        i = i + 1;
    }
    proof {
        if views(names@).contains(name@) {
            let j = choose|j: int| 0 <= j < views(names@).len() && views(names@)[j] == name@;
            assert(names@[j]@ == name@);
        }
    }
    false
}

/// Decides what to do with the file `name` of a projection directory whose current
/// memory files are `expected`.
pub fn projection_cleanup(name: &str, expected: &Vec<String>) -> (c: ProjectionCleanup)
    ensures
        c == cleanup_for(name@, views(expected@)),
{
    if ends_with(name, ".md") && !contains_name(expected, name) {
        ProjectionCleanup::RemoveStale
    } else if ends_with(name, ".tmp") {
        ProjectionCleanup::RemoveTemporary
    } else {
        ProjectionCleanup::Keep
    }
}

/// The Markdown file a memory is projected to.
pub open spec fn rendered_memory(
    title: Seq<char>,
    scope_type: Seq<char>,
    source_kind: Seq<char>,
    created_at: Seq<char>,
    content: Seq<char>,
) -> Seq<char> {
    "# "@ + title + "\n\nScope: "@ + scope_type + "\nSource kind: "@ + source_kind
        + "\nCreated: "@ + created_at + "\n\n## Content\n\n"@ + content + "\n"@
}

/// Renders a memory for the search projection: its JSON content is pretty-printed,
/// and `created_at` is its creation time as text.
pub fn render_memory(
    title: &str,
    scope_type: &str,
    source_kind: &str,
    created_at: &str,
    content: &Json,
) -> (s: String)
    ensures
        s@ == rendered_memory(
            title@,
            scope_type@,
            source_kind@,
            created_at@,
            pretty_json_text(*content),
        ),
{
    let content = pretty_json(content);
    let mut s = concat2("# ", title);
    s.append("\n\nScope: ");
    s.append(scope_type);
    s.append("\nSource kind: ");
    s.append(source_kind);
    s.append("\nCreated: ");
    s.append(created_at);
    s.append("\n\n## Content\n\n");
    s.append(content.as_str());
    s.append("\n");
    s
}

/// What `Path::file_stem` gives for a path: its last component without the final
/// extension, or `None` where the path has no file name.
pub uninterp spec fn path_file_stem(path: Seq<char>) -> Option<Seq<char>>;

/// Calls `std::path::Path::file_stem` on the path and reads the stem as text; a stem
/// of a `&str` path is always valid UTF-8.
#[verifier::external_body]
fn file_stem(path: &str) -> (r: Option<String>)
    ensures
        match r {
            Some(s) => path_file_stem(path@) == Some(s@),
            None => path_file_stem(path@) is None,
        },
{
    match std::path::Path::new(path).file_stem() {
        Some(stem) => stem.to_str().map(|s| s.to_owned()),
        None => None,
    }
}

/// The memory a projection file stands for, read back from the file's stem.
pub open spec fn source_memory_id(source: Seq<char>) -> Option<Id> {
    match path_file_stem(source) {
        Some(stem) => uuid_parse(stem),
        None => None,
    }
}

/// The memory that an index hit's source file stands for.
pub fn memory_id_from_source(source: &str) -> (r: Option<Id>)
    ensures
        r == source_memory_id(source@),
{
    match file_stem(source) {
        Some(stem) => parse_uuid(stem.as_str()),
        None => None,
    }
}

/// The indices of the hits that are returned, in the index's order: a hit is kept
/// where its memory is current, was not returned already, and fewer than `top_k`
/// hits are kept so far.
pub open spec fn ranked_hits(hits: Seq<Option<Id>>, current: Seq<Id>, top_k: nat) -> Seq<int>
    decreases hits.len(),
{
    if hits.len() == 0 {
        Seq::empty()
    } else {
        let prev = ranked_hits(hits.drop_last(), current, top_k);
        let i = hits.len() - 1;
        match hits[i] {
            Some(id) => if prev.len() < top_k && current.contains(id) && !kept_ids(
                hits,
                prev,
            ).contains(id) {
                prev.push(i)
            } else {
                prev
            },
            None => prev,
        }
    }
}

/// The memories of the kept hits.
pub open spec fn kept_ids(hits: Seq<Option<Id>>, kept: Seq<int>) -> Seq<Id> {
    kept.map_values(|j: int| hits[j]->Some_0)
}

fn contains_id(v: &Vec<Id>, id: Id) -> (b: bool)
    ensures
        b == v@.contains(id),
{
    let mut i: usize = 0;
    while i < v.len()
        invariant
            i <= v.len(),
            forall|j: int| 0 <= j < i ==> v@[j] != id,
        decreases v.len() - i,
    {
        if v[i] == id {
            return true;
        }
        i = i + 1;
    }
    false
}

/// Every kept index points into the hits.
proof fn lemma_ranked_hits_bounded(hits: Seq<Option<Id>>, current: Seq<Id>, top_k: nat)
    ensures
        forall|k: int|
            0 <= k < ranked_hits(hits, current, top_k).len() ==> 0 <= #[trigger] ranked_hits(
                hits,
                current,
                top_k,
            )[k] < hits.len(),
    decreases hits.len(),
{
    if hits.len() > 0 {
        lemma_ranked_hits_bounded(hits.drop_last(), current, top_k);
        let prev = ranked_hits(hits.drop_last(), current, top_k);
        let r = ranked_hits(hits, current, top_k);
        assert forall|k: int| 0 <= k < r.len() implies 0 <= #[trigger] r[k] < hits.len() by {
            if k < prev.len() {
                assert(r[k] == prev[k]);
            }
        }
    }
}

/// Filters the index's hits (each given as the memory its source stands for, where
/// it names one) through the current memories: stale and repeated hits are dropped,
/// and at most `top_k` are kept. Returns the indices of the kept hits.
pub fn rank_memory_hits(hits: &Vec<Option<Id>>, current: &Vec<Id>, top_k: usize) -> (r: Vec<usize>)
    requires
        top_k >= 1,
    ensures
        r@.map_values(|i: usize| i as int) == ranked_hits(hits@, current@, top_k as nat),
{
    let mut kept: Vec<usize> = Vec::new();
    let mut ids: Vec<Id> = Vec::new();
    let mut i: usize = 0;
    while i < hits.len() && kept.len() < top_k
        invariant
            i <= hits.len(),
            kept@.map_values(|k: usize| k as int) == ranked_hits(
                hits@.take(i as int),
                current@,
                top_k as nat,
            ),
            ids@ == kept_ids(hits@, kept@.map_values(|k: usize| k as int)),
            kept.len() <= top_k,
        decreases hits.len() - i,
    {
        let ghost prev = kept@.map_values(|k: usize| k as int);
        proof {
            assert(hits@.take(i + 1).drop_last() =~= hits@.take(i as int));
            lemma_ranked_hits_bounded(hits@.take(i as int), current@, top_k as nat);
            assert(kept_ids(hits@.take(i + 1), prev) =~= kept_ids(hits@, prev));
        }
        if let Some(id) = hits[i] {
            if contains_id(current, id) && !contains_id(&ids, id) {
                kept.push(i);
                ids.push(id);
                proof {
                    assert(kept@.map_values(|k: usize| k as int) =~= prev.push(i as int));
                    assert(kept_ids(hits@, prev.push(i as int)) =~= kept_ids(hits@, prev).push(
                        id,
                    ));
                }
            }
        }
        i = i + 1;
    }
    proof {
        lemma_ranked_full_stays(hits@, current@, top_k as nat, i as int);
    }
    kept
}

/// Once `top_k` hits are kept, later hits change nothing.
proof fn lemma_ranked_full_stays(hits: Seq<Option<Id>>, current: Seq<Id>, top_k: nat, n: int)
    requires
        0 <= n <= hits.len(),
        n < hits.len() ==> ranked_hits(hits.take(n), current, top_k).len() >= top_k,
    ensures
        ranked_hits(hits, current, top_k) == ranked_hits(hits.take(n), current, top_k),
    decreases hits.len() - n,
{
    if n < hits.len() {
        lemma_ranked_len_grows(hits, current, top_k, n, n + 1);
        assert(hits.take(n + 1).drop_last() =~= hits.take(n));
        lemma_ranked_full_stays(hits, current, top_k, n + 1);
    } else {
        assert(hits.take(n) =~= hits);
    }
}

proof fn lemma_ranked_len_grows(hits: Seq<Option<Id>>, current: Seq<Id>, top_k: nat, m: int, n: int)
    requires
        0 <= m <= n <= hits.len(),
    ensures
        ranked_hits(hits.take(m), current, top_k).len() <= ranked_hits(
            hits.take(n),
            current,
            top_k,
        ).len(),
    decreases n - m,
{
    if m < n {
        assert(hits.take(n).drop_last() =~= hits.take(n - 1));
        lemma_ranked_len_grows(hits, current, top_k, m, n - 1);
    }
}

/// What is kept is current, kept once, at most `top_k`, and in the index's order.
pub proof fn law_ranked_hits_are_current_distinct_and_bounded(
    hits: Seq<Option<Id>>,
    current: Seq<Id>,
    top_k: nat,
)
    ensures
        ranked_hits(hits, current, top_k).len() <= top_k || top_k == 0 && ranked_hits(
            hits,
            current,
            top_k,
        ).len() == 0,
        forall|k: int|
            0 <= k < ranked_hits(hits, current, top_k).len() ==> {
                let j = #[trigger] ranked_hits(hits, current, top_k)[k];
                &&& 0 <= j < hits.len()
                &&& hits[j] is Some
                &&& current.contains(hits[j]->Some_0)
            },
        forall|a: int, b: int|
            0 <= a < b < ranked_hits(hits, current, top_k).len() ==> #[trigger] ranked_hits(
                hits,
                current,
                top_k,
            )[a] < #[trigger] ranked_hits(hits, current, top_k)[b] && hits[ranked_hits(
                hits,
                current,
                top_k,
            )[a]] != hits[ranked_hits(hits, current, top_k)[b]],
    decreases hits.len(),
{
    let r = ranked_hits(hits, current, top_k);
    if hits.len() > 0 {
        let h = hits.drop_last();
        law_ranked_hits_are_current_distinct_and_bounded(h, current, top_k);
        let prev = ranked_hits(h, current, top_k);
        assert forall|k: int| 0 <= k < prev.len() implies hits[#[trigger] prev[k]] == h[prev[k]] by {
        }
        if r.len() > prev.len() {
            let i = hits.len() - 1;
            let id = hits[i]->Some_0;
            assert forall|a: int| 0 <= a < prev.len() implies hits[#[trigger] prev[a]] != hits[i] by {
                assert(kept_ids(hits, prev)[a] == hits[prev[a]]->Some_0);
            }
        }
    }
}

/// What the search bridge reports besides its hits.
pub struct BridgeSummary {
    pub engine: String,
    pub version: String,
    pub provider: String,
    pub model: String,
    pub indexed_chunks: u64,
}

/// Whether `v` is the number `n`.
pub open spec fn is_count(v: Option<Json>, n: nat) -> bool {
    match v {
        Some(Json::Number(t)) => t@ == decimal(n),
        _ => false,
    }
}

/// Whether `v` is the array `items`.
pub open spec fn is_items(v: Option<Json>, items: Seq<Json>) -> bool {
    match v {
        Some(Json::Array(a)) => a@ == items,
        _ => false,
    }
}

fn member(key: &str, value: Json) -> (m: (String, Json))
    ensures
        m.0@ == key@,
        m.1 == value,
{
    (owned(key), value)
}

/// The answer to a search of a project with no current shared memory: nothing is
/// indexed and nothing is found.
pub fn empty_search_response(query: String) -> (r: Json)
    ensures
        r matches Json::Object(es) && es@.len() == 5,
        get(r, "available"@) == Some(Json::Bool(true)),
        is_text(get(r, "engine"@), "memsearch"@),
        is_text(get(r, "query"@), query@),
        is_items(get(r, "results"@), Seq::empty()),
        is_count(get(r, "indexed_memory_count"@), 0),
{
    proof {
        reveal_strlit("available");
        reveal_strlit("engine");
        reveal_strlit("query");
        reveal_strlit("results");
        reveal_strlit("indexed_memory_count");
    }
    let zero = u64_text(0);
    let entries = vec![
        member("available", Json::Bool(true)),
        member("engine", Json::Str(owned("memsearch"))),
        member("query", Json::Str(query)),
        member("results", Json::Array(Vec::new())),
        member("indexed_memory_count", Json::Number(zero)),
    ];
    proof {
        assert(entries@[0].0@ == "available"@);
        assert("available"@.len() == 9);
        assert(entries@[1].0@ == "engine"@);
        assert("engine"@.len() == 6);
        assert(entries@[2].0@ == "query"@);
        assert("query"@.len() == 5);
        assert(entries@[3].0@ == "results"@);
        assert("results"@.len() == 7);
        assert(entries@[4].0@ == "indexed_memory_count"@);
        assert("indexed_memory_count"@.len() == 20);
        lemma_member_at(entries@, 0);
        assert(entries@[0].0@ != entries@[1].0@);
        lemma_member_at(entries@, 1);
        assert(entries@[0].0@ != entries@[2].0@);
        assert(entries@[1].0@ != entries@[2].0@);
        lemma_member_at(entries@, 2);
        assert(entries@[0].0@ != entries@[3].0@);
        assert(entries@[1].0@ != entries@[3].0@);
        assert(entries@[2].0@ != entries@[3].0@);
        lemma_member_at(entries@, 3);
        assert(entries@[0].0@ != entries@[4].0@);
        assert(entries@[1].0@ != entries@[4].0@);
        assert(entries@[2].0@ != entries@[4].0@);
        assert(entries@[3].0@ != entries@[4].0@);
        lemma_member_at(entries@, 4);
    }
    Json::Object(entries)
}

/// The answer to a search: the bridge's engine description, the query, the ranked
/// results, and how many current memories the projection holds; the index is
/// declared a rebuildable shadow of the authoritative memory entries.
pub fn search_response(query: String, bridge: BridgeSummary, current_count: u64, results: Vec<Json>) -> (r: Json)
    ensures
        r matches Json::Object(es) && es@.len() == 11,
        get(r, "available"@) == Some(Json::Bool(true)),
        is_text(get(r, "engine"@), bridge.engine@),
        is_text(get(r, "engine_version"@), bridge.version@),
        is_text(get(r, "provider"@), bridge.provider@),
        is_text(get(r, "model"@), bridge.model@),
        is_text(get(r, "query"@), query@),
        is_count(get(r, "indexed_chunks"@), bridge.indexed_chunks as nat),
        is_count(get(r, "indexed_memory_count"@), current_count as nat),
        is_items(get(r, "results"@), results@),
        is_text(get(r, "authoritative_source"@), "morrows_memory_entry"@),
        is_text(get(r, "index_role"@), "rebuildable_shadow"@),
{
    proof {
        reveal_strlit("available");
        reveal_strlit("engine");
        reveal_strlit("engine_version");
        reveal_strlit("provider");
        reveal_strlit("model");
        reveal_strlit("query");
        reveal_strlit("indexed_chunks");
        reveal_strlit("indexed_memory_count");
        reveal_strlit("results");
        reveal_strlit("authoritative_source");
        reveal_strlit("index_role");
    }
    let chunks = u64_text(bridge.indexed_chunks);
    let count = u64_text(current_count);
    let entries = vec![
        member("available", Json::Bool(true)),
        member("engine", Json::Str(bridge.engine)),
        member("engine_version", Json::Str(bridge.version)),
        member("provider", Json::Str(bridge.provider)),
        member("model", Json::Str(bridge.model)),
        member("query", Json::Str(query)),
        member("indexed_chunks", Json::Number(chunks)),
        member("indexed_memory_count", Json::Number(count)),
        member("results", Json::Array(results)),
        member("authoritative_source", Json::Str(owned("morrows_memory_entry"))),
        member("index_role", Json::Str(owned("rebuildable_shadow"))),
    ];
    proof {
        assert(entries@[0].0@ == "available"@);
        assert("available"@.len() == 9);
        assert(entries@[1].0@ == "engine"@);
        assert("engine"@.len() == 6);
        assert(entries@[2].0@ == "engine_version"@);
        assert("engine_version"@.len() == 14);
        assert(entries@[3].0@ == "provider"@);
        assert("provider"@.len() == 8);
        assert(entries@[4].0@ == "model"@);
        assert("model"@.len() == 5);
        assert(entries@[5].0@ == "query"@);
        assert("query"@.len() == 5);
        assert(entries@[6].0@ == "indexed_chunks"@);
        assert("indexed_chunks"@.len() == 14);
        assert(entries@[7].0@ == "indexed_memory_count"@);
        assert("indexed_memory_count"@.len() == 20);
        assert(entries@[8].0@ == "results"@);
        assert("results"@.len() == 7);
        assert(entries@[9].0@ == "authoritative_source"@);
        assert("authoritative_source"@.len() == 20);
        assert(entries@[10].0@ == "index_role"@);
        assert("index_role"@.len() == 10);
        lemma_member_at(entries@, 0);
        assert(entries@[0].0@ != entries@[1].0@);
        lemma_member_at(entries@, 1);
        assert(entries@[0].0@ != entries@[2].0@);
        assert(entries@[1].0@ != entries@[2].0@);
        lemma_member_at(entries@, 2);
        assert(entries@[0].0@ != entries@[3].0@);
        assert(entries@[1].0@ != entries@[3].0@);
        assert(entries@[2].0@ != entries@[3].0@);
        lemma_member_at(entries@, 3);
        assert(entries@[0].0@ != entries@[4].0@);
        assert(entries@[1].0@ != entries@[4].0@);
        assert(entries@[2].0@ != entries@[4].0@);
        assert(entries@[3].0@ != entries@[4].0@);
        lemma_member_at(entries@, 4);
        assert(entries@[0].0@ != entries@[5].0@);
        assert(entries@[1].0@ != entries@[5].0@);
        assert(entries@[2].0@ != entries@[5].0@);
        assert(entries@[3].0@ != entries@[5].0@);
        assert("model"@[0] == 'm' && "query"@[0] == 'q');
        assert(entries@[4].0@ != entries@[5].0@);
        lemma_member_at(entries@, 5);
        assert(entries@[0].0@ != entries@[6].0@);
        assert(entries@[1].0@ != entries@[6].0@);
        assert("engine_version"@[0] == 'e' && "indexed_chunks"@[0] == 'i');
        assert(entries@[2].0@ != entries@[6].0@);
        assert(entries@[3].0@ != entries@[6].0@);
        assert(entries@[4].0@ != entries@[6].0@);
        assert(entries@[5].0@ != entries@[6].0@);
        lemma_member_at(entries@, 6);
        assert(entries@[0].0@ != entries@[7].0@);
        assert(entries@[1].0@ != entries@[7].0@);
        assert(entries@[2].0@ != entries@[7].0@);
        assert(entries@[3].0@ != entries@[7].0@);
        assert(entries@[4].0@ != entries@[7].0@);
        assert(entries@[5].0@ != entries@[7].0@);
        assert(entries@[6].0@ != entries@[7].0@);
        lemma_member_at(entries@, 7);
        assert(entries@[0].0@ != entries@[8].0@);
        assert(entries@[1].0@ != entries@[8].0@);
        assert(entries@[2].0@ != entries@[8].0@);
        assert(entries@[3].0@ != entries@[8].0@);
        assert(entries@[4].0@ != entries@[8].0@);
        assert(entries@[5].0@ != entries@[8].0@);
        assert(entries@[6].0@ != entries@[8].0@);
        assert(entries@[7].0@ != entries@[8].0@);
        lemma_member_at(entries@, 8);
        assert(entries@[0].0@ != entries@[9].0@);
        assert(entries@[1].0@ != entries@[9].0@);
        assert(entries@[2].0@ != entries@[9].0@);
        assert(entries@[3].0@ != entries@[9].0@);
        assert(entries@[4].0@ != entries@[9].0@);
        assert(entries@[5].0@ != entries@[9].0@);
        assert(entries@[6].0@ != entries@[9].0@);
        assert("indexed_memory_count"@[0] == 'i' && "authoritative_source"@[0] == 'a');
        assert(entries@[7].0@ != entries@[9].0@);
        assert(entries@[8].0@ != entries@[9].0@);
        lemma_member_at(entries@, 9);
        assert(entries@[0].0@ != entries@[10].0@);
        assert(entries@[1].0@ != entries@[10].0@);
        assert(entries@[2].0@ != entries@[10].0@);
        assert(entries@[3].0@ != entries@[10].0@);
        assert(entries@[4].0@ != entries@[10].0@);
        assert(entries@[5].0@ != entries@[10].0@);
        assert(entries@[6].0@ != entries@[10].0@);
        assert(entries@[7].0@ != entries@[10].0@);
        assert(entries@[8].0@ != entries@[10].0@);
        assert(entries@[9].0@ != entries@[10].0@);
        lemma_member_at(entries@, 10);
    }
    Json::Object(entries)
}

/// One hit of the search bridge: the projection file it came from, the heading it
/// matched, and its score (a JSON number).
pub struct BridgeHit {
    pub source: String,
    pub heading: String,
    pub score: Json,
}

/// The memory each hit stands for.
pub open spec fn hit_ids(hits: Seq<BridgeHit>) -> Seq<Option<Id>> {
    hits.map_values(|h: BridgeHit| source_memory_id(h.source@))
}

/// Whether `r` is the search result for hit `h` on the current memory `memory`:
/// `{"score": .., "matched_heading": .., "memory": ..}`.
pub open spec fn is_result_item(r: Json, h: BridgeHit, memory: Json) -> bool {
    &&& r matches Json::Object(es)
    &&& es@.len() == 3
    &&& get(r, "score"@) == Some(h.score)
    &&& is_text(get(r, "matched_heading"@), h.heading@)
    &&& get(r, "memory"@) == Some(memory)
}

fn result_item(h: BridgeHit, memory: Json) -> (r: Json)
    ensures
        is_result_item(r, h, memory),
{
    proof {
        reveal_strlit("score");
        reveal_strlit("matched_heading");
        reveal_strlit("memory");
    }
    let ghost hv = h;
    let entries = vec![
        member("score", h.score),
        member("matched_heading", Json::Str(h.heading)),
        member("memory", memory),
    ];
    proof {
        assert(entries@[0].0@ == "score"@);
        assert("score"@.len() == 5);
        assert(entries@[1].0@ == "matched_heading"@);
        assert("matched_heading"@.len() == 15);
        assert(entries@[2].0@ == "memory"@);
        assert("memory"@.len() == 6);
        lemma_member_at(entries@, 0);
        assert(entries@[0].0@ != entries@[1].0@);
        lemma_member_at(entries@, 1);
        assert(entries@[0].0@ != entries@[2].0@);
        assert(entries@[1].0@ != entries@[2].0@);
        lemma_member_at(entries@, 2);
    }
    Json::Object(entries)
}

fn position_of(ids: &Vec<Id>, id: Id) -> (r: Option<usize>)
    ensures
        r matches Some(c) ==> c < ids.len() && ids@[c as int] == id,
        r is None ==> !ids@.contains(id),
{
    let mut i: usize = 0;
    while i < ids.len()
        invariant
            i <= ids.len(),
            forall|j: int| 0 <= j < i ==> ids@[j] != id,
        decreases ids.len() - i,
    {
        if ids[i] == id {
            return Some(i);
        }
        i = i + 1;
    }
    None
}

/// The results of a search, in the index's order: for each kept hit (see
/// `ranked_hits`: current, not yet returned, at most `top_k`), its score and heading
/// with the current memory it stands for. `current_ids[c]` is the memory whose entry
/// is `current[c]`.
pub fn search_results(hits: Vec<BridgeHit>, current_ids: &Vec<Id>, current: Vec<Json>, top_k: usize) -> (r: Vec<Json>)
    requires
        top_k >= 1,
        current_ids.len() == current.len(),
        forall|a: int, b: int| 0 <= a < b < current_ids.len() ==> current_ids@[a] != current_ids@[b],
    ensures
        r@.len() == ranked_hits(hit_ids(hits@), current_ids@, top_k as nat).len(),
        forall|k: int, c: int|
            0 <= k < r@.len() && 0 <= c < current_ids.len() && Some(#[trigger] current_ids@[c]) == hit_ids(
                hits@,
            )[#[trigger] ranked_hits(hit_ids(hits@), current_ids@, top_k as nat)[k]] ==> is_result_item(
                #[trigger] r@[k],
                hits@[ranked_hits(hit_ids(hits@), current_ids@, top_k as nat)[k]],
                current@[c],
            ),
{
    let ghost orig = hits@;
    let ghost cur0 = current@;
    let n = hits.len();
    let mut ids: Vec<Option<Id>> = Vec::new();
    let mut i: usize = 0;
    while i < n
        invariant
            i <= n,
            n == hits.len(),
            hits@ == orig,
            ids@ == hit_ids(orig).take(i as int),
        decreases n - i,
    {
        let id = memory_id_from_source(hits[i].source.as_str());
        ids.push(id);
        assert(hit_ids(orig).take(i + 1) =~= hit_ids(orig).take(i as int).push(id));
        i = i + 1;
    }
    assert(ids@ =~= hit_ids(orig));
    let ranked = rank_memory_hits(&ids, current_ids, top_k);
    let ghost rk = ranked_hits(hit_ids(orig), current_ids@, top_k as nat);
    assert(ranked@.map_values(|x: usize| x as int) == rk);
    assert(ranked@.len() == rk.len());
    assert forall|k: int| 0 <= k < ranked@.len() implies ranked@[k] as int == #[trigger] rk[k] by {
        assert(ranked@.map_values(|x: usize| x as int)[k] == ranked@[k] as int);
    }
    proof {
        law_ranked_hits_are_current_distinct_and_bounded(hit_ids(orig), current_ids@, top_k as nat);
    }
    let mut hit_slots: Vec<Option<BridgeHit>> = Vec::new();
    let mut hits = hits;
    while hits.len() > 0
        invariant
            hit_slots@.len() + hits@.len() == orig.len(),
            hits@ == orig.skip(hit_slots@.len() as int),
            forall|j: int| 0 <= j < hit_slots@.len() ==> hit_slots@[j] == Some(orig[j]),
        decreases hits@.len(),
    {
        let h = hits.remove(0);
        hit_slots.push(Some(h));
        assert(hits@ =~= orig.skip(hit_slots@.len() as int));
    }
    let m = current.len();
    let mut cur_slots: Vec<Option<Json>> = Vec::new();
    let mut current = current;
    while current.len() > 0
        invariant
            cur_slots@.len() + current@.len() == cur0.len(),
            current@ == cur0.skip(cur_slots@.len() as int),
            forall|c: int| 0 <= c < cur_slots@.len() ==> cur_slots@[c] == Some(cur0[c]),
        decreases current@.len(),
    {
        let e = current.remove(0);
        cur_slots.push(Some(e));
        assert(current@ =~= cur0.skip(cur_slots@.len() as int));
    }
    let mut out: Vec<Json> = Vec::new();
    let mut k: usize = 0;
    while k < ranked.len()
        invariant
            k <= ranked.len(),
            ranked@.len() == rk.len(),
            forall|t: int| 0 <= t < ranked@.len() ==> ranked@[t] as int == #[trigger] rk[t],
            hit_slots@.len() == orig.len(),
            cur_slots@.len() == cur0.len(),
            cur0.len() == current_ids.len(),
            ids@ == hit_ids(orig),
            forall|a: int, b: int| 0 <= a < b < current_ids.len() ==> current_ids@[a] != current_ids@[b],
            forall|t: int|
                0 <= t < rk.len() ==> {
                    let j = #[trigger] rk[t];
                    &&& 0 <= j < orig.len()
                    &&& hit_ids(orig)[j] is Some
                    &&& current_ids@.contains(hit_ids(orig)[j]->Some_0)
                },
            forall|a: int, b: int|
                0 <= a < b < rk.len() ==> #[trigger] rk[a] < #[trigger] rk[b] && hit_ids(orig)[rk[a]]
                    != hit_ids(orig)[rk[b]],
            forall|t: int| k <= t < rk.len() ==> hit_slots@[#[trigger] rk[t]] == Some(orig[rk[t]]),
            forall|t: int, c: int|
                k <= t < rk.len() && 0 <= c < cur0.len() && Some(#[trigger] current_ids@[c]) == hit_ids(
                    orig,
                )[#[trigger] rk[t]] ==> cur_slots@[c] == Some(cur0[c]),
            out@.len() == k,
            forall|t: int, c: int|
                0 <= t < k && 0 <= c < current_ids.len() && Some(#[trigger] current_ids@[c]) == hit_ids(
                    orig,
                )[#[trigger] rk[t]] ==> is_result_item(#[trigger] out@[t], orig[rk[t]], cur0[c]),
        decreases ranked.len() - k,
    {
        let j = ranked[k];
        assert(j as int == rk[k as int]);
        let id = ids[j].unwrap();
        let c = position_of(current_ids, id).unwrap();
        let h = hit_slots[j].take().unwrap();
        let entry = cur_slots[c].take().unwrap();
        assert(h == orig[rk[k as int]]);
        assert(entry == cur0[c as int]);
        let item = result_item(h, entry);
        out.push(item);
        assert forall|t: int| k + 1 <= t < rk.len() implies hit_slots@[#[trigger] rk[t]] == Some(
            orig[rk[t]],
        ) by {
            assert(rk[k as int] < rk[t]);
        }
        assert forall|t: int, c2: int|
            k + 1 <= t < rk.len() && 0 <= c2 < cur0.len() && Some(#[trigger] current_ids@[c2]) == hit_ids(
                orig,
            )[#[trigger] rk[t]] implies cur_slots@[c2] == Some(cur0[c2]) by {
            assert(hit_ids(orig)[rk[k as int]] != hit_ids(orig)[rk[t]]);
            if c2 == c {
                assert(Some(#[trigger] current_ids@[c2]) == hit_ids(orig)[rk[k as int]]);
            }
        }
        assert forall|t: int, c2: int|
            0 <= t < k + 1 && 0 <= c2 < current_ids.len() && Some(#[trigger] current_ids@[c2]) == hit_ids(
                orig,
            )[#[trigger] rk[t]] implies is_result_item(#[trigger] out@[t], orig[rk[t]], cur0[c2]) by {
            if t == k {
                if c2 != c {
                    assert(current_ids@[c2] != current_ids@[c as int]);
                }
            }
        }
        k = k + 1;
    }
    out
}

} // verus!
