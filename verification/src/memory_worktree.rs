//! The employee CLI's native memory worktree: how shared knowledge is laid out as
//! files (one stable directory per document lineage), when a checkout or refresh is
//! allowed, how paged reads are checked, and the client's credential and result rules.

use vstd::prelude::*;
use vstd::seq_lib::seq_to_set_is_finite;
use crate::ids::{id_text, parse_uuid, uuid_hyphenated, uuid_parse, Id};
use crate::json::{get, get_of, is_text, json_eq, json_equal, parse_json_text, parsed_json_text, Json};
use crate::text::{concat2, has_prefix, is_blank, owned, skip_chars, starts_with, str_eq, trimmed};

verus! {

/// A long-term memory entry (one revision of a document).
pub struct MemoryEntry {
    pub id: Id,
    pub scope_type: String,
    pub project_id: Option<Id>,
    pub agent_instance_id: Option<Id>,
    pub task_id: Option<Id>,
    pub title: String,
    pub content: Json,
    pub source_kind: String,
    pub source_ref: Option<String>,
    pub visibility: String,
    pub supersedes_memory_id: Option<Id>,
    pub created_at: i64,
    pub updated_at: i64,
    pub provenance: Option<Json>,
}

/// Why a document's lineage cannot be followed.
#[derive(PartialEq, Eq, Structural)]
pub enum LineageError {
    Cycle,
    Incomplete,
    CrossScope,
}

pub open spec fn lineage_error_text(e: LineageError) -> Seq<char> {
    match e {
        LineageError::Cycle => "memory lineage cycle"@,
        LineageError::Incomplete => "incomplete memory lineage; retry import rather than rename or lose history"@,
        LineageError::CrossScope => "cross-scope memory lineage"@,
    }
}

impl LineageError {
    pub fn message(&self) -> (s: String)
        ensures
            s@ == lineage_error_text(*self),
    {
        match self {
            LineageError::Cycle => owned("memory lineage cycle"),
            LineageError::Incomplete => owned(
                "incomplete memory lineage; retry import rather than rename or lose history",
            ),
            LineageError::CrossScope => owned("cross-scope memory lineage"),
        }
    }
}

/// The entry a revision id names among `es` (the last one, as a map built from the
/// list keeps it).
pub open spec fn entry_named(es: Seq<MemoryEntry>, id: Id) -> Option<int>
    decreases es.len(),
{
    if es.len() == 0 {
        None
    } else if es.last().id == id {
        Some(es.len() - 1)
    } else {
        entry_named(es.drop_last(), id)
    }
}

/// Follows `supersedes_memory_id` from `cur` back to the first revision of the
/// document. A revision met twice is a cycle; a missing parent leaves the lineage
/// incomplete; a parent of another scope or project is refused. `fuel` bounds the
/// walk; it never runs out before a cycle is found (see `lineage_root`).
pub open spec fn lineage_walk(
    es: Seq<MemoryEntry>,
    entry: MemoryEntry,
    cur: MemoryEntry,
    seen: Seq<Id>,
    fuel: nat,
) -> Result<Id, LineageError>
    decreases fuel,
{
    match cur.supersedes_memory_id {
        None => Ok(cur.id),
        Some(parent) => if seen.contains(cur.id) {
            Err(LineageError::Cycle)
        } else {
            match entry_named(es, parent) {
                None => Err(LineageError::Incomplete),
                Some(k) => if es[k].scope_type@ != entry.scope_type@ || es[k].project_id
                    != entry.project_id {
                    Err(LineageError::CrossScope)
                } else if fuel == 0 {
                    Err(LineageError::Cycle)
                } else {
                    lineage_walk(es, entry, es[k], seen.push(cur.id), (fuel - 1) as nat)
                },
            }
        },
    }
}

/// The stable identity of a document: the first revision of its lineage.
pub open spec fn lineage_root_of(es: Seq<MemoryEntry>, entry: MemoryEntry) -> Result<Id, LineageError> {
    lineage_walk(es, entry, entry, Seq::empty(), (es.len() + 1) as nat)
}

proof fn lemma_entry_named(es: Seq<MemoryEntry>, id: Id)
    ensures
        entry_named(es, id) matches Some(k) ==> 0 <= k < es.len() && es[k].id == id,
        entry_named(es, id) is None ==> forall|k: int| 0 <= k < es.len() ==> es[k].id != id,
    decreases es.len(),
{
    if es.len() > 0 {
        lemma_entry_named(es.drop_last(), id);
        if es.last().id != id {
            assert forall|k: int| 0 <= k < es.len() - 1 implies es[k].id == es.drop_last()[k].id by {
            }
        }
    }
}

fn find_entry(es: &Vec<MemoryEntry>, id: Id) -> (r: Option<usize>)
    ensures
        match r {
            Some(k) => entry_named(es@, id) == Some(k as int),
            None => entry_named(es@, id) is None,
        },
{
    let mut n: usize = es.len();
    assert(es@.take(n as int) =~= es@);
    while n > 0
        invariant
            n <= es.len(),
            entry_named(es@, id) == entry_named(es@.take(n as int), id),
        decreases n,
    {
        assert(es@.take(n as int).last() == es@[n - 1]);
        assert(es@.take(n as int).drop_last() =~= es@.take(n - 1));
        if es[n - 1].id == id {
            return Some(n - 1);
        }
        n = n - 1;
    }
    None
}

fn contains_id(v: &Vec<Id>, id: Id) -> (b: bool)
    ensures
        b == v@.contains(id),
{
    let mut i: usize = 0;
    while i < v.len()
        invariant
            i <= v.len(),
            forall|j: int| 0 <= j < i ==> v@[j] != id,
        decreases v.len() - i,
    {
        if v[i] == id {
            return true;
        }
        i = i + 1;
    }
    false
}

/// A sequence without repeats, drawn from `a`, is no longer than `a`.
proof fn lemma_distinct_within(s: Seq<Id>, a: Seq<Id>)
    requires
        s.no_duplicates(),
        forall|i: int| 0 <= i < s.len() ==> a.contains(s[i]),
    ensures
        s.len() <= a.len(),
{
    broadcast use seq_to_set_is_finite;

    s.unique_seq_to_set();
    a.lemma_cardinality_of_set();
    assert(s.to_set().subset_of(a.to_set())) by {
        assert forall|x: Id| s.to_set().contains(x) implies a.to_set().contains(x) by {
            let i = choose|i: int| 0 <= i < s.len() && s[i] == x;
            assert(a.contains(s[i]));
        }
    }
    vstd::set_lib::lemma_len_subset(s.to_set(), a.to_set());
}

/// The stable identity of the document that `entry` is a revision of, among the
/// revisions `es` that were read.
pub fn lineage_root(entry: &MemoryEntry, es: &Vec<MemoryEntry>) -> (r: Result<Id, LineageError>)
    requires
        es.len() < usize::MAX,
    ensures
        r == lineage_root_of(es@, *entry),
{
    let ghost allowed = es@.map_values(|e: MemoryEntry| e.id).push(entry.id);
    let mut cur: &MemoryEntry = entry;
    let mut seen: Vec<Id> = Vec::new();
    assert(allowed[es@.len() as int] == entry.id);
    loop
        invariant
            es.len() < usize::MAX,
            allowed == es@.map_values(|e: MemoryEntry| e.id).push(entry.id),
            lineage_root_of(es@, *entry) == lineage_walk(
                es@,
                *entry,
                *cur,
                seen@,
                (es.len() + 1 - seen.len()) as nat,
            ),
            seen.len() <= es.len() + 1,
            seen@.no_duplicates(),
            forall|i: int| 0 <= i < seen@.len() ==> allowed.contains(seen@[i]),
            allowed.contains(cur.id),
        decreases es.len() + 1 - seen.len(),
    {
        match cur.supersedes_memory_id {
            None => {
                return Ok(cur.id);
            },
            Some(parent) => {
                if contains_id(&seen, cur.id) {
                    return Err(LineageError::Cycle);
                }
                let ghost s2 = seen@.push(cur.id);
                proof {
                    assert forall|i: int| 0 <= i < s2.len() implies allowed.contains(s2[i]) by {
                        if i < seen@.len() {
                            assert(s2[i] == seen@[i]);
                        }
                    }
                    assert(s2.no_duplicates()) by {
                        assert forall|i: int, j: int| 0 <= i < s2.len() && 0 <= j < s2.len() && i != j implies s2[i] != s2[j] by {
                            if i < seen@.len() && j < seen@.len() {
                            } else if i < seen@.len() {
                                assert(seen@.contains(seen@[i]));
                            } else {
                                assert(seen@.contains(seen@[j]));
                            }
                        }
                    }
                    lemma_distinct_within(s2, allowed);
                }
                seen.push(cur.id);
                match find_entry(es, parent) {
                    None => {
                        return Err(LineageError::Incomplete);
                    },
                    Some(k) => {
                        proof {
                            lemma_entry_named(es@, parent);
                        }
                        let next = &es[k];
                        if !str_eq(next.scope_type.as_str(), entry.scope_type.as_str())
                            || next.project_id != entry.project_id {
                            return Err(LineageError::CrossScope);
                        }
                        proof {
                            assert(allowed[k as int] == es@[k as int].id);
                        }
                        cur = next;
                    },
                }
            },
        }
    }
}

/// A revision that a later revision supersedes.
pub open spec fn superseded(es: Seq<MemoryEntry>, id: Id) -> bool {
    exists|i: int| 0 <= i < es.len() && es[i].supersedes_memory_id == Some(id)
}

/// Where a revision's files go in the worktree.
#[derive(PartialEq, Eq, Structural)]
pub enum CheckoutPlace {
    /// `current/<document>/`: the document's current revision.
    Current,
    /// `history/<revision>/`: a superseded revision, kept where history is asked for.
    History,
}

pub open spec fn competing_message() -> Seq<char> {
    "memory has competing current revisions; reconcile them before checkout"@
}

/// The documents already placed in `current/`.
pub open spec fn current_keys(plan: Seq<(CheckoutPlace, Id, int)>) -> Seq<Id>
    decreases plan.len(),
{
    if plan.len() == 0 {
        Seq::empty()
    } else {
        let prev = current_keys(plan.drop_last());
        if plan.last().0 == CheckoutPlace::Current {
            prev.push(plan.last().1)
        } else {
            prev
        }
    }
}

/// The worktree layout of the first `n` revisions: each current revision under its
/// document's stable identity, each superseded one under its own id where history is
/// kept. Two current revisions of one document are refused.
pub open spec fn checkout_plan_of(es: Seq<MemoryEntry>, history: bool, n: nat) -> Result<
    Seq<(CheckoutPlace, Id, int)>,
    Seq<char>,
>
    decreases n,
{
    if n == 0 {
        Ok(Seq::empty())
    } else {
        match checkout_plan_of(es, history, (n - 1) as nat) {
            Err(e) => Err(e),
            Ok(prev) => {
                let i = n - 1;
                let e = es[i];
                if superseded(es, e.id) {
                    if history {
                        Ok(prev.push((CheckoutPlace::History, e.id, i)))
                    } else {
                        Ok(prev)
                    }
                } else {
                    match lineage_root_of(es, e) {
                        Err(x) => Err(lineage_error_text(x)),
                        Ok(key) => if current_keys(prev).contains(key) {
                            Err(competing_message())
                        } else {
                            Ok(prev.push((CheckoutPlace::Current, key, i)))
                        },
                    }
                }
            },
        }
    }
}

fn is_superseded(es: &Vec<MemoryEntry>, id: Id) -> (b: bool)
    ensures
        b == superseded(es@, id),
{
    let mut i: usize = 0;
    while i < es.len()
        invariant
            i <= es.len(),
            forall|j: int| 0 <= j < i ==> es@[j].supersedes_memory_id != Some(id),
        decreases es.len() - i,
    {
        if es[i].supersedes_memory_id == Some(id) {
            return true;
        }
        i = i + 1;
    }
    false
}

pub open spec fn plan_view(p: Seq<(CheckoutPlace, Id, usize)>) -> Seq<(CheckoutPlace, Id, int)> {
    p.map_values(|x: (CheckoutPlace, Id, usize)| (x.0, x.1, x.2 as int))
}

/// Once the layout is refused, it stays refused with the same reason.
proof fn lemma_plan_err_persists(es: Seq<MemoryEntry>, history: bool, m: nat, n: nat)
    requires
        m <= n,
        checkout_plan_of(es, history, m) is Err,
    ensures
        checkout_plan_of(es, history, n) == checkout_plan_of(es, history, m),
    decreases n - m,
{
    if m < n {
        lemma_plan_err_persists(es, history, m, (n - 1) as nat);
    }
}

/// Lays out the revisions of a project's shared memory as worktree directories:
/// each item is where one revision goes, its directory name, and the revision's
/// index in `entries`.
pub fn plan_checkout(entries: &Vec<MemoryEntry>, history: bool) -> (r: Result<
    Vec<(CheckoutPlace, Id, usize)>,
    String,
>)
    requires
        entries.len() < usize::MAX,
    ensures
        match r {
            Ok(p) => checkout_plan_of(entries@, history, entries.len() as nat) == Ok::<
                Seq<(CheckoutPlace, Id, int)>,
                Seq<char>,
            >(plan_view(p@)),
            Err(e) => checkout_plan_of(entries@, history, entries.len() as nat) == Err::<
                Seq<(CheckoutPlace, Id, int)>,
                Seq<char>,
            >(e@),
        },
{
    let mut plan: Vec<(CheckoutPlace, Id, usize)> = Vec::new();
    let mut keys: Vec<Id> = Vec::new();
    let mut i: usize = 0;
    assert(plan_view(plan@) =~= Seq::<(CheckoutPlace, Id, int)>::empty());
    while i < entries.len()
        invariant
            i <= entries.len() < usize::MAX,
            checkout_plan_of(entries@, history, i as nat) == Ok::<
                Seq<(CheckoutPlace, Id, int)>,
                Seq<char>,
            >(plan_view(plan@)),
            keys@ == current_keys(plan_view(plan@)),
        decreases entries.len() - i,
    {
        let e = &entries[i];
        let ghost prev = plan_view(plan@);
        if is_superseded(entries, e.id) {
            if history {
                plan.push((CheckoutPlace::History, e.id, i));
                assert(plan_view(plan@) =~= prev.push((CheckoutPlace::History, e.id, i as int)));
                assert(plan_view(plan@).drop_last() =~= prev);
            }
        } else {
            match lineage_root(e, entries) {
                Err(x) => {
                    proof {
                        lemma_plan_err_persists(entries@, history, (i + 1) as nat, entries.len() as nat);
                    }
                    return Err(x.message());
                },
                Ok(key) => {
                    if contains_id(&keys, key) {
                        proof {
                            lemma_plan_err_persists(entries@, history, (i + 1) as nat, entries.len() as nat);
                        }
                        return Err(
                            owned(
                                "memory has competing current revisions; reconcile them before checkout",
                            ),
                        );
                    }
                    plan.push((CheckoutPlace::Current, key, i));
                    keys.push(key);
                    assert(plan_view(plan@) =~= prev.push((CheckoutPlace::Current, key, i as int)));
                    assert(plan_view(plan@).drop_last() =~= prev);
                },
            }
        }
        i = i + 1;
    }
    Ok(plan)
}

/// A document's directory name is its first revision, which supersedes nothing: a
/// lineage that can be followed ends at a revision that was read, or at the entry
/// itself.
pub proof fn law_lineage_root_supersedes_nothing(es: Seq<MemoryEntry>, entry: MemoryEntry)
    requires
        lineage_root_of(es, entry) is Ok,
    ensures
        ({
            let r = lineage_root_of(es, entry)->Ok_0;
            (r == entry.id && entry.supersedes_memory_id is None) || exists|k: int|
                0 <= k < es.len() && es[k].id == r && es[k].supersedes_memory_id is None
        }),
{
    lemma_walk_ends_at_root(es, entry, entry, Seq::empty(), (es.len() + 1) as nat);
}

proof fn lemma_walk_ends_at_root(
    es: Seq<MemoryEntry>,
    entry: MemoryEntry,
    cur: MemoryEntry,
    seen: Seq<Id>,
    fuel: nat,
)
    requires
        lineage_walk(es, entry, cur, seen, fuel) is Ok,
        cur == entry || exists|k: int| 0 <= k < es.len() && es[k] == cur,
    ensures
        ({
            let r = lineage_walk(es, entry, cur, seen, fuel)->Ok_0;
            (r == entry.id && entry.supersedes_memory_id is None) || exists|k: int|
                0 <= k < es.len() && es[k].id == r && es[k].supersedes_memory_id is None
        }),
    decreases fuel,
{
    match cur.supersedes_memory_id {
        None => {
            if cur != entry {
                let k = choose|k: int| 0 <= k < es.len() && es[k] == cur;
                assert(es[k].id == cur.id);
            }
        },
        Some(parent) => {
            lemma_entry_named(es, parent);
            let k = entry_named(es, parent)->Some_0;
            lemma_walk_ends_at_root(es, entry, es[k], seen.push(cur.id), (fuel - 1) as nat);
        },
    }
}

/// Whether a checkout may run: a first import must not ask to refresh, and an
/// existing checkout only refreshes.
pub fn check_checkout_mode(exists: bool, refresh: bool) -> (r: Result<(), String>)
    ensures
        exists && !refresh ==> (r matches Err(e) && e@
            == "checkout exists; use --refresh to merge imports with native Git"@),
        !exists && refresh ==> (r matches Err(e) && e@
            == "no checkout exists; omit --refresh for the first import"@),
        exists == refresh ==> r is Ok,
{
    if exists && !refresh {
        return Err(owned("checkout exists; use --refresh to merge imports with native Git"));
    }
    if !exists && refresh {
        return Err(owned("no checkout exists; omit --refresh for the first import"));
    }
    Ok(())
}

/// The import branch of a project in the shared bare repository.
pub fn import_ref(project: Id) -> (s: String)
    ensures
        s@ == "refs/heads/projects/"@ + uuid_hyphenated(project) + "/import"@,
{
    let head = concat2("refs/heads/projects/", id_text(project).as_str());
    concat2(head.as_str(), "/import")
}

/// The working branch of a project's worktree.
pub fn worktree_branch(project: Id) -> (s: String)
    ensures
        s@ == "projects/"@ + uuid_hyphenated(project) + "/main"@,
{
    let head = concat2("projects/", id_text(project).as_str());
    concat2(head.as_str(), "/main")
}

/// A memory of a page read for a checkout must be shared organization knowledge or
/// shared knowledge of the project itself.
pub open spec fn checkout_scope_ok(e: MemoryEntry, project: Id) -> bool {
    e.visibility@ == "shared"@ && (e.scope_type@ == "organization"@ || (e.scope_type@ == "project"@
        && e.project_id == Some(project)))
}

/// Reads a page's revisions into `seen` in order: the first revision out of scope,
/// or read before (the listing changed meanwhile), stops the read with its reason;
/// the revisions before it are recorded.
pub open spec fn page_scan(project: Id, seen: Seq<Id>, page: Seq<MemoryEntry>) -> (Seq<Id>, Option<
    Seq<char>,
>)
    decreases page.len(),
{
    if page.len() == 0 {
        (seen, None)
    } else {
        let (s, err) = page_scan(project, seen, page.drop_last());
        let e = page.last();
        if err is Some {
            (s, err)
        } else if !checkout_scope_ok(e, project) {
            (s, Some("unexpected memory scope"@))
        } else if s.contains(e.id) {
            (s, Some("memory changed during pagination; retry checkout"@))
        } else {
            (s.push(e.id), None)
        }
    }
}

/// Checks one page of a paged project read and records its revisions.
#[verifier::loop_isolation(false)]
pub fn check_memory_page(project: Id, seen: &mut Vec<Id>, page: &Vec<MemoryEntry>) -> (r: Result<
    (),
    String,
>)
    ensures
        final(seen)@ == page_scan(project, old(seen)@, page@).0,
        match r {
            Ok(_) => page_scan(project, old(seen)@, page@).1 is None,
            Err(e) => page_scan(project, old(seen)@, page@).1 == Some(e@),
        },
{
    let ghost start = seen@;
    let mut i: usize = 0;
    assert(page@.take(0) =~= Seq::<MemoryEntry>::empty());
    while i < page.len()
        invariant
            i <= page.len(),
            page_scan(project, start, page@.take(i as int)) == (seen@, None::<Seq<char>>),
        decreases page.len() - i,
    {
        assert(page@.take(i + 1).drop_last() =~= page@.take(i as int));
        assert(page@.take(i + 1).last() == page@[i as int]);
        let e = &page[i];
        let shared = str_eq(e.visibility.as_str(), "shared");
        let scoped = str_eq(e.scope_type.as_str(), "organization") || (str_eq(
            e.scope_type.as_str(),
            "project",
        ) && e.project_id == Some(project));
        if !(shared && scoped) {
            proof {
                assert(!checkout_scope_ok(page@[i as int], project));
                assert(page_scan(project, start, page@.take(i + 1)) == (
                    seen@,
                    Some("unexpected memory scope"@),
                ));
                lemma_page_scan_stops(project, start, page@, i as int + 1);
            }
            return Err(owned("unexpected memory scope"));
        }
        if contains_id(seen, e.id) {
            proof {
                lemma_page_scan_stops(project, start, page@, i as int + 1);
            }
            return Err(owned("memory changed during pagination; retry checkout"));
        }
        seen.push(e.id);
        i = i + 1;
    }
    assert(page@.take(page.len() as int) =~= page@);
    Ok(())
}

/// Once a page read stops, later revisions change nothing.
proof fn lemma_page_scan_stops(project: Id, seen: Seq<Id>, page: Seq<MemoryEntry>, n: int)
    requires
        0 <= n <= page.len(),
        page_scan(project, seen, page.take(n)).1 is Some,
    ensures
        page_scan(project, seen, page) == page_scan(project, seen, page.take(n)),
    decreases page.len() - n,
{
    if n < page.len() {
        assert(page.take(n + 1).drop_last() =~= page.take(n));
        lemma_page_scan_stops(project, seen, page, n + 1);
    } else {
        assert(page.take(n) =~= page);
    }
}

/// A completed read never records a revision twice.
pub proof fn law_page_reads_record_each_revision_once(project: Id, seen: Seq<Id>, page: Seq<MemoryEntry>)
    requires
        seen.no_duplicates(),
    ensures
        page_scan(project, seen, page).0.no_duplicates(),
    decreases page.len(),
{
    if page.len() > 0 {
        law_page_reads_record_each_revision_once(project, seen, page.drop_last());
        let (s, err) = page_scan(project, seen, page.drop_last());
        let e = page.last();
        if err is None && checkout_scope_ok(e, project) && !s.contains(e.id) {
            let t = s.push(e.id);
            assert forall|a: int, b: int| 0 <= a < t.len() && 0 <= b < t.len() && a != b implies t[a] != t[b] by {
                if a < s.len() && b < s.len() {
                } else if a < s.len() {
                    assert(s.contains(s[a]));
                } else {
                    assert(s.contains(s[b]));
                }
            }
        }
    }
}

/// Where a paged read continues: past the last offset, or it is done; a continuation
/// that does not advance is refused.
pub fn next_memory_offset(offset: u64, next_offset: Option<u64>) -> (r: Result<Option<u64>, String>)
    ensures
        match next_offset {
            None => r == Ok::<Option<u64>, String>(None),
            Some(n) => if n > offset {
                r == Ok::<Option<u64>, String>(Some(n))
            } else {
                r matches Err(e) && e@ == "invalid continuation offset"@
            },
        },
{
    match next_offset {
        None => Ok(None),
        Some(n) => {
            if n > offset {
                Ok(Some(n))
            } else {
                Err(owned("invalid continuation offset"))
            }
        },
    }
}

/// The agent credential the CLI connects with: the Bearer token of
/// `MORROWS_AGENT_AUTHORIZATION` where that is set, else `MORROWS_AGENT_TOKEN`; it
/// must be an issued agent credential.
pub open spec fn cli_token_of(authorization: Option<Seq<char>>, token: Option<Seq<char>>) -> Result<
    Seq<char>,
    Seq<char>,
> {
    let t: Result<Seq<char>, Seq<char>> = match authorization {
        Some(a) => if has_prefix(a, "Bearer "@) {
            Ok(a.skip(7))
        } else {
            Err("MORROWS_AGENT_AUTHORIZATION must use Bearer authentication"@)
        },
        None => match token {
            Some(v) => Ok(v),
            None => Err("set MORROWS_AGENT_TOKEN to an issued Agent Bearer credential"@),
        },
    };
    match t {
        Err(e) => Err(e),
        Ok(v) => if has_prefix(v, "mrw_agent_"@) {
            Ok(v)
        } else {
            Err("MORROWS_AGENT_TOKEN must be an issued Agent credential"@)
        },
    }
}

pub fn cli_agent_token(authorization: Option<&str>, token: Option<&str>) -> (r: Result<String, String>)
    ensures
        match r {
            Ok(v) => cli_token_of(
                match authorization {
                    Some(a) => Some(a@),
                    None => None,
                },
                match token {
                    Some(t) => Some(t@),
                    None => None,
                },
            ) == Ok::<Seq<char>, Seq<char>>(v@),
            Err(e) => cli_token_of(
                match authorization {
                    Some(a) => Some(a@),
                    None => None,
                },
                match token {
                    Some(t) => Some(t@),
                    None => None,
                },
            ) == Err::<Seq<char>, Seq<char>>(e@),
        },
{
    proof {
        reveal_strlit("Bearer ");
    }
    let t = match authorization {
        Some(a) => {
            if !starts_with(a, "Bearer ") {
                return Err(owned("MORROWS_AGENT_AUTHORIZATION must use Bearer authentication"));
            }
            skip_chars(a, 7)
        },
        None => match token {
            Some(v) => owned(v),
            None => {
                return Err(owned("set MORROWS_AGENT_TOKEN to an issued Agent Bearer credential"));
            },
        },
    };
    if !starts_with(t.as_str(), "mrw_agent_") {
        return Err(owned("MORROWS_AGENT_TOKEN must be an issued Agent credential"));
    }
    Ok(t)
}

/// How a tool call's result is read.
pub enum ToolOutcome {
    /// The tool failed; the message names the tool and carries its text.
    Failed(String),
    /// The structured result.
    Structured(Json),
    /// The joined text, to be decoded as JSON.
    Text(String),
}

/// A tool result: an error flag fails the call with `<tool>: <text>`; otherwise the
/// structured content wins over the text (the text items joined by new lines).
pub fn tool_outcome(name: &str, texts: &Vec<String>, is_error: Option<bool>, structured: Option<Json>) -> (r:
    ToolOutcome)
    ensures
        is_error == Some(true) ==> (r matches ToolOutcome::Failed(m) && m@ == name@ + ": "@
            + crate::text::joined(crate::text::views(texts@), "\n"@)),
        is_error != Some(true) && structured is Some ==> (r matches ToolOutcome::Structured(v)
            && structured == Some(v)),
        is_error != Some(true) && structured is None ==> (r matches ToolOutcome::Text(t) && t@
            == crate::text::joined(crate::text::views(texts@), "\n"@)),
{
    let text = crate::text::join(texts, "\n");
    if is_error == Some(true) {
        let head = concat2(name, ": ");
        return ToolOutcome::Failed(concat2(head.as_str(), text.as_str()));
    }
    match structured {
        Some(v) => ToolOutcome::Structured(v),
        None => ToolOutcome::Text(text),
    }
}

/// Whether the publication tool's input schema has what native publication needs:
/// properties, among them `expected_project_id`, `new_memory_id` and `base_commit`.
pub open spec fn publication_schema_refusal(schema: Option<Json>) -> Option<Seq<char>> {
    match schema {
        None => Some("server does not support project memory publication"@),
        Some(s) => match get(s, "properties"@) {
            Some(Json::Object(_)) => {
                let p = get(s, "properties"@)->Some_0;
                if get(p, "expected_project_id"@) is Some && get(p, "new_memory_id"@) is Some && get(
                    p,
                    "base_commit"@,
                ) is Some {
                    None
                } else {
                    Some(
                        "server needs the native-memory publication update before this CLI can publish"@,
                    )
                }
            },
            _ => Some("server publication schema has no properties"@),
        },
    }
}

/// Checks the publication tool's input schema (`None` where the server has no such
/// tool).
pub fn check_publication_schema(schema: Option<&Json>) -> (r: Result<(), String>)
    ensures
        match r {
            Ok(_) => publication_schema_refusal(
                match schema {
                    Some(s) => Some(*s),
                    None => None,
                },
            ) is None,
            Err(e) => publication_schema_refusal(
                match schema {
                    Some(s) => Some(*s),
                    None => None,
                },
            ) == Some(e@),
        },
{
    match schema {
        None => Err(owned("server does not support project memory publication")),
        Some(s) => match get_of(s, "properties") {
            Some(p) => match p {
                Json::Object(_) => {
                    if get_of(p, "expected_project_id").is_some() && get_of(p, "new_memory_id").is_some()
                        && get_of(p, "base_commit").is_some() {
                        Ok(())
                    } else {
                        Err(
                            owned(
                                "server needs the native-memory publication update before this CLI can publish",
                            ),
                        )
                    }
                },
                _ => Err(owned("server publication schema has no properties")),
            },
            None => Err(owned("server publication schema has no properties")),
        },
    }
}

/// The content file of a document: `content.md` for text, `content.json` for any
/// other JSON value.
pub fn content_file_name(content: &Json) -> (s: String)
    ensures
        s@ == (if content is Str {
            "content.md"@
        } else {
            "content.json"@
        }),
{
    match content {
        Json::Str(_) => owned("content.md"),
        _ => owned("content.json"),
    }
}

/// Only a committed regular file (mode `100644` or `100755`) is read for publication.
pub fn check_committed_mode(mode: &str, path: &str) -> (r: Result<(), String>)
    ensures
        (mode@ == "100644"@ || mode@ == "100755"@) ==> r is Ok,
        !(mode@ == "100644"@ || mode@ == "100755"@) ==> (r matches Err(e) && e@ == path@
            + " must be a committed regular text file"@),
{
    if str_eq(mode, "100644") || str_eq(mode, "100755") {
        Ok(())
    } else {
        Err(concat2(path, " must be a committed regular text file"))
    }
}

/// What `git show-ref --verify --quiet` said of a reference.
#[derive(PartialEq, Eq, Structural)]
pub enum RefLookup {
    /// It exists (exit status 0); its commit is read next.
    Present,
    /// It does not exist (exit status 1).
    Absent,
}

pub fn ref_lookup(exit_code: Option<i32>, reference: &str) -> (r: Result<RefLookup, String>)
    ensures
        exit_code == Some(0i32) ==> r == Ok::<RefLookup, String>(RefLookup::Present),
        exit_code == Some(1i32) ==> r == Ok::<RefLookup, String>(RefLookup::Absent),
        exit_code != Some(0i32) && exit_code != Some(1i32) ==> (r matches Err(e) && e@
            == "cannot read Git ref "@ + reference@),
{
    match exit_code {
        Some(0) => Ok(RefLookup::Present),
        Some(1) => Ok(RefLookup::Absent),
        _ => Err(concat2("cannot read Git ref ", reference)),
    }
}

/// Whether `metadata` is exactly `{"draft": true}`, the metadata of a new document.
pub open spec fn is_new_document_metadata(metadata: Json) -> bool {
    match metadata {
        Json::Object(es) => es@.len() == 1 && es@[0].0@ == "draft"@ && es@[0].1 == Json::Bool(
            true,
        ),
        _ => false,
    }
}

pub open spec fn new_document_message() -> Seq<char> {
    "new documents must use metadata.json containing only draft: true"@
}

pub open spec fn changed_metadata_message() -> Seq<char> {
    "source metadata changed; retain imported metadata and edit content/title only"@
}

pub open spec fn foreign_knowledge_message() -> Seq<char> {
    "only shared knowledge in this project can be published"@
}

pub open spec fn revision_id_message() -> Seq<char> {
    "metadata.json has no valid revision id"@
}

pub open spec fn single_content_message() -> Seq<char> {
    "commit exactly one content.md or content.json for this document"@
}

/// How a published revision links to the document's lineage.
pub struct PublicationLinks {
    /// The new document's stable id, for a draft.
    pub new_memory_id: Option<Id>,
    /// The revision that the publication supersedes, for an imported document.
    pub supersedes_memory_id: Option<Id>,
}

/// What the committed source of a publication decides, in order: a new document's
/// metadata is exactly `{"draft": true}` and an imported document's metadata is as
/// it was imported; a draft starts the document `memory`; anything else must be
/// shared project knowledge of `project` and supersedes the revision its metadata
/// names; and exactly one content file is committed.
pub open spec fn publication_source_outcome(
    project: Id,
    memory: Id,
    metadata: Json,
    imported: Option<Json>,
    has_markdown: bool,
    has_json: bool,
) -> Result<PublicationLinks, Seq<char>> {
    let kept = match imported {
        None => is_new_document_metadata(metadata),
        Some(m) => json_eq(metadata, m),
    };
    if !kept {
        Err(
            if imported is None {
                new_document_message()
            } else {
                changed_metadata_message()
            },
        )
    } else if get(metadata, "draft"@) == Some(Json::Bool(true)) {
        if has_markdown == has_json {
            Err(single_content_message())
        } else {
            Ok(PublicationLinks { new_memory_id: Some(memory), supersedes_memory_id: None })
        }
    } else if !(is_text(get(metadata, "scope_type"@), "project"@) && is_text(
        get(metadata, "project_id"@),
        uuid_hyphenated(project),
    ) && is_text(get(metadata, "visibility"@), "shared"@)) {
        Err(foreign_knowledge_message())
    } else {
        match get(metadata, "id"@) {
            Some(Json::Str(s)) => match uuid_parse(s@) {
                Some(id) => if has_markdown == has_json {
                    Err(single_content_message())
                } else {
                    Ok(PublicationLinks { new_memory_id: None, supersedes_memory_id: Some(id) })
                },
                None => Err(revision_id_message()),
            },
            _ => Err(revision_id_message()),
        }
    }
}

fn text_member_is(v: &Json, key: &str, text: &str) -> (b: bool)
    ensures
        b == is_text(get(*v, key@), text@),
{
    match get_of(v, key) {
        Some(Json::Str(s)) => str_eq(s.as_str(), text),
        _ => false,
    }
}

/// Checks the committed source of a publication (`metadata` at the commit, the
/// metadata at the import base when the document was imported, and which content
/// files the commit holds) and gives the lineage links of the new revision.
pub fn check_publication_source(
    project: Id,
    memory: Id,
    metadata: &Json,
    imported: Option<&Json>,
    has_markdown: bool,
    has_json: bool,
) -> (r: Result<PublicationLinks, String>)
    ensures
        match publication_source_outcome(
            project,
            memory,
            *metadata,
            match imported {
                Some(m) => Some(*m),
                None => None,
            },
            has_markdown,
            has_json,
        ) {
            Ok(links) => r matches Ok(l) && l == links,
            Err(m) => r matches Err(e) && e@ == m,
        },
{
    let kept = match imported {
        None => match metadata {
            Json::Object(es) => es.len() == 1 && str_eq(es[0].0.as_str(), "draft") && match &es[0].1 {
                Json::Bool(b) => *b,
                _ => false,
            },
            _ => false,
        },
        Some(m) => json_equal(metadata, m),
    };
    if !kept {
        if imported.is_none() {
            return Err(owned("new documents must use metadata.json containing only draft: true"));
        }
        return Err(
            owned("source metadata changed; retain imported metadata and edit content/title only"),
        );
    }
    let draft = match get_of(metadata, "draft") {
        Some(Json::Bool(b)) => *b,
        _ => false,
    };
    if draft {
        if has_markdown == has_json {
            return Err(owned("commit exactly one content.md or content.json for this document"));
        }
        return Ok(PublicationLinks { new_memory_id: Some(memory), supersedes_memory_id: None });
    }
    let project_text = id_text(project);
    if !(text_member_is(metadata, "scope_type", "project") && text_member_is(
        metadata,
        "project_id",
        project_text.as_str(),
    ) && text_member_is(metadata, "visibility", "shared")) {
        return Err(owned("only shared knowledge in this project can be published"));
    }
    let superseded = match get_of(metadata, "id") {
        Some(Json::Str(s)) => parse_uuid(s.as_str()),
        _ => None,
    };
    match superseded {
        Some(id) => {
            if has_markdown == has_json {
                return Err(
                    owned("commit exactly one content.md or content.json for this document"),
                );
            }
            Ok(PublicationLinks { new_memory_id: None, supersedes_memory_id: Some(id) })
        },
        None => Err(owned("metadata.json has no valid revision id")),
    }
}

pub open spec fn foreign_checkout_message() -> Seq<char> {
    "checkout belongs to a different MORROWS_MCP_URL"@
}

pub open spec fn foreign_task_message() -> Seq<char> {
    "source task belongs to another project"@
}

/// Checks where a publication goes: the checkout (its `project.json`) must have been
/// made against the client's MCP endpoint, and the source task (as `task_get`
/// returns it) must belong to the checkout's project.
pub fn check_publication_target(
    project: Id,
    checkout: &Json,
    client_endpoint: &str,
    task: &Json,
) -> (r: Result<(), String>)
    ensures
        !is_text(get(*checkout, "endpoint"@), client_endpoint@) ==> (r matches Err(e) && e@
            == foreign_checkout_message()),
        is_text(get(*checkout, "endpoint"@), client_endpoint@) && !is_text(
            get(*task, "project_id"@),
            uuid_hyphenated(project),
        ) ==> (r matches Err(e) && e@ == foreign_task_message()),
        is_text(get(*checkout, "endpoint"@), client_endpoint@) && is_text(
            get(*task, "project_id"@),
            uuid_hyphenated(project),
        ) ==> r is Ok,
{
    if !text_member_is(checkout, "endpoint", client_endpoint) {
        return Err(owned("checkout belongs to a different MORROWS_MCP_URL"));
    }
    let project_text = id_text(project);
    if !text_member_is(task, "project_id", project_text.as_str()) {
        return Err(owned("source task belongs to another project"));
    }
    Ok(())
}

/// The project of a checkout: the `project.id` of its `project.json`.
pub fn checkout_project(project_data: &Json) -> (r: Result<Id, String>)
    ensures
        match get(*project_data, "project"@) {
            Some(p) => match get(p, "id"@) {
                Some(Json::Str(s)) => match uuid_parse(s@) {
                    Some(id) => r == Ok::<Id, String>(id),
                    None => r matches Err(e) && e@ == "project.json has no valid project id"@,
                },
                _ => r matches Err(e) && e@ == "project.json has no valid project id"@,
            },
            None => r matches Err(e) && e@ == "project.json has no valid project id"@,
        },
{
    let parsed = match get_of(project_data, "project") {
        Some(p) => match get_of(p, "id") {
            Some(Json::Str(s)) => parse_uuid(s.as_str()),
            _ => None,
        },
        None => None,
    };
    match parsed {
        Some(id) => Ok(id),
        None => Err(owned("project.json has no valid project id")),
    }
}

/// Reads a committed JSON file (`git show` of `path`): its JSON value, or the
/// message that names the file when it is not JSON.
pub fn parse_committed_json(path: &str, text: &str) -> (r: Result<Json, String>)
    ensures
        match parsed_json_text(text@) {
            Some(v) => r == Ok::<Json, String>(v),
            None => r matches Err(e) && e@ == "parse committed "@ + path@,
        },
{
    match parse_json_text(text) {
        Some(v) => Ok(v),
        None => Err(concat2("parse committed ", path)),
    }
}

pub open spec fn foreign_repository_message() -> Seq<char> {
    "directory belongs to another Git repository"@
}

pub open spec fn dirty_worktree_message() -> Seq<char> {
    "commit or stash local changes before refreshing; no files were overwritten"@
}

pub open spec fn unreadable_project_message() -> Seq<char> {
    "parse committed project.json"@
}

pub open spec fn foreign_checkout_project_message() -> Seq<char> {
    "checkout belongs to another endpoint/project"@
}

/// Whether a checkout's saved `project.json` was made for this endpoint and project.
pub open spec fn saved_for(saved: Json, endpoint: Seq<char>, project: Id) -> bool {
    is_text(get(saved, "endpoint"@), endpoint) && match get(saved, "project"@) {
        Some(p) => is_text(get(p, "id"@), uuid_hyphenated(project)),
        None => false,
    }
}

/// What a refresh of an existing checkout decides before it touches any file, in
/// order: the checkout must share the memory root's repository, its worktree must be
/// clean (a refresh never overwrites uncommitted edits), and its committed
/// `project.json` must name this endpoint and project. A refresh keeps history when
/// the checkout already included it.
pub open spec fn refresh_outcome(
    same_repository: bool,
    status: Seq<char>,
    saved_project: Seq<char>,
    endpoint: Seq<char>,
    project: Id,
) -> Result<bool, Seq<char>> {
    if !same_repository {
        Err(foreign_repository_message())
    } else if trimmed(status).len() > 0 {
        Err(dirty_worktree_message())
    } else {
        match parsed_json_text(saved_project) {
            None => Err(unreadable_project_message()),
            Some(saved) => if saved_for(saved, endpoint, project) {
                Ok(get(saved, "includes_history"@) == Some(Json::Bool(true)))
            } else {
                Err(foreign_checkout_project_message())
            },
        }
    }
}

/// A refresh never goes ahead over uncommitted edits, nor over another repository's
/// checkout or one made for another endpoint or project.
pub proof fn law_refresh_never_overwrites_local_changes(
    same_repository: bool,
    status: Seq<char>,
    saved_project: Seq<char>,
    endpoint: Seq<char>,
    project: Id,
)
    ensures
        trimmed(status).len() > 0 ==> refresh_outcome(
            same_repository,
            status,
            saved_project,
            endpoint,
            project,
        ) is Err,
        !same_repository ==> refresh_outcome(same_repository, status, saved_project, endpoint, project) is Err,
        refresh_outcome(same_repository, status, saved_project, endpoint, project) is Ok ==> (
        parsed_json_text(saved_project) matches Some(saved) && saved_for(saved, endpoint, project)),
{
}

/// Checks that an existing checkout may be refreshed: `same_repository` is whether its
/// Git common directory is the memory root's bare repository, `status_porcelain` what
/// `git status --porcelain` printed, and `saved_project` the committed
/// `project.json`. `Ok` tells whether the checkout already includes history.
pub fn check_refresh(
    same_repository: bool,
    status_porcelain: &str,
    saved_project: &str,
    endpoint: &str,
    project: Id,
) -> (r: Result<bool, String>)
    ensures
        match refresh_outcome(same_repository, status_porcelain@, saved_project@, endpoint@, project) {
            Ok(h) => r == Ok::<bool, String>(h),
            Err(m) => r matches Err(e) && e@ == m,
        },
{
    if !same_repository {
        return Err(owned("directory belongs to another Git repository"));
    }
    if !is_blank(status_porcelain) {
        return Err(
            owned("commit or stash local changes before refreshing; no files were overwritten"),
        );
    }
    let saved = match parse_committed_json("project.json", saved_project) {
        Ok(v) => v,
        Err(e) => {
            proof {
                reveal_strlit("parse committed ");
                reveal_strlit("project.json");
                reveal_strlit("parse committed project.json");
                assert("parse committed "@ + "project.json"@ =~= "parse committed project.json"@);
            }
            return Err(e);
        },
    };
    let project_text = id_text(project);
    let endpoint_ok = match get_of(&saved, "endpoint") {
        Some(Json::Str(s)) => str_eq(s.as_str(), endpoint),
        _ => false,
    };
    let project_ok = match get_of(&saved, "project") {
        Some(p) => match get_of(p, "id") {
            Some(Json::Str(s)) => str_eq(s.as_str(), project_text.as_str()),
            _ => false,
        },
        None => false,
    };
    if !(endpoint_ok && project_ok) {
        return Err(owned("checkout belongs to another endpoint/project"));
    }
    let history = match get_of(&saved, "includes_history") {
        Some(Json::Bool(b)) => *b,
        _ => false,
    };
    Ok(history)
}

} // verus!
