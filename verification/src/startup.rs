//! Start-up decisions of the server: which bind settings are safe, which MCP `Host`
//! values are accepted, and how boolean settings and the bootstrap credential read.

use vstd::prelude::*;
use crate::auth::operator_token_prefix;
use crate::text::{
    ascii_lower, before_char, concat2, first_occurrence, has_prefix, owned, split_char,
    split_text, starts_with, str_eq, to_ascii_lowercase, trim, trimmed, views, is_empty_text,
    chars_of, find_from, slice_text, trim_start, trim_end, lemma_trimmed_idempotent,
};

verus! {

pub open spec fn operator_credential_missing_message() -> Seq<char> {
    "MORROWS_REQUIRE_OPERATOR_AUTH=1 requires MORROWS_BOOTSTRAP_OPERATOR_TOKEN or an active durable admin operator credential"@
}

pub open spec fn plain_http_refused_message() -> Seq<char> {
    "Morrows refuses direct non-loopback HTTP because Bearer credentials require transport security; keep MORROWS_BIND on loopback and expose it through a TLS reverse proxy, or set MORROWS_ALLOW_INSECURE_REMOTE_HTTP=1 only for isolated development"@
}

/// Why the server must not start with these settings, or `None` where it may.
/// `addr` is the bind address as text; `is_loopback` says whether its IP is a
/// loopback address.
pub open spec fn bind_refusal(
    addr: Seq<char>,
    is_loopback: bool,
    require_agent_auth: bool,
    require_operator_auth: bool,
    has_bootstrap_operator: bool,
    has_admin_operator: bool,
    allow_insecure_remote_http: bool,
) -> Option<Seq<char>> {
    if require_operator_auth && !has_bootstrap_operator && !has_admin_operator {
        Some(operator_credential_missing_message())
    } else if is_loopback {
        None
    } else if !require_operator_auth {
        Some("non-loopback MORROWS_BIND="@ + addr + " requires MORROWS_REQUIRE_OPERATOR_AUTH=1"@)
    } else if !require_agent_auth {
        Some("non-loopback MORROWS_BIND="@ + addr + " requires MORROWS_REQUIRE_AGENT_AUTH=1"@)
    } else if !allow_insecure_remote_http {
        Some(plain_http_refused_message())
    } else {
        None
    }
}

/// Refuses bind settings that would expose an unauthenticated or plain-HTTP server.
pub fn validate_bind_security(
    addr: &str,
    is_loopback: bool,
    require_agent_auth: bool,
    require_operator_auth: bool,
    has_bootstrap_operator: bool,
    has_admin_operator: bool,
    allow_insecure_remote_http: bool,
) -> (r: Result<(), String>)
    ensures
        match r {
            Ok(_) => bind_refusal(
                addr@,
                is_loopback,
                require_agent_auth,
                require_operator_auth,
                has_bootstrap_operator,
                has_admin_operator,
                allow_insecure_remote_http,
            ) is None,
            Err(e) => bind_refusal(
                addr@,
                is_loopback,
                require_agent_auth,
                require_operator_auth,
                has_bootstrap_operator,
                has_admin_operator,
                allow_insecure_remote_http,
            ) == Some(e@),
        },
{
    if require_operator_auth && !has_bootstrap_operator && !has_admin_operator {
        return Err(owned(
            "MORROWS_REQUIRE_OPERATOR_AUTH=1 requires MORROWS_BOOTSTRAP_OPERATOR_TOKEN or an active durable admin operator credential",
        ));
    }
    if !is_loopback {
        if !require_operator_auth {
            let head = concat2("non-loopback MORROWS_BIND=", addr);
            return Err(concat2(head.as_str(), " requires MORROWS_REQUIRE_OPERATOR_AUTH=1"));
        }
        if !require_agent_auth {
            let head = concat2("non-loopback MORROWS_BIND=", addr);
            return Err(concat2(head.as_str(), " requires MORROWS_REQUIRE_AGENT_AUTH=1"));
        }
        if !allow_insecure_remote_http {
            return Err(owned(
                "Morrows refuses direct non-loopback HTTP because Bearer credentials require transport security; keep MORROWS_BIND on loopback and expose it through a TLS reverse proxy, or set MORROWS_ALLOW_INSECURE_REMOTE_HTTP=1 only for isolated development",
            ));
        }
    }
    Ok(())
}

/// A server reachable beyond loopback starts only with both authentication planes
/// required, an operator credential to log in with, and the plain-HTTP override set.
pub proof fn law_remote_bind_needs_both_planes_and_override(
    addr: Seq<char>,
    require_agent_auth: bool,
    require_operator_auth: bool,
    has_bootstrap_operator: bool,
    has_admin_operator: bool,
    allow_insecure_remote_http: bool,
)
    requires
        bind_refusal(
            addr,
            false,
            require_agent_auth,
            require_operator_auth,
            has_bootstrap_operator,
            has_admin_operator,
            allow_insecure_remote_http,
        ) is None,
    ensures
        require_agent_auth,
        require_operator_auth,
        allow_insecure_remote_http,
        has_bootstrap_operator || has_admin_operator,
{
}

/// On loopback, settings that do not require operator credentials always start.
pub proof fn law_loopback_without_operator_auth_starts(
    addr: Seq<char>,
    require_agent_auth: bool,
    has_bootstrap_operator: bool,
    has_admin_operator: bool,
    allow_insecure_remote_http: bool,
)
    ensures
        bind_refusal(
            addr,
            true,
            require_agent_auth,
            false,
            has_bootstrap_operator,
            has_admin_operator,
            allow_insecure_remote_http,
        ) is None,
{
}

/// The `Host` values that are always accepted.
pub open spec fn loopback_hosts() -> Seq<Seq<char>> {
    seq!["localhost"@, "127.0.0.1"@, "::1"@]
}

/// Adds `value`, trimmed, unless it is empty or already present.
pub open spec fn host_added(hosts: Seq<Seq<char>>, value: Seq<char>) -> Seq<Seq<char>> {
    let v = trimmed(value);
    if v.len() > 0 && !hosts.contains(v) {
        hosts.push(v)
    } else {
        hosts
    }
}

/// Adds each of `values` in turn.
pub open spec fn hosts_added(hosts: Seq<Seq<char>>, values: Seq<Seq<char>>) -> Seq<Seq<char>>
    decreases values.len(),
{
    if values.len() == 0 {
        hosts
    } else {
        host_added(hosts_added(hosts, values.drop_last()), values.last())
    }
}

/// The authority of a URL: after the first `://` of the trimmed text, up to the next
/// `/`. `None` where the text holds no `://`.
pub open spec fn url_authority(url: Seq<char>) -> Option<Seq<char>> {
    let t = trimmed(url);
    match first_occurrence(t, "://"@) {
        Some(i) => Some(before_char(t.skip(i + 3), '/')),
        None => None,
    }
}

/// The values offered for the allowlist: the public URL's authority, then each
/// comma-separated configured host.
pub open spec fn host_candidates(public_url: Option<Seq<char>>, configured: Option<Seq<char>>) -> Seq<
    Seq<char>,
> {
    let from_url = match public_url {
        Some(u) => match url_authority(u) {
            Some(a) => seq![a],
            None => Seq::empty(),
        },
        None => Seq::empty(),
    };
    let from_config = match configured {
        Some(c) => split_char(c, ','),
        None => Seq::empty(),
    };
    from_url + from_config
}

/// The MCP `Host` allowlist.
pub open spec fn mcp_allowed_hosts(public_url: Option<Seq<char>>, configured: Option<Seq<char>>) -> Seq<
    Seq<char>,
> {
    hosts_added(loopback_hosts(), host_candidates(public_url, configured))
}

pub open spec fn opt_view(o: Option<&str>) -> Option<Seq<char>> {
    match o {
        Some(s) => Some(s@),
        None => None,
    }
}

fn contains_text(hosts: &Vec<String>, v: &str) -> (b: bool)
    ensures
        b == views(hosts@).contains(v@),
{
    let mut i: usize = 0;
    while i < hosts.len()
        invariant
            i <= hosts.len(),
            forall|j: int| 0 <= j < i ==> hosts@[j]@ != v@,
        decreases hosts.len() - i,
    {
        if str_eq(hosts[i].as_str(), v) {
            assert(views(hosts@)[i as int] == v@);
            return true;
        }
        i = i + 1;
    }
    proof {
        if views(hosts@).contains(v@) {
            let j = choose|j: int| 0 <= j < views(hosts@).len() && views(hosts@)[j] == v@;
            assert(hosts@[j]@ == v@);
        }
    }
    false
}

fn push_host(hosts: &mut Vec<String>, value: &str)
    ensures
        views(final(hosts)@) == host_added(views(old(hosts)@), value@),
{
    let v = trim(value);
    if !is_empty_text(v.as_str()) && !contains_text(hosts, v.as_str()) {
        hosts.push(v);
        assert(views(hosts@) =~= views(old(hosts)@).push(v@));
    }
}

fn url_authority_of(url: &str) -> (r: Option<String>)
    ensures
        opt_view_string(r) == url_authority(url@),
{
    let t = trim(url);
    let tv = chars_of(t.as_str());
    let sep = chars_of("://");
    match find_from(&tv, &sep, 0) {
        Some(i) => {
            proof {
                reveal_strlit("://");
            }
            assert(sep@.len() == 3);
            assert(crate::text::occurs_at(tv@, sep@, i as int));
            assert(i + sep@.len() <= tv@.len());
            assert(i + 3 <= tv.len());
            let rest_start = i + 3;
            let slash = vec!['/'];
            assert(slash@ =~= seq!['/']);
            assert(sep@ == "://"@);
            let ghost rest = tv@.skip(rest_start as int);
            let end = match find_from(&tv, &slash, rest_start) {
                Some(j) => j,
                None => tv.len(),
            };
            proof {
                crate::text::lemma_first_from_shift(tv@, seq!['/'], rest_start as int);
            }
            let a = slice_text(&tv, rest_start, end);
            proof {
                match first_occurrence(rest, seq!['/']) {
                    Some(k) => {
                        assert(a@ =~= rest.take(k));
                    },
                    None => {
                        assert(a@ =~= rest);
                    },
                }
            }
            Some(a)
        },
        None => None,
    }
}

pub open spec fn opt_view_string(o: Option<String>) -> Option<Seq<char>> {
    match o {
        Some(s) => Some(s@),
        None => None,
    }
}

/// The MCP `Host` allowlist: the loopback names, then the authority of the public
/// MCP URL, then each comma-separated configured host, each trimmed, without empty
/// values or repeats.
pub fn build_mcp_allowed_hosts(public_url: Option<&str>, configured: Option<&str>) -> (r: Vec<
    String,
>)
    ensures
        views(r@) == mcp_allowed_hosts(opt_view(public_url), opt_view(configured)),
{
    let mut hosts: Vec<String> = vec![owned("localhost"), owned("127.0.0.1"), owned("::1")];
    assert(views(hosts@) =~= loopback_hosts());
    let mut cands: Vec<String> = Vec::new();
    if let Some(u) = public_url {
        if let Some(a) = url_authority_of(u) {
            cands.push(a);
        }
    }
    if let Some(c) = configured {
        let pieces = split_text(c, ',');
        let mut k: usize = 0;
        let ghost base = views(cands@);
        while k < pieces.len()
            invariant
                k <= pieces.len(),
                views(cands@) == base + views(pieces@).take(k as int),
            decreases pieces.len() - k,
        {
            let ghost before = cands@;
            cands.push(pieces[k].clone());
            assert(views(pieces@).take(k + 1) =~= views(pieces@).take(k as int).push(
                pieces@[k as int]@,
            ));
            assert(views(cands@) =~= views(before).push(pieces@[k as int]@));
            k = k + 1;
        }
        assert(views(pieces@).take(pieces.len() as int) =~= views(pieces@));
    }
    assert(views(cands@) =~= host_candidates(opt_view(public_url), opt_view(configured)));
    let mut i: usize = 0;
    while i < cands.len()
        invariant
            i <= cands.len(),
            views(hosts@) == hosts_added(loopback_hosts(), views(cands@).take(i as int)),
        decreases cands.len() - i,
    {
        assert(views(cands@).take(i + 1).drop_last() =~= views(cands@).take(i as int));
        assert(views(cands@).take(i + 1).last() == cands@[i as int]@);
        push_host(&mut hosts, cands[i].as_str());
        i = i + 1;
    }
    assert(views(cands@).take(cands.len() as int) =~= views(cands@));
    hosts
}

/// Adding hosts keeps what was there, in order, and adds no repeats.
pub proof fn lemma_hosts_added(hosts: Seq<Seq<char>>, values: Seq<Seq<char>>)
    ensures
        hosts_added(hosts, values).len() >= hosts.len(),
        hosts_added(hosts, values).take(hosts.len() as int) == hosts,
        (forall|i: int, j: int|
            0 <= i < j < hosts.len() ==> hosts[i] != hosts[j]) ==> (forall|i: int, j: int|
            0 <= i < j < hosts_added(hosts, values).len() ==> hosts_added(hosts, values)[i]
                != hosts_added(hosts, values)[j]),
    decreases values.len(),
{
    if values.len() > 0 {
        lemma_hosts_added(hosts, values.drop_last());
        let prev = hosts_added(hosts, values.drop_last());
        let next = host_added(prev, values.last());
        assert(next.take(hosts.len() as int) =~= prev.take(hosts.len() as int));
    }
}

/// The allowlist always begins with the loopback names and never names a host twice.
pub proof fn law_mcp_allowlist_keeps_loopback_without_repeats(
    public_url: Option<Seq<char>>,
    configured: Option<Seq<char>>,
)
    ensures
        mcp_allowed_hosts(public_url, configured).take(3) == loopback_hosts(),
        forall|i: int, j: int|
            0 <= i < j < mcp_allowed_hosts(public_url, configured).len() ==> mcp_allowed_hosts(
                public_url,
                configured,
            )[i] != mcp_allowed_hosts(public_url, configured)[j],
{
    reveal_strlit("localhost");
    reveal_strlit("127.0.0.1");
    reveal_strlit("::1");
    let l = loopback_hosts();
    assert(l[0].len() == 9 && l[1].len() == 9 && l[2].len() == 3);
    assert(l[0][0] != l[1][0]);
    lemma_hosts_added(l, host_candidates(public_url, configured));
}

/// The words that a boolean setting accepts, after trimming and ASCII lower-casing.
pub open spec fn bool_word(t: Seq<char>) -> Option<bool> {
    if t == "1"@ || t == "true"@ || t == "yes"@ || t == "on"@ {
        Some(true)
    } else if t == "0"@ || t == "false"@ || t == "no"@ || t == "off"@ {
        Some(false)
    } else {
        None
    }
}

pub open spec fn normalized_word(value: Seq<char>) -> Seq<char> {
    trimmed(value).map_values(|c: char| ascii_lower(c))
}

/// A boolean setting: `default` where it is unset, else one of the accepted words;
/// anything else is the error "`name` must be a boolean".
pub fn parse_bool_flag(name: &str, value: Option<&str>, default: bool) -> (r: Result<bool, String>)
    ensures
        match value {
            None => r == Ok::<bool, String>(default),
            Some(v) => match bool_word(normalized_word(v@)) {
                Some(b) => r == Ok::<bool, String>(b),
                None => r matches Err(e) && e@ == name@ + " must be a boolean"@,
            },
        },
{
    match value {
        None => Ok(default),
        Some(v) => {
            let t = trim(v);
            let w = to_ascii_lowercase(t.as_str());
            let ws = w.as_str();
            if str_eq(ws, "1") || str_eq(ws, "true") || str_eq(ws, "yes") || str_eq(ws, "on") {
                Ok(true)
            } else if str_eq(ws, "0") || str_eq(ws, "false") || str_eq(ws, "no") || str_eq(
                ws,
                "off",
            ) {
                Ok(false)
            } else {
                Err(concat2(name, " must be a boolean"))
            }
        },
    }
}

pub open spec fn bootstrap_prefix_message() -> Seq<char> {
    "MORROWS_BOOTSTRAP_OPERATOR_TOKEN must start with mrw_operator_"@
}

/// The bootstrap operator credential: the trimmed setting, `None` where unset or
/// blank; refused where it is not an operator credential.
pub fn bootstrap_operator_token(raw: Option<&str>) -> (r: Result<Option<String>, String>)
    ensures
        match raw {
            None => r == Ok::<Option<String>, String>(None),
            Some(v) => if trimmed(v@).len() == 0 {
                r == Ok::<Option<String>, String>(None)
            } else if has_prefix(trimmed(v@), operator_token_prefix()) {
                r matches Ok(Some(t)) && t@ == trimmed(v@)
            } else {
                r matches Err(e) && e@ == bootstrap_prefix_message()
            },
        },
{
    match raw {
        None => Ok(None),
        Some(v) => {
            let t = trim(v);
            if is_empty_text(t.as_str()) {
                Ok(None)
            } else if starts_with(t.as_str(), "mrw_operator_") {
                Ok(Some(t))
            } else {
                Err(owned("MORROWS_BOOTSTRAP_OPERATOR_TOKEN must start with mrw_operator_"))
            }
        },
    }
}


/// Every value offered to the allowlist that is not blank is on it, trimmed.
pub proof fn lemma_hosts_added_contains(hosts: Seq<Seq<char>>, values: Seq<Seq<char>>, k: int)
    requires
        0 <= k < values.len(),
        trimmed(values[k]).len() > 0,
    ensures
        hosts_added(hosts, values).contains(trimmed(values[k])),
    decreases values.len(),
{
    let prev = hosts_added(hosts, values.drop_last());
    if k < values.len() - 1 {
        lemma_hosts_added_contains(hosts, values.drop_last(), k);
        assert(values.drop_last()[k] == values[k]);
        let w = choose|i: int| 0 <= i < prev.len() && prev[i] == trimmed(values[k]);
        lemma_hosts_added(hosts, values);
        let next = host_added(prev, values.last());
        assert(next[w] == prev[w]);
    } else {
        let next = host_added(prev, values.last());
        if prev.contains(trimmed(values.last())) {
            let w = choose|i: int| 0 <= i < prev.len() && prev[i] == trimmed(values.last());
            assert(next[w] == prev[w]);
        } else {
            assert(next[prev.len() as int] == trimmed(values.last()));
        }
    }
}

/// The allowlist accepts the authority of the public MCP URL and every configured
/// host, each trimmed, wherever it is not blank.
pub proof fn law_mcp_allowlist_accepts_public_and_configured_hosts(
    public_url: Option<Seq<char>>,
    configured: Option<Seq<char>>,
)
    ensures
        match public_url {
            Some(u) => match url_authority(u) {
                Some(a) => trimmed(a).len() > 0 ==> mcp_allowed_hosts(public_url, configured).contains(
                    trimmed(a),
                ),
                None => true,
            },
            None => true,
        },
        match configured {
            Some(c) => forall|k: int|
                0 <= k < split_char(c, ',').len() && trimmed(#[trigger] split_char(c, ',')[k]).len()
                    > 0 ==> mcp_allowed_hosts(public_url, configured).contains(
                    trimmed(split_char(c, ',')[k]),
                ),
            None => true,
        },
{
    let cands = host_candidates(public_url, configured);
    let from_url: Seq<Seq<char>> = match public_url {
        Some(u) => match url_authority(u) {
            Some(a) => seq![a],
            None => Seq::empty(),
        },
        None => Seq::empty(),
    };
    if let Some(u) = public_url {
        if let Some(a) = url_authority(u) {
            if trimmed(a).len() > 0 {
                assert(cands[0] == a);
                lemma_hosts_added_contains(loopback_hosts(), cands, 0);
            }
        }
    }
    if let Some(c) = configured {
        assert forall|k: int|
            0 <= k < split_char(c, ',').len() && trimmed(#[trigger] split_char(c, ',')[k]).len()
                > 0 implies mcp_allowed_hosts(public_url, configured).contains(
                trimmed(split_char(c, ',')[k]),
            ) by {
            assert(cands[from_url.len() + k] == split_char(c, ',')[k]);
            lemma_hosts_added_contains(loopback_hosts(), cands, from_url.len() + k);
        }
    }
}

/// Every host is trimmed and not empty.
pub open spec fn all_trimmed(hosts: Seq<Seq<char>>) -> bool {
    forall|p: int| 0 <= p < hosts.len() ==> #[trigger] hosts[p].len() > 0 && trimmed(hosts[p]) == hosts[p]
}

/// Host `h` is offered, trimmed, somewhere before index `end` of `values`.
pub open spec fn offered_before(values: Seq<Seq<char>>, h: Seq<char>, end: int) -> bool {
    exists|k: int| 0 <= k < end && k < values.len() && #[trigger] trimmed(values[k]) == h
}

proof fn lemma_offered_before_grows(init: Seq<Seq<char>>, values: Seq<Seq<char>>, h: Seq<char>, end: int)
    requires
        init == values.drop_last(),
        values.len() > 0,
        offered_before(init, h, end),
    ensures
        offered_before(values, h, end),
{
    let k = choose|k: int| 0 <= k < end && k < init.len() && #[trigger] trimmed(init[k]) == h;
    assert(init[k] == values[k]);
    assert(trimmed(values[k]) == h);
}

proof fn lemma_hosts_added_sound(hosts: Seq<Seq<char>>, values: Seq<Seq<char>>)
    requires
        all_trimmed(hosts),
    ensures
        all_trimmed(hosts_added(hosts, values)),
        forall|p: int|
            hosts.len() <= p < hosts_added(hosts, values).len() ==> offered_before(
                values,
                #[trigger] hosts_added(hosts, values)[p],
                values.len() as int,
            ),
        forall|p: int, q: int, k2: int|
            hosts.len() <= p < q < hosts_added(hosts, values).len() && 0 <= k2 < values.len()
                && #[trigger] trimmed(values[k2]) == #[trigger] hosts_added(hosts, values)[q]
                ==> offered_before(values, #[trigger] hosts_added(hosts, values)[p], k2),
    decreases values.len(),
{
    if values.len() > 0 {
        let init = values.drop_last();
        let last_i = values.len() - 1;
        lemma_hosts_added_sound(hosts, init);
        lemma_hosts_added(hosts, values);
        let prev = hosts_added(hosts, init);
        let r = hosts_added(hosts, values);
        let v = trimmed(values.last());
        assert(r == host_added(prev, values.last()));
        let added = v.len() > 0 && !prev.contains(v);
        if added {
            assert(r == prev.push(v));
            lemma_trimmed_idempotent(values.last());
        } else {
            assert(r == prev);
        }
        assert forall|p: int| 0 <= p < r.len() implies #[trigger] r[p].len() > 0 && trimmed(r[p])
            == r[p] by {
            if p < prev.len() {
                assert(r[p] == prev[p]);
            }
        }
        assert forall|p: int| hosts.len() <= p < r.len() implies offered_before(
            values,
            #[trigger] r[p],
            values.len() as int,
        ) by {
            if p < prev.len() {
                assert(r[p] == prev[p]);
                lemma_offered_before_grows(init, values, prev[p], init.len() as int);
                let k = choose|k: int| 0 <= k < init.len() && k < values.len() && #[trigger] trimmed(values[k]) == prev[p];
                assert(trimmed(values[k]) == r[p]);
            } else {
                assert(trimmed(values[last_i]) == r[p]);
            }
        }
        assert forall|p: int, q: int, k2: int|
            hosts.len() <= p < q < r.len() && 0 <= k2 < values.len() && #[trigger] trimmed(
                values[k2],
            ) == #[trigger] r[q] implies offered_before(values, #[trigger] r[p], k2) by {
            assert(r[p] == prev[p]);
            if k2 < last_i {
                assert(init[k2] == values[k2]);
                if q < prev.len() {
                    assert(r[q] == prev[q]);
                    assert(trimmed(init[k2]) == prev[q]);
                    lemma_offered_before_grows(init, values, prev[p], k2);
                } else {
                    lemma_hosts_added_contains(hosts, init, k2);
                    assert(false);
                }
            } else {
                lemma_offered_before_grows(init, values, prev[p], init.len() as int);
            }
        }
    }
}

/// Every host on the allowlist is trimmed and not empty; beyond the loopback names,
/// each is the authority of the public MCP URL or a configured host, and the hosts
/// come in the order in which they are first offered.
pub proof fn law_mcp_allowlist_holds_trimmed_hosts_in_first_offered_order(
    public_url: Option<Seq<char>>,
    configured: Option<Seq<char>>,
)
    ensures
        all_trimmed(mcp_allowed_hosts(public_url, configured)),
        forall|p: int|
            3 <= p < mcp_allowed_hosts(public_url, configured).len() ==> offered_before(
                host_candidates(public_url, configured),
                #[trigger] mcp_allowed_hosts(public_url, configured)[p],
                host_candidates(public_url, configured).len() as int,
            ),
        forall|p: int, q: int, k2: int|
            3 <= p < q < mcp_allowed_hosts(public_url, configured).len() && 0 <= k2
                < host_candidates(public_url, configured).len() && #[trigger] trimmed(
                host_candidates(public_url, configured)[k2],
            ) == #[trigger] mcp_allowed_hosts(public_url, configured)[q] ==> offered_before(
                host_candidates(public_url, configured),
                #[trigger] mcp_allowed_hosts(public_url, configured)[p],
                k2,
            ),
{
    reveal_strlit("localhost");
    reveal_strlit("127.0.0.1");
    reveal_strlit("::1");
    let l = loopback_hosts();
    assert(trimmed(l[0]) == l[0]) by {
        reveal_with_fuel(trim_start, 2);
        reveal_with_fuel(trim_end, 2);
    }
    assert(trimmed(l[1]) == l[1]) by {
        reveal_with_fuel(trim_start, 2);
        reveal_with_fuel(trim_end, 2);
    }
    assert(trimmed(l[2]) == l[2]) by {
        reveal_with_fuel(trim_start, 2);
        reveal_with_fuel(trim_end, 2);
    }
    assert(all_trimmed(l));
    lemma_hosts_added_sound(l, host_candidates(public_url, configured));
}

} // verus!
