//! Automatic dispatch: when a scheduled role is due, and which launch profile starts
//! the executor of an assignment the scheduler made.

use vstd::prelude::*;
use crate::ids::Id;
use crate::json::{get, get_of, Json};
use crate::launch::LaunchProfile;
use crate::text::str_eq;

verus! {

/// A task's dispatch policy for one role (`role` is `executor`, both freshness
/// limits 120 s, the lease 900 s and `enabled` true unless given).
pub struct SetDispatchPolicy {
    pub role: String,
    pub required_capabilities: Vec<String>,
    pub profile_id: Option<Id>,
    pub account_id: Option<Id>,
    pub machine_id: Option<Id>,
    pub heartbeat_ttl_seconds: i64,
    pub capacity_ttl_seconds: i64,
    pub lease_seconds: i64,
    pub enabled: bool,
}

/// Whether a scheduled role is due: never run yet, or at least its interval has
/// passed since its last run (the interval read as unsigned seconds).
pub fn scheduler_due(elapsed_since_last_run: Option<u64>, interval_seconds: i64) -> (b: bool)
    ensures
        b == match elapsed_since_last_run {
            None => true,
            Some(e) => e >= interval_seconds as u64,
        },
{
    match elapsed_since_last_run {
        None => true,
        Some(e) => e >= interval_seconds as u64,
    }
}

/// The most assignments one scheduled role makes per tick.
pub const DISPATCH_ROUNDS_PER_TICK: u32 = 8;

/// What the scheduler does after a dispatch round of a role.
#[derive(PartialEq, Eq, Structural)]
pub enum RoundNext {
    /// Launch the assignment just made, then continue with the next round.
    LaunchThenContinue,
    /// Continue with the next round.
    Continue,
    /// Stop with this role until its next due tick.
    Stop,
}

/// After round `round` (counted from 0): a failed or empty round stops the role; an
/// assignment is launched where the role launches automatically; at most
/// `DISPATCH_ROUNDS_PER_TICK` rounds run.
pub open spec fn round_next_of(round: u32, dispatched: bool, has_assignment: bool, auto_launch: bool) -> RoundNext {
    if !dispatched {
        RoundNext::Stop
    } else if auto_launch && has_assignment {
        if round + 1 < 8 {
            RoundNext::LaunchThenContinue
        } else {
            RoundNext::Stop
        }
    } else if round + 1 < 8 {
        RoundNext::Continue
    } else {
        RoundNext::Stop
    }
}

pub fn dispatch_round_next(round: u32, dispatched: bool, has_assignment: bool, auto_launch: bool) -> (r:
    RoundNext)
    requires
        round < 8,
    ensures
        r == round_next_of(round, dispatched, has_assignment, auto_launch),
{
    if !dispatched {
        RoundNext::Stop
    } else if auto_launch && has_assignment {
        if round + 1 < DISPATCH_ROUNDS_PER_TICK {
            RoundNext::LaunchThenContinue
        } else {
            RoundNext::Stop
        }
    } else if round + 1 < DISPATCH_ROUNDS_PER_TICK {
        RoundNext::Continue
    } else {
        RoundNext::Stop
    }
}

/// Whether the last round of a tick launches its assignment: it does where the role
/// launches automatically, though no further round follows.
pub fn launch_after_last_round(dispatched: bool, has_assignment: bool, auto_launch: bool) -> (b: bool)
    ensures
        b == (dispatched && has_assignment && auto_launch),
{
    dispatched && has_assignment && auto_launch
}

/// A profile marked as the default: its metadata holds `"default": true`.
pub open spec fn marked_default(p: LaunchProfile) -> bool {
    get(p.metadata, "default"@) == Some(Json::Bool(true))
}

/// The profiles that can launch an assignment of `agent`: enabled and the agent's.
pub open spec fn launchable(ps: Seq<LaunchProfile>, agent: Id) -> Seq<int>
    decreases ps.len(),
{
    if ps.len() == 0 {
        Seq::empty()
    } else {
        let prev = launchable(ps.drop_last(), agent);
        if ps.last().enabled && ps.last().agent_instance_id == agent {
            prev.push(ps.len() - 1)
        } else {
            prev
        }
    }
}

/// The launchable profiles marked as the default.
pub open spec fn marked_defaults(ps: Seq<LaunchProfile>, c: Seq<int>) -> Seq<int>
    decreases c.len(),
{
    if c.len() == 0 {
        Seq::empty()
    } else {
        let prev = marked_defaults(ps, c.drop_last());
        if marked_default(ps[c.last()]) {
            prev.push(c.last())
        } else {
            prev
        }
    }
}

/// The launch profile of an automatic launch: the only launchable default, else the
/// only launchable profile where none is a default; otherwise none is chosen. Only
/// executor assignments are launched.
pub open spec fn auto_launch_profile_of(role: Seq<char>, agent: Id, ps: Seq<LaunchProfile>) -> Option<Id> {
    let c = launchable(ps, agent);
    let d = marked_defaults(ps, c);
    if role != "executor"@ {
        None
    } else if d.len() == 1 {
        Some(ps[d[0]].id)
    } else if d.len() == 0 && c.len() == 1 {
        Some(ps[c[0]].id)
    } else {
        None
    }
}

fn is_marked_default(p: &LaunchProfile) -> (b: bool)
    ensures
        b == marked_default(*p),
{
    match get_of(&p.metadata, "default") {
        Some(Json::Bool(v)) => *v,
        _ => false,
    }
}

proof fn lemma_launchable_in_range(ps: Seq<LaunchProfile>, agent: Id)
    ensures
        forall|k: int|
            0 <= k < launchable(ps, agent).len() ==> 0 <= #[trigger] launchable(ps, agent)[k]
                < ps.len(),
    decreases ps.len(),
{
    if ps.len() > 0 {
        lemma_launchable_in_range(ps.drop_last(), agent);
        let prev = launchable(ps.drop_last(), agent);
        let c = launchable(ps, agent);
        assert forall|k: int| 0 <= k < c.len() implies 0 <= #[trigger] c[k] < ps.len() by {
            if k < prev.len() {
                assert(c[k] == prev[k]);
            }
        }
    }
}

proof fn lemma_defaults_in_c(ps: Seq<LaunchProfile>, c: Seq<int>)
    ensures
        forall|k: int|
            0 <= k < marked_defaults(ps, c).len() ==> c.contains(#[trigger] marked_defaults(ps, c)[k]),
    decreases c.len(),
{
    if c.len() > 0 {
        lemma_defaults_in_c(ps, c.drop_last());
        let prev = marked_defaults(ps, c.drop_last());
        let d = marked_defaults(ps, c);
        assert forall|k: int| 0 <= k < d.len() implies c.contains(#[trigger] d[k]) by {
            if k < prev.len() {
                assert(d[k] == prev[k]);
                assert(c.drop_last().contains(prev[k]));
                let j = choose|j: int| 0 <= j < c.drop_last().len() && c.drop_last()[j] == prev[k];
                assert(c[j] == prev[k]);
            } else {
                assert(c[c.len() - 1] == c.last());
            }
        }
    }
}

/// The launch profile that starts the executor of an assignment made by the
/// scheduler, where one can be determined.
pub fn auto_launch_profile(role: &str, agent: Id, profiles: &Vec<LaunchProfile>) -> (r: Option<Id>)
    ensures
        r == auto_launch_profile_of(role@, agent, profiles@),
        r matches Some(id) ==> role@ == "executor"@ && exists|i: int|
            0 <= i < profiles.len() && #[trigger] profiles@[i].id == id && profiles@[i].enabled
                && profiles@[i].agent_instance_id == agent,
{
    proof {
        law_auto_launch_uses_an_own_enabled_profile(role@, agent, profiles@);
    }
    let ghost ps = profiles@;
    let mut c: Vec<usize> = Vec::new();
    let mut i: usize = 0;
    while i < profiles.len()
        invariant
            i <= profiles.len(),
            ps == profiles@,
            c@.map_values(|k: usize| k as int) == launchable(ps.take(i as int), agent),
        decreases profiles.len() - i,
    {
        assert(ps.take(i + 1).drop_last() =~= ps.take(i as int));
        if profiles[i].enabled && profiles[i].agent_instance_id == agent {
            let ghost before = c@;
            c.push(i);
            assert(c@.map_values(|k: usize| k as int) =~= before.map_values(|k: usize| k as int).push(
                i as int,
            ));
        }
        i = i + 1;
    }
    assert(ps.take(ps.len() as int) =~= ps);
    let ghost cs = launchable(ps, agent);
    proof {
        lemma_launchable_in_range(ps, agent);
    }
    let mut d: Vec<usize> = Vec::new();
    let mut k: usize = 0;
    while k < c.len()
        invariant
            k <= c.len(),
            ps == profiles@,
            cs == launchable(ps, agent),
            c@.map_values(|x: usize| x as int) == cs,
            forall|j: int| 0 <= j < cs.len() ==> 0 <= #[trigger] cs[j] < ps.len(),
            d@.map_values(|x: usize| x as int) == marked_defaults(ps, cs.take(k as int)),
        decreases c.len() - k,
    {
        assert(cs.take(k + 1).drop_last() =~= cs.take(k as int));
        assert(cs.take(k + 1).last() == cs[k as int]);
        assert(cs[k as int] == c@[k as int] as int);
        if is_marked_default(&profiles[c[k]]) {
            let ghost before = d@;
            d.push(c[k]);
            assert(d@.map_values(|x: usize| x as int) =~= before.map_values(|x: usize| x as int).push(
                cs[k as int],
            ));
        }
        k = k + 1;
    }
    assert(cs.take(cs.len() as int) =~= cs);
    let ghost ds = marked_defaults(ps, cs);
    proof {
        lemma_defaults_in_c(ps, cs);
    }
    if !str_eq(role, "executor") {
        None
    } else if d.len() == 1 {
        assert(ds[0] == d@[0] as int);
        assert(cs.contains(ds[0]));
        Some(profiles[d[0]].id)
    } else if d.len() == 0 && c.len() == 1 {
        assert(cs[0] == c@[0] as int);
        Some(profiles[c[0]].id)
    } else {
        None
    }
}

proof fn lemma_launchable_sound(ps: Seq<LaunchProfile>, agent: Id)
    ensures
        forall|k: int|
            0 <= k < launchable(ps, agent).len() ==> {
                let i = #[trigger] launchable(ps, agent)[k];
                &&& 0 <= i < ps.len()
                &&& ps[i].enabled
                &&& ps[i].agent_instance_id == agent
            },
    decreases ps.len(),
{
    if ps.len() > 0 {
        lemma_launchable_sound(ps.drop_last(), agent);
        let prev = launchable(ps.drop_last(), agent);
        let c = launchable(ps, agent);
        assert forall|k: int| 0 <= k < c.len() implies {
            let i = #[trigger] c[k];
            &&& 0 <= i < ps.len()
            &&& ps[i].enabled
            &&& ps[i].agent_instance_id == agent
        } by {
            if k < prev.len() {
                assert(c[k] == prev[k]);
                assert(ps.drop_last()[prev[k]] == ps[prev[k]]);
            }
        }
    }
}

proof fn lemma_launchable_agree(a: Seq<LaunchProfile>, b: Seq<LaunchProfile>, agent: Id)
    requires
        a.len() == b.len(),
        forall|i: int|
            0 <= i < a.len() ==> ((#[trigger] a[i]).enabled && a[i].agent_instance_id == agent)
                == (b[i].enabled && b[i].agent_instance_id == agent),
    ensures
        launchable(a, agent) == launchable(b, agent),
    decreases a.len(),
{
    if a.len() > 0 {
        assert forall|i: int| 0 <= i < a.drop_last().len() implies ((#[trigger] a.drop_last()[i]).enabled
            && a.drop_last()[i].agent_instance_id == agent) == (b.drop_last()[i].enabled
            && b.drop_last()[i].agent_instance_id == agent) by {
            assert(a.drop_last()[i] == a[i] && b.drop_last()[i] == b[i]);
        }
        lemma_launchable_agree(a.drop_last(), b.drop_last(), agent);
        assert(a.last() == a[a.len() - 1] && b.last() == b[b.len() - 1]);
    }
}

proof fn lemma_defaults_agree(a: Seq<LaunchProfile>, b: Seq<LaunchProfile>, c: Seq<int>)
    requires
        forall|j: int|
            0 <= j < c.len() ==> 0 <= #[trigger] c[j] < a.len() && c[j] < b.len() && a[c[j]]
                == b[c[j]],
    ensures
        marked_defaults(a, c) == marked_defaults(b, c),
    decreases c.len(),
{
    if c.len() > 0 {
        assert forall|j: int| 0 <= j < c.drop_last().len() implies 0 <= #[trigger] c.drop_last()[j] < a.len()
            && c.drop_last()[j] < b.len() && a[c.drop_last()[j]] == b[c.drop_last()[j]] by {
            assert(c.drop_last()[j] == c[j]);
        }
        lemma_defaults_agree(a, b, c.drop_last());
        assert(c.last() == c[c.len() - 1]);
    }
}

/// An automatic launch only starts executor assignments, and only ever with an
/// enabled launch profile of the assignment's own agent.
pub proof fn law_auto_launch_uses_an_own_enabled_profile(role: Seq<char>, agent: Id, ps: Seq<LaunchProfile>)
    ensures
        auto_launch_profile_of(role, agent, ps) matches Some(id) ==> role == "executor"@ && exists|
            i: int,
        |
            0 <= i < ps.len() && #[trigger] ps[i].id == id && ps[i].enabled && ps[i].agent_instance_id
                == agent,
{
    let c = launchable(ps, agent);
    let d = marked_defaults(ps, c);
    lemma_launchable_sound(ps, agent);
    lemma_defaults_in_c(ps, c);
    if auto_launch_profile_of(role, agent, ps) is Some {
        if d.len() == 1 {
            assert(c.contains(d[0]));
            let k = choose|k: int| 0 <= k < c.len() && c[k] == d[0];
            assert(c[k] == d[0]);
            let i = d[0];
            assert(ps[i].id == ps[i].id);
        } else {
            assert(c[0] == c[0]);
            let i = c[0];
            assert(ps[i].id == ps[i].id);
        }
    }
}

/// Profiles that the assignment's agent could not launch with (another agent's, or
/// disabled ones) never change which profile an automatic launch uses: neither
/// adding one nor replacing one by another such profile.
pub proof fn law_auto_launch_ignores_other_profiles(
    role: Seq<char>,
    agent: Id,
    ps: Seq<LaunchProfile>,
    p: LaunchProfile,
    i: int,
    q: LaunchProfile,
)
    requires
        !(p.enabled && p.agent_instance_id == agent),
    ensures
        auto_launch_profile_of(role, agent, ps.push(p)) == auto_launch_profile_of(role, agent, ps),
        0 <= i < ps.len() && !(ps[i].enabled && ps[i].agent_instance_id == agent) && !(q.enabled
            && q.agent_instance_id == agent) ==> auto_launch_profile_of(role, agent, ps.update(i, q))
            == auto_launch_profile_of(role, agent, ps),
{
    let pushed = ps.push(p);
    assert(pushed.drop_last() =~= ps);
    assert(launchable(pushed, agent) == launchable(ps, agent));
    let c = launchable(ps, agent);
    lemma_launchable_sound(ps, agent);
    lemma_defaults_agree(pushed, ps, c);
    let d = marked_defaults(ps, c);
    lemma_defaults_in_c(ps, c);
    if d.len() >= 1 {
        assert(c.contains(d[0]));
        let k = choose|k: int| 0 <= k < c.len() && c[k] == d[0];
        assert(0 <= c[k] < ps.len());
        assert(pushed[d[0]] == ps[d[0]]);
    }
    if c.len() >= 1 {
        assert(0 <= c[0] < ps.len());
        assert(pushed[c[0]] == ps[c[0]]);
    }
    if 0 <= i < ps.len() && !(ps[i].enabled && ps[i].agent_instance_id == agent) && !(q.enabled
        && q.agent_instance_id == agent) {
        let u = ps.update(i, q);
        lemma_launchable_agree(u, ps, agent);
        assert forall|j: int| 0 <= j < c.len() implies 0 <= #[trigger] c[j] < u.len() && c[j] < ps.len()
            && u[c[j]] == ps[c[j]] by {
            assert(c[j] != i);
        }
        lemma_defaults_agree(u, ps, c);
        if d.len() >= 1 {
            let k = choose|k: int| 0 <= k < c.len() && c[k] == d[0];
            assert(c[k] != i);
            assert(u[d[0]] == ps[d[0]]);
        }
        if c.len() >= 1 {
            assert(c[0] != i);
            assert(u[c[0]] == ps[c[0]]);
        }
    }
}

} // verus!
