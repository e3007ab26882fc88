//! General properties of a resolution, stated over `resolution`, `requests`
//! and `failures`.
use vstd::prelude::*;
use crate::config::{effective, nothing_enabled, ConfigV, TierSelection};
use crate::outcome::{
    attempted, create_entry, note_entries, plans_for, requests,
    requests_from, resolution, resolve_from, selects, tier_if, tier_outcome, tier_requests,
    try_parents, Event, OutcomeV, RequestV, TierResult,
};
use crate::path::{is_absolute, join, lemma_join_ends_with, lemma_join_keeps_absolute, Platform};
use crate::provider::{fixed, host_valid, tier_plan, var_dirs, HostV, PlanV};
use crate::trail::{attempt_line, rank, render, tier_label, AttemptV, FailureKind, Tier};

verus! {

/// Whether `sub` occurs in `s` as a contiguous run of characters.
pub open spec fn contains(s: Seq<char>, sub: Seq<char>) -> bool {
    exists|i: int| 0 <= i && i + sub.len() <= s.len() && #[trigger] s.subrange(i, i + sub.len()) == sub
}

/// Whether the tiers of `x` stand in strictly increasing priority rank.
pub open spec fn ordered(x: Seq<Tier>) -> bool {
    forall|i: int, j: int| 0 <= i < j < x.len() ==> rank(x[i]) < rank(x[j])
}

proof fn lemma_extend(x: Seq<Tier>, b: bool, t: Tier)
    requires
        ordered(x),
        forall|i: int| 0 <= i < x.len() ==> rank(#[trigger] x[i]) < rank(t),
    ensures
        ordered(x + tier_if(b, t)),
        forall|i: int| 0 <= i < (x + tier_if(b, t)).len() ==> rank(#[trigger] (x + tier_if(b, t))[i]) <= rank(t),
{
}

/// The attempted tiers stand in priority order.
proof fn lemma_attempted_ordered(s: TierSelection)
    ensures
        ordered(attempted(s)),
{
    let a = tier_if(s.application, Tier::Application);
    let u = tier_if(s.user, Tier::User);
    let y = tier_if(s.system, Tier::System);
    let t = tier_if(s.temporary, Tier::Temporary);
    let m = tier_if(s.memory, Tier::Memory);
    lemma_extend(seq![], s.application, Tier::Application);
    assert(Seq::<Tier>::empty() + a =~= a);
    lemma_extend(a, s.user, Tier::User);
    lemma_extend(a + u, s.system, Tier::System);
    lemma_extend(a + u + y, s.temporary, Tier::Temporary);
    lemma_extend(a + u + y + t, s.memory, Tier::Memory);
}

/// Where a selected tier stands among the attempted ones.
proof fn lemma_attempted_has(s: TierSelection, t: Tier) -> (k: int)
    requires
        selects(s, t),
    ensures
        0 <= k < attempted(s).len(),
        attempted(s)[k] == t,
{
    let a = tier_if(s.application, Tier::Application);
    let u = tier_if(s.user, Tier::User);
    let y = tier_if(s.system, Tier::System);
    let tt = tier_if(s.temporary, Tier::Temporary);
    match t {
        Tier::Application => 0,
        Tier::User => a.len() as int,
        Tier::System => (a + u).len() as int,
        Tier::Temporary => (a + u + y).len() as int,
        Tier::Memory => (a + u + y + tt).len() as int,
    }
}

/// A tier's plan is a plan of that tier.
proof fn lemma_plan_tier(p: Platform, t: Tier, c: ConfigV, h: HostV)
    ensures
        tier_plan(p, t, c, h).tier == t,
{
}

/// When tier `k` succeeds, the resolution from `i` ends in a tier `m` no later than `k`.
proof fn lemma_reaches(
    plans: Seq<PlanV>,
    i: int,
    name: Seq<char>,
    p: Platform,
    w: spec_fn(RequestV) -> Event,
    trail: Seq<AttemptV>,
    last: FailureKind,
    k: int,
) -> (m: int)
    requires
        0 <= i <= k < plans.len(),
        tier_outcome(plans[k], name, p, w) is Found,
    ensures
        i <= m <= k,
        tier_outcome(plans[m], name, p, w) is Found,
        resolve_from(plans, i, name, p, w, trail, last) == OutcomeV::Resolved(
            tier_outcome(plans[m], name, p, w)->Found_0,
            plans[m].tier,
        ),
    decreases k - i,
{
    match tier_outcome(plans[i], name, p, w) {
        TierResult::Found(x, _) => i,
        TierResult::Failed(kk, es) => lemma_reaches(plans, i + 1, name, p, w, trail + es, kk, k),
    }
}

/// A resolution that ends in tier `t` with `path` got it from a plan of `t`.
proof fn lemma_source(
    plans: Seq<PlanV>,
    i: int,
    name: Seq<char>,
    p: Platform,
    w: spec_fn(RequestV) -> Event,
    trail: Seq<AttemptV>,
    last: FailureKind,
    path: Seq<char>,
    t: Tier,
) -> (m: int)
    requires
        0 <= i,
        resolve_from(plans, i, name, p, w, trail, last) == OutcomeV::Resolved(path, t),
    ensures
        i <= m < plans.len(),
        plans[m].tier == t,
        tier_outcome(plans[m], name, p, w) is Found,
        tier_outcome(plans[m], name, p, w)->Found_0 == path,
    decreases plans.len() - i,
{
    match tier_outcome(plans[i], name, p, w) {
        TierResult::Found(x, _) => i,
        TierResult::Failed(kk, es) => lemma_source(plans, i + 1, name, p, w, trail + es, kk, path, t),
    }
}

/// Priority order: when tier `a` would succeed on its own, every configuration
/// that attempts `a` resolves in `a` or in a tier of higher priority, and never
/// in a tier after `a`; when it resolves in `a`, it is at `a`'s own path.
pub proof fn lemma_priority_order(
    c: ConfigV,
    p: Platform,
    h: HostV,
    w: spec_fn(RequestV) -> Event,
    a: Tier,
)
    requires
        !is_absolute(p, c.name),
        selects(effective(c), a),
        tier_outcome(tier_plan(p, a, c, h), c.name, p, w) is Found,
    ensures
        resolution(c, p, h, w) is Resolved,
        rank(resolution(c, p, h, w)->Resolved_1) <= rank(a),
        resolution(c, p, h, w)->Resolved_1 == a ==> resolution(c, p, h, w)->Resolved_0
            == tier_outcome(tier_plan(p, a, c, h), c.name, p, w)->Found_0,
{
    let s = effective(c);
    let att = attempted(s);
    let plans = plans_for(p, c, h);
    let k = lemma_attempted_has(s, a);
    lemma_attempted_ordered(s);
    assert(plans[k] == tier_plan(p, a, c, h));
    let m = lemma_reaches(plans, 0, c.name, p, w, seq![], FailureKind::NotFound, k);
    assert(plans[m] == tier_plan(p, att[m], c, h));
    lemma_plan_tier(p, att[m], c, h);
    if m < k {
        assert(rank(att[m]) < rank(att[k]));
    }
}

/// Default tier: a configuration that enables no tier resolves exactly as the
/// same configuration with the user tier enabled.
pub proof fn lemma_default_tier(c: ConfigV, p: Platform, h: HostV, w: spec_fn(RequestV) -> Event)
    requires
        nothing_enabled(c),
    ensures
        resolution(c, p, h, w) == resolution(ConfigV { user: true, ..c }, p, h, w),
{
    let c2 = ConfigV { user: true, ..c };
    assert(effective(c) == effective(c2));
    assert(plans_for(p, c, h) =~= plans_for(p, c2, h));
}

/// The creations of `parent/name` for `parents[j..]`, in order.
pub open spec fn creates(parents: Seq<Seq<char>>, j: int, name: Seq<char>, p: Platform) -> Seq<RequestV>
    decreases parents.len() - j,
{
    if j < 0 || j >= parents.len() {
        seq![]
    } else {
        seq![RequestV::Create(join(p, parents[j], name))] + creates(parents, j + 1, name, p)
    }
}

/// The creations of `parent/name` for every candidate parent of `plans[i..]`,
/// tier after tier.
pub open spec fn all_creates(plans: Seq<PlanV>, i: int, name: Seq<char>, p: Platform) -> Seq<RequestV>
    decreases plans.len() - i,
{
    if i < 0 || i >= plans.len() {
        seq![]
    } else {
        creates(plans[i].parents, 0, name, p) + all_creates(plans, i + 1, name, p)
    }
}

/// Whether `a` is `b` or a start of it.
pub open spec fn is_prefix(a: Seq<RequestV>, b: Seq<RequestV>) -> bool {
    a.len() <= b.len() && b.subrange(0, a.len() as int) == a
}

/// Whether the host answers every request of `s` with a failure.
pub open spec fn all_refused(s: Seq<RequestV>, w: spec_fn(RequestV) -> Event) -> bool {
    forall|k: int| 0 <= k < s.len() ==> w(#[trigger] s[k]) != Event::Created
}

proof fn lemma_prefix_refl(a: Seq<RequestV>)
    ensures
        is_prefix(a, a),
{
    assert(a.subrange(0, a.len() as int) =~= a);
}

proof fn lemma_refused_concat(a: Seq<RequestV>, b: Seq<RequestV>, w: spec_fn(RequestV) -> Event)
    requires
        all_refused(a, w),
        all_refused(b, w),
    ensures
        all_refused(a + b, w),
{
    assert forall|k: int| 0 <= k < (a + b).len() implies w(#[trigger] (a + b)[k]) != Event::Created by {
        if k >= a.len() {
            assert((a + b)[k] == b[k - a.len()]);
        } else {
            assert((a + b)[k] == a[k]);
        }
    }
}

proof fn lemma_last_concat(a: Seq<RequestV>, b: Seq<RequestV>)
    requires
        b.len() > 0,
    ensures
        (a + b).last() == b.last(),
        (a + b).drop_last() == a + b.drop_last(),
{
    assert((a + b).drop_last() =~= a + b.drop_last());
}

proof fn lemma_prefix_extend(a: Seq<RequestV>, b: Seq<RequestV>, c: Seq<RequestV>)
    requires
        is_prefix(a, b),
    ensures
        is_prefix(a, b + c),
{
    assert((b + c).subrange(0, a.len() as int) =~= b.subrange(0, a.len() as int));
}

proof fn lemma_prefix_append(x: Seq<RequestV>, a: Seq<RequestV>, b: Seq<RequestV>)
    requires
        is_prefix(a, b),
    ensures
        is_prefix(x + a, x + b),
{
    assert((x + b).subrange(0, (x + a).len() as int) =~= x + a);
}

/// The requests of one tier's candidate loop.
proof fn lemma_tier_requests(
    t: Tier,
    parents: Seq<Seq<char>>,
    j: int,
    name: Seq<char>,
    p: Platform,
    w: spec_fn(RequestV) -> Event,
    acc: Seq<AttemptV>,
)
    requires
        0 <= j <= parents.len(),
    ensures
        is_prefix(tier_requests(parents, j, name, p, w), creates(parents, j, name, p)),
        try_parents(t, parents, j, name, p, w, acc) is Failed ==> tier_requests(parents, j, name, p, w)
            == creates(parents, j, name, p) && all_refused(tier_requests(parents, j, name, p, w), w),
        try_parents(t, parents, j, name, p, w, acc) is Found ==> ({
            let r = tier_requests(parents, j, name, p, w);
            &&& r.len() > 0
            &&& r.last() == RequestV::Create(try_parents(t, parents, j, name, p, w, acc)->Found_0)
            &&& w(r.last()) == Event::Created
            &&& all_refused(r.drop_last(), w)
        }),
    decreases parents.len() - j,
{
    if j < parents.len() {
        let full = join(p, parents[j], name);
        let ce = w(RequestV::Create(full));
        let head = seq![RequestV::Create(full)];
        let acc2 = acc.push(create_entry(t, full, ce));
        lemma_tier_requests(t, parents, j + 1, name, p, w, acc2);
        let rest = tier_requests(parents, j + 1, name, p, w);
        let crest = creates(parents, j + 1, name, p);
        assert(all_refused(head, w) <==> ce != Event::Created);
        if ce == Event::Created {
            lemma_prefix_refl(head);
            lemma_prefix_extend(head, head, crest);
            assert(head.drop_last() =~= Seq::<RequestV>::empty());
        } else {
            lemma_prefix_append(head, rest, crest);
            if try_parents(t, parents, j + 1, name, p, w, acc2) is Found {
                lemma_last_concat(head, rest);
                lemma_refused_concat(head, rest.drop_last(), w);
            } else {
                lemma_refused_concat(head, rest, w);
            }
        }
    } else {
        assert(creates(parents, j, name, p) =~= Seq::<RequestV>::empty());
        assert(tier_requests(parents, j, name, p, w) =~= Seq::<RequestV>::empty());
        lemma_prefix_refl(Seq::<RequestV>::empty());
    }
}

/// The requests of the tiers from `i` on.
proof fn lemma_requests_from(
    plans: Seq<PlanV>,
    i: int,
    name: Seq<char>,
    p: Platform,
    w: spec_fn(RequestV) -> Event,
    trail: Seq<AttemptV>,
    last: FailureKind,
)
    requires
        0 <= i <= plans.len(),
    ensures
        is_prefix(requests_from(plans, i, name, p, w), all_creates(plans, i, name, p)),
        resolve_from(plans, i, name, p, w, trail, last) is Exhausted ==> requests_from(plans, i, name, p, w)
            == all_creates(plans, i, name, p) && all_refused(requests_from(plans, i, name, p, w), w),
        resolve_from(plans, i, name, p, w, trail, last) is Resolved ==> ({
            let r = requests_from(plans, i, name, p, w);
            &&& r.len() > 0
            &&& r.last() == RequestV::Create(resolve_from(plans, i, name, p, w, trail, last)->Resolved_0)
            &&& w(r.last()) == Event::Created
            &&& all_refused(r.drop_last(), w)
        }),
    decreases plans.len() - i,
{
    if i < plans.len() {
        let plan = plans[i];
        let tr = tier_requests(plan.parents, 0, name, p, w);
        let cr = creates(plan.parents, 0, name, p);
        let rest = requests_from(plans, i + 1, name, p, w);
        let crest = all_creates(plans, i + 1, name, p);
        lemma_tier_requests(plan.tier, plan.parents, 0, name, p, w, note_entries(plan));
        if plan.parents.len() == 0 {
            assert(tr =~= Seq::<RequestV>::empty());
            assert(cr =~= Seq::<RequestV>::empty());
        }
        match tier_outcome(plan, name, p, w) {
            TierResult::Found(x, _) => {
                lemma_prefix_extend(tr, cr, crest);
            },
            TierResult::Failed(k, es) => {
                lemma_requests_from(plans, i + 1, name, p, w, trail + es, k);
                assert(tr == cr);
                lemma_prefix_append(tr, rest, crest);
                if resolve_from(plans, i + 1, name, p, w, trail + es, k) is Resolved {
                    lemma_last_concat(tr, rest);
                    lemma_refused_concat(tr, rest.drop_last(), w);
                } else if resolve_from(plans, i + 1, name, p, w, trail + es, k) is Exhausted {
                    lemma_refused_concat(tr, rest, w);
                }
            },
        }
    } else {
        assert(all_creates(plans, i, name, p) =~= Seq::<RequestV>::empty());
        assert(requests_from(plans, i, name, p, w) =~= Seq::<RequestV>::empty());
        lemma_prefix_refl(Seq::<RequestV>::empty());
    }
}

/// Order of requests: a resolution only ever asks to create `parent/name` for
/// candidate parents of the attempted tiers (never of a disabled tier), in
/// priority order and in each tier's order, each at most once, with no retry;
/// every creation it asks for before the last one failed. When it succeeds at
/// `d`, its last request is the creation of `d` and nothing after it is tried;
/// when it fails, it has tried every candidate of every attempted tier.
pub proof fn lemma_request_order(c: ConfigV, p: Platform, h: HostV, w: spec_fn(RequestV) -> Event)
    ensures
        !is_absolute(p, c.name) ==> is_prefix(requests(c, p, h, w), all_creates(plans_for(p, c, h), 0, c.name, p)),
        is_absolute(p, c.name) ==> resolution(c, p, h, w) is InvalidName && requests(c, p, h, w).len() == 0,
        resolution(c, p, h, w) is Exhausted ==> requests(c, p, h, w) == all_creates(plans_for(p, c, h), 0, c.name, p)
            && all_refused(requests(c, p, h, w), w),
        resolution(c, p, h, w) is Resolved ==> ({
            let r = requests(c, p, h, w);
            &&& r.len() > 0
            &&& r.last() == RequestV::Create(resolution(c, p, h, w)->Resolved_0)
            &&& w(r.last()) == Event::Created
            &&& all_refused(r.drop_last(), w)
        }),
{
    if !is_absolute(p, c.name) {
        lemma_requests_from(plans_for(p, c, h), 0, c.name, p, w, seq![], FailureKind::NotFound);
    }
}

/// A tier that finds a path found `parent/name` for one of its candidate
/// parents, and the host answered `Created` to its creation.
proof fn lemma_tier_found(plan: PlanV, name: Seq<char>, p: Platform, w: spec_fn(RequestV) -> Event) -> (m: int)
    requires
        tier_outcome(plan, name, p, w) is Found,
    ensures
        0 <= m < plan.parents.len(),
        tier_outcome(plan, name, p, w)->Found_0 == join(p, plan.parents[m], name),
        w(RequestV::Create(join(p, plan.parents[m], name))) == Event::Created,
{
    lemma_try_found(plan.tier, plan.parents, 0, name, p, w, note_entries(plan))
}

proof fn lemma_try_found(
    t: Tier,
    parents: Seq<Seq<char>>,
    j: int,
    name: Seq<char>,
    p: Platform,
    w: spec_fn(RequestV) -> Event,
    acc: Seq<AttemptV>,
) -> (m: int)
    requires
        0 <= j,
        try_parents(t, parents, j, name, p, w, acc) is Found,
    ensures
        j <= m < parents.len(),
        try_parents(t, parents, j, name, p, w, acc)->Found_0 == join(p, parents[m], name),
        w(RequestV::Create(join(p, parents[m], name))) == Event::Created,
    decreases parents.len() - j,
{
    let full = join(p, parents[j], name);
    let ce = w(RequestV::Create(full));
    if ce == Event::Created {
        j
    } else {
        lemma_try_found(t, parents, j + 1, name, p, w, acc.push(create_entry(t, full, ce)))
    }
}

/// Idempotence: once a resolution has found `d`, `d` exists as a directory, so
/// a host answers its creation with `Created` again and every other request as
/// before. Resolving the same configuration again then makes the same requests
/// and finds `d` again, in the same tier: an existing directory is a success.
pub proof fn lemma_idempotent(
    c: ConfigV,
    p: Platform,
    h: HostV,
    w: spec_fn(RequestV) -> Event,
    w2: spec_fn(RequestV) -> Event,
    d: Seq<char>,
    t: Tier,
)
    requires
        resolution(c, p, h, w) == OutcomeV::Resolved(d, t),
        w2(RequestV::Create(d)) == Event::Created,
        forall|q: RequestV| q != RequestV::Create(d) ==> #[trigger] w2(q) == w(q),
    ensures
        resolution(c, p, h, w2) == OutcomeV::Resolved(d, t),
        requests(c, p, h, w2) == requests(c, p, h, w),
{
    lemma_request_order(c, p, h, w);
    assert(w2 =~= w);
}

/// Error categories: a resolution that fails for every tier ends with
/// `NotFound` (no candidate could be named) or `PermissionDenied` (candidates
/// existed and none could be created), never another category.
pub proof fn lemma_error_categories(c: ConfigV, p: Platform, h: HostV, w: spec_fn(RequestV) -> Event)
    ensures
        resolution(c, p, h, w) is Exhausted ==> resolution(c, p, h, w)->Exhausted_0 == FailureKind::NotFound
            || resolution(c, p, h, w)->Exhausted_0 == FailureKind::PermissionDenied,
{
    if !is_absolute(p, c.name) {
        lemma_categories_from(plans_for(p, c, h), 0, c.name, p, w, seq![], FailureKind::NotFound);
    }
}

proof fn lemma_try_category(
    t: Tier,
    parents: Seq<Seq<char>>,
    j: int,
    name: Seq<char>,
    p: Platform,
    w: spec_fn(RequestV) -> Event,
    acc: Seq<AttemptV>,
)
    ensures
        try_parents(t, parents, j, name, p, w, acc) is Failed ==> try_parents(t, parents, j, name, p, w, acc)->Failed_0
            == FailureKind::PermissionDenied,
    decreases parents.len() - j,
{
    if 0 <= j < parents.len() {
        let full = join(p, parents[j], name);
        lemma_try_category(t, parents, j + 1, name, p, w, acc.push(create_entry(t, full, w(RequestV::Create(full)))));
    }
}

proof fn lemma_categories_from(
    plans: Seq<PlanV>,
    i: int,
    name: Seq<char>,
    p: Platform,
    w: spec_fn(RequestV) -> Event,
    trail: Seq<AttemptV>,
    last: FailureKind,
)
    requires
        last == FailureKind::NotFound || last == FailureKind::PermissionDenied,
    ensures
        resolve_from(plans, i, name, p, w, trail, last) is Exhausted ==> resolve_from(plans, i, name, p, w, trail, last)->Exhausted_0
            == FailureKind::NotFound || resolve_from(plans, i, name, p, w, trail, last)->Exhausted_0
            == FailureKind::PermissionDenied,
    decreases plans.len() - i,
{
    if 0 <= i < plans.len() {
        let plan = plans[i];
        lemma_try_category(plan.tier, plan.parents, 0, name, p, w, note_entries(plan));
        match tier_outcome(plan, name, p, w) {
            TierResult::Found(_, _) => {},
            TierResult::Failed(k, es) => {
                lemma_categories_from(plans, i + 1, name, p, w, trail + es, k);
            },
        }
    }
}

/// Every candidate parent of a tier is absolute when the host's paths are.
proof fn lemma_parents_absolute(p: Platform, t: Tier, c: ConfigV, h: HostV, x: int)
    requires
        host_valid(p, h),
        0 <= x < tier_plan(p, t, c, h).parents.len(),
    ensures
        is_absolute(p, tier_plan(p, t, c, h).parents[x]),
{
    reveal_strlit("/var/cache");
    reveal_strlit("/Library/Caches");
    reveal_strlit("/var/tmp");
    reveal_strlit("/dev/shm");
    reveal_strlit("/run/shm");
    let par = tier_plan(p, t, c, h).parents[x];
    match t {
        Tier::Application => {
            let d = h.current_dir->Some_0;
            let rel = match c.app_path {
                Some(a) => a,
                None => crate::provider::default_app_dir(p),
            };
            lemma_join_keeps_absolute(p, d, rel);
        },
        Tier::User => {
            if p == Platform::Windows {
                let a = var_dirs(h.local_app_data);
                let b = var_dirs(h.app_data);
                if x >= (a + b).len() {
                    let home = h.home_dir->Some_0;
                    lemma_join_keeps_absolute(Platform::Windows, home, "Cache"@);
                } else if x >= a.len() {
                    assert(par == b[x - a.len()]);
                } else {
                    assert(par == a[x]);
                }
            } else if p != Platform::Unknown {
                match h.home_dir {
                    Some(home) => if home.len() > 0 {
                        lemma_join_keeps_absolute(p, home, crate::provider::home_cache_dir(p));
                    },
                    None => {},
                }
            }
        },
        _ => {},
    }
}

/// Absolute results: when every path the host gives is absolute, a resolution
/// that succeeds ends at an absolute path that ends with the cache name.
pub proof fn lemma_result_absolute(c: ConfigV, p: Platform, h: HostV, w: spec_fn(RequestV) -> Event)
    requires
        host_valid(p, h),
    ensures
        resolution(c, p, h, w) is Resolved ==> ({
            let d = resolution(c, p, h, w)->Resolved_0;
            &&& is_absolute(p, d)
            &&& d.len() >= c.name.len()
            &&& d.subrange(d.len() - c.name.len(), d.len() as int) == c.name
        }),
{
    let r = resolution(c, p, h, w);
    if r is Resolved {
        let plans = plans_for(p, c, h);
        let s = effective(c);
        let m = lemma_source(plans, 0, c.name, p, w, seq![], FailureKind::NotFound, r->Resolved_0, r->Resolved_1);
        let x = lemma_tier_found(plans[m], c.name, p, w);
        assert(plans[m] == tier_plan(p, attempted(s)[m], c, h));
        lemma_parents_absolute(p, attempted(s)[m], c, h, x);
        lemma_join_keeps_absolute(p, plans[m].parents[x], c.name);
        lemma_join_ends_with(p, plans[m].parents[x], c.name);
    }
}

/// Override precedence: with a location `q` set for the application tier and
/// that tier enabled, the application tier is tried first, with `q` (under the
/// current directory `cwd`) as its only parent. A resolution that ends in the
/// application tier ends at `cwd/q/name`; and when the host creates
/// `cwd/q/name`, the resolution ends there after that single request, whatever
/// other tiers are enabled, so no directory of another tier is touched.
pub proof fn lemma_override_precedence(
    c: ConfigV,
    p: Platform,
    h: HostV,
    w: spec_fn(RequestV) -> Event,
    q: Seq<char>,
    cwd: Seq<char>,
)
    requires
        c.app_path == Some(q),
        c.app,
        h.current_dir == Some(cwd),
        p != Platform::Unknown,
    ensures
        resolution(c, p, h, w) is Resolved && resolution(c, p, h, w)->Resolved_1 == Tier::Application
            ==> resolution(c, p, h, w)->Resolved_0 == join(p, join(p, cwd, q), c.name),
        !is_absolute(p, c.name) && w(RequestV::Create(join(p, join(p, cwd, q), c.name))) == Event::Created
            ==> resolution(c, p, h, w) == OutcomeV::Resolved(join(p, join(p, cwd, q), c.name), Tier::Application)
            && requests(c, p, h, w) == seq![RequestV::Create(join(p, join(p, cwd, q), c.name))],
{
    let s = effective(c);
    let att = attempted(s);
    let plans = plans_for(p, c, h);
    let base = join(p, cwd, q);
    lemma_attempted_ordered(s);
    let k0 = lemma_attempted_has(s, Tier::Application);
    assert(att[0] == Tier::Application);
    assert(plans[0] == fixed(Tier::Application, seq![base]));
    if !is_absolute(p, c.name) {
        let r = resolution(c, p, h, w);
        if r is Resolved && r->Resolved_1 == Tier::Application {
            let m = lemma_source(plans, 0, c.name, p, w, seq![], FailureKind::NotFound, r->Resolved_0, Tier::Application);
            assert(plans[m] == tier_plan(p, att[m], c, h));
            lemma_plan_tier(p, att[m], c, h);
            if m > 0 {
                assert(rank(att[0]) < rank(att[m]));
            }
            let x = lemma_tier_found(plans[0], c.name, p, w);
        }
        let full = join(p, base, c.name);
        if w(RequestV::Create(full)) == Event::Created {
            assert(tier_outcome(plans[0], c.name, p, w) == TierResult::Found(full, note_entries(plans[0])));
            assert(requests_from(plans, 0, c.name, p, w) =~= seq![RequestV::Create(full)]);
        }
    }
}

/// A candidate loop over a non-empty rest of candidates that fails adds at
/// least one entry of its tier after `acc`.
proof fn lemma_try_failed(
    t: Tier,
    parents: Seq<Seq<char>>,
    j: int,
    name: Seq<char>,
    p: Platform,
    w: spec_fn(RequestV) -> Event,
    acc: Seq<AttemptV>,
)
    requires
        0 <= j < parents.len(),
        try_parents(t, parents, j, name, p, w, acc) is Failed,
    ensures
        ({
            let es = try_parents(t, parents, j, name, p, w, acc)->Failed_1;
            &&& es.len() > acc.len()
            &&& es.subrange(0, acc.len() as int) == acc
            &&& es[acc.len() as int].tier == t
        }),
    decreases parents.len() - j,
{
    let full = join(p, parents[j], name);
    let acc2 = acc.push(create_entry(t, full, w(RequestV::Create(full))));
    if j + 1 < parents.len() {
        lemma_try_failed(t, parents, j + 1, name, p, w, acc2);
        let es = try_parents(t, parents, j + 1, name, p, w, acc2)->Failed_1;
        assert(es.subrange(0, acc.len() as int) =~= es.subrange(0, acc2.len() as int).subrange(0, acc.len() as int));
        assert(es[acc.len() as int] == es.subrange(0, acc2.len() as int)[acc.len() as int]);
    } else {
        assert(acc2.subrange(0, acc.len() as int) =~= acc);
    }
}

/// A tier that fails leaves at least one entry of its own tier.
proof fn lemma_tier_failed(plan: PlanV, name: Seq<char>, p: Platform, w: spec_fn(RequestV) -> Event)
    requires
        tier_outcome(plan, name, p, w) is Failed,
    ensures
        exists|x: int| 0 <= x < tier_outcome(plan, name, p, w)->Failed_1.len()
            && (#[trigger] tier_outcome(plan, name, p, w)->Failed_1[x]).tier == plan.tier,
{
    let es = tier_outcome(plan, name, p, w)->Failed_1;
    if plan.parents.len() == 0 {
        assert(es[es.len() - 1].tier == plan.tier);
    } else {
        lemma_try_failed(plan.tier, plan.parents, 0, name, p, w, note_entries(plan));
        assert(es[note_entries(plan).len() as int].tier == plan.tier);
    }
}

/// A resolution from tier `i` that fails keeps `trail` at the start of its own
/// trail and adds an entry for every tier from `i` on.
proof fn lemma_exhausted(
    plans: Seq<PlanV>,
    i: int,
    name: Seq<char>,
    p: Platform,
    w: spec_fn(RequestV) -> Event,
    trail: Seq<AttemptV>,
    last: FailureKind,
)
    requires
        0 <= i,
        resolve_from(plans, i, name, p, w, trail, last) is Exhausted,
    ensures
        ({
            let all = resolve_from(plans, i, name, p, w, trail, last)->Exhausted_1;
            &&& all.len() >= trail.len()
            &&& all.subrange(0, trail.len() as int) == trail
            &&& forall|m: int| i <= m < plans.len() ==> exists|x: int| 0 <= x < all.len() && (#[trigger] all[x]).tier == (#[trigger] plans[m]).tier
        }),
    decreases plans.len() - i,
{
    if i < plans.len() {
        let tr = tier_outcome(plans[i], name, p, w);
        let es = tr->Failed_1;
        let k = tr->Failed_0;
        lemma_exhausted(plans, i + 1, name, p, w, trail + es, k);
        lemma_tier_failed(plans[i], name, p, w);
        let all = resolve_from(plans, i, name, p, w, trail, last)->Exhausted_1;
        assert(all.subrange(0, trail.len() as int) =~= all.subrange(0, (trail + es).len() as int).subrange(0, trail.len() as int));
        let x0 = choose|x: int| 0 <= x < es.len() && (#[trigger] es[x]).tier == plans[i].tier;
        assert(all[trail.len() + x0] == all.subrange(0, (trail + es).len() as int)[trail.len() + x0]);
        assert(all[trail.len() + x0].tier == plans[i].tier);
    } else {
        assert(resolve_from(plans, i, name, p, w, trail, last)->Exhausted_1.subrange(0, trail.len() as int) =~= trail);
    }
}

/// The text of the first `n` attempts of a trail begins the text of the trail.
proof fn lemma_render_prefix(s: Seq<AttemptV>, n: int)
    requires
        0 <= n <= s.len(),
    ensures
        render(s.subrange(0, n)).len() <= render(s).len(),
        render(s).subrange(0, render(s.subrange(0, n)).len() as int) == render(s.subrange(0, n)),
    decreases s.len() - n,
{
    if n == s.len() {
        assert(s.subrange(0, n) =~= s);
    } else {
        let d = s.drop_last();
        assert(d.subrange(0, n) =~= s.subrange(0, n));
        lemma_render_prefix(d, n);
        assert(render(s) == render(d) + attempt_line(s.last()));
        assert(render(s).subrange(0, render(d).len() as int) =~= render(d));
        assert(render(s).subrange(0, render(s.subrange(0, n)).len() as int)
            =~= render(d).subrange(0, render(s.subrange(0, n)).len() as int));
    }
}

/// The text of a trail holds the label of every attempt's tier.
proof fn lemma_render_mentions(s: Seq<AttemptV>, x: int)
    requires
        0 <= x < s.len(),
    ensures
        contains(render(s), tier_label(s[x].tier)),
{
    reveal_strlit("\n");
    let pre = s.subrange(0, x + 1);
    lemma_render_prefix(s, x + 1);
    assert(pre.drop_last() =~= s.subrange(0, x));
    let head = render(s.subrange(0, x));
    let line = attempt_line(s[x]);
    assert(render(pre) == head + line);
    let lab = tier_label(s[x].tier);
    let at: int = head.len() as int + 1;
    let n: int = lab.len() as int;
    assert(line.subrange(1, 1 + lab.len() as int) =~= lab);
    assert(render(s).subrange(at, at + n) =~= render(pre).subrange(at, at + n));
    assert(render(pre).subrange(at, at + n) =~= line.subrange(1, 1 + lab.len() as int));
    assert(render(s).subrange(at, at + n) == lab);
}

/// Exhaustion: when every attempted tier fails, the diagnostic text holds a
/// line with the label of each attempted tier.
pub proof fn lemma_exhaustion_mentions_tiers(
    c: ConfigV,
    p: Platform,
    h: HostV,
    w: spec_fn(RequestV) -> Event,
    k: FailureKind,
    trail: Seq<AttemptV>,
    t: Tier,
)
    requires
        resolution(c, p, h, w) == OutcomeV::Exhausted(k, trail),
        selects(effective(c), t),
    ensures
        contains(render(trail), tier_label(t)),
{
    let s = effective(c);
    let plans = plans_for(p, c, h);
    let m = lemma_attempted_has(s, t);
    lemma_plan_tier(p, t, c, h);
    assert(plans[m] == tier_plan(p, t, c, h));
    lemma_exhausted(plans, 0, c.name, p, w, seq![], FailureKind::NotFound);
    let x = choose|x: int| 0 <= x < trail.len() && (#[trigger] trail[x]).tier == plans[m].tier;
    lemma_render_mentions(trail, x);
}

} // verus!
