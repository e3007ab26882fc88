//! What a resolution returns, and the specification of the whole resolution.
use vstd::prelude::*;
use crate::config::{effective, ConfigV, TierSelection};
use crate::path::{is_absolute, join, Platform};
use crate::provider::{tier_plan, HostV, PlanV};
use crate::trail::{render, views, Attempt, AttemptV, FailureKind, ReasonV, Tier};

verus! {

/// A filesystem request that the host carries out for a resolution.
pub enum RequestV {
    /// Create the directory and all its missing ancestors.
    Create(Seq<char>),
}

/// The host's answer to a request.
#[derive(Clone, Copy, Debug, PartialEq, Eq, Structural)]
pub enum Event {
    /// The directory exists now (it was created, or it was there already).
    Created,
    /// Creating the directory failed, with this category.
    Failed(FailureKind),
}

/// The category of a failed creation.
pub open spec fn fail_kind(e: Event) -> FailureKind {
    match e {
        Event::Failed(k) => k,
        _ => FailureKind::Other,
    }
}

/// What a resolution ends with.
pub enum OutcomeV {
    /// The directory at this path exists; it was found in this tier.
    Resolved(Seq<char>, Tier),
    /// Every attempted tier failed: the category of the last one, and the trail.
    Exhausted(FailureKind, Seq<AttemptV>),
    /// The cache name is an absolute path.
    InvalidName,
}

/// What one tier ends with, and the entries it recorded.
pub enum TierResult {
    Found(Seq<char>, Seq<AttemptV>),
    Failed(FailureKind, Seq<AttemptV>),
}

/// A trail entry.
pub open spec fn entry(t: Tier, k: FailureKind, r: ReasonV) -> AttemptV {
    AttemptV { tier: t, kind: k, reason: r }
}

/// The trail entry of a creation that failed: the host's category, and the path.
pub open spec fn create_entry(t: Tier, full: Seq<char>, e: Event) -> AttemptV {
    entry(t, fail_kind(e), ReasonV::CreateFailed(full))
}

/// Tries `parents[j..]` in order, `acc` holding the entries so far: for each
/// parent, `parent/name` is created with all its missing ancestors. The first
/// creation that succeeds ends the tier; when none does, the tier fails with
/// `PermissionDenied`.
pub open spec fn try_parents(
    t: Tier,
    parents: Seq<Seq<char>>,
    j: int,
    name: Seq<char>,
    p: Platform,
    w: spec_fn(RequestV) -> Event,
    acc: Seq<AttemptV>,
) -> TierResult
    decreases parents.len() - j,
{
    if j < 0 || j >= parents.len() {
        TierResult::Failed(FailureKind::PermissionDenied, acc)
    } else {
        let full = join(p, parents[j], name);
        let ce = w(RequestV::Create(full));
        if ce == Event::Created {
            TierResult::Found(full, acc)
        } else {
            try_parents(t, parents, j + 1, name, p, w, acc.push(create_entry(t, full, ce)))
        }
    }
}

/// The requests that `try_parents` makes, in order.
pub open spec fn tier_requests(
    parents: Seq<Seq<char>>,
    j: int,
    name: Seq<char>,
    p: Platform,
    w: spec_fn(RequestV) -> Event,
) -> Seq<RequestV>
    decreases parents.len() - j,
{
    if j < 0 || j >= parents.len() {
        seq![]
    } else {
        let full = join(p, parents[j], name);
        if w(RequestV::Create(full)) == Event::Created {
            seq![RequestV::Create(full)]
        } else {
            seq![RequestV::Create(full)] + tier_requests(parents, j + 1, name, p, w)
        }
    }
}

/// The plan's notes as trail entries.
pub open spec fn note_entries(plan: PlanV) -> Seq<AttemptV> {
    plan.notes.map_values(|r: ReasonV| entry(plan.tier, FailureKind::NotFound, r))
}

/// What a tier ends with when the host answers as `w` does: a tier without
/// candidates fails with `NotFound`, otherwise its candidates are tried.
pub open spec fn tier_outcome(plan: PlanV, name: Seq<char>, p: Platform, w: spec_fn(RequestV) -> Event) -> TierResult {
    if plan.parents.len() == 0 {
        TierResult::Failed(
            FailureKind::NotFound,
            note_entries(plan).push(entry(plan.tier, FailureKind::NotFound, ReasonV::NoCandidates)),
        )
    } else {
        try_parents(plan.tier, plan.parents, 0, name, p, w, note_entries(plan))
    }
}

/// Tiers `plans[i..]` in order, after a trail `trail` whose last tier failed with `last`.
pub open spec fn resolve_from(
    plans: Seq<PlanV>,
    i: int,
    name: Seq<char>,
    p: Platform,
    w: spec_fn(RequestV) -> Event,
    trail: Seq<AttemptV>,
    last: FailureKind,
) -> OutcomeV
    decreases plans.len() - i,
{
    if i < 0 || i >= plans.len() {
        OutcomeV::Exhausted(last, trail)
    } else {
        match tier_outcome(plans[i], name, p, w) {
            TierResult::Found(path, _) => OutcomeV::Resolved(path, plans[i].tier),
            TierResult::Failed(k, es) => resolve_from(plans, i + 1, name, p, w, trail + es, k),
        }
    }
}

/// How the resolution goes on once tier `plans[i]` ended with `r`.
pub open spec fn finish_tier(
    plans: Seq<PlanV>,
    i: int,
    name: Seq<char>,
    p: Platform,
    w: spec_fn(RequestV) -> Event,
    trail: Seq<AttemptV>,
    r: TierResult,
) -> OutcomeV {
    match r {
        TierResult::Found(path, _) => OutcomeV::Resolved(path, plans[i].tier),
        TierResult::Failed(k, es) => resolve_from(plans, i + 1, name, p, w, trail + es, k),
    }
}

/// The requests that tiers `plans[i..]` make, in order.
pub open spec fn requests_from(
    plans: Seq<PlanV>,
    i: int,
    name: Seq<char>,
    p: Platform,
    w: spec_fn(RequestV) -> Event,
) -> Seq<RequestV>
    decreases plans.len() - i,
{
    if i < 0 || i >= plans.len() {
        seq![]
    } else if tier_outcome(plans[i], name, p, w) is Found {
        tier_requests(plans[i].parents, 0, name, p, w)
    } else {
        tier_requests(plans[i].parents, 0, name, p, w) + requests_from(plans, i + 1, name, p, w)
    }
}

/// Every failed attempt that tiers `plans[i..]` record after `trail`, up to
/// the end of the resolution (on a success, those before it).
pub open spec fn failures_from(
    plans: Seq<PlanV>,
    i: int,
    name: Seq<char>,
    p: Platform,
    w: spec_fn(RequestV) -> Event,
    trail: Seq<AttemptV>,
) -> Seq<AttemptV>
    decreases plans.len() - i,
{
    if i < 0 || i >= plans.len() {
        trail
    } else {
        match tier_outcome(plans[i], name, p, w) {
            TierResult::Found(_, es) => trail + es,
            TierResult::Failed(_, es) => failures_from(plans, i + 1, name, p, w, trail + es),
        }
    }
}

/// Whether a selection attempts tier `t`.
pub open spec fn selects(s: TierSelection, t: Tier) -> bool {
    match t {
        Tier::Application => s.application,
        Tier::User => s.user,
        Tier::System => s.system,
        Tier::Temporary => s.temporary,
        Tier::Memory => s.memory,
    }
}

/// `t` alone when `b` holds, nothing otherwise.
pub open spec fn tier_if(b: bool, t: Tier) -> Seq<Tier> {
    if b { seq![t] } else { seq![] }
}

/// The tiers a selection attempts, in priority order.
pub open spec fn attempted(s: TierSelection) -> Seq<Tier> {
    tier_if(s.application, Tier::Application) + tier_if(s.user, Tier::User) + tier_if(s.system, Tier::System)
        + tier_if(s.temporary, Tier::Temporary) + tier_if(s.memory, Tier::Memory)
}

/// The plans of `tiers`, in their order.
pub open spec fn plans_of(p: Platform, c: ConfigV, h: HostV, tiers: Seq<Tier>) -> Seq<PlanV> {
    tiers.map_values(|t: Tier| tier_plan(p, t, c, h))
}

/// The plans of the attempted tiers, in priority order.
pub open spec fn plans_for(p: Platform, c: ConfigV, h: HostV) -> Seq<PlanV> {
    plans_of(p, c, h, attempted(effective(c)))
}

/// Planning two runs of tiers is planning each.
pub proof fn lemma_plans_of_add(p: Platform, c: ConfigV, h: HostV, a: Seq<Tier>, b: Seq<Tier>)
    ensures
        plans_of(p, c, h, a + b) == plans_of(p, c, h, a) + plans_of(p, c, h, b),
{
    assert(plans_of(p, c, h, a + b) =~= plans_of(p, c, h, a) + plans_of(p, c, h, b));
}

/// What resolving `c` on platform `p`, with host values `h`, ends with when the
/// host answers every filesystem request as `w` does.
pub open spec fn resolution(c: ConfigV, p: Platform, h: HostV, w: spec_fn(RequestV) -> Event) -> OutcomeV {
    if is_absolute(p, c.name) {
        OutcomeV::InvalidName
    } else {
        resolve_from(plans_for(p, c, h), 0, c.name, p, w, seq![], FailureKind::NotFound)
    }
}

/// The filesystem requests that resolving `c` makes, in order, when the host
/// answers as `w` does.
pub open spec fn requests(c: ConfigV, p: Platform, h: HostV, w: spec_fn(RequestV) -> Event) -> Seq<RequestV> {
    if is_absolute(p, c.name) {
        seq![]
    } else {
        requests_from(plans_for(p, c, h), 0, c.name, p, w)
    }
}

/// The failed attempts that resolving `c` records, in order, when the host
/// answers as `w` does; on a success, those that came before it.
pub open spec fn failures(c: ConfigV, p: Platform, h: HostV, w: spec_fn(RequestV) -> Event) -> Seq<AttemptV> {
    if is_absolute(p, c.name) {
        seq![]
    } else {
        failures_from(plans_for(p, c, h), 0, c.name, p, w, seq![])
    }
}

/// The standard library's owned path, carried through without being read.
#[verifier::external_type_specification]
#[verifier::external_body]
pub struct ExPathBuf(std::path::PathBuf);

/// Relies on `PathBuf::from(String)`, which takes the string over as a path
/// without looking at it.
#[verifier::external_body]
fn path_buf_from(s: String) -> std::path::PathBuf {
    std::path::PathBuf::from(s)
}

/// The directory a resolution found.
#[derive(Clone, Debug, PartialEq, Eq, Hash, PartialOrd, Ord)]
pub struct CacheDir {
    path: String,
    tier: Tier,
}

impl View for CacheDir {
    type V = (Seq<char>, Tier);

    closed spec fn view(&self) -> (Seq<char>, Tier) {
        (self.path@, self.tier)
    }
}

impl CacheDir {
    pub(crate) fn found(path: String, tier: Tier) -> (r: CacheDir)
        ensures
            r@ == (path@, tier),
    {
        CacheDir { path, tier }
    }

    /// The directory's path.
    pub fn path(&self) -> (r: &str)
        ensures
            r@ == self@.0,
    {
        self.path.as_str()
    }

    /// The tier in which the directory was found.
    pub fn tier(&self) -> (r: Tier)
        ensures
            r == self@.1,
    {
        self.tier
    }

    /// The directory's path, as a `PathBuf`.
    pub fn into_path_buf(self) -> std::path::PathBuf {
        path_buf_from(self.path)
    }

    /// The directory's path, as an owned string.
    pub fn into_string(self) -> (r: String)
        ensures
            r@ == self@.0,
    {
        self.path
    }
}

/// Why a resolution failed.
#[derive(Clone, Debug)]
pub enum CacheDirError {
    /// The cache name is an absolute path.
    InvalidName,
    /// Every attempted tier failed.
    Exhausted { kind: FailureKind, attempts: Vec<Attempt> },
}

/// The view of a resolution's result.
pub open spec fn outcome_of(r: Result<CacheDir, CacheDirError>) -> OutcomeV {
    match r {
        Ok(d) => OutcomeV::Resolved(d@.0, d@.1),
        Err(CacheDirError::InvalidName) => OutcomeV::InvalidName,
        Err(CacheDirError::Exhausted { kind, attempts }) => OutcomeV::Exhausted(kind, views(attempts@)),
    }
}

/// The diagnostic text of a failed resolution.
pub open spec fn error_message(e: CacheDirError) -> Seq<char> {
    match e {
        CacheDirError::InvalidName => "The cache name must be a relative path"@,
        CacheDirError::Exhausted { kind, attempts } => render(views(attempts@)),
    }
}

impl CacheDirError {
    /// The category of the failure: that of the last attempted tier.
    pub fn kind(&self) -> (r: FailureKind)
        ensures
            r == match self {
                CacheDirError::InvalidName => FailureKind::InvalidInput,
                CacheDirError::Exhausted { kind, .. } => *kind,
            },
    {
        match self {
            CacheDirError::InvalidName => FailureKind::InvalidInput,
            CacheDirError::Exhausted { kind, .. } => *kind,
        }
    }

    /// The diagnostic text: one line per failed attempt, in attempt order.
    pub fn message(&self) -> (r: String)
        ensures
            r@ == error_message(*self),
    {
        match self {
            CacheDirError::InvalidName => String::from_str("The cache name must be a relative path"),
            CacheDirError::Exhausted { attempts, .. } => crate::trail::render_trail(attempts),
        }
    }
}

} // verus!
