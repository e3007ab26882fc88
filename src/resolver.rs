//! The resolution as a state machine that asks the host for one filesystem
//! request at a time.
use vstd::prelude::*;
use crate::config::CacheDirConfig;
use crate::outcome::{
    create_entry, entry, fail_kind, failures, failures_from, finish_tier, lemma_plans_of_add,
    note_entries, outcome_of, plans_for, plans_of, requests, requests_from, resolution,
    resolve_from, tier_if, tier_outcome, tier_requests, try_parents, CacheDir, CacheDirError,
    Event, OutcomeV, RequestV, TierResult,
};
use crate::path::{is_absolute, join, join_path, path_is_absolute, Platform};
use crate::laws::{lemma_error_categories, lemma_result_absolute};
use crate::provider::{host_valid, plan_tier, plan_views, strs, HostPaths, PlanV, TierPlan};
use crate::trail::{views, Attempt, AttemptV, FailureKind, Reason, ReasonV, Tier};

verus! {

/// A filesystem request for the host.
#[derive(Clone, Debug)]
pub enum Request {
    /// Create the directory with all its missing ancestors, and answer
    /// `Created` when it exists afterwards (also when it existed before), or
    /// `Failed` with the category of the failure.
    Create(String),
}

impl View for Request {
    type V = RequestV;

    open spec fn view(&self) -> RequestV {
        match self {
            Request::Create(p) => RequestV::Create(p@),
        }
    }
}

#[derive(Clone, Copy, PartialEq, Eq, Structural)]
enum Stage {
    Create(usize),
    Found,
    Exhausted,
    Invalid,
}

/// An upper bound on the requests one tier can make.
pub open spec fn plan_cost(plan: PlanV) -> nat {
    1 + plan.parents.len()
}

/// An upper bound on the requests the tiers `plans[i..]` can make.
pub open spec fn cost_from(plans: Seq<PlanV>, i: int) -> nat
    decreases plans.len() - i,
{
    if i < 0 || i >= plans.len() {
        0
    } else {
        plan_cost(plans[i]) + cost_from(plans, i + 1)
    }
}

proof fn lemma_cost_monotone(plans: Seq<PlanV>, i: int, k: int)
    requires
        0 <= i <= k,
    ensures
        cost_from(plans, k) <= cost_from(plans, i),
    decreases k - i,
{
    if i < k {
        lemma_cost_monotone(plans, i + 1, k);
    }
}

/// A resolution in progress.
///
/// `next_request` tells what the host should do; `advance` takes its answer.
/// Once `next_request` returns `None`, `into_result` gives the outcome.
pub struct Resolver {
    platform: Platform,
    name: String,
    plans: Vec<TierPlan>,
    tier: usize,
    stage: Stage,
    entries: Vec<Attempt>,
    trail: Vec<Attempt>,
    last: FailureKind,
    found: String,
}

impl Resolver {
    closed spec fn plans_v(&self) -> Seq<PlanV> {
        plan_views(self.plans@)
    }

    closed spec fn current(&self) -> PlanV {
        self.plans_v()[self.tier as int]
    }

    closed spec fn same_setup(&self, o: &Resolver) -> bool {
        &&& self.platform == o.platform
        &&& self.name@ == o.name@
        &&& self.plans_v() == o.plans_v()
    }

    /// Whether the state is consistent.
    pub closed spec fn wf(&self) -> bool {
        match self.stage {
            Stage::Create(j) => self.tier < self.plans@.len() && j < self.current().parents.len(),
            Stage::Found => self.tier < self.plans@.len(),
            Stage::Exhausted => self.entries@.len() == 0,
            Stage::Invalid => self.entries@.len() == 0 && self.trail@.len() == 0,
        }
    }

    /// Whether the resolution has ended.
    pub closed spec fn is_done(&self) -> bool {
        !(self.stage is Create)
    }

    /// The request the host should carry out next.
    pub closed spec fn request(&self) -> Option<RequestV> {
        match self.stage {
            Stage::Create(j) => Some(
                RequestV::Create(join(self.platform, self.current().parents[j as int], self.name@)),
            ),
            _ => None,
        }
    }

    /// What the current tier ends with when the host answers as `w` does.
    closed spec fn tier_rest(&self, w: spec_fn(RequestV) -> Event) -> TierResult {
        match self.stage {
            Stage::Create(j) => try_parents(
                self.current().tier,
                self.current().parents,
                j as int,
                self.name@,
                self.platform,
                w,
                views(self.entries@),
            ),
            _ => TierResult::Failed(self.last, views(self.entries@)),
        }
    }

    /// What the resolution ends with when the host answers as `w` does from now on.
    pub closed spec fn pending(&self, w: spec_fn(RequestV) -> Event) -> OutcomeV {
        match self.stage {
            Stage::Create(_) => finish_tier(
                self.plans_v(),
                self.tier as int,
                self.name@,
                self.platform,
                w,
                views(self.trail@),
                self.tier_rest(w),
            ),
            Stage::Found => OutcomeV::Resolved(self.found@, self.current().tier),
            Stage::Exhausted => OutcomeV::Exhausted(self.last, views(self.trail@)),
            Stage::Invalid => OutcomeV::InvalidName,
        }
    }

    /// The requests the host will be asked for from now on, in order, when it
    /// answers as `w` does.
    pub closed spec fn requests_left(&self, w: spec_fn(RequestV) -> Event) -> Seq<RequestV> {
        match self.stage {
            Stage::Create(j) => tier_requests(self.current().parents, j as int, self.name@, self.platform, w)
                + if self.tier_rest(w) is Found {
                seq![]
            } else {
                requests_from(self.plans_v(), self.tier + 1, self.name@, self.platform, w)
            },
            _ => seq![],
        }
    }

    /// The failed attempts recorded when the resolution ends, in order, when
    /// the host answers as `w` does from now on.
    pub closed spec fn trail_at_end(&self, w: spec_fn(RequestV) -> Event) -> Seq<AttemptV> {
        match self.stage {
            Stage::Create(_) => match self.tier_rest(w) {
                TierResult::Found(_, es) => views(self.trail@) + es,
                TierResult::Failed(_, es) => failures_from(
                    self.plans_v(),
                    self.tier + 1,
                    self.name@,
                    self.platform,
                    w,
                    views(self.trail@) + es,
                ),
            },
            _ => self.recorded(),
        }
    }

    /// The failed attempts recorded so far, in attempt order.
    pub closed spec fn recorded(&self) -> Seq<AttemptV> {
        views(self.trail@) + views(self.entries@)
    }

    /// An upper bound on the requests left before the resolution ends.
    pub closed spec fn steps_left(&self) -> nat {
        match self.stage {
            Stage::Create(j) => (self.current().parents.len() - j + cost_from(self.plans_v(), self.tier + 1)) as nat,
            _ => 0,
        }
    }

    /// The failed attempts so far, in attempt order: after a success, those
    /// that came before it.
    pub fn attempts(&self) -> (r: Vec<Attempt>)
        requires
            self.wf(),
        ensures
            views(r@) == self.recorded(),
            self.is_done() ==> forall|w: spec_fn(RequestV) -> Event| #[trigger] self.trail_at_end(w) == views(r@),
    {
        let mut r: Vec<Attempt> = Vec::new();
        copy_attempts(&self.trail, &mut r);
        copy_attempts(&self.entries, &mut r);
        assert(views(r@) =~= self.recorded());
        r
    }

    /// Ends the current tier with category `k`, moving its entries to the
    /// trail, and enters the next tier.
    fn fail_tier(&mut self, k: FailureKind)
        requires
            old(self).tier < old(self).plans@.len(),
        ensures
            final(self).wf(),
            final(self).same_setup(old(self)),
            forall|w: spec_fn(RequestV) -> Event| #[trigger] final(self).pending(w) == resolve_from(
                old(self).plans_v(),
                old(self).tier + 1,
                old(self).name@,
                old(self).platform,
                w,
                views(old(self).trail@) + views(old(self).entries@),
                k,
            ),
            forall|w: spec_fn(RequestV) -> Event| #[trigger] final(self).requests_left(w) == requests_from(
                old(self).plans_v(),
                old(self).tier + 1,
                old(self).name@,
                old(self).platform,
                w,
            ),
            forall|w: spec_fn(RequestV) -> Event| #[trigger] final(self).trail_at_end(w) == failures_from(
                old(self).plans_v(),
                old(self).tier + 1,
                old(self).name@,
                old(self).platform,
                w,
                views(old(self).trail@) + views(old(self).entries@),
            ),
            final(self).steps_left() <= cost_from(old(self).plans_v(), old(self).tier + 1),
    {
        let ghost t0 = self.trail@;
        let ghost e0 = self.entries@;
        self.trail.append(&mut self.entries);
        assert(views(self.trail@) =~= views(t0) + views(e0));
        self.last = k;
        // Reading the length bounds the tier index by `usize::MAX`.
        let _tiers = self.plans.len();
        self.tier = self.tier + 1;
        self.enter_tier();
    }

    /// Starts the tier at `self.tier`, or ends the resolution when no tier is left.
    fn enter_tier(&mut self)
        requires
            old(self).tier <= old(self).plans@.len(),
            old(self).entries@.len() == 0,
        ensures
            final(self).wf(),
            final(self).same_setup(old(self)),
            forall|w: spec_fn(RequestV) -> Event| #[trigger] final(self).pending(w) == resolve_from(
                old(self).plans_v(),
                old(self).tier as int,
                old(self).name@,
                old(self).platform,
                w,
                views(old(self).trail@),
                old(self).last,
            ),
            forall|w: spec_fn(RequestV) -> Event| #[trigger] final(self).requests_left(w) == requests_from(
                old(self).plans_v(),
                old(self).tier as int,
                old(self).name@,
                old(self).platform,
                w,
            ),
            forall|w: spec_fn(RequestV) -> Event| #[trigger] final(self).trail_at_end(w) == failures_from(
                old(self).plans_v(),
                old(self).tier as int,
                old(self).name@,
                old(self).platform,
                w,
                views(old(self).trail@),
            ),
            final(self).steps_left() <= cost_from(old(self).plans_v(), old(self).tier as int),
    {
        let ghost s0 = *self;
        loop
            invariant
                s0 == *old(self),
                self.tier <= self.plans@.len(),
                self.entries@.len() == 0,
                self.same_setup(&s0),
                forall|w: spec_fn(RequestV) -> Event| #[trigger] resolve_from(
                    self.plans_v(), self.tier as int, self.name@, self.platform, w, views(self.trail@), self.last,
                ) == resolve_from(
                    s0.plans_v(), s0.tier as int, s0.name@, s0.platform, w, views(s0.trail@), s0.last,
                ),
                forall|w: spec_fn(RequestV) -> Event| #[trigger] requests_from(
                    self.plans_v(), self.tier as int, self.name@, self.platform, w,
                ) == requests_from(s0.plans_v(), s0.tier as int, s0.name@, s0.platform, w),
                forall|w: spec_fn(RequestV) -> Event| #[trigger] failures_from(
                    self.plans_v(), self.tier as int, self.name@, self.platform, w, views(self.trail@),
                ) == failures_from(s0.plans_v(), s0.tier as int, s0.name@, s0.platform, w, views(s0.trail@)),
                cost_from(self.plans_v(), self.tier as int) <= cost_from(s0.plans_v(), s0.tier as int),
            decreases self.plans@.len() - self.tier,
        {
            proof {
                lemma_cost_monotone(self.plans_v(), self.tier as int, self.tier + 1);
            }
            if self.tier >= self.plans.len() {
                self.stage = Stage::Exhausted;
                assert(views(self.trail@) + views(self.entries@) =~= views(self.trail@));
                proof {
                    assert forall|w: spec_fn(RequestV) -> Event| #[trigger] self.pending(w) == resolve_from(
                        s0.plans_v(), s0.tier as int, s0.name@, s0.platform, w, views(s0.trail@), s0.last,
                    ) by {
                        assert(resolve_from(self.plans_v(), self.tier as int, self.name@, self.platform, w, views(self.trail@), self.last)
                            == resolve_from(s0.plans_v(), s0.tier as int, s0.name@, s0.platform, w, views(s0.trail@), s0.last));
                    }
                    assert forall|w: spec_fn(RequestV) -> Event| #[trigger] self.requests_left(w)
                        == requests_from(s0.plans_v(), s0.tier as int, s0.name@, s0.platform, w) by {
                        assert(requests_from(self.plans_v(), self.tier as int, self.name@, self.platform, w)
                            == requests_from(s0.plans_v(), s0.tier as int, s0.name@, s0.platform, w));
                    }
                    assert forall|w: spec_fn(RequestV) -> Event| #[trigger] self.trail_at_end(w)
                        == failures_from(s0.plans_v(), s0.tier as int, s0.name@, s0.platform, w, views(s0.trail@)) by {
                        assert(failures_from(self.plans_v(), self.tier as int, self.name@, self.platform, w, views(self.trail@))
                            == failures_from(s0.plans_v(), s0.tier as int, s0.name@, s0.platform, w, views(s0.trail@)));
                    }
                }
                return;
            }
            let i = self.tier;
            let t = self.plans[i].tier;
            let plan = &self.plans[i];
            assert(plan@ == self.current());
            let entries = note_list(t, &plan.notes);
            assert(views(entries@) =~= note_entries(plan@));
            self.entries = entries;
            if plan.parents.len() > 0 {
                self.stage = Stage::Create(0);
                proof {
                    assert forall|w: spec_fn(RequestV) -> Event| #[trigger] self.pending(w) == resolve_from(
                        s0.plans_v(), s0.tier as int, s0.name@, s0.platform, w, views(s0.trail@), s0.last,
                    ) by {
                        assert(resolve_from(self.plans_v(), i as int, self.name@, self.platform, w, views(self.trail@), self.last)
                            == resolve_from(s0.plans_v(), s0.tier as int, s0.name@, s0.platform, w, views(s0.trail@), s0.last));
                    }
                    assert forall|w: spec_fn(RequestV) -> Event| #[trigger] self.requests_left(w)
                        == requests_from(s0.plans_v(), s0.tier as int, s0.name@, s0.platform, w) by {
                        assert(requests_from(self.plans_v(), i as int, self.name@, self.platform, w)
                            == requests_from(s0.plans_v(), s0.tier as int, s0.name@, s0.platform, w));
                    }
                    assert forall|w: spec_fn(RequestV) -> Event| #[trigger] self.trail_at_end(w)
                        == failures_from(s0.plans_v(), s0.tier as int, s0.name@, s0.platform, w, views(s0.trail@)) by {
                        assert(failures_from(self.plans_v(), i as int, self.name@, self.platform, w, views(self.trail@))
                            == failures_from(s0.plans_v(), s0.tier as int, s0.name@, s0.platform, w, views(s0.trail@)));
                    }
                }
                return;
            }
            let ghost before = *self;
            self.entries.push(Attempt { tier: t, kind: FailureKind::NotFound, reason: Reason::NoCandidates });
            assert(views(self.entries@) =~= views(before.entries@).push(
                entry(t, FailureKind::NotFound, ReasonV::NoCandidates),
            ));
            let ghost t0 = self.trail@;
            let ghost e0 = self.entries@;
            self.trail.append(&mut self.entries);
            assert(views(self.trail@) =~= views(t0) + views(e0));
            proof {
                let plans = self.plans_v();
                assert(plans[i as int] == plan@);
                assert forall|w: spec_fn(RequestV) -> Event| #[trigger] resolve_from(
                    plans, i as int, self.name@, self.platform, w, views(t0), before.last,
                ) == resolve_from(
                    plans, i + 1, self.name@, self.platform, w, views(t0) + views(e0), FailureKind::NotFound,
                ) by {
                    assert(tier_outcome(plans[i as int], self.name@, self.platform, w)
                        == TierResult::Failed(FailureKind::NotFound, views(e0)));
                }
                assert forall|w: spec_fn(RequestV) -> Event| #[trigger] requests_from(
                    plans, i as int, self.name@, self.platform, w,
                ) == requests_from(plans, i + 1, self.name@, self.platform, w) by {
                    assert(tier_outcome(plans[i as int], self.name@, self.platform, w)
                        == TierResult::Failed(FailureKind::NotFound, views(e0)));
                    assert(tier_requests(plans[i as int].parents, 0, self.name@, self.platform, w) =~= seq![]);
                    assert(seq![] + requests_from(plans, i + 1, self.name@, self.platform, w)
                        =~= requests_from(plans, i + 1, self.name@, self.platform, w));
                }
                assert forall|w: spec_fn(RequestV) -> Event| #[trigger] failures_from(
                    plans, i as int, self.name@, self.platform, w, views(t0),
                ) == failures_from(plans, i + 1, self.name@, self.platform, w, views(t0) + views(e0)) by {
                    assert(tier_outcome(plans[i as int], self.name@, self.platform, w)
                        == TierResult::Failed(FailureKind::NotFound, views(e0)));
                }
            }
            self.last = FailureKind::NotFound;
            self.tier = self.tier + 1;
            proof {
                assert forall|w: spec_fn(RequestV) -> Event| #[trigger] resolve_from(
                    self.plans_v(), self.tier as int, self.name@, self.platform, w, views(self.trail@), self.last,
                ) == resolve_from(
                    s0.plans_v(), s0.tier as int, s0.name@, s0.platform, w, views(s0.trail@), s0.last,
                ) by {
                    assert(resolve_from(before.plans_v(), i as int, self.name@, self.platform, w, views(t0), before.last)
                        == resolve_from(s0.plans_v(), s0.tier as int, s0.name@, s0.platform, w, views(s0.trail@), s0.last));
                }
                assert forall|w: spec_fn(RequestV) -> Event| #[trigger] requests_from(
                    self.plans_v(), self.tier as int, self.name@, self.platform, w,
                ) == requests_from(s0.plans_v(), s0.tier as int, s0.name@, s0.platform, w) by {
                    assert(requests_from(before.plans_v(), i as int, self.name@, self.platform, w)
                        == requests_from(s0.plans_v(), s0.tier as int, s0.name@, s0.platform, w));
                }
                assert forall|w: spec_fn(RequestV) -> Event| #[trigger] failures_from(
                    self.plans_v(), self.tier as int, self.name@, self.platform, w, views(self.trail@),
                ) == failures_from(s0.plans_v(), s0.tier as int, s0.name@, s0.platform, w, views(s0.trail@)) by {
                    assert(failures_from(before.plans_v(), i as int, self.name@, self.platform, w, views(t0))
                        == failures_from(s0.plans_v(), s0.tier as int, s0.name@, s0.platform, w, views(s0.trail@)));
                }
            }
        }
    }

    /// Goes on with candidate `j` of the current tier, or fails the tier when
    /// none is left.
    fn next_candidate(&mut self, j: usize)
        requires
            old(self).tier < old(self).plans@.len(),
            j <= old(self).current().parents.len(),
        ensures
            final(self).wf(),
            final(self).same_setup(old(self)),
            forall|w: spec_fn(RequestV) -> Event| #[trigger] final(self).pending(w) == finish_tier(
                old(self).plans_v(),
                old(self).tier as int,
                old(self).name@,
                old(self).platform,
                w,
                views(old(self).trail@),
                try_parents(
                    old(self).current().tier,
                    old(self).current().parents,
                    j as int,
                    old(self).name@,
                    old(self).platform,
                    w,
                    views(old(self).entries@),
                ),
            ),
            forall|w: spec_fn(RequestV) -> Event| #[trigger] final(self).requests_left(w) == tier_requests(
                old(self).current().parents,
                j as int,
                old(self).name@,
                old(self).platform,
                w,
            ) + if try_parents(
                old(self).current().tier,
                old(self).current().parents,
                j as int,
                old(self).name@,
                old(self).platform,
                w,
                views(old(self).entries@),
            ) is Found {
                seq![]
            } else {
                requests_from(old(self).plans_v(), old(self).tier + 1, old(self).name@, old(self).platform, w)
            },
            forall|w: spec_fn(RequestV) -> Event| #[trigger] final(self).trail_at_end(w) == match try_parents(
                old(self).current().tier,
                old(self).current().parents,
                j as int,
                old(self).name@,
                old(self).platform,
                w,
                views(old(self).entries@),
            ) {
                TierResult::Found(_, es) => views(old(self).trail@) + es,
                TierResult::Failed(_, es) => failures_from(
                    old(self).plans_v(),
                    old(self).tier + 1,
                    old(self).name@,
                    old(self).platform,
                    w,
                    views(old(self).trail@) + es,
                ),
            },
            final(self).steps_left() <= old(self).current().parents.len() - j + cost_from(
                old(self).plans_v(),
                old(self).tier + 1,
            ),
    {
        let ghost s0 = *self;
        if j < self.plans[self.tier].parents.len() {
            assert(self.plans_v()[self.tier as int] == self.plans@[self.tier as int]@);
            self.stage = Stage::Create(j);
        } else {
            assert(self.plans_v()[self.tier as int] == self.plans@[self.tier as int]@);
            self.fail_tier(FailureKind::PermissionDenied);
            proof {
                assert forall|w: spec_fn(RequestV) -> Event| #[trigger] self.requests_left(w) == tier_requests(
                    s0.current().parents, j as int, s0.name@, s0.platform, w,
                ) + requests_from(s0.plans_v(), s0.tier + 1, s0.name@, s0.platform, w) by {
                    assert(tier_requests(s0.current().parents, j as int, s0.name@, s0.platform, w) =~= seq![]);
                    assert(seq![] + requests_from(s0.plans_v(), s0.tier + 1, s0.name@, s0.platform, w)
                        =~= requests_from(s0.plans_v(), s0.tier + 1, s0.name@, s0.platform, w));
                }
            }
        }
    }

    /// Takes the host's answer to `next_request`.
    ///
    /// For every way of answering that gives `ev` to the request just made,
    /// the resolution ends as it would have ended before this call, the
    /// requests left are those left before without the one just answered, and
    /// the trail at the end is the same. A resolution that has ended does not
    /// change.
    pub fn advance(&mut self, ev: Event)
        requires
            old(self).wf(),
        ensures
            final(self).wf(),
            old(self).is_done() ==> final(self).is_done() && final(self).recorded() == old(self).recorded()
                && forall|w: spec_fn(RequestV) -> Event|
                #[trigger] final(self).pending(w) == old(self).pending(w),
            forall|w: spec_fn(RequestV) -> Event|
                old(self).request() is Some && w(old(self).request()->0) == ev
                    ==> #[trigger] final(self).pending(w) == old(self).pending(w)
                    && old(self).requests_left(w) == seq![old(self).request()->0] + final(self).requests_left(w)
                    && final(self).trail_at_end(w) == old(self).trail_at_end(w),
            !old(self).is_done() ==> final(self).steps_left() < old(self).steps_left(),
    {
        let ghost s0 = *self;
        match self.stage {
            Stage::Create(j) => {
                assert(self.plans_v()[self.tier as int] == self.plans@[self.tier as int]@);
                let full = join_path(self.platform, self.plans[self.tier].parents[j].as_str(), self.name.as_str());
                let ghost f = full@;
                assert(strs(self.plans@[self.tier as int].parents@) == s0.current().parents);
                if ev == Event::Created {
                    self.found = full;
                    self.stage = Stage::Found;
                    proof {
                        assert forall|w: spec_fn(RequestV) -> Event|
                            s0.request() is Some && w(s0.request()->0) == ev
                                implies s0.requests_left(w) == seq![s0.request()->0] + self.requests_left(w) by {
                            assert(s0.requests_left(w) =~= seq![RequestV::Create(f)]);
                        }
                    }
                } else {
                    // Reading the length bounds the candidate index by `usize::MAX`.
                    let _candidates = self.plans[self.tier].parents.len();
                    let t = self.plans[self.tier].tier;
                    let k = kind_of(ev);
                    let ghost e0 = self.entries@;
                    self.entries.push(Attempt { tier: t, kind: k, reason: Reason::CreateFailed(full) });
                    assert(views(self.entries@) =~= views(e0).push(create_entry(t, f, ev)));
                    self.next_candidate(j + 1);
                    proof {
                        assert forall|w: spec_fn(RequestV) -> Event|
                            s0.request() is Some && w(s0.request()->0) == ev
                                implies s0.requests_left(w) == seq![s0.request()->0] + self.requests_left(w) by {
                            let rest = if s0.tier_rest(w) is Found {
                                seq![]
                            } else {
                                requests_from(s0.plans_v(), s0.tier + 1, s0.name@, s0.platform, w)
                            };
                            let tr = tier_requests(s0.current().parents, j + 1, s0.name@, s0.platform, w);
                            assert(tier_requests(s0.current().parents, j as int, s0.name@, s0.platform, w)
                                == seq![RequestV::Create(f)] + tr);
                            assert(s0.requests_left(w) =~= seq![RequestV::Create(f)] + (tr + rest));
                        }
                    }
                }
            },
            _ => {},
        }
    }

    /// The request the host should carry out next, or `None` once the
    /// resolution has ended.
    pub fn next_request(&self) -> (r: Option<Request>)
        requires
            self.wf(),
        ensures
            match r {
                Some(q) => self.request() == Some(q@)
                    && forall|w: spec_fn(RequestV) -> Event| #[trigger] self.requests_left(w).len() > 0
                    && self.requests_left(w)[0] == q@,
                None => self.request() is None
                    && forall|w: spec_fn(RequestV) -> Event| #[trigger] self.requests_left(w) == Seq::<RequestV>::empty(),
            },
            r is None <==> self.is_done(),
    {
        match self.stage {
            Stage::Create(j) => {
                assert(self.plans_v()[self.tier as int] == self.plans@[self.tier as int]@);
                assert(strs(self.plans@[self.tier as int].parents@) == self.current().parents);
                let full = join_path(self.platform, self.plans[self.tier].parents[j].as_str(), self.name.as_str());
                proof {
                    assert forall|w: spec_fn(RequestV) -> Event| #[trigger] self.requests_left(w).len() > 0
                        && self.requests_left(w)[0] == RequestV::Create(full@) by {
                        assert(tier_requests(self.current().parents, j as int, self.name@, self.platform, w)[0]
                            == RequestV::Create(full@));
                    }
                }
                Some(Request::Create(full))
            },
            _ => None,
        }
    }

    /// The outcome of a resolution that has ended.
    pub fn into_result(self) -> (r: Result<CacheDir, CacheDirError>)
        requires
            self.wf(),
            self.is_done(),
        ensures
            forall|w: spec_fn(RequestV) -> Event| #[trigger] self.pending(w) == outcome_of(r),
    {
        match self.stage {
            Stage::Found => {
                let t = self.plans[self.tier].tier;
                Ok(CacheDir::found(self.found, t))
            },
            Stage::Exhausted => Err(CacheDirError::Exhausted { kind: self.last, attempts: self.trail }),
            _ => Err(CacheDirError::InvalidName),
        }
    }
}

/// Appends the plan of tier `t` when `on` holds.
fn push_plan(
    plans: &mut Vec<TierPlan>,
    on: bool,
    p: Platform,
    t: Tier,
    c: &CacheDirConfig,
    h: &HostPaths,
)
    ensures
        plan_views(final(plans)@) == plan_views(old(plans)@) + plans_of(p, c@, h@, tier_if(on, t)),
{
    let ghost v0 = old(plans)@;
    if on {
        plans.push(plan_tier(p, t, c, h));
    }
    assert(plan_views(plans@) =~= plan_views(v0) + plans_of(p, c@, h@, tier_if(on, t)));
}

/// The plans of the tiers that `config` attempts, in priority order.
fn attempted_plans(config: &CacheDirConfig, platform: Platform, host: &HostPaths) -> (r: Vec<TierPlan>)
    ensures
        plan_views(r@) == plans_for(platform, config@, host@),
{
    let sel = config.selection();
    let mut plans: Vec<TierPlan> = Vec::new();
    assert(plan_views(plans@) =~= Seq::<PlanV>::empty());
    push_plan(&mut plans, sel.application, platform, Tier::Application, config, host);
    push_plan(&mut plans, sel.user, platform, Tier::User, config, host);
    push_plan(&mut plans, sel.system, platform, Tier::System, config, host);
    push_plan(&mut plans, sel.temporary, platform, Tier::Temporary, config, host);
    push_plan(&mut plans, sel.memory, platform, Tier::Memory, config, host);
    proof {
        let (c, h) = (config@, host@);
        let a = tier_if(sel.application, Tier::Application);
        let u = tier_if(sel.user, Tier::User);
        let y = tier_if(sel.system, Tier::System);
        let t = tier_if(sel.temporary, Tier::Temporary);
        let m = tier_if(sel.memory, Tier::Memory);
        lemma_plans_of_add(platform, c, h, a, u);
        lemma_plans_of_add(platform, c, h, a + u, y);
        lemma_plans_of_add(platform, c, h, a + u + y, t);
        lemma_plans_of_add(platform, c, h, a + u + y + t, m);
        assert(Seq::<PlanV>::empty() + plans_of(platform, c, h, a) == plans_of(platform, c, h, a));
    }
    plans
}

/// Starts resolving `config` on `platform`, with the host values `host`.
///
/// A cache name that is an absolute path on `platform` is rejected: the
/// resolver ends at once with `CacheDirError::InvalidName`.
///
/// Driven to its end by a host that answers every request as `w` does, the
/// returned resolver asks for exactly `requests(config@, platform, host@, w)`,
/// in that order, ends with `resolution(config@, platform, host@, w)`, and
/// has then recorded `failures(config@, platform, host@, w)`.
pub fn create_cache_dir(config: &CacheDirConfig, platform: Platform, host: &HostPaths) -> (r: Resolver)
    requires
        host_valid(platform, host@),
    ensures
        r.wf(),
        forall|w: spec_fn(RequestV) -> Event| #[trigger] r.pending(w) == resolution(config@, platform, host@, w),
        forall|w: spec_fn(RequestV) -> Event| #[trigger] r.requests_left(w) == requests(config@, platform, host@, w),
        forall|w: spec_fn(RequestV) -> Event| #[trigger] r.trail_at_end(w) == failures(config@, platform, host@, w),
        forall|w: spec_fn(RequestV) -> Event| #[trigger] r.pending(w) is Resolved ==> is_absolute(
            platform,
            r.pending(w)->Resolved_0,
        ),
        forall|w: spec_fn(RequestV) -> Event| #[trigger] r.pending(w) is Exhausted ==> (r.pending(w)->Exhausted_0
            == FailureKind::NotFound || r.pending(w)->Exhausted_0 == FailureKind::PermissionDenied),
{
    let name = config.cache_name.clone();
    if path_is_absolute(platform, config.cache_name.as_str()) {
        let r = Resolver {
            platform,
            name,
            plans: Vec::new(),
            tier: 0,
            stage: Stage::Invalid,
            entries: Vec::new(),
            trail: Vec::new(),
            last: FailureKind::NotFound,
            found: String::new(),
        };
        assert(r.recorded() =~= Seq::<AttemptV>::empty());
        return r;
    }
    let plans = attempted_plans(config, platform, host);
    let mut r = Resolver {
        platform,
        name,
        plans,
        tier: 0,
        stage: Stage::Exhausted,
        entries: Vec::new(),
        trail: Vec::new(),
        last: FailureKind::NotFound,
        found: String::new(),
    };
    assert(views(r.trail@) =~= Seq::<AttemptV>::empty());
    r.enter_tier();
    proof {
        assert forall|w: spec_fn(RequestV) -> Event| #![trigger r.pending(w)]
            r.pending(w) is Resolved implies is_absolute(platform, r.pending(w)->Resolved_0) by {
            assert(r.pending(w) == resolution(config@, platform, host@, w));
            lemma_result_absolute(config@, platform, host@, w);
        }
        assert forall|w: spec_fn(RequestV) -> Event| #![trigger r.pending(w)]
            r.pending(w) is Exhausted implies (r.pending(w)->Exhausted_0 == FailureKind::NotFound
                || r.pending(w)->Exhausted_0 == FailureKind::PermissionDenied) by {
            assert(r.pending(w) == resolution(config@, platform, host@, w));
            lemma_error_categories(config@, platform, host@, w);
        }
    }
    r
}

/// The category of a failed creation (see `fail_kind`).
fn kind_of(ev: Event) -> (r: FailureKind)
    ensures
        r == fail_kind(ev),
{
    match ev {
        Event::Failed(k) => k,
        _ => FailureKind::Other,
    }
}

/// The notes of a plan as trail entries of tier `t`.
fn note_list(t: Tier, notes: &Vec<Reason>) -> (r: Vec<Attempt>)
    ensures
        views(r@) == notes@.map_values(|n: Reason| entry(t, FailureKind::NotFound, n@)),
{
    let mut r: Vec<Attempt> = Vec::new();
    let mut i: usize = 0;
    while i < notes.len()
        invariant
            i <= notes@.len(),
            r@.len() == i,
            forall|k: int| 0 <= k < i ==> #[trigger] r@[k]@ == entry(t, FailureKind::NotFound, notes@[k]@),
        decreases notes@.len() - i,
    {
        r.push(Attempt { tier: t, kind: FailureKind::NotFound, reason: notes[i].duplicate() });
        i = i + 1;
    }
    assert(views(r@) =~= notes@.map_values(|n: Reason| entry(t, FailureKind::NotFound, n@)));
    r
}

/// Appends copies of `src` to `dst`.
fn copy_attempts(src: &Vec<Attempt>, dst: &mut Vec<Attempt>)
    ensures
        views(final(dst)@) == views(old(dst)@) + views(src@),
{
    let ghost d0 = dst@;
    let mut i: usize = 0;
    while i < src.len()
        invariant
            i <= src@.len(),
            dst@.len() == d0.len() + i,
            forall|k: int| 0 <= k < d0.len() ==> #[trigger] dst@[k] == d0[k],
            forall|k: int| 0 <= k < i ==> #[trigger] dst@[d0.len() + k]@ == src@[k]@,
        decreases src@.len() - i,
    {
        dst.push(src[i].duplicate());
        i = i + 1;
    }
    assert forall|k: int| 0 <= k < dst@.len() implies #[trigger] views(dst@)[k] == (views(d0) + views(src@))[k] by {
        if k >= d0.len() {
            assert(dst@[d0.len() + (k - d0.len())]@ == src@[k - d0.len()]@);
        }
    }
    assert(views(dst@) =~= views(d0) + views(src@));
}

} // verus!
