//! Inference routes: named failover chains over auth entries.
//!
//! A route is an ordered list of steps. Each names a provider and an entry label, or `*` for every
//! entry of the provider, with an optional model. A session resolves its own route, then its
//! agent's, then the default, then an implicit route over the entries of the selected provider.

use crate::error::{StoreError, StoreResult};
use crate::leases::{check_worker_lease, holds};
use crate::session::{transitioned, Lease, SessionRows, SessionState};
use crate::sort::{key_views, sort_order, stable_order, SortKey};
use crate::text::{copy_option, join2, occurs_at, same, starts_with, text_less};
use crate::textmap::TextMap;
use crate::time::{moved, Duration, Timestamp};
use crate::waits::{
    breaker_view, earlier_of, failure_wait, fresh_wait, note_reason, noted_all,
    noting_keeps_reasons_tidy, one_more, open_state, open_until, park_leased, stale_due,
    text_views, tidy, wait_view, waiting_since, Breaker, BreakerView, InferenceFailureWait,
    InferenceWait, WaitView,
};
use vstd::prelude::*;

verus! {

/// One stored entry label with its readiness.
#[derive(Clone, Debug, PartialEq, Eq)]
pub struct PoolEntry {
    pub label: String,
    pub ready: bool,
}

/// One step of a named route.
#[derive(Clone, Debug, PartialEq, Eq)]
pub struct RouteStep {
    pub provider: String,
    pub entry: String,
    pub model: Option<String>,
}

/// A named route.
#[derive(Clone, Debug, PartialEq, Eq)]
pub struct RouteRecord {
    pub name: String,
    pub steps: Vec<RouteStep>,
    pub updated_at: Timestamp,
}

/// One step after expansion.
#[derive(Clone, Debug, PartialEq, Eq)]
pub struct ExpandedRouteStep {
    pub provider: String,
    pub label: Option<String>,
    pub model: Option<String>,
}

/// An expansion without breaker states. Workers and the scheduler share it, so both see one chain.
#[derive(Clone, Debug, PartialEq, Eq)]
pub struct ExpandedChain {
    pub name: Option<String>,
    pub steps: Vec<ExpandedRouteStep>,
    pub skipped: Vec<String>,
}

/// One expanded step with its breaker state.
#[derive(Clone, Debug, PartialEq, Eq)]
pub struct RouteStepStatus {
    pub provider: String,
    pub label: Option<String>,
    pub model: Option<String>,
    pub open_until: Option<Timestamp>,
    pub reason: Option<String>,
}

/// The resolved chain of one session.
#[derive(Clone, Debug, PartialEq, Eq)]
pub struct RouteSnapshot {
    pub name: Option<String>,
    pub steps: Vec<RouteStepStatus>,
    pub skipped: Vec<String>,
}

/// View of a pool entry.
pub ghost struct PoolEntryView {
    pub label: Seq<char>,
    pub ready: bool,
}

/// View of a route step.
pub ghost struct RouteStepView {
    pub provider: Seq<char>,
    pub entry: Seq<char>,
    pub model: Option<Seq<char>>,
}

/// View of a named route.
pub ghost struct RouteView {
    pub name: Seq<char>,
    pub steps: Seq<RouteStepView>,
}

/// View of an expanded step.
pub ghost struct ExpandedView {
    pub provider: Seq<char>,
    pub label: Option<Seq<char>>,
    pub model: Option<Seq<char>>,
}

/// View of an expanded chain.
#[verifier::ext_equal]
pub ghost struct ChainView {
    pub name: Option<Seq<char>>,
    pub steps: Seq<ExpandedView>,
    pub skipped: Seq<Seq<char>>,
}

/// View of a step with its breaker state.
pub ghost struct StatusView {
    pub provider: Seq<char>,
    pub label: Option<Seq<char>>,
    pub model: Option<Seq<char>>,
    pub open_until: Option<Timestamp>,
    pub reason: Option<Seq<char>>,
}

/// View of a resolved chain.
#[verifier::ext_equal]
pub ghost struct SnapshotView {
    pub name: Option<Seq<char>>,
    pub steps: Seq<StatusView>,
    pub skipped: Seq<Seq<char>>,
}

impl View for PoolEntry {
    type V = PoolEntryView;

    open spec fn view(&self) -> PoolEntryView {
        PoolEntryView { label: self.label@, ready: self.ready }
    }
}

impl View for RouteStep {
    type V = RouteStepView;

    open spec fn view(&self) -> RouteStepView {
        RouteStepView {
            provider: self.provider@,
            entry: self.entry@,
            model: self.model.deep_view(),
        }
    }
}

/// Views of route steps in order.
pub open spec fn step_views(steps: Seq<RouteStep>) -> Seq<RouteStepView> {
    steps.map_values(|step: RouteStep| step@)
}

impl View for RouteRecord {
    type V = RouteView;

    open spec fn view(&self) -> RouteView {
        RouteView { name: self.name@, steps: step_views(self.steps@) }
    }
}

impl View for ExpandedRouteStep {
    type V = ExpandedView;

    open spec fn view(&self) -> ExpandedView {
        ExpandedView {
            provider: self.provider@,
            label: self.label.deep_view(),
            model: self.model.deep_view(),
        }
    }
}

/// Views of expanded steps in order.
pub open spec fn expanded_views(steps: Seq<ExpandedRouteStep>) -> Seq<ExpandedView> {
    steps.map_values(|step: ExpandedRouteStep| step@)
}

impl View for ExpandedChain {
    type V = ChainView;

    open spec fn view(&self) -> ChainView {
        ChainView {
            name: self.name.deep_view(),
            steps: expanded_views(self.steps@),
            skipped: text_views(self.skipped@),
        }
    }
}

impl View for RouteStepStatus {
    type V = StatusView;

    open spec fn view(&self) -> StatusView {
        StatusView {
            provider: self.provider@,
            label: self.label.deep_view(),
            model: self.model.deep_view(),
            open_until: self.open_until,
            reason: self.reason.deep_view(),
        }
    }
}

/// Views of steps with breaker states in order.
pub open spec fn status_views(steps: Seq<RouteStepStatus>) -> Seq<StatusView> {
    steps.map_values(|step: RouteStepStatus| step@)
}

impl View for RouteSnapshot {
    type V = SnapshotView;

    open spec fn view(&self) -> SnapshotView {
        SnapshotView {
            name: self.name.deep_view(),
            steps: status_views(self.steps@),
            skipped: text_views(self.skipped@),
        }
    }
}

/// Views of a pool in order.
pub open spec fn pool_views(pool: Seq<PoolEntry>) -> Seq<PoolEntryView> {
    pool.map_values(|entry: PoolEntry| entry@)
}

/// Views of entry pools by provider.
pub open spec fn pools_view(pools: Map<Seq<char>, Vec<PoolEntry>>) -> Map<Seq<char>, Seq<PoolEntryView>> {
    pools.map_values(|pool: Vec<PoolEntry>| pool_views(pool@))
}

// ---------------------------------------------------------------------------------------------
// Expansion
// ---------------------------------------------------------------------------------------------

/// Labels of ready entries, or of all entries, in order.
pub open spec fn labels_of(pool: Seq<PoolEntryView>, ready_only: bool) -> Seq<Seq<char>>
    decreases pool.len(),
{
    if pool.len() == 0 {
        Seq::empty()
    } else if pool.last().ready || !ready_only {
        labels_of(pool.drop_last(), ready_only).push(pool.last().label)
    } else {
        labels_of(pool.drop_last(), ready_only)
    }
}

/// Whether some entry is ready.
pub open spec fn any_ready(pool: Seq<PoolEntryView>) -> bool {
    exists|i: int| 0 <= i < pool.len() && (#[trigger] pool[i]).ready
}

/// Labels that a step may use: ready entries in order, or every entry when none is ready.
pub open spec fn usable(pool: Seq<PoolEntryView>) -> Seq<Seq<char>> {
    labels_of(pool, any_ready(pool))
}

proof fn ready_labels(pool: Seq<PoolEntryView>)
    ensures
        any_ready(pool) <==> labels_of(pool, true).len() > 0,
        labels_of(pool, false).len() == pool.len(),
    decreases pool.len(),
{
    if pool.len() > 0 {
        let rest = pool.drop_last();
        ready_labels(rest);
        if any_ready(rest) {
            let i = choose|i: int| 0 <= i < rest.len() && (#[trigger] rest[i]).ready;
            assert(pool[i].ready);
        }
        if any_ready(pool) && !pool.last().ready {
            let i = choose|i: int| 0 <= i < pool.len() && (#[trigger] pool[i]).ready;
            assert(rest[i].ready);
        }
        if pool.last().ready {
            assert(pool[pool.len() - 1].ready);
        }
    }
}

fn collect_labels(pool: &Vec<PoolEntry>, ready_only: bool) -> (labels: Vec<String>)
    ensures
        text_views(labels@) == labels_of(pool_views(pool@), ready_only),
{
    let ghost views = pool_views(pool@);
    let mut labels: Vec<String> = Vec::new();
    let mut i: usize = 0;
    assert(text_views(labels@) =~= Seq::<Seq<char>>::empty());
    while i < pool.len()
        invariant
            i <= pool.len(),
            views == pool_views(pool@),
            text_views(labels@) == labels_of(views.take(i as int), ready_only),
        decreases pool.len() - i,
    {
        let ghost before = labels@;
        proof {
            assert(views.take(i + 1).drop_last() =~= views.take(i as int));
            assert(views.take(i + 1).last() == pool@[i as int]@);
        }
        if pool[i].ready || !ready_only {
            let label = pool[i].label.clone();
            labels.push(label);
            assert(text_views(labels@) =~= text_views(before).push(label@));
        }
        i += 1;
    }
    assert(views.take(i as int) =~= views);
    labels
}

/// Labels that a route step may use from one provider's pool.
pub fn usable_labels(pool: &Vec<PoolEntry>) -> (labels: Vec<String>)
    ensures
        text_views(labels@) == usable(pool_views(pool@)),
{
    proof {
        ready_labels(pool_views(pool@));
    }
    let ready = collect_labels(pool, true);
    if ready.len() == 0 {
        assert(text_views(ready@).len() == 0);
        collect_labels(pool, false)
    } else {
        assert(text_views(ready@).len() == ready@.len());
        ready
    }
}

/// Why a named step was passed over.
pub open spec fn skip_reason(provider: Seq<char>, label: Seq<char>) -> Seq<char> {
    provider + "/"@ + label + " names an entry with no ready credential; trying the next step"@
}

/// The sentence that tells why a named step was passed over.
pub fn skipped_step_reason(provider: &str, label: &str) -> (reason: String)
    ensures
        reason@ == skip_reason(provider@, label@),
{
    let a = join2(provider, "/");
    let b = join2(a.as_str(), label);
    join2(b.as_str(), " names an entry with no ready credential; trying the next step")
}

/// Whether the store holds entries of a provider.
pub open spec fn has_entries(pools: Map<Seq<char>, Seq<PoolEntryView>>, provider: Seq<char>) -> bool {
    pools.dom().contains(provider) && pools[provider].len() > 0
}

/// Whether a pool holds a ready entry with this label.
pub open spec fn ready_entry(pool: Seq<PoolEntryView>, label: Seq<char>) -> bool {
    exists|i: int| 0 <= i < pool.len() && (#[trigger] pool[i]).ready && pool[i].label == label
}

/// One step for each label.
pub open spec fn labelled(provider: Seq<char>, labels: Seq<Seq<char>>, model: Option<Seq<char>>) -> Seq<ExpandedView> {
    labels.map_values(|label: Seq<char>| ExpandedView { provider, label: Some(label), model })
}

/// Every entry of a provider, or the provider alone when the store holds none.
pub open spec fn all_entries(
    pools: Map<Seq<char>, Seq<PoolEntryView>>,
    provider: Seq<char>,
    model: Option<Seq<char>>,
) -> Seq<ExpandedView> {
    if has_entries(pools, provider) {
        labelled(provider, usable(pools[provider]), model)
    } else {
        seq![ExpandedView { provider, label: None, model }]
    }
}

/// Whether a step names an entry that the store holds entries beside but that is not ready.
pub open spec fn step_skipped(pools: Map<Seq<char>, Seq<PoolEntryView>>, step: RouteStepView) -> bool {
    &&& step.entry != "*"@
    &&& has_entries(pools, step.provider)
    &&& !ready_entry(pools[step.provider], step.entry)
}

/// What one step expands to.
pub open spec fn step_expansion(pools: Map<Seq<char>, Seq<PoolEntryView>>, step: RouteStepView) -> Seq<ExpandedView> {
    if step.entry == "*"@ {
        all_entries(pools, step.provider, step.model)
    } else if step_skipped(pools, step) {
        Seq::empty()
    } else {
        seq![ExpandedView {
            provider: step.provider,
            label: Some(step.entry),
            model: step.model,
        }]
    }
}

/// What steps expand to, in order.
pub open spec fn expansion(pools: Map<Seq<char>, Seq<PoolEntryView>>, steps: Seq<RouteStepView>) -> Seq<ExpandedView>
    decreases steps.len(),
{
    if steps.len() == 0 {
        Seq::empty()
    } else {
        expansion(pools, steps.drop_last()) + step_expansion(pools, steps.last())
    }
}

/// Why steps were passed over, in order.
pub open spec fn skips(pools: Map<Seq<char>, Seq<PoolEntryView>>, steps: Seq<RouteStepView>) -> Seq<Seq<char>>
    decreases steps.len(),
{
    if steps.len() == 0 {
        Seq::empty()
    } else if step_skipped(pools, steps.last()) {
        skips(pools, steps.drop_last()).push(skip_reason(steps.last().provider, steps.last().entry))
    } else {
        skips(pools, steps.drop_last())
    }
}

/// Steps of a route that may be absent.
pub open spec fn route_steps(record: Option<RouteView>) -> Seq<RouteStepView> {
    match record {
        Some(record) => record.steps,
        None => Seq::empty(),
    }
}

/// The chain of a route against entry pools. A route that is missing or selects nothing falls
/// back to the entries of `fallback`.
pub open spec fn chain(
    record: Option<RouteView>,
    pools: Map<Seq<char>, Seq<PoolEntryView>>,
    fallback: Seq<char>,
) -> ChainView {
    let steps = expansion(pools, route_steps(record));
    ChainView {
        name: match record {
            Some(record) => if steps.len() > 0 {
                Some(record.name)
            } else {
                None
            },
            None => None,
        },
        steps: if steps.len() > 0 {
            steps
        } else {
            all_entries(pools, fallback, None)
        },
        skipped: skips(pools, route_steps(record)),
    }
}

/// View of a route that may be absent.
pub open spec fn route_view(record: Option<&RouteRecord>) -> Option<RouteView> {
    match record {
        Some(record) => Some(record@),
        None => None,
    }
}

/// A chain always has a step, so a mistyped route cannot wedge an agent's turns.
pub proof fn chains_have_steps(
    record: Option<RouteView>,
    pools: Map<Seq<char>, Seq<PoolEntryView>>,
    fallback: Seq<char>,
)
    ensures
        chain(record, pools, fallback).steps.len() > 0,
{
    if has_entries(pools, fallback) {
        ready_labels(pools[fallback]);
    }
}

/// Without a named route the chain is the pool of the selected provider: ready entries in order,
/// or every entry when none is ready.
pub proof fn implicit_chains_follow_the_pool(pools: Map<Seq<char>, Seq<PoolEntryView>>, fallback: Seq<char>)
    ensures
        chain(None, pools, fallback) == (ChainView {
            name: None,
            steps: all_entries(pools, fallback, None),
            skipped: Seq::empty(),
        }),
{
}

/// A named step whose entry is missing or not ready never serves an attempt while the store holds
/// entries of its provider.
pub proof fn unready_entries_are_skipped(
    pools: Map<Seq<char>, Seq<PoolEntryView>>,
    steps: Seq<RouteStepView>,
    i: int,
)
    requires
        0 <= i < steps.len(),
        step_skipped(pools, steps[i]),
    ensures
        step_expansion(pools, steps[i]).len() == 0,
        skips(pools, steps).contains(skip_reason(steps[i].provider, steps[i].entry)),
    decreases steps.len(),
{
    let reason = skip_reason(steps[i].provider, steps[i].entry);
    let rest = steps.drop_last();
    if i < steps.len() - 1 {
        unready_entries_are_skipped(pools, rest, i);
        let at = choose|k: int| 0 <= k < skips(pools, rest).len() && skips(pools, rest)[k] == reason;
        assert(skips(pools, steps)[at] == reason);
    } else {
        assert(skips(pools, steps).last() == reason);
    }
}

fn push_entries(
    steps: &mut Vec<ExpandedRouteStep>,
    pools: &TextMap<Vec<PoolEntry>>,
    provider: &str,
    model: &Option<String>,
)
    requires
        pools.wf(),
    ensures
        expanded_views(final(steps)@) == expanded_views(old(steps)@) + all_entries(
            pools_view(pools@),
            provider@,
            model.deep_view(),
        ),
{
    let ghost before = expanded_views(steps@);
    let ghost views = pools_view(pools@);
    match pools.get(provider) {
        Some(pool) => {
            assert(views[provider@] == pool_views(pool@));
            if pool.len() > 0 {
                let labels = usable_labels(pool);
                let ghost wanted = usable(pool_views(pool@));
                let mut i: usize = 0;
                assert(before + labelled(provider@, wanted.take(0), model.deep_view()) =~= before);
                while i < labels.len()
                    invariant
                        i <= labels.len(),
                        text_views(labels@) == wanted,
                        expanded_views(steps@) == before + labelled(
                            provider@,
                            wanted.take(i as int),
                            model.deep_view(),
                        ),
                    decreases labels.len() - i,
                {
                    let ghost held = steps@;
                    let label = labels[i].clone();
                    assert(label@ == wanted[i as int]);
                    let step = ExpandedRouteStep {
                        provider: provider.to_owned(),
                        label: Some(label),
                        model: copy_option(model),
                    };
                    steps.push(step);
                    assert(expanded_views(steps@) =~= expanded_views(held).push(step@));
                    assert(labelled(provider@, wanted.take(i + 1), model.deep_view()) =~= labelled(
                        provider@,
                        wanted.take(i as int),
                        model.deep_view(),
                    ).push(step@));
                    assert(expanded_views(steps@) =~= before + labelled(
                        provider@,
                        wanted.take(i + 1),
                        model.deep_view(),
                    ));
                    i += 1;
                }
                assert(wanted.take(i as int) =~= wanted);
                return;
            }
        },
        None => {},
    }
    let ghost held = steps@;
    let step = ExpandedRouteStep {
        provider: provider.to_owned(),
        label: None,
        model: copy_option(model),
    };
    steps.push(step);
    assert(expanded_views(steps@) =~= before + seq![step@]);
}

fn has_ready_entry(pool: &Vec<PoolEntry>, label: &str) -> (found: bool)
    ensures
        found == ready_entry(pool_views(pool@), label@),
{
    let ghost views = pool_views(pool@);
    let mut i: usize = 0;
    while i < pool.len()
        invariant
            i <= pool.len(),
            views == pool_views(pool@),
            forall|j: int| 0 <= j < i ==> !((#[trigger] views[j]).ready && views[j].label == label@),
        decreases pool.len() - i,
    {
        if pool[i].ready && same(pool[i].label.as_str(), label) {
            assert(views[i as int].ready && views[i as int].label == label@);
            return true;
        }
        i += 1;
    }
    false
}

fn is_skipped(pools: &TextMap<Vec<PoolEntry>>, step: &RouteStep) -> (skipped: bool)
    requires
        pools.wf(),
        step@.entry != "*"@,
    ensures
        skipped == step_skipped(pools_view(pools@), step@),
{
    match pools.get(step.provider.as_str()) {
        Some(pool) => {
            assert(pools_view(pools@)[step@.provider] == pool_views(pool@));
            pool.len() > 0 && !has_ready_entry(pool, step.entry.as_str())
        },
        None => false,
    }
}

/// Expands a named route against entry pools without looking at breakers.
pub fn expand_chain(
    record: Option<&RouteRecord>,
    pools: &TextMap<Vec<PoolEntry>>,
    fallback_provider: &str,
) -> (expanded: ExpandedChain)
    requires
        pools.wf(),
    ensures
        expanded@ == chain(route_view(record), pools_view(pools@), fallback_provider@),
{
    let ghost views = pools_view(pools@);
    let ghost wanted = route_steps(route_view(record));
    let mut steps: Vec<ExpandedRouteStep> = Vec::new();
    let mut skipped: Vec<String> = Vec::new();
    assert(expanded_views(steps@) =~= expansion(views, wanted.take(0)));
    assert(text_views(skipped@) =~= skips(views, wanted.take(0)));
    let mut name: Option<String> = None;
    if let Some(record) = record {
        let mut i: usize = 0;
        while i < record.steps.len()
            invariant
                i <= record.steps.len(),
                pools.wf(),
                views == pools_view(pools@),
                wanted == step_views(record.steps@),
                expanded_views(steps@) == expansion(views, wanted.take(i as int)),
                text_views(skipped@) == skips(views, wanted.take(i as int)),
            decreases record.steps.len() - i,
        {
            let step = &record.steps[i];
            proof {
                assert(wanted.take(i + 1).drop_last() =~= wanted.take(i as int));
                assert(wanted.take(i + 1).last() == step@);
            }
            if same(step.entry.as_str(), "*") {
                push_entries(&mut steps, pools, step.provider.as_str(), &step.model);
            } else if is_skipped(pools, step) {
                let ghost held = skipped@;
                let reason = skipped_step_reason(step.provider.as_str(), step.entry.as_str());
                skipped.push(reason);
                assert(text_views(skipped@) =~= text_views(held).push(reason@));
                assert(expanded_views(steps@) =~= expansion(views, wanted.take(i + 1)));
            } else {
                let ghost held = steps@;
                let expanded = ExpandedRouteStep {
                    provider: step.provider.clone(),
                    label: Some(step.entry.clone()),
                    model: copy_option(&step.model),
                };
                steps.push(expanded);
                assert(expanded_views(steps@) =~= expanded_views(held) + seq![expanded@]);
            }
            i += 1;
        }
        assert(wanted.take(i as int) =~= wanted);
        if steps.len() > 0 {
            name = Some(record.name.clone());
        }
    } else {
        assert(wanted.take(0) =~= wanted);
    }
    assert(expanded_views(steps@).len() == steps@.len());
    if steps.len() == 0 {
        let none: Option<String> = None;
        push_entries(&mut steps, pools, fallback_provider, &none);
        assert(expanded_views(steps@) =~= all_entries(views, fallback_provider@, None));
    }
    ExpandedChain { name, steps, skipped }
}

// ---------------------------------------------------------------------------------------------
// Resolution
// ---------------------------------------------------------------------------------------------

/// The first of two values that is there.
pub open spec fn first_some(a: Option<Seq<char>>, b: Option<Seq<char>>) -> Option<Seq<char>> {
    if a is Some {
        a
    } else {
        b
    }
}

/// The route that a session follows: its own, then its agent's, then the default.
pub fn route_name(session: &Option<String>, agent: &Option<String>, default: &Option<String>) -> (name: Option<String>)
    ensures
        name.deep_view() == first_some(
            session.deep_view(),
            first_some(agent.deep_view(), default.deep_view()),
        ),
{
    if session.is_some() {
        copy_option(session)
    } else if agent.is_some() {
        copy_option(agent)
    } else {
        copy_option(default)
    }
}

/// The provider that a session selects: its own, then its agent's, then the default.
pub open spec fn selected_provider(session: Option<Seq<char>>, agent: Option<Seq<char>>, default: Seq<char>) -> Seq<char> {
    match first_some(session, agent) {
        Some(provider) => provider,
        None => default,
    }
}

/// The provider whose entries stand in for a route that is absent.
pub fn route_provider(session: &Option<String>, agent: &Option<String>, default: &str) -> (provider: String)
    ensures
        provider@ == selected_provider(session.deep_view(), agent.deep_view(), default@),
{
    match session {
        Some(provider) => provider.clone(),
        None => match agent {
            Some(provider) => provider.clone(),
            None => default.to_owned(),
        },
    }
}

/// Whether texts ascend strictly.
pub open spec fn ascending(list: Seq<Seq<char>>) -> bool {
    forall|i: int, j: int| 0 <= i < j < list.len() ==> text_less(#[trigger] list[i], #[trigger] list[j])
}

/// Whether a chain draws on a provider's pool.
pub open spec fn draws_on(steps: Seq<RouteStepView>, provider: Seq<char>, wanted: Seq<char>) -> bool {
    wanted == provider || exists|i: int| 0 <= i < steps.len() && (#[trigger] steps[i]).provider == wanted
}

/// Providers whose pools a chain draws on, in order and each once.
pub fn route_providers(record: Option<&RouteRecord>, provider: &str) -> (providers: Vec<String>)
    ensures
        ascending(text_views(providers@)),
        forall|wanted: Seq<char>|
            text_views(providers@).contains(wanted) <==> draws_on(
                route_steps(route_view(record)),
                provider@,
                wanted,
            ),
{
    let ghost steps = route_steps(route_view(record));
    let mut found: TextMap<()> = TextMap::new();
    found.insert(provider.to_owned(), ());
    if let Some(record) = record {
        let mut i: usize = 0;
        assert(forall|wanted: Seq<char>|
            found@.dom().contains(wanted) <==> draws_on(steps.take(0), provider@, wanted));
        while i < record.steps.len()
            invariant
                i <= record.steps.len(),
                steps == step_views(record.steps@),
                found.wf(),
                forall|wanted: Seq<char>|
                    found@.dom().contains(wanted) <==> draws_on(
                        steps.take(i as int),
                        provider@,
                        wanted,
                    ),
            decreases record.steps.len() - i,
        {
            let ghost before = found@;
            let name = record.steps[i].provider.clone();
            found.insert(name, ());
            assert forall|wanted: Seq<char>|
                found@.dom().contains(wanted) <==> draws_on(steps.take(i + 1), provider@, wanted) by {
                let short = steps.take(i as int);
                let long = steps.take(i + 1);
                assert(long[i as int].provider == name@);
                if draws_on(short, provider@, wanted) && wanted != provider@ {
                    let k = choose|k: int| 0 <= k < short.len() && (#[trigger] short[k]).provider == wanted;
                    assert(long[k].provider == wanted);
                }
                if draws_on(long, provider@, wanted) && wanted != provider@ && wanted != name@ {
                    let k = choose|k: int| 0 <= k < long.len() && (#[trigger] long[k]).provider == wanted;
                    assert(short[k].provider == wanted);
                }
            }
            i += 1;
        }
        assert(steps.take(i as int) =~= steps);
    }
    let mut providers: Vec<String> = Vec::new();
    let mut n: usize = 0;
    while n < found.entries.len()
        invariant
            n <= found.entries.len(),
            providers@.len() == n,
            forall|j: int| 0 <= j < n ==> (#[trigger] providers@[j])@ == found.entries@[j].0@,
        decreases found.entries.len() - n,
    {
        providers.push(found.entries[n].0.clone());
        n += 1;
    }
    let ghost views = text_views(providers@);
    assert forall|wanted: Seq<char>| views.contains(wanted) <==> found@.dom().contains(wanted) by {
        if views.contains(wanted) {
            let k = choose|k: int| 0 <= k < views.len() && views[k] == wanted;
            assert(providers@[k]@ == wanted);
            assert(found.entries@[k].0@ == wanted);
        }
        if found@.dom().contains(wanted) {
            let k = choose|k: int| 0 <= k < found.entries@.len() && (#[trigger] found.entries@[k]).0@ == wanted;
            assert(views[k] == wanted);
        }
    }
    assert(ascending(views)) by {
        assert forall|i: int, j: int| 0 <= i < j < views.len() implies text_less(
            #[trigger] views[i],
            #[trigger] views[j],
        ) by {
            assert(text_less(found.entries@[i].0@, found.entries@[j].0@));
        }
    }
    providers
}

/// Sort keys of entries: creation time, then label.
pub open spec fn creation_keys(entries: Seq<(Timestamp, PoolEntry)>) -> Seq<(int, Seq<char>)> {
    entries.map_values(|entry: (Timestamp, PoolEntry)| (entry.0.nanos as int, entry.1.label@))
}

/// Entries in creation order, labels breaking ties.
pub open spec fn by_creation(entries: Seq<(Timestamp, PoolEntry)>) -> Seq<PoolEntryView> {
    Seq::new(
        entries.len(),
        |i: int| entries[stable_order(creation_keys(entries), entries.len())[i]].1@,
    )
}

/// Puts a provider's entries into failover order.
pub fn order_pool(entries: &Vec<(Timestamp, PoolEntry)>) -> (pool: Vec<PoolEntry>)
    ensures
        pool_views(pool@) == by_creation(entries@),
{
    let mut keys: Vec<SortKey> = Vec::new();
    let mut i: usize = 0;
    while i < entries.len()
        invariant
            i <= entries.len(),
            keys@.len() == i,
            forall|j: int|
                0 <= j < i ==> (#[trigger] keys@[j])@ == (
                    entries@[j].0.nanos as int,
                    entries@[j].1.label@,
                ),
        decreases entries.len() - i,
    {
        keys.push(SortKey { number: entries[i].0.nanos, text: entries[i].1.label.clone() });
        i += 1;
    }
    assert(key_views(keys@) =~= creation_keys(entries@));
    let order = sort_order(&keys);
    let ghost indices = order@.map_values(|k: usize| k as int);
    let mut pool: Vec<PoolEntry> = Vec::new();
    let mut n: usize = 0;
    while n < order.len()
        invariant
            n <= order.len(),
            order@.len() == entries@.len(),
            indices == order@.map_values(|k: usize| k as int),
            forall|j: int| 0 <= j < order@.len() ==> order@[j] < entries@.len(),
            pool@.len() == n,
            forall|j: int| 0 <= j < n ==> (#[trigger] pool@[j])@ == entries@[indices[j]].1@,
        decreases order.len() - n,
    {
        assert(indices[n as int] == order@[n as int]);
        let entry = &entries[order[n]].1;
        pool.push(PoolEntry { label: entry.label.clone(), ready: entry.ready });
        n += 1;
    }
    assert(pool_views(pool@) =~= by_creation(entries@));
    pool
}

/// Labels of a provider's entries in creation order.
pub fn route_entry_labels(entries: &Vec<(Timestamp, PoolEntry)>) -> (labels: Vec<String>)
    ensures
        text_views(labels@) == labels_of(by_creation(entries@), false),
{
    let pool = order_pool(entries);
    collect_labels(&pool, false)
}

/// A step joined with the state of its breaker.
pub open spec fn step_status(step: ExpandedView, row: Option<BreakerView>, now: Timestamp) -> StatusView {
    let until = open_until(row, now);
    StatusView {
        provider: step.provider,
        label: step.label,
        model: step.model,
        open_until: until,
        reason: if until is Some {
            Some(row->0.reason)
        } else {
            None
        },
    }
}

/// Joins a chain with the breaker record of each of its steps.
pub fn route_snapshot(chain: ExpandedChain, breakers: &Vec<Option<Breaker>>, now: Timestamp) -> (snapshot: RouteSnapshot)
    requires
        breakers@.len() == chain.steps@.len(),
    ensures
        snapshot@.name == chain@.name,
        snapshot@.skipped == chain@.skipped,
        snapshot@.steps == Seq::new(
            chain@.steps.len(),
            |i: int| step_status(chain@.steps[i], breaker_view(breakers@[i]), now),
        ),
{
    let ghost expected = Seq::new(
        chain@.steps.len(),
        |i: int| step_status(chain@.steps[i], breaker_view(breakers@[i]), now),
    );
    let mut steps: Vec<RouteStepStatus> = Vec::new();
    let mut i: usize = 0;
    while i < chain.steps.len()
        invariant
            i <= chain.steps.len(),
            breakers@.len() == chain.steps@.len(),
            steps@.len() == i,
            forall|j: int|
                0 <= j < i ==> (#[trigger] steps@[j])@ == step_status(
                    chain@.steps[j],
                    breaker_view(breakers@[j]),
                    now,
                ),
        decreases chain.steps.len() - i,
    {
        let (until, reason) = open_state(&breakers[i], now);
        let step = &chain.steps[i];
        let status = RouteStepStatus {
            provider: step.provider.clone(),
            label: copy_option(&step.label),
            model: copy_option(&step.model),
            open_until: until,
            reason,
        };
        assert(chain@.steps[i as int] == chain.steps@[i as int]@);
        steps.push(status);
        i += 1;
    }
    assert(status_views(steps@) =~= expected);
    RouteSnapshot { name: chain.name, steps, skipped: chain.skipped }
}

/// The first step of `from..to` that is usable now.
pub open spec fn first_closed(steps: Seq<StatusView>, from: int, to: int) -> Option<int>
    decreases to - from,
{
    if from >= to {
        None
    } else if steps[from].open_until is None {
        Some(from)
    } else {
        first_closed(steps, from + 1, to)
    }
}

/// Where the scan for a usable step starts.
pub open spec fn start_of(steps: Seq<StatusView>, from: int) -> int {
    if from < steps.len() {
        from
    } else {
        steps.len() as int
    }
}

/// The first usable step at or after a position, wrapping to the start.
pub open spec fn picked(steps: Seq<StatusView>, from: int) -> Option<int> {
    match first_closed(steps, start_of(steps, from), steps.len() as int) {
        Some(i) => Some(i),
        None => first_closed(steps, 0, start_of(steps, from)),
    }
}

proof fn first_closed_is_first(steps: Seq<StatusView>, from: int, to: int)
    requires
        0 <= from <= to <= steps.len(),
    ensures
        match first_closed(steps, from, to) {
            Some(i) => from <= i < to && steps[i].open_until is None && forall|j: int|
                from <= j < i ==> (#[trigger] steps[j]).open_until is Some,
            None => forall|j: int| from <= j < to ==> (#[trigger] steps[j]).open_until is Some,
        },
    decreases to - from,
{
    if from < to && steps[from].open_until is Some {
        first_closed_is_first(steps, from + 1, to);
    }
}

/// A pick is usable, it is the first usable step from the position on when there is one there,
/// otherwise the first usable step of all, and there is none only when every step is open.
pub proof fn picks_are_usable(steps: Seq<StatusView>, from: int)
    requires
        from >= 0,
    ensures
        match picked(steps, from) {
            Some(i) => {
                &&& 0 <= i < steps.len()
                &&& steps[i].open_until is None
                &&& i >= from ==> forall|j: int|
                    from <= j < i ==> (#[trigger] steps[j]).open_until is Some
                &&& i < from ==> forall|j: int|
                    (0 <= j < i || from <= j < steps.len()) ==> (#[trigger] steps[j]).open_until is Some
            },
            None => forall|j: int| 0 <= j < steps.len() ==> (#[trigger] steps[j]).open_until is Some,
        },
{
    first_closed_is_first(steps, start_of(steps, from), steps.len() as int);
    first_closed_is_first(steps, 0, start_of(steps, from));
}

/// The first of the steps with the earliest retry, among the first `count`.
pub open spec fn earliest_index(steps: Seq<StatusView>, count: nat) -> Option<int>
    decreases count,
{
    if count == 0 {
        None
    } else {
        let before = earliest_index(steps, (count - 1) as nat);
        match (steps[count - 1].open_until, before) {
            (None, _) => before,
            (Some(_), None) => Some(count - 1),
            (Some(until), Some(best)) => if until.nanos < steps[best].open_until->0.nanos {
                Some(count - 1)
            } else {
                before
            },
        }
    }
}

/// The earliest retry is one of the steps' and no step's comes before it.
pub proof fn earliest_is_least(steps: Seq<StatusView>, count: nat)
    requires
        count <= steps.len(),
    ensures
        match earliest_index(steps, count) {
            Some(i) => 0 <= i < count && steps[i].open_until is Some && forall|j: int|
                0 <= j < count && (#[trigger] steps[j]).open_until is Some
                    ==> steps[i].open_until->0.nanos <= steps[j].open_until->0.nanos,
            None => forall|j: int| 0 <= j < count ==> (#[trigger] steps[j]).open_until is None,
        },
    decreases count,
{
    if count > 0 {
        earliest_is_least(steps, (count - 1) as nat);
    }
}

/// The earliest retry of a chain that has no usable step, with its reason.
pub open spec fn earliest_of(steps: Seq<StatusView>) -> Option<(Timestamp, Seq<char>)> {
    match earliest_index(steps, steps.len()) {
        Some(i) => Some(
            (
                steps[i].open_until->0,
                match steps[i].reason {
                    Some(reason) => reason,
                    None => "provider temporarily unavailable"@,
                },
            ),
        ),
        None => None,
    }
}

impl RouteSnapshot {
    fn first_closed_step(&self, from: usize, to: usize) -> (found: Option<usize>)
        requires
            from <= to <= self.steps@.len(),
        ensures
            match found {
                Some(i) => first_closed(self@.steps, from as int, to as int) == Some(i as int),
                None => first_closed(self@.steps, from as int, to as int) is None,
            },
            found matches Some(i) ==> i < to,
    {
        let mut i: usize = from;
        while i < to
            invariant
                from <= i <= to <= self.steps@.len(),
                first_closed(self@.steps, from as int, to as int) == first_closed(
                    self@.steps,
                    i as int,
                    to as int,
                ),
            decreases to - i,
        {
            assert(self@.steps[i as int] == self.steps@[i as int]@);
            if self.steps[i].open_until.is_none() {
                return Some(i);
            }
            i += 1;
        }
        None
    }

    /// The first usable step at or after `from`, wrapping to the first usable step from the start.
    pub fn pick(&self, from: u32) -> (step: Option<usize>)
        ensures
            match step {
                Some(i) => i < self.steps@.len() && picked(self@.steps, from as int) == Some(i as int),
                None => picked(self@.steps, from as int) is None,
            },
    {
        let len: usize = self.steps.len();
        let start: usize = if (from as u64) < len as u64 {
            from as usize
        } else {
            len
        };
        assert(self@.steps.len() == len);
        match self.first_closed_step(start, len) {
            Some(i) => Some(i),
            None => self.first_closed_step(0, start),
        }
    }

    fn earliest_step(&self) -> (found: Option<usize>)
        ensures
            match found {
                Some(i) => i < self.steps@.len() && earliest_index(self@.steps, self@.steps.len())
                    == Some(i as int) && self@.steps[i as int].open_until is Some,
                None => earliest_index(self@.steps, self@.steps.len()) is None,
            },
    {
        let mut best: Option<usize> = None;
        let mut i: usize = 0;
        while i < self.steps.len()
            invariant
                i <= self.steps.len(),
                match best {
                    Some(b) => b < i && earliest_index(self@.steps, i as nat) == Some(b as int)
                        && self@.steps[b as int].open_until is Some,
                    None => earliest_index(self@.steps, i as nat) is None,
                },
            decreases self.steps.len() - i,
        {
            assert(self@.steps[i as int] == self.steps@[i as int]@);
            if let Some(until) = self.steps[i].open_until {
                match best {
                    None => {
                        best = Some(i);
                    },
                    Some(b) => {
                        assert(self@.steps[b as int] == self.steps@[b as int]@);
                        if let Some(at) = self.steps[b].open_until {
                            if until.nanos < at.nanos {
                                best = Some(i);
                            }
                        }
                    },
                }
            }
            i += 1;
        }
        best
    }

    /// A usable step as `pick` finds it, or the step with the earliest retry when all are open.
    pub fn pick_or_earliest(&self, from: u32) -> (step: usize)
        ensures
            match picked(self@.steps, from as int) {
                Some(i) => step == i,
                None => match earliest_index(self@.steps, self@.steps.len()) {
                    Some(i) => step == i,
                    None => step == 0,
                },
            },
    {
        match self.pick(from) {
            Some(i) => i,
            None => match self.earliest_step() {
                Some(i) => i,
                None => 0,
            },
        }
    }

    /// The earliest retry across every step, with the reason of that step.
    pub fn earliest(&self) -> (found: Option<(Timestamp, String)>)
        ensures
            match found {
                Some((until, reason)) => earliest_of(self@.steps) == Some((until, reason@)),
                None => earliest_of(self@.steps) is None,
            },
    {
        match self.earliest_step() {
            None => None,
            Some(i) => {
                assert(self@.steps[i as int] == self.steps@[i as int]@);
                let until = match self.steps[i].open_until {
                    Some(until) => until,
                    None => {
                        return None;
                    },
                };
                let reason = match &self.steps[i].reason {
                    Some(reason) => reason.clone(),
                    None => "provider temporarily unavailable".to_owned(),
                };
                Some((until, reason))
            },
        }
    }
}

/// The earliest retry across steps, bounded by the failure's own retry time.
pub open spec fn retry_of(steps: Seq<StatusView>, fallback: Timestamp) -> Timestamp {
    match earliest_index(steps, steps.len()) {
        Some(i) => earlier_of(steps[i].open_until->0, fallback),
        None => fallback,
    }
}

/// The earliest retry across the steps of a snapshot, bounded by the failure's own retry time.
pub fn earliest_retry(snapshot: &RouteSnapshot, fallback: Timestamp) -> (retry: Timestamp)
    ensures
        retry == retry_of(snapshot@.steps, fallback),
{
    match snapshot.earliest_step() {
        Some(i) => {
            assert(snapshot@.steps[i as int] == snapshot.steps@[i as int]@);
            match snapshot.steps[i].open_until {
                Some(until) => until.min(fallback),
                None => fallback,
            }
        },
        None => fallback,
    }
}

// ---------------------------------------------------------------------------------------------
// Failover
// ---------------------------------------------------------------------------------------------

/// What one failover decided.
#[derive(Clone, Copy, Debug, PartialEq, Eq, Structural)]
pub enum FailoverAction {
    /// The session advanced to another step; the worker continues the turn.
    AdvanceTo(u32),
    /// The session parked until a retry; the worker's lease is gone.
    Park,
    /// An earlier attempt handled this failure; the worker continues.
    AlreadyHandled,
}

/// The decision with the route in use and the reasons for steps passed over.
#[derive(Clone, Debug, PartialEq, Eq)]
pub struct FailoverOutcome {
    pub action: FailoverAction,
    pub route: Option<String>,
    pub skipped: Vec<String>,
}

/// Reasons of the steps `lo..hi`.
pub open spec fn reasons_between(steps: Seq<StatusView>, lo: int, hi: int) -> Seq<Seq<char>>
    decreases hi - lo,
{
    if hi <= lo {
        Seq::empty()
    } else {
        let before = reasons_between(steps, lo, hi - 1);
        if hi - 1 < steps.len() {
            match steps[hi - 1].reason {
                Some(reason) => before.push(reason),
                None => before,
            }
        } else {
            before
        }
    }
}

/// Where the steps end that a failover moves past: at the target, or at the end of the chain when
/// it wraps.
pub open spec fn passed_end(steps: Seq<StatusView>, from: u32, target: u32) -> int {
    if target > from {
        target as int
    } else if steps.len() < u32::MAX {
        steps.len() as int
    } else {
        u32::MAX as int
    }
}

/// Reasons recorded when a failover moves past steps: the failure, the steps passed over as not
/// ready, and the open steps between the failed one and the target.
pub open spec fn move_reasons(snapshot: SnapshotView, from: u32, target: u32, error: Seq<char>) -> Seq<Seq<char>> {
    seq![error] + snapshot.skipped + reasons_between(
        snapshot.steps,
        from + 1,
        passed_end(snapshot.steps, from, target),
    )
}

/// Reasons recorded when a failover moves past steps.
pub fn failover_reasons(snapshot: &RouteSnapshot, from: u32, target: u32, error: &str) -> (reasons: Vec<String>)
    ensures
        text_views(reasons@) == move_reasons(snapshot@, from, target, error@),
{
    let ghost steps = snapshot@.steps;
    let mut reasons: Vec<String> = Vec::new();
    reasons.push(error.to_owned());
    assert(text_views(reasons@) =~= seq![error@] + snapshot@.skipped.take(0));
    let mut i: usize = 0;
    while i < snapshot.skipped.len()
        invariant
            i <= snapshot.skipped.len(),
            text_views(reasons@) == seq![error@] + snapshot@.skipped.take(i as int),
        decreases snapshot.skipped.len() - i,
    {
        let ghost held = reasons@;
        let reason = snapshot.skipped[i].clone();
        reasons.push(reason);
        assert(snapshot@.skipped[i as int] == reason@);
        assert(text_views(reasons@) =~= text_views(held).push(reason@));
        assert(text_views(reasons@) =~= seq![error@] + snapshot@.skipped.take(i + 1));
        i += 1;
    }
    assert(snapshot@.skipped.take(i as int) =~= snapshot@.skipped);
    let len: usize = snapshot.steps.len();
    assert(steps.len() == len);
    let end: u32 = if target > from {
        target
    } else if (len as u64) < u32::MAX as u64 {
        len as u32
    } else {
        u32::MAX
    };
    let ghost start = seq![error@] + snapshot@.skipped;
    let mut at: u64 = from as u64 + 1;
    assert(reasons_between(steps, from + 1, at as int) =~= Seq::<Seq<char>>::empty());
    assert(text_views(reasons@) =~= start + reasons_between(steps, from + 1, at as int));
    while at < end as u64
        invariant
            from + 1 <= at,
            at <= end || at == from + 1,
            steps == snapshot@.steps,
            steps.len() == len,
            len == snapshot.steps@.len(),
            text_views(reasons@) == start + reasons_between(steps, from + 1, at as int),
        decreases end as u64 - at,
    {
        if at < len as u64 {
            assert(steps[at as int] == snapshot.steps@[at as int]@);
            if let Some(reason) = &snapshot.steps[at as usize].reason {
                let ghost held = reasons@;
                let copy = reason.clone();
                reasons.push(copy);
                assert(text_views(reasons@) =~= text_views(held).push(copy@));
            }
        }
        assert(text_views(reasons@) =~= start + reasons_between(steps, from + 1, at + 1));
        at += 1;
    }
    assert(text_views(reasons@) =~= move_reasons(snapshot@, from, target, error@)) by {
        if at > end {
            assert(reasons_between(steps, from + 1, end as int) =~= Seq::<Seq<char>>::empty());
        }
    }
    reasons
}

/// The prefix of failures that mean that no gateway serves the provider yet.
pub open spec fn unserved(error: Seq<char>) -> bool {
    occurs_at(error, "no gateway serves provider "@, 0)
}

/// Whether no gateway serves the provider yet. The provider may appear with the next
/// advertisement, so the session waits on its step.
pub fn is_unserved_error(error: &str) -> (found: bool)
    ensures
        found == unserved(error@),
{
    starts_with(error, "no gateway serves provider ")
}

/// The wait after a failover wrote a step with its reasons.
pub open spec fn stepped_wait(row: Option<WaitView>, seq: u64, reasons: Seq<Seq<char>>, now: Timestamp) -> WaitView {
    let wait = match row {
        Some(wait) => wait,
        None => fresh_wait(now, now),
    };
    WaitView {
        attempts: if wait.last_failure_seq != seq {
            one_more(wait.attempts)
        } else {
            wait.attempts
        },
        last_failure_seq: seq,
        reasons: noted_all(wait.reasons, reasons),
        ..wait
    }
}

/// Marks a failure handled and merges its reasons into the wait. Without reasons nothing changes.
pub fn write_route_step(row: Option<InferenceWait>, seq: u64, reasons: &Vec<String>, now: Timestamp) -> (next: Option<InferenceWait>)
    ensures
        wait_view(next) == if reasons@.len() == 0 {
            wait_view(row)
        } else {
            Some(stepped_wait(wait_view(row), seq, text_views(reasons@), now))
        },
{
    if reasons.len() == 0 {
        return row;
    }
    let mut wait = match row {
        Some(wait) => wait,
        None => InferenceWait {
            since: now,
            wake_at: now,
            last_failure_seq: 0,
            reasons: Vec::new(),
            attempts: 0,
        },
    };
    assert(row is None ==> text_views(wait.reasons@) =~= Seq::<Seq<char>>::empty());
    if wait.last_failure_seq != seq {
        wait.attempts = wait.attempts.saturating_add(1);
    }
    wait.last_failure_seq = seq;
    let ghost held = text_views(wait.reasons@);
    let ghost more = text_views(reasons@);
    let ghost kept = wait;
    let mut i: usize = 0;
    assert(more.take(0) =~= Seq::<Seq<char>>::empty());
    while i < reasons.len()
        invariant
            i <= reasons.len(),
            more == text_views(reasons@),
            wait.since == kept.since,
            wait.wake_at == kept.wake_at,
            wait.last_failure_seq == kept.last_failure_seq,
            wait.attempts == kept.attempts,
            text_views(wait.reasons@) == noted_all(held, more.take(i as int)),
        decreases reasons.len() - i,
    {
        proof {
            assert(more.take(i + 1).drop_last() =~= more.take(i as int));
            assert(more.take(i + 1).last() == reasons@[i as int]@);
        }
        note_reason(&mut wait.reasons, reasons[i].as_str());
        i += 1;
    }
    assert(more.take(i as int) =~= more);
    Some(wait)
}

/// Whether an earlier attempt handled a failure.
pub open spec fn handled(row: Option<WaitView>, seq: u64) -> bool {
    row matches Some(wait) && wait.last_failure_seq == seq
}

/// Whether an earlier attempt handled a failure, so nothing else needs to be read.
pub fn already_handled(row: &Option<InferenceWait>, seq: u64) -> (done: bool)
    ensures
        done == handled(wait_view(*row), seq),
{
    match row {
        Some(wait) => wait.last_failure_seq == seq,
        None => false,
    }
}

/// The step that a failover moves to, unless the chain is exhausted or only the failed step still
/// reads as usable.
pub open spec fn failover_target(steps: Seq<StatusView>, route_step: u32) -> Option<u32> {
    match picked(steps, if route_step < u32::MAX { route_step + 1 } else { route_step as int }) {
        Some(i) => {
            let target = if i <= u32::MAX {
                i as u32
            } else {
                u32::MAX
            };
            if target != route_step {
                Some(target)
            } else {
                None
            }
        },
        None => None,
    }
}

/// What a failover writes.
pub struct Failover {
    pub outcome: FailoverOutcome,
    pub rows: SessionRows,
    pub wait: Option<InferenceWait>,
    pub clear_due: Option<Timestamp>,
    pub add_due: Option<Timestamp>,
    /// Attempt position to write; none leaves it.
    pub route_step: Option<u32>,
}

/// Whether a failover left the rows of a session parked until `wake_at` at the latest.
pub open spec fn parked_by(
    failover: Failover,
    rows: SessionRows,
    row: Option<WaitView>,
    seq: u64,
    reason: Seq<char>,
    wake_at: Timestamp,
    now: Timestamp,
    limit: Timestamp,
) -> bool {
    let wait = failure_wait(row, seq, reason, wake_at, now, limit);
    &&& failover.outcome.action == FailoverAction::Park
    &&& wait_view(failover.wait) == Some(wait)
    &&& failover.clear_due == stale_due(row)
    &&& failover.add_due == Some(wait.wake_at)
    &&& failover.rows == transitioned(rows, rows.session->0, SessionState::Sleeping, now)
}

fn copy_texts(list: &Vec<String>) -> (copy: Vec<String>)
    ensures
        text_views(copy@) == text_views(list@),
{
    let mut copy: Vec<String> = Vec::new();
    let mut i: usize = 0;
    while i < list.len()
        invariant
            i <= list.len(),
            copy@.len() == i,
            forall|j: int| 0 <= j < i ==> (#[trigger] copy@[j])@ == list@[j]@,
        decreases list.len() - i,
    {
        copy.push(list[i].clone());
        i += 1;
    }
    assert(text_views(copy@) =~= text_views(list@));
    copy
}

/// Resolves one retryable failure: the session advances to the next usable step, or parks. A
/// failure that was handled before changes nothing, so a resumed worker never moves twice for one
/// failure. While no gateway serves the provider the session waits on its step.
pub fn failover_route_step(
    rows: &SessionRows,
    lease: &Lease,
    row: Option<InferenceWait>,
    seq: u64,
    error: &str,
    retry_at: Timestamp,
    route_step: u32,
    snapshot: &RouteSnapshot,
    now: Timestamp,
    max_wait: Duration,
) -> (result: StoreResult<Failover>)
    ensures
        !holds(*rows, *lease, now) ==> (result matches Err(failure) && failure == if rows.lease
            == Some(*lease) && rows.session is None {
            StoreError::SessionMissing
        } else {
            StoreError::LeaseMismatch
        }),
        holds(*rows, *lease, now) && handled(wait_view(row), seq) ==> {
            &&& result matches Ok(done)
            &&& done.outcome.action == FailoverAction::AlreadyHandled
            &&& done.outcome.route is None
            &&& done.outcome.skipped@.len() == 0
            &&& done.rows == *rows
            &&& wait_view(done.wait) == wait_view(row)
            &&& done.clear_due is None
            &&& done.add_due is None
            &&& done.route_step is None
        },
        holds(*rows, *lease, now) && !handled(wait_view(row), seq) ==> ({
            let limit = moved(waiting_since(wait_view(row), now).nanos as int, max_wait.nanos as int);
            let target = failover_target(snapshot@.steps, route_step);
            if !unserved(error@) && target is Some {
                &&& result matches Ok(done)
                &&& done.outcome.action == FailoverAction::AdvanceTo(target->0)
                &&& done.outcome.route.deep_view() == snapshot@.name
                &&& text_views(done.outcome.skipped@) == snapshot@.skipped
                &&& done.rows == *rows
                &&& wait_view(done.wait) == Some(
                    stepped_wait(
                        wait_view(row),
                        seq,
                        move_reasons(snapshot@, route_step, target->0, error@),
                        now,
                    ),
                )
                &&& done.clear_due is None
                &&& done.add_due is None
                &&& done.route_step == target
            } else {
                match limit {
                    None => result matches Err(failure) && failure == StoreError::Corrupt,
                    Some(limit) => {
                        &&& result matches Ok(done)
                        &&& done.outcome.route.deep_view() == snapshot@.name
                        &&& text_views(done.outcome.skipped@) == snapshot@.skipped
                        &&& parked_by(
                            done,
                            *rows,
                            wait_view(row),
                            seq,
                            error@,
                            if unserved(error@) {
                                retry_at
                            } else {
                                retry_of(snapshot@.steps, retry_at)
                            },
                            now,
                            limit,
                        )
                        &&& done.route_step == if unserved(error@) {
                            None
                        } else {
                            Some(0u32)
                        }
                    },
                }
            }
        }),
{
    let session = check_worker_lease(rows, lease, now)?;
    if already_handled(&row, seq) {
        return Ok(
            Failover {
                outcome: FailoverOutcome {
                    action: FailoverAction::AlreadyHandled,
                    route: None,
                    skipped: Vec::new(),
                },
                rows: *rows,
                wait: row,
                clear_due: None,
                add_due: None,
                route_step: None,
            },
        );
    }
    let served = !is_unserved_error(error);
    if served {
        if let Some(i) = snapshot.pick(route_step.saturating_add(1)) {
            let target: u32 = if i as u64 <= u32::MAX as u64 {
                i as u32
            } else {
                u32::MAX
            };
            if target != route_step {
                let reasons = failover_reasons(snapshot, route_step, target, error);
                assert(text_views(reasons@).len() == reasons@.len());
                let wait = write_route_step(row, seq, &reasons, now);
                return Ok(
                    Failover {
                        outcome: FailoverOutcome {
                            action: FailoverAction::AdvanceTo(target),
                            route: copy_option(&snapshot.name),
                            skipped: copy_texts(&snapshot.skipped),
                        },
                        rows: *rows,
                        wait,
                        clear_due: None,
                        add_due: None,
                        route_step: Some(target),
                    },
                );
            }
        }
    }
    let wake_at = if served {
        earliest_retry(snapshot, retry_at)
    } else {
        retry_at
    };
    let failure = InferenceFailureWait { seq, reason: error, wake_at };
    let parked = park_leased(rows, session, row, &failure, now, max_wait)?;
    Ok(
        Failover {
            outcome: FailoverOutcome {
                action: FailoverAction::Park,
                route: copy_option(&snapshot.name),
                skipped: copy_texts(&snapshot.skipped),
            },
            rows: parked.rows,
            wait: Some(parked.wait),
            clear_due: parked.clear_due,
            add_due: Some(parked.add_due),
            route_step: if served {
                Some(0)
            } else {
                None
            },
        },
    )
}

/// A failure is handled once: whatever a failover decided, the wait it leaves marks the failure
/// handled, so a second attempt changes nothing.
pub proof fn failures_are_handled_once(
    row: Option<WaitView>,
    seq: u64,
    reasons: Seq<Seq<char>>,
    reason: Seq<char>,
    wake_at: Timestamp,
    now: Timestamp,
    limit: Timestamp,
)
    ensures
        handled(Some(stepped_wait(row, seq, reasons, now)), seq),
        handled(Some(failure_wait(row, seq, reason, wake_at, now, limit)), seq),
{
}

/// A failover never moves to the step that failed, and it moves to a usable step only. Positions
/// fit the attempt counter.
pub proof fn failovers_leave_the_failed_step(steps: Seq<StatusView>, route_step: u32)
    requires
        steps.len() <= u32::MAX,
    ensures
        failover_target(steps, route_step) matches Some(target) ==> target != route_step && target
            < steps.len() && steps[target as int].open_until is None,
{
    let from = if route_step < u32::MAX {
        route_step + 1
    } else {
        route_step as int
    };
    picks_are_usable(steps, from);
}

/// Advancing keeps the reasons of a wait few, short and distinct.
pub proof fn advancing_keeps_reasons_tidy(row: Option<WaitView>, seq: u64, reasons: Seq<Seq<char>>, now: Timestamp)
    requires
        row matches Some(wait) ==> tidy(wait.reasons),
    ensures
        tidy(stepped_wait(row, seq, reasons, now).reasons),
    decreases reasons.len(),
{
    if reasons.len() > 0 {
        advancing_keeps_reasons_tidy(row, seq, reasons.drop_last(), now);
        let before = match row {
            Some(wait) => wait.reasons,
            None => Seq::empty(),
        };
        noting_keeps_reasons_tidy(noted_all(before, reasons.drop_last()), reasons.last());
    }
}

// ---------------------------------------------------------------------------------------------
// Stored routes
// ---------------------------------------------------------------------------------------------

/// The record of a route to store. `problem` is what validation found wrong with it.
pub fn put_route(name: &str, steps: Vec<RouteStep>, problem: Option<String>, now: Timestamp) -> (result: StoreResult<RouteRecord>)
    ensures
        match problem {
            Some(text) => result matches Err(StoreError::InvalidRoute(reason)) && reason == text,
            None => result matches Ok(record) && record.name@ == name@ && record.steps == steps
                && record.updated_at == now,
        },
{
    match problem {
        Some(text) => Err(StoreError::InvalidRoute(text)),
        None => Ok(RouteRecord { name: name.to_owned(), steps, updated_at: now }),
    }
}

/// A listed route, provided its record carries the name of its key.
pub fn listed_route(name: &str, record: RouteRecord) -> (result: StoreResult<RouteRecord>)
    ensures
        if record.name@ == name@ {
            result matches Ok(found) && found == record
        } else {
            result matches Err(error) && error == StoreError::Corrupt
        },
{
    if same(record.name.as_str(), name) {
        Ok(record)
    } else {
        Err(StoreError::Corrupt)
    }
}

/// Assigns a session's own route and restarts its attempts. A named route must exist, and so must
/// the session. Returns the route and the attempt position to store.
pub fn set_session_route(rows: &SessionRows, route: Option<String>, found: bool) -> (result: StoreResult<(Option<String>, u32)>)
    ensures
        if route is Some && !found {
            result matches Err(error) && error == StoreError::RouteMissing
        } else if rows.session is None {
            result matches Err(error) && error == StoreError::SessionMissing
        } else {
            result matches Ok((stored, step)) && stored == route && step == 0
        },
{
    if route.is_some() && !found {
        return Err(StoreError::RouteMissing);
    }
    if rows.session.is_none() {
        return Err(StoreError::SessionMissing);
    }
    Ok((route, 0))
}

// ---------------------------------------------------------------------------------------------
// What a chain owes its route
// ---------------------------------------------------------------------------------------------

/// Labels are taken entry by entry: the labels of two pools one after the other are the labels of
/// the first and then those of the second. One entry gives its own label, or nothing where only
/// ready entries count and it is not ready.
pub proof fn labels_are_taken_entry_by_entry(left: Seq<PoolEntryView>, right: Seq<PoolEntryView>, entry: PoolEntryView, ready_only: bool)
    ensures
        labels_of(left + right, ready_only) == labels_of(left, ready_only) + labels_of(right, ready_only),
        entry.ready ==> labels_of(seq![entry], ready_only) == seq![entry.label],
        !entry.ready && !ready_only ==> labels_of(seq![entry], ready_only) == seq![entry.label],
        !entry.ready && ready_only ==> labels_of(seq![entry], ready_only).len() == 0,
    decreases right.len(),
{
    reveal_with_fuel(labels_of, 2);
    assert(seq![entry].drop_last() =~= Seq::empty());
    assert(labels_of(seq![entry].drop_last(), ready_only).len() == 0);
    assert(labels_of(Seq::<PoolEntryView>::empty(), ready_only) =~= Seq::<Seq<char>>::empty());
    assert(Seq::<Seq<char>>::empty().push(entry.label) =~= seq![entry.label]);
    if right.len() == 0 {
        assert(left + right =~= left);
        assert(labels_of(left, ready_only) + labels_of(right, ready_only) =~= labels_of(left, ready_only));
    } else {
        labels_are_taken_entry_by_entry(left, right.drop_last(), entry, ready_only);
        assert((left + right).drop_last() =~= left + right.drop_last());
        assert((left + right).last() == right.last());
        assert(labels_of(left + right, ready_only) =~= labels_of(left, ready_only) + labels_of(right, ready_only));
    }
}

proof fn taken_labels(pool: Seq<PoolEntryView>, ready_only: bool) -> (at: Seq<int>)
    ensures
        at.len() == labels_of(pool, ready_only).len(),
        forall|k: int, l: int| 0 <= k < l < at.len() ==> #[trigger] at[k] < #[trigger] at[l],
        forall|k: int|
            0 <= k < at.len() ==> 0 <= #[trigger] at[k] < pool.len() && pool[at[k]].label == labels_of(
                pool,
                ready_only,
            )[k] && (pool[at[k]].ready || !ready_only),
        forall|i: int|
            0 <= i < pool.len() && (pool[i].ready || !ready_only) ==> #[trigger] at.contains(i),
    decreases pool.len(),
{
    if pool.len() == 0 {
        Seq::empty()
    } else {
        let before = taken_labels(pool.drop_last(), ready_only);
        let last = pool.len() - 1;
        assert forall|k: int| 0 <= k < before.len() implies pool[#[trigger] before[k]]
            == pool.drop_last()[before[k]] by {}
        let at = if pool.last().ready || !ready_only {
            before.push(last)
        } else {
            before
        };
        assert forall|i: int| 0 <= i < pool.len() && (pool[i].ready || !ready_only) implies #[trigger] at.contains(i) by {
            if i == last {
                assert(at[before.len() as int] == i);
            } else {
                assert(pool.drop_last()[i] == pool[i]);
                assert(before.contains(i));
                let k = choose|k: int| 0 <= k < before.len() && before[k] == i;
                assert(at[k] == i);
            }
        }
        at
    }
}

/// Whether labels are those of the entries at these places of a pool, which are in order, and are
/// the places of the ready entries, or of all where none is ready.
pub open spec fn taken_in_order(pool: Seq<PoolEntry>, labels: Seq<String>, at: Seq<int>) -> bool {
    &&& at.len() == labels.len()
    &&& forall|k: int, l: int| 0 <= k < l < at.len() ==> #[trigger] at[k] < #[trigger] at[l]
    &&& forall|k: int|
        0 <= k < at.len() ==> 0 <= #[trigger] at[k] < pool.len() && pool[at[k]].label@ == labels[k]@
    &&& if exists|i: int| 0 <= i < pool.len() && (#[trigger] pool[i]).ready {
        forall|i: int| 0 <= i < pool.len() ==> ((#[trigger] pool[i]).ready <==> at.contains(i))
    } else {
        at.len() == pool.len()
    }
}

/// The usable labels of a pool are the labels of its ready entries, each once and in the pool's
/// order. Where no entry is ready they are the labels of all its entries.
pub proof fn usable_labels_keep_the_pool_order(pool: Vec<PoolEntry>, labels: Vec<String>)
    requires
        call_ensures(usable_labels, (&pool,), labels),
    ensures
        exists|at: Seq<int>| #[trigger] taken_in_order(pool@, labels@, at),
{
    let views = pool_views(pool@);
    let ready_only = any_ready(views);
    ready_labels(views);
    let at = taken_labels(views, ready_only);
    assert(text_views(labels@).len() == labels@.len());
    assert forall|k: int| 0 <= k < at.len() implies 0 <= #[trigger] at[k] < pool@.len()
        && pool@[at[k]].label@ == labels@[k]@ by {
        assert(text_views(labels@)[k] == labels@[k]@);
        assert(views[at[k]] == pool@[at[k]]@);
    }
    if exists|i: int| 0 <= i < pool@.len() && (#[trigger] pool@[i]).ready {
        let i = choose|i: int| 0 <= i < pool@.len() && (#[trigger] pool@[i]).ready;
        assert(views[i].ready);
        assert forall|i: int| 0 <= i < pool@.len() implies ((#[trigger] pool@[i]).ready <==> at.contains(i)) by {
            assert(views[i] == pool@[i]@);
            if at.contains(i) {
                let k = choose|k: int| 0 <= k < at.len() && at[k] == i;
                assert(views[at[k]].ready);
            }
        }
    } else {
        if ready_only {
            let i = choose|i: int| 0 <= i < views.len() && (#[trigger] views[i]).ready;
            assert(pool@[i].ready);
        }
        assert(at.len() == pool@.len());
    }
    assert(taken_in_order(pool@, labels@, at));
}

/// Every step that a route step expands to is for that step's provider and asks for that step's
/// model, whether the step names one entry or all of them.
pub proof fn expanded_steps_keep_provider_and_model(pools: Map<Seq<char>, Seq<PoolEntryView>>, step: RouteStepView)
    ensures
        forall|i: int|
            0 <= i < step_expansion(pools, step).len() ==> (#[trigger] step_expansion(pools, step)[i]).provider
                == step.provider && step_expansion(pools, step)[i].model == step.model,
{
}

/// A step that names one entry expands to that entry alone or to nothing. A step for all entries
/// expands to as many steps as the pool has ready entries; to one step without a label where the
/// store holds no entry of the provider.
pub proof fn steps_expand_to_their_entries(pools: Map<Seq<char>, Seq<PoolEntryView>>, step: RouteStepView)
    ensures
        step.entry != "*"@ ==> step_expansion(pools, step).len() <= 1 && forall|i: int|
            0 <= i < step_expansion(pools, step).len() ==> (#[trigger] step_expansion(pools, step)[i]).label
                == Some(step.entry),
        step.entry != "*"@ && !pools.dom().contains(step.provider) ==> step_expansion(pools, step).len() == 1,
        step.entry == "*"@ && !pools.dom().contains(step.provider) ==> step_expansion(pools, step).len() == 1
            && step_expansion(pools, step)[0].label is None,
        step.entry == "*"@ && pools.dom().contains(step.provider) && pools[step.provider].len() == 0
            ==> step_expansion(pools, step).len() == 1 && step_expansion(pools, step)[0].label is None,
        step.entry == "*"@ && pools.dom().contains(step.provider) && pools[step.provider].len() > 0 ==> {
            &&& forall|i: int|
                0 <= i < step_expansion(pools, step).len() ==> (#[trigger] step_expansion(pools, step)[i]).label
                    is Some && exists|j: int|
                    0 <= j < pools[step.provider].len() && (#[trigger] pools[step.provider][j]).label
                        == step_expansion(pools, step)[i].label->0
            &&& forall|j: int|
                0 <= j < pools[step.provider].len() && (#[trigger] pools[step.provider][j]).ready ==> exists|
                    i: int,
                |
                    0 <= i < step_expansion(pools, step).len() && (#[trigger] step_expansion(pools, step)[i]).label
                        == Some(pools[step.provider][j].label)
        },
{
    if step.entry == "*"@ && pools.dom().contains(step.provider) && pools[step.provider].len() > 0 {
        let pool = pools[step.provider];
        let at = taken_labels(pool, any_ready(pool));
        let list = step_expansion(pools, step);
        assert forall|i: int| 0 <= i < list.len() implies (#[trigger] list[i]).label is Some && exists|j: int|
            0 <= j < pool.len() && (#[trigger] pool[j]).label == list[i].label->0 by {
            assert(pool[at[i]].label == list[i].label->0);
        }
        assert forall|j: int| 0 <= j < pool.len() && (#[trigger] pool[j]).ready implies exists|i: int|
            0 <= i < list.len() && (#[trigger] list[i]).label == Some(pool[j].label) by {
            assert(at.contains(j));
            let k = choose|k: int| 0 <= k < at.len() && at[k] == j;
            assert(list[k].label == Some(pool[j].label));
        }
    }
}

/// Whether an expanded step stands for a step of a route.
pub open spec fn stands_for(expanded: ExpandedRouteStep, step: RouteStep) -> bool {
    &&& expanded.provider@ == step.provider@
    &&& expanded.model.deep_view() == step.model.deep_view()
    &&& step.entry@ != "*"@ ==> expanded.label.deep_view() == Some(step.entry@)
}

proof fn expansion_origins(pools: Map<Seq<char>, Seq<PoolEntryView>>, steps: Seq<RouteStepView>) -> (origin: Seq<int>)
    ensures
        origin.len() == expansion(pools, steps).len(),
        forall|k: int, l: int| 0 <= k < l < origin.len() ==> #[trigger] origin[k] <= #[trigger] origin[l],
        forall|k: int|
            0 <= k < origin.len() ==> 0 <= #[trigger] origin[k] < steps.len() && ({
                let expanded = expansion(pools, steps)[k];
                let step = steps[origin[k]];
                &&& expanded.provider == step.provider
                &&& expanded.model == step.model
                &&& step.entry != "*"@ ==> expanded.label == Some(step.entry)
            }),
        forall|j: int|
            0 <= j < steps.len() && !pools.dom().contains((#[trigger] steps[j]).provider) ==> origin.contains(j),
    decreases steps.len(),
{
    if steps.len() == 0 {
        Seq::empty()
    } else {
        let rest = steps.drop_last();
        let before = expansion_origins(pools, rest);
        let own = step_expansion(pools, steps.last());
        let last = steps.len() - 1;
        let origin = before + Seq::new(own.len(), |i: int| last);
        steps_expand_to_their_entries(pools, steps.last());
        assert forall|k: int| 0 <= k < origin.len() implies 0 <= #[trigger] origin[k] < steps.len() && ({
            let expanded = expansion(pools, steps)[k];
            let step = steps[origin[k]];
            &&& expanded.provider == step.provider
            &&& expanded.model == step.model
            &&& step.entry != "*"@ ==> expanded.label == Some(step.entry)
        }) by {
            if k < before.len() {
                assert(expansion(pools, steps)[k] == expansion(pools, rest)[k]);
                assert(before[k] == origin[k]);
            } else {
                assert(expansion(pools, steps)[k] == own[k - before.len()]);
            }
        }
        assert forall|j: int| 0 <= j < steps.len() && !pools.dom().contains((#[trigger] steps[j]).provider) implies origin.contains(j) by {
            if j < last {
                assert(rest[j] == steps[j]);
                let k = choose|k: int| 0 <= k < before.len() && before[k] == j;
                assert(origin[k] == j);
            } else {
                assert(own.len() == 1);
                assert(origin[before.len() as int] == j);
            }
        }
        origin
    }
}

/// Whether expanded steps stand for the route steps at these places, which are in order and leave
/// out no step of a provider that the store holds no entries of.
pub open spec fn follows(
    expanded: Seq<ExpandedRouteStep>,
    steps: Seq<RouteStep>,
    stored: Set<Seq<char>>,
    origin: Seq<int>,
) -> bool {
    &&& origin.len() == expanded.len()
    &&& forall|k: int, l: int| 0 <= k < l < origin.len() ==> #[trigger] origin[k] <= #[trigger] origin[l]
    &&& forall|k: int|
        0 <= k < origin.len() ==> 0 <= #[trigger] origin[k] < steps.len() && stands_for(
            expanded[k],
            steps[origin[k]],
        )
    &&& forall|j: int|
        0 <= j < steps.len() && !stored.contains((#[trigger] steps[j]).provider@) ==> origin.contains(j)
}

/// A chain under a route's name holds steps of that route alone, in the route's order, each with
/// the provider and the model of the step that it stands for. No step of a provider that the store
/// holds no entries of is lost. A chain without a name asks for no model and is for the fallback
/// provider alone.
pub proof fn chains_follow_their_route(
    record: Option<&RouteRecord>,
    pools: TextMap<Vec<PoolEntry>>,
    fallback_provider: &str,
    expanded: ExpandedChain,
)
    requires
        pools.wf(),
        call_ensures(expand_chain, (record, &pools, fallback_provider), expanded),
    ensures
        expanded.steps@.len() > 0,
        match expanded.name {
            Some(name) => record matches Some(route) && name@ == route.name@ && exists|origin: Seq<int>|
                #[trigger] follows(expanded.steps@, route.steps@, pools@.dom(), origin),
            None => forall|k: int|
                0 <= k < expanded.steps@.len() ==> (#[trigger] expanded.steps@[k]).provider@
                    == fallback_provider@ && expanded.steps@[k].model is None,
        },
        expanded.skipped@.len() <= match record {
            Some(route) => route.steps@.len(),
            None => 0,
        },
{
    let views = pools_view(pools@);
    let whole = chain(route_view(record), views, fallback_provider@);
    chains_have_steps(route_view(record), views, fallback_provider@);
    assert(expanded@ == whole);
    assert(expanded@.steps.len() == expanded.steps@.len());
    assert(expanded@.skipped.len() == expanded.skipped@.len());
    match expanded.name {
        Some(name) => {
            let route = record->0;
            let steps = step_views(route.steps@);
            assert(record is Some);
            let origin = expansion_origins(views, steps);
            assert forall|k: int| 0 <= k < origin.len() implies 0 <= #[trigger] origin[k] < route.steps@.len()
                && stands_for(expanded.steps@[k], route.steps@[origin[k]]) by {
                assert(expanded@.steps[k] == expanded.steps@[k]@);
                assert(steps[origin[k]] == route.steps@[origin[k]]@);
            }
            assert forall|j: int| 0 <= j < route.steps@.len() && !pools@.dom().contains(
                (#[trigger] route.steps@[j]).provider@,
            ) implies origin.contains(j) by {
                assert(steps[j] == route.steps@[j]@);
                assert(!views.dom().contains(steps[j].provider));
            }
            assert(follows(expanded.steps@, route.steps@, pools@.dom(), origin));
        },
        None => {
            let own = all_entries(views, fallback_provider@, None);
            assert forall|k: int| 0 <= k < expanded.steps@.len() implies (#[trigger] expanded.steps@[k]).provider@
                == fallback_provider@ && expanded.steps@[k].model is None by {
                assert(expanded@.steps[k] == expanded.steps@[k]@);
                assert(expanded@.steps[k] == own[k]);
            }
        },
    }
    few_skips(views, route_steps(route_view(record)));
}

proof fn few_skips(pools: Map<Seq<char>, Seq<PoolEntryView>>, steps: Seq<RouteStepView>)
    ensures
        skips(pools, steps).len() <= steps.len(),
    decreases steps.len(),
{
    if steps.len() > 0 {
        few_skips(pools, steps.drop_last());
    }
}

/// Expansion goes step by step: what two routes one after the other expand to is what the first
/// expands to and then what the second does, and the same holds of what is passed over.
pub proof fn routes_expand_step_by_step(
    pools: Map<Seq<char>, Seq<PoolEntryView>>,
    left: Seq<RouteStepView>,
    right: Seq<RouteStepView>,
)
    ensures
        expansion(pools, left + right) == expansion(pools, left) + expansion(pools, right),
        skips(pools, left + right) == skips(pools, left) + skips(pools, right),
    decreases right.len(),
{
    if right.len() == 0 {
        assert(left + right =~= left);
        assert(expansion(pools, left) + expansion(pools, right) =~= expansion(pools, left));
        assert(skips(pools, left) + skips(pools, right) =~= skips(pools, left));
    } else {
        routes_expand_step_by_step(pools, left, right.drop_last());
        assert((left + right).drop_last() =~= left + right.drop_last());
        assert((left + right).last() == right.last());
        assert(expansion(pools, left + right) =~= expansion(pools, left) + expansion(pools, right));
        assert(skips(pools, left + right) =~= skips(pools, left) + skips(pools, right));
    }
}

/// The session's own route goes before its agent's, and that before the default; a name that is
/// chosen is one of the three, and none is chosen only where there is none.
pub proof fn nearer_routes_win(session: Option<String>, agent: Option<String>, default: Option<String>, name: Option<String>)
    requires
        call_ensures(route_name, (&session, &agent, &default), name),
    ensures
        session is Some ==> name.deep_view() == session.deep_view(),
        session is None && agent is Some ==> name.deep_view() == agent.deep_view(),
        session is None && agent is None ==> name.deep_view() == default.deep_view(),
{
}

/// The session's own provider goes before its agent's, and that before the default.
pub proof fn nearer_providers_win(session: Option<String>, agent: Option<String>, default: &str, provider: String)
    requires
        call_ensures(route_provider, (&session, &agent, default), provider),
    ensures
        session is Some ==> provider@ == session->0@,
        session is None && agent is Some ==> provider@ == agent->0@,
        session is None && agent is None ==> provider@ == default@,
{
}

/// A snapshot has the steps of its chain, each with its provider, label and model. A step is open
/// exactly while its breaker is, and until the moment and for the reason that the breaker gives.
pub proof fn snapshots_keep_the_chain(
    chain: ExpandedChain,
    breakers: Vec<Option<Breaker>>,
    now: Timestamp,
    snapshot: RouteSnapshot,
)
    requires
        breakers@.len() == chain.steps@.len(),
        call_ensures(route_snapshot, (chain, &breakers, now), snapshot),
    ensures
        snapshot.name.deep_view() == chain.name.deep_view(),
        text_views(snapshot.skipped@) == text_views(chain.skipped@),
        snapshot.steps@.len() == chain.steps@.len(),
        forall|i: int|
            0 <= i < snapshot.steps@.len() ==> ({
                let step = #[trigger] snapshot.steps@[i];
                &&& step.provider@ == chain.steps@[i].provider@
                &&& step.label.deep_view() == chain.steps@[i].label.deep_view()
                &&& step.model.deep_view() == chain.steps@[i].model.deep_view()
                &&& step.open_until is None <==> step.reason is None
                &&& breakers@[i] is None ==> step.open_until is None
                &&& step.open_until matches Some(until) ==> until.nanos > now.nanos && step.reason->0@
                    == breakers@[i]->0.reason@
                &&& breakers@[i] matches Some(row) ==> (row.open_until.nanos > now.nanos ==> step.open_until == Some(row.open_until))
                &&& breakers@[i] matches Some(row) ==> (row.open_until.nanos <= now.nanos && row.probe_until is None ==> step.open_until is None)
            }),
{
    assert(snapshot@.steps.len() == snapshot.steps@.len());
    assert forall|i: int| 0 <= i < snapshot.steps@.len() implies ({
        let step = #[trigger] snapshot.steps@[i];
        &&& step.provider@ == chain.steps@[i].provider@
        &&& step.label.deep_view() == chain.steps@[i].label.deep_view()
        &&& step.model.deep_view() == chain.steps@[i].model.deep_view()
        &&& step.open_until is None <==> step.reason is None
        &&& breakers@[i] is None ==> step.open_until is None
        &&& step.open_until matches Some(until) ==> until.nanos > now.nanos && step.reason->0@
            == breakers@[i]->0.reason@
        &&& breakers@[i] matches Some(row) ==> (row.open_until.nanos > now.nanos ==> step.open_until == Some(row.open_until))
        &&& breakers@[i] matches Some(row) ==> (row.open_until.nanos <= now.nanos && row.probe_until is None ==> step.open_until is None)
    }) by {
        assert(snapshot@.steps[i] == snapshot.steps@[i]@);
        assert(chain@.steps[i] == chain.steps@[i]@);
    }
}

/// A picked step is closed. The steps from the starting point up to it are open; where the pick
/// wrapped round, so are those before it. Nothing is picked exactly where every step is open.
pub proof fn picks_are_the_next_closed(snapshot: RouteSnapshot, from: u32, step: Option<usize>)
    requires
        call_ensures(RouteSnapshot::pick, (&snapshot, from), step),
    ensures
        match step {
            Some(i) => {
                &&& i < snapshot.steps@.len()
                &&& snapshot.steps@[i as int].open_until is None
                &&& i >= from ==> forall|j: int|
                    from <= j < i ==> (#[trigger] snapshot.steps@[j]).open_until is Some
                &&& i < from ==> forall|j: int|
                    (0 <= j < i || from <= j < snapshot.steps@.len()) ==> (
                    #[trigger] snapshot.steps@[j]).open_until is Some
            },
            None => forall|j: int|
                0 <= j < snapshot.steps@.len() ==> (#[trigger] snapshot.steps@[j]).open_until is Some,
        },
{
    let steps = snapshot@.steps;
    picks_are_usable(steps, from as int);
    assert forall|j: int| 0 <= j < steps.len() implies (#[trigger] snapshot.steps@[j]).open_until
        == steps[j].open_until by {}
}

/// Where every step is open, the step that is tried is one that closes first.
pub proof fn waits_are_for_the_first_to_close(snapshot: RouteSnapshot, from: u32, step: usize)
    requires
        snapshot.steps@.len() > 0,
        call_ensures(RouteSnapshot::pick_or_earliest, (&snapshot, from), step),
    ensures
        step < snapshot.steps@.len(),
        snapshot.steps@[step as int].open_until is None || forall|j: int|
            0 <= j < snapshot.steps@.len() ==> (#[trigger] snapshot.steps@[j]).open_until is Some
                && snapshot.steps@[step as int].open_until->0.nanos
                <= snapshot.steps@[j].open_until->0.nanos,
{
    let steps = snapshot@.steps;
    picks_are_usable(steps, from as int);
    earliest_is_least(steps, steps.len());
    assert forall|j: int| 0 <= j < steps.len() implies (#[trigger] snapshot.steps@[j]).open_until
        == steps[j].open_until by {}
}

/// The earliest reopening is one of an open step, no later than that of any other, and comes with
/// that step's own reason; there is none exactly where every step is closed.
pub proof fn reopenings_are_the_earliest(snapshot: RouteSnapshot, found: Option<(Timestamp, String)>)
    requires
        call_ensures(RouteSnapshot::earliest, (&snapshot,), found),
    ensures
        match found {
            Some((until, reason)) => {
                &&& forall|j: int|
                    0 <= j < snapshot.steps@.len() && (#[trigger] snapshot.steps@[j]).open_until is Some
                        ==> until.nanos <= snapshot.steps@[j].open_until->0.nanos
                &&& exists|j: int|
                    0 <= j < snapshot.steps@.len() && (#[trigger] snapshot.steps@[j]).open_until == Some(
                        until,
                    ) && (snapshot.steps@[j].reason matches Some(words) ==> reason@ == words@)
            },
            None => forall|j: int|
                0 <= j < snapshot.steps@.len() ==> (#[trigger] snapshot.steps@[j]).open_until is None,
        },
{
    let steps = snapshot@.steps;
    earliest_is_least(steps, steps.len());
    assert forall|j: int| 0 <= j < steps.len() implies (#[trigger] snapshot.steps@[j]).open_until
        == steps[j].open_until && snapshot.steps@[j].reason.deep_view() == steps[j].reason by {}
    if earliest_index(steps, steps.len()) is Some {
        let i = earliest_index(steps, steps.len())->0;
        assert(snapshot.steps@[i].open_until == steps[i].open_until);
    }
}

/// A retry comes no later than the fallback and no later than any open step's reopening, and at
/// one of these moments.
pub proof fn retries_do_not_wait_longer(snapshot: RouteSnapshot, fallback: Timestamp, retry: Timestamp)
    requires
        call_ensures(earliest_retry, (&snapshot, fallback), retry),
    ensures
        retry.nanos <= fallback.nanos,
        forall|j: int|
            0 <= j < snapshot.steps@.len() && (#[trigger] snapshot.steps@[j]).open_until is Some
                ==> retry.nanos <= snapshot.steps@[j].open_until->0.nanos,
        retry == fallback || exists|j: int|
            0 <= j < snapshot.steps@.len() && (#[trigger] snapshot.steps@[j]).open_until == Some(retry),
{
    let steps = snapshot@.steps;
    earliest_is_least(steps, steps.len());
    assert forall|j: int| 0 <= j < steps.len() implies (#[trigger] snapshot.steps@[j]).open_until
        == steps[j].open_until by {}
    if earliest_index(steps, steps.len()) is Some {
        let i = earliest_index(steps, steps.len())->0;
        assert(snapshot.steps@[i].open_until == steps[i].open_until);
    }
}

/// Whether a step behind the failed one gives this reason for being open.
pub open spec fn told_by_a_later_step(snapshot: RouteSnapshot, from: u32, reason: Seq<char>) -> bool {
    exists|j: int|
        from < j < snapshot.steps@.len() && (#[trigger] snapshot.steps@[j]).reason is Some
            && snapshot.steps@[j].reason->0@ == reason
}

/// What a failover tells begins with the error, and then what was skipped when the chain was made,
/// in order. What follows are reasons of steps behind the failed one.
pub proof fn failovers_tell_the_error_first(
    snapshot: RouteSnapshot,
    from: u32,
    target: u32,
    error: &str,
    reasons: Vec<String>,
)
    requires
        call_ensures(failover_reasons, (&snapshot, from, target, error), reasons),
    ensures
        reasons@.len() >= 1 + snapshot.skipped@.len(),
        reasons@[0]@ == error@,
        forall|i: int|
            0 <= i < snapshot.skipped@.len() ==> reasons@[1 + i]@ == (#[trigger] snapshot.skipped@[i])@,
        forall|i: int|
            1 + snapshot.skipped@.len() <= i < reasons@.len() ==> told_by_a_later_step(
                snapshot,
                from,
                (#[trigger] reasons@[i])@,
            ),
{
    let views = text_views(reasons@);
    let steps = snapshot@.steps;
    let end = passed_end(steps, from, target);
    assert(views.len() == reasons@.len());
    assert(views[0] == reasons@[0]@);
    assert forall|i: int| 0 <= i < snapshot.skipped@.len() implies reasons@[1 + i]@ == (
    #[trigger] snapshot.skipped@[i])@ by {
        assert(views[1 + i] == snapshot@.skipped[i]);
        assert(views[1 + i] == reasons@[1 + i]@);
    }
    passed_reasons(steps, from + 1, end);
    let rest = reasons_between(steps, from + 1, end);
    assert forall|i: int| 1 + snapshot.skipped@.len() <= i < reasons@.len() implies told_by_a_later_step(
        snapshot,
        from,
        (#[trigger] reasons@[i])@,
    ) by {
        let k = i - 1 - snapshot.skipped@.len();
        assert(views[i] == rest[k]);
        assert(views[i] == reasons@[i]@);
        let j = choose|j: int|
            from + 1 <= j < steps.len() && (#[trigger] steps[j]).reason == Some(rest[k]);
        assert(snapshot.steps@[j]@ == steps[j]);
    }
}

proof fn passed_reasons(steps: Seq<StatusView>, lo: int, hi: int)
    requires
        lo >= 0,
    ensures
        forall|k: int|
            0 <= k < reasons_between(steps, lo, hi).len() ==> exists|j: int|
                lo <= j < steps.len() && (#[trigger] steps[j]).reason == Some(
                    #[trigger] reasons_between(steps, lo, hi)[k],
                ),
    decreases hi - lo,
{
    if hi > lo {
        passed_reasons(steps, lo, hi - 1);
        let before = reasons_between(steps, lo, hi - 1);
        let all = reasons_between(steps, lo, hi);
        assert forall|k: int| 0 <= k < all.len() implies exists|j: int|
            lo <= j < steps.len() && (#[trigger] steps[j]).reason == Some(#[trigger] all[k]) by {
            if k < before.len() {
                assert(all[k] == before[k]);
            } else {
                assert(steps[hi - 1].reason == Some(all[k]));
            }
        }
    }
}

/// A route is stored under the name and with the steps that were given.
pub proof fn routes_are_stored_as_given(
    name: &str,
    steps: Vec<RouteStep>,
    problem: Option<String>,
    now: Timestamp,
    result: StoreResult<RouteRecord>,
)
    requires
        call_ensures(put_route, (name, steps, problem, now), result),
    ensures
        result is Ok <==> problem is None,
        result matches Ok(record) ==> record.name@ == name@ && record.steps == steps && record.updated_at == now,
        result matches Err(error) ==> error == StoreError::InvalidRoute(problem->0),
{
}

/// A session that is given a route starts again at its first step.
pub proof fn chosen_routes_start_over(rows: SessionRows, route: Option<String>, found: bool, result: StoreResult<(Option<String>, u32)>)
    requires
        call_ensures(set_session_route, (&rows, route, found), result),
    ensures
        result matches Ok(stored) ==> stored.0 == route && stored.1 == 0 && rows.session is Some && (found
            || route is None),
        result is Err <==> (route is Some && !found) || rows.session is None,
{
}

/// A step is passed over exactly where it names one entry, the store holds entries of its provider,
/// and none of them is ready under that label; then its provider and its label are told.
pub proof fn unready_steps_are_told(pools: Map<Seq<char>, Seq<PoolEntryView>>, step: RouteStepView)
    ensures
        ({
            let told = skips(pools, seq![step]);
            let stored = pools.dom().contains(step.provider) && pools[step.provider].len() > 0;
            let ready = exists|i: int|
                0 <= i < pools[step.provider].len() && (#[trigger] pools[step.provider][i]).ready
                    && pools[step.provider][i].label == step.entry;
            &&& step.entry != "*"@ && stored && !ready ==> told == seq![skip_reason(step.provider, step.entry)]
                && step_expansion(pools, step).len() == 0
            &&& step.entry == "*"@ || !stored || ready ==> told.len() == 0 && step_expansion(pools, step).len() > 0
        }),
{
    reveal_with_fuel(skips, 2);
    assert(seq![step].drop_last() =~= Seq::empty());
    let told = skips(pools, seq![step]);
    if told.len() > 0 {
        assert(told =~= seq![told[0]]);
    }
    if step.entry == "*"@ && has_entries(pools, step.provider) {
        ready_labels(pools[step.provider]);
    }
}

/// The sentence names the provider and the label, with a slash between.
pub proof fn skip_reasons_name_the_entry(provider: &str, label: &str, reason: String)
    requires
        call_ensures(skipped_step_reason, (provider, label), reason),
    ensures
        reason@ == provider@ + "/"@ + label@
            + " names an entry with no ready credential; trying the next step"@,
{
}

/// An error says that no gateway serves exactly where it begins so.
pub proof fn unserved_errors_say_so(error: &str, found: bool, rest: Seq<char>)
    requires
        call_ensures(is_unserved_error, (error,), found),
    ensures
        error@ == "no gateway serves provider "@ + rest ==> found,
        found ==> error@ == "no gateway serves provider "@ + error@.skip("no gateway serves provider "@.len() as int),
{
    let start = "no gateway serves provider "@;
    if error@ == start + rest {
        assert(error@.subrange(0, start.len() as int) =~= start);
    }
    if found {
        assert(error@ =~= start + error@.skip(start.len() as int));
    }
}

/// A pool is ordered oldest first, and by label where entries are equally old; it holds each entry
/// once, with its label and its readiness.
pub proof fn pools_are_ordered_by_age(entries: Vec<(Timestamp, PoolEntry)>, pool: Vec<PoolEntry>, labels: Vec<String>)
    requires
        call_ensures(order_pool, (&entries,), pool),
        call_ensures(route_entry_labels, (&entries,), labels),
    ensures
        exists|order: Seq<int>| #[trigger] ordered_by_age(entries@, pool@, order),
        labels@.len() == pool@.len(),
        forall|i: int| 0 <= i < labels@.len() ==> (#[trigger] labels@[i])@ == pool@[i].label@,
{
    let keys = creation_keys(entries@);
    let n = entries@.len();
    let order = stable_order(keys, n);
    crate::sort::stable_order_laws(keys, n);
    let views = by_creation(entries@);
    assert(pool_views(pool@).len() == pool@.len());
    assert forall|i: int| 0 <= i < pool@.len() implies pool@[i].label@ == entries@[#[trigger] order[i]].1.label@
        && pool@[i].ready == entries@[order[i]].1.ready by {
        assert(pool_views(pool@)[i] == pool@[i]@);
        assert(views[i] == entries@[order[i]].1@);
    }
    assert forall|i: int, j: int| 0 <= i < j < order.len() implies {
        let a = entries@[#[trigger] order[i]];
        let b = entries@[#[trigger] order[j]];
        order[i] != order[j] && (a.0.nanos < b.0.nanos || a.0.nanos == b.0.nanos && !text_less(
            b.1.label@,
            a.1.label@,
        ))
    } by {
        let a = order[i];
        let b = order[j];
        assert(keys[a] == (entries@[a].0.nanos as int, entries@[a].1.label@));
        assert(keys[b] == (entries@[b].0.nanos as int, entries@[b].1.label@));
    }
    assert(ordered_by_age(entries@, pool@, order));
    every_label(views);
    assert(text_views(labels@).len() == labels@.len());
    assert forall|i: int| 0 <= i < labels@.len() implies (#[trigger] labels@[i])@ == pool@[i].label@ by {
        assert(text_views(labels@)[i] == labels@[i]@);
        assert(pool_views(pool@)[i] == pool@[i]@);
    }
}

/// Whether a pool holds the entries in this order, each once, oldest first.
pub open spec fn ordered_by_age(entries: Seq<(Timestamp, PoolEntry)>, pool: Seq<PoolEntry>, order: Seq<int>) -> bool {
    &&& pool.len() == entries.len() && order.len() == entries.len()
    &&& forall|i: int| 0 <= i < order.len() ==> 0 <= #[trigger] order[i] < entries.len()
    &&& forall|i: int|
        0 <= i < pool.len() ==> pool[i].label@ == entries[#[trigger] order[i]].1.label@ && pool[i].ready
            == entries[order[i]].1.ready
    &&& forall|i: int, j: int|
        0 <= i < j < order.len() ==> {
            let a = entries[#[trigger] order[i]];
            let b = entries[#[trigger] order[j]];
            order[i] != order[j] && (a.0.nanos < b.0.nanos || a.0.nanos == b.0.nanos && !text_less(
                b.1.label@,
                a.1.label@,
            ))
        }
}

proof fn every_label(pool: Seq<PoolEntryView>)
    ensures
        labels_of(pool, false).len() == pool.len(),
        forall|i: int| 0 <= i < pool.len() ==> labels_of(pool, false)[i] == (#[trigger] pool[i]).label,
    decreases pool.len(),
{
    if pool.len() > 0 {
        let rest = pool.drop_last();
        every_label(rest);
        assert forall|i: int| 0 <= i < pool.len() implies labels_of(pool, false)[i] == (#[trigger] pool[i]).label by {
            if i < rest.len() {
                assert(rest[i] == pool[i]);
            }
        }
    }
}

/// A route draws on the selected provider and on the provider of each of its steps, and on no other;
/// each is named once, in order.
pub proof fn routes_draw_on_their_providers(record: Option<&RouteRecord>, provider: &str, providers: Vec<String>)
    requires
        call_ensures(route_providers, (record, provider), providers),
    ensures
        text_views(providers@).contains(provider@),
        record matches Some(route) ==> forall|i: int|
            0 <= i < route.steps@.len() ==> text_views(providers@).contains((#[trigger] route.steps@[i]).provider@),
        record is None ==> providers@.len() == 1,
        forall|i: int, j: int|
            0 <= i < j < providers@.len() ==> text_less((#[trigger] providers@[i])@, (#[trigger] providers@[j])@),
{
    let views = text_views(providers@);
    let steps = route_steps(route_view(record));
    assert(draws_on(steps, provider@, provider@));
    assert(views.len() == providers@.len());
    if let Some(route) = record {
        assert forall|i: int| 0 <= i < route.steps@.len() implies views.contains((#[trigger] route.steps@[i]).provider@) by {
            assert(steps[i] == route.steps@[i]@);
            assert(draws_on(steps, provider@, steps[i].provider));
        }
    } else {
        let k = choose|k: int| 0 <= k < views.len() && views[k] == provider@;
        assert forall|i: int| 0 <= i < views.len() implies views[i] == provider@ by {
            assert(views.contains(views[i]));
            assert(draws_on(steps, provider@, views[i]));
        }
        if views.len() > 1 {
            assert(views[0] == provider@ && views[1] == provider@);
            crate::text::text_less_irreflexive(provider@);
        }
    }
    assert forall|i: int, j: int| 0 <= i < j < providers@.len() implies text_less(
        (#[trigger] providers@[i])@,
        (#[trigger] providers@[j])@,
    ) by {
        assert(views[i] == providers@[i]@ && views[j] == providers@[j]@);
    }
}

/// An advance notes the failure once: it counts one more attempt for a failure that is new, and keeps
/// the start of the wait and its end. Without reasons nothing changes.
pub proof fn advances_note_the_failure(
    row: Option<InferenceWait>,
    seq: u64,
    reasons: Vec<String>,
    now: Timestamp,
    next: Option<InferenceWait>,
    done: bool,
)
    requires
        call_ensures(write_route_step, (row, seq, &reasons, now), next),
        call_ensures(already_handled, (&next, seq), done),
    ensures
        reasons@.len() == 0 ==> (next is Some <==> row is Some),
        reasons@.len() > 0 ==> done && (next matches Some(after) && after.last_failure_seq == seq && (
        row is None ==> after.since == now && after.wake_at == now) && (row is None && seq != 0 ==> after.attempts
            == 1) && (row matches Some(before) ==> after.since == before.since && after.wake_at == before.wake_at
            && (before.last_failure_seq == seq ==> after.attempts == before.attempts) && (before.last_failure_seq
            != seq && before.attempts < u32::MAX ==> after.attempts == before.attempts + 1))),
        done <==> (next matches Some(after) && after.last_failure_seq == seq),
{
}

/// A failure is answered under the worker's lease. One that was handled before changes nothing. An
/// advance goes to another step, one that is closed, and leaves the session alone. A parked session
/// sleeps and has given up its lease, and its wait remembers the failure.
pub proof fn failovers_advance_or_park(
    rows: SessionRows,
    lease: Lease,
    row: Option<InferenceWait>,
    seq: u64,
    error: &str,
    retry_at: Timestamp,
    route_step: u32,
    snapshot: RouteSnapshot,
    now: Timestamp,
    max_wait: Duration,
    result: StoreResult<Failover>,
)
    requires
        snapshot.steps@.len() <= u32::MAX,
        call_ensures(
            failover_route_step,
            (&rows, &lease, row, seq, error, retry_at, route_step, &snapshot, now, max_wait),
            result,
        ),
    ensures
        result matches Ok(done) ==> {
            let before = rows.session->0;
            let after = done.rows.session->0;
            &&& rows.lease == Some(lease) && lease.expires_at.nanos > now.nanos && rows.session is Some
            &&& row matches Some(wait) ==> (wait.last_failure_seq == seq ==> done.outcome.action
                == FailoverAction::AlreadyHandled)
            &&& match done.outcome.action {
                FailoverAction::AlreadyHandled => {
                    &&& row is Some && row->0.last_failure_seq == seq && done.rows == rows
                    &&& done.route_step is None && done.clear_due is None && done.add_due is None
                },
                FailoverAction::AdvanceTo(target) => {
                    &&& target != route_step && target < snapshot.steps@.len()
                    &&& snapshot.steps@[target as int].open_until is None
                    &&& done.route_step == Some(target) && done.rows == rows
                    &&& done.wait is Some && done.wait->0.last_failure_seq == seq
                    &&& done.outcome.route.deep_view() == snapshot.name.deep_view()
                    &&& done.clear_due is None && done.add_due is None
                },
                FailoverAction::Park => {
                    &&& after.state == SessionState::Sleeping && done.rows.lease is None
                    &&& after.session_id == before.session_id && after.agent_id == before.agent_id
                    &&& after.head_seq == before.head_seq && after.snapshot_seq == before.snapshot_seq
                    &&& done.wait is Some && done.wait->0.last_failure_seq == seq
                    &&& done.add_due == Some(done.wait->0.wake_at)
                    &&& done.wait->0.wake_at == now || done.wait->0.wake_at.nanos <= retry_at.nanos
                    &&& row is None ==> done.wait->0.since == now
                    &&& row matches Some(wait) ==> done.wait->0.since == wait.since
                    &&& done.outcome.route.deep_view() == snapshot.name.deep_view()
                    &&& done.route_step is None || done.route_step == Some(0u32)
                },
            }
        },
{
    failovers_leave_the_failed_step(snapshot@.steps, route_step);
    let steps = snapshot@.steps;
    earliest_is_least(steps, steps.len());
    if let Some(target) = failover_target(steps, route_step) {
        assert(steps[target as int] == snapshot.steps@[target as int]@);
    }
}

/// A listed route is the one that was stored under the name.
pub proof fn listed_routes_have_their_name(name: &str, record: RouteRecord, result: StoreResult<RouteRecord>)
    requires
        call_ensures(listed_route, (name, record), result),
    ensures
        result is Ok <==> record.name@ == name@,
        result matches Ok(found) ==> found == record,
{
}

/// The reasons of the steps that are passed are told step by step, in order; a step without a reason
/// tells nothing.
pub proof fn passed_steps_tell_their_reasons(steps: Seq<StatusView>, lo: int, mid: int, hi: int)
    requires
        0 <= lo <= mid <= hi,
    ensures
        reasons_between(steps, lo, hi) == reasons_between(steps, lo, mid) + reasons_between(steps, mid, hi),
        lo < steps.len() ==> (steps[lo].reason matches Some(reason) ==> reasons_between(steps, lo, lo + 1)
            == seq![reason]),
        lo < steps.len() && steps[lo].reason is None ==> reasons_between(steps, lo, lo + 1).len() == 0,
        reasons_between(steps, lo, lo).len() == 0,
    decreases hi - mid,
{
    reveal_with_fuel(reasons_between, 2);
    if lo < steps.len() {
        if let Some(reason) = steps[lo].reason {
            assert(reasons_between(steps, lo, lo + 1) =~= seq![reason]);
        }
    }
    if mid < hi {
        passed_steps_tell_their_reasons(steps, lo, mid, hi - 1);
    }
    assert(reasons_between(steps, lo, hi) =~= reasons_between(steps, lo, mid) + reasons_between(steps, mid, hi));
}

/// A failover tells what was skipped when the chain was made, unless the failure was handled before;
/// then the wait stays as it was.
pub proof fn failovers_tell_what_was_skipped(
    rows: SessionRows,
    lease: Lease,
    row: Option<InferenceWait>,
    seq: u64,
    error: &str,
    retry_at: Timestamp,
    route_step: u32,
    snapshot: RouteSnapshot,
    now: Timestamp,
    max_wait: Duration,
    result: StoreResult<Failover>,
)
    requires
        call_ensures(
            failover_route_step,
            (&rows, &lease, row, seq, error, retry_at, route_step, &snapshot, now, max_wait),
            result,
        ),
    ensures
        result matches Ok(done) ==> {
            &&& done.outcome.action == FailoverAction::AlreadyHandled ==> done.outcome.skipped@.len() == 0
                && done.outcome.route is None && (done.wait matches Some(kept) && row matches Some(held)
                && kept.since == held.since && kept.wake_at == held.wake_at && kept.attempts == held.attempts
                && kept.last_failure_seq == held.last_failure_seq)
            &&& done.outcome.action != FailoverAction::AlreadyHandled ==> text_views(done.outcome.skipped@)
                == text_views(snapshot.skipped@)
        },
{
}

} // verus!
