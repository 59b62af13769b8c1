//! Decisions of the scheduler: what a scan nudges, when a session parks behind its breakers, and
//! what a wake request is answered.

use crate::config::Config;
use crate::error::{error_text, StoreError, StoreResult};
use crate::events::{Event, EventBody};
use crate::ids::SessionId;
use crate::routes::{
    earliest_is_least, earliest_of, picked, picks_are_usable, status_views, ExpandedChain, ExpandedView, PoolEntry,
    RouteRecord, RouteSnapshot, RouteStepStatus, StatusView,
};
use crate::session::{Lease, RunnableEntry, SessionState};
use crate::text::{copy_option, same, same_option};
use crate::textmap::TextMap;
use crate::time::{in_range, moved, truncated, Duration, Timestamp};
use crate::waits::{text_views, wait_view, InferenceWait, WaitView};
use crate::MAX_SCAN_LIMIT;
use vstd::prelude::*;

verus! {

broadcast use vstd::std_specs::btree::group_btree_axioms;

// ---------------------------------------------------------------------------------------------
// What one tick remembers
// ---------------------------------------------------------------------------------------------

/// The state of one breaker: the retry time while it is open, with its reason.
#[derive(Clone, Debug, PartialEq, Eq)]
pub struct CachedBreaker {
    pub provider: String,
    pub label: Option<String>,
    pub open_until: Option<Timestamp>,
    pub reason: Option<String>,
}

/// View of a remembered breaker.
pub ghost struct CachedView {
    pub provider: Seq<char>,
    pub label: Option<Seq<char>>,
    pub open_until: Option<Timestamp>,
    pub reason: Option<Seq<char>>,
}

impl View for CachedBreaker {
    type V = CachedView;

    open spec fn view(&self) -> CachedView {
        CachedView {
            provider: self.provider@,
            label: self.label.deep_view(),
            open_until: self.open_until,
            reason: self.reason.deep_view(),
        }
    }
}

/// Views of remembered breakers in order.
pub open spec fn cached_views(entries: Seq<CachedBreaker>) -> Seq<CachedView> {
    entries.map_values(|entry: CachedBreaker| entry@)
}

/// What one tick has read: routes, entry pools and breakers. Nothing outlives the tick, so an edit
/// applies with the next one.
pub struct TickCache {
    pub routes: TextMap<Option<RouteRecord>>,
    pub pools: TextMap<Vec<PoolEntry>>,
    pub breakers: Vec<CachedBreaker>,
}

/// The last remembered state of an entry.
pub open spec fn cached_state(
    entries: Seq<CachedView>,
    provider: Seq<char>,
    label: Option<Seq<char>>,
) -> Option<(Option<Timestamp>, Option<Seq<char>>)>
    decreases entries.len(),
{
    if entries.len() == 0 {
        None
    } else if entries.last().provider == provider && entries.last().label == label {
        Some((entries.last().open_until, entries.last().reason))
    } else {
        cached_state(entries.drop_last(), provider, label)
    }
}

/// Providers whose pools a tick has not read yet, in order.
pub open spec fn unread(providers: Seq<Seq<char>>, known: Set<Seq<char>>) -> Seq<Seq<char>>
    decreases providers.len(),
{
    if providers.len() == 0 {
        Seq::empty()
    } else if known.contains(providers.last()) {
        unread(providers.drop_last(), known)
    } else {
        unread(providers.drop_last(), known).push(providers.last())
    }
}

/// Steps whose breakers a tick has not read yet, in order.
pub open spec fn unread_steps(steps: Seq<ExpandedView>, entries: Seq<CachedView>) -> Seq<(Seq<char>, Option<Seq<char>>)>
    decreases steps.len(),
{
    if steps.len() == 0 {
        Seq::empty()
    } else {
        let step = steps.last();
        if cached_state(entries, step.provider, step.label) is Some {
            unread_steps(steps.drop_last(), entries)
        } else {
            unread_steps(steps.drop_last(), entries).push((step.provider, step.label))
        }
    }
}

/// A step joined with what the tick remembers of its breaker.
pub open spec fn cached_status(step: ExpandedView, entries: Seq<CachedView>) -> StatusView {
    let state = match cached_state(entries, step.provider, step.label) {
        Some(state) => state,
        None => (None, None),
    };
    StatusView {
        provider: step.provider,
        label: step.label,
        model: step.model,
        open_until: state.0,
        reason: state.1,
    }
}

impl TickCache {
    /// A tick that has read nothing.
    pub fn new() -> (cache: TickCache)
        ensures
            cache.routes.wf(),
            cache.pools.wf(),
            cache.routes@ == Map::<Seq<char>, Option<RouteRecord>>::empty(),
            cache.pools@ == Map::<Seq<char>, Vec<PoolEntry>>::empty(),
            cache.breakers@.len() == 0,
    {
        TickCache { routes: TextMap::new(), pools: TextMap::new(), breakers: Vec::new() }
    }

    /// Providers whose pools are still to be read.
    pub fn missing_pools(&self, providers: &Vec<String>) -> (missing: Vec<String>)
        requires
            self.pools.wf(),
        ensures
            text_views(missing@) == unread(text_views(providers@), self.pools@.dom()),
    {
        let ghost views = text_views(providers@);
        let mut missing: Vec<String> = Vec::new();
        let mut i: usize = 0;
        assert(text_views(missing@) =~= unread(views.take(0), self.pools@.dom()));
        while i < providers.len()
            invariant
                i <= providers.len(),
                self.pools.wf(),
                views == text_views(providers@),
                text_views(missing@) == unread(views.take(i as int), self.pools@.dom()),
            decreases providers.len() - i,
        {
            proof {
                assert(views.take(i + 1).drop_last() =~= views.take(i as int));
                assert(views.take(i + 1).last() == providers@[i as int]@);
            }
            if !self.pools.contains_key(providers[i].as_str()) {
                let ghost held = missing@;
                let name = providers[i].clone();
                missing.push(name);
                assert(text_views(missing@) =~= text_views(held).push(name@));
            }
            i += 1;
        }
        assert(views.take(i as int) =~= views);
        missing
    }

    fn find_breaker(&self, provider: &str, label: &Option<String>) -> (found: Option<usize>)
        ensures
            match found {
                Some(i) => i < self.breakers@.len() && cached_state(
                    cached_views(self.breakers@),
                    provider@,
                    label.deep_view(),
                ) == Some(
                    (
                        self.breakers@[i as int]@.open_until,
                        self.breakers@[i as int]@.reason,
                    ),
                ),
                None => cached_state(
                    cached_views(self.breakers@),
                    provider@,
                    label.deep_view(),
                ) is None,
            },
    {
        let ghost views = cached_views(self.breakers@);
        let mut i: usize = self.breakers.len();
        assert(views.take(i as int) =~= views);
        while i > 0
            invariant
                i <= self.breakers.len(),
                views == cached_views(self.breakers@),
                cached_state(views.take(i as int), provider@, label.deep_view()) == cached_state(
                    views,
                    provider@,
                    label.deep_view(),
                ),
            decreases i,
        {
            let at: usize = i - 1;
            let entry = &self.breakers[at];
            proof {
                assert(views.take(i as int).drop_last() =~= views.take(at as int));
                assert(views.take(i as int).last() == entry@);
            }
            if same(entry.provider.as_str(), provider) && same_option(&entry.label, label) {
                return Some(at);
            }
            i = at;
        }
        None
    }

    /// Steps whose breakers are still to be read.
    pub fn missing_breakers(&self, chain: &ExpandedChain) -> (missing: Vec<(String, Option<String>)>)
        ensures
            missing@.map_values(|key: (String, Option<String>)| (key.0@, key.1.deep_view()))
                == unread_steps(chain@.steps, cached_views(self.breakers@)),
    {
        let ghost views = chain@.steps;
        let ghost known = cached_views(self.breakers@);
        let mut missing: Vec<(String, Option<String>)> = Vec::new();
        let mut i: usize = 0;
        assert(missing@.map_values(|key: (String, Option<String>)| (key.0@, key.1.deep_view()))
            =~= unread_steps(views.take(0), known));
        while i < chain.steps.len()
            invariant
                i <= chain.steps.len(),
                views == chain@.steps,
                known == cached_views(self.breakers@),
                missing@.map_values(|key: (String, Option<String>)| (key.0@, key.1.deep_view()))
                    == unread_steps(views.take(i as int), known),
            decreases chain.steps.len() - i,
        {
            let step = &chain.steps[i];
            proof {
                assert(views.take(i + 1).drop_last() =~= views.take(i as int));
                assert(views.take(i + 1).last() == step@);
            }
            if self.find_breaker(step.provider.as_str(), &step.label).is_none() {
                let ghost held = missing@;
                let key = (step.provider.clone(), copy_option(&step.label));
                missing.push(key);
                assert(missing@.map_values(
                    |key: (String, Option<String>)| (key.0@, key.1.deep_view()),
                ) =~= held.map_values(|key: (String, Option<String>)| (key.0@, key.1.deep_view())).push(
                    (key.0@, key.1.deep_view()),
                ));
            }
            i += 1;
        }
        assert(views.take(i as int) =~= views);
        missing
    }

    /// Joins a chain with the breaker states that the tick remembers. A step that was never read
    /// counts as usable.
    pub fn snapshot(&self, chain: ExpandedChain) -> (snapshot: RouteSnapshot)
        ensures
            snapshot@.name == chain@.name,
            snapshot@.skipped == chain@.skipped,
            snapshot@.steps == Seq::new(
                chain@.steps.len(),
                |i: int| cached_status(chain@.steps[i], cached_views(self.breakers@)),
            ),
    {
        let ghost known = cached_views(self.breakers@);
        let ghost expected = Seq::new(
            chain@.steps.len(),
            |i: int| cached_status(chain@.steps[i], known),
        );
        let mut steps: Vec<RouteStepStatus> = Vec::new();
        let mut i: usize = 0;
        while i < chain.steps.len()
            invariant
                i <= chain.steps.len(),
                known == cached_views(self.breakers@),
                steps@.len() == i,
                forall|j: int|
                    0 <= j < i ==> (#[trigger] steps@[j])@ == cached_status(chain@.steps[j], known),
            decreases chain.steps.len() - i,
        {
            let step = &chain.steps[i];
            assert(chain@.steps[i as int] == step@);
            let (open_until, reason) = match self.find_breaker(step.provider.as_str(), &step.label) {
                Some(at) => (
                    self.breakers[at].open_until,
                    copy_option(&self.breakers[at].reason),
                ),
                None => (None, None),
            };
            steps.push(
                RouteStepStatus {
                    provider: step.provider.clone(),
                    label: copy_option(&step.label),
                    model: copy_option(&step.model),
                    open_until,
                    reason,
                },
            );
            i += 1;
        }
        assert(status_views(steps@) =~= expected);
        RouteSnapshot { name: chain.name, steps, skipped: chain.skipped }
    }
}

/// When a session parks behind its breakers: only when no step is usable from its attempt
/// position on or from the start; then until the earliest retry.
pub open spec fn park_of(steps: Seq<StatusView>, route_step: u32) -> Option<(Timestamp, Seq<char>)> {
    if picked(steps, route_step as int) is Some {
        None
    } else {
        earliest_of(steps)
    }
}

/// Decides whether a session waits for its breakers, until when and why.
pub fn breaker_park(snapshot: &RouteSnapshot, route_step: u32) -> (park: Option<(Timestamp, String)>)
    ensures
        match park {
            Some((until, reason)) => park_of(snapshot@.steps, route_step) == Some((until, reason@)),
            None => park_of(snapshot@.steps, route_step) is None,
        },
{
    match snapshot.pick(route_step) {
        Some(_) => None,
        None => snapshot.earliest(),
    }
}

/// The scheduler and the worker agree: the scheduler parks a session with a chain exactly when
/// the worker would find no usable step, and then no step is usable before the retry.
pub proof fn scheduler_and_worker_agree(steps: Seq<StatusView>, route_step: u32)
    requires
        steps.len() > 0,
    ensures
        park_of(steps, route_step) is None <==> picked(steps, route_step as int) is Some,
        park_of(steps, route_step) matches Some((until, _)) ==> forall|i: int|
            0 <= i < steps.len() ==> ((#[trigger] steps[i]).open_until matches Some(at)
                && until.nanos <= at.nanos),
{
    picks_are_usable(steps, route_step as int);
    crate::routes::earliest_is_least(steps, steps.len());
    if picked(steps, route_step as int) is None {
        assert(steps[0].open_until is Some);
    }
}

// ---------------------------------------------------------------------------------------------
// Nudges
// ---------------------------------------------------------------------------------------------

/// What the scheduler does about a session.
#[derive(Clone, Copy, Debug, PartialEq, Eq, Structural)]
pub enum NudgeStep {
    /// Another scheduler owns the session's partition.
    Skip,
    /// A marked session ends its turn here.
    FinishInterrupt,
    /// A runnable session goes past its breakers first.
    CheckBreakers,
    /// A worker hears of the session.
    Send,
}

/// Decides what a nudge does with a session.
pub fn nudge_step(config: &Config, partition: u16, state: SessionState, interrupt: bool) -> (step: NudgeStep)
    ensures
        step == if !config.partitions@.contains(partition) {
            NudgeStep::Skip
        } else if state != SessionState::Runnable {
            NudgeStep::Send
        } else if interrupt {
            NudgeStep::FinishInterrupt
        } else {
            NudgeStep::CheckBreakers
        },
{
    if !config.partitions.contains(&partition) {
        NudgeStep::Skip
    } else if state != SessionState::Runnable {
        NudgeStep::Send
    } else if interrupt {
        NudgeStep::FinishInterrupt
    } else {
        NudgeStep::CheckBreakers
    }
}

/// Whether the last event is a retryable failure that the wait has not taken in yet.
pub open spec fn failure_pending(wait: Option<WaitView>, head_seq: u64, last: Option<&Event>) -> bool {
    &&& head_seq != 0
    &&& last matches Some(event) && event@.body matches EventBody::InferenceFailed { retryable, .. }
        && retryable && (wait matches Some(wait) ==> wait.last_failure_seq != event@.seq)
}

/// Whether a wait has lasted as long as it may.
pub open spec fn wait_expired(wait: Option<WaitView>, max_wait: Duration, now: Timestamp) -> bool {
    wait matches Some(wait) && moved(wait.since.nanos as int, max_wait.nanos as int) matches Some(limit)
        && limit.nanos <= now.nanos
}

/// Whether a session whose steps are all open is to be parked: not while a worker still has to
/// take in a failure, and not once the wait has lasted as long as it may.
pub fn may_park(
    wait: &Option<InferenceWait>,
    head_seq: u64,
    last: Option<&Event>,
    max_wait: Duration,
    now: Timestamp,
) -> (park: bool)
    ensures
        park == (!failure_pending(wait_view(*wait), head_seq, last) && !wait_expired(
            wait_view(*wait),
            max_wait,
            now,
        )),
{
    let pending = if head_seq == 0 {
        false
    } else {
        match last {
            Some(Event::InferenceFailed { seq, retryable, .. }) => *retryable && match wait {
                Some(wait) => wait.last_failure_seq != *seq,
                None => true,
            },
            _ => false,
        }
    };
    let expired = match wait {
        Some(wait) => match wait.since.checked_add(max_wait) {
            Some(limit) => limit.nanos <= now.nanos,
            None => false,
        },
        None => false,
    };
    !pending && !expired
}

/// Sessions of the first `count` entries that are due.
pub open spec fn due_within(page: Seq<RunnableEntry>, now: Timestamp, count: nat) -> Seq<SessionId>
    decreases count,
{
    if count == 0 {
        Seq::empty()
    } else if page[count - 1].wake_at.nanos <= now.nanos {
        due_within(page, now, (count - 1) as nat).push(page[count - 1].session_id)
    } else {
        due_within(page, now, (count - 1) as nat)
    }
}

/// Sessions of a page that are due. Priority sorts before time, so an entry of the future does
/// not end the scan.
pub fn due_sessions(page: &Vec<RunnableEntry>, now: Timestamp) -> (due: Vec<SessionId>)
    ensures
        due@ == due_within(page@, now, page@.len()),
{
    let mut due: Vec<SessionId> = Vec::new();
    let mut i: usize = 0;
    while i < page.len()
        invariant
            i <= page.len(),
            due@ == due_within(page@, now, i as nat),
        decreases page.len() - i,
    {
        if page[i].wake_at.nanos <= now.nanos {
            due.push(page[i].session_id);
        }
        i += 1;
    }
    due
}

/// Every due session of a page is found, whatever comes before it.
pub proof fn due_sessions_are_found(page: Seq<RunnableEntry>, now: Timestamp, count: nat, i: int)
    requires
        0 <= i < count <= page.len(),
        page[i].wake_at.nanos <= now.nanos,
    ensures
        due_within(page, now, count).contains(page[i].session_id),
    decreases count,
{
    let all = due_within(page, now, count);
    let before = due_within(page, now, (count - 1) as nat);
    if i < count - 1 {
        due_sessions_are_found(page, now, (count - 1) as nat, i);
        let at = choose|k: int| 0 <= k < before.len() && before[k] == page[i].session_id;
        assert(all[at] == page[i].session_id);
    } else {
        assert(all.last() == page[i].session_id);
    }
}

/// The last row of a full page, where the next one begins; none after a short page.
pub fn next_cursor<T: Copy>(page: &Vec<T>) -> (cursor: Option<T>)
    ensures
        cursor == if page@.len() < MAX_SCAN_LIMIT {
            None
        } else {
            Some(page@.last())
        },
{
    if page.len() < MAX_SCAN_LIMIT {
        None
    } else {
        Some(page[page.len() - 1])
    }
}

/// Expired leases of the first `count` rows whose sessions lie in owned partitions.
pub open spec fn owned_within(page: Seq<(SessionId, Lease, u16)>, owned: Set<u16>, count: nat) -> Seq<(SessionId, Lease)>
    decreases count,
{
    if count == 0 {
        Seq::empty()
    } else if owned.contains(page[count - 1].2) {
        owned_within(page, owned, (count - 1) as nat).push((page[count - 1].0, page[count - 1].1))
    } else {
        owned_within(page, owned, (count - 1) as nat)
    }
}

/// Expired leases that this scheduler reaps: those of sessions in its partitions.
pub fn owned_leases(config: &Config, page: &Vec<(SessionId, Lease, u16)>) -> (owned: Vec<(SessionId, Lease)>)
    ensures
        owned@ == owned_within(page@, config.partitions@, page@.len()),
{
    let mut owned: Vec<(SessionId, Lease)> = Vec::new();
    let mut i: usize = 0;
    while i < page.len()
        invariant
            i <= page.len(),
            owned@ == owned_within(page@, config.partitions@, i as nat),
        decreases page.len() - i,
    {
        let (session, lease, partition) = page[i];
        if config.partitions.contains(&partition) {
            owned.push((session, lease));
        }
        i += 1;
    }
    owned
}

/// The answer to a wake request.
#[derive(Clone, Debug, PartialEq, Eq)]
pub enum WakeReply {
    Runnable,
    Unchanged(SessionState),
    NotFound,
    Failed(String),
}

/// Answers a wake request by what waking the session returned. A session that was Idle is nudged
/// at once.
pub fn wake_reply(woken: &StoreResult<SessionState>) -> (reply: (WakeReply, bool))
    ensures
        match *woken {
            Ok(state) => {
                &&& reply.1 == (state == SessionState::Idle)
                &&& if state == SessionState::Idle || state == SessionState::Runnable {
                    reply.0 is Runnable
                } else {
                    reply.0 == WakeReply::Unchanged(state)
                }
            },
            Err(error) => {
                &&& !reply.1
                &&& if error is SessionMissing {
                    reply.0 is NotFound
                } else {
                    reply.0 matches WakeReply::Failed(text) && text@ == error_text(error)
                }
            },
        },
{
    match woken {
        Ok(state) => {
            if *state == SessionState::Idle {
                (WakeReply::Runnable, true)
            } else if *state == SessionState::Runnable {
                (WakeReply::Runnable, false)
            } else {
                (WakeReply::Unchanged(*state), false)
            }
        },
        Err(StoreError::SessionMissing) => (WakeReply::NotFound, false),
        Err(error) => (WakeReply::Failed(error.message()), false),
    }
}

/// Seconds that raw metering records are kept.
pub open spec fn retention_seconds(days: u64) -> int {
    let capped = if days <= i64::MAX {
        days as int
    } else {
        i64::MAX as int
    };
    if capped * 86_400 <= i64::MAX {
        capped * 86_400
    } else {
        i64::MAX as int
    }
}

/// The moment before which raw metering records go; none when it cannot be written down.
pub fn prune_cutoff(now: Timestamp, days: u64) -> (cutoff: Option<Timestamp>)
    requires
        now.valid(),
    ensures
        ({
            let second = truncated(now.nanos as int, 1_000_000_000) - retention_seconds(days);
            cutoff == if second >= i64::MIN && in_range(second * 1_000_000_000) {
                Some(Timestamp { nanos: (second * 1_000_000_000) as i128 })
            } else {
                None
            }
        }),
{
    let second: i64 = now.as_second();
    let capped: i64 = if days <= i64::MAX as u64 {
        days as i64
    } else {
        i64::MAX
    };
    let kept: i64 = if capped <= i64::MAX / 86_400 {
        capped * 86_400
    } else {
        i64::MAX
    };
    match second.checked_sub(kept) {
        Some(second) => Timestamp::from_second(second),
        None => None,
    }
}

/// The sessions that are due are those of the page whose time has come, all of them and no other.
pub proof fn due_sessions_are_those_whose_time_came(page: Vec<RunnableEntry>, now: Timestamp, due: Vec<SessionId>)
    requires
        call_ensures(due_sessions, (&page, now), due),
    ensures
        due@.len() <= page@.len(),
        forall|i: int|
            0 <= i < page@.len() && (#[trigger] page@[i]).wake_at.nanos <= now.nanos ==> due@.contains(
                page@[i].session_id,
            ),
        forall|k: int| 0 <= k < due@.len() ==> wakes_by(page@, now, #[trigger] due@[k]),
        (forall|i: int| 0 <= i < page@.len() ==> (#[trigger] page@[i]).wake_at.nanos <= now.nanos) ==> due@.len()
            == page@.len() && forall|i: int| 0 <= i < page@.len() ==> due@[i] == (#[trigger] page@[i]).session_id,
{
    due_are_those(page@, now, page@.len());
}

/// Whether a page holds this session with a time that has come.
pub open spec fn wakes_by(page: Seq<RunnableEntry>, now: Timestamp, id: SessionId) -> bool {
    exists|i: int|
        0 <= i < page.len() && (#[trigger] page[i]).session_id == id && page[i].wake_at.nanos <= now.nanos
}

proof fn due_are_those(page: Seq<RunnableEntry>, now: Timestamp, count: nat)
    requires
        count <= page.len(),
    ensures
        ({
            let due = due_within(page, now, count);
            &&& due.len() <= count
            &&& forall|i: int|
                0 <= i < count && (#[trigger] page[i]).wake_at.nanos <= now.nanos ==> due.contains(
                    page[i].session_id,
                )
            &&& forall|k: int| 0 <= k < due.len() ==> wakes_by(page, now, #[trigger] due[k])
            &&& (forall|i: int| 0 <= i < count ==> (#[trigger] page[i]).wake_at.nanos <= now.nanos) ==> due.len()
                == count && forall|i: int| 0 <= i < count ==> due[i] == (#[trigger] page[i]).session_id
        }),
    decreases count,
{
    if count > 0 {
        due_are_those(page, now, (count - 1) as nat);
        let before = due_within(page, now, (count - 1) as nat);
        let due = due_within(page, now, count);
        assert forall|i: int| 0 <= i < count && (#[trigger] page[i]).wake_at.nanos <= now.nanos implies due.contains(
            page[i].session_id,
        ) by {
            if i < count - 1 {
                assert(before.contains(page[i].session_id));
                let k = choose|k: int| 0 <= k < before.len() && before[k] == page[i].session_id;
                assert(due[k] == page[i].session_id);
            } else {
                assert(due[due.len() - 1] == page[i].session_id);
            }
        }
        assert forall|k: int| 0 <= k < due.len() implies wakes_by(page, now, #[trigger] due[k]) by {
            if k < before.len() {
                assert(due[k] == before[k]);
            } else {
                assert(page[count - 1].session_id == due[k]);
            }
        }
    }
}

/// A walk goes on behind the last row of a full page, and ends with a page that is not full.
pub proof fn walks_end_with_a_short_page(page: Vec<SessionId>, cursor: Option<SessionId>)
    requires
        call_ensures(next_cursor::<SessionId>, (&page,), cursor),
    ensures
        cursor is None <==> page@.len() < MAX_SCAN_LIMIT,
        cursor matches Some(last) ==> last == page@[page@.len() - 1],
{
}

/// A scheduler looks after the leases of its own partitions, all of them and with their own tokens.
pub proof fn schedulers_own_their_partitions(config: Config, page: Vec<(SessionId, Lease, u16)>, owned: Vec<(SessionId, Lease)>)
    requires
        call_ensures(owned_leases, (&config, &page), owned),
    ensures
        owned@.len() <= page@.len(),
        forall|i: int|
            0 <= i < page@.len() && config.partitions@.contains((#[trigger] page@[i]).2) ==> owned@.contains(
                (page@[i].0, page@[i].1),
            ),
        (forall|i: int| 0 <= i < page@.len() ==> !config.partitions@.contains((#[trigger] page@[i]).2))
            ==> owned@.len() == 0,
{
    owned_are_those(page@, config.partitions@, page@.len());
}

proof fn owned_are_those(page: Seq<(SessionId, Lease, u16)>, owned: Set<u16>, count: nat)
    requires
        count <= page.len(),
    ensures
        ({
            let kept = owned_within(page, owned, count);
            &&& kept.len() <= count
            &&& forall|i: int|
                0 <= i < count && owned.contains((#[trigger] page[i]).2) ==> kept.contains((page[i].0, page[i].1))
            &&& (forall|i: int| 0 <= i < count ==> !owned.contains((#[trigger] page[i]).2)) ==> kept.len() == 0
        }),
    decreases count,
{
    if count > 0 {
        owned_are_those(page, owned, (count - 1) as nat);
        let before = owned_within(page, owned, (count - 1) as nat);
        let kept = owned_within(page, owned, count);
        assert forall|i: int| 0 <= i < count && owned.contains((#[trigger] page[i]).2) implies kept.contains(
            (page[i].0, page[i].1),
        ) by {
            if i < count - 1 {
                assert(before.contains((page[i].0, page[i].1)));
                let k = choose|k: int| 0 <= k < before.len() && before[k] == (page[i].0, page[i].1);
                assert(kept[k] == (page[i].0, page[i].1));
            } else {
                assert(kept[kept.len() - 1] == (page[i].0, page[i].1));
            }
        }
    }
}

/// A session is parked only where every step of its route is open, until the first of them closes.
pub proof fn sessions_are_parked_behind_open_steps(snapshot: RouteSnapshot, route_step: u32, park: Option<(Timestamp, String)>)
    requires
        call_ensures(breaker_park, (&snapshot, route_step), park),
    ensures
        park matches Some((until, _)) ==> forall|j: int|
            0 <= j < snapshot.steps@.len() ==> (#[trigger] snapshot.steps@[j]).open_until is Some && until.nanos
                <= snapshot.steps@[j].open_until->0.nanos,
        park is None ==> snapshot.steps@.len() == 0 || exists|j: int|
            0 <= j < snapshot.steps@.len() && (#[trigger] snapshot.steps@[j]).open_until is None,
{
    let steps = snapshot@.steps;
    picks_are_usable(steps, route_step as int);
    earliest_is_least(steps, steps.len());
    assert forall|j: int| 0 <= j < steps.len() implies (#[trigger] snapshot.steps@[j]).open_until
        == steps[j].open_until by {}
    if picked(steps, route_step as int) is Some {
        let i = picked(steps, route_step as int)->0;
        assert(snapshot.steps@[i].open_until == steps[i].open_until);
    } else if steps.len() > 0 {
        assert(snapshot.steps@[0].open_until == steps[0].open_until);
    }
}

/// Another partition's session is left alone; of its own, a queued session is looked at first and
/// any other is nudged at once. A request to interrupt goes before the breakers.
pub proof fn nudges_go_by_partition_and_state(config: Config, partition: u16, state: SessionState, interrupt: bool, step: NudgeStep)
    requires
        call_ensures(nudge_step, (&config, partition, state, interrupt), step),
    ensures
        step is Skip <==> !config.partitions@.contains(partition),
        step is FinishInterrupt ==> interrupt && state == SessionState::Runnable,
        step is CheckBreakers ==> !interrupt && state == SessionState::Runnable,
        step is Send ==> state != SessionState::Runnable,
{
}

/// A session is not parked while a failure of its last request is still to be handled, nor once it
/// has waited long enough.
pub proof fn pending_failures_are_not_parked(
    wait: Option<InferenceWait>,
    head_seq: u64,
    last: Option<&Event>,
    max_wait: Duration,
    now: Timestamp,
    park: bool,
)
    requires
        call_ensures(may_park, (&wait, head_seq, last, max_wait, now), park),
    ensures
        wait is None && head_seq == 0 ==> park,
        wait matches Some(parked) ==> (parked.since.nanos + max_wait.nanos <= now.nanos && in_range(
            parked.since.nanos + max_wait.nanos,
        ) ==> !park),
        wait is None && head_seq != 0 ==> (last matches Some(Event::InferenceFailed { retryable, .. })
            && *retryable ==> !park),
{
}

/// A wake is answered with what it found: a session that was idle or queued is queued, any other
/// keeps its state. Only one that was idle is nudged.
pub proof fn wakes_are_answered(woken: StoreResult<SessionState>, reply: (WakeReply, bool))
    requires
        call_ensures(wake_reply, (&woken,), reply),
    ensures
        reply.1 <==> woken == Ok::<SessionState, StoreError>(SessionState::Idle),
        woken matches Ok(state) ==> (reply.0 is Runnable <==> state == SessionState::Idle || state
            == SessionState::Runnable),
        reply.0 matches WakeReply::Unchanged(state) ==> woken == Ok::<SessionState, StoreError>(state),
        reply.0 is NotFound <==> woken matches Err(StoreError::SessionMissing),
        reply.0 is Failed ==> woken is Err,
{
}

/// What is pruned is older than as many days as are kept.
pub proof fn prunes_keep_whole_days(now: Timestamp, days: u64, cutoff: Option<Timestamp>)
    requires
        now.valid(),
        now.nanos >= 0,
        days <= 100_000,
        call_ensures(prune_cutoff, (now, days), cutoff),
    ensures
        cutoff matches Some(at) && at.nanos % 1_000_000_000 == 0 && at.nanos + days * 86_400 * 1_000_000_000
            <= now.nanos < at.nanos + days * 86_400 * 1_000_000_000 + 1_000_000_000,
{
}

/// The pools that a tick still has to read are those of the providers that it does not know.
pub proof fn unknown_pools_are_read(cache: TickCache, providers: Vec<String>, missing: Vec<String>)
    requires
        cache.pools.wf(),
        call_ensures(TickCache::missing_pools, (&cache, &providers), missing),
    ensures
        forall|k: int|
            0 <= k < missing@.len() ==> !cache.pools@.dom().contains((#[trigger] missing@[k])@),
        forall|i: int|
            0 <= i < providers@.len() && !cache.pools@.dom().contains((#[trigger] providers@[i])@) ==> text_views(
                missing@,
            ).contains(providers@[i]@),
{
    let views = text_views(providers@);
    unread_are_those(views, cache.pools@.dom());
    assert(text_views(missing@).len() == missing@.len());
    assert forall|k: int| 0 <= k < missing@.len() implies !cache.pools@.dom().contains(
        (#[trigger] missing@[k])@,
    ) by {
        assert(text_views(missing@)[k] == missing@[k]@);
    }
    assert forall|i: int| 0 <= i < providers@.len() && !cache.pools@.dom().contains(
        (#[trigger] providers@[i])@,
    ) implies text_views(missing@).contains(providers@[i]@) by {
        assert(views[i] == providers@[i]@);
    }
}

proof fn unread_are_those(providers: Seq<Seq<char>>, known: Set<Seq<char>>)
    ensures
        forall|k: int| 0 <= k < unread(providers, known).len() ==> !known.contains(#[trigger] unread(providers, known)[k]),
        forall|i: int|
            0 <= i < providers.len() && !known.contains(#[trigger] providers[i]) ==> unread(providers, known).contains(
                providers[i],
            ),
    decreases providers.len(),
{
    if providers.len() > 0 {
        let rest = providers.drop_last();
        unread_are_those(rest, known);
        let before = unread(rest, known);
        let all = unread(providers, known);
        assert forall|k: int| 0 <= k < all.len() implies !known.contains(#[trigger] all[k]) by {
            if k < before.len() {
                assert(all[k] == before[k]);
            }
        }
        assert forall|i: int| 0 <= i < providers.len() && !known.contains(#[trigger] providers[i]) implies all.contains(
            providers[i],
        ) by {
            if i < rest.len() {
                assert(rest[i] == providers[i]);
                let k = choose|k: int| 0 <= k < before.len() && before[k] == providers[i];
                assert(all[k] == providers[i]);
            } else {
                assert(all[all.len() - 1] == providers[i]);
            }
        }
    }
}

/// A tick's snapshot has the steps of its chain, each with its provider, label and model.
pub proof fn tick_snapshots_keep_the_chain(cache: TickCache, chain: ExpandedChain, snapshot: RouteSnapshot)
    requires
        call_ensures(TickCache::snapshot, (&cache, chain), snapshot),
    ensures
        snapshot.name.deep_view() == chain.name.deep_view(),
        text_views(snapshot.skipped@) == text_views(chain.skipped@),
        snapshot.steps@.len() == chain.steps@.len(),
        forall|i: int|
            0 <= i < snapshot.steps@.len() ==> ({
                let step = #[trigger] snapshot.steps@[i];
                &&& step.provider@ == chain.steps@[i].provider@
                &&& step.label.deep_view() == chain.steps@[i].label.deep_view()
                &&& step.model.deep_view() == chain.steps@[i].model.deep_view()
                &&& cache.breakers@.len() == 0 ==> step.open_until is None && step.reason is None
            }),
{
    assert(snapshot@.steps.len() == snapshot.steps@.len());
    assert forall|i: int| 0 <= i < snapshot.steps@.len() implies ({
        let step = #[trigger] snapshot.steps@[i];
        &&& step.provider@ == chain.steps@[i].provider@
        &&& step.label.deep_view() == chain.steps@[i].label.deep_view()
        &&& step.model.deep_view() == chain.steps@[i].model.deep_view()
        &&& cache.breakers@.len() == 0 ==> step.open_until is None && step.reason is None
    }) by {
        assert(snapshot@.steps[i] == snapshot.steps@[i]@);
        assert(chain@.steps[i] == chain.steps@[i]@);
    }
}

/// What a tick knows of a breaker is what it was told last.
pub proof fn the_last_reading_counts(entries: Seq<CachedView>, entry: CachedView, provider: Seq<char>, label: Option<Seq<char>>)
    ensures
        cached_state(Seq::empty(), provider, label) is None,
        entry.provider == provider && entry.label == label ==> cached_state(entries.push(entry), provider, label)
            == Some((entry.open_until, entry.reason)),
        entry.provider != provider || entry.label != label ==> cached_state(entries.push(entry), provider, label)
            == cached_state(entries, provider, label),
{
    assert(entries.push(entry).drop_last() =~= entries);
}

/// The breakers that a tick still has to read are those of the steps that it knows nothing of, by
/// provider and label.
pub proof fn unknown_breakers_are_read(cache: TickCache, chain: ExpandedChain, missing: Vec<(String, Option<String>)>)
    requires
        call_ensures(TickCache::missing_breakers, (&cache, &chain), missing),
    ensures
        missing@.len() <= chain.steps@.len(),
        cache.breakers@.len() == 0 ==> missing@.len() == chain.steps@.len() && forall|i: int|
            0 <= i < chain.steps@.len() ==> (#[trigger] missing@[i]).0@ == chain.steps@[i].provider@
                && missing@[i].1.deep_view() == chain.steps@[i].label.deep_view(),
        forall|k: int|
            0 <= k < missing@.len() ==> cached_state(
                cached_views(cache.breakers@),
                (#[trigger] missing@[k]).0@,
                missing@[k].1.deep_view(),
            ) is None,
{
    let entries = cached_views(cache.breakers@);
    let steps = chain@.steps;
    let views = missing@.map_values(|key: (String, Option<String>)| (key.0@, key.1.deep_view()));
    assert(views.len() == missing@.len());
    assert(steps.len() == chain.steps@.len());
    assert(entries.len() == cache.breakers@.len());
    unread_steps_are_those(steps, entries);
    assert forall|k: int| 0 <= k < missing@.len() implies cached_state(
        entries,
        (#[trigger] missing@[k]).0@,
        missing@[k].1.deep_view(),
    ) is None by {
        assert(views[k] == (missing@[k].0@, missing@[k].1.deep_view()));
    }
    if entries.len() == 0 {
        assert forall|i: int| 0 <= i < chain.steps@.len() implies (#[trigger] missing@[i]).0@
            == chain.steps@[i].provider@ && missing@[i].1.deep_view() == chain.steps@[i].label.deep_view() by {
            assert(views[i] == (missing@[i].0@, missing@[i].1.deep_view()));
            assert(steps[i] == chain.steps@[i]@);
        }
    }
}

proof fn unread_steps_are_those(steps: Seq<ExpandedView>, entries: Seq<CachedView>)
    ensures
        unread_steps(steps, entries).len() <= steps.len(),
        entries.len() == 0 ==> unread_steps(steps, entries).len() == steps.len() && forall|i: int|
            0 <= i < steps.len() ==> unread_steps(steps, entries)[i] == ((#[trigger] steps[i]).provider, steps[i].label),
        forall|k: int|
            0 <= k < unread_steps(steps, entries).len() ==> cached_state(
                entries,
                (#[trigger] unread_steps(steps, entries)[k]).0,
                unread_steps(steps, entries)[k].1,
            ) is None,
    decreases steps.len(),
{
    if steps.len() > 0 {
        let rest = steps.drop_last();
        unread_steps_are_those(rest, entries);
        let before = unread_steps(rest, entries);
        let all = unread_steps(steps, entries);
        assert forall|k: int| 0 <= k < all.len() implies cached_state(entries, (#[trigger] all[k]).0, all[k].1) is None by {
            if k < before.len() {
                assert(all[k] == before[k]);
            }
        }
        if entries.len() == 0 {
            assert forall|i: int| 0 <= i < steps.len() implies all[i] == ((#[trigger] steps[i]).provider, steps[i].label) by {
                if i < rest.len() {
                    assert(rest[i] == steps[i]);
                }
            }
        }
    }
}

} // verus!
