//! Circuit breakers of auth entries and the waits of sessions behind them.

use crate::error::{StoreError, StoreResult};
use crate::leases::{holds, verify_lease};
use crate::session::{
    transition, transitioned, Lease, SessionRows, SessionState, StoredSession,
};
use crate::text::{clip, clipped, join2, same};
use crate::time::{moved, Duration, Timestamp};
use vstd::prelude::*;

verus! {

// ---------------------------------------------------------------------------------------------
// Breakers
// ---------------------------------------------------------------------------------------------

/// Breaker identity: one record per auth entry. Entries without a stored label share the
/// provider's unlabelled record.
#[derive(Clone, Debug, PartialEq, Eq, Hash)]
pub struct CredentialKey {
    pub provider: String,
    pub label: Option<String>,
}

/// View of a breaker identity.
pub ghost struct CredentialKeyView {
    pub provider: Seq<char>,
    pub label: Option<Seq<char>>,
}

impl View for CredentialKey {
    type V = CredentialKeyView;

    open spec fn view(&self) -> CredentialKeyView {
        CredentialKeyView { provider: self.provider@, label: self.label.deep_view() }
    }
}

/// The identity shown in waiting reasons: provider and label, or the provider alone.
pub open spec fn credential_name(key: CredentialKeyView) -> Seq<char> {
    match key.label {
        Some(label) => key.provider + "/"@ + label,
        None => key.provider,
    }
}

impl CredentialKey {
    /// The shared record of a provider without a stored entry.
    pub fn provider(provider: &str) -> (key: CredentialKey)
        ensures
            key@ == (CredentialKeyView { provider: provider@, label: None }),
    {
        CredentialKey { provider: provider.to_owned(), label: None }
    }

    /// The record of one labelled entry.
    pub fn entry(provider: &str, label: &str) -> (key: CredentialKey)
        ensures
            key@ == (CredentialKeyView { provider: provider@, label: Some(label@) }),
    {
        CredentialKey { provider: provider.to_owned(), label: Some(label.to_owned()) }
    }

    /// The record of a resolution that may or may not carry a label.
    pub fn for_label(provider: &str, label: Option<String>) -> (key: CredentialKey)
        ensures
            key@ == (CredentialKeyView { provider: provider@, label: label.deep_view() }),
    {
        CredentialKey { provider: provider.to_owned(), label }
    }

    /// The identity shown in waiting reasons.
    pub fn name(&self) -> (name: String)
        ensures
            name@ == credential_name(self@),
    {
        match &self.label {
            Some(label) => {
                let start = join2(self.provider.as_str(), "/");
                join2(start.as_str(), label.as_str())
            },
            None => self.provider.clone(),
        }
    }
}

/// What is known of an entry that failed.
#[derive(Clone, Debug, PartialEq, Eq)]
pub struct Breaker {
    pub open_until: Timestamp,
    pub failures: u32,
    pub probe_until: Option<Timestamp>,
    pub reason: String,
}

/// View of a breaker.
pub ghost struct BreakerView {
    pub open_until: Timestamp,
    pub failures: u32,
    pub probe_until: Option<Timestamp>,
    pub reason: Seq<char>,
}

impl View for Breaker {
    type V = BreakerView;

    open spec fn view(&self) -> BreakerView {
        BreakerView {
            open_until: self.open_until,
            failures: self.failures,
            probe_until: self.probe_until,
            reason: self.reason@,
        }
    }
}

/// View of a breaker row that may be absent.
pub open spec fn breaker_view(row: Option<Breaker>) -> Option<BreakerView> {
    match row {
        Some(breaker) => Some(breaker@),
        None => None,
    }
}

/// Whether the breaker still keeps every request out.
pub open spec fn is_open(breaker: BreakerView, now: Timestamp) -> bool {
    breaker.open_until.nanos > now.nanos
}

/// Whether a probe is under way.
pub open spec fn is_probed(breaker: BreakerView, now: Timestamp) -> bool {
    breaker.probe_until matches Some(until) && until.nanos > now.nanos
}

/// When an entry can take another request; none when it can take one now.
pub open spec fn open_until(row: Option<BreakerView>, now: Timestamp) -> Option<Timestamp> {
    match row {
        None => None,
        Some(breaker) => if is_open(breaker, now) {
            Some(breaker.open_until)
        } else if is_probed(breaker, now) {
            moved(now.nanos as int, 1_000_000_000)
        } else {
            None
        },
    }
}

/// Grants one probe after the open period, or returns the next eligible time.
pub fn claim_entry(row: &mut Option<Breaker>, now: Timestamp) -> (result: StoreResult<Option<Timestamp>>)
    ensures
        ({
            let before = breaker_view(*old(row));
            let after = breaker_view(*final(row));
            match before {
                None => result == Ok::<Option<Timestamp>, StoreError>(None) && after is None,
                Some(breaker) => if is_open(breaker, now) {
                    result == Ok::<_, StoreError>(Some(breaker.open_until)) && after == before
                } else if is_probed(breaker, now) {
                    &&& after == before
                    &&& result == match moved(now.nanos as int, 1_000_000_000) {
                        Some(next) => Ok(Some(next)),
                        None => Err(StoreError::Corrupt),
                    }
                } else {
                    match moved(now.nanos as int, 120_000_000_000) {
                        Some(until) => {
                            &&& result == Ok::<Option<Timestamp>, StoreError>(None)
                            &&& after == Some(BreakerView { probe_until: Some(until), ..breaker })
                        },
                        None => result == Err::<Option<Timestamp>, _>(StoreError::Corrupt)
                            && after == before,
                    }
                },
            }
        }),
{
    match row {
        None => Ok(None),
        Some(breaker) => {
            if breaker.open_until.nanos > now.nanos {
                return Ok(Some(breaker.open_until));
            }
            let probed = match breaker.probe_until {
                Some(until) => until.nanos > now.nanos,
                None => false,
            };
            if probed {
                return match now.checked_add(Duration::from_secs(1)) {
                    Some(next) => Ok(Some(next)),
                    None => Err(StoreError::Corrupt),
                };
            }
            match now.checked_add(Duration::from_secs(120)) {
                Some(until) => {
                    breaker.probe_until = Some(until);
                    Ok(None)
                },
                None => Err(StoreError::Corrupt),
            }
        },
    }
}

/// The time after which an entry can take another request.
pub fn entry_open_until(row: &Option<Breaker>, now: Timestamp) -> (until: Option<Timestamp>)
    ensures
        until == open_until(breaker_view(*row), now),
{
    match row {
        None => None,
        Some(breaker) => {
            if breaker.open_until.nanos > now.nanos {
                return Some(breaker.open_until);
            }
            match breaker.probe_until {
                Some(until) => if until.nanos > now.nanos {
                    now.checked_add(Duration::from_secs(1))
                } else {
                    None
                },
                None => None,
            }
        },
    }
}

/// The retry time of an entry that is not usable now, with the reason on record.
pub fn open_state(row: &Option<Breaker>, now: Timestamp) -> (state: (Option<Timestamp>, Option<String>))
    ensures
        state.0 == open_until(breaker_view(*row), now),
        state.1.deep_view() == if state.0 is Some {
            Some(breaker_view(*row)->0.reason)
        } else {
            None
        },
{
    match entry_open_until(row, now) {
        Some(until) => {
            let reason = match row {
                Some(breaker) => Some(breaker.reason.clone()),
                None => None,
            };
            (Some(until), reason)
        },
        None => (None, None),
    }
}

/// A counter one higher, stopping at its largest value.
pub open spec fn one_more(count: u32) -> u32 {
    if count < u32::MAX {
        (count + 1) as u32
    } else {
        count
    }
}

/// The later of two instants.
pub open spec fn later_of(a: Timestamp, b: Timestamp) -> Timestamp {
    if a.nanos >= b.nanos {
        a
    } else {
        b
    }
}

/// The earlier of two instants.
pub open spec fn earlier_of(a: Timestamp, b: Timestamp) -> Timestamp {
    if a.nanos <= b.nanos {
        a
    } else {
        b
    }
}

/// A breaker after one more failure: open at least until `until`, with any probe ended.
pub open spec fn failed_entry(row: Option<BreakerView>, until: Timestamp, reason: Seq<char>) -> BreakerView {
    match row {
        Some(breaker) => BreakerView {
            open_until: later_of(breaker.open_until, until),
            failures: one_more(breaker.failures),
            probe_until: None,
            reason: clip(reason, 256),
        },
        None => BreakerView {
            open_until: until,
            failures: 1,
            probe_until: None,
            reason: clip(reason, 256),
        },
    }
}

/// Opens the breaker after a retryable failure.
pub fn entry_failure(row: &mut Option<Breaker>, until: Timestamp, reason: &str)
    ensures
        breaker_view(*final(row)) == Some(failed_entry(breaker_view(*old(row)), until, reason@)),
{
    let next = match row {
        Some(breaker) => Breaker {
            open_until: breaker.open_until.max(until),
            failures: breaker.failures.saturating_add(1),
            probe_until: None,
            reason: clipped(reason, 256),
        },
        None => Breaker {
            open_until: until,
            failures: 1,
            probe_until: None,
            reason: clipped(reason, 256),
        },
    };
    *row = Some(next);
}

/// How often an entry failed in a row.
pub fn entry_failures(row: &Option<Breaker>) -> (failures: u32)
    ensures
        failures == match breaker_view(*row) {
            Some(breaker) => breaker.failures,
            None => 0,
        },
{
    match row {
        Some(breaker) => breaker.failures,
        None => 0,
    }
}

/// The text recorded with the last failure.
pub fn entry_reason(row: &Option<Breaker>) -> (reason: Option<String>)
    ensures
        reason.deep_view() == match breaker_view(*row) {
            Some(breaker) => Some(breaker.reason),
            None => None,
        },
{
    match row {
        Some(breaker) => Some(breaker.reason.clone()),
        None => None,
    }
}

/// Closes the breaker after a successful probe. A success without a probe says nothing.
pub fn entry_success(row: &mut Option<Breaker>)
    ensures
        breaker_view(*final(row)) == match breaker_view(*old(row)) {
            Some(breaker) => if breaker.probe_until is Some {
                None
            } else {
                Some(breaker)
            },
            None => None,
        },
{
    let probed = match row {
        Some(breaker) => breaker.probe_until.is_some(),
        None => false,
    };
    if probed {
        *row = None;
    }
}

/// While a breaker is open, or its probe is under way, it grants nothing: a caller that asks for
/// a slot is told when to come back.
pub proof fn open_entries_grant_nothing(breaker: BreakerView, now: Timestamp)
    requires
        is_open(breaker, now) || (is_probed(breaker, now) && moved(now.nanos as int, 1_000_000_000)
            is Some),
    ensures
        open_until(Some(breaker), now) is Some,
{
}

/// A granted probe keeps every other caller out until it ends: at most one probe at a time.
pub proof fn one_probe_at_a_time(breaker: BreakerView, until: Timestamp, now: Timestamp)
    requires
        now.nanos < until.nanos,
        moved(now.nanos as int, 1_000_000_000) is Some,
    ensures
        open_until(Some(BreakerView { probe_until: Some(until), ..breaker }), now) is Some,
{
}

/// A failure never shortens the open period and ends any probe.
pub proof fn failures_extend_the_open_period(breaker: BreakerView, until: Timestamp, reason: Seq<char>)
    ensures
        failed_entry(Some(breaker), until, reason).open_until.nanos >= breaker.open_until.nanos,
        failed_entry(Some(breaker), until, reason).open_until.nanos >= until.nanos,
        failed_entry(Some(breaker), until, reason).probe_until is None,
        failed_entry(Some(breaker), until, reason).failures >= breaker.failures,
{
}

// ---------------------------------------------------------------------------------------------
// Waits
// ---------------------------------------------------------------------------------------------

/// A session's wait for inference with the reasons gathered so far.
#[derive(Clone, Debug, PartialEq, Eq)]
pub struct InferenceWait {
    pub since: Timestamp,
    pub wake_at: Timestamp,
    pub last_failure_seq: u64,
    pub reasons: Vec<String>,
    pub attempts: u32,
}

/// View of a wait.
#[verifier::ext_equal]
pub ghost struct WaitView {
    pub since: Timestamp,
    pub wake_at: Timestamp,
    pub last_failure_seq: u64,
    pub reasons: Seq<Seq<char>>,
    pub attempts: u32,
}

/// Views of texts in order.
pub open spec fn text_views(list: Seq<String>) -> Seq<Seq<char>> {
    list.map_values(|text: String| text@)
}

impl View for InferenceWait {
    type V = WaitView;

    open spec fn view(&self) -> WaitView {
        WaitView {
            since: self.since,
            wake_at: self.wake_at,
            last_failure_seq: self.last_failure_seq,
            reasons: text_views(self.reasons@),
            attempts: self.attempts,
        }
    }
}

/// View of a wait row that may be absent.
pub open spec fn wait_view(row: Option<InferenceWait>) -> Option<WaitView> {
    match row {
        Some(wait) => Some(wait@),
        None => None,
    }
}

/// A wait that begins now.
pub open spec fn fresh_wait(now: Timestamp, wake_at: Timestamp) -> WaitView {
    WaitView { since: now, wake_at, last_failure_seq: 0, reasons: Seq::empty(), attempts: 0 }
}

/// Reasons with one more, clipped; repeated ones and those past the bound are left out.
pub open spec fn noted(reasons: Seq<Seq<char>>, reason: Seq<char>) -> Seq<Seq<char>> {
    let summary = clip(reason, 256);
    if reasons.contains(summary) || reasons.len() >= 32 {
        reasons
    } else {
        reasons.push(summary)
    }
}

/// Reasons with more of them in order.
pub open spec fn noted_all(reasons: Seq<Seq<char>>, more: Seq<Seq<char>>) -> Seq<Seq<char>>
    decreases more.len(),
{
    if more.len() == 0 {
        reasons
    } else {
        noted(noted_all(reasons, more.drop_last()), more.last())
    }
}

/// What holds of the reasons of every wait: few, short, and none twice.
pub open spec fn tidy(reasons: Seq<Seq<char>>) -> bool {
    &&& reasons.len() <= 32
    &&& forall|i: int| 0 <= i < reasons.len() ==> (#[trigger] reasons[i]).len() <= 256
    &&& reasons.no_duplicates()
}

/// Noting a reason keeps reasons few, short and distinct.
pub proof fn noting_keeps_reasons_tidy(reasons: Seq<Seq<char>>, reason: Seq<char>)
    requires
        tidy(reasons),
    ensures
        tidy(noted(reasons, reason)),
{
    let summary = clip(reason, 256);
    if !reasons.contains(summary) && reasons.len() < 32 {
        let next = reasons.push(summary);
        assert forall|i: int, j: int| 0 <= i < next.len() && 0 <= j < next.len() && i != j implies next[i]
            != next[j] by {
            if i == reasons.len() {
                assert(reasons[j] == next[j]);
            } else if j == reasons.len() {
                assert(reasons[i] == next[i]);
            }
        }
    }
}

fn holds_text(list: &Vec<String>, text: &str) -> (found: bool)
    ensures
        found == text_views(list@).contains(text@),
{
    let ghost views = text_views(list@);
    let mut i: usize = 0;
    while i < list.len()
        invariant
            i <= list.len(),
            views == text_views(list@),
            forall|j: int| 0 <= j < i ==> views[j] != text@,
        decreases list.len() - i,
    {
        if same(list[i].as_str(), text) {
            assert(views[i as int] == text@);
            return true;
        }
        i += 1;
    }
    false
}

/// Adds a reason to a list unless it is there or the list is full.
pub fn note_reason(reasons: &mut Vec<String>, reason: &str)
    ensures
        text_views(final(reasons)@) == noted(text_views(old(reasons)@), reason@),
{
    let ghost before = reasons@;
    let summary = clipped(reason, 256);
    if !holds_text(reasons, summary.as_str()) && reasons.len() < 32 {
        reasons.push(summary);
        assert(text_views(reasons@) =~= text_views(before).push(summary@));
    }
}

/// Rows of a session that was parked, and what changes in the index of due waits.
pub struct Parked {
    pub rows: SessionRows,
    pub wait: InferenceWait,
    /// Due time to take out of the index.
    pub clear_due: Option<Timestamp>,
    /// Due time to put into the index.
    pub add_due: Timestamp,
}

/// The wait that a parked runnable session has.
pub open spec fn breaker_wait(
    row: Option<WaitView>,
    reason: Seq<char>,
    until: Timestamp,
    now: Timestamp,
    limit: Timestamp,
) -> WaitView {
    let wait = match row {
        Some(wait) => wait,
        None => fresh_wait(now, until),
    };
    WaitView { reasons: noted(wait.reasons, reason), wake_at: earlier_of(until, limit), ..wait }
}

/// Since when a session waits.
pub open spec fn waiting_since(row: Option<WaitView>, now: Timestamp) -> Timestamp {
    match row {
        Some(wait) => wait.since,
        None => now,
    }
}

/// Parks a runnable session before it can submit work to an open entry. Nothing is parked while
/// the session is elsewhere, while an interruption is pending, or once the wait has lasted
/// `max_wait`.
pub fn park_runnable_for_breaker(
    rows: &SessionRows,
    row: Option<InferenceWait>,
    reason: &str,
    until: Timestamp,
    now: Timestamp,
    max_wait: Duration,
) -> (result: StoreResult<Option<Parked>>)
    ensures
        ({
            let limit = moved(waiting_since(wait_view(row), now).nanos as int, max_wait.nanos as int);
            match rows.session {
                None => result matches Err(error) && error == StoreError::SessionMissing,
                Some(session) => if session.state != SessionState::Runnable || rows.interrupt {
                    result matches Ok(parked) && parked is None
                } else {
                    match limit {
                        None => result matches Err(error) && error == StoreError::Corrupt,
                        Some(limit) => if now.nanos >= limit.nanos {
                            result matches Ok(parked) && parked is None
                        } else {
                            &&& result matches Ok(Some(parked))
                            &&& parked.wait@ == breaker_wait(wait_view(row), reason@, until, now, limit)
                            &&& parked.clear_due is None
                            &&& parked.add_due == earlier_of(until, limit)
                            &&& parked.rows == transitioned(*rows, session, SessionState::Sleeping, now)
                        },
                    }
                },
            }
        }),
{
    let session = match rows.session {
        None => {
            return Err(StoreError::SessionMissing);
        },
        Some(session) => session,
    };
    if session.state != SessionState::Runnable || rows.interrupt {
        return Ok(None);
    }
    let mut wait = match row {
        Some(wait) => wait,
        None => InferenceWait {
            since: now,
            wake_at: until,
            last_failure_seq: 0,
            reasons: Vec::new(),
            attempts: 0,
        },
    };
    assert(row is None ==> text_views(wait.reasons@) =~= Seq::<Seq<char>>::empty());
    let limit = match wait.since.checked_add(max_wait) {
        Some(limit) => limit,
        None => {
            return Err(StoreError::Corrupt);
        },
    };
    if now.nanos >= limit.nanos {
        return Ok(None);
    }
    note_reason(&mut wait.reasons, reason);
    wait.wake_at = until.min(limit);
    let add_due = wait.wake_at;
    let next = transition(rows, session, SessionState::Sleeping, now);
    Ok(Some(Parked { rows: next, wait, clear_due: None, add_due }))
}

/// One provider failure being parked.
pub struct InferenceFailureWait<'a> {
    pub seq: u64,
    pub reason: &'a str,
    pub wake_at: Timestamp,
}

/// The wait after a failure. A failure that was noted before adds neither an attempt nor a
/// reason; the wait ends by `limit`, or at once when `limit` has passed.
pub open spec fn failure_wait(
    row: Option<WaitView>,
    seq: u64,
    reason: Seq<char>,
    wake_at: Timestamp,
    now: Timestamp,
    limit: Timestamp,
) -> WaitView {
    let wait = match row {
        Some(wait) => wait,
        None => fresh_wait(now, wake_at),
    };
    let counted = if wait.last_failure_seq != seq {
        WaitView {
            attempts: one_more(wait.attempts),
            reasons: noted(wait.reasons, reason),
            ..wait
        }
    } else {
        wait
    };
    WaitView {
        last_failure_seq: seq,
        wake_at: if now.nanos >= limit.nanos {
            now
        } else {
            earlier_of(wake_at, limit)
        },
        ..counted
    }
}

/// The due time that a failure takes out of the index.
pub open spec fn stale_due(row: Option<WaitView>) -> Option<Timestamp> {
    match row {
        Some(wait) => if wait.last_failure_seq != 0 {
            Some(wait.wake_at)
        } else {
            None
        },
        None => None,
    }
}

/// Parks a session whose lease was checked: the lease goes and the session sleeps until its
/// retry.
pub fn park_leased(
    rows: &SessionRows,
    session: StoredSession,
    row: Option<InferenceWait>,
    failure: &InferenceFailureWait,
    now: Timestamp,
    max_wait: Duration,
) -> (result: StoreResult<Parked>)
    ensures
        match moved(waiting_since(wait_view(row), now).nanos as int, max_wait.nanos as int) {
            None => result matches Err(error) && error == StoreError::Corrupt,
            Some(limit) => {
                let wait = failure_wait(
                    wait_view(row),
                    failure.seq,
                    failure.reason@,
                    failure.wake_at,
                    now,
                    limit,
                );
                &&& result matches Ok(parked)
                &&& parked.wait@ == wait
                &&& parked.clear_due == stale_due(wait_view(row))
                &&& parked.add_due == wait.wake_at
                &&& parked.rows == transitioned(*rows, session, SessionState::Sleeping, now)
            },
        },
{
    let mut wait = match row {
        Some(wait) => wait,
        None => InferenceWait {
            since: now,
            wake_at: failure.wake_at,
            last_failure_seq: 0,
            reasons: Vec::new(),
            attempts: 0,
        },
    };
    assert(row is None ==> text_views(wait.reasons@) =~= Seq::<Seq<char>>::empty());
    if wait.last_failure_seq != failure.seq {
        wait.attempts = wait.attempts.saturating_add(1);
        note_reason(&mut wait.reasons, failure.reason);
    }
    let limit = match wait.since.checked_add(max_wait) {
        Some(limit) => limit,
        None => {
            return Err(StoreError::Corrupt);
        },
    };
    let clear_due = if wait.last_failure_seq != 0 {
        Some(wait.wake_at)
    } else {
        None
    };
    wait.last_failure_seq = failure.seq;
    wait.wake_at = if now.nanos >= limit.nanos {
        now
    } else {
        failure.wake_at.min(limit)
    };
    let add_due = wait.wake_at;
    let next = transition(rows, session, SessionState::Sleeping, now);
    Ok(Parked { rows: next, wait, clear_due, add_due })
}

/// Gives up a worker's lease and parks its session until the retry time.
pub fn park_inference(
    rows: &SessionRows,
    lease: &Lease,
    row: Option<InferenceWait>,
    failure: &InferenceFailureWait,
    now: Timestamp,
    max_wait: Duration,
) -> (result: StoreResult<Parked>)
    ensures
        rows.session is None ==> (result matches Err(error) && error == StoreError::SessionMissing),
        rows.session is Some && !holds(*rows, *lease, now) ==> (result matches Err(error) && error
            == StoreError::LeaseMismatch),
        holds(*rows, *lease, now) ==> match moved(
            waiting_since(wait_view(row), now).nanos as int,
            max_wait.nanos as int,
        ) {
            None => result matches Err(error) && error == StoreError::Corrupt,
            Some(limit) => {
                let wait = failure_wait(
                    wait_view(row),
                    failure.seq,
                    failure.reason@,
                    failure.wake_at,
                    now,
                    limit,
                );
                &&& result matches Ok(parked)
                &&& parked.wait@ == wait
                &&& parked.clear_due == stale_due(wait_view(row))
                &&& parked.add_due == wait.wake_at
                &&& parked.rows == transitioned(
                    *rows,
                    rows.session->0,
                    SessionState::Sleeping,
                    now,
                )
            },
        },
{
    let session = match rows.session {
        None => {
            return Err(StoreError::SessionMissing);
        },
        Some(session) => session,
    };
    if session.state != SessionState::Leased {
        return Err(StoreError::LeaseMismatch);
    }
    let current = verify_lease(&rows.lease, lease)?;
    if current.expires_at.nanos <= now.nanos {
        return Err(StoreError::LeaseMismatch);
    }
    park_leased(rows, session, row, failure, now, max_wait)
}

/// No wait outlasts its bound: a parked session wakes within `max_wait` of the moment it began to
/// wait, or at once when that moment has passed.
pub proof fn waits_are_bounded(
    row: Option<WaitView>,
    seq: u64,
    reason: Seq<char>,
    wake_at: Timestamp,
    now: Timestamp,
    limit: Timestamp,
)
    ensures
        ({
            let failed = failure_wait(row, seq, reason, wake_at, now, limit);
            let parked = breaker_wait(row, reason, wake_at, now, limit);
            &&& failed.wake_at.nanos <= limit.nanos || failed.wake_at == now
            &&& parked.wake_at.nanos <= limit.nanos
            &&& failed.since == waiting_since(row, now)
            &&& parked.since == waiting_since(row, now)
        }),
{
}

/// Parking keeps the reasons of a wait few, short and distinct.
pub proof fn parking_keeps_reasons_tidy(
    row: Option<WaitView>,
    seq: u64,
    reason: Seq<char>,
    wake_at: Timestamp,
    now: Timestamp,
    limit: Timestamp,
)
    requires
        row matches Some(wait) ==> tidy(wait.reasons),
    ensures
        tidy(failure_wait(row, seq, reason, wake_at, now, limit).reasons),
        tidy(breaker_wait(row, reason, wake_at, now, limit).reasons),
{
    let before = match row {
        Some(wait) => wait.reasons,
        None => Seq::empty(),
    };
    noting_keeps_reasons_tidy(before, reason);
}

/// What waking a session changes.
pub struct WokenWait {
    pub woke: bool,
    pub clear_due: Option<Timestamp>,
    pub rows: SessionRows,
}

/// Wakes a sleeping session whose wait is due. A due wait leaves the index either way.
pub fn wake_inference_wait(rows: &SessionRows, row: &Option<InferenceWait>, now: Timestamp) -> (result: StoreResult<WokenWait>)
    ensures
        match wait_view(*row) {
            None => result matches Ok(woken) && !woken.woke && woken.clear_due is None
                && woken.rows == *rows,
            Some(wait) => if wait.wake_at.nanos > now.nanos {
                result matches Ok(woken) && !woken.woke && woken.clear_due is None && woken.rows
                    == *rows
            } else {
                match rows.session {
                    None => result matches Err(error) && error == StoreError::SessionMissing,
                    Some(session) => {
                        let sleeps = session.state == SessionState::Sleeping;
                        &&& result matches Ok(woken)
                        &&& woken.woke == sleeps
                        &&& woken.clear_due == Some(wait.wake_at)
                        &&& woken.rows == if sleeps {
                            transitioned(*rows, session, SessionState::Runnable, now)
                        } else {
                            *rows
                        }
                    },
                }
            },
        },
{
    let wake_at = match row {
        None => {
            return Ok(WokenWait { woke: false, clear_due: None, rows: *rows });
        },
        Some(wait) => wait.wake_at,
    };
    if wake_at.nanos > now.nanos {
        return Ok(WokenWait { woke: false, clear_due: None, rows: *rows });
    }
    match rows.session {
        None => Err(StoreError::SessionMissing),
        Some(session) => if session.state == SessionState::Sleeping {
            Ok(
                WokenWait {
                    woke: true,
                    clear_due: Some(wake_at),
                    rows: transition(rows, session, SessionState::Runnable, now),
                },
            )
        } else {
            Ok(WokenWait { woke: false, clear_due: Some(wake_at), rows: *rows })
        },
    }
}

/// Removes the wait of a completed turn and returns the due time to take out of the index.
pub fn clear_inference_wait(row: &mut Option<InferenceWait>) -> (clear_due: Option<Timestamp>)
    ensures
        *final(row) is None,
        clear_due == match wait_view(*old(row)) {
            Some(wait) => Some(wait.wake_at),
            None => None,
        },
{
    let due = match row {
        Some(wait) => Some(wait.wake_at),
        None => None,
    };
    *row = None;
    due
}

/// An entry's name is its provider, and behind a slash its label where it has one; the parts of a key
/// are those that it was made from.
pub proof fn keys_keep_their_parts(
    provider: &str,
    label: &str,
    other: Option<String>,
    a: CredentialKey,
    b: CredentialKey,
    c: CredentialKey,
    name_a: String,
    name_b: String,
)
    requires
        call_ensures(CredentialKey::provider, (provider,), a),
        call_ensures(CredentialKey::entry, (provider, label), b),
        call_ensures(CredentialKey::for_label, (provider, other), c),
        call_ensures(CredentialKey::name, (&a,), name_a),
        call_ensures(CredentialKey::name, (&b,), name_b),
    ensures
        a.provider@ == provider@ && a.label is None,
        b.provider@ == provider@ && b.label is Some && b.label->0@ == label@,
        c.provider@ == provider@ && c.label.deep_view() == other.deep_view(),
        name_a@ == provider@,
        name_b@ == provider@ + "/"@ + label@,
{
}

/// A claim on an open entry is put off until the entry closes, and changes nothing. One on a closed
/// entry that was open takes the only probe, for two minutes; nothing else of the entry changes. An
/// entry that never failed is granted at once.
pub proof fn probes_are_granted_once(row: &mut Option<Breaker>, now: Timestamp, result: StoreResult<Option<Timestamp>>)
    requires
        call_ensures(claim_entry, (row, now), result),
    ensures
        *old(row) is None ==> result == Ok::<Option<Timestamp>, StoreError>(None) && *final(row) is None,
        *old(row) matches Some(before) ==> {
            &&& *final(row) matches Some(after) && after.open_until == before.open_until && after.failures
                == before.failures && after.reason@ == before.reason@ && (result == Ok::<
                Option<Timestamp>,
                StoreError,
            >(None) ==> before.open_until.nanos <= now.nanos && (after.probe_until matches Some(until)
                && until.nanos == now.nanos + 120_000_000_000)) && (result != Ok::<Option<Timestamp>, StoreError>(
                None,
            ) ==> after.probe_until == before.probe_until)
            &&& before.open_until.nanos > now.nanos ==> result == Ok::<_, StoreError>(Some(before.open_until))
            &&& before.open_until.nanos <= now.nanos ==> (before.probe_until matches Some(until) ==> (until.nanos
                > now.nanos ==> match result {
                Ok(Some(next)) => next.nanos == now.nanos + 1_000_000_000,
                Ok(None) => false,
                Err(error) => error == StoreError::Corrupt,
            }))
        },
{
}

/// An entry is open until the moment that its breaker names, and closed once that has passed and no
/// probe runs; the reason is told exactly while it is open.
pub proof fn entries_are_open_until_then(
    row: Option<Breaker>,
    now: Timestamp,
    until: Option<Timestamp>,
    state: (Option<Timestamp>, Option<String>),
)
    requires
        call_ensures(entry_open_until, (&row, now), until),
        call_ensures(open_state, (&row, now), state),
    ensures
        row is None ==> until is None,
        row matches Some(breaker) ==> {
            &&& breaker.open_until.nanos > now.nanos ==> until == Some(breaker.open_until)
            &&& breaker.open_until.nanos <= now.nanos && breaker.probe_until is None ==> until is None
            &&& until matches Some(at) ==> at.nanos > now.nanos
        },
        state.0 == until,
        state.1 is Some <==> until is Some,
        state.1 matches Some(reason) ==> reason@ == row->0.reason@,
{
}

/// A failure opens an entry at least until the given moment and never shortens what was open; it
/// counts one more failure, ends any probe and keeps the start of its reason.
pub proof fn failures_open_the_entry(row: &mut Option<Breaker>, until: Timestamp, reason: &str)
    requires
        call_ensures(entry_failure, (row, until, reason), ()),
    ensures
        *final(row) matches Some(after) && {
            &&& after.open_until.nanos >= until.nanos && after.probe_until is None
            &&& after.reason@.len() <= 256 && after.reason@ == reason@.take(after.reason@.len() as int)
            &&& reason@.len() <= 256 ==> after.reason@ == reason@
            &&& *old(row) is None ==> after.failures == 1 && after.open_until == until
            &&& *old(row) matches Some(before) ==> after.open_until.nanos >= before.open_until.nanos && (
            after.open_until == until || after.open_until == before.open_until) && after.failures
                >= before.failures && (before.failures < u32::MAX ==> after.failures == before.failures + 1)
        },
{
    assert(reason@ =~= reason@.take(reason@.len() as int));
}

/// A success forgets an entry that was probed and leaves every other as it was.
pub proof fn successes_close_probed_entries(row: &mut Option<Breaker>)
    requires
        call_ensures(entry_success, (row,), ()),
    ensures
        *old(row) is None ==> *final(row) is None,
        *old(row) matches Some(before) ==> (before.probe_until is Some ==> *final(row) is None),
        *old(row) matches Some(before) ==> (before.probe_until is None ==> (*final(row) matches Some(after)
            && after.open_until == before.open_until && after.failures == before.failures && after.reason@
            == before.reason@ && after.probe_until is None)),
{
}

/// What an entry tells of itself is what it holds.
pub proof fn entries_tell_what_they_hold(row: Option<Breaker>, failures: u32, reason: Option<String>)
    requires
        call_ensures(entry_failures, (&row,), failures),
        call_ensures(entry_reason, (&row,), reason),
    ensures
        row matches Some(breaker) ==> failures == breaker.failures && (reason matches Some(words) && words@
            == breaker.reason@),
        row is None ==> failures == 0 && reason is None,
{
}

/// A reason is noted at the end, once, shortened, while there is room; what was noted before stays.
pub proof fn reasons_are_noted_behind_the_others(reasons: &mut Vec<String>, reason: &str)
    requires
        call_ensures(note_reason, (reasons, reason), ()),
    ensures
        old(reasons)@.len() <= final(reasons)@.len() <= old(reasons)@.len() + 1,
        forall|i: int| 0 <= i < old(reasons)@.len() ==> (#[trigger] final(reasons)@[i])@ == old(reasons)@[i]@,
        final(reasons)@.len() > old(reasons)@.len() ==> final(reasons)@.last()@ == reason@.take(
            final(reasons)@.last()@.len() as int,
        ) && old(reasons)@.len() < 32,
        reason@.len() <= 256 && old(reasons)@.len() < 32 ==> exists|i: int|
            0 <= i < final(reasons)@.len() && (#[trigger] final(reasons)@[i])@ == reason@,
{
    let before = text_views(old(reasons)@);
    let after = text_views(final(reasons)@);
    let summary = clip(reason@, 256);
    assert(before.len() == old(reasons)@.len() && after.len() == final(reasons)@.len());
    assert(reason@ =~= reason@.take(reason@.len() as int));
    assert forall|i: int| 0 <= i < old(reasons)@.len() implies (#[trigger] final(reasons)@[i])@ == old(reasons)@[i]@ by {
        assert(after[i] == before[i]);
        assert(after[i] == final(reasons)@[i]@);
        assert(before[i] == old(reasons)@[i]@);
    }
    if after.len() > before.len() {
        assert(after.last() == final(reasons)@.last()@);
    }
    if reason@.len() <= 256 && before.len() < 32 {
        assert(summary == reason@);
        if before.contains(summary) {
            let i = choose|i: int| 0 <= i < before.len() && before[i] == summary;
            assert(after[i] == final(reasons)@[i]@);
        } else {
            assert(after[after.len() - 1] == final(reasons)@[after.len() - 1]@);
        }
    }
}

/// A session that is parked behind an open entry sleeps, out of the queue, and is woken when the
/// entry closes or when it has waited long enough, whichever comes first. It keeps its ids and its
/// head, the start of its wait and its count of attempts.
pub proof fn parked_sessions_wake_in_time(
    rows: SessionRows,
    row: Option<InferenceWait>,
    reason: &str,
    until: Timestamp,
    now: Timestamp,
    max_wait: Duration,
    result: StoreResult<Option<Parked>>,
)
    requires
        call_ensures(park_runnable_for_breaker, (&rows, row, reason, until, now, max_wait), result),
    ensures
        result matches Ok(Some(parked)) ==> {
            let before = rows.session->0;
            let after = parked.rows.session->0;
            &&& rows.session is Some && before.state == SessionState::Runnable && !rows.interrupt
            &&& after.state == SessionState::Sleeping && parked.rows.runnable is None
            &&& after.session_id == before.session_id && after.agent_id == before.agent_id
            &&& after.head_seq == before.head_seq && after.snapshot_seq == before.snapshot_seq
            &&& parked.rows.state_since == Some(now)
            &&& parked.add_due == parked.wait.wake_at && parked.clear_due is None
            &&& parked.wait.wake_at.nanos <= until.nanos
            &&& parked.wait.wake_at.nanos <= parked.wait.since.nanos + max_wait.nanos
            &&& parked.wait.wake_at == until || parked.wait.wake_at.nanos == parked.wait.since.nanos
                + max_wait.nanos
            &&& now.nanos < parked.wait.since.nanos + max_wait.nanos
            &&& row matches Some(wait) ==> parked.wait.since == wait.since && parked.wait.attempts
                == wait.attempts && parked.wait.last_failure_seq == wait.last_failure_seq
            &&& row is None ==> parked.wait.since == now && parked.wait.attempts == 0
                && parked.wait.last_failure_seq == 0
        },
        rows.session matches Some(session) ==> (session.state != SessionState::Runnable || rows.interrupt
            ==> (result matches Ok(parked) && parked is None)),
{
}

/// A worker that parks its session after a failure gives its lease up. The wait remembers the
/// failure, counts it once, and ends when asked or when the session has waited long enough. An old
/// place in the index goes with it.
pub proof fn failed_sessions_wake_in_time(
    rows: SessionRows,
    lease: Lease,
    row: Option<InferenceWait>,
    failure: InferenceFailureWait,
    now: Timestamp,
    max_wait: Duration,
    result: StoreResult<Parked>,
)
    requires
        call_ensures(park_inference, (&rows, &lease, row, &failure, now, max_wait), result),
    ensures
        result matches Ok(parked) ==> {
            let before = rows.session->0;
            let after = parked.rows.session->0;
            &&& rows.session is Some && before.state == SessionState::Leased && rows.lease == Some(lease)
            &&& lease.expires_at.nanos > now.nanos
            &&& after.state == SessionState::Sleeping && parked.rows.lease is None
            &&& after.session_id == before.session_id && after.agent_id == before.agent_id
            &&& after.head_seq == before.head_seq && after.snapshot_seq == before.snapshot_seq
            &&& parked.wait.last_failure_seq == failure.seq && parked.add_due == parked.wait.wake_at
            &&& parked.wait.wake_at == now || parked.wait.wake_at.nanos <= failure.wake_at.nanos
                && parked.wait.wake_at.nanos <= parked.wait.since.nanos + max_wait.nanos
            &&& row is None && failure.seq != 0 ==> parked.wait.attempts == 1
            &&& row is None ==> parked.wait.since == now && parked.clear_due is None
            &&& row matches Some(wait) ==> parked.wait.since == wait.since
            &&& row matches Some(wait) ==> (wait.last_failure_seq == failure.seq ==> parked.wait.attempts
                == wait.attempts)
            &&& row matches Some(wait) ==> (wait.last_failure_seq != failure.seq && wait.attempts < u32::MAX
                ==> parked.wait.attempts == wait.attempts + 1)
            &&& row matches Some(wait) ==> (wait.last_failure_seq != 0 ==> parked.clear_due == Some(
                wait.wake_at,
            ))
        },
{
}

/// A wait ends once it is due, and then wakes a session that sleeps; the session is queued, with its
/// head and its ids as they were. Before that nothing changes.
pub proof fn due_waits_wake_the_session(rows: SessionRows, row: Option<InferenceWait>, now: Timestamp, result: StoreResult<WokenWait>)
    requires
        call_ensures(wake_inference_wait, (&rows, &row, now), result),
    ensures
        result matches Ok(woken) ==> {
            &&& woken.woke ==> {
                let before = rows.session->0;
                let after = woken.rows.session->0;
                &&& rows.session is Some && before.state == SessionState::Sleeping && row is Some
                &&& row->0.wake_at.nanos <= now.nanos && woken.clear_due == Some(row->0.wake_at)
                &&& after.state == SessionState::Runnable && after.session_id == before.session_id
                &&& after.agent_id == before.agent_id && after.head_seq == before.head_seq
                &&& after.snapshot_seq == before.snapshot_seq
                &&& woken.rows.runnable matches Some(entry) && entry.session_id == before.session_id
                    && entry.wake_at == now
            }
            &&& !woken.woke ==> woken.rows == rows
        },
        row matches Some(wait) ==> (rows.session matches Some(session) ==> (wait.wake_at.nanos <= now.nanos
            && session.state == SessionState::Sleeping ==> (result matches Ok(woken) && woken.woke))),
        row matches Some(wait) ==> (wait.wake_at.nanos > now.nanos ==> (result matches Ok(woken)
            && !woken.woke && woken.clear_due is None)),
{
}

/// A wait that is cleared is gone, and its due time leaves the index with it.
pub proof fn cleared_waits_leave_the_index(row: &mut Option<InferenceWait>, clear_due: Option<Timestamp>)
    requires
        call_ensures(clear_inference_wait, (row,), clear_due),
    ensures
        *final(row) is None,
        *old(row) matches Some(wait) ==> clear_due == Some(wait.wake_at),
        *old(row) is None ==> clear_due is None,
{
}

/// A leased session that is parked after a failure sleeps without its lease; its wait remembers the
/// failure and ends when asked or when it has lasted long enough.
pub proof fn parked_leases_are_given_up(
    rows: SessionRows,
    session: StoredSession,
    row: Option<InferenceWait>,
    failure: InferenceFailureWait,
    now: Timestamp,
    max_wait: Duration,
    result: StoreResult<Parked>,
)
    requires
        session.state == SessionState::Leased,
        call_ensures(park_leased, (&rows, session, row, &failure, now, max_wait), result),
    ensures
        result matches Ok(parked) ==> {
            let after = parked.rows.session->0;
            &&& after.state == SessionState::Sleeping && parked.rows.lease is None
            &&& after.session_id == session.session_id && after.head_seq == session.head_seq
            &&& after.agent_id == session.agent_id && after.snapshot_seq == session.snapshot_seq
            &&& parked.wait.last_failure_seq == failure.seq && parked.add_due == parked.wait.wake_at
            &&& now.nanos < parked.wait.since.nanos + max_wait.nanos ==> parked.wait.wake_at.nanos
                <= failure.wake_at.nanos && parked.wait.wake_at.nanos <= parked.wait.since.nanos + max_wait.nanos
                && (parked.wait.wake_at == failure.wake_at || parked.wait.wake_at.nanos == parked.wait.since.nanos
                + max_wait.nanos)
            &&& now.nanos >= parked.wait.since.nanos + max_wait.nanos ==> parked.wait.wake_at == now
            &&& row is None ==> parked.wait.since == now
            &&& row matches Some(wait) ==> parked.wait.since == wait.since
        },
{
}

/// The reason of a failure is noted among the reasons of the wait.
pub proof fn failures_are_told(
    rows: SessionRows,
    session: StoredSession,
    failure: InferenceFailureWait,
    now: Timestamp,
    max_wait: Duration,
    result: StoreResult<Parked>,
)
    requires
        failure.seq != 0,
        failure.reason@.len() <= 256,
        call_ensures(park_leased, (&rows, session, None::<InferenceWait>, &failure, now, max_wait), result),
    ensures
        result matches Ok(parked) ==> parked.wait.reasons@.len() == 1 && parked.wait.reasons@[0]@
            == failure.reason@,
{
    if let Ok(parked) = result {
        let views = text_views(parked.wait.reasons@);
        assert(views.len() == parked.wait.reasons@.len());
        assert(views =~= seq![failure.reason@]);
        assert(views[0] == parked.wait.reasons@[0]@);
    }
}

} // verus!
