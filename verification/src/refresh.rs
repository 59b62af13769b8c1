//! Fenced refreshes: one holder of a short lease replaces a credential, and publishes only while
//! nobody else changed it.

use crate::credentials::{
    entry_readiness, expiry_of, extra_of, facts_of, noted, status_of, CredentialKind,
    CredentialRecord, CredentialStatus, CredentialView, EntryValue, EntryView, KindView,
};
use crate::error::{StoreError, StoreResult};
use crate::ids::LeaseOwnerId;
use crate::session::Lease;
use crate::text::same;
use crate::textmap::{has_key, key_index, key_index_unique, TextMap};
use crate::time::{moved, Duration, Timestamp};
use vstd::prelude::*;

verus! {

/// What an attempt to start a refresh found.
#[derive(Clone, Debug, PartialEq, Eq)]
pub enum Claim {
    /// Another refresh is under way.
    Busy,
    /// Somebody replaced the credential; this is its ciphertext.
    Changed(Vec<u8>),
    /// Nobody refreshes the observed credential.
    Free,
}

/// Compares byte strings.
pub fn same_bytes(left: &Vec<u8>, right: &Vec<u8>) -> (equal: bool)
    ensures
        equal == (left@ == right@),
{
    if left.len() != right.len() {
        return false;
    }
    let mut i: usize = 0;
    while i < left.len()
        invariant
            i <= left.len(),
            left.len() == right.len(),
            forall|j: int| 0 <= j < i ==> left@[j] == right@[j],
        decreases left.len() - i,
    {
        if left[i] != right[i] {
            assert(left@[i as int] != right@[i as int]);
            return false;
        }
        i += 1;
    }
    assert(left@ =~= right@);
    true
}

/// Whether a lease is live.
pub open spec fn is_live(lease: Option<Lease>, now: Timestamp) -> bool {
    lease matches Some(held) && held.expires_at.nanos > now.nanos
}

/// Checks a time to hold a refresh: it has to last.
pub fn check_refresh(ttl: Duration) -> (result: StoreResult<()>)
    ensures
        match result {
            Ok(_) => ttl.nanos > 0,
            Err(error) => ttl.nanos == 0 && error == StoreError::LeaseMismatch,
        },
{
    if ttl.is_zero() {
        Err(StoreError::LeaseMismatch)
    } else {
        Ok(())
    }
}

/// Tries to start a refresh of an observed ciphertext. A replaced credential ends the attempt with
/// the replacement, a live lease of another refresh makes it wait.
pub fn claim_refresh(
    current: Option<Vec<u8>>,
    observed: &Vec<u8>,
    lease: &Option<Lease>,
    now: Timestamp,
) -> (result: StoreResult<Claim>)
    ensures
        match current {
            None => result matches Err(error) && error == StoreError::CredentialMissing,
            Some(bytes) => if bytes@ != observed@ {
                result == Ok::<Claim, StoreError>(Claim::Changed(bytes))
            } else if is_live(*lease, now) {
                result == Ok::<Claim, StoreError>(Claim::Busy)
            } else {
                result == Ok::<Claim, StoreError>(Claim::Free)
            },
        },
{
    match current {
        None => Err(StoreError::CredentialMissing),
        Some(bytes) => {
            if !same_bytes(&bytes, observed) {
                return Ok(Claim::Changed(bytes));
            }
            match lease {
                Some(held) if held.expires_at.nanos > now.nanos => Ok(Claim::Busy),
                _ => Ok(Claim::Free),
            }
        },
    }
}

/// Grants a refresh of a free credential. One that needs a login cannot be refreshed.
pub fn grant_refresh(record: &CredentialRecord, ttl: Duration, owner: LeaseOwnerId, now: Timestamp) -> (result: StoreResult<Lease>)
    requires
        record.wf(),
        now.valid(),
    ensures
        if status_of(*record, now) == CredentialStatus::NeedsLogin {
            result matches Err(error) && error == StoreError::CredentialRefresh
        } else {
            match moved(now.nanos as int, ttl.nanos as int) {
                Some(expires_at) => result == Ok::<Lease, StoreError>(
                    (Lease { owner, expires_at, seq: 0 }),
                ),
                None => result matches Err(error) && error == StoreError::LeaseMismatch,
            }
        },
{
    if record.status(now) == CredentialStatus::NeedsLogin {
        return Err(StoreError::CredentialRefresh);
    }
    match now.checked_add(ttl) {
        Some(expires_at) => Ok(Lease { owner, expires_at, seq: 0 }),
        None => Err(StoreError::LeaseMismatch),
    }
}

/// How long a refresh may take: until its lease expires.
pub fn refresh_time(lease: &Lease, now: Timestamp) -> (time: Duration)
    requires
        lease.expires_at.valid(),
        now.valid(),
    ensures
        time.nanos == if lease.expires_at.nanos > now.nanos {
            lease.expires_at.nanos - now.nanos
        } else {
            0
        },
{
    if lease.expires_at.nanos > now.nanos {
        Duration { nanos: (lease.expires_at.nanos - now.nanos) as u128 }
    } else {
        Duration { nanos: 0 }
    }
}

/// How a refresh ended.
pub enum RefreshOutcome {
    Done(CredentialRecord),
    Failed,
    TimedOut,
}

/// What a refresh leaves to publish.
pub struct Refreshed {
    pub record: CredentialRecord,
    /// The provider refused, so that a login is needed.
    pub failed: bool,
    /// The record differs from the one that was refreshed.
    pub changed: bool,
}

/// A secret after a refused refresh: it stays, with a note that a login is needed.
pub open spec fn with_login(kind: KindView) -> KindView {
    match kind {
        KindView::ApiKey { key, extra } => KindView::ApiKey {
            key,
            extra: extra.insert("needs_login"@, "true"@),
        },
        KindView::OAuth { access, refresh, expires_at, extra } => KindView::OAuth {
            access,
            refresh,
            expires_at,
            extra: extra.insert("needs_login"@, "true"@),
        },
    }
}

/// A credential that a refresh found: a new version is dated, an unchanged one is not.
pub open spec fn dated(before: CredentialView, after: CredentialView, now: Timestamp) -> CredentialView {
    if after == before {
        before
    } else {
        CredentialView { updated_at: now, ..after }
    }
}

/// Whether every fact of one map stands in another.
fn facts_within(left: &TextMap<String>, right: &TextMap<String>) -> (within: bool)
    requires
        left.wf(),
        right.wf(),
    ensures
        within == forall|key: Seq<char>|
            #[trigger] facts_of(*left).dom().contains(key) ==> facts_of(*right).dom().contains(key)
                && facts_of(*right)[key] == facts_of(*left)[key],
{
    let ghost a = facts_of(*left);
    let ghost b = facts_of(*right);
    let mut i: usize = 0;
    while i < left.entries.len()
        invariant
            i <= left.entries.len(),
            left.wf(),
            right.wf(),
            a == facts_of(*left),
            b == facts_of(*right),
            forall|j: int|
                0 <= j < i ==> b.dom().contains((#[trigger] left.entries@[j]).0@)
                    && b[left.entries@[j].0@] == left.entries@[j].1@,
        decreases left.entries.len() - i,
    {
        proof {
            key_index_unique(left.entries@, i as int);
            assert(a.dom().contains(left.entries@[i as int].0@));
        }
        match right.get(left.entries[i].0.as_str()) {
            Some(value) => {
                if !same(value.as_str(), left.entries[i].1.as_str()) {
                    return false;
                }
            },
            None => {
                return false;
            },
        }
        i += 1;
    }
    proof {
        assert forall|key: Seq<char>| #[trigger] a.dom().contains(key) implies b.dom().contains(key)
            && b[key] == a[key] by {
            assert(has_key(left.entries@, key));
            let at = key_index(left.entries@, key);
            assert(left.entries@[at].0@ == key);
        }
    }
    true
}

/// Compares credentials.
pub fn same_record(left: &CredentialRecord, right: &CredentialRecord) -> (equal: bool)
    requires
        left.wf(),
        right.wf(),
    ensures
        equal == (left@ == right@),
{
    let secrets = match (&left.kind, &right.kind) {
        (CredentialKind::ApiKey { key: a, .. }, CredentialKind::ApiKey { key: b, .. }) => same(
            a.as_str(),
            b.as_str(),
        ),
        (
            CredentialKind::OAuth { access: a, refresh: c, expires_at: e, .. },
            CredentialKind::OAuth { access: b, refresh: d, expires_at: f, .. },
        ) => same(a.as_str(), b.as_str()) && same(c.as_str(), d.as_str()) && *e == *f,
        _ => false,
    };
    let one = facts_within(left.kind.extra(), right.kind.extra());
    let two = facts_within(right.kind.extra(), left.kind.extra());
    proof {
        let a = facts_of(extra_of(left.kind));
        let b = facts_of(extra_of(right.kind));
        if one && two {
            assert(a =~= b);
        }
        if a == b {
            assert(one && two);
        }
    }
    secrets && one && two && left.updated_at == right.updated_at
}

/// Works out what a refresh leaves to publish. A refused one keeps the secret and notes that a
/// login is needed; one that took too long publishes nothing.
pub fn refresh_result(current: CredentialRecord, outcome: RefreshOutcome, now: Timestamp) -> (result: StoreResult<Refreshed>)
    requires
        current.wf(),
        outcome matches RefreshOutcome::Done(record) ==> record.wf(),
    ensures
        match outcome {
            RefreshOutcome::Done(record) => {
                &&& result matches Ok(next)
                &&& next.record.wf()
                &&& next.record@ == dated(current@, record@, now)
                &&& next.changed == (record@ != current@)
                &&& !next.failed
            },
            RefreshOutcome::Failed => {
                let refused = CredentialView { kind: with_login(current@.kind), ..current@ };
                &&& result matches Ok(next)
                &&& next.record.wf()
                &&& next.record@ == dated(current@, refused, now)
                &&& next.changed == (refused != current@)
                &&& next.failed
            },
            RefreshOutcome::TimedOut => result matches Err(error) && error
                == StoreError::LeaseMismatch,
        },
{
    match outcome {
        RefreshOutcome::Done(record) => {
            if same_record(&record, &current) {
                Ok(Refreshed { record: current, failed: false, changed: false })
            } else {
                let mut next = record;
                next.updated_at = now;
                Ok(Refreshed { record: next, failed: false, changed: true })
            }
        },
        RefreshOutcome::Failed => {
            let known = current.kind.notes("needs_login", "true");
            let ghost before = current@;
            let updated_at = if known {
                current.updated_at
            } else {
                now
            };
            let kind = match current.kind {
                CredentialKind::ApiKey { key, extra } => {
                    let ghost held = extra;
                    let mut extra = extra;
                    extra.insert("needs_login".to_owned(), "true".to_owned());
                    assert(facts_of(extra) =~= facts_of(held).insert("needs_login"@, "true"@));
                    CredentialKind::ApiKey { key, extra }
                },
                CredentialKind::OAuth { access, refresh, expires_at, extra } => {
                    let ghost held = extra;
                    let mut extra = extra;
                    extra.insert("needs_login".to_owned(), "true".to_owned());
                    assert(facts_of(extra) =~= facts_of(held).insert("needs_login"@, "true"@));
                    CredentialKind::OAuth { access, refresh, expires_at, extra }
                },
            };
            let record = CredentialRecord { kind, updated_at };
            proof {
                let facts = facts_of(extra_of(current.kind));
                if known {
                    assert(facts.insert("needs_login"@, "true"@) =~= facts);
                } else {
                    let told = facts.insert("needs_login"@, "true"@);
                    let extra = extra_of(current.kind);
                    assert(told.dom().contains("needs_login"@) && told["needs_login"@] == "true"@);
                    if facts == told {
                        assert(facts.dom().contains("needs_login"@) && facts["needs_login"@] == "true"@);
                        assert(extra@.dom().contains("needs_login"@));
                        assert(facts["needs_login"@] == extra@["needs_login"@]@);
                        assert(noted(current.kind, "needs_login"@, "true"@));
                    }
                    assert(facts != told);
                }
            }
            Ok(Refreshed { record, failed: true, changed: !known })
        },
        RefreshOutcome::TimedOut => Err(StoreError::LeaseMismatch),
    }
}

/// Whether a refresh may still publish: its lease is held and live, and the credential is the one
/// that it observed.
pub open spec fn may_publish(
    held: Option<Lease>,
    lease: Lease,
    current: Option<Seq<u8>>,
    observed: Seq<u8>,
    now: Timestamp,
) -> bool {
    held == Some(lease) && lease.expires_at.nanos > now.nanos && current == Some(observed)
}

fn check_fence(held: &Option<Lease>, lease: &Lease, now: Timestamp) -> (result: StoreResult<()>)
    ensures
        match result {
            Ok(_) => *held == Some(*lease) && lease.expires_at.nanos > now.nanos,
            Err(error) => error == StoreError::LeaseMismatch && !(*held == Some(*lease)
                && lease.expires_at.nanos > now.nanos),
        },
{
    match held {
        Some(found) if *found == *lease && found.expires_at.nanos > now.nanos => Ok(()),
        _ => Err(StoreError::LeaseMismatch),
    }
}

/// What a published refresh writes: the record where it differs, and the lease row, which goes.
pub struct FinishedRefresh<T> {
    pub record: Option<T>,
    pub lease: Option<Lease>,
}

/// Publishes a refresh of a provider's single record: the bytes are stored if they differ, and the
/// lease ends either way.
pub fn finish_refresh(
    held: &Option<Lease>,
    lease: &Lease,
    current: &Option<Vec<u8>>,
    observed: &Vec<u8>,
    bytes: Vec<u8>,
    now: Timestamp,
) -> (result: StoreResult<FinishedRefresh<Vec<u8>>>)
    ensures
        result is Ok <==> may_publish(*held, *lease, match *current {
            Some(found) => Some(found@),
            None => None,
        }, observed@, now),
        if !(*held == Some(*lease) && lease.expires_at.nanos > now.nanos) {
            result matches Err(error) && error == StoreError::LeaseMismatch
        } else {
            match *current {
                None => result matches Err(error) && error == StoreError::CredentialMissing,
                Some(found) => if found@ != observed@ {
                    result matches Err(error) && error == StoreError::LeaseMismatch
                } else if bytes@ != observed@ {
                    result matches Ok(done) && done.record == Some(bytes) && done.lease is None
                } else {
                    result matches Ok(done) && done.record is None && done.lease is None
                },
            }
        },
{
    check_fence(held, lease, now)?;
    match current {
        None => Err(StoreError::CredentialMissing),
        Some(found) => if !same_bytes(found, observed) {
            Err(StoreError::LeaseMismatch)
        } else if same_bytes(&bytes, observed) {
            Ok(FinishedRefresh { record: None, lease: None })
        } else {
            Ok(FinishedRefresh { record: Some(bytes), lease: None })
        },
    }
}

/// Publishes a refresh of a labelled entry. New bytes come with the hints of the credential they
/// hold; creation and last use stay. The lease ends either way.
pub fn finish_entry_refresh(
    held: &Option<Lease>,
    lease: &Lease,
    entry: Option<EntryValue>,
    observed: &Vec<u8>,
    bytes: Vec<u8>,
    replacement: &CredentialRecord,
    now: Timestamp,
) -> (result: StoreResult<FinishedRefresh<EntryValue>>)
    requires
        replacement.wf(),
    ensures
        result is Ok <==> may_publish(
            *held,
            *lease,
            match entry {
                Some(found) => Some(found.ciphertext@),
                None => None,
            },
            observed@,
            now,
        ),
        if !(*held == Some(*lease) && lease.expires_at.nanos > now.nanos) {
            result matches Err(error) && error == StoreError::LeaseMismatch
        } else {
            match entry {
                None => result matches Err(error) && error == StoreError::CredentialMissing,
                Some(found) => if found.ciphertext@ != observed@ {
                    result matches Err(error) && error == StoreError::LeaseMismatch
                } else if bytes@ != observed@ {
                    &&& result matches Ok(done)
                    &&& done.lease is None
                    &&& done.record matches Some(next)
                    &&& next@ == (EntryView {
                        ciphertext: bytes@,
                        needs_login: noted(replacement.kind, "needs_login"@, "true"@),
                        expires_at: expiry_of(replacement.kind),
                        ..found@
                    })
                } else {
                    result matches Ok(done) && done.record is None && done.lease is None
                },
            }
        },
{
    let (needs_login, expires_at) = entry_readiness(replacement);
    check_fence(held, lease, now)?;
    match entry {
        None => Err(StoreError::CredentialMissing),
        Some(found) => if !same_bytes(&found.ciphertext, observed) {
            Err(StoreError::LeaseMismatch)
        } else if same_bytes(&bytes, observed) {
            Ok(FinishedRefresh { record: None, lease: None })
        } else {
            let next = EntryValue {
                created_at: found.created_at,
                last_used_at: found.last_used_at,
                ciphertext: bytes,
                needs_login,
                expires_at,
            };
            Ok(FinishedRefresh { record: Some(next), lease: None })
        },
    }
}

/// What a published refresh is answered: the record, or the refusal of the provider.
pub fn refresh_answer(next: Refreshed) -> (result: StoreResult<CredentialRecord>)
    ensures
        match result {
            Ok(record) => !next.failed && record == next.record,
            Err(error) => next.failed && error == StoreError::CredentialRefresh,
        },
{
    if next.failed {
        Err(StoreError::CredentialRefresh)
    } else {
        Ok(next.record)
    }
}

/// A refused refresh needs a login: its record has the status NeedsLogin at every moment, so no
/// further refresh of it is granted.
pub proof fn refused_refreshes_need_a_login(before: CredentialRecord, after: CredentialRecord, now: Timestamp)
    requires
        before.wf(),
        after.wf(),
        after@.kind == with_login(before@.kind),
    ensures
        status_of(after, now) == CredentialStatus::NeedsLogin,
{
    let facts = facts_of(extra_of(after.kind));
    assert(facts.dom().contains("needs_login"@) && facts["needs_login"@] == "true"@);
}

/// A replaced credential fences off the refresh of the one before: it publishes under no lease.
pub proof fn replacements_fence_refreshes(
    held: Option<Lease>,
    lease: Lease,
    observed: Seq<u8>,
    replaced: Seq<u8>,
    now: Timestamp,
)
    requires
        replaced != observed,
    ensures
        !may_publish(held, lease, Some(replaced), observed, now),
        !may_publish(None, lease, Some(observed), observed, now),
        !may_publish(held, lease, None, observed, now),
{
}

/// Two refreshes with different leases never both publish.
pub proof fn one_refresh_publishes(held: Option<Lease>, a: Lease, b: Lease, current: Option<Seq<u8>>, x: Seq<u8>, y: Seq<u8>, now: Timestamp)
    requires
        may_publish(held, a, current, x, now),
        may_publish(held, b, current, y, now),
    ensures
        a == b,
        x == y,
{
}

/// A refresh is free to begin exactly where the credential is as it was seen and nobody refreshes it;
/// where it changed, the new bytes come back.
pub proof fn refreshes_begin_alone(current: Option<Vec<u8>>, observed: Vec<u8>, lease: Option<Lease>, now: Timestamp, result: StoreResult<Claim>)
    requires
        call_ensures(claim_refresh, (current, &observed, &lease, now), result),
    ensures
        current is None ==> result is Err,
        result matches Ok(Claim::Changed(bytes)) ==> current == Some(bytes) && bytes@ != observed@,
        result == Ok::<Claim, StoreError>(Claim::Busy) ==> current->0@ == observed@ && (lease matches Some(held)
            && held.expires_at.nanos > now.nanos),
        result == Ok::<Claim, StoreError>(Claim::Free) ==> current is Some && current->0@ == observed@ && (
        lease matches Some(held) ==> held.expires_at.nanos <= now.nanos),
{
}

/// A granted refresh is the owner's, for as long as was asked for.
pub proof fn refreshes_are_granted_for_a_while(record: CredentialRecord, ttl: Duration, owner: LeaseOwnerId, now: Timestamp, result: StoreResult<Lease>)
    requires
        record.wf(),
        now.valid(),
        call_ensures(grant_refresh, (&record, ttl, owner, now), result),
    ensures
        result matches Ok(lease) ==> lease.owner == owner && lease.expires_at.nanos == now.nanos + ttl.nanos,
        status_of(record, now) == CredentialStatus::NeedsLogin ==> result is Err,
{
}

/// What is left of a refresh's time is the time to its end, and nothing after that.
pub proof fn refreshes_end_on_time(lease: Lease, now: Timestamp, time: Duration)
    requires
        lease.expires_at.valid(),
        now.valid(),
        call_ensures(refresh_time, (&lease, now), time),
    ensures
        now.nanos <= lease.expires_at.nanos ==> now.nanos + time.nanos == lease.expires_at.nanos,
        now.nanos > lease.expires_at.nanos ==> time.nanos == 0,
{
}

/// A refresh takes some time.
pub proof fn refreshes_take_time(ttl: Duration, result: StoreResult<()>)
    requires
        call_ensures(check_refresh, (ttl,), result),
    ensures
        result is Ok <==> ttl.nanos > 0,
{
}

/// Bytes are the same exactly where their views are.
pub proof fn equal_bytes_are_the_same(left: Vec<u8>, right: Vec<u8>, equal: bool)
    requires
        call_ensures(same_bytes, (&left, &right), equal),
    ensures
        equal ==> left@.len() == right@.len() && forall|i: int| 0 <= i < left@.len() ==> #[trigger] left@[i] == right@[i],
        left@ == right@ ==> equal,
{
}

/// A refresh that succeeds gives the credential that the provider gave, dated now where it differs. One
/// that fails keeps the credential and asks for a login. One that ran out of time changes nothing.
pub proof fn refreshes_keep_what_they_got(current: CredentialRecord, outcome: RefreshOutcome, now: Timestamp, result: StoreResult<Refreshed>)
    requires
        current.wf(),
        outcome matches RefreshOutcome::Done(record) ==> record.wf(),
        call_ensures(refresh_result, (current, outcome, now), result),
    ensures
        outcome is TimedOut <==> result is Err,
        result matches Ok(next) ==> {
            &&& next.failed <==> outcome is Failed
            &&& outcome matches RefreshOutcome::Done(record) ==> {
                &&& next.record@.kind == record@.kind
                &&& record@ == current@ <==> !next.changed
                &&& next.changed ==> next.record.updated_at == now
                &&& !next.changed ==> next.record.updated_at == current.updated_at
            }
            &&& outcome is Failed ==> {
                &&& noted(next.record.kind, "needs_login"@, "true"@)
                &&& current.kind matches CredentialKind::OAuth { access, refresh, expires_at, .. } ==> (
                next.record.kind matches CredentialKind::OAuth {
                    access: kept,
                    refresh: kept_refresh,
                    expires_at: kept_expiry,
                    ..
                } && kept@ == access@ && kept_refresh@ == refresh@ && kept_expiry == expires_at)
                &&& current.kind matches CredentialKind::ApiKey { key, .. } ==> (
                next.record.kind matches CredentialKind::ApiKey { key: kept, .. } && kept@ == key@)
                &&& next.changed ==> next.record.updated_at == now
            }
        },
{
    if let Ok(next) = result {
        if outcome is Failed {
            let after = next.record.kind;
            let facts = facts_of(extra_of(after));
            assert(facts.dom().contains("needs_login"@) && facts["needs_login"@] == "true"@);
            assert(extra_of(after)@.dom().contains("needs_login"@));
        }
    }
}

/// A refresh publishes the bytes that it got, under its own live lease and only where nobody changed
/// the credential meanwhile; then the lease is free. Nothing is written where nothing changed.
pub proof fn refreshes_publish_what_they_got(
    held: Option<Lease>,
    lease: Lease,
    current: Option<Vec<u8>>,
    observed: Vec<u8>,
    bytes: Vec<u8>,
    now: Timestamp,
    result: StoreResult<FinishedRefresh<Vec<u8>>>,
)
    requires
        call_ensures(finish_refresh, (&held, &lease, &current, &observed, bytes, now), result),
    ensures
        result is Ok <==> held == Some(lease) && lease.expires_at.nanos > now.nanos && current is Some
            && current->0@ == observed@,
        result matches Ok(done) ==> {
            &&& done.lease is None
            &&& done.record is None <==> bytes@ == observed@
            &&& done.record matches Some(written) ==> written == bytes
        },
{
}

/// The same holds of an entry: it gets the new secret and the hints of the new credential, and keeps
/// its times.
pub proof fn entry_refreshes_publish_what_they_got(
    held: Option<Lease>,
    lease: Lease,
    entry: Option<EntryValue>,
    observed: Vec<u8>,
    bytes: Vec<u8>,
    replacement: CredentialRecord,
    now: Timestamp,
    result: StoreResult<FinishedRefresh<EntryValue>>,
)
    requires
        replacement.wf(),
        call_ensures(
            finish_entry_refresh,
            (&held, &lease, entry, &observed, bytes, &replacement, now),
            result,
        ),
    ensures
        result is Ok <==> held == Some(lease) && lease.expires_at.nanos > now.nanos && entry is Some
            && entry->0.ciphertext@ == observed@,
        result matches Ok(done) ==> {
            &&& done.lease is None
            &&& done.record is None <==> bytes@ == observed@
            &&& done.record matches Some(next) ==> {
                &&& next.ciphertext@ == bytes@ && next.created_at == entry->0.created_at
                &&& next.last_used_at == entry->0.last_used_at
                &&& next.needs_login <==> noted(replacement.kind, "needs_login"@, "true"@)
                &&& replacement.kind matches CredentialKind::OAuth { expires_at, .. } ==> next.expires_at
                    == Some(expires_at)
                &&& replacement.kind is ApiKey ==> next.expires_at is None
            }
        },
{
}

/// A refresh that failed is answered with an error, any other with its credential.
pub proof fn failed_refreshes_are_told(next: Refreshed, result: StoreResult<CredentialRecord>)
    requires
        call_ensures(refresh_answer, (next,), result),
    ensures
        result is Err <==> next.failed,
        result matches Ok(record) ==> record == next.record,
{
}

/// Records are the same exactly where their secrets, their facts and their dates are.
pub proof fn records_agree_in_every_part(left: CredentialRecord, right: CredentialRecord, equal: bool)
    requires
        left.wf(),
        right.wf(),
        call_ensures(same_record, (&left, &right), equal),
    ensures
        equal ==> left.updated_at == right.updated_at && facts_of(extra_of(left.kind)) == facts_of(
            extra_of(right.kind),
        ),
        equal ==> match (left.kind, right.kind) {
            (CredentialKind::ApiKey { key: a, .. }, CredentialKind::ApiKey { key: b, .. }) => a@ == b@,
            (
                CredentialKind::OAuth { access: a, refresh: x, expires_at: s, .. },
                CredentialKind::OAuth { access: b, refresh: y, expires_at: t, .. },
            ) => a@ == b@ && x@ == y@ && s == t,
            _ => false,
        },
{
}

} // verus!
