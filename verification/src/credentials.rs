//! Auth entries: readiness hints, listings, failover pools and fenced refreshes.

use crate::error::{StoreError, StoreResult};
use crate::payload::{blake3_digest, blake3_hash};
use crate::sort::{key_less, key_views, sort_order, stable_order, stable_order_laws, SortKey};
use crate::text::{copy_option, join2, same, text_less, text_less_irreflexive};
use crate::textmap::TextMap;
use crate::time::Timestamp;
use crate::waits::{
    breaker_view, open_state, open_until, text_views, Breaker, BreakerView, CredentialKey,
    CredentialKeyView,
};
use vstd::prelude::*;

verus! {

/// A secret and what is known of it.
#[derive(Clone)]
pub enum CredentialKind {
    ApiKey { key: String, extra: TextMap<String> },
    OAuth { access: String, refresh: String, expires_at: Timestamp, extra: TextMap<String> },
}

/// A stored credential.
#[derive(Clone)]
pub struct CredentialRecord {
    pub kind: CredentialKind,
    pub updated_at: Timestamp,
}

/// Whether a credential can be used.
#[derive(Clone, Copy, Debug, PartialEq, Eq, Structural)]
pub enum CredentialStatus {
    Ready,
    Expired,
    NeedsLogin,
}

/// The facts noted beside a secret, as texts.
pub open spec fn facts_of(extra: TextMap<String>) -> Map<Seq<char>, Seq<char>> {
    extra@.map_values(|value: String| value@)
}

/// View of a secret.
pub ghost enum KindView {
    ApiKey { key: Seq<char>, extra: Map<Seq<char>, Seq<char>> },
    OAuth {
        access: Seq<char>,
        refresh: Seq<char>,
        expires_at: Timestamp,
        extra: Map<Seq<char>, Seq<char>>,
    },
}

/// View of a credential.
pub ghost struct CredentialView {
    pub kind: KindView,
    pub updated_at: Timestamp,
}

impl View for CredentialKind {
    type V = KindView;

    open spec fn view(&self) -> KindView {
        match self {
            CredentialKind::ApiKey { key, extra } => KindView::ApiKey {
                key: key@,
                extra: facts_of(*extra),
            },
            CredentialKind::OAuth { access, refresh, expires_at, extra } => KindView::OAuth {
                access: access@,
                refresh: refresh@,
                expires_at: *expires_at,
                extra: facts_of(*extra),
            },
        }
    }
}

impl View for CredentialRecord {
    type V = CredentialView;

    open spec fn view(&self) -> CredentialView {
        CredentialView { kind: self.kind@, updated_at: self.updated_at }
    }
}

/// The facts noted beside a secret.
pub open spec fn extra_of(kind: CredentialKind) -> TextMap<String> {
    match kind {
        CredentialKind::ApiKey { extra, .. } => extra,
        CredentialKind::OAuth { extra, .. } => extra,
    }
}

/// Whether a fact is noted with a value.
pub open spec fn noted(kind: CredentialKind, name: Seq<char>, value: Seq<char>) -> bool {
    extra_of(kind)@.dom().contains(name) && extra_of(kind)@[name]@ == value
}

/// When a credential expires; keys do not.
pub open spec fn expiry_of(kind: CredentialKind) -> Option<Timestamp> {
    match kind {
        CredentialKind::OAuth { expires_at, .. } => Some(expires_at),
        CredentialKind::ApiKey { .. } => None,
    }
}

/// Whether a credential can be used at a moment.
pub open spec fn status_of(record: CredentialRecord, now: Timestamp) -> CredentialStatus {
    if noted(record.kind, "needs_login"@, "true"@) {
        CredentialStatus::NeedsLogin
    } else {
        match expiry_of(record.kind) {
            Some(expiry) => if expiry.nanos <= now.nanos {
                CredentialStatus::Expired
            } else {
                CredentialStatus::Ready
            },
            None => CredentialStatus::Ready,
        }
    }
}

impl CredentialKind {
    pub fn extra(&self) -> (extra: &TextMap<String>)
        ensures
            *extra == extra_of(*self),
    {
        match self {
            CredentialKind::ApiKey { extra, .. } => extra,
            CredentialKind::OAuth { extra, .. } => extra,
        }
    }

    pub fn notes(&self, name: &str, value: &str) -> (found: bool)
        requires
            extra_of(*self).wf(),
        ensures
            found == noted(*self, name@, value@),
    {
        match self.extra().get(name) {
            Some(held) => same(held.as_str(), value),
            None => false,
        }
    }

    /// When the credential expires; keys do not.
    pub fn expires_at(&self) -> (expiry: Option<Timestamp>)
        ensures
            expiry == expiry_of(*self),
    {
        match self {
            CredentialKind::OAuth { expires_at, .. } => Some(*expires_at),
            CredentialKind::ApiKey { .. } => None,
        }
    }
}

impl CredentialRecord {
    /// Whether the noted facts are in order.
    pub open spec fn wf(&self) -> bool {
        extra_of(self.kind).wf()
    }

    /// Whether the credential can be used at a moment.
    pub fn status(&self, now: Timestamp) -> (status: CredentialStatus)
        requires
            self.wf(),
        ensures
            status == status_of(*self, now),
    {
        if self.kind.notes("needs_login", "true") {
            return CredentialStatus::NeedsLogin;
        }
        match self.kind.expires_at() {
            Some(expiry) => if expiry.nanos <= now.nanos {
                CredentialStatus::Expired
            } else {
                CredentialStatus::Ready
            },
            None => CredentialStatus::Ready,
        }
    }
}

/// The identity that an entry's ciphertext is bound to.
pub open spec fn identity_of(provider: Seq<char>, label: Seq<char>) -> Seq<char> {
    provider + "\0"@ + label
}

/// The identity that an entry's ciphertext is bound to: provider and label, kept apart by a
/// character that neither has.
pub fn entry_identity(provider: &str, label: &str) -> (identity: String)
    ensures
        identity@ == identity_of(provider@, label@),
{
    let start = join2(provider, "\0");
    join2(start.as_str(), label)
}

/// Entries have different identities as long as providers do not contain the separator.
pub proof fn identities_tell_apart(p: Seq<char>, x: Seq<char>, q: Seq<char>, y: Seq<char>)
    requires
        !p.contains('\0'),
        !q.contains('\0'),
        identity_of(p, x) == identity_of(q, y),
    ensures
        p == q,
        x == y,
{
    reveal_strlit("\0");
    let a = identity_of(p, x);
    let b = identity_of(q, y);
    assert(a[p.len() as int] == '\0');
    assert(b[q.len() as int] == '\0');
    if p.len() < q.len() {
        assert(b[p.len() as int] == q[p.len() as int]);
        assert(q.contains(q[p.len() as int]));
    }
    if q.len() < p.len() {
        assert(a[q.len() as int] == p[q.len() as int]);
        assert(p.contains(p[q.len() as int]));
    }
    assert(a.take(p.len() as int) =~= p);
    assert(b.take(q.len() as int) =~= q);
    assert(a.skip((p.len() + 1) as int) =~= x);
    assert(b.skip((q.len() + 1) as int) =~= y);
}

/// What kind of credential an entry is shown as.
pub open spec fn kind_name(kind: CredentialKind) -> Seq<char> {
    match kind {
        CredentialKind::OAuth { .. } => "subscription"@,
        CredentialKind::ApiKey { .. } => if noted(kind, "auth_kind"@, "cloud"@) {
            "cloud"@
        } else {
            "api-key"@
        },
    }
}

/// What kind of credential an entry is shown as.
pub fn entry_kind(record: &CredentialRecord) -> (name: String)
    requires
        record.wf(),
    ensures
        name@ == kind_name(record.kind),
{
    match &record.kind {
        CredentialKind::OAuth { .. } => "subscription".to_owned(),
        CredentialKind::ApiKey { .. } => if record.kind.notes("auth_kind", "cloud") {
            "cloud".to_owned()
        } else {
            "api-key".to_owned()
        },
    }
}

// ---------------------------------------------------------------------------------------------
// Entries
// ---------------------------------------------------------------------------------------------

/// A stored entry. The login state and the expiry stand beside the ciphertext, so readiness is
/// known without decrypting.
#[derive(Clone, Debug, PartialEq, Eq)]
pub struct EntryValue {
    pub created_at: Timestamp,
    pub last_used_at: Option<Timestamp>,
    pub ciphertext: Vec<u8>,
    pub needs_login: bool,
    pub expires_at: Option<Timestamp>,
}

/// View of an entry.
pub ghost struct EntryView {
    pub created_at: Timestamp,
    pub last_used_at: Option<Timestamp>,
    pub ciphertext: Seq<u8>,
    pub needs_login: bool,
    pub expires_at: Option<Timestamp>,
}

impl View for EntryValue {
    type V = EntryView;

    open spec fn view(&self) -> EntryView {
        EntryView {
            created_at: self.created_at,
            last_used_at: self.last_used_at,
            ciphertext: self.ciphertext@,
            needs_login: self.needs_login,
            expires_at: self.expires_at,
        }
    }
}

/// View of an entry that may be absent.
pub open spec fn entry_view(entry: Option<EntryValue>) -> Option<EntryView> {
    match entry {
        Some(entry) => Some(entry@),
        None => None,
    }
}

/// An entry stored before readiness hints existed.
pub struct LegacyEntryValue {
    pub created_at: Timestamp,
    pub last_used_at: Option<Timestamp>,
    pub ciphertext: Vec<u8>,
}

/// The entry of a row, from what reading it in the current and in the old layout gave. Old rows
/// carry no hints and read as ready. None means that the row fits neither layout.
pub fn decode_entry(current: Option<EntryValue>, legacy: Option<LegacyEntryValue>) -> (entry: Option<EntryValue>)
    ensures
        entry_view(entry) == match current {
            Some(entry) => Some(entry@),
            None => match legacy {
                Some(old) => Some(
                    EntryView {
                        created_at: old.created_at,
                        last_used_at: old.last_used_at,
                        ciphertext: old.ciphertext@,
                        needs_login: false,
                        expires_at: None,
                    },
                ),
                None => None,
            },
        },
{
    match current {
        Some(entry) => Some(entry),
        None => match legacy {
            Some(old) => Some(
                EntryValue {
                    created_at: old.created_at,
                    last_used_at: old.last_used_at,
                    ciphertext: old.ciphertext,
                    needs_login: false,
                    expires_at: None,
                },
            ),
            None => None,
        },
    }
}

/// The hints to store beside a ciphertext: the login state, and when the credential expires.
pub fn entry_readiness(record: &CredentialRecord) -> (hints: (bool, Option<Timestamp>))
    requires
        record.wf(),
    ensures
        hints.0 == noted(record.kind, "needs_login"@, "true"@),
        hints.1 == expiry_of(record.kind),
{
    (record.kind.notes("needs_login", "true"), record.kind.expires_at())
}

/// Whether hints say that an entry is ready.
pub open spec fn ready_by_hints(needs_login: bool, expires_at: Option<Timestamp>, now: Timestamp) -> bool {
    !needs_login && (expires_at matches Some(expiry) ==> expiry.nanos > now.nanos)
}

/// Whether an entry is ready, by its hints.
pub fn entry_ready(needs_login: bool, expires_at: Option<Timestamp>, now: Timestamp) -> (ready: bool)
    ensures
        ready == ready_by_hints(needs_login, expires_at, now),
{
    !needs_login && match expires_at {
        Some(expiry) => expiry.nanos > now.nanos,
        None => true,
    }
}

/// Hints tell as much as the secret: an entry is ready by its hints exactly when its credential
/// has the status Ready.
pub proof fn hints_match_the_status(record: CredentialRecord, now: Timestamp)
    ensures
        ready_by_hints(
            noted(record.kind, "needs_login"@, "true"@),
            expiry_of(record.kind),
            now,
        ) <==> status_of(record, now) == CredentialStatus::Ready,
{
}

/// An entry that is put in: its creation time stays, its last use and hints start anew.
pub fn put_entry(previous: Option<EntryValue>, record: &CredentialRecord, ciphertext: Vec<u8>, now: Timestamp) -> (entry: EntryValue)
    requires
        record.wf(),
    ensures
        entry@ == (EntryView {
            created_at: match entry_view(previous) {
                Some(old) => old.created_at,
                None => now,
            },
            last_used_at: None,
            ciphertext: ciphertext@,
            needs_login: noted(record.kind, "needs_login"@, "true"@),
            expires_at: expiry_of(record.kind),
        }),
{
    let (needs_login, expires_at) = entry_readiness(record);
    let created_at = match &previous {
        Some(old) => old.created_at,
        None => now,
    };
    EntryValue { created_at, last_used_at: None, ciphertext, needs_login, expires_at }
}

/// The entry that a provider's old single record becomes. It counts as created when the record was
/// last updated, unless the entry was there before.
pub fn migrate_legacy(previous: Option<EntryValue>, record: &CredentialRecord, ciphertext: Vec<u8>) -> (entry: EntryValue)
    requires
        record.wf(),
    ensures
        entry@ == (EntryView {
            created_at: match entry_view(previous) {
                Some(old) => old.created_at,
                None => record.updated_at,
            },
            last_used_at: None,
            ciphertext: ciphertext@,
            needs_login: noted(record.kind, "needs_login"@, "true"@),
            expires_at: expiry_of(record.kind),
        }),
{
    put_entry(previous, record, ciphertext, record.updated_at)
}

/// Notes the use of an entry. The ciphertext stays, so no refresh is fenced off.
pub fn touch_entry(entry: Option<EntryValue>, now: Timestamp) -> (result: StoreResult<EntryValue>)
    ensures
        match entry_view(entry) {
            Some(old) => result matches Ok(next) && next@ == (EntryView {
                last_used_at: Some(now),
                ..old
            }),
            None => result matches Err(error) && error == StoreError::CredentialMissing,
        },
{
    match entry {
        Some(mut entry) => {
            entry.last_used_at = Some(now);
            Ok(entry)
        },
        None => Err(StoreError::CredentialMissing),
    }
}

/// What is shown of an entry.
#[derive(Clone, Debug, PartialEq, Eq)]
pub struct CredentialSummary {
    pub provider: String,
    pub kind: String,
    pub label: String,
    pub status: CredentialStatus,
    pub updated_at: Timestamp,
    pub created_at: Timestamp,
    pub last_used_at: Option<Timestamp>,
    pub expires_at: Option<Timestamp>,
}

impl CredentialSummary {
    /// What is shown of a provider's single record.
    pub fn new(provider: String, record: &CredentialRecord, now: Timestamp) -> (summary: CredentialSummary)
        requires
            record.wf(),
        ensures
            summary.provider == provider,
            summary.kind@ == kind_name(record.kind),
            summary.label@ == "default"@,
            summary.status == status_of(*record, now),
            summary.updated_at == record.updated_at,
            summary.created_at == record.updated_at,
            summary.last_used_at is None,
            summary.expires_at == expiry_of(record.kind),
    {
        CredentialSummary {
            provider,
            kind: entry_kind(record),
            label: "default".to_owned(),
            status: record.status(now),
            updated_at: record.updated_at,
            created_at: record.updated_at,
            last_used_at: None,
            expires_at: record.kind.expires_at(),
        }
    }

    /// What is shown of a labelled entry.
    pub fn of_entry(provider: String, label: String, entry: &EntryValue, record: &CredentialRecord, now: Timestamp) -> (summary: CredentialSummary)
        requires
            record.wf(),
        ensures
            summary.provider == provider,
            summary.kind@ == kind_name(record.kind),
            summary.label == label,
            summary.status == status_of(*record, now),
            summary.updated_at == record.updated_at,
            summary.created_at == entry.created_at,
            summary.last_used_at == entry.last_used_at,
            summary.expires_at == expiry_of(record.kind),
    {
        let mut summary = CredentialSummary::new(provider, record, now);
        summary.label = label;
        summary.created_at = entry.created_at;
        summary.last_used_at = entry.last_used_at;
        summary
    }
}

/// Sort keys of summaries within a provider: creation time, then label.
pub open spec fn summary_keys(list: Seq<CredentialSummary>) -> Seq<(int, Seq<char>)> {
    list.map_values(|s: CredentialSummary| (s.created_at.nanos as int, s.label@))
}

/// Sort keys of summaries across providers.
pub open spec fn provider_keys(list: Seq<CredentialSummary>) -> Seq<(int, Seq<char>)> {
    list.map_values(|s: CredentialSummary| (0int, s.provider@))
}

/// Places of summaries in order of provider, creation time and label.
pub open spec fn listing_order(list: Seq<CredentialSummary>) -> Seq<int> {
    let inner = stable_order(summary_keys(list), list.len());
    let arranged = Seq::new(list.len(), |i: int| list[inner[i]]);
    let outer = stable_order(provider_keys(arranged), list.len());
    Seq::new(list.len(), |i: int| inner[outer[i]])
}

/// Arranges summaries by provider, creation time and label, and returns their places.
pub fn list_entries(list: &Vec<CredentialSummary>) -> (order: Vec<usize>)
    ensures
        order@.map_values(|k: usize| k as int) == listing_order(list@),
        forall|i: int| 0 <= i < order@.len() ==> order@[i] < list@.len(),
{
    let mut keys: Vec<SortKey> = Vec::new();
    let mut i: usize = 0;
    while i < list.len()
        invariant
            i <= list.len(),
            keys@.len() == i,
            forall|j: int|
                0 <= j < i ==> (#[trigger] keys@[j])@ == (
                    list@[j].created_at.nanos as int,
                    list@[j].label@,
                ),
        decreases list.len() - i,
    {
        keys.push(SortKey { number: list[i].created_at.nanos, text: list[i].label.clone() });
        i += 1;
    }
    assert(key_views(keys@) =~= summary_keys(list@));
    let inner = sort_order(&keys);
    let ghost inner_order = inner@.map_values(|k: usize| k as int);
    let ghost arranged = Seq::new(list@.len(), |i: int| list@[inner_order[i]]);
    let mut names: Vec<SortKey> = Vec::new();
    let mut n: usize = 0;
    while n < inner.len()
        invariant
            n <= inner.len(),
            inner@.len() == list@.len(),
            inner_order == inner@.map_values(|k: usize| k as int),
            forall|j: int| 0 <= j < inner@.len() ==> inner@[j] < list@.len(),
            names@.len() == n,
            forall|j: int|
                0 <= j < n ==> (#[trigger] names@[j])@ == (0int, list@[inner_order[j]].provider@),
        decreases inner.len() - n,
    {
        assert(inner_order[n as int] == inner@[n as int]);
        names.push(SortKey { number: 0, text: list[inner[n]].provider.clone() });
        n += 1;
    }
    assert(key_views(names@) =~= provider_keys(arranged));
    let outer = sort_order(&names);
    let ghost outer_order = outer@.map_values(|k: usize| k as int);
    let mut order: Vec<usize> = Vec::new();
    let mut k: usize = 0;
    while k < outer.len()
        invariant
            k <= outer.len(),
            outer@.len() == list@.len(),
            inner@.len() == list@.len(),
            inner_order == inner@.map_values(|k: usize| k as int),
            outer_order == outer@.map_values(|k: usize| k as int),
            forall|j: int| 0 <= j < inner@.len() ==> inner@[j] < list@.len(),
            forall|j: int| 0 <= j < outer@.len() ==> outer@[j] < list@.len(),
            order@.len() == k,
            forall|j: int| 0 <= j < k ==> order@[j] < list@.len(),
            forall|j: int| 0 <= j < k ==> (#[trigger] order@[j]) == inner_order[outer_order[j]],
        decreases outer.len() - k,
    {
        assert(outer_order[k as int] == outer@[k as int]);
        assert(inner_order[outer@[k as int] as int] == inner@[outer@[k as int] as int]);
        order.push(inner[outer[k]]);
        k += 1;
    }
    assert(order@.map_values(|k: usize| k as int) =~= listing_order(list@));
    order
}

/// Whether one summary is listed before another when both are shown.
pub open spec fn listed_before(a: CredentialSummary, b: CredentialSummary) -> bool {
    text_less(a.provider@, b.provider@) || (a.provider@ == b.provider@ && (a.created_at.nanos
        < b.created_at.nanos || (a.created_at.nanos == b.created_at.nanos && text_less(
        a.label@,
        b.label@,
    ))))
}

/// A listing shows every summary once, by provider, creation time and label.
pub proof fn listings_are_sorted(list: Seq<CredentialSummary>)
    ensures
        listing_order(list).len() == list.len(),
        forall|i: int| 0 <= i < list.len() ==> 0 <= #[trigger] listing_order(list)[i] < list.len(),
        forall|i: int, j: int|
            0 <= i < j < list.len() ==> {
                let a = #[trigger] listing_order(list)[i];
                let b = #[trigger] listing_order(list)[j];
                a != b && !listed_before(list[b], list[a])
            },
{
    let count = list.len();
    let inner = stable_order(summary_keys(list), count);
    let arranged = Seq::new(count, |i: int| list[inner[i]]);
    let outer = stable_order(provider_keys(arranged), count);
    stable_order_laws(summary_keys(list), count);
    stable_order_laws(provider_keys(arranged), count);
    assert forall|i: int, j: int| 0 <= i < j < count implies {
        let a = #[trigger] listing_order(list)[i];
        let b = #[trigger] listing_order(list)[j];
        a != b && !listed_before(list[b], list[a])
    } by {
        let x = outer[i];
        let y = outer[j];
        let a = inner[x];
        let b = inner[y];
        assert(listing_order(list)[i] == a && listing_order(list)[j] == b);
        let names = provider_keys(arranged);
        assert(names[x] == (0int, list[a].provider@) && names[y] == (0int, list[b].provider@));
        assert(x != y && !key_less(names[y], names[x]) && (key_less(names[x], names[y]) || x < y));
        if list[a].provider@ == list[b].provider@ {
            text_less_irreflexive(list[a].provider@);
            assert(x < y);
            let keys = summary_keys(list);
            assert(!key_less(keys[inner[y]], keys[inner[x]]));
        }
        if x < y {
            assert(inner[x] != inner[y]);
        } else {
            assert(inner[y] != inner[x]);
        }
    }
}

/// Sort keys of one provider's entries: creation time, then label.
pub open spec fn age_keys(entries: Seq<(String, Timestamp)>) -> Seq<(int, Seq<char>)> {
    entries.map_values(|entry: (String, Timestamp)| (entry.1.nanos as int, entry.0@))
}

/// Places of one provider's entries, oldest first.
pub fn provider_entries(entries: &Vec<(String, Timestamp)>) -> (order: Vec<usize>)
    ensures
        order@.map_values(|k: usize| k as int) == stable_order(age_keys(entries@), entries@.len()),
        order@.len() == entries@.len(),
        forall|i: int| 0 <= i < order@.len() ==> order@[i] < entries@.len(),
{
    let mut keys: Vec<SortKey> = Vec::new();
    let mut i: usize = 0;
    while i < entries.len()
        invariant
            i <= entries.len(),
            keys@.len() == i,
            forall|j: int|
                0 <= j < i ==> (#[trigger] keys@[j])@ == (
                    entries@[j].1.nanos as int,
                    entries@[j].0@,
                ),
        decreases entries.len() - i,
    {
        keys.push(SortKey { number: entries[i].1.nanos, text: entries[i].0.clone() });
        i += 1;
    }
    assert(key_views(keys@) =~= age_keys(entries@));
    sort_order(&keys)
}

/// The entry that serves: the first that is ready, or the first of all when none is. Entries come
/// oldest first.
pub open spec fn serving(entries: Seq<CredentialRecord>, now: Timestamp, from: int) -> Option<int>
    decreases entries.len() - from,
{
    if from >= entries.len() {
        None
    } else if status_of(entries[from], now) == CredentialStatus::Ready {
        Some(from)
    } else {
        serving(entries, now, from + 1)
    }
}

/// The place of the entry that serves: a replacement takes over once it is usable.
pub fn first_entry(entries: &Vec<CredentialRecord>, now: Timestamp) -> (place: Option<usize>)
    requires
        forall|i: int| 0 <= i < entries@.len() ==> (#[trigger] entries@[i]).wf(),
    ensures
        match place {
            Some(at) => at < entries@.len() && match serving(entries@, now, 0) {
                Some(ready) => at == ready,
                None => at == 0,
            },
            None => entries@.len() == 0,
        },
{
    let mut i: usize = 0;
    while i < entries.len()
        invariant
            i <= entries.len(),
            forall|i: int| 0 <= i < entries@.len() ==> (#[trigger] entries@[i]).wf(),
            serving(entries@, now, 0) == serving(entries@, now, i as int),
        decreases entries.len() - i,
    {
        if entries[i].status(now) == CredentialStatus::Ready {
            return Some(i);
        }
        i += 1;
    }
    if entries.len() == 0 {
        None
    } else {
        Some(0)
    }
}

/// Whether labels hold the one that an old single record gets.
pub open spec fn has_default(labels: Seq<Seq<char>>) -> bool {
    labels.contains("default"@)
}

/// Labels with the one of an old single record that has not been migrated, which comes first.
pub open spec fn with_legacy(labels: Seq<Seq<char>>, legacy: bool) -> Seq<Seq<char>> {
    if legacy && !has_default(labels) {
        seq!["default"@] + labels
    } else {
        labels
    }
}

/// Sort keys of labels.
pub open spec fn label_keys(labels: Seq<Seq<char>>) -> Seq<(int, Seq<char>)> {
    labels.map_values(|label: Seq<char>| (0int, label))
}

/// Labels in order.
pub open spec fn sorted_labels(labels: Seq<Seq<char>>) -> Seq<Seq<char>> {
    Seq::new(labels.len(), |i: int| labels[stable_order(label_keys(labels), labels.len())[i]])
}

fn holds_default(labels: &Vec<String>) -> (found: bool)
    ensures
        found == has_default(text_views(labels@)),
{
    let ghost views = text_views(labels@);
    let mut i: usize = 0;
    while i < labels.len()
        invariant
            i <= labels.len(),
            views == text_views(labels@),
            forall|j: int| 0 <= j < i ==> views[j] != "default"@,
        decreases labels.len() - i,
    {
        if same(labels[i].as_str(), "default") {
            assert(views[i as int] == "default"@);
            return true;
        }
        i += 1;
    }
    false
}

/// Labels of a provider's entries in order, for breaker checks. A record that has not been
/// migrated counts as the default entry and comes first, as it is older than the others.
pub fn credential_entry_labels(labels: Vec<String>, legacy: bool) -> (sorted: Vec<String>)
    ensures
        text_views(sorted@) == with_legacy(sorted_labels(text_views(labels@)), legacy),
{
    let all = labels;
    let ghost views = text_views(all@);
    let mut keys: Vec<SortKey> = Vec::new();
    let mut i: usize = 0;
    while i < all.len()
        invariant
            i <= all.len(),
            keys@.len() == i,
            forall|j: int| 0 <= j < i ==> (#[trigger] keys@[j])@ == (0int, all@[j]@),
        decreases all.len() - i,
    {
        keys.push(SortKey { number: 0, text: all[i].clone() });
        i += 1;
    }
    assert(key_views(keys@) =~= label_keys(views));
    let order = sort_order(&keys);
    let ghost indices = order@.map_values(|k: usize| k as int);
    let mut sorted: Vec<String> = Vec::new();
    let mut n: usize = 0;
    while n < order.len()
        invariant
            n <= order.len(),
            order@.len() == all@.len(),
            views == text_views(all@),
            indices == order@.map_values(|k: usize| k as int),
            forall|j: int| 0 <= j < order@.len() ==> order@[j] < all@.len(),
            sorted@.len() == n,
            forall|j: int| 0 <= j < n ==> (#[trigger] sorted@[j])@ == views[indices[j]],
        decreases order.len() - n,
    {
        assert(indices[n as int] == order@[n as int]);
        sorted.push(all[order[n]].clone());
        n += 1;
    }
    let ghost given = text_views(sorted@);
    assert(given =~= sorted_labels(views));
    if legacy && !holds_default(&sorted) {
        sorted.insert(0, "default".to_owned());
        assert(text_views(sorted@) =~= seq!["default"@] + given);
    }
    sorted
}

// ---------------------------------------------------------------------------------------------
// Breaker pools
// ---------------------------------------------------------------------------------------------

/// One entry of a breaker pool with the state of its breaker.
pub struct BreakerCandidate {
    pub key: CredentialKey,
    pub open_until: Option<Timestamp>,
    pub reason: Option<String>,
}

/// Views of labels with readiness.
pub open spec fn hint_views(entries: Seq<(String, bool)>) -> Seq<(Seq<char>, bool)> {
    entries.map_values(|entry: (String, bool)| (entry.0@, entry.1))
}

/// Entries of a pool, with the unmigrated record of unknown status as the default entry.
pub open spec fn pool_of(entries: Seq<(Seq<char>, bool)>, legacy: bool) -> Seq<(Seq<char>, bool)> {
    if legacy && !(exists|i: int| 0 <= i < entries.len() && (#[trigger] entries[i]).0 == "default"@) {
        entries.push(("default"@, true))
    } else {
        entries
    }
}

/// Whether some entry of a pool is ready.
pub open spec fn some_ready(pool: Seq<(Seq<char>, bool)>) -> bool {
    exists|i: int| 0 <= i < pool.len() && (#[trigger] pool[i]).1
}

/// Identities of a pool's entries: the ready ones, or all of them.
pub open spec fn pool_keys(pool: Seq<(Seq<char>, bool)>, provider: Seq<char>, all: bool) -> Seq<CredentialKeyView>
    decreases pool.len(),
{
    if pool.len() == 0 {
        Seq::empty()
    } else if pool.last().1 || all {
        pool_keys(pool.drop_last(), provider, all).push(
            CredentialKeyView { provider, label: Some(pool.last().0) },
        )
    } else {
        pool_keys(pool.drop_last(), provider, all)
    }
}

/// Identities whose breakers decide for a provider: those of its ready entries, of all entries
/// when none is ready, or the shared one without entries.
pub open spec fn deciding_keys(entries: Seq<(Seq<char>, bool)>, legacy: bool, provider: Seq<char>) -> Seq<CredentialKeyView> {
    let pool = pool_of(entries, legacy);
    let keys = pool_keys(pool, provider, !some_ready(pool));
    if keys.len() == 0 {
        seq![CredentialKeyView { provider, label: None }]
    } else {
        keys
    }
}

/// Views of identities in order.
pub open spec fn key_list(keys: Seq<CredentialKey>) -> Seq<CredentialKeyView> {
    keys.map_values(|key: CredentialKey| key@)
}

/// Identities whose breakers decide for a provider.
pub fn breaker_keys(entries: Vec<(String, bool)>, legacy: bool, provider: &str) -> (keys: Vec<CredentialKey>)
    ensures
        key_list(keys@) == deciding_keys(hint_views(entries@), legacy, provider@),
{
    let ghost given = hint_views(entries@);
    let mut pool = entries;
    let mut has_default_entry = false;
    let mut any_ready = false;
    let mut i: usize = 0;
    while i < pool.len()
        invariant
            i <= pool.len(),
            given == hint_views(pool@),
            has_default_entry == exists|j: int| 0 <= j < i && (#[trigger] given[j]).0 == "default"@,
            any_ready == exists|j: int| 0 <= j < i && (#[trigger] given[j]).1,
        decreases pool.len() - i,
    {
        assert(given[i as int] == (pool@[i as int].0@, pool@[i as int].1));
        if same(pool[i].0.as_str(), "default") {
            has_default_entry = true;
        }
        if pool[i].1 {
            any_ready = true;
        }
        i += 1;
    }
    let ghost views = pool_of(given, legacy);
    if legacy && !has_default_entry {
        pool.push(("default".to_owned(), true));
        any_ready = true;
        assert(hint_views(pool@) =~= views);
        assert(views[given.len() as int].1);
    }
    assert(hint_views(pool@) =~= views);
    assert(any_ready == some_ready(views));
    let mut keys: Vec<CredentialKey> = Vec::new();
    let mut n: usize = 0;
    assert(key_list(keys@) =~= pool_keys(views.take(0), provider@, !any_ready));
    while n < pool.len()
        invariant
            n <= pool.len(),
            views == hint_views(pool@),
            key_list(keys@) == pool_keys(views.take(n as int), provider@, !any_ready),
        decreases pool.len() - n,
    {
        proof {
            assert(views.take(n + 1).drop_last() =~= views.take(n as int));
            assert(views.take(n + 1).last() == (pool@[n as int].0@, pool@[n as int].1));
        }
        if pool[n].1 || !any_ready {
            let ghost held = keys@;
            let key = CredentialKey::entry(provider, pool[n].0.as_str());
            keys.push(key);
            assert(key_list(keys@) =~= key_list(held).push(key@));
        }
        n += 1;
    }
    assert(views.take(n as int) =~= views);
    assert(key_list(keys@).len() == keys@.len());
    if keys.len() == 0 {
        let shared = CredentialKey::provider(provider);
        keys.push(shared);
        assert(key_list(keys@) =~= seq![shared@]);
    }
    keys
}

/// Whether a candidate tells the state of its breaker; the reason is told while it is open.
pub open spec fn tells(candidate: BreakerCandidate, key: CredentialKeyView, row: Option<BreakerView>, now: Timestamp) -> bool {
    &&& candidate.key@ == key
    &&& candidate.open_until == open_until(row, now)
    &&& candidate.reason.deep_view() == if open_until(row, now) is Some {
        Some(row->0.reason)
    } else {
        None
    }
}

/// A provider's pool at one moment: the deciding identities, each with the state of its breaker.
pub fn breaker_snapshot(keys: &Vec<CredentialKey>, rows: &Vec<Option<Breaker>>, now: Timestamp) -> (candidates: Vec<BreakerCandidate>)
    requires
        keys@.len() == rows@.len(),
    ensures
        candidates@.len() == keys@.len(),
        forall|i: int|
            0 <= i < keys@.len() ==> tells(
                #[trigger] candidates@[i],
                keys@[i]@,
                breaker_view(rows@[i]),
                now,
            ),
{
    let mut candidates: Vec<BreakerCandidate> = Vec::new();
    let mut i: usize = 0;
    while i < keys.len()
        invariant
            i <= keys.len(),
            keys@.len() == rows@.len(),
            candidates@.len() == i,
            forall|j: int|
                0 <= j < i ==> tells(
                    #[trigger] candidates@[j],
                    keys@[j]@,
                    breaker_view(rows@[j]),
                    now,
                ),
        decreases keys.len() - i,
    {
        let (open_until, reason) = open_state(&rows[i], now);
        let key = CredentialKey::for_label(keys[i].provider.as_str(), copy_option(&keys[i].label));
        candidates.push(BreakerCandidate { key, open_until, reason });
        i += 1;
    }
    candidates
}

/// A provider always has an identity whose breaker decides.
pub proof fn pools_are_never_empty(entries: Seq<(Seq<char>, bool)>, legacy: bool, provider: Seq<char>)
    ensures
        deciding_keys(entries, legacy, provider).len() > 0,
{
}

// ---------------------------------------------------------------------------------------------
// Fingerprints
// ---------------------------------------------------------------------------------------------

/// Bytes that a fingerprint covers: keys and ciphertexts in order.
pub open spec fn covered(rows: Seq<(Vec<u8>, Vec<u8>)>, count: nat) -> Seq<u8>
    decreases count,
{
    if count == 0 {
        Seq::empty()
    } else {
        covered(rows, (count - 1) as nat) + rows[count - 1].0@ + rows[count - 1].1@
    }
}

/// The fingerprint of a provider's entries: a digest of the old single record, if any, and of the
/// key and ciphertext of each entry. None without any record. Noting a use changes no ciphertext
/// and so no fingerprint.
pub fn credential_fingerprint(legacy: &Option<Vec<u8>>, rows: &Vec<(Vec<u8>, Vec<u8>)>) -> (fingerprint: Option<Vec<u8>>)
    ensures
        match fingerprint {
            Some(digest) => {
                &&& legacy is Some || rows@.len() > 0
                &&& digest@ == blake3_digest(
                    match legacy {
                        Some(bytes) => bytes@,
                        None => Seq::empty(),
                    } + covered(rows@, rows@.len()),
                )
            },
            None => legacy is None && rows@.len() == 0,
        },
{
    if legacy.is_none() && rows.len() == 0 {
        return None;
    }
    let mut bytes: Vec<u8> = Vec::new();
    if let Some(record) = legacy {
        bytes.extend_from_slice(record.as_slice());
    }
    let ghost start = match legacy {
        Some(record) => record@,
        None => Seq::empty(),
    };
    assert(bytes@ =~= start + covered(rows@, 0));
    let mut i: usize = 0;
    while i < rows.len()
        invariant
            i <= rows.len(),
            bytes@ == start + covered(rows@, i as nat),
        decreases rows.len() - i,
    {
        let ghost held = bytes@;
        bytes.extend_from_slice(rows[i].0.as_slice());
        bytes.extend_from_slice(rows[i].1.as_slice());
        assert(bytes@ =~= start + covered(rows@, (i + 1) as nat));
        i += 1;
    }
    Some(blake3_hash(bytes.as_slice()))
}

/// Whether two stored entries agree in their times and their secret.
pub open spec fn same_secret(left: EntryValue, right: EntryValue) -> bool {
    &&& left.created_at == right.created_at
    &&& left.last_used_at == right.last_used_at
    &&& left.ciphertext@ == right.ciphertext@
}

/// A stored entry keeps the sealed secret that was given and was made when the entry it replaces was,
/// or now. It has not been used yet, and its hints agree with the credential: it is ready exactly
/// where the credential is.
pub proof fn stored_entries_match_the_credential(
    previous: Option<EntryValue>,
    record: CredentialRecord,
    ciphertext: Vec<u8>,
    now: Timestamp,
    entry: EntryValue,
    later: Timestamp,
    ready: bool,
    status: CredentialStatus,
)
    requires
        record.wf(),
        call_ensures(put_entry, (previous, &record, ciphertext, now), entry),
        call_ensures(entry_ready, (entry.needs_login, entry.expires_at, later), ready),
        call_ensures(CredentialRecord::status, (&record, later), status),
    ensures
        entry.ciphertext@ == ciphertext@,
        previous matches Some(old) ==> entry.created_at == old.created_at,
        previous is None ==> entry.created_at == now,
        entry.last_used_at is None,
        ready <==> status == CredentialStatus::Ready,
        record.kind matches CredentialKind::OAuth { expires_at, .. } ==> entry.expires_at == Some(expires_at),
        record.kind is ApiKey ==> entry.expires_at is None,
{
}

/// An entry that is moved from the old place keeps the secret that was given, and was made when the
/// credential was last changed unless it was there before.
pub proof fn moved_entries_match_the_credential(
    previous: Option<EntryValue>,
    record: CredentialRecord,
    ciphertext: Vec<u8>,
    entry: EntryValue,
    now: Timestamp,
    ready: bool,
    status: CredentialStatus,
)
    requires
        record.wf(),
        call_ensures(migrate_legacy, (previous, &record, ciphertext), entry),
        call_ensures(entry_ready, (entry.needs_login, entry.expires_at, now), ready),
        call_ensures(CredentialRecord::status, (&record, now), status),
    ensures
        entry.ciphertext@ == ciphertext@,
        previous matches Some(old) ==> entry.created_at == old.created_at,
        previous is None ==> entry.created_at == record.updated_at,
        entry.last_used_at is None,
        ready <==> status == CredentialStatus::Ready,
{
}

/// A credential expires at its own moment and not before; a key never does. One that needs a login
/// is not ready whenever it expires.
pub proof fn credentials_expire_at_their_moment(record: CredentialRecord, now: Timestamp, status: CredentialStatus, told: bool, expiry: Option<Timestamp>)
    requires
        record.wf(),
        call_ensures(CredentialRecord::status, (&record, now), status),
        call_ensures(CredentialKind::expires_at, (&record.kind,), expiry),
    ensures
        status == CredentialStatus::Expired ==> (record.kind matches CredentialKind::OAuth { expires_at, .. }
            && expires_at.nanos <= now.nanos),
        status == CredentialStatus::Ready ==> (record.kind matches CredentialKind::OAuth { expires_at, .. }
            ==> expires_at.nanos > now.nanos),
        record.kind is ApiKey ==> expiry is None && status != CredentialStatus::Expired,
        record.kind matches CredentialKind::OAuth { expires_at, .. } ==> expiry == Some(expires_at),
        status == CredentialStatus::NeedsLogin <==> (extra_of(record.kind)@.dom().contains("needs_login"@)
            && extra_of(record.kind)@["needs_login"@]@ == "true"@),
{
}

/// An entry that is used says when, and keeps everything else.
pub proof fn used_entries_say_when(entry: Option<EntryValue>, now: Timestamp, result: StoreResult<EntryValue>)
    requires
        call_ensures(touch_entry, (entry, now), result),
    ensures
        result is Ok <==> entry is Some,
        result matches Ok(next) ==> next.last_used_at == Some(now) && next.created_at == entry->0.created_at
            && next.ciphertext@ == entry->0.ciphertext@ && next.needs_login == entry->0.needs_login
            && next.expires_at == entry->0.expires_at,
{
}

/// An entry of the old layout reads as the same entry without hints, an entry of the new one as it is.
pub proof fn old_entries_keep_what_they_had(current: Option<EntryValue>, legacy: Option<LegacyEntryValue>, entry: Option<EntryValue>)
    requires
        call_ensures(decode_entry, (current, legacy), entry),
    ensures
        current matches Some(stored) ==> (entry matches Some(read) && same_secret(read, stored)
            && read.needs_login == stored.needs_login && read.expires_at == stored.expires_at),
        current is None ==> (legacy matches Some(old) ==> (entry matches Some(read) && read.created_at
            == old.created_at && read.last_used_at == old.last_used_at && read.ciphertext@ == old.ciphertext@
            && !read.needs_login && read.expires_at is None)),
        current is None && legacy is None ==> entry is None,
{
}

/// A summary tells of a credential what the credential says, and of its entry what the entry says;
/// no secret is among it.
pub proof fn summaries_tell_the_entry(
    provider: String,
    label: String,
    entry: EntryValue,
    record: CredentialRecord,
    now: Timestamp,
    summary: CredentialSummary,
    status: CredentialStatus,
    kind: String,
)
    requires
        record.wf(),
        call_ensures(CredentialSummary::of_entry, (provider, label, &entry, &record, now), summary),
        call_ensures(CredentialRecord::status, (&record, now), status),
        call_ensures(entry_kind, (&record,), kind),
    ensures
        summary.provider == provider && summary.label == label,
        summary.created_at == entry.created_at && summary.last_used_at == entry.last_used_at,
        summary.updated_at == record.updated_at && summary.status == status,
        summary.kind@ == kind@,
        record.kind matches CredentialKind::OAuth { expires_at, .. } ==> summary.expires_at == Some(expires_at),
        record.kind is ApiKey ==> summary.expires_at is None,
        record.kind is OAuth ==> summary.kind@ == "subscription"@,
{
}

/// A credential from the old place is summed up as the provider's default entry.
pub proof fn old_credentials_are_the_default(
    provider: String,
    record: CredentialRecord,
    now: Timestamp,
    summary: CredentialSummary,
    status: CredentialStatus,
)
    requires
        record.wf(),
        call_ensures(CredentialSummary::new, (provider, &record, now), summary),
        call_ensures(CredentialRecord::status, (&record, now), status),
    ensures
        summary.provider == provider && summary.label@ == "default"@,
        summary.status == status && summary.last_used_at is None,
        summary.created_at == record.updated_at && summary.updated_at == record.updated_at,
        record.kind matches CredentialKind::OAuth { expires_at, .. } ==> summary.expires_at == Some(expires_at),
{
}

/// The entry that serves is ready, and none before it is; where none is ready the first serves.
pub proof fn the_first_ready_entry_serves(entries: Vec<CredentialRecord>, now: Timestamp, place: Option<usize>)
    requires
        forall|i: int| 0 <= i < entries@.len() ==> (#[trigger] entries@[i]).wf(),
        call_ensures(first_entry, (&entries, now), place),
    ensures
        place is None <==> entries@.len() == 0,
        place matches Some(at) ==> {
            &&& at < entries@.len()
            &&& forall|j: int|
                0 <= j < at ==> status_of(#[trigger] entries@[j], now) != CredentialStatus::Ready
            &&& status_of(entries@[at as int], now) == CredentialStatus::Ready || at == 0 && forall|j: int|
                0 <= j < entries@.len() ==> status_of(#[trigger] entries@[j], now) != CredentialStatus::Ready
        },
{
    serving_is_first(entries@, now, 0);
}

proof fn serving_is_first(entries: Seq<CredentialRecord>, now: Timestamp, from: int)
    requires
        0 <= from,
    ensures
        match serving(entries, now, from) {
            Some(at) => from <= at < entries.len() && status_of(entries[at], now) == CredentialStatus::Ready
                && forall|j: int|
                from <= j < at ==> status_of(#[trigger] entries[j], now) != CredentialStatus::Ready,
            None => forall|j: int|
                from <= j < entries.len() ==> status_of(#[trigger] entries[j], now) != CredentialStatus::Ready,
        },
    decreases entries.len() - from,
{
    if from < entries.len() && status_of(entries[from], now) != CredentialStatus::Ready {
        serving_is_first(entries, now, from + 1);
    }
}

/// The entries of a provider come oldest first, and by label where they are equally old; each comes
/// once.
pub proof fn entries_come_oldest_first(entries: Vec<(String, Timestamp)>, order: Vec<usize>)
    requires
        call_ensures(provider_entries, (&entries,), order),
    ensures
        order@.len() == entries@.len(),
        forall|i: int| 0 <= i < order@.len() ==> #[trigger] order@[i] < entries@.len(),
        forall|i: int, j: int|
            0 <= i < j < order@.len() ==> {
                let a = entries@[#[trigger] order@[i] as int];
                let b = entries@[#[trigger] order@[j] as int];
                a.1.nanos < b.1.nanos || a.1.nanos == b.1.nanos && !text_less(b.0@, a.0@)
            },
        forall|k: int| 0 <= k < entries@.len() ==> #[trigger] places_hold(order@, k),
{
    let keys = age_keys(entries@);
    stable_order_laws(keys, entries@.len());
    let places = order@.map_values(|k: usize| k as int);
    assert forall|i: int, j: int| 0 <= i < j < order@.len() implies {
        let a = entries@[#[trigger] order@[i] as int];
        let b = entries@[#[trigger] order@[j] as int];
        a.1.nanos < b.1.nanos || a.1.nanos == b.1.nanos && !text_less(b.0@, a.0@)
    } by {
        assert(places[i] == order@[i] as int && places[j] == order@[j] as int);
        let a = stable_order(keys, entries@.len())[i];
        let b = stable_order(keys, entries@.len())[j];
        assert(!key_less(keys[b], keys[a]));
    }
    assert forall|k: int| 0 <= k < entries@.len() implies #[trigger] places_hold(order@, k) by {
        assert(stable_order(keys, entries@.len()).contains(k));
        let i = choose|i: int| 0 <= i < places.len() && places[i] == k;
        assert(order@[i] as int == k);
    }
}

/// Whether a list of places holds this one.
pub open spec fn places_hold(order: Seq<usize>, place: int) -> bool {
    exists|i: int| 0 <= i < order.len() && #[trigger] order[i] as int == place
}

/// A snapshot of breakers tells for each key, in order, until when its entry is open and why.
pub proof fn breakers_are_told_by_key(
    keys: Vec<CredentialKey>,
    rows: Vec<Option<Breaker>>,
    now: Timestamp,
    candidates: Vec<BreakerCandidate>,
)
    requires
        keys@.len() == rows@.len(),
        call_ensures(breaker_snapshot, (&keys, &rows, now), candidates),
    ensures
        candidates@.len() == keys@.len(),
        forall|i: int|
            0 <= i < keys@.len() ==> ({
                let told = #[trigger] candidates@[i];
                &&& told.key.provider@ == keys@[i].provider@
                &&& told.key.label.deep_view() == keys@[i].label.deep_view()
                &&& told.reason is Some <==> told.open_until is Some
                &&& rows@[i] is None ==> told.open_until is None
                &&& rows@[i] matches Some(breaker) ==> (breaker.open_until.nanos > now.nanos ==> told.open_until
                    == Some(breaker.open_until) && told.reason->0@ == breaker.reason@)
            }),
{
    assert forall|i: int| 0 <= i < keys@.len() implies ({
        let told = #[trigger] candidates@[i];
        &&& told.key.provider@ == keys@[i].provider@
        &&& told.key.label.deep_view() == keys@[i].label.deep_view()
        &&& told.reason is Some <==> told.open_until is Some
        &&& rows@[i] is None ==> told.open_until is None
        &&& rows@[i] matches Some(breaker) ==> (breaker.open_until.nanos > now.nanos ==> told.open_until == Some(
            breaker.open_until,
        ) && told.reason->0@ == breaker.reason@)
    }) by {
        assert(tells(candidates@[i], keys@[i]@, breaker_view(rows@[i]), now));
    }
}

/// The keys that decide are of the provider that was asked for: one for each ready entry, or one for
/// each entry where none is ready, or the provider's own where it has none.
pub proof fn deciding_keys_are_of_the_provider(entries: Vec<(String, bool)>, legacy: bool, provider: &str, keys: Vec<CredentialKey>)
    requires
        call_ensures(breaker_keys, (entries, legacy, provider), keys),
    ensures
        keys@.len() > 0,
        forall|i: int| 0 <= i < keys@.len() ==> (#[trigger] keys@[i]).provider@ == provider@,
        entries@.len() == 0 && !legacy ==> keys@.len() == 1 && keys@[0].label is None,
        entries@.len() > 0 ==> forall|i: int| 0 <= i < keys@.len() ==> (#[trigger] keys@[i]).label is Some,
        forall|j: int|
            0 <= j < entries@.len() && (#[trigger] entries@[j]).1 ==> key_list(keys@).contains(
                CredentialKeyView { provider: provider@, label: Some(entries@[j].0@) },
            ),
{
    let views = hint_views(entries@);
    let pool = pool_of(views, legacy);
    let all = !some_ready(pool);
    pool_keys_are_those(pool, provider@, all);
    let found = key_list(keys@);
    assert(found.len() == keys@.len());
    assert forall|i: int| 0 <= i < keys@.len() implies (#[trigger] keys@[i]).provider@ == provider@ by {
        assert(found[i] == keys@[i]@);
    }
    if entries@.len() > 0 {
        assert(pool.len() > 0);
        if some_ready(pool) {
            let i = choose|i: int| 0 <= i < pool.len() && (#[trigger] pool[i]).1;
            assert(pool_keys(pool, provider@, all).contains(
                CredentialKeyView { provider: provider@, label: Some(pool[i].0) },
            ));
        } else {
            assert(pool_keys(pool, provider@, all).contains(
                CredentialKeyView { provider: provider@, label: Some(pool[0].0) },
            ));
        }
        assert forall|i: int| 0 <= i < keys@.len() implies (#[trigger] keys@[i]).label is Some by {
            assert(found[i] == keys@[i]@);
        }
    }
    if entries@.len() == 0 && !legacy {
        assert(found[0] == keys@[0]@);
    }
    assert forall|j: int| 0 <= j < entries@.len() && (#[trigger] entries@[j]).1 implies found.contains(
        CredentialKeyView { provider: provider@, label: Some(entries@[j].0@) },
    ) by {
        assert(pool[j] == views[j]);
        assert(pool_keys(pool, provider@, all).contains(
            CredentialKeyView { provider: provider@, label: Some(pool[j].0) },
        ));
    }
}

proof fn pool_keys_are_those(pool: Seq<(Seq<char>, bool)>, provider: Seq<char>, all: bool)
    ensures
        forall|i: int|
            0 <= i < pool_keys(pool, provider, all).len() ==> (#[trigger] pool_keys(pool, provider, all)[i]).provider
                == provider && pool_keys(pool, provider, all)[i].label is Some,
        forall|j: int|
            0 <= j < pool.len() && ((#[trigger] pool[j]).1 || all) ==> pool_keys(pool, provider, all).contains(
                CredentialKeyView { provider, label: Some(pool[j].0) },
            ),
    decreases pool.len(),
{
    if pool.len() > 0 {
        let rest = pool.drop_last();
        pool_keys_are_those(rest, provider, all);
        let before = pool_keys(rest, provider, all);
        let keys = pool_keys(pool, provider, all);
        assert forall|i: int| 0 <= i < keys.len() implies (#[trigger] keys[i]).provider == provider && keys[i].label
            is Some by {
            if i < before.len() {
                assert(keys[i] == before[i]);
            }
        }
        assert forall|j: int| 0 <= j < pool.len() && ((#[trigger] pool[j]).1 || all) implies keys.contains(
            CredentialKeyView { provider, label: Some(pool[j].0) },
        ) by {
            let wanted = CredentialKeyView { provider, label: Some(pool[j].0) };
            if j < rest.len() {
                assert(rest[j] == pool[j]);
                assert(before.contains(wanted));
                let k = choose|k: int| 0 <= k < before.len() && before[k] == wanted;
                assert(keys[k] == wanted);
            } else {
                assert(keys[keys.len() - 1] == wanted);
            }
        }
    }
}

/// The hints of a credential are its need of a login and its own expiry.
pub proof fn hints_come_from_the_credential(record: CredentialRecord, hints: (bool, Option<Timestamp>), found: bool, name: &str, value: &str)
    requires
        record.wf(),
        call_ensures(entry_readiness, (&record,), hints),
        call_ensures(CredentialKind::notes, (&record.kind, name, value), found),
    ensures
        name@ == "needs_login"@ && value@ == "true"@ ==> hints.0 == found,
        record.kind matches CredentialKind::OAuth { expires_at, .. } ==> hints.1 == Some(expires_at),
        record.kind is ApiKey ==> hints.1 is None,
        found <==> (extra_of(record.kind)@.dom().contains(name@) && extra_of(record.kind)@[name@]@ == value@),
{
}

/// A listing goes by provider, then by age, then by label.
pub proof fn listings_go_by_provider_and_age(list: Vec<CredentialSummary>, order: Vec<usize>)
    requires
        call_ensures(list_entries, (&list,), order),
    ensures
        order@.len() == list@.len(),
        forall|i: int, j: int|
            0 <= i < j < order@.len() ==> !listed_before(
                list@[#[trigger] order@[j] as int],
                list@[#[trigger] order@[i] as int],
            ),
{
    listings_are_sorted(list@);
    let places = order@.map_values(|k: usize| k as int);
    assert(places.len() == order@.len());
    assert forall|i: int, j: int| 0 <= i < j < order@.len() implies !listed_before(
        list@[#[trigger] order@[j] as int],
        list@[#[trigger] order@[i] as int],
    ) by {
        assert(places[i] == order@[i] as int && places[j] == order@[j] as int);
    }
}

/// The labels of a provider come in order; the default of the old place comes first where no entry
/// has that name.
pub proof fn labels_come_in_order(labels: Vec<String>, legacy: bool, sorted: Vec<String>)
    requires
        call_ensures(credential_entry_labels, (labels, legacy), sorted),
    ensures
        !legacy ==> sorted@.len() == labels@.len(),
        labels@.len() <= sorted@.len() <= labels@.len() + 1,
        legacy ==> text_views(sorted@).contains("default"@),
        sorted@.len() == labels@.len() + 1 ==> sorted@[0]@ == "default"@,
        forall|k: int| 0 <= k < labels@.len() ==> text_views(sorted@).contains((#[trigger] labels@[k])@),
        !legacy ==> forall|i: int, j: int|
            0 <= i < j < sorted@.len() ==> !text_less((#[trigger] sorted@[j])@, (#[trigger] sorted@[i])@),
{
    let views = text_views(labels@);
    let n = views.len();
    let keys = label_keys(views);
    let order = stable_order(keys, n);
    let inner = sorted_labels(views);
    let all = text_views(sorted@);
    assert(n == labels@.len() && all.len() == sorted@.len());
    stable_order_laws(keys, n);
    if sorted@.len() == labels@.len() + 1 {
        assert(all[0] == sorted@[0]@);
    }
    if legacy && has_default(inner) {
        let k = choose|k: int| 0 <= k < inner.len() && inner[k] == "default"@;
        assert(all[k] == "default"@);
    } else if legacy {
        assert(all[0] == "default"@);
    }
    assert forall|k: int| 0 <= k < labels@.len() implies all.contains((#[trigger] labels@[k])@) by {
        assert(order.contains(k));
        let i = choose|i: int| 0 <= i < order.len() && order[i] == k;
        assert(inner[i] == views[k] && views[k] == labels@[k]@);
        if all.len() == inner.len() {
            assert(all[i] == views[k]);
        } else {
            assert(all[i + 1] == views[k]);
        }
    }
    if !legacy {
        assert forall|i: int, j: int| 0 <= i < j < sorted@.len() implies !text_less(
            (#[trigger] sorted@[j])@,
            (#[trigger] sorted@[i])@,
        ) by {
            assert(all[i] == sorted@[i]@ && all[j] == sorted@[j]@);
            assert(keys[order[i]] == (0int, views[order[i]]) && keys[order[j]] == (0int, views[order[j]]));
        }
    }
}

/// A fingerprint covers everything that is stored of a credential: the value of the old place and
/// then each row's key and value, in order. There is none where nothing is stored.
pub proof fn fingerprints_cover_what_is_stored(legacy: Option<Vec<u8>>, rows: Vec<(Vec<u8>, Vec<u8>)>, fingerprint: Option<Vec<u8>>)
    requires
        call_ensures(credential_fingerprint, (&legacy, &rows), fingerprint),
    ensures
        fingerprint is None <==> legacy is None && rows@.len() == 0,
        rows@.len() == 0 ==> (legacy matches Some(bytes) ==> fingerprint->0@ == blake3_digest(bytes@)),
        rows@.len() == 1 && legacy is None ==> fingerprint->0@ == blake3_digest(rows@[0].0@ + rows@[0].1@),
        rows@.len() == 1 ==> (legacy matches Some(bytes) ==> fingerprint->0@ == blake3_digest(
            bytes@ + rows@[0].0@ + rows@[0].1@,
        )),
{
    reveal_with_fuel(covered, 2);
    if rows@.len() == 0 {
        if let Some(bytes) = legacy {
            assert(bytes@ + covered(rows@, 0) =~= bytes@);
        }
    }
    if rows@.len() == 1 {
        assert(covered(rows@, 1) =~= rows@[0].0@ + rows@[0].1@);
        match legacy {
            Some(bytes) => {
                assert(bytes@ + covered(rows@, 1) =~= bytes@ + rows@[0].0@ + rows@[0].1@);
            },
            None => {
                assert(Seq::<u8>::empty() + covered(rows@, 1) =~= rows@[0].0@ + rows@[0].1@);
            },
        }
    }
}

/// What is covered of two lists of rows one after the other is what is covered of the first and then
/// of the second.
pub proof fn rows_are_covered_in_order(rows: Seq<(Vec<u8>, Vec<u8>)>, count: nat)
    requires
        count < rows.len(),
    ensures
        covered(rows, count + 1) == covered(rows, count) + rows[count as int].0@ + rows[count as int].1@,
        covered(rows, 0).len() == 0,
{
}

} // verus!
