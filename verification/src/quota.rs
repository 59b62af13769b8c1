//! Quotas of auth entries: what providers publish, and limits that operators set.

use crate::metering_reads::UsageGroup;
use crate::text::{contains, occurs, parse_unsigned, trim, trimmed, unsigned_number};
use crate::textmap::TextMap;
use crate::time::{in_range, Timestamp};
use vstd::prelude::*;
use vstd::string::StrSliceExecFns;

verus! {

/// Seconds of a unit of time.
pub open spec fn unit_seconds(unit: char) -> Option<nat> {
    if unit == 's' {
        Some(1nat)
    } else if unit == 'm' {
        Some(60nat)
    } else if unit == 'h' {
        Some(3_600nat)
    } else if unit == 'd' {
        Some(86_400nat)
    } else if unit == 'w' {
        Some(604_800nat)
    } else {
        None
    }
}

/// Seconds of a window: a number and a unit.
pub open spec fn window_seconds(text: Seq<char>) -> Option<nat> {
    let t = trimmed(text);
    if t.len() == 0 {
        None
    } else {
        match (unit_seconds(t.last()), unsigned_number(t.drop_last(), u64::MAX as nat)) {
            (Some(seconds), Some(count)) => if count * seconds <= u64::MAX {
                Some(count * seconds)
            } else {
                None
            },
            _ => None,
        }
    }
}

/// Reads windows like `30m`, `5h` or `7d` into seconds.
pub fn parse_window(value: &str) -> (seconds: Option<u64>)
    ensures
        match seconds {
            Some(n) => window_seconds(value@) == Some(n as nat),
            None => window_seconds(value@) is None,
        },
{
    let text = trim(value);
    let length: usize = text.as_str().unicode_len();
    if length == 0 {
        return None;
    }
    let last: usize = length - 1;
    let unit = text.as_str().get_char(last);
    let number = text.as_str().substring_char(0, last);
    assert(number@ =~= text@.drop_last());
    let scale: u64 = if unit == 's' {
        1
    } else if unit == 'm' {
        60
    } else if unit == 'h' {
        3_600
    } else if unit == 'd' {
        86_400
    } else if unit == 'w' {
        604_800
    } else {
        return None;
    };
    match parse_unsigned(number, u64::MAX) {
        Some(count) => count.checked_mul(scale),
        None => None,
    }
}

/// Values that a provider published last for an entry.
#[derive(Clone)]
pub struct ObservedQuota {
    pub values: TextMap<u64>,
    pub resets: TextMap<u64>,
    pub window_seconds: Option<u64>,
    pub updated_at: Timestamp,
}

/// A limit that an operator set for an entry.
#[derive(Clone, Copy, Debug, PartialEq, Eq, Structural)]
pub struct QuotaConfig {
    pub limit: u64,
    pub window_seconds: u64,
}

/// Where the numbers of a quota come from.
#[derive(Clone, Copy, Debug, PartialEq, Eq, Structural)]
pub enum QuotaSource {
    Observed,
    Configured,
}

/// The quota of an entry. A configured one counts completions in whole hours that overlap the
/// window; an observed one keeps requests and tokens apart.
pub struct EntryQuota {
    pub source: QuotaSource,
    pub used: u64,
    pub free: Option<u64>,
    pub limit: Option<u64>,
    pub window_seconds: Option<u64>,
    pub observed_at: Option<Timestamp>,
    pub remaining: TextMap<u64>,
    pub requests_remaining: Option<u64>,
    pub tokens_remaining: Option<u64>,
}

/// The least of the values of the first `count` entries whose names contain a word.
pub open spec fn least_within(entries: Seq<(String, u64)>, word: Seq<char>, count: nat) -> Option<u64>
    decreases count,
{
    if count == 0 {
        None
    } else {
        let before = least_within(entries, word, (count - 1) as nat);
        let (name, value) = entries[count - 1];
        if occurs(name@, word) {
            match before {
                Some(least) => Some(if least <= value {
                    least
                } else {
                    value
                }),
                None => Some(value),
            }
        } else {
            before
        }
    }
}

fn least_of(values: &TextMap<u64>, word: &str) -> (least: Option<u64>)
    ensures
        least == least_within(values.entries@, word@, values.entries@.len()),
{
    let mut least: Option<u64> = None;
    let mut i: usize = 0;
    while i < values.entries.len()
        invariant
            i <= values.entries.len(),
            least == least_within(values.entries@, word@, i as nat),
        decreases values.entries.len() - i,
    {
        let value: u64 = values.entries[i].1;
        if contains(values.entries[i].0.as_str(), word) {
            least = match least {
                Some(held) => if held <= value {
                    Some(held)
                } else {
                    Some(value)
                },
                None => Some(value),
            };
        }
        i += 1;
    }
    least
}

/// Requests that remain: the least value under a name that speaks of requests.
pub fn requests_remaining(remaining: &TextMap<u64>) -> (least: Option<u64>)
    ensures
        least == least_within(remaining.entries@, "request"@, remaining.entries@.len()),
{
    least_of(remaining, "request")
}

/// Tokens that remain: the least value under a name that speaks of tokens.
pub fn tokens_remaining(remaining: &TextMap<u64>) -> (least: Option<u64>)
    ensures
        least == least_within(remaining.entries@, "token"@, remaining.entries@.len()),
{
    least_of(remaining, "token")
}

/// What is left is a lower bound: the least value is that of some name with the word, and no name
/// with the word has less.
pub proof fn least_is_least(entries: Seq<(String, u64)>, word: Seq<char>, count: nat)
    requires
        count <= entries.len(),
    ensures
        match least_within(entries, word, count) {
            Some(least) => {
                &&& exists|i: int|
                    0 <= i < count && occurs((#[trigger] entries[i]).0@, word) && entries[i].1 == least
                &&& forall|i: int|
                    0 <= i < count && occurs((#[trigger] entries[i]).0@, word) ==> least <= entries[i].1
            },
            None => forall|i: int| 0 <= i < count ==> !occurs((#[trigger] entries[i]).0@, word),
        },
    decreases count,
{
    if count > 0 {
        least_is_least(entries, word, (count - 1) as nat);
    }
}

/// The least of the values of the first `count` entries.
pub open spec fn least_value(entries: Seq<(String, u64)>, count: nat) -> Option<u64>
    decreases count,
{
    if count == 0 {
        None
    } else {
        let value = entries[count - 1].1;
        match least_value(entries, (count - 1) as nat) {
            Some(least) => Some(if least <= value {
                least
            } else {
                value
            }),
            None => Some(value),
        }
    }
}

/// What to store of published values: nothing when none were published, otherwise all of them
/// with the shortest window after which one resets.
pub fn observe_entry_quota(remaining: TextMap<u64>, resets: TextMap<u64>, now: Timestamp) -> (row: Option<ObservedQuota>)
    ensures
        match row {
            Some(observed) => {
                &&& remaining.entries@.len() > 0
                &&& observed.values == remaining
                &&& observed.resets == resets
                &&& observed.window_seconds == least_value(
                    resets.entries@,
                    resets.entries@.len(),
                )
                &&& observed.updated_at == now
            },
            None => remaining.entries@.len() == 0,
        },
{
    if remaining.len() == 0 {
        return None;
    }
    let mut least: Option<u64> = None;
    let mut i: usize = 0;
    while i < resets.entries.len()
        invariant
            i <= resets.entries.len(),
            least == least_value(resets.entries@, i as nat),
        decreases resets.entries.len() - i,
    {
        let value: u64 = resets.entries[i].1;
        least = match least {
            Some(held) => if held <= value {
                Some(held)
            } else {
                Some(value)
            },
            None => Some(value),
        };
        i += 1;
    }
    Some(ObservedQuota { values: remaining, resets, window_seconds: least, updated_at: now })
}

/// Where the window of a configured quota begins.
pub open spec fn window_start(now: Timestamp, window_seconds: u64) -> Timestamp {
    let length = if window_seconds <= i64::MAX {
        window_seconds as int
    } else {
        i64::MAX as int
    };
    let second = now.nanos as int / 1_000_000_000 - length;
    if i64::MIN <= second && in_range(second * 1_000_000_000) {
        Timestamp { nanos: (second * 1_000_000_000) as i128 }
    } else {
        Timestamp { nanos: 0 }
    }
}

/// Where the window of a configured quota begins; one that reaches too far back begins with 1970.
pub fn quota_from(now: Timestamp, window_seconds: u64) -> (from: Timestamp)
    requires
        now.valid(),
    ensures
        from == window_start(now, window_seconds),
        from.valid(),
{
    let length: i64 = if window_seconds <= i64::MAX as u64 {
        window_seconds as i64
    } else {
        i64::MAX
    };
    match now.second_begun().checked_sub(length) {
        Some(second) => match Timestamp::from_second(second) {
            Some(from) => from,
            None => Timestamp::epoch(),
        },
        None => Timestamp::epoch(),
    }
}

/// Completions over groups.
pub open spec fn completions_of(groups: Seq<UsageGroup>) -> nat
    decreases groups.len(),
{
    if groups.len() == 0 {
        0
    } else {
        completions_of(groups.drop_last()) + groups.last().completions as nat
    }
}

proof fn completions_of_prefix(groups: Seq<UsageGroup>, count: int)
    requires
        0 <= count <= groups.len(),
    ensures
        completions_of(groups.take(count)) <= completions_of(groups),
    decreases groups.len() - count,
{
    if count < groups.len() {
        completions_of_prefix(groups, count + 1);
        assert(groups.take(count + 1).drop_last() =~= groups.take(count));
    } else {
        assert(groups.take(count) =~= groups);
    }
}

/// Tells whether the completions over groups fit a counter.
pub fn completions_fit(groups: &Vec<UsageGroup>) -> (fits: bool)
    ensures
        fits == (completions_of(groups@) <= u64::MAX),
{
    let mut used: u64 = 0;
    let mut i: usize = 0;
    assert(groups@.take(0) =~= Seq::<UsageGroup>::empty());
    while i < groups.len()
        invariant
            i <= groups.len(),
            used == completions_of(groups@.take(i as int)),
        decreases groups.len() - i,
    {
        proof {
            assert(groups@.take(i + 1).drop_last() =~= groups@.take(i as int));
            completions_of_prefix(groups@, i + 1);
        }
        used = match used.checked_add(groups[i].completions) {
            Some(sum) => sum,
            None => {
                return false;
            },
        };
        i += 1;
    }
    assert(groups@.take(i as int) =~= groups@);
    true
}

/// The quota of an entry with a configured limit: what was used in the window, and what is left.
fn configured_quota(config: &QuotaConfig, observed_at: Option<Timestamp>, groups: &Vec<UsageGroup>) -> (quota: EntryQuota)
    requires
        completions_of(groups@) <= u64::MAX,
    ensures
        quota.source == QuotaSource::Configured,
        quota.used == completions_of(groups@),
        quota.free == Some(
            if config.limit >= quota.used {
                (config.limit - quota.used) as u64
            } else {
                0
            },
        ),
        quota.limit == Some(config.limit),
        quota.window_seconds == Some(config.window_seconds),
        quota.observed_at == observed_at,
        quota.remaining.entries@.len() == 0,
        quota.requests_remaining is None,
        quota.tokens_remaining is None,
{
    let mut used: u64 = 0;
    let mut i: usize = 0;
    assert(groups@.take(0) =~= Seq::<UsageGroup>::empty());
    while i < groups.len()
        invariant
            i <= groups.len(),
            completions_of(groups@) <= u64::MAX,
            used == completions_of(groups@.take(i as int)),
        decreases groups.len() - i,
    {
        proof {
            assert(groups@.take(i + 1).drop_last() =~= groups@.take(i as int));
            completions_of_prefix(groups@, i + 1);
        }
        used = used + groups[i].completions;
        i += 1;
    }
    assert(groups@.take(i as int) =~= groups@);
    EntryQuota {
        source: QuotaSource::Configured,
        used,
        free: Some(config.limit.saturating_sub(used)),
        limit: Some(config.limit),
        window_seconds: Some(config.window_seconds),
        observed_at,
        remaining: TextMap::new(),
        requests_remaining: None,
        tokens_remaining: None,
    }
}

/// The quota of an entry without a configured limit: the values that its provider published last,
/// or nothing.
fn observed_quota(observed: Option<ObservedQuota>) -> (quota: EntryQuota)
    ensures
        quota.source == QuotaSource::Observed,
        quota.used == 0,
        quota.limit is None,
        quota.free == quota.requests_remaining,
        match observed {
            Some(values) => {
                let entries = values.values.entries@;
                &&& quota.requests_remaining == least_within(entries, "request"@, entries.len())
                &&& quota.tokens_remaining == least_within(entries, "token"@, entries.len())
                &&& quota.window_seconds == values.window_seconds
                &&& quota.observed_at == Some(values.updated_at)
                &&& quota.remaining == values.values
            },
            None => {
                &&& quota.requests_remaining is None
                &&& quota.tokens_remaining is None
                &&& quota.window_seconds is None
                &&& quota.observed_at is None
                &&& quota.remaining.entries@.len() == 0
            },
        },
{
    match observed {
        Some(values) => {
            let requests = requests_remaining(&values.values);
            let tokens = tokens_remaining(&values.values);
            EntryQuota {
                source: QuotaSource::Observed,
                used: 0,
                free: requests,
                limit: None,
                window_seconds: values.window_seconds,
                observed_at: Some(values.updated_at),
                remaining: values.values,
                requests_remaining: requests,
                tokens_remaining: tokens,
            }
        },
        None => EntryQuota {
            source: QuotaSource::Observed,
            used: 0,
            free: None,
            limit: None,
            window_seconds: None,
            observed_at: None,
            remaining: TextMap::new(),
            requests_remaining: None,
            tokens_remaining: None,
        },
    }
}

/// The quota of an entry: a configured limit goes before published values.
pub fn entry_quota(config: Option<QuotaConfig>, observed: Option<ObservedQuota>, groups: &Vec<UsageGroup>) -> (quota: EntryQuota)
    requires
        config is Some ==> completions_of(groups@) <= u64::MAX,
    ensures
        match config {
            Some(config) => {
                &&& quota.source == QuotaSource::Configured
                &&& quota.used == completions_of(groups@)
                &&& quota.free == Some(
                    if config.limit >= quota.used {
                        (config.limit - quota.used) as u64
                    } else {
                        0
                    },
                )
                &&& quota.limit == Some(config.limit)
                &&& quota.window_seconds == Some(config.window_seconds)
                &&& quota.observed_at == match observed {
                    Some(values) => Some(values.updated_at),
                    None => None,
                }
                &&& quota.remaining.entries@.len() == 0
                &&& quota.requests_remaining is None
                &&& quota.tokens_remaining is None
            },
            None => {
                &&& quota.source == QuotaSource::Observed
                &&& quota.used == 0
                &&& quota.limit is None
                &&& quota.free == quota.requests_remaining
                &&& match observed {
                    Some(values) => {
                        let entries = values.values.entries@;
                        &&& quota.requests_remaining == least_within(
                            entries,
                            "request"@,
                            entries.len(),
                        )
                        &&& quota.tokens_remaining == least_within(entries, "token"@, entries.len())
                        &&& quota.window_seconds == values.window_seconds
                        &&& quota.observed_at == Some(values.updated_at)
                        &&& quota.remaining == values.values
                    },
                    None => {
                        &&& quota.requests_remaining is None
                        &&& quota.tokens_remaining is None
                        &&& quota.window_seconds is None
                        &&& quota.observed_at is None
                        &&& quota.remaining.entries@.len() == 0
                    },
                }
            },
        },
{
    match config {
        Some(config) => {
            let observed_at = match &observed {
                Some(values) => Some(values.updated_at),
                None => None,
            };
            configured_quota(&config, observed_at, groups)
        },
        None => observed_quota(observed),
    }
}

/// A window is written as a count and a unit: with one unit, twice the count is twice the window, and
/// each unit is as long as the calendar says.
pub proof fn windows_are_counted_in_units(unit: char)
    ensures
        unit_seconds(unit) is Some <==> unit == 's' || unit == 'm' || unit == 'h' || unit == 'd' || unit == 'w',
        unit_seconds('s') == Some(1nat),
        unit_seconds('m')->0 == 60 * unit_seconds('s')->0,
        unit_seconds('h')->0 == 60 * unit_seconds('m')->0,
        unit_seconds('d')->0 == 24 * unit_seconds('h')->0,
        unit_seconds('w')->0 == 7 * unit_seconds('d')->0,
{
}

/// A parsed window is the count in front of the unit, times the length of the unit; white space round
/// it does not count.
pub proof fn parsed_windows_are_count_times_unit(value: &str, seconds: Option<u64>)
    requires
        call_ensures(parse_window, (value,), seconds),
    ensures
        seconds matches Some(n) ==> {
            let t = trimmed(value@);
            &&& t.len() > 0 && unit_seconds(t[t.len() - 1]) is Some
            &&& unsigned_number(t.drop_last(), u64::MAX as nat) matches Some(count) && n == count * unit_seconds(
                t[t.len() - 1],
            )->0
        },
{
}

/// What is left of requests is no more than any limit on requests that was reported, and is one of
/// them; the same holds of tokens.
pub proof fn the_tightest_limit_counts(remaining: TextMap<u64>, requests: Option<u64>, tokens: Option<u64>)
    requires
        call_ensures(requests_remaining, (&remaining,), requests),
        call_ensures(tokens_remaining, (&remaining,), tokens),
    ensures
        limits(remaining.entries@, "request"@, requests),
        limits(remaining.entries@, "token"@, tokens),
{
    least_limits(remaining.entries@, "request"@, remaining.entries@.len());
    least_limits(remaining.entries@, "token"@, remaining.entries@.len());
}

/// Whether a number is the least of those under names that hold a word; none where no name does.
pub open spec fn limits(entries: Seq<(String, u64)>, word: Seq<char>, least: Option<u64>) -> bool {
    &&& forall|i: int|
        0 <= i < entries.len() && occurs((#[trigger] entries[i]).0@, word) ==> least is Some && least->0
            <= entries[i].1
    &&& least is Some ==> exists|i: int|
        0 <= i < entries.len() && occurs((#[trigger] entries[i]).0@, word) && entries[i].1 == least->0
}

proof fn least_limits(entries: Seq<(String, u64)>, word: Seq<char>, count: nat)
    requires
        count <= entries.len(),
    ensures
        limits(entries.take(count as int), word, least_within(entries, word, count)),
        count == entries.len() ==> limits(entries, word, least_within(entries, word, count)),
    decreases count,
{
    let now = entries.take(count as int);
    let least = least_within(entries, word, count);
    if count > 0 {
        least_limits(entries, word, (count - 1) as nat);
        let then = entries.take(count - 1);
        let before = least_within(entries, word, (count - 1) as nat);
        assert forall|i: int| 0 <= i < now.len() && occurs((#[trigger] now[i]).0@, word) implies least is Some
            && least->0 <= now[i].1 by {
            if i < count - 1 {
                assert(then[i] == now[i]);
            }
        }
        if least is Some {
            if occurs(entries[count - 1].0@, word) && entries[count - 1].1 == least->0 {
                assert(now[count - 1].1 == least->0);
            } else {
                let i = choose|i: int|
                    0 <= i < then.len() && occurs((#[trigger] then[i]).0@, word) && then[i].1 == before->0;
                assert(now[i] == then[i]);
            }
        }
    }
    if count == entries.len() {
        assert(now =~= entries);
    }
}

/// An observation keeps what was reported, at the moment it was; its window is the shortest that was
/// reported. Nothing is kept where nothing was reported.
pub proof fn observations_are_kept_as_reported(remaining: TextMap<u64>, resets: TextMap<u64>, now: Timestamp, row: Option<ObservedQuota>)
    requires
        call_ensures(observe_entry_quota, (remaining, resets, now), row),
    ensures
        row is Some <==> remaining.entries@.len() > 0,
        row matches Some(kept) ==> {
            &&& kept.values == remaining && kept.resets == resets && kept.updated_at == now
            &&& kept.window_seconds is Some <==> resets.entries@.len() > 0
            &&& forall|i: int|
                0 <= i < resets.entries@.len() ==> kept.window_seconds->0 <= (#[trigger] resets.entries@[i]).1
            &&& kept.window_seconds matches Some(least) ==> exists|i: int|
                0 <= i < resets.entries@.len() && (#[trigger] resets.entries@[i]).1 == least
        },
{
    least_of_all(resets.entries@, resets.entries@.len());
}

proof fn least_of_all(entries: Seq<(String, u64)>, count: nat)
    requires
        count <= entries.len(),
    ensures
        least_value(entries, count) is Some <==> count > 0,
        forall|i: int| 0 <= i < count ==> least_value(entries, count)->0 <= (#[trigger] entries[i]).1,
        least_value(entries, count) matches Some(least) ==> exists|i: int|
            0 <= i < count && (#[trigger] entries[i]).1 == least,
    decreases count,
{
    if count > 0 {
        least_of_all(entries, (count - 1) as nat);
        let least = least_value(entries, count)->0;
        if entries[count - 1].1 != least {
            let i = choose|i: int| 0 <= i < count - 1 && (#[trigger] entries[i]).1 == least;
            assert(entries[i].1 == least);
        }
    }
}

/// The window begins on a whole second, one window before the second of now.
pub proof fn windows_begin_one_length_back(now: Timestamp, window_seconds: u64, from: Timestamp)
    requires
        now.valid(),
        window_seconds <= i64::MAX,
        in_range((now.nanos as int / 1_000_000_000 - window_seconds) * 1_000_000_000),
        call_ensures(quota_from, (now, window_seconds), from),
    ensures
        from.nanos % 1_000_000_000 == 0,
        from.nanos <= now.nanos - window_seconds * 1_000_000_000 < from.nanos + 1_000_000_000,
{
}

/// The completions of two lists of groups one after the other are the sum of those of each.
pub proof fn completions_add_up(left: Seq<UsageGroup>, right: Seq<UsageGroup>)
    ensures
        completions_of(left + right) == completions_of(left) + completions_of(right),
    decreases right.len(),
{
    if right.len() == 0 {
        assert(left + right =~= left);
    } else {
        completions_add_up(left, right.drop_last());
        assert((left + right).drop_last() =~= left + right.drop_last());
        assert((left + right).last() == right.last());
    }
}

/// Under a configured limit, what is used and what is free add up to the limit, unless more was used;
/// the use is the number of completions. Without one, the quota is what was observed.
pub proof fn quotas_add_up(config: Option<QuotaConfig>, observed: Option<ObservedQuota>, groups: Vec<UsageGroup>, quota: EntryQuota)
    requires
        config is Some ==> completions_of(groups@) <= u64::MAX,
        call_ensures(entry_quota, (config, observed, &groups), quota),
    ensures
        config matches Some(set) ==> {
            &&& quota.source == QuotaSource::Configured
            &&& quota.limit == Some(set.limit) && quota.window_seconds == Some(set.window_seconds)
            &&& quota.used <= set.limit ==> quota.used + quota.free->0 == set.limit
            &&& quota.used > set.limit ==> quota.free == Some(0u64)
            &&& groups@.len() == 0 ==> quota.used == 0
            &&& groups@.len() == 1 ==> quota.used == groups@[0].completions
            &&& quota.observed_at is Some <==> observed is Some
        },
        config is None ==> {
            &&& quota.source == QuotaSource::Observed
            &&& quota.used == 0 && quota.limit is None && quota.free == quota.requests_remaining
            &&& observed is None ==> quota.requests_remaining is None && quota.tokens_remaining is None
                && quota.window_seconds is None && quota.observed_at is None
            &&& observed matches Some(values) ==> {
                &&& limits(values.values.entries@, "request"@, quota.requests_remaining)
                &&& limits(values.values.entries@, "token"@, quota.tokens_remaining)
                &&& quota.window_seconds == values.window_seconds && quota.remaining == values.values
                &&& quota.observed_at == Some(values.updated_at)
            }
        },
{
    reveal_with_fuel(completions_of, 2);
    if groups@.len() == 1 {
        assert(groups@.drop_last() =~= Seq::empty());
    }
    if let Some(values) = observed {
        let entries = values.values.entries@;
        least_limits(entries, "request"@, entries.len());
        least_limits(entries, "token"@, entries.len());
    }
}

} // verus!
