//! Sums of hourly buckets: by hour, by calendar group and by entry.

use crate::calendar::{
    day_of, end_of_group, first_day, group_end, group_start, start_of_group, UsageGroupBy,
};
use crate::events::TokenUsage;
use crate::hours::{numbers_ascend, place, place_marks, put, row_of, HourMap};
use crate::metering::{
    bucket_views, field_of, hour_floor, hour_of, named_field, no_counters, with_field, BucketRow,
    BucketView, Counters, Field,
};
use crate::text::{same, text_less};
use crate::textmap::{key_index, key_index_unique, TextMap};
use crate::time::{in_range, truncated, Timestamp};
use crate::usage::{adds_up, capped_sum, no_usage, with_usage, UsageTotals};
use vstd::prelude::*;

verus! {

/// The first and the last hour that overlap the time from `from` up to `to`; none when there is no
/// such time.
pub open spec fn window_hours(from: Timestamp, to: Timestamp) -> Option<(int, int)> {
    if to.nanos <= from.nanos {
        None
    } else {
        Some(
            (
                hour_of(from.nanos as int / 1_000_000_000),
                hour_of((to.nanos - 1) / 1_000_000_000),
            ),
        )
    }
}

/// The first and the last hour that overlap the time from `from` up to `to`.
pub fn hour_window(from: Timestamp, to: Timestamp) -> (window: Option<(i64, i64)>)
    requires
        from.valid(),
        to.valid(),
    ensures
        match window {
            Some((first, last)) => window_hours(from, to) == Some((first as int, last as int)),
            None => window_hours(from, to) is None,
        },
{
    if to.nanos <= from.nanos {
        return None;
    }
    let end = Timestamp { nanos: to.nanos - 1 };
    Some((hour_floor(from.second_begun()), hour_floor(end.second_begun())))
}

/// Whether a nanosecond lies in a span of time.
pub open spec fn lies_in(nanos: int, from: int, to: int) -> bool {
    from <= nanos < to
}

/// A window holds exactly the hours that share a nanosecond with it.
pub proof fn windows_hold_overlapping_hours(from: Timestamp, to: Timestamp, hour: int)
    requires
        hour % 3_600 == 0,
    ensures
        (window_hours(from, to) matches Some((first, last)) && first <= hour <= last) <==> (
        exists|nanos: int| #[trigger]
            lies_in(nanos, from.nanos as int, to.nanos as int) && lies_in(
                nanos,
                hour * 1_000_000_000,
                (hour + 3_600) * 1_000_000_000,
            )),
{
    if to.nanos > from.nanos {
        let first = hour_of(from.nanos as int / 1_000_000_000);
        let last = hour_of((to.nanos - 1) / 1_000_000_000);
        if first <= hour <= last {
            let start = hour * 1_000_000_000;
            let nanos = if from.nanos >= start {
                from.nanos as int
            } else {
                start
            };
            assert(lies_in(nanos, from.nanos as int, to.nanos as int));
        }
    }
}

/// Counters of an hour that may have none.
pub open spec fn counters_at(hours: Seq<(i64, Counters)>, hour: i64) -> Counters {
    match row_of(hours, hour) {
        Some(counters) => counters,
        None => no_counters(),
    }
}

/// Counters by hour of one key. Each counter is the last row of its hour and field.
pub open spec fn hours_of_key(rows: Seq<BucketView>, key: Seq<char>) -> Seq<(i64, Counters)>
    decreases rows.len(),
{
    if rows.len() == 0 {
        Seq::empty()
    } else {
        let before = hours_of_key(rows.drop_last(), key);
        let row = rows.last();
        match named_field(row.field) {
            Some(field) => if row.key == key {
                put(before, row.hour, with_field(counters_at(before, row.hour), field, row.value))
            } else {
                before
            },
            None => before,
        }
    }
}

/// Counters by hour across all keys. Every row of a known counter adds once.
pub open spec fn hours_of_all(rows: Seq<BucketView>) -> Seq<(i64, Counters)>
    decreases rows.len(),
{
    if rows.len() == 0 {
        Seq::empty()
    } else {
        let before = hours_of_all(rows.drop_last());
        let row = rows.last();
        match named_field(row.field) {
            Some(field) => {
                let held = counters_at(before, row.hour);
                put(
                    before,
                    row.hour,
                    with_field(held, field, capped_sum(field_of(held, field), row.value)),
                )
            },
            None => before,
        }
    }
}

/// Sums one key's rows by hour.
pub fn bucket_hours(rows: &Vec<BucketRow>, key: &str) -> (hours: HourMap<Counters>)
    ensures
        hours.wf(),
        hours.entries@ == hours_of_key(bucket_views(rows@), key@),
{
    let ghost views = bucket_views(rows@);
    let mut hours: HourMap<Counters> = HourMap::new();
    let mut i: usize = 0;
    assert(views.take(0) =~= Seq::<BucketView>::empty());
    while i < rows.len()
        invariant
            i <= rows.len(),
            views == bucket_views(rows@),
            hours.wf(),
            hours.entries@ == hours_of_key(views.take(i as int), key@),
        decreases rows.len() - i,
    {
        let row = &rows[i];
        proof {
            assert(views.take(i + 1).drop_last() =~= views.take(i as int));
            assert(views.take(i + 1).last() == row@);
        }
        if let Some(field) = Field::parse(row.field.as_str()) {
            if same(row.key.as_str(), key) {
                let held = match hours.get(row.hour) {
                    Some(counters) => *counters,
                    None => Counters::zero(),
                };
                hours.insert(row.hour, held.set(field, row.value));
            }
        }
        i += 1;
    }
    assert(views.take(i as int) =~= views);
    hours
}

/// Sums all rows by hour, across keys. Sums stop at the largest counter.
pub fn aggregate_hours(rows: &Vec<BucketRow>) -> (hours: HourMap<Counters>)
    ensures
        hours.wf(),
        hours.entries@ == hours_of_all(bucket_views(rows@)),
{
    let ghost views = bucket_views(rows@);
    let mut hours: HourMap<Counters> = HourMap::new();
    let mut i: usize = 0;
    assert(views.take(0) =~= Seq::<BucketView>::empty());
    while i < rows.len()
        invariant
            i <= rows.len(),
            views == bucket_views(rows@),
            hours.wf(),
            hours.entries@ == hours_of_all(views.take(i as int)),
        decreases rows.len() - i,
    {
        let row = &rows[i];
        proof {
            assert(views.take(i + 1).drop_last() =~= views.take(i as int));
            assert(views.take(i + 1).last() == row@);
        }
        if let Some(field) = Field::parse(row.field.as_str()) {
            let held = match hours.get(row.hour) {
                Some(counters) => *counters,
                None => Counters::zero(),
            };
            let sum: u64 = held.field(field).saturating_add(row.value);
            hours.insert(row.hour, held.set(field, sum));
        }
        i += 1;
    }
    assert(views.take(i as int) =~= views);
    hours
}

/// The usage that counters stand for.
pub open spec fn counters_usage(c: Counters) -> UsageTotals {
    UsageTotals {
        usage: TokenUsage {
            input_tokens: c.input,
            cached_input_tokens: c.cached,
            cache_write_input_tokens: c.cache_write,
            output_tokens: c.output,
            reasoning_output_tokens: c.reasoning,
            total_tokens: c.total,
        },
        cost_micros: c.cost,
    }
}

/// The usage and the number of completions that counters stand for.
pub fn totals_of(counters: &Counters) -> (sums: (UsageTotals, u64))
    ensures
        sums == (counters_usage(*counters), counters.completions),
{
    (
        UsageTotals {
            usage: TokenUsage {
                input_tokens: counters.input,
                cached_input_tokens: counters.cached,
                cache_write_input_tokens: counters.cache_write,
                output_tokens: counters.output,
                reasoning_output_tokens: counters.reasoning,
                total_tokens: counters.total,
            },
            cost_micros: counters.cost,
        },
        counters.completions,
    )
}

/// One sum over the hours of a calendar group.
#[derive(Clone, Copy, Debug, PartialEq, Eq, Structural)]
pub struct UsageGroup {
    pub start: Timestamp,
    pub end: Timestamp,
    pub totals: UsageTotals,
    pub completions: u64,
}

/// The instant of an hour; one that is no instant counts as the start of 1970.
pub open spec fn hour_moment(hour: i64) -> Timestamp {
    if in_range(hour * 1_000_000_000) {
        Timestamp { nanos: (hour * 1_000_000_000) as i128 }
    } else {
        Timestamp { nanos: 0 }
    }
}

/// The number that a group is kept under: the second of its start.
pub open spec fn group_second(hour: i64, group_by: UsageGroupBy) -> i64 {
    truncated(start_of_group(hour_moment(hour), group_by).nanos as int, 1_000_000_000) as i64
}

/// The group of an hour before the hour is added.
pub open spec fn group_at(groups: Seq<(i64, UsageGroup)>, hour: i64, group_by: UsageGroupBy) -> UsageGroup {
    match row_of(groups, group_second(hour, group_by)) {
        Some(group) => group,
        None => {
            let start = start_of_group(hour_moment(hour), group_by);
            UsageGroup { start, end: end_of_group(start, group_by), totals: no_usage(), completions: 0 }
        },
    }
}

/// Groups after the counters of an hour were added.
pub open spec fn with_hour(groups: Seq<(i64, UsageGroup)>, hour: i64, c: Counters, group_by: UsageGroupBy) -> Seq<(i64, UsageGroup)> {
    let slot = group_at(groups, hour, group_by);
    put(
        groups,
        group_second(hour, group_by),
        UsageGroup {
            totals: with_usage(slot.totals, counters_usage(c).usage, c.cost),
            completions: capped_sum(slot.completions, c.completions),
            ..slot
        },
    )
}

/// Groups of hours in order of time, under the seconds of their starts.
pub open spec fn grouped(hours: Seq<(i64, Counters)>, group_by: UsageGroupBy) -> Seq<(i64, UsageGroup)>
    decreases hours.len(),
{
    if hours.len() == 0 {
        Seq::empty()
    } else {
        with_hour(grouped(hours.drop_last(), group_by), hours.last().0, hours.last().1, group_by)
    }
}

/// Groups without the seconds they are kept under.
pub open spec fn groups_of(groups: Seq<(i64, UsageGroup)>) -> Seq<UsageGroup> {
    groups.map_values(|row: (i64, UsageGroup)| row.1)
}

fn accumulate(groups: &mut HourMap<UsageGroup>, hour: i64, group_by: UsageGroupBy, counters: &Counters)
    requires
        old(groups).wf(),
    ensures
        final(groups).wf(),
        final(groups).entries@ == with_hour(old(groups).entries@, hour, *counters, group_by),
{
    let moment = match Timestamp::from_second(hour) {
        Some(moment) => moment,
        None => Timestamp::epoch(),
    };
    let start = group_start(moment, group_by);
    let second: i64 = start.as_second();
    let mut slot = match groups.get(second) {
        Some(group) => *group,
        None => UsageGroup {
            start,
            end: group_end(start, group_by),
            totals: UsageTotals::zero(),
            completions: 0,
        },
    };
    let (totals, completions) = totals_of(counters);
    slot.totals.count(&totals.usage, totals.cost_micros);
    slot.completions = slot.completions.saturating_add(completions);
    groups.insert(second, slot);
}

/// Sums hours into calendar groups in order of time.
pub fn group_hours(hours: &HourMap<Counters>, group_by: UsageGroupBy) -> (groups: Vec<UsageGroup>)
    ensures
        groups@ == groups_of(grouped(hours.entries@, group_by)),
{
    let mut map: HourMap<UsageGroup> = HourMap::new();
    let ghost all = hours.entries@;
    let mut i: usize = 0;
    assert(all.take(0) =~= Seq::<(i64, Counters)>::empty());
    while i < hours.entries.len()
        invariant
            i <= hours.entries.len(),
            all == hours.entries@,
            map.wf(),
            map.entries@ == grouped(all.take(i as int), group_by),
        decreases hours.entries.len() - i,
    {
        proof {
            assert(all.take(i + 1).drop_last() =~= all.take(i as int));
        }
        let (hour, counters) = hours.entries[i];
        accumulate(&mut map, hour, group_by, &counters);
        i += 1;
    }
    assert(all.take(i as int) =~= all);
    let mut groups: Vec<UsageGroup> = Vec::new();
    let mut n: usize = 0;
    while n < map.entries.len()
        invariant
            n <= map.entries.len(),
            groups@.len() == n,
            forall|j: int| 0 <= j < n ==> groups@[j] == map.entries@[j].1,
        decreases map.entries.len() - n,
    {
        groups.push(map.entries[n].1);
        n += 1;
    }
    assert(groups@ =~= groups_of(map.entries@));
    groups
}

/// One key's usage in calendar groups.
pub fn usage(rows: &Vec<BucketRow>, key: &str, group_by: UsageGroupBy) -> (groups: Vec<UsageGroup>)
    ensures
        groups@ == groups_of(grouped(hours_of_key(bucket_views(rows@), key@), group_by)),
{
    let hours = bucket_hours(rows, key);
    group_hours(&hours, group_by)
}

/// The usage of all keys in calendar groups.
pub fn usage_aggregate(rows: &Vec<BucketRow>, group_by: UsageGroupBy) -> (groups: Vec<UsageGroup>)
    ensures
        groups@ == groups_of(grouped(hours_of_all(bucket_views(rows@)), group_by)),
{
    let hours = aggregate_hours(rows);
    group_hours(&hours, group_by)
}

/// Counters by entry. Every row of a known counter adds once, whatever its hour.
pub open spec fn entry_counters(rows: Seq<BucketView>) -> Map<Seq<char>, Counters>
    decreases rows.len(),
{
    if rows.len() == 0 {
        Map::empty()
    } else {
        let before = entry_counters(rows.drop_last());
        let row = rows.last();
        match named_field(row.field) {
            Some(field) => {
                let held = if before.dom().contains(row.key) {
                    before[row.key]
                } else {
                    no_counters()
                };
                before.insert(
                    row.key,
                    with_field(held, field, capped_sum(field_of(held, field), row.value)),
                )
            },
            None => before,
        }
    }
}

fn entry_totals(rows: &Vec<BucketRow>) -> (totals: TextMap<Counters>)
    ensures
        totals.wf(),
        totals@ == entry_counters(bucket_views(rows@)),
{
    let ghost views = bucket_views(rows@);
    let mut totals: TextMap<Counters> = TextMap::new();
    let mut i: usize = 0;
    assert(views.take(0) =~= Seq::<BucketView>::empty());
    while i < rows.len()
        invariant
            i <= rows.len(),
            views == bucket_views(rows@),
            totals.wf(),
            totals@ == entry_counters(views.take(i as int)),
        decreases rows.len() - i,
    {
        let row = &rows[i];
        proof {
            assert(views.take(i + 1).drop_last() =~= views.take(i as int));
            assert(views.take(i + 1).last() == row@);
        }
        if let Some(field) = Field::parse(row.field.as_str()) {
            let held = match totals.get(row.key.as_str()) {
                Some(counters) => *counters,
                None => Counters::zero(),
            };
            let sum: u64 = held.field(field).saturating_add(row.value);
            totals.insert(row.key.clone(), held.set(field, sum));
        }
        i += 1;
    }
    assert(views.take(i as int) =~= views);
    totals
}

/// One entry's sum over all hours.
#[derive(Clone, Debug, PartialEq, Eq)]
pub struct DimensionTotal {
    pub key: String,
    pub totals: UsageTotals,
    pub completions: u64,
}

/// Whether a list holds one total for each entry of a map, in order of the entries.
pub open spec fn lists_totals(list: Seq<DimensionTotal>, counters: Map<Seq<char>, Counters>) -> bool {
    &&& forall|i: int, j: int|
        0 <= i < j < list.len() ==> text_less((#[trigger] list[i]).key@, (#[trigger] list[j]).key@)
    &&& forall|i: int|
        0 <= i < list.len() ==> counters.dom().contains((#[trigger] list[i]).key@) && list[i].totals
            == counters_usage(counters[list[i].key@]) && list[i].completions
            == counters[list[i].key@].completions
    &&& forall|key: Seq<char>| #[trigger]
        counters.dom().contains(key) ==> exists|i: int| 0 <= i < list.len() && (#[trigger] list[i]).key@ == key
}

/// Sums rows into a total for each entry, in order of the entries.
pub fn dimension_totals(rows: &Vec<BucketRow>) -> (list: Vec<DimensionTotal>)
    ensures
        lists_totals(list@, entry_counters(bucket_views(rows@))),
{
    let map = entry_totals(rows);
    let mut list: Vec<DimensionTotal> = Vec::new();
    let mut i: usize = 0;
    while i < map.entries.len()
        invariant
            i <= map.entries.len(),
            list@.len() == i,
            forall|j: int|
                0 <= j < i ==> (#[trigger] list@[j]).key@ == map.entries@[j].0@ && list@[j].totals
                    == counters_usage(map.entries@[j].1) && list@[j].completions
                    == map.entries@[j].1.completions,
        decreases map.entries.len() - i,
    {
        let (totals, completions) = totals_of(&map.entries[i].1);
        list.push(DimensionTotal { key: map.entries[i].0.clone(), totals, completions });
        i += 1;
    }
    proof {
        let counters = map@;
        assert forall|j: int| 0 <= j < list@.len() implies counters.dom().contains(
            (#[trigger] list@[j]).key@,
        ) && counters[list@[j].key@] == map.entries@[j].1 by {
            key_index_unique(map.entries@, j);
        }
        assert forall|a: int, b: int| 0 <= a < b < list@.len() implies text_less(
            (#[trigger] list@[a]).key@,
            (#[trigger] list@[b]).key@,
        ) by {
            assert(text_less(map.entries@[a].0@, map.entries@[b].0@));
        }
        assert forall|key: Seq<char>| #[trigger] counters.dom().contains(key) implies exists|j: int|
            0 <= j < list@.len() && (#[trigger] list@[j]).key@ == key by {
            let j = key_index(map.entries@, key);
            assert(map.entries@[j].0@ == key);
            assert(list@[j].key@ == key);
        }
    }
    list
}

// ---------------------------------------------------------------------------------------------
// Laws
// ---------------------------------------------------------------------------------------------

/// Completions over hours.
pub open spec fn hour_completions(hours: Seq<(i64, Counters)>) -> nat
    decreases hours.len(),
{
    if hours.len() == 0 {
        0
    } else {
        hour_completions(hours.drop_last()) + hours.last().1.completions as nat
    }
}

/// Completions over groups.
pub open spec fn group_completions(groups: Seq<(i64, UsageGroup)>) -> nat
    decreases groups.len(),
{
    if groups.len() == 0 {
        0
    } else {
        group_completions(groups.drop_last()) + groups.last().1.completions as nat
    }
}

proof fn completions_of_update(groups: Seq<(i64, UsageGroup)>, at: int, row: (i64, UsageGroup))
    requires
        0 <= at < groups.len(),
    ensures
        group_completions(groups.update(at, row)) == group_completions(groups)
            - groups[at].1.completions + row.1.completions,
        groups[at].1.completions <= group_completions(groups),
    decreases groups.len(),
{
    let after = groups.update(at, row);
    if at == groups.len() - 1 {
        assert(after.drop_last() =~= groups.drop_last());
    } else {
        assert(after.drop_last() =~= groups.drop_last().update(at, row));
        completions_of_update(groups.drop_last(), at, row);
    }
}

proof fn completions_of_insert(groups: Seq<(i64, UsageGroup)>, at: int, row: (i64, UsageGroup))
    requires
        0 <= at <= groups.len(),
    ensures
        group_completions(groups.insert(at, row)) == group_completions(groups) + row.1.completions,
    decreases groups.len(),
{
    let after = groups.insert(at, row);
    if at == groups.len() {
        assert(after.drop_last() =~= groups);
    } else {
        assert(after.drop_last() =~= groups.drop_last().insert(at, row));
        completions_of_insert(groups.drop_last(), at, row);
    }
}

proof fn groups_in_order(hours: Seq<(i64, Counters)>, group_by: UsageGroupBy)
    ensures
        numbers_ascend(grouped(hours, group_by)),
    decreases hours.len(),
{
    if hours.len() > 0 {
        groups_in_order(hours.drop_last(), group_by);
        let before = grouped(hours.drop_last(), group_by);
        let slot = group_at(before, hours.last().0, group_by);
        let c = hours.last().1;
        crate::hours::put_keeps_order(
            before,
            group_second(hours.last().0, group_by),
            UsageGroup {
                totals: with_usage(slot.totals, counters_usage(c).usage, c.cost),
                completions: capped_sum(slot.completions, c.completions),
                ..slot
            },
        );
    }
}

/// Every hour counts in exactly one group: as long as the sum fits a counter, the groups hold as
/// many completions as the hours.
pub proof fn groups_keep_completions(hours: Seq<(i64, Counters)>, group_by: UsageGroupBy)
    requires
        hour_completions(hours) <= u64::MAX,
    ensures
        group_completions(grouped(hours, group_by)) == hour_completions(hours),
    decreases hours.len(),
{
    if hours.len() > 0 {
        let rest = hours.drop_last();
        groups_keep_completions(rest, group_by);
        groups_in_order(rest, group_by);
        let before = grouped(rest, group_by);
        let (hour, c) = hours.last();
        let number = group_second(hour, group_by);
        let at = place(before, number);
        place_marks(before, number);
        let slot = group_at(before, hour, group_by);
        let row = (
            number,
            UsageGroup {
                totals: with_usage(slot.totals, counters_usage(c).usage, c.cost),
                completions: capped_sum(slot.completions, c.completions),
                ..slot
            },
        );
        if at < before.len() && before[at].0 == number {
            completions_of_update(before, at, row);
        } else {
            completions_of_insert(before, at, row);
        }
    }
}

/// Completions over the hours whose group starts at an instant.
pub open spec fn completions_from(hours: Seq<(i64, Counters)>, start: Timestamp, group_by: UsageGroupBy) -> nat
    decreases hours.len(),
{
    if hours.len() == 0 {
        0
    } else {
        completions_from(hours.drop_last(), start, group_by) + if start_of_group(
            hour_moment(hours.last().0),
            group_by,
        ) == start {
            hours.last().1.completions as nat
        } else {
            0
        }
    }
}

proof fn starts_are_whole_seconds(hour: i64, group_by: UsageGroupBy)
    ensures
        ({
            let start = start_of_group(hour_moment(hour), group_by);
            &&& start.nanos as int % 1_000_000_000 == 0
            &&& start.nanos == group_second(hour, group_by) * 1_000_000_000
        }),
{
    let at = hour_moment(hour);
    let start = start_of_group(at, group_by);
    let first = first_day(day_of(at.nanos as int), group_by);
    assert((first * 86_400_000_000_000) % 1_000_000_000 == 0) by (nonlinear_arith);
    assert(at.nanos as int % 1_000_000_000 == 0);
    assert(start.nanos as int % 1_000_000_000 == 0);
}

proof fn group_holds(hours: Seq<(i64, Counters)>, start: Timestamp, second: i64, group_by: UsageGroupBy)
    requires
        start.nanos == second * 1_000_000_000,
    ensures
        match row_of(grouped(hours, group_by), second) {
            Some(group) => {
                &&& group.start == start
                &&& group.end == end_of_group(start, group_by)
                &&& group.completions == if completions_from(hours, start, group_by) <= u64::MAX {
                    completions_from(hours, start, group_by)
                } else {
                    u64::MAX as nat
                }
            },
            None => completions_from(hours, start, group_by) == 0,
        },
    decreases hours.len(),
{
    if hours.len() > 0 {
        let rest = hours.drop_last();
        let (hour, c) = hours.last();
        group_holds(rest, start, second, group_by);
        groups_in_order(rest, group_by);
        starts_are_whole_seconds(hour, group_by);
        let before = grouped(rest, group_by);
        let slot = group_at(before, hour, group_by);
        crate::hours::put_rows_are_found(
            before,
            group_second(hour, group_by),
            UsageGroup {
                totals: with_usage(slot.totals, counters_usage(c).usage, c.cost),
                completions: capped_sum(slot.completions, c.completions),
                ..slot
            },
            second,
        );
    }
}

/// A group counts the hours that start in it and no others: its completions are their sum, which
/// stops at the largest counter.
pub proof fn groups_count_their_hours(hours: Seq<(i64, Counters)>, group_by: UsageGroupBy, i: int)
    requires
        0 <= i < grouped(hours, group_by).len(),
    ensures
        ({
            let group = groups_of(grouped(hours, group_by))[i];
            let sum = completions_from(hours, group.start, group_by);
            &&& group.end == end_of_group(group.start, group_by)
            &&& group.completions == if sum <= u64::MAX {
                sum
            } else {
                u64::MAX as nat
            }
        }),
{
    let groups = grouped(hours, group_by);
    groups_in_order(hours, group_by);
    let second = groups[i].0;
    place_marks(groups, second);
    if place(groups, second) < i {
        assert(groups[place(groups, second)].0 < groups[i].0);
    }
    assert(row_of(groups, second) == Some(groups[i].1));
    group_keys(hours, group_by, i);
    group_holds(hours, groups[i].1.start, second, group_by);
}

proof fn group_keys(hours: Seq<(i64, Counters)>, group_by: UsageGroupBy, i: int)
    requires
        0 <= i < grouped(hours, group_by).len(),
    ensures
        grouped(hours, group_by)[i].1.start.nanos == grouped(hours, group_by)[i].0 * 1_000_000_000,
    decreases hours.len(),
{
    if hours.len() > 0 {
        let rest = hours.drop_last();
        let (hour, c) = hours.last();
        let before = grouped(rest, group_by);
        let number = group_second(hour, group_by);
        let at = place(before, number);
        groups_in_order(rest, group_by);
        place_marks(before, number);
        starts_are_whole_seconds(hour, group_by);
        let after = grouped(hours, group_by);
        if at < before.len() && before[at].0 == number {
            group_keys(rest, group_by, i);
        } else if i < at {
            group_keys(rest, group_by, i);
            assert(after[i] == before[i]);
        } else if i > at {
            group_keys(rest, group_by, i - 1);
            assert(after[i] == before[i - 1]);
        }
    }
}

/// The totals of counters are the counters of the same names.
pub proof fn totals_are_the_counters(counters: Counters, sums: (UsageTotals, u64))
    requires
        call_ensures(totals_of, (&counters,), sums),
    ensures
        sums.0.usage.input_tokens == counters.input,
        sums.0.usage.cached_input_tokens == counters.cached,
        sums.0.usage.cache_write_input_tokens == counters.cache_write,
        sums.0.usage.output_tokens == counters.output,
        sums.0.usage.reasoning_output_tokens == counters.reasoning,
        sums.0.usage.total_tokens == counters.total,
        sums.0.cost_micros == counters.cost,
        sums.1 == counters.completions,
{
}

proof fn key_hours_in_order(rows: Seq<BucketView>, key: Seq<char>)
    ensures
        numbers_ascend(hours_of_key(rows, key)),
    decreases rows.len(),
{
    if rows.len() > 0 {
        let before = hours_of_key(rows.drop_last(), key);
        key_hours_in_order(rows.drop_last(), key);
        let row = rows.last();
        if let Some(field) = named_field(row.field) {
            crate::hours::put_keeps_order(
                before,
                row.hour,
                with_field(counters_at(before, row.hour), field, row.value),
            );
        }
    }
}

proof fn all_hours_in_order(rows: Seq<BucketView>)
    ensures
        numbers_ascend(hours_of_all(rows)),
    decreases rows.len(),
{
    if rows.len() > 0 {
        let before = hours_of_all(rows.drop_last());
        all_hours_in_order(rows.drop_last());
        let row = rows.last();
        if let Some(field) = named_field(row.field) {
            let held = counters_at(before, row.hour);
            crate::hours::put_keeps_order(
                before,
                row.hour,
                with_field(held, field, capped_sum(field_of(held, field), row.value)),
            );
        }
    }
}

/// A further row of a key sets the counter that it names in its own hour, and touches nothing else; a
/// row of another key, or with an unknown name, touches nothing at all.
pub proof fn rows_set_their_own_counter(rows: Seq<BucketView>, row: BucketView, key: Seq<char>, hour: i64, field: Field)
    ensures
        ({
            let before = field_of(counters_at(hours_of_key(rows, key), hour), field);
            let after = field_of(counters_at(hours_of_key(rows.push(row), key), hour), field);
            &&& row.key == key && row.hour == hour && named_field(row.field) == Some(field) ==> after == row.value
            &&& row.key != key || row.hour != hour || named_field(row.field) != Some(field) ==> after == before
        }),
{
    let before = hours_of_key(rows, key);
    assert(rows.push(row).drop_last() =~= rows);
    key_hours_in_order(rows, key);
    if let Some(named) = named_field(row.field) {
        if row.key == key {
            let next = with_field(counters_at(before, row.hour), named, row.value);
            crate::hours::put_rows_are_found(before, row.hour, next, hour);
        }
    }
}

/// Over all keys, a further row adds to the counter that it names in its own hour, up to the end of
/// the range, and touches nothing else.
pub proof fn rows_add_to_their_own_counter(rows: Seq<BucketView>, row: BucketView, hour: i64, field: Field)
    ensures
        ({
            let before = field_of(counters_at(hours_of_all(rows), hour), field);
            let after = field_of(counters_at(hours_of_all(rows.push(row)), hour), field);
            &&& row.hour == hour && named_field(row.field) == Some(field) ==> after == before + row.value
                || after == u64::MAX < before + row.value
            &&& row.hour != hour || named_field(row.field) != Some(field) ==> after == before
        }),
{
    let before = hours_of_all(rows);
    assert(rows.push(row).drop_last() =~= rows);
    all_hours_in_order(rows);
    if let Some(named) = named_field(row.field) {
        let held = counters_at(before, row.hour);
        let next = with_field(held, named, capped_sum(field_of(held, named), row.value));
        crate::hours::put_rows_are_found(before, row.hour, next, hour);
    }
}

/// A further row adds to the counter that it names of its own entry, and touches no other entry and
/// no other counter.
pub proof fn rows_add_to_their_own_entry(rows: Seq<BucketView>, row: BucketView, key: Seq<char>, field: Field)
    ensures
        ({
            let before = entry_counters(rows);
            let after = entry_counters(rows.push(row));
            let held = if before.dom().contains(key) {
                field_of(before[key], field)
            } else {
                0
            };
            &&& row.key == key && named_field(row.field) == Some(field) ==> after.dom().contains(key) && (
            field_of(after[key], field) == held + row.value || field_of(after[key], field) == u64::MAX < held
                + row.value)
            &&& row.key == key && named_field(row.field) != Some(field) && after.dom().contains(key)
                ==> field_of(after[key], field) == held
            &&& row.key != key ==> (after.dom().contains(key) <==> before.dom().contains(key))
            &&& row.key != key && before.dom().contains(key) ==> after[key] == before[key]
        }),
{
    assert(rows.push(row).drop_last() =~= rows);
}

/// The totals of an entry are its counters of the same names, and the entries come in order.
pub proof fn listed_totals_are_the_counters(rows: Vec<BucketRow>, list: Vec<DimensionTotal>)
    requires
        call_ensures(dimension_totals, (&rows,), list),
    ensures
        rows@.len() == 0 ==> list@.len() == 0,
        forall|i: int, j: int|
            0 <= i < j < list@.len() ==> text_less((#[trigger] list@[i]).key@, (#[trigger] list@[j]).key@),
        forall|i: int|
            0 <= i < list@.len() ==> ({
                let found = #[trigger] list@[i];
                let held = entry_counters(bucket_views(rows@))[found.key@];
                &&& found.totals.usage.input_tokens == held.input
                &&& found.totals.usage.cached_input_tokens == held.cached
                &&& found.totals.usage.cache_write_input_tokens == held.cache_write
                &&& found.totals.usage.output_tokens == held.output
                &&& found.totals.usage.reasoning_output_tokens == held.reasoning
                &&& found.totals.usage.total_tokens == held.total
                &&& found.totals.cost_micros == held.cost
                &&& found.completions == held.completions
            }),
{
    if rows@.len() == 0 && list@.len() > 0 {
        assert(bucket_views(rows@).len() == 0);
        assert(entry_counters(bucket_views(rows@)).dom().contains(list@[0].key@));
    }
}

/// A further hour adds its counters to the group that it lies in, counter by counter, and leaves
/// every other group as it was.
pub proof fn hours_add_to_their_own_group(hours: Seq<(i64, Counters)>, hour: i64, counters: Counters, group_by: UsageGroupBy, other: i64)
    ensures
        ({
            let before = group_at(grouped(hours, group_by), hour, group_by);
            let groups = grouped(hours.push((hour, counters)), group_by);
            let number = group_second(hour, group_by);
            &&& row_of(groups, number) matches Some(after) && after.start == before.start && after.end == before.end
                && adds_up(
                after.totals,
                before.totals,
                TokenUsage {
                    input_tokens: counters.input,
                    cached_input_tokens: counters.cached,
                    cache_write_input_tokens: counters.cache_write,
                    output_tokens: counters.output,
                    reasoning_output_tokens: counters.reasoning,
                    total_tokens: counters.total,
                },
                counters.cost,
            ) && (after.completions == before.completions + counters.completions || after.completions
                == u64::MAX < before.completions + counters.completions)
            &&& other != number ==> row_of(groups, other) == row_of(grouped(hours, group_by), other)
        }),
{
    let all = hours.push((hour, counters));
    assert(all.drop_last() =~= hours);
    let groups = grouped(hours, group_by);
    groups_in_order(hours, group_by);
    let slot = group_at(groups, hour, group_by);
    let next = UsageGroup {
        totals: with_usage(slot.totals, counters_usage(counters).usage, counters.cost),
        completions: capped_sum(slot.completions, counters.completions),
        ..slot
    };
    crate::hours::put_rows_are_found(groups, group_second(hour, group_by), next, other);
}

/// The usage of one hour is one group that holds the hour's counters.
pub proof fn one_hour_is_one_group(hours: HourMap<Counters>, group_by: UsageGroupBy, groups: Vec<UsageGroup>)
    requires
        hours.entries@.len() == 1,
        call_ensures(group_hours, (&hours, group_by), groups),
    ensures
        groups@.len() == 1,
        groups@[0].totals.usage.input_tokens == hours.entries@[0].1.input,
        groups@[0].totals.usage.cached_input_tokens == hours.entries@[0].1.cached,
        groups@[0].totals.usage.cache_write_input_tokens == hours.entries@[0].1.cache_write,
        groups@[0].totals.usage.output_tokens == hours.entries@[0].1.output,
        groups@[0].totals.usage.reasoning_output_tokens == hours.entries@[0].1.reasoning,
        groups@[0].totals.usage.total_tokens == hours.entries@[0].1.total,
        groups@[0].totals.cost_micros == hours.entries@[0].1.cost,
        groups@[0].completions == hours.entries@[0].1.completions,
        groups@[0].end == end_of_group(groups@[0].start, group_by),
        groups@[0].start == start_of_group(hour_moment(hours.entries@[0].0), group_by),
{
    reveal_with_fuel(grouped, 2);
    assert(hours.entries@.drop_last() =~= Seq::empty());
}

/// Usage of a key, or of all keys, is the grouping of its hours: the same groups come out as from the
/// hours themselves.
pub proof fn usage_is_by_hours(
    rows: Vec<BucketRow>,
    key: &str,
    group_by: UsageGroupBy,
    own: HourMap<Counters>,
    all: HourMap<Counters>,
    own_groups: Vec<UsageGroup>,
    all_groups: Vec<UsageGroup>,
    found: Vec<UsageGroup>,
    summed: Vec<UsageGroup>,
)
    requires
        call_ensures(bucket_hours, (&rows, key), own),
        call_ensures(aggregate_hours, (&rows,), all),
        call_ensures(group_hours, (&own, group_by), own_groups),
        call_ensures(group_hours, (&all, group_by), all_groups),
        call_ensures(usage, (&rows, key, group_by), found),
        call_ensures(usage_aggregate, (&rows, group_by), summed),
    ensures
        found@ == own_groups@,
        summed@ == all_groups@,
{
}

/// A window of time begins in its first hour and ends in its last; both are whole hours.
pub proof fn windows_reach_from_hour_to_hour(from: Timestamp, to: Timestamp, window: Option<(i64, i64)>)
    requires
        from.valid(),
        to.valid(),
        call_ensures(hour_window, (from, to), window),
    ensures
        window is None <==> to.nanos <= from.nanos,
        window matches Some((first, last)) ==> {
            &&& first % 3_600 == 0 && last % 3_600 == 0 && first <= last
            &&& first * 1_000_000_000 <= from.nanos < (first + 3_600) * 1_000_000_000
            &&& last * 1_000_000_000 < to.nanos <= (last + 3_600) * 1_000_000_000
        },
{
}

} // verus!
