//! Metering keys, hours, groups, quotas and pruning.

use foundationdb_tuple::Subspace;
use swarmy_store::calendar::{group_end, group_start, UsageGroupBy};
use swarmy_store::events::TokenUsage;
use swarmy_store::metering::{
    bucket_deltas, bucket_key, counter, entry_key, hour_floor, is_combined, owner_hour_range,
    read_bucket, single_hour_range, split_combined_key, unknown_entry_key, BucketRow, Field,
    MeteringDimension,
};
use swarmy_store::metering_prune::{
    cutoff_hour_range, hours_before_range, indexed_request, legacy_begin, legacy_wanted,
    prune_index_hour_exact, prune_legacy_raw, prune_next, prune_start, PruneStage,
};
use swarmy_store::metering_reads::{
    aggregate_hours, bucket_hours, dimension_totals, hour_window, usage, usage_aggregate,
};
use swarmy_store::quota::{
    completions_fit, entry_quota, observe_entry_quota, parse_window, quota_from, requests_remaining,
    tokens_remaining, ObservedQuota, QuotaConfig, QuotaSource,
};
use swarmy_store::textmap::TextMap;
use swarmy_store::time::Timestamp;
use swarmy_store::error::StoreError;

/// The single-dimension hour slice holds exactly its hours across every key.
#[test]
fn single_hour_slice_excludes_rows_outside_its_hours() {
    let root = Subspace::all();
    let row = |dimension: &str, hour: i64, key: &str| {
        root.pack(&("metering_hour", dimension, hour, key, "input"))
    };
    let (begin, end) = single_hour_range(&Vec::new(), "agent", 3_600, 7_200);
    for hour in [3_600, 7_200] {
        for key in ["a", "z"] {
            let packed = row("agent", hour, key);
            assert!(begin <= packed && packed < end, "{hour}/{key}");
        }
    }
    for hour in [0, 3_600 - 3_600, 7_200 + 3_600, 100_000_000] {
        let packed = row("agent", hour, "a");
        assert!(packed < begin || packed >= end, "{hour}");
    }
    for dimension in ["session", "agent_entry"] {
        let packed = row(dimension, 2_000, "a");
        assert!(packed < begin || packed >= end, "{dimension}");
    }
    // Growing history outside the window never enters the slice.
    let (again, _) = single_hour_range(&Vec::new(), "agent", 3_600, 7_200);
    assert_eq!(begin, again);
}

/// One owner's slice of a combined dimension holds exactly that owner's rows in the hours.
#[test]
fn owner_hour_slice_excludes_other_owners_and_hours() {
    let root = Subspace::all();
    let row = |owner: &str, hour: i64, entry: &str| {
        root.pack(&("metering_hour", "agent_entry", owner, hour, entry, "cost"))
    };
    let (begin, end) =
        owner_hour_range(&Vec::new(), "agent_entry", "owner-a", Some((3_600, 7_200)));
    for hour in [3_600, 7_200] {
        for entry in ["openai/main", "openai/-"] {
            let packed = row("owner-a", hour, entry);
            assert!(begin <= packed && packed < end, "{hour}/{entry}");
        }
    }
    for owner in ["owner-b", "owner-a2", "owner"] {
        let packed = row(owner, 3_600, "openai/main");
        assert!(packed < begin || packed >= end, "{owner}");
    }
    for hour in [0, 7_200 + 3_600, 100_000_000] {
        let packed = row("owner-a", hour, "openai/main");
        assert!(packed < begin || packed >= end, "{hour}");
    }
    // Without a window the slice is still exactly one owner's rows.
    let (all_begin, all_end) = owner_hour_range(&Vec::new(), "agent_entry", "owner-a", None);
    for hour in [0, 1_000, 10_000_000] {
        let packed = row("owner-a", hour, "openai/main");
        assert!(all_begin <= packed && packed < all_end, "{hour}");
    }
    let packed = row("owner-b", 1_000, "openai/main");
    assert!(packed < all_begin || packed >= all_end);
}

#[test]
fn combined_keys_split_owner_from_entry() {
    assert_eq!(
        split_combined_key("owner/openai/main"),
        Ok(("owner".into(), "openai/main".into()))
    );
    assert_eq!(
        split_combined_key("owner/openai/-"),
        Ok(("owner".into(), "openai/-".into()))
    );
    assert!(split_combined_key("owner").is_err());
    assert_eq!(unknown_entry_key("openai"), "openai/-");
}

fn stamp(year: i16, month: i8, day: i8, hour: i8) -> Timestamp {
    let at = jiff::civil::date(year, month, day)
        .at(hour, 0, 0, 0)
        .to_zoned(jiff::tz::TimeZone::UTC)
        .unwrap()
        .timestamp();
    Timestamp { nanos: at.as_nanosecond() }
}

#[test]
fn day_week_month_and_year_groups_have_expected_boundaries() {
    let moment = stamp(2026, 3, 15, 12);
    assert_eq!(
        group_start(moment, UsageGroupBy::Day),
        stamp(2026, 3, 15, 0)
    );
    assert_eq!(
        group_end(stamp(2026, 3, 15, 0), UsageGroupBy::Day),
        stamp(2026, 3, 16, 0)
    );
    assert_eq!(
        group_start(moment, UsageGroupBy::Month),
        stamp(2026, 3, 1, 0)
    );
    assert_eq!(
        group_end(stamp(2026, 3, 1, 0), UsageGroupBy::Month),
        stamp(2026, 4, 1, 0)
    );
    assert_eq!(
        group_start(moment, UsageGroupBy::Year),
        stamp(2026, 1, 1, 0)
    );
    assert_eq!(
        group_end(stamp(2026, 1, 1, 0), UsageGroupBy::Year),
        stamp(2027, 1, 1, 0)
    );
}

#[test]
fn week_groups_start_monday_and_cross_months_as_one_group() {
    // 2026-03-01 is a Sunday; its week starts Monday 2026-02-23.
    let sunday = stamp(2026, 3, 1, 10);
    assert_eq!(
        group_start(sunday, UsageGroupBy::Week),
        stamp(2026, 2, 23, 0)
    );
    assert_eq!(
        group_end(stamp(2026, 2, 23, 0), UsageGroupBy::Week),
        stamp(2026, 3, 2, 0)
    );
    let monday = stamp(2026, 3, 2, 0);
    assert_eq!(group_start(monday, UsageGroupBy::Week), monday);
}

#[test]
fn three_month_range_groups_cover_every_calendar_month() {
    let start = stamp(2026, 1, 15, 0);
    let end = stamp(2026, 4, 15, 0);
    let mut cursor = group_start(start, UsageGroupBy::Month);
    let mut months = Vec::new();
    while cursor < end {
        let next = group_end(cursor, UsageGroupBy::Month);
        months.push(cursor);
        cursor = next;
    }
    assert_eq!(
        months,
        vec![
            stamp(2026, 1, 1, 0),
            stamp(2026, 2, 1, 0),
            stamp(2026, 3, 1, 0),
            stamp(2026, 4, 1, 0),
        ]
    );
}

#[test]
fn groups_hold_their_moments_before_1970_too() {
    for moment in [stamp(1969, 12, 31, 23), stamp(1900, 2, 28, 1), stamp(2024, 2, 29, 5)] {
        for by in [UsageGroupBy::Day, UsageGroupBy::Week, UsageGroupBy::Month, UsageGroupBy::Year] {
            let start = group_start(moment, by);
            let end = group_end(start, by);
            assert!(start <= moment && moment < end, "{by:?}");
            assert_eq!(group_start(start, by), start);
        }
    }
    // 1969-12-31 is a Wednesday.
    assert_eq!(group_start(stamp(1969, 12, 31, 23), UsageGroupBy::Week), stamp(1969, 12, 29, 0));
}

#[test]
fn window_strings_parse_to_seconds() {
    assert_eq!(parse_window("30s"), Some(30));
    assert_eq!(parse_window("5h"), Some(18_000));
    assert_eq!(parse_window("7d"), Some(604_800));
    assert_eq!(parse_window("2w"), Some(1_209_600));
    assert_eq!(parse_window("5x"), None);
    assert_eq!(parse_window("h"), None);
    assert_eq!(parse_window(""), None);
    assert_eq!(parse_window("5é"), None);
    assert_eq!(parse_window("é"), None);
    assert_eq!(parse_window(" 5h "), Some(18_000));
}

#[test]
fn window_numbers_that_do_not_fit_are_refused() {
    assert_eq!(parse_window("18446744073709551615s"), Some(u64::MAX));
    assert_eq!(parse_window("18446744073709551616s"), None);
    assert_eq!(parse_window("18446744073709551615m"), None);
    assert_eq!(parse_window("3m"), Some(180));
}

#[test]
fn hours_round_down_on_both_sides_of_zero() {
    assert_eq!(hour_floor(0), 0);
    assert_eq!(hour_floor(3_599), 0);
    assert_eq!(hour_floor(3_600), 3_600);
    assert_eq!(hour_floor(-1), -3_600);
    assert_eq!(hour_floor(-3_600), -3_600);
}

#[test]
fn dimension_names_read_back() {
    for dimension in [
        MeteringDimension::Session,
        MeteringDimension::Agent,
        MeteringDimension::Provider,
        MeteringDimension::Entry,
        MeteringDimension::EntryKind,
        MeteringDimension::Model,
    ] {
        assert_eq!(MeteringDimension::parse(dimension.as_str()), Some(dimension));
        assert!(!is_combined(dimension));
    }
    assert_eq!(MeteringDimension::parse("kind"), Some(MeteringDimension::EntryKind));
    assert_eq!(MeteringDimension::parse("agent_entry"), None);
    assert_eq!(MeteringDimension::AgentEntry.as_str(), "agent_entry");
    assert!(is_combined(MeteringDimension::AgentEntry));
    assert!(is_combined(MeteringDimension::SessionEntry));
    assert_eq!(entry_key("openai", "main"), "openai/main");
}

#[test]
fn counters_read_short_and_long_rows() {
    assert_eq!(counter(&vec![]), 0);
    assert_eq!(counter(&vec![1]), 1);
    assert_eq!(counter(&vec![0, 1]), 256);
    assert_eq!(counter(&vec![255; 8]), u64::MAX);
    assert_eq!(counter(&vec![1, 0, 0, 0, 0, 0, 0, 0, 9]), 1);
}

fn used(input: u64, output: u64) -> TokenUsage {
    TokenUsage {
        input_tokens: input,
        cached_input_tokens: 0,
        cache_write_input_tokens: 0,
        output_tokens: output,
        reasoning_output_tokens: 0,
        total_tokens: input + output,
    }
}

#[test]
fn one_completion_adds_only_what_changes() {
    assert_eq!(
        bucket_deltas(&used(3, 4), 0),
        vec![(Field::Input, 3), (Field::Output, 4), (Field::Total, 7), (Field::Completions, 1)]
    );
    assert_eq!(bucket_deltas(&used(0, 0), 9), vec![(Field::Cost, 9), (Field::Completions, 1)]);
}

#[test]
fn counter_rows_read_back_from_their_keys() {
    let root = vec![7, 8];
    let key = bucket_key(&root, "agent", None, 3_600, "a", Field::Cost);
    assert_eq!(
        key,
        Subspace::from_bytes(&[7, 8][..]).pack(&("metering_hour", "agent", 3_600_i64, "a", "cost"))
    );
    assert_eq!(
        read_bucket(&root, "agent", None, &key, &vec![5]),
        Ok(BucketRow { hour: 3_600, key: "a".into(), field: "cost".into(), value: 5 })
    );
    let key = bucket_key(&root, "agent_entry", Some("o"), -3_600, "p/l", Field::Input);
    assert_eq!(
        read_bucket(&root, "agent_entry", Some("o"), &key, &vec![]),
        Ok(BucketRow { hour: -3_600, key: "p/l".into(), field: "input".into(), value: 0 })
    );
    assert_eq!(
        read_bucket(&root, "agent_entry", Some("other"), &key, &vec![]),
        Err(StoreError::Corrupt)
    );
}

fn row(hour: i64, key: &str, field: &str, value: u64) -> BucketRow {
    BucketRow { hour, key: key.into(), field: field.into(), value }
}

#[test]
fn usage_groups_sum_hours_of_one_key() {
    let day = stamp(2026, 3, 15, 0);
    let hour = (day.nanos / 1_000_000_000) as i64;
    let rows = vec![
        row(hour, "a", "input", 3),
        row(hour, "a", "completions", 1),
        row(hour + 3_600, "a", "input", 4),
        row(hour + 3_600, "b", "input", 100),
        row(hour + 86_400, "a", "output", 9),
        row(hour + 86_400, "a", "unknown", 9),
    ];
    let hours = bucket_hours(&rows, "a");
    assert_eq!(hours.get(hour).unwrap().input, 3);
    assert_eq!(hours.get(hour + 3_600).unwrap().input, 4);
    assert_eq!(aggregate_hours(&rows).get(hour + 3_600).unwrap().input, 104);
    let groups = usage(&rows, "a", UsageGroupBy::Day);
    assert_eq!(groups.len(), 2);
    assert_eq!(groups[0].start, day);
    assert_eq!(groups[0].totals.usage.input_tokens, 7);
    assert_eq!(groups[0].completions, 1);
    assert_eq!(groups[1].totals.usage.output_tokens, 9);
    let all = usage_aggregate(&rows, UsageGroupBy::Month);
    assert_eq!(all.len(), 1);
    assert_eq!(all[0].totals.usage.input_tokens, 107);
}

#[test]
fn dimension_totals_list_every_key() {
    let rows = vec![
        row(0, "b", "cost", 1),
        row(0, "a", "cost", 2),
        row(3_600, "b", "cost", 3),
        row(3_600, "b", "completions", 1),
    ];
    let list = dimension_totals(&rows);
    let shown: Vec<(String, u64, u64)> = list
        .into_iter()
        .map(|total| (total.key, total.totals.cost_micros, total.completions))
        .collect();
    assert_eq!(shown.len(), 2);
    assert!(shown.contains(&("a".into(), 2, 0)));
    assert!(shown.contains(&("b".into(), 4, 1)));
}

#[test]
fn windows_cover_whole_hours() {
    let at = |second: i64| Timestamp::from_second(second).unwrap();
    assert_eq!(hour_window(at(0), at(3_600)), Some((0, 0)));
    assert_eq!(hour_window(at(10), at(3_601)), Some((0, 3_600)));
    assert_eq!(hour_window(at(3_600), at(3_600)), None);
    let past = Timestamp { nanos: 7_200_500_000_000 };
    assert_eq!(hour_window(at(3_600), past), Some((3_600, 7_200)));
    let before = Timestamp { nanos: -500_000_000 };
    assert_eq!(hour_window(before, at(1)), Some((-3_600, 0)));
}

fn texts(list: &[(&str, u64)]) -> TextMap<u64> {
    let mut map = TextMap::new();
    for (key, value) in list {
        map.insert((*key).to_owned(), *value);
    }
    map
}

#[test]
fn quotas_prefer_configured_limits() {
    let now = stamp(2026, 1, 1, 0);
    let remaining = texts(&[("requests-a", 5), ("requests-b", 3), ("tokens", 70)]);
    assert_eq!(requests_remaining(&remaining), Some(3));
    assert_eq!(tokens_remaining(&remaining), Some(70));
    assert_eq!(tokens_remaining(&texts(&[])), None);
    let observed = observe_entry_quota(remaining, texts(&[("r", 60), ("t", 30)]), now).unwrap();
    assert_eq!(observed.window_seconds, Some(30));
    assert!(observe_entry_quota(texts(&[]), texts(&[]), now).is_none());
    let rows = vec![row(0, "k", "completions", 4)];
    let groups = usage(&rows, "k", UsageGroupBy::Day);
    let config = QuotaConfig { limit: 10, window_seconds: 60 };
    let copy = ObservedQuota {
        values: texts(&[("tokens", 70)]),
        resets: texts(&[]),
        window_seconds: None,
        updated_at: now,
    };
    let quota = entry_quota(Some(config), Some(copy), &groups);
    assert_eq!(quota.source, QuotaSource::Configured);
    assert_eq!((quota.used, quota.free, quota.limit), (4, Some(6), Some(10)));
    let over = entry_quota(Some(QuotaConfig { limit: 1, window_seconds: 60 }), None, &groups);
    assert_eq!(over.free, Some(0));
    let seen = entry_quota(None, Some(observed), &groups);
    assert_eq!(seen.source, QuotaSource::Observed);
    assert_eq!(seen.requests_remaining, Some(3));
    assert_eq!(seen.tokens_remaining, Some(70));
    assert_eq!(quota_from(now, 60).nanos, now.nanos - 60_000_000_000);
    assert_eq!(quota_from(now, u64::MAX).nanos, 0);
    assert!(completions_fit(&groups));
}

#[test]
fn quotas_count_every_hour_that_overlaps_the_window() {
    let now = Timestamp { nanos: 7_200_500_000_000 };
    let config = QuotaConfig { limit: 10, window_seconds: 3_600 };
    let (first, last) = hour_window(quota_from(now, config.window_seconds), now).unwrap();
    let stored = [(0, 9), (3_600, 2), (7_200, 3), (10_800, 9)];
    let rows: Vec<BucketRow> = stored
        .iter()
        .filter(|(hour, _)| first <= *hour && *hour <= last)
        .map(|(hour, count)| row(*hour, "k", "completions", *count))
        .collect();
    let quota = entry_quota(Some(config), None, &usage(&rows, "k", UsageGroupBy::Day));
    assert_eq!((quota.used, quota.free), (5, Some(5)));
}

#[test]
fn prunes_go_from_step_to_step_until_the_limit() {
    assert_eq!(prune_next(PruneStage::Start, 0, 5), Some((PruneStage::HoursBefore, 5)));
    assert_eq!(prune_next(PruneStage::HoursBefore, 3, 5), Some((PruneStage::CutoffHour, 2)));
    assert_eq!(prune_next(PruneStage::CutoffHour, 4, 5), Some((PruneStage::Legacy, 1)));
    assert_eq!(prune_next(PruneStage::CutoffHour, 5, 5), None);
    assert_eq!(prune_next(PruneStage::Legacy, 0, 5), None);
}

#[test]
fn pruning_takes_only_hours_before_the_cutoff() {
    let root: Vec<u8> = vec![1];
    let space = Subspace::from_bytes(&[1][..]);
    let id = vec![9_u8; 24];
    let key = |hour: i64| space.pack(&("usage_record_by_time", hour, id.as_slice()));
    let (begin, end) = hours_before_range(&root, 7_200);
    let (exact_begin, exact_end) = cutoff_hour_range(&root, 7_200);
    for hour in [-3_600, 0, 3_600] {
        assert!(begin <= key(hour) && key(hour) < end, "{hour}");
        assert!(key(hour) < exact_begin || exact_end <= key(hour), "{hour}");
    }
    assert!(exact_begin <= key(7_200) && key(7_200) < exact_end);
    assert!(key(7_200) >= end);
    assert!(key(10_800) >= exact_end);
    assert_eq!(indexed_request(&root, &key(3_600)), Ok(id.clone()));
    assert_eq!(
        indexed_request(&root, &space.pack(&("usage_record_by_time", 1_i64))),
        Err(StoreError::Corrupt)
    );
    assert_eq!(indexed_request(&root, &vec![3]), Err(StoreError::Corrupt));
}

#[test]
fn pruning_keeps_records_after_the_cutoff() {
    let at = |second: i64| Timestamp::from_second(second).unwrap();
    assert_eq!(
        prune_index_hour_exact(
            &vec![Some(Some(at(10))), None, Some(None), Some(Some(at(20))), Some(Some(at(30)))],
            at(20)
        ),
        vec![0, 3]
    );
    assert_eq!(prune_start(0, None, at(5)), Err(StoreError::InvalidLimit));
    assert_eq!(prune_start(65, None, at(5)), Err(StoreError::InvalidLimit));
    assert_eq!(prune_start(1, None, at(5)), Ok((at(5), true)));
    assert_eq!(prune_start(1, Some(at(3)), at(5)), Ok((at(3), false)));
    assert!(legacy_wanted(5, at(10), at(20), None));
    assert!(!legacy_wanted(5, at(10), at(20), Some(true)));
    assert!(!legacy_wanted(5, at(30), at(20), None));
    assert_eq!(legacy_begin(vec![1], &None), vec![1]);
    assert_eq!(legacy_begin(vec![1], &Some(vec![2])), vec![2, 0]);
    let plan = prune_legacy_raw(&vec![(vec![1], None), (vec![2], Some(at(1)))]);
    assert_eq!(plan.stale, vec![vec![1]]);
    assert_eq!(plan.cursor, Some(vec![2]));
    assert!(!plan.done);
    assert!(prune_legacy_raw(&vec![]).done);
}
