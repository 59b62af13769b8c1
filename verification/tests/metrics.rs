//! Turn metrics: merging observations, stored layouts and rollups.

use swarmy_store::ids::{MessageId, RequestId, SessionId};
use swarmy_store::metrics::{
    apply_all, apply_one, turn_has_room, ComputerMetric, InferenceMetric, InferenceRow, MetricPatch,
    Millis, Rate, ToolMetric, TurnEvent, TurnStage, TurnSummary, TurnWrite, WaitKind,
};
use swarmy_store::metrics_rollup::{
    agent_turn_metrics, list_turn_metrics_paged, rollup_limit, split_page, turns_fit, RecentTurns,
};
use swarmy_store::metrics_store::{
    completion_patches, decode_inference, decode_record, decode_summary, decode_tool,
    dispatch_patches, has_wait, inference_ids, open_turn, record_turn_metrics, retry_unknown, tool_ids,
    DecodedSummary,
    StoredInferenceMetricV1, StoredTurnMetrics, StoredTurnMetricsV1, SummaryAttempts,
};
use swarmy_store::metrics_turns::{
    assemble_from_summary, assemble_legacy, migrate_legacy, record_fits, summary_ids, StageTiming, TurnMetrics,
};
use swarmy_store::error::StoreError;
use swarmy_store::textmap::TextMap;

/// Stored bytes of a fixed turn in the envelope.
const V1_ENVELOPE_HEX: &str = "0100017301740108617070656e6465640004626f6f74c0843d80897a0101720466616b6508736372697074656400000400000000000000000000000000000000010203";
/// Stored bytes of the same turn from before the envelope existed.
const V1_BARE_HEX: &str = "01017301740108617070656e6465640004626f6f74c0843d80897a0101720466616b6508736372697074656400000400000000000000000000000000000000010203";

type StageFields = (String, Option<String>, String, u64, i64);
type RequestFields = (
    (String, String, String),
    (u64, u64, u64, u64, u64),
    (Option<f64>, Option<f64>, Option<f64>),
    (u32, u32, u32, u32),
    Option<String>,
);
/// No fixed turn has tools or a computer, so their fields are never read.
type TurnFields = (
    (String, String),
    Vec<StageFields>,
    Vec<RequestFields>,
    Vec<()>,
    Option<()>,
    (Option<f64>, Option<f64>, Option<f64>),
    Option<String>,
    (u64, u64, u64),
);

fn hex_to_bytes(hex: &str) -> Vec<u8> {
    let hex: String = hex.chars().filter(|c| !c.is_whitespace()).collect();
    (0..hex.len())
        .step_by(2)
        .map(|i| u8::from_str_radix(&hex[i..i + 2], 16).unwrap())
        .collect()
}

fn nanos(millis: Option<f64>) -> Option<i64> {
    millis.map(|millis| (millis * 1_000_000.0) as i64)
}

fn turn_of(fields: TurnFields) -> StoredTurnMetricsV1 {
    let ((session_id, turn_id), stages, inference, _, _, durations, error, dropped) = fields;
    StoredTurnMetricsV1 {
        session_id,
        turn_id,
        stages: stages
            .into_iter()
            .map(|(stage, request_id, clock_id, monotonic_ns, unix_ns)| StageTiming {
                stage,
                request_id,
                clock_id,
                monotonic_ns,
                unix_ns,
            })
            .collect(),
        inference: inference
            .into_iter()
            .map(|(names, counts, timings, waits, error)| StoredInferenceMetricV1 {
                request_id: names.0,
                provider: names.1,
                model: names.2,
                input_tokens: counts.0,
                cached_input_tokens: counts.1,
                output_tokens: counts.2,
                reasoning_tokens: counts.3,
                cost_micros: counts.4,
                time_to_first_token_ns: nanos(timings.0),
                streaming_duration_ns: nanos(timings.1),
                output_rate: None,
                retries: waits.0,
                rate_limit_waits: waits.1,
                gateway_waits: waits.2,
                provider_failures: waits.3,
                error,
            })
            .collect(),
        tools: vec![],
        computer: None,
        append_to_first_token_ns: nanos(durations.0),
        inference_duration_ns: nanos(durations.1),
        append_to_idle_ns: nanos(durations.2),
        error,
        dropped_stages: dropped.0,
        dropped_inference: dropped.1,
        dropped_tools: dropped.2,
    }
}

fn whole<T: serde::de::DeserializeOwned>(bytes: &[u8]) -> Option<T> {
    // The first byte is the version of the encoding.
    if bytes.first() != Some(&1) {
        return None;
    }
    match postcard::take_from_bytes(&bytes[1..]) {
        Ok((value, rest)) if rest.is_empty() => Some(value),
        _ => None,
    }
}

fn attempts(bytes: &[u8]) -> SummaryAttempts {
    let envelope = match whole::<(u8, TurnFields)>(bytes) {
        Some((0, fields)) => Some(StoredTurnMetrics::V1(turn_of(fields))),
        _ => None,
    };
    SummaryAttempts { envelope, bare: whole::<TurnFields>(bytes).map(turn_of), api: None }
}

#[test]
fn versioned_envelope_decodes_checked_in_v1_bytes() {
    for hex in [V1_ENVELOPE_HEX, V1_BARE_HEX] {
        let record = decode_record(attempts(&hex_to_bytes(hex))).unwrap().unwrap();
        assert_eq!(record.session_id, "s");
        assert_eq!(record.turn_id, "t");
        assert_eq!(record.dropped_stages, 1);
        assert_eq!(record.dropped_inference, 2);
        assert_eq!(record.dropped_tools, 3);
        assert_eq!(record.inference[0].provider, "fake");
    }
    // The envelope adds a discriminant, so its bytes differ from the bare struct they supersede.
    assert_ne!(V1_ENVELOPE_HEX, V1_BARE_HEX);
}

fn fixture_v1() -> StoredTurnMetricsV1 {
    StoredTurnMetricsV1 {
        session_id: "s".into(),
        turn_id: "t".into(),
        stages: vec![StageTiming {
            stage: "appended".into(),
            request_id: None,
            clock_id: "boot".into(),
            monotonic_ns: 1_000_000,
            unix_ns: 1_000_000,
        }],
        inference: vec![StoredInferenceMetricV1 {
            request_id: "r".into(),
            provider: "fake".into(),
            model: "scripted".into(),
            input_tokens: 0,
            cached_input_tokens: 0,
            output_tokens: 4,
            reasoning_tokens: 0,
            cost_micros: 0,
            time_to_first_token_ns: None,
            streaming_duration_ns: None,
            output_rate: None,
            retries: 0,
            rate_limit_waits: 0,
            gateway_waits: 0,
            provider_failures: 0,
            error: None,
        }],
        tools: vec![],
        computer: None,
        append_to_first_token_ns: None,
        inference_duration_ns: None,
        append_to_idle_ns: None,
        error: None,
        dropped_stages: 1,
        dropped_inference: 2,
        dropped_tools: 3,
    }
}

#[test]
fn stored_layout_round_trips_and_converts_to_the_api_type() {
    let stored = StoredTurnMetrics::from_api(StoredTurnMetrics::V1(fixture_v1()).into_api());
    assert_eq!(stored, StoredTurnMetrics::V1(fixture_v1()));
    let bytes = hex_to_bytes(V1_ENVELOPE_HEX);
    assert_eq!(attempts(&bytes).envelope, Some(stored.clone()));
    let api = stored.into_api();
    assert_eq!(api.session_id, "s");
    assert_eq!(api.dropped_stages, 1);
    assert_eq!(api.dropped_inference, 2);
    assert_eq!(api.dropped_tools, 3);
}

#[test]
fn v2_summary_and_rows_round_trip() {
    let mut summary = TurnSummary::blank("s", "t");
    summary.appended_ns = Some(1_000_000);
    summary.idle_ns = Some(6_000_000);
    let envelope = |value: StoredTurnMetrics| SummaryAttempts {
        envelope: Some(value),
        bare: None,
        api: None,
    };
    assert_eq!(
        decode_summary(envelope(StoredTurnMetrics::V2Summary(summary.clone()))),
        Ok(Some(DecodedSummary::V2(summary.clone())))
    );
    let mut row = InferenceRow::blank("r");
    row.started_ns = Some(2_000_000);
    row.finished_ns = Some(5_000_000);
    assert_eq!(
        decode_inference(Some(StoredTurnMetrics::V2Inference(row.clone())), None),
        Ok(row.clone())
    );
    assert_eq!(decode_inference(None, Some(row.clone())), Ok(row.clone()));
    let mut tool = ToolMetric::blank("c");
    tool.name = "bash".into();
    assert_eq!(decode_tool(Some(StoredTurnMetrics::V2Tool(tool.clone())), None), Ok(tool.clone()));
    assert_eq!(decode_tool(None, None), Err(StoreError::Corrupt));
    assert_eq!(decode_inference(None, None), Err(StoreError::Corrupt));
    // Rows of one table are corrupt in another.
    for value in [
        StoredTurnMetrics::V2Inference(row),
        StoredTurnMetrics::V2Tool(tool),
    ] {
        assert_eq!(decode_summary(envelope(value)), Err(StoreError::Corrupt));
    }
    assert_eq!(
        decode_record(envelope(StoredTurnMetrics::V2Summary(summary))),
        Err(StoreError::Corrupt)
    );
    // Whole turns still decode.
    let legacy = decode_record(attempts(&hex_to_bytes(V1_ENVELOPE_HEX)));
    assert!(legacy.is_ok());
    assert_eq!(
        decode_summary(SummaryAttempts { envelope: None, bare: None, api: None }),
        Ok(None)
    );
}

const SESSION: SessionId = SessionId(0);
const TURN: MessageId = MessageId(0);

fn open(session: &str, turn: &str) -> TurnWrite {
    TurnWrite {
        summary: TurnSummary::blank(session, turn),
        inference: TextMap::new(),
        tools: TextMap::new(),
    }
}

fn event(stage: TurnStage, request: Option<RequestId>, ns: i128) -> TurnEvent {
    TurnEvent {
        session_id: SESSION,
        turn_id: TURN,
        stage,
        request_id: request,
        clock_id: "boot".into(),
        monotonic_ns: u64::try_from(ns).unwrap_or(0),
        unix_ns: ns,
    }
}

#[test]
fn unbounded_turn_keeps_every_row_and_derives_idle() {
    let mut state = open("00000000000000000000000000", "00000000000000000000000000");
    apply_one(&mut state, &MetricPatch::Stage(event(TurnStage::Appended, None, 1_000_000)));
    for index in 0..200_u64 {
        let request = RequestId::for_step(SESSION, index + 1);
        apply_one(
            &mut state,
            &MetricPatch::Stage(event(
                TurnStage::ToolDispatched,
                Some(request),
                i128::from(2_000_000 + index),
            )),
        );
        let mut tool = ToolMetric::blank(&request.name());
        tool.name = "bash".into();
        apply_one(&mut state, &MetricPatch::Tool(tool));
    }
    for index in 0..100_u64 {
        let request = RequestId::for_step(SESSION, 1000 + index);
        apply_one(
            &mut state,
            &MetricPatch::Stage(event(
                TurnStage::InferenceStarted,
                Some(request),
                i128::from(3_000_000 + index),
            )),
        );
        let mut metric = InferenceMetric::blank(&request.name());
        metric.provider = "fake".into();
        metric.model = "scripted".into();
        metric.output_tokens = 4;
        apply_one(&mut state, &MetricPatch::Inference(metric));
        apply_one(
            &mut state,
            &MetricPatch::Stage(event(
                TurnStage::InferenceFinished,
                Some(request),
                i128::from(4_000_000 + index),
            )),
        );
    }
    apply_one(&mut state, &MetricPatch::Stage(event(TurnStage::Idle, None, 6_000_000)));
    assert_eq!(state.tools.len(), 200);
    assert_eq!(state.inference.len(), 100);
    assert_eq!(state.summary.tool_count, 200);
    assert_eq!(
        state.summary.append_to_idle_ns.map(|ns| ns as f64 / 1_000_000.0),
        Some(5.0)
    );
}

#[test]
fn throughput_covers_the_whole_request() {
    let mut turn = TurnMetrics::blank();
    let row = |stage: &str, ns: u64, request: Option<&str>| StageTiming {
        stage: stage.into(),
        request_id: request.map(str::to_owned),
        clock_id: "boot".into(),
        monotonic_ns: ns,
        unix_ns: i64::try_from(ns).unwrap(),
    };
    turn.stages.push(row("appended", 1_000_000_000, None));
    turn.stages.push(row("inference_started", 2_000_000_000, Some("r")));
    turn.stages.push(row("first_token", 3_000_000_000, Some("r")));
    // A single-chunk provider finishes a millisecond after the first token.
    turn.stages.push(row("inference_finished", 3_001_000_000, Some("r")));
    turn.stages.push(row("idle", 6_000_000_000, None));
    let mut metric = InferenceMetric::blank("r");
    metric.output_tokens = 363;
    turn.inference.push(metric);
    turn.derive();
    let request = &turn.inference[0];
    assert_eq!(request.request_duration_ns.map(|ns| ns as f64 / 1_000_000.0), Some(1001.0));
    // 363 tokens over the whole 1001 ms request, not over the 1 ms streaming tail.
    let expected = 363.0 * 1000.0 / 1001.0;
    let rate = request.output_rate.unwrap();
    let per_second = rate.tokens as f64 * 1_000_000_000.0 / rate.nanos as f64;
    assert!((per_second - expected).abs() < 1.0);
    assert_eq!(rate, Rate { tokens: 363, nanos: 1_001_000_000 });
    assert_eq!(turn.append_to_idle_ns.map(|ns| ns as f64 / 1_000_000.0), Some(5000.0));
    assert_eq!(InferenceMetric::tokens_per_second(0, 1_000_000), None);
    assert_eq!(InferenceMetric::tokens_per_second(1, 0), None);
}

#[test]
fn batched_patches_equal_sequential_writes_and_bound_transactions() {
    let dispatched = |request: RequestId| event(TurnStage::ToolDispatched, Some(request), 1);
    let completed = |request: RequestId| event(TurnStage::ToolCompleted, Some(request), 2);
    let mut batched = open("", "");
    let mut sequential = open("", "");
    let mut writes = 0;
    for (index, name) in ["a", "b", "c"].iter().enumerate() {
        let request = RequestId::for_step(SESSION, u64::try_from(index).unwrap() + 1);
        let dispatch = dispatch_patches(dispatched(request), name);
        assert_eq!(dispatch.len(), 2);
        let mut tool = ToolMetric::blank(&request.name());
        tool.exit_status = Some(0);
        tool.output_bytes = Some(1);
        let completion = completion_patches(tool, None, completed(request));
        assert_eq!(completion.len(), 2);
        apply_all(&mut batched, &dispatch);
        apply_all(&mut batched, &completion);
        writes += 2;
        for patch in dispatch.into_iter().chain(completion) {
            apply_one(&mut sequential, &patch);
        }
    }
    assert_eq!(batched.summary.tool_count, sequential.summary.tool_count);
    assert_eq!(batched.tools.entries, sequential.tools.entries);
    assert_eq!(writes, 6);
    assert_eq!(batched.tools.len(), 3);
}

#[test]
fn waits_count_each_kind_and_name_their_request() {
    let mut state = open("s", "t");
    for kind in
        [WaitKind::Retry, WaitKind::RateLimit, WaitKind::MissingGateway, WaitKind::ProviderFailure]
    {
        let patch = MetricPatch::Wait { request_id: "r".into(), kind };
        assert!(has_wait(&vec![patch.clone()]));
        assert_eq!(inference_ids(&vec![patch.clone()]).len(), 1);
        apply_one(&mut state, &patch);
    }
    let row = state.inference.get("r").unwrap();
    assert_eq!(
        (
            row.metric.retries,
            row.metric.rate_limit_waits,
            row.metric.gateway_waits,
            row.metric.provider_failures
        ),
        (1, 1, 1, 1)
    );
    assert_eq!(
        (
            state.summary.retries,
            state.summary.rate_limit_waits,
            state.summary.gateway_waits,
            state.summary.provider_failures
        ),
        (1, 1, 1, 1)
    );
}

#[test]
fn a_repeated_observation_changes_nothing() {
    let mut state = open("s", "t");
    let request = RequestId::for_step(SESSION, 1);
    let mut metric = InferenceMetric::blank(&request.name());
    metric.output_tokens = 5;
    metric.input_tokens = 7;
    metric.error = Some("late".into());
    let patches = [
        MetricPatch::Stage(event(TurnStage::InferenceStarted, Some(request), 10)),
        MetricPatch::Inference(metric),
        MetricPatch::Stage(event(TurnStage::InferenceFinished, Some(request), 20)),
        MetricPatch::Error("x".repeat(600)),
    ];
    for patch in &patches {
        apply_one(&mut state, patch);
        let once = (state.summary.clone(), state.inference.entries.clone());
        apply_one(&mut state, patch);
        assert_eq!((state.summary.clone(), state.inference.entries.clone()), once);
    }
    assert_eq!(state.summary.input_tokens, 7);
    assert_eq!(state.summary.output_tokens, 5);
    assert_eq!(state.summary.inference_errors, 1);
    assert_eq!(state.summary.error.as_ref().unwrap().len(), 512);
    assert_eq!(state.summary.throughput_count, 1);
}

fn computer(chunks: u64, placement: Option<Millis>) -> ComputerMetric {
    ComputerMetric {
        placement_ms: placement,
        cold: None,
        chunks_fetched: chunks,
        bytes_fetched: 0,
        fetch_p50_ms: None,
        fetch_p95_ms: None,
        first_tool_chunks_fetched: None,
        first_tool_bytes_fetched: None,
        first_tool_fetch_p50_ms: None,
        first_tool_fetch_p95_ms: None,
    }
}

#[test]
fn computer_samples_merge() {
    let mut state = open("s", "t");
    let placed = Some(Millis { bits: 2.5_f64.to_bits() });
    apply_one(&mut state, &MetricPatch::Computer(computer(3, placed)));
    apply_one(&mut state, &MetricPatch::Computer(computer(9, None)));
    let merged = state.summary.computer.unwrap();
    assert_eq!(merged.placement_ms, placed);
    assert_eq!(merged.chunks_fetched, 3);
}

#[test]
fn counters_tell_when_they_are_full() {
    let mut summary = TurnSummary::blank("s", "t");
    let call = || MetricPatch::Tool(ToolMetric::blank("c"));
    let wait = || MetricPatch::Wait { request_id: "r".into(), kind: WaitKind::Retry };
    let update = || MetricPatch::Inference(InferenceMetric::blank("r"));
    assert!(turn_has_room(&summary, &vec![call(), wait(), update()]));
    summary.tool_count = u64::MAX - 1;
    assert!(turn_has_room(&summary, &vec![call(), wait()]));
    assert!(!turn_has_room(&summary, &vec![call(), call()]));
    // A counter that only updates raise stops at its largest value, so it needs no room.
    summary.retries = u64::MAX;
    assert!(turn_has_room(&summary, &vec![call(), update()]));
    assert!(!turn_has_room(&summary, &vec![wait()]));
    summary.retries = u64::MAX - 1;
    assert!(turn_has_room(&summary, &vec![wait()]));
    assert!(!turn_has_room(&summary, &vec![update(), wait()]));
    let mut record = StoredTurnMetrics::V1(fixture_v1()).into_api();
    assert!(record_fits(&record));
    record.inference[0].output_tokens = u64::MAX;
    let again = record.inference[0].clone();
    record.inference.push(again);
    assert!(!record_fits(&record));
    summary.output_tokens = u64::MAX;
    assert!(turns_fit(&vec![summary.clone()]));
    assert!(!turns_fit(&vec![summary.clone(), summary]));
}

#[test]
fn tool_samples_keep_the_first() {
    let mut state = open("s", "t");
    let mut first = ToolMetric::blank("c");
    first.exit_status = Some(0);
    apply_one(&mut state, &MetricPatch::Tool(first));
    let mut second = ToolMetric::blank("c");
    second.exit_status = Some(1);
    second.output_bytes = Some(7);
    apply_one(&mut state, &MetricPatch::Tool(second));
    assert_eq!(state.tools.len(), 1);
    assert_eq!(state.tools.entries[0].1.exit_status, Some(0));
    assert_eq!(state.tools.entries[0].1.output_bytes, Some(7));
    assert_eq!(state.summary.tool_count, 1);
}

#[test]
fn turns_open_from_every_stored_form() {
    let fresh = open_turn(None, SESSION, TURN);
    assert_eq!(fresh.summary.session_id, "00000000000000000000000000");
    assert_eq!(fresh.migrated_inference.len(), 0);
    let summary = TurnSummary::blank("s", "t");
    let kept = open_turn(Some(DecodedSummary::V2(summary.clone())), SESSION, TURN);
    assert_eq!(kept.summary, summary);
    let legacy = StoredTurnMetrics::V1(fixture_v1()).into_api();
    let migrated = open_turn(Some(DecodedSummary::Legacy(legacy.clone())), SESSION, TURN);
    assert_eq!(migrated.migrated_inference.len(), 1);
    assert_eq!(migrated.summary.output_tokens, 4);
    assert_eq!(migrated.summary.appended_ns, Some(1_000_000));
    let (summary, rows) = migrate_legacy(&legacy);
    assert_eq!(summary.output_tokens, 4);
    assert_eq!(rows.len(), 1);
    let shown = assemble_legacy(&legacy, None, None);
    assert_eq!(shown.inference.len(), 1);
    let cut = assemble_legacy(&legacy, Some(0), None);
    assert_eq!((cut.inference.len(), cut.dropped_inference), (0, 1));
    assert_eq!(summary_ids(&TurnSummary::blank("x", "y")), Err(StoreError::Corrupt));
    assert_eq!(
        summary_ids(&TurnSummary::blank("00000000000000000000000001", "00000000000000000000000002")),
        Ok((SessionId(1), MessageId(2)))
    );
}

#[test]
fn assembled_turns_tell_what_they_leave_out() {
    let mut summary = TurnSummary::blank("s", "t");
    summary.appended_ns = Some(0);
    summary.idle_ns = Some(2_000_000);
    let mut rows = vec![];
    for (id, start) in [("b", 20), ("a", 10), ("c", 30)] {
        let mut row = InferenceRow::blank(id);
        row.started_ns = Some(start);
        row.finished_ns = Some(start + 5);
        rows.push(row);
    }
    let turn = assemble_from_summary(&summary, &rows, &vec![ToolMetric::blank("x")], Some(2), None);
    let ids: Vec<&str> = turn.inference.iter().map(|m| m.request_id.as_str()).collect();
    assert_eq!(ids, ["a", "b"]);
    assert_eq!(turn.dropped_inference, 1);
    assert_eq!(turn.tools.len(), 1);
    assert_eq!(turn.append_to_idle_ns, Some(2_000_000));
}

#[test]
fn unknown_commits_are_retried_unless_they_count() {
    assert!(retry_unknown(0, false));
    assert!(!retry_unknown(0, true));
    let tool = MetricPatch::Tool(ToolMetric::blank("x"));
    assert!(!has_wait(&vec![tool.clone()]));
    assert_eq!(tool_ids(&vec![tool]).len(), 1);
}

fn timed(appended: i64, idle: i64) -> TurnSummary {
    let mut summary = TurnSummary::blank("s", "t");
    summary.appended_ns = Some(appended);
    summary.idle_ns = Some(idle);
    summary.append_to_idle_ns = Some(idle - appended);
    summary.cost_micros = 3;
    summary
}

#[test]
fn rollups_take_percentiles_of_the_turns() {
    let turns: Vec<TurnSummary> = (1..=10).map(|n| timed(0, n * 1_000)).collect();
    let metrics = agent_turn_metrics(&turns);
    assert_eq!(metrics.turns, 10);
    assert_eq!(metrics.cost_micros, 30);
    let idle = metrics.append_to_idle.unwrap();
    assert_eq!((idle.p50, idle.p95), (6_000, 10_000));
    assert!(metrics.placement.is_none());
    assert_eq!(rollup_limit(0), 200);
    assert_eq!(rollup_limit(7), 7);
    assert_eq!(rollup_limit(1_000), 200);
}

#[test]
fn recent_turns_come_oldest_first_and_bounded() {
    let mut walk = RecentTurns::start(2);
    assert!(walk.next_take().is_some());
    let page = vec![
        Some(DecodedSummary::V2(timed(30, 31))),
        None,
        Some(DecodedSummary::V2(timed(20, 21))),
    ];
    walk.accept(page);
    assert_eq!(walk.next_take(), None);
    let turns = walk.finish();
    let times: Vec<Option<i64>> = turns.iter().map(|turn| turn.appended_ns).collect();
    assert_eq!(times, [Some(20), Some(30)]);
    let legacy = StoredTurnMetrics::V1(fixture_v1()).into_api();
    let (new, old) = split_page(vec![
        Some(DecodedSummary::Legacy(legacy.clone())),
        Some(DecodedSummary::V2(timed(1, 2))),
        None,
    ], Some(0), None);
    assert_eq!((new.len(), old.len()), (1, 1));
    assert_eq!((old[0].inference.len(), old[0].dropped_inference), (0, 1));
    let page = list_turn_metrics_paged(vec![TurnMetrics::blank()], &vec![legacy]);
    assert_eq!(page.len(), 2);
}

/// The rows of one turn, as a store keeps them between transactions.
struct Turn {
    summary: Option<TurnSummary>,
    inference: TextMap<InferenceRow>,
    tools: TextMap<ToolMetric>,
}

impl Turn {
    fn new() -> Turn {
        Turn { summary: None, inference: TextMap::new(), tools: TextMap::new() }
    }

    fn record(&mut self, patches: Vec<MetricPatch>) {
        let stored = self.summary.take().map(DecodedSummary::V2);
        let opened = open_turn(stored, SESSION, TURN);
        let mut inference = TextMap::new();
        for (id, _) in inference_ids(&patches).entries {
            if let Some(row) = self.inference.get(&id) {
                inference.insert(id, row.clone());
            }
        }
        let mut tools = TextMap::new();
        for (id, _) in tool_ids(&patches).entries {
            if let Some(row) = self.tools.get(&id) {
                tools.insert(id, row.clone());
            }
        }
        let writes = record_turn_metrics(opened, &inference, &tools, &patches);
        self.summary = Some(writes.summary);
        for (id, row) in writes.inference.entries {
            self.inference.insert(id, row);
        }
        for (id, row) in writes.tools.entries {
            self.tools.insert(id, row);
        }
    }

    fn read(&self) -> TurnMetrics {
        self.page(None, None)
    }

    fn page(&self, requests: Option<usize>, calls: Option<usize>) -> TurnMetrics {
        let rows = self.inference.entries.iter().map(|(_, row)| row.clone()).collect();
        let tools = self.tools.entries.iter().map(|(_, row)| row.clone()).collect();
        assemble_from_summary(self.summary.as_ref().unwrap(), &rows, &tools, requests, calls)
    }
}

fn in_millis(nanos: Option<i64>) -> Option<f64> {
    nanos.map(|nanos| nanos as f64 / 1_000_000.0)
}

#[test]
fn incremental_records_merge_under_one_turn_key() {
    let mut turn = Turn::new();
    let request = RequestId::for_step(SESSION, 1);
    for (stage, ns) in [
        (TurnStage::Appended, 1_000_000),
        (TurnStage::InferenceStarted, 2_000_000),
        (TurnStage::FirstToken, 3_000_000),
        (TurnStage::InferenceFinished, 5_000_000),
        (TurnStage::Idle, 6_000_000),
    ] {
        turn.record(vec![MetricPatch::Stage(event(stage, Some(request), ns))]);
    }
    turn.record(vec![MetricPatch::Stage(event(TurnStage::Appended, None, 1_000_000))]);
    turn.record(vec![MetricPatch::Stage(event(TurnStage::Idle, None, 6_000_000))]);
    let mut metric = InferenceMetric::blank(&request.name());
    metric.provider = "fake".into();
    metric.model = "scripted".into();
    metric.output_tokens = 10;
    turn.record(vec![MetricPatch::Inference(metric)]);
    let record = turn.read();
    assert_eq!(in_millis(record.append_to_first_token_ns), Some(2.0));
    assert_eq!(in_millis(record.inference_duration_ns), Some(3.0));
    assert_eq!(in_millis(record.append_to_idle_ns), Some(5.0));
    assert_eq!(record.dropped_stages, 0);
    assert_eq!(record.dropped_inference, 0);
    assert_eq!(record.dropped_tools, 0);
    // Throughput covers the whole request (2 ms to 5 ms), not the streaming
    // tail (3 ms to 5 ms).
    assert_eq!(in_millis(record.inference[0].request_duration_ns), Some(3.0));
    let rate = record.inference[0].output_rate.unwrap();
    assert_eq!(rate.tokens as f64 * 1_000_000_000.0 / rate.nanos as f64, 10_000.0 / 3.0);
}

#[test]
fn batched_tool_patches_merge_in_one_transaction() {
    let mut turn = Turn::new();
    let request = RequestId::for_step(SESSION, 7);
    turn.record(dispatch_patches(event(TurnStage::ToolDispatched, Some(request), 1), "bash"));
    let mut tool = ToolMetric::blank(&request.name());
    tool.exit_status = Some(0);
    tool.output_bytes = Some(9);
    tool.process_wall_ms = Some(Millis { bits: 0.5_f64.to_bits() });
    let done = event(TurnStage::ToolCompleted, Some(request), 2);
    turn.record(completion_patches(tool, None, done));
    let record = turn.read();
    assert_eq!(record.tools.len(), 1);
    assert_eq!(record.tools[0].name, "bash");
    assert_eq!(record.tools[0].exit_status, Some(0));
}

#[test]
fn long_turn_with_two_hundred_tools_and_one_hundred_requests_reads_back_complete() {
    let mut turn = Turn::new();
    let appended_ns: i128 = 1_000_000;
    turn.record(vec![MetricPatch::Stage(event(TurnStage::Appended, None, appended_ns))]);
    for index in 0..200_u64 {
        let request = RequestId::for_step(SESSION, index + 1);
        let at = appended_ns + i128::from(index + 1);
        turn.record(dispatch_patches(event(TurnStage::ToolDispatched, Some(request), at), "bash"));
        let mut tool = ToolMetric::blank(&request.name());
        tool.exit_status = Some(0);
        tool.output_bytes = Some(9);
        let done = event(TurnStage::ToolCompleted, Some(request), at + 1);
        turn.record(completion_patches(tool, None, done));
    }
    for index in 0..100_u64 {
        let request = RequestId::for_step(SESSION, 10_000 + index);
        let at = appended_ns + i128::from(index);
        let started = event(TurnStage::InferenceStarted, Some(request), at + 500);
        turn.record(vec![MetricPatch::Stage(started)]);
        let mut metric = InferenceMetric::blank(&request.name());
        metric.provider = "fake".into();
        metric.model = "scripted".into();
        metric.output_tokens = 4;
        turn.record(vec![MetricPatch::Inference(metric)]);
        let finished = event(TurnStage::InferenceFinished, Some(request), at + 600);
        turn.record(vec![MetricPatch::Stage(finished)]);
    }
    turn.record(vec![MetricPatch::Stage(event(TurnStage::Idle, None, 2_000_000_000))]);
    let record = turn.read();
    assert_eq!(record.tools.len(), 200);
    assert_eq!(record.inference.len(), 100);
    assert_eq!(record.dropped_stages, 0);
    assert_eq!(record.dropped_inference, 0);
    assert_eq!(record.dropped_tools, 0);
    assert_eq!(in_millis(record.append_to_idle_ns), Some(1_999.0));
    // Paging on the arrays truncates deterministically and reports the
    // remainder in the dropped counters.
    let paged = turn.page(Some(10), Some(20));
    assert_eq!(paged.inference.len(), 10);
    assert_eq!(paged.tools.len(), 20);
    assert_eq!(paged.dropped_inference, 90);
    assert_eq!(paged.dropped_tools, 180);
}

#[test]
fn migrated_rows_are_written_with_the_first_new_record() {
    let legacy = StoredTurnMetrics::V1(fixture_v1()).into_api();
    let opened = open_turn(Some(DecodedSummary::Legacy(legacy)), SESSION, TURN);
    let id = opened.migrated_inference.entries[0].0.clone();
    let patches = vec![MetricPatch::Tool(ToolMetric::blank("x"))];
    let writes = record_turn_metrics(opened, &TextMap::new(), &TextMap::new(), &patches);
    assert!(writes.inference.contains_key(&id));
    assert!(writes.tools.contains_key("x"));
}
