//! Turn observations: how one observation changes a turn's summary and detail rows.
//!
//! Durations stay in wall-clock nanoseconds and rates stay as tokens over nanoseconds, so every
//! change is exact; a measured floating-point value is carried by its bits.

use crate::ids::{request_text, MessageId, RequestId, SessionId};
use crate::text::{clip, clipped, copy_option};
use crate::textmap::TextMap;
use vstd::prelude::*;

verus! {

/// A measured number of milliseconds, carried as the bits of its floating-point form.
#[derive(Clone, Copy, Debug, PartialEq, Eq, Structural)]
pub struct Millis {
    pub bits: u64,
}

/// A throughput: output tokens over the nanoseconds they took.
#[derive(Clone, Copy, Debug, PartialEq, Eq, Structural)]
pub struct Rate {
    pub tokens: u64,
    pub nanos: i64,
}

/// One change to the sum of request throughputs.
#[derive(Clone, Copy, Debug, PartialEq, Eq, Structural)]
pub struct RateChange {
    pub removed: Option<Rate>,
    pub added: Option<Rate>,
}

/// Boundary of a turn.
#[derive(Clone, Copy, Debug, PartialEq, Eq, Structural)]
pub enum TurnStage {
    Submitted,
    Appended,
    Nudged,
    Claimed,
    InferenceStarted,
    FirstToken,
    InferenceFinished,
    ToolDispatched,
    ToolCompleted,
    FinalTextRendered,
    InputEnabled,
    Idle,
}

/// One boundary as a process observed it.
#[derive(Clone, Debug)]
pub struct TurnEvent {
    pub session_id: SessionId,
    pub turn_id: MessageId,
    pub stage: TurnStage,
    pub request_id: Option<RequestId>,
    pub clock_id: String,
    pub monotonic_ns: u64,
    pub unix_ns: i128,
}

/// Why a request waited.
#[derive(Clone, Copy, Debug, PartialEq, Eq, Structural)]
pub enum WaitKind {
    Retry,
    RateLimit,
    MissingGateway,
    ProviderFailure,
}

/// Counters and timings of one inference request.
#[derive(Clone, Debug, PartialEq, Eq)]
pub struct InferenceMetric {
    pub request_id: String,
    pub provider: String,
    pub model: String,
    pub input_tokens: u64,
    pub cached_input_tokens: u64,
    pub output_tokens: u64,
    pub reasoning_tokens: u64,
    pub cost_micros: u64,
    pub time_to_first_token_ns: Option<i64>,
    pub streaming_duration_ns: Option<i64>,
    pub request_duration_ns: Option<i64>,
    pub streamed: bool,
    pub output_rate: Option<Rate>,
    pub retries: u32,
    pub rate_limit_waits: u32,
    pub gateway_waits: u32,
    pub provider_failures: u32,
    pub error: Option<String>,
}

/// Timings and outcome of one tool call.
#[derive(Clone, Debug, PartialEq, Eq)]
pub struct ToolMetric {
    pub request_id: String,
    pub name: String,
    pub dispatched_ns: Option<i64>,
    pub started_ns: Option<i64>,
    pub completed_ns: Option<i64>,
    pub exit_status: Option<i32>,
    pub output_bytes: Option<u64>,
    pub queue_ms: Option<Millis>,
    pub process_wall_ms: Option<Millis>,
}

/// What a turn's computer cost to place and warm up.
#[derive(Clone, Copy, Debug, PartialEq, Eq, Structural)]
pub struct ComputerMetric {
    pub placement_ms: Option<Millis>,
    pub cold: Option<bool>,
    pub chunks_fetched: u64,
    pub bytes_fetched: u64,
    pub fetch_p50_ms: Option<Millis>,
    pub fetch_p95_ms: Option<Millis>,
    pub first_tool_chunks_fetched: Option<u64>,
    pub first_tool_bytes_fetched: Option<u64>,
    pub first_tool_fetch_p50_ms: Option<Millis>,
    pub first_tool_fetch_p95_ms: Option<Millis>,
}

/// One observation to merge into a turn.
#[derive(Clone, Debug)]
pub enum MetricPatch {
    Stage(TurnEvent),
    Inference(InferenceMetric),
    Tool(ToolMetric),
    Computer(ComputerMetric),
    Error(String),
    Wait { request_id: String, kind: WaitKind },
}

/// A turn's summary: anchor timestamps and running totals, of a size that does not grow.
#[derive(Clone, Debug, PartialEq, Eq)]
pub struct TurnSummary {
    pub session_id: String,
    pub turn_id: String,
    pub submitted_ns: Option<i64>,
    pub appended_ns: Option<i64>,
    pub first_token_ns: Option<i64>,
    pub first_tool_ns: Option<i64>,
    pub idle_ns: Option<i64>,
    pub inference_started_ns: Option<i64>,
    pub inference_finished_ns: Option<i64>,
    pub computer: Option<ComputerMetric>,
    pub append_to_first_token_ns: Option<i64>,
    pub inference_duration_ns: Option<i64>,
    pub append_to_idle_ns: Option<i64>,
    pub error: Option<String>,
    pub input_tokens: u64,
    pub cached_input_tokens: u64,
    pub output_tokens: u64,
    pub reasoning_tokens: u64,
    pub cost_micros: u64,
    pub retries: u64,
    pub rate_limit_waits: u64,
    pub gateway_waits: u64,
    pub provider_failures: u64,
    pub inference_errors: u64,
    /// Changes to the sum of request throughputs since the summary was read, oldest first.
    pub throughput: Vec<RateChange>,
    pub throughput_count: u64,
    pub tool_count: u64,
}

/// One inference request row: its metric and the wall-clock anchors it derives from.
#[derive(Clone, Debug, PartialEq, Eq)]
pub struct InferenceRow {
    pub metric: InferenceMetric,
    pub started_ns: Option<i64>,
    pub first_token_ns: Option<i64>,
    pub finished_ns: Option<i64>,
}

/// The part of a turn that one transaction holds: the summary and the rows it touches.
pub struct TurnWrite {
    pub summary: TurnSummary,
    pub inference: TextMap<InferenceRow>,
    pub tools: TextMap<ToolMetric>,
}

/// Mathematical value of an [`InferenceMetric`].
pub ghost struct InferenceMetricView {
    pub request_id: Seq<char>,
    pub provider: Seq<char>,
    pub model: Seq<char>,
    pub input_tokens: u64,
    pub cached_input_tokens: u64,
    pub output_tokens: u64,
    pub reasoning_tokens: u64,
    pub cost_micros: u64,
    pub time_to_first_token_ns: Option<i64>,
    pub streaming_duration_ns: Option<i64>,
    pub request_duration_ns: Option<i64>,
    pub streamed: bool,
    pub output_rate: Option<Rate>,
    pub retries: u32,
    pub rate_limit_waits: u32,
    pub gateway_waits: u32,
    pub provider_failures: u32,
    pub error: Option<Seq<char>>,
}

/// Mathematical value of an [`InferenceRow`].
pub ghost struct InferenceRowView {
    pub metric: InferenceMetricView,
    pub started_ns: Option<i64>,
    pub first_token_ns: Option<i64>,
    pub finished_ns: Option<i64>,
}

/// Mathematical value of a [`ToolMetric`].
pub ghost struct ToolMetricView {
    pub request_id: Seq<char>,
    pub name: Seq<char>,
    pub dispatched_ns: Option<i64>,
    pub started_ns: Option<i64>,
    pub completed_ns: Option<i64>,
    pub exit_status: Option<i32>,
    pub output_bytes: Option<u64>,
    pub queue_ms: Option<Millis>,
    pub process_wall_ms: Option<Millis>,
}

/// Mathematical value of a [`TurnSummary`].
pub ghost struct TurnSummaryView {
    pub session_id: Seq<char>,
    pub turn_id: Seq<char>,
    pub submitted_ns: Option<i64>,
    pub appended_ns: Option<i64>,
    pub first_token_ns: Option<i64>,
    pub first_tool_ns: Option<i64>,
    pub idle_ns: Option<i64>,
    pub inference_started_ns: Option<i64>,
    pub inference_finished_ns: Option<i64>,
    pub computer: Option<ComputerMetric>,
    pub append_to_first_token_ns: Option<i64>,
    pub inference_duration_ns: Option<i64>,
    pub append_to_idle_ns: Option<i64>,
    pub error: Option<Seq<char>>,
    pub input_tokens: u64,
    pub cached_input_tokens: u64,
    pub output_tokens: u64,
    pub reasoning_tokens: u64,
    pub cost_micros: u64,
    pub retries: u64,
    pub rate_limit_waits: u64,
    pub gateway_waits: u64,
    pub provider_failures: u64,
    pub inference_errors: u64,
    pub throughput: Seq<RateChange>,
    pub throughput_count: u64,
    pub tool_count: u64,
}

/// Mathematical value of a [`TurnWrite`].
#[verifier::ext_equal]
pub ghost struct TurnView {
    pub summary: TurnSummaryView,
    pub inference: Map<Seq<char>, InferenceRowView>,
    pub tools: Map<Seq<char>, ToolMetricView>,
}

/// Mathematical value of a [`MetricPatch`].
pub ghost enum PatchView {
    Stage { stage: TurnStage, request_id: Option<RequestId>, unix_ns: i128 },
    Inference { update: InferenceMetricView },
    Tool { update: ToolMetricView },
    Computer { value: ComputerMetric },
    Error { value: Seq<char> },
    Wait { request_id: Seq<char>, kind: WaitKind },
}

impl View for InferenceMetric {
    type V = InferenceMetricView;

    open spec fn view(&self) -> InferenceMetricView {
        InferenceMetricView {
            request_id: self.request_id@,
            provider: self.provider@,
            model: self.model@,
            input_tokens: self.input_tokens,
            cached_input_tokens: self.cached_input_tokens,
            output_tokens: self.output_tokens,
            reasoning_tokens: self.reasoning_tokens,
            cost_micros: self.cost_micros,
            time_to_first_token_ns: self.time_to_first_token_ns,
            streaming_duration_ns: self.streaming_duration_ns,
            request_duration_ns: self.request_duration_ns,
            streamed: self.streamed,
            output_rate: self.output_rate,
            retries: self.retries,
            rate_limit_waits: self.rate_limit_waits,
            gateway_waits: self.gateway_waits,
            provider_failures: self.provider_failures,
            error: self.error.deep_view(),
        }
    }
}

impl View for InferenceRow {
    type V = InferenceRowView;

    open spec fn view(&self) -> InferenceRowView {
        InferenceRowView {
            metric: self.metric@,
            started_ns: self.started_ns,
            first_token_ns: self.first_token_ns,
            finished_ns: self.finished_ns,
        }
    }
}

impl View for ToolMetric {
    type V = ToolMetricView;

    open spec fn view(&self) -> ToolMetricView {
        ToolMetricView {
            request_id: self.request_id@,
            name: self.name@,
            dispatched_ns: self.dispatched_ns,
            started_ns: self.started_ns,
            completed_ns: self.completed_ns,
            exit_status: self.exit_status,
            output_bytes: self.output_bytes,
            queue_ms: self.queue_ms,
            process_wall_ms: self.process_wall_ms,
        }
    }
}

impl View for TurnSummary {
    type V = TurnSummaryView;

    open spec fn view(&self) -> TurnSummaryView {
        TurnSummaryView {
            session_id: self.session_id@,
            turn_id: self.turn_id@,
            submitted_ns: self.submitted_ns,
            appended_ns: self.appended_ns,
            first_token_ns: self.first_token_ns,
            first_tool_ns: self.first_tool_ns,
            idle_ns: self.idle_ns,
            inference_started_ns: self.inference_started_ns,
            inference_finished_ns: self.inference_finished_ns,
            computer: self.computer,
            append_to_first_token_ns: self.append_to_first_token_ns,
            inference_duration_ns: self.inference_duration_ns,
            append_to_idle_ns: self.append_to_idle_ns,
            error: self.error.deep_view(),
            input_tokens: self.input_tokens,
            cached_input_tokens: self.cached_input_tokens,
            output_tokens: self.output_tokens,
            reasoning_tokens: self.reasoning_tokens,
            cost_micros: self.cost_micros,
            retries: self.retries,
            rate_limit_waits: self.rate_limit_waits,
            gateway_waits: self.gateway_waits,
            provider_failures: self.provider_failures,
            inference_errors: self.inference_errors,
            throughput: self.throughput@,
            throughput_count: self.throughput_count,
            tool_count: self.tool_count,
        }
    }
}

/// Views of every row of a map.
pub open spec fn inference_views(rows: Map<Seq<char>, InferenceRow>) -> Map<Seq<char>, InferenceRowView> {
    Map::new(|key: Seq<char>| rows.dom().contains(key), |key: Seq<char>| rows[key]@)
}

/// Views of every row of a map.
pub open spec fn tool_views(rows: Map<Seq<char>, ToolMetric>) -> Map<Seq<char>, ToolMetricView> {
    Map::new(|key: Seq<char>| rows.dom().contains(key), |key: Seq<char>| rows[key]@)
}

impl View for TurnWrite {
    type V = TurnView;

    open spec fn view(&self) -> TurnView {
        TurnView {
            summary: self.summary@,
            inference: inference_views(self.inference@),
            tools: tool_views(self.tools@),
        }
    }
}

impl TurnWrite {
    /// Whether the row maps are ordered.
    pub open spec fn wf(&self) -> bool {
        self.inference.wf() && self.tools.wf()
    }
}

impl View for MetricPatch {
    type V = PatchView;

    open spec fn view(&self) -> PatchView {
        match self {
            MetricPatch::Stage(event) => PatchView::Stage {
                stage: event.stage,
                request_id: event.request_id,
                unix_ns: event.unix_ns,
            },
            MetricPatch::Inference(update) => PatchView::Inference { update: update@ },
            MetricPatch::Tool(update) => PatchView::Tool { update: update@ },
            MetricPatch::Computer(value) => PatchView::Computer { value: *value },
            MetricPatch::Error(value) => PatchView::Error { value: value@ },
            MetricPatch::Wait { request_id, kind } => PatchView::Wait {
                request_id: request_id@,
                kind: *kind,
            },
        }
    }
}

// ---------------------------------------------------------------------------------------------
// What one observation changes
// ---------------------------------------------------------------------------------------------

/// Nanoseconds between two anchors, when both are known and in order.
pub open spec fn wall(first: Option<i64>, last: Option<i64>) -> Option<i64> {
    match (first, last) {
        (Some(a), Some(b)) => if 0 <= b - a <= i64::MAX {
            Some((b - a) as i64)
        } else {
            None
        },
        _ => None,
    }
}

/// Wall-clock nanoseconds of an event; a value that does not fit counts as the latest one.
pub open spec fn wall_clock(unix_ns: i128) -> i64 {
    if i64::MIN <= unix_ns <= i64::MAX {
        unix_ns as i64
    } else {
        i64::MAX
    }
}

/// An anchor that keeps its first observation.
pub open spec fn kept(anchor: Option<i64>, at: i64) -> Option<i64> {
    match anchor {
        Some(_) => anchor,
        None => Some(at),
    }
}

/// An anchor that keeps its earliest observation.
pub open spec fn earliest(anchor: Option<i64>, at: i64) -> Option<i64> {
    match anchor {
        Some(old) => Some(if old <= at { old } else { at }),
        None => Some(at),
    }
}

/// An anchor that keeps its latest observation.
pub open spec fn latest(anchor: Option<i64>, at: i64) -> Option<i64> {
    match anchor {
        Some(old) => Some(if old >= at { old } else { at }),
        None => Some(at),
    }
}

/// Throughput of a request; none without tokens or without elapsed time.
pub open spec fn tokens_per_second(tokens: u64, nanos: i64) -> Option<Rate> {
    if tokens > 0 && nanos > 0 {
        Some(Rate { tokens, nanos })
    } else {
        None
    }
}

/// Throughput covers the whole request, or its streaming part when the start is unknown.
pub open spec fn derived_rate(row: InferenceRowView) -> Option<Rate> {
    match wall(row.started_ns, row.finished_ns) {
        Some(nanos) => tokens_per_second(row.metric.output_tokens, nanos),
        None => match wall(row.first_token_ns, row.finished_ns) {
            Some(nanos) => tokens_per_second(row.metric.output_tokens, nanos),
            None => None,
        },
    }
}

/// A row with the timings that follow from its anchors.
pub open spec fn derived(row: InferenceRowView) -> InferenceRowView {
    InferenceRowView {
        metric: InferenceMetricView {
            time_to_first_token_ns: wall(row.started_ns, row.first_token_ns),
            streaming_duration_ns: wall(row.first_token_ns, row.finished_ns),
            request_duration_ns: wall(row.started_ns, row.finished_ns),
            output_rate: derived_rate(row),
            ..row.metric
        },
        ..row
    }
}

/// A summary with the durations that follow from its anchors.
pub open spec fn summarized(summary: TurnSummaryView) -> TurnSummaryView {
    TurnSummaryView {
        append_to_first_token_ns: wall(summary.appended_ns, summary.first_token_ns),
        inference_duration_ns: wall(summary.inference_started_ns, summary.inference_finished_ns),
        append_to_idle_ns: wall(summary.appended_ns, summary.idle_ns),
        ..summary
    }
}

/// A metric that names its request and holds nothing else.
pub open spec fn blank_metric(request_id: Seq<char>) -> InferenceMetricView {
    InferenceMetricView {
        request_id,
        provider: Seq::empty(),
        model: Seq::empty(),
        input_tokens: 0,
        cached_input_tokens: 0,
        output_tokens: 0,
        reasoning_tokens: 0,
        cost_micros: 0,
        time_to_first_token_ns: None,
        streaming_duration_ns: None,
        request_duration_ns: None,
        streamed: false,
        output_rate: None,
        retries: 0,
        rate_limit_waits: 0,
        gateway_waits: 0,
        provider_failures: 0,
        error: None,
    }
}

/// A row that names its request and holds nothing else.
pub open spec fn blank_row(request_id: Seq<char>) -> InferenceRowView {
    InferenceRowView {
        metric: blank_metric(request_id),
        started_ns: None,
        first_token_ns: None,
        finished_ns: None,
    }
}

/// A tool row that names its call and holds nothing else.
pub open spec fn blank_tool(request_id: Seq<char>) -> ToolMetricView {
    ToolMetricView {
        request_id,
        name: Seq::empty(),
        dispatched_ns: None,
        started_ns: None,
        completed_ns: None,
        exit_status: None,
        output_bytes: None,
        queue_ms: None,
        process_wall_ms: None,
    }
}

/// The stored row of a request, or a blank one.
pub open spec fn row_at(rows: Map<Seq<char>, InferenceRowView>, id: Seq<char>) -> InferenceRowView {
    if rows.dom().contains(id) {
        rows[id]
    } else {
        blank_row(id)
    }
}

/// The stored row of a tool call, or a blank one.
pub open spec fn tool_at(rows: Map<Seq<char>, ToolMetricView>, id: Seq<char>) -> ToolMetricView {
    if rows.dom().contains(id) {
        rows[id]
    } else {
        blank_tool(id)
    }
}

/// Throughput that the summary already counts for a request.
pub open spec fn rate_at(rows: Map<Seq<char>, InferenceRowView>, id: Seq<char>) -> Option<Rate> {
    if rows.dom().contains(id) {
        rows[id].metric.output_rate
    } else {
        None
    }
}

/// A summary whose throughput count and sum follow one request's change of rate.
pub open spec fn rerated(summary: TurnSummaryView, old: Option<Rate>, new: Option<Rate>) -> TurnSummaryView {
    let change = RateChange { removed: old, added: new };
    match (old, new) {
        (Some(_), Some(_)) => if old == new {
            summary
        } else {
            TurnSummaryView { throughput: summary.throughput.push(change), ..summary }
        },
        (Some(_), None) => TurnSummaryView {
            throughput: summary.throughput.push(change),
            throughput_count: minus(summary.throughput_count, 1),
            ..summary
        },
        (None, Some(_)) => TurnSummaryView {
            throughput: summary.throughput.push(change),
            throughput_count: (summary.throughput_count + 1) as u64,
            ..summary
        },
        (None, None) => summary,
    }
}

/// Sum that stops at the largest counter.
pub open spec fn plus(a: u64, b: int) -> u64 {
    if a + b > u64::MAX {
        u64::MAX
    } else {
        (a + b) as u64
    }
}

/// Difference that stops at zero.
pub open spec fn minus(a: u64, b: u64) -> u64 {
    if a >= b {
        (a - b) as u64
    } else {
        0
    }
}

/// The larger of two counters.
pub open spec fn larger(a: u32, b: u32) -> u32 {
    if a >= b {
        a
    } else {
        b
    }
}

/// A text replaced by a clipped update unless the update is empty.
pub open spec fn retitled(old: Seq<char>, update: Seq<char>, max: nat) -> Seq<char> {
    if update.len() > 0 {
        clip(update, max)
    } else {
        old
    }
}

/// A request row after a terminal update: text and tokens replaced, waits kept at their maximum.
pub open spec fn updated_row(row: InferenceRowView, update: InferenceMetricView) -> InferenceRowView {
    derived(
        InferenceRowView {
            metric: InferenceMetricView {
                provider: retitled(row.metric.provider, update.provider, 80),
                model: retitled(row.metric.model, update.model, 120),
                input_tokens: update.input_tokens,
                cached_input_tokens: update.cached_input_tokens,
                output_tokens: update.output_tokens,
                reasoning_tokens: update.reasoning_tokens,
                cost_micros: update.cost_micros,
                streamed: update.streamed,
                error: update.error,
                retries: larger(row.metric.retries, update.retries),
                rate_limit_waits: larger(row.metric.rate_limit_waits, update.rate_limit_waits),
                gateway_waits: larger(row.metric.gateway_waits, update.gateway_waits),
                provider_failures: larger(row.metric.provider_failures, update.provider_failures),
                ..row.metric
            },
            ..row
        },
    )
}

/// A turn error follows the latest terminal update of a request that failed before.
pub open spec fn turn_error(
    error: Option<Seq<char>>,
    failed_before: bool,
    update: Option<Seq<char>>,
) -> Option<Seq<char>> {
    if update is Some {
        update
    } else if failed_before {
        None
    } else {
        error
    }
}

/// A turn after a terminal inference update. Totals grow by what the row grew.
pub open spec fn with_inference(turn: TurnView, update: InferenceMetricView) -> TurnView {
    let id = update.request_id;
    let old = row_at(turn.inference, id);
    let new = updated_row(old, update);
    let s = turn.summary;
    let errors = if old.metric.error is None && new.metric.error is Some {
        (s.inference_errors + 1) as u64
    } else if old.metric.error is Some && new.metric.error is None {
        minus(s.inference_errors, 1)
    } else {
        s.inference_errors
    };
    TurnView {
        summary: rerated(
            TurnSummaryView {
                error: turn_error(s.error, old.metric.error is Some, update.error),
                input_tokens: plus(
                    s.input_tokens,
                    minus(new.metric.input_tokens, old.metric.input_tokens) as int,
                ),
                cached_input_tokens: plus(
                    s.cached_input_tokens,
                    minus(new.metric.cached_input_tokens, old.metric.cached_input_tokens) as int,
                ),
                output_tokens: plus(
                    s.output_tokens,
                    minus(new.metric.output_tokens, old.metric.output_tokens) as int,
                ),
                reasoning_tokens: plus(
                    s.reasoning_tokens,
                    minus(new.metric.reasoning_tokens, old.metric.reasoning_tokens) as int,
                ),
                cost_micros: plus(
                    s.cost_micros,
                    minus(new.metric.cost_micros, old.metric.cost_micros) as int,
                ),
                retries: plus(s.retries, new.metric.retries - old.metric.retries),
                rate_limit_waits: plus(
                    s.rate_limit_waits,
                    new.metric.rate_limit_waits - old.metric.rate_limit_waits,
                ),
                gateway_waits: plus(
                    s.gateway_waits,
                    new.metric.gateway_waits - old.metric.gateway_waits,
                ),
                provider_failures: plus(
                    s.provider_failures,
                    new.metric.provider_failures - old.metric.provider_failures,
                ),
                inference_errors: errors,
                ..s
            },
            old.metric.output_rate,
            new.metric.output_rate,
        ),
        inference: turn.inference.insert(id, new),
        ..turn
    }
}

/// A field that keeps its first value.
pub open spec fn first_kept<T>(old: Option<T>, update: Option<T>) -> Option<T> {
    if old is Some {
        old
    } else {
        update
    }
}

/// A text that keeps its first clipped value.
pub open spec fn first_titled(old: Seq<char>, update: Seq<char>, max: nat) -> Seq<char> {
    if old.len() > 0 {
        old
    } else {
        clip(update, max)
    }
}

/// A tool row after an update: the first sample of each field stays.
pub open spec fn updated_tool(row: ToolMetricView, update: ToolMetricView) -> ToolMetricView {
    ToolMetricView {
        request_id: row.request_id,
        name: first_titled(row.name, update.name, 80),
        dispatched_ns: first_kept(row.dispatched_ns, update.dispatched_ns),
        started_ns: first_kept(row.started_ns, update.started_ns),
        completed_ns: first_kept(row.completed_ns, update.completed_ns),
        exit_status: first_kept(row.exit_status, update.exit_status),
        output_bytes: first_kept(row.output_bytes, update.output_bytes),
        queue_ms: first_kept(row.queue_ms, update.queue_ms),
        process_wall_ms: first_kept(row.process_wall_ms, update.process_wall_ms),
    }
}

/// A turn after a tool update. A row that no dispatch created counts as a call.
pub open spec fn with_tool(turn: TurnView, update: ToolMetricView) -> TurnView {
    let id = update.request_id;
    let new = updated_tool(tool_at(turn.tools, id), update);
    let counted = !turn.tools.dom().contains(id) && new.dispatched_ns is None;
    TurnView {
        summary: TurnSummaryView {
            tool_count: if counted {
                (turn.summary.tool_count + 1) as u64
            } else {
                turn.summary.tool_count
            },
            ..turn.summary
        },
        tools: turn.tools.insert(id, new),
        ..turn
    }
}

/// A turn after one of its requests got new anchors.
pub open spec fn with_row(turn: TurnView, id: Seq<char>, row: InferenceRowView) -> TurnView {
    TurnView {
        summary: rerated(turn.summary, rate_at(turn.inference, id), derived(row).metric.output_rate),
        inference: turn.inference.insert(id, derived(row)),
        ..turn
    }
}

/// A turn after one of its tool calls got new anchors.
pub open spec fn with_call(turn: TurnView, id: Seq<char>, row: ToolMetricView) -> TurnView {
    TurnView {
        summary: TurnSummaryView {
            tool_count: if turn.tools.dom().contains(id) {
                turn.summary.tool_count
            } else {
                (turn.summary.tool_count + 1) as u64
            },
            ..turn.summary
        },
        tools: turn.tools.insert(id, row),
        ..turn
    }
}

/// What a stage does to the detail row that it names.
pub open spec fn with_stage_row(turn: TurnView, stage: TurnStage, request: Option<RequestId>, at: i64) -> TurnView {
    match request {
        None => turn,
        Some(request) => {
            let id = request_text(request);
            let row = row_at(turn.inference, id);
            let tool = tool_at(turn.tools, id);
            match stage {
                TurnStage::FirstToken => with_row(
                    turn,
                    id,
                    InferenceRowView { first_token_ns: earliest(row.first_token_ns, at), ..row },
                ),
                TurnStage::InferenceStarted => with_row(
                    turn,
                    id,
                    InferenceRowView { started_ns: earliest(row.started_ns, at), ..row },
                ),
                TurnStage::InferenceFinished => with_row(
                    turn,
                    id,
                    InferenceRowView { finished_ns: latest(row.finished_ns, at), ..row },
                ),
                TurnStage::ToolDispatched => with_call(
                    turn,
                    id,
                    ToolMetricView { dispatched_ns: kept(tool.dispatched_ns, at), ..tool },
                ),
                TurnStage::ToolCompleted => with_call(
                    turn,
                    id,
                    ToolMetricView { completed_ns: latest(tool.completed_ns, at), ..tool },
                ),
                _ => turn,
            }
        },
    }
}

/// What a stage does to the anchors of the summary.
pub open spec fn anchored(s: TurnSummaryView, stage: TurnStage, at: i64) -> TurnSummaryView {
    match stage {
        TurnStage::Submitted => TurnSummaryView { submitted_ns: kept(s.submitted_ns, at), ..s },
        TurnStage::Appended => TurnSummaryView { appended_ns: kept(s.appended_ns, at), ..s },
        TurnStage::FirstToken => TurnSummaryView {
            first_token_ns: earliest(s.first_token_ns, at),
            inference_started_ns: kept(s.inference_started_ns, at),
            ..s
        },
        TurnStage::InferenceStarted => TurnSummaryView {
            inference_started_ns: earliest(s.inference_started_ns, at),
            ..s
        },
        TurnStage::InferenceFinished => TurnSummaryView {
            inference_finished_ns: latest(s.inference_finished_ns, at),
            ..s
        },
        TurnStage::ToolDispatched => TurnSummaryView {
            first_tool_ns: earliest(s.first_tool_ns, at),
            ..s
        },
        TurnStage::Idle => TurnSummaryView { idle_ns: kept(s.idle_ns, at), ..s },
        _ => s,
    }
}

/// A turn after a stage.
pub open spec fn with_stage(turn: TurnView, stage: TurnStage, request: Option<RequestId>, unix_ns: i128) -> TurnView {
    let at = wall_clock(unix_ns);
    let moved = with_stage_row(turn, stage, request, at);
    TurnView { summary: summarized(anchored(moved.summary, stage, at)), ..moved }
}

/// A counter one higher, stopping at its largest value.
pub open spec fn bumped(count: u32) -> u32 {
    if count < u32::MAX {
        (count + 1) as u32
    } else {
        count
    }
}

/// A turn after a request waited.
pub open spec fn with_wait(turn: TurnView, id: Seq<char>, kind: WaitKind) -> TurnView {
    let row = row_at(turn.inference, id);
    let m = row.metric;
    let s = turn.summary;
    let (metric, summary) = match kind {
        WaitKind::Retry => (
            InferenceMetricView { retries: bumped(m.retries), ..m },
            TurnSummaryView { retries: (s.retries + 1) as u64, ..s },
        ),
        WaitKind::RateLimit => (
            InferenceMetricView { rate_limit_waits: bumped(m.rate_limit_waits), ..m },
            TurnSummaryView { rate_limit_waits: (s.rate_limit_waits + 1) as u64, ..s },
        ),
        WaitKind::MissingGateway => (
            InferenceMetricView { gateway_waits: bumped(m.gateway_waits), ..m },
            TurnSummaryView { gateway_waits: (s.gateway_waits + 1) as u64, ..s },
        ),
        WaitKind::ProviderFailure => (
            InferenceMetricView { provider_failures: bumped(m.provider_failures), ..m },
            TurnSummaryView { provider_failures: (s.provider_failures + 1) as u64, ..s },
        ),
    };
    with_row(TurnView { summary, ..turn }, id, InferenceRowView { metric, ..row })
}

/// A computer sample that holds nothing.
pub open spec fn blank_computer() -> ComputerMetric {
    ComputerMetric {
        placement_ms: None,
        cold: None,
        chunks_fetched: 0,
        bytes_fetched: 0,
        fetch_p50_ms: None,
        fetch_p95_ms: None,
        first_tool_chunks_fetched: None,
        first_tool_bytes_fetched: None,
        first_tool_fetch_p50_ms: None,
        first_tool_fetch_p95_ms: None,
    }
}

/// A counter that keeps its first value other than zero.
pub open spec fn first_counted(old: u64, update: u64) -> u64 {
    if old > 0 {
        old
    } else {
        update
    }
}

/// A computer sample merged into what the turn holds: the first sample of each field stays.
pub open spec fn resampled(current: Option<ComputerMetric>, value: ComputerMetric) -> ComputerMetric {
    let c = match current {
        Some(c) => c,
        None => blank_computer(),
    };
    ComputerMetric {
        placement_ms: first_kept(c.placement_ms, value.placement_ms),
        cold: first_kept(c.cold, value.cold),
        chunks_fetched: first_counted(c.chunks_fetched, value.chunks_fetched),
        bytes_fetched: first_counted(c.bytes_fetched, value.bytes_fetched),
        fetch_p50_ms: first_kept(c.fetch_p50_ms, value.fetch_p50_ms),
        fetch_p95_ms: first_kept(c.fetch_p95_ms, value.fetch_p95_ms),
        first_tool_chunks_fetched: first_kept(
            c.first_tool_chunks_fetched,
            value.first_tool_chunks_fetched,
        ),
        first_tool_bytes_fetched: first_kept(
            c.first_tool_bytes_fetched,
            value.first_tool_bytes_fetched,
        ),
        first_tool_fetch_p50_ms: first_kept(
            c.first_tool_fetch_p50_ms,
            value.first_tool_fetch_p50_ms,
        ),
        first_tool_fetch_p95_ms: first_kept(
            c.first_tool_fetch_p95_ms,
            value.first_tool_fetch_p95_ms,
        ),
    }
}

/// A turn after one observation.
pub open spec fn patched(turn: TurnView, patch: PatchView) -> TurnView {
    match patch {
        PatchView::Stage { stage, request_id, unix_ns } => with_stage(turn, stage, request_id, unix_ns),
        PatchView::Inference { update } => with_inference(turn, update),
        PatchView::Tool { update } => with_tool(turn, update),
        PatchView::Computer { value } => TurnView {
            summary: TurnSummaryView {
                computer: Some(resampled(turn.summary.computer, value)),
                ..turn.summary
            },
            ..turn
        },
        PatchView::Error { value } => TurnView {
            summary: TurnSummaryView { error: Some(clip(value, 512)), ..turn.summary },
            ..turn
        },
        PatchView::Wait { request_id, kind } => with_wait(turn, request_id, kind),
    }
}

/// A turn after observations in order.
pub open spec fn patched_all(turn: TurnView, patches: Seq<PatchView>) -> TurnView
    decreases patches.len(),
{
    if patches.len() == 0 {
        turn
    } else {
        patched(patched_all(turn, patches.drop_last()), patches.last())
    }
}

/// What observations add to the plain counters of a summary, and how many of them are updates of a
/// request.
pub ghost struct Additions {
    pub requests: nat,
    pub errors: nat,
    pub rates: nat,
    pub tools: nat,
    pub retries: nat,
    pub rate_limit_waits: nat,
    pub gateway_waits: nat,
    pub provider_failures: nat,
}

/// One where a condition holds, else none.
pub open spec fn counted_if(condition: bool) -> nat {
    if condition {
        1
    } else {
        0
    }
}

/// Whether an observation is a wait of a kind.
pub open spec fn waits_for(patch: PatchView, kind: WaitKind) -> bool {
    patch matches PatchView::Wait { kind: found, .. } && found == kind
}

/// Whether an observation changes the row of an inference request.
pub open spec fn measures_request(patch: PatchView) -> bool {
    match patch {
        PatchView::Stage { stage, request_id, .. } => request_id is Some && (stage
            == TurnStage::FirstToken || stage == TurnStage::InferenceStarted || stage
            == TurnStage::InferenceFinished),
        PatchView::Inference { .. } => true,
        PatchView::Wait { .. } => true,
        _ => false,
    }
}

/// Whether an observation changes the row of a tool call.
pub open spec fn measures_call(patch: PatchView) -> bool {
    match patch {
        PatchView::Stage { stage, request_id, .. } => request_id is Some && (stage
            == TurnStage::ToolDispatched || stage == TurnStage::ToolCompleted),
        PatchView::Tool { .. } => true,
        _ => false,
    }
}

/// The most that one observation adds.
pub open spec fn additions(patch: PatchView) -> Additions {
    Additions {
        requests: counted_if(patch is Inference),
        errors: counted_if(patch matches PatchView::Inference { update } && update.error is Some),
        rates: counted_if(measures_request(patch)),
        tools: counted_if(measures_call(patch)),
        retries: counted_if(waits_for(patch, WaitKind::Retry)),
        rate_limit_waits: counted_if(waits_for(patch, WaitKind::RateLimit)),
        gateway_waits: counted_if(waits_for(patch, WaitKind::MissingGateway)),
        provider_failures: counted_if(waits_for(patch, WaitKind::ProviderFailure)),
    }
}

/// The most that observations add together.
pub open spec fn all_additions(patches: Seq<PatchView>) -> Additions
    decreases patches.len(),
{
    if patches.len() == 0 {
        Additions {
            requests: 0,
            errors: 0,
            rates: 0,
            tools: 0,
            retries: 0,
            rate_limit_waits: 0,
            gateway_waits: 0,
            provider_failures: 0,
        }
    } else {
        let first = additions(patches[0]);
        let rest = all_additions(patches.skip(1));
        Additions {
            requests: first.requests + rest.requests,
            errors: first.errors + rest.errors,
            rates: first.rates + rest.rates,
            tools: first.tools + rest.tools,
            retries: first.retries + rest.retries,
            rate_limit_waits: first.rate_limit_waits + rest.rate_limit_waits,
            gateway_waits: first.gateway_waits + rest.gateway_waits,
            provider_failures: first.provider_failures + rest.provider_failures,
        }
    }
}

/// Whether a counter of waits can take `waits` more among `requests` updates of a request. An
/// update raises the counter by a number of 32 bits at most and stops at its largest value, so a
/// counter without waits needs no room.
pub open spec fn waits_fit(counter: u64, waits: nat, requests: nat) -> bool {
    waits == 0 || counter + waits + requests * 0xffff_ffff <= u64::MAX
}

/// Whether the plain counters of a summary can take what is added.
pub open spec fn takes(s: TurnSummaryView, added: Additions) -> bool {
    &&& s.inference_errors + added.errors <= u64::MAX
    &&& s.throughput_count + added.rates <= u64::MAX
    &&& s.tool_count + added.tools <= u64::MAX
    &&& waits_fit(s.retries, added.retries, added.requests)
    &&& waits_fit(s.rate_limit_waits, added.rate_limit_waits, added.requests)
    &&& waits_fit(s.gateway_waits, added.gateway_waits, added.requests)
    &&& waits_fit(s.provider_failures, added.provider_failures, added.requests)
}

/// Whether a summary has room for one observation.
pub open spec fn room_for(s: TurnSummaryView, patch: PatchView) -> bool {
    takes(s, additions(patch))
}

/// Whether a summary has room for observations in order.
pub open spec fn has_room(s: TurnSummaryView, patches: Seq<PatchView>) -> bool {
    takes(s, all_additions(patches))
}

fn wait_room(counter: u64, waits: u64, requests: u64) -> (fits: bool)
    ensures
        fits == waits_fit(counter, waits as nat, requests as nat),
{
    waits == 0 || counter as u128 + waits as u128 + requests as u128 * 0xffff_ffff <= u64::MAX as u128
}

/// Tells whether a summary's plain counters can take observations.
pub fn turn_has_room(summary: &TurnSummary, patches: &Vec<MetricPatch>) -> (room: bool)
    ensures
        room == has_room(summary@, patch_views(patches@)),
{
    let ghost views = patch_views(patches@);
    let mut requests: u64 = 0;
    let mut errors: u64 = 0;
    let mut rates: u64 = 0;
    let mut tools: u64 = 0;
    let mut retries: u64 = 0;
    let mut rate_limit_waits: u64 = 0;
    let mut gateway_waits: u64 = 0;
    let mut provider_failures: u64 = 0;
    let mut left: usize = patches.len();
    assert(views.skip(left as int) =~= Seq::<PatchView>::empty());
    while left > 0
        invariant
            left <= patches.len(),
            views == patch_views(patches@),
            all_additions(views.skip(left as int)) == (Additions {
                requests: requests as nat,
                errors: errors as nat,
                rates: rates as nat,
                tools: tools as nat,
                retries: retries as nat,
                rate_limit_waits: rate_limit_waits as nat,
                gateway_waits: gateway_waits as nat,
                provider_failures: provider_failures as nat,
            }),
            requests <= patches.len() - left,
            errors <= patches.len() - left,
            rates <= patches.len() - left,
            tools <= patches.len() - left,
            retries <= patches.len() - left,
            rate_limit_waits <= patches.len() - left,
            gateway_waits <= patches.len() - left,
            provider_failures <= patches.len() - left,
        decreases left,
    {
        left -= 1;
        proof {
            assert(views.skip(left as int).skip(1) =~= views.skip(left + 1));
            assert(views.skip(left as int)[0] == patches@[left as int]@);
        }
        match &patches[left] {
            MetricPatch::Stage(event) => {
                if event.request_id.is_some() {
                    match event.stage {
                        TurnStage::FirstToken => {
                            rates += 1;
                        },
                        TurnStage::InferenceStarted => {
                            rates += 1;
                        },
                        TurnStage::InferenceFinished => {
                            rates += 1;
                        },
                        TurnStage::ToolDispatched => {
                            tools += 1;
                        },
                        TurnStage::ToolCompleted => {
                            tools += 1;
                        },
                        _ => {},
                    }
                }
            },
            MetricPatch::Inference(update) => {
                requests += 1;
                rates += 1;
                if update.error.is_some() {
                    errors += 1;
                }
            },
            MetricPatch::Tool(_) => {
                tools += 1;
            },
            MetricPatch::Wait { kind, .. } => {
                rates += 1;
                match kind {
                    WaitKind::Retry => {
                        retries += 1;
                    },
                    WaitKind::RateLimit => {
                        rate_limit_waits += 1;
                    },
                    WaitKind::MissingGateway => {
                        gateway_waits += 1;
                    },
                    WaitKind::ProviderFailure => {
                        provider_failures += 1;
                    },
                }
            },
            _ => {},
        }
    }
    assert(views.skip(0) =~= views);
    errors <= u64::MAX - summary.inference_errors && rates <= u64::MAX - summary.throughput_count
        && tools <= u64::MAX - summary.tool_count && wait_room(summary.retries, retries, requests)
        && wait_room(summary.rate_limit_waits, rate_limit_waits, requests) && wait_room(
        summary.gateway_waits,
        gateway_waits,
        requests,
    ) && wait_room(summary.provider_failures, provider_failures, requests)
}

// ---------------------------------------------------------------------------------------------
// Merging observations
// ---------------------------------------------------------------------------------------------

pub(crate) fn wall_ns(first: Option<i64>, last: Option<i64>) -> (elapsed: Option<i64>)
    ensures
        elapsed == wall(first, last),
{
    match (first, last) {
        (Some(a), Some(b)) => match b.checked_sub(a) {
            Some(nanos) => if nanos >= 0 {
                Some(nanos)
            } else {
                None
            },
            None => None,
        },
        _ => None,
    }
}

fn unix_ns(event: &TurnEvent) -> (at: i64)
    ensures
        at == wall_clock(event.unix_ns),
{
    if i64::MIN as i128 <= event.unix_ns && event.unix_ns <= i64::MAX as i128 {
        event.unix_ns as i64
    } else {
        i64::MAX
    }
}

fn keep(anchor: Option<i64>, at: i64) -> (next: Option<i64>)
    ensures
        next == kept(anchor, at),
{
    match anchor {
        Some(old) => Some(old),
        None => Some(at),
    }
}

fn keep_earliest(anchor: Option<i64>, at: i64) -> (next: Option<i64>)
    ensures
        next == earliest(anchor, at),
{
    match anchor {
        Some(old) => if old <= at {
            Some(old)
        } else {
            Some(at)
        },
        None => Some(at),
    }
}

fn keep_latest(anchor: Option<i64>, at: i64) -> (next: Option<i64>)
    ensures
        next == latest(anchor, at),
{
    match anchor {
        Some(old) => if old >= at {
            Some(old)
        } else {
            Some(at)
        },
        None => Some(at),
    }
}

impl InferenceMetric {
    /// Throughput of a request; none without tokens or without elapsed time.
    pub fn tokens_per_second(tokens: u64, nanos: i64) -> (rate: Option<Rate>)
        ensures
            rate == tokens_per_second(tokens, nanos),
    {
        if tokens > 0 && nanos > 0 {
            Some(Rate { tokens, nanos })
        } else {
            None
        }
    }

    /// A metric that names its request and holds nothing else.
    pub fn blank(request_id: &str) -> (metric: InferenceMetric)
        ensures
            metric@ == blank_metric(request_id@),
    {
        InferenceMetric {
            request_id: request_id.to_owned(),
            provider: String::new(),
            model: String::new(),
            input_tokens: 0,
            cached_input_tokens: 0,
            output_tokens: 0,
            reasoning_tokens: 0,
            cost_micros: 0,
            time_to_first_token_ns: None,
            streaming_duration_ns: None,
            request_duration_ns: None,
            streamed: false,
            output_rate: None,
            retries: 0,
            rate_limit_waits: 0,
            gateway_waits: 0,
            provider_failures: 0,
            error: None,
        }
    }

    /// The same metric.
    pub fn copy(&self) -> (copy: InferenceMetric)
        ensures
            copy == *self,
    {
        InferenceMetric {
            request_id: self.request_id.clone(),
            provider: self.provider.clone(),
            model: self.model.clone(),
            input_tokens: self.input_tokens,
            cached_input_tokens: self.cached_input_tokens,
            output_tokens: self.output_tokens,
            reasoning_tokens: self.reasoning_tokens,
            cost_micros: self.cost_micros,
            time_to_first_token_ns: self.time_to_first_token_ns,
            streaming_duration_ns: self.streaming_duration_ns,
            request_duration_ns: self.request_duration_ns,
            streamed: self.streamed,
            output_rate: self.output_rate,
            retries: self.retries,
            rate_limit_waits: self.rate_limit_waits,
            gateway_waits: self.gateway_waits,
            provider_failures: self.provider_failures,
            error: copy_option(&self.error),
        }
    }
}

impl InferenceRow {
    /// A row that names its request and holds nothing else.
    pub fn blank(request_id: &str) -> (row: InferenceRow)
        ensures
            row@ == blank_row(request_id@),
    {
        InferenceRow {
            metric: InferenceMetric::blank(request_id),
            started_ns: None,
            first_token_ns: None,
            finished_ns: None,
        }
    }

    /// The same row.
    pub fn copy(&self) -> (copy: InferenceRow)
        ensures
            copy == *self,
    {
        InferenceRow {
            metric: self.metric.copy(),
            started_ns: self.started_ns,
            first_token_ns: self.first_token_ns,
            finished_ns: self.finished_ns,
        }
    }
}

impl ToolMetric {
    /// A tool row that names its call and holds nothing else.
    pub fn blank(request_id: &str) -> (row: ToolMetric)
        ensures
            row@ == blank_tool(request_id@),
    {
        ToolMetric {
            request_id: request_id.to_owned(),
            name: String::new(),
            dispatched_ns: None,
            started_ns: None,
            completed_ns: None,
            exit_status: None,
            output_bytes: None,
            queue_ms: None,
            process_wall_ms: None,
        }
    }

    /// The same row.
    pub fn copy(&self) -> (copy: ToolMetric)
        ensures
            copy == *self,
    {
        ToolMetric {
            request_id: self.request_id.clone(),
            name: self.name.clone(),
            dispatched_ns: self.dispatched_ns,
            started_ns: self.started_ns,
            completed_ns: self.completed_ns,
            exit_status: self.exit_status,
            output_bytes: self.output_bytes,
            queue_ms: self.queue_ms,
            process_wall_ms: self.process_wall_ms,
        }
    }
}

/// A summary without observations.
pub open spec fn blank_summary(session_id: Seq<char>, turn_id: Seq<char>) -> TurnSummaryView {
    TurnSummaryView {
        session_id,
        turn_id,
        submitted_ns: None,
        appended_ns: None,
        first_token_ns: None,
        first_tool_ns: None,
        idle_ns: None,
        inference_started_ns: None,
        inference_finished_ns: None,
        computer: None,
        append_to_first_token_ns: None,
        inference_duration_ns: None,
        append_to_idle_ns: None,
        error: None,
        input_tokens: 0,
        cached_input_tokens: 0,
        output_tokens: 0,
        reasoning_tokens: 0,
        cost_micros: 0,
        retries: 0,
        rate_limit_waits: 0,
        gateway_waits: 0,
        provider_failures: 0,
        inference_errors: 0,
        throughput: Seq::empty(),
        throughput_count: 0,
        tool_count: 0,
    }
}

impl TurnSummary {
    /// A summary without observations.
    pub fn blank(session_id: &str, turn_id: &str) -> (summary: TurnSummary)
        ensures
            summary@ == blank_summary(session_id@, turn_id@),
    {
        TurnSummary {
            session_id: session_id.to_owned(),
            turn_id: turn_id.to_owned(),
            submitted_ns: None,
            appended_ns: None,
            first_token_ns: None,
            first_tool_ns: None,
            idle_ns: None,
            inference_started_ns: None,
            inference_finished_ns: None,
            computer: None,
            append_to_first_token_ns: None,
            inference_duration_ns: None,
            append_to_idle_ns: None,
            error: None,
            input_tokens: 0,
            cached_input_tokens: 0,
            output_tokens: 0,
            reasoning_tokens: 0,
            cost_micros: 0,
            retries: 0,
            rate_limit_waits: 0,
            gateway_waits: 0,
            provider_failures: 0,
            inference_errors: 0,
            throughput: Vec::new(),
            throughput_count: 0,
            tool_count: 0,
        }
    }
}

pub(crate) fn derive_summary(summary: &mut TurnSummary)
    ensures
        final(summary)@ == summarized(old(summary)@),
{
    summary.append_to_first_token_ns = wall_ns(summary.appended_ns, summary.first_token_ns);
    summary.inference_duration_ns =
        wall_ns(summary.inference_started_ns, summary.inference_finished_ns);
    summary.append_to_idle_ns = wall_ns(summary.appended_ns, summary.idle_ns);
}

/// Recomputes a row's timings and throughput from its anchors.
pub fn derive_inference(row: &mut InferenceRow)
    ensures
        final(row)@ == derived(old(row)@),
{
    let first: Option<i64> = wall_ns(row.started_ns, row.first_token_ns);
    let streaming: Option<i64> = wall_ns(row.first_token_ns, row.finished_ns);
    let request: Option<i64> = wall_ns(row.started_ns, row.finished_ns);
    let tokens: u64 = row.metric.output_tokens;
    row.metric.time_to_first_token_ns = first;
    row.metric.streaming_duration_ns = streaming;
    row.metric.request_duration_ns = request;
    row.metric.output_rate = match request {
        Some(nanos) => InferenceMetric::tokens_per_second(tokens, nanos),
        None => match streaming {
            Some(nanos) => InferenceMetric::tokens_per_second(tokens, nanos),
            None => None,
        },
    };
}

fn adjust_throughput(summary: &mut TurnSummary, old_rate: Option<Rate>, new_rate: Option<Rate>)
    requires
        old(summary).throughput_count < u64::MAX,
    ensures
        final(summary)@ == rerated(old(summary)@, old_rate, new_rate),
{
    let change = RateChange { removed: old_rate, added: new_rate };
    match (old_rate, new_rate) {
        (Some(a), Some(b)) => {
            if a.tokens != b.tokens || a.nanos != b.nanos {
                summary.throughput.push(change);
            }
        },
        (Some(_), None) => {
            summary.throughput.push(change);
            summary.throughput_count = summary.throughput_count.saturating_sub(1);
        },
        (None, Some(_)) => {
            summary.throughput.push(change);
            summary.throughput_count = summary.throughput_count + 1;
        },
        (None, None) => {},
    }
}

proof fn inference_views_insert(rows: Map<Seq<char>, InferenceRow>, key: Seq<char>, row: InferenceRow)
    ensures
        inference_views(rows.insert(key, row)) == inference_views(rows).insert(key, row@),
{
    assert(inference_views(rows.insert(key, row)) =~= inference_views(rows).insert(key, row@));
}

proof fn tool_views_insert(rows: Map<Seq<char>, ToolMetric>, key: Seq<char>, row: ToolMetric)
    ensures
        tool_views(rows.insert(key, row)) == tool_views(rows).insert(key, row@),
{
    assert(tool_views(rows.insert(key, row)) =~= tool_views(rows).insert(key, row@));
}

fn inference_entry(rows: &TextMap<InferenceRow>, id: &str) -> (row: InferenceRow)
    requires
        rows.wf(),
    ensures
        row@ == row_at(inference_views(rows@), id@),
{
    match rows.get(id) {
        Some(row) => row.copy(),
        None => InferenceRow::blank(id),
    }
}

fn tool_entry(rows: &TextMap<ToolMetric>, id: &str) -> (row: ToolMetric)
    requires
        rows.wf(),
    ensures
        row@ == tool_at(tool_views(rows@), id@),
{
    match rows.get(id) {
        Some(row) => row.copy(),
        None => ToolMetric::blank(id),
    }
}

fn current_rate(rows: &TextMap<InferenceRow>, id: &str) -> (rate: Option<Rate>)
    requires
        rows.wf(),
    ensures
        rate == rate_at(inference_views(rows@), id@),
{
    match rows.get(id) {
        Some(row) => row.metric.output_rate,
        None => None,
    }
}

fn max_u32(a: u32, b: u32) -> (m: u32)
    ensures
        m == larger(a, b),
{
    if a >= b {
        a
    } else {
        b
    }
}

fn retitle(old_text: String, update: &str, max: usize) -> (text: String)
    ensures
        text@ == retitled(old_text@, update@, max as nat),
{
    if update.is_empty() {
        old_text
    } else {
        clipped(update, max)
    }
}

fn more(total: u64, added: u64) -> (sum: u64)
    ensures
        sum == plus(total, added as int),
{
    total.saturating_add(added)
}

fn less(total: u64, taken: u64) -> (rest: u64)
    ensures
        rest == minus(total, taken),
{
    total.saturating_sub(taken)
}

/// Merges a terminal inference update into its row and the turn's totals.
pub fn apply_inference_update(turn: &mut TurnWrite, update: &InferenceMetric)
    requires
        old(turn).wf(),
        old(turn).summary.throughput_count < u64::MAX,
        update.error is Some ==> old(turn).summary.inference_errors < u64::MAX,
    ensures
        final(turn).wf(),
        final(turn)@ == with_inference(old(turn)@, update@),
{
    let ghost before = turn@;
    let mut row = inference_entry(&turn.inference, update.request_id.as_str());
    let ghost old_row = row@;
    let old_rate: Option<Rate> = row.metric.output_rate;
    let input: u64 = less(update.input_tokens, row.metric.input_tokens);
    let cached: u64 = less(update.cached_input_tokens, row.metric.cached_input_tokens);
    let output: u64 = less(update.output_tokens, row.metric.output_tokens);
    let reasoning: u64 = less(update.reasoning_tokens, row.metric.reasoning_tokens);
    let cost: u64 = less(update.cost_micros, row.metric.cost_micros);
    let retries: u32 = max_u32(row.metric.retries, update.retries);
    let rate_limits: u32 = max_u32(row.metric.rate_limit_waits, update.rate_limit_waits);
    let gateways: u32 = max_u32(row.metric.gateway_waits, update.gateway_waits);
    let failures: u32 = max_u32(row.metric.provider_failures, update.provider_failures);
    let old_error: bool = row.metric.error.is_some();
    if update.error.is_some() {
        turn.summary.error = copy_option(&update.error);
    } else if turn.summary.error.is_some() && old_error {
        turn.summary.error = None;
    }
    turn.summary.input_tokens = more(turn.summary.input_tokens, input);
    turn.summary.cached_input_tokens = more(turn.summary.cached_input_tokens, cached);
    turn.summary.output_tokens = more(turn.summary.output_tokens, output);
    turn.summary.reasoning_tokens = more(turn.summary.reasoning_tokens, reasoning);
    turn.summary.cost_micros = more(turn.summary.cost_micros, cost);
    turn.summary.retries = more(turn.summary.retries, (retries - row.metric.retries) as u64);
    turn.summary.rate_limit_waits = more(
        turn.summary.rate_limit_waits,
        (rate_limits - row.metric.rate_limit_waits) as u64,
    );
    turn.summary.gateway_waits = more(
        turn.summary.gateway_waits,
        (gateways - row.metric.gateway_waits) as u64,
    );
    turn.summary.provider_failures = more(
        turn.summary.provider_failures,
        (failures - row.metric.provider_failures) as u64,
    );
    if !old_error && update.error.is_some() {
        turn.summary.inference_errors = turn.summary.inference_errors + 1;
    } else if old_error && update.error.is_none() {
        turn.summary.inference_errors = less(turn.summary.inference_errors, 1);
    }
    row.metric.provider = retitle(row.metric.provider, update.provider.as_str(), 80);
    row.metric.model = retitle(row.metric.model, update.model.as_str(), 120);
    row.metric.input_tokens = update.input_tokens;
    row.metric.cached_input_tokens = update.cached_input_tokens;
    row.metric.output_tokens = update.output_tokens;
    row.metric.reasoning_tokens = update.reasoning_tokens;
    row.metric.cost_micros = update.cost_micros;
    row.metric.streamed = update.streamed;
    row.metric.error = copy_option(&update.error);
    row.metric.retries = retries;
    row.metric.rate_limit_waits = rate_limits;
    row.metric.gateway_waits = gateways;
    row.metric.provider_failures = failures;
    derive_inference(&mut row);
    assert(row@ == updated_row(old_row, update@));
    adjust_throughput(&mut turn.summary, old_rate, row.metric.output_rate);
    proof {
        inference_views_insert(turn.inference@, update.request_id@, row);
    }
    turn.inference.insert(update.request_id.clone(), row);
    assert(turn@ =~= with_inference(before, update@));
}

fn pick_i64(first: Option<i64>, second: Option<i64>) -> (value: Option<i64>)
    ensures
        value == first_kept(first, second),
{
    if first.is_some() {
        first
    } else {
        second
    }
}

fn pick_title(first: String, second: &str, max: usize) -> (text: String)
    ensures
        text@ == first_titled(first@, second@, max as nat),
{
    if first.as_str().is_empty() {
        clipped(second, max)
    } else {
        first
    }
}

/// Merges a tool update into its row.
pub fn apply_tool_update(turn: &mut TurnWrite, update: &ToolMetric)
    requires
        old(turn).wf(),
        room_for(old(turn)@.summary, PatchView::Tool { update: update@ }),
    ensures
        final(turn).wf(),
        final(turn)@ == with_tool(old(turn)@, update@),
{
    let ghost before = turn@;
    let created: bool = !turn.tools.contains_key(update.request_id.as_str());
    let row = tool_entry(&turn.tools, update.request_id.as_str());
    let ghost old_row = row@;
    let next = ToolMetric {
        request_id: row.request_id,
        name: pick_title(row.name, update.name.as_str(), 80),
        dispatched_ns: pick_i64(row.dispatched_ns, update.dispatched_ns),
        started_ns: pick_i64(row.started_ns, update.started_ns),
        completed_ns: pick_i64(row.completed_ns, update.completed_ns),
        exit_status: if row.exit_status.is_some() {
            row.exit_status
        } else {
            update.exit_status
        },
        output_bytes: if row.output_bytes.is_some() {
            row.output_bytes
        } else {
            update.output_bytes
        },
        queue_ms: if row.queue_ms.is_some() {
            row.queue_ms
        } else {
            update.queue_ms
        },
        process_wall_ms: if row.process_wall_ms.is_some() {
            row.process_wall_ms
        } else {
            update.process_wall_ms
        },
    };
    assert(next@ == updated_tool(old_row, update@));
    if created && next.dispatched_ns.is_none() {
        turn.summary.tool_count = turn.summary.tool_count + 1;
    }
    proof {
        tool_views_insert(turn.tools@, update.request_id@, next);
    }
    turn.tools.insert(update.request_id.clone(), next);
    assert(turn@ =~= with_tool(before, update@));
}

fn put_row(turn: &mut TurnWrite, id: String, row: InferenceRow)
    requires
        old(turn).wf(),
        old(turn).summary.throughput_count < u64::MAX,
    ensures
        final(turn).wf(),
        final(turn)@ == with_row(old(turn)@, id@, row@),
{
    let ghost before = turn@;
    let old_rate: Option<Rate> = current_rate(&turn.inference, id.as_str());
    let mut next = row;
    derive_inference(&mut next);
    adjust_throughput(&mut turn.summary, old_rate, next.metric.output_rate);
    proof {
        inference_views_insert(turn.inference@, id@, next);
    }
    turn.inference.insert(id, next);
    assert(turn@ =~= with_row(before, id@, row@));
}

fn put_call(turn: &mut TurnWrite, id: String, row: ToolMetric)
    requires
        old(turn).wf(),
        old(turn).summary.tool_count < u64::MAX,
    ensures
        final(turn).wf(),
        final(turn)@ == with_call(old(turn)@, id@, row@),
{
    let ghost before = turn@;
    if !turn.tools.contains_key(id.as_str()) {
        turn.summary.tool_count = turn.summary.tool_count + 1;
    }
    proof {
        tool_views_insert(turn.tools@, id@, row);
    }
    turn.tools.insert(id, row);
    assert(turn@ =~= with_call(before, id@, row@));
}

/// Merges a stage into the anchors of the turn and of the row that it names.
pub fn apply_stage(turn: &mut TurnWrite, event: &TurnEvent)
    requires
        old(turn).wf(),
        room_for(
            old(turn)@.summary,
            PatchView::Stage {
                stage: event.stage,
                request_id: event.request_id,
                unix_ns: event.unix_ns,
            },
        ),
    ensures
        final(turn).wf(),
        final(turn)@ == with_stage(old(turn)@, event.stage, event.request_id, event.unix_ns),
{
    let at: i64 = unix_ns(event);
    if let Some(request) = event.request_id {
        match event.stage {
            TurnStage::FirstToken => {
                let id = request.name();
                let mut row = inference_entry(&turn.inference, id.as_str());
                row.first_token_ns = keep_earliest(row.first_token_ns, at);
                put_row(turn, id, row);
            },
            TurnStage::InferenceStarted => {
                let id = request.name();
                let mut row = inference_entry(&turn.inference, id.as_str());
                row.started_ns = keep_earliest(row.started_ns, at);
                put_row(turn, id, row);
            },
            TurnStage::InferenceFinished => {
                let id = request.name();
                let mut row = inference_entry(&turn.inference, id.as_str());
                row.finished_ns = keep_latest(row.finished_ns, at);
                put_row(turn, id, row);
            },
            TurnStage::ToolDispatched => {
                let id = request.name();
                let mut row = tool_entry(&turn.tools, id.as_str());
                row.dispatched_ns = keep(row.dispatched_ns, at);
                put_call(turn, id, row);
            },
            TurnStage::ToolCompleted => {
                let id = request.name();
                let mut row = tool_entry(&turn.tools, id.as_str());
                row.completed_ns = keep_latest(row.completed_ns, at);
                put_call(turn, id, row);
            },
            _ => {},
        }
    }
    assert(turn@ == with_stage_row(old(turn)@, event.stage, event.request_id, at));
    match event.stage {
        TurnStage::Submitted => {
            turn.summary.submitted_ns = keep(turn.summary.submitted_ns, at);
        },
        TurnStage::Appended => {
            turn.summary.appended_ns = keep(turn.summary.appended_ns, at);
        },
        TurnStage::FirstToken => {
            turn.summary.first_token_ns = keep_earliest(turn.summary.first_token_ns, at);
            turn.summary.inference_started_ns = keep(turn.summary.inference_started_ns, at);
        },
        TurnStage::InferenceStarted => {
            turn.summary.inference_started_ns =
                keep_earliest(turn.summary.inference_started_ns, at);
        },
        TurnStage::InferenceFinished => {
            turn.summary.inference_finished_ns =
                keep_latest(turn.summary.inference_finished_ns, at);
        },
        TurnStage::ToolDispatched => {
            turn.summary.first_tool_ns = keep_earliest(turn.summary.first_tool_ns, at);
        },
        TurnStage::Idle => {
            turn.summary.idle_ns = keep(turn.summary.idle_ns, at);
        },
        _ => {},
    }
    derive_summary(&mut turn.summary);
}

/// Counts one wait of a request.
pub fn apply_wait(turn: &mut TurnWrite, request_id: &str, kind: WaitKind)
    requires
        old(turn).wf(),
        room_for(old(turn)@.summary, PatchView::Wait { request_id: request_id@, kind }),
    ensures
        final(turn).wf(),
        final(turn)@ == with_wait(old(turn)@, request_id@, kind),
{
    let mut row = inference_entry(&turn.inference, request_id);
    match kind {
        WaitKind::Retry => {
            row.metric.retries = row.metric.retries.saturating_add(1);
            turn.summary.retries = turn.summary.retries + 1;
        },
        WaitKind::RateLimit => {
            row.metric.rate_limit_waits = row.metric.rate_limit_waits.saturating_add(1);
            turn.summary.rate_limit_waits = turn.summary.rate_limit_waits + 1;
        },
        WaitKind::MissingGateway => {
            row.metric.gateway_waits = row.metric.gateway_waits.saturating_add(1);
            turn.summary.gateway_waits = turn.summary.gateway_waits + 1;
        },
        WaitKind::ProviderFailure => {
            row.metric.provider_failures = row.metric.provider_failures.saturating_add(1);
            turn.summary.provider_failures = turn.summary.provider_failures + 1;
        },
    }
    put_row(turn, request_id.to_owned(), row);
}

fn pick_millis(first: Option<Millis>, second: Option<Millis>) -> (value: Option<Millis>)
    ensures
        value == first_kept(first, second),
{
    if first.is_some() {
        first
    } else {
        second
    }
}

fn pick_u64(first: Option<u64>, second: Option<u64>) -> (value: Option<u64>)
    ensures
        value == first_kept(first, second),
{
    if first.is_some() {
        first
    } else {
        second
    }
}

fn pick_count(first: u64, second: u64) -> (count: u64)
    ensures
        count == first_counted(first, second),
{
    if first > 0 {
        first
    } else {
        second
    }
}

/// Merges a computer sample.
pub fn apply_computer(summary: &mut TurnSummary, value: &ComputerMetric)
    ensures
        final(summary)@ == (TurnSummaryView {
            computer: Some(resampled(old(summary)@.computer, *value)),
            ..old(summary)@
        }),
{
    let current = match summary.computer {
        Some(current) => current,
        None => ComputerMetric {
            placement_ms: None,
            cold: None,
            chunks_fetched: 0,
            bytes_fetched: 0,
            fetch_p50_ms: None,
            fetch_p95_ms: None,
            first_tool_chunks_fetched: None,
            first_tool_bytes_fetched: None,
            first_tool_fetch_p50_ms: None,
            first_tool_fetch_p95_ms: None,
        },
    };
    summary.computer = Some(
        ComputerMetric {
            placement_ms: pick_millis(current.placement_ms, value.placement_ms),
            cold: if current.cold.is_some() {
                current.cold
            } else {
                value.cold
            },
            chunks_fetched: pick_count(current.chunks_fetched, value.chunks_fetched),
            bytes_fetched: pick_count(current.bytes_fetched, value.bytes_fetched),
            fetch_p50_ms: pick_millis(current.fetch_p50_ms, value.fetch_p50_ms),
            fetch_p95_ms: pick_millis(current.fetch_p95_ms, value.fetch_p95_ms),
            first_tool_chunks_fetched: pick_u64(
                current.first_tool_chunks_fetched,
                value.first_tool_chunks_fetched,
            ),
            first_tool_bytes_fetched: pick_u64(
                current.first_tool_bytes_fetched,
                value.first_tool_bytes_fetched,
            ),
            first_tool_fetch_p50_ms: pick_millis(
                current.first_tool_fetch_p50_ms,
                value.first_tool_fetch_p50_ms,
            ),
            first_tool_fetch_p95_ms: pick_millis(
                current.first_tool_fetch_p95_ms,
                value.first_tool_fetch_p95_ms,
            ),
        },
    );
}

/// Merges one observation into a turn.
pub fn apply_one(turn: &mut TurnWrite, patch: &MetricPatch)
    requires
        old(turn).wf(),
        room_for(old(turn)@.summary, patch@),
    ensures
        final(turn).wf(),
        final(turn)@ == patched(old(turn)@, patch@),
{
    match patch {
        MetricPatch::Stage(event) => apply_stage(turn, event),
        MetricPatch::Inference(update) => apply_inference_update(turn, update),
        MetricPatch::Tool(update) => apply_tool_update(turn, update),
        MetricPatch::Computer(value) => apply_computer(&mut turn.summary, value),
        MetricPatch::Error(value) => {
            turn.summary.error = Some(clipped(value.as_str(), 512));
        },
        MetricPatch::Wait { request_id, kind } => apply_wait(turn, request_id.as_str(), *kind),
    }
}

/// Whether no plain counter grew by more than what is added.
spec fn barely_grown(before: TurnSummaryView, after: TurnSummaryView, added: Additions) -> bool {
    let step: nat = added.requests * 0xffff_ffff;
    &&& after.retries <= before.retries + added.retries + step
    &&& after.rate_limit_waits <= before.rate_limit_waits + added.rate_limit_waits + step
    &&& after.gateway_waits <= before.gateway_waits + added.gateway_waits + step
    &&& after.provider_failures <= before.provider_failures + added.provider_failures + step
    &&& after.inference_errors <= before.inference_errors + added.errors
    &&& after.throughput_count <= before.throughput_count + added.rates
    &&& after.tool_count <= before.tool_count + added.tools
}

#[verifier::spinoff_prover]
proof fn stages_barely_grow(turn: TurnView, stage: TurnStage, request_id: Option<RequestId>, unix_ns: i128)
    requires
        room_for(turn.summary, PatchView::Stage { stage, request_id, unix_ns }),
    ensures
        barely_grown(
            turn.summary,
            with_stage(turn, stage, request_id, unix_ns).summary,
            additions(PatchView::Stage { stage, request_id, unix_ns }),
        ),
{
}

#[verifier::spinoff_prover]
proof fn requests_barely_grow(turn: TurnView, update: InferenceMetricView)
    requires
        room_for(turn.summary, PatchView::Inference { update }),
    ensures
        barely_grown(
            turn.summary,
            with_inference(turn, update).summary,
            additions(PatchView::Inference { update }),
        ),
{
}

#[verifier::spinoff_prover]
proof fn tools_barely_grow(turn: TurnView, update: ToolMetricView)
    requires
        room_for(turn.summary, PatchView::Tool { update }),
    ensures
        barely_grown(
            turn.summary,
            with_tool(turn, update).summary,
            additions(PatchView::Tool { update }),
        ),
{
}

#[verifier::spinoff_prover]
proof fn waits_barely_grow(turn: TurnView, request_id: Seq<char>, kind: WaitKind)
    requires
        room_for(turn.summary, PatchView::Wait { request_id, kind }),
    ensures
        barely_grown(
            turn.summary,
            with_wait(turn, request_id, kind).summary,
            additions(PatchView::Wait { request_id, kind }),
        ),
{
}

/// Room for observations is room for the first and, after it, for the others.
#[verifier::spinoff_prover]
proof fn room_left(turn: TurnView, patches: Seq<PatchView>)
    requires
        patches.len() > 0,
        has_room(turn.summary, patches),
    ensures
        room_for(turn.summary, patches[0]),
        has_room(patched(turn, patches[0]).summary, patches.skip(1)),
{
    let patch = patches[0];
    let after = patched(turn, patch).summary;
    assert(room_for(turn.summary, patch));
    assert(barely_grown(turn.summary, after, additions(patch))) by {
        match patch {
            PatchView::Stage { stage, request_id, unix_ns } => {
                stages_barely_grow(turn, stage, request_id, unix_ns);
            },
            PatchView::Inference { update } => {
                requests_barely_grow(turn, update);
            },
            PatchView::Tool { update } => {
                tools_barely_grow(turn, update);
            },
            PatchView::Wait { request_id, kind } => {
                waits_barely_grow(turn, request_id, kind);
            },
            _ => {},
        }
    }
}

/// The views of patches in order.
pub open spec fn patch_views(patches: Seq<MetricPatch>) -> Seq<PatchView> {
    patches.map_values(|patch: MetricPatch| patch@)
}

/// Merges observations in order.
pub fn apply_all(turn: &mut TurnWrite, patches: &Vec<MetricPatch>)
    requires
        old(turn).wf(),
        has_room(old(turn)@.summary, patch_views(patches@)),
    ensures
        final(turn).wf(),
        final(turn)@ == patched_all(old(turn)@, patch_views(patches@)),
{
    let ghost before = turn@;
    let ghost views = patch_views(patches@);
    assert(views.take(0) =~= Seq::<PatchView>::empty());
    assert(views.skip(0) =~= views);
    let mut i: usize = 0;
    while i < patches.len()
        invariant
            i <= patches.len(),
            turn.wf(),
            views == patch_views(patches@),
            turn@ == patched_all(before, views.take(i as int)),
            has_room(turn@.summary, views.skip(i as int)),
        decreases patches.len() - i,
    {
        let ghost mid = turn@;
        proof {
            room_left(mid, views.skip(i as int));
            assert(views.skip(i as int).skip(1) =~= views.skip(i + 1));
            assert(views.take(i + 1).drop_last() =~= views.take(i as int));
            assert(views.take(i + 1).last() == patches@[i as int]@);
        }
        apply_one(turn, &patches[i]);
        i += 1;
    }
    assert(views.take(patches@.len() as int) =~= views);
}

/// Whether a counter grew by an amount, or stands at the end of its range where the sum lies beyond.
pub open spec fn grew(after: u64, before: u64, by: int) -> bool {
    after == before + by || after == u64::MAX < before + by
}

/// Whether two summaries name the same turn and agree in every moment of it.
pub open spec fn same_moments(left: TurnSummary, right: TurnSummary) -> bool {
    &&& left.session_id@ == right.session_id@ && left.turn_id@ == right.turn_id@
    &&& left.submitted_ns == right.submitted_ns && left.appended_ns == right.appended_ns
    &&& left.first_token_ns == right.first_token_ns && left.first_tool_ns == right.first_tool_ns
    &&& left.idle_ns == right.idle_ns
    &&& left.inference_started_ns == right.inference_started_ns
    &&& left.inference_finished_ns == right.inference_finished_ns
    &&& left.append_to_first_token_ns == right.append_to_first_token_ns
    &&& left.inference_duration_ns == right.inference_duration_ns
    &&& left.append_to_idle_ns == right.append_to_idle_ns
}

/// Whether two summaries agree in tokens and cost.
pub open spec fn same_tokens(left: TurnSummary, right: TurnSummary) -> bool {
    &&& left.input_tokens == right.input_tokens
    &&& left.cached_input_tokens == right.cached_input_tokens
    &&& left.output_tokens == right.output_tokens
    &&& left.reasoning_tokens == right.reasoning_tokens
    &&& left.cost_micros == right.cost_micros
}

/// Whether two summaries agree in what went wrong.
pub open spec fn same_troubles(left: TurnSummary, right: TurnSummary) -> bool {
    &&& left.retries == right.retries
    &&& left.rate_limit_waits == right.rate_limit_waits
    &&& left.gateway_waits == right.gateway_waits
    &&& left.provider_failures == right.provider_failures
    &&& left.inference_errors == right.inference_errors
    &&& left.error.deep_view() == right.error.deep_view()
}

/// The first report on a request adds its tokens, its cost, its waits and its failure to the turn,
/// each to the counter of its name. The turn's moments, its computer and its tools stay.
pub proof fn first_reports_add_to_the_turn(turn: &mut TurnWrite, update: InferenceMetric)
    requires
        old(turn).wf(),
        old(turn).summary.throughput_count < u64::MAX,
        update.error is Some ==> old(turn).summary.inference_errors < u64::MAX,
        !old(turn).inference@.dom().contains(update.request_id@),
        call_ensures(apply_inference_update, (turn, &update), ()),
    ensures
        ({
            let before = old(turn).summary;
            let after = final(turn).summary;
            &&& grew(after.input_tokens, before.input_tokens, update.input_tokens as int)
            &&& grew(after.cached_input_tokens, before.cached_input_tokens, update.cached_input_tokens as int)
            &&& grew(after.output_tokens, before.output_tokens, update.output_tokens as int)
            &&& grew(after.reasoning_tokens, before.reasoning_tokens, update.reasoning_tokens as int)
            &&& grew(after.cost_micros, before.cost_micros, update.cost_micros as int)
            &&& grew(after.retries, before.retries, update.retries as int)
            &&& grew(after.rate_limit_waits, before.rate_limit_waits, update.rate_limit_waits as int)
            &&& grew(after.gateway_waits, before.gateway_waits, update.gateway_waits as int)
            &&& grew(after.provider_failures, before.provider_failures, update.provider_failures as int)
            &&& update.error is Some ==> after.inference_errors == before.inference_errors + 1
                && after.error.deep_view() == update.error.deep_view()
            &&& update.error is None ==> after.inference_errors == before.inference_errors
                && after.error.deep_view() == before.error.deep_view()
            &&& same_moments(after, before) && after.computer == before.computer
            &&& after.tool_count == before.tool_count && after.throughput_count == before.throughput_count
            &&& final(turn)@.tools == old(turn)@.tools
        }),
{
    let before = old(turn)@.summary;
    let after = final(turn)@.summary;
    assert(after.session_id == before.session_id);
    assert(blank_row(update.request_id@).metric.output_rate is None);
}

/// A later report on a request replaces what the request used and raises the turn's counters by what
/// was added to it; other requests are left alone. Waits never fall.
pub proof fn later_reports_replace_the_request(turn: &mut TurnWrite, update: InferenceMetric, other: Seq<char>)
    requires
        old(turn).wf(),
        old(turn).summary.throughput_count < u64::MAX,
        update.error is Some ==> old(turn).summary.inference_errors < u64::MAX,
        call_ensures(apply_inference_update, (turn, &update), ()),
    ensures
        ({
            let id = update.request_id@;
            let row = final(turn).inference@[id].metric;
            let old_rows = old(turn).inference@;
            let before = old(turn).summary;
            let after = final(turn).summary;
            &&& final(turn).inference@.dom().contains(id)
            &&& row.input_tokens == update.input_tokens && row.cached_input_tokens == update.cached_input_tokens
            &&& row.output_tokens == update.output_tokens && row.reasoning_tokens == update.reasoning_tokens
            &&& row.cost_micros == update.cost_micros && row.streamed == update.streamed
            &&& row.error.deep_view() == update.error.deep_view()
            &&& update.provider@.len() > 0 && update.provider@.len() <= 80 ==> row.provider@ == update.provider@
            &&& update.model@.len() > 0 && update.model@.len() <= 120 ==> row.model@ == update.model@
            &&& row.retries >= update.retries && row.rate_limit_waits >= update.rate_limit_waits
            &&& row.gateway_waits >= update.gateway_waits && row.provider_failures >= update.provider_failures
            &&& old_rows.dom().contains(id) ==> {
                let held = old_rows[id].metric;
                &&& row.request_id@ == held.request_id@
                &&& update.provider@.len() == 0 ==> row.provider@ == held.provider@
                &&& update.model@.len() == 0 ==> row.model@ == held.model@
                &&& row.retries == update.retries || row.retries == held.retries
                &&& row.retries >= held.retries && row.rate_limit_waits >= held.rate_limit_waits
                &&& row.gateway_waits >= held.gateway_waits && row.provider_failures >= held.provider_failures
                &&& update.input_tokens >= held.input_tokens ==> grew(
                    after.input_tokens,
                    before.input_tokens,
                    update.input_tokens - held.input_tokens,
                )
                &&& update.cached_input_tokens >= held.cached_input_tokens ==> grew(
                    after.cached_input_tokens,
                    before.cached_input_tokens,
                    update.cached_input_tokens - held.cached_input_tokens,
                )
                &&& update.output_tokens >= held.output_tokens ==> grew(
                    after.output_tokens,
                    before.output_tokens,
                    update.output_tokens - held.output_tokens,
                )
                &&& update.reasoning_tokens >= held.reasoning_tokens ==> grew(
                    after.reasoning_tokens,
                    before.reasoning_tokens,
                    update.reasoning_tokens - held.reasoning_tokens,
                )
                &&& update.cost_micros >= held.cost_micros ==> grew(
                    after.cost_micros,
                    before.cost_micros,
                    update.cost_micros - held.cost_micros,
                )
                &&& update.input_tokens < held.input_tokens ==> after.input_tokens == before.input_tokens
                &&& grew(after.retries, before.retries, row.retries - held.retries)
                &&& grew(after.rate_limit_waits, before.rate_limit_waits, row.rate_limit_waits - held.rate_limit_waits)
                &&& grew(after.gateway_waits, before.gateway_waits, row.gateway_waits - held.gateway_waits)
                &&& grew(
                    after.provider_failures,
                    before.provider_failures,
                    row.provider_failures - held.provider_failures,
                )
            }
            &&& other != id ==> (final(turn).inference@.dom().contains(other) <==> old_rows.dom().contains(other))
            &&& other != id && old_rows.dom().contains(other) ==> final(turn).inference@[other]@
                == old_rows[other]@
            &&& same_moments(after, before) && after.computer == before.computer
            &&& after.tool_count == before.tool_count
        }),
{
    let id = update.request_id@;
    let rows = final(turn)@.inference;
    let held = old(turn)@.inference;
    assert(rows.dom().contains(id));
    assert(rows[id] == final(turn).inference@[id]@);
    if held.dom().contains(id) {
        assert(held[id] == old(turn).inference@[id]@);
    }
    assert(rows.dom().contains(other) <==> final(turn).inference@.dom().contains(other));
    assert(held.dom().contains(other) <==> old(turn).inference@.dom().contains(other));
    if other != id && held.dom().contains(other) {
        assert(rows[other] == held[other]);
    }
}

/// The durations of a request are the times between its moments: from its start to its first token,
/// from there to its end, and from its start to its end. Nothing is measured backwards.
pub proof fn durations_lie_between_moments(row: &mut InferenceRow)
    requires
        call_ensures(derive_inference, (row,), ()),
    ensures
        ({
            let metric = final(row).metric;
            let held = *old(row);
            &&& final(row).started_ns == held.started_ns && final(row).first_token_ns == held.first_token_ns
            &&& final(row).finished_ns == held.finished_ns
            &&& metric.time_to_first_token_ns matches Some(d) ==> d >= 0 && held.started_ns->0 + d
                == held.first_token_ns->0 && held.started_ns is Some && held.first_token_ns is Some
            &&& metric.streaming_duration_ns matches Some(d) ==> d >= 0 && held.first_token_ns->0 + d
                == held.finished_ns->0 && held.first_token_ns is Some && held.finished_ns is Some
            &&& metric.request_duration_ns matches Some(d) ==> d >= 0 && held.started_ns->0 + d
                == held.finished_ns->0 && held.started_ns is Some && held.finished_ns is Some
            &&& held.started_ns is Some && held.finished_ns is Some && 0 <= held.finished_ns->0
                - held.started_ns->0 <= i64::MAX ==> metric.request_duration_ns is Some
            &&& held.started_ns is Some && held.first_token_ns is Some && 0 <= held.first_token_ns->0
                - held.started_ns->0 <= i64::MAX ==> metric.time_to_first_token_ns is Some
            &&& held.first_token_ns is Some && held.finished_ns is Some && 0 <= held.finished_ns->0
                - held.first_token_ns->0 <= i64::MAX ==> metric.streaming_duration_ns is Some
            &&& metric.output_rate matches Some(rate) ==> rate.tokens == held.metric.output_tokens && rate.tokens
                > 0 && rate.nanos > 0 && (metric.request_duration_ns == Some(rate.nanos)
                || metric.request_duration_ns is None && metric.streaming_duration_ns == Some(rate.nanos))
            &&& metric.request_id@ == held.metric.request_id@ && metric.provider@ == held.metric.provider@
            &&& metric.model@ == held.metric.model@ && metric.input_tokens == held.metric.input_tokens
            &&& metric.output_tokens == held.metric.output_tokens && metric.cost_micros == held.metric.cost_micros
            &&& metric.cached_input_tokens == held.metric.cached_input_tokens
            &&& metric.reasoning_tokens == held.metric.reasoning_tokens
            &&& metric.retries == held.metric.retries
        }),
{
    assert(final(row)@.metric == derived(old(row)@).metric);
}

/// A rate is the tokens over the time that they took; without tokens or time there is none.
pub proof fn rates_are_tokens_over_time(tokens: u64, nanos: i64, rate: Option<Rate>)
    requires
        call_ensures(InferenceMetric::tokens_per_second, (tokens, nanos), rate),
    ensures
        rate is Some <==> tokens > 0 && nanos > 0,
        rate matches Some(found) ==> found.tokens == tokens && found.nanos == nanos,
{
}

/// Whether a moment was set by an observation at a time: it had not been known before, or the earlier
/// one stayed.
pub open spec fn first_seen(after: Option<i64>, before: Option<i64>, at: i64) -> bool {
    &&& before is None ==> after == Some(at)
    &&& before is Some ==> after == before
}

/// Whether a moment is the earliest of what was known and a time.
pub open spec fn seen_early(after: Option<i64>, before: Option<i64>, at: i64) -> bool {
    &&& before is None ==> after == Some(at)
    &&& before matches Some(known) ==> (after matches Some(now) && now <= known && now <= at && (now == known
        || now == at))
}

/// Whether a moment is the latest of what was known and a time.
pub open spec fn seen_late(after: Option<i64>, before: Option<i64>, at: i64) -> bool {
    &&& before is None ==> after == Some(at)
    &&& before matches Some(known) ==> (after matches Some(now) && now >= known && now >= at && (now == known
        || now == at))
}

proof fn stage_rows_keep_the_summary(turn: TurnView, stage: TurnStage, request: Option<RequestId>, at: i64)
    ensures
        ({
            let moved = with_stage_row(turn, stage, request, at).summary;
            moved == (TurnSummaryView {
                throughput: moved.throughput,
                throughput_count: moved.throughput_count,
                tool_count: moved.tool_count,
                ..turn.summary
            })
        }),
{
}

/// A stage sets the moment that it is about and no other: submissions, appends and the end of a turn
/// stay where they were first seen; first tokens, first tools and starts move only earlier, and ends
/// only later. Tokens, cost and troubles are not touched.
pub proof fn stages_set_their_own_moment(turn: &mut TurnWrite, event: TurnEvent)
    requires
        old(turn).wf(),
        room_for(
            old(turn)@.summary,
            PatchView::Stage { stage: event.stage, request_id: event.request_id, unix_ns: event.unix_ns },
        ),
        i64::MIN <= event.unix_ns <= i64::MAX,
        call_ensures(apply_stage, (turn, &event), ()),
    ensures
        ({
            let before = old(turn).summary;
            let after = final(turn).summary;
            let at = event.unix_ns as i64;
            &&& event.stage is Submitted ==> first_seen(after.submitted_ns, before.submitted_ns, at)
            &&& !(event.stage is Submitted) ==> after.submitted_ns == before.submitted_ns
            &&& event.stage is Appended ==> first_seen(after.appended_ns, before.appended_ns, at)
            &&& !(event.stage is Appended) ==> after.appended_ns == before.appended_ns
            &&& event.stage is Idle ==> first_seen(after.idle_ns, before.idle_ns, at)
            &&& !(event.stage is Idle) ==> after.idle_ns == before.idle_ns
            &&& event.stage is FirstToken ==> seen_early(after.first_token_ns, before.first_token_ns, at)
                && first_seen(after.inference_started_ns, before.inference_started_ns, at)
            &&& !(event.stage is FirstToken) ==> after.first_token_ns == before.first_token_ns
            &&& event.stage is InferenceStarted ==> seen_early(
                after.inference_started_ns,
                before.inference_started_ns,
                at,
            )
            &&& !(event.stage is InferenceStarted || event.stage is FirstToken) ==> after.inference_started_ns
                == before.inference_started_ns
            &&& event.stage is InferenceFinished ==> seen_late(
                after.inference_finished_ns,
                before.inference_finished_ns,
                at,
            )
            &&& !(event.stage is InferenceFinished) ==> after.inference_finished_ns
                == before.inference_finished_ns
            &&& event.stage is ToolDispatched ==> seen_early(after.first_tool_ns, before.first_tool_ns, at)
            &&& !(event.stage is ToolDispatched) ==> after.first_tool_ns == before.first_tool_ns
            &&& same_tokens(after, before) && same_troubles(after, before) && after.computer == before.computer
            &&& after.session_id@ == before.session_id@ && after.turn_id@ == before.turn_id@
        }),
{
    let before = old(turn)@.summary;
    let after = final(turn)@.summary;
    let at = wall_clock(event.unix_ns);
    stage_rows_keep_the_summary(old(turn)@, event.stage, event.request_id, at);
    let moved = with_stage_row(old(turn)@, event.stage, event.request_id, at).summary;
    assert(after == summarized(anchored(moved, event.stage, at)));
}

/// After every stage the turn's latencies are the times between its moments: from the append to the
/// first token, from the start of inference to its end, and from the append to the end of the turn.
pub proof fn latencies_lie_between_moments(turn: &mut TurnWrite, event: TurnEvent)
    requires
        old(turn).wf(),
        room_for(
            old(turn)@.summary,
            PatchView::Stage { stage: event.stage, request_id: event.request_id, unix_ns: event.unix_ns },
        ),
        call_ensures(apply_stage, (turn, &event), ()),
    ensures
        ({
            let s = final(turn).summary;
            &&& s.append_to_first_token_ns matches Some(d) ==> d >= 0 && s.appended_ns is Some
                && s.first_token_ns is Some && s.appended_ns->0 + d == s.first_token_ns->0
            &&& s.inference_duration_ns matches Some(d) ==> d >= 0 && s.inference_started_ns is Some
                && s.inference_finished_ns is Some && s.inference_started_ns->0 + d
                == s.inference_finished_ns->0
            &&& s.append_to_idle_ns matches Some(d) ==> d >= 0 && s.appended_ns is Some && s.idle_ns is Some
                && s.appended_ns->0 + d == s.idle_ns->0
            &&& s.appended_ns is Some && s.idle_ns is Some && 0 <= s.idle_ns->0 - s.appended_ns->0 <= i64::MAX
                ==> s.append_to_idle_ns is Some
            &&& s.appended_ns is Some && s.first_token_ns is Some && 0 <= s.first_token_ns->0 - s.appended_ns->0
                <= i64::MAX ==> s.append_to_first_token_ns is Some
            &&& s.inference_started_ns is Some && s.inference_finished_ns is Some && 0
                <= s.inference_finished_ns->0 - s.inference_started_ns->0 <= i64::MAX
                ==> s.inference_duration_ns is Some
        }),
{
    let s = final(turn)@.summary;
    assert(s.appended_ns == final(turn).summary.appended_ns);
}

/// A stage of a request sets the moment of that request's row, or of that call's row, and of no other.
pub proof fn stages_set_their_own_row(turn: &mut TurnWrite, event: TurnEvent, other: Seq<char>)
    requires
        old(turn).wf(),
        room_for(
            old(turn)@.summary,
            PatchView::Stage { stage: event.stage, request_id: event.request_id, unix_ns: event.unix_ns },
        ),
        i64::MIN <= event.unix_ns <= i64::MAX,
        event.request_id is Some,
        call_ensures(apply_stage, (turn, &event), ()),
    ensures
        ({
            let id = request_text(event.request_id->0);
            let at = event.unix_ns as i64;
            let was = row_at(old(turn)@.inference, id);
            let now = final(turn)@.inference[id];
            let call_was = tool_at(old(turn)@.tools, id);
            let call_now = final(turn)@.tools[id];
            &&& event.stage is InferenceStarted ==> seen_early(now.started_ns, was.started_ns, at)
                && now.first_token_ns == was.first_token_ns && now.finished_ns == was.finished_ns
            &&& event.stage is FirstToken ==> seen_early(now.first_token_ns, was.first_token_ns, at)
                && now.started_ns == was.started_ns && now.finished_ns == was.finished_ns
            &&& event.stage is InferenceFinished ==> seen_late(now.finished_ns, was.finished_ns, at)
                && now.started_ns == was.started_ns && now.first_token_ns == was.first_token_ns
            &&& event.stage is ToolDispatched ==> first_seen(call_now.dispatched_ns, call_was.dispatched_ns, at)
                && call_now.completed_ns == call_was.completed_ns
            &&& event.stage is ToolCompleted ==> seen_late(call_now.completed_ns, call_was.completed_ns, at)
                && call_now.dispatched_ns == call_was.dispatched_ns
            &&& other != id ==> (final(turn)@.inference.dom().contains(other) <==> old(turn)@.inference.dom().contains(other))
            &&& other != id && old(turn)@.inference.dom().contains(other) ==> final(turn)@.inference[other]
                == old(turn)@.inference[other]
            &&& other != id && old(turn)@.tools.dom().contains(other) ==> final(turn)@.tools[other] == old(turn)@.tools[other]
            &&& event.stage is ToolDispatched || event.stage is ToolCompleted ==> final(turn).summary.tool_count
                == old(turn).summary.tool_count + (if old(turn)@.tools.dom().contains(id) {
                0int
            } else {
                1
            })
        }),
{
    assert(final(turn)@.summary.tool_count == final(turn).summary.tool_count);
    assert(old(turn)@.summary.tool_count == old(turn).summary.tool_count);
}

/// A wait counts once, for its own kind, on its request and on the turn; nothing else of the turn's
/// counters changes.
pub proof fn waits_count_once(turn: &mut TurnWrite, request_id: &str, kind: WaitKind)
    requires
        old(turn).wf(),
        room_for(old(turn)@.summary, PatchView::Wait { request_id: request_id@, kind }),
        call_ensures(apply_wait, (turn, request_id, kind), ()),
    ensures
        ({
            let before = old(turn).summary;
            let after = final(turn).summary;
            let was = row_at(old(turn)@.inference, request_id@).metric;
            let now = final(turn)@.inference[request_id@].metric;
            &&& after.retries == before.retries + counted_if(kind is Retry)
            &&& after.rate_limit_waits == before.rate_limit_waits + counted_if(kind is RateLimit)
            &&& after.gateway_waits == before.gateway_waits + counted_if(kind is MissingGateway)
            &&& after.provider_failures == before.provider_failures + counted_if(kind is ProviderFailure)
            &&& was.retries < u32::MAX ==> now.retries == was.retries + counted_if(kind is Retry)
            &&& was.rate_limit_waits < u32::MAX ==> now.rate_limit_waits == was.rate_limit_waits + counted_if(
                kind is RateLimit,
            )
            &&& was.gateway_waits < u32::MAX ==> now.gateway_waits == was.gateway_waits + counted_if(
                kind is MissingGateway,
            )
            &&& was.provider_failures < u32::MAX ==> now.provider_failures == was.provider_failures + counted_if(
                kind is ProviderFailure,
            )
            &&& same_tokens(after, before) && same_moments(after, before) && after.computer == before.computer
            &&& after.inference_errors == before.inference_errors && after.tool_count == before.tool_count
            &&& after.error.deep_view() == before.error.deep_view()
            &&& now.input_tokens == was.input_tokens && now.output_tokens == was.output_tokens
            &&& now.cost_micros == was.cost_micros && now.error == was.error
        }),
{
    let before = old(turn)@.summary;
    let after = final(turn)@.summary;
    assert(before.retries == old(turn).summary.retries);
    assert(after.retries == final(turn).summary.retries);
}

/// A report on a tool call fills in what was not known of the call and changes nothing that was. A
/// call that is new and not dispatched is counted.
pub proof fn tool_reports_fill_in(turn: &mut TurnWrite, update: ToolMetric, other: Seq<char>)
    requires
        old(turn).wf(),
        room_for(old(turn)@.summary, PatchView::Tool { update: update@ }),
        call_ensures(apply_tool_update, (turn, &update), ()),
    ensures
        ({
            let id = update.request_id@;
            let was = tool_at(old(turn)@.tools, id);
            let now = final(turn).tools@[id];
            let before = old(turn).summary;
            let after = final(turn).summary;
            &&& final(turn).tools@.dom().contains(id) && now.request_id@ == was.request_id
            &&& was.name.len() > 0 ==> now.name@ == was.name
            &&& was.name.len() == 0 && update.name@.len() <= 80 ==> now.name@ == update.name@
            &&& now.dispatched_ns == (if was.dispatched_ns is Some {
                was.dispatched_ns
            } else {
                update.dispatched_ns
            })
            &&& now.started_ns == (if was.started_ns is Some {
                was.started_ns
            } else {
                update.started_ns
            })
            &&& now.completed_ns == (if was.completed_ns is Some {
                was.completed_ns
            } else {
                update.completed_ns
            })
            &&& now.exit_status == (if was.exit_status is Some {
                was.exit_status
            } else {
                update.exit_status
            })
            &&& now.output_bytes == (if was.output_bytes is Some {
                was.output_bytes
            } else {
                update.output_bytes
            })
            &&& now.queue_ms == (if was.queue_ms is Some {
                was.queue_ms
            } else {
                update.queue_ms
            })
            &&& now.process_wall_ms == (if was.process_wall_ms is Some {
                was.process_wall_ms
            } else {
                update.process_wall_ms
            })
            &&& after.tool_count == before.tool_count + counted_if(
                !old(turn).tools@.dom().contains(id) && now.dispatched_ns is None,
            )
            &&& same_tokens(after, before) && same_moments(after, before) && same_troubles(after, before)
            &&& after.computer == before.computer && final(turn)@.inference == old(turn)@.inference
            &&& other != id ==> (final(turn)@.tools.dom().contains(other) <==> old(turn)@.tools.dom().contains(
                other,
            ))
            &&& other != id && old(turn)@.tools.dom().contains(other) ==> final(turn)@.tools[other] == old(turn)@.tools[other]
        }),
{
    let id = update.request_id@;
    assert(final(turn)@.tools.dom().contains(id));
    assert(final(turn)@.tools[id] == final(turn).tools@[id]@);
    let before = old(turn)@.summary;
    let after = final(turn)@.summary;
    assert(before.tool_count == old(turn).summary.tool_count);
    assert(after.tool_count == final(turn).summary.tool_count);
    assert(old(turn)@.tools.dom().contains(id) <==> old(turn).tools@.dom().contains(id));
}

/// A sample of the computer fills in what was not known of it and changes nothing that was; nothing
/// else of the turn changes.
pub proof fn samples_fill_in(summary: &mut TurnSummary, value: ComputerMetric)
    requires
        call_ensures(apply_computer, (summary, &value), ()),
    ensures
        ({
            let before = *old(summary);
            let after = *final(summary);
            &&& after.computer is Some
            &&& before.computer is None ==> after.computer == Some(value)
            &&& before.computer matches Some(was) ==> {
                let now = after.computer->0;
                &&& was.placement_ms is Some ==> now.placement_ms == was.placement_ms
                &&& was.placement_ms is None ==> now.placement_ms == value.placement_ms
                &&& was.cold is Some ==> now.cold == was.cold
                &&& was.cold is None ==> now.cold == value.cold
                &&& was.chunks_fetched > 0 ==> now.chunks_fetched == was.chunks_fetched
                &&& was.chunks_fetched == 0 ==> now.chunks_fetched == value.chunks_fetched
                &&& was.bytes_fetched > 0 ==> now.bytes_fetched == was.bytes_fetched
                &&& was.bytes_fetched == 0 ==> now.bytes_fetched == value.bytes_fetched
                &&& was.fetch_p50_ms is Some ==> now.fetch_p50_ms == was.fetch_p50_ms
                &&& was.fetch_p50_ms is None ==> now.fetch_p50_ms == value.fetch_p50_ms
                &&& was.fetch_p95_ms is Some ==> now.fetch_p95_ms == was.fetch_p95_ms
                &&& was.fetch_p95_ms is None ==> now.fetch_p95_ms == value.fetch_p95_ms
                &&& was.first_tool_chunks_fetched is Some ==> now.first_tool_chunks_fetched
                    == was.first_tool_chunks_fetched
                &&& was.first_tool_chunks_fetched is None ==> now.first_tool_chunks_fetched
                    == value.first_tool_chunks_fetched
                &&& was.first_tool_bytes_fetched is Some ==> now.first_tool_bytes_fetched
                    == was.first_tool_bytes_fetched
                &&& was.first_tool_bytes_fetched is None ==> now.first_tool_bytes_fetched
                    == value.first_tool_bytes_fetched
                &&& was.first_tool_fetch_p50_ms is Some ==> now.first_tool_fetch_p50_ms
                    == was.first_tool_fetch_p50_ms
                &&& was.first_tool_fetch_p50_ms is None ==> now.first_tool_fetch_p50_ms
                    == value.first_tool_fetch_p50_ms
                &&& was.first_tool_fetch_p95_ms is Some ==> now.first_tool_fetch_p95_ms
                    == was.first_tool_fetch_p95_ms
                &&& was.first_tool_fetch_p95_ms is None ==> now.first_tool_fetch_p95_ms
                    == value.first_tool_fetch_p95_ms
            }
            &&& same_tokens(after, before) && same_moments(after, before) && same_troubles(after, before)
            &&& after.tool_count == before.tool_count && after.throughput_count == before.throughput_count
        }),
{
    let before = old(summary)@;
    let after = final(summary)@;
    assert(after.computer == final(summary).computer);
    assert(before.computer == old(summary).computer);
}

/// An error is kept as the turn's error, word for word up to its limit, and changes nothing else.
pub proof fn errors_are_kept(turn: &mut TurnWrite, patch: MetricPatch, value: String)
    requires
        old(turn).wf(),
        patch == MetricPatch::Error(value),
        room_for(old(turn)@.summary, patch@),
        call_ensures(apply_one, (turn, &patch), ()),
    ensures
        ({
            let before = old(turn).summary;
            let after = final(turn).summary;
            &&& after.error is Some && after.error->0@.len() <= 512
            &&& value@.len() <= 512 ==> after.error->0@ == value@
            &&& after.error->0@ == value@.take(after.error->0@.len() as int)
            &&& same_tokens(after, before) && same_moments(after, before) && after.computer == before.computer
            &&& after.retries == before.retries && after.inference_errors == before.inference_errors
            &&& final(turn)@.inference == old(turn)@.inference && final(turn)@.tools == old(turn)@.tools
        }),
{
    assert(value@ =~= value@.take(value@.len() as int));
    assert(final(turn)@.summary.error == final(turn).summary.error.deep_view());
    assert(final(turn)@.summary.input_tokens == final(turn).summary.input_tokens);
}

/// Every observation goes where its kind says.
pub proof fn observations_go_by_their_kind(turn: TurnView, patch: MetricPatch)
    ensures
        patch matches MetricPatch::Stage(event) ==> patched(turn, patch@) == with_stage(
            turn,
            event.stage,
            event.request_id,
            event.unix_ns,
        ),
        patch matches MetricPatch::Inference(update) ==> patched(turn, patch@) == with_inference(turn, update@),
        patch matches MetricPatch::Tool(update) ==> patched(turn, patch@) == with_tool(turn, update@),
        patch matches MetricPatch::Wait { request_id, kind } ==> patched(turn, patch@) == with_wait(
            turn,
            request_id@,
            kind,
        ),
        patch matches MetricPatch::Computer(value) ==> patched(turn, patch@).summary.computer == Some(
            resampled(turn.summary.computer, value),
        ),
{
}

/// A turn begins with its ids and nothing else.
pub proof fn turns_begin_empty(session_id: &str, turn_id: &str, summary: TurnSummary, request_id: &str, row: InferenceRow, call: ToolMetric)
    requires
        call_ensures(TurnSummary::blank, (session_id, turn_id), summary),
        call_ensures(InferenceRow::blank, (request_id,), row),
        call_ensures(ToolMetric::blank, (request_id,), call),
    ensures
        summary.session_id@ == session_id@ && summary.turn_id@ == turn_id@,
        summary.submitted_ns is None && summary.appended_ns is None && summary.idle_ns is None,
        summary.input_tokens == 0 && summary.output_tokens == 0 && summary.cost_micros == 0,
        summary.cached_input_tokens == 0 && summary.reasoning_tokens == 0 && summary.retries == 0,
        summary.rate_limit_waits == 0 && summary.gateway_waits == 0 && summary.provider_failures == 0,
        summary.inference_errors == 0 && summary.tool_count == 0 && summary.throughput_count == 0,
        summary.error is None && summary.computer is None && summary.throughput@.len() == 0,
        summary.first_token_ns is None && summary.first_tool_ns is None,
        summary.inference_started_ns is None && summary.inference_finished_ns is None,
        summary.append_to_first_token_ns is None && summary.inference_duration_ns is None,
        summary.append_to_idle_ns is None,
        row.metric.cached_input_tokens == 0 && row.metric.reasoning_tokens == 0 && row.metric.cost_micros == 0
            && row.metric.retries == 0 && row.metric.rate_limit_waits == 0 && row.metric.gateway_waits == 0
            && row.metric.provider_failures == 0 && !row.metric.streamed && row.metric.provider@.len() == 0
            && row.metric.model@.len() == 0,
        call.name@.len() == 0 && call.started_ns is None && call.queue_ms is None && call.process_wall_ms is None,
        row.metric.request_id@ == request_id@ && row.started_ns is None && row.finished_ns is None
            && row.first_token_ns is None && row.metric.input_tokens == 0 && row.metric.output_tokens == 0
            && row.metric.error is None && row.metric.output_rate is None,
        call.request_id@ == request_id@ && call.dispatched_ns is None && call.completed_ns is None
            && call.exit_status is None && call.output_bytes is None,
{
    assert(summary@ == blank_summary(session_id@, turn_id@));
    assert(row@ == blank_row(request_id@));
    assert(row.metric@ == row@.metric);
}

/// The turn counts the requests that have a rate: one more for a request that got one, one fewer for
/// one that lost it. A change of rate is noted behind the changes before it.
pub proof fn rates_are_counted(summary: TurnSummaryView, before: Option<Rate>, after: Option<Rate>)
    requires
        summary.throughput_count < u64::MAX,
        before is Some ==> summary.throughput_count > 0,
    ensures
        ({
            let next = rerated(summary, before, after);
            &&& next.throughput_count == summary.throughput_count + counted_if(after is Some) - counted_if(
                before is Some,
            )
            &&& before == after ==> next == summary
            &&& before != after ==> next.throughput.len() == summary.throughput.len() + 1
                && next.throughput.last().removed == before && next.throughput.last().added == after
            &&& next.input_tokens == summary.input_tokens && next.output_tokens == summary.output_tokens
        }),
{
}

/// A batch of one observation does what the observation does, and an empty batch nothing.
pub proof fn batches_of_one_are_the_observation(turn: &mut TurnWrite, patches: Vec<MetricPatch>)
    requires
        old(turn).wf(),
        has_room(old(turn)@.summary, patch_views(patches@)),
        call_ensures(apply_all, (turn, &patches), ()),
    ensures
        patches@.len() == 0 ==> final(turn)@ == old(turn)@,
        patches@.len() == 1 ==> final(turn)@ == patched(old(turn)@, patches@[0]@),
        patches@.len() == 2 ==> final(turn)@ == patched(patched(old(turn)@, patches@[0]@), patches@[1]@),
{
    reveal_with_fuel(patched_all, 3);
    let views = patch_views(patches@);
    assert(views.len() == patches@.len());
    if patches@.len() == 1 {
        assert(views.drop_last() =~= Seq::empty());
        assert(views.last() == patches@[0]@);
    }
    if patches@.len() == 2 {
        assert(views.drop_last().drop_last() =~= Seq::empty());
        assert(views.drop_last().last() == patches@[0]@);
        assert(views.last() == patches@[1]@);
    }
}

proof fn additions_are_few(patches: Seq<PatchView>)
    ensures
        ({
            let added = all_additions(patches);
            &&& added.requests <= patches.len() && added.errors <= patches.len() && added.rates <= patches.len()
            &&& added.tools <= patches.len() && added.retries <= patches.len()
            &&& added.rate_limit_waits <= patches.len() && added.gateway_waits <= patches.len()
            &&& added.provider_failures <= patches.len()
        }),
    decreases patches.len(),
{
    if patches.len() > 0 {
        additions_are_few(patches.skip(1));
    }
}

/// A turn whose counters are far from the end of their range takes any batch of ordinary size.
pub proof fn ordinary_batches_fit(summary: TurnSummary, patches: Vec<MetricPatch>, room: bool)
    requires
        patches@.len() <= 0x1000_0000,
        summary.inference_errors <= 0x4000_0000_0000_0000,
        summary.throughput_count <= 0x4000_0000_0000_0000,
        summary.tool_count <= 0x4000_0000_0000_0000,
        summary.retries <= 0x4000_0000_0000_0000,
        summary.rate_limit_waits <= 0x4000_0000_0000_0000,
        summary.gateway_waits <= 0x4000_0000_0000_0000,
        summary.provider_failures <= 0x4000_0000_0000_0000,
        call_ensures(turn_has_room, (&summary, &patches), room),
    ensures
        room,
{
    let views = patch_views(patches@);
    assert(views.len() == patches@.len());
    additions_are_few(views);
    let n = all_additions(views).requests;
    assert(n * 0xffff_ffff <= 0x1000_0000 * 0xffff_ffff) by (nonlinear_arith)
        requires
            n <= 0x1000_0000,
    ;
}

} // verus!
