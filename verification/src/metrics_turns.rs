//! Whole turns: turns stored before the row layout existed, and the record that a reader
//! assembles from a summary and its rows.

use crate::error::{StoreError, StoreResult};
use crate::ids::{ulid_parse, ulid_value, MessageId, SessionId};
use crate::metrics::{
    blank_summary, derive_inference, derived, earliest, latest, summarized, wall, wall_ns,
    ComputerMetric, InferenceMetric, InferenceMetricView, InferenceRow, InferenceRowView,
    RateChange, ToolMetric, ToolMetricView, TurnSummary, TurnSummaryView,
};
use crate::sort::{key_views, sort_order, stable_order, stable_order_laws, SortKey};
use crate::text::{copy_option, same, same_option, text_less};
use vstd::prelude::*;

verus! {

/// When a stage of a turn was observed.
#[derive(Clone, Debug, PartialEq, Eq)]
pub struct StageTiming {
    pub stage: String,
    pub request_id: Option<String>,
    pub clock_id: String,
    pub monotonic_ns: u64,
    pub unix_ns: i64,
}

/// A turn as readers see it.
#[derive(Clone, Debug, PartialEq, Eq)]
pub struct TurnMetrics {
    pub session_id: String,
    pub turn_id: String,
    pub stages: Vec<StageTiming>,
    pub inference: Vec<InferenceMetric>,
    pub tools: Vec<ToolMetric>,
    pub computer: Option<ComputerMetric>,
    pub append_to_first_token_ns: Option<i64>,
    pub inference_duration_ns: Option<i64>,
    pub append_to_idle_ns: Option<i64>,
    pub error: Option<String>,
    pub dropped_stages: u64,
    pub dropped_inference: u64,
    pub dropped_tools: u64,
}

/// Mathematical value of a [`StageTiming`].
pub ghost struct StageView {
    pub stage: Seq<char>,
    pub request_id: Option<Seq<char>>,
    pub clock_id: Seq<char>,
    pub monotonic_ns: u64,
    pub unix_ns: i64,
}

/// Mathematical value of a [`TurnMetrics`].
#[verifier::ext_equal]
pub ghost struct TurnMetricsView {
    pub session_id: Seq<char>,
    pub turn_id: Seq<char>,
    pub stages: Seq<StageView>,
    pub inference: Seq<InferenceMetricView>,
    pub tools: Seq<ToolMetricView>,
    pub computer: Option<ComputerMetric>,
    pub append_to_first_token_ns: Option<i64>,
    pub inference_duration_ns: Option<i64>,
    pub append_to_idle_ns: Option<i64>,
    pub error: Option<Seq<char>>,
    pub dropped_stages: u64,
    pub dropped_inference: u64,
    pub dropped_tools: u64,
}

impl View for StageTiming {
    type V = StageView;

    open spec fn view(&self) -> StageView {
        StageView {
            stage: self.stage@,
            request_id: self.request_id.deep_view(),
            clock_id: self.clock_id@,
            monotonic_ns: self.monotonic_ns,
            unix_ns: self.unix_ns,
        }
    }
}

/// Views of stages in order.
pub open spec fn stage_views(stages: Seq<StageTiming>) -> Seq<StageView> {
    stages.map_values(|stage: StageTiming| stage@)
}

/// Views of metrics in order.
pub open spec fn metric_views(metrics: Seq<InferenceMetric>) -> Seq<InferenceMetricView> {
    metrics.map_values(|metric: InferenceMetric| metric@)
}

/// Views of rows in order.
pub open spec fn row_views(rows: Seq<InferenceRow>) -> Seq<InferenceRowView> {
    rows.map_values(|row: InferenceRow| row@)
}

/// Views of tool rows in order.
pub open spec fn call_views(tools: Seq<ToolMetric>) -> Seq<ToolMetricView> {
    tools.map_values(|tool: ToolMetric| tool@)
}

impl View for TurnMetrics {
    type V = TurnMetricsView;

    open spec fn view(&self) -> TurnMetricsView {
        TurnMetricsView {
            session_id: self.session_id@,
            turn_id: self.turn_id@,
            stages: stage_views(self.stages@),
            inference: metric_views(self.inference@),
            tools: call_views(self.tools@),
            computer: self.computer,
            append_to_first_token_ns: self.append_to_first_token_ns,
            inference_duration_ns: self.inference_duration_ns,
            append_to_idle_ns: self.append_to_idle_ns,
            error: self.error.deep_view(),
            dropped_stages: self.dropped_stages,
            dropped_inference: self.dropped_inference,
            dropped_tools: self.dropped_tools,
        }
    }
}

// ---------------------------------------------------------------------------------------------
// Anchors in a list of stages
// ---------------------------------------------------------------------------------------------

/// First time a named stage was seen for a request.
pub open spec fn first_time(stages: Seq<StageView>, name: Seq<char>, request: Option<Seq<char>>) -> Option<i64>
    decreases stages.len(),
{
    if stages.len() == 0 {
        None
    } else if stages[0].stage == name && stages[0].request_id == request {
        Some(stages[0].unix_ns)
    } else {
        first_time(stages.skip(1), name, request)
    }
}

/// Earliest time of a named stage.
pub open spec fn min_time(stages: Seq<StageView>, name: Seq<char>) -> Option<i64>
    decreases stages.len(),
{
    if stages.len() == 0 {
        None
    } else if stages.last().stage == name {
        earliest(min_time(stages.drop_last(), name), stages.last().unix_ns)
    } else {
        min_time(stages.drop_last(), name)
    }
}

/// Latest time of a named stage.
pub open spec fn max_time(stages: Seq<StageView>, name: Seq<char>) -> Option<i64>
    decreases stages.len(),
{
    if stages.len() == 0 {
        None
    } else if stages.last().stage == name {
        latest(max_time(stages.drop_last(), name), stages.last().unix_ns)
    } else {
        max_time(stages.drop_last(), name)
    }
}

fn stage_time(stages: &Vec<StageTiming>, name: &str, request: &Option<String>) -> (at: Option<i64>)
    ensures
        at == first_time(stage_views(stages@), name@, request.deep_view()),
{
    let ghost views = stage_views(stages@);
    let mut i: usize = 0;
    assert(views.skip(0) =~= views);
    while i < stages.len()
        invariant
            i <= stages.len(),
            views == stage_views(stages@),
            first_time(views, name@, request.deep_view()) == first_time(
                views.skip(i as int),
                name@,
                request.deep_view(),
            ),
        decreases stages.len() - i,
    {
        assert(views.skip(i as int)[0] == stages@[i as int]@);
        assert(views.skip(i as int).skip(1) =~= views.skip(i + 1));
        if same(stages[i].stage.as_str(), name) && same_option(&stages[i].request_id, request) {
            return Some(stages[i].unix_ns);
        }
        i += 1;
    }
    None
}

fn stage_min(stages: &Vec<StageTiming>, name: &str) -> (at: Option<i64>)
    ensures
        at == min_time(stage_views(stages@), name@),
{
    let ghost views = stage_views(stages@);
    let mut at: Option<i64> = None;
    let mut i: usize = 0;
    while i < stages.len()
        invariant
            i <= stages.len(),
            views == stage_views(stages@),
            at == min_time(views.take(i as int), name@),
        decreases stages.len() - i,
    {
        proof {
            assert(views.take(i + 1).drop_last() =~= views.take(i as int));
            assert(views.take(i + 1).last() == stages@[i as int]@);
        }
        if same(stages[i].stage.as_str(), name) {
            let seen: i64 = stages[i].unix_ns;
            at = match at {
                Some(old_at) => if old_at <= seen {
                    Some(old_at)
                } else {
                    Some(seen)
                },
                None => Some(seen),
            };
        }
        i += 1;
    }
    assert(views.take(i as int) =~= views);
    at
}

fn stage_max(stages: &Vec<StageTiming>, name: &str) -> (at: Option<i64>)
    ensures
        at == max_time(stage_views(stages@), name@),
{
    let ghost views = stage_views(stages@);
    let mut at: Option<i64> = None;
    let mut i: usize = 0;
    while i < stages.len()
        invariant
            i <= stages.len(),
            views == stage_views(stages@),
            at == max_time(views.take(i as int), name@),
        decreases stages.len() - i,
    {
        proof {
            assert(views.take(i + 1).drop_last() =~= views.take(i as int));
            assert(views.take(i + 1).last() == stages@[i as int]@);
        }
        if same(stages[i].stage.as_str(), name) {
            let seen: i64 = stages[i].unix_ns;
            at = match at {
                Some(old_at) => if old_at >= seen {
                    Some(old_at)
                } else {
                    Some(seen)
                },
                None => Some(seen),
            };
        }
        i += 1;
    }
    assert(views.take(i as int) =~= views);
    at
}

/// A request row rebuilt from a metric and the stages that name its request.
pub open spec fn staged_row(stages: Seq<StageView>, metric: InferenceMetricView) -> InferenceRowView {
    derived(
        InferenceRowView {
            metric,
            started_ns: first_time(stages, "inference_started"@, Some(metric.request_id)),
            first_token_ns: first_time(stages, "first_token"@, Some(metric.request_id)),
            finished_ns: first_time(stages, "inference_finished"@, Some(metric.request_id)),
        },
    )
}

fn row_from_stages(stages: &Vec<StageTiming>, metric: &InferenceMetric) -> (row: InferenceRow)
    ensures
        row@ == staged_row(stage_views(stages@), metric@),
{
    let id: Option<String> = Some(metric.request_id.clone());
    let mut row = InferenceRow {
        metric: metric.copy(),
        started_ns: stage_time(stages, "inference_started", &id),
        first_token_ns: stage_time(stages, "first_token", &id),
        finished_ns: stage_time(stages, "inference_finished", &id),
    };
    derive_inference(&mut row);
    row
}

/// A turn with the timings that follow from its stages.
pub open spec fn derived_turn(turn: TurnMetricsView) -> TurnMetricsView {
    TurnMetricsView {
        append_to_first_token_ns: wall(
            min_time(turn.stages, "appended"@),
            min_time(turn.stages, "first_token"@),
        ),
        inference_duration_ns: wall(
            min_time(turn.stages, "inference_started"@),
            max_time(turn.stages, "inference_finished"@),
        ),
        append_to_idle_ns: wall(min_time(turn.stages, "appended"@), min_time(turn.stages, "idle"@)),
        inference: turn.inference.map_values(
            |metric: InferenceMetricView| staged_row(turn.stages, metric).metric,
        ),
        ..turn
    }
}

impl TurnMetrics {
    /// Recomputes the timings of the turn and of its requests from its stages. Throughput covers
    /// the whole request, so a response that came in one chunk reports no absurd rate.
    pub fn derive(&mut self)
        ensures
            final(self)@ == derived_turn(old(self)@),
    {
        let ghost before = self@;
        self.append_to_first_token_ns = wall_ns(
            stage_min(&self.stages, "appended"),
            stage_min(&self.stages, "first_token"),
        );
        self.inference_duration_ns = wall_ns(
            stage_min(&self.stages, "inference_started"),
            stage_max(&self.stages, "inference_finished"),
        );
        self.append_to_idle_ns = wall_ns(
            stage_min(&self.stages, "appended"),
            stage_min(&self.stages, "idle"),
        );
        let mut metrics: Vec<InferenceMetric> = Vec::new();
        let mut i: usize = 0;
        while i < self.inference.len()
            invariant
                i <= self.inference.len(),
                metrics@.len() == i,
                stage_views(self.stages@) == before.stages,
                metric_views(self.inference@) == before.inference,
                forall|j: int|
                    0 <= j < i ==> (#[trigger] metrics@[j])@ == staged_row(
                        before.stages,
                        before.inference[j],
                    ).metric,
            decreases self.inference.len() - i,
        {
            let row = row_from_stages(&self.stages, &self.inference[i]);
            assert(before.inference[i as int] == self.inference@[i as int]@);
            metrics.push(row.metric);
            i += 1;
        }
        self.inference = metrics;
        assert(self@ =~= derived_turn(before));
    }
}

// ---------------------------------------------------------------------------------------------
// Turns stored before rows
// ---------------------------------------------------------------------------------------------

/// Token, cost and wait totals of requests.
pub ghost struct TokenTotals {
    pub input: nat,
    pub cached: nat,
    pub output: nat,
    pub reasoning: nat,
    pub cost: nat,
    pub retries: nat,
    pub rate_limits: nat,
    pub gateways: nat,
    pub failures: nat,
    pub errors: nat,
}

/// Totals over requests.
pub open spec fn token_totals(metrics: Seq<InferenceMetricView>) -> TokenTotals
    decreases metrics.len(),
{
    if metrics.len() == 0 {
        TokenTotals {
            input: 0,
            cached: 0,
            output: 0,
            reasoning: 0,
            cost: 0,
            retries: 0,
            rate_limits: 0,
            gateways: 0,
            failures: 0,
            errors: 0,
        }
    } else {
        let t = token_totals(metrics.drop_last());
        let m = metrics.last();
        TokenTotals {
            input: t.input + m.input_tokens as nat,
            cached: t.cached + m.cached_input_tokens as nat,
            output: t.output + m.output_tokens as nat,
            reasoning: t.reasoning + m.reasoning_tokens as nat,
            cost: t.cost + m.cost_micros as nat,
            retries: t.retries + m.retries as nat,
            rate_limits: t.rate_limits + m.rate_limit_waits as nat,
            gateways: t.gateways + m.gateway_waits as nat,
            failures: t.failures + m.provider_failures as nat,
            errors: t.errors + if m.error is Some {
                1nat
            } else {
                0nat
            },
        }
    }
}

/// Whether totals fit the counters of a summary.
pub open spec fn totals_fit(t: TokenTotals) -> bool {
    &&& t.input <= u64::MAX
    &&& t.cached <= u64::MAX
    &&& t.output <= u64::MAX
    &&& t.reasoning <= u64::MAX
    &&& t.cost <= u64::MAX
    &&& t.retries <= u64::MAX
    &&& t.rate_limits <= u64::MAX
    &&& t.gateways <= u64::MAX
    &&& t.failures <= u64::MAX
    &&& t.errors <= u64::MAX
}

/// Tells whether the totals of a turn that was stored whole fit the counters of a summary.
pub fn record_fits(record: &TurnMetrics) -> (fits: bool)
    ensures
        fits == totals_fit(token_totals(record@.inference)),
{
    let ghost metrics = record@.inference;
    let mut input: u128 = 0;
    let mut cached: u128 = 0;
    let mut output: u128 = 0;
    let mut reasoning: u128 = 0;
    let mut cost: u128 = 0;
    let mut retries: u128 = 0;
    let mut rate_limits: u128 = 0;
    let mut gateways: u128 = 0;
    let mut failures: u128 = 0;
    let mut errors: u128 = 0;
    let mut i: usize = 0;
    assert(metrics.take(0) =~= Seq::<InferenceMetricView>::empty());
    while i < record.inference.len()
        invariant
            i <= record.inference.len(),
            metrics == record@.inference,
            metrics.len() == record.inference@.len(),
            token_totals(metrics.take(i as int)) == (TokenTotals {
                input: input as nat,
                cached: cached as nat,
                output: output as nat,
                reasoning: reasoning as nat,
                cost: cost as nat,
                retries: retries as nat,
                rate_limits: rate_limits as nat,
                gateways: gateways as nat,
                failures: failures as nat,
                errors: errors as nat,
            }),
            input <= i * 0xffff_ffff_ffff_ffff,
            cached <= i * 0xffff_ffff_ffff_ffff,
            output <= i * 0xffff_ffff_ffff_ffff,
            reasoning <= i * 0xffff_ffff_ffff_ffff,
            cost <= i * 0xffff_ffff_ffff_ffff,
            retries <= i * 0xffff_ffff_ffff_ffff,
            rate_limits <= i * 0xffff_ffff_ffff_ffff,
            gateways <= i * 0xffff_ffff_ffff_ffff,
            failures <= i * 0xffff_ffff_ffff_ffff,
            errors <= i * 0xffff_ffff_ffff_ffff,
        decreases record.inference.len() - i,
    {
        let metric = &record.inference[i];
        proof {
            assert(metrics.take(i + 1).drop_last() =~= metrics.take(i as int));
            assert(metrics.take(i + 1).last() == metric@);
        }
        input = input + metric.input_tokens as u128;
        cached = cached + metric.cached_input_tokens as u128;
        output = output + metric.output_tokens as u128;
        reasoning = reasoning + metric.reasoning_tokens as u128;
        cost = cost + metric.cost_micros as u128;
        retries = retries + metric.retries as u128;
        rate_limits = rate_limits + metric.rate_limit_waits as u128;
        gateways = gateways + metric.gateway_waits as u128;
        failures = failures + metric.provider_failures as u128;
        if metric.error.is_some() {
            errors = errors + 1;
        }
        i += 1;
    }
    assert(metrics.take(i as int) =~= metrics);
    let most: u128 = u64::MAX as u128;
    input <= most
        && cached <= most
        && output <= most
        && reasoning <= most
        && cost <= most
        && retries <= most
        && rate_limits <= most
        && gateways <= most
        && failures <= most
        && errors <= most
}

proof fn totals_of_prefix_fit(metrics: Seq<InferenceMetricView>, count: int)
    requires
        0 <= count <= metrics.len(),
        totals_fit(token_totals(metrics)),
    ensures
        totals_fit(token_totals(metrics.take(count))),
    decreases metrics.len() - count,
{
    if count < metrics.len() {
        totals_of_prefix_fit(metrics, count + 1);
        assert(metrics.take(count + 1).drop_last() =~= metrics.take(count));
    } else {
        assert(metrics.take(count) =~= metrics);
    }
}

/// Changes to the throughput sum that rows bring, in order.
pub open spec fn row_rates(rows: Seq<InferenceRowView>) -> Seq<RateChange>
    decreases rows.len(),
{
    if rows.len() == 0 {
        Seq::empty()
    } else if rows.last().metric.output_rate is Some {
        row_rates(rows.drop_last()).push(
            RateChange { removed: None, added: rows.last().metric.output_rate },
        )
    } else {
        row_rates(rows.drop_last())
    }
}

/// The rows of a turn that was stored whole.
pub open spec fn legacy_rows(record: TurnMetricsView) -> Seq<InferenceRowView> {
    record.inference.map_values(
        |metric: InferenceMetricView| staged_row(record.stages, metric),
    )
}

/// The summary of a turn that was stored whole.
pub open spec fn legacy_summary(record: TurnMetricsView) -> TurnSummaryView {
    let t = token_totals(record.inference);
    let rates = row_rates(legacy_rows(record));
    summarized(
        TurnSummaryView {
            submitted_ns: min_time(record.stages, "submitted"@),
            appended_ns: min_time(record.stages, "appended"@),
            first_token_ns: min_time(record.stages, "first_token"@),
            idle_ns: min_time(record.stages, "idle"@),
            inference_started_ns: min_time(record.stages, "inference_started"@),
            inference_finished_ns: max_time(record.stages, "inference_finished"@),
            first_tool_ns: min_time(record.stages, "tool_dispatched"@),
            computer: record.computer,
            error: record.error,
            input_tokens: t.input as u64,
            cached_input_tokens: t.cached as u64,
            output_tokens: t.output as u64,
            reasoning_tokens: t.reasoning as u64,
            cost_micros: t.cost as u64,
            retries: t.retries as u64,
            rate_limit_waits: t.rate_limits as u64,
            gateway_waits: t.gateways as u64,
            provider_failures: t.failures as u64,
            inference_errors: t.errors as u64,
            throughput: rates,
            throughput_count: rates.len() as u64,
            tool_count: record.tools.len() as u64,
            ..blank_summary(record.session_id, record.turn_id)
        },
    )
}

proof fn row_rates_bound(rows: Seq<InferenceRowView>)
    ensures
        row_rates(rows).len() <= rows.len(),
    decreases rows.len(),
{
    if rows.len() > 0 {
        row_rates_bound(rows.drop_last());
    }
}

/// Converts a turn that was stored whole into a summary and rows. Its tools stay as they are.
pub fn migrate_legacy(record: &TurnMetrics) -> (migrated: (TurnSummary, Vec<InferenceRow>))
    requires
        totals_fit(token_totals(record@.inference)),
    ensures
        migrated.0@ == legacy_summary(record@),
        row_views(migrated.1@) == legacy_rows(record@),
{
    let ghost view = record@;
    let ghost all = legacy_rows(view);
    let mut summary = TurnSummary::blank(record.session_id.as_str(), record.turn_id.as_str());
    summary.computer = record.computer;
    summary.error = copy_option(&record.error);
    summary.submitted_ns = stage_min(&record.stages, "submitted");
    summary.appended_ns = stage_min(&record.stages, "appended");
    summary.first_token_ns = stage_min(&record.stages, "first_token");
    summary.idle_ns = stage_min(&record.stages, "idle");
    summary.inference_started_ns = stage_min(&record.stages, "inference_started");
    summary.inference_finished_ns = stage_max(&record.stages, "inference_finished");
    summary.first_tool_ns = stage_min(&record.stages, "tool_dispatched");
    let ghost base = summary@;
    let mut rows: Vec<InferenceRow> = Vec::new();
    let mut i: usize = 0;
    proof {
        assert(view.inference.take(0) =~= Seq::<InferenceMetricView>::empty());
        assert(all.take(0) =~= Seq::<InferenceRowView>::empty());
        assert(row_views(rows@) =~= all.take(0));
    }
    while i < record.inference.len()
        invariant
            i <= record.inference.len(),
            view == record@,
            all == legacy_rows(view),
            totals_fit(token_totals(view.inference)),
            row_views(rows@) == all.take(i as int),
            ({
                let t = token_totals(view.inference.take(i as int));
                let rates = row_rates(all.take(i as int));
                &&& totals_fit(t)
                &&& rates.len() <= i
                &&& summary@ == (TurnSummaryView {
                    input_tokens: t.input as u64,
                    cached_input_tokens: t.cached as u64,
                    output_tokens: t.output as u64,
                    reasoning_tokens: t.reasoning as u64,
                    cost_micros: t.cost as u64,
                    retries: t.retries as u64,
                    rate_limit_waits: t.rate_limits as u64,
                    gateway_waits: t.gateways as u64,
                    provider_failures: t.failures as u64,
                    inference_errors: t.errors as u64,
                    throughput: rates,
                    throughput_count: rates.len() as u64,
                    ..base
                })
            }),
        decreases record.inference.len() - i,
    {
        let row = row_from_stages(&record.stages, &record.inference[i]);
        proof {
            totals_of_prefix_fit(view.inference, i + 1);
            assert(view.inference.take(i + 1).drop_last() =~= view.inference.take(i as int));
            assert(view.inference.take(i + 1).last() == record.inference@[i as int]@);
            assert(all.take(i + 1).drop_last() =~= all.take(i as int));
            assert(all.take(i + 1).last() == row@);
            row_rates_bound(all.take(i + 1));
        }
        summary.input_tokens = summary.input_tokens + row.metric.input_tokens;
        summary.cached_input_tokens = summary.cached_input_tokens + row.metric.cached_input_tokens;
        summary.output_tokens = summary.output_tokens + row.metric.output_tokens;
        summary.reasoning_tokens = summary.reasoning_tokens + row.metric.reasoning_tokens;
        summary.cost_micros = summary.cost_micros + row.metric.cost_micros;
        summary.retries = summary.retries + row.metric.retries as u64;
        summary.rate_limit_waits = summary.rate_limit_waits + row.metric.rate_limit_waits as u64;
        summary.gateway_waits = summary.gateway_waits + row.metric.gateway_waits as u64;
        summary.provider_failures = summary.provider_failures + row.metric.provider_failures as u64;
        if row.metric.error.is_some() {
            summary.inference_errors = summary.inference_errors + 1;
        }
        if row.metric.output_rate.is_some() {
            summary.throughput.push(
                RateChange { removed: None, added: row.metric.output_rate },
            );
            summary.throughput_count = summary.throughput_count + 1;
        }
        rows.push(row);
        assert(row_views(rows@) =~= all.take(i + 1));
        i += 1;
    }
    proof {
        assert(view.inference.take(i as int) =~= view.inference);
        assert(all.take(i as int) =~= all);
    }
    summary.tool_count = record.tools.len() as u64;
    crate::metrics::derive_summary(&mut summary);
    (summary, rows)
}

// ---------------------------------------------------------------------------------------------
// Assembling a turn
// ---------------------------------------------------------------------------------------------

/// A stage that stands for an anchor; its clock is the summary.
pub open spec fn anchor_view(name: Seq<char>, request: Option<Seq<char>>, at: i64) -> StageView {
    StageView {
        stage: name,
        request_id: request,
        clock_id: "summary"@,
        monotonic_ns: if at >= 0 {
            at as u64
        } else {
            0
        },
        unix_ns: at,
    }
}

/// The stage of an anchor, if it was observed.
pub open spec fn anchor_stages(name: Seq<char>, request: Option<Seq<char>>, at: Option<i64>) -> Seq<StageView> {
    match at {
        Some(ns) => seq![anchor_view(name, request, ns)],
        None => Seq::empty(),
    }
}

/// Stages of the anchors of a summary.
pub open spec fn summary_stages(s: TurnSummaryView) -> Seq<StageView> {
    anchor_stages("submitted"@, None, s.submitted_ns) + anchor_stages("appended"@, None, s.appended_ns)
        + anchor_stages("first_token"@, None, s.first_token_ns) + anchor_stages(
        "inference_started"@,
        None,
        s.inference_started_ns,
    ) + anchor_stages("inference_finished"@, None, s.inference_finished_ns) + anchor_stages(
        "idle"@,
        None,
        s.idle_ns,
    )
}

/// Stages of the anchors of a request row.
pub open spec fn row_stages(row: InferenceRowView) -> Seq<StageView> {
    let id = Some(row.metric.request_id);
    anchor_stages("inference_started"@, id, row.started_ns) + anchor_stages(
        "first_token"@,
        id,
        row.first_token_ns,
    ) + anchor_stages("inference_finished"@, id, row.finished_ns)
}

/// Stages of the anchors of request rows in order.
pub open spec fn rows_stages(rows: Seq<InferenceRowView>) -> Seq<StageView>
    decreases rows.len(),
{
    if rows.len() == 0 {
        Seq::empty()
    } else {
        rows_stages(rows.drop_last()) + row_stages(rows.last())
    }
}

fn push_anchor(stages: &mut Vec<StageTiming>, name: &str, request: Option<String>, at: Option<i64>)
    ensures
        stage_views(final(stages)@) == stage_views(old(stages)@) + anchor_stages(
            name@,
            request.deep_view(),
            at,
        ),
{
    let ghost before = stages@;
    if let Some(ns) = at {
        let stage = StageTiming {
            stage: name.to_owned(),
            request_id: request,
            clock_id: "summary".to_owned(),
            monotonic_ns: if ns >= 0 {
                ns as u64
            } else {
                0
            },
            unix_ns: ns,
        };
        stages.push(stage);
    }
    assert(stage_views(stages@) =~= stage_views(before) + anchor_stages(
        name@,
        request.deep_view(),
        at,
    ));
}

fn push_summary_anchors(stages: &mut Vec<StageTiming>, summary: &TurnSummary)
    ensures
        stage_views(final(stages)@) == stage_views(old(stages)@) + summary_stages(summary@),
{
    let ghost before = stage_views(stages@);
    push_anchor(stages, "submitted", None, summary.submitted_ns);
    push_anchor(stages, "appended", None, summary.appended_ns);
    push_anchor(stages, "first_token", None, summary.first_token_ns);
    push_anchor(stages, "inference_started", None, summary.inference_started_ns);
    push_anchor(stages, "inference_finished", None, summary.inference_finished_ns);
    push_anchor(stages, "idle", None, summary.idle_ns);
    assert(stage_views(stages@) =~= before + summary_stages(summary@));
}

fn push_row_anchors(stages: &mut Vec<StageTiming>, row: &InferenceRow)
    ensures
        stage_views(final(stages)@) == stage_views(old(stages)@) + row_stages(row@),
{
    let ghost before = stage_views(stages@);
    push_anchor(stages, "inference_started", Some(row.metric.request_id.clone()), row.started_ns);
    push_anchor(stages, "first_token", Some(row.metric.request_id.clone()), row.first_token_ns);
    push_anchor(stages, "inference_finished", Some(row.metric.request_id.clone()), row.finished_ns);
    assert(stage_views(stages@) =~= before + row_stages(row@));
}

/// Sort keys of request rows.
pub open spec fn row_keys(rows: Seq<InferenceRowView>) -> Seq<(int, Seq<char>)> {
    rows.map_values(|row: InferenceRowView| (0int, row.metric.request_id))
}

/// Sort keys of tool rows.
pub open spec fn call_keys(tools: Seq<ToolMetricView>) -> Seq<(int, Seq<char>)> {
    tools.map_values(|tool: ToolMetricView| (0int, tool.request_id))
}

/// Number of rows that a page shows.
pub open spec fn page_len(len: nat, limit: Option<usize>) -> nat {
    match limit {
        Some(limit) => if limit < len {
            limit as nat
        } else {
            len
        },
        None => len,
    }
}

/// The first rows by request id, at most `limit` of them.
pub open spec fn row_page(rows: Seq<InferenceRowView>, limit: Option<usize>) -> Seq<InferenceRowView> {
    Seq::new(
        page_len(rows.len(), limit),
        |i: int| rows[stable_order(row_keys(rows), rows.len())[i]],
    )
}

/// The first tool rows by call id, at most `limit` of them.
pub open spec fn call_page(tools: Seq<ToolMetricView>, limit: Option<usize>) -> Seq<ToolMetricView> {
    Seq::new(
        page_len(tools.len(), limit),
        |i: int| tools[stable_order(call_keys(tools), tools.len())[i]],
    )
}

/// A duration, or the one kept on the summary.
pub open spec fn or_kept(derived: Option<i64>, kept: Option<i64>) -> Option<i64> {
    if derived is Some {
        derived
    } else {
        kept
    }
}

/// The record of a turn that shows `rows` and `tools` out of `row_count` and `tool_count`.
pub open spec fn shown_turn(
    s: TurnSummaryView,
    rows: Seq<InferenceRowView>,
    tools: Seq<ToolMetricView>,
    row_count: nat,
    tool_count: nat,
) -> TurnMetricsView {
    let turn = derived_turn(
        TurnMetricsView {
            session_id: s.session_id,
            turn_id: s.turn_id,
            stages: summary_stages(s) + rows_stages(rows),
            inference: rows.map_values(|row: InferenceRowView| row.metric),
            tools,
            computer: s.computer,
            append_to_first_token_ns: None,
            inference_duration_ns: None,
            append_to_idle_ns: None,
            error: s.error,
            dropped_stages: 0,
            dropped_inference: (row_count - rows.len()) as u64,
            dropped_tools: (tool_count - tools.len()) as u64,
        },
    );
    TurnMetricsView {
        append_to_first_token_ns: or_kept(turn.append_to_first_token_ns, s.append_to_first_token_ns),
        inference_duration_ns: or_kept(turn.inference_duration_ns, s.inference_duration_ns),
        append_to_idle_ns: or_kept(turn.append_to_idle_ns, s.append_to_idle_ns),
        ..turn
    }
}

/// The record of a turn from its summary and rows: arrays sorted by id and cut to their limits,
/// with the counts of what was cut.
pub open spec fn assembled(
    s: TurnSummaryView,
    rows: Seq<InferenceRowView>,
    tools: Seq<ToolMetricView>,
    inference_limit: Option<usize>,
    tools_limit: Option<usize>,
) -> TurnMetricsView {
    shown_turn(
        s,
        row_page(rows, inference_limit),
        call_page(tools, tools_limit),
        rows.len(),
        tools.len(),
    )
}

fn shown_count(len: usize, limit: Option<usize>) -> (count: usize)
    ensures
        count == page_len(len as nat, limit),
        count <= len,
{
    match limit {
        Some(limit) => if limit < len {
            limit
        } else {
            len
        },
        None => len,
    }
}

fn page_of_rows(rows: &Vec<InferenceRow>, limit: Option<usize>) -> (page: Vec<InferenceRow>)
    ensures
        row_views(page@) == row_page(row_views(rows@), limit),
{
    let ghost views = row_views(rows@);
    let mut keys: Vec<SortKey> = Vec::new();
    let mut i: usize = 0;
    while i < rows.len()
        invariant
            i <= rows.len(),
            keys@.len() == i,
            forall|j: int| 0 <= j < i ==> (#[trigger] keys@[j])@ == (0int, rows@[j]@.metric.request_id),
        decreases rows.len() - i,
    {
        keys.push(SortKey { number: 0, text: rows[i].metric.request_id.clone() });
        i += 1;
    }
    assert(key_views(keys@) =~= row_keys(views));
    let order = sort_order(&keys);
    let ghost indices = order@.map_values(|k: usize| k as int);
    let count: usize = shown_count(rows.len(), limit);
    let mut page: Vec<InferenceRow> = Vec::new();
    let mut n: usize = 0;
    while n < count
        invariant
            n <= count,
            count <= rows.len(),
            order@.len() == rows@.len(),
            views == row_views(rows@),
            indices == order@.map_values(|k: usize| k as int),
            indices == stable_order(row_keys(views), views.len()),
            forall|j: int| 0 <= j < order@.len() ==> order@[j] < rows@.len(),
            page@.len() == n,
            forall|j: int| 0 <= j < n ==> (#[trigger] page@[j])@ == views[indices[j]],
        decreases count - n,
    {
        assert(indices[n as int] == order@[n as int]);
        page.push(rows[order[n]].copy());
        n += 1;
    }
    assert(row_views(page@) =~= row_page(views, limit));
    page
}

fn page_of_tools(tools: &Vec<ToolMetric>, limit: Option<usize>) -> (page: Vec<ToolMetric>)
    ensures
        call_views(page@) == call_page(call_views(tools@), limit),
{
    let ghost views = call_views(tools@);
    let mut keys: Vec<SortKey> = Vec::new();
    let mut i: usize = 0;
    while i < tools.len()
        invariant
            i <= tools.len(),
            keys@.len() == i,
            forall|j: int| 0 <= j < i ==> (#[trigger] keys@[j])@ == (0int, tools@[j]@.request_id),
        decreases tools.len() - i,
    {
        keys.push(SortKey { number: 0, text: tools[i].request_id.clone() });
        i += 1;
    }
    assert(key_views(keys@) =~= call_keys(views));
    let order = sort_order(&keys);
    let ghost indices = order@.map_values(|k: usize| k as int);
    let count: usize = shown_count(tools.len(), limit);
    let mut page: Vec<ToolMetric> = Vec::new();
    let mut n: usize = 0;
    while n < count
        invariant
            n <= count,
            count <= tools.len(),
            order@.len() == tools@.len(),
            views == call_views(tools@),
            indices == order@.map_values(|k: usize| k as int),
            indices == stable_order(call_keys(views), views.len()),
            forall|j: int| 0 <= j < order@.len() ==> order@[j] < tools@.len(),
            page@.len() == n,
            forall|j: int| 0 <= j < n ==> (#[trigger] page@[j])@ == views[indices[j]],
        decreases count - n,
    {
        assert(indices[n as int] == order@[n as int]);
        page.push(tools[order[n]].copy());
        n += 1;
    }
    assert(call_views(page@) =~= call_page(views, limit));
    page
}

fn show_turn(
    summary: &TurnSummary,
    rows: &Vec<InferenceRow>,
    tools: Vec<ToolMetric>,
    row_count: usize,
    tool_count: usize,
) -> (turn: TurnMetrics)
    requires
        rows@.len() <= row_count,
        tools@.len() <= tool_count,
    ensures
        turn@ == shown_turn(
            summary@,
            row_views(rows@),
            call_views(tools@),
            row_count as nat,
            tool_count as nat,
        ),
{
    let ghost shown = row_views(rows@);
    let mut stages: Vec<StageTiming> = Vec::new();
    push_summary_anchors(&mut stages, summary);
    assert(stage_views(stages@) =~= summary_stages(summary@) + rows_stages(shown.take(0)));
    let mut metrics: Vec<InferenceMetric> = Vec::new();
    let mut i: usize = 0;
    while i < rows.len()
        invariant
            i <= rows.len(),
            shown == row_views(rows@),
            metrics@.len() == i,
            forall|j: int| 0 <= j < i ==> (#[trigger] metrics@[j])@ == shown[j].metric,
            stage_views(stages@) == summary_stages(summary@) + rows_stages(shown.take(i as int)),
        decreases rows.len() - i,
    {
        push_row_anchors(&mut stages, &rows[i]);
        proof {
            assert(shown.take(i + 1).drop_last() =~= shown.take(i as int));
            assert(shown.take(i + 1).last() == rows@[i as int]@);
            assert(stage_views(stages@) =~= summary_stages(summary@) + rows_stages(
                shown.take(i + 1),
            ));
        }
        metrics.push(rows[i].metric.copy());
        i += 1;
    }
    assert(shown.take(i as int) =~= shown);
    let dropped_inference: u64 = (row_count - rows.len()) as u64;
    let dropped_tools: u64 = (tool_count - tools.len()) as u64;
    let mut turn = TurnMetrics {
        session_id: summary.session_id.clone(),
        turn_id: summary.turn_id.clone(),
        stages,
        inference: metrics,
        tools,
        computer: summary.computer,
        append_to_first_token_ns: None,
        inference_duration_ns: None,
        append_to_idle_ns: None,
        error: copy_option(&summary.error),
        dropped_stages: 0,
        dropped_inference,
        dropped_tools,
    };
    assert(turn@.inference =~= shown.map_values(|row: InferenceRowView| row.metric));
    turn.derive();
    if turn.append_to_first_token_ns.is_none() {
        turn.append_to_first_token_ns = summary.append_to_first_token_ns;
    }
    if turn.inference_duration_ns.is_none() {
        turn.inference_duration_ns = summary.inference_duration_ns;
    }
    if turn.append_to_idle_ns.is_none() {
        turn.append_to_idle_ns = summary.append_to_idle_ns;
    }
    turn
}

/// Assembles the record of a turn from its summary and rows.
pub fn assemble_from_summary(
    summary: &TurnSummary,
    rows: &Vec<InferenceRow>,
    tools: &Vec<ToolMetric>,
    inference_limit: Option<usize>,
    tools_limit: Option<usize>,
) -> (turn: TurnMetrics)
    ensures
        turn@ == assembled(
            summary@,
            row_views(rows@),
            call_views(tools@),
            inference_limit,
            tools_limit,
        ),
{
    let row_page = page_of_rows(rows, inference_limit);
    let tool_page = page_of_tools(tools, tools_limit);
    proof {
        assert(row_views(row_page@).len() == row_page@.len());
        assert(call_views(tool_page@).len() == tool_page@.len());
    }
    show_turn(summary, &row_page, tool_page, rows.len(), tools.len())
}

/// Assembles the record of a turn that was stored whole, from the rows it splits into.
pub fn assemble_legacy(
    record: &TurnMetrics,
    inference_limit: Option<usize>,
    tools_limit: Option<usize>,
) -> (turn: TurnMetrics)
    requires
        totals_fit(token_totals(record@.inference)),
    ensures
        turn@ == assembled(
            legacy_summary(record@),
            legacy_rows(record@),
            record@.tools,
            inference_limit,
            tools_limit,
        ),
{
    let (summary, rows) = migrate_legacy(record);
    assert(call_views(record.tools@) =~= record@.tools);
    assemble_from_summary(&summary, &rows, &record.tools, inference_limit, tools_limit)
}

/// The session and turn that a summary names.
pub fn summary_ids(summary: &TurnSummary) -> (ids: StoreResult<(SessionId, MessageId)>)
    ensures
        match ids {
            Ok((session, turn)) => ulid_value(summary@.session_id) == Some(session.0) && ulid_value(
                summary@.turn_id,
            ) == Some(turn.0),
            Err(error) => error == StoreError::Corrupt && (ulid_value(summary@.session_id) is None
                || ulid_value(summary@.turn_id) is None),
        },
{
    match (ulid_parse(summary.session_id.as_str()), ulid_parse(summary.turn_id.as_str())) {
        (Some(session), Some(turn)) => Ok((SessionId(session), MessageId(turn))),
        _ => Err(StoreError::Corrupt),
    }
}

/// A full read drops nothing and shows every row once; a limited one reports what it cut.
pub proof fn reads_account_for_every_row(
    s: TurnSummaryView,
    rows: Seq<InferenceRowView>,
    tools: Seq<ToolMetricView>,
    inference_limit: Option<usize>,
    tools_limit: Option<usize>,
)
    requires
        rows.len() <= u64::MAX,
        tools.len() <= u64::MAX,
    ensures
        ({
            let turn = assembled(s, rows, tools, inference_limit, tools_limit);
            &&& turn.inference.len() + turn.dropped_inference == rows.len()
            &&& turn.tools.len() + turn.dropped_tools == tools.len()
            &&& inference_limit is None ==> turn.dropped_inference == 0
            &&& tools_limit is None ==> turn.dropped_tools == 0
            &&& tools_limit is None ==> forall|i: int|
                0 <= i < tools.len() ==> turn.tools.contains(#[trigger] tools[i])
        }),
{
    let turn = assembled(s, rows, tools, inference_limit, tools_limit);
    stable_order_laws(call_keys(tools), tools.len());
    if tools_limit is None {
        let order = stable_order(call_keys(tools), tools.len());
        assert forall|i: int| 0 <= i < tools.len() implies turn.tools.contains(
            #[trigger] tools[i],
        ) by {
            assert(order.contains(i));
            let at = choose|at: int| 0 <= at < order.len() && order[at] == i;
            assert(turn.tools[at] == tools[i]);
        }
    }
}

/// The totals of two lists of requests one after the other are the sums of the totals of each.
pub proof fn request_totals_add_up(left: Seq<InferenceMetricView>, right: Seq<InferenceMetricView>)
    ensures
        ({
            let a = token_totals(left);
            let b = token_totals(right);
            let both = token_totals(left + right);
            &&& both.input == a.input + b.input && both.cached == a.cached + b.cached
            &&& both.output == a.output + b.output && both.reasoning == a.reasoning + b.reasoning
            &&& both.cost == a.cost + b.cost && both.retries == a.retries + b.retries
            &&& both.rate_limits == a.rate_limits + b.rate_limits && both.gateways == a.gateways + b.gateways
            &&& both.failures == a.failures + b.failures && both.errors == a.errors + b.errors
        }),
    decreases right.len(),
{
    if right.len() == 0 {
        assert(left + right =~= left);
    } else {
        request_totals_add_up(left, right.drop_last());
        assert((left + right).drop_last() =~= left + right.drop_last());
        assert((left + right).last() == right.last());
    }
}

/// A turn with one request is summed up as that request: each counter is the request's counter of
/// that name. The turn keeps its ids, its computer and its error, and counts its tool calls.
pub proof fn one_request_sums_up_to_itself(record: TurnMetrics, migrated: (TurnSummary, Vec<InferenceRow>))
    requires
        record.inference@.len() == 1,
        totals_fit(token_totals(record@.inference)),
        call_ensures(migrate_legacy, (&record,), migrated),
    ensures
        ({
            let summary = migrated.0;
            let request = record.inference@[0];
            &&& summary.session_id@ == record.session_id@ && summary.turn_id@ == record.turn_id@
            &&& summary.input_tokens == request.input_tokens
            &&& summary.cached_input_tokens == request.cached_input_tokens
            &&& summary.output_tokens == request.output_tokens
            &&& summary.reasoning_tokens == request.reasoning_tokens
            &&& summary.cost_micros == request.cost_micros
            &&& summary.retries == request.retries
            &&& summary.rate_limit_waits == request.rate_limit_waits
            &&& summary.gateway_waits == request.gateway_waits
            &&& summary.provider_failures == request.provider_failures
            &&& summary.inference_errors == (if request.error is Some {
                1int
            } else {
                0
            })
            &&& summary.computer == record.computer
            &&& summary.error.deep_view() == record.error.deep_view()
            &&& record.tools@.len() <= u64::MAX ==> summary.tool_count == record.tools@.len()
            &&& migrated.1@.len() == 1
            &&& migrated.1@[0].metric.request_id@ == request.request_id@
            &&& migrated.1@[0].metric.input_tokens == request.input_tokens
            &&& migrated.1@[0].metric.output_tokens == request.output_tokens
            &&& migrated.1@[0].metric.cost_micros == request.cost_micros
            &&& migrated.1@[0].metric.provider@ == request.provider@
            &&& migrated.1@[0].metric.model@ == request.model@
        }),
{
    let metrics = record@.inference;
    assert(metrics.len() == 1 && metrics[0] == record.inference@[0]@);
    assert(metrics.drop_last() =~= Seq::empty());
    reveal_with_fuel(token_totals, 2);
    let rows = row_views(migrated.1@);
    assert(rows.len() == migrated.1@.len());
    assert(rows[0] == migrated.1@[0]@);
    assert(rows[0] == staged_row(record@.stages, metrics[0]));
    assert(record@.tools.len() == record.tools@.len());
    assert(migrated.0@.error == migrated.0.error.deep_view());
}

/// The earliest time of a stage is the time of one of its observations and no later than any; the
/// latest is one and no earlier than any. There is none exactly where the stage was not observed.
pub proof fn stage_times_are_extremes(stages: Seq<StageView>, name: Seq<char>)
    ensures
        forall|i: int|
            0 <= i < stages.len() && (#[trigger] stages[i]).stage == name ==> min_time(stages, name) is Some
                && min_time(stages, name)->0 <= stages[i].unix_ns <= max_time(stages, name)->0 && max_time(
                stages,
                name,
            ) is Some,
        min_time(stages, name) matches Some(at) ==> exists|i: int|
            0 <= i < stages.len() && (#[trigger] stages[i]).stage == name && stages[i].unix_ns == at,
        max_time(stages, name) matches Some(at) ==> exists|i: int|
            0 <= i < stages.len() && (#[trigger] stages[i]).stage == name && stages[i].unix_ns == at,
    decreases stages.len(),
{
    if stages.len() > 0 {
        let rest = stages.drop_last();
        stage_times_are_extremes(rest, name);
        assert forall|i: int| 0 <= i < stages.len() && (#[trigger] stages[i]).stage == name implies min_time(
            stages,
            name,
        ) is Some && min_time(stages, name)->0 <= stages[i].unix_ns <= max_time(stages, name)->0 && max_time(
            stages,
            name,
        ) is Some by {
            if i < rest.len() {
                assert(rest[i] == stages[i]);
            }
        }
        if let Some(at) = min_time(stages, name) {
            if stages.last().stage == name && stages.last().unix_ns == at {
                assert(stages[stages.len() - 1].unix_ns == at);
            } else {
                let i = choose|i: int|
                    0 <= i < rest.len() && (#[trigger] rest[i]).stage == name && rest[i].unix_ns == at;
                assert(stages[i] == rest[i]);
            }
        }
        if let Some(at) = max_time(stages, name) {
            if stages.last().stage == name && stages.last().unix_ns == at {
                assert(stages[stages.len() - 1].unix_ns == at);
            } else {
                let i = choose|i: int|
                    0 <= i < rest.len() && (#[trigger] rest[i]).stage == name && rest[i].unix_ns == at;
                assert(stages[i] == rest[i]);
            }
        }
    }
}

/// The time of a stage of a request is that of its first observation.
pub proof fn first_times_are_first(stages: Seq<StageView>, name: Seq<char>, request: Option<Seq<char>>)
    ensures
        match first_time(stages, name, request) {
            Some(at) => exists|i: int|
                0 <= i < stages.len() && (#[trigger] stages[i]).stage == name && stages[i].request_id == request
                    && stages[i].unix_ns == at && forall|j: int|
                    0 <= j < i ==> (#[trigger] stages[j]).stage != name || stages[j].request_id != request,
            None => forall|j: int|
                0 <= j < stages.len() ==> (#[trigger] stages[j]).stage != name || stages[j].request_id != request,
        },
    decreases stages.len(),
{
    if stages.len() > 0 && !(stages[0].stage == name && stages[0].request_id == request) {
        let rest = stages.skip(1);
        first_times_are_first(rest, name, request);
        match first_time(rest, name, request) {
            Some(at) => {
                let i = choose|i: int|
                    0 <= i < rest.len() && (#[trigger] rest[i]).stage == name && rest[i].request_id == request
                        && rest[i].unix_ns == at && forall|j: int|
                        0 <= j < i ==> (#[trigger] rest[j]).stage != name || rest[j].request_id != request;
                assert(stages[i + 1] == rest[i]);
                assert forall|j: int| 0 <= j < i + 1 implies (#[trigger] stages[j]).stage != name
                    || stages[j].request_id != request by {
                    if j > 0 {
                        assert(rest[j - 1] == stages[j]);
                    }
                }
            },
            None => {
                assert forall|j: int| 0 <= j < stages.len() implies (#[trigger] stages[j]).stage != name
                    || stages[j].request_id != request by {
                    if j > 0 {
                        assert(rest[j - 1] == stages[j]);
                    }
                }
            },
        }
    }
}

/// An assembled turn keeps the ids, the computer and the error of its summary. Its requests and its
/// calls come in the order of their ids, as many as were asked for, and what is left out is counted.
pub proof fn assembled_turns_keep_their_summary(
    summary: TurnSummary,
    rows: Vec<InferenceRow>,
    tools: Vec<ToolMetric>,
    inference_limit: Option<usize>,
    tools_limit: Option<usize>,
    turn: TurnMetrics,
)
    requires
        rows@.len() <= u64::MAX,
        tools@.len() <= u64::MAX,
        call_ensures(assemble_from_summary, (&summary, &rows, &tools, inference_limit, tools_limit), turn),
    ensures
        turn.session_id@ == summary.session_id@ && turn.turn_id@ == summary.turn_id@,
        turn.computer == summary.computer && turn.error.deep_view() == summary.error.deep_view(),
        turn.dropped_stages == 0,
        turn.inference@.len() + turn.dropped_inference == rows@.len(),
        turn.tools@.len() + turn.dropped_tools == tools@.len(),
        inference_limit matches Some(limit) ==> turn.inference@.len() <= limit,
        tools_limit matches Some(limit) ==> turn.tools@.len() <= limit,
        inference_limit is None ==> turn.inference@.len() == rows@.len(),
        tools_limit is None ==> turn.tools@.len() == tools@.len(),
        forall|i: int, j: int|
            0 <= i < j < turn.tools@.len() ==> !text_less(
                (#[trigger] turn.tools@[j]).request_id@,
                (#[trigger] turn.tools@[i]).request_id@,
            ),
        forall|i: int, j: int|
            0 <= i < j < turn.inference@.len() ==> !text_less(
                (#[trigger] turn.inference@[j]).request_id@,
                (#[trigger] turn.inference@[i]).request_id@,
            ),
        forall|i: int| 0 <= i < turn.tools@.len() ==> call_views(tools@).contains((#[trigger] turn.tools@[i])@),
        forall|i: int|
            0 <= i < turn.inference@.len() ==> reported(row_views(rows@), (#[trigger] turn.inference@[i])@),
{
    let views = row_views(rows@);
    let calls = call_views(tools@);
    assert(views.len() == rows@.len() && calls.len() == tools@.len());
    assert(turn@.inference.len() == turn.inference@.len());
    assert(turn@.tools.len() == turn.tools@.len());
    stable_order_laws(call_keys(calls), calls.len());
    stable_order_laws(row_keys(views), views.len());
    let order = stable_order(call_keys(calls), calls.len());
    let row_order = stable_order(row_keys(views), views.len());
    let page = row_page(views, inference_limit);
    assert forall|i: int| 0 <= i < turn.inference@.len() implies (#[trigger] turn@.inference[i]) == staged_row(
        turn@.stages,
        page[i].metric,
    ).metric && page[i] == views[row_order[i]] by {}
    assert forall|i: int, j: int| 0 <= i < j < turn.tools@.len() implies !text_less(
        (#[trigger] turn.tools@[j]).request_id@,
        (#[trigger] turn.tools@[i]).request_id@,
    ) by {
        assert(turn@.tools[i] == turn.tools@[i]@ && turn@.tools[j] == turn.tools@[j]@);
        assert(turn@.tools[i] == calls[order[i]] && turn@.tools[j] == calls[order[j]]);
        assert(call_keys(calls)[order[i]] == (0int, calls[order[i]].request_id));
        assert(call_keys(calls)[order[j]] == (0int, calls[order[j]].request_id));
    }
    assert forall|i: int, j: int| 0 <= i < j < turn.inference@.len() implies !text_less(
        (#[trigger] turn.inference@[j]).request_id@,
        (#[trigger] turn.inference@[i]).request_id@,
    ) by {
        assert(turn@.inference[i] == turn.inference@[i]@ && turn@.inference[j] == turn.inference@[j]@);
        assert(row_keys(views)[row_order[i]] == (0int, views[row_order[i]].metric.request_id));
        assert(row_keys(views)[row_order[j]] == (0int, views[row_order[j]].metric.request_id));
    }
    assert forall|i: int| 0 <= i < turn.tools@.len() implies calls.contains((#[trigger] turn.tools@[i])@) by {
        assert(turn@.tools[i] == turn.tools@[i]@);
        assert(turn@.tools[i] == calls[order[i]]);
    }
    assert forall|i: int| 0 <= i < turn.inference@.len() implies reported(
        views,
        (#[trigger] turn.inference@[i])@,
    ) by {
        assert(turn@.inference[i] == turn.inference@[i]@);
        let k = row_order[i];
        assert(views[k].metric.request_id == turn@.inference[i].request_id);
    }
}

/// Whether a request of an assembled turn has a row: one with its id, its provider, its model, its
/// tokens, its cost, its waits and its error.
pub open spec fn reported(rows: Seq<InferenceRowView>, metric: InferenceMetricView) -> bool {
    exists|i: int|
        0 <= i < rows.len() && (#[trigger] rows[i]).metric.request_id == metric.request_id
            && rows[i].metric.provider == metric.provider && rows[i].metric.model == metric.model
            && rows[i].metric.input_tokens == metric.input_tokens && rows[i].metric.cached_input_tokens
            == metric.cached_input_tokens && rows[i].metric.output_tokens == metric.output_tokens
            && rows[i].metric.reasoning_tokens == metric.reasoning_tokens && rows[i].metric.cost_micros
            == metric.cost_micros && rows[i].metric.retries == metric.retries && rows[i].metric.rate_limit_waits
            == metric.rate_limit_waits && rows[i].metric.gateway_waits == metric.gateway_waits
            && rows[i].metric.provider_failures == metric.provider_failures && rows[i].metric.error
            == metric.error && rows[i].metric.streamed == metric.streamed
}

/// A derived turn keeps everything but its durations.
pub proof fn deriving_keeps_the_turn(turn: &mut TurnMetrics)
    requires
        call_ensures(TurnMetrics::derive, (turn,), ()),
    ensures
        final(turn).session_id@ == old(turn).session_id@ && final(turn).turn_id@ == old(turn).turn_id@,
        final(turn).computer == old(turn).computer,
        final(turn).error.deep_view() == old(turn).error.deep_view(),
        final(turn).inference@.len() == old(turn).inference@.len(),
        final(turn)@.tools == old(turn)@.tools && final(turn)@.stages == old(turn)@.stages,
        forall|i: int|
            0 <= i < final(turn).inference@.len() ==> (#[trigger] final(turn).inference@[i]).request_id@ == old(turn).inference@[i].request_id@ && final(turn).inference@[i].input_tokens == old(turn).inference@[i].input_tokens && final(turn).inference@[i].output_tokens == old(turn).inference@[i].output_tokens && final(turn).inference@[i].cost_micros == old(turn).inference@[i].cost_micros,
{
    let before = old(turn)@.inference;
    let after = final(turn)@.inference;
    assert(before.len() == old(turn).inference@.len());
    assert(after.len() == final(turn).inference@.len());
    assert forall|i: int| 0 <= i < final(turn).inference@.len() implies (
    #[trigger] final(turn).inference@[i]).request_id@ == old(turn).inference@[i].request_id@ && final(turn).inference@[i].input_tokens == old(turn).inference@[i].input_tokens && final(turn).inference@[i].output_tokens
        == old(turn).inference@[i].output_tokens && final(turn).inference@[i].cost_micros == old(turn).inference@[i].cost_micros by {
        assert(after[i] == final(turn).inference@[i]@);
        assert(before[i] == old(turn).inference@[i]@);
        assert(after[i] == staged_row(old(turn)@.stages, before[i]).metric);
    }
    assert(final(turn)@.session_id == final(turn).session_id@);
}

/// The ids of a summary are those that it is written with.
pub proof fn summaries_name_their_turn(summary: TurnSummary, ids: StoreResult<(SessionId, MessageId)>)
    requires
        call_ensures(summary_ids, (&summary,), ids),
    ensures
        ids matches Ok((session, turn)) ==> ulid_value(summary.session_id@) == Some(session.0) && ulid_value(
            summary.turn_id@,
        ) == Some(turn.0),
        ulid_value(summary.session_id@) is Some && ulid_value(summary.turn_id@) is Some ==> ids is Ok,
{
}

/// The moments of a turn that was stored whole come from its own stages, each from the stage of its
/// name: the earliest observation of it, or the latest of the end of inference.
pub proof fn old_turns_keep_their_moments(record: TurnMetrics, migrated: (TurnSummary, Vec<InferenceRow>))
    requires
        totals_fit(token_totals(record@.inference)),
        call_ensures(migrate_legacy, (&record,), migrated),
    ensures
        migrated.0.submitted_ns == min_time(record@.stages, "submitted"@),
        migrated.0.appended_ns == min_time(record@.stages, "appended"@),
        migrated.0.first_token_ns == min_time(record@.stages, "first_token"@),
        migrated.0.first_tool_ns == min_time(record@.stages, "tool_dispatched"@),
        migrated.0.idle_ns == min_time(record@.stages, "idle"@),
        migrated.0.inference_started_ns == min_time(record@.stages, "inference_started"@),
        migrated.0.inference_finished_ns == max_time(record@.stages, "inference_finished"@),
        migrated.0.append_to_idle_ns matches Some(d) ==> migrated.0.appended_ns->0 + d == migrated.0.idle_ns->0,
        migrated.0.append_to_first_token_ns matches Some(d) ==> migrated.0.appended_ns->0 + d
            == migrated.0.first_token_ns->0,
        migrated.0.inference_duration_ns matches Some(d) ==> migrated.0.inference_started_ns->0 + d
            == migrated.0.inference_finished_ns->0,
{
    assert(migrated.0@.submitted_ns == migrated.0.submitted_ns);
}

/// The durations that are derived for a turn lie between its stages.
pub proof fn derived_durations_lie_between_stages(turn: &mut TurnMetrics)
    requires
        call_ensures(TurnMetrics::derive, (turn,), ()),
    ensures
        final(turn).append_to_idle_ns matches Some(d) ==> min_time(old(turn)@.stages, "appended"@)->0 + d
            == min_time(old(turn)@.stages, "idle"@)->0 && d >= 0,
        final(turn).append_to_first_token_ns matches Some(d) ==> min_time(old(turn)@.stages, "appended"@)->0 + d
            == min_time(old(turn)@.stages, "first_token"@)->0 && d >= 0,
        final(turn).inference_duration_ns matches Some(d) ==> min_time(old(turn)@.stages, "inference_started"@)->0
            + d == max_time(old(turn)@.stages, "inference_finished"@)->0 && d >= 0,
{
    assert(final(turn)@.append_to_idle_ns == final(turn).append_to_idle_ns);
}

/// Whether stages hold one of this name at this time.
pub open spec fn observed(stages: Seq<StageView>, name: Seq<char>, at: i64) -> bool {
    exists|i: int| 0 <= i < stages.len() && (#[trigger] stages[i]).stage == name && stages[i].unix_ns == at
}

proof fn observed_in_both(a: Seq<StageView>, b: Seq<StageView>, name: Seq<char>, at: i64)
    ensures
        observed(a, name, at) ==> observed(a + b, name, at),
        observed(b, name, at) ==> observed(a + b, name, at),
{
    if observed(a, name, at) {
        let i = choose|i: int| 0 <= i < a.len() && (#[trigger] a[i]).stage == name && a[i].unix_ns == at;
        assert((a + b)[i] == a[i]);
    }
    if observed(b, name, at) {
        let i = choose|i: int| 0 <= i < b.len() && (#[trigger] b[i]).stage == name && b[i].unix_ns == at;
        assert((a + b)[a.len() + i] == b[i]);
    }
}

/// An assembled turn shows every moment that its summary knows, under the stage's name.
pub proof fn assembled_turns_show_their_moments(
    summary: TurnSummary,
    rows: Vec<InferenceRow>,
    tools: Vec<ToolMetric>,
    inference_limit: Option<usize>,
    tools_limit: Option<usize>,
    turn: TurnMetrics,
)
    requires
        call_ensures(assemble_from_summary, (&summary, &rows, &tools, inference_limit, tools_limit), turn),
    ensures
        summary.submitted_ns matches Some(at) ==> observed(stage_views(turn.stages@), "submitted"@, at),
        summary.appended_ns matches Some(at) ==> observed(stage_views(turn.stages@), "appended"@, at),
        summary.first_token_ns matches Some(at) ==> observed(stage_views(turn.stages@), "first_token"@, at),
        summary.inference_started_ns matches Some(at) ==> observed(
            stage_views(turn.stages@),
            "inference_started"@,
            at,
        ),
        summary.inference_finished_ns matches Some(at) ==> observed(
            stage_views(turn.stages@),
            "inference_finished"@,
            at,
        ),
        summary.idle_ns matches Some(at) ==> observed(stage_views(turn.stages@), "idle"@, at),
{
    let s = summary@;
    let a = anchor_stages("submitted"@, None, s.submitted_ns);
    let b = anchor_stages("appended"@, None, s.appended_ns);
    let c = anchor_stages("first_token"@, None, s.first_token_ns);
    let d = anchor_stages("inference_started"@, None, s.inference_started_ns);
    let e = anchor_stages("inference_finished"@, None, s.inference_finished_ns);
    let f = anchor_stages("idle"@, None, s.idle_ns);
    let rest = rows_stages(row_page(row_views(rows@), inference_limit));
    assert(turn@.stages == summary_stages(s) + rest);
    assert(turn@.stages == stage_views(turn.stages@));
    if let Some(at) = summary.submitted_ns {
        assert(a[0].stage == "submitted"@ && a[0].unix_ns == at);
        observed_in_both(a, b, "submitted"@, at);
        observed_in_both(a + b, c, "submitted"@, at);
        observed_in_both(a + b + c, d, "submitted"@, at);
        observed_in_both(a + b + c + d, e, "submitted"@, at);
        observed_in_both(a + b + c + d + e, f, "submitted"@, at);
        observed_in_both(summary_stages(s), rest, "submitted"@, at);
    }
    if let Some(at) = summary.appended_ns {
        assert(b[0].stage == "appended"@ && b[0].unix_ns == at);
        observed_in_both(a, b, "appended"@, at);
        observed_in_both(a + b, c, "appended"@, at);
        observed_in_both(a + b + c, d, "appended"@, at);
        observed_in_both(a + b + c + d, e, "appended"@, at);
        observed_in_both(a + b + c + d + e, f, "appended"@, at);
        observed_in_both(summary_stages(s), rest, "appended"@, at);
    }
    if let Some(at) = summary.first_token_ns {
        assert(c[0].stage == "first_token"@ && c[0].unix_ns == at);
        observed_in_both(a + b, c, "first_token"@, at);
        observed_in_both(a + b + c, d, "first_token"@, at);
        observed_in_both(a + b + c + d, e, "first_token"@, at);
        observed_in_both(a + b + c + d + e, f, "first_token"@, at);
        observed_in_both(summary_stages(s), rest, "first_token"@, at);
    }
    if let Some(at) = summary.inference_started_ns {
        assert(d[0].stage == "inference_started"@ && d[0].unix_ns == at);
        observed_in_both(a + b + c, d, "inference_started"@, at);
        observed_in_both(a + b + c + d, e, "inference_started"@, at);
        observed_in_both(a + b + c + d + e, f, "inference_started"@, at);
        observed_in_both(summary_stages(s), rest, "inference_started"@, at);
    }
    if let Some(at) = summary.inference_finished_ns {
        assert(e[0].stage == "inference_finished"@ && e[0].unix_ns == at);
        observed_in_both(a + b + c + d, e, "inference_finished"@, at);
        observed_in_both(a + b + c + d + e, f, "inference_finished"@, at);
        observed_in_both(summary_stages(s), rest, "inference_finished"@, at);
    }
    if let Some(at) = summary.idle_ns {
        assert(f[0].stage == "idle"@ && f[0].unix_ns == at);
        observed_in_both(a + b + c + d + e, f, "idle"@, at);
        observed_in_both(summary_stages(s), rest, "idle"@, at);
    }
}

} // verus!
