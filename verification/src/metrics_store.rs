//! Turn rows in the store: what a stored value is, which rows a batch of observations reads and
//! writes, how pages of turns are ordered and how recent turns roll up.

use crate::error::{StoreError, StoreResult};
use crate::ids::{base32_text, ulid_text, MessageId, SessionId};
use crate::metrics::{
    apply_all, blank_summary, has_room, inference_views, patch_views, patched_all, tool_views,
    ComputerMetric, InferenceMetric, InferenceMetricView, InferenceRow, InferenceRowView,
    MetricPatch, PatchView, Rate, ToolMetric, ToolMetricView, TurnEvent, TurnStage, TurnSummary,
    TurnView, TurnWrite,
};
use crate::metrics_turns::{
    call_views, legacy_rows, legacy_summary, metric_views, migrate_legacy, row_views, stage_views,
    token_totals, totals_fit, StageTiming, TurnMetrics, TurnMetricsView,
};
use crate::textmap::TextMap;
use vstd::prelude::*;

verus! {

// ---------------------------------------------------------------------------------------------
// Stored layouts
// ---------------------------------------------------------------------------------------------

/// A request inside a turn that was stored whole. It predates the whole-request interval and the
/// flag that tells a streamed response from a single chunk.
#[derive(Clone, Debug, PartialEq, Eq)]
pub struct StoredInferenceMetricV1 {
    pub request_id: String,
    pub provider: String,
    pub model: String,
    pub input_tokens: u64,
    pub cached_input_tokens: u64,
    pub output_tokens: u64,
    pub reasoning_tokens: u64,
    pub cost_micros: u64,
    pub time_to_first_token_ns: Option<i64>,
    pub streaming_duration_ns: Option<i64>,
    pub output_rate: Option<Rate>,
    pub retries: u32,
    pub rate_limit_waits: u32,
    pub gateway_waits: u32,
    pub provider_failures: u32,
    pub error: Option<String>,
}

/// A turn that was stored whole.
#[derive(Clone, Debug, PartialEq, Eq)]
pub struct StoredTurnMetricsV1 {
    pub session_id: String,
    pub turn_id: String,
    pub stages: Vec<StageTiming>,
    pub inference: Vec<StoredInferenceMetricV1>,
    pub tools: Vec<ToolMetric>,
    pub computer: Option<ComputerMetric>,
    pub append_to_first_token_ns: Option<i64>,
    pub inference_duration_ns: Option<i64>,
    pub append_to_idle_ns: Option<i64>,
    pub error: Option<String>,
    pub dropped_stages: u64,
    pub dropped_inference: u64,
    pub dropped_tools: u64,
}

/// Envelope of every stored metrics value.
#[derive(Clone, Debug, PartialEq, Eq)]
pub enum StoredTurnMetrics {
    V1(StoredTurnMetricsV1),
    V2Summary(TurnSummary),
    V2Inference(InferenceRow),
    V2Tool(ToolMetric),
}

/// What a summary key holds.
#[derive(Clone, Debug, PartialEq, Eq)]
pub enum DecodedSummary {
    V2(TurnSummary),
    Legacy(TurnMetrics),
}

/// The metric that an old request stands for: its whole interval is unknown and it counts as
/// streamed, so that old turns are never taken for single-chunk ones.
pub open spec fn v1_metric(m: StoredInferenceMetricV1) -> InferenceMetricView {
    InferenceMetricView {
        request_id: m.request_id@,
        provider: m.provider@,
        model: m.model@,
        input_tokens: m.input_tokens,
        cached_input_tokens: m.cached_input_tokens,
        output_tokens: m.output_tokens,
        reasoning_tokens: m.reasoning_tokens,
        cost_micros: m.cost_micros,
        time_to_first_token_ns: m.time_to_first_token_ns,
        streaming_duration_ns: m.streaming_duration_ns,
        request_duration_ns: None,
        streamed: true,
        output_rate: m.output_rate,
        retries: m.retries,
        rate_limit_waits: m.rate_limit_waits,
        gateway_waits: m.gateway_waits,
        provider_failures: m.provider_failures,
        error: m.error.deep_view(),
    }
}

/// The turn that a whole stored turn stands for.
pub open spec fn v1_turn(t: StoredTurnMetricsV1) -> TurnMetricsView {
    TurnMetricsView {
        session_id: t.session_id@,
        turn_id: t.turn_id@,
        stages: stage_views(t.stages@),
        inference: t.inference@.map_values(|m: StoredInferenceMetricV1| v1_metric(m)),
        tools: call_views(t.tools@),
        computer: t.computer,
        append_to_first_token_ns: t.append_to_first_token_ns,
        inference_duration_ns: t.inference_duration_ns,
        append_to_idle_ns: t.append_to_idle_ns,
        error: t.error.deep_view(),
        dropped_stages: t.dropped_stages,
        dropped_inference: t.dropped_inference,
        dropped_tools: t.dropped_tools,
    }
}

/// The old form of a request: what it predates is dropped.
pub open spec fn is_v1_of(stored: StoredInferenceMetricV1, m: InferenceMetricView) -> bool {
    v1_metric(stored) == (InferenceMetricView { request_duration_ns: None, streamed: true, ..m })
}

impl StoredInferenceMetricV1 {
    /// The metric that this old request stands for.
    pub fn into_api(self) -> (metric: InferenceMetric)
        ensures
            metric@ == v1_metric(self),
    {
        InferenceMetric {
            request_id: self.request_id,
            provider: self.provider,
            model: self.model,
            input_tokens: self.input_tokens,
            cached_input_tokens: self.cached_input_tokens,
            output_tokens: self.output_tokens,
            reasoning_tokens: self.reasoning_tokens,
            cost_micros: self.cost_micros,
            time_to_first_token_ns: self.time_to_first_token_ns,
            streaming_duration_ns: self.streaming_duration_ns,
            request_duration_ns: None,
            streamed: true,
            output_rate: self.output_rate,
            retries: self.retries,
            rate_limit_waits: self.rate_limit_waits,
            gateway_waits: self.gateway_waits,
            provider_failures: self.provider_failures,
            error: self.error,
        }
    }

    /// The old form of a metric.
    pub fn from_api(metric: InferenceMetric) -> (stored: StoredInferenceMetricV1)
        ensures
            is_v1_of(stored, metric@),
    {
        StoredInferenceMetricV1 {
            request_id: metric.request_id,
            provider: metric.provider,
            model: metric.model,
            input_tokens: metric.input_tokens,
            cached_input_tokens: metric.cached_input_tokens,
            output_tokens: metric.output_tokens,
            reasoning_tokens: metric.reasoning_tokens,
            cost_micros: metric.cost_micros,
            time_to_first_token_ns: metric.time_to_first_token_ns,
            streaming_duration_ns: metric.streaming_duration_ns,
            output_rate: metric.output_rate,
            retries: metric.retries,
            rate_limit_waits: metric.rate_limit_waits,
            gateway_waits: metric.gateway_waits,
            provider_failures: metric.provider_failures,
            error: metric.error,
        }
    }
}

/// A turn without content.
pub open spec fn blank_turn() -> TurnMetricsView {
    TurnMetricsView {
        session_id: Seq::empty(),
        turn_id: Seq::empty(),
        stages: Seq::empty(),
        inference: Seq::empty(),
        tools: Seq::empty(),
        computer: None,
        append_to_first_token_ns: None,
        inference_duration_ns: None,
        append_to_idle_ns: None,
        error: None,
        dropped_stages: 0,
        dropped_inference: 0,
        dropped_tools: 0,
    }
}

impl TurnMetrics {
    /// A turn without content.
    pub fn blank() -> (turn: TurnMetrics)
        ensures
            turn@ == blank_turn(),
    {
        let turn = TurnMetrics {
            session_id: String::new(),
            turn_id: String::new(),
            stages: Vec::new(),
            inference: Vec::new(),
            tools: Vec::new(),
            computer: None,
            append_to_first_token_ns: None,
            inference_duration_ns: None,
            append_to_idle_ns: None,
            error: None,
            dropped_stages: 0,
            dropped_inference: 0,
            dropped_tools: 0,
        };
        assert(turn@ =~= blank_turn());
        turn
    }
}

fn v1_into_api(stored: StoredTurnMetricsV1) -> (turn: TurnMetrics)
    ensures
        turn@ == v1_turn(stored),
{
    let ghost all = stored.inference@;
    let mut rest: Vec<StoredInferenceMetricV1> = stored.inference;
    let mut reversed: Vec<InferenceMetric> = Vec::new();
    while rest.len() > 0
        invariant
            reversed@.len() + rest@.len() == all.len(),
            rest@ == all.take(rest@.len() as int),
            forall|j: int|
                0 <= j < reversed@.len() ==> (#[trigger] reversed@[j])@ == v1_metric(
                    all[all.len() - 1 - j],
                ),
        decreases rest@.len(),
    {
        let ghost before = rest@;
        match rest.pop() {
            Some(metric) => {
                assert(metric == all[before.len() - 1]);
                assert(rest@ =~= all.take(rest@.len() as int));
                reversed.push(metric.into_api());
            },
            None => {},
        }
    }
    let mut inference: Vec<InferenceMetric> = Vec::new();
    while reversed.len() > 0
        invariant
            reversed@.len() + inference@.len() == all.len(),
            forall|j: int|
                0 <= j < reversed@.len() ==> (#[trigger] reversed@[j])@ == v1_metric(
                    all[all.len() - 1 - j],
                ),
            forall|j: int|
                0 <= j < inference@.len() ==> (#[trigger] inference@[j])@ == v1_metric(all[j]),
        decreases reversed@.len(),
    {
        match reversed.pop() {
            Some(metric) => {
                inference.push(metric);
            },
            None => {},
        }
    }
    let turn = TurnMetrics {
        session_id: stored.session_id,
        turn_id: stored.turn_id,
        stages: stored.stages,
        inference,
        tools: stored.tools,
        computer: stored.computer,
        append_to_first_token_ns: stored.append_to_first_token_ns,
        inference_duration_ns: stored.inference_duration_ns,
        append_to_idle_ns: stored.append_to_idle_ns,
        error: stored.error,
        dropped_stages: stored.dropped_stages,
        dropped_inference: stored.dropped_inference,
        dropped_tools: stored.dropped_tools,
    };
    assert(turn@ =~= v1_turn(stored));
    turn
}

/// A turn with what the old layout keeps of it.
pub open spec fn v1_kept(turn: TurnMetricsView) -> TurnMetricsView {
    TurnMetricsView {
        inference: turn.inference.map_values(
            |m: InferenceMetricView|
                InferenceMetricView { request_duration_ns: None, streamed: true, ..m },
        ),
        ..turn
    }
}

fn to_v1(turn: TurnMetrics) -> (stored: StoredTurnMetricsV1)
    ensures
        v1_turn(stored) == v1_kept(turn@),
{
    let ghost before = turn@;
    let mut inference: Vec<StoredInferenceMetricV1> = Vec::new();
    let mut i: usize = 0;
    while i < turn.inference.len()
        invariant
            i <= turn.inference.len(),
            inference@.len() == i,
            metric_views(turn.inference@) == before.inference,
            forall|j: int|
                0 <= j < i ==> v1_metric(#[trigger] inference@[j]) == v1_kept(before).inference[j],
        decreases turn.inference.len() - i,
    {
        let metric = turn.inference[i].copy();
        assert(metric@ == before.inference[i as int]);
        inference.push(StoredInferenceMetricV1::from_api(metric));
        i += 1;
    }
    let stored = StoredTurnMetricsV1 {
        session_id: turn.session_id,
        turn_id: turn.turn_id,
        stages: turn.stages,
        inference,
        tools: turn.tools,
        computer: turn.computer,
        append_to_first_token_ns: turn.append_to_first_token_ns,
        inference_duration_ns: turn.inference_duration_ns,
        append_to_idle_ns: turn.append_to_idle_ns,
        error: turn.error,
        dropped_stages: turn.dropped_stages,
        dropped_inference: turn.dropped_inference,
        dropped_tools: turn.dropped_tools,
    };
    assert(v1_turn(stored) =~= v1_kept(before));
    stored
}

impl StoredTurnMetrics {
    /// The turn that a stored value stands for. Only a whole turn stands for one; a detail row
    /// read as a turn is empty.
    pub fn into_api(self) -> (turn: TurnMetrics)
        ensures
            turn@ == match self {
                StoredTurnMetrics::V1(inner) => v1_turn(inner),
                _ => blank_turn(),
            },
    {
        match self {
            StoredTurnMetrics::V1(inner) => v1_into_api(inner),
            _ => TurnMetrics::blank(),
        }
    }

    /// A turn in the old layout.
    pub fn from_api(turn: TurnMetrics) -> (stored: StoredTurnMetrics)
        ensures
            stored matches StoredTurnMetrics::V1(inner) && v1_turn(inner) == v1_kept(turn@),
    {
        StoredTurnMetrics::V1(to_v1(turn))
    }
}

fn through_v1(turn: TurnMetrics) -> (kept: TurnMetrics)
    ensures
        kept@ == v1_kept(turn@),
{
    v1_into_api(to_v1(turn))
}

/// What the layouts of a summary key make of its bytes, in the order in which they are tried.
pub struct SummaryAttempts {
    pub envelope: Option<StoredTurnMetrics>,
    pub bare: Option<StoredTurnMetricsV1>,
    pub api: Option<TurnMetrics>,
}

/// Chooses what a summary key holds: the envelope first, then a bare whole turn, then a turn in
/// the reader's layout. A detail row there is corrupt; `None` means that no layout fits.
pub fn decode_summary(attempts: SummaryAttempts) -> (decoded: StoreResult<Option<DecodedSummary>>)
    ensures
        match attempts.envelope {
            Some(StoredTurnMetrics::V2Summary(summary)) => decoded == Ok::<_, StoreError>(
                Some(DecodedSummary::V2(summary)),
            ),
            Some(StoredTurnMetrics::V1(inner)) => decoded matches Ok(
                Some(DecodedSummary::Legacy(turn)),
            ) && turn@ == v1_turn(inner),
            Some(_) => decoded == Err::<Option<DecodedSummary>, _>(StoreError::Corrupt),
            None => match (attempts.bare, attempts.api) {
                (Some(inner), _) => decoded matches Ok(Some(DecodedSummary::Legacy(turn))) && turn@
                    == v1_turn(inner),
                (None, Some(api)) => decoded matches Ok(Some(DecodedSummary::Legacy(turn)))
                    && turn@ == v1_kept(api@),
                (None, None) => decoded == Ok::<Option<DecodedSummary>, StoreError>(None),
            },
        },
{
    match attempts.envelope {
        Some(StoredTurnMetrics::V2Summary(summary)) => Ok(Some(DecodedSummary::V2(summary))),
        Some(StoredTurnMetrics::V1(inner)) => Ok(Some(DecodedSummary::Legacy(v1_into_api(inner)))),
        Some(_) => Err(StoreError::Corrupt),
        None => match attempts.bare {
            Some(inner) => Ok(Some(DecodedSummary::Legacy(v1_into_api(inner)))),
            None => match attempts.api {
                Some(api) => Ok(Some(DecodedSummary::Legacy(through_v1(api)))),
                None => Ok(None),
            },
        },
    }
}

/// Chooses the whole turn that bytes hold. Summary and detail rows are corrupt here; `None`
/// means that no layout fits.
pub fn decode_record(attempts: SummaryAttempts) -> (decoded: StoreResult<Option<TurnMetrics>>)
    ensures
        match attempts.envelope {
            Some(StoredTurnMetrics::V1(inner)) => decoded matches Ok(Some(turn)) && turn@
                == v1_turn(inner),
            Some(_) => decoded == Err::<Option<TurnMetrics>, _>(StoreError::Corrupt),
            None => match (attempts.bare, attempts.api) {
                (Some(inner), _) => decoded matches Ok(Some(turn)) && turn@ == v1_turn(inner),
                (None, Some(api)) => decoded matches Ok(Some(turn)) && turn@ == v1_kept(api@),
                (None, None) => decoded == Ok::<Option<TurnMetrics>, StoreError>(None),
            },
        },
{
    match attempts.envelope {
        Some(StoredTurnMetrics::V1(inner)) => Ok(Some(v1_into_api(inner))),
        Some(_) => Err(StoreError::Corrupt),
        None => match attempts.bare {
            Some(inner) => Ok(Some(v1_into_api(inner))),
            None => match attempts.api {
                Some(api) => Ok(Some(through_v1(api))),
                None => Ok(None),
            },
        },
    }
}

/// Chooses the request row that bytes hold: the envelope's, else a bare row.
pub fn decode_inference(
    envelope: Option<StoredTurnMetrics>,
    bare: Option<InferenceRow>,
) -> (decoded: StoreResult<InferenceRow>)
    ensures
        decoded == match (envelope, bare) {
            (Some(StoredTurnMetrics::V2Inference(row)), _) => Ok(row),
            (_, Some(row)) => Ok(row),
            _ => Err(StoreError::Corrupt),
        },
{
    match envelope {
        Some(StoredTurnMetrics::V2Inference(row)) => Ok(row),
        _ => match bare {
            Some(row) => Ok(row),
            None => Err(StoreError::Corrupt),
        },
    }
}

/// Chooses the tool row that bytes hold: the envelope's, else a bare row.
pub fn decode_tool(
    envelope: Option<StoredTurnMetrics>,
    bare: Option<ToolMetric>,
) -> (decoded: StoreResult<ToolMetric>)
    ensures
        decoded == match (envelope, bare) {
            (Some(StoredTurnMetrics::V2Tool(row)), _) => Ok(row),
            (_, Some(row)) => Ok(row),
            _ => Err(StoreError::Corrupt),
        },
{
    match envelope {
        Some(StoredTurnMetrics::V2Tool(row)) => Ok(row),
        _ => match bare {
            Some(row) => Ok(row),
            None => Err(StoreError::Corrupt),
        },
    }
}

// ---------------------------------------------------------------------------------------------
// One batch of observations
// ---------------------------------------------------------------------------------------------

/// A worker's dispatch: the tool's name and the dispatch stage, merged in one transaction.
pub fn dispatch_patches(event: TurnEvent, tool_name: &str) -> (patches: Vec<MetricPatch>)
    ensures
        patches@.len() == 2,
        patches@[0]@ == (PatchView::Tool {
            update: ToolMetricView {
                name: tool_name@,
                ..crate::metrics::blank_tool(
                    match event.request_id {
                        Some(id) => crate::ids::request_text(id),
                        None => Seq::empty(),
                    },
                )
            },
        }),
        patches@[1] == MetricPatch::Stage(event),
{
    let request_id = match event.request_id {
        Some(id) => id.name(),
        None => String::new(),
    };
    let mut tool = ToolMetric::blank(request_id.as_str());
    tool.name = tool_name.to_owned();
    let mut patches: Vec<MetricPatch> = Vec::new();
    patches.push(MetricPatch::Tool(tool));
    patches.push(MetricPatch::Stage(event));
    patches
}

/// A node's completion: the tool's result, an optional computer sample and the completion stage.
pub fn completion_patches(
    tool: ToolMetric,
    computer: Option<ComputerMetric>,
    completed: TurnEvent,
) -> (patches: Vec<MetricPatch>)
    ensures
        patches@ == match computer {
            Some(sample) => seq![
                MetricPatch::Tool(tool),
                MetricPatch::Computer(sample),
                MetricPatch::Stage(completed),
            ],
            None => seq![MetricPatch::Tool(tool), MetricPatch::Stage(completed)],
        },
{
    let mut patches: Vec<MetricPatch> = Vec::new();
    patches.push(MetricPatch::Tool(tool));
    if let Some(sample) = computer {
        patches.push(MetricPatch::Computer(sample));
    }
    patches.push(MetricPatch::Stage(completed));
    assert(patches@ =~= match computer {
        Some(sample) => seq![
            MetricPatch::Tool(tool),
            MetricPatch::Computer(sample),
            MetricPatch::Stage(completed),
        ],
        None => seq![MetricPatch::Tool(tool), MetricPatch::Stage(completed)],
    });
    patches
}

/// The request row that an observation touches.
pub open spec fn touches_inference(patch: PatchView) -> Option<Seq<char>> {
    match patch {
        PatchView::Stage { stage, request_id: Some(id), .. } => if stage == TurnStage::InferenceStarted
            || stage == TurnStage::InferenceFinished || stage == TurnStage::FirstToken {
            Some(crate::ids::request_text(id))
        } else {
            None
        },
        PatchView::Inference { update } => Some(update.request_id),
        PatchView::Wait { request_id, .. } => Some(request_id),
        _ => None,
    }
}

/// The tool row that an observation touches.
pub open spec fn touches_tool(patch: PatchView) -> Option<Seq<char>> {
    match patch {
        PatchView::Stage { stage, request_id: Some(id), .. } => if stage == TurnStage::ToolDispatched
            || stage == TurnStage::ToolCompleted {
            Some(crate::ids::request_text(id))
        } else {
            None
        },
        PatchView::Tool { update } => Some(update.request_id),
        _ => None,
    }
}

/// Request rows that observations touch.
pub open spec fn touched_inference(patches: Seq<PatchView>) -> Set<Seq<char>> {
    Set::new(
        |key: Seq<char>|
            exists|i: int|
                0 <= i < patches.len() && touches_inference(#[trigger] patches[i]) == Some(key),
    )
}

/// Tool rows that observations touch.
pub open spec fn touched_tools(patches: Seq<PatchView>) -> Set<Seq<char>> {
    Set::new(
        |key: Seq<char>|
            exists|i: int|
                0 <= i < patches.len() && touches_tool(#[trigger] patches[i]) == Some(key),
    )
}

fn inference_id(patch: &MetricPatch) -> (id: Option<String>)
    ensures
        id.deep_view() == touches_inference(patch@),
{
    match patch {
        MetricPatch::Stage(event) => match event.request_id {
            Some(request) => match event.stage {
                TurnStage::InferenceStarted | TurnStage::InferenceFinished | TurnStage::FirstToken =>
                    Some(request.name()),
                _ => None,
            },
            None => None,
        },
        MetricPatch::Inference(update) => Some(update.request_id.clone()),
        MetricPatch::Wait { request_id, .. } => Some(request_id.clone()),
        _ => None,
    }
}

fn tool_id(patch: &MetricPatch) -> (id: Option<String>)
    ensures
        id.deep_view() == touches_tool(patch@),
{
    match patch {
        MetricPatch::Stage(event) => match event.request_id {
            Some(request) => match event.stage {
                TurnStage::ToolDispatched | TurnStage::ToolCompleted => Some(request.name()),
                _ => None,
            },
            None => None,
        },
        MetricPatch::Tool(update) => Some(update.request_id.clone()),
        _ => None,
    }
}

/// Ids of the request rows that a batch touches, in order and without repetition.
pub fn inference_ids(patches: &Vec<MetricPatch>) -> (ids: TextMap<()>)
    ensures
        ids.wf(),
        ids@.dom() == touched_inference(patch_views(patches@)),
{
    let ghost views = patch_views(patches@);
    let mut ids: TextMap<()> = TextMap::new();
    assert(ids@.dom() =~= touched_inference(views.take(0)));
    let mut i: usize = 0;
    while i < patches.len()
        invariant
            i <= patches.len(),
            views == patch_views(patches@),
            ids.wf(),
            ids@.dom() == touched_inference(views.take(i as int)),
        decreases patches.len() - i,
    {
        let ghost before = ids@.dom();
        let ghost longer = views.take(i + 1);
        assert(longer[i as int] == patches@[i as int]@);
        assert(forall|j: int| 0 <= j < i ==> longer[j] == views.take(i as int)[j]);
        if let Some(id) = inference_id(&patches[i]) {
            ids.insert(id, ());
            assert(touches_inference(longer[i as int]) == Some(id@));
            assert(ids@.dom() =~= before.insert(id@));
        }
        proof {
            assert forall|key: Seq<char>| ids@.dom().contains(key) <==> touched_inference(
                longer,
            ).contains(key) by {
                if before.contains(key) {
                    let j = choose|j: int|
                        0 <= j < views.take(i as int).len() && touches_inference(
                            #[trigger] views.take(i as int)[j],
                        ) == Some(key);
                    assert(touches_inference(longer[j]) == Some(key));
                }
                if touched_inference(longer).contains(key) {
                    let j = choose|j: int|
                        0 <= j < longer.len() && touches_inference(#[trigger] longer[j]) == Some(key);
                    if j < i {
                        assert(touches_inference(views.take(i as int)[j]) == Some(key));
                    }
                }
            }
            assert(ids@.dom() =~= touched_inference(longer));
        }
        i += 1;
    }
    assert(views.take(i as int) =~= views);
    ids
}

/// Ids of the tool rows that a batch touches, in order and without repetition.
pub fn tool_ids(patches: &Vec<MetricPatch>) -> (ids: TextMap<()>)
    ensures
        ids.wf(),
        ids@.dom() == touched_tools(patch_views(patches@)),
{
    let ghost views = patch_views(patches@);
    let mut ids: TextMap<()> = TextMap::new();
    assert(ids@.dom() =~= touched_tools(views.take(0)));
    let mut i: usize = 0;
    while i < patches.len()
        invariant
            i <= patches.len(),
            views == patch_views(patches@),
            ids.wf(),
            ids@.dom() == touched_tools(views.take(i as int)),
        decreases patches.len() - i,
    {
        let ghost before = ids@.dom();
        let ghost longer = views.take(i + 1);
        assert(longer[i as int] == patches@[i as int]@);
        assert(forall|j: int| 0 <= j < i ==> longer[j] == views.take(i as int)[j]);
        if let Some(id) = tool_id(&patches[i]) {
            ids.insert(id, ());
            assert(touches_tool(longer[i as int]) == Some(id@));
            assert(ids@.dom() =~= before.insert(id@));
        }
        proof {
            assert forall|key: Seq<char>| ids@.dom().contains(key) <==> touched_tools(
                longer,
            ).contains(key) by {
                if before.contains(key) {
                    let j = choose|j: int|
                        0 <= j < views.take(i as int).len() && touches_tool(
                            #[trigger] views.take(i as int)[j],
                        ) == Some(key);
                    assert(touches_tool(longer[j]) == Some(key));
                }
                if touched_tools(longer).contains(key) {
                    let j = choose|j: int|
                        0 <= j < longer.len() && touches_tool(#[trigger] longer[j]) == Some(key);
                    if j < i {
                        assert(touches_tool(views.take(i as int)[j]) == Some(key));
                    }
                }
            }
            assert(ids@.dom() =~= touched_tools(longer));
        }
        i += 1;
    }
    assert(views.take(i as int) =~= views);
    ids
}

/// Whether a batch counts a wait.
pub fn has_wait(patches: &Vec<MetricPatch>) -> (found: bool)
    ensures
        found <==> exists|i: int| 0 <= i < patches@.len() && #[trigger] patches@[i] is Wait,
{
    let mut i: usize = 0;
    while i < patches.len()
        invariant
            i <= patches.len(),
            forall|j: int| 0 <= j < i ==> !(#[trigger] patches@[j] is Wait),
        decreases patches.len() - i,
    {
        if let MetricPatch::Wait { .. } = &patches[i] {
            return true;
        }
        i += 1;
    }
    false
}

/// Whether a batch whose commit has an unknown outcome is sent again: once, and never when it
/// counts a wait, because a wait that did land would count twice.
pub fn retry_unknown(attempts: u32, has_wait: bool) -> (again: bool)
    ensures
        again <==> attempts == 0 && !has_wait,
{
    attempts == 0 && !has_wait
}

/// A row that can be copied.
pub trait Duplicate: Sized {
    /// The same row.
    fn duplicate(&self) -> (copy: Self)
        ensures
            copy == *self,
    ;
}

impl Duplicate for InferenceRow {
    fn duplicate(&self) -> (copy: Self) {
        self.copy()
    }
}

impl Duplicate for ToolMetric {
    fn duplicate(&self) -> (copy: Self) {
        self.copy()
    }
}

/// Rows that a batch starts from: migrated rows, and stored rows that it touches.
pub open spec fn seeded<V>(
    migrated: Map<Seq<char>, V>,
    stored: Map<Seq<char>, V>,
    touched: Set<Seq<char>>,
) -> Map<Seq<char>, V> {
    Map::new(
        |key: Seq<char>|
            migrated.dom().contains(key) || (touched.contains(key) && stored.dom().contains(key)),
        |key: Seq<char>|
            if migrated.dom().contains(key) {
                migrated[key]
            } else {
                stored[key]
            },
    )
}

/// Rows that a batch writes: those it touched, and migrated rows that the store lacks.
pub open spec fn written<V>(
    end: Map<Seq<char>, V>,
    migrated: Map<Seq<char>, V>,
    stored: Map<Seq<char>, V>,
    touched: Set<Seq<char>>,
) -> Map<Seq<char>, V> {
    Map::new(
        |key: Seq<char>|
            if touched.contains(key) {
                end.dom().contains(key)
            } else {
                migrated.dom().contains(key) && !stored.dom().contains(key)
            },
        |key: Seq<char>|
            if touched.contains(key) {
                end[key]
            } else {
                migrated[key]
            },
    )
}

/// The keys of the first `count` entries.
pub open spec fn keys_before<V>(entries: Seq<(String, V)>, count: int) -> Set<Seq<char>> {
    Set::new(|key: Seq<char>| exists|i: int| 0 <= i < count && (#[trigger] entries[i]).0@ == key)
}

fn copy_map<V: Duplicate>(map: &TextMap<V>) -> (copy: TextMap<V>)
    requires
        map.wf(),
    ensures
        copy.wf(),
        copy@ == map@,
{
    let mut entries: Vec<(String, V)> = Vec::new();
    let mut i: usize = 0;
    while i < map.entries.len()
        invariant
            i <= map.entries.len(),
            entries@ == map.entries@.take(i as int),
        decreases map.entries.len() - i,
    {
        let entry = (map.entries[i].0.clone(), map.entries[i].1.duplicate());
        entries.push(entry);
        assert(entries@ =~= map.entries@.take(i + 1));
        i += 1;
    }
    assert(entries@ =~= map.entries@);
    TextMap { entries }
}

fn seed_rows<V: Duplicate>(
    migrated: &TextMap<V>,
    stored: &TextMap<V>,
    touched: &TextMap<()>,
) -> (rows: TextMap<V>)
    requires
        migrated.wf(),
        stored.wf(),
        touched.wf(),
    ensures
        rows.wf(),
        rows@ == seeded(migrated@, stored@, touched@.dom()),
{
    let mut rows = copy_map(migrated);
    assert(rows@ =~= seeded(migrated@, stored@, keys_before(touched.entries@, 0)));
    let mut i: usize = 0;
    while i < touched.entries.len()
        invariant
            i <= touched.entries.len(),
            stored.wf(),
            rows.wf(),
            rows@ == seeded(migrated@, stored@, keys_before(touched.entries@, i as int)),
        decreases touched.entries.len() - i,
    {
        let ghost before = rows@;
        let ghost key = touched.entries@[i as int].0@;
        let ghost fewer = keys_before(touched.entries@, i as int);
        let ghost more = keys_before(touched.entries@, i + 1);
        proof {
            assert forall|k: Seq<char>| more.contains(k) <==> fewer.contains(k) || k == key by {
                if more.contains(k) {
                    let j = choose|j: int| 0 <= j < i + 1 && (#[trigger] touched.entries@[j]).0@ == k;
                    if j < i {
                        assert(touched.entries@[j].0@ == k);
                    }
                }
                if fewer.contains(k) {
                    let j = choose|j: int| 0 <= j < i && (#[trigger] touched.entries@[j]).0@ == k;
                    assert(touched.entries@[j].0@ == k);
                }
                assert(touched.entries@[i as int].0@ == key);
            }
        }
        if !rows.contains_key(touched.entries[i].0.as_str()) {
            if let Some(row) = stored.get(touched.entries[i].0.as_str()) {
                rows.insert(touched.entries[i].0.clone(), row.duplicate());
            }
        }
        assert(rows@ =~= seeded(migrated@, stored@, more));
        i += 1;
    }
    proof {
        assert(keys_before(touched.entries@, i as int) =~= touched@.dom());
    }
    rows
}

fn rows_to_write<V: Duplicate>(
    end: &TextMap<V>,
    migrated: &TextMap<V>,
    stored: &TextMap<V>,
    touched: &TextMap<()>,
) -> (rows: TextMap<V>)
    requires
        end.wf(),
        migrated.wf(),
        stored.wf(),
        touched.wf(),
    ensures
        rows.wf(),
        rows@ == written(end@, migrated@, stored@, touched@.dom()),
{
    let mut rows: TextMap<V> = TextMap::new();
    let ghost all = touched@.dom();
    let mut i: usize = 0;
    while i < touched.entries.len()
        invariant
            i <= touched.entries.len(),
            end.wf(),
            rows.wf(),
            forall|k: Seq<char>|
                #![trigger rows@.dom().contains(k)]
                rows@.dom().contains(k) <==> keys_before(touched.entries@, i as int).contains(k)
                    && end@.dom().contains(k),
            forall|k: Seq<char>| rows@.dom().contains(k) ==> #[trigger] rows@[k] == end@[k],
        decreases touched.entries.len() - i,
    {
        let ghost key = touched.entries@[i as int].0@;
        let ghost fewer = keys_before(touched.entries@, i as int);
        let ghost more = keys_before(touched.entries@, i + 1);
        proof {
            assert forall|k: Seq<char>| more.contains(k) <==> fewer.contains(k) || k == key by {
                if more.contains(k) {
                    let j = choose|j: int| 0 <= j < i + 1 && (#[trigger] touched.entries@[j]).0@ == k;
                    if j < i {
                        assert(touched.entries@[j].0@ == k);
                    }
                }
                if fewer.contains(k) {
                    let j = choose|j: int| 0 <= j < i && (#[trigger] touched.entries@[j]).0@ == k;
                    assert(touched.entries@[j].0@ == k);
                }
                assert(touched.entries@[i as int].0@ == key);
            }
        }
        if let Some(row) = end.get(touched.entries[i].0.as_str()) {
            rows.insert(touched.entries[i].0.clone(), row.duplicate());
        }
        i += 1;
    }
    proof {
        assert(keys_before(touched.entries@, i as int) =~= all);
    }
    let mut n: usize = 0;
    while n < migrated.entries.len()
        invariant
            n <= migrated.entries.len(),
            migrated.wf(),
            stored.wf(),
            touched.wf(),
            rows.wf(),
            all == touched@.dom(),
            forall|k: Seq<char>|
                #![trigger rows@.dom().contains(k)]
                rows@.dom().contains(k) <==> if all.contains(k) {
                    end@.dom().contains(k)
                } else {
                    keys_before(migrated.entries@, n as int).contains(k) && !stored@.dom().contains(k)
                },
            forall|k: Seq<char>|
                rows@.dom().contains(k) ==> #[trigger] rows@[k] == if all.contains(k) {
                    end@[k]
                } else {
                    migrated@[k]
                },
        decreases migrated.entries.len() - n,
    {
        let ghost key = migrated.entries@[n as int].0@;
        let ghost fewer = keys_before(migrated.entries@, n as int);
        let ghost more = keys_before(migrated.entries@, n + 1);
        proof {
            assert forall|k: Seq<char>| more.contains(k) <==> fewer.contains(k) || k == key by {
                if more.contains(k) {
                    let j = choose|j: int| 0 <= j < n + 1 && (#[trigger] migrated.entries@[j]).0@ == k;
                    if j < n {
                        assert(migrated.entries@[j].0@ == k);
                    }
                }
                if fewer.contains(k) {
                    let j = choose|j: int| 0 <= j < n && (#[trigger] migrated.entries@[j]).0@ == k;
                    assert(migrated.entries@[j].0@ == k);
                }
                assert(migrated.entries@[n as int].0@ == key);
            }
            crate::textmap::key_index_unique(migrated.entries@, n as int);
        }
        if !touched.contains_key(migrated.entries[n].0.as_str()) && !stored.contains_key(
            migrated.entries[n].0.as_str(),
        ) {
            rows.insert(migrated.entries[n].0.clone(), migrated.entries[n].1.duplicate());
        }
        n += 1;
    }
    proof {
        assert(keys_before(migrated.entries@, n as int) =~= migrated@.dom());
        assert(rows@ =~= written(end@, migrated@, stored@, all));
    }
    rows
}

/// A turn as its summary key leaves it: the summary, and rows that only a whole stored turn held.
pub struct OpenedTurn {
    pub summary: TurnSummary,
    pub migrated_inference: TextMap<InferenceRow>,
    pub migrated_tools: TextMap<ToolMetric>,
}

/// Rows by request id; of rows with one id the last counts.
pub open spec fn rows_by_id(rows: Seq<InferenceRowView>) -> Map<Seq<char>, InferenceRowView>
    decreases rows.len(),
{
    if rows.len() == 0 {
        Map::empty()
    } else {
        rows_by_id(rows.drop_last()).insert(rows.last().metric.request_id, rows.last())
    }
}

/// Tool rows by call id; of rows with one id the last counts.
pub open spec fn calls_by_id(tools: Seq<ToolMetricView>) -> Map<Seq<char>, ToolMetricView>
    decreases tools.len(),
{
    if tools.len() == 0 {
        Map::empty()
    } else {
        calls_by_id(tools.drop_last()).insert(tools.last().request_id, tools.last())
    }
}

/// What a summary key gives a batch to start from.
pub open spec fn opened(
    stored: Option<DecodedSummary>,
    session: SessionId,
    turn: MessageId,
) -> TurnView {
    match stored {
        None => TurnView {
            summary: blank_summary(
                base32_text(session.0 as nat, 26),
                base32_text(turn.0 as nat, 26),
            ),
            inference: Map::empty(),
            tools: Map::empty(),
        },
        Some(DecodedSummary::V2(summary)) => TurnView {
            summary: summary@,
            inference: Map::empty(),
            tools: Map::empty(),
        },
        Some(DecodedSummary::Legacy(record)) => TurnView {
            summary: legacy_summary(record@),
            inference: rows_by_id(legacy_rows(record@)),
            tools: calls_by_id(record@.tools),
        },
    }
}

/// Opens a turn for a batch: an absent one is blank, a whole stored one is split into rows.
pub fn open_turn(stored: Option<DecodedSummary>, session: SessionId, turn: MessageId) -> (open: OpenedTurn)
    requires
        stored matches Some(DecodedSummary::Legacy(record)) ==> totals_fit(
            token_totals(record@.inference),
        ),
    ensures
        open.migrated_inference.wf(),
        open.migrated_tools.wf(),
        open.summary@ == opened(stored, session, turn).summary,
        inference_views(open.migrated_inference@) == opened(stored, session, turn).inference,
        tool_views(open.migrated_tools@) == opened(stored, session, turn).tools,
{
    let mut inference: TextMap<InferenceRow> = TextMap::new();
    let mut tools: TextMap<ToolMetric> = TextMap::new();
    assert(inference_views(inference@) =~= Map::<Seq<char>, InferenceRowView>::empty());
    assert(tool_views(tools@) =~= Map::<Seq<char>, ToolMetricView>::empty());
    match stored {
        None => {
            let summary = TurnSummary::blank(
                ulid_text(session.0).as_str(),
                ulid_text(turn.0).as_str(),
            );
            OpenedTurn { summary, migrated_inference: inference, migrated_tools: tools }
        },
        Some(DecodedSummary::V2(summary)) => OpenedTurn {
            summary,
            migrated_inference: inference,
            migrated_tools: tools,
        },
        Some(DecodedSummary::Legacy(record)) => {
            let (summary, rows) = migrate_legacy(&record);
            let ghost views = row_views(rows@);
            let mut i: usize = 0;
            while i < rows.len()
                invariant
                    i <= rows.len(),
                    views == row_views(rows@),
                    inference.wf(),
                    inference_views(inference@) == rows_by_id(views.take(i as int)),
                decreases rows.len() - i,
            {
                let row = rows[i].copy();
                proof {
                    assert(views.take(i + 1).drop_last() =~= views.take(i as int));
                    assert(views.take(i + 1).last() == row@);
                    assert(inference_views(inference@.insert(row.metric.request_id@, row))
                        =~= inference_views(inference@).insert(row.metric.request_id@, row@));
                }
                inference.insert(row.metric.request_id.clone(), row);
                i += 1;
            }
            assert(views.take(i as int) =~= views);
            let ghost calls = call_views(record.tools@);
            let mut n: usize = 0;
            while n < record.tools.len()
                invariant
                    n <= record.tools.len(),
                    calls == call_views(record.tools@),
                    tools.wf(),
                    tool_views(tools@) == calls_by_id(calls.take(n as int)),
                decreases record.tools.len() - n,
            {
                let row = record.tools[n].copy();
                proof {
                    assert(calls.take(n + 1).drop_last() =~= calls.take(n as int));
                    assert(calls.take(n + 1).last() == row@);
                    assert(tool_views(tools@.insert(row.request_id@, row)) =~= tool_views(
                        tools@,
                    ).insert(row.request_id@, row@));
                }
                tools.insert(row.request_id.clone(), row);
                n += 1;
            }
            assert(calls.take(n as int) =~= calls);
            OpenedTurn { summary, migrated_inference: inference, migrated_tools: tools }
        },
    }
}

/// Where a batch starts: the opened turn and the stored rows that the batch touches.
pub open spec fn batch_start(
    open: TurnView,
    stored_inference: Map<Seq<char>, InferenceRowView>,
    stored_tools: Map<Seq<char>, ToolMetricView>,
    patches: Seq<PatchView>,
) -> TurnView {
    TurnView {
        summary: open.summary,
        inference: seeded(open.inference, stored_inference, touched_inference(patches)),
        tools: seeded(open.tools, stored_tools, touched_tools(patches)),
    }
}

impl OpenedTurn {
    /// Mathematical value.
    pub open spec fn turn(&self) -> TurnView {
        TurnView {
            summary: self.summary@,
            inference: inference_views(self.migrated_inference@),
            tools: tool_views(self.migrated_tools@),
        }
    }

    /// Whether the row maps are ordered.
    pub open spec fn wf(&self) -> bool {
        self.migrated_inference.wf() && self.migrated_tools.wf()
    }
}

/// Merges a batch of observations into an opened turn. `stored_inference` and `stored_tools` are
/// the detail rows found under the ids that the batch touches or that were migrated. The result
/// holds what the transaction writes: the summary, the touched rows, and migrated rows that the
/// store lacks, so that a whole stored turn is never the only copy of its rows.
pub fn record_turn_metrics(
    open: OpenedTurn,
    stored_inference: &TextMap<InferenceRow>,
    stored_tools: &TextMap<ToolMetric>,
    patches: &Vec<MetricPatch>,
) -> (writes: TurnWrite)
    requires
        open.wf(),
        stored_inference.wf(),
        stored_tools.wf(),
        has_room(open.summary@, patch_views(patches@)),
    ensures
        writes.wf(),
        ({
            let views = patch_views(patches@);
            let start = batch_start(
                open.turn(),
                inference_views(stored_inference@),
                tool_views(stored_tools@),
                views,
            );
            let end = patched_all(start, views);
            &&& writes@.summary == end.summary
            &&& writes@.inference == written(
                end.inference,
                open.turn().inference,
                inference_views(stored_inference@),
                touched_inference(views),
            )
            &&& writes@.tools == written(
                end.tools,
                open.turn().tools,
                tool_views(stored_tools@),
                touched_tools(views),
            )
        }),
{
    let ghost views = patch_views(patches@);
    let inference_touched = inference_ids(patches);
    let tools_touched = tool_ids(patches);
    let inference = seed_rows(&open.migrated_inference, stored_inference, &inference_touched);
    let tools = seed_rows(&open.migrated_tools, stored_tools, &tools_touched);
    let mut turn = TurnWrite { summary: open.summary, inference, tools };
    proof {
        assert(inference_views(inference@) =~= seeded(
            inference_views(open.migrated_inference@),
            inference_views(stored_inference@),
            touched_inference(views),
        ));
        assert(tool_views(tools@) =~= seeded(
            tool_views(open.migrated_tools@),
            tool_views(stored_tools@),
            touched_tools(views),
        ));
    }
    apply_all(&mut turn, patches);
    let inference_writes = rows_to_write(
        &turn.inference,
        &open.migrated_inference,
        stored_inference,
        &inference_touched,
    );
    let tool_writes = rows_to_write(
        &turn.tools,
        &open.migrated_tools,
        stored_tools,
        &tools_touched,
    );
    let writes = TurnWrite {
        summary: turn.summary,
        inference: inference_writes,
        tools: tool_writes,
    };
    proof {
        assert(inference_views(inference_writes@) =~= written(
            inference_views(turn.inference@),
            inference_views(open.migrated_inference@),
            inference_views(stored_inference@),
            touched_inference(views),
        ));
        assert(tool_views(tool_writes@) =~= written(
            tool_views(turn.tools@),
            tool_views(open.migrated_tools@),
            tool_views(stored_tools@),
            touched_tools(views),
        ));
    }
    writes
}

/// A request of the old layout reads as what it was stored with, each number in its own place.
pub proof fn old_requests_keep_what_they_had(stored: StoredInferenceMetricV1, metric: InferenceMetric)
    requires
        call_ensures(StoredInferenceMetricV1::into_api, (stored,), metric),
    ensures
        metric.request_id@ == stored.request_id@ && metric.provider@ == stored.provider@,
        metric.model@ == stored.model@,
        metric.input_tokens == stored.input_tokens,
        metric.cached_input_tokens == stored.cached_input_tokens,
        metric.output_tokens == stored.output_tokens,
        metric.reasoning_tokens == stored.reasoning_tokens,
        metric.cost_micros == stored.cost_micros,
        metric.time_to_first_token_ns == stored.time_to_first_token_ns,
        metric.streaming_duration_ns == stored.streaming_duration_ns,
        metric.output_rate == stored.output_rate,
        metric.retries == stored.retries && metric.rate_limit_waits == stored.rate_limit_waits,
        metric.gateway_waits == stored.gateway_waits && metric.provider_failures == stored.provider_failures,
        metric.error.deep_view() == stored.error.deep_view(),
        metric.streamed && metric.request_duration_ns is None,
{
    assert(metric@ == v1_metric(stored));
}

/// A request that is stored in the old layout is read back as it was, but for what the layout cannot
/// hold.
pub proof fn old_layouts_are_read_back(metric: InferenceMetric, stored: StoredInferenceMetricV1, read: InferenceMetric)
    requires
        call_ensures(StoredInferenceMetricV1::from_api, (metric,), stored),
        call_ensures(StoredInferenceMetricV1::into_api, (stored,), read),
    ensures
        read.request_id@ == metric.request_id@ && read.provider@ == metric.provider@,
        read.model@ == metric.model@ && read.error.deep_view() == metric.error.deep_view(),
        read.input_tokens == metric.input_tokens && read.output_tokens == metric.output_tokens,
        read.cached_input_tokens == metric.cached_input_tokens,
        read.reasoning_tokens == metric.reasoning_tokens && read.cost_micros == metric.cost_micros,
        read.time_to_first_token_ns == metric.time_to_first_token_ns,
        read.streaming_duration_ns == metric.streaming_duration_ns,
        read.output_rate == metric.output_rate && read.retries == metric.retries,
        read.rate_limit_waits == metric.rate_limit_waits && read.gateway_waits == metric.gateway_waits,
        read.provider_failures == metric.provider_failures,
{
    assert(read@ == v1_metric(stored));
    assert(read@ == (InferenceMetricView { request_duration_ns: None, streamed: true, ..metric@ }));
}

/// A turn that is stored whole is read back whole.
pub proof fn whole_turns_are_read_back(turn: TurnMetrics, stored: StoredTurnMetrics, read: TurnMetrics)
    requires
        call_ensures(StoredTurnMetrics::from_api, (turn,), stored),
        call_ensures(StoredTurnMetrics::into_api, (stored,), read),
    ensures
        read.session_id@ == turn.session_id@ && read.turn_id@ == turn.turn_id@,
        stage_views(read.stages@) == stage_views(turn.stages@),
        call_views(read.tools@) == call_views(turn.tools@),
        read.inference@.len() == turn.inference@.len(),
        forall|i: int|
            0 <= i < turn.inference@.len() ==> (#[trigger] read.inference@[i]).request_id@
                == turn.inference@[i].request_id@ && read.inference@[i].input_tokens
                == turn.inference@[i].input_tokens && read.inference@[i].output_tokens
                == turn.inference@[i].output_tokens && read.inference@[i].cost_micros
                == turn.inference@[i].cost_micros,
        read.computer == turn.computer && read.error.deep_view() == turn.error.deep_view(),
        read.append_to_first_token_ns == turn.append_to_first_token_ns,
        read.inference_duration_ns == turn.inference_duration_ns,
        read.append_to_idle_ns == turn.append_to_idle_ns,
        read.dropped_stages == turn.dropped_stages && read.dropped_inference == turn.dropped_inference,
        read.dropped_tools == turn.dropped_tools,
{
    let kept = v1_kept(turn@);
    assert(read@ == kept);
    assert(read@.inference.len() == read.inference@.len());
    assert(turn@.inference.len() == turn.inference@.len());
    assert forall|i: int| 0 <= i < turn.inference@.len() implies (#[trigger] read.inference@[i]).request_id@
        == turn.inference@[i].request_id@ && read.inference@[i].input_tokens == turn.inference@[i].input_tokens
        && read.inference@[i].output_tokens == turn.inference@[i].output_tokens && read.inference@[i].cost_micros
        == turn.inference@[i].cost_micros by {
        assert(read@.inference[i] == read.inference@[i]@);
        assert(turn@.inference[i] == turn.inference@[i]@);
    }
    assert(read@.session_id == turn@.session_id);
    assert(read@.error == read.error.deep_view());
}

/// A summary row reads as that summary, an old record as the turn that it holds, and a row of
/// another kind as damage; a value that nothing reads is no turn.
pub proof fn stored_summaries_are_read(attempts: SummaryAttempts, decoded: StoreResult<Option<DecodedSummary>>)
    requires
        call_ensures(decode_summary, (attempts,), decoded),
    ensures
        attempts.envelope matches Some(StoredTurnMetrics::V2Summary(summary)) ==> decoded == Ok::<_, StoreError>(
            Some(DecodedSummary::V2(summary)),
        ),
        attempts.envelope matches Some(StoredTurnMetrics::V2Inference(_)) ==> decoded is Err,
        attempts.envelope matches Some(StoredTurnMetrics::V2Tool(_)) ==> decoded is Err,
        attempts.envelope matches Some(StoredTurnMetrics::V1(inner)) ==> (decoded matches Ok(Some(
            DecodedSummary::Legacy(turn),
        )) && turn.session_id@ == inner.session_id@ && turn.turn_id@ == inner.turn_id@ && turn.computer
            == inner.computer && turn.inference@.len() == inner.inference@.len()),
        attempts.envelope is None && attempts.bare is None ==> (attempts.api matches Some(api) ==> (
        decoded matches Ok(Some(DecodedSummary::Legacy(turn))) && turn.session_id@ == api.session_id@
            && turn.turn_id@ == api.turn_id@)),
        attempts.envelope is None && attempts.bare is None && attempts.api is None ==> (decoded matches Ok(found)
            && found is None),
{
    if let Ok(Some(DecodedSummary::Legacy(turn))) = decoded {
        assert(turn@.session_id == turn.session_id@ && turn@.turn_id == turn.turn_id@);
        assert(turn@.inference.len() == turn.inference@.len());
        if let Some(StoredTurnMetrics::V1(inner)) = attempts.envelope {
            assert(v1_turn(inner).inference.len() == inner.inference@.len());
        }
    }
}

/// A row is read in its own layout first and bare otherwise, as it was stored; a row of another kind
/// is never taken for it.
pub proof fn stored_rows_are_read(
    envelope: Option<StoredTurnMetrics>,
    bare_row: Option<InferenceRow>,
    bare_call: Option<ToolMetric>,
    row: StoreResult<InferenceRow>,
    call: StoreResult<ToolMetric>,
)
    requires
        call_ensures(decode_inference, (envelope, bare_row), row),
        call_ensures(decode_tool, (envelope, bare_call), call),
    ensures
        envelope matches Some(StoredTurnMetrics::V2Inference(held)) ==> row == Ok::<InferenceRow, StoreError>(held),
        envelope matches Some(StoredTurnMetrics::V2Tool(held)) ==> call == Ok::<ToolMetric, StoreError>(held),
        envelope is None ==> (row is Ok <==> bare_row is Some) && (call is Ok <==> bare_call is Some),
        envelope is None ==> (bare_row matches Some(held) ==> row == Ok::<InferenceRow, StoreError>(held)),
        envelope is None ==> (bare_call matches Some(held) ==> call == Ok::<ToolMetric, StoreError>(held)),
        envelope is Some && envelope->0 is V2Tool && bare_row is None ==> row is Err,
{
}

/// A dispatch names the tool on its own call and then marks the stage, in that order.
pub proof fn dispatches_name_the_tool(event: TurnEvent, tool_name: &str, patches: Vec<MetricPatch>)
    requires
        call_ensures(dispatch_patches, (event, tool_name), patches),
    ensures
        patches@.len() == 2,
        patches@[0] matches MetricPatch::Tool(tool) && tool.name@ == tool_name@ && tool.dispatched_ns is None && (
        event.request_id matches Some(id) ==> tool.request_id@ == crate::ids::request_text(id)),
        patches@[1] matches MetricPatch::Stage(marked) && marked == event,
{
}

/// A completion reports the tool, then the computer where it was sampled, then the stage; each as it
/// was given.
pub proof fn completions_report_in_order(
    tool: ToolMetric,
    computer: Option<ComputerMetric>,
    completed: TurnEvent,
    patches: Vec<MetricPatch>,
)
    requires
        call_ensures(completion_patches, (tool, computer, completed), patches),
    ensures
        patches@.len() == (if computer is Some {
            3int
        } else {
            2
        }),
        patches@[0] == MetricPatch::Tool(tool),
        computer matches Some(sample) ==> patches@[1] == MetricPatch::Computer(sample),
        patches@[patches@.len() - 1] == MetricPatch::Stage(completed),
{
}

/// The rows that a batch reads are those of the requests, and of the calls, that it speaks of.
pub proof fn batches_read_what_they_speak_of(patches: Vec<MetricPatch>, requests: TextMap<()>, calls: TextMap<()>, i: int)
    requires
        0 <= i < patches@.len(),
        call_ensures(inference_ids, (&patches,), requests),
        call_ensures(tool_ids, (&patches,), calls),
    ensures
        patches@[i] matches MetricPatch::Inference(update) ==> requests@.dom().contains(update.request_id@),
        patches@[i] matches MetricPatch::Wait { request_id, .. } ==> requests@.dom().contains(request_id@),
        patches@[i] matches MetricPatch::Tool(update) ==> calls@.dom().contains(update.request_id@),
        patches@[i] matches MetricPatch::Stage(event) ==> (event.request_id matches Some(id) ==> {
            let name = crate::ids::request_text(id);
            &&& event.stage is InferenceStarted || event.stage is InferenceFinished || event.stage is FirstToken
                ==> requests@.dom().contains(name)
            &&& event.stage is ToolDispatched || event.stage is ToolCompleted ==> calls@.dom().contains(name)
        }),
        patches@.len() == 1 && (patches@[0] is Error || patches@[0] is Computer) ==> requests@.dom()
            == Set::<Seq<char>>::empty() && calls@.dom() == Set::<Seq<char>>::empty(),
{
    let views = patch_views(patches@);
    assert(views[i] == patches@[i]@);
    if let Some(key) = touches_inference(views[i]) {
        assert(touched_inference(views).contains(key));
    }
    if let Some(key) = touches_tool(views[i]) {
        assert(touched_tools(views).contains(key));
    }
    if patches@.len() == 1 && (patches@[0] is Error || patches@[0] is Computer) {
        assert(views[0] == patches@[0]@);
        assert(touched_inference(views) =~= Set::empty());
        assert(touched_tools(views) =~= Set::empty());
    }
}

/// A write whose outcome is unknown is tried again once, and only where it counts nothing twice.
pub proof fn unknown_writes_are_retried_once(attempts: u32, waits: bool, again: bool)
    requires
        call_ensures(retry_unknown, (attempts, waits), again),
    ensures
        again ==> attempts == 0 && !waits,
        attempts == 0 && !waits ==> again,
{
}

/// A turn that was not stored opens empty, under its own ids; one that was opens as its summary, with
/// no rows to move.
pub proof fn turns_open_as_stored(stored: Option<DecodedSummary>, session: SessionId, turn: MessageId, open: OpenedTurn)
    requires
        stored matches Some(DecodedSummary::Legacy(record)) ==> totals_fit(token_totals(record@.inference)),
        call_ensures(open_turn, (stored, session, turn), open),
    ensures
        stored is None ==> open.summary.session_id@ == base32_text(session.0 as nat, 26)
            && open.summary.turn_id@ == base32_text(turn.0 as nat, 26) && open.summary.input_tokens == 0
            && open.summary.tool_count == 0 && open.summary.error is None,
        stored matches Some(DecodedSummary::V2(summary)) ==> open.summary@ == summary@,
        !(stored matches Some(DecodedSummary::Legacy(_))) ==> open.migrated_inference@.dom()
            == Set::<Seq<char>>::empty() && open.migrated_tools@.dom() == Set::<Seq<char>>::empty(),
        stored matches Some(DecodedSummary::Legacy(record)) ==> open.summary.session_id@ == record.session_id@
            && open.summary.turn_id@ == record.turn_id@,
{
    assert(open.summary@.session_id == open.summary.session_id@);
    if !(stored matches Some(DecodedSummary::Legacy(_))) {
        assert(inference_views(open.migrated_inference@).dom() =~= open.migrated_inference@.dom());
        assert(tool_views(open.migrated_tools@).dom() =~= open.migrated_tools@.dom());
    }
}

/// Without observations the summary stays as it is, and only rows that are to be moved and are not
/// stored yet are written, as they are.
pub proof fn empty_batches_change_nothing(
    open: OpenedTurn,
    stored_inference: TextMap<InferenceRow>,
    stored_tools: TextMap<ToolMetric>,
    patches: Vec<MetricPatch>,
    writes: TurnWrite,
    key: Seq<char>,
)
    requires
        open.wf(),
        stored_inference.wf(),
        stored_tools.wf(),
        patches@.len() == 0,
        has_room(open.summary@, patch_views(patches@)),
        call_ensures(record_turn_metrics, (open, &stored_inference, &stored_tools, &patches), writes),
    ensures
        writes.summary@ == open.summary@,
        writes.inference@.dom().contains(key) <==> open.migrated_inference@.dom().contains(key)
            && !stored_inference@.dom().contains(key),
        writes.inference@.dom().contains(key) ==> writes.inference@[key]@ == open.migrated_inference@[key]@,
        writes.tools@.dom().contains(key) <==> open.migrated_tools@.dom().contains(key)
            && !stored_tools@.dom().contains(key),
        writes.tools@.dom().contains(key) ==> writes.tools@[key]@ == open.migrated_tools@[key]@,
{
    let views = patch_views(patches@);
    assert(views.len() == 0);
    assert(!touched_inference(views).contains(key));
    assert(!touched_tools(views).contains(key));
    assert(writes@.inference.dom().contains(key) <==> writes.inference@.dom().contains(key));
    assert(writes@.tools.dom().contains(key) <==> writes.tools@.dom().contains(key));
    assert(open.turn().inference.dom().contains(key) <==> open.migrated_inference@.dom().contains(key));
    assert(open.turn().tools.dom().contains(key) <==> open.migrated_tools@.dom().contains(key));
    assert(inference_views(stored_inference@).dom().contains(key) <==> stored_inference@.dom().contains(key));
    assert(tool_views(stored_tools@).dom().contains(key) <==> stored_tools@.dom().contains(key));
    if writes.inference@.dom().contains(key) {
        assert(writes@.inference[key] == writes.inference@[key]@);
        assert(open.turn().inference[key] == open.migrated_inference@[key]@);
    }
    if writes.tools@.dom().contains(key) {
        assert(writes@.tools[key] == writes.tools@[key]@);
        assert(open.turn().tools[key] == open.migrated_tools@[key]@);
    }
}

/// A batch holds a wait exactly where one of its observations is one.
pub proof fn waits_are_noticed(patches: Vec<MetricPatch>, found: bool, i: int)
    requires
        0 <= i < patches@.len(),
        call_ensures(has_wait, (&patches,), found),
    ensures
        patches@[i] is Wait ==> found,
        found && patches@.len() == 1 ==> patches@[0] is Wait,
{
}

/// A whole record reads as the turn that it holds; a row of the new layout is damage there.
pub proof fn stored_records_are_read(attempts: SummaryAttempts, decoded: StoreResult<Option<TurnMetrics>>)
    requires
        call_ensures(decode_record, (attempts,), decoded),
    ensures
        attempts.envelope matches Some(StoredTurnMetrics::V1(inner)) ==> (decoded matches Ok(Some(turn))
            && turn.session_id@ == inner.session_id@ && turn.turn_id@ == inner.turn_id@),
        attempts.envelope matches Some(StoredTurnMetrics::V2Summary(_)) ==> decoded is Err,
        attempts.envelope is None && attempts.bare is None && attempts.api is None ==> (decoded matches Ok(found)
            && found is None),
{
    if let Ok(Some(turn)) = decoded {
        assert(turn@.session_id == turn.session_id@ && turn@.turn_id == turn.turn_id@);
    }
}

/// A report on a request goes on top of the row that is stored for it, or is to be moved, and that row
/// alone is written; a request without a row starts an empty one.
pub proof fn reports_go_on_top_of_the_stored_row(
    open: OpenedTurn,
    stored_inference: TextMap<InferenceRow>,
    stored_tools: TextMap<ToolMetric>,
    patches: Vec<MetricPatch>,
    update: InferenceMetric,
    writes: TurnWrite,
)
    requires
        open.wf(),
        stored_inference.wf(),
        stored_tools.wf(),
        patches@.len() == 1,
        patches@[0] == MetricPatch::Inference(update),
        has_room(open.summary@, patch_views(patches@)),
        call_ensures(record_turn_metrics, (open, &stored_inference, &stored_tools, &patches), writes),
    ensures
        ({
            let id = update.request_id@;
            let row = writes.inference@[id];
            &&& writes.inference@.dom().contains(id)
            &&& row.metric.input_tokens == update.input_tokens && row.metric.output_tokens == update.output_tokens
            &&& row.metric.cost_micros == update.cost_micros
            &&& open.migrated_inference@.dom().contains(id) ==> row.started_ns
                == open.migrated_inference@[id].started_ns && row.finished_ns
                == open.migrated_inference@[id].finished_ns && row.first_token_ns
                == open.migrated_inference@[id].first_token_ns
            &&& !open.migrated_inference@.dom().contains(id) && stored_inference@.dom().contains(id)
                ==> row.started_ns == stored_inference@[id].started_ns && row.finished_ns
                == stored_inference@[id].finished_ns && row.first_token_ns == stored_inference@[id].first_token_ns
                && row.metric.retries >= stored_inference@[id].metric.retries
            &&& !open.migrated_inference@.dom().contains(id) && !stored_inference@.dom().contains(id)
                ==> row.started_ns is None && row.metric.request_id@ == id
        }),
{
    let id = update.request_id@;
    let views = patch_views(patches@);
    assert(views.len() == 1 && views[0] == patches@[0]@);
    assert(touches_inference(views[0]) == Some(id));
    assert(touched_inference(views).contains(id));
    reveal_with_fuel(patched_all, 2);
    assert(views.drop_last() =~= Seq::empty());
    assert(views.last() == views[0]);
    assert(writes@.inference.dom().contains(id));
    assert(writes@.inference[id] == writes.inference@[id]@);
    if open.migrated_inference@.dom().contains(id) {
        assert(open.turn().inference[id] == open.migrated_inference@[id]@);
    }
    if stored_inference@.dom().contains(id) {
        assert(inference_views(stored_inference@)[id] == stored_inference@[id]@);
    }
}

} // verus!
