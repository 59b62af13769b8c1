//! What holds of observations whatever order and batches they arrive in.

use crate::ids::{request_text, RequestId};
use crate::metrics::{
    anchored, derived, earliest, kept, latest, patched, patched_all, row_at, summarized, tool_at,
    updated_row, wall_clock, with_call, with_inference, with_row, with_stage, with_stage_row,
    with_tool, InferenceMetricView, InferenceRowView, PatchView, ToolMetricView, TurnStage,
    TurnSummaryView, TurnView,
};
use crate::text::clip;
use vstd::prelude::*;

verus! {

/// Observations applied in one batch leave the turn that the same observations leave when they
/// are applied batch by batch.
pub proof fn batches_equal_sequences(turn: TurnView, first: Seq<PatchView>, second: Seq<PatchView>)
    ensures
        patched_all(turn, first + second) == patched_all(patched_all(turn, first), second),
    decreases second.len(),
{
    if second.len() == 0 {
        assert(first + second =~= first);
    } else {
        assert((first + second).drop_last() =~= first + second.drop_last());
        batches_equal_sequences(turn, first, second.drop_last());
    }
}

proof fn settled_request(turn: TurnView, id: Seq<char>, row: InferenceRowView, summary: TurnSummaryView)
    ensures
        with_row(
            TurnView { summary, ..with_row(turn, id, row) },
            id,
            with_row(turn, id, row).inference[id],
        ) == (TurnView { summary, ..with_row(turn, id, row) }),
{
    let once = with_row(turn, id, row);
    let again = with_row(TurnView { summary, ..once }, id, once.inference[id]);
    assert(derived(derived(row)) == derived(row));
    assert(again.inference =~= once.inference);
}

proof fn settled_call(turn: TurnView, id: Seq<char>, row: ToolMetricView, summary: TurnSummaryView)
    ensures
        with_call(TurnView { summary, ..with_call(turn, id, row) }, id, row) == (TurnView {
            summary,
            ..with_call(turn, id, row)
        }),
{
    let once = with_call(turn, id, row);
    assert(with_call(TurnView { summary, ..once }, id, row).tools =~= once.tools);
}

proof fn settled_stage(
    turn: TurnView,
    stage: TurnStage,
    request: Option<RequestId>,
    at: i64,
    summary: TurnSummaryView,
)
    ensures
        with_stage_row(
            TurnView { summary, ..with_stage_row(turn, stage, request, at) },
            stage,
            request,
            at,
        ) == (TurnView { summary, ..with_stage_row(turn, stage, request, at) }),
{
    if let Some(request) = request {
        let id = request_text(request);
        let row = row_at(turn.inference, id);
        let tool = tool_at(turn.tools, id);
        match stage {
            TurnStage::FirstToken => {
                let new = InferenceRowView { first_token_ns: earliest(row.first_token_ns, at), ..row };
                settled_request(turn, id, new, summary);
            },
            TurnStage::InferenceStarted => {
                let new = InferenceRowView { started_ns: earliest(row.started_ns, at), ..row };
                settled_request(turn, id, new, summary);
            },
            TurnStage::InferenceFinished => {
                let new = InferenceRowView { finished_ns: latest(row.finished_ns, at), ..row };
                settled_request(turn, id, new, summary);
            },
            TurnStage::ToolDispatched => {
                let new = ToolMetricView { dispatched_ns: kept(tool.dispatched_ns, at), ..tool };
                settled_call(turn, id, new, summary);
            },
            TurnStage::ToolCompleted => {
                let new = ToolMetricView { completed_ns: latest(tool.completed_ns, at), ..tool };
                settled_call(turn, id, new, summary);
            },
            _ => {},
        }
    }
}

proof fn repeated_stage(turn: TurnView, stage: TurnStage, request: Option<RequestId>, unix_ns: i128)
    ensures
        with_stage(with_stage(turn, stage, request, unix_ns), stage, request, unix_ns)
            == with_stage(turn, stage, request, unix_ns),
{
    let at = wall_clock(unix_ns);
    let moved = with_stage_row(turn, stage, request, at);
    let once = summarized(anchored(moved.summary, stage, at));
    settled_stage(turn, stage, request, at, once);
    assert(summarized(anchored(once, stage, at)) == once);
}

proof fn repeated_update(turn: TurnView, update: InferenceMetricView)
    ensures
        with_inference(with_inference(turn, update), update) == with_inference(turn, update),
{
    let once = with_inference(turn, update);
    let twice = with_inference(once, update);
    let old_row = row_at(turn.inference, update.request_id);
    let new_row = updated_row(old_row, update);
    assert(once.inference[update.request_id] == new_row);
    assert(clip(clip(update.provider, 80), 80) == clip(update.provider, 80));
    assert(updated_row(new_row, update) == new_row);
    assert(twice.inference =~= once.inference);
    assert(twice.summary == once.summary);
}

/// An observation other than a wait can be written again without changing anything.
pub proof fn repeats_change_nothing(turn: TurnView, patch: PatchView)
    requires
        !(patch is Wait),
    ensures
        patched(patched(turn, patch), patch) == patched(turn, patch),
{
    match patch {
        PatchView::Stage { stage, request_id, unix_ns } => {
            repeated_stage(turn, stage, request_id, unix_ns);
        },
        PatchView::Inference { update } => {
            repeated_update(turn, update);
        },
        PatchView::Tool { update } => {
            let once = with_tool(turn, update);
            assert(with_tool(once, update).tools =~= once.tools);
        },
        _ => {},
    }
}

/// Detail rows stay: no observation drops the row of a request or of a tool call.
pub proof fn rows_stay(turn: TurnView, patches: Seq<PatchView>)
    ensures
        turn.inference.dom().subset_of(patched_all(turn, patches).inference.dom()),
        turn.tools.dom().subset_of(patched_all(turn, patches).tools.dom()),
    decreases patches.len(),
{
    if patches.len() > 0 {
        rows_stay(turn, patches.drop_last());
    }
}

/// A turn counts as idle once, at the first moment that says so, and keeps that moment.
pub proof fn idle_is_kept(turn: TurnView, patches: Seq<PatchView>)
    requires
        turn.summary.idle_ns is Some,
    ensures
        patched_all(turn, patches).summary.idle_ns == turn.summary.idle_ns,
    decreases patches.len(),
{
    if patches.len() > 0 {
        idle_is_kept(turn, patches.drop_last());
    }
}

} // verus!
