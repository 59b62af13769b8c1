//! Plans of sessions, replaced by a tool under the worker's lease.

use crate::error::{StoreError, StoreResult};
use crate::events::{Event, ToolCallRecord, ToolResult};
use crate::ids::RequestId;
use crate::leases::{check_worker_lease, holds};
use crate::session::{Lease, SessionRows, StoredSession};
use crate::text::same;
use crate::time::Timestamp;
use crate::timers::{one_further, worker_call_ended, worker_call_event};
use vstd::prelude::*;

verus! {

/// What a plan tool writes.
pub struct CompletedPlan {
    pub event: Event,
    pub rows: SessionRows,
    /// Whether the plan is replaced.
    pub replaced: bool,
}

/// Commits a plan tool's result under the worker's lease. `plan` is the plan as text, or why the
/// arguments could not be read; then the plan stays.
pub fn complete_plan_tool(
    rows: &SessionRows,
    expected_head: u64,
    lease: &Lease,
    request_id: RequestId,
    call: &ToolCallRecord,
    plan: Result<String, String>,
    now: Timestamp,
) -> (result: StoreResult<CompletedPlan>)
    ensures
        if call@.tool != "update_plan"@ {
            result matches Err(error) && error == StoreError::InvalidState
        } else if expected_head == u64::MAX {
            result matches Err(error) && error == StoreError::SequenceOverflow
        } else if !holds(*rows, *lease, now) {
            result matches Err(error) && error == if rows.lease == Some(*lease) && rows.session
                is None {
                StoreError::SessionMissing
            } else {
                StoreError::LeaseMismatch
            }
        } else if rows.session->0.head_seq != expected_head {
            result matches Err(error) && error == (StoreError::StaleSequence {
                expected: expected_head,
                actual: rows.session->0.head_seq,
            })
        } else {
            &&& result matches Ok(done)
            &&& done.event@ == worker_call_ended(
                (expected_head + 1) as u64,
                request_id,
                call@,
                plan,
            )
            &&& done.rows == one_further(*rows, rows.session->0)
            &&& done.replaced == (plan is Ok)
        },
{
    if !same(call.tool.as_str(), "update_plan") {
        return Err(StoreError::InvalidState);
    }
    let replaced = plan.is_ok();
    let seq: u64 = match expected_head.checked_add(1) {
        Some(seq) => seq,
        None => {
            return Err(StoreError::SequenceOverflow);
        },
    };
    let event = worker_call_event(seq, request_id, call, plan);
    let session = check_worker_lease(rows, lease, now)?;
    if session.head_seq != expected_head {
        return Err(
            StoreError::StaleSequence { expected: expected_head, actual: session.head_seq },
        );
    }
    let next = SessionRows { session: Some(StoredSession { head_seq: seq, ..session }), ..*rows };
    Ok(CompletedPlan { event, rows: next, replaced })
}

/// A plan tool's call ends behind the head with the tool's own answer: the plan under the tool's name,
/// or the words that it was refused with. The plan is replaced exactly where it was accepted. Nothing
/// but the session's head changes.
pub proof fn plan_calls_end_with_their_answer(
    rows: SessionRows,
    expected_head: u64,
    lease: Lease,
    request_id: RequestId,
    call: ToolCallRecord,
    plan: Result<String, String>,
    now: Timestamp,
    result: StoreResult<CompletedPlan>,
)
    requires
        call_ensures(complete_plan_tool, (&rows, expected_head, &lease, request_id, &call, plan, now), result),
    ensures
        result matches Ok(done) ==> {
            let before = rows.session->0;
            let after = done.rows.session->0;
            &&& call.tool@ == "update_plan"@ && rows.session is Some && done.rows.session is Some
            &&& rows.lease == Some(lease) && lease.expires_at.nanos > now.nanos && before.head_seq
                == expected_head
            &&& done.event matches Event::ToolCallCompleted { seq, request_id: request, call_id, result: kept }
                && seq == before.head_seq + 1 && seq == after.head_seq && request == request_id && call_id@
                == call.call_id@ && (match plan {
                Ok(text) => kept matches ToolResult::Completed { title, output } && title@ == call.tool@
                    && output@ == text@,
                Err(words) => kept matches ToolResult::Error { error } && error@ == words@,
            })
            &&& done.replaced <==> plan is Ok
            &&& after.session_id == before.session_id && after.agent_id == before.agent_id
            &&& after.state == before.state && after.snapshot_seq == before.snapshot_seq
            &&& done.rows.lease == rows.lease && done.rows.runnable == rows.runnable
            &&& done.rows.state_since == rows.state_since && done.rows.idle_since == rows.idle_since
            &&& done.rows.interrupt == rows.interrupt
        },
{
}

} // verus!
