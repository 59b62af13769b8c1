//! Atomic boundaries of a worker's turn: handing a request over and finishing.

use crate::error::{StoreError, StoreResult};
use crate::events::{
    event_views, event_views_are_whole, same_entry, Event, EventBody, EventView, MessageRole,
};
use crate::ids::{MessageId, RequestId, SessionId};
use crate::inference::InflightRecord;
use crate::leases::{check_worker_lease, holds};
use crate::log::{sequence_events, sequenced};
use crate::session::{transition, transitioned, Lease, SessionRows, SessionState, StoredSession};
use crate::text::same;
use crate::time::Timestamp;
use vstd::prelude::*;

verus! {

/// Whether a worker may put an event before its request: tool results and system notices.
pub open spec fn worker_message(body: EventBody) -> bool {
    body matches EventBody::MessageAppended { message } && (message.role == MessageRole::Tool
        || message.role == MessageRole::System)
}

/// Whether a worker may put all these events before its request.
pub open spec fn all_worker_messages(events: Seq<EventView>) -> bool {
    forall|i: int| 0 <= i < events.len() ==> worker_message((#[trigger] events[i]).body)
}

fn are_worker_messages(events: &Vec<Event>) -> (all: bool)
    ensures
        all == all_worker_messages(event_views(events@)),
{
    let ghost views = event_views(events@);
    let mut i: usize = 0;
    while i < events.len()
        invariant
            i <= events.len(),
            views == event_views(events@),
            forall|j: int| 0 <= j < i ==> worker_message((#[trigger] views[j]).body),
        decreases events.len() - i,
    {
        assert(views[i as int] == events@[i as int]@);
        let allowed = match &events[i] {
            Event::MessageAppended { message, .. } => message.role == MessageRole::Tool
                || message.role == MessageRole::System,
            _ => false,
        };
        if !allowed {
            return false;
        }
        i += 1;
    }
    true
}

/// What a hand-over writes: the preceding events, the request event and the session.
pub struct Submitted {
    pub before: Vec<Event>,
    pub event: Event,
    pub rows: SessionRows,
    /// The turn that the request belongs to.
    pub request_turn: Option<(RequestId, MessageId)>,
}

/// The event that asks for inference at a step.
pub open spec fn request_event(session: SessionId, step: u64) -> EventView {
    EventView {
        seq: step,
        body: EventBody::InferenceRequested {
            request_id: RequestId { session, step },
            step,
        },
    }
}

/// Hands a request over: the worker's messages and the request event go to the log, the lease is
/// given up and the session waits for inference, in one step.
pub fn submit_inference_after(
    rows: &SessionRows,
    turn: Option<MessageId>,
    expected_head: u64,
    lease: &Lease,
    record: &InflightRecord,
    before: Vec<Event>,
    now: Timestamp,
) -> (result: StoreResult<Submitted>)
    ensures
        ({
            let step = expected_head + before@.len() + 1;
            if step > u64::MAX {
                result matches Err(error) && error == StoreError::SequenceOverflow
            } else if record.seq != step || !all_worker_messages(event_views(before@)) {
                result matches Err(error) && error == StoreError::InvalidState
            } else if !holds(*rows, *lease, now) {
                &&& result matches Err(error)
                &&& error == if rows.lease == Some(*lease) && rows.session is None {
                    StoreError::SessionMissing
                } else {
                    StoreError::LeaseMismatch
                }
            } else if rows.session->0.head_seq != expected_head {
                result matches Err(error) && error == (StoreError::StaleSequence {
                    expected: expected_head,
                    actual: rows.session->0.head_seq,
                })
            } else {
                let request = RequestId { session: record.session_id, step: record.seq };
                &&& result matches Ok(done)
                &&& event_views(done.before@) == sequenced(
                    event_views(before@),
                    expected_head as int,
                )
                &&& done.event@ == request_event(record.session_id, record.seq)
                &&& done.rows == transitioned(
                    *rows,
                    StoredSession { head_seq: record.seq, ..rows.session->0 },
                    SessionState::WaitingInference,
                    now,
                )
                &&& done.request_turn == match turn {
                    Some(turn) => Some((request, turn)),
                    None => None,
                }
            }
        }),
{
    let count: usize = before.len();
    let last: u64 = match expected_head.checked_add(count as u64) {
        Some(last) => last,
        None => {
            return Err(StoreError::SequenceOverflow);
        },
    };
    let step: u64 = match last.checked_add(1) {
        Some(step) => step,
        None => {
            return Err(StoreError::SequenceOverflow);
        },
    };
    if record.seq != step || !are_worker_messages(&before) {
        return Err(StoreError::InvalidState);
    }
    let session = check_worker_lease(rows, lease, now)?;
    if session.head_seq != expected_head {
        return Err(
            StoreError::StaleSequence { expected: expected_head, actual: session.head_seq },
        );
    }
    let request_id = RequestId::for_step(record.session_id, step);
    let (_, numbered) = sequence_events(expected_head, before)?;
    let moved = StoredSession { head_seq: step, ..session };
    Ok(
        Submitted {
            before: numbered,
            event: Event::InferenceRequested { seq: step, request_id, step },
            rows: transition(rows, moved, SessionState::WaitingInference, now),
            request_turn: match turn {
                Some(turn) => Some((request_id, turn)),
                None => None,
            },
        },
    )
}

/// Whether an event is the failure that an operator's interruption leaves.
pub open spec fn operator_interrupt(body: EventBody) -> bool {
    body matches EventBody::InferenceFailed { retryable, error, .. } && !retryable && error
        == "interrupted by operator"@
}

/// Whether the last event is the failure that an operator's interruption leaves.
pub fn last_event_is_operator_interrupt(event: Option<&Event>) -> (found: bool)
    ensures
        found == match event {
            Some(event) => operator_interrupt(event@.body),
            None => false,
        },
{
    match event {
        Some(Event::InferenceFailed { retryable, error, .. }) => !*retryable && same(
            error.as_str(),
            "interrupted by operator",
        ),
        _ => false,
    }
}

/// Ends a turn: the state change goes to the log, the snapshot covers it and the session is Idle.
/// A pending interruption has to be in the log first.
pub fn finish_turn(
    rows: &SessionRows,
    expected_head: u64,
    lease: &Lease,
    snapshot_seq: u64,
    last: Option<&Event>,
    now: Timestamp,
) -> (result: StoreResult<(Event, SessionRows)>)
    ensures
        if expected_head == u64::MAX {
            result matches Err(error) && error == StoreError::SequenceOverflow
        } else if snapshot_seq != expected_head + 1 {
            result matches Err(error) && error == StoreError::InvalidState
        } else if !holds(*rows, *lease, now) {
            &&& result matches Err(error)
            &&& error == if rows.lease == Some(*lease) && rows.session is None {
                StoreError::SessionMissing
            } else {
                StoreError::LeaseMismatch
            }
        } else if rows.session->0.head_seq != expected_head {
            result matches Err(error) && error == (StoreError::StaleSequence {
                expected: expected_head,
                actual: rows.session->0.head_seq,
            })
        } else if rows.interrupt && !(last matches Some(event) && operator_interrupt(event@.body)) {
            result matches Err(error) && error == StoreError::InterruptPending
        } else {
            &&& result matches Ok((event, next))
            &&& event@ == (EventView {
                seq: snapshot_seq,
                body: EventBody::StateChanged { from: SessionState::Leased, to: SessionState::Idle },
            })
            &&& next == transitioned(
                SessionRows { interrupt: false, ..*rows },
                StoredSession {
                    head_seq: snapshot_seq,
                    snapshot_seq: Some(snapshot_seq),
                    ..rows.session->0
                },
                SessionState::Idle,
                now,
            )
        },
{
    let head: u64 = match expected_head.checked_add(1) {
        Some(head) => head,
        None => {
            return Err(StoreError::SequenceOverflow);
        },
    };
    if snapshot_seq != head {
        return Err(StoreError::InvalidState);
    }
    let session = check_worker_lease(rows, lease, now)?;
    if session.head_seq != expected_head {
        return Err(
            StoreError::StaleSequence { expected: expected_head, actual: session.head_seq },
        );
    }
    if rows.interrupt && !last_event_is_operator_interrupt(last) {
        return Err(StoreError::InterruptPending);
    }
    let moved = StoredSession { head_seq: head, snapshot_seq: Some(head), ..session };
    let mut cleared = *rows;
    cleared.interrupt = false;
    let next = transition(&cleared, moved, SessionState::Idle, now);
    let event = Event::StateChanged {
        seq: head,
        from: SessionState::Leased,
        to: SessionState::Idle,
    };
    Ok((event, next))
}

/// A submission puts the worker's messages behind the head, as they were and in order, and the
/// request behind them; the request is for the very step that its event stands at, and the session
/// waits for it. The request is noted under the turn that it was made in.
pub proof fn submissions_follow_the_log(
    rows: SessionRows,
    turn: Option<MessageId>,
    expected_head: u64,
    lease: Lease,
    record: InflightRecord,
    before: Vec<Event>,
    now: Timestamp,
    result: StoreResult<Submitted>,
)
    requires
        call_ensures(submit_inference_after, (&rows, turn, expected_head, &lease, &record, before, now), result),
    ensures
        result matches Ok(done) ==> {
            let old = rows.session->0;
            let new = done.rows.session->0;
            &&& rows.session is Some && rows.lease == Some(lease) && lease.expires_at.nanos > now.nanos
            &&& old.head_seq == expected_head && done.before@.len() == before@.len()
            &&& forall|i: int|
                0 <= i < before@.len() ==> (#[trigger] done.before@[i])@.seq == old.head_seq + 1 + i && same_entry(
                    done.before@[i],
                    before@[i],
                )
            &&& done.event matches Event::InferenceRequested { seq, request_id, step } && seq == old.head_seq
                + before@.len() + 1 && step == seq && request_id.step == seq && request_id.session
                == record.session_id && seq == record.seq
            &&& new.head_seq == old.head_seq + before@.len() + 1
            &&& new.state == SessionState::WaitingInference && done.rows.lease is None
            &&& new.session_id == old.session_id && new.agent_id == old.agent_id
            &&& new.snapshot_seq == old.snapshot_seq && done.rows.state_since == Some(now)
            &&& turn is None ==> done.request_turn is None
            &&& turn matches Some(id) ==> (done.request_turn matches Some(noted) && noted.1 == id && noted.0.step
                == new.head_seq && noted.0.session == record.session_id)
        },
{
    if let Ok(done) = result {
        assert(event_views(done.before@).len() == done.before@.len());
        assert forall|i: int| 0 <= i < before@.len() implies (#[trigger] done.before@[i])@.seq
            == rows.session->0.head_seq + 1 + i && same_entry(done.before@[i], before@[i]) by {
            assert(event_views(done.before@)[i] == done.before@[i]@);
            assert(event_views(before@)[i] == before@[i]@);
            event_views_are_whole(done.before@[i], before@[i]);
        }
    }
}

/// Only messages of tools and of the system go in front of a request.
pub proof fn only_worker_messages_are_submitted(
    rows: SessionRows,
    turn: Option<MessageId>,
    expected_head: u64,
    lease: Lease,
    record: InflightRecord,
    before: Vec<Event>,
    now: Timestamp,
    result: StoreResult<Submitted>,
)
    requires
        call_ensures(submit_inference_after, (&rows, turn, expected_head, &lease, &record, before, now), result),
    ensures
        result is Ok ==> forall|i: int|
            0 <= i < before@.len() ==> ((#[trigger] before@[i]) matches Event::MessageAppended { message, .. } && (
            message.role == MessageRole::Tool || message.role == MessageRole::System)),
{
    if result is Ok {
        assert forall|i: int| 0 <= i < before@.len() implies ((#[trigger] before@[i]) matches Event::MessageAppended {
            message,
            ..
        } && (message.role == MessageRole::Tool || message.role == MessageRole::System)) by {
            assert(event_views(before@)[i] == before@[i]@);
            assert(worker_message(event_views(before@)[i].body));
        }
    }
}

/// A finished turn ends with one state change behind the head; the session is idle at it, its
/// snapshot covers it, and any request to interrupt it is used up.
pub proof fn finished_turns_end_at_the_snapshot(
    rows: SessionRows,
    expected_head: u64,
    lease: Lease,
    snapshot_seq: u64,
    last: Option<&Event>,
    now: Timestamp,
    result: StoreResult<(Event, SessionRows)>,
)
    requires
        call_ensures(finish_turn, (&rows, expected_head, &lease, snapshot_seq, last, now), result),
    ensures
        result matches Ok((event, next)) ==> {
            let before = rows.session->0;
            let after = next.session->0;
            &&& rows.session is Some && rows.lease == Some(lease) && lease.expires_at.nanos > now.nanos
            &&& before.head_seq == expected_head && before.state == SessionState::Leased
            &&& event matches Event::StateChanged { seq, from, to } && seq == before.head_seq + 1 && seq
                == after.head_seq && from == before.state && to == after.state
            &&& after.state == SessionState::Idle && after.snapshot_seq == Some(after.head_seq)
            &&& snapshot_seq == after.head_seq
            &&& after.session_id == before.session_id && after.agent_id == before.agent_id
            &&& next.lease is None && next.idle_since == Some(now) && next.state_since == Some(now)
            &&& !next.interrupt && next.runnable == rows.runnable
            &&& rows.interrupt ==> (last matches Some(Event::InferenceFailed { retryable, .. }) && !*retryable)
        },
{
}

/// An operator's interruption is a failure that is not retried; nothing else is one.
pub proof fn interruptions_are_final_failures(event: Option<&Event>, found: bool)
    requires
        call_ensures(last_event_is_operator_interrupt, (event,), found),
    ensures
        found ==> (event matches Some(Event::InferenceFailed { retryable, error, .. }) && !*retryable && error@
            == "interrupted by operator"@),
        event is None ==> !found,
{
}

/// A worker whose view of the log is old is told where it thought that the log ended and where it
/// does, when it submits and when it finishes; a request to interrupt holds a turn open.
pub proof fn stale_workers_are_told_the_head(
    rows: SessionRows,
    turn: Option<MessageId>,
    expected_head: u64,
    lease: Lease,
    record: InflightRecord,
    before: Vec<Event>,
    snapshot_seq: u64,
    last: Option<&Event>,
    now: Timestamp,
    submitted: StoreResult<Submitted>,
    finished: StoreResult<(Event, SessionRows)>,
)
    requires
        call_ensures(submit_inference_after, (&rows, turn, expected_head, &lease, &record, before, now), submitted),
        call_ensures(finish_turn, (&rows, expected_head, &lease, snapshot_seq, last, now), finished),
    ensures
        submitted matches Err(StoreError::StaleSequence { expected, actual }) ==> expected == expected_head && (
        rows.session matches Some(session) && actual == session.head_seq && actual != expected),
        finished matches Err(StoreError::StaleSequence { expected, actual }) ==> expected == expected_head && (
        rows.session matches Some(session) && actual == session.head_seq && actual != expected),
        finished matches Err(StoreError::InterruptPending) ==> rows.interrupt,
        rows.lease != Some(lease) ==> submitted is Err && finished is Err,
{
}

} // verus!
