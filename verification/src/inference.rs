//! Inference requests: claims by gateways, fenced completion, and the hand-over from workers.

use crate::error::{StoreError, StoreResult};
use crate::events::{
    event_views_are_whole, resequenced, same_entry, Event, EventBody, EventView, Message,
    MessageRole, MessageView, Part,
};
use crate::ids::{request_text, LeaseOwnerId, RequestId, SessionId};
use crate::leases::{check_worker_lease, holds};
use crate::session::{transition, transitioned, Lease, SessionRows, SessionState, StoredSession};
use crate::text::join2;
use crate::time::Timestamp;
use crate::waits::later_of;
use vstd::prelude::*;

verus! {

/// A gateway's claim on a request. A fresh owner for each delivery fences duplicates.
#[derive(Clone, Copy, Debug, PartialEq, Eq, Structural)]
pub struct InferenceClaim {
    pub session_id: SessionId,
    pub request_id: RequestId,
    pub owner: LeaseOwnerId,
    pub expires_at: Timestamp,
}

/// How far a request got.
#[derive(Clone, Copy, Debug, PartialEq, Eq, Structural)]
pub enum IdempotencyState {
    Requested,
    Completed,
}

/// A request that was handed out.
#[derive(Clone, Copy, Debug, PartialEq, Eq, Structural)]
pub struct InflightRecord {
    pub session_id: SessionId,
    pub seq: u64,
}

/// The rows that claims and completions of one request read.
#[derive(Clone, Copy, Debug, PartialEq, Eq, Structural)]
pub struct RequestRows {
    pub idempotency: Option<IdempotencyState>,
    pub claim: Option<InferenceClaim>,
    pub inflight: Option<InflightRecord>,
    /// Whether the gateway's payload of the request is stored.
    pub payload: bool,
}

/// Whether another owner's claim is still live.
pub open spec fn held_by_other(rows: RequestRows, claim: InferenceClaim, now: Timestamp) -> bool {
    rows.claim matches Some(current) && current.expires_at.nanos > now.nanos && current.owner
        != claim.owner
}

/// Claims a request, or renews the same owner's claim, and records it as started. The answer is
/// false for a completed request and while another owner's claim lives; then nothing changes.
pub fn start_inference(
    rows: &RequestRows,
    session: Option<StoredSession>,
    claim: &InferenceClaim,
    now: Timestamp,
) -> (result: StoreResult<(bool, RequestRows)>)
    ensures
        if claim.expires_at.nanos <= now.nanos {
            result == Err::<(bool, RequestRows), _>(StoreError::LeaseMismatch)
        } else {
            match session {
                None => result == Err::<(bool, RequestRows), _>(StoreError::SessionMissing),
                Some(session) => if rows.idempotency == Some(IdempotencyState::Completed)
                    || held_by_other(*rows, *claim, now) {
                    result == Ok::<_, StoreError>((false, *rows))
                } else if session.state == SessionState::WaitingInference && (rows.inflight matches Some(
                    inflight,
                ) && inflight.session_id == claim.session_id) {
                    result == Ok::<_, StoreError>(
                        (
                            true,
                            RequestRows {
                                idempotency: Some(IdempotencyState::Requested),
                                claim: Some(*claim),
                                ..*rows
                            },
                        ),
                    )
                } else {
                    result == Err::<(bool, RequestRows), _>(StoreError::InvalidState)
                },
            }
        },
{
    if claim.expires_at.nanos <= now.nanos {
        return Err(StoreError::LeaseMismatch);
    }
    let session = match session {
        Some(session) => session,
        None => {
            return Err(StoreError::SessionMissing);
        },
    };
    if let Some(state) = rows.idempotency {
        if state == IdempotencyState::Completed {
            return Ok((false, *rows));
        }
    }
    if let Some(current) = rows.claim {
        if current.expires_at.nanos > now.nanos && current.owner != claim.owner {
            return Ok((false, *rows));
        }
    }
    if session.state != SessionState::WaitingInference {
        return Err(StoreError::InvalidState);
    }
    match rows.inflight {
        Some(inflight) => {
            if inflight.session_id != claim.session_id {
                return Err(StoreError::InvalidState);
            }
        },
        None => {
            return Err(StoreError::InvalidState);
        },
    }
    Ok(
        (
            true,
            RequestRows {
                idempotency: Some(IdempotencyState::Requested),
                claim: Some(*claim),
                ..*rows
            },
        ),
    )
}

/// Gives up this delivery's claim after a provider error. Another owner's claim stays.
pub fn release_inference(current: Option<InferenceClaim>, claim: &InferenceClaim) -> (left: Option<InferenceClaim>)
    ensures
        left == match current {
            Some(old) => if old.owner == claim.owner {
                None
            } else {
                Some(old)
            },
            None => None,
        },
{
    match current {
        Some(old) => if old.owner == claim.owner {
            None
        } else {
            Some(old)
        },
        None => None,
    }
}

/// The request that a terminal inference event ends.
pub open spec fn ended_request(body: EventBody) -> Option<RequestId> {
    match body {
        EventBody::InferenceCompleted { request_id, .. } => Some(request_id),
        EventBody::InferenceFailed { request_id, .. } => Some(request_id),
        _ => None,
    }
}

/// The terminal event of a request, placed after the expected head.
pub fn completion_event(request: RequestId, expected_head: u64, event: Event) -> (result: StoreResult<Event>)
    ensures
        if expected_head == u64::MAX {
            result matches Err(error) && error == StoreError::SequenceOverflow
        } else if ended_request(event@.body) != Some(request) {
            result matches Err(error) && error == StoreError::InvalidState
        } else {
            result matches Ok(placed) && placed@ == resequenced(
                event@,
                (expected_head + 1) as u64,
            )
        },
{
    let head: u64 = match expected_head.checked_add(1) {
        Some(head) => head,
        None => {
            return Err(StoreError::SequenceOverflow);
        },
    };
    let ended = match &event {
        Event::InferenceCompleted { request_id, .. } => Some(*request_id),
        Event::InferenceFailed { request_id, .. } => Some(*request_id),
        _ => None,
    };
    match ended {
        Some(id) => {
            if id == request {
                Ok(event.at(head))
            } else {
                Err(StoreError::InvalidState)
            }
        },
        None => Err(StoreError::InvalidState),
    }
}

/// Whether a message asks for tools.
pub open spec fn calls_tools(message: MessageView) -> bool {
    exists|i: int| 0 <= i < message.parts.len() && (#[trigger] message.parts[i]) is ToolCall
}

/// Whether an event ends the turn: an assistant message that asks for no tool.
pub open spec fn ends_turn(body: EventBody) -> bool {
    body matches EventBody::InferenceCompleted { message, .. } && message.role
        == MessageRole::Assistant && !calls_tools(message)
}

fn has_tool_call(message: &Message) -> (found: bool)
    ensures
        found == calls_tools(message@),
{
    let ghost views = message@.parts;
    let mut i: usize = 0;
    while i < message.parts.len()
        invariant
            i <= message.parts.len(),
            views == message@.parts,
            forall|j: int| 0 <= j < i ==> !((#[trigger] views[j]) is ToolCall),
        decreases message.parts.len() - i,
    {
        assert(views[i as int] == message.parts@[i as int]@);
        if let Part::ToolCall { .. } = &message.parts[i] {
            assert(views[i as int] is ToolCall);
            return true;
        }
        i += 1;
    }
    false
}

/// Whether a completion may commit its snapshot and idle state with it: the event ends the turn,
/// the snapshot covers the event and the state change after it, and the request was the last
/// entry of the log.
pub open spec fn may_idle(claim: InferenceClaim, expected_head: u64, body: EventBody, snapshot_seq: u64) -> bool {
    &&& ends_turn(body)
    &&& expected_head + 2 == snapshot_seq
    &&& claim.request_id == (RequestId { session: claim.session_id, step: expected_head })
}

/// Checks a completion that also ends the turn.
pub fn check_idle_completion(claim: &InferenceClaim, expected_head: u64, event: &Event, snapshot_seq: u64) -> (result: StoreResult<()>)
    ensures
        match result {
            Ok(_) => may_idle(*claim, expected_head, event@.body, snapshot_seq),
            Err(error) => !may_idle(*claim, expected_head, event@.body, snapshot_seq) && error
                == StoreError::InvalidState,
        },
{
    let ends = match event {
        Event::InferenceCompleted { message, .. } => message.role == MessageRole::Assistant
            && !has_tool_call(message),
        _ => false,
    };
    if !ends || expected_head.checked_add(2) != Some(snapshot_seq) {
        return Err(StoreError::InvalidState);
    }
    if RequestId::for_step(claim.session_id, expected_head) != claim.request_id {
        return Err(StoreError::InvalidState);
    }
    Ok(())
}

/// What a committed completion writes.
#[derive(Clone, Debug, PartialEq, Eq)]
pub struct CommittedInference {
    pub rows: SessionRows,
    pub request: RequestRows,
    /// The terminal event, at the new head.
    pub event: Event,
    /// The state change behind it, when the turn ends with it; the snapshot is written then.
    pub idle_event: Option<Event>,
    /// The stored result.
    pub result: Vec<u8>,
    /// Where the completed request finds its result.
    pub result_ref: String,
}

/// Where a completed request finds its result.
pub open spec fn result_reference(request: RequestId) -> Seq<char> {
    "inference_result/"@ + request_text(request)
}

/// Whether a claim is the live claim of its request.
pub open spec fn claim_holds(rows: RequestRows, claim: InferenceClaim, now: Timestamp) -> bool {
    rows.claim matches Some(current) && current.owner == claim.owner && current.session_id
        == claim.session_id && current.expires_at.nanos > now.nanos
}

/// The moment that fences a completion. One that ends the turn is held against the clock too.
pub open spec fn commit_time(snapshot: Option<u64>, now: Timestamp, clock: Timestamp) -> Timestamp {
    match snapshot {
        Some(_) => later_of(now, clock),
        None => now,
    }
}

/// What a completion leaves of the session: Idle at the snapshot when the turn ends without an
/// interruption, otherwise Runnable at the new head.
pub open spec fn committed(
    rows: SessionRows,
    session: StoredSession,
    head: u64,
    snapshot: Option<u64>,
    at: Timestamp,
) -> SessionRows {
    match snapshot {
        Some(seq) => if rows.interrupt {
            transitioned(
                rows,
                StoredSession { head_seq: head, ..session },
                SessionState::Runnable,
                at,
            )
        } else {
            transitioned(
                rows,
                StoredSession { head_seq: seq, snapshot_seq: Some(seq), ..session },
                SessionState::Idle,
                at,
            )
        },
        None => transitioned(
            rows,
            StoredSession { head_seq: head, ..session },
            SessionState::Runnable,
            at,
        ),
    }
}

/// The request rows of a completed request.
pub open spec fn settled() -> RequestRows {
    RequestRows {
        idempotency: Some(IdempotencyState::Completed),
        claim: None,
        inflight: None,
        payload: false,
    }
}

/// Whether a completion writes what is owed: the result and the event at the new head; the
/// session, Idle behind its state change when the turn ends and nobody interrupted it, else
/// Runnable; and the request completed, with its inflight record, its payload and its claim gone.
pub open spec fn commits(
    done: CommittedInference,
    rows: SessionRows,
    claim: InferenceClaim,
    head: u64,
    event: EventView,
    response: Seq<u8>,
    snapshot: Option<u64>,
    at: Timestamp,
) -> bool {
    &&& done.rows == committed(rows, rows.session->0, head, snapshot, at)
    &&& done.request == settled()
    &&& done.event@ == resequenced(event, head)
    &&& match done.idle_event {
        Some(idle) => snapshot is Some && !rows.interrupt && idle@ == (EventView {
            seq: snapshot->0,
            body: EventBody::StateChanged {
                from: SessionState::WaitingInference,
                to: SessionState::Idle,
            },
        }),
        None => snapshot is None || rows.interrupt,
    }
    &&& done.result@ == response
    &&& done.result_ref@ == result_reference(claim.request_id)
}

/// What a completion under a claim is answered: an error, nothing for a request that was completed
/// before, or what it writes.
pub open spec fn commit_answers(
    result: StoreResult<Option<CommittedInference>>,
    rows: SessionRows,
    request: RequestRows,
    claim: InferenceClaim,
    expected_head: u64,
    event: EventView,
    response: Seq<u8>,
    snapshot: Option<u64>,
    at: Timestamp,
) -> bool {
    if expected_head == u64::MAX {
        result matches Err(error) && error == StoreError::SequenceOverflow
    } else {
        match rows.session {
            None => result matches Err(error) && error == StoreError::SessionMissing,
            Some(session) => if request.idempotency == Some(IdempotencyState::Completed) {
                result matches Ok(done) && done is None
            } else if !claim_holds(request, claim, at) {
                result matches Err(error) && error == StoreError::LeaseMismatch
            } else if session.head_seq != expected_head {
                result matches Err(error) && error == (StoreError::StaleSequence {
                    expected: expected_head,
                    actual: session.head_seq,
                })
            } else if session.state != SessionState::WaitingInference {
                result matches Err(error) && error == StoreError::InvalidState
            } else {
                result matches Ok(Some(done)) && commits(
                    done,
                    rows,
                    claim,
                    (expected_head + 1) as u64,
                    event,
                    response,
                    snapshot,
                    at,
                )
            },
        }
    }
}

/// Commits the terminal event of a request under its live claim. None means that the request was
/// completed before; then nothing changes, so a duplicate never fans out.
pub fn commit_inference(
    rows: &SessionRows,
    request: &RequestRows,
    claim: &InferenceClaim,
    expected_head: u64,
    event: Event,
    response: Vec<u8>,
    snapshot: Option<u64>,
    now: Timestamp,
    clock: Timestamp,
) -> (result: StoreResult<Option<CommittedInference>>)
    ensures
        commit_answers(
            result,
            *rows,
            *request,
            *claim,
            expected_head,
            event@,
            response@,
            snapshot,
            commit_time(snapshot, now, clock),
        ),
{
    let head: u64 = match expected_head.checked_add(1) {
        Some(head) => head,
        None => {
            return Err(StoreError::SequenceOverflow);
        },
    };
    let at = match snapshot {
        Some(_) => now.max(clock),
        None => now,
    };
    let session = match rows.session {
        Some(session) => session,
        None => {
            return Err(StoreError::SessionMissing);
        },
    };
    if let Some(state) = request.idempotency {
        if state == IdempotencyState::Completed {
            return Ok(None);
        }
    }
    let current = match request.claim {
        Some(current) => current,
        None => {
            return Err(StoreError::LeaseMismatch);
        },
    };
    if current.owner != claim.owner || current.session_id != claim.session_id
        || current.expires_at.nanos <= at.nanos {
        return Err(StoreError::LeaseMismatch);
    }
    if session.head_seq != expected_head {
        return Err(
            StoreError::StaleSequence { expected: expected_head, actual: session.head_seq },
        );
    }
    if session.state != SessionState::WaitingInference {
        return Err(StoreError::InvalidState);
    }
    let idle_seq = if rows.interrupt {
        None
    } else {
        snapshot
    };
    let (moved, state, idle_event) = match idle_seq {
        Some(seq) => (
            StoredSession { head_seq: seq, snapshot_seq: Some(seq), ..session },
            SessionState::Idle,
            Some(
                Event::StateChanged {
                    seq,
                    from: SessionState::WaitingInference,
                    to: SessionState::Idle,
                },
            ),
        ),
        None => (StoredSession { head_seq: head, ..session }, SessionState::Runnable, None),
    };
    let next = transition(rows, moved, state, at);
    let request = RequestRows {
        idempotency: Some(IdempotencyState::Completed),
        claim: None,
        inflight: None,
        payload: false,
    };
    let result_ref = join2("inference_result/", claim.request_id.name().as_str());
    Ok(
        Some(
            CommittedInference {
                rows: next,
                request,
                event: event.at(head),
                idle_event,
                result: response,
                result_ref,
            },
        ),
    )
}

/// Completes a request: its terminal event must name the request of the claim, and a snapshot, where
/// one is given, must belong to an event that ends the turn.
pub fn complete_inference(
    rows: &SessionRows,
    request: &RequestRows,
    claim: &InferenceClaim,
    expected_head: u64,
    event: Event,
    response: Vec<u8>,
    snapshot: Option<u64>,
    now: Timestamp,
    clock: Timestamp,
) -> (result: StoreResult<Option<CommittedInference>>)
    ensures
        if snapshot is Some && !may_idle(*claim, expected_head, event@.body, snapshot->0) {
            result matches Err(error) && error == StoreError::InvalidState
        } else if expected_head == u64::MAX {
            result matches Err(error) && error == StoreError::SequenceOverflow
        } else if ended_request(event@.body) != Some(claim.request_id) {
            result matches Err(error) && error == StoreError::InvalidState
        } else {
            commit_answers(
                result,
                *rows,
                *request,
                *claim,
                expected_head,
                event@,
                response@,
                snapshot,
                commit_time(snapshot, now, clock),
            )
        },
{
    if let Some(seq) = snapshot {
        check_idle_completion(claim, expected_head, &event, seq)?;
    }
    let placed = completion_event(claim.request_id, expected_head, event)?;
    commit_inference(rows, request, claim, expected_head, placed, response, snapshot, now, clock)
}

/// Tells whether a completion is billed: it is what committed, and the request succeeded. A
/// duplicate commits nothing, so it is never billed.
pub fn bills(done: &Option<CommittedInference>, event: &Event) -> (bill: bool)
    ensures
        bill == (done is Some && event@.body is InferenceCompleted),
{
    match (done, event) {
        (Some(_), Event::InferenceCompleted { .. }) => true,
        _ => false,
    }
}

/// A committed completion leaves the session's head at the last event it wrote: the terminal event
/// follows the old head directly, and the state change, where there is one, follows the terminal
/// event. Nothing that is written later can take the number of an event of the completion.
pub proof fn completions_end_at_the_head(
    rows: SessionRows,
    request: RequestRows,
    claim: InferenceClaim,
    expected_head: u64,
    event: Event,
    response: Vec<u8>,
    snapshot: Option<u64>,
    now: Timestamp,
    clock: Timestamp,
    result: StoreResult<Option<CommittedInference>>,
)
    requires
        call_ensures(
            complete_inference,
            (&rows, &request, &claim, expected_head, event, response, snapshot, now, clock),
            result,
        ),
    ensures
        result matches Ok(Some(done)) ==> ({
            let before = rows.session->0;
            let after = done.rows.session->0;
            &&& rows.session is Some && done.rows.session is Some
            &&& done.event@.seq == before.head_seq + 1
            &&& match done.idle_event {
                Some(idle) => idle@.seq == done.event@.seq + 1 && after.head_seq == idle@.seq
                    && after.snapshot_seq == Some(after.head_seq),
                None => after.head_seq == done.event@.seq && after.snapshot_seq
                    == before.snapshot_seq,
            }
        }),
{
}

/// A request completes once: on the rows that a completion leaves, every further start and every
/// further completion is turned away without a change.
pub proof fn requests_complete_once(claim: InferenceClaim, now: Timestamp)
    ensures
        settled().idempotency == Some(IdempotencyState::Completed),
        settled().inflight is None && !settled().payload,
        !claim_holds(settled(), claim, now),
        !held_by_other(settled(), claim, now),
{
}

/// Two owners never hold a request together: while one claim lives, nobody else's holds.
pub proof fn claims_exclude_each_other(rows: RequestRows, mine: InferenceClaim, other: InferenceClaim, now: Timestamp)
    requires
        mine.owner != other.owner,
        claim_holds(rows, mine, now),
    ensures
        !claim_holds(rows, other, now),
        held_by_other(rows, other, now),
{
}

/// The request whose input a worker may save: the step after the expected head, under the
/// worker's live lease.
pub fn put_inference_input(rows: &SessionRows, session_id: SessionId, expected_head: u64, lease: &Lease, now: Timestamp) -> (result: StoreResult<RequestId>)
    ensures
        if expected_head == u64::MAX {
            result == Err::<RequestId, _>(StoreError::SequenceOverflow)
        } else if !holds(*rows, *lease, now) {
            result == Err::<RequestId, _>(
                if rows.lease == Some(*lease) && rows.session is None {
                    StoreError::SessionMissing
                } else {
                    StoreError::LeaseMismatch
                },
            )
        } else if rows.session->0.head_seq != expected_head {
            result == Err::<RequestId, _>(
                StoreError::StaleSequence {
                    expected: expected_head,
                    actual: rows.session->0.head_seq,
                },
            )
        } else {
            result == Ok::<_, StoreError>(
                RequestId { session: session_id, step: (expected_head + 1) as u64 },
            )
        },
{
    let step: u64 = match expected_head.checked_add(1) {
        Some(step) => step,
        None => {
            return Err(StoreError::SequenceOverflow);
        },
    };
    let session = check_worker_lease(rows, lease, now)?;
    if session.head_seq != expected_head {
        return Err(
            StoreError::StaleSequence { expected: expected_head, actual: session.head_seq },
        );
    }
    Ok(RequestId::for_step(session_id, step))
}

/// A scanned inflight record, provided it lies under the key of its own request.
pub fn scanned_inflight(key: RequestId, record: InflightRecord) -> (result: StoreResult<InflightRecord>)
    ensures
        result == if key == (RequestId { session: record.session_id, step: record.seq }) {
            Ok::<_, StoreError>(record)
        } else {
            Err(StoreError::Corrupt)
        },
{
    if key == RequestId::for_step(record.session_id, record.seq) {
        Ok(record)
    } else {
        Err(StoreError::Corrupt)
    }
}

/// Checks that a worker may record submission progress: the record names the request and the
/// worker still holds the session.
pub fn put_inflight_leased(rows: &SessionRows, id: RequestId, record: &InflightRecord, lease: &Lease, now: Timestamp) -> (result: StoreResult<()>)
    ensures
        if id != (RequestId { session: record.session_id, step: record.seq }) {
            result == Err::<(), _>(StoreError::InvalidState)
        } else if holds(*rows, *lease, now) {
            result == Ok::<(), StoreError>(())
        } else {
            result == Err::<(), _>(
                if rows.lease == Some(*lease) && rows.session is None {
                    StoreError::SessionMissing
                } else {
                    StoreError::LeaseMismatch
                },
            )
        },
{
    if RequestId::for_step(record.session_id, record.seq) != id {
        return Err(StoreError::InvalidState);
    }
    let _ = check_worker_lease(rows, lease, now)?;
    Ok(())
}

/// A committed completion keeps the event and the response that were given, and belongs to the
/// session that asked: Idle with its state change where the turn ends and nobody interrupted it,
/// else Runnable, and queued, with no second event.
pub proof fn completions_write_what_was_given(
    rows: SessionRows,
    request: RequestRows,
    claim: InferenceClaim,
    expected_head: u64,
    event: Event,
    response: Vec<u8>,
    snapshot: Option<u64>,
    now: Timestamp,
    clock: Timestamp,
    result: StoreResult<Option<CommittedInference>>,
)
    requires
        call_ensures(
            commit_inference,
            (&rows, &request, &claim, expected_head, event, response, snapshot, now, clock),
            result,
        ),
    ensures
        result matches Ok(Some(done)) ==> ({
            let before = rows.session->0;
            let after = done.rows.session->0;
            &&& rows.session is Some && before.state == SessionState::WaitingInference
            &&& done.rows.session is Some && before.head_seq == expected_head
            &&& same_entry(done.event, event)
            &&& done.event@.seq == before.head_seq + 1
            &&& done.result@ == response@
            &&& done.result_ref@ == "inference_result/"@ + request_text(claim.request_id)
            &&& after.session_id == before.session_id && after.agent_id == before.agent_id
            &&& match done.idle_event {
                Some(idle) => {
                    &&& idle matches Event::StateChanged { seq, from, to } && seq == after.head_seq && from
                        == before.state && to == after.state
                    &&& after.state == SessionState::Idle && done.rows.runnable == rows.runnable
                    &&& snapshot == after.snapshot_seq && after.snapshot_seq == Some(after.head_seq)
                    &&& !rows.interrupt && done.rows.idle_since == done.rows.state_since
                },
                None => {
                    &&& after.state == SessionState::Runnable && done.rows.runnable is Some
                    &&& after.head_seq == done.event@.seq && after.snapshot_seq == before.snapshot_seq
                    &&& rows.interrupt || snapshot is None
                },
            }
            &&& done.rows.interrupt == rows.interrupt
            &&& done.rows.lease == rows.lease
            &&& done.request.claim is None && done.request.inflight is None && !done.request.payload
            &&& done.request.idempotency == Some(IdempotencyState::Completed)
        }),
        result is Ok && result->Ok_0 is None ==> request.idempotency == Some(IdempotencyState::Completed),
{
    if let Ok(Some(done)) = result {
        event_views_are_whole(done.event, event);
    }
}

/// A completion is committed under the live claim of its request alone, and then only where the log
/// ends where the claim's owner saw it end.
pub proof fn completions_need_the_claim(
    rows: SessionRows,
    request: RequestRows,
    claim: InferenceClaim,
    expected_head: u64,
    event: Event,
    response: Vec<u8>,
    snapshot: Option<u64>,
    now: Timestamp,
    clock: Timestamp,
    result: StoreResult<Option<CommittedInference>>,
)
    requires
        call_ensures(
            complete_inference,
            (&rows, &request, &claim, expected_head, event, response, snapshot, now, clock),
            result,
        ),
    ensures
        result matches Ok(Some(_)) ==> {
            &&& request.claim matches Some(held) && held.owner == claim.owner && held.session_id
                == claim.session_id && held.expires_at.nanos > now.nanos
            &&& rows.session matches Some(session) && session.head_seq == expected_head && session.state
                == SessionState::WaitingInference
            &&& request.idempotency != Some(IdempotencyState::Completed)
            &&& match event {
                Event::InferenceCompleted { request_id, .. } => request_id == claim.request_id,
                Event::InferenceFailed { request_id, .. } => request_id == claim.request_id && snapshot is None,
                _ => false,
            }
            &&& snapshot matches Some(seq) ==> seq == expected_head + 2
            &&& snapshot is Some ==> request.claim->0.expires_at.nanos > clock.nanos
        },
        request.idempotency == Some(IdempotencyState::Completed) && result is Ok ==> result->Ok_0 is None,
{
}

/// The terminal event of a request is placed behind the head and otherwise kept as it is.
pub proof fn terminal_events_follow_the_head(request: RequestId, expected_head: u64, event: Event, result: StoreResult<Event>)
    requires
        call_ensures(completion_event, (request, expected_head, event), result),
    ensures
        result matches Ok(placed) ==> placed@.seq == expected_head + 1 && same_entry(placed, event),
        result is Ok ==> (match event {
            Event::InferenceCompleted { request_id, .. } => request_id == request,
            Event::InferenceFailed { request_id, .. } => request_id == request,
            _ => false,
        }),
{
    if let Ok(placed) = result {
        event_views_are_whole(placed, event);
    }
}

/// A start is granted to the claim that asks, never beside another owner's live claim nor for a
/// completed request; a start that is not granted changes nothing.
pub proof fn starts_take_the_claim(
    rows: RequestRows,
    session: Option<StoredSession>,
    claim: InferenceClaim,
    now: Timestamp,
    result: StoreResult<(bool, RequestRows)>,
)
    requires
        call_ensures(start_inference, (&rows, session, &claim, now), result),
    ensures
        result matches Ok((granted, next)) ==> {
            &&& !granted ==> next == rows
            &&& granted ==> {
                &&& next.claim == Some(claim) && next.inflight == rows.inflight && next.payload == rows.payload
                &&& next.idempotency == Some(IdempotencyState::Requested)
                &&& rows.idempotency != Some(IdempotencyState::Completed)
                &&& claim.expires_at.nanos > now.nanos
                &&& session matches Some(header) && header.state == SessionState::WaitingInference
                &&& rows.claim matches Some(held) ==> held.owner == claim.owner || held.expires_at.nanos
                    <= now.nanos
                &&& rows.inflight matches Some(inflight) && inflight.session_id == claim.session_id
            }
        },
        result is Err ==> !(rows.idempotency == Some(IdempotencyState::Completed)
            && claim.expires_at.nanos > now.nanos && session is Some),
{
}

/// A release takes away no claim but the owner's own, and never gives one.
pub proof fn releases_spare_other_owners(current: Option<InferenceClaim>, claim: InferenceClaim, left: Option<InferenceClaim>)
    requires
        call_ensures(release_inference, (current, &claim), left),
    ensures
        left is None || left == current,
        left matches Some(kept) ==> kept.owner != claim.owner,
        current matches Some(held) ==> (held.owner != claim.owner ==> left == current),
{
}

/// A completion is billed only where it committed and succeeded.
pub proof fn only_committed_successes_are_billed(done: Option<CommittedInference>, event: Event, bill: bool)
    requires
        call_ensures(bills, (&done, &event), bill),
    ensures
        done is None ==> !bill,
        event is InferenceFailed ==> !bill,
        done is Some && event is InferenceCompleted ==> bill,
{
}

/// A worker saves input for the very next step of its session, while it holds the lease.
pub proof fn inputs_are_for_the_next_step(
    rows: SessionRows,
    session_id: SessionId,
    expected_head: u64,
    lease: Lease,
    now: Timestamp,
    result: StoreResult<RequestId>,
)
    requires
        call_ensures(put_inference_input, (&rows, session_id, expected_head, &lease, now), result),
    ensures
        result matches Ok(id) ==> {
            &&& id.session == session_id && id.step == expected_head + 1
            &&& rows.lease == Some(lease) && lease.expires_at.nanos > now.nanos
            &&& rows.session matches Some(session) && session.head_seq == expected_head
        },
{
}

/// A scanned record belongs to the key that it was found under.
pub proof fn scanned_records_match_their_key(key: RequestId, record: InflightRecord, result: StoreResult<InflightRecord>)
    requires
        call_ensures(scanned_inflight, (key, record), result),
    ensures
        result matches Ok(found) ==> found == record && record.session_id == key.session && record.seq
            == key.step,
        result is Err <==> record.session_id != key.session || record.seq != key.step,
{
}

/// A completion ends the turn only with an assistant's message that asks for no tool, for the request
/// that was the last entry of the log, and with a snapshot right behind the state change.
pub proof fn turns_end_with_a_plain_answer(claim: InferenceClaim, expected_head: u64, event: Event, snapshot_seq: u64, result: StoreResult<()>)
    requires
        call_ensures(check_idle_completion, (&claim, expected_head, &event, snapshot_seq), result),
    ensures
        result is Ok ==> {
            &&& snapshot_seq == expected_head + 2 && claim.request_id.step == expected_head
            &&& claim.request_id.session == claim.session_id
            &&& event matches Event::InferenceCompleted { message, .. } && message.role
                == MessageRole::Assistant && forall|i: int|
                0 <= i < message.parts@.len() ==> !((#[trigger] message.parts@[i]) is ToolCall)
        },
        result matches Err(error) ==> error == StoreError::InvalidState,
{
    if result is Ok {
        if let Event::InferenceCompleted { message, .. } = event {
            assert forall|i: int| 0 <= i < message.parts@.len() implies !((
            #[trigger] message.parts@[i]) is ToolCall) by {
                assert(message@.parts[i] == message.parts@[i]@);
            }
        }
    }
}

/// Progress of a submission is recorded under the request that it names, by the worker that holds the
/// session.
pub proof fn progress_is_recorded_by_the_holder(rows: SessionRows, id: RequestId, record: InflightRecord, lease: Lease, now: Timestamp, result: StoreResult<()>)
    requires
        call_ensures(put_inflight_leased, (&rows, id, &record, &lease, now), result),
    ensures
        result is Ok <==> id.session == record.session_id && id.step == record.seq && rows.lease == Some(lease)
            && lease.expires_at.nanos > now.nanos && (rows.session matches Some(session) && session.state
            == SessionState::Leased),
{
}

/// A completion that cannot be committed is told why: the log went on, the claim is gone, or the
/// session waits for something else.
pub proof fn refused_completions_are_told_why(
    rows: SessionRows,
    request: RequestRows,
    claim: InferenceClaim,
    expected_head: u64,
    event: Event,
    response: Vec<u8>,
    snapshot: Option<u64>,
    now: Timestamp,
    clock: Timestamp,
    result: StoreResult<Option<CommittedInference>>,
)
    requires
        call_ensures(
            commit_inference,
            (&rows, &request, &claim, expected_head, event, response, snapshot, now, clock),
            result,
        ),
    ensures
        result matches Err(StoreError::StaleSequence { expected, actual }) ==> expected == expected_head && (
        rows.session matches Some(session) && actual == session.head_seq && actual != expected),
        rows.session is None && expected_head < u64::MAX ==> (result matches Err(error) && error
            == StoreError::SessionMissing),
        rows.session is Some && expected_head < u64::MAX && request.claim is None && request.idempotency
            != Some(IdempotencyState::Completed) ==> (result matches Err(error) && error
            == StoreError::LeaseMismatch),
{
}

} // verus!
