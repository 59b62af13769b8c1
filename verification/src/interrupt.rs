//! Operator interruption, fenced by the session's state and the head of its log.

use crate::error::{StoreError, StoreResult};
use crate::events::{inference_request, request_from_event, Event, EventBody, EventView};
use crate::ids::RequestId;
use crate::session::{transition, transitioned, SessionRows, SessionState, StoredSession};
use crate::time::Timestamp;
use crate::turns::operator_interrupt;
use crate::waits::{wait_view, InferenceWait};
use vstd::prelude::*;

verus! {

/// Whether an interruption ended the turn or only asked for it.
#[derive(Clone, Copy, Debug, PartialEq, Eq, Structural)]
pub enum InterruptResult {
    Finished,
    Requested,
}

/// What an interruption writes.
pub struct Interrupted {
    pub result: InterruptResult,
    pub rows: SessionRows,
    /// The failure to append.
    pub event: Option<Event>,
    /// Due time to take out of the index; the wait goes with it.
    pub clear_due: Option<Timestamp>,
}

/// The failure that an interruption appends.
pub open spec fn interrupted_event(request: RequestId, seq: u64) -> EventView {
    EventView {
        seq,
        body: EventBody::InferenceFailed {
            request_id: request,
            error: "interrupted by operator"@,
            retryable: false,
            retry_at: None,
        },
    }
}

/// A session after an interruption was appended: Idle, one event further.
pub open spec fn after_interrupt(rows: SessionRows, session: StoredSession, now: Timestamp) -> SessionRows {
    transitioned(
        rows,
        StoredSession { head_seq: (session.head_seq + 1) as u64, ..session },
        SessionState::Idle,
        now,
    )
}

fn append_interrupted(rows: &SessionRows, session: StoredSession, request: RequestId, now: Timestamp) -> (result: StoreResult<(Event, SessionRows)>)
    ensures
        if session.head_seq == u64::MAX {
            result matches Err(error) && error == StoreError::SequenceOverflow
        } else {
            &&& result matches Ok((event, next))
            &&& event@ == interrupted_event(request, (session.head_seq + 1) as u64)
            &&& next == after_interrupt(*rows, session, now)
        },
{
    let head: u64 = match session.head_seq.checked_add(1) {
        Some(head) => head,
        None => {
            return Err(StoreError::SequenceOverflow);
        },
    };
    let event = Event::InferenceFailed {
        seq: head,
        request_id: request,
        error: "interrupted by operator".to_owned(),
        retryable: false,
        retry_at: None,
    };
    let moved = StoredSession { head_seq: head, ..session };
    Ok((event, transition(rows, moved, SessionState::Idle, now)))
}

/// The request of an event that may be absent.
pub open spec fn event_request(event: Option<&Event>) -> Option<RequestId> {
    match event {
        Some(event) => inference_request(event@.body),
        None => None,
    }
}

/// Asks for the current turn to end, or ends it at once while the session is parked. `failed` is
/// the event of the last failure that the wait names.
pub fn interrupt_session(
    rows: &SessionRows,
    wait: &Option<InferenceWait>,
    failed: Option<&Event>,
    now: Timestamp,
) -> (result: StoreResult<Interrupted>)
    ensures
        match rows.session {
            None => result matches Err(error) && error == StoreError::SessionMissing,
            Some(session) => match session.state {
                SessionState::Idle | SessionState::Completed => result matches Err(error) && error
                    == StoreError::NothingToInterrupt,
                SessionState::Sleeping => match wait_view(*wait) {
                    None => result matches Err(error) && error == StoreError::InvalidState,
                    Some(parked) => if parked.last_failure_seq != 0 && event_request(failed) is None {
                        result matches Err(error) && error == StoreError::Corrupt
                    } else if session.head_seq == u64::MAX {
                        result matches Err(error) && error == StoreError::SequenceOverflow
                    } else {
                        let next = (session.head_seq + 1) as u64;
                        let request = if parked.last_failure_seq == 0 {
                            RequestId { session: session.session_id, step: next }
                        } else {
                            event_request(failed)->0
                        };
                        &&& result matches Ok(done)
                        &&& done.result == InterruptResult::Finished
                        &&& done.rows == after_interrupt(*rows, session, now)
                        &&& done.event matches Some(event) && event@ == interrupted_event(
                            request,
                            next,
                        )
                        &&& done.clear_due == Some(parked.wake_at)
                    },
                },
                _ => {
                    &&& result matches Ok(done)
                    &&& done.result == InterruptResult::Requested
                    &&& done.rows == (SessionRows { interrupt: true, ..*rows })
                    &&& done.event is None
                    &&& done.clear_due is None
                },
            },
        },
{
    let session = match rows.session {
        Some(session) => session,
        None => {
            return Err(StoreError::SessionMissing);
        },
    };
    match session.state {
        SessionState::Idle => Err(StoreError::NothingToInterrupt),
        SessionState::Completed => Err(StoreError::NothingToInterrupt),
        SessionState::Sleeping => {
            let (failure_seq, wake_at) = match wait {
                Some(wait) => (wait.last_failure_seq, wait.wake_at),
                None => {
                    return Err(StoreError::InvalidState);
                },
            };
            let request = if failure_seq == 0 {
                match session.head_seq.checked_add(1) {
                    Some(step) => RequestId::for_step(session.session_id, step),
                    None => {
                        return Err(StoreError::SequenceOverflow);
                    },
                }
            } else {
                let found = match failed {
                    Some(event) => request_from_event(event),
                    None => None,
                };
                match found {
                    Some(request) => request,
                    None => {
                        return Err(StoreError::Corrupt);
                    },
                }
            };
            let (event, next) = append_interrupted(rows, session, request, now)?;
            Ok(
                Interrupted {
                    result: InterruptResult::Finished,
                    rows: next,
                    event: Some(event),
                    clear_due: Some(wake_at),
                },
            )
        },
        _ => {
            let mut next = *rows;
            next.interrupt = true;
            Ok(
                Interrupted {
                    result: InterruptResult::Requested,
                    rows: next,
                    event: None,
                    clear_due: None,
                },
            )
        },
    }
}

/// Ends the turn of a marked runnable session without handing it to a worker. `last` is the last
/// event of its log.
pub fn finish_runnable_interrupt(
    rows: &SessionRows,
    last: Option<&Event>,
    wait: &Option<InferenceWait>,
    now: Timestamp,
) -> (result: StoreResult<Option<Interrupted>>)
    ensures
        match rows.session {
            None => result matches Err(error) && error == StoreError::SessionMissing,
            Some(session) => if session.state != SessionState::Runnable || !rows.interrupt {
                result matches Ok(done) && done is None
            } else if session.head_seq == u64::MAX {
                result matches Err(error) && error == StoreError::SequenceOverflow
            } else {
                let next = (session.head_seq + 1) as u64;
                let request = if session.head_seq > 0 && event_request(last) is Some {
                    event_request(last)->0
                } else {
                    RequestId { session: session.session_id, step: next }
                };
                &&& result matches Ok(Some(done))
                &&& done.result == InterruptResult::Finished
                &&& done.rows == (SessionRows {
                    interrupt: false,
                    ..after_interrupt(*rows, session, now)
                })
                &&& done.event matches Some(event) && event@ == interrupted_event(request, next)
                &&& done.clear_due == match wait_view(*wait) {
                    Some(wait) => Some(wait.wake_at),
                    None => None,
                }
            },
        },
{
    let session = match rows.session {
        Some(session) => session,
        None => {
            return Err(StoreError::SessionMissing);
        },
    };
    if session.state != SessionState::Runnable || !rows.interrupt {
        return Ok(None);
    }
    let step: u64 = match session.head_seq.checked_add(1) {
        Some(step) => step,
        None => {
            return Err(StoreError::SequenceOverflow);
        },
    };
    let found = if session.head_seq == 0 {
        None
    } else {
        match last {
            Some(event) => request_from_event(event),
            None => None,
        }
    };
    let request = match found {
        Some(request) => request,
        None => RequestId::for_step(session.session_id, step),
    };
    let (event, appended) = append_interrupted(rows, session, request, now)?;
    let mut next = appended;
    next.interrupt = false;
    let clear_due = match wait {
        Some(wait) => Some(wait.wake_at),
        None => None,
    };
    Ok(
        Some(
            Interrupted { result: InterruptResult::Finished, rows: next, event: Some(event), clear_due },
        ),
    )
}

/// An interrupted turn can be finished: the event that an interruption appends is the one that
/// finishing a turn looks for.
pub proof fn interruptions_are_recognised(request: RequestId, seq: u64)
    ensures
        operator_interrupt(interrupted_event(request, seq).body),
{
}

/// An interruption of a sleeping session ends its wait: one failure behind the head, which cannot be
/// retried, and the session idle at it. An interruption of a working session only leaves its mark.
pub proof fn interruptions_end_waits(
    rows: SessionRows,
    wait: Option<InferenceWait>,
    failed: Option<&Event>,
    now: Timestamp,
    result: StoreResult<Interrupted>,
)
    requires
        call_ensures(interrupt_session, (&rows, &wait, failed, now), result),
    ensures
        result matches Ok(done) ==> {
            let before = rows.session->0;
            let after = done.rows.session->0;
            &&& rows.session is Some && before.state != SessionState::Idle && before.state
                != SessionState::Completed
            &&& match done.event {
                Some(event) => {
                    &&& done.result == InterruptResult::Finished && before.state == SessionState::Sleeping
                    &&& event matches Event::InferenceFailed { seq, retryable, retry_at, .. } && seq
                        == before.head_seq + 1 && seq == after.head_seq && !retryable && retry_at is None
                    &&& after.state == SessionState::Idle && after.session_id == before.session_id
                    &&& after.agent_id == before.agent_id && after.snapshot_seq == before.snapshot_seq
                    &&& done.rows.idle_since == Some(now) && wait is Some && done.clear_due == Some(
                        wait->0.wake_at,
                    )
                    &&& done.rows.interrupt == rows.interrupt
                },
                None => {
                    &&& done.result == InterruptResult::Requested && before.state != SessionState::Sleeping
                    &&& done.rows.interrupt && done.rows.session == rows.session && done.clear_due is None
                    &&& done.rows.lease == rows.lease && done.rows.runnable == rows.runnable
                    &&& done.rows.state_since == rows.state_since && done.rows.idle_since == rows.idle_since
                },
            }
        },
        rows.session matches Some(session) ==> (session.state == SessionState::Idle || session.state
            == SessionState::Completed ==> (result matches Err(error) && error
            == StoreError::NothingToInterrupt)),
{
}

/// The failure belongs to the request whose failure the session waits on, or to the next step where
/// the wait began without one.
pub proof fn interruptions_name_the_failed_request(
    rows: SessionRows,
    wait: Option<InferenceWait>,
    failed: Option<&Event>,
    now: Timestamp,
    result: StoreResult<Interrupted>,
)
    requires
        call_ensures(interrupt_session, (&rows, &wait, failed, now), result),
    ensures
        result matches Ok(done) ==> (done.event matches Some(Event::InferenceFailed { request_id, .. })
            ==> if wait->0.last_failure_seq == 0 {
            request_id.session == rows.session->0.session_id && request_id.step == rows.session->0.head_seq + 1
        } else {
            failed matches Some(event) && match *event {
                Event::InferenceRequested { request_id: asked, .. } => request_id == asked,
                Event::InferenceFailed { request_id: asked, .. } => request_id == asked,
                Event::InferenceCompleted { request_id: asked, .. } => request_id == asked,
                _ => false,
            }
        }),
{
}

/// A queued session with a request to interrupt it goes idle with one failure behind its head, and
/// the request is used up; any other session is left alone.
pub proof fn requested_interruptions_finish(
    rows: SessionRows,
    last: Option<&Event>,
    wait: Option<InferenceWait>,
    now: Timestamp,
    result: StoreResult<Option<Interrupted>>,
)
    requires
        call_ensures(finish_runnable_interrupt, (&rows, last, &wait, now), result),
    ensures
        rows.session matches Some(session) ==> (!rows.interrupt || session.state != SessionState::Runnable
            ==> (result matches Ok(done) && done is None)),
        result matches Ok(Some(done)) ==> {
            let before = rows.session->0;
            let after = done.rows.session->0;
            &&& rows.interrupt && rows.session is Some && before.state == SessionState::Runnable
            &&& done.result == InterruptResult::Finished && !done.rows.interrupt
            &&& done.event matches Some(Event::InferenceFailed { seq, retryable, retry_at, request_id, .. })
                && seq == before.head_seq + 1 && seq == after.head_seq && !retryable && retry_at is None && (
            before.head_seq == 0 ==> request_id.session == before.session_id && request_id.step == seq)
            &&& after.state == SessionState::Idle && after.session_id == before.session_id
            &&& after.agent_id == before.agent_id && after.snapshot_seq == before.snapshot_seq
            &&& done.rows.idle_since == Some(now) && done.rows.runnable is None
            &&& done.clear_due is Some <==> wait is Some
            &&& wait matches Some(parked) ==> done.clear_due == Some(parked.wake_at)
        },
{
}

} // verus!
