//! The event log of a session: appends, replayed appends and snapshots.

use crate::error::{StoreError, StoreResult};
use crate::events::{
    event_views, event_views_are_whole, message_views_are_whole, resequenced, same_entry, same_message,
    Event, EventBody, EventView, Message, MessageRole,
};
use crate::ids::{MessageId, RequestId};
use crate::leases::{check_worker_lease, holds};
use crate::session::{transition, transitioned, Lease, SessionRows, SessionState, StoredSession};
use crate::time::Timestamp;
use vstd::prelude::*;

verus! {

/// Events numbered from the one after `head` on.
pub open spec fn sequenced(events: Seq<EventView>, head: int) -> Seq<EventView> {
    Seq::new(events.len(), |i: int| resequenced(events[i], (head + i + 1) as u64))
}

/// Numbers events after `expected_head` and returns the new head with them.
pub fn sequence_events(expected_head: u64, events: Vec<Event>) -> (result: StoreResult<(u64, Vec<Event>)>)
    ensures
        if expected_head + events@.len() > u64::MAX {
            result matches Err(error) && error == StoreError::SequenceOverflow
        } else {
            &&& result matches Ok((head, numbered))
            &&& head == expected_head + events@.len()
            &&& event_views(numbered@) == sequenced(event_views(events@), expected_head as int)
        },
{
    let ghost all = events@;
    let count: usize = events.len();
    let head: u64 = match expected_head.checked_add(count as u64) {
        Some(head) => head,
        None => {
            return Err(StoreError::SequenceOverflow);
        },
    };
    let mut reversed: Vec<Event> = Vec::new();
    let mut rest = events;
    while rest.len() > 0
        invariant
            rest@ == all.take(rest@.len() as int),
            reversed@.len() + rest@.len() == all.len(),
            forall|j: int| 0 <= j < reversed@.len() ==> reversed@[j] == all[all.len() - 1 - j],
        decreases rest@.len(),
    {
        match rest.pop() {
            Some(event) => {
                reversed.push(event);
                assert(rest@ =~= all.take(rest@.len() as int));
            },
            None => {},
        }
    }
    let mut numbered: Vec<Event> = Vec::new();
    let mut seq: u64 = expected_head;
    while reversed.len() > 0
        invariant
            numbered@.len() + reversed@.len() == all.len(),
            expected_head + all.len() <= u64::MAX,
            seq == expected_head + numbered@.len(),
            forall|j: int| 0 <= j < reversed@.len() ==> reversed@[j] == all[all.len() - 1 - j],
            forall|j: int|
                0 <= j < numbered@.len() ==> (#[trigger] numbered@[j])@ == resequenced(
                    all[j]@,
                    (expected_head + j + 1) as u64,
                ),
        decreases reversed@.len(),
    {
        match reversed.pop() {
            Some(event) => {
                assert(event == all[numbered@.len() as int]);
                seq += 1;
                numbered.push(event.at(seq));
            },
            None => {},
        }
    }
    assert(event_views(numbered@) =~= sequenced(event_views(all), expected_head as int));
    Ok((head, numbered))
}

/// The turn after events: the latest user message names it.
pub open spec fn turn_after(events: Seq<EventView>, turn: Option<MessageId>) -> Option<MessageId>
    decreases events.len(),
{
    if events.len() == 0 {
        turn
    } else {
        match events.last().body {
            EventBody::MessageAppended { message } => if message.role == MessageRole::User {
                Some(message.id)
            } else {
                turn_after(events.drop_last(), turn)
            },
            _ => turn_after(events.drop_last(), turn),
        }
    }
}

/// The request that an event issues.
pub open spec fn issued_request(body: EventBody) -> Option<RequestId> {
    match body {
        EventBody::InferenceRequested { request_id, .. } => Some(request_id),
        EventBody::ToolCallRequested { request_id, .. } => Some(request_id),
        _ => None,
    }
}

/// Requests that events issue with the turn they belong to.
pub open spec fn request_turns(events: Seq<EventView>, turn: Option<MessageId>) -> Seq<(RequestId, MessageId)>
    decreases events.len(),
{
    if events.len() == 0 {
        Seq::empty()
    } else {
        let before = request_turns(events.drop_last(), turn);
        match (issued_request(events.last().body), turn_after(events, turn)) {
            (Some(request), Some(turn)) => before.push((request, turn)),
            _ => before,
        }
    }
}

/// What an append writes besides the events.
pub struct Appended {
    pub head: u64,
    pub rows: SessionRows,
    pub turn: Option<MessageId>,
    pub request_turns: Vec<(RequestId, MessageId)>,
}

/// Rows after an append: the head moves, and a woken session becomes Runnable.
pub open spec fn appended_rows(rows: SessionRows, session: StoredSession, head: u64, wake: bool, now: Timestamp) -> SessionRows {
    let moved = StoredSession { head_seq: head, ..session };
    if wake {
        transitioned(rows, moved, SessionState::Runnable, now)
    } else {
        SessionRows { session: Some(moved), ..rows }
    }
}

/// Commits events after `expected_head`. A fence is the lease of the appending worker; `wake`
/// takes an Idle session and makes it Runnable.
pub fn append_events(
    rows: &SessionRows,
    turn: Option<MessageId>,
    expected_head: u64,
    events: &Vec<Event>,
    fence: Option<(Lease, Timestamp)>,
    wake: bool,
    now: Timestamp,
) -> (result: StoreResult<Appended>)
    ensures
        ({
            let fenced = fence matches Some((lease, at)) && !holds(*rows, lease, at);
            if expected_head + events@.len() > u64::MAX {
                result matches Err(error) && error == StoreError::SequenceOverflow
            } else if fenced {
                let (lease, _) = fence->0;
                &&& result matches Err(error)
                &&& error == if rows.lease == Some(lease) && rows.session is None {
                    StoreError::SessionMissing
                } else {
                    StoreError::LeaseMismatch
                }
            } else {
                match rows.session {
                    None => result matches Err(error) && error == StoreError::SessionMissing,
                    Some(session) => if session.head_seq != expected_head {
                        result matches Err(error) && error == (StoreError::StaleSequence {
                            expected: expected_head,
                            actual: session.head_seq,
                        })
                    } else if wake && session.state != SessionState::Idle {
                        result matches Err(error) && error == StoreError::InvalidState
                    } else {
                        &&& result matches Ok(done)
                        &&& done.head == expected_head + events@.len()
                        &&& done.rows == appended_rows(*rows, session, done.head, wake, now)
                        &&& done.turn == turn_after(event_views(events@), turn)
                        &&& done.request_turns@ == request_turns(event_views(events@), turn)
                    },
                }
            }
        }),
{
    let count: usize = events.len();
    let head: u64 = match expected_head.checked_add(count as u64) {
        Some(head) => head,
        None => {
            return Err(StoreError::SequenceOverflow);
        },
    };
    if let Some((lease, at)) = fence {
        let _ = check_worker_lease(rows, &lease, at)?;
    }
    let session = match rows.session {
        Some(session) => session,
        None => {
            return Err(StoreError::SessionMissing);
        },
    };
    if session.head_seq != expected_head {
        return Err(
            StoreError::StaleSequence { expected: expected_head, actual: session.head_seq },
        );
    }
    if wake && session.state != SessionState::Idle {
        return Err(StoreError::InvalidState);
    }
    let ghost views = event_views(events@);
    let mut current = turn;
    let mut requests: Vec<(RequestId, MessageId)> = Vec::new();
    let mut i: usize = 0;
    assert(views.take(0) =~= Seq::<EventView>::empty());
    while i < events.len()
        invariant
            i <= events.len(),
            views == event_views(events@),
            current == turn_after(views.take(i as int), turn),
            requests@ == request_turns(views.take(i as int), turn),
        decreases events.len() - i,
    {
        proof {
            assert(views.take(i + 1).drop_last() =~= views.take(i as int));
            assert(views.take(i + 1).last() == events@[i as int]@);
        }
        match &events[i] {
            Event::MessageAppended { message, .. } => {
                if message.role == MessageRole::User {
                    current = Some(message.id);
                }
            },
            Event::InferenceRequested { request_id, .. } => {
                if let Some(turn) = current {
                    requests.push((*request_id, turn));
                }
            },
            Event::ToolCallRequested { request_id, .. } => {
                if let Some(turn) = current {
                    requests.push((*request_id, turn));
                }
            },
            _ => {},
        }
        i += 1;
    }
    assert(views.take(i as int) =~= views);
    let moved = StoredSession { head_seq: head, ..session };
    let next = if wake {
        transition(rows, moved, SessionState::Runnable, now)
    } else {
        SessionRows { session: Some(moved), ..*rows }
    };
    Ok(Appended { head, rows: next, turn: current, request_turns: requests })
}

/// The log entry of a user message; other messages are refused.
pub fn user_event(message: Message) -> (result: StoreResult<Event>)
    ensures
        if message.role == MessageRole::User {
            result matches Ok(event) && event@ == (EventView {
                seq: 0,
                body: EventBody::MessageAppended { message: message@ },
            })
        } else {
            result matches Err(error) && error == StoreError::InvalidState
        },
{
    if message.role != MessageRole::User {
        return Err(StoreError::InvalidState);
    }
    Ok(Event::MessageAppended { seq: 0, message })
}

/// Outcome of an append that can be replayed: the head it left, and whether it is new.
pub struct ReplayedAppend {
    pub head: u64,
    pub fresh: bool,
    pub rows: SessionRows,
    pub turn: Option<MessageId>,
}

/// Appends a user message once. `replay` is the head that the first append with this key left;
/// with it nothing changes.
pub fn append_user_message_idempotent(
    rows: &SessionRows,
    turn: Option<MessageId>,
    replay: Option<u64>,
    expected_head: u64,
    message: &Message,
    now: Timestamp,
) -> (result: StoreResult<ReplayedAppend>)
    ensures
        if message.role != MessageRole::User {
            result matches Err(error) && error == StoreError::InvalidState
        } else if expected_head == u64::MAX {
            result matches Err(error) && error == StoreError::SequenceOverflow
        } else if replay is Some {
            &&& result matches Ok(done)
            &&& done.head == replay->0
            &&& !done.fresh
            &&& done.rows == *rows
            &&& done.turn == turn
        } else {
            match rows.session {
                None => result matches Err(error) && error == StoreError::SessionMissing,
                Some(session) => if session.head_seq != expected_head {
                    result matches Err(error) && error == (StoreError::StaleSequence {
                        expected: expected_head,
                        actual: session.head_seq,
                    })
                } else if session.state != SessionState::Idle {
                    result matches Err(error) && error == StoreError::InvalidState
                } else {
                    &&& result matches Ok(done)
                    &&& done.head == expected_head + 1
                    &&& done.fresh
                    &&& done.rows == appended_rows(*rows, session, done.head, true, now)
                    &&& done.turn == Some(message.id)
                },
            }
        },
{
    if message.role != MessageRole::User {
        return Err(StoreError::InvalidState);
    }
    let head: u64 = match expected_head.checked_add(1) {
        Some(head) => head,
        None => {
            return Err(StoreError::SequenceOverflow);
        },
    };
    if let Some(previous) = replay {
        return Ok(ReplayedAppend { head: previous, fresh: false, rows: *rows, turn });
    }
    let session = match rows.session {
        Some(session) => session,
        None => {
            return Err(StoreError::SessionMissing);
        },
    };
    if session.head_seq != expected_head {
        return Err(
            StoreError::StaleSequence { expected: expected_head, actual: session.head_seq },
        );
    }
    if session.state != SessionState::Idle {
        return Err(StoreError::InvalidState);
    }
    let moved = StoredSession { head_seq: head, ..session };
    let next = transition(rows, moved, SessionState::Runnable, now);
    Ok(ReplayedAppend { head, fresh: true, rows: next, turn: Some(message.id) })
}

/// Points a session at a snapshot of its log. A snapshot may neither run ahead of the log nor go
/// back behind the current one.
pub fn write_snapshot(session: Option<StoredSession>, seq: u64) -> (result: StoreResult<StoredSession>)
    ensures
        match session {
            None => result matches Err(error) && error == StoreError::SessionMissing,
            Some(session) => if seq > session.head_seq || (session.snapshot_seq matches Some(old)
                && old > seq) {
                result matches Err(error) && error == (StoreError::StaleSequence {
                    expected: seq,
                    actual: session.head_seq,
                })
            } else {
                result matches Ok(next) && next == (StoredSession {
                    snapshot_seq: Some(seq),
                    ..session
                })
            },
        },
{
    let session = match session {
        Some(session) => session,
        None => {
            return Err(StoreError::SessionMissing);
        },
    };
    let behind = match session.snapshot_seq {
        Some(old) => old > seq,
        None => false,
    };
    if seq > session.head_seq || behind {
        return Err(StoreError::StaleSequence { expected: seq, actual: session.head_seq });
    }
    Ok(StoredSession { snapshot_seq: Some(seq), ..session })
}

/// Appends fill the log without gaps: event `i` of a batch gets the number `i + 1` after the
/// expected head, and the last number is the new head.
pub proof fn sequences_are_contiguous(events: Seq<EventView>, head: u64, i: int)
    requires
        head + events.len() <= u64::MAX,
        0 <= i < events.len(),
    ensures
        sequenced(events, head as int)[i].seq == head + i + 1,
        sequenced(events, head as int)[i].body == events[i].body,
        sequenced(events, head as int).last().seq == head + events.len(),
{
}

/// Of two appends that expect the same head, the second is stale: after the first the head has
/// moved on.
pub proof fn appends_fence_each_other(
    rows: SessionRows,
    session: StoredSession,
    count: int,
    wake: bool,
    now: Timestamp,
)
    requires
        rows.session == Some(session),
        0 < count,
        session.head_seq + count <= u64::MAX,
    ensures
        appended_rows(rows, session, (session.head_seq + count) as u64, wake, now).session matches Some(
            next,
        ) && next.head_seq != session.head_seq,
{
}

/// Events that are put behind a head say what they said and are numbered from the head on, one by
/// one; the new head is the number of the last.
pub proof fn numbered_events_say_the_same(expected_head: u64, events: Vec<Event>, result: StoreResult<(u64, Vec<Event>)>)
    requires
        call_ensures(sequence_events, (expected_head, events), result),
    ensures
        result is Ok <==> expected_head + events@.len() <= u64::MAX,
        result matches Ok((head, numbered)) ==> {
            &&& numbered@.len() == events@.len() && head == expected_head + events@.len()
            &&& forall|i: int|
                0 <= i < events@.len() ==> (#[trigger] numbered@[i])@.seq == expected_head + 1 + i && same_entry(
                    numbered@[i],
                    events@[i],
                )
            &&& events@.len() > 0 ==> numbered@.last()@.seq == head
        },
{
    if let Ok((head, numbered)) = result {
        assert(event_views(numbered@).len() == numbered@.len());
        assert forall|i: int| 0 <= i < events@.len() implies (#[trigger] numbered@[i])@.seq == expected_head + 1 + i
            && same_entry(numbered@[i], events@[i]) by {
            assert(event_views(numbered@)[i] == numbered@[i]@);
            assert(event_views(events@)[i] == events@[i]@);
            event_views_are_whole(numbered@[i], events@[i]);
        }
    }
}

/// An append moves the head by as many events as were appended, under the fence that was asked for
/// and only where the log ended where the writer saw it end. A wake starts an idle session; without
/// one nothing but the head changes.
pub proof fn appends_move_the_head(
    rows: SessionRows,
    turn: Option<MessageId>,
    expected_head: u64,
    events: Vec<Event>,
    fence: Option<(Lease, Timestamp)>,
    wake: bool,
    now: Timestamp,
    result: StoreResult<Appended>,
)
    requires
        call_ensures(append_events, (&rows, turn, expected_head, &events, fence, wake, now), result),
    ensures
        result matches Ok(done) ==> {
            let before = rows.session->0;
            let after = done.rows.session->0;
            &&& rows.session is Some && done.rows.session is Some
            &&& before.head_seq == expected_head && done.head == before.head_seq + events@.len()
            &&& after.head_seq == done.head
            &&& after.session_id == before.session_id && after.agent_id == before.agent_id
            &&& after.snapshot_seq == before.snapshot_seq
            &&& done.rows.interrupt == rows.interrupt && done.rows.idle_since == rows.idle_since
            &&& done.rows.lease == rows.lease
            &&& fence matches Some(held) ==> rows.lease == Some(held.0) && held.0.expires_at.nanos
                > held.1.nanos
            &&& !wake ==> after.state == before.state && done.rows.runnable == rows.runnable
                && done.rows.state_since == rows.state_since
            &&& wake ==> before.state == SessionState::Idle && after.state == SessionState::Runnable
                && done.rows.state_since == Some(now) && (done.rows.runnable matches Some(entry)
                && entry.session_id == before.session_id && entry.wake_at == now)
        },
        fence is None && !wake && rows.session is Some && rows.session->0.head_seq == expected_head
            && expected_head + events@.len() <= u64::MAX ==> result is Ok,
{
}

/// The turn that a log is in is set by the last user message alone: behind a user message it is that
/// message, and every other event leaves it.
pub proof fn turns_begin_with_user_messages(events: Seq<EventView>, event: EventView, turn: Option<MessageId>)
    ensures
        turn_after(Seq::empty(), turn) == turn,
        match event.body {
            EventBody::MessageAppended { message } => if message.role == MessageRole::User {
                turn_after(events.push(event), turn) == Some(message.id)
            } else {
                turn_after(events.push(event), turn) == turn_after(events, turn)
            },
            _ => turn_after(events.push(event), turn) == turn_after(events, turn),
        },
{
    assert(events.push(event).drop_last() =~= events);
}

/// Appending in two steps gives the same turn, and notes the same requests, as appending at once.
pub proof fn turns_carry_over(first: Seq<EventView>, second: Seq<EventView>, turn: Option<MessageId>)
    ensures
        turn_after(first + second, turn) == turn_after(second, turn_after(first, turn)),
        request_turns(first + second, turn) == request_turns(first, turn) + request_turns(
            second,
            turn_after(first, turn),
        ),
    decreases second.len(),
{
    if second.len() == 0 {
        assert(first + second =~= first);
        assert(request_turns(first, turn) + request_turns(second, turn_after(first, turn))
            =~= request_turns(first, turn));
    } else {
        turns_carry_over(first, second.drop_last(), turn);
        assert((first + second).drop_last() =~= first + second.drop_last());
        assert((first + second).last() == second.last());
        assert(request_turns(first + second, turn) =~= request_turns(first, turn) + request_turns(
            second,
            turn_after(first, turn),
        ));
    }
}

/// One request is noted under the turn that it was made in; other events, and requests outside any
/// turn, note nothing.
pub proof fn requests_are_noted_under_their_turn(event: EventView, turn: Option<MessageId>)
    ensures
        match (event.body, turn) {
            (EventBody::InferenceRequested { request_id, .. }, Some(id)) => request_turns(seq![event], turn)
                == seq![(request_id, id)],
            (EventBody::ToolCallRequested { request_id, .. }, Some(id)) => request_turns(seq![event], turn)
                == seq![(request_id, id)],
            _ => request_turns(seq![event], turn).len() == 0,
        },
{
    reveal_with_fuel(request_turns, 2);
    reveal_with_fuel(turn_after, 2);
    assert(seq![event].drop_last() =~= Seq::empty());
    if request_turns(seq![event], turn).len() > 0 {
        assert(request_turns(seq![event], turn) =~= seq![request_turns(seq![event], turn)[0]]);
    }
}

/// An append answers with the turn and the noted requests of exactly the events that it appended.
pub proof fn appends_tell_the_turn(
    rows: SessionRows,
    turn: Option<MessageId>,
    expected_head: u64,
    events: Vec<Event>,
    fence: Option<(Lease, Timestamp)>,
    wake: bool,
    now: Timestamp,
    result: StoreResult<Appended>,
)
    requires
        call_ensures(append_events, (&rows, turn, expected_head, &events, fence, wake, now), result),
    ensures
        result matches Ok(done) ==> {
            &&& events@.len() == 0 ==> done.turn == turn && done.request_turns@.len() == 0
            &&& events@.len() > 0 ==> (events@.last() matches Event::MessageAppended { message, .. }
                ==> (message.role == MessageRole::User ==> done.turn == Some(message.id)))
            &&& (forall|i: int|
                0 <= i < events@.len() ==> !((#[trigger] events@[i]) is MessageAppended)) ==> done.turn == turn
        },
{
    if let Ok(done) = result {
        let views = event_views(events@);
        if events@.len() > 0 {
            assert(views.last() == events@.last()@);
        }
        if forall|i: int| 0 <= i < events@.len() ==> !((#[trigger] events@[i]) is MessageAppended) {
            assert forall|i: int| 0 <= i < views.len() implies !((#[trigger] views[i]).body is MessageAppended) by {
                assert(views[i] == events@[i]@);
                assert(!(events@[i] is MessageAppended));
            }
            turns_last(views, turn);
        }
    }
}

proof fn turns_last(events: Seq<EventView>, turn: Option<MessageId>)
    requires
        forall|i: int| 0 <= i < events.len() ==> !((#[trigger] events[i]).body is MessageAppended),
    ensures
        turn_after(events, turn) == turn,
    decreases events.len(),
{
    if events.len() > 0 {
        assert(events.last() == events[events.len() - 1]);
        assert forall|i: int| 0 <= i < events.drop_last().len() implies !((
        #[trigger] events.drop_last()[i]).body is MessageAppended) by {
            assert(events.drop_last()[i] == events[i]);
        }
        turns_last(events.drop_last(), turn);
    }
}

/// A user's message becomes an event that holds that message, word for word.
pub proof fn user_events_hold_the_message(message: Message, result: StoreResult<Event>)
    requires
        call_ensures(user_event, (message,), result),
    ensures
        result is Ok <==> message.role == MessageRole::User,
        result matches Ok(event) ==> (event matches Event::MessageAppended { message: kept, .. }
            && same_message(kept, message)),
{
    if let Ok(Event::MessageAppended { message: kept, .. }) = result {
        message_views_are_whole(kept, message);
    }
}

/// A user's message that was appended before is answered with the head it got then, and changes
/// nothing. A new one takes the next number, starts its turn and wakes the session.
pub proof fn user_messages_are_appended_once(
    rows: SessionRows,
    turn: Option<MessageId>,
    replay: Option<u64>,
    expected_head: u64,
    message: Message,
    now: Timestamp,
    result: StoreResult<ReplayedAppend>,
)
    requires
        call_ensures(
            append_user_message_idempotent,
            (&rows, turn, replay, expected_head, &message, now),
            result,
        ),
    ensures
        result matches Ok(done) ==> {
            &&& done.fresh <==> replay is None
            &&& replay matches Some(head) ==> done.head == head && done.rows == rows && done.turn == turn
            &&& replay is None ==> {
                let before = rows.session->0;
                let after = done.rows.session->0;
                &&& rows.session is Some && before.state == SessionState::Idle
                &&& done.head == before.head_seq + 1 && after.head_seq == done.head
                &&& done.turn == Some(message.id)
                &&& after.state == SessionState::Runnable && after.session_id == before.session_id
                &&& after.agent_id == before.agent_id && after.snapshot_seq == before.snapshot_seq
                &&& done.rows.runnable matches Some(entry) && entry.session_id == before.session_id
                    && entry.wake_at == now
            }
        },
{
}

/// A snapshot covers no more than the log and never goes back; nothing else of the header changes.
pub proof fn snapshots_only_advance(session: Option<StoredSession>, seq: u64, result: StoreResult<StoredSession>)
    requires
        call_ensures(write_snapshot, (session, seq), result),
    ensures
        result matches Ok(next) ==> {
            let before = session->0;
            &&& session is Some && next.snapshot_seq == Some(seq) && seq <= next.head_seq
            &&& before.snapshot_seq matches Some(old) ==> old <= seq
            &&& next.head_seq == before.head_seq && next.state == before.state
            &&& next.session_id == before.session_id && next.agent_id == before.agent_id
        },
        session matches Some(before) ==> (result is Ok <==> seq <= before.head_seq && (
        before.snapshot_seq is None || before.snapshot_seq->0 <= seq)),
{
}

/// A writer whose view of the log is old is told where it thought that the log ended and where it does.
pub proof fn stale_writers_are_told_the_head(
    rows: SessionRows,
    turn: Option<MessageId>,
    expected_head: u64,
    events: Vec<Event>,
    fence: Option<(Lease, Timestamp)>,
    wake: bool,
    now: Timestamp,
    result: StoreResult<Appended>,
)
    requires
        call_ensures(append_events, (&rows, turn, expected_head, &events, fence, wake, now), result),
    ensures
        result matches Err(StoreError::StaleSequence { expected, actual }) ==> expected == expected_head && (
        rows.session matches Some(session) && actual == session.head_seq && actual != expected),
        fence is None && expected_head + events@.len() <= u64::MAX ==> (rows.session matches Some(session) ==> (
        session.head_seq != expected_head ==> (result matches Err(StoreError::StaleSequence { .. })))),
        rows.session is None && fence is None && expected_head + events@.len() <= u64::MAX ==> (
        result matches Err(error) && error == StoreError::SessionMissing),
        expected_head + events@.len() > u64::MAX ==> (result matches Err(error) && error
            == StoreError::SequenceOverflow),
{
}

} // verus!
