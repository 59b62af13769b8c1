//! Timers of agents: set and cancelled by tools, fired at most once, into an idle conversation.

use crate::agents::{AgentRecord, AgentView};
use crate::conversations::{create_main, starts_for, with_main};
use crate::error::{StoreError, StoreResult};
use crate::events::{
    CallView, Event, EventBody, EventView, Message, MessageRole, MessageView, Part, PartView,
    ResultView, ToolCallRecord, ToolResult,
};
use crate::ids::{be_bytes, id_bytes, AgentId, MessageId, RequestId, SessionId, TimerId};
use crate::keys::{
    is_before, pack_key, packed, part_views, parts_less, parts_size, starts_parts, storable, within,
    KeyPart,
};
use crate::keys::PartView as KeyView;
use crate::leases::{check_worker_lease, holds};
use crate::paging::{key_after, key_less, successor, successor_is_next};
use crate::placements::check_computer;
use crate::session::{transition, transitioned, Lease, SessionRows, SessionState, StoredSession};
use crate::sessions::CreatedSession;
use crate::text::same;
use crate::time::{truncated, Timestamp};
use vstd::prelude::*;

verus! {

/// Pending timers that an agent may have.
pub const MAX_AGENT_TIMERS: usize = 32;

/// What became of a timer.
#[derive(Clone, Copy, Debug, PartialEq, Eq, Structural)]
pub enum TimerStatus {
    Pending,
    /// Its note was appended here.
    Fired { session_id: SessionId, seq: u64 },
    Cancelled,
}

/// A timer with its note. A pending one stands in the agent's list and in the index by due time.
#[derive(Clone, Debug, PartialEq, Eq)]
pub struct TimerRecord {
    pub timer_id: TimerId,
    pub agent_id: AgentId,
    pub due_at: Timestamp,
    pub note: String,
    pub status: TimerStatus,
}

/// View of a timer.
pub ghost struct TimerView {
    pub timer_id: TimerId,
    pub agent_id: AgentId,
    pub due_at: Timestamp,
    pub note: Seq<char>,
    pub status: TimerStatus,
}

impl View for TimerRecord {
    type V = TimerView;

    open spec fn view(&self) -> TimerView {
        TimerView {
            timer_id: self.timer_id,
            agent_id: self.agent_id,
            due_at: self.due_at,
            note: self.note@,
            status: self.status,
        }
    }
}

/// View of a timer that may be absent.
pub open spec fn timer_view(timer: Option<TimerRecord>) -> Option<TimerView> {
    match timer {
        Some(timer) => Some(timer@),
        None => None,
    }
}

// ---------------------------------------------------------------------------------------------
// Tools
// ---------------------------------------------------------------------------------------------

/// A call of a timer tool, with its arguments as far as they could be read.
pub enum TimerCall {
    /// When the timer is due, and its note.
    Start(Result<(Timestamp, String), String>),
    Cancel(Result<TimerId, String>),
    /// What reading the empty arguments gave.
    List(Result<(), String>),
}

/// What a timer tool does.
pub enum TimerOutcome {
    /// A timer is saved and shown.
    Saved(TimerRecord),
    /// The agent's pending timers are shown.
    Shown,
    /// The call fails with these words.
    Refused(String),
}

/// Whether an outcome is a refusal with these words.
pub open spec fn refuses(outcome: TimerOutcome, words: Seq<char>) -> bool {
    match outcome {
        TimerOutcome::Refused(text) => text@ == words,
        _ => false,
    }
}

/// Whether an outcome saves a timer.
pub open spec fn saves(outcome: TimerOutcome, timer: TimerView) -> bool {
    match outcome {
        TimerOutcome::Saved(saved) => saved@ == timer,
        _ => false,
    }
}

/// Runs a timer tool for an agent. `pending` counts the agent's pending timers, at most as many as
/// it may have, and `stored` is the timer that a cancellation names.
pub fn timer_tool(agent: AgentId, timer_id: TimerId, call: TimerCall, pending: usize, stored: Option<TimerRecord>) -> (outcome: TimerOutcome)
    ensures
        match call {
            TimerCall::Start(Err(words)) => refuses(outcome, words@),
            TimerCall::Start(Ok((due_at, note))) => if pending == MAX_AGENT_TIMERS {
                refuses(outcome, "at most 32 pending timers per agent"@)
            } else {
                saves(
                    outcome,
                    TimerView {
                        timer_id,
                        agent_id: agent,
                        due_at,
                        note: note@,
                        status: TimerStatus::Pending,
                    },
                )
            },
            TimerCall::Cancel(Err(words)) => refuses(outcome, words@),
            TimerCall::Cancel(Ok(_)) => match timer_view(stored) {
                None => refuses(outcome, "timer not found for this agent"@),
                Some(timer) => if timer.status is Fired {
                    refuses(outcome, "timer already fired"@)
                } else {
                    saves(outcome, TimerView { status: TimerStatus::Cancelled, ..timer })
                },
            },
            TimerCall::List(Err(words)) => refuses(outcome, words@),
            TimerCall::List(Ok(_)) => outcome is Shown,
        },
{
    match call {
        TimerCall::Start(Ok((due_at, note))) => {
            if pending == MAX_AGENT_TIMERS {
                return TimerOutcome::Refused("at most 32 pending timers per agent".to_owned());
            }
            TimerOutcome::Saved(
                TimerRecord {
                    timer_id,
                    agent_id: agent,
                    due_at,
                    note,
                    status: TimerStatus::Pending,
                },
            )
        },
        TimerCall::Cancel(Ok(_)) => match stored {
            None => TimerOutcome::Refused("timer not found for this agent".to_owned()),
            Some(timer) => match timer.status {
                TimerStatus::Fired { .. } => TimerOutcome::Refused("timer already fired".to_owned()),
                _ => {
                    let mut cancelled = timer;
                    cancelled.status = TimerStatus::Cancelled;
                    TimerOutcome::Saved(cancelled)
                },
            },
        },
        TimerCall::List(Ok(_)) => TimerOutcome::Shown,
        TimerCall::Start(Err(words)) => TimerOutcome::Refused(words),
        TimerCall::Cancel(Err(words)) => TimerOutcome::Refused(words),
        TimerCall::List(Err(words)) => TimerOutcome::Refused(words),
    }
}

/// Whether a tool is one of the timer tools.
pub open spec fn is_timer_tool(tool: Seq<char>) -> bool {
    tool == "set_timer"@ || tool == "list_timers"@ || tool == "cancel_timer"@
}

/// The result that a tool's output stands for.
pub open spec fn tool_view(tool: Seq<char>, output: Result<String, String>) -> ResultView {
    match output {
        Ok(text) => ResultView::Completed { title: tool, output: text@ },
        Err(words) => ResultView::Error { error: words@ },
    }
}

/// The event that ends a call which a worker ran itself.
pub open spec fn worker_call_ended(seq: u64, request_id: RequestId, call: CallView, output: Result<String, String>) -> EventView {
    EventView {
        seq,
        body: EventBody::ToolCallCompleted {
            request_id,
            call_id: call.call_id,
            result: tool_view(call.tool, output),
        },
    }
}

/// The event that ends a call which a worker ran itself.
pub fn worker_call_event(seq: u64, request_id: RequestId, call: &ToolCallRecord, output: Result<String, String>) -> (event: Event)
    ensures
        event@ == worker_call_ended(seq, request_id, call@, output),
{
    let result = match output {
        Ok(text) => ToolResult::Completed { title: call.tool.clone(), output: text },
        Err(words) => ToolResult::Error { error: words },
    };
    Event::ToolCallCompleted { seq, request_id, call_id: call.call_id.clone(), result }
}

/// A session one event further.
pub open spec fn one_further(rows: SessionRows, session: StoredSession) -> SessionRows {
    SessionRows {
        session: Some(StoredSession { head_seq: (session.head_seq + 1) as u64, ..session }),
        ..rows
    }
}

/// Commits a timer tool's result under the worker's lease. `named` tells whether the session's
/// agent is a named one; others have no timers, whatever the output says.
pub fn complete_timer_tool(
    rows: &SessionRows,
    expected_head: u64,
    lease: &Lease,
    request_id: RequestId,
    call: &ToolCallRecord,
    deleted: bool,
    named: bool,
    output: Result<String, String>,
    now: Timestamp,
) -> (result: StoreResult<(Event, SessionRows)>)
    ensures
        if !is_timer_tool(call@.tool) {
            result matches Err(error) && error == StoreError::InvalidState
        } else if !holds(*rows, *lease, now) {
            result matches Err(error) && error == if rows.lease == Some(*lease) && rows.session
                is None {
                StoreError::SessionMissing
            } else {
                StoreError::LeaseMismatch
            }
        } else if rows.session->0.head_seq != expected_head {
            result matches Err(error) && error == (StoreError::StaleSequence {
                expected: expected_head,
                actual: rows.session->0.head_seq,
            })
        } else if deleted {
            result matches Err(error) && error == StoreError::ComputerDeleted
        } else if expected_head == u64::MAX {
            result matches Err(error) && error == StoreError::SequenceOverflow
        } else {
            &&& result matches Ok((event, next))
            &&& event@.seq == expected_head + 1
            &&& if named {
                event@ == worker_call_ended(
                    (expected_head + 1) as u64,
                    request_id,
                    call@,
                    output,
                )
            } else {
                event@.body == (EventBody::ToolCallCompleted {
                    request_id,
                    call_id: call@.call_id,
                    result: ResultView::Error { error: "timers require a named agent"@ },
                })
            }
            &&& next == one_further(*rows, rows.session->0)
        },
{
    if !(same(call.tool.as_str(), "set_timer") || same(call.tool.as_str(), "list_timers") || same(
        call.tool.as_str(),
        "cancel_timer",
    )) {
        return Err(StoreError::InvalidState);
    }
    let session = check_worker_lease(rows, lease, now)?;
    if session.head_seq != expected_head {
        return Err(
            StoreError::StaleSequence { expected: expected_head, actual: session.head_seq },
        );
    }
    check_computer(deleted)?;
    let seq: u64 = match expected_head.checked_add(1) {
        Some(seq) => seq,
        None => {
            return Err(StoreError::SequenceOverflow);
        },
    };
    let shown: Result<String, String> = if named {
        output
    } else {
        Err("timers require a named agent".to_owned())
    };
    let event = worker_call_event(seq, request_id, call, shown);
    let next = SessionRows { session: Some(StoredSession { head_seq: seq, ..session }), ..*rows };
    Ok((event, next))
}

// ---------------------------------------------------------------------------------------------
// Firing
// ---------------------------------------------------------------------------------------------

/// The event by which a timer's note reaches a session.
pub open spec fn note_event(timer: TimerView, seq: u64) -> EventView {
    EventView {
        seq,
        body: EventBody::MessageAppended {
            message: MessageView {
                id: MessageId(timer.timer_id.0),
                role: MessageRole::System,
                parts: seq![PartView::Text { text: timer.note }],
            },
        },
    }
}

/// Rows of a session that got a note: one event further, and Runnable.
pub open spec fn woken(rows: SessionRows, session: StoredSession, now: Timestamp) -> SessionRows {
    transitioned(
        rows,
        StoredSession { head_seq: (session.head_seq + 1) as u64, ..session },
        SessionState::Runnable,
        now,
    )
}

/// Appends a timer's note to an idle session and wakes it.
fn deliver_timer(rows: &SessionRows, session: StoredSession, timer: &TimerRecord, now: Timestamp) -> (result: StoreResult<(Event, SessionRows)>)
    ensures
        if session.head_seq == u64::MAX {
            result matches Err(error) && error == StoreError::SequenceOverflow
        } else {
            &&& result matches Ok((event, next))
            &&& event@ == note_event(timer@, (session.head_seq + 1) as u64)
            &&& next == woken(*rows, session, now)
        },
{
    let seq: u64 = match session.head_seq.checked_add(1) {
        Some(seq) => seq,
        None => {
            return Err(StoreError::SequenceOverflow);
        },
    };
    let mut parts: Vec<Part> = Vec::new();
    parts.push(Part::Text { text: timer.note.clone() });
    let message = Message { id: MessageId(timer.timer_id.0), role: MessageRole::System, parts };
    assert(message@.parts =~= seq![PartView::Text { text: timer@.note }]);
    let event = Event::MessageAppended { seq, message };
    let next = transition(
        rows,
        StoredSession { head_seq: seq, ..session },
        SessionState::Runnable,
        now,
    );
    Ok((event, next))
}

/// What the store holds about a due timer.
pub struct FireRows {
    pub agent: Option<AgentRecord>,
    pub deleted: bool,
    /// The session that set the timer.
    pub origin: Option<SessionRows>,
    /// The agent's main conversation.
    pub main: Option<SessionRows>,
    /// Whether a session stands under the fresh id.
    pub fresh_taken: bool,
}

/// What firing a timer writes.
pub struct FiredTimer {
    /// The timer with its receipt.
    pub timer: TimerRecord,
    pub rows: SessionRows,
    pub event: Event,
    /// A main conversation that was made for the note, and the agent that points to it.
    pub created: Option<(CreatedSession, AgentRecord)>,
}

/// How firing a timer ended.
pub enum Firing {
    /// The timer is gone, not pending or not due, or the conversation is busy.
    Nothing,
    /// The agent is gone, and the timer with it.
    Cancelled(TimerRecord),
    Fired(FiredTimer),
}

/// Whether a timer is due.
pub open spec fn is_due(timer: TimerView, now: Timestamp) -> bool {
    timer.status == TimerStatus::Pending && timer.due_at.nanos <= now.nanos
}

/// The session that set a timer, while it is idle and the agent's own.
pub open spec fn idle_origin(rows: FireRows, agent: AgentView) -> Option<(SessionRows, StoredSession)> {
    match rows.origin {
        Some(origin) => match origin.session {
            Some(session) => if session.agent_id == agent.agent_id && session.state
                == SessionState::Idle {
                Some((origin, session))
            } else {
                None
            },
            None => None,
        },
        None => None,
    }
}

/// Whether a timer was fired into a session.
pub open spec fn fired_into(done: FiredTimer, timer: TimerView, rows: SessionRows, session: StoredSession, now: Timestamp) -> bool {
    let seq = (session.head_seq + 1) as u64;
    &&& done.timer@ == (TimerView {
        status: TimerStatus::Fired { session_id: session.session_id, seq },
        ..timer
    })
    &&& done.event@ == note_event(timer, seq)
    &&& done.rows == woken(rows, session, now)
}

/// Whether a result is that of delivering a timer's note to an idle session.
pub open spec fn delivered(result: StoreResult<Firing>, timer: TimerView, rows: SessionRows, session: StoredSession, deleted: bool, now: Timestamp) -> bool {
    if deleted {
        result matches Err(error) && error == StoreError::ComputerDeleted
    } else if session.head_seq == u64::MAX {
        result matches Err(error) && error == StoreError::SequenceOverflow
    } else {
        result matches Ok(Firing::Fired(done)) && fired_into(done, timer, rows, session, now)
            && done.created is None
    }
}

fn fire_into(timer: TimerRecord, rows: &SessionRows, session: StoredSession, deleted: bool, now: Timestamp) -> (result: StoreResult<Firing>)
    ensures
        delivered(result, timer@, *rows, session, deleted, now),
{
    check_computer(deleted)?;
    let (event, next) = deliver_timer(rows, session, &timer, now)?;
    let mut receipt = timer;
    receipt.status = TimerStatus::Fired { session_id: session.session_id, seq: event.seq() };
    Ok(Firing::Fired(FiredTimer { timer: receipt, rows: next, event, created: None }))
}

/// Fires a due timer: its note goes to the idle session that set it, or else to the main
/// conversation, which is made under `fresh` when there is none. A busy conversation leaves the
/// timer pending.
pub fn fire_timer(timer: Option<TimerRecord>, rows: FireRows, fresh: SessionId, now: Timestamp) -> (result: StoreResult<Firing>)
    ensures
        match timer_view(timer) {
            None => result matches Ok(Firing::Nothing),
            Some(due) => if !is_due(due, now) {
                result matches Ok(Firing::Nothing)
            } else {
                match rows.agent {
                    None => result matches Ok(Firing::Cancelled(gone)) && gone@ == (TimerView {
                        status: TimerStatus::Cancelled,
                        ..due
                    }),
                    Some(agent) => match idle_origin(rows, agent@) {
                        Some((origin, session)) => delivered(
                            result,
                            due,
                            origin,
                            session,
                            rows.deleted,
                            now,
                        ),
                        None => match agent.main_session {
                            Some(_) => match rows.main {
                                None => result matches Err(error) && error
                                    == StoreError::SessionMissing,
                                Some(main) => match main.session {
                                    None => result matches Err(error) && error
                                        == StoreError::SessionMissing,
                                    Some(session) => if session.state != SessionState::Idle {
                                        result matches Ok(Firing::Nothing)
                                    } else {
                                        delivered(result, due, main, session, rows.deleted, now)
                                    },
                                },
                            },
                            None => if rows.fresh_taken {
                                result matches Err(error) && error == StoreError::SessionExists
                            } else if rows.deleted {
                                result matches Err(error) && error == StoreError::ComputerDeleted
                            } else {
                                &&& result matches Ok(Firing::Fired(done))
                                &&& done.created matches Some((created, after))
                                &&& starts_for(created, agent@, fresh, now)
                                &&& after@ == with_main(agent@, fresh)
                                &&& fired_into(
                                    done,
                                    due,
                                    created.rows,
                                    created.rows.session->0,
                                    now,
                                )
                            },
                        },
                    },
                }
            },
        },
{
    let mut due = match timer {
        Some(due) => due,
        None => {
            return Ok(Firing::Nothing);
        },
    };
    if due.status != TimerStatus::Pending || due.due_at.nanos > now.nanos {
        return Ok(Firing::Nothing);
    }
    let agent = match rows.agent {
        Some(agent) => agent,
        None => {
            due.status = TimerStatus::Cancelled;
            return Ok(Firing::Cancelled(due));
        },
    };
    if let Some(origin) = rows.origin {
        if let Some(session) = origin.session {
            if session.agent_id == agent.agent_id && session.state == SessionState::Idle {
                return fire_into(due, &origin, session, rows.deleted, now);
            }
        }
    }
    if agent.main_session.is_some() {
        let main = match rows.main {
            Some(main) => main,
            None => {
                return Err(StoreError::SessionMissing);
            },
        };
        let session = match main.session {
            Some(session) => session,
            None => {
                return Err(StoreError::SessionMissing);
            },
        };
        if session.state != SessionState::Idle {
            return Ok(Firing::Nothing);
        }
        return fire_into(due, &main, session, rows.deleted, now);
    }
    let (created, after) = create_main(agent, rows.deleted, rows.fresh_taken, fresh, now)?;
    let session = match created.rows.session {
        Some(session) => session,
        None => {
            return Err(StoreError::SessionMissing);
        },
    };
    let (event, next) = deliver_timer(&created.rows, session, &due, now)?;
    due.status = TimerStatus::Fired { session_id: session.session_id, seq: event.seq() };
    Ok(
        Firing::Fired(
            FiredTimer { timer: due, rows: next, event, created: Some((created, after)) },
        ),
    )
}

/// A timer fires at most once: one that was fired or cancelled is not due at any moment.
pub proof fn timers_fire_once(timer: TimerView, session_id: SessionId, seq: u64, now: Timestamp)
    ensures
        !is_due(TimerView { status: TimerStatus::Fired { session_id, seq }, ..timer }, now),
        !is_due(TimerView { status: TimerStatus::Cancelled, ..timer }, now),
{
}

// ---------------------------------------------------------------------------------------------
// Due timers
// ---------------------------------------------------------------------------------------------

/// A timer's place in the index by due time.
#[derive(Clone, Copy, Debug, PartialEq, Eq, Structural)]
pub struct TimerPlace {
    pub due_at: Timestamp,
    pub agent_id: AgentId,
    pub timer_id: TimerId,
}

/// The milliseconds by which a timer is indexed.
pub open spec fn due_millis(at: Timestamp) -> i64 {
    truncated(at.nanos as int, 1_000_000) as i64
}

/// Elements of the key of a row in the index by due time.
pub open spec fn due_parts(place: TimerPlace) -> Seq<KeyView> {
    seq![
        KeyView::Text("timer_due"@),
        KeyView::Int(due_millis(place.due_at)),
        KeyView::Bytes(be_bytes(place.agent_id.0 as nat, 16)),
        KeyView::Bytes(be_bytes(place.timer_id.0 as nat, 16)),
    ]
}

/// Order of two rows of the index: by millisecond, agent and timer.
pub open spec fn due_before(a: TimerPlace, b: TimerPlace) -> bool {
    let agent_a = be_bytes(a.agent_id.0 as nat, 16);
    let agent_b = be_bytes(b.agent_id.0 as nat, 16);
    ||| due_millis(a.due_at) < due_millis(b.due_at)
    ||| due_millis(a.due_at) == due_millis(b.due_at) && agent_a != agent_b && key_less(
        agent_a,
        agent_b,
    )
    ||| due_millis(a.due_at) == due_millis(b.due_at) && agent_a == agent_b && key_less(
        be_bytes(a.timer_id.0 as nat, 16),
        be_bytes(b.timer_id.0 as nat, 16),
    )
}

proof fn key_is_not_before_itself(key: Seq<u8>)
    ensures
        !key_less(key, key),
    decreases key.len(),
{
    if key.len() > 0 {
        key_is_not_before_itself(key.drop_first());
    }
}

proof fn due_order(a: TimerPlace, b: TimerPlace)
    ensures
        parts_less(due_parts(a), due_parts(b)) <==> due_before(a, b),
{
    let x = due_parts(a);
    let y = due_parts(b);
    let x1 = x.drop_first();
    let y1 = y.drop_first();
    let x2 = x1.drop_first();
    let y2 = y1.drop_first();
    let x3 = x2.drop_first();
    let y3 = y2.drop_first();
    assert(x1 =~= seq![x[1], x[2], x[3]] && y1 =~= seq![y[1], y[2], y[3]]);
    assert(x2 =~= seq![x[2], x[3]] && y2 =~= seq![y[2], y[3]]);
    assert(x3 =~= seq![x[3]] && y3 =~= seq![y[3]]);
    assert(x3.drop_first() =~= Seq::<KeyView>::empty());
    assert(y3.drop_first() =~= Seq::<KeyView>::empty());
    reveal_with_fuel(parts_less, 6);
    if x[3] == y[3] {
        key_is_not_before_itself(be_bytes(a.timer_id.0 as nat, 16));
    }
}

proof fn due_bound(a: TimerPlace, millis: i64)
    ensures
        ({
            let bound = seq![KeyView::Text("timer_due"@), KeyView::Int(millis)];
            parts_less(due_parts(a), bound) || starts_parts(bound, due_parts(a)) <==> due_millis(
                a.due_at,
            ) <= millis
        }),
        parts_less(seq![KeyView::Text("timer_due"@)], due_parts(a)),
{
    let x = due_parts(a);
    let bound = seq![KeyView::Text("timer_due"@), KeyView::Int(millis)];
    let name = seq![KeyView::Text("timer_due"@)];
    assert(x.drop_first() =~= seq![x[1], x[2], x[3]]);
    assert(x.drop_first().drop_first() =~= seq![x[2], x[3]]);
    assert(bound.drop_first() =~= seq![bound[1]]);
    assert(bound.drop_first().drop_first() =~= Seq::<KeyView>::empty());
    assert(name.drop_first() =~= Seq::<KeyView>::empty());
    reveal_with_fuel(parts_less, 4);
    if due_millis(a.due_at) == millis {
        assert(x.take(2) =~= bound);
    } else {
        assert(x.take(2)[1] == x[1]);
    }
}

/// Where a scan of due timers begins: at the start of the index, or behind the last row seen.
pub open spec fn due_begin(root: Seq<u8>, after: Option<TimerPlace>) -> Seq<u8> {
    match after {
        Some(last) => successor(packed(root, due_parts(last))),
        None => successor(packed(root, seq![KeyView::Text("timer_due"@)])),
    }
}

/// Where a scan of due timers ends: behind every row of the present millisecond.
pub open spec fn due_end(root: Seq<u8>, now: Timestamp) -> Seq<u8> {
    packed(root, seq![KeyView::Text("timer_due"@), KeyView::Int(due_millis(now))]).push(255)
}

fn due_key_parts(place: &TimerPlace) -> (parts: Vec<KeyPart>)
    requires
        place.due_at.valid(),
    ensures
        part_views(parts@) == due_parts(*place),
        parts_size(part_views(parts@)) <= 128,
{
    let mut parts: Vec<KeyPart> = Vec::new();
    parts.push(KeyPart::Text("timer_due".to_owned()));
    parts.push(KeyPart::Int(place.due_at.as_millisecond()));
    parts.push(KeyPart::Bytes(id_bytes(place.agent_id.0)));
    parts.push(KeyPart::Bytes(id_bytes(place.timer_id.0)));
    proof {
        reveal_strlit("timer_due");
        let views = due_parts(*place);
        assert(part_views(parts@) =~= views);
        assert(views.drop_last() =~= seq![views[0], views[1], views[2]]);
        assert(views.drop_last().drop_last() =~= seq![views[0], views[1]]);
        assert(views.drop_last().drop_last().drop_last() =~= seq![views[0]]);
        assert(views.drop_last().drop_last().drop_last().drop_last() =~= Seq::<KeyView>::empty());
        reveal_with_fuel(parts_size, 5);
    }
    parts
}

/// The key of a timer's row in the index by due time.
pub fn timer_due_key(root: &Vec<u8>, place: &TimerPlace) -> (key: Vec<u8>)
    requires
        root@.len() + 1024 <= u32::MAX,
        place.due_at.valid(),
    ensures
        key@ == packed(root@, due_parts(*place)),
{
    let parts = due_key_parts(place);
    assert(storable(part_views(parts@)));
    pack_key(root, &parts)
}

/// The range of the index that holds the timers due at `now`, behind the last row seen. None means
/// that the range is empty.
pub fn scan_due_timers(root: &Vec<u8>, now: Timestamp, after: Option<TimerPlace>) -> (range: Option<(Vec<u8>, Vec<u8>)>)
    requires
        root@.len() + 1024 <= u32::MAX,
        now.valid(),
        after matches Some(last) ==> last.due_at.valid(),
    ensures
        match range {
            Some((begin, end)) => {
                &&& begin@ == due_begin(root@, after)
                &&& end@ == due_end(root@, now)
                &&& key_less(begin@, end@)
            },
            None => !key_less(due_begin(root@, after), due_end(root@, now)),
        },
        forall|place: TimerPlace|
            #[trigger] within(
                (due_begin(root@, after), due_end(root@, now)),
                packed(root@, due_parts(place)),
            ) <==> due_millis(place.due_at) <= due_millis(now) && (after matches Some(last)
                ==> due_before(last, place)),
{
    let mut bound: Vec<KeyPart> = Vec::new();
    bound.push(KeyPart::Text("timer_due".to_owned()));
    bound.push(KeyPart::Int(now.as_millisecond()));
    let mut name: Vec<KeyPart> = Vec::new();
    name.push(KeyPart::Text("timer_due".to_owned()));
    proof {
        reveal_strlit("timer_due");
        let views = seq![KeyView::Text("timer_due"@), KeyView::Int(due_millis(now))];
        assert(part_views(bound@) =~= views);
        assert(part_views(name@) =~= seq![views[0]]);
        assert(views.drop_last() =~= seq![views[0]]);
        assert(seq![views[0]].drop_last() =~= Seq::<KeyView>::empty());
        reveal_with_fuel(parts_size, 3);
    }
    let mut end = pack_key(root, &bound);
    let ghost end_key = end@;
    end.push(255);
    let first = match &after {
        Some(last) => due_key_parts(last),
        None => name,
    };
    assert(storable(part_views(first@)));
    let start = pack_key(root, &first);
    let begin = key_after(&start);
    assert forall|place: TimerPlace|
        #[trigger] within(
            (due_begin(root@, after), due_end(root@, now)),
            packed(root@, due_parts(place)),
        ) <==> due_millis(place.due_at) <= due_millis(now) && (after matches Some(last)
            ==> due_before(last, place)) by {
        let row = due_parts(place);
        assert(storable(row));
        successor_is_next(start@, packed(root@, row));
        due_bound(place, due_millis(now));
        if let Some(last) = after {
            due_order(last, place);
        }
    }
    if is_before(&begin, &end) {
        Some((begin, end))
    } else {
        None
    }
}

/// A timer that is due is found by a scan, whatever row the scan saw before it.
pub proof fn due_timers_are_found(place: TimerPlace, now: Timestamp)
    requires
        place.due_at.valid(),
        now.valid(),
        place.due_at.nanos <= now.nanos,
    ensures
        due_millis(place.due_at) <= due_millis(now),
{
    let a = place.due_at.nanos as int;
    let b = now.nanos as int;
    assert(truncated(a, 1_000_000) <= truncated(b, 1_000_000));
}

/// A fired timer appends one message behind the head of the session that it fires into: a system
/// message of exactly one part, a text equal to the timer's note. The timer keeps its note, its
/// owner and its due time, and remembers where it fired; the session wakes and is queued.
pub proof fn fired_timers_say_their_note(timer: Option<TimerRecord>, rows: FireRows, fresh: SessionId, now: Timestamp, result: StoreResult<Firing>)
    requires
        call_ensures(fire_timer, (timer, rows, fresh, now), result),
    ensures
        result matches Ok(Firing::Fired(done)) ==> {
            &&& timer is Some && done.rows.session is Some
            &&& done.event matches Event::MessageAppended { seq, message } && message.role
                == MessageRole::System && message.id.0 == timer->0.timer_id.0 && message.parts@.len() == 1 && (
            message.parts@[0] matches Part::Text { text } && text@ == timer->0.note@) && seq
                == done.rows.session->0.head_seq && done.timer.status == (TimerStatus::Fired {
                session_id: done.rows.session->0.session_id,
                seq,
            })
            &&& done.timer.note@ == timer->0.note@
            &&& done.timer.timer_id == timer->0.timer_id && done.timer.agent_id == timer->0.agent_id
            &&& done.timer.due_at == timer->0.due_at
            &&& done.rows.session->0.state == SessionState::Runnable
            &&& done.rows.runnable matches Some(entry) && entry.session_id
                == done.rows.session->0.session_id && entry.wake_at == now
        },
{
    if let Ok(Firing::Fired(done)) = result {
        if let Event::MessageAppended { seq, message } = done.event {
            let parts = message@.parts;
            assert(parts.len() == message.parts@.len());
            assert(parts[0] == message.parts@[0]@);
        }
    }
}

/// A timer fires only once it is due and only into an idle session: the one that it was set in,
/// where that still belongs to the agent, else the agent's main one, else a new main one under the
/// fresh id. The session keeps its ids and its snapshot, and its head moves by one.
pub proof fn timers_fire_into_idle_sessions(timer: Option<TimerRecord>, rows: FireRows, fresh: SessionId, now: Timestamp, result: StoreResult<Firing>)
    requires
        call_ensures(fire_timer, (timer, rows, fresh, now), result),
    ensures
        result matches Ok(Firing::Fired(done)) ==> {
            let after = done.rows.session->0;
            &&& timer matches Some(due) && due.status == TimerStatus::Pending && due.due_at.nanos <= now.nanos
            &&& rows.agent is Some && !rows.deleted
            &&& match done.created {
                None => {
                    ||| (rows.origin matches Some(origin) && origin.session matches Some(before)
                        && before.state == SessionState::Idle && before.agent_id == rows.agent->0.agent_id
                        && after.session_id == before.session_id && after.agent_id == before.agent_id
                        && after.head_seq == before.head_seq + 1 && after.snapshot_seq == before.snapshot_seq
                        && done.rows.lease == origin.lease)
                    ||| (rows.main matches Some(main) && main.session matches Some(before)
                        && rows.agent->0.main_session is Some && before.state == SessionState::Idle
                        && after.session_id == before.session_id && after.agent_id == before.agent_id
                        && after.head_seq == before.head_seq + 1 && after.snapshot_seq == before.snapshot_seq
                        && done.rows.lease == main.lease)
                },
                Some((_, agent)) => {
                    &&& rows.agent->0.main_session is None && agent.main_session == Some(fresh)
                    &&& agent.agent_id == rows.agent->0.agent_id && agent.name@ == rows.agent->0.name@
                    &&& after.session_id == fresh && after.agent_id == agent.agent_id
                },
            }
        },
        result matches Ok(Firing::Cancelled(gone)) ==> {
            &&& rows.agent is None && timer is Some
            &&& gone.status == TimerStatus::Cancelled && gone.note@ == timer->0.note@
            &&& gone.timer_id == timer->0.timer_id && gone.agent_id == timer->0.agent_id
            &&& gone.due_at == timer->0.due_at
        },
        timer matches Some(early) ==> (early.due_at.nanos > now.nanos ==> (result matches Ok(
            Firing::Nothing,
        ))),
{
}

/// A timer that is set keeps the note and the due time that were given and waits for them. One that
/// is cancelled changes its status alone, and one that fired can no longer be cancelled.
pub proof fn timers_are_stored_as_set(
    agent: AgentId,
    timer_id: TimerId,
    call: TimerCall,
    pending: usize,
    stored: Option<TimerRecord>,
    outcome: TimerOutcome,
)
    requires
        call_ensures(timer_tool, (agent, timer_id, call, pending, stored), outcome),
    ensures
        outcome matches TimerOutcome::Saved(saved) ==> match call {
            TimerCall::Start(Ok(given)) => {
                &&& saved.due_at == given.0 && saved.note@ == given.1@
                &&& saved.agent_id == agent && saved.timer_id == timer_id
                &&& saved.status == TimerStatus::Pending && pending != MAX_AGENT_TIMERS
            },
            TimerCall::Cancel(Ok(_)) => {
                &&& stored is Some && !(stored->0.status is Fired)
                &&& saved.due_at == stored->0.due_at && saved.note@ == stored->0.note@
                &&& saved.agent_id == stored->0.agent_id && saved.timer_id == stored->0.timer_id
                &&& saved.status == TimerStatus::Cancelled
            },
            _ => false,
        },
        outcome is Shown ==> call is List,
        call matches TimerCall::Start(Ok(_)) ==> (outcome is Saved <==> pending != MAX_AGENT_TIMERS),
        call matches TimerCall::Cancel(Ok(_)) ==> (outcome is Saved <==> stored is Some && !(
        stored->0.status is Fired)),
{
}

/// A timer tool's call ends behind the head with the tool's own answer: its output under the tool's
/// name, or the words that it was refused with. The session's head moves by one and nothing else of
/// it changes.
pub proof fn timer_calls_end_with_their_answer(
    rows: SessionRows,
    expected_head: u64,
    lease: Lease,
    request_id: RequestId,
    call: ToolCallRecord,
    deleted: bool,
    named: bool,
    output: Result<String, String>,
    now: Timestamp,
    result: StoreResult<(Event, SessionRows)>,
)
    requires
        call_ensures(
            complete_timer_tool,
            (&rows, expected_head, &lease, request_id, &call, deleted, named, output, now),
            result,
        ),
    ensures
        result matches Ok((event, next)) ==> {
            let before = rows.session->0;
            let after = next.session->0;
            &&& rows.session is Some && next.session is Some
            &&& event matches Event::ToolCallCompleted { seq, request_id: request, call_id, result: kept }
                && seq == before.head_seq + 1 && seq == after.head_seq && request == request_id && call_id@
                == call.call_id@ && (named ==> match output {
                Ok(text) => kept matches ToolResult::Completed { title, output: said } && title@
                    == call.tool@ && said@ == text@,
                Err(words) => kept matches ToolResult::Error { error } && error@ == words@,
            }) && (!named ==> kept is Error)
            &&& after.session_id == before.session_id && after.agent_id == before.agent_id
            &&& after.state == before.state && after.snapshot_seq == before.snapshot_seq
            &&& next.lease == rows.lease && next.runnable == rows.runnable
            &&& next.state_since == rows.state_since && next.idle_since == rows.idle_since
            &&& next.interrupt == rows.interrupt
            &&& rows.lease == Some(lease) && lease.expires_at.nanos > now.nanos && !deleted
            &&& before.head_seq == expected_head
        },
{
}

/// A scan for due timers finds a timer's place exactly once its millisecond has come.
pub proof fn due_places_are_found(
    root: Vec<u8>,
    now: Timestamp,
    range: Option<(Vec<u8>, Vec<u8>)>,
    place: TimerPlace,
    key: Vec<u8>,
)
    requires
        root@.len() + 1024 <= u32::MAX,
        now.valid(),
        place.due_at.valid(),
        call_ensures(scan_due_timers, (&root, now, None::<TimerPlace>), range),
        call_ensures(timer_due_key, (&root, &place), key),
    ensures
        range matches Some((begin, end)) ==> {
            &&& place.due_at.nanos <= now.nanos ==> within((begin@, end@), key@)
            &&& now.nanos >= 0 && place.due_at.nanos >= now.nanos + 1_000_000 ==> !within((begin@, end@), key@)
        },
{
    let begin = due_begin(root@, None);
    let end = due_end(root@, now);
    assert(within((begin, end), packed(root@, due_parts(place))) <==> due_millis(place.due_at) <= due_millis(now));
    if place.due_at.nanos <= now.nanos {
        due_timers_are_found(place, now);
    }
    if now.nanos >= 0 && place.due_at.nanos >= now.nanos + 1_000_000 {
        assert(due_millis(place.due_at) > due_millis(now));
    }
}

/// The event that ends a worker's own call names the request and the call and keeps the answer: the
/// output under the tool's name, or the words of the refusal.
pub proof fn worker_calls_keep_their_answer(seq: u64, request_id: RequestId, call: ToolCallRecord, output: Result<String, String>, event: Event)
    requires
        call_ensures(worker_call_event, (seq, request_id, &call, output), event),
    ensures
        event matches Event::ToolCallCompleted { seq: at, request_id: request, call_id, result } && at == seq
            && request == request_id && call_id@ == call.call_id@ && (match output {
            Ok(text) => result matches ToolResult::Completed { title, output: said } && title@ == call.tool@
                && said@ == text@,
            Err(words) => result matches ToolResult::Error { error } && error@ == words@,
        }),
{
}

} // verus!
