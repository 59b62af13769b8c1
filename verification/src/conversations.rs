//! Main conversations of agents, their archival by summary, and the closing of sessions.

use crate::agents::{same_identity, same_inference, AgentRecord, AgentView, ImageRecord};
use crate::error::{StoreError, StoreResult};
use crate::events::{
    message_views_are_whole, same_message, Event, EventBody, EventView, Message, MessageRole,
};
use crate::ids::SessionId;
use crate::leases::{check_worker_lease, holds};
use crate::placements::{
    check_computer, release_deleted_computer, used, PlacementRows,
};
use crate::session::{
    indexed, transition, transitioned, Lease, SessionRows, SessionState, StoredSession,
};
use crate::sessions::{
    create_session_in, idle_session, started, CreatedSession, CreationRows, NewSession, SessionKind,
};
use crate::time::{moved, Duration, Timestamp};
use vstd::prelude::*;

verus! {

fn copy_image(image: &ImageRecord) -> (copy: ImageRecord)
    ensures
        copy@ == image@,
{
    ImageRecord {
        name: image.name.clone(),
        tag: image.tag.clone(),
        manifest_id: image.manifest_id,
    }
}

/// Whether a session was made as an agent's conversation: idle, on the agent's pinned image.
pub open spec fn starts_for(created: CreatedSession, agent: AgentView, id: SessionId, now: Timestamp) -> bool {
    &&& created.rows == started(
        idle_session(id, agent.agent_id, SessionKind::Named { agent_id: agent.agent_id }),
        now,
    )
    &&& created.image@ == agent.image
    &&& created.computer_memory is None
}

/// Makes an idle conversation of an agent.
fn create_conversation(agent: &AgentRecord, deleted: bool, exists_already: bool, id: SessionId, now: Timestamp) -> (result: StoreResult<CreatedSession>)
    ensures
        if exists_already {
            result matches Err(error) && error == StoreError::SessionExists
        } else if deleted {
            result matches Err(error) && error == StoreError::ComputerDeleted
        } else {
            result matches Ok(created) && starts_for(created, agent@, id, now)
        },
{
    let session = NewSession {
        session_id: id,
        agent_id: agent.agent_id,
        kind: SessionKind::Named { agent_id: agent.agent_id },
        state: SessionState::Idle,
        head_seq: 0,
        has_snapshot: false,
        computer_deleted: false,
        interrupt_requested: false,
    };
    let rows = CreationRows {
        session_exists: exists_already,
        computer_deleted: deleted,
        agent_known: true,
        agent_image: Some(copy_image(&agent.image)),
        manifest: None,
        image_memory: None,
        plan_valid: true,
    };
    create_session_in(&session, &None, rows, now)
}

/// An agent with another main conversation.
pub open spec fn with_main(agent: AgentView, id: SessionId) -> AgentView {
    AgentView { main_session: Some(id), ..agent }
}

/// Makes the main conversation of an agent that has none.
pub fn create_main(agent: AgentRecord, deleted: bool, exists_already: bool, id: SessionId, now: Timestamp) -> (result: StoreResult<(CreatedSession, AgentRecord)>)
    ensures
        if exists_already {
            result matches Err(error) && error == StoreError::SessionExists
        } else if deleted {
            result matches Err(error) && error == StoreError::ComputerDeleted
        } else {
            &&& result matches Ok((created, after))
            &&& starts_for(created, agent@, id, now)
            &&& after@ == with_main(agent@, id)
        },
{
    let created = create_conversation(&agent, deleted, exists_already, id, now)?;
    let mut after = agent;
    after.main_session = Some(id);
    Ok((created, after))
}

/// How a main conversation was opened.
pub enum OpenedMain {
    /// It was there before.
    Existing(SessionId),
    /// It is made now, and the agent points to it.
    Created(CreatedSession, AgentRecord),
}

/// Opens the main conversation of an agent, making it under `id` when there is none.
pub fn open_main_session(
    agent: Option<AgentRecord>,
    deleted: bool,
    exists_already: bool,
    id: SessionId,
    now: Timestamp,
) -> (result: StoreResult<OpenedMain>)
    ensures
        match agent {
            None => result matches Err(error) && error == StoreError::AgentMissing,
            Some(before) => if deleted {
                result matches Err(error) && error == StoreError::ComputerDeleted
            } else {
                match before.main_session {
                    Some(main) => result matches Ok(OpenedMain::Existing(found)) && found == main,
                    None => if exists_already {
                        result matches Err(error) && error == StoreError::SessionExists
                    } else {
                        &&& result matches Ok(OpenedMain::Created(created, after))
                        &&& starts_for(created, before@, id, now)
                        &&& after@ == with_main(before@, id)
                    },
                }
            },
        },
{
    let record = match agent {
        Some(record) => record,
        None => {
            return Err(StoreError::AgentMissing);
        },
    };
    check_computer(deleted)?;
    if let Some(main) = record.main_session {
        return Ok(OpenedMain::Existing(main));
    }
    let (created, after) = create_main(record, deleted, exists_already, id, now)?;
    Ok(OpenedMain::Created(created, after))
}

/// Whether a session may be an agent's main conversation: its own, and not completed.
pub open spec fn may_be_main(agent: AgentView, session: StoredSession, kind: SessionKind) -> bool {
    &&& session.agent_id == agent.agent_id
    &&& kind == (SessionKind::Named { agent_id: agent.agent_id })
    &&& session.state != SessionState::Completed
}

/// Points an agent to another of its open sessions.
pub fn set_main_session(
    agent: Option<AgentRecord>,
    session: &Option<StoredSession>,
    kind: SessionKind,
    deleted: bool,
) -> (result: StoreResult<AgentRecord>)
    ensures
        match agent {
            None => result matches Err(error) && error == StoreError::AgentMissing,
            Some(before) => match *session {
                None => result matches Err(error) && error == StoreError::SessionMissing,
                Some(found) => if deleted {
                    result matches Err(error) && error == StoreError::ComputerDeleted
                } else if may_be_main(before@, found, kind) {
                    result matches Ok(after) && after@ == with_main(before@, found.session_id)
                } else {
                    result matches Err(error) && error == StoreError::InvalidMainSession
                },
            },
        },
{
    let mut record = match agent {
        Some(record) => record,
        None => {
            return Err(StoreError::AgentMissing);
        },
    };
    let found = match session {
        Some(found) => *found,
        None => {
            return Err(StoreError::SessionMissing);
        },
    };
    check_computer(deleted)?;
    if found.agent_id != record.agent_id || kind != (SessionKind::Named {
        agent_id: record.agent_id,
    }) || found.state == SessionState::Completed {
        return Err(StoreError::InvalidMainSession);
    }
    record.main_session = Some(found.session_id);
    Ok(record)
}

/// What a summary writes.
pub struct Summarized {
    /// The archived conversation.
    pub archived: SessionRows,
    /// The last event of the archived conversation.
    pub archived_event: Event,
    /// The new conversation.
    pub created: CreatedSession,
    /// The first event of the new conversation.
    pub opening_event: Event,
    pub agent: AgentRecord,
    /// The link from the archived conversation to the one that follows it.
    pub next: (SessionId, SessionId),
    /// The link from the new conversation to the one it follows.
    pub previous: (SessionId, SessionId),
}

/// The event that ends an archived conversation.
pub open spec fn archived_at(seq: u64) -> EventView {
    EventView {
        seq,
        body: EventBody::StateChanged { from: SessionState::Leased, to: SessionState::Completed },
    }
}

/// Rows of an archived conversation.
pub open spec fn archived_rows(rows: SessionRows, head: u64, now: Timestamp) -> SessionRows {
    transitioned(
        rows,
        StoredSession { head_seq: head, ..rows.session->0 },
        SessionState::Completed,
        now,
    )
}

/// Rows of a conversation that opens with one event.
pub open spec fn opened_rows(rows: SessionRows) -> SessionRows {
    SessionRows { session: Some(StoredSession { head_seq: 1, ..rows.session->0 }), ..rows }
}

/// Replaces a leased main conversation by a fresh one that opens with a summary. Archival, the new
/// conversation, the links between the two and the pointer go together.
pub fn summarize_main_session(
    rows: &SessionRows,
    agent: Option<AgentRecord>,
    deleted: bool,
    exists_already: bool,
    expected_head: u64,
    lease: &Lease,
    opening: Message,
    id: SessionId,
    now: Timestamp,
) -> (result: StoreResult<Summarized>)
    ensures
        if opening.role != MessageRole::System {
            result matches Err(error) && error == StoreError::InvalidState
        } else if expected_head == u64::MAX {
            result matches Err(error) && error == StoreError::SequenceOverflow
        } else if !holds(*rows, *lease, now) {
            result matches Err(error) && error == if rows.lease == Some(*lease) && rows.session
                is None {
                StoreError::SessionMissing
            } else {
                StoreError::LeaseMismatch
            }
        } else if rows.session->0.head_seq != expected_head {
            result matches Err(error) && error == (StoreError::StaleSequence {
                expected: expected_head,
                actual: rows.session->0.head_seq,
            })
        } else {
            match agent {
                None => result matches Err(error) && error == StoreError::AgentMissing,
                Some(before) => if before.main_session != Some(rows.session->0.session_id) {
                    result matches Err(error) && error == StoreError::InvalidMainSession
                } else if exists_already {
                    result matches Err(error) && error == StoreError::SessionExists
                } else if deleted {
                    result matches Err(error) && error == StoreError::ComputerDeleted
                } else {
                    let head = (expected_head + 1) as u64;
                    let fresh = started(
                        idle_session(
                            id,
                            before.agent_id,
                            SessionKind::Named { agent_id: before.agent_id },
                        ),
                        now,
                    );
                    &&& result matches Ok(done)
                    &&& done.archived == archived_rows(*rows, head, now)
                    &&& done.archived_event@ == archived_at(head)
                    &&& done.created.rows == opened_rows(fresh)
                    &&& done.created.image@ == before@.image
                    &&& done.created.computer_memory is None
                    &&& done.opening_event@ == (EventView {
                        seq: 1,
                        body: EventBody::MessageAppended { message: opening@ },
                    })
                    &&& done.agent@ == with_main(before@, id)
                    &&& done.next == (rows.session->0.session_id, id)
                    &&& done.previous == (id, rows.session->0.session_id)
                },
            }
        },
{
    if opening.role != MessageRole::System {
        return Err(StoreError::InvalidState);
    }
    let opening_event = Event::MessageAppended { seq: 1, message: opening };
    let head: u64 = match expected_head.checked_add(1) {
        Some(head) => head,
        None => {
            return Err(StoreError::SequenceOverflow);
        },
    };
    let previous = check_worker_lease(rows, lease, now)?;
    if previous.head_seq != expected_head {
        return Err(
            StoreError::StaleSequence { expected: expected_head, actual: previous.head_seq },
        );
    }
    let mut record = match agent {
        Some(record) => record,
        None => {
            return Err(StoreError::AgentMissing);
        },
    };
    match record.main_session {
        Some(main) if main == previous.session_id => {},
        _ => {
            return Err(StoreError::InvalidMainSession);
        },
    }
    let mut created = create_conversation(&record, deleted, exists_already, id, now)?;
    if let Some(fresh) = created.rows.session {
        created.rows.session = Some(StoredSession { head_seq: 1, ..fresh });
    }
    let archived = transition(
        rows,
        StoredSession { head_seq: head, ..previous },
        SessionState::Completed,
        now,
    );
    let archived_event = Event::StateChanged {
        seq: head,
        from: SessionState::Leased,
        to: SessionState::Completed,
    };
    record.main_session = Some(id);
    Ok(
        Summarized {
            archived,
            archived_event,
            created,
            opening_event,
            agent: record,
            next: (previous.session_id, id),
            previous: (id, previous.session_id),
        },
    )
}

/// A summary ends the old conversation for good, whoever still holds its lease, and leaves an open
/// conversation of the same agent as the main one.
pub proof fn summaries_hand_over(rows: SessionRows, agent: AgentView, lease: Lease, head: u64, id: SessionId, now: Timestamp, later: Timestamp)
    requires
        holds(rows, lease, now),
        rows.session->0.agent_id == agent.agent_id,
    ensures
        !holds(archived_rows(rows, head, now), lease, later),
        archived_rows(rows, head, now).session->0.state == SessionState::Completed,
        ({
            let kind = SessionKind::Named { agent_id: agent.agent_id };
            let fresh = opened_rows(started(idle_session(id, agent.agent_id, kind), now));
            may_be_main(with_main(agent, id), fresh.session->0, kind) && indexed(fresh)
        }),
{
}

// ---------------------------------------------------------------------------------------------
// Closing
// ---------------------------------------------------------------------------------------------

/// What closing a session writes.
pub struct Closed {
    pub rows: SessionRows,
    /// The rows of the computer that goes with an ephemeral session, and what is left of its
    /// node's count. Its disk and snapshots go too.
    pub computer: Option<(PlacementRows, Option<u32>)>,
}

/// Whether deleting a computer finds a node that counts nothing.
pub open spec fn miscounted(placement: PlacementRows, count: Option<u32>) -> bool {
    placement.placement is Some && used(count) == 0
}

/// The rows of a deleted computer and what is left of its node's count.
pub open spec fn deleted_computer(placement: PlacementRows, count: Option<u32>) -> (PlacementRows, Option<u32>) {
    (
        PlacementRows { placement: None, deleted: true, ..placement },
        if placement.placement is Some {
            Some((used(count) - 1) as u32)
        } else {
            None
        },
    )
}

/// Whether closing a session would end its agent's main conversation.
pub open spec fn is_main(session: StoredSession, kind: SessionKind, main: Option<SessionId>) -> bool {
    kind is Named && main == Some(session.session_id)
}

/// Closes a session. An ephemeral one takes its computer with it; the main conversation of an
/// agent stays open. `main` is the main conversation of the agent that the session is named for.
pub fn close_session(
    rows: &SessionRows,
    kind: SessionKind,
    main: Option<SessionId>,
    placement: &PlacementRows,
    count: &Option<u32>,
    now: Timestamp,
) -> (result: StoreResult<Closed>)
    ensures
        match rows.session {
            None => result matches Err(error) && error == StoreError::SessionMissing,
            Some(session) => if kind is Ephemeral && miscounted(*placement, *count) {
                result matches Err(error) && error == StoreError::Corrupt
            } else if is_main(session, kind, main) {
                result matches Err(error) && error == StoreError::MainSessionClose
            } else {
                &&& result matches Ok(closed)
                &&& closed.rows == transitioned(*rows, session, SessionState::Completed, now)
                &&& closed.computer == if kind is Ephemeral {
                    Some(deleted_computer(*placement, *count))
                } else {
                    None
                }
            },
        },
{
    let session = match rows.session {
        Some(session) => session,
        None => {
            return Err(StoreError::SessionMissing);
        },
    };
    let computer = match kind {
        SessionKind::Ephemeral => {
            let done = release_deleted_computer(placement, count)?;
            Some(done)
        },
        SessionKind::Named { .. } => {
            if let Some(main) = main {
                if main == session.session_id {
                    return Err(StoreError::MainSessionClose);
                }
            }
            None
        },
    };
    let next = transition(rows, session, SessionState::Completed, now);
    Ok(Closed { rows: next, computer })
}

/// The moment before which idle sessions are too old.
pub fn sweep_cutoff(now: Timestamp, retention: Duration) -> (result: StoreResult<Timestamp>)
    ensures
        match moved(now.nanos as int, -retention.nanos) {
            Some(cutoff) => result == Ok::<Timestamp, StoreError>(cutoff),
            None => result matches Err(error) && error == StoreError::InvalidState,
        },
{
    match now.checked_sub(retention) {
        Some(cutoff) => Ok(cutoff),
        None => Err(StoreError::InvalidState),
    }
}

/// Sessions of a page that a sweep looks at: the idle ones, in order.
pub open spec fn idle_sessions(page: Seq<StoredSession>) -> Seq<SessionId>
    decreases page.len(),
{
    if page.len() == 0 {
        Seq::empty()
    } else if page.last().state == SessionState::Idle {
        idle_sessions(page.drop_last()).push(page.last().session_id)
    } else {
        idle_sessions(page.drop_last())
    }
}

/// The idle sessions of a page, and the cursor after it.
pub fn sweep_page(page: &Vec<StoredSession>) -> (found: (Vec<SessionId>, Option<SessionId>))
    ensures
        found.0@ == idle_sessions(page@),
        found.1 == if page@.len() == 0 {
            None
        } else {
            Some(page@.last().session_id)
        },
{
    let mut idle: Vec<SessionId> = Vec::new();
    let mut cursor: Option<SessionId> = None;
    let mut i: usize = 0;
    while i < page.len()
        invariant
            i <= page.len(),
            idle@ == idle_sessions(page@.take(i as int)),
            cursor == if i == 0 {
                None
            } else {
                Some(page@[i - 1].session_id)
            },
        decreases page.len() - i,
    {
        assert(page@.take(i + 1).drop_last() =~= page@.take(i as int));
        cursor = Some(page[i].session_id);
        if page[i].state == SessionState::Idle {
            idle.push(page[i].session_id);
        }
        i += 1;
    }
    assert(page@.take(i as int) =~= page@);
    (idle, cursor)
}

/// What a sweep does with one session.
pub enum Sweep {
    /// It is in use, or not a session that expires, or not old enough.
    Keep,
    /// Its idle time starts now, because none was noted.
    StartClock(SessionRows),
    /// It is closed.
    Close(Closed),
}

/// Whether a sweep may touch a session: an idle one on a computer of its own.
pub open spec fn sweepable(rows: SessionRows, kind: SessionKind, placement: PlacementRows) -> bool {
    &&& rows.session matches Some(session) && session.state == SessionState::Idle
    &&& kind == SessionKind::Ephemeral
    &&& !placement.deleted
}

/// Sweeps one session. What a scan saw may have changed, so everything is looked at again.
pub fn sweep_session(
    rows: &SessionRows,
    kind: SessionKind,
    placement: &PlacementRows,
    count: &Option<u32>,
    cutoff: Timestamp,
    now: Timestamp,
) -> (result: StoreResult<Sweep>)
    ensures
        match rows.session {
            None => result matches Err(error) && error == StoreError::SessionMissing,
            Some(session) => if !sweepable(*rows, kind, *placement) {
                result matches Ok(Sweep::Keep)
            } else {
                match rows.idle_since {
                    None => result matches Ok(Sweep::StartClock(next)) && next == (SessionRows {
                        idle_since: Some(now),
                        ..*rows
                    }),
                    Some(since) => if since.nanos >= cutoff.nanos {
                        result matches Ok(Sweep::Keep)
                    } else if miscounted(*placement, *count) {
                        result matches Err(error) && error == StoreError::Corrupt
                    } else {
                        &&& result matches Ok(Sweep::Close(closed))
                        &&& closed.rows == transitioned(
                            *rows,
                            session,
                            SessionState::Completed,
                            now,
                        )
                        &&& closed.computer == Some(deleted_computer(*placement, *count))
                    },
                }
            },
        },
{
    let session = match rows.session {
        Some(session) => session,
        None => {
            return Err(StoreError::SessionMissing);
        },
    };
    if session.state != SessionState::Idle || kind != SessionKind::Ephemeral || placement.deleted {
        return Ok(Sweep::Keep);
    }
    match rows.idle_since {
        None => Ok(Sweep::StartClock(SessionRows { idle_since: Some(now), ..*rows })),
        Some(since) => {
            if since.nanos >= cutoff.nanos {
                return Ok(Sweep::Keep);
            }
            let closed = close_session(rows, kind, None, placement, count, now)?;
            Ok(Sweep::Close(closed))
        },
    }
}

/// A session that was closed is not swept again, and its computer is never placed or swept again.
pub proof fn closed_sessions_stay_closed(rows: SessionRows, session: StoredSession, placement: PlacementRows, count: Option<u32>, now: Timestamp)
    ensures
        !sweepable(
            transitioned(rows, session, SessionState::Completed, now),
            SessionKind::Ephemeral,
            placement,
        ),
        deleted_computer(placement, count).0.deleted,
        deleted_computer(placement, count).0.placement is None,
{
}

/// Checks that a session's computer can still run tools.
pub fn ensure_session_computer(session: &Option<StoredSession>, deleted: bool) -> (result: StoreResult<()>)
    ensures
        match result {
            Ok(_) => *session is Some && !deleted,
            Err(error) => if *session is None {
                error == StoreError::SessionMissing
            } else {
                deleted && error == StoreError::ComputerDeleted
            },
        },
{
    if session.is_none() {
        return Err(StoreError::SessionMissing);
    }
    check_computer(deleted)
}

/// A new main conversation is an idle, empty session of the agent under the given id, with the
/// agent's image. The agent then points to it, and is otherwise unchanged.
pub proof fn main_conversations_start_empty(
    agent: AgentRecord,
    deleted: bool,
    exists_already: bool,
    id: SessionId,
    now: Timestamp,
    result: StoreResult<(CreatedSession, AgentRecord)>,
)
    requires
        call_ensures(create_main, (agent, deleted, exists_already, id, now), result),
    ensures
        result is Ok <==> !exists_already && !deleted,
        result matches Ok((created, after)) ==> {
            let header = created.rows.session->0;
            &&& created.rows.session is Some && header.session_id == id && header.agent_id == agent.agent_id
            &&& header.state == SessionState::Idle && header.head_seq == 0 && header.snapshot_seq is None
            &&& created.rows.lease is None && created.rows.runnable is None && !created.rows.interrupt
            &&& created.rows.idle_since == Some(now) && created.computer_memory is None
            &&& created.image.name@ == agent.image.name@ && created.image.tag@ == agent.image.tag@
            &&& created.image.manifest_id == agent.image.manifest_id
            &&& after.main_session == Some(id) && same_identity(agent, after) && same_inference(agent, after)
            &&& after.requirements == agent.requirements
        },
{
}

/// An agent's main conversation is opened, never replaced: the one that the agent points to where
/// there is one, else a new one under the given id.
pub proof fn main_conversations_are_opened_once(
    agent: Option<AgentRecord>,
    deleted: bool,
    exists_already: bool,
    id: SessionId,
    now: Timestamp,
    result: StoreResult<OpenedMain>,
)
    requires
        call_ensures(open_main_session, (agent, deleted, exists_already, id, now), result),
    ensures
        result matches Ok(OpenedMain::Existing(found)) ==> agent is Some && agent->0.main_session == Some(
            found,
        ) && !deleted,
        result matches Ok(OpenedMain::Created(created, after)) ==> {
            let before = agent->0;
            let header = created.rows.session->0;
            &&& agent is Some && before.main_session is None && !exists_already && !deleted
            &&& after.main_session == Some(id) && same_identity(before, after) && same_inference(before, after)
            &&& after.requirements == before.requirements
            &&& created.rows.session is Some && header.session_id == id && header.agent_id == before.agent_id
            &&& header.state == SessionState::Idle && header.head_seq == 0
        },
        agent is Some && !deleted && agent->0.main_session is Some ==> result is Ok,
{
}

/// A session becomes the main conversation only of its own agent, and only while it is not
/// completed; nothing else of the agent changes.
pub proof fn main_conversations_are_chosen(
    agent: Option<AgentRecord>,
    session: Option<StoredSession>,
    kind: SessionKind,
    deleted: bool,
    result: StoreResult<AgentRecord>,
)
    requires
        call_ensures(set_main_session, (agent, &session, kind, deleted), result),
    ensures
        result matches Ok(after) ==> {
            let before = agent->0;
            &&& agent is Some && session is Some && !deleted
            &&& after.main_session == Some(session->0.session_id)
            &&& same_identity(before, after) && same_inference(before, after)
            &&& after.requirements == before.requirements
            &&& session->0.agent_id == before.agent_id && session->0.state != SessionState::Completed
            &&& kind matches SessionKind::Named { agent_id } && agent_id == before.agent_id
        },
{
}

/// A summary ends the old conversation at one state change behind its head and opens a new one at
/// its first event, the opening message word for word. The agent points to the new one, and each of
/// the two points to the other.
pub proof fn summaries_open_with_the_message(
    rows: SessionRows,
    agent: Option<AgentRecord>,
    deleted: bool,
    exists_already: bool,
    expected_head: u64,
    lease: Lease,
    opening: Message,
    id: SessionId,
    now: Timestamp,
    result: StoreResult<Summarized>,
)
    requires
        call_ensures(
            summarize_main_session,
            (&rows, agent, deleted, exists_already, expected_head, &lease, opening, id, now),
            result,
        ),
    ensures
        result matches Ok(done) ==> {
            let before = rows.session->0;
            let old = done.archived.session->0;
            let new = done.created.rows.session->0;
            &&& rows.session is Some && rows.lease == Some(lease) && lease.expires_at.nanos > now.nanos
            &&& before.head_seq == expected_head && opening.role == MessageRole::System
            &&& agent is Some && agent->0.main_session == Some(before.session_id)
            &&& done.archived.session is Some && old.state == SessionState::Completed
            &&& old.session_id == before.session_id && old.agent_id == before.agent_id
            &&& old.snapshot_seq == before.snapshot_seq && old.head_seq == before.head_seq + 1
            &&& done.archived.lease is None && done.archived.state_since == Some(now)
            &&& done.archived_event matches Event::StateChanged { seq, from, to } && seq == old.head_seq && from
                == SessionState::Leased && to == SessionState::Completed
            &&& done.created.rows.session is Some && new.session_id == id && new.agent_id == agent->0.agent_id
            &&& new.state == SessionState::Idle && new.snapshot_seq is None
            &&& done.opening_event matches Event::MessageAppended { seq, message } && seq == 1 && seq
                == new.head_seq && same_message(message, opening)
            &&& done.created.image.manifest_id == agent->0.image.manifest_id
            &&& done.created.computer_memory is None && done.created.rows.lease is None
            &&& done.agent.main_session == Some(id) && same_identity(agent->0, done.agent)
            &&& same_inference(agent->0, done.agent) && done.agent.requirements == agent->0.requirements
            &&& done.next == (before.session_id, id) && done.previous == (id, before.session_id)
        },
{
    if let Ok(done) = result {
        if let Event::MessageAppended { seq, message } = done.opening_event {
            message_views_are_whole(message, opening);
        }
    }
}

/// A closed session is completed, with its head, its snapshot and its ids as they were. An ephemeral
/// one takes its computer with it and frees its place; a named agent's computer stays. No main
/// conversation is closed.
pub proof fn closing_completes_the_session(
    rows: SessionRows,
    kind: SessionKind,
    main: Option<SessionId>,
    placement: PlacementRows,
    count: Option<u32>,
    now: Timestamp,
    result: StoreResult<Closed>,
)
    requires
        call_ensures(close_session, (&rows, kind, main, &placement, &count, now), result),
    ensures
        result matches Ok(closed) ==> {
            let before = rows.session->0;
            let after = closed.rows.session->0;
            &&& rows.session is Some && after.state == SessionState::Completed
            &&& after.session_id == before.session_id && after.agent_id == before.agent_id
            &&& after.head_seq == before.head_seq && after.snapshot_seq == before.snapshot_seq
            &&& before.state == SessionState::Leased ==> closed.rows.lease is None
            &&& before.state == SessionState::Runnable ==> closed.rows.runnable is None
            &&& kind is Named ==> closed.computer is None && main != Some(before.session_id)
            &&& kind is Ephemeral ==> (closed.computer matches Some((gone, left)) && gone.deleted
                && gone.placement is None && gone.epoch == placement.epoch && (placement.placement is None
                ==> left is None) && (placement.placement is Some ==> left is Some && count is Some
                && left->0 + 1 == count->0))
        },
        kind is Named && rows.session is Some && main == Some(rows.session->0.session_id) ==> (
        result matches Err(error) && error == StoreError::MainSessionClose),
{
}

/// A sweep closes only ephemeral sessions that have been idle since before the cutoff. One whose
/// idle time is not known starts its clock then, and nothing else of it changes.
pub proof fn sweeps_close_what_idled_long(
    rows: SessionRows,
    kind: SessionKind,
    placement: PlacementRows,
    count: Option<u32>,
    cutoff: Timestamp,
    now: Timestamp,
    result: StoreResult<Sweep>,
)
    requires
        call_ensures(sweep_session, (&rows, kind, &placement, &count, cutoff, now), result),
    ensures
        result matches Ok(Sweep::Close(closed)) ==> {
            let before = rows.session->0;
            let after = closed.rows.session->0;
            &&& rows.session is Some && before.state == SessionState::Idle && kind is Ephemeral
            &&& !placement.deleted
            &&& rows.idle_since matches Some(since) && since.nanos < cutoff.nanos
            &&& after.state == SessionState::Completed && after.session_id == before.session_id
            &&& after.head_seq == before.head_seq && after.agent_id == before.agent_id
            &&& closed.computer matches Some((gone, _)) && gone.deleted && gone.placement is None
        },
        result matches Ok(Sweep::StartClock(next)) ==> {
            &&& rows.idle_since is None && next.idle_since == Some(now)
            &&& next.session == rows.session && next.lease == rows.lease && next.runnable == rows.runnable
            &&& next.state_since == rows.state_since && next.interrupt == rows.interrupt
        },
        kind is Named && rows.session is Some ==> (result matches Ok(Sweep::Keep)),
        rows.idle_since matches Some(since) ==> (since.nanos >= cutoff.nanos && rows.session is Some ==> (
        result matches Ok(Sweep::Keep))),
{
}

/// The cutoff of a sweep lies exactly one retention before now.
pub proof fn cutoffs_lie_one_retention_back(now: Timestamp, retention: Duration, result: StoreResult<Timestamp>)
    requires
        call_ensures(sweep_cutoff, (now, retention), result),
    ensures
        result matches Ok(cutoff) ==> cutoff.nanos + retention.nanos == now.nanos,
{
}

/// A sweep looks at the idle sessions of a page, all of them and in order, and goes on behind the
/// last session of the page.
pub proof fn sweeps_look_at_idle_sessions(page: Vec<StoredSession>, found: (Vec<SessionId>, Option<SessionId>))
    requires
        call_ensures(sweep_page, (&page,), found),
    ensures
        page@.len() == 0 ==> found.0@.len() == 0 && found.1 is None,
        page@.len() > 0 ==> found.1 == Some(page@[page@.len() - 1].session_id),
        found.0@.len() <= page@.len(),
        forall|i: int|
            0 <= i < page@.len() && (#[trigger] page@[i]).state == SessionState::Idle ==> found.0@.contains(
                page@[i].session_id,
            ),
        forall|k: int|
            0 <= k < found.0@.len() ==> idles_in(page@, #[trigger] found.0@[k]),
{
    idle_sessions_are_those(page@);
}

/// Whether a page holds this session, idle.
pub open spec fn idles_in(page: Seq<StoredSession>, id: SessionId) -> bool {
    exists|i: int| 0 <= i < page.len() && (#[trigger] page[i]).session_id == id && page[i].state == SessionState::Idle
}

proof fn idle_sessions_are_those(page: Seq<StoredSession>)
    ensures
        idle_sessions(page).len() <= page.len(),
        forall|i: int|
            0 <= i < page.len() && (#[trigger] page[i]).state == SessionState::Idle ==> idle_sessions(page).contains(
                page[i].session_id,
            ),
        forall|k: int| 0 <= k < idle_sessions(page).len() ==> idles_in(page, #[trigger] idle_sessions(page)[k]),
    decreases page.len(),
{
    if page.len() > 0 {
        let rest = page.drop_last();
        idle_sessions_are_those(rest);
        let before = idle_sessions(rest);
        let all = idle_sessions(page);
        assert forall|i: int| 0 <= i < page.len() && (#[trigger] page[i]).state == SessionState::Idle implies all.contains(
            page[i].session_id,
        ) by {
            if i < rest.len() {
                assert(rest[i] == page[i]);
                let k = choose|k: int| 0 <= k < before.len() && before[k] == page[i].session_id;
                assert(all[k] == page[i].session_id);
            } else {
                assert(all[all.len() - 1] == page[i].session_id);
            }
        }
        assert forall|k: int| 0 <= k < all.len() implies idles_in(page, #[trigger] all[k]) by {
            if k < before.len() {
                assert(all[k] == before[k]);
                assert(idles_in(rest, before[k]));
                let i = choose|i: int|
                    0 <= i < rest.len() && (#[trigger] rest[i]).session_id == before[k] && rest[i].state
                        == SessionState::Idle;
                assert(page[i] == rest[i]);
            } else {
                assert(page[page.len() - 1].session_id == all[k]);
            }
        }
    }
}

/// A session's computer may be used while the session is there and the computer is not deleted.
pub proof fn computers_are_used_until_deleted(session: Option<StoredSession>, deleted: bool, result: StoreResult<()>)
    requires
        call_ensures(ensure_session_computer, (&session, deleted), result),
    ensures
        result is Ok <==> session is Some && !deleted,
{
}

} // verus!
