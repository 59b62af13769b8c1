//! Session headers, the index rows that follow a session's state, and the state change itself.

use crate::ids::{AgentId, LeaseOwnerId, SessionId};
use crate::time::Timestamp;
use vstd::prelude::*;

verus! {

/// Where a session stands.
#[derive(Clone, Copy, Debug, PartialEq, Eq, Hash, Structural)]
pub enum SessionState {
    Idle,
    Runnable,
    Leased,
    WaitingInference,
    WaitingTools,
    Sleeping,
    Completed,
}

/// A worker's claim on a session. The whole record is the fencing token.
#[derive(Clone, Copy, Debug, PartialEq, Eq, Structural)]
pub struct Lease {
    pub owner: LeaseOwnerId,
    pub expires_at: Timestamp,
    pub seq: u64,
}

/// A session that waits for a worker.
#[derive(Clone, Copy, Debug, PartialEq, Eq, Structural)]
pub struct RunnableEntry {
    pub session_id: SessionId,
    pub priority: i64,
    pub wake_at: Timestamp,
}

/// The stored header of a session.
#[derive(Clone, Copy, Debug, PartialEq, Eq, Structural)]
pub struct StoredSession {
    pub session_id: SessionId,
    pub agent_id: AgentId,
    pub state: SessionState,
    pub head_seq: u64,
    pub snapshot_seq: Option<u64>,
}

/// The rows about one session that a state change reads and writes. A lease stands for the lease
/// row and its place in the expiry index; a runnable entry stands for the lookup row and its place
/// in the partition index.
#[derive(Clone, Copy, Debug, PartialEq, Eq, Structural)]
pub struct SessionRows {
    pub session: Option<StoredSession>,
    pub lease: Option<Lease>,
    pub runnable: Option<RunnableEntry>,
    pub state_since: Option<Timestamp>,
    pub idle_since: Option<Timestamp>,
    pub interrupt: bool,
}

/// The runnable entry that a state change writes.
pub open spec fn entry_at(session: SessionId, now: Timestamp) -> RunnableEntry {
    RunnableEntry { session_id: session, priority: 0, wake_at: now }
}

/// Rows after `session` took `state`. Leaving Leased drops the lease, leaving Runnable drops the
/// runnable entry, and entering Runnable writes a new one.
pub open spec fn transitioned(
    rows: SessionRows,
    session: StoredSession,
    state: SessionState,
    now: Timestamp,
) -> SessionRows {
    SessionRows {
        session: Some(StoredSession { state, ..session }),
        lease: if session.state == SessionState::Leased {
            None
        } else {
            rows.lease
        },
        runnable: if state == SessionState::Runnable {
            Some(entry_at(session.session_id, now))
        } else if session.state == SessionState::Runnable {
            None
        } else {
            rows.runnable
        },
        state_since: Some(now),
        idle_since: if state == SessionState::Idle {
            Some(now)
        } else {
            rows.idle_since
        },
        interrupt: rows.interrupt,
    }
}

/// Moves `session` to `state` and updates the index rows with it.
pub fn transition(
    rows: &SessionRows,
    session: StoredSession,
    state: SessionState,
    now: Timestamp,
) -> (next: SessionRows)
    ensures
        next == transitioned(*rows, session, state, now),
{
    let mut next = *rows;
    match session.state {
        SessionState::Leased => {
            next.lease = None;
        },
        SessionState::Runnable => {
            next.runnable = None;
        },
        _ => {},
    }
    if state == SessionState::Idle {
        next.idle_since = Some(now);
    }
    next.state_since = Some(now);
    if state == SessionState::Runnable {
        next.runnable = Some(
            RunnableEntry { session_id: session.session_id, priority: 0, wake_at: now },
        );
    }
    next.session = Some(StoredSession { state, ..session });
    next
}

/// Index ownership follows the state: a session has a lease exactly while it is Leased and a
/// runnable entry, under its own id, exactly while it is Runnable.
pub open spec fn indexed(rows: SessionRows) -> bool {
    match rows.session {
        Some(session) => {
            &&& rows.lease is Some <==> session.state == SessionState::Leased
            &&& rows.runnable is Some <==> session.state == SessionState::Runnable
            &&& rows.runnable matches Some(entry) ==> entry.session_id == session.session_id
        },
        None => rows.lease is None && rows.runnable is None,
    }
}

/// A state change other than to Leased keeps index ownership.
pub proof fn transitions_keep_indexes(
    rows: SessionRows,
    session: StoredSession,
    state: SessionState,
    now: Timestamp,
)
    requires
        indexed(rows),
        rows.session matches Some(current) && current.state == session.state && current.session_id
            == session.session_id,
        state != SessionState::Leased,
    ensures
        indexed(transitioned(rows, session, state, now)),
{
}

/// A state change moves nothing but the state: the header keeps its ids, head and snapshot, and
/// the rows keep their mark of an interruption. The session has been in its state since then.
pub proof fn transitions_change_the_state_alone(
    rows: SessionRows,
    session: StoredSession,
    state: SessionState,
    now: Timestamp,
    next: SessionRows,
)
    requires
        call_ensures(transition, (&rows, session, state, now), next),
    ensures
        next.session matches Some(after) && {
            &&& after.state == state
            &&& after.session_id == session.session_id
            &&& after.agent_id == session.agent_id
            &&& after.head_seq == session.head_seq
            &&& after.snapshot_seq == session.snapshot_seq
        },
        next.interrupt == rows.interrupt,
        next.state_since == Some(now),
        next.idle_since == Some(now) || state != SessionState::Idle && next.idle_since == rows.idle_since,
{
}

/// A session that becomes Runnable waits at the front from that moment on; leaving Runnable takes it
/// out of the queue, leaving Leased gives up the lease, and every other row stays as it was.
pub proof fn transitions_move_the_indexes(
    rows: SessionRows,
    session: StoredSession,
    state: SessionState,
    now: Timestamp,
    next: SessionRows,
)
    requires
        call_ensures(transition, (&rows, session, state, now), next),
    ensures
        session.state == SessionState::Leased ==> next.lease is None,
        session.state != SessionState::Leased ==> next.lease == rows.lease,
        state == SessionState::Runnable ==> (next.runnable matches Some(entry) && entry.session_id
            == session.session_id && entry.wake_at == now && entry.priority == 0),
        state != SessionState::Runnable && session.state == SessionState::Runnable
            ==> next.runnable is None,
        state != SessionState::Runnable && session.state != SessionState::Runnable ==> next.runnable
            == rows.runnable,
        state == SessionState::Idle ==> next.idle_since == Some(now),
{
}

} // verus!
