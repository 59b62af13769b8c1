//! Worker leases: claiming, renewing, releasing and reaping, fenced by the whole lease record.

use crate::error::{StoreError, StoreResult};
use crate::ids::LeaseOwnerId;
use crate::session::{
    indexed, transition, transitioned, Lease, RunnableEntry, SessionRows, SessionState,
    StoredSession,
};
use crate::time::Timestamp;
use vstd::prelude::*;

verus! {

/// Whether `lease` is the stored lease of a Leased session and has not expired.
pub open spec fn holds(rows: SessionRows, lease: Lease, now: Timestamp) -> bool {
    &&& rows.lease == Some(lease)
    &&& lease.expires_at.nanos > now.nanos
    &&& rows.session matches Some(session) && session.state == SessionState::Leased
}

/// Wakes an Idle session and returns the state it had. Any other session stays as it is.
pub fn wake_session(rows: &SessionRows, now: Timestamp) -> (result: StoreResult<(SessionState, SessionRows)>)
    ensures
        match rows.session {
            None => result == Err::<(SessionState, SessionRows), _>(StoreError::SessionMissing),
            Some(session) => result == Ok::<_, StoreError>(
                (
                    session.state,
                    if session.state == SessionState::Idle {
                        transitioned(*rows, session, SessionState::Runnable, now)
                    } else {
                        *rows
                    },
                ),
            ),
        },
{
    match rows.session {
        None => Err(StoreError::SessionMissing),
        Some(session) => if session.state == SessionState::Idle {
            Ok((SessionState::Idle, transition(rows, session, SessionState::Runnable, now)))
        } else {
            Ok((session.state, *rows))
        },
    }
}

/// Rows of a session that a worker just claimed.
pub open spec fn claimed(rows: SessionRows, session: StoredSession, lease: Lease, now: Timestamp) -> SessionRows {
    SessionRows {
        session: Some(StoredSession { state: SessionState::Leased, ..session }),
        lease: Some(lease),
        runnable: None,
        state_since: Some(now),
        ..rows
    }
}

/// Claims a Runnable session that nobody asked to interrupt. The expiry may lie in the past.
pub fn claim_lease(
    rows: &SessionRows,
    owner: LeaseOwnerId,
    expires_at: Timestamp,
    now: Timestamp,
) -> (result: StoreResult<(Lease, SessionRows)>)
    ensures
        match (result, rows.session) {
            (Ok((lease, next)), Some(session)) => {
                &&& session.state == SessionState::Runnable
                &&& !rows.interrupt
                &&& session.head_seq < u64::MAX
                &&& lease == (Lease { owner, expires_at, seq: (session.head_seq + 1) as u64 })
                &&& next == claimed(*rows, session, lease, now)
            },
            (Ok(_), None) => false,
            (Err(error), None) => error == StoreError::SessionMissing,
            (Err(error), Some(session)) => {
                if session.state != SessionState::Runnable || rows.interrupt {
                    error == StoreError::InvalidState
                } else {
                    session.head_seq == u64::MAX && error == StoreError::SequenceOverflow
                }
            },
        },
{
    let session = match rows.session {
        None => {
            return Err(StoreError::SessionMissing);
        },
        Some(session) => session,
    };
    if session.state != SessionState::Runnable || rows.interrupt {
        return Err(StoreError::InvalidState);
    }
    let seq: u64 = match session.head_seq.checked_add(1) {
        Some(seq) => seq,
        None => {
            return Err(StoreError::SequenceOverflow);
        },
    };
    let lease = Lease { owner, expires_at, seq };
    let mut next = *rows;
    next.runnable = None;
    next.lease = Some(lease);
    next.state_since = Some(now);
    next.session = Some(StoredSession { state: SessionState::Leased, ..session });
    Ok((lease, next))
}

/// The stored lease, provided it is the expected one.
pub fn verify_lease(lease: &Option<Lease>, expected: &Lease) -> (result: StoreResult<Lease>)
    ensures
        result == if *lease == Some(*expected) {
            Ok::<_, StoreError>(*expected)
        } else {
            Err(StoreError::LeaseMismatch)
        },
{
    match lease {
        Some(current) => if *current == *expected {
            Ok(*current)
        } else {
            Err(StoreError::LeaseMismatch)
        },
        None => Err(StoreError::LeaseMismatch),
    }
}

/// Extends a live lease; the previous record is the fencing token.
pub fn renew_lease(
    lease: &Option<Lease>,
    expected: &Lease,
    now: Timestamp,
    expires_at: Timestamp,
) -> (result: StoreResult<Lease>)
    ensures
        result == if *lease == Some(*expected) && expected.expires_at.nanos > now.nanos
            && expires_at.nanos > expected.expires_at.nanos {
            Ok::<_, StoreError>(Lease { expires_at, ..*expected })
        } else {
            Err(StoreError::LeaseMismatch)
        },
{
    let current = verify_lease(lease, expected)?;
    if current.expires_at.nanos <= now.nanos || expires_at.nanos <= current.expires_at.nanos {
        return Err(StoreError::LeaseMismatch);
    }
    Ok(Lease { expires_at, ..current })
}

/// Changes the state of a session. `permitted` says whether the state machine has the step.
/// Leaving Leased takes its live lease; entering Leased takes a claim.
pub fn set_state(
    rows: &SessionRows,
    state: SessionState,
    permitted: bool,
    lease: Option<Lease>,
    now: Timestamp,
) -> (result: StoreResult<SessionRows>)
    ensures
        match (result, rows.session) {
            (Ok(next), Some(session)) => {
                &&& state != SessionState::Leased
                &&& permitted
                &&& if session.state == SessionState::Leased {
                    lease matches Some(token) && holds(*rows, token, now)
                } else {
                    lease is None
                }
                &&& next == transitioned(*rows, session, state, now)
            },
            (Ok(_), None) => false,
            (Err(error), None) => error == StoreError::SessionMissing,
            (Err(error), Some(session)) => {
                if state == SessionState::Leased || !permitted {
                    error == StoreError::InvalidState
                } else {
                    &&& error == StoreError::LeaseMismatch
                    &&& if session.state == SessionState::Leased {
                        lease is None || !holds(*rows, lease->0, now)
                    } else {
                        lease is Some
                    }
                }
            },
        },
{
    let session = match rows.session {
        None => {
            return Err(StoreError::SessionMissing);
        },
        Some(session) => session,
    };
    if state == SessionState::Leased || !permitted {
        return Err(StoreError::InvalidState);
    }
    if session.state == SessionState::Leased {
        let expected = match lease {
            Some(expected) => expected,
            None => {
                return Err(StoreError::LeaseMismatch);
            },
        };
        let current = verify_lease(&rows.lease, &expected)?;
        if current.expires_at.nanos <= now.nanos {
            return Err(StoreError::LeaseMismatch);
        }
    } else if lease.is_some() {
        return Err(StoreError::LeaseMismatch);
    }
    Ok(transition(rows, session, state, now))
}

/// Gives a live lease back; the session becomes Runnable. `permitted` says whether the state
/// machine has the step.
pub fn release_lease(
    rows: &SessionRows,
    expected: &Lease,
    permitted: bool,
    now: Timestamp,
) -> (result: StoreResult<SessionRows>)
    ensures
        match (result, rows.session) {
            (Ok(next), Some(session)) => {
                &&& permitted
                &&& holds(*rows, *expected, now)
                &&& next == transitioned(*rows, session, SessionState::Runnable, now)
            },
            (Ok(_), None) => false,
            (Err(error), None) => error == StoreError::SessionMissing,
            (Err(error), Some(_)) => if !permitted {
                error == StoreError::InvalidState
            } else {
                error == StoreError::LeaseMismatch && !holds(*rows, *expected, now)
            },
        },
{
    set_state(rows, SessionState::Runnable, permitted, Some(*expected), now)
}

/// Returns a session to Runnable once its lease has expired. A renewed or replaced lease wins.
pub fn reap_lease(rows: &SessionRows, expected: &Lease, now: Timestamp) -> (result: StoreResult<SessionRows>)
    ensures
        match result {
            Ok(next) => {
                &&& rows.lease == Some(*expected)
                &&& expected.expires_at.nanos <= now.nanos
                &&& rows.session matches Some(session) && session.state == SessionState::Leased
                    && next == transitioned(*rows, session, SessionState::Runnable, now)
            },
            Err(error) => if rows.lease == Some(*expected) && rows.session is None {
                error == StoreError::SessionMissing
            } else {
                &&& error == StoreError::LeaseMismatch
                &&& (rows.lease != Some(*expected) || expected.expires_at.nanos > now.nanos
                    || rows.session->0.state != SessionState::Leased)
            },
        },
{
    let lease = verify_lease(&rows.lease, expected)?;
    let session = match rows.session {
        None => {
            return Err(StoreError::SessionMissing);
        },
        Some(session) => session,
    };
    if lease.expires_at.nanos > now.nanos || session.state != SessionState::Leased {
        return Err(StoreError::LeaseMismatch);
    }
    Ok(transition(rows, session, SessionState::Runnable, now))
}

/// The header of a session whose lease the caller still holds.
pub fn check_worker_lease(rows: &SessionRows, lease: &Lease, now: Timestamp) -> (result: StoreResult<StoredSession>)
    ensures
        match result {
            Ok(session) => holds(*rows, *lease, now) && rows.session == Some(session),
            Err(error) => {
                &&& !holds(*rows, *lease, now)
                &&& error == if rows.lease == Some(*lease) && rows.session is None {
                    StoreError::SessionMissing
                } else {
                    StoreError::LeaseMismatch
                }
            },
        },
{
    let current = verify_lease(&rows.lease, lease)?;
    let session = match rows.session {
        None => {
            return Err(StoreError::SessionMissing);
        },
        Some(session) => session,
    };
    if current.expires_at.nanos <= now.nanos || session.state != SessionState::Leased {
        return Err(StoreError::LeaseMismatch);
    }
    Ok(session)
}

/// Inserts or reschedules a Runnable session, replacing its previous entry.
pub fn insert_runnable(rows: &SessionRows, entry: RunnableEntry) -> (result: StoreResult<SessionRows>)
    ensures
        match (result, rows.session) {
            (Ok(next), Some(session)) => session.state == SessionState::Runnable && next == (
            SessionRows { runnable: Some(entry), ..*rows }),
            (Ok(_), None) => false,
            (Err(error), None) => error == StoreError::SessionMissing,
            (Err(error), Some(session)) => session.state != SessionState::Runnable && error
                == StoreError::InvalidState,
        },
{
    match rows.session {
        None => Err(StoreError::SessionMissing),
        Some(session) => {
            if session.state != SessionState::Runnable {
                return Err(StoreError::InvalidState);
            }
            Ok(SessionRows { runnable: Some(entry), ..*rows })
        },
    }
}

/// A claim keeps index ownership: the runnable entry goes and the lease comes.
pub proof fn claims_keep_indexes(rows: SessionRows, session: StoredSession, lease: Lease, now: Timestamp)
    requires
        indexed(rows),
        rows.session == Some(session),
        session.state == SessionState::Runnable,
    ensures
        indexed(claimed(rows, session, lease, now)),
{
}

/// A reaped worker is fenced: once its session has left Leased, its lease holds nothing, whatever
/// happens to the session until it is claimed again.
pub proof fn reaped_leases_hold_nothing(rows: SessionRows, lease: Lease, now: Timestamp, later: Timestamp)
    requires
        indexed(rows),
        rows.lease == Some(lease),
        rows.session matches Some(session) && session.state == SessionState::Leased,
    ensures
        !holds(transitioned(rows, rows.session->0, SessionState::Runnable, now), lease, later),
{
}

/// A later claim by another owner, or after the log has grown, is a different token, so the old
/// lease cannot be mistaken for it.
pub proof fn claims_replace_tokens(rows: SessionRows, session: StoredSession, stale: Lease, fresh: Lease, now: Timestamp, later: Timestamp)
    requires
        stale.owner != fresh.owner || stale.seq != fresh.seq,
    ensures
        !holds(claimed(rows, session, fresh, now), stale, later),
{
}

/// A lease and its renewal never hold together: the renewed record replaces the token.
pub proof fn renewals_replace_tokens(rows: SessionRows, lease: Lease, expires_at: Timestamp, now: Timestamp)
    requires
        lease.expires_at.nanos < expires_at.nanos,
        rows.lease == Some(Lease { expires_at, ..lease }),
    ensures
        !holds(rows, lease, now),
{
}

/// A wake tells the state that the session was in and wakes it only from Idle: then it is queued
/// from that moment on, with its head, its snapshot and its ids as they were.
pub proof fn wakes_start_idle_sessions(rows: SessionRows, now: Timestamp, result: StoreResult<(SessionState, SessionRows)>)
    requires
        call_ensures(wake_session, (&rows, now), result),
    ensures
        result is Ok <==> rows.session is Some,
        result matches Ok((was, next)) ==> {
            let before = rows.session->0;
            let after = next.session->0;
            &&& was == before.state
            &&& was != SessionState::Idle ==> next == rows
            &&& was == SessionState::Idle ==> {
                &&& after.state == SessionState::Runnable && after.head_seq == before.head_seq
                &&& after.session_id == before.session_id && after.agent_id == before.agent_id
                &&& after.snapshot_seq == before.snapshot_seq && next.state_since == Some(now)
                &&& next.runnable matches Some(entry) && entry.session_id == before.session_id
                    && entry.wake_at == now
                &&& next.lease == rows.lease && next.interrupt == rows.interrupt && next.idle_since
                    == rows.idle_since
            }
        },
{
}

/// A claim leases a queued session to the owner who asked, until the moment that was asked for. The
/// token carries the number of the next event, and the session leaves the queue.
pub proof fn claims_lease_to_the_owner(
    rows: SessionRows,
    owner: LeaseOwnerId,
    expires_at: Timestamp,
    now: Timestamp,
    result: StoreResult<(Lease, SessionRows)>,
)
    requires
        call_ensures(claim_lease, (&rows, owner, expires_at, now), result),
    ensures
        result matches Ok((lease, next)) ==> {
            let before = rows.session->0;
            let after = next.session->0;
            &&& rows.session is Some && before.state == SessionState::Runnable && !rows.interrupt
            &&& lease.owner == owner && lease.expires_at == expires_at && lease.seq == before.head_seq + 1
            &&& next.lease == Some(lease) && next.runnable is None
            &&& after.state == SessionState::Leased && after.head_seq == before.head_seq
            &&& after.session_id == before.session_id && after.agent_id == before.agent_id
            &&& after.snapshot_seq == before.snapshot_seq && next.state_since == Some(now)
            &&& next.idle_since == rows.idle_since && next.interrupt == rows.interrupt
        },
        rows.session matches Some(session) ==> (session.state == SessionState::Runnable && !rows.interrupt
            && session.head_seq < u64::MAX ==> result is Ok),
{
}

/// A claimed session is held by its lease exactly until the lease runs out.
pub proof fn claimed_sessions_are_held(
    rows: SessionRows,
    owner: LeaseOwnerId,
    expires_at: Timestamp,
    now: Timestamp,
    result: StoreResult<(Lease, SessionRows)>,
    later: Timestamp,
    checked: StoreResult<StoredSession>,
)
    requires
        call_ensures(claim_lease, (&rows, owner, expires_at, now), result),
        result is Ok,
        call_ensures(check_worker_lease, (&result->Ok_0.1, &result->Ok_0.0, later), checked),
    ensures
        checked is Ok <==> later.nanos < expires_at.nanos,
        checked matches Ok(session) ==> result->Ok_0.1.session == Some(session),
{
}

/// A lease is verified by the whole token.
pub proof fn tokens_are_compared_whole(lease: Option<Lease>, expected: Lease, result: StoreResult<Lease>)
    requires
        call_ensures(verify_lease, (&lease, &expected), result),
    ensures
        result matches Ok(found) ==> found == expected,
        result is Ok <==> (lease matches Some(held) && held.owner == expected.owner && held.expires_at
            == expected.expires_at && held.seq == expected.seq),
{
}

/// A renewal ends later than the live lease that it renews and is the same otherwise.
pub proof fn renewals_end_later(lease: Option<Lease>, expected: Lease, now: Timestamp, expires_at: Timestamp, result: StoreResult<Lease>)
    requires
        call_ensures(renew_lease, (&lease, &expected, now, expires_at), result),
    ensures
        result matches Ok(next) ==> {
            &&& lease == Some(expected) && expected.expires_at.nanos > now.nanos
            &&& next.owner == expected.owner && next.seq == expected.seq && next.expires_at == expires_at
            &&& next.expires_at.nanos > expected.expires_at.nanos
        },
        lease == Some(expected) && now.nanos < expected.expires_at.nanos < expires_at.nanos ==> result is Ok,
{
}

/// A session that is leased changes its state only under its live lease, one that is not only
/// without. The state that it takes is the one that was asked for, never Leased, and nothing else of
/// the header changes.
pub proof fn states_are_set_as_asked(
    rows: SessionRows,
    state: SessionState,
    permitted: bool,
    lease: Option<Lease>,
    now: Timestamp,
    result: StoreResult<SessionRows>,
)
    requires
        call_ensures(set_state, (&rows, state, permitted, lease, now), result),
    ensures
        result matches Ok(next) ==> {
            let before = rows.session->0;
            let after = next.session->0;
            &&& rows.session is Some && next.session is Some && permitted
            &&& after.state == state && state != SessionState::Leased
            &&& after.session_id == before.session_id && after.agent_id == before.agent_id
            &&& after.head_seq == before.head_seq && after.snapshot_seq == before.snapshot_seq
            &&& before.state == SessionState::Leased ==> rows.lease == lease && lease is Some
                && lease->0.expires_at.nanos > now.nanos && next.lease is None
            &&& before.state != SessionState::Leased ==> lease is None && next.lease == rows.lease
            &&& state == SessionState::Runnable ==> (next.runnable matches Some(entry) && entry.session_id
                == before.session_id && entry.wake_at == now)
            &&& state == SessionState::Idle ==> next.idle_since == Some(now)
            &&& next.state_since == Some(now) && next.interrupt == rows.interrupt
        },
{
}

/// A release gives a live lease back: the session is queued again, and nobody holds it.
pub proof fn releases_queue_the_session(rows: SessionRows, expected: Lease, permitted: bool, now: Timestamp, result: StoreResult<SessionRows>)
    requires
        call_ensures(release_lease, (&rows, &expected, permitted, now), result),
    ensures
        result matches Ok(next) ==> {
            let before = rows.session->0;
            let after = next.session->0;
            &&& rows.lease == Some(expected) && expected.expires_at.nanos > now.nanos
            &&& rows.session is Some && before.state == SessionState::Leased
            &&& next.lease is None && after.state == SessionState::Runnable
            &&& after.session_id == before.session_id && after.head_seq == before.head_seq
            &&& after.agent_id == before.agent_id && after.snapshot_seq == before.snapshot_seq
            &&& next.runnable matches Some(entry) && entry.session_id == before.session_id && entry.wake_at
                == now
        },
        rows.session is Some && permitted ==> (result is Ok <==> rows.lease == Some(expected)
            && expected.expires_at.nanos > now.nanos && rows.session->0.state == SessionState::Leased),
{
}

/// A reaper takes a lease only once it ran out, and only the very lease that it saw; the session is
/// queued again.
pub proof fn reapers_wait_for_the_end(rows: SessionRows, expected: Lease, now: Timestamp, result: StoreResult<SessionRows>)
    requires
        call_ensures(reap_lease, (&rows, &expected, now), result),
    ensures
        result is Ok <==> rows.lease == Some(expected) && expected.expires_at.nanos <= now.nanos && (
        rows.session matches Some(session) && session.state == SessionState::Leased),
        result matches Ok(next) ==> {
            let before = rows.session->0;
            let after = next.session->0;
            &&& next.lease is None && after.state == SessionState::Runnable
            &&& after.session_id == before.session_id && after.head_seq == before.head_seq
            &&& after.agent_id == before.agent_id && after.snapshot_seq == before.snapshot_seq
            &&& next.runnable matches Some(entry) && entry.session_id == before.session_id && entry.wake_at
                == now
        },
{
}

/// At every moment a lease can be released or reaped, never both.
pub proof fn releases_and_reaps_exclude_each_other(
    rows: SessionRows,
    lease: Lease,
    now: Timestamp,
    released: StoreResult<SessionRows>,
    reaped: StoreResult<SessionRows>,
)
    requires
        rows.session is Some && rows.session->0.state == SessionState::Leased && rows.lease == Some(lease),
        call_ensures(release_lease, (&rows, &lease, true, now), released),
        call_ensures(reap_lease, (&rows, &lease, now), reaped),
    ensures
        released is Ok <==> reaped is Err,
{
}

/// An entry is put in the queue as it was given, for a Runnable session alone, and no other row
/// changes.
pub proof fn entries_are_queued_as_given(rows: SessionRows, entry: RunnableEntry, result: StoreResult<SessionRows>)
    requires
        call_ensures(insert_runnable, (&rows, entry), result),
    ensures
        result matches Ok(next) ==> {
            &&& next.runnable == Some(entry) && next.session == rows.session && next.lease == rows.lease
            &&& next.state_since == rows.state_since && next.idle_since == rows.idle_since
            &&& next.interrupt == rows.interrupt
        },
        result is Ok <==> (rows.session matches Some(session) && session.state == SessionState::Runnable),
{
}

} // verus!
