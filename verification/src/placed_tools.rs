//! Tool calls on an agent's own computer, fenced by its placement. Completing a call records its
//! output and leaves the disk alone.

use crate::error::{StoreError, StoreResult};
use crate::events::{same_result, Event, ToolResult};
use crate::ids::{LeaseOwnerId, ManifestId, VolumeId};
use crate::placements::{check_live_placement, is_live, PlacementRecord, PlacementRows};
use crate::refresh::same_bytes;
use crate::session::{SessionRows, SessionState, StoredSession};
use crate::time::Timestamp;
use crate::tools::{
    after_call, call_ended, end_call, end_event, job_view, results_have_whole_views, same_job, ToolJob,
};
use crate::volumes::{fresh_volume, is_written, VolumeRecord};
use vstd::prelude::*;

verus! {

/// What the store holds about an agent's disk.
#[derive(Clone, Copy, Debug, PartialEq, Eq, Structural)]
pub struct AgentVolumeRows {
    pub session: Option<StoredSession>,
    pub volume: Option<VolumeRecord>,
    /// The placement that may publish the disk.
    pub binding: Option<PlacementRecord>,
    /// The committed manifest of a sandbox that the session had before.
    pub sandbox_manifest: Option<ManifestId>,
    /// The disk of the session's pinned image.
    pub image: Option<ManifestId>,
}

/// An agent's disk, with its record if it is new. Publication is bound to the placement.
#[derive(Clone, Copy, Debug, PartialEq, Eq, Structural)]
pub struct AgentVolume {
    pub id: VolumeId,
    pub created: Option<VolumeRecord>,
}

/// Whether a disk is bound to a placement's node and epoch.
pub open spec fn bound_to(binding: Option<PlacementRecord>, placement: PlacementRecord) -> bool {
    binding matches Some(before) && before.node_id == placement.node_id && before.epoch
        == placement.epoch
}

/// The manifest that a new disk starts from.
pub open spec fn first_manifest(rows: AgentVolumeRows) -> Option<ManifestId> {
    match rows.sandbox_manifest {
        Some(manifest) => Some(manifest),
        None => rows.image,
    }
}

/// Finds the disk of a placed computer, or makes it, and binds its publication to the placement. A
/// disk with a live writer is never bound anew.
pub fn agent_volume(placements: &PlacementRows, rows: &AgentVolumeRows, placement: &PlacementRecord, now: Timestamp) -> (result: StoreResult<AgentVolume>)
    ensures
        if !is_live(*placements, *placement, now) {
            result matches Err(error) && error == StoreError::LeaseMismatch
        } else {
            match rows.session {
                None => result matches Err(error) && error == StoreError::SessionMissing,
                Some(session) => if session.agent_id != placement.agent_id {
                    result matches Err(error) && error == StoreError::InvalidState
                } else {
                    match rows.volume {
                        Some(volume) => if is_written(volume, now) && !bound_to(
                            rows.binding,
                            *placement,
                        ) {
                            result matches Err(error) && error == StoreError::LeaseMismatch
                        } else {
                            result == Ok::<AgentVolume, StoreError>(
                                (AgentVolume {
                                    id: VolumeId(placement.agent_id.0),
                                    created: None,
                                }),
                            )
                        },
                        None => match first_manifest(*rows) {
                            None => result matches Err(error) && error
                                == StoreError::ManifestMissing,
                            Some(manifest) => result == Ok::<AgentVolume, StoreError>(
                                (AgentVolume {
                                    id: VolumeId(placement.agent_id.0),
                                    created: Some(fresh_volume(manifest, None)),
                                }),
                            ),
                        },
                    }
                },
            }
        },
{
    check_live_placement(placements, placement, now)?;
    let session = match rows.session {
        Some(session) => session,
        None => {
            return Err(StoreError::SessionMissing);
        },
    };
    if session.agent_id != placement.agent_id {
        return Err(StoreError::InvalidState);
    }
    let id = VolumeId(placement.agent_id.0);
    match rows.volume {
        Some(volume) => {
            let written = match volume.writer_lease {
                Some(lease) => lease.expires_at.nanos > now.nanos,
                None => false,
            };
            let bound = match rows.binding {
                Some(before) => before.node_id == placement.node_id && before.epoch
                    == placement.epoch,
                None => false,
            };
            if written && !bound {
                return Err(StoreError::LeaseMismatch);
            }
            Ok(AgentVolume { id, created: None })
        },
        None => {
            let manifest = match rows.sandbox_manifest {
                Some(manifest) => manifest,
                None => match rows.image {
                    Some(manifest) => manifest,
                    None => {
                        return Err(StoreError::ManifestMissing);
                    },
                },
            };
            Ok(
                AgentVolume {
                    id,
                    created: Some(
                        VolumeRecord { head_manifest: manifest, writer_lease: None, parent: None },
                    ),
                },
            )
        },
    }
}

/// A node's claim on a call, as stored.
#[derive(Clone, Debug, PartialEq, Eq)]
pub struct StoredPlacedClaim {
    pub owner: LeaseOwnerId,
    pub placement: PlacementRecord,
    pub expires_at: Timestamp,
    pub job_digest: Vec<u8>,
}

/// View of a stored claim.
pub ghost struct PlacedClaimView {
    pub owner: LeaseOwnerId,
    pub placement: PlacementRecord,
    pub expires_at: Timestamp,
    pub job_digest: Seq<u8>,
}

impl View for StoredPlacedClaim {
    type V = PlacedClaimView;

    open spec fn view(&self) -> PlacedClaimView {
        PlacedClaimView {
            owner: self.owner,
            placement: self.placement,
            expires_at: self.expires_at,
            job_digest: self.job_digest@,
        }
    }
}

/// View of a claim that may be absent.
pub open spec fn placed_view(claim: Option<StoredPlacedClaim>) -> Option<PlacedClaimView> {
    match claim {
        Some(claim) => Some(claim@),
        None => None,
    }
}

/// What a node asks for when it takes a call.
#[derive(Clone, Debug, PartialEq, Eq)]
pub struct PlacedToolClaim {
    pub owner: LeaseOwnerId,
    pub placement: PlacementRecord,
    pub expires_at: Timestamp,
    pub job: ToolJob,
}

/// What the store holds about a call on a placed computer.
pub struct PlacedRows {
    /// The placement that the call was sent to.
    pub dispatched: Option<PlacementRecord>,
    pub job: Option<ToolJob>,
    pub session: Option<StoredSession>,
    pub claim: Option<StoredPlacedClaim>,
}

/// Whether a call was sent to a placement, or to none yet.
pub open spec fn sent_to(dispatched: Option<PlacementRecord>, placement: PlacementRecord) -> bool {
    dispatched matches Some(before) ==> before.agent_id == placement.agent_id && before.node_id
        == placement.node_id && before.epoch == placement.epoch
}

/// Checks that a call was sent to a placement, or to none yet.
pub fn check_tool_dispatch(dispatched: &Option<PlacementRecord>, placement: &PlacementRecord) -> (result: StoreResult<()>)
    ensures
        match result {
            Ok(_) => sent_to(*dispatched, *placement),
            Err(error) => !sent_to(*dispatched, *placement) && error == StoreError::LeaseMismatch,
        },
{
    match dispatched {
        Some(before) => if before.agent_id != placement.agent_id || before.node_id
            != placement.node_id || before.epoch != placement.epoch {
            Err(StoreError::LeaseMismatch)
        } else {
            Ok(())
        },
        None => Ok(()),
    }
}

/// Whether a stored claim is live.
pub open spec fn placed_live(claim: Option<PlacedClaimView>, now: Timestamp) -> bool {
    claim matches Some(held) && held.expires_at.nanos > now.nanos
}

/// Whether a session waits for a tool of a placement's computer.
pub open spec fn waits_for(session: StoredSession, placement: PlacementRecord) -> bool {
    session.agent_id == placement.agent_id && session.state == SessionState::WaitingTools
}

/// Takes a pending call without a disk of its own. None means that the call is gone or taken.
pub fn claim_placed_tool(placements: &PlacementRows, rows: &PlacedRows, claim: &PlacedToolClaim, digest: Vec<u8>, now: Timestamp) -> (result: StoreResult<Option<StoredPlacedClaim>>)
    ensures
        if !is_live(*placements, claim.placement, now) || !sent_to(
            rows.dispatched,
            claim.placement,
        ) {
            result matches Err(error) && error == StoreError::LeaseMismatch
        } else {
            match job_view(rows.job) {
                None => result matches Ok(None),
                Some(stored) => match rows.session {
                    None => result matches Err(error) && error == StoreError::SessionMissing,
                    Some(session) => if !waits_for(session, claim.placement)
                        || claim.expires_at.nanos <= now.nanos || stored != claim.job@ {
                        result matches Err(error) && error == StoreError::InvalidState
                    } else if placed_live(placed_view(rows.claim), now) {
                        result matches Ok(None)
                    } else {
                        result matches Ok(Some(taken)) && taken@ == (PlacedClaimView {
                            owner: claim.owner,
                            placement: claim.placement,
                            expires_at: claim.expires_at,
                            job_digest: digest@,
                        })
                    },
                },
            }
        },
{
    check_live_placement(placements, &claim.placement, now)?;
    check_tool_dispatch(&rows.dispatched, &claim.placement)?;
    let stored = match &rows.job {
        Some(stored) => stored,
        None => {
            return Ok(None);
        },
    };
    let session = match rows.session {
        Some(session) => session,
        None => {
            return Err(StoreError::SessionMissing);
        },
    };
    if session.agent_id != claim.placement.agent_id || session.state != SessionState::WaitingTools
        || claim.expires_at.nanos <= now.nanos {
        return Err(StoreError::InvalidState);
    }
    if !same_job(stored, &claim.job) {
        return Err(StoreError::InvalidState);
    }
    if let Some(held) = &rows.claim {
        if held.expires_at.nanos > now.nanos {
            return Ok(None);
        }
    }
    Ok(
        Some(
            StoredPlacedClaim {
                owner: claim.owner,
                placement: claim.placement,
                expires_at: claim.expires_at,
                job_digest: digest,
            },
        ),
    )
}

/// Whether a claim is the live one on its call, under a live placement.
pub open spec fn claims_placed(
    placements: PlacementRows,
    dispatched: Option<PlacementRecord>,
    current: Option<PlacedClaimView>,
    claim: PlacedToolClaim,
    digest: Seq<u8>,
    now: Timestamp,
) -> bool {
    &&& is_live(placements, claim.placement, now)
    &&& sent_to(dispatched, claim.placement)
    &&& current matches Some(held)
    &&& held.owner == claim.owner
    &&& held.job_digest == digest
    &&& held.placement == claim.placement
    &&& held.expires_at.nanos > now.nanos
}

/// Checks that a claim is the live one on its call, under a live placement.
pub fn check_placed_tool(
    placements: &PlacementRows,
    dispatched: &Option<PlacementRecord>,
    current: &Option<StoredPlacedClaim>,
    claim: &PlacedToolClaim,
    digest: &Vec<u8>,
    now: Timestamp,
) -> (result: StoreResult<()>)
    ensures
        match result {
            Ok(_) => claims_placed(
                *placements,
                *dispatched,
                placed_view(*current),
                *claim,
                digest@,
                now,
            ),
            Err(error) => {
                &&& error == StoreError::LeaseMismatch
                &&& !claims_placed(
                    *placements,
                    *dispatched,
                    placed_view(*current),
                    *claim,
                    digest@,
                    now,
                )
            },
        },
{
    check_live_placement(placements, &claim.placement, now)?;
    check_tool_dispatch(dispatched, &claim.placement)?;
    match current {
        None => Err(StoreError::LeaseMismatch),
        Some(held) => if held.owner != claim.owner || !same_bytes(&held.job_digest, digest)
            || held.placement != claim.placement || held.expires_at.nanos <= now.nanos {
            Err(StoreError::LeaseMismatch)
        } else {
            Ok(())
        },
    }
}

/// Extends a live claim.
pub fn renew_placed_tool(
    placements: &PlacementRows,
    dispatched: &Option<PlacementRecord>,
    current: Option<StoredPlacedClaim>,
    claim: &PlacedToolClaim,
    digest: &Vec<u8>,
    expires_at: Timestamp,
    now: Timestamp,
) -> (result: StoreResult<StoredPlacedClaim>)
    ensures
        match result {
            Ok(next) => {
                &&& claims_placed(
                    *placements,
                    *dispatched,
                    placed_view(current),
                    *claim,
                    digest@,
                    now,
                )
                &&& expires_at.nanos > current->0.expires_at.nanos
                &&& next@ == (PlacedClaimView { expires_at, ..current->0@ })
            },
            Err(error) => {
                &&& error == StoreError::LeaseMismatch
                &&& !claims_placed(
                    *placements,
                    *dispatched,
                    placed_view(current),
                    *claim,
                    digest@,
                    now,
                ) || expires_at.nanos <= current->0.expires_at.nanos
            },
        },
{
    check_placed_tool(placements, dispatched, &current, claim, digest, now)?;
    match current {
        Some(held) => if expires_at.nanos <= held.expires_at.nanos {
            Err(StoreError::LeaseMismatch)
        } else {
            let mut next = held;
            next.expires_at = expires_at;
            Ok(next)
        },
        None => Err(StoreError::LeaseMismatch),
    }
}

/// Records the output of a call and wakes the session after its last pending call. Job, dispatch
/// and claim go, and the call is done.
pub fn complete_placed_tool(
    placements: &PlacementRows,
    dispatched: &Option<PlacementRecord>,
    current: &Option<StoredPlacedClaim>,
    session_rows: &SessionRows,
    claim: &PlacedToolClaim,
    digest: &Vec<u8>,
    expected_head: u64,
    result: ToolResult,
    others_pending: bool,
    now: Timestamp,
) -> (outcome: StoreResult<(Event, SessionRows)>)
    ensures
        if expected_head == u64::MAX {
            outcome matches Err(error) && error == StoreError::SequenceOverflow
        } else if !claims_placed(
            *placements,
            *dispatched,
            placed_view(*current),
            *claim,
            digest@,
            now,
        ) {
            outcome matches Err(error) && error == StoreError::LeaseMismatch
        } else {
            match session_rows.session {
                None => outcome matches Err(error) && error == StoreError::SessionMissing,
                Some(session) => if session.head_seq != expected_head {
                    outcome matches Err(error) && error == (StoreError::StaleSequence {
                        expected: expected_head,
                        actual: session.head_seq,
                    })
                } else if !waits_for(session, claim.placement) {
                    outcome matches Err(error) && error == StoreError::InvalidState
                } else {
                    let head = (expected_head + 1) as u64;
                    &&& outcome matches Ok((event, next))
                    &&& event@ == call_ended(head, claim.job@, result@)
                    &&& next == after_call(
                        *session_rows,
                        StoredSession { head_seq: head, ..session },
                        others_pending,
                        now,
                    )
                },
            }
        },
{
    let head: u64 = match expected_head.checked_add(1) {
        Some(head) => head,
        None => {
            return Err(StoreError::SequenceOverflow);
        },
    };
    check_placed_tool(placements, dispatched, current, claim, digest, now)?;
    let session = match session_rows.session {
        Some(session) => session,
        None => {
            return Err(StoreError::SessionMissing);
        },
    };
    if session.head_seq != expected_head {
        return Err(
            StoreError::StaleSequence { expected: expected_head, actual: session.head_seq },
        );
    }
    if session.state != SessionState::WaitingTools || session.agent_id
        != claim.placement.agent_id {
        return Err(StoreError::InvalidState);
    }
    let event = end_event(head, &claim.job, result);
    let next = end_call(
        session_rows,
        StoredSession { head_seq: head, ..session },
        others_pending,
        now,
    );
    Ok((event, next))
}

/// A call is completed at most once: completion removes the claim, and without it no completion
/// goes through.
pub proof fn placed_calls_complete_once(
    placements: PlacementRows,
    dispatched: Option<PlacementRecord>,
    claim: PlacedToolClaim,
    digest: Seq<u8>,
    now: Timestamp,
)
    ensures
        !claims_placed(placements, dispatched, None, claim, digest, now),
{
}

/// No call is completed under a placement that has ended, been released or been taken over.
pub proof fn ended_placements_complete_nothing(
    placements: PlacementRows,
    dispatched: Option<PlacementRecord>,
    current: Option<PlacedClaimView>,
    claim: PlacedToolClaim,
    digest: Seq<u8>,
    now: Timestamp,
)
    requires
        !is_live(placements, claim.placement, now),
    ensures
        !claims_placed(placements, dispatched, current, claim, digest, now),
{
}

/// A call that completes on a placed computer appends one event behind the head: the end of the
/// job's own call, with exactly the result that was passed in, title and output included. The
/// session wakes once no other call is pending.
pub proof fn placed_calls_keep_their_result(
    placements: PlacementRows,
    dispatched: Option<PlacementRecord>,
    current: Option<StoredPlacedClaim>,
    session_rows: SessionRows,
    claim: PlacedToolClaim,
    digest: Vec<u8>,
    expected_head: u64,
    result: ToolResult,
    others_pending: bool,
    now: Timestamp,
    outcome: StoreResult<(Event, SessionRows)>,
)
    requires
        call_ensures(
            complete_placed_tool,
            (
                &placements,
                &dispatched,
                &current,
                &session_rows,
                &claim,
                &digest,
                expected_head,
                result,
                others_pending,
                now,
            ),
            outcome,
        ),
    ensures
        outcome matches Ok((event, next)) ==> {
            let before = session_rows.session->0;
            let after = next.session->0;
            &&& session_rows.session is Some && next.session is Some
            &&& event matches Event::ToolCallCompleted { seq, request_id, call_id, result: kept } && seq
                == before.head_seq + 1 && seq == after.head_seq && request_id == claim.job.request_id
                && call_id@ == claim.job.call_id@ && same_result(kept, result)
            &&& after.session_id == before.session_id && after.agent_id == before.agent_id
            &&& after.snapshot_seq == before.snapshot_seq && before.head_seq == expected_head
            &&& others_pending ==> after.state == SessionState::WaitingTools && next.runnable
                == session_rows.runnable
            &&& !others_pending ==> after.state == SessionState::Runnable && (next.runnable matches Some(
                entry,
            ) && entry.session_id == before.session_id && entry.wake_at == now)
        },
{
    if let Ok((event, next)) = outcome {
        if let Event::ToolCallCompleted { seq, request_id, call_id, result: kept } = event {
            results_have_whole_views(kept, result);
        }
    }
}

/// Such a call is completed only under its live claim, on the live placement that it was sent to.
pub proof fn placed_calls_end_under_their_claim(
    placements: PlacementRows,
    dispatched: Option<PlacementRecord>,
    current: Option<StoredPlacedClaim>,
    session_rows: SessionRows,
    claim: PlacedToolClaim,
    digest: Vec<u8>,
    expected_head: u64,
    result: ToolResult,
    others_pending: bool,
    now: Timestamp,
    outcome: StoreResult<(Event, SessionRows)>,
)
    requires
        call_ensures(
            complete_placed_tool,
            (
                &placements,
                &dispatched,
                &current,
                &session_rows,
                &claim,
                &digest,
                expected_head,
                result,
                others_pending,
                now,
            ),
            outcome,
        ),
    ensures
        outcome is Ok ==> {
            &&& current matches Some(held) && held.owner == claim.owner && held.placement == claim.placement
                && held.job_digest@ == digest@ && held.expires_at.nanos > now.nanos
            &&& placements.placement matches Some(live) && live.epoch == claim.placement.epoch
                && live.node_id == claim.placement.node_id && live.expires_at.nanos > now.nanos
            &&& dispatched matches Some(sent) ==> sent.epoch == claim.placement.epoch && sent.node_id
                == claim.placement.node_id && sent.agent_id == claim.placement.agent_id
            &&& session_rows.session matches Some(session) && session.state == SessionState::WaitingTools
                && session.agent_id == claim.placement.agent_id && session.head_seq == expected_head
        },
{
}

/// A taken call is stored under the claim that was made, never beside another live claim.
pub proof fn placed_claims_are_stored_as_made(
    placements: PlacementRows,
    rows: PlacedRows,
    claim: PlacedToolClaim,
    digest: Vec<u8>,
    now: Timestamp,
    result: StoreResult<Option<StoredPlacedClaim>>,
)
    requires
        call_ensures(claim_placed_tool, (&placements, &rows, &claim, digest, now), result),
    ensures
        result matches Ok(Some(taken)) ==> {
            &&& taken.owner == claim.owner && taken.placement == claim.placement
            &&& taken.expires_at == claim.expires_at && taken.job_digest@ == digest@
            &&& claim.expires_at.nanos > now.nanos
            &&& rows.claim matches Some(held) ==> held.expires_at.nanos <= now.nanos
            &&& rows.session matches Some(session) && session.agent_id == claim.placement.agent_id
                && session.state == SessionState::WaitingTools
            &&& rows.job matches Some(job) && job.request_id == claim.job.request_id && job.call_id@
                == claim.job.call_id@ && job.arguments@ == claim.job.arguments@ && job.session_id
                == claim.job.session_id && job.step == claim.job.step
            &&& rows.dispatched matches Some(sent) ==> sent.epoch == claim.placement.epoch && sent.node_id
                == claim.placement.node_id
        },
{
}

/// A fresh claim passes the check that guards completions while it and its placement live.
pub proof fn fresh_placed_claims_hold(
    placements: PlacementRows,
    rows: PlacedRows,
    claim: PlacedToolClaim,
    digest: Vec<u8>,
    now: Timestamp,
    result: StoreResult<Option<StoredPlacedClaim>>,
    later: Timestamp,
    current: Option<StoredPlacedClaim>,
    checked: StoreResult<()>,
)
    requires
        call_ensures(claim_placed_tool, (&placements, &rows, &claim, digest, now), result),
        result matches Ok(Some(taken)) && current == Some(taken),
        call_ensures(
            check_placed_tool,
            (&placements, &rows.dispatched, &current, &claim, &digest, later),
            checked,
        ),
    ensures
        checked is Ok <==> later.nanos < claim.expires_at.nanos && later.nanos
            < placements.placement->0.expires_at.nanos,
{
}

/// A renewal moves the end of a claim later and changes nothing else of it.
pub proof fn placed_renewals_only_extend(
    placements: PlacementRows,
    dispatched: Option<PlacementRecord>,
    current: Option<StoredPlacedClaim>,
    claim: PlacedToolClaim,
    digest: Vec<u8>,
    expires_at: Timestamp,
    now: Timestamp,
    result: StoreResult<StoredPlacedClaim>,
)
    requires
        call_ensures(
            renew_placed_tool,
            (&placements, &dispatched, current, &claim, &digest, expires_at, now),
            result,
        ),
    ensures
        result matches Ok(next) ==> next.expires_at == expires_at && (current matches Some(held)
            && next.owner == held.owner && next.placement == held.placement && next.job_digest@
            == held.job_digest@ && expires_at.nanos > held.expires_at.nanos && held.owner == claim.owner
            && held.expires_at.nanos > now.nanos),
{
}

/// An agent's disk has the agent's own id. It is made only where there is none, from the sandbox
/// that the session had before, else from its image, and nobody writes it yet.
pub proof fn agent_disks_are_made_once(
    placements: PlacementRows,
    rows: AgentVolumeRows,
    placement: PlacementRecord,
    now: Timestamp,
    result: StoreResult<AgentVolume>,
)
    requires
        call_ensures(agent_volume, (&placements, &rows, &placement, now), result),
    ensures
        result matches Ok(disk) ==> {
            &&& disk.id.0 == placement.agent_id.0
            &&& disk.created is Some <==> rows.volume is None
            &&& disk.created matches Some(made) ==> {
                &&& made.writer_lease is None && made.parent is None
                &&& rows.sandbox_manifest matches Some(manifest) ==> made.head_manifest == manifest
                &&& rows.sandbox_manifest is None ==> rows.image == Some(made.head_manifest)
            }
            &&& rows.session matches Some(session) && session.agent_id == placement.agent_id
            &&& placements.placement matches Some(live) && live.expires_at.nanos > now.nanos
        },
{
}

/// A call that was sent to one placement is not taken on another.
pub proof fn calls_stay_where_they_were_sent(dispatched: Option<PlacementRecord>, placement: PlacementRecord, result: StoreResult<()>)
    requires
        call_ensures(check_tool_dispatch, (&dispatched, &placement), result),
    ensures
        dispatched is None ==> result is Ok,
        dispatched matches Some(sent) ==> (result is Ok <==> sent.agent_id == placement.agent_id
            && sent.node_id == placement.node_id && sent.epoch == placement.epoch),
{
}

/// A completion that cannot be committed is told why: the log went on, or the claim or its placement is
/// gone.
pub proof fn refused_placed_calls_are_told_why(
    placements: PlacementRows,
    dispatched: Option<PlacementRecord>,
    current: Option<StoredPlacedClaim>,
    session_rows: SessionRows,
    claim: PlacedToolClaim,
    digest: Vec<u8>,
    expected_head: u64,
    result: ToolResult,
    others_pending: bool,
    now: Timestamp,
    outcome: StoreResult<(Event, SessionRows)>,
)
    requires
        call_ensures(
            complete_placed_tool,
            (
                &placements,
                &dispatched,
                &current,
                &session_rows,
                &claim,
                &digest,
                expected_head,
                result,
                others_pending,
                now,
            ),
            outcome,
        ),
    ensures
        outcome matches Err(StoreError::StaleSequence { expected, actual }) ==> expected == expected_head && (
        session_rows.session matches Some(session) && actual == session.head_seq && actual != expected),
        expected_head == u64::MAX ==> (outcome matches Err(error) && error == StoreError::SequenceOverflow),
        expected_head < u64::MAX && current is None ==> (outcome matches Err(error) && error
            == StoreError::LeaseMismatch),
{
}

} // verus!
