//! Sandboxes of sessions and the durable handoff of tool calls. An attempt works on a private disk
//! until its manifest and its result are committed together.

use crate::error::{StoreError, StoreResult};
use crate::events::{same_result, Event, EventBody, EventView, ResultView, ToolResult};
use crate::ids::{LeaseOwnerId, ManifestId, NodeId, RequestId, SessionId, VolumeId};
use crate::leases::{check_worker_lease, holds};
use crate::nodes::{alive_since, NodeRecord, NODE_STALE_SECONDS};
use crate::payload::{blake3_digest, blake3_hash};
use crate::refresh::same_bytes;
use crate::session::{transition, transitioned, Lease, SessionRows, SessionState, StoredSession};
use crate::text::same;
use crate::time::{moved, Duration, Timestamp};
use crate::volumes::{fresh_volume, VolumeRecord};
use vstd::prelude::*;

verus! {

/// A tool call for a node. The arguments are kept as text.
#[derive(Clone, Debug, PartialEq, Eq)]
pub struct ToolJob {
    pub session_id: SessionId,
    pub step: u64,
    pub request_id: RequestId,
    pub call_id: String,
    pub arguments: String,
}

/// View of a tool call for a node.
pub ghost struct JobView {
    pub session_id: SessionId,
    pub step: u64,
    pub request_id: RequestId,
    pub call_id: Seq<char>,
    pub arguments: Seq<char>,
}

impl View for ToolJob {
    type V = JobView;

    open spec fn view(&self) -> JobView {
        JobView {
            session_id: self.session_id,
            step: self.step,
            request_id: self.request_id,
            call_id: self.call_id@,
            arguments: self.arguments@,
        }
    }
}

/// View of a job that may be absent.
pub open spec fn job_view(job: Option<ToolJob>) -> Option<JobView> {
    match job {
        Some(job) => Some(job@),
        None => None,
    }
}

/// Compares jobs.
pub fn same_job(left: &ToolJob, right: &ToolJob) -> (equal: bool)
    ensures
        equal == (left@ == right@),
{
    left.session_id == right.session_id && left.step == right.step && left.request_id
        == right.request_id && same(left.call_id.as_str(), right.call_id.as_str()) && same(
        left.arguments.as_str(),
        right.arguments.as_str(),
    )
}

/// The digest by which a claim remembers its job: of the job as it is encoded.
pub fn job_digest(encoded: &Vec<u8>) -> (digest: Vec<u8>)
    ensures
        digest@ == blake3_digest(encoded@),
{
    blake3_hash(encoded.as_slice())
}

// ---------------------------------------------------------------------------------------------
// Sandboxes
// ---------------------------------------------------------------------------------------------

/// A session's sandbox: where it runs, its disk with the committed manifest, and the call at work.
#[derive(Clone, Copy, Debug, PartialEq, Eq, Structural)]
pub struct SandboxRecord {
    pub session_id: SessionId,
    pub node_id: NodeId,
    pub volume_id: VolumeId,
    pub manifest_id: ManifestId,
    pub active_call: Option<RequestId>,
}

/// A node's claim on a tool call.
#[derive(Clone, Debug, PartialEq, Eq)]
pub struct StoredToolClaim {
    pub owner: LeaseOwnerId,
    pub node_id: NodeId,
    pub expires_at: Timestamp,
    pub attempt_volume: VolumeId,
    pub job_digest: Vec<u8>,
}

/// View of a stored claim.
pub ghost struct StoredClaimView {
    pub owner: LeaseOwnerId,
    pub node_id: NodeId,
    pub expires_at: Timestamp,
    pub attempt_volume: VolumeId,
    pub job_digest: Seq<u8>,
}

impl View for StoredToolClaim {
    type V = StoredClaimView;

    open spec fn view(&self) -> StoredClaimView {
        StoredClaimView {
            owner: self.owner,
            node_id: self.node_id,
            expires_at: self.expires_at,
            attempt_volume: self.attempt_volume,
            job_digest: self.job_digest@,
        }
    }
}

/// View of a claim that may be absent.
pub open spec fn claim_view(claim: Option<StoredToolClaim>) -> Option<StoredClaimView> {
    match claim {
        Some(claim) => Some(claim@),
        None => None,
    }
}

/// Whether a stored claim is live.
pub open spec fn claim_live(claim: Option<StoredClaimView>, now: Timestamp) -> bool {
    claim matches Some(held) && held.expires_at.nanos > now.nanos
}

fn is_claimed(claim: &Option<StoredToolClaim>, now: Timestamp) -> (live: bool)
    ensures
        live == claim_live(claim_view(*claim), now),
{
    match claim {
        Some(held) => held.expires_at.nanos > now.nanos,
        None => false,
    }
}

/// Pins an image before a session's first turn.
pub fn set_session_image(session: &Option<StoredSession>, manifest: Option<ManifestId>) -> (result: StoreResult<ManifestId>)
    ensures
        match manifest {
            None => result matches Err(error) && error == StoreError::ManifestMissing,
            Some(found) => match *session {
                None => result matches Err(error) && error == StoreError::SessionMissing,
                Some(header) => if header.state == SessionState::Idle && header.head_seq == 0 {
                    result == Ok::<ManifestId, StoreError>(found)
                } else {
                    result matches Err(error) && error == StoreError::InvalidState
                },
            },
        },
{
    let found = match manifest {
        Some(found) => found,
        None => {
            return Err(StoreError::ManifestMissing);
        },
    };
    match session {
        None => Err(StoreError::SessionMissing),
        Some(header) => if header.state != SessionState::Idle || header.head_seq != 0 {
            Err(StoreError::InvalidState)
        } else {
            Ok(found)
        },
    }
}

/// The moment since when a live node was heard of.
pub fn live_since(now: Timestamp) -> (result: StoreResult<Timestamp>)
    ensures
        match moved(now.nanos as int, -30_000_000_000) {
            Some(since) => result == Ok::<Timestamp, StoreError>(since),
            None => result matches Err(error) && error == StoreError::InvalidState,
        },
{
    match now.checked_sub(Duration::from_secs(NODE_STALE_SECONDS)) {
        Some(since) => Ok(since),
        None => Err(StoreError::InvalidState),
    }
}

/// What the store holds about a sandbox that is to be placed.
pub struct SandboxRows {
    pub session: Option<StoredSession>,
    /// The node that was chosen.
    pub selected: Option<NodeRecord>,
    pub sandbox: Option<SandboxRecord>,
    /// The node of the existing sandbox.
    pub former: Option<NodeRecord>,
    /// The claim on the existing sandbox's call at work.
    pub active_claim: Option<StoredToolClaim>,
    /// The disk of the session's pinned image.
    pub image: Option<ManifestId>,
    /// The disk under the session's own id.
    pub volume: Option<VolumeRecord>,
}

/// A sandbox with the disk that is made for it, if it is new.
#[derive(Clone, Copy, Debug, PartialEq, Eq, Structural)]
pub struct PlacedSandbox {
    pub sandbox: SandboxRecord,
    pub volume: Option<VolumeRecord>,
}

/// Whether a node is known and alive.
pub open spec fn node_alive(node: Option<NodeRecord>, since: Timestamp) -> bool {
    node matches Some(record) && alive_since(record, since)
}

fn is_alive(node: &Option<NodeRecord>, since: Timestamp) -> (alive: bool)
    ensures
        alive == node_alive(*node, since),
{
    match node {
        Some(record) => record.last_heartbeat.nanos >= since.nanos,
        None => false,
    }
}

/// Places a session's sandbox on a chosen live node. One on a live node stays where it is; one on
/// a dead node moves when no claim on its call is live.
pub fn place_sandbox(id: SessionId, rows: &SandboxRows, since: Timestamp, now: Timestamp) -> (result: StoreResult<PlacedSandbox>)
    ensures
        if rows.session is None {
            result matches Err(error) && error == StoreError::SessionMissing
        } else if !node_alive(rows.selected, since) {
            result matches Err(error) && error == StoreError::InvalidState
        } else {
            match rows.sandbox {
                Some(record) => if node_alive(rows.former, since) {
                    result == Ok::<PlacedSandbox, StoreError>(
                        (PlacedSandbox { sandbox: record, volume: None }),
                    )
                } else if record.active_call is Some && claim_live(
                    claim_view(rows.active_claim),
                    now,
                ) {
                    result matches Err(error) && error == StoreError::LeaseMismatch
                } else {
                    result == Ok::<PlacedSandbox, StoreError>(
                        (PlacedSandbox {
                            sandbox: SandboxRecord {
                                node_id: rows.selected->0.node_id,
                                active_call: None,
                                ..record
                            },
                            volume: None,
                        }),
                    )
                },
                None => match rows.image {
                    None => result matches Err(error) && error == StoreError::ManifestMissing,
                    Some(manifest) => if rows.volume is Some {
                        result matches Err(error) && error == StoreError::VolumeExists
                    } else {
                        result == Ok::<PlacedSandbox, StoreError>(
                            (PlacedSandbox {
                                sandbox: SandboxRecord {
                                    session_id: id,
                                    node_id: rows.selected->0.node_id,
                                    volume_id: VolumeId(id.0),
                                    manifest_id: manifest,
                                    active_call: None,
                                },
                                volume: Some(fresh_volume(manifest, None)),
                            }),
                        )
                    },
                },
            }
        },
{
    if rows.session.is_none() {
        return Err(StoreError::SessionMissing);
    }
    let node = match rows.selected {
        Some(node) => node,
        None => {
            return Err(StoreError::InvalidState);
        },
    };
    if node.last_heartbeat.nanos < since.nanos {
        return Err(StoreError::InvalidState);
    }
    if let Some(record) = rows.sandbox {
        if is_alive(&rows.former, since) {
            return Ok(PlacedSandbox { sandbox: record, volume: None });
        }
        if record.active_call.is_some() && is_claimed(&rows.active_claim, now) {
            return Err(StoreError::LeaseMismatch);
        }
        let moved_record = SandboxRecord { node_id: node.node_id, active_call: None, ..record };
        return Ok(PlacedSandbox { sandbox: moved_record, volume: None });
    }
    let manifest = match rows.image {
        Some(manifest) => manifest,
        None => {
            return Err(StoreError::ManifestMissing);
        },
    };
    if rows.volume.is_some() {
        return Err(StoreError::VolumeExists);
    }
    let volume = VolumeRecord { head_manifest: manifest, writer_lease: None, parent: None };
    let sandbox = SandboxRecord {
        session_id: id,
        node_id: node.node_id,
        volume_id: VolumeId(id.0),
        manifest_id: manifest,
        active_call: None,
    };
    Ok(PlacedSandbox { sandbox, volume: Some(volume) })
}

// ---------------------------------------------------------------------------------------------
// Dispatch
// ---------------------------------------------------------------------------------------------

/// A job to hand out, with what the log says of it.
pub struct Dispatch {
    pub job: ToolJob,
    /// Whether the job's arguments are within bounds.
    pub arguments_valid: bool,
    /// The event at the job's step.
    pub event: Option<Event>,
    /// Whether the arguments of that event read as those of the job.
    pub arguments_match: bool,
}

/// Whether the log asked for a job.
pub open spec fn requested(event: Option<Event>, job: JobView) -> bool {
    match event {
        Some(event) => match event@.body {
            EventBody::ToolCallRequested { request_id, call } => request_id == job.request_id
                && call.call_id == job.call_id,
            _ => false,
        },
        None => false,
    }
}

/// Whether a job may be handed out for a session.
pub open spec fn dispatchable(id: SessionId, dispatch: Dispatch) -> bool {
    &&& dispatch.job.session_id == id
    &&& dispatch.job.request_id == (RequestId { session: id, step: dispatch.job.step })
    &&& dispatch.arguments_valid
    &&& requested(dispatch.event, dispatch.job@)
    &&& dispatch.arguments_match
}

fn is_dispatchable(id: SessionId, dispatch: &Dispatch) -> (fits: bool)
    ensures
        fits == dispatchable(id, *dispatch),
{
    if dispatch.job.session_id != id || RequestId::for_step(id, dispatch.job.step)
        != dispatch.job.request_id || !dispatch.arguments_valid || !dispatch.arguments_match {
        return false;
    }
    match &dispatch.event {
        Some(event) => match event {
            Event::ToolCallRequested { request_id, call, .. } => *request_id
                == dispatch.job.request_id && same(
                call.call_id.as_str(),
                dispatch.job.call_id.as_str(),
            ),
            _ => false,
        },
        None => false,
    }
}

/// Hands out jobs that the log asked for and lets the worker go. Each job becomes pending.
pub fn dispatch_tool_jobs(rows: &SessionRows, id: SessionId, lease: &Lease, jobs: &Vec<Dispatch>, now: Timestamp) -> (result: StoreResult<SessionRows>)
    ensures
        if !holds(*rows, *lease, now) {
            result matches Err(error) && error == if rows.lease == Some(*lease) && rows.session
                is None {
                StoreError::SessionMissing
            } else {
                StoreError::LeaseMismatch
            }
        } else if jobs@.len() == 0 || !(forall|i: int|
            0 <= i < jobs@.len() ==> dispatchable(id, #[trigger] jobs@[i])) {
            result matches Err(error) && error == StoreError::InvalidState
        } else {
            result == Ok::<SessionRows, StoreError>(
                transitioned(*rows, rows.session->0, SessionState::WaitingTools, now),
            )
        },
{
    let session = check_worker_lease(rows, lease, now)?;
    if jobs.len() == 0 {
        return Err(StoreError::InvalidState);
    }
    let mut i: usize = 0;
    while i < jobs.len()
        invariant
            i <= jobs.len(),
            holds(*rows, *lease, now),
            forall|j: int| 0 <= j < i ==> dispatchable(id, #[trigger] jobs@[j]),
        decreases jobs.len() - i,
    {
        if !is_dispatchable(id, &jobs[i]) {
            assert(!dispatchable(id, jobs@[i as int]));
            return Err(StoreError::InvalidState);
        }
        i += 1;
    }
    Ok(transition(rows, session, SessionState::WaitingTools, now))
}

// ---------------------------------------------------------------------------------------------
// Claims
// ---------------------------------------------------------------------------------------------

/// What a node asks for when it takes a call.
#[derive(Clone, Debug, PartialEq, Eq)]
pub struct ToolClaim {
    pub owner: LeaseOwnerId,
    pub node_id: NodeId,
    pub expires_at: Timestamp,
    pub attempt_volume: VolumeId,
    pub job: ToolJob,
}

/// What the store holds about a call that is to be taken.
pub struct ClaimRows {
    pub job: Option<ToolJob>,
    pub session: Option<StoredSession>,
    pub sandbox: Option<SandboxRecord>,
    /// The claim on the sandbox's call at work.
    pub active_claim: Option<StoredToolClaim>,
    /// The disk under the attempt's id.
    pub attempt: Option<VolumeRecord>,
}

/// What taking a call writes.
pub struct ClaimedTool {
    pub volume: VolumeRecord,
    pub sandbox: SandboxRecord,
    pub claim: StoredToolClaim,
}

/// Whether the sandbox is busy with a claimed call.
pub open spec fn busy(rows: ClaimRows, now: Timestamp) -> bool {
    rows.sandbox matches Some(sandbox) && sandbox.active_call is Some && claim_live(
        claim_view(rows.active_claim),
        now,
    )
}

/// Takes a pending call, with a private disk from the committed head. None means that the call is
/// done or the sandbox busy. `digest` is that of the claim's job.
pub fn claim_tool(rows: &ClaimRows, claim: &ToolClaim, digest: Vec<u8>, now: Timestamp) -> (result: StoreResult<Option<ClaimedTool>>)
    ensures
        if claim.expires_at.nanos <= now.nanos {
            result matches Err(error) && error == StoreError::LeaseMismatch
        } else {
            match job_view(rows.job) {
                None => result matches Ok(None),
                Some(stored) => if stored != claim.job@ {
                    result matches Err(error) && error == StoreError::InvalidState
                } else {
                    match rows.session {
                        None => result matches Err(error) && error == StoreError::SessionMissing,
                        Some(session) => if session.state != SessionState::WaitingTools
                            || rows.sandbox is None {
                            result matches Err(error) && error == StoreError::InvalidState
                        } else if rows.sandbox->0.node_id != claim.node_id {
                            result matches Err(error) && error == StoreError::LeaseMismatch
                        } else if busy(*rows, now) {
                            result matches Ok(None)
                        } else if rows.attempt is Some {
                            result matches Err(error) && error == StoreError::VolumeExists
                        } else {
                            let sandbox = rows.sandbox->0;
                            &&& result matches Ok(Some(taken))
                            &&& taken.volume == fresh_volume(
                                sandbox.manifest_id,
                                Some(sandbox.volume_id),
                            )
                            &&& taken.sandbox == (SandboxRecord {
                                active_call: Some(claim.job.request_id),
                                ..sandbox
                            })
                            &&& taken.claim@ == (StoredClaimView {
                                owner: claim.owner,
                                node_id: claim.node_id,
                                expires_at: claim.expires_at,
                                attempt_volume: claim.attempt_volume,
                                job_digest: digest@,
                            })
                        },
                    }
                },
            }
        },
{
    if claim.expires_at.nanos <= now.nanos {
        return Err(StoreError::LeaseMismatch);
    }
    match &rows.job {
        None => {
            return Ok(None);
        },
        Some(stored) => {
            if !same_job(stored, &claim.job) {
                return Err(StoreError::InvalidState);
            }
        },
    }
    let session = match rows.session {
        Some(session) => session,
        None => {
            return Err(StoreError::SessionMissing);
        },
    };
    if session.state != SessionState::WaitingTools {
        return Err(StoreError::InvalidState);
    }
    let sandbox = match rows.sandbox {
        Some(sandbox) => sandbox,
        None => {
            return Err(StoreError::InvalidState);
        },
    };
    if sandbox.node_id != claim.node_id {
        return Err(StoreError::LeaseMismatch);
    }
    if sandbox.active_call.is_some() && is_claimed(&rows.active_claim, now) {
        return Ok(None);
    }
    if rows.attempt.is_some() {
        return Err(StoreError::VolumeExists);
    }
    let volume = VolumeRecord {
        head_manifest: sandbox.manifest_id,
        writer_lease: None,
        parent: Some(sandbox.volume_id),
    };
    let stored = StoredToolClaim {
        owner: claim.owner,
        node_id: claim.node_id,
        expires_at: claim.expires_at,
        attempt_volume: claim.attempt_volume,
        job_digest: digest,
    };
    Ok(
        Some(
            ClaimedTool {
                volume,
                sandbox: SandboxRecord { active_call: Some(claim.job.request_id), ..sandbox },
                claim: stored,
            },
        ),
    )
}

/// Whether a claim is the live one on its call.
pub open spec fn claims(
    current: Option<StoredClaimView>,
    sandbox: Option<SandboxRecord>,
    claim: ToolClaim,
    digest: Seq<u8>,
    now: Timestamp,
) -> bool {
    &&& current matches Some(held)
    &&& held.owner == claim.owner
    &&& held.job_digest == digest
    &&& held.attempt_volume == claim.attempt_volume
    &&& held.node_id == claim.node_id
    &&& held.expires_at.nanos > now.nanos
    &&& sandbox matches Some(record)
    &&& record.active_call == Some(claim.job.request_id)
    &&& record.node_id == claim.node_id
}

/// Checks that a claim is the live one on its call.
pub fn check_tool(
    current: &Option<StoredToolClaim>,
    sandbox: &Option<SandboxRecord>,
    claim: &ToolClaim,
    digest: &Vec<u8>,
    now: Timestamp,
) -> (result: StoreResult<()>)
    ensures
        match result {
            Ok(_) => claims(claim_view(*current), *sandbox, *claim, digest@, now),
            Err(error) => {
                &&& !claims(claim_view(*current), *sandbox, *claim, digest@, now)
                &&& error == if *current is Some && *sandbox is None {
                    StoreError::InvalidState
                } else {
                    StoreError::LeaseMismatch
                }
            },
        },
{
    let held = match current {
        Some(held) => held,
        None => {
            return Err(StoreError::LeaseMismatch);
        },
    };
    let record = match sandbox {
        Some(record) => record,
        None => {
            return Err(StoreError::InvalidState);
        },
    };
    let at_work = match record.active_call {
        Some(call) => call == claim.job.request_id,
        None => false,
    };
    if held.owner != claim.owner || !same_bytes(&held.job_digest, digest) || held.attempt_volume
        != claim.attempt_volume || held.node_id != claim.node_id || held.expires_at.nanos
        <= now.nanos || !at_work || record.node_id != claim.node_id {
        return Err(StoreError::LeaseMismatch);
    }
    Ok(())
}

/// Extends a live claim.
pub fn renew_tool(
    current: Option<StoredToolClaim>,
    sandbox: &Option<SandboxRecord>,
    claim: &ToolClaim,
    digest: &Vec<u8>,
    expires_at: Timestamp,
    now: Timestamp,
) -> (result: StoreResult<StoredToolClaim>)
    ensures
        match result {
            Ok(next) => {
                &&& claims(claim_view(current), *sandbox, *claim, digest@, now)
                &&& expires_at.nanos > current->0.expires_at.nanos
                &&& next@ == (StoredClaimView { expires_at, ..current->0@ })
            },
            Err(error) => {
                &&& !claims(claim_view(current), *sandbox, *claim, digest@, now)
                    || expires_at.nanos <= current->0.expires_at.nanos
                &&& error == if current is Some && *sandbox is None {
                    StoreError::InvalidState
                } else {
                    StoreError::LeaseMismatch
                }
            },
        },
{
    check_tool(&current, sandbox, claim, digest, now)?;
    match current {
        Some(held) => if expires_at.nanos <= held.expires_at.nanos {
            Err(StoreError::LeaseMismatch)
        } else {
            let mut next = held;
            next.expires_at = expires_at;
            Ok(next)
        },
        None => Err(StoreError::LeaseMismatch),
    }
}

// ---------------------------------------------------------------------------------------------
// Completion
// ---------------------------------------------------------------------------------------------

/// Rows after a call's result was appended: the session wakes after its last pending call.
pub open spec fn after_call(rows: SessionRows, session: StoredSession, others_pending: bool, now: Timestamp) -> SessionRows {
    if others_pending {
        SessionRows { session: Some(session), ..rows }
    } else {
        transitioned(rows, session, SessionState::Runnable, now)
    }
}

/// Appends a call's result to a session's header, and wakes the session after its last pending
/// call.
pub fn end_call(rows: &SessionRows, session: StoredSession, others_pending: bool, now: Timestamp) -> (next: SessionRows)
    ensures
        next == after_call(*rows, session, others_pending, now),
{
    if others_pending {
        SessionRows { session: Some(session), ..*rows }
    } else {
        transition(rows, session, SessionState::Runnable, now)
    }
}

/// The event that ends a call.
pub open spec fn call_ended(seq: u64, job: JobView, result: ResultView) -> EventView {
    EventView {
        seq,
        body: EventBody::ToolCallCompleted {
            request_id: job.request_id,
            call_id: job.call_id,
            result,
        },
    }
}

/// The event that ends a call.
pub fn end_event(seq: u64, job: &ToolJob, result: ToolResult) -> (event: Event)
    ensures
        event@ == call_ended(seq, job@, result@),
{
    Event::ToolCallCompleted {
        seq,
        request_id: job.request_id,
        call_id: job.call_id.clone(),
        result,
    }
}

/// What the store holds about a call that is to be completed.
pub struct CompletionRows {
    /// Whether the call was completed before.
    pub done: bool,
    pub claim: Option<StoredToolClaim>,
    pub sandbox: Option<SandboxRecord>,
    pub attempt: Option<VolumeRecord>,
    pub volume: Option<VolumeRecord>,
    /// Whether the session waits for other calls too.
    pub others_pending: bool,
}

/// What completing a call writes. Job and claim go, and the call is done.
pub struct CompletedTool {
    pub volume: VolumeRecord,
    pub sandbox: SandboxRecord,
    pub event: Event,
    pub rows: SessionRows,
}

/// Whether the disks are as the attempt left and found them: flushed, and unchanged meanwhile.
pub open spec fn disks_agree(sandbox: SandboxRecord, attempt: VolumeRecord, volume: VolumeRecord, manifest: ManifestId) -> bool {
    &&& attempt.head_manifest == manifest
    &&& attempt.writer_lease is None
    &&& volume.head_manifest == sandbox.manifest_id
    &&& volume.writer_lease is None
}

/// Commits a call: the disk moves to the attempt's manifest, the result is appended, and the
/// session wakes after its last pending call. None means that the call was done before.
pub fn complete_tool(
    session_rows: &SessionRows,
    rows: &CompletionRows,
    claim: &ToolClaim,
    digest: &Vec<u8>,
    expected_head: u64,
    result: ToolResult,
    manifest: ManifestId,
    now: Timestamp,
) -> (outcome: StoreResult<Option<CompletedTool>>)
    ensures
        if expected_head == u64::MAX {
            outcome matches Err(error) && error == StoreError::SequenceOverflow
        } else if rows.done {
            outcome matches Ok(None)
        } else if !claims(claim_view(rows.claim), rows.sandbox, *claim, digest@, now) {
            outcome matches Err(error) && error == if rows.claim is Some && rows.sandbox is None {
                StoreError::InvalidState
            } else {
                StoreError::LeaseMismatch
            }
        } else {
            match session_rows.session {
                None => outcome matches Err(error) && error == StoreError::SessionMissing,
                Some(session) => if session.head_seq != expected_head {
                    outcome matches Err(error) && error == (StoreError::StaleSequence {
                        expected: expected_head,
                        actual: session.head_seq,
                    })
                } else if session.state != SessionState::WaitingTools {
                    outcome matches Err(error) && error == StoreError::InvalidState
                } else if rows.attempt is None || rows.volume is None {
                    outcome matches Err(error) && error == StoreError::VolumeMissing
                } else if !disks_agree(
                    rows.sandbox->0,
                    rows.attempt->0,
                    rows.volume->0,
                    manifest,
                ) {
                    outcome matches Err(error) && error == StoreError::VolumeHeadMismatch
                } else {
                    let head = (expected_head + 1) as u64;
                    &&& outcome matches Ok(Some(done))
                    &&& done.volume == (VolumeRecord { head_manifest: manifest, ..rows.volume->0 })
                    &&& done.sandbox == (SandboxRecord {
                        manifest_id: manifest,
                        active_call: None,
                        ..rows.sandbox->0
                    })
                    &&& done.event@ == call_ended(head, claim.job@, result@)
                    &&& done.rows == after_call(
                        *session_rows,
                        StoredSession { head_seq: head, ..session },
                        rows.others_pending,
                        now,
                    )
                },
            }
        },
{
    let head: u64 = match expected_head.checked_add(1) {
        Some(head) => head,
        None => {
            return Err(StoreError::SequenceOverflow);
        },
    };
    if rows.done {
        return Ok(None);
    }
    check_tool(&rows.claim, &rows.sandbox, claim, digest, now)?;
    let session = match session_rows.session {
        Some(session) => session,
        None => {
            return Err(StoreError::SessionMissing);
        },
    };
    if session.head_seq != expected_head {
        return Err(
            StoreError::StaleSequence { expected: expected_head, actual: session.head_seq },
        );
    }
    if session.state != SessionState::WaitingTools {
        return Err(StoreError::InvalidState);
    }
    let sandbox = match rows.sandbox {
        Some(sandbox) => sandbox,
        None => {
            return Err(StoreError::InvalidState);
        },
    };
    let attempt = match rows.attempt {
        Some(attempt) => attempt,
        None => {
            return Err(StoreError::VolumeMissing);
        },
    };
    let volume = match rows.volume {
        Some(volume) => volume,
        None => {
            return Err(StoreError::VolumeMissing);
        },
    };
    if attempt.head_manifest != manifest || attempt.writer_lease.is_some() || volume.head_manifest
        != sandbox.manifest_id || volume.writer_lease.is_some() {
        return Err(StoreError::VolumeHeadMismatch);
    }
    let event = end_event(head, &claim.job, result);
    let next = end_call(
        session_rows,
        StoredSession { head_seq: head, ..session },
        rows.others_pending,
        now,
    );
    Ok(
        Some(
            CompletedTool {
                volume: VolumeRecord { head_manifest: manifest, ..volume },
                sandbox: SandboxRecord { manifest_id: manifest, active_call: None, ..sandbox },
                event,
                rows: next,
            },
        ),
    )
}

/// A call that was completed holds no claim any more: its sandbox is free, so neither a renewal
/// nor another completion under the same claim goes through.
pub proof fn completed_calls_are_free(sandbox: SandboxRecord, current: Option<StoredClaimView>, claim: ToolClaim, manifest: ManifestId, digest: Seq<u8>, now: Timestamp)
    ensures
        !claims(
            current,
            Some(SandboxRecord { manifest_id: manifest, active_call: None, ..sandbox }),
            claim,
            digest,
            now,
        ),
{
}

/// While one claim on a sandbox is live, no other claim takes a call of it.
pub proof fn one_call_at_a_time(rows: ClaimRows, claim: ToolClaim, digest: Seq<u8>, now: Timestamp)
    requires
        claims(claim_view(rows.active_claim), rows.sandbox, claim, digest, now),
    ensures
        busy(rows, now),
{
}

/// A completed call appends one event behind the head: the end of the job's own call, with exactly
/// the result that was passed in, title and output included. The disk and the sandbox end at the
/// new manifest and the sandbox is free.
pub proof fn completed_calls_keep_their_result(
    session_rows: SessionRows,
    rows: CompletionRows,
    claim: ToolClaim,
    digest: Vec<u8>,
    expected_head: u64,
    result: ToolResult,
    manifest: ManifestId,
    now: Timestamp,
    outcome: StoreResult<Option<CompletedTool>>,
)
    requires
        call_ensures(
            complete_tool,
            (&session_rows, &rows, &claim, &digest, expected_head, result, manifest, now),
            outcome,
        ),
    ensures
        outcome matches Ok(Some(done)) ==> {
            &&& session_rows.session is Some && done.rows.session is Some
            &&& done.event matches Event::ToolCallCompleted { seq, request_id, call_id, result: kept } && seq
                == session_rows.session->0.head_seq + 1 && seq == done.rows.session->0.head_seq
                && request_id == claim.job.request_id && call_id@ == claim.job.call_id@ && same_result(
                kept,
                result,
            )
            &&& done.volume.head_manifest == manifest && done.volume.parent == rows.volume->0.parent
            &&& done.volume.writer_lease is None
            &&& done.sandbox.manifest_id == manifest && done.sandbox.active_call is None
            &&& rows.sandbox matches Some(before) && done.sandbox.session_id == before.session_id
                && done.sandbox.node_id == before.node_id && done.sandbox.volume_id == before.volume_id
        },
        rows.done && expected_head < u64::MAX ==> (outcome matches Ok(kept) && kept is None),
{
    if let Ok(Some(done)) = outcome {
        if let Event::ToolCallCompleted { seq, request_id, call_id, result: kept } = done.event {
            results_have_whole_views(kept, result);
        }
    }
}

/// Two results have one view exactly where they say the same.
pub proof fn results_have_whole_views(left: ToolResult, right: ToolResult)
    ensures
        left@ == right@ <==> same_result(left, right),
{
}

/// A call is completed only by the claim that holds it, on the disk that it worked on, while the
/// session waits where the claim's owner saw it.
pub proof fn calls_end_under_their_claim(
    session_rows: SessionRows,
    rows: CompletionRows,
    claim: ToolClaim,
    digest: Vec<u8>,
    expected_head: u64,
    result: ToolResult,
    manifest: ManifestId,
    now: Timestamp,
    outcome: StoreResult<Option<CompletedTool>>,
)
    requires
        call_ensures(
            complete_tool,
            (&session_rows, &rows, &claim, &digest, expected_head, result, manifest, now),
            outcome,
        ),
    ensures
        outcome matches Ok(Some(_)) ==> {
            &&& !rows.done
            &&& rows.claim matches Some(held) && held.owner == claim.owner && held.node_id == claim.node_id
                && held.attempt_volume == claim.attempt_volume && held.job_digest@ == digest@
                && held.expires_at.nanos > now.nanos
            &&& rows.sandbox matches Some(sandbox) && sandbox.active_call == Some(claim.job.request_id)
                && sandbox.node_id == claim.node_id && rows.volume->0.head_manifest == sandbox.manifest_id
            &&& rows.attempt matches Some(attempt) && attempt.head_manifest == manifest
                && attempt.writer_lease is None
            &&& rows.volume matches Some(volume) && volume.writer_lease is None
            &&& session_rows.session matches Some(session) && session.head_seq == expected_head
                && session.state == SessionState::WaitingTools
        },
{
}

/// A session whose call ended wakes once no other call is pending, and is queued from that moment
/// on; until then it stays as it was but for its head. Nothing else of it changes either way.
pub proof fn ended_calls_wake_the_session(
    rows: SessionRows,
    session: StoredSession,
    others_pending: bool,
    now: Timestamp,
    next: SessionRows,
)
    requires
        call_ensures(end_call, (&rows, session, others_pending, now), next),
    ensures
        next.session matches Some(after) && after.session_id == session.session_id && after.agent_id
            == session.agent_id && after.head_seq == session.head_seq && after.snapshot_seq
            == session.snapshot_seq,
        others_pending ==> next.session->0.state == session.state && next.lease == rows.lease
            && next.runnable == rows.runnable && next.state_since == rows.state_since,
        !others_pending ==> next.session->0.state == SessionState::Runnable && next.state_since == Some(now)
            && (next.runnable matches Some(entry) && entry.session_id == session.session_id
            && entry.wake_at == now),
        next.idle_since == rows.idle_since && next.interrupt == rows.interrupt,
{
}

/// The rows that a completed call leaves follow the same rule.
pub proof fn completed_calls_wake_the_session(
    session_rows: SessionRows,
    rows: CompletionRows,
    claim: ToolClaim,
    digest: Vec<u8>,
    expected_head: u64,
    result: ToolResult,
    manifest: ManifestId,
    now: Timestamp,
    outcome: StoreResult<Option<CompletedTool>>,
)
    requires
        call_ensures(
            complete_tool,
            (&session_rows, &rows, &claim, &digest, expected_head, result, manifest, now),
            outcome,
        ),
    ensures
        outcome matches Ok(Some(done)) ==> {
            let before = session_rows.session->0;
            let after = done.rows.session->0;
            &&& after.session_id == before.session_id && after.agent_id == before.agent_id
            &&& after.snapshot_seq == before.snapshot_seq && after.head_seq == before.head_seq + 1
            &&& rows.others_pending <==> after.state == SessionState::WaitingTools
            &&& !rows.others_pending ==> after.state == SessionState::Runnable
            &&& !rows.others_pending ==> (done.rows.runnable matches Some(entry) && entry.session_id
                == before.session_id && entry.wake_at == now)
            &&& rows.others_pending ==> done.rows.runnable == session_rows.runnable
            &&& done.rows.lease == session_rows.lease
        },
{
}

/// The event that ends a call names the job's request and call, and keeps the result.
pub proof fn end_events_keep_the_result(seq: u64, job: ToolJob, result: ToolResult, event: Event)
    requires
        call_ensures(end_event, (seq, &job, result), event),
    ensures
        event matches Event::ToolCallCompleted { seq: at, request_id, call_id, result: kept } && at == seq
            && request_id == job.request_id && call_id@ == job.call_id@ && same_result(kept, result),
{
    if let Event::ToolCallCompleted { seq: at, request_id, call_id, result: kept } = event {
        results_have_whole_views(kept, result);
    }
}

/// A taken call works on a private disk: a child of the sandbox's disk at its manifest, which
/// nobody writes yet. The sandbox runs the claimed call and is otherwise unchanged, and the stored
/// claim is the one that was made.
pub proof fn taken_calls_work_on_a_private_disk(
    rows: ClaimRows,
    claim: ToolClaim,
    digest: Vec<u8>,
    now: Timestamp,
    result: StoreResult<Option<ClaimedTool>>,
)
    requires
        call_ensures(claim_tool, (&rows, &claim, digest, now), result),
    ensures
        result matches Ok(Some(taken)) ==> {
            &&& rows.sandbox is Some
            &&& taken.volume.head_manifest == rows.sandbox->0.manifest_id
            &&& taken.volume.parent == Some(rows.sandbox->0.volume_id)
            &&& taken.volume.writer_lease is None
            &&& taken.sandbox.active_call == Some(claim.job.request_id)
            &&& taken.sandbox.session_id == rows.sandbox->0.session_id
            &&& taken.sandbox.node_id == rows.sandbox->0.node_id
            &&& taken.sandbox.volume_id == rows.sandbox->0.volume_id
            &&& taken.sandbox.manifest_id == rows.sandbox->0.manifest_id
            &&& taken.claim.owner == claim.owner && taken.claim.node_id == claim.node_id
            &&& taken.claim.expires_at == claim.expires_at
            &&& taken.claim.attempt_volume == claim.attempt_volume
            &&& taken.claim.job_digest@ == digest@
        },
        result matches Ok(Some(_)) ==> {
            &&& claim.expires_at.nanos > now.nanos
            &&& rows.job matches Some(job) && job.session_id == claim.job.session_id && job.step
                == claim.job.step && job.request_id == claim.job.request_id && job.call_id@
                == claim.job.call_id@ && job.arguments@ == claim.job.arguments@
            &&& rows.session matches Some(session) && session.state == SessionState::WaitingTools
            &&& rows.sandbox->0.node_id == claim.node_id
            &&& rows.attempt is None
            &&& rows.sandbox->0.active_call is Some ==> (rows.active_claim matches Some(held)
                ==> held.expires_at.nanos <= now.nanos)
        },
{
}

/// A fresh claim passes the check that guards completions, until it runs out.
pub proof fn fresh_claims_hold(
    rows: ClaimRows,
    claim: ToolClaim,
    digest: Vec<u8>,
    now: Timestamp,
    result: StoreResult<Option<ClaimedTool>>,
    later: Timestamp,
    current: Option<StoredToolClaim>,
    sandbox: Option<SandboxRecord>,
    checked: StoreResult<()>,
)
    requires
        call_ensures(claim_tool, (&rows, &claim, digest, now), result),
        result matches Ok(Some(taken)) && current == Some(taken.claim) && sandbox == Some(taken.sandbox),
        call_ensures(check_tool, (&current, &sandbox, &claim, &digest, later), checked),
    ensures
        checked is Ok <==> later.nanos < claim.expires_at.nanos,
{
}

/// A renewal moves the end of a claim later and changes nothing else of it.
pub proof fn renewals_only_extend(
    current: Option<StoredToolClaim>,
    sandbox: Option<SandboxRecord>,
    claim: ToolClaim,
    digest: Vec<u8>,
    expires_at: Timestamp,
    now: Timestamp,
    result: StoreResult<StoredToolClaim>,
)
    requires
        call_ensures(renew_tool, (current, &sandbox, &claim, &digest, expires_at, now), result),
    ensures
        result matches Ok(next) ==> {
            &&& current matches Some(held) && next.owner == held.owner && next.node_id == held.node_id
                && next.attempt_volume == held.attempt_volume && next.job_digest@ == held.job_digest@
                && next.expires_at.nanos > held.expires_at.nanos && held.expires_at.nanos > now.nanos
                && held.owner == claim.owner
            &&& next.expires_at == expires_at
        },
{
}

/// A sandbox that is placed on the chosen node keeps its disk and its manifest; a first one gets
/// the session's own disk, at the session's image. A sandbox whose node is alive stays where it is.
pub proof fn sandboxes_keep_their_disk(id: SessionId, rows: SandboxRows, since: Timestamp, now: Timestamp, result: StoreResult<PlacedSandbox>)
    requires
        call_ensures(place_sandbox, (id, &rows, since, now), result),
    ensures
        result matches Ok(placed) ==> {
            &&& rows.session is Some
            &&& match rows.sandbox {
                Some(before) => {
                    &&& placed.volume is None
                    &&& placed.sandbox.session_id == before.session_id
                    &&& placed.sandbox.volume_id == before.volume_id
                    &&& placed.sandbox.manifest_id == before.manifest_id
                    &&& placed.sandbox == before || placed.sandbox.node_id == rows.selected->0.node_id
                        && placed.sandbox.active_call is None
                    &&& rows.former is None ==> placed.sandbox.active_call is None
                },
                None => {
                    &&& placed.sandbox.session_id == id && placed.sandbox.volume_id.0 == id.0
                    &&& placed.sandbox.node_id == rows.selected->0.node_id
                    &&& rows.image == Some(placed.sandbox.manifest_id)
                    &&& placed.sandbox.active_call is None
                    &&& placed.volume matches Some(volume) && volume.head_manifest
                        == placed.sandbox.manifest_id && volume.parent is None && volume.writer_lease is None
                },
            }
        },
{
}

/// Calls go out only for the session that asked for them and only under its worker's lease; the
/// session then waits for them.
pub proof fn dispatches_wait_for_tools(
    rows: SessionRows,
    id: SessionId,
    lease: Lease,
    jobs: Vec<Dispatch>,
    now: Timestamp,
    result: StoreResult<SessionRows>,
)
    requires
        call_ensures(dispatch_tool_jobs, (&rows, id, &lease, &jobs, now), result),
    ensures
        result matches Ok(next) ==> {
            &&& rows.lease == Some(lease) && lease.expires_at.nanos > now.nanos
            &&& rows.session is Some && next.session is Some
            &&& next.session->0.state == SessionState::WaitingTools
            &&& next.session->0.session_id == rows.session->0.session_id
            &&& next.session->0.head_seq == rows.session->0.head_seq
            &&& next.lease is None && next.state_since == Some(now)
            &&& jobs@.len() > 0
            &&& forall|i: int|
                0 <= i < jobs@.len() ==> (#[trigger] jobs@[i]).job.session_id == id && jobs@[i].job.request_id
                    == (RequestId { session: id, step: jobs@[i].job.step }) && jobs@[i].arguments_valid
                    && jobs@[i].arguments_match && (jobs@[i].event matches Some(Event::ToolCallRequested {
                    request_id,
                    call,
                    ..
                }) && request_id == jobs@[i].job.request_id && call.call_id@ == jobs@[i].job.call_id@)
        },
{
    if result is Ok {
        assert forall|i: int| 0 <= i < jobs@.len() implies (#[trigger] jobs@[i]).job.session_id == id
            && jobs@[i].job.request_id == (RequestId { session: id, step: jobs@[i].job.step })
            && jobs@[i].arguments_valid && jobs@[i].arguments_match && (jobs@[i].event matches Some(
            Event::ToolCallRequested { request_id, call, .. },
        ) && request_id == jobs@[i].job.request_id && call.call_id@ == jobs@[i].job.call_id@) by {
            assert(dispatchable(id, jobs@[i]));
        }
    }
}

/// Jobs are the same exactly where every part of them is.
pub proof fn jobs_agree_in_every_part(left: ToolJob, right: ToolJob, equal: bool)
    requires
        call_ensures(same_job, (&left, &right), equal),
    ensures
        equal <==> left.session_id == right.session_id && left.step == right.step && left.request_id
            == right.request_id && left.call_id@ == right.call_id@ && left.arguments@ == right.arguments@,
{
}

/// An image is set only on a session that has done nothing yet.
pub proof fn images_are_set_before_work(session: Option<StoredSession>, manifest: Option<ManifestId>, result: StoreResult<ManifestId>)
    requires
        call_ensures(set_session_image, (&session, manifest), result),
    ensures
        result matches Ok(image) ==> manifest == Some(image) && (session matches Some(header)
            && header.head_seq == 0 && header.state == SessionState::Idle),
        session matches Some(header) ==> (header.head_seq == 0 && header.state == SessionState::Idle
            && manifest is Some ==> result is Ok),
{
}

/// A node counts as live for thirty seconds after its heartbeat.
pub proof fn nodes_live_for_thirty_seconds(now: Timestamp, result: StoreResult<Timestamp>)
    requires
        call_ensures(live_since, (now,), result),
    ensures
        result matches Ok(since) ==> now.nanos - since.nanos == 30_000_000_000,
{
}

/// Jobs with the same bytes have the same digest.
pub proof fn digests_depend_on_the_bytes(left: Vec<u8>, right: Vec<u8>, a: Vec<u8>, b: Vec<u8>)
    requires
        left@ == right@,
        call_ensures(job_digest, (&left,), a),
        call_ensures(job_digest, (&right,), b),
    ensures
        a@ == b@,
        a@ == blake3_digest(left@),
{
}

/// A completion that cannot be committed is told why: the log went on, the claim is gone, or the disk
/// is not where it should be.
pub proof fn refused_calls_are_told_why(
    session_rows: SessionRows,
    rows: CompletionRows,
    claim: ToolClaim,
    digest: Vec<u8>,
    expected_head: u64,
    result: ToolResult,
    manifest: ManifestId,
    now: Timestamp,
    outcome: StoreResult<Option<CompletedTool>>,
)
    requires
        call_ensures(
            complete_tool,
            (&session_rows, &rows, &claim, &digest, expected_head, result, manifest, now),
            outcome,
        ),
    ensures
        outcome matches Err(StoreError::StaleSequence { expected, actual }) ==> expected == expected_head && (
        session_rows.session matches Some(session) && actual == session.head_seq && actual != expected),
        expected_head == u64::MAX ==> (outcome matches Err(error) && error == StoreError::SequenceOverflow),
        !rows.done && expected_head < u64::MAX && rows.claim is None ==> (outcome matches Err(error) && error
            == StoreError::LeaseMismatch),
        outcome matches Err(StoreError::VolumeMissing) ==> rows.attempt is None || rows.volume is None,
{
}

} // verus!
