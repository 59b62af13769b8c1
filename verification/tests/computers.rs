//! Computers: placements, disks, collection, nodes and the tools that run on them.

use swarmy_store::agents::{AgentRecord, ImageRecord, SandboxRequirements};
use swarmy_store::error::StoreError;
use swarmy_store::events::{Event, Message, MessageRole, Part, ToolCallRecord, ToolResult};
use swarmy_store::gateway::{gateway_serves, GatewayProvider, ImageCache};
use swarmy_store::gc::{
    acquire_gc_lease, claim_gc_chunk, finish_gc_chunk, finish_gc_run, protect_reused_chunk,
    renew_gc_lease, ChunkRows, CollectorRows,
};
use swarmy_store::ids::{
    AgentId, LeaseOwnerId, ManifestId, MessageId, NodeId, RequestId, SessionId, TimerId, VolumeId,
};
use swarmy_store::nodes::{
    expire_services_at, list_services_at, put_node, put_service_heartbeat, sandbox_node,
    scan_live_nodes, NodeRecord, ServiceDetail, ServiceHeartbeat, ServiceRole,
};
use swarmy_store::placed_tools::{
    agent_volume, check_placed_tool, check_tool_dispatch, claim_placed_tool, complete_placed_tool,
    renew_placed_tool, AgentVolumeRows, PlacedRows, PlacedToolClaim,
};
use swarmy_store::placements::{
    check_computer, check_live_placement, checked_placement, free_computer, place, release,
    release_deleted_computer, renew, reserve_computer, take_over, NodeCapacity, NodeRows,
    PlacementChangeReason, PlacementRecord, PlacementRows,
};
use swarmy_store::plans::complete_plan_tool;
use swarmy_store::session::{Lease, SessionRows, SessionState, StoredSession};
use swarmy_store::time::Timestamp;
use swarmy_store::timers::{
    complete_timer_tool, fire_timer, scan_due_timers, timer_due_key, timer_tool, FireRows, Firing,
    TimerCall, TimerOutcome, TimerPlace, TimerRecord, TimerStatus,
};
use swarmy_store::tool_routing::{
    agent_call_status, append_computer_notice, deliver_computer_notice,
    fail_deleted_computer_tool, fail_lost_tool,
    lost_explanation, notice_message, notice_snapshot, notice_text, put_agent_call_status,
    route_tool_job, tool_agent, wants_notice, AgentCallStatus, DeletedCall, NoticeTarget, Routing,
};
use swarmy_store::tools::{
    check_tool, claim_tool, complete_tool, dispatch_tool_jobs, job_digest, live_since,
    place_sandbox, renew_tool, same_job, set_session_image, ClaimRows, CompletionRows, Dispatch,
    SandboxRecord, SandboxRows, ToolClaim, ToolJob,
};
use swarmy_store::volumes::{
    acquire_writer_lease, advance_volume_retained, clone_volume, create_volume, import_parent,
    live_manifests, put_image, put_manifest, release_writer_lease, renew_writer_lease,
    wants_parent, ManifestHeader, ManifestRows, Publication, VolumeRecord, VolumeRoots, VolumeRows,
};

const ID: SessionId = SessionId(5);
const AGENT: AgentId = AgentId(1);

fn at(second: i64) -> Timestamp {
    Timestamp::from_second(second).unwrap()
}

fn node(count: Option<u32>) -> NodeRows {
    NodeRows {
        node_id: NodeId(7),
        registered: Some(NodeCapacity { sandbox: true, sandboxes: 2 }),
        count,
    }
}

fn unplaced() -> PlacementRows {
    PlacementRows { placement: None, epoch: None, deleted: false }
}

fn placed() -> (PlacementRows, PlacementRecord) {
    let (rows, _) = place(&unplaced(), &node(None), AGENT, at(100), at(1)).unwrap();
    (rows, rows.placement.unwrap())
}

#[test]
fn nodes_take_as_many_computers_as_they_have_room_for() {
    assert_eq!(reserve_computer(&node(None)), Ok(1));
    assert_eq!(reserve_computer(&node(Some(1))), Ok(2));
    assert_eq!(
        reserve_computer(&node(Some(2))),
        Err(StoreError::NodeAtCapacity { detail: "2 of 2 computers".into() })
    );
    let gone = NodeRows { registered: None, ..node(None) };
    assert_eq!(reserve_computer(&gone), Err(StoreError::NodeMissing));
    let plain = NodeRows {
        registered: Some(NodeCapacity { sandbox: false, sandboxes: 2 }),
        ..node(None)
    };
    assert_eq!(reserve_computer(&plain), Err(StoreError::InvalidState));
    assert_eq!(free_computer(&Some(2)), Ok(1));
    assert_eq!(free_computer(&Some(0)), Err(StoreError::Corrupt));
    assert_eq!(free_computer(&None), Err(StoreError::Corrupt));
}

#[test]
fn placements_hand_over_by_epoch() {
    let (rows, first) = placed();
    assert_eq!((first.epoch, first.node_id), (1, NodeId(7)));
    assert_eq!(first.last_change_reason, PlacementChangeReason::Initial);
    assert_eq!(
        place(&rows, &node(None), AGENT, at(100), at(1)).err(),
        Some(StoreError::PlacementExists)
    );
    let deleted = PlacementRows { deleted: true, ..unplaced() };
    assert_eq!(
        place(&deleted, &node(None), AGENT, at(100), at(1)).err(),
        Some(StoreError::ComputerDeleted)
    );
    assert_eq!(check_live_placement(&rows, &first, at(99)), Ok(()));
    assert_eq!(check_live_placement(&rows, &first, at(100)), Err(StoreError::LeaseMismatch));
    let renewed = renew(&rows, &first, at(200), at(50)).unwrap();
    let current = renewed.placement.unwrap();
    assert_eq!((current.expires_at, current.epoch), (at(200), first.epoch));
    assert!(checked_placement(&renewed, &current).is_ok());
    let other = NodeRows { node_id: NodeId(8), ..node(Some(0)) };
    let moved = take_over(&renewed, &Some(1), &other, &current, at(400), at(300)).unwrap();
    let next = moved.rows.placement.unwrap();
    assert_eq!((next.epoch, next.node_id), (2, NodeId(8)));
    assert_eq!((moved.freed, moved.reserved), (0, 1));
    assert_eq!(check_live_placement(&moved.rows, &current, at(150)), Err(StoreError::LeaseMismatch));
    let (released, left) = release(&moved.rows, &Some(1), &next, at(301)).unwrap();
    assert_eq!((released.placement, left), (None, 0));
    assert_eq!(released.epoch, Some(2));
    let (again, _) = place(&released, &node(None), AGENT, at(500), at(302)).unwrap();
    assert_eq!(again.placement.unwrap().epoch, 3);
    let (over, count) = release_deleted_computer(&again, &Some(1)).unwrap();
    assert!(over.deleted && over.placement.is_none());
    assert_eq!(count, Some(0));
    assert_eq!(check_computer(true), Err(StoreError::ComputerDeleted));
    assert_eq!(check_computer(false), Ok(()));
}

fn header(size: u64) -> ManifestHeader {
    ManifestHeader { size, chunk_size: 64, rest: vec![1] }
}

fn volume(head: u128) -> VolumeRecord {
    VolumeRecord { head_manifest: ManifestId(head), writer_lease: None, parent: None }
}

fn disk() -> VolumeRows {
    VolumeRows { volume: Some(volume(1)), lease_seq: None, binding: None, placement: unplaced() }
}

#[test]
fn disks_are_made_from_known_manifests() {
    let made = create_volume(true, &None, false, ManifestId(1)).unwrap();
    assert_eq!(made.volume, volume(1));
    assert_eq!(made.snapshots, vec![ManifestId(1)]);
    let refused = |registered, existing: Option<VolumeRecord>, deleted| {
        create_volume(registered, &existing, deleted, ManifestId(1)).err().unwrap()
    };
    assert_eq!(refused(false, None, false), StoreError::ManifestMissing);
    assert_eq!(refused(true, Some(volume(1)), false), StoreError::VolumeExists);
    assert_eq!(refused(true, None, true), StoreError::ComputerDeleted);
    let cloned = clone_volume(VolumeId(9), &Some(volume(4)), &None, false).unwrap();
    assert_eq!(cloned.volume.parent, Some(VolumeId(9)));
    assert_eq!(cloned.volume.head_manifest, ManifestId(4));
    assert_eq!(
        clone_volume(VolumeId(9), &None, &None, false).err(),
        Some(StoreError::VolumeMissing)
    );
    assert_eq!(put_image(4, true), Ok(()));
    assert_eq!(put_image(4, false), Err(StoreError::ManifestMissing));
    assert_eq!(put_image(1 << 20, true), Err(StoreError::TooLarge));
    assert_eq!(put_manifest(&None, &header(128), 64), Ok(true));
    assert_eq!(put_manifest(&Some(header(128)), &header(128), 64), Ok(false));
    assert_eq!(
        put_manifest(&Some(header(64)), &header(128), 64),
        Err(StoreError::ManifestExists)
    );
    assert_eq!(put_manifest(&None, &header(100), 64), Err(StoreError::InvalidManifest));
    assert_eq!(put_manifest(&None, &header(128), 32), Err(StoreError::InvalidManifest));
}

#[test]
fn one_writer_holds_a_disk() {
    let (lease, rows) =
        acquire_writer_lease(&disk(), LeaseOwnerId(3), at(1), at(50), at(1)).unwrap();
    assert_eq!(lease.seq, 1);
    let again = |now: i64, until: i64| {
        acquire_writer_lease(&rows, LeaseOwnerId(4), at(now), at(until), at(now))
    };
    assert_eq!(again(49, 90).err(), Some(StoreError::LeaseMismatch));
    assert_eq!(again(90, 90).err(), Some(StoreError::LeaseMismatch));
    assert_eq!(again(50, 90).unwrap().0.seq, 2);
    let (longer, renewed) = renew_writer_lease(&rows, &lease, at(80), at(10)).unwrap();
    assert_eq!((longer.seq, longer.expires_at), (1, at(80)));
    assert_eq!(
        renew_writer_lease(&renewed, &lease, at(90), at(10)).err(),
        Some(StoreError::LeaseMismatch)
    );
    let freed = release_writer_lease(&renewed.volume, &longer, at(10)).unwrap();
    assert_eq!(freed.writer_lease, None);
    assert_eq!(
        release_writer_lease(&renewed.volume, &lease, at(10)),
        Err(StoreError::LeaseMismatch)
    );
    let full = VolumeRows { lease_seq: Some(u64::MAX), ..disk() };
    assert_eq!(
        acquire_writer_lease(&full, LeaseOwnerId(3), at(1), at(50), at(1)).err(),
        Some(StoreError::SequenceOverflow)
    );
    let (placement, bound) = placed();
    let fenced = VolumeRows { binding: Some(bound), placement, ..disk() };
    let take = |owner: u128, clock: i64| {
        acquire_writer_lease(&fenced, LeaseOwnerId(owner), at(1), at(50), at(clock)).is_ok()
    };
    assert!(take(7, 99) && !take(8, 99) && !take(7, 100));
}

#[test]
fn publications_move_the_head_once() {
    let (lease, rows) =
        acquire_writer_lease(&disk(), LeaseOwnerId(3), at(1), at(50), at(1)).unwrap();
    let manifests = || ManifestRows {
        previous_header: Some(header(128)),
        next_header: None,
        next_parent: None,
    };
    let publication =
        Publication { previous: ManifestId(1), next: ManifestId(2), header: header(128) };
    let history = vec![ManifestId(1), ManifestId(0)];
    let done =
        advance_volume_retained(&rows, &manifests(), &history, &lease, &publication, 2, at(2))
            .unwrap()
            .unwrap();
    assert_eq!(done.volume.head_manifest, ManifestId(2));
    assert_eq!(done.snapshots, vec![ManifestId(2), ManifestId(1)]);
    let after = VolumeRows { volume: Some(done.volume), ..rows };
    let stored = ManifestRows {
        previous_header: Some(header(128)),
        next_header: Some(header(128)),
        next_parent: Some(ManifestId(1)),
    };
    let repeated =
        advance_volume_retained(&after, &stored, &history, &lease, &publication, 2, at(3));
    assert!(matches!(repeated, Ok(None)));
    let failed = |rows: &VolumeRows, manifests: ManifestRows, publication: &Publication| {
        advance_volume_retained(rows, &manifests, &history, &lease, publication, 2, at(3))
            .err()
            .unwrap()
    };
    assert_eq!(failed(&after, manifests(), &publication), StoreError::VolumeHeadMismatch);
    let gone = ManifestRows { previous_header: None, ..manifests() };
    assert_eq!(failed(&rows, gone, &publication), StoreError::ManifestMissing);
    let grown = Publication { header: header(256), ..publication };
    assert_eq!(failed(&rows, manifests(), &grown), StoreError::InvalidManifest);
    let taken = ManifestRows { next_header: Some(header(64)), ..manifests() };
    let same = Publication { previous: ManifestId(1), next: ManifestId(2), header: header(128) };
    assert_eq!(failed(&rows, taken, &same), StoreError::ManifestExists);
    let mut snapshots = vec![ManifestId(2)];
    assert!(wants_parent(&snapshots, 2) && !wants_parent(&snapshots, 1));
    assert_eq!(import_parent(&mut snapshots, ManifestId(1)), Ok(()));
    assert_eq!(import_parent(&mut snapshots, ManifestId(2)), Err(StoreError::Corrupt));
    assert_eq!(snapshots, vec![ManifestId(2), ManifestId(1)]);
    // A head counts on its own only while somebody writes the disk.
    let written = VolumeRecord { writer_lease: Some(lease), ..volume(4) };
    for (record, expected) in [(volume(4), vec![3, 9]), (written, vec![3, 4, 9])] {
        let live = live_manifests(
            &vec![VolumeRoots { volume: record, snapshots: vec![ManifestId(3)] }],
            &vec![ManifestId(9)],
        );
        assert_eq!(live.into_iter().collect::<Vec<u128>>(), expected);
    }
}

#[test]
fn reuse_and_deletion_exclude_each_other() {
    let idle = CollectorRows { lease: None, sequence: None };
    let (lease, rows) = acquire_gc_lease(&idle, LeaseOwnerId(3), at(50), at(1)).unwrap();
    assert_eq!(lease.seq, 1);
    assert_eq!(
        acquire_gc_lease(&rows, LeaseOwnerId(4), at(90), at(2)).err(),
        Some(StoreError::LeaseMismatch)
    );
    let (longer, renewed) = renew_gc_lease(&rows, &lease, at(60), at(2)).unwrap();
    assert_eq!(longer.expires_at, at(60));
    assert!(finish_gc_run(&renewed, &lease, LeaseOwnerId(3), at(2)).is_err());
    let ended = finish_gc_run(&renewed, &longer, LeaseOwnerId(3), at(2)).unwrap();
    assert_eq!((ended.lease, ended.sequence), (None, Some(1)));
    let free = ChunkRows { deleting: None, reused: None };
    let claim = |chunk: &ChunkRows, dry: bool| {
        claim_gc_chunk(&rows, chunk, LeaseOwnerId(3), at(20), dry, at(30))
    };
    let (taken, reserved) = claim(&free, false).unwrap();
    assert!(taken);
    assert_eq!(reserved.deleting, Some(LeaseOwnerId(3)));
    assert_eq!(claim(&free, true), Ok((true, free)));
    assert_eq!(protect_reused_chunk(&rows, &reserved, at(30)), Err(StoreError::LeaseMismatch));
    let reused = protect_reused_chunk(&rows, &free, at(20)).unwrap();
    assert_eq!(claim(&reused, false), Ok((false, reused)));
    assert_eq!(finish_gc_chunk(&reserved, LeaseOwnerId(3)), Ok(free));
    assert_eq!(finish_gc_chunk(&reserved, LeaseOwnerId(4)), Err(StoreError::LeaseMismatch));
    // Once the collector's lease ran out, its reservation no longer holds.
    assert!(protect_reused_chunk(&rows, &reserved, at(50)).is_ok());
}

fn heard(id: u128, second: i64, sandbox: bool) -> NodeRecord {
    NodeRecord {
        node_id: NodeId(id),
        capacity: NodeCapacity { sandbox, sandboxes: 2 },
        last_heartbeat: at(second),
    }
}

#[test]
fn late_heartbeats_change_nothing() {
    assert_eq!(put_node(&Some(heard(1, 9, true)), heard(1, 8, true)), heard(1, 9, true));
    assert_eq!(put_node(&Some(heard(1, 9, true)), heard(1, 10, true)), heard(1, 10, true));
    let page = vec![heard(1, 9, false), heard(2, 3, true), heard(3, 9, true)];
    let (live, cursor) = scan_live_nodes(&page, at(9));
    assert_eq!(live.len(), 2);
    assert_eq!(cursor, Some(NodeId(3)));
    assert_eq!(sandbox_node(&live), Some(NodeId(3)));
    assert_eq!(live_since(at(100)), Ok(at(70)));
    assert_eq!(live_since(Timestamp::earliest()), Err(StoreError::InvalidState));
}

fn service(second: i64) -> ServiceHeartbeat {
    ServiceHeartbeat {
        role: ServiceRole::Scheduler,
        instance_id: "one".into(),
        version: "1".into(),
        host: "h".into(),
        started_at: at(0),
        last_seen: at(second),
        detail: ServiceDetail::Partitions(vec![1]),
    }
}

#[test]
fn services_go_stale_and_then_away() {
    assert!(put_service_heartbeat(&None, &service(1)));
    assert!(!put_service_heartbeat(&Some(service(2)), &service(1)));
    let listed = list_services_at(
        vec![service(910), service(909)],
        &vec![heard(1, 1000, true)],
        at(1000),
    );
    assert_eq!(listed.iter().map(|s| s.alive).collect::<Vec<bool>>(), [true, false, true]);
    assert_eq!(listed[2].heartbeat.role, ServiceRole::Node);
    assert_eq!(listed[2].heartbeat.instance_id, ulid::Ulid::from(1u128).to_string());
    assert_eq!(listed[2].heartbeat.version, "unknown");
    assert_eq!(expire_services_at(&vec![at(399), at(400), at(1)], at(1000)), vec![0, 2]);
}

fn session(state: SessionState, head: u64) -> StoredSession {
    StoredSession { session_id: ID, agent_id: AGENT, state, head_seq: head, snapshot_seq: None }
}

fn rows(state: SessionState, head: u64) -> SessionRows {
    SessionRows {
        session: Some(session(state, head)),
        lease: None,
        runnable: None,
        state_since: None,
        idle_since: None,
        interrupt: false,
    }
}

fn lease(seq: u64) -> Lease {
    Lease { owner: LeaseOwnerId(7), expires_at: at(100), seq }
}

fn leased(head: u64) -> SessionRows {
    SessionRows { lease: Some(lease(head + 1)), ..rows(SessionState::Leased, head) }
}

fn job() -> ToolJob {
    ToolJob {
        session_id: ID,
        step: 4,
        request_id: RequestId::for_step(ID, 4),
        call_id: "c".into(),
        arguments: "{}".into(),
    }
}

fn sandbox() -> SandboxRecord {
    SandboxRecord {
        session_id: ID,
        node_id: NodeId(7),
        volume_id: VolumeId(5),
        manifest_id: ManifestId(1),
        active_call: None,
    }
}

#[test]
fn sandboxes_stay_until_their_node_dies() {
    let empty = || SandboxRows {
        session: Some(session(SessionState::Idle, 0)),
        selected: Some(heard(8, 50, true)),
        sandbox: None,
        former: None,
        active_claim: None,
        image: Some(ManifestId(1)),
        volume: None,
    };
    let made = place_sandbox(ID, &empty(), at(40), at(60)).unwrap();
    assert_eq!((made.sandbox.node_id, made.sandbox.volume_id), (NodeId(8), VolumeId(5)));
    assert_eq!(made.volume, Some(volume(1)));
    let existing = |former: i64| SandboxRows {
        sandbox: Some(sandbox()),
        former: Some(heard(7, former, true)),
        ..empty()
    };
    let place = |rows: SandboxRows| place_sandbox(ID, &rows, at(40), at(60));
    assert_eq!(place(existing(50)).unwrap().sandbox.node_id, NodeId(7));
    assert_eq!(place(existing(1)).unwrap().sandbox.node_id, NodeId(8));
    assert_eq!(
        place(SandboxRows { image: None, ..empty() }),
        Err(StoreError::ManifestMissing)
    );
    assert_eq!(
        place(SandboxRows { volume: Some(volume(1)), ..empty() }),
        Err(StoreError::VolumeExists)
    );
    assert_eq!(
        place(SandboxRows { selected: Some(heard(8, 1, true)), ..empty() }),
        Err(StoreError::InvalidState)
    );
    assert_eq!(
        place(SandboxRows { session: None, ..empty() }),
        Err(StoreError::SessionMissing)
    );
    assert_eq!(
        set_session_image(&Some(session(SessionState::Idle, 0)), Some(ManifestId(3))),
        Ok(ManifestId(3))
    );
}

fn requested(call: &str) -> Event {
    Event::ToolCallRequested {
        seq: 4,
        request_id: RequestId::for_step(ID, 4),
        call: ToolCallRecord { call_id: call.into(), tool: "bash".into() },
    }
}

#[test]
fn only_requested_calls_are_handed_out() {
    let dispatch = |call: &str| Dispatch {
        job: job(),
        arguments_valid: true,
        event: Some(requested(call)),
        arguments_match: true,
    };
    let sent = dispatch_tool_jobs(&leased(4), ID, &lease(5), &vec![dispatch("c")], at(1)).unwrap();
    assert_eq!(sent.session.unwrap().state, SessionState::WaitingTools);
    let refused = |jobs: Vec<Dispatch>| {
        dispatch_tool_jobs(&leased(4), ID, &lease(5), &jobs, at(1)).err()
    };
    assert_eq!(refused(vec![]), Some(StoreError::InvalidState));
    assert_eq!(refused(vec![dispatch("c"), dispatch("d")]), Some(StoreError::InvalidState));
    assert_eq!(
        refused(vec![Dispatch { event: None, ..dispatch("c") }]),
        Some(StoreError::InvalidState)
    );
    assert!(same_job(&job(), &job()));
    assert!(!same_job(&job(), &ToolJob { arguments: "[]".into(), ..job() }));
    assert_eq!(job_digest(&vec![1, 2]), blake3::hash(&[1, 2]).as_bytes().to_vec());
}

fn tool_claim(owner: u128) -> ToolClaim {
    ToolClaim {
        owner: LeaseOwnerId(owner),
        node_id: NodeId(7),
        expires_at: at(50),
        attempt_volume: VolumeId(6),
        job: job(),
    }
}

fn pending() -> ClaimRows {
    ClaimRows {
        job: Some(job()),
        session: Some(session(SessionState::WaitingTools, 4)),
        sandbox: Some(sandbox()),
        active_claim: None,
        attempt: None,
    }
}

fn done(text: &str) -> ToolResult {
    ToolResult::Completed { title: "bash".into(), output: text.into() }
}

#[test]
fn calls_run_one_at_a_time_and_complete_once() {
    let taken = claim_tool(&pending(), &tool_claim(3), vec![9], at(1)).unwrap().unwrap();
    assert_eq!(taken.sandbox.active_call, Some(job().request_id));
    assert_eq!(taken.volume.parent, Some(VolumeId(5)));
    let busy = || ClaimRows {
        sandbox: Some(taken.sandbox),
        active_claim: Some(taken.claim.clone()),
        ..pending()
    };
    assert!(claim_tool(&busy(), &tool_claim(4), vec![9], at(2)).unwrap().is_none());
    assert!(claim_tool(
        &ClaimRows { job: None, ..pending() },
        &tool_claim(3),
        vec![9],
        at(1)
    )
    .unwrap()
    .is_none());
    let failed = |rows: ClaimRows, claim: ToolClaim, now: i64| {
        claim_tool(&rows, &claim, vec![9], at(now)).err().unwrap()
    };
    assert_eq!(failed(pending(), tool_claim(3), 50), StoreError::LeaseMismatch);
    let elsewhere = ToolClaim { node_id: NodeId(1), ..tool_claim(3) };
    assert_eq!(failed(pending(), elsewhere, 1), StoreError::LeaseMismatch);
    let used = ClaimRows { attempt: Some(volume(1)), ..pending() };
    assert_eq!(failed(used, tool_claim(3), 1), StoreError::VolumeExists);
    let current = Some(taken.claim.clone());
    let held = Some(taken.sandbox);
    assert_eq!(check_tool(&current, &held, &tool_claim(3), &vec![9], at(49)), Ok(()));
    for (owner, digest, now) in [(4, 9, 49), (3, 8, 49), (3, 9, 50)] {
        assert_eq!(
            check_tool(&current, &held, &tool_claim(owner), &vec![digest], at(now)),
            Err(StoreError::LeaseMismatch)
        );
    }
    assert_eq!(
        check_tool(&current, &None, &tool_claim(3), &vec![9], at(49)),
        Err(StoreError::InvalidState)
    );
    let longer =
        renew_tool(current.clone(), &held, &tool_claim(3), &vec![9], at(80), at(2)).unwrap();
    assert_eq!(longer.expires_at, at(80));
    let completion = |finished: bool, attempt_head: u128| CompletionRows {
        done: finished,
        claim: current.clone(),
        sandbox: held,
        attempt: Some(volume(attempt_head)),
        volume: Some(volume(1)),
        others_pending: false,
    };
    let complete = |rows: CompletionRows, head: u64| {
        complete_tool(
            &self::rows(SessionState::WaitingTools, 4),
            &rows,
            &tool_claim(3),
            &vec![9],
            head,
            done("ok"),
            ManifestId(2),
            at(3),
        )
    };
    let ended = complete(completion(false, 2), 4).unwrap().unwrap();
    assert_eq!(ended.volume.head_manifest, ManifestId(2));
    assert_eq!((ended.sandbox.manifest_id, ended.sandbox.active_call), (ManifestId(2), None));
    assert_eq!(ended.event.seq(), 5);
    assert_eq!(ended.rows.session.unwrap().state, SessionState::Runnable);
    assert!(complete(completion(true, 2), 4).unwrap().is_none());
    assert_eq!(complete(completion(false, 1), 4).err(), Some(StoreError::VolumeHeadMismatch));
    assert_eq!(
        complete(completion(false, 2), 3).err(),
        Some(StoreError::StaleSequence { expected: 3, actual: 4 })
    );
    let waiting = complete(CompletionRows { others_pending: true, ..completion(false, 2) }, 4);
    assert_eq!(
        waiting.unwrap().unwrap().rows.session.unwrap().state,
        SessionState::WaitingTools
    );
}

#[test]
fn placed_calls_are_fenced_by_their_placement() {
    let (placements, placement) = placed();
    let claim = || PlacedToolClaim {
        owner: LeaseOwnerId(3),
        placement,
        expires_at: at(50),
        job: job(),
    };
    let held = || PlacedRows {
        dispatched: Some(placement),
        job: Some(job()),
        session: Some(session(SessionState::WaitingTools, 4)),
        claim: None,
    };
    let taken =
        claim_placed_tool(&placements, &held(), &claim(), vec![9], at(2)).unwrap().unwrap();
    let again = PlacedRows { claim: Some(taken.clone()), ..held() };
    assert!(claim_placed_tool(&placements, &again, &claim(), vec![9], at(3)).unwrap().is_none());
    let current = Some(taken);
    let sent = Some(placement);
    assert_eq!(
        check_placed_tool(&placements, &sent, &current, &claim(), &vec![9], at(3)),
        Ok(())
    );
    assert_eq!(
        check_placed_tool(&unplaced(), &sent, &current, &claim(), &vec![9], at(3)),
        Err(StoreError::LeaseMismatch)
    );
    let later = PlacementRecord { epoch: 2, ..placement };
    assert_eq!(check_tool_dispatch(&sent, &later), Err(StoreError::LeaseMismatch));
    assert_eq!(check_tool_dispatch(&None, &later), Ok(()));
    let longer = renew_placed_tool(
        &placements, &sent, current.clone(), &claim(), &vec![9], at(80), at(3),
    )
    .unwrap();
    assert_eq!(longer.expires_at, at(80));
    let (event, ended) = complete_placed_tool(
        &placements,
        &sent,
        &current,
        &rows(SessionState::WaitingTools, 4),
        &claim(),
        &vec![9],
        4,
        done("ok"),
        false,
        at(3),
    )
    .unwrap();
    assert_eq!(event.seq(), 5);
    assert_eq!(ended.session.unwrap().state, SessionState::Runnable);
    let disk = |volume: Option<VolumeRecord>, binding: Option<PlacementRecord>| AgentVolumeRows {
        session: Some(session(SessionState::WaitingTools, 4)),
        volume,
        binding,
        sandbox_manifest: None,
        image: Some(ManifestId(1)),
    };
    let made = agent_volume(&placements, &disk(None, None), &placement, at(2)).unwrap();
    assert_eq!((made.id, made.created), (VolumeId(1), Some(volume(1))));
    let written = VolumeRecord { writer_lease: Some(lease(1)), ..volume(1) };
    assert_eq!(
        agent_volume(&placements, &disk(Some(written), None), &placement, at(2)).err(),
        Some(StoreError::LeaseMismatch)
    );
    assert!(
        agent_volume(&placements, &disk(Some(written), Some(placement)), &placement, at(2)).is_ok()
    );
}

fn target(id: u128, told: bool, state: SessionState, head: u64) -> NoticeTarget {
    let rows = rows(state, head);
    let session = StoredSession { session_id: SessionId(id), ..rows.session.unwrap() };
    NoticeTarget { id: SessionId(id), told, rows: SessionRows { session: Some(session), ..rows } }
}

fn notice(text: &str) -> Message {
    notice_message(MessageId(3), Some(text.into())).unwrap()
}

#[test]
fn lost_calls_are_failed_instead_of_repeated() {
    let (placements, placement) = placed();
    let caller = target(2, false, SessionState::WaitingTools, 4);
    let route = |stored: Option<ToolJob>, dispatched: Option<PlacementRecord>| {
        route_tool_job(
            &placements,
            &placement,
            &stored,
            &job(),
            &dispatched,
            &caller,
            &vec![],
            None,
            Err(StoreError::ManifestMissing),
            false,
            at(2),
        )
    };
    let earlier = PlacementRecord { epoch: 0, ..placement };
    assert_eq!(route(None, None), Ok(Routing::Gone));
    assert_eq!(route(Some(job()), None), Ok(Routing::Send { notice: None }));
    assert_eq!(route(Some(job()), Some(placement)), Ok(Routing::Send { notice: None }));
    match route(Some(job()), Some(earlier)) {
        Ok(Routing::Lost { notice, event, rows }) => {
            assert_eq!(notice, None);
            assert_eq!(event.seq(), 5);
            assert!(matches!(
                event,
                Event::ToolCallCompleted { result: ToolResult::Error { error }, .. }
                    if error == lost_explanation(None)
            ));
            assert_eq!(rows.session.unwrap().state, SessionState::Runnable);
        }
        other => panic!("{other:?}"),
    }
    assert_eq!(
        route(Some(ToolJob { step: 9, ..job() }), None),
        Err(StoreError::InvalidState)
    );
    let words = lost_explanation(None);
    assert!(words.ends_with("check external side effects before retrying."));
    assert_eq!(lost_explanation(Some("moved".into())), "moved");
    let (event, next) =
        fail_lost_tool(&rows(SessionState::WaitingTools, 4), &job(), words, false, at(2)).unwrap();
    assert_eq!(event.seq(), 5);
    assert_eq!(next.session.unwrap().state, SessionState::Runnable);
    let (_, over) =
        fail_lost_tool(&rows(SessionState::Completed, 4), &job(), "x".into(), false, at(2)).unwrap();
    assert_eq!(over.session.unwrap().state, SessionState::Completed);
    assert_eq!(
        fail_lost_tool(&rows(SessionState::Idle, 4), &job(), "x".into(), false, at(2)).err(),
        Some(StoreError::InvalidState)
    );
    let deleted = |gone: bool, stored: Option<ToolJob>| {
        fail_deleted_computer_tool(
            &rows(SessionState::WaitingTools, 4), gone, &stored, &job(), true, at(2),
        )
        .unwrap()
    };
    assert!(matches!(deleted(false, Some(job())), DeletedCall::ComputerExists));
    assert!(matches!(deleted(true, None), DeletedCall::NothingPending));
    assert!(matches!(
        deleted(true, Some(job())),
        DeletedCall::Failed(
            Event::ToolCallCompleted { result: ToolResult::Error { error }, .. },
            _
        ) if error == StoreError::ComputerDeleted.message()
    ));
}

#[test]
fn calls_belong_to_the_placed_node() {
    let (placements, placement) = placed();
    let agent = |done: bool, node: u128, now: i64| {
        tool_agent(
            done,
            &Some(session(SessionState::WaitingTools, 4)),
            &placements,
            &Some(placement),
            NodeId(node),
            at(now),
        )
    };
    assert_eq!(agent(true, 9, 1), Ok(None));
    assert_eq!(agent(false, 7, 1), Ok(Some(AGENT)));
    assert_eq!(agent(false, 9, 1), Err(StoreError::LeaseMismatch));
    assert_eq!(agent(false, 7, 100), Err(StoreError::LeaseMismatch));
    let sample = |second: i64| AgentCallStatus {
        agent_id: AGENT,
        node_id: NodeId(7),
        epoch: 1,
        calls: 2,
        observed_at: at(second),
        expires_at: at(second + 10),
    };
    assert_eq!(
        put_agent_call_status(&placements, &Some(sample(9)), sample(8), at(9)),
        Ok(sample(9))
    );
    assert_eq!(
        put_agent_call_status(&unplaced(), &None, sample(8), at(9)),
        Err(StoreError::LeaseMismatch)
    );
    assert_eq!(agent_call_status(&placements, &Some(sample(9)), at(18)), Some(sample(9)));
    assert_eq!(agent_call_status(&placements, &Some(sample(9)), at(19)), None);
}

#[test]
fn sessions_are_told_once_about_a_rebuilt_computer() {
    let (_, first) = placed();
    assert!(!wants_notice(&first));
    let failed = PlacementRecord { last_change_reason: PlacementChangeReason::Failure, ..first };
    assert!(wants_notice(&failed));
    let minted = u128::from(ulid::Ulid::from_parts(1_000, 0));
    assert_eq!(notice_snapshot(&Some(volume(minted)), &None), Ok(at(1)));
    assert_eq!(notice_snapshot(&None, &Some(ManifestId(minted))), Ok(at(1)));
    assert_eq!(notice_snapshot(&None, &None), Err(StoreError::ManifestMissing));
    let message = notice_message(MessageId(3), Some("moved".into())).unwrap();
    assert_eq!(message.role, MessageRole::System);
    assert_eq!(notice_text(&message), Ok("moved".into()));
    assert!(notice_message(MessageId(3), None).is_err());
    let silent = Message { id: MessageId(3), role: MessageRole::System, parts: vec![Part::Content] };
    assert_eq!(notice_text(&silent), Err(StoreError::Corrupt));
    let idle = rows(SessionState::Idle, 4);
    let (event, next) = append_computer_notice(false, &idle, message.clone()).unwrap().unwrap();
    assert_eq!(event.seq(), 5);
    assert_eq!(next.session.unwrap().head_seq, 5);
    assert!(append_computer_notice(true, &idle, message).unwrap().is_none());
}

#[test]
fn a_notice_reaches_every_session_of_the_agent_once() {
    let (_, first) = placed();
    let failed = PlacementRecord { last_change_reason: PlacementChangeReason::Failure, ..first };
    let caller = target(2, false, SessionState::WaitingTools, 4);
    // The index names the caller too, and a session that got the notice before.
    let sessions = vec![
        caller,
        target(5, true, SessionState::Idle, 7),
        target(6, false, SessionState::Idle, 0),
    ];
    assert_eq!(
        deliver_computer_notice(&first, None, Ok(notice("moved")), &caller, &sessions),
        Ok(None)
    );
    let sent = deliver_computer_notice(&failed, None, Ok(notice("moved")), &caller, &sessions)
        .unwrap()
        .unwrap();
    assert!(sent.fresh);
    assert_eq!(sent.explanation, "moved");
    let told: Vec<_> = sent.deliveries.iter().map(|one| (one.id, one.event.seq())).collect();
    assert_eq!(told, [(SessionId(2), 5), (SessionId(6), 1)]);
    for one in &sent.deliveries {
        assert!(matches!(
            &one.event,
            Event::MessageAppended { message, .. } if *message == notice("moved")
        ));
        assert_eq!(one.rows.session.unwrap().head_seq, one.event.seq());
    }
    // The words of an epoch stay: the stored message is used, whatever a new one would say.
    let stored = Some(notice("first words"));
    let fresh = Err(StoreError::ManifestMissing);
    let again = deliver_computer_notice(&failed, stored, fresh, &caller, &vec![]).unwrap().unwrap();
    assert!(!again.fresh);
    assert_eq!(again.explanation, "first words");
    let everyone = vec![target(2, true, SessionState::Idle, 5), sessions[1]];
    let quiet =
        deliver_computer_notice(&failed, Some(notice("moved")), Ok(notice("x")), &everyone[0], &everyone);
    assert_eq!(quiet.unwrap().unwrap().deliveries, vec![]);
    let error = |stored, fresh, sessions: &Vec<NoticeTarget>| {
        deliver_computer_notice(&failed, stored, fresh, &caller, sessions).err()
    };
    assert_eq!(error(None, Err(StoreError::ManifestMissing), &sessions), Some(StoreError::ManifestMissing));
    let silent = Message { id: MessageId(3), role: MessageRole::System, parts: vec![Part::Content] };
    assert_eq!(error(Some(silent), Ok(notice("x")), &sessions), Some(StoreError::Corrupt));
    let full = target(7, false, SessionState::Idle, u64::MAX);
    assert_eq!(error(None, Ok(notice("x")), &vec![full]), Some(StoreError::SequenceOverflow));
    let gone = NoticeTarget {
        id: SessionId(8),
        rows: SessionRows { session: None, ..full.rows },
        ..full
    };
    assert_eq!(error(None, Ok(notice("x")), &vec![gone, full]), Some(StoreError::SessionMissing));
}

#[test]
fn a_lost_call_ends_behind_the_notice() {
    let (_, first) = placed();
    let failed = PlacementRecord { last_change_reason: PlacementChangeReason::Failure, ..first };
    let placements = PlacementRows { placement: Some(failed), ..placed().0 };
    let caller = target(2, false, SessionState::WaitingTools, 4);
    let routed = route_tool_job(
        &placements,
        &failed,
        &Some(job()),
        &job(),
        &Some(PlacementRecord { epoch: 0, ..failed }),
        &caller,
        &vec![caller],
        None,
        Ok(notice("moved")),
        true,
        at(2),
    );
    match routed {
        Ok(Routing::Lost { notice: Some(sent), event, rows }) => {
            assert_eq!(sent.deliveries.len(), 1);
            assert_eq!(sent.deliveries[0].event.seq(), 5);
            assert_eq!(event.seq(), 6);
            assert!(matches!(
                event,
                Event::ToolCallCompleted { result: ToolResult::Error { error }, .. } if error == "moved"
            ));
            let session = rows.session.unwrap();
            assert_eq!((session.head_seq, session.state), (6, SessionState::WaitingTools));
        }
        other => panic!("{other:?}"),
    }
}

fn timer(status: TimerStatus) -> TimerRecord {
    TimerRecord {
        timer_id: TimerId(4),
        agent_id: AGENT,
        due_at: at(50),
        note: "wake up".into(),
        status,
    }
}

fn worker_call(tool: &str) -> ToolCallRecord {
    ToolCallRecord { call_id: "c".into(), tool: tool.into() }
}

#[test]
fn timer_tools_keep_their_bounds() {
    let start = |pending: usize| {
        let call = TimerCall::Start(Ok((at(50), "wake up".into())));
        timer_tool(AGENT, TimerId(4), call, pending, None)
    };
    assert!(matches!(
        start(31),
        TimerOutcome::Saved(saved) if saved == timer(TimerStatus::Pending)
    ));
    assert!(matches!(
        start(32),
        TimerOutcome::Refused(words) if words == "at most 32 pending timers per agent"
    ));
    let cancel = |stored: Option<TimerRecord>| {
        timer_tool(AGENT, TimerId(4), TimerCall::Cancel(Ok(TimerId(4))), 0, stored)
    };
    assert!(matches!(
        cancel(Some(timer(TimerStatus::Pending))),
        TimerOutcome::Saved(saved) if saved.status == TimerStatus::Cancelled
    ));
    assert!(matches!(
        cancel(Some(timer(TimerStatus::Fired { session_id: ID, seq: 1 }))),
        TimerOutcome::Refused(words) if words == "timer already fired"
    ));
    assert!(matches!(
        cancel(None),
        TimerOutcome::Refused(words) if words == "timer not found for this agent"
    ));
    assert!(matches!(
        timer_tool(AGENT, TimerId(4), TimerCall::List(Ok(())), 3, None),
        TimerOutcome::Shown
    ));
    let complete = |tool: &str, named: bool| {
        complete_timer_tool(
            &leased(4),
            4,
            &lease(5),
            RequestId::for_step(ID, 4),
            &worker_call(tool),
            false,
            named,
            Ok("[]".into()),
            at(1),
        )
    };
    let (event, next) = complete("list_timers", true).unwrap();
    assert_eq!((event.seq(), next.session.unwrap().head_seq), (5, 5));
    assert!(matches!(
        complete("set_timer", false).unwrap().0,
        Event::ToolCallCompleted { result: ToolResult::Error { error }, .. }
            if error == "timers require a named agent"
    ));
    assert_eq!(complete("bash", true).err(), Some(StoreError::InvalidState));
}

fn agent() -> AgentRecord {
    AgentRecord {
        agent_id: AGENT,
        name: "ada".into(),
        image: ImageRecord {
            name: "base".into(),
            tag: "1".into(),
            manifest_id: ManifestId(1),
        },
        description: String::new(),
        created_at: at(0),
        main_session: None,
        system_prompt: None,
        model: None,
        reasoning_effort: None,
        provider: None,
        requirements: SandboxRequirements { memory_mib: 768, gpu: false },
    }
}

#[test]
fn due_timers_fire_once() {
    let fire = |timer: TimerRecord, origin: Option<SessionRows>, agent: Option<AgentRecord>| {
        let held = FireRows { agent, deleted: false, origin, main: None, fresh_taken: false };
        fire_timer(Some(timer), held, SessionId(77), at(50)).unwrap()
    };
    let pending = timer(TimerStatus::Pending);
    let fired = match fire(pending.clone(), Some(rows(SessionState::Idle, 4)), Some(agent())) {
        Firing::Fired(fired) => fired,
        _ => panic!("the timer was due"),
    };
    assert_eq!(fired.timer.status, TimerStatus::Fired { session_id: ID, seq: 5 });
    assert_eq!(fired.rows.session.unwrap().state, SessionState::Runnable);
    assert!(matches!(
        fire(fired.timer, Some(rows(SessionState::Idle, 5)), Some(agent())),
        Firing::Nothing
    ));
    assert!(matches!(
        fire(pending.clone(), None, None),
        Firing::Cancelled(gone) if gone.status == TimerStatus::Cancelled
    ));
    let early = TimerRecord { due_at: at(51), ..pending.clone() };
    assert!(matches!(fire(early, None, Some(agent())), Firing::Nothing));
    match fire(pending, Some(rows(SessionState::Leased, 4)), Some(agent())) {
        Firing::Fired(made) => {
            let (created, owner) = made.created.unwrap();
            assert_eq!(owner.main_session, Some(SessionId(77)));
            assert_eq!(created.rows.session.unwrap().session_id, SessionId(77));
            assert_eq!(made.rows.session.unwrap().head_seq, 1);
        }
        _ => panic!("a main conversation takes the note"),
    }
}

#[test]
fn due_timers_are_found_in_order() {
    let root = vec![1, 2];
    let key = |due: i64, timer: u128| {
        timer_due_key(
            &root,
            &TimerPlace { due_at: at(due), agent_id: AGENT, timer_id: TimerId(timer) },
        )
    };
    let (begin, end) = scan_due_timers(&root, at(50), None).unwrap();
    for (due, timer, inside) in [(1, 1, true), (50, 9, true), (51, 1, false)] {
        let key = key(due, timer);
        assert_eq!(begin <= key && key < end, inside);
    }
    let last = TimerPlace { due_at: at(50), agent_id: AGENT, timer_id: TimerId(4) };
    let (next, _) = scan_due_timers(&root, at(50), Some(last)).unwrap();
    assert!(key(50, 4) < next && next <= key(50, 5));
}

#[test]
fn plans_are_replaced_only_when_they_read() {
    let complete = |tool: &str, plan: Result<String, String>| {
        complete_plan_tool(
            &leased(4),
            4,
            &lease(5),
            RequestId::for_step(ID, 4),
            &worker_call(tool),
            plan,
            at(1),
        )
    };
    let kept = complete("update_plan", Ok("1. look".into())).unwrap();
    assert!(kept.replaced);
    assert_eq!(kept.event.seq(), 5);
    assert!(!complete("update_plan", Err("no".into())).unwrap().replaced);
    assert_eq!(complete("bash", Ok("x".into())).err(), Some(StoreError::InvalidState));
}

#[test]
fn gateways_serve_until_their_record_expires() {
    let record = Some(GatewayProvider { expires_at: at(10), reason: String::new() });
    assert!(gateway_serves(&record, at(9)));
    assert!(!gateway_serves(&record, at(10)));
    assert!(!gateway_serves(&None, at(1)));
    let mut cache = ImageCache::new();
    assert_eq!(cache.get(ID), None);
    cache.remember(ID, ManifestId(3));
    assert_eq!(cache.get(ID), Some(ManifestId(3)));
}
