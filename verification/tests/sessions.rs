//! Leases, logs, inference requests, interruptions and waits of sessions.

use swarmy_store::error::StoreError;
use swarmy_store::events::{
    request_from_event, Event, Message, MessageRole, Part, TokenUsage, ToolCallRecord,
};
use swarmy_store::ids::{AgentId, LeaseOwnerId, MessageId, RequestId, SessionId};
use swarmy_store::inference::{
    bills, check_idle_completion, commit_inference, complete_inference, completion_event, put_inference_input,
    put_inflight_leased, release_inference, scanned_inflight, start_inference, IdempotencyState,
    CommittedInference, InferenceClaim, InflightRecord, RequestRows,
};
use swarmy_store::interrupt::{finish_runnable_interrupt, interrupt_session, InterruptResult};
use swarmy_store::leases::{
    check_worker_lease, claim_lease, insert_runnable, reap_lease, release_lease, renew_lease,
    set_state, verify_lease, wake_session,
};
use swarmy_store::log::{
    append_events, append_user_message_idempotent, sequence_events, user_event, write_snapshot,
};
use swarmy_store::session::{Lease, RunnableEntry, SessionRows, SessionState, StoredSession};
use swarmy_store::time::{Duration, Timestamp};
use swarmy_store::turns::{
    finish_turn, last_event_is_operator_interrupt, submit_inference_after,
};
use swarmy_store::waits::{
    claim_entry, clear_inference_wait, entry_failure, entry_failures, entry_open_until,
    entry_reason, entry_success, note_reason, open_state, park_inference,
    park_runnable_for_breaker, wake_inference_wait, Breaker, CredentialKey, InferenceFailureWait,
    InferenceWait,
};

const ID: SessionId = SessionId(5);

fn at(second: i64) -> Timestamp {
    Timestamp::from_second(second).unwrap()
}

fn rows(state: SessionState, head: u64) -> SessionRows {
    SessionRows {
        session: Some(StoredSession {
            session_id: ID,
            agent_id: AgentId(1),
            state,
            head_seq: head,
            snapshot_seq: None,
        }),
        lease: None,
        runnable: None,
        state_since: None,
        idle_since: None,
        interrupt: false,
    }
}

fn lease(seq: u64) -> Lease {
    Lease { owner: LeaseOwnerId(7), expires_at: at(100), seq }
}

fn leased(head: u64) -> SessionRows {
    SessionRows { lease: Some(lease(head + 1)), ..rows(SessionState::Leased, head) }
}

fn missing() -> SessionRows {
    SessionRows { session: None, ..rows(SessionState::Idle, 0) }
}

fn state(rows: &SessionRows) -> SessionState {
    rows.session.unwrap().state
}

#[test]
fn claims_take_runnable_sessions_and_fence_the_log() {
    let (was, woken) = wake_session(&rows(SessionState::Idle, 3), at(1)).unwrap();
    assert_eq!(was, SessionState::Idle);
    assert_eq!(woken.runnable.unwrap().wake_at, at(1));
    let (token, claimed) = claim_lease(&woken, LeaseOwnerId(7), at(100), at(2)).unwrap();
    assert_eq!(token, lease(4));
    assert!(claimed.runnable.is_none());
    assert_eq!(state(&claimed), SessionState::Leased);
    assert_eq!(check_worker_lease(&claimed, &token, at(99)).unwrap().head_seq, 3);
    assert_eq!(check_worker_lease(&claimed, &token, at(100)), Err(StoreError::LeaseMismatch));
    assert_eq!(check_worker_lease(&claimed, &lease(9), at(2)), Err(StoreError::LeaseMismatch));
    let refused =
        |rows: &SessionRows| claim_lease(rows, LeaseOwnerId(7), at(100), at(2)).err().unwrap();
    assert_eq!(refused(&claimed), StoreError::InvalidState);
    assert_eq!(refused(&missing()), StoreError::SessionMissing);
    assert_eq!(refused(&SessionRows { interrupt: true, ..woken }), StoreError::InvalidState);
    assert_eq!(refused(&rows(SessionState::Runnable, u64::MAX)), StoreError::SequenceOverflow);
    assert_eq!(wake_session(&missing(), at(1)), Err(StoreError::SessionMissing));
}

#[test]
fn renewals_and_releases_need_the_whole_token() {
    let held = Some(lease(4));
    assert_eq!(verify_lease(&held, &lease(4)), Ok(lease(4)));
    assert_eq!(verify_lease(&held, &lease(5)), Err(StoreError::LeaseMismatch));
    let renewed = renew_lease(&held, &lease(4), at(50), at(200)).unwrap();
    assert_eq!(renewed.expires_at, at(200));
    assert_eq!(renew_lease(&held, &lease(4), at(50), at(100)), Err(StoreError::LeaseMismatch));
    assert_eq!(renew_lease(&held, &lease(4), at(100), at(200)), Err(StoreError::LeaseMismatch));
    let released = release_lease(&leased(3), &lease(4), true, at(5)).unwrap();
    assert!(released.lease.is_none());
    assert_eq!(
        release_lease(&leased(3), &lease(5), true, at(5)),
        Err(StoreError::LeaseMismatch)
    );
}

#[test]
fn expired_leases_are_reaped_into_the_runnable_index() {
    let reaped = reap_lease(&leased(3), &lease(4), at(100)).unwrap();
    assert_eq!(state(&reaped), SessionState::Runnable);
    assert!(reaped.lease.is_none() && reaped.runnable.is_some());
    assert_eq!(reap_lease(&leased(3), &lease(4), at(99)), Err(StoreError::LeaseMismatch));
    assert_eq!(check_worker_lease(&reaped, &lease(4), at(99)), Err(StoreError::LeaseMismatch));
}

#[test]
fn states_change_under_a_lease_only_while_leased() {
    let next = set_state(&leased(3), SessionState::Idle, true, Some(lease(4)), at(5)).unwrap();
    assert_eq!(state(&next), SessionState::Idle);
    assert_eq!(next.idle_since, Some(at(5)));
    assert!(set_state(&leased(3), SessionState::Idle, false, Some(lease(4)), at(5)).is_err());
    let entry = RunnableEntry { session_id: ID, priority: 3, wake_at: at(9) };
    assert_eq!(insert_runnable(&leased(3), entry), Err(StoreError::InvalidState));
    let put = insert_runnable(&rows(SessionState::Runnable, 1), entry).unwrap();
    assert_eq!(put.runnable, Some(entry));
}

fn message(role: MessageRole) -> Message {
    Message { id: MessageId(9), role, parts: vec![Part::Text { text: "hi".into() }] }
}

fn appended(role: MessageRole) -> Event {
    Event::MessageAppended { seq: 0, message: message(role) }
}

fn usage() -> TokenUsage {
    TokenUsage {
        input_tokens: 1,
        cached_input_tokens: 0,
        cache_write_input_tokens: 0,
        output_tokens: 1,
        reasoning_output_tokens: 0,
        total_tokens: 2,
    }
}

fn completed(request: RequestId, parts: Vec<Part>) -> Event {
    Event::InferenceCompleted {
        seq: 0,
        request_id: request,
        message: Message { id: MessageId(1), role: MessageRole::Assistant, parts },
        usage: usage(),
        cost_micros: 0,
        provider: "p".into(),
    }
}

fn failed(request: RequestId, error: &str) -> Event {
    Event::InferenceFailed {
        seq: 0,
        request_id: request,
        error: error.into(),
        retryable: true,
        retry_at: None,
    }
}

#[test]
fn appends_number_events_after_the_head() {
    let (head, placed) = sequence_events(
        4,
        vec![appended(MessageRole::User), appended(MessageRole::Assistant)],
    )
    .unwrap();
    assert_eq!(head, 6);
    assert_eq!(placed.iter().map(Event::seq).collect::<Vec<u64>>(), [5, 6]);
    assert_eq!(
        sequence_events(u64::MAX, vec![appended(MessageRole::User)]),
        Err(StoreError::SequenceOverflow)
    );
    let request = RequestId::for_step(ID, 6);
    let events = vec![
        appended(MessageRole::User),
        Event::InferenceRequested { seq: 0, request_id: request, step: 6 },
    ];
    let done =
        append_events(&rows(SessionState::Idle, 4), None, 4, &events, None, true, at(1)).unwrap();
    assert_eq!(done.head, 6);
    assert_eq!(done.turn, Some(MessageId(9)));
    assert_eq!(done.request_turns, vec![(request, MessageId(9))]);
    assert_eq!(state(&done.rows), SessionState::Runnable);
    let stale = append_events(&rows(SessionState::Idle, 5), None, 4, &events, None, false, at(1));
    assert_eq!(stale.err(), Some(StoreError::StaleSequence { expected: 4, actual: 5 }));
    let busy = append_events(&leased(4), None, 4, &events, None, true, at(1));
    assert_eq!(busy.err(), Some(StoreError::InvalidState));
    let fenced = append_events(
        &leased(4),
        None,
        4,
        &events,
        Some((lease(9), at(1))),
        false,
        at(1),
    );
    assert_eq!(fenced.err(), Some(StoreError::LeaseMismatch));
}

#[test]
fn repeated_appends_answer_as_before() {
    let idle = rows(SessionState::Idle, 4);
    let first =
        append_user_message_idempotent(&idle, None, None, 4, &message(MessageRole::User), at(1))
            .unwrap();
    assert_eq!((first.head, first.fresh), (5, true));
    assert_eq!(first.turn, Some(MessageId(9)));
    let again = append_user_message_idempotent(
        &first.rows,
        first.turn,
        Some(5),
        4,
        &message(MessageRole::User),
        at(2),
    )
    .unwrap();
    assert_eq!((again.head, again.fresh), (5, false));
    assert_eq!(again.rows, first.rows);
    assert_eq!(
        append_user_message_idempotent(&idle, None, None, 4, &message(MessageRole::Tool), at(1))
            .err(),
        Some(StoreError::InvalidState)
    );
    assert!(user_event(message(MessageRole::User)).is_ok());
    assert_eq!(user_event(message(MessageRole::System)), Err(StoreError::InvalidState));
}

#[test]
fn snapshots_move_forward_within_the_log() {
    let session = rows(SessionState::Idle, 4).session;
    let next = write_snapshot(session, 3).unwrap();
    assert_eq!(next.snapshot_seq, Some(3));
    assert_eq!(
        write_snapshot(Some(next), 2),
        Err(StoreError::StaleSequence { expected: 2, actual: 4 })
    );
    assert_eq!(
        write_snapshot(session, 5),
        Err(StoreError::StaleSequence { expected: 5, actual: 4 })
    );
    assert_eq!(write_snapshot(None, 1), Err(StoreError::SessionMissing));
}

fn claim(owner: u128) -> InferenceClaim {
    InferenceClaim {
        session_id: ID,
        request_id: RequestId::for_step(ID, 4),
        owner: LeaseOwnerId(owner),
        expires_at: at(100),
    }
}

fn requested() -> RequestRows {
    RequestRows {
        idempotency: Some(IdempotencyState::Requested),
        claim: Some(claim(1)),
        inflight: Some(InflightRecord { session_id: ID, seq: 4 }),
        payload: true,
    }
}

fn commit(
    rows: &SessionRows,
    request: &RequestRows,
    by: InferenceClaim,
    head: u64,
    snapshot: Option<u64>,
    now: Timestamp,
) -> Result<Option<CommittedInference>, StoreError> {
    let event = completed(by.request_id, vec![Part::Content]);
    commit_inference(rows, request, &by, head, event, vec![7], snapshot, now, now)
}

#[test]
fn requests_are_claimed_and_completed_once() {
    let fresh = RequestRows { idempotency: None, claim: None, ..requested() };
    let waiting = rows(SessionState::WaitingInference, 4);
    let (taken, started) = start_inference(&fresh, waiting.session, &claim(1), at(1)).unwrap();
    assert!(taken);
    assert_eq!(started.claim, Some(claim(1)));
    let (second, _) = start_inference(&started, waiting.session, &claim(2), at(1)).unwrap();
    assert!(!second);
    let renewed = InferenceClaim { expires_at: at(200), ..claim(2) };
    let (late, taken_over) =
        start_inference(&started, waiting.session, &renewed, at(100)).unwrap();
    assert!(late);
    assert_eq!(taken_over.claim, Some(renewed));
    assert_eq!(release_inference(Some(claim(1)), &claim(1)), None);
    assert_eq!(release_inference(Some(claim(1)), &claim(2)), Some(claim(1)));
    let done = commit(&waiting, &requested(), claim(1), 4, None, at(5)).unwrap().unwrap();
    assert_eq!(done.rows.session.unwrap().head_seq, 5);
    assert_eq!(state(&done.rows), SessionState::Runnable);
    assert_eq!(
        done.request,
        RequestRows {
            idempotency: Some(IdempotencyState::Completed),
            claim: None,
            inflight: None,
            payload: false,
        }
    );
    assert_eq!(done.event, completed(claim(1).request_id, vec![Part::Content]).at(5));
    assert_eq!((done.idle_event.clone(), done.result.clone()), (None, vec![7]));
    assert_eq!(done.result_ref, format!("inference_result/{}", claim(1).request_id.name()));
    assert_eq!(commit(&done.rows, &done.request, claim(1), 4, None, at(6)), Ok(None));
    assert_eq!(
        commit(&waiting, &requested(), claim(2), 4, None, at(5)),
        Err(StoreError::LeaseMismatch)
    );
    assert_eq!(
        commit(&waiting, &requested(), claim(1), 3, None, at(5)),
        Err(StoreError::StaleSequence { expected: 3, actual: 4 })
    );
    let idled = commit(&waiting, &requested(), claim(1), 4, Some(6), at(5)).unwrap().unwrap();
    assert_eq!(
        idled.idle_event,
        Some(Event::StateChanged {
            seq: 6,
            from: SessionState::WaitingInference,
            to: SessionState::Idle,
        })
    );
    assert_eq!(state(&idled.rows), SessionState::Idle);
    let event = completed(claim(1).request_id, vec![Part::Content]);
    let whole = |head: u64, event: Event, snapshot: Option<u64>| {
        complete_inference(
            &waiting, &requested(), &claim(1), head, event, vec![7], snapshot, at(5), at(5),
        )
    };
    let done = whole(4, event.clone(), Some(6)).unwrap();
    assert!(bills(&done, &event));
    assert!(!bills(&None, &event));
    let failure = Event::InferenceFailed {
        seq: 5,
        request_id: claim(1).request_id,
        error: "down".into(),
        retryable: false,
        retry_at: None,
    };
    assert!(!bills(&done, &failure));
    assert_eq!(done, Some(idled));
    assert_eq!(whole(4, event.clone(), Some(7)), Err(StoreError::InvalidState));
    assert_eq!(whole(u64::MAX, event, None), Err(StoreError::SequenceOverflow));
    let other = completed(RequestId::for_step(ID, 9), vec![]);
    assert_eq!(whole(4, other, None), Err(StoreError::InvalidState));
}

#[test]
fn completions_name_their_request() {
    let request = RequestId::for_step(ID, 4);
    let event = completion_event(request, 4, completed(request, vec![Part::Content])).unwrap();
    assert_eq!(event.seq(), 5);
    assert_eq!(request_from_event(&event), Some(request));
    let other = RequestId::for_step(ID, 5);
    assert_eq!(
        completion_event(request, 4, completed(other, vec![])),
        Err(StoreError::InvalidState)
    );
    assert_eq!(
        completion_event(request, 4, appended(MessageRole::User)),
        Err(StoreError::InvalidState)
    );
    assert_eq!(check_idle_completion(&claim(1), 4, &event, 6), Ok(()));
    assert_eq!(check_idle_completion(&claim(1), 4, &event, 7), Err(StoreError::InvalidState));
    let calling = completed(request, vec![Part::ToolCall { call_id: "c".into() }]);
    assert_eq!(check_idle_completion(&claim(1), 4, &calling, 6), Err(StoreError::InvalidState));
    assert_eq!(
        scanned_inflight(request, InflightRecord { session_id: ID, seq: 4 }),
        Ok(InflightRecord { session_id: ID, seq: 4 })
    );
    assert_eq!(
        scanned_inflight(other, InflightRecord { session_id: ID, seq: 4 }),
        Err(StoreError::Corrupt)
    );
    let record = InflightRecord { session_id: ID, seq: 4 };
    assert_eq!(put_inflight_leased(&leased(3), request, &record, &lease(4), at(1)), Ok(()));
    assert!(put_inflight_leased(&leased(3), request, &record, &lease(5), at(1)).is_err());
    assert!(put_inference_input(&leased(3), ID, 3, &lease(4), at(1)).is_ok());
    assert!(put_inference_input(&leased(3), ID, 2, &lease(4), at(1)).is_err());
}

#[test]
fn submissions_append_only_worker_messages() {
    let record = InflightRecord { session_id: ID, seq: 4 };
    let sent = submit_inference_after(
        &leased(3),
        Some(MessageId(9)),
        3,
        &lease(4),
        &record,
        vec![],
        at(1),
    )
    .unwrap();
    assert_eq!(sent.event.seq(), 4);
    assert_eq!(sent.request_turn, Some((RequestId::for_step(ID, 4), MessageId(9))));
    assert_eq!(state(&sent.rows), SessionState::WaitingInference);
    let user = submit_inference_after(
        &leased(3),
        None,
        3,
        &lease(4),
        &InflightRecord { session_id: ID, seq: 5 },
        vec![appended(MessageRole::User)],
        at(1),
    );
    assert_eq!(user.err(), Some(StoreError::InvalidState));
    let (event, idle) = finish_turn(&leased(3), 3, &lease(4), 4, None, at(5)).unwrap();
    assert_eq!(event.seq(), 4);
    assert_eq!(state(&idle), SessionState::Idle);
    assert!(finish_turn(&leased(3), 3, &lease(4), 9, None, at(5)).is_err());
}

#[test]
fn interruptions_end_parked_turns_and_ask_running_ones() {
    let asked = interrupt_session(&leased(3), &None, None, at(1)).unwrap();
    assert_eq!(asked.result, InterruptResult::Requested);
    assert!(asked.rows.interrupt);
    for quiet in [SessionState::Idle, SessionState::Completed] {
        assert_eq!(
            interrupt_session(&rows(quiet, 3), &None, None, at(1)).err(),
            Some(StoreError::NothingToInterrupt)
        );
    }
    let wait = InferenceWait {
        since: at(0),
        wake_at: at(50),
        last_failure_seq: 0,
        reasons: vec![],
        attempts: 1,
    };
    let ended =
        interrupt_session(&rows(SessionState::Sleeping, 3), &Some(wait), None, at(1)).unwrap();
    assert_eq!(ended.result, InterruptResult::Finished);
    assert_eq!(state(&ended.rows), SessionState::Idle);
    assert_eq!(ended.clear_due, Some(at(50)));
    assert!(last_event_is_operator_interrupt(ended.event.as_ref()));
    assert!(!last_event_is_operator_interrupt(Some(&failed(RequestId::for_step(ID, 1), "x"))));
    let pending = SessionRows { interrupt: true, ..rows(SessionState::Runnable, 3) };
    let finished = finish_runnable_interrupt(&pending, None, &None, at(2)).unwrap().unwrap();
    assert_eq!(state(&finished.rows), SessionState::Idle);
    assert!(!finished.rows.interrupt);
    assert!(finish_runnable_interrupt(&rows(SessionState::Runnable, 3), None, &None, at(2))
        .unwrap()
        .is_none());
}

#[test]
fn tool_calls_are_no_inference() {
    let event = Event::ToolCallRequested {
        seq: 1,
        request_id: RequestId::for_step(ID, 1),
        call: ToolCallRecord { call_id: "c".into(), tool: "bash".into() },
    };
    assert_eq!(request_from_event(&event), None);
}

#[test]
fn breakers_open_probe_and_close() {
    let mut row: Option<Breaker> = None;
    assert_eq!(claim_entry(&mut row, at(1)), Ok(None));
    entry_failure(&mut row, at(50), "down");
    assert_eq!(entry_failures(&row), 1);
    assert_eq!(entry_reason(&row), Some("down".into()));
    assert_eq!(entry_open_until(&row, at(49)), Some(at(50)));
    assert_eq!(open_state(&row, at(49)), (Some(at(50)), Some("down".into())));
    assert_eq!(claim_entry(&mut row, at(49)), Ok(Some(at(50))));
    // The first attempt behind the open period probes; others wait for it.
    assert_eq!(claim_entry(&mut row, at(50)), Ok(None));
    assert!(claim_entry(&mut row, at(50)).unwrap().is_some());
    entry_failure(&mut row, at(40), "again");
    assert_eq!(row.as_ref().unwrap().open_until, at(50));
    assert_eq!(entry_failures(&row), 2);
    // A success that no probe stands behind leaves the breaker alone.
    entry_success(&mut row);
    assert_eq!(entry_open_until(&row, at(1)), Some(at(50)));
    assert_eq!(claim_entry(&mut row, at(60)), Ok(None));
    entry_success(&mut row);
    assert!(row.is_none());
}

#[test]
fn credential_keys_have_one_name_each() {
    assert_eq!(CredentialKey::provider("p").name(), "p");
    assert_eq!(CredentialKey::entry("p", "l").name(), "p/l");
    assert_eq!(CredentialKey::for_label("p", None), CredentialKey::provider("p"));
    assert_eq!(CredentialKey::for_label("p", Some("l".into())), CredentialKey::entry("p", "l"));
}

#[test]
fn waits_park_and_wake_sessions() {
    let runnable = rows(SessionState::Runnable, 3);
    let max = Duration::from_secs(1_000);
    let parked = park_runnable_for_breaker(&runnable, None, "down", at(60), at(1), max)
        .unwrap()
        .unwrap();
    assert_eq!(state(&parked.rows), SessionState::Sleeping);
    assert_eq!(parked.add_due, parked.wait.wake_at);
    assert_eq!(parked.wait.reasons, vec!["down".to_owned()]);
    let early = wake_inference_wait(&parked.rows, &Some(parked.wait.clone()), at(2)).unwrap();
    assert!(!early.woke);
    let woken =
        wake_inference_wait(&parked.rows, &Some(parked.wait.clone()), parked.wait.wake_at).unwrap();
    assert!(woken.woke);
    assert_eq!(state(&woken.rows), SessionState::Runnable);
    let failure = InferenceFailureWait { seq: 4, reason: "limit", wake_at: at(70) };
    let held = park_inference(
        &leased(4),
        &lease(5),
        Some(parked.wait.clone()),
        &failure,
        at(3),
        max,
    )
    .unwrap();
    assert_eq!(held.wait.since, parked.wait.since);
    assert_eq!(held.wait.last_failure_seq, 4);
    assert_eq!(held.wait.reasons, vec!["down".to_owned(), "limit".to_owned()]);
    assert_eq!(
        park_inference(&leased(4), &lease(9), None, &failure, at(3), max).err(),
        Some(StoreError::LeaseMismatch)
    );
    let mut row = Some(held.wait);
    assert!(clear_inference_wait(&mut row).is_some());
    assert!(row.is_none());
    let mut reasons = vec!["a".to_owned()];
    note_reason(&mut reasons, "a");
    note_reason(&mut reasons, "b");
    assert_eq!(reasons, vec!["a".to_owned(), "b".to_owned()]);
}
