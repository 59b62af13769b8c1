//! Where tool calls are sent, what happens to calls whose computer was lost, and the notices about
//! rebuilt computers.

use crate::error::{StoreError, StoreResult};
use crate::events::{
    message_views_are_whole, same_message, Event, EventBody, EventView, Message, MessageRole,
    MessageView, Part, PartView, ResultView, ToolResult,
};
use crate::ids::{minted_at, timestamp_ms, AgentId, ManifestId, MessageId, NodeId, SessionId};
use crate::placements::{
    check_computer, check_live_placement, is_live, PlacementChangeReason, PlacementRecord,
    PlacementRows,
};
use crate::session::{transition, transitioned, SessionRows, SessionState, StoredSession};
use crate::time::{in_range, Timestamp};
use crate::tools::{call_ended, end_event, job_view, same_job, ToolJob};
use crate::volumes::VolumeRecord;
use vstd::prelude::*;

verus! {

/// How many calls a placed computer runs, as last sampled.
#[derive(Clone, Copy, Debug, PartialEq, Eq, Structural)]
pub struct AgentCallStatus {
    pub agent_id: AgentId,
    pub node_id: NodeId,
    pub epoch: u64,
    pub calls: u32,
    pub observed_at: Timestamp,
    pub expires_at: Timestamp,
}

/// Whether a sample was taken under the current placement while its lease runs.
pub open spec fn sampled_live(rows: PlacementRows, status: AgentCallStatus, now: Timestamp) -> bool {
    rows.placement matches Some(current) && current.node_id == status.node_id && current.epoch
        == status.epoch && current.expires_at.nanos > now.nanos
}

/// Stores a sample of the current placement. An earlier sample never replaces a later one of the
/// same epoch.
pub fn put_agent_call_status(rows: &PlacementRows, previous: &Option<AgentCallStatus>, status: AgentCallStatus, now: Timestamp) -> (result: StoreResult<AgentCallStatus>)
    ensures
        if !sampled_live(*rows, status, now) {
            result matches Err(error) && error == StoreError::LeaseMismatch
        } else {
            result == Ok::<AgentCallStatus, StoreError>(
                match *previous {
                    Some(before) => if before.epoch == status.epoch && before.observed_at.nanos
                        > status.observed_at.nanos {
                        before
                    } else {
                        status
                    },
                    None => status,
                },
            )
        },
{
    match rows.placement {
        Some(current) if current.node_id == status.node_id && current.epoch == status.epoch
            && current.expires_at.nanos > now.nanos => {},
        _ => {
            return Err(StoreError::LeaseMismatch);
        },
    }
    match previous {
        Some(before) if before.epoch == status.epoch && before.observed_at.nanos
            > status.observed_at.nanos => Ok(*before),
        _ => Ok(status),
    }
}

/// The last sample, while it and the placement that it was taken under are live. None means that
/// the occupancy is not known.
pub fn agent_call_status(rows: &PlacementRows, status: &Option<AgentCallStatus>, now: Timestamp) -> (current: Option<AgentCallStatus>)
    ensures
        current == match *status {
            Some(sample) => if sampled_live(*rows, sample, now) && sample.expires_at.nanos
                > now.nanos {
                Some(sample)
            } else {
                None
            },
            None => None,
        },
{
    match (status, rows.placement) {
        (Some(sample), Some(placement)) if placement.node_id == sample.node_id && placement.epoch
            == sample.epoch && placement.expires_at.nanos > now.nanos && sample.expires_at.nanos
            > now.nanos => Some(*sample),
        _ => None,
    }
}

/// The agent of a call that is delivered to a node. None means that the call is done.
pub fn tool_agent(
    done: bool,
    session: &Option<StoredSession>,
    rows: &PlacementRows,
    dispatched: &Option<PlacementRecord>,
    node: NodeId,
    now: Timestamp,
) -> (result: StoreResult<Option<AgentId>>)
    ensures
        if done {
            result == Ok::<Option<AgentId>, StoreError>(None)
        } else {
            match *session {
                None => result matches Err(error) && error == StoreError::SessionMissing,
                Some(header) => if rows.deleted {
                    result matches Err(error) && error == StoreError::ComputerDeleted
                } else if *dispatched matches Some(placement) && (placement.node_id != node
                    || !is_live(*rows, placement, now)) {
                    result matches Err(error) && error == StoreError::LeaseMismatch
                } else {
                    result == Ok::<Option<AgentId>, StoreError>(Some(header.agent_id))
                },
            }
        },
{
    if done {
        return Ok(None);
    }
    let header = match session {
        Some(header) => *header,
        None => {
            return Err(StoreError::SessionMissing);
        },
    };
    check_computer(rows.deleted)?;
    if let Some(placement) = dispatched {
        if placement.node_id != node {
            return Err(StoreError::LeaseMismatch);
        }
        check_live_placement(rows, placement, now)?;
    }
    Ok(Some(header.agent_id))
}

/// What a lost call is told when nothing is known about its computer.
pub open spec fn unconfirmed_text() -> Seq<char> {
    "The tool call's placement expired before execution could be confirmed. The call failed; check external side effects before retrying."@
}

/// What a lost call is told: the notice about its computer, or that nothing is known.
pub fn lost_explanation(notice: Option<String>) -> (text: String)
    ensures
        text@ == match notice {
            Some(notice) => notice@,
            None => unconfirmed_text(),
        },
{
    match notice {
        Some(notice) => notice,
        None =>
            "The tool call's placement expired before execution could be confirmed. The call failed; check external side effects before retrying.".to_owned(),
    }
}

/// Rows after a call was failed: a waiting session wakes after its last pending call, a completed
/// one stays completed.
pub open spec fn after_failure(rows: SessionRows, session: StoredSession, others_pending: bool, now: Timestamp) -> SessionRows {
    if session.state != SessionState::Completed && !others_pending {
        transitioned(rows, session, SessionState::Runnable, now)
    } else {
        SessionRows { session: Some(session), ..rows }
    }
}

/// Ends a call with an explanation instead of repeating it. Job, dispatch and claim go, and the
/// call is done.
pub fn fail_lost_tool(rows: &SessionRows, job: &ToolJob, explanation: String, others_pending: bool, now: Timestamp) -> (result: StoreResult<(Event, SessionRows)>)
    ensures
        match rows.session {
            None => result matches Err(error) && error == StoreError::SessionMissing,
            Some(session) => if session.state != SessionState::WaitingTools && session.state
                != SessionState::Completed {
                result matches Err(error) && error == StoreError::InvalidState
            } else if session.head_seq == u64::MAX {
                result matches Err(error) && error == StoreError::SequenceOverflow
            } else {
                let head = (session.head_seq + 1) as u64;
                &&& result matches Ok((event, next))
                &&& event@ == call_ended(head, job@, ResultView::Error { error: explanation@ })
                &&& next == after_failure(
                    *rows,
                    StoredSession { head_seq: head, ..session },
                    others_pending,
                    now,
                )
            },
        },
{
    let session = match rows.session {
        Some(session) => session,
        None => {
            return Err(StoreError::SessionMissing);
        },
    };
    if session.state != SessionState::WaitingTools && session.state != SessionState::Completed {
        return Err(StoreError::InvalidState);
    }
    let head: u64 = match session.head_seq.checked_add(1) {
        Some(head) => head,
        None => {
            return Err(StoreError::SequenceOverflow);
        },
    };
    let event = end_event(head, job, ToolResult::Error { error: explanation });
    let ended = StoredSession { head_seq: head, ..session };
    if session.state != SessionState::Completed && !others_pending {
        Ok((event, transition(rows, ended, SessionState::Runnable, now)))
    } else {
        Ok((event, SessionRows { session: Some(ended), ..*rows }))
    }
}

/// What becomes of a pending call of a computer that may be deleted.
pub enum DeletedCall {
    /// The computer is still there.
    ComputerExists,
    /// The call was completed meanwhile.
    NothingPending,
    /// The call ends with the refusal.
    Failed(Event, SessionRows),
}

/// Ends a pending call of a deleted computer with the refusal to run it.
pub fn fail_deleted_computer_tool(
    rows: &SessionRows,
    deleted: bool,
    stored: &Option<ToolJob>,
    job: &ToolJob,
    others_pending: bool,
    now: Timestamp,
) -> (result: StoreResult<DeletedCall>)
    ensures
        match rows.session {
            None => result matches Err(error) && error == StoreError::SessionMissing,
            Some(session) => if !deleted {
                result matches Ok(DeletedCall::ComputerExists)
            } else {
                match job_view(*stored) {
                    None => result matches Ok(DeletedCall::NothingPending),
                    Some(pending) => if pending != job@ || (session.state
                        != SessionState::WaitingTools && session.state != SessionState::Completed) {
                        result matches Err(error) && error == StoreError::InvalidState
                    } else if session.head_seq == u64::MAX {
                        result matches Err(error) && error == StoreError::SequenceOverflow
                    } else {
                        let head = (session.head_seq + 1) as u64;
                        &&& result matches Ok(DeletedCall::Failed(event, next))
                        &&& event@ == call_ended(
                            head,
                            job@,
                            ResultView::Error {
                                error: crate::error::error_text(StoreError::ComputerDeleted),
                            },
                        )
                        &&& next == after_failure(
                            *rows,
                            StoredSession { head_seq: head, ..session },
                            others_pending,
                            now,
                        )
                    },
                }
            },
        },
{
    if rows.session.is_none() {
        return Err(StoreError::SessionMissing);
    }
    if !deleted {
        return Ok(DeletedCall::ComputerExists);
    }
    match stored {
        None => Ok(DeletedCall::NothingPending),
        Some(pending) => {
            if !same_job(pending, job) {
                return Err(StoreError::InvalidState);
            }
            let refusal = StoreError::ComputerDeleted.message();
            let (event, next) = fail_lost_tool(rows, job, refusal, others_pending, now)?;
            Ok(DeletedCall::Failed(event, next))
        },
    }
}

// ---------------------------------------------------------------------------------------------
// Notices
// ---------------------------------------------------------------------------------------------

/// Whether sessions are told about a placement: not about a first one, nor about one that replaces
/// a placement that never started.
pub fn wants_notice(placement: &PlacementRecord) -> (wanted: bool)
    ensures
        wanted == is_told_about(*placement),
{
    match placement.last_change_reason {
        PlacementChangeReason::Initial => false,
        PlacementChangeReason::Unstarted => false,
        _ => true,
    }
}

/// The manifest that a rebuilt computer starts from.
pub open spec fn rebuilt_from(volume: Option<VolumeRecord>, image: Option<ManifestId>) -> Option<ManifestId> {
    match volume {
        Some(volume) => Some(volume.head_manifest),
        None => image,
    }
}

/// When the disk that a rebuilt computer starts from was published: manifests carry the time they
/// were minted.
pub fn notice_snapshot(volume: &Option<VolumeRecord>, image: &Option<ManifestId>) -> (result: StoreResult<Timestamp>)
    ensures
        match rebuilt_from(*volume, *image) {
            None => result matches Err(error) && error == StoreError::ManifestMissing,
            Some(manifest) => if in_range(minted_at(manifest.0) * 1_000_000) {
                result matches Ok(at) && at.nanos == minted_at(manifest.0) * 1_000_000
            } else {
                result matches Err(error) && error == StoreError::Corrupt
            },
        },
{
    let manifest = match volume {
        Some(volume) => volume.head_manifest,
        None => match image {
            Some(manifest) => *manifest,
            None => {
                return Err(StoreError::ManifestMissing);
            },
        },
    };
    let millis: u64 = timestamp_ms(manifest.0);
    if millis > i64::MAX as u64 {
        return Err(StoreError::Corrupt);
    }
    match Timestamp::from_millisecond(millis as i64) {
        Some(at) => Ok(at),
        None => Err(StoreError::Corrupt),
    }
}

/// The message that carries a notice. `text` is none when a placement's reason has no words.
pub fn notice_message(id: MessageId, text: Option<String>) -> (result: StoreResult<Message>)
    ensures
        match text {
            None => result matches Err(error) && error == StoreError::Corrupt,
            Some(words) => result matches Ok(message) && message@ == (MessageView {
                id,
                role: MessageRole::System,
                parts: seq![PartView::Text { text: words@ }],
            }),
        },
{
    match text {
        None => Err(StoreError::Corrupt),
        Some(words) => {
            let mut parts: Vec<Part> = Vec::new();
            let ghost shown = words@;
            parts.push(Part::Text { text: words });
            let message = Message { id, role: MessageRole::System, parts };
            assert(message@.parts =~= seq![PartView::Text { text: shown }]);
            Ok(message)
        },
    }
}

/// The words of a notice.
pub fn notice_text(message: &Message) -> (result: StoreResult<String>)
    ensures
        if message@.parts.len() > 0 && message@.parts[0] is Text {
            result matches Ok(text) && message@.parts[0] == (PartView::Text { text: text@ })
        } else {
            result matches Err(error) && error == StoreError::Corrupt
        },
{
    if message.parts.len() == 0 {
        return Err(StoreError::Corrupt);
    }
    match &message.parts[0] {
        Part::Text { text } => Ok(text.clone()),
        _ => Err(StoreError::Corrupt),
    }
}

/// Appends a notice to a session that has not got it. None means that it has.
pub fn append_computer_notice(delivered: bool, rows: &SessionRows, message: Message) -> (result: StoreResult<Option<(Event, SessionRows)>>)
    ensures
        if delivered {
            result matches Ok(None)
        } else {
            match rows.session {
                None => result matches Err(error) && error == StoreError::SessionMissing,
                Some(session) => if session.head_seq == u64::MAX {
                    result matches Err(error) && error == StoreError::SequenceOverflow
                } else {
                    let head = (session.head_seq + 1) as u64;
                    &&& result matches Ok(Some((event, next)))
                    &&& event@ == (EventView {
                        seq: head,
                        body: EventBody::MessageAppended { message: message@ },
                    })
                    &&& next == (SessionRows {
                        session: Some(StoredSession { head_seq: head, ..session }),
                        ..*rows
                    })
                },
            }
        },
{
    if delivered {
        return Ok(None);
    }
    let session = match rows.session {
        Some(session) => session,
        None => {
            return Err(StoreError::SessionMissing);
        },
    };
    let head: u64 = match session.head_seq.checked_add(1) {
        Some(head) => head,
        None => {
            return Err(StoreError::SequenceOverflow);
        },
    };
    let event = Event::MessageAppended { seq: head, message };
    let next = SessionRows { session: Some(StoredSession { head_seq: head, ..session }), ..*rows };
    Ok(Some((event, next)))
}

/// A session that may be told about a rebuilt computer.
#[derive(Clone, Copy, Debug, PartialEq, Eq, Structural)]
pub struct NoticeTarget {
    pub id: SessionId,
    /// Whether the session got the notice of this epoch.
    pub told: bool,
    pub rows: SessionRows,
}

/// A notice that a session gets: its event and the rows of the session, which then counts as told.
#[derive(Clone, Debug, PartialEq, Eq)]
pub struct NoticeDelivery {
    pub id: SessionId,
    pub event: Event,
    pub rows: SessionRows,
}

/// View of a [`NoticeDelivery`].
pub ghost struct DeliveryView {
    pub id: SessionId,
    pub event: EventView,
    pub rows: SessionRows,
}

impl View for NoticeDelivery {
    type V = DeliveryView;

    open spec fn view(&self) -> DeliveryView {
        DeliveryView { id: self.id, event: self.event@, rows: self.rows }
    }
}

/// Views of deliveries in order.
pub open spec fn delivery_views(list: Seq<NoticeDelivery>) -> Seq<DeliveryView> {
    list.map_values(|delivery: NoticeDelivery| delivery@)
}

/// A notice with the sessions that it goes to.
#[derive(Clone, Debug, PartialEq, Eq)]
pub struct DeliveredNotice {
    /// The message of this epoch. It is kept, so that sessions told later get the same.
    pub message: Message,
    /// Whether the message is new and is to be stored.
    pub fresh: bool,
    /// The words of the message.
    pub explanation: String,
    pub deliveries: Vec<NoticeDelivery>,
}

/// Whether a target gets the notice: it was not told before, neither by an earlier delivery nor as
/// an earlier target.
pub open spec fn untold(targets: Seq<NoticeTarget>, i: int) -> bool {
    !targets[i].told && forall|j: int| 0 <= j < i ==> (#[trigger] targets[j]).id != targets[i].id
}

/// Why a session cannot get a notice.
pub open spec fn obstacle(rows: SessionRows) -> Option<StoreError> {
    match rows.session {
        None => Some(StoreError::SessionMissing),
        Some(session) => if session.head_seq == u64::MAX {
            Some(StoreError::SequenceOverflow)
        } else {
            None
        },
    }
}

/// Rows of a session after a notice.
pub open spec fn noticed(rows: SessionRows) -> SessionRows {
    let session = rows.session->0;
    SessionRows {
        session: Some(StoredSession { head_seq: (session.head_seq + 1) as u64, ..session }),
        ..rows
    }
}

/// What a target gets.
pub open spec fn delivery(target: NoticeTarget, message: MessageView) -> DeliveryView {
    DeliveryView {
        id: target.id,
        event: EventView {
            seq: (target.rows.session->0.head_seq + 1) as u64,
            body: EventBody::MessageAppended { message },
        },
        rows: noticed(target.rows),
    }
}

/// Why the first `count` targets cannot all be told: the reason of the first that cannot.
pub open spec fn first_obstacle(targets: Seq<NoticeTarget>, count: nat) -> Option<StoreError>
    decreases count,
{
    if count == 0 {
        None
    } else {
        match first_obstacle(targets, (count - 1) as nat) {
            Some(error) => Some(error),
            None => if untold(targets, count - 1) {
                obstacle(targets[count - 1].rows)
            } else {
                None
            },
        }
    }
}

/// What the first `count` targets get, in order.
pub open spec fn deliveries(targets: Seq<NoticeTarget>, count: nat, message: MessageView) -> Seq<DeliveryView>
    decreases count,
{
    if count == 0 {
        Seq::empty()
    } else {
        let before = deliveries(targets, (count - 1) as nat, message);
        if untold(targets, count - 1) {
            before.push(delivery(targets[count - 1], message))
        } else {
            before
        }
    }
}

/// Whether a placement is told about.
pub open spec fn is_told_about(placement: PlacementRecord) -> bool {
    placement.last_change_reason == PlacementChangeReason::Eviction || placement.last_change_reason
        == PlacementChangeReason::Failure
}

/// The words that a message starts with.
pub open spec fn first_words(message: MessageView) -> Option<Seq<char>> {
    if message.parts.len() > 0 && message.parts[0] is Text {
        Some(message.parts[0]->text)
    } else {
        None
    }
}

/// The message of an epoch: the stored one, else the fresh one.
pub open spec fn notice_of(stored: Option<Message>, fresh: StoreResult<Message>) -> StoreResult<MessageView> {
    match (stored, fresh) {
        (Some(message), _) => Ok(message@),
        (None, Ok(message)) => Ok(message@),
        (None, Err(error)) => Err(error),
    }
}

/// Why a notice cannot be delivered: it could not be made, it has no words, or a session cannot
/// get it.
pub open spec fn notice_error(stored: Option<Message>, fresh: StoreResult<Message>, targets: Seq<NoticeTarget>) -> Option<StoreError> {
    match notice_of(stored, fresh) {
        Err(error) => Some(error),
        Ok(message) => if first_words(message) is None {
            Some(StoreError::Corrupt)
        } else {
            first_obstacle(targets, targets.len())
        },
    }
}

/// Whether a notice is the one of its epoch and goes to the targets that were not told.
pub open spec fn delivers(notice: DeliveredNotice, stored: Option<Message>, fresh: StoreResult<Message>, targets: Seq<NoticeTarget>) -> bool {
    &&& notice_of(stored, fresh) == Ok::<MessageView, StoreError>(notice.message@)
    &&& notice.fresh == (stored is None)
    &&& first_words(notice.message@) == Some(notice.explanation@)
    &&& delivery_views(notice.deliveries@) == deliveries(
        targets,
        targets.len(),
        notice.message@,
    )
}

proof fn obstacles_stay(targets: Seq<NoticeTarget>, count: nat, more: nat)
    requires
        count <= more,
        first_obstacle(targets, count) is Some,
    ensures
        first_obstacle(targets, more) == first_obstacle(targets, count),
    decreases more,
{
    if count < more {
        obstacles_stay(targets, count, (more - 1) as nat);
    }
}

fn met_before(caller: &NoticeTarget, sessions: &Vec<NoticeTarget>, place: usize) -> (met: bool)
    requires
        place < sessions@.len(),
    ensures
        met == exists|j: int|
            0 <= j < place + 1 && (#[trigger] (seq![*caller] + sessions@)[j]).id == sessions@[place as int].id,
{
    let ghost targets = seq![*caller] + sessions@;
    let id = sessions[place].id;
    assert(targets[0] == *caller);
    if caller.id == id {
        return true;
    }
    let mut i: usize = 0;
    while i < place
        invariant
            i <= place,
            place < sessions@.len(),
            targets == seq![*caller] + sessions@,
            id == sessions@[place as int].id,
            forall|j: int| 0 <= j < i + 1 ==> (#[trigger] targets[j]).id != id,
        decreases place - i,
    {
        assert(targets[i + 1] == sessions@[i as int]);
        if sessions[i].id == id {
            return true;
        }
        i += 1;
    }
    false
}

/// Tells the sessions of an agent about a rebuilt computer: the caller, which may be missing from
/// the index, and then those of the index. All of them get the same message, each once.
pub fn deliver_computer_notice(
    placement: &PlacementRecord,
    stored: Option<Message>,
    fresh: StoreResult<Message>,
    caller: &NoticeTarget,
    sessions: &Vec<NoticeTarget>,
) -> (result: StoreResult<Option<DeliveredNotice>>)
    ensures
        ({
            let targets = seq![*caller] + sessions@;
            if !is_told_about(*placement) {
                result matches Ok(None)
            } else {
                match notice_error(stored, fresh, targets) {
                    Some(why) => result matches Err(error) && error == why,
                    None => result matches Ok(Some(notice)) && delivers(
                        notice,
                        stored,
                        fresh,
                        targets,
                    ),
                }
            }
        }),
{
    if !wants_notice(placement) {
        return Ok(None);
    }
    let ghost targets = seq![*caller] + sessions@;
    let is_fresh: bool = stored.is_none();
    let message = match stored {
        Some(message) => message,
        None => match fresh {
            Ok(message) => message,
            Err(error) => {
                return Err(error);
            },
        },
    };
    let explanation = notice_text(&message)?;
    let mut list: Vec<NoticeDelivery> = Vec::new();
    let count: usize = sessions.len();
    let first = append_computer_notice(caller.told, &caller.rows, message.copy());
    assert(targets[0] == *caller);
    assert(first_obstacle(targets, 1) == if untold(targets, 0) {
        obstacle(caller.rows)
    } else {
        None
    }) by {
        reveal_with_fuel(first_obstacle, 2);
    }
    assert(deliveries(targets, 1, message@) =~= if untold(targets, 0) {
        seq![delivery(*caller, message@)]
    } else {
        Seq::empty()
    }) by {
        reveal_with_fuel(deliveries, 2);
    }
    match first {
        Ok(Some((event, rows))) => {
            list.push(NoticeDelivery { id: caller.id, event, rows });
        },
        Ok(None) => {},
        Err(error) => {
            proof {
                obstacles_stay(targets, 1, targets.len());
            }
            return Err(error);
        },
    }
    assert(delivery_views(list@) =~= deliveries(targets, 1, message@));
    let mut i: usize = 0;
    while i < count
        invariant
            i <= count,
            count == sessions@.len(),
            targets == seq![*caller] + sessions@,
            is_told_about(*placement),
            notice_of(stored, fresh) == Ok::<MessageView, StoreError>(message@),
            first_words(message@) is Some,
            first_obstacle(targets, (i + 1) as nat) is None,
            delivery_views(list@) == deliveries(targets, (i + 1) as nat, message@),
        decreases count - i,
    {
        let target = sessions[i];
        assert(target == targets[i + 1]);
        let met: bool = met_before(caller, sessions, i);
        assert(untold(targets, i + 1) == !(target.told || met));
        let ghost before = list@;
        match append_computer_notice(target.told || met, &target.rows, message.copy()) {
            Ok(Some((event, rows))) => {
                list.push(NoticeDelivery { id: target.id, event, rows });
                assert(delivery_views(list@) =~= delivery_views(before).push(
                    delivery(target, message@),
                ));
            },
            Ok(None) => {},
            Err(error) => {
                proof {
                    obstacles_stay(targets, (i + 2) as nat, targets.len());
                }
                return Err(error);
            },
        }
        i += 1;
    }
    Ok(Some(DeliveredNotice { message, fresh: is_fresh, explanation, deliveries: list }))
}

/// Deliveries to more targets leave the first ones as they are.
proof fn deliveries_grow(targets: Seq<NoticeTarget>, count: nat, more: nat, message: MessageView)
    requires
        count <= more,
    ensures
        deliveries(targets, count, message).len() <= deliveries(targets, more, message).len(),
        deliveries(targets, more, message).take(
            deliveries(targets, count, message).len() as int,
        ) == deliveries(targets, count, message),
    decreases more,
{
    let few = deliveries(targets, count, message);
    if count < more {
        deliveries_grow(targets, count, (more - 1) as nat, message);
        let most = deliveries(targets, (more - 1) as nat, message);
        assert(deliveries(targets, more, message).take(few.len() as int) =~= most.take(
            few.len() as int,
        ));
    } else {
        assert(few.take(few.len() as int) =~= few);
    }
}

/// Whether a session is among the first `count` targets.
pub open spec fn is_target(targets: Seq<NoticeTarget>, count: nat, id: SessionId) -> bool {
    exists|j: int| 0 <= j < count && (#[trigger] targets[j]).id == id
}

proof fn deliveries_name_targets(targets: Seq<NoticeTarget>, count: nat, message: MessageView)
    requires
        count <= targets.len(),
    ensures
        forall|i: int|
            0 <= i < deliveries(targets, count, message).len() ==> is_target(
                targets,
                count,
                (#[trigger] deliveries(targets, count, message)[i]).id,
            ),
        forall|i: int, j: int|
            0 <= i < j < deliveries(targets, count, message).len() ==> (#[trigger] deliveries(
                targets,
                count,
                message,
            )[i]).id != (#[trigger] deliveries(targets, count, message)[j]).id,
        forall|i: int|
            0 <= i < deliveries(targets, count, message).len() ==> (#[trigger] deliveries(
                targets,
                count,
                message,
            )[i]).event.body == (EventBody::MessageAppended { message }),
    decreases count,
{
    if count > 0 {
        let fewer = (count - 1) as nat;
        let before = deliveries(targets, fewer, message);
        let all = deliveries(targets, count, message);
        deliveries_name_targets(targets, fewer, message);
        let last = targets[count - 1];
        assert forall|i: int| 0 <= i < all.len() implies is_target(
            targets,
            count,
            (#[trigger] all[i]).id,
        ) by {
            if i < before.len() {
                assert(all[i] == before[i]);
                let j = choose|j: int| 0 <= j < fewer && (#[trigger] targets[j]).id == before[i].id;
                assert(targets[j].id == all[i].id);
            } else {
                assert(targets[count - 1].id == all[i].id);
            }
        }
        assert forall|i: int, j: int| 0 <= i < j < all.len() implies (#[trigger] all[i]).id != (
        #[trigger] all[j]).id by {
            assert(all[i] == before[i]);
            assert(is_target(targets, fewer, before[i].id));
            if j < before.len() {
                assert(all[j] == before[j]);
            }
        }
        assert forall|i: int| 0 <= i < all.len() implies (#[trigger] all[i]).event.body == (
        EventBody::MessageAppended { message }) by {
            if i < before.len() {
                assert(all[i] == before[i]);
            }
        }
    }
}

/// Every session gets a notice once, and all get the same message: no session is named twice, each
/// target that was not told is named, and where all were told nobody is.
pub proof fn notices_go_once(targets: Seq<NoticeTarget>, message: MessageView)
    ensures
        ({
            let sent = deliveries(targets, targets.len(), message);
            &&& forall|i: int, j: int|
                0 <= i < j < sent.len() ==> (#[trigger] sent[i]).id != (#[trigger] sent[j]).id
            &&& forall|i: int|
                0 <= i < sent.len() ==> (#[trigger] sent[i]).event.body
                    == (EventBody::MessageAppended { message })
            &&& forall|i: int|
                0 <= i < targets.len() && #[trigger] untold(targets, i) ==> sent.contains(
                    delivery(targets[i], message),
                )
            &&& (forall|i: int| 0 <= i < targets.len() ==> (#[trigger] targets[i]).told)
                ==> sent.len() == 0
        }),
{
    let sent = deliveries(targets, targets.len(), message);
    deliveries_name_targets(targets, targets.len(), message);
    assert forall|i: int| 0 <= i < targets.len() && #[trigger] untold(targets, i) implies sent.contains(
        delivery(targets[i], message),
    ) by {
        let few = deliveries(targets, (i + 1) as nat, message);
        deliveries_grow(targets, (i + 1) as nat, targets.len(), message);
        assert(few.last() == delivery(targets[i], message));
        assert(sent.take(few.len() as int)[few.len() - 1] == sent[few.len() - 1]);
    }
    if forall|i: int| 0 <= i < targets.len() ==> (#[trigger] targets[i]).told {
        told_targets_get_nothing(targets, targets.len(), message);
    }
}

proof fn told_targets_get_nothing(targets: Seq<NoticeTarget>, count: nat, message: MessageView)
    requires
        count <= targets.len(),
        forall|i: int| 0 <= i < targets.len() ==> (#[trigger] targets[i]).told,
    ensures
        deliveries(targets, count, message).len() == 0,
    decreases count,
{
    if count > 0 {
        told_targets_get_nothing(targets, (count - 1) as nat, message);
        assert(targets[count - 1].told);
    }
}

// ---------------------------------------------------------------------------------------------
// Dispatch
// ---------------------------------------------------------------------------------------------

/// What becomes of a pending call. A notice that is due goes out either way.
#[derive(Clone, Debug, PartialEq, Eq)]
pub enum Routing {
    /// The call was completed meanwhile.
    Gone,
    /// The call goes to the current placement, which is noted as its dispatch.
    Send { notice: Option<DeliveredNotice> },
    /// The call went to an earlier placement. It is failed instead of repeated: the event that ends
    /// it and the rows of its session, after the notice.
    Lost { notice: Option<DeliveredNotice>, event: Event, rows: SessionRows },
}

/// Whether a call was sent under another epoch or to another node.
pub open spec fn sent_elsewhere(dispatched: Option<PlacementRecord>, placement: PlacementRecord) -> bool {
    dispatched matches Some(before) && (before.epoch != placement.epoch || before.node_id
        != placement.node_id)
}

/// Rows of the caller once the notice is out.
pub open spec fn caller_rows(placement: PlacementRecord, caller: NoticeTarget) -> SessionRows {
    if is_told_about(placement) && !caller.told {
        noticed(caller.rows)
    } else {
        caller.rows
    }
}

/// Whether the notice of a routed call is what the placement asks for.
pub open spec fn notice_matches(
    notice: Option<DeliveredNotice>,
    placement: PlacementRecord,
    stored: Option<Message>,
    fresh: StoreResult<Message>,
    targets: Seq<NoticeTarget>,
) -> bool {
    match notice {
        None => !is_told_about(placement),
        Some(sent) => is_told_about(placement) && delivers(sent, stored, fresh, targets),
    }
}

/// What a lost call is told: the notice about its computer, or that nothing is known.
pub open spec fn lost_words(notice: Option<DeliveredNotice>) -> Seq<char> {
    match notice {
        Some(sent) => sent.explanation@,
        None => unconfirmed_text(),
    }
}

/// Decides about a pending call under the current placement. The session of the call is the caller
/// of a notice that is due.
pub fn route_tool_job(
    rows: &PlacementRows,
    placement: &PlacementRecord,
    stored: &Option<ToolJob>,
    job: &ToolJob,
    dispatched: &Option<PlacementRecord>,
    caller: &NoticeTarget,
    sessions: &Vec<NoticeTarget>,
    message: Option<Message>,
    fresh: StoreResult<Message>,
    others_pending: bool,
    now: Timestamp,
) -> (result: StoreResult<Routing>)
    ensures
        ({
            let targets = seq![*caller] + sessions@;
            let after = caller_rows(*placement, *caller);
            if !is_live(*rows, *placement, now) {
                result matches Err(error) && error == StoreError::LeaseMismatch
            } else if stored is None {
                result == Ok::<Routing, StoreError>(Routing::Gone)
            } else if job_view(*stored) != Some(job@) {
                result matches Err(error) && error == StoreError::InvalidState
            } else if caller.rows.session is None {
                result matches Err(error) && error == StoreError::SessionMissing
            } else if caller.rows.session->0.agent_id != placement.agent_id {
                result matches Err(error) && error == StoreError::InvalidState
            } else if is_told_about(*placement) && notice_error(message, fresh, targets) is Some {
                result matches Err(error) && Some(error) == notice_error(message, fresh, targets)
            } else if !sent_elsewhere(*dispatched, *placement) {
                result matches Ok(Routing::Send { notice }) && notice_matches(
                    notice,
                    *placement,
                    message,
                    fresh,
                    targets,
                )
            } else if after.session->0.state != SessionState::WaitingTools && after.session->0.state
                != SessionState::Completed {
                result matches Err(error) && error == StoreError::InvalidState
            } else if after.session->0.head_seq == u64::MAX {
                result matches Err(error) && error == StoreError::SequenceOverflow
            } else {
                let head = (after.session->0.head_seq + 1) as u64;
                &&& result matches Ok(Routing::Lost { notice, event, rows: next })
                &&& notice_matches(notice, *placement, message, fresh, targets)
                &&& event@ == call_ended(head, job@, ResultView::Error { error: lost_words(notice) })
                &&& next == after_failure(
                    after,
                    StoredSession { head_seq: head, ..after.session->0 },
                    others_pending,
                    now,
                )
            }
        }),
{
    check_live_placement(rows, placement, now)?;
    match stored {
        None => {
            return Ok(Routing::Gone);
        },
        Some(pending) => {
            if !same_job(pending, job) {
                return Err(StoreError::InvalidState);
            }
        },
    }
    match caller.rows.session {
        None => {
            return Err(StoreError::SessionMissing);
        },
        Some(header) => {
            if header.agent_id != placement.agent_id {
                return Err(StoreError::InvalidState);
            }
        },
    }
    let ghost targets = seq![*caller] + sessions@;
    let notice = deliver_computer_notice(placement, message, fresh, caller, sessions)?;
    let lost: bool = match dispatched {
        Some(before) => before.epoch != placement.epoch || before.node_id != placement.node_id,
        None => false,
    };
    if !lost {
        return Ok(Routing::Send { notice });
    }
    let after = match &notice {
        Some(sent) if !caller.told => {
            proof {
                assert(targets[0] == *caller);
                reveal_with_fuel(deliveries, 2);
                deliveries_grow(targets, 1, targets.len(), sent.message@);
                let few = deliveries(targets, 1, sent.message@);
                let all = deliveries(targets, targets.len(), sent.message@);
                assert(untold(targets, 0));
                assert(few.len() == 1 && few[0] == delivery(*caller, sent.message@));
                assert(all.take(1)[0] == all[0]);
                assert(delivery_views(sent.deliveries@)[0] == sent.deliveries@[0]@);
            }
            sent.deliveries[0].rows
        },
        _ => caller.rows,
    };
    assert(after == caller_rows(*placement, *caller));
    let words = match &notice {
        Some(sent) => Some(sent.explanation.clone()),
        None => None,
    };
    let (event, next) = fail_lost_tool(&after, job, lost_explanation(words), others_pending, now)?;
    Ok(Routing::Lost { notice, event, rows: next })
}

/// A call that was sent to one placement is never sent to a later one: it is failed instead.
pub proof fn calls_are_not_repeated(dispatched: PlacementRecord, placement: PlacementRecord)
    requires
        dispatched.epoch != placement.epoch,
    ensures
        sent_elsewhere(Some(dispatched), placement),
{
}

/// A call whose computer was lost ends with exactly the explanation that was given, behind the head,
/// under its own request and call. A waiting session wakes once no other call is pending; one that
/// is completed stays so.
pub proof fn lost_calls_are_explained(
    rows: SessionRows,
    job: ToolJob,
    explanation: String,
    others_pending: bool,
    now: Timestamp,
    result: StoreResult<(Event, SessionRows)>,
)
    requires
        call_ensures(fail_lost_tool, (&rows, &job, explanation, others_pending, now), result),
    ensures
        result matches Ok((event, next)) ==> {
            let before = rows.session->0;
            let after = next.session->0;
            &&& rows.session is Some && next.session is Some
            &&& event matches Event::ToolCallCompleted { seq, request_id, call_id, result: kept } && seq
                == before.head_seq + 1 && seq == after.head_seq && request_id == job.request_id && call_id@
                == job.call_id@ && (kept matches ToolResult::Error { error } && error@ == explanation@)
            &&& after.session_id == before.session_id && after.agent_id == before.agent_id
            &&& after.snapshot_seq == before.snapshot_seq
            &&& before.state == SessionState::Completed ==> after.state == SessionState::Completed
                && next.runnable == rows.runnable
            &&& before.state == SessionState::WaitingTools && others_pending ==> after.state == before.state
                && next.runnable == rows.runnable
            &&& before.state == SessionState::WaitingTools && !others_pending ==> after.state
                == SessionState::Runnable && (next.runnable matches Some(entry) && entry.session_id
                == before.session_id && entry.wake_at == now)
        },
        rows.session matches Some(session) ==> (session.state != SessionState::WaitingTools && session.state
            != SessionState::Completed ==> result is Err),
{
}

/// A pending call of a deleted computer ends with an error behind the head, under its own request
/// and call; while the computer exists, or once the call is gone, nothing happens.
pub proof fn calls_of_deleted_computers_fail(
    rows: SessionRows,
    deleted: bool,
    stored: Option<ToolJob>,
    job: ToolJob,
    others_pending: bool,
    now: Timestamp,
    result: StoreResult<DeletedCall>,
)
    requires
        call_ensures(
            fail_deleted_computer_tool,
            (&rows, deleted, &stored, &job, others_pending, now),
            result,
        ),
    ensures
        result matches Ok(DeletedCall::ComputerExists) ==> !deleted,
        result matches Ok(DeletedCall::NothingPending) ==> deleted && stored is None,
        result matches Ok(DeletedCall::Failed(event, next)) ==> {
            let before = rows.session->0;
            let after = next.session->0;
            &&& deleted && rows.session is Some
            &&& stored matches Some(pending) && pending.request_id == job.request_id && pending.call_id@
                == job.call_id@
            &&& event matches Event::ToolCallCompleted { seq, request_id, call_id, result: kept } && seq
                == before.head_seq + 1 && seq == after.head_seq && request_id == job.request_id && call_id@
                == job.call_id@ && (kept matches ToolResult::Error { error } && error@
                == crate::error::error_text(StoreError::ComputerDeleted))
            &&& after.session_id == before.session_id && after.agent_id == before.agent_id
            &&& after.snapshot_seq == before.snapshot_seq
            &&& before.state == SessionState::WaitingTools && !others_pending ==> after.state
                == SessionState::Runnable
            &&& others_pending ==> after.state == before.state
        },
{
}

/// A notice is a system message of exactly one part, the words that were given, and its words are
/// read back as they were given.
pub proof fn notices_say_their_words(id: MessageId, text: Option<String>, result: StoreResult<Message>, read: StoreResult<String>)
    requires
        call_ensures(notice_message, (id, text), result),
        result matches Ok(message) ==> call_ensures(notice_text, (&message,), read),
    ensures
        result is Ok <==> text is Some,
        result matches Ok(message) ==> {
            &&& message.id == id && message.role == MessageRole::System && message.parts@.len() == 1
            &&& message.parts@[0] matches Part::Text { text: words } && words@ == text->0@
            &&& read matches Ok(words) && words@ == text->0@
        },
{
    if let Ok(message) = result {
        assert(message@.parts.len() == message.parts@.len());
        assert(message@.parts[0] == message.parts@[0]@);
    }
}

/// A notice is appended word for word behind the head of a session that has not had it; nothing but
/// the head of that session changes.
pub proof fn notices_are_appended_whole(delivered: bool, rows: SessionRows, message: Message, result: StoreResult<Option<(Event, SessionRows)>>)
    requires
        call_ensures(append_computer_notice, (delivered, &rows, message), result),
    ensures
        delivered ==> (result matches Ok(sent) && sent is None),
        result matches Ok(Some((event, next))) ==> {
            let before = rows.session->0;
            let after = next.session->0;
            &&& !delivered && rows.session is Some
            &&& event matches Event::MessageAppended { seq, message: kept } && seq == before.head_seq + 1 && seq
                == after.head_seq && same_message(kept, message)
            &&& after.session_id == before.session_id && after.agent_id == before.agent_id
            &&& after.state == before.state && after.snapshot_seq == before.snapshot_seq
            &&& next.lease == rows.lease && next.runnable == rows.runnable
            &&& next.state_since == rows.state_since && next.idle_since == rows.idle_since
            &&& next.interrupt == rows.interrupt
        },
{
    if let Ok(Some((event, next))) = result {
        if let Event::MessageAppended { seq, message: kept } = event {
            message_views_are_whole(kept, message);
        }
    }
}

/// Each session gets the notice as one message behind its own head, the same message for all, and
/// nothing but its head changes. The message is the stored one where there is one; its words are
/// what a lost call is explained with.
pub proof fn deliveries_hold_the_notice(
    placement: PlacementRecord,
    stored: Option<Message>,
    fresh: StoreResult<Message>,
    caller: NoticeTarget,
    sessions: Vec<NoticeTarget>,
    result: StoreResult<Option<DeliveredNotice>>,
)
    requires
        call_ensures(deliver_computer_notice, (&placement, stored, fresh, &caller, &sessions), result),
    ensures
        result matches Ok(None) ==> placement.last_change_reason != PlacementChangeReason::Eviction
            && placement.last_change_reason != PlacementChangeReason::Failure,
        result matches Ok(Some(notice)) ==> {
            &&& placement.last_change_reason == PlacementChangeReason::Eviction
                || placement.last_change_reason == PlacementChangeReason::Failure
            &&& notice.fresh <==> stored is None
            &&& stored matches Some(message) ==> same_message(notice.message, message)
            &&& stored is None ==> (fresh matches Ok(message) && same_message(notice.message, message))
            &&& notice.message.parts@.len() > 0 && (notice.message.parts@[0] matches Part::Text { text }
                && text@ == notice.explanation@)
            &&& notice.deliveries@.len() <= 1 + sessions@.len()
            &&& caller.told ==> notice.deliveries@.len() <= sessions@.len()
            &&& forall|i: int|
                0 <= i < notice.deliveries@.len() ==> ({
                    let sent = #[trigger] notice.deliveries@[i];
                    sent.event matches Event::MessageAppended { seq, message } && same_message(
                        message,
                        notice.message,
                    ) && sent.rows.session is Some && seq == sent.rows.session->0.head_seq
                })
        },
{
    if let Ok(Some(notice)) = result {
        let targets = seq![caller] + sessions@;
        if let Some(message) = stored {
            message_views_are_whole(notice.message, message);
        } else {
            message_views_are_whole(notice.message, fresh->Ok_0);
        }
        assert(notice.message@.parts.len() == notice.message.parts@.len());
        assert(notice.message@.parts[0] == notice.message.parts@[0]@);
        assert(delivery_views(notice.deliveries@).len() == notice.deliveries@.len());
        deliveries_are_whole(targets, targets.len(), notice.message@);
        assert forall|i: int| 0 <= i < notice.deliveries@.len() implies ({
            let sent = #[trigger] notice.deliveries@[i];
            sent.event matches Event::MessageAppended { seq, message } && same_message(
                message,
                notice.message,
            ) && sent.rows.session is Some && seq == sent.rows.session->0.head_seq
        }) by {
            let sent = notice.deliveries@[i];
            assert(delivery_views(notice.deliveries@)[i] == sent@);
            if let Event::MessageAppended { seq, message } = sent.event {
                message_views_are_whole(message, notice.message);
            }
        }
    }
}

proof fn deliveries_are_whole(targets: Seq<NoticeTarget>, count: nat, message: MessageView)
    requires
        count <= targets.len(),
    ensures
        ({
            let sent = deliveries(targets, count, message);
            &&& sent.len() <= count
            &&& count > 0 && targets[0].told ==> sent.len() < count
            &&& forall|i: int|
                0 <= i < sent.len() ==> (#[trigger] sent[i]).event.body == (EventBody::MessageAppended { message })
                    && sent[i].rows.session is Some && sent[i].event.seq == sent[i].rows.session->0.head_seq
        }),
    decreases count,
{
    if count > 0 {
        deliveries_are_whole(targets, (count - 1) as nat, message);
    }
}

/// A delivery to one session moves the head of that session by one and changes nothing else.
pub proof fn deliveries_move_the_head(target: NoticeTarget, message: MessageView)
    requires
        target.rows.session is Some,
        target.rows.session->0.head_seq < u64::MAX,
    ensures
        ({
            let sent = delivery(target, message);
            let before = target.rows.session->0;
            let after = sent.rows.session->0;
            &&& sent.id == target.id && sent.event.seq == before.head_seq + 1
            &&& after.head_seq == sent.event.seq && after.state == before.state
            &&& after.session_id == before.session_id && after.agent_id == before.agent_id
            &&& after.snapshot_seq == before.snapshot_seq
            &&& sent.rows.lease == target.rows.lease && sent.rows.runnable == target.rows.runnable
            &&& sent.rows.interrupt == target.rows.interrupt
        }),
{
}

/// The computer that a notice tells of was rebuilt from its disk, where it has one, else from the
/// session's image; the moment is the one that the manifest was made.
pub proof fn notices_date_the_disk(volume: Option<VolumeRecord>, image: Option<ManifestId>, result: StoreResult<Timestamp>)
    requires
        call_ensures(notice_snapshot, (&volume, &image), result),
    ensures
        volume is None && image is None ==> result is Err,
        result matches Ok(at) ==> {
            &&& volume matches Some(disk) ==> at.nanos == minted_at(disk.head_manifest.0) * 1_000_000
            &&& volume is None ==> image is Some && at.nanos == minted_at((image->0).0) * 1_000_000
        },
{
}

/// A notice is wanted exactly for a computer that was evicted or failed.
pub proof fn losses_are_told(placement: PlacementRecord, wanted: bool)
    requires
        call_ensures(wants_notice, (&placement,), wanted),
    ensures
        wanted <==> placement.last_change_reason == PlacementChangeReason::Eviction
            || placement.last_change_reason == PlacementChangeReason::Failure,
{
}

/// A lost call is explained by its notice, where there is one.
pub proof fn notices_explain_losses(notice: Option<String>, text: String)
    requires
        call_ensures(lost_explanation, (notice,), text),
    ensures
        notice matches Some(words) ==> text@ == words@,
        notice is None ==> text@
            == "The tool call's placement expired before execution could be confirmed. The call failed; check external side effects before retrying."@,
{
}

/// A sample of running calls is stored only for the live placement, and an older sample of the same
/// placement never replaces a newer one.
pub proof fn samples_only_advance(
    rows: PlacementRows,
    previous: Option<AgentCallStatus>,
    status: AgentCallStatus,
    now: Timestamp,
    result: StoreResult<AgentCallStatus>,
)
    requires
        call_ensures(put_agent_call_status, (&rows, &previous, status, now), result),
    ensures
        result is Ok <==> (rows.placement matches Some(live) && live.node_id == status.node_id && live.epoch
            == status.epoch && live.expires_at.nanos > now.nanos),
        result matches Ok(kept) ==> {
            &&& kept == status || previous == Some(kept)
            &&& kept.observed_at.nanos >= status.observed_at.nanos && kept.epoch == status.epoch
            &&& previous matches Some(before) ==> (before.epoch == status.epoch ==> kept.observed_at.nanos
                >= before.observed_at.nanos)
            &&& previous is None ==> kept == status
        },
{
}

/// A sample is shown while it and its placement live, as it was stored.
pub proof fn samples_are_shown_while_live(rows: PlacementRows, status: Option<AgentCallStatus>, now: Timestamp, current: Option<AgentCallStatus>)
    requires
        call_ensures(agent_call_status, (&rows, &status, now), current),
    ensures
        current is Some ==> current == status,
        current is Some <==> (status matches Some(sample) && rows.placement matches Some(live)
            && sample.expires_at.nanos > now.nanos && live.node_id == sample.node_id && live.epoch
            == sample.epoch && live.expires_at.nanos > now.nanos),
{
}

/// A pending call runs for the agent of its session, and on the node of the live placement that it
/// was sent to.
pub proof fn calls_run_for_their_agent(
    done: bool,
    session: Option<StoredSession>,
    rows: PlacementRows,
    dispatched: Option<PlacementRecord>,
    node: NodeId,
    now: Timestamp,
    result: StoreResult<Option<AgentId>>,
)
    requires
        call_ensures(tool_agent, (done, &session, &rows, &dispatched, node, now), result),
    ensures
        done ==> (result matches Ok(agent) && agent is None),
        result matches Ok(Some(agent)) ==> {
            &&& !done && !rows.deleted && session is Some && session->0.agent_id == agent
            &&& dispatched matches Some(sent) ==> sent.node_id == node && (rows.placement matches Some(live)
                && live.epoch == sent.epoch && live.expires_at.nanos > now.nanos)
        },
        !done && session is Some && !rows.deleted && dispatched is None ==> result is Ok,
{
}

/// A call goes out to the live placement alone, and never to another than the one that it went to
/// before; where it did, it ends with an error behind the caller's head instead.
pub proof fn calls_are_sent_to_one_placement(
    rows: PlacementRows,
    placement: PlacementRecord,
    stored: Option<ToolJob>,
    job: ToolJob,
    dispatched: Option<PlacementRecord>,
    caller: NoticeTarget,
    sessions: Vec<NoticeTarget>,
    message: Option<Message>,
    fresh: StoreResult<Message>,
    others_pending: bool,
    now: Timestamp,
    result: StoreResult<Routing>,
)
    requires
        call_ensures(
            route_tool_job,
            (
                &rows,
                &placement,
                &stored,
                &job,
                &dispatched,
                &caller,
                &sessions,
                message,
                fresh,
                others_pending,
                now,
            ),
            result,
        ),
    ensures
        result matches Ok(Routing::Send { .. }) ==> {
            &&& rows.placement matches Some(live) && live.expires_at.nanos > now.nanos && live.epoch
                == placement.epoch
            &&& dispatched matches Some(before) ==> before.epoch == placement.epoch && before.node_id
                == placement.node_id
            &&& stored matches Some(pending) && pending.request_id == job.request_id && pending.call_id@
                == job.call_id@ && pending.arguments@ == job.arguments@
        },
        result matches Ok(Routing::Lost { notice, event, rows: next }) ==> {
            &&& dispatched matches Some(before) && (before.epoch != placement.epoch || before.node_id
                != placement.node_id)
            &&& event matches Event::ToolCallCompleted { seq, request_id, call_id, result: kept }
                && next.session is Some && seq == next.session->0.head_seq && request_id == job.request_id
                && call_id@ == job.call_id@ && (kept matches ToolResult::Error { error } && (
            notice matches Some(sent) ==> error@ == sent.explanation@))
            &&& notice is Some <==> placement.last_change_reason == PlacementChangeReason::Eviction
                || placement.last_change_reason == PlacementChangeReason::Failure
        },
        result matches Ok(Routing::Send { notice }) ==> (notice is Some <==> placement.last_change_reason
            == PlacementChangeReason::Eviction || placement.last_change_reason
            == PlacementChangeReason::Failure),
{
}

} // verus!
