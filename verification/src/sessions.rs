//! The life of sessions: creation, the main conversation of an agent, archival and closing.

use crate::agents::{
    image_parts, names_missing, resolve_image, ImageRecord, ImageView, DEFAULT_MEMORY_MIB,
};
use crate::error::{StoreError, StoreResult};
use crate::ids::{AgentId, ManifestId, SessionId};
use crate::placements::check_computer;
use crate::session::{entry_at, indexed, RunnableEntry, SessionRows, SessionState, StoredSession};
use crate::time::Timestamp;
use vstd::prelude::*;

verus! {

/// Whether a session lives on a computer of its own or belongs to a named agent.
#[derive(Clone, Copy, Debug, PartialEq, Eq, Structural)]
pub enum SessionKind {
    Ephemeral,
    Named { agent_id: AgentId },
}

/// Inference settings of one session.
#[derive(Clone, Debug, PartialEq, Eq)]
pub struct InferenceSelection {
    pub provider: Option<String>,
    pub model: Option<String>,
    pub reasoning_effort: Option<String>,
}

/// A session as it is shown: its header with everything stored beside it. The plan is a list of
/// steps.
#[derive(Clone, Debug, PartialEq, Eq)]
pub struct SessionRecord {
    pub session_id: SessionId,
    pub agent_id: AgentId,
    pub kind: SessionKind,
    pub state: SessionState,
    pub head_seq: u64,
    pub snapshot: Option<Vec<u8>>,
    pub computer_deleted: bool,
    pub interrupt_requested: bool,
    pub plan: Vec<String>,
    pub inference: InferenceSelection,
    pub route: Option<String>,
    pub route_step: u32,
}

/// What is stored beside a session's header. Sessions from before a row existed lack it.
pub struct SessionMetadata {
    pub kind: Option<SessionKind>,
    pub computer_deleted: Option<bool>,
    pub plan: Option<Vec<String>>,
    pub inference: Option<InferenceSelection>,
    pub interrupt_requested: Option<bool>,
    pub route: Option<String>,
    pub route_step: Option<u32>,
}

/// The session of a header and the rows beside it. A header that names a snapshot needs its row.
pub fn session_metadata(session: StoredSession, beside: SessionMetadata, snapshot: Option<Vec<u8>>) -> (result: StoreResult<SessionRecord>)
    ensures
        if session.snapshot_seq is Some && snapshot is None {
            result matches Err(error) && error == StoreError::Corrupt
        } else {
            &&& result matches Ok(record)
            &&& record.session_id == session.session_id
            &&& record.agent_id == session.agent_id
            &&& record.state == session.state
            &&& record.head_seq == session.head_seq
            &&& record.snapshot == if session.snapshot_seq is Some {
                snapshot
            } else {
                None
            }
            &&& record.kind == match beside.kind {
                Some(kind) => kind,
                None => SessionKind::Ephemeral,
            }
            &&& record.computer_deleted == (beside.computer_deleted == Some(true))
            &&& record.interrupt_requested == (beside.interrupt_requested == Some(true))
            &&& match beside.plan {
                Some(plan) => record.plan == plan,
                None => record.plan@.len() == 0,
            }
            &&& match beside.inference {
                Some(inference) => record.inference == inference,
                None => record.inference == (InferenceSelection {
                    provider: None,
                    model: None,
                    reasoning_effort: None,
                }),
            }
            &&& record.route == beside.route
            &&& record.route_step == match beside.route_step {
                Some(step) => step,
                None => 0,
            }
        },
{
    let found = if session.snapshot_seq.is_some() {
        if snapshot.is_none() {
            return Err(StoreError::Corrupt);
        }
        snapshot
    } else {
        None
    };
    Ok(
        SessionRecord {
            session_id: session.session_id,
            agent_id: session.agent_id,
            kind: match beside.kind {
                Some(kind) => kind,
                None => SessionKind::Ephemeral,
            },
            state: session.state,
            head_seq: session.head_seq,
            snapshot: found,
            computer_deleted: match beside.computer_deleted {
                Some(deleted) => deleted,
                None => false,
            },
            interrupt_requested: match beside.interrupt_requested {
                Some(requested) => requested,
                None => false,
            },
            plan: match beside.plan {
                Some(plan) => plan,
                None => Vec::new(),
            },
            inference: match beside.inference {
                Some(inference) => inference,
                None => InferenceSelection { provider: None, model: None, reasoning_effort: None },
            },
            route: beside.route,
            route_step: match beside.route_step {
                Some(step) => step,
                None => 0,
            },
        },
    )
}

// ---------------------------------------------------------------------------------------------
// Creation
// ---------------------------------------------------------------------------------------------

/// What a new session starts as.
#[derive(Clone, Copy, Debug, PartialEq, Eq, Structural)]
pub struct NewSession {
    pub session_id: SessionId,
    pub agent_id: AgentId,
    pub kind: SessionKind,
    pub state: SessionState,
    pub head_seq: u64,
    pub has_snapshot: bool,
    pub computer_deleted: bool,
    pub interrupt_requested: bool,
}

/// A session that starts idle and empty.
pub open spec fn idle_session(id: SessionId, agent: AgentId, kind: SessionKind) -> NewSession {
    NewSession {
        session_id: id,
        agent_id: agent,
        kind,
        state: SessionState::Idle,
        head_seq: 0,
        has_snapshot: false,
        computer_deleted: false,
        interrupt_requested: false,
    }
}

/// The session that a request makes: of a named agent, or on an anonymous computer under a fresh
/// id.
pub fn create_session_with_inference(id: SessionId, agent: Option<AgentId>, fresh: AgentId) -> (session: NewSession)
    ensures
        session == match agent {
            Some(agent_id) => idle_session(id, agent_id, SessionKind::Named { agent_id }),
            None => idle_session(id, fresh, SessionKind::Ephemeral),
        },
{
    let (agent_id, kind) = match agent {
        Some(agent_id) => (agent_id, SessionKind::Named { agent_id }),
        None => (fresh, SessionKind::Ephemeral),
    };
    NewSession {
        session_id: id,
        agent_id,
        kind,
        state: SessionState::Idle,
        head_seq: 0,
        has_snapshot: false,
        computer_deleted: false,
        interrupt_requested: false,
    }
}

/// Whether a session may start like this: with an empty log, nothing requested, Idle or Runnable.
pub open spec fn may_start(session: NewSession) -> bool {
    &&& session.head_seq == 0
    &&& !session.has_snapshot
    &&& !session.computer_deleted
    &&& !session.interrupt_requested
    &&& session.state == SessionState::Idle || session.state == SessionState::Runnable
}

/// Checks a new session before anything stored is looked at. Named agents have an image already.
pub fn create_session_record(session: &NewSession, with_image: bool) -> (result: StoreResult<()>)
    ensures
        match result {
            Ok(_) => may_start(*session) && !(session.kind is Named && with_image),
            Err(error) => if !may_start(*session) {
                error == StoreError::InvalidState
            } else {
                session.kind is Named && with_image && error == StoreError::NamedAgentImage
            },
        },
{
    if session.head_seq != 0 || session.has_snapshot || session.computer_deleted
        || session.interrupt_requested || !(session.state == SessionState::Idle || session.state
        == SessionState::Runnable) {
        return Err(StoreError::InvalidState);
    }
    match session.kind {
        SessionKind::Named { .. } => {
            if with_image {
                return Err(StoreError::NamedAgentImage);
            }
        },
        SessionKind::Ephemeral => {},
    }
    Ok(())
}

/// What the store holds about a new session.
pub struct CreationRows {
    pub session_exists: bool,
    pub computer_deleted: bool,
    /// Whether the session's agent is a named one.
    pub agent_known: bool,
    /// The image pinned by the named agent.
    pub agent_image: Option<ImageRecord>,
    /// The disk registered for the image that was asked for.
    pub manifest: Option<ManifestId>,
    /// The memory registered for that image.
    pub image_memory: Option<u64>,
    /// Whether the session's plan is in order.
    pub plan_valid: bool,
}

/// What a creation writes.
pub struct CreatedSession {
    pub rows: SessionRows,
    pub image: ImageRecord,
    /// Memory of the computer that comes with an ephemeral session.
    pub computer_memory: Option<u64>,
}

/// Rows of a session that was just made.
pub open spec fn started(session: NewSession, now: Timestamp) -> SessionRows {
    SessionRows {
        session: Some(
            StoredSession {
                session_id: session.session_id,
                agent_id: session.agent_id,
                state: session.state,
                head_seq: 0,
                snapshot_seq: None,
            },
        ),
        lease: None,
        runnable: if session.state == SessionState::Runnable {
            Some(entry_at(session.session_id, now))
        } else {
            None
        },
        state_since: None,
        idle_since: Some(now),
        interrupt: false,
    }
}

/// Memory of the computer that comes with a session.
pub open spec fn computer_memory(session: NewSession, rows: CreationRows) -> Option<u64> {
    match session.kind {
        SessionKind::Ephemeral => Some(
            match rows.image_memory {
                Some(memory) => memory,
                None => DEFAULT_MEMORY_MIB,
            },
        ),
        SessionKind::Named { .. } => None,
    }
}

/// View of an image that may be absent.
pub open spec fn image_view(image: Option<ImageRecord>) -> Option<ImageView> {
    match image {
        Some(image) => Some(image@),
        None => None,
    }
}

/// The image of a session: the one asked for, or the one its agent pinned.
pub open spec fn picked_image(session: NewSession, image: Option<Seq<char>>, rows: CreationRows) -> Option<ImageView> {
    match session.kind {
        SessionKind::Ephemeral => if rows.agent_known {
            None
        } else {
            match (image, rows.manifest) {
                (Some(reference), Some(manifest_id)) => match image_parts(reference) {
                    Some((name, tag)) => Some(ImageView { name, tag, manifest_id }),
                    None => None,
                },
                _ => None,
            }
        },
        SessionKind::Named { agent_id } => if agent_id != session.agent_id {
            None
        } else {
            image_view(rows.agent_image)
        },
    }
}

/// Why a session has no image. An ephemeral one never attaches to a named agent.
pub open spec fn no_image(session: NewSession, image: Option<Seq<char>>, rows: CreationRows, error: StoreError) -> bool {
    match session.kind {
        SessionKind::Ephemeral => if rows.agent_known {
            error == StoreError::InvalidState
        } else {
            match image {
                None => error == StoreError::SessionImageRequired,
                Some(reference) => if image_parts(reference) is None {
                    error == StoreError::InvalidImage
                } else {
                    names_missing(error, reference, Seq::empty())
                },
            }
        },
        SessionKind::Named { agent_id } => if agent_id != session.agent_id {
            error == StoreError::InvalidState
        } else {
            error == StoreError::AgentMissing
        },
    }
}

fn select_image(session: &NewSession, image: &Option<String>, rows: CreationRows) -> (result: StoreResult<ImageRecord>)
    ensures
        match result {
            Ok(found) => picked_image(*session, image.deep_view(), rows) == Some(found@),
            Err(error) => {
                &&& picked_image(*session, image.deep_view(), rows) is None
                &&& no_image(*session, image.deep_view(), rows, error)
            },
        },
{
    match session.kind {
        SessionKind::Ephemeral => {
            if rows.agent_known {
                return Err(StoreError::InvalidState);
            }
            match image {
                None => Err(StoreError::SessionImageRequired),
                Some(reference) => resolve_image(reference.as_str(), rows.manifest),
            }
        },
        SessionKind::Named { agent_id } => {
            if agent_id != session.agent_id {
                return Err(StoreError::InvalidState);
            }
            match rows.agent_image {
                None => Err(StoreError::AgentMissing),
                Some(pinned) => Ok(pinned),
            }
        },
    }
}

/// Makes a session: its image is pinned, its header written, and a Runnable one indexed.
pub fn create_session_in(session: &NewSession, image: &Option<String>, rows: CreationRows, now: Timestamp) -> (result: StoreResult<CreatedSession>)
    ensures
        if rows.session_exists {
            result matches Err(error) && error == StoreError::SessionExists
        } else if rows.computer_deleted {
            result matches Err(error) && error == StoreError::ComputerDeleted
        } else {
            match picked_image(*session, image.deep_view(), rows) {
                None => result matches Err(error) && no_image(
                    *session,
                    image.deep_view(),
                    rows,
                    error,
                ),
                Some(pinned) => if !rows.plan_valid {
                    result matches Err(error) && error == StoreError::InvalidState
                } else {
                    &&& result matches Ok(created)
                    &&& created.image@ == pinned
                    &&& created.rows == started(*session, now)
                    &&& created.computer_memory == computer_memory(*session, rows)
                },
            }
        },
{
    if rows.session_exists {
        return Err(StoreError::SessionExists);
    }
    check_computer(rows.computer_deleted)?;
    let plan_valid = rows.plan_valid;
    let computer_memory = match session.kind {
        SessionKind::Ephemeral => Some(
            match rows.image_memory {
                Some(memory) => memory,
                None => DEFAULT_MEMORY_MIB,
            },
        ),
        SessionKind::Named { .. } => None,
    };
    let picked = select_image(session, image, rows)?;
    if !plan_valid {
        return Err(StoreError::InvalidState);
    }
    let runnable = if session.state == SessionState::Runnable {
        Some(RunnableEntry { session_id: session.session_id, priority: 0, wake_at: now })
    } else {
        None
    };
    let made = SessionRows {
        session: Some(
            StoredSession {
                session_id: session.session_id,
                agent_id: session.agent_id,
                state: session.state,
                head_seq: 0,
                snapshot_seq: None,
            },
        ),
        lease: None,
        runnable,
        state_since: None,
        idle_since: Some(now),
        interrupt: false,
    };
    Ok(CreatedSession { rows: made, image: picked, computer_memory })
}

/// A session that starts as it may is indexed as its state asks for.
pub proof fn creations_are_indexed(session: NewSession, now: Timestamp)
    requires
        may_start(session),
    ensures
        indexed(started(session, now)),
{
}

/// A session's record is its header with what is stored beside it, each in its own place; what is
/// not stored takes the value of a session that never had it. A header that names a snapshot needs
/// one.
pub proof fn records_hold_what_is_stored(
    session: StoredSession,
    beside: SessionMetadata,
    snapshot: Option<Vec<u8>>,
    result: StoreResult<SessionRecord>,
)
    requires
        call_ensures(session_metadata, (session, beside, snapshot), result),
    ensures
        result is Err <==> session.snapshot_seq is Some && snapshot is None,
        result matches Ok(record) ==> {
            &&& record.session_id == session.session_id && record.agent_id == session.agent_id
            &&& record.state == session.state && record.head_seq == session.head_seq
            &&& record.snapshot is Some <==> session.snapshot_seq is Some
            &&& record.snapshot is Some ==> record.snapshot == snapshot
            &&& beside.kind matches Some(kind) ==> record.kind == kind
            &&& beside.kind is None ==> record.kind is Ephemeral
            &&& record.computer_deleted ==> beside.computer_deleted == Some(true)
            &&& beside.computer_deleted == Some(true) ==> record.computer_deleted
            &&& record.interrupt_requested ==> beside.interrupt_requested == Some(true)
            &&& beside.interrupt_requested == Some(true) ==> record.interrupt_requested
            &&& beside.plan matches Some(plan) ==> record.plan == plan
            &&& beside.plan is None ==> record.plan@.len() == 0
            &&& beside.inference matches Some(inference) ==> record.inference.provider == inference.provider
                && record.inference.model == inference.model && record.inference.reasoning_effort
                == inference.reasoning_effort
            &&& beside.inference is None ==> record.inference.provider is None && record.inference.model is None
                && record.inference.reasoning_effort is None
            &&& record.route == beside.route
            &&& beside.route_step matches Some(step) ==> record.route_step == step
            &&& beside.route_step is None ==> record.route_step == 0
        },
{
}

/// A new session belongs to the agent that was named, or to a fresh one of its own, and always may
/// start.
pub proof fn new_sessions_may_start(id: SessionId, agent: Option<AgentId>, fresh: AgentId, session: NewSession, result: StoreResult<()>)
    requires
        call_ensures(create_session_with_inference, (id, agent, fresh), session),
        call_ensures(create_session_record, (&session, false), result),
    ensures
        session.session_id == id && session.state == SessionState::Idle && session.head_seq == 0,
        agent matches Some(named) ==> session.agent_id == named && session.kind == (SessionKind::Named {
            agent_id: named,
        }),
        agent is None ==> session.agent_id == fresh && session.kind is Ephemeral,
        result is Ok,
{
}

/// A session starts with an empty log: one with events, a snapshot, a deleted computer or a request
/// to interrupt it is refused, and so is a named agent's session with an image of its own.
pub proof fn only_empty_sessions_start(session: NewSession, with_image: bool, result: StoreResult<()>)
    requires
        call_ensures(create_session_record, (&session, with_image), result),
    ensures
        result is Ok ==> session.head_seq == 0 && !session.has_snapshot && !session.computer_deleted
            && !session.interrupt_requested && (session.state == SessionState::Idle || session.state
            == SessionState::Runnable) && !(session.kind is Named && with_image),
        session.head_seq == 0 && !session.has_snapshot && !session.computer_deleted
            && !session.interrupt_requested && session.state == SessionState::Idle && session.kind
            is Ephemeral ==> result is Ok,
        result matches Err(error) ==> error == StoreError::NamedAgentImage || error
            == StoreError::InvalidState,
{
}

/// A created session has the ids and the state that were asked for, an empty log, no lease and no
/// snapshot; it is queued exactly where it is Runnable. A named agent's session takes the agent's
/// image and shares its computer; an ephemeral one gets the image that it asked for and a computer
/// with that image's memory.
pub proof fn created_sessions_are_as_asked(
    session: NewSession,
    image: Option<String>,
    rows: CreationRows,
    now: Timestamp,
    result: StoreResult<CreatedSession>,
)
    requires
        call_ensures(create_session_in, (&session, &image, rows, now), result),
    ensures
        result matches Ok(created) ==> {
            let header = created.rows.session->0;
            &&& !rows.session_exists && !rows.computer_deleted && rows.plan_valid
            &&& created.rows.session is Some
            &&& header.session_id == session.session_id && header.agent_id == session.agent_id
            &&& header.state == session.state && header.head_seq == 0 && header.snapshot_seq is None
            &&& created.rows.lease is None && !created.rows.interrupt && created.rows.idle_since == Some(now)
            &&& created.rows.runnable is Some <==> session.state == SessionState::Runnable
            &&& created.rows.runnable matches Some(entry) ==> entry.session_id == session.session_id
                && entry.wake_at == now
            &&& match session.kind {
                SessionKind::Named { agent_id } => {
                    &&& agent_id == session.agent_id && created.computer_memory is None
                    &&& rows.agent_image matches Some(pinned) && created.image.name@ == pinned.name@
                        && created.image.tag@ == pinned.tag@ && created.image.manifest_id == pinned.manifest_id
                },
                SessionKind::Ephemeral => {
                    &&& !rows.agent_known && image is Some
                    &&& rows.manifest == Some(created.image.manifest_id)
                    &&& created.computer_memory is Some
                    &&& rows.image_memory is Some ==> created.computer_memory == rows.image_memory
                    &&& rows.image_memory is None ==> created.computer_memory == Some(DEFAULT_MEMORY_MIB)
                },
            }
        },
        rows.session_exists ==> (result matches Err(error) && error == StoreError::SessionExists),
{
}

} // verus!
