//! Agents: stored layouts, creation, settings, sessions and conversations.

use swarmy_store::agents::{
    agent_github_token, check_new_agent, create_agent_with_replay, decode_agent, delete_agent,
    parse_image, resolve_image, set_agent_github_token, set_agent_with_resets, unregistered_image,
    validate_github_token, AgentReadings, AgentRecord, AgentRows, AgentSettings, CreatedAgent,
    ImageRecord, InferenceField, LegacyAgent, MainSessionAgent, NewAgent, ProviderAgent,
    SandboxRequirements, SettingsAgent,
};
use swarmy_store::conversations::{
    close_session, ensure_session_computer, open_main_session, set_main_session,
    summarize_main_session, sweep_cutoff, sweep_page, sweep_session, OpenedMain, Sweep,
};
use swarmy_store::error::StoreError;
use swarmy_store::events::{Event, Message, MessageRole, Part};
use swarmy_store::ids::{AgentId, LeaseOwnerId, ManifestId, MessageId, NodeId, SessionId};
use swarmy_store::placements::{PlacementChangeReason, PlacementRecord, PlacementRows};
use swarmy_store::replay::{api_replay, api_session_id, put_api_replay, ApiReplay};
use swarmy_store::session::{Lease, SessionRows, SessionState, StoredSession};
use swarmy_store::sessions::{
    create_session_in, create_session_record, create_session_with_inference, session_metadata,
    CreationRows, SessionKind, SessionMetadata,
};
use swarmy_store::time::{Duration, Timestamp};

fn at(second: i64) -> Timestamp {
    Timestamp::from_second(second).unwrap()
}

fn image() -> ImageRecord {
    ImageRecord { name: "base".into(), tag: "test".into(), manifest_id: ManifestId(9) }
}

/// The fields of an agent row in its first layout, as tuples of the row's encoding.
type FirstFields = (String, String, (String, String, String), String, String);
type SettingsFields = (Option<String>, Option<String>, Option<String>);
type Requirements = (u64, bool);

fn legacy(fields: FirstFields) -> LegacyAgent {
    LegacyAgent {
        agent_id: AgentId(ulid::Ulid::from_string(&fields.0).unwrap().into()),
        name: fields.1,
        image: ImageRecord {
            name: fields.2 .0,
            tag: fields.2 .1,
            manifest_id: ManifestId(ulid::Ulid::from_string(&fields.2 .2).unwrap().into()),
        },
        description: fields.3,
        created_at: Timestamp { nanos: fields.4.parse().unwrap() },
    }
}

fn whole<T: serde::de::DeserializeOwned>(bytes: &[u8]) -> Option<T> {
    match postcard::take_from_bytes(bytes) {
        Ok((value, rest)) if rest.is_empty() => Some(value),
        _ => None,
    }
}

fn session(text: Option<String>) -> Option<SessionId> {
    text.map(|text| SessionId(ulid::Ulid::from_string(&text).unwrap().into()))
}

/// Reads a row in every layout.
fn read(bytes: &[u8]) -> AgentReadings {
    let main = |first: FirstFields, main: Option<String>| MainSessionAgent {
        identity: legacy(first),
        main_session: session(main),
    };
    let settings = |first: FirstFields, id: Option<String>, rest: SettingsFields| SettingsAgent {
        base: main(first, id),
        system_prompt: rest.0,
        model: rest.1,
        reasoning_effort: rest.2,
    };
    AgentReadings {
        current: whole::<(FirstFields, Option<String>, SettingsFields, Option<String>, Requirements)>(
            bytes,
        )
        .map(|(first, id, rest, provider, needs)| {
            let old = settings(first, id, rest);
            AgentRecord {
                agent_id: old.base.identity.agent_id,
                name: old.base.identity.name,
                image: old.base.identity.image,
                description: old.base.identity.description,
                created_at: old.base.identity.created_at,
                main_session: old.base.main_session,
                system_prompt: old.system_prompt,
                model: old.model,
                reasoning_effort: old.reasoning_effort,
                provider,
                requirements: SandboxRequirements { memory_mib: needs.0, gpu: needs.1 },
            }
        }),
        provider: whole::<(FirstFields, Option<String>, SettingsFields, Option<String>)>(bytes)
            .map(|(first, id, rest, provider)| ProviderAgent {
                base: settings(first, id, rest),
                provider,
            }),
        settings: whole::<(FirstFields, Option<String>, SettingsFields)>(bytes)
            .map(|(first, id, rest)| settings(first, id, rest)),
        main_session: whole::<(FirstFields, Option<String>)>(bytes)
            .map(|(first, id)| main(first, id)),
        legacy: whole::<FirstFields>(bytes).map(legacy),
    }
}

fn text(id: u128) -> String {
    ulid::Ulid::from(id).to_string()
}

fn first_fields(record: &AgentRecord) -> FirstFields {
    (
        text(record.agent_id.0),
        record.name.clone(),
        (record.image.name.clone(), record.image.tag.clone(), text(record.image.manifest_id.0)),
        record.description.clone(),
        record.created_at.nanos.to_string(),
    )
}

fn current_bytes(record: &AgentRecord) -> Vec<u8> {
    let settings: SettingsFields = (
        record.system_prompt.clone(),
        record.model.clone(),
        record.reasoning_effort.clone(),
    );
    let needs: Requirements = (record.requirements.memory_mib, record.requirements.gpu);
    postcard::to_allocvec(&(
        first_fields(record),
        record.main_session.map(|id| text(id.0)),
        settings,
        record.provider.clone(),
        needs,
    ))
    .unwrap()
}

fn record() -> AgentRecord {
    AgentRecord {
        agent_id: AgentId(1),
        name: "old".into(),
        image: image(),
        description: String::new(),
        created_at: Timestamp { nanos: 0 },
        main_session: None,
        system_prompt: Some("prompt".into()),
        model: Some("gpt-5.5".into()),
        reasoning_effort: Some("max".into()),
        provider: None,
        requirements: SandboxRequirements { memory_mib: 768, gpu: false },
    }
}

#[test]
fn main_session_only_records_decode_with_default_settings() {
    let session = SessionId(77);
    let bytes = postcard::to_allocvec(&(
        first_fields(&AgentRecord { name: "six".into(), ..record() }),
        Some(text(session.0)),
    ))
    .unwrap();
    let record = decode_agent(read(&bytes)).unwrap();
    assert_eq!(record.name, "six");
    assert_eq!(record.main_session, Some(session));
    assert!(record.system_prompt.is_none() && record.model.is_none());
    assert!(record.reasoning_effort.is_none());
}

#[test]
fn settings_records_decode_without_provider() {
    let record = record();
    let settings: SettingsFields = (
        record.system_prompt.clone(),
        record.model.clone(),
        record.reasoning_effort.clone(),
    );
    let bytes =
        postcard::to_allocvec(&(first_fields(&record), None::<String>, settings)).unwrap();
    assert_eq!(decode_agent(read(&bytes)).unwrap(), record);
    assert_eq!(decode_agent(read(&current_bytes(&record))).unwrap(), record);
}

#[test]
fn malformed_extended_agent_is_not_treated_as_a_legacy_record() {
    let record = AgentRecord {
        agent_id: AgentId(1),
        name: "test".into(),
        image: image(),
        description: String::new(),
        created_at: Timestamp { nanos: 0 },
        main_session: Some(SessionId(5)),
        system_prompt: Some("prompt".into()),
        model: Some("model".into()),
        reasoning_effort: Some("high".into()),
        provider: Some("openai".into()),
        requirements: SandboxRequirements { memory_mib: 768, gpu: false },
    };
    let mut bytes = current_bytes(&record);
    assert_eq!(decode_agent(read(&bytes)).unwrap(), record);
    bytes.pop();
    assert!(decode_agent(read(&bytes)).is_none());
    let mut bytes = current_bytes(&record);
    bytes.push(0);
    assert!(decode_agent(read(&bytes)).is_none());
}

#[test]
fn first_layouts_keep_the_identity() {
    let bytes = postcard::to_allocvec(&first_fields(&record())).unwrap();
    let agent = decode_agent(read(&bytes)).unwrap();
    assert_eq!(agent.agent_id, AgentId(1));
    assert_eq!(agent.image, image());
    assert_eq!(agent.main_session, None);
    assert_eq!(agent.requirements, SandboxRequirements { memory_mib: 768, gpu: false });
    let provider = ProviderAgent {
        base: SettingsAgent {
            base: MainSessionAgent { identity: legacy(first_fields(&record())), main_session: None },
            system_prompt: None,
            model: None,
            reasoning_effort: None,
        },
        provider: Some("p".into()),
    };
    let readings = AgentReadings {
        current: None,
        provider: Some(provider),
        settings: None,
        main_session: None,
        legacy: None,
    };
    assert_eq!(decode_agent(readings).unwrap().provider, Some("p".into()));
}

#[test]
fn tokens_are_printable_and_short() {
    assert_eq!(validate_github_token(&None), Ok(()));
    assert_eq!(validate_github_token(&Some("ghp_!~".into())), Ok(()));
    assert_eq!(validate_github_token(&Some("a".repeat(4096))), Ok(()));
    for wrong in ["", "a b", "é", "\u{7f}", "a\n"] {
        assert_eq!(
            validate_github_token(&Some(wrong.into())),
            Err(StoreError::InvalidGithubToken),
            "{wrong:?}"
        );
    }
    assert_eq!(
        validate_github_token(&Some("a".repeat(4097))),
        Err(StoreError::InvalidGithubToken)
    );
}

#[test]
fn names_are_bounded_in_bytes() {
    assert_eq!(check_new_agent("n", "", &None), Ok(()));
    assert_eq!(check_new_agent("", "", &None), Err(StoreError::InvalidAgentName));
    for control in ["\0", "a\u{1f}", "\u{7f}", "\u{85}"] {
        assert_eq!(check_new_agent(control, "", &None), Err(StoreError::InvalidAgentName));
    }
    assert_eq!(check_new_agent(&"é".repeat(512), "", &None), Ok(()));
    assert_eq!(check_new_agent(&"é".repeat(513), "", &None), Err(StoreError::TooLarge));
    assert_eq!(check_new_agent("n", &"d".repeat(40_960), &None), Ok(()));
    assert_eq!(check_new_agent("n", &"d".repeat(40_961), &None), Err(StoreError::TooLarge));
}

#[test]
fn image_references_have_one_colon() {
    assert_eq!(parse_image("a:b"), Ok(("a".into(), "b".into())));
    for wrong in ["a", ":b", "a:", "a:b:c", ""] {
        assert_eq!(parse_image(wrong), Err(StoreError::InvalidImage), "{wrong:?}");
    }
    assert_eq!(resolve_image("base:test", Some(ManifestId(9))), Ok(image()));
    assert_eq!(
        resolve_image("base:test", None),
        Err(StoreError::ImageMissing { image: "base:test".into(), registered: String::new() })
    );
    assert_eq!(
        unregistered_image("x:y", &vec![]),
        StoreError::ImageMissing { image: "x:y".into(), registered: "(none)".into() }
    );
    let other = ImageRecord { name: "z".into(), tag: "1".into(), manifest_id: ManifestId(1) };
    assert_eq!(
        unregistered_image("x:y", &vec![image(), other]),
        StoreError::ImageMissing { image: "x:y".into(), registered: "base:test, z:1".into() }
    );
}

fn settings() -> AgentSettings {
    AgentSettings {
        system_prompt: None,
        model: None,
        reasoning_effort: None,
        provider: None,
        memory_mib: None,
        gpu: None,
    }
}

fn request() -> NewAgent {
    NewAgent {
        agent_id: AgentId(4),
        name: "n".into(),
        image: "base:test".into(),
        description: "d".into(),
        settings: AgentSettings { model: Some("m".into()), ..settings() },
        github_token: None,
        replayable: true,
    }
}

fn free() -> AgentRows {
    AgentRows {
        replay: None,
        name_taken: false,
        id_taken: false,
        manifest: Some(ManifestId(9)),
        image_memory: None,
    }
}

#[test]
fn agents_are_made_once_per_request() {
    let now = at(10);
    match create_agent_with_replay(request(), free(), now).unwrap() {
        CreatedAgent::Created(agent, until) => {
            assert_eq!(agent.model, Some("m".into()));
            assert_eq!(agent.requirements.memory_mib, 768);
            assert_eq!(agent.image, image());
            assert_eq!(until, Some(at(3_610)));
        }
        CreatedAgent::Replayed(_) => panic!("not asked before"),
    }
    let replay = ApiReplay { result: "answer".into(), expires_at: at(3_610) };
    let again = AgentRows { replay: Some(replay.clone()), name_taken: true, ..free() };
    assert!(matches!(
        create_agent_with_replay(request(), again, at(3_609)),
        Ok(CreatedAgent::Replayed(answer)) if answer == "answer"
    ));
    let late = AgentRows { replay: Some(replay), name_taken: true, ..free() };
    assert!(matches!(
        create_agent_with_replay(request(), late, at(3_610)),
        Err(StoreError::AgentExists)
    ));
    let memory = AgentRows { image_memory: Some(2_048), ..free() };
    match create_agent_with_replay(NewAgent { replayable: false, ..request() }, memory, now) {
        Ok(CreatedAgent::Created(agent, until)) => {
            assert_eq!(agent.requirements.memory_mib, 2_048);
            assert_eq!(until, None);
        }
        _ => panic!("refused"),
    }
    let taken = AgentRows { id_taken: true, ..free() };
    assert!(matches!(create_agent_with_replay(request(), taken, now), Err(StoreError::AgentExists)));
    let unknown = AgentRows { manifest: None, ..free() };
    assert!(matches!(
        create_agent_with_replay(request(), unknown, now),
        Err(StoreError::ImageMissing { .. })
    ));
    let odd = NewAgent { image: "base".into(), ..request() };
    assert!(matches!(create_agent_with_replay(odd, free(), now), Err(StoreError::InvalidImage)));
}

#[test]
fn replies_are_remembered_for_an_hour() {
    let replay = put_api_replay("r".into(), at(0));
    assert_eq!(replay.expires_at, at(3_600));
    assert_eq!(api_replay(Some(replay.clone()), at(3_599)), Some("r".into()));
    assert_eq!(api_replay(Some(replay), at(3_600)), None);
    assert_eq!(api_replay(None, at(0)), None);
    assert_eq!(put_api_replay("r".into(), Timestamp::latest()).expires_at, Timestamp::latest());
    assert_eq!(api_session_id(None, SessionId(3)), (SessionId(3), true));
    assert_eq!(api_session_id(Some(SessionId(2)), SessionId(3)), (SessionId(2), false));
}

#[test]
fn settings_change_only_what_is_given() {
    let change = AgentSettings { model: Some("new".into()), ..settings() };
    let agent = set_agent_with_resets(
        Some(record()),
        &change,
        &vec![InferenceField::SystemPrompt],
        true,
    )
    .unwrap();
    assert_eq!(agent.model, Some("new".into()));
    assert_eq!(agent.system_prompt, None);
    assert_eq!(agent.reasoning_effort, Some("max".into()));
    let bigger = AgentSettings { memory_mib: Some(1_024), ..settings() };
    assert_eq!(
        set_agent_with_resets(Some(record()), &bigger, &vec![], true),
        Err(StoreError::ActiveSandboxRequirements)
    );
    let moved = set_agent_with_resets(Some(record()), &bigger, &vec![], false).unwrap();
    assert_eq!(moved.requirements.memory_mib, 1_024);
    assert_eq!(
        set_agent_with_resets(None, &bigger, &vec![], false),
        Err(StoreError::AgentMissing)
    );
}

#[test]
fn tokens_belong_to_known_agents() {
    assert_eq!(set_agent_github_token(true, Some("t".into())), Ok(Some("t".into())));
    assert_eq!(set_agent_github_token(true, None), Ok(None));
    assert_eq!(set_agent_github_token(false, None), Err(StoreError::AgentMissing));
    assert_eq!(
        set_agent_github_token(false, Some(" ".into())),
        Err(StoreError::InvalidGithubToken)
    );
    assert_eq!(agent_github_token(true, Some("t".into())), Some("t".into()));
    assert_eq!(agent_github_token(false, Some("t".into())), None);
}

fn placed() -> PlacementRows {
    PlacementRows {
        placement: Some(PlacementRecord {
            agent_id: AgentId(1),
            node_id: NodeId(2),
            epoch: 3,
            expires_at: at(100),
            last_change_reason: PlacementChangeReason::Initial,
            last_changed_at: at(0),
        }),
        epoch: Some(3),
        deleted: false,
    }
}

#[test]
fn deleted_agents_lose_their_computer() {
    assert_eq!(delete_agent(false, &placed(), &Some(1)), Ok(None));
    let (rows, left) = delete_agent(true, &placed(), &Some(2)).unwrap().unwrap();
    assert!(rows.deleted && rows.placement.is_none());
    assert_eq!(rows.epoch, Some(3));
    assert_eq!(left, Some(1));
    assert_eq!(delete_agent(true, &placed(), &None), Err(StoreError::Corrupt));
    assert_eq!(delete_agent(true, &placed(), &Some(0)), Err(StoreError::Corrupt));
}

fn creation() -> CreationRows {
    CreationRows {
        session_exists: false,
        computer_deleted: false,
        agent_known: false,
        agent_image: None,
        manifest: Some(ManifestId(9)),
        image_memory: Some(512),
        plan_valid: true,
    }
}

#[test]
fn ephemeral_sessions_pin_their_image() {
    let new = create_session_with_inference(SessionId(1), None, AgentId(8));
    assert_eq!(new.kind, SessionKind::Ephemeral);
    assert_eq!(create_session_record(&new, true), Ok(()));
    let image_name = Some("base:test".to_owned());
    let made = create_session_in(&new, &image_name, creation(), at(5)).unwrap();
    assert_eq!(made.image, image());
    assert_eq!(made.computer_memory, Some(512));
    let header = made.rows.session.unwrap();
    assert_eq!((header.state, header.head_seq, header.agent_id), (SessionState::Idle, 0, AgentId(8)));
    assert_eq!(made.rows.idle_since, Some(at(5)));
    assert!(made.rows.runnable.is_none());
    let refused = |rows: CreationRows, image: &Option<String>| {
        create_session_in(&new, image, rows, at(5)).err().unwrap()
    };
    assert_eq!(
        refused(CreationRows { session_exists: true, ..creation() }, &image_name),
        StoreError::SessionExists
    );
    assert_eq!(
        refused(CreationRows { computer_deleted: true, ..creation() }, &image_name),
        StoreError::ComputerDeleted
    );
    assert_eq!(
        refused(CreationRows { agent_known: true, ..creation() }, &image_name),
        StoreError::InvalidState
    );
    assert_eq!(refused(creation(), &None), StoreError::SessionImageRequired);
    assert_eq!(refused(creation(), &Some("x".into())), StoreError::InvalidImage);
    assert_eq!(
        refused(CreationRows { plan_valid: false, ..creation() }, &image_name),
        StoreError::InvalidState
    );
}

#[test]
fn named_sessions_use_the_agents_image() {
    let mut new = create_session_with_inference(SessionId(1), Some(AgentId(3)), AgentId(8));
    assert_eq!(new.kind, SessionKind::Named { agent_id: AgentId(3) });
    assert_eq!(create_session_record(&new, true), Err(StoreError::NamedAgentImage));
    new.state = SessionState::Runnable;
    assert_eq!(create_session_record(&new, false), Ok(()));
    let rows = CreationRows { agent_known: true, agent_image: Some(image()), ..creation() };
    let made = create_session_in(&new, &None, rows, at(5)).unwrap();
    assert_eq!(made.computer_memory, None);
    assert_eq!(made.rows.runnable.unwrap().wake_at, at(5));
    assert_eq!(
        create_session_in(&new, &None, creation(), at(5)).err(),
        Some(StoreError::AgentMissing)
    );
    new.head_seq = 1;
    assert_eq!(create_session_record(&new, false), Err(StoreError::InvalidState));
}

#[test]
fn legacy_session_header_is_still_readable_and_writes_the_same_bytes() {
    let id = SessionId(ulid::Ulid::from_parts(1, 2).into());
    let agent = AgentId(ulid::Ulid::from_parts(1, 3).into());
    // A tuple encodes the five fields of a header without metadata; Idle is the first state.
    let original =
        postcard::to_allocvec(&(text(id.0), text(agent.0), 0_u8, 42_u64, Some(20_u64))).unwrap();
    let read: (String, String, u8, u64, Option<u64>) = whole(&original).unwrap();
    let header = StoredSession {
        session_id: SessionId(ulid::Ulid::from_string(&read.0).unwrap().into()),
        agent_id: AgentId(ulid::Ulid::from_string(&read.1).unwrap().into()),
        state: SessionState::Idle,
        head_seq: read.3,
        snapshot_seq: read.4,
    };
    assert_eq!(header.session_id, id);
    assert_eq!(header.agent_id, agent);
    assert_eq!(header.head_seq, 42);
    assert_eq!(header.snapshot_seq, Some(20));
    let beside = SessionMetadata {
        kind: None,
        computer_deleted: None,
        plan: None,
        inference: None,
        interrupt_requested: None,
        route: None,
        route_step: None,
    };
    let shown = session_metadata(header, beside, Some(vec![1])).unwrap();
    assert_eq!(shown.kind, SessionKind::Ephemeral);
    assert!(!shown.computer_deleted);
    assert_eq!(shown.inference.model, None);
    assert_eq!(shown.plan.len(), 0);
    let beside = SessionMetadata {
        kind: Some(SessionKind::Named { agent_id: agent }),
        computer_deleted: Some(true),
        plan: Some(vec!["step".into()]),
        inference: None,
        interrupt_requested: Some(true),
        route: Some("r".into()),
        route_step: Some(2),
    };
    let shown = session_metadata(header, beside, Some(vec![1])).unwrap();
    assert!(shown.computer_deleted && shown.interrupt_requested);
    assert_eq!((shown.route, shown.route_step), (Some("r".into()), 2));
    let again = postcard::to_allocvec(&(
        text(header.session_id.0),
        text(header.agent_id.0),
        0_u8,
        header.head_seq,
        header.snapshot_seq,
    ))
    .unwrap();
    assert_eq!(again, original);
}

#[test]
fn snapshots_that_are_named_have_to_exist() {
    let header = StoredSession {
        session_id: SessionId(1),
        agent_id: AgentId(1),
        state: SessionState::Idle,
        head_seq: 1,
        snapshot_seq: Some(1),
    };
    let beside = SessionMetadata {
        kind: None,
        computer_deleted: None,
        plan: None,
        inference: None,
        interrupt_requested: None,
        route: None,
        route_step: None,
    };
    assert_eq!(session_metadata(header, beside, None), Err(StoreError::Corrupt));
}

#[test]
fn main_conversations_are_opened_once() {
    let agent = record();
    match open_main_session(Some(agent.clone()), false, false, SessionId(6), at(1)).unwrap() {
        OpenedMain::Created(created, after) => {
            assert_eq!(after.main_session, Some(SessionId(6)));
            assert_eq!(created.image, image());
            match open_main_session(Some(after), false, false, SessionId(7), at(2)).unwrap() {
                OpenedMain::Existing(id) => assert_eq!(id, SessionId(6)),
                OpenedMain::Created(..) => panic!("opened twice"),
            }
        }
        OpenedMain::Existing(_) => panic!("not opened yet"),
    }
    assert_eq!(
        open_main_session(None, false, false, SessionId(6), at(1)).err(),
        Some(StoreError::AgentMissing)
    );
    assert_eq!(
        open_main_session(Some(agent.clone()), true, false, SessionId(6), at(1)).err(),
        Some(StoreError::ComputerDeleted)
    );
    assert_eq!(
        open_main_session(Some(agent), false, true, SessionId(6), at(1)).err(),
        Some(StoreError::SessionExists)
    );
}

fn header(state: SessionState) -> StoredSession {
    StoredSession {
        session_id: SessionId(6),
        agent_id: AgentId(1),
        state,
        head_seq: 4,
        snapshot_seq: None,
    }
}

fn rows(state: SessionState) -> SessionRows {
    SessionRows {
        session: Some(header(state)),
        lease: None,
        runnable: None,
        state_since: None,
        idle_since: Some(at(0)),
        interrupt: false,
    }
}

#[test]
fn main_conversations_belong_to_their_agent() {
    let kind = SessionKind::Named { agent_id: AgentId(1) };
    let own = Some(header(SessionState::Idle));
    let agent = set_main_session(Some(record()), &own, kind, false).unwrap();
    assert_eq!(agent.main_session, Some(SessionId(6)));
    let wrong = |session: Option<StoredSession>, kind: SessionKind, deleted: bool| {
        set_main_session(Some(record()), &session, kind, deleted).err().unwrap()
    };
    assert_eq!(wrong(None, kind, false), StoreError::SessionMissing);
    assert_eq!(wrong(own, kind, true), StoreError::ComputerDeleted);
    assert_eq!(wrong(own, SessionKind::Ephemeral, false), StoreError::InvalidMainSession);
    assert_eq!(
        wrong(Some(header(SessionState::Completed)), kind, false),
        StoreError::InvalidMainSession
    );
    assert_eq!(set_main_session(None, &own, kind, false), Err(StoreError::AgentMissing));
}

#[test]
fn summaries_archive_and_open_together() {
    let lease = Lease { owner: LeaseOwnerId(1), expires_at: at(100), seq: 5 };
    let leased = SessionRows { lease: Some(lease), ..rows(SessionState::Leased) };
    let agent = AgentRecord { main_session: Some(SessionId(6)), ..record() };
    let opening = |role: MessageRole| Message {
        id: MessageId(3),
        role,
        parts: vec![Part::Text { text: "summary".into() }],
    };
    let run = |head: u64, role: MessageRole, agent: Option<AgentRecord>| {
        summarize_main_session(
            &leased,
            agent,
            false,
            false,
            head,
            &lease,
            opening(role),
            SessionId(7),
            at(10),
        )
    };
    let done = run(4, MessageRole::System, Some(agent.clone())).unwrap();
    let old = done.archived.session.unwrap();
    assert_eq!((old.state, old.head_seq), (SessionState::Completed, 5));
    assert!(done.archived.lease.is_none());
    assert_eq!(
        done.archived_event,
        Event::StateChanged { seq: 5, from: SessionState::Leased, to: SessionState::Completed }
    );
    let new = done.created.rows.session.unwrap();
    assert_eq!((new.session_id, new.head_seq, new.state), (SessionId(7), 1, SessionState::Idle));
    assert_eq!(done.opening_event.seq(), 1);
    assert_eq!(done.agent.main_session, Some(SessionId(7)));
    assert_eq!(done.next, (old.session_id, SessionId(7)));
    assert_eq!(done.previous, (SessionId(7), old.session_id));
    assert_eq!(
        run(4, MessageRole::User, Some(agent.clone())).err(),
        Some(StoreError::InvalidState)
    );
    assert_eq!(
        run(3, MessageRole::System, Some(agent.clone())).err(),
        Some(StoreError::StaleSequence { expected: 3, actual: 4 })
    );
    assert_eq!(
        run(u64::MAX, MessageRole::System, Some(agent)).err(),
        Some(StoreError::SequenceOverflow)
    );
    assert_eq!(
        run(4, MessageRole::System, Some(record())).err(),
        Some(StoreError::InvalidMainSession)
    );
    assert_eq!(run(4, MessageRole::System, None).err(), Some(StoreError::AgentMissing));
}

#[test]
fn closing_takes_only_ephemeral_computers() {
    let now = at(10);
    let open = rows(SessionState::Idle);
    let closed =
        close_session(&open, SessionKind::Ephemeral, None, &placed(), &Some(1), now).unwrap();
    assert_eq!(closed.rows.session.unwrap().state, SessionState::Completed);
    let (computer, left) = closed.computer.unwrap();
    assert!(computer.deleted);
    assert_eq!(left, Some(0));
    let named = SessionKind::Named { agent_id: AgentId(1) };
    let side = close_session(&open, named, Some(SessionId(99)), &placed(), &None, now).unwrap();
    assert!(side.computer.is_none());
    assert_eq!(
        close_session(&open, named, Some(SessionId(6)), &placed(), &None, now).err(),
        Some(StoreError::MainSessionClose)
    );
    let gone = SessionRows { session: None, ..open };
    assert_eq!(
        close_session(&gone, named, None, &placed(), &None, now).err(),
        Some(StoreError::SessionMissing)
    );
}

#[test]
fn sweeps_close_old_idle_ephemeral_sessions() {
    let now = at(1_000);
    let cutoff = sweep_cutoff(now, Duration::from_secs(100)).unwrap();
    assert_eq!(cutoff, at(900));
    assert_eq!(
        sweep_cutoff(Timestamp::earliest(), Duration::from_secs(1)),
        Err(StoreError::InvalidState)
    );
    let free = PlacementRows { placement: None, epoch: None, deleted: false };
    let sweep = |rows: &SessionRows, kind: SessionKind| {
        sweep_session(rows, kind, &free, &None, cutoff, now).unwrap()
    };
    let old = SessionRows { idle_since: Some(at(899)), ..rows(SessionState::Idle) };
    assert!(matches!(sweep(&old, SessionKind::Ephemeral), Sweep::Close(_)));
    let fresh = SessionRows { idle_since: Some(at(900)), ..old };
    assert!(matches!(sweep(&fresh, SessionKind::Ephemeral), Sweep::Keep));
    let unknown = SessionRows { idle_since: None, ..old };
    assert!(matches!(
        sweep(&unknown, SessionKind::Ephemeral),
        Sweep::StartClock(next) if next.idle_since == Some(now)
    ));
    assert!(matches!(sweep(&old, SessionKind::Named { agent_id: AgentId(1) }), Sweep::Keep));
    let busy = rows(SessionState::Leased);
    assert!(matches!(sweep(&busy, SessionKind::Ephemeral), Sweep::Keep));
    let page = vec![header(SessionState::Leased), header(SessionState::Idle)];
    assert_eq!(sweep_page(&page), (vec![SessionId(6)], Some(SessionId(6))));
    assert_eq!(sweep_page(&vec![]), (vec![], None));
    assert_eq!(ensure_session_computer(&Some(page[0]), false), Ok(()));
    assert_eq!(ensure_session_computer(&Some(page[0]), true), Err(StoreError::ComputerDeleted));
    assert_eq!(ensure_session_computer(&None, true), Err(StoreError::SessionMissing));
}
