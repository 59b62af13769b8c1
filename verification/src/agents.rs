//! Named agents: their records through all stored layouts, their creation and their settings.

use crate::error::{StoreError, StoreResult};
use crate::ids::{AgentId, ManifestId, SessionId};
use crate::placements::{release_deleted_computer, used, PlacementRows};
use crate::replay::{
    api_replay, forgotten_at, remembered, replay_until, replay_view, ApiReplay, ReplayView,
};
use crate::text::{char_list, copy_option, split_first, split_once};
use crate::time::Timestamp;
use crate::INLINE_LIMIT;
use vstd::prelude::*;
use vstd::string::StringExecFns;
use vstd::utf8::encode_utf8;

verus! {

/// Longest agent name, in bytes.
pub const MAX_NAME_BYTES: usize = 1024;

/// Longest agent description, in bytes.
pub const MAX_DESCRIPTION_BYTES: usize = 40_960;

/// Longest GitHub token.
pub const MAX_TOKEN_BYTES: usize = 4096;

/// Memory of a computer whose image and agent name none, in MiB.
pub const DEFAULT_MEMORY_MIB: u64 = 768;

/// A registered image: its name and tag, and the disk they stand for.
#[derive(Clone, Debug, PartialEq, Eq)]
pub struct ImageRecord {
    pub name: String,
    pub tag: String,
    pub manifest_id: ManifestId,
}

/// View of an image.
pub ghost struct ImageView {
    pub name: Seq<char>,
    pub tag: Seq<char>,
    pub manifest_id: ManifestId,
}

impl View for ImageRecord {
    type V = ImageView;

    open spec fn view(&self) -> ImageView {
        ImageView { name: self.name@, tag: self.tag@, manifest_id: self.manifest_id }
    }
}

/// What an agent's computer needs.
#[derive(Clone, Copy, Debug, PartialEq, Eq, Structural)]
pub struct SandboxRequirements {
    pub memory_mib: u64,
    pub gpu: bool,
}

/// What a computer gets when nothing is asked for.
pub open spec fn default_requirements() -> SandboxRequirements {
    SandboxRequirements { memory_mib: DEFAULT_MEMORY_MIB, gpu: false }
}

/// A named agent. The reasoning effort is the name of a level.
#[derive(Clone, Debug, PartialEq, Eq)]
pub struct AgentRecord {
    pub agent_id: AgentId,
    pub name: String,
    pub image: ImageRecord,
    pub description: String,
    pub created_at: Timestamp,
    pub main_session: Option<SessionId>,
    pub system_prompt: Option<String>,
    pub model: Option<String>,
    pub reasoning_effort: Option<String>,
    pub provider: Option<String>,
    pub requirements: SandboxRequirements,
}

/// View of an agent.
pub ghost struct AgentView {
    pub agent_id: AgentId,
    pub name: Seq<char>,
    pub image: ImageView,
    pub description: Seq<char>,
    pub created_at: Timestamp,
    pub main_session: Option<SessionId>,
    pub system_prompt: Option<Seq<char>>,
    pub model: Option<Seq<char>>,
    pub reasoning_effort: Option<Seq<char>>,
    pub provider: Option<Seq<char>>,
    pub requirements: SandboxRequirements,
}

impl View for AgentRecord {
    type V = AgentView;

    open spec fn view(&self) -> AgentView {
        AgentView {
            agent_id: self.agent_id,
            name: self.name@,
            image: self.image@,
            description: self.description@,
            created_at: self.created_at,
            main_session: self.main_session,
            system_prompt: self.system_prompt.deep_view(),
            model: self.model.deep_view(),
            reasoning_effort: self.reasoning_effort.deep_view(),
            provider: self.provider.deep_view(),
            requirements: self.requirements,
        }
    }
}

/// View of an agent that may be absent.
pub open spec fn agent_view(agent: Option<AgentRecord>) -> Option<AgentView> {
    match agent {
        Some(agent) => Some(agent@),
        None => None,
    }
}

// ---------------------------------------------------------------------------------------------
// Stored layouts
// ---------------------------------------------------------------------------------------------

/// The first layout of an agent: an identity with a pinned image.
pub struct LegacyAgent {
    pub agent_id: AgentId,
    pub name: String,
    pub image: ImageRecord,
    pub description: String,
    pub created_at: Timestamp,
}

/// The second layout: with a pointer to the main conversation.
pub struct MainSessionAgent {
    pub identity: LegacyAgent,
    pub main_session: Option<SessionId>,
}

/// The third layout: with inference settings.
pub struct SettingsAgent {
    pub base: MainSessionAgent,
    pub system_prompt: Option<String>,
    pub model: Option<String>,
    pub reasoning_effort: Option<String>,
}

/// The fourth layout: with a provider.
pub struct ProviderAgent {
    pub base: SettingsAgent,
    pub provider: Option<String>,
}

/// What reading a whole row in each layout gave. A layout that does not use up the row gives
/// nothing.
pub struct AgentReadings {
    pub current: Option<AgentRecord>,
    pub provider: Option<ProviderAgent>,
    pub settings: Option<SettingsAgent>,
    pub main_session: Option<MainSessionAgent>,
    pub legacy: Option<LegacyAgent>,
}

/// An agent of the first layout.
pub open spec fn from_legacy(old: LegacyAgent) -> AgentView {
    AgentView {
        agent_id: old.agent_id,
        name: old.name@,
        image: old.image@,
        description: old.description@,
        created_at: old.created_at,
        main_session: None,
        system_prompt: None,
        model: None,
        reasoning_effort: None,
        provider: None,
        requirements: default_requirements(),
    }
}

/// An agent of the second layout.
pub open spec fn from_main_session(old: MainSessionAgent) -> AgentView {
    AgentView { main_session: old.main_session, ..from_legacy(old.identity) }
}

/// An agent of the third layout.
pub open spec fn from_settings(old: SettingsAgent) -> AgentView {
    AgentView {
        system_prompt: old.system_prompt.deep_view(),
        model: old.model.deep_view(),
        reasoning_effort: old.reasoning_effort.deep_view(),
        ..from_main_session(old.base)
    }
}

/// An agent of the fourth layout.
pub open spec fn from_provider(old: ProviderAgent) -> AgentView {
    AgentView { provider: old.provider.deep_view(), ..from_settings(old.base) }
}

/// The agent of a row: the newest layout that the row fits, with nothing set in the fields that
/// came later.
pub open spec fn decoded(readings: AgentReadings) -> Option<AgentView> {
    match (
        readings.current,
        readings.provider,
        readings.settings,
        readings.main_session,
        readings.legacy,
    ) {
        (Some(agent), _, _, _, _) => Some(agent@),
        (None, Some(old), _, _, _) => Some(from_provider(old)),
        (None, None, Some(old), _, _) => Some(from_settings(old)),
        (None, None, None, Some(old), _) => Some(from_main_session(old)),
        (None, None, None, None, Some(old)) => Some(from_legacy(old)),
        (None, None, None, None, None) => None,
    }
}

/// The agent of a row. None means that the row fits no layout.
pub fn decode_agent(readings: AgentReadings) -> (agent: Option<AgentRecord>)
    ensures
        agent_view(agent) == decoded(readings),
{
    if let Some(agent) = readings.current {
        return Some(agent);
    }
    if let Some(old) = readings.provider {
        let base = old.base.base;
        return Some(
            AgentRecord {
                agent_id: base.identity.agent_id,
                name: base.identity.name,
                image: base.identity.image,
                description: base.identity.description,
                created_at: base.identity.created_at,
                main_session: base.main_session,
                system_prompt: old.base.system_prompt,
                model: old.base.model,
                reasoning_effort: old.base.reasoning_effort,
                provider: old.provider,
                requirements: SandboxRequirements { memory_mib: DEFAULT_MEMORY_MIB, gpu: false },
            },
        );
    }
    if let Some(old) = readings.settings {
        return Some(
            AgentRecord {
                agent_id: old.base.identity.agent_id,
                name: old.base.identity.name,
                image: old.base.identity.image,
                description: old.base.identity.description,
                created_at: old.base.identity.created_at,
                main_session: old.base.main_session,
                system_prompt: old.system_prompt,
                model: old.model,
                reasoning_effort: old.reasoning_effort,
                provider: None,
                requirements: SandboxRequirements { memory_mib: DEFAULT_MEMORY_MIB, gpu: false },
            },
        );
    }
    if let Some(old) = readings.main_session {
        return Some(
            AgentRecord {
                agent_id: old.identity.agent_id,
                name: old.identity.name,
                image: old.identity.image,
                description: old.identity.description,
                created_at: old.identity.created_at,
                main_session: old.main_session,
                system_prompt: None,
                model: None,
                reasoning_effort: None,
                provider: None,
                requirements: SandboxRequirements { memory_mib: DEFAULT_MEMORY_MIB, gpu: false },
            },
        );
    }
    match readings.legacy {
        Some(old) => Some(
            AgentRecord {
                agent_id: old.agent_id,
                name: old.name,
                image: old.image,
                description: old.description,
                created_at: old.created_at,
                main_session: None,
                system_prompt: None,
                model: None,
                reasoning_effort: None,
                provider: None,
                requirements: SandboxRequirements { memory_mib: DEFAULT_MEMORY_MIB, gpu: false },
            },
        ),
        None => None,
    }
}

/// Rows of old layouts keep the agent's identity and gain no override on upgrade.
pub proof fn upgrades_add_nothing(old: LegacyAgent, main_session: Option<SessionId>)
    ensures
        ({
            let upgraded = from_main_session(MainSessionAgent { identity: old, main_session });
            &&& upgraded.agent_id == old.agent_id
            &&& upgraded.name == old.name@
            &&& upgraded.image == old.image@
            &&& upgraded.main_session == main_session
            &&& upgraded.system_prompt is None
            &&& upgraded.model is None
            &&& upgraded.reasoning_effort is None
            &&& upgraded.provider is None
            &&& upgraded.requirements == default_requirements()
        }),
{
}

// ---------------------------------------------------------------------------------------------
// Checks
// ---------------------------------------------------------------------------------------------

/// Whether a token may be stored: up to 4096 printable ASCII characters and no white space.
pub open spec fn token_fits(token: Seq<char>) -> bool {
    &&& 0 < token.len() <= MAX_TOKEN_BYTES
    &&& forall|i: int| 0 <= i < token.len() ==> '!' <= #[trigger] token[i] <= '~'
}

/// Checks a GitHub token that may be absent.
pub fn validate_github_token(token: &Option<String>) -> (result: StoreResult<()>)
    ensures
        match result {
            Ok(_) => token matches Some(text) ==> token_fits(text@),
            Err(error) => {
                &&& error == StoreError::InvalidGithubToken
                &&& token matches Some(text) && !token_fits(text@)
            },
        },
{
    match token {
        None => Ok(()),
        Some(text) => {
            let list = char_list(text.as_str());
            if list.len() == 0 || list.len() > MAX_TOKEN_BYTES {
                return Err(StoreError::InvalidGithubToken);
            }
            let mut i: usize = 0;
            while i < list.len()
                invariant
                    i <= list.len(),
                    list@ == text@,
                    *token == Some(*text),
                    forall|j: int| 0 <= j < i ==> '!' <= #[trigger] list@[j] <= '~',
                decreases list.len() - i,
            {
                if list[i] < '!' || list[i] > '~' {
                    assert(!('!' <= text@[i as int] <= '~'));
                    return Err(StoreError::InvalidGithubToken);
                }
                i += 1;
            }
            Ok(())
        },
    }
}

/// Whether a character is a control character.
pub open spec fn is_control(c: char) -> bool {
    c as u32 <= 0x1f || 0x7f <= c as u32 <= 0x9f
}

/// Whether an agent may have a name.
pub open spec fn name_fits(name: Seq<char>) -> bool {
    &&& name.len() > 0
    &&& forall|i: int| 0 <= i < name.len() ==> !is_control(#[trigger] name[i])
}

fn check_name(name: &str) -> (fits: bool)
    ensures
        fits == name_fits(name@),
{
    let list = char_list(name);
    let mut i: usize = 0;
    while i < list.len()
        invariant
            i <= list.len(),
            list@ == name@,
            forall|j: int| 0 <= j < i ==> !is_control(#[trigger] list@[j]),
        decreases list.len() - i,
    {
        let code: u32 = list[i] as u32;
        if code <= 0x1f || (0x7f <= code && code <= 0x9f) {
            assert(is_control(name@[i as int]));
            return false;
        }
        i += 1;
    }
    list.len() > 0
}

/// Why an agent cannot be made, before anything stored is looked at.
pub open spec fn refused_agent(name: Seq<char>, description: Seq<char>, token: Option<Seq<char>>) -> Option<StoreError> {
    if token matches Some(text) && !token_fits(text) {
        Some(StoreError::InvalidGithubToken)
    } else if !name_fits(name) {
        Some(StoreError::InvalidAgentName)
    } else if encode_utf8(name).len() > MAX_NAME_BYTES || encode_utf8(description).len()
        > MAX_DESCRIPTION_BYTES {
        Some(StoreError::TooLarge)
    } else {
        None
    }
}

/// Checks the name, description and token of a new agent.
pub fn check_new_agent(name: &str, description: &str, token: &Option<String>) -> (result: StoreResult<()>)
    ensures
        match result {
            Ok(_) => refused_agent(name@, description@, token.deep_view()) is None,
            Err(error) => refused_agent(name@, description@, token.deep_view()) == Some(error),
        },
{
    validate_github_token(token)?;
    if !check_name(name) {
        return Err(StoreError::InvalidAgentName);
    }
    if name.as_bytes().len() > MAX_NAME_BYTES || description.as_bytes().len()
        > MAX_DESCRIPTION_BYTES {
        return Err(StoreError::TooLarge);
    }
    Ok(())
}

/// Descriptions take at most half of a stored row.
pub proof fn descriptions_leave_room()
    ensures
        2 * MAX_DESCRIPTION_BYTES == INLINE_LIMIT,
{
}

// ---------------------------------------------------------------------------------------------
// Images
// ---------------------------------------------------------------------------------------------

/// Name and tag of an image reference.
pub open spec fn image_parts(image: Seq<char>) -> Option<(Seq<char>, Seq<char>)> {
    match split_first(image, ':') {
        Some((name, tag)) => if name.len() > 0 && tag.len() > 0 && !tag.contains(':') {
            Some((name, tag))
        } else {
            None
        },
        None => None,
    }
}

/// Splits an image reference into name and tag. Both have to be there, with one colon between.
pub fn parse_image(image: &str) -> (result: StoreResult<(String, String)>)
    ensures
        match result {
            Ok((name, tag)) => image_parts(image@) == Some((name@, tag@)),
            Err(error) => image_parts(image@) is None && error == StoreError::InvalidImage,
        },
{
    match split_once(image, ':') {
        None => Err(StoreError::InvalidImage),
        Some((name, tag)) => {
            let letters = char_list(tag.as_str());
            if name.as_str().is_empty() || letters.len() == 0 {
                return Err(StoreError::InvalidImage);
            }
            let mut i: usize = 0;
            while i < letters.len()
                invariant
                    i <= letters.len(),
                    letters@ == tag@,
                    split_first(image@, ':') == Some((name@, tag@)),
                    forall|j: int| 0 <= j < i ==> letters@[j] != ':',
                decreases letters.len() - i,
            {
                if letters[i] == ':' {
                    assert(tag@[i as int] == ':');
                    return Err(StoreError::InvalidImage);
                }
                i += 1;
            }
            Ok((name, tag))
        },
    }
}

/// Whether an error says that an image is not registered.
pub open spec fn names_missing(error: StoreError, image: Seq<char>, registered: Seq<char>) -> bool {
    match error {
        StoreError::ImageMissing { image: named, registered: others } => named@ == image && others@
            == registered,
        _ => false,
    }
}

/// The image of a reference, pinned to the disk that is registered for it.
pub fn resolve_image(image: &str, found: Option<ManifestId>) -> (result: StoreResult<ImageRecord>)
    ensures
        match image_parts(image@) {
            None => result matches Err(error) && error == StoreError::InvalidImage,
            Some((name, tag)) => match found {
                None => result matches Err(error) && names_missing(error, image@, Seq::empty()),
                Some(manifest_id) => result matches Ok(record) && record@ == (ImageView {
                    name,
                    tag,
                    manifest_id,
                }),
            },
        },
{
    let (name, tag) = parse_image(image)?;
    match found {
        None => {
            let registered = String::new();
            assert(registered@ =~= Seq::<char>::empty());
            Err(StoreError::ImageMissing { image: image.to_owned(), registered })
        },
        Some(manifest_id) => Ok(ImageRecord { name, tag, manifest_id }),
    }
}

/// References of images, joined by commas.
pub open spec fn image_list(images: Seq<ImageRecord>, count: nat) -> Seq<char>
    decreases count,
{
    if count == 0 {
        Seq::empty()
    } else {
        let image = images[count - 1];
        let before = image_list(images, (count - 1) as nat);
        let start = if count == 1 {
            before
        } else {
            before + ", "@
        };
        start + image.name@ + ":"@ + image.tag@
    }
}

/// The error about an image that is not registered, with those that are.
pub fn unregistered_image(image: &str, registered: &Vec<ImageRecord>) -> (error: StoreError)
    ensures
        names_missing(
            error,
            image@,
            if registered@.len() == 0 {
                "(none)"@
            } else {
                image_list(registered@, registered@.len())
            },
        ),
{
    if registered.len() == 0 {
        return StoreError::ImageMissing {
            image: image.to_owned(),
            registered: "(none)".to_owned(),
        };
    }
    let mut list = String::new();
    assert(list@ =~= image_list(registered@, 0));
    let mut i: usize = 0;
    while i < registered.len()
        invariant
            i <= registered.len(),
            list@ == image_list(registered@, i as nat),
        decreases registered.len() - i,
    {
        if i > 0 {
            list.append(", ");
        }
        list.append(registered[i].name.as_str());
        list.append(":");
        list.append(registered[i].tag.as_str());
        i += 1;
    }
    StoreError::ImageMissing { image: image.to_owned(), registered: list }
}

// ---------------------------------------------------------------------------------------------
// Creation and settings
// ---------------------------------------------------------------------------------------------

/// Settings that are given; those that are not stay as they are.
pub struct AgentSettings {
    pub system_prompt: Option<String>,
    pub model: Option<String>,
    pub reasoning_effort: Option<String>,
    pub provider: Option<String>,
    pub memory_mib: Option<u64>,
    pub gpu: Option<bool>,
}

/// What is asked for when an agent is made.
pub struct NewAgent {
    pub agent_id: AgentId,
    pub name: String,
    pub image: String,
    pub description: String,
    pub settings: AgentSettings,
    pub github_token: Option<String>,
    /// Whether the answer is remembered for repeated requests.
    pub replayable: bool,
}

/// What the store holds about a new agent.
pub struct AgentRows {
    pub replay: Option<ApiReplay>,
    pub name_taken: bool,
    pub id_taken: bool,
    /// The disk registered for the image.
    pub manifest: Option<ManifestId>,
    /// The memory registered for the image.
    pub image_memory: Option<u64>,
}

/// How a creation ended.
pub enum CreatedAgent {
    /// The request was answered before, with this answer.
    Replayed(String),
    /// The agent to store, and until when the answer is remembered.
    Created(AgentRecord, Option<Timestamp>),
}

/// The agent that a request makes.
pub open spec fn new_agent(request: NewAgent, image: ImageView, image_memory: Option<u64>, now: Timestamp) -> AgentView {
    AgentView {
        agent_id: request.agent_id,
        name: request.name@,
        image,
        description: request.description@,
        created_at: now,
        main_session: None,
        system_prompt: request.settings.system_prompt.deep_view(),
        model: request.settings.model.deep_view(),
        reasoning_effort: request.settings.reasoning_effort.deep_view(),
        provider: request.settings.provider.deep_view(),
        requirements: SandboxRequirements {
            memory_mib: match (request.settings.memory_mib, image_memory) {
                (Some(memory), _) => memory,
                (None, Some(memory)) => memory,
                (None, None) => DEFAULT_MEMORY_MIB,
            },
            gpu: request.settings.gpu == Some(true),
        },
    }
}

/// The remembered answer to a request that may be repeated.
pub open spec fn replayed(request: NewAgent, rows: AgentRows, now: Timestamp) -> Option<Seq<char>> {
    if request.replayable {
        remembered(replay_view(rows.replay), now)
    } else {
        None
    }
}

/// Makes a named agent with its image pinned. A repeated request gets its former answer instead of
/// another agent.
pub fn create_agent_with_replay(request: NewAgent, rows: AgentRows, now: Timestamp) -> (result: StoreResult<CreatedAgent>)
    ensures
        match refused_agent(request.name@, request.description@, request.github_token.deep_view()) {
            Some(refusal) => result matches Err(error) && error == refusal,
            None => match replayed(request, rows, now) {
                Some(answer) => {
                    &&& result matches Ok(CreatedAgent::Replayed(text))
                    &&& text@ == answer
                },
                None => if rows.name_taken || rows.id_taken {
                    result matches Err(error) && error == StoreError::AgentExists
                } else {
                    match image_parts(request.image@) {
                        None => result matches Err(error) && error == StoreError::InvalidImage,
                        Some((name, tag)) => match rows.manifest {
                            None => result matches Err(error) && names_missing(
                                error,
                                request.image@,
                                Seq::empty(),
                            ),
                            Some(manifest_id) => {
                                &&& result matches Ok(CreatedAgent::Created(agent, until))
                                &&& agent@ == new_agent(
                                    request,
                                    ImageView { name, tag, manifest_id },
                                    rows.image_memory,
                                    now,
                                )
                                &&& until == if request.replayable {
                                    Some(forgotten_at(now))
                                } else {
                                    None
                                }
                            },
                        },
                    }
                },
            },
        },
{
    check_new_agent(request.name.as_str(), request.description.as_str(), &request.github_token)?;
    if request.replayable {
        if let Some(answer) = api_replay(rows.replay, now) {
            return Ok(CreatedAgent::Replayed(answer));
        }
    }
    if rows.name_taken || rows.id_taken {
        return Err(StoreError::AgentExists);
    }
    let image = resolve_image(request.image.as_str(), rows.manifest)?;
    let memory_mib: u64 = match request.settings.memory_mib {
        Some(memory) => memory,
        None => match rows.image_memory {
            Some(memory) => memory,
            None => DEFAULT_MEMORY_MIB,
        },
    };
    let gpu = match request.settings.gpu {
        Some(gpu) => gpu,
        None => false,
    };
    let until = if request.replayable {
        Some(replay_until(now))
    } else {
        None
    };
    let agent = AgentRecord {
        agent_id: request.agent_id,
        name: request.name,
        image,
        description: request.description,
        created_at: now,
        main_session: None,
        system_prompt: request.settings.system_prompt,
        model: request.settings.model,
        reasoning_effort: request.settings.reasoning_effort,
        provider: request.settings.provider,
        requirements: SandboxRequirements { memory_mib, gpu },
    };
    Ok(CreatedAgent::Created(agent, until))
}

/// Whether a committed creation is answered when it is repeated within an hour: by the same
/// answer, and not by another agent.
pub proof fn creations_repeat_safely(request: NewAgent, rows: AgentRows, answer: String, created: Timestamp, now: Timestamp)
    requires
        request.replayable,
        rows.replay matches Some(entry) && entry@ == (ReplayView {
            result: answer@,
            expires_at: forgotten_at(created),
        }),
        now.nanos < forgotten_at(created).nanos,
    ensures
        replayed(request, rows, now) == Some(answer@),
{
}

/// A setting that can be taken back.
#[derive(Clone, Copy, Debug, PartialEq, Eq, Structural)]
pub enum InferenceField {
    SystemPrompt,
    Model,
    ReasoningEffort,
    Provider,
}

/// Whether a setting is taken back.
pub open spec fn is_reset(resets: Seq<InferenceField>, field: InferenceField) -> bool {
    resets.contains(field)
}

fn resets_field(resets: &Vec<InferenceField>, field: InferenceField) -> (found: bool)
    ensures
        found == is_reset(resets@, field),
{
    let mut i: usize = 0;
    while i < resets.len()
        invariant
            i <= resets.len(),
            forall|j: int| 0 <= j < i ==> resets@[j] != field,
        decreases resets.len() - i,
    {
        if resets[i] == field {
            assert(resets@[i as int] == field);
            return true;
        }
        i += 1;
    }
    false
}

/// A setting after a change: taken back, given anew, or as it was.
pub open spec fn chosen(reset: bool, given: Option<Seq<char>>, before: Option<Seq<char>>) -> Option<Seq<char>> {
    if reset {
        None
    } else if given is Some {
        given
    } else {
        before
    }
}

fn choose_setting(reset: bool, given: &Option<String>, before: Option<String>) -> (after: Option<String>)
    ensures
        after.deep_view() == chosen(reset, given.deep_view(), before.deep_view()),
{
    if reset {
        None
    } else if given.is_some() {
        copy_option(given)
    } else {
        before
    }
}

/// What a computer needs after a change.
pub open spec fn needs_after(before: SandboxRequirements, settings: AgentSettings) -> SandboxRequirements {
    SandboxRequirements {
        memory_mib: match settings.memory_mib {
            Some(memory) => memory,
            None => before.memory_mib,
        },
        gpu: match settings.gpu {
            Some(gpu) => gpu,
            None => before.gpu,
        },
    }
}

/// An agent after its settings changed.
pub open spec fn with_settings(agent: AgentView, settings: AgentSettings, resets: Seq<InferenceField>) -> AgentView {
    AgentView {
        system_prompt: chosen(
            is_reset(resets, InferenceField::SystemPrompt),
            settings.system_prompt.deep_view(),
            agent.system_prompt,
        ),
        model: chosen(
            is_reset(resets, InferenceField::Model),
            settings.model.deep_view(),
            agent.model,
        ),
        reasoning_effort: chosen(
            is_reset(resets, InferenceField::ReasoningEffort),
            settings.reasoning_effort.deep_view(),
            agent.reasoning_effort,
        ),
        provider: chosen(
            is_reset(resets, InferenceField::Provider),
            settings.provider.deep_view(),
            agent.provider,
        ),
        requirements: needs_after(agent.requirements, settings),
        ..agent
    }
}

/// Changes the settings that are given and takes back those that are named. What the computer
/// needs changes only while it has no placement.
pub fn set_agent_with_resets(
    agent: Option<AgentRecord>,
    settings: &AgentSettings,
    resets: &Vec<InferenceField>,
    placed: bool,
) -> (result: StoreResult<AgentRecord>)
    ensures
        match agent {
            None => result matches Err(error) && error == StoreError::AgentMissing,
            Some(before) => if needs_after(before.requirements, *settings) != before.requirements
                && placed {
                result matches Err(error) && error == StoreError::ActiveSandboxRequirements
            } else {
                result matches Ok(after) && after@ == with_settings(before@, *settings, resets@)
            },
        },
{
    let before = match agent {
        Some(before) => before,
        None => {
            return Err(StoreError::AgentMissing);
        },
    };
    let requirements = SandboxRequirements {
        memory_mib: match settings.memory_mib {
            Some(memory) => memory,
            None => before.requirements.memory_mib,
        },
        gpu: match settings.gpu {
            Some(gpu) => gpu,
            None => before.requirements.gpu,
        },
    };
    if requirements != before.requirements && placed {
        return Err(StoreError::ActiveSandboxRequirements);
    }
    Ok(
        AgentRecord {
            agent_id: before.agent_id,
            name: before.name,
            image: before.image,
            description: before.description,
            created_at: before.created_at,
            main_session: before.main_session,
            system_prompt: choose_setting(
                resets_field(resets, InferenceField::SystemPrompt),
                &settings.system_prompt,
                before.system_prompt,
            ),
            model: choose_setting(
                resets_field(resets, InferenceField::Model),
                &settings.model,
                before.model,
            ),
            reasoning_effort: choose_setting(
                resets_field(resets, InferenceField::ReasoningEffort),
                &settings.reasoning_effort,
                before.reasoning_effort,
            ),
            provider: choose_setting(
                resets_field(resets, InferenceField::Provider),
                &settings.provider,
                before.provider,
            ),
            requirements,
        },
    )
}

/// Rotates or clears an agent's GitHub token: the value to store, or none to clear it.
pub fn set_agent_github_token(known: bool, token: Option<String>) -> (result: StoreResult<Option<String>>)
    ensures
        if token matches Some(text) && !token_fits(text@) {
            result matches Err(error) && error == StoreError::InvalidGithubToken
        } else if !known {
            result matches Err(error) && error == StoreError::AgentMissing
        } else {
            result == Ok::<Option<String>, StoreError>(token)
        },
{
    validate_github_token(&token)?;
    if !known {
        return Err(StoreError::AgentMissing);
    }
    Ok(token)
}

/// An agent's GitHub token; an unknown agent has none.
pub fn agent_github_token(known: bool, stored: Option<String>) -> (token: Option<String>)
    ensures
        token == if known {
            stored
        } else {
            None
        },
{
    if known {
        stored
    } else {
        None
    }
}

/// Deletes an agent with its computer. An unknown agent needs nothing, so that repeating is safe.
pub fn delete_agent(known: bool, rows: &PlacementRows, count: &Option<u32>) -> (result: StoreResult<Option<(PlacementRows, Option<u32>)>>)
    ensures
        !known ==> (result matches Ok(None)),
        known ==> match result {
            Ok(Some((next, left))) => {
                &&& next == (PlacementRows { placement: None, deleted: true, ..*rows })
                &&& left is Some <==> rows.placement is Some
                &&& left matches Some(remaining) ==> used(*count) > 0 && remaining == used(*count) - 1
            },
            Ok(None) => false,
            Err(error) => {
                &&& error == StoreError::Corrupt
                &&& rows.placement is Some
                &&& *count is None || *count == Some(0u32)
            },
        },
{
    if !known {
        return Ok(None);
    }
    let done = release_deleted_computer(rows, count)?;
    Ok(Some(done))
}

/// Whether two records are of one agent: its id, its name, its description, its image and its birth.
pub open spec fn same_identity(left: AgentRecord, right: AgentRecord) -> bool {
    &&& left.agent_id == right.agent_id
    &&& left.name@ == right.name@
    &&& left.description@ == right.description@
    &&& left.created_at == right.created_at
    &&& left.image.name@ == right.image.name@
    &&& left.image.tag@ == right.image.tag@
    &&& left.image.manifest_id == right.image.manifest_id
}

/// Whether two records ask for the same inference.
pub open spec fn same_inference(left: AgentRecord, right: AgentRecord) -> bool {
    &&& left.system_prompt.deep_view() == right.system_prompt.deep_view()
    &&& left.model.deep_view() == right.model.deep_view()
    &&& left.reasoning_effort.deep_view() == right.reasoning_effort.deep_view()
    &&& left.provider.deep_view() == right.provider.deep_view()
}

/// Two records have one view exactly where they agree in every field: the view leaves out nothing.
pub proof fn agent_views_are_whole(left: AgentRecord, right: AgentRecord)
    ensures
        left@ == right@ <==> same_identity(left, right) && same_inference(left, right)
            && left.main_session == right.main_session && left.requirements == right.requirements,
{
}

/// A created agent is what was asked for: the id, the name and the description that were given, the
/// registered disk of the image that was named, and each setting in its own place. It has no main
/// conversation yet. Memory that was not asked for is the image's, else the default.
pub proof fn created_agents_are_as_asked(request: NewAgent, rows: AgentRows, now: Timestamp, result: StoreResult<CreatedAgent>)
    requires
        call_ensures(create_agent_with_replay, (request, rows, now), result),
    ensures
        result matches Ok(CreatedAgent::Created(agent, until)) ==> {
            &&& !rows.name_taken && !rows.id_taken
            &&& agent.agent_id == request.agent_id && agent.name@ == request.name@
            &&& agent.description@ == request.description@ && agent.created_at == now
            &&& rows.manifest == Some(agent.image.manifest_id)
            &&& request.image@ == agent.image.name@ + ":"@ + agent.image.tag@
            &&& agent.main_session is None
            &&& agent.system_prompt.deep_view() == request.settings.system_prompt.deep_view()
            &&& agent.model.deep_view() == request.settings.model.deep_view()
            &&& agent.reasoning_effort.deep_view() == request.settings.reasoning_effort.deep_view()
            &&& agent.provider.deep_view() == request.settings.provider.deep_view()
            &&& request.settings.memory_mib matches Some(memory) ==> agent.requirements.memory_mib == memory
            &&& request.settings.memory_mib is None ==> (rows.image_memory matches Some(memory)
                ==> agent.requirements.memory_mib == memory)
            &&& request.settings.memory_mib is None && rows.image_memory is None
                ==> agent.requirements.memory_mib == DEFAULT_MEMORY_MIB
            &&& agent.requirements.gpu <==> request.settings.gpu == Some(true)
            &&& until is Some <==> request.replayable
        },
        result matches Ok(CreatedAgent::Replayed(text)) ==> request.replayable && (rows.replay matches Some(
            entry,
        ) && entry.expires_at.nanos > now.nanos && text@ == entry.result@),
{
    reveal_strlit(":");
    if let Ok(CreatedAgent::Created(agent, until)) = result {
        images_are_name_and_tag(request.image@);
        assert(":"@ =~= seq![':']);
    }
}

/// An image is written as its name, a colon and its tag; neither is empty and the tag has no colon.
pub proof fn images_are_name_and_tag(image: Seq<char>)
    ensures
        image_parts(image) matches Some((name, tag)) ==> image == name + seq![':'] + tag && name.len() > 0
            && tag.len() > 0 && !name.contains(':') && !tag.contains(':'),
{
    crate::text::first_index_marks(image, ':');
    if let Some((name, tag)) = image_parts(image) {
        let at = crate::text::first_index(image, ':');
        assert(image =~= image.take(at) + seq![':'] + image.skip(at + 1));
    }
}

/// Every name and tag of that kind is read back from its written form.
pub proof fn written_images_are_read_back(name: Seq<char>, tag: Seq<char>)
    requires
        name.len() > 0,
        tag.len() > 0,
        !name.contains(':'),
        !tag.contains(':'),
    ensures
        image_parts(name + seq![':'] + tag) == Some((name, tag)),
{
    let image = name + seq![':'] + tag;
    let at = name.len() as int;
    assert(image[at] == ':');
    assert forall|i: int| 0 <= i < at implies image[i] != ':' by {
        assert(name.contains(name[i]));
    }
    crate::text::first_index_unique(image, ':', at);
    assert(image.take(at) =~= name);
    assert(image.skip(at + 1) =~= tag);
}

/// A resolved image has the name and the tag that were written and the disk that was found.
pub proof fn resolved_images_are_as_written(image: &str, found: Option<ManifestId>, result: StoreResult<ImageRecord>)
    requires
        call_ensures(resolve_image, (image, found), result),
    ensures
        result matches Ok(record) ==> image@ == record.name@ + seq![':'] + record.tag@ && found == Some(
            record.manifest_id,
        ),
        found is None ==> result is Err,
{
    images_are_name_and_tag(image@);
}

/// A change of settings keeps who the agent is and its main conversation. A field that is reset is
/// empty, one that is given is as given, and every other stays. The needs of a placed computer do
/// not change.
pub proof fn settings_change_what_they_name(
    agent: Option<AgentRecord>,
    settings: AgentSettings,
    resets: Vec<InferenceField>,
    placed: bool,
    result: StoreResult<AgentRecord>,
)
    requires
        call_ensures(set_agent_with_resets, (agent, &settings, &resets, placed), result),
    ensures
        agent is None ==> result is Err,
        result matches Ok(after) ==> {
            let before = agent->0;
            &&& agent is Some && same_identity(before, after) && after.main_session == before.main_session
            &&& resets@.contains(InferenceField::SystemPrompt) ==> after.system_prompt is None
            &&& resets@.contains(InferenceField::Model) ==> after.model is None
            &&& resets@.contains(InferenceField::ReasoningEffort) ==> after.reasoning_effort is None
            &&& resets@.contains(InferenceField::Provider) ==> after.provider is None
            &&& !resets@.contains(InferenceField::SystemPrompt) ==> after.system_prompt.deep_view() == (
            if settings.system_prompt is Some {
                settings.system_prompt
            } else {
                before.system_prompt
            }).deep_view()
            &&& !resets@.contains(InferenceField::Model) ==> after.model.deep_view() == (
            if settings.model is Some {
                settings.model
            } else {
                before.model
            }).deep_view()
            &&& !resets@.contains(InferenceField::ReasoningEffort) ==> after.reasoning_effort.deep_view() == (
            if settings.reasoning_effort is Some {
                settings.reasoning_effort
            } else {
                before.reasoning_effort
            }).deep_view()
            &&& !resets@.contains(InferenceField::Provider) ==> after.provider.deep_view() == (
            if settings.provider is Some {
                settings.provider
            } else {
                before.provider
            }).deep_view()
            &&& settings.memory_mib matches Some(memory) ==> after.requirements.memory_mib == memory
            &&& settings.memory_mib is None ==> after.requirements.memory_mib == before.requirements.memory_mib
            &&& settings.gpu matches Some(gpu) ==> after.requirements.gpu == gpu
            &&& settings.gpu is None ==> after.requirements.gpu == before.requirements.gpu
            &&& placed ==> after.requirements == before.requirements
        },
        agent is Some && !placed ==> result is Ok,
{
}

/// A record of every stored layout reads as the agent that it was written for, with what its layout
/// could not hold left out. The newest layout that reads wins.
pub proof fn old_agents_keep_what_they_had(readings: AgentReadings, agent: Option<AgentRecord>)
    requires
        call_ensures(decode_agent, (readings,), agent),
    ensures
        readings.current matches Some(current) ==> (agent matches Some(read) && same_identity(read, current)
            && same_inference(read, current) && read.main_session == current.main_session
            && read.requirements == current.requirements),
        readings.current is None ==> (readings.provider matches Some(old) ==> (agent matches Some(read)
            && read.agent_id == old.base.base.identity.agent_id && read.name@ == old.base.base.identity.name@
            && read.main_session == old.base.base.main_session && read.provider.deep_view()
            == old.provider.deep_view() && read.model.deep_view() == old.base.model.deep_view()
            && read.system_prompt.deep_view() == old.base.system_prompt.deep_view()
            && read.reasoning_effort.deep_view() == old.base.reasoning_effort.deep_view())),
        readings.current is None && readings.provider is None ==> (readings.settings matches Some(old) ==> (
        agent matches Some(read) && read.agent_id == old.base.identity.agent_id && read.provider is None
            && read.main_session == old.base.main_session && read.model.deep_view() == old.model.deep_view()
            && read.system_prompt.deep_view() == old.system_prompt.deep_view()
            && read.reasoning_effort.deep_view() == old.reasoning_effort.deep_view())),
        readings.current is None && readings.provider is None && readings.settings is None ==> (
        readings.main_session matches Some(old) ==> (agent matches Some(read) && read.agent_id
            == old.identity.agent_id && read.main_session == old.main_session && read.model is None
            && read.system_prompt is None && read.reasoning_effort is None && read.provider is None)),
        readings.current is None && readings.provider is None && readings.settings is None
            && readings.main_session is None ==> (readings.legacy matches Some(old) ==> (agent matches Some(
            read,
        ) && read.agent_id == old.agent_id && read.name@ == old.name@ && read.description@
            == old.description@ && read.created_at == old.created_at && read.image.name@ == old.image.name@
            && read.image.tag@ == old.image.tag@ && read.image.manifest_id == old.image.manifest_id
            && read.main_session is None && read.model is None && read.requirements.memory_mib
            == DEFAULT_MEMORY_MIB && !read.requirements.gpu)),
{
}

/// A token is stored as it was given, for a known agent alone, and read back as it was stored.
pub proof fn tokens_are_read_back(
    known: bool,
    token: Option<String>,
    result: StoreResult<Option<String>>,
    still_known: bool,
    read: Option<String>,
)
    requires
        call_ensures(set_agent_github_token, (known, token), result),
        result matches Ok(stored) ==> call_ensures(agent_github_token, (still_known, stored), read),
    ensures
        result matches Ok(stored) ==> known && stored == token,
        result is Ok && still_known ==> read == token,
        result is Ok && !still_known ==> read is None,
        token is None && known ==> result is Ok,
{
}

/// A deleted agent's computer is gone for good and its place is free again: one computer fewer is
/// counted on its node.
pub proof fn deleted_agents_free_their_place(
    known: bool,
    rows: PlacementRows,
    count: Option<u32>,
    result: StoreResult<Option<(PlacementRows, Option<u32>)>>,
)
    requires
        call_ensures(delete_agent, (known, &rows, &count), result),
    ensures
        !known ==> (result matches Ok(gone) && gone is None),
        result matches Ok(Some((next, left))) ==> {
            &&& known && next.deleted && next.placement is None && next.epoch == rows.epoch
            &&& rows.placement is None ==> left is None
            &&& rows.placement is Some ==> (left matches Some(remaining) && count matches Some(before)
                && remaining + 1 == before)
        },
{
}

/// A new agent is refused for its token, then for its name, then for its size, and for nothing else.
pub proof fn new_agents_are_checked(name: &str, description: &str, token: Option<String>, result: StoreResult<()>)
    requires
        call_ensures(check_new_agent, (name, description, &token), result),
    ensures
        result is Ok ==> name@.len() > 0 && encode_utf8(name@).len() <= 1024 && encode_utf8(
            description@,
        ).len() <= 40_960 && forall|i: int|
            0 <= i < name@.len() ==> (#[trigger] name@[i]) as u32 > 0x1f && name@[i] as u32 != 0x7f,
        name@.len() == 0 ==> result is Err,
        result matches Err(error) ==> error == StoreError::InvalidGithubToken || error
            == StoreError::InvalidAgentName || error == StoreError::TooLarge,
        result == Err::<(), StoreError>(StoreError::InvalidGithubToken) ==> token is Some,
{
    if result is Ok {
        assert forall|i: int| 0 <= i < name@.len() implies (#[trigger] name@[i]) as u32 > 0x1f && name@[i] as u32
            != 0x7f by {
            assert(!is_control(name@[i]));
        }
    }
}

/// A token has no more than four thousand and ninety-six characters, at least one, and all of them are
/// printable and none is a space.
pub proof fn tokens_are_printable(token: Option<String>, result: StoreResult<()>)
    requires
        call_ensures(validate_github_token, (&token,), result),
    ensures
        token is None ==> result is Ok,
        token matches Some(text) ==> (result is Ok ==> 1 <= text@.len() <= 4096 && forall|i: int|
            0 <= i < text@.len() ==> ' ' < #[trigger] text@[i] && text@[i] <= '~'),
        token matches Some(text) ==> (text@.len() == 0 || text@.len() > 4096 ==> result is Err),
{
}

/// A parsed image is its name and its tag, as they were written.
pub proof fn parsed_images_are_as_written(image: &str, result: StoreResult<(String, String)>)
    requires
        call_ensures(parse_image, (image,), result),
    ensures
        result matches Ok((name, tag)) ==> image@ == name@ + seq![':'] + tag@ && name@.len() > 0 && tag@.len() > 0,
{
    images_are_name_and_tag(image@);
}

/// An error about an image names it and what is registered in its place.
pub proof fn missing_images_are_named(image: &str, registered: Vec<ImageRecord>, error: StoreError)
    requires
        call_ensures(unregistered_image, (image, &registered), error),
    ensures
        error matches StoreError::ImageMissing { image: named, registered: others } && named@ == image@ && (
        registered@.len() == 0 ==> others@ == "(none)"@) && (registered@.len() == 1 ==> others@
            == registered@[0].name@ + ":"@ + registered@[0].tag@),
{
    reveal_with_fuel(image_list, 2);
    if registered@.len() == 1 {
        let image = registered@[0];
        assert(Seq::<char>::empty() + image.name@ + ":"@ + image.tag@ =~= image.name@ + ":"@ + image.tag@);
    }
}

} // verus!
