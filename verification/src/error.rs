//! Failures of store operations and the sentences shown for them.

use crate::text;
use vstd::prelude::*;

verus! {

/// Why an operation was refused or could not be completed.
#[derive(Clone, Debug, PartialEq, Eq)]
pub enum StoreError {
    Keyring,
    CredentialMissing,
    RouteMissing,
    InvalidRoute(String),
    CredentialRefresh,
    InvalidGithubToken,
    AgentMissing,
    AgentExists,
    InvalidAgentName,
    NamedAgentImage,
    SessionImageRequired,
    ComputerDeleted,
    MainSessionClose,
    InvalidMainSession,
    NodeMissing,
    NodeAtCapacity { detail: String },
    ActiveSandboxRequirements,
    PlacementExists,
    VolumeMissing,
    VolumeExists,
    ImageMissing { image: String, registered: String },
    InvalidImage,
    ManifestMissing,
    ManifestExists,
    InvalidManifest,
    VolumeHeadMismatch,
    SessionMissing,
    SessionExists,
    NothingToInterrupt,
    InterruptPending,
    StaleSequence { expected: u64, actual: u64 },
    InvalidState,
    LeaseMismatch,
    SequenceOverflow,
    TooLarge,
    InvalidLimit,
    Corrupt,
    CommitUnknown,
}

/// Result of a store operation.
pub type StoreResult<T> = Result<T, StoreError>;

/// The debug form of a text: quoted, with special characters escaped.
pub uninterp spec fn quoted_text(value: Seq<char>) -> Seq<char>;

/// Calls `<str as std::fmt::Debug>::fmt` through `format!` and claims only that the result
/// depends on the text alone; which characters are escaped is left to the standard library.
#[verifier::external_body]
fn quote(value: &str) -> (quoted: String)
    ensures
        quoted@ == quoted_text(value@),
{
    format!("{value:?}")
}

/// The sentence shown for an error.
pub open spec fn error_text(error: StoreError) -> Seq<char> {
    match error {
        StoreError::Keyring =>
            "keyring cannot decrypt credential; check SWARMY_KEYRING and the cluster key"@,
        StoreError::CredentialMissing => "credential does not exist"@,
        StoreError::RouteMissing => "route does not exist"@,
        StoreError::InvalidRoute(reason) => "invalid route: "@ + reason@,
        StoreError::CredentialRefresh => "credential refresh failed; login required"@,
        StoreError::InvalidGithubToken =>
            "GitHub token must contain 1-4096 printable ASCII characters without whitespace"@,
        StoreError::AgentMissing => "agent does not exist"@,
        StoreError::AgentExists => "agent id or name already exists"@,
        StoreError::InvalidAgentName =>
            "agent name must be nonempty and contain no control characters"@,
        StoreError::NamedAgentImage =>
            "--image cannot be used with a named agent; its pinned image is used"@,
        StoreError::SessionImageRequired => "an ephemeral session requires an image"@,
        StoreError::ComputerDeleted =>
            "This session's computer has been deleted. Create a new session to run tools."@,
        StoreError::MainSessionClose =>
            "cannot close an agent main session; use swarmy agent delete to delete the agent"@,
        StoreError::InvalidMainSession =>
            "main session must be an open session belonging to the agent"@,
        StoreError::NodeMissing => "node does not exist"@,
        StoreError::NodeAtCapacity { detail } =>
            "node has no computer capacity available: "@ + detail@,
        StoreError::ActiveSandboxRequirements =>
            "sandbox requirements can only change after the current placement is evicted"@,
        StoreError::PlacementExists => "placement already exists"@,
        StoreError::VolumeMissing => "volume does not exist"@,
        StoreError::VolumeExists => "volume already exists"@,
        StoreError::ImageMissing { image, registered } =>
            "image "@ + quoted_text(image@) + " is not registered; registered images: "@
                + registered@,
        StoreError::InvalidImage => "expected image NAME:TAG"@,
        StoreError::ManifestMissing => "manifest does not exist"@,
        StoreError::ManifestExists => "manifest id already refers to a different header"@,
        StoreError::InvalidManifest => "invalid manifest dimensions"@,
        StoreError::VolumeHeadMismatch => "volume head changed since this writer opened it"@,
        StoreError::SessionMissing => "session does not exist"@,
        StoreError::SessionExists => "session already exists"@,
        StoreError::NothingToInterrupt =>
            "session is idle or completed; there is nothing to interrupt"@,
        StoreError::InterruptPending =>
            "session interruption was requested before the turn ended"@,
        StoreError::StaleSequence { expected, actual } =>
            "expected head "@ + text::decimal(expected as nat) + ", found "@
                + text::decimal(actual as nat),
        StoreError::InvalidState => "invalid state transition or initial session record"@,
        StoreError::LeaseMismatch => "lease is absent, expired, or no longer matches"@,
        StoreError::SequenceOverflow => "sequence number overflow"@,
        StoreError::TooLarge => "metadata or batch exceeds the storage budget"@,
        StoreError::InvalidLimit => "scan limit must be between 1 and 64"@,
        StoreError::Corrupt => "stored key or blob is corrupt"@,
        StoreError::CommitUnknown =>
            "commit outcome is unknown; read durable state before retrying"@,
    }
}

impl StoreError {
    /// The sentence shown for this error.
    pub fn message(&self) -> (message: String)
        ensures
            message@ == error_text(*self),
    {
        match self {
            StoreError::Keyring =>
                "keyring cannot decrypt credential; check SWARMY_KEYRING and the cluster key".to_owned(),
            StoreError::CredentialMissing => "credential does not exist".to_owned(),
            StoreError::RouteMissing => "route does not exist".to_owned(),
            StoreError::InvalidRoute(reason) => text::join2("invalid route: ", reason.as_str()),
            StoreError::CredentialRefresh => "credential refresh failed; login required".to_owned(),
            StoreError::InvalidGithubToken =>
                "GitHub token must contain 1-4096 printable ASCII characters without whitespace".to_owned(),
            StoreError::AgentMissing => "agent does not exist".to_owned(),
            StoreError::AgentExists => "agent id or name already exists".to_owned(),
            StoreError::InvalidAgentName =>
                "agent name must be nonempty and contain no control characters".to_owned(),
            StoreError::NamedAgentImage =>
                "--image cannot be used with a named agent; its pinned image is used".to_owned(),
            StoreError::SessionImageRequired => "an ephemeral session requires an image".to_owned(),
            StoreError::ComputerDeleted =>
                "This session's computer has been deleted. Create a new session to run tools.".to_owned(),
            StoreError::MainSessionClose =>
                "cannot close an agent main session; use swarmy agent delete to delete the agent".to_owned(),
            StoreError::InvalidMainSession =>
                "main session must be an open session belonging to the agent".to_owned(),
            StoreError::NodeMissing => "node does not exist".to_owned(),
            StoreError::NodeAtCapacity { detail } =>
                text::join2("node has no computer capacity available: ", detail.as_str()),
            StoreError::ActiveSandboxRequirements =>
                "sandbox requirements can only change after the current placement is evicted".to_owned(),
            StoreError::PlacementExists => "placement already exists".to_owned(),
            StoreError::VolumeMissing => "volume does not exist".to_owned(),
            StoreError::VolumeExists => "volume already exists".to_owned(),
            StoreError::ImageMissing { image, registered } => {
                let mut message = text::join2("image ", quote(image.as_str()).as_str());
                message.append(" is not registered; registered images: ");
                message.append(registered.as_str());
                message
            },
            StoreError::InvalidImage => "expected image NAME:TAG".to_owned(),
            StoreError::ManifestMissing => "manifest does not exist".to_owned(),
            StoreError::ManifestExists => "manifest id already refers to a different header".to_owned(),
            StoreError::InvalidManifest => "invalid manifest dimensions".to_owned(),
            StoreError::VolumeHeadMismatch =>
                "volume head changed since this writer opened it".to_owned(),
            StoreError::SessionMissing => "session does not exist".to_owned(),
            StoreError::SessionExists => "session already exists".to_owned(),
            StoreError::NothingToInterrupt =>
                "session is idle or completed; there is nothing to interrupt".to_owned(),
            StoreError::InterruptPending =>
                "session interruption was requested before the turn ended".to_owned(),
            StoreError::StaleSequence { expected, actual } => {
                let mut message = text::join2("expected head ", text::format_decimal(*expected).as_str());
                message.append(", found ");
                message.append(text::format_decimal(*actual).as_str());
                message
            },
            StoreError::InvalidState =>
                "invalid state transition or initial session record".to_owned(),
            StoreError::LeaseMismatch =>
                "lease is absent, expired, or no longer matches".to_owned(),
            StoreError::SequenceOverflow => "sequence number overflow".to_owned(),
            StoreError::TooLarge => "metadata or batch exceeds the storage budget".to_owned(),
            StoreError::InvalidLimit => "scan limit must be between 1 and 64".to_owned(),
            StoreError::Corrupt => "stored key or blob is corrupt".to_owned(),
            StoreError::CommitUnknown =>
                "commit outcome is unknown; read durable state before retrying".to_owned(),
        }
    }
}

/// An error that carries a reason ends with it, word for word.
pub proof fn messages_tell_the_reason(error: StoreError, message: String)
    requires
        call_ensures(StoreError::message, (&error,), message),
    ensures
        error matches StoreError::InvalidRoute(reason) ==> message@ == "invalid route: "@ + reason@,
        error matches StoreError::NodeAtCapacity { detail } ==> message@
            == "node has no computer capacity available: "@ + detail@,
        error matches StoreError::StaleSequence { expected, actual } ==> message@ == "expected head "@
            + text::decimal(expected as nat) + ", found "@ + text::decimal(actual as nat),
        error matches StoreError::ImageMissing { image, registered } ==> message@ == "image "@ + quoted_text(
            image@,
        ) + " is not registered; registered images: "@ + registered@,
{
}

} // verus!
