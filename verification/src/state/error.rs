//! Why an operation on the conversation store did not happen.

use crate::language::Language;
use vstd::prelude::*;

verus! {

/// The reason of a failure.
#[derive(Debug, Clone, Copy, PartialEq, Eq, Structural)]
pub enum StateErrorKind {
    SessionNotFound,
    PersonaHasSessions,
    PersonaHasPointer,
    PersonaHasAffection,
    SessionBoundElsewhere,
    PoppedTurnsChanged,
    LoadedToolsChanged,
    TurnNotRunning,
    PromptChanged,
    StalePromptChanged,
    RedoBatchChanged,
    RedoTargetGone,
    RedoConversationChanged,
    AnotherTurnRunning,
    RedoInputMismatch,
    LastInputChanged,
    RedoCheckpointUnavailable,
    LastFollowupChanged,
    RedoClaimLost,
    RestoredTurnGone,
    InterruptedTurnGone,
    EmptySummary,
    NothingToFold,
    CompactConversationChanged,
    CompactNotSaved,
    InvalidSessionDir,
    InvalidRecoveryDir,
    NoQueueSession,
    NoOwnerProcess,
    ImageTooLarge,
    ImageUnreadable,
    ImageDimensions,
    ArtifactSize,
    UniqueViolation,
    MissingRow,
    OutOfRange,
}

/// A failure and the id or scope that it is about, which is empty where the
/// reason says it all.
pub struct StateError {
    pub kind: StateErrorKind,
    pub subject: String,
}

/// The model of [`StateError`].
#[verifier::ext_equal]
pub struct StateErrorModel {
    pub kind: StateErrorKind,
    pub subject: Seq<char>,
}

impl View for StateError {
    type V = StateErrorModel;

    open spec fn view(&self) -> StateErrorModel {
        StateErrorModel { kind: self.kind, subject: self.subject@ }
    }
}

impl StateErrorKind {
    /// The words of a failure, which its subject follows.
    pub open spec fn words(self, language: Language) -> Seq<char> {
        match self {
            StateErrorKind::SessionNotFound => "session not found: "@,
            StateErrorKind::PersonaHasSessions => "persona scope already has sessions: "@,
            StateErrorKind::PersonaHasPointer => {
                "persona scope already has a current-session pointer: "@
            },
            StateErrorKind::PersonaHasAffection => "persona scope already has affection state: "@,
            StateErrorKind::SessionBoundElsewhere => {
                "session is already bound to another platform conversation: "@
            },
            StateErrorKind::PoppedTurnsChanged => language.said(
                "conversation changed before popped turns could be deleted"@,
                "删除弹出轮次前会话已发生变化"@,
            ),
            StateErrorKind::LoadedToolsChanged => language.said(
                "dynamic tool state changed while popping context"@,
                "弹出上下文时动态工具状态已发生变化"@,
            ),
            StateErrorKind::TurnNotRunning => {
                "cannot consume queued prompts into a non-running turn"@
            },
            StateErrorKind::PromptChanged => "queued prompt changed before it could be consumed: "@,
            StateErrorKind::StalePromptChanged => {
                "queued prompt changed during stale-turn recovery: "@
            },
            StateErrorKind::RedoBatchChanged => {
                "redo follow-up batch changed before it could be loaded"@
            },
            StateErrorKind::RedoTargetGone => "redo target no longer exists"@,
            StateErrorKind::RedoConversationChanged => {
                "conversation changed before redo could start"@
            },
            StateErrorKind::AnotherTurnRunning => {
                "another turn is already running in this conversation"@
            },
            StateErrorKind::RedoInputMismatch => "redo input no longer matches the initial prompt"@,
            StateErrorKind::LastInputChanged => "the last input changed before redo could start"@,
            StateErrorKind::RedoCheckpointUnavailable => "redo checkpoint is unavailable"@,
            StateErrorKind::LastFollowupChanged => {
                "the last follow-up changed before redo could start"@
            },
            StateErrorKind::RedoClaimLost => "conversation changed before redo could be claimed"@,
            StateErrorKind::RestoredTurnGone => "restored redo turn no longer exists"@,
            StateErrorKind::InterruptedTurnGone => "interrupted turn no longer exists"@,
            StateErrorKind::EmptySummary => "compact returned an empty summary"@,
            StateErrorKind::NothingToFold => "compact selected no turns to fold"@,
            StateErrorKind::CompactConversationChanged => {
                "conversation changed while compact was running"@
            },
            StateErrorKind::CompactNotSaved => {
                "conversation changed before compact could be saved"@
            },
            StateErrorKind::InvalidSessionDir => {
                "invalid session id for Artifact workspace cleanup"@
            },
            StateErrorKind::InvalidRecoveryDir => {
                "invalid session id for Artifact workspace recovery"@
            },
            StateErrorKind::NoQueueSession => "running turn does not expose a queue session"@,
            StateErrorKind::NoOwnerProcess => "running turn does not expose an owner process"@,
            StateErrorKind::ImageTooLarge => "image exceeds the 20 MiB WebUI storage limit"@,
            StateErrorKind::ImageUnreadable => "unsupported image format"@,
            StateErrorKind::ImageDimensions => {
                "image dimensions are outside the WebUI safety limit"@
            },
            StateErrorKind::ArtifactSize => "artifact must be between 1 byte and 20 MiB"@,
            StateErrorKind::UniqueViolation => "a row with this key already exists: "@,
            StateErrorKind::MissingRow => "a row that the operation needs is missing: "@,
            StateErrorKind::OutOfRange => "a counter of the store is exhausted"@,
        }
    }
}

impl StateErrorModel {
    /// A failure that is about `subject`.
    pub open spec fn about(kind: StateErrorKind, subject: Seq<char>) -> StateErrorModel {
        StateErrorModel { kind, subject }
    }

    /// A failure whose reason says it all.
    pub open spec fn plain(kind: StateErrorKind) -> StateErrorModel {
        StateErrorModel { kind, subject: Seq::empty() }
    }
}

impl StateError {
    /// A failure that is about `subject`.
    pub fn about(kind: StateErrorKind, subject: &str) -> (error: StateError)
        ensures
            error@ == StateErrorModel::about(kind, subject@),
    {
        StateError { kind, subject: subject.to_owned() }
    }

    /// A failure whose reason says it all.
    pub fn plain(kind: StateErrorKind) -> (error: StateError)
        ensures
            error@ == StateErrorModel::plain(kind),
    {
        StateError { kind, subject: String::new() }
    }

    /// The failure in words.
    pub fn message(&self, language: Language) -> (text: String)
        ensures
            text@ == self.kind.words(language) + self.subject@,
    {
        let words = match self.kind {
            StateErrorKind::SessionNotFound => "session not found: ",
            StateErrorKind::PersonaHasSessions => "persona scope already has sessions: ",
            StateErrorKind::PersonaHasPointer => {
                "persona scope already has a current-session pointer: "
            },
            StateErrorKind::PersonaHasAffection => "persona scope already has affection state: ",
            StateErrorKind::SessionBoundElsewhere => {
                "session is already bound to another platform conversation: "
            },
            StateErrorKind::PoppedTurnsChanged => language.text(
                "conversation changed before popped turns could be deleted",
                "删除弹出轮次前会话已发生变化",
            ),
            StateErrorKind::LoadedToolsChanged => language.text(
                "dynamic tool state changed while popping context",
                "弹出上下文时动态工具状态已发生变化",
            ),
            StateErrorKind::TurnNotRunning => {
                "cannot consume queued prompts into a non-running turn"
            },
            StateErrorKind::PromptChanged => "queued prompt changed before it could be consumed: ",
            StateErrorKind::StalePromptChanged => {
                "queued prompt changed during stale-turn recovery: "
            },
            StateErrorKind::RedoBatchChanged => {
                "redo follow-up batch changed before it could be loaded"
            },
            StateErrorKind::RedoTargetGone => "redo target no longer exists",
            StateErrorKind::RedoConversationChanged => {
                "conversation changed before redo could start"
            },
            StateErrorKind::AnotherTurnRunning => {
                "another turn is already running in this conversation"
            },
            StateErrorKind::RedoInputMismatch => "redo input no longer matches the initial prompt",
            StateErrorKind::LastInputChanged => "the last input changed before redo could start",
            StateErrorKind::RedoCheckpointUnavailable => "redo checkpoint is unavailable",
            StateErrorKind::LastFollowupChanged => {
                "the last follow-up changed before redo could start"
            },
            StateErrorKind::RedoClaimLost => "conversation changed before redo could be claimed",
            StateErrorKind::RestoredTurnGone => "restored redo turn no longer exists",
            StateErrorKind::InterruptedTurnGone => "interrupted turn no longer exists",
            StateErrorKind::EmptySummary => "compact returned an empty summary",
            StateErrorKind::NothingToFold => "compact selected no turns to fold",
            StateErrorKind::CompactConversationChanged => {
                "conversation changed while compact was running"
            },
            StateErrorKind::CompactNotSaved => "conversation changed before compact could be saved",
            StateErrorKind::InvalidSessionDir => {
                "invalid session id for Artifact workspace cleanup"
            },
            StateErrorKind::InvalidRecoveryDir => {
                "invalid session id for Artifact workspace recovery"
            },
            StateErrorKind::NoQueueSession => "running turn does not expose a queue session",
            StateErrorKind::NoOwnerProcess => "running turn does not expose an owner process",
            StateErrorKind::ImageTooLarge => "image exceeds the 20 MiB WebUI storage limit",
            StateErrorKind::ImageUnreadable => "unsupported image format",
            StateErrorKind::ImageDimensions => {
                "image dimensions are outside the WebUI safety limit"
            },
            StateErrorKind::ArtifactSize => "artifact must be between 1 byte and 20 MiB",
            StateErrorKind::UniqueViolation => "a row with this key already exists: ",
            StateErrorKind::MissingRow => "a row that the operation needs is missing: ",
            StateErrorKind::OutOfRange => "a counter of the store is exhausted",
        };
        words.to_owned().concat(self.subject.as_str())
    }
}

} // verus!
