//! The rows of the conversation store's tables and their models.

use crate::state::types::{
    ChatMessage, ChatMessageModel, EvictedTurn, EvictedTurnModel, PlatformAccessActor,
    PlatformAccessActorModel, PlatformAccessGrantKey, PlatformAccessGrantKeyModel,
    PlatformPluginScopeKey, PlatformPluginScopeKeyModel, QueuedPromptAttachment,
    QueuedPromptAttachmentModel, ReplayEntry, ReplayEntryModel, SessionRecord, SessionRecordModel,
    ToolFlowRound, ToolFlowRoundModel, TurnJournalEvent, TurnJournalEventModel, TurnRedoBackup,
    TurnRedoBackupModel, TurnRedoCheckpointPayload, TurnRedoCheckpointPayloadModel, UserAttachment,
    UserAttachmentModel,
};
use crate::table::Row;
use vstd::prelude::*;

verus! {

/// A session with what is kept beside its record.
pub struct SessionRow {
    pub record: SessionRecord,
    /// The session's own model pool, JSON-encoded.
    pub model_override: Option<String>,
    /// When the session last sent a request, in seconds.
    pub last_request_at: Option<i64>,
    pub total_tokens: i64,
    pub prompt_tokens: i64,
    pub cache_read_tokens: Option<i64>,
}

/// The model of [`SessionRow`].
#[verifier::ext_equal]
pub struct SessionRowModel {
    pub record: SessionRecordModel,
    pub model_override: Option<Seq<char>>,
    pub last_request_at: Option<i64>,
    pub total_tokens: i64,
    pub prompt_tokens: i64,
    pub cache_read_tokens: Option<i64>,
}

impl DeepView for SessionRow {
    type V = SessionRowModel;

    open spec fn deep_view(&self) -> SessionRowModel {
        SessionRowModel {
            record: self.record.deep_view(),
            model_override: self.model_override.deep_view(),
            last_request_at: self.last_request_at.deep_view(),
            total_tokens: self.total_tokens,
            prompt_tokens: self.prompt_tokens,
            cache_read_tokens: self.cache_read_tokens.deep_view(),
        }
    }
}

impl Row for SessionRow {
    fn dup(&self) -> (copy: Self) {
        SessionRow {
            record: self.record.dup(),
            model_override: self.model_override.dup(),
            last_request_at: self.last_request_at.dup(),
            total_tokens: self.total_tokens,
            prompt_tokens: self.prompt_tokens,
            cache_read_tokens: self.cache_read_tokens.dup(),
        }
    }
}

/// A turn as it is stored.
pub struct TurnRow {
    pub turn_id: String,
    pub session_id: String,
    pub seq: i64,
    pub user_content: String,
    pub display_content: String,
    pub user_timestamp: String,
    pub assistant_content: String,
    pub assistant_reasoning: Option<String>,
    pub assistant_provider_id: Option<String>,
    pub assistant_model: Option<String>,
    pub assistant_timestamp: Option<String>,
    pub status: String,
    /// A JSON array of strings.
    pub tool_reports: String,
    /// What `tool_reports` held before it was pruned.
    pub tool_reports_archive: Option<String>,
    pub tool_flow: Vec<ToolFlowRound>,
    pub hidden: bool,
    pub is_summary: bool,
    pub owner_pid: Option<i64>,
    pub queue_session_id: Option<String>,
    pub token_total: i64,
    pub token_prompt: i64,
    pub token_cache_read: i64,
    pub token_usage_estimated: bool,
    pub revision: i64,
    pub context_messages: Vec<ChatMessage>,
    pub replay_journal: Option<Vec<ReplayEntry>>,
    pub compact_reversible: bool,
    pub compact_parent_summary_seq: Option<i64>,
    /// A JSON array of the turns that a summary hides.
    pub compact_hidden_json: Option<String>,
    pub tool_footprint: Option<String>,
}

/// The model of [`TurnRow`].
#[verifier::ext_equal]
pub struct TurnRowModel {
    pub turn_id: Seq<char>,
    pub session_id: Seq<char>,
    pub seq: i64,
    pub user_content: Seq<char>,
    pub display_content: Seq<char>,
    pub user_timestamp: Seq<char>,
    pub assistant_content: Seq<char>,
    pub assistant_reasoning: Option<Seq<char>>,
    pub assistant_provider_id: Option<Seq<char>>,
    pub assistant_model: Option<Seq<char>>,
    pub assistant_timestamp: Option<Seq<char>>,
    pub status: Seq<char>,
    pub tool_reports: Seq<char>,
    pub tool_reports_archive: Option<Seq<char>>,
    pub tool_flow: Seq<ToolFlowRoundModel>,
    pub hidden: bool,
    pub is_summary: bool,
    pub owner_pid: Option<i64>,
    pub queue_session_id: Option<Seq<char>>,
    pub token_total: i64,
    pub token_prompt: i64,
    pub token_cache_read: i64,
    pub token_usage_estimated: bool,
    pub revision: i64,
    pub context_messages: Seq<ChatMessageModel>,
    pub replay_journal: Option<Seq<ReplayEntryModel>>,
    pub compact_reversible: bool,
    pub compact_parent_summary_seq: Option<i64>,
    pub compact_hidden_json: Option<Seq<char>>,
    pub tool_footprint: Option<Seq<char>>,
}

impl DeepView for TurnRow {
    type V = TurnRowModel;

    open spec fn deep_view(&self) -> TurnRowModel {
        TurnRowModel {
            turn_id: self.turn_id.deep_view(),
            session_id: self.session_id.deep_view(),
            seq: self.seq,
            user_content: self.user_content.deep_view(),
            display_content: self.display_content.deep_view(),
            user_timestamp: self.user_timestamp.deep_view(),
            assistant_content: self.assistant_content.deep_view(),
            assistant_reasoning: self.assistant_reasoning.deep_view(),
            assistant_provider_id: self.assistant_provider_id.deep_view(),
            assistant_model: self.assistant_model.deep_view(),
            assistant_timestamp: self.assistant_timestamp.deep_view(),
            status: self.status.deep_view(),
            tool_reports: self.tool_reports.deep_view(),
            tool_reports_archive: self.tool_reports_archive.deep_view(),
            tool_flow: self.tool_flow.deep_view(),
            hidden: self.hidden,
            is_summary: self.is_summary,
            owner_pid: self.owner_pid.deep_view(),
            queue_session_id: self.queue_session_id.deep_view(),
            token_total: self.token_total,
            token_prompt: self.token_prompt,
            token_cache_read: self.token_cache_read,
            token_usage_estimated: self.token_usage_estimated,
            revision: self.revision,
            context_messages: self.context_messages.deep_view(),
            replay_journal: self.replay_journal.deep_view(),
            compact_reversible: self.compact_reversible,
            compact_parent_summary_seq: self.compact_parent_summary_seq.deep_view(),
            compact_hidden_json: self.compact_hidden_json.deep_view(),
            tool_footprint: self.tool_footprint.deep_view(),
        }
    }
}

impl Row for TurnRow {
    fn dup(&self) -> (copy: Self) {
        TurnRow {
            turn_id: self.turn_id.dup(),
            session_id: self.session_id.dup(),
            seq: self.seq,
            user_content: self.user_content.dup(),
            display_content: self.display_content.dup(),
            user_timestamp: self.user_timestamp.dup(),
            assistant_content: self.assistant_content.dup(),
            assistant_reasoning: self.assistant_reasoning.dup(),
            assistant_provider_id: self.assistant_provider_id.dup(),
            assistant_model: self.assistant_model.dup(),
            assistant_timestamp: self.assistant_timestamp.dup(),
            status: self.status.dup(),
            tool_reports: self.tool_reports.dup(),
            tool_reports_archive: self.tool_reports_archive.dup(),
            tool_flow: self.tool_flow.dup(),
            hidden: self.hidden,
            is_summary: self.is_summary,
            owner_pid: self.owner_pid.dup(),
            queue_session_id: self.queue_session_id.dup(),
            token_total: self.token_total,
            token_prompt: self.token_prompt,
            token_cache_read: self.token_cache_read,
            token_usage_estimated: self.token_usage_estimated,
            revision: self.revision,
            context_messages: self.context_messages.dup(),
            replay_journal: self.replay_journal.dup(),
            compact_reversible: self.compact_reversible,
            compact_parent_summary_seq: self.compact_parent_summary_seq.dup(),
            compact_hidden_json: self.compact_hidden_json.dup(),
            tool_footprint: self.tool_footprint.dup(),
        }
    }
}

/// A queued or consumed prompt as it is stored.
pub struct QueuedPromptRow {
    pub prompt_id: String,
    pub seq: i64,
    pub session_id: String,
    pub queue_session_id: Option<String>,
    pub owner_pid: Option<i64>,
    pub status: String,
    pub content: String,
    pub display_content: String,
    pub context_content: Option<String>,
    pub attachments: Vec<QueuedPromptAttachment>,
    pub submitted_at: String,
    pub consumed_at: Option<String>,
    pub turn_id: Option<String>,
    pub preceding_assistant_content: Option<String>,
    pub preceding_assistant_reasoning: Option<String>,
    pub preceding_assistant_provider_id: Option<String>,
    pub preceding_assistant_model: Option<String>,
}

/// The model of [`QueuedPromptRow`].
#[verifier::ext_equal]
pub struct QueuedPromptRowModel {
    pub prompt_id: Seq<char>,
    pub seq: i64,
    pub session_id: Seq<char>,
    pub queue_session_id: Option<Seq<char>>,
    pub owner_pid: Option<i64>,
    pub status: Seq<char>,
    pub content: Seq<char>,
    pub display_content: Seq<char>,
    pub context_content: Option<Seq<char>>,
    pub attachments: Seq<QueuedPromptAttachmentModel>,
    pub submitted_at: Seq<char>,
    pub consumed_at: Option<Seq<char>>,
    pub turn_id: Option<Seq<char>>,
    pub preceding_assistant_content: Option<Seq<char>>,
    pub preceding_assistant_reasoning: Option<Seq<char>>,
    pub preceding_assistant_provider_id: Option<Seq<char>>,
    pub preceding_assistant_model: Option<Seq<char>>,
}

impl DeepView for QueuedPromptRow {
    type V = QueuedPromptRowModel;

    open spec fn deep_view(&self) -> QueuedPromptRowModel {
        QueuedPromptRowModel {
            prompt_id: self.prompt_id.deep_view(),
            seq: self.seq,
            session_id: self.session_id.deep_view(),
            queue_session_id: self.queue_session_id.deep_view(),
            owner_pid: self.owner_pid.deep_view(),
            status: self.status.deep_view(),
            content: self.content.deep_view(),
            display_content: self.display_content.deep_view(),
            context_content: self.context_content.deep_view(),
            attachments: self.attachments.deep_view(),
            submitted_at: self.submitted_at.deep_view(),
            consumed_at: self.consumed_at.deep_view(),
            turn_id: self.turn_id.deep_view(),
            preceding_assistant_content: self.preceding_assistant_content.deep_view(),
            preceding_assistant_reasoning: self.preceding_assistant_reasoning.deep_view(),
            preceding_assistant_provider_id: self.preceding_assistant_provider_id.deep_view(),
            preceding_assistant_model: self.preceding_assistant_model.deep_view(),
        }
    }
}

impl Row for QueuedPromptRow {
    fn dup(&self) -> (copy: Self) {
        QueuedPromptRow {
            prompt_id: self.prompt_id.dup(),
            seq: self.seq,
            session_id: self.session_id.dup(),
            queue_session_id: self.queue_session_id.dup(),
            owner_pid: self.owner_pid.dup(),
            status: self.status.dup(),
            content: self.content.dup(),
            display_content: self.display_content.dup(),
            context_content: self.context_content.dup(),
            attachments: self.attachments.dup(),
            submitted_at: self.submitted_at.dup(),
            consumed_at: self.consumed_at.dup(),
            turn_id: self.turn_id.dup(),
            preceding_assistant_content: self.preceding_assistant_content.dup(),
            preceding_assistant_reasoning: self.preceding_assistant_reasoning.dup(),
            preceding_assistant_provider_id: self.preceding_assistant_provider_id.dup(),
            preceding_assistant_model: self.preceding_assistant_model.dup(),
        }
    }
}

/// A stretch of a generation between two points where prompts were taken up.
pub struct JournalSegmentRow {
    pub turn_id: String,
    pub revision: i64,
    pub segment_index: i64,
    pub status: String,
    pub started_at: String,
    pub finished_at: Option<String>,
}

/// The model of [`JournalSegmentRow`].
#[verifier::ext_equal]
pub struct JournalSegmentRowModel {
    pub turn_id: Seq<char>,
    pub revision: i64,
    pub segment_index: i64,
    pub status: Seq<char>,
    pub started_at: Seq<char>,
    pub finished_at: Option<Seq<char>>,
}

impl DeepView for JournalSegmentRow {
    type V = JournalSegmentRowModel;

    open spec fn deep_view(&self) -> JournalSegmentRowModel {
        JournalSegmentRowModel {
            turn_id: self.turn_id.deep_view(),
            revision: self.revision,
            segment_index: self.segment_index,
            status: self.status.deep_view(),
            started_at: self.started_at.deep_view(),
            finished_at: self.finished_at.deep_view(),
        }
    }
}

impl Row for JournalSegmentRow {
    fn dup(&self) -> (copy: Self) {
        JournalSegmentRow {
            turn_id: self.turn_id.dup(),
            revision: self.revision,
            segment_index: self.segment_index,
            status: self.status.dup(),
            started_at: self.started_at.dup(),
            finished_at: self.finished_at.dup(),
        }
    }
}

/// An event of a generation as it is stored.
pub struct JournalEventRow {
    pub turn_id: String,
    pub event: TurnJournalEvent,
    pub created_at: String,
}

/// The model of [`JournalEventRow`].
#[verifier::ext_equal]
pub struct JournalEventRowModel {
    pub turn_id: Seq<char>,
    pub event: TurnJournalEventModel,
    pub created_at: Seq<char>,
}

impl DeepView for JournalEventRow {
    type V = JournalEventRowModel;

    open spec fn deep_view(&self) -> JournalEventRowModel {
        JournalEventRowModel {
            turn_id: self.turn_id.deep_view(),
            event: self.event.deep_view(),
            created_at: self.created_at.deep_view(),
        }
    }
}

impl Row for JournalEventRow {
    fn dup(&self) -> (copy: Self) {
        JournalEventRow {
            turn_id: self.turn_id.dup(),
            event: self.event.dup(),
            created_at: self.created_at.dup(),
        }
    }
}

/// The redo checkpoint of a turn as it is stored.
pub struct CheckpointRow {
    pub turn_id: String,
    pub version: i64,
    /// A JSON array of prompt ids.
    pub batch_prompt_ids: String,
    pub payload: Option<TurnRedoCheckpointPayload>,
    pub unavailable_reason: Option<String>,
    pub created_at: String,
}

/// The model of [`CheckpointRow`].
#[verifier::ext_equal]
pub struct CheckpointRowModel {
    pub turn_id: Seq<char>,
    pub version: i64,
    pub batch_prompt_ids: Seq<char>,
    pub payload: Option<TurnRedoCheckpointPayloadModel>,
    pub unavailable_reason: Option<Seq<char>>,
    pub created_at: Seq<char>,
}

impl DeepView for CheckpointRow {
    type V = CheckpointRowModel;

    open spec fn deep_view(&self) -> CheckpointRowModel {
        CheckpointRowModel {
            turn_id: self.turn_id.deep_view(),
            version: self.version,
            batch_prompt_ids: self.batch_prompt_ids.deep_view(),
            payload: self.payload.deep_view(),
            unavailable_reason: self.unavailable_reason.deep_view(),
            created_at: self.created_at.deep_view(),
        }
    }
}

impl Row for CheckpointRow {
    fn dup(&self) -> (copy: Self) {
        CheckpointRow {
            turn_id: self.turn_id.dup(),
            version: self.version,
            batch_prompt_ids: self.batch_prompt_ids.dup(),
            payload: self.payload.dup(),
            unavailable_reason: self.unavailable_reason.dup(),
            created_at: self.created_at.dup(),
        }
    }
}

/// The redo backup of a turn as it is stored.
pub struct BackupRow {
    pub turn_id: String,
    pub revision: i64,
    pub payload: TurnRedoBackup,
    pub created_at: String,
}

/// The model of [`BackupRow`].
#[verifier::ext_equal]
pub struct BackupRowModel {
    pub turn_id: Seq<char>,
    pub revision: i64,
    pub payload: TurnRedoBackupModel,
    pub created_at: Seq<char>,
}

impl DeepView for BackupRow {
    type V = BackupRowModel;

    open spec fn deep_view(&self) -> BackupRowModel {
        BackupRowModel {
            turn_id: self.turn_id.deep_view(),
            revision: self.revision,
            payload: self.payload.deep_view(),
            created_at: self.created_at.deep_view(),
        }
    }
}

impl Row for BackupRow {
    fn dup(&self) -> (copy: Self) {
        BackupRow {
            turn_id: self.turn_id.dup(),
            revision: self.revision,
            payload: self.payload.dup(),
            created_at: self.created_at.dup(),
        }
    }
}

/// An answered question as it is stored.
pub struct QuestionRow {
    pub turn_id: String,
    pub exchange_index: i64,
    pub payload: String,
}

/// The model of [`QuestionRow`].
#[verifier::ext_equal]
pub struct QuestionRowModel {
    pub turn_id: Seq<char>,
    pub exchange_index: i64,
    pub payload: Seq<char>,
}

impl DeepView for QuestionRow {
    type V = QuestionRowModel;

    open spec fn deep_view(&self) -> QuestionRowModel {
        QuestionRowModel {
            turn_id: self.turn_id.deep_view(),
            exchange_index: self.exchange_index,
            payload: self.payload.deep_view(),
        }
    }
}

impl Row for QuestionRow {
    fn dup(&self) -> (copy: Self) {
        QuestionRow {
            turn_id: self.turn_id.dup(),
            exchange_index: self.exchange_index,
            payload: self.payload.dup(),
        }
    }
}

/// An uploaded file and what it belongs to.
pub struct UserAttachmentRow {
    pub attachment: UserAttachment,
    pub turn_id: Option<String>,
    pub prompt_id: Option<String>,
}

/// The model of [`UserAttachmentRow`].
#[verifier::ext_equal]
pub struct UserAttachmentRowModel {
    pub attachment: UserAttachmentModel,
    pub turn_id: Option<Seq<char>>,
    pub prompt_id: Option<Seq<char>>,
}

impl DeepView for UserAttachmentRow {
    type V = UserAttachmentRowModel;

    open spec fn deep_view(&self) -> UserAttachmentRowModel {
        UserAttachmentRowModel {
            attachment: self.attachment.deep_view(),
            turn_id: self.turn_id.deep_view(),
            prompt_id: self.prompt_id.deep_view(),
        }
    }
}

impl Row for UserAttachmentRow {
    fn dup(&self) -> (copy: Self) {
        UserAttachmentRow {
            attachment: self.attachment.dup(),
            turn_id: self.turn_id.dup(),
            prompt_id: self.prompt_id.dup(),
        }
    }
}

/// A tool or target that a session has loaded.
pub struct LoadedItemRow {
    pub session_id: String,
    pub kind: String,
    pub name: String,
    pub source_turn_id: Option<String>,
    pub created_at: String,
    pub updated_at: String,
}

/// The model of [`LoadedItemRow`].
#[verifier::ext_equal]
pub struct LoadedItemRowModel {
    pub session_id: Seq<char>,
    pub kind: Seq<char>,
    pub name: Seq<char>,
    pub source_turn_id: Option<Seq<char>>,
    pub created_at: Seq<char>,
    pub updated_at: Seq<char>,
}

impl DeepView for LoadedItemRow {
    type V = LoadedItemRowModel;

    open spec fn deep_view(&self) -> LoadedItemRowModel {
        LoadedItemRowModel {
            session_id: self.session_id.deep_view(),
            kind: self.kind.deep_view(),
            name: self.name.deep_view(),
            source_turn_id: self.source_turn_id.deep_view(),
            created_at: self.created_at.deep_view(),
            updated_at: self.updated_at.deep_view(),
        }
    }
}

impl Row for LoadedItemRow {
    fn dup(&self) -> (copy: Self) {
        LoadedItemRow {
            session_id: self.session_id.dup(),
            kind: self.kind.dup(),
            name: self.name.dup(),
            source_turn_id: self.source_turn_id.dup(),
            created_at: self.created_at.dup(),
            updated_at: self.updated_at.dup(),
        }
    }
}

/// A conversation of a messaging platform bound to a session.
pub struct BindingRow {
    pub platform: String,
    pub account_id: String,
    pub conversation_kind: String,
    pub conversation_id: String,
    /// Empty where the conversation has no participant of its own.
    pub participant_id: String,
    pub persona: String,
    pub session_id: String,
    pub created_at: String,
    pub updated_at: String,
}

/// The model of [`BindingRow`].
#[verifier::ext_equal]
pub struct BindingRowModel {
    pub platform: Seq<char>,
    pub account_id: Seq<char>,
    pub conversation_kind: Seq<char>,
    pub conversation_id: Seq<char>,
    pub participant_id: Seq<char>,
    pub persona: Seq<char>,
    pub session_id: Seq<char>,
    pub created_at: Seq<char>,
    pub updated_at: Seq<char>,
}

impl DeepView for BindingRow {
    type V = BindingRowModel;

    open spec fn deep_view(&self) -> BindingRowModel {
        BindingRowModel {
            platform: self.platform.deep_view(),
            account_id: self.account_id.deep_view(),
            conversation_kind: self.conversation_kind.deep_view(),
            conversation_id: self.conversation_id.deep_view(),
            participant_id: self.participant_id.deep_view(),
            persona: self.persona.deep_view(),
            session_id: self.session_id.deep_view(),
            created_at: self.created_at.deep_view(),
            updated_at: self.updated_at.deep_view(),
        }
    }
}

impl Row for BindingRow {
    fn dup(&self) -> (copy: Self) {
        BindingRow {
            platform: self.platform.dup(),
            account_id: self.account_id.dup(),
            conversation_kind: self.conversation_kind.dup(),
            conversation_id: self.conversation_id.dup(),
            participant_id: self.participant_id.dup(),
            persona: self.persona.dup(),
            session_id: self.session_id.dup(),
            created_at: self.created_at.dup(),
            updated_at: self.updated_at.dup(),
        }
    }
}

/// A grant or a revocation in the audit trail.
pub struct AuditRow {
    pub audit_id: String,
    pub operation: String,
    pub key: PlatformAccessGrantKey,
    pub actor: PlatformAccessActor,
    pub created_at: String,
}

/// The model of [`AuditRow`].
#[verifier::ext_equal]
pub struct AuditRowModel {
    pub audit_id: Seq<char>,
    pub operation: Seq<char>,
    pub key: PlatformAccessGrantKeyModel,
    pub actor: PlatformAccessActorModel,
    pub created_at: Seq<char>,
}

impl DeepView for AuditRow {
    type V = AuditRowModel;

    open spec fn deep_view(&self) -> AuditRowModel {
        AuditRowModel {
            audit_id: self.audit_id.deep_view(),
            operation: self.operation.deep_view(),
            key: self.key.deep_view(),
            actor: self.actor.deep_view(),
            created_at: self.created_at.deep_view(),
        }
    }
}

impl Row for AuditRow {
    fn dup(&self) -> (copy: Self) {
        AuditRow {
            audit_id: self.audit_id.dup(),
            operation: self.operation.dup(),
            key: self.key.dup(),
            actor: self.actor.dup(),
            created_at: self.created_at.dup(),
        }
    }
}

/// A named value of the application.
pub struct AppStateRow {
    pub key: String,
    pub value: String,
}

/// The model of [`AppStateRow`].
#[verifier::ext_equal]
pub struct AppStateRowModel {
    pub key: Seq<char>,
    pub value: Seq<char>,
}

impl DeepView for AppStateRow {
    type V = AppStateRowModel;

    open spec fn deep_view(&self) -> AppStateRowModel {
        AppStateRowModel {
            key: self.key.deep_view(),
            value: self.value.deep_view(),
        }
    }
}

impl Row for AppStateRow {
    fn dup(&self) -> (copy: Self) {
        AppStateRow {
            key: self.key.dup(),
            value: self.value.dup(),
        }
    }
}

/// A value that a plugin keeps.
pub struct PluginKvRow {
    pub scope: PlatformPluginScopeKey,
    pub key: String,
    pub value_json: String,
    pub updated_at: String,
}

/// The model of [`PluginKvRow`].
#[verifier::ext_equal]
pub struct PluginKvRowModel {
    pub scope: PlatformPluginScopeKeyModel,
    pub key: Seq<char>,
    pub value_json: Seq<char>,
    pub updated_at: Seq<char>,
}

impl DeepView for PluginKvRow {
    type V = PluginKvRowModel;

    open spec fn deep_view(&self) -> PluginKvRowModel {
        PluginKvRowModel {
            scope: self.scope.deep_view(),
            key: self.key.deep_view(),
            value_json: self.value_json.deep_view(),
            updated_at: self.updated_at.deep_view(),
        }
    }
}

impl Row for PluginKvRow {
    fn dup(&self) -> (copy: Self) {
        PluginKvRow {
            scope: self.scope.dup(),
            key: self.key.dup(),
            value_json: self.value_json.dup(),
            updated_at: self.updated_at.dup(),
        }
    }
}

/// A turn in the archive of evicted turns.
pub struct EvictedRow {
    pub turn: EvictedTurn,
    pub created_at: String,
}

/// The model of [`EvictedRow`].
#[verifier::ext_equal]
pub struct EvictedRowModel {
    pub turn: EvictedTurnModel,
    pub created_at: Seq<char>,
}

impl DeepView for EvictedRow {
    type V = EvictedRowModel;

    open spec fn deep_view(&self) -> EvictedRowModel {
        EvictedRowModel {
            turn: self.turn.deep_view(),
            created_at: self.created_at.deep_view(),
        }
    }
}

impl Row for EvictedRow {
    fn dup(&self) -> (copy: Self) {
        EvictedRow {
            turn: self.turn.dup(),
            created_at: self.created_at.dup(),
        }
    }
}

} // verus!
