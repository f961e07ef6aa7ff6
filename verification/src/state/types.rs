//! The values of the conversation store and their models.

use crate::table::Row;
use crate::text::same;
use vstd::prelude::*;

verus! {

/// Account scope shared by every account on one platform.
pub const GLOBAL_PLATFORM_ACCOUNT_SCOPE: &'static str = "*";

/// One entry of a finished turn's display transcript, in stream order.
pub enum ReplayEntry {
    Text { text: String },
    ToolCall { name: String, arguments: String },
    ToolResult { name: String, ok: bool, output: String },
}

/// The model of [`ReplayEntry`].
#[verifier::ext_equal]
pub enum ReplayEntryModel {
    Text { text: Seq<char> },
    ToolCall { name: Seq<char>, arguments: Seq<char> },
    ToolResult { name: Seq<char>, ok: bool, output: Seq<char> },
}

impl DeepView for ReplayEntry {
    type V = ReplayEntryModel;

    open spec fn deep_view(&self) -> ReplayEntryModel {
        match self {
            ReplayEntry::Text { text } => ReplayEntryModel::Text { text: text@ },
            ReplayEntry::ToolCall { name, arguments } => ReplayEntryModel::ToolCall {
                name: name@,
                arguments: arguments@,
            },
            ReplayEntry::ToolResult { name, ok, output } => ReplayEntryModel::ToolResult {
                name: name@,
                ok: *ok,
                output: output@,
            },
        }
    }
}

impl Row for ReplayEntry {
    fn dup(&self) -> (copy: Self) {
        match self {
            ReplayEntry::Text { text } => ReplayEntry::Text { text: text.clone() },
            ReplayEntry::ToolCall { name, arguments } => ReplayEntry::ToolCall {
                name: name.clone(),
                arguments: arguments.clone(),
            },
            ReplayEntry::ToolResult { name, ok, output } => ReplayEntry::ToolResult {
                name: name.clone(),
                ok: *ok,
                output: output.clone(),
            },
        }
    }
}

/// An attachment that travels with a queued prompt.
pub enum QueuedPromptAttachment {
    Binary { mime: String, data_base64: String },
    Path { path: String },
}

/// The model of [`QueuedPromptAttachment`].
#[verifier::ext_equal]
pub enum QueuedPromptAttachmentModel {
    Binary { mime: Seq<char>, data_base64: Seq<char> },
    Path { path: Seq<char> },
}

impl DeepView for QueuedPromptAttachment {
    type V = QueuedPromptAttachmentModel;

    open spec fn deep_view(&self) -> QueuedPromptAttachmentModel {
        match self {
            QueuedPromptAttachment::Binary { mime, data_base64 } => {
                QueuedPromptAttachmentModel::Binary { mime: mime@, data_base64: data_base64@ }
            },
            QueuedPromptAttachment::Path { path } => QueuedPromptAttachmentModel::Path {
                path: path@,
            },
        }
    }
}

impl Row for QueuedPromptAttachment {
    fn dup(&self) -> (copy: Self) {
        match self {
            QueuedPromptAttachment::Binary { mime, data_base64 } => {
                QueuedPromptAttachment::Binary {
                    mime: mime.clone(),
                    data_base64: data_base64.clone(),
                }
            },
            QueuedPromptAttachment::Path { path } => QueuedPromptAttachment::Path {
                path: path.clone(),
            },
        }
    }
}

/// How far a turn has come.
#[derive(Debug, Clone, Copy, PartialEq, Eq, Structural)]
pub enum TurnStatus {
    Running,
    Completed,
    Interrupted,
}

impl TurnStatus {
    /// The status that a stored word stands for; any other word stands for a
    /// turn that is still running.
    pub open spec fn of(word: Seq<char>) -> TurnStatus {
        if word == "completed"@ {
            TurnStatus::Completed
        } else if word == "interrupted"@ {
            TurnStatus::Interrupted
        } else {
            TurnStatus::Running
        }
    }

    /// The word under which a status is stored.
    pub open spec fn word(self) -> Seq<char> {
        match self {
            TurnStatus::Running => "running"@,
            TurnStatus::Completed => "completed"@,
            TurnStatus::Interrupted => "interrupted"@,
        }
    }

    pub fn as_str(&self) -> (word: &'static str)
        ensures
            word@ == self.word(),
    {
        match self {
            TurnStatus::Running => "running",
            TurnStatus::Completed => "completed",
            TurnStatus::Interrupted => "interrupted",
        }
    }

    pub fn from_str(s: &str) -> (status: TurnStatus)
        ensures
            status == TurnStatus::of(s@),
    {
        if same(s, "completed") {
            TurnStatus::Completed
        } else if same(s, "interrupted") {
            TurnStatus::Interrupted
        } else {
            TurnStatus::Running
        }
    }
}

/// What a prune did.
#[derive(Debug, Clone, Copy)]
pub struct PruneStats {
    pub turns: usize,
    pub saved_chars: usize,
}

/// Which input of a turn a redo answers again.
#[derive(Debug, Clone, Copy, PartialEq, Eq, Structural)]
pub enum RedoInputKind {
    Initial,
    Followup,
}

/// One message of a chat request, kept as the JSON object that goes over the wire.
pub struct ChatMessage {
    pub json: String,
}

/// The model of [`ChatMessage`].
#[verifier::ext_equal]
pub struct ChatMessageModel {
    pub json: Seq<char>,
}

impl DeepView for ChatMessage {
    type V = ChatMessageModel;

    open spec fn deep_view(&self) -> ChatMessageModel {
        ChatMessageModel {
            json: self.json.deep_view(),
        }
    }
}

impl Row for ChatMessage {
    fn dup(&self) -> (copy: Self) {
        ChatMessage {
            json: self.json.dup(),
        }
    }
}

/// One answered question of a turn, kept as the JSON object that records it.
pub struct QuestionExchange {
    pub payload: String,
}

/// The model of [`QuestionExchange`].
#[verifier::ext_equal]
pub struct QuestionExchangeModel {
    pub payload: Seq<char>,
}

impl DeepView for QuestionExchange {
    type V = QuestionExchangeModel;

    open spec fn deep_view(&self) -> QuestionExchangeModel {
        QuestionExchangeModel {
            payload: self.payload.deep_view(),
        }
    }
}

impl Row for QuestionExchange {
    fn dup(&self) -> (copy: Self) {
        QuestionExchange {
            payload: self.payload.dup(),
        }
    }
}

/// Token usage: everything, the prompt half, and how much of the prompt the
/// provider served from its cache.
pub struct TurnTokens {
    pub total: u64,
    pub prompt: u64,
    pub cache_read: u64,
}

/// The model of [`TurnTokens`].
#[verifier::ext_equal]
pub struct TurnTokensModel {
    pub total: u64,
    pub prompt: u64,
    pub cache_read: u64,
}

impl DeepView for TurnTokens {
    type V = TurnTokensModel;

    open spec fn deep_view(&self) -> TurnTokensModel {
        TurnTokensModel {
            total: self.total,
            prompt: self.prompt,
            cache_read: self.cache_read,
        }
    }
}

impl Row for TurnTokens {
    fn dup(&self) -> (copy: Self) {
        TurnTokens {
            total: self.total,
            prompt: self.prompt,
            cache_read: self.cache_read,
        }
    }
}

/// A turn on its way out of the conversation into the archive of evicted turns.
pub struct EvictedTurn {
    pub source_id: String,
    pub timestamp: String,
    pub role: String,
    pub content: String,
    pub visibility: String,
    pub owner_principal: Option<String>,
    pub owner_display_name: Option<String>,
}

/// The model of [`EvictedTurn`].
#[verifier::ext_equal]
pub struct EvictedTurnModel {
    pub source_id: Seq<char>,
    pub timestamp: Seq<char>,
    pub role: Seq<char>,
    pub content: Seq<char>,
    pub visibility: Seq<char>,
    pub owner_principal: Option<Seq<char>>,
    pub owner_display_name: Option<Seq<char>>,
}

impl DeepView for EvictedTurn {
    type V = EvictedTurnModel;

    open spec fn deep_view(&self) -> EvictedTurnModel {
        EvictedTurnModel {
            source_id: self.source_id.deep_view(),
            timestamp: self.timestamp.deep_view(),
            role: self.role.deep_view(),
            content: self.content.deep_view(),
            visibility: self.visibility.deep_view(),
            owner_principal: self.owner_principal.deep_view(),
            owner_display_name: self.owner_display_name.deep_view(),
        }
    }
}

impl Row for EvictedTurn {
    fn dup(&self) -> (copy: Self) {
        EvictedTurn {
            source_id: self.source_id.dup(),
            timestamp: self.timestamp.dup(),
            role: self.role.dup(),
            content: self.content.dup(),
            visibility: self.visibility.dup(),
            owner_principal: self.owner_principal.dup(),
            owner_display_name: self.owner_display_name.dup(),
        }
    }
}

/// One tool call and its result, with the arguments byte for byte as the model
/// wrote them.
pub struct ToolFlowCall {
    pub id: String,
    pub name: String,
    pub arguments: String,
    pub output: String,
}

/// The model of [`ToolFlowCall`].
#[verifier::ext_equal]
pub struct ToolFlowCallModel {
    pub id: Seq<char>,
    pub name: Seq<char>,
    pub arguments: Seq<char>,
    pub output: Seq<char>,
}

impl DeepView for ToolFlowCall {
    type V = ToolFlowCallModel;

    open spec fn deep_view(&self) -> ToolFlowCallModel {
        ToolFlowCallModel {
            id: self.id.deep_view(),
            name: self.name.deep_view(),
            arguments: self.arguments.deep_view(),
            output: self.output.deep_view(),
        }
    }
}

impl Row for ToolFlowCall {
    fn dup(&self) -> (copy: Self) {
        ToolFlowCall {
            id: self.id.dup(),
            name: self.name.dup(),
            arguments: self.arguments.dup(),
            output: self.output.dup(),
        }
    }
}

/// One round of tool calls: the assistant starts them, then each has its result.
pub struct ToolFlowRound {
    pub assistant_content: String,
    pub assistant_reasoning: Option<String>,
    pub calls: Vec<ToolFlowCall>,
}

/// The model of [`ToolFlowRound`].
#[verifier::ext_equal]
pub struct ToolFlowRoundModel {
    pub assistant_content: Seq<char>,
    pub assistant_reasoning: Option<Seq<char>>,
    pub calls: Seq<ToolFlowCallModel>,
}

impl DeepView for ToolFlowRound {
    type V = ToolFlowRoundModel;

    open spec fn deep_view(&self) -> ToolFlowRoundModel {
        ToolFlowRoundModel {
            assistant_content: self.assistant_content.deep_view(),
            assistant_reasoning: self.assistant_reasoning.deep_view(),
            calls: self.calls.deep_view(),
        }
    }
}

impl Row for ToolFlowRound {
    fn dup(&self) -> (copy: Self) {
        ToolFlowRound {
            assistant_content: self.assistant_content.dup(),
            assistant_reasoning: self.assistant_reasoning.dup(),
            calls: self.calls.dup(),
        }
    }
}

/// One event of a generation that has not completed.
pub struct TurnJournalEvent {
    pub event_id: i64,
    pub revision: i64,
    pub segment_index: i64,
    pub kind: String,
    pub call_id: Option<String>,
    pub name: Option<String>,
    pub text_payload: Option<String>,
    pub blob_payload: Option<Vec<u8>>,
    pub ok: Option<bool>,
}

/// The model of [`TurnJournalEvent`].
#[verifier::ext_equal]
pub struct TurnJournalEventModel {
    pub event_id: i64,
    pub revision: i64,
    pub segment_index: i64,
    pub kind: Seq<char>,
    pub call_id: Option<Seq<char>>,
    pub name: Option<Seq<char>>,
    pub text_payload: Option<Seq<char>>,
    pub blob_payload: Option<Seq<u8>>,
    pub ok: Option<bool>,
}

impl DeepView for TurnJournalEvent {
    type V = TurnJournalEventModel;

    open spec fn deep_view(&self) -> TurnJournalEventModel {
        TurnJournalEventModel {
            event_id: self.event_id,
            revision: self.revision,
            segment_index: self.segment_index,
            kind: self.kind.deep_view(),
            call_id: self.call_id.deep_view(),
            name: self.name.deep_view(),
            text_payload: self.text_payload.deep_view(),
            blob_payload: self.blob_payload.deep_view(),
            ok: self.ok.deep_view(),
        }
    }
}

impl Row for TurnJournalEvent {
    fn dup(&self) -> (copy: Self) {
        TurnJournalEvent {
            event_id: self.event_id,
            revision: self.revision,
            segment_index: self.segment_index,
            kind: self.kind.dup(),
            call_id: self.call_id.dup(),
            name: self.name.dup(),
            text_payload: self.text_payload.dup(),
            blob_payload: self.blob_payload.dup(),
            ok: self.ok.dup(),
        }
    }
}

/// A file that the user uploaded.
pub struct UserAttachment {
    pub attachment_id: String,
    pub file_name: String,
    pub mime: String,
    pub kind: String,
    pub size_bytes: u64,
    pub width: u32,
    pub height: u32,
    pub created_at: String,
}

/// The model of [`UserAttachment`].
#[verifier::ext_equal]
pub struct UserAttachmentModel {
    pub attachment_id: Seq<char>,
    pub file_name: Seq<char>,
    pub mime: Seq<char>,
    pub kind: Seq<char>,
    pub size_bytes: u64,
    pub width: u32,
    pub height: u32,
    pub created_at: Seq<char>,
}

impl DeepView for UserAttachment {
    type V = UserAttachmentModel;

    open spec fn deep_view(&self) -> UserAttachmentModel {
        UserAttachmentModel {
            attachment_id: self.attachment_id.deep_view(),
            file_name: self.file_name.deep_view(),
            mime: self.mime.deep_view(),
            kind: self.kind.deep_view(),
            size_bytes: self.size_bytes,
            width: self.width,
            height: self.height,
            created_at: self.created_at.deep_view(),
        }
    }
}

impl Row for UserAttachment {
    fn dup(&self) -> (copy: Self) {
        UserAttachment {
            attachment_id: self.attachment_id.dup(),
            file_name: self.file_name.dup(),
            mime: self.mime.dup(),
            kind: self.kind.dup(),
            size_bytes: self.size_bytes,
            width: self.width,
            height: self.height,
            created_at: self.created_at.dup(),
        }
    }
}

/// An uploaded file with its bytes.
pub struct UserAttachmentData {
    pub attachment: UserAttachment,
    pub bytes: Vec<u8>,
}

/// The model of [`UserAttachmentData`].
#[verifier::ext_equal]
pub struct UserAttachmentDataModel {
    pub attachment: UserAttachmentModel,
    pub bytes: Seq<u8>,
}

impl DeepView for UserAttachmentData {
    type V = UserAttachmentDataModel;

    open spec fn deep_view(&self) -> UserAttachmentDataModel {
        UserAttachmentDataModel {
            attachment: self.attachment.deep_view(),
            bytes: self.bytes.deep_view(),
        }
    }
}

impl Row for UserAttachmentData {
    fn dup(&self) -> (copy: Self) {
        UserAttachmentData {
            attachment: self.attachment.dup(),
            bytes: self.bytes.dup(),
        }
    }
}

/// A prompt that waits to be taken up by a running turn.
pub struct QueuedPrompt {
    pub prompt_id: String,
    pub seq: i64,
    pub content: String,
    pub display_content: String,
    pub attachments: Vec<QueuedPromptAttachment>,
    pub uploaded_attachments: Vec<UserAttachment>,
    pub submitted_at: String,
}

/// The model of [`QueuedPrompt`].
#[verifier::ext_equal]
pub struct QueuedPromptModel {
    pub prompt_id: Seq<char>,
    pub seq: i64,
    pub content: Seq<char>,
    pub display_content: Seq<char>,
    pub attachments: Seq<QueuedPromptAttachmentModel>,
    pub uploaded_attachments: Seq<UserAttachmentModel>,
    pub submitted_at: Seq<char>,
}

impl DeepView for QueuedPrompt {
    type V = QueuedPromptModel;

    open spec fn deep_view(&self) -> QueuedPromptModel {
        QueuedPromptModel {
            prompt_id: self.prompt_id.deep_view(),
            seq: self.seq,
            content: self.content.deep_view(),
            display_content: self.display_content.deep_view(),
            attachments: self.attachments.deep_view(),
            uploaded_attachments: self.uploaded_attachments.deep_view(),
            submitted_at: self.submitted_at.deep_view(),
        }
    }
}

impl Row for QueuedPrompt {
    fn dup(&self) -> (copy: Self) {
        QueuedPrompt {
            prompt_id: self.prompt_id.dup(),
            seq: self.seq,
            content: self.content.dup(),
            display_content: self.display_content.dup(),
            attachments: self.attachments.dup(),
            uploaded_attachments: self.uploaded_attachments.dup(),
            submitted_at: self.submitted_at.dup(),
        }
    }
}

/// A prompt that a turn took up while it ran.
pub struct TurnFollowup {
    pub prompt_id: String,
    pub content: String,
    pub display_content: String,
    pub attachments: Vec<QueuedPromptAttachment>,
    pub uploaded_attachments: Vec<UserAttachment>,
    pub submitted_at: String,
    pub preceding_assistant_content: Option<String>,
    pub preceding_assistant_reasoning: Option<String>,
    pub preceding_assistant_provider_id: Option<String>,
    pub preceding_assistant_model: Option<String>,
}

/// The model of [`TurnFollowup`].
#[verifier::ext_equal]
pub struct TurnFollowupModel {
    pub prompt_id: Seq<char>,
    pub content: Seq<char>,
    pub display_content: Seq<char>,
    pub attachments: Seq<QueuedPromptAttachmentModel>,
    pub uploaded_attachments: Seq<UserAttachmentModel>,
    pub submitted_at: Seq<char>,
    pub preceding_assistant_content: Option<Seq<char>>,
    pub preceding_assistant_reasoning: Option<Seq<char>>,
    pub preceding_assistant_provider_id: Option<Seq<char>>,
    pub preceding_assistant_model: Option<Seq<char>>,
}

impl DeepView for TurnFollowup {
    type V = TurnFollowupModel;

    open spec fn deep_view(&self) -> TurnFollowupModel {
        TurnFollowupModel {
            prompt_id: self.prompt_id.deep_view(),
            content: self.content.deep_view(),
            display_content: self.display_content.deep_view(),
            attachments: self.attachments.deep_view(),
            uploaded_attachments: self.uploaded_attachments.deep_view(),
            submitted_at: self.submitted_at.deep_view(),
            preceding_assistant_content: self.preceding_assistant_content.deep_view(),
            preceding_assistant_reasoning: self.preceding_assistant_reasoning.deep_view(),
            preceding_assistant_provider_id: self.preceding_assistant_provider_id.deep_view(),
            preceding_assistant_model: self.preceding_assistant_model.deep_view(),
        }
    }
}

impl Row for TurnFollowup {
    fn dup(&self) -> (copy: Self) {
        TurnFollowup {
            prompt_id: self.prompt_id.dup(),
            content: self.content.dup(),
            display_content: self.display_content.dup(),
            attachments: self.attachments.dup(),
            uploaded_attachments: self.uploaded_attachments.dup(),
            submitted_at: self.submitted_at.dup(),
            preceding_assistant_content: self.preceding_assistant_content.dup(),
            preceding_assistant_reasoning: self.preceding_assistant_reasoning.dup(),
            preceding_assistant_provider_id: self.preceding_assistant_provider_id.dup(),
            preceding_assistant_model: self.preceding_assistant_model.dup(),
        }
    }
}

/// One exchange: the prompt, the reply, and everything that hangs off them.
pub struct Turn {
    pub turn_id: String,
    pub seq: i64,
    pub user_content: String,
    pub display_content: String,
    pub user_timestamp: String,
    pub assistant_content: String,
    pub assistant_reasoning: Option<String>,
    pub assistant_provider_id: Option<String>,
    pub assistant_model: Option<String>,
    pub assistant_timestamp: Option<String>,
    pub status: TurnStatus,
    pub tool_reports: Vec<String>,
    /// Tool calls in structured form. Where it is empty, `tool_reports` serves.
    pub tool_flow: Vec<ToolFlowRound>,
    pub question_exchanges: Vec<QuestionExchange>,
    pub followups: Vec<TurnFollowup>,
    pub attachments: Vec<UserAttachment>,
    pub hidden: bool,
    pub is_summary: bool,
    pub owner_pid: Option<i64>,
    pub token_total: u64,
    /// The prompt half of the usage: the denominator of a cache hit rate.
    pub token_prompt: u64,
    pub token_cache_read: u64,
    pub token_usage_estimated: bool,
    pub revision: i64,
    /// Events of a generation that has not completed; empty on a completed turn.
    pub journal_events: Vec<TurnJournalEvent>,
    /// The system messages that followed the prompt in the live request.
    pub context_messages: Vec<ChatMessage>,
}

/// The model of [`Turn`].
#[verifier::ext_equal]
pub struct TurnModel {
    pub turn_id: Seq<char>,
    pub seq: i64,
    pub user_content: Seq<char>,
    pub display_content: Seq<char>,
    pub user_timestamp: Seq<char>,
    pub assistant_content: Seq<char>,
    pub assistant_reasoning: Option<Seq<char>>,
    pub assistant_provider_id: Option<Seq<char>>,
    pub assistant_model: Option<Seq<char>>,
    pub assistant_timestamp: Option<Seq<char>>,
    pub status: TurnStatus,
    pub tool_reports: Seq<Seq<char>>,
    pub tool_flow: Seq<ToolFlowRoundModel>,
    pub question_exchanges: Seq<QuestionExchangeModel>,
    pub followups: Seq<TurnFollowupModel>,
    pub attachments: Seq<UserAttachmentModel>,
    pub hidden: bool,
    pub is_summary: bool,
    pub owner_pid: Option<i64>,
    pub token_total: u64,
    pub token_prompt: u64,
    pub token_cache_read: u64,
    pub token_usage_estimated: bool,
    pub revision: i64,
    pub journal_events: Seq<TurnJournalEventModel>,
    pub context_messages: Seq<ChatMessageModel>,
}

impl DeepView for Turn {
    type V = TurnModel;

    open spec fn deep_view(&self) -> TurnModel {
        TurnModel {
            turn_id: self.turn_id.deep_view(),
            seq: self.seq,
            user_content: self.user_content.deep_view(),
            display_content: self.display_content.deep_view(),
            user_timestamp: self.user_timestamp.deep_view(),
            assistant_content: self.assistant_content.deep_view(),
            assistant_reasoning: self.assistant_reasoning.deep_view(),
            assistant_provider_id: self.assistant_provider_id.deep_view(),
            assistant_model: self.assistant_model.deep_view(),
            assistant_timestamp: self.assistant_timestamp.deep_view(),
            status: self.status,
            tool_reports: self.tool_reports.deep_view(),
            tool_flow: self.tool_flow.deep_view(),
            question_exchanges: self.question_exchanges.deep_view(),
            followups: self.followups.deep_view(),
            attachments: self.attachments.deep_view(),
            hidden: self.hidden,
            is_summary: self.is_summary,
            owner_pid: self.owner_pid.deep_view(),
            token_total: self.token_total,
            token_prompt: self.token_prompt,
            token_cache_read: self.token_cache_read,
            token_usage_estimated: self.token_usage_estimated,
            revision: self.revision,
            journal_events: self.journal_events.deep_view(),
            context_messages: self.context_messages.deep_view(),
        }
    }
}

impl Row for Turn {
    fn dup(&self) -> (copy: Self) {
        Turn {
            turn_id: self.turn_id.dup(),
            seq: self.seq,
            user_content: self.user_content.dup(),
            display_content: self.display_content.dup(),
            user_timestamp: self.user_timestamp.dup(),
            assistant_content: self.assistant_content.dup(),
            assistant_reasoning: self.assistant_reasoning.dup(),
            assistant_provider_id: self.assistant_provider_id.dup(),
            assistant_model: self.assistant_model.dup(),
            assistant_timestamp: self.assistant_timestamp.dup(),
            status: self.status,
            tool_reports: self.tool_reports.dup(),
            tool_flow: self.tool_flow.dup(),
            question_exchanges: self.question_exchanges.dup(),
            followups: self.followups.dup(),
            attachments: self.attachments.dup(),
            hidden: self.hidden,
            is_summary: self.is_summary,
            owner_pid: self.owner_pid.dup(),
            token_total: self.token_total,
            token_prompt: self.token_prompt,
            token_cache_read: self.token_cache_read,
            token_usage_estimated: self.token_usage_estimated,
            revision: self.revision,
            journal_events: self.journal_events.dup(),
            context_messages: self.context_messages.dup(),
        }
    }
}

/// Where a turn stood when it took up a batch of queued prompts.
pub struct TurnRedoCheckpointPayload {
    pub replay_messages: Vec<ChatMessage>,
    pub prefix_tool_reports: Vec<String>,
    pub tool_rounds: usize,
    pub question_rounds: usize,
    pub loaded_items: Vec<(String, String, Option<String>)>,
    pub prefix_question_count: usize,
    pub prefix_image_asset_ids: Vec<String>,
    pub prefix_artifact_asset_ids: Vec<String>,
}

/// The model of [`TurnRedoCheckpointPayload`].
#[verifier::ext_equal]
pub struct TurnRedoCheckpointPayloadModel {
    pub replay_messages: Seq<ChatMessageModel>,
    pub prefix_tool_reports: Seq<Seq<char>>,
    pub tool_rounds: usize,
    pub question_rounds: usize,
    pub loaded_items: Seq<(Seq<char>, Seq<char>, Option<Seq<char>>)>,
    pub prefix_question_count: usize,
    pub prefix_image_asset_ids: Seq<Seq<char>>,
    pub prefix_artifact_asset_ids: Seq<Seq<char>>,
}

impl DeepView for TurnRedoCheckpointPayload {
    type V = TurnRedoCheckpointPayloadModel;

    open spec fn deep_view(&self) -> TurnRedoCheckpointPayloadModel {
        TurnRedoCheckpointPayloadModel {
            replay_messages: self.replay_messages.deep_view(),
            prefix_tool_reports: self.prefix_tool_reports.deep_view(),
            tool_rounds: self.tool_rounds,
            question_rounds: self.question_rounds,
            loaded_items: self.loaded_items.deep_view(),
            prefix_question_count: self.prefix_question_count,
            prefix_image_asset_ids: self.prefix_image_asset_ids.deep_view(),
            prefix_artifact_asset_ids: self.prefix_artifact_asset_ids.deep_view(),
        }
    }
}

impl Row for TurnRedoCheckpointPayload {
    fn dup(&self) -> (copy: Self) {
        TurnRedoCheckpointPayload {
            replay_messages: self.replay_messages.dup(),
            prefix_tool_reports: self.prefix_tool_reports.dup(),
            tool_rounds: self.tool_rounds,
            question_rounds: self.question_rounds,
            loaded_items: self.loaded_items.dup(),
            prefix_question_count: self.prefix_question_count,
            prefix_image_asset_ids: self.prefix_image_asset_ids.dup(),
            prefix_artifact_asset_ids: self.prefix_artifact_asset_ids.dup(),
        }
    }
}

/// A checkpoint as it is read back, or the reason why it cannot be used.
pub struct TurnRedoCheckpoint {
    pub batch_prompt_ids: Vec<String>,
    pub payload: Option<TurnRedoCheckpointPayload>,
    pub unavailable_reason: Option<String>,
}

/// The model of [`TurnRedoCheckpoint`].
#[verifier::ext_equal]
pub struct TurnRedoCheckpointModel {
    pub batch_prompt_ids: Seq<Seq<char>>,
    pub payload: Option<TurnRedoCheckpointPayloadModel>,
    pub unavailable_reason: Option<Seq<char>>,
}

impl DeepView for TurnRedoCheckpoint {
    type V = TurnRedoCheckpointModel;

    open spec fn deep_view(&self) -> TurnRedoCheckpointModel {
        TurnRedoCheckpointModel {
            batch_prompt_ids: self.batch_prompt_ids.deep_view(),
            payload: self.payload.deep_view(),
            unavailable_reason: self.unavailable_reason.deep_view(),
        }
    }
}

impl Row for TurnRedoCheckpoint {
    fn dup(&self) -> (copy: Self) {
        TurnRedoCheckpoint {
            batch_prompt_ids: self.batch_prompt_ids.dup(),
            payload: self.payload.dup(),
            unavailable_reason: self.unavailable_reason.dup(),
        }
    }
}

/// The input that a redo would answer again.
pub struct RedoCandidate {
    pub turn_id: String,
    pub revision: i64,
    pub input_id: String,
    pub input_kind: RedoInputKind,
    pub display_content: String,
    pub batch_prompt_ids: Vec<String>,
}

/// The model of [`RedoCandidate`].
#[verifier::ext_equal]
pub struct RedoCandidateModel {
    pub turn_id: Seq<char>,
    pub revision: i64,
    pub input_id: Seq<char>,
    pub input_kind: RedoInputKind,
    pub display_content: Seq<char>,
    pub batch_prompt_ids: Seq<Seq<char>>,
}

impl DeepView for RedoCandidate {
    type V = RedoCandidateModel;

    open spec fn deep_view(&self) -> RedoCandidateModel {
        RedoCandidateModel {
            turn_id: self.turn_id.deep_view(),
            revision: self.revision,
            input_id: self.input_id.deep_view(),
            input_kind: self.input_kind,
            display_content: self.display_content.deep_view(),
            batch_prompt_ids: self.batch_prompt_ids.deep_view(),
        }
    }
}

impl Row for RedoCandidate {
    fn dup(&self) -> (copy: Self) {
        RedoCandidate {
            turn_id: self.turn_id.dup(),
            revision: self.revision,
            input_id: self.input_id.dup(),
            input_kind: self.input_kind,
            display_content: self.display_content.dup(),
            batch_prompt_ids: self.batch_prompt_ids.dup(),
        }
    }
}

/// A redo that has begun.
pub struct RedoStart {
    pub revision: i64,
    pub checkpoint: Option<TurnRedoCheckpointPayload>,
}

/// The model of [`RedoStart`].
#[verifier::ext_equal]
pub struct RedoStartModel {
    pub revision: i64,
    pub checkpoint: Option<TurnRedoCheckpointPayloadModel>,
}

impl DeepView for RedoStart {
    type V = RedoStartModel;

    open spec fn deep_view(&self) -> RedoStartModel {
        RedoStartModel {
            revision: self.revision,
            checkpoint: self.checkpoint.deep_view(),
        }
    }
}

impl Row for RedoStart {
    fn dup(&self) -> (copy: Self) {
        RedoStart {
            revision: self.revision,
            checkpoint: self.checkpoint.dup(),
        }
    }
}

/// A turn whose process was gone and that was put in order.
pub struct StaleTurnRecovery {
    pub turn_id: String,
    pub session_id: String,
    pub restored_redo: bool,
}

/// The model of [`StaleTurnRecovery`].
#[verifier::ext_equal]
pub struct StaleTurnRecoveryModel {
    pub turn_id: Seq<char>,
    pub session_id: Seq<char>,
    pub restored_redo: bool,
}

impl DeepView for StaleTurnRecovery {
    type V = StaleTurnRecoveryModel;

    open spec fn deep_view(&self) -> StaleTurnRecoveryModel {
        StaleTurnRecoveryModel {
            turn_id: self.turn_id.deep_view(),
            session_id: self.session_id.deep_view(),
            restored_redo: self.restored_redo,
        }
    }
}

impl Row for StaleTurnRecovery {
    fn dup(&self) -> (copy: Self) {
        StaleTurnRecovery {
            turn_id: self.turn_id.dup(),
            session_id: self.session_id.dup(),
            restored_redo: self.restored_redo,
        }
    }
}

/// The checkpoint of a turn as it was before a redo.
pub struct RedoCheckpointBackup {
    pub version: i64,
    pub batch_prompt_ids: String,
    pub payload: Option<TurnRedoCheckpointPayload>,
    pub unavailable_reason: Option<String>,
    pub created_at: String,
}

/// The model of [`RedoCheckpointBackup`].
#[verifier::ext_equal]
pub struct RedoCheckpointBackupModel {
    pub version: i64,
    pub batch_prompt_ids: Seq<char>,
    pub payload: Option<TurnRedoCheckpointPayloadModel>,
    pub unavailable_reason: Option<Seq<char>>,
    pub created_at: Seq<char>,
}

impl DeepView for RedoCheckpointBackup {
    type V = RedoCheckpointBackupModel;

    open spec fn deep_view(&self) -> RedoCheckpointBackupModel {
        RedoCheckpointBackupModel {
            version: self.version,
            batch_prompt_ids: self.batch_prompt_ids.deep_view(),
            payload: self.payload.deep_view(),
            unavailable_reason: self.unavailable_reason.deep_view(),
            created_at: self.created_at.deep_view(),
        }
    }
}

impl Row for RedoCheckpointBackup {
    fn dup(&self) -> (copy: Self) {
        RedoCheckpointBackup {
            version: self.version,
            batch_prompt_ids: self.batch_prompt_ids.dup(),
            payload: self.payload.dup(),
            unavailable_reason: self.unavailable_reason.dup(),
            created_at: self.created_at.dup(),
        }
    }
}

/// What a redo overwrites, so that a failed redo can be taken back.
pub struct TurnRedoBackup {
    pub status: String,
    pub user_content: String,
    pub display_content: String,
    pub followup_content: Option<String>,
    pub followup_display_content: Option<String>,
    pub followup_context_content: Option<String>,
    pub assistant_content: String,
    pub assistant_reasoning: Option<String>,
    pub assistant_provider_id: Option<String>,
    pub assistant_model: Option<String>,
    pub assistant_timestamp: Option<String>,
    pub tool_reports: String,
    pub owner_pid: Option<i64>,
    pub queue_session_id: Option<String>,
    pub token_total: i64,
    pub token_prompt: i64,
    pub token_cache_read: i64,
    pub token_usage_estimated: bool,
    pub loaded_items: Vec<(String, String, Option<String>, String, String)>,
    pub consumed_prompt_ids: Vec<String>,
    pub checkpoint: Option<RedoCheckpointBackup>,
}

/// The model of [`TurnRedoBackup`].
#[verifier::ext_equal]
pub struct TurnRedoBackupModel {
    pub status: Seq<char>,
    pub user_content: Seq<char>,
    pub display_content: Seq<char>,
    pub followup_content: Option<Seq<char>>,
    pub followup_display_content: Option<Seq<char>>,
    pub followup_context_content: Option<Seq<char>>,
    pub assistant_content: Seq<char>,
    pub assistant_reasoning: Option<Seq<char>>,
    pub assistant_provider_id: Option<Seq<char>>,
    pub assistant_model: Option<Seq<char>>,
    pub assistant_timestamp: Option<Seq<char>>,
    pub tool_reports: Seq<char>,
    pub owner_pid: Option<i64>,
    pub queue_session_id: Option<Seq<char>>,
    pub token_total: i64,
    pub token_prompt: i64,
    pub token_cache_read: i64,
    pub token_usage_estimated: bool,
    pub loaded_items: Seq<(Seq<char>, Seq<char>, Option<Seq<char>>, Seq<char>, Seq<char>)>,
    pub consumed_prompt_ids: Seq<Seq<char>>,
    pub checkpoint: Option<RedoCheckpointBackupModel>,
}

impl DeepView for TurnRedoBackup {
    type V = TurnRedoBackupModel;

    open spec fn deep_view(&self) -> TurnRedoBackupModel {
        TurnRedoBackupModel {
            status: self.status.deep_view(),
            user_content: self.user_content.deep_view(),
            display_content: self.display_content.deep_view(),
            followup_content: self.followup_content.deep_view(),
            followup_display_content: self.followup_display_content.deep_view(),
            followup_context_content: self.followup_context_content.deep_view(),
            assistant_content: self.assistant_content.deep_view(),
            assistant_reasoning: self.assistant_reasoning.deep_view(),
            assistant_provider_id: self.assistant_provider_id.deep_view(),
            assistant_model: self.assistant_model.deep_view(),
            assistant_timestamp: self.assistant_timestamp.deep_view(),
            tool_reports: self.tool_reports.deep_view(),
            owner_pid: self.owner_pid.deep_view(),
            queue_session_id: self.queue_session_id.deep_view(),
            token_total: self.token_total,
            token_prompt: self.token_prompt,
            token_cache_read: self.token_cache_read,
            token_usage_estimated: self.token_usage_estimated,
            loaded_items: self.loaded_items.deep_view(),
            consumed_prompt_ids: self.consumed_prompt_ids.deep_view(),
            checkpoint: self.checkpoint.deep_view(),
        }
    }
}

impl Row for TurnRedoBackup {
    fn dup(&self) -> (copy: Self) {
        TurnRedoBackup {
            status: self.status.dup(),
            user_content: self.user_content.dup(),
            display_content: self.display_content.dup(),
            followup_content: self.followup_content.dup(),
            followup_display_content: self.followup_display_content.dup(),
            followup_context_content: self.followup_context_content.dup(),
            assistant_content: self.assistant_content.dup(),
            assistant_reasoning: self.assistant_reasoning.dup(),
            assistant_provider_id: self.assistant_provider_id.dup(),
            assistant_model: self.assistant_model.dup(),
            assistant_timestamp: self.assistant_timestamp.dup(),
            tool_reports: self.tool_reports.dup(),
            owner_pid: self.owner_pid.dup(),
            queue_session_id: self.queue_session_id.dup(),
            token_total: self.token_total,
            token_prompt: self.token_prompt,
            token_cache_read: self.token_cache_read,
            token_usage_estimated: self.token_usage_estimated,
            loaded_items: self.loaded_items.dup(),
            consumed_prompt_ids: self.consumed_prompt_ids.dup(),
            checkpoint: self.checkpoint.dup(),
        }
    }
}

/// An image that a turn produced.
pub struct ImageAsset {
    pub asset_id: String,
    pub turn_id: String,
    pub tool_id: Option<String>,
    pub mime: String,
    pub width: u32,
    pub height: u32,
    pub alt: String,
    pub created_at: String,
}

/// The model of [`ImageAsset`].
#[verifier::ext_equal]
pub struct ImageAssetModel {
    pub asset_id: Seq<char>,
    pub turn_id: Seq<char>,
    pub tool_id: Option<Seq<char>>,
    pub mime: Seq<char>,
    pub width: u32,
    pub height: u32,
    pub alt: Seq<char>,
    pub created_at: Seq<char>,
}

impl DeepView for ImageAsset {
    type V = ImageAssetModel;

    open spec fn deep_view(&self) -> ImageAssetModel {
        ImageAssetModel {
            asset_id: self.asset_id.deep_view(),
            turn_id: self.turn_id.deep_view(),
            tool_id: self.tool_id.deep_view(),
            mime: self.mime.deep_view(),
            width: self.width,
            height: self.height,
            alt: self.alt.deep_view(),
            created_at: self.created_at.deep_view(),
        }
    }
}

impl Row for ImageAsset {
    fn dup(&self) -> (copy: Self) {
        ImageAsset {
            asset_id: self.asset_id.dup(),
            turn_id: self.turn_id.dup(),
            tool_id: self.tool_id.dup(),
            mime: self.mime.dup(),
            width: self.width,
            height: self.height,
            alt: self.alt.dup(),
            created_at: self.created_at.dup(),
        }
    }
}

/// An image with its bytes.
pub struct ImageAssetData {
    pub asset: ImageAsset,
    pub bytes: Vec<u8>,
}

/// The model of [`ImageAssetData`].
#[verifier::ext_equal]
pub struct ImageAssetDataModel {
    pub asset: ImageAssetModel,
    pub bytes: Seq<u8>,
}

impl DeepView for ImageAssetData {
    type V = ImageAssetDataModel;

    open spec fn deep_view(&self) -> ImageAssetDataModel {
        ImageAssetDataModel {
            asset: self.asset.deep_view(),
            bytes: self.bytes.deep_view(),
        }
    }
}

impl Row for ImageAssetData {
    fn dup(&self) -> (copy: Self) {
        ImageAssetData {
            asset: self.asset.dup(),
            bytes: self.bytes.dup(),
        }
    }
}

/// A file that a turn produced.
pub struct ArtifactAsset {
    pub asset_id: String,
    pub turn_id: String,
    pub tool_id: Option<String>,
    pub source_key: String,
    pub file_name: String,
    pub mime: String,
    pub kind: String,
    pub size_bytes: u64,
    pub created_at: String,
    pub updated_at: String,
}

/// The model of [`ArtifactAsset`].
#[verifier::ext_equal]
pub struct ArtifactAssetModel {
    pub asset_id: Seq<char>,
    pub turn_id: Seq<char>,
    pub tool_id: Option<Seq<char>>,
    pub source_key: Seq<char>,
    pub file_name: Seq<char>,
    pub mime: Seq<char>,
    pub kind: Seq<char>,
    pub size_bytes: u64,
    pub created_at: Seq<char>,
    pub updated_at: Seq<char>,
}

impl DeepView for ArtifactAsset {
    type V = ArtifactAssetModel;

    open spec fn deep_view(&self) -> ArtifactAssetModel {
        ArtifactAssetModel {
            asset_id: self.asset_id.deep_view(),
            turn_id: self.turn_id.deep_view(),
            tool_id: self.tool_id.deep_view(),
            source_key: self.source_key.deep_view(),
            file_name: self.file_name.deep_view(),
            mime: self.mime.deep_view(),
            kind: self.kind.deep_view(),
            size_bytes: self.size_bytes,
            created_at: self.created_at.deep_view(),
            updated_at: self.updated_at.deep_view(),
        }
    }
}

impl Row for ArtifactAsset {
    fn dup(&self) -> (copy: Self) {
        ArtifactAsset {
            asset_id: self.asset_id.dup(),
            turn_id: self.turn_id.dup(),
            tool_id: self.tool_id.dup(),
            source_key: self.source_key.dup(),
            file_name: self.file_name.dup(),
            mime: self.mime.dup(),
            kind: self.kind.dup(),
            size_bytes: self.size_bytes,
            created_at: self.created_at.dup(),
            updated_at: self.updated_at.dup(),
        }
    }
}

/// A produced file with its bytes.
pub struct ArtifactAssetData {
    pub asset: ArtifactAsset,
    pub bytes: Vec<u8>,
}

/// The model of [`ArtifactAssetData`].
#[verifier::ext_equal]
pub struct ArtifactAssetDataModel {
    pub asset: ArtifactAssetModel,
    pub bytes: Seq<u8>,
}

impl DeepView for ArtifactAssetData {
    type V = ArtifactAssetDataModel;

    open spec fn deep_view(&self) -> ArtifactAssetDataModel {
        ArtifactAssetDataModel {
            asset: self.asset.deep_view(),
            bytes: self.bytes.deep_view(),
        }
    }
}

impl Row for ArtifactAssetData {
    fn dup(&self) -> (copy: Self) {
        ArtifactAssetData {
            asset: self.asset.dup(),
            bytes: self.bytes.dup(),
        }
    }
}

/// A session as its users see it.
pub struct SessionRecord {
    pub session_id: String,
    pub persona: String,
    pub name: String,
    pub kind: String,
    pub parent_session_id: Option<String>,
    pub workspace: Option<String>,
    pub archived: bool,
    pub created_at: String,
    pub updated_at: String,
}

/// The model of [`SessionRecord`].
#[verifier::ext_equal]
pub struct SessionRecordModel {
    pub session_id: Seq<char>,
    pub persona: Seq<char>,
    pub name: Seq<char>,
    pub kind: Seq<char>,
    pub parent_session_id: Option<Seq<char>>,
    pub workspace: Option<Seq<char>>,
    pub archived: bool,
    pub created_at: Seq<char>,
    pub updated_at: Seq<char>,
}

impl DeepView for SessionRecord {
    type V = SessionRecordModel;

    open spec fn deep_view(&self) -> SessionRecordModel {
        SessionRecordModel {
            session_id: self.session_id.deep_view(),
            persona: self.persona.deep_view(),
            name: self.name.deep_view(),
            kind: self.kind.deep_view(),
            parent_session_id: self.parent_session_id.deep_view(),
            workspace: self.workspace.deep_view(),
            archived: self.archived,
            created_at: self.created_at.deep_view(),
            updated_at: self.updated_at.deep_view(),
        }
    }
}

impl Row for SessionRecord {
    fn dup(&self) -> (copy: Self) {
        SessionRecord {
            session_id: self.session_id.dup(),
            persona: self.persona.dup(),
            name: self.name.dup(),
            kind: self.kind.dup(),
            parent_session_id: self.parent_session_id.dup(),
            workspace: self.workspace.dup(),
            archived: self.archived,
            created_at: self.created_at.dup(),
            updated_at: self.updated_at.dup(),
        }
    }
}

/// A session with the size and the last prompt of its visible history.
pub struct SessionOverview {
    pub record: SessionRecord,
    pub turn_count: usize,
    pub last_user_content: Option<String>,
}

/// The model of [`SessionOverview`].
#[verifier::ext_equal]
pub struct SessionOverviewModel {
    pub record: SessionRecordModel,
    pub turn_count: usize,
    pub last_user_content: Option<Seq<char>>,
}

impl DeepView for SessionOverview {
    type V = SessionOverviewModel;

    open spec fn deep_view(&self) -> SessionOverviewModel {
        SessionOverviewModel {
            record: self.record.deep_view(),
            turn_count: self.turn_count,
            last_user_content: self.last_user_content.deep_view(),
        }
    }
}

impl Row for SessionOverview {
    fn dup(&self) -> (copy: Self) {
        SessionOverview {
            record: self.record.dup(),
            turn_count: self.turn_count,
            last_user_content: self.last_user_content.dup(),
        }
    }
}

/// The identity of a conversation on a messaging platform.
pub struct PlatformSessionBindingKey {
    pub platform: String,
    pub account_id: String,
    pub conversation_kind: String,
    pub conversation_id: String,
    pub participant_id: Option<String>,
    pub persona: String,
}

/// The model of [`PlatformSessionBindingKey`].
#[verifier::ext_equal]
pub struct PlatformSessionBindingKeyModel {
    pub platform: Seq<char>,
    pub account_id: Seq<char>,
    pub conversation_kind: Seq<char>,
    pub conversation_id: Seq<char>,
    pub participant_id: Option<Seq<char>>,
    pub persona: Seq<char>,
}

impl DeepView for PlatformSessionBindingKey {
    type V = PlatformSessionBindingKeyModel;

    open spec fn deep_view(&self) -> PlatformSessionBindingKeyModel {
        PlatformSessionBindingKeyModel {
            platform: self.platform.deep_view(),
            account_id: self.account_id.deep_view(),
            conversation_kind: self.conversation_kind.deep_view(),
            conversation_id: self.conversation_id.deep_view(),
            participant_id: self.participant_id.deep_view(),
            persona: self.persona.deep_view(),
        }
    }
}

impl Row for PlatformSessionBindingKey {
    fn dup(&self) -> (copy: Self) {
        PlatformSessionBindingKey {
            platform: self.platform.dup(),
            account_id: self.account_id.dup(),
            conversation_kind: self.conversation_kind.dup(),
            conversation_id: self.conversation_id.dup(),
            participant_id: self.participant_id.dup(),
            persona: self.persona.dup(),
        }
    }
}

/// A conversation on a messaging platform and the session that holds it.
pub struct PlatformSessionBinding {
    pub key: PlatformSessionBindingKey,
    pub session_id: String,
}

/// The model of [`PlatformSessionBinding`].
#[verifier::ext_equal]
pub struct PlatformSessionBindingModel {
    pub key: PlatformSessionBindingKeyModel,
    pub session_id: Seq<char>,
}

impl DeepView for PlatformSessionBinding {
    type V = PlatformSessionBindingModel;

    open spec fn deep_view(&self) -> PlatformSessionBindingModel {
        PlatformSessionBindingModel {
            key: self.key.deep_view(),
            session_id: self.session_id.deep_view(),
        }
    }
}

impl Row for PlatformSessionBinding {
    fn dup(&self) -> (copy: Self) {
        PlatformSessionBinding {
            key: self.key.dup(),
            session_id: self.session_id.dup(),
        }
    }
}

/// Where a plugin keeps its state.
pub struct PlatformPluginScopeKey {
    pub plugin_id: String,
    pub platform: String,
    pub account_id: String,
    pub conversation_kind: String,
    pub conversation_id: String,
}

/// The model of [`PlatformPluginScopeKey`].
#[verifier::ext_equal]
pub struct PlatformPluginScopeKeyModel {
    pub plugin_id: Seq<char>,
    pub platform: Seq<char>,
    pub account_id: Seq<char>,
    pub conversation_kind: Seq<char>,
    pub conversation_id: Seq<char>,
}

impl DeepView for PlatformPluginScopeKey {
    type V = PlatformPluginScopeKeyModel;

    open spec fn deep_view(&self) -> PlatformPluginScopeKeyModel {
        PlatformPluginScopeKeyModel {
            plugin_id: self.plugin_id.deep_view(),
            platform: self.platform.deep_view(),
            account_id: self.account_id.deep_view(),
            conversation_kind: self.conversation_kind.deep_view(),
            conversation_id: self.conversation_id.deep_view(),
        }
    }
}

impl Row for PlatformPluginScopeKey {
    fn dup(&self) -> (copy: Self) {
        PlatformPluginScopeKey {
            plugin_id: self.plugin_id.dup(),
            platform: self.platform.dup(),
            account_id: self.account_id.dup(),
            conversation_kind: self.conversation_kind.dup(),
            conversation_id: self.conversation_id.dup(),
        }
    }
}

/// Who may do what on a platform.
pub struct PlatformAccessGrantKey {
    pub platform: String,
    pub account_scope: String,
    pub permission: String,
    pub subject_kind: String,
    pub subject_id: String,
}

/// The model of [`PlatformAccessGrantKey`].
#[verifier::ext_equal]
pub struct PlatformAccessGrantKeyModel {
    pub platform: Seq<char>,
    pub account_scope: Seq<char>,
    pub permission: Seq<char>,
    pub subject_kind: Seq<char>,
    pub subject_id: Seq<char>,
}

impl DeepView for PlatformAccessGrantKey {
    type V = PlatformAccessGrantKeyModel;

    open spec fn deep_view(&self) -> PlatformAccessGrantKeyModel {
        PlatformAccessGrantKeyModel {
            platform: self.platform.deep_view(),
            account_scope: self.account_scope.deep_view(),
            permission: self.permission.deep_view(),
            subject_kind: self.subject_kind.deep_view(),
            subject_id: self.subject_id.deep_view(),
        }
    }
}

impl Row for PlatformAccessGrantKey {
    fn dup(&self) -> (copy: Self) {
        PlatformAccessGrantKey {
            platform: self.platform.dup(),
            account_scope: self.account_scope.dup(),
            permission: self.permission.dup(),
            subject_kind: self.subject_kind.dup(),
            subject_id: self.subject_id.dup(),
        }
    }
}

/// Who granted or revoked an access, and where.
pub struct PlatformAccessActor {
    pub platform: String,
    pub account_id: String,
    pub user_id: String,
    pub conversation_kind: String,
    pub conversation_id: String,
    pub message_id: String,
}

/// The model of [`PlatformAccessActor`].
#[verifier::ext_equal]
pub struct PlatformAccessActorModel {
    pub platform: Seq<char>,
    pub account_id: Seq<char>,
    pub user_id: Seq<char>,
    pub conversation_kind: Seq<char>,
    pub conversation_id: Seq<char>,
    pub message_id: Seq<char>,
}

impl DeepView for PlatformAccessActor {
    type V = PlatformAccessActorModel;

    open spec fn deep_view(&self) -> PlatformAccessActorModel {
        PlatformAccessActorModel {
            platform: self.platform.deep_view(),
            account_id: self.account_id.deep_view(),
            user_id: self.user_id.deep_view(),
            conversation_kind: self.conversation_kind.deep_view(),
            conversation_id: self.conversation_id.deep_view(),
            message_id: self.message_id.deep_view(),
        }
    }
}

impl Row for PlatformAccessActor {
    fn dup(&self) -> (copy: Self) {
        PlatformAccessActor {
            platform: self.platform.dup(),
            account_id: self.account_id.dup(),
            user_id: self.user_id.dup(),
            conversation_kind: self.conversation_kind.dup(),
            conversation_id: self.conversation_id.dup(),
            message_id: self.message_id.dup(),
        }
    }
}

/// A granted access.
pub struct PlatformAccessGrant {
    pub key: PlatformAccessGrantKey,
    pub granted_by: PlatformAccessActor,
    pub created_at: String,
}

/// The model of [`PlatformAccessGrant`].
#[verifier::ext_equal]
pub struct PlatformAccessGrantModel {
    pub key: PlatformAccessGrantKeyModel,
    pub granted_by: PlatformAccessActorModel,
    pub created_at: Seq<char>,
}

impl DeepView for PlatformAccessGrant {
    type V = PlatformAccessGrantModel;

    open spec fn deep_view(&self) -> PlatformAccessGrantModel {
        PlatformAccessGrantModel {
            key: self.key.deep_view(),
            granted_by: self.granted_by.deep_view(),
            created_at: self.created_at.deep_view(),
        }
    }
}

impl Row for PlatformAccessGrant {
    fn dup(&self) -> (copy: Self) {
        PlatformAccessGrant {
            key: self.key.dup(),
            granted_by: self.granted_by.dup(),
            created_at: self.created_at.dup(),
        }
    }
}

/// One turn to be drawn again: the prompt, and the transcript or the final reply.
pub struct TurnReplay {
    pub display_content: String,
    pub assistant_content: String,
    pub entries: Vec<ReplayEntry>,
    /// Whether the turn follows up on a finished background job.
    pub is_job_wake: bool,
}

/// The model of [`TurnReplay`].
#[verifier::ext_equal]
pub struct TurnReplayModel {
    pub display_content: Seq<char>,
    pub assistant_content: Seq<char>,
    pub entries: Seq<ReplayEntryModel>,
    pub is_job_wake: bool,
}

impl DeepView for TurnReplay {
    type V = TurnReplayModel;

    open spec fn deep_view(&self) -> TurnReplayModel {
        TurnReplayModel {
            display_content: self.display_content.deep_view(),
            assistant_content: self.assistant_content.deep_view(),
            entries: self.entries.deep_view(),
            is_job_wake: self.is_job_wake,
        }
    }
}

impl Row for TurnReplay {
    fn dup(&self) -> (copy: Self) {
        TurnReplay {
            display_content: self.display_content.dup(),
            assistant_content: self.assistant_content.dup(),
            entries: self.entries.dup(),
            is_job_wake: self.is_job_wake,
        }
    }
}

/// Where a prompt for a running turn is queued.
pub struct RunningTurnQueueTarget {
    pub turn_id: String,
    pub queue_session_id: Option<String>,
    pub owner_pid: Option<u32>,
}

/// The model of [`RunningTurnQueueTarget`].
#[verifier::ext_equal]
pub struct RunningTurnQueueTargetModel {
    pub turn_id: Seq<char>,
    pub queue_session_id: Option<Seq<char>>,
    pub owner_pid: Option<u32>,
}

impl DeepView for RunningTurnQueueTarget {
    type V = RunningTurnQueueTargetModel;

    open spec fn deep_view(&self) -> RunningTurnQueueTargetModel {
        RunningTurnQueueTargetModel {
            turn_id: self.turn_id.deep_view(),
            queue_session_id: self.queue_session_id.deep_view(),
            owner_pid: self.owner_pid.deep_view(),
        }
    }
}

impl Row for RunningTurnQueueTarget {
    fn dup(&self) -> (copy: Self) {
        RunningTurnQueueTarget {
            turn_id: self.turn_id.dup(),
            queue_session_id: self.queue_session_id.dup(),
            owner_pid: self.owner_pid.dup(),
        }
    }
}

} // verus!
