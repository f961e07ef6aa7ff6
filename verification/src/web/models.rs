//! What requests hold and what pages are shown.

use crate::state::types::{QuestionExchange, QuestionExchangeModel};
use crate::table::Row;
use vstd::prelude::*;

verus! {

/// One of the answers that a question offers.
pub struct QuestionOption {
    pub label: String,
    pub description: String,
}

/// The model of [`QuestionOption`].
#[verifier::ext_equal]
pub struct QuestionOptionModel {
    pub label: Seq<char>,
    pub description: Seq<char>,
}

impl DeepView for QuestionOption {
    type V = QuestionOptionModel;

    open spec fn deep_view(&self) -> QuestionOptionModel {
        QuestionOptionModel {
            label: self.label.deep_view(),
            description: self.description.deep_view(),
        }
    }
}

impl Row for QuestionOption {
    fn dup(&self) -> (copy: Self) {
        QuestionOption {
            label: self.label.dup(),
            description: self.description.dup(),
        }
    }
}

/// A question to the user.
pub struct QuestionPrompt {
    pub header: String,
    pub question: String,
    pub options: Vec<QuestionOption>,
    /// Whether more than one answer may be given.
    pub multiple: bool,
    /// Whether an answer may be given that is not offered.
    pub custom: bool,
}

/// The model of [`QuestionPrompt`].
#[verifier::ext_equal]
pub struct QuestionPromptModel {
    pub header: Seq<char>,
    pub question: Seq<char>,
    pub options: Seq<QuestionOptionModel>,
    pub multiple: bool,
    pub custom: bool,
}

impl DeepView for QuestionPrompt {
    type V = QuestionPromptModel;

    open spec fn deep_view(&self) -> QuestionPromptModel {
        QuestionPromptModel {
            header: self.header.deep_view(),
            question: self.question.deep_view(),
            options: self.options.deep_view(),
            multiple: self.multiple,
            custom: self.custom,
        }
    }
}

impl Row for QuestionPrompt {
    fn dup(&self) -> (copy: Self) {
        QuestionPrompt {
            header: self.header.dup(),
            question: self.question.dup(),
            options: self.options.dup(),
            multiple: self.multiple,
            custom: self.custom,
        }
    }
}

/// Questions that are asked together.
pub struct QuestionRequest {
    pub questions: Vec<QuestionPrompt>,
}

/// The model of [`QuestionRequest`].
#[verifier::ext_equal]
pub struct QuestionRequestModel {
    pub questions: Seq<QuestionPromptModel>,
}

impl DeepView for QuestionRequest {
    type V = QuestionRequestModel;

    open spec fn deep_view(&self) -> QuestionRequestModel {
        QuestionRequestModel {
            questions: self.questions.deep_view(),
        }
    }
}

impl Row for QuestionRequest {
    fn dup(&self) -> (copy: Self) {
        QuestionRequest {
            questions: self.questions.dup(),
        }
    }
}

/// A picture that came with a message.
pub struct WebImageInput {
    pub mime: String,
    pub data_base64: String,
}

/// The model of [`WebImageInput`].
#[verifier::ext_equal]
pub struct WebImageInputModel {
    pub mime: Seq<char>,
    pub data_base64: Seq<char>,
}

impl DeepView for WebImageInput {
    type V = WebImageInputModel;

    open spec fn deep_view(&self) -> WebImageInputModel {
        WebImageInputModel {
            mime: self.mime.deep_view(),
            data_base64: self.data_base64.deep_view(),
        }
    }
}

impl Row for WebImageInput {
    fn dup(&self) -> (copy: Self) {
        WebImageInput {
            mime: self.mime.dup(),
            data_base64: self.data_base64.dup(),
        }
    }
}

/// A picture with its bytes.
pub struct PastedImage {
    pub mime: String,
    pub data: Vec<u8>,
}

/// The model of [`PastedImage`].
#[verifier::ext_equal]
pub struct PastedImageModel {
    pub mime: Seq<char>,
    pub data: Seq<u8>,
}

impl DeepView for PastedImage {
    type V = PastedImageModel;

    open spec fn deep_view(&self) -> PastedImageModel {
        PastedImageModel {
            mime: self.mime.deep_view(),
            data: self.data.deep_view(),
        }
    }
}

impl Row for PastedImage {
    fn dup(&self) -> (copy: Self) {
        PastedImage {
            mime: self.mime.dup(),
            data: self.data.dup(),
        }
    }
}

/// A model and the provider that serves it.
pub struct ActiveProviderModelConfig {
    pub provider_id: String,
    pub model: String,
}

/// The model of [`ActiveProviderModelConfig`].
#[verifier::ext_equal]
pub struct ActiveProviderModelConfigModel {
    pub provider_id: Seq<char>,
    pub model: Seq<char>,
}

impl DeepView for ActiveProviderModelConfig {
    type V = ActiveProviderModelConfigModel;

    open spec fn deep_view(&self) -> ActiveProviderModelConfigModel {
        ActiveProviderModelConfigModel {
            provider_id: self.provider_id.deep_view(),
            model: self.model.deep_view(),
        }
    }
}

impl Row for ActiveProviderModelConfig {
    fn dup(&self) -> (copy: Self) {
        ActiveProviderModelConfig {
            provider_id: self.provider_id.dup(),
            model: self.model.dup(),
        }
    }
}

/// A picture of a turn, as a page shows it.
pub struct SafeImageAsset {
    pub id: String,
    pub url: String,
    pub mime: String,
    pub width: u32,
    pub height: u32,
    pub alt: String,
    pub hide_caption: bool,
    /// `user` where the user sent it, `tool` where a tool made it.
    pub source: String,
}

/// The model of [`SafeImageAsset`].
#[verifier::ext_equal]
pub struct SafeImageAssetModel {
    pub id: Seq<char>,
    pub url: Seq<char>,
    pub mime: Seq<char>,
    pub width: u32,
    pub height: u32,
    pub alt: Seq<char>,
    pub hide_caption: bool,
    pub source: Seq<char>,
}

impl DeepView for SafeImageAsset {
    type V = SafeImageAssetModel;

    open spec fn deep_view(&self) -> SafeImageAssetModel {
        SafeImageAssetModel {
            id: self.id.deep_view(),
            url: self.url.deep_view(),
            mime: self.mime.deep_view(),
            width: self.width,
            height: self.height,
            alt: self.alt.deep_view(),
            hide_caption: self.hide_caption,
            source: self.source.deep_view(),
        }
    }
}

impl Row for SafeImageAsset {
    fn dup(&self) -> (copy: Self) {
        SafeImageAsset {
            id: self.id.dup(),
            url: self.url.dup(),
            mime: self.mime.dup(),
            width: self.width,
            height: self.height,
            alt: self.alt.dup(),
            hide_caption: self.hide_caption,
            source: self.source.dup(),
        }
    }
}

/// A follow-up of a turn, as a page shows it.
pub struct SafeFollowup {
    pub id: String,
    pub content: String,
    pub submitted_at: String,
    pub preceding_assistant_content: Option<String>,
    pub preceding_assistant_reasoning: Option<String>,
    pub provider_id: Option<String>,
    pub model: Option<String>,
}

/// The model of [`SafeFollowup`].
#[verifier::ext_equal]
pub struct SafeFollowupModel {
    pub id: Seq<char>,
    pub content: Seq<char>,
    pub submitted_at: Seq<char>,
    pub preceding_assistant_content: Option<Seq<char>>,
    pub preceding_assistant_reasoning: Option<Seq<char>>,
    pub provider_id: Option<Seq<char>>,
    pub model: Option<Seq<char>>,
}

impl DeepView for SafeFollowup {
    type V = SafeFollowupModel;

    open spec fn deep_view(&self) -> SafeFollowupModel {
        SafeFollowupModel {
            id: self.id.deep_view(),
            content: self.content.deep_view(),
            submitted_at: self.submitted_at.deep_view(),
            preceding_assistant_content: self.preceding_assistant_content.deep_view(),
            preceding_assistant_reasoning: self.preceding_assistant_reasoning.deep_view(),
            provider_id: self.provider_id.deep_view(),
            model: self.model.deep_view(),
        }
    }
}

impl Row for SafeFollowup {
    fn dup(&self) -> (copy: Self) {
        SafeFollowup {
            id: self.id.dup(),
            content: self.content.dup(),
            submitted_at: self.submitted_at.dup(),
            preceding_assistant_content: self.preceding_assistant_content.dup(),
            preceding_assistant_reasoning: self.preceding_assistant_reasoning.dup(),
            provider_id: self.provider_id.dup(),
            model: self.model.dup(),
        }
    }
}

/// A prompt that waits, as a page shows it.
pub struct SafeQueuedPrompt {
    pub id: String,
    pub content: String,
    pub submitted_at: String,
}

/// The model of [`SafeQueuedPrompt`].
#[verifier::ext_equal]
pub struct SafeQueuedPromptModel {
    pub id: Seq<char>,
    pub content: Seq<char>,
    pub submitted_at: Seq<char>,
}

impl DeepView for SafeQueuedPrompt {
    type V = SafeQueuedPromptModel;

    open spec fn deep_view(&self) -> SafeQueuedPromptModel {
        SafeQueuedPromptModel {
            id: self.id.deep_view(),
            content: self.content.deep_view(),
            submitted_at: self.submitted_at.deep_view(),
        }
    }
}

impl Row for SafeQueuedPrompt {
    fn dup(&self) -> (copy: Self) {
        SafeQueuedPrompt {
            id: self.id.dup(),
            content: self.content.dup(),
            submitted_at: self.submitted_at.dup(),
        }
    }
}

/// A turn, as a page shows it.
pub struct SafeTurn {
    pub id: String,
    pub seq: i64,
    pub status: String,
    pub active_context: bool,
    pub user_content: String,
    pub assistant_content: String,
    pub assistant_reasoning: Option<String>,
    pub provider_id: Option<String>,
    pub model: Option<String>,
    pub user_timestamp: String,
    pub assistant_timestamp: Option<String>,
    pub token_total: u64,
    pub token_usage_estimated: bool,
    pub question_exchanges: Vec<QuestionExchange>,
    pub followups: Vec<SafeFollowup>,
    pub assets: Vec<SafeImageAsset>,
}

/// The model of [`SafeTurn`].
#[verifier::ext_equal]
pub struct SafeTurnModel {
    pub id: Seq<char>,
    pub seq: i64,
    pub status: Seq<char>,
    pub active_context: bool,
    pub user_content: Seq<char>,
    pub assistant_content: Seq<char>,
    pub assistant_reasoning: Option<Seq<char>>,
    pub provider_id: Option<Seq<char>>,
    pub model: Option<Seq<char>>,
    pub user_timestamp: Seq<char>,
    pub assistant_timestamp: Option<Seq<char>>,
    pub token_total: u64,
    pub token_usage_estimated: bool,
    pub question_exchanges: Seq<QuestionExchangeModel>,
    pub followups: Seq<SafeFollowupModel>,
    pub assets: Seq<SafeImageAssetModel>,
}

impl DeepView for SafeTurn {
    type V = SafeTurnModel;

    open spec fn deep_view(&self) -> SafeTurnModel {
        SafeTurnModel {
            id: self.id.deep_view(),
            seq: self.seq,
            status: self.status.deep_view(),
            active_context: self.active_context,
            user_content: self.user_content.deep_view(),
            assistant_content: self.assistant_content.deep_view(),
            assistant_reasoning: self.assistant_reasoning.deep_view(),
            provider_id: self.provider_id.deep_view(),
            model: self.model.deep_view(),
            user_timestamp: self.user_timestamp.deep_view(),
            assistant_timestamp: self.assistant_timestamp.deep_view(),
            token_total: self.token_total,
            token_usage_estimated: self.token_usage_estimated,
            question_exchanges: self.question_exchanges.deep_view(),
            followups: self.followups.deep_view(),
            assets: self.assets.deep_view(),
        }
    }
}

impl Row for SafeTurn {
    fn dup(&self) -> (copy: Self) {
        SafeTurn {
            id: self.id.dup(),
            seq: self.seq,
            status: self.status.dup(),
            active_context: self.active_context,
            user_content: self.user_content.dup(),
            assistant_content: self.assistant_content.dup(),
            assistant_reasoning: self.assistant_reasoning.dup(),
            provider_id: self.provider_id.dup(),
            model: self.model.dup(),
            user_timestamp: self.user_timestamp.dup(),
            assistant_timestamp: self.assistant_timestamp.dup(),
            token_total: self.token_total,
            token_usage_estimated: self.token_usage_estimated,
            question_exchanges: self.question_exchanges.dup(),
            followups: self.followups.dup(),
            assets: self.assets.dup(),
        }
    }
}

/// The last turn of a channel.
pub struct ChannelRecent {
    pub user_content: String,
    pub assistant_content: String,
    pub user_timestamp: String,
    pub assistant_timestamp: Option<String>,
    pub status: String,
}

/// The model of [`ChannelRecent`].
#[verifier::ext_equal]
pub struct ChannelRecentModel {
    pub user_content: Seq<char>,
    pub assistant_content: Seq<char>,
    pub user_timestamp: Seq<char>,
    pub assistant_timestamp: Option<Seq<char>>,
    pub status: Seq<char>,
}

impl DeepView for ChannelRecent {
    type V = ChannelRecentModel;

    open spec fn deep_view(&self) -> ChannelRecentModel {
        ChannelRecentModel {
            user_content: self.user_content.deep_view(),
            assistant_content: self.assistant_content.deep_view(),
            user_timestamp: self.user_timestamp.deep_view(),
            assistant_timestamp: self.assistant_timestamp.deep_view(),
            status: self.status.deep_view(),
        }
    }
}

impl Row for ChannelRecent {
    fn dup(&self) -> (copy: Self) {
        ChannelRecent {
            user_content: self.user_content.dup(),
            assistant_content: self.assistant_content.dup(),
            user_timestamp: self.user_timestamp.dup(),
            assistant_timestamp: self.assistant_timestamp.dup(),
            status: self.status.dup(),
        }
    }
}

/// What is known of a channel.
pub struct ChannelSummary {
    pub channel: String,
    pub turn_count: u64,
    pub last_seq: i64,
    pub recent: Option<ChannelRecent>,
}

/// The model of [`ChannelSummary`].
#[verifier::ext_equal]
pub struct ChannelSummaryModel {
    pub channel: Seq<char>,
    pub turn_count: u64,
    pub last_seq: i64,
    pub recent: Option<ChannelRecentModel>,
}

impl DeepView for ChannelSummary {
    type V = ChannelSummaryModel;

    open spec fn deep_view(&self) -> ChannelSummaryModel {
        ChannelSummaryModel {
            channel: self.channel.deep_view(),
            turn_count: self.turn_count,
            last_seq: self.last_seq,
            recent: self.recent.deep_view(),
        }
    }
}

impl Row for ChannelSummary {
    fn dup(&self) -> (copy: Self) {
        ChannelSummary {
            channel: self.channel.dup(),
            turn_count: self.turn_count,
            last_seq: self.last_seq,
            recent: self.recent.dup(),
        }
    }
}

/// A channel, as a page lists it.
pub struct SafeChannelSummary {
    pub id: String,
    pub turn_count: u64,
    pub last_seq: i64,
    pub title: String,
    pub snippet: String,
    pub timestamp: Option<String>,
    pub running: bool,
}

/// The model of [`SafeChannelSummary`].
#[verifier::ext_equal]
pub struct SafeChannelSummaryModel {
    pub id: Seq<char>,
    pub turn_count: u64,
    pub last_seq: i64,
    pub title: Seq<char>,
    pub snippet: Seq<char>,
    pub timestamp: Option<Seq<char>>,
    pub running: bool,
}

impl DeepView for SafeChannelSummary {
    type V = SafeChannelSummaryModel;

    open spec fn deep_view(&self) -> SafeChannelSummaryModel {
        SafeChannelSummaryModel {
            id: self.id.deep_view(),
            turn_count: self.turn_count,
            last_seq: self.last_seq,
            title: self.title.deep_view(),
            snippet: self.snippet.deep_view(),
            timestamp: self.timestamp.deep_view(),
            running: self.running,
        }
    }
}

impl Row for SafeChannelSummary {
    fn dup(&self) -> (copy: Self) {
        SafeChannelSummary {
            id: self.id.dup(),
            turn_count: self.turn_count,
            last_seq: self.last_seq,
            title: self.title.dup(),
            snippet: self.snippet.dup(),
            timestamp: self.timestamp.dup(),
            running: self.running,
        }
    }
}

/// How replies are shown.
pub struct DisplayConfig {
    pub reasoning: String,
    pub tool_calls: String,
    pub readable_tool_names: bool,
    pub command_output_lines: usize,
    pub mixed_model_endpoint_display: String,
}

/// The model of [`DisplayConfig`].
#[verifier::ext_equal]
pub struct DisplayConfigModel {
    pub reasoning: Seq<char>,
    pub tool_calls: Seq<char>,
    pub readable_tool_names: bool,
    pub command_output_lines: usize,
    pub mixed_model_endpoint_display: Seq<char>,
}

impl DeepView for DisplayConfig {
    type V = DisplayConfigModel;

    open spec fn deep_view(&self) -> DisplayConfigModel {
        DisplayConfigModel {
            reasoning: self.reasoning.deep_view(),
            tool_calls: self.tool_calls.deep_view(),
            readable_tool_names: self.readable_tool_names,
            command_output_lines: self.command_output_lines,
            mixed_model_endpoint_display: self.mixed_model_endpoint_display.deep_view(),
        }
    }
}

impl Row for DisplayConfig {
    fn dup(&self) -> (copy: Self) {
        DisplayConfig {
            reasoning: self.reasoning.dup(),
            tool_calls: self.tool_calls.dup(),
            readable_tool_names: self.readable_tool_names,
            command_output_lines: self.command_output_lines,
            mixed_model_endpoint_display: self.mixed_model_endpoint_display.dup(),
        }
    }
}

/// How replies are shown on a page.
pub struct WebDisplayConfig {
    pub reasoning: String,
    pub tool_calls: String,
    pub readable_tool_names: bool,
    pub command_output_lines: usize,
    pub mixed_model_endpoint_display: String,
    pub show_mixed_model_endpoint: bool,
}

/// The model of [`WebDisplayConfig`].
#[verifier::ext_equal]
pub struct WebDisplayConfigModel {
    pub reasoning: Seq<char>,
    pub tool_calls: Seq<char>,
    pub readable_tool_names: bool,
    pub command_output_lines: usize,
    pub mixed_model_endpoint_display: Seq<char>,
    pub show_mixed_model_endpoint: bool,
}

impl DeepView for WebDisplayConfig {
    type V = WebDisplayConfigModel;

    open spec fn deep_view(&self) -> WebDisplayConfigModel {
        WebDisplayConfigModel {
            reasoning: self.reasoning.deep_view(),
            tool_calls: self.tool_calls.deep_view(),
            readable_tool_names: self.readable_tool_names,
            command_output_lines: self.command_output_lines,
            mixed_model_endpoint_display: self.mixed_model_endpoint_display.deep_view(),
            show_mixed_model_endpoint: self.show_mixed_model_endpoint,
        }
    }
}

impl Row for WebDisplayConfig {
    fn dup(&self) -> (copy: Self) {
        WebDisplayConfig {
            reasoning: self.reasoning.dup(),
            tool_calls: self.tool_calls.dup(),
            readable_tool_names: self.readable_tool_names,
            command_output_lines: self.command_output_lines,
            mixed_model_endpoint_display: self.mixed_model_endpoint_display.dup(),
            show_mixed_model_endpoint: self.show_mixed_model_endpoint,
        }
    }
}

/// A document that a system prompt is made of.
pub struct PromptDocument {
    pub name: String,
    pub content: String,
    /// The name that it had when it was read.
    pub original_name: Option<String>,
}

/// The model of [`PromptDocument`].
#[verifier::ext_equal]
pub struct PromptDocumentModel {
    pub name: Seq<char>,
    pub content: Seq<char>,
    pub original_name: Option<Seq<char>>,
}

impl DeepView for PromptDocument {
    type V = PromptDocumentModel;

    open spec fn deep_view(&self) -> PromptDocumentModel {
        PromptDocumentModel {
            name: self.name.deep_view(),
            content: self.content.deep_view(),
            original_name: self.original_name.deep_view(),
        }
    }
}

impl Row for PromptDocument {
    fn dup(&self) -> (copy: Self) {
        PromptDocument {
            name: self.name.dup(),
            content: self.content.dup(),
            original_name: self.original_name.dup(),
        }
    }
}

/// The documents that system prompts are made of.
pub struct PromptDocuments {
    pub personas: Vec<PromptDocument>,
    pub identities: Vec<PromptDocument>,
}

/// The model of [`PromptDocuments`].
#[verifier::ext_equal]
pub struct PromptDocumentsModel {
    pub personas: Seq<PromptDocumentModel>,
    pub identities: Seq<PromptDocumentModel>,
}

impl DeepView for PromptDocuments {
    type V = PromptDocumentsModel;

    open spec fn deep_view(&self) -> PromptDocumentsModel {
        PromptDocumentsModel {
            personas: self.personas.deep_view(),
            identities: self.identities.deep_view(),
        }
    }
}

impl Row for PromptDocuments {
    fn dup(&self) -> (copy: Self) {
        PromptDocuments {
            personas: self.personas.dup(),
            identities: self.identities.dup(),
        }
    }
}

} // verus!
