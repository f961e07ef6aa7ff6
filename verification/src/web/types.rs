//! Checking what requests hold, and making turns fit to be shown.

use crate::state::journal::{
    interrupted_text, pending_placeholder, INTERRUPTED_TEXT, PENDING_PLACEHOLDER,
};
use crate::state::types::{
    ImageAsset, ImageAssetModel, QueuedPrompt, QueuedPromptAttachment, QueuedPromptAttachmentModel,
    QueuedPromptModel, Turn, TurnFollowup, TurnFollowupModel, TurnModel, TurnStatus,
};
use crate::table::{exists_row, map_rows, select, Row};
use crate::text::{control, is_control, join, joined, same, take_chars, trim, trimmed};
use crate::web::error::{checked, ApiError, ApiErrorModel, StatusCode};
use crate::web::models::{
    ActiveProviderModelConfig, ActiveProviderModelConfigModel, ChannelSummary, ChannelSummaryModel,
    DisplayConfig, DisplayConfigModel, PastedImage, PastedImageModel, SafeChannelSummary,
    SafeChannelSummaryModel, SafeFollowup, SafeFollowupModel, SafeImageAsset, SafeImageAssetModel,
    SafeQueuedPrompt, SafeQueuedPromptModel, SafeTurn, SafeTurnModel, WebDisplayConfig,
    WebDisplayConfigModel, WebImageInput, WebImageInputModel,
};
use crate::web::util::MAX_CONTENT_CHARS;
use crate::words::{
    any_char, contains, first_line, occurs, line_of, replace, replaced, some_char, starts_with, words,
    words_of,
};
use vstd::prelude::*;

verus! {

/// What a page may ask of the engine.
#[derive(Debug, Clone, Copy, PartialEq, Eq, Structural)]
pub enum PiCommandKind {
    GetState,
    GetModels,
    SetModel,
    SetThinking,
}

/// The command that a path stands for.
pub fn parse_pi_command(path: &str) -> (kind: Option<PiCommandKind>)
    ensures
        kind == if path@ == "state"@ {
            Some(PiCommandKind::GetState)
        } else if path@ == "models"@ {
            Some(PiCommandKind::GetModels)
        } else if path@ == "model"@ {
            Some(PiCommandKind::SetModel)
        } else if path@ == "thinking"@ {
            Some(PiCommandKind::SetThinking)
        } else {
            None
        },
{
    if same(path, "state") {
        Some(PiCommandKind::GetState)
    } else if same(path, "models") {
        Some(PiCommandKind::GetModels)
    } else if same(path, "model") {
        Some(PiCommandKind::SetModel)
    } else if same(path, "thinking") {
        Some(PiCommandKind::SetThinking)
    } else {
        None
    }
}

/// The bytes that `base64` reads from a text in the standard alphabet, with
/// padding, if it can.
pub uninterp spec fn base64_decoded(text: Seq<char>) -> Option<Seq<u8>>;

/// `base64`'s `STANDARD` engine; `None` stands for its error.
#[verifier::external_body]
pub(crate) fn decode_base64(text: &str) -> (bytes: Option<Vec<u8>>)
    ensures
        match bytes {
            Some(bytes) => base64_decoded(text@) == Some(bytes@),
            None => base64_decoded(text@) is None,
        },
{
    base64::Engine::decode(&base64::engine::general_purpose::STANDARD, text).ok()
}

/// A picture with its bytes, where they could be read.
pub open spec fn pasted() -> spec_fn(WebImageInputModel) -> Option<PastedImageModel> {
    |image: WebImageInputModel|
        match base64_decoded(image.data_base64) {
            Some(data) => Some(PastedImageModel { mime: image.mime, data }),
            None => None,
        }
}

fn paste(image: &WebImageInput) -> (out: Option<PastedImage>)
    ensures
        out.deep_view() == pasted()(image.deep_view()),
{
    match decode_base64(image.data_base64.as_str()) {
        Some(data) => {
            assert(data.deep_view() =~= data@);
            Some(PastedImage { mime: image.mime.clone(), data })
        },
        None => None,
    }
}

/// The pictures that came with a message, each where its bytes could be read.
pub fn pasted_images_from_input(images: &Vec<WebImageInput>) -> (out: Vec<Option<PastedImage>>)
    ensures
        out.deep_view() == images.deep_view().map_values(pasted()),
{
    map_rows(images, paste, Ghost(pasted()))
}

pub open spec fn readable() -> spec_fn(WebImageInputModel) -> bool {
    |image: WebImageInputModel| base64_decoded(image.data_base64) is Some
}

pub open spec fn as_attachment() -> spec_fn(WebImageInputModel) -> QueuedPromptAttachmentModel {
    |image: WebImageInputModel|
        QueuedPromptAttachmentModel::Binary { mime: image.mime, data_base64: image.data_base64 }
}

/// The pictures that came with a message, as a queued prompt keeps them. Those
/// that cannot be read are left out.
pub fn queued_attachments_from_input(images: &Vec<WebImageInput>) -> (out: Vec<
    QueuedPromptAttachment,
>)
    ensures
        out.deep_view() == images.deep_view().filter(readable()).map_values(as_attachment()),
{
    let fine = |image: &WebImageInput| -> (b: bool)
        ensures
            b == readable()(image.deep_view()),
        { decode_base64(image.data_base64.as_str()).is_some() };
    let attach = |image: &WebImageInput| -> (a: QueuedPromptAttachment)
        ensures
            a.deep_view() == as_attachment()(image.deep_view()),
        {
            QueuedPromptAttachment::Binary {
                mime: image.mime.clone(),
                data_base64: image.data_base64.clone(),
            }
        };
    let kept = select(images, &fine, Ghost(readable()));
    map_rows(&kept, &attach, Ghost(as_attachment()))
}

/// A reply without the words that stand in it for a reply to come and for one
/// that was cut off.
pub open spec fn redacted(text: Seq<char>) -> Seq<char> {
    replaced(replaced(text, PENDING_PLACEHOLDER@, Seq::empty()), INTERRUPTED_TEXT@, Seq::empty())
}

/// A reply as a page may show it.
pub fn redact_internal_assistant_text(value: &str) -> (out: String)
    ensures
        out@ == redacted(value@),
{
    proof {
        reveal_strlit("");
        assert(""@ =~= Seq::<char>::empty());
    }
    let once = replace(value, pending_placeholder(), "");
    replace(once.as_str(), interrupted_text(), "")
}

pub open spec fn redacted_some(text: Option<Seq<char>>) -> Option<Seq<char>> {
    match text {
        Some(text) => Some(redacted(text)),
        None => None,
    }
}

fn redact_some(value: &Option<String>) -> (out: Option<String>)
    ensures
        out.deep_view() == redacted_some(value.deep_view()),
{
    match value {
        Some(text) => Some(redact_internal_assistant_text(text.as_str())),
        None => None,
    }
}

/// A description in one line of at most 120 characters.
pub open spec fn compact(alt: Seq<char>) -> Seq<char> {
    let description = joined(words_of(alt), " "@);
    if description.len() > 120 {
        description.take(120) + "…"@
    } else {
        description
    }
}

/// A text as it stands between tags.
pub open spec fn escaped(text: Seq<char>) -> Seq<char> {
    replaced(
        replaced(replaced(text, "&"@, "&amp;"@), "<"@, "&lt;"@),
        ">"@,
        "&gt;"@,
    )
}

pub open spec fn tells_of_meme(marker: Seq<char>) -> spec_fn(Seq<char>) -> bool {
    |report: Seq<char>| "<sent_meme>"@.is_prefix_of(report) && occurs(report, marker)
}

/// Whether a picture is one that a tool report tells of as a meme.
pub open spec fn caption_hidden(alt: Seq<char>, reports: Seq<Seq<char>>) -> bool {
    let marker = "description="@ + escaped(compact(alt)) + "</sent_meme>"@;
    joined(words_of(alt), " "@).len() > 0 && crate::table::any(reports, tells_of_meme(marker))
}

/// Whether the description of a picture is not shown: a meme speaks for itself.
pub fn meme_asset_caption_hidden(asset: &ImageAsset, reports: &Vec<String>) -> (hidden: bool)
    ensures
        hidden == caption_hidden(asset.deep_view().alt, reports.deep_view()),
{
    let description = join(&words(asset.alt.as_str()), " ");
    if description.as_str().is_empty() {
        return false;
    }
    let short = if description.as_str().unicode_len() > 120 {
        let head = take_chars(description.as_str(), 120);
        head.concat("…")
    } else {
        description
    };
    proof {
        reveal_strlit("&");
        reveal_strlit("<");
        reveal_strlit(">");
    }
    let once = replace(short.as_str(), "&", "&amp;");
    let twice = replace(once.as_str(), "<", "&lt;");
    let safe = replace(twice.as_str(), ">", "&gt;");
    let marker = "description=".to_owned().concat(safe.as_str()).concat("</sent_meme>");
    let tells = |report: &String| -> (b: bool)
        ensures
            b == tells_of_meme(marker@)(report.deep_view()),
        {
            starts_with(report.as_str(), "<sent_meme>") && contains(
                report.as_str(),
                marker.as_str(),
            )
        };
    exists_row(reports, &tells, Ghost(tells_of_meme(marker@)))
}

/// Whether the user sent a picture.
pub open spec fn sent_by_user(tool_id: Option<Seq<char>>) -> bool {
    match tool_id {
        Some(id) => "user_image"@.is_prefix_of(id),
        None => false,
    }
}

/// A picture as a page shows it.
pub open spec fn shown_asset(asset: ImageAssetModel, hide_caption: bool) -> SafeImageAssetModel {
    SafeImageAssetModel {
        id: asset.asset_id,
        url: "/api/assets/"@ + asset.asset_id,
        mime: asset.mime,
        width: asset.width,
        height: asset.height,
        alt: asset.alt,
        hide_caption,
        source: if sent_by_user(asset.tool_id) {
            "user"@
        } else {
            "tool"@
        },
    }
}

impl SafeImageAsset {
    /// A picture as a page shows it.
    pub fn from_asset(asset: &ImageAsset, hide_caption: bool) -> (shown: SafeImageAsset)
        ensures
            shown.deep_view() == shown_asset(asset.deep_view(), hide_caption),
    {
        let from_user = match &asset.tool_id {
            Some(id) => starts_with(id.as_str(), "user_image"),
            None => false,
        };
        SafeImageAsset {
            id: asset.asset_id.clone(),
            url: "/api/assets/".to_owned().concat(asset.asset_id.as_str()),
            mime: asset.mime.clone(),
            width: asset.width,
            height: asset.height,
            alt: asset.alt.clone(),
            hide_caption,
            source: if from_user {
                "user".to_owned()
            } else {
                "tool".to_owned()
            },
        }
    }
}

/// A follow-up as a page shows it.
pub open spec fn shown_followup() -> spec_fn(TurnFollowupModel) -> SafeFollowupModel {
    |f: TurnFollowupModel|
        SafeFollowupModel {
            id: f.prompt_id,
            content: f.display_content,
            submitted_at: f.submitted_at,
            preceding_assistant_content: redacted_some(f.preceding_assistant_content),
            preceding_assistant_reasoning: redacted_some(f.preceding_assistant_reasoning),
            provider_id: f.preceding_assistant_provider_id,
            model: f.preceding_assistant_model,
        }
}

impl SafeFollowup {
    /// A follow-up as a page shows it.
    pub fn from_followup(followup: &TurnFollowup) -> (shown: SafeFollowup)
        ensures
            shown.deep_view() == shown_followup()(followup.deep_view()),
    {
        SafeFollowup {
            id: followup.prompt_id.clone(),
            content: followup.display_content.clone(),
            submitted_at: followup.submitted_at.clone(),
            preceding_assistant_content: redact_some(&followup.preceding_assistant_content),
            preceding_assistant_reasoning: redact_some(&followup.preceding_assistant_reasoning),
            provider_id: followup.preceding_assistant_provider_id.dup(),
            model: followup.preceding_assistant_model.dup(),
        }
    }
}

/// A waiting prompt as a page shows it.
pub open spec fn shown_prompt(p: QueuedPromptModel) -> SafeQueuedPromptModel {
    SafeQueuedPromptModel {
        id: p.prompt_id,
        content: p.display_content,
        submitted_at: p.submitted_at,
    }
}

impl SafeQueuedPrompt {
    /// A waiting prompt as a page shows it.
    pub fn from_prompt(prompt: &QueuedPrompt) -> (shown: SafeQueuedPrompt)
        ensures
            shown.deep_view() == shown_prompt(prompt.deep_view()),
    {
        SafeQueuedPrompt {
            id: prompt.prompt_id.clone(),
            content: prompt.display_content.clone(),
            submitted_at: prompt.submitted_at.clone(),
        }
    }
}

/// The word for how far a turn has come.
pub open spec fn status_word(status: TurnStatus) -> Seq<char> {
    match status {
        TurnStatus::Running => "running"@,
        TurnStatus::Completed => "completed"@,
        TurnStatus::Interrupted => "interrupted"@,
    }
}

pub open spec fn shown_asset_of(reports: Seq<Seq<char>>) -> spec_fn(
    ImageAssetModel,
) -> SafeImageAssetModel {
    |a: ImageAssetModel| shown_asset(a, caption_hidden(a.alt, reports))
}

/// A turn as a page shows it.
pub open spec fn shown_turn(turn: TurnModel, assets: Seq<ImageAssetModel>) -> SafeTurnModel {
    SafeTurnModel {
        id: turn.turn_id,
        seq: turn.seq,
        status: status_word(turn.status),
        active_context: !turn.hidden,
        user_content: turn.user_content,
        assistant_content: redacted(turn.assistant_content),
        assistant_reasoning: redacted_some(turn.assistant_reasoning),
        provider_id: turn.assistant_provider_id,
        model: turn.assistant_model,
        user_timestamp: turn.user_timestamp,
        assistant_timestamp: turn.assistant_timestamp,
        token_total: turn.token_total,
        token_usage_estimated: turn.token_usage_estimated,
        question_exchanges: turn.question_exchanges,
        followups: turn.followups.map_values(shown_followup()),
        assets: assets.map_values(shown_asset_of(turn.tool_reports)),
    }
}

impl SafeTurn {
    /// A turn as a page shows it, with its pictures.
    pub fn from_turn(turn: &Turn, assets: &Vec<ImageAsset>) -> (shown: SafeTurn)
        ensures
            shown.deep_view() == shown_turn(turn.deep_view(), assets.deep_view()),
    {
        let show = |asset: &ImageAsset| -> (a: SafeImageAsset)
            ensures
                a.deep_view() == shown_asset_of(turn.deep_view().tool_reports)(asset.deep_view()),
            {
                let hidden = meme_asset_caption_hidden(asset, &turn.tool_reports);
                SafeImageAsset::from_asset(asset, hidden)
            };
        let assets = map_rows(
            assets,
            &show,
            Ghost(shown_asset_of(turn.deep_view().tool_reports)),
        );
        SafeTurn {
            id: turn.turn_id.clone(),
            seq: turn.seq,
            status: match turn.status {
                TurnStatus::Running => "running".to_owned(),
                TurnStatus::Completed => "completed".to_owned(),
                TurnStatus::Interrupted => "interrupted".to_owned(),
            },
            active_context: !turn.hidden,
            user_content: turn.user_content.clone(),
            assistant_content: redact_internal_assistant_text(turn.assistant_content.as_str()),
            assistant_reasoning: redact_some(&turn.assistant_reasoning),
            provider_id: turn.assistant_provider_id.dup(),
            model: turn.assistant_model.dup(),
            user_timestamp: turn.user_timestamp.clone(),
            assistant_timestamp: turn.assistant_timestamp.dup(),
            token_total: turn.token_total,
            token_usage_estimated: turn.token_usage_estimated,
            question_exchanges: turn.question_exchanges.dup(),
            followups: map_rows(
                &turn.followups,
                SafeFollowup::from_followup,
                Ghost(shown_followup()),
            ),
            assets,
        }
    }
}

/// The first line of a text that is not blank, or nothing.
pub open spec fn line_or_empty(text: Seq<char>) -> Seq<char> {
    match line_of(text) {
        Some(line) => line,
        None => Seq::empty(),
    }
}

/// A channel as a page lists it: under the first line of its last prompt, with
/// the first line of the reply.
pub open spec fn listed_channel(summary: ChannelSummaryModel) -> SafeChannelSummaryModel {
    let bare = SafeChannelSummaryModel {
        id: summary.channel,
        turn_count: summary.turn_count,
        last_seq: summary.last_seq,
        title: "（空对话）"@,
        snippet: Seq::empty(),
        timestamp: None,
        running: false,
    };
    match summary.recent {
        None => bare,
        Some(recent) => SafeChannelSummaryModel {
            title: match line_of(recent.user_content) {
                Some(line) => line,
                None => "（无标题）"@,
            },
            snippet: if recent.status == "running"@ {
                "正在回复…"@
            } else {
                match line_of(recent.assistant_content) {
                    Some(line) => line,
                    None => line_or_empty(recent.user_content),
                }
            },
            timestamp: match recent.assistant_timestamp {
                Some(time) => Some(time),
                None => Some(recent.user_timestamp),
            },
            running: recent.status == "running"@,
            ..bare
        },
    }
}

/// A channel as a page lists it.
pub fn safe_channel_summary(summary: &ChannelSummary) -> (listed: SafeChannelSummary)
    ensures
        listed.deep_view() == listed_channel(summary.deep_view()),
{
    match &summary.recent {
        None => {
            let snippet = String::new();
            assert(snippet@ =~= Seq::<char>::empty());
            SafeChannelSummary {
                id: summary.channel.clone(),
                turn_count: summary.turn_count,
                last_seq: summary.last_seq,
                title: "（空对话）".to_owned(),
                snippet,
                timestamp: None,
                running: false,
            }
        },
        Some(recent) => {
            let running = same(recent.status.as_str(), "running");
            let prompt = first_line(recent.user_content.as_str());
            let title = match &prompt {
                Some(line) => line.clone(),
                None => "（无标题）".to_owned(),
            };
            let snippet = if running {
                "正在回复…".to_owned()
            } else {
                match first_line(recent.assistant_content.as_str()) {
                    Some(line) => line,
                    None => match prompt {
                        Some(line) => line,
                        None => String::new(),
                    },
                }
            };
            let timestamp = match &recent.assistant_timestamp {
                Some(time) => Some(time.clone()),
                None => Some(recent.user_timestamp.clone()),
            };
            SafeChannelSummary {
                id: summary.channel.clone(),
                turn_count: summary.turn_count,
                last_seq: summary.last_seq,
                title,
                snippet,
                timestamp,
                running,
            }
        },
    }
}

/// How replies are shown on a page, where `active_models` take turns: the model
/// behind a reply is named only where there are several and it is asked for.
pub open spec fn page_display(display: DisplayConfigModel, active_models: usize) -> WebDisplayConfigModel {
    WebDisplayConfigModel {
        reasoning: display.reasoning,
        tool_calls: display.tool_calls,
        readable_tool_names: display.readable_tool_names,
        command_output_lines: display.command_output_lines,
        mixed_model_endpoint_display: display.mixed_model_endpoint_display,
        show_mixed_model_endpoint: active_models > 1 && (display.mixed_model_endpoint_display
            == "interactive"@ || display.mixed_model_endpoint_display == "all"@),
    }
}

/// How replies are shown on a page, where `active_models` take turns.
pub fn web_display_config(
    display: &DisplayConfig,
    active_models: usize,
) -> (shown: WebDisplayConfig)
    ensures
        shown.deep_view() == page_display(display.deep_view(), active_models),
{
    WebDisplayConfig {
        reasoning: display.reasoning.clone(),
        tool_calls: display.tool_calls.clone(),
        readable_tool_names: display.readable_tool_names,
        command_output_lines: display.command_output_lines,
        mixed_model_endpoint_display: display.mixed_model_endpoint_display.clone(),
        show_mixed_model_endpoint: active_models > 1 && (same(
            display.mixed_model_endpoint_display.as_str(),
            "interactive",
        ) || same(display.mixed_model_endpoint_display.as_str(), "all")),
    }
}

pub open spec fn is_control_fn() -> spec_fn(char) -> bool {
    |c: char| control(c)
}

/// A control character that may not stand in a message.
pub open spec fn unfit_for_content() -> spec_fn(char) -> bool {
    |c: char| control(c) && c != '\n' && c != '\r' && c != '\t'
}

pub(crate) fn has_control(text: &str) -> (yes: bool)
    ensures
        yes == some_char(text@, is_control_fn()),
{
    let test = |c: char| -> (b: bool)
        ensures
            b == is_control_fn()(c),
        { is_control(c) };
    any_char(text, &test, Ghost(is_control_fn()))
}

pub(crate) fn has_unfit(text: &str) -> (yes: bool)
    ensures
        yes == some_char(text@, unfit_for_content()),
{
    let test = |c: char| -> (b: bool)
        ensures
            b == unfit_for_content()(c),
        { is_control(c) && c != '\n' && c != '\r' && c != '\t' };
    any_char(text, &test, Ghost(unfit_for_content()))
}

/// A message as it is taken, or why it is not.
pub open spec fn content_check(content: Seq<char>) -> Result<Seq<char>, ApiErrorModel> {
    let content = trimmed(content);
    if content.len() == 0 {
        Err(ApiErrorModel::bad("content cannot be empty"@))
    } else if content.len() > MAX_CONTENT_CHARS {
        Err(
            ApiErrorModel::new(
                StatusCode::PayloadTooLarge,
                "content cannot exceed 20000 characters"@,
            ),
        )
    } else if some_char(content, unfit_for_content()) {
        Err(ApiErrorModel::bad("content contains unsupported control characters"@))
    } else {
        Ok(content)
    }
}

/// A message as it is taken.
pub fn validate_content(content: &str) -> (result: Result<String, ApiError>)
    ensures
        checked(result, content_check(content@)),
{
    let content = trim(content);
    let n: usize = content.as_str().unicode_len();
    if n == 0 {
        return Err(ApiError::new(StatusCode::BadRequest, "content cannot be empty"));
    }
    if n > MAX_CONTENT_CHARS {
        return Err(
            ApiError::new(StatusCode::PayloadTooLarge, "content cannot exceed 20000 characters"),
        );
    }
    if has_unfit(content.as_str()) {
        return Err(
            ApiError::new(
                StatusCode::BadRequest,
                "content contains unsupported control characters",
            ),
        );
    }
    Ok(content)
}

/// A short text as it is taken, or why it is not.
pub open spec fn short_field_check(value: Seq<char>, field: Seq<char>, max_chars: nat) -> Result<
    Seq<char>,
    ApiErrorModel,
> {
    let value = trimmed(value);
    if value.len() == 0 {
        Err(ApiErrorModel::bad(field + " cannot be empty"@))
    } else if value.len() > max_chars || some_char(value, is_control_fn()) {
        Err(ApiErrorModel::bad(field + " is invalid"@))
    } else {
        Ok(value)
    }
}

/// A short text as it is taken.
pub fn validate_short_field(value: &str, field: &str, max_chars: usize) -> (result: Result<
    String,
    ApiError,
>)
    ensures
        checked(result, short_field_check(value@, field@, max_chars as nat)),
{
    let value = trim(value);
    let n: usize = value.as_str().unicode_len();
    if n == 0 {
        return Err(ApiError::bad(field.to_owned().concat(" cannot be empty")));
    }
    if n > max_chars || has_control(value.as_str()) {
        return Err(ApiError::bad(field.to_owned().concat(" is invalid")));
    }
    Ok(value)
}

/// The first `n` models of a selection as they are taken, or why they are not.
pub open spec fn models_check(models: Seq<ActiveProviderModelConfigModel>, n: nat) -> Result<
    Seq<ActiveProviderModelConfigModel>,
    ApiErrorModel,
>
    decreases n,
{
    if n == 0 {
        Ok(Seq::empty())
    } else {
        match models_check(models, (n - 1) as nat) {
            Err(error) => Err(error),
            Ok(done) => match short_field_check(
                models[n - 1].provider_id,
                "provider_id"@,
                200,
            ) {
                Err(error) => Err(error),
                Ok(provider_id) => match short_field_check(models[n - 1].model, "model"@, 500) {
                    Err(error) => Err(error),
                    Ok(model) => {
                        let choice = ActiveProviderModelConfigModel { provider_id, model };
                        if done.contains(choice) {
                            Err(ApiErrorModel::bad("duplicate provider/model selection"@))
                        } else {
                            Ok(done.push(choice))
                        }
                    },
                },
            },
        }
    }
}

/// A selection of models as it is taken, or why it is not.
pub open spec fn selection_check(models: Seq<ActiveProviderModelConfigModel>) -> Result<
    Seq<ActiveProviderModelConfigModel>,
    ApiErrorModel,
> {
    if models.len() == 0 {
        Err(ApiErrorModel::bad("at least one model endpoint must remain active"@))
    } else if models.len() > 64 {
        Err(
            ApiErrorModel::new(
                StatusCode::PayloadTooLarge,
                "at most 64 model endpoints can be active"@,
            ),
        )
    } else {
        models_check(models, models.len())
    }
}

fn has_model(models: &Vec<ActiveProviderModelConfig>, provider_id: &str, model: &str) -> (yes: bool)
    ensures
        yes == models.deep_view().contains(
            ActiveProviderModelConfigModel { provider_id: provider_id@, model: model@ },
        ),
{
    let mut i: usize = 0;
    let ghost wanted = ActiveProviderModelConfigModel { provider_id: provider_id@, model: model@ };
    while i < models.len()
        invariant
            i <= models.len(),
            wanted == (ActiveProviderModelConfigModel {
                provider_id: provider_id@,
                model: model@,
            }),
            forall|j: int| 0 <= j < i ==> #[trigger] models.deep_view()[j] != wanted,
        decreases models.len() - i,
    {
        assert(models.deep_view()[i as int] == models[i as int].deep_view());
        if same(models[i].provider_id.as_str(), provider_id) && same(
            models[i].model.as_str(),
            model,
        ) {
            return true;
        }
        i += 1;
    }
    false
}

/// A selection of models as it is taken.
pub fn validate_model_selection(models: &Vec<ActiveProviderModelConfig>) -> (result: Result<
    Vec<ActiveProviderModelConfig>,
    ApiError,
>)
    ensures
        checked(result, selection_check(models.deep_view())),
{
    if models.len() == 0 {
        return Err(
            ApiError::new(
                StatusCode::BadRequest,
                "at least one model endpoint must remain active",
            ),
        );
    }
    if models.len() > 64 {
        return Err(
            ApiError::new(StatusCode::PayloadTooLarge, "at most 64 model endpoints can be active"),
        );
    }
    let mut done: Vec<ActiveProviderModelConfig> = Vec::new();
    let mut i: usize = 0;
    assert(done.deep_view() =~= Seq::<ActiveProviderModelConfigModel>::empty());
    while i < models.len()
        invariant
            i <= models.len() <= 64,
            models.len() > 0,
            models_check(models.deep_view(), i as nat) == Ok::<
                Seq<ActiveProviderModelConfigModel>,
                ApiErrorModel,
            >(done.deep_view()),
        decreases models.len() - i,
    {
        assert(models.deep_view()[i as int] == models[i as int].deep_view());
        let ghost before = done.deep_view();
        proof {
            lemma_models_check_fails(models.deep_view(), (i + 1) as nat);
        }
        let provider_id = match validate_short_field(
            models[i].provider_id.as_str(),
            "provider_id",
            200,
        ) {
            Ok(text) => text,
            Err(error) => return Err(error),
        };
        let model = match validate_short_field(models[i].model.as_str(), "model", 500) {
            Ok(text) => text,
            Err(error) => return Err(error),
        };
        if has_model(&done, provider_id.as_str(), model.as_str()) {
            return Err(
                ApiError::new(StatusCode::BadRequest, "duplicate provider/model selection"),
            );
        }
        let choice = ActiveProviderModelConfig { provider_id, model };
        done.push(choice);
        assert(done.deep_view() =~= before.push(choice.deep_view()));
        i += 1;
    }
    Ok(done)
}

/// What is wrong with the first models is wrong with the selection.
proof fn lemma_models_check_fails(models: Seq<ActiveProviderModelConfigModel>, n: nat)
    requires
        n <= models.len(),
    ensures
        models_check(models, n) matches Err(error) ==> models_check(models, models.len()) == Err::<
            Seq<ActiveProviderModelConfigModel>,
            ApiErrorModel,
        >(error),
    decreases models.len() - n,
{
    if n < models.len() {
        lemma_models_check_fails(models, n + 1);
    }
}

/// How the assistant works on a message.
#[derive(Debug, Clone, Copy, PartialEq, Eq, Structural)]
pub enum AgentMode {
    Normal,
    Plan,
    Chat,
}

impl AgentMode {
    /// The word for a mode.
    pub open spec fn word(self) -> Seq<char> {
        match self {
            AgentMode::Normal => "normal"@,
            AgentMode::Plan => "plan"@,
            AgentMode::Chat => "chat"@,
        }
    }
}

/// The mode that a word stands for.
pub fn parse_mode(mode: &str) -> (result: Result<AgentMode, ApiError>)
    ensures
        match result {
            Ok(parsed) => mode@ == parsed.word(),
            Err(error) => {
                &&& mode@ != AgentMode::Normal.word()
                &&& mode@ != AgentMode::Plan.word()
                &&& mode@ != AgentMode::Chat.word()
                &&& error@ == ApiErrorModel::bad("mode must be normal, plan, or chat"@)
            },
        },
{
    if same(mode, "normal") {
        Ok(AgentMode::Normal)
    } else if same(mode, "plan") {
        Ok(AgentMode::Plan)
    } else if same(mode, "chat") {
        Ok(AgentMode::Chat)
    } else {
        Err(ApiError::new(StatusCode::BadRequest, "mode must be normal, plan, or chat"))
    }
}

/// The word for a mode.
pub fn mode_name(mode: AgentMode) -> (name: &'static str)
    ensures
        name@ == mode.word(),
{
    match mode {
        AgentMode::Normal => "normal",
        AgentMode::Plan => "plan",
        AgentMode::Chat => "chat",
    }
}

/// The tool behind the name of an event.
pub fn real_tool_name(event_name: &str) -> (name: String)
    ensures
        name@ == if "load_skill:"@.is_prefix_of(event_name@) {
            "load_skill"@
        } else if "load_tools:"@.is_prefix_of(event_name@) {
            "load_tools"@
        } else {
            event_name@
        },
{
    if starts_with(event_name, "load_skill:") {
        "load_skill".to_owned()
    } else if starts_with(event_name, "load_tools:") {
        "load_tools".to_owned()
    } else {
        event_name.to_owned()
    }
}

} // verus!
