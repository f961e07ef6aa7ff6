//! What the pages are told of a turn at work.

use crate::json::{
    encode_strings,
    json_bool,
    json_object,
    json_strings,
    json_text,
    maybe_json,
    Fields,
};
use crate::state::types::{ImageAsset, ImageAssetModel};
use crate::table::Row;
use crate::text::{decimal, decimal_text, same};
use crate::web::events::EventHub;
use crate::web::models::SafeImageAsset;
use crate::web::payload::{asset_json, encode_asset};
use crate::web::types::{mode_name, real_tool_name, shown_asset, AgentMode};
use vstd::prelude::*;

verus! {

/// The text that `String::from_utf8_lossy` reads from bytes.
pub uninterp spec fn lossy(bytes: Seq<u8>) -> Seq<char>;

/// `String::from_utf8_lossy`, which reads bytes as UTF-8 and puts a mark where
/// they are none. What it gives is named, not described.
#[verifier::external_body]
fn lossy_text(bytes: &Vec<u8>) -> (text: String)
    ensures
        text@ == lossy(bytes@),
{
    String::from_utf8_lossy(bytes).into_owned()
}

/// What happens while a turn is at work.
pub enum AgentEvent {
    TurnStarted { turn_id: String },
    /// A piece of the answer.
    Content { text: String },
    /// A piece of what the model thinks.
    Reasoning { text: String },
    /// A piece that is not shown.
    OtherChunk,
    ReasoningStart,
    ReasoningReset,
    ReasoningPartStart,
    ReasoningPartEnd,
    ReasoningTitle { title: String },
    /// A tool is called.
    ToolCall { name: String, display_name: String, arguments: String },
    ToolProgress { name: String, message: String },
    /// A command wrote something.
    CommandOutput { name: String, stderr: bool, chunk: Vec<u8> },
    /// A tool is done.
    ToolResult { name: String, ok: bool, output: String },
    /// A tool made a picture, which was kept or was not.
    Image {
        name: String,
        emotion: Option<String>,
        action: Option<String>,
        saved: Option<ImageAsset>,
    },
    /// The user is asked; `questions` is JSON.
    AskQuestion { question_id: String, questions: String },
    /// Messages that waited were taken up.
    QueuedPromptsConsumed {
        prompt_ids: Vec<String>,
        mode: AgentMode,
        provider_id: Option<String>,
        model: Option<String>,
    },
    /// Another program wants to write to the terminal.
    ExternalOutput,
    SpinnerTick,
    CompactStart,
    CompactChunk { text: String },
    CompactEnd,
    PopStart,
    PopEnd,
}

/// The model of [`AgentEvent`].
#[verifier::ext_equal]
pub enum AgentEventModel {
    TurnStarted { turn_id: Seq<char> },
    Content { text: Seq<char> },
    Reasoning { text: Seq<char> },
    OtherChunk,
    ReasoningStart,
    ReasoningReset,
    ReasoningPartStart,
    ReasoningPartEnd,
    ReasoningTitle { title: Seq<char> },
    ToolCall { name: Seq<char>, display_name: Seq<char>, arguments: Seq<char> },
    ToolProgress { name: Seq<char>, message: Seq<char> },
    CommandOutput { name: Seq<char>, stderr: bool, chunk: Seq<u8> },
    ToolResult { name: Seq<char>, ok: bool, output: Seq<char> },
    Image {
        name: Seq<char>,
        emotion: Option<Seq<char>>,
        action: Option<Seq<char>>,
        saved: Option<ImageAssetModel>,
    },
    AskQuestion { question_id: Seq<char>, questions: Seq<char> },
    QueuedPromptsConsumed {
        prompt_ids: Seq<Seq<char>>,
        mode: AgentMode,
        provider_id: Option<Seq<char>>,
        model: Option<Seq<char>>,
    },
    ExternalOutput,
    SpinnerTick,
    CompactStart,
    CompactChunk { text: Seq<char> },
    CompactEnd,
    PopStart,
    PopEnd,
}

impl View for AgentEvent {
    type V = AgentEventModel;

    open spec fn view(&self) -> AgentEventModel {
        match self {
            AgentEvent::TurnStarted { turn_id } => AgentEventModel::TurnStarted {
                turn_id: turn_id.deep_view(),
            },
            AgentEvent::Content { text } => AgentEventModel::Content {
                text: text.deep_view(),
            },
            AgentEvent::Reasoning { text } => AgentEventModel::Reasoning {
                text: text.deep_view(),
            },
            AgentEvent::OtherChunk => AgentEventModel::OtherChunk,
            AgentEvent::ReasoningStart => AgentEventModel::ReasoningStart,
            AgentEvent::ReasoningReset => AgentEventModel::ReasoningReset,
            AgentEvent::ReasoningPartStart => AgentEventModel::ReasoningPartStart,
            AgentEvent::ReasoningPartEnd => AgentEventModel::ReasoningPartEnd,
            AgentEvent::ReasoningTitle { title } => AgentEventModel::ReasoningTitle {
                title: title.deep_view(),
            },
            AgentEvent::ToolCall { name, display_name, arguments } => AgentEventModel::ToolCall {
                name: name.deep_view(),
                display_name: display_name.deep_view(),
                arguments: arguments.deep_view(),
            },
            AgentEvent::ToolProgress { name, message } => AgentEventModel::ToolProgress {
                name: name.deep_view(),
                message: message.deep_view(),
            },
            AgentEvent::CommandOutput { name, stderr, chunk } => AgentEventModel::CommandOutput {
                name: name.deep_view(),
                stderr: *stderr,
                chunk: chunk@,
            },
            AgentEvent::ToolResult { name, ok, output } => AgentEventModel::ToolResult {
                name: name.deep_view(),
                ok: *ok,
                output: output.deep_view(),
            },
            AgentEvent::Image { name, emotion, action, saved } => AgentEventModel::Image {
                name: name.deep_view(),
                emotion: emotion.deep_view(),
                action: action.deep_view(),
                saved: saved.deep_view(),
            },
            AgentEvent::AskQuestion { question_id, questions } => AgentEventModel::AskQuestion {
                question_id: question_id.deep_view(),
                questions: questions.deep_view(),
            },
            AgentEvent::QueuedPromptsConsumed { prompt_ids, mode, provider_id, model } => {
                AgentEventModel::QueuedPromptsConsumed {
                    prompt_ids: prompt_ids.deep_view(),
                    mode: *mode,
                    provider_id: provider_id.deep_view(),
                    model: model.deep_view(),
                }
            },
            AgentEvent::ExternalOutput => AgentEventModel::ExternalOutput,
            AgentEvent::SpinnerTick => AgentEventModel::SpinnerTick,
            AgentEvent::CompactStart => AgentEventModel::CompactStart,
            AgentEvent::CompactChunk { text } => AgentEventModel::CompactChunk {
                text: text.deep_view(),
            },
            AgentEvent::CompactEnd => AgentEventModel::CompactEnd,
            AgentEvent::PopStart => AgentEventModel::PopStart,
            AgentEvent::PopEnd => AgentEventModel::PopEnd,
        }
    }
}

/// A tool at work.
pub struct ActiveTool {
    pub id: String,
    pub name: String,
    /// What the event called it.
    pub event_name: String,
}

/// The model of [`ActiveTool`].
#[verifier::ext_equal]
pub struct ActiveToolModel {
    pub id: Seq<char>,
    pub name: Seq<char>,
    pub event_name: Seq<char>,
}

impl DeepView for ActiveTool {
    type V = ActiveToolModel;

    open spec fn deep_view(&self) -> ActiveToolModel {
        ActiveToolModel {
            id: self.id.deep_view(),
            name: self.name.deep_view(),
            event_name: self.event_name.deep_view(),
        }
    }
}

impl Row for ActiveTool {
    fn dup(&self) -> (copy: Self) {
        ActiveTool {
            id: self.id.dup(),
            name: self.name.dup(),
            event_name: self.event_name.dup(),
        }
    }
}


pub open spec fn stream_word(stderr: bool) -> Seq<char> {
    if stderr {
        "stderr"@
    } else {
        "stdout"@
    }
}

/// The tool behind the name of an event.
pub open spec fn real_name(event_name: Seq<char>) -> Seq<char> {
    if "load_skill:"@.is_prefix_of(event_name) {
        "load_skill"@
    } else if "load_tools:"@.is_prefix_of(event_name) {
        "load_tools"@
    } else {
        event_name
    }
}

pub open spec fn after_count(n: u64) -> u64 {
    if n == u64::MAX {
        n
    } else {
        (n + 1) as u64
    }
}

pub open spec fn tool_id_of(run_id: Seq<char>, n: u64) -> Seq<char> {
    run_id + "_tool_"@ + decimal(n as nat)
}

/// Turns what happens while a turn is at work into what the pages are told.
pub struct RunEventMapper {
    pub run_id: String,
    pub turn_id: Option<String>,
    pub tool_counter: u64,
    pub active_tool: Option<ActiveTool>,
}

/// The model of [`RunEventMapper`].
#[verifier::ext_equal]
pub struct MapperModel {
    pub run_id: Seq<char>,
    pub turn_id: Option<Seq<char>>,
    pub tool_counter: u64,
    pub active_tool: Option<ActiveToolModel>,
}

impl View for RunEventMapper {
    type V = MapperModel;

    open spec fn view(&self) -> MapperModel {
        MapperModel {
            run_id: self.run_id@,
            turn_id: self.turn_id.deep_view(),
            tool_counter: self.tool_counter,
            active_tool: self.active_tool.deep_view(),
        }
    }
}

impl MapperModel {
    /// A tool that is called now.
    pub open spec fn next(self, event_name: Seq<char>) -> ActiveToolModel {
        ActiveToolModel {
            id: tool_id_of(self.run_id, after_count(self.tool_counter)),
            name: real_name(event_name),
            event_name,
        }
    }

    /// The tool that is done: the one at work or, where there is none, one that
    /// was never heard of.
    pub open spec fn finishing(self, event_name: Seq<char>) -> ActiveToolModel {
        match self.active_tool {
            Some(tool) => tool,
            None => self.next(event_name),
        }
    }

    /// The id and the name of the tool that something comes from.
    pub open spec fn identity(self, fallback: Seq<char>) -> (Seq<char>, Seq<char>) {
        match self.active_tool {
            Some(tool) => (tool.id, tool.name),
            None => (
                tool_id_of(self.run_id, after_count(self.tool_counter)),
                real_name(fallback),
            ),
        }
    }

    /// What an event changes.
    pub open spec fn after(self, event: AgentEventModel) -> MapperModel {
        match event {
            AgentEventModel::TurnStarted { turn_id } => MapperModel {
                turn_id: Some(turn_id),
                ..self
            },
            AgentEventModel::ToolCall { name, display_name: _, arguments: _ } => MapperModel {
                tool_counter: after_count(self.tool_counter),
                active_tool: Some(self.next(name)),
                ..self
            },
            AgentEventModel::ToolResult { name: _, ok: _, output: _ } => MapperModel {
                tool_counter: if self.active_tool is None {
                    after_count(self.tool_counter)
                } else {
                    self.tool_counter
                },
                active_tool: None,
                ..self
            },
            _ => self,
        }
    }

    /// What the pages are told of a picture.
    pub open spec fn image_json(
        self,
        name: Seq<char>,
        emotion: Option<Seq<char>>,
        action: Option<Seq<char>>,
        saved: Option<ImageAssetModel>,
    ) -> Seq<char> {
        let (tool_id, tool_name) = self.identity(name);
        if self.turn_id is None {
            self.image_error(
                "image could not be associated with the current turn"@,
                tool_id,
                tool_name,
            )
        } else {
            match saved {
                Some(asset) => json_object(
                    seq![
                        ("action"@, maybe_json(action)),
                        ("asset"@, asset_json(shown_asset(asset, tool_name == "show_meme"@))),
                        ("emotion"@, maybe_json(emotion)),
                        ("name"@, json_text(tool_name)),
                        ("run_id"@, json_text(self.run_id)),
                        ("tool_id"@, json_text(tool_id)),
                    ],
                ),
                None => self.image_error(
                    "image could not be added to the WebUI"@,
                    tool_id,
                    tool_name,
                ),
            }
        }
    }

    pub open spec fn image_error(
        self,
        error: Seq<char>,
        tool_id: Seq<char>,
        tool_name: Seq<char>,
    ) -> Seq<char> {
        json_object(
            seq![
                ("error"@, json_text(error)),
                ("name"@, json_text(tool_name)),
                ("run_id"@, json_text(self.run_id)),
                ("tool_id"@, json_text(tool_id)),
            ],
        )
    }

    /// What the pages are told of an event: its kind and what it carries.
    pub open spec fn told(self, event: AgentEventModel) -> Option<(Seq<char>, Seq<char>)> {
        match event {
            AgentEventModel::TurnStarted { turn_id } => {
                Some((
                    "turn.started"@,
                    json_object(
                        seq![
                            ("run_id"@, json_text(self.run_id)),
                            ("turn_id"@, json_text(turn_id)),
                        ],
                    ),
                ))
            },
            AgentEventModel::Content { text } => {
                Some((
                    "assistant.delta"@,
                    json_object(
                        seq![
                            ("delta"@, json_text(text)),
                            ("run_id"@, json_text(self.run_id)),
                        ],
                    ),
                ))
            },
            AgentEventModel::Reasoning { text } => {
                Some((
                    "reasoning.delta"@,
                    json_object(
                        seq![
                            ("delta"@, json_text(text)),
                            ("run_id"@, json_text(self.run_id)),
                        ],
                    ),
                ))
            },
            AgentEventModel::ReasoningStart => {
                Some((
                    "reasoning.start"@,
                    json_object(
                        seq![
                            ("run_id"@, json_text(self.run_id)),
                        ],
                    ),
                ))
            },
            AgentEventModel::ReasoningReset => {
                Some((
                    "reasoning.reset"@,
                    json_object(
                        seq![
                            ("run_id"@, json_text(self.run_id)),
                        ],
                    ),
                ))
            },
            AgentEventModel::ReasoningPartStart => {
                Some((
                    "reasoning.part_start"@,
                    json_object(
                        seq![
                            ("run_id"@, json_text(self.run_id)),
                        ],
                    ),
                ))
            },
            AgentEventModel::ReasoningPartEnd => {
                Some((
                    "reasoning.part_end"@,
                    json_object(
                        seq![
                            ("run_id"@, json_text(self.run_id)),
                        ],
                    ),
                ))
            },
            AgentEventModel::CompactStart => {
                Some((
                    "context.compact_start"@,
                    json_object(
                        seq![
                            ("run_id"@, json_text(self.run_id)),
                        ],
                    ),
                ))
            },
            AgentEventModel::CompactEnd => {
                Some((
                    "context.compact_end"@,
                    json_object(
                        seq![
                            ("run_id"@, json_text(self.run_id)),
                        ],
                    ),
                ))
            },
            AgentEventModel::PopStart => {
                Some((
                    "context.pop_start"@,
                    json_object(
                        seq![
                            ("run_id"@, json_text(self.run_id)),
                        ],
                    ),
                ))
            },
            AgentEventModel::PopEnd => {
                Some((
                    "context.pop_end"@,
                    json_object(
                        seq![
                            ("run_id"@, json_text(self.run_id)),
                        ],
                    ),
                ))
            },
            AgentEventModel::ReasoningTitle { title } => {
                Some((
                    "reasoning.title"@,
                    json_object(
                        seq![
                            ("run_id"@, json_text(self.run_id)),
                            ("title"@, json_text(title)),
                        ],
                    ),
                ))
            },
            AgentEventModel::ToolCall { name, display_name, arguments } => {
                let tool = self.next(name);
                Some((
                    "tool.started"@,
                    json_object(
                        seq![
                            ("arguments"@, json_text(arguments)),
                            ("display_name"@, json_text(display_name)),
                            ("name"@, json_text(tool.name)),
                            ("run_id"@, json_text(self.run_id)),
                            ("tool_id"@, json_text(tool.id)),
                        ],
                    ),
                ))
            },
            AgentEventModel::ToolProgress { name, message } => {
                let (tool_id, tool_name) = self.identity(name);
                Some((
                    "tool.progress"@,
                    json_object(
                        seq![
                            ("message"@, json_text(message)),
                            ("name"@, json_text(tool_name)),
                            ("run_id"@, json_text(self.run_id)),
                            ("tool_id"@, json_text(tool_id)),
                        ],
                    ),
                ))
            },
            AgentEventModel::CommandOutput { name, stderr, chunk } => {
                let (tool_id, tool_name) = self.identity(name);
                Some((
                    "tool.output"@,
                    json_object(
                        seq![
                            ("name"@, json_text(tool_name)),
                            ("output"@, json_text(lossy(chunk))),
                            ("run_id"@, json_text(self.run_id)),
                            ("stream"@, json_text(stream_word(stderr))),
                            ("tool_id"@, json_text(tool_id)),
                        ],
                    ),
                ))
            },
            AgentEventModel::ToolResult { name, ok, output } => {
                let tool = self.finishing(name);
                Some((
                    "tool.finished"@,
                    json_object(
                        seq![
                            ("name"@, json_text(tool.name)),
                            ("ok"@, json_bool(ok)),
                            ("output"@, json_text(output)),
                            ("run_id"@, json_text(self.run_id)),
                            ("tool_id"@, json_text(tool.id)),
                        ],
                    ),
                ))
            },
            AgentEventModel::AskQuestion { question_id, questions } => {
                let (tool_id, tool_name) = self.identity("ask_question"@);
                Some((
                    "question.requested"@,
                    json_object(
                        seq![
                            ("name"@, json_text(tool_name)),
                            ("question_id"@, json_text(question_id)),
                            ("questions"@, questions),
                            ("run_id"@, json_text(self.run_id)),
                            ("tool_id"@, json_text(tool_id)),
                        ],
                    ),
                ))
            },
            AgentEventModel::QueuedPromptsConsumed { prompt_ids, mode, provider_id, model } => {
                Some((
                    "queue.consumed"@,
                    json_object(
                        seq![
                            ("mode"@, json_text(mode.word())),
                            ("model"@, maybe_json(model)),
                            ("prompt_ids"@, json_strings(prompt_ids)),
                            ("provider_id"@, maybe_json(provider_id)),
                            ("run_id"@, json_text(self.run_id)),
                        ],
                    ),
                ))
            },
            AgentEventModel::CompactChunk { text } => {
                Some((
                    "context.compact_delta"@,
                    json_object(
                        seq![
                            ("delta"@, json_text(text)),
                            ("run_id"@, json_text(self.run_id)),
                        ],
                    ),
                ))
            },
            AgentEventModel::Image { name, emotion, action, saved } => Some(
                ("tool.image"@, self.image_json(name, emotion, action, saved)),
            ),
            AgentEventModel::OtherChunk => None,
            AgentEventModel::ExternalOutput => None,
            AgentEventModel::SpinnerTick => None,
        }
    }
}

impl RunEventMapper {
    pub fn new(run_id: String) -> (mapper: RunEventMapper)
        ensures
            mapper@ == (MapperModel {
                run_id: run_id@,
                turn_id: None,
                tool_counter: 0,
                active_tool: None,
            }),
    {
        RunEventMapper { run_id, turn_id: None, tool_counter: 0, active_tool: None }
    }

    fn tool_id(&self, n: u64) -> (id: String)
        ensures
            id@ == tool_id_of(self@.run_id, n),
    {
        self.run_id.clone().concat("_tool_").concat(decimal_text(n).as_str())
    }

    /// A tool that is called now.
    pub fn next_tool(&mut self, event_name: String) -> (tool: ActiveTool)
        ensures
            tool.deep_view() == old(self)@.next(event_name@),
            final(self)@ == (MapperModel {
                tool_counter: after_count(old(self)@.tool_counter),
                ..old(self)@
            }),
    {
        if self.tool_counter < u64::MAX {
            self.tool_counter = self.tool_counter + 1;
        }
        ActiveTool {
            id: self.tool_id(self.tool_counter),
            name: real_tool_name(event_name.as_str()),
            event_name,
        }
    }

    fn finish_tool(&mut self, event_name: String) -> (tool: ActiveTool)
        ensures
            tool.deep_view() == old(self)@.finishing(event_name@),
            final(self)@ == (MapperModel {
                tool_counter: if old(self)@.active_tool is None {
                    after_count(old(self)@.tool_counter)
                } else {
                    old(self)@.tool_counter
                },
                active_tool: None,
                ..old(self)@
            }),
    {
        match self.active_tool.take() {
            Some(tool) => tool,
            None => self.next_tool(event_name),
        }
    }

    /// The id and the name of the tool that something comes from.
    pub fn tool_identity(&self, fallback: &str) -> (identity: (String, String))
        ensures
            identity.deep_view() == self@.identity(fallback@),
    {
        match &self.active_tool {
            Some(tool) => (tool.id.clone(), tool.name.clone()),
            None => {
                let n: u64 = if self.tool_counter < u64::MAX {
                    self.tool_counter + 1
                } else {
                    self.tool_counter
                };
                (self.tool_id(n), real_tool_name(fallback))
            },
        }
    }

    fn image_payload(
        &self,
        name: &str,
        emotion: &Option<String>,
        action: &Option<String>,
        saved: &Option<ImageAsset>,
    ) -> (json: String)
        ensures
            json@ == self@.image_json(
                name@,
                emotion.deep_view(),
                action.deep_view(),
                saved.deep_view(),
            ),
    {
        let (tool_id, tool_name) = self.tool_identity(name);
        if self.turn_id.is_none() {
            return self.image_failure(
                "image could not be associated with the current turn",
                tool_id.as_str(),
                tool_name.as_str(),
            );
        }
        match saved {
            Some(asset) => {
                let hide_caption = same(tool_name.as_str(), "show_meme");
                let shown = SafeImageAsset::from_asset(asset, hide_caption);
                let json = encode_asset(&shown);
                let fields = Fields::new().maybe_text("action", action).raw(
                    "asset",
                    json.as_str(),
                ).maybe_text("emotion", emotion).text("name", tool_name.as_str()).text(
                    "run_id",
                    self.run_id.as_str(),
                ).text("tool_id", tool_id.as_str());
                assert(fields@ =~= seq![
                    ("action"@, maybe_json(action.deep_view())),
                    ("asset"@, json@),
                    ("emotion"@, maybe_json(emotion.deep_view())),
                    ("name"@, json_text(tool_name@)),
                    ("run_id"@, json_text(self.run_id@)),
                    ("tool_id"@, json_text(tool_id@)),
                ]);
                fields.object()
            },
            None => self.image_failure(
                "image could not be added to the WebUI",
                tool_id.as_str(),
                tool_name.as_str(),
            ),
        }
    }

    fn image_failure(&self, error: &str, tool_id: &str, tool_name: &str) -> (json: String)
        ensures
            json@ == self@.image_error(error@, tool_id@, tool_name@),
    {
        let fields = Fields::new().text("error", error).text("name", tool_name).text(
            "run_id",
            self.run_id.as_str(),
        ).text("tool_id", tool_id);
        assert(fields@ =~= seq![
            ("error"@, json_text(error@)),
            ("name"@, json_text(tool_name@)),
            ("run_id"@, json_text(self.run_id@)),
            ("tool_id"@, json_text(tool_id@)),
        ]);
        fields.object()
    }

    /// Takes note of an event, and tells the pages.
    pub fn handle(&mut self, event: AgentEvent, events: &mut EventHub)
        requires
            old(events)@.well_formed(),
        ensures
            final(events)@.well_formed(),
            final(self)@ == old(self)@.after(event@),
            final(events)@ == match old(self)@.told(event@) {
                Some(told) => old(events)@.published(told.0, told.1),
                None => old(events)@,
            },
    {
        match event {
            AgentEvent::TurnStarted { turn_id } => {
                let fields = Fields::new().text(
                    "run_id",
                    self.run_id.as_str(),
                ).text("turn_id", turn_id.as_str());
                assert(fields@ =~= seq![
                    ("run_id"@, json_text(self.run_id@)),
                    ("turn_id"@, json_text(turn_id@)),
                ]);
                let _ = events.publish("turn.started", fields.object().as_str());
                self.turn_id = Some(turn_id);
            },
            AgentEvent::Content { text } => {
                let fields = Fields::new().text("delta", text.as_str()).text(
                    "run_id",
                    self.run_id.as_str(),
                );
                assert(fields@ =~= seq![
                    ("delta"@, json_text(text@)),
                    ("run_id"@, json_text(self.run_id@)),
                ]);
                let _ = events.publish("assistant.delta", fields.object().as_str());
            },
            AgentEvent::Reasoning { text } => {
                let fields = Fields::new().text("delta", text.as_str()).text(
                    "run_id",
                    self.run_id.as_str(),
                );
                assert(fields@ =~= seq![
                    ("delta"@, json_text(text@)),
                    ("run_id"@, json_text(self.run_id@)),
                ]);
                let _ = events.publish("reasoning.delta", fields.object().as_str());
            },
            AgentEvent::ReasoningStart => {
                let fields = Fields::new().text("run_id", self.run_id.as_str());
                assert(fields@ =~= seq![
                    ("run_id"@, json_text(self.run_id@)),
                ]);
                let _ = events.publish("reasoning.start", fields.object().as_str());
            },
            AgentEvent::ReasoningReset => {
                let fields = Fields::new().text("run_id", self.run_id.as_str());
                assert(fields@ =~= seq![
                    ("run_id"@, json_text(self.run_id@)),
                ]);
                let _ = events.publish("reasoning.reset", fields.object().as_str());
            },
            AgentEvent::ReasoningPartStart => {
                let fields = Fields::new().text("run_id", self.run_id.as_str());
                assert(fields@ =~= seq![
                    ("run_id"@, json_text(self.run_id@)),
                ]);
                let _ = events.publish("reasoning.part_start", fields.object().as_str());
            },
            AgentEvent::ReasoningPartEnd => {
                let fields = Fields::new().text("run_id", self.run_id.as_str());
                assert(fields@ =~= seq![
                    ("run_id"@, json_text(self.run_id@)),
                ]);
                let _ = events.publish("reasoning.part_end", fields.object().as_str());
            },
            AgentEvent::CompactStart => {
                let fields = Fields::new().text("run_id", self.run_id.as_str());
                assert(fields@ =~= seq![
                    ("run_id"@, json_text(self.run_id@)),
                ]);
                let _ = events.publish("context.compact_start", fields.object().as_str());
            },
            AgentEvent::CompactEnd => {
                let fields = Fields::new().text("run_id", self.run_id.as_str());
                assert(fields@ =~= seq![
                    ("run_id"@, json_text(self.run_id@)),
                ]);
                let _ = events.publish("context.compact_end", fields.object().as_str());
            },
            AgentEvent::PopStart => {
                let fields = Fields::new().text("run_id", self.run_id.as_str());
                assert(fields@ =~= seq![
                    ("run_id"@, json_text(self.run_id@)),
                ]);
                let _ = events.publish("context.pop_start", fields.object().as_str());
            },
            AgentEvent::PopEnd => {
                let fields = Fields::new().text("run_id", self.run_id.as_str());
                assert(fields@ =~= seq![
                    ("run_id"@, json_text(self.run_id@)),
                ]);
                let _ = events.publish("context.pop_end", fields.object().as_str());
            },
            AgentEvent::ReasoningTitle { title } => {
                let fields = Fields::new().text(
                    "run_id",
                    self.run_id.as_str(),
                ).text("title", title.as_str());
                assert(fields@ =~= seq![
                    ("run_id"@, json_text(self.run_id@)),
                    ("title"@, json_text(title@)),
                ]);
                let _ = events.publish("reasoning.title", fields.object().as_str());
            },
            AgentEvent::ToolCall { name, display_name, arguments } => {
                let tool = self.next_tool(name);
                let fields = Fields::new()
                    .text("arguments", arguments.as_str())
                    .text("display_name", display_name.as_str())
                    .text("name", tool.name.as_str())
                    .text("run_id", self.run_id.as_str())
                    .text("tool_id", tool.id.as_str());
                assert(fields@ =~= seq![
                    ("arguments"@, json_text(arguments@)),
                    ("display_name"@, json_text(display_name@)),
                    ("name"@, json_text(tool.name@)),
                    ("run_id"@, json_text(self.run_id@)),
                    ("tool_id"@, json_text(tool.id@)),
                ]);
                let _ = events.publish("tool.started", fields.object().as_str());
                self.active_tool = Some(tool);
            },
            AgentEvent::ToolProgress { name, message } => {
                let (tool_id, tool_name) = self.tool_identity(name.as_str());
                let fields = Fields::new()
                    .text("message", message.as_str())
                    .text("name", tool_name.as_str())
                    .text("run_id", self.run_id.as_str())
                    .text("tool_id", tool_id.as_str());
                assert(fields@ =~= seq![
                    ("message"@, json_text(message@)),
                    ("name"@, json_text(tool_name@)),
                    ("run_id"@, json_text(self.run_id@)),
                    ("tool_id"@, json_text(tool_id@)),
                ]);
                let _ = events.publish("tool.progress", fields.object().as_str());
            },
            AgentEvent::CommandOutput { name, stderr, chunk } => {
                let (tool_id, tool_name) = self.tool_identity(name.as_str());
                let output = lossy_text(&chunk);
                let stream = if stderr { "stderr" } else { "stdout" };
                let fields = Fields::new()
                    .text("name", tool_name.as_str())
                    .text("output", output.as_str())
                    .text("run_id", self.run_id.as_str())
                    .text("stream", stream)
                    .text("tool_id", tool_id.as_str());
                assert(fields@ =~= seq![
                    ("name"@, json_text(tool_name@)),
                    ("output"@, json_text(output@)),
                    ("run_id"@, json_text(self.run_id@)),
                    ("stream"@, json_text(stream@)),
                    ("tool_id"@, json_text(tool_id@)),
                ]);
                let _ = events.publish("tool.output", fields.object().as_str());
            },
            AgentEvent::ToolResult { name, ok, output } => {
                let tool = self.finish_tool(name);
                let fields = Fields::new()
                    .text("name", tool.name.as_str())
                    .truth("ok", ok)
                    .text("output", output.as_str())
                    .text("run_id", self.run_id.as_str())
                    .text("tool_id", tool.id.as_str());
                assert(fields@ =~= seq![
                    ("name"@, json_text(tool.name@)),
                    ("ok"@, json_bool(ok)),
                    ("output"@, json_text(output@)),
                    ("run_id"@, json_text(self.run_id@)),
                    ("tool_id"@, json_text(tool.id@)),
                ]);
                let _ = events.publish("tool.finished", fields.object().as_str());
            },
            AgentEvent::AskQuestion { question_id, questions } => {
                let (tool_id, tool_name) = self.tool_identity("ask_question");
                let fields = Fields::new()
                    .text("name", tool_name.as_str())
                    .text("question_id", question_id.as_str())
                    .raw("questions", questions.as_str())
                    .text("run_id", self.run_id.as_str())
                    .text("tool_id", tool_id.as_str());
                assert(fields@ =~= seq![
                    ("name"@, json_text(tool_name@)),
                    ("question_id"@, json_text(question_id@)),
                    ("questions"@, questions@),
                    ("run_id"@, json_text(self.run_id@)),
                    ("tool_id"@, json_text(tool_id@)),
                ]);
                let _ = events.publish("question.requested", fields.object().as_str());
            },
            AgentEvent::QueuedPromptsConsumed { prompt_ids, mode, provider_id, model } => {
                let ids = encode_strings(&prompt_ids);
                let fields = Fields::new()
                    .text("mode", mode_name(mode))
                    .maybe_text("model", &model)
                    .raw("prompt_ids", ids.as_str())
                    .maybe_text("provider_id", &provider_id)
                    .text("run_id", self.run_id.as_str());
                assert(fields@ =~= seq![
                    ("mode"@, json_text(mode.word())),
                    ("model"@, maybe_json(model.deep_view())),
                    ("prompt_ids"@, ids@),
                    ("provider_id"@, maybe_json(provider_id.deep_view())),
                    ("run_id"@, json_text(self.run_id@)),
                ]);
                let _ = events.publish("queue.consumed", fields.object().as_str());
            },
            AgentEvent::CompactChunk { text } => {
                let fields = Fields::new().text("delta", text.as_str()).text(
                    "run_id",
                    self.run_id.as_str(),
                );
                assert(fields@ =~= seq![
                    ("delta"@, json_text(text@)),
                    ("run_id"@, json_text(self.run_id@)),
                ]);
                let _ = events.publish("context.compact_delta", fields.object().as_str());
            },
            AgentEvent::Image { name, emotion, action, saved } => {
                let json = self.image_payload(name.as_str(), &emotion, &action, &saved);
                let _ = events.publish("tool.image", json.as_str());
            },
            AgentEvent::OtherChunk => {},
            AgentEvent::ExternalOutput => {},
            AgentEvent::SpinnerTick => {},
        }
    }
}

} // verus!
