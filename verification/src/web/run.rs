//! A turn at work: what is done at its stages, and how it ends.

use crate::json::{json_bool, json_object, json_text, maybe_json, Fields};
use crate::table::{not, Row};
use crate::text::{decimal, decimal_text};
use crate::web::events::{of_run, EventHub, HubModel, PendingQuestionModel, QuestionBroker};
use crate::web::manager::{finish_run, ContextSnapshot, ManagerModel, ManagerState};
use crate::web::types::{mode_name, AgentMode};
use crate::web::util::{safe_error_message, shown_error};
use vstd::prelude::*;

verus! {

/// What a model answered with.
pub struct ChatResult {
    /// What it cost, as JSON.
    pub usage: String,
    pub usage_estimated: bool,
    pub provider_id: Option<String>,
    pub model: Option<String>,
}

/// The model of [`ChatResult`].
#[verifier::ext_equal]
pub struct ChatResultModel {
    pub usage: Seq<char>,
    pub usage_estimated: bool,
    pub provider_id: Option<Seq<char>>,
    pub model: Option<Seq<char>>,
}

impl DeepView for ChatResult {
    type V = ChatResultModel;

    open spec fn deep_view(&self) -> ChatResultModel {
        ChatResultModel {
            usage: self.usage.deep_view(),
            usage_estimated: self.usage_estimated,
            provider_id: self.provider_id.deep_view(),
            model: self.model.deep_view(),
        }
    }
}

impl Row for ChatResult {
    fn dup(&self) -> (copy: Self) {
        ChatResult {
            usage: self.usage.dup(),
            usage_estimated: self.usage_estimated,
            provider_id: self.provider_id.dup(),
            model: self.model.dup(),
        }
    }
}

/// How the work of a model on a message ended.
pub enum ChatOutcome {
    Finished(ChatResult),
    /// A question to the user was called off.
    QuestionCancelled,
    Failed(String),
    Cancelled,
    Shutdown,
}

/// The model of [`ChatOutcome`].
#[verifier::ext_equal]
pub enum ChatOutcomeModel {
    Finished(ChatResultModel),
    QuestionCancelled,
    Failed(Seq<char>),
    Cancelled,
    Shutdown,
}

impl View for ChatOutcome {
    type V = ChatOutcomeModel;

    open spec fn view(&self) -> ChatOutcomeModel {
        match self {
            ChatOutcome::Finished(result) => ChatOutcomeModel::Finished(result.deep_view()),
            ChatOutcome::QuestionCancelled => ChatOutcomeModel::QuestionCancelled,
            ChatOutcome::Failed(error) => ChatOutcomeModel::Failed(error@),
            ChatOutcome::Cancelled => ChatOutcomeModel::Cancelled,
            ChatOutcome::Shutdown => ChatOutcomeModel::Shutdown,
        }
    }
}

/// How the care for a context that is too full ended.
pub enum OverflowOutcome {
    Finished,
    Failed(String),
    Cancelled,
    Shutdown,
}

/// The model of [`OverflowOutcome`].
#[verifier::ext_equal]
pub enum OverflowOutcomeModel {
    Finished,
    Failed(Seq<char>),
    Cancelled,
    Shutdown,
}

impl View for OverflowOutcome {
    type V = OverflowOutcomeModel;

    open spec fn view(&self) -> OverflowOutcomeModel {
        match self {
            OverflowOutcome::Finished => OverflowOutcomeModel::Finished,
            OverflowOutcome::Failed(error) => OverflowOutcomeModel::Failed(error@),
            OverflowOutcome::Cancelled => OverflowOutcomeModel::Cancelled,
            OverflowOutcome::Shutdown => OverflowOutcomeModel::Shutdown,
        }
    }
}

/// What happens to a turn at work.
pub enum RunEvent {
    /// The tools were made ready, or could not be.
    SetUp(Option<String>),
    ChatEnded(ChatOutcome),
    /// The context was measured, or could not be.
    Measured(Option<String>),
    OverflowEnded(OverflowOutcome),
}

/// The model of [`RunEvent`].
#[verifier::ext_equal]
pub enum RunEventModel {
    SetUp(Option<Seq<char>>),
    ChatEnded(ChatOutcomeModel),
    Measured(Option<Seq<char>>),
    OverflowEnded(OverflowOutcomeModel),
}

impl View for RunEvent {
    type V = RunEventModel;

    open spec fn view(&self) -> RunEventModel {
        match self {
            RunEvent::SetUp(error) => RunEventModel::SetUp(error.deep_view()),
            RunEvent::ChatEnded(outcome) => RunEventModel::ChatEnded(outcome@),
            RunEvent::Measured(error) => RunEventModel::Measured(error.deep_view()),
            RunEvent::OverflowEnded(outcome) => RunEventModel::OverflowEnded(outcome@),
        }
    }
}

/// What a turn at work waits for.
pub enum Stage {
    /// That the tools are made ready.
    Setup,
    /// That the model has answered.
    Chat,
    /// That the context is measured.
    Measure(ChatResult),
    /// That a context that is too full is cared for.
    Overflow(ChatResult),
    /// Nothing: it is over. Says whether the worker takes more commands.
    Ended(bool),
}

/// The model of [`Stage`].
#[verifier::ext_equal]
pub enum StageModel {
    Setup,
    Chat,
    Measure(ChatResultModel),
    Overflow(ChatResultModel),
    Ended(bool),
}

impl View for Stage {
    type V = StageModel;

    open spec fn view(&self) -> StageModel {
        match self {
            Stage::Setup => StageModel::Setup,
            Stage::Chat => StageModel::Chat,
            Stage::Measure(result) => StageModel::Measure(result.deep_view()),
            Stage::Overflow(result) => StageModel::Overflow(result.deep_view()),
            Stage::Ended(more) => StageModel::Ended(*more),
        }
    }
}

/// What a turn at work changes: who is at work, what has happened, and what is
/// asked.
#[verifier::ext_equal]
pub struct RunWorld {
    pub manager: ManagerModel,
    pub hub: HubModel,
    pub pending: Seq<PendingQuestionModel>,
}

pub open spec fn world(
    manager: ManagerState,
    hub: EventHub,
    questions: QuestionBroker,
) -> RunWorld {
    RunWorld { manager: manager@, hub: hub@, pending: questions@ }
}

pub open spec fn run_json(run_id: Seq<char>) -> Seq<char> {
    json_object(seq![("run_id"@, json_text(run_id))])
}

fn encode_run(run_id: &str) -> (json: String)
    ensures
        json@ == run_json(run_id@),
{
    let fields = Fields::new().text("run_id", run_id);
    assert(fields@ =~= seq![("run_id"@, json_text(run_id@))]);
    fields.object()
}

pub open spec fn started_json(run_id: Seq<char>, mode: AgentMode) -> Seq<char> {
    json_object(seq![("mode"@, json_text(mode.word())), ("run_id"@, json_text(run_id))])
}

/// An error as a page is told of it.
pub open spec fn error_json(run_id: Seq<char>, error: Seq<char>) -> Seq<char> {
    json_object(
        seq![("message"@, json_text(shown_error(error))), ("run_id"@, json_text(run_id))],
    )
}

fn encode_error(run_id: &str, error: &str) -> (json: String)
    ensures
        json@ == error_json(run_id@, error@),
{
    let message = safe_error_message(error);
    let fields = Fields::new().text("message", message.as_str()).text("run_id", run_id);
    assert(fields@ =~= seq![
        ("message"@, json_text(shown_error(error@))),
        ("run_id"@, json_text(run_id@)),
    ]);
    fields.object()
}

pub open spec fn window_json(window: Option<usize>) -> Seq<char> {
    match window {
        Some(size) => decimal(size as nat),
        None => "null"@,
    }
}

/// What a page is told of a run that is done.
pub open spec fn completed_json(
    run_id: Seq<char>,
    result: ChatResultModel,
    context: ContextSnapshot,
) -> Seq<char> {
    json_object(
        seq![
            ("context_tokens"@, decimal(context.tokens as nat)),
            ("context_window"@, window_json(context.window)),
            ("model"@, maybe_json(result.model)),
            ("provider_id"@, maybe_json(result.provider_id)),
            ("run_id"@, json_text(run_id)),
            ("usage"@, result.usage),
            ("usage_estimated"@, json_bool(result.usage_estimated)),
        ],
    )
}

impl RunWorld {
    pub open spec fn published(self, kind: Seq<char>, data: Seq<char>) -> RunWorld {
        RunWorld { hub: self.hub.published(kind, data), ..self }
    }

    pub open spec fn finished(self, run_id: Seq<char>, context: Option<ContextSnapshot>) -> RunWorld {
        RunWorld { manager: self.manager.finished(run_id, context), ..self }
    }

    /// Nothing that the run asked is answered any more.
    pub open spec fn unasked(self, run_id: Seq<char>) -> RunWorld {
        RunWorld { pending: self.pending.filter(not(of_run(run_id))), ..self }
    }

    pub open spec fn cancelled(self, run_id: Seq<char>, context: Option<ContextSnapshot>) -> RunWorld {
        self.finished(run_id, context).published("run.cancelled"@, run_json(run_id))
    }

    pub open spec fn failed(
        self,
        run_id: Seq<char>,
        context: Option<ContextSnapshot>,
        error: Seq<char>,
    ) -> RunWorld {
        self.unasked(run_id).finished(run_id, context).published(
            "run.failed"@,
            error_json(run_id, error),
        )
    }

    pub open spec fn completed(
        self,
        run_id: Seq<char>,
        result: ChatResultModel,
        context: ContextSnapshot,
    ) -> RunWorld {
        self.finished(run_id, Some(context)).published(
            "run.completed"@,
            completed_json(run_id, result, context),
        )
    }

    /// The run is done, though its context could not be cared for.
    pub open spec fn completed_in_part(
        self,
        run_id: Seq<char>,
        result: ChatResultModel,
        context: Option<ContextSnapshot>,
        error: Seq<char>,
    ) -> RunWorld {
        self.published("context.error"@, error_json(run_id, error)).completed(
            run_id,
            result,
            self.context_or(context),
        )
    }

    /// A context that was measured or, where it was not, the last one.
    pub open spec fn context_or(self, context: Option<ContextSnapshot>) -> ContextSnapshot {
        match context {
            Some(context) => context,
            None => self.manager.context,
        }
    }

    /// What `event` makes of a run at `stage`. `context` is what is measured
    /// where the run ends, or why it could not be; `again` is what is measured
    /// after that.
    pub open spec fn advanced(
        self,
        run_id: Seq<char>,
        stage: StageModel,
        event: RunEventModel,
        context: Result<ContextSnapshot, Seq<char>>,
        again: Option<ContextSnapshot>,
    ) -> (RunWorld, StageModel) {
        let measured = match context {
            Ok(context) => Some(context),
            Err(_) => None,
        };
        match (stage, event) {
            (StageModel::Setup, RunEventModel::SetUp(None)) => (self, StageModel::Chat),
            (StageModel::Setup, RunEventModel::SetUp(Some(error))) => (
                self.failed(run_id, measured, error),
                StageModel::Ended(true),
            ),
            (StageModel::Chat, RunEventModel::ChatEnded(outcome)) => match outcome {
                ChatOutcomeModel::Cancelled => (
                    self.unasked(run_id).cancelled(run_id, measured),
                    StageModel::Ended(true),
                ),
                ChatOutcomeModel::Shutdown => (
                    self.unasked(run_id).cancelled(run_id, measured),
                    StageModel::Ended(false),
                ),
                ChatOutcomeModel::QuestionCancelled => (
                    self.unasked(run_id).cancelled(run_id, measured),
                    StageModel::Ended(true),
                ),
                ChatOutcomeModel::Failed(error) => (
                    self.failed(run_id, measured, error),
                    StageModel::Ended(true),
                ),
                ChatOutcomeModel::Finished(result) => (
                    self.unasked(run_id),
                    StageModel::Measure(result),
                ),
            },
            (StageModel::Measure(result), RunEventModel::Measured(None)) => (
                self,
                StageModel::Overflow(result),
            ),
            (StageModel::Measure(result), RunEventModel::Measured(Some(error))) => (
                self.completed_in_part(run_id, result, measured, error),
                StageModel::Ended(true),
            ),
            (StageModel::Overflow(result), RunEventModel::OverflowEnded(outcome)) => match outcome {
                OverflowOutcomeModel::Cancelled => (
                    self.completed(run_id, result, self.context_or(measured)),
                    StageModel::Ended(true),
                ),
                OverflowOutcomeModel::Shutdown => (
                    self.completed(run_id, result, self.context_or(measured)),
                    StageModel::Ended(false),
                ),
                OverflowOutcomeModel::Failed(error) => (
                    self.completed_in_part(run_id, result, measured, error),
                    StageModel::Ended(true),
                ),
                OverflowOutcomeModel::Finished => (
                    match context {
                        Ok(context) => self.completed(run_id, result, context),
                        Err(error) => self.completed_in_part(run_id, result, again, error),
                    },
                    StageModel::Ended(true),
                ),
            },
            _ => (self, stage),
        }
    }
}

/// Tells the pages that a run is done.
pub fn publish_completed(
    events: &mut EventHub,
    run_id: &str,
    result: &ChatResult,
    context: ContextSnapshot,
)
    requires
        old(events)@.well_formed(),
    ensures
        final(events)@.well_formed(),
        final(events)@ == old(events)@.published(
            "run.completed"@,
            completed_json(run_id@, result.deep_view(), context),
        ),
{
    let window = match context.window {
        Some(size) => decimal_text(size as u64),
        None => "null".to_owned(),
    };
    let fields = Fields::new().number("context_tokens", context.tokens).raw(
        "context_window",
        window.as_str(),
    ).maybe_text("model", &result.model).maybe_text("provider_id", &result.provider_id).text(
        "run_id",
        run_id,
    ).raw("usage", result.usage.as_str()).truth("usage_estimated", result.usage_estimated);
    assert(fields@ =~= seq![
        ("context_tokens"@, decimal(context.tokens as nat)),
        ("context_window"@, window_json(context.window)),
        ("model"@, maybe_json(result.deep_view().model)),
        ("provider_id"@, maybe_json(result.deep_view().provider_id)),
        ("run_id"@, json_text(run_id@)),
        ("usage"@, result.deep_view().usage),
        ("usage_estimated"@, json_bool(result.deep_view().usage_estimated)),
    ]);
    let _ = events.publish("run.completed", fields.object().as_str());
}

/// Ends a run that was called off.
pub fn finish_cancelled_run(
    manager: &mut ManagerState,
    events: &mut EventHub,
    context: Option<ContextSnapshot>,
    run_id: &str,
)
    requires
        old(events)@.well_formed(),
    ensures
        final(events)@.well_formed(),
        final(manager)@ == old(manager)@.finished(run_id@, context),
        final(events)@ == old(events)@.published("run.cancelled"@, run_json(run_id@)),
{
    finish_run(manager, run_id, context);
    let _ = events.publish("run.cancelled", encode_run(run_id).as_str());
}

/// Ends a run that failed.
pub fn finish_failed_run(
    manager: &mut ManagerState,
    events: &mut EventHub,
    questions: &mut QuestionBroker,
    context: Option<ContextSnapshot>,
    run_id: &str,
    error: &str,
)
    requires
        old(events)@.well_formed(),
    ensures
        final(events)@.well_formed(),
        world(*final(manager), *final(events), *final(questions)) == world(
            *old(manager),
            *old(events),
            *old(questions),
        ).failed(run_id@, context, error@),
{
    let _ = questions.cancel_run(run_id);
    finish_run(manager, run_id, context);
    let _ = events.publish("run.failed", encode_error(run_id, error).as_str());
}

/// Ends a run that is done, though its context could not be cared for.
pub fn finish_completed_with_context_error(
    manager: &mut ManagerState,
    events: &mut EventHub,
    context: Option<ContextSnapshot>,
    run_id: &str,
    result: &ChatResult,
    error: &str,
)
    requires
        old(events)@.well_formed(),
    ensures
        final(events)@.well_formed(),
        forall|questions: QuestionBroker|
            #![trigger world(*old(manager), *old(events), questions)]
            world(*final(manager), *final(events), questions) == world(
                *old(manager),
                *old(events),
                questions,
            ).completed_in_part(run_id@, result.deep_view(), context, error@),
{
    let _ = events.publish("context.error", encode_error(run_id, error).as_str());
    let context = match context {
        Some(context) => context,
        None => manager.context,
    };
    finish_run(manager, run_id, Some(context));
    publish_completed(events, run_id, result, context);
}

pub open spec fn measurement(context: Result<ContextSnapshot, String>) -> Result<
    ContextSnapshot,
    Seq<char>,
> {
    match context {
        Ok(context) => Ok(context),
        Err(error) => Err(error@),
    }
}

/// A turn at work.
pub struct TurnRun {
    pub run_id: String,
    pub stage: Stage,
}

impl TurnRun {
    /// Begins a run, and tells the pages.
    pub fn begin(run_id: String, mode: AgentMode, events: &mut EventHub) -> (run: TurnRun)
        requires
            old(events)@.well_formed(),
        ensures
            final(events)@.well_formed(),
            run.run_id == run_id,
            run.stage@ == StageModel::Setup,
            final(events)@ == old(events)@.published("run.started"@, started_json(run_id@, mode)),
    {
        let fields = Fields::new().text("mode", mode_name(mode)).text("run_id", run_id.as_str());
        assert(fields@ =~= seq![
            ("mode"@, json_text(mode.word())),
            ("run_id"@, json_text(run_id@)),
        ]);
        let _ = events.publish("run.started", fields.object().as_str());
        TurnRun { run_id, stage: Stage::Setup }
    }

    /// Whether the run is over and, if so, whether the worker takes more
    /// commands.
    pub fn ended(&self) -> (over: Option<bool>)
        ensures
            over == match self.stage@ {
                StageModel::Ended(more) => Some(more),
                _ => None,
            },
    {
        match &self.stage {
            Stage::Ended(more) => Some(*more),
            _ => None,
        }
    }

    /// Takes the run on. `context` is what is measured where the run ends, or
    /// why it could not be. `again` is what is measured after that: a run whose
    /// last measurement failed is told with it, and with the last known context
    /// where that failed too.
    pub fn advance(
        &mut self,
        event: RunEvent,
        context: Result<ContextSnapshot, String>,
        again: Option<ContextSnapshot>,
        manager: &mut ManagerState,
        events: &mut EventHub,
        questions: &mut QuestionBroker,
    )
        requires
            old(events)@.well_formed(),
        ensures
            final(events)@.well_formed(),
            final(self).run_id == old(self).run_id,
            ({
                let reached = world(*old(manager), *old(events), *old(questions)).advanced(
                    old(self).run_id@,
                    old(self).stage@,
                    event@,
                    measurement(context),
                    again,
                );
                &&& world(*final(manager), *final(events), *final(questions)) == reached.0
                &&& final(self).stage@ == reached.1
            }),
    {
        let measured: Option<ContextSnapshot> = match &context {
            Ok(context) => Some(*context),
            Err(_) => None,
        };
        let run_id = self.run_id.as_str();
        match (&self.stage, event) {
            (Stage::Setup, RunEvent::SetUp(None)) => {
                self.stage = Stage::Chat;
            },
            (Stage::Setup, RunEvent::SetUp(Some(error))) => {
                finish_failed_run(manager, events, questions, measured, run_id, error.as_str());
                self.stage = Stage::Ended(true);
            },
            (Stage::Chat, RunEvent::ChatEnded(outcome)) => {
                match outcome {
                    ChatOutcome::Cancelled => {
                        let _ = questions.cancel_run(run_id);
                        finish_cancelled_run(manager, events, measured, run_id);
                        self.stage = Stage::Ended(true);
                    },
                    ChatOutcome::Shutdown => {
                        let _ = questions.cancel_run(run_id);
                        finish_cancelled_run(manager, events, measured, run_id);
                        self.stage = Stage::Ended(false);
                    },
                    ChatOutcome::QuestionCancelled => {
                        let _ = questions.cancel_run(run_id);
                        finish_cancelled_run(manager, events, measured, run_id);
                        self.stage = Stage::Ended(true);
                    },
                    ChatOutcome::Failed(error) => {
                        finish_failed_run(
                            manager,
                            events,
                            questions,
                            measured,
                            run_id,
                            error.as_str(),
                        );
                        self.stage = Stage::Ended(true);
                    },
                    ChatOutcome::Finished(result) => {
                        let _ = questions.cancel_run(run_id);
                        self.stage = Stage::Measure(result);
                    },
                }
            },
            (Stage::Measure(result), RunEvent::Measured(None)) => {
                let result = result.dup();
                self.stage = Stage::Overflow(result);
            },
            (Stage::Measure(result), RunEvent::Measured(Some(error))) => {
                finish_completed_with_context_error(
                    manager,
                    events,
                    measured,
                    run_id,
                    result,
                    error.as_str(),
                );
                self.stage = Stage::Ended(true);
            },
            (Stage::Overflow(result), RunEvent::OverflowEnded(outcome)) => {
                let known = match measured {
                    Some(context) => context,
                    None => manager.context,
                };
                match outcome {
                    OverflowOutcome::Cancelled => {
                        finish_run(manager, run_id, Some(known));
                        publish_completed(events, run_id, result, known);
                        self.stage = Stage::Ended(true);
                    },
                    OverflowOutcome::Shutdown => {
                        finish_run(manager, run_id, Some(known));
                        publish_completed(events, run_id, result, known);
                        self.stage = Stage::Ended(false);
                    },
                    OverflowOutcome::Failed(error) => {
                        finish_completed_with_context_error(
                            manager,
                            events,
                            measured,
                            run_id,
                            result,
                            error.as_str(),
                        );
                        self.stage = Stage::Ended(true);
                    },
                    OverflowOutcome::Finished => {
                        match &context {
                            Ok(context) => {
                                finish_run(manager, run_id, Some(*context));
                                publish_completed(events, run_id, result, *context);
                            },
                            Err(error) => {
                                finish_completed_with_context_error(
                                    manager,
                                    events,
                                    again,
                                    run_id,
                                    result,
                                    error.as_str(),
                                );
                            },
                        }
                        self.stage = Stage::Ended(true);
                    },
                }
            },
            _ => {},
        }
    }
}

} // verus!
