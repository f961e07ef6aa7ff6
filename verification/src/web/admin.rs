//! Changes of the configuration and of the conversation: their stages, what is
//! undone where one fails, and what a page is told.

use crate::state::types::ImageAsset;
use crate::json::{json_object, json_text, Fields};
use crate::web::actor::{AdminFailure, AdminFailureModel};
use crate::web::error::{checked, ApiError, ApiErrorModel, StatusCode};
use crate::web::events::EventHub;
use crate::web::manager::{release_admin, ContextSnapshot, ManagerModel, ManagerState};
use crate::web::models::SafeImageAsset;
use crate::web::payload::{asset_json, encode_asset};
use crate::web::types::shown_asset;
use crate::web::util::{safe_error_message, shown_error};
use crate::words::{contains, occurs};
use vstd::prelude::*;

verus! {

/// What became of a choice of models.
pub enum ModelsAttempt {
    /// The configuration does not allow it.
    Refused(String),
    /// The models are those in use.
    Unchanged,
    /// The assistant could not be made anew, or the configuration not saved.
    Failed(String),
    /// The assistant was made anew; so full is its context.
    Ready(ContextSnapshot),
}

/// The answer to an attempt at a change: done or not.
pub open spec fn answers(
    result: Result<(), AdminFailure>,
    expected: Result<(), AdminFailureModel>,
) -> bool {
    match expected {
        Ok(_) => result is Ok,
        Err(failure) => result matches Err(got) && got@ == failure,
    }
}

pub open spec fn models_answer(attempt: ModelsAttempt) -> Result<(), AdminFailureModel> {
    match attempt {
        ModelsAttempt::Refused(error) => Err(AdminFailureModel::Invalid(shown_error(error@))),
        ModelsAttempt::Failed(error) => Err(AdminFailureModel::Internal(shown_error(error@))),
        _ => Ok(()),
    }
}

/// Ends a change of the models.
pub fn rebuild_for_models(attempt: ModelsAttempt, manager: &mut ManagerState) -> (result: Result<
    (),
    AdminFailure,
>)
    ensures
        answers(result, models_answer(attempt)),
        final(manager)@ == match attempt {
            ModelsAttempt::Ready(context) => old(manager)@.with_context(context),
            _ => old(manager)@,
        },
{
    match attempt {
        ModelsAttempt::Refused(error) => Err(
            AdminFailure::Invalid(safe_error_message(error.as_str())),
        ),
        ModelsAttempt::Unchanged => Ok(()),
        ModelsAttempt::Failed(error) => Err(
            AdminFailure::Internal(safe_error_message(error.as_str())),
        ),
        ModelsAttempt::Ready(context) => {
            manager.context = context;
            Ok(())
        },
    }
}

/// Whether the file of the configuration is to be read again: it is there, and
/// was changed at another time than when it was last looked at. The times are in
/// nanoseconds; there is none where the file is not there.
pub fn reload_due(last: Option<u128>, now: Option<u128>) -> (due: bool)
    ensures
        due == (now is Some && now != last),
{
    match (last, now) {
        (_, None) => false,
        (None, Some(_)) => true,
        (Some(before), Some(changed)) => before != changed,
    }
}

/// What is done at a stage of a change of the configuration.
#[derive(Debug, Clone, Copy, PartialEq, Eq, Structural)]
pub enum ConfigStage {
    /// The documents are read as they are.
    ReadPrompts,
    /// The documents are written as they shall be.
    WritePrompts,
    /// What belongs to personas moves with their names.
    MoveScopes,
    /// The assistant is made anew.
    BuildAgent,
    /// The context of the new assistant is measured.
    MeasureContext,
    /// The configuration is saved.
    SaveConfig,
    /// The conversation is reset.
    Reset,
    /// The change is made.
    Done,
}

/// What is taken back when a change of the configuration fails.
#[derive(Debug, Clone, Copy, PartialEq, Eq, Structural)]
pub struct Undo {
    pub prompts: bool,
    pub scopes: bool,
    /// The file of the configuration, and the one of the system prompt.
    pub config: bool,
}

/// What follows a stage.
pub enum ConfigStep {
    Next(ConfigStage),
    Fail(AdminFailure, Undo),
}

/// The model of [`ConfigStep`].
#[verifier::ext_equal]
pub enum ConfigStepModel {
    Next(ConfigStage),
    Fail(AdminFailureModel, Undo),
}

impl View for ConfigStep {
    type V = ConfigStepModel;

    open spec fn view(&self) -> ConfigStepModel {
        match self {
            ConfigStep::Next(stage) => ConfigStepModel::Next(*stage),
            ConfigStep::Fail(failure, undo) => ConfigStepModel::Fail(failure@, *undo),
        }
    }
}

impl ConfigStage {
    /// The stage that follows where this one succeeds.
    pub open spec fn following(self, reset_conversation: bool) -> ConfigStage {
        match self {
            ConfigStage::ReadPrompts => ConfigStage::WritePrompts,
            ConfigStage::WritePrompts => ConfigStage::MoveScopes,
            ConfigStage::MoveScopes => ConfigStage::BuildAgent,
            ConfigStage::BuildAgent => ConfigStage::MeasureContext,
            ConfigStage::MeasureContext => ConfigStage::SaveConfig,
            ConfigStage::SaveConfig => if reset_conversation {
                ConfigStage::Reset
            } else {
                ConfigStage::Done
            },
            ConfigStage::Reset => ConfigStage::Done,
            ConfigStage::Done => ConfigStage::Done,
        }
    }

    /// How many stages come before this one.
    pub open spec fn rank(self) -> nat {
        match self {
            ConfigStage::ReadPrompts => 0,
            ConfigStage::WritePrompts => 1,
            ConfigStage::MoveScopes => 2,
            ConfigStage::BuildAgent => 3,
            ConfigStage::MeasureContext => 4,
            ConfigStage::SaveConfig => 5,
            ConfigStage::Reset => 6,
            ConfigStage::Done => 7,
        }
    }

    /// What is taken back where this stage fails. Writing the documents and
    /// moving what belongs to personas take themselves back where they fail;
    /// saving the configuration does not.
    pub open spec fn undo(self) -> Undo {
        Undo {
            prompts: self.rank() > ConfigStage::WritePrompts.rank(),
            scopes: self.rank() > ConfigStage::MoveScopes.rank(),
            config: self.rank() >= ConfigStage::SaveConfig.rank(),
        }
    }

    /// Whether a failure at this stage is the fault of the new configuration.
    pub open spec fn shows_a_bad_config(self) -> bool {
        self is BuildAgent || self is MeasureContext
    }

    pub open spec fn step(self, error: Option<Seq<char>>, reset_conversation: bool) -> ConfigStepModel {
        match error {
            None => ConfigStepModel::Next(self.following(reset_conversation)),
            Some(error) => ConfigStepModel::Fail(
                if self.shows_a_bad_config() {
                    AdminFailureModel::Invalid(shown_error(error))
                } else {
                    AdminFailureModel::Internal(shown_error(error))
                },
                self.undo(),
            ),
        }
    }

    /// What follows this stage: the next one or, where it failed with `error`,
    /// what is told and taken back.
    pub fn next(self, error: Option<String>, reset_conversation: bool) -> (step: ConfigStep)
        ensures
            step@ == self.step(error.deep_view(), reset_conversation),
    {
        if let Some(error) = error {
            let message = safe_error_message(error.as_str());
            return match self {
                ConfigStage::ReadPrompts | ConfigStage::WritePrompts => ConfigStep::Fail(
                    AdminFailure::Internal(message),
                    Undo { prompts: false, scopes: false, config: false },
                ),
                ConfigStage::MoveScopes => ConfigStep::Fail(
                    AdminFailure::Internal(message),
                    Undo { prompts: true, scopes: false, config: false },
                ),
                ConfigStage::BuildAgent | ConfigStage::MeasureContext => ConfigStep::Fail(
                    AdminFailure::Invalid(message),
                    Undo { prompts: true, scopes: true, config: false },
                ),
                ConfigStage::SaveConfig | ConfigStage::Reset | ConfigStage::Done => ConfigStep::Fail(
                    AdminFailure::Internal(message),
                    Undo { prompts: true, scopes: true, config: true },
                ),
            };
        }
        ConfigStep::Next(
            match self {
                ConfigStage::ReadPrompts => ConfigStage::WritePrompts,
                ConfigStage::WritePrompts => ConfigStage::MoveScopes,
                ConfigStage::MoveScopes => ConfigStage::BuildAgent,
                ConfigStage::BuildAgent => ConfigStage::MeasureContext,
                ConfigStage::MeasureContext => ConfigStage::SaveConfig,
                ConfigStage::SaveConfig => {
                    if reset_conversation {
                        ConfigStage::Reset
                    } else {
                        ConfigStage::Done
                    }
                },
                ConfigStage::Reset => ConfigStage::Done,
                ConfigStage::Done => ConfigStage::Done,
            },
        )
    }
}

/// Ends a change of the configuration that was made: the context is that of the
/// new assistant, and the pages are told where the conversation was reset.
pub fn config_rebuilt(
    context: ContextSnapshot,
    reset_conversation: bool,
    manager: &mut ManagerState,
    events: &mut EventHub,
)
    requires
        old(events)@.well_formed(),
    ensures
        final(events)@.well_formed(),
        final(manager)@ == old(manager)@.with_context(context),
        final(events)@ == if reset_conversation {
            old(events)@.published("conversation.reset"@, "{}"@)
        } else {
            old(events)@
        },
{
    manager.context = context;
    if reset_conversation {
        let _ = events.publish("conversation.reset", "{}");
    }
}

/// Ends a reset of the conversation. `attempt` is how full the context is after
/// it, or why it failed.
pub fn reset_actor_conversation(
    attempt: Result<ContextSnapshot, String>,
    manager: &mut ManagerState,
    events: &mut EventHub,
) -> (result: Result<(), AdminFailure>)
    requires
        old(events)@.well_formed(),
    ensures
        final(events)@.well_formed(),
        match attempt {
            Ok(context) => {
                &&& result is Ok
                &&& final(manager)@ == old(manager)@.with_context(context)
                &&& final(events)@ == old(events)@.published("conversation.reset"@, "{}"@)
            },
            Err(error) => {
                &&& answers(result, Err(AdminFailureModel::Internal(shown_error(error@))))
                &&& final(manager)@ == old(manager)@
                &&& final(events)@ == old(events)@
            },
        },
{
    match attempt {
        Ok(context) => {
            config_rebuilt(context, true, manager, events);
            Ok(())
        },
        Err(error) => Err(AdminFailure::Internal(safe_error_message(error.as_str()))),
    }
}

/// What a page asks to be changed.
#[derive(Debug, Clone, Copy, PartialEq, Eq, Structural)]
pub enum AdminChange {
    Models,
    Config,
    Conversation,
}

impl AdminChange {
    pub open spec fn doing(self) -> Seq<char> {
        match self {
            AdminChange::Models => "updating the model"@,
            AdminChange::Config => "updating the configuration"@,
            AdminChange::Conversation => "resetting the conversation"@,
        }
    }

    /// What a page is told: `None` where the worker stopped before it answered.
    pub open spec fn told(self, reply: Option<Result<(), AdminFailureModel>>) -> Result<
        (),
        ApiErrorModel,
    > {
        match reply {
            None => Err(
                ApiErrorModel::new(
                    StatusCode::ServiceUnavailable,
                    "agent worker stopped before "@ + self.doing(),
                ),
            ),
            Some(Ok(_)) => Ok(()),
            Some(Err(AdminFailureModel::Invalid(message))) => Err(
                ApiErrorModel::new(
                    if self is Conversation {
                        StatusCode::Conflict
                    } else {
                        StatusCode::BadRequest
                    },
                    message,
                ),
            ),
            Some(Err(AdminFailureModel::Internal(message))) => Err(
                ApiErrorModel::new(StatusCode::InternalServerError, shown_error(message)),
            ),
        }
    }
}

pub open spec fn reply_of(reply: Option<Result<(), AdminFailure>>) -> Option<
    Result<(), AdminFailureModel>,
> {
    match reply {
        None => None,
        Some(Ok(())) => Some(Ok(())),
        Some(Err(failure)) => Some(Err(failure@)),
    }
}

/// What a page is told of a change that it asked for. Where the worker stopped
/// before it answered, the reservation ends.
pub fn admin_answer(
    change: AdminChange,
    reply: Option<Result<(), AdminFailure>>,
    manager: &mut ManagerState,
) -> (result: Result<(), ApiError>)
    ensures
        checked(result, change.told(reply_of(reply))),
        final(manager)@ == if reply is None {
            old(manager)@.released()
        } else {
            old(manager)@
        },
{
    match reply {
        None => {
            release_admin(manager);
            let doing = match change {
                AdminChange::Models => "updating the model",
                AdminChange::Config => "updating the configuration",
                AdminChange::Conversation => "resetting the conversation",
            };
            Err(
                ApiError::new(
                    StatusCode::ServiceUnavailable,
                    "agent worker stopped before ".to_owned().concat(doing).as_str(),
                ),
            )
        },
        Some(Ok(())) => Ok(()),
        Some(Err(AdminFailure::Invalid(message))) => {
            let status = match change {
                AdminChange::Conversation => StatusCode::Conflict,
                _ => StatusCode::BadRequest,
            };
            Err(ApiError::new(status, message.as_str()))
        },
        Some(Err(AdminFailure::Internal(message))) => Err(
            ApiError::new(
                StatusCode::InternalServerError,
                safe_error_message(message.as_str()).as_str(),
            ),
        ),
    }
}

/// Whether a change of the prompts may be made: it resets the conversation, and
/// that must have been asked for.
pub fn confirm_prompt_change(prompt_changed: bool, reset_conversation: bool) -> (result: Result<
    (),
    ApiError,
>)
    ensures
        checked(
            result,
            if prompt_changed && !reset_conversation {
                Err(
                    ApiErrorModel::new(
                        StatusCode::Conflict,
                        "prompt changes require explicit confirmation to reset the conversation"@,
                    ),
                )
            } else {
                Ok(())
            },
        ),
{
    if prompt_changed && !reset_conversation {
        Err(
            ApiError::new(
                StatusCode::Conflict,
                "prompt changes require explicit confirmation to reset the conversation",
            ),
        )
    } else {
        Ok(())
    }
}

/// A picture that a tool of the engine made, and the turn that it belongs to.
pub struct BridgeImage {
    pub run_id: String,
    pub turn_id: String,
    pub tool_id: String,
    pub name: String,
}

pub open spec fn active_or_unknown(manager: ManagerModel) -> Seq<char> {
    match manager.active_run_id {
        Some(run_id) => run_id,
        None => "unknown"@,
    }
}

fn active_run(manager: &ManagerState) -> (run_id: String)
    ensures
        run_id@ == active_or_unknown(manager@),
{
    match &manager.active_run_id {
        Some(run_id) => run_id.clone(),
        None => "unknown".to_owned(),
    }
}

/// The tool that a picture is shown as coming from.
pub open spec fn bridge_tool(alt: Seq<char>) -> Seq<char> {
    if occurs(alt, "表情"@) || occurs(alt, "meme"@) {
        "show_meme"@
    } else {
        "image"@
    }
}

/// Where a picture belongs: nowhere where no turn is running.
pub fn bridge_image(manager: &ManagerState, turn_id: Option<&str>, alt: &str) -> (place: Option<
    BridgeImage,
>)
    ensures
        match turn_id {
            Some(turn) if turn@.len() > 0 => {
                &&& place matches Some(image)
                &&& image.run_id@ == active_or_unknown(manager@)
                &&& image.turn_id@ == turn@
                &&& image.tool_id@ == active_or_unknown(manager@) + "_bridge_image"@
                &&& image.name@ == bridge_tool(alt@)
            },
            _ => place is None,
        },
{
    match turn_id {
        Some(turn) => {
            if turn.is_empty() {
                return None;
            }
            let run_id = active_run(manager);
            let name = if contains(alt, "表情") || contains(alt, "meme") {
                "show_meme"
            } else {
                "image"
            };
            let tool_id = run_id.clone().concat("_bridge_image");
            Some(
                BridgeImage { run_id, turn_id: turn.to_owned(), tool_id, name: name.to_owned() },
            )
        },
        None => None,
    }
}

/// Tells the pages of a picture that was saved.
pub fn publish_bridge_image(events: &mut EventHub, place: &BridgeImage, asset: &ImageAsset)
    requires
        old(events)@.well_formed(),
    ensures
        final(events)@.well_formed(),
        final(events)@ == old(events)@.published(
            "tool.image"@,
            json_object(
                seq![
                    (
                        "asset"@,
                        asset_json(shown_asset(asset.deep_view(), place.name@ == "show_meme"@)),
                    ),
                    ("name"@, json_text(place.name@)),
                    ("run_id"@, json_text(place.run_id@)),
                    ("tool_id"@, json_text(place.tool_id@)),
                ],
            ),
        ),
{
    let hide_caption = crate::text::same(place.name.as_str(), "show_meme");
    let shown = SafeImageAsset::from_asset(asset, hide_caption);
    let json = encode_asset(&shown);
    let fields = Fields::new().raw("asset", json.as_str()).text("name", place.name.as_str()).text(
        "run_id",
        place.run_id.as_str(),
    ).text("tool_id", place.tool_id.as_str());
    assert(fields@ =~= seq![
        ("asset"@, asset_json(shown_asset(asset.deep_view(), place.name@ == "show_meme"@))),
        ("name"@, json_text(place.name@)),
        ("run_id"@, json_text(place.run_id@)),
        ("tool_id"@, json_text(place.tool_id@)),
    ]);
    let _ = events.publish("tool.image", fields.object().as_str());
}

/// Tells the pages what the agents do. Nothing is told where no run is at work.
pub fn publish_bridge_progress(events: &mut EventHub, manager: &ManagerState, message: &str)
    requires
        old(events)@.well_formed(),
    ensures
        final(events)@.well_formed(),
        final(events)@ == if active_or_unknown(manager@) == "unknown"@ {
            old(events)@
        } else {
            old(events)@.published(
                "tool.progress"@,
                json_object(
                    seq![
                        ("message"@, json_text(message@)),
                        ("name"@, json_text("agent 集群活动"@)),
                        ("run_id"@, json_text(active_or_unknown(manager@))),
                        (
                            "tool_id"@,
                            json_text(active_or_unknown(manager@) + "_agent_activity"@),
                        ),
                    ],
                ),
            )
        },
{
    let run_id = active_run(manager);
    if crate::text::same(run_id.as_str(), "unknown") {
        return;
    }
    let tool_id = run_id.clone().concat("_agent_activity");
    let fields = Fields::new().text("message", message).text("name", "agent 集群活动").text(
        "run_id",
        run_id.as_str(),
    ).text("tool_id", tool_id.as_str());
    assert(fields@ =~= seq![
        ("message"@, json_text(message@)),
        ("name"@, json_text("agent 集群活动"@)),
        ("run_id"@, json_text(run_id@)),
        ("tool_id"@, json_text(run_id@ + "_agent_activity"@)),
    ]);
    let _ = events.publish("tool.progress", fields.object().as_str());
}

} // verus!
