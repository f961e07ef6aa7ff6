//! The worker that runs turns one after the other, and what it does with what it
//! is told meanwhile.

use crate::text::{one_of, same};
use crate::web::manager::{finish_run, release_admin, ManagerModel, ManagerState};
use crate::web::models::{ActiveProviderModelConfig, ActiveProviderModelConfigModel};
use vstd::prelude::*;

verus! {

/// Why a change of the configuration or the conversation failed.
pub enum AdminFailure {
    Invalid(String),
    Internal(String),
}

/// The model of [`AdminFailure`].
#[verifier::ext_equal]
pub enum AdminFailureModel {
    Invalid(Seq<char>),
    Internal(Seq<char>),
}

impl View for AdminFailure {
    type V = AdminFailureModel;

    open spec fn view(&self) -> AdminFailureModel {
        match self {
            AdminFailure::Invalid(message) => AdminFailureModel::Invalid(message@),
            AdminFailure::Internal(message) => AdminFailureModel::Internal(message@),
        }
    }
}

/// What the worker is told. What comes with a command and decides nothing stays
/// with the sender.
pub enum ActorCommand {
    StartTurn { run_id: String },
    Pi,
    Cancel { run_id: String },
    SetModels { models: Vec<ActiveProviderModelConfig> },
    ApplyConfig { reset_conversation: bool },
    ResetConversation,
    Shutdown,
}

/// The model of [`ActorCommand`].
#[verifier::ext_equal]
pub enum ActorCommandModel {
    StartTurn { run_id: Seq<char> },
    Pi,
    Cancel { run_id: Seq<char> },
    SetModels { models: Seq<ActiveProviderModelConfigModel> },
    ApplyConfig { reset_conversation: bool },
    ResetConversation,
    Shutdown,
}

impl View for ActorCommand {
    type V = ActorCommandModel;

    open spec fn view(&self) -> ActorCommandModel {
        match self {
            ActorCommand::StartTurn { run_id } => ActorCommandModel::StartTurn { run_id: run_id@ },
            ActorCommand::Pi => ActorCommandModel::Pi,
            ActorCommand::Cancel { run_id } => ActorCommandModel::Cancel { run_id: run_id@ },
            ActorCommand::SetModels { models } => ActorCommandModel::SetModels {
                models: models.deep_view(),
            },
            ActorCommand::ApplyConfig { reset_conversation } => ActorCommandModel::ApplyConfig {
                reset_conversation: *reset_conversation,
            },
            ActorCommand::ResetConversation => ActorCommandModel::ResetConversation,
            ActorCommand::Shutdown => ActorCommandModel::Shutdown,
        }
    }
}

/// What a command means for the run at work.
#[derive(Debug, Clone, Copy, PartialEq, Eq, Structural)]
pub enum ActiveDirective {
    Continue,
    Cancel,
    Shutdown,
}

/// What is to be done about a command while a run is at work: what it means for
/// the run, and the refusal that its sender is told, if it is told one.
#[verifier::ext_equal]
pub struct DirectiveModel {
    pub directive: ActiveDirective,
    pub refusal: Option<AdminFailureModel>,
    pub manager: ManagerModel,
}

pub open spec fn refused(manager: ManagerModel, message: Seq<char>) -> DirectiveModel {
    DirectiveModel {
        directive: ActiveDirective::Continue,
        refusal: Some(AdminFailureModel::Invalid(message)),
        manager: manager.released(),
    }
}

pub open spec fn going_on(manager: ManagerModel) -> DirectiveModel {
    DirectiveModel { directive: ActiveDirective::Continue, refusal: None, manager }
}

/// What a command comes to while `run_id` is at work; `None` where no more can
/// come.
pub open spec fn directed(
    command: Option<ActorCommandModel>,
    run_id: Seq<char>,
    manager: ManagerModel,
) -> DirectiveModel {
    match command {
        None | Some(ActorCommandModel::Shutdown) => DirectiveModel {
            directive: ActiveDirective::Shutdown,
            refusal: None,
            manager,
        },
        Some(ActorCommandModel::Cancel { run_id: requested }) => if requested == run_id {
            DirectiveModel { directive: ActiveDirective::Cancel, refusal: None, manager }
        } else {
            going_on(manager)
        },
        Some(ActorCommandModel::Pi) => going_on(manager),
        Some(ActorCommandModel::SetModels { models: _ }) => refused(
            manager,
            "the model cannot be changed while a turn is running"@,
        ),
        Some(ActorCommandModel::ApplyConfig { reset_conversation: _ }) => refused(
            manager,
            "the configuration cannot be changed while a turn is running"@,
        ),
        Some(ActorCommandModel::ResetConversation) => refused(
            manager,
            "the conversation cannot be reset while a turn is running"@,
        ),
        Some(ActorCommandModel::StartTurn { run_id: rejected }) => going_on(
            manager.finished(rejected, None),
        ),
    }
}

pub open spec fn command_of(command: Option<&ActorCommand>) -> Option<ActorCommandModel> {
    match command {
        Some(command) => Some(command@),
        None => None,
    }
}

pub open spec fn failure_of(failure: Option<AdminFailure>) -> Option<AdminFailureModel> {
    match failure {
        Some(failure) => Some(failure@),
        None => None,
    }
}

/// What a command means for the run at work, and what its sender is told.
pub fn active_directive(
    command: Option<&ActorCommand>,
    run_id: &str,
    manager: &mut ManagerState,
) -> (told: (ActiveDirective, Option<AdminFailure>))
    ensures
        directed(command_of(command), run_id@, old(manager)@) == (DirectiveModel {
            directive: told.0,
            refusal: failure_of(told.1),
            manager: final(manager)@,
        }),
{
    match command {
        None => (ActiveDirective::Shutdown, None),
        Some(ActorCommand::Shutdown) => (ActiveDirective::Shutdown, None),
        Some(ActorCommand::Cancel { run_id: requested }) => {
            if same(requested.as_str(), run_id) {
                (ActiveDirective::Cancel, None)
            } else {
                (ActiveDirective::Continue, None)
            }
        },
        Some(ActorCommand::Pi) => (ActiveDirective::Continue, None),
        Some(ActorCommand::SetModels { models: _ }) => {
            release_admin(manager);
            (
                ActiveDirective::Continue,
                Some(
                    AdminFailure::Invalid(
                        "the model cannot be changed while a turn is running".to_owned(),
                    ),
                ),
            )
        },
        Some(ActorCommand::ApplyConfig { reset_conversation: _ }) => {
            release_admin(manager);
            (
                ActiveDirective::Continue,
                Some(
                    AdminFailure::Invalid(
                        "the configuration cannot be changed while a turn is running".to_owned(),
                    ),
                ),
            )
        },
        Some(ActorCommand::ResetConversation) => {
            release_admin(manager);
            (
                ActiveDirective::Continue,
                Some(
                    AdminFailure::Invalid(
                        "the conversation cannot be reset while a turn is running".to_owned(),
                    ),
                ),
            )
        },
        Some(ActorCommand::StartTurn { run_id: rejected }) => {
            finish_run(manager, rejected.as_str(), None);
            (ActiveDirective::Continue, None)
        },
    }
}

/// What the worker does next when no run is at work.
#[derive(Debug, Clone, Copy, PartialEq, Eq, Structural)]
pub enum IdleAction {
    /// Runs a turn.
    RunTurn,
    /// Passes a command on to the engine.
    RunPi,
    /// Does nothing.
    Ignore,
    /// Changes the models, and makes the context shorter before that.
    CompactThenSetModels,
    SetModels,
    ApplyConfig,
    ResetConversation,
    /// Takes no more commands.
    Stop,
}

pub open spec fn provider_ids(models: Seq<ActiveProviderModelConfigModel>) -> Set<Seq<char>> {
    Set::new(
        |id: Seq<char>| exists|i: int| 0 <= i < models.len() && #[trigger] models[i].provider_id == id,
    )
}

/// The providers in use: those of the active models or, where none are chosen,
/// the active one.
pub open spec fn active_providers(
    active_models: Option<Seq<ActiveProviderModelConfigModel>>,
    active_provider: Seq<char>,
) -> Set<Seq<char>> {
    match active_models {
        Some(models) => provider_ids(models),
        None => set![active_provider],
    }
}

fn ids_of(models: &Vec<ActiveProviderModelConfig>) -> (ids: Vec<String>)
    ensures
        ids.deep_view().to_set() == provider_ids(models.deep_view()),
{
    let mut ids: Vec<String> = Vec::new();
    let mut i: usize = 0;
    while i < models.len()
        invariant
            i <= models.len(),
            ids.len() == i,
            forall|j: int| 0 <= j < i ==> #[trigger] ids[j]@ == models[j].provider_id@,
        decreases models.len() - i,
    {
        ids.push(models[i].provider_id.clone());
        i += 1;
    }
    proof {
        let all = models.deep_view();
        let got = ids.deep_view();
        assert forall|id: Seq<char>| got.to_set().contains(id) == #[trigger] provider_ids(
            all,
        ).contains(id) by {
            if got.to_set().contains(id) {
                let k = choose|k: int| 0 <= k < got.len() && got[k] == id;
                assert(ids[k]@ == id);
                assert(all[k].provider_id == id);
            }
            if provider_ids(all).contains(id) {
                let k = choose|k: int| 0 <= k < all.len() && #[trigger] all[k].provider_id == id;
                assert(ids[k]@ == models[k].provider_id@);
                assert(got[k] == id);
            }
        }
        assert(got.to_set() =~= provider_ids(all));
    }
    ids
}

fn within(a: &Vec<String>, b: &Vec<String>) -> (yes: bool)
    ensures
        yes == a.deep_view().to_set().subset_of(b.deep_view().to_set()),
{
    let mut i: usize = 0;
    while i < a.len()
        invariant
            i <= a.len(),
            forall|j: int| 0 <= j < i ==> b.deep_view().contains(#[trigger] a.deep_view()[j]),
        decreases a.len() - i,
    {
        if !one_of(b, a[i].as_str()) {
            assert(a.deep_view()[i as int] == a[i as int]@);
            assert(a.deep_view().to_set().contains(a[i as int]@));
            return false;
        }
        i += 1;
    }
    proof {
        assert forall|id: Seq<char>| a.deep_view().to_set().contains(id) implies
            b.deep_view().to_set().contains(id) by {
            let k = choose|k: int| 0 <= k < a.deep_view().len() && a.deep_view()[k] == id;
            assert(b.deep_view().contains(a.deep_view()[k]));
        }
    }
    true
}

/// Whether a choice of models brings other providers than those in use.
pub fn provider_will_change(
    active_models: &Option<Vec<ActiveProviderModelConfig>>,
    active_provider: &str,
    models: &Vec<ActiveProviderModelConfig>,
) -> (changes: bool)
    ensures
        changes == (provider_ids(models.deep_view()) != active_providers(
            active_models.deep_view(),
            active_provider@,
        )),
{
    let next = ids_of(models);
    let current = match active_models {
        Some(list) => ids_of(list),
        None => {
            let mut ids: Vec<String> = Vec::new();
            ids.push(active_provider.to_owned());
            proof {
                let got = ids.deep_view();
                assert(got =~= seq![active_provider@]);
                assert(got[0] == active_provider@);
                assert(got.to_set() =~= set![active_provider@]);
            }
            ids
        },
    };
    let equal = within(&next, &current) && within(&current, &next);
    proof {
        if equal {
            assert(next.deep_view().to_set() =~= current.deep_view().to_set());
        }
    }
    !equal
}

/// What the worker does with a command when no run is at work; `None` where no
/// more can come.
pub open spec fn idle_action(
    command: Option<ActorCommandModel>,
    active_models: Option<Seq<ActiveProviderModelConfigModel>>,
    active_provider: Seq<char>,
) -> IdleAction {
    match command {
        None | Some(ActorCommandModel::Shutdown) => IdleAction::Stop,
        Some(ActorCommandModel::StartTurn { run_id: _ }) => IdleAction::RunTurn,
        Some(ActorCommandModel::Pi) => IdleAction::RunPi,
        Some(ActorCommandModel::Cancel { run_id: _ }) => IdleAction::Ignore,
        Some(ActorCommandModel::SetModels { models }) => if provider_ids(models)
            != active_providers(active_models, active_provider) {
            IdleAction::CompactThenSetModels
        } else {
            IdleAction::SetModels
        },
        Some(ActorCommandModel::ApplyConfig { reset_conversation: _ }) => IdleAction::ApplyConfig,
        Some(ActorCommandModel::ResetConversation) => IdleAction::ResetConversation,
    }
}

/// What the worker does with a command when no run is at work.
pub fn next_action(
    command: Option<&ActorCommand>,
    active_models: &Option<Vec<ActiveProviderModelConfig>>,
    active_provider: &str,
) -> (action: IdleAction)
    ensures
        action == idle_action(
            command_of(command),
            active_models.deep_view(),
            active_provider@,
        ),
{
    match command {
        None => IdleAction::Stop,
        Some(ActorCommand::Shutdown) => IdleAction::Stop,
        Some(ActorCommand::StartTurn { run_id: _ }) => IdleAction::RunTurn,
        Some(ActorCommand::Pi) => IdleAction::RunPi,
        Some(ActorCommand::Cancel { run_id: _ }) => IdleAction::Ignore,
        Some(ActorCommand::SetModels { models }) => {
            if provider_will_change(active_models, active_provider, models) {
                IdleAction::CompactThenSetModels
            } else {
                IdleAction::SetModels
            }
        },
        Some(ActorCommand::ApplyConfig { reset_conversation: _ }) => IdleAction::ApplyConfig,
        Some(ActorCommand::ResetConversation) => IdleAction::ResetConversation,
    }
}

} // verus!
