//! Which run is at work, and whether the assistant is reserved.

use crate::state::store::{SharedState, StateStore};
use crate::state::turns::running_in;
use crate::table::any;
use crate::text::same_some;
use crate::web::error::{checked, ApiError, ApiErrorModel, StatusCode};
use vstd::prelude::*;

verus! {

/// How full the context of the assistant is.
#[derive(Debug, Clone, Copy)]
pub struct ContextSnapshot {
    pub tokens: u64,
    /// How many tokens fit, where that is known.
    pub window: Option<usize>,
}

/// What is going on.
pub struct ManagerState {
    /// The run at work.
    pub active_run_id: Option<String>,
    /// Whether the configuration or the conversation is being changed.
    pub admin_busy: bool,
    pub context: ContextSnapshot,
}

/// The model of [`ManagerState`].
#[verifier::ext_equal]
pub struct ManagerModel {
    pub active_run_id: Option<Seq<char>>,
    pub admin_busy: bool,
    pub context: ContextSnapshot,
}

impl View for ManagerState {
    type V = ManagerModel;

    open spec fn view(&self) -> ManagerModel {
        ManagerModel {
            active_run_id: self.active_run_id.deep_view(),
            admin_busy: self.admin_busy,
            context: self.context,
        }
    }
}

pub open spec fn busy() -> ApiErrorModel {
    ApiErrorModel::new(StatusCode::Conflict, "GQY is busy with another operation"@)
}

pub open spec fn turn_is_running() -> ApiErrorModel {
    ApiErrorModel::new(StatusCode::Conflict, "a conversation turn is already running"@)
}

impl ManagerModel {
    /// A run is over. It is the active one no more, if it was.
    pub open spec fn finished(self, run_id: Seq<char>, context: Option<ContextSnapshot>) -> Self {
        ManagerModel {
            context: match context {
                Some(context) => context,
                None => self.context,
            },
            active_run_id: if self.active_run_id == Some(run_id) {
                None
            } else {
                self.active_run_id
            },
            ..self
        }
    }

    /// Whether the assistant is not reserved, and no run is at work.
    pub open spec fn free(self) -> bool {
        self.active_run_id is None && !self.admin_busy
    }

    pub open spec fn reserved(self) -> Self {
        ManagerModel { admin_busy: true, ..self }
    }

    pub open spec fn released(self) -> Self {
        ManagerModel { admin_busy: false, ..self }
    }

    pub open spec fn with_context(self, context: ContextSnapshot) -> Self {
        ManagerModel { context, ..self }
    }

    /// A run is at work from now on.
    pub open spec fn started(self, run_id: Seq<char>) -> Self {
        ManagerModel { active_run_id: Some(run_id), ..self }
    }
}

/// Ends a run: it is the active one no more, if it was.
pub fn finish_run(manager: &mut ManagerState, run_id: &str, context: Option<ContextSnapshot>)
    ensures
        final(manager)@ == old(manager)@.finished(run_id@, context),
{
    if let Some(context) = context {
        manager.context = context;
    }
    if same_some(&manager.active_run_id, run_id) {
        manager.active_run_id = None;
    }
}

/// Reserves the assistant for a change of the configuration or the conversation,
/// unless it is at work or reserved.
pub fn reserve_admin(manager: &mut ManagerState) -> (result: Result<(), ApiError>)
    ensures
        checked(
            result,
            if old(manager)@.free() {
                Ok(())
            } else {
                Err(busy())
            },
        ),
        final(manager)@ == if old(manager)@.free() {
            old(manager)@.reserved()
        } else {
            old(manager)@
        },
{
    if manager.active_run_id.is_some() || manager.admin_busy {
        return Err(
            ApiError::new(StatusCode::Conflict, "GQY is busy with another operation"),
        );
    }
    manager.admin_busy = true;
    Ok(())
}

/// Ends a reservation of the assistant.
pub fn release_admin(manager: &mut ManagerState)
    ensures
        final(manager)@ == old(manager)@.released(),
{
    manager.admin_busy = false;
}

/// Refuses where a turn is running in the conversation.
pub fn require_no_running_turn(store: &StateStore, shared: &SharedState) -> (result: Result<
    (),
    ApiError,
>)
    ensures
        checked(
            result,
            if any(shared@.db.turns, running_in(shared@.session(store@))) {
                Err(turn_is_running())
            } else {
                Ok(())
            },
        ),
{
    if store.has_running_turns(shared) {
        Err(ApiError::new(StatusCode::Conflict, "a conversation turn is already running"))
    } else {
        Ok(())
    }
}

/// Gives the assistant to a run, unless it is at work or reserved.
pub fn claim_run(manager: &mut ManagerState, run_id: &str) -> (result: Result<(), ApiError>)
    ensures
        checked(
            result,
            if old(manager)@.free() {
                Ok(())
            } else {
                Err(busy())
            },
        ),
        final(manager)@ == if old(manager)@.free() {
            old(manager)@.started(run_id@)
        } else {
            old(manager)@
        },
{
    if manager.active_run_id.is_some() || manager.admin_busy {
        return Err(
            ApiError::new(StatusCode::Conflict, "GQY is busy with another operation"),
        );
    }
    manager.active_run_id = Some(run_id.to_owned());
    Ok(())
}

} // verus!
