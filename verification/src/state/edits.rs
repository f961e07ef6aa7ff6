//! Single columns that are set, and assets that are read.

use crate::json::{json_object, json_text, Fields};
use crate::paths::below;
use crate::state::db::{outcome, ConversationDb, DbModel};
use crate::state::error::{StateError, StateErrorKind, StateErrorModel};
use crate::state::redo::with_turn_id;
use crate::state::rows::{SessionRow, SessionRowModel, TurnRow, TurnRowModel};
use crate::state::salvage::turn_in;
use crate::state::sessions::with_session_id;
use crate::state::types::{
    ArtifactAsset, ArtifactAssetData, ArtifactAssetDataModel, ArtifactAssetModel, ChatMessage,
    ChatMessageModel, ImageAsset, ImageAssetData, ImageAssetDataModel, ImageAssetModel,
    SessionRecordModel, ToolFlowRound, ToolFlowRoundModel,
};
use crate::state::store::{SharedState, StateStore};
use crate::table::{
    any, change_where, exists_row, first, first_row, map_rows, select, update, Row,
};
use crate::text::{join, joined, same};
use crate::web::models::{ActiveProviderModelConfig, ActiveProviderModelConfigModel};
use vstd::prelude::*;

verus! {

pub open spec fn set_name(name: Seq<char>) -> spec_fn(SessionRowModel) -> SessionRowModel {
    |r: SessionRowModel| SessionRowModel { record: SessionRecordModel { name, ..r.record }, ..r }
}

pub open spec fn set_workspace(workspace: Option<Seq<char>>) -> spec_fn(
    SessionRowModel,
) -> SessionRowModel {
    |r: SessionRowModel|
        SessionRowModel { record: SessionRecordModel { workspace, ..r.record }, ..r }
}

pub open spec fn set_model_override(models: Option<Seq<char>>) -> spec_fn(
    SessionRowModel,
) -> SessionRowModel {
    |r: SessionRowModel| SessionRowModel { model_override: models, ..r }
}

pub open spec fn set_tool_flow(flow: Seq<ToolFlowRoundModel>) -> spec_fn(
    TurnRowModel,
) -> TurnRowModel {
    |r: TurnRowModel| TurnRowModel { tool_flow: flow, ..r }
}

pub open spec fn set_context_messages(messages: Seq<ChatMessageModel>) -> spec_fn(
    TurnRowModel,
) -> TurnRowModel {
    |r: TurnRowModel| TurnRowModel { context_messages: messages, ..r }
}

pub open spec fn image_in(turns: Seq<TurnRowModel>, session_id: Seq<char>) -> spec_fn(
    ImageAssetDataModel,
) -> bool {
    |a: ImageAssetDataModel| any(turns, turn_in(session_id, a.asset.turn_id))
}

pub open spec fn artifact_in(turns: Seq<TurnRowModel>, session_id: Seq<char>) -> spec_fn(
    ArtifactAssetDataModel,
) -> bool {
    |a: ArtifactAssetDataModel| any(turns, turn_in(session_id, a.asset.turn_id))
}

pub open spec fn image_of() -> spec_fn(ImageAssetDataModel) -> ImageAssetModel {
    |a: ImageAssetDataModel| a.asset
}

pub open spec fn artifact_of() -> spec_fn(ArtifactAssetDataModel) -> ArtifactAssetModel {
    |a: ArtifactAssetDataModel| a.asset
}

pub open spec fn image_with_id(asset_id: Seq<char>) -> spec_fn(ImageAssetDataModel) -> bool {
    |a: ImageAssetDataModel| a.asset.asset_id == asset_id
}

pub open spec fn artifact_with_id(asset_id: Seq<char>) -> spec_fn(ArtifactAssetDataModel) -> bool {
    |a: ArtifactAssetDataModel| a.asset.asset_id == asset_id
}

impl DbModel {
    /// A session with one column set, if there is such a session.
    pub open spec fn with_session_changed(
        self,
        id: Seq<char>,
        change: spec_fn(SessionRowModel) -> SessionRowModel,
    ) -> Result<(DbModel, ()), StateErrorModel> {
        if any(self.sessions, with_session_id(id)) {
            Ok(
                (
                    DbModel {
                        sessions: change_where(self.sessions, with_session_id(id), change),
                        ..self
                    },
                    (),
                ),
            )
        } else {
            Err(StateErrorModel::about(StateErrorKind::SessionNotFound, id))
        }
    }

    pub open spec fn with_turn_changed(
        self,
        turn_id: Seq<char>,
        change: spec_fn(TurnRowModel) -> TurnRowModel,
    ) -> DbModel {
        DbModel { turns: change_where(self.turns, with_turn_id(turn_id), change), ..self }
    }

    /// The pictures of a session.
    pub open spec fn images_of(self, session_id: Seq<char>) -> Seq<ImageAssetModel> {
        self.images.filter(image_in(self.turns, session_id)).map_values(image_of())
    }

    /// The files of a session that tools made.
    pub open spec fn artifacts_of(self, session_id: Seq<char>) -> Seq<ArtifactAssetModel> {
        self.artifacts.filter(artifact_in(self.turns, session_id)).map_values(artifact_of())
    }
}

impl ConversationDb {
    fn change_session<G: Fn(&SessionRow) -> SessionRow>(
        &mut self,
        session_id: &str,
        change: G,
        Ghost(f): Ghost<spec_fn(SessionRowModel) -> SessionRowModel>,
    ) -> (result: Result<(), StateError>)
        requires
            forall|r: &SessionRow| #[trigger] change.requires((r,)),
            forall|r: &SessionRow, n: SessionRow| #[trigger]
                change.ensures((r,), n) ==> n.deep_view() == f(r.deep_view()),
        ensures
            outcome(
                result,
                old(self)@,
                final(self)@,
                old(self)@.with_session_changed(session_id@, f),
            ),
    {
        let matching = |r: &SessionRow| -> (b: bool)
            ensures
                b == with_session_id(session_id@)(r.deep_view()),
            { same(r.record.session_id.as_str(), session_id) };
        if !exists_row(&self.sessions, &matching, Ghost(with_session_id(session_id@))) {
            return Err(StateError::about(StateErrorKind::SessionNotFound, session_id));
        }
        self.sessions = update(
            &self.sessions,
            &matching,
            &change,
            Ghost(with_session_id(session_id@)),
            Ghost(f),
        );
        Ok(())
    }

    /// Gives a session another name.
    pub fn rename_session(&mut self, session_id: &str, name: &str) -> (result: Result<
        (),
        StateError,
    >)
        ensures
            outcome(
                result,
                old(self)@,
                final(self)@,
                old(self)@.with_session_changed(session_id@, set_name(name@)),
            ),
    {
        let change = |r: &SessionRow| -> (n: SessionRow)
            ensures
                n.deep_view() == set_name(name@)(r.deep_view()),
            {
                let mut n = r.dup();
                n.record.name = name.to_owned();
                n
            };
        self.change_session(session_id, &change, Ghost(set_name(name@)))
    }

    /// Binds a session to a directory, or to none.
    pub fn set_session_workspace(&mut self, session_id: &str, workspace: &Option<String>) -> (
    result: Result<(), StateError>)
        ensures
            outcome(
                result,
                old(self)@,
                final(self)@,
                old(self)@.with_session_changed(session_id@, set_workspace(workspace.deep_view())),
            ),
    {
        let change = |r: &SessionRow| -> (n: SessionRow)
            ensures
                n.deep_view() == set_workspace(workspace.deep_view())(r.deep_view()),
            {
                let mut n = r.dup();
                n.record.workspace = workspace.dup();
                n
            };
        self.change_session(session_id, &change, Ghost(set_workspace(workspace.deep_view())))
    }

    /// Gives a session models of its own, as JSON, or none.
    pub fn set_session_model_override(&mut self, session_id: &str, models: &Option<String>) -> (
    result: Result<(), StateError>)
        ensures
            outcome(
                result,
                old(self)@,
                final(self)@,
                old(self)@.with_session_changed(
                    session_id@,
                    set_model_override(models.deep_view()),
                ),
            ),
    {
        let change = |r: &SessionRow| -> (n: SessionRow)
            ensures
                n.deep_view() == set_model_override(models.deep_view())(r.deep_view()),
            {
                let mut n = r.dup();
                n.model_override = models.dup();
                n
            };
        self.change_session(session_id, &change, Ghost(set_model_override(models.deep_view())))
    }

    /// Keeps the rounds of tools of a turn.
    pub fn set_turn_tool_flow(&mut self, turn_id: &str, flow: &Vec<ToolFlowRound>)
        ensures
            final(self)@ == old(self)@.with_turn_changed(
                turn_id@,
                set_tool_flow(flow.deep_view()),
            ),
    {
        let matching = |r: &TurnRow| -> (b: bool)
            ensures
                b == with_turn_id(turn_id@)(r.deep_view()),
            { same(r.turn_id.as_str(), turn_id) };
        let change = |r: &TurnRow| -> (n: TurnRow)
            ensures
                n.deep_view() == set_tool_flow(flow.deep_view())(r.deep_view()),
            {
                let mut n = r.dup();
                n.tool_flow = flow.dup();
                n
            };
        self.turns = update(
            &self.turns,
            &matching,
            &change,
            Ghost(with_turn_id(turn_id@)),
            Ghost(set_tool_flow(flow.deep_view())),
        );
    }

    /// Keeps what was sent to the model behind the prompt of a turn.
    pub fn set_turn_context_messages(&mut self, turn_id: &str, messages: &Vec<ChatMessage>)
        ensures
            final(self)@ == old(self)@.with_turn_changed(
                turn_id@,
                set_context_messages(messages.deep_view()),
            ),
    {
        let matching = |r: &TurnRow| -> (b: bool)
            ensures
                b == with_turn_id(turn_id@)(r.deep_view()),
            { same(r.turn_id.as_str(), turn_id) };
        let change = |r: &TurnRow| -> (n: TurnRow)
            ensures
                n.deep_view() == set_context_messages(messages.deep_view())(r.deep_view()),
            {
                let mut n = r.dup();
                n.context_messages = messages.dup();
                n
            };
        self.turns = update(
            &self.turns,
            &matching,
            &change,
            Ghost(with_turn_id(turn_id@)),
            Ghost(set_context_messages(messages.deep_view())),
        );
    }

    fn turn_is_in(&self, session_id: &str, turn_id: &str) -> (yes: bool)
        ensures
            yes == any(self@.turns, turn_in(session_id@, turn_id@)),
    {
        let matching = |r: &TurnRow| -> (b: bool)
            ensures
                b == turn_in(session_id@, turn_id@)(r.deep_view()),
            { same(r.turn_id.as_str(), turn_id) && same(r.session_id.as_str(), session_id) };
        exists_row(&self.turns, &matching, Ghost(turn_in(session_id@, turn_id@)))
    }

    /// The pictures of a session.
    pub fn load_image_assets(&self, session_id: &str) -> (assets: Vec<ImageAsset>)
        ensures
            assets.deep_view() == self@.images_of(session_id@),
    {
        let its = |a: &ImageAssetData| -> (b: bool)
            ensures
                b == image_in(self@.turns, session_id@)(a.deep_view()),
            { self.turn_is_in(session_id, a.asset.turn_id.as_str()) };
        let asset = |a: &ImageAssetData| -> (m: ImageAsset)
            ensures
                m.deep_view() == image_of()(a.deep_view()),
            { a.asset.dup() };
        let own = select(&self.images, &its, Ghost(image_in(self@.turns, session_id@)));
        map_rows(&own, &asset, Ghost(image_of()))
    }

    /// A picture and what it holds.
    pub fn load_image_asset(&self, asset_id: &str) -> (asset: Option<ImageAssetData>)
        ensures
            asset.deep_view() == first(self@.images, image_with_id(asset_id@)),
    {
        let this = |a: &ImageAssetData| -> (b: bool)
            ensures
                b == image_with_id(asset_id@)(a.deep_view()),
            { same(a.asset.asset_id.as_str(), asset_id) };
        first_row(&self.images, &this, Ghost(image_with_id(asset_id@)))
    }

    /// The files of a session that tools made.
    pub fn load_artifact_assets(&self, session_id: &str) -> (assets: Vec<ArtifactAsset>)
        ensures
            assets.deep_view() == self@.artifacts_of(session_id@),
    {
        let its = |a: &ArtifactAssetData| -> (b: bool)
            ensures
                b == artifact_in(self@.turns, session_id@)(a.deep_view()),
            { self.turn_is_in(session_id, a.asset.turn_id.as_str()) };
        let asset = |a: &ArtifactAssetData| -> (m: ArtifactAsset)
            ensures
                m.deep_view() == artifact_of()(a.deep_view()),
            { a.asset.dup() };
        let own = select(&self.artifacts, &its, Ghost(artifact_in(self@.turns, session_id@)));
        map_rows(&own, &asset, Ghost(artifact_of()))
    }

    /// A file that a tool made and what it holds.
    pub fn load_artifact_asset(&self, asset_id: &str) -> (asset: Option<ArtifactAssetData>)
        ensures
            asset.deep_view() == first(self@.artifacts, artifact_with_id(asset_id@)),
    {
        let this = |a: &ArtifactAssetData| -> (b: bool)
            ensures
                b == artifact_with_id(asset_id@)(a.deep_view()),
            { same(a.asset.asset_id.as_str(), asset_id) };
        first_row(&self.artifacts, &this, Ghost(artifact_with_id(asset_id@)))
    }
}

/// The JSON text of a pool of models.
pub open spec fn pool_json(models: Seq<ActiveProviderModelConfigModel>) -> Seq<char> {
    "["@ + joined(models.map_values(model_json()), ","@) + "]"@
}

pub open spec fn model_json() -> spec_fn(ActiveProviderModelConfigModel) -> Seq<char> {
    |m: ActiveProviderModelConfigModel|
        json_object(
            seq![("provider_id"@, json_text(m.provider_id)), ("model"@, json_text(m.model))],
        )
}

fn encode_pool(models: &Vec<ActiveProviderModelConfig>) -> (json: String)
    ensures
        json@ == pool_json(models.deep_view()),
{
    let mut parts: Vec<String> = Vec::new();
    let mut i: usize = 0;
    while i < models.len()
        invariant
            i <= models.len(),
            parts.len() == i,
            forall|j: int|
                0 <= j < i ==> #[trigger] parts[j]@ == model_json()(models[j].deep_view()),
        decreases models.len() - i,
    {
        let fields = Fields::new().text("provider_id", models[i].provider_id.as_str()).text(
            "model",
            models[i].model.as_str(),
        );
        assert(fields@ =~= seq![
            ("provider_id"@, json_text(models[i as int].provider_id@)),
            ("model"@, json_text(models[i as int].model@)),
        ]);
        parts.push(fields.object());
        i += 1;
    }
    assert(parts.deep_view() =~= models.deep_view().map_values(model_json()));
    "[".to_owned().concat(join(&parts, ",").as_str()).concat("]")
}

/// What becomes of the files of a turn that was interrupted.
pub enum AfterInterruption {
    /// A redo was given up: the directory of the session is to hold what its turns
    /// produced.
    Reconcile(String),
    /// What the generation had produced so far is to be taken over.
    Recover(String),
}

/// The model of [`AfterInterruption`].
#[verifier::ext_equal]
pub enum AfterInterruptionModel {
    Reconcile(Seq<char>),
    Recover(Seq<char>),
}

impl View for AfterInterruption {
    type V = AfterInterruptionModel;

    open spec fn view(&self) -> AfterInterruptionModel {
        match self {
            AfterInterruption::Reconcile(session) => AfterInterruptionModel::Reconcile(session@),
            AfterInterruption::Recover(session) => AfterInterruptionModel::Recover(session@),
        }
    }
}

/// What a file of use begins as.
pub const EMPTY_USAGE: &'static str =
    "{\n  \"requests\": 0,\n  \"prompt_tokens\": 0,\n  \"completion_tokens\": 0,\n  \"total_tokens\": 0,\n  \"conversation_tokens\": 0\n}\n";

/// What a profile begins as.
pub const EMPTY_PROFILE: &'static str = "# GQY Profile\n\n";

impl StateStore {
    /// Gives a session another name.
    pub fn rename_session(&self, shared: &mut SharedState, session_id: &str, name: &str) -> (result:
        Result<(), StateError>)
        ensures
            outcome(
                result,
                old(shared)@.db,
                final(shared)@.db,
                old(shared)@.db.with_session_changed(session_id@, set_name(name@)),
            ),
            final(shared)@.access == old(shared)@.access,
            final(shared)@.entered == old(shared)@.entered,
    {
        shared.conv_db.rename_session(session_id, name)
    }

    /// Binds a session to a directory, or to none.
    pub fn set_session_workspace(
        &self,
        shared: &mut SharedState,
        session_id: &str,
        workspace: &Option<String>,
    ) -> (result: Result<(), StateError>)
        ensures
            outcome(
                result,
                old(shared)@.db,
                final(shared)@.db,
                old(shared)@.db.with_session_changed(
                    session_id@,
                    set_workspace(workspace.deep_view()),
                ),
            ),
            final(shared)@.access == old(shared)@.access,
            final(shared)@.entered == old(shared)@.entered,
    {
        shared.conv_db.set_session_workspace(session_id, workspace)
    }

    /// Gives a session models of its own; none, where there is none among them.
    pub fn set_session_model_override(
        &self,
        shared: &mut SharedState,
        session_id: &str,
        models: &Option<Vec<ActiveProviderModelConfig>>,
    ) -> (result: Result<(), StateError>)
        ensures
            outcome(
                result,
                old(shared)@.db,
                final(shared)@.db,
                old(shared)@.db.with_session_changed(
                    session_id@,
                    set_model_override(
                        match models.deep_view() {
                            Some(pool) if pool.len() > 0 => Some(pool_json(pool)),
                            _ => None,
                        },
                    ),
                ),
            ),
            final(shared)@.access == old(shared)@.access,
            final(shared)@.entered == old(shared)@.entered,
    {
        let json = match models {
            Some(pool) => {
                assert(pool.deep_view().len() == pool.len());
                if pool.len() > 0 {
                    Some(encode_pool(pool))
                } else {
                    None
                }
            },
            None => None,
        };
        shared.conv_db.set_session_model_override(session_id, &json)
    }

    /// Keeps the rounds of tools of a turn.
    pub fn set_turn_tool_flow(
        &self,
        shared: &mut SharedState,
        turn_id: &str,
        flow: &Vec<ToolFlowRound>,
    )
        ensures
            final(shared)@.db == old(shared)@.db.with_turn_changed(
                turn_id@,
                set_tool_flow(flow.deep_view()),
            ),
            final(shared)@.access == old(shared)@.access,
            final(shared)@.entered == old(shared)@.entered,
    {
        shared.conv_db.set_turn_tool_flow(turn_id, flow)
    }

    /// Keeps what was sent to the model behind the prompt of a turn.
    pub fn set_turn_context_messages(
        &self,
        shared: &mut SharedState,
        turn_id: &str,
        messages: &Vec<ChatMessage>,
    )
        ensures
            final(shared)@.db == old(shared)@.db.with_turn_changed(
                turn_id@,
                set_context_messages(messages.deep_view()),
            ),
            final(shared)@.access == old(shared)@.access,
            final(shared)@.entered == old(shared)@.entered,
    {
        shared.conv_db.set_turn_context_messages(turn_id, messages)
    }

    /// The pictures of this session.
    pub fn load_image_assets(&self, shared: &SharedState) -> (assets: Vec<ImageAsset>)
        ensures
            assets.deep_view() == shared@.db.images_of(shared@.session(self@)),
    {
        let session_id = self.session_id(shared);
        shared.conv_db.load_image_assets(session_id.as_str())
    }

    /// A picture and what it holds.
    pub fn load_image_asset(&self, shared: &SharedState, asset_id: &str) -> (asset: Option<
        ImageAssetData,
    >)
        ensures
            asset.deep_view() == first(shared@.db.images, image_with_id(asset_id@)),
    {
        shared.conv_db.load_image_asset(asset_id)
    }

    /// The files of this session that tools made.
    pub fn load_artifact_assets(&self, shared: &SharedState) -> (assets: Vec<ArtifactAsset>)
        ensures
            assets.deep_view() == shared@.db.artifacts_of(shared@.session(self@)),
    {
        let session_id = self.session_id(shared);
        shared.conv_db.load_artifact_assets(session_id.as_str())
    }

    /// A file that a tool made and what it holds.
    pub fn load_artifact_asset(&self, shared: &SharedState, asset_id: &str) -> (asset: Option<
        ArtifactAssetData,
    >)
        ensures
            asset.deep_view() == first(shared@.db.artifacts, artifact_with_id(asset_id@)),
    {
        shared.conv_db.load_artifact_asset(asset_id)
    }

    /// Clears this session. Gives the directory that is to be removed, as
    /// [`StateStore::clear_session_content`] does, and the file of use whose count
    /// for the conversation begins anew.
    pub fn reset_conversation(&self, shared: &mut SharedState) -> (result: Result<
        (String, String),
        StateError,
    >)
        ensures
            final(shared)@.db == old(shared)@.db.reset(old(shared)@.session(self@)),
            final(shared)@.access == old(shared)@.access,
            final(shared)@.entered == old(shared)@.entered,
            match self@.artifact_dir(old(shared)@.session(self@)) {
                Ok(dir) => result matches Ok(got) && got.0@ == dir && got.1@ == below(
                    self@.state_dir,
                    "usage.json"@,
                ),
                Err(error) => result matches Err(got) && got@ == error,
            },
    {
        match self.clear_session_content(shared) {
            Ok(dir) => Ok((dir, self.usage_file())),
            Err(error) => Err(error),
        }
    }

    /// What follows once a generation of a turn was interrupted: `restored` tells
    /// whether it was a redo, so that the reply before it came back.
    pub fn interrupt_turn_revision(&self, shared: &SharedState, turn_id: &str, restored: bool) -> (
    result: Result<AfterInterruption, StateError>)
        ensures
            match first(shared@.db.turns, with_turn_id(turn_id@)) {
                Some(turn) => result matches Ok(after) && after@ == if restored {
                    AfterInterruptionModel::Reconcile(turn.session_id)
                } else {
                    AfterInterruptionModel::Recover(turn.session_id)
                },
                None => result matches Err(error) && error@ == StateErrorModel::plain(
                    if restored {
                        StateErrorKind::RestoredTurnGone
                    } else {
                        StateErrorKind::InterruptedTurnGone
                    },
                ),
            },
    {
        let turn = shared.conv_db.turn_with_id(turn_id);
        assert(shared@.db == shared.conv_db@);
        match turn {
            Some(turn) => if restored {
                Ok(AfterInterruption::Reconcile(turn.session_id))
            } else {
                Ok(AfterInterruption::Recover(turn.session_id))
            },
            None => if restored {
                Err(StateError::plain(StateErrorKind::RestoredTurnGone))
            } else {
                Err(StateError::plain(StateErrorKind::InterruptedTurnGone))
            },
        }
    }

    /// The files that are to be written before the store is used: those of the
    /// two that there are not, each its path and what it begins as.
    pub fn init_files(&self, usage_exists: bool, profile_exists: bool) -> (files: Vec<
        (String, String),
    >)
        ensures
            files.deep_view() == (if usage_exists {
                Seq::empty()
            } else {
                seq![(below(self@.state_dir, "usage.json"@), EMPTY_USAGE@)]
            }) + (if profile_exists {
                Seq::empty()
            } else {
                seq![(below(self@.state_dir, "profile.md"@), EMPTY_PROFILE@)]
            }),
    {
        let mut files: Vec<(String, String)> = Vec::new();
        if !usage_exists {
            files.push((self.usage_file(), EMPTY_USAGE.to_owned()));
        }
        if !profile_exists {
            files.push((self.profile_file(), EMPTY_PROFILE.to_owned()));
        }
        assert(files.deep_view() =~= (if usage_exists {
            Seq::empty()
        } else {
            seq![(below(self@.state_dir, "usage.json"@), EMPTY_USAGE@)]
        }) + (if profile_exists {
            Seq::empty()
        } else {
            seq![(below(self@.state_dir, "profile.md"@), EMPTY_PROFILE@)]
        }));
        files
    }
}

} // verus!
