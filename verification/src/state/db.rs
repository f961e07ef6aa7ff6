//! The conversation store as a set of tables.
//!
//! Every operation on the store is one transaction: it either happens as a
//! whole, or returns an error and changes nothing.

use crate::state::rows::{
    AppStateRow, AppStateRowModel, AuditRow, AuditRowModel, BackupRow, BackupRowModel, BindingRow,
    BindingRowModel, CheckpointRow, CheckpointRowModel, JournalEventRow, JournalEventRowModel,
    JournalSegmentRow, JournalSegmentRowModel, LoadedItemRow, LoadedItemRowModel, PluginKvRow,
    PluginKvRowModel, QuestionRow, QuestionRowModel, QueuedPromptRow, QueuedPromptRowModel,
    SessionRow, SessionRowModel, TurnRow, TurnRowModel, UserAttachmentRow, UserAttachmentRowModel,
};
use crate::state::types::{
    ArtifactAssetData, ArtifactAssetDataModel, ImageAssetData, ImageAssetDataModel,
    PlatformAccessGrant, PlatformAccessGrantModel,
};
use crate::state::error::{StateError, StateErrorModel};
use crate::table::Row;
use vstd::prelude::*;

verus! {

/// The tables of the conversation store.
pub struct ConversationDb {
    pub sessions: Vec<SessionRow>,
    pub turns: Vec<TurnRow>,
    pub queued_prompts: Vec<QueuedPromptRow>,
    pub segments: Vec<JournalSegmentRow>,
    pub events: Vec<JournalEventRow>,
    pub checkpoints: Vec<CheckpointRow>,
    pub backups: Vec<BackupRow>,
    pub questions: Vec<QuestionRow>,
    pub question_backups: Vec<QuestionRow>,
    pub images: Vec<ImageAssetData>,
    pub image_backups: Vec<ImageAssetData>,
    pub artifacts: Vec<ArtifactAssetData>,
    pub artifact_backups: Vec<ArtifactAssetData>,
    pub attachments: Vec<UserAttachmentRow>,
    pub loaded_items: Vec<LoadedItemRow>,
    pub bindings: Vec<BindingRow>,
    pub grants: Vec<PlatformAccessGrant>,
    pub audit: Vec<AuditRow>,
    pub app_state: Vec<AppStateRow>,
    pub plugin_kv: Vec<PluginKvRow>,
}

/// What the tables hold.
#[verifier::ext_equal]
pub struct DbModel {
    pub sessions: Seq<SessionRowModel>,
    pub turns: Seq<TurnRowModel>,
    pub queued_prompts: Seq<QueuedPromptRowModel>,
    pub segments: Seq<JournalSegmentRowModel>,
    pub events: Seq<JournalEventRowModel>,
    pub checkpoints: Seq<CheckpointRowModel>,
    pub backups: Seq<BackupRowModel>,
    pub questions: Seq<QuestionRowModel>,
    pub question_backups: Seq<QuestionRowModel>,
    pub images: Seq<ImageAssetDataModel>,
    pub image_backups: Seq<ImageAssetDataModel>,
    pub artifacts: Seq<ArtifactAssetDataModel>,
    pub artifact_backups: Seq<ArtifactAssetDataModel>,
    pub attachments: Seq<UserAttachmentRowModel>,
    pub loaded_items: Seq<LoadedItemRowModel>,
    pub bindings: Seq<BindingRowModel>,
    pub grants: Seq<PlatformAccessGrantModel>,
    pub audit: Seq<AuditRowModel>,
    pub app_state: Seq<AppStateRowModel>,
    pub plugin_kv: Seq<PluginKvRowModel>,
}

impl View for ConversationDb {
    type V = DbModel;

    open spec fn view(&self) -> DbModel {
        DbModel {
            sessions: self.sessions.deep_view(),
            turns: self.turns.deep_view(),
            queued_prompts: self.queued_prompts.deep_view(),
            segments: self.segments.deep_view(),
            events: self.events.deep_view(),
            checkpoints: self.checkpoints.deep_view(),
            backups: self.backups.deep_view(),
            questions: self.questions.deep_view(),
            question_backups: self.question_backups.deep_view(),
            images: self.images.deep_view(),
            image_backups: self.image_backups.deep_view(),
            artifacts: self.artifacts.deep_view(),
            artifact_backups: self.artifact_backups.deep_view(),
            attachments: self.attachments.deep_view(),
            loaded_items: self.loaded_items.deep_view(),
            bindings: self.bindings.deep_view(),
            grants: self.grants.deep_view(),
            audit: self.audit.deep_view(),
            app_state: self.app_state.deep_view(),
            plugin_kv: self.plugin_kv.deep_view(),
        }
    }
}

/// Whether an operation that took the store from `before` to `after` and gave
/// `result` did what was expected of it: where an error was, it gave that error
/// and left the store alone.
pub open spec fn outcome<T: DeepView>(
    result: Result<T, StateError>,
    before: DbModel,
    after: DbModel,
    expected: Result<(DbModel, T::V), StateErrorModel>,
) -> bool {
    match expected {
        Ok((db, value)) => {
            &&& result matches Ok(got)
            &&& got.deep_view() == value
            &&& after == db
        },
        Err(error) => {
            &&& result matches Err(got)
            &&& got@ == error
            &&& after == before
        },
    }
}


impl DbModel {
    /// A store in which nothing has been recorded.
    pub open spec fn empty() -> DbModel {
        DbModel {
            sessions: Seq::empty(),
            turns: Seq::empty(),
            queued_prompts: Seq::empty(),
            segments: Seq::empty(),
            events: Seq::empty(),
            checkpoints: Seq::empty(),
            backups: Seq::empty(),
            questions: Seq::empty(),
            question_backups: Seq::empty(),
            images: Seq::empty(),
            image_backups: Seq::empty(),
            artifacts: Seq::empty(),
            artifact_backups: Seq::empty(),
            attachments: Seq::empty(),
            loaded_items: Seq::empty(),
            bindings: Seq::empty(),
            grants: Seq::empty(),
            audit: Seq::empty(),
            app_state: Seq::empty(),
            plugin_kv: Seq::empty(),
        }
    }
}

impl ConversationDb {
    /// A store in which nothing has been recorded.
    pub fn new() -> (db: ConversationDb)
        ensures
            db@ == DbModel::empty(),
    {
        let db = ConversationDb {
            sessions: Vec::new(),
            turns: Vec::new(),
            queued_prompts: Vec::new(),
            segments: Vec::new(),
            events: Vec::new(),
            checkpoints: Vec::new(),
            backups: Vec::new(),
            questions: Vec::new(),
            question_backups: Vec::new(),
            images: Vec::new(),
            image_backups: Vec::new(),
            artifacts: Vec::new(),
            artifact_backups: Vec::new(),
            attachments: Vec::new(),
            loaded_items: Vec::new(),
            bindings: Vec::new(),
            grants: Vec::new(),
            audit: Vec::new(),
            app_state: Vec::new(),
            plugin_kv: Vec::new(),
        };
        assert(db@ =~= DbModel::empty());
        db
    }

    /// A second store that holds the same.
    pub fn dup(&self) -> (copy: ConversationDb)
        ensures
            copy@ == self@,
    {
        ConversationDb {
            sessions: self.sessions.dup(),
            turns: self.turns.dup(),
            queued_prompts: self.queued_prompts.dup(),
            segments: self.segments.dup(),
            events: self.events.dup(),
            checkpoints: self.checkpoints.dup(),
            backups: self.backups.dup(),
            questions: self.questions.dup(),
            question_backups: self.question_backups.dup(),
            images: self.images.dup(),
            image_backups: self.image_backups.dup(),
            artifacts: self.artifacts.dup(),
            artifact_backups: self.artifact_backups.dup(),
            attachments: self.attachments.dup(),
            loaded_items: self.loaded_items.dup(),
            bindings: self.bindings.dup(),
            grants: self.grants.dup(),
            audit: self.audit.dup(),
            app_state: self.app_state.dup(),
            plugin_kv: self.plugin_kv.dup(),
        }
    }
}

} // verus!
