//! Removing sessions and turns together with what hangs off them.

use crate::state::db::{ConversationDb, DbModel};
use crate::state::rows::{
    BackupRow, BackupRowModel, BindingRow, BindingRowModel, CheckpointRow, CheckpointRowModel,
    JournalEventRow, JournalEventRowModel, JournalSegmentRow, JournalSegmentRowModel,
    LoadedItemRow, LoadedItemRowModel, QuestionRow, QuestionRowModel, SessionRow, SessionRowModel,
    TurnRow, TurnRowModel,
};
use crate::state::types::{
    ArtifactAssetData, ArtifactAssetDataModel, ImageAssetData, ImageAssetDataModel,
};
use crate::table::{map_rows, not, reject, select};
use crate::text::one_of;
use vstd::prelude::*;

verus! {

pub open spec fn turn_id_of() -> spec_fn(TurnRowModel) -> Seq<char> {
    |r: TurnRowModel| r.turn_id
}

pub open spec fn session_id_of() -> spec_fn(SessionRowModel) -> Seq<char> {
    |r: SessionRowModel| r.record.session_id
}

pub open spec fn segment_among(ids: Seq<Seq<char>>) -> spec_fn(JournalSegmentRowModel) -> bool {
    |r: JournalSegmentRowModel| ids.contains(r.turn_id)
}

pub open spec fn event_among(ids: Seq<Seq<char>>) -> spec_fn(JournalEventRowModel) -> bool {
    |r: JournalEventRowModel| ids.contains(r.turn_id)
}

pub open spec fn checkpoint_among(ids: Seq<Seq<char>>) -> spec_fn(CheckpointRowModel) -> bool {
    |r: CheckpointRowModel| ids.contains(r.turn_id)
}

pub open spec fn backup_among(ids: Seq<Seq<char>>) -> spec_fn(BackupRowModel) -> bool {
    |r: BackupRowModel| ids.contains(r.turn_id)
}

pub open spec fn question_among(ids: Seq<Seq<char>>) -> spec_fn(QuestionRowModel) -> bool {
    |r: QuestionRowModel| ids.contains(r.turn_id)
}

pub open spec fn image_among(ids: Seq<Seq<char>>) -> spec_fn(ImageAssetDataModel) -> bool {
    |r: ImageAssetDataModel| ids.contains(r.asset.turn_id)
}

pub open spec fn artifact_among(ids: Seq<Seq<char>>) -> spec_fn(ArtifactAssetDataModel) -> bool {
    |r: ArtifactAssetDataModel| ids.contains(r.asset.turn_id)
}

pub open spec fn turn_in_sessions(ids: Seq<Seq<char>>) -> spec_fn(TurnRowModel) -> bool {
    |r: TurnRowModel| ids.contains(r.session_id)
}

pub open spec fn binding_of_sessions(ids: Seq<Seq<char>>) -> spec_fn(BindingRowModel) -> bool {
    |r: BindingRowModel| ids.contains(r.session_id)
}

pub open spec fn item_of_sessions(ids: Seq<Seq<char>>) -> spec_fn(LoadedItemRowModel) -> bool {
    |r: LoadedItemRowModel| ids.contains(r.session_id)
}

impl DbModel {
    /// Without the journal, checkpoint, backup, questions and produced files of
    /// the turns in `ids`.
    pub open spec fn without_children(self, ids: Seq<Seq<char>>) -> DbModel {
        DbModel {
            segments: self.segments.filter(not(segment_among(ids))),
            events: self.events.filter(not(event_among(ids))),
            checkpoints: self.checkpoints.filter(not(checkpoint_among(ids))),
            backups: self.backups.filter(not(backup_among(ids))),
            questions: self.questions.filter(not(question_among(ids))),
            question_backups: self.question_backups.filter(not(question_among(ids))),
            images: self.images.filter(not(image_among(ids))),
            image_backups: self.image_backups.filter(not(image_among(ids))),
            artifacts: self.artifacts.filter(not(artifact_among(ids))),
            artifact_backups: self.artifact_backups.filter(not(artifact_among(ids))),
            ..self
        }
    }

    /// Without the turns that satisfy `p` and what hangs off them.
    pub open spec fn without_turns(self, p: spec_fn(TurnRowModel) -> bool) -> DbModel {
        DbModel { turns: self.turns.filter(not(p)), ..self }.without_children(
            self.turns.filter(p).map_values(turn_id_of()),
        )
    }

    /// Without the sessions that satisfy `p`, their turns, their platform
    /// bindings and their loaded items.
    pub open spec fn without_sessions(self, p: spec_fn(SessionRowModel) -> bool) -> DbModel {
        let ids = self.sessions.filter(p).map_values(session_id_of());
        DbModel {
            sessions: self.sessions.filter(not(p)),
            bindings: self.bindings.filter(not(binding_of_sessions(ids))),
            loaded_items: self.loaded_items.filter(not(item_of_sessions(ids))),
            ..self
        }.without_turns(turn_in_sessions(ids))
    }
}

impl ConversationDb {
    pub(crate) fn delete_children(&mut self, ids: &Vec<String>)
        ensures
            final(self)@ == old(self)@.without_children(ids.deep_view()),
    {
        let drop_segments = |r: &JournalSegmentRow| -> (drop: bool)
            ensures
                drop == segment_among(ids.deep_view())(r.deep_view()),
            { one_of(ids, r.turn_id.as_str()) };
        self.segments = reject(
            &self.segments,
            &drop_segments,
            Ghost(segment_among(ids.deep_view())),
        );
        let drop_events = |r: &JournalEventRow| -> (drop: bool)
            ensures
                drop == event_among(ids.deep_view())(r.deep_view()),
            { one_of(ids, r.turn_id.as_str()) };
        self.events = reject(&self.events, &drop_events, Ghost(event_among(ids.deep_view())));
        let drop_checkpoints = |r: &CheckpointRow| -> (drop: bool)
            ensures
                drop == checkpoint_among(ids.deep_view())(r.deep_view()),
            { one_of(ids, r.turn_id.as_str()) };
        self.checkpoints = reject(
            &self.checkpoints,
            &drop_checkpoints,
            Ghost(checkpoint_among(ids.deep_view())),
        );
        let drop_backups = |r: &BackupRow| -> (drop: bool)
            ensures
                drop == backup_among(ids.deep_view())(r.deep_view()),
            { one_of(ids, r.turn_id.as_str()) };
        self.backups = reject(&self.backups, &drop_backups, Ghost(backup_among(ids.deep_view())));
        let question = |r: &QuestionRow| -> (drop: bool)
            ensures
                drop == question_among(ids.deep_view())(r.deep_view()),
            { one_of(ids, r.turn_id.as_str()) };
        self.questions = reject(&self.questions, &question, Ghost(question_among(ids.deep_view())));
        self.question_backups = reject(
            &self.question_backups,
            &question,
            Ghost(question_among(ids.deep_view())),
        );
        let image = |r: &ImageAssetData| -> (drop: bool)
            ensures
                drop == image_among(ids.deep_view())(r.deep_view()),
            { one_of(ids, r.asset.turn_id.as_str()) };
        self.images = reject(&self.images, &image, Ghost(image_among(ids.deep_view())));
        self.image_backups = reject(
            &self.image_backups,
            &image,
            Ghost(image_among(ids.deep_view())),
        );
        let artifact = |r: &ArtifactAssetData| -> (drop: bool)
            ensures
                drop == artifact_among(ids.deep_view())(r.deep_view()),
            { one_of(ids, r.asset.turn_id.as_str()) };
        self.artifacts = reject(&self.artifacts, &artifact, Ghost(artifact_among(ids.deep_view())));
        self.artifact_backups = reject(
            &self.artifact_backups,
            &artifact,
            Ghost(artifact_among(ids.deep_view())),
        );
    }

    /// Removes the turns that satisfy `p`, and says how many there were.
    pub(crate) fn delete_turns<F: Fn(&TurnRow) -> bool>(
        &mut self,
        test: F,
        Ghost(p): Ghost<spec_fn(TurnRowModel) -> bool>,
    ) -> (deleted: usize)
        requires
            forall|r: &TurnRow| #[trigger] test.requires((r,)),
            forall|r: &TurnRow, b: bool| #[trigger]
                test.ensures((r,), b) ==> b == p(r.deep_view()),
        ensures
            final(self)@ == old(self)@.without_turns(p),
            deleted == old(self)@.turns.filter(p).len(),
    {
        let gone = select(&self.turns, &test, Ghost(p));
        let id_of = |r: &TurnRow| -> (id: String)
            ensures
                id.deep_view() == turn_id_of()(r.deep_view()),
            { r.turn_id.clone() };
        let ids = map_rows(&gone, &id_of, Ghost(turn_id_of()));
        self.turns = reject(&self.turns, &test, Ghost(p));
        self.delete_children(&ids);
        gone.len()
    }

    /// Removes the sessions that satisfy `p`, and says how many there were.
    pub(crate) fn delete_sessions<F: Fn(&SessionRow) -> bool>(
        &mut self,
        test: F,
        Ghost(p): Ghost<spec_fn(SessionRowModel) -> bool>,
    ) -> (deleted: usize)
        requires
            forall|r: &SessionRow| #[trigger] test.requires((r,)),
            forall|r: &SessionRow, b: bool| #[trigger]
                test.ensures((r,), b) ==> b == p(r.deep_view()),
        ensures
            final(self)@ == old(self)@.without_sessions(p),
            deleted == old(self)@.sessions.filter(p).len(),
    {
        let gone = select(&self.sessions, &test, Ghost(p));
        let id_of = |r: &SessionRow| -> (id: String)
            ensures
                id.deep_view() == session_id_of()(r.deep_view()),
            { r.record.session_id.clone() };
        let ids = map_rows(&gone, &id_of, Ghost(session_id_of()));
        self.sessions = reject(&self.sessions, &test, Ghost(p));
        let drop_bindings = |r: &BindingRow| -> (drop: bool)
            ensures
                drop == binding_of_sessions(ids.deep_view())(r.deep_view()),
            { one_of(&ids, r.session_id.as_str()) };
        self.bindings = reject(
            &self.bindings,
            &drop_bindings,
            Ghost(binding_of_sessions(ids.deep_view())),
        );
        let drop_loaded_items = |r: &LoadedItemRow| -> (drop: bool)
            ensures
                drop == item_of_sessions(ids.deep_view())(r.deep_view()),
            { one_of(&ids, r.session_id.as_str()) };
        self.loaded_items = reject(
            &self.loaded_items,
            &drop_loaded_items,
            Ghost(item_of_sessions(ids.deep_view())),
        );
        let in_gone = |r: &TurnRow| -> (gone: bool)
            ensures
                gone == turn_in_sessions(ids.deep_view())(r.deep_view()),
            { one_of(&ids, r.session_id.as_str()) };
        self.delete_turns(&in_gone, Ghost(turn_in_sessions(ids.deep_view())));
        gone.len()
    }
}

} // verus!
