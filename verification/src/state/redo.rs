//! Answering the last input again, and taking a failed attempt back.

use crate::json::{encode_strings, json_strings};
use crate::state::checkpoint::{
    artifact_id, artifact_of, checkpoint_of, image_id, image_of, item_of, question_of,
};
use crate::state::db::{outcome, ConversationDb, DbModel};
use crate::state::error::{StateError, StateErrorKind, StateErrorModel};
use crate::state::keys::{item_key, unique};
use crate::state::journal::{
    event_row, largest_event_id, max_event_id, new_event, new_segment, segment_at, segment_of,
    segment_row, PENDING_PLACEHOLDER,
};
use crate::state::queue::{
    by_prompt_seq, prompt_id_of, prompt_ids, sort_prompts,
};
use crate::state::rows::{
    BackupRow, BackupRowModel, CheckpointRow, CheckpointRowModel, JournalEventRow,
    JournalEventRowModel, JournalSegmentRow, LoadedItemRow, LoadedItemRowModel, QuestionRow,
    QuestionRowModel, QueuedPromptRow, QueuedPromptRowModel, TurnRow, TurnRowModel,
};
use crate::state::sessions::{by_seq, plain_turn};
use crate::state::types::{
    ArtifactAssetData, ArtifactAssetDataModel, ImageAssetData, ImageAssetDataModel, QueuedPrompt,
    QueuedPromptModel, RedoCandidate, RedoCandidateModel, RedoCheckpointBackup,
    RedoCheckpointBackupModel, RedoInputKind, RedoStart, RedoStartModel, TurnRedoBackup,
    TurnRedoBackupModel, TurnRedoCheckpointPayload, TurnRedoCheckpointPayloadModel,
};
use crate::table::{
    any, append, append_all, change_where, count, count_rows, exists_row, first, first_row,
    last_of, last_row, map_rows, not, order_by, reject, select, update, Row,
};
use crate::text::{decimal, decimal_text, one_of, same, same_some};
use vstd::prelude::*;

verus! {

pub open spec fn consumed_by(turn_id: Seq<char>) -> spec_fn(QueuedPromptRowModel) -> bool {
    |r: QueuedPromptRowModel| r.turn_id == Some(turn_id) && r.status == "consumed"@
}

pub open spec fn consumed_prompt(prompt_id: Seq<char>, turn_id: Seq<char>) -> spec_fn(
    QueuedPromptRowModel,
) -> bool {
    |r: QueuedPromptRowModel| r.prompt_id == prompt_id && consumed_by(turn_id)(r)
}

pub open spec fn consumed_in(session_id: Seq<char>, turn_id: Seq<char>) -> spec_fn(
    QueuedPromptRowModel,
) -> bool {
    |r: QueuedPromptRowModel| r.session_id == session_id && consumed_by(turn_id)(r)
}

pub open spec fn with_prompt_id(prompt_id: Seq<char>) -> spec_fn(QueuedPromptRowModel) -> bool {
    |r: QueuedPromptRowModel| r.prompt_id == prompt_id
}

pub open spec fn prompt_among(ids: Seq<Seq<char>>) -> spec_fn(QueuedPromptRowModel) -> bool {
    |r: QueuedPromptRowModel| ids.contains(r.prompt_id)
}

/// A prompt with another wording.
pub open spec fn reworded_prompt(
    content: Seq<char>,
    display_content: Seq<char>,
    context_content: Option<Seq<char>>,
) -> spec_fn(QueuedPromptRowModel) -> QueuedPromptRowModel {
    |r: QueuedPromptRowModel|
        QueuedPromptRowModel { content, display_content, context_content, ..r }
}

pub open spec fn other_running(session_id: Seq<char>, turn_id: Seq<char>) -> spec_fn(
    TurnRowModel,
) -> bool {
    |r: TurnRowModel|
        r.session_id == session_id && r.status == "running"@ && r.turn_id != turn_id
}

pub open spec fn with_turn_id(turn_id: Seq<char>) -> spec_fn(TurnRowModel) -> bool {
    |r: TurnRowModel| r.turn_id == turn_id
}

/// A turn with another wording of its prompt.
pub open spec fn reworded(content: Seq<char>, display_content: Seq<char>) -> spec_fn(
    TurnRowModel,
) -> TurnRowModel {
    |r: TurnRowModel| TurnRowModel { user_content: content, display_content, ..r }
}

pub open spec fn settled_turn(turn_id: Seq<char>, session_id: Seq<char>, revision: i64) -> spec_fn(
    TurnRowModel,
) -> bool {
    |r: TurnRowModel|
        {
            &&& r.turn_id == turn_id
            &&& r.session_id == session_id
            &&& r.revision == revision
            &&& r.status != "running"@
        }
}

/// A turn whose answer is being generated again.
pub open spec fn claimed(reports_json: Seq<char>, owner_pid: u32, queue: Seq<char>) -> spec_fn(
    TurnRowModel,
) -> TurnRowModel {
    |r: TurnRowModel|
        TurnRowModel {
            assistant_content: PENDING_PLACEHOLDER@,
            assistant_reasoning: None,
            assistant_provider_id: None,
            assistant_model: None,
            assistant_timestamp: None,
            status: "running"@,
            tool_reports: reports_json,
            owner_pid: Some(owner_pid as i64),
            queue_session_id: Some(queue),
            token_total: 0,
            token_usage_estimated: false,
            revision: (r.revision + 1) as i64,
            ..r
        }
}

pub open spec fn backup_of(turn_id: Seq<char>) -> spec_fn(BackupRowModel) -> bool {
    |r: BackupRowModel| r.turn_id == turn_id
}

pub open spec fn backup_at(turn_id: Seq<char>, revision: i64) -> spec_fn(BackupRowModel) -> bool {
    |r: BackupRowModel| r.turn_id == turn_id && r.revision == revision
}

pub open spec fn question_from(turn_id: Seq<char>, index: i64) -> spec_fn(QuestionRowModel) -> bool {
    |r: QuestionRowModel| r.turn_id == turn_id && r.exchange_index >= index
}

/// An image that a turn produced after its checkpoint.
pub open spec fn image_beyond(mine: Seq<Seq<char>>, kept: Seq<Seq<char>>) -> spec_fn(
    ImageAssetDataModel,
) -> bool {
    |r: ImageAssetDataModel| mine.contains(r.asset.asset_id) && !kept.contains(r.asset.asset_id)
}

/// A file that a turn produced after its checkpoint.
pub open spec fn artifact_beyond(mine: Seq<Seq<char>>, kept: Seq<Seq<char>>) -> spec_fn(
    ArtifactAssetDataModel,
) -> bool {
    |r: ArtifactAssetDataModel|
        mine.contains(r.asset.asset_id) && !kept.contains(r.asset.asset_id)
}

pub open spec fn item_from_turn(session_id: Seq<char>, turn_id: Seq<char>) -> spec_fn(
    LoadedItemRowModel,
) -> bool {
    |r: LoadedItemRowModel| r.session_id == session_id && r.source_turn_id == Some(turn_id)
}

pub open spec fn item_from_triple(session_id: Seq<char>, now: Seq<char>) -> spec_fn(
    (Seq<char>, Seq<char>, Option<Seq<char>>),
) -> LoadedItemRowModel {
    |t: (Seq<char>, Seq<char>, Option<Seq<char>>)|
        LoadedItemRowModel {
            session_id,
            kind: t.0,
            name: t.1,
            source_turn_id: t.2,
            created_at: now,
            updated_at: now,
        }
}

pub open spec fn item_backup() -> spec_fn(LoadedItemRowModel) -> (
    Seq<char>,
    Seq<char>,
    Option<Seq<char>>,
    Seq<char>,
    Seq<char>,
) {
    |r: LoadedItemRowModel| (r.kind, r.name, r.source_turn_id, r.created_at, r.updated_at)
}

pub open spec fn item_restored(session_id: Seq<char>) -> spec_fn(
    (Seq<char>, Seq<char>, Option<Seq<char>>, Seq<char>, Seq<char>),
) -> LoadedItemRowModel {
    |t: (Seq<char>, Seq<char>, Option<Seq<char>>, Seq<char>, Seq<char>)|
        LoadedItemRowModel {
            session_id,
            kind: t.0,
            name: t.1,
            source_turn_id: t.2,
            created_at: t.3,
            updated_at: t.4,
        }
}

pub open spec fn event_of(turn_id: Seq<char>, revision: i64) -> spec_fn(
    JournalEventRowModel,
) -> bool {
    |r: JournalEventRowModel| r.turn_id == turn_id && r.event.revision == revision
}

pub open spec fn running_revision(turn_id: Seq<char>, revision: i64) -> spec_fn(
    TurnRowModel,
) -> bool {
    |r: TurnRowModel| r.turn_id == turn_id && r.revision == revision && r.status == "running"@
}

/// A turn as it was before a redo.
pub open spec fn restored(b: TurnRedoBackupModel, revision: i64) -> spec_fn(
    TurnRowModel,
) -> TurnRowModel {
    |r: TurnRowModel|
        TurnRowModel {
            user_content: b.user_content,
            display_content: b.display_content,
            assistant_content: b.assistant_content,
            assistant_reasoning: b.assistant_reasoning,
            assistant_provider_id: b.assistant_provider_id,
            assistant_model: b.assistant_model,
            assistant_timestamp: b.assistant_timestamp,
            status: b.status,
            tool_reports: b.tool_reports,
            owner_pid: b.owner_pid,
            queue_session_id: b.queue_session_id,
            token_total: b.token_total,
            token_usage_estimated: b.token_usage_estimated,
            token_prompt: b.token_prompt,
            token_cache_read: b.token_cache_read,
            revision,
            ..r
        }
}

pub open spec fn checkpoint_backup(r: CheckpointRowModel) -> RedoCheckpointBackupModel {
    RedoCheckpointBackupModel {
        version: r.version,
        batch_prompt_ids: r.batch_prompt_ids,
        payload: r.payload,
        unavailable_reason: r.unavailable_reason,
        created_at: r.created_at,
    }
}

pub open spec fn checkpoint_restored(
    turn_id: Seq<char>,
    b: RedoCheckpointBackupModel,
) -> CheckpointRowModel {
    CheckpointRowModel {
        turn_id,
        version: b.version,
        batch_prompt_ids: b.batch_prompt_ids,
        payload: b.payload,
        unavailable_reason: b.unavailable_reason,
        created_at: b.created_at,
    }
}

/// One less, but no less than the smallest number.
pub open spec fn less_one(n: i64) -> i64 {
    if n == i64::MIN {
        n
    } else {
        (n - 1) as i64
    }
}

/// What a redo was asked to do.
#[verifier::ext_equal]
pub struct RedoRequest {
    pub session_id: Seq<char>,
    pub turn_id: Seq<char>,
    pub input_id: Seq<char>,
    pub input_kind: RedoInputKind,
    pub expected_revision: i64,
    pub content: Seq<char>,
    pub display_content: Seq<char>,
    pub owner_pid: u32,
    pub queue: Seq<char>,
}

impl DbModel {
    /// The prompts that a turn took up, in order.
    pub open spec fn consumed(self, turn_id: Seq<char>) -> Seq<QueuedPromptRowModel> {
        order_by(self.queued_prompts.filter(consumed_by(turn_id)), by_prompt_seq())
    }

    /// The last turn of a session that its users see.
    pub open spec fn last_plain_turn(self, session_id: Seq<char>) -> Option<TurnRowModel> {
        last_of(order_by(self.turns.filter(plain_turn(session_id)), by_seq()))
    }

    pub open spec fn redo_candidate(self, session_id: Seq<char>) -> Option<RedoCandidateModel> {
        match self.last_plain_turn(session_id) {
            None => None,
            Some(turn) => {
                let consumed = self.consumed(turn.turn_id);
                let ids = consumed.map_values(prompt_id_of());
                if turn.status == "running"@ {
                    None
                } else if consumed.len() == 0 {
                    Some(
                        RedoCandidateModel {
                            turn_id: turn.turn_id,
                            revision: turn.revision,
                            input_id: turn.turn_id,
                            input_kind: RedoInputKind::Initial,
                            display_content: turn.display_content,
                            batch_prompt_ids: Seq::empty(),
                        },
                    )
                } else {
                    match self.redo_checkpoint(turn.turn_id) {
                        None => None,
                        Some(checkpoint) => {
                            let batch = checkpoint.batch_prompt_ids;
                            if checkpoint.payload is Some && 0 < batch.len() <= ids.len()
                                && ids.skip(ids.len() - batch.len()) == batch {
                                Some(
                                    RedoCandidateModel {
                                        turn_id: turn.turn_id,
                                        revision: turn.revision,
                                        input_id: consumed.last().prompt_id,
                                        input_kind: RedoInputKind::Followup,
                                        display_content: consumed.last().display_content,
                                        batch_prompt_ids: batch,
                                    },
                                )
                            } else {
                                None
                            }
                        },
                    }
                }
            },
        }
    }

    /// A prompt as the turn that took it up sees it.
    pub open spec fn as_prompt(self) -> spec_fn(QueuedPromptRowModel) -> QueuedPromptModel {
        |r: QueuedPromptRowModel|
            QueuedPromptModel {
                prompt_id: r.prompt_id,
                seq: r.seq,
                content: match r.context_content {
                    Some(text) => text,
                    None => r.content,
                },
                display_content: r.display_content,
                attachments: r.attachments,
                uploaded_attachments: self.uploads_of(r.prompt_id),
                submitted_at: r.submitted_at,
            }
    }

    /// The prompts that wait in a queue of a session, in their order.
    pub open spec fn queued_prompts_of(self, session_id: Seq<char>, queue: Seq<char>) -> Seq<
        QueuedPromptModel,
    > {
        self.waiting(session_id, queue).map_values(self.as_prompt())
    }

    pub open spec fn redo_batch(
        self,
        session_id: Seq<char>,
        turn_id: Seq<char>,
        prompt_ids: Seq<Seq<char>>,
    ) -> Seq<QueuedPromptRowModel> {
        order_by(
            self.queued_prompts.filter(consumed_in(session_id, turn_id)),
            by_prompt_seq(),
        ).filter(prompt_among(prompt_ids))
    }

    pub open spec fn load_redo_batch_prompts(
        self,
        session_id: Seq<char>,
        turn_id: Seq<char>,
        prompt_ids: Seq<Seq<char>>,
    ) -> Result<Seq<QueuedPromptModel>, StateErrorModel> {
        let rows = self.redo_batch(session_id, turn_id, prompt_ids);
        if prompt_ids.len() == 0 {
            Ok(Seq::empty())
        } else if rows.map_values(prompt_id_of()) != prompt_ids {
            Err(StateErrorModel::plain(StateErrorKind::RedoBatchChanged))
        } else {
            Ok(rows.map_values(self.as_prompt()))
        }
    }

    /// What a redo of `turn` must be able to bring back.
    pub open spec fn redo_backup(self, turn: TurnRowModel, request: RedoRequest) -> TurnRedoBackupModel {
        let followup = if request.input_kind == RedoInputKind::Followup {
            first(self.queued_prompts, consumed_prompt(request.input_id, request.turn_id))
        } else {
            None
        };
        TurnRedoBackupModel {
            status: turn.status,
            user_content: turn.user_content,
            display_content: turn.display_content,
            followup_content: match followup {
                Some(prompt) => Some(prompt.content),
                None => None,
            },
            followup_display_content: match followup {
                Some(prompt) => Some(prompt.display_content),
                None => None,
            },
            followup_context_content: match followup {
                Some(prompt) => prompt.context_content,
                None => None,
            },
            assistant_content: turn.assistant_content,
            assistant_reasoning: turn.assistant_reasoning,
            assistant_provider_id: turn.assistant_provider_id,
            assistant_model: turn.assistant_model,
            assistant_timestamp: turn.assistant_timestamp,
            tool_reports: turn.tool_reports,
            owner_pid: turn.owner_pid,
            queue_session_id: turn.queue_session_id,
            token_total: turn.token_total,
            token_prompt: turn.token_prompt,
            token_cache_read: turn.token_cache_read,
            token_usage_estimated: turn.token_usage_estimated,
            loaded_items: self.items(request.session_id).map_values(item_backup()),
            consumed_prompt_ids: self.consumed(request.turn_id).map_values(prompt_id_of()),
            checkpoint: match first(self.checkpoints, checkpoint_of(request.turn_id)) {
                Some(row) => Some(checkpoint_backup(row)),
                None => None,
            },
        }
    }

    /// The store with the backup of a redo in place.
    pub open spec fn backed_up(self, turn: TurnRowModel, request: RedoRequest, now: Seq<char>) -> DbModel {
        DbModel {
            backups: self.backups.push(
                BackupRowModel {
                    turn_id: request.turn_id,
                    revision: (request.expected_revision + 1) as i64,
                    payload: self.redo_backup(turn, request),
                    created_at: now,
                },
            ),
            question_backups: self.question_backups + self.questions.filter(
                question_of(request.turn_id),
            ),
            image_backups: self.image_backups + self.images.filter(image_of(request.turn_id)),
            artifact_backups: self.artifact_backups + self.artifacts.filter(
                artifact_of(request.turn_id),
            ),
            ..self
        }
    }

    /// The store with the first prompt of a turn about to be answered again.
    pub open spec fn rewound_to_start(self, request: RedoRequest) -> Result<
        DbModel,
        StateErrorModel,
    > {
        if request.input_id != request.turn_id {
            Err(StateErrorModel::plain(StateErrorKind::RedoInputMismatch))
        } else if any(self.queued_prompts, consumed_by(request.turn_id)) {
            Err(StateErrorModel::plain(StateErrorKind::LastInputChanged))
        } else {
            Ok(
                DbModel {
                    questions: self.questions.filter(not(question_of(request.turn_id))),
                    images: self.images.filter(not(image_of(request.turn_id))),
                    artifacts: self.artifacts.filter(not(artifact_of(request.turn_id))),
                    loaded_items: self.loaded_items.filter(
                        not(item_from_turn(request.session_id, request.turn_id)),
                    ),
                    turns: change_where(
                        self.turns,
                        with_turn_id(request.turn_id),
                        reworded(request.content, request.display_content),
                    ),
                    ..self
                },
            )
        }
    }

    /// The store with the last follow-up of a turn about to be answered again.
    pub open spec fn rewound_to_followup(
        self,
        request: RedoRequest,
        checkpoint: TurnRedoCheckpointPayloadModel,
        now: Seq<char>,
    ) -> Result<DbModel, StateErrorModel> {
        let last = match last_of(self.consumed(request.turn_id)) {
            Some(prompt) => Some(prompt.prompt_id),
            None => None,
        };
        let images = self.images.filter(image_of(request.turn_id)).map_values(image_id());
        let artifacts = self.artifacts.filter(artifact_of(request.turn_id)).map_values(
            artifact_id(),
        );
        if last != Some(request.input_id) {
            Err(StateErrorModel::plain(StateErrorKind::LastFollowupChanged))
        } else if !unique(
            checkpoint.loaded_items.map_values(item_from_triple(request.session_id, now)),
            item_key(),
        ) {
            Err(StateErrorModel::about(StateErrorKind::UniqueViolation, request.session_id))
        } else {
            Ok(
                DbModel {
                    questions: self.questions.filter(
                        not(
                            question_from(
                                request.turn_id,
                                checkpoint.prefix_question_count as i64,
                            ),
                        ),
                    ),
                    images: self.images.filter(
                        not(image_beyond(images, checkpoint.prefix_image_asset_ids)),
                    ),
                    artifacts: self.artifacts.filter(
                        not(artifact_beyond(artifacts, checkpoint.prefix_artifact_asset_ids)),
                    ),
                    loaded_items: self.loaded_items.filter(not(item_of(request.session_id)))
                        + checkpoint.loaded_items.map_values(
                        item_from_triple(request.session_id, now),
                    ),
                    queued_prompts: change_where(
                        self.queued_prompts,
                        consumed_prompt(request.input_id, request.turn_id),
                        reworded_prompt(
                            request.content,
                            request.display_content,
                            Some(request.content),
                        ),
                    ),
                    ..self
                },
            )
        }
    }

    pub open spec fn rewound(self, request: RedoRequest, now: Seq<char>) -> Result<
        (DbModel, Option<TurnRedoCheckpointPayloadModel>),
        StateErrorModel,
    > {
        match request.input_kind {
            RedoInputKind::Initial => match self.rewound_to_start(request) {
                Ok(db) => Ok((db, None)),
                Err(error) => Err(error),
            },
            RedoInputKind::Followup => {
                let payload = match self.redo_checkpoint(request.turn_id) {
                    Some(checkpoint) => checkpoint.payload,
                    None => None,
                };
                match payload {
                    None => Err(
                        StateErrorModel::plain(StateErrorKind::RedoCheckpointUnavailable),
                    ),
                    Some(checkpoint) => match self.rewound_to_followup(request, checkpoint, now) {
                        Ok(db) => Ok((db, Some(checkpoint))),
                        Err(error) => Err(error),
                    },
                }
            },
        }
    }

    /// The store with a turn claimed for a new answer, and its journal begun.
    pub open spec fn redo_claimed(
        self,
        request: RedoRequest,
        checkpoint: Option<TurnRedoCheckpointPayloadModel>,
        now: Seq<char>,
    ) -> Result<DbModel, StateErrorModel> {
        let p = settled_turn(request.turn_id, request.session_id, request.expected_revision);
        let reports = match checkpoint {
            Some(checkpoint) => checkpoint.prefix_tool_reports,
            None => Seq::empty(),
        };
        let questions = match checkpoint {
            Some(checkpoint) => checkpoint.prefix_question_count,
            None => 0,
        };
        let revision = (request.expected_revision + 1) as i64;
        if count(self.turns, p) != 1 {
            Err(StateErrorModel::plain(StateErrorKind::RedoClaimLost))
        } else if any(self.segments, segment_at(request.turn_id, revision, 0)) {
            Err(StateErrorModel::about(StateErrorKind::UniqueViolation, request.turn_id))
        } else if largest_event_id(self.events) == i64::MAX {
            Err(StateErrorModel::plain(StateErrorKind::OutOfRange))
        } else {
            Ok(
                DbModel {
                    turns: change_where(
                        self.turns,
                        p,
                        claimed(json_strings(reports), request.owner_pid, request.queue),
                    ),
                    segments: self.segments.push(new_segment(request.turn_id, revision, 0, now)),
                    events: self.events.push(
                        new_event(
                            (largest_event_id(self.events) + 1) as i64,
                            request.turn_id,
                            revision,
                            0,
                            "redo_prefix_question_count"@,
                            decimal(questions as nat),
                            now,
                        ),
                    ),
                    ..self
                }.touch_session(request.session_id, now),
            )
        }
    }

    pub open spec fn begin_redo(self, request: RedoRequest, now: Seq<char>) -> Result<
        (DbModel, RedoStartModel),
        StateErrorModel,
    > {
        match self.last_plain_turn(request.session_id) {
            None => Err(StateErrorModel::plain(StateErrorKind::RedoTargetGone)),
            Some(turn) => if turn.turn_id != request.turn_id || turn.revision
                != request.expected_revision || turn.status == "running"@ {
                Err(StateErrorModel::plain(StateErrorKind::RedoConversationChanged))
            } else if any(self.turns, other_running(request.session_id, request.turn_id)) {
                Err(StateErrorModel::plain(StateErrorKind::AnotherTurnRunning))
            } else if request.expected_revision == i64::MAX {
                Err(StateErrorModel::plain(StateErrorKind::OutOfRange))
            } else if any(self.backups, backup_of(request.turn_id)) {
                Err(StateErrorModel::about(StateErrorKind::UniqueViolation, request.turn_id))
            } else {
                match self.backed_up(turn, request, now).rewound(request, now) {
                    Err(error) => Err(error),
                    Ok((db, checkpoint)) => match db.redo_claimed(request, checkpoint, now) {
                        Err(error) => Err(error),
                        Ok(done) => Ok(
                            (
                                done,
                                RedoStartModel {
                                    revision: (request.expected_revision + 1) as i64,
                                    checkpoint,
                                },
                            ),
                        ),
                    },
                }
            },
        }
    }

    /// The store as it was before the redo that `b` was kept for.
    pub open spec fn redo_taken_back(
        self,
        turn_id: Seq<char>,
        session_id: Seq<char>,
        revision: i64,
        b: TurnRedoBackupModel,
    ) -> DbModel {
        let late = self.queued_prompts.filter(consumed_by(turn_id)).map_values(
            prompt_id_of(),
        ).filter(|id: Seq<char>| !b.consumed_prompt_ids.contains(id));
        let checkpoints = self.checkpoints.filter(not(checkpoint_of(turn_id)));
        let kept = DbModel {
            segments: self.segments.filter(not(segment_of(turn_id, revision))),
            events: self.events.filter(not(event_of(turn_id, revision))),
            questions: self.questions.filter(not(question_of(turn_id)))
                + self.question_backups.filter(question_of(turn_id)),
            images: self.images.filter(not(image_of(turn_id))) + self.image_backups.filter(
                image_of(turn_id),
            ),
            artifacts: self.artifacts.filter(not(artifact_of(turn_id)))
                + self.artifact_backups.filter(artifact_of(turn_id)),
            loaded_items: self.loaded_items.filter(not(item_of(session_id)))
                + b.loaded_items.map_values(item_restored(session_id)),
            queued_prompts: self.queued_prompts.filter(not(prompt_among(late))),
            checkpoints: match b.checkpoint {
                Some(checkpoint) => checkpoints.push(checkpoint_restored(turn_id, checkpoint)),
                None => checkpoints,
            },
            turns: change_where(
                self.turns,
                running_revision(turn_id, revision),
                restored(b, less_one(revision)),
            ),
            backups: self.backups.filter(not(backup_at(turn_id, revision))),
            question_backups: self.question_backups.filter(not(question_of(turn_id))),
            image_backups: self.image_backups.filter(not(image_of(turn_id))),
            artifact_backups: self.artifact_backups.filter(not(artifact_of(turn_id))),
            ..self
        };
        kept.followup_restored(turn_id, b)
    }

    /// The store with the last follow-up of a turn in its former wording.
    pub open spec fn followup_restored(self, turn_id: Seq<char>, b: TurnRedoBackupModel) -> DbModel {
        match (b.followup_content, b.followup_display_content, last_of(self.consumed(turn_id))) {
            (Some(content), Some(display_content), Some(prompt)) => DbModel {
                queued_prompts: change_where(
                    self.queued_prompts,
                    with_prompt_id(prompt.prompt_id),
                    reworded_prompt(content, display_content, b.followup_context_content),
                ),
                ..self
            },
            _ => self,
        }
    }

    pub open spec fn restore_redo_backup(self, turn_id: Seq<char>, revision: i64) -> Result<
        (DbModel, bool),
        StateErrorModel,
    > {
        match first(self.backups, backup_at(turn_id, revision)) {
            None => Ok((self, false)),
            Some(row) => match first(self.turns, running_revision(turn_id, revision)) {
                None => Err(StateErrorModel::about(StateErrorKind::MissingRow, turn_id)),
                Some(turn) => if unique(
                    row.payload.loaded_items.map_values(item_restored(turn.session_id)),
                    item_key(),
                ) {
                    Ok(
                        (
                            self.redo_taken_back(
                                turn_id,
                                turn.session_id,
                                revision,
                                row.payload,
                            ),
                            true,
                        ),
                    )
                } else {
                    Err(StateErrorModel::about(StateErrorKind::UniqueViolation, turn.session_id))
                },
            },
        }
    }
}

/// Whether no item is listed twice.
fn items_are_unique(rows: &Vec<LoadedItemRow>) -> (yes: bool)
    ensures
        yes == unique(rows.deep_view(), item_key()),
{
    let ghost keys = rows.deep_view().map_values(item_key());
    let mut i: usize = 0;
    while i < rows.len()
        invariant
            i <= rows.len(),
            keys == rows.deep_view().map_values(item_key()),
            forall|a: int, b: int| 0 <= a < b < i ==> keys[a] != keys[b],
        decreases rows.len() - i,
    {
        let mut k: usize = 0;
        while k < i
            invariant
                k <= i < rows.len(),
                keys == rows.deep_view().map_values(item_key()),
                forall|a: int| 0 <= a < k ==> keys[a] != keys[i as int],
            decreases i - k,
        {
            let x = &rows[k];
            let y = &rows[i];
            assert(keys[k as int] == item_key()(x.deep_view()));
            assert(keys[i as int] == item_key()(y.deep_view()));
            if same(x.session_id.as_str(), y.session_id.as_str()) && same(
                x.kind.as_str(),
                y.kind.as_str(),
            ) && same(x.name.as_str(), y.name.as_str()) {
                assert(keys[k as int] == keys[i as int]);
                return false;
            }
            k += 1;
        }
        i += 1;
    }
    true
}

fn is_consumed_by(r: &QueuedPromptRow, turn_id: &str) -> (b: bool)
    ensures
        b == consumed_by(turn_id@)(r.deep_view()),
{
    same_some(&r.turn_id, turn_id) && same(r.status.as_str(), "consumed")
}

/// Whether two lists hold the same texts in the same order.
pub(crate) fn same_texts(a: &Vec<String>, b: &Vec<String>) -> (equal: bool)
    ensures
        equal == (a.deep_view() == b.deep_view()),
{
    if a.len() != b.len() {
        assert(a.deep_view().len() != b.deep_view().len());
        return false;
    }
    let mut i: usize = 0;
    while i < a.len()
        invariant
            i <= a.len(),
            a.len() == b.len(),
            forall|j: int| 0 <= j < i ==> a.deep_view()[j] == b.deep_view()[j],
        decreases a.len() - i,
    {
        if !same(a[i].as_str(), b[i].as_str()) {
            assert(a.deep_view()[i as int] != b.deep_view()[i as int]);
            return false;
        }
        i += 1;
    }
    assert(a.deep_view() =~= b.deep_view());
    true
}

/// The texts of `all` that are not in `known`.
fn unknown(all: &Vec<String>, known: &Vec<String>) -> (out: Vec<String>)
    ensures
        out.deep_view() == all.deep_view().filter(
            |id: Seq<char>| !known.deep_view().contains(id),
        ),
{
    let ghost p = |id: Seq<char>| !known.deep_view().contains(id);
    let new = |s: &String| -> (b: bool)
        ensures
            b == !known.deep_view().contains(s.deep_view()),
        { !one_of(known, s.as_str()) };
    select(all, &new, Ghost(p))
}

fn reword_prompt(
    r: &QueuedPromptRow,
    content: &str,
    display_content: &str,
    context_content: Option<&str>,
) -> (n: QueuedPromptRow)
    ensures
        n.deep_view() == reworded_prompt(content@, display_content@, context_content.deep_view())(
            r.deep_view(),
        ),
{
    let mut n = r.dup();
    n.content = content.to_owned();
    n.display_content = display_content.to_owned();
    n.context_content = match context_content {
        Some(text) => Some(text.to_owned()),
        None => None,
    };
    n
}

fn claim(r: &TurnRow, reports_json: &str, owner_pid: u32, queue: &str) -> (n: TurnRow)
    requires
        r.revision < i64::MAX,
    ensures
        n.deep_view() == claimed(reports_json@, owner_pid, queue@)(r.deep_view()),
{
    let mut n = r.dup();
    n.assistant_content = PENDING_PLACEHOLDER.to_owned();
    n.assistant_reasoning = None;
    n.assistant_provider_id = None;
    n.assistant_model = None;
    n.assistant_timestamp = None;
    n.status = "running".to_owned();
    n.tool_reports = reports_json.to_owned();
    n.owner_pid = Some(owner_pid as i64);
    n.queue_session_id = Some(queue.to_owned());
    n.token_total = 0;
    n.token_usage_estimated = false;
    n.revision = r.revision + 1;
    n
}

fn restore(r: &TurnRow, b: &TurnRedoBackup, revision: i64) -> (n: TurnRow)
    ensures
        n.deep_view() == restored(b.deep_view(), revision)(r.deep_view()),
{
    let mut n = r.dup();
    n.user_content = b.user_content.clone();
    n.display_content = b.display_content.clone();
    n.assistant_content = b.assistant_content.clone();
    n.assistant_reasoning = b.assistant_reasoning.dup();
    n.assistant_provider_id = b.assistant_provider_id.dup();
    n.assistant_model = b.assistant_model.dup();
    n.assistant_timestamp = b.assistant_timestamp.dup();
    n.status = b.status.clone();
    n.tool_reports = b.tool_reports.clone();
    n.owner_pid = b.owner_pid;
    n.queue_session_id = b.queue_session_id.dup();
    n.token_total = b.token_total;
    n.token_usage_estimated = b.token_usage_estimated;
    n.token_prompt = b.token_prompt;
    n.token_cache_read = b.token_cache_read;
    n.revision = revision;
    n
}

impl ConversationDb {
    pub(crate) fn consumed(&self, turn_id: &str) -> (rows: Vec<QueuedPromptRow>)
        ensures
            rows.deep_view() == self@.consumed(turn_id@),
    {
        let mine = |r: &QueuedPromptRow| -> (b: bool)
            ensures
                b == consumed_by(turn_id@)(r.deep_view()),
            { is_consumed_by(r, turn_id) };
        let rows = select(&self.queued_prompts, &mine, Ghost(consumed_by(turn_id@)));
        sort_prompts(&rows)
    }

    fn last_plain_turn(&self, session_id: &str) -> (turn: Option<TurnRow>)
        ensures
            turn.deep_view() == self@.last_plain_turn(session_id@),
    {
        let turns = self.plain_turns(session_id);
        last_row(&turns)
    }

    /// The input that a redo would answer again, if there is one: the prompt of
    /// the last turn, or the last batch of follow-ups that it took up.
    pub fn redo_candidate(&self, session_id: &str) -> (candidate: Option<RedoCandidate>)
        ensures
            candidate.deep_view() == self@.redo_candidate(session_id@),
    {
        let turn = match self.last_plain_turn(session_id) {
            Some(turn) => turn,
            None => return None,
        };
        if same(turn.status.as_str(), "running") {
            return None;
        }
        let consumed = self.consumed(turn.turn_id.as_str());
        if consumed.len() == 0 {
            assert(consumed.deep_view().len() == 0);
            let none: Vec<String> = Vec::new();
            assert(none.deep_view() =~= Seq::<Seq<char>>::empty());
            return Some(
                RedoCandidate {
                    input_id: turn.turn_id.clone(),
                    turn_id: turn.turn_id,
                    revision: turn.revision,
                    input_kind: RedoInputKind::Initial,
                    display_content: turn.display_content,
                    batch_prompt_ids: none,
                },
            );
        }
        let checkpoint = match self.load_redo_checkpoint(turn.turn_id.as_str()) {
            Some(checkpoint) => checkpoint,
            None => return None,
        };
        let batch = checkpoint.batch_prompt_ids;
        if checkpoint.payload.is_none() || batch.len() == 0 || batch.len() > consumed.len() {
            return None;
        }
        let ids = prompt_ids(&consumed);
        let mut suffix: Vec<String> = Vec::new();
        let start: usize = ids.len() - batch.len();
        let mut i: usize = start;
        while i < ids.len()
            invariant
                start <= i <= ids.len(),
                suffix.len() == i - start,
                forall|j: int| 0 <= j < i - start ==> #[trigger] suffix[j]@ == ids[start + j]@,
            decreases ids.len() - i,
        {
            suffix.push(ids[i].clone());
            i += 1;
        }
        assert(suffix.deep_view() =~= ids.deep_view().skip(start as int));
        if !same_texts(&suffix, &batch) {
            return None;
        }
        let last = &consumed[consumed.len() - 1];
        assert(consumed.deep_view().last() == last.deep_view());
        Some(
            RedoCandidate {
                turn_id: turn.turn_id,
                revision: turn.revision,
                input_id: last.prompt_id.clone(),
                input_kind: RedoInputKind::Followup,
                display_content: last.display_content.clone(),
                batch_prompt_ids: batch,
            },
        )
    }

    pub(crate) fn prompt_of(&self, r: &QueuedPromptRow) -> (prompt: QueuedPrompt)
        ensures
            prompt.deep_view() == self@.as_prompt()(r.deep_view()),
    {
        QueuedPrompt {
            prompt_id: r.prompt_id.clone(),
            seq: r.seq,
            content: match &r.context_content {
                Some(text) => text.clone(),
                None => r.content.clone(),
            },
            display_content: r.display_content.clone(),
            attachments: r.attachments.dup(),
            uploaded_attachments: self.user_attachments_for_prompt(r.prompt_id.as_str()),
            submitted_at: r.submitted_at.clone(),
        }
    }

    /// The prompts that wait in a queue of a session.
    pub fn load_queued_prompts(&self, session_id: &str, queue_session_id: &str) -> (prompts: Vec<
        QueuedPrompt,
    >)
        ensures
            prompts.deep_view() == self@.queued_prompts_of(session_id@, queue_session_id@),
    {
        let rows = self.waiting(session_id, queue_session_id);
        let prompt = |r: &QueuedPromptRow| -> (p: QueuedPrompt)
            ensures
                p.deep_view() == self@.as_prompt()(r.deep_view()),
            { self.prompt_of(r) };
        map_rows(&rows, &prompt, Ghost(self@.as_prompt()))
    }

    /// The follow-ups of a batch that is to be answered again. They must be
    /// exactly those that the turn took up, in that order.
    pub fn load_redo_batch_prompts(
        &self,
        session_id: &str,
        turn_id: &str,
        prompt_ids: &Vec<String>,
    ) -> (result: Result<Vec<QueuedPrompt>, StateError>)
        ensures
            match self@.load_redo_batch_prompts(session_id@, turn_id@, prompt_ids.deep_view()) {
                Ok(prompts) => result matches Ok(got) && got.deep_view() == prompts,
                Err(error) => result matches Err(got) && got@ == error,
            },
    {
        if prompt_ids.len() == 0 {
            let none: Vec<QueuedPrompt> = Vec::new();
            assert(none.deep_view() =~= Seq::<QueuedPromptModel>::empty());
            return Ok(none);
        }
        let mine = |r: &QueuedPromptRow| -> (b: bool)
            ensures
                b == consumed_in(session_id@, turn_id@)(r.deep_view()),
            { same(r.session_id.as_str(), session_id) && is_consumed_by(r, turn_id) };
        let rows = select(&self.queued_prompts, &mine, Ghost(consumed_in(session_id@, turn_id@)));
        let rows = sort_prompts(&rows);
        let asked = |r: &QueuedPromptRow| -> (b: bool)
            ensures
                b == prompt_among(prompt_ids.deep_view())(r.deep_view()),
            { one_of(prompt_ids, r.prompt_id.as_str()) };
        let rows = select(&rows, &asked, Ghost(prompt_among(prompt_ids.deep_view())));
        let found = crate::state::queue::prompt_ids(&rows);
        if !same_texts(&found, prompt_ids) {
            return Err(StateError::plain(StateErrorKind::RedoBatchChanged));
        }
        let prompt = |r: &QueuedPromptRow| -> (p: QueuedPrompt)
            ensures
                p.deep_view() == self@.as_prompt()(r.deep_view()),
            { self.prompt_of(r) };
        Ok(map_rows(&rows, &prompt, Ghost(self@.as_prompt())))
    }

    fn make_backup(
        &self,
        turn: &TurnRow,
        session_id: &str,
        turn_id: &str,
        input_id: &str,
        input_kind: RedoInputKind,
        Ghost(request): Ghost<RedoRequest>,
    ) -> (backup: TurnRedoBackup)
        requires
            request.session_id == session_id@,
            request.turn_id == turn_id@,
            request.input_id == input_id@,
            request.input_kind == input_kind,
        ensures
            backup.deep_view() == self@.redo_backup(turn.deep_view(), request),
    {
        let matching = |r: &QueuedPromptRow| -> (b: bool)
            ensures
                b == consumed_prompt(input_id@, turn_id@)(r.deep_view()),
            { same(r.prompt_id.as_str(), input_id) && is_consumed_by(r, turn_id) };
        let followup: Option<QueuedPromptRow> = if input_kind == RedoInputKind::Followup {
            first_row(&self.queued_prompts, &matching, Ghost(consumed_prompt(input_id@, turn_id@)))
        } else {
            None
        };
        let (followup_content, followup_display_content, followup_context_content): (
            Option<String>,
            Option<String>,
            Option<String>,
        ) = match followup {
            Some(prompt) => (
                Some(prompt.content),
                Some(prompt.display_content),
                prompt.context_content,
            ),
            None => (None, None, None),
        };
        let items = self.items(session_id);
        let keep = |r: &LoadedItemRow| -> (t: (String, String, Option<String>, String, String))
            ensures
                t.deep_view() == item_backup()(r.deep_view()),
            {
                (
                    r.kind.clone(),
                    r.name.clone(),
                    r.source_turn_id.dup(),
                    r.created_at.clone(),
                    r.updated_at.clone(),
                )
            };
        let loaded_items = map_rows(&items, &keep, Ghost(item_backup()));
        let consumed = self.consumed(turn_id);
        let mine = |r: &CheckpointRow| -> (b: bool)
            ensures
                b == checkpoint_of(turn_id@)(r.deep_view()),
            { same(r.turn_id.as_str(), turn_id) };
        let checkpoint = match first_row(&self.checkpoints, &mine, Ghost(checkpoint_of(turn_id@))) {
            Some(row) => Some(
                RedoCheckpointBackup {
                    version: row.version,
                    batch_prompt_ids: row.batch_prompt_ids,
                    payload: row.payload,
                    unavailable_reason: row.unavailable_reason,
                    created_at: row.created_at,
                },
            ),
            None => None,
        };
        TurnRedoBackup {
            status: turn.status.clone(),
            user_content: turn.user_content.clone(),
            display_content: turn.display_content.clone(),
            followup_content,
            followup_display_content,
            followup_context_content,
            assistant_content: turn.assistant_content.clone(),
            assistant_reasoning: turn.assistant_reasoning.dup(),
            assistant_provider_id: turn.assistant_provider_id.dup(),
            assistant_model: turn.assistant_model.dup(),
            assistant_timestamp: turn.assistant_timestamp.dup(),
            tool_reports: turn.tool_reports.clone(),
            owner_pid: turn.owner_pid,
            queue_session_id: turn.queue_session_id.dup(),
            token_total: turn.token_total,
            token_prompt: turn.token_prompt,
            token_cache_read: turn.token_cache_read,
            token_usage_estimated: turn.token_usage_estimated,
            loaded_items,
            consumed_prompt_ids: prompt_ids(&consumed),
            checkpoint,
        }
    }

    fn back_up(
        &mut self,
        turn: &TurnRow,
        session_id: &str,
        turn_id: &str,
        input_id: &str,
        input_kind: RedoInputKind,
        expected_revision: i64,
        now: &str,
        Ghost(request): Ghost<RedoRequest>,
    )
        requires
            request.session_id == session_id@,
            request.turn_id == turn_id@,
            request.input_id == input_id@,
            request.input_kind == input_kind,
            request.expected_revision == expected_revision,
            expected_revision < i64::MAX,
        ensures
            final(self)@ == old(self)@.backed_up(turn.deep_view(), request, now@),
    {
        let payload = self.make_backup(
            turn,
            session_id,
            turn_id,
            input_id,
            input_kind,
            Ghost(request),
        );
        append(
            &mut self.backups,
            BackupRow {
                turn_id: turn_id.to_owned(),
                revision: expected_revision + 1,
                payload,
                created_at: now.to_owned(),
            },
        );
        let question = |r: &QuestionRow| -> (b: bool)
            ensures
                b == question_of(turn_id@)(r.deep_view()),
            { same(r.turn_id.as_str(), turn_id) };
        let questions = select(&self.questions, &question, Ghost(question_of(turn_id@)));
        append_all(&mut self.question_backups, &questions);
        let image = |r: &ImageAssetData| -> (b: bool)
            ensures
                b == image_of(turn_id@)(r.deep_view()),
            { same(r.asset.turn_id.as_str(), turn_id) };
        let images = select(&self.images, &image, Ghost(image_of(turn_id@)));
        append_all(&mut self.image_backups, &images);
        let artifact = |r: &ArtifactAssetData| -> (b: bool)
            ensures
                b == artifact_of(turn_id@)(r.deep_view()),
            { same(r.asset.turn_id.as_str(), turn_id) };
        let artifacts = select(&self.artifacts, &artifact, Ghost(artifact_of(turn_id@)));
        append_all(&mut self.artifact_backups, &artifacts);
    }

    fn rewind_to_start(
        &mut self,
        session_id: &str,
        turn_id: &str,
        input_id: &str,
        content: &str,
        display_content: &str,
        Ghost(request): Ghost<RedoRequest>,
    ) -> (result: Result<(), StateError>)
        requires
            request.session_id == session_id@,
            request.turn_id == turn_id@,
            request.input_id == input_id@,
            request.content == content@,
            request.display_content == display_content@,
        ensures
            match old(self)@.rewound_to_start(request) {
                Ok(db) => result is Ok && final(self)@ == db,
                Err(error) => result matches Err(got) && got@ == error,
            },
    {
        if !same(input_id, turn_id) {
            return Err(StateError::plain(StateErrorKind::RedoInputMismatch));
        }
        let taken = |r: &QueuedPromptRow| -> (b: bool)
            ensures
                b == consumed_by(turn_id@)(r.deep_view()),
            { is_consumed_by(r, turn_id) };
        if exists_row(&self.queued_prompts, &taken, Ghost(consumed_by(turn_id@))) {
            return Err(StateError::plain(StateErrorKind::LastInputChanged));
        }
        let question = |r: &QuestionRow| -> (b: bool)
            ensures
                b == question_of(turn_id@)(r.deep_view()),
            { same(r.turn_id.as_str(), turn_id) };
        self.questions = reject(&self.questions, &question, Ghost(question_of(turn_id@)));
        let image = |r: &ImageAssetData| -> (b: bool)
            ensures
                b == image_of(turn_id@)(r.deep_view()),
            { same(r.asset.turn_id.as_str(), turn_id) };
        self.images = reject(&self.images, &image, Ghost(image_of(turn_id@)));
        let artifact = |r: &ArtifactAssetData| -> (b: bool)
            ensures
                b == artifact_of(turn_id@)(r.deep_view()),
            { same(r.asset.turn_id.as_str(), turn_id) };
        self.artifacts = reject(&self.artifacts, &artifact, Ghost(artifact_of(turn_id@)));
        let item = |r: &LoadedItemRow| -> (b: bool)
            ensures
                b == item_from_turn(session_id@, turn_id@)(r.deep_view()),
            { same(r.session_id.as_str(), session_id) && same_some(&r.source_turn_id, turn_id) };
        self.loaded_items = reject(
            &self.loaded_items,
            &item,
            Ghost(item_from_turn(session_id@, turn_id@)),
        );
        let this = |r: &TurnRow| -> (b: bool)
            ensures
                b == with_turn_id(turn_id@)(r.deep_view()),
            { same(r.turn_id.as_str(), turn_id) };
        let reword = |r: &TurnRow| -> (n: TurnRow)
            ensures
                n.deep_view() == reworded(content@, display_content@)(r.deep_view()),
            {
                let mut n = r.dup();
                n.user_content = content.to_owned();
                n.display_content = display_content.to_owned();
                n
            };
        self.turns = update(
            &self.turns,
            &this,
            &reword,
            Ghost(with_turn_id(turn_id@)),
            Ghost(reworded(content@, display_content@)),
        );
        Ok(())
    }

    fn drop_produced(&mut self, turn_id: &str, checkpoint: &TurnRedoCheckpointPayload)
        ensures
            final(self)@ == (DbModel {
                questions: old(self)@.questions.filter(
                    not(
                        question_from(
                            turn_id@,
                            checkpoint.deep_view().prefix_question_count as i64,
                        ),
                    ),
                ),
                images: old(self)@.images.filter(
                    not(
                        image_beyond(
                            old(self)@.images.filter(image_of(turn_id@)).map_values(image_id()),
                            checkpoint.deep_view().prefix_image_asset_ids,
                        ),
                    ),
                ),
                artifacts: old(self)@.artifacts.filter(
                    not(
                        artifact_beyond(
                            old(self)@.artifacts.filter(artifact_of(turn_id@)).map_values(
                                artifact_id(),
                            ),
                            checkpoint.deep_view().prefix_artifact_asset_ids,
                        ),
                    ),
                ),
                ..old(self)@
            }),
    {
        let from: i64 = checkpoint.prefix_question_count as i64;
        let question = |r: &QuestionRow| -> (b: bool)
            ensures
                b == question_from(turn_id@, from)(r.deep_view()),
            { same(r.turn_id.as_str(), turn_id) && r.exchange_index >= from };
        self.questions = reject(&self.questions, &question, Ghost(question_from(turn_id@, from)));
        let image = |r: &ImageAssetData| -> (b: bool)
            ensures
                b == image_of(turn_id@)(r.deep_view()),
            { same(r.asset.turn_id.as_str(), turn_id) };
        let images = select(&self.images, &image, Ghost(image_of(turn_id@)));
        let an_image_id = |r: &ImageAssetData| -> (s: String)
            ensures
                s.deep_view() == image_id()(r.deep_view()),
            { r.asset.asset_id.clone() };
        let image_ids = map_rows(&images, &an_image_id, Ghost(image_id()));
        let kept_images = &checkpoint.prefix_image_asset_ids;
        let late_image = |r: &ImageAssetData| -> (b: bool)
            ensures
                b == image_beyond(image_ids.deep_view(), kept_images.deep_view())(r.deep_view()),
            {
                one_of(&image_ids, r.asset.asset_id.as_str()) && !one_of(
                    kept_images,
                    r.asset.asset_id.as_str(),
                )
            };
        self.images = reject(
            &self.images,
            &late_image,
            Ghost(image_beyond(image_ids.deep_view(), kept_images.deep_view())),
        );
        let artifact = |r: &ArtifactAssetData| -> (b: bool)
            ensures
                b == artifact_of(turn_id@)(r.deep_view()),
            { same(r.asset.turn_id.as_str(), turn_id) };
        let artifacts = select(&self.artifacts, &artifact, Ghost(artifact_of(turn_id@)));
        let an_artifact_id = |r: &ArtifactAssetData| -> (s: String)
            ensures
                s.deep_view() == artifact_id()(r.deep_view()),
            { r.asset.asset_id.clone() };
        let artifact_ids = map_rows(&artifacts, &an_artifact_id, Ghost(artifact_id()));
        let kept_artifacts = &checkpoint.prefix_artifact_asset_ids;
        let late_artifact = |r: &ArtifactAssetData| -> (b: bool)
            ensures
                b == artifact_beyond(artifact_ids.deep_view(), kept_artifacts.deep_view())(
                    r.deep_view(),
                ),
            {
                one_of(&artifact_ids, r.asset.asset_id.as_str()) && !one_of(
                    kept_artifacts,
                    r.asset.asset_id.as_str(),
                )
            };
        self.artifacts = reject(
            &self.artifacts,
            &late_artifact,
            Ghost(artifact_beyond(artifact_ids.deep_view(), kept_artifacts.deep_view())),
        );
    }

    fn rewind_to_followup(
        &mut self,
        session_id: &str,
        turn_id: &str,
        input_id: &str,
        content: &str,
        display_content: &str,
        checkpoint: &TurnRedoCheckpointPayload,
        now: &str,
        Ghost(request): Ghost<RedoRequest>,
    ) -> (result: Result<(), StateError>)
        requires
            request.session_id == session_id@,
            request.turn_id == turn_id@,
            request.input_id == input_id@,
            request.content == content@,
            request.display_content == display_content@,
        ensures
            match old(self)@.rewound_to_followup(request, checkpoint.deep_view(), now@) {
                Ok(db) => result is Ok && final(self)@ == db,
                Err(error) => result matches Err(got) && got@ == error,
            },
    {
        let consumed = self.consumed(turn_id);
        let is_last = match last_row(&consumed) {
            Some(prompt) => same(prompt.prompt_id.as_str(), input_id),
            None => false,
        };
        if !is_last {
            return Err(StateError::plain(StateErrorKind::LastFollowupChanged));
        }
        let load = |t: &(String, String, Option<String>)| -> (r: LoadedItemRow)
            ensures
                r.deep_view() == item_from_triple(session_id@, now@)(t.deep_view()),
            {
                LoadedItemRow {
                    session_id: session_id.to_owned(),
                    kind: t.0.clone(),
                    name: t.1.clone(),
                    source_turn_id: t.2.dup(),
                    created_at: now.to_owned(),
                    updated_at: now.to_owned(),
                }
            };
        let loaded = map_rows(
            &checkpoint.loaded_items,
            &load,
            Ghost(item_from_triple(session_id@, now@)),
        );
        if !items_are_unique(&loaded) {
            return Err(StateError::about(StateErrorKind::UniqueViolation, session_id));
        }
        self.drop_produced(turn_id, checkpoint);
        let item = |r: &LoadedItemRow| -> (b: bool)
            ensures
                b == item_of(session_id@)(r.deep_view()),
            { same(r.session_id.as_str(), session_id) };
        self.loaded_items = reject(&self.loaded_items, &item, Ghost(item_of(session_id@)));
        append_all(&mut self.loaded_items, &loaded);
        let this = |r: &QueuedPromptRow| -> (b: bool)
            ensures
                b == consumed_prompt(input_id@, turn_id@)(r.deep_view()),
            { same(r.prompt_id.as_str(), input_id) && is_consumed_by(r, turn_id) };
        let reword = |r: &QueuedPromptRow| -> (n: QueuedPromptRow)
            ensures
                n.deep_view() == reworded_prompt(content@, display_content@, Some(content@))(
                    r.deep_view(),
                ),
            { reword_prompt(r, content, display_content, Some(content)) };
        self.queued_prompts = update(
            &self.queued_prompts,
            &this,
            &reword,
            Ghost(consumed_prompt(input_id@, turn_id@)),
            Ghost(reworded_prompt(content@, display_content@, Some(content@))),
        );
        Ok(())
    }

    fn claim_redo(
        &mut self,
        session_id: &str,
        turn_id: &str,
        expected_revision: i64,
        owner_pid: u32,
        queue: &str,
        checkpoint: &Option<TurnRedoCheckpointPayload>,
        now: &str,
        Ghost(request): Ghost<RedoRequest>,
    ) -> (result: Result<(), StateError>)
        requires
            request.session_id == session_id@,
            request.turn_id == turn_id@,
            request.expected_revision == expected_revision,
            request.owner_pid == owner_pid,
            request.queue == queue@,
            expected_revision < i64::MAX,
        ensures
            match old(self)@.redo_claimed(request, checkpoint.deep_view(), now@) {
                Ok(db) => result is Ok && final(self)@ == db,
                Err(error) => result matches Err(got) && got@ == error,
            },
    {
        let none: Vec<String> = Vec::new();
        assert(none.deep_view() =~= Seq::<Seq<char>>::empty());
        let (reports_json, questions): (String, usize) = match checkpoint {
            Some(checkpoint) => (
                encode_strings(&checkpoint.prefix_tool_reports),
                checkpoint.prefix_question_count,
            ),
            None => (encode_strings(&none), 0),
        };
        let settled = |r: &TurnRow| -> (b: bool)
            ensures
                b == settled_turn(turn_id@, session_id@, expected_revision)(r.deep_view()),
            {
                same(r.turn_id.as_str(), turn_id) && same(r.session_id.as_str(), session_id)
                    && r.revision == expected_revision && !same(r.status.as_str(), "running")
            };
        let affected: usize = count_rows(
            &self.turns,
            &settled,
            Ghost(settled_turn(turn_id@, session_id@, expected_revision)),
        );
        if affected != 1 {
            return Err(StateError::plain(StateErrorKind::RedoClaimLost));
        }
        let revision: i64 = expected_revision + 1;
        if self.has_segment(turn_id, revision, 0) {
            return Err(StateError::about(StateErrorKind::UniqueViolation, turn_id));
        }
        let last_event: i64 = max_event_id(&self.events);
        if last_event == i64::MAX {
            return Err(StateError::plain(StateErrorKind::OutOfRange));
        }
        let change = |r: &TurnRow| -> (n: TurnRow)
            ensures
                n.deep_view() == (if r.deep_view().revision < i64::MAX {
                    claimed(reports_json@, owner_pid, queue@)(r.deep_view())
                } else {
                    r.deep_view()
                }),
            {
                if r.revision < i64::MAX {
                    claim(r, reports_json.as_str(), owner_pid, queue)
                } else {
                    r.dup()
                }
            };
        let ghost change_model = |r: TurnRowModel|
            if r.revision < i64::MAX {
                claimed(reports_json@, owner_pid, queue@)(r)
            } else {
                r
            };
        let ghost p = settled_turn(turn_id@, session_id@, expected_revision);
        let ghost turns = self@.turns;
        self.turns = update(
            &self.turns,
            &settled,
            &change,
            Ghost(settled_turn(turn_id@, session_id@, expected_revision)),
            Ghost(change_model),
        );
        assert(change_where(turns, p, change_model) =~= change_where(
            turns,
            p,
            claimed(reports_json@, owner_pid, queue@),
        ));
        append(&mut self.segments, segment_row(turn_id, revision, 0, now));
        append(
            &mut self.events,
            event_row(
                last_event + 1,
                turn_id,
                revision,
                0,
                "redo_prefix_question_count",
                decimal_text(questions as u64).as_str(),
                now,
            ),
        );
        self.touch_session(session_id, now);
        Ok(())
    }

    /// Begins to answer the last input of a session again, with a new wording.
    /// The turn must be the last one, settled and at the expected revision, and
    /// no other turn of the session may be running. What the redo overwrites is
    /// kept until it has succeeded.
    pub fn begin_redo(
        &mut self,
        session_id: &str,
        turn_id: &str,
        input_id: &str,
        input_kind: RedoInputKind,
        expected_revision: i64,
        content: &str,
        display_content: &str,
        owner_pid: u32,
        queue_session_id: &str,
        now: &str,
    ) -> (result: Result<RedoStart, StateError>)
        ensures
            outcome(
                result,
                old(self)@,
                final(self)@,
                old(self)@.begin_redo(
                    RedoRequest {
                        session_id: session_id@,
                        turn_id: turn_id@,
                        input_id: input_id@,
                        input_kind,
                        expected_revision,
                        content: content@,
                        display_content: display_content@,
                        owner_pid,
                        queue: queue_session_id@,
                    },
                    now@,
                ),
            ),
    {
        let ghost request = RedoRequest {
            session_id: session_id@,
            turn_id: turn_id@,
            input_id: input_id@,
            input_kind,
            expected_revision,
            content: content@,
            display_content: display_content@,
            owner_pid,
            queue: queue_session_id@,
        };
        let turn = match self.last_plain_turn(session_id) {
            Some(turn) => turn,
            None => return Err(StateError::plain(StateErrorKind::RedoTargetGone)),
        };
        if !same(turn.turn_id.as_str(), turn_id) || turn.revision != expected_revision || same(
            turn.status.as_str(),
            "running",
        ) {
            return Err(StateError::plain(StateErrorKind::RedoConversationChanged));
        }
        let other = |r: &TurnRow| -> (b: bool)
            ensures
                b == other_running(session_id@, turn_id@)(r.deep_view()),
            {
                same(r.session_id.as_str(), session_id) && same(r.status.as_str(), "running")
                    && !same(r.turn_id.as_str(), turn_id)
            };
        if exists_row(&self.turns, &other, Ghost(other_running(session_id@, turn_id@))) {
            return Err(StateError::plain(StateErrorKind::AnotherTurnRunning));
        }
        if expected_revision == i64::MAX {
            return Err(StateError::plain(StateErrorKind::OutOfRange));
        }
        let kept = |r: &BackupRow| -> (b: bool)
            ensures
                b == backup_of(turn_id@)(r.deep_view()),
            { same(r.turn_id.as_str(), turn_id) };
        if exists_row(&self.backups, &kept, Ghost(backup_of(turn_id@))) {
            return Err(StateError::about(StateErrorKind::UniqueViolation, turn_id));
        }
        let mut next = self.dup();
        next.back_up(
            &turn,
            session_id,
            turn_id,
            input_id,
            input_kind,
            expected_revision,
            now,
            Ghost(request),
        );
        let checkpoint: Option<TurnRedoCheckpointPayload> = match input_kind {
            RedoInputKind::Initial => {
                match next.rewind_to_start(
                    session_id,
                    turn_id,
                    input_id,
                    content,
                    display_content,
                    Ghost(request),
                ) {
                    Ok(()) => None,
                    Err(error) => return Err(error),
                }
            },
            RedoInputKind::Followup => {
                let payload: Option<TurnRedoCheckpointPayload> = match next.load_redo_checkpoint(
                    turn_id,
                ) {
                    Some(checkpoint) => checkpoint.payload,
                    None => None,
                };
                match payload {
                    None => return Err(
                        StateError::plain(StateErrorKind::RedoCheckpointUnavailable),
                    ),
                    Some(payload) => {
                        match next.rewind_to_followup(
                            session_id,
                            turn_id,
                            input_id,
                            content,
                            display_content,
                            &payload,
                            now,
                            Ghost(request),
                        ) {
                            Ok(()) => Some(payload),
                            Err(error) => return Err(error),
                        }
                    },
                }
            },
        };
        match next.claim_redo(
            session_id,
            turn_id,
            expected_revision,
            owner_pid,
            queue_session_id,
            &checkpoint,
            now,
            Ghost(request),
        ) {
            Ok(()) => {},
            Err(error) => return Err(error),
        }
        *self = next;
        Ok(RedoStart { revision: expected_revision + 1, checkpoint })
    }

    fn restore_children(&mut self, turn_id: &str, revision: i64)
        ensures
            final(self)@ == (DbModel {
                segments: old(self)@.segments.filter(not(segment_of(turn_id@, revision))),
                events: old(self)@.events.filter(not(event_of(turn_id@, revision))),
                questions: old(self)@.questions.filter(not(question_of(turn_id@)))
                    + old(self)@.question_backups.filter(question_of(turn_id@)),
                images: old(self)@.images.filter(not(image_of(turn_id@)))
                    + old(self)@.image_backups.filter(image_of(turn_id@)),
                artifacts: old(self)@.artifacts.filter(not(artifact_of(turn_id@)))
                    + old(self)@.artifact_backups.filter(artifact_of(turn_id@)),
                question_backups: old(self)@.question_backups.filter(not(question_of(turn_id@))),
                image_backups: old(self)@.image_backups.filter(not(image_of(turn_id@))),
                artifact_backups: old(self)@.artifact_backups.filter(not(artifact_of(turn_id@))),
                backups: old(self)@.backups.filter(not(backup_at(turn_id@, revision))),
                ..old(self)@
            }),
    {
        let segment = |r: &JournalSegmentRow| -> (b: bool)
            ensures
                b == segment_of(turn_id@, revision)(r.deep_view()),
            { same(r.turn_id.as_str(), turn_id) && r.revision == revision };
        self.segments = reject(&self.segments, &segment, Ghost(segment_of(turn_id@, revision)));
        let event = |r: &JournalEventRow| -> (b: bool)
            ensures
                b == event_of(turn_id@, revision)(r.deep_view()),
            { same(r.turn_id.as_str(), turn_id) && r.event.revision == revision };
        self.events = reject(&self.events, &event, Ghost(event_of(turn_id@, revision)));
        let question = |r: &QuestionRow| -> (b: bool)
            ensures
                b == question_of(turn_id@)(r.deep_view()),
            { same(r.turn_id.as_str(), turn_id) };
        self.questions = reject(&self.questions, &question, Ghost(question_of(turn_id@)));
        let questions = select(&self.question_backups, &question, Ghost(question_of(turn_id@)));
        append_all(&mut self.questions, &questions);
        self.question_backups = reject(
            &self.question_backups,
            &question,
            Ghost(question_of(turn_id@)),
        );
        let image = |r: &ImageAssetData| -> (b: bool)
            ensures
                b == image_of(turn_id@)(r.deep_view()),
            { same(r.asset.turn_id.as_str(), turn_id) };
        self.images = reject(&self.images, &image, Ghost(image_of(turn_id@)));
        let images = select(&self.image_backups, &image, Ghost(image_of(turn_id@)));
        append_all(&mut self.images, &images);
        self.image_backups = reject(&self.image_backups, &image, Ghost(image_of(turn_id@)));
        let artifact = |r: &ArtifactAssetData| -> (b: bool)
            ensures
                b == artifact_of(turn_id@)(r.deep_view()),
            { same(r.asset.turn_id.as_str(), turn_id) };
        self.artifacts = reject(&self.artifacts, &artifact, Ghost(artifact_of(turn_id@)));
        let artifacts = select(&self.artifact_backups, &artifact, Ghost(artifact_of(turn_id@)));
        append_all(&mut self.artifacts, &artifacts);
        self.artifact_backups = reject(
            &self.artifact_backups,
            &artifact,
            Ghost(artifact_of(turn_id@)),
        );
        let backup = |r: &BackupRow| -> (b: bool)
            ensures
                b == backup_at(turn_id@, revision)(r.deep_view()),
            { same(r.turn_id.as_str(), turn_id) && r.revision == revision };
        self.backups = reject(&self.backups, &backup, Ghost(backup_at(turn_id@, revision)));
    }

    fn restore_followup(&mut self, turn_id: &str, b: &TurnRedoBackup)
        ensures
            final(self)@ == old(self)@.followup_restored(turn_id@, b.deep_view()),
    {
        let consumed = self.consumed(turn_id);
        let prompt = match last_row(&consumed) {
            Some(prompt) => prompt,
            None => return,
        };
        let (content, display_content) = match (&b.followup_content, &b.followup_display_content) {
            (Some(content), Some(display_content)) => (content, display_content),
            _ => return,
        };
        let context: Option<&str> = match &b.followup_context_content {
            Some(text) => Some(text.as_str()),
            None => None,
        };
        let this = |r: &QueuedPromptRow| -> (b: bool)
            ensures
                b == with_prompt_id(prompt.prompt_id@)(r.deep_view()),
            { same(r.prompt_id.as_str(), prompt.prompt_id.as_str()) };
        let reword = |r: &QueuedPromptRow| -> (n: QueuedPromptRow)
            ensures
                n.deep_view() == reworded_prompt(
                    content@,
                    display_content@,
                    context.deep_view(),
                )(r.deep_view()),
            { reword_prompt(r, content.as_str(), display_content.as_str(), context) };
        self.queued_prompts = update(
            &self.queued_prompts,
            &this,
            &reword,
            Ghost(with_prompt_id(prompt.prompt_id@)),
            Ghost(reworded_prompt(content@, display_content@, context.deep_view())),
        );
    }

    fn take_redo_back(
        &mut self,
        turn_id: &str,
        session_id: &str,
        revision: i64,
        b: &TurnRedoBackup,
        loaded: &Vec<LoadedItemRow>,
    )
        requires
            loaded.deep_view() == b.deep_view().loaded_items.map_values(item_restored(session_id@)),
        ensures
            final(self)@ == old(self)@.redo_taken_back(
                turn_id@,
                session_id@,
                revision,
                b.deep_view(),
            ),
    {
        self.restore_children(turn_id, revision);
        let item = |r: &LoadedItemRow| -> (b: bool)
            ensures
                b == item_of(session_id@)(r.deep_view()),
            { same(r.session_id.as_str(), session_id) };
        self.loaded_items = reject(&self.loaded_items, &item, Ghost(item_of(session_id@)));
        append_all(&mut self.loaded_items, loaded);
        let mine = |r: &QueuedPromptRow| -> (b: bool)
            ensures
                b == consumed_by(turn_id@)(r.deep_view()),
            { is_consumed_by(r, turn_id) };
        let taken = select(&self.queued_prompts, &mine, Ghost(consumed_by(turn_id@)));
        let taken_ids = prompt_ids(&taken);
        let late = unknown(&taken_ids, &b.consumed_prompt_ids);
        let too_late = |r: &QueuedPromptRow| -> (b: bool)
            ensures
                b == prompt_among(late.deep_view())(r.deep_view()),
            { one_of(&late, r.prompt_id.as_str()) };
        self.queued_prompts = reject(
            &self.queued_prompts,
            &too_late,
            Ghost(prompt_among(late.deep_view())),
        );
        let checkpoint = |r: &CheckpointRow| -> (b: bool)
            ensures
                b == checkpoint_of(turn_id@)(r.deep_view()),
            { same(r.turn_id.as_str(), turn_id) };
        self.checkpoints = reject(&self.checkpoints, &checkpoint, Ghost(checkpoint_of(turn_id@)));
        if let Some(c) = &b.checkpoint {
            let row = CheckpointRow {
                turn_id: turn_id.to_owned(),
                version: c.version,
                batch_prompt_ids: c.batch_prompt_ids.clone(),
                payload: c.payload.dup(),
                unavailable_reason: c.unavailable_reason.dup(),
                created_at: c.created_at.clone(),
            };
            append(&mut self.checkpoints, row);
        }
        let former: i64 = if revision == i64::MIN {
            revision
        } else {
            revision - 1
        };
        let running = |r: &TurnRow| -> (b: bool)
            ensures
                b == running_revision(turn_id@, revision)(r.deep_view()),
            {
                same(r.turn_id.as_str(), turn_id) && r.revision == revision && same(
                    r.status.as_str(),
                    "running",
                )
            };
        let change = |r: &TurnRow| -> (n: TurnRow)
            ensures
                n.deep_view() == restored(b.deep_view(), former)(r.deep_view()),
            { restore(r, b, former) };
        self.turns = update(
            &self.turns,
            &running,
            &change,
            Ghost(running_revision(turn_id@, revision)),
            Ghost(restored(b.deep_view(), former)),
        );
        self.restore_followup(turn_id, b);
    }

    /// Takes an unfinished redo back: the turn becomes what it was before, and
    /// what the attempt produced is gone. Says whether there was a redo.
    pub fn restore_redo_backup(&mut self, turn_id: &str, revision: i64) -> (result: Result<
        bool,
        StateError,
    >)
        ensures
            outcome(
                result,
                old(self)@,
                final(self)@,
                old(self)@.restore_redo_backup(turn_id@, revision),
            ),
    {
        let kept = |r: &BackupRow| -> (b: bool)
            ensures
                b == backup_at(turn_id@, revision)(r.deep_view()),
            { same(r.turn_id.as_str(), turn_id) && r.revision == revision };
        let row = match first_row(&self.backups, &kept, Ghost(backup_at(turn_id@, revision))) {
            Some(row) => row,
            None => return Ok(false),
        };
        let running = |r: &TurnRow| -> (b: bool)
            ensures
                b == running_revision(turn_id@, revision)(r.deep_view()),
            {
                same(r.turn_id.as_str(), turn_id) && r.revision == revision && same(
                    r.status.as_str(),
                    "running",
                )
            };
        let turn = match first_row(
            &self.turns,
            &running,
            Ghost(running_revision(turn_id@, revision)),
        ) {
            Some(turn) => turn,
            None => return Err(StateError::about(StateErrorKind::MissingRow, turn_id)),
        };
        let session_id = turn.session_id.as_str();
        let load = |t: &(String, String, Option<String>, String, String)| -> (r: LoadedItemRow)
            ensures
                r.deep_view() == item_restored(session_id@)(t.deep_view()),
            {
                LoadedItemRow {
                    session_id: session_id.to_owned(),
                    kind: t.0.clone(),
                    name: t.1.clone(),
                    source_turn_id: t.2.dup(),
                    created_at: t.3.clone(),
                    updated_at: t.4.clone(),
                }
            };
        let loaded = map_rows(&row.payload.loaded_items, &load, Ghost(item_restored(session_id@)));
        if !items_are_unique(&loaded) {
            return Err(StateError::about(StateErrorKind::UniqueViolation, session_id));
        }
        self.take_redo_back(turn_id, session_id, revision, &row.payload, &loaded);
        Ok(true)
    }
}

} // verus!

