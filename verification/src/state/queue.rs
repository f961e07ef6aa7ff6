//! Prompts that wait for a running turn, and how they are taken up or dropped.

use crate::json::{encode_strings, json_strings};
use crate::state::db::{outcome, ConversationDb, DbModel};
use crate::state::error::{StateError, StateErrorKind, StateErrorModel};
use crate::state::journal::{
    close_any, close_running, event_row, interrupted_prefix, largest_event_id, max_event_id,
    new_event, uninterrupted, unless_blank,
};
use crate::state::rows::{
    JournalSegmentRow, JournalSegmentRowModel, QueuedPromptRow, QueuedPromptRowModel, TurnRow,
    TurnRowModel, UserAttachmentRow, UserAttachmentRowModel,
};
use crate::state::sessions::{by_seq, sort_by_seq};
use crate::state::types::{
    TurnRedoCheckpointPayload, TurnRedoCheckpointPayloadModel, UserAttachment, UserAttachmentModel,
};
use crate::table::{
    any, append, change_where, count, count_rows, exists_row, first, first_row, last_of, last_row,
    map_rows, not, order_by, reject, select, sorted, update, Row,
};
use crate::text::{before, is_blank, one_of, precedes, same, same_some};
use vstd::prelude::*;

verus! {

/// A prompt that still waits in a queue of a session.
pub open spec fn waiting_in(session_id: Seq<char>, queue: Seq<char>) -> spec_fn(
    QueuedPromptRowModel,
) -> bool {
    |r: QueuedPromptRowModel|
        {
            &&& r.status == "queued"@
            &&& r.session_id == session_id
            &&& r.queue_session_id == Some(queue)
        }
}

pub open spec fn waiting_prompt(
    prompt_id: Seq<char>,
    session_id: Seq<char>,
    queue: Seq<char>,
) -> spec_fn(QueuedPromptRowModel) -> bool {
    |r: QueuedPromptRowModel| r.prompt_id == prompt_id && waiting_in(session_id, queue)(r)
}

/// A prompt that still waits in a queue, whatever its session.
pub open spec fn waiting_at(queue: Seq<char>) -> spec_fn(QueuedPromptRowModel) -> bool {
    |r: QueuedPromptRowModel| r.status == "queued"@ && r.queue_session_id == Some(queue)
}

pub open spec fn waiting_prompt_at(prompt_id: Seq<char>, queue: Seq<char>) -> spec_fn(
    QueuedPromptRowModel,
) -> bool {
    |r: QueuedPromptRowModel| r.prompt_id == prompt_id && waiting_at(queue)(r)
}

pub open spec fn waiting_with_id(prompt_id: Seq<char>) -> spec_fn(QueuedPromptRowModel) -> bool {
    |r: QueuedPromptRowModel| r.prompt_id == prompt_id && r.status == "queued"@
}

pub open spec fn waiting_among(ids: Seq<Seq<char>>) -> spec_fn(QueuedPromptRowModel) -> bool {
    |r: QueuedPromptRowModel| ids.contains(r.prompt_id) && r.status == "queued"@
}

pub open spec fn by_prompt_seq() -> spec_fn(QueuedPromptRowModel, QueuedPromptRowModel) -> bool {
    |a: QueuedPromptRowModel, b: QueuedPromptRowModel| a.seq < b.seq
}

pub open spec fn prompt_id_of() -> spec_fn(QueuedPromptRowModel) -> Seq<char> {
    |r: QueuedPromptRowModel| r.prompt_id
}

pub open spec fn id_and_content() -> spec_fn(QueuedPromptRowModel) -> (Seq<char>, Seq<char>) {
    |r: QueuedPromptRowModel| (r.prompt_id, r.content)
}

/// A prompt taken up by a turn. Provider and model stay as they were.
pub open spec fn taken_up(
    now: Seq<char>,
    turn_id: Seq<char>,
    context: Option<Seq<char>>,
    content: Option<Seq<char>>,
    reasoning: Option<Seq<char>>,
) -> spec_fn(QueuedPromptRowModel) -> QueuedPromptRowModel {
    |r: QueuedPromptRowModel|
        QueuedPromptRowModel {
            status: "consumed"@,
            consumed_at: Some(now),
            turn_id: Some(turn_id),
            context_content: match context {
                Some(text) => Some(text),
                None => Some(r.content),
            },
            preceding_assistant_content: content,
            preceding_assistant_reasoning: reasoning,
            ..r
        }
}

/// What a turn had said before it took up a prompt.
#[verifier::ext_equal]
pub struct Preceding {
    pub content: Option<Seq<char>>,
    pub reasoning: Option<Seq<char>>,
    pub provider_id: Option<Seq<char>>,
    pub model: Option<Seq<char>>,
}

/// A prompt taken up by a turn, with what the turn had said before it.
pub open spec fn taken_up_after(
    now: Seq<char>,
    turn_id: Seq<char>,
    context: Seq<char>,
    said: Preceding,
) -> spec_fn(QueuedPromptRowModel) -> QueuedPromptRowModel {
    |r: QueuedPromptRowModel|
        QueuedPromptRowModel {
            preceding_assistant_provider_id: said.provider_id,
            preceding_assistant_model: said.model,
            ..taken_up(now, turn_id, Some(context), said.content, said.reasoning)(r)
        }
}

/// What is recorded with the prompt at `index`: only the first one of a batch
/// follows on what the turn had said.
pub open spec fn said_before(said: Preceding, index: int) -> Preceding {
    if index == 0 {
        said
    } else {
        Preceding { content: None, reasoning: None, ..said }
    }
}

/// The prompts after the first `n` of a batch were taken up in turn. Each must
/// be waiting.
pub open spec fn batch_taken_up(
    rows: Seq<QueuedPromptRowModel>,
    session_id: Seq<char>,
    queue: Seq<char>,
    turn_id: Seq<char>,
    batch: Seq<(Seq<char>, Seq<char>)>,
    said: Preceding,
    now: Seq<char>,
    n: nat,
) -> Result<Seq<QueuedPromptRowModel>, StateErrorModel>
    decreases n,
{
    if n == 0 {
        Ok(rows)
    } else {
        match batch_taken_up(
            rows,
            session_id,
            queue,
            turn_id,
            batch,
            said,
            now,
            (n - 1) as nat,
        ) {
            Err(error) => Err(error),
            Ok(done) => {
                let (prompt_id, context) = batch[n - 1];
                let p = waiting_prompt(prompt_id, session_id, queue);
                if count(done, p) != 1 {
                    Err(StateErrorModel::about(StateErrorKind::PromptChanged, prompt_id))
                } else {
                    Ok(
                        change_where(
                            done,
                            p,
                            taken_up_after(now, turn_id, context, said_before(said, n - 1)),
                        ),
                    )
                }
            },
        }
    }
}

/// The prompts after the first `n` of a batch were handed to a turn whose
/// process is gone.
pub open spec fn stale_taken_up(
    rows: Seq<QueuedPromptRowModel>,
    queue: Seq<char>,
    turn_id: Seq<char>,
    batch: Seq<(Seq<char>, Seq<char>)>,
    content: Option<Seq<char>>,
    reasoning: Option<Seq<char>>,
    now: Seq<char>,
    n: nat,
) -> Result<Seq<QueuedPromptRowModel>, StateErrorModel>
    decreases n,
{
    if n == 0 {
        Ok(rows)
    } else {
        match stale_taken_up(
            rows,
            queue,
            turn_id,
            batch,
            content,
            reasoning,
            now,
            (n - 1) as nat,
        ) {
            Err(error) => Err(error),
            Ok(done) => {
                let (prompt_id, context) = batch[n - 1];
                let p = waiting_prompt_at(prompt_id, queue);
                if count(done, p) != 1 {
                    Err(StateErrorModel::about(StateErrorKind::StalePromptChanged, prompt_id))
                } else {
                    Ok(
                        change_where(
                            done,
                            p,
                            taken_up(
                                now,
                                turn_id,
                                Some(context),
                                if n == 1 {
                                    content
                                } else {
                                    None
                                },
                                if n == 1 {
                                    reasoning
                                } else {
                                    None
                                },
                            ),
                        ),
                    )
                }
            },
        }
    }
}

/// The prompts after the first `n` ids were folded into a turn that is over.
pub open spec fn folded_into(
    rows: Seq<QueuedPromptRowModel>,
    turn_id: Seq<char>,
    ids: Seq<Seq<char>>,
    content: Option<Seq<char>>,
    reasoning: Option<Seq<char>>,
    now: Seq<char>,
    n: nat,
) -> Seq<QueuedPromptRowModel>
    decreases n,
{
    if n == 0 {
        rows
    } else {
        change_where(
            folded_into(rows, turn_id, ids, content, reasoning, now, (n - 1) as nat),
            waiting_with_id(ids[n - 1]),
            taken_up(
                now,
                turn_id,
                None,
                if n == 1 {
                    content
                } else {
                    None
                },
                if n == 1 {
                    reasoning
                } else {
                    None
                },
            ),
        )
    }
}

pub open spec fn running_turn(turn_id: Seq<char>) -> spec_fn(TurnRowModel) -> bool {
    |r: TurnRowModel| r.turn_id == turn_id && r.status == "running"@
}

pub open spec fn turn_with_queue(session_id: Seq<char>, queue: Seq<char>) -> spec_fn(
    TurnRowModel,
) -> bool {
    |r: TurnRowModel| r.session_id == session_id && r.queue_session_id == Some(queue)
}

/// A running turn that takes from a queue.
pub open spec fn running_on(queue: Seq<char>) -> spec_fn(TurnRowModel) -> bool {
    |r: TurnRowModel| r.status == "running"@ && r.queue_session_id == Some(queue)
}

/// Whether a recorded process id names one of the live processes.
pub open spec fn alive_owner(owner_pid: Option<i64>, alive: Seq<u32>) -> bool {
    match owner_pid {
        Some(pid) => 0 <= pid <= u32::MAX && alive.contains(pid as u32),
        None => false,
    }
}

pub open spec fn attached_to(prompt_id: Seq<char>) -> spec_fn(UserAttachmentRowModel) -> bool {
    |r: UserAttachmentRowModel| r.prompt_id == Some(prompt_id)
}

pub open spec fn by_upload() -> spec_fn(UserAttachmentRowModel, UserAttachmentRowModel) -> bool {
    |a: UserAttachmentRowModel, b: UserAttachmentRowModel|
        if a.attachment.created_at != b.attachment.created_at {
            precedes(a.attachment.created_at, b.attachment.created_at)
        } else {
            precedes(a.attachment.attachment_id, b.attachment.attachment_id)
        }
}

pub open spec fn upload() -> spec_fn(UserAttachmentRowModel) -> UserAttachmentModel {
    |r: UserAttachmentRowModel| r.attachment
}

pub open spec fn first_parts(batch: Seq<(Seq<char>, Seq<char>)>) -> Seq<Seq<char>> {
    batch.map_values(|p: (Seq<char>, Seq<char>)| p.0)
}

impl DbModel {
    /// The files that came with a prompt, in the order of their upload.
    pub open spec fn uploads_of(self, prompt_id: Seq<char>) -> Seq<UserAttachmentModel> {
        order_by(self.attachments.filter(attached_to(prompt_id)), by_upload()).map_values(upload())
    }

    pub open spec fn waiting(self, session_id: Seq<char>, queue: Seq<char>) -> Seq<
        QueuedPromptRowModel,
    > {
        order_by(self.queued_prompts.filter(waiting_in(session_id, queue)), by_prompt_seq())
    }

    pub open spec fn consume_queued_prompts(
        self,
        session_id: Seq<char>,
        turn_id: Seq<char>,
        batch: Seq<(Seq<char>, Seq<char>)>,
        said: Preceding,
        queue: Seq<char>,
        checkpoint: Option<TurnRedoCheckpointPayloadModel>,
        now: Seq<char>,
    ) -> Result<(DbModel, ()), StateErrorModel> {
        if batch.len() == 0 {
            Ok((self, ()))
        } else {
            match first(self.turns, running_turn(turn_id)) {
                None => Err(StateErrorModel::plain(StateErrorKind::TurnNotRunning)),
                Some(turn) => match batch_taken_up(
                    self.queued_prompts,
                    session_id,
                    queue,
                    turn_id,
                    batch,
                    said,
                    now,
                    batch.len(),
                ) {
                    Err(error) => Err(error),
                    Ok(prompts) => {
                        let ids = first_parts(batch);
                        let row = self.checkpoint_row(session_id, turn_id, ids, checkpoint, now);
                        let noted = DbModel {
                            queued_prompts: prompts,
                            ..self
                        }.with_checkpoint(row).journal_begun(
                            turn_id,
                            turn.revision,
                            now,
                        ).prompts_taken_up(
                            turn_id,
                            turn.revision,
                            json_strings(ids),
                            close_running(),
                            now,
                        );
                        match noted {
                            Ok(db) => Ok((db, ())),
                            Err(error) => Err(error),
                        }
                    },
                },
            }
        }
    }

    /// The prompts of a queue handed to the turn that they waited for, whose
    /// process is gone.
    pub open spec fn stale_prompts_consumed(
        self,
        turn_id: Seq<char>,
        revision: i64,
        queue: Option<Seq<char>>,
        now: Seq<char>,
    ) -> Result<DbModel, StateErrorModel> {
        match queue {
            None => Ok(self),
            Some(queue) => {
                let batch = order_by(
                    self.queued_prompts.filter(waiting_at(queue)),
                    by_prompt_seq(),
                ).map_values(id_and_content());
                if batch.len() == 0 {
                    Ok(self)
                } else {
                    let begun = self.journal_begun(turn_id, revision, now);
                    match begun.current_segment(turn_id, revision) {
                        None => Err(StateErrorModel::about(StateErrorKind::MissingRow, turn_id)),
                        Some(segment) => {
                            let (content, reasoning) = if segment.status == "running"@ {
                                begun.segment_projection(turn_id, revision, segment.segment_index)
                            } else {
                                (Seq::empty(), None)
                            };
                            match stale_taken_up(
                                begun.queued_prompts,
                                queue,
                                turn_id,
                                batch,
                                unless_blank(content),
                                reasoning,
                                now,
                                batch.len(),
                            ) {
                                Err(error) => Err(error),
                                Ok(prompts) => DbModel {
                                    queued_prompts: prompts,
                                    ..begun
                                }.prompts_taken_up(
                                    turn_id,
                                    revision,
                                    json_strings(first_parts(batch)),
                                    close_any(),
                                    now,
                                ),
                            }
                        },
                    }
                }
            },
        }
    }

    pub open spec fn without_waiting(self, session_id: Seq<char>, queue: Seq<char>) -> DbModel {
        DbModel {
            queued_prompts: self.queued_prompts.filter(not(waiting_in(session_id, queue))),
            ..self
        }
    }

    /// The turn that the prompts of a queue were meant for.
    pub open spec fn turn_of_queue(self, session_id: Seq<char>, queue: Seq<char>) -> Option<
        TurnRowModel,
    > {
        last_of(order_by(self.turns.filter(turn_with_queue(session_id, queue)), by_seq()))
    }

    pub open spec fn discard_queued_prompts(
        self,
        session_id: Seq<char>,
        queue: Seq<char>,
        now: Seq<char>,
    ) -> Result<(DbModel, usize), StateErrorModel> {
        let ids = self.waiting(session_id, queue).map_values(prompt_id_of());
        let dropped = Ok(
            (
                self.without_waiting(session_id, queue),
                count(self.queued_prompts, waiting_in(session_id, queue)) as usize,
            ),
        );
        match self.turn_of_queue(session_id, queue) {
            None => dropped,
            Some(turn) => if turn.status == "running"@ {
                dropped
            } else {
                let interrupted = turn.status == "interrupted"@;
                let said = if interrupted {
                    uninterrupted(turn.assistant_content)
                } else {
                    turn.assistant_content
                };
                let kept = DbModel {
                    queued_prompts: folded_into(
                        self.queued_prompts,
                        turn.turn_id,
                        ids,
                        unless_blank(said),
                        turn.assistant_reasoning,
                        now,
                        ids.len(),
                    ),
                    ..self
                };
                if !interrupted || ids.len() == 0 {
                    Ok((kept, ids.len() as usize))
                } else {
                    match kept.interruption_noted(
                        turn.turn_id,
                        turn.revision,
                        json_strings(ids),
                        now,
                    ) {
                        Ok(db) => Ok((db, ids.len() as usize)),
                        Err(error) => Err(error),
                    }
                }
            },
        }
    }

    /// A segment after the last one of an interrupted generation, with the
    /// prompts that were left to it.
    pub open spec fn interruption_noted(
        self,
        turn_id: Seq<char>,
        revision: i64,
        prompt_ids_json: Seq<char>,
        now: Seq<char>,
    ) -> Result<DbModel, StateErrorModel> {
        let last = match self.current_segment(turn_id, revision) {
            Some(segment) => segment.segment_index as int,
            None => -1,
        };
        if last == i64::MAX || largest_event_id(self.events) == i64::MAX {
            Err(StateErrorModel::plain(StateErrorKind::OutOfRange))
        } else {
            Ok(
                DbModel {
                    segments: self.segments.push(
                        JournalSegmentRowModel {
                            turn_id,
                            revision,
                            segment_index: (last + 1) as i64,
                            status: "interrupted"@,
                            started_at: now,
                            finished_at: Some(now),
                        },
                    ),
                    events: self.events.push(
                        new_event(
                            (largest_event_id(self.events) + 1) as i64,
                            turn_id,
                            revision,
                            (last + 1) as i64,
                            "queued_prompts_consumed"@,
                            prompt_ids_json,
                            now,
                        ),
                    ),
                    ..self
                },
            )
        }
    }

    pub open spec fn remove_queued_prompt(
        self,
        session_id: Seq<char>,
        prompt_id: Seq<char>,
        queue: Seq<char>,
    ) -> (DbModel, bool) {
        let p = waiting_prompt(prompt_id, session_id, queue);
        (
            DbModel { queued_prompts: self.queued_prompts.filter(not(p)), ..self },
            count(self.queued_prompts, p) == 1,
        )
    }

    pub open spec fn delete_queued_prompts(self, session_id: Seq<char>, queue: Seq<char>) -> (
        DbModel,
        Seq<Seq<char>>,
    ) {
        (
            self.without_waiting(session_id, queue),
            self.waiting(session_id, queue).map_values(prompt_id_of()),
        )
    }

    /// A waiting prompt that no process will take up any more. The prompts of
    /// `queue` and those of a running turn are never stale.
    pub open spec fn stale_prompt(self, queue: Seq<char>, alive: Seq<u32>) -> spec_fn(
        QueuedPromptRowModel,
    ) -> bool {
        |r: QueuedPromptRowModel|
            {
                &&& r.status == "queued"@
                &&& match r.queue_session_id {
                    None => true,
                    Some(name) => {
                        &&& name != queue
                        &&& !any(self.turns, running_on(name))
                        &&& !alive_owner(r.owner_pid, alive)
                    },
                }
            }
    }

    pub open spec fn discard_stale_queued_prompts(self, queue: Seq<char>, alive: Seq<u32>) -> (
        DbModel,
        nat,
    ) {
        let ids = self.queued_prompts.filter(self.stale_prompt(queue, alive)).map_values(
            prompt_id_of(),
        );
        (
            DbModel { queued_prompts: self.queued_prompts.filter(not(waiting_among(ids))), ..self },
            count(self.queued_prompts, waiting_among(ids)),
        )
    }
}

/// Prompts in the order in which they were queued.
pub(crate) fn sort_prompts(rows: &Vec<QueuedPromptRow>) -> (out: Vec<QueuedPromptRow>)
    ensures
        out.deep_view() == order_by(rows.deep_view(), by_prompt_seq()),
{
    let earlier = |a: &QueuedPromptRow, b: &QueuedPromptRow| -> (less: bool)
        ensures
            less == by_prompt_seq()(a.deep_view(), b.deep_view()),
        { a.seq < b.seq };
    sorted(rows, &earlier, Ghost(by_prompt_seq()))
}

/// The ids of prompts.
pub(crate) fn prompt_ids(rows: &Vec<QueuedPromptRow>) -> (ids: Vec<String>)
    ensures
        ids.deep_view() == rows.deep_view().map_values(prompt_id_of()),
{
    let id = |r: &QueuedPromptRow| -> (s: String)
        ensures
            s.deep_view() == prompt_id_of()(r.deep_view()),
        { r.prompt_id.clone() };
    map_rows(rows, &id, Ghost(prompt_id_of()))
}

fn is_waiting_in(r: &QueuedPromptRow, session_id: &str, queue: &str) -> (b: bool)
    ensures
        b == waiting_in(session_id@, queue@)(r.deep_view()),
{
    same(r.status.as_str(), "queued") && same(r.session_id.as_str(), session_id) && same_some(
        &r.queue_session_id,
        queue,
    )
}

fn is_waiting_at(r: &QueuedPromptRow, queue: &str) -> (b: bool)
    ensures
        b == waiting_at(queue@)(r.deep_view()),
{
    same(r.status.as_str(), "queued") && same_some(&r.queue_session_id, queue)
}

fn owned(text: Option<&str>) -> (out: Option<String>)
    ensures
        out.deep_view() == text.deep_view(),
{
    match text {
        Some(text) => Some(text.to_owned()),
        None => None,
    }
}

fn take_up(
    r: &QueuedPromptRow,
    now: &str,
    turn_id: &str,
    context: Option<&str>,
    content: Option<&str>,
    reasoning: Option<&str>,
) -> (n: QueuedPromptRow)
    ensures
        n.deep_view() == taken_up(
            now@,
            turn_id@,
            context.deep_view(),
            content.deep_view(),
            reasoning.deep_view(),
        )(r.deep_view()),
{
    let mut n = r.dup();
    n.status = "consumed".to_owned();
    n.consumed_at = Some(now.to_owned());
    n.turn_id = Some(turn_id.to_owned());
    n.context_content = match context {
        Some(text) => Some(text.to_owned()),
        None => Some(r.content.clone()),
    };
    n.preceding_assistant_content = owned(content);
    n.preceding_assistant_reasoning = owned(reasoning);
    n
}

fn is_alive(owner_pid: Option<i64>, alive: &Vec<u32>) -> (yes: bool)
    ensures
        yes == alive_owner(owner_pid, alive@),
{
    match owner_pid {
        None => false,
        Some(pid) => {
            if pid < 0 || pid > 0xffff_ffff {
                return false;
            }
            listed(alive, pid as u32)
        },
    }
}

/// Whether a number is in a list.
pub(crate) fn listed(list: &Vec<u32>, n: u32) -> (found: bool)
    ensures
        found == list@.contains(n),
{
    let mut i: usize = 0;
    while i < list.len()
        invariant
            i <= list.len(),
            forall|j: int| 0 <= j < i ==> list@[j] != n,
        decreases list.len() - i,
    {
        if list[i] == n {
            assert(list@[i as int] == n);
            return true;
        }
        i += 1;
    }
    false
}

fn first_of_each(batch: &Vec<(String, String)>) -> (ids: Vec<String>)
    ensures
        ids.deep_view() == first_parts(batch.deep_view()),
{
    let mut ids: Vec<String> = Vec::new();
    let mut i: usize = 0;
    while i < batch.len()
        invariant
            i <= batch.len(),
            ids.len() == i,
            forall|j: int| 0 <= j < i ==> #[trigger] ids[j]@ == batch[j].0@,
        decreases batch.len() - i,
    {
        ids.push(batch[i].0.clone());
        i += 1;
    }
    assert(ids.deep_view() =~= first_parts(batch.deep_view()));
    ids
}

fn later_upload(a: &UserAttachmentRow, b: &UserAttachmentRow) -> (less: bool)
    ensures
        less == by_upload()(a.deep_view(), b.deep_view()),
{
    if !same(a.attachment.created_at.as_str(), b.attachment.created_at.as_str()) {
        before(a.attachment.created_at.as_str(), b.attachment.created_at.as_str())
    } else {
        before(a.attachment.attachment_id.as_str(), b.attachment.attachment_id.as_str())
    }
}

/// Files in the order of their upload.
pub(crate) fn sort_uploads(rows: &Vec<UserAttachmentRow>) -> (out: Vec<UserAttachment>)
    ensures
        out.deep_view() == order_by(rows.deep_view(), by_upload()).map_values(upload()),
{
    let rows = sorted(rows, later_upload, Ghost(by_upload()));
    let file = |r: &UserAttachmentRow| -> (a: UserAttachment)
        ensures
            a.deep_view() == upload()(r.deep_view()),
        { r.attachment.dup() };
    map_rows(&rows, &file, Ghost(upload()))
}

impl ConversationDb {
    /// The files that came with a prompt, in the order of their upload.
    pub fn user_attachments_for_prompt(&self, prompt_id: &str) -> (files: Vec<UserAttachment>)
        ensures
            files.deep_view() == self@.uploads_of(prompt_id@),
    {
        let mine = |r: &UserAttachmentRow| -> (b: bool)
            ensures
                b == attached_to(prompt_id@)(r.deep_view()),
            { same_some(&r.prompt_id, prompt_id) };
        let rows = select(&self.attachments, &mine, Ghost(attached_to(prompt_id@)));
        sort_uploads(&rows)
    }

    pub(crate) fn waiting(&self, session_id: &str, queue: &str) -> (rows: Vec<QueuedPromptRow>)
        ensures
            rows.deep_view() == self@.waiting(session_id@, queue@),
    {
        let here = |r: &QueuedPromptRow| -> (b: bool)
            ensures
                b == waiting_in(session_id@, queue@)(r.deep_view()),
            { is_waiting_in(r, session_id, queue) };
        let rows = select(&self.queued_prompts, &here, Ghost(waiting_in(session_id@, queue@)));
        sort_prompts(&rows)
    }

    fn take_up_batch(
        &self,
        session_id: &str,
        turn_id: &str,
        prompts: &Vec<(String, String)>,
        content: Option<&str>,
        reasoning: Option<&str>,
        provider_id: Option<&str>,
        model: Option<&str>,
        queue: &str,
        now: &str,
    ) -> (result: Result<Vec<QueuedPromptRow>, StateError>)
        ensures
            match batch_taken_up(
                self@.queued_prompts,
                session_id@,
                queue@,
                turn_id@,
                prompts.deep_view(),
                Preceding {
                    content: content.deep_view(),
                    reasoning: reasoning.deep_view(),
                    provider_id: provider_id.deep_view(),
                    model: model.deep_view(),
                },
                now@,
                prompts.len() as nat,
            ) {
                Ok(rows) => result matches Ok(got) && got.deep_view() == rows,
                Err(error) => result matches Err(got) && got@ == error,
            },
    {
        let ghost said = Preceding {
            content: content.deep_view(),
            reasoning: reasoning.deep_view(),
            provider_id: provider_id.deep_view(),
            model: model.deep_view(),
        };
        let mut rows = self.queued_prompts.dup();
        let mut i: usize = 0;
        while i < prompts.len()
            invariant
                i <= prompts.len(),
                said == (Preceding {
                    content: content.deep_view(),
                    reasoning: reasoning.deep_view(),
                    provider_id: provider_id.deep_view(),
                    model: model.deep_view(),
                }),
                batch_taken_up(
                    self@.queued_prompts,
                    session_id@,
                    queue@,
                    turn_id@,
                    prompts.deep_view(),
                    said,
                    now@,
                    i as nat,
                ) == Ok::<Seq<QueuedPromptRowModel>, StateErrorModel>(rows.deep_view()),
            decreases prompts.len() - i,
        {
            let prompt_id = prompts[i].0.as_str();
            let context = prompts[i].1.as_str();
            assert(prompts.deep_view()[i as int] == (prompt_id@, context@));
            let matching = |r: &QueuedPromptRow| -> (b: bool)
                ensures
                    b == waiting_prompt(prompt_id@, session_id@, queue@)(r.deep_view()),
                { same(r.prompt_id.as_str(), prompt_id) && is_waiting_in(r, session_id, queue) };
            let here: usize = count_rows(
                &rows,
                &matching,
                Ghost(waiting_prompt(prompt_id@, session_id@, queue@)),
            );
            if here != 1 {
                proof {
                    lemma_batch_error(
                        self@.queued_prompts,
                        session_id@,
                        queue@,
                        turn_id@,
                        prompts.deep_view(),
                        said,
                        now@,
                        i as nat + 1,
                        prompts.len() as nat,
                    );
                }
                return Err(StateError::about(StateErrorKind::PromptChanged, prompt_id));
            }
            let index: usize = i;
            let first_content = if index == 0 {
                content
            } else {
                None
            };
            let first_reasoning = if index == 0 {
                reasoning
            } else {
                None
            };
            let change = |r: &QueuedPromptRow| -> (n: QueuedPromptRow)
                ensures
                    n.deep_view() == taken_up_after(
                        now@,
                        turn_id@,
                        context@,
                        Preceding {
                            content: first_content.deep_view(),
                            reasoning: first_reasoning.deep_view(),
                            provider_id: provider_id.deep_view(),
                            model: model.deep_view(),
                        },
                    )(r.deep_view()),
                {
                    let mut n = take_up(
                        r,
                        now,
                        turn_id,
                        Some(context),
                        first_content,
                        first_reasoning,
                    );
                    n.preceding_assistant_provider_id = owned(provider_id);
                    n.preceding_assistant_model = owned(model);
                    n
                };
            rows = update(
                &rows,
                &matching,
                &change,
                Ghost(waiting_prompt(prompt_id@, session_id@, queue@)),
                Ghost(
                    taken_up_after(
                        now@,
                        turn_id@,
                        context@,
                        Preceding {
                            content: first_content.deep_view(),
                            reasoning: first_reasoning.deep_view(),
                            provider_id: provider_id.deep_view(),
                            model: model.deep_view(),
                        },
                    ),
                ),
            );
            i += 1;
        }
        Ok(rows)
    }

    /// Hands queued prompts to a running turn, without a checkpoint.
    pub fn consume_queued_prompts(
        &mut self,
        session_id: &str,
        turn_id: &str,
        prompts: &Vec<(String, String)>,
        preceding_assistant_content: Option<&str>,
        preceding_assistant_reasoning: Option<&str>,
        preceding_assistant_provider_id: Option<&str>,
        preceding_assistant_model: Option<&str>,
        queue_session_id: &str,
        now: &str,
    ) -> (result: Result<(), StateError>)
        ensures
            outcome(
                result,
                old(self)@,
                final(self)@,
                old(self)@.consume_queued_prompts(
                    session_id@,
                    turn_id@,
                    prompts.deep_view(),
                    Preceding {
                        content: preceding_assistant_content.deep_view(),
                        reasoning: preceding_assistant_reasoning.deep_view(),
                        provider_id: preceding_assistant_provider_id.deep_view(),
                        model: preceding_assistant_model.deep_view(),
                    },
                    queue_session_id@,
                    None,
                    now@,
                ),
            ),
    {
        self.consume_queued_prompts_with_checkpoint(
            session_id,
            turn_id,
            prompts,
            preceding_assistant_content,
            preceding_assistant_reasoning,
            preceding_assistant_provider_id,
            preceding_assistant_model,
            queue_session_id,
            &None,
            now,
        )
    }

    /// Hands queued prompts to a running turn, each with the text that the
    /// model is to see of it, and records from where the turn could be redone.
    pub fn consume_queued_prompts_with_checkpoint(
        &mut self,
        session_id: &str,
        turn_id: &str,
        prompts: &Vec<(String, String)>,
        preceding_assistant_content: Option<&str>,
        preceding_assistant_reasoning: Option<&str>,
        preceding_assistant_provider_id: Option<&str>,
        preceding_assistant_model: Option<&str>,
        queue_session_id: &str,
        checkpoint: &Option<TurnRedoCheckpointPayload>,
        now: &str,
    ) -> (result: Result<(), StateError>)
        ensures
            outcome(
                result,
                old(self)@,
                final(self)@,
                old(self)@.consume_queued_prompts(
                    session_id@,
                    turn_id@,
                    prompts.deep_view(),
                    Preceding {
                        content: preceding_assistant_content.deep_view(),
                        reasoning: preceding_assistant_reasoning.deep_view(),
                        provider_id: preceding_assistant_provider_id.deep_view(),
                        model: preceding_assistant_model.deep_view(),
                    },
                    queue_session_id@,
                    checkpoint.deep_view(),
                    now@,
                ),
            ),
    {
        if prompts.len() == 0 {
            return Ok(());
        }
        let running = |r: &TurnRow| -> (b: bool)
            ensures
                b == running_turn(turn_id@)(r.deep_view()),
            { same(r.turn_id.as_str(), turn_id) && same(r.status.as_str(), "running") };
        let turn = match first_row(&self.turns, &running, Ghost(running_turn(turn_id@))) {
            Some(turn) => turn,
            None => return Err(StateError::plain(StateErrorKind::TurnNotRunning)),
        };
        let rows = match self.take_up_batch(
            session_id,
            turn_id,
            prompts,
            preceding_assistant_content,
            preceding_assistant_reasoning,
            preceding_assistant_provider_id,
            preceding_assistant_model,
            queue_session_id,
            now,
        ) {
            Ok(rows) => rows,
            Err(error) => return Err(error),
        };
        let ids = first_of_each(prompts);
        let row = self.make_checkpoint(session_id, turn_id, &ids, checkpoint, now);
        let mut next = self.dup();
        next.queued_prompts = rows;
        next.put_checkpoint(row);
        next.begin_journal(turn_id, turn.revision, now);
        let json = encode_strings(&ids);
        match next.take_up_prompts(turn_id, turn.revision, json.as_str(), false, now) {
            Ok(()) => {
                *self = next;
                Ok(())
            },
            Err(error) => Err(error),
        }
    }

    fn take_up_stale(
        &self,
        turn_id: &str,
        batch: &Vec<(String, String)>,
        content: Option<&str>,
        reasoning: Option<&str>,
        queue: &str,
        now: &str,
    ) -> (result: Result<Vec<QueuedPromptRow>, StateError>)
        ensures
            match stale_taken_up(
                self@.queued_prompts,
                queue@,
                turn_id@,
                batch.deep_view(),
                content.deep_view(),
                reasoning.deep_view(),
                now@,
                batch.len() as nat,
            ) {
                Ok(rows) => result matches Ok(got) && got.deep_view() == rows,
                Err(error) => result matches Err(got) && got@ == error,
            },
    {
        let mut rows = self.queued_prompts.dup();
        let mut i: usize = 0;
        while i < batch.len()
            invariant
                i <= batch.len(),
                stale_taken_up(
                    self@.queued_prompts,
                    queue@,
                    turn_id@,
                    batch.deep_view(),
                    content.deep_view(),
                    reasoning.deep_view(),
                    now@,
                    i as nat,
                ) == Ok::<Seq<QueuedPromptRowModel>, StateErrorModel>(rows.deep_view()),
            decreases batch.len() - i,
        {
            let prompt_id = batch[i].0.as_str();
            let context = batch[i].1.as_str();
            assert(batch.deep_view()[i as int] == (prompt_id@, context@));
            let matching = |r: &QueuedPromptRow| -> (b: bool)
                ensures
                    b == waiting_prompt_at(prompt_id@, queue@)(r.deep_view()),
                { same(r.prompt_id.as_str(), prompt_id) && is_waiting_at(r, queue) };
            let here: usize = count_rows(
                &rows,
                &matching,
                Ghost(waiting_prompt_at(prompt_id@, queue@)),
            );
            if here != 1 {
                proof {
                    lemma_stale_error(
                        self@.queued_prompts,
                        queue@,
                        turn_id@,
                        batch.deep_view(),
                        content.deep_view(),
                        reasoning.deep_view(),
                        now@,
                        i as nat + 1,
                        batch.len() as nat,
                    );
                }
                return Err(StateError::about(StateErrorKind::StalePromptChanged, prompt_id));
            }
            let first_content = if i == 0 {
                content
            } else {
                None
            };
            let first_reasoning = if i == 0 {
                reasoning
            } else {
                None
            };
            let change = |r: &QueuedPromptRow| -> (n: QueuedPromptRow)
                ensures
                    n.deep_view() == taken_up(
                        now@,
                        turn_id@,
                        Some(context@),
                        first_content.deep_view(),
                        first_reasoning.deep_view(),
                    )(r.deep_view()),
                { take_up(r, now, turn_id, Some(context), first_content, first_reasoning) };
            rows = update(
                &rows,
                &matching,
                &change,
                Ghost(waiting_prompt_at(prompt_id@, queue@)),
                Ghost(
                    taken_up(
                        now@,
                        turn_id@,
                        Some(context@),
                        first_content.deep_view(),
                        first_reasoning.deep_view(),
                    ),
                ),
            );
            i += 1;
        }
        Ok(rows)
    }

    /// Hands the prompts of a queue to the turn that they waited for, whose
    /// process is gone.
    pub(crate) fn consume_stale_queued_prompts(
        &mut self,
        turn_id: &str,
        revision: i64,
        queue_session_id: Option<&str>,
        now: &str,
    ) -> (result: Result<(), StateError>)
        ensures
            match old(self)@.stale_prompts_consumed(
                turn_id@,
                revision,
                queue_session_id.deep_view(),
                now@,
            ) {
                Ok(db) => result is Ok && final(self)@ == db,
                Err(error) => {
                    &&& result matches Err(got)
                    &&& got@ == error
                    &&& final(self)@ == old(self)@
                },
            },
    {
        let queue = match queue_session_id {
            Some(queue) => queue,
            None => return Ok(()),
        };
        let here = |r: &QueuedPromptRow| -> (b: bool)
            ensures
                b == waiting_at(queue@)(r.deep_view()),
            { is_waiting_at(r, queue) };
        let rows = select(&self.queued_prompts, &here, Ghost(waiting_at(queue@)));
        let rows = sort_prompts(&rows);
        let pair = |r: &QueuedPromptRow| -> (p: (String, String))
            ensures
                p.deep_view() == id_and_content()(r.deep_view()),
            { (r.prompt_id.clone(), r.content.clone()) };
        let batch = map_rows(&rows, &pair, Ghost(id_and_content()));
        if batch.len() == 0 {
            assert(batch.deep_view().len() == 0);
            return Ok(());
        }
        let mut next = self.dup();
        next.begin_journal(turn_id, revision, now);
        let segment = match next.current_segment(turn_id, revision) {
            Some(segment) => segment,
            None => return Err(StateError::about(StateErrorKind::MissingRow, turn_id)),
        };
        let (content, reasoning): (String, Option<String>) = if same(
            segment.status.as_str(),
            "running",
        ) {
            next.journal_segment_projection(turn_id, revision, segment.segment_index)
        } else {
            (String::new(), None)
        };
        let said: Option<&str> = if is_blank(content.as_str()) {
            None
        } else {
            Some(content.as_str())
        };
        let thought: Option<&str> = match &reasoning {
            Some(text) => Some(text.as_str()),
            None => None,
        };
        let taken = match next.take_up_stale(turn_id, &batch, said, thought, queue, now) {
            Ok(taken) => taken,
            Err(error) => return Err(error),
        };
        next.queued_prompts = taken;
        let ids = first_of_each(&batch);
        let json = encode_strings(&ids);
        match next.take_up_prompts(turn_id, revision, json.as_str(), true, now) {
            Ok(()) => {
                *self = next;
                Ok(())
            },
            Err(error) => Err(error),
        }
    }

    fn drop_waiting(&mut self, session_id: &str, queue: &str) -> (dropped: usize)
        ensures
            final(self)@ == old(self)@.without_waiting(session_id@, queue@),
            dropped == count(old(self)@.queued_prompts, waiting_in(session_id@, queue@)),
    {
        let here = |r: &QueuedPromptRow| -> (b: bool)
            ensures
                b == waiting_in(session_id@, queue@)(r.deep_view()),
            { is_waiting_in(r, session_id, queue) };
        let dropped = count_rows(
            &self.queued_prompts,
            &here,
            Ghost(waiting_in(session_id@, queue@)),
        );
        self.queued_prompts = reject(
            &self.queued_prompts,
            &here,
            Ghost(waiting_in(session_id@, queue@)),
        );
        dropped
    }

    fn fold_into(
        &self,
        turn_id: &str,
        ids: &Vec<String>,
        content: Option<&str>,
        reasoning: Option<&str>,
        now: &str,
    ) -> (rows: Vec<QueuedPromptRow>)
        ensures
            rows.deep_view() == folded_into(
                self@.queued_prompts,
                turn_id@,
                ids.deep_view(),
                content.deep_view(),
                reasoning.deep_view(),
                now@,
                ids.len() as nat,
            ),
    {
        let mut rows = self.queued_prompts.dup();
        let mut i: usize = 0;
        while i < ids.len()
            invariant
                i <= ids.len(),
                rows.deep_view() == folded_into(
                    self@.queued_prompts,
                    turn_id@,
                    ids.deep_view(),
                    content.deep_view(),
                    reasoning.deep_view(),
                    now@,
                    i as nat,
                ),
            decreases ids.len() - i,
        {
            let prompt_id = ids[i].as_str();
            assert(ids.deep_view()[i as int] == prompt_id@);
            let matching = |r: &QueuedPromptRow| -> (b: bool)
                ensures
                    b == waiting_with_id(prompt_id@)(r.deep_view()),
                { same(r.prompt_id.as_str(), prompt_id) && same(r.status.as_str(), "queued") };
            let first_content = if i == 0 {
                content
            } else {
                None
            };
            let first_reasoning = if i == 0 {
                reasoning
            } else {
                None
            };
            let change = |r: &QueuedPromptRow| -> (n: QueuedPromptRow)
                ensures
                    n.deep_view() == taken_up(
                        now@,
                        turn_id@,
                        None,
                        first_content.deep_view(),
                        first_reasoning.deep_view(),
                    )(r.deep_view()),
                { take_up(r, now, turn_id, None, first_content, first_reasoning) };
            rows = update(
                &rows,
                &matching,
                &change,
                Ghost(waiting_with_id(prompt_id@)),
                Ghost(
                    taken_up(
                        now@,
                        turn_id@,
                        None,
                        first_content.deep_view(),
                        first_reasoning.deep_view(),
                    ),
                ),
            );
            i += 1;
        }
        rows
    }

    fn note_interruption(
        &mut self,
        turn_id: &str,
        revision: i64,
        prompt_ids_json: &str,
        now: &str,
    ) -> (result: Result<(), StateError>)
        ensures
            match old(self)@.interruption_noted(turn_id@, revision, prompt_ids_json@, now@) {
                Ok(db) => result is Ok && final(self)@ == db,
                Err(error) => {
                    &&& result matches Err(got)
                    &&& got@ == error
                    &&& final(self)@ == old(self)@
                },
            },
    {
        let last: i64 = match self.current_segment(turn_id, revision) {
            Some(segment) => segment.segment_index,
            None => -1,
        };
        let last_event: i64 = max_event_id(&self.events);
        if last == i64::MAX || last_event == i64::MAX {
            return Err(StateError::plain(StateErrorKind::OutOfRange));
        }
        append(
            &mut self.segments,
            JournalSegmentRow {
                turn_id: turn_id.to_owned(),
                revision,
                segment_index: last + 1,
                status: "interrupted".to_owned(),
                started_at: now.to_owned(),
                finished_at: Some(now.to_owned()),
            },
        );
        append(
            &mut self.events,
            event_row(
                last_event + 1,
                turn_id,
                revision,
                last + 1,
                "queued_prompts_consumed",
                prompt_ids_json,
                now,
            ),
        );
        Ok(())
    }

    /// Clears a queue. Where its turn is over, the prompts are kept as part of
    /// that turn; where it still runs, or there is none, they are dropped.
    pub fn discard_queued_prompts(
        &mut self,
        session_id: &str,
        queue_session_id: &str,
        now: &str,
    ) -> (result: Result<usize, StateError>)
        ensures
            outcome(
                result,
                old(self)@,
                final(self)@,
                old(self)@.discard_queued_prompts(session_id@, queue_session_id@, now@),
            ),
    {
        let on_queue = |r: &TurnRow| -> (b: bool)
            ensures
                b == turn_with_queue(session_id@, queue_session_id@)(r.deep_view()),
            {
                same(r.session_id.as_str(), session_id) && same_some(
                    &r.queue_session_id,
                    queue_session_id,
                )
            };
        let turns = select(
            &self.turns,
            &on_queue,
            Ghost(turn_with_queue(session_id@, queue_session_id@)),
        );
        let turns = sort_by_seq(&turns);
        let turn = match last_row(&turns) {
            Some(turn) => turn,
            None => return Ok(self.drop_waiting(session_id, queue_session_id)),
        };
        if same(turn.status.as_str(), "running") {
            return Ok(self.drop_waiting(session_id, queue_session_id));
        }
        let interrupted = same(turn.status.as_str(), "interrupted");
        let said = if interrupted {
            interrupted_prefix(turn.assistant_content.as_str())
        } else {
            turn.assistant_content.clone()
        };
        let content: Option<&str> = if is_blank(said.as_str()) {
            None
        } else {
            Some(said.as_str())
        };
        let reasoning: Option<&str> = match &turn.assistant_reasoning {
            Some(text) => Some(text.as_str()),
            None => None,
        };
        let rows = self.waiting(session_id, queue_session_id);
        let ids = prompt_ids(&rows);
        let mut next = self.dup();
        next.queued_prompts = self.fold_into(turn.turn_id.as_str(), &ids, content, reasoning, now);
        if interrupted && ids.len() != 0 {
            let json = encode_strings(&ids);
            match next.note_interruption(
                turn.turn_id.as_str(),
                turn.revision,
                json.as_str(),
                now,
            ) {
                Ok(()) => {},
                Err(error) => return Err(error),
            }
        }
        *self = next;
        Ok(ids.len())
    }

    /// Withdraws one waiting prompt, and says whether it was there.
    pub fn remove_queued_prompt(
        &mut self,
        session_id: &str,
        prompt_id: &str,
        queue_session_id: &str,
    ) -> (removed: bool)
        ensures
            (final(self)@, removed) == old(self)@.remove_queued_prompt(
                session_id@,
                prompt_id@,
                queue_session_id@,
            ),
    {
        let matching = |r: &QueuedPromptRow| -> (b: bool)
            ensures
                b == waiting_prompt(prompt_id@, session_id@, queue_session_id@)(r.deep_view()),
            {
                same(r.prompt_id.as_str(), prompt_id) && is_waiting_in(
                    r,
                    session_id,
                    queue_session_id,
                )
            };
        let here: usize = count_rows(
            &self.queued_prompts,
            &matching,
            Ghost(waiting_prompt(prompt_id@, session_id@, queue_session_id@)),
        );
        self.queued_prompts = reject(
            &self.queued_prompts,
            &matching,
            Ghost(waiting_prompt(prompt_id@, session_id@, queue_session_id@)),
        );
        here == 1
    }

    /// Withdraws every waiting prompt of a queue, and names them. Nothing is
    /// kept as part of a turn.
    pub fn delete_queued_prompts(&mut self, session_id: &str, queue_session_id: &str) -> (ids: Vec<
        String,
    >)
        ensures
            (final(self)@, ids.deep_view()) == old(self)@.delete_queued_prompts(
                session_id@,
                queue_session_id@,
            ),
    {
        let rows = self.waiting(session_id, queue_session_id);
        let ids = prompt_ids(&rows);
        self.drop_waiting(session_id, queue_session_id);
        ids
    }

    fn runs_on(&self, queue: &str) -> (yes: bool)
        ensures
            yes == any(self@.turns, running_on(queue@)),
    {
        let running = |r: &TurnRow| -> (b: bool)
            ensures
                b == running_on(queue@)(r.deep_view()),
            { same(r.status.as_str(), "running") && same_some(&r.queue_session_id, queue) };
        exists_row(&self.turns, &running, Ghost(running_on(queue@)))
    }

    fn is_stale(&self, r: &QueuedPromptRow, queue: &str, alive: &Vec<u32>) -> (b: bool)
        ensures
            b == self@.stale_prompt(queue@, alive@)(r.deep_view()),
    {
        if !same(r.status.as_str(), "queued") {
            return false;
        }
        match &r.queue_session_id {
            None => true,
            Some(name) => !same(name.as_str(), queue) && !self.runs_on(name.as_str()) && !is_alive(
                r.owner_pid,
                alive,
            ),
        }
    }

    /// Drops the waiting prompts that no live process will take up, and says
    /// how many there were. `alive` lists the processes that exist.
    pub fn discard_stale_queued_prompts(&mut self, current_session_id: &str, alive: &Vec<u32>) -> (
        discarded: usize)
        ensures
            (final(self)@, discarded as nat) == old(self)@.discard_stale_queued_prompts(
                current_session_id@,
                alive@,
            ),
    {
        let stale = |r: &QueuedPromptRow| -> (b: bool)
            ensures
                b == self@.stale_prompt(current_session_id@, alive@)(r.deep_view()),
            { self.is_stale(r, current_session_id, alive) };
        let rows = select(
            &self.queued_prompts,
            &stale,
            Ghost(self@.stale_prompt(current_session_id@, alive@)),
        );
        let ids = prompt_ids(&rows);
        let gone = |r: &QueuedPromptRow| -> (b: bool)
            ensures
                b == waiting_among(ids.deep_view())(r.deep_view()),
            { one_of(&ids, r.prompt_id.as_str()) && same(r.status.as_str(), "queued") };
        let discarded = count_rows(
            &self.queued_prompts,
            &gone,
            Ghost(waiting_among(ids.deep_view())),
        );
        self.queued_prompts = reject(
            &self.queued_prompts,
            &gone,
            Ghost(waiting_among(ids.deep_view())),
        );
        discarded
    }
}

/// An error in a batch stays however many prompts follow.
proof fn lemma_batch_error(
    rows: Seq<QueuedPromptRowModel>,
    session_id: Seq<char>,
    queue: Seq<char>,
    turn_id: Seq<char>,
    batch: Seq<(Seq<char>, Seq<char>)>,
    said: Preceding,
    now: Seq<char>,
    n: nat,
    m: nat,
)
    requires
        n <= m,
        batch_taken_up(rows, session_id, queue, turn_id, batch, said, now, n) is Err,
    ensures
        batch_taken_up(rows, session_id, queue, turn_id, batch, said, now, m) == batch_taken_up(
            rows,
            session_id,
            queue,
            turn_id,
            batch,
            said,
            now,
            n,
        ),
    decreases m,
{
    if n < m {
        lemma_batch_error(
            rows,
            session_id,
            queue,
            turn_id,
            batch,
            said,
            now,
            n,
            (m - 1) as nat,
        );
    }
}

/// An error in a batch stays however many prompts follow.
proof fn lemma_stale_error(
    rows: Seq<QueuedPromptRowModel>,
    queue: Seq<char>,
    turn_id: Seq<char>,
    batch: Seq<(Seq<char>, Seq<char>)>,
    content: Option<Seq<char>>,
    reasoning: Option<Seq<char>>,
    now: Seq<char>,
    n: nat,
    m: nat,
)
    requires
        n <= m,
        stale_taken_up(rows, queue, turn_id, batch, content, reasoning, now, n) is Err,
    ensures
        stale_taken_up(rows, queue, turn_id, batch, content, reasoning, now, m) == stale_taken_up(
            rows,
            queue,
            turn_id,
            batch,
            content,
            reasoning,
            now,
            n,
        ),
    decreases m,
{
    if n < m {
        lemma_stale_error(rows, queue, turn_id, batch, content, reasoning, now, n, (m - 1) as nat);
    }
}

} // verus!

