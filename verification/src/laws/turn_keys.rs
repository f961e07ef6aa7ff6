//! Every operation on turns and prompts keeps the store well formed.

use crate::facts::{lemma_filter_contains, lemma_first, lemma_order_contains};
use crate::json::{json_strings, parsed_field, strings_or_none};
use crate::laws::keys::law_turns_leave_whole;
use crate::state::assets::{asset_of_event, JournalAssetModel};
use crate::state::cascade::{session_id_of, turn_id_of};
use crate::state::checkpoint::{
    artifact_id, artifact_of, checkpoint_of, image_id, image_of, item_of, question_of,
};
use crate::state::compact::{
    hidden_among, hidden_since, loaded_by, poppable, pruned, set_hidden, turn_among, turn_anywhere,
    turn_up_to, united, unsummarised, visible_among,
};
use crate::state::db::DbModel;
use crate::state::journal::{
    close_any, close_running, closed, new_segment, segment_at, segment_of, uninterrupted,
    unless_blank,
};
use crate::state::keys::{
    artifact_turn, backup_turn, checkpoint_turn, event_turn, image_turn, item_key,
    lemma_children_wider, lemma_contains_key, lemma_items_replaced, lemma_keys_push,
    lemma_sessions_changed, lemma_tied_change, lemma_tied_concat, lemma_tied_filter,
    lemma_tied_push, lemma_turns_changed, lemma_unique_change, lemma_unique_filter,
    lemma_unique_push, question_turn, segment_turn, unique,
};
use crate::state::legacy::{field, migrated_row, Takeover, CUT_SHORT, NO_REPLY};
use crate::state::queue::{
    batch_taken_up, by_prompt_seq, first_parts, folded_into, id_and_content, prompt_id_of,
    running_turn, said_before, stale_taken_up, taken_up, taken_up_after, turn_with_queue,
    waiting_among, waiting_at, waiting_in, waiting_prompt, waiting_prompt_at, waiting_with_id,
    Preceding,
};
use crate::state::recovery::{at_seq, cut_off, requested_at, running_segment_of, stale_turn};
use crate::state::redo::{
    artifact_beyond, backup_at, checkpoint_restored, claimed, consumed_by, consumed_prompt,
    event_of, image_beyond, item_from_triple, item_from_turn, item_restored, less_one, prompt_among,
    question_from, restored, reworded, reworded_prompt, running_revision, settled_turn,
    with_prompt_id, with_turn_id, RedoRequest,
};
use crate::state::replay::{with_replay, within_budget};
use crate::state::rows::{CheckpointRowModel, QueuedPromptRowModel, TurnRowModel};
use crate::state::salvage::{at_path, turn_named, FoundFileModel, SalvageModel};
use crate::state::sessions::{by_seq, plain_turn, set_updated_at, with_session_id};
use crate::state::turns::turn_of;
use crate::state::types::{
    ImageAssetDataModel, TurnJournalEventModel, TurnRedoBackupModel, TurnRedoCheckpointPayloadModel,
    TurnTokensModel,
};
use crate::table::{change_where, first, last_of, limited, not, order_by};
use crate::text::decimal;
use vstd::prelude::*;

verus! {

proof fn lemma_known_turn(db: DbModel, turn_id: Seq<char>)
    ensures
        db.turn_ids().contains(turn_id) == db.has_turn(turn_id),
{
    let ids = db.turn_ids();
    if ids.contains(turn_id) {
        assert(with_turn_id(turn_id)(db.turns[ids.index_of(turn_id)]));
    }
    if db.has_turn(turn_id) {
        let p = with_turn_id(turn_id);
        let i = choose|i: int| 0 <= i < db.turns.len() && p(#[trigger] db.turns[i]);
        lemma_contains_key(db.turns, turn_id_of(), i);
    }
}

proof fn lemma_turn_in(db: DbModel, turn: TurnRowModel)
    requires
        db.turns.contains(turn),
    ensures
        db.turn_ids().contains(turn.turn_id),
{
    lemma_contains_key(db.turns, turn_id_of(), db.turns.index_of(turn));
}

proof fn lemma_new_turn(db: DbModel, row: TurnRowModel)
    requires
        db.well_formed(),
        !db.has_turn(row.turn_id),
    ensures
        db.with_turn(row).well_formed(),
{
    lemma_known_turn(db, row.turn_id);
    lemma_unique_push(db.turns, row, turn_id_of());
    lemma_keys_push(db.turns, row, turn_id_of());
    lemma_children_wider(db, db.turn_ids(), db.with_turn(row).turn_ids());
}

/// Hiding turns, folding them into a summary, and taking the last one back keep
/// the store well formed.
pub proof fn law_folding_keeps_keys(
    db: DbModel,
    session_id: Seq<char>,
    seq: i64,
    fold_turn_ids: Seq<Seq<char>>,
    visible_turn_ids: Seq<Seq<char>>,
    summary: Seq<char>,
    tokens: TurnTokensModel,
    estimated: bool,
    footprint_json: Option<Seq<char>>,
    turn_id: Seq<char>,
    now: Seq<char>,
)
    requires
        db.well_formed(),
    ensures
        db.hide_turns_before_seq(session_id, seq).0.well_formed(),
        db.insert_summary_turn(session_id, summary, tokens, estimated, turn_id, now) matches Ok(
            done,
        ) ==> done.0.well_formed(),
        db.replace_visible_with_summary(
            session_id,
            fold_turn_ids,
            visible_turn_ids,
            summary,
            tokens,
            estimated,
            footprint_json,
            turn_id,
            now,
        ) matches Ok(done) ==> done.0.well_formed(),
        db.undo_last_turn(session_id).0.well_formed(),
{
    lemma_turns_changed(db, turn_up_to(session_id, seq), set_hidden(true));
    if let Ok(done) = db.insert_summary_turn(
        session_id,
        summary,
        tokens,
        estimated,
        turn_id,
        now,
    ) {
        lemma_new_turn(db, done.0.turns.last());
        assert(done.0.turns =~= db.turns.push(done.0.turns.last()));
    }
    if let Ok(done) = db.replace_visible_with_summary(
        session_id,
        fold_turn_ids,
        visible_turn_ids,
        summary,
        tokens,
        estimated,
        footprint_json,
        turn_id,
        now,
    ) {
        let ids = united(fold_turn_ids, db.summary_ids(session_id));
        let p = visible_among(session_id, ids);
        let folded = DbModel { turns: change_where(db.turns, p, set_hidden(true)), ..db };
        lemma_turns_changed(db, p, set_hidden(true));
        lemma_unique_change(db.turns, p, set_hidden(true), turn_id_of());
        assert(folded.turn_ids() == db.turn_ids());
        lemma_known_turn(db, turn_id);
        lemma_known_turn(folded, turn_id);
        lemma_new_turn(folded, done.0.turns.last());
        assert(done.0.turns =~= folded.turns.push(done.0.turns.last()));
    }
    if let Some(turn) = db.last_visible(session_id) {
        law_turns_leave_whole(db, with_turn_id(turn.turn_id));
        let p = match turn.compact_hidden_json {
            Some(json) => hidden_among(session_id, strings_or_none(json)),
            None => hidden_since(session_id, turn.compact_parent_summary_seq, turn.seq),
        };
        lemma_turns_changed(db, p, set_hidden(false));
        law_turns_leave_whole(
            DbModel { turns: change_where(db.turns, p, set_hidden(false)), ..db },
            with_turn_id(turn.turn_id),
        );
    }
}

pub proof fn lemma_popped(db: DbModel, session_id: Seq<char>, ids: Seq<Seq<char>>, n: nat)
    requires
        db.well_formed(),
    ensures
        db.popped(session_id, ids, n) matches Ok(done) ==> done.well_formed(),
    decreases n,
{
    if n > 0 {
        lemma_popped(db, session_id, ids, (n - 1) as nat);
        if let Ok(done) = db.popped(session_id, ids, (n - 1) as nat) {
            law_turns_leave_whole(done, poppable(session_id, ids[n - 1]));
            lemma_unique_filter(
                done.loaded_items,
                not(loaded_by(session_id, ids[n - 1])),
                item_key(),
            );
        }
    }
}

/// Pruning tool reports and deleting turns from the conversation keep the store
/// well formed.
pub proof fn law_eviction_keeps_keys(
    db: DbModel,
    session_id: Seq<char>,
    protect_recent: usize,
    min_saved_chars: usize,
    ids: Seq<Seq<char>>,
    expected: Option<Seq<(Seq<char>, Option<Seq<char>>)>>,
    n: nat,
)
    requires
        db.well_formed(),
    ensures
        db.prune_stale_tool_reports(session_id, protect_recent, min_saved_chars).0.well_formed(),
        db.delete_visible_turns(session_id, ids, expected) matches Ok(done)
            ==> done.0.well_formed(),
        db.trim_oldest_turns(session_id, n).0.well_formed(),
{
    let rows = db.prune_candidates(session_id, protect_recent);
    lemma_turns_changed(db, turn_among(session_id, rows.map_values(turn_id_of())), pruned());
    lemma_popped(db, session_id, ids, ids.len());
    let oldest = limited(
        order_by(db.turns.filter(unsummarised(session_id)), by_seq()),
        n,
    );
    law_turns_leave_whole(db, turn_anywhere(oldest.map_values(turn_id_of())));
}

proof fn lemma_takeover_turn(
    t: Takeover,
    session_id: Seq<char>,
    prompt: (Seq<char>, Seq<char>),
    reply: Seq<char>,
    reasoning: Option<Seq<char>>,
    replied_at: Option<Seq<char>>,
    status: Seq<char>,
)
    requires
        t.db.well_formed(),
    ensures
        t.with_turn(
            session_id,
            prompt,
            reply,
            reasoning,
            replied_at,
            status,
        ).db.well_formed(),
{
    let turn_id = "migrated_"@ + decimal(t.migrated);
    if let Some(seq) = t.db.next_seq(session_id) {
        if !t.db.has_turn(turn_id) {
            lemma_new_turn(
                t.db,
                migrated_row(
                    turn_id,
                    session_id,
                    seq,
                    prompt,
                    reply,
                    reasoning,
                    replied_at,
                    status,
                ),
            );
        }
    }
}

proof fn lemma_takeover(
    t: Takeover,
    session_id: Seq<char>,
    lines: Seq<Seq<char>>,
    now: Seq<char>,
    n: nat,
)
    requires
        t.db.well_formed(),
    ensures
        t.after(session_id, lines, now, n).db.well_formed(),
    decreases n,
{
    if n > 0 {
        lemma_takeover(t, session_id, lines, now, (n - 1) as nat);
        let before = t.after(session_id, lines, now, (n - 1) as nat);
        let line = lines[n - 1];
        if let Some(prompt) = before.pending {
            lemma_takeover_turn(
                before,
                session_id,
                prompt,
                NO_REPLY@,
                None,
                None,
                "completed"@,
            );
            let reasoning = match parsed_field(line, "reasoning"@) {
                Some(text) => text,
                None => None,
            };
            lemma_takeover_turn(
                before,
                session_id,
                prompt,
                field(line, "content"@),
                reasoning,
                Some(now),
                "completed"@,
            );
        }
    }
}

/// Taking over an old conversation keeps the store well formed.
pub proof fn law_takeover_keeps_keys(
    db: DbModel,
    session_id: Seq<char>,
    lines: Seq<Seq<char>>,
    now: Seq<char>,
)
    requires
        db.well_formed(),
    ensures
        db.migrate_from_jsonl(session_id, lines, now).0.well_formed(),
{
    let start = Takeover { db, migrated: 0, pending: None, failed: None };
    lemma_takeover(start, session_id, lines, now, lines.len());
    let end = start.after(session_id, lines, now, lines.len());
    if let Some(prompt) = end.pending {
        lemma_takeover_turn(
            end,
            session_id,
            prompt,
            CUT_SHORT@,
            None,
            None,
            "interrupted"@,
        );
    }
}

proof fn lemma_batch_keys(
    rows: Seq<QueuedPromptRowModel>,
    session_id: Seq<char>,
    queue: Seq<char>,
    turn_id: Seq<char>,
    batch: Seq<(Seq<char>, Seq<char>)>,
    said: Preceding,
    now: Seq<char>,
    n: nat,
)
    requires
        unique(rows, prompt_id_of()),
    ensures
        batch_taken_up(rows, session_id, queue, turn_id, batch, said, now, n) matches Ok(done)
            ==> unique(done, prompt_id_of()),
    decreases n,
{
    if n > 0 {
        lemma_batch_keys(rows, session_id, queue, turn_id, batch, said, now, (n - 1) as nat);
        if let Ok(done) = batch_taken_up(
            rows,
            session_id,
            queue,
            turn_id,
            batch,
            said,
            now,
            (n - 1) as nat,
        ) {
            let (prompt_id, context) = batch[n - 1];
            lemma_unique_change(
                done,
                waiting_prompt(prompt_id, session_id, queue),
                taken_up_after(now, turn_id, context, said_before(said, n - 1)),
                prompt_id_of(),
            );
        }
    }
}

proof fn lemma_stale_keys(
    rows: Seq<QueuedPromptRowModel>,
    queue: Seq<char>,
    turn_id: Seq<char>,
    batch: Seq<(Seq<char>, Seq<char>)>,
    content: Option<Seq<char>>,
    reasoning: Option<Seq<char>>,
    now: Seq<char>,
    n: nat,
)
    requires
        unique(rows, prompt_id_of()),
    ensures
        stale_taken_up(rows, queue, turn_id, batch, content, reasoning, now, n) matches Ok(done)
            ==> unique(done, prompt_id_of()),
    decreases n,
{
    if n > 0 {
        lemma_stale_keys(rows, queue, turn_id, batch, content, reasoning, now, (n - 1) as nat);
        if let Ok(done) = stale_taken_up(
            rows,
            queue,
            turn_id,
            batch,
            content,
            reasoning,
            now,
            (n - 1) as nat,
        ) {
            let (prompt_id, context) = batch[n - 1];
            let (c, r) = if n == 1 {
                (content, reasoning)
            } else {
                (None, None)
            };
            lemma_unique_change(
                done,
                waiting_prompt_at(prompt_id, queue),
                taken_up(now, turn_id, Some(context), c, r),
                prompt_id_of(),
            );
        }
    }
}

proof fn lemma_folded_keys(
    rows: Seq<QueuedPromptRowModel>,
    turn_id: Seq<char>,
    ids: Seq<Seq<char>>,
    content: Option<Seq<char>>,
    reasoning: Option<Seq<char>>,
    now: Seq<char>,
    n: nat,
)
    requires
        unique(rows, prompt_id_of()),
    ensures
        unique(
            folded_into(rows, turn_id, ids, content, reasoning, now, n),
            prompt_id_of(),
        ),
    decreases n,
{
    if n > 0 {
        lemma_folded_keys(rows, turn_id, ids, content, reasoning, now, (n - 1) as nat);
        let (c, r) = if n == 1 {
            (content, reasoning)
        } else {
            (None, None)
        };
        lemma_unique_change(
            folded_into(rows, turn_id, ids, content, reasoning, now, (n - 1) as nat),
            waiting_with_id(ids[n - 1]),
            taken_up(now, turn_id, None, c, r),
            prompt_id_of(),
        );
    }
}

/// Beginning a journal, noting what a generation took up and keeping a
/// checkpoint keep the store well formed, for a turn that exists.
pub proof fn law_journal_keeps_keys(
    db: DbModel,
    turn_id: Seq<char>,
    revision: i64,
    prompt_ids_json: Seq<char>,
    close: spec_fn(Seq<char>) -> bool,
    row: CheckpointRowModel,
    now: Seq<char>,
)
    requires
        db.well_formed(),
        db.has_turn(turn_id),
        row.turn_id == turn_id,
    ensures
        db.journal_begun(turn_id, revision, now).well_formed(),
        db.prompts_taken_up(turn_id, revision, prompt_ids_json, close, now) matches Ok(done)
            ==> done.well_formed(),
        db.interruption_noted(turn_id, revision, prompt_ids_json, now) matches Ok(done)
            ==> done.well_formed(),
        db.with_checkpoint(row).well_formed(),
        db.store_replay_journal(turn_id).well_formed(),
{
    let ids = db.turn_ids();
    lemma_known_turn(db, turn_id);
    lemma_tied_push(
        db.segments,
        new_segment(turn_id, revision, 0, now),
        segment_turn(),
        ids,
    );
    if let Ok(done) = db.prompts_taken_up(turn_id, revision, prompt_ids_json, close, now) {
        let segment = db.current_segment(turn_id, revision)->0;
        let p = segment_at(turn_id, revision, segment.segment_index);
        lemma_tied_change(db.segments, p, closed("completed"@, now), segment_turn(), ids);
        let kept = done.segments.drop_last();
        assert(done.segments =~= kept.push(done.segments.last()));
        assert(kept =~= db.segments || kept =~= change_where(
            db.segments,
            p,
            closed("completed"@, now),
        ));
        lemma_tied_push(kept, done.segments.last(), segment_turn(), ids);
        assert(done.events =~= db.events.push(done.events.last()));
        lemma_tied_push(db.events, done.events.last(), event_turn(), ids);
    }
    if let Ok(done) = db.interruption_noted(turn_id, revision, prompt_ids_json, now) {
        assert(done.segments =~= db.segments.push(done.segments.last()));
        assert(done.events =~= db.events.push(done.events.last()));
        lemma_tied_push(db.segments, done.segments.last(), segment_turn(), ids);
        lemma_tied_push(db.events, done.events.last(), event_turn(), ids);
    }
    lemma_tied_change(
        db.checkpoints,
        checkpoint_of(turn_id),
        |r: CheckpointRowModel| row,
        checkpoint_turn(),
        ids,
    );
    lemma_tied_push(db.checkpoints, row, checkpoint_turn(), ids);
    lemma_turns_changed(
        db,
        with_turn_id(turn_id),
        with_replay(within_budget(db.transcript(turn_id))),
    );
}

/// Taking prompts up, withdrawing them and discarding them keep the store well
/// formed.
pub proof fn law_queue_keeps_keys(
    db: DbModel,
    session_id: Seq<char>,
    turn_id: Seq<char>,
    prompt_id: Seq<char>,
    batch: Seq<(Seq<char>, Seq<char>)>,
    said: Preceding,
    queue: Seq<char>,
    checkpoint: Option<TurnRedoCheckpointPayloadModel>,
    alive: Seq<u32>,
    now: Seq<char>,
)
    requires
        db.well_formed(),
    ensures
        db.consume_queued_prompts(
            session_id,
            turn_id,
            batch,
            said,
            queue,
            checkpoint,
            now,
        ) matches Ok(done) ==> done.0.well_formed(),
        db.discard_queued_prompts(session_id, queue, now) matches Ok(done)
            ==> done.0.well_formed(),
        db.remove_queued_prompt(session_id, prompt_id, queue).0.well_formed(),
        db.delete_queued_prompts(session_id, queue).0.well_formed(),
        db.discard_stale_queued_prompts(queue, alive).0.well_formed(),
{
    lemma_unique_filter(
        db.queued_prompts,
        not(waiting_prompt(prompt_id, session_id, queue)),
        prompt_id_of(),
    );
    lemma_unique_filter(db.queued_prompts, not(waiting_in(session_id, queue)), prompt_id_of());
    let stale = db.queued_prompts.filter(db.stale_prompt(queue, alive)).map_values(
        prompt_id_of(),
    );
    lemma_unique_filter(db.queued_prompts, not(waiting_among(stale)), prompt_id_of());
    lemma_batch_keys(
        db.queued_prompts,
        session_id,
        queue,
        turn_id,
        batch,
        said,
        now,
        batch.len(),
    );
    if let Ok(done) = db.consume_queued_prompts(
        session_id,
        turn_id,
        batch,
        said,
        queue,
        checkpoint,
        now,
    ) {
        if batch.len() > 0 {
            lemma_first(db.turns, running_turn(turn_id));
            let turn = first(db.turns, running_turn(turn_id))->0;
            lemma_turn_in(db, turn);
            lemma_known_turn(db, turn_id);
            let ids = first_parts(batch);
            let row = db.checkpoint_row(session_id, turn_id, ids, checkpoint, now);
            let taken = DbModel {
                queued_prompts: batch_taken_up(
                    db.queued_prompts,
                    session_id,
                    queue,
                    turn_id,
                    batch,
                    said,
                    now,
                    batch.len(),
                )->Ok_0,
                ..db
            };
            assert(taken.has_turn(turn_id));
            let json = json_strings(ids);
            let close = close_running();
            law_journal_keeps_keys(taken, turn_id, turn.revision, json, close, row, now);
            let kept = taken.with_checkpoint(row);
            assert(kept.has_turn(turn_id));
            law_journal_keeps_keys(kept, turn_id, turn.revision, json, close, row, now);
            let begun = kept.journal_begun(turn_id, turn.revision, now);
            assert(begun.has_turn(turn_id));
            law_journal_keeps_keys(begun, turn_id, turn.revision, json, close, row, now);
        }
    }
    if let Some(turn) = db.turn_of_queue(session_id, queue) {
        let mine = db.turns.filter(turn_with_queue(session_id, queue));
        let ordered = order_by(mine, by_seq());
        assert(ordered[ordered.len() - 1] == turn);
        assert(ordered.contains(turn));
        lemma_order_contains(mine, by_seq(), turn);
        lemma_filter_contains(db.turns, turn_with_queue(session_id, queue), turn);
        lemma_turn_in(db, turn);
        lemma_known_turn(db, turn.turn_id);
        let ids = db.waiting(session_id, queue).map_values(prompt_id_of());
        let said = if turn.status == "interrupted"@ {
            uninterrupted(turn.assistant_content)
        } else {
            turn.assistant_content
        };
        let rows = folded_into(
            db.queued_prompts,
            turn.turn_id,
            ids,
            unless_blank(said),
            turn.assistant_reasoning,
            now,
            ids.len(),
        );
        lemma_folded_keys(
            db.queued_prompts,
            turn.turn_id,
            ids,
            unless_blank(said),
            turn.assistant_reasoning,
            now,
            ids.len(),
        );
        let kept = DbModel { queued_prompts: rows, ..db };
        assert(kept.has_turn(turn.turn_id));
        let row = db.checkpoint_row(session_id, turn.turn_id, ids, checkpoint, now);
        law_journal_keeps_keys(
            kept,
            turn.turn_id,
            turn.revision,
            json_strings(ids),
            close_any(),
            row,
            now,
        );
    }
}

proof fn lemma_stale_prompts(
    db: DbModel,
    turn_id: Seq<char>,
    revision: i64,
    queue: Option<Seq<char>>,
    now: Seq<char>,
)
    requires
        db.well_formed(),
        db.has_turn(turn_id),
    ensures
        db.stale_prompts_consumed(turn_id, revision, queue, now) matches Ok(done) ==> {
            &&& done.well_formed()
            &&& done.turns == db.turns
        },
{
    if let (Some(queue), Ok(done)) = (
        queue,
        db.stale_prompts_consumed(turn_id, revision, queue, now),
    ) {
        let batch = order_by(
            db.queued_prompts.filter(waiting_at(queue)),
            by_prompt_seq(),
        ).map_values(id_and_content());
        let row = db.checkpoint_row(turn_id, turn_id, first_parts(batch), None, now);
        let json = json_strings(first_parts(batch));
        law_journal_keeps_keys(db, turn_id, revision, json, close_any(), row, now);
        if batch.len() > 0 {
            let begun = db.journal_begun(turn_id, revision, now);
            let segment = begun.current_segment(turn_id, revision)->0;
            let (content, reasoning) = if segment.status == "running"@ {
                begun.segment_projection(turn_id, revision, segment.segment_index)
            } else {
                (Seq::empty(), None)
            };
            lemma_stale_keys(
                begun.queued_prompts,
                queue,
                turn_id,
                batch,
                unless_blank(content),
                reasoning,
                now,
                batch.len(),
            );
            let taken = DbModel {
                queued_prompts: stale_taken_up(
                    begun.queued_prompts,
                    queue,
                    turn_id,
                    batch,
                    unless_blank(content),
                    reasoning,
                    now,
                    batch.len(),
                )->Ok_0,
                ..begun
            };
            assert(taken.has_turn(turn_id));
            law_journal_keeps_keys(taken, turn_id, revision, json, close_any(), row, now);
        }
    }
}

/// Settling a turn's place and noting a request keep the store well formed.
pub proof fn law_completion_keeps_keys(db: DbModel, turn_id: Seq<char>, stamp: i64)
    requires
        db.well_formed(),
    ensures
        db.completion_seq_bumped(turn_id) matches Ok(done) ==> done.well_formed(),
        db.request_noted(turn_id, stamp).well_formed(),
{
    if let Some(turn) = first(db.turns, with_turn_id(turn_id)) {
        if let Some(seq) = db.next_seq(turn.session_id) {
            lemma_turns_changed(db, with_turn_id(turn_id), at_seq(seq));
        }
        lemma_sessions_changed(db, with_session_id(turn.session_id), requested_at(stamp));
    }
}

proof fn lemma_cut_off_keys(db: DbModel, turn: TurnRowModel, now: Seq<char>)
    requires
        db.well_formed(),
        db.has_turn(turn.turn_id),
    ensures
        db.turn_cut_off(turn, now) matches Ok(done) ==> {
            &&& done.0.well_formed()
            &&& done.0.turn_ids() == db.turn_ids()
        },
{
    lemma_stale_prompts(db, turn.turn_id, turn.revision, turn.queue_session_id, now);
    if let Ok(taken) = db.stale_prompts_consumed(
        turn.turn_id,
        turn.revision,
        turn.queue_session_id,
        now,
    ) {
        let (content, reasoning) = taken.interrupted_projection(turn.turn_id, turn.revision);
        let p = running_revision(turn.turn_id, turn.revision);
        let f = cut_off(content, reasoning, now);
        lemma_turns_changed(taken, p, f);
        lemma_unique_change(taken.turns, p, f, turn_id_of());
        let cut = DbModel { turns: change_where(taken.turns, p, f), ..taken };
        law_completion_keeps_keys(cut, turn.turn_id, 0);
        if let Ok(moved) = cut.completion_seq_bumped(turn.turn_id) {
            if let Some(row) = first(cut.turns, with_turn_id(turn.turn_id)) {
                if let Some(seq) = cut.next_seq(row.session_id) {
                    lemma_unique_change(
                        cut.turns,
                        with_turn_id(turn.turn_id),
                        at_seq(seq),
                        turn_id_of(),
                    );
                }
            }
            assert(moved.turn_ids() == db.turn_ids());
            lemma_tied_change(
                moved.segments,
                running_segment_of(turn.turn_id, turn.revision),
                closed("interrupted"@, now),
                segment_turn(),
                moved.turn_ids(),
            );
        }
    }
}

proof fn lemma_followup_keys(db: DbModel, turn_id: Seq<char>, b: TurnRedoBackupModel)
    requires
        db.well_formed(),
    ensures
        db.followup_restored(turn_id, b).well_formed(),
        db.followup_restored(turn_id, b).turns == db.turns,
{
    if let (Some(content), Some(display), Some(prompt)) = (
        b.followup_content,
        b.followup_display_content,
        last_of(db.consumed(turn_id)),
    ) {
        lemma_unique_change(
            db.queued_prompts,
            with_prompt_id(prompt.prompt_id),
            reworded_prompt(content, display, b.followup_context_content),
            prompt_id_of(),
        );
    }
}

proof fn lemma_taken_back_keys(
    db: DbModel,
    turn_id: Seq<char>,
    session_id: Seq<char>,
    revision: i64,
    b: TurnRedoBackupModel,
)
    requires
        db.well_formed(),
        db.has_turn(turn_id),
        unique(b.loaded_items.map_values(item_restored(session_id)), item_key()),
    ensures
        db.redo_taken_back(turn_id, session_id, revision, b).well_formed(),
        db.redo_taken_back(turn_id, session_id, revision, b).turn_ids() == db.turn_ids(),
{
    let ids = db.turn_ids();
    lemma_items_replaced(
        db.loaded_items,
        session_id,
        b.loaded_items.map_values(item_restored(session_id)),
    );
    lemma_known_turn(db, turn_id);
    lemma_tied_filter(db.segments, not(segment_of(turn_id, revision)), segment_turn(), ids);
    lemma_tied_filter(db.events, not(event_of(turn_id, revision)), event_turn(), ids);
    lemma_tied_filter(db.questions, not(question_of(turn_id)), question_turn(), ids);
    lemma_tied_filter(db.question_backups, question_of(turn_id), question_turn(), ids);
    lemma_tied_filter(db.question_backups, not(question_of(turn_id)), question_turn(), ids);
    lemma_tied_concat(
        db.questions.filter(not(question_of(turn_id))),
        db.question_backups.filter(question_of(turn_id)),
        question_turn(),
        ids,
    );
    lemma_tied_filter(db.images, not(image_of(turn_id)), image_turn(), ids);
    lemma_tied_filter(db.image_backups, image_of(turn_id), image_turn(), ids);
    lemma_tied_filter(db.image_backups, not(image_of(turn_id)), image_turn(), ids);
    lemma_tied_concat(
        db.images.filter(not(image_of(turn_id))),
        db.image_backups.filter(image_of(turn_id)),
        image_turn(),
        ids,
    );
    lemma_tied_filter(db.artifacts, not(artifact_of(turn_id)), artifact_turn(), ids);
    lemma_tied_filter(db.artifact_backups, artifact_of(turn_id), artifact_turn(), ids);
    lemma_tied_filter(db.artifact_backups, not(artifact_of(turn_id)), artifact_turn(), ids);
    lemma_tied_concat(
        db.artifacts.filter(not(artifact_of(turn_id))),
        db.artifact_backups.filter(artifact_of(turn_id)),
        artifact_turn(),
        ids,
    );
    let checkpoints = db.checkpoints.filter(not(checkpoint_of(turn_id)));
    lemma_tied_filter(db.checkpoints, not(checkpoint_of(turn_id)), checkpoint_turn(), ids);
    if let Some(checkpoint) = b.checkpoint {
        lemma_tied_push(
            checkpoints,
            checkpoint_restored(turn_id, checkpoint),
            checkpoint_turn(),
            ids,
        );
    }
    lemma_tied_filter(db.backups, not(backup_at(turn_id, revision)), backup_turn(), ids);
    let late = db.queued_prompts.filter(consumed_by(turn_id)).map_values(prompt_id_of()).filter(
        |id: Seq<char>| !b.consumed_prompt_ids.contains(id),
    );
    lemma_unique_filter(db.queued_prompts, not(prompt_among(late)), prompt_id_of());
    lemma_unique_change(
        db.turns,
        running_revision(turn_id, revision),
        restored(b, less_one(revision)),
        turn_id_of(),
    );
    let kept = DbModel {
        segments: db.segments.filter(not(segment_of(turn_id, revision))),
        events: db.events.filter(not(event_of(turn_id, revision))),
        questions: db.questions.filter(not(question_of(turn_id))) + db.question_backups.filter(
            question_of(turn_id),
        ),
        images: db.images.filter(not(image_of(turn_id))) + db.image_backups.filter(
            image_of(turn_id),
        ),
        artifacts: db.artifacts.filter(not(artifact_of(turn_id))) + db.artifact_backups.filter(
            artifact_of(turn_id),
        ),
        loaded_items: db.loaded_items.filter(not(item_of(session_id)))
            + b.loaded_items.map_values(item_restored(session_id)),
        queued_prompts: db.queued_prompts.filter(not(prompt_among(late))),
        checkpoints: match b.checkpoint {
            Some(checkpoint) => checkpoints.push(checkpoint_restored(turn_id, checkpoint)),
            None => checkpoints,
        },
        turns: change_where(
            db.turns,
            running_revision(turn_id, revision),
            restored(b, less_one(revision)),
        ),
        backups: db.backups.filter(not(backup_at(turn_id, revision))),
        question_backups: db.question_backups.filter(not(question_of(turn_id))),
        image_backups: db.image_backups.filter(not(image_of(turn_id))),
        artifact_backups: db.artifact_backups.filter(not(artifact_of(turn_id))),
        ..db
    };
    lemma_followup_keys(kept, turn_id, b);
}

/// Giving a redo up keeps the store well formed.
pub proof fn law_giving_up_keeps_keys(db: DbModel, turn_id: Seq<char>, revision: i64)
    requires
        db.well_formed(),
    ensures
        db.restore_redo_backup(turn_id, revision) matches Ok(done) ==> {
            &&& done.0.well_formed()
            &&& done.0.turn_ids() == db.turn_ids()
        },
{
    if let Some(row) = first(db.backups, backup_at(turn_id, revision)) {
        let p = running_revision(turn_id, revision);
        if let Some(turn) = first(db.turns, p) {
            lemma_first(db.turns, p);
            lemma_turn_in(db, turn);
            lemma_known_turn(db, turn_id);
            if unique(
                row.payload.loaded_items.map_values(item_restored(turn.session_id)),
                item_key(),
            ) {
                lemma_taken_back_keys(db, turn_id, turn.session_id, revision, row.payload);
            }
        }
    }
}

proof fn lemma_recovered_keys(db: DbModel, turns: Seq<TurnRowModel>, now: Seq<char>, n: nat)
    requires
        db.well_formed(),
        n <= turns.len(),
        forall|i: int|
            0 <= i < turns.len() ==> db.turn_ids().contains((#[trigger] turns[i]).turn_id),
    ensures
        db.turns_recovered(turns, now, n) matches Ok(done) ==> {
            &&& done.0.well_formed()
            &&& done.0.turn_ids() == db.turn_ids()
        },
    decreases n,
{
    if n > 0 {
        lemma_recovered_keys(db, turns, now, (n - 1) as nat);
        if let Ok((before, _)) = db.turns_recovered(turns, now, (n - 1) as nat) {
            let turn = turns[n - 1];
            law_giving_up_keeps_keys(before, turn.turn_id, turn.revision);
            if let Ok((kept, restored)) = before.restore_redo_backup(turn.turn_id, turn.revision) {
                if !restored {
                    lemma_known_turn(kept, turn.turn_id);
                    lemma_cut_off_keys(kept, turn, now);
                }
            }
        }
    }
}

/// Recovering the turns of dead processes keeps the store well formed.
pub proof fn law_recovery_keeps_keys(db: DbModel, alive: Seq<u32>, now: Seq<char>)
    requires
        db.well_formed(),
    ensures
        db.recover_stale_running_turns(alive, now) matches Ok(done) ==> done.0.well_formed(),
{
    let stale = db.turns.filter(stale_turn(alive));
    assert forall|i: int| 0 <= i < stale.len() implies db.turn_ids().contains(
        (#[trigger] stale[i]).turn_id,
    ) by {
        assert(stale.contains(stale[i]));
        lemma_filter_contains(db.turns, stale_turn(alive), stale[i]);
        lemma_turn_in(db, stale[i]);
    }
    lemma_recovered_keys(db, stale, now, stale.len());
}

proof fn lemma_backed_up_keys(
    db: DbModel,
    turn: TurnRowModel,
    request: RedoRequest,
    now: Seq<char>,
)
    requires
        db.well_formed(),
        db.has_turn(request.turn_id),
    ensures
        db.backed_up(turn, request, now).well_formed(),
{
    let ids = db.turn_ids();
    let turn_id = request.turn_id;
    let after = db.backed_up(turn, request, now);
    lemma_known_turn(db, turn_id);
    assert(after.backups =~= db.backups.push(after.backups.last()));
    lemma_tied_push(db.backups, after.backups.last(), backup_turn(), ids);
    lemma_tied_filter(db.questions, question_of(turn_id), question_turn(), ids);
    lemma_tied_concat(
        db.question_backups,
        db.questions.filter(question_of(turn_id)),
        question_turn(),
        ids,
    );
    lemma_tied_filter(db.images, image_of(turn_id), image_turn(), ids);
    lemma_tied_concat(
        db.image_backups,
        db.images.filter(image_of(turn_id)),
        image_turn(),
        ids,
    );
    lemma_tied_filter(db.artifacts, artifact_of(turn_id), artifact_turn(), ids);
    lemma_tied_concat(
        db.artifact_backups,
        db.artifacts.filter(artifact_of(turn_id)),
        artifact_turn(),
        ids,
    );
}

proof fn lemma_rewound_keys(db: DbModel, request: RedoRequest, now: Seq<char>)
    requires
        db.well_formed(),
    ensures
        db.rewound(request, now) matches Ok(done) ==> {
            &&& done.0.well_formed()
            &&& done.0.turn_ids() == db.turn_ids()
        },
{
    let ids = db.turn_ids();
    let turn_id = request.turn_id;
    lemma_tied_filter(db.questions, not(question_of(turn_id)), question_turn(), ids);
    lemma_tied_filter(db.images, not(image_of(turn_id)), image_turn(), ids);
    lemma_tied_filter(db.artifacts, not(artifact_of(turn_id)), artifact_turn(), ids);
    let f = reworded(request.content, request.display_content);
    lemma_unique_change(db.turns, with_turn_id(turn_id), f, turn_id_of());
    lemma_unique_filter(
        db.loaded_items,
        not(item_from_turn(request.session_id, turn_id)),
        item_key(),
    );
    if let Some(found) = db.redo_checkpoint(turn_id) {
        if let Some(checkpoint) = found.payload {
            let items = checkpoint.loaded_items.map_values(
                item_from_triple(request.session_id, now),
            );
            if unique(items, item_key()) {
                lemma_items_replaced(db.loaded_items, request.session_id, items);
            }
            let images = db.images.filter(image_of(turn_id)).map_values(image_id());
            let artifacts = db.artifacts.filter(artifact_of(turn_id)).map_values(artifact_id());
            lemma_tied_filter(
                db.questions,
                not(question_from(turn_id, checkpoint.prefix_question_count as i64)),
                question_turn(),
                ids,
            );
            lemma_tied_filter(
                db.images,
                not(image_beyond(images, checkpoint.prefix_image_asset_ids)),
                image_turn(),
                ids,
            );
            lemma_tied_filter(
                db.artifacts,
                not(artifact_beyond(artifacts, checkpoint.prefix_artifact_asset_ids)),
                artifact_turn(),
                ids,
            );
            lemma_unique_change(
                db.queued_prompts,
                consumed_prompt(request.input_id, turn_id),
                reworded_prompt(
                    request.content,
                    request.display_content,
                    Some(request.content),
                ),
                prompt_id_of(),
            );
        }
    }
}

/// Beginning a redo keeps the store well formed.
pub proof fn law_redo_keeps_keys(db: DbModel, request: RedoRequest, now: Seq<char>)
    requires
        db.well_formed(),
    ensures
        db.begin_redo(request, now) matches Ok(done) ==> done.0.well_formed(),
{
    if let Ok(done) = db.begin_redo(request, now) {
        let turn = db.last_plain_turn(request.session_id)->0;
        let plain = db.turns.filter(plain_turn(request.session_id));
        let ordered = order_by(plain, by_seq());
        assert(ordered[ordered.len() - 1] == turn);
        assert(ordered.contains(turn));
        lemma_order_contains(plain, by_seq(), turn);
        lemma_filter_contains(db.turns, plain_turn(request.session_id), turn);
        lemma_turn_in(db, turn);
        lemma_known_turn(db, request.turn_id);
        lemma_backed_up_keys(db, turn, request, now);
        let backed = db.backed_up(turn, request, now);
        lemma_rewound_keys(backed, request, now);
        let (rewound, checkpoint) = backed.rewound(request, now)->Ok_0;
        let ids = rewound.turn_ids();
        let p = settled_turn(request.turn_id, request.session_id, request.expected_revision);
        let reports = match checkpoint {
            Some(checkpoint) => checkpoint.prefix_tool_reports,
            None => Seq::empty(),
        };
        lemma_unique_change(
            rewound.turns,
            p,
            claimed(json_strings(reports), request.owner_pid, request.queue),
            turn_id_of(),
        );
        let claimed_db = rewound.redo_claimed(request, checkpoint, now)->Ok_0;
        assert(claimed_db.segments =~= rewound.segments.push(claimed_db.segments.last()));
        assert(claimed_db.events =~= rewound.events.push(claimed_db.events.last()));
        lemma_tied_push(rewound.segments, claimed_db.segments.last(), segment_turn(), ids);
        lemma_tied_push(rewound.events, claimed_db.events.last(), event_turn(), ids);
        lemma_unique_change(
            rewound.sessions,
            with_session_id(request.session_id),
            set_updated_at(now),
            session_id_of(),
        );
    }
}

/// Saving a picture keeps the store well formed, for a turn that exists.
pub proof fn law_pictures_keep_keys(
    db: DbModel,
    turn_id: Seq<char>,
    tool_id: Option<Seq<char>>,
    file_name: Seq<char>,
    bytes: Seq<u8>,
    alt: Seq<char>,
    nanos: u128,
    salt: u64,
    now: Seq<char>,
)
    requires
        db.well_formed(),
        db.has_turn(turn_id),
    ensures
        db.save_image_asset(
            turn_id,
            tool_id,
            file_name,
            bytes,
            alt,
            nanos,
            salt,
            now,
        ) matches Ok(done) ==> done.0.well_formed() && done.0.turns == db.turns,
{
    if let Ok((after, asset)) = db.save_image_asset(
        turn_id,
        tool_id,
        file_name,
        bytes,
        alt,
        nanos,
        salt,
        now,
    ) {
        lemma_known_turn(db, turn_id);
        lemma_tied_push(
            db.images,
            ImageAssetDataModel { asset, bytes },
            image_turn(),
            db.turn_ids(),
        );
    }
}

proof fn lemma_salvage_keys(
    s: SalvageModel,
    own: (Seq<char>, Seq<char>),
    turn_id: Seq<char>,
    events: Seq<TurnJournalEventModel>,
    files: Seq<FoundFileModel>,
    stamps: Seq<(u128, u64)>,
    now: Seq<char>,
    n: nat,
)
    requires
        s.db.well_formed(),
        s.db.has_turn(turn_id),
    ensures
        ({
            let end = s.steps(own, turn_id, events, files, stamps, now, n);
            end.db.well_formed() && end.db.turns == s.db.turns
        }),
    decreases n,
{
    if n > 0 {
        lemma_salvage_keys(s, own, turn_id, events, files, stamps, now, (n - 1) as nat);
        let before = s.steps(own, turn_id, events, files, stamps, now, (n - 1) as nat);
        let event = events[n - 1];
        if let Some(JournalAssetModel::Image { path, alt }) = asset_of_event(event) {
            if let Some(file) = first(files, at_path(path)) {
                law_pictures_keep_keys(
                    before.db,
                    turn_id,
                    event.call_id,
                    file.file_name,
                    file.bytes,
                    alt,
                    stamps[n - 1].0,
                    stamps[n - 1].1,
                    now,
                );
            }
        }
    }
}

/// Taking over the files of an interrupted generation keeps the store well
/// formed.
pub proof fn law_salvage_keeps_keys(
    db: DbModel,
    own: (Seq<char>, Seq<char>),
    session_id: Seq<char>,
    turn_id: Seq<char>,
    files: Seq<FoundFileModel>,
    stamps: Seq<(u128, u64)>,
    now: Seq<char>,
)
    requires
        db.well_formed(),
    ensures
        db.recover_journal_assets(own, session_id, turn_id, files, stamps, now).0.well_formed(),
{
    let events = db.journal_of(session_id, turn_id);
    let turns = db.turns_where(turn_of(session_id));
    if events.len() > 0 {
        lemma_first(turns, turn_named(turn_id));
        let turn = first(turns, turn_named(turn_id))->0;
        let mine = db.turns.filter(turn_of(session_id));
        let ordered = order_by(mine, by_seq());
        let k = turns.index_of(turn);
        let row = ordered[k];
        assert(turns[k] == db.full_turn()(row));
        assert(ordered.contains(row));
        lemma_order_contains(mine, by_seq(), row);
        lemma_filter_contains(db.turns, turn_of(session_id), row);
        lemma_turn_in(db, row);
        lemma_known_turn(db, turn_id);
        let start = db.salvage(turn_id);
        lemma_salvage_keys(
            start,
            own,
            turn_id,
            events,
            files,
            stamps,
            now,
            events.len(),
        );
    }
}

} // verus!
